//! What holds of the Bash taint analysis as a whole.
use crate::bash_taint::{
    after_assignment, after_read, argument_among, assigned_value, bash_state_after, expanded_among,
    flows_among, function_flows, functions_flows, is_sanitized, params_tainted, script_flows,
    value_among, value_of,
};
use crate::scope_laws::clean;
use crate::taint_engine::{Flow, Info, TaintRule};
use crate::text::Text;
use crate::tree::{gap, SyntaxTree};
use vstd::prelude::*;

verus! {

broadcast use crate::tree::group_tree;

/// A variable that is set to a substitution in which a sanitizer runs is clean afterwards,
/// whatever else the substitution holds.
pub proof fn sanitized_substitution_cleans(
    t: &SyntaxTree,
    i: int,
    name: int,
    value: int,
    src: Text,
    rule: TaintRule,
    st: Map<Text, Info>,
)
    requires
        t.kind(i) == "variable_assignment"@,
        t.field(i, "name"@) == Some(name),
        t.kind(name) == "variable_name"@,
        t.field(i, "value"@) == Some(value),
        is_sanitized(t, value, src, rule.sanitizers),
    ensures
        !bash_state_after(t, i, src, rule, st).contains_key(t.text(name, src)),
{
    assert(assigned_value(t, i, src, rule, st) is None);
}

/// A variable that is set to an untainted value is clean afterwards.
pub proof fn clean_assignment_cleans(
    t: &SyntaxTree,
    i: int,
    name: int,
    value: int,
    src: Text,
    rule: TaintRule,
    st: Map<Text, Info>,
)
    requires
        t.kind(i) == "variable_assignment"@,
        t.field(i, "name"@) == Some(name),
        t.kind(name) == "variable_name"@,
        t.field(i, "value"@) == Some(value),
        value_of(t, value, src, rule.sources, st) is None,
    ensures
        !bash_state_after(t, i, src, rule, st).contains_key(t.text(name, src)),
{
    assert(assigned_value(t, i, src, rule, st) is None);
}

proof fn lemma_clean_expansion(t: &SyntaxTree, c: int, e: int, src: Text)
    ensures
        expanded_among(t, c, e, src, clean()) is None,
    decreases gap(c, e),
{
    if c < e {
        lemma_clean_expansion(t, t.after(c), e, src);
        lemma_clean_expansion(t, c + 1, e, src);
    }
}

proof fn lemma_clean_value(t: &SyntaxTree, i: int, src: Text, rule: TaintRule)
    requires
        rule.sources.len() == 0,
    ensures
        value_of(t, i, src, rule.sources, clean()) is None,
    decreases gap(i, t.len()), 0int,
{
    if 0 <= i < t.len() {
        lemma_clean_expansion(t, i, t.after(i), src);
        lemma_clean_values(t, i + 1, t.after(i), src, rule);
    }
}

proof fn lemma_clean_values(t: &SyntaxTree, c: int, e: int, src: Text, rule: TaintRule)
    requires
        rule.sources.len() == 0,
    ensures
        value_among(t, c, e, src, rule.sources, clean()) is None,
    decreases gap(c, t.len()), 1int,
{
    if 0 <= c < t.len() && c < e {
        lemma_clean_value(t, c, src, rule);
        lemma_clean_values(t, t.after(c), e, src, rule);
    }
}

proof fn lemma_clean_step(t: &SyntaxTree, i: int, src: Text, rule: TaintRule)
    requires
        rule.sources.len() == 0,
    ensures
        bash_state_after(t, i, src, rule, clean()) == clean(),
{
    if let Some(v) = t.field(i, "value"@) {
        lemma_clean_value(t, v, src, rule);
    }
    assert(after_assignment(t, i, src, rule, clean()) =~= clean());
    assert(after_read(t, i, src, rule.sources, clean()) == clean());
}

proof fn lemma_clean_arguments(t: &SyntaxTree, c: int, e: int, src: Text)
    ensures
        argument_among(t, c, e, src, clean()) is None,
    decreases gap(c, e),
{
    if c < e {
        lemma_clean_expansion(t, c, t.after(c), src);
        lemma_clean_arguments(t, t.after(c), e, src);
    }
}

proof fn lemma_clean_flows(
    t: &SyntaxTree,
    c: int,
    e: int,
    skip: bool,
    src: Text,
    rule: TaintRule,
)
    requires
        rule.sources.len() == 0,
    ensures
        flows_among(t, c, e, skip, src, rule, clean()) == Seq::<Flow>::empty(),
    decreases gap(c, e),
{
    if c < e {
        if skip && t.kind(c) == "function_definition"@ {
            lemma_clean_flows(t, t.after(c), e, skip, src, rule);
        } else {
            lemma_clean_step(t, c, src, rule);
            lemma_clean_arguments(t, c + 1, t.after(c), src);
            lemma_clean_flows(t, c + 1, e, skip, src, rule);
        }
    }
}

proof fn lemma_clean_functions(t: &SyntaxTree, c: int, e: int, src: Text, rule: TaintRule)
    requires
        rule.sources.len() == 0,
    ensures
        functions_flows(t, c, e, src, rule) == Seq::<Flow>::empty(),
    decreases gap(c, e),
{
    if c < e {
        lemma_clean_functions(t, c + 1, e, src, rule);
        if let Some(b) = t.field(c, "body"@) {
            lemma_clean_flows(t, b, t.after(b), false, src, rule);
        }
        assert(params_tainted(rule.sources, 0, t.line(c), clean()) == clean());
        assert(function_flows(t, c, src, rule) == Seq::<Flow>::empty());
    }
}

/// A rule without a source finds no flow in a script.
pub proof fn no_source_no_flow(t: &SyntaxTree, root: int, src: Text, rule: TaintRule)
    requires
        rule.sources.len() == 0,
    ensures
        script_flows(t, root, src, rule) == Seq::<Flow>::empty(),
{
    assert(params_tainted(rule.sources, 0, t.line(root), clean()) == clean());
    lemma_clean_flows(t, root, t.after(root), true, src, rule);
    lemma_clean_functions(t, root, t.after(root), src, rule);
}

} // verus!
