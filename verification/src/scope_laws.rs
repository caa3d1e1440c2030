//! What holds of the taint analyses that read a file scope by scope.
use crate::apex_taint::{apex_state_after, apex_taint, Apex};
use crate::cross_file::SinkFlow;
use crate::csharp_taint::{csharp_state_after, csharp_taint, CSharp};
use crate::java_taint::{
    java_sink_flows, java_state_after, java_taint, may_report, unlabeled_taint, Java,
};
use crate::scope::{
    assigned_in, call_flows, cross_flows, file_cross_flows, file_flows, passed, read_all,
    receivers_tainted, resolved_call, scope_cross_flows, scope_flows, settled, CrossFileLanguage,
    Given, ScopeLanguage, Siblings,
};
use crate::taint_engine::{is_wildcard, Flow, Info, Matcher, TaintRule};
use crate::text::Text;
use crate::tree::{gap, SyntaxTree};
use vstd::prelude::*;

verus! {

broadcast use crate::tree::group_tree;

/// No variable is tainted.
pub open spec fn clean() -> Map<Text, Info> {
    Map::empty()
}

// ─── Where nothing is a source ───────────────────────────────────────────────
/// A language in which taint comes from the sources of the rule alone.
pub trait SourcedLanguage: ScopeLanguage {
    /// No parameter is tainted where the rule has no source.
    proof fn clean_entry(t: &SyntaxTree, f: int, cx: Given<'_>)
        requires
            cx.rule.sources.len() == 0,
        ensures
            Self::entry_state(t, f, cx) == clean(),
    ;

    /// No node taints a variable where the rule has no source and nothing is tainted.
    proof fn clean_step(t: &SyntaxTree, i: int, cx: Given<'_>)
        requires
            cx.rule.sources.len() == 0,
        ensures
            Self::state_after(t, i, cx, clean()) == clean(),
            Self::reseeded(t, i, cx, clean()) == clean(),
    ;

    /// No expression is tainted where the rule has no source and nothing is tainted.
    proof fn clean_value(t: &SyntaxTree, i: int, cx: Given<'_>)
        requires
            cx.rule.sources.len() == 0,
        ensures
            Self::taint_of(t, i, cx, clean()) is None,
            Self::passed_on(t, i, cx, clean()) is None,
    ;

    /// Nothing flows into a sink where the rule has no source and nothing is tainted.
    proof fn clean_sinks(t: &SyntaxTree, b: int, cx: Given<'_>)
        requires
            cx.rule.sources.len() == 0,
        ensures
            Self::sink_flows(t, b, cx, clean()) == Seq::<Flow>::empty(),
    ;
}

proof fn lemma_java_value(t: &SyntaxTree, i: int, cx: Given<'_>)
    requires
        cx.rule.sources.len() == 0,
    ensures
        java_taint(t, i, cx, clean()) is None,
    decreases gap(i, t.len()), 0int,
{
    if 0 <= i < t.len() {
        let object = t.field(i, "object"@);
        let args = crate::java_taint::arguments_of(t, i);
        if object is Some {
            lemma_java_value(t, object->0, cx);
        }
        if args is Some {
            lemma_java_value(t, args->0, cx);
        }
        lemma_java_parts(t, i + 1, t.after(i), cx);
        assert(unlabeled_taint(t, i, cx, clean()) is None);
    }
}

proof fn lemma_java_parts(t: &SyntaxTree, c: int, e: int, cx: Given<'_>)
    requires
        cx.rule.sources.len() == 0,
    ensures
        crate::java_taint::parts_taint(t, c, e, cx, clean()) is None,
    decreases gap(c, t.len()), 1int,
{
    if 0 <= c < t.len() && c < e {
        lemma_java_value(t, c, cx);
        lemma_java_parts(t, t.after(c), e, cx);
    }
}

proof fn lemma_java_entry(t: &SyntaxTree, params: Seq<int>, from: int, cx: Given<'_>)
    requires
        cx.rule.sources.len() == 0,
    ensures
        crate::java_taint::seed_params(t, params, from, cx, clean()) == clean(),
    decreases params.len() - from,
{
    if 0 <= from < params.len() {
        lemma_java_entry(t, params, from + 1, cx);
    }
}

proof fn lemma_java_variable(t: &SyntaxTree, i: int, src: Text)
    ensures
        crate::java_taint::variable_taint(t, i, src, clean()) is None,
    decreases gap(i, t.len()), 0int,
{
    if 0 <= i < t.len() {
        lemma_java_variables(t, i + 1, t.after(i), src);
    }
}

proof fn lemma_java_variables(t: &SyntaxTree, c: int, e: int, src: Text)
    ensures
        crate::java_taint::variables_taint(t, c, e, src, clean()) is None,
    decreases gap(c, t.len()), 1int,
{
    if 0 <= c < t.len() && c < e {
        lemma_java_variable(t, c, src);
        lemma_java_variables(t, t.after(c), e, src);
    }
}

proof fn lemma_java_sinks(
    t: &SyntaxTree,
    c: int,
    e: int,
    cx: Given<'_>,
    types: Map<Text, Text>,
)
    requires
        cx.rule.sources.len() == 0,
    ensures
        crate::java_taint::flows_among(t, c, e, cx, clean(), types) == Seq::<Flow>::empty(),
    decreases gap(c, e),
{
    if c < e {
        if crate::java_taint::is_java_scope(t, c) {
            lemma_java_sinks(t, t.after(c), e, cx, types);
        } else {
            lemma_java_sinks(t, c + 1, e, cx, types);
            if let Some(x) = crate::java_taint::typed_target(t, c, cx.src, types) {
                lemma_java_value(t, x.1, cx);
            }
            if let Some(args) = crate::java_taint::arguments_of(t, c) {
                lemma_java_value(t, args, cx);
            }
            if let Some(k) = t.field(c, "object"@) {
                lemma_java_variable(t, k, cx.src);
            }
            assert(crate::java_taint::flows_at(t, c, cx, clean(), types) =~= Seq::<Flow>::empty());
        }
    }
}

impl SourcedLanguage for Java {
    proof fn clean_entry(t: &SyntaxTree, f: int, cx: Given<'_>) {
        lemma_java_entry(t, crate::java_taint::java_params(t, f), 0, cx);
    }

    proof fn clean_step(t: &SyntaxTree, i: int, cx: Given<'_>) {
        if let Some(value) = t.field(i, "value"@) {
            lemma_java_value(t, value, cx);
        }
        if let Some(right) = t.field(i, "right"@) {
            lemma_java_value(t, right, cx);
        }
        assert(java_state_after(t, i, cx, clean()) =~= clean());
    }

    proof fn clean_value(t: &SyntaxTree, i: int, cx: Given<'_>) {
        lemma_java_value(t, i, cx);
        if let Some(args) = crate::java_taint::arguments_of(t, i) {
            lemma_java_value(t, args, cx);
        }
    }

    proof fn clean_sinks(t: &SyntaxTree, b: int, cx: Given<'_>) {
        let types = crate::java_taint::locals_typed(t, b + 1, t.after(b), cx.src, Map::empty());
        lemma_java_sinks(t, b + 1, t.after(b), cx, types);
    }
}

proof fn lemma_csharp_value(t: &SyntaxTree, i: int, cx: Given<'_>)
    requires
        cx.rule.sources.len() == 0,
    ensures
        csharp_taint(t, i, cx, clean()) is None,
    decreases gap(i, t.len()), 0int,
{
    if 0 <= i < t.len() {
        if let Some(base) = t.field(i, "expression"@) {
            lemma_csharp_value(t, base, cx);
        }
        if let Some(args) = crate::csharp_taint::arguments_of(t, i) {
            lemma_csharp_parts(t, args + 1, t.after(args), cx);
        }
        lemma_csharp_parts(t, i + 1, t.after(i), cx);
    }
}

proof fn lemma_csharp_parts(t: &SyntaxTree, c: int, e: int, cx: Given<'_>)
    requires
        cx.rule.sources.len() == 0,
    ensures
        crate::csharp_taint::parts_taint(t, c, e, cx, clean()) is None,
        crate::csharp_taint::operand_taint(t, c, e, cx, clean()) is None,
        crate::csharp_taint::interpolated_taint(t, c, e, cx, clean()) is None,
        crate::csharp_taint::list_taint(t, c, e, cx, clean()) is None,
    decreases gap(c, t.len()), 1int,
{
    if 0 <= c < t.len() && c < e {
        lemma_csharp_value(t, c, cx);
        lemma_csharp_parts(t, c + 1, t.after(c), cx);
        lemma_csharp_parts(t, t.after(c), e, cx);
    }
}

proof fn lemma_csharp_entry(t: &SyntaxTree, params: Seq<int>, from: int, cx: Given<'_>)
    requires
        cx.rule.sources.len() == 0,
    ensures
        crate::csharp_taint::seed_params(t, params, from, cx, clean()) == clean(),
    decreases params.len() - from,
{
    if 0 <= from < params.len() {
        lemma_csharp_entry(t, params, from + 1, cx);
    }
}

proof fn lemma_csharp_filled(t: &SyntaxTree, c: int, e: int, cx: Given<'_>)
    requires
        cx.rule.sources.len() == 0,
    ensures
        crate::csharp_taint::filled_among(t, c, e, cx, clean()) == clean(),
    decreases gap(c, e),
{
    if c < e {
        if crate::csharp_taint::is_csharp_scope(t, c) {
            lemma_csharp_filled(t, t.after(c), e, cx);
        } else {
            lemma_csharp_filled(t, c + 1, e, cx);
        }
    }
}

proof fn lemma_csharp_concat(t: &SyntaxTree, c: int, e: int, cx: Given<'_>)
    requires
        cx.rule.sources.len() == 0,
    ensures
        crate::csharp_taint::concat_taint(t, c, e, cx, clean()) is None,
    decreases gap(c, e),
{
    if c < e {
        if let Some(k) = t.first_named(c) {
            lemma_csharp_value(t, k, cx);
        }
        lemma_csharp_concat(t, t.after(c), e, cx);
    }
}

proof fn lemma_csharp_sinks(t: &SyntaxTree, c: int, e: int, cx: Given<'_>)
    requires
        cx.rule.sources.len() == 0,
    ensures
        crate::csharp_taint::flows_among(t, c, e, cx, clean()) == Seq::<Flow>::empty(),
    decreases gap(c, e),
{
    if c < e {
        if crate::csharp_taint::is_csharp_scope(t, c) {
            lemma_csharp_sinks(t, t.after(c), e, cx);
        } else {
            lemma_csharp_sinks(t, c + 1, e, cx);
            if let Some(args) = crate::csharp_taint::arguments_of(t, c) {
                lemma_csharp_parts(t, args + 1, t.after(args), cx);
                lemma_csharp_concat(t, args + 1, t.after(args), cx);
            }
        }
    }
}

impl SourcedLanguage for CSharp {
    proof fn clean_entry(t: &SyntaxTree, f: int, cx: Given<'_>) {
        lemma_csharp_entry(t, crate::csharp_taint::csharp_params(t, f), 0, cx);
    }

    proof fn clean_step(t: &SyntaxTree, i: int, cx: Given<'_>) {
        if let Some(value) = crate::csharp_taint::initializer(t, i) {
            lemma_csharp_value(t, value, cx);
        }
        if let Some(right) = t.field(i, "right"@) {
            lemma_csharp_value(t, right, cx);
        }
        assert(csharp_state_after(t, i, cx, clean()) =~= clean());
        lemma_csharp_filled(t, i + 1, t.after(i), cx);
    }

    proof fn clean_value(t: &SyntaxTree, i: int, cx: Given<'_>) {
        lemma_csharp_value(t, i, cx);
        if let Some(args) = crate::csharp_taint::arguments_of(t, i) {
            lemma_csharp_parts(t, args + 1, t.after(args), cx);
        }
    }

    proof fn clean_sinks(t: &SyntaxTree, b: int, cx: Given<'_>) {
        lemma_csharp_sinks(t, b + 1, t.after(b), cx);
    }
}

proof fn lemma_apex_value(t: &SyntaxTree, i: int, cx: Given<'_>)
    requires
        cx.rule.sources.len() == 0,
    ensures
        apex_taint(t, i, cx, clean()) is None,
    decreases gap(i, t.len()), 0int,
{
    if 0 <= i < t.len() {
        if let Some(object) = t.field(i, "object"@) {
            lemma_apex_value(t, object, cx);
        }
        if let Some(args) = crate::apex_taint::arguments_of(t, i) {
            lemma_apex_value(t, args, cx);
        }
        lemma_apex_parts(t, i + 1, t.after(i), cx);
    }
}

proof fn lemma_apex_parts(t: &SyntaxTree, c: int, e: int, cx: Given<'_>)
    requires
        cx.rule.sources.len() == 0,
    ensures
        crate::apex_taint::parts_taint(t, c, e, cx, clean()) is None,
    decreases gap(c, t.len()), 1int,
{
    if 0 <= c < t.len() && c < e {
        lemma_apex_value(t, c, cx);
        lemma_apex_parts(t, t.after(c), e, cx);
    }
}

proof fn lemma_apex_entry(t: &SyntaxTree, params: Seq<int>, from: int, cx: Given<'_>)
    requires
        cx.rule.sources.len() == 0,
    ensures
        crate::apex_taint::seed_params(t, params, from, cx, clean()) == clean(),
    decreases params.len() - from,
{
    if 0 <= from < params.len() {
        lemma_apex_entry(t, params, from + 1, cx);
    }
}

proof fn lemma_apex_sinks(t: &SyntaxTree, c: int, e: int, cx: Given<'_>)
    requires
        cx.rule.sources.len() == 0,
    ensures
        crate::apex_taint::flows_among(t, c, e, cx, clean()) == Seq::<Flow>::empty(),
    decreases gap(c, e),
{
    if c < e {
        if crate::apex_taint::is_apex_scope(t, c) {
            lemma_apex_sinks(t, t.after(c), e, cx);
        } else {
            lemma_apex_sinks(t, c + 1, e, cx);
            if let Some(args) = crate::apex_taint::arguments_of(t, c) {
                lemma_apex_value(t, args, cx);
            }
        }
    }
}

impl SourcedLanguage for Apex {
    proof fn clean_entry(t: &SyntaxTree, f: int, cx: Given<'_>) {
        lemma_apex_entry(t, crate::apex_taint::apex_params(t, f), 0, cx);
    }

    proof fn clean_step(t: &SyntaxTree, i: int, cx: Given<'_>) {
        if let Some(value) = t.field(i, "value"@) {
            lemma_apex_value(t, value, cx);
        }
        if let Some(right) = t.field(i, "right"@) {
            lemma_apex_value(t, right, cx);
        }
        assert(apex_state_after(t, i, cx, clean()) =~= clean());
    }

    proof fn clean_value(t: &SyntaxTree, i: int, cx: Given<'_>) {
        lemma_apex_value(t, i, cx);
    }

    proof fn clean_sinks(t: &SyntaxTree, b: int, cx: Given<'_>) {
        lemma_apex_sinks(t, b + 1, t.after(b), cx);
    }
}

proof fn lemma_clean_read<L: SourcedLanguage>(t: &SyntaxTree, c: int, e: int, cx: Given<'_>)
    requires
        cx.rule.sources.len() == 0,
    ensures
        read_all::<L>(t, c, e, cx, clean()) == clean(),
    decreases gap(c, e),
{
    if c < e {
        if L::is_scope(t, c) {
            lemma_clean_read::<L>(t, t.after(c), e, cx);
        } else {
            L::clean_step(t, c, cx);
            lemma_clean_read::<L>(t, c + 1, e, cx);
        }
    }
}

proof fn lemma_clean_receivers<L: SourcedLanguage>(
    t: &SyntaxTree,
    c: int,
    e: int,
    propagators: Seq<Option<Text>>,
    cx: Given<'_>,
)
    requires
        cx.rule.sources.len() == 0,
    ensures
        receivers_tainted::<L>(t, c, e, propagators, cx, clean(), clean()) == clean(),
    decreases gap(c, e),
{
    if c < e {
        if L::is_scope(t, c) {
            lemma_clean_receivers::<L>(t, t.after(c), e, propagators, cx);
        } else {
            L::clean_value(t, c, cx);
            lemma_clean_receivers::<L>(t, c + 1, e, propagators, cx);
        }
    }
}

proof fn lemma_clean_pass<L: SourcedLanguage>(
    t: &SyntaxTree,
    b: int,
    propagators: Seq<Option<Text>>,
    cx: Given<'_>,
)
    requires
        cx.rule.sources.len() == 0,
    ensures
        passed::<L>(t, b, propagators, cx, clean()) == clean(),
{
    lemma_clean_read::<L>(t, b + 1, t.after(b), cx);
    L::clean_step(t, b, cx);
    lemma_clean_receivers::<L>(t, b + 1, t.after(b), propagators, cx);
}

proof fn lemma_clean_flows<L: SourcedLanguage>(
    t: &SyntaxTree,
    c: int,
    e: int,
    propagators: Seq<Option<Text>>,
    cx: Given<'_>,
)
    requires
        cx.rule.sources.len() == 0,
    ensures
        file_flows::<L>(t, c, e, propagators, cx) == Seq::<Flow>::empty(),
    decreases gap(c, e),
{
    if c < e {
        lemma_clean_flows::<L>(t, c + 1, e, propagators, cx);
        if L::is_scope(t, c) {
            let b = L::body(t, c);
            L::clean_entry(t, c, cx);
            lemma_clean_pass::<L>(t, b, propagators, cx);
            assert(settled::<L>(t, c, propagators, cx) == clean());
            L::clean_sinks(t, b, cx);
            assert(scope_flows::<L>(t, c, propagators, cx) == Seq::<Flow>::empty());
        }
    }
}

/// A rule without a source finds no flow in a file, whatever its sinks, its propagators
/// and its labels.
pub proof fn no_source_no_flow<L: SourcedLanguage>(
    t: &SyntaxTree,
    root: int,
    propagators: Seq<Option<Text>>,
    cx: Given<'_>,
)
    requires
        cx.rule.sources.len() == 0,
    ensures
        file_flows::<L>(t, root, t.after(root), propagators, cx) == Seq::<Flow>::empty(),
{
    lemma_clean_flows::<L>(t, root, t.after(root), propagators, cx);
}

proof fn lemma_clean_calls<L: SourcedLanguage>(
    t: &SyntaxTree,
    i: int,
    name: Text,
    args: Seq<int>,
    flows: Seq<SinkFlow>,
    from: int,
    allowed: Seq<Text>,
    cx: Given<'_>,
)
    requires
        cx.rule.sources.len() == 0,
    ensures
        call_flows::<L>(t, i, name, args, flows, from, allowed, cx, clean()) == Seq::<
            Flow,
        >::empty(),
    decreases flows.len() - from,
{
    if 0 <= from < flows.len() {
        L::clean_value(t, args[flows[from].param_index], cx);
        lemma_clean_calls::<L>(t, i, name, args, flows, from + 1, allowed, cx);
    }
}

proof fn lemma_clean_cross<L: SourcedLanguage + CrossFileLanguage>(
    t: &SyntaxTree,
    c: int,
    e: int,
    others: Siblings,
    cx: Given<'_>,
)
    requires
        cx.rule.sources.len() == 0,
    ensures
        cross_flows::<L>(t, c, e, others, cx, clean()) == Seq::<Flow>::empty(),
    decreases gap(c, e),
{
    if c < e {
        if L::is_scope(t, c) {
            lemma_clean_cross::<L>(t, t.after(c), e, others, cx);
        } else {
            lemma_clean_cross::<L>(t, c + 1, e, others, cx);
            if let Some(x) = resolved_call::<L>(t, c, cx.src, others) {
                lemma_clean_calls::<L>(
                    t,
                    c,
                    x.0,
                    x.2,
                    x.1.params_to_sink,
                    0,
                    others.allowed,
                    cx,
                );
            }
        }
    }
}

proof fn lemma_clean_cross_file<L: SourcedLanguage + CrossFileLanguage>(
    t: &SyntaxTree,
    c: int,
    e: int,
    others: Siblings,
    cx: Given<'_>,
)
    requires
        cx.rule.sources.len() == 0,
    ensures
        file_cross_flows::<L>(t, c, e, others, cx) == Seq::<Flow>::empty(),
    decreases gap(c, e),
{
    if c < e {
        lemma_clean_cross_file::<L>(t, c + 1, e, others, cx);
        if L::is_scope(t, c) {
            let b = L::body(t, c);
            L::clean_entry(t, c, cx);
            lemma_clean_read::<L>(t, b + 1, t.after(b), cx);
            assert(assigned_in::<L>(t, c, cx) == clean());
            lemma_clean_cross::<L>(t, b + 1, t.after(b), others, cx);
            assert(scope_cross_flows::<L>(t, c, others, cx) == Seq::<Flow>::empty());
        }
    }
}

/// Rules without a source find no flow into the functions of other files, whatever is known
/// of those functions.
pub proof fn no_source_no_cross_file_flow<L: SourcedLanguage + CrossFileLanguage>(
    t: &SyntaxTree,
    root: int,
    others: Siblings,
    cx: Given<'_>,
)
    requires
        cx.rule.sources.len() == 0,
    ensures
        file_cross_flows::<L>(t, root, t.after(root), others, cx) == Seq::<Flow>::empty(),
{
    lemma_clean_cross_file::<L>(t, root, t.after(root), others, cx);
}

// ─── Sanitizers and assignments ──────────────────────────────────────────────
/// A Java call of a sanitizer is clean, whatever its arguments, unless a tainted name is
/// spelled like the call.
pub proof fn java_sanitizer_call_is_clean(
    t: &SyntaxTree,
    i: int,
    cx: Given<'_>,
    st: Map<Text, Info>,
)
    requires
        crate::java_taint::some_matches(cx.rule.sanitizers, t, i, cx.src),
        !st.contains_key(t.text(i, cx.src)),
    ensures
        java_taint(t, i, cx, st) is None,
{
    assert(unlabeled_taint(t, i, cx, st) is None);
}

/// A C# call of a sanitizer is clean, whatever its arguments, unless a tainted name is spelled
/// like the call.
pub proof fn csharp_sanitizer_call_is_clean(
    t: &SyntaxTree,
    i: int,
    cx: Given<'_>,
    st: Map<Text, Info>,
)
    requires
        crate::csharp_taint::some_matches(cx.rule.sanitizers, t, i, cx.src),
        !st.contains_key(t.text(i, cx.src)),
    ensures
        csharp_taint(t, i, cx, st) is None,
{
}

/// An Apex call of a sanitizer is clean, whatever its arguments, unless a tainted name is
/// spelled like the call.
pub proof fn apex_sanitizer_call_is_clean(
    t: &SyntaxTree,
    i: int,
    cx: Given<'_>,
    st: Map<Text, Info>,
)
    requires
        crate::apex_taint::some_matches(cx.rule.sanitizers, t, i, cx.src),
        !st.contains_key(t.text(i, cx.src)),
    ensures
        apex_taint(t, i, cx, st) is None,
{
}

/// An assignment of a clean expression cleans the variable, in every language that is read
/// scope by scope.
pub proof fn clean_assignment_cleans(
    t: &SyntaxTree,
    i: int,
    left: int,
    right: int,
    cx: Given<'_>,
    st: Map<Text, Info>,
)
    requires
        t.kind(i) == "assignment_expression"@,
        t.field(i, "left"@) == Some(left),
        t.field(i, "right"@) == Some(right),
        t.kind(left) == "identifier"@,
    ensures
        java_taint(t, right, cx, st) is None ==> !java_state_after(t, i, cx, st).contains_key(
            t.text(left, cx.src),
        ),
        csharp_taint(t, right, cx, st) is None ==> !csharp_state_after(
            t,
            i,
            cx,
            st,
        ).contains_key(t.text(left, cx.src)),
        apex_taint(t, right, cx, st) is None ==> !apex_state_after(t, i, cx, st).contains_key(
            t.text(left, cx.src),
        ),
{
    reveal_strlit("assignment_expression");
    reveal_strlit("variable_declarator");
    assert("assignment_expression"@.len() != "variable_declarator"@.len());
}

// ─── Parameters ──────────────────────────────────────────────────────────────
/// The rule takes every parameter for a source.
pub open spec fn distrusts_parameters(rule: TaintRule) -> bool {
    exists|k: int|
        #![trigger rule.sources[k]]
        0 <= k < rule.sources.len() && match rule.sources[k] {
            Matcher::ParamName { names, .. } => is_wildcard(names),
            _ => false,
        }
}

proof fn lemma_java_seeds(
    t: &SyntaxTree,
    params: Seq<int>,
    from: int,
    cx: Given<'_>,
    st: Map<Text, Info>,
    name: Text,
)
    requires
        0 <= from,
        distrusts_parameters(cx.rule),
        st.contains_key(name) || exists|k: int|
            #![trigger params[k]]
            from <= k < params.len() && crate::java_taint::param_name(t, params[k], cx.src) == Some(
                name,
            ),
    ensures
        crate::java_taint::seed_params(t, params, from, cx, st).contains_key(name),
    decreases params.len() - from,
{
    if from < params.len() {
        let i = params[from];
        let next = match crate::java_taint::param_name(t, i, cx.src) {
            Some(n) => match crate::java_taint::param_source(t, i, n, cx) {
                Some(d) => st.insert(n, crate::scope::fresh(t, i, d, cx)),
                None => st,
            },
            None => st,
        };
        if let Some(n) = crate::java_taint::param_name(t, i, cx.src) {
            let k = choose|k: int|
                #![trigger cx.rule.sources[k]]
                0 <= k < cx.rule.sources.len() && match cx.rule.sources[k] {
                    Matcher::ParamName { names, .. } => is_wildcard(names),
                    _ => false,
                };
            assert(crate::java_taint::param_named_by(cx.rule.sources[k], n));
            assert(crate::java_taint::names_param(cx.rule.sources, n));
        }
        lemma_java_seeds(t, params, from + 1, cx, next, name);
    }
}

/// A rule that takes every parameter for a source taints each named parameter of a Java scope.
pub proof fn java_parameters_are_tainted(t: &SyntaxTree, f: int, k: int, cx: Given<'_>)
    requires
        distrusts_parameters(cx.rule),
        0 <= k < crate::java_taint::java_params(t, f).len(),
        crate::java_taint::param_name(t, crate::java_taint::java_params(t, f)[k], cx.src) is Some,
    ensures
        Java::entry_state(t, f, cx).contains_key(
            crate::java_taint::param_name(
                t,
                crate::java_taint::java_params(t, f)[k],
                cx.src,
            )->0,
        ),
{
    let params = crate::java_taint::java_params(t, f);
    let name = crate::java_taint::param_name(t, params[k], cx.src)->0;
    lemma_java_seeds(t, params, 0, cx, clean(), name);
}

proof fn lemma_csharp_seeds(
    t: &SyntaxTree,
    params: Seq<int>,
    from: int,
    cx: Given<'_>,
    st: Map<Text, Info>,
    name: Text,
)
    requires
        0 <= from,
        distrusts_parameters(cx.rule),
        st.contains_key(name) || exists|k: int|
            #![trigger params[k]]
            from <= k < params.len() && t.field_text(params[k], "name"@, cx.src) == Some(name),
    ensures
        crate::csharp_taint::seed_params(t, params, from, cx, st).contains_key(name),
    decreases params.len() - from,
{
    if from < params.len() {
        let i = params[from];
        let next = match t.field_text(i, "name"@, cx.src) {
            Some(n) => match crate::csharp_taint::param_source(t, i, n, from == 0, cx) {
                Some(d) => st.insert(n, crate::scope::fresh(t, i, d, cx)),
                None => st,
            },
            None => st,
        };
        if let Some(n) = t.field_text(i, "name"@, cx.src) {
            let k = choose|k: int|
                #![trigger cx.rule.sources[k]]
                0 <= k < cx.rule.sources.len() && match cx.rule.sources[k] {
                    Matcher::ParamName { names, .. } => is_wildcard(names),
                    _ => false,
                };
            assert(crate::csharp_taint::param_named_by(cx.rule.sources[k], n));
            assert(crate::csharp_taint::names_param(cx.rule.sources, n));
        }
        lemma_csharp_seeds(t, params, from + 1, cx, next, name);
    }
}

/// A rule that takes every parameter for a source taints each named parameter of a C# scope.
pub proof fn csharp_parameters_are_tainted(t: &SyntaxTree, f: int, k: int, cx: Given<'_>)
    requires
        distrusts_parameters(cx.rule),
        0 <= k < crate::csharp_taint::csharp_params(t, f).len(),
        t.field_text(crate::csharp_taint::csharp_params(t, f)[k], "name"@, cx.src) is Some,
    ensures
        CSharp::entry_state(t, f, cx).contains_key(
            t.field_text(crate::csharp_taint::csharp_params(t, f)[k], "name"@, cx.src)->0,
        ),
{
    let params = crate::csharp_taint::csharp_params(t, f);
    let name = t.field_text(params[k], "name"@, cx.src)->0;
    lemma_csharp_seeds(t, params, 0, cx, clean(), name);
}

proof fn lemma_apex_seeds(
    t: &SyntaxTree,
    params: Seq<int>,
    from: int,
    cx: Given<'_>,
    st: Map<Text, Info>,
    name: Text,
)
    requires
        0 <= from,
        crate::apex_taint::names_param(cx.rule.sources, name),
        st.contains_key(name) || exists|k: int|
            #![trigger params[k]]
            from <= k < params.len() && crate::java_taint::param_name(t, params[k], cx.src) == Some(
                name,
            ),
    ensures
        crate::apex_taint::seed_params(t, params, from, cx, st).contains_key(name),
    decreases params.len() - from,
{
    if from < params.len() {
        let i = params[from];
        let next = match crate::java_taint::param_name(t, i, cx.src) {
            Some(n) => if crate::apex_taint::names_param(cx.rule.sources, n) {
                st.insert(
                    n,
                    crate::scope::fresh(t, i, "untrusted parameter '"@ + n + "'"@, cx),
                )
            } else {
                st
            },
            None => st,
        };
        lemma_apex_seeds(t, params, from + 1, cx, next, name);
    }
}

/// A parameter of an Apex method that the rule takes for a source is tainted where the method
/// is entered.
pub proof fn apex_parameters_are_tainted(t: &SyntaxTree, f: int, k: int, cx: Given<'_>, name: Text)
    requires
        0 <= k < crate::apex_taint::apex_params(t, f).len(),
        crate::java_taint::param_name(t, crate::apex_taint::apex_params(t, f)[k], cx.src) == Some(
            name,
        ),
        crate::apex_taint::names_param(cx.rule.sources, name),
    ensures
        Apex::entry_state(t, f, cx).contains_key(name),
{
    let params = crate::apex_taint::apex_params(t, f);
    lemma_apex_seeds(t, params, 0, cx, clean(), name);
}

// ─── Labels ──────────────────────────────────────────────────────────────────
proof fn lemma_java_gated(
    t: &SyntaxTree,
    c: int,
    e: int,
    cx: Given<'_>,
    st: Map<Text, Info>,
    types: Map<Text, Text>,
)
    requires
        forall|info: Info| !#[trigger] may_report(info, cx.policy),
    ensures
        crate::java_taint::flows_among(t, c, e, cx, st, types) == Seq::<Flow>::empty(),
    decreases gap(c, e),
{
    if c < e {
        if crate::java_taint::is_java_scope(t, c) {
            lemma_java_gated(t, t.after(c), e, cx, st, types);
        } else {
            lemma_java_gated(t, c + 1, e, cx, st, types);
            assert(crate::java_taint::flows_at(t, c, cx, st, types) =~= Seq::<Flow>::empty());
        }
    }
}

/// A rule whose requirement on labels no value meets finds no flow, whatever is tainted.
pub proof fn unmet_requirement_no_flow(
    t: &SyntaxTree,
    b: int,
    cx: Given<'_>,
    st: Map<Text, Info>,
)
    requires
        forall|info: Info| !#[trigger] may_report(info, cx.policy),
    ensures
        java_sink_flows(t, b, cx, st) == Seq::<Flow>::empty(),
{
    let types = crate::java_taint::locals_typed(t, b + 1, t.after(b), cx.src, Map::empty());
    lemma_java_gated(t, b + 1, t.after(b), cx, st, types);
}

} // verus!
