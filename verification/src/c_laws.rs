//! What holds of the C taint analysis as a whole.
use crate::c_taint::{
    callee_of, function_flows, function_origins, is_constant, is_sanitizer, origin_names, settings,
    sink_at, spread, spread_at, spread_set, tainted_in, uses_tainted, Origin,
};
use crate::taint_engine::{Flow, Matcher, TaintRule};
use crate::text::Text;
use crate::tree::{gap, SyntaxTree};
use vstd::prelude::*;

verus! {

broadcast use crate::tree::group_tree;

/// A call of a sanitizer is clean, whatever its arguments.
pub proof fn sanitizer_call_is_clean(
    t: &SyntaxTree,
    i: int,
    src: Text,
    rule: TaintRule,
    tainted: Set<Text>,
)
    requires
        is_sanitizer(t, i, src, rule.sanitizers),
    ensures
        !uses_tainted(t, i, src, rule, tainted),
{
    reveal_strlit("call_expression");
    reveal_strlit("identifier");
    reveal_strlit("subscript_expression");
    assert("call_expression"@.len() == 15);
    assert("identifier"@.len() == 10);
    assert("subscript_expression"@.len() == 20);
}

/// A copy of a constant number of bytes is no sink, whatever is copied.
pub proof fn constant_length_copy_is_no_sink(
    t: &SyntaxTree,
    i: int,
    args: int,
    src: Text,
    sinks: Seq<Matcher>,
    tainted: Set<Text>,
)
    requires
        callee_of(t, i, src) == Some("memcpy"@) || callee_of(t, i, src) == Some("memmove"@),
        t.field(i, "arguments"@) == Some(args),
        t.named_children(args).len() > 2,
        is_constant(t, t.named_children(args)[2]),
    ensures
        sink_at(t, i, src, sinks, tainted) is None,
{
    reveal_strlit("memcpy");
    reveal_strlit("memmove");
    reveal_strlit("printf");
    reveal_strlit("fprintf");
    reveal_strlit("syslog");
    reveal_strlit("execl");
    reveal_strlit("execlp");
    reveal_strlit("execle");
    reveal_strlit("execv");
    reveal_strlit("execvp");
    reveal_strlit("execve");
    assert("memcpy"@[0] == 'm' && "memmove"@[0] == 'm');
    assert("printf"@[0] == 'p' && "fprintf"@[0] == 'f' && "syslog"@[0] == 's');
    assert("execl"@[0] == 'e' && "execlp"@[0] == 'e' && "execle"@[0] == 'e');
    assert("execv"@[0] == 'e' && "execvp"@[0] == 'e' && "execve"@[0] == 'e');
}

/// `printf` with a literal format is no sink, whatever it prints.
pub proof fn literal_format_is_no_sink(
    t: &SyntaxTree,
    i: int,
    args: int,
    src: Text,
    sinks: Seq<Matcher>,
    tainted: Set<Text>,
)
    requires
        callee_of(t, i, src) == Some("printf"@),
        t.field(i, "arguments"@) == Some(args),
        t.named_children(args).len() > 0 ==> t.kind(t.named_children(args)[0])
            == "string_literal"@,
    ensures
        sink_at(t, i, src, sinks, tainted) is None,
{
    reveal_strlit("printf");
    reveal_strlit("execl");
    reveal_strlit("execlp");
    reveal_strlit("execle");
    reveal_strlit("execv");
    reveal_strlit("execvp");
    reveal_strlit("execve");
    assert("printf"@[0] == 'p');
    assert("execl"@[0] == 'e' && "execlp"@[0] == 'e' && "execle"@[0] == 'e');
    assert("execv"@[0] == 'e' && "execvp"@[0] == 'e' && "execve"@[0] == 'e');
}

pub(crate) proof fn lemma_spread_set_grows(
    t: &SyntaxTree,
    set: Seq<(Text, int)>,
    from: int,
    src: Text,
    rule: TaintRule,
    tainted: Set<Text>,
)
    ensures
        tainted.subset_of(spread_set(t, set, from, src, rule, tainted)),
    decreases set.len() - from,
{
    if 0 <= from < set.len() {
        let next = if uses_tainted(t, set[from].1, src, rule, tainted) {
            tainted.insert(set[from].0)
        } else {
            tainted
        };
        lemma_spread_set_grows(t, set, from + 1, src, rule, next);
    }
}

pub(crate) proof fn lemma_spread_grows(
    t: &SyntaxTree,
    c: int,
    e: int,
    src: Text,
    rule: TaintRule,
    tainted: Set<Text>,
)
    ensures
        tainted.subset_of(spread(t, c, e, src, rule, tainted)),
    decreases gap(c, e),
{
    if c < e {
        let next = spread_at(t, c, src, rule, tainted);
        lemma_spread_set_grows(t, settings(t, c, src), 0, src, rule, tainted);
        assert(tainted.subset_of(next));
        lemma_spread_grows(t, c + 1, e, src, rule, next);
    }
}

pub(crate) proof fn lemma_origin_names(origins: Seq<Origin>, k: int)
    requires
        0 <= k < origins.len(),
    ensures
        origin_names(origins).contains(origins[k].name),
    decreases origins.len(),
{
    if k < origins.len() - 1 {
        lemma_origin_names(origins.drop_last(), k);
    }
}

/// Every name that untrusted data is read into stays tainted in its function.
pub proof fn origins_stay_tainted(
    t: &SyntaxTree,
    b: int,
    src: Text,
    rule: TaintRule,
    origins: Seq<Origin>,
    k: int,
)
    requires
        0 <= k < origins.len(),
    ensures
        tainted_in(t, b, src, rule, origins).contains(origins[k].name),
{
    let names = origin_names(origins);
    let first = spread(t, b, t.after(b), src, rule, names);
    lemma_origin_names(origins, k);
    lemma_spread_grows(t, b, t.after(b), src, rule, names);
    lemma_spread_grows(t, b, t.after(b), src, rule, first);
}

/// A function that reads no untrusted data has no flow.
pub proof fn no_origin_no_flow(t: &SyntaxTree, f: int, src: Text, rule: TaintRule)
    requires
        function_origins(t, f, src, rule.sources).len() == 0,
    ensures
        function_flows(t, f, src, rule) == Seq::<Flow>::empty(),
{
}

} // verus!
