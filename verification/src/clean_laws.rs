//! What the taint analyses leave alone: expressions without tainted parts, calls that are no
//! sinks, and methods that return nothing tainted.
use crate::apex_taint::apex_taint;
use crate::csharp_taint::{
    csharp_source, csharp_taint, interpolated_taint, list_taint, operand_taint,
};
use crate::go_taint::{
    call_taint_of, go_source, taint_of, taint_of_literal, taint_of_named, Facts, ReturnFacts,
};
use crate::java_taint::java_taint;
use crate::scope::{gives_back, Given, ScopeLanguage};
use crate::taint_engine::{Flow, Info, Matcher};
use crate::text::Text;
use crate::tree::{gap, SyntaxTree};
use crate::tree_laws::{
    a_child_lies_within_its_parent, a_field_is_the_first_child_in_it, children_name_their_parent,
    is_child, lemma_walk_on, walks_children,
};
use vstd::prelude::*;

verus! {

broadcast use crate::tree::group_tree;

proof fn lemma_children(t: &SyntaxTree, i: int)
    requires
        t.wf(),
        0 <= i < t.len(),
    ensures
        walks_children(t, i, i + 1, t.after(i)),
{
    assert forall|a: int|
        #![trigger t.siblings(i + 1, t.after(i)).contains(a)]
        t.siblings(i + 1, t.after(i)).contains(a) implies is_child(t, i, a) by {
        children_name_their_parent(t, i, a);
    }
}

// ─── Java ────────────────────────────────────────────────────────────────────
/// Whether nothing in node `i` is spelled like a tainted variable or is a source of Java.
pub open spec fn is_java_clean(t: &SyntaxTree, i: int, cx: Given<'_>, st: Map<Text, Info>) -> bool {
    forall|m: int|
        #![trigger t.kind(m)]
        i <= m < t.after(i) ==> !st.contains_key(t.text(m, cx.src)) && crate::java_taint::source_at(
            cx.rule.sources,
            t,
            m,
            cx.src,
        ) is None
}

/// An expression of Java is clean where nothing in it is tainted and nothing is a source.
pub proof fn a_java_expression_of_clean_parts_is_clean(
    t: &SyntaxTree,
    i: int,
    cx: Given<'_>,
    st: Map<Text, Info>,
)
    requires
        t.wf(),
        0 <= i < t.len(),
        i < t.after(i),
        is_java_clean(t, i, cx, st),
    ensures
        java_taint(t, i, cx, st) is None,
    decreases gap(i, t.len()), 1int,
{
    assert(t.kind(i) == t.kind(i));
    if let Some(k) = t.field(i, "object"@) {
        a_field_is_the_first_child_in_it(t, i, "object"@);
        a_child_lies_within_its_parent(t, i, k);
        a_java_expression_of_clean_parts_is_clean(t, k, cx, st);
    }
    if let Some(k) = t.field(i, "arguments"@) {
        a_field_is_the_first_child_in_it(t, i, "arguments"@);
        a_child_lies_within_its_parent(t, i, k);
        a_java_expression_of_clean_parts_is_clean(t, k, cx, st);
    }
    lemma_children(t, i);
    lemma_java_parts(t, i, i + 1, cx, st);
    assert(crate::java_taint::unlabeled_taint(t, i, cx, st) is None);
}

proof fn lemma_java_parts(t: &SyntaxTree, i: int, c: int, cx: Given<'_>, st: Map<Text, Info>)
    requires
        t.wf(),
        0 <= i < c,
        i < t.len(),
        walks_children(t, i, c, t.after(i)),
        is_java_clean(t, i, cx, st),
    ensures
        crate::java_taint::parts_taint(t, c, t.after(i), cx, st) is None,
    decreases gap(c, t.len()), 2int,
{
    if c < t.after(i) && c < t.len() {
        lemma_walk_on(t, i, c, t.after(i));
        a_child_lies_within_its_parent(t, i, c);
        a_java_expression_of_clean_parts_is_clean(t, c, cx, st);
        lemma_java_parts(t, i, t.after(c), cx, st);
    }
}

// ─── Apex ────────────────────────────────────────────────────────────────────
/// Whether nothing in node `i` is spelled like a tainted variable or is a source of Apex.
pub open spec fn is_apex_clean(t: &SyntaxTree, i: int, cx: Given<'_>, st: Map<Text, Info>) -> bool {
    forall|m: int|
        #![trigger t.text(m, cx.src)]
        i <= m < t.after(i) ==> !st.contains_key(t.text(m, cx.src)) && crate::apex_taint::source_at(
            cx.rule.sources,
            0,
            t,
            m,
            cx.src,
        ) is None
}

/// An expression of Apex is clean where nothing in it is tainted and nothing is a source.
pub proof fn an_apex_expression_of_clean_parts_is_clean(
    t: &SyntaxTree,
    i: int,
    cx: Given<'_>,
    st: Map<Text, Info>,
)
    requires
        t.wf(),
        0 <= i < t.len(),
        i < t.after(i),
        is_apex_clean(t, i, cx, st),
    ensures
        apex_taint(t, i, cx, st) is None,
    decreases gap(i, t.len()), 1int,
{
    assert(t.kind(i) == t.kind(i));
    if let Some(k) = t.field(i, "object"@) {
        a_field_is_the_first_child_in_it(t, i, "object"@);
        a_child_lies_within_its_parent(t, i, k);
        an_apex_expression_of_clean_parts_is_clean(t, k, cx, st);
    }
    if let Some(k) = t.field(i, "arguments"@) {
        a_field_is_the_first_child_in_it(t, i, "arguments"@);
        a_child_lies_within_its_parent(t, i, k);
        an_apex_expression_of_clean_parts_is_clean(t, k, cx, st);
    }
    lemma_children(t, i);
    lemma_apex_parts(t, i, i + 1, cx, st);
}

proof fn lemma_apex_parts(t: &SyntaxTree, i: int, c: int, cx: Given<'_>, st: Map<Text, Info>)
    requires
        t.wf(),
        0 <= i < c,
        i < t.len(),
        walks_children(t, i, c, t.after(i)),
        is_apex_clean(t, i, cx, st),
    ensures
        crate::apex_taint::parts_taint(t, c, t.after(i), cx, st) is None,
    decreases gap(c, t.len()), 2int,
{
    if c < t.after(i) && c < t.len() {
        lemma_walk_on(t, i, c, t.after(i));
        a_child_lies_within_its_parent(t, i, c);
        an_apex_expression_of_clean_parts_is_clean(t, c, cx, st);
        lemma_apex_parts(t, i, t.after(c), cx, st);
    }
}

// ─── C# ──────────────────────────────────────────────────────────────────────
/// Whether nothing in node `i` is spelled like a tainted variable or is a source of C#.
pub open spec fn is_csharp_clean(t: &SyntaxTree, i: int, cx: Given<'_>, st: Map<Text, Info>) -> bool {
    forall|m: int|
        #![trigger t.kind(m)]
        i <= m < t.after(i) ==> !st.contains_key(t.text(m, cx.src)) && csharp_source(
            cx.rule.sources,
            0,
            t,
            m,
            cx.src,
        ) is None
}

/// An expression of C# is clean where nothing in it is tainted and nothing is a source.
pub proof fn a_csharp_expression_of_clean_parts_is_clean(
    t: &SyntaxTree,
    i: int,
    cx: Given<'_>,
    st: Map<Text, Info>,
)
    requires
        t.wf(),
        0 <= i < t.len(),
        i < t.after(i),
        is_csharp_clean(t, i, cx, st),
    ensures
        csharp_taint(t, i, cx, st) is None,
    decreases gap(i, t.len()), 1int,
{
    assert(t.kind(i) == t.kind(i));
    if let Some(k) = t.field(i, "expression"@) {
        a_field_is_the_first_child_in_it(t, i, "expression"@);
        a_child_lies_within_its_parent(t, i, k);
        a_csharp_expression_of_clean_parts_is_clean(t, k, cx, st);
    }
    if let Some(k) = t.field(i, "arguments"@) {
        a_field_is_the_first_child_in_it(t, i, "arguments"@);
        a_child_lies_within_its_parent(t, i, k);
        lemma_children(t, k);
        lemma_csharp_parts(t, k, k + 1, cx, st);
    }
    lemma_children(t, i);
    lemma_csharp_parts(t, i, i + 1, cx, st);
}

proof fn lemma_csharp_parts(t: &SyntaxTree, i: int, c: int, cx: Given<'_>, st: Map<Text, Info>)
    requires
        t.wf(),
        0 <= i < c,
        i < t.len(),
        walks_children(t, i, c, t.after(i)),
        is_csharp_clean(t, i, cx, st),
    ensures
        crate::csharp_taint::parts_taint(t, c, t.after(i), cx, st) is None,
        operand_taint(t, c, t.after(i), cx, st) is None,
        interpolated_taint(t, c, t.after(i), cx, st) is None,
        list_taint(t, c, t.after(i), cx, st) is None,
    decreases gap(c, t.len()), 2int,
{
    if c < t.after(i) && c < t.len() {
        lemma_walk_on(t, i, c, t.after(i));
        a_child_lies_within_its_parent(t, i, c);
        a_csharp_expression_of_clean_parts_is_clean(t, c, cx, st);
        lemma_children(t, c);
        lemma_csharp_parts(t, c, c + 1, cx, st);
        lemma_csharp_parts(t, i, t.after(c), cx, st);
    }
}

// ─── Go ──────────────────────────────────────────────────────────────────────
/// Whether nothing in node `i` is a tainted variable or a source of Go.
pub open spec fn is_go_clean(t: &SyntaxTree, i: int, cx: Facts<'_>, st: Map<Text, Info>) -> bool {
    forall|m: int|
        #![trigger t.kind(m)]
        i <= m < t.after(i) ==> !st.contains_key(t.text(m, cx.src)) && go_source(
            cx.sources,
            0,
            t,
            m,
            cx.src,
            cx.aliases,
        ) is None
}

/// An expression of Go is clean where nothing in it is tainted, nothing is a source, and no
/// function is known to return one.
pub proof fn a_go_expression_of_clean_parts_is_clean(
    t: &SyntaxTree,
    i: int,
    cx: Facts<'_>,
    st: Map<Text, Info>,
)
    requires
        t.wf(),
        0 <= i < t.len(),
        i < t.after(i),
        cx.summaries == Map::<Text, ReturnFacts>::empty(),
        cx.cross is None,
        is_go_clean(t, i, cx, st),
    ensures
        taint_of(t, i, cx, st) is None,
    decreases gap(i, t.len()), 1int,
{
    assert(t.kind(i) == t.kind(i));
    if let Some(k) = t.field(i, "operand"@) {
        a_field_is_the_first_child_in_it(t, i, "operand"@);
        a_child_lies_within_its_parent(t, i, k);
        a_go_expression_of_clean_parts_is_clean(t, k, cx, st);
    }
    if let Some(k) = t.field(i, "arguments"@) {
        a_field_is_the_first_child_in_it(t, i, "arguments"@);
        a_child_lies_within_its_parent(t, i, k);
        lemma_children(t, k);
        lemma_go_parts(t, k, k + 1, cx, st);
    }
    if let Some(k) = t.field(i, "function"@) {
        a_field_is_the_first_child_in_it(t, i, "function"@);
        a_child_lies_within_its_parent(t, i, k);
        if let Some(o) = t.field(k, "operand"@) {
            a_field_is_the_first_child_in_it(t, k, "operand"@);
            a_child_lies_within_its_parent(t, k, o);
            a_go_expression_of_clean_parts_is_clean(t, o, cx, st);
        }
    }
    lemma_children(t, i);
    lemma_go_parts(t, i, i + 1, cx, st);
    assert(call_taint_of(t, i, cx, st) is None);
}

proof fn lemma_go_parts(t: &SyntaxTree, i: int, c: int, cx: Facts<'_>, st: Map<Text, Info>)
    requires
        t.wf(),
        0 <= i < c,
        i < t.len(),
        cx.summaries == Map::<Text, ReturnFacts>::empty(),
        cx.cross is None,
        walks_children(t, i, c, t.after(i)),
        is_go_clean(t, i, cx, st),
    ensures
        taint_of_named(t, c, t.after(i), cx, st) is None,
        taint_of_literal(t, c, t.after(i), cx, st) is None,
    decreases gap(c, t.len()), 2int,
{
    if c < t.after(i) && c < t.len() {
        lemma_walk_on(t, i, c, t.after(i));
        a_child_lies_within_its_parent(t, i, c);
        a_go_expression_of_clean_parts_is_clean(t, c, cx, st);
        lemma_children(t, c);
        lemma_go_parts(t, c, c + 1, cx, st);
        lemma_go_parts(t, i, t.after(c), cx, st);
    }
}

// ─── Calls that are no sinks ─────────────────────────────────────────────────
proof fn lemma_no_java_sink(sinks: Seq<Matcher>, from: int, t: &SyntaxTree, i: int, src: Text)
    requires
        0 <= from,
        !crate::java_taint::some_matches(sinks, t, i, src),
    ensures
        crate::java_taint::sink_at(sinks, from, t, i, src) is None,
    decreases sinks.len() - from,
{
    if from < sinks.len() {
        assert(!crate::java_taint::matches_call(sinks[from], t, i, src));
        lemma_no_java_sink(sinks, from + 1, t, i, src);
    }
}

proof fn lemma_no_csharp_sink(sinks: Seq<Matcher>, from: int, t: &SyntaxTree, i: int, src: Text)
    requires
        0 <= from,
        !crate::csharp_taint::some_matches(sinks, t, i, src),
    ensures
        crate::csharp_taint::sink_at(sinks, from, t, i, src) is None,
    decreases sinks.len() - from,
{
    if from < sinks.len() {
        assert(!crate::csharp_taint::matches_call(sinks[from], t, i, src));
        lemma_no_csharp_sink(sinks, from + 1, t, i, src);
    }
}

proof fn lemma_no_apex_sink(sinks: Seq<Matcher>, from: int, t: &SyntaxTree, i: int, src: Text)
    requires
        0 <= from,
        !crate::apex_taint::some_matches(sinks, t, i, src),
    ensures
        crate::apex_taint::sink_at(sinks, from, t, i, src) is None,
    decreases sinks.len() - from,
{
    if from < sinks.len() {
        assert(!crate::apex_taint::matches_call(sinks[from], t, i, src));
        lemma_no_apex_sink(sinks, from + 1, t, i, src);
    }
}

/// A call is not reported where every sink is for another method or another class, whatever
/// its arguments are.
pub proof fn calls_of_other_methods_are_not_reported(
    t: &SyntaxTree,
    i: int,
    cx: Given<'_>,
    st: Map<Text, Info>,
)
    ensures
        crate::java_flow_laws::is_unsanitized(cx.rule.sinks, t, i, cx.src)
            ==> crate::java_taint::call_sink_flows(t, i, cx, st) == Seq::<Flow>::empty(),
        crate::apex_flow_laws::is_unsanitized(cx.rule.sinks, t, i, cx.src)
            ==> crate::apex_taint::call_sink_flow(t, i, cx, st) is None,
        crate::csharp_flow_laws::is_unsanitized(cx.rule.sinks, t, i, cx.src) && (forall|k: int|
            #![trigger cx.rule.sinks[k]]
            0 <= k < cx.rule.sinks.len() ==> !(cx.rule.sinks[k] is CallArgConcat))
            ==> crate::csharp_taint::call_sink_flow(t, i, cx, st) is None,
{
    if crate::java_flow_laws::is_unsanitized(cx.rule.sinks, t, i, cx.src) {
        crate::java_flow_laws::lemma_unsanitized(cx.rule.sinks, t, i, cx.src);
        lemma_no_java_sink(cx.rule.sinks, 0, t, i, cx.src);
    }
    if crate::apex_flow_laws::is_unsanitized(cx.rule.sinks, t, i, cx.src) {
        crate::apex_flow_laws::lemma_unsanitized(cx.rule.sinks, t, i, cx.src);
        lemma_no_apex_sink(cx.rule.sinks, 0, t, i, cx.src);
    }
    if crate::csharp_flow_laws::is_unsanitized(cx.rule.sinks, t, i, cx.src) && (forall|k: int|
        #![trigger cx.rule.sinks[k]]
        0 <= k < cx.rule.sinks.len() ==> !(cx.rule.sinks[k] is CallArgConcat)) {
        crate::csharp_flow_laws::lemma_unsanitized(cx.rule.sinks, t, i, cx.src);
        lemma_no_csharp_sink(cx.rule.sinks, 0, t, i, cx.src);
        lemma_no_concat_sink(cx.rule.sinks, 0, crate::csharp_taint::method_of(t, i, cx.src));
    }
}

proof fn lemma_no_concat_sink(sinks: Seq<Matcher>, from: int, method: Option<Text>)
    requires
        0 <= from,
        forall|k: int|
            #![trigger sinks[k]]
            0 <= k < sinks.len() ==> !(sinks[k] is CallArgConcat),
    ensures
        crate::csharp_taint::concat_sink(sinks, from, method) is None,
    decreases sinks.len() - from,
{
    if from < sinks.len() {
        lemma_no_concat_sink(sinks, from + 1, method);
    }
}

// ─── Returns ─────────────────────────────────────────────────────────────────
/// A method gives nothing back where none of its `return` statements gives back a tainted
/// expression.
pub proof fn clean_returns_give_nothing_back<L: ScopeLanguage>(
    t: &SyntaxTree,
    c: int,
    e: int,
    cx: Given<'_>,
    st: Map<Text, Info>,
)
    requires
        forall|n: int, k: int|
            #![trigger t.kind(n), L::taint_of(t, k, cx, st)]
            c <= n < e && t.kind(n) == "return_statement"@ && t.first_named(n) == Some(k)
                ==> L::taint_of(t, k, cx, st) is None,
    ensures
        !gives_back::<L>(t, c, e, cx, st),
    decreases gap(c, e),
{
    if c < e {
        if L::is_scope(t, c) {
            clean_returns_give_nothing_back::<L>(t, t.after(c), e, cx, st);
        } else {
            if let Some(k) = t.first_named(c) {
                assert(t.kind(c) == "return_statement"@ ==> L::taint_of(t, k, cx, st) is None);
            }
            clean_returns_give_nothing_back::<L>(t, c + 1, e, cx, st);
        }
    }
}

} // verus!
