//! What the Apex taint analysis finds: how taint enters an expression, what an assignment
//! does, and where a sink is reported.
use crate::apex_taint::{
    apex_sink_flows, apex_state_after, apex_taint, call_sink_flow, flows_among, matches_call,
    parts_taint, sink_at, some_matches, source_at, Apex,
};
use crate::java_flow_laws::{a_call_is_named_by_its_receiver_and_method, some_flow_into};
use crate::scope::{file_flows, scope_flows, settled, Given, ScopeLanguage};
use crate::scope_flow_laws::{
    a_file_reports_the_flows_of_its_scopes, a_variable_that_is_set_stays_tainted, all_tainted,
    is_kept, is_read_with,
};
use crate::taint_engine::{lookup, Info, Matcher};
use crate::text::{after_last, last_segment, lemma_after_last, lowered, Text};
use crate::tree::{gap, SyntaxTree};
use crate::tree_laws::{a_child_comes_after_its_elders, is_child};
use vstd::prelude::*;

verus! {

broadcast use crate::tree::group_tree;

/// The kinds of nodes of Apex that the analysis tells apart differ in length or in a letter.
pub(crate) proof fn lemma_apex_kinds()
    ensures
        "identifier"@.len() == 10,
        "method_invocation"@.len() == 17,
        "object_creation_expression"@.len() == 26,
        "variable_declarator"@.len() == 19,
        "assignment_expression"@.len() == 21,
        "field_access"@.len() == 12,
        "argument_list"@.len() == 13,
{
    reveal_strlit("identifier");
    reveal_strlit("method_invocation");
    reveal_strlit("object_creation_expression");
    reveal_strlit("variable_declarator");
    reveal_strlit("assignment_expression");
    reveal_strlit("field_access");
    reveal_strlit("argument_list");
}

// ─── Names of calls ──────────────────────────────────────────────────────────
/// Whether the matcher is for the call at node `i`: by the name of the method, or by the
/// receiver, whatever the case of its letters, and the method.
pub open spec fn is_for(m: Matcher, t: &SyntaxTree, i: int, src: Text) -> bool {
    t.kind(i) == "method_invocation"@ && match t.field_text(i, "name"@, src) {
        Some(name) => match m {
            Matcher::MethodName { method, .. } => method == name,
            Matcher::Call { canonical, .. } => !name.contains('.') && (canonical == name || match t.field_text(
                i,
                "object"@,
                src,
            ) {
                Some(object) => exists|class: Text|
                    lowered(class) == lowered(object) && canonical == #[trigger] (class + seq!['.']
                        + name),
                None => false,
            }),
            _ => false,
        },
        None => false,
    }
}

proof fn lemma_no_dot(name: Text)
    requires
        !name.contains('.'),
    ensures
        after_last(name, '.', name.len() as int) == 0,
{
    lemma_after_last(name, '.', name.len() as int);
    let at = after_last(name, '.', name.len() as int);
    if at > 0 {
        assert(name.contains(name[at - 1]));
    }
}

proof fn lemma_is_for(m: Matcher, t: &SyntaxTree, i: int, src: Text)
    requires
        is_for(m, t, i, src),
    ensures
        matches_call(m, t, i, src),
{
    let name = t.field_text(i, "name"@, src)->0;
    if let Matcher::Call { canonical, .. } = m {
        if canonical == name {
            lemma_no_dot(name);
        } else {
            let object = t.field_text(i, "object"@, src)->0;
            let class = choose|class: Text|
                lowered(class) == lowered(object) && canonical == #[trigger] (class + seq!['.']
                    + name);
            a_call_is_named_by_its_receiver_and_method(class, name, object, name);
        }
    }
}

/// Whether no sanitizer is one for node `i`: each is for another method.
pub open spec fn is_unsanitized(sanitizers: Seq<Matcher>, t: &SyntaxTree, i: int, src: Text) -> bool {
    forall|k: int|
        #![trigger sanitizers[k]]
        0 <= k < sanitizers.len() && t.kind(i) == "method_invocation"@ ==> match sanitizers[k] {
            Matcher::MethodName { method, .. } => t.field_text(i, "name"@, src) != Some(method),
            Matcher::Call { canonical, .. } => t.field_text(i, "name"@, src) != Some(
                last_segment(canonical, '.'),
            ),
            _ => true,
        }
}

pub(crate) proof fn lemma_unsanitized(sanitizers: Seq<Matcher>, t: &SyntaxTree, i: int, src: Text)
    requires
        is_unsanitized(sanitizers, t, i, src),
    ensures
        !some_matches(sanitizers, t, i, src),
{
    assert forall|k: int| #![trigger sanitizers[k]] 0 <= k < sanitizers.len() implies !matches_call(
        sanitizers[k],
        t,
        i,
        src,
    ) by {
        if let Matcher::Call { canonical, .. } = sanitizers[k] {
            lemma_after_last(canonical, '.', canonical.len() as int);
            assert(canonical.skip(0) =~= canonical);
        }
    }
}

// ─── Expressions ─────────────────────────────────────────────────────────────
/// An expression that is spelled like a tainted variable is tainted by what is known of it.
pub proof fn a_tainted_name_is_tainted(t: &SyntaxTree, i: int, cx: Given<'_>, st: Map<Text, Info>)
    requires
        0 <= i < t.len(),
        st.contains_key(t.text(i, cx.src)),
    ensures
        apex_taint(t, i, cx, st) == Some(st[t.text(i, cx.src)]),
{
}

/// A variable that is not tainted is clean.
pub proof fn an_untainted_variable_is_clean(t: &SyntaxTree, i: int, cx: Given<'_>, st: Map<Text, Info>)
    requires
        t.kind(i) == "identifier"@,
        !st.contains_key(t.text(i, cx.src)),
    ensures
        apex_taint(t, i, cx, st) is None,
{
}

proof fn lemma_parts(t: &SyntaxTree, i: int, c: int, k: int, cx: Given<'_>, st: Map<Text, Info>)
    requires
        t.wf(),
        is_child(t, i, k),
        i < c <= k,
        apex_taint(t, k, cx, st) is Some,
    ensures
        parts_taint(t, c, t.after(i), cx, st) is Some,
    decreases gap(c, t.after(i)),
{
    a_child_comes_after_its_elders(t, i, c, k);
    if apex_taint(t, c, cx, st) is None {
        lemma_parts(t, i, t.after(c), k, cx, st);
    }
}

/// An expression is tainted where any part of it is: the receiver or an argument of a call,
/// an operand, an element, whatever its position. Only a sanitizer cleans it.
pub proof fn a_tainted_part_taints_the_whole(
    t: &SyntaxTree,
    i: int,
    k: int,
    cx: Given<'_>,
    st: Map<Text, Info>,
)
    requires
        t.wf(),
        0 <= i < t.len(),
        t.kind(i) != "identifier"@,
        is_unsanitized(cx.rule.sanitizers, t, i, cx.src),
        is_child(t, i, k),
        apex_taint(t, k, cx, st) is Some,
    ensures
        apex_taint(t, i, cx, st) is Some,
{
    lemma_unsanitized(cx.rule.sanitizers, t, i, cx.src);
    a_child_comes_after_its_elders(t, i, i, k);
    lemma_parts(t, i, i + 1, k, cx, st);
}

proof fn lemma_source_listed(sources: Seq<Matcher>, from: int, k: int, t: &SyntaxTree, i: int, src: Text)
    requires
        0 <= from <= k < sources.len(),
        sources[k] is Call,
        is_for(sources[k], t, i, src),
    ensures
        source_at(sources, from, t, i, src) is Some,
    decreases sources.len() - from,
{
    if from < k {
        lemma_source_listed(sources, from + 1, k, t, i, src);
    } else {
        lemma_is_for(sources[k], t, i, src);
    }
}

/// A call of a method that is listed as a source is tainted at its own line, unless it is a
/// sanitizer too.
pub proof fn a_listed_call_is_tainted(
    t: &SyntaxTree,
    i: int,
    k: int,
    cx: Given<'_>,
    st: Map<Text, Info>,
)
    requires
        0 <= i < t.len(),
        0 <= k < cx.rule.sources.len(),
        cx.rule.sources[k] is Call,
        is_for(cx.rule.sources[k], t, i, cx.src),
        is_unsanitized(cx.rule.sanitizers, t, i, cx.src),
    ensures
        apex_taint(t, i, cx, st) is Some,
        !st.contains_key(t.text(i, cx.src)) ==> (apex_taint(t, i, cx, st)->0).line == t.line(i),
{
    lemma_apex_kinds();
    lemma_unsanitized(cx.rule.sanitizers, t, i, cx.src);
    lemma_source_listed(cx.rule.sources, 0, k, t, i, cx.src);
}

/// A call of a sanitizer is clean, whatever its receiver and arguments, unless a tainted name
/// is spelled like the call.
pub proof fn a_listed_sanitizer_cleans(
    t: &SyntaxTree,
    i: int,
    k: int,
    cx: Given<'_>,
    st: Map<Text, Info>,
)
    requires
        0 <= k < cx.rule.sanitizers.len(),
        is_for(cx.rule.sanitizers[k], t, i, cx.src),
        !st.contains_key(t.text(i, cx.src)),
    ensures
        apex_taint(t, i, cx, st) is None,
{
    lemma_is_for(cx.rule.sanitizers[k], t, i, cx.src);
}

// ─── Assignments ─────────────────────────────────────────────────────────────
/// Whether node `m` sets the variable `x`, by an initializer or an assignment, to the
/// expression at node `v`.
pub open spec fn sets(t: &SyntaxTree, m: int, x: Text, v: int, src: Text) -> bool {
    ||| t.kind(m) == "variable_declarator"@ && t.field_text(m, "name"@, src) == Some(x) && t.field(
        m,
        "value"@,
    ) == Some(v)
    ||| t.kind(m) == "assignment_expression"@ && t.field(m, "right"@) == Some(v) && (t.field(
        m,
        "left"@,
    ) matches Some(left) && (t.kind(left) == "identifier"@ || t.kind(left) == "field_access"@)
        && t.text(left, src) == x)
}

/// A variable that is set to a tainted expression, by an initializer, by `=` or by any other
/// assignment, is tainted by the same source.
pub proof fn a_variable_takes_the_taint_of_its_value(
    t: &SyntaxTree,
    m: int,
    x: Text,
    v: int,
    cx: Given<'_>,
    st: Map<Text, Info>,
)
    requires
        sets(t, m, x, v, cx.src),
        apex_taint(t, v, cx, st) is Some,
    ensures
        apex_state_after(t, m, cx, st).contains_key(x),
        apex_state_after(t, m, cx, st)[x].description == (apex_taint(t, v, cx, st)->0).description,
        apex_state_after(t, m, cx, st)[x].line == (apex_taint(t, v, cx, st)->0).line,
{
    lemma_apex_kinds();
}

/// A node that does not set a variable leaves what is known of it unchanged.
pub proof fn other_nodes_leave_a_variable_alone(
    t: &SyntaxTree,
    m: int,
    x: Text,
    cx: Given<'_>,
    st: Map<Text, Info>,
)
    requires
        forall|v: int| !#[trigger] sets(t, m, x, v, cx.src),
    ensures
        lookup(apex_state_after(t, m, cx, st), x) == lookup(st, x),
{
    lemma_apex_kinds();
    if t.kind(m) == "variable_declarator"@ && t.field(m, "value"@) is Some {
        assert(!sets(t, m, x, t.field(m, "value"@)->0, cx.src));
    }
    if t.kind(m) == "assignment_expression"@ && t.field(m, "right"@) is Some {
        assert(!sets(t, m, x, t.field(m, "right"@)->0, cx.src));
    }
}

/// Whether every expression that the body at node `b` sets `x` to is tainted wherever the
/// variables of `names` are.
pub open spec fn is_never_cleaned(
    t: &SyntaxTree,
    b: int,
    x: Text,
    cx: Given<'_>,
    names: Set<Text>,
) -> bool {
    forall|m: int, v: int, st: Map<Text, Info>|
        #![trigger sets(t, m, x, v, cx.src), apex_taint(t, v, cx, st)]
        b < m < t.after(b) && sets(t, m, x, v, cx.src) && all_tainted(names, st) ==> apex_taint(
            t,
            v,
            cx,
            st,
        ) is Some
}

proof fn lemma_kept(t: &SyntaxTree, b: int, x: Text, cx: Given<'_>, names: Set<Text>)
    requires
        is_kept::<Apex>(t, b, cx, names),
        is_never_cleaned(t, b, x, cx, names),
    ensures
        is_kept::<Apex>(t, b, cx, names.insert(x)),
{
    let more = names.insert(x);
    assert forall|m: int, st: Map<Text, Info>|
        #![trigger Apex::state_after(t, m, cx, st)]
        b < m < t.after(b) && all_tainted(more, st) implies all_tainted(
        more,
        Apex::state_after(t, m, cx, st),
    ) by {
        let next = Apex::state_after(t, m, cx, st);
        assert forall|y: Text| names.contains(y) implies #[trigger] st.contains_key(y) by {
            assert(more.contains(y));
        }
        assert(all_tainted(names, st));
        assert(more.contains(x));
        assert(st.contains_key(x));
        assert(next.contains_key(x)) by {
            if exists|v: int| #[trigger] sets(t, m, x, v, cx.src) {
                let v = choose|v: int| #[trigger] sets(t, m, x, v, cx.src);
                assert(apex_taint(t, v, cx, st) is Some);
                a_variable_takes_the_taint_of_its_value(t, m, x, v, cx, st);
            } else {
                other_nodes_leave_a_variable_alone(t, m, x, cx, st);
                assert(lookup(st, x) is Some);
            }
        }
        assert(all_tainted(names, next));
    }
}

/// A variable that a method sets to a tainted expression, and sets to no clean one, is
/// tainted in the method.
pub proof fn a_variable_that_is_set_is_tainted(
    t: &SyntaxTree,
    f: int,
    n: int,
    x: Text,
    v: int,
    propagators: Seq<Option<Text>>,
    cx: Given<'_>,
    names: Set<Text>,
)
    requires
        all_tainted(names, Apex::entry_state(t, f, cx)),
        is_kept::<Apex>(t, Apex::body(t, f), cx, names),
        is_read_with::<Apex>(t, Apex::body(t, f), n),
        sets(t, n, x, v, cx.src),
        is_never_cleaned(t, Apex::body(t, f), x, cx, names),
    ensures
        settled::<Apex>(t, f, propagators, cx).contains_key(x),
{
    let b = Apex::body(t, f);
    lemma_kept(t, b, x, cx, names);
    assert forall|st: Map<Text, Info>|
        #![trigger Apex::state_after(t, n, cx, st)]
        all_tainted(names, st) implies Apex::state_after(t, n, cx, st).contains_key(x) by {
        assert(apex_taint(t, v, cx, st) is Some);
        a_variable_takes_the_taint_of_its_value(t, n, x, v, cx, st);
    }
    a_variable_that_is_set_stays_tainted::<Apex>(t, f, n, propagators, cx, names, x);
}

// ─── Sinks ───────────────────────────────────────────────────────────────────
proof fn lemma_sink_listed(sinks: Seq<Matcher>, from: int, j: int, t: &SyntaxTree, i: int, src: Text)
    requires
        0 <= from <= j < sinks.len(),
        is_for(sinks[j], t, i, src),
    ensures
        sink_at(sinks, from, t, i, src) is Some,
    decreases sinks.len() - from,
{
    if from < j {
        lemma_sink_listed(sinks, from + 1, j, t, i, src);
    } else {
        lemma_is_for(sinks[j], t, i, src);
    }
}

/// A call that is listed as a sink is reported wherever any of its arguments is tainted,
/// whatever the argument's position.
pub proof fn a_tainted_argument_of_a_sink_is_reported(
    t: &SyntaxTree,
    i: int,
    args: int,
    k: int,
    j: int,
    cx: Given<'_>,
    st: Map<Text, Info>,
)
    requires
        t.wf(),
        t.field(i, "arguments"@) == Some(args),
        t.kind(args) == "argument_list"@,
        is_child(t, args, k),
        apex_taint(t, k, cx, st) is Some,
        0 <= j < cx.rule.sinks.len(),
        is_for(cx.rule.sinks[j], t, i, cx.src),
    ensures
        call_sink_flow(t, i, cx, st) matches Some(flow) && flow.sink_line == t.line(i)
            && flow.sink_start_byte == t.nodes@[i].start_byte && flow.sink_end_byte
            == t.nodes@[i].end_byte,
{
    lemma_apex_kinds();
    lemma_sink_listed(cx.rule.sinks, 0, j, t, i, cx.src);
    a_child_comes_after_its_elders(t, args, args, k);
    assert(is_unsanitized(cx.rule.sanitizers, t, args, cx.src));
    a_tainted_part_taints_the_whole(t, args, k, cx, st);
}

/// A call is not reported where its arguments carry no taint.
pub proof fn clean_arguments_are_not_reported(
    t: &SyntaxTree,
    i: int,
    args: int,
    cx: Given<'_>,
    st: Map<Text, Info>,
)
    requires
        t.field(i, "arguments"@) == Some(args),
        apex_taint(t, args, cx, st) is None,
    ensures
        call_sink_flow(t, i, cx, st) is None,
{
}

proof fn lemma_flows_listed(
    t: &SyntaxTree,
    b: int,
    c: int,
    i: int,
    cx: Given<'_>,
    st: Map<Text, Info>,
)
    requires
        b < c <= i,
        is_read_with::<Apex>(t, b, i),
        call_sink_flow(t, i, cx, st) is Some,
    ensures
        flows_among(t, c, t.after(b), cx, st).contains(call_sink_flow(t, i, cx, st)->0),
    decreases gap(c, t.after(b)),
{
    let e = t.after(b);
    let all = flows_among(t, c, e, cx, st);
    let flow = call_sink_flow(t, i, cx, st)->0;
    if Apex::is_scope(t, c) {
        lemma_flows_listed(t, b, t.after(c), i, cx, st);
    } else {
        let rest = flows_among(t, c + 1, e, cx, st);
        if c == i {
            assert(all[0] == flow);
        } else {
            lemma_flows_listed(t, b, c + 1, i, cx, st);
            let k = choose|k: int| 0 <= k < rest.len() && rest[k] == flow;
            assert(all[k + (all.len() - rest.len())] == flow);
        }
    }
}

/// The flow that a call of a method makes is a flow of the method and of the file.
pub proof fn a_flow_of_a_call_is_a_flow_of_the_file(
    t: &SyntaxTree,
    c: int,
    e: int,
    f: int,
    i: int,
    propagators: Seq<Option<Text>>,
    cx: Given<'_>,
)
    requires
        c <= f < e,
        Apex::is_scope(t, f),
        is_read_with::<Apex>(t, Apex::body(t, f), i),
        call_sink_flow(t, i, cx, settled::<Apex>(t, f, propagators, cx)) is Some,
    ensures
        ({
            let flow = call_sink_flow(t, i, cx, settled::<Apex>(t, f, propagators, cx))->0;
            &&& scope_flows::<Apex>(t, f, propagators, cx).contains(flow)
            &&& file_flows::<Apex>(t, c, e, propagators, cx).contains(flow)
        }),
{
    let b = Apex::body(t, f);
    let st = settled::<Apex>(t, f, propagators, cx);
    let flow = call_sink_flow(t, i, cx, st)->0;
    lemma_flows_listed(t, b, b + 1, i, cx, st);
    assert(apex_sink_flows(t, b, cx, st).contains(flow));
    assert(scope_flows::<Apex>(t, f, propagators, cx).contains(flow));
    a_file_reports_the_flows_of_its_scopes::<Apex>(t, c, e, propagators, cx, flow);
}

/// Where a method sets a variable to a tainted expression, and sets it to no clean one, a
/// call of a sink with the variable among its arguments is reported.
pub proof fn a_tainted_assignment_reaches_the_sink(
    t: &SyntaxTree,
    c: int,
    e: int,
    f: int,
    n: int,
    x: Text,
    v: int,
    i: int,
    args: int,
    k: int,
    j: int,
    propagators: Seq<Option<Text>>,
    cx: Given<'_>,
    names: Set<Text>,
)
    requires
        t.wf(),
        c <= f < e,
        Apex::is_scope(t, f),
        all_tainted(names, Apex::entry_state(t, f, cx)),
        is_kept::<Apex>(t, Apex::body(t, f), cx, names),
        is_read_with::<Apex>(t, Apex::body(t, f), n),
        sets(t, n, x, v, cx.src),
        is_never_cleaned(t, Apex::body(t, f), x, cx, names),
        is_read_with::<Apex>(t, Apex::body(t, f), i),
        t.field(i, "arguments"@) == Some(args),
        t.kind(args) == "argument_list"@,
        is_child(t, args, k),
        t.text(k, cx.src) == x,
        0 <= j < cx.rule.sinks.len(),
        is_for(cx.rule.sinks[j], t, i, cx.src),
    ensures
        some_flow_into(file_flows::<Apex>(t, c, e, propagators, cx), t, i),
{
    let st = settled::<Apex>(t, f, propagators, cx);
    a_variable_that_is_set_is_tainted(t, f, n, x, v, propagators, cx, names);
    a_tainted_name_is_tainted(t, k, cx, st);
    a_tainted_argument_of_a_sink_is_reported(t, i, args, k, j, cx, st);
    a_flow_of_a_call_is_a_flow_of_the_file(t, c, e, f, i, propagators, cx);
    let all = file_flows::<Apex>(t, c, e, propagators, cx);
    let flow = call_sink_flow(t, i, cx, st)->0;
    let m = choose|m: int| 0 <= m < all.len() && all[m] == flow;
    assert(all[m] == flow);
}

} // verus!
