//! What the Java taint analysis finds: how taint enters an expression, what an assignment
//! does, and where a sink is reported.
use crate::java_taint::{
    arguments_taint, call_sink_flows, call_source, flows_among, flows_at, is_call_of,
    java_sink_flows, java_state_after, java_taint, parts_taint, sink_at, some_matches, stream_taint,
    typed_flows, typed_sink, unlabeled_taint, variable_taint, Java,
};
use crate::scope::{file_flows, scope_flows, settled, simple_type, Given, ScopeLanguage};
use crate::scope_flow_laws::{
    a_file_reports_the_flows_of_its_scopes, a_variable_that_is_set_stays_tainted, all_tainted,
    is_kept, is_read_with,
};
use crate::taint_engine::{lookup, Flow, Info, Matcher};
use crate::text::{after_last, has_part, last_segment, lemma_after_last, lowered, occurs_at, Text};
use crate::text_laws::segments_stand_at_the_ends;
use crate::tree::{gap, SyntaxTree};
use crate::tree_laws::{a_child_comes_after_its_elders, a_field_is_the_first_child_in_it, is_child};
use vstd::prelude::*;

verus! {

broadcast use crate::tree::group_tree;

/// The kinds of nodes of Java that the analysis tells apart differ in length or in a letter.
pub(crate) proof fn lemma_java_kinds()
    ensures
        "identifier"@.len() == 10,
        "method_invocation"@.len() == 17,
        "object_creation_expression"@.len() == 26,
        "variable_declarator"@.len() == 19,
        "assignment_expression"@.len() == 21,
        "field_access"@.len() == 12,
        "argument_list"@.len() == 13,
{
    reveal_strlit("identifier");
    reveal_strlit("method_invocation");
    reveal_strlit("object_creation_expression");
    reveal_strlit("variable_declarator");
    reveal_strlit("assignment_expression");
    reveal_strlit("field_access");
    reveal_strlit("argument_list");
}

// ─── Names of calls ──────────────────────────────────────────────────────────
/// A call of a method is one of a class's method where the receiver is spelled like the
/// class, whatever the case of the letters, and only where the methods are the same.
pub proof fn a_call_is_named_by_its_receiver_and_method(
    class: Text,
    method: Text,
    receiver: Text,
    other: Text,
)
    requires
        !method.contains('.'),
    ensures
        lowered(receiver) == lowered(class) ==> is_call_of(
            class + seq!['.'] + method,
            receiver,
            method,
        ),
        is_call_of(class + seq!['.'] + method, receiver, other) ==> other == method,
        !has_part(lowered(receiver), lowered(class)) ==> !is_call_of(
            class + seq!['.'] + method,
            receiver,
            other,
        ),
{
    let s = class + seq!['.'] + method;
    segments_stand_at_the_ends(class, method, '.');
    lemma_after_last(s, '.', s.len() as int);
    let at = after_last(s, '.', s.len() as int);
    assert(s[class.len() as int] == '.');
    assert(s.skip(at).len() == method.len());
    assert(s.take(at - 1) =~= class);
    if lowered(receiver) == lowered(class) {
        let low = lowered(class);
        assert(low.subrange(0, low.len() as int) =~= low);
        assert(occurs_at(low, low, 0));
    }
}

/// Whether no sanitizer is one for node `i`: each is for another method, or for another
/// class.
pub open spec fn is_unsanitized(sanitizers: Seq<Matcher>, t: &SyntaxTree, i: int, src: Text) -> bool {
    forall|k: int|
        #![trigger sanitizers[k]]
        0 <= k < sanitizers.len() ==> match sanitizers[k] {
            Matcher::MethodName { method, .. } => t.kind(i) == "method_invocation"@
                ==> t.field_text(i, "name"@, src) != Some(method),
            Matcher::Call { canonical, .. } => {
                &&& t.kind(i) == "method_invocation"@ ==> t.field_text(i, "name"@, src) != Some(
                    last_segment(canonical, '.'),
                )
                &&& t.kind(i) == "object_creation_expression"@ ==> t.field_text(i, "type"@, src)
                    != Some(canonical)
            },
            _ => t.kind(i) != "method_invocation"@,
        }
}

pub(crate) proof fn lemma_unsanitized(sanitizers: Seq<Matcher>, t: &SyntaxTree, i: int, src: Text)
    requires
        is_unsanitized(sanitizers, t, i, src),
    ensures
        !some_matches(sanitizers, t, i, src),
{
    lemma_java_kinds();
}

/// Whether the matcher is for the call or the object creation at node `i`: by the name of
/// the method, by the receiver and the method, by the receiver, or by the class.
pub open spec fn is_for(m: Matcher, t: &SyntaxTree, i: int, src: Text) -> bool {
    match m {
        Matcher::MethodName { method, .. } => t.kind(i) == "method_invocation"@ && t.field_text(
            i,
            "name"@,
            src,
        ) == Some(method),
        Matcher::Call { canonical, .. } => {
            ||| t.kind(i) == "object_creation_expression"@ && t.field_text(i, "type"@, src) == Some(
                canonical,
            )
            ||| t.kind(i) == "method_invocation"@ && match (
                t.field_text(i, "object"@, src),
                t.field_text(i, "name"@, src),
            ) {
                (Some(object), Some(name)) => !name.contains('.') && canonical == object + seq!['.']
                    + name,
                _ => false,
            }
        },
        Matcher::ReceiverCall { receiver, .. } => t.kind(i) == "method_invocation"@
            && !receiver.contains('.') && match t.field_text(i, "object"@, src) {
            Some(object) => object == receiver || exists|rest: Text|
                object == #[trigger] (receiver + seq!['.'] + rest),
            None => false,
        },
        _ => false,
    }
}

proof fn lemma_is_for(m: Matcher, t: &SyntaxTree, i: int, src: Text)
    requires
        is_for(m, t, i, src),
    ensures
        crate::java_taint::matches_call(m, t, i, src),
{
    lemma_java_kinds();
    match m {
        Matcher::Call { canonical, .. } => {
            if t.kind(i) == "method_invocation"@ {
                let object = t.field_text(i, "object"@, src)->0;
                let name = t.field_text(i, "name"@, src)->0;
                a_call_is_named_by_its_receiver_and_method(object, name, object, name);
            }
        },
        Matcher::ReceiverCall { receiver, .. } => {
            let object = t.field_text(i, "object"@, src)->0;
            if object == receiver {
                segments_stand_at_the_ends(object, object, '.');
            } else {
                let rest = choose|rest: Text| object == #[trigger] (receiver + seq!['.'] + rest);
                segments_stand_at_the_ends(receiver, rest, '.');
            }
        },
        _ => {},
    }
}

// ─── Expressions ─────────────────────────────────────────────────────────────
/// An expression that is spelled like a tainted variable is tainted by what is known of it.
pub proof fn a_tainted_name_is_tainted(t: &SyntaxTree, i: int, cx: Given<'_>, st: Map<Text, Info>)
    requires
        0 <= i < t.len(),
        st.contains_key(t.text(i, cx.src)),
    ensures
        java_taint(t, i, cx, st) is Some,
        (java_taint(t, i, cx, st)->0).description == st[t.text(i, cx.src)].description,
        (java_taint(t, i, cx, st)->0).line == st[t.text(i, cx.src)].line,
{
    assert(unlabeled_taint(t, i, cx, st) == Some(st[t.text(i, cx.src)]));
}

/// A variable that is not tainted is clean.
pub proof fn an_untainted_variable_is_clean(t: &SyntaxTree, i: int, cx: Given<'_>, st: Map<Text, Info>)
    requires
        t.kind(i) == "identifier"@,
        !st.contains_key(t.text(i, cx.src)),
    ensures
        java_taint(t, i, cx, st) is None,
{
    assert(unlabeled_taint(t, i, cx, st) is None);
}

proof fn lemma_parts(t: &SyntaxTree, i: int, c: int, k: int, cx: Given<'_>, st: Map<Text, Info>)
    requires
        t.wf(),
        is_child(t, i, k),
        i < c <= k,
        java_taint(t, k, cx, st) is Some,
    ensures
        parts_taint(t, c, t.after(i), cx, st) is Some,
    decreases gap(c, t.after(i)),
{
    a_child_comes_after_its_elders(t, i, c, k);
    if java_taint(t, c, cx, st) is None {
        lemma_parts(t, i, t.after(c), k, cx, st);
    }
}

/// An expression is tainted where any part of it is: the receiver or an argument of a call,
/// an operand, an element, whatever its position. Only a sanitizer cleans it.
pub proof fn a_tainted_part_taints_the_whole(
    t: &SyntaxTree,
    i: int,
    k: int,
    cx: Given<'_>,
    st: Map<Text, Info>,
)
    requires
        t.wf(),
        0 <= i < t.len(),
        t.kind(i) != "identifier"@,
        is_unsanitized(cx.rule.sanitizers, t, i, cx.src),
        is_child(t, i, k),
        java_taint(t, k, cx, st) is Some,
    ensures
        java_taint(t, i, cx, st) is Some,
{
    lemma_unsanitized(cx.rule.sanitizers, t, i, cx.src);
    a_child_comes_after_its_elders(t, i, i, k);
    lemma_parts(t, i, i + 1, k, cx, st);
    assert(unlabeled_taint(t, i, cx, st) is Some);
}

proof fn lemma_call_source(sources: Seq<Matcher>, from: int, k: int, receiver: Text, method: Text)
    requires
        0 <= from <= k < sources.len(),
        sources[k] matches Matcher::Call { canonical, .. } && is_call_of(
            canonical,
            receiver,
            method,
        ),
    ensures
        call_source(sources, from, receiver, method) is Some,
    decreases sources.len() - from,
{
    if from < k {
        lemma_call_source(sources, from + 1, k, receiver, method);
    }
}

/// A call of a method that is listed as a source is tainted at its own line, whatever the
/// case of the letters of the receiver, unless it is a sanitizer too.
pub proof fn a_listed_call_is_tainted(
    t: &SyntaxTree,
    i: int,
    k: int,
    class: Text,
    cx: Given<'_>,
    st: Map<Text, Info>,
)
    requires
        0 <= i < t.len(),
        0 <= k < cx.rule.sources.len(),
        t.kind(i) == "method_invocation"@,
        is_unsanitized(cx.rule.sanitizers, t, i, cx.src),
        match (t.field_text(i, "object"@, cx.src), t.field_text(i, "name"@, cx.src)) {
            (Some(object), Some(name)) => !name.contains('.') && lowered(object) == lowered(class)
                && (cx.rule.sources[k] matches Matcher::Call { canonical, .. } && canonical == class
                + seq!['.'] + name),
            _ => false,
        },
    ensures
        java_taint(t, i, cx, st) is Some,
        !st.contains_key(t.text(i, cx.src)) ==> (java_taint(t, i, cx, st)->0).line == t.line(i),
{
    lemma_java_kinds();
    let object = t.field_text(i, "object"@, cx.src)->0;
    let name = t.field_text(i, "name"@, cx.src)->0;
    lemma_unsanitized(cx.rule.sanitizers, t, i, cx.src);
    a_call_is_named_by_its_receiver_and_method(class, name, object, name);
    lemma_call_source(cx.rule.sources, 0, k, object, name);
    assert(unlabeled_taint(t, i, cx, st) is Some);
}

/// A call of a sanitizer is clean, whatever its receiver and arguments, unless a tainted name
/// is spelled like the call.
pub proof fn a_listed_sanitizer_cleans(
    t: &SyntaxTree,
    i: int,
    k: int,
    cx: Given<'_>,
    st: Map<Text, Info>,
)
    requires
        0 <= k < cx.rule.sanitizers.len(),
        is_for(cx.rule.sanitizers[k], t, i, cx.src),
        !st.contains_key(t.text(i, cx.src)),
    ensures
        java_taint(t, i, cx, st) is None,
{
    lemma_is_for(cx.rule.sanitizers[k], t, i, cx.src);
    assert(unlabeled_taint(t, i, cx, st) is None);
}

// ─── Assignments ─────────────────────────────────────────────────────────────
/// Whether node `m` sets the variable `x`, by an initializer or an assignment, to the
/// expression at node `v`.
pub open spec fn sets(t: &SyntaxTree, m: int, x: Text, v: int, src: Text) -> bool {
    ||| t.kind(m) == "variable_declarator"@ && t.field_text(m, "name"@, src) == Some(x) && t.field(
        m,
        "value"@,
    ) == Some(v)
    ||| t.kind(m) == "assignment_expression"@ && t.field(m, "right"@) == Some(v) && (t.field(
        m,
        "left"@,
    ) matches Some(left) && (t.kind(left) == "identifier"@ || t.kind(left) == "field_access"@)
        && t.text(left, src) == x)
}

/// A variable that is set to a tainted expression, by an initializer, by `=` or by any other
/// assignment, is tainted by the same source.
pub proof fn a_variable_takes_the_taint_of_its_value(
    t: &SyntaxTree,
    m: int,
    x: Text,
    v: int,
    cx: Given<'_>,
    st: Map<Text, Info>,
)
    requires
        sets(t, m, x, v, cx.src),
        java_taint(t, v, cx, st) is Some,
    ensures
        java_state_after(t, m, cx, st).contains_key(x),
        java_state_after(t, m, cx, st)[x].description == (java_taint(t, v, cx, st)->0).description,
        java_state_after(t, m, cx, st)[x].line == (java_taint(t, v, cx, st)->0).line,
        cx.policy is None ==> java_state_after(t, m, cx, st)[x].labels == (java_taint(
            t,
            v,
            cx,
            st,
        )->0).labels,
{
    lemma_java_kinds();
}

/// A node that does not set a variable leaves what is known of it unchanged.
pub proof fn other_nodes_leave_a_variable_alone(
    t: &SyntaxTree,
    m: int,
    x: Text,
    cx: Given<'_>,
    st: Map<Text, Info>,
)
    requires
        forall|v: int| !#[trigger] sets(t, m, x, v, cx.src),
    ensures
        lookup(java_state_after(t, m, cx, st), x) == lookup(st, x),
{
    lemma_java_kinds();
    if t.kind(m) == "variable_declarator"@ && t.field(m, "value"@) is Some {
        assert(!sets(t, m, x, t.field(m, "value"@)->0, cx.src));
    }
    if t.kind(m) == "assignment_expression"@ && t.field(m, "right"@) is Some {
        assert(!sets(t, m, x, t.field(m, "right"@)->0, cx.src));
    }
}

/// Whether every expression that the body at node `b` sets `x` to is tainted wherever the
/// variables of `names` are.
pub open spec fn is_never_cleaned(
    t: &SyntaxTree,
    b: int,
    x: Text,
    cx: Given<'_>,
    names: Set<Text>,
) -> bool {
    forall|m: int, v: int, st: Map<Text, Info>|
        #![trigger sets(t, m, x, v, cx.src), java_taint(t, v, cx, st)]
        b < m < t.after(b) && sets(t, m, x, v, cx.src) && all_tainted(names, st) ==> java_taint(
            t,
            v,
            cx,
            st,
        ) is Some
}

proof fn lemma_kept(t: &SyntaxTree, b: int, x: Text, cx: Given<'_>, names: Set<Text>)
    requires
        is_kept::<Java>(t, b, cx, names),
        is_never_cleaned(t, b, x, cx, names),
    ensures
        is_kept::<Java>(t, b, cx, names.insert(x)),
{
    let more = names.insert(x);
    assert forall|m: int, st: Map<Text, Info>|
        #![trigger Java::state_after(t, m, cx, st)]
        b < m < t.after(b) && all_tainted(more, st) implies all_tainted(
        more,
        Java::state_after(t, m, cx, st),
    ) by {
        let next = Java::state_after(t, m, cx, st);
        assert forall|y: Text| names.contains(y) implies #[trigger] st.contains_key(y) by {
            assert(more.contains(y));
        }
        assert(all_tainted(names, st));
        assert(more.contains(x));
        assert(st.contains_key(x));
        assert(next.contains_key(x)) by {
            if exists|v: int| #[trigger] sets(t, m, x, v, cx.src) {
                let v = choose|v: int| #[trigger] sets(t, m, x, v, cx.src);
                assert(java_taint(t, v, cx, st) is Some);
                a_variable_takes_the_taint_of_its_value(t, m, x, v, cx, st);
            } else {
                other_nodes_leave_a_variable_alone(t, m, x, cx, st);
                assert(lookup(st, x) is Some);
            }
        }
        assert(all_tainted(names, next));
    }
}

/// A variable that a method sets to a tainted expression, and sets to no clean one, is
/// tainted in the method.
pub proof fn a_variable_that_is_set_is_tainted(
    t: &SyntaxTree,
    f: int,
    n: int,
    x: Text,
    v: int,
    propagators: Seq<Option<Text>>,
    cx: Given<'_>,
    names: Set<Text>,
)
    requires
        all_tainted(names, Java::entry_state(t, f, cx)),
        is_kept::<Java>(t, Java::body(t, f), cx, names),
        is_read_with::<Java>(t, Java::body(t, f), n),
        sets(t, n, x, v, cx.src),
        is_never_cleaned(t, Java::body(t, f), x, cx, names),
    ensures
        settled::<Java>(t, f, propagators, cx).contains_key(x),
{
    let b = Java::body(t, f);
    lemma_kept(t, b, x, cx, names);
    assert forall|st: Map<Text, Info>|
        #![trigger Java::state_after(t, n, cx, st)]
        all_tainted(names, st) implies Java::state_after(t, n, cx, st).contains_key(x) by {
        assert(java_taint(t, v, cx, st) is Some);
        a_variable_takes_the_taint_of_its_value(t, n, x, v, cx, st);
    }
    a_variable_that_is_set_stays_tainted::<Java>(t, f, n, propagators, cx, names, x);
}

// ─── Sinks ───────────────────────────────────────────────────────────────────
proof fn lemma_sink_listed(sinks: Seq<Matcher>, from: int, j: int, t: &SyntaxTree, i: int, src: Text)
    requires
        0 <= from <= j < sinks.len(),
        is_for(sinks[j], t, i, src),
    ensures
        sink_at(sinks, from, t, i, src) is Some,
    decreases sinks.len() - from,
{
    if from < j {
        lemma_sink_listed(sinks, from + 1, j, t, i, src);
    } else {
        lemma_is_for(sinks[j], t, i, src);
    }
}

/// Whether one of the flows goes into node `i`.
pub open spec fn some_flow_into(flows: Seq<Flow>, t: &SyntaxTree, i: int) -> bool {
    exists|n: int|
        #![trigger flows[n]]
        0 <= n < flows.len() && flows[n].sink_line == t.line(i) && flows[n].sink_start_byte
            == t.nodes@[i].start_byte && flows[n].sink_end_byte == t.nodes@[i].end_byte
}

/// A call or an object creation that is listed as a sink is reported wherever any of its
/// arguments is tainted, whatever the argument's position.
pub proof fn a_tainted_argument_of_a_sink_is_reported(
    t: &SyntaxTree,
    i: int,
    args: int,
    k: int,
    j: int,
    cx: Given<'_>,
    st: Map<Text, Info>,
    types: Map<Text, Text>,
)
    requires
        t.wf(),
        0 <= i < t.len(),
        cx.policy is None,
        t.field(i, "arguments"@) == Some(args),
        t.kind(args) == "argument_list"@,
        is_child(t, args, k),
        java_taint(t, k, cx, st) is Some,
        0 <= j < cx.rule.sinks.len(),
        is_for(cx.rule.sinks[j], t, i, cx.src),
    ensures
        some_flow_into(flows_at(t, i, cx, st, types), t, i),
{
    lemma_java_kinds();
    lemma_sink_listed(cx.rule.sinks, 0, j, t, i, cx.src);
    a_child_comes_after_its_elders(t, args, args, k);
    assert(is_unsanitized(cx.rule.sanitizers, t, args, cx.src));
    a_tainted_part_taints_the_whole(t, args, k, cx, st);
    let made = call_sink_flows(t, i, cx, st);
    let typed = typed_flows(t, i, cx, st, types);
    let all = flows_at(t, i, cx, st, types);
    assert(made.len() == 1);
    assert(all[typed.len() as int] == made[0]);
}

/// A call of a sink is not reported by its arguments where they carry no taint, unless it
/// reads an object from a stream.
pub proof fn clean_arguments_are_not_reported(
    t: &SyntaxTree,
    i: int,
    cx: Given<'_>,
    st: Map<Text, Info>,
)
    requires
        arguments_taint(t, i, cx, st) is None,
        t.field_text(i, "name"@, cx.src) != Some("readObject"@),
    ensures
        call_sink_flows(t, i, cx, st) == Seq::<Flow>::empty(),
{
    assert(stream_taint(t, i, cx.src, st) is None);
}

/// A call of `readObject` that is listed as a sink is reported where the stream that it reads
/// is a tainted variable.
pub proof fn a_tainted_stream_is_reported(
    t: &SyntaxTree,
    i: int,
    object: int,
    j: int,
    cx: Given<'_>,
    st: Map<Text, Info>,
    types: Map<Text, Text>,
)
    requires
        t.wf(),
        0 <= i < t.len(),
        cx.policy is None,
        t.kind(i) == "method_invocation"@,
        t.field_text(i, "name"@, cx.src) == Some("readObject"@),
        t.field(i, "object"@) == Some(object),
        st.contains_key(t.text(object, cx.src)),
        0 <= j < cx.rule.sinks.len(),
        is_for(cx.rule.sinks[j], t, i, cx.src),
    ensures
        some_flow_into(flows_at(t, i, cx, st, types), t, i),
{
    lemma_java_kinds();
    a_field_is_the_first_child_in_it(t, i, "object"@);
    lemma_sink_listed(cx.rule.sinks, 0, j, t, i, cx.src);
    assert(variable_taint(t, object, cx.src, st) is Some);
    let made = call_sink_flows(t, i, cx, st);
    let typed = typed_flows(t, i, cx, st, types);
    let all = flows_at(t, i, cx, st, types);
    assert(made.len() == 1);
    assert(all[typed.len() as int] == made[0]);
}

proof fn lemma_typed_sink(sinks: Seq<Matcher>, from: int, j: int, name: Text)
    requires
        0 <= from <= j < sinks.len(),
        sinks[j] matches Matcher::TypedAssignTarget { declared, .. } && declared == name,
    ensures
        typed_sink(sinks, from, name) is Some,
    decreases sinks.len() - from,
{
    if from < j {
        lemma_typed_sink(sinks, from + 1, j, name);
    }
}

/// Setting a variable whose declared type is listed as a sink is reported where the value is
/// tainted.
pub proof fn a_tainted_value_of_a_listed_type_is_reported(
    t: &SyntaxTree,
    i: int,
    x: Text,
    v: int,
    ty: Text,
    j: int,
    cx: Given<'_>,
    st: Map<Text, Info>,
    types: Map<Text, Text>,
)
    requires
        cx.policy is None,
        sets(t, i, x, v, cx.src),
        t.kind(i) == "variable_declarator"@ ==> (t.parent(i) matches Some(p) && t.kind(p)
            == "local_variable_declaration"@ && t.field_text(p, "type"@, cx.src) == Some(ty)),
        t.kind(i) == "assignment_expression"@ ==> types.contains_key(x) && types[x] == ty,
        java_taint(t, v, cx, st) is Some,
        0 <= j < cx.rule.sinks.len(),
        cx.rule.sinks[j] matches Matcher::TypedAssignTarget { declared, .. } && declared
            == simple_type(ty),
    ensures
        some_flow_into(flows_at(t, i, cx, st, types), t, i),
{
    lemma_java_kinds();
    lemma_typed_sink(cx.rule.sinks, 0, j, simple_type(ty));
    let typed = typed_flows(t, i, cx, st, types);
    assert(typed.len() == 1);
    assert(flows_at(t, i, cx, st, types)[0] == typed[0]);
}

proof fn lemma_flows_listed(
    t: &SyntaxTree,
    b: int,
    c: int,
    i: int,
    cx: Given<'_>,
    st: Map<Text, Info>,
    types: Map<Text, Text>,
    flow: Flow,
)
    requires
        b < c <= i,
        is_read_with::<Java>(t, b, i),
        flows_at(t, i, cx, st, types).contains(flow),
    ensures
        flows_among(t, c, t.after(b), cx, st, types).contains(flow),
    decreases gap(c, t.after(b)),
{
    let e = t.after(b);
    let all = flows_among(t, c, e, cx, st, types);
    if Java::is_scope(t, c) {
        lemma_flows_listed(t, b, t.after(c), i, cx, st, types, flow);
    } else {
        let here = flows_at(t, c, cx, st, types);
        let rest = flows_among(t, c + 1, e, cx, st, types);
        if c == i {
            let k = choose|k: int| 0 <= k < here.len() && here[k] == flow;
            assert(all[k] == flow);
        } else {
            lemma_flows_listed(t, b, c + 1, i, cx, st, types, flow);
            let k = choose|k: int| 0 <= k < rest.len() && rest[k] == flow;
            assert(all[here.len() + k] == flow);
        }
    }
}

/// Every flow that a node of a method makes is a flow of the method and of the file, whatever
/// the declared types of the variables.
pub proof fn a_flow_of_a_node_is_a_flow_of_the_file(
    t: &SyntaxTree,
    c: int,
    e: int,
    f: int,
    i: int,
    propagators: Seq<Option<Text>>,
    cx: Given<'_>,
)
    requires
        c <= f < e,
        Java::is_scope(t, f),
        is_read_with::<Java>(t, Java::body(t, f), i),
        forall|types: Map<Text, Text>|
            #![trigger flows_at(t, i, cx, settled::<Java>(t, f, propagators, cx), types)]
            some_flow_into(
                flows_at(t, i, cx, settled::<Java>(t, f, propagators, cx), types),
                t,
                i,
            ),
    ensures
        some_flow_into(scope_flows::<Java>(t, f, propagators, cx), t, i),
        some_flow_into(file_flows::<Java>(t, c, e, propagators, cx), t, i),
{
    let b = Java::body(t, f);
    let st = settled::<Java>(t, f, propagators, cx);
    let types = crate::java_taint::locals_typed(t, b + 1, t.after(b), cx.src, Map::empty());
    let here = flows_at(t, i, cx, st, types);
    let n = choose|n: int|
        #![trigger here[n]]
        0 <= n < here.len() && here[n].sink_line == t.line(i) && here[n].sink_start_byte
            == t.nodes@[i].start_byte && here[n].sink_end_byte == t.nodes@[i].end_byte;
    let flow = here[n];
    assert(here.contains(flow));
    lemma_flows_listed(t, b, b + 1, i, cx, st, types, flow);
    let scope = scope_flows::<Java>(t, f, propagators, cx);
    assert(java_sink_flows(t, b, cx, st).contains(flow));
    assert(scope.contains(flow));
    let k = choose|k: int| 0 <= k < scope.len() && scope[k] == flow;
    assert(scope[k] == flow);
    a_file_reports_the_flows_of_its_scopes::<Java>(t, c, e, propagators, cx, flow);
    let all = file_flows::<Java>(t, c, e, propagators, cx);
    let m = choose|m: int| 0 <= m < all.len() && all[m] == flow;
    assert(all[m] == flow);
}

/// Where a method sets a variable to a tainted expression, and sets it to no clean one, a
/// call of a sink with the variable among its arguments is reported.
pub proof fn a_tainted_assignment_reaches_the_sink(
    t: &SyntaxTree,
    c: int,
    e: int,
    f: int,
    n: int,
    x: Text,
    v: int,
    i: int,
    args: int,
    k: int,
    j: int,
    propagators: Seq<Option<Text>>,
    cx: Given<'_>,
    names: Set<Text>,
)
    requires
        t.wf(),
        cx.policy is None,
        c <= f < e,
        Java::is_scope(t, f),
        all_tainted(names, Java::entry_state(t, f, cx)),
        is_kept::<Java>(t, Java::body(t, f), cx, names),
        is_read_with::<Java>(t, Java::body(t, f), n),
        sets(t, n, x, v, cx.src),
        is_never_cleaned(t, Java::body(t, f), x, cx, names),
        is_read_with::<Java>(t, Java::body(t, f), i),
        0 <= i < t.len(),
        t.field(i, "arguments"@) == Some(args),
        t.kind(args) == "argument_list"@,
        is_child(t, args, k),
        t.text(k, cx.src) == x,
        0 <= j < cx.rule.sinks.len(),
        is_for(cx.rule.sinks[j], t, i, cx.src),
    ensures
        some_flow_into(file_flows::<Java>(t, c, e, propagators, cx), t, i),
{
    let st = settled::<Java>(t, f, propagators, cx);
    a_variable_that_is_set_is_tainted(t, f, n, x, v, propagators, cx, names);
    a_tainted_name_is_tainted(t, k, cx, st);
    assert forall|types: Map<Text, Text>|
        #![trigger flows_at(t, i, cx, st, types)]
        some_flow_into(flows_at(t, i, cx, st, types), t, i) by {
        a_tainted_argument_of_a_sink_is_reported(t, i, args, k, j, cx, st, types);
    }
    a_flow_of_a_node_is_a_flow_of_the_file(t, c, e, f, i, propagators, cx);
}

} // verus!
