//! What the C# taint analysis finds: how taint enters an expression, what an assignment does,
//! and where a sink is reported.
use crate::csharp_taint::{
    argument_variable, arguments_taint, call_sink_flow, concat_argument_taint, concat_sink,
    concat_taint, csharp_sink_flows, csharp_source, csharp_state_after, csharp_taint, filled_among,
    filled_by, flows_among, initializer, leftmost, list_taint, matches_call, method_of,
    operand_taint, parts_taint, sink_at, some_matches, source_hits, CSharp,
};
use crate::java_flow_laws::some_flow_into;
use crate::scope::{
    file_flows, fresh, scope_flows, settled, CrossFileLanguage, Given, ScopeLanguage,
};
use crate::scope_flow_laws::{
    a_file_reports_the_flows_of_its_scopes, a_variable_that_is_set_stays_tainted, all_tainted,
    is_kept, is_read_with,
};
use crate::taint_engine::{lookup, Info, Matcher};
use crate::text::Text;
use crate::text_laws::segments_stand_at_the_ends;
use crate::tree::{gap, SyntaxTree};
use crate::tree_laws::{
    a_child_comes_after_its_elders, a_child_lies_within_its_parent,
    a_field_is_the_first_child_in_it, is_child, lemma_walk_on, walks_children,
};
use vstd::prelude::*;

verus! {

broadcast use crate::tree::group_tree;

/// The kinds of nodes of C# that the analysis tells apart differ in length or in a letter.
pub(crate) proof fn lemma_csharp_kinds()
    ensures
        "identifier"@.len() == 10,
        "invocation_expression"@.len() == 21,
        "object_creation_expression"@.len() == 26,
        "variable_declarator"@.len() == 19,
        "assignment_expression"@.len() == 21,
        "member_access_expression"@.len() == 24,
        "element_access_expression"@.len() == 25,
        "binary_expression"@.len() == 17,
        "interpolated_string_expression"@.len() == 30,
        "argument_list"@.len() == 13,
        "argument"@.len() == 8,
        "invocation_expression"@ != "assignment_expression"@,
{
    reveal_strlit("identifier");
    reveal_strlit("invocation_expression");
    reveal_strlit("object_creation_expression");
    reveal_strlit("variable_declarator");
    reveal_strlit("assignment_expression");
    reveal_strlit("member_access_expression");
    reveal_strlit("element_access_expression");
    reveal_strlit("binary_expression");
    reveal_strlit("interpolated_string_expression");
    reveal_strlit("argument_list");
    reveal_strlit("argument");
    assert("invocation_expression"@[0] != "assignment_expression"@[0]);
}

// ─── Names of calls ──────────────────────────────────────────────────────────
/// Whether node `i` calls the method `name`, by its bare name or on a receiver.
pub open spec fn calls_method(t: &SyntaxTree, i: int, name: Text, src: Text) -> bool {
    t.kind(i) == "invocation_expression"@ && (t.field(i, "function"@) matches Some(g) && (t.kind(g)
        == "identifier"@ && t.text(g, src) == name || t.kind(g) == "member_access_expression"@
        && t.field_text(g, "name"@, src) == Some(name)))
}

/// Whether the matcher is for the call or the object creation at node `i`: by the name of
/// the method, by the whole callee, by the receiver, or by the class.
pub open spec fn is_for(m: Matcher, t: &SyntaxTree, i: int, src: Text) -> bool {
    match m {
        Matcher::MethodName { method, .. } => calls_method(t, i, method, src),
        Matcher::Call { canonical, .. } => {
            ||| t.kind(i) == "object_creation_expression"@ && t.field_text(i, "type"@, src) == Some(
                canonical,
            )
            ||| t.kind(i) == "invocation_expression"@ && t.field_text(i, "function"@, src) == Some(
                canonical,
            )
        },
        Matcher::ReceiverCall { receiver, .. } => t.kind(i) == "invocation_expression"@
            && !receiver.contains('.') && match t.field_text(i, "function"@, src) {
            Some(callee) => exists|rest: Text| callee == #[trigger] (receiver + seq!['.'] + rest),
            None => false,
        },
        _ => false,
    }
}

proof fn lemma_is_for(m: Matcher, t: &SyntaxTree, i: int, src: Text)
    requires
        is_for(m, t, i, src),
    ensures
        matches_call(m, t, i, src),
{
    lemma_csharp_kinds();
    if let Matcher::ReceiverCall { receiver, .. } = m {
        let callee = t.field_text(i, "function"@, src)->0;
        let rest = choose|rest: Text| callee == #[trigger] (receiver + seq!['.'] + rest);
        segments_stand_at_the_ends(receiver, rest, '.');
        assert(callee[receiver.len() as int] == '.');
    }
}

/// Whether no sanitizer is one for node `i`: each is for another method, class or member.
pub open spec fn is_unsanitized(sanitizers: Seq<Matcher>, t: &SyntaxTree, i: int, src: Text) -> bool {
    forall|k: int|
        #![trigger sanitizers[k]]
        0 <= k < sanitizers.len() ==> match sanitizers[k] {
            Matcher::MethodName { method, .. } => !calls_method(t, i, method, src),
            Matcher::Call { canonical, .. } => {
                &&& t.kind(i) == "invocation_expression"@ ==> t.field_text(i, "function"@, src)
                    != Some(canonical)
                &&& t.kind(i) == "object_creation_expression"@ ==> t.field_text(i, "type"@, src)
                    != Some(canonical)
            },
            Matcher::Attribute { field, .. } => t.kind(i) == "member_access_expression"@
                ==> t.field_text(i, "name"@, src) != Some(field),
            _ => t.kind(i) != "invocation_expression"@,
        }
}

pub(crate) proof fn lemma_unsanitized(sanitizers: Seq<Matcher>, t: &SyntaxTree, i: int, src: Text)
    requires
        is_unsanitized(sanitizers, t, i, src),
    ensures
        !some_matches(sanitizers, t, i, src),
{
    lemma_csharp_kinds();
}

// ─── Expressions ─────────────────────────────────────────────────────────────
/// An expression that is spelled like a tainted variable is tainted by what is known of it.
pub proof fn a_tainted_name_is_tainted(t: &SyntaxTree, i: int, cx: Given<'_>, st: Map<Text, Info>)
    requires
        0 <= i < t.len(),
        st.contains_key(t.text(i, cx.src)),
    ensures
        csharp_taint(t, i, cx, st) == Some(st[t.text(i, cx.src)]),
{
}

/// A variable that is not tainted is clean.
pub proof fn an_untainted_variable_is_clean(t: &SyntaxTree, i: int, cx: Given<'_>, st: Map<Text, Info>)
    requires
        t.kind(i) == "identifier"@,
        !st.contains_key(t.text(i, cx.src)),
    ensures
        csharp_taint(t, i, cx, st) is None,
{
}

proof fn lemma_parts(t: &SyntaxTree, i: int, c: int, k: int, cx: Given<'_>, st: Map<Text, Info>)
    requires
        t.wf(),
        is_child(t, i, k),
        i < c <= k,
        csharp_taint(t, k, cx, st) is Some,
    ensures
        parts_taint(t, c, t.after(i), cx, st) is Some,
        t.named(k) ==> operand_taint(t, c, t.after(i), cx, st) is Some,
    decreases gap(c, t.after(i)),
{
    a_child_comes_after_its_elders(t, i, c, k);
    if c < k {
        lemma_parts(t, i, t.after(c), k, cx, st);
    }
}

/// An expression is tainted where any part of it is: an argument of a call, an operand, what
/// a member is taken from, a part of an interpolated string, whatever its position. Only a
/// sanitizer cleans it.
pub proof fn a_tainted_part_taints_the_whole(
    t: &SyntaxTree,
    i: int,
    k: int,
    cx: Given<'_>,
    st: Map<Text, Info>,
)
    requires
        t.wf(),
        0 <= i < t.len(),
        t.kind(i) != "identifier"@,
        is_unsanitized(cx.rule.sanitizers, t, i, cx.src),
        is_child(t, i, k),
        csharp_taint(t, k, cx, st) is Some,
    ensures
        csharp_taint(t, i, cx, st) is Some,
{
    lemma_unsanitized(cx.rule.sanitizers, t, i, cx.src);
    a_child_comes_after_its_elders(t, i, i, k);
    lemma_parts(t, i, i + 1, k, cx, st);
}

proof fn lemma_source_listed(sources: Seq<Matcher>, from: int, k: int, t: &SyntaxTree, i: int, src: Text)
    requires
        0 <= from <= k < sources.len(),
        source_hits(sources[k], t, i, src),
    ensures
        csharp_source(sources, from, t, i, src) is Some,
    decreases sources.len() - from,
{
    if from < k {
        lemma_source_listed(sources, from + 1, k, t, i, src);
    }
}

/// Whether the source is the expression at node `i`: a member of a given name, by itself or
/// of a given object, a call or an object creation by its whole name, a variable by its name,
/// or an index access by its base.
pub open spec fn is_source(m: Matcher, t: &SyntaxTree, i: int, src: Text) -> bool {
    match m {
        Matcher::Attribute { root, field, .. } => t.kind(i) == "member_access_expression"@
            && t.field_text(i, "expression"@, src) == Some(root) && t.field_text(i, "name"@, src)
            == Some(field),
        Matcher::FieldName { field, .. } => t.kind(i) == "member_access_expression"@
            && t.field_text(i, "name"@, src) == Some(field),
        Matcher::Call { canonical, .. } => {
            ||| t.kind(i) == "invocation_expression"@ && t.field_text(i, "function"@, src) == Some(
                canonical,
            )
            ||| t.kind(i) == "object_creation_expression"@ && t.field_text(i, "type"@, src) == Some(
                canonical,
            )
        },
        Matcher::ParamName { names, .. } => (t.kind(i) == "member_access_expression"@ || t.kind(i)
            == "element_access_expression"@) && (t.field(i, "expression"@) matches Some(base)
            && t.kind(base) == "identifier"@ && names.contains(t.text(base, src))),
        Matcher::Subscript { base, .. } => t.kind(i) == "element_access_expression"@ && (t.field(
            i,
            "expression"@,
        ) matches Some(k) && (base is None || t.kind(k) == "identifier"@ && base == Some(
            t.text(k, src),
        ) || t.kind(k) == "member_access_expression"@ && base is Some && base == t.field_text(
            k,
            "name"@,
            src,
        ))),
        _ => false,
    }
}

/// An expression that is listed as a source is tainted, unless it is sanitized.
pub proof fn a_listed_source_is_tainted(
    t: &SyntaxTree,
    i: int,
    k: int,
    cx: Given<'_>,
    st: Map<Text, Info>,
)
    requires
        t.wf(),
        0 <= i < t.len(),
        0 <= k < cx.rule.sources.len(),
        is_source(cx.rule.sources[k], t, i, cx.src),
        is_unsanitized(cx.rule.sanitizers, t, i, cx.src),
    ensures
        csharp_taint(t, i, cx, st) is Some,
        !st.contains_key(t.text(i, cx.src)) ==> (csharp_taint(t, i, cx, st)->0).line == t.line(i),
{
    lemma_csharp_kinds();
    lemma_unsanitized(cx.rule.sanitizers, t, i, cx.src);
    if let Matcher::ParamName { .. } = cx.rule.sources[k] {
        let base = t.field(i, "expression"@)->0;
        a_field_is_the_first_child_in_it(t, i, "expression"@);
        assert(leftmost(t, base, cx.src) == Some(t.text(base, cx.src)));
        assert(leftmost(t, i, cx.src) == leftmost(t, base, cx.src));
    }
    lemma_source_listed(cx.rule.sources, 0, k, t, i, cx.src);
}

/// A call of a sanitizer is clean, whatever its receiver and arguments, unless a tainted name
/// is spelled like the call.
pub proof fn a_listed_sanitizer_cleans(
    t: &SyntaxTree,
    i: int,
    k: int,
    cx: Given<'_>,
    st: Map<Text, Info>,
)
    requires
        0 <= k < cx.rule.sanitizers.len(),
        is_for(cx.rule.sanitizers[k], t, i, cx.src),
        !st.contains_key(t.text(i, cx.src)),
    ensures
        csharp_taint(t, i, cx, st) is None,
{
    lemma_is_for(cx.rule.sanitizers[k], t, i, cx.src);
}

// ─── Arguments ───────────────────────────────────────────────────────────────
/// Whether the child at node `a` of a list of arguments carries taint: by a named part where
/// it is an argument, else by itself.
pub open spec fn is_tainted_argument(
    t: &SyntaxTree,
    args: int,
    a: int,
    k: int,
    cx: Given<'_>,
    st: Map<Text, Info>,
) -> bool {
    &&& is_child(t, args, a)
    &&& t.named(k)
    &&& csharp_taint(t, k, cx, st) is Some
    &&& if t.kind(a) == "argument"@ {
        is_child(t, a, k)
    } else {
        k == a
    }
}

proof fn lemma_list(
    t: &SyntaxTree,
    args: int,
    c: int,
    a: int,
    k: int,
    cx: Given<'_>,
    st: Map<Text, Info>,
)
    requires
        t.wf(),
        args < c <= a,
        is_tainted_argument(t, args, a, k, cx, st),
    ensures
        list_taint(t, c, t.after(args), cx, st) is Some,
    decreases gap(c, t.after(args)),
{
    a_child_comes_after_its_elders(t, args, c, a);
    if c < a {
        lemma_list(t, args, t.after(c), a, k, cx, st);
    } else if t.kind(a) == "argument"@ {
        a_child_comes_after_its_elders(t, a, a, k);
        lemma_parts(t, a, a + 1, k, cx, st);
    }
}

proof fn lemma_operand(t: &SyntaxTree, i: int, c: int, cx: Given<'_>, st: Map<Text, Info>) -> (k: int)
    requires
        walks_children(t, i, c, t.after(i)),
        operand_taint(t, c, t.after(i), cx, st) is Some,
    ensures
        is_child(t, i, k),
        t.named(k),
        csharp_taint(t, k, cx, st) is Some,
    decreases gap(c, t.after(i)),
{
    lemma_walk_on(t, i, c, t.after(i));
    if t.named(c) && csharp_taint(t, c, cx, st) is Some {
        c
    } else {
        lemma_operand(t, i, t.after(c), cx, st)
    }
}

proof fn lemma_list_back(
    t: &SyntaxTree,
    args: int,
    c: int,
    cx: Given<'_>,
    st: Map<Text, Info>,
) -> (r: (int, int))
    requires
        t.wf(),
        walks_children(t, args, c, t.after(args)),
        list_taint(t, c, t.after(args), cx, st) is Some,
    ensures
        is_tainted_argument(t, args, r.0, r.1, cx, st),
    decreases gap(c, t.after(args)),
{
    lemma_walk_on(t, args, c, t.after(args));
    if t.kind(c) == "argument"@ && operand_taint(t, c + 1, t.after(c), cx, st) is Some {
        assert forall|a: int|
            #![trigger t.siblings(c + 1, t.after(c)).contains(a)]
            t.siblings(c + 1, t.after(c)).contains(a) implies is_child(t, c, a) by {
            crate::tree_laws::children_name_their_parent(t, c, a);
        }
        let k = lemma_operand(t, c, c + 1, cx, st);
        (c, k)
    } else if t.kind(c) != "argument"@ && t.named(c) && csharp_taint(t, c, cx, st) is Some {
        (c, c)
    } else {
        lemma_list_back(t, args, t.after(c), cx, st)
    }
}

/// The arguments of a call or an object creation carry taint exactly where some argument is
/// tainted, whatever its position.
pub proof fn arguments_are_tainted_where_any_argument_is(
    t: &SyntaxTree,
    i: int,
    args: int,
    cx: Given<'_>,
    st: Map<Text, Info>,
)
    requires
        t.wf(),
        t.kind(i) == "invocation_expression"@ || t.kind(i) == "object_creation_expression"@,
        t.field(i, "arguments"@) == Some(args),
        0 <= args < t.len(),
    ensures
        arguments_taint(t, i, cx, st) is Some <==> exists|a: int, k: int| #[trigger]
            is_tainted_argument(t, args, a, k, cx, st),
{
    if arguments_taint(t, i, cx, st) is Some {
        assert forall|a: int|
            #![trigger t.siblings(args + 1, t.after(args)).contains(a)]
            t.siblings(args + 1, t.after(args)).contains(a) implies is_child(t, args, a) by {
            crate::tree_laws::children_name_their_parent(t, args, a);
        }
        let r = lemma_list_back(t, args, args + 1, cx, st);
        assert(is_tainted_argument(t, args, r.0, r.1, cx, st));
    }
    if exists|a: int, k: int| #[trigger] is_tainted_argument(t, args, a, k, cx, st) {
        let (a, k) = choose|a: int, k: int| #[trigger] is_tainted_argument(t, args, a, k, cx, st);
        a_child_comes_after_its_elders(t, args, args, a);
        lemma_list(t, args, args + 1, a, k, cx, st);
    }
}

// ─── Assignments ─────────────────────────────────────────────────────────────
/// Whether node `m` sets the variable `x`, by an initializer or an assignment, to the
/// expression at node `v`.
pub open spec fn sets(t: &SyntaxTree, m: int, x: Text, v: int, src: Text) -> bool {
    ||| t.kind(m) == "variable_declarator"@ && t.field_text(m, "name"@, src) == Some(x)
        && t.children(m).len() >= 3 && t.children(m).last() == v && t.kind(v) != "="@
    ||| t.kind(m) == "assignment_expression"@ && t.field(m, "right"@) == Some(v) && (t.field(
        m,
        "left"@,
    ) matches Some(left) && (t.kind(left) == "identifier"@ || t.kind(left)
        == "member_access_expression"@) && t.text(left, src) == x)
}

/// A variable that is set to a tainted expression, by an initializer or an assignment, is
/// tainted by the same source, one step further on.
pub proof fn a_variable_takes_the_taint_of_its_value(
    t: &SyntaxTree,
    m: int,
    x: Text,
    v: int,
    cx: Given<'_>,
    st: Map<Text, Info>,
)
    requires
        sets(t, m, x, v, cx.src),
        csharp_taint(t, v, cx, st) is Some,
    ensures
        csharp_state_after(t, m, cx, st).contains_key(x),
        csharp_state_after(t, m, cx, st)[x].description == (csharp_taint(
            t,
            v,
            cx,
            st,
        )->0).description,
        csharp_state_after(t, m, cx, st)[x].line == (csharp_taint(t, v, cx, st)->0).line,
{
    lemma_csharp_kinds();
}

/// A node that does not set a variable leaves what is known of it unchanged.
pub proof fn other_nodes_leave_a_variable_alone(
    t: &SyntaxTree,
    m: int,
    x: Text,
    cx: Given<'_>,
    st: Map<Text, Info>,
)
    requires
        forall|v: int| !#[trigger] sets(t, m, x, v, cx.src),
    ensures
        lookup(csharp_state_after(t, m, cx, st), x) == lookup(st, x),
{
    lemma_csharp_kinds();
    if t.kind(m) == "variable_declarator"@ && initializer(t, m) is Some {
        assert(!sets(t, m, x, initializer(t, m)->0, cx.src));
    }
    if t.kind(m) == "assignment_expression"@ && t.field(m, "right"@) is Some {
        assert(!sets(t, m, x, t.field(m, "right"@)->0, cx.src));
    }
}

/// Whether every expression that the body at node `b` sets `x` to is tainted wherever the
/// variables of `names` are.
pub open spec fn is_never_cleaned(
    t: &SyntaxTree,
    b: int,
    x: Text,
    cx: Given<'_>,
    names: Set<Text>,
) -> bool {
    forall|m: int, v: int, st: Map<Text, Info>|
        #![trigger sets(t, m, x, v, cx.src), csharp_taint(t, v, cx, st)]
        b < m < t.after(b) && sets(t, m, x, v, cx.src) && all_tainted(names, st) ==> csharp_taint(
            t,
            v,
            cx,
            st,
        ) is Some
}

proof fn lemma_filled_by_keeps(
    t: &SyntaxTree,
    i: int,
    method: Text,
    args: int,
    sources: Seq<Matcher>,
    from: int,
    cx: Given<'_>,
    st: Map<Text, Info>,
    x: Text,
)
    requires
        st.contains_key(x),
    ensures
        filled_by(t, i, method, args, sources, from, cx, st).contains_key(x),
    decreases sources.len() - from,
{
    if 0 <= from < sources.len() {
        let next = match sources[from] {
            Matcher::CallArgSource { method: m, arg_index, description } => if m == method {
                match argument_variable(t, args, arg_index, cx.src) {
                    Some(name) => st.insert(name, fresh(t, i, description, cx)),
                    None => st,
                }
            } else {
                st
            },
            _ => st,
        };
        lemma_filled_by_keeps(t, i, method, args, sources, from + 1, cx, next, x);
    }
}

proof fn lemma_filled_keeps(
    t: &SyntaxTree,
    c: int,
    e: int,
    cx: Given<'_>,
    st: Map<Text, Info>,
    x: Text,
)
    requires
        st.contains_key(x),
    ensures
        filled_among(t, c, e, cx, st).contains_key(x),
    decreases gap(c, e),
{
    if c < e {
        if CSharp::is_scope(t, c) {
            lemma_filled_keeps(t, t.after(c), e, cx, st, x);
        } else {
            let next = match (
                method_of(t, c, cx.src),
                crate::csharp_taint::arguments_of(t, c),
            ) {
                (Some(method), Some(args)) => filled_by(
                    t,
                    c,
                    method,
                    args,
                    cx.rule.sources,
                    0,
                    cx,
                    st,
                ),
                _ => st,
            };
            match (method_of(t, c, cx.src), crate::csharp_taint::arguments_of(t, c)) {
                (Some(method), Some(args)) => {
                    lemma_filled_by_keeps(t, c, method, args, cx.rule.sources, 0, cx, st, x);
                },
                _ => {},
            }
            lemma_filled_keeps(t, c + 1, e, cx, next, x);
        }
    }
}

proof fn lemma_kept(t: &SyntaxTree, b: int, x: Text, cx: Given<'_>, names: Set<Text>)
    requires
        is_kept::<CSharp>(t, b, cx, names),
        is_never_cleaned(t, b, x, cx, names),
    ensures
        is_kept::<CSharp>(t, b, cx, names.insert(x)),
{
    let more = names.insert(x);
    assert forall|m: int, st: Map<Text, Info>|
        #![trigger CSharp::state_after(t, m, cx, st)]
        b < m < t.after(b) && all_tainted(more, st) implies all_tainted(
        more,
        CSharp::state_after(t, m, cx, st),
    ) by {
        let next = CSharp::state_after(t, m, cx, st);
        assert forall|y: Text| names.contains(y) implies #[trigger] st.contains_key(y) by {
            assert(more.contains(y));
        }
        assert(all_tainted(names, st));
        assert(more.contains(x));
        assert(st.contains_key(x));
        assert(next.contains_key(x)) by {
            if exists|v: int| #[trigger] sets(t, m, x, v, cx.src) {
                let v = choose|v: int| #[trigger] sets(t, m, x, v, cx.src);
                assert(csharp_taint(t, v, cx, st) is Some);
                a_variable_takes_the_taint_of_its_value(t, m, x, v, cx, st);
            } else {
                other_nodes_leave_a_variable_alone(t, m, x, cx, st);
                assert(lookup(st, x) is Some);
            }
        }
        assert(all_tainted(names, next));
    }
    assert forall|st: Map<Text, Info>|
        #![trigger CSharp::reseeded(t, b, cx, st)]
        all_tainted(more, st) implies all_tainted(more, CSharp::reseeded(t, b, cx, st)) by {
        let next = CSharp::reseeded(t, b, cx, st);
        assert forall|y: Text| #![trigger next.contains_key(y)] more.contains(
            y,
        ) implies next.contains_key(y) by {
            assert(st.contains_key(y));
            lemma_filled_keeps(t, b + 1, t.after(b), cx, st, y);
        }
    }
}

/// A variable that a method sets to a tainted expression, and sets to no clean one, is
/// tainted in the method.
pub proof fn a_variable_that_is_set_is_tainted(
    t: &SyntaxTree,
    f: int,
    n: int,
    x: Text,
    v: int,
    propagators: Seq<Option<Text>>,
    cx: Given<'_>,
    names: Set<Text>,
)
    requires
        all_tainted(names, CSharp::entry_state(t, f, cx)),
        is_kept::<CSharp>(t, CSharp::body(t, f), cx, names),
        is_read_with::<CSharp>(t, CSharp::body(t, f), n),
        sets(t, n, x, v, cx.src),
        is_never_cleaned(t, CSharp::body(t, f), x, cx, names),
    ensures
        settled::<CSharp>(t, f, propagators, cx).contains_key(x),
{
    let b = CSharp::body(t, f);
    lemma_kept(t, b, x, cx, names);
    assert forall|st: Map<Text, Info>|
        #![trigger CSharp::state_after(t, n, cx, st)]
        all_tainted(names, st) implies CSharp::state_after(t, n, cx, st).contains_key(x) by {
        assert(csharp_taint(t, v, cx, st) is Some);
        a_variable_takes_the_taint_of_its_value(t, n, x, v, cx, st);
    }
    a_variable_that_is_set_stays_tainted::<CSharp>(t, f, n, propagators, cx, names, x);
}

proof fn lemma_filled_by(
    t: &SyntaxTree,
    i: int,
    method: Text,
    args: int,
    sources: Seq<Matcher>,
    from: int,
    j: int,
    cx: Given<'_>,
    st: Map<Text, Info>,
    x: Text,
)
    requires
        0 <= from <= j < sources.len(),
        sources[j] matches Matcher::CallArgSource { method: m, arg_index, .. } && m == method
            && argument_variable(t, args, arg_index, cx.src) == Some(x),
    ensures
        filled_by(t, i, method, args, sources, from, cx, st).contains_key(x),
    decreases sources.len() - from,
{
    let next = match sources[from] {
        Matcher::CallArgSource { method: m, arg_index, description } => if m == method {
            match argument_variable(t, args, arg_index, cx.src) {
                Some(name) => st.insert(name, fresh(t, i, description, cx)),
                None => st,
            }
        } else {
            st
        },
        _ => st,
    };
    if from == j {
        lemma_filled_by_keeps(t, i, method, args, sources, from + 1, cx, next, x);
    } else {
        lemma_filled_by(t, i, method, args, sources, from + 1, j, cx, next, x);
    }
}

proof fn lemma_filled(
    t: &SyntaxTree,
    b: int,
    c: int,
    i: int,
    j: int,
    args: int,
    cx: Given<'_>,
    st: Map<Text, Info>,
    x: Text,
)
    requires
        b < c <= i,
        is_read_with::<CSharp>(t, b, i),
        t.field(i, "arguments"@) == Some(args),
        0 <= j < cx.rule.sources.len(),
        cx.rule.sources[j] matches Matcher::CallArgSource { method, arg_index, .. } && calls_method(
            t,
            i,
            method,
            cx.src,
        ) && argument_variable(t, args, arg_index, cx.src) == Some(x),
    ensures
        filled_among(t, c, t.after(b), cx, st).contains_key(x),
    decreases gap(c, t.after(b)),
{
    lemma_csharp_kinds();
    let e = t.after(b);
    if CSharp::is_scope(t, c) {
        lemma_filled(t, b, t.after(c), i, j, args, cx, st, x);
    } else {
        let next = match (method_of(t, c, cx.src), crate::csharp_taint::arguments_of(t, c)) {
            (Some(method), Some(list)) => filled_by(
                t,
                c,
                method,
                list,
                cx.rule.sources,
                0,
                cx,
                st,
            ),
            _ => st,
        };
        if c == i {
            let method = method_of(t, i, cx.src)->0;
            lemma_filled_by(t, i, method, args, cx.rule.sources, 0, j, cx, st, x);
            lemma_filled_keeps(t, c + 1, e, cx, next, x);
        } else {
            lemma_filled(t, b, c + 1, i, j, args, cx, next, x);
        }
    }
}

/// A call of a method that fills one of its arguments with untrusted data taints the variable
/// in that place.
pub proof fn a_filled_argument_is_tainted(
    t: &SyntaxTree,
    b: int,
    i: int,
    j: int,
    args: int,
    cx: Given<'_>,
    st: Map<Text, Info>,
    x: Text,
)
    requires
        is_read_with::<CSharp>(t, b, i),
        t.field(i, "arguments"@) == Some(args),
        0 <= j < cx.rule.sources.len(),
        cx.rule.sources[j] matches Matcher::CallArgSource { method, arg_index, .. } && calls_method(
            t,
            i,
            method,
            cx.src,
        ) && argument_variable(t, args, arg_index, cx.src) == Some(x),
    ensures
        CSharp::reseeded(t, b, cx, st).contains_key(x),
{
    lemma_filled(t, b, b + 1, i, j, args, cx, st, x);
}

// ─── Sinks ───────────────────────────────────────────────────────────────────
proof fn lemma_sink_listed(sinks: Seq<Matcher>, from: int, j: int, t: &SyntaxTree, i: int, src: Text)
    requires
        0 <= from <= j < sinks.len(),
        is_for(sinks[j], t, i, src),
    ensures
        sink_at(sinks, from, t, i, src) is Some,
    decreases sinks.len() - from,
{
    if from < j {
        lemma_sink_listed(sinks, from + 1, j, t, i, src);
    } else {
        lemma_is_for(sinks[j], t, i, src);
    }
}

/// A call or an object creation that is listed as a sink is reported wherever any of its
/// arguments is tainted, whatever the argument's position.
pub proof fn a_tainted_argument_of_a_sink_is_reported(
    t: &SyntaxTree,
    i: int,
    args: int,
    a: int,
    k: int,
    j: int,
    cx: Given<'_>,
    st: Map<Text, Info>,
)
    requires
        t.wf(),
        t.field(i, "arguments"@) == Some(args),
        0 <= args < t.len(),
        is_tainted_argument(t, args, a, k, cx, st),
        0 <= j < cx.rule.sinks.len(),
        is_for(cx.rule.sinks[j], t, i, cx.src),
    ensures
        call_sink_flow(t, i, cx, st) matches Some(flow) && flow.sink_line == t.line(i)
            && flow.sink_start_byte == t.nodes@[i].start_byte && flow.sink_end_byte
            == t.nodes@[i].end_byte,
{
    lemma_csharp_kinds();
    arguments_are_tainted_where_any_argument_is(t, i, args, cx, st);
    lemma_sink_listed(cx.rule.sinks, 0, j, t, i, cx.src);
}

/// A call or an object creation is not reported where no argument is tainted.
pub proof fn clean_arguments_are_not_reported(
    t: &SyntaxTree,
    i: int,
    args: int,
    cx: Given<'_>,
    st: Map<Text, Info>,
)
    requires
        t.wf(),
        t.kind(i) == "invocation_expression"@ || t.kind(i) == "object_creation_expression"@,
        t.field(i, "arguments"@) == Some(args),
        0 <= args < t.len(),
        forall|k: int| args < k < t.after(args) ==> #[trigger] csharp_taint(t, k, cx, st) is None,
    ensures
        call_sink_flow(t, i, cx, st) is None,
{
    arguments_are_tainted_where_any_argument_is(t, i, args, cx, st);
    if exists|a: int, k: int| #[trigger] is_tainted_argument(t, args, a, k, cx, st) {
        let (a, k) = choose|a: int, k: int| #[trigger] is_tainted_argument(t, args, a, k, cx, st);
        a_child_comes_after_its_elders(t, args, args, a);
        if t.kind(a) == "argument"@ {
            a_child_comes_after_its_elders(t, a, a, k);
            a_child_lies_within_its_parent(t, args, a);
        }
    }
    assert forall|a: int|
        #![trigger t.siblings(args + 1, t.after(args)).contains(a)]
        t.siblings(args + 1, t.after(args)).contains(a) implies is_child(t, args, a) by {
        crate::tree_laws::children_name_their_parent(t, args, a);
    }
    lemma_no_concat(t, args, args + 1, cx, st);
}

proof fn lemma_no_concat(t: &SyntaxTree, args: int, c: int, cx: Given<'_>, st: Map<Text, Info>)
    requires
        t.wf(),
        args < c,
        walks_children(t, args, c, t.after(args)),
        forall|k: int| args < k < t.after(args) ==> #[trigger] csharp_taint(t, k, cx, st) is None,
    ensures
        concat_taint(t, c, t.after(args), cx, st) is None,
    decreases gap(c, t.after(args)),
{
    if c < t.after(args) {
        lemma_walk_on(t, args, c, t.after(args));
        a_child_lies_within_its_parent(t, args, c);
        if t.first_named(c) is Some {
            let k = t.first_named(c)->0;
            assert(t.named_children(c)[0] == k);
            assert(t.named_children(c).contains(k));
            a_child_comes_after_its_elders(t, args, args, c);
            crate::tree_laws::children_name_their_parent(t, c, k);
            a_child_comes_after_its_elders(t, c, c, k);
            assert(csharp_taint(t, k, cx, st) is None);
        }
        lemma_no_concat(t, args, t.after(c), cx, st);
    }
}

/// A call is reported for a sink of concatenations where an argument that is built by `+` is
/// tainted.
pub proof fn a_tainted_concatenation_is_reported(
    t: &SyntaxTree,
    i: int,
    args: int,
    a: int,
    k: int,
    j: int,
    cx: Given<'_>,
    st: Map<Text, Info>,
)
    requires
        t.wf(),
        t.field(i, "arguments"@) == Some(args),
        is_child(t, args, a),
        t.kind(a) == "argument"@,
        t.first_named(a) == Some(k),
        t.kind(k) == "binary_expression"@,
        t.field_text(k, "operator"@, cx.src) == Some("+"@),
        csharp_taint(t, k, cx, st) is Some,
        0 <= j < cx.rule.sinks.len(),
        cx.rule.sinks[j] matches Matcher::CallArgConcat { method, .. } && calls_method(
            t,
            i,
            method,
            cx.src,
        ),
    ensures
        call_sink_flow(t, i, cx, st) matches Some(flow) && flow.sink_line == t.line(i),
{
    lemma_csharp_kinds();
    a_child_comes_after_its_elders(t, args, args, a);
    lemma_concat(t, args, args + 1, a, k, cx, st);
    lemma_concat_sink(cx.rule.sinks, 0, j, method_of(t, i, cx.src)->0);
    assert(concat_argument_taint(t, i, cx, st) is Some);
}

proof fn lemma_concat(
    t: &SyntaxTree,
    args: int,
    c: int,
    a: int,
    k: int,
    cx: Given<'_>,
    st: Map<Text, Info>,
)
    requires
        t.wf(),
        is_child(t, args, a),
        args < c <= a,
        t.kind(a) == "argument"@,
        t.first_named(a) == Some(k),
        t.kind(k) == "binary_expression"@,
        t.field_text(k, "operator"@, cx.src) == Some("+"@),
        csharp_taint(t, k, cx, st) is Some,
    ensures
        concat_taint(t, c, t.after(args), cx, st) is Some,
    decreases gap(c, t.after(args)),
{
    a_child_comes_after_its_elders(t, args, c, a);
    if c < a {
        lemma_concat(t, args, t.after(c), a, k, cx, st);
    }
}

proof fn lemma_concat_sink(sinks: Seq<Matcher>, from: int, j: int, name: Text)
    requires
        0 <= from <= j < sinks.len(),
        sinks[j] matches Matcher::CallArgConcat { method, .. } && method == name,
    ensures
        concat_sink(sinks, from, Some(name)) is Some,
    decreases sinks.len() - from,
{
    if from < j {
        lemma_concat_sink(sinks, from + 1, j, name);
    }
}

proof fn lemma_flows_listed(
    t: &SyntaxTree,
    b: int,
    c: int,
    i: int,
    cx: Given<'_>,
    st: Map<Text, Info>,
)
    requires
        b < c <= i,
        is_read_with::<CSharp>(t, b, i),
        t.kind(i) == "invocation_expression"@ || t.kind(i) == "object_creation_expression"@,
        call_sink_flow(t, i, cx, st) is Some,
    ensures
        flows_among(t, c, t.after(b), cx, st).contains(call_sink_flow(t, i, cx, st)->0),
    decreases gap(c, t.after(b)),
{
    let e = t.after(b);
    let all = flows_among(t, c, e, cx, st);
    let flow = call_sink_flow(t, i, cx, st)->0;
    if CSharp::is_scope(t, c) {
        lemma_flows_listed(t, b, t.after(c), i, cx, st);
    } else {
        let rest = flows_among(t, c + 1, e, cx, st);
        if c == i {
            assert(all[0] == flow);
        } else {
            lemma_flows_listed(t, b, c + 1, i, cx, st);
            let k = choose|k: int| 0 <= k < rest.len() && rest[k] == flow;
            assert(all[k + (all.len() - rest.len())] == flow);
        }
    }
}

/// The flow that a call of a method makes is a flow of the method and of the file.
pub proof fn a_flow_of_a_call_is_a_flow_of_the_file(
    t: &SyntaxTree,
    c: int,
    e: int,
    f: int,
    i: int,
    propagators: Seq<Option<Text>>,
    cx: Given<'_>,
)
    requires
        c <= f < e,
        CSharp::is_scope(t, f),
        is_read_with::<CSharp>(t, CSharp::body(t, f), i),
        t.kind(i) == "invocation_expression"@ || t.kind(i) == "object_creation_expression"@,
        call_sink_flow(t, i, cx, settled::<CSharp>(t, f, propagators, cx)) is Some,
    ensures
        ({
            let flow = call_sink_flow(t, i, cx, settled::<CSharp>(t, f, propagators, cx))->0;
            &&& scope_flows::<CSharp>(t, f, propagators, cx).contains(flow)
            &&& file_flows::<CSharp>(t, c, e, propagators, cx).contains(flow)
        }),
{
    let b = CSharp::body(t, f);
    let st = settled::<CSharp>(t, f, propagators, cx);
    let flow = call_sink_flow(t, i, cx, st)->0;
    lemma_flows_listed(t, b, b + 1, i, cx, st);
    assert(csharp_sink_flows(t, b, cx, st).contains(flow));
    assert(scope_flows::<CSharp>(t, f, propagators, cx).contains(flow));
    a_file_reports_the_flows_of_its_scopes::<CSharp>(t, c, e, propagators, cx, flow);
}

/// Where a method sets a variable to a tainted expression, and sets it to no clean one, a
/// call of a sink with the variable as an argument is reported.
pub proof fn a_tainted_assignment_reaches_the_sink(
    t: &SyntaxTree,
    c: int,
    e: int,
    f: int,
    n: int,
    x: Text,
    v: int,
    i: int,
    args: int,
    a: int,
    k: int,
    j: int,
    propagators: Seq<Option<Text>>,
    cx: Given<'_>,
    names: Set<Text>,
)
    requires
        t.wf(),
        c <= f < e,
        CSharp::is_scope(t, f),
        all_tainted(names, CSharp::entry_state(t, f, cx)),
        is_kept::<CSharp>(t, CSharp::body(t, f), cx, names),
        is_read_with::<CSharp>(t, CSharp::body(t, f), n),
        sets(t, n, x, v, cx.src),
        is_never_cleaned(t, CSharp::body(t, f), x, cx, names),
        is_read_with::<CSharp>(t, CSharp::body(t, f), i),
        t.field(i, "arguments"@) == Some(args),
        0 <= args < t.len(),
        is_child(t, args, a),
        t.kind(a) == "argument"@,
        is_child(t, a, k),
        t.named(k),
        t.text(k, cx.src) == x,
        0 <= j < cx.rule.sinks.len(),
        is_for(cx.rule.sinks[j], t, i, cx.src),
    ensures
        some_flow_into(file_flows::<CSharp>(t, c, e, propagators, cx), t, i),
{
    let st = settled::<CSharp>(t, f, propagators, cx);
    a_variable_that_is_set_is_tainted(t, f, n, x, v, propagators, cx, names);
    a_tainted_name_is_tainted(t, k, cx, st);
    a_tainted_argument_of_a_sink_is_reported(t, i, args, a, k, j, cx, st);
    a_flow_of_a_call_is_a_flow_of_the_file(t, c, e, f, i, propagators, cx);
    let all = file_flows::<CSharp>(t, c, e, propagators, cx);
    let flow = call_sink_flow(t, i, cx, st)->0;
    let m = choose|m: int| 0 <= m < all.len() && all[m] == flow;
    assert(all[m] == flow);
}

proof fn lemma_counted(t: &SyntaxTree, c: int, e: int, index: int)
    requires
        0 <= index,
        forall|a: int| #![trigger t.kind(a)] c <= a < e && t.kind(a) == "argument"@ ==> t.named(a),
    ensures
        crate::csharp_taint::nth_argument(t, c, e, index) == if index
            < crate::csharp_taint::named_of_kind(t, c, e, "argument"@).len() {
            Some(crate::csharp_taint::named_of_kind(t, c, e, "argument"@)[index])
        } else {
            None
        },
    decreases gap(c, e),
{
    if c < e {
        let rest = crate::csharp_taint::named_of_kind(t, t.after(c), e, "argument"@);
        let all = crate::csharp_taint::named_of_kind(t, c, e, "argument"@);
        if t.kind(c) == "argument"@ {
            assert(all == seq![c] + rest);
            if index > 0 {
                lemma_counted(t, t.after(c), e, index - 1);
            }
        } else {
            lemma_counted(t, t.after(c), e, index);
        }
    }
}

/// The argument that a source fills is counted as the arguments of a call of another file
/// are: in the order in which they stand, from zero on.
pub proof fn arguments_are_counted_alike(t: &SyntaxTree, i: int, args: int, index: int)
    requires
        0 <= index,
        t.field(i, "arguments"@) == Some(args),
        forall|a: int|
            #![trigger t.kind(a)]
            args < a < t.after(args) && t.kind(a) == "argument"@ ==> t.named(a),
    ensures
        CSharp::arguments(t, i) matches Some(all)
            && crate::csharp_taint::nth_argument(t, args + 1, t.after(args), index) == if index
            < all.len() {
            Some(all[index])
        } else {
            None
        },
{
    lemma_counted(t, args + 1, t.after(args), index);
}

} // verus!
