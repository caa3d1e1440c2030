//! Running the Go taint rules together finds what each of them finds alone.
use crate::context::FileContext;
use crate::finding::Report;
use crate::go::{
    aliases_of, dispatched, go_batched_reports, go_dispatch, go_report, go_rule_reports, go_rules,
    go_taint_rules_are_found, meta_named, package_for, package_of,
};
use crate::go_taint::{
    assign_each, assign_lists, assigned, attributed, batched_flows, call_sink, call_sink_flows,
    call_taint_of, declared_source, entry_state, file_flows, file_summaries, first_pass,
    first_value, flows_at, flows_from, format_sink, format_sink_flows, fresh, function_flows,
    group_facts, group_sinks, identifiers_in, is_covered, reaching, rule_facts, scope_flows,
    seed_by_name, seed_identifiers, seed_params, share_walk, some_call_sink, state_after,
    summary_key, taint_of, taint_of_literal, taint_of_method, taint_of_named, taint_of_params,
    value_of, Facts,
};
use crate::taint_engine::{flow_at, Flow, Info, Matcher, TaintRule};
use crate::taint_rule::{distinct_ids, enabled_rules, MetaFacts};
use crate::text::Text;
use crate::tree::{gap, SyntaxTree};
use vstd::prelude::*;

verus! {

broadcast use crate::tree::group_tree;

/// The sinks of several rules, each under its rule.
pub type Groups = Seq<(Option<Text>, Seq<Matcher>)>;

/// A context with other sinks.
pub open spec fn with_groups<'a>(cx: Facts<'a>, groups: Groups) -> Facts<'a> {
    Facts { groups, ..cx }
}

// ─── Taint does not depend on the sinks ──────────────────────────────────────
proof fn lemma_same(t: &SyntaxTree, i: int, cx: Facts<'_>, g: Groups, st: Map<Text, Info>)
    ensures
        taint_of(t, i, with_groups(cx, g), st) == taint_of(t, i, cx, st),
    decreases gap(i, t.len()), 1int, 0int,
{
    if 0 <= i < t.len() {
        if t.field(i, "operand"@) is Some {
            lemma_same(t, t.field(i, "operand"@)->0, cx, g, st);
        }
        lemma_same_named(t, i + 1, t.after(i), cx, g, st);
        lemma_same_literal(t, i + 1, t.after(i), cx, g, st);
        lemma_same_call(t, i, cx, g, st);
    }
}

proof fn lemma_same_call(t: &SyntaxTree, i: int, cx: Facts<'_>, g: Groups, st: Map<Text, Info>)
    ensures
        call_taint_of(t, i, with_groups(cx, g), st) == call_taint_of(t, i, cx, st),
    decreases gap(i, t.len()), 0int, 0int,
{
    if 0 <= i < t.len() {
        let func = t.field(i, "function"@);
        let args = t.field(i, "arguments"@);
        if args is Some {
            let a = args->0;
            lemma_same_named(t, a + 1, t.after(a), cx, g, st);
            if func is Some {
                let callee = t.text(func->0, cx.src);
                let key = summary_key(callee, t.named_children(a).len() as int);
                if cx.summaries.contains_key(key) {
                    lemma_same_params(t, a, cx.summaries[key].params_to_return, 0, cx, g, st);
                }
                lemma_same_method(t, i, func->0, a, cx, g, st);
                if cx.cross is Some && cx.cross->0.summary(callee) is Some {
                    let s = cx.cross->0.summary(callee)->0;
                    lemma_same_params(t, a, s.params_to_return, 0, cx, g, st);
                }
            }
        }
        if func is Some && t.field(func->0, "operand"@) is Some {
            lemma_same(t, t.field(func->0, "operand"@)->0, cx, g, st);
        }
    }
}

proof fn lemma_same_named(
    t: &SyntaxTree,
    c: int,
    e: int,
    cx: Facts<'_>,
    g: Groups,
    st: Map<Text, Info>,
)
    ensures
        taint_of_named(t, c, e, with_groups(cx, g), st) == taint_of_named(t, c, e, cx, st),
    decreases gap(c, t.len()), 2int, 0int,
{
    if 0 <= c < t.len() && c < e {
        lemma_same(t, c, cx, g, st);
        lemma_same_named(t, t.after(c), e, cx, g, st);
    }
}

proof fn lemma_same_literal(
    t: &SyntaxTree,
    c: int,
    e: int,
    cx: Facts<'_>,
    g: Groups,
    st: Map<Text, Info>,
)
    ensures
        taint_of_literal(t, c, e, with_groups(cx, g), st) == taint_of_literal(t, c, e, cx, st),
    decreases gap(c, t.len()), 3int, 0int,
{
    if 0 <= c < t.len() && c < e {
        lemma_same_named(t, c + 1, t.after(c), cx, g, st);
        lemma_same_literal(t, t.after(c), e, cx, g, st);
    }
}

proof fn lemma_same_params(
    t: &SyntaxTree,
    args: int,
    params: Seq<int>,
    from: int,
    cx: Facts<'_>,
    g: Groups,
    st: Map<Text, Info>,
)
    ensures
        taint_of_params(t, args, params, from, with_groups(cx, g), st) == taint_of_params(
            t,
            args,
            params,
            from,
            cx,
            st,
        ),
    decreases gap(args, t.len()), 4int, params.len() - from,
{
    if 0 <= args < t.len() && 0 <= from < params.len() {
        let p = params[from];
        if 0 <= p < t.named_children(args).len() {
            lemma_same(t, t.named_children(args)[p], cx, g, st);
        }
        lemma_same_params(t, args, params, from + 1, cx, g, st);
    }
}

proof fn lemma_same_method(
    t: &SyntaxTree,
    i: int,
    func: int,
    args: int,
    cx: Facts<'_>,
    g: Groups,
    st: Map<Text, Info>,
)
    ensures
        taint_of_method(t, i, func, args, with_groups(cx, g), st) == taint_of_method(
            t,
            i,
            func,
            args,
            cx,
            st,
        ),
    decreases gap(args, t.len()), 5int, 0int,
{
    match t.field(func, "field"@) {
        Some(f) => {
            let key = summary_key(t.text(f, cx.src), t.named_children(args).len() as int);
            if cx.summaries.contains_key(key) {
                lemma_same_params(t, args, cx.summaries[key].params_to_return, 0, cx, g, st);
            }
        },
        None => {},
    }
}

proof fn lemma_same_each(
    t: &SyntaxTree,
    names: Seq<Text>,
    exprs: Seq<int>,
    from: int,
    cx: Facts<'_>,
    g: Groups,
    st: Map<Text, Info>,
    now: Map<Text, Info>,
)
    requires
        cx.policy is None,
    ensures
        assign_each(t, names, exprs, from, with_groups(cx, g), st, now) == assign_each(
            t,
            names,
            exprs,
            from,
            cx,
            st,
            now,
        ),
    decreases names.len() - from,
{
    if 0 <= from < names.len() {
        lemma_same(t, exprs[from], cx, g, st);
        let next = assigned(now, names[from], value_of(t, exprs[from], cx, st));
        lemma_same_each(t, names, exprs, from + 1, cx, g, st, next);
    }
}

proof fn lemma_same_first(
    t: &SyntaxTree,
    exprs: Seq<int>,
    from: int,
    cx: Facts<'_>,
    g: Groups,
    st: Map<Text, Info>,
)
    requires
        cx.policy is None,
    ensures
        first_value(t, exprs, from, with_groups(cx, g), st) == first_value(t, exprs, from, cx, st),
    decreases exprs.len() - from,
{
    if 0 <= from < exprs.len() {
        lemma_same(t, exprs[from], cx, g, st);
        lemma_same_first(t, exprs, from + 1, cx, g, st);
    }
}

proof fn lemma_same_lists(
    t: &SyntaxTree,
    names: Seq<Text>,
    exprs: Seq<int>,
    cx: Facts<'_>,
    g: Groups,
    st: Map<Text, Info>,
)
    requires
        cx.policy is None,
    ensures
        assign_lists(t, names, exprs, with_groups(cx, g), st) == assign_lists(
            t,
            names,
            exprs,
            cx,
            st,
        ),
{
    lemma_same_each(t, names, exprs, 0, cx, g, st, st);
    lemma_same_first(t, exprs, 0, cx, g, st);
}

proof fn lemma_same_seeds(
    t: &SyntaxTree,
    c: int,
    e: int,
    description: Text,
    cx: Facts<'_>,
    g: Groups,
    st: Map<Text, Info>,
)
    ensures
        seed_identifiers(t, c, e, description, with_groups(cx, g), st) == seed_identifiers(
            t,
            c,
            e,
            description,
            cx,
            st,
        ),
    decreases gap(c, e),
{
    if c < e {
        let next = if t.kind(c) == "identifier"@ {
            st.insert(t.text(c, cx.src), fresh(t, c, description, cx))
        } else {
            st
        };
        lemma_same_seeds(t, t.after(c), e, description, cx, g, next);
    }
}

proof fn lemma_same_step(t: &SyntaxTree, i: int, cx: Facts<'_>, g: Groups, st: Map<Text, Info>)
    requires
        cx.policy is None,
    ensures
        state_after(t, i, with_groups(cx, g), st) == state_after(t, i, cx, st),
{
    let src = cx.src;
    if t.field(i, "left"@) is Some && t.field(i, "right"@) is Some {
        let left = t.field(i, "left"@)->0;
        let right = t.field(i, "right"@)->0;
        lemma_same_lists(t, identifiers_in(t, left, src), t.named_children(right), cx, g, st);
        lemma_same_lists(t, identifiers_in(t, left, src), seq![right], cx, g, st);
    }
    if t.field(i, "value"@) is Some {
        lemma_same_lists(
            t,
            identifiers_in(t, i, src),
            t.named_children(t.field(i, "value"@)->0),
            cx,
            g,
            st,
        );
    }
    if declared_source(t, i, cx) is Some {
        lemma_same_seeds(t, i + 1, t.after(i), declared_source(t, i, cx)->0, cx, g, st);
    }
}

proof fn lemma_same_names(
    t: &SyntaxTree,
    c: int,
    e: int,
    cx: Facts<'_>,
    g: Groups,
    st: Map<Text, Info>,
)
    ensures
        seed_by_name(t, c, e, with_groups(cx, g), st) == seed_by_name(t, c, e, cx, st),
    decreases gap(c, e),
{
    if c < e {
        let name = t.text(c, cx.src);
        let source = crate::taint_engine::param_source(cx.sources, 0, name);
        let next = if t.kind(c) == "identifier"@ && source is Some {
            st.insert(name, fresh(t, c, source->0, cx))
        } else {
            st
        };
        lemma_same_names(t, t.after(c), e, cx, g, next);
    }
}

proof fn lemma_same_params_seeded(
    t: &SyntaxTree,
    c: int,
    e: int,
    cx: Facts<'_>,
    g: Groups,
    st: Map<Text, Info>,
)
    ensures
        seed_params(t, c, e, with_groups(cx, g), st) == seed_params(t, c, e, cx, st),
    decreases gap(c, e),
{
    if c < e {
        lemma_same_names(t, c + 1, t.after(c), cx, g, st);
        let next = if !crate::go_taint::declares_params(t, c) {
            st
        } else {
            match declared_source(t, c, cx) {
                Some(d) => {
                    lemma_same_seeds(t, c + 1, t.after(c), d, cx, g, st);
                    seed_identifiers(t, c + 1, t.after(c), d, cx, st)
                },
                None => seed_by_name(t, c + 1, t.after(c), cx, st),
            }
        };
        lemma_same_params_seeded(t, t.after(c), e, cx, g, next);
    }
}

proof fn lemma_same_reaching(
    t: &SyntaxTree,
    c: int,
    e: int,
    cx: Facts<'_>,
    g: Groups,
    st: Map<Text, Info>,
)
    requires
        cx.policy is None,
    ensures
        reaching(t, c, e, with_groups(cx, g), st) == reaching(t, c, e, cx, st),
    decreases gap(c, e),
{
    if c < e {
        lemma_same(t, c, cx, g, st);
        lemma_same_reaching(t, t.after(c), e, cx, g, st);
    }
}

// ─── The flows of one rule among those of several ────────────────────────────
/// A flow that does not say which rule it belongs to.
pub open spec fn unattributed(f: Flow) -> Flow {
    Flow { rule_id_hint: None, ..f }
}

/// The flows that belong to a rule.
pub open spec fn flows_of(flows: Seq<Flow>, id: Text) -> Seq<Flow>
    decreases flows.len(),
{
    if flows.len() == 0 {
        Seq::empty()
    } else {
        let before = flows_of(flows.drop_last(), id);
        if flows.last().rule_id_hint == Some(id) {
            before.push(unattributed(flows.last()))
        } else {
            before
        }
    }
}

/// The sinks of a rule among those of several, without the rule.
pub open spec fn only(groups: Groups, from: int, id: Text) -> Groups
    decreases groups.len() - from,
{
    if from < 0 || from >= groups.len() {
        Seq::empty()
    } else if groups[from].0 == Some(id) {
        seq![(None, groups[from].1)] + only(groups, from + 1, id)
    } else {
        only(groups, from + 1, id)
    }
}

proof fn lemma_flows_of_add(a: Seq<Flow>, b: Seq<Flow>, id: Text)
    ensures
        flows_of(a + b, id) == flows_of(a, id) + flows_of(b, id),
    decreases b.len(),
{
    if b.len() == 0 {
        assert(a + b =~= a);
        assert(flows_of(a, id) + flows_of(b, id) =~= flows_of(a, id));
    } else {
        assert((a + b).drop_last() =~= a + b.drop_last());
        lemma_flows_of_add(a, b.drop_last(), id);
        assert(flows_of(a + b, id) =~= flows_of(a, id) + flows_of(b, id));
    }
}

proof fn lemma_flows_of_one(f: Flow, id: Text)
    ensures
        flows_of(seq![f], id) == (if f.rule_id_hint == Some(id) {
            seq![unattributed(f)]
        } else {
            Seq::empty()
        }),
{
    reveal_with_fuel(flows_of, 2);
    assert(seq![f].drop_last() =~= Seq::empty());
    assert(Seq::<Flow>::empty().push(unattributed(f)) =~= seq![unattributed(f)]);
}

proof fn lemma_shifted_calls(
    a: Groups,
    from: int,
    b: Groups,
    callee: Text,
    t: &SyntaxTree,
    i: int,
    taint: (Text, int),
)
    requires
        0 <= from <= a.len(),
        a.skip(from) == b,
    ensures
        call_sink_flows(a, from, callee, t, i, taint) == call_sink_flows(b, 0, callee, t, i, taint),
        format_sink_flows(a, from, t, i, taint) == format_sink_flows(b, 0, t, i, taint),
    decreases a.len() - from,
{
    if from < a.len() {
        assert(a[from] == b[0]);
        assert(a.skip(from + 1) =~= b.skip(1));
        lemma_shifted_calls(a, from + 1, b.skip(1), callee, t, i, taint);
        lemma_shifted_calls(b, 1, b.skip(1), callee, t, i, taint);
    }
}

proof fn lemma_pick_calls(
    groups: Groups,
    from: int,
    id: Text,
    callee: Text,
    t: &SyntaxTree,
    i: int,
    taint: (Text, int),
)
    requires
        0 <= from <= groups.len(),
    ensures
        flows_of(call_sink_flows(groups, from, callee, t, i, taint), id) == call_sink_flows(
            only(groups, from, id),
            0,
            callee,
            t,
            i,
            taint,
        ),
        flows_of(format_sink_flows(groups, from, t, i, taint), id) == format_sink_flows(
            only(groups, from, id),
            0,
            t,
            i,
            taint,
        ),
    decreases groups.len() - from,
{
    if from < groups.len() {
        lemma_pick_calls(groups, from + 1, id, callee, t, i, taint);
        let rest = only(groups, from + 1, id);
        match call_sink(groups[from].1, 0, callee) {
            Some(d) => {
                let f = flow_at(t, i, taint.0, taint.1, d, groups[from].0, 1);
                lemma_flows_of_one(f, id);
                lemma_flows_of_add(
                    seq![f],
                    call_sink_flows(groups, from + 1, callee, t, i, taint),
                    id,
                );
            },
            None => {},
        }
        match format_sink(groups[from].1, 0) {
            Some(d) => {
                let f = flow_at(t, i, taint.0, taint.1, d, groups[from].0, 1);
                lemma_flows_of_one(f, id);
                lemma_flows_of_add(seq![f], format_sink_flows(groups, from + 1, t, i, taint), id);
            },
            None => {},
        }
        if groups[from].0 == Some(id) {
            let here = only(groups, from, id);
            assert(here.skip(1) =~= rest);
            lemma_shifted_calls(here, 1, rest, callee, t, i, taint);
            assert(here[0] == (None::<Text>, groups[from].1));
        } else {
            assert(Seq::<Flow>::empty() + call_sink_flows(rest, 0, callee, t, i, taint)
                =~= call_sink_flows(rest, 0, callee, t, i, taint));
            assert(Seq::<Flow>::empty() + format_sink_flows(rest, 0, t, i, taint)
                =~= format_sink_flows(rest, 0, t, i, taint));
        }
    }
}

proof fn lemma_no_call_sink(
    groups: Groups,
    from: int,
    callee: Text,
    t: &SyntaxTree,
    i: int,
    taint: (Text, int),
)
    requires
        !some_call_sink(groups, callee),
    ensures
        call_sink_flows(groups, from, callee, t, i, taint) == Seq::<Flow>::empty(),
    decreases groups.len() - from,
{
    if 0 <= from < groups.len() {
        assert(call_sink(groups[from].1, 0, callee) is None);
        lemma_no_call_sink(groups, from + 1, callee, t, i, taint);
    }
}

proof fn lemma_pick_at(t: &SyntaxTree, i: int, cx: Facts<'_>, id: Text, st: Map<Text, Info>)
    requires
        cx.policy is None,
        cx.cross is None,
    ensures
        flows_of(flows_at(t, i, cx, st), id) == flows_at(
            t,
            i,
            with_groups(cx, only(cx.groups, 0, id)),
            st,
        ),
{
    let g = only(cx.groups, 0, id);
    let one = with_groups(cx, g);
    lemma_same(t, i, cx, g, st);
    if taint_of(t, i, cx, st) is Some {
        lemma_pick_calls(cx.groups, 0, id, Seq::empty(), t, i, taint_of(t, i, cx, st)->0);
    }
    let func = t.field(i, "function"@);
    if func is Some && t.field(i, "arguments"@) is Some {
        let a = t.field(i, "arguments"@)->0;
        let callee = crate::common::resolved_in(cx.aliases, t.text(func->0, cx.src));
        lemma_same_reaching(t, a + 1, t.after(a), cx, g, st);
        match reaching(t, a + 1, t.after(a), cx, st) {
            Some(taint) => {
                lemma_pick_calls(cx.groups, 0, id, callee, t, i, taint);
                if !some_call_sink(cx.groups, callee) {
                    lemma_no_call_sink(cx.groups, 0, callee, t, i, taint);
                }
                if !some_call_sink(g, callee) {
                    lemma_no_call_sink(g, 0, callee, t, i, taint);
                }
            },
            None => {},
        }
    }
    assert(flows_of(Seq::empty(), id) =~= Seq::<Flow>::empty());
}

proof fn lemma_pick_scope(
    t: &SyntaxTree,
    c: int,
    e: int,
    cx: Facts<'_>,
    id: Text,
    st: Map<Text, Info>,
)
    requires
        cx.policy is None,
        cx.cross is None,
    ensures
        flows_of(scope_flows(t, c, e, cx, st), id) == scope_flows(
            t,
            c,
            e,
            with_groups(cx, only(cx.groups, 0, id)),
            st,
        ),
    decreases gap(c, e),
{
    if c < e {
        if t.kind(c) == "func_literal"@ {
            lemma_pick_scope(t, t.after(c), e, cx, id, st);
        } else {
            let now = state_after(t, c, cx, st);
            lemma_same_step(t, c, cx, only(cx.groups, 0, id), st);
            lemma_pick_at(t, c, cx, id, st);
            lemma_pick_scope(t, c + 1, e, cx, id, now);
            lemma_flows_of_add(flows_at(t, c, cx, st), scope_flows(t, c + 1, e, cx, now), id);
        }
    }
}

proof fn lemma_pick_function(t: &SyntaxTree, f: int, cx: Facts<'_>, id: Text)
    requires
        cx.policy is None,
        cx.cross is None,
    ensures
        flows_of(function_flows(t, f, cx), id) == function_flows(
            t,
            f,
            with_groups(cx, only(cx.groups, 0, id)),
        ),
{
    let g = only(cx.groups, 0, id);
    if t.field(f, "parameters"@) is Some {
        let p = t.field(f, "parameters"@)->0;
        lemma_same_params_seeded(t, p + 1, t.after(p), cx, g, Map::empty());
    }
    assert(entry_state(t, f, with_groups(cx, g)) == entry_state(t, f, cx));
    match t.field(f, "body"@) {
        Some(b) => lemma_pick_scope(t, b, t.after(b), cx, id, entry_state(t, f, cx)),
        None => {},
    }
}

proof fn lemma_pick_from(t: &SyntaxTree, c: int, e: int, cx: Facts<'_>, id: Text)
    requires
        cx.policy is None,
        cx.cross is None,
    ensures
        flows_of(flows_from(t, c, e, cx), id) == flows_from(
            t,
            c,
            e,
            with_groups(cx, only(cx.groups, 0, id)),
        ),
    decreases gap(c, e),
{
    if c < e {
        lemma_pick_from(t, c + 1, e, cx, id);
        if crate::go_taint::is_function(t, c) {
            lemma_pick_function(t, c, cx, id);
            lemma_flows_of_add(function_flows(t, c, cx), flows_from(t, c + 1, e, cx), id);
        }
    }
}

proof fn lemma_pick_file(t: &SyntaxTree, root: int, cx: Facts<'_>, id: Text)
    requires
        cx.policy is None,
        cx.cross is None,
    ensures
        flows_of(file_flows(t, root, cx), id) == file_flows(
            t,
            root,
            with_groups(cx, only(cx.groups, 0, id)),
        ),
{
    let known = Facts { summaries: file_summaries(t, root, first_pass(cx)), ..cx };
    lemma_pick_from(t, root, t.after(root), known, id);
    assert(first_pass(with_groups(cx, only(cx.groups, 0, id))) == first_pass(cx));
}

// ─── Without sinks nothing is found ──────────────────────────────────────────
proof fn lemma_sinkless(t: &SyntaxTree, c: int, e: int, cx: Facts<'_>, st: Map<Text, Info>)
    requires
        cx.groups.len() == 0,
        cx.cross is None,
    ensures
        scope_flows(t, c, e, cx, st) == Seq::<Flow>::empty(),
    decreases gap(c, e),
{
    if c < e {
        lemma_sinkless(t, t.after(c), e, cx, st);
        lemma_sinkless(t, c + 1, e, cx, state_after(t, c, cx, st));
        assert(flows_at(t, c, cx, st) =~= Seq::<Flow>::empty());
        assert(Seq::<Flow>::empty() + Seq::<Flow>::empty() =~= Seq::<Flow>::empty());
    }
}

proof fn lemma_sinkless_from(t: &SyntaxTree, c: int, e: int, cx: Facts<'_>)
    requires
        cx.groups.len() == 0,
        cx.cross is None,
    ensures
        flows_from(t, c, e, cx) == Seq::<Flow>::empty(),
    decreases gap(c, e),
{
    if c < e {
        match t.field(c, "body"@) {
            Some(b) => lemma_sinkless(t, b, t.after(b), cx, entry_state(t, c, cx)),
            None => {},
        }
        lemma_sinkless_from(t, c + 1, e, cx);
        assert(Seq::<Flow>::empty() + Seq::<Flow>::empty() =~= Seq::<Flow>::empty());
    }
}

// ─── Several walks ───────────────────────────────────────────────────────────
/// The flows under a rule.
pub open spec fn flows_under(pairs: Seq<(Text, Flow)>, id: Text) -> Seq<Flow>
    decreases pairs.len(),
{
    if pairs.len() == 0 {
        Seq::empty()
    } else {
        let before = flows_under(pairs.drop_last(), id);
        if pairs.last().0 == id {
            before.push(unattributed(pairs.last().1))
        } else {
            before
        }
    }
}

proof fn lemma_flows_under_add(a: Seq<(Text, Flow)>, b: Seq<(Text, Flow)>, id: Text)
    ensures
        flows_under(a + b, id) == flows_under(a, id) + flows_under(b, id),
    decreases b.len(),
{
    if b.len() == 0 {
        assert(a + b =~= a);
        assert(flows_under(a, id) + flows_under(b, id) =~= flows_under(a, id));
    } else {
        assert((a + b).drop_last() =~= a + b.drop_last());
        lemma_flows_under_add(a, b.drop_last(), id);
        assert(flows_under(a + b, id) =~= flows_under(a, id) + flows_under(b, id));
    }
}

proof fn lemma_under_one(h: Text, f: Flow, id: Text)
    ensures
        flows_under(seq![(h, f)], id) == (if h == id {
            seq![unattributed(f)]
        } else {
            Seq::empty()
        }),
{
    reveal_with_fuel(flows_under, 2);
    assert(seq![(h, f)].drop_last() =~= Seq::empty());
    assert(Seq::<Flow>::empty().push(unattributed(f)) =~= seq![unattributed(f)]);
}

proof fn lemma_attributed(flows: Seq<Flow>, from: int, id: Text)
    requires
        0 <= from <= flows.len(),
    ensures
        flows_under(attributed(flows, from), id) == flows_of(flows.skip(from), id),
    decreases flows.len() - from,
{
    let tail = flows.skip(from);
    if from < flows.len() {
        lemma_attributed(flows, from + 1, id);
        assert(tail =~= seq![flows[from]] + flows.skip(from + 1));
        lemma_flows_of_add(seq![flows[from]], flows.skip(from + 1), id);
        lemma_flows_of_one(flows[from], id);
        match flows[from].rule_id_hint {
            Some(h) => {
                lemma_flows_under_add(
                    seq![(h, flows[from])],
                    attributed(flows, from + 1),
                    id,
                );
                lemma_under_one(h, flows[from], id);
            },
            None => {
                assert(Seq::<Flow>::empty() + flows_of(flows.skip(from + 1), id) =~= flows_of(
                    flows.skip(from + 1),
                    id,
                ));
            },
        }
    } else {
        assert(tail =~= Seq::empty());
    }
}

proof fn lemma_only_shift(a: Groups, from: int, b: Groups, id: Text)
    requires
        0 <= from <= a.len(),
        a.skip(from) == b,
    ensures
        only(a, from, id) == only(b, 0, id),
    decreases a.len() - from,
{
    if from < a.len() {
        assert(a[from] == b[0]);
        assert(a.skip(from + 1) =~= b.skip(1));
        lemma_only_shift(a, from + 1, b.skip(1), id);
        lemma_only_shift(b, 1, b.skip(1), id);
    }
}

proof fn lemma_only_of_group(rules: Seq<(Text, TaintRule)>, lead: int, from: int, k: int)
    requires
        distinct_ids(rules),
        0 <= k < rules.len(),
        0 <= from <= rules.len(),
    ensures
        only(group_sinks(rules, lead, from), 0, rules[k].0) == (if from <= k && share_walk(
            rules[k].1,
            rules[lead].1,
        ) {
            seq![(None::<Text>, rules[k].1.sinks)]
        } else {
            Seq::empty()
        }),
    decreases rules.len() - from,
{
    if from < rules.len() {
        lemma_only_of_group(rules, lead, from + 1, k);
        let rest = group_sinks(rules, lead, from + 1);
        let here = group_sinks(rules, lead, from);
        if share_walk(rules[from].1, rules[lead].1) {
            assert(here.skip(1) =~= rest);
            assert(here[0] == (Some(rules[from].0), rules[from].1.sinks));
            lemma_only_shift(here, 1, rest, rules[k].0);
            if from == k {
                assert(seq![(None::<Text>, rules[k].1.sinks)] + Seq::<
                    (Option<Text>, Seq<Matcher>),
                >::empty() =~= seq![(None::<Text>, rules[k].1.sinks)]);
            }
        }
    }
}

proof fn lemma_walk(
    t: &SyntaxTree,
    root: int,
    source: Text,
    rules: Seq<(Text, TaintRule)>,
    lead: int,
    aliases: Option<Map<Text, Text>>,
    k: int,
)
    requires
        distinct_ids(rules),
        0 <= k < rules.len(),
        0 <= lead < rules.len(),
    ensures
        flows_of(file_flows(t, root, group_facts(source, rules, lead, aliases, None)), rules[k].0)
            == (if share_walk(rules[k].1, rules[lead].1) {
            file_flows(t, root, rule_facts(source, rules[k].1, aliases, None, None))
        } else {
            Seq::empty()
        }),
{
    let cx = group_facts(source, rules, lead, aliases, None);
    let g = only(cx.groups, 0, rules[k].0);
    lemma_pick_file(t, root, cx, rules[k].0);
    lemma_only_of_group(rules, lead, 0, k);
    if share_walk(rules[k].1, rules[lead].1) {
        assert(with_groups(cx, g) == rule_facts(source, rules[k].1, aliases, None, None));
    } else {
        let one = with_groups(cx, g);
        lemma_sinkless_from(
            t,
            root,
            t.after(root),
            Facts { summaries: file_summaries(t, root, first_pass(one)), ..one },
        );
    }
}

proof fn lemma_batched(
    t: &SyntaxTree,
    root: int,
    source: Text,
    rules: Seq<(Text, TaintRule)>,
    from: int,
    aliases: Option<Map<Text, Text>>,
    k: int,
)
    requires
        distinct_ids(rules),
        0 <= k < rules.len(),
        0 <= from <= rules.len(),
    ensures
        flows_under(batched_flows(t, root, source, rules, from, aliases, None), rules[k].0) == (if (
        exists|j: int|
            #![trigger rules[j]]
            from <= j < rules.len() && !is_covered(rules, j) && share_walk(
                rules[k].1,
                rules[j].1,
            )) {
            file_flows(t, root, rule_facts(source, rules[k].1, aliases, None, None))
        } else {
            Seq::empty()
        }),
    decreases rules.len() - from,
{
    let id = rules[k].0;
    let alone = file_flows(t, root, rule_facts(source, rules[k].1, aliases, None, None));
    if from < rules.len() {
        lemma_batched(t, root, source, rules, from + 1, aliases, k);
        let rest = batched_flows(t, root, source, rules, from + 1, aliases, None);
        if !is_covered(rules, from) {
            let flows = file_flows(t, root, group_facts(source, rules, from, aliases, None));
            lemma_walk(t, root, source, rules, from, aliases, k);
            lemma_attributed(flows, 0, id);
            assert(flows.skip(0) =~= flows);
            lemma_flows_under_add(attributed(flows, 0), rest, id);
            if share_walk(rules[k].1, rules[from].1) {
                assert forall|j: int|
                    #![trigger rules[j]]
                    from + 1 <= j < rules.len() && share_walk(rules[k].1, rules[j].1) implies
                    is_covered(rules, j) by {
                    assert(share_walk(rules[from].1, rules[j].1));
                }
                assert(alone + Seq::<Flow>::empty() =~= alone);
            } else {
                assert(Seq::<Flow>::empty() + flows_under(rest, id) =~= flows_under(rest, id));
            }
        }
    }
}

/// Where several rules are run together on a file, each under an id of its own, and nothing
/// is known of other files, the flows under each rule are those that the rule alone finds,
/// in the same order.
pub proof fn batched_flows_are_each_rules_flows(
    t: &SyntaxTree,
    root: int,
    source: Text,
    rules: Seq<(Text, TaintRule)>,
    aliases: Option<Map<Text, Text>>,
    k: int,
)
    requires
        distinct_ids(rules),
        0 <= k < rules.len(),
    ensures
        flows_under(batched_flows(t, root, source, rules, 0, aliases, None), rules[k].0)
            == file_flows(t, root, rule_facts(source, rules[k].1, aliases, None, None)),
{
    lemma_batched(t, root, source, rules, 0, aliases, k);
    lemma_has_leader(rules, k, k);
}

proof fn lemma_has_leader(rules: Seq<(Text, TaintRule)>, k: int, j: int)
    requires
        0 <= j <= k < rules.len(),
        share_walk(rules[k].1, rules[j].1),
    ensures
        exists|i: int|
            #![trigger rules[i]]
            0 <= i < rules.len() && !is_covered(rules, i) && share_walk(rules[k].1, rules[i].1),
    decreases j,
{
    if is_covered(rules, j) {
        let i = choose|i: int|
            #![trigger rules[i]]
            0 <= i < j && share_walk(rules[i].1, rules[j].1);
        lemma_has_leader(rules, k, i);
    } else {
        assert(share_walk(rules[k].1, rules[j].1));
    }
}

// ─── Reports ─────────────────────────────────────────────────────────────────
/// The reports of a rule.
pub open spec fn reports_by(reports: Seq<Report>, id: Text) -> Seq<Report>
    decreases reports.len(),
{
    if reports.len() == 0 {
        Seq::empty()
    } else {
        let before = reports_by(reports.drop_last(), id);
        if reports.last().rule_id == id {
            before.push(reports.last())
        } else {
            before
        }
    }
}

proof fn lemma_reports_by_add(a: Seq<Report>, b: Seq<Report>, id: Text)
    ensures
        reports_by(a + b, id) == reports_by(a, id) + reports_by(b, id),
    decreases b.len(),
{
    if b.len() == 0 {
        assert(a + b =~= a);
        assert(reports_by(a, id) + reports_by(b, id) =~= reports_by(a, id));
    } else {
        assert((a + b).drop_last() =~= a + b.drop_last());
        lemma_reports_by_add(a, b.drop_last(), id);
        assert(reports_by(a + b, id) =~= reports_by(a, id) + reports_by(b, id));
    }
}

proof fn lemma_meta_named(table: Seq<MetaFacts>, from: int, id: Text)
    ensures
        meta_named(table, from, id) matches Some(m) ==> m.rule_id == id,
    decreases table.len() - from,
{
    if 0 <= from < table.len() && table[from].rule_id != id {
        lemma_meta_named(table, from + 1, id);
    }
}

/// The reports of flows, in order.
pub open spec fn all_reports(m: MetaFacts, src: Text, flows: Seq<Flow>) -> Seq<Report> {
    Seq::new(flows.len(), |k: int| go_report(m, src, flows[k]))
}

proof fn lemma_dispatched(pairs: Seq<(Text, Flow)>, from: int, src: Text, id: Text)
    requires
        0 <= from <= pairs.len(),
        meta_named(go_dispatch(), 0, id) is Some,
    ensures
        reports_by(dispatched(pairs, from, src), id) == all_reports(
            meta_named(go_dispatch(), 0, id)->0,
            src,
            flows_under(pairs.skip(from), id),
        ),
    decreases pairs.len() - from,
{
    let m = meta_named(go_dispatch(), 0, id)->0;
    let tail = pairs.skip(from);
    if from < pairs.len() {
        let (h, f) = pairs[from];
        let rest = pairs.skip(from + 1);
        lemma_dispatched(pairs, from + 1, src, id);
        assert(tail =~= seq![(h, f)] + rest);
        lemma_flows_under_add(seq![(h, f)], rest, id);
        lemma_under_one(h, f, id);
        lemma_meta_named(go_dispatch(), 0, h);
        let later = dispatched(pairs, from + 1, src);
        match meta_named(go_dispatch(), 0, h) {
            Some(n) => {
                let r = go_report(n, src, f);
                lemma_reports_by_add(seq![r], later, id);
                reveal_with_fuel(reports_by, 2);
                assert(seq![r].drop_last() =~= Seq::empty());
                assert(r.rule_id == h);
                if h == id {
                    assert(go_report(m, src, unattributed(f)) == r);
                    assert(reports_by(dispatched(pairs, from, src), id) =~= all_reports(
                        m,
                        src,
                        flows_under(tail, id),
                    ));
                } else {
                    assert(Seq::<Report>::empty() + reports_by(later, id) =~= reports_by(later, id));
                    assert(Seq::<Flow>::empty() + flows_under(rest, id) =~= flows_under(rest, id));
                }
            },
            None => {
                assert(h != id);
                assert(Seq::<Flow>::empty() + flows_under(rest, id) =~= flows_under(rest, id));
            },
        }
    } else {
        assert(tail =~= Seq::empty());
        assert(all_reports(m, src, flows_under(tail, id)) =~= Seq::empty());
    }
}

proof fn lemma_enabled(rules: Seq<(Text, TaintRule)>, from: int, enabled: Seq<Text>)
    requires
        distinct_ids(rules),
        0 <= from <= rules.len(),
    ensures
        distinct_ids(enabled_rules(rules, from, enabled)),
        forall|j: int|
            #![trigger enabled_rules(rules, from, enabled)[j]]
            0 <= j < enabled_rules(rules, from, enabled).len() ==> exists|k: int|
                #![trigger rules[k]]
                from <= k < rules.len() && rules[k] == enabled_rules(rules, from, enabled)[j],
        forall|k: int|
            #![trigger rules[k]]
            from <= k < rules.len() && enabled.contains(rules[k].0) ==> enabled_rules(
                rules,
                from,
                enabled,
            ).contains(rules[k]),
    decreases rules.len() - from,
{
    if from < rules.len() {
        lemma_enabled(rules, from + 1, enabled);
        let rest = enabled_rules(rules, from + 1, enabled);
        let all = enabled_rules(rules, from, enabled);
        if enabled.contains(rules[from].0) {
            assert(all =~= seq![rules[from]] + rest);
            assert forall|j: int| #![trigger all[j]] 0 <= j < all.len() implies exists|k: int|
                #![trigger rules[k]]
                from <= k < rules.len() && rules[k] == all[j] by {
                if j == 0 {
                    assert(rules[from] == all[0]);
                } else {
                    assert(all[j] == rest[j - 1]);
                }
            }
            assert forall|i: int, j: int|
                #![trigger all[i], all[j]]
                0 <= i < all.len() && 0 <= j < all.len() && all[i].0 == all[j].0 implies i == j by {
                if i > 0 {
                    assert(all[i] == rest[i - 1]);
                }
                if j > 0 {
                    assert(all[j] == rest[j - 1]);
                }
            }
            assert forall|k: int|
                #![trigger rules[k]]
                from <= k < rules.len() && enabled.contains(rules[k].0) implies all.contains(
                rules[k],
            ) by {
                if k == from {
                    assert(all[0] == rules[k]);
                } else {
                    let j = choose|j: int| 0 <= j < rest.len() && rest[j] == rules[k];
                    assert(all[j + 1] == rules[k]);
                }
            }
        }
    }
}

/// Running the taint rules together reports what each enabled rule reports alone, in the
/// same order, where nothing is known of the other files of the package.
pub proof fn batched_reports_are_each_rules_reports(
    enabled: Seq<Text>,
    t: &SyntaxTree,
    src: Text,
    ctx: &FileContext<'_>,
    k: int,
)
    requires
        0 <= k < go_rules().len(),
        enabled.contains(go_rules()[k].0),
        package_of(ctx) is None,
    ensures
        reports_by(go_batched_reports(enabled, t, src, ctx), go_rules()[k].0) == go_rule_reports(
            go_dispatch()[k],
            go_rules()[k].1,
            t,
            src,
            ctx,
        ),
{
    go_taint_rules_are_found();
    let id = go_rules()[k].0;
    let rules = enabled_rules(go_rules(), 0, enabled);
    let aliases = Some(aliases_of(ctx, t, src));
    lemma_enabled(go_rules(), 0, enabled);
    let j = choose|j: int| 0 <= j < rules.len() && rules[j] == go_rules()[k];
    batched_flows_are_each_rules_flows(t, 0, src, rules, aliases, j);
    let pairs = batched_flows(t, 0, src, rules, 0, aliases, None);
    lemma_dispatched(pairs, 0, src, id);
    assert(pairs.skip(0) =~= pairs);
    assert(package_for(ctx, go_dispatch()[k].rule_id) is None);
    assert(go_rule_reports(go_dispatch()[k], go_rules()[k].1, t, src, ctx) =~= all_reports(
        go_dispatch()[k],
        src,
        flows_under(pairs, id),
    ));
}

} // verus!
