//! How taint stays in a scope and comes out of it, in the languages that are read scope by
//! scope.
use crate::cross_file::SinkFlow;
use crate::scope::{
    all_param_flows, assigned_in, call_flows, cross_flows, file_cross_flows, file_flows, given,
    gives_back, param_flows, parameter_rule, passed, propagates, reaches_return, read_all,
    receivers_tainted, resolved_call, returned_params, scope_cross_flows, scope_flows, settled,
    tainted_receiver, CrossFileLanguage, Given, ScopeLanguage, Siblings,
};
use crate::taint_engine::{Flow, Info, TaintRule};
use crate::text::Text;
use crate::tree::{gap, SyntaxTree};
use vstd::prelude::*;

verus! {

broadcast use crate::tree::group_tree;

/// Whether all variables of `names` are tainted in the state `st`.
pub open spec fn all_tainted(names: Set<Text>, st: Map<Text, Info>) -> bool {
    forall|x: Text| #![trigger st.contains_key(x)] names.contains(x) ==> st.contains_key(x)
}

/// Whether node `n` is read with the body at node `b`, not within a scope of its own.
pub open spec fn is_read_with<L: ScopeLanguage>(t: &SyntaxTree, b: int, n: int) -> bool {
    &&& b < n < t.after(b)
    &&& forall|m: int| #![trigger L::is_scope(t, m)] b < m <= n && L::is_scope(t, m) ==> t.after(m)
        <= n
}

/// Whether no node of the body at node `b` cleans one of the variables of `names`, as long
/// as all of them are tainted.
pub open spec fn is_kept<L: ScopeLanguage>(
    t: &SyntaxTree,
    b: int,
    cx: Given<'_>,
    names: Set<Text>,
) -> bool {
    &&& forall|m: int, st: Map<Text, Info>|
        #![trigger L::state_after(t, m, cx, st)]
        b < m < t.after(b) && all_tainted(names, st) ==> all_tainted(
            names,
            L::state_after(t, m, cx, st),
        )
    &&& forall|st: Map<Text, Info>|
        #![trigger L::reseeded(t, b, cx, st)]
        all_tainted(names, st) ==> all_tainted(names, L::reseeded(t, b, cx, st))
}

proof fn lemma_read_keeps<L: ScopeLanguage>(
    t: &SyntaxTree,
    b: int,
    c: int,
    cx: Given<'_>,
    st: Map<Text, Info>,
    names: Set<Text>,
)
    requires
        b < c,
        is_kept::<L>(t, b, cx, names),
        all_tainted(names, st),
    ensures
        all_tainted(names, read_all::<L>(t, c, t.after(b), cx, st)),
    decreases gap(c, t.after(b)),
{
    if c < t.after(b) {
        if L::is_scope(t, c) {
            lemma_read_keeps::<L>(t, b, t.after(c), cx, st, names);
        } else {
            lemma_read_keeps::<L>(t, b, c + 1, cx, L::state_after(t, c, cx, st), names);
        }
    }
}

proof fn lemma_receivers_keep<L: ScopeLanguage>(
    t: &SyntaxTree,
    c: int,
    e: int,
    propagators: Seq<Option<Text>>,
    cx: Given<'_>,
    st: Map<Text, Info>,
    acc: Map<Text, Info>,
    x: Text,
)
    requires
        acc.contains_key(x),
    ensures
        receivers_tainted::<L>(t, c, e, propagators, cx, st, acc).contains_key(x),
    decreases gap(c, e),
{
    if c < e {
        if L::is_scope(t, c) {
            lemma_receivers_keep::<L>(t, t.after(c), e, propagators, cx, st, acc, x);
        } else {
            let next = match tainted_receiver::<L>(t, c, propagators, cx, st) {
                Some(y) => acc.insert(y.0, y.1),
                None => acc,
            };
            lemma_receivers_keep::<L>(t, c + 1, e, propagators, cx, st, next, x);
        }
    }
}

proof fn lemma_pass_keeps<L: ScopeLanguage>(
    t: &SyntaxTree,
    b: int,
    propagators: Seq<Option<Text>>,
    cx: Given<'_>,
    st: Map<Text, Info>,
    names: Set<Text>,
)
    requires
        is_kept::<L>(t, b, cx, names),
        all_tainted(names, st),
    ensures
        all_tainted(names, passed::<L>(t, b, propagators, cx, st)),
{
    lemma_read_keeps::<L>(t, b, b + 1, cx, st, names);
    let read = L::reseeded(t, b, cx, read_all::<L>(t, b + 1, t.after(b), cx, st));
    let out = passed::<L>(t, b, propagators, cx, st);
    assert forall|x: Text| #![trigger out.contains_key(x)] names.contains(x) implies out.contains_key(
        x,
    ) by {
        assert(read.contains_key(x));
        lemma_receivers_keep::<L>(t, b + 1, t.after(b), propagators, cx, read, read, x);
    }
}

/// Variables that are tainted when a scope is entered, and that nothing in it cleans, are
/// tainted in it.
pub proof fn kept_variables_stay_tainted<L: ScopeLanguage>(
    t: &SyntaxTree,
    f: int,
    propagators: Seq<Option<Text>>,
    cx: Given<'_>,
    names: Set<Text>,
)
    requires
        all_tainted(names, L::entry_state(t, f, cx)),
        is_kept::<L>(t, L::body(t, f), cx, names),
    ensures
        all_tainted(names, settled::<L>(t, f, propagators, cx)),
        all_tainted(names, assigned_in::<L>(t, f, cx)),
{
    let b = L::body(t, f);
    let e = t.after(b);
    let entry = L::entry_state(t, f, cx);
    let first = passed::<L>(t, b, propagators, cx, entry);
    let second = passed::<L>(t, b, propagators, cx, first);
    lemma_pass_keeps::<L>(t, b, propagators, cx, entry, names);
    lemma_pass_keeps::<L>(t, b, propagators, cx, first, names);
    lemma_pass_keeps::<L>(t, b, propagators, cx, second, names);
    let one = read_all::<L>(t, b + 1, e, cx, entry);
    let two = read_all::<L>(t, b + 1, e, cx, one);
    lemma_read_keeps::<L>(t, b, b + 1, cx, entry, names);
    lemma_read_keeps::<L>(t, b, b + 1, cx, one, names);
    lemma_read_keeps::<L>(t, b, b + 1, cx, two, names);
}

proof fn lemma_read_taints<L: ScopeLanguage>(
    t: &SyntaxTree,
    b: int,
    c: int,
    n: int,
    cx: Given<'_>,
    st: Map<Text, Info>,
    names: Set<Text>,
    x: Text,
)
    requires
        b < c <= n,
        is_read_with::<L>(t, b, n),
        is_kept::<L>(t, b, cx, names),
        is_kept::<L>(t, b, cx, names.insert(x)),
        all_tainted(names, st),
        forall|s: Map<Text, Info>|
            #![trigger L::state_after(t, n, cx, s)]
            all_tainted(names, s) ==> L::state_after(t, n, cx, s).contains_key(x),
    ensures
        all_tainted(names.insert(x), read_all::<L>(t, c, t.after(b), cx, st)),
    decreases gap(c, t.after(b)),
{
    if L::is_scope(t, c) {
        lemma_read_taints::<L>(t, b, t.after(c), n, cx, st, names, x);
    } else {
        let next = L::state_after(t, c, cx, st);
        if c == n {
            assert(all_tainted(names.insert(x), next));
            lemma_read_keeps::<L>(t, b, c + 1, cx, next, names.insert(x));
        } else {
            lemma_read_taints::<L>(t, b, c + 1, n, cx, next, names, x);
        }
    }
}

/// A variable that one node of a scope taints, where the variables of `names` are tainted,
/// and that no node cleans again is tainted in the scope.
pub proof fn a_variable_that_is_set_stays_tainted<L: ScopeLanguage>(
    t: &SyntaxTree,
    f: int,
    n: int,
    propagators: Seq<Option<Text>>,
    cx: Given<'_>,
    names: Set<Text>,
    x: Text,
)
    requires
        all_tainted(names, L::entry_state(t, f, cx)),
        is_read_with::<L>(t, L::body(t, f), n),
        is_kept::<L>(t, L::body(t, f), cx, names),
        is_kept::<L>(t, L::body(t, f), cx, names.insert(x)),
        forall|s: Map<Text, Info>|
            #![trigger L::state_after(t, n, cx, s)]
            all_tainted(names, s) ==> L::state_after(t, n, cx, s).contains_key(x),
    ensures
        settled::<L>(t, f, propagators, cx).contains_key(x),
        assigned_in::<L>(t, f, cx).contains_key(x),
        all_tainted(names.insert(x), settled::<L>(t, f, propagators, cx)),
{
    let b = L::body(t, f);
    let e = t.after(b);
    let more = names.insert(x);
    let entry = L::entry_state(t, f, cx);
    let one = read_all::<L>(t, b + 1, e, cx, entry);
    let two = read_all::<L>(t, b + 1, e, cx, one);
    lemma_read_taints::<L>(t, b, b + 1, n, cx, entry, names, x);
    lemma_read_keeps::<L>(t, b, b + 1, cx, one, more);
    lemma_read_keeps::<L>(t, b, b + 1, cx, two, more);
    let read = L::reseeded(t, b, cx, one);
    let first = passed::<L>(t, b, propagators, cx, entry);
    let second = passed::<L>(t, b, propagators, cx, first);
    assert forall|y: Text| #![trigger first.contains_key(y)] more.contains(y) implies first.contains_key(
        y,
    ) by {
        assert(read.contains_key(y));
        lemma_receivers_keep::<L>(t, b + 1, e, propagators, cx, read, read, y);
    }
    lemma_pass_keeps::<L>(t, b, propagators, cx, first, more);
    lemma_pass_keeps::<L>(t, b, propagators, cx, second, more);
    assert(more.contains(x));
}

proof fn lemma_receiver_tainted<L: ScopeLanguage>(
    t: &SyntaxTree,
    b: int,
    c: int,
    n: int,
    propagators: Seq<Option<Text>>,
    cx: Given<'_>,
    st: Map<Text, Info>,
    acc: Map<Text, Info>,
)
    requires
        b < c <= n,
        is_read_with::<L>(t, b, n),
        tainted_receiver::<L>(t, n, propagators, cx, st) is Some,
    ensures
        receivers_tainted::<L>(t, c, t.after(b), propagators, cx, st, acc).contains_key(
            (tainted_receiver::<L>(t, n, propagators, cx, st)->0).0,
        ),
    decreases gap(c, t.after(b)),
{
    if L::is_scope(t, c) {
        lemma_receiver_tainted::<L>(t, b, t.after(c), n, propagators, cx, st, acc);
    } else {
        let next = match tainted_receiver::<L>(t, c, propagators, cx, st) {
            Some(y) => acc.insert(y.0, y.1),
            None => acc,
        };
        if c == n {
            let x = (tainted_receiver::<L>(t, n, propagators, cx, st)->0).0;
            lemma_receivers_keep::<L>(t, c + 1, t.after(b), propagators, cx, st, next, x);
        } else {
            lemma_receiver_tainted::<L>(t, b, c + 1, n, propagators, cx, st, next);
        }
    }
}

/// A call of a method that passes taint on, or of any where one propagator is for all,
/// taints the variable that it is called on, where its arguments are tainted.
pub proof fn a_propagating_call_taints_its_receiver<L: ScopeLanguage>(
    t: &SyntaxTree,
    b: int,
    n: int,
    propagators: Seq<Option<Text>>,
    k: int,
    x: Text,
    method: Text,
    cx: Given<'_>,
    st: Map<Text, Info>,
)
    requires
        is_read_with::<L>(t, b, n),
        L::receiver_call(t, n, cx.src) == Some((x, method)),
        0 <= k < propagators.len(),
        propagators[k] is None || propagators[k] == Some(method),
        L::passed_on(t, n, cx, st) is Some,
    ensures
        receivers_tainted::<L>(t, b + 1, t.after(b), propagators, cx, st, st).contains_key(x),
{
    assert(propagates(propagators, method));
    if st.contains_key(x) {
        lemma_receivers_keep::<L>(t, b + 1, t.after(b), propagators, cx, st, st, x);
    } else {
        lemma_receiver_tainted::<L>(t, b, b + 1, n, propagators, cx, st, st);
    }
}

// ─── Flows of a file ─────────────────────────────────────────────────────────
proof fn lemma_in_sum(a: Seq<Flow>, b: Seq<Flow>, f: Flow)
    ensures
        (a + b).contains(f) <==> a.contains(f) || b.contains(f),
{
    let all = a + b;
    if a.contains(f) {
        let k = choose|k: int| 0 <= k < a.len() && a[k] == f;
        assert(all[k] == f);
    }
    if b.contains(f) {
        let k = choose|k: int| 0 <= k < b.len() && b[k] == f;
        assert(all[a.len() + k] == f);
    }
    if all.contains(f) {
        let k = choose|k: int| 0 <= k < all.len() && all[k] == f;
        if k < a.len() {
            assert(a[k] == f);
        } else {
            assert(b[k - a.len()] == f);
        }
    }
}

/// The flows of a file are those of its scopes, of the nested ones too.
pub proof fn a_file_reports_the_flows_of_its_scopes<L: ScopeLanguage>(
    t: &SyntaxTree,
    c: int,
    e: int,
    propagators: Seq<Option<Text>>,
    cx: Given<'_>,
    flow: Flow,
)
    ensures
        file_flows::<L>(t, c, e, propagators, cx).contains(flow) <==> exists|f: int|
            #![trigger L::is_scope(t, f)]
            c <= f < e && L::is_scope(t, f) && scope_flows::<L>(t, f, propagators, cx).contains(
                flow,
            ),
    decreases gap(c, e),
{
    if c < e {
        a_file_reports_the_flows_of_its_scopes::<L>(t, c + 1, e, propagators, cx, flow);
        lemma_in_sum(
            scope_flows::<L>(t, c, propagators, cx),
            file_flows::<L>(t, c + 1, e, propagators, cx),
            flow,
        );
        assert(L::is_scope(t, c) || !L::is_scope(t, c));
    }
}

/// The flows of a file into other files are those of its scopes.
pub proof fn a_file_reports_the_cross_file_flows_of_its_scopes<L: CrossFileLanguage>(
    t: &SyntaxTree,
    c: int,
    e: int,
    others: Siblings,
    cx: Given<'_>,
    flow: Flow,
)
    ensures
        file_cross_flows::<L>(t, c, e, others, cx).contains(flow) <==> exists|f: int|
            #![trigger L::is_scope(t, f)]
            c <= f < e && L::is_scope(t, f) && scope_cross_flows::<L>(t, f, others, cx).contains(
                flow,
            ),
    decreases gap(c, e),
{
    if c < e {
        a_file_reports_the_cross_file_flows_of_its_scopes::<L>(t, c + 1, e, others, cx, flow);
        lemma_in_sum(
            scope_cross_flows::<L>(t, c, others, cx),
            file_cross_flows::<L>(t, c + 1, e, others, cx),
            flow,
        );
        assert(L::is_scope(t, c) || !L::is_scope(t, c));
    }
}

proof fn lemma_call_flow<L: ScopeLanguage>(
    t: &SyntaxTree,
    i: int,
    name: Text,
    args: Seq<int>,
    flows: Seq<SinkFlow>,
    from: int,
    k: int,
    allowed: Seq<Text>,
    cx: Given<'_>,
    st: Map<Text, Info>,
)
    requires
        0 <= from <= k < flows.len(),
        allowed.contains(flows[k].sink_rule_id),
        0 <= flows[k].param_index < args.len(),
        L::taint_of(t, args[flows[k].param_index], cx, st) is Some,
    ensures
        exists|f: Flow| #[trigger]
            call_flows::<L>(t, i, name, args, flows, from, allowed, cx, st).contains(f)
                && f.sink_line == t.line(i) && f.rule_id_hint == Some(flows[k].sink_rule_id)
                && f.source_description == (L::taint_of(
                t,
                args[flows[k].param_index],
                cx,
                st,
            )->0).description,
    decreases flows.len() - from,
{
    let all = call_flows::<L>(t, i, name, args, flows, from, allowed, cx, st);
    let rest = call_flows::<L>(t, i, name, args, flows, from + 1, allowed, cx, st);
    if from == k {
        assert(all.contains(all[0]));
    } else {
        lemma_call_flow::<L>(t, i, name, args, flows, from + 1, k, allowed, cx, st);
        let f = choose|f: Flow| #[trigger]
            rest.contains(f) && f.sink_line == t.line(i) && f.rule_id_hint == Some(
                flows[k].sink_rule_id,
            ) && f.source_description == (L::taint_of(
                t,
                args[flows[k].param_index],
                cx,
                st,
            )->0).description;
        if all.len() > rest.len() {
            lemma_in_sum(seq![all[0]], rest, f);
            assert(all =~= seq![all[0]] + rest);
        } else {
            assert(all == rest);
        }
    }
}

proof fn lemma_cross_flow<L: CrossFileLanguage>(
    t: &SyntaxTree,
    b: int,
    c: int,
    n: int,
    others: Siblings,
    cx: Given<'_>,
    st: Map<Text, Info>,
    flow: Flow,
)
    requires
        b < c <= n,
        is_read_with::<L>(t, b, n),
        resolved_call::<L>(t, n, cx.src, others) matches Some(x) && call_flows::<L>(
            t,
            n,
            x.0,
            x.2,
            x.1.params_to_sink,
            0,
            others.allowed,
            cx,
            st,
        ).contains(flow),
    ensures
        cross_flows::<L>(t, c, t.after(b), others, cx, st).contains(flow),
    decreases gap(c, t.after(b)),
{
    if L::is_scope(t, c) {
        lemma_cross_flow::<L>(t, b, t.after(c), n, others, cx, st, flow);
    } else {
        let rest = cross_flows::<L>(t, c + 1, t.after(b), others, cx, st);
        if c < n {
            lemma_cross_flow::<L>(t, b, c + 1, n, others, cx, st, flow);
        }
        match resolved_call::<L>(t, c, cx.src, others) {
            Some(x) => {
                lemma_in_sum(
                    call_flows::<L>(
                        t,
                        c,
                        x.0,
                        x.2,
                        x.1.params_to_sink,
                        0,
                        others.allowed,
                        cx,
                        st,
                    ),
                    rest,
                    flow,
                );
            },
            None => {},
        }
    }
}

/// A call of a method of another file is reported, for each rule whose sink the method
/// passes a parameter into, where the argument in that place is tainted and the rule may
/// report.
pub proof fn a_tainted_argument_of_a_sink_in_another_file_is_reported<L: CrossFileLanguage>(
    t: &SyntaxTree,
    f: int,
    n: int,
    name: Text,
    args: Seq<int>,
    k: int,
    others: Siblings,
    cx: Given<'_>,
)
    requires
        is_read_with::<L>(t, L::body(t, f), n),
        L::callee(t, n, cx.src) == Some(name),
        L::arguments(t, n) == Some(args),
        others.summary(name) matches Some(s) && 0 <= k < s.params_to_sink.len()
            && others.allowed.contains(s.params_to_sink[k].sink_rule_id) && 0
            <= s.params_to_sink[k].param_index < args.len() && L::taint_of(
            t,
            args[s.params_to_sink[k].param_index],
            cx,
            assigned_in::<L>(t, f, cx),
        ) is Some,
    ensures
        exists|flow: Flow| #[trigger]
            scope_cross_flows::<L>(t, f, others, cx).contains(flow) && flow.sink_line == t.line(n)
                && flow.rule_id_hint == Some(
                (others.summary(name)->0).params_to_sink[k].sink_rule_id,
            ),
{
    let b = L::body(t, f);
    let st = assigned_in::<L>(t, f, cx);
    let flows = (others.summary(name)->0).params_to_sink;
    lemma_call_flow::<L>(t, n, name, args, flows, 0, k, others.allowed, cx, st);
    let made = call_flows::<L>(t, n, name, args, flows, 0, others.allowed, cx, st);
    let flow = choose|flow: Flow| #[trigger]
        made.contains(flow) && flow.sink_line == t.line(n) && flow.rule_id_hint == Some(
            flows[k].sink_rule_id,
        ) && flow.source_description == (L::taint_of(
            t,
            args[flows[k].param_index],
            cx,
            st,
        )->0).description;
    lemma_cross_flow::<L>(t, b, b + 1, n, others, cx, st, flow);
    assert(scope_cross_flows::<L>(t, f, others, cx).contains(flow));
}

// ─── Summaries ───────────────────────────────────────────────────────────────
proof fn lemma_gives_back<L: ScopeLanguage>(
    t: &SyntaxTree,
    b: int,
    c: int,
    n: int,
    k: int,
    cx: Given<'_>,
    st: Map<Text, Info>,
)
    requires
        b < c <= n,
        is_read_with::<L>(t, b, n),
        t.kind(n) == "return_statement"@,
        t.first_named(n) == Some(k),
        L::taint_of(t, k, cx, st) is Some,
    ensures
        gives_back::<L>(t, c, t.after(b), cx, st),
    decreases gap(c, t.after(b)),
{
    if L::is_scope(t, c) {
        lemma_gives_back::<L>(t, b, t.after(c), n, k, cx, st);
    } else if c < n {
        lemma_gives_back::<L>(t, b, c + 1, n, k, cx, st);
    }
}

/// A parameter reaches what a method returns where some `return` of the method gives back an
/// expression that is tainted when the parameter is the only source.
pub proof fn a_returned_parameter_reaches_the_return<L: ScopeLanguage>(
    t: &SyntaxTree,
    f: int,
    n: int,
    k: int,
    name: Text,
    src: Text,
)
    requires
        is_read_with::<L>(t, L::body(t, f), n),
        t.kind(n) == "return_statement"@,
        t.first_named(n) == Some(k),
        ({
            let cx = given(src, parameter_rule(name, Seq::empty(), Seq::empty()));
            L::taint_of(t, k, cx, assigned_in::<L>(t, f, cx)) is Some
        }),
    ensures
        reaches_return::<L>(t, f, name, src),
{
    let cx = given(src, parameter_rule(name, Seq::empty(), Seq::empty()));
    let b = L::body(t, f);
    lemma_gives_back::<L>(t, b, b + 1, n, k, cx, assigned_in::<L>(t, f, cx));
}

/// The parameters that a summary says are returned are those that reach a `return`, by
/// their positions.
pub proof fn returned_parameters_are_listed<L: ScopeLanguage>(
    t: &SyntaxTree,
    f: int,
    names: Seq<Text>,
    from: int,
    src: Text,
    p: int,
)
    requires
        0 <= from,
    ensures
        returned_params::<L>(t, f, names, from, src).contains(p) <==> from <= p < names.len()
            && reaches_return::<L>(t, f, names[p], src),
    decreases names.len() - from,
{
    if from < names.len() {
        let rest = returned_params::<L>(t, f, names, from + 1, src);
        let all = returned_params::<L>(t, f, names, from, src);
        returned_parameters_are_listed::<L>(t, f, names, from + 1, src, p);
        if reaches_return::<L>(t, f, names[from], src) {
            if rest.contains(p) {
                let j = choose|j: int| 0 <= j < rest.len() && rest[j] == p;
                assert(all[j + 1] == p);
            }
            if all.contains(p) {
                let j = choose|j: int| 0 <= j < all.len() && all[j] == p;
                if j > 0 {
                    assert(rest[j - 1] == p);
                }
            }
            assert(all[0] == from);
        }
    }
}

proof fn lemma_param_flow<L: ScopeLanguage>(
    t: &SyntaxTree,
    f: int,
    p: int,
    name: Text,
    src: Text,
    rules: Seq<(Text, TaintRule)>,
    from: int,
    k: int,
)
    requires
        0 <= from <= k < rules.len(),
        scope_flows::<L>(
            t,
            f,
            Seq::empty(),
            given(src, parameter_rule(name, rules[k].1.sinks, rules[k].1.sanitizers)),
        ).len() > 0,
    ensures
        exists|j: int|
            #![trigger param_flows::<L>(t, f, p, name, src, rules, from)[j]]
            0 <= j < param_flows::<L>(t, f, p, name, src, rules, from).len() && param_flows::<L>(
                t,
                f,
                p,
                name,
                src,
                rules,
                from,
            )[j].param_index == p && param_flows::<L>(
                t,
                f,
                p,
                name,
                src,
                rules,
                from,
            )[j].sink_rule_id == rules[k].0,
    decreases rules.len() - from,
{
    let all = param_flows::<L>(t, f, p, name, src, rules, from);
    if from == k {
        assert(all[0].param_index == p && all[0].sink_rule_id == rules[k].0);
    } else {
        let rest = param_flows::<L>(t, f, p, name, src, rules, from + 1);
        lemma_param_flow::<L>(t, f, p, name, src, rules, from + 1, k);
        let j = choose|j: int|
            #![trigger rest[j]]
            0 <= j < rest.len() && rest[j].param_index == p && rest[j].sink_rule_id == rules[k].0;
        assert(all[j + (all.len() - rest.len())] == rest[j]);
    }
}

/// A summary names a parameter and a rule where the parameter, as the only source, flows
/// into a sink of the rule.
pub proof fn a_parameter_that_flows_into_a_sink_is_listed<L: ScopeLanguage>(
    t: &SyntaxTree,
    f: int,
    names: Seq<Text>,
    from: int,
    p: int,
    k: int,
    src: Text,
    rules: Seq<(Text, TaintRule)>,
)
    requires
        0 <= from <= p < names.len(),
        0 <= k < rules.len(),
        scope_flows::<L>(
            t,
            f,
            Seq::empty(),
            given(src, parameter_rule(names[p], rules[k].1.sinks, rules[k].1.sanitizers)),
        ).len() > 0,
    ensures
        exists|j: int|
            #![trigger all_param_flows::<L>(t, f, names, from, src, rules)[j]]
            0 <= j < all_param_flows::<L>(t, f, names, from, src, rules).len()
                && all_param_flows::<L>(t, f, names, from, src, rules)[j].param_index == p
                && all_param_flows::<L>(t, f, names, from, src, rules)[j].sink_rule_id
                == rules[k].0,
    decreases names.len() - from,
{
    let all = all_param_flows::<L>(t, f, names, from, src, rules);
    let here = param_flows::<L>(t, f, from, names[from], src, rules, 0);
    if from == p {
        lemma_param_flow::<L>(t, f, p, names[p], src, rules, 0, k);
        let j = choose|j: int|
            #![trigger here[j]]
            0 <= j < here.len() && here[j].param_index == p && here[j].sink_rule_id == rules[k].0;
        assert(all[j] == here[j]);
    } else {
        let rest = all_param_flows::<L>(t, f, names, from + 1, src, rules);
        a_parameter_that_flows_into_a_sink_is_listed::<L>(
            t,
            f,
            names,
            from + 1,
            p,
            k,
            src,
            rules,
        );
        let j = choose|j: int|
            #![trigger rest[j]]
            0 <= j < rest.len() && rest[j].param_index == p && rest[j].sink_rule_id == rules[k].0;
        assert(all[here.len() + j] == rest[j]);
    }
}

// ─── Taint that goes round ───────────────────────────────────────────────────
/// Whether node `n` of the body at node `b` taints the variable `x` wherever the variables of
/// `names` are tainted, and no node cleans those or `x`.
pub open spec fn is_tainted_by<L: ScopeLanguage>(
    t: &SyntaxTree,
    b: int,
    n: int,
    cx: Given<'_>,
    names: Set<Text>,
    x: Text,
) -> bool {
    &&& is_read_with::<L>(t, b, n)
    &&& is_kept::<L>(t, b, cx, names)
    &&& is_kept::<L>(t, b, cx, names.insert(x))
    &&& forall|s: Map<Text, Info>|
        #![trigger L::state_after(t, n, cx, s)]
        all_tainted(names, s) ==> L::state_after(t, n, cx, s).contains_key(x)
}

proof fn lemma_pass_taints<L: ScopeLanguage>(
    t: &SyntaxTree,
    b: int,
    n: int,
    propagators: Seq<Option<Text>>,
    cx: Given<'_>,
    st: Map<Text, Info>,
    names: Set<Text>,
    x: Text,
)
    requires
        is_tainted_by::<L>(t, b, n, cx, names, x),
        all_tainted(names, st),
    ensures
        all_tainted(names.insert(x), passed::<L>(t, b, propagators, cx, st)),
        all_tainted(names.insert(x), read_all::<L>(t, b + 1, t.after(b), cx, st)),
{
    let more = names.insert(x);
    let e = t.after(b);
    lemma_read_taints::<L>(t, b, b + 1, n, cx, st, names, x);
    let read = L::reseeded(t, b, cx, read_all::<L>(t, b + 1, e, cx, st));
    let out = passed::<L>(t, b, propagators, cx, st);
    assert forall|y: Text| #![trigger out.contains_key(y)] more.contains(y) implies out.contains_key(
        y,
    ) by {
        assert(read.contains_key(y));
        lemma_receivers_keep::<L>(t, b + 1, e, propagators, cx, read, read, y);
    }
}

/// Taint goes on over three assignments, in whatever order they stand in the scope: as in a
/// loop, a variable may be read before it is set.
pub proof fn taint_goes_on_in_any_order<L: ScopeLanguage>(
    t: &SyntaxTree,
    f: int,
    first: int,
    second: int,
    third: int,
    propagators: Seq<Option<Text>>,
    cx: Given<'_>,
    names: Set<Text>,
    x: Text,
    y: Text,
    z: Text,
)
    requires
        all_tainted(names, L::entry_state(t, f, cx)),
        is_tainted_by::<L>(t, L::body(t, f), first, cx, names, x),
        is_tainted_by::<L>(t, L::body(t, f), second, cx, names.insert(x), y),
        is_tainted_by::<L>(t, L::body(t, f), third, cx, names.insert(x).insert(y), z),
    ensures
        settled::<L>(t, f, propagators, cx).contains_key(z),
        assigned_in::<L>(t, f, cx).contains_key(z),
{
    let b = L::body(t, f);
    let e = t.after(b);
    let entry = L::entry_state(t, f, cx);
    let all = names.insert(x).insert(y).insert(z);
    let p1 = passed::<L>(t, b, propagators, cx, entry);
    let p2 = passed::<L>(t, b, propagators, cx, p1);
    lemma_pass_taints::<L>(t, b, first, propagators, cx, entry, names, x);
    lemma_pass_taints::<L>(t, b, second, propagators, cx, p1, names.insert(x), y);
    lemma_pass_taints::<L>(t, b, third, propagators, cx, p2, names.insert(x).insert(y), z);
    let r1 = read_all::<L>(t, b + 1, e, cx, entry);
    let r2 = read_all::<L>(t, b + 1, e, cx, r1);
    lemma_pass_taints::<L>(t, b, second, propagators, cx, r1, names.insert(x), y);
    lemma_pass_taints::<L>(t, b, third, propagators, cx, r2, names.insert(x).insert(y), z);
    assert(all.contains(z));
}

} // verus!
