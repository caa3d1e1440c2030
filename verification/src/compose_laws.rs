//! What holds of summaries that are followed into other files.
use crate::cross_file::{has_flow, SinkFlow};
use crate::scope::{
    all_sanitizers, assigned_in, call_composed, calls_composed, composed_summary, entering, given,
    parameter_rule, params_composed, resolved_call, CrossFileLanguage, Given, ScopeLanguage,
    Siblings,
};
use crate::scope_flow_laws::is_read_with;
use crate::taint_engine::{Info, Matcher, TaintRule};
use crate::text::Text;
use crate::tree::{gap, SyntaxTree};
use vstd::prelude::*;

verus! {

broadcast use crate::tree::group_tree;

/// No two flows are of one parameter into one rule.
pub open spec fn distinct_flows(flows: Seq<SinkFlow>) -> bool {
    forall|j: int, k: int|
        #![trigger flows[j], flows[k]]
        0 <= j < k < flows.len() ==> !(flows[j].param_index == flows[k].param_index
            && flows[j].sink_rule_id == flows[k].sink_rule_id)
}

/// Every flow is of one of the first `params` parameters into a rule that may report.
pub open spec fn permitted_flows(flows: Seq<SinkFlow>, params: int, allowed: Seq<Text>) -> bool {
    forall|k: int|
        #![trigger flows[k]]
        0 <= k < flows.len() ==> 0 <= flows[k].param_index < params && allowed.contains(
            flows[k].sink_rule_id,
        )
}

/// Every flow of `a` has one of the same parameter into the same rule in `b`.
pub open spec fn covered_by(a: Seq<SinkFlow>, b: Seq<SinkFlow>) -> bool {
    forall|p: int, rule: Text| #[trigger] has_flow(a, p, rule) ==> has_flow(b, p, rule)
}

/// `b` knows of every method that `a` knows of, and of every flow of it.
pub open spec fn knows_more(a: Siblings, b: Siblings) -> bool {
    &&& a.allowed == b.allowed
    &&& forall|name: Text| #[trigger]
        a.summary(name) is Some ==> b.summary(name) is Some && covered_by(
            a.summary(name)->0.params_to_sink,
            b.summary(name)->0.params_to_sink,
        )
}

proof fn lemma_push_has_flow(acc: Seq<SinkFlow>, flow: SinkFlow, p: int, rule: Text)
    ensures
        has_flow(acc.push(flow), p, rule) <==> has_flow(acc, p, rule) || (flow.param_index == p
            && flow.sink_rule_id == rule),
{
    let next = acc.push(flow);
    if has_flow(acc, p, rule) {
        let k = choose|k: int|
            #![trigger acc[k]]
            0 <= k < acc.len() && acc[k].param_index == p && acc[k].sink_rule_id == rule;
        assert(next[k] == acc[k]);
    }
    if flow.param_index == p && flow.sink_rule_id == rule {
        assert(next[acc.len() as int] == flow);
    }
    if has_flow(next, p, rule) {
        let k = choose|k: int|
            #![trigger next[k]]
            0 <= k < next.len() && next[k].param_index == p && next[k].sink_rule_id == rule;
        if k < acc.len() {
            assert(next[k] == acc[k]);
        }
    }
}

/// Whether one of the flows from `from` on, into the rule `rule`, is entered by the arguments.
spec fn enters<L: ScopeLanguage>(
    t: &SyntaxTree,
    args: Seq<int>,
    flows: Seq<SinkFlow>,
    from: int,
    allowed: Seq<Text>,
    cx: Given<'_>,
    st: Map<Text, Info>,
    rule: Text,
) -> bool {
    exists|k: int|
        #![trigger flows[k]]
        from <= k < flows.len() && flows[k].sink_rule_id == rule && entering::<L>(
            t,
            args,
            flows[k],
            allowed,
            cx,
            st,
        ) is Some
}

proof fn lemma_call_composed<L: ScopeLanguage>(
    t: &SyntaxTree,
    p: int,
    args: Seq<int>,
    flows: Seq<SinkFlow>,
    from: int,
    allowed: Seq<Text>,
    cx: Given<'_>,
    st: Map<Text, Info>,
    acc: Seq<SinkFlow>,
    q: int,
    rule: Text,
)
    requires
        0 <= from,
    ensures
        has_flow(
            call_composed::<L>(t, p, args, flows, from, allowed, cx, st, acc),
            q,
            rule,
        ) <==> has_flow(acc, q, rule) || (q == p && enters::<L>(
            t,
            args,
            flows,
            from,
            allowed,
            cx,
            st,
            rule,
        )),
    decreases flows.len() - from,
{
    if from < flows.len() {
        let flow = flows[from];
        let pushed = SinkFlow {
            param_index: p,
            sink_rule_id: flow.sink_rule_id,
            sink_description: flow.sink_description,
        };
        let entered = entering::<L>(t, args, flow, allowed, cx, st) is Some;
        let next = if entered && !has_flow(acc, p, flow.sink_rule_id) {
            acc.push(pushed)
        } else {
            acc
        };
        lemma_push_has_flow(acc, pushed, q, rule);
        lemma_call_composed::<L>(t, p, args, flows, from + 1, allowed, cx, st, next, q, rule);
        if enters::<L>(t, args, flows, from, allowed, cx, st, rule) {
            let k = choose|k: int|
                #![trigger flows[k]]
                from <= k < flows.len() && flows[k].sink_rule_id == rule && entering::<L>(
                    t,
                    args,
                    flows[k],
                    allowed,
                    cx,
                    st,
                ) is Some;
            assert(k == from || enters::<L>(t, args, flows, from + 1, allowed, cx, st, rule));
        }
    }
}

proof fn lemma_call_keeps<L: ScopeLanguage>(
    t: &SyntaxTree,
    p: int,
    args: Seq<int>,
    flows: Seq<SinkFlow>,
    from: int,
    allowed: Seq<Text>,
    cx: Given<'_>,
    st: Map<Text, Info>,
    acc: Seq<SinkFlow>,
    params: int,
)
    requires
        distinct_flows(acc),
        permitted_flows(acc, params, allowed),
        0 <= p < params,
    ensures
        distinct_flows(call_composed::<L>(t, p, args, flows, from, allowed, cx, st, acc)),
        permitted_flows(
            call_composed::<L>(t, p, args, flows, from, allowed, cx, st, acc),
            params,
            allowed,
        ),
    decreases flows.len() - from,
{
    if 0 <= from < flows.len() {
        let flow = flows[from];
        let pushed = SinkFlow {
            param_index: p,
            sink_rule_id: flow.sink_rule_id,
            sink_description: flow.sink_description,
        };
        let next = if entering::<L>(t, args, flow, allowed, cx, st) is Some && !has_flow(
            acc,
            p,
            flow.sink_rule_id,
        ) {
            acc.push(pushed)
        } else {
            acc
        };
        lemma_call_keeps::<L>(t, p, args, flows, from + 1, allowed, cx, st, next, params);
    }
}

proof fn lemma_calls_keep<L: CrossFileLanguage>(
    t: &SyntaxTree,
    c: int,
    e: int,
    p: int,
    others: Siblings,
    cx: Given<'_>,
    st: Map<Text, Info>,
    acc: Seq<SinkFlow>,
    params: int,
)
    requires
        distinct_flows(acc),
        permitted_flows(acc, params, others.allowed),
        0 <= p < params,
    ensures
        distinct_flows(calls_composed::<L>(t, c, e, p, others, cx, st, acc)),
        permitted_flows(
            calls_composed::<L>(t, c, e, p, others, cx, st, acc),
            params,
            others.allowed,
        ),
    decreases gap(c, e),
{
    if c < e {
        if L::is_scope(t, c) {
            lemma_calls_keep::<L>(t, t.after(c), e, p, others, cx, st, acc, params);
        } else {
            match resolved_call::<L>(t, c, cx.src, others) {
                Some(x) => {
                    let flows = x.1.params_to_sink;
                    let allowed = others.allowed;
                    lemma_call_keeps::<L>(t, p, x.2, flows, 0, allowed, cx, st, acc, params);
                    let next = call_composed::<L>(t, p, x.2, flows, 0, allowed, cx, st, acc);
                    lemma_calls_keep::<L>(t, c + 1, e, p, others, cx, st, next, params);
                },
                None => {
                    lemma_calls_keep::<L>(t, c + 1, e, p, others, cx, st, acc, params);
                },
            }
        }
    }
}

proof fn lemma_params_keep<L: CrossFileLanguage>(
    t: &SyntaxTree,
    f: int,
    names: Seq<Text>,
    from: int,
    src: Text,
    sanitizers: Seq<Matcher>,
    others: Siblings,
    acc: Seq<SinkFlow>,
)
    requires
        distinct_flows(acc),
        permitted_flows(acc, names.len() as int, others.allowed),
        0 <= from,
    ensures
        distinct_flows(params_composed::<L>(t, f, names, from, src, sanitizers, others, acc)),
        permitted_flows(
            params_composed::<L>(t, f, names, from, src, sanitizers, others, acc),
            names.len() as int,
            others.allowed,
        ),
    decreases names.len() - from,
{
    if from < names.len() {
        let b = L::body(t, f);
        let cx = given(src, parameter_rule(names[from], Seq::empty(), sanitizers));
        let st = assigned_in::<L>(t, f, cx);
        let params = names.len() as int;
        lemma_calls_keep::<L>(t, b + 1, t.after(b), from, others, cx, st, acc, params);
        let next = calls_composed::<L>(t, b + 1, t.after(b), from, others, cx, st, acc);
        lemma_params_keep::<L>(t, f, names, from + 1, src, sanitizers, others, next);
    }
}

/// A composed summary names a parameter and a rule together at most once, only rules that may
/// report, and only parameters that the method has.
pub proof fn composed_flows_are_distinct_and_permitted<L: CrossFileLanguage>(
    t: &SyntaxTree,
    f: int,
    name: Text,
    src: Text,
    rules: Seq<(Text, TaintRule)>,
    others: Siblings,
)
    ensures
        distinct_flows(composed_summary::<L>(t, f, name, src, rules, others).params_to_sink),
        permitted_flows(
            composed_summary::<L>(t, f, name, src, rules, others).params_to_sink,
            L::params(t, f, src).len() as int,
            others.allowed,
        ),
{
    lemma_params_keep::<L>(
        t,
        f,
        L::params(t, f, src),
        0,
        src,
        all_sanitizers(rules, 0),
        others,
        Seq::empty(),
    );
}

proof fn lemma_call_grows<L: ScopeLanguage>(
    t: &SyntaxTree,
    p: int,
    args: Seq<int>,
    less: Seq<SinkFlow>,
    more: Seq<SinkFlow>,
    allowed: Seq<Text>,
    cx: Given<'_>,
    st: Map<Text, Info>,
    a: Seq<SinkFlow>,
    b: Seq<SinkFlow>,
)
    requires
        covered_by(less, more),
        covered_by(a, b),
    ensures
        covered_by(
            call_composed::<L>(t, p, args, less, 0, allowed, cx, st, a),
            call_composed::<L>(t, p, args, more, 0, allowed, cx, st, b),
        ),
{
    let x = call_composed::<L>(t, p, args, less, 0, allowed, cx, st, a);
    let y = call_composed::<L>(t, p, args, more, 0, allowed, cx, st, b);
    assert forall|q: int, rule: Text| #[trigger] has_flow(x, q, rule) implies has_flow(
        y,
        q,
        rule,
    ) by {
        lemma_call_composed::<L>(t, p, args, less, 0, allowed, cx, st, a, q, rule);
        lemma_call_composed::<L>(t, p, args, more, 0, allowed, cx, st, b, q, rule);
        if !has_flow(a, q, rule) {
            let k = choose|k: int|
                #![trigger less[k]]
                0 <= k < less.len() && less[k].sink_rule_id == rule && entering::<L>(
                    t,
                    args,
                    less[k],
                    allowed,
                    cx,
                    st,
                ) is Some;
            let at = less[k].param_index;
            assert(has_flow(less, at, rule));
            assert(has_flow(more, at, rule));
            let j = choose|j: int|
                #![trigger more[j]]
                0 <= j < more.len() && more[j].param_index == at && more[j].sink_rule_id == rule;
            assert(entering::<L>(t, args, more[j], allowed, cx, st) == entering::<L>(
                t,
                args,
                less[k],
                allowed,
                cx,
                st,
            ));
            assert(enters::<L>(t, args, more, 0, allowed, cx, st, rule));
        }
    }
}

proof fn lemma_call_adds<L: ScopeLanguage>(
    t: &SyntaxTree,
    p: int,
    args: Seq<int>,
    flows: Seq<SinkFlow>,
    allowed: Seq<Text>,
    cx: Given<'_>,
    st: Map<Text, Info>,
    a: Seq<SinkFlow>,
    b: Seq<SinkFlow>,
)
    requires
        covered_by(a, b),
    ensures
        covered_by(a, call_composed::<L>(t, p, args, flows, 0, allowed, cx, st, b)),
{
    let y = call_composed::<L>(t, p, args, flows, 0, allowed, cx, st, b);
    assert forall|q: int, rule: Text| #[trigger] has_flow(a, q, rule) implies has_flow(
        y,
        q,
        rule,
    ) by {
        lemma_call_composed::<L>(t, p, args, flows, 0, allowed, cx, st, b, q, rule);
    }
}

proof fn lemma_calls_grow<L: CrossFileLanguage>(
    t: &SyntaxTree,
    c: int,
    e: int,
    p: int,
    less: Siblings,
    more: Siblings,
    cx: Given<'_>,
    st: Map<Text, Info>,
    a: Seq<SinkFlow>,
    b: Seq<SinkFlow>,
)
    requires
        knows_more(less, more),
        covered_by(a, b),
    ensures
        covered_by(
            calls_composed::<L>(t, c, e, p, less, cx, st, a),
            calls_composed::<L>(t, c, e, p, more, cx, st, b),
        ),
    decreases gap(c, e),
{
    if c < e {
        if L::is_scope(t, c) {
            lemma_calls_grow::<L>(t, t.after(c), e, p, less, more, cx, st, a, b);
        } else {
            let allowed = less.allowed;
            let next_a = match resolved_call::<L>(t, c, cx.src, less) {
                Some(x) => call_composed::<L>(
                    t,
                    p,
                    x.2,
                    x.1.params_to_sink,
                    0,
                    allowed,
                    cx,
                    st,
                    a,
                ),
                None => a,
            };
            let next_b = match resolved_call::<L>(t, c, cx.src, more) {
                Some(x) => call_composed::<L>(
                    t,
                    p,
                    x.2,
                    x.1.params_to_sink,
                    0,
                    allowed,
                    cx,
                    st,
                    b,
                ),
                None => b,
            };
            match (
                resolved_call::<L>(t, c, cx.src, less),
                resolved_call::<L>(t, c, cx.src, more),
            ) {
                (Some(x), Some(y)) => {
                    assert(less.summary(x.0) is Some);
                    lemma_call_grows::<L>(
                        t,
                        p,
                        x.2,
                        x.1.params_to_sink,
                        y.1.params_to_sink,
                        allowed,
                        cx,
                        st,
                        a,
                        b,
                    );
                },
                (Some(x), None) => {
                    assert(less.summary(x.0) is Some);
                },
                (None, Some(y)) => {
                    lemma_call_adds::<L>(
                        t,
                        p,
                        y.2,
                        y.1.params_to_sink,
                        allowed,
                        cx,
                        st,
                        a,
                        b,
                    );
                },
                (None, None) => {},
            }
            assert(covered_by(next_a, next_b));
            lemma_calls_grow::<L>(t, c + 1, e, p, less, more, cx, st, next_a, next_b);
        }
    }
}

proof fn lemma_params_grow<L: CrossFileLanguage>(
    t: &SyntaxTree,
    f: int,
    names: Seq<Text>,
    from: int,
    src: Text,
    sanitizers: Seq<Matcher>,
    less: Siblings,
    more: Siblings,
    a: Seq<SinkFlow>,
    b: Seq<SinkFlow>,
)
    requires
        knows_more(less, more),
        covered_by(a, b),
    ensures
        covered_by(
            params_composed::<L>(t, f, names, from, src, sanitizers, less, a),
            params_composed::<L>(t, f, names, from, src, sanitizers, more, b),
        ),
    decreases names.len() - from,
{
    if 0 <= from < names.len() {
        let body = L::body(t, f);
        let e = t.after(body);
        let cx = given(src, parameter_rule(names[from], Seq::empty(), sanitizers));
        let st = assigned_in::<L>(t, f, cx);
        lemma_calls_grow::<L>(t, body + 1, e, from, less, more, cx, st, a, b);
        let next_a = calls_composed::<L>(t, body + 1, e, from, less, cx, st, a);
        let next_b = calls_composed::<L>(t, body + 1, e, from, more, cx, st, b);
        lemma_params_grow::<L>(
            t,
            f,
            names,
            from + 1,
            src,
            sanitizers,
            less,
            more,
            next_a,
            next_b,
        );
    }
}

/// The more is known of the other files, the more flows a composed summary has: none is lost
/// from one round of composition to the next.
pub proof fn composition_grows_with_what_is_known<L: CrossFileLanguage>(
    t: &SyntaxTree,
    f: int,
    name: Text,
    src: Text,
    rules: Seq<(Text, TaintRule)>,
    less: Siblings,
    more: Siblings,
)
    requires
        knows_more(less, more),
    ensures
        covered_by(
            composed_summary::<L>(t, f, name, src, rules, less).params_to_sink,
            composed_summary::<L>(t, f, name, src, rules, more).params_to_sink,
        ),
{
    lemma_params_grow::<L>(
        t,
        f,
        L::params(t, f, src),
        0,
        src,
        all_sanitizers(rules, 0),
        less,
        more,
        Seq::empty(),
        Seq::empty(),
    );
}

// ─── What is composed ────────────────────────────────────────────────────────
proof fn lemma_call_composed_has<L: ScopeLanguage>(
    t: &SyntaxTree,
    p: int,
    args: Seq<int>,
    flows: Seq<SinkFlow>,
    from: int,
    allowed: Seq<Text>,
    cx: Given<'_>,
    st: Map<Text, Info>,
    acc: Seq<SinkFlow>,
    q: int,
    rule: Text,
)
    requires
        0 <= from,
        has_flow(acc, q, rule) || q == p && exists|k: int|
            #![trigger flows[k]]
            from <= k < flows.len() && flows[k].sink_rule_id == rule && entering::<L>(
                t,
                args,
                flows[k],
                allowed,
                cx,
                st,
            ) is Some,
    ensures
        has_flow(call_composed::<L>(t, p, args, flows, from, allowed, cx, st, acc), q, rule),
    decreases flows.len() - from,
{
    if from < flows.len() {
        let flow = flows[from];
        let added = SinkFlow {
            param_index: p,
            sink_rule_id: flow.sink_rule_id,
            sink_description: flow.sink_description,
        };
        let next = if entering::<L>(t, args, flow, allowed, cx, st) is Some && !has_flow(
            acc,
            p,
            flow.sink_rule_id,
        ) {
            acc.push(added)
        } else {
            acc
        };
        lemma_push_has_flow(acc, added, q, rule);
        lemma_call_composed_has::<L>(
            t,
            p,
            args,
            flows,
            from + 1,
            allowed,
            cx,
            st,
            next,
            q,
            rule,
        );
    }
}

proof fn lemma_calls_composed_has<L: CrossFileLanguage>(
    t: &SyntaxTree,
    b: int,
    c: int,
    n: int,
    p: int,
    others: Siblings,
    cx: Given<'_>,
    st: Map<Text, Info>,
    acc: Seq<SinkFlow>,
    q: int,
    rule: Text,
)
    requires
        b < c,
        has_flow(acc, q, rule) || q == p && c <= n && is_read_with::<L>(t, b, n) && (
        resolved_call::<L>(t, n, cx.src, others) matches Some(x) && exists|k: int|
            #![trigger x.1.params_to_sink[k]]
            0 <= k < x.1.params_to_sink.len() && x.1.params_to_sink[k].sink_rule_id == rule
                && entering::<L>(
                t,
                x.2,
                x.1.params_to_sink[k],
                others.allowed,
                cx,
                st,
            ) is Some),
    ensures
        has_flow(calls_composed::<L>(t, c, t.after(b), p, others, cx, st, acc), q, rule),
    decreases gap(c, t.after(b)),
{
    let e = t.after(b);
    if c < e {
        if L::is_scope(t, c) {
            lemma_calls_composed_has::<L>(t, b, t.after(c), n, p, others, cx, st, acc, q, rule);
        } else {
            let next = match resolved_call::<L>(t, c, cx.src, others) {
                Some(x) => call_composed::<L>(
                    t,
                    p,
                    x.2,
                    x.1.params_to_sink,
                    0,
                    others.allowed,
                    cx,
                    st,
                    acc,
                ),
                None => acc,
            };
            match resolved_call::<L>(t, c, cx.src, others) {
                Some(x) => {
                    if has_flow(acc, q, rule) || c == n {
                        lemma_call_composed_has::<L>(
                            t,
                            p,
                            x.2,
                            x.1.params_to_sink,
                            0,
                            others.allowed,
                            cx,
                            st,
                            acc,
                            q,
                            rule,
                        );
                    }
                },
                None => {},
            }
            lemma_calls_composed_has::<L>(t, b, c + 1, n, p, others, cx, st, next, q, rule);
        }
    }
}

proof fn lemma_params_composed_has<L: CrossFileLanguage>(
    t: &SyntaxTree,
    f: int,
    n: int,
    names: Seq<Text>,
    from: int,
    p: int,
    src: Text,
    sanitizers: Seq<Matcher>,
    others: Siblings,
    acc: Seq<SinkFlow>,
    rule: Text,
)
    requires
        0 <= from,
        has_flow(acc, p, rule) || from <= p < names.len() && is_read_with::<L>(
            t,
            L::body(t, f),
            n,
        ) && ({
            let cx = given(src, parameter_rule(names[p], Seq::empty(), sanitizers));
            resolved_call::<L>(t, n, src, others) matches Some(x) && exists|k: int|
                #![trigger x.1.params_to_sink[k]]
                0 <= k < x.1.params_to_sink.len() && x.1.params_to_sink[k].sink_rule_id == rule
                    && entering::<L>(
                    t,
                    x.2,
                    x.1.params_to_sink[k],
                    others.allowed,
                    cx,
                    assigned_in::<L>(t, f, cx),
                ) is Some
        }),
    ensures
        has_flow(
            params_composed::<L>(t, f, names, from, src, sanitizers, others, acc),
            p,
            rule,
        ),
    decreases names.len() - from,
{
    if from < names.len() {
        let b = L::body(t, f);
        let cx = given(src, parameter_rule(names[from], Seq::empty(), sanitizers));
        let st = assigned_in::<L>(t, f, cx);
        let next = calls_composed::<L>(t, b + 1, t.after(b), from, others, cx, st, acc);
        if has_flow(acc, p, rule) || from == p {
            lemma_calls_composed_has::<L>(
                t,
                b,
                b + 1,
                n,
                from,
                others,
                cx,
                st,
                acc,
                p,
                rule,
            );
        }
        lemma_params_composed_has::<L>(
            t,
            f,
            n,
            names,
            from + 1,
            p,
            src,
            sanitizers,
            others,
            next,
            rule,
        );
    }
}

/// A parameter that a method hands on to a method of another file, in a place from which it
/// flows into a sink there, flows into that sink by the method itself.
pub proof fn what_is_handed_on_into_a_sink_is_composed<L: CrossFileLanguage>(
    t: &SyntaxTree,
    f: int,
    n: int,
    name: Text,
    callee: Text,
    args: Seq<int>,
    k: int,
    p: int,
    src: Text,
    rules: Seq<(Text, TaintRule)>,
    others: Siblings,
)
    requires
        is_read_with::<L>(t, L::body(t, f), n),
        L::callee(t, n, src) == Some(callee),
        L::arguments(t, n) == Some(args),
        0 <= p < L::params(t, f, src).len(),
        others.summary(callee) matches Some(s) && 0 <= k < s.params_to_sink.len()
            && others.allowed.contains(s.params_to_sink[k].sink_rule_id) && 0
            <= s.params_to_sink[k].param_index < args.len() && ({
            let cx = given(
                src,
                parameter_rule(L::params(t, f, src)[p], Seq::empty(), all_sanitizers(rules, 0)),
            );
            L::taint_of(
                t,
                args[s.params_to_sink[k].param_index],
                cx,
                assigned_in::<L>(t, f, cx),
            ) is Some
        }),
    ensures
        has_flow(
            composed_summary::<L>(t, f, name, src, rules, others).params_to_sink,
            p,
            (others.summary(callee)->0).params_to_sink[k].sink_rule_id,
        ),
{
    let s = others.summary(callee)->0;
    let names = L::params(t, f, src);
    let cx = given(src, parameter_rule(names[p], Seq::empty(), all_sanitizers(rules, 0)));
    assert(entering::<L>(
        t,
        args,
        s.params_to_sink[k],
        others.allowed,
        cx,
        assigned_in::<L>(t, f, cx),
    ) is Some);
    lemma_params_composed_has::<L>(
        t,
        f,
        n,
        names,
        0,
        p,
        src,
        all_sanitizers(rules, 0),
        others,
        Seq::empty(),
        s.params_to_sink[k].sink_rule_id,
    );
}

} // verus!
