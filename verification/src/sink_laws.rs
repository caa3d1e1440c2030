//! Every flow that is found goes into a sink of its rule.
use crate::apex_taint::Apex;
use crate::bash_taint;
use crate::c_taint;
use crate::csharp_taint::CSharp;
use crate::go_taint;
use crate::java_taint::Java;
use crate::scope::{file_flows, scope_flows, settled, Given, ScopeLanguage};
use crate::taint_engine::{call_named, Flow, Info, Matcher, TaintRule};
use crate::text::Text;
use crate::tree::{gap, SyntaxTree};
use vstd::prelude::*;

verus! {

broadcast use crate::tree::group_tree;

/// One of the matchers has this description.
pub open spec fn describes(sinks: Seq<Matcher>, description: Text) -> bool {
    exists|k: int|
        #![trigger sinks[k]]
        0 <= k < sinks.len() && sinks[k].description() == description
}

/// Every flow goes into one of the sinks.
pub open spec fn into_sinks(flows: Seq<Flow>, sinks: Seq<Matcher>) -> bool {
    forall|k: int|
        #![trigger flows[k]]
        0 <= k < flows.len() ==> describes(sinks, flows[k].sink_description)
}

proof fn lemma_both(a: Seq<Flow>, b: Seq<Flow>, sinks: Seq<Matcher>)
    requires
        into_sinks(a, sinks),
        into_sinks(b, sinks),
    ensures
        into_sinks(a + b, sinks),
{
    let both = a + b;
    assert forall|k: int| #![trigger both[k]] 0 <= k < both.len() implies describes(
        sinks,
        both[k].sink_description,
    ) by {
        if k < a.len() {
            assert(both[k] == a[k]);
        } else {
            assert(both[k] == b[k - a.len()]);
        }
    }
}

proof fn lemma_call_named(sinks: Seq<Matcher>, from: int, name: Text)
    requires
        0 <= from,
        call_named(sinks, from, name) is Some,
    ensures
        describes(sinks, call_named(sinks, from, name)->0),
    decreases sinks.len() - from,
{
    match sinks[from] {
        Matcher::Call { canonical, description } => if canonical == name {
            assert(sinks[from].description() == description);
        } else {
            lemma_call_named(sinks, from + 1, name);
        },
        _ => lemma_call_named(sinks, from + 1, name),
    }
}

// ─── Languages that are read scope by scope ──────────────────────────────────
/// A language whose sinks are those of the rule alone.
pub trait SinkLanguage: ScopeLanguage {
    /// The flows of a scope's body go into the sinks of the rule.
    proof fn body_flows_into_sinks(t: &SyntaxTree, b: int, cx: Given<'_>, st: Map<Text, Info>)
        ensures
            into_sinks(Self::sink_flows(t, b, cx, st), cx.rule.sinks),
    ;
}

proof fn lemma_java_sink(sinks: Seq<Matcher>, from: int, t: &SyntaxTree, i: int, src: Text)
    requires
        0 <= from,
        crate::java_taint::sink_at(sinks, from, t, i, src) is Some,
    ensures
        describes(sinks, crate::java_taint::sink_at(sinks, from, t, i, src)->0),
    decreases sinks.len() - from,
{
    if !crate::java_taint::matches_call(sinks[from], t, i, src) {
        lemma_java_sink(sinks, from + 1, t, i, src);
    }
}

proof fn lemma_java_typed_sink(sinks: Seq<Matcher>, from: int, name: Text)
    requires
        0 <= from,
        crate::java_taint::typed_sink(sinks, from, name) is Some,
    ensures
        describes(sinks, crate::java_taint::typed_sink(sinks, from, name)->0),
    decreases sinks.len() - from,
{
    match sinks[from] {
        Matcher::TypedAssignTarget { declared, description } => if declared == name {
            assert(sinks[from].description() == description);
        } else {
            lemma_java_typed_sink(sinks, from + 1, name);
        },
        _ => lemma_java_typed_sink(sinks, from + 1, name),
    }
}

proof fn lemma_java_flows(
    t: &SyntaxTree,
    c: int,
    e: int,
    cx: Given<'_>,
    st: Map<Text, Info>,
    types: Map<Text, Text>,
)
    ensures
        into_sinks(
            crate::java_taint::flows_among(t, c, e, cx, st, types),
            cx.rule.sinks,
        ),
    decreases gap(c, e),
{
    if c < e {
        if crate::java_taint::is_java_scope(t, c) {
            lemma_java_flows(t, t.after(c), e, cx, st, types);
        } else {
            lemma_java_flows(t, c + 1, e, cx, st, types);
            let sinks = cx.rule.sinks;
            let typed = crate::java_taint::typed_flows(t, c, cx, st, types);
            let calls = crate::java_taint::call_sink_flows(t, c, cx, st);
            if let Some(x) = crate::java_taint::typed_target(t, c, cx.src, types) {
                let name = crate::scope::simple_type(x.0);
                if crate::java_taint::typed_sink(sinks, 0, name) is Some {
                    lemma_java_typed_sink(sinks, 0, name);
                }
            }
            if crate::java_taint::sink_at(sinks, 0, t, c, cx.src) is Some {
                lemma_java_sink(sinks, 0, t, c, cx.src);
            }
            assert(into_sinks(typed, sinks));
            assert(into_sinks(calls, sinks));
            lemma_both(typed, calls, sinks);
            lemma_both(typed, Seq::empty(), sinks);
            lemma_both(
                crate::java_taint::flows_at(t, c, cx, st, types),
                crate::java_taint::flows_among(t, c + 1, e, cx, st, types),
                sinks,
            );
        }
    }
}

impl SinkLanguage for Java {
    proof fn body_flows_into_sinks(t: &SyntaxTree, b: int, cx: Given<'_>, st: Map<Text, Info>) {
        let types = crate::java_taint::locals_typed(t, b + 1, t.after(b), cx.src, Map::empty());
        lemma_java_flows(t, b + 1, t.after(b), cx, st, types);
    }
}

proof fn lemma_csharp_sink(sinks: Seq<Matcher>, from: int, t: &SyntaxTree, i: int, src: Text)
    requires
        0 <= from,
        crate::csharp_taint::sink_at(sinks, from, t, i, src) is Some,
    ensures
        describes(sinks, crate::csharp_taint::sink_at(sinks, from, t, i, src)->0),
    decreases sinks.len() - from,
{
    if !crate::csharp_taint::matches_call(sinks[from], t, i, src) {
        lemma_csharp_sink(sinks, from + 1, t, i, src);
    }
}

proof fn lemma_csharp_concat_sink(sinks: Seq<Matcher>, from: int, method: Option<Text>)
    requires
        0 <= from,
        crate::csharp_taint::concat_sink(sinks, from, method) is Some,
    ensures
        describes(sinks, crate::csharp_taint::concat_sink(sinks, from, method)->0),
    decreases sinks.len() - from,
{
    match sinks[from] {
        Matcher::CallArgConcat { method: m, description } => if method == Some(m) {
            assert(sinks[from].description() == description);
        } else {
            lemma_csharp_concat_sink(sinks, from + 1, method);
        },
        _ => lemma_csharp_concat_sink(sinks, from + 1, method),
    }
}

proof fn lemma_csharp_flows(
    t: &SyntaxTree,
    c: int,
    e: int,
    cx: Given<'_>,
    st: Map<Text, Info>,
)
    ensures
        into_sinks(crate::csharp_taint::flows_among(t, c, e, cx, st), cx.rule.sinks),
    decreases gap(c, e),
{
    if c < e {
        if crate::csharp_taint::is_csharp_scope(t, c) {
            lemma_csharp_flows(t, t.after(c), e, cx, st);
        } else {
            lemma_csharp_flows(t, c + 1, e, cx, st);
            let sinks = cx.rule.sinks;
            let method = crate::csharp_taint::method_of(t, c, cx.src);
            if crate::csharp_taint::sink_at(sinks, 0, t, c, cx.src) is Some {
                lemma_csharp_sink(sinks, 0, t, c, cx.src);
            }
            if crate::csharp_taint::concat_sink(sinks, 0, method) is Some {
                lemma_csharp_concat_sink(sinks, 0, method);
            }
            if let Some(flow) = crate::csharp_taint::call_sink_flow(t, c, cx, st) {
                lemma_both(
                    seq![flow],
                    crate::csharp_taint::flows_among(t, c + 1, e, cx, st),
                    sinks,
                );
            }
        }
    }
}

impl SinkLanguage for CSharp {
    proof fn body_flows_into_sinks(t: &SyntaxTree, b: int, cx: Given<'_>, st: Map<Text, Info>) {
        lemma_csharp_flows(t, b + 1, t.after(b), cx, st);
    }
}

proof fn lemma_apex_sink(sinks: Seq<Matcher>, from: int, t: &SyntaxTree, i: int, src: Text)
    requires
        0 <= from,
        crate::apex_taint::sink_at(sinks, from, t, i, src) is Some,
    ensures
        describes(sinks, crate::apex_taint::sink_at(sinks, from, t, i, src)->0),
    decreases sinks.len() - from,
{
    if !crate::apex_taint::matches_call(sinks[from], t, i, src) {
        lemma_apex_sink(sinks, from + 1, t, i, src);
    }
}

proof fn lemma_apex_flows(t: &SyntaxTree, c: int, e: int, cx: Given<'_>, st: Map<Text, Info>)
    ensures
        into_sinks(crate::apex_taint::flows_among(t, c, e, cx, st), cx.rule.sinks),
    decreases gap(c, e),
{
    if c < e {
        if crate::apex_taint::is_apex_scope(t, c) {
            lemma_apex_flows(t, t.after(c), e, cx, st);
        } else {
            lemma_apex_flows(t, c + 1, e, cx, st);
            let sinks = cx.rule.sinks;
            if crate::apex_taint::sink_at(sinks, 0, t, c, cx.src) is Some {
                lemma_apex_sink(sinks, 0, t, c, cx.src);
            }
            if let Some(flow) = crate::apex_taint::call_sink_flow(t, c, cx, st) {
                lemma_both(
                    seq![flow],
                    crate::apex_taint::flows_among(t, c + 1, e, cx, st),
                    sinks,
                );
            }
        }
    }
}

impl SinkLanguage for Apex {
    proof fn body_flows_into_sinks(t: &SyntaxTree, b: int, cx: Given<'_>, st: Map<Text, Info>) {
        lemma_apex_flows(t, b + 1, t.after(b), cx, st);
    }
}

/// Every flow that a rule finds in the nodes of a file goes into one of the rule's sinks.
pub proof fn flows_go_into_sinks<L: SinkLanguage>(
    t: &SyntaxTree,
    c: int,
    e: int,
    propagators: Seq<Option<Text>>,
    cx: Given<'_>,
)
    ensures
        into_sinks(file_flows::<L>(t, c, e, propagators, cx), cx.rule.sinks),
    decreases gap(c, e),
{
    if c < e {
        flows_go_into_sinks::<L>(t, c + 1, e, propagators, cx);
        if L::is_scope(t, c) {
            L::body_flows_into_sinks(t, L::body(t, c), cx, settled::<L>(t, c, propagators, cx));
            lemma_both(
                scope_flows::<L>(t, c, propagators, cx),
                file_flows::<L>(t, c + 1, e, propagators, cx),
                cx.rule.sinks,
            );
        }
    }
}

// ─── C ───────────────────────────────────────────────────────────────────────
proof fn lemma_c_flows(
    t: &SyntaxTree,
    c: int,
    e: int,
    src: Text,
    sinks: Seq<Matcher>,
    tainted: Set<Text>,
    origin: c_taint::Origin,
)
    ensures
        into_sinks(c_taint::flows_among(t, c, e, src, sinks, tainted, origin), sinks),
    decreases gap(c, e),
{
    if c < e {
        lemma_c_flows(t, c + 1, e, src, sinks, tainted, origin);
        if let Some(callee) = c_taint::callee_of(t, c, src) {
            if call_named(sinks, 0, callee) is Some {
                lemma_call_named(sinks, 0, callee);
            }
        }
        if let Some(sink) = c_taint::sink_at(t, c, src, sinks, tainted) {
            lemma_both(
                seq![c_taint::flow_into(t, c, src, origin, sink)],
                c_taint::flows_among(t, c + 1, e, src, sinks, tainted, origin),
                sinks,
            );
        }
    }
}

/// Every flow that a rule finds in the nodes of a C file goes into one of the rule's sinks.
pub proof fn c_flows_go_into_sinks(t: &SyntaxTree, c: int, e: int, src: Text, rule: TaintRule)
    ensures
        into_sinks(c_taint::file_flows(t, c, e, src, rule), rule.sinks),
    decreases gap(c, e),
{
    if c < e {
        c_flows_go_into_sinks(t, c + 1, e, src, rule);
        let b = c_taint::c_body(t, c);
        let origins = c_taint::function_origins(t, c, src, rule.sources);
        if origins.len() > 0 {
            let tainted = c_taint::tainted_in(t, b, src, rule, origins);
            lemma_c_flows(t, b, t.after(b), src, rule.sinks, tainted, origins[0]);
        }
        lemma_both(
            c_taint::function_flows(t, c, src, rule),
            c_taint::file_flows(t, c + 1, e, src, rule),
            rule.sinks,
        );
    }
}

// ─── Bash ────────────────────────────────────────────────────────────────────
proof fn lemma_bash_flows(
    t: &SyntaxTree,
    c: int,
    e: int,
    skip: bool,
    src: Text,
    rule: TaintRule,
    st: Map<Text, Info>,
)
    ensures
        into_sinks(bash_taint::flows_among(t, c, e, skip, src, rule, st), rule.sinks),
    decreases gap(c, e),
{
    if c < e {
        if skip && t.kind(c) == "function_definition"@ {
            lemma_bash_flows(t, t.after(c), e, skip, src, rule, st);
        } else {
            let next = bash_taint::bash_state_after(t, c, src, rule, st);
            lemma_bash_flows(t, c + 1, e, skip, src, rule, next);
            if let Some(name) = bash_taint::command_of(t, c, src) {
                if call_named(rule.sinks, 0, name) is Some {
                    lemma_call_named(rule.sinks, 0, name);
                }
            }
            if let Some(flow) = bash_taint::command_flow(t, c, src, rule.sinks, next) {
                lemma_both(
                    seq![flow],
                    bash_taint::flows_among(t, c + 1, e, skip, src, rule, next),
                    rule.sinks,
                );
            }
        }
    }
}

proof fn lemma_bash_functions(t: &SyntaxTree, c: int, e: int, src: Text, rule: TaintRule)
    ensures
        into_sinks(bash_taint::functions_flows(t, c, e, src, rule), rule.sinks),
    decreases gap(c, e),
{
    if c < e {
        lemma_bash_functions(t, c + 1, e, src, rule);
        let st = bash_taint::params_tainted(rule.sources, 0, t.line(c), Map::empty());
        if let Some(b) = t.field(c, "body"@) {
            lemma_bash_flows(t, b, t.after(b), false, src, rule, st);
        }
        lemma_both(
            bash_taint::function_flows(t, c, src, rule),
            bash_taint::functions_flows(t, c + 1, e, src, rule),
            rule.sinks,
        );
    }
}

/// Every flow that a rule finds in a script goes into one of the rule's sinks.
pub proof fn bash_flows_go_into_sinks(t: &SyntaxTree, root: int, src: Text, rule: TaintRule)
    ensures
        into_sinks(bash_taint::script_flows(t, root, src, rule), rule.sinks),
{
    let st = bash_taint::params_tainted(rule.sources, 0, t.line(root), Map::empty());
    lemma_bash_flows(t, root, t.after(root), true, src, rule, st);
    lemma_bash_functions(t, root, t.after(root), src, rule);
    lemma_both(
        bash_taint::flows_among(t, root, t.after(root), true, src, rule, st),
        bash_taint::functions_flows(t, root, t.after(root), src, rule),
        rule.sinks,
    );
}

// ─── Go ──────────────────────────────────────────────────────────────────────
proof fn lemma_go_call_sink(sinks: Seq<Matcher>, from: int, callee: Text)
    requires
        0 <= from,
        go_taint::call_sink(sinks, from, callee) is Some,
    ensures
        describes(sinks, go_taint::call_sink(sinks, from, callee)->0),
    decreases sinks.len() - from,
{
    if !go_taint::call_sink_hits(sinks[from], callee) {
        lemma_go_call_sink(sinks, from + 1, callee);
    }
}

proof fn lemma_go_format_sink(sinks: Seq<Matcher>, from: int)
    requires
        0 <= from,
        go_taint::format_sink(sinks, from) is Some,
    ensures
        describes(sinks, go_taint::format_sink(sinks, from)->0),
    decreases sinks.len() - from,
{
    if !(sinks[from] is BinopFormat) {
        lemma_go_format_sink(sinks, from + 1);
    }
}

proof fn lemma_go_flows_at(
    t: &SyntaxTree,
    i: int,
    cx: go_taint::Facts<'_>,
    st: Map<Text, Info>,
    sinks: Seq<Matcher>,
)
    requires
        cx.groups == seq![(None::<Text>, sinks)],
        cx.cross is None,
    ensures
        into_sinks(go_taint::flows_at(t, i, cx, st), sinks),
{
    reveal_with_fuel(go_taint::call_sink_flows, 2);
    reveal_with_fuel(go_taint::format_sink_flows, 2);
    assert(cx.groups.len() == 1 && cx.groups[0].1 == sinks);
    if let Some(f) = t.field(i, "function"@) {
        let callee = crate::common::resolved_in(cx.aliases, t.text(f, cx.src));
        if go_taint::call_sink(sinks, 0, callee) is Some {
            lemma_go_call_sink(sinks, 0, callee);
        }
    }
    if go_taint::format_sink(sinks, 0) is Some {
        lemma_go_format_sink(sinks, 0);
    }
}

proof fn lemma_go_scope(
    t: &SyntaxTree,
    c: int,
    e: int,
    cx: go_taint::Facts<'_>,
    st: Map<Text, Info>,
    sinks: Seq<Matcher>,
)
    requires
        cx.groups == seq![(None::<Text>, sinks)],
        cx.cross is None,
    ensures
        into_sinks(go_taint::scope_flows(t, c, e, cx, st), sinks),
    decreases gap(c, e),
{
    if c < e {
        if t.kind(c) == "func_literal"@ {
            lemma_go_scope(t, t.after(c), e, cx, st, sinks);
        } else {
            let next = go_taint::state_after(t, c, cx, st);
            lemma_go_flows_at(t, c, cx, st, sinks);
            lemma_go_scope(t, c + 1, e, cx, next, sinks);
            lemma_both(
                go_taint::flows_at(t, c, cx, st),
                go_taint::scope_flows(t, c + 1, e, cx, next),
                sinks,
            );
        }
    }
}

proof fn lemma_go_functions(
    t: &SyntaxTree,
    c: int,
    e: int,
    cx: go_taint::Facts<'_>,
    sinks: Seq<Matcher>,
)
    requires
        cx.groups == seq![(None::<Text>, sinks)],
        cx.cross is None,
    ensures
        into_sinks(go_taint::flows_from(t, c, e, cx), sinks),
    decreases gap(c, e),
{
    if c < e {
        lemma_go_functions(t, c + 1, e, cx, sinks);
        if let Some(b) = t.field(c, "body"@) {
            let st = go_taint::entry_state(t, c, cx);
            lemma_go_scope(t, b, t.after(b), cx, st, sinks);
        }
        lemma_both(
            go_taint::function_flows(t, c, cx),
            go_taint::flows_from(t, c + 1, e, cx),
            sinks,
        );
    }
}

/// Every flow that a rule finds in a Go file, where nothing is known of other files, goes into
/// one of the rule's sinks.
pub proof fn go_flows_go_into_sinks(
    t: &SyntaxTree,
    root: int,
    source: Text,
    rule: TaintRule,
    aliases: Option<Map<Text, Text>>,
)
    ensures
        into_sinks(
            go_taint::file_flows(
                t,
                root,
                go_taint::rule_facts(source, rule, aliases, None, None),
            ),
            rule.sinks,
        ),
{
    let cx = go_taint::rule_facts(source, rule, aliases, None, None);
    let summaries = go_taint::file_summaries(t, root, go_taint::first_pass(cx));
    lemma_go_functions(
        t,
        root,
        t.after(root),
        go_taint::Facts { summaries, ..cx },
        rule.sinks,
    );
}

} // verus!
