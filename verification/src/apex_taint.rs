//! Taint analysis for Apex, within a method.
use crate::common::AliasTable;
use crate::java_taint::{
    assignment_target_name, call_method_name, call_receiver_text, find_scope_body,
    formal_parameter_name, is_call_of, java_body, match_java_method_canonical, method_of,
    param_name, receiver_of, target_of,
};
use crate::scope::{
    analyze_scopes, assign, assigned, file_flows, fresh, fresh_info, given, step, stepped, Context,
    Given, ScopeLanguage,
};
use crate::taint_engine::{
    call, flow_of_info, has_text, lookup, m_call, m_params, param_names, taint_finding_for_node,
    Flow, Info, Matcher, NodeMatcher, Propagator, TaintFinding, TaintInfo, TaintRule, TaintSpec,
    TaintState, ANY_PARAM_WILDCARD,
};
use crate::text::{after_last, chars_of, concat3, find_after_last, opt_view, text_eq, views, Text};
use crate::tree::{gap, indices, is_node, Node, SyntaxTree};
use vstd::prelude::*;

verus! {

broadcast use {crate::text::group_views, crate::tree::group_tree};

/// What is untrusted in Apex: every method parameter and page parameters.
pub open spec fn apex_sources() -> Seq<Matcher> {
    seq![
        m_params(seq![ANY_PARAM_WILDCARD@], "untrusted method parameter"@),
        m_call("getParameters.get"@, "ApexPages page parameter"@),
    ]
}

/// What is untrusted in Apex: every method parameter and page parameters.
pub fn apex_taint_sources() -> (r: Vec<NodeMatcher>)
    ensures
        views(r@) == apex_sources(),
{
    let mut v: Vec<NodeMatcher> = Vec::new();
    let names0 = [ANY_PARAM_WILDCARD];
    assert(views(names0@) =~= seq![ANY_PARAM_WILDCARD@]);
    v.push(param_names(&names0, "untrusted method parameter"));
    v.push(call("getParameters.get", "ApexPages page parameter"));
    v
}

/// What makes a value safe in Apex.
pub open spec fn apex_sanitizers() -> Seq<Matcher> {
    seq![
        m_call("String.escapeSingleQuotes"@, "String.escapeSingleQuotes()"@),
    ]
}

/// What makes a value safe in Apex.
pub fn apex_taint_sanitizers() -> (r: Vec<NodeMatcher>)
    ensures
        views(r@) == apex_sanitizers(),
{
    let mut v: Vec<NodeMatcher> = Vec::new();
    v.push(call("String.escapeSingleQuotes", "String.escapeSingleQuotes()"));
    v
}

/// Where a dynamic SOQL query runs.
pub open spec fn apex_soql_sinks() -> Seq<Matcher> {
    seq![
        m_call("Database.query"@, "Database.query() (dynamic SOQL)"@),
        m_call("Database.countQuery"@, "Database.countQuery() (dynamic SOQL)"@),
        m_call("Database.getQueryLocator"@, "Database.getQueryLocator() (dynamic SOQL)"@),
    ]
}

/// Where a dynamic SOQL query runs.
pub fn apex_taint_sinks() -> (r: Vec<NodeMatcher>)
    ensures
        views(r@) == apex_soql_sinks(),
{
    let mut v: Vec<NodeMatcher> = Vec::new();
    v.push(call("Database.query", "Database.query() (dynamic SOQL)"));
    v.push(call("Database.countQuery", "Database.countQuery() (dynamic SOQL)"));
    v.push(call("Database.getQueryLocator", "Database.getQueryLocator() (dynamic SOQL)"));
    v
}

/// Where a dynamic SOSL search runs.
pub open spec fn apex_sosl_sinks() -> Seq<Matcher> {
    seq![
        m_call("Search.query"@, "Search.query() (dynamic SOSL)"@),
    ]
}

/// Where a dynamic SOSL search runs.
pub fn apex_taint_sosl_sinks() -> (r: Vec<NodeMatcher>)
    ensures
        views(r@) == apex_sosl_sinks(),
{
    let mut v: Vec<NodeMatcher> = Vec::new();
    v.push(call("Search.query", "Search.query() (dynamic SOSL)"));
    v
}

/// Untrusted SOQL queries.
pub open spec fn soql_injection_rule() -> TaintRule {
    TaintRule {
        sources: apex_sources(),
        sinks: apex_soql_sinks(),
        sanitizers: apex_sanitizers(),
    }
}

/// Untrusted SOQL queries.
pub fn soql_injection_spec() -> (r: TaintSpec)
    ensures
        r@ == soql_injection_rule(),
{
    TaintSpec {
        sources: apex_taint_sources(),
        sinks: apex_taint_sinks(),
        sanitizers: apex_taint_sanitizers(),
    }
}

/// Untrusted SOSL searches.
pub open spec fn sosl_injection_rule() -> TaintRule {
    TaintRule {
        sources: apex_sources(),
        sinks: apex_sosl_sinks(),
        sanitizers: apex_sanitizers(),
    }
}

/// Untrusted SOSL searches.
pub fn sosl_injection_spec() -> (r: TaintSpec)
    ensures
        r@ == sosl_injection_rule(),
{
    TaintSpec {
        sources: apex_taint_sources(),
        sinks: apex_taint_sosl_sinks(),
        sanitizers: apex_taint_sanitizers(),
    }
}

/// The taint rules for Apex, each under its id.
pub open spec fn apex_rules() -> Seq<(Text, TaintRule)> {
    seq![
        ("apex/taint-soql-injection"@, soql_injection_rule()),
        ("apex/taint-sosl-injection"@, sosl_injection_rule()),
    ]
}

/// The taint rules for Apex, each under its id.
pub fn apex_taint_rule_specs() -> (r: Vec<(&'static str, TaintSpec)>)
    ensures
        views(r@) == apex_rules(),
{
    let mut v: Vec<(&'static str, TaintSpec)> = Vec::new();
    v.push(("apex/taint-soql-injection", soql_injection_spec()));
    v.push(("apex/taint-sosl-injection", sosl_injection_spec()));
    v
}

// ─── Reading the syntax tree ─────────────────────────────────────────────────
/// Whether node `i` is a method or a constructor.
pub open spec fn is_apex_scope(t: &SyntaxTree, i: int) -> bool {
    t.kind(i) == "method_declaration"@ || t.kind(i) == "constructor_declaration"@
}

fn is_scope_node(node: Node<'_>) -> (r: bool)
    requires
        node.wf(),
    ensures
        r == is_apex_scope(node.tree, node.index as int),
{
    node.is_kind("method_declaration") || node.is_kind("constructor_declaration")
}

/// The argument list of the call at node `i`.
pub open spec fn arguments_of(t: &SyntaxTree, i: int) -> Option<int> {
    if t.kind(i) == "method_invocation"@ {
        t.field(i, "arguments"@)
    } else {
        None
    }
}

fn call_arguments<'a>(node: Node<'a>) -> (r: Option<Node<'a>>)
    requires
        node.wf(),
    ensures
        is_node(r, node.tree, arguments_of(node.tree, node.index as int)),
        r matches Some(n) ==> n.wf() && node.index < n.index,
{
    if node.is_kind("method_invocation") {
        node.child_by_field_name("arguments")
    } else {
        None
    }
}

/// The parameters among the siblings `c`, `after(c)`, ... before `e`.
pub open spec fn formal_among(t: &SyntaxTree, c: int, e: int) -> Seq<int>
    decreases gap(c, e),
{
    if c >= e {
        Seq::empty()
    } else if t.kind(c) == "formal_parameter"@ {
        seq![c] + formal_among(t, t.after(c), e)
    } else {
        formal_among(t, t.after(c), e)
    }
}

/// The parameters among the siblings `c`, `after(c)`, ... before `e`, and in the parameter
/// lists among them.
pub open spec fn listed_among(t: &SyntaxTree, c: int, e: int) -> Seq<int>
    decreases gap(c, e),
{
    if c >= e {
        Seq::empty()
    } else if t.kind(c) == "formal_parameter"@ {
        seq![c] + listed_among(t, t.after(c), e)
    } else if t.kind(c) == "formal_parameters"@ {
        formal_among(t, c + 1, t.after(c)) + listed_among(t, t.after(c), e)
    } else {
        listed_among(t, t.after(c), e)
    }
}

/// The parameters of the scope at node `f`.
pub open spec fn apex_params(t: &SyntaxTree, f: int) -> Seq<int> {
    match t.field(f, "parameters"@) {
        Some(p) => formal_among(t, p + 1, t.after(p)),
        None => listed_among(t, f + 1, t.after(f)),
    }
}

fn direct_formal_parameters<'a>(parameters: Node<'a>) -> (out: Vec<Node<'a>>)
    requires
        parameters.wf(),
    ensures
        indices(out@) == formal_among(
            parameters.tree,
            parameters.index + 1,
            parameters.tree.after(parameters.index as int),
        ),
        forall|k: int|
            #![trigger out@[k]]
            0 <= k < out@.len() ==> out@[k].tree == parameters.tree && out@[k].wf(),
{
    let ghost t = parameters.tree;
    let e: usize = parameters.end();
    let mut c: usize = parameters.index + 1;
    let mut out: Vec<Node<'a>> = Vec::new();
    let ghost all = formal_among(t, c as int, e as int);
    assert(indices(out@) + all =~= all);
    while c < e
        invariant
            parameters.wf(),
            t == parameters.tree,
            e <= t.len(),
            indices(out@) + formal_among(t, c as int, e as int) == all,
            forall|k: int|
                #![trigger out@[k]]
                0 <= k < out@.len() ==> out@[k].tree == t && out@[k].wf(),
        decreases gap(c as int, e as int),
    {
        let n = parameters.at(c);
        if n.is_kind("formal_parameter") {
            let ghost before = indices(out@);
            let ghost rest = formal_among(t, t.after(c as int), e as int);
            out.push(n);
            proof {
                assert(indices(out@) =~= before.push(c as int));
                assert(before.push(c as int) + rest =~= before + (seq![c as int] + rest));
            }
        }
        c = n.end();
    }
    assert(indices(out@) + Seq::<int>::empty() =~= indices(out@));
    out
}

fn scope_parameter_nodes<'a>(scope: Node<'a>) -> (r: Vec<Node<'a>>)
    requires
        scope.wf(),
    ensures
        indices(r@) == apex_params(scope.tree, scope.index as int),
        forall|k: int|
            #![trigger r@[k]]
            0 <= k < r@.len() ==> r@[k].tree == scope.tree && r@[k].wf(),
{
    match scope.child_by_field_name("parameters") {
        Some(p) => {
            return direct_formal_parameters(p);
        },
        None => {},
    }
    let ghost t = scope.tree;
    let e: usize = scope.end();
    let mut c: usize = scope.index + 1;
    let mut out: Vec<Node<'a>> = Vec::new();
    let ghost all = listed_among(t, c as int, e as int);
    assert(indices(out@) + all =~= all);
    while c < e
        invariant
            scope.wf(),
            t == scope.tree,
            e <= t.len(),
            indices(out@) + listed_among(t, c as int, e as int) == all,
            forall|k: int|
                #![trigger out@[k]]
                0 <= k < out@.len() ==> out@[k].tree == t && out@[k].wf(),
        decreases gap(c as int, e as int),
    {
        let n = scope.at(c);
        let ghost before = indices(out@);
        let ghost rest = listed_among(t, t.after(c as int), e as int);
        if n.is_kind("formal_parameter") {
            out.push(n);
            proof {
                assert(indices(out@) =~= before.push(c as int));
                assert(before.push(c as int) + rest =~= before + (seq![c as int] + rest));
            }
        } else if n.is_kind("formal_parameters") {
            let mut inner = direct_formal_parameters(n);
            let ghost here = indices(inner@);
            let ghost outer = out@;
            let ghost added = inner@;
            out.append(&mut inner);
            proof {
                assert(out@ =~= outer + added);
                assert(indices(out@) =~= before + here);
                assert(before + here + rest =~= before + (here + rest));
            }
        }
        c = n.end();
    }
    assert(indices(out@) + Seq::<int>::empty() =~= indices(out@));
    out
}

/// Whether a parameter name stands for every parameter.
pub open spec fn is_any(name: Text) -> bool {
    name == ANY_PARAM_WILDCARD@ || (name.len() > 0 && name[0] == '$')
}

/// Whether the source names the parameter `name`, or every parameter.
pub open spec fn param_named_by(m: Matcher, name: Text) -> bool {
    match m {
        Matcher::ParamName { names, .. } => names.contains(name) || exists|k: int|
            #![trigger names[k]]
            0 <= k < names.len() && is_any(names[k]),
        _ => false,
    }
}

/// Whether the sources name the parameter `name`, or every parameter.
pub open spec fn names_param(sources: Seq<Matcher>, name: Text) -> bool {
    exists|k: int|
        #![trigger sources[k]]
        0 <= k < sources.len() && param_named_by(sources[k], name)
}

fn has_wildcard(names: &Vec<String>) -> (r: bool)
    ensures
        r == exists|k: int|
            #![trigger views(names@)[k]]
            0 <= k < views(names@).len() && is_any(views(names@)[k]),
{
    let mut i: usize = 0;
    while i < names.len()
        invariant
            i <= names@.len(),
            forall|k: int| #![trigger views(names@)[k]] 0 <= k < i ==> !is_any(views(names@)[k]),
        decreases names.len() - i,
    {
        assert(views(names@)[i as int] == names@[i as int]@);
        let name = names[i].as_str();
        let a = chars_of(name);
        if text_eq(name, ANY_PARAM_WILDCARD) || (a.len() > 0 && a[0] == '$') {
            assert(is_any(views(names@)[i as int]));
            return true;
        }
        i = i + 1;
    }
    false
}

fn is_named_param(sources: &Vec<NodeMatcher>, name: &str) -> (r: bool)
    ensures
        r == names_param(views(sources@), name@),
{
    let mut i: usize = 0;
    while i < sources.len()
        invariant
            i <= sources@.len(),
            forall|k: int|
                #![trigger views(sources@)[k]]
                0 <= k < i ==> !param_named_by(views(sources@)[k], name@),
        decreases sources.len() - i,
    {
        assert(views(sources@)[i as int] == sources@[i as int]@);
        match &sources[i] {
            NodeMatcher::ParamName { names, .. } => {
                if has_text(names, name) || has_wildcard(names) {
                    assert(param_named_by(views(sources@)[i as int], name@));
                    return true;
                }
            },
            _ => {},
        }
        i = i + 1;
    }
    false
}

/// The state `st` with those of the parameters `params[from..]` tainted that are sources.
pub open spec fn seed_params(
    t: &SyntaxTree,
    params: Seq<int>,
    from: int,
    cx: Given<'_>,
    st: Map<Text, Info>,
) -> Map<Text, Info>
    decreases params.len() - from,
{
    if from < 0 || from >= params.len() {
        st
    } else {
        let i = params[from];
        let next = match param_name(t, i, cx.src) {
            Some(name) => if names_param(cx.rule.sources, name) {
                st.insert(name, fresh(t, i, "untrusted parameter '"@ + name + "'"@, cx))
            } else {
                st
            },
            None => st,
        };
        seed_params(t, params, from + 1, cx, next)
    }
}

fn collect_param_sources(scope: Node<'_>, ctx: &Context<'_>) -> (state: TaintState)
    requires
        scope.valid(ctx.source@),
    ensures
        state@ == seed_params(
            scope.tree,
            apex_params(scope.tree, scope.index as int),
            0,
            ctx@,
            Map::empty(),
        ),
{
    let ghost t = scope.tree;
    let params = scope_parameter_nodes(scope);
    let ghost ps = indices(params@);
    let mut state = TaintState::new();
    let mut k: usize = 0;
    while k < params.len()
        invariant
            scope.valid(ctx.source@),
            t == scope.tree,
            ps == indices(params@),
            forall|k: int|
                #![trigger params@[k]]
                0 <= k < params@.len() ==> params@[k].tree == t && params@[k].wf(),
            k <= params@.len(),
            seed_params(t, ps, 0, ctx@, Map::empty()) == seed_params(t, ps, k as int, ctx@, state@),
        decreases params.len() - k,
    {
        let n = params[k];
        assert(ps[k as int] == n.index);
        match formal_parameter_name(n, ctx.source) {
            Some(name) => {
                if is_named_param(&ctx.spec.sources, name) {
                    let d = concat3("untrusted parameter '", name, "'");
                    state.taint(name.to_owned(), fresh_info(n, d, ctx));
                }
            },
            None => {},
        }
        k = k + 1;
    }
    state
}

// ─── Matching calls ──────────────────────────────────────────────────────────
/// Whether the call at node `i` is one of the canonical name: its method is the last part,
/// and its receiver holds the rest, where there is one, whatever the case of its letters.
pub open spec fn calls(canonical: Text, t: &SyntaxTree, i: int, src: Text) -> bool {
    match method_of(t, i, src) {
        Some(method) => if after_last(canonical, '.', canonical.len() as int) > 0 {
            match receiver_of(t, i, src) {
                Some(receiver) => is_call_of(canonical, receiver, method),
                None => false,
            }
        } else {
            method == canonical
        },
        None => false,
    }
}

fn call_matches_canonical(node: Node<'_>, source: &str, canonical: &str) -> (r: bool)
    requires
        node.valid(source@),
    ensures
        r == calls(canonical@, node.tree, node.index as int, source@),
{
    match call_method_name(node, source) {
        None => false,
        Some(method) => {
            let a = chars_of(canonical);
            if find_after_last(&a, '.') > 0 {
                match call_receiver_text(node, source) {
                    Some(receiver) => match_java_method_canonical(canonical, receiver, method),
                    None => false,
                }
            } else {
                text_eq(method, canonical)
            }
        },
    }
}

/// Whether the matcher is for the call at node `i`.
pub open spec fn matches_call(m: Matcher, t: &SyntaxTree, i: int, src: Text) -> bool {
    match m {
        Matcher::MethodName { method, .. } => method_of(t, i, src) == Some(method),
        Matcher::Call { canonical, .. } => calls(canonical, t, i, src),
        _ => false,
    }
}

fn matcher_matches_call(matcher: &NodeMatcher, node: Node<'_>, source: &str) -> (r: bool)
    requires
        node.valid(source@),
    ensures
        r == matches_call(matcher@, node.tree, node.index as int, source@),
{
    match matcher {
        NodeMatcher::MethodName { method, .. } => match call_method_name(node, source) {
            Some(actual) => text_eq(actual, method.as_str()),
            None => false,
        },
        NodeMatcher::Call { canonical, .. } => call_matches_canonical(
            node,
            source,
            canonical.as_str(),
        ),
        _ => false,
    }
}

/// Whether one of the matchers is for the call at node `i`.
pub open spec fn some_matches(ms: Seq<Matcher>, t: &SyntaxTree, i: int, src: Text) -> bool {
    exists|k: int| #![trigger ms[k]] 0 <= k < ms.len() && matches_call(ms[k], t, i, src)
}

fn is_sanitizer_call(node: Node<'_>, source: &str, spec: &TaintSpec) -> (r: bool)
    requires
        node.valid(source@),
    ensures
        r == some_matches(spec@.sanitizers, node.tree, node.index as int, source@),
{
    let ghost ms = spec@.sanitizers;
    let mut k: usize = 0;
    while k < spec.sanitizers.len()
        invariant
            node.valid(source@),
            ms == views(spec.sanitizers@),
            k <= ms.len(),
            forall|j: int|
                #![trigger ms[j]]
                0 <= j < k ==> !matches_call(ms[j], node.tree, node.index as int, source@),
        decreases spec.sanitizers.len() - k,
    {
        assert(ms[k as int] == spec.sanitizers@[k as int]@);
        if matcher_matches_call(&spec.sanitizers[k], node, source) {
            return true;
        }
        k = k + 1;
    }
    false
}

/// The description of the first of `sinks[from..]` that is for the call at node `i`.
pub open spec fn sink_at(
    sinks: Seq<Matcher>,
    from: int,
    t: &SyntaxTree,
    i: int,
    src: Text,
) -> Option<Text>
    decreases sinks.len() - from,
{
    if from < 0 || from >= sinks.len() {
        None
    } else if matches_call(sinks[from], t, i, src) {
        Some(sinks[from].description())
    } else {
        sink_at(sinks, from + 1, t, i, src)
    }
}

fn match_sink(node: Node<'_>, source: &str, spec: &TaintSpec) -> (r: Option<String>)
    requires
        node.valid(source@),
    ensures
        opt_view(r) == sink_at(spec@.sinks, 0, node.tree, node.index as int, source@),
{
    let ghost ms = spec@.sinks;
    let mut k: usize = 0;
    while k < spec.sinks.len()
        invariant
            node.valid(source@),
            ms == views(spec.sinks@),
            ms == spec@.sinks,
            k <= ms.len(),
            sink_at(ms, 0, node.tree, node.index as int, source@) == sink_at(
                ms,
                k as int,
                node.tree,
                node.index as int,
                source@,
            ),
        decreases spec.sinks.len() - k,
    {
        assert(ms[k as int] == spec.sinks@[k as int]@);
        if matcher_matches_call(&spec.sinks[k], node, source) {
            return Some(spec.sinks[k].description().to_owned());
        }
        k = k + 1;
    }
    None
}

/// The description of the first of `sources[from..]` that the call at node `i` is.
pub open spec fn source_at(
    sources: Seq<Matcher>,
    from: int,
    t: &SyntaxTree,
    i: int,
    src: Text,
) -> Option<Text>
    decreases sources.len() - from,
{
    if from < 0 || from >= sources.len() {
        None
    } else {
        match sources[from] {
            Matcher::Call { canonical, description } => if calls(canonical, t, i, src) {
                Some(description)
            } else {
                source_at(sources, from + 1, t, i, src)
            },
            _ => source_at(sources, from + 1, t, i, src),
        }
    }
}

fn classify_source_expr(node: Node<'_>, source: &str, spec: &TaintSpec) -> (r: Option<String>)
    requires
        node.valid(source@),
    ensures
        opt_view(r) == source_at(spec@.sources, 0, node.tree, node.index as int, source@),
{
    let ghost ms = spec@.sources;
    let mut k: usize = 0;
    while k < spec.sources.len()
        invariant
            node.valid(source@),
            ms == views(spec.sources@),
            ms == spec@.sources,
            k <= ms.len(),
            source_at(ms, 0, node.tree, node.index as int, source@) == source_at(
                ms,
                k as int,
                node.tree,
                node.index as int,
                source@,
            ),
        decreases spec.sources.len() - k,
    {
        assert(ms[k as int] == spec.sources@[k as int]@);
        match &spec.sources[k] {
            NodeMatcher::Call { canonical, description } => {
                if call_matches_canonical(node, source, canonical.as_str()) {
                    return Some(description.clone());
                }
            },
            _ => {},
        }
        k = k + 1;
    }
    None
}

// ─── Taint of expressions ────────────────────────────────────────────────────
/// The taint of the expression at node `i`: that of a tainted variable, of a source, of
/// the receiver or the arguments of a call, or of a part. A sanitizer's result is clean.
pub open spec fn apex_taint(t: &SyntaxTree, i: int, cx: Given<'_>, st: Map<Text, Info>) -> Option<
    Info,
>
    decreases gap(i, t.len()), 0int,
{
    let known = lookup(st, t.text(i, cx.src));
    let found = source_at(cx.rule.sources, 0, t, i, cx.src);
    if !(0 <= i < t.len()) {
        None
    } else if known is Some {
        known
    } else if t.kind(i) == "identifier"@ {
        None
    } else if some_matches(cx.rule.sanitizers, t, i, cx.src) {
        None
    } else if found is Some {
        Some(fresh(t, i, found->0, cx))
    } else {
        let object = t.field(i, "object"@);
        let on_receiver = if t.kind(i) == "method_invocation"@ && object is Some {
            stepped(apex_taint(t, object->0, cx, st))
        } else {
            None
        };
        let args = arguments_of(t, i);
        if on_receiver is Some {
            on_receiver
        } else if args is Some && apex_taint(t, args->0, cx, st) is Some {
            stepped(apex_taint(t, args->0, cx, st))
        } else {
            parts_taint(t, i + 1, t.after(i), cx, st)
        }
    }
}

/// The taint of the first tainted one of the siblings `c`, `after(c)`, ... before `e`.
pub open spec fn parts_taint(
    t: &SyntaxTree,
    c: int,
    e: int,
    cx: Given<'_>,
    st: Map<Text, Info>,
) -> Option<Info>
    decreases gap(c, t.len()), 1int,
{
    if !(0 <= c < t.len() && c < e) {
        None
    } else if apex_taint(t, c, cx, st) is Some {
        apex_taint(t, c, cx, st)
    } else {
        parts_taint(t, t.after(c), e, cx, st)
    }
}

/// The taint of an expression.
pub fn expression_taint(node: Node<'_>, ctx: &Context<'_>, state: &TaintState) -> (r: Option<
    TaintInfo,
>)
    requires
        node.valid(ctx.source@),
    ensures
        opt_view(r) == apex_taint(node.tree, node.index as int, ctx@, state@),
    decreases node.tree.len() - node.index,
{
    match state.info(node.text(ctx.source)) {
        Some(info) => {
            return Some(info.clone());
        },
        None => {},
    }
    if node.is_kind("identifier") {
        return None;
    }
    if is_sanitizer_call(node, ctx.source, ctx.spec) {
        return None;
    }
    match classify_source_expr(node, ctx.source, ctx.spec) {
        Some(d) => {
            return Some(fresh_info(node, d, ctx));
        },
        None => {},
    }
    if node.is_kind("method_invocation") {
        match node.child_by_field_name("object") {
            Some(receiver) => {
                let got = expression_taint(receiver, ctx, state);
                if got.is_some() {
                    return step(got);
                }
            },
            None => {},
        }
    }
    match call_arguments(node) {
        Some(args) => {
            let got = expression_taint(args, ctx, state);
            if got.is_some() {
                return step(got);
            }
        },
        None => {},
    }
    let e: usize = node.end();
    let mut c: usize = node.index + 1;
    while c < e
        invariant
            node.valid(ctx.source@),
            node.index < c,
            e <= node.tree.len(),
            apex_taint(node.tree, node.index as int, ctx@, state@) == parts_taint(
                node.tree,
                c as int,
                e as int,
                ctx@,
                state@,
            ),
        decreases gap(c as int, e as int),
    {
        let n = node.at(c);
        let got = expression_taint(n, ctx, state);
        if got.is_some() {
            return got;
        }
        c = n.end();
    }
    None
}

// ─── Assignments ─────────────────────────────────────────────────────────────
/// The state after node `i` is read in the state `st`.
pub open spec fn apex_state_after(
    t: &SyntaxTree,
    i: int,
    cx: Given<'_>,
    st: Map<Text, Info>,
) -> Map<Text, Info> {
    if t.kind(i) == "variable_declarator"@ {
        match (t.field_text(i, "name"@, cx.src), t.field(i, "value"@)) {
            (Some(name), Some(value)) => assigned(st, name, stepped(apex_taint(t, value, cx, st))),
            _ => st,
        }
    } else if t.kind(i) == "assignment_expression"@ {
        match (t.field(i, "left"@), t.field(i, "right"@)) {
            (Some(left), Some(right)) => match target_of(t, left, cx.src) {
                Some(name) => assigned(st, name, stepped(apex_taint(t, right, cx, st))),
                None => st,
            },
            _ => st,
        }
    } else {
        st
    }
}

fn read_assignment(node: Node<'_>, ctx: &Context<'_>, state: &mut TaintState)
    requires
        node.valid(ctx.source@),
    ensures
        final(state)@ == apex_state_after(node.tree, node.index as int, ctx@, old(state)@),
{
    if node.is_kind("variable_declarator") {
        match (node.field_text("name", ctx.source), node.child_by_field_name("value")) {
            (Some(name), Some(value)) => {
                let got = step(expression_taint(value, ctx, state));
                assign(state, name, got);
            },
            _ => {},
        }
    } else if node.is_kind("assignment_expression") {
        match (node.child_by_field_name("left"), node.child_by_field_name("right")) {
            (Some(left), Some(right)) => {
                match assignment_target_name(left, ctx.source) {
                    Some(name) => {
                        let got = step(expression_taint(right, ctx, state));
                        assign(state, name, got);
                    },
                    None => {},
                }
            },
            _ => {},
        }
    }
}

// ─── Sinks ───────────────────────────────────────────────────────────────────
/// The flow that the call at node `i` makes into a sink by its arguments.
pub open spec fn call_sink_flow(t: &SyntaxTree, i: int, cx: Given<'_>, st: Map<Text, Info>) -> Option<
    Flow,
> {
    match (sink_at(cx.rule.sinks, 0, t, i, cx.src), arguments_of(t, i)) {
        (Some(sink), Some(args)) => match apex_taint(t, args, cx, st) {
            Some(info) => Some(flow_of_info(t, i, info, sink)),
            None => None,
        },
        _ => None,
    }
}

/// The flows that the nodes from `c` to before `e` make into sinks.
pub open spec fn flows_among(
    t: &SyntaxTree,
    c: int,
    e: int,
    cx: Given<'_>,
    st: Map<Text, Info>,
) -> Seq<Flow>
    decreases gap(c, e),
{
    if c >= e {
        Seq::empty()
    } else if is_apex_scope(t, c) {
        flows_among(t, t.after(c), e, cx, st)
    } else {
        let rest = flows_among(t, c + 1, e, cx, st);
        match call_sink_flow(t, c, cx, st) {
            Some(flow) => seq![flow] + rest,
            None => rest,
        }
    }
}

/// The flows into the sinks of the body at node `b`.
pub open spec fn apex_sink_flows(t: &SyntaxTree, b: int, cx: Given<'_>, st: Map<Text, Info>) -> Seq<
    Flow,
> {
    flows_among(t, b + 1, t.after(b), cx, st)
}

fn check_call_sink(node: Node<'_>, ctx: &Context<'_>, state: &TaintState) -> (r: Option<
    TaintFinding,
>)
    requires
        node.valid(ctx.source@),
    ensures
        opt_view(r) == call_sink_flow(node.tree, node.index as int, ctx@, state@),
{
    match call_arguments(node) {
        Some(args) => match match_sink(node, ctx.source, ctx.spec) {
            Some(sink) => match expression_taint(args, ctx, state) {
                Some(info) => Some(taint_finding_for_node(node, info, sink)),
                None => None,
            },
            None => None,
        },
        None => None,
    }
}

fn find_sinks(body: Node<'_>, ctx: &Context<'_>, state: &TaintState) -> (out: Vec<TaintFinding>)
    requires
        body.valid(ctx.source@),
    ensures
        views(out@) == apex_sink_flows(body.tree, body.index as int, ctx@, state@),
{
    let ghost t = body.tree;
    let e: usize = body.end();
    let mut c: usize = body.index + 1;
    let mut out: Vec<TaintFinding> = Vec::new();
    let ghost all = flows_among(t, c as int, e as int, ctx@, state@);
    assert(views(out@) + all =~= all);
    while c < e
        invariant
            body.valid(ctx.source@),
            t == body.tree,
            e <= t.len(),
            views(out@) + flows_among(t, c as int, e as int, ctx@, state@) == all,
        decreases gap(c as int, e as int),
    {
        let n = body.at(c);
        if is_scope_node(n) {
            c = n.end();
        } else {
            let ghost before = views(out@);
            let ghost rest = flows_among(t, c + 1, e as int, ctx@, state@);
            match check_call_sink(n, ctx, state) {
                Some(f) => {
                    out.push(f);
                    assert(before.push(f@) + rest =~= before + (seq![f@] + rest));
                },
                None => {},
            }
            c = c + 1;
        }
    }
    assert(views(out@) + Seq::<Flow>::empty() =~= views(out@));
    out
}

// ─── The language ────────────────────────────────────────────────────────────
/// Apex, as a language whose scopes are read in passes.
pub struct Apex;

impl ScopeLanguage for Apex {
    open spec fn is_scope(t: &SyntaxTree, i: int) -> bool {
        is_apex_scope(t, i)
    }

    fn scope_node(node: Node<'_>) -> (r: bool) {
        is_scope_node(node)
    }

    open spec fn body(t: &SyntaxTree, f: int) -> int {
        java_body(t, f)
    }

    fn scope_body<'a>(scope: Node<'a>) -> (r: Node<'a>) {
        find_scope_body(scope)
    }

    open spec fn entry_state(t: &SyntaxTree, f: int, cx: Given<'_>) -> Map<Text, Info> {
        seed_params(t, apex_params(t, f), 0, cx, Map::empty())
    }

    fn collect_param_sources(scope: Node<'_>, ctx: &Context<'_>) -> (r: TaintState) {
        collect_param_sources(scope, ctx)
    }

    open spec fn state_after(t: &SyntaxTree, i: int, cx: Given<'_>, st: Map<Text, Info>) -> Map<
        Text,
        Info,
    > {
        apex_state_after(t, i, cx, st)
    }

    fn read_node(node: Node<'_>, ctx: &Context<'_>, state: &mut TaintState) {
        read_assignment(node, ctx, state)
    }

    open spec fn reseeded(t: &SyntaxTree, b: int, cx: Given<'_>, st: Map<Text, Info>) -> Map<
        Text,
        Info,
    > {
        st
    }

    fn reseed(_body: Node<'_>, _ctx: &Context<'_>, _state: &mut TaintState) {
    }

    open spec fn receiver_call(t: &SyntaxTree, i: int, src: Text) -> Option<(Text, Text)> {
        None
    }

    fn call_on_variable<'s>(_node: Node<'_>, _source: &'s str) -> (r: Option<(&'s str, &'s str)>) {
        None
    }

    open spec fn passed_on(t: &SyntaxTree, i: int, cx: Given<'_>, st: Map<Text, Info>) -> Option<
        Info,
    > {
        None
    }

    fn argument_taint(_node: Node<'_>, _ctx: &Context<'_>, _state: &TaintState) -> (r: Option<
        TaintInfo,
    >) {
        None
    }

    open spec fn taint_of(t: &SyntaxTree, i: int, cx: Given<'_>, st: Map<Text, Info>) -> Option<
        Info,
    > {
        apex_taint(t, i, cx, st)
    }

    fn expression_taint(node: Node<'_>, ctx: &Context<'_>, state: &TaintState) -> (r: Option<
        TaintInfo,
    >) {
        expression_taint(node, ctx, state)
    }

    open spec fn sink_flows(t: &SyntaxTree, b: int, cx: Given<'_>, st: Map<Text, Info>) -> Seq<
        Flow,
    > {
        apex_sink_flows(t, b, cx, st)
    }

    fn find_sinks(body: Node<'_>, ctx: &Context<'_>, state: &TaintState) -> (r: Vec<TaintFinding>) {
        find_sinks(body, ctx, state)
    }
}

/// The flows of a rule in a file.
pub fn analyze_tree(
    root: Node<'_>,
    source: &str,
    spec: &TaintSpec,
    _aliases: Option<&AliasTable>,
) -> (r: Vec<TaintFinding>)
    requires
        root.valid(source@),
    ensures
        views(r@) == file_flows::<Apex>(
            root.tree,
            root.index as int,
            root.tree.after(root.index as int),
            Seq::empty(),
            given(source@, spec@),
        ),
{
    let none: Vec<Propagator> = Vec::new();
    assert(views(none@) =~= Seq::<Option<Text>>::empty());
    let ctx = Context { source, spec, policy: None };
    analyze_scopes::<Apex>(root, &ctx, &none)
}

} // verus!
