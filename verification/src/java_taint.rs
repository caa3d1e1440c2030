//! Taint analysis for Java, within a method and through the methods of sibling files.
//!
//! Methods, constructors and lambdas are scopes of their own. Taint passes through
//! concatenations, calls on a tainted receiver, arguments and constructors; a clean
//! assignment cleans its target.
use crate::common::AliasTable;
use crate::cross_file::{keyed, CrossFileSummaryMap, FunctionTaintSummary};
use crate::pattern::{is_regex_match, regex_matches};
pub use crate::scope::CrossFileInfo;
use crate::scope::{
    analyze_scopes, assign, assigned, compose_summaries, composed_in, extract_findings,
    extract_summaries, file_cross_flows, file_flows, fresh, fresh_info, given, simple_type, step,
    stepped, summaries_in, type_final_segment, type_source, typed_source_description, union_rule,
    Context, CrossFileLanguage, Given, ScopeLanguage, Siblings,
};
use crate::taint_engine::{
    bump_hops, call, flow_of_info, has_text, is_wildcard, lookup, m_call, m_method, m_params,
    method_name, param_names, param_names_are_wildcard, relabel, relabel_set,
    taint_finding_for_node, Flow, Info, LabelPolicy, LabelSet, Matcher, NodeMatcher, Propagator,
    TaintFinding, TaintInfo, TaintRule, TaintSpec, TaintState,
};
use crate::text::{
    after_last, before_first, chars_of, concat3, contains, find_after_last, first_segment, has_part,
    lowered, opt_view, text_eq, text_is, to_ascii_lowercase, views, Text,
};
use crate::text_map::TextTable;
use crate::tree::{child_of_kind, first_of_kind, gap, indices, is_node, Node, SyntaxTree};
use vstd::prelude::*;
use vstd::string::*;

verus! {

broadcast use {crate::text::group_views, crate::tree::group_tree};

/// What is untrusted in Java: servlet requests, annotated Spring parameters and the environment.
pub open spec fn java_sources() -> Seq<Matcher> {
    seq![
        m_call("request.getParameter"@, "HttpServletRequest.getParameter()"@),
        m_call("request.getParameterMap"@, "HttpServletRequest.getParameterMap()"@),
        m_call("request.getParameterValues"@, "HttpServletRequest.getParameterValues()"@),
        m_call("request.getHeader"@, "HttpServletRequest.getHeader()"@),
        m_call("request.getHeaders"@, "HttpServletRequest.getHeaders()"@),
        m_call("request.getQueryString"@, "HttpServletRequest.getQueryString()"@),
        m_call("request.getInputStream"@, "HttpServletRequest.getInputStream()"@),
        m_call("request.getReader"@, "HttpServletRequest.getReader()"@),
        m_call("request.getCookies"@, "HttpServletRequest.getCookies()"@),
        m_call("req.getParameter"@, "HttpServletRequest.getParameter()"@),
        m_call("req.getParameterMap"@, "HttpServletRequest.getParameterMap()"@),
        m_call("req.getParameterValues"@, "HttpServletRequest.getParameterValues()"@),
        m_call("req.getHeader"@, "HttpServletRequest.getHeader()"@),
        m_call("req.getHeaders"@, "HttpServletRequest.getHeaders()"@),
        m_call("req.getQueryString"@, "HttpServletRequest.getQueryString()"@),
        m_call("req.getInputStream"@, "HttpServletRequest.getInputStream()"@),
        m_call("req.getReader"@, "HttpServletRequest.getReader()"@),
        m_call("req.getCookies"@, "HttpServletRequest.getCookies()"@),
        m_call("System.getenv"@, "System.getenv()"@),
        m_params(seq!["@RequestParam"@, "@RequestBody"@, "@PathVariable"@, "@RequestHeader"@, "@CookieValue"@, "@ModelAttribute"@], "Spring MVC annotated parameter"@),
    ]
}

/// What is untrusted in Java: servlet requests, annotated Spring parameters and the environment.
pub fn java_taint_sources() -> (r: Vec<NodeMatcher>)
    ensures
        views(r@) == java_sources(),
{
    let mut v: Vec<NodeMatcher> = Vec::new();
    v.push(call("request.getParameter", "HttpServletRequest.getParameter()"));
    v.push(call("request.getParameterMap", "HttpServletRequest.getParameterMap()"));
    v.push(call("request.getParameterValues", "HttpServletRequest.getParameterValues()"));
    v.push(call("request.getHeader", "HttpServletRequest.getHeader()"));
    v.push(call("request.getHeaders", "HttpServletRequest.getHeaders()"));
    v.push(call("request.getQueryString", "HttpServletRequest.getQueryString()"));
    v.push(call("request.getInputStream", "HttpServletRequest.getInputStream()"));
    v.push(call("request.getReader", "HttpServletRequest.getReader()"));
    v.push(call("request.getCookies", "HttpServletRequest.getCookies()"));
    v.push(call("req.getParameter", "HttpServletRequest.getParameter()"));
    v.push(call("req.getParameterMap", "HttpServletRequest.getParameterMap()"));
    v.push(call("req.getParameterValues", "HttpServletRequest.getParameterValues()"));
    v.push(call("req.getHeader", "HttpServletRequest.getHeader()"));
    v.push(call("req.getHeaders", "HttpServletRequest.getHeaders()"));
    v.push(call("req.getQueryString", "HttpServletRequest.getQueryString()"));
    v.push(call("req.getInputStream", "HttpServletRequest.getInputStream()"));
    v.push(call("req.getReader", "HttpServletRequest.getReader()"));
    v.push(call("req.getCookies", "HttpServletRequest.getCookies()"));
    v.push(call("System.getenv", "System.getenv()"));
    let names19 = ["@RequestParam", "@RequestBody", "@PathVariable", "@RequestHeader", "@CookieValue", "@ModelAttribute"];
    assert(views(names19@) =~= seq!["@RequestParam"@, "@RequestBody"@, "@PathVariable"@, "@RequestHeader"@, "@CookieValue"@, "@ModelAttribute"@]);
    v.push(param_names(&names19, "Spring MVC annotated parameter"));
    v
}

/// Untrusted queries.
pub open spec fn sql_injection_rule() -> TaintRule {
    TaintRule {
        sources: java_sources(),
        sinks: seq![
            m_method("executeQuery"@, "executeQuery() with tainted query"@),
            m_method("execute"@, "execute() with tainted query"@),
            m_method("createQuery"@, "createQuery() with tainted query"@),
            m_method("createNativeQuery"@, "createNativeQuery() with tainted query"@),
            m_method("prepareStatement"@, "prepareStatement() with tainted query"@),
        ],
        sanitizers: Seq::empty(),
    }
}

/// Untrusted queries.
pub fn sql_injection_spec() -> (r: TaintSpec)
    ensures
        r@ == sql_injection_rule(),
{
    let mut v: Vec<NodeMatcher> = Vec::new();
    v.push(method_name("executeQuery", "executeQuery() with tainted query"));
    v.push(method_name("execute", "execute() with tainted query"));
    v.push(method_name("createQuery", "createQuery() with tainted query"));
    v.push(method_name("createNativeQuery", "createNativeQuery() with tainted query"));
    v.push(method_name("prepareStatement", "prepareStatement() with tainted query"));
    TaintSpec { sources: java_taint_sources(), sinks: v, sanitizers: Vec::new() }
}

/// Untrusted commands.
pub open spec fn command_injection_rule() -> TaintRule {
    TaintRule {
        sources: java_sources(),
        sinks: seq![
            m_call("Runtime.exec"@, "Runtime.exec() with tainted argument"@),
            m_call("ProcessBuilder"@, "ProcessBuilder() with tainted argument"@),
        ],
        sanitizers: Seq::empty(),
    }
}

/// Untrusted commands.
pub fn command_injection_spec() -> (r: TaintSpec)
    ensures
        r@ == command_injection_rule(),
{
    let mut v: Vec<NodeMatcher> = Vec::new();
    v.push(call("Runtime.exec", "Runtime.exec() with tainted argument"));
    v.push(call("ProcessBuilder", "ProcessBuilder() with tainted argument"));
    TaintSpec { sources: java_taint_sources(), sinks: v, sanitizers: Vec::new() }
}

/// Untrusted outbound addresses.
pub open spec fn ssrf_rule() -> TaintRule {
    TaintRule {
        sources: java_sources(),
        sinks: seq![
            m_call("URL"@, "URL() with tainted target"@),
            m_call("URI"@, "URI() with tainted target"@),
            m_method("getForObject"@, "RestTemplate.getForObject() with tainted URL"@),
            m_method("getForEntity"@, "RestTemplate.getForEntity() with tainted URL"@),
            m_method("postForObject"@, "RestTemplate.postForObject() with tainted URL"@),
            m_method("postForEntity"@, "RestTemplate.postForEntity() with tainted URL"@),
            m_method("exchange"@, "RestTemplate.exchange() with tainted URL"@),
        ],
        sanitizers: Seq::empty(),
    }
}

/// Untrusted outbound addresses.
pub fn ssrf_spec() -> (r: TaintSpec)
    ensures
        r@ == ssrf_rule(),
{
    let mut v: Vec<NodeMatcher> = Vec::new();
    v.push(call("URL", "URL() with tainted target"));
    v.push(call("URI", "URI() with tainted target"));
    v.push(method_name("getForObject", "RestTemplate.getForObject() with tainted URL"));
    v.push(method_name("getForEntity", "RestTemplate.getForEntity() with tainted URL"));
    v.push(method_name("postForObject", "RestTemplate.postForObject() with tainted URL"));
    v.push(method_name("postForEntity", "RestTemplate.postForEntity() with tainted URL"));
    v.push(method_name("exchange", "RestTemplate.exchange() with tainted URL"));
    TaintSpec { sources: java_taint_sources(), sinks: v, sanitizers: Vec::new() }
}

/// Untrusted serialized data.
pub open spec fn unsafe_deserialization_rule() -> TaintRule {
    TaintRule {
        sources: java_sources(),
        sinks: seq![
            m_call("ObjectInputStream"@, "ObjectInputStream() with tainted stream"@),
            m_call("XMLDecoder"@, "XMLDecoder() with tainted stream"@),
            m_method("load"@, "Yaml.load() with tainted data"@),
        ],
        sanitizers: Seq::empty(),
    }
}

/// Untrusted serialized data.
pub fn unsafe_deserialization_spec() -> (r: TaintSpec)
    ensures
        r@ == unsafe_deserialization_rule(),
{
    let mut v: Vec<NodeMatcher> = Vec::new();
    v.push(call("ObjectInputStream", "ObjectInputStream() with tainted stream"));
    v.push(call("XMLDecoder", "XMLDecoder() with tainted stream"));
    v.push(method_name("load", "Yaml.load() with tainted data"));
    TaintSpec { sources: java_taint_sources(), sinks: v, sanitizers: Vec::new() }
}

/// The taint rules for Java, each under its id.
pub open spec fn java_rules() -> Seq<(Text, TaintRule)> {
    seq![
        ("java/taint-sql-injection"@, sql_injection_rule()),
        ("java/taint-command-injection"@, command_injection_rule()),
        ("java/taint-ssrf"@, ssrf_rule()),
        ("java/taint-unsafe-deserialization"@, unsafe_deserialization_rule()),
    ]
}

/// The taint rules for Java, each under its id.
pub fn java_taint_rule_specs() -> (r: Vec<(&'static str, TaintSpec)>)
    ensures
        views(r@) == java_rules(),
{
    let mut v: Vec<(&'static str, TaintSpec)> = Vec::new();
    v.push(("java/taint-sql-injection", sql_injection_spec()));
    v.push(("java/taint-command-injection", command_injection_spec()));
    v.push(("java/taint-ssrf", ssrf_spec()));
    v.push(("java/taint-unsafe-deserialization", unsafe_deserialization_spec()));
    v
}

// ─── Reading the syntax tree ─────────────────────────────────────────────────
/// Whether node `i` is a method, a constructor or a lambda.
pub open spec fn is_java_scope(t: &SyntaxTree, i: int) -> bool {
    t.kind(i) == "method_declaration"@ || t.kind(i) == "constructor_declaration"@ || t.kind(i)
        == "lambda_expression"@
}

fn is_scope_node(node: Node<'_>) -> (r: bool)
    requires
        node.wf(),
    ensures
        r == is_java_scope(node.tree, node.index as int),
{
    node.is_kind("method_declaration") || node.is_kind("constructor_declaration") || node.is_kind(
        "lambda_expression",
    )
}

/// The node whose descendants are the body of the scope at node `f`: the scope
/// itself where it has none.
pub open spec fn java_body(t: &SyntaxTree, f: int) -> int {
    match t.field(f, "body"@) {
        Some(b) => b,
        None => match first_of_kind(t, f + 1, t.after(f), "block"@) {
            Some(b) => b,
            None => f,
        },
    }
}

pub(crate) fn find_scope_body<'a>(node: Node<'a>) -> (r: Node<'a>)
    requires
        node.wf(),
    ensures
        r.tree == node.tree,
        r.wf(),
        r.index == java_body(node.tree, node.index as int),
{
    match node.child_by_field_name("body") {
        Some(b) => b,
        None => match child_of_kind(node, "block") {
            Some(b) => b,
            None => node,
        },
    }
}

/// The name of the method that node `i` calls.
pub open spec fn method_of(t: &SyntaxTree, i: int, src: Text) -> Option<Text> {
    if t.kind(i) == "method_invocation"@ {
        t.field_text(i, "name"@, src)
    } else {
        None
    }
}

/// The text of what the method called at node `i` is called on.
pub open spec fn receiver_of(t: &SyntaxTree, i: int, src: Text) -> Option<Text> {
    if t.kind(i) == "method_invocation"@ {
        t.field_text(i, "object"@, src)
    } else {
        None
    }
}

/// The type that node `i` creates an object of.
pub open spec fn created_type(t: &SyntaxTree, i: int, src: Text) -> Option<Text> {
    if t.kind(i) == "object_creation_expression"@ {
        t.field_text(i, "type"@, src)
    } else {
        None
    }
}

/// The argument list of the call or the object creation at node `i`.
pub open spec fn arguments_of(t: &SyntaxTree, i: int) -> Option<int> {
    if t.kind(i) == "method_invocation"@ || t.kind(i) == "object_creation_expression"@ {
        t.field(i, "arguments"@)
    } else {
        None
    }
}

/// The variable or field that an assignment to node `i` sets.
pub open spec fn target_of(t: &SyntaxTree, i: int, src: Text) -> Option<Text> {
    if t.kind(i) == "identifier"@ || t.kind(i) == "field_access"@ {
        Some(t.text(i, src))
    } else {
        None
    }
}

pub(crate) fn call_method_name<'s>(node: Node<'_>, source: &'s str) -> (r: Option<&'s str>)
    requires
        node.valid(source@),
    ensures
        opt_view(r) == method_of(node.tree, node.index as int, source@),
{
    if node.is_kind("method_invocation") {
        node.field_text("name", source)
    } else {
        None
    }
}

pub(crate) fn call_receiver_text<'s>(node: Node<'_>, source: &'s str) -> (r: Option<&'s str>)
    requires
        node.valid(source@),
    ensures
        opt_view(r) == receiver_of(node.tree, node.index as int, source@),
{
    if node.is_kind("method_invocation") {
        node.field_text("object", source)
    } else {
        None
    }
}

fn object_creation_type<'s>(node: Node<'_>, source: &'s str) -> (r: Option<&'s str>)
    requires
        node.valid(source@),
    ensures
        opt_view(r) == created_type(node.tree, node.index as int, source@),
{
    if node.is_kind("object_creation_expression") {
        node.field_text("type", source)
    } else {
        None
    }
}

fn call_arguments<'a>(node: Node<'a>) -> (r: Option<Node<'a>>)
    requires
        node.wf(),
    ensures
        is_node(r, node.tree, arguments_of(node.tree, node.index as int)),
        r matches Some(n) ==> n.wf() && node.index < n.index,
{
    if node.is_kind("method_invocation") || node.is_kind("object_creation_expression") {
        node.child_by_field_name("arguments")
    } else {
        None
    }
}

pub(crate) fn assignment_target_name<'s>(node: Node<'_>, source: &'s str) -> (r: Option<&'s str>)
    requires
        node.valid(source@),
    ensures
        opt_view(r) == target_of(node.tree, node.index as int, source@),
{
    if node.is_kind("identifier") || node.is_kind("field_access") {
        Some(node.text(source))
    } else {
        None
    }
}

// ─── Parameters ──────────────────────────────────────────────────────────────
/// The parameters among the siblings `c`, `after(c)`, ... before `e`, and in the
/// parameter lists among them.
pub open spec fn params_among(t: &SyntaxTree, c: int, e: int) -> Seq<int>
    decreases gap(c, t.len()),
{
    if c >= e || c >= t.len() {
        Seq::empty()
    } else {
        let rest = params_among(t, t.after(c), e);
        if t.kind(c) == "formal_parameter"@ || t.kind(c) == "spread_parameter"@ {
            seq![c] + rest
        } else if t.kind(c) == "formal_parameters"@ || t.kind(c) == "inferred_parameters"@ {
            params_among(t, c + 1, t.after(c)) + rest
        } else {
            rest
        }
    }
}

/// The parameters of the scope at node `f`.
pub open spec fn java_params(t: &SyntaxTree, f: int) -> Seq<int> {
    match t.field(f, "parameters"@) {
        Some(p) => params_among(t, p + 1, t.after(p)),
        None => params_among(t, f + 1, t.after(f)),
    }
}

fn direct_formal_parameters<'a>(parameters: Node<'a>) -> (r: Vec<Node<'a>>)
    requires
        parameters.wf(),
    ensures
        indices(r@) == params_among(
            parameters.tree,
            parameters.index + 1,
            parameters.tree.after(parameters.index as int),
        ),
        forall|k: int|
            #![trigger r@[k]]
            0 <= k < r@.len() ==> r@[k].tree == parameters.tree && r@[k].wf(),
    decreases parameters.tree.len() - parameters.index,
{
    let ghost t = parameters.tree;
    let e: usize = parameters.end();
    let mut c: usize = parameters.index + 1;
    let mut out: Vec<Node<'a>> = Vec::new();
    let ghost all = params_among(t, c as int, e as int);
    assert(indices(out@) + all =~= all);
    while c < e
        invariant
            parameters.wf(),
            t == parameters.tree,
            parameters.index < c,
            e <= t.len(),
            indices(out@) + params_among(t, c as int, e as int) == all,
            forall|k: int|
                #![trigger out@[k]]
                0 <= k < out@.len() ==> out@[k].tree == t && out@[k].wf(),
        decreases gap(c as int, e as int),
    {
        let n = parameters.at(c);
        let ghost before = indices(out@);
        let ghost rest = params_among(t, t.after(c as int), e as int);
        if n.is_kind("formal_parameter") || n.is_kind("spread_parameter") {
            out.push(n);
            proof {
                assert(indices(out@) =~= before.push(c as int));
                assert(before.push(c as int) + rest =~= before + (seq![c as int] + rest));
            }
        } else if n.is_kind("formal_parameters") || n.is_kind("inferred_parameters") {
            let mut inner = direct_formal_parameters(n);
            let ghost here = indices(inner@);
            let ghost outer = out@;
            let ghost added = inner@;
            out.append(&mut inner);
            proof {
                assert(out@ =~= outer + added);
                assert(indices(out@) =~= before + here);
                assert(before + here + rest =~= before + (here + rest));
            }
        }
        c = n.end();
    }
    assert(indices(out@) + Seq::<int>::empty() =~= indices(out@));
    out
}

fn scope_parameter_nodes<'a>(scope: Node<'a>) -> (r: Vec<Node<'a>>)
    requires
        scope.wf(),
    ensures
        indices(r@) == java_params(scope.tree, scope.index as int),
        forall|k: int|
            #![trigger r@[k]]
            0 <= k < r@.len() ==> r@[k].tree == scope.tree && r@[k].wf(),
{
    match scope.child_by_field_name("parameters") {
        Some(p) => direct_formal_parameters(p),
        None => direct_formal_parameters(scope),
    }
}

/// The text of the last identifier among the siblings from `c` to before `e`: `found`
/// where there is none.
pub open spec fn last_identifier(
    t: &SyntaxTree,
    c: int,
    e: int,
    src: Text,
    found: Option<Text>,
) -> Option<Text>
    decreases gap(c, e),
{
    if c >= e {
        found
    } else if t.kind(c) == "identifier"@ {
        last_identifier(t, t.after(c), e, src, Some(t.text(c, src)))
    } else {
        last_identifier(t, t.after(c), e, src, found)
    }
}

/// The name of the parameter at node `i`.
pub open spec fn param_name(t: &SyntaxTree, i: int, src: Text) -> Option<Text> {
    match t.field_text(i, "name"@, src) {
        Some(name) => Some(name),
        None => last_identifier(t, i + 1, t.after(i), src, None),
    }
}

/// The name of a parameter.
pub fn formal_parameter_name<'s>(node: Node<'_>, source: &'s str) -> (r: Option<&'s str>)
    requires
        node.valid(source@),
    ensures
        opt_view(r) == param_name(node.tree, node.index as int, source@),
{
    let named = node.field_text("name", source);
    if named.is_some() {
        return named;
    }
    let e: usize = node.end();
    let mut c: usize = node.index + 1;
    let mut found: Option<&'s str> = None;
    while c < e
        invariant
            node.valid(source@),
            e <= node.tree.len(),
            param_name(node.tree, node.index as int, source@) == last_identifier(
                node.tree,
                c as int,
                e as int,
                source@,
                opt_view(found),
            ),
        decreases gap(c as int, e as int),
    {
        let n = node.at(c);
        if n.is_kind("identifier") {
            found = Some(n.text(source));
        }
        c = n.end();
    }
    found
}

/// The first of the names from `from` on that is an annotation and stands in `text`.
pub open spec fn annotation_among(names: Seq<Text>, from: int, text: Text) -> Option<Text>
    decreases names.len() - from,
{
    if from < 0 || from >= names.len() {
        None
    } else if names[from].len() > 0 && names[from][0] == '@' && has_part(text, names[from]) {
        Some(names[from])
    } else {
        annotation_among(names, from + 1, text)
    }
}

/// The first annotation that the sources from `from` on name and that stands in `text`.
pub open spec fn annotation_in(sources: Seq<Matcher>, from: int, text: Text) -> Option<Text>
    decreases sources.len() - from,
{
    if from < 0 || from >= sources.len() {
        None
    } else {
        match sources[from] {
            Matcher::ParamName { names, .. } => match annotation_among(names, 0, text) {
                Some(a) => Some(a),
                None => annotation_in(sources, from + 1, text),
            },
            _ => annotation_in(sources, from + 1, text),
        }
    }
}

/// Whether the sources name the parameter `name`, or every parameter.
pub open spec fn names_param(sources: Seq<Matcher>, name: Text) -> bool {
    exists|k: int|
        #![trigger sources[k]]
        0 <= k < sources.len() && param_named_by(sources[k], name)
}

/// Whether the source names the parameter `name`, or every parameter.
pub open spec fn param_named_by(m: Matcher, name: Text) -> bool {
    match m {
        Matcher::ParamName { names, .. } => is_wildcard(names) || (names.contains(name) && !(
        name.len() > 0 && name[0] == '@')),
        _ => false,
    }
}

fn find_annotation<'m>(names: &'m Vec<String>, text: &str) -> (r: Option<&'m str>)
    ensures
        opt_view(r) == annotation_among(views(names@), 0, text@),
{
    let mut i: usize = 0;
    while i < names.len()
        invariant
            i <= names@.len(),
            annotation_among(views(names@), 0, text@) == annotation_among(
                views(names@),
                i as int,
                text@,
            ),
        decreases names.len() - i,
    {
        assert(views(names@)[i as int] == names@[i as int]@);
        let name = names[i].as_str();
        let a = chars_of(name);
        if a.len() > 0 && a[0] == '@' && contains(text, name) {
            return Some(name);
        }
        i = i + 1;
    }
    None
}

fn matched_annotation<'m>(sources: &'m Vec<NodeMatcher>, text: &str) -> (r: Option<&'m str>)
    ensures
        opt_view(r) == annotation_in(views(sources@), 0, text@),
{
    let mut i: usize = 0;
    while i < sources.len()
        invariant
            i <= sources@.len(),
            annotation_in(views(sources@), 0, text@) == annotation_in(
                views(sources@),
                i as int,
                text@,
            ),
        decreases sources.len() - i,
    {
        assert(views(sources@)[i as int] == sources@[i as int]@);
        match &sources[i] {
            NodeMatcher::ParamName { names, .. } => {
                let hit = find_annotation(names, text);
                if hit.is_some() {
                    return hit;
                }
            },
            _ => {},
        }
        i = i + 1;
    }
    None
}

fn is_named_param(sources: &Vec<NodeMatcher>, name: &str) -> (r: bool)
    ensures
        r == names_param(views(sources@), name@),
{
    let a = chars_of(name);
    let annotated = a.len() > 0 && a[0] == '@';
    let mut i: usize = 0;
    while i < sources.len()
        invariant
            i <= sources@.len(),
            annotated == (name@.len() > 0 && name@[0] == '@'),
            forall|k: int|
                #![trigger views(sources@)[k]]
                0 <= k < i ==> !param_named_by(views(sources@)[k], name@),
        decreases sources.len() - i,
    {
        assert(views(sources@)[i as int] == sources@[i as int]@);
        match &sources[i] {
            NodeMatcher::ParamName { names, .. } => {
                if param_names_are_wildcard(names) || (has_text(names, name) && !annotated) {
                    assert(param_named_by(views(sources@)[i as int], name@));
                    return true;
                }
            },
            _ => {},
        }
        i = i + 1;
    }
    false
}

/// What makes the parameter `name` at node `i` a source: an annotation, its declared
/// type, or its name.
pub open spec fn param_source(t: &SyntaxTree, i: int, name: Text, cx: Given<'_>) -> Option<Text> {
    match annotation_in(cx.rule.sources, 0, t.text(i, cx.src)) {
        Some(a) => Some(a + " parameter '"@ + name + "'"@),
        None => match type_source(cx.rule.sources, t.field_text(i, "type"@, cx.src)) {
            Some(d) => Some(d),
            None => if names_param(cx.rule.sources, name) {
                Some("parameter '"@ + name + "'"@)
            } else {
                None
            },
        },
    }
}

/// The state `st` with those of the parameters `params[from..]` tainted that are sources.
pub open spec fn seed_params(
    t: &SyntaxTree,
    params: Seq<int>,
    from: int,
    cx: Given<'_>,
    st: Map<Text, Info>,
) -> Map<Text, Info>
    decreases params.len() - from,
{
    if from < 0 || from >= params.len() {
        st
    } else {
        let i = params[from];
        let next = match param_name(t, i, cx.src) {
            Some(name) => match param_source(t, i, name, cx) {
                Some(d) => st.insert(name, fresh(t, i, d, cx)),
                None => st,
            },
            None => st,
        };
        seed_params(t, params, from + 1, cx, next)
    }
}

fn param_source_description(node: Node<'_>, name: &str, ctx: &Context<'_>) -> (r: Option<String>)
    requires
        node.valid(ctx.source@),
    ensures
        opt_view(r) == param_source(node.tree, node.index as int, name@, ctx@),
{
    match matched_annotation(&ctx.spec.sources, node.text(ctx.source)) {
        Some(a) => {
            let mut d = concat3(a, " parameter '", name);
            crate::text::append(&mut d, "'");
            return Some(d);
        },
        None => {},
    }
    let typed = typed_source_description(ctx.spec, node.field_text("type", ctx.source));
    if typed.is_some() {
        return typed;
    }
    if is_named_param(&ctx.spec.sources, name) {
        Some(concat3("parameter '", name, "'"))
    } else {
        None
    }
}

fn collect_param_sources(scope: Node<'_>, ctx: &Context<'_>) -> (state: TaintState)
    requires
        scope.valid(ctx.source@),
    ensures
        state@ == seed_params(
            scope.tree,
            java_params(scope.tree, scope.index as int),
            0,
            ctx@,
            Map::empty(),
        ),
{
    let ghost t = scope.tree;
    let params = scope_parameter_nodes(scope);
    let ghost ps = indices(params@);
    let mut state = TaintState::new();
    let mut k: usize = 0;
    while k < params.len()
        invariant
            scope.valid(ctx.source@),
            t == scope.tree,
            ps == indices(params@),
            forall|k: int|
                #![trigger params@[k]]
                0 <= k < params@.len() ==> params@[k].tree == t && params@[k].wf(),
            k <= params@.len(),
            seed_params(t, ps, 0, ctx@, Map::empty()) == seed_params(t, ps, k as int, ctx@, state@),
        decreases params.len() - k,
    {
        let n = params[k];
        assert(ps[k as int] == n.index);
        match formal_parameter_name(n, ctx.source) {
            Some(name) => {
                match param_source_description(n, name, ctx) {
                    Some(d) => state.taint(name.to_owned(), fresh_info(n, d, ctx)),
                    None => {},
                }
            },
            None => {},
        }
        k = k + 1;
    }
    state
}

// ─── Matching calls ──────────────────────────────────────────────────────────
/// Whether a call of `method` on `receiver` is one of the canonical name: the method is
/// its last part, and the receiver holds the rest, whatever the case of its letters.
pub open spec fn is_call_of(canonical: Text, receiver: Text, method: Text) -> bool {
    let at = after_last(canonical, '.', canonical.len() as int);
    at > 0 && method == canonical.skip(at) && has_part(
        lowered(receiver),
        lowered(canonical.take(at - 1)),
    )
}

/// Whether a call of a method on a receiver is one of the canonical name.
pub fn match_java_method_canonical(canonical: &str, receiver: &str, method: &str) -> (r: bool)
    ensures
        r == is_call_of(canonical@, receiver@, method@),
{
    let a = chars_of(canonical);
    let at: usize = find_after_last(&a, '.');
    if at == 0 {
        return false;
    }
    proof {
        assert(canonical@.subrange(0, at - 1) =~= canonical@.take(at - 1));
        assert(canonical@.subrange(at as int, canonical@.len() as int) =~= canonical@.skip(
            at as int,
        ));
    }
    if !text_eq(method, canonical.substring_char(at, a.len())) {
        return false;
    }
    let want = to_ascii_lowercase(canonical.substring_char(0, at - 1));
    contains(to_ascii_lowercase(receiver).as_str(), want.as_str())
}

/// The text of the whole callee of the call at node `i`.
pub open spec fn callee_text(t: &SyntaxTree, i: int, src: Text) -> Option<Text> {
    match method_of(t, i, src) {
        Some(method) => match receiver_of(t, i, src) {
            Some(receiver) => Some(receiver + "."@ + method),
            None => Some(method),
        },
        None => None,
    }
}

fn call_full_callee_text(node: Node<'_>, source: &str) -> (r: Option<String>)
    requires
        node.valid(source@),
    ensures
        opt_view(r) == callee_text(node.tree, node.index as int, source@),
{
    match call_method_name(node, source) {
        Some(method) => match call_receiver_text(node, source) {
            Some(receiver) => Some(concat3(receiver, ".", method)),
            None => Some(method.to_owned()),
        },
        None => None,
    }
}

/// Whether the matcher is for the call or the object creation at node `i`.
pub open spec fn matches_call(m: Matcher, t: &SyntaxTree, i: int, src: Text) -> bool {
    let called = t.kind(i) == "method_invocation"@;
    match m {
        Matcher::MethodName { method, .. } => method_of(t, i, src) == Some(method),
        Matcher::Call { canonical, .. } => if called {
            match (method_of(t, i, src), receiver_of(t, i, src)) {
                (Some(method), Some(receiver)) => is_call_of(canonical, receiver, method),
                _ => false,
            }
        } else {
            created_type(t, i, src) == Some(canonical)
        },
        Matcher::MethodNameRegex { regex, .. } => match method_of(t, i, src) {
            Some(method) => regex_matches(regex, method),
            None => false,
        },
        Matcher::CallRegex { regex, .. } => match callee_text(t, i, src) {
            Some(callee) => regex_matches(regex, callee),
            None => false,
        },
        Matcher::ReceiverCall { receiver, .. } => match receiver_of(t, i, src) {
            Some(r) => first_segment(r, '.') == receiver,
            None => false,
        },
        _ => false,
    }
}

fn matcher_matches_call(matcher: &NodeMatcher, node: Node<'_>, source: &str) -> (r: bool)
    requires
        node.valid(source@),
    ensures
        r == matches_call(matcher@, node.tree, node.index as int, source@),
{
    match matcher {
        NodeMatcher::MethodName { method, .. } => match call_method_name(node, source) {
            Some(actual) => text_eq(actual, method.as_str()),
            None => false,
        },
        NodeMatcher::Call { canonical, .. } => {
            if node.is_kind("method_invocation") {
                match (call_method_name(node, source), call_receiver_text(node, source)) {
                    (Some(method), Some(receiver)) => match_java_method_canonical(
                        canonical.as_str(),
                        receiver,
                        method,
                    ),
                    _ => false,
                }
            } else {
                match object_creation_type(node, source) {
                    Some(actual) => text_eq(actual, canonical.as_str()),
                    None => false,
                }
            }
        },
        NodeMatcher::MethodNameRegex { regex, .. } => match call_method_name(node, source) {
            Some(method) => is_regex_match(regex.as_str(), method),
            None => false,
        },
        NodeMatcher::CallRegex { regex, .. } => match call_full_callee_text(node, source) {
            Some(callee) => is_regex_match(regex.as_str(), callee.as_str()),
            None => false,
        },
        NodeMatcher::ReceiverCall { receiver, .. } => match call_receiver_text(node, source) {
            Some(actual) => text_eq(before_first(actual, '.'), receiver.as_str()),
            None => false,
        },
        _ => false,
    }
}

/// Whether one of the matchers is for the call at node `i`.
pub open spec fn some_matches(ms: Seq<Matcher>, t: &SyntaxTree, i: int, src: Text) -> bool {
    exists|k: int| #![trigger ms[k]] 0 <= k < ms.len() && matches_call(ms[k], t, i, src)
}

fn is_sanitizer_call(node: Node<'_>, source: &str, spec: &TaintSpec) -> (r: bool)
    requires
        node.valid(source@),
    ensures
        r == some_matches(spec@.sanitizers, node.tree, node.index as int, source@),
{
    let ghost ms = spec@.sanitizers;
    let mut k: usize = 0;
    while k < spec.sanitizers.len()
        invariant
            node.valid(source@),
            ms == views(spec.sanitizers@),
            k <= ms.len(),
            forall|j: int|
                #![trigger ms[j]]
                0 <= j < k ==> !matches_call(ms[j], node.tree, node.index as int, source@),
        decreases spec.sanitizers.len() - k,
    {
        assert(ms[k as int] == spec.sanitizers@[k as int]@);
        if matcher_matches_call(&spec.sanitizers[k], node, source) {
            return true;
        }
        k = k + 1;
    }
    false
}

/// The description of the first of `sinks[from..]` that is for the call at node `i`.
pub open spec fn sink_at(
    sinks: Seq<Matcher>,
    from: int,
    t: &SyntaxTree,
    i: int,
    src: Text,
) -> Option<Text>
    decreases sinks.len() - from,
{
    if from < 0 || from >= sinks.len() {
        None
    } else if matches_call(sinks[from], t, i, src) {
        Some(sinks[from].description())
    } else {
        sink_at(sinks, from + 1, t, i, src)
    }
}

fn match_sink(node: Node<'_>, source: &str, spec: &TaintSpec) -> (r: Option<String>)
    requires
        node.valid(source@),
    ensures
        opt_view(r) == sink_at(spec@.sinks, 0, node.tree, node.index as int, source@),
{
    let ghost ms = spec@.sinks;
    let mut k: usize = 0;
    while k < spec.sinks.len()
        invariant
            node.valid(source@),
            ms == views(spec.sinks@),
            ms == spec@.sinks,
            k <= ms.len(),
            sink_at(ms, 0, node.tree, node.index as int, source@) == sink_at(
                ms,
                k as int,
                node.tree,
                node.index as int,
                source@,
            ),
        decreases spec.sinks.len() - k,
    {
        assert(ms[k as int] == spec.sinks@[k as int]@);
        if matcher_matches_call(&spec.sinks[k], node, source) {
            return Some(spec.sinks[k].description().to_owned());
        }
        k = k + 1;
    }
    None
}

/// The description of the first of `sources[from..]` that a call of `method` on
/// `receiver` is.
pub open spec fn call_source(
    sources: Seq<Matcher>,
    from: int,
    receiver: Text,
    method: Text,
) -> Option<Text>
    decreases sources.len() - from,
{
    if from < 0 || from >= sources.len() {
        None
    } else {
        match sources[from] {
            Matcher::Call { canonical, description } => if is_call_of(canonical, receiver, method) {
                Some(description)
            } else {
                call_source(sources, from + 1, receiver, method)
            },
            _ => call_source(sources, from + 1, receiver, method),
        }
    }
}

/// What makes the expression at node `i` a source.
pub open spec fn source_at(sources: Seq<Matcher>, t: &SyntaxTree, i: int, src: Text) -> Option<Text> {
    match (method_of(t, i, src), receiver_of(t, i, src)) {
        (Some(method), Some(receiver)) => call_source(sources, 0, receiver, method),
        _ => None,
    }
}

fn classify_source_expr(node: Node<'_>, source: &str, spec: &TaintSpec) -> (r: Option<String>)
    requires
        node.valid(source@),
    ensures
        opt_view(r) == source_at(spec@.sources, node.tree, node.index as int, source@),
{
    let method = match call_method_name(node, source) {
        Some(m) => m,
        None => {
            return None;
        },
    };
    let receiver = match call_receiver_text(node, source) {
        Some(x) => x,
        None => {
            return None;
        },
    };
    let ghost ms = spec@.sources;
    let mut k: usize = 0;
    while k < spec.sources.len()
        invariant
            ms == views(spec.sources@),
            k <= ms.len(),
            source_at(spec@.sources, node.tree, node.index as int, source@) == call_source(
                ms,
                k as int,
                receiver@,
                method@,
            ),
        decreases spec.sources.len() - k,
    {
        assert(ms[k as int] == spec.sources@[k as int]@);
        match &spec.sources[k] {
            NodeMatcher::Call { canonical, description } => {
                if match_java_method_canonical(canonical.as_str(), receiver, method) {
                    return Some(description.clone());
                }
            },
            _ => {},
        }
        k = k + 1;
    }
    None
}

// ─── Labels ──────────────────────────────────────────────────────────────────
/// Whether a receiver is the class of strings.
pub open spec fn is_string_class(receiver: Option<Text>) -> bool {
    receiver == Some("String"@) || receiver == Some("java.lang.String"@)
}

/// Whether node `i` builds a string: by `+`, by `String.format` or `String.join`, by a call
/// of `concat` or `append`, or by a new string builder.
pub open spec fn builds_string(t: &SyntaxTree, i: int, src: Text) -> bool {
    if t.kind(i) == "binary_expression"@ {
        t.field_text(i, "operator"@, src) == Some("+"@)
    } else if t.kind(i) == "method_invocation"@ {
        let m = method_of(t, i, src);
        ||| m == Some("concat"@) || m == Some("append"@)
        ||| (m == Some("format"@) || m == Some("join"@)) && is_string_class(receiver_of(t, i, src))
    } else {
        match created_type(t, i, src) {
            Some(ty) => simple_type(ty) == "StringBuilder"@ || simple_type(ty) == "StringBuffer"@,
            None => false,
        }
    }
}

fn is_string_building_node(node: Node<'_>, source: &str) -> (r: bool)
    requires
        node.valid(source@),
    ensures
        r == builds_string(node.tree, node.index as int, source@),
{
    if node.is_kind("binary_expression") {
        text_is(node.field_text("operator", source), "+")
    } else if node.is_kind("method_invocation") {
        let m = call_method_name(node, source);
        if text_is(m, "concat") || text_is(m, "append") {
            true
        } else if text_is(m, "format") || text_is(m, "join") {
            let receiver = call_receiver_text(node, source);
            text_is(receiver, "String") || text_is(receiver, "java.lang.String")
        } else {
            false
        }
    } else {
        match object_creation_type(node, source) {
            Some(ty) => {
                let name = type_final_segment(ty);
                text_eq(name, "StringBuilder") || text_eq(name, "StringBuffer")
            },
            None => false,
        }
    }
}

/// The value with the labels that the policy's relabelings give it.
pub open spec fn relabeled(info: Info, policy: Option<&LabelPolicy>) -> Info {
    match (policy, info.labels) {
        (Some(p), Some(labels)) => Info {
            labels: Some(relabel_set(labels, views(p.relabels@))),
            ..info
        },
        _ => info,
    }
}

fn apply_relabel(info: TaintInfo, policy: Option<&LabelPolicy>) -> (r: TaintInfo)
    ensures
        r@ == relabeled(info@, policy),
{
    match policy {
        None => info,
        Some(p) => match info.labels {
            Some(labels) => TaintInfo {
                description: info.description,
                line: info.line,
                hops: info.hops,
                labels: Some(relabel(labels, &p.relabels)),
            },
            None => TaintInfo {
                description: info.description,
                line: info.line,
                hops: info.hops,
                labels: None,
            },
        },
    }
}

/// The value after it has gone through node `i`.
pub open spec fn relabeled_at(t: &SyntaxTree, i: int, cx: Given<'_>, info: Info) -> Info {
    if builds_string(t, i, cx.src) {
        relabeled(info, cx.policy)
    } else {
        info
    }
}

fn relabel_through(node: Node<'_>, ctx: &Context<'_>, info: TaintInfo) -> (r: TaintInfo)
    requires
        node.valid(ctx.source@),
    ensures
        r@ == relabeled_at(node.tree, node.index as int, ctx@, info@),
{
    if ctx.policy.is_some() && is_string_building_node(node, ctx.source) {
        apply_relabel(info, ctx.policy)
    } else {
        info
    }
}

/// Whether the labels of a value meet what the policy asks at a sink.
pub open spec fn may_report(info: Info, policy: Option<&LabelPolicy>) -> bool {
    match policy {
        Some(p) => p.sink_requires.holds(
            match info.labels {
                Some(labels) => labels,
                None => Set::empty(),
            },
        ),
        None => true,
    }
}

fn labels_suffice(info: &TaintInfo, policy: Option<&LabelPolicy>) -> (r: bool)
    ensures
        r == may_report(info@, policy),
{
    match policy {
        Some(p) => match &info.labels {
            Some(labels) => p.sink_requires.eval(labels),
            None => p.sink_requires.eval(&LabelSet::new()),
        },
        None => true,
    }
}

// ─── Taint of expressions ────────────────────────────────────────────────────
/// The taint of the expression at node `i`.
pub open spec fn java_taint(t: &SyntaxTree, i: int, cx: Given<'_>, st: Map<Text, Info>) -> Option<
    Info,
>
    decreases gap(i, t.len()), 1int,
{
    match unlabeled_taint(t, i, cx, st) {
        Some(info) => Some(relabeled_at(t, i, cx, info)),
        None => None,
    }
}

/// The taint that comes into the expression at node `i`: that of a tainted variable, of
/// a source, of the receiver or the arguments of a call, or of a part. A sanitizer's
/// result is clean.
pub open spec fn unlabeled_taint(t: &SyntaxTree, i: int, cx: Given<'_>, st: Map<Text, Info>) -> Option<
    Info,
>
    decreases gap(i, t.len()), 0int,
{
    let known = lookup(st, t.text(i, cx.src));
    if !(0 <= i < t.len()) {
        None
    } else if known is Some {
        known
    } else if t.kind(i) == "identifier"@ {
        None
    } else if some_matches(cx.rule.sanitizers, t, i, cx.src) {
        None
    } else if source_at(cx.rule.sources, t, i, cx.src) is Some {
        Some(fresh(t, i, source_at(cx.rule.sources, t, i, cx.src)->0, cx))
    } else {
        let object = t.field(i, "object"@);
        let on_receiver = if t.kind(i) == "method_invocation"@ && object is Some {
            stepped(java_taint(t, object->0, cx, st))
        } else {
            None
        };
        let args = arguments_of(t, i);
        if on_receiver is Some {
            on_receiver
        } else if args is Some && java_taint(t, args->0, cx, st) is Some {
            stepped(java_taint(t, args->0, cx, st))
        } else {
            parts_taint(t, i + 1, t.after(i), cx, st)
        }
    }
}

/// The taint of the first tainted one of the siblings `c`, `after(c)`, ... before `e`.
pub open spec fn parts_taint(
    t: &SyntaxTree,
    c: int,
    e: int,
    cx: Given<'_>,
    st: Map<Text, Info>,
) -> Option<Info>
    decreases gap(c, t.len()), 2int,
{
    if !(0 <= c < t.len() && c < e) {
        None
    } else if java_taint(t, c, cx, st) is Some {
        java_taint(t, c, cx, st)
    } else {
        parts_taint(t, t.after(c), e, cx, st)
    }
}

/// The taint of an expression.
pub fn expression_taint(node: Node<'_>, ctx: &Context<'_>, state: &TaintState) -> (r: Option<
    TaintInfo,
>)
    requires
        node.valid(ctx.source@),
    ensures
        opt_view(r) == java_taint(node.tree, node.index as int, ctx@, state@),
    decreases node.tree.len() - node.index, 1int,
{
    match expression_taint_core(node, ctx, state) {
        Some(info) => Some(relabel_through(node, ctx, info)),
        None => None,
    }
}

fn expression_taint_core(node: Node<'_>, ctx: &Context<'_>, state: &TaintState) -> (r: Option<
    TaintInfo,
>)
    requires
        node.valid(ctx.source@),
    ensures
        opt_view(r) == unlabeled_taint(node.tree, node.index as int, ctx@, state@),
    decreases node.tree.len() - node.index, 0int,
{
    match state.info(node.text(ctx.source)) {
        Some(info) => {
            return Some(info.clone());
        },
        None => {},
    }
    if node.is_kind("identifier") {
        return None;
    }
    if is_sanitizer_call(node, ctx.source, ctx.spec) {
        return None;
    }
    match classify_source_expr(node, ctx.source, ctx.spec) {
        Some(d) => {
            return Some(fresh_info(node, d, ctx));
        },
        None => {},
    }
    if node.is_kind("method_invocation") {
        match node.child_by_field_name("object") {
            Some(receiver) => {
                let got = expression_taint(receiver, ctx, state);
                if got.is_some() {
                    return step(got);
                }
            },
            None => {},
        }
    }
    match call_arguments(node) {
        Some(args) => {
            let got = expression_taint(args, ctx, state);
            if got.is_some() {
                return step(got);
            }
        },
        None => {},
    }
    let e: usize = node.end();
    let mut c: usize = node.index + 1;
    while c < e
        invariant
            node.valid(ctx.source@),
            node.index < c,
            e == node.tree.after(node.index as int),
            e <= node.tree.len(),
            unlabeled_taint(node.tree, node.index as int, ctx@, state@) == parts_taint(
                node.tree,
                c as int,
                e as int,
                ctx@,
                state@,
            ),
        decreases gap(c as int, e as int),
    {
        let n = node.at(c);
        let got = expression_taint(n, ctx, state);
        if got.is_some() {
            return got;
        }
        c = n.end();
    }
    None
}

/// The taint that the arguments of the call at node `i` carry.
pub open spec fn arguments_taint(t: &SyntaxTree, i: int, cx: Given<'_>, st: Map<Text, Info>) -> Option<
    Info,
> {
    match arguments_of(t, i) {
        Some(args) => java_taint(t, args, cx, st),
        None => None,
    }
}

fn sink_argument_taint(node: Node<'_>, ctx: &Context<'_>, state: &TaintState) -> (r: Option<
    TaintInfo,
>)
    requires
        node.valid(ctx.source@),
    ensures
        opt_view(r) == arguments_taint(node.tree, node.index as int, ctx@, state@),
{
    match call_arguments(node) {
        Some(args) => expression_taint(args, ctx, state),
        None => None,
    }
}

/// What is known of the first tainted variable in the expression at node `i`.
pub open spec fn variable_taint(t: &SyntaxTree, i: int, src: Text, st: Map<Text, Info>) -> Option<
    Info,
>
    decreases gap(i, t.len()), 0int,
{
    if !(0 <= i < t.len()) {
        None
    } else if lookup(st, t.text(i, src)) is Some {
        lookup(st, t.text(i, src))
    } else {
        variables_taint(t, i + 1, t.after(i), src, st)
    }
}

/// What is known of the first tainted variable in the siblings from `c` to before `e`.
pub open spec fn variables_taint(
    t: &SyntaxTree,
    c: int,
    e: int,
    src: Text,
    st: Map<Text, Info>,
) -> Option<Info>
    decreases gap(c, t.len()), 1int,
{
    if !(0 <= c < t.len() && c < e) {
        None
    } else if variable_taint(t, c, src, st) is Some {
        variable_taint(t, c, src, st)
    } else {
        variables_taint(t, t.after(c), e, src, st)
    }
}

fn expression_taint_without_sources(node: Node<'_>, source: &str, state: &TaintState) -> (r: Option<
    TaintInfo,
>)
    requires
        node.valid(source@),
    ensures
        opt_view(r) == variable_taint(node.tree, node.index as int, source@, state@),
    decreases node.tree.len() - node.index,
{
    match state.info(node.text(source)) {
        Some(info) => {
            return Some(info.clone());
        },
        None => {},
    }
    let e: usize = node.end();
    let mut c: usize = node.index + 1;
    while c < e
        invariant
            node.valid(source@),
            node.index < c,
            e <= node.tree.len(),
            variable_taint(node.tree, node.index as int, source@, state@) == variables_taint(
                node.tree,
                c as int,
                e as int,
                source@,
                state@,
            ),
        decreases gap(c as int, e as int),
    {
        let n = node.at(c);
        let got = expression_taint_without_sources(n, source, state);
        if got.is_some() {
            return got;
        }
        c = n.end();
    }
    None
}

/// The taint of the stream that a call of `readObject` at node `i` reads.
pub open spec fn stream_taint(t: &SyntaxTree, i: int, src: Text, st: Map<Text, Info>) -> Option<
    Info,
> {
    if method_of(t, i, src) == Some("readObject"@) {
        match t.field(i, "object"@) {
            Some(k) => variable_taint(t, k, src, st),
            None => None,
        }
    } else {
        None
    }
}

fn read_object_receiver_taint(node: Node<'_>, source: &str, state: &TaintState) -> (r: Option<
    TaintInfo,
>)
    requires
        node.valid(source@),
    ensures
        opt_view(r) == stream_taint(node.tree, node.index as int, source@, state@),
{
    if text_is(call_method_name(node, source), "readObject") {
        match node.child_by_field_name("object") {
            Some(receiver) => expression_taint_without_sources(receiver, source, state),
            None => None,
        }
    } else {
        None
    }
}

// ─── Assignments ─────────────────────────────────────────────────────────────
/// The declared type of the local variable that node `i` declares.
pub open spec fn local_type(t: &SyntaxTree, i: int, src: Text) -> Option<Text> {
    match t.parent(i) {
        Some(p) => if t.kind(p) == "local_variable_declaration"@ {
            t.field_text(p, "type"@, src)
        } else {
            None
        },
        None => None,
    }
}

fn local_declarator_type<'s>(declarator: Node<'_>, source: &'s str) -> (r: Option<&'s str>)
    requires
        declarator.valid(source@),
    ensures
        opt_view(r) == local_type(declarator.tree, declarator.index as int, source@),
{
    match declarator.parent() {
        Some(p) => {
            if p.is_kind("local_variable_declaration") {
                p.field_text("type", source)
            } else {
                None
            }
        },
        None => None,
    }
}

/// The value that the declaration at node `i` gives its variable: that of the
/// initializer, or else that of a variable of a source's type.
pub open spec fn declared_value(
    t: &SyntaxTree,
    i: int,
    value: int,
    cx: Given<'_>,
    st: Map<Text, Info>,
) -> Option<Info> {
    match java_taint(t, value, cx, st) {
        Some(info) => Some(info.bumped()),
        None => match type_source(cx.rule.sources, local_type(t, i, cx.src)) {
            Some(d) => Some(fresh(t, i, d, cx)),
            None => None,
        },
    }
}

/// The value that the assignment at node `i` gives its target. A `+=` builds a string.
pub open spec fn assigned_value(
    t: &SyntaxTree,
    i: int,
    value: int,
    cx: Given<'_>,
    st: Map<Text, Info>,
) -> Option<Info> {
    match java_taint(t, value, cx, st) {
        Some(info) => if t.field_text(i, "operator"@, cx.src) == Some("+="@) {
            Some(relabeled(info, cx.policy).bumped())
        } else {
            Some(info.bumped())
        },
        None => None,
    }
}

/// The state after node `i` is read in the state `st`.
pub open spec fn java_state_after(
    t: &SyntaxTree,
    i: int,
    cx: Given<'_>,
    st: Map<Text, Info>,
) -> Map<Text, Info> {
    if t.kind(i) == "variable_declarator"@ {
        match (t.field_text(i, "name"@, cx.src), t.field(i, "value"@)) {
            (Some(name), Some(value)) => assigned(st, name, declared_value(t, i, value, cx, st)),
            _ => st,
        }
    } else if t.kind(i) == "assignment_expression"@ {
        match (t.field(i, "left"@), t.field(i, "right"@)) {
            (Some(left), Some(right)) => match target_of(t, left, cx.src) {
                Some(name) => assigned(st, name, assigned_value(t, i, right, cx, st)),
                None => st,
            },
            _ => st,
        }
    } else {
        st
    }
}

fn declare(node: Node<'_>, value: Node<'_>, ctx: &Context<'_>, state: &TaintState) -> (r: Option<
    TaintInfo,
>)
    requires
        node.valid(ctx.source@),
        value.tree == node.tree,
        value.wf(),
    ensures
        opt_view(r) == declared_value(
            node.tree,
            node.index as int,
            value.index as int,
            ctx@,
            state@,
        ),
{
    match expression_taint(value, ctx, state) {
        Some(info) => Some(bump_hops(info)),
        None => match typed_source_description(
            ctx.spec,
            local_declarator_type(node, ctx.source),
        ) {
            Some(d) => Some(fresh_info(node, d, ctx)),
            None => None,
        },
    }
}

fn assignment_value(
    node: Node<'_>,
    value: Node<'_>,
    ctx: &Context<'_>,
    state: &TaintState,
) -> (r: Option<TaintInfo>)
    requires
        node.valid(ctx.source@),
        value.tree == node.tree,
        value.wf(),
    ensures
        opt_view(r) == assigned_value(
            node.tree,
            node.index as int,
            value.index as int,
            ctx@,
            state@,
        ),
{
    match expression_taint(value, ctx, state) {
        Some(info) => {
            if text_is(node.field_text("operator", ctx.source), "+=") {
                Some(bump_hops(apply_relabel(info, ctx.policy)))
            } else {
                Some(bump_hops(info))
            }
        },
        None => None,
    }
}

fn read_assignment(node: Node<'_>, ctx: &Context<'_>, state: &mut TaintState)
    requires
        node.valid(ctx.source@),
    ensures
        final(state)@ == java_state_after(node.tree, node.index as int, ctx@, old(state)@),
{
    if node.is_kind("variable_declarator") {
        match (node.field_text("name", ctx.source), node.child_by_field_name("value")) {
            (Some(name), Some(value)) => {
                let got = declare(node, value, ctx, state);
                assign(state, name, got);
            },
            _ => {},
        }
    } else if node.is_kind("assignment_expression") {
        match (node.child_by_field_name("left"), node.child_by_field_name("right")) {
            (Some(left), Some(right)) => {
                match assignment_target_name(left, ctx.source) {
                    Some(name) => {
                        let got = assignment_value(node, right, ctx, state);
                        assign(state, name, got);
                    },
                    None => {},
                }
            },
            _ => {},
        }
    }
}

// ─── Sinks ───────────────────────────────────────────────────────────────────
/// The declared types `acc` with those added that the declarators among the siblings
/// from `c` to before `e` are of the type `ty`.
pub open spec fn declarators_typed(
    t: &SyntaxTree,
    c: int,
    e: int,
    src: Text,
    ty: Text,
    acc: Map<Text, Text>,
) -> Map<Text, Text>
    decreases gap(c, e),
{
    if c >= e {
        acc
    } else {
        let next = match t.field_text(c, "name"@, src) {
            Some(name) => if t.kind(c) == "variable_declarator"@ {
                acc.insert(name, ty)
            } else {
                acc
            },
            None => acc,
        };
        declarators_typed(t, t.after(c), e, src, ty, next)
    }
}

/// The declared types `acc` with those of the local variables added that the nodes from
/// `c` to before `e` declare.
pub open spec fn locals_typed(
    t: &SyntaxTree,
    c: int,
    e: int,
    src: Text,
    acc: Map<Text, Text>,
) -> Map<Text, Text>
    decreases gap(c, e),
{
    if c >= e {
        acc
    } else if is_java_scope(t, c) {
        locals_typed(t, t.after(c), e, src, acc)
    } else {
        let next = match t.field_text(c, "type"@, src) {
            Some(ty) => if t.kind(c) == "local_variable_declaration"@ {
                declarators_typed(t, c + 1, t.after(c), src, ty, acc)
            } else {
                acc
            },
            None => acc,
        };
        locals_typed(t, c + 1, e, src, next)
    }
}

fn type_declarators(node: Node<'_>, source: &str, ty: &str, types: &mut TextTable)
    requires
        node.valid(source@),
    ensures
        final(types)@ == declarators_typed(
            node.tree,
            node.index + 1,
            node.tree.after(node.index as int),
            source@,
            ty@,
            old(types)@,
        ),
{
    let ghost t = node.tree;
    let e: usize = node.end();
    let mut c: usize = node.index + 1;
    while c < e
        invariant
            node.valid(source@),
            t == node.tree,
            e == t.after(node.index as int),
            e <= t.len(),
            declarators_typed(t, node.index + 1, e as int, source@, ty@, old(types)@)
                == declarators_typed(t, c as int, e as int, source@, ty@, types@),
        decreases gap(c as int, e as int),
    {
        let n = node.at(c);
        if n.is_kind("variable_declarator") {
            match n.field_text("name", source) {
                Some(name) => types.insert(name, ty),
                None => {},
            }
        }
        c = n.end();
    }
}

fn collect_local_var_types(body: Node<'_>, source: &str) -> (types: TextTable)
    requires
        body.valid(source@),
    ensures
        types@ == locals_typed(
            body.tree,
            body.index + 1,
            body.tree.after(body.index as int),
            source@,
            Map::empty(),
        ),
{
    let ghost t = body.tree;
    let mut types = TextTable::new();
    let e: usize = body.end();
    let mut c: usize = body.index + 1;
    while c < e
        invariant
            body.valid(source@),
            t == body.tree,
            e == t.after(body.index as int),
            e <= t.len(),
            locals_typed(t, body.index + 1, e as int, source@, Map::empty()) == locals_typed(
                t,
                c as int,
                e as int,
                source@,
                types@,
            ),
        decreases gap(c as int, e as int),
    {
        let n = body.at(c);
        if is_scope_node(n) {
            c = n.end();
        } else {
            if n.is_kind("local_variable_declaration") {
                match n.field_text("type", source) {
                    Some(ty) => type_declarators(n, source, ty, &mut types),
                    None => {},
                }
            }
            c = c + 1;
        }
    }
    types
}

/// The description of the first of `sinks[from..]` that is an assignment to a variable
/// of the type with the simple name `name`.
pub open spec fn typed_sink(sinks: Seq<Matcher>, from: int, name: Text) -> Option<Text>
    decreases sinks.len() - from,
{
    if from < 0 || from >= sinks.len() {
        None
    } else {
        match sinks[from] {
            Matcher::TypedAssignTarget { declared, description } => if declared == name {
                Some(description)
            } else {
                typed_sink(sinks, from + 1, name)
            },
            _ => typed_sink(sinks, from + 1, name),
        }
    }
}

fn typed_assign_sink_description(spec: &TaintSpec, decl_type: &str) -> (r: Option<String>)
    ensures
        opt_view(r) == typed_sink(spec@.sinks, 0, simple_type(decl_type@)),
{
    let name = type_final_segment(decl_type);
    let ghost all = spec@.sinks;
    let mut i: usize = 0;
    while i < spec.sinks.len()
        invariant
            i <= spec.sinks@.len(),
            all == views(spec.sinks@),
            name@ == simple_type(decl_type@),
            typed_sink(spec@.sinks, 0, name@) == typed_sink(all, i as int, name@),
        decreases spec.sinks.len() - i,
    {
        assert(all[i as int] == spec.sinks@[i as int]@);
        match &spec.sinks[i] {
            NodeMatcher::TypedAssignTarget { declared, description } => {
                if text_eq(declared.as_str(), name) {
                    return Some(description.clone());
                }
            },
            _ => {},
        }
        i = i + 1;
    }
    None
}

/// The declared type of the variable that node `i` sets, and the expression that it is
/// set to. `types` holds the declared types of the local variables.
pub open spec fn typed_target(t: &SyntaxTree, i: int, src: Text, types: Map<Text, Text>) -> Option<
    (Text, int),
> {
    if t.kind(i) == "variable_declarator"@ {
        match (t.field(i, "value"@), local_type(t, i, src)) {
            (Some(value), Some(ty)) => Some((ty, value)),
            _ => None,
        }
    } else if t.kind(i) == "assignment_expression"@ {
        match (t.field(i, "left"@), t.field(i, "right"@)) {
            (Some(left), Some(right)) => match target_of(t, left, src) {
                Some(name) => if types.contains_key(name) {
                    Some((types[name], right))
                } else {
                    None
                },
                None => None,
            },
            _ => None,
        }
    } else {
        None
    }
}

/// The flow into a sink that the value `info` makes at node `i`, where its labels allow it.
pub open spec fn reported(
    t: &SyntaxTree,
    i: int,
    info: Option<Info>,
    sink: Text,
    policy: Option<&LabelPolicy>,
) -> Seq<Flow> {
    match info {
        Some(x) => if may_report(x, policy) {
            seq![flow_of_info(t, i, x, sink)]
        } else {
            Seq::empty()
        },
        None => Seq::empty(),
    }
}

/// The flow that node `i` makes by setting a variable of a type that is a sink.
pub open spec fn typed_flows(
    t: &SyntaxTree,
    i: int,
    cx: Given<'_>,
    st: Map<Text, Info>,
    types: Map<Text, Text>,
) -> Seq<Flow> {
    match typed_target(t, i, cx.src, types) {
        Some(x) => match typed_sink(cx.rule.sinks, 0, simple_type(x.0)) {
            Some(sink) => reported(t, i, java_taint(t, x.1, cx, st), sink, cx.policy),
            None => Seq::empty(),
        },
        None => Seq::empty(),
    }
}

/// The flow that the call or the object creation at node `i` makes into a sink, by its
/// arguments or by the stream that it reads.
pub open spec fn call_sink_flows(t: &SyntaxTree, i: int, cx: Given<'_>, st: Map<Text, Info>) -> Seq<
    Flow,
> {
    match sink_at(cx.rule.sinks, 0, t, i, cx.src) {
        Some(sink) => {
            let in_args = arguments_taint(t, i, cx, st);
            let info = if in_args is Some {
                in_args
            } else {
                stream_taint(t, i, cx.src, st)
            };
            reported(t, i, info, sink, cx.policy)
        },
        None => Seq::empty(),
    }
}

/// The flows that node `i` makes into sinks.
pub open spec fn flows_at(
    t: &SyntaxTree,
    i: int,
    cx: Given<'_>,
    st: Map<Text, Info>,
    types: Map<Text, Text>,
) -> Seq<Flow> {
    typed_flows(t, i, cx, st, types) + if t.kind(i) == "method_invocation"@ || t.kind(i)
        == "object_creation_expression"@ {
        call_sink_flows(t, i, cx, st)
    } else {
        Seq::empty()
    }
}

/// The flows that the nodes from `c` to before `e` make into sinks.
pub open spec fn flows_among(
    t: &SyntaxTree,
    c: int,
    e: int,
    cx: Given<'_>,
    st: Map<Text, Info>,
    types: Map<Text, Text>,
) -> Seq<Flow>
    decreases gap(c, e),
{
    if c >= e {
        Seq::empty()
    } else if is_java_scope(t, c) {
        flows_among(t, t.after(c), e, cx, st, types)
    } else {
        flows_at(t, c, cx, st, types) + flows_among(t, c + 1, e, cx, st, types)
    }
}

/// The flows into the sinks of the body at node `b`.
pub open spec fn java_sink_flows(t: &SyntaxTree, b: int, cx: Given<'_>, st: Map<Text, Info>) -> Seq<
    Flow,
> {
    let types = locals_typed(t, b + 1, t.after(b), cx.src, Map::empty());
    flows_among(t, b + 1, t.after(b), cx, st, types)
}

fn report(
    node: Node<'_>,
    info: Option<TaintInfo>,
    sink: String,
    ctx: &Context<'_>,
    out: &mut Vec<TaintFinding>,
)
    requires
        node.valid(ctx.source@),
    ensures
        views(final(out)@) == views(old(out)@) + reported(
            node.tree,
            node.index as int,
            opt_view(info),
            sink@,
            ctx.policy,
        ),
{
    let ghost before = views(out@);
    assert(before + Seq::<Flow>::empty() =~= before);
    match info {
        Some(x) => {
            if labels_suffice(&x, ctx.policy) {
                out.push(taint_finding_for_node(node, x, sink));
                assert(views(out@) =~= before + seq![views(out@).last()]);
            }
        },
        None => {},
    }
}

fn check_typed_assign_sink(
    node: Node<'_>,
    ctx: &Context<'_>,
    state: &TaintState,
    types: &TextTable,
    out: &mut Vec<TaintFinding>,
)
    requires
        node.valid(ctx.source@),
    ensures
        views(final(out)@) == views(old(out)@) + typed_flows(
            node.tree,
            node.index as int,
            ctx@,
            state@,
            types@,
        ),
{
    let ghost before = views(out@);
    assert(before + Seq::<Flow>::empty() =~= before);
    let mut target: Option<(&str, Node<'_>)> = None;
    if node.is_kind("variable_declarator") {
        match (node.child_by_field_name("value"), local_declarator_type(node, ctx.source)) {
            (Some(value), Some(ty)) => {
                target = Some((ty, value));
            },
            _ => {},
        }
    } else if node.is_kind("assignment_expression") {
        match (node.child_by_field_name("left"), node.child_by_field_name("right")) {
            (Some(left), Some(right)) => {
                match assignment_target_name(left, ctx.source) {
                    Some(name) => {
                        match types.get(name) {
                            Some(ty) => {
                                target = Some((ty, right));
                            },
                            None => {},
                        }
                    },
                    None => {},
                }
            },
            _ => {},
        }
    }
    match target {
        Some((ty, value)) => {
            match typed_assign_sink_description(ctx.spec, ty) {
                Some(sink) => {
                    let info = expression_taint(value, ctx, state);
                    report(node, info, sink, ctx, out);
                },
                None => {},
            }
        },
        None => {},
    }
}

fn check_call_sink(
    node: Node<'_>,
    ctx: &Context<'_>,
    state: &TaintState,
    out: &mut Vec<TaintFinding>,
)
    requires
        node.valid(ctx.source@),
    ensures
        views(final(out)@) == views(old(out)@) + call_sink_flows(
            node.tree,
            node.index as int,
            ctx@,
            state@,
        ),
{
    let ghost before = views(out@);
    assert(before + Seq::<Flow>::empty() =~= before);
    match match_sink(node, ctx.source, ctx.spec) {
        Some(sink) => {
            let in_args = sink_argument_taint(node, ctx, state);
            let info = if in_args.is_some() {
                in_args
            } else {
                read_object_receiver_taint(node, ctx.source, state)
            };
            report(node, info, sink, ctx, out);
        },
        None => {},
    }
}

fn has_typed_assign_sink(spec: &TaintSpec) -> (r: bool)
    ensures
        !r ==> forall|name: Text| (#[trigger] typed_sink(spec@.sinks, 0, name)) is None,
{
    let ghost all = spec@.sinks;
    let mut i: usize = 0;
    while i < spec.sinks.len()
        invariant
            i <= spec.sinks@.len(),
            all == views(spec.sinks@),
            all == spec@.sinks,
            forall|name: Text|
                #[trigger] typed_sink(spec@.sinks, 0, name) == typed_sink(all, i as int, name),
        decreases spec.sinks.len() - i,
    {
        assert(all[i as int] == spec.sinks@[i as int]@);
        let hit = match &spec.sinks[i] {
            NodeMatcher::TypedAssignTarget { .. } => true,
            _ => false,
        };
        if hit {
            return true;
        }
        i = i + 1;
    }
    false
}

fn find_sinks(body: Node<'_>, ctx: &Context<'_>, state: &TaintState) -> (out: Vec<TaintFinding>)
    requires
        body.valid(ctx.source@),
    ensures
        views(out@) == java_sink_flows(body.tree, body.index as int, ctx@, state@),
{
    let ghost t = body.tree;
    let ghost types = locals_typed(
        t,
        body.index + 1,
        t.after(body.index as int),
        ctx.source@,
        Map::empty(),
    );
    let typed = has_typed_assign_sink(ctx.spec);
    let table = if typed {
        collect_local_var_types(body, ctx.source)
    } else {
        TextTable::new()
    };
    let e: usize = body.end();
    let mut c: usize = body.index + 1;
    let mut out: Vec<TaintFinding> = Vec::new();
    let ghost all = flows_among(t, c as int, e as int, ctx@, state@, types);
    assert(views(out@) + all =~= all);
    while c < e
        invariant
            body.valid(ctx.source@),
            t == body.tree,
            e <= t.len(),
            typed ==> table@ == types,
            !typed ==> forall|name: Text| (#[trigger] typed_sink(ctx@.rule.sinks, 0, name)) is None,
            views(out@) + flows_among(t, c as int, e as int, ctx@, state@, types) == all,
        decreases gap(c as int, e as int),
    {
        let n = body.at(c);
        if is_scope_node(n) {
            c = n.end();
        } else {
            let ghost before = views(out@);
            let ghost first = typed_flows(t, c as int, ctx@, state@, types);
            if typed {
                check_typed_assign_sink(n, ctx, state, &table, &mut out);
            } else {
                assert(first =~= Seq::empty());
                assert(before + first =~= before);
            }
            let ghost middle = views(out@);
            assert(middle + Seq::<Flow>::empty() =~= middle);
            if n.is_kind("method_invocation") || n.is_kind("object_creation_expression") {
                check_call_sink(n, ctx, state, &mut out);
            }
            proof {
                let here = flows_at(t, c as int, ctx@, state@, types);
                let rest = flows_among(t, c + 1, e as int, ctx@, state@, types);
                assert(views(out@) =~= before + here);
                assert(before + here + rest =~= before + (here + rest));
            }
            c = c + 1;
        }
    }
    assert(views(out@) + Seq::<Flow>::empty() =~= views(out@));
    out
}

// ─── The language ────────────────────────────────────────────────────────────
/// Java, as a language whose scopes are read in passes.
pub struct Java;

impl ScopeLanguage for Java {
    open spec fn is_scope(t: &SyntaxTree, i: int) -> bool {
        is_java_scope(t, i)
    }

    fn scope_node(node: Node<'_>) -> (r: bool) {
        is_scope_node(node)
    }

    open spec fn body(t: &SyntaxTree, f: int) -> int {
        java_body(t, f)
    }

    fn scope_body<'a>(scope: Node<'a>) -> (r: Node<'a>) {
        find_scope_body(scope)
    }

    open spec fn entry_state(t: &SyntaxTree, f: int, cx: Given<'_>) -> Map<Text, Info> {
        seed_params(t, java_params(t, f), 0, cx, Map::empty())
    }

    fn collect_param_sources(scope: Node<'_>, ctx: &Context<'_>) -> (r: TaintState) {
        collect_param_sources(scope, ctx)
    }

    open spec fn state_after(t: &SyntaxTree, i: int, cx: Given<'_>, st: Map<Text, Info>) -> Map<
        Text,
        Info,
    > {
        java_state_after(t, i, cx, st)
    }

    fn read_node(node: Node<'_>, ctx: &Context<'_>, state: &mut TaintState) {
        read_assignment(node, ctx, state)
    }

    open spec fn reseeded(t: &SyntaxTree, b: int, cx: Given<'_>, st: Map<Text, Info>) -> Map<
        Text,
        Info,
    > {
        st
    }

    fn reseed(_body: Node<'_>, _ctx: &Context<'_>, _state: &mut TaintState) {
    }

    open spec fn receiver_call(t: &SyntaxTree, i: int, src: Text) -> Option<(Text, Text)> {
        match (t.field(i, "object"@), method_of(t, i, src)) {
            (Some(k), Some(method)) => if t.kind(k) == "identifier"@ {
                Some((t.text(k, src), method))
            } else {
                None
            },
            _ => None,
        }
    }

    fn call_on_variable<'s>(node: Node<'_>, source: &'s str) -> (r: Option<(&'s str, &'s str)>) {
        match (node.child_by_field_name("object"), call_method_name(node, source)) {
            (Some(receiver), Some(method)) => {
                if receiver.is_kind("identifier") {
                    Some((receiver.text(source), method))
                } else {
                    None
                }
            },
            _ => None,
        }
    }

    open spec fn passed_on(t: &SyntaxTree, i: int, cx: Given<'_>, st: Map<Text, Info>) -> Option<
        Info,
    > {
        match arguments_taint(t, i, cx, st) {
            Some(info) => Some(relabeled_at(t, i, cx, info)),
            None => None,
        }
    }

    fn argument_taint(node: Node<'_>, ctx: &Context<'_>, state: &TaintState) -> (r: Option<
        TaintInfo,
    >) {
        match sink_argument_taint(node, ctx, state) {
            Some(info) => Some(relabel_through(node, ctx, info)),
            None => None,
        }
    }

    open spec fn taint_of(t: &SyntaxTree, i: int, cx: Given<'_>, st: Map<Text, Info>) -> Option<
        Info,
    > {
        java_taint(t, i, cx, st)
    }

    fn expression_taint(node: Node<'_>, ctx: &Context<'_>, state: &TaintState) -> (r: Option<
        TaintInfo,
    >) {
        expression_taint(node, ctx, state)
    }

    open spec fn sink_flows(t: &SyntaxTree, b: int, cx: Given<'_>, st: Map<Text, Info>) -> Seq<
        Flow,
    > {
        java_sink_flows(t, b, cx, st)
    }

    fn find_sinks(body: Node<'_>, ctx: &Context<'_>, state: &TaintState) -> (r: Vec<TaintFinding>) {
        find_sinks(body, ctx, state)
    }
}

/// The names of those of the parameters `params[from..]` that have one.
pub open spec fn names_of(t: &SyntaxTree, params: Seq<int>, from: int, src: Text) -> Seq<Text>
    decreases params.len() - from,
{
    if from < 0 || from >= params.len() {
        Seq::empty()
    } else {
        let rest = names_of(t, params, from + 1, src);
        match param_name(t, params[from], src) {
            Some(name) => seq![name] + rest,
            None => rest,
        }
    }
}

fn method_param_names<'s>(scope: Node<'_>, source: &'s str) -> (out: Vec<&'s str>)
    requires
        scope.valid(source@),
    ensures
        views(out@) == names_of(
            scope.tree,
            java_params(scope.tree, scope.index as int),
            0,
            source@,
        ),
{
    let ghost t = scope.tree;
    let params = scope_parameter_nodes(scope);
    let ghost ps = indices(params@);
    let mut out: Vec<&'s str> = Vec::new();
    let ghost all = names_of(t, ps, 0, source@);
    assert(views(out@) + all =~= all);
    let mut k: usize = 0;
    while k < params.len()
        invariant
            scope.valid(source@),
            t == scope.tree,
            ps == indices(params@),
            forall|k: int|
                #![trigger params@[k]]
                0 <= k < params@.len() ==> params@[k].tree == t && params@[k].wf(),
            k <= params@.len(),
            views(out@) + names_of(t, ps, k as int, source@) == all,
        decreases params.len() - k,
    {
        let n = params[k];
        assert(ps[k as int] == n.index);
        let ghost before = views(out@);
        let ghost rest = names_of(t, ps, k + 1, source@);
        match formal_parameter_name(n, source) {
            Some(name) => {
                out.push(name);
                assert(before.push(name@) + rest =~= before + (seq![name@] + rest));
            },
            None => {},
        }
        k = k + 1;
    }
    assert(views(out@) + Seq::<Text>::empty() =~= views(out@));
    out
}

impl CrossFileLanguage for Java {
    open spec fn is_method(t: &SyntaxTree, i: int) -> bool {
        t.kind(i) == "method_declaration"@
    }

    fn method_node(node: Node<'_>) -> (r: bool) {
        node.is_kind("method_declaration")
    }

    open spec fn params(t: &SyntaxTree, f: int, src: Text) -> Seq<Text> {
        names_of(t, java_params(t, f), 0, src)
    }

    fn method_param_names<'s>(method: Node<'_>, source: &'s str) -> (r: Vec<&'s str>) {
        method_param_names(method, source)
    }

    open spec fn callee(t: &SyntaxTree, i: int, src: Text) -> Option<Text> {
        method_of(t, i, src)
    }

    fn callee_name<'s>(node: Node<'_>, source: &'s str) -> (r: Option<&'s str>) {
        call_method_name(node, source)
    }

    open spec fn arguments(t: &SyntaxTree, i: int) -> Option<Seq<int>> {
        match t.field(i, "arguments"@) {
            Some(args) => Some(t.named_children(args)),
            None => None,
        }
    }

    fn argument_nodes<'a>(node: Node<'a>) -> (r: Option<Vec<Node<'a>>>) {
        match node.child_by_field_name("arguments") {
            Some(args) => Some(args.named_children()),
            None => None,
        }
    }
}

/// The flows of a rule in a file.
pub fn analyze_tree(
    root: Node<'_>,
    source: &str,
    spec: &TaintSpec,
    aliases: Option<&AliasTable>,
) -> (r: Vec<TaintFinding>)
    requires
        root.valid(source@),
    ensures
        views(r@) == file_flows::<Java>(
            root.tree,
            root.index as int,
            root.tree.after(root.index as int),
            Seq::empty(),
            given(source@, spec@),
        ),
{
    let none: Vec<Propagator> = Vec::new();
    assert(views(none@) =~= Seq::<Option<Text>>::empty());
    analyze_tree_with_propagators(root, source, spec, aliases, &none)
}

/// The flows of a rule in a file, where some calls taint their receivers.
pub fn analyze_tree_with_propagators(
    root: Node<'_>,
    source: &str,
    spec: &TaintSpec,
    aliases: Option<&AliasTable>,
    propagators: &Vec<Propagator>,
) -> (r: Vec<TaintFinding>)
    requires
        root.valid(source@),
    ensures
        views(r@) == file_flows::<Java>(
            root.tree,
            root.index as int,
            root.tree.after(root.index as int),
            views(propagators@),
            given(source@, spec@),
        ),
{
    analyze_tree_labeled(root, source, spec, aliases, propagators, None)
}

/// The flows of a rule in a file, where values carry labels and a sink reports only
/// those with the labels that the policy asks for.
pub fn analyze_tree_labeled(
    root: Node<'_>,
    source: &str,
    spec: &TaintSpec,
    _aliases: Option<&AliasTable>,
    propagators: &Vec<Propagator>,
    policy: Option<&LabelPolicy>,
) -> (r: Vec<TaintFinding>)
    requires
        root.valid(source@),
    ensures
        views(r@) == file_flows::<Java>(
            root.tree,
            root.index as int,
            root.tree.after(root.index as int),
            views(propagators@),
            (Given { src: source@, rule: spec@, policy }),
        ),
{
    let ctx = Context { source, spec, policy };
    analyze_scopes::<Java>(root, &ctx, propagators)
}

/// How the methods of a file pass the taint of their parameters on, by their names: of the
/// methods of one name the last one counts.
pub fn extract_cross_file_summaries(
    root: Node<'_>,
    source: &str,
    _aliases: Option<&AliasTable>,
    rule_specs: &Vec<(&str, TaintSpec)>,
) -> (r: Vec<FunctionTaintSummary>)
    requires
        root.valid(source@),
    ensures
        views(r@) == keyed(
            summaries_in::<Java>(
                root.tree,
                root.index as int,
                root.tree.after(root.index as int),
                source@,
                views(rule_specs@),
            ),
        ),
{
    extract_summaries::<Java>(root, source, rule_specs)
}

/// The flows of a file into the sinks of its sibling files.
pub fn extract_cross_file_findings(
    root: Node<'_>,
    source: &str,
    rule_specs: &Vec<(&str, TaintSpec)>,
    cross_file: &CrossFileInfo<'_>,
) -> (r: Vec<TaintFinding>)
    requires
        root.valid(source@),
    ensures
        views(r@) == file_cross_flows::<Java>(
            root.tree,
            root.index as int,
            root.tree.after(root.index as int),
            cross_file@,
            given(source@, union_rule(views(rule_specs@))),
        ),
{
    extract_findings::<Java>(root, source, rule_specs, cross_file)
}

/// How the methods of a file pass the taint of their parameters on by their calls into
/// sibling files.
pub fn compose_cross_file_summaries(
    root: Node<'_>,
    source: &str,
    _aliases: Option<&AliasTable>,
    rule_specs: &Vec<(&str, TaintSpec)>,
    same_package_paths: &Vec<String>,
    summaries: &CrossFileSummaryMap,
    allowed_rule_ids: &Vec<String>,
) -> (r: Vec<FunctionTaintSummary>)
    requires
        root.valid(source@),
    ensures
        views(r@) == composed_in::<Java>(
            root.tree,
            root.index as int,
            root.tree.after(root.index as int),
            source@,
            views(rule_specs@),
            (Siblings {
                paths: views(same_package_paths@),
                files: summaries@,
                allowed: views(allowed_rule_ids@),
            }),
        ),
{
    let others = CrossFileInfo { same_package_paths, summaries, allowed_rule_ids };
    compose_summaries::<Java>(root, source, rule_specs, &others)
}

} // verus!
