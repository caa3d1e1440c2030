//! Taint analysis for C#, within a method and through the methods of sibling files.
use crate::common::AliasTable;
use crate::cross_file::{keyed, CrossFileSummaryMap, FunctionTaintSummary};
use crate::pattern::{is_regex_match, regex_matches};
pub use crate::scope::CrossFileInfo;
use crate::scope::{
    analyze_scopes, assign, assigned, compose_summaries, composed_in, extract_findings,
    extract_summaries, file_cross_flows, file_flows, fresh, fresh_info, given, step, stepped,
    summaries_in, type_source, typed_source_description, union_rule, Context, CrossFileLanguage,
    Given, ScopeLanguage, Siblings,
};
use crate::taint_engine::{
    attribute, bump_hops, call, flow_of_info, has_text, is_wildcard, lookup, m_attribute, m_call,
    m_method, method_name, param_names_are_wildcard, taint_finding_for_node, Flow, Info, Matcher,
    NodeMatcher, Propagator, TaintFinding, TaintInfo, TaintRule, TaintSpec, TaintState,
};
use crate::text::{
    before_first, chars_of, concat3, find_char, first_segment, lemma_first_pos, opt_view, text_eq,
    text_is, views, Text,
};
use crate::tree::{gap, indices, is_node, Node, SyntaxTree};
use vstd::prelude::*;

verus! {

broadcast use {crate::text::group_views, crate::tree::group_tree};

/// What is untrusted in C#: request data, the console, the environment and the command line.
pub open spec fn csharp_sources() -> Seq<Matcher> {
    seq![
        m_attribute("Request"@, "QueryString"@, "Request.QueryString"@),
        m_attribute("Request"@, "Form"@, "Request.Form"@),
        m_attribute("Request"@, "Params"@, "Request.Params"@),
        m_attribute("Request"@, "Cookies"@, "Request.Cookies"@),
        m_attribute("Request"@, "Headers"@, "Request.Headers"@),
        m_attribute("Request"@, "RawUrl"@, "Request.RawUrl"@),
        m_attribute("Request"@, "Url"@, "Request.Url"@),
        m_attribute("Request"@, "Path"@, "Request.Path"@),
        m_attribute("Request"@, "UserAgent"@, "Request.UserAgent"@),
        m_attribute("Request"@, "ServerVariables"@, "Request.ServerVariables"@),
        m_attribute("HttpContext"@, "Request"@, "HttpContext.Request"@),
        m_call("Console.ReadLine"@, "Console.ReadLine()"@),
        m_call("Console.Read"@, "Console.Read()"@),
        m_call("Console.ReadKey"@, "Console.ReadKey()"@),
        m_call("Environment.GetEnvironmentVariable"@, "Environment.GetEnvironmentVariable()"@),
        m_attribute("Environment"@, "GetCommandLineArgs"@, "Environment.GetCommandLineArgs()"@),
    ]
}

/// What is untrusted in C#: request data, the console, the environment and the command line.
pub fn csharp_taint_sources() -> (r: Vec<NodeMatcher>)
    ensures
        views(r@) == csharp_sources(),
{
    let mut v: Vec<NodeMatcher> = Vec::new();
    v.push(attribute("Request", "QueryString", "Request.QueryString"));
    v.push(attribute("Request", "Form", "Request.Form"));
    v.push(attribute("Request", "Params", "Request.Params"));
    v.push(attribute("Request", "Cookies", "Request.Cookies"));
    v.push(attribute("Request", "Headers", "Request.Headers"));
    v.push(attribute("Request", "RawUrl", "Request.RawUrl"));
    v.push(attribute("Request", "Url", "Request.Url"));
    v.push(attribute("Request", "Path", "Request.Path"));
    v.push(attribute("Request", "UserAgent", "Request.UserAgent"));
    v.push(attribute("Request", "ServerVariables", "Request.ServerVariables"));
    v.push(attribute("HttpContext", "Request", "HttpContext.Request"));
    v.push(call("Console.ReadLine", "Console.ReadLine()"));
    v.push(call("Console.Read", "Console.Read()"));
    v.push(call("Console.ReadKey", "Console.ReadKey()"));
    v.push(call("Environment.GetEnvironmentVariable", "Environment.GetEnvironmentVariable()"));
    v.push(attribute("Environment", "GetCommandLineArgs", "Environment.GetCommandLineArgs()"));
    v
}

/// What makes a value safe in C#.
pub open spec fn csharp_sanitizers() -> Seq<Matcher> {
    seq![
        m_call("HttpUtility.HtmlEncode"@, "HttpUtility.HtmlEncode"@),
        m_call("HttpUtility.HtmlAttributeEncode"@, "HttpUtility.HtmlAttributeEncode"@),
        m_call("HttpUtility.UrlEncode"@, "HttpUtility.UrlEncode"@),
        m_call("HtmlEncoder.Default.Encode"@, "HtmlEncoder.Default.Encode"@),
        m_method("HtmlEncode"@, "HtmlEncode"@),
        m_call("SqlParameter"@, "SqlParameter (parameterized query)"@),
        m_call("int.Parse"@, "int.Parse (numeric conversion)"@),
        m_call("Convert.ToInt32"@, "Convert.ToInt32 (numeric conversion)"@),
        m_call("Convert.ToInt64"@, "Convert.ToInt64 (numeric conversion)"@),
        m_call("Path.GetFileName"@, "Path.GetFileName (path sanitizer)"@),
        m_call("Path.GetFullPath"@, "Path.GetFullPath (path canonicalization)"@),
    ]
}

/// What makes a value safe in C#.
pub fn csharp_taint_sanitizers() -> (r: Vec<NodeMatcher>)
    ensures
        views(r@) == csharp_sanitizers(),
{
    let mut v: Vec<NodeMatcher> = Vec::new();
    v.push(call("HttpUtility.HtmlEncode", "HttpUtility.HtmlEncode"));
    v.push(call("HttpUtility.HtmlAttributeEncode", "HttpUtility.HtmlAttributeEncode"));
    v.push(call("HttpUtility.UrlEncode", "HttpUtility.UrlEncode"));
    v.push(call("HtmlEncoder.Default.Encode", "HtmlEncoder.Default.Encode"));
    v.push(method_name("HtmlEncode", "HtmlEncode"));
    v.push(call("SqlParameter", "SqlParameter (parameterized query)"));
    v.push(call("int.Parse", "int.Parse (numeric conversion)"));
    v.push(call("Convert.ToInt32", "Convert.ToInt32 (numeric conversion)"));
    v.push(call("Convert.ToInt64", "Convert.ToInt64 (numeric conversion)"));
    v.push(call("Path.GetFileName", "Path.GetFileName (path sanitizer)"));
    v.push(call("Path.GetFullPath", "Path.GetFullPath (path canonicalization)"));
    v
}

/// Untrusted queries.
pub open spec fn sql_injection_rule() -> TaintRule {
    TaintRule {
        sources: csharp_sources(),
        sinks: seq![
            m_call("SqlCommand"@, "SqlCommand() with tainted query (SQL injection)"@),
            m_call("OleDbCommand"@, "OleDbCommand() with tainted query (SQL injection)"@),
            m_call("MySqlCommand"@, "MySqlCommand() with tainted query (SQL injection)"@),
            m_method("ExecuteReader"@, "ExecuteReader() with tainted query (SQL injection)"@),
            m_method("ExecuteNonQuery"@, "ExecuteNonQuery() with tainted query (SQL injection)"@),
            m_method("ExecuteScalar"@, "ExecuteScalar() with tainted query (SQL injection)"@),
            m_method("ExecuteXmlReader"@, "ExecuteXmlReader() with tainted query (SQL injection)"@),
            m_method("FromSqlRaw"@, "FromSqlRaw() with tainted query (SQL injection)"@),
            m_method("ExecuteSqlRaw"@, "ExecuteSqlRaw() with tainted query (SQL injection)"@),
            m_method("Query"@, "Dapper.Query() with tainted SQL (SQL injection)"@),
            m_method("Execute"@, "Dapper.Execute() with tainted SQL (SQL injection)"@),
        ],
        sanitizers: csharp_sanitizers(),
    }
}

/// Untrusted queries.
pub fn sql_injection_spec() -> (r: TaintSpec)
    ensures
        r@ == sql_injection_rule(),
{
    let mut v: Vec<NodeMatcher> = Vec::new();
    v.push(call("SqlCommand", "SqlCommand() with tainted query (SQL injection)"));
    v.push(call("OleDbCommand", "OleDbCommand() with tainted query (SQL injection)"));
    v.push(call("MySqlCommand", "MySqlCommand() with tainted query (SQL injection)"));
    v.push(method_name("ExecuteReader", "ExecuteReader() with tainted query (SQL injection)"));
    v.push(method_name("ExecuteNonQuery", "ExecuteNonQuery() with tainted query (SQL injection)"));
    v.push(method_name("ExecuteScalar", "ExecuteScalar() with tainted query (SQL injection)"));
    v.push(method_name("ExecuteXmlReader", "ExecuteXmlReader() with tainted query (SQL injection)"));
    v.push(method_name("FromSqlRaw", "FromSqlRaw() with tainted query (SQL injection)"));
    v.push(method_name("ExecuteSqlRaw", "ExecuteSqlRaw() with tainted query (SQL injection)"));
    v.push(method_name("Query", "Dapper.Query() with tainted SQL (SQL injection)"));
    v.push(method_name("Execute", "Dapper.Execute() with tainted SQL (SQL injection)"));
    TaintSpec { sources: csharp_taint_sources(), sinks: v, sanitizers: csharp_taint_sanitizers() }
}

/// Untrusted commands.
pub open spec fn command_injection_rule() -> TaintRule {
    TaintRule {
        sources: csharp_sources(),
        sinks: seq![
            m_call("Process.Start"@, "Process.Start() with tainted argument (command injection)"@),
            m_call("ProcessStartInfo"@, "ProcessStartInfo() with tainted argument (command injection)"@),
            m_attribute("ProcessStartInfo"@, "Arguments"@, "ProcessStartInfo.Arguments tainted (command injection)"@),
            m_attribute("ProcessStartInfo"@, "FileName"@, "ProcessStartInfo.FileName tainted (command injection)"@),
            m_method("Start"@, "Process.Start() with tainted argument (command injection)"@),
        ],
        sanitizers: csharp_sanitizers(),
    }
}

/// Untrusted commands.
pub fn command_injection_spec() -> (r: TaintSpec)
    ensures
        r@ == command_injection_rule(),
{
    let mut v: Vec<NodeMatcher> = Vec::new();
    v.push(call("Process.Start", "Process.Start() with tainted argument (command injection)"));
    v.push(call("ProcessStartInfo", "ProcessStartInfo() with tainted argument (command injection)"));
    v.push(attribute("ProcessStartInfo", "Arguments", "ProcessStartInfo.Arguments tainted (command injection)"));
    v.push(attribute("ProcessStartInfo", "FileName", "ProcessStartInfo.FileName tainted (command injection)"));
    v.push(method_name("Start", "Process.Start() with tainted argument (command injection)"));
    TaintSpec { sources: csharp_taint_sources(), sinks: v, sanitizers: csharp_taint_sanitizers() }
}

/// Untrusted markup.
pub open spec fn xss_rule() -> TaintRule {
    TaintRule {
        sources: csharp_sources(),
        sinks: seq![
            m_call("Response.Write"@, "Response.Write() with tainted content (XSS)"@),
            m_method("Write"@, "Response.Write() with tainted content (XSS)"@),
        ],
        sanitizers: csharp_sanitizers(),
    }
}

/// Untrusted markup.
pub fn xss_spec() -> (r: TaintSpec)
    ensures
        r@ == xss_rule(),
{
    let mut v: Vec<NodeMatcher> = Vec::new();
    v.push(call("Response.Write", "Response.Write() with tainted content (XSS)"));
    v.push(method_name("Write", "Response.Write() with tainted content (XSS)"));
    TaintSpec { sources: csharp_taint_sources(), sinks: v, sanitizers: csharp_taint_sanitizers() }
}

/// Untrusted redirects.
pub open spec fn open_redirect_rule() -> TaintRule {
    TaintRule {
        sources: csharp_sources(),
        sinks: seq![
            m_call("Response.Redirect"@, "Response.Redirect() with tainted URL (open redirect)"@),
            m_method("Redirect"@, "Response.Redirect() with tainted URL (open redirect)"@),
        ],
        sanitizers: csharp_sanitizers(),
    }
}

/// Untrusted redirects.
pub fn open_redirect_spec() -> (r: TaintSpec)
    ensures
        r@ == open_redirect_rule(),
{
    let mut v: Vec<NodeMatcher> = Vec::new();
    v.push(call("Response.Redirect", "Response.Redirect() with tainted URL (open redirect)"));
    v.push(method_name("Redirect", "Response.Redirect() with tainted URL (open redirect)"));
    TaintSpec { sources: csharp_taint_sources(), sinks: v, sanitizers: csharp_taint_sanitizers() }
}

/// Untrusted XML.
pub open spec fn xxe_rule() -> TaintRule {
    TaintRule {
        sources: csharp_sources(),
        sinks: seq![
            m_call("XmlReader.Create"@, "XmlReader.Create() with tainted input (XXE)"@),
            m_method("LoadXml"@, "XmlDocument.LoadXml() with tainted input (XXE)"@),
            m_call("XmlDocument.Load"@, "XmlDocument.Load() with tainted input (XXE)"@),
            m_call("XDocument.Load"@, "XDocument.Load() with tainted input (XXE)"@),
        ],
        sanitizers: csharp_sanitizers(),
    }
}

/// Untrusted XML.
pub fn xxe_spec() -> (r: TaintSpec)
    ensures
        r@ == xxe_rule(),
{
    let mut v: Vec<NodeMatcher> = Vec::new();
    v.push(call("XmlReader.Create", "XmlReader.Create() with tainted input (XXE)"));
    v.push(method_name("LoadXml", "XmlDocument.LoadXml() with tainted input (XXE)"));
    v.push(call("XmlDocument.Load", "XmlDocument.Load() with tainted input (XXE)"));
    v.push(call("XDocument.Load", "XDocument.Load() with tainted input (XXE)"));
    TaintSpec { sources: csharp_taint_sources(), sinks: v, sanitizers: csharp_taint_sanitizers() }
}

/// Untrusted types and assemblies.
pub open spec fn unsafe_load_rule() -> TaintRule {
    TaintRule {
        sources: csharp_sources(),
        sinks: seq![
            m_call("Assembly.Load"@, "Assembly.Load() with tainted name (unsafe load)"@),
            m_call("Assembly.LoadFrom"@, "Assembly.LoadFrom() with tainted path (unsafe load)"@),
            m_call("Activator.CreateInstance"@, "Activator.CreateInstance() with tainted type (unsafe load)"@),
            m_call("Type.GetType"@, "Type.GetType() with tainted type name (reflection injection)"@),
        ],
        sanitizers: csharp_sanitizers(),
    }
}

/// Untrusted types and assemblies.
pub fn unsafe_load_spec() -> (r: TaintSpec)
    ensures
        r@ == unsafe_load_rule(),
{
    let mut v: Vec<NodeMatcher> = Vec::new();
    v.push(call("Assembly.Load", "Assembly.Load() with tainted name (unsafe load)"));
    v.push(call("Assembly.LoadFrom", "Assembly.LoadFrom() with tainted path (unsafe load)"));
    v.push(call("Activator.CreateInstance", "Activator.CreateInstance() with tainted type (unsafe load)"));
    v.push(call("Type.GetType", "Type.GetType() with tainted type name (reflection injection)"));
    TaintSpec { sources: csharp_taint_sources(), sinks: v, sanitizers: csharp_taint_sanitizers() }
}

/// The taint rules for C#, each under its id.
pub open spec fn csharp_rules() -> Seq<(Text, TaintRule)> {
    seq![
        ("csharp/taint-sql-injection"@, sql_injection_rule()),
        ("csharp/taint-command-injection"@, command_injection_rule()),
        ("csharp/taint-xss"@, xss_rule()),
        ("csharp/taint-open-redirect"@, open_redirect_rule()),
        ("csharp/taint-xxe"@, xxe_rule()),
        ("csharp/taint-unsafe-load"@, unsafe_load_rule()),
    ]
}

/// The taint rules for C#, each under its id.
pub fn csharp_taint_rule_specs() -> (r: Vec<(&'static str, TaintSpec)>)
    ensures
        views(r@) == csharp_rules(),
{
    let mut v: Vec<(&'static str, TaintSpec)> = Vec::new();
    v.push(("csharp/taint-sql-injection", sql_injection_spec()));
    v.push(("csharp/taint-command-injection", command_injection_spec()));
    v.push(("csharp/taint-xss", xss_spec()));
    v.push(("csharp/taint-open-redirect", open_redirect_spec()));
    v.push(("csharp/taint-xxe", xxe_spec()));
    v.push(("csharp/taint-unsafe-load", unsafe_load_spec()));
    v
}

// ─── Reading the syntax tree ─────────────────────────────────────────────────
/// Whether node `i` is a method, a constructor, a local function or a lambda.
pub open spec fn is_csharp_scope(t: &SyntaxTree, i: int) -> bool {
    t.kind(i) == "method_declaration"@ || t.kind(i) == "constructor_declaration"@ || t.kind(i)
        == "local_function_statement"@ || t.kind(i) == "lambda_expression"@ || t.kind(i)
        == "anonymous_method_expression"@
}

fn is_scope_node(node: Node<'_>) -> (r: bool)
    requires
        node.wf(),
    ensures
        r == is_csharp_scope(node.tree, node.index as int),
{
    node.is_kind("method_declaration") || node.is_kind("constructor_declaration") || node.is_kind(
        "local_function_statement",
    ) || node.is_kind("lambda_expression") || node.is_kind("anonymous_method_expression")
}

/// The first block or expression body among the siblings `c`, `after(c)`, ... before `e`.
pub open spec fn first_body(t: &SyntaxTree, c: int, e: int) -> Option<int>
    decreases gap(c, e),
{
    if c >= e {
        None
    } else if t.kind(c) == "block"@ || t.kind(c) == "arrow_expression_clause"@ {
        Some(c)
    } else {
        first_body(t, t.after(c), e)
    }
}

/// The node whose descendants are the body of the scope at node `f`: the scope itself
/// where it has none.
pub open spec fn csharp_body(t: &SyntaxTree, f: int) -> int {
    match t.field(f, "body"@) {
        Some(b) => b,
        None => match first_body(t, f + 1, t.after(f)) {
            Some(b) => b,
            None => f,
        },
    }
}

fn find_scope_body<'a>(node: Node<'a>) -> (r: Node<'a>)
    requires
        node.wf(),
    ensures
        r.tree == node.tree,
        r.wf(),
        r.index == csharp_body(node.tree, node.index as int),
{
    match node.child_by_field_name("body") {
        Some(b) => {
            return b;
        },
        None => {},
    }
    let e: usize = node.end();
    let mut c: usize = node.index + 1;
    while c < e
        invariant
            node.wf(),
            e == node.tree.after(node.index as int),
            e <= node.tree.len(),
            csharp_body(node.tree, node.index as int) == match first_body(
                node.tree,
                c as int,
                e as int,
            ) {
                Some(b) => b,
                None => node.index as int,
            },
        decreases gap(c as int, e as int),
    {
        let n = node.at(c);
        if n.is_kind("block") || n.is_kind("arrow_expression_clause") {
            return n;
        }
        c = n.end();
    }
    node
}

/// The last name of the callee at node `f`.
pub open spec fn last_name(t: &SyntaxTree, f: int, src: Text) -> Option<Text> {
    if t.kind(f) == "member_access_expression"@ {
        t.field_text(f, "name"@, src)
    } else if t.kind(f) == "identifier"@ {
        Some(t.text(f, src))
    } else {
        None
    }
}

fn final_name_segment<'s>(func: Node<'_>, source: &'s str) -> (r: Option<&'s str>)
    requires
        func.valid(source@),
    ensures
        opt_view(r) == last_name(func.tree, func.index as int, source@),
{
    if func.is_kind("member_access_expression") {
        func.field_text("name", source)
    } else if func.is_kind("identifier") {
        Some(func.text(source))
    } else {
        None
    }
}

/// The callee of the call at node `i`.
pub open spec fn callee_of(t: &SyntaxTree, i: int) -> Option<int> {
    if t.kind(i) == "invocation_expression"@ {
        t.field(i, "function"@)
    } else {
        None
    }
}

/// The text of the callee of the call at node `i`.
pub open spec fn callee_text(t: &SyntaxTree, i: int, src: Text) -> Option<Text> {
    match callee_of(t, i) {
        Some(f) => Some(t.text(f, src)),
        None => None,
    }
}

/// The name of the method that node `i` calls.
pub open spec fn method_of(t: &SyntaxTree, i: int, src: Text) -> Option<Text> {
    match callee_of(t, i) {
        Some(f) => last_name(t, f, src),
        None => None,
    }
}

/// The type that node `i` creates an object of.
pub open spec fn created_type(t: &SyntaxTree, i: int, src: Text) -> Option<Text> {
    if t.kind(i) == "object_creation_expression"@ {
        t.field_text(i, "type"@, src)
    } else {
        None
    }
}

/// The argument list of the call or the object creation at node `i`.
pub open spec fn arguments_of(t: &SyntaxTree, i: int) -> Option<int> {
    if t.kind(i) == "invocation_expression"@ || t.kind(i) == "object_creation_expression"@ {
        t.field(i, "arguments"@)
    } else {
        None
    }
}

/// The variable or member that an assignment to node `i` sets.
pub open spec fn target_of(t: &SyntaxTree, i: int, src: Text) -> Option<Text> {
    if t.kind(i) == "identifier"@ || t.kind(i) == "member_access_expression"@ {
        Some(t.text(i, src))
    } else {
        None
    }
}

fn call_function<'a>(node: Node<'a>) -> (r: Option<Node<'a>>)
    requires
        node.wf(),
    ensures
        is_node(r, node.tree, callee_of(node.tree, node.index as int)),
        r matches Some(n) ==> n.wf() && node.index < n.index,
{
    if node.is_kind("invocation_expression") {
        node.child_by_field_name("function")
    } else {
        None
    }
}

fn resolve_callee<'s>(node: Node<'_>, source: &'s str) -> (r: Option<&'s str>)
    requires
        node.valid(source@),
    ensures
        opt_view(r) == callee_text(node.tree, node.index as int, source@),
{
    match call_function(node) {
        Some(f) => Some(f.text(source)),
        None => None,
    }
}

fn call_method_name<'s>(node: Node<'_>, source: &'s str) -> (r: Option<&'s str>)
    requires
        node.valid(source@),
    ensures
        opt_view(r) == method_of(node.tree, node.index as int, source@),
{
    match call_function(node) {
        Some(f) => final_name_segment(f, source),
        None => None,
    }
}

fn object_creation_type<'s>(node: Node<'_>, source: &'s str) -> (r: Option<&'s str>)
    requires
        node.valid(source@),
    ensures
        opt_view(r) == created_type(node.tree, node.index as int, source@),
{
    if node.is_kind("object_creation_expression") {
        node.field_text("type", source)
    } else {
        None
    }
}

fn call_arguments<'a>(node: Node<'a>) -> (r: Option<Node<'a>>)
    requires
        node.wf(),
    ensures
        is_node(r, node.tree, arguments_of(node.tree, node.index as int)),
        r matches Some(n) ==> n.wf() && node.index < n.index,
{
    if node.is_kind("invocation_expression") || node.is_kind("object_creation_expression") {
        node.child_by_field_name("arguments")
    } else {
        None
    }
}

fn assignment_target_name<'s>(node: Node<'_>, source: &'s str) -> (r: Option<&'s str>)
    requires
        node.valid(source@),
    ensures
        opt_view(r) == target_of(node.tree, node.index as int, source@),
{
    if node.is_kind("identifier") || node.is_kind("member_access_expression") {
        Some(node.text(source))
    } else {
        None
    }
}

/// The name at the left end of the chain of member and index accesses at node `i`.
pub open spec fn leftmost(t: &SyntaxTree, i: int, src: Text) -> Option<Text>
    decreases gap(i, t.len()),
{
    if !(0 <= i < t.len()) {
        None
    } else if t.kind(i) == "identifier"@ {
        Some(t.text(i, src))
    } else if t.kind(i) == "member_access_expression"@ || t.kind(i) == "element_access_expression"@ {
        match t.field(i, "expression"@) {
            Some(k) => leftmost(t, k, src),
            None => None,
        }
    } else {
        None
    }
}

fn leftmost_receiver_name<'s>(node: Node<'_>, source: &'s str) -> (r: Option<&'s str>)
    requires
        node.valid(source@),
    ensures
        opt_view(r) == leftmost(node.tree, node.index as int, source@),
    decreases node.tree.len() - node.index,
{
    if node.is_kind("identifier") {
        Some(node.text(source))
    } else if node.is_kind("member_access_expression") || node.is_kind(
        "element_access_expression",
    ) {
        match node.child_by_field_name("expression") {
            Some(k) => leftmost_receiver_name(k, source),
            None => None,
        }
    } else {
        None
    }
}

/// The initializer of the declaration at node `i`: its last child, where there are a
/// name, a sign and more.
pub open spec fn initializer(t: &SyntaxTree, i: int) -> Option<int> {
    let all = t.children(i);
    if all.len() < 3 || t.kind(all.last()) == "="@ {
        None
    } else {
        Some(all.last())
    }
}

fn variable_declarator_value<'a>(node: Node<'a>) -> (r: Option<Node<'a>>)
    requires
        node.wf(),
    ensures
        is_node(r, node.tree, initializer(node.tree, node.index as int)),
        r matches Some(n) ==> n.wf() && node.index < n.index,
{
    let all = node.children();
    assert(indices(all@).len() == all@.len());
    if all.len() < 3 {
        return None;
    }
    let last = all[all.len() - 1];
    assert(indices(all@).last() == last.index);
    if last.is_kind("=") {
        None
    } else {
        Some(last)
    }
}

// ─── Sources ─────────────────────────────────────────────────────────────────
/// Whether the matcher is for the member access at node `i`.
pub open spec fn is_member(t: &SyntaxTree, i: int, root: Text, field: Text, src: Text) -> bool {
    t.kind(i) == "member_access_expression"@ && t.field_text(i, "expression"@, src) == Some(root)
        && t.field_text(i, "name"@, src) == Some(field)
}

fn is_member_access(node: Node<'_>, root: &str, field: &str, source: &str) -> (r: bool)
    requires
        node.valid(source@),
    ensures
        r == is_member(node.tree, node.index as int, root@, field@, source@),
{
    node.is_kind("member_access_expression") && text_is(node.field_text("expression", source), root)
        && text_is(node.field_text("name", source), field)
}

/// Whether the source is the expression at node `i` itself.
pub open spec fn source_hits(m: Matcher, t: &SyntaxTree, i: int, src: Text) -> bool {
    let member = t.kind(i) == "member_access_expression"@;
    let element = t.kind(i) == "element_access_expression"@;
    match m {
        Matcher::Attribute { root, field, .. } => is_member(t, i, root, field, src),
        Matcher::Call { canonical, .. } => callee_text(t, i, src) == Some(canonical)
            || created_type(t, i, src) == Some(canonical),
        Matcher::ParamName { names, .. } => if t.kind(i) == "identifier"@ || member || element {
            match leftmost(t, i, src) {
                Some(name) => names.contains(name),
                None => false,
            }
        } else {
            false
        },
        Matcher::FieldName { field, .. } => member && t.field_text(i, "name"@, src) == Some(field),
        Matcher::Subscript { base, .. } => element && match t.field(i, "expression"@) {
            Some(k) => base is None || last_name(t, k, src) == base,
            None => false,
        },
        _ => false,
    }
}

/// The description of the first of `sources[from..]` that the expression at node `i`
/// is. An index access is the source that its base is.
pub open spec fn csharp_source(
    sources: Seq<Matcher>,
    from: int,
    t: &SyntaxTree,
    i: int,
    src: Text,
) -> Option<Text>
    decreases gap(i, t.len()), sources.len() - from,
{
    if from < 0 || from >= sources.len() {
        None
    } else if source_hits(sources[from], t, i, src) {
        Some(sources[from].description())
    } else {
        let base = t.field(i, "expression"@);
        let inner = if 0 <= i < t.len() && sources[from] is Attribute && t.kind(i)
            == "element_access_expression"@ && base is Some {
            csharp_source(sources, 0, t, base->0, src)
        } else {
            None
        };
        if inner is Some {
            inner
        } else {
            csharp_source(sources, from + 1, t, i, src)
        }
    }
}

fn is_source(m: &NodeMatcher, node: Node<'_>, source: &str) -> (r: bool)
    requires
        node.valid(source@),
    ensures
        r == source_hits(m@, node.tree, node.index as int, source@),
{
    match m {
        NodeMatcher::Attribute { root, field, .. } => is_member_access(
            node,
            root.as_str(),
            field.as_str(),
            source,
        ),
        NodeMatcher::Call { canonical, .. } => text_is(
            resolve_callee(node, source),
            canonical.as_str(),
        ) || text_is(object_creation_type(node, source), canonical.as_str()),
        NodeMatcher::ParamName { names, .. } => {
            if node.is_kind("identifier") || node.is_kind("member_access_expression")
                || node.is_kind("element_access_expression") {
                match leftmost_receiver_name(node, source) {
                    Some(name) => has_text(names, name),
                    None => false,
                }
            } else {
                false
            }
        },
        NodeMatcher::FieldName { field, .. } => node.is_kind("member_access_expression") && text_is(
            node.field_text("name", source),
            field.as_str(),
        ),
        NodeMatcher::Subscript { base, .. } => {
            if !node.is_kind("element_access_expression") {
                return false;
            }
            match node.child_by_field_name("expression") {
                Some(k) => match base {
                    None => true,
                    Some(want) => text_is(final_name_segment(k, source), want.as_str()),
                },
                None => false,
            }
        },
        _ => false,
    }
}

/// The description of the source that an expression is.
pub fn classify_source_expr(node: Node<'_>, source: &str, spec: &TaintSpec) -> (r: Option<String>)
    requires
        node.valid(source@),
    ensures
        opt_view(r) == csharp_source(spec@.sources, 0, node.tree, node.index as int, source@),
    decreases node.tree.len() - node.index,
{
    let ghost ms = spec@.sources;
    let ghost t = node.tree;
    let ghost i = node.index as int;
    let mut k: usize = 0;
    while k < spec.sources.len()
        invariant
            node.valid(source@),
            ms == views(spec.sources@),
            ms == spec@.sources,
            t == node.tree,
            i == node.index,
            k <= ms.len(),
            csharp_source(ms, 0, t, i, source@) == csharp_source(ms, k as int, t, i, source@),
        decreases spec.sources.len() - k,
    {
        let m = &spec.sources[k];
        assert(ms[k as int] == m@);
        if is_source(m, node, source) {
            return Some(m.description().to_owned());
        }
        let read = match m {
            NodeMatcher::Attribute { .. } => true,
            _ => false,
        };
        if read && node.is_kind("element_access_expression") {
            match node.child_by_field_name("expression") {
                Some(base) => {
                    let inner = classify_source_expr(base, source, spec);
                    if inner.is_some() {
                        return inner;
                    }
                },
                None => {},
            }
        }
        k = k + 1;
    }
    None
}

// ─── Matching calls ──────────────────────────────────────────────────────────
/// Whether the matcher is for the call, the object creation or the member access at
/// node `i`.
pub open spec fn matches_call(m: Matcher, t: &SyntaxTree, i: int, src: Text) -> bool {
    match m {
        Matcher::MethodName { method, .. } => method_of(t, i, src) == Some(method),
        Matcher::Call { canonical, .. } => match callee_text(t, i, src) {
            Some(callee) => callee == canonical,
            None => created_type(t, i, src) == Some(canonical),
        },
        Matcher::ReceiverCall { receiver, .. } => match callee_text(t, i, src) {
            Some(callee) => callee.contains('.') && first_segment(callee, '.') == receiver,
            None => false,
        },
        Matcher::CallRegex { regex, .. } => match callee_text(t, i, src) {
            Some(callee) => regex_matches(regex, callee),
            None => false,
        },
        Matcher::MethodNameRegex { regex, .. } => match method_of(t, i, src) {
            Some(method) => regex_matches(regex, method),
            None => false,
        },
        Matcher::Attribute { root, field, .. } => is_member(t, i, root, field, src),
        _ => false,
    }
}

fn is_dotted(s: &str) -> (r: bool)
    ensures
        r == s@.contains('.'),
{
    let a = chars_of(s);
    let i: usize = find_char(&a, '.', 0);
    proof {
        lemma_first_pos(s@, '.', 0);
    }
    i < a.len()
}

fn matcher_matches_call(matcher: &NodeMatcher, node: Node<'_>, source: &str) -> (r: bool)
    requires
        node.valid(source@),
    ensures
        r == matches_call(matcher@, node.tree, node.index as int, source@),
{
    match matcher {
        NodeMatcher::MethodName { method, .. } => text_is(
            call_method_name(node, source),
            method.as_str(),
        ),
        NodeMatcher::Call { canonical, .. } => match resolve_callee(node, source) {
            Some(callee) => text_eq(callee, canonical.as_str()),
            None => text_is(object_creation_type(node, source), canonical.as_str()),
        },
        NodeMatcher::ReceiverCall { receiver, .. } => match resolve_callee(node, source) {
            Some(callee) => is_dotted(callee) && text_eq(
                before_first(callee, '.'),
                receiver.as_str(),
            ),
            None => false,
        },
        NodeMatcher::CallRegex { regex, .. } => match resolve_callee(node, source) {
            Some(callee) => is_regex_match(regex.as_str(), callee),
            None => false,
        },
        NodeMatcher::MethodNameRegex { regex, .. } => match call_method_name(node, source) {
            Some(method) => is_regex_match(regex.as_str(), method),
            None => false,
        },
        NodeMatcher::Attribute { root, field, .. } => is_member_access(
            node,
            root.as_str(),
            field.as_str(),
            source,
        ),
        _ => false,
    }
}

/// Whether one of the matchers is for the call at node `i`.
pub open spec fn some_matches(ms: Seq<Matcher>, t: &SyntaxTree, i: int, src: Text) -> bool {
    exists|k: int| #![trigger ms[k]] 0 <= k < ms.len() && matches_call(ms[k], t, i, src)
}

fn is_sanitizer_call(node: Node<'_>, source: &str, spec: &TaintSpec) -> (r: bool)
    requires
        node.valid(source@),
    ensures
        r == some_matches(spec@.sanitizers, node.tree, node.index as int, source@),
{
    let ghost ms = spec@.sanitizers;
    let mut k: usize = 0;
    while k < spec.sanitizers.len()
        invariant
            node.valid(source@),
            ms == views(spec.sanitizers@),
            k <= ms.len(),
            forall|j: int|
                #![trigger ms[j]]
                0 <= j < k ==> !matches_call(ms[j], node.tree, node.index as int, source@),
        decreases spec.sanitizers.len() - k,
    {
        assert(ms[k as int] == spec.sanitizers@[k as int]@);
        if matcher_matches_call(&spec.sanitizers[k], node, source) {
            return true;
        }
        k = k + 1;
    }
    false
}

/// The description of the first of `sinks[from..]` that is for the call at node `i`.
pub open spec fn sink_at(
    sinks: Seq<Matcher>,
    from: int,
    t: &SyntaxTree,
    i: int,
    src: Text,
) -> Option<Text>
    decreases sinks.len() - from,
{
    if from < 0 || from >= sinks.len() {
        None
    } else if matches_call(sinks[from], t, i, src) {
        Some(sinks[from].description())
    } else {
        sink_at(sinks, from + 1, t, i, src)
    }
}

fn match_sink(node: Node<'_>, source: &str, spec: &TaintSpec) -> (r: Option<String>)
    requires
        node.valid(source@),
    ensures
        opt_view(r) == sink_at(spec@.sinks, 0, node.tree, node.index as int, source@),
{
    let ghost ms = spec@.sinks;
    let mut k: usize = 0;
    while k < spec.sinks.len()
        invariant
            node.valid(source@),
            ms == views(spec.sinks@),
            ms == spec@.sinks,
            k <= ms.len(),
            sink_at(ms, 0, node.tree, node.index as int, source@) == sink_at(
                ms,
                k as int,
                node.tree,
                node.index as int,
                source@,
            ),
        decreases spec.sinks.len() - k,
    {
        assert(ms[k as int] == spec.sinks@[k as int]@);
        if matcher_matches_call(&spec.sinks[k], node, source) {
            return Some(spec.sinks[k].description().to_owned());
        }
        k = k + 1;
    }
    None
}

// ─── Taint of expressions ────────────────────────────────────────────────────
/// The taint of the expression at node `i`: that of a tainted variable, of a source, of
/// the base of an access, of the arguments of a call, or of a part. A sanitizer's result
/// is clean.
pub open spec fn csharp_taint(t: &SyntaxTree, i: int, cx: Given<'_>, st: Map<Text, Info>) -> Option<
    Info,
>
    decreases gap(i, t.len()), 0int,
{
    let known = lookup(st, t.text(i, cx.src));
    let found = csharp_source(cx.rule.sources, 0, t, i, cx.src);
    if !(0 <= i < t.len()) {
        None
    } else if known is Some {
        known
    } else if t.kind(i) == "identifier"@ {
        None
    } else if some_matches(cx.rule.sanitizers, t, i, cx.src) {
        None
    } else if found is Some {
        Some(fresh(t, i, found->0, cx))
    } else {
        let base = t.field(i, "expression"@);
        let args = arguments_of(t, i);
        let special = if t.kind(i) == "member_access_expression"@ || t.kind(i)
            == "element_access_expression"@ {
            if base is Some {
                stepped(csharp_taint(t, base->0, cx, st))
            } else {
                None
            }
        } else if t.kind(i) == "invocation_expression"@ {
            if args is Some {
                stepped(list_taint(t, args->0 + 1, t.after(args->0), cx, st))
            } else {
                None
            }
        } else if t.kind(i) == "binary_expression"@ {
            operand_taint(t, i + 1, t.after(i), cx, st)
        } else if t.kind(i) == "interpolated_string_expression"@ {
            interpolated_taint(t, i + 1, t.after(i), cx, st)
        } else {
            None
        };
        if special is Some {
            special
        } else {
            parts_taint(t, i + 1, t.after(i), cx, st)
        }
    }
}

/// The taint of the first tainted one of the siblings `c`, `after(c)`, ... before `e`.
pub open spec fn parts_taint(
    t: &SyntaxTree,
    c: int,
    e: int,
    cx: Given<'_>,
    st: Map<Text, Info>,
) -> Option<Info>
    decreases gap(c, t.len()), 1int,
{
    if !(0 <= c < t.len() && c < e) {
        None
    } else if csharp_taint(t, c, cx, st) is Some {
        csharp_taint(t, c, cx, st)
    } else {
        parts_taint(t, t.after(c), e, cx, st)
    }
}

/// The taint of the first tainted one of the named siblings `c`, `after(c)`, ... before `e`.
pub open spec fn operand_taint(
    t: &SyntaxTree,
    c: int,
    e: int,
    cx: Given<'_>,
    st: Map<Text, Info>,
) -> Option<Info>
    decreases gap(c, t.len()), 1int,
{
    if !(0 <= c < t.len() && c < e) {
        None
    } else if t.named(c) && csharp_taint(t, c, cx, st) is Some {
        csharp_taint(t, c, cx, st)
    } else {
        operand_taint(t, t.after(c), e, cx, st)
    }
}

/// The taint of the first tainted part of the interpolations among the siblings from
/// `c` to before `e`.
pub open spec fn interpolated_taint(
    t: &SyntaxTree,
    c: int,
    e: int,
    cx: Given<'_>,
    st: Map<Text, Info>,
) -> Option<Info>
    decreases gap(c, t.len()), 1int,
{
    if !(0 <= c < t.len() && c < e) {
        None
    } else if t.kind(c) == "interpolation"@ && parts_taint(t, c + 1, t.after(c), cx, st) is Some {
        parts_taint(t, c + 1, t.after(c), cx, st)
    } else {
        interpolated_taint(t, t.after(c), e, cx, st)
    }
}

/// The taint of the first tainted argument among the siblings from `c` to before `e`.
pub open spec fn list_taint(
    t: &SyntaxTree,
    c: int,
    e: int,
    cx: Given<'_>,
    st: Map<Text, Info>,
) -> Option<Info>
    decreases gap(c, t.len()), 1int,
{
    if !(0 <= c < t.len() && c < e) {
        None
    } else {
        let here = if t.kind(c) == "argument"@ {
            operand_taint(t, c + 1, t.after(c), cx, st)
        } else if t.named(c) {
            csharp_taint(t, c, cx, st)
        } else {
            None
        };
        if here is Some {
            here
        } else {
            list_taint(t, t.after(c), e, cx, st)
        }
    }
}

/// The taint of an expression.
pub fn expression_taint(node: Node<'_>, ctx: &Context<'_>, state: &TaintState) -> (r: Option<
    TaintInfo,
>)
    requires
        node.valid(ctx.source@),
    ensures
        opt_view(r) == csharp_taint(node.tree, node.index as int, ctx@, state@),
    decreases node.tree.len() - node.index, 1int,
{
    match state.info(node.text(ctx.source)) {
        Some(info) => {
            return Some(info.clone());
        },
        None => {},
    }
    if node.is_kind("identifier") {
        return None;
    }
    if is_sanitizer_call(node, ctx.source, ctx.spec) {
        return None;
    }
    match classify_source_expr(node, ctx.source, ctx.spec) {
        Some(d) => {
            return Some(fresh_info(node, d, ctx));
        },
        None => {},
    }
    if node.is_kind("member_access_expression") || node.is_kind("element_access_expression") {
        match node.child_by_field_name("expression") {
            Some(base) => {
                let got = expression_taint(base, ctx, state);
                if got.is_some() {
                    return step(got);
                }
            },
            None => {},
        }
    } else if node.is_kind("invocation_expression") {
        match call_arguments(node) {
            Some(args) => {
                let got = argument_list_taint(args, ctx, state);
                if got.is_some() {
                    return step(got);
                }
            },
            None => {},
        }
    } else if node.is_kind("binary_expression") {
        let got = named_part_taint(node, ctx, state);
        if got.is_some() {
            return got;
        }
    } else if node.is_kind("interpolated_string_expression") {
        let got = interpolation_taint(node, ctx, state);
        if got.is_some() {
            return got;
        }
    }
    part_taint(node, ctx, state)
}

fn part_taint(node: Node<'_>, ctx: &Context<'_>, state: &TaintState) -> (r: Option<TaintInfo>)
    requires
        node.valid(ctx.source@),
    ensures
        opt_view(r) == parts_taint(
            node.tree,
            node.index + 1,
            node.tree.after(node.index as int),
            ctx@,
            state@,
        ),
    decreases node.tree.len() - node.index, 0int,
{
    let e: usize = node.end();
    let mut c: usize = node.index + 1;
    while c < e
        invariant
            node.valid(ctx.source@),
            node.index < c,
            e == node.tree.after(node.index as int),
            e <= node.tree.len(),
            parts_taint(node.tree, node.index + 1, e as int, ctx@, state@) == parts_taint(
                node.tree,
                c as int,
                e as int,
                ctx@,
                state@,
            ),
        decreases gap(c as int, e as int),
    {
        let n = node.at(c);
        let got = expression_taint(n, ctx, state);
        if got.is_some() {
            return got;
        }
        c = n.end();
    }
    None
}

fn named_part_taint(node: Node<'_>, ctx: &Context<'_>, state: &TaintState) -> (r: Option<TaintInfo>)
    requires
        node.valid(ctx.source@),
    ensures
        opt_view(r) == operand_taint(
            node.tree,
            node.index + 1,
            node.tree.after(node.index as int),
            ctx@,
            state@,
        ),
    decreases node.tree.len() - node.index, 0int,
{
    let e: usize = node.end();
    let mut c: usize = node.index + 1;
    while c < e
        invariant
            node.valid(ctx.source@),
            node.index < c,
            e == node.tree.after(node.index as int),
            e <= node.tree.len(),
            operand_taint(node.tree, node.index + 1, e as int, ctx@, state@) == operand_taint(
                node.tree,
                c as int,
                e as int,
                ctx@,
                state@,
            ),
        decreases gap(c as int, e as int),
    {
        let n = node.at(c);
        if n.is_named() {
            let got = expression_taint(n, ctx, state);
            if got.is_some() {
                return got;
            }
        }
        c = n.end();
    }
    None
}

fn interpolation_taint(node: Node<'_>, ctx: &Context<'_>, state: &TaintState) -> (r: Option<
    TaintInfo,
>)
    requires
        node.valid(ctx.source@),
    ensures
        opt_view(r) == interpolated_taint(
            node.tree,
            node.index + 1,
            node.tree.after(node.index as int),
            ctx@,
            state@,
        ),
    decreases node.tree.len() - node.index, 0int,
{
    let e: usize = node.end();
    let mut c: usize = node.index + 1;
    while c < e
        invariant
            node.valid(ctx.source@),
            node.index < c,
            e == node.tree.after(node.index as int),
            e <= node.tree.len(),
            interpolated_taint(node.tree, node.index + 1, e as int, ctx@, state@)
                == interpolated_taint(node.tree, c as int, e as int, ctx@, state@),
        decreases gap(c as int, e as int),
    {
        let n = node.at(c);
        if n.is_kind("interpolation") {
            let got = part_taint(n, ctx, state);
            if got.is_some() {
                return got;
            }
        }
        c = n.end();
    }
    None
}

fn argument_list_taint(node: Node<'_>, ctx: &Context<'_>, state: &TaintState) -> (r: Option<
    TaintInfo,
>)
    requires
        node.valid(ctx.source@),
    ensures
        opt_view(r) == list_taint(
            node.tree,
            node.index + 1,
            node.tree.after(node.index as int),
            ctx@,
            state@,
        ),
    decreases node.tree.len() - node.index, 0int,
{
    let e: usize = node.end();
    let mut c: usize = node.index + 1;
    while c < e
        invariant
            node.valid(ctx.source@),
            node.index < c,
            e == node.tree.after(node.index as int),
            e <= node.tree.len(),
            list_taint(node.tree, node.index + 1, e as int, ctx@, state@) == list_taint(
                node.tree,
                c as int,
                e as int,
                ctx@,
                state@,
            ),
        decreases gap(c as int, e as int),
    {
        let n = node.at(c);
        if n.is_kind("argument") {
            let got = named_part_taint(n, ctx, state);
            if got.is_some() {
                return got;
            }
        } else if n.is_named() {
            let got = expression_taint(n, ctx, state);
            if got.is_some() {
                return got;
            }
        }
        c = n.end();
    }
    None
}

/// The taint that the arguments of the call at node `i` carry.
pub open spec fn arguments_taint(t: &SyntaxTree, i: int, cx: Given<'_>, st: Map<Text, Info>) -> Option<
    Info,
> {
    match arguments_of(t, i) {
        Some(args) => list_taint(t, args + 1, t.after(args), cx, st),
        None => None,
    }
}

fn sink_argument_taint(node: Node<'_>, ctx: &Context<'_>, state: &TaintState) -> (r: Option<
    TaintInfo,
>)
    requires
        node.valid(ctx.source@),
    ensures
        opt_view(r) == arguments_taint(node.tree, node.index as int, ctx@, state@),
{
    match call_arguments(node) {
        Some(args) => argument_list_taint(args, ctx, state),
        None => None,
    }
}

// ─── Parameters ──────────────────────────────────────────────────────────────
/// Those of the named siblings `c`, `after(c)`, ... before `e` that are of the given kind.
pub open spec fn named_of_kind(t: &SyntaxTree, c: int, e: int, kind: Text) -> Seq<int>
    decreases gap(c, e),
{
    if c >= e {
        Seq::empty()
    } else if t.named(c) && t.kind(c) == kind {
        seq![c] + named_of_kind(t, t.after(c), e, kind)
    } else {
        named_of_kind(t, t.after(c), e, kind)
    }
}

fn named_children_of_kind<'a>(node: Node<'a>, kind: &str) -> (out: Vec<Node<'a>>)
    requires
        node.wf(),
    ensures
        indices(out@) == named_of_kind(
            node.tree,
            node.index + 1,
            node.tree.after(node.index as int),
            kind@,
        ),
        forall|k: int|
            #![trigger out@[k]]
            0 <= k < out@.len() ==> out@[k].tree == node.tree && out@[k].wf(),
{
    let ghost t = node.tree;
    let e: usize = node.end();
    let mut c: usize = node.index + 1;
    let mut out: Vec<Node<'a>> = Vec::new();
    let ghost all = named_of_kind(t, c as int, e as int, kind@);
    assert(indices(out@) + all =~= all);
    while c < e
        invariant
            node.wf(),
            t == node.tree,
            e <= t.len(),
            indices(out@) + named_of_kind(t, c as int, e as int, kind@) == all,
            forall|k: int|
                #![trigger out@[k]]
                0 <= k < out@.len() ==> out@[k].tree == t && out@[k].wf(),
        decreases gap(c as int, e as int),
    {
        let n = node.at(c);
        if n.is_named() && n.is_kind(kind) {
            let ghost before = indices(out@);
            let ghost rest = named_of_kind(t, t.after(c as int), e as int, kind@);
            out.push(n);
            proof {
                assert(indices(out@) =~= before.push(c as int));
                assert(before.push(c as int) + rest =~= before + (seq![c as int] + rest));
            }
        }
        c = n.end();
    }
    assert(indices(out@) + Seq::<int>::empty() =~= indices(out@));
    out
}

/// The parameters of the scope at node `f`.
pub open spec fn csharp_params(t: &SyntaxTree, f: int) -> Seq<int> {
    match t.field(f, "parameters"@) {
        Some(p) => named_of_kind(t, p + 1, t.after(p), "parameter"@),
        None => Seq::empty(),
    }
}

fn scope_parameter_nodes<'a>(scope: Node<'a>) -> (r: Vec<Node<'a>>)
    requires
        scope.wf(),
    ensures
        indices(r@) == csharp_params(scope.tree, scope.index as int),
        forall|k: int|
            #![trigger r@[k]]
            0 <= k < r@.len() ==> r@[k].tree == scope.tree && r@[k].wf(),
{
    match scope.child_by_field_name("parameters") {
        Some(p) => named_children_of_kind(p, "parameter"),
        None => {
            let none: Vec<Node<'a>> = Vec::new();
            assert(indices(none@) =~= Seq::empty());
            none
        },
    }
}

/// Whether the source names the parameter `name`, or every parameter.
pub open spec fn param_named_by(m: Matcher, name: Text) -> bool {
    match m {
        Matcher::ParamName { names, .. } => is_wildcard(names) || names.contains(name),
        _ => false,
    }
}

/// Whether the sources name the parameter `name`, or every parameter.
pub open spec fn names_param(sources: Seq<Matcher>, name: Text) -> bool {
    exists|k: int|
        #![trigger sources[k]]
        0 <= k < sources.len() && param_named_by(sources[k], name)
}

fn is_named_param(sources: &Vec<NodeMatcher>, name: &str) -> (r: bool)
    ensures
        r == names_param(views(sources@), name@),
{
    let mut i: usize = 0;
    while i < sources.len()
        invariant
            i <= sources@.len(),
            forall|k: int|
                #![trigger views(sources@)[k]]
                0 <= k < i ==> !param_named_by(views(sources@)[k], name@),
        decreases sources.len() - i,
    {
        assert(views(sources@)[i as int] == sources@[i as int]@);
        match &sources[i] {
            NodeMatcher::ParamName { names, .. } => {
                if param_names_are_wildcard(names) || has_text(names, name) {
                    assert(param_named_by(views(sources@)[i as int], name@));
                    return true;
                }
            },
            _ => {},
        }
        i = i + 1;
    }
    false
}

/// The description of the last of the first `end` sources that is the first parameter of
/// any method.
pub open spec fn first_param_source(sources: Seq<Matcher>, end: int) -> Option<Text>
    decreases end,
{
    if end <= 0 || end > sources.len() {
        None
    } else {
        match sources[end - 1] {
            Matcher::FirstParamSource { description } => Some(description),
            _ => first_param_source(sources, end - 1),
        }
    }
}

fn first_param_description(sources: &Vec<NodeMatcher>) -> (r: Option<String>)
    ensures
        opt_view(r) == first_param_source(views(sources@), sources@.len() as int),
{
    let mut i: usize = sources.len();
    while i > 0
        invariant
            i <= sources@.len(),
            first_param_source(views(sources@), sources@.len() as int) == first_param_source(
                views(sources@),
                i as int,
            ),
        decreases i,
    {
        i = i - 1;
        assert(views(sources@)[i as int] == sources@[i as int]@);
        match &sources[i] {
            NodeMatcher::FirstParamSource { description } => {
                return Some(description.clone());
            },
            _ => {},
        }
    }
    None
}

/// What makes the parameter `name` at node `i` a source: its declared type, its name, or
/// that it is the first.
pub open spec fn param_source(
    t: &SyntaxTree,
    i: int,
    name: Text,
    first: bool,
    cx: Given<'_>,
) -> Option<Text> {
    match type_source(cx.rule.sources, t.field_text(i, "type"@, cx.src)) {
        Some(d) => Some(d),
        None => if names_param(cx.rule.sources, name) {
            Some("parameter '"@ + name + "'"@)
        } else if first {
            first_param_source(cx.rule.sources, cx.rule.sources.len() as int)
        } else {
            None
        },
    }
}

/// The state `st` with those of the parameters `params[from..]` tainted that are sources.
pub open spec fn seed_params(
    t: &SyntaxTree,
    params: Seq<int>,
    from: int,
    cx: Given<'_>,
    st: Map<Text, Info>,
) -> Map<Text, Info>
    decreases params.len() - from,
{
    if from < 0 || from >= params.len() {
        st
    } else {
        let i = params[from];
        let next = match t.field_text(i, "name"@, cx.src) {
            Some(name) => match param_source(t, i, name, from == 0, cx) {
                Some(d) => st.insert(name, fresh(t, i, d, cx)),
                None => st,
            },
            None => st,
        };
        seed_params(t, params, from + 1, cx, next)
    }
}

fn param_source_description(node: Node<'_>, name: &str, first: bool, ctx: &Context<'_>) -> (r:
    Option<String>)
    requires
        node.valid(ctx.source@),
    ensures
        opt_view(r) == param_source(node.tree, node.index as int, name@, first, ctx@),
{
    let typed = typed_source_description(ctx.spec, node.field_text("type", ctx.source));
    if typed.is_some() {
        return typed;
    }
    if is_named_param(&ctx.spec.sources, name) {
        Some(concat3("parameter '", name, "'"))
    } else if first {
        first_param_description(&ctx.spec.sources)
    } else {
        None
    }
}

fn collect_param_sources(scope: Node<'_>, ctx: &Context<'_>) -> (state: TaintState)
    requires
        scope.valid(ctx.source@),
    ensures
        state@ == seed_params(
            scope.tree,
            csharp_params(scope.tree, scope.index as int),
            0,
            ctx@,
            Map::empty(),
        ),
{
    let ghost t = scope.tree;
    let params = scope_parameter_nodes(scope);
    let ghost ps = indices(params@);
    let mut state = TaintState::new();
    let mut k: usize = 0;
    while k < params.len()
        invariant
            scope.valid(ctx.source@),
            t == scope.tree,
            ps == indices(params@),
            forall|k: int|
                #![trigger params@[k]]
                0 <= k < params@.len() ==> params@[k].tree == t && params@[k].wf(),
            k <= params@.len(),
            seed_params(t, ps, 0, ctx@, Map::empty()) == seed_params(t, ps, k as int, ctx@, state@),
        decreases params.len() - k,
    {
        let n = params[k];
        assert(ps[k as int] == n.index);
        match n.field_text("name", ctx.source) {
            Some(name) => {
                match param_source_description(n, name, k == 0, ctx) {
                    Some(d) => state.taint(name.to_owned(), fresh_info(n, d, ctx)),
                    None => {},
                }
            },
            None => {},
        }
        k = k + 1;
    }
    state
}

// ─── Assignments ─────────────────────────────────────────────────────────────
/// The declared type of the variable that node `i` declares.
pub open spec fn local_type(t: &SyntaxTree, i: int, src: Text) -> Option<Text> {
    match t.parent(i) {
        Some(p) => if t.kind(p) == "variable_declaration"@ {
            t.field_text(p, "type"@, src)
        } else {
            None
        },
        None => None,
    }
}

fn csharp_local_declarator_type<'s>(declarator: Node<'_>, source: &'s str) -> (r: Option<&'s str>)
    requires
        declarator.valid(source@),
    ensures
        opt_view(r) == local_type(declarator.tree, declarator.index as int, source@),
{
    match declarator.parent() {
        Some(p) => {
            if p.is_kind("variable_declaration") {
                p.field_text("type", source)
            } else {
                None
            }
        },
        None => None,
    }
}

/// The value that the declaration at node `i` gives its variable: that of the
/// initializer, or else that of a variable of a source's type.
pub open spec fn declared_value(
    t: &SyntaxTree,
    i: int,
    value: int,
    cx: Given<'_>,
    st: Map<Text, Info>,
) -> Option<Info> {
    match csharp_taint(t, value, cx, st) {
        Some(info) => Some(info.bumped()),
        None => match type_source(cx.rule.sources, local_type(t, i, cx.src)) {
            Some(d) => Some(fresh(t, i, d, cx)),
            None => None,
        },
    }
}

/// The state after node `i` is read in the state `st`.
pub open spec fn csharp_state_after(
    t: &SyntaxTree,
    i: int,
    cx: Given<'_>,
    st: Map<Text, Info>,
) -> Map<Text, Info> {
    if t.kind(i) == "variable_declarator"@ {
        match (t.field_text(i, "name"@, cx.src), initializer(t, i)) {
            (Some(name), Some(value)) => assigned(st, name, declared_value(t, i, value, cx, st)),
            _ => st,
        }
    } else if t.kind(i) == "assignment_expression"@ {
        match (t.field(i, "left"@), t.field(i, "right"@)) {
            (Some(left), Some(right)) => match target_of(t, left, cx.src) {
                Some(name) => assigned(st, name, stepped(csharp_taint(t, right, cx, st))),
                None => st,
            },
            _ => st,
        }
    } else {
        st
    }
}

fn declare(node: Node<'_>, value: Node<'_>, ctx: &Context<'_>, state: &TaintState) -> (r: Option<
    TaintInfo,
>)
    requires
        node.valid(ctx.source@),
        value.tree == node.tree,
        value.wf(),
    ensures
        opt_view(r) == declared_value(
            node.tree,
            node.index as int,
            value.index as int,
            ctx@,
            state@,
        ),
{
    match expression_taint(value, ctx, state) {
        Some(info) => Some(bump_hops(info)),
        None => match typed_source_description(
            ctx.spec,
            csharp_local_declarator_type(node, ctx.source),
        ) {
            Some(d) => Some(fresh_info(node, d, ctx)),
            None => None,
        },
    }
}

fn read_assignment(node: Node<'_>, ctx: &Context<'_>, state: &mut TaintState)
    requires
        node.valid(ctx.source@),
    ensures
        final(state)@ == csharp_state_after(node.tree, node.index as int, ctx@, old(state)@),
{
    if node.is_kind("variable_declarator") {
        match (node.field_text("name", ctx.source), variable_declarator_value(node)) {
            (Some(name), Some(value)) => {
                let got = declare(node, value, ctx, state);
                assign(state, name, got);
            },
            _ => {},
        }
    } else if node.is_kind("assignment_expression") {
        match (node.child_by_field_name("left"), node.child_by_field_name("right")) {
            (Some(left), Some(right)) => {
                match assignment_target_name(left, ctx.source) {
                    Some(name) => {
                        let got = step(expression_taint(right, ctx, state));
                        assign(state, name, got);
                    },
                    None => {},
                }
            },
            _ => {},
        }
    }
}

// ─── Sources that a call fills ───────────────────────────────────────────────
/// The `index`-th argument among the siblings `c`, `after(c)`, ... before `e`.
pub open spec fn nth_argument(t: &SyntaxTree, c: int, e: int, index: int) -> Option<int>
    decreases gap(c, e),
{
    if c >= e {
        None
    } else if t.kind(c) != "argument"@ {
        nth_argument(t, t.after(c), e, index)
    } else if index == 0 {
        Some(c)
    } else {
        nth_argument(t, t.after(c), e, index - 1)
    }
}

/// The variable that is the `index`-th argument in the list at node `args`.
pub open spec fn argument_variable(t: &SyntaxTree, args: int, index: int, src: Text) -> Option<
    Text,
> {
    match nth_argument(t, args + 1, t.after(args), index) {
        Some(a) => match t.first_named(a) {
            Some(k) => if t.kind(k) == "identifier"@ {
                Some(t.text(k, src))
            } else {
                None
            },
            None => None,
        },
        None => None,
    }
}

fn nth_argument_identifier<'s>(arg_list: Node<'_>, index: usize, source: &'s str) -> (r: Option<
    &'s str,
>)
    requires
        arg_list.valid(source@),
    ensures
        opt_view(r) == argument_variable(
            arg_list.tree,
            arg_list.index as int,
            index as int,
            source@,
        ),
{
    let ghost t = arg_list.tree;
    let e: usize = arg_list.end();
    let mut c: usize = arg_list.index + 1;
    let mut left: usize = index;
    while c < e
        invariant
            arg_list.valid(source@),
            t == arg_list.tree,
            e == t.after(arg_list.index as int),
            e <= t.len(),
            nth_argument(t, arg_list.index + 1, e as int, index as int) == nth_argument(
                t,
                c as int,
                e as int,
                left as int,
            ),
        decreases gap(c as int, e as int),
    {
        let n = arg_list.at(c);
        if n.is_kind("argument") {
            if left == 0 {
                return match n.first_named_child() {
                    Some(k) => {
                        if k.is_kind("identifier") {
                            Some(k.text(source))
                        } else {
                            None
                        }
                    },
                    None => None,
                };
            }
            left = left - 1;
        }
        c = n.end();
    }
    None
}

/// The state `st` with the variables tainted that the call at node `i` of `method` fills,
/// by the sources from `from` on.
pub open spec fn filled_by(
    t: &SyntaxTree,
    i: int,
    method: Text,
    args: int,
    sources: Seq<Matcher>,
    from: int,
    cx: Given<'_>,
    st: Map<Text, Info>,
) -> Map<Text, Info>
    decreases sources.len() - from,
{
    if from < 0 || from >= sources.len() {
        st
    } else {
        let next = match sources[from] {
            Matcher::CallArgSource { method: m, arg_index, description } => if m == method {
                match argument_variable(t, args, arg_index, cx.src) {
                    Some(name) => st.insert(name, fresh(t, i, description, cx)),
                    None => st,
                }
            } else {
                st
            },
            _ => st,
        };
        filled_by(t, i, method, args, sources, from + 1, cx, next)
    }
}

/// The state `st` with the variables tainted that the calls at the nodes from `c` to
/// before `e` fill.
pub open spec fn filled_among(
    t: &SyntaxTree,
    c: int,
    e: int,
    cx: Given<'_>,
    st: Map<Text, Info>,
) -> Map<Text, Info>
    decreases gap(c, e),
{
    if c >= e {
        st
    } else if is_csharp_scope(t, c) {
        filled_among(t, t.after(c), e, cx, st)
    } else {
        let next = match (method_of(t, c, cx.src), arguments_of(t, c)) {
            (Some(method), Some(args)) => filled_by(
                t,
                c,
                method,
                args,
                cx.rule.sources,
                0,
                cx,
                st,
            ),
            _ => st,
        };
        filled_among(t, c + 1, e, cx, next)
    }
}

fn fill(node: Node<'_>, method: &str, args: Node<'_>, ctx: &Context<'_>, state: &mut TaintState)
    requires
        node.valid(ctx.source@),
        args.tree == node.tree,
        args.wf(),
    ensures
        final(state)@ == filled_by(
            node.tree,
            node.index as int,
            method@,
            args.index as int,
            ctx@.rule.sources,
            0,
            ctx@,
            old(state)@,
        ),
{
    let ghost t = node.tree;
    let ghost i = node.index as int;
    let ghost a = args.index as int;
    let ghost ms = ctx@.rule.sources;
    let mut k: usize = 0;
    while k < ctx.spec.sources.len()
        invariant
            node.valid(ctx.source@),
            args.tree == node.tree,
            args.wf(),
            t == node.tree,
            i == node.index,
            a == args.index,
            ms == views(ctx.spec.sources@),
            k <= ms.len(),
            filled_by(t, i, method@, a, ms, 0, ctx@, old(state)@) == filled_by(
                t,
                i,
                method@,
                a,
                ms,
                k as int,
                ctx@,
                state@,
            ),
        decreases ctx.spec.sources.len() - k,
    {
        assert(ms[k as int] == ctx.spec.sources@[k as int]@);
        match &ctx.spec.sources[k] {
            NodeMatcher::CallArgSource { method: m, arg_index, description } => {
                if text_eq(m.as_str(), method) {
                    match nth_argument_identifier(args, *arg_index, ctx.source) {
                        Some(name) => state.taint(
                            name.to_owned(),
                            fresh_info(node, description.clone(), ctx),
                        ),
                        None => {},
                    }
                }
            },
            _ => {},
        }
        k = k + 1;
    }
}

fn seed_call_arg_sources(body: Node<'_>, ctx: &Context<'_>, state: &mut TaintState)
    requires
        body.valid(ctx.source@),
    ensures
        final(state)@ == filled_among(
            body.tree,
            body.index + 1,
            body.tree.after(body.index as int),
            ctx@,
            old(state)@,
        ),
{
    let ghost t = body.tree;
    let e: usize = body.end();
    let mut c: usize = body.index + 1;
    while c < e
        invariant
            body.valid(ctx.source@),
            t == body.tree,
            e == t.after(body.index as int),
            e <= t.len(),
            filled_among(t, body.index + 1, e as int, ctx@, old(state)@) == filled_among(
                t,
                c as int,
                e as int,
                ctx@,
                state@,
            ),
        decreases gap(c as int, e as int),
    {
        let n = body.at(c);
        if is_scope_node(n) {
            c = n.end();
        } else {
            match (call_method_name(n, ctx.source), call_arguments(n)) {
                (Some(method), Some(args)) => fill(n, method, args, ctx, state),
                _ => {},
            }
            c = c + 1;
        }
    }
}

// ─── Sinks ───────────────────────────────────────────────────────────────────
/// Whether node `i` is a concatenation with `+`.
pub open spec fn is_concat(t: &SyntaxTree, i: int, src: Text) -> bool {
    t.kind(i) == "binary_expression"@ && t.field_text(i, "operator"@, src) == Some("+"@)
}

fn is_string_concat(node: Node<'_>, source: &str) -> (r: bool)
    requires
        node.valid(source@),
    ensures
        r == is_concat(node.tree, node.index as int, source@),
{
    node.is_kind("binary_expression") && text_is(node.field_text("operator", source), "+")
}

/// The taint of the first tainted concatenation among the arguments from `c` to before `e`.
pub open spec fn concat_taint(
    t: &SyntaxTree,
    c: int,
    e: int,
    cx: Given<'_>,
    st: Map<Text, Info>,
) -> Option<Info>
    decreases gap(c, e),
{
    if c >= e {
        None
    } else {
        let here = match t.first_named(c) {
            Some(k) => if t.kind(c) == "argument"@ && is_concat(t, k, cx.src) {
                csharp_taint(t, k, cx, st)
            } else {
                None
            },
            None => None,
        };
        if here is Some {
            here
        } else {
            concat_taint(t, t.after(c), e, cx, st)
        }
    }
}

/// The taint of the first tainted concatenation that the call at node `i` is passed.
pub open spec fn concat_argument_taint(
    t: &SyntaxTree,
    i: int,
    cx: Given<'_>,
    st: Map<Text, Info>,
) -> Option<Info> {
    match arguments_of(t, i) {
        Some(args) => concat_taint(t, args + 1, t.after(args), cx, st),
        None => None,
    }
}

fn concat_arg_taint(node: Node<'_>, ctx: &Context<'_>, state: &TaintState) -> (r: Option<TaintInfo>)
    requires
        node.valid(ctx.source@),
    ensures
        opt_view(r) == concat_argument_taint(node.tree, node.index as int, ctx@, state@),
{
    let args = match call_arguments(node) {
        Some(args) => args,
        None => {
            return None;
        },
    };
    let ghost t = node.tree;
    let e: usize = args.end();
    let mut c: usize = args.index + 1;
    while c < e
        invariant
            node.valid(ctx.source@),
            args.tree == node.tree,
            t == node.tree,
            e <= t.len(),
            concat_argument_taint(t, node.index as int, ctx@, state@) == concat_taint(
                t,
                c as int,
                e as int,
                ctx@,
                state@,
            ),
        decreases gap(c as int, e as int),
    {
        let n = args.at(c);
        if n.is_kind("argument") {
            match n.first_named_child() {
                Some(k) => {
                    if is_string_concat(k, ctx.source) {
                        let got = expression_taint(k, ctx, state);
                        if got.is_some() {
                            return got;
                        }
                    }
                },
                None => {},
            }
        }
        c = n.end();
    }
    None
}

/// The description of the first of `sinks[from..]` that is a concatenation in a call of
/// the method.
pub open spec fn concat_sink(sinks: Seq<Matcher>, from: int, method: Option<Text>) -> Option<Text>
    decreases sinks.len() - from,
{
    if from < 0 || from >= sinks.len() {
        None
    } else {
        match sinks[from] {
            Matcher::CallArgConcat { method: m, description } => if method == Some(m) {
                Some(description)
            } else {
                concat_sink(sinks, from + 1, method)
            },
            _ => concat_sink(sinks, from + 1, method),
        }
    }
}

fn match_concat_sink(sinks: &Vec<NodeMatcher>, method: Option<&str>) -> (r: Option<String>)
    ensures
        opt_view(r) == concat_sink(views(sinks@), 0, opt_view(method)),
{
    let ghost ms = views(sinks@);
    let mut k: usize = 0;
    while k < sinks.len()
        invariant
            ms == views(sinks@),
            k <= ms.len(),
            concat_sink(ms, 0, opt_view(method)) == concat_sink(ms, k as int, opt_view(method)),
        decreases sinks.len() - k,
    {
        assert(ms[k as int] == sinks@[k as int]@);
        match &sinks[k] {
            NodeMatcher::CallArgConcat { method: m, description } => {
                if text_is(method, m.as_str()) {
                    return Some(description.clone());
                }
            },
            _ => {},
        }
        k = k + 1;
    }
    None
}

/// The flow that the call or the object creation at node `i` makes into a sink: by a
/// concatenation that it is passed, or else by any argument.
pub open spec fn call_sink_flow(t: &SyntaxTree, i: int, cx: Given<'_>, st: Map<Text, Info>) -> Option<
    Flow,
> {
    let built = concat_sink(cx.rule.sinks, 0, method_of(t, i, cx.src));
    let in_concat = concat_argument_taint(t, i, cx, st);
    if built is Some && in_concat is Some {
        Some(flow_of_info(t, i, in_concat->0, built->0))
    } else {
        match (sink_at(cx.rule.sinks, 0, t, i, cx.src), arguments_taint(t, i, cx, st)) {
            (Some(sink), Some(info)) => Some(flow_of_info(t, i, info, sink)),
            _ => None,
        }
    }
}

/// The flows that the nodes from `c` to before `e` make into sinks.
pub open spec fn flows_among(
    t: &SyntaxTree,
    c: int,
    e: int,
    cx: Given<'_>,
    st: Map<Text, Info>,
) -> Seq<Flow>
    decreases gap(c, e),
{
    if c >= e {
        Seq::empty()
    } else if is_csharp_scope(t, c) {
        flows_among(t, t.after(c), e, cx, st)
    } else {
        let rest = flows_among(t, c + 1, e, cx, st);
        let call = t.kind(c) == "invocation_expression"@ || t.kind(c)
            == "object_creation_expression"@;
        match call_sink_flow(t, c, cx, st) {
            Some(flow) => if call {
                seq![flow] + rest
            } else {
                rest
            },
            None => rest,
        }
    }
}

/// The flows into the sinks of the body at node `b`.
pub open spec fn csharp_sink_flows(
    t: &SyntaxTree,
    b: int,
    cx: Given<'_>,
    st: Map<Text, Info>,
) -> Seq<Flow> {
    flows_among(t, b + 1, t.after(b), cx, st)
}

fn check_call_sink(node: Node<'_>, ctx: &Context<'_>, state: &TaintState) -> (r: Option<
    TaintFinding,
>)
    requires
        node.valid(ctx.source@),
    ensures
        opt_view(r) == call_sink_flow(node.tree, node.index as int, ctx@, state@),
{
    match match_concat_sink(&ctx.spec.sinks, call_method_name(node, ctx.source)) {
        Some(sink) => {
            match concat_arg_taint(node, ctx, state) {
                Some(info) => {
                    return Some(taint_finding_for_node(node, info, sink));
                },
                None => {},
            }
        },
        None => {},
    }
    match match_sink(node, ctx.source, ctx.spec) {
        Some(sink) => {
            match sink_argument_taint(node, ctx, state) {
                Some(info) => Some(taint_finding_for_node(node, info, sink)),
                None => None,
            }
        },
        None => None,
    }
}

fn find_sinks(body: Node<'_>, ctx: &Context<'_>, state: &TaintState) -> (out: Vec<TaintFinding>)
    requires
        body.valid(ctx.source@),
    ensures
        views(out@) == csharp_sink_flows(body.tree, body.index as int, ctx@, state@),
{
    let ghost t = body.tree;
    let e: usize = body.end();
    let mut c: usize = body.index + 1;
    let mut out: Vec<TaintFinding> = Vec::new();
    let ghost all = flows_among(t, c as int, e as int, ctx@, state@);
    assert(views(out@) + all =~= all);
    while c < e
        invariant
            body.valid(ctx.source@),
            t == body.tree,
            e <= t.len(),
            views(out@) + flows_among(t, c as int, e as int, ctx@, state@) == all,
        decreases gap(c as int, e as int),
    {
        let n = body.at(c);
        if is_scope_node(n) {
            c = n.end();
        } else {
            let ghost before = views(out@);
            let ghost rest = flows_among(t, c + 1, e as int, ctx@, state@);
            if n.is_kind("invocation_expression") || n.is_kind("object_creation_expression") {
                match check_call_sink(n, ctx, state) {
                    Some(f) => {
                        out.push(f);
                        assert(before.push(f@) + rest =~= before + (seq![f@] + rest));
                    },
                    None => {},
                }
            }
            c = c + 1;
        }
    }
    assert(views(out@) + Seq::<Flow>::empty() =~= views(out@));
    out
}

// ─── The language ────────────────────────────────────────────────────────────
/// C#, as a language whose scopes are read in passes.
pub struct CSharp;

impl ScopeLanguage for CSharp {
    open spec fn is_scope(t: &SyntaxTree, i: int) -> bool {
        is_csharp_scope(t, i)
    }

    fn scope_node(node: Node<'_>) -> (r: bool) {
        is_scope_node(node)
    }

    open spec fn body(t: &SyntaxTree, f: int) -> int {
        csharp_body(t, f)
    }

    fn scope_body<'a>(scope: Node<'a>) -> (r: Node<'a>) {
        find_scope_body(scope)
    }

    open spec fn entry_state(t: &SyntaxTree, f: int, cx: Given<'_>) -> Map<Text, Info> {
        seed_params(t, csharp_params(t, f), 0, cx, Map::empty())
    }

    fn collect_param_sources(scope: Node<'_>, ctx: &Context<'_>) -> (r: TaintState) {
        collect_param_sources(scope, ctx)
    }

    open spec fn state_after(t: &SyntaxTree, i: int, cx: Given<'_>, st: Map<Text, Info>) -> Map<
        Text,
        Info,
    > {
        csharp_state_after(t, i, cx, st)
    }

    fn read_node(node: Node<'_>, ctx: &Context<'_>, state: &mut TaintState) {
        read_assignment(node, ctx, state)
    }

    open spec fn reseeded(t: &SyntaxTree, b: int, cx: Given<'_>, st: Map<Text, Info>) -> Map<
        Text,
        Info,
    > {
        filled_among(t, b + 1, t.after(b), cx, st)
    }

    fn reseed(body: Node<'_>, ctx: &Context<'_>, state: &mut TaintState) {
        seed_call_arg_sources(body, ctx, state)
    }

    open spec fn receiver_call(t: &SyntaxTree, i: int, src: Text) -> Option<(Text, Text)> {
        match callee_of(t, i) {
            Some(f) => if t.kind(f) == "member_access_expression"@ {
                match (t.field(f, "expression"@), last_name(t, f, src)) {
                    (Some(k), Some(method)) => if t.kind(k) == "identifier"@ {
                        Some((t.text(k, src), method))
                    } else {
                        None
                    },
                    _ => None,
                }
            } else {
                None
            },
            None => None,
        }
    }

    fn call_on_variable<'s>(node: Node<'_>, source: &'s str) -> (r: Option<(&'s str, &'s str)>) {
        match call_function(node) {
            Some(f) => {
                if !f.is_kind("member_access_expression") {
                    return None;
                }
                match (f.child_by_field_name("expression"), final_name_segment(f, source)) {
                    (Some(receiver), Some(method)) => {
                        if receiver.is_kind("identifier") {
                            Some((receiver.text(source), method))
                        } else {
                            None
                        }
                    },
                    _ => None,
                }
            },
            None => None,
        }
    }

    open spec fn passed_on(t: &SyntaxTree, i: int, cx: Given<'_>, st: Map<Text, Info>) -> Option<
        Info,
    > {
        arguments_taint(t, i, cx, st)
    }

    fn argument_taint(node: Node<'_>, ctx: &Context<'_>, state: &TaintState) -> (r: Option<
        TaintInfo,
    >) {
        sink_argument_taint(node, ctx, state)
    }

    open spec fn taint_of(t: &SyntaxTree, i: int, cx: Given<'_>, st: Map<Text, Info>) -> Option<
        Info,
    > {
        csharp_taint(t, i, cx, st)
    }

    fn expression_taint(node: Node<'_>, ctx: &Context<'_>, state: &TaintState) -> (r: Option<
        TaintInfo,
    >) {
        expression_taint(node, ctx, state)
    }

    open spec fn sink_flows(t: &SyntaxTree, b: int, cx: Given<'_>, st: Map<Text, Info>) -> Seq<
        Flow,
    > {
        csharp_sink_flows(t, b, cx, st)
    }

    fn find_sinks(body: Node<'_>, ctx: &Context<'_>, state: &TaintState) -> (r: Vec<TaintFinding>) {
        find_sinks(body, ctx, state)
    }
}

/// The names of those of the parameters `params[from..]` that have one.
pub open spec fn names_of(t: &SyntaxTree, params: Seq<int>, from: int, src: Text) -> Seq<Text>
    decreases params.len() - from,
{
    if from < 0 || from >= params.len() {
        Seq::empty()
    } else {
        let rest = names_of(t, params, from + 1, src);
        match t.field_text(params[from], "name"@, src) {
            Some(name) => seq![name] + rest,
            None => rest,
        }
    }
}

fn csharp_method_param_names<'s>(scope: Node<'_>, source: &'s str) -> (out: Vec<&'s str>)
    requires
        scope.valid(source@),
    ensures
        views(out@) == names_of(
            scope.tree,
            csharp_params(scope.tree, scope.index as int),
            0,
            source@,
        ),
{
    let ghost t = scope.tree;
    let params = scope_parameter_nodes(scope);
    let ghost ps = indices(params@);
    let mut out: Vec<&'s str> = Vec::new();
    let ghost all = names_of(t, ps, 0, source@);
    assert(views(out@) + all =~= all);
    let mut k: usize = 0;
    while k < params.len()
        invariant
            scope.valid(source@),
            t == scope.tree,
            ps == indices(params@),
            forall|k: int|
                #![trigger params@[k]]
                0 <= k < params@.len() ==> params@[k].tree == t && params@[k].wf(),
            k <= params@.len(),
            views(out@) + names_of(t, ps, k as int, source@) == all,
        decreases params.len() - k,
    {
        let n = params[k];
        assert(ps[k as int] == n.index);
        let ghost before = views(out@);
        let ghost rest = names_of(t, ps, k + 1, source@);
        match n.field_text("name", source) {
            Some(name) => {
                out.push(name);
                assert(before.push(name@) + rest =~= before + (seq![name@] + rest));
            },
            None => {},
        }
        k = k + 1;
    }
    assert(views(out@) + Seq::<Text>::empty() =~= views(out@));
    out
}

impl CrossFileLanguage for CSharp {
    open spec fn is_method(t: &SyntaxTree, i: int) -> bool {
        t.kind(i) == "method_declaration"@ || t.kind(i) == "local_function_statement"@
    }

    fn method_node(node: Node<'_>) -> (r: bool) {
        node.is_kind("method_declaration") || node.is_kind("local_function_statement")
    }

    open spec fn params(t: &SyntaxTree, f: int, src: Text) -> Seq<Text> {
        names_of(t, csharp_params(t, f), 0, src)
    }

    fn method_param_names<'s>(method: Node<'_>, source: &'s str) -> (r: Vec<&'s str>) {
        csharp_method_param_names(method, source)
    }

    open spec fn callee(t: &SyntaxTree, i: int, src: Text) -> Option<Text> {
        method_of(t, i, src)
    }

    fn callee_name<'s>(node: Node<'_>, source: &'s str) -> (r: Option<&'s str>) {
        call_method_name(node, source)
    }

    open spec fn arguments(t: &SyntaxTree, i: int) -> Option<Seq<int>> {
        match t.field(i, "arguments"@) {
            Some(args) => Some(named_of_kind(t, args + 1, t.after(args), "argument"@)),
            None => None,
        }
    }

    fn argument_nodes<'a>(node: Node<'a>) -> (r: Option<Vec<Node<'a>>>) {
        match node.child_by_field_name("arguments") {
            Some(args) => Some(named_children_of_kind(args, "argument")),
            None => None,
        }
    }
}

/// The flows of a rule in a file.
pub fn analyze_tree(
    root: Node<'_>,
    source: &str,
    spec: &TaintSpec,
    aliases: Option<&AliasTable>,
) -> (r: Vec<TaintFinding>)
    requires
        root.valid(source@),
    ensures
        views(r@) == file_flows::<CSharp>(
            root.tree,
            root.index as int,
            root.tree.after(root.index as int),
            Seq::empty(),
            given(source@, spec@),
        ),
{
    let none: Vec<Propagator> = Vec::new();
    assert(views(none@) =~= Seq::<Option<Text>>::empty());
    analyze_tree_with_propagators(root, source, spec, aliases, &none)
}

/// The flows of a rule in a file, where some calls taint their receivers.
pub fn analyze_tree_with_propagators(
    root: Node<'_>,
    source: &str,
    spec: &TaintSpec,
    _aliases: Option<&AliasTable>,
    propagators: &Vec<Propagator>,
) -> (r: Vec<TaintFinding>)
    requires
        root.valid(source@),
    ensures
        views(r@) == file_flows::<CSharp>(
            root.tree,
            root.index as int,
            root.tree.after(root.index as int),
            views(propagators@),
            given(source@, spec@),
        ),
{
    let ctx = Context { source, spec, policy: None };
    analyze_scopes::<CSharp>(root, &ctx, propagators)
}

/// How the methods of a file pass the taint of their parameters on, by their names: of the
/// methods of one name the last one counts.
pub fn extract_cross_file_summaries(
    root: Node<'_>,
    source: &str,
    _aliases: Option<&AliasTable>,
    rule_specs: &Vec<(&str, TaintSpec)>,
) -> (r: Vec<FunctionTaintSummary>)
    requires
        root.valid(source@),
    ensures
        views(r@) == keyed(
            summaries_in::<CSharp>(
                root.tree,
                root.index as int,
                root.tree.after(root.index as int),
                source@,
                views(rule_specs@),
            ),
        ),
{
    extract_summaries::<CSharp>(root, source, rule_specs)
}

/// The flows of a file into the sinks of its sibling files.
pub fn extract_cross_file_findings(
    root: Node<'_>,
    source: &str,
    rule_specs: &Vec<(&str, TaintSpec)>,
    cross_file: &CrossFileInfo<'_>,
) -> (r: Vec<TaintFinding>)
    requires
        root.valid(source@),
    ensures
        views(r@) == file_cross_flows::<CSharp>(
            root.tree,
            root.index as int,
            root.tree.after(root.index as int),
            cross_file@,
            given(source@, union_rule(views(rule_specs@))),
        ),
{
    extract_findings::<CSharp>(root, source, rule_specs, cross_file)
}

/// How the methods of a file pass the taint of their parameters on by their calls into
/// sibling files.
pub fn compose_cross_file_summaries(
    root: Node<'_>,
    source: &str,
    _aliases: Option<&AliasTable>,
    rule_specs: &Vec<(&str, TaintSpec)>,
    same_package_paths: &Vec<String>,
    summaries: &CrossFileSummaryMap,
    allowed_rule_ids: &Vec<String>,
) -> (r: Vec<FunctionTaintSummary>)
    requires
        root.valid(source@),
    ensures
        views(r@) == composed_in::<CSharp>(
            root.tree,
            root.index as int,
            root.tree.after(root.index as int),
            source@,
            views(rule_specs@),
            (Siblings {
                paths: views(same_package_paths@),
                files: summaries@,
                allowed: views(allowed_rule_ids@),
            }),
        ),
{
    let others = CrossFileInfo { same_package_paths, summaries, allowed_rule_ids };
    compose_summaries::<CSharp>(root, source, rule_specs, &others)
}

} // verus!
