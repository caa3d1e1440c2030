//! Rules for Go.
use crate::common::{found_in, said_if, said_of_ranges, say_if, say_of_ranges, walk_tree, Visitor};
use crate::context::FileContext;
use crate::cross_file::FunctionTaintSummary;
use crate::finding::{Finding, Language, Report, RuleFacts, RuleInfo, Severity};
use crate::go_taint::{
    analyze_tree_batched, analyze_tree_with_cross_file, batched_flows, file_flows,
    go_aliases_from_tree, go_sources, go_taint_sources, import_aliases, rule_facts, BatchedRule,
    CrossFacts, CrossFileInfo, CrossFileInfoBatched, RuleFilter,
};
use crate::pattern::{find_spans, is_regex_match, regex_found, regex_matches};
use crate::taint_engine::{
    call, has_text, m_call, m_method, method_name, Flow, NodeMatcher, TaintFinding, TaintRule,
    TaintSpec,
};
use crate::taint_rule::{
    distinct_ids, enabled_rules, flow_report, map_taint_finding, rule_named, MetaFacts,
    TaintRuleMeta,
};
use crate::text::{
    concat2, concat3, contains, has_part, opt_view, text_eq, text_is, trim, trim_chars, trimmed,
    trimmed_of, views, Text,
};
use crate::tree::{argument, nth_argument, Node, SyntaxTree};
use vstd::prelude::*;
use vstd::utf8::*;

verus! {

broadcast use {crate::text::group_views, crate::tree::group_tree};

/// Whether a node of this kind is a string literal.
pub open spec fn is_string(kind: Text) -> bool {
    kind == "interpreted_string_literal"@ || kind == "raw_string_literal"@
}

fn is_string_node(node: Node<'_>) -> (r: bool)
    requires
        node.wf(),
    ensures
        r == is_string(node.tree.kind(node.index as int)),
{
    node.is_kind("interpreted_string_literal") || node.is_kind("raw_string_literal")
}

/// The text of the function that is called at node `i`.
pub open spec fn callee(t: &SyntaxTree, i: int, src: Text) -> Option<Text> {
    if t.kind(i) == "call_expression"@ {
        t.field_text(i, "function"@, src)
    } else {
        None
    }
}

fn called<'s>(node: Node<'_>, source: &'s str) -> (r: Option<&'s str>)
    requires
        node.valid(source@),
    ensures
        opt_view(r) == callee(node.tree, node.index as int, source@),
{
    if node.is_kind("call_expression") {
        node.field_text("function", source)
    } else {
        None
    }
}

/// Whether the call at node `i` has an argument at position `k` that is no string literal.
pub open spec fn is_dynamic(t: &SyntaxTree, i: int, k: int) -> bool {
    argument(t, i, k) matches Some(a) && !is_string(t.kind(a))
}

fn has_dynamic_argument(node: Node<'_>, k: usize) -> (r: bool)
    requires
        node.wf(),
    ensures
        r == is_dynamic(node.tree, node.index as int, k as int),
{
    match nth_argument(node, k) {
        Some(a) => !is_string_node(a),
        None => false,
    }
}

/// Potential SQL injection via string concatenation or fmt.Sprintf.
#[derive(Debug, Clone, Copy)]
pub struct NoSqlInjection;

impl NoSqlInjection {
    /// What the rule says of itself.
    pub open spec fn facts() -> RuleFacts {
        RuleFacts {
            id: "go/no-sql-injection"@,
            severity: Severity::Critical,
            cwe: Some("CWE-89"@),
            description: "Potential SQL injection via string concatenation or fmt.Sprintf"@,
            language: Language::Go,
            cnsa2_deadline: None,
        }
    }

    /// What the rule says of itself.
    pub fn info(&self) -> (r: RuleInfo)
        ensures
            r@ == Self::facts(),
    {
        RuleInfo {
            id: "go/no-sql-injection",
            severity: Severity::Critical,
            cwe: Some("CWE-89"),
            description: "Potential SQL injection via string concatenation or fmt.Sprintf",
            language: Language::Go,
            cnsa2_deadline: None,
        }
    }

    /// The findings of the rule in a file.
    pub fn check(&self, source: &str, tree: &SyntaxTree) -> (out: Vec<Finding>)
        requires
            tree.valid(source@),
            tree.len() > 0,
        ensures
            views(out@) == found_in::<Self>((), tree, source@),
    {
        walk_tree::<Self>(&(), tree.root_node(), source)
    }
}

/// The statements of SQL, as a regular expression.
pub const SQL_STATEMENT: &'static str =
    r"(?i)(SELECT\s+.{0,40}\s+FROM|INSERT\s+INTO|UPDATE\s+.{0,40}\s+SET|DELETE\s+FROM|DROP\s+TABLE|ALTER\s+TABLE|CREATE\s+TABLE|EXEC\s+)";

/// Whether node `i` is a string literal with a statement of SQL.
pub open spec fn is_sql(t: &SyntaxTree, i: int, src: Text) -> bool {
    is_string(t.kind(i)) && regex_matches(SQL_STATEMENT@, t.text(i, src))
}

fn is_sql_node(node: Node<'_>, source: &str) -> (r: bool)
    requires
        node.valid(source@),
    ensures
        r == is_sql(node.tree, node.index as int, source@),
{
    is_string_node(node) && is_regex_match(SQL_STATEMENT, node.text(source))
}

/// Whether node `i` adds something to a statement of SQL.
pub open spec fn is_sql_sum(t: &SyntaxTree, i: int, src: Text) -> bool {
    &&& t.kind(i) == "binary_expression"@
    &&& has_part(t.text(i, src), "+"@)
    &&& t.field(i, "left"@) matches Some(l)
    &&& is_sql(t, l, src)
}

fn is_sql_sum_node(node: Node<'_>, source: &str) -> (r: bool)
    requires
        node.valid(source@),
    ensures
        r == is_sql_sum(node.tree, node.index as int, source@),
{
    if !node.is_kind("binary_expression") || !contains(node.text(source), "+") {
        return false;
    }
    match node.child_by_field_name("left") {
        Some(left) => is_sql_node(left, source),
        None => false,
    }
}

/// Whether node `i` formats a statement of SQL.
pub open spec fn is_sql_format(t: &SyntaxTree, i: int, src: Text) -> bool {
    &&& callee(t, i, src) == Some("fmt.Sprintf"@)
    &&& argument(t, i, 0) matches Some(a)
    &&& is_sql(t, a, src)
}

fn is_sql_format_node(node: Node<'_>, source: &str) -> (r: bool)
    requires
        node.valid(source@),
    ensures
        r == is_sql_format(node.tree, node.index as int, source@),
{
    if !text_is(called(node, source), "fmt.Sprintf") {
        return false;
    }
    match nth_argument(node, 0) {
        Some(a) => is_sql_node(a, source),
        None => false,
    }
}

impl Visitor for NoSqlInjection {
    type Data = ();

    type Found = Finding;

    open spec fn found(d: (), t: &SyntaxTree, i: int, src: Text) -> Seq<Report> {
        said_if(
            is_sql_sum(t, i, src),
            Self::facts(),
            "SQL query built with string concatenation — use parameterized queries"@,
            t,
            i,
            src,
        ) + said_if(
            is_sql_format(t, i, src),
            Self::facts(),
            "SQL query built with fmt.Sprintf — use parameterized queries"@,
            t,
            i,
            src,
        )
    }

    fn visit(_data: &(), node: Node<'_>, source: &str, out: &mut Vec<Finding>) {
        let info = NoSqlInjection.info();
        say_if(
            is_sql_sum_node(node, source),
            &info,
            "SQL query built with string concatenation — use parameterized queries",
            node,
            source,
            out,
        );
        say_if(
            is_sql_format_node(node, source),
            &info,
            "SQL query built with fmt.Sprintf — use parameterized queries",
            node,
            source,
            out,
        );
    }
}

/// Potential command injection via exec.Command with dynamic input.
#[derive(Debug, Clone, Copy)]
pub struct NoCommandInjection;

impl NoCommandInjection {
    /// What the rule says of itself.
    pub open spec fn facts() -> RuleFacts {
        RuleFacts {
            id: "go/no-command-injection"@,
            severity: Severity::Critical,
            cwe: Some("CWE-78"@),
            description: "Potential command injection via exec.Command with dynamic input"@,
            language: Language::Go,
            cnsa2_deadline: None,
        }
    }

    /// What the rule says of itself.
    pub fn info(&self) -> (r: RuleInfo)
        ensures
            r@ == Self::facts(),
    {
        RuleInfo {
            id: "go/no-command-injection",
            severity: Severity::Critical,
            cwe: Some("CWE-78"),
            description: "Potential command injection via exec.Command with dynamic input",
            language: Language::Go,
            cnsa2_deadline: None,
        }
    }

    /// The findings of the rule in a file.
    pub fn check(&self, source: &str, tree: &SyntaxTree) -> (out: Vec<Finding>)
        requires
            tree.valid(source@),
            tree.len() > 0,
        ensures
            views(out@) == found_in::<Self>((), tree, source@),
    {
        walk_tree::<Self>(&(), tree.root_node(), source)
    }
}

impl Visitor for NoCommandInjection {
    type Data = ();

    type Found = Finding;

    open spec fn found(d: (), t: &SyntaxTree, i: int, src: Text) -> Seq<Report> {
        said_if(
            (callee(t, i, src) == Some("exec.Command"@) || callee(t, i, src) == Some(
                "exec.CommandContext"@,
            )) && is_dynamic(t, i, 0),
            Self::facts(),
            "exec.Command called with dynamic argument — risk of command injection"@,
            t,
            i,
            src,
        )
    }

    fn visit(_data: &(), node: Node<'_>, source: &str, out: &mut Vec<Finding>) {
        let f = called(node, source);
        let hit = (text_is(f, "exec.Command") || text_is(f, "exec.CommandContext"))
            && has_dynamic_argument(node, 0);
        say_if(
            hit,
            &NoCommandInjection.info(),
            "exec.Command called with dynamic argument — risk of command injection",
            node,
            source,
            out,
        );
    }
}

/// Hardcoded secret or credential detected.
#[derive(Debug, Clone, Copy)]
pub struct NoHardcodedSecret;

impl NoHardcodedSecret {
    /// What the rule says of itself.
    pub open spec fn facts() -> RuleFacts {
        RuleFacts {
            id: "go/no-hardcoded-secret"@,
            severity: Severity::High,
            cwe: Some("CWE-798"@),
            description: "Hardcoded secret or credential detected"@,
            language: Language::Go,
            cnsa2_deadline: None,
        }
    }

    /// What the rule says of itself.
    pub fn info(&self) -> (r: RuleInfo)
        ensures
            r@ == Self::facts(),
    {
        RuleInfo {
            id: "go/no-hardcoded-secret",
            severity: Severity::High,
            cwe: Some("CWE-798"),
            description: "Hardcoded secret or credential detected",
            language: Language::Go,
            cnsa2_deadline: None,
        }
    }

    /// The findings of the rule in a file.
    pub fn check(&self, source: &str, tree: &SyntaxTree) -> (out: Vec<Finding>)
        requires
            tree.valid(source@),
            tree.len() > 0,
        ensures
            views(out@) == found_in::<Self>((), tree, source@),
    {
        walk_tree::<Self>(&(), tree.root_node(), source)
    }
}

/// The names of variables that hold a secret, as a regular expression.
pub const SECRET_NAME: &'static str =
    r"(?i)(password|secret|api_?key|token|auth|credential|private_?key)";

/// Whether the value at node `i`, or the first of the values there, is a string literal
/// with at least four bytes between its quotes.
pub open spec fn is_secret_literal(t: &SyntaxTree, i: int, src: Text) -> bool {
    let v = match t.nth_named(i, 0) {
        Some(k) => k,
        None => i,
    };
    is_string(t.kind(v)) && encode_utf8(trimmed_of(t.text(v, src), '"', '`')).len() >= 4
}

fn is_secret_literal_node(node: Node<'_>, source: &str) -> (r: bool)
    requires
        node.valid(source@),
    ensures
        r == is_secret_literal(node.tree, node.index as int, source@),
{
    let v = match node.named_child(0) {
        Some(k) => k,
        None => node,
    };
    is_string_node(v) && trim_chars(v.text(source), '"', '`').as_bytes().len() >= 4
}

/// The name at node `i` that is given a literal secret in the fields `name` and `value`.
pub open spec fn secret_in(t: &SyntaxTree, i: int, name: Text, value: Text, src: Text) -> Option<
    Text,
> {
    match (t.field_text(i, name, src), t.field(i, value)) {
        (Some(n), Some(v)) => if regex_matches(SECRET_NAME@, n) && is_secret_literal(t, v, src) {
            Some(n)
        } else {
            None
        },
        _ => None,
    }
}

/// The name that is given a literal secret at node `i`.
pub open spec fn secret_name(t: &SyntaxTree, i: int, src: Text) -> Option<Text> {
    if t.kind(i) == "short_var_declaration"@ {
        match secret_in(t, i, "left"@, "right"@, src) {
            Some(n) => Some(trimmed(n)),
            None => None,
        }
    } else if t.kind(i) == "var_spec"@ || t.kind(i) == "const_spec"@ {
        secret_in(t, i, "name"@, "value"@, src)
    } else {
        None
    }
}

fn find_secret_in<'s>(node: Node<'_>, name: &str, value: &str, source: &'s str) -> (r: Option<&'s str>)
    requires
        node.valid(source@),
    ensures
        opt_view(r) == secret_in(node.tree, node.index as int, name@, value@, source@),
{
    match (node.field_text(name, source), node.child_by_field_name(value)) {
        (Some(n), Some(v)) => if is_regex_match(SECRET_NAME, n) && is_secret_literal_node(
            v,
            source,
        ) {
            Some(n)
        } else {
            None
        },
        _ => None,
    }
}

fn find_secret_name<'s>(node: Node<'_>, source: &'s str) -> (r: Option<&'s str>)
    requires
        node.valid(source@),
    ensures
        opt_view(r) == secret_name(node.tree, node.index as int, source@),
{
    if node.is_kind("short_var_declaration") {
        match find_secret_in(node, "left", "right", source) {
            Some(n) => Some(trim(n)),
            None => None,
        }
    } else if node.is_kind("var_spec") || node.is_kind("const_spec") {
        find_secret_in(node, "name", "value", source)
    } else {
        None
    }
}

impl Visitor for NoHardcodedSecret {
    type Data = ();

    type Found = Finding;

    open spec fn found(d: (), t: &SyntaxTree, i: int, src: Text) -> Seq<Report> {
        match secret_name(t, i, src) {
            Some(n) => said_if(
                true,
                Self::facts(),
                "Hardcoded secret in '"@ + n + "' — use environment variables"@,
                t,
                i,
                src,
            ),
            None => Seq::empty(),
        }
    }

    fn visit(_data: &(), node: Node<'_>, source: &str, out: &mut Vec<Finding>) {
        match find_secret_name(node, source) {
            Some(n) => {
                let d = concat3("Hardcoded secret in '", n, "' — use environment variables");
                say_if(true, &NoHardcodedSecret.info(), d.as_str(), node, source, out);
            },
            None => {
                assert(views(out@) + Seq::<Report>::empty() =~= views(out@));
            },
        }
    }
}

/// Use of weak cryptographic hash (MD5/SHA1).
#[derive(Debug, Clone, Copy)]
pub struct NoWeakCrypto;

impl NoWeakCrypto {
    /// What the rule says of itself.
    pub open spec fn facts() -> RuleFacts {
        RuleFacts {
            id: "go/no-weak-crypto"@,
            severity: Severity::Medium,
            cwe: Some("CWE-327"@),
            description: "Use of weak cryptographic hash (MD5/SHA1)"@,
            language: Language::Go,
            cnsa2_deadline: None,
        }
    }

    /// What the rule says of itself.
    pub fn info(&self) -> (r: RuleInfo)
        ensures
            r@ == Self::facts(),
    {
        RuleInfo {
            id: "go/no-weak-crypto",
            severity: Severity::Medium,
            cwe: Some("CWE-327"),
            description: "Use of weak cryptographic hash (MD5/SHA1)",
            language: Language::Go,
            cnsa2_deadline: None,
        }
    }

    /// The findings of the rule in a file.
    pub fn check(&self, source: &str, tree: &SyntaxTree) -> (out: Vec<Finding>)
        requires
            tree.valid(source@),
            tree.len() > 0,
        ensures
            views(out@) == found_in::<Self>((), tree, source@),
    {
        walk_tree::<Self>(&(), tree.root_node(), source)
    }
}

/// The weak hash that a function makes.
pub open spec fn weak_hash(callee: Option<Text>) -> Option<Text> {
    if callee == Some("md5.New"@) || callee == Some("md5.Sum"@) {
        Some("MD5"@)
    } else if callee == Some("sha1.New"@) || callee == Some("sha1.Sum"@) {
        Some("SHA1"@)
    } else {
        None
    }
}

fn find_weak_hash(callee: Option<&str>) -> (r: Option<&'static str>)
    ensures
        opt_view(r) == weak_hash(opt_view(callee)),
{
    if text_is(callee, "md5.New") || text_is(callee, "md5.Sum") {
        Some("MD5")
    } else if text_is(callee, "sha1.New") || text_is(callee, "sha1.Sum") {
        Some("SHA1")
    } else {
        None
    }
}

/// The weak hash whose package is imported at node `i`.
pub open spec fn weak_import(t: &SyntaxTree, i: int, src: Text) -> Option<Text> {
    if t.kind(i) != "import_spec"@ {
        None
    } else if t.field_text(i, "path"@, src) == Some("\"crypto/md5\""@) {
        Some("MD5"@)
    } else if t.field_text(i, "path"@, src) == Some("\"crypto/sha1\""@) {
        Some("SHA1"@)
    } else {
        None
    }
}

fn find_weak_import(node: Node<'_>, source: &str) -> (r: Option<&'static str>)
    requires
        node.valid(source@),
    ensures
        opt_view(r) == weak_import(node.tree, node.index as int, source@),
{
    if !node.is_kind("import_spec") {
        return None;
    }
    let path = node.field_text("path", source);
    if text_is(path, "\"crypto/md5\"") {
        Some("MD5")
    } else if text_is(path, "\"crypto/sha1\"") {
        Some("SHA1")
    } else {
        None
    }
}

impl Visitor for NoWeakCrypto {
    type Data = ();

    type Found = Finding;

    open spec fn found(d: (), t: &SyntaxTree, i: int, src: Text) -> Seq<Report> {
        match (weak_hash(callee(t, i, src)), weak_import(t, i, src)) {
            (Some(algo), _) => said_if(
                true,
                Self::facts(),
                algo + " is cryptographically weak — use SHA-256 or stronger"@,
                t,
                i,
                src,
            ),
            (None, Some(algo)) => said_if(
                true,
                Self::facts(),
                "Import of weak crypto package "@ + algo + " — use crypto/sha256 or stronger"@,
                t,
                i,
                src,
            ),
            (None, None) => Seq::empty(),
        }
    }

    fn visit(_data: &(), node: Node<'_>, source: &str, out: &mut Vec<Finding>) {
        let info = NoWeakCrypto.info();
        match (find_weak_hash(called(node, source)), find_weak_import(node, source)) {
            (Some(algo), _) => {
                let d = concat2(algo, " is cryptographically weak — use SHA-256 or stronger");
                say_if(true, &info, d.as_str(), node, source, out);
            },
            (None, Some(algo)) => {
                let d = concat3(
                    "Import of weak crypto package ",
                    algo,
                    " — use crypto/sha256 or stronger",
                );
                say_if(true, &info, d.as_str(), node, source, out);
            },
            (None, None) => {
                assert(views(out@) + Seq::<Report>::empty() =~= views(out@));
            },
        }
    }
}

/// Gin engine created without SetTrustedProxies configuration.
#[derive(Debug, Clone, Copy)]
pub struct GinNoTrustedProxies;

impl GinNoTrustedProxies {
    /// What the rule says of itself.
    pub open spec fn facts() -> RuleFacts {
        RuleFacts {
            id: "go/gin-no-trusted-proxies"@,
            severity: Severity::Medium,
            cwe: Some("CWE-346"@),
            description: "Gin engine created without SetTrustedProxies configuration"@,
            language: Language::Go,
            cnsa2_deadline: None,
        }
    }

    /// What the rule says of itself.
    pub fn info(&self) -> (r: RuleInfo)
        ensures
            r@ == Self::facts(),
    {
        RuleInfo {
            id: "go/gin-no-trusted-proxies",
            severity: Severity::Medium,
            cwe: Some("CWE-346"),
            description: "Gin engine created without SetTrustedProxies configuration",
            language: Language::Go,
            cnsa2_deadline: None,
        }
    }

    /// The findings of the rule in a file.
    pub fn check(&self, source: &str, tree: &SyntaxTree) -> (out: Vec<Finding>)
        requires
            tree.valid(source@),
            tree.len() > 0,
        ensures
            views(out@) == (if trusts_all_proxies(source@) {
                found_in::<Self>((), tree, source@)
            } else {
                Seq::empty()
            }),
    {
        let made = contains(source, "gin.Default()") || contains(source, "gin.New()");
        if made && !contains(source, "SetTrustedProxies") {
            walk_tree::<Self>(&(), tree.root_node(), source)
        } else {
            Vec::new()
        }
    }
}

/// Whether a file makes a Gin engine and never says which proxies it trusts.
pub open spec fn trusts_all_proxies(src: Text) -> bool {
    &&& has_part(src, "gin.Default()"@) || has_part(src, "gin.New()"@)
    &&& !has_part(src, "SetTrustedProxies"@)
}

impl Visitor for GinNoTrustedProxies {
    type Data = ();

    type Found = Finding;

    open spec fn found(d: (), t: &SyntaxTree, i: int, src: Text) -> Seq<Report> {
        match callee(t, i, src) {
            Some(f) => said_if(
                f == "gin.Default"@ || f == "gin.New"@,
                Self::facts(),
                f
                    + "() called without SetTrustedProxies — configure trusted proxies to prevent IP spoofing"@,
                t,
                i,
                src,
            ),
            None => Seq::empty(),
        }
    }

    fn visit(_data: &(), node: Node<'_>, source: &str, out: &mut Vec<Finding>) {
        match called(node, source) {
            Some(f) => {
                let hit = text_eq(f, "gin.Default") || text_eq(f, "gin.New");
                let d = concat2(
                    f,
                    "() called without SetTrustedProxies — configure trusted proxies to prevent IP spoofing",
                );
                say_if(hit, &GinNoTrustedProxies.info(), d.as_str(), node, source, out);
            },
            None => {
                assert(views(out@) + Seq::<Report>::empty() =~= views(out@));
            },
        }
    }
}

/// http.ListenAndServe without timeout configuration enables slowloris attacks.
#[derive(Debug, Clone, Copy)]
pub struct NetHttpNoTimeout;

impl NetHttpNoTimeout {
    /// What the rule says of itself.
    pub open spec fn facts() -> RuleFacts {
        RuleFacts {
            id: "go/net-http-no-timeout"@,
            severity: Severity::Medium,
            cwe: Some("CWE-400"@),
            description: "http.ListenAndServe without timeout configuration enables slowloris attacks"@,
            language: Language::Go,
            cnsa2_deadline: None,
        }
    }

    /// What the rule says of itself.
    pub fn info(&self) -> (r: RuleInfo)
        ensures
            r@ == Self::facts(),
    {
        RuleInfo {
            id: "go/net-http-no-timeout",
            severity: Severity::Medium,
            cwe: Some("CWE-400"),
            description: "http.ListenAndServe without timeout configuration enables slowloris attacks",
            language: Language::Go,
            cnsa2_deadline: None,
        }
    }

    /// The findings of the rule in a file.
    pub fn check(&self, source: &str, tree: &SyntaxTree) -> (out: Vec<Finding>)
        requires
            tree.valid(source@),
            tree.len() > 0,
        ensures
            views(out@) == found_in::<Self>((), tree, source@),
    {
        walk_tree::<Self>(&(), tree.root_node(), source)
    }
}

impl Visitor for NetHttpNoTimeout {
    type Data = ();

    type Found = Finding;

    open spec fn found(d: (), t: &SyntaxTree, i: int, src: Text) -> Seq<Report> {
        match callee(t, i, src) {
            Some(f) => said_if(
                f == "http.ListenAndServe"@ || f == "http.ListenAndServeTLS"@,
                Self::facts(),
                f
                    + " used without timeout — use http.Server with ReadTimeout/WriteTimeout to prevent slowloris"@,
                t,
                i,
                src,
            ),
            None => Seq::empty(),
        }
    }

    fn visit(_data: &(), node: Node<'_>, source: &str, out: &mut Vec<Finding>) {
        match called(node, source) {
            Some(f) => {
                let hit = text_eq(f, "http.ListenAndServe") || text_eq(f, "http.ListenAndServeTLS");
                let d = concat2(
                    f,
                    " used without timeout — use http.Server with ReadTimeout/WriteTimeout to prevent slowloris",
                );
                say_if(hit, &NetHttpNoTimeout.info(), d.as_str(), node, source, out);
            },
            None => {
                assert(views(out@) + Seq::<Report>::empty() =~= views(out@));
            },
        }
    }
}

/// Potential SSRF via http.Get/http.Post with variable URL.
#[derive(Debug, Clone, Copy)]
pub struct NoSsrf;

impl NoSsrf {
    /// What the rule says of itself.
    pub open spec fn facts() -> RuleFacts {
        RuleFacts {
            id: "go/no-ssrf"@,
            severity: Severity::High,
            cwe: Some("CWE-918"@),
            description: "Potential SSRF via http.Get/http.Post with variable URL"@,
            language: Language::Go,
            cnsa2_deadline: None,
        }
    }

    /// What the rule says of itself.
    pub fn info(&self) -> (r: RuleInfo)
        ensures
            r@ == Self::facts(),
    {
        RuleInfo {
            id: "go/no-ssrf",
            severity: Severity::High,
            cwe: Some("CWE-918"),
            description: "Potential SSRF via http.Get/http.Post with variable URL",
            language: Language::Go,
            cnsa2_deadline: None,
        }
    }

    /// The findings of the rule in a file.
    pub fn check(&self, source: &str, tree: &SyntaxTree) -> (out: Vec<Finding>)
        requires
            tree.valid(source@),
            tree.len() > 0,
        ensures
            views(out@) == found_in::<Self>((), tree, source@),
    {
        walk_tree::<Self>(&(), tree.root_node(), source)
    }
}

/// The position of the address among the arguments of a function that sends a request.
pub open spec fn url_position(callee: Text) -> Option<int> {
    if callee == "http.Get"@ || callee == "http.Post"@ || callee == "http.Head"@ || callee
        == "http.PostForm"@ {
        Some(0)
    } else if callee == "http.NewRequest"@ {
        Some(1)
    } else if callee == "http.NewRequestWithContext"@ {
        Some(2)
    } else {
        None
    }
}

fn find_url_position(callee: &str) -> (r: Option<usize>)
    ensures
        match r {
            Some(k) => url_position(callee@) == Some(k as int),
            None => url_position(callee@) is None,
        },
{
    if text_eq(callee, "http.Get") || text_eq(callee, "http.Post") || text_eq(callee, "http.Head")
        || text_eq(callee, "http.PostForm") {
        Some(0)
    } else if text_eq(callee, "http.NewRequest") {
        Some(1)
    } else if text_eq(callee, "http.NewRequestWithContext") {
        Some(2)
    } else {
        None
    }
}

impl Visitor for NoSsrf {
    type Data = ();

    type Found = Finding;

    open spec fn found(d: (), t: &SyntaxTree, i: int, src: Text) -> Seq<Report> {
        match callee(t, i, src) {
            Some(f) => said_if(
                url_position(f) matches Some(k) && is_dynamic(t, i, k),
                Self::facts(),
                f
                    + " called with dynamic URL — validate and allowlist target hosts to prevent SSRF"@,
                t,
                i,
                src,
            ),
            None => Seq::empty(),
        }
    }

    fn visit(_data: &(), node: Node<'_>, source: &str, out: &mut Vec<Finding>) {
        match called(node, source) {
            Some(f) => {
                let hit = match find_url_position(f) {
                    Some(k) => has_dynamic_argument(node, k),
                    None => false,
                };
                let d = concat2(
                    f,
                    " called with dynamic URL — validate and allowlist target hosts to prevent SSRF",
                );
                say_if(hit, &NoSsrf.info(), d.as_str(), node, source, out);
            },
            None => {
                assert(views(out@) + Seq::<Report>::empty() =~= views(out@));
            },
        }
    }
}

/// TLS certificate verification disabled with InsecureSkipVerify.
#[derive(Debug, Clone, Copy)]
pub struct InsecureTlsSkipVerify;

impl InsecureTlsSkipVerify {
    /// What the rule says of itself.
    pub open spec fn facts() -> RuleFacts {
        RuleFacts {
            id: "go/insecure-tls-skip-verify"@,
            severity: Severity::High,
            cwe: Some("CWE-295"@),
            description: "TLS certificate verification disabled with InsecureSkipVerify"@,
            language: Language::Go,
            cnsa2_deadline: None,
        }
    }

    /// What the rule says of itself.
    pub fn info(&self) -> (r: RuleInfo)
        ensures
            r@ == Self::facts(),
    {
        RuleInfo {
            id: "go/insecure-tls-skip-verify",
            severity: Severity::High,
            cwe: Some("CWE-295"),
            description: "TLS certificate verification disabled with InsecureSkipVerify",
            language: Language::Go,
            cnsa2_deadline: None,
        }
    }
}

/// The setting that turns the verification of certificates off, as a regular expression.
pub const SKIP_VERIFY: &'static str = r"InsecureSkipVerify\s*:\s*true";

impl InsecureTlsSkipVerify {
    /// What the rule reports in a file.
    pub open spec fn reports(src: Text) -> Seq<Report> {
        said_of_ranges(
            Self::facts(),
            "InsecureSkipVerify: true disables TLS certificate verification — prefer proper CA validation"@,
            src,
            regex_found(SKIP_VERIFY@, src),
        )
    }

    /// The findings of the rule in a file.
    pub fn check(&self, source: &str) -> (out: Vec<Finding>)
        requires
            encode_utf8(source@).len() < usize::MAX,
        ensures
            views(out@) == Self::reports(source@),
    {
        say_of_ranges(
            &self.info(),
            "InsecureSkipVerify: true disables TLS certificate verification — prefer proper CA validation",
            source,
            &find_spans(SKIP_VERIFY, source),
        )
    }
}

/// Unsafe deserialization via gob or yaml.Unmarshal into interface{}/any.
#[derive(Debug, Clone, Copy)]
pub struct NoUnsafeDeserialization;

impl NoUnsafeDeserialization {
    /// What the rule says of itself.
    pub open spec fn facts() -> RuleFacts {
        RuleFacts {
            id: "go/no-unsafe-deserialization"@,
            severity: Severity::High,
            cwe: Some("CWE-502"@),
            description: "Unsafe deserialization via gob or yaml.Unmarshal into interface{}/any"@,
            language: Language::Go,
            cnsa2_deadline: None,
        }
    }

    /// What the rule says of itself.
    pub fn info(&self) -> (r: RuleInfo)
        ensures
            r@ == Self::facts(),
    {
        RuleInfo {
            id: "go/no-unsafe-deserialization",
            severity: Severity::High,
            cwe: Some("CWE-502"),
            description: "Unsafe deserialization via gob or yaml.Unmarshal into interface{}/any",
            language: Language::Go,
            cnsa2_deadline: None,
        }
    }

    /// The findings of the rule in a file.
    pub fn check(&self, source: &str, tree: &SyntaxTree) -> (out: Vec<Finding>)
        requires
            tree.valid(source@),
            tree.len() > 0,
        ensures
            views(out@) == found_in::<Self>((), tree, source@),
    {
        walk_tree::<Self>(&(), tree.root_node(), source)
    }
}

/// Whether node `i` reads untrusted data into any type.
pub open spec fn is_unsafe_read(t: &SyntaxTree, i: int, src: Text) -> bool {
    ||| callee(t, i, src) == Some("gob.NewDecoder"@)
    ||| callee(t, i, src) == Some("yaml.Unmarshal"@) && (has_part(t.text(i, src), "interface{}"@)
        || has_part(t.text(i, src), "any"@))
}

impl Visitor for NoUnsafeDeserialization {
    type Data = ();

    type Found = Finding;

    open spec fn found(d: (), t: &SyntaxTree, i: int, src: Text) -> Seq<Report> {
        said_if(
            is_unsafe_read(t, i, src),
            Self::facts(),
            "Use JSON instead of gob for untrusted input. Unmarshal into concrete types, not interface{}."@,
            t,
            i,
            src,
        )
    }

    fn visit(_data: &(), node: Node<'_>, source: &str, out: &mut Vec<Finding>) {
        let f = called(node, source);
        let hit = text_is(f, "gob.NewDecoder") || (text_is(f, "yaml.Unmarshal") && (contains(
            node.text(source),
            "interface{}",
        ) || contains(node.text(source), "any")));
        say_if(
            hit,
            &NoUnsafeDeserialization.info(),
            "Use JSON instead of gob for untrusted input. Unmarshal into concrete types, not interface{}.",
            node,
            source,
            out,
        );
    }
}

/// JWT parsed without signature verification.
#[derive(Debug, Clone, Copy)]
pub struct JwtNoVerify;

impl JwtNoVerify {
    /// What the rule says of itself.
    pub open spec fn facts() -> RuleFacts {
        RuleFacts {
            id: "go/jwt-no-verify"@,
            severity: Severity::Critical,
            cwe: Some("CWE-347"@),
            description: "JWT parsed without signature verification"@,
            language: Language::Go,
            cnsa2_deadline: None,
        }
    }

    /// What the rule says of itself.
    pub fn info(&self) -> (r: RuleInfo)
        ensures
            r@ == Self::facts(),
    {
        RuleInfo {
            id: "go/jwt-no-verify",
            severity: Severity::Critical,
            cwe: Some("CWE-347"),
            description: "JWT parsed without signature verification",
            language: Language::Go,
            cnsa2_deadline: None,
        }
    }

    /// The findings of the rule in a file.
    pub fn check(&self, source: &str, tree: &SyntaxTree) -> (out: Vec<Finding>)
        requires
            tree.valid(source@),
            tree.len() > 0,
        ensures
            views(out@) == found_in::<Self>((), tree, source@),
    {
        walk_tree::<Self>(&(), tree.root_node(), source)
    }
}

/// Whether the call at node `i` has `nil` at position `k`.
pub open spec fn is_nil_argument(t: &SyntaxTree, i: int, k: int, src: Text) -> bool {
    argument(t, i, k) matches Some(a) && t.text(a, src) == "nil"@
}

fn has_nil_argument(node: Node<'_>, k: usize, source: &str) -> (r: bool)
    requires
        node.valid(source@),
    ensures
        r == is_nil_argument(node.tree, node.index as int, k as int, source@),
{
    match nth_argument(node, k) {
        Some(a) => text_eq(a.text(source), "nil"),
        None => false,
    }
}

impl Visitor for JwtNoVerify {
    type Data = ();

    type Found = Finding;

    open spec fn found(d: (), t: &SyntaxTree, i: int, src: Text) -> Seq<Report> {
        let f = callee(t, i, src);
        if f == Some("jwt.ParseUnverified"@) {
            said_if(
                true,
                Self::facts(),
                "JWT parsed without verification — use jwt.Parse with a proper key function"@,
                t,
                i,
                src,
            )
        } else {
            said_if(
                (f == Some("jwt.Parse"@) && is_nil_argument(t, i, 1, src)) || (f == Some(
                    "jwt.ParseWithClaims"@,
                ) && is_nil_argument(t, i, 2, src)),
                Self::facts(),
                "JWT parsed with nil key function — provide a proper key validation function"@,
                t,
                i,
                src,
            )
        }
    }

    fn visit(_data: &(), node: Node<'_>, source: &str, out: &mut Vec<Finding>) {
        let info = JwtNoVerify.info();
        let f = called(node, source);
        if text_is(f, "jwt.ParseUnverified") {
            say_if(
                true,
                &info,
                "JWT parsed without verification — use jwt.Parse with a proper key function",
                node,
                source,
                out,
            );
        } else {
            let hit = (text_is(f, "jwt.Parse") && has_nil_argument(node, 1, source)) || (text_is(
                f,
                "jwt.ParseWithClaims",
            ) && has_nil_argument(node, 2, source));
            say_if(
                hit,
                &info,
                "JWT parsed with nil key function — provide a proper key validation function",
                node,
                source,
                out,
            );
        }
    }
}

/// JWT key function uses a hardcoded secret.
#[derive(Debug, Clone, Copy)]
pub struct JwtHardcodedSecret;

impl JwtHardcodedSecret {
    /// What the rule says of itself.
    pub open spec fn facts() -> RuleFacts {
        RuleFacts {
            id: "go/jwt-hardcoded-secret"@,
            severity: Severity::High,
            cwe: Some("CWE-798"@),
            description: "JWT key function uses a hardcoded secret"@,
            language: Language::Go,
            cnsa2_deadline: None,
        }
    }

    /// What the rule says of itself.
    pub fn info(&self) -> (r: RuleInfo)
        ensures
            r@ == Self::facts(),
    {
        RuleInfo {
            id: "go/jwt-hardcoded-secret",
            severity: Severity::High,
            cwe: Some("CWE-798"),
            description: "JWT key function uses a hardcoded secret",
            language: Language::Go,
            cnsa2_deadline: None,
        }
    }

    /// The findings of the rule in a file.
    pub fn check(&self, source: &str, tree: &SyntaxTree) -> (out: Vec<Finding>)
        requires
            tree.valid(source@),
            tree.len() > 0,
        ensures
            views(out@) == found_in::<Self>((), tree, source@),
    {
        walk_tree::<Self>(&(), tree.root_node(), source)
    }
}

/// A key that is written out, as a regular expression.
pub const LITERAL_KEY: &'static str = r#"\[\]byte\(\s*"[^"]{4,}"\s*\)"#;

impl Visitor for JwtHardcodedSecret {
    type Data = ();

    type Found = Finding;

    open spec fn found(d: (), t: &SyntaxTree, i: int, src: Text) -> Seq<Report> {
        let f = callee(t, i, src);
        said_if(
            (f == Some("jwt.Parse"@) || f == Some("jwt.ParseWithClaims"@) || f == Some(
                "jwt.NewWithClaims"@,
            )) && regex_matches(LITERAL_KEY@, t.text(i, src)),
            Self::facts(),
            "JWT secret is hardcoded — load signing keys from environment or a secrets manager"@,
            t,
            i,
            src,
        )
    }

    fn visit(_data: &(), node: Node<'_>, source: &str, out: &mut Vec<Finding>) {
        let f = called(node, source);
        let hit = (text_is(f, "jwt.Parse") || text_is(f, "jwt.ParseWithClaims") || text_is(
            f,
            "jwt.NewWithClaims",
        )) && is_regex_match(LITERAL_KEY, node.text(source));
        say_if(
            hit,
            &JwtHardcodedSecret.info(),
            "JWT secret is hardcoded — load signing keys from environment or a secrets manager",
            node,
            source,
            out,
        );
    }
}

/// Untrusted input reaches os/exec command execution sink.
#[derive(Debug, Clone, Copy)]
pub struct TaintCommandInjection;

impl TaintCommandInjection {
    /// What the rule says of itself.
    pub open spec fn facts() -> RuleFacts {
        RuleFacts {
            id: "go/taint-command-injection"@,
            severity: Severity::Critical,
            cwe: Some("CWE-78"@),
            description: "Untrusted input reaches os/exec command execution sink"@,
            language: Language::Go,
            cnsa2_deadline: None,
        }
    }

    /// What the rule says of itself.
    pub fn info(&self) -> (r: RuleInfo)
        ensures
            r@ == Self::facts(),
    {
        RuleInfo {
            id: "go/taint-command-injection",
            severity: Severity::Critical,
            cwe: Some("CWE-78"),
            description: "Untrusted input reaches os/exec command execution sink",
            language: Language::Go,
            cnsa2_deadline: None,
        }
    }

    /// What the rule looks for.
    pub open spec fn rule() -> TaintRule {
        TaintRule {
            sources: go_sources(),
            sinks: seq![
                m_call("exec.Command"@, "exec.Command"@),
                m_call("exec.CommandContext"@, "exec.CommandContext"@),
            ],
            sanitizers: Seq::empty(),
        }
    }

    /// What the rule looks for.
    pub fn spec() -> (r: TaintSpec)
        ensures
            r@ == Self::rule(),
    {
        let mut sinks: Vec<NodeMatcher> = Vec::new();
        sinks.push(call("exec.Command", "exec.Command"));
        sinks.push(call("exec.CommandContext", "exec.CommandContext"));
        let sanitizers: Vec<NodeMatcher> = Vec::new();
        TaintSpec { sources: go_taint_sources(), sinks, sanitizers }
    }

    /// What the rule says of its flows.
    pub open spec fn meta() -> MetaFacts {
        MetaFacts {
            rule_id: "go/taint-command-injection"@,
            severity: Severity::Critical,
            cwe: Some("CWE-78"@),
            fix_suggestion: Some(
                "Go has no standard shell-escape function. Pass arguments as separate elements to `exec.Command(name, arg1, arg2)` instead of building a shell string — this avoids shell interpretation entirely"@,
            ),
            verb: " reaches "@,
            advice: " — untrusted input can inject OS commands"@,
        }
    }

    fn dispatch() -> (r: TaintRuleMeta)
        ensures
            r@ == Self::meta(),
    {
        TaintRuleMeta {
            rule_id: "go/taint-command-injection",
            severity: Severity::Critical,
            cwe: Some("CWE-78"),
            fix_suggestion: Some(
                "Go has no standard shell-escape function. Pass arguments as separate elements to `exec.Command(name, arg1, arg2)` instead of building a shell string — this avoids shell interpretation entirely",
            ),
            verb: " reaches ",
            advice: " — untrusted input can inject OS commands",
        }
    }

    /// The findings of the rule in a file.
    pub fn check_with_context(&self, source: &str, tree: &SyntaxTree, ctx: &FileContext<'_>) -> (out:
        Vec<Finding>)
        requires
            tree.valid(source@),
            tree.len() > 0,
        ensures
            views(out@) == go_rule_reports(Self::meta(), Self::rule(), tree, source@, ctx),
    {
        map_go_taint_findings(&Self::dispatch(), source, tree, ctx, &Self::spec())
    }
}

/// Untrusted input reaches database Query/Exec sink.
#[derive(Debug, Clone, Copy)]
pub struct TaintSqlInjection;

impl TaintSqlInjection {
    /// What the rule says of itself.
    pub open spec fn facts() -> RuleFacts {
        RuleFacts {
            id: "go/taint-sql-injection"@,
            severity: Severity::Critical,
            cwe: Some("CWE-89"@),
            description: "Untrusted input reaches database Query/Exec sink"@,
            language: Language::Go,
            cnsa2_deadline: None,
        }
    }

    /// What the rule says of itself.
    pub fn info(&self) -> (r: RuleInfo)
        ensures
            r@ == Self::facts(),
    {
        RuleInfo {
            id: "go/taint-sql-injection",
            severity: Severity::Critical,
            cwe: Some("CWE-89"),
            description: "Untrusted input reaches database Query/Exec sink",
            language: Language::Go,
            cnsa2_deadline: None,
        }
    }

    /// What the rule looks for.
    pub open spec fn rule() -> TaintRule {
        TaintRule {
            sources: go_sources(),
            sinks: seq![
                m_method("Query"@, "db/tx/stmt.Query"@),
                m_method("QueryContext"@, "db/tx/stmt.QueryContext"@),
                m_method("QueryRow"@, "db/tx/stmt.QueryRow"@),
                m_method("QueryRowContext"@, "db/tx/stmt.QueryRowContext"@),
                m_method("Exec"@, "db/tx/stmt.Exec"@),
                m_method("ExecContext"@, "db/tx/stmt.ExecContext"@),
                m_method("Raw"@, "gorm.DB.Raw"@),
            ],
            sanitizers: Seq::empty(),
        }
    }

    /// What the rule looks for.
    pub fn spec() -> (r: TaintSpec)
        ensures
            r@ == Self::rule(),
    {
        let mut sinks: Vec<NodeMatcher> = Vec::new();
        sinks.push(method_name("Query", "db/tx/stmt.Query"));
        sinks.push(method_name("QueryContext", "db/tx/stmt.QueryContext"));
        sinks.push(method_name("QueryRow", "db/tx/stmt.QueryRow"));
        sinks.push(method_name("QueryRowContext", "db/tx/stmt.QueryRowContext"));
        sinks.push(method_name("Exec", "db/tx/stmt.Exec"));
        sinks.push(method_name("ExecContext", "db/tx/stmt.ExecContext"));
        sinks.push(method_name("Raw", "gorm.DB.Raw"));
        let sanitizers: Vec<NodeMatcher> = Vec::new();
        TaintSpec { sources: go_taint_sources(), sinks, sanitizers }
    }

    /// What the rule says of its flows.
    pub open spec fn meta() -> MetaFacts {
        MetaFacts {
            rule_id: "go/taint-sql-injection"@,
            severity: Severity::Critical,
            cwe: Some("CWE-89"@),
            fix_suggestion: Some(
                "Use parameterized queries: `db.Query(\"SELECT * FROM users WHERE name = $1\", name)`"@,
            ),
            verb: " reaches "@,
            advice: " — untrusted input can inject SQL"@,
        }
    }

    fn dispatch() -> (r: TaintRuleMeta)
        ensures
            r@ == Self::meta(),
    {
        TaintRuleMeta {
            rule_id: "go/taint-sql-injection",
            severity: Severity::Critical,
            cwe: Some("CWE-89"),
            fix_suggestion: Some(
                "Use parameterized queries: `db.Query(\"SELECT * FROM users WHERE name = $1\", name)`",
            ),
            verb: " reaches ",
            advice: " — untrusted input can inject SQL",
        }
    }

    /// The findings of the rule in a file.
    pub fn check_with_context(&self, source: &str, tree: &SyntaxTree, ctx: &FileContext<'_>) -> (out:
        Vec<Finding>)
        requires
            tree.valid(source@),
            tree.len() > 0,
        ensures
            views(out@) == go_rule_reports(Self::meta(), Self::rule(), tree, source@, ctx),
    {
        map_go_taint_findings(&Self::dispatch(), source, tree, ctx, &Self::spec())
    }
}

/// Untrusted input reaches template parsing sink (potential SSTI).
#[derive(Debug, Clone, Copy)]
pub struct TaintSsti;

impl TaintSsti {
    /// What the rule says of itself.
    pub open spec fn facts() -> RuleFacts {
        RuleFacts {
            id: "go/taint-ssti"@,
            severity: Severity::Critical,
            cwe: Some("CWE-1336"@),
            description: "Untrusted input reaches template parsing sink (potential SSTI)"@,
            language: Language::Go,
            cnsa2_deadline: None,
        }
    }

    /// What the rule says of itself.
    pub fn info(&self) -> (r: RuleInfo)
        ensures
            r@ == Self::facts(),
    {
        RuleInfo {
            id: "go/taint-ssti",
            severity: Severity::Critical,
            cwe: Some("CWE-1336"),
            description: "Untrusted input reaches template parsing sink (potential SSTI)",
            language: Language::Go,
            cnsa2_deadline: None,
        }
    }

    /// What the rule looks for.
    pub open spec fn rule() -> TaintRule {
        TaintRule {
            sources: go_sources(),
            sinks: seq![
                m_method("Parse"@, "template.Parse"@),
                m_call("template.Must"@, "template.Must"@),
                m_call("template.New"@, "template.New"@),
            ],
            sanitizers: Seq::empty(),
        }
    }

    /// What the rule looks for.
    pub fn spec() -> (r: TaintSpec)
        ensures
            r@ == Self::rule(),
    {
        let mut sinks: Vec<NodeMatcher> = Vec::new();
        sinks.push(method_name("Parse", "template.Parse"));
        sinks.push(call("template.Must", "template.Must"));
        sinks.push(call("template.New", "template.New"));
        let sanitizers: Vec<NodeMatcher> = Vec::new();
        TaintSpec { sources: go_taint_sources(), sinks, sanitizers }
    }

    /// What the rule says of its flows.
    pub open spec fn meta() -> MetaFacts {
        MetaFacts {
            rule_id: "go/taint-ssti"@,
            severity: Severity::Critical,
            cwe: Some("CWE-1336"@),
            fix_suggestion: Some(
                "Use pre-defined template files with template.ParseFiles() instead of parsing user-controlled template strings"@,
            ),
            verb: " reaches "@,
            advice: " — untrusted input can inject server-side templates"@,
        }
    }

    fn dispatch() -> (r: TaintRuleMeta)
        ensures
            r@ == Self::meta(),
    {
        TaintRuleMeta {
            rule_id: "go/taint-ssti",
            severity: Severity::Critical,
            cwe: Some("CWE-1336"),
            fix_suggestion: Some(
                "Use pre-defined template files with template.ParseFiles() instead of parsing user-controlled template strings",
            ),
            verb: " reaches ",
            advice: " — untrusted input can inject server-side templates",
        }
    }

    /// The findings of the rule in a file.
    pub fn check_with_context(&self, source: &str, tree: &SyntaxTree, ctx: &FileContext<'_>) -> (out:
        Vec<Finding>)
        requires
            tree.valid(source@),
            tree.len() > 0,
        ensures
            views(out@) == go_rule_reports(Self::meta(), Self::rule(), tree, source@, ctx),
    {
        map_go_taint_findings(&Self::dispatch(), source, tree, ctx, &Self::spec())
    }
}

/// Untrusted input reaches XPath query sink (potential XPath injection).
#[derive(Debug, Clone, Copy)]
pub struct TaintXpathInjection;

impl TaintXpathInjection {
    /// What the rule says of itself.
    pub open spec fn facts() -> RuleFacts {
        RuleFacts {
            id: "go/taint-xpath-injection"@,
            severity: Severity::High,
            cwe: Some("CWE-643"@),
            description: "Untrusted input reaches XPath query sink (potential XPath injection)"@,
            language: Language::Go,
            cnsa2_deadline: None,
        }
    }

    /// What the rule says of itself.
    pub fn info(&self) -> (r: RuleInfo)
        ensures
            r@ == Self::facts(),
    {
        RuleInfo {
            id: "go/taint-xpath-injection",
            severity: Severity::High,
            cwe: Some("CWE-643"),
            description: "Untrusted input reaches XPath query sink (potential XPath injection)",
            language: Language::Go,
            cnsa2_deadline: None,
        }
    }

    /// What the rule looks for.
    pub open spec fn rule() -> TaintRule {
        TaintRule {
            sources: go_sources(),
            sinks: seq![
                m_call("xmlpath.Compile"@, "xmlpath.Compile"@),
                m_call("xpath.Compile"@, "xpath.Compile"@),
                m_call("xmlquery.QueryAll"@, "xmlquery.QueryAll"@),
                m_call("xmlquery.Query"@, "xmlquery.Query"@),
                m_call("htmlquery.QueryAll"@, "htmlquery.QueryAll"@),
            ],
            sanitizers: Seq::empty(),
        }
    }

    /// What the rule looks for.
    pub fn spec() -> (r: TaintSpec)
        ensures
            r@ == Self::rule(),
    {
        let mut sinks: Vec<NodeMatcher> = Vec::new();
        sinks.push(call("xmlpath.Compile", "xmlpath.Compile"));
        sinks.push(call("xpath.Compile", "xpath.Compile"));
        sinks.push(call("xmlquery.QueryAll", "xmlquery.QueryAll"));
        sinks.push(call("xmlquery.Query", "xmlquery.Query"));
        sinks.push(call("htmlquery.QueryAll", "htmlquery.QueryAll"));
        let sanitizers: Vec<NodeMatcher> = Vec::new();
        TaintSpec { sources: go_taint_sources(), sinks, sanitizers }
    }

    /// What the rule says of its flows.
    pub open spec fn meta() -> MetaFacts {
        MetaFacts {
            rule_id: "go/taint-xpath-injection"@,
            severity: Severity::High,
            cwe: Some("CWE-643"@),
            fix_suggestion: Some(
                "Validate and sanitize user input before building XPath expressions"@,
            ),
            verb: " reaches "@,
            advice: " — untrusted input can inject XPath queries"@,
        }
    }

    fn dispatch() -> (r: TaintRuleMeta)
        ensures
            r@ == Self::meta(),
    {
        TaintRuleMeta {
            rule_id: "go/taint-xpath-injection",
            severity: Severity::High,
            cwe: Some("CWE-643"),
            fix_suggestion: Some(
                "Validate and sanitize user input before building XPath expressions",
            ),
            verb: " reaches ",
            advice: " — untrusted input can inject XPath queries",
        }
    }

    /// The findings of the rule in a file.
    pub fn check_with_context(&self, source: &str, tree: &SyntaxTree, ctx: &FileContext<'_>) -> (out:
        Vec<Finding>)
        requires
            tree.valid(source@),
            tree.len() > 0,
        ensures
            views(out@) == go_rule_reports(Self::meta(), Self::rule(), tree, source@, ctx),
    {
        map_go_taint_findings(&Self::dispatch(), source, tree, ctx, &Self::spec())
    }
}

/// Untrusted input reaches LDAP search sink (potential LDAP injection).
#[derive(Debug, Clone, Copy)]
pub struct TaintLdapInjection;

impl TaintLdapInjection {
    /// What the rule says of itself.
    pub open spec fn facts() -> RuleFacts {
        RuleFacts {
            id: "go/taint-ldap-injection"@,
            severity: Severity::High,
            cwe: Some("CWE-90"@),
            description: "Untrusted input reaches LDAP search sink (potential LDAP injection)"@,
            language: Language::Go,
            cnsa2_deadline: None,
        }
    }

    /// What the rule says of itself.
    pub fn info(&self) -> (r: RuleInfo)
        ensures
            r@ == Self::facts(),
    {
        RuleInfo {
            id: "go/taint-ldap-injection",
            severity: Severity::High,
            cwe: Some("CWE-90"),
            description: "Untrusted input reaches LDAP search sink (potential LDAP injection)",
            language: Language::Go,
            cnsa2_deadline: None,
        }
    }

    /// What the rule looks for.
    pub open spec fn rule() -> TaintRule {
        TaintRule {
            sources: go_sources(),
            sinks: seq![
                m_call("ldap.NewSearchRequest"@, "ldap.NewSearchRequest"@),
                m_call("ldap.SearchRequest"@, "ldap.SearchRequest"@),
                m_call("conn.Search"@, "conn.Search"@),
                m_call("client.Search"@, "client.Search"@),
                m_call("l.Search"@, "l.Search"@),
            ],
            sanitizers: Seq::empty(),
        }
    }

    /// What the rule looks for.
    pub fn spec() -> (r: TaintSpec)
        ensures
            r@ == Self::rule(),
    {
        let mut sinks: Vec<NodeMatcher> = Vec::new();
        sinks.push(call("ldap.NewSearchRequest", "ldap.NewSearchRequest"));
        sinks.push(call("ldap.SearchRequest", "ldap.SearchRequest"));
        sinks.push(call("conn.Search", "conn.Search"));
        sinks.push(call("client.Search", "client.Search"));
        sinks.push(call("l.Search", "l.Search"));
        let sanitizers: Vec<NodeMatcher> = Vec::new();
        TaintSpec { sources: go_taint_sources(), sinks, sanitizers }
    }

    /// What the rule says of its flows.
    pub open spec fn meta() -> MetaFacts {
        MetaFacts {
            rule_id: "go/taint-ldap-injection"@,
            severity: Severity::High,
            cwe: Some("CWE-90"@),
            fix_suggestion: Some(
                "Use ldap.EscapeFilter() to sanitize user input before building LDAP filter strings"@,
            ),
            verb: " reaches "@,
            advice: " — untrusted input can inject LDAP queries"@,
        }
    }

    fn dispatch() -> (r: TaintRuleMeta)
        ensures
            r@ == Self::meta(),
    {
        TaintRuleMeta {
            rule_id: "go/taint-ldap-injection",
            severity: Severity::High,
            cwe: Some("CWE-90"),
            fix_suggestion: Some(
                "Use ldap.EscapeFilter() to sanitize user input before building LDAP filter strings",
            ),
            verb: " reaches ",
            advice: " — untrusted input can inject LDAP queries",
        }
    }

    /// The findings of the rule in a file.
    pub fn check_with_context(&self, source: &str, tree: &SyntaxTree, ctx: &FileContext<'_>) -> (out:
        Vec<Finding>)
        requires
            tree.valid(source@),
            tree.len() > 0,
        ensures
            views(out@) == go_rule_reports(Self::meta(), Self::rule(), tree, source@, ctx),
    {
        map_go_taint_findings(&Self::dispatch(), source, tree, ctx, &Self::spec())
    }
}

/// Untrusted input reaches outbound net/http sink (potential SSRF).
#[derive(Debug, Clone, Copy)]
pub struct TaintSsrf;

impl TaintSsrf {
    /// What the rule says of itself.
    pub open spec fn facts() -> RuleFacts {
        RuleFacts {
            id: "go/taint-ssrf"@,
            severity: Severity::High,
            cwe: Some("CWE-918"@),
            description: "Untrusted input reaches outbound net/http sink (potential SSRF)"@,
            language: Language::Go,
            cnsa2_deadline: None,
        }
    }

    /// What the rule says of itself.
    pub fn info(&self) -> (r: RuleInfo)
        ensures
            r@ == Self::facts(),
    {
        RuleInfo {
            id: "go/taint-ssrf",
            severity: Severity::High,
            cwe: Some("CWE-918"),
            description: "Untrusted input reaches outbound net/http sink (potential SSRF)",
            language: Language::Go,
            cnsa2_deadline: None,
        }
    }

    /// What the rule looks for.
    pub open spec fn rule() -> TaintRule {
        TaintRule {
            sources: go_sources(),
            sinks: seq![
                m_call("http.Get"@, "http.Get"@),
                m_call("http.Post"@, "http.Post"@),
                m_call("http.PostForm"@, "http.PostForm"@),
                m_call("http.NewRequest"@, "http.NewRequest"@),
                m_call("http.NewRequestWithContext"@, "http.NewRequestWithContext"@),
                m_call("http.Head"@, "http.Head"@),
            ],
            sanitizers: Seq::empty(),
        }
    }

    /// What the rule looks for.
    pub fn spec() -> (r: TaintSpec)
        ensures
            r@ == Self::rule(),
    {
        let mut sinks: Vec<NodeMatcher> = Vec::new();
        sinks.push(call("http.Get", "http.Get"));
        sinks.push(call("http.Post", "http.Post"));
        sinks.push(call("http.PostForm", "http.PostForm"));
        sinks.push(call("http.NewRequest", "http.NewRequest"));
        sinks.push(call("http.NewRequestWithContext", "http.NewRequestWithContext"));
        sinks.push(call("http.Head", "http.Head"));
        let sanitizers: Vec<NodeMatcher> = Vec::new();
        TaintSpec { sources: go_taint_sources(), sinks, sanitizers }
    }

    /// What the rule says of its flows.
    pub open spec fn meta() -> MetaFacts {
        MetaFacts {
            rule_id: "go/taint-ssrf"@,
            severity: Severity::High,
            cwe: Some("CWE-918"@),
            fix_suggestion: Some(
                "Validate URLs against an allowlist of permitted hosts before making requests"@,
            ),
            verb: " reaches "@,
            advice: " — untrusted input can drive server-side request forgery"@,
        }
    }

    fn dispatch() -> (r: TaintRuleMeta)
        ensures
            r@ == Self::meta(),
    {
        TaintRuleMeta {
            rule_id: "go/taint-ssrf",
            severity: Severity::High,
            cwe: Some("CWE-918"),
            fix_suggestion: Some(
                "Validate URLs against an allowlist of permitted hosts before making requests",
            ),
            verb: " reaches ",
            advice: " — untrusted input can drive server-side request forgery",
        }
    }

    /// The findings of the rule in a file.
    pub fn check_with_context(&self, source: &str, tree: &SyntaxTree, ctx: &FileContext<'_>) -> (out:
        Vec<Finding>)
        requires
            tree.valid(source@),
            tree.len() > 0,
        ensures
            views(out@) == go_rule_reports(Self::meta(), Self::rule(), tree, source@, ctx),
    {
        map_go_taint_findings(&Self::dispatch(), source, tree, ctx, &Self::spec())
    }
}

/// Untrusted input reaches a logging sink — possible log injection.
#[derive(Debug, Clone, Copy)]
pub struct TaintLogInjection;

impl TaintLogInjection {
    /// What the rule says of itself.
    pub open spec fn facts() -> RuleFacts {
        RuleFacts {
            id: "go/taint-log-injection"@,
            severity: Severity::Medium,
            cwe: Some("CWE-117"@),
            description: "Untrusted input reaches a logging sink — possible log injection"@,
            language: Language::Go,
            cnsa2_deadline: None,
        }
    }

    /// What the rule says of itself.
    pub fn info(&self) -> (r: RuleInfo)
        ensures
            r@ == Self::facts(),
    {
        RuleInfo {
            id: "go/taint-log-injection",
            severity: Severity::Medium,
            cwe: Some("CWE-117"),
            description: "Untrusted input reaches a logging sink — possible log injection",
            language: Language::Go,
            cnsa2_deadline: None,
        }
    }

    /// What the rule looks for.
    pub open spec fn rule() -> TaintRule {
        TaintRule {
            sources: go_sources(),
            sinks: seq![
                m_call("log.Printf"@, "log.Printf"@),
                m_call("log.Println"@, "log.Println"@),
                m_call("log.Print"@, "log.Print"@),
                m_call("log.Fatalf"@, "log.Fatalf"@),
                m_call("fmt.Printf"@, "fmt.Printf"@),
            ],
            sanitizers: Seq::empty(),
        }
    }

    /// What the rule looks for.
    pub fn spec() -> (r: TaintSpec)
        ensures
            r@ == Self::rule(),
    {
        let mut sinks: Vec<NodeMatcher> = Vec::new();
        sinks.push(call("log.Printf", "log.Printf"));
        sinks.push(call("log.Println", "log.Println"));
        sinks.push(call("log.Print", "log.Print"));
        sinks.push(call("log.Fatalf", "log.Fatalf"));
        sinks.push(call("fmt.Printf", "fmt.Printf"));
        let sanitizers: Vec<NodeMatcher> = Vec::new();
        TaintSpec { sources: go_taint_sources(), sinks, sanitizers }
    }

    /// What the rule says of its flows.
    pub open spec fn meta() -> MetaFacts {
        MetaFacts {
            rule_id: "go/taint-log-injection"@,
            severity: Severity::Medium,
            cwe: Some("CWE-117"@),
            fix_suggestion: Some(
                "Sanitize user input before logging — strip newlines and control characters"@,
            ),
            verb: " reaches "@,
            advice: " — untrusted input can forge log entries"@,
        }
    }

    fn dispatch() -> (r: TaintRuleMeta)
        ensures
            r@ == Self::meta(),
    {
        TaintRuleMeta {
            rule_id: "go/taint-log-injection",
            severity: Severity::Medium,
            cwe: Some("CWE-117"),
            fix_suggestion: Some(
                "Sanitize user input before logging — strip newlines and control characters",
            ),
            verb: " reaches ",
            advice: " — untrusted input can forge log entries",
        }
    }

    /// The findings of the rule in a file.
    pub fn check_with_context(&self, source: &str, tree: &SyntaxTree, ctx: &FileContext<'_>) -> (out:
        Vec<Finding>)
        requires
            tree.valid(source@),
            tree.len() > 0,
        ensures
            views(out@) == go_rule_reports(Self::meta(), Self::rule(), tree, source@, ctx),
    {
        map_go_taint_findings(&Self::dispatch(), source, tree, ctx, &Self::spec())
    }
}

/// Untrusted input reaches a MongoDB query sink — possible NoSQL injection.
#[derive(Debug, Clone, Copy)]
pub struct TaintNosqlInjection;

impl TaintNosqlInjection {
    /// What the rule says of itself.
    pub open spec fn facts() -> RuleFacts {
        RuleFacts {
            id: "go/taint-nosql-injection"@,
            severity: Severity::High,
            cwe: Some("CWE-943"@),
            description: "Untrusted input reaches a MongoDB query sink — possible NoSQL injection"@,
            language: Language::Go,
            cnsa2_deadline: None,
        }
    }

    /// What the rule says of itself.
    pub fn info(&self) -> (r: RuleInfo)
        ensures
            r@ == Self::facts(),
    {
        RuleInfo {
            id: "go/taint-nosql-injection",
            severity: Severity::High,
            cwe: Some("CWE-943"),
            description: "Untrusted input reaches a MongoDB query sink — possible NoSQL injection",
            language: Language::Go,
            cnsa2_deadline: None,
        }
    }

    /// What the rule looks for.
    pub open spec fn rule() -> TaintRule {
        TaintRule {
            sources: go_sources(),
            sinks: seq![
                m_call("collection.Find"@, "MongoDB collection.Find()"@),
                m_call("db.Find"@, "MongoDB db.Find()"@),
                m_method("FindOne"@, "collection.FindOne"@),
                m_method("UpdateOne"@, "collection.UpdateOne"@),
                m_method("UpdateMany"@, "collection.UpdateMany"@),
                m_method("DeleteOne"@, "collection.DeleteOne"@),
                m_method("DeleteMany"@, "collection.DeleteMany"@),
                m_method("Aggregate"@, "collection.Aggregate"@),
                m_method("CountDocuments"@, "collection.CountDocuments"@),
            ],
            sanitizers: Seq::empty(),
        }
    }

    /// What the rule looks for.
    pub fn spec() -> (r: TaintSpec)
        ensures
            r@ == Self::rule(),
    {
        let mut sinks: Vec<NodeMatcher> = Vec::new();
        sinks.push(call("collection.Find", "MongoDB collection.Find()"));
        sinks.push(call("db.Find", "MongoDB db.Find()"));
        sinks.push(method_name("FindOne", "collection.FindOne"));
        sinks.push(method_name("UpdateOne", "collection.UpdateOne"));
        sinks.push(method_name("UpdateMany", "collection.UpdateMany"));
        sinks.push(method_name("DeleteOne", "collection.DeleteOne"));
        sinks.push(method_name("DeleteMany", "collection.DeleteMany"));
        sinks.push(method_name("Aggregate", "collection.Aggregate"));
        sinks.push(method_name("CountDocuments", "collection.CountDocuments"));
        let sanitizers: Vec<NodeMatcher> = Vec::new();
        TaintSpec { sources: go_taint_sources(), sinks, sanitizers }
    }

    /// What the rule says of its flows.
    pub open spec fn meta() -> MetaFacts {
        MetaFacts {
            rule_id: "go/taint-nosql-injection"@,
            severity: Severity::High,
            cwe: Some("CWE-943"@),
            fix_suggestion: Some(
                "Validate and sanitize user input before building MongoDB queries."@,
            ),
            verb: " reaches "@,
            advice: " — untrusted input can inject NoSQL operators"@,
        }
    }

    fn dispatch() -> (r: TaintRuleMeta)
        ensures
            r@ == Self::meta(),
    {
        TaintRuleMeta {
            rule_id: "go/taint-nosql-injection",
            severity: Severity::High,
            cwe: Some("CWE-943"),
            fix_suggestion: Some(
                "Validate and sanitize user input before building MongoDB queries.",
            ),
            verb: " reaches ",
            advice: " — untrusted input can inject NoSQL operators",
        }
    }

    /// The findings of the rule in a file.
    pub fn check_with_context(&self, source: &str, tree: &SyntaxTree, ctx: &FileContext<'_>) -> (out:
        Vec<Finding>)
        requires
            tree.valid(source@),
            tree.len() > 0,
        ensures
            views(out@) == go_rule_reports(Self::meta(), Self::rule(), tree, source@, ctx),
    {
        map_go_taint_findings(&Self::dispatch(), source, tree, ctx, &Self::spec())
    }
}

/// Untrusted input reaches a filesystem path sink — possible path traversal.
#[derive(Debug, Clone, Copy)]
pub struct TaintPathTraversal;

impl TaintPathTraversal {
    /// What the rule says of itself.
    pub open spec fn facts() -> RuleFacts {
        RuleFacts {
            id: "go/taint-path-traversal"@,
            severity: Severity::High,
            cwe: Some("CWE-22"@),
            description: "Untrusted input reaches a filesystem path sink — possible path traversal"@,
            language: Language::Go,
            cnsa2_deadline: None,
        }
    }

    /// What the rule says of itself.
    pub fn info(&self) -> (r: RuleInfo)
        ensures
            r@ == Self::facts(),
    {
        RuleInfo {
            id: "go/taint-path-traversal",
            severity: Severity::High,
            cwe: Some("CWE-22"),
            description: "Untrusted input reaches a filesystem path sink — possible path traversal",
            language: Language::Go,
            cnsa2_deadline: None,
        }
    }

    /// What the rule looks for.
    pub open spec fn rule() -> TaintRule {
        TaintRule {
            sources: go_sources(),
            sinks: seq![
                m_call("os.Open"@, "os.Open"@),
                m_call("os.OpenFile"@, "os.OpenFile"@),
                m_call("os.ReadFile"@, "os.ReadFile"@),
                m_call("os.WriteFile"@, "os.WriteFile"@),
                m_call("os.Remove"@, "os.Remove"@),
                m_call("os.Stat"@, "os.Stat"@),
                m_call("os.MkdirAll"@, "os.MkdirAll"@),
                m_call("filepath.Join"@, "filepath.Join"@),
                m_call("ioutil.ReadFile"@, "ioutil.ReadFile"@),
                m_call("ioutil.WriteFile"@, "ioutil.WriteFile"@),
                m_method("Open"@, "http.Dir.Open"@),
                m_method("Create"@, "os.Create"@),
                m_method("ReadFile"@, "afero.ReadFile"@),
                m_method("WriteFile"@, "afero.WriteFile"@),
            ],
            sanitizers: seq![
                m_call("filepath.Clean"@, "filepath.Clean"@),
                m_call("filepath.Abs"@, "filepath.Abs"@),
            ],
        }
    }

    /// What the rule looks for.
    pub fn spec() -> (r: TaintSpec)
        ensures
            r@ == Self::rule(),
    {
        let mut sinks: Vec<NodeMatcher> = Vec::new();
        sinks.push(call("os.Open", "os.Open"));
        sinks.push(call("os.OpenFile", "os.OpenFile"));
        sinks.push(call("os.ReadFile", "os.ReadFile"));
        sinks.push(call("os.WriteFile", "os.WriteFile"));
        sinks.push(call("os.Remove", "os.Remove"));
        sinks.push(call("os.Stat", "os.Stat"));
        sinks.push(call("os.MkdirAll", "os.MkdirAll"));
        sinks.push(call("filepath.Join", "filepath.Join"));
        sinks.push(call("ioutil.ReadFile", "ioutil.ReadFile"));
        sinks.push(call("ioutil.WriteFile", "ioutil.WriteFile"));
        sinks.push(method_name("Open", "http.Dir.Open"));
        sinks.push(method_name("Create", "os.Create"));
        sinks.push(method_name("ReadFile", "afero.ReadFile"));
        sinks.push(method_name("WriteFile", "afero.WriteFile"));
        let mut sanitizers: Vec<NodeMatcher> = Vec::new();
        sanitizers.push(call("filepath.Clean", "filepath.Clean"));
        sanitizers.push(call("filepath.Abs", "filepath.Abs"));
        TaintSpec { sources: go_taint_sources(), sinks, sanitizers }
    }

    /// What the rule says of its flows.
    pub open spec fn meta() -> MetaFacts {
        MetaFacts {
            rule_id: "go/taint-path-traversal"@,
            severity: Severity::High,
            cwe: Some("CWE-22"@),
            fix_suggestion: Some(
                "Validate file paths with filepath.Clean() and ensure they don't escape the intended directory"@,
            ),
            verb: " reaches "@,
            advice: " — untrusted input can traverse the filesystem"@,
        }
    }

    fn dispatch() -> (r: TaintRuleMeta)
        ensures
            r@ == Self::meta(),
    {
        TaintRuleMeta {
            rule_id: "go/taint-path-traversal",
            severity: Severity::High,
            cwe: Some("CWE-22"),
            fix_suggestion: Some(
                "Validate file paths with filepath.Clean() and ensure they don't escape the intended directory",
            ),
            verb: " reaches ",
            advice: " — untrusted input can traverse the filesystem",
        }
    }

    /// The findings of the rule in a file.
    pub fn check_with_context(&self, source: &str, tree: &SyntaxTree, ctx: &FileContext<'_>) -> (out:
        Vec<Finding>)
        requires
            tree.valid(source@),
            tree.len() > 0,
        ensures
            views(out@) == go_rule_reports(Self::meta(), Self::rule(), tree, source@, ctx),
    {
        map_go_taint_findings(&Self::dispatch(), source, tree, ctx, &Self::spec())
    }
}

// ─── Taint rules ─────────────────────────────────────────────────────────────
/// The report of a flow.
pub open spec fn go_report(m: MetaFacts, src: Text, f: Flow) -> Report {
    Report { confidence: 100, taint_hops: None, ..flow_report(m, src, f) }
}

fn map_go_taint_finding(meta: &TaintRuleMeta, source: &str, finding: &TaintFinding) -> (r: Finding)
    ensures
        r@ == go_report(meta@, source@, finding@),
{
    let mut r = map_taint_finding(meta, source, finding);
    r.confidence = 100;
    r.taint_hops = None;
    r
}

/// The aliases of the file's imports: those that are known already, or those in the tree.
pub open spec fn aliases_of(ctx: &FileContext<'_>, t: &SyntaxTree, src: Text) -> Map<Text, Text> {
    match ctx.go_aliases {
        Some(a) => a@,
        None => import_aliases(t, src),
    }
}

/// What is known of the other files of the package, where anything is.
pub open spec fn package_of(ctx: &FileContext<'_>) -> Option<
    (Seq<Text>, Map<Text, Vec<FunctionTaintSummary>>),
> {
    match (ctx.cross_file_summaries, ctx.go_same_package_paths) {
        (Some(s), Some(p)) => Some((views(p@), s@)),
        _ => None,
    }
}

/// What is known of the other files of the package, for one rule.
pub open spec fn package_for(ctx: &FileContext<'_>, id: Text) -> Option<CrossFacts> {
    match package_of(ctx) {
        Some((paths, files)) => Some(CrossFacts { paths, files, allowed: seq![id] }),
        None => None,
    }
}

/// The reports of one rule in a file.
pub open spec fn go_rule_reports(
    m: MetaFacts,
    rule: TaintRule,
    t: &SyntaxTree,
    src: Text,
    ctx: &FileContext<'_>,
) -> Seq<Report> {
    let flows = file_flows(
        t,
        0,
        rule_facts(src, rule, Some(aliases_of(ctx, t, src)), package_for(ctx, m.rule_id), None),
    );
    Seq::new(flows.len(), |k: int| go_report(m, src, flows[k]))
}

fn map_go_taint_findings(
    meta: &TaintRuleMeta,
    source: &str,
    tree: &SyntaxTree,
    ctx: &FileContext<'_>,
    spec: &TaintSpec,
) -> (out: Vec<Finding>)
    requires
        tree.valid(source@),
        tree.len() > 0,
    ensures
        views(out@) == go_rule_reports(meta@, spec@, tree, source@, ctx),
{
    let local = go_aliases_from_tree(source, tree);
    let aliases = match ctx.go_aliases {
        Some(a) => a,
        None => &local,
    };
    let raw = match (ctx.cross_file_summaries, &ctx.go_same_package_paths) {
        (Some(summaries), Some(paths)) => {
            let cross = CrossFileInfo {
                same_package_paths: paths,
                summaries,
                rule_filter: RuleFilter::Single(meta.rule_id),
            };
            assert(package_for(ctx, meta@.rule_id) == Some(cross@));
            analyze_tree_with_cross_file(
                tree.root_node(),
                source,
                spec,
                Some(aliases),
                Some(&cross),
            )
        },
        _ => analyze_tree_with_cross_file(tree.root_node(), source, spec, Some(aliases), None),
    };
    let ghost all = go_rule_reports(meta@, spec@, tree, source@, ctx);
    let mut out: Vec<Finding> = Vec::new();
    let mut k: usize = 0;
    while k < raw.len()
        invariant
            k <= raw@.len(),
            all.len() == raw@.len(),
            forall|j: int|
                #![trigger all[j]]
                0 <= j < all.len() ==> all[j] == go_report(meta@, source@, views(raw@)[j]),
            views(out@) =~= all.take(k as int),
        decreases raw.len() - k,
    {
        assert(views(raw@)[k as int] == raw@[k as int]@);
        out.push(map_go_taint_finding(meta, source, &raw[k]));
        k = k + 1;
    }
    assert(views(out@) =~= all);
    out
}

/// The taint rules for Go, each under its id.
pub open spec fn go_rules() -> Seq<(Text, TaintRule)> {
    seq![
        ("go/taint-command-injection"@, TaintCommandInjection::rule()),
        ("go/taint-sql-injection"@, TaintSqlInjection::rule()),
        ("go/taint-ssti"@, TaintSsti::rule()),
        ("go/taint-xpath-injection"@, TaintXpathInjection::rule()),
        ("go/taint-ldap-injection"@, TaintLdapInjection::rule()),
        ("go/taint-ssrf"@, TaintSsrf::rule()),
        ("go/taint-log-injection"@, TaintLogInjection::rule()),
        ("go/taint-nosql-injection"@, TaintNosqlInjection::rule()),
        ("go/taint-path-traversal"@, TaintPathTraversal::rule()),
    ]
}

/// The taint rules for Go, each under its id.
pub fn go_taint_rule_specs() -> (r: Vec<(&'static str, TaintSpec)>)
    ensures
        views(r@) == go_rules(),
{
    let mut v: Vec<(&'static str, TaintSpec)> = Vec::new();
    v.push(("go/taint-command-injection", TaintCommandInjection::spec()));
    v.push(("go/taint-sql-injection", TaintSqlInjection::spec()));
    v.push(("go/taint-ssti", TaintSsti::spec()));
    v.push(("go/taint-xpath-injection", TaintXpathInjection::spec()));
    v.push(("go/taint-ldap-injection", TaintLdapInjection::spec()));
    v.push(("go/taint-ssrf", TaintSsrf::spec()));
    v.push(("go/taint-log-injection", TaintLogInjection::spec()));
    v.push(("go/taint-nosql-injection", TaintNosqlInjection::spec()));
    v.push(("go/taint-path-traversal", TaintPathTraversal::spec()));
    v
}

/// What the taint rules for Go say of their flows.
pub open spec fn go_dispatch() -> Seq<MetaFacts> {
    seq![
        TaintCommandInjection::meta(),
        TaintSqlInjection::meta(),
        TaintSsti::meta(),
        TaintXpathInjection::meta(),
        TaintLdapInjection::meta(),
        TaintSsrf::meta(),
        TaintLogInjection::meta(),
        TaintNosqlInjection::meta(),
        TaintPathTraversal::meta(),
    ]
}

/// What the taint rules for Go say of their flows.
pub fn go_taint_rule_dispatch_table() -> (r: Vec<TaintRuleMeta>)
    ensures
        views(r@) == go_dispatch(),
{
    let mut v: Vec<TaintRuleMeta> = Vec::new();
    v.push(TaintCommandInjection::dispatch());
    v.push(TaintSqlInjection::dispatch());
    v.push(TaintSsti::dispatch());
    v.push(TaintXpathInjection::dispatch());
    v.push(TaintLdapInjection::dispatch());
    v.push(TaintSsrf::dispatch());
    v.push(TaintLogInjection::dispatch());
    v.push(TaintNosqlInjection::dispatch());
    v.push(TaintPathTraversal::dispatch());
    v
}

/// Whether an id is that of one of the taint rules for Go.
pub fn is_go_taint_rule_id(rule_id: &str) -> (r: bool)
    ensures
        r == exists|k: int| 0 <= k < go_rules().len() && #[trigger] go_rules()[k].0 == rule_id@,
{
    let rules = go_taint_rule_specs();
    let ghost all = views(rules@);
    let mut i: usize = 0;
    while i < rules.len()
        invariant
            all == views(rules@),
            all == go_rules(),
            i <= rules@.len(),
            forall|k: int| 0 <= k < i ==> #[trigger] go_rules()[k].0 != rule_id@,
        decreases rules.len() - i,
    {
        assert(all[i as int] == rules@[i as int]@);
        if text_eq(rules[i].0, rule_id) {
            assert(go_rules()[i as int].0 == rule_id@);
            return true;
        }
        i = i + 1;
    }
    false
}

/// What the first of the rules from `from` on with this id says of its flows.
pub open spec fn meta_named(table: Seq<MetaFacts>, from: int, id: Text) -> Option<MetaFacts>
    decreases table.len() - from,
{
    if from < 0 || from >= table.len() {
        None
    } else if table[from].rule_id == id {
        Some(table[from])
    } else {
        meta_named(table, from + 1, id)
    }
}

fn find_meta(table: &Vec<TaintRuleMeta>, id: &str) -> (r: Option<TaintRuleMeta>)
    ensures
        opt_view(r) == meta_named(views(table@), 0, id@),
{
    let mut k: usize = 0;
    while k < table.len()
        invariant
            k <= table@.len(),
            meta_named(views(table@), 0, id@) == meta_named(views(table@), k as int, id@),
        decreases table.len() - k,
    {
        assert(views(table@)[k as int] == table@[k as int]@);
        if text_eq(table[k].rule_id, id) {
            return Some(table[k]);
        }
        k = k + 1;
    }
    None
}

/// The reports of the flows from `from` on, each under its rule.
pub open spec fn dispatched(flows: Seq<(Text, Flow)>, from: int, src: Text) -> Seq<Report>
    decreases flows.len() - from,
{
    if from < 0 || from >= flows.len() {
        Seq::empty()
    } else {
        let rest = dispatched(flows, from + 1, src);
        match meta_named(go_dispatch(), 0, flows[from].0) {
            Some(m) => seq![go_report(m, src, flows[from].1)] + rest,
            None => rest,
        }
    }
}

/// The reports of every enabled taint rule in a file.
pub open spec fn go_batched_reports(
    enabled: Seq<Text>,
    t: &SyntaxTree,
    src: Text,
    ctx: &FileContext<'_>,
) -> Seq<Report> {
    dispatched(
        batched_flows(
            t,
            0,
            src,
            enabled_rules(go_rules(), 0, enabled),
            0,
            Some(aliases_of(ctx, t, src)),
            package_of(ctx),
        ),
        0,
        src,
    )
}

/// The findings of every enabled taint rule in a file. Rules with the same sanitizers share
/// a walk.
#[verifier::loop_isolation(false)]
pub fn run_go_taint_batched(
    source: &str,
    tree: &SyntaxTree,
    ctx: &FileContext<'_>,
    enabled_rule_ids: &Vec<String>,
) -> (out: Vec<Finding>)
    requires
        tree.valid(source@),
        tree.len() > 0,
    ensures
        views(out@) == go_batched_reports(views(enabled_rule_ids@), tree, source@, ctx),
{
    let local = go_aliases_from_tree(source, tree);
    let aliases = match ctx.go_aliases {
        Some(a) => a,
        None => &local,
    };
    let table = go_taint_rule_dispatch_table();
    let specs = go_taint_rule_specs();
    let ghost on = views(enabled_rule_ids@);
    let mut rules: Vec<BatchedRule<'_>> = Vec::new();
    let ghost chosen = enabled_rules(go_rules(), 0, on);
    assert(views(rules@) + chosen =~= chosen);
    let mut j: usize = 0;
    while j < specs.len()
        invariant
            j <= specs@.len(),
            views(rules@) + enabled_rules(go_rules(), j as int, on) == chosen,
        decreases specs.len() - j,
    {
        assert(views(specs@)[j as int] == specs@[j as int]@);
        if has_text(enabled_rule_ids, specs[j].0) {
            let ghost before = views(rules@);
            rules.push(BatchedRule { rule_id: specs[j].0, spec: &specs[j].1 });
            proof {
                let rest = enabled_rules(go_rules(), j + 1, on);
                assert(before.push(go_rules()[j as int]) + rest =~= before + (seq![
                    go_rules()[j as int],
                ] + rest));
            }
        }
        j = j + 1;
    }
    assert(views(rules@) + Seq::<(Text, TaintRule)>::empty() =~= views(rules@));
    let raw = match (ctx.cross_file_summaries, &ctx.go_same_package_paths) {
        (Some(summaries), Some(paths)) => {
            let cross = CrossFileInfoBatched { same_package_paths: paths, summaries };
            analyze_tree_batched(tree.root_node(), source, &rules, Some(aliases), Some(&cross))
        },
        _ => analyze_tree_batched(tree.root_node(), source, &rules, Some(aliases), None),
    };
    let ghost flows = views(raw@);
    let ghost all = dispatched(flows, 0, source@);
    let mut out: Vec<Finding> = Vec::new();
    assert(views(out@) + all =~= all);
    let mut k: usize = 0;
    while k < raw.len()
        invariant
            k <= raw@.len(),
            views(out@) + dispatched(flows, k as int, source@) == all,
        decreases raw.len() - k,
    {
        assert(flows[k as int] == raw@[k as int]@);
        match find_meta(&table, raw[k].0.as_str()) {
            Some(meta) => {
                let ghost before = views(out@);
                out.push(map_go_taint_finding(&meta, source, &raw[k].1));
                proof {
                    let here = go_report(meta@, source@, flows[k as int].1);
                    let rest = dispatched(flows, k + 1, source@);
                    assert(before.push(here) + rest =~= before + (seq![here] + rest));
                }
            },
            None => {},
        }
        k = k + 1;
    }
    assert(views(out@) + Seq::<Report>::empty() =~= views(out@));
    out
}

/// The table of what the taint rules for Go say of their flows names the rules in their
/// order, each under an id of its own, and agrees with what each rule says of itself.
pub proof fn go_taint_rules_are_found()
    ensures
        go_rules().len() == go_dispatch().len(),
        distinct_ids(go_rules()),
        forall|k: int|
            #![trigger go_rules()[k]]
            0 <= k < go_rules().len() ==> {
                &&& go_dispatch()[k].rule_id == go_rules()[k].0
                &&& rule_named(go_rules(), 0, go_rules()[k].0) == go_rules()[k].1
                &&& meta_named(go_dispatch(), 0, go_rules()[k].0) == Some(go_dispatch()[k])
            },
        TaintCommandInjection::facts().id == TaintCommandInjection::meta().rule_id && TaintCommandInjection::facts().severity == TaintCommandInjection::meta().severity
            && TaintCommandInjection::facts().cwe == TaintCommandInjection::meta().cwe,
        TaintSqlInjection::facts().id == TaintSqlInjection::meta().rule_id && TaintSqlInjection::facts().severity == TaintSqlInjection::meta().severity
            && TaintSqlInjection::facts().cwe == TaintSqlInjection::meta().cwe,
        TaintSsti::facts().id == TaintSsti::meta().rule_id && TaintSsti::facts().severity == TaintSsti::meta().severity
            && TaintSsti::facts().cwe == TaintSsti::meta().cwe,
        TaintXpathInjection::facts().id == TaintXpathInjection::meta().rule_id && TaintXpathInjection::facts().severity == TaintXpathInjection::meta().severity
            && TaintXpathInjection::facts().cwe == TaintXpathInjection::meta().cwe,
        TaintLdapInjection::facts().id == TaintLdapInjection::meta().rule_id && TaintLdapInjection::facts().severity == TaintLdapInjection::meta().severity
            && TaintLdapInjection::facts().cwe == TaintLdapInjection::meta().cwe,
        TaintSsrf::facts().id == TaintSsrf::meta().rule_id && TaintSsrf::facts().severity == TaintSsrf::meta().severity
            && TaintSsrf::facts().cwe == TaintSsrf::meta().cwe,
        TaintLogInjection::facts().id == TaintLogInjection::meta().rule_id && TaintLogInjection::facts().severity == TaintLogInjection::meta().severity
            && TaintLogInjection::facts().cwe == TaintLogInjection::meta().cwe,
        TaintNosqlInjection::facts().id == TaintNosqlInjection::meta().rule_id && TaintNosqlInjection::facts().severity == TaintNosqlInjection::meta().severity
            && TaintNosqlInjection::facts().cwe == TaintNosqlInjection::meta().cwe,
        TaintPathTraversal::facts().id == TaintPathTraversal::meta().rule_id && TaintPathTraversal::facts().severity == TaintPathTraversal::meta().severity
            && TaintPathTraversal::facts().cwe == TaintPathTraversal::meta().cwe,
{
    reveal_strlit("go/taint-command-injection");
    reveal_strlit("go/taint-sql-injection");
    reveal_strlit("go/taint-ssti");
    reveal_strlit("go/taint-xpath-injection");
    reveal_strlit("go/taint-ldap-injection");
    reveal_strlit("go/taint-ssrf");
    reveal_strlit("go/taint-log-injection");
    reveal_strlit("go/taint-nosql-injection");
    reveal_strlit("go/taint-path-traversal");
    assert("go/taint-command-injection"@.len() != "go/taint-sql-injection"@.len());
    assert("go/taint-command-injection"@.len() != "go/taint-ssti"@.len());
    assert("go/taint-command-injection"@.len() != "go/taint-xpath-injection"@.len());
    assert("go/taint-command-injection"@.len() != "go/taint-ldap-injection"@.len());
    assert("go/taint-command-injection"@.len() != "go/taint-ssrf"@.len());
    assert("go/taint-command-injection"@.len() != "go/taint-log-injection"@.len());
    assert("go/taint-command-injection"@.len() != "go/taint-nosql-injection"@.len());
    assert("go/taint-command-injection"@.len() != "go/taint-path-traversal"@.len());
    assert("go/taint-sql-injection"@.len() != "go/taint-ssti"@.len());
    assert("go/taint-sql-injection"@.len() != "go/taint-xpath-injection"@.len());
    assert("go/taint-sql-injection"@.len() != "go/taint-ldap-injection"@.len());
    assert("go/taint-sql-injection"@.len() != "go/taint-ssrf"@.len());
    assert("go/taint-sql-injection"@[9] != "go/taint-log-injection"@[9]);
    assert("go/taint-sql-injection"@.len() != "go/taint-nosql-injection"@.len());
    assert("go/taint-sql-injection"@.len() != "go/taint-path-traversal"@.len());
    assert("go/taint-ssti"@.len() != "go/taint-xpath-injection"@.len());
    assert("go/taint-ssti"@.len() != "go/taint-ldap-injection"@.len());
    assert("go/taint-ssti"@[11] != "go/taint-ssrf"@[11]);
    assert("go/taint-ssti"@.len() != "go/taint-log-injection"@.len());
    assert("go/taint-ssti"@.len() != "go/taint-nosql-injection"@.len());
    assert("go/taint-ssti"@.len() != "go/taint-path-traversal"@.len());
    assert("go/taint-xpath-injection"@.len() != "go/taint-ldap-injection"@.len());
    assert("go/taint-xpath-injection"@.len() != "go/taint-ssrf"@.len());
    assert("go/taint-xpath-injection"@.len() != "go/taint-log-injection"@.len());
    assert("go/taint-xpath-injection"@[9] != "go/taint-nosql-injection"@[9]);
    assert("go/taint-xpath-injection"@.len() != "go/taint-path-traversal"@.len());
    assert("go/taint-ldap-injection"@.len() != "go/taint-ssrf"@.len());
    assert("go/taint-ldap-injection"@.len() != "go/taint-log-injection"@.len());
    assert("go/taint-ldap-injection"@.len() != "go/taint-nosql-injection"@.len());
    assert("go/taint-ldap-injection"@[9] != "go/taint-path-traversal"@[9]);
    assert("go/taint-ssrf"@.len() != "go/taint-log-injection"@.len());
    assert("go/taint-ssrf"@.len() != "go/taint-nosql-injection"@.len());
    assert("go/taint-ssrf"@.len() != "go/taint-path-traversal"@.len());
    assert("go/taint-log-injection"@.len() != "go/taint-nosql-injection"@.len());
    assert("go/taint-log-injection"@.len() != "go/taint-path-traversal"@.len());
    assert("go/taint-nosql-injection"@.len() != "go/taint-path-traversal"@.len());
    reveal_with_fuel(rule_named, 10);
    reveal_with_fuel(meta_named, 10);
}

} // verus!
