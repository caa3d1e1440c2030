//! Rules for Java.
use crate::common::{
    found_in, hardcoded_secret_re, is_secret_value_long_enough, passes, said_if, said_of_node,
    said_of_ranges, say_if, say_of_node, say_of_ranges, walk_tree, walked, SecretScanThresholds,
    Thresholds, Visitor, HARDCODED_SECRET_PATTERN,
};
use crate::context::FileContext;
use crate::finding::{Finding, Language, Report, RuleFacts, RuleInfo, Severity};
use crate::java_taint::{
    analyze_tree, extract_cross_file_findings, java_rules, java_taint_rule_specs, CrossFileInfo,
    Java,
};
use crate::pattern::{find_spans, is_regex_match, regex_found, regex_matches};
use crate::scope::{file_cross_flows, file_flows, given, union_rule, Siblings};
use crate::taint_engine::{has_text, Flow, TaintFinding, TaintRule, TaintSpec};
use crate::taint_rule::{
    check_taint_rule, distinct_ids, enabled_reports, enabled_rules, flow_report, map_taint_finding,
    rule_named, rule_reports, run_taint_batched, MetaFacts, TaintLanguage, TaintRuleMeta,
};
use crate::text::{
    append, before_first, begins_with, concat3, contains, first_segment, has_part, last_segment,
    opt_view, past_last, starts_with, text_eq, text_is, to_uppercase, trim, trim_chars, trimmed,
    trimmed_of, uppercase, views, Text,
};
use crate::text_map::TextTable;
use crate::tree::{argument, gap, indices, nth_argument, Node, SyntaxTree};
use vstd::prelude::*;
use vstd::utf8::*;

verus! {

broadcast use {crate::text::group_views, crate::tree::group_tree};

// ─── Reading the syntax tree ─────────────────────────────────────────────────
/// Whether a string literal is a part of the string at node `i`: node `i` itself, an operand
/// of `+`, what stands in parentheses or a branch of a conditional. What stands in lambdas,
/// classes and arguments of calls is not the string itself and does not count.
pub open spec fn has_literal_part(t: &SyntaxTree, i: int, src: Text) -> bool
    decreases gap(i, t.len()),
{
    if !(0 <= i < t.len()) {
        false
    } else if t.kind(i) == "string_literal"@ {
        true
    } else if t.kind(i) == "binary_expression"@ {
        t.field_text(i, "operator"@, src) == Some("+"@) && {
            ||| match t.field(i, "left"@) {
                Some(k) => has_literal_part(t, k, src),
                None => false,
            }
            ||| match t.field(i, "right"@) {
                Some(k) => has_literal_part(t, k, src),
                None => false,
            }
        }
    } else if t.kind(i) == "parenthesized_expression"@ {
        match t.nth_named(i, 0) {
            Some(k) => has_literal_part(t, k, src),
            None => false,
        }
    } else if t.kind(i) == "ternary_expression"@ {
        ||| match t.field(i, "consequence"@) {
            Some(k) => has_literal_part(t, k, src),
            None => false,
        }
        ||| match t.field(i, "alternative"@) {
            Some(k) => has_literal_part(t, k, src),
            None => false,
        }
    } else {
        false
    }
}

fn holds_literal_part(node: Node<'_>, source: &str) -> (r: bool)
    requires
        node.valid(source@),
    ensures
        r == has_literal_part(node.tree, node.index as int, source@),
    decreases node.tree.len() - node.index,
{
    if node.is_kind("string_literal") {
        true
    } else if node.is_kind("binary_expression") {
        if !text_is(node.field_text("operator", source), "+") {
            return false;
        }
        let first = match node.child_by_field_name("left") {
            Some(k) => holds_literal_part(k, source),
            None => false,
        };
        let second = match node.child_by_field_name("right") {
            Some(k) => holds_literal_part(k, source),
            None => false,
        };
        first || second
    } else if node.is_kind("parenthesized_expression") {
        match node.named_child(0) {
            Some(k) => holds_literal_part(k, source),
            None => false,
        }
    } else if node.is_kind("ternary_expression") {
        let first = match node.child_by_field_name("consequence") {
            Some(k) => holds_literal_part(k, source),
            None => false,
        };
        let second = match node.child_by_field_name("alternative") {
            Some(k) => holds_literal_part(k, source),
            None => false,
        };
        first || second
    } else {
        false
    }
}

/// Whether node `i` is a string put together with `+` of which a literal is a part, in
/// parentheses or as a branch of a conditional too.
pub open spec fn is_concatenation(t: &SyntaxTree, i: int, src: Text) -> bool
    decreases gap(i, t.len()),
{
    if !(0 <= i < t.len()) {
        false
    } else if t.kind(i) == "binary_expression"@ {
        has_literal_part(t, i, src)
    } else if t.kind(i) == "parenthesized_expression"@ {
        match t.nth_named(i, 0) {
            Some(k) => is_concatenation(t, k, src),
            None => false,
        }
    } else if t.kind(i) == "ternary_expression"@ {
        ||| match t.field(i, "consequence"@) {
            Some(k) => is_concatenation(t, k, src),
            None => false,
        }
        ||| match t.field(i, "alternative"@) {
            Some(k) => is_concatenation(t, k, src),
            None => false,
        }
    } else {
        false
    }
}

fn is_concatenated_string_arg(arg: Node<'_>, source: &str) -> (r: bool)
    requires
        arg.valid(source@),
    ensures
        r == is_concatenation(arg.tree, arg.index as int, source@),
    decreases arg.tree.len() - arg.index,
{
    if arg.is_kind("binary_expression") {
        holds_literal_part(arg, source)
    } else if arg.is_kind("parenthesized_expression") {
        match arg.named_child(0) {
            Some(k) => is_concatenated_string_arg(k, source),
            None => false,
        }
    } else if arg.is_kind("ternary_expression") {
        let first = match arg.child_by_field_name("consequence") {
            Some(k) => is_concatenated_string_arg(k, source),
            None => false,
        };
        let second = match arg.child_by_field_name("alternative") {
            Some(k) => is_concatenated_string_arg(k, source),
            None => false,
        };
        first || second
    } else {
        false
    }
}

/// The simple name of a declared type: `List` for `java.util.List<String>`.
pub open spec fn base_type(s: Text) -> Text {
    trimmed(last_segment(trimmed(first_segment(trimmed(s), '<')), '.'))
}

fn type_text_base<'a>(t: &'a str) -> (r: &'a str)
    ensures
        r@ == base_type(t@),
{
    trim(past_last(trim(before_first(trim(t), '<')), '.'))
}

/// The types after the variables that the siblings from `c` on declare with the type `ty`.
pub open spec fn with_declarators(
    t: &SyntaxTree,
    c: int,
    e: int,
    ty: Text,
    src: Text,
    types: Map<Text, Text>,
) -> Map<Text, Text>
    decreases gap(c, e),
{
    if c >= e {
        types
    } else {
        with_declarators(
            t,
            t.after(c),
            e,
            ty,
            src,
            match t.field_text(c, "name"@, src) {
                Some(n) => if t.kind(c) == "variable_declarator"@ {
                    types.insert(n, ty)
                } else {
                    types
                },
                None => types,
            },
        )
    }
}

/// The types after the declaration at node `i`.
pub open spec fn with_declaration(t: &SyntaxTree, i: int, src: Text, types: Map<Text, Text>) -> Map<
    Text,
    Text,
> {
    if t.kind(i) == "local_variable_declaration"@ || t.kind(i) == "field_declaration"@ {
        match t.field_text(i, "type"@, src) {
            Some(ty) => with_declarators(t, i + 1, t.after(i), base_type(ty), src, types),
            None => types,
        }
    } else if t.kind(i) == "formal_parameter"@ {
        match (t.field_text(i, "type"@, src), t.field_text(i, "name"@, src)) {
            (Some(ty), Some(n)) => types.insert(n, base_type(ty)),
            _ => types,
        }
    } else {
        types
    }
}

/// The types after the declarations among the nodes from `c` to before `e`.
pub open spec fn types_from(t: &SyntaxTree, c: int, e: int, src: Text, types: Map<Text, Text>) -> Map<
    Text,
    Text,
>
    decreases gap(c, e),
{
    if c >= e {
        types
    } else {
        types_from(t, c + 1, e, src, with_declaration(t, c, src, types))
    }
}

/// The declared types of the variables, fields and parameters of a file. Of several with
/// the same name the last counts.
pub open spec fn declared_types(t: &SyntaxTree, src: Text) -> Map<Text, Text> {
    types_from(t, 0, t.after(0), src, Map::empty())
}

fn add_declarators(node: Node<'_>, ty: &str, source: &str, types: &mut TextTable)
    requires
        node.valid(source@),
    ensures
        final(types)@ == with_declarators(
            node.tree,
            node.index + 1,
            node.tree.after(node.index as int),
            ty@,
            source@,
            old(types)@,
        ),
{
    let e: usize = node.end();
    let mut c: usize = node.index + 1;
    while c < e
        invariant
            node.valid(source@),
            e <= node.tree.len(),
            e == node.tree.after(node.index as int),
            with_declarators(node.tree, node.index + 1, e as int, ty@, source@, old(types)@)
                == with_declarators(node.tree, c as int, e as int, ty@, source@, types@),
        decreases gap(c as int, e as int),
    {
        let n = node.at(c);
        if n.is_kind("variable_declarator") {
            match n.field_text("name", source) {
                Some(name) => types.insert(name, ty),
                None => {},
            }
        }
        c = n.end();
    }
}

fn add_declaration(node: Node<'_>, source: &str, types: &mut TextTable)
    requires
        node.valid(source@),
    ensures
        final(types)@ == with_declaration(node.tree, node.index as int, source@, old(types)@),
{
    if node.is_kind("local_variable_declaration") || node.is_kind("field_declaration") {
        match node.field_text("type", source) {
            Some(ty) => add_declarators(node, type_text_base(ty), source, types),
            None => {},
        }
    } else if node.is_kind("formal_parameter") {
        match (node.field_text("type", source), node.field_text("name", source)) {
            (Some(ty), Some(n)) => types.insert(n, type_text_base(ty)),
            _ => {},
        }
    }
}

fn collect_declared_types(tree: &SyntaxTree, source: &str) -> (types: TextTable)
    requires
        tree.valid(source@),
        tree.len() > 0,
    ensures
        types@ == declared_types(tree, source@),
{
    let root = tree.root_node();
    let e: usize = root.end();
    let mut types = TextTable::new();
    let mut c: usize = 0;
    while c < e
        invariant
            root.valid(source@),
            root.tree == tree,
            e <= tree.len(),
            e == tree.after(0),
            declared_types(tree, source@) == types_from(
                tree,
                c as int,
                e as int,
                source@,
                types@,
            ),
        decreases gap(c as int, e as int),
    {
        add_declaration(root.at(c), source, &mut types);
        c = c + 1;
    }
    types
}

/// Whether a variable is declared with the type `ty`.
pub open spec fn is_declared(types: Map<Text, Text>, name: Text, ty: Text) -> bool {
    types.contains_key(name) && types[name] == ty
}

fn has_declared_type(types: &TextTable, name: &str, ty: &str) -> (r: bool)
    ensures
        r == is_declared(types@, name@, ty@),
{
    match types.get(name) {
        Some(x) => text_eq(x, ty),
        None => false,
    }
}

/// Whether a node of this kind is a literal.
pub open spec fn is_literal_kind(kind: Text) -> bool {
    ||| kind == "string_literal"@
    ||| kind == "character_literal"@
    ||| kind == "decimal_integer_literal"@
    ||| kind == "hex_integer_literal"@
    ||| kind == "octal_integer_literal"@
    ||| kind == "binary_integer_literal"@
    ||| kind == "decimal_floating_point_literal"@
    ||| kind == "hex_floating_point_literal"@
    ||| kind == "true"@
    ||| kind == "false"@
    ||| kind == "null_literal"@
}

fn is_literal(node: Node<'_>) -> (r: bool)
    requires
        node.wf(),
    ensures
        r == is_literal_kind(node.tree.kind(node.index as int)),
{
    node.is_kind("string_literal") || node.is_kind("character_literal") || node.is_kind(
        "decimal_integer_literal",
    ) || node.is_kind("hex_integer_literal") || node.is_kind("octal_integer_literal")
        || node.is_kind("binary_integer_literal") || node.is_kind("decimal_floating_point_literal")
        || node.is_kind("hex_floating_point_literal") || node.is_kind("true") || node.is_kind(
        "false",
    ) || node.is_kind("null_literal")
}

/// The name of the method that is called at node `i`.
pub open spec fn invoked(t: &SyntaxTree, i: int, src: Text) -> Option<Text> {
    if t.kind(i) == "method_invocation"@ {
        t.field_text(i, "name"@, src)
    } else {
        None
    }
}

fn invoked_method<'s>(node: Node<'_>, source: &'s str) -> (r: Option<&'s str>)
    requires
        node.valid(source@),
    ensures
        opt_view(r) == invoked(node.tree, node.index as int, source@),
{
    if node.is_kind("method_invocation") {
        node.field_text("name", source)
    } else {
        None
    }
}

/// The type that is created at node `i`.
pub open spec fn created(t: &SyntaxTree, i: int, src: Text) -> Option<Text> {
    if t.kind(i) == "object_creation_expression"@ {
        t.field_text(i, "type"@, src)
    } else {
        None
    }
}

fn created_type<'s>(node: Node<'_>, source: &'s str) -> (r: Option<&'s str>)
    requires
        node.valid(source@),
    ensures
        opt_view(r) == created(node.tree, node.index as int, source@),
{
    if node.is_kind("object_creation_expression") {
        node.field_text("type", source)
    } else {
        None
    }
}

/// Whether the call at node `i` has a first argument that is no literal.
pub open spec fn is_dynamic(t: &SyntaxTree, i: int) -> bool {
    argument(t, i, 0) matches Some(a) && !is_literal_kind(t.kind(a))
}

fn has_dynamic_argument(node: Node<'_>) -> (r: bool)
    requires
        node.wf(),
    ensures
        r == is_dynamic(node.tree, node.index as int),
{
    match nth_argument(node, 0) {
        Some(a) => !is_literal(a),
        None => false,
    }
}

/// The receiver of the method `method` that is called at node `i`.
pub open spec fn receiver(t: &SyntaxTree, i: int, method: Text, src: Text) -> Option<Text> {
    if invoked(t, i, src) == Some(method) {
        t.field_text(i, "object"@, src)
    } else {
        None
    }
}

fn receiver_of<'s>(node: Node<'_>, method: &str, source: &'s str) -> (r: Option<&'s str>)
    requires
        node.valid(source@),
    ensures
        opt_view(r) == receiver(node.tree, node.index as int, method@, source@),
{
    if text_is(invoked_method(node, source), method) {
        node.field_text("object", source)
    } else {
        None
    }
}

/// Potential SQL injection via string concatenation in query method.
#[derive(Debug, Clone, Copy)]
pub struct NoSqlInjection;

impl NoSqlInjection {
    /// What the rule says of itself.
    pub open spec fn facts() -> RuleFacts {
        RuleFacts {
            id: "java/no-sql-injection"@,
            severity: Severity::Critical,
            cwe: Some("CWE-89"@),
            description: "Potential SQL injection via string concatenation in query method"@,
            language: Language::Java,
            cnsa2_deadline: None,
        }
    }

    /// What the rule says of itself.
    pub fn info(&self) -> (r: RuleInfo)
        ensures
            r@ == Self::facts(),
    {
        RuleInfo {
            id: "java/no-sql-injection",
            severity: Severity::Critical,
            cwe: Some("CWE-89"),
            description: "Potential SQL injection via string concatenation in query method",
            language: Language::Java,
            cnsa2_deadline: None,
        }
    }

    /// The findings of the rule in a file.
    pub fn check(&self, source: &str, tree: &SyntaxTree) -> (out: Vec<Finding>)
        requires
            tree.valid(source@),
            tree.len() > 0,
        ensures
            views(out@) == found_in::<Self>((), tree, source@),
    {
        walk_tree::<Self>(&(), tree.root_node(), source)
    }
}

/// The methods that run a query, as a regular expression.
pub const SQL_METHODS: &'static str = r"^(executeQuery|execute|createQuery|createNativeQuery)$";

/// Whether node `i` runs a query that is put together from parts.
pub open spec fn is_built_query(t: &SyntaxTree, i: int, src: Text) -> bool {
    &&& invoked(t, i, src) matches Some(name)
    &&& regex_matches(SQL_METHODS@, name)
    &&& argument(t, i, 0) matches Some(a)
    &&& is_concatenation(t, a, src)
}

fn is_built_query_node(node: Node<'_>, source: &str) -> (r: bool)
    requires
        node.valid(source@),
    ensures
        r == is_built_query(node.tree, node.index as int, source@),
{
    match invoked_method(node, source) {
        Some(name) => {
            if !is_regex_match(SQL_METHODS, name) {
                return false;
            }
            match nth_argument(node, 0) {
                Some(a) => is_concatenated_string_arg(a, source),
                None => false,
            }
        },
        None => false,
    }
}

impl Visitor for NoSqlInjection {
    type Data = ();

    type Found = Finding;

    open spec fn found(d: (), t: &SyntaxTree, i: int, src: Text) -> Seq<Report> {
        said_if(
            is_built_query(t, i, src),
            Self::facts(),
            "SQL query built with string concatenation — use parameterized queries or prepared statements"@,
            t,
            i,
            src,
        )
    }

    fn visit(_data: &(), node: Node<'_>, source: &str, out: &mut Vec<Finding>) {
        say_if(
            is_built_query_node(node, source),
            &NoSqlInjection.info(),
            "SQL query built with string concatenation — use parameterized queries or prepared statements",
            node,
            source,
            out,
        );
    }
}

/// Potential command injection via Runtime.exec or ProcessBuilder with dynamic input.
#[derive(Debug, Clone, Copy)]
pub struct NoCommandInjection;

impl NoCommandInjection {
    /// What the rule says of itself.
    pub open spec fn facts() -> RuleFacts {
        RuleFacts {
            id: "java/no-command-injection"@,
            severity: Severity::Critical,
            cwe: Some("CWE-78"@),
            description: "Potential command injection via Runtime.exec or ProcessBuilder with dynamic input"@,
            language: Language::Java,
            cnsa2_deadline: None,
        }
    }

    /// What the rule says of itself.
    pub fn info(&self) -> (r: RuleInfo)
        ensures
            r@ == Self::facts(),
    {
        RuleInfo {
            id: "java/no-command-injection",
            severity: Severity::Critical,
            cwe: Some("CWE-78"),
            description: "Potential command injection via Runtime.exec or ProcessBuilder with dynamic input",
            language: Language::Java,
            cnsa2_deadline: None,
        }
    }

    /// The findings of the rule in a file.
    pub fn check(&self, source: &str, tree: &SyntaxTree) -> (out: Vec<Finding>)
        requires
            tree.valid(source@),
            tree.len() > 0,
        ensures
            views(out@) == found_in::<Self>((), tree, source@),
    {
        walk_tree::<Self>(&(), tree.root_node(), source)
    }
}

/// Whether node `i` runs a command that is no literal.
pub open spec fn is_dynamic_exec(t: &SyntaxTree, i: int, src: Text) -> bool {
    &&& receiver(t, i, "exec"@, src) matches Some(obj)
    &&& has_part(obj, "getRuntime()"@) || has_part(obj, "Runtime"@)
    &&& is_dynamic(t, i)
}

fn is_dynamic_exec_node(node: Node<'_>, source: &str) -> (r: bool)
    requires
        node.valid(source@),
    ensures
        r == is_dynamic_exec(node.tree, node.index as int, source@),
{
    match receiver_of(node, "exec", source) {
        Some(obj) => (contains(obj, "getRuntime()") || contains(obj, "Runtime"))
            && has_dynamic_argument(node),
        None => false,
    }
}

impl Visitor for NoCommandInjection {
    type Data = ();

    type Found = Finding;

    open spec fn found(d: (), t: &SyntaxTree, i: int, src: Text) -> Seq<Report> {
        said_if(
            is_dynamic_exec(t, i, src),
            Self::facts(),
            "Runtime.exec() called with dynamic argument — risk of command injection"@,
            t,
            i,
            src,
        ) + said_if(
            created(t, i, src) == Some("ProcessBuilder"@) && is_dynamic(t, i),
            Self::facts(),
            "ProcessBuilder created with dynamic argument — risk of command injection"@,
            t,
            i,
            src,
        )
    }

    fn visit(_data: &(), node: Node<'_>, source: &str, out: &mut Vec<Finding>) {
        let info = NoCommandInjection.info();
        say_if(
            is_dynamic_exec_node(node, source),
            &info,
            "Runtime.exec() called with dynamic argument — risk of command injection",
            node,
            source,
            out,
        );
        say_if(
            text_is(created_type(node, source), "ProcessBuilder") && has_dynamic_argument(node),
            &info,
            "ProcessBuilder created with dynamic argument — risk of command injection",
            node,
            source,
            out,
        );
    }
}

/// Unsafe deserialization can lead to remote code execution.
#[derive(Debug, Clone, Copy)]
pub struct NoUnsafeDeserialization;

impl NoUnsafeDeserialization {
    /// What the rule says of itself.
    pub open spec fn facts() -> RuleFacts {
        RuleFacts {
            id: "java/no-unsafe-deserialization"@,
            severity: Severity::Critical,
            cwe: Some("CWE-502"@),
            description: "Unsafe deserialization can lead to remote code execution"@,
            language: Language::Java,
            cnsa2_deadline: None,
        }
    }

    /// What the rule says of itself.
    pub fn info(&self) -> (r: RuleInfo)
        ensures
            r@ == Self::facts(),
    {
        RuleInfo {
            id: "java/no-unsafe-deserialization",
            severity: Severity::Critical,
            cwe: Some("CWE-502"),
            description: "Unsafe deserialization can lead to remote code execution",
            language: Language::Java,
            cnsa2_deadline: None,
        }
    }

    /// The findings of the rule in a file.
    pub fn check(&self, source: &str, tree: &SyntaxTree) -> (out: Vec<Finding>)
        requires
            tree.valid(source@),
            tree.len() > 0,
        ensures
            views(out@) == found_in::<Self>(declared_types(tree, source@), tree, source@),
    {
        let types = collect_declared_types(tree, source);
        walk_tree::<Self>(&types, tree.root_node(), source)
    }
}

/// Whether a receiver reads objects of any type: it names a type that does, or is a
/// variable of such a type.
pub open spec fn reads_objects(types: Map<Text, Text>, obj: Text) -> bool {
    ||| has_part(obj, "ObjectInputStream"@)
    ||| has_part(obj, "XMLDecoder"@)
    ||| is_declared(types, obj, "ObjectInputStream"@)
    ||| is_declared(types, obj, "XMLDecoder"@)
}

fn is_object_reader(types: &TextTable, obj: &str) -> (r: bool)
    ensures
        r == reads_objects(types@, obj@),
{
    contains(obj, "ObjectInputStream") || contains(obj, "XMLDecoder") || has_declared_type(
        types,
        obj,
        "ObjectInputStream",
    ) || has_declared_type(types, obj, "XMLDecoder")
}

impl Visitor for NoUnsafeDeserialization {
    type Data = TextTable;

    type Found = Finding;

    open spec fn found(types: Map<Text, Text>, t: &SyntaxTree, i: int, src: Text) -> Seq<Report> {
        said_if(
            receiver(t, i, "readObject"@, src) matches Some(obj) && reads_objects(types, obj),
            Self::facts(),
            "readObject() on untrusted data can lead to remote code execution — use allowlist-based deserialization"@,
            t,
            i,
            src,
        ) + said_if(
            receiver(t, i, "load"@, src) matches Some(obj) && (has_part(obj, "Yaml"@) || has_part(
                obj,
                "yaml"@,
            )),
            Self::facts(),
            "Yaml.load() deserializes arbitrary objects — use Yaml.safeLoad() or a safe constructor"@,
            t,
            i,
            src,
        )
    }

    fn visit(types: &TextTable, node: Node<'_>, source: &str, out: &mut Vec<Finding>) {
        let info = NoUnsafeDeserialization.info();
        let object = match receiver_of(node, "readObject", source) {
            Some(obj) => is_object_reader(types, obj),
            None => false,
        };
        let yaml = match receiver_of(node, "load", source) {
            Some(obj) => contains(obj, "Yaml") || contains(obj, "yaml"),
            None => false,
        };
        say_if(
            object,
            &info,
            "readObject() on untrusted data can lead to remote code execution — use allowlist-based deserialization",
            node,
            source,
            out,
        );
        say_if(
            yaml,
            &info,
            "Yaml.load() deserializes arbitrary objects — use Yaml.safeLoad() or a safe constructor",
            node,
            source,
            out,
        );
    }
}

/// Potential SSRF via URL or RestTemplate with dynamic input.
#[derive(Debug, Clone, Copy)]
pub struct NoSsrf;

impl NoSsrf {
    /// What the rule says of itself.
    pub open spec fn facts() -> RuleFacts {
        RuleFacts {
            id: "java/no-ssrf"@,
            severity: Severity::High,
            cwe: Some("CWE-918"@),
            description: "Potential SSRF via URL or RestTemplate with dynamic input"@,
            language: Language::Java,
            cnsa2_deadline: None,
        }
    }

    /// What the rule says of itself.
    pub fn info(&self) -> (r: RuleInfo)
        ensures
            r@ == Self::facts(),
    {
        RuleInfo {
            id: "java/no-ssrf",
            severity: Severity::High,
            cwe: Some("CWE-918"),
            description: "Potential SSRF via URL or RestTemplate with dynamic input",
            language: Language::Java,
            cnsa2_deadline: None,
        }
    }

    /// The findings of the rule in a file.
    pub fn check(&self, source: &str, tree: &SyntaxTree) -> (out: Vec<Finding>)
        requires
            tree.valid(source@),
            tree.len() > 0,
        ensures
            views(out@) == found_in::<Self>(declared_types(tree, source@), tree, source@),
    {
        let types = collect_declared_types(tree, source);
        walk_tree::<Self>(&types, tree.root_node(), source)
    }
}

/// Whether a method of `RestTemplate` sends a request.
pub open spec fn sends_request(method: Option<Text>) -> bool {
    ||| method == Some("getForObject"@)
    ||| method == Some("getForEntity"@)
    ||| method == Some("postForObject"@)
    ||| method == Some("postForEntity"@)
    ||| method == Some("exchange"@)
}

fn is_request_method(method: Option<&str>) -> (r: bool)
    ensures
        r == sends_request(opt_view(method)),
{
    text_is(method, "getForObject") || text_is(method, "getForEntity") || text_is(
        method,
        "postForObject",
    ) || text_is(method, "postForEntity") || text_is(method, "exchange")
}

/// Whether node `i` sends a request through a `RestTemplate` to an address that is no
/// literal.
pub open spec fn is_dynamic_request(types: Map<Text, Text>, t: &SyntaxTree, i: int, src: Text) -> bool {
    &&& sends_request(invoked(t, i, src))
    &&& t.field_text(i, "object"@, src) matches Some(obj)
    &&& has_part(obj, "RestTemplate"@) || obj == "restTemplate"@ || is_declared(
        types,
        obj,
        "RestTemplate"@,
    )
    &&& is_dynamic(t, i)
}

fn is_dynamic_request_node(types: &TextTable, node: Node<'_>, source: &str) -> (r: bool)
    requires
        node.valid(source@),
    ensures
        r == is_dynamic_request(types@, node.tree, node.index as int, source@),
{
    if !is_request_method(invoked_method(node, source)) {
        return false;
    }
    match node.field_text("object", source) {
        Some(obj) => (contains(obj, "RestTemplate") || text_eq(obj, "restTemplate")
            || has_declared_type(types, obj, "RestTemplate")) && has_dynamic_argument(node),
        None => false,
    }
}

impl Visitor for NoSsrf {
    type Data = TextTable;

    type Found = Finding;

    open spec fn found(types: Map<Text, Text>, t: &SyntaxTree, i: int, src: Text) -> Seq<Report> {
        said_if(
            created(t, i, src) == Some("URL"@) && is_dynamic(t, i),
            Self::facts(),
            "new URL() with dynamic argument — validate and allowlist target hosts to prevent SSRF"@,
            t,
            i,
            src,
        ) + said_if(
            is_dynamic_request(types, t, i, src),
            Self::facts(),
            "RestTemplate called with dynamic URL — validate and allowlist target hosts to prevent SSRF"@,
            t,
            i,
            src,
        )
    }

    fn visit(types: &TextTable, node: Node<'_>, source: &str, out: &mut Vec<Finding>) {
        let info = NoSsrf.info();
        say_if(
            text_is(created_type(node, source), "URL") && has_dynamic_argument(node),
            &info,
            "new URL() with dynamic argument — validate and allowlist target hosts to prevent SSRF",
            node,
            source,
            out,
        );
        say_if(
            is_dynamic_request_node(types, node, source),
            &info,
            "RestTemplate called with dynamic URL — validate and allowlist target hosts to prevent SSRF",
            node,
            source,
            out,
        );
    }
}

/// Potential path traversal via dynamic file path.
#[derive(Debug, Clone, Copy)]
pub struct NoPathTraversal;

impl NoPathTraversal {
    /// What the rule says of itself.
    pub open spec fn facts() -> RuleFacts {
        RuleFacts {
            id: "java/no-path-traversal"@,
            severity: Severity::High,
            cwe: Some("CWE-22"@),
            description: "Potential path traversal via dynamic file path"@,
            language: Language::Java,
            cnsa2_deadline: None,
        }
    }

    /// What the rule says of itself.
    pub fn info(&self) -> (r: RuleInfo)
        ensures
            r@ == Self::facts(),
    {
        RuleInfo {
            id: "java/no-path-traversal",
            severity: Severity::High,
            cwe: Some("CWE-22"),
            description: "Potential path traversal via dynamic file path",
            language: Language::Java,
            cnsa2_deadline: None,
        }
    }

    /// The findings of the rule in a file.
    pub fn check(&self, source: &str, tree: &SyntaxTree) -> (out: Vec<Finding>)
        requires
            tree.valid(source@),
            tree.len() > 0,
        ensures
            views(out@) == found_in::<Self>((), tree, source@),
    {
        walk_tree::<Self>(&(), tree.root_node(), source)
    }
}

impl Visitor for NoPathTraversal {
    type Data = ();

    type Found = Finding;

    open spec fn found(d: (), t: &SyntaxTree, i: int, src: Text) -> Seq<Report> {
        match created(t, i, src) {
            Some(ty) => said_if(
                (ty == "File"@ || ty == "FileInputStream"@) && is_dynamic(t, i),
                Self::facts(),
                "new "@ + ty
                    + "() with dynamic path — sanitize input to prevent path traversal"@,
                t,
                i,
                src,
            ),
            None => said_if(
                (receiver(t, i, "get"@, src) == Some("Paths"@) || receiver(t, i, "get"@, src)
                    == Some("Path"@)) && is_dynamic(t, i),
                Self::facts(),
                "Paths.get() with dynamic path — sanitize input to prevent path traversal"@,
                t,
                i,
                src,
            ),
        }
    }

    fn visit(_data: &(), node: Node<'_>, source: &str, out: &mut Vec<Finding>) {
        let info = NoPathTraversal.info();
        match created_type(node, source) {
            Some(ty) => {
                let hit = (text_eq(ty, "File") || text_eq(ty, "FileInputStream"))
                    && has_dynamic_argument(node);
                let d = concat3(
                    "new ",
                    ty,
                    "() with dynamic path — sanitize input to prevent path traversal",
                );
                say_if(hit, &info, d.as_str(), node, source, out);
            },
            None => {
                let obj = receiver_of(node, "get", source);
                let hit = (text_is(obj, "Paths") || text_is(obj, "Path")) && has_dynamic_argument(
                    node,
                );
                say_if(
                    hit,
                    &info,
                    "Paths.get() with dynamic path — sanitize input to prevent path traversal",
                    node,
                    source,
                    out,
                );
            },
        }
    }
}

/// Use of weak cryptographic algorithm.
#[derive(Debug, Clone, Copy)]
pub struct NoWeakCrypto;

impl NoWeakCrypto {
    /// What the rule says of itself.
    pub open spec fn facts() -> RuleFacts {
        RuleFacts {
            id: "java/no-weak-crypto"@,
            severity: Severity::Medium,
            cwe: Some("CWE-327"@),
            description: "Use of weak cryptographic algorithm"@,
            language: Language::Java,
            cnsa2_deadline: None,
        }
    }

    /// What the rule says of itself.
    pub fn info(&self) -> (r: RuleInfo)
        ensures
            r@ == Self::facts(),
    {
        RuleInfo {
            id: "java/no-weak-crypto",
            severity: Severity::Medium,
            cwe: Some("CWE-327"),
            description: "Use of weak cryptographic algorithm",
            language: Language::Java,
            cnsa2_deadline: None,
        }
    }

    /// The findings of the rule in a file.
    pub fn check(&self, source: &str, tree: &SyntaxTree) -> (out: Vec<Finding>)
        requires
            tree.valid(source@),
            tree.len() > 0,
        ensures
            views(out@) == found_in::<Self>((), tree, source@),
    {
        walk_tree::<Self>(&(), tree.root_node(), source)
    }
}

/// The names of weak algorithms, as a regular expression.
pub const WEAK_ALGORITHM: &'static str =
    r#"(?i)"(DES|DESede|RC2|RC4|Blowfish|MD5|SHA-?1|.*ECB.*)"#;

/// The class and the first argument where an algorithm is chosen at node `i`.
pub open spec fn algorithm_choice(t: &SyntaxTree, i: int, src: Text) -> Option<(Text, int)> {
    match (receiver(t, i, "getInstance"@, src), argument(t, i, 0)) {
        (Some(class), Some(a)) => Some((class, a)),
        _ => None,
    }
}

fn find_algorithm_choice<'a, 's>(node: Node<'a>, source: &'s str) -> (r: Option<(&'s str, Node<'a>)>)
    requires
        node.valid(source@),
    ensures
        match r {
            Some((class, a)) => {
                &&& algorithm_choice(node.tree, node.index as int, source@) == Some(
                    (class@, a.index as int),
                )
                &&& a.tree == node.tree
                &&& a.wf()
            },
            None => algorithm_choice(node.tree, node.index as int, source@) is None,
        },
{
    match (receiver_of(node, "getInstance", source), nth_argument(node, 0)) {
        (Some(class), Some(a)) => Some((class, a)),
        _ => None,
    }
}

/// Whether a class makes ciphers, hashes or keys.
pub open spec fn makes_ciphers(class: Text) -> bool {
    class == "Cipher"@ || class == "MessageDigest"@ || class == "SecretKeyFactory"@ || class
        == "KeyGenerator"@
}

fn is_cipher_class(class: &str) -> (r: bool)
    ensures
        r == makes_ciphers(class@),
{
    text_eq(class, "Cipher") || text_eq(class, "MessageDigest") || text_eq(
        class,
        "SecretKeyFactory",
    ) || text_eq(class, "KeyGenerator")
}

impl Visitor for NoWeakCrypto {
    type Data = ();

    type Found = Finding;

    open spec fn found(d: (), t: &SyntaxTree, i: int, src: Text) -> Seq<Report> {
        match algorithm_choice(t, i, src) {
            Some((class, a)) => said_if(
                makes_ciphers(class) && regex_matches(WEAK_ALGORITHM@, t.text(a, src)),
                Self::facts(),
                class + ".getInstance("@ + t.text(a, src)
                    + ") uses a weak algorithm — use AES-GCM, SHA-256, or stronger"@,
                t,
                i,
                src,
            ),
            None => Seq::empty(),
        }
    }

    fn visit(_data: &(), node: Node<'_>, source: &str, out: &mut Vec<Finding>) {
        match find_algorithm_choice(node, source) {
            Some((class, a)) => {
                let arg = a.text(source);
                let hit = is_cipher_class(class) && is_regex_match(WEAK_ALGORITHM, arg);
                let mut d = concat3(class, ".getInstance(", arg);
                append(&mut d, ") uses a weak algorithm — use AES-GCM, SHA-256, or stronger");
                say_if(hit, &NoWeakCrypto.info(), d.as_str(), node, source, out);
            },
            None => {
                assert(views(out@) + Seq::<Report>::empty() =~= views(out@));
            },
        }
    }
}

/// Use of quantum-vulnerable cryptographic algorithm (RSA/EC/DSA/DH/Ed25519/X25519).
#[derive(Debug, Clone, Copy)]
pub struct PqVulnerableCrypto;

impl PqVulnerableCrypto {
    /// What the rule says of itself.
    pub open spec fn facts() -> RuleFacts {
        RuleFacts {
            id: "java/pq-vulnerable-crypto"@,
            severity: Severity::High,
            cwe: Some("CWE-327"@),
            description: "Use of quantum-vulnerable cryptographic algorithm (RSA/EC/DSA/DH/Ed25519/X25519)"@,
            language: Language::Java,
            cnsa2_deadline: Some("2033"@),
        }
    }

    /// What the rule says of itself.
    pub fn info(&self) -> (r: RuleInfo)
        ensures
            r@ == Self::facts(),
    {
        RuleInfo {
            id: "java/pq-vulnerable-crypto",
            severity: Severity::High,
            cwe: Some("CWE-327"),
            description: "Use of quantum-vulnerable cryptographic algorithm (RSA/EC/DSA/DH/Ed25519/X25519)",
            language: Language::Java,
            cnsa2_deadline: Some("2033"),
        }
    }

    /// The findings of the rule in a file.
    pub fn check(&self, source: &str, tree: &SyntaxTree) -> (out: Vec<Finding>)
        requires
            tree.valid(source@),
            tree.len() > 0,
        ensures
            views(out@) == found_in::<Self>((), tree, source@),
    {
        walk_tree::<Self>(&(), tree.root_node(), source)
    }
}

/// What replaces RSA.
pub const REPLACES_RSA: &'static str =
    "General use (FIPS category III): X25519MLKEM768 hybrid KEM (or HQC for code-based diversity, draft) for encryption, ML-DSA-65 (FIPS 204) / FN-DSA (FIPS 206, draft) with hybrid cert chains for signatures. CNSA 2.0 / NSS: ML-KEM-1024 for key establishment, ML-DSA-87 for signatures (Java JEP 527).";

/// What replaces signatures.
pub const REPLACES_SIGNATURES: &'static str =
    "General use (FIPS category III): ML-DSA-65 (FIPS 204) or FN-DSA (FIPS 206, draft) for smaller signatures, with hybrid cert chains. CNSA 2.0 / NSS: ML-DSA-87 for signatures (Java JEP 527).";

/// What replaces key agreements.
pub const REPLACES_KEY_AGREEMENT: &'static str =
    "General use (FIPS category III): X25519MLKEM768 hybrid KEM (FIPS 203), or HQC (code-based diversity hedge, draft) as a non-lattice alternative. CNSA 2.0 / NSS: ML-KEM-1024 for key establishment (Java JEP 527).";

/// What replaces key agreements on Montgomery curves.
pub const REPLACES_CURVES: &'static str =
    "General use (FIPS category III): X25519MLKEM768 hybrid KEM (FIPS 203), or HQC (code-based diversity hedge, draft). CNSA 2.0 / NSS: ML-KEM-1024 for key establishment (Java JEP 527).";

/// The label, the canonical name and the replacement of an algorithm that a quantum
/// computer breaks, by its exact name.
pub open spec fn broken_by_name(algo: Text) -> Option<(Text, Text, Text)> {
    if algo == "RSA"@ {
        Some(("RSA"@, "RSA"@, REPLACES_RSA@))
    } else if algo == "EC"@ || algo == "ECDSA"@ {
        Some(("ECDSA/EC"@, "ECDSA"@, REPLACES_SIGNATURES@))
    } else if algo == "DSA"@ {
        Some(("DSA"@, "DSA"@, REPLACES_SIGNATURES@))
    } else if algo == "DH"@ || algo == "DiffieHellman"@ {
        Some(("DH"@, "DH"@, REPLACES_KEY_AGREEMENT@))
    } else if algo == "ECDH"@ {
        Some(("ECDH"@, "ECDH"@, REPLACES_KEY_AGREEMENT@))
    } else if algo == "Ed25519"@ {
        Some(("Ed25519"@, "Ed25519"@, REPLACES_SIGNATURES@))
    } else if algo == "Ed448"@ {
        Some(("Ed448"@, "Ed448"@, REPLACES_SIGNATURES@))
    } else if algo == "EdDSA"@ {
        Some(("EdDSA"@, "Ed25519"@, REPLACES_SIGNATURES@))
    } else if algo == "X25519"@ {
        Some(("X25519"@, "X25519"@, REPLACES_CURVES@))
    } else if algo == "X448"@ {
        Some(("X448"@, "X448"@, REPLACES_CURVES@))
    } else if algo == "XDH"@ {
        Some(("XDH"@, "X25519"@, REPLACES_CURVES@))
    } else {
        None
    }
}

fn find_broken_by_name(algo: &str) -> (r: Option<(&'static str, &'static str, &'static str)>)
    ensures
        opt_view(r) == broken_by_name(algo@),
{
    if text_eq(algo, "RSA") {
        Some(("RSA", "RSA", REPLACES_RSA))
    } else if text_eq(algo, "EC") || text_eq(algo, "ECDSA") {
        Some(("ECDSA/EC", "ECDSA", REPLACES_SIGNATURES))
    } else if text_eq(algo, "DSA") {
        Some(("DSA", "DSA", REPLACES_SIGNATURES))
    } else if text_eq(algo, "DH") || text_eq(algo, "DiffieHellman") {
        Some(("DH", "DH", REPLACES_KEY_AGREEMENT))
    } else if text_eq(algo, "ECDH") {
        Some(("ECDH", "ECDH", REPLACES_KEY_AGREEMENT))
    } else if text_eq(algo, "Ed25519") {
        Some(("Ed25519", "Ed25519", REPLACES_SIGNATURES))
    } else if text_eq(algo, "Ed448") {
        Some(("Ed448", "Ed448", REPLACES_SIGNATURES))
    } else if text_eq(algo, "EdDSA") {
        Some(("EdDSA", "Ed25519", REPLACES_SIGNATURES))
    } else if text_eq(algo, "X25519") {
        Some(("X25519", "X25519", REPLACES_CURVES))
    } else if text_eq(algo, "X448") {
        Some(("X448", "X448", REPLACES_CURVES))
    } else if text_eq(algo, "XDH") {
        Some(("XDH", "X25519", REPLACES_CURVES))
    } else {
        None
    }
}

/// The label, the canonical name and the replacement of an algorithm that a quantum
/// computer breaks.
pub open spec fn broken(algo: Text) -> Option<(Text, Text, Text)> {
    let upper = uppercase(algo);
    if broken_by_name(algo) is Some {
        broken_by_name(algo)
    } else if begins_with(upper, "RSA/"@) || begins_with(upper, "RSA_"@) {
        Some(("RSA"@, "RSA"@, REPLACES_RSA@))
    } else if has_part(upper, "WITHRSA"@) {
        Some(("RSA"@, "RSA"@, REPLACES_SIGNATURES@))
    } else if has_part(upper, "WITHECDSA"@) {
        Some(("ECDSA"@, "ECDSA"@, REPLACES_SIGNATURES@))
    } else if has_part(upper, "WITHDSA"@) && !has_part(upper, "ML-DSA"@) && !has_part(
        upper,
        "SLH-DSA"@,
    ) && !has_part(upper, "FN-DSA"@) && !has_part(upper, "HQC"@) {
        Some(("DSA"@, "DSA"@, REPLACES_SIGNATURES@))
    } else {
        None
    }
}

fn classify_java_pq_algo(algo: &str) -> (r: Option<(&'static str, &'static str, &'static str)>)
    ensures
        opt_view(r) == broken(algo@),
{
    let exact = find_broken_by_name(algo);
    if exact.is_some() {
        return exact;
    }
    let text = to_uppercase(algo);
    let upper = text.as_str();
    if starts_with(upper, "RSA/") || starts_with(upper, "RSA_") {
        return Some(("RSA", "RSA", REPLACES_RSA));
    }
    if contains(upper, "WITHRSA") {
        return Some(("RSA", "RSA", REPLACES_SIGNATURES));
    }
    if contains(upper, "WITHECDSA") {
        return Some(("ECDSA", "ECDSA", REPLACES_SIGNATURES));
    }
    if contains(upper, "WITHDSA") && !contains(upper, "ML-DSA") && !contains(upper, "SLH-DSA")
        && !contains(upper, "FN-DSA") && !contains(upper, "HQC") {
        return Some(("DSA", "DSA", REPLACES_SIGNATURES));
    }
    None
}

/// Whether a class makes key pairs, agreements, signatures or ciphers.
pub open spec fn uses_public_keys(class: Text) -> bool {
    ||| class == "KeyPairGenerator"@
    ||| class == "KeyAgreement"@
    ||| class == "Signature"@
    ||| class == "Cipher"@
    ||| class == "KeyFactory"@
}

fn is_public_key_class(class: &str) -> (r: bool)
    ensures
        r == uses_public_keys(class@),
{
    text_eq(class, "KeyPairGenerator") || text_eq(class, "KeyAgreement") || text_eq(
        class,
        "Signature",
    ) || text_eq(class, "Cipher") || text_eq(class, "KeyFactory")
}

/// What replaces an algorithm where this class uses it.
pub open spec fn replacement_in(class: Text, replacement: Text) -> Text {
    if class == "KeyAgreement"@ {
        REPLACES_KEY_AGREEMENT@
    } else if class == "Signature"@ {
        REPLACES_SIGNATURES@
    } else {
        replacement
    }
}

fn choose_replacement(class: &str, replacement: &'static str) -> (r: &'static str)
    ensures
        r@ == replacement_in(class@, replacement@),
{
    if text_eq(class, "KeyAgreement") {
        REPLACES_KEY_AGREEMENT
    } else if text_eq(class, "Signature") {
        REPLACES_SIGNATURES
    } else {
        replacement
    }
}

impl Visitor for PqVulnerableCrypto {
    type Data = ();

    type Found = Finding;

    open spec fn found(d: (), t: &SyntaxTree, i: int, src: Text) -> Seq<Report> {
        match algorithm_choice(t, i, src) {
            Some((class, a)) => {
                let arg = t.text(a, src);
                match broken(trimmed_of(arg, '"', '"')) {
                    Some((label, canonical, replacement)) => if uses_public_keys(class) {
                        seq![
                            Report {
                                tags: seq!["PQ"@],
                                crypto_algorithm: Some(canonical),
                                ..said_of_node(
                                    Self::facts(),
                                    class + ".getInstance("@ + arg
                                        + ") uses quantum-vulnerable "@ + label
                                        + " — migrate to "@ + replacement_in(class, replacement),
                                    t,
                                    i,
                                    src,
                                )
                            },
                        ]
                    } else {
                        Seq::empty()
                    },
                    None => Seq::empty(),
                }
            },
            None => Seq::empty(),
        }
    }

    fn visit(_data: &(), node: Node<'_>, source: &str, out: &mut Vec<Finding>) {
        match find_algorithm_choice(node, source) {
            Some((class, a)) => {
                let arg = a.text(source);
                if is_public_key_class(class) {
                    match classify_java_pq_algo(trim_chars(arg, '"', '"')) {
                        Some((label, canonical, replacement)) => {
                            let mut d = concat3(class, ".getInstance(", arg);
                            append(&mut d, ") uses quantum-vulnerable ");
                            append(&mut d, label);
                            append(&mut d, " — migrate to ");
                            append(&mut d, choose_replacement(class, replacement));
                            let mut f = say_of_node(
                                &PqVulnerableCrypto.info(),
                                d.as_str(),
                                node,
                                source,
                            );
                            f.tags.push("PQ".to_owned());
                            f.crypto_algorithm = Some(canonical.to_owned());
                            assert(views(f.tags@) =~= seq!["PQ"@]);
                            out.push(f);
                        },
                        None => {},
                    }
                }
            },
            None => {},
        }
        assert(views(out@) =~= views(old(out)@) + Self::found(
            (),
            node.tree,
            node.index as int,
            source@,
        ));
    }
}

/// Post-quantum / hybrid cryptographic algorithm in use (ML-KEM, ML-DSA, SLH-DSA, FN-DSA, HQC, or hybrid KEM).
#[derive(Debug, Clone, Copy)]
pub struct PqReadyCrypto;

impl PqReadyCrypto {
    /// What the rule says of itself.
    pub open spec fn facts() -> RuleFacts {
        RuleFacts {
            id: "java/pq-ready-crypto"@,
            severity: Severity::Low,
            cwe: None,
            description: "Post-quantum / hybrid cryptographic algorithm in use (ML-KEM, ML-DSA, SLH-DSA, FN-DSA, HQC, or hybrid KEM)"@,
            language: Language::Java,
            cnsa2_deadline: None,
        }
    }

    /// What the rule says of itself.
    pub fn info(&self) -> (r: RuleInfo)
        ensures
            r@ == Self::facts(),
    {
        RuleInfo {
            id: "java/pq-ready-crypto",
            severity: Severity::Low,
            cwe: None,
            description: "Post-quantum / hybrid cryptographic algorithm in use (ML-KEM, ML-DSA, SLH-DSA, FN-DSA, HQC, or hybrid KEM)",
            language: Language::Java,
            cnsa2_deadline: None,
        }
    }
}

/// Hardcoded secret or credential detected.
#[derive(Debug, Clone, Copy)]
pub struct NoHardcodedSecret;

impl NoHardcodedSecret {
    /// What the rule says of itself.
    pub open spec fn facts() -> RuleFacts {
        RuleFacts {
            id: "java/no-hardcoded-secret"@,
            severity: Severity::High,
            cwe: Some("CWE-798"@),
            description: "Hardcoded secret or credential detected"@,
            language: Language::Java,
            cnsa2_deadline: None,
        }
    }

    /// What the rule says of itself.
    pub fn info(&self) -> (r: RuleInfo)
        ensures
            r@ == Self::facts(),
    {
        RuleInfo {
            id: "java/no-hardcoded-secret",
            severity: Severity::High,
            cwe: Some("CWE-798"),
            description: "Hardcoded secret or credential detected",
            language: Language::Java,
            cnsa2_deadline: None,
        }
    }

    /// The literals whose variety has to be judged before the rule is run: those that may
    /// be secrets.
    pub fn candidates(&self, source: &str, tree: &SyntaxTree) -> (out: Vec<String>)
        requires
            tree.valid(source@),
            tree.len() > 0,
        ensures
            views(out@) == found_in::<SecretLiterals>((), tree, source@),
    {
        walk_tree::<SecretLiterals>(&(), tree.root_node(), source)
    }

    /// The findings of the rule in a file.
    pub fn check_with_context(&self, source: &str, tree: &SyntaxTree, ctx: &FileContext<'_>) -> (out:
        Vec<Finding>)
        requires
            tree.valid(source@),
            tree.len() > 0,
        ensures
            views(out@) == found_in::<Self>(ctx.secret_thresholds@, tree, source@),
    {
        walk_tree::<Self>(&ctx.secret_thresholds, tree.root_node(), source)
    }
}

/// The name and the literal at node `i` where a variable that holds a secret, going by its
/// name in the field `name`, gets a string literal in the field `value`.
pub open spec fn literal_in(t: &SyntaxTree, i: int, name: Text, value: Text, src: Text) -> Option<
    (Text, Text),
> {
    match (t.field_text(i, name, src), t.field(i, value)) {
        (Some(n), Some(v)) => if regex_matches(HARDCODED_SECRET_PATTERN@, n) && t.kind(v)
            == "string_literal"@ {
            Some((n, trimmed_of(t.text(v, src), '"', '"')))
        } else {
            None
        },
        _ => None,
    }
}

/// The name and the literal where a variable that holds a secret gets one at node `i`.
pub open spec fn secret_literal(t: &SyntaxTree, i: int, src: Text) -> Option<(Text, Text)> {
    if t.kind(i) == "variable_declarator"@ {
        literal_in(t, i, "name"@, "value"@, src)
    } else if t.kind(i) == "assignment_expression"@ {
        match literal_in(t, i, "left"@, "right"@, src) {
            Some((n, v)) => Some((trimmed(n), v)),
            None => None,
        }
    } else {
        None
    }
}

fn find_literal_in<'s>(node: Node<'_>, name: &str, value: &str, source: &'s str) -> (r: Option<
    (&'s str, &'s str),
>)
    requires
        node.valid(source@),
    ensures
        opt_view(r) == literal_in(node.tree, node.index as int, name@, value@, source@),
{
    match (node.field_text(name, source), node.child_by_field_name(value)) {
        (Some(n), Some(v)) => if is_regex_match(hardcoded_secret_re(), n) && v.is_kind(
            "string_literal",
        ) {
            Some((n, trim_chars(v.text(source), '"', '"')))
        } else {
            None
        },
        _ => None,
    }
}

fn find_secret_literal<'s>(node: Node<'_>, source: &'s str) -> (r: Option<(&'s str, &'s str)>)
    requires
        node.valid(source@),
    ensures
        opt_view(r) == secret_literal(node.tree, node.index as int, source@),
{
    if node.is_kind("variable_declarator") {
        find_literal_in(node, "name", "value", source)
    } else if node.is_kind("assignment_expression") {
        match find_literal_in(node, "left", "right", source) {
            Some((n, v)) => Some((trim(n), v)),
            None => None,
        }
    } else {
        None
    }
}

impl Visitor for NoHardcodedSecret {
    type Data = SecretScanThresholds;

    type Found = Finding;

    open spec fn found(limits: Thresholds, t: &SyntaxTree, i: int, src: Text) -> Seq<Report> {
        match secret_literal(t, i, src) {
            Some((n, v)) => said_if(
                passes(limits, v),
                Self::facts(),
                "Hardcoded secret in '"@ + n
                    + "' — use environment variables or a secret manager"@,
                t,
                i,
                src,
            ),
            None => Seq::empty(),
        }
    }

    fn visit(limits: &SecretScanThresholds, node: Node<'_>, source: &str, out: &mut Vec<Finding>) {
        match find_secret_literal(node, source) {
            Some((n, v)) => {
                let d = concat3(
                    "Hardcoded secret in '",
                    n,
                    "' — use environment variables or a secret manager",
                );
                let hit = is_secret_value_long_enough(v, limits);
                say_if(hit, &NoHardcodedSecret.info(), d.as_str(), node, source, out);
            },
            None => {
                assert(views(out@) + Seq::<Report>::empty() =~= views(out@));
            },
        }
    }
}

/// The literals of a file that may be secrets.
pub struct SecretLiterals;

impl Visitor for SecretLiterals {
    type Data = ();

    type Found = String;

    open spec fn found(d: (), t: &SyntaxTree, i: int, src: Text) -> Seq<Text> {
        match secret_literal(t, i, src) {
            Some((_, v)) => seq![v],
            None => Seq::empty(),
        }
    }

    fn visit(_data: &(), node: Node<'_>, source: &str, out: &mut Vec<String>) {
        match find_secret_literal(node, source) {
            Some((_, v)) => {
                out.push(v.to_owned());
                assert(views(out@) =~= views(old(out)@) + seq![v@]);
            },
            None => {
                assert(views(out@) + Seq::<Text>::empty() =~= views(out@));
            },
        }
    }
}

/// What the thresholds say of strings that are no candidates makes no difference.
pub proof fn only_candidates_are_judged(a: Thresholds, b: Thresholds, t: &SyntaxTree, src: Text)
    requires
        forall|v: Text|
            #![trigger passes(a, v)]
            found_in::<SecretLiterals>((), t, src).contains(v) ==> passes(a, v) == passes(b, v),
    ensures
        found_in::<NoHardcodedSecret>(a, t, src) == found_in::<NoHardcodedSecret>(b, t, src),
{
    lemma_only_candidates(a, b, t, 0, t.after(0), src);
}

proof fn lemma_only_candidates(
    a: Thresholds,
    b: Thresholds,
    t: &SyntaxTree,
    c: int,
    e: int,
    src: Text,
)
    requires
        forall|v: Text|
            #![trigger passes(a, v)]
            walked::<SecretLiterals>((), t, c, e, src).contains(v) ==> passes(a, v) == passes(b, v),
    ensures
        walked::<NoHardcodedSecret>(a, t, c, e, src) == walked::<NoHardcodedSecret>(
            b,
            t,
            c,
            e,
            src,
        ),
    decreases gap(c, e),
{
    if c < e {
        let here = SecretLiterals::found((), t, c, src);
        let rest = walked::<SecretLiterals>((), t, c + 1, e, src);
        assert forall|v: Text| #![trigger passes(a, v)] rest.contains(v) implies passes(a, v)
            == passes(b, v) by {
            let k = choose|k: int| 0 <= k < rest.len() && rest[k] == v;
            assert((here + rest)[here.len() + k] == v);
        }
        lemma_only_candidates(a, b, t, c + 1, e, src);
        match secret_literal(t, c, src) {
            Some((_, v)) => {
                assert((here + rest)[0] == v);
                assert(passes(a, v) == passes(b, v));
            },
            None => {},
        }
    }
}

/// XML parser created without disabling external entities (XXE).
#[derive(Debug, Clone, Copy)]
pub struct NoXxe;

impl NoXxe {
    /// What the rule says of itself.
    pub open spec fn facts() -> RuleFacts {
        RuleFacts {
            id: "java/no-xxe"@,
            severity: Severity::High,
            cwe: Some("CWE-611"@),
            description: "XML parser created without disabling external entities (XXE)"@,
            language: Language::Java,
            cnsa2_deadline: None,
        }
    }

    /// What the rule says of itself.
    pub fn info(&self) -> (r: RuleInfo)
        ensures
            r@ == Self::facts(),
    {
        RuleInfo {
            id: "java/no-xxe",
            severity: Severity::High,
            cwe: Some("CWE-611"),
            description: "XML parser created without disabling external entities (XXE)",
            language: Language::Java,
            cnsa2_deadline: None,
        }
    }
}

/// The factories of XML parsers, as a regular expression.
pub const XML_FACTORY: &'static str =
    r"(DocumentBuilderFactory|SAXParserFactory|XMLInputFactory)\.newInstance\(\)";

/// The calls that harden an XML parser, as a regular expression.
pub const XML_HARDENING: &'static str = r"setFeature\s*\(|setProperty\s*\(|setAttribute\s*\(";

impl NoXxe {
    /// What the rule reports in a file: every factory, where none is hardened.
    pub open spec fn reports(src: Text) -> Seq<Report> {
        if regex_matches(XML_FACTORY@, src) && !regex_matches(XML_HARDENING@, src) {
            said_of_ranges(
                Self::facts(),
                "XML parser factory created without disabling external entities — set feature to prevent XXE attacks"@,
                src,
                regex_found(XML_FACTORY@, src),
            )
        } else {
            Seq::empty()
        }
    }

    /// The findings of the rule in a file.
    pub fn check(&self, source: &str) -> (out: Vec<Finding>)
        requires
            encode_utf8(source@).len() < usize::MAX,
        ensures
            views(out@) == Self::reports(source@),
    {
        if is_regex_match(XML_FACTORY, source) && !is_regex_match(XML_HARDENING, source) {
            say_of_ranges(
                &self.info(),
                "XML parser factory created without disabling external entities — set feature to prevent XXE attacks",
                source,
                &find_spans(XML_FACTORY, source),
            )
        } else {
            Vec::new()
        }
    }
}

/// Spring Security CSRF protection is disabled.
#[derive(Debug, Clone, Copy)]
pub struct SpringCsrfDisabled;

impl SpringCsrfDisabled {
    /// What the rule says of itself.
    pub open spec fn facts() -> RuleFacts {
        RuleFacts {
            id: "java/spring-csrf-disabled"@,
            severity: Severity::High,
            cwe: Some("CWE-352"@),
            description: "Spring Security CSRF protection is disabled"@,
            language: Language::Java,
            cnsa2_deadline: None,
        }
    }

    /// What the rule says of itself.
    pub fn info(&self) -> (r: RuleInfo)
        ensures
            r@ == Self::facts(),
    {
        RuleInfo {
            id: "java/spring-csrf-disabled",
            severity: Severity::High,
            cwe: Some("CWE-352"),
            description: "Spring Security CSRF protection is disabled",
            language: Language::Java,
            cnsa2_deadline: None,
        }
    }

    /// The findings of the rule in a file.
    pub fn check(&self, source: &str, tree: &SyntaxTree) -> (out: Vec<Finding>)
        requires
            tree.valid(source@),
            tree.len() > 0,
        ensures
            views(out@) == found_in::<Self>(declared_types(tree, source@), tree, source@),
    {
        let types = collect_declared_types(tree, source);
        walk_tree::<Self>(&types, tree.root_node(), source)
    }
}

/// Whether the method `method` is called somewhere among the nodes from `c` to before `e`.
pub open spec fn has_call(t: &SyntaxTree, c: int, e: int, method: Text, src: Text) -> bool {
    exists|k: int| c <= k < e && #[trigger] invoked(t, k, src) == Some(method)
}

fn invokes_named_method(node: Node<'_>, method: &str, source: &str) -> (r: bool)
    requires
        node.valid(source@),
    ensures
        r == has_call(
            node.tree,
            node.index as int,
            node.tree.after(node.index as int),
            method@,
            source@,
        ),
{
    let e: usize = node.end();
    let mut c: usize = node.index;
    while c < e
        invariant
            node.valid(source@),
            node.index <= c <= e <= node.tree.len(),
            e == node.tree.after(node.index as int),
            forall|k: int|
                node.index <= k < c ==> #[trigger] invoked(node.tree, k, source@) != Some(method@),
        decreases e - c,
    {
        if text_is(invoked_method(node.at(c), source), method) {
            assert(invoked(node.tree, c as int, source@) == Some(method@));
            return true;
        }
        c = c + 1;
    }
    false
}

/// Whether the call of `csrf` at node `i` is followed by a call of `disable` or has one in
/// its arguments.
pub open spec fn is_disabled(t: &SyntaxTree, i: int, src: Text) -> bool {
    ||| t.parent(i) matches Some(p) && invoked(t, p, src) == Some("disable"@) && t.field(
        p,
        "object"@,
    ) == Some(i)
    ||| t.field(i, "arguments"@) matches Some(a) && has_call(t, a, t.after(a), "disable"@, src)
}

fn csrf_chain_disables(node: Node<'_>, source: &str) -> (r: bool)
    requires
        node.valid(source@),
    ensures
        r == is_disabled(node.tree, node.index as int, source@),
{
    match node.parent() {
        Some(p) => {
            if text_is(invoked_method(p, source), "disable") {
                match p.child_by_field_name("object") {
                    Some(o) => {
                        if o.index == node.index {
                            return true;
                        }
                    },
                    None => {},
                }
            }
        },
        None => {},
    }
    match node.child_by_field_name("arguments") {
        Some(a) => invokes_named_method(a, "disable", source),
        None => false,
    }
}

/// The receiver at the root of a chain of calls.
pub open spec fn chain_root(t: &SyntaxTree, i: int) -> int
    decreases gap(i, t.len()),
{
    if !(0 <= i < t.len()) {
        i
    } else {
        match t.field(i, "object"@) {
            Some(k) => chain_root(t, k),
            None => i,
        }
    }
}

fn find_chain_root<'a>(node: Node<'a>) -> (r: Node<'a>)
    requires
        node.wf(),
    ensures
        r.tree == node.tree,
        r.wf(),
        r.index == chain_root(node.tree, node.index as int),
    decreases node.tree.len() - node.index,
{
    match node.child_by_field_name("object") {
        Some(k) => find_chain_root(k),
        None => node,
    }
}

/// Whether the chain of calls at node `i` starts at an `HttpSecurity`.
pub open spec fn is_http_security(t: &SyntaxTree, i: int, src: Text, types: Map<Text, Text>) -> bool {
    let root = chain_root(t, i);
    let name = trimmed(t.text(root, src));
    ||| has_part(name, "HttpSecurity"@)
    ||| t.kind(root) == "identifier"@ && (is_declared(types, name, "HttpSecurity"@) || name
        == "http"@ || name == "httpSecurity"@)
}

fn chain_root_is_http_security(node: Node<'_>, source: &str, types: &TextTable) -> (r: bool)
    requires
        node.valid(source@),
    ensures
        r == is_http_security(node.tree, node.index as int, source@, types@),
{
    let root = find_chain_root(node);
    let name = trim(root.text(source));
    contains(name, "HttpSecurity") || (root.is_kind("identifier") && (has_declared_type(
        types,
        name,
        "HttpSecurity",
    ) || text_eq(name, "http") || text_eq(name, "httpSecurity")))
}

impl Visitor for SpringCsrfDisabled {
    type Data = TextTable;

    type Found = Finding;

    open spec fn found(types: Map<Text, Text>, t: &SyntaxTree, i: int, src: Text) -> Seq<Report> {
        said_if(
            invoked(t, i, src) == Some("csrf"@) && is_disabled(t, i, src) && is_http_security(
                t,
                i,
                src,
                types,
            ),
            Self::facts(),
            "CSRF protection is disabled — enable CSRF unless this is a stateless API with token auth"@,
            t,
            i,
            src,
        )
    }

    fn visit(types: &TextTable, node: Node<'_>, source: &str, out: &mut Vec<Finding>) {
        let hit = text_is(invoked_method(node, source), "csrf") && csrf_chain_disables(
            node,
            source,
        ) && chain_root_is_http_security(node, source, types);
        say_if(
            hit,
            &SpringCsrfDisabled.info(),
            "CSRF protection is disabled — enable CSRF unless this is a stateless API with token auth",
            node,
            source,
            out,
        );
    }
}

/// Potential XSS via direct write of user input to HTTP response.
#[derive(Debug, Clone, Copy)]
pub struct NoXss;

impl NoXss {
    /// What the rule says of itself.
    pub open spec fn facts() -> RuleFacts {
        RuleFacts {
            id: "java/no-xss"@,
            severity: Severity::High,
            cwe: Some("CWE-79"@),
            description: "Potential XSS via direct write of user input to HTTP response"@,
            language: Language::Java,
            cnsa2_deadline: None,
        }
    }

    /// What the rule says of itself.
    pub fn info(&self) -> (r: RuleInfo)
        ensures
            r@ == Self::facts(),
    {
        RuleInfo {
            id: "java/no-xss",
            severity: Severity::High,
            cwe: Some("CWE-79"),
            description: "Potential XSS via direct write of user input to HTTP response",
            language: Language::Java,
            cnsa2_deadline: None,
        }
    }

    /// The findings of the rule in a file.
    pub fn check(&self, source: &str, tree: &SyntaxTree) -> (out: Vec<Finding>)
        requires
            tree.valid(source@),
            tree.len() > 0,
        ensures
            views(out@) == found_in::<Self>((), tree, source@),
    {
        walk_tree::<Self>(&(), tree.root_node(), source)
    }
}

/// Whether a method writes text.
pub open spec fn writes(method: Option<Text>) -> bool {
    method == Some("write"@) || method == Some("println"@) || method == Some("print"@)
}

/// Whether a receiver is the writer of a response.
pub open spec fn is_response_writer(obj: Text) -> bool {
    ||| has_part(obj, "getWriter()"@)
    ||| obj == "out"@
    ||| has_part(obj, "PrintWriter"@)
    ||| obj == "writer"@
    ||| obj == "pw"@
}

/// Whether node `i` writes something other than a literal into a response.
pub open spec fn is_dynamic_write(t: &SyntaxTree, i: int, src: Text) -> bool {
    &&& writes(invoked(t, i, src))
    &&& t.field_text(i, "object"@, src) matches Some(obj)
    &&& is_response_writer(obj)
    &&& is_dynamic(t, i)
}

fn is_dynamic_write_node(node: Node<'_>, source: &str) -> (r: bool)
    requires
        node.valid(source@),
    ensures
        r == is_dynamic_write(node.tree, node.index as int, source@),
{
    let method = invoked_method(node, source);
    if !(text_is(method, "write") || text_is(method, "println") || text_is(method, "print")) {
        return false;
    }
    match node.field_text("object", source) {
        Some(obj) => (contains(obj, "getWriter()") || text_eq(obj, "out") || contains(
            obj,
            "PrintWriter",
        ) || text_eq(obj, "writer") || text_eq(obj, "pw")) && has_dynamic_argument(node),
        None => false,
    }
}

impl Visitor for NoXss {
    type Data = ();

    type Found = Finding;

    open spec fn found(d: (), t: &SyntaxTree, i: int, src: Text) -> Seq<Report> {
        if is_dynamic_write(t, i, src) {
            seq![
                Report {
                    fix_suggestion: Some(
                        "HTML-encode user input before writing to response: use OWASP Java Encoder or StringEscapeUtils.escapeHtml4()"@,
                    ),
                    ..said_of_node(
                        Self::facts(),
                        "User input written directly to HTTP response — risk of XSS"@,
                        t,
                        i,
                        src,
                    )
                },
            ]
        } else {
            Seq::empty()
        }
    }

    fn visit(_data: &(), node: Node<'_>, source: &str, out: &mut Vec<Finding>) {
        if is_dynamic_write_node(node, source) {
            let mut f = say_of_node(
                &NoXss.info(),
                "User input written directly to HTTP response — risk of XSS",
                node,
                source,
            );
            f.fix_suggestion = Some(
                "HTML-encode user input before writing to response: use OWASP Java Encoder or StringEscapeUtils.escapeHtml4()".to_owned(),
            );
            out.push(f);
        }
        assert(views(out@) =~= views(old(out)@) + Self::found(
            (),
            node.tree,
            node.index as int,
            source@,
        ));
    }
}

/// Hardcoded algorithm string in crypto API call hinders crypto agility.
#[derive(Debug, Clone, Copy)]
pub struct HardcodedCryptoAlgorithm;

impl HardcodedCryptoAlgorithm {
    /// What the rule says of itself.
    pub open spec fn facts() -> RuleFacts {
        RuleFacts {
            id: "java/hardcoded-crypto-algorithm"@,
            severity: Severity::Low,
            cwe: Some("CWE-327"@),
            description: "Hardcoded algorithm string in crypto API call hinders crypto agility"@,
            language: Language::Java,
            cnsa2_deadline: Some("2033"@),
        }
    }

    /// What the rule says of itself.
    pub fn info(&self) -> (r: RuleInfo)
        ensures
            r@ == Self::facts(),
    {
        RuleInfo {
            id: "java/hardcoded-crypto-algorithm",
            severity: Severity::Low,
            cwe: Some("CWE-327"),
            description: "Hardcoded algorithm string in crypto API call hinders crypto agility",
            language: Language::Java,
            cnsa2_deadline: Some("2033"),
        }
    }

    /// The findings of the rule in a file.
    pub fn check(&self, source: &str, tree: &SyntaxTree) -> (out: Vec<Finding>)
        requires
            tree.valid(source@),
            tree.len() > 0,
        ensures
            views(out@) == found_in::<Self>((), tree, source@),
    {
        walk_tree::<Self>(&(), tree.root_node(), source)
    }
}

/// Whether a class belongs to the crypto interfaces.
pub open spec fn is_crypto_class(class: Text) -> bool {
    ||| class == "Cipher"@
    ||| class == "MessageDigest"@
    ||| class == "Signature"@
    ||| class == "KeyPairGenerator"@
    ||| class == "KeyAgreement"@
    ||| class == "KeyFactory"@
    ||| class == "SecretKeyFactory"@
    ||| class == "KeyGenerator"@
    ||| class == "Mac"@
    ||| class == "AlgorithmParameters"@
}

fn names_crypto_class(class: &str) -> (r: bool)
    ensures
        r == is_crypto_class(class@),
{
    text_eq(class, "Cipher") || text_eq(class, "MessageDigest") || text_eq(class, "Signature")
        || text_eq(class, "KeyPairGenerator") || text_eq(class, "KeyAgreement") || text_eq(
        class,
        "KeyFactory",
    ) || text_eq(class, "SecretKeyFactory") || text_eq(class, "KeyGenerator") || text_eq(
        class,
        "Mac",
    ) || text_eq(class, "AlgorithmParameters")
}

/// Whether an algorithm, in upper case, is a weak one.
pub open spec fn is_weak(upper: Text) -> bool {
    ||| upper == "MD5"@
    ||| upper == "SHA-1"@
    ||| begins_with(upper, "SHA1"@)
    ||| upper == "DES"@
    ||| upper == "DESEDE"@
    ||| upper == "RC2"@
    ||| upper == "RC4"@
    ||| upper == "BLOWFISH"@
    ||| has_part(upper, "ECB"@)
}

fn is_weak_algorithm(upper: &str) -> (r: bool)
    ensures
        r == is_weak(upper@),
{
    text_eq(upper, "MD5") || text_eq(upper, "SHA-1") || starts_with(upper, "SHA1") || text_eq(
        upper,
        "DES",
    ) || text_eq(upper, "DESEDE") || text_eq(upper, "RC2") || text_eq(upper, "RC4") || text_eq(
        upper,
        "BLOWFISH",
    ) || contains(upper, "ECB")
}

impl Visitor for HardcodedCryptoAlgorithm {
    type Data = ();

    type Found = Finding;

    open spec fn found(d: (), t: &SyntaxTree, i: int, src: Text) -> Seq<Report> {
        match algorithm_choice(t, i, src) {
            Some((class, a)) => {
                let inner = trimmed_of(t.text(a, src), '"', '"');
                said_if(
                    is_crypto_class(class) && t.kind(a) == "string_literal"@ && !is_weak(
                        uppercase(inner),
                    ),
                    Self::facts(),
                    class + ".getInstance(\""@ + inner
                        + "\") uses a hardcoded algorithm — externalize to configuration for crypto agility"@,
                    t,
                    i,
                    src,
                )
            },
            None => Seq::empty(),
        }
    }

    fn visit(_data: &(), node: Node<'_>, source: &str, out: &mut Vec<Finding>) {
        match find_algorithm_choice(node, source) {
            Some((class, a)) => {
                let inner = trim_chars(a.text(source), '"', '"');
                let hit = names_crypto_class(class) && a.is_kind("string_literal")
                    && !is_weak_algorithm(to_uppercase(inner).as_str());
                let mut d = concat3(class, ".getInstance(\"", inner);
                append(
                    &mut d,
                    "\") uses a hardcoded algorithm — externalize to configuration for crypto agility",
                );
                say_if(hit, &HardcodedCryptoAlgorithm.info(), d.as_str(), node, source, out);
            },
            None => {
                assert(views(out@) + Seq::<Report>::empty() =~= views(out@));
            },
        }
    }
}

/// Permissive CORS configuration allows any origin.
#[derive(Debug, Clone, Copy)]
pub struct SpringCorsPermissive;

impl SpringCorsPermissive {
    /// What the rule says of itself.
    pub open spec fn facts() -> RuleFacts {
        RuleFacts {
            id: "java/spring-cors-permissive"@,
            severity: Severity::Medium,
            cwe: Some("CWE-942"@),
            description: "Permissive CORS configuration allows any origin"@,
            language: Language::Java,
            cnsa2_deadline: None,
        }
    }

    /// What the rule says of itself.
    pub fn info(&self) -> (r: RuleInfo)
        ensures
            r@ == Self::facts(),
    {
        RuleInfo {
            id: "java/spring-cors-permissive",
            severity: Severity::Medium,
            cwe: Some("CWE-942"),
            description: "Permissive CORS configuration allows any origin",
            language: Language::Java,
            cnsa2_deadline: None,
        }
    }

    /// What the rule reports in a file.
    pub open spec fn reports(t: &SyntaxTree, src: Text) -> Seq<Report> {
        said_of_ranges(
            Self::facts(),
            "allowedOrigins(\"*\") permits any origin — restrict to trusted domains"@,
            src,
            regex_found(CORS_WILDCARD@, src),
        ) + found_in::<Self>((), t, src)
    }

    /// The findings of the rule in a file.
    pub fn check(&self, source: &str, tree: &SyntaxTree) -> (out: Vec<Finding>)
        requires
            tree.valid(source@),
            tree.len() > 0,
        ensures
            views(out@) == Self::reports(tree, source@),
    {
        proof {
            reveal(SyntaxTree::placed);
        }
        let mut out = say_of_ranges(
            &self.info(),
            "allowedOrigins(\"*\") permits any origin — restrict to trusted domains",
            source,
            &find_spans(CORS_WILDCARD, source),
        );
        let mut more = walk_tree::<Self>(&(), tree.root_node(), source);
        out.append(&mut more);
        out
    }
}

/// A setting that lets every origin in, as a regular expression.
pub const CORS_WILDCARD: &'static str = r#"allowedOrigins\s*\(\s*"\*"\s*\)"#;

/// Whether the annotation at node `i` has the simple name `name`.
pub open spec fn is_annotation(t: &SyntaxTree, i: int, name: Text, src: Text) -> bool {
    t.field_text(i, "name"@, src) matches Some(n) && (n == name || last_segment(n, '.') == name)
}

fn annotation_name_is(node: Node<'_>, name: &str, source: &str) -> (r: bool)
    requires
        node.valid(source@),
    ensures
        r == is_annotation(node.tree, node.index as int, name@, source@),
{
    match node.field_text("name", source) {
        Some(n) => text_eq(n, name) || text_eq(past_last(n, '.'), name),
        None => false,
    }
}

/// Whether node `i` is the string literal `"*"`.
pub open spec fn is_star(t: &SyntaxTree, i: int, src: Text) -> bool {
    t.kind(i) == "string_literal"@ && trimmed(t.text(i, src)) == "\"*\""@
}

fn value_is_single_wildcard(node: Node<'_>, source: &str) -> (r: bool)
    requires
        node.valid(source@),
    ensures
        r == is_star(node.tree, node.index as int, source@),
{
    node.is_kind("string_literal") && text_eq(trim(node.text(source)), "\"*\"")
}

/// The value that node `i` gives to the parameter `origins` by name.
pub open spec fn origins_value(t: &SyntaxTree, i: int, src: Text) -> Option<int> {
    if t.kind(i) == "element_value_pair"@ && t.field_text(i, "key"@, src) == Some("origins"@) {
        t.field(i, "value"@)
    } else {
        None
    }
}

fn find_origins_value<'a>(node: Node<'a>, source: &str) -> (r: Option<Node<'a>>)
    requires
        node.valid(source@),
    ensures
        crate::tree::is_node(
            r,
            node.tree,
            origins_value(node.tree, node.index as int, source@),
        ),
        r matches Some(n) ==> n.wf(),
{
    if node.is_kind("element_value_pair") && text_is(node.field_text("key", source), "origins") {
        node.child_by_field_name("value")
    } else {
        None
    }
}

/// The last of the first `n` nodes of `kids` that is a value without a name.
pub open spec fn positional(t: &SyntaxTree, kids: Seq<int>, n: int) -> Option<int>
    decreases n,
{
    if n <= 0 || n > kids.len() {
        None
    } else if t.kind(kids[n - 1]) == "string_literal"@ || t.kind(kids[n - 1])
        == "array_initializer"@ {
        Some(kids[n - 1])
    } else {
        positional(t, kids, n - 1)
    }
}

/// Whether the annotation at node `i` lets every origin in: its `origins` is the literal
/// `"*"`, given by name or, where no `origins` is named, by position.
pub open spec fn allows_all(t: &SyntaxTree, i: int, src: Text) -> bool {
    &&& t.field(i, "arguments"@) matches Some(a)
    &&& {
        let kids = t.children(a);
        ||| exists|k: int|
            #![trigger kids[k]]
            0 <= k < kids.len() && (origins_value(t, kids[k], src) matches Some(v) && is_star(
                t,
                v,
                src,
            ))
        ||| {
            &&& forall|k: int|
                #![trigger kids[k]]
                0 <= k < kids.len() ==> origins_value(t, kids[k], src) is None
            &&& positional(t, kids, kids.len() as int) matches Some(v)
            &&& is_star(t, v, src)
        }
    }
}

fn cross_origin_value_is_wildcard(node: Node<'_>, source: &str) -> (r: bool)
    requires
        node.valid(source@),
    ensures
        r == allows_all(node.tree, node.index as int, source@),
{
    let args = match node.child_by_field_name("arguments") {
        None => {
            return false;
        },
        Some(a) => a,
    };
    let ghost t = node.tree;
    let kids = args.children();
    let ghost all = t.children(args.index as int);
    let mut named = false;
    let mut value: Option<Node<'_>> = None;
    let mut k: usize = 0;
    while k < kids.len()
        invariant
            node.valid(source@),
            t == node.tree,
            indices(kids@) == all,
            all == t.children(args.index as int),
            t.field(node.index as int, "arguments"@) == Some(args.index as int),
            forall|j: int|
                #![trigger kids@[j]]
                0 <= j < kids@.len() ==> kids@[j].tree == t && kids@[j].wf(),
            k <= kids@.len(),
            forall|j: int|
                #![trigger all[j]]
                0 <= j < k ==> !(origins_value(t, all[j], source@) matches Some(v) && is_star(
                    t,
                    v,
                    source@,
                )),
            named == exists|j: int|
                #![trigger all[j]]
                0 <= j < k && origins_value(t, all[j], source@) is Some,
            crate::tree::is_node(value, t, positional(t, all, k as int)),
            value matches Some(n) ==> n.wf(),
        decreases kids.len() - k,
    {
        let kid = kids[k];
        assert(all[k as int] == kid.index);
        match find_origins_value(kid, source) {
            Some(v) => {
                if value_is_single_wildcard(v, source) {
                    return true;
                }
                named = true;
            },
            None => {},
        }
        if kid.is_kind("string_literal") || kid.is_kind("array_initializer") {
            value = Some(kid);
        }
        k = k + 1;
    }
    if named {
        return false;
    }
    match value {
        Some(v) => value_is_single_wildcard(v, source),
        None => false,
    }
}

/// Whether node `i` is an annotation that lets every origin in.
pub open spec fn is_open_cors(t: &SyntaxTree, i: int, src: Text) -> bool {
    is_annotation(t, i, "CrossOrigin"@, src) && (t.kind(i) == "marker_annotation"@ || (t.kind(i)
        == "annotation"@ && allows_all(t, i, src)))
}

impl Visitor for SpringCorsPermissive {
    type Data = ();

    type Found = Finding;

    open spec fn found(d: (), t: &SyntaxTree, i: int, src: Text) -> Seq<Report> {
        said_if(
            is_open_cors(t, i, src),
            Self::facts(),
            "@CrossOrigin with wildcard origin — restrict to trusted domains"@,
            t,
            i,
            src,
        )
    }

    fn visit(_data: &(), node: Node<'_>, source: &str, out: &mut Vec<Finding>) {
        let hit = annotation_name_is(node, "CrossOrigin", source) && (node.is_kind(
            "marker_annotation",
        ) || (node.is_kind("annotation") && cross_origin_value_is_wildcard(node, source)));
        say_if(
            hit,
            &SpringCorsPermissive.info(),
            "@CrossOrigin with wildcard origin — restrict to trusted domains",
            node,
            source,
            out,
        );
    }
}

/// Untrusted Java servlet or Spring input reaches SQL query sink.
#[derive(Debug, Clone, Copy)]
pub struct TaintSqlInjection;

impl TaintSqlInjection {
    /// What the rule says of itself.
    pub open spec fn facts() -> RuleFacts {
        RuleFacts {
            id: "java/taint-sql-injection"@,
            severity: Severity::Critical,
            cwe: Some("CWE-89"@),
            description: "Untrusted Java servlet or Spring input reaches SQL query sink"@,
            language: Language::Java,
            cnsa2_deadline: None,
        }
    }

    /// What the rule says of itself.
    pub fn info(&self) -> (r: RuleInfo)
        ensures
            r@ == Self::facts(),
    {
        RuleInfo {
            id: "java/taint-sql-injection",
            severity: Severity::Critical,
            cwe: Some("CWE-89"),
            description: "Untrusted Java servlet or Spring input reaches SQL query sink",
            language: Language::Java,
            cnsa2_deadline: None,
        }
    }

    /// The findings of the rule in a file.
    pub fn check(&self, source: &str, tree: &SyntaxTree) -> (out: Vec<Finding>)
        requires
            tree.valid(source@),
            tree.len() > 0,
        ensures
            views(out@) == rule_reports::<Java>(
                Self::facts().id,
                rule_named(Java::rules(), 0, Self::facts().id),
                tree,
                0,
                source@,
            ),
    {
        check_taint_rule::<Java>(self.info().id, source, tree.root_node())
    }
}

/// Untrusted Java servlet or Spring input reaches command execution sink.
#[derive(Debug, Clone, Copy)]
pub struct TaintCommandInjection;

impl TaintCommandInjection {
    /// What the rule says of itself.
    pub open spec fn facts() -> RuleFacts {
        RuleFacts {
            id: "java/taint-command-injection"@,
            severity: Severity::Critical,
            cwe: Some("CWE-78"@),
            description: "Untrusted Java servlet or Spring input reaches command execution sink"@,
            language: Language::Java,
            cnsa2_deadline: None,
        }
    }

    /// What the rule says of itself.
    pub fn info(&self) -> (r: RuleInfo)
        ensures
            r@ == Self::facts(),
    {
        RuleInfo {
            id: "java/taint-command-injection",
            severity: Severity::Critical,
            cwe: Some("CWE-78"),
            description: "Untrusted Java servlet or Spring input reaches command execution sink",
            language: Language::Java,
            cnsa2_deadline: None,
        }
    }

    /// The findings of the rule in a file.
    pub fn check(&self, source: &str, tree: &SyntaxTree) -> (out: Vec<Finding>)
        requires
            tree.valid(source@),
            tree.len() > 0,
        ensures
            views(out@) == rule_reports::<Java>(
                Self::facts().id,
                rule_named(Java::rules(), 0, Self::facts().id),
                tree,
                0,
                source@,
            ),
    {
        check_taint_rule::<Java>(self.info().id, source, tree.root_node())
    }
}

/// Untrusted Java servlet or Spring input reaches outbound URL sink.
#[derive(Debug, Clone, Copy)]
pub struct TaintSsrf;

impl TaintSsrf {
    /// What the rule says of itself.
    pub open spec fn facts() -> RuleFacts {
        RuleFacts {
            id: "java/taint-ssrf"@,
            severity: Severity::High,
            cwe: Some("CWE-918"@),
            description: "Untrusted Java servlet or Spring input reaches outbound URL sink"@,
            language: Language::Java,
            cnsa2_deadline: None,
        }
    }

    /// What the rule says of itself.
    pub fn info(&self) -> (r: RuleInfo)
        ensures
            r@ == Self::facts(),
    {
        RuleInfo {
            id: "java/taint-ssrf",
            severity: Severity::High,
            cwe: Some("CWE-918"),
            description: "Untrusted Java servlet or Spring input reaches outbound URL sink",
            language: Language::Java,
            cnsa2_deadline: None,
        }
    }

    /// The findings of the rule in a file.
    pub fn check(&self, source: &str, tree: &SyntaxTree) -> (out: Vec<Finding>)
        requires
            tree.valid(source@),
            tree.len() > 0,
        ensures
            views(out@) == rule_reports::<Java>(
                Self::facts().id,
                rule_named(Java::rules(), 0, Self::facts().id),
                tree,
                0,
                source@,
            ),
    {
        check_taint_rule::<Java>(self.info().id, source, tree.root_node())
    }
}

/// Untrusted Java servlet or Spring input reaches unsafe deserialization sink.
#[derive(Debug, Clone, Copy)]
pub struct TaintUnsafeDeserialization;

impl TaintUnsafeDeserialization {
    /// What the rule says of itself.
    pub open spec fn facts() -> RuleFacts {
        RuleFacts {
            id: "java/taint-unsafe-deserialization"@,
            severity: Severity::Critical,
            cwe: Some("CWE-502"@),
            description: "Untrusted Java servlet or Spring input reaches unsafe deserialization sink"@,
            language: Language::Java,
            cnsa2_deadline: None,
        }
    }

    /// What the rule says of itself.
    pub fn info(&self) -> (r: RuleInfo)
        ensures
            r@ == Self::facts(),
    {
        RuleInfo {
            id: "java/taint-unsafe-deserialization",
            severity: Severity::Critical,
            cwe: Some("CWE-502"),
            description: "Untrusted Java servlet or Spring input reaches unsafe deserialization sink",
            language: Language::Java,
            cnsa2_deadline: None,
        }
    }

    /// The findings of the rule in a file.
    pub fn check(&self, source: &str, tree: &SyntaxTree) -> (out: Vec<Finding>)
        requires
            tree.valid(source@),
            tree.len() > 0,
        ensures
            views(out@) == rule_reports::<Java>(
                Self::facts().id,
                rule_named(Java::rules(), 0, Self::facts().id),
                tree,
                0,
                source@,
            ),
    {
        check_taint_rule::<Java>(self.info().id, source, tree.root_node())
    }
}

// ─── Taint rules ─────────────────────────────────────────────────────────────
/// What the Java taint rule with this id says of its flows.
pub open spec fn java_meta(id: Text) -> Option<MetaFacts> {
    if id == "java/taint-sql-injection"@ {
        Some(
            MetaFacts {
                rule_id: "java/taint-sql-injection"@,
                severity: Severity::Critical,
                cwe: Some("CWE-89"@),
                fix_suggestion: Some(
                    "Use parameterized queries or PreparedStatement placeholders instead of concatenating request input into SQL"@,
                ),
                verb: " reaches "@,
                advice: " — untrusted input can inject SQL"@,
            },
        )
    } else if id == "java/taint-command-injection"@ {
        Some(
            MetaFacts {
                rule_id: "java/taint-command-injection"@,
                severity: Severity::Critical,
                cwe: Some("CWE-78"@),
                fix_suggestion: Some(
                    "Avoid invoking shell commands with request-controlled data; pass fixed executable names and validated argument arrays"@,
                ),
                verb: " reaches "@,
                advice: " — untrusted input can inject OS commands"@,
            },
        )
    } else if id == "java/taint-ssrf"@ {
        Some(
            MetaFacts {
                rule_id: "java/taint-ssrf"@,
                severity: Severity::High,
                cwe: Some("CWE-918"@),
                fix_suggestion: Some(
                    "Validate outbound URLs against an allowlist of permitted hosts"@,
                ),
                verb: " reaches "@,
                advice: " — untrusted input can drive server-side request forgery"@,
            },
        )
    } else if id == "java/taint-unsafe-deserialization"@ {
        Some(
            MetaFacts {
                rule_id: "java/taint-unsafe-deserialization"@,
                severity: Severity::Critical,
                cwe: Some("CWE-502"@),
                fix_suggestion: Some(
                    "Avoid Java native deserialization for request data; use a safe data format and explicit schema validation"@,
                ),
                verb: " reaches "@,
                advice: " — untrusted input can trigger unsafe deserialization"@,
            },
        )
    } else {
        None
    }
}

/// What the Java taint rule with this id says of its flows.
fn java_taint_meta(rule_id: &str) -> (r: Option<TaintRuleMeta>)
    ensures
        opt_view(r) == java_meta(rule_id@),
{
    if text_eq(rule_id, "java/taint-sql-injection") {
        Some(
            TaintRuleMeta {
                rule_id: "java/taint-sql-injection",
                severity: Severity::Critical,
                cwe: Some("CWE-89"),
                fix_suggestion: Some(
                    "Use parameterized queries or PreparedStatement placeholders instead of concatenating request input into SQL",
                ),
                verb: " reaches ",
                advice: " — untrusted input can inject SQL",
            },
        )
    } else if text_eq(rule_id, "java/taint-command-injection") {
        Some(
            TaintRuleMeta {
                rule_id: "java/taint-command-injection",
                severity: Severity::Critical,
                cwe: Some("CWE-78"),
                fix_suggestion: Some(
                    "Avoid invoking shell commands with request-controlled data; pass fixed executable names and validated argument arrays",
                ),
                verb: " reaches ",
                advice: " — untrusted input can inject OS commands",
            },
        )
    } else if text_eq(rule_id, "java/taint-ssrf") {
        Some(
            TaintRuleMeta {
                rule_id: "java/taint-ssrf",
                severity: Severity::High,
                cwe: Some("CWE-918"),
                fix_suggestion: Some(
                    "Validate outbound URLs against an allowlist of permitted hosts",
                ),
                verb: " reaches ",
                advice: " — untrusted input can drive server-side request forgery",
            },
        )
    } else if text_eq(rule_id, "java/taint-unsafe-deserialization") {
        Some(
            TaintRuleMeta {
                rule_id: "java/taint-unsafe-deserialization",
                severity: Severity::Critical,
                cwe: Some("CWE-502"),
                fix_suggestion: Some(
                    "Avoid Java native deserialization for request data; use a safe data format and explicit schema validation",
                ),
                verb: " reaches ",
                advice: " — untrusted input can trigger unsafe deserialization",
            },
        )
    } else {
        None
    }
}

impl TaintLanguage for Java {
    open spec fn rules() -> Seq<(Text, TaintRule)> {
        java_rules()
    }

    fn rule_specs() -> (r: Vec<(&'static str, TaintSpec)>) {
        java_taint_rule_specs()
    }

    open spec fn meta(id: Text) -> Option<MetaFacts> {
        java_meta(id)
    }

    fn rule_meta(id: &str) -> (r: Option<TaintRuleMeta>) {
        java_taint_meta(id)
    }

    open spec fn flows(t: &SyntaxTree, i: int, src: Text, rule: TaintRule) -> Seq<Flow> {
        file_flows::<Java>(t, i, t.after(i), Seq::empty(), given(src, rule))
    }

    fn find_flows(root: Node<'_>, source: &str, spec: &TaintSpec) -> (r: Vec<TaintFinding>) {
        analyze_tree(root, source, spec, None)
    }

    open spec fn report(m: MetaFacts, src: Text, f: Flow) -> Report {
        flow_report(m, src, f)
    }

    fn map_finding(meta: &TaintRuleMeta, source: &str, finding: &TaintFinding) -> (r: Finding) {
        map_taint_finding(meta, source, finding)
    }
}

/// The reports of the flows from `from` on that name a rule of the language.
pub open spec fn hinted_reports(flows: Seq<Flow>, from: int, src: Text) -> Seq<Report>
    decreases flows.len() - from,
{
    if from < 0 || from >= flows.len() {
        Seq::empty()
    } else {
        let rest = hinted_reports(flows, from + 1, src);
        match flows[from].rule_id_hint {
            Some(h) => match java_meta(h) {
                Some(m) => seq![flow_report(m, src, flows[from])] + rest,
                None => rest,
            },
            None => rest,
        }
    }
}

/// The reports of the flows into the other files of the package: none where nothing is
/// known of them.
pub open spec fn package_reports(
    enabled: Seq<Text>,
    t: &SyntaxTree,
    src: Text,
    ctx: &FileContext<'_>,
) -> Seq<Report> {
    match (ctx.cross_file_summaries, ctx.java_same_package_paths) {
        (Some(summaries), Some(paths)) => hinted_reports(
            file_cross_flows::<Java>(
                t,
                0,
                t.after(0),
                Siblings { paths: views(paths@), files: summaries@, allowed: enabled },
                given(src, union_rule(enabled_rules(java_rules(), 0, enabled))),
            ),
            0,
            src,
        ),
        _ => Seq::empty(),
    }
}

fn enabled_specs(enabled: &Vec<String>) -> (out: Vec<(&'static str, TaintSpec)>)
    ensures
        views(out@) == enabled_rules(java_rules(), 0, views(enabled@)),
{
    let specs = java_taint_rule_specs();
    let ghost on = views(enabled@);
    let ghost all = enabled_rules(java_rules(), 0, on);
    let mut out: Vec<(&'static str, TaintSpec)> = Vec::new();
    assert(views(out@) + all =~= all);
    let mut k: usize = 0;
    while k < specs.len()
        invariant
            k <= specs@.len(),
            views(specs@) == java_rules(),
            on == views(enabled@),
            views(out@) + enabled_rules(java_rules(), k as int, on) == all,
        decreases specs.len() - k,
    {
        assert(views(specs@)[k as int] == specs@[k as int]@);
        if has_text(enabled, specs[k].0) {
            let ghost before = views(out@);
            out.push((specs[k].0, specs[k].1.clone()));
            proof {
                let rest = enabled_rules(java_rules(), k + 1, on);
                let here = java_rules()[k as int];
                assert(before.push(here) + rest =~= before + (seq![here] + rest));
            }
        }
        k = k + 1;
    }
    assert(views(out@) + Seq::<(Text, TaintRule)>::empty() =~= views(out@));
    out
}

fn push_hinted(raw: &Vec<TaintFinding>, source: &str, out: &mut Vec<Finding>)
    ensures
        views(final(out)@) == views(old(out)@) + hinted_reports(views(raw@), 0, source@),
{
    let ghost flows = views(raw@);
    let ghost all = views(out@) + hinted_reports(flows, 0, source@);
    let mut k: usize = 0;
    while k < raw.len()
        invariant
            k <= raw@.len(),
            flows == views(raw@),
            views(out@) + hinted_reports(flows, k as int, source@) == all,
        decreases raw.len() - k,
    {
        assert(flows[k as int] == raw@[k as int]@);
        match &raw[k].rule_id_hint {
            Some(h) => {
                match java_taint_meta(h.as_str()) {
                    Some(meta) => {
                        let ghost before = views(out@);
                        out.push(map_taint_finding(&meta, source, &raw[k]));
                        proof {
                            let here = flow_report(meta@, source@, flows[k as int]);
                            let rest = hinted_reports(flows, k + 1, source@);
                            assert(before.push(here) + rest =~= before + (seq![here] + rest));
                        }
                    },
                    None => {},
                }
            },
            None => {},
        }
        k = k + 1;
    }
    assert(views(out@) + Seq::<Report>::empty() =~= views(out@));
}

/// The findings of every enabled Java taint rule in a file, those by way of the other files
/// of the package last.
pub fn run_java_taint_batched(
    source: &str,
    tree: &SyntaxTree,
    ctx: &FileContext<'_>,
    enabled_rule_ids: &Vec<String>,
) -> (out: Vec<Finding>)
    requires
        tree.valid(source@),
        tree.len() > 0,
    ensures
        views(out@) == enabled_reports::<Java>(
            java_rules(),
            0,
            views(enabled_rule_ids@),
            tree,
            0,
            source@,
        ) + package_reports(views(enabled_rule_ids@), tree, source@, ctx),
{
    let mut out = run_taint_batched::<Java>(source, tree.root_node(), enabled_rule_ids);
    match (ctx.cross_file_summaries, &ctx.java_same_package_paths) {
        (Some(summaries), Some(paths)) => {
            let specs = enabled_specs(enabled_rule_ids);
            let cross = CrossFileInfo {
                same_package_paths: paths,
                summaries,
                allowed_rule_ids: enabled_rule_ids,
            };
            let raw = extract_cross_file_findings(tree.root_node(), source, &specs, &cross);
            push_hinted(&raw, source, &mut out);
        },
        _ => {
            assert(views(out@) + Seq::<Report>::empty() =~= views(out@));
        },
    }
    out
}

/// Every Java taint rule is found by its id, and what it says of itself agrees with what it
/// says of its flows.
pub proof fn java_taint_rules_are_found()
    ensures
        distinct_ids(java_rules()),
        forall|k: int|
            #![trigger java_rules()[k]]
            0 <= k < java_rules().len() ==> rule_named(java_rules(), 0, java_rules()[k].0)
                == java_rules()[k].1 && java_meta(java_rules()[k].0) is Some,
        java_meta(TaintSqlInjection::facts().id) matches Some(m) && m.rule_id == TaintSqlInjection::facts().id && m.severity
            == TaintSqlInjection::facts().severity && m.cwe == TaintSqlInjection::facts().cwe,
        java_meta(TaintCommandInjection::facts().id) matches Some(m) && m.rule_id == TaintCommandInjection::facts().id && m.severity
            == TaintCommandInjection::facts().severity && m.cwe == TaintCommandInjection::facts().cwe,
        java_meta(TaintSsrf::facts().id) matches Some(m) && m.rule_id == TaintSsrf::facts().id && m.severity
            == TaintSsrf::facts().severity && m.cwe == TaintSsrf::facts().cwe,
        java_meta(TaintUnsafeDeserialization::facts().id) matches Some(m) && m.rule_id == TaintUnsafeDeserialization::facts().id && m.severity
            == TaintUnsafeDeserialization::facts().severity && m.cwe == TaintUnsafeDeserialization::facts().cwe,
{
    reveal_strlit("java/taint-sql-injection");
    reveal_strlit("java/taint-command-injection");
    reveal_strlit("java/taint-ssrf");
    reveal_strlit("java/taint-unsafe-deserialization");
    assert("java/taint-sql-injection"@.len() != "java/taint-command-injection"@.len());
    assert("java/taint-sql-injection"@.len() != "java/taint-ssrf"@.len());
    assert("java/taint-sql-injection"@.len() != "java/taint-unsafe-deserialization"@.len());
    assert("java/taint-command-injection"@.len() != "java/taint-ssrf"@.len());
    assert("java/taint-command-injection"@.len() != "java/taint-unsafe-deserialization"@.len());
    assert("java/taint-ssrf"@.len() != "java/taint-unsafe-deserialization"@.len());
    reveal_with_fuel(rule_named, 5);
}

} // verus!
