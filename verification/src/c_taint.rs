//! Taint analysis for C, within a function.
use crate::common::{column_number, column_of, AliasTable};
use crate::taint_engine::{
    call, call_named, m_call, m_params, match_call_name, match_param_source, param_names,
    param_source, Flow, Matcher, NodeMatcher, TaintFinding, TaintRule, TaintSpec,
};
use crate::text::{concat2, line_number, line_of, opt_view, text_eq, text_is, views, Text};
use crate::text_map::TextSet;
use crate::tree::{gap, indices, Node, SyntaxTree};
use vstd::prelude::*;
use vstd::string::*;

verus! {

broadcast use {crate::text::group_views, crate::tree::group_tree};

/// What is untrusted in C: what is read from files, sockets, the environment and the command line.
pub open spec fn c_sources() -> Seq<Matcher> {
    seq![
        m_call("read"@, "read() — POSIX file/socket read"@),
        m_call("recv"@, "recv() — socket receive"@),
        m_call("recvfrom"@, "recvfrom() — socket receive with address"@),
        m_call("recvmsg"@, "recvmsg() — socket message receive"@),
        m_call("fgets"@, "fgets() — buffered input"@),
        m_call("fread"@, "fread() — binary file read"@),
        m_call("fgetc"@, "fgetc() — single character read"@),
        m_call("getchar"@, "getchar() — stdin character read"@),
        m_call("gets"@, "gets() — unsafe stdin read"@),
        m_call("scanf"@, "scanf() — formatted stdin input"@),
        m_call("fscanf"@, "fscanf() — formatted file input"@),
        m_call("getenv"@, "getenv() — environment variable"@),
        m_params(seq!["argv"@], "argv — command-line arguments"@),
    ]
}

/// What is untrusted in C: what is read from files, sockets, the environment and the command line.
pub fn c_taint_sources() -> (r: Vec<NodeMatcher>)
    ensures
        views(r@) == c_sources(),
{
    let mut v: Vec<NodeMatcher> = Vec::new();
    v.push(call("read", "read() — POSIX file/socket read"));
    v.push(call("recv", "recv() — socket receive"));
    v.push(call("recvfrom", "recvfrom() — socket receive with address"));
    v.push(call("recvmsg", "recvmsg() — socket message receive"));
    v.push(call("fgets", "fgets() — buffered input"));
    v.push(call("fread", "fread() — binary file read"));
    v.push(call("fgetc", "fgetc() — single character read"));
    v.push(call("getchar", "getchar() — stdin character read"));
    v.push(call("gets", "gets() — unsafe stdin read"));
    v.push(call("scanf", "scanf() — formatted stdin input"));
    v.push(call("fscanf", "fscanf() — formatted file input"));
    v.push(call("getenv", "getenv() — environment variable"));
    let names12 = ["argv"];
    assert(views(names12@) =~= seq!["argv"@]);
    v.push(param_names(&names12, "argv — command-line arguments"));
    v
}

/// Untrusted format strings.
pub open spec fn format_string_rule() -> TaintRule {
    TaintRule {
        sources: c_sources(),
        sinks: seq![
            m_call("printf"@, "printf() with tainted format string"@),
            m_call("fprintf"@, "fprintf() with tainted format string"@),
            m_call("syslog"@, "syslog() with tainted format string"@),
        ],
        sanitizers: Seq::empty(),
    }
}

/// Untrusted format strings.
pub fn format_string_spec() -> (r: TaintSpec)
    ensures
        r@ == format_string_rule(),
{
    let mut v: Vec<NodeMatcher> = Vec::new();
    v.push(call("printf", "printf() with tainted format string"));
    v.push(call("fprintf", "fprintf() with tainted format string"));
    v.push(call("syslog", "syslog() with tainted format string"));
    TaintSpec { sources: c_taint_sources(), sinks: v, sanitizers: Vec::new() }
}

/// Untrusted commands.
pub open spec fn command_injection_rule() -> TaintRule {
    TaintRule {
        sources: c_sources(),
        sinks: seq![
            m_call("system"@, "system() with tainted argument"@),
            m_call("popen"@, "popen() with tainted argument"@),
            m_call("execl"@, "execl() with tainted argument"@),
            m_call("execlp"@, "execlp() with tainted argument"@),
            m_call("execle"@, "execle() with tainted argument"@),
            m_call("execv"@, "execv() with tainted argument"@),
            m_call("execvp"@, "execvp() with tainted argument"@),
            m_call("execve"@, "execve() with tainted argument"@),
        ],
        sanitizers: Seq::empty(),
    }
}

/// Untrusted commands.
pub fn command_injection_spec() -> (r: TaintSpec)
    ensures
        r@ == command_injection_rule(),
{
    let mut v: Vec<NodeMatcher> = Vec::new();
    v.push(call("system", "system() with tainted argument"));
    v.push(call("popen", "popen() with tainted argument"));
    v.push(call("execl", "execl() with tainted argument"));
    v.push(call("execlp", "execlp() with tainted argument"));
    v.push(call("execle", "execle() with tainted argument"));
    v.push(call("execv", "execv() with tainted argument"));
    v.push(call("execvp", "execvp() with tainted argument"));
    v.push(call("execve", "execve() with tainted argument"));
    TaintSpec { sources: c_taint_sources(), sinks: v, sanitizers: Vec::new() }
}

/// Untrusted data in unbounded copies.
pub open spec fn buffer_overflow_rule() -> TaintRule {
    TaintRule {
        sources: c_sources(),
        sinks: seq![
            m_call("strcpy"@, "strcpy() with tainted source — use strlcpy or strncpy"@),
            m_call("strcat"@, "strcat() with tainted source — use strlcat or strncat"@),
            m_call("memcpy"@, "memcpy() with tainted argument"@),
            m_call("memmove"@, "memmove() with tainted argument"@),
            m_call("gets"@, "gets() — always a buffer overflow risk"@),
        ],
        sanitizers: seq![
            m_call("strlcpy"@, "strlcpy() — bounds-checked copy"@),
            m_call("strlcat"@, "strlcat() — bounds-checked concatenation"@),
            m_call("strncpy"@, "strncpy() — length-limited copy"@),
            m_call("strncat"@, "strncat() — length-limited concatenation"@),
            m_call("snprintf"@, "snprintf() — bounds-checked format"@),
        ],
    }
}

/// Untrusted data in unbounded copies.
pub fn buffer_overflow_spec() -> (r: TaintSpec)
    ensures
        r@ == buffer_overflow_rule(),
{
    let mut v: Vec<NodeMatcher> = Vec::new();
    v.push(call("strcpy", "strcpy() with tainted source — use strlcpy or strncpy"));
    v.push(call("strcat", "strcat() with tainted source — use strlcat or strncat"));
    v.push(call("memcpy", "memcpy() with tainted argument"));
    v.push(call("memmove", "memmove() with tainted argument"));
    v.push(call("gets", "gets() — always a buffer overflow risk"));
    let mut w: Vec<NodeMatcher> = Vec::new();
    w.push(call("strlcpy", "strlcpy() — bounds-checked copy"));
    w.push(call("strlcat", "strlcat() — bounds-checked concatenation"));
    w.push(call("strncpy", "strncpy() — length-limited copy"));
    w.push(call("strncat", "strncat() — length-limited concatenation"));
    w.push(call("snprintf", "snprintf() — bounds-checked format"));
    TaintSpec { sources: c_taint_sources(), sinks: v, sanitizers: w }
}

/// Untrusted queries.
pub open spec fn sql_injection_rule() -> TaintRule {
    TaintRule {
        sources: c_sources(),
        sinks: seq![
            m_call("sqlite3_exec"@, "sqlite3_exec() with tainted query"@),
            m_call("mysql_query"@, "mysql_query() with tainted query"@),
            m_call("mysql_real_query"@, "mysql_real_query() with tainted query"@),
            m_call("PQexec"@, "PQexec() with tainted query"@),
        ],
        sanitizers: seq![
            m_call("sqlite3_prepare_v2"@, "sqlite3_prepare_v2() — parameterized query"@),
            m_call("mysql_stmt_prepare"@, "mysql_stmt_prepare() — parameterized query"@),
            m_call("PQexecParams"@, "PQexecParams() — parameterized query"@),
        ],
    }
}

/// Untrusted queries.
pub fn sql_injection_spec() -> (r: TaintSpec)
    ensures
        r@ == sql_injection_rule(),
{
    let mut v: Vec<NodeMatcher> = Vec::new();
    v.push(call("sqlite3_exec", "sqlite3_exec() with tainted query"));
    v.push(call("mysql_query", "mysql_query() with tainted query"));
    v.push(call("mysql_real_query", "mysql_real_query() with tainted query"));
    v.push(call("PQexec", "PQexec() with tainted query"));
    let mut w: Vec<NodeMatcher> = Vec::new();
    w.push(call("sqlite3_prepare_v2", "sqlite3_prepare_v2() — parameterized query"));
    w.push(call("mysql_stmt_prepare", "mysql_stmt_prepare() — parameterized query"));
    w.push(call("PQexecParams", "PQexecParams() — parameterized query"));
    TaintSpec { sources: c_taint_sources(), sinks: v, sanitizers: w }
}

/// The taint rules for C, each under its id.
pub open spec fn c_rules() -> Seq<(Text, TaintRule)> {
    seq![
        ("c/taint-format-string"@, format_string_rule()),
        ("c/taint-command-injection"@, command_injection_rule()),
        ("c/taint-buffer-overflow"@, buffer_overflow_rule()),
        ("c/taint-sql-injection"@, sql_injection_rule()),
    ]
}

/// The taint rules for C, each under its id.
pub fn c_taint_rule_specs() -> (r: Vec<(&'static str, TaintSpec)>)
    ensures
        views(r@) == c_rules(),
{
    let mut v: Vec<(&'static str, TaintSpec)> = Vec::new();
    v.push(("c/taint-format-string", format_string_spec()));
    v.push(("c/taint-command-injection", command_injection_spec()));
    v.push(("c/taint-buffer-overflow", buffer_overflow_spec()));
    v.push(("c/taint-sql-injection", sql_injection_spec()));
    v
}

// ─── Reading the syntax tree ─────────────────────────────────────────────────
/// The name of the function that node `i` calls. A callee that is no plain name has none.
pub open spec fn callee_of(t: &SyntaxTree, i: int, src: Text) -> Option<Text> {
    if t.kind(i) == "call_expression"@ {
        match t.field(i, "function"@) {
            Some(f) => if t.kind(f) == "identifier"@ {
                Some(t.text(f, src))
            } else {
                None
            },
            None => None,
        }
    } else {
        None
    }
}

fn call_function_name<'s>(node: Node<'_>, source: &'s str) -> (r: Option<&'s str>)
    requires
        node.valid(source@),
    ensures
        opt_view(r) == callee_of(node.tree, node.index as int, source@),
{
    if !node.is_kind("call_expression") {
        return None;
    }
    match node.child_by_field_name("function") {
        Some(f) => {
            if f.is_kind("identifier") {
                Some(f.text(source))
            } else {
                None
            }
        },
        None => None,
    }
}

/// The name that the declarator at node `i` declares, behind pointers, arrays and
/// parentheses.
pub open spec fn declared_name(t: &SyntaxTree, i: int, src: Text) -> Option<Text>
    decreases gap(i, t.len()),
{
    if !(0 <= i < t.len()) {
        None
    } else if t.kind(i) == "identifier"@ {
        Some(t.text(i, src))
    } else if t.kind(i) == "pointer_declarator"@ || t.kind(i) == "array_declarator"@ || t.kind(i)
        == "parenthesized_declarator"@ {
        match t.field(i, "declarator"@) {
            Some(k) => declared_name(t, k, src),
            None => None,
        }
    } else {
        None
    }
}

fn innermost_identifier<'s>(node: Node<'_>, source: &'s str) -> (r: Option<&'s str>)
    requires
        node.valid(source@),
    ensures
        opt_view(r) == declared_name(node.tree, node.index as int, source@),
    decreases node.tree.len() - node.index,
{
    if node.is_kind("identifier") {
        Some(node.text(source))
    } else if node.is_kind("pointer_declarator") || node.is_kind("array_declarator")
        || node.is_kind("parenthesized_declarator") {
        match node.child_by_field_name("declarator") {
            Some(k) => innermost_identifier(k, source),
            None => None,
        }
    } else {
        None
    }
}

/// The variable that the initializer at node `i` sets, and the expression that it is set to.
pub open spec fn initialized(t: &SyntaxTree, i: int, src: Text) -> Option<(Text, int)> {
    match (t.field(i, "declarator"@), t.field(i, "value"@)) {
        (Some(d), Some(value)) => match declared_name(t, d, src) {
            Some(name) => Some((name, value)),
            None => None,
        },
        _ => None,
    }
}

/// The variables that the initializers among the siblings `c`, `after(c)`, ... before `e`
/// set, each with the expression that it is set to.
pub open spec fn initializers(t: &SyntaxTree, c: int, e: int, src: Text) -> Seq<(Text, int)>
    decreases gap(c, e),
{
    if c >= e {
        Seq::empty()
    } else {
        let rest = initializers(t, t.after(c), e, src);
        match initialized(t, c, src) {
            Some(x) => if t.kind(c) == "init_declarator"@ {
                seq![x] + rest
            } else {
                rest
            },
            None => rest,
        }
    }
}

/// The variable that the assignment at node `i` sets, and the expression that it is set to.
pub open spec fn assigned_init(t: &SyntaxTree, i: int, src: Text) -> Option<(Text, int)> {
    match (t.field(i, "left"@), t.field(i, "right"@)) {
        (Some(left), Some(right)) => if t.kind(left) == "identifier"@ {
            Some((t.text(left, src), right))
        } else {
            None
        },
        _ => None,
    }
}

/// The variables that the declaration or the assignment at node `i` sets, each with the
/// expression that it is set to.
pub open spec fn settings(t: &SyntaxTree, i: int, src: Text) -> Seq<(Text, int)> {
    if t.kind(i) == "declaration"@ {
        initializers(t, i + 1, t.after(i), src)
    } else if t.kind(i) == "assignment_expression"@ {
        match assigned_init(t, i, src) {
            Some(x) => seq![x],
            None => Seq::empty(),
        }
    } else {
        Seq::empty()
    }
}

/// What a variable and the node that it is set to denote.
pub open spec fn setting_view(x: (&str, Node<'_>)) -> (Text, int) {
    (x.0@, x.1.index as int)
}

/// What variables and the nodes that they are set to denote.
pub open spec fn setting_views(v: Seq<(&str, Node<'_>)>) -> Seq<(Text, int)> {
    v.map_values(|x: (&str, Node<'_>)| setting_view(x))
}

fn extract_initializer<'a, 's>(node: Node<'a>, source: &'s str) -> (r: Option<
    (&'s str, Node<'a>),
>)
    requires
        node.valid(source@),
    ensures
        match r {
            Some(x) => initialized(node.tree, node.index as int, source@) == Some(setting_view(x))
                && x.1.tree == node.tree && x.1.wf(),
            None => initialized(node.tree, node.index as int, source@) is None,
        },
{
    match (node.child_by_field_name("declarator"), node.child_by_field_name("value")) {
        (Some(d), Some(value)) => match innermost_identifier(d, source) {
            Some(name) => Some((name, value)),
            None => None,
        },
        _ => None,
    }
}

fn extract_declarator_inits<'a, 's>(decl: Node<'a>, source: &'s str) -> (r: Vec<
    (&'s str, Node<'a>),
>)
    requires
        decl.valid(source@),
    ensures
        setting_views(r@) == initializers(
            decl.tree,
            decl.index + 1,
            decl.tree.after(decl.index as int),
            source@,
        ),
        forall|k: int|
            #![trigger r@[k]]
            0 <= k < r@.len() ==> r@[k].1.tree == decl.tree && r@[k].1.wf(),
{
    let ghost t = decl.tree;
    let e: usize = decl.end();
    let mut c: usize = decl.index + 1;
    let mut out: Vec<(&'s str, Node<'a>)> = Vec::new();
    let ghost all = initializers(t, c as int, e as int, source@);
    assert(setting_views(out@) + all =~= all);
    while c < e
        invariant
            decl.valid(source@),
            t == decl.tree,
            e <= t.len(),
            setting_views(out@) + initializers(t, c as int, e as int, source@) == all,
            forall|k: int|
                #![trigger out@[k]]
                0 <= k < out@.len() ==> out@[k].1.tree == decl.tree && out@[k].1.wf(),
        decreases gap(c as int, e as int),
    {
        let n = decl.at(c);
        if n.is_kind("init_declarator") {
            match extract_initializer(n, source) {
                Some(x) => {
                    let ghost before = setting_views(out@);
                    out.push(x);
                    proof {
                        let here = setting_view(x);
                        let rest = initializers(t, t.after(c as int), e as int, source@);
                        assert(setting_views(out@) =~= before.push(here));
                        assert(before.push(here) + rest =~= before + (seq![here] + rest));
                    }
                },
                None => {},
            }
        }
        c = n.end();
    }
    assert(setting_views(out@) + Seq::<(Text, int)>::empty() =~= setting_views(out@));
    out
}

fn extract_assignment<'a, 's>(node: Node<'a>, source: &'s str) -> (r: Option<(&'s str, Node<'a>)>)
    requires
        node.valid(source@),
    ensures
        match r {
            Some(x) => assigned_init(node.tree, node.index as int, source@) == Some(setting_view(x))
                && x.1.tree == node.tree && x.1.wf(),
            None => assigned_init(node.tree, node.index as int, source@) is None,
        },
{
    match (node.child_by_field_name("left"), node.child_by_field_name("right")) {
        (Some(left), Some(right)) => {
            if left.is_kind("identifier") {
                Some((left.text(source), right))
            } else {
                None
            }
        },
        _ => None,
    }
}

fn extract_settings<'a, 's>(node: Node<'a>, source: &'s str) -> (r: Vec<(&'s str, Node<'a>)>)
    requires
        node.valid(source@),
    ensures
        setting_views(r@) == settings(node.tree, node.index as int, source@),
        forall|k: int|
            #![trigger r@[k]]
            0 <= k < r@.len() ==> r@[k].1.tree == node.tree && r@[k].1.wf(),
{
    if node.is_kind("declaration") {
        return extract_declarator_inits(node, source);
    }
    let mut out: Vec<(&'s str, Node<'a>)> = Vec::new();
    if node.is_kind("assignment_expression") {
        match extract_assignment(node, source) {
            Some(x) => out.push(x),
            None => {},
        }
    }
    assert(setting_views(out@) =~= settings(node.tree, node.index as int, source@));
    out
}

/// The text of the first identifier among the nodes from `c` to before `e`.
pub open spec fn first_identifier(t: &SyntaxTree, c: int, e: int, src: Text) -> Option<Text>
    decreases gap(c, e),
{
    if c >= e {
        None
    } else if t.kind(c) == "identifier"@ {
        Some(t.text(c, src))
    } else {
        first_identifier(t, c + 1, e, src)
    }
}

fn find_innermost_identifier<'s>(node: Node<'_>, source: &'s str) -> (r: Option<&'s str>)
    requires
        node.valid(source@),
    ensures
        opt_view(r) == first_identifier(
            node.tree,
            node.index as int,
            node.tree.after(node.index as int),
            source@,
        ),
{
    let e: usize = node.end();
    let mut c: usize = node.index;
    while c < e
        invariant
            node.valid(source@),
            e == node.tree.after(node.index as int),
            e <= node.tree.len(),
            first_identifier(node.tree, node.index as int, e as int, source@) == first_identifier(
                node.tree,
                c as int,
                e as int,
                source@,
            ),
        decreases gap(c as int, e as int),
    {
        let n = node.at(c);
        if n.is_kind("identifier") {
            return Some(n.text(source));
        }
        c = c + 1;
    }
    None
}

/// The variables that the arguments among the siblings from `c` to before `e` name. Of an
/// address or a cast it is the variable in it, of any other expression the empty name.
pub open spec fn argument_names(t: &SyntaxTree, c: int, e: int, src: Text) -> Seq<Text>
    decreases gap(c, e),
{
    if c >= e {
        Seq::empty()
    } else {
        let rest = argument_names(t, t.after(c), e, src);
        if !t.named(c) {
            rest
        } else if t.kind(c) == "identifier"@ {
            seq![t.text(c, src)] + rest
        } else if t.kind(c) == "pointer_expression"@ || t.kind(c) == "cast_expression"@ {
            match first_identifier(t, c, t.after(c), src) {
                Some(name) => seq![name] + rest,
                None => rest,
            }
        } else {
            seq![Seq::empty()] + rest
        }
    }
}

fn collect_arg_identifiers<'s>(args: Node<'_>, source: &'s str) -> (names: Vec<&'s str>)
    requires
        args.valid(source@),
    ensures
        views(names@) == argument_names(
            args.tree,
            args.index + 1,
            args.tree.after(args.index as int),
            source@,
        ),
{
    proof {
        reveal_strlit("");
        assert(""@ =~= Seq::<char>::empty());
    }
    let ghost t = args.tree;
    let e: usize = args.end();
    let mut c: usize = args.index + 1;
    let mut names: Vec<&'s str> = Vec::new();
    let ghost all = argument_names(t, c as int, e as int, source@);
    assert(views(names@) + all =~= all);
    while c < e
        invariant
            args.valid(source@),
            t == args.tree,
            e <= t.len(),
            ""@ == Seq::<char>::empty(),
            views(names@) + argument_names(t, c as int, e as int, source@) == all,
        decreases gap(c as int, e as int),
    {
        let n = args.at(c);
        if n.is_named() {
            let ghost before = views(names@);
            let ghost rest = argument_names(t, t.after(c as int), e as int, source@);
            if n.is_kind("identifier") {
                names.push(n.text(source));
                assert(before.push(views(names@).last()) + rest =~= before + (seq![
                    views(names@).last(),
                ] + rest));
            } else if n.is_kind("pointer_expression") || n.is_kind("cast_expression") {
                match find_innermost_identifier(n, source) {
                    Some(inner) => {
                        names.push(inner);
                        assert(before.push(inner@) + rest =~= before + (seq![inner@] + rest));
                    },
                    None => {},
                }
            } else {
                names.push("");
                assert(before.push(Seq::empty()) + rest =~= before + (seq![
                    Seq::<char>::empty(),
                ] + rest));
            }
        }
        c = n.end();
    }
    assert(views(names@) + Seq::<Text>::empty() =~= views(names@));
    names
}

// ─── Sources ─────────────────────────────────────────────────────────────────
/// Where a variable's taint comes from.
struct TaintSource {
    var_name: String,
    description: String,
    line: usize,
}

/// What a source of taint is: the variable, what fills it, and where.
pub struct Origin {
    pub name: Text,
    pub description: Text,
    pub line: int,
}

impl View for TaintSource {
    type V = Origin;

    closed spec fn view(&self) -> Origin {
        Origin { name: self.var_name@, description: self.description@, line: self.line as int }
    }
}

/// What makes the expression at node `i` a source: a call, or an element of `argv`.
pub open spec fn source_at(sources: Seq<Matcher>, t: &SyntaxTree, i: int, src: Text) -> Option<Text> {
    if t.kind(i) == "call_expression"@ {
        match callee_of(t, i, src) {
            Some(callee) => call_named(sources, 0, callee),
            None => None,
        }
    } else if t.kind(i) == "subscript_expression"@ && t.field_text(i, "argument"@, src) == Some(
        "argv"@,
    ) {
        Some("argv — command-line arguments"@)
    } else {
        None
    }
}

fn classify_source_expr(node: Node<'_>, source: &str, spec: &TaintSpec) -> (r: Option<String>)
    requires
        node.valid(source@),
    ensures
        opt_view(r) == source_at(spec@.sources, node.tree, node.index as int, source@),
{
    if node.is_kind("call_expression") {
        match call_function_name(node, source) {
            Some(callee) => match_call_name(&spec.sources, callee),
            None => None,
        }
    } else if node.is_kind("subscript_expression") && text_is(
        node.field_text("argument", source),
        "argv",
    ) {
        Some("argv — command-line arguments".to_owned())
    } else {
        None
    }
}

/// Whether a call of `callee` writes untrusted data into its first argument.
pub open spec fn fills_first(callee: Text) -> bool {
    callee == "fgets"@ || callee == "fread"@
}

/// Whether a call of `callee` writes untrusted data into its second argument.
pub open spec fn fills_second(callee: Text) -> bool {
    callee == "read"@ || callee == "recv"@ || callee == "recvfrom"@ || callee == "recvmsg"@
}

/// Those of the arguments `names` that a call of `callee` writes untrusted data into.
pub open spec fn filled(callee: Text, names: Seq<Text>) -> Seq<Text> {
    if fills_first(callee) {
        names.take(if names.len() > 0 {
            1
        } else {
            0
        })
    } else if fills_second(callee) {
        if names.len() > 1 {
            seq![names[1]]
        } else {
            Seq::empty()
        }
    } else if callee == "fscanf"@ {
        names.skip(if names.len() > 2 {
            2
        } else {
            names.len() as int
        })
    } else if callee == "scanf"@ {
        names.skip(if names.len() > 1 {
            1
        } else {
            names.len() as int
        })
    } else {
        Seq::empty()
    }
}

/// What a call of `callee` that fills an argument is described as.
pub open spec fn fill_description(sources: Seq<Matcher>, callee: Text) -> Text {
    match call_named(sources, 0, callee) {
        Some(d) => d,
        None => callee + "()"@,
    }
}

/// The origins of the variables `names[from..]`.
pub open spec fn origins_of(names: Seq<Text>, from: int, description: Text, line: int) -> Seq<
    Origin,
>
    decreases names.len() - from,
{
    if from < 0 || from >= names.len() {
        Seq::empty()
    } else {
        seq![Origin { name: names[from], description, line }] + origins_of(
            names,
            from + 1,
            description,
            line,
        )
    }
}

/// The origins among the variables `set[from..]`, which are set on the given line: those
/// that are set to a source.
pub open spec fn set_origins(
    sources: Seq<Matcher>,
    t: &SyntaxTree,
    set: Seq<(Text, int)>,
    from: int,
    line: int,
    src: Text,
) -> Seq<Origin>
    decreases set.len() - from,
{
    if from < 0 || from >= set.len() {
        Seq::empty()
    } else {
        let rest = set_origins(sources, t, set, from + 1, line, src);
        match source_at(sources, t, set[from].1, src) {
            Some(d) => seq![Origin { name: set[from].0, description: d, line }] + rest,
            None => rest,
        }
    }
}

/// The origins that node `i` gives rise to.
pub open spec fn origins_at(sources: Seq<Matcher>, t: &SyntaxTree, i: int, src: Text) -> Seq<
    Origin,
> {
    if t.kind(i) == "call_expression"@ {
        match (callee_of(t, i, src), t.field(i, "arguments"@)) {
            (Some(callee), Some(args)) => origins_of(
                filled(callee, argument_names(t, args + 1, t.after(args), src)),
                0,
                fill_description(sources, callee),
                t.line(i),
            ),
            _ => Seq::empty(),
        }
    } else {
        set_origins(sources, t, settings(t, i, src), 0, t.line(i), src)
    }
}

/// The origins that the nodes from `c` to before `e` give rise to.
pub open spec fn origins_among(sources: Seq<Matcher>, t: &SyntaxTree, c: int, e: int, src: Text) -> Seq<
    Origin,
>
    decreases gap(c, e),
{
    if c >= e {
        Seq::empty()
    } else {
        origins_at(sources, t, c, src) + origins_among(sources, t, c + 1, e, src)
    }
}

fn filled_arguments<'s>(callee: &str, names: Vec<&'s str>) -> (r: Vec<&'s str>)
    ensures
        views(r@) == filled(callee@, views(names@)),
{
    let n: usize = names.len();
    let mut out: Vec<&'s str> = Vec::new();
    let mut low: usize = n;
    let mut high: usize = n;
    if text_eq(callee, "fgets") || text_eq(callee, "fread") {
        low = 0;
        high = if n > 0 {
            1
        } else {
            0
        };
    } else if text_eq(callee, "read") || text_eq(callee, "recv") || text_eq(callee, "recvfrom")
        || text_eq(callee, "recvmsg") {
        if n > 1 {
            low = 1;
            high = 2;
        }
    } else if text_eq(callee, "fscanf") {
        if n > 2 {
            low = 2;
        }
    } else if text_eq(callee, "scanf") {
        if n > 1 {
            low = 1;
        }
    }
    let mut k: usize = low;
    while k < high
        invariant
            low <= k <= high <= names@.len(),
            views(out@) =~= views(names@).subrange(low as int, k as int),
        decreases high - k,
    {
        assert(views(names@)[k as int] == names@[k as int]@);
        out.push(names[k]);
        k = k + 1;
    }
    assert(views(out@) =~= filled(callee@, views(names@)));
    out
}

fn push_origins(names: &Vec<&str>, description: &str, line: usize, out: &mut Vec<TaintSource>)
    ensures
        views(final(out)@) == views(old(out)@) + origins_of(
            views(names@),
            0,
            description@,
            line as int,
        ),
{
    let ghost start = views(out@);
    let ghost ns = views(names@);
    let ghost d = description@;
    let mut k: usize = 0;
    while k < names.len()
        invariant
            ns == views(names@),
            d == description@,
            k <= names@.len(),
            start + origins_of(ns, 0, d, line as int) == views(out@) + origins_of(
                ns,
                k as int,
                d,
                line as int,
            ),
        decreases names.len() - k,
    {
        assert(ns[k as int] == names@[k as int]@);
        let ghost before = views(out@);
        out.push(
            TaintSource {
                var_name: names[k].to_owned(),
                description: description.to_owned(),
                line,
            },
        );
        proof {
            let here = views(out@).last();
            let rest = origins_of(ns, k + 1, d, line as int);
            assert(before.push(here) + rest =~= before + (seq![here] + rest));
        }
        k = k + 1;
    }
    assert(views(out@) + Seq::<Origin>::empty() =~= views(out@));
}

fn push_set_origins(node: Node<'_>, source: &str, spec: &TaintSpec, out: &mut Vec<TaintSource>)
    requires
        node.valid(source@),
    ensures
        views(final(out)@) == views(old(out)@) + set_origins(
            spec@.sources,
            node.tree,
            settings(node.tree, node.index as int, source@),
            0,
            node.tree.line(node.index as int),
            source@,
        ),
{
    let ghost start = views(out@);
    let ghost t = node.tree;
    let ghost ms = spec@.sources;
    let set = extract_settings(node, source);
    let ghost all = setting_views(set@);
    let line: usize = node.line();
    let mut k: usize = 0;
    while k < set.len()
        invariant
            node.valid(source@),
            t == node.tree,
            ms == spec@.sources,
            all == setting_views(set@),
            line == t.line(node.index as int),
            k <= set@.len(),
            forall|j: int|
                #![trigger set@[j]]
                0 <= j < set@.len() ==> set@[j].1.tree == node.tree && set@[j].1.wf(),
            start + set_origins(ms, t, all, 0, line as int, source@) == views(out@) + set_origins(
                ms,
                t,
                all,
                k as int,
                line as int,
                source@,
            ),
        decreases set.len() - k,
    {
        assert(all[k as int] == setting_view(set@[k as int]));
        match classify_source_expr(set[k].1, source, spec) {
            Some(d) => {
                let ghost before = views(out@);
                out.push(TaintSource { var_name: set[k].0.to_owned(), description: d, line });
                proof {
                    let here = views(out@).last();
                    let rest = set_origins(ms, t, all, k + 1, line as int, source@);
                    assert(before.push(here) + rest =~= before + (seq![here] + rest));
                }
            },
            None => {},
        }
        k = k + 1;
    }
    assert(views(out@) + Seq::<Origin>::empty() =~= views(out@));
}

fn collect_node_sources(node: Node<'_>, source: &str, spec: &TaintSpec, out: &mut Vec<TaintSource>)
    requires
        node.valid(source@),
    ensures
        views(final(out)@) == views(old(out)@) + origins_at(
            spec@.sources,
            node.tree,
            node.index as int,
            source@,
        ),
{
    let ghost before = views(out@);
    assert(before + Seq::<Origin>::empty() =~= before);
    if node.is_kind("call_expression") {
        match (call_function_name(node, source), node.child_by_field_name("arguments")) {
            (Some(callee), Some(args)) => {
                let names = filled_arguments(callee, collect_arg_identifiers(args, source));
                let description = match match_call_name(&spec.sources, callee) {
                    Some(d) => d,
                    None => concat2(callee, "()"),
                };
                push_origins(&names, description.as_str(), node.line(), out);
            },
            _ => {},
        }
    } else {
        push_set_origins(node, source, spec, out);
    }
}

fn collect_body_sources(scope: Node<'_>, source: &str, spec: &TaintSpec) -> (out: Vec<TaintSource>)
    requires
        scope.valid(source@),
    ensures
        views(out@) == origins_among(
            spec@.sources,
            scope.tree,
            scope.index as int,
            scope.tree.after(scope.index as int),
            source@,
        ),
{
    let ghost t = scope.tree;
    let ghost ms = spec@.sources;
    let e: usize = scope.end();
    let mut c: usize = scope.index;
    let mut out: Vec<TaintSource> = Vec::new();
    let ghost all = origins_among(ms, t, c as int, e as int, source@);
    assert(views(out@) + all =~= all);
    while c < e
        invariant
            scope.valid(source@),
            t == scope.tree,
            ms == spec@.sources,
            e <= t.len(),
            views(out@) + origins_among(ms, t, c as int, e as int, source@) == all,
        decreases gap(c as int, e as int),
    {
        let ghost before = views(out@);
        collect_node_sources(scope.at(c), source, spec, &mut out);
        proof {
            let here = origins_at(ms, t, c as int, source@);
            let rest = origins_among(ms, t, c + 1, e as int, source@);
            assert(before + here + rest =~= before + (here + rest));
        }
        c = c + 1;
    }
    assert(views(out@) + Seq::<Origin>::empty() =~= views(out@));
    out
}

/// The origin that the parameter at node `i` is.
pub open spec fn param_origin(sources: Seq<Matcher>, t: &SyntaxTree, i: int, src: Text) -> Option<
    Origin,
> {
    match t.field(i, "declarator"@) {
        Some(d) => match declared_name(t, d, src) {
            Some(name) => match param_source(sources, 0, name) {
                Some(description) => Some(Origin { name, description, line: t.line(i) }),
                None => None,
            },
            None => None,
        },
        None => None,
    }
}

/// The origins that the parameters among the siblings from `c` to before `e` are.
pub open spec fn param_origins(sources: Seq<Matcher>, t: &SyntaxTree, c: int, e: int, src: Text) -> Seq<
    Origin,
>
    decreases gap(c, e),
{
    if c >= e {
        Seq::empty()
    } else {
        let rest = param_origins(sources, t, t.after(c), e, src);
        match param_origin(sources, t, c, src) {
            Some(o) => if t.kind(c) == "parameter_declaration"@ {
                seq![o] + rest
            } else {
                rest
            },
            None => rest,
        }
    }
}

/// The origins that the parameters of the function at node `f` are.
pub open spec fn function_param_origins(sources: Seq<Matcher>, t: &SyntaxTree, f: int, src: Text) -> Seq<
    Origin,
> {
    match t.field(f, "declarator"@) {
        Some(d) => match t.field(d, "parameters"@) {
            Some(p) => param_origins(sources, t, p + 1, t.after(p), src),
            None => Seq::empty(),
        },
        None => Seq::empty(),
    }
}

fn param_taint_source(param: Node<'_>, source: &str, spec: &TaintSpec) -> (r: Option<TaintSource>)
    requires
        param.valid(source@),
    ensures
        opt_view(r) == param_origin(spec@.sources, param.tree, param.index as int, source@),
{
    match param.child_by_field_name("declarator") {
        Some(d) => match innermost_identifier(d, source) {
            Some(name) => match match_param_source(spec, name) {
                Some(description) => Some(
                    TaintSource { var_name: name.to_owned(), description, line: param.line() },
                ),
                None => None,
            },
            None => None,
        },
        None => None,
    }
}

fn collect_param_sources(func: Node<'_>, source: &str, spec: &TaintSpec, out: &mut Vec<TaintSource>)
    requires
        func.valid(source@),
    ensures
        views(final(out)@) == views(old(out)@) + function_param_origins(
            spec@.sources,
            func.tree,
            func.index as int,
            source@,
        ),
{
    let ghost start = views(out@);
    assert(start + Seq::<Origin>::empty() =~= start);
    let ghost t = func.tree;
    let ghost ms = spec@.sources;
    let params = match func.child_by_field_name("declarator") {
        Some(d) => match d.child_by_field_name("parameters") {
            Some(p) => p,
            None => {
                return;
            },
        },
        None => {
            return;
        },
    };
    let e: usize = params.end();
    let mut c: usize = params.index + 1;
    let ghost all = function_param_origins(ms, t, func.index as int, source@);
    while c < e
        invariant
            func.valid(source@),
            params.tree == func.tree,
            t == func.tree,
            ms == spec@.sources,
            e <= t.len(),
            start + all == views(out@) + param_origins(ms, t, c as int, e as int, source@),
        decreases gap(c as int, e as int),
    {
        let n = params.at(c);
        if n.is_kind("parameter_declaration") {
            match param_taint_source(n, source, spec) {
                Some(o) => {
                    let ghost before = views(out@);
                    out.push(o);
                    proof {
                        let rest = param_origins(ms, t, t.after(c as int), e as int, source@);
                        assert(before.push(o@) + rest =~= before + (seq![o@] + rest));
                    }
                },
                None => {},
            }
        }
        c = n.end();
    }
    assert(views(out@) + Seq::<Origin>::empty() =~= views(out@));
}

// ─── Spreading of taint ──────────────────────────────────────────────────────
/// Whether the index access at node `i` is on a tainted variable.
pub open spec fn indexes_tainted(t: &SyntaxTree, i: int, src: Text, tainted: Set<Text>) -> bool {
    t.kind(i) == "subscript_expression"@ && match t.field_text(i, "argument"@, src) {
        Some(base) => tainted.contains(base),
        None => false,
    }
}

fn is_tainted_subscript(node: Node<'_>, source: &str, tainted: &TextSet) -> (r: bool)
    requires
        node.valid(source@),
    ensures
        r == indexes_tainted(node.tree, node.index as int, source@, tainted@),
{
    node.is_kind("subscript_expression") && match node.field_text("argument", source) {
        Some(base) => tainted.contains(base),
        None => false,
    }
}

/// Whether the value of the expression at node `i` is tainted: it uses a tainted variable
/// or is a source. A call passes the taint of its arguments on, unless the callee is a
/// sanitizer.
pub open spec fn uses_tainted(
    t: &SyntaxTree,
    i: int,
    src: Text,
    rule: TaintRule,
    tainted: Set<Text>,
) -> bool
    decreases gap(i, t.len()), 0int,
{
    if !(0 <= i < t.len()) {
        false
    } else if t.kind(i) == "identifier"@ {
        tainted.contains(t.text(i, src))
    } else if indexes_tainted(t, i, src, tainted) {
        true
    } else if t.kind(i) == "call_expression"@ {
        let args = t.field(i, "arguments"@);
        !is_sanitizer(t, i, src, rule.sanitizers) && (source_at(rule.sources, t, i, src) is Some || (
        args is Some && argument_tainted(t, args->0 + 1, t.after(args->0), src, rule, tainted)))
    } else if source_at(rule.sources, t, i, src) is Some {
        true
    } else {
        part_tainted(t, i + 1, t.after(i), src, rule, tainted)
    }
}

/// Whether one of the siblings `c`, `after(c)`, ... before `e` is tainted.
pub open spec fn part_tainted(
    t: &SyntaxTree,
    c: int,
    e: int,
    src: Text,
    rule: TaintRule,
    tainted: Set<Text>,
) -> bool
    decreases gap(c, t.len()), 1int,
{
    if !(0 <= c < t.len() && c < e) {
        false
    } else if uses_tainted(t, c, src, rule, tainted) {
        true
    } else {
        part_tainted(t, t.after(c), e, src, rule, tainted)
    }
}

/// Whether one of the named siblings `c`, `after(c)`, ... before `e` is tainted.
pub open spec fn argument_tainted(
    t: &SyntaxTree,
    c: int,
    e: int,
    src: Text,
    rule: TaintRule,
    tainted: Set<Text>,
) -> bool
    decreases gap(c, t.len()), 1int,
{
    if !(0 <= c < t.len() && c < e) {
        false
    } else if t.named(c) && uses_tainted(t, c, src, rule, tainted) {
        true
    } else {
        argument_tainted(t, t.after(c), e, src, rule, tainted)
    }
}

/// Whether the call at node `i` is one of a sanitizer.
pub open spec fn is_sanitizer(t: &SyntaxTree, i: int, src: Text, sanitizers: Seq<Matcher>) -> bool {
    match callee_of(t, i, src) {
        Some(callee) => call_named(sanitizers, 0, callee) is Some,
        None => false,
    }
}

fn is_sanitizer_call(node: Node<'_>, source: &str, spec: &TaintSpec) -> (r: bool)
    requires
        node.valid(source@),
    ensures
        r == is_sanitizer(node.tree, node.index as int, source@, spec@.sanitizers),
{
    match call_function_name(node, source) {
        Some(callee) => match_call_name(&spec.sanitizers, callee).is_some(),
        None => false,
    }
}

/// Whether the value of an expression is tainted.
pub fn expr_uses_tainted(node: Node<'_>, source: &str, tainted: &TextSet, spec: &TaintSpec) -> (r:
    bool)
    requires
        node.valid(source@),
    ensures
        r == uses_tainted(node.tree, node.index as int, source@, spec@, tainted@),
    decreases node.tree.len() - node.index, 1int,
{
    if node.is_kind("identifier") {
        return tainted.contains(node.text(source));
    }
    if is_tainted_subscript(node, source, tainted) {
        return true;
    }
    if node.is_kind("call_expression") {
        if is_sanitizer_call(node, source, spec) {
            return false;
        }
        return classify_source_expr(node, source, spec).is_some()
            || match node.child_by_field_name("arguments") {
            Some(args) => some_argument_tainted(args, source, tainted, spec),
            None => false,
        };
    }
    if classify_source_expr(node, source, spec).is_some() {
        return true;
    }
    let e: usize = node.end();
    let mut c: usize = node.index + 1;
    while c < e
        invariant
            node.valid(source@),
            node.index < c,
            e <= node.tree.len(),
            uses_tainted(node.tree, node.index as int, source@, spec@, tainted@)
                == part_tainted(
                node.tree,
                c as int,
                e as int,
                source@,
                spec@,
                tainted@,
            ),
        decreases gap(c as int, e as int),
    {
        let n = node.at(c);
        if expr_uses_tainted(n, source, tainted, spec) {
            return true;
        }
        c = n.end();
    }
    false
}

fn some_argument_tainted(args: Node<'_>, source: &str, tainted: &TextSet, spec: &TaintSpec) -> (r:
    bool)
    requires
        args.valid(source@),
    ensures
        r == argument_tainted(
            args.tree,
            args.index + 1,
            args.tree.after(args.index as int),
            source@,
            spec@,
            tainted@,
        ),
    decreases args.tree.len() - args.index, 0int,
{
    let e: usize = args.end();
    let mut c: usize = args.index + 1;
    while c < e
        invariant
            args.valid(source@),
            args.index < c,
            e == args.tree.after(args.index as int),
            e <= args.tree.len(),
            argument_tainted(
                args.tree,
                args.index + 1,
                e as int,
                source@,
                spec@,
                tainted@,
            ) == argument_tainted(
                args.tree,
                c as int,
                e as int,
                source@,
                spec@,
                tainted@,
            ),
        decreases gap(c as int, e as int),
    {
        let n = args.at(c);
        if n.is_named() && expr_uses_tainted(n, source, tainted, spec) {
            return true;
        }
        c = n.end();
    }
    false
}

/// Whether a call of `callee` writes into its first argument.
pub open spec fn writes_first(callee: Text) -> bool {
    callee == "sprintf"@ || callee == "snprintf"@ || callee == "strcpy"@ || callee == "strncpy"@
        || callee == "strcat"@ || callee == "strncat"@ || callee == "strlcpy"@ || callee
        == "strlcat"@ || callee == "memcpy"@ || callee == "memmove"@
}

fn is_buffer_writing_call(callee: &str) -> (r: bool)
    ensures
        r == writes_first(callee@),
{
    text_eq(callee, "sprintf") || text_eq(callee, "snprintf") || text_eq(callee, "strcpy")
        || text_eq(callee, "strncpy") || text_eq(callee, "strcat") || text_eq(callee, "strncat")
        || text_eq(callee, "strlcpy") || text_eq(callee, "strlcat") || text_eq(callee, "memcpy")
        || text_eq(callee, "memmove")
}

/// Whether the `k`-th argument in the list at node `args` is of the given kind.
pub open spec fn argument_is(t: &SyntaxTree, args: int, k: int, kind: Text) -> bool {
    k < t.named_children(args).len() && t.kind(t.named_children(args)[k]) == kind
}

fn nth_argument<'a>(args: Node<'a>, k: usize) -> (r: Option<Node<'a>>)
    requires
        args.wf(),
    ensures
        match r {
            Some(n) => k < args.tree.named_children(args.index as int).len() && n.tree == args.tree
                && n.wf() && n.index == args.tree.named_children(args.index as int)[k as int],
            None => k >= args.tree.named_children(args.index as int).len(),
        },
{
    let all = args.named_children();
    assert(indices(all@).len() == all@.len());
    if k < all.len() {
        assert(indices(all@)[k as int] == all@[k as int].index);
        Some(all[k])
    } else {
        None
    }
}

/// Whether a call of `callee` with the arguments at node `args` formats by a literal: a
/// call that does not format does.
pub open spec fn formats_literally(t: &SyntaxTree, args: int, callee: Text) -> bool {
    if callee == "sprintf"@ {
        argument_is(t, args, 1, "string_literal"@)
    } else if callee == "snprintf"@ {
        argument_is(t, args, 2, "string_literal"@)
    } else {
        true
    }
}

fn format_is_literal(callee: &str, args: Node<'_>) -> (r: bool)
    requires
        args.wf(),
    ensures
        r == formats_literally(args.tree, args.index as int, callee@),
{
    let at: usize = if text_eq(callee, "sprintf") {
        1
    } else if text_eq(callee, "snprintf") {
        2
    } else {
        return true;
    };
    match nth_argument(args, at) {
        Some(n) => n.is_kind("string_literal"),
        None => false,
    }
}

/// Whether one of the names from `from` on is tainted. The empty name is none.
pub open spec fn some_name_tainted(names: Seq<Text>, from: int, tainted: Set<Text>) -> bool {
    exists|k: int|
        #![trigger names[k]]
        from <= k < names.len() && names[k].len() > 0 && tainted.contains(names[k])
}

fn is_some_name_tainted(names: &Vec<&str>, tainted: &TextSet) -> (r: bool)
    ensures
        r == some_name_tainted(views(names@), 1, tainted@),
{
    let mut k: usize = 1;
    while k < names.len()
        invariant
            1 <= k,
            forall|j: int|
                #![trigger views(names@)[j]]
                1 <= j < k && j < names@.len() ==> !(views(names@)[j].len() > 0 && tainted@.contains(
                    views(names@)[j],
                )),
        decreases names.len() - k,
    {
        assert(views(names@)[k as int] == names@[k as int]@);
        if !is_empty(names[k]) && tainted.contains(names[k]) {
            return true;
        }
        k = k + 1;
    }
    false
}

fn is_empty(s: &str) -> (r: bool)
    ensures
        r == (s@.len() == 0),
{
    s.unicode_len() == 0
}

/// The buffer that the call at node `i` taints, by writing tainted arguments into it.
pub open spec fn tainted_buffer(
    t: &SyntaxTree,
    i: int,
    src: Text,
    sanitizers: Seq<Matcher>,
    tainted: Set<Text>,
) -> Option<Text> {
    match (callee_of(t, i, src), t.field(i, "arguments"@)) {
        (Some(callee), Some(args)) => {
            let names = argument_names(t, args + 1, t.after(args), src);
            if writes_first(callee) && !is_sanitizer(t, i, src, sanitizers) && formats_literally(
                t,
                args,
                callee,
            ) && names.len() > 0 && names[0].len() > 0 && some_name_tainted(names, 1, tainted) {
                Some(names[0])
            } else {
                None
            }
        },
        _ => None,
    }
}

fn written_buffer<'s>(node: Node<'_>, source: &'s str, spec: &TaintSpec, tainted: &TextSet) -> (r:
    Option<&'s str>)
    requires
        node.valid(source@),
    ensures
        opt_view(r) == tainted_buffer(
            node.tree,
            node.index as int,
            source@,
            spec@.sanitizers,
            tainted@,
        ),
{
    match (call_function_name(node, source), node.child_by_field_name("arguments")) {
        (Some(callee), Some(args)) => {
            if !is_buffer_writing_call(callee) || is_sanitizer_call(node, source, spec)
                || !format_is_literal(callee, args) {
                return None;
            }
            let names = collect_arg_identifiers(args, source);
            if names.len() == 0 {
                return None;
            }
            assert(views(names@)[0] == names@[0]@);
            if !is_empty(names[0]) && is_some_name_tainted(&names, tainted) {
                Some(names[0])
            } else {
                None
            }
        },
        _ => None,
    }
}

/// The tainted variables after the variables `set[from..]` are set.
pub open spec fn spread_set(
    t: &SyntaxTree,
    set: Seq<(Text, int)>,
    from: int,
    src: Text,
    rule: TaintRule,
    tainted: Set<Text>,
) -> Set<Text>
    decreases set.len() - from,
{
    if from < 0 || from >= set.len() {
        tainted
    } else {
        spread_set(
            t,
            set,
            from + 1,
            src,
            rule,
            if uses_tainted(t, set[from].1, src, rule, tainted) {
                tainted.insert(set[from].0)
            } else {
                tainted
            },
        )
    }
}

/// The tainted variables after node `i` is read.
pub open spec fn spread_at(
    t: &SyntaxTree,
    i: int,
    src: Text,
    rule: TaintRule,
    tainted: Set<Text>,
) -> Set<Text> {
    match tainted_buffer(t, i, src, rule.sanitizers, tainted) {
        Some(name) => tainted.insert(name),
        None => spread_set(t, settings(t, i, src), 0, src, rule, tainted),
    }
}

/// The tainted variables after the nodes from `c` to before `e` are read in order.
pub open spec fn spread(
    t: &SyntaxTree,
    c: int,
    e: int,
    src: Text,
    rule: TaintRule,
    tainted: Set<Text>,
) -> Set<Text>
    decreases gap(c, e),
{
    if c >= e {
        tainted
    } else {
        spread(t, c + 1, e, src, rule, spread_at(t, c, src, rule, tainted))
    }
}

fn spread_node(node: Node<'_>, source: &str, spec: &TaintSpec, tainted: &mut TextSet)
    requires
        node.valid(source@),
    ensures
        final(tainted)@ == spread_at(
            node.tree,
            node.index as int,
            source@,
            spec@,
            old(tainted)@,
        ),
{
    match written_buffer(node, source, spec, tainted) {
        Some(name) => {
            add_once(tainted, name);
            return;
        },
        None => {},
    }
    let ghost t = node.tree;
    let ghost rule = spec@;
    let set = extract_settings(node, source);
    let ghost all = setting_views(set@);
    let mut k: usize = 0;
    while k < set.len()
        invariant
            node.valid(source@),
            t == node.tree,
            rule == spec@,
            all == setting_views(set@),
            k <= set@.len(),
            forall|j: int|
                #![trigger set@[j]]
                0 <= j < set@.len() ==> set@[j].1.tree == node.tree && set@[j].1.wf(),
            spread_set(t, all, 0, source@, rule, old(tainted)@) == spread_set(
                t,
                all,
                k as int,
                source@,
                rule,
                tainted@,
            ),
        decreases set.len() - k,
    {
        assert(all[k as int] == setting_view(set@[k as int]));
        if expr_uses_tainted(set[k].1, source, tainted, spec) {
            add_once(tainted, set[k].0);
        }
        k = k + 1;
    }
}

fn add_once(tainted: &mut TextSet, name: &str)
    ensures
        final(tainted)@ == old(tainted)@.insert(name@),
{
    if tainted.contains(name) {
        assert(old(tainted)@.insert(name@) =~= old(tainted)@);
    } else {
        tainted.insert(name.to_owned());
    }
}

fn spread_once(scope: Node<'_>, source: &str, spec: &TaintSpec, tainted: &mut TextSet)
    requires
        scope.valid(source@),
    ensures
        final(tainted)@ == spread(
            scope.tree,
            scope.index as int,
            scope.tree.after(scope.index as int),
            source@,
            spec@,
            old(tainted)@,
        ),
{
    let ghost t = scope.tree;
    let ghost rule = spec@;
    let e: usize = scope.end();
    let mut c: usize = scope.index;
    while c < e
        invariant
            scope.valid(source@),
            t == scope.tree,
            rule == spec@,
            e == t.after(scope.index as int),
            e <= t.len(),
            spread(t, scope.index as int, e as int, source@, rule, old(tainted)@) == spread(
                t,
                c as int,
                e as int,
                source@,
                rule,
                tainted@,
            ),
        decreases gap(c as int, e as int),
    {
        spread_node(scope.at(c), source, spec, tainted);
        c = c + 1;
    }
}

/// The variables of the origins.
pub open spec fn origin_names(origins: Seq<Origin>) -> Set<Text>
    decreases origins.len(),
{
    if origins.len() == 0 {
        Set::empty()
    } else {
        origin_names(origins.drop_last()).insert(origins.last().name)
    }
}

/// The variables that are tainted in the body at node `b`: those of the origins, and what
/// they spread to in two passes.
pub open spec fn tainted_in(
    t: &SyntaxTree,
    b: int,
    src: Text,
    rule: TaintRule,
    origins: Seq<Origin>,
) -> Set<Text> {
    let first = spread(t, b, t.after(b), src, rule, origin_names(origins));
    spread(t, b, t.after(b), src, rule, first)
}

fn build_tainted_set(
    scope: Node<'_>,
    source: &str,
    sources: &Vec<TaintSource>,
    spec: &TaintSpec,
) -> (tainted: TextSet)
    requires
        scope.valid(source@),
    ensures
        tainted@ == tainted_in(
            scope.tree,
            scope.index as int,
            source@,
            spec@,
            views(sources@),
        ),
{
    let mut tainted = TextSet::new();
    let ghost all = views(sources@);
    let mut k: usize = 0;
    assert(all.take(0) =~= Seq::empty());
    while k < sources.len()
        invariant
            all == views(sources@),
            k <= sources@.len(),
            tainted@ == origin_names(all.take(k as int)),
        decreases sources.len() - k,
    {
        proof {
            assert(all[k as int] == sources@[k as int]@);
            assert(all.take(k + 1).drop_last() =~= all.take(k as int));
            assert(all.take(k + 1).last() == all[k as int]);
        }
        add_once(&mut tainted, sources[k].var_name.as_str());
        k = k + 1;
    }
    assert(all.take(all.len() as int) =~= all);
    spread_once(scope, source, spec, &mut tainted);
    spread_once(scope, source, spec, &mut tainted);
    tainted
}

// ─── Sinks ───────────────────────────────────────────────────────────────────
/// Whether the nodes from `c` to before `e` mention a tainted variable.
pub open spec fn mentions(t: &SyntaxTree, c: int, e: int, src: Text, tainted: Set<Text>) -> bool
    decreases gap(c, e),
{
    if c >= e {
        false
    } else if t.kind(c) == "identifier"@ {
        tainted.contains(t.text(c, src)) || mentions(t, t.after(c), e, src, tainted)
    } else {
        indexes_tainted(t, c, src, tainted) || mentions(t, c + 1, e, src, tainted)
    }
}

/// Whether the expression at node `i` mentions a tainted variable.
pub open spec fn mentions_in(t: &SyntaxTree, i: int, src: Text, tainted: Set<Text>) -> bool {
    mentions(t, i, t.after(i), src, tainted)
}

fn expr_uses_tainted_simple(node: Node<'_>, source: &str, tainted: &TextSet) -> (r: bool)
    requires
        node.valid(source@),
    ensures
        r == mentions_in(node.tree, node.index as int, source@, tainted@),
{
    let e: usize = node.end();
    let mut c: usize = node.index;
    while c < e
        invariant
            node.valid(source@),
            e == node.tree.after(node.index as int),
            e <= node.tree.len(),
            mentions_in(node.tree, node.index as int, source@, tainted@) == mentions(
                node.tree,
                c as int,
                e as int,
                source@,
                tainted@,
            ),
        decreases gap(c as int, e as int),
    {
        let n = node.at(c);
        if n.is_kind("identifier") {
            if tainted.contains(n.text(source)) {
                return true;
            }
            c = n.end();
        } else {
            if is_tainted_subscript(n, source, tainted) {
                return true;
            }
            c = c + 1;
        }
    }
    false
}

/// Whether the expression at node `i` is a constant: a number, a `sizeof`, or arithmetic
/// on constants.
pub open spec fn is_constant(t: &SyntaxTree, i: int) -> bool
    decreases gap(i, t.len()),
{
    if !(0 <= i < t.len()) {
        false
    } else if t.kind(i) == "number_literal"@ || t.kind(i) == "sizeof_expression"@ {
        true
    } else if t.kind(i) == "parenthesized_expression"@ || t.kind(i) == "unary_expression"@ {
        let all = t.named_children(i);
        all.len() > 0 && is_constant(t, all[0])
    } else if t.kind(i) == "binary_expression"@ {
        match (t.field(i, "left"@), t.field(i, "right"@)) {
            (Some(l), Some(r)) => is_constant(t, l) && is_constant(t, r),
            _ => false,
        }
    } else {
        false
    }
}

fn is_constant_size_expr(node: Node<'_>) -> (r: bool)
    requires
        node.wf(),
    ensures
        r == is_constant(node.tree, node.index as int),
    decreases node.tree.len() - node.index,
{
    if node.is_kind("number_literal") || node.is_kind("sizeof_expression") {
        true
    } else if node.is_kind("parenthesized_expression") || node.is_kind("unary_expression") {
        match node.first_named_child() {
            Some(k) => is_constant_size_expr(k),
            None => false,
        }
    } else if node.is_kind("binary_expression") {
        match (node.child_by_field_name("left"), node.child_by_field_name("right")) {
            (Some(l), Some(r)) => is_constant_size_expr(l) && is_constant_size_expr(r),
            _ => false,
        }
    } else {
        false
    }
}

/// Whether `callee` is of the `exec` family.
pub open spec fn is_exec(callee: Text) -> bool {
    callee == "execl"@ || callee == "execlp"@ || callee == "execle"@ || callee == "execv"@ || callee
        == "execvp"@ || callee == "execve"@
}

fn is_exec_call(callee: &str) -> (r: bool)
    ensures
        r == is_exec(callee@),
{
    text_eq(callee, "execl") || text_eq(callee, "execlp") || text_eq(callee, "execle") || text_eq(
        callee,
        "execv",
    ) || text_eq(callee, "execvp") || text_eq(callee, "execve")
}

/// The position of the one argument of `callee` whose taint matters: the format of a
/// printing function, the program of an `exec`.
pub open spec fn key_argument(callee: Text) -> Option<int> {
    if callee == "printf"@ || is_exec(callee) {
        Some(0)
    } else if callee == "fprintf"@ || callee == "syslog"@ {
        Some(1)
    } else {
        None
    }
}

fn key_argument_index(callee: &str) -> (r: Option<usize>)
    ensures
        match r {
            Some(k) => key_argument(callee@) == Some(k as int),
            None => key_argument(callee@) is None,
        },
{
    if text_eq(callee, "printf") || is_exec_call(callee) {
        Some(0)
    } else if text_eq(callee, "fprintf") || text_eq(callee, "syslog") {
        Some(1)
    } else {
        None
    }
}

/// Whether taint reaches the sink `callee` by the arguments at node `args`. A copy of
/// constant size is safe, and so is a literal format.
pub open spec fn reaches(t: &SyntaxTree, args: int, callee: Text, src: Text, tainted: Set<Text>) -> bool {
    let all = t.named_children(args);
    match key_argument(callee) {
        Some(k) => k < all.len() && (is_exec(callee) || t.kind(all[k]) != "string_literal"@)
            && mentions_in(t, all[k], src, tainted),
        None => !((callee == "memcpy"@ || callee == "memmove"@) && all.len() > 2 && is_constant(
            t,
            all[2],
        )) && mentions_in(t, args, src, tainted),
    }
}

fn taint_reaches(args: Node<'_>, callee: &str, source: &str, tainted: &TextSet) -> (r: bool)
    requires
        args.valid(source@),
    ensures
        r == reaches(args.tree, args.index as int, callee@, source@, tainted@),
{
    match key_argument_index(callee) {
        Some(k) => match nth_argument(args, k) {
            Some(n) => (is_exec_call(callee) || !n.is_kind("string_literal"))
                && expr_uses_tainted_simple(n, source, tainted),
            None => false,
        },
        None => {
            if text_eq(callee, "memcpy") || text_eq(callee, "memmove") {
                match nth_argument(args, 2) {
                    Some(n) => {
                        if is_constant_size_expr(n) {
                            return false;
                        }
                    },
                    None => {},
                }
            }
            expr_uses_tainted_simple(args, source, tainted)
        },
    }
}

/// The sink that taint reaches by the call at node `i`.
pub open spec fn sink_at(
    t: &SyntaxTree,
    i: int,
    src: Text,
    sinks: Seq<Matcher>,
    tainted: Set<Text>,
) -> Option<Text> {
    match (callee_of(t, i, src), t.field(i, "arguments"@)) {
        (Some(callee), Some(args)) => if reaches(t, args, callee, src, tainted) {
            call_named(sinks, 0, callee)
        } else {
            None
        },
        _ => None,
    }
}

fn match_sink(node: Node<'_>, source: &str, spec: &TaintSpec, tainted: &TextSet) -> (r: Option<
    String,
>)
    requires
        node.valid(source@),
    ensures
        opt_view(r) == sink_at(node.tree, node.index as int, source@, spec@.sinks, tainted@),
{
    match (call_function_name(node, source), node.child_by_field_name("arguments")) {
        (Some(callee), Some(args)) => match match_call_name(&spec.sinks, callee) {
            Some(d) => {
                if taint_reaches(args, callee, source, tainted) {
                    Some(d)
                } else {
                    None
                }
            },
            None => None,
        },
        _ => None,
    }
}

/// The flow from the origin into the sink at node `i`.
pub open spec fn flow_into(t: &SyntaxTree, i: int, src: Text, origin: Origin, sink: Text) -> Flow {
    let start = t.nodes@[i].start_byte as int;
    let end = t.nodes@[i].end_byte as int;
    Flow {
        sink_start_byte: start,
        sink_end_byte: end,
        sink_line: line_of(src, start),
        sink_column: column_of(src, start),
        sink_end_line: line_of(src, end),
        sink_end_column: column_of(src, end),
        source_description: origin.description,
        sink_description: sink,
        source_line: origin.line,
        rule_id_hint: None,
        hops: 0,
    }
}

/// The flows from the origin into the sinks among the nodes from `c` to before `e`.
pub open spec fn flows_among(
    t: &SyntaxTree,
    c: int,
    e: int,
    src: Text,
    sinks: Seq<Matcher>,
    tainted: Set<Text>,
    origin: Origin,
) -> Seq<Flow>
    decreases gap(c, e),
{
    if c >= e {
        Seq::empty()
    } else {
        let rest = flows_among(t, c + 1, e, src, sinks, tainted, origin);
        match sink_at(t, c, src, sinks, tainted) {
            Some(sink) => seq![flow_into(t, c, src, origin, sink)] + rest,
            None => rest,
        }
    }
}

fn finding_at(node: Node<'_>, source: &str, origin: &TaintSource, sink: String) -> (r: TaintFinding)
    requires
        node.valid(source@),
    ensures
        r@ == flow_into(node.tree, node.index as int, source@, origin@, sink@),
{
    reveal(SyntaxTree::placed);
    let start: usize = node.start_byte();
    let end: usize = node.end_byte();
    TaintFinding {
        sink_start_byte: start,
        sink_end_byte: end,
        sink_line: line_number(source, start),
        sink_column: column_number(source, start),
        sink_end_line: line_number(source, end),
        sink_end_column: column_number(source, end),
        source_description: origin.description.clone(),
        sink_description: sink,
        source_line: origin.line,
        rule_id_hint: None,
        hops: 0,
    }
}

fn find_sinks(
    scope: Node<'_>,
    source: &str,
    spec: &TaintSpec,
    tainted: &TextSet,
    origin: &TaintSource,
    out: &mut Vec<TaintFinding>,
)
    requires
        scope.valid(source@),
    ensures
        views(final(out)@) == views(old(out)@) + flows_among(
            scope.tree,
            scope.index as int,
            scope.tree.after(scope.index as int),
            source@,
            spec@.sinks,
            tainted@,
            origin@,
        ),
{
    let ghost t = scope.tree;
    let ghost ms = spec@.sinks;
    let ghost start = views(out@);
    let e: usize = scope.end();
    let mut c: usize = scope.index;
    let ghost all = flows_among(t, c as int, e as int, source@, ms, tainted@, origin@);
    while c < e
        invariant
            scope.valid(source@),
            t == scope.tree,
            ms == spec@.sinks,
            e <= t.len(),
            start + all == views(out@) + flows_among(
                t,
                c as int,
                e as int,
                source@,
                ms,
                tainted@,
                origin@,
            ),
        decreases gap(c as int, e as int),
    {
        let n = scope.at(c);
        match match_sink(n, source, spec, tainted) {
            Some(sink) => {
                let ghost before = views(out@);
                out.push(finding_at(n, source, origin, sink));
                proof {
                    let here = views(out@).last();
                    let rest = flows_among(t, c + 1, e as int, source@, ms, tainted@, origin@);
                    assert(before.push(here) + rest =~= before + (seq![here] + rest));
                }
            },
            None => {},
        }
        c = c + 1;
    }
    assert(views(out@) + Seq::<Flow>::empty() =~= views(out@));
}

// ─── Functions and files ─────────────────────────────────────────────────────
/// The node that holds the body of the function at node `f`.
pub open spec fn c_body(t: &SyntaxTree, f: int) -> int {
    match t.field(f, "body"@) {
        Some(b) => b,
        None => f,
    }
}

/// All origins of taint in the function at node `f`.
pub open spec fn function_origins(t: &SyntaxTree, f: int, src: Text, sources: Seq<Matcher>) -> Seq<
    Origin,
> {
    let b = c_body(t, f);
    origins_among(sources, t, b, t.after(b), src) + function_param_origins(sources, t, f, src)
}

/// The flows in the function at node `f`. All are told as flows from its first origin.
pub open spec fn function_flows(t: &SyntaxTree, f: int, src: Text, rule: TaintRule) -> Seq<Flow> {
    let b = c_body(t, f);
    let origins = function_origins(t, f, src, rule.sources);
    if origins.len() == 0 {
        Seq::empty()
    } else {
        let tainted = tainted_in(t, b, src, rule, origins);
        flows_among(t, b, t.after(b), src, rule.sinks, tainted, origins[0])
    }
}

fn analyze_scope(
    scope: Node<'_>,
    source: &str,
    spec: &TaintSpec,
    out: &mut Vec<TaintFinding>,
)
    requires
        scope.valid(source@),
    ensures
        views(final(out)@) == views(old(out)@) + function_flows(
            scope.tree,
            scope.index as int,
            source@,
            spec@,
        ),
{
    let ghost start = views(out@);
    assert(start + Seq::<Flow>::empty() =~= start);
    let body = match scope.child_by_field_name("body") {
        Some(b) => b,
        None => scope,
    };
    let mut sources = collect_body_sources(body, source, spec);
    collect_param_sources(scope, source, spec, &mut sources);
    if sources.len() == 0 {
        return;
    }
    assert(views(sources@)[0] == sources@[0]@);
    let tainted = build_tainted_set(body, source, &sources, spec);
    find_sinks(body, source, spec, &tainted, &sources[0], out);
}

/// The flows in the functions among the nodes from `c` to before `e`.
pub open spec fn file_flows(t: &SyntaxTree, c: int, e: int, src: Text, rule: TaintRule) -> Seq<Flow>
    decreases gap(c, e),
{
    if c >= e {
        Seq::empty()
    } else if t.kind(c) == "function_definition"@ {
        function_flows(t, c, src, rule) + file_flows(t, c + 1, e, src, rule)
    } else {
        file_flows(t, c + 1, e, src, rule)
    }
}

/// The flows of a rule in a file.
pub fn analyze_tree(
    root: Node<'_>,
    source: &str,
    spec: &TaintSpec,
    _aliases: Option<&AliasTable>,
) -> (out: Vec<TaintFinding>)
    requires
        root.valid(source@),
    ensures
        views(out@) == file_flows(
            root.tree,
            root.index as int,
            root.tree.after(root.index as int),
            source@,
            spec@,
        ),
{
    let ghost t = root.tree;
    let e: usize = root.end();
    let mut c: usize = root.index;
    let mut out: Vec<TaintFinding> = Vec::new();
    let ghost all = file_flows(t, c as int, e as int, source@, spec@);
    assert(views(out@) + all =~= all);
    while c < e
        invariant
            root.valid(source@),
            t == root.tree,
            e <= t.len(),
            views(out@) + file_flows(t, c as int, e as int, source@, spec@) == all,
        decreases gap(c as int, e as int),
    {
        let n = root.at(c);
        if n.is_kind("function_definition") {
            let ghost before = views(out@);
            analyze_scope(n, source, spec, &mut out);
            proof {
                let here = function_flows(t, c as int, source@, spec@);
                let rest = file_flows(t, c + 1, e as int, source@, spec@);
                assert(before + here + rest =~= before + (here + rest));
            }
        }
        c = c + 1;
    }
    assert(views(out@) + Seq::<Flow>::empty() =~= views(out@));
    out
}

} // verus!
