//! Taint analysis for shell scripts, within a scope.
use crate::common::AliasTable;
use crate::scope::{assign, assigned};
use crate::taint_engine::{
    call, call_named, flow_at, has_text, lookup, m_call, m_params, match_call_name, param_names,
    taint_finding_at, Flow, Info, Matcher, NodeMatcher, TaintFinding, TaintInfo, TaintRule,
    TaintSpec, TaintState,
};
use crate::text::{chars_of, opt_view, text_eq, views, Text};
use crate::tree::{gap, indices, Node, SyntaxTree};
use vstd::prelude::*;

verus! {

broadcast use {crate::text::group_views, crate::tree::group_tree};

/// What is untrusted in a shell script: its parameters, its input and what is fetched.
pub open spec fn bash_sources() -> Seq<Matcher> {
    seq![
        m_params(seq!["1"@, "2"@, "3"@, "4"@, "5"@, "6"@, "7"@, "8"@, "9"@, "@"@, "*"@, "REPLY"@], "shell parameter ($1, $@, $REPLY, …)"@),
        m_call("read"@, "read (stdin)"@),
        m_call("curl"@, "$(curl …)"@),
        m_call("wget"@, "$(wget …)"@),
        m_call("cat"@, "$(cat …)"@),
    ]
}

/// What is untrusted in a shell script: its parameters, its input and what is fetched.
pub fn bash_taint_sources() -> (r: Vec<NodeMatcher>)
    ensures
        views(r@) == bash_sources(),
{
    let mut v: Vec<NodeMatcher> = Vec::new();
    let names0 = ["1", "2", "3", "4", "5", "6", "7", "8", "9", "@", "*", "REPLY"];
    assert(views(names0@) =~= seq!["1"@, "2"@, "3"@, "4"@, "5"@, "6"@, "7"@, "8"@, "9"@, "@"@, "*"@, "REPLY"@]);
    v.push(param_names(&names0, "shell parameter ($1, $@, $REPLY, …)"));
    v.push(call("read", "read (stdin)"));
    v.push(call("curl", "$(curl …)"));
    v.push(call("wget", "$(wget …)"));
    v.push(call("cat", "$(cat …)"));
    v
}

/// What makes a value safe in a shell script.
pub open spec fn bash_sanitizers() -> Seq<Matcher> {
    seq![
        m_call("printf"@, "printf %q (shell-quoted)"@),
    ]
}

/// What makes a value safe in a shell script.
pub fn bash_taint_sanitizers() -> (r: Vec<NodeMatcher>)
    ensures
        views(r@) == bash_sanitizers(),
{
    let mut v: Vec<NodeMatcher> = Vec::new();
    v.push(call("printf", "printf %q (shell-quoted)"));
    v
}

/// Where a shell runs its arguments.
pub open spec fn bash_sinks() -> Seq<Matcher> {
    seq![
        m_call("eval"@, "eval"@),
        m_call("bash"@, "bash -c"@),
        m_call("sh"@, "sh -c"@),
        m_call("source"@, "source"@),
        m_call("."@, ". (source)"@),
        m_call("system"@, "system"@),
    ]
}

/// Where a shell runs its arguments.
pub fn bash_taint_sinks() -> (r: Vec<NodeMatcher>)
    ensures
        views(r@) == bash_sinks(),
{
    let mut v: Vec<NodeMatcher> = Vec::new();
    v.push(call("eval", "eval"));
    v.push(call("bash", "bash -c"));
    v.push(call("sh", "sh -c"));
    v.push(call("source", "source"));
    v.push(call(".", ". (source)"));
    v.push(call("system", "system"));
    v
}

/// Untrusted commands.
pub open spec fn command_injection_rule() -> TaintRule {
    TaintRule {
        sources: bash_sources(),
        sinks: bash_sinks(),
        sanitizers: bash_sanitizers(),
    }
}

/// Untrusted commands.
pub fn command_injection_spec() -> (r: TaintSpec)
    ensures
        r@ == command_injection_rule(),
{
    TaintSpec {
        sources: bash_taint_sources(),
        sinks: bash_taint_sinks(),
        sanitizers: bash_taint_sanitizers(),
    }
}

/// The taint rules for shell scripts, each under its id.
pub open spec fn bash_rules() -> Seq<(Text, TaintRule)> {
    seq![
        ("bash/taint-command-injection"@, command_injection_rule()),
    ]
}

/// The taint rules for shell scripts, each under its id.
pub fn bash_taint_rule_specs() -> (r: Vec<(&'static str, TaintSpec)>)
    ensures
        views(r@) == bash_rules(),
{
    let mut v: Vec<(&'static str, TaintSpec)> = Vec::new();
    v.push(("bash/taint-command-injection", command_injection_spec()));
    v
}

// ─── Commands ────────────────────────────────────────────────────────────────
/// The name of the command at node `i`.
pub open spec fn command_of(t: &SyntaxTree, i: int, src: Text) -> Option<Text> {
    match t.field(i, "name"@) {
        Some(k) => match t.first_named(k) {
            Some(word) => if t.kind(k) == "command_name"@ {
                Some(t.text(word, src))
            } else {
                Some(t.text(k, src))
            },
            None => Some(t.text(k, src)),
        },
        None => None,
    }
}

fn command_name<'s>(node: Node<'_>, source: &'s str) -> (r: Option<&'s str>)
    requires
        node.valid(source@),
    ensures
        opt_view(r) == command_of(node.tree, node.index as int, source@),
{
    match node.child_by_field_name("name") {
        None => None,
        Some(k) => {
            if k.is_kind("command_name") {
                match k.first_named_child() {
                    Some(word) => Some(word.text(source)),
                    None => Some(k.text(source)),
                }
            } else {
                Some(k.text(source))
            }
        },
    }
}

/// The names of the commands among the nodes from `c` to before `e`.
pub open spec fn commands_among(t: &SyntaxTree, c: int, e: int, src: Text) -> Seq<Text>
    decreases gap(c, e),
{
    if c >= e {
        Seq::empty()
    } else {
        let rest = commands_among(t, c + 1, e, src);
        match command_of(t, c, src) {
            Some(name) => if t.kind(c) == "command"@ {
                seq![name] + rest
            } else {
                rest
            },
            None => rest,
        }
    }
}

/// The names of the commands in the substitution at node `i`, in all stages of a pipeline.
pub open spec fn commands_in(t: &SyntaxTree, i: int, src: Text) -> Seq<Text> {
    commands_among(t, i, t.after(i), src)
}

fn substitution_command_names(subst: Node<'_>, source: &str) -> (names: Vec<String>)
    requires
        subst.valid(source@),
    ensures
        views(names@) == commands_in(subst.tree, subst.index as int, source@),
{
    let ghost t = subst.tree;
    let e: usize = subst.end();
    let mut c: usize = subst.index;
    let mut names: Vec<String> = Vec::new();
    let ghost all = commands_among(t, c as int, e as int, source@);
    assert(views(names@) + all =~= all);
    while c < e
        invariant
            subst.valid(source@),
            t == subst.tree,
            e <= t.len(),
            views(names@) + commands_among(t, c as int, e as int, source@) == all,
        decreases gap(c as int, e as int),
    {
        let n = subst.at(c);
        if n.is_kind("command") {
            match command_name(n, source) {
                Some(name) => {
                    let ghost before = views(names@);
                    names.push(name.to_owned());
                    proof {
                        let rest = commands_among(t, c + 1, e as int, source@);
                        assert(before.push(name@) + rest =~= before + (seq![name@] + rest));
                    }
                },
                None => {},
            }
        }
        c = c + 1;
    }
    assert(views(names@) + Seq::<Text>::empty() =~= views(names@));
    names
}

/// The description of the first of `ms[from..]` that is for a call of one of `names`.
pub open spec fn some_call_named(ms: Seq<Matcher>, from: int, names: Seq<Text>) -> Option<Text>
    decreases ms.len() - from,
{
    if from < 0 || from >= ms.len() {
        None
    } else {
        match ms[from] {
            Matcher::Call { canonical, description } => if names.contains(canonical) {
                Some(description)
            } else {
                some_call_named(ms, from + 1, names)
            },
            _ => some_call_named(ms, from + 1, names),
        }
    }
}

fn match_some_call(ms: &Vec<NodeMatcher>, names: &Vec<String>) -> (r: Option<String>)
    ensures
        opt_view(r) == some_call_named(views(ms@), 0, views(names@)),
{
    let mut k: usize = 0;
    while k < ms.len()
        invariant
            k <= ms@.len(),
            some_call_named(views(ms@), 0, views(names@)) == some_call_named(
                views(ms@),
                k as int,
                views(names@),
            ),
        decreases ms.len() - k,
    {
        assert(views(ms@)[k as int] == ms@[k as int]@);
        match &ms[k] {
            NodeMatcher::Call { canonical, description } => {
                if has_text(names, canonical.as_str()) {
                    return Some(description.clone());
                }
            },
            _ => {},
        }
        k = k + 1;
    }
    None
}

// ─── Taint of values ─────────────────────────────────────────────────────────
/// A tainted value.
pub open spec fn tainted_value(description: Text, line: int) -> Info {
    Info { description, line, hops: 0, labels: None }
}

fn tainted_info(description: String, line: usize) -> (r: TaintInfo)
    ensures
        r@ == tainted_value(description@, line as int),
{
    TaintInfo { description, line, hops: 0, labels: None }
}

/// Whether node `i` expands a variable.
pub open spec fn is_expansion(t: &SyntaxTree, i: int) -> bool {
    t.kind(i) == "simple_expansion"@ || t.kind(i) == "expansion"@
}

/// The variable that is named first among the siblings `c`, `after(c)`, ... before `e`.
pub open spec fn variable_among(t: &SyntaxTree, c: int, e: int, src: Text) -> Option<Text>
    decreases gap(c, e),
{
    if c >= e {
        None
    } else if t.kind(c) == "variable_name"@ || t.kind(c) == "special_variable_name"@ {
        Some(t.text(c, src))
    } else {
        variable_among(t, t.after(c), e, src)
    }
}

fn find_variable_name<'s>(node: Node<'_>, source: &'s str) -> (r: Option<&'s str>)
    requires
        node.valid(source@),
    ensures
        opt_view(r) == variable_among(
            node.tree,
            node.index + 1,
            node.tree.after(node.index as int),
            source@,
        ),
{
    let e: usize = node.end();
    let mut c: usize = node.index + 1;
    while c < e
        invariant
            node.valid(source@),
            e == node.tree.after(node.index as int),
            e <= node.tree.len(),
            variable_among(node.tree, node.index + 1, e as int, source@) == variable_among(
                node.tree,
                c as int,
                e as int,
                source@,
            ),
        decreases gap(c as int, e as int),
    {
        let n = node.at(c);
        if n.is_kind("variable_name") || n.is_kind("special_variable_name") {
            return Some(n.text(source));
        }
        c = n.end();
    }
    None
}

/// What is known of the variable that node `i` expands.
pub open spec fn expanded(t: &SyntaxTree, i: int, src: Text, st: Map<Text, Info>) -> Option<Info> {
    match variable_among(t, i + 1, t.after(i), src) {
        Some(name) => lookup(st, name),
        None => None,
    }
}

/// What is known of the first tainted variable that is expanded among the nodes from `c`
/// to before `e`.
pub open spec fn expanded_among(t: &SyntaxTree, c: int, e: int, src: Text, st: Map<Text, Info>) -> Option<
    Info,
>
    decreases gap(c, e),
{
    if c >= e {
        None
    } else if is_expansion(t, c) && expanded(t, c, src, st) is Some {
        expanded(t, c, src, st)
    } else {
        expanded_among(t, c + 1, e, src, st)
    }
}

/// What is known of the first tainted variable that is expanded in node `i`.
pub open spec fn expanded_in(t: &SyntaxTree, i: int, src: Text, st: Map<Text, Info>) -> Option<
    Info,
> {
    expanded_among(t, i, t.after(i), src, st)
}

fn expansion_taint(node: Node<'_>, source: &str, state: &TaintState) -> (r: Option<TaintInfo>)
    requires
        node.valid(source@),
    ensures
        opt_view(r) == expanded_in(node.tree, node.index as int, source@, state@),
{
    let ghost t = node.tree;
    let e: usize = node.end();
    let mut c: usize = node.index;
    while c < e
        invariant
            node.valid(source@),
            t == node.tree,
            e <= t.len(),
            expanded_in(t, node.index as int, source@, state@) == expanded_among(
                t,
                c as int,
                e as int,
                source@,
                state@,
            ),
        decreases gap(c as int, e as int),
    {
        let n = node.at(c);
        if n.is_kind("simple_expansion") || n.is_kind("expansion") {
            match find_variable_name(n, source) {
                Some(name) => {
                    match state.info(name) {
                        Some(info) => {
                            return Some(info.clone());
                        },
                        None => {},
                    }
                },
                None => {},
            }
        }
        c = c + 1;
    }
    None
}

/// The taint of the value at node `i`: of a substitution in it with a source command, or of
/// a tainted variable that is expanded in it.
pub open spec fn value_of(
    t: &SyntaxTree,
    i: int,
    src: Text,
    sources: Seq<Matcher>,
    st: Map<Text, Info>,
) -> Option<Info>
    decreases gap(i, t.len()), 0int,
{
    if !(0 <= i < t.len()) {
        None
    } else if t.kind(i) == "command_substitution"@ {
        match some_call_named(sources, 0, commands_in(t, i, src)) {
            Some(d) => Some(tainted_value(d, t.line(i))),
            None => expanded_in(t, i, src, st),
        }
    } else if t.kind(i) != "concatenation"@ && expanded_in(t, i, src, st) is Some {
        expanded_in(t, i, src, st)
    } else {
        value_among(t, i + 1, t.after(i), src, sources, st)
    }
}

/// The taint of the first tainted one of the siblings `c`, `after(c)`, ... before `e`.
pub open spec fn value_among(
    t: &SyntaxTree,
    c: int,
    e: int,
    src: Text,
    sources: Seq<Matcher>,
    st: Map<Text, Info>,
) -> Option<Info>
    decreases gap(c, t.len()), 1int,
{
    if !(0 <= c < t.len() && c < e) {
        None
    } else if value_of(t, c, src, sources, st) is Some {
        value_of(t, c, src, sources, st)
    } else {
        value_among(t, t.after(c), e, src, sources, st)
    }
}

fn value_taint(value: Node<'_>, source: &str, spec: &TaintSpec, state: &TaintState) -> (r: Option<
    TaintInfo,
>)
    requires
        value.valid(source@),
    ensures
        opt_view(r) == value_of(
            value.tree,
            value.index as int,
            source@,
            spec@.sources,
            state@,
        ),
    decreases value.tree.len() - value.index,
{
    if value.is_kind("command_substitution") {
        let names = substitution_command_names(value, source);
        return match match_some_call(&spec.sources, &names) {
            Some(d) => Some(tainted_info(d, value.line())),
            None => expansion_taint(value, source, state),
        };
    }
    if !value.is_kind("concatenation") {
        let got = expansion_taint(value, source, state);
        if got.is_some() {
            return got;
        }
    }
    let e: usize = value.end();
    let mut c: usize = value.index + 1;
    while c < e
        invariant
            value.valid(source@),
            value.index < c,
            e <= value.tree.len(),
            value_of(value.tree, value.index as int, source@, spec@.sources, state@)
                == value_among(
                value.tree,
                c as int,
                e as int,
                source@,
                spec@.sources,
                state@,
            ),
        decreases gap(c as int, e as int),
    {
        let n = value.at(c);
        let got = value_taint(n, source, spec, state);
        if got.is_some() {
            return got;
        }
        c = n.end();
    }
    None
}

/// What stands in the quotes where node `i` is a string of one part; else node `i` itself.
pub open spec fn unquoted(t: &SyntaxTree, i: int) -> int {
    let parts = t.named_children(i);
    if t.kind(i) == "string"@ && parts.len() == 1 {
        parts[0]
    } else {
        i
    }
}

fn unquote<'a>(node: Node<'a>) -> (r: Node<'a>)
    requires
        node.wf(),
    ensures
        r.tree == node.tree,
        r.wf(),
        r.index == unquoted(node.tree, node.index as int),
{
    if node.is_kind("string") {
        let parts = node.named_children();
        assert(indices(parts@).len() == parts@.len());
        if parts.len() == 1 {
            assert(indices(parts@)[0] == parts@[0].index);
            return parts[0];
        }
    }
    node
}

/// Whether the value at node `i` is a substitution with a sanitizing command, in quotes or
/// not.
pub open spec fn is_sanitized(t: &SyntaxTree, i: int, src: Text, sanitizers: Seq<Matcher>) -> bool {
    let k = unquoted(t, i);
    t.kind(k) == "command_substitution"@ && some_call_named(
        sanitizers,
        0,
        commands_in(t, k, src),
    ) is Some
}

fn value_is_sanitized(value: Node<'_>, source: &str, spec: &TaintSpec) -> (r: bool)
    requires
        value.valid(source@),
    ensures
        r == is_sanitized(value.tree, value.index as int, source@, spec@.sanitizers),
{
    let inner = unquote(value);
    if !inner.is_kind("command_substitution") {
        return false;
    }
    let names = substitution_command_names(inner, source);
    match_some_call(&spec.sanitizers, &names).is_some()
}

// ─── Statements ──────────────────────────────────────────────────────────────
/// The value that the assignment at node `i` gives its variable.
pub open spec fn assigned_value(
    t: &SyntaxTree,
    i: int,
    src: Text,
    rule: TaintRule,
    st: Map<Text, Info>,
) -> Option<Info> {
    match t.field(i, "value"@) {
        Some(v) => if is_sanitized(t, v, src, rule.sanitizers) {
            None
        } else {
            match value_of(t, v, src, rule.sources, st) {
                Some(info) => Some(tainted_value(info.description, info.line)),
                None => None,
            }
        },
        None => None,
    }
}

/// The state after the assignment at node `i`.
pub open spec fn after_assignment(
    t: &SyntaxTree,
    i: int,
    src: Text,
    rule: TaintRule,
    st: Map<Text, Info>,
) -> Map<Text, Info> {
    match t.field(i, "name"@) {
        Some(k) => if t.kind(k) == "variable_name"@ {
            assigned(st, t.text(k, src), assigned_value(t, i, src, rule, st))
        } else {
            st
        },
        None => st,
    }
}

fn handle_assignment(node: Node<'_>, source: &str, spec: &TaintSpec, state: &mut TaintState)
    requires
        node.valid(source@),
    ensures
        final(state)@ == after_assignment(
            node.tree,
            node.index as int,
            source@,
            spec@,
            old(state)@,
        ),
{
    let name = match node.child_by_field_name("name") {
        Some(k) => {
            if !k.is_kind("variable_name") {
                return;
            }
            k.text(source)
        },
        None => {
            return;
        },
    };
    let got = match node.child_by_field_name("value") {
        Some(value) => {
            if value_is_sanitized(value, source, spec) {
                None
            } else {
                match value_taint(value, source, spec, state) {
                    Some(info) => Some(tainted_info(info.description, info.line)),
                    None => None,
                }
            }
        },
        None => None,
    };
    assign(state, name, got);
}

/// Whether `name` is a builtin that reads its input into variables.
pub open spec fn is_reader(name: Text) -> bool {
    name == "read"@ || name == "mapfile"@ || name == "readarray"@
}

/// Whether a word is the name of a variable, not a flag.
pub open spec fn is_plain(word: Text) -> bool {
    !(word.len() > 0 && word[0] == '-')
}

fn is_plain_word(word: &str) -> (r: bool)
    ensures
        r == is_plain(word@),
{
    let a = chars_of(word);
    !(a.len() > 0 && a[0] == '-')
}

/// The state `st` with the variables tainted that the arguments among the siblings from
/// `c` to before `e` name.
pub open spec fn words_tainted(
    t: &SyntaxTree,
    c: int,
    e: int,
    src: Text,
    value: Info,
    st: Map<Text, Info>,
) -> Map<Text, Info>
    decreases gap(c, e),
{
    if c >= e {
        st
    } else {
        let next = if t.in_field(c, "argument"@) && t.kind(c) == "word"@ && is_plain(
            t.text(c, src),
        ) {
            st.insert(t.text(c, src), value)
        } else {
            st
        };
        words_tainted(t, t.after(c), e, src, value, next)
    }
}

/// The state after the command at node `i` has read its input.
pub open spec fn after_read(
    t: &SyntaxTree,
    i: int,
    src: Text,
    sources: Seq<Matcher>,
    st: Map<Text, Info>,
) -> Map<Text, Info> {
    match command_of(t, i, src) {
        Some(name) => match call_named(sources, 0, name) {
            Some(d) => if is_reader(name) {
                words_tainted(t, i + 1, t.after(i), src, tainted_value(d, t.line(i)), st)
            } else {
                st
            },
            None => st,
        },
        None => st,
    }
}

fn handle_read_source(node: Node<'_>, source: &str, spec: &TaintSpec, state: &mut TaintState)
    requires
        node.valid(source@),
    ensures
        final(state)@ == after_read(
            node.tree,
            node.index as int,
            source@,
            spec@.sources,
            old(state)@,
        ),
{
    let name = match command_name(node, source) {
        Some(name) => name,
        None => {
            return;
        },
    };
    if !(text_eq(name, "read") || text_eq(name, "mapfile") || text_eq(name, "readarray")) {
        return;
    }
    let description = match match_call_name(&spec.sources, name) {
        Some(d) => d,
        None => {
            return;
        },
    };
    let ghost t = node.tree;
    let line: usize = node.line();
    let ghost value = tainted_value(description@, line as int);
    let e: usize = node.end();
    let mut c: usize = node.index + 1;
    while c < e
        invariant
            node.valid(source@),
            t == node.tree,
            e == t.after(node.index as int),
            e <= t.len(),
            value == tainted_value(description@, line as int),
            words_tainted(t, node.index + 1, e as int, source@, value, old(state)@)
                == words_tainted(t, c as int, e as int, source@, value, state@),
        decreases gap(c as int, e as int),
    {
        let n = node.at(c);
        if n.is_in_field("argument") && n.is_kind("word") {
            let word = n.text(source);
            if is_plain_word(word) {
                state.taint(word.to_owned(), tainted_info(description.clone(), line));
            }
        }
        c = n.end();
    }
}

/// What is known of the first tainted variable that is expanded in the arguments among
/// the siblings from `c` to before `e`.
pub open spec fn argument_among(t: &SyntaxTree, c: int, e: int, src: Text, st: Map<Text, Info>) -> Option<
    Info,
>
    decreases gap(c, e),
{
    if c >= e {
        None
    } else if t.in_field(c, "argument"@) && expanded_in(t, c, src, st) is Some {
        expanded_in(t, c, src, st)
    } else {
        argument_among(t, t.after(c), e, src, st)
    }
}

/// The flow that the command at node `i` makes into a sink.
pub open spec fn command_flow(
    t: &SyntaxTree,
    i: int,
    src: Text,
    sinks: Seq<Matcher>,
    st: Map<Text, Info>,
) -> Option<Flow> {
    match command_of(t, i, src) {
        Some(name) => match (
            call_named(sinks, 0, name),
            argument_among(t, i + 1, t.after(i), src, st),
        ) {
            (Some(sink), Some(info)) => Some(
                flow_at(t, i, info.description, info.line, sink, None, 1),
            ),
            _ => None,
        },
        None => None,
    }
}

fn tainted_argument(node: Node<'_>, source: &str, state: &TaintState) -> (r: Option<TaintInfo>)
    requires
        node.valid(source@),
    ensures
        opt_view(r) == argument_among(
            node.tree,
            node.index + 1,
            node.tree.after(node.index as int),
            source@,
            state@,
        ),
{
    let ghost t = node.tree;
    let e: usize = node.end();
    let mut c: usize = node.index + 1;
    while c < e
        invariant
            node.valid(source@),
            t == node.tree,
            e == t.after(node.index as int),
            e <= t.len(),
            argument_among(t, node.index + 1, e as int, source@, state@) == argument_among(
                t,
                c as int,
                e as int,
                source@,
                state@,
            ),
        decreases gap(c as int, e as int),
    {
        let n = node.at(c);
        if n.is_in_field("argument") {
            let got = expansion_taint(n, source, state);
            if got.is_some() {
                return got;
            }
        }
        c = n.end();
    }
    None
}

fn handle_command(node: Node<'_>, source: &str, spec: &TaintSpec, state: &TaintState) -> (r: Option<
    TaintFinding,
>)
    requires
        node.valid(source@),
    ensures
        opt_view(r) == command_flow(
            node.tree,
            node.index as int,
            source@,
            spec@.sinks,
            state@,
        ),
{
    match command_name(node, source) {
        None => None,
        Some(name) => match match_call_name(&spec.sinks, name) {
            None => None,
            Some(sink) => match tainted_argument(node, source, state) {
                None => None,
                Some(info) => Some(
                    taint_finding_at(node, info.description, info.line, sink, None, 1),
                ),
            },
        },
    }
}

// ─── Scopes ──────────────────────────────────────────────────────────────────
/// The state after node `i` is read.
pub open spec fn bash_state_after(
    t: &SyntaxTree,
    i: int,
    src: Text,
    rule: TaintRule,
    st: Map<Text, Info>,
) -> Map<Text, Info> {
    if t.kind(i) == "variable_assignment"@ {
        after_assignment(t, i, src, rule, st)
    } else if t.kind(i) == "command"@ {
        after_read(t, i, src, rule.sources, st)
    } else {
        st
    }
}

/// The flows among the nodes from `c` to before `e`, read in order from the state `st` on.
/// Functions are left out where `skip` says so.
pub open spec fn flows_among(
    t: &SyntaxTree,
    c: int,
    e: int,
    skip: bool,
    src: Text,
    rule: TaintRule,
    st: Map<Text, Info>,
) -> Seq<Flow>
    decreases gap(c, e),
{
    if c >= e {
        Seq::empty()
    } else if skip && t.kind(c) == "function_definition"@ {
        flows_among(t, t.after(c), e, skip, src, rule, st)
    } else {
        let next = bash_state_after(t, c, src, rule, st);
        let rest = flows_among(t, c + 1, e, skip, src, rule, next);
        match command_flow(t, c, src, rule.sinks, next) {
            Some(flow) => if t.kind(c) == "command"@ {
                seq![flow] + rest
            } else {
                rest
            },
            None => rest,
        }
    }
}

fn walk_scope(
    node: Node<'_>,
    source: &str,
    spec: &TaintSpec,
    state: &mut TaintState,
    findings: &mut Vec<TaintFinding>,
    skip_functions: bool,
)
    requires
        node.valid(source@),
    ensures
        views(final(findings)@) == views(old(findings)@) + flows_among(
            node.tree,
            node.index as int,
            node.tree.after(node.index as int),
            skip_functions,
            source@,
            spec@,
            old(state)@,
        ),
{
    let ghost t = node.tree;
    let ghost start = views(findings@);
    let e: usize = node.end();
    let mut c: usize = node.index;
    let ghost all = flows_among(t, c as int, e as int, skip_functions, source@, spec@, state@);
    while c < e
        invariant
            node.valid(source@),
            t == node.tree,
            e <= t.len(),
            start + all == views(findings@) + flows_among(
                t,
                c as int,
                e as int,
                skip_functions,
                source@,
                spec@,
                state@,
            ),
        decreases gap(c as int, e as int),
    {
        let n = node.at(c);
        if skip_functions && n.is_kind("function_definition") {
            c = n.end();
        } else {
            let ghost next = bash_state_after(t, c as int, source@, spec@, state@);
            if n.is_kind("variable_assignment") {
                proof {
                    reveal_strlit("variable_assignment");
                    reveal_strlit("command");
                    assert("variable_assignment"@.len() != "command"@.len());
                }
                handle_assignment(n, source, spec, state);
            } else if n.is_kind("command") {
                handle_read_source(n, source, spec, state);
                match handle_command(n, source, spec, state) {
                    Some(f) => {
                        let ghost before = views(findings@);
                        findings.push(f);
                        proof {
                            let rest = flows_among(
                                t,
                                c + 1,
                                e as int,
                                skip_functions,
                                source@,
                                spec@,
                                next,
                            );
                            assert(before.push(f@) + rest =~= before + (seq![f@] + rest));
                        }
                    },
                    None => {},
                }
            }
            c = c + 1;
        }
    }
    assert(views(findings@) + Seq::<Flow>::empty() =~= views(findings@));
}

/// The state `st` with the variables `names[from..]` tainted.
pub open spec fn names_tainted(names: Seq<Text>, from: int, value: Info, st: Map<Text, Info>) -> Map<
    Text,
    Info,
>
    decreases names.len() - from,
{
    if from < 0 || from >= names.len() {
        st
    } else {
        names_tainted(names, from + 1, value, st.insert(names[from], value))
    }
}

/// The state `st` with the parameters tainted that `sources[from..]` name.
pub open spec fn params_tainted(sources: Seq<Matcher>, from: int, line: int, st: Map<Text, Info>) -> Map<
    Text,
    Info,
>
    decreases sources.len() - from,
{
    if from < 0 || from >= sources.len() {
        st
    } else {
        let next = match sources[from] {
            Matcher::ParamName { names, description } => names_tainted(
                names,
                0,
                tainted_value(description, line),
                st,
            ),
            _ => st,
        };
        params_tainted(sources, from + 1, line, next)
    }
}

fn taint_names(names: &Vec<String>, description: &str, line: usize, state: &mut TaintState)
    ensures
        final(state)@ == names_tainted(
            views(names@),
            0,
            tainted_value(description@, line as int),
            old(state)@,
        ),
{
    let ghost ns = views(names@);
    let ghost value = tainted_value(description@, line as int);
    let mut k: usize = 0;
    while k < names.len()
        invariant
            ns == views(names@),
            value == tainted_value(description@, line as int),
            k <= names@.len(),
            names_tainted(ns, 0, value, old(state)@) == names_tainted(ns, k as int, value, state@),
        decreases names.len() - k,
    {
        assert(ns[k as int] == names@[k as int]@);
        state.taint(names[k].clone(), tainted_info(description.to_owned(), line));
        k = k + 1;
    }
}

fn seed_parameter_sources(scope: Node<'_>, spec: &TaintSpec) -> (state: TaintState)
    requires
        scope.wf(),
    ensures
        state@ == params_tainted(
            spec@.sources,
            0,
            scope.tree.line(scope.index as int),
            Map::empty(),
        ),
{
    let mut state = TaintState::new();
    let line: usize = scope.line();
    let ghost ms = spec@.sources;
    let mut k: usize = 0;
    while k < spec.sources.len()
        invariant
            ms == views(spec.sources@),
            k <= ms.len(),
            params_tainted(ms, 0, line as int, Map::empty()) == params_tainted(
                ms,
                k as int,
                line as int,
                state@,
            ),
        decreases spec.sources.len() - k,
    {
        assert(ms[k as int] == spec.sources@[k as int]@);
        match &spec.sources[k] {
            NodeMatcher::ParamName { names, description } => taint_names(
                names,
                description.as_str(),
                line,
                &mut state,
            ),
            _ => {},
        }
        k = k + 1;
    }
    state
}

/// The flows in the function at node `f`.
pub open spec fn function_flows(t: &SyntaxTree, f: int, src: Text, rule: TaintRule) -> Seq<Flow> {
    match t.field(f, "body"@) {
        Some(b) => flows_among(
            t,
            b,
            t.after(b),
            false,
            src,
            rule,
            params_tainted(rule.sources, 0, t.line(f), Map::empty()),
        ),
        None => Seq::empty(),
    }
}

/// The flows in the functions among the nodes from `c` to before `e`.
pub open spec fn functions_flows(t: &SyntaxTree, c: int, e: int, src: Text, rule: TaintRule) -> Seq<
    Flow,
>
    decreases gap(c, e),
{
    if c >= e {
        Seq::empty()
    } else if t.kind(c) == "function_definition"@ {
        function_flows(t, c, src, rule) + functions_flows(t, c + 1, e, src, rule)
    } else {
        functions_flows(t, c + 1, e, src, rule)
    }
}

/// The flows in the script under node `root`: those outside of functions, and then those
/// in each function.
pub open spec fn script_flows(t: &SyntaxTree, root: int, src: Text, rule: TaintRule) -> Seq<Flow> {
    flows_among(
        t,
        root,
        t.after(root),
        true,
        src,
        rule,
        params_tainted(rule.sources, 0, t.line(root), Map::empty()),
    ) + functions_flows(t, root, t.after(root), src, rule)
}

/// The flows of a rule in a script.
pub fn analyze_tree(
    root: Node<'_>,
    source: &str,
    spec: &TaintSpec,
    _aliases: Option<&AliasTable>,
) -> (findings: Vec<TaintFinding>)
    requires
        root.valid(source@),
    ensures
        views(findings@) == script_flows(root.tree, root.index as int, source@, spec@),
{
    let ghost t = root.tree;
    let mut findings: Vec<TaintFinding> = Vec::new();
    let mut top = seed_parameter_sources(root, spec);
    walk_scope(root, source, spec, &mut top, &mut findings, true);
    let e: usize = root.end();
    let mut c: usize = root.index;
    let ghost all = script_flows(t, root.index as int, source@, spec@);
    assert(views(findings@) + functions_flows(t, c as int, e as int, source@, spec@) =~= all);
    while c < e
        invariant
            root.valid(source@),
            t == root.tree,
            e <= t.len(),
            views(findings@) + functions_flows(t, c as int, e as int, source@, spec@) == all,
        decreases gap(c as int, e as int),
    {
        let n = root.at(c);
        if n.is_kind("function_definition") {
            let ghost before = views(findings@);
            assert(before + Seq::<Flow>::empty() =~= before);
            match n.child_by_field_name("body") {
                Some(body) => {
                    let mut state = seed_parameter_sources(n, spec);
                    walk_scope(body, source, spec, &mut state, &mut findings, false);
                },
                None => {},
            }
            proof {
                let here = function_flows(t, c as int, source@, spec@);
                let rest = functions_flows(t, c + 1, e as int, source@, spec@);
                assert(before + here + rest =~= before + (here + rest));
            }
        }
        c = c + 1;
    }
    assert(views(findings@) + Seq::<Flow>::empty() =~= views(findings@));
    findings
}

} // verus!
