//! What the C taint analysis finds: which argument of a sink counts, what fills a buffer, and
//! how taint spreads.
use crate::c_laws::{lemma_origin_names, lemma_spread_grows, lemma_spread_set_grows};
use crate::c_taint::{
    argument_names, argument_tainted, file_flows, filled, first_identifier, flow_into, flows_among,
    function_flows, function_origins, function_param_origins, initializers, is_constant, mentions,
    origin_names, origins_among, origins_at, origins_of, param_origins, part_tainted, set_origins,
    settings, sink_at, some_name_tainted, spread, spread_at, spread_set, tainted_buffer, tainted_in,
    uses_tainted, Origin,
};
use crate::taint_engine::{call_named, param_source, Flow, Matcher, TaintRule};
use crate::text::Text;
use crate::tree::{gap, SyntaxTree};
use crate::tree_laws::{a_child_comes_after_its_elders, is_child};
use vstd::prelude::*;

verus! {

broadcast use crate::tree::group_tree;

/// The kinds of nodes of C that the analysis tells apart differ in length or in a letter.
pub(crate) proof fn lemma_c_kinds()
    ensures
        "identifier"@.len() == 10,
        "call_expression"@.len() == 15,
        "subscript_expression"@.len() == 20,
        "declaration"@.len() == 11,
        "assignment_expression"@.len() == 21,
        "pointer_expression"@.len() == 18,
        "cast_expression"@.len() == 15,
        "call_expression"@ != "cast_expression"@,
{
    reveal_strlit("identifier");
    reveal_strlit("call_expression");
    reveal_strlit("subscript_expression");
    reveal_strlit("declaration");
    reveal_strlit("assignment_expression");
    reveal_strlit("pointer_expression");
    reveal_strlit("cast_expression");
    assert("call_expression"@[2] != "cast_expression"@[2]);
}

/// The functions of C that are sinks by one argument, or copy, differ in length or in a letter.
pub(crate) proof fn lemma_sink_names()
    ensures
        "printf"@.len() == 6,
        "fprintf"@.len() == 7,
        "syslog"@.len() == 6,
        "execl"@.len() == 5,
        "execlp"@.len() == 6,
        "execle"@.len() == 6,
        "execv"@.len() == 5,
        "execvp"@.len() == 6,
        "execve"@.len() == 6,
        "memcpy"@.len() == 6,
        "memmove"@.len() == 7,
        "printf"@ != "syslog"@,
        "printf"@ != "execlp"@,
        "printf"@ != "execle"@,
        "printf"@ != "execvp"@,
        "printf"@ != "execve"@,
        "printf"@ != "memcpy"@,
        "fprintf"@ != "memmove"@,
        "syslog"@ != "execlp"@,
        "syslog"@ != "execle"@,
        "syslog"@ != "execvp"@,
        "syslog"@ != "execve"@,
        "syslog"@ != "memcpy"@,
        "execl"@ != "execv"@,
        "execlp"@ != "execle"@,
        "execlp"@ != "execvp"@,
        "execlp"@ != "execve"@,
        "execlp"@ != "memcpy"@,
        "execle"@ != "execvp"@,
        "execle"@ != "execve"@,
        "execle"@ != "memcpy"@,
        "execvp"@ != "execve"@,
        "execvp"@ != "memcpy"@,
        "execve"@ != "memcpy"@,
{
    reveal_strlit("printf");
    reveal_strlit("fprintf");
    reveal_strlit("syslog");
    reveal_strlit("execl");
    reveal_strlit("execlp");
    reveal_strlit("execle");
    reveal_strlit("execv");
    reveal_strlit("execvp");
    reveal_strlit("execve");
    reveal_strlit("memcpy");
    reveal_strlit("memmove");
    assert("printf"@[0] != "syslog"@[0]);
    assert("printf"@[0] != "execlp"@[0]);
    assert("printf"@[0] != "execle"@[0]);
    assert("printf"@[0] != "execvp"@[0]);
    assert("printf"@[0] != "execve"@[0]);
    assert("printf"@[0] != "memcpy"@[0]);
    assert("fprintf"@[0] != "memmove"@[0]);
    assert("syslog"@[0] != "execlp"@[0]);
    assert("syslog"@[0] != "execle"@[0]);
    assert("syslog"@[0] != "execvp"@[0]);
    assert("syslog"@[0] != "execve"@[0]);
    assert("syslog"@[0] != "memcpy"@[0]);
    assert("execl"@[4] != "execv"@[4]);
    assert("execlp"@[5] != "execle"@[5]);
    assert("execlp"@[4] != "execvp"@[4]);
    assert("execlp"@[4] != "execve"@[4]);
    assert("execlp"@[0] != "memcpy"@[0]);
    assert("execle"@[4] != "execvp"@[4]);
    assert("execle"@[4] != "execve"@[4]);
    assert("execle"@[0] != "memcpy"@[0]);
    assert("execvp"@[5] != "execve"@[5]);
    assert("execvp"@[0] != "memcpy"@[0]);
    assert("execve"@[0] != "memcpy"@[0]);
}

/// The functions of C that fill their arguments differ in length or in a letter.
pub(crate) proof fn lemma_reader_names()
    ensures
        "fgets"@.len() == 5,
        "fread"@.len() == 5,
        "read"@.len() == 4,
        "recv"@.len() == 4,
        "recvfrom"@.len() == 8,
        "recvmsg"@.len() == 7,
        "fscanf"@.len() == 6,
        "scanf"@.len() == 5,
        "fgets"@ != "fread"@,
        "fgets"@ != "scanf"@,
        "fread"@ != "scanf"@,
        "read"@ != "recv"@,
{
    reveal_strlit("fgets");
    reveal_strlit("fread");
    reveal_strlit("read");
    reveal_strlit("recv");
    reveal_strlit("recvfrom");
    reveal_strlit("recvmsg");
    reveal_strlit("fscanf");
    reveal_strlit("scanf");
    assert("fgets"@[1] != "fread"@[1]);
    assert("fgets"@[0] != "scanf"@[0]);
    assert("fread"@[0] != "scanf"@[0]);
    assert("read"@[2] != "recv"@[2]);
}

/// The functions of C that write into their first argument differ in length or in a letter.
pub(crate) proof fn lemma_copier_names()
    ensures
        "sprintf"@.len() == 7,
        "snprintf"@.len() == 8,
        "strcpy"@.len() == 6,
        "strncpy"@.len() == 7,
        "strcat"@.len() == 6,
        "strncat"@.len() == 7,
        "strlcpy"@.len() == 7,
        "strlcat"@.len() == 7,
        "memcpy"@.len() == 6,
        "memmove"@.len() == 7,
        "sprintf"@ != "strncpy"@,
        "sprintf"@ != "strncat"@,
        "sprintf"@ != "strlcpy"@,
        "sprintf"@ != "strlcat"@,
        "sprintf"@ != "memmove"@,
        "strcpy"@ != "strcat"@,
        "strcpy"@ != "memcpy"@,
        "strncpy"@ != "strncat"@,
        "strncpy"@ != "strlcpy"@,
        "strncpy"@ != "strlcat"@,
        "strncpy"@ != "memmove"@,
        "strcat"@ != "memcpy"@,
        "strncat"@ != "strlcpy"@,
        "strncat"@ != "strlcat"@,
        "strncat"@ != "memmove"@,
        "strlcpy"@ != "strlcat"@,
        "strlcpy"@ != "memmove"@,
        "strlcat"@ != "memmove"@,
{
    reveal_strlit("sprintf");
    reveal_strlit("snprintf");
    reveal_strlit("strcpy");
    reveal_strlit("strncpy");
    reveal_strlit("strcat");
    reveal_strlit("strncat");
    reveal_strlit("strlcpy");
    reveal_strlit("strlcat");
    reveal_strlit("memcpy");
    reveal_strlit("memmove");
    assert("sprintf"@[1] != "strncpy"@[1]);
    assert("sprintf"@[1] != "strncat"@[1]);
    assert("sprintf"@[1] != "strlcpy"@[1]);
    assert("sprintf"@[1] != "strlcat"@[1]);
    assert("sprintf"@[0] != "memmove"@[0]);
    assert("strcpy"@[4] != "strcat"@[4]);
    assert("strcpy"@[0] != "memcpy"@[0]);
    assert("strncpy"@[5] != "strncat"@[5]);
    assert("strncpy"@[3] != "strlcpy"@[3]);
    assert("strncpy"@[3] != "strlcat"@[3]);
    assert("strncpy"@[0] != "memmove"@[0]);
    assert("strcat"@[0] != "memcpy"@[0]);
    assert("strncat"@[3] != "strlcpy"@[3]);
    assert("strncat"@[3] != "strlcat"@[3]);
    assert("strncat"@[0] != "memmove"@[0]);
    assert("strlcpy"@[5] != "strlcat"@[5]);
    assert("strlcpy"@[0] != "memmove"@[0]);
    assert("strlcat"@[0] != "memmove"@[0]);
}

/// Whether node `i` is a call of the function `callee` with the arguments at node `args`.
pub open spec fn is_call_of(t: &SyntaxTree, i: int, callee: Text, args: int, src: Text) -> bool {
    &&& t.kind(i) == "call_expression"@
    &&& t.field(i, "arguments"@) == Some(args)
    &&& t.field(i, "function"@) matches Some(f) && t.kind(f) == "identifier"@ && t.text(f, src)
        == callee
}

/// Whether one of the matchers is for calls of the function `name`.
pub open spec fn lists(ms: Seq<Matcher>, name: Text) -> bool {
    exists|k: int|
        #![trigger ms[k]]
        0 <= k < ms.len() && (ms[k] matches Matcher::Call { canonical, .. } && canonical == name)
}

proof fn lemma_listed(ms: Seq<Matcher>, from: int, name: Text)
    requires
        0 <= from,
    ensures
        call_named(ms, from, name) is Some <==> exists|k: int|
            #![trigger ms[k]]
            from <= k < ms.len() && (ms[k] matches Matcher::Call { canonical, .. } && canonical
                == name),
    decreases ms.len() - from,
{
    if from < ms.len() {
        lemma_listed(ms, from + 1, name);
        assert(ms[from] == ms[from]);
    }
}

/// Whether the tainted variable at node `m` stands in the expression at node `i`.
pub open spec fn names_tainted(
    t: &SyntaxTree,
    i: int,
    m: int,
    src: Text,
    tainted: Set<Text>,
) -> bool {
    &&& i <= m < t.after(i)
    &&& t.kind(m) == "identifier"@
    &&& tainted.contains(t.text(m, src))
    &&& forall|c: int| #![trigger t.kind(c)] i <= c < m && t.kind(c) == "identifier"@ ==> t.after(c)
        <= m
}

proof fn lemma_mentions(
    t: &SyntaxTree,
    c: int,
    e: int,
    m: int,
    src: Text,
    tainted: Set<Text>,
)
    requires
        c <= m < e,
        t.kind(m) == "identifier"@,
        tainted.contains(t.text(m, src)),
        forall|j: int|
            #![trigger t.kind(j)]
            c <= j < m && t.kind(j) == "identifier"@ ==> t.after(j) <= m,
    ensures
        mentions(t, c, e, src, tainted),
    decreases gap(c, e),
{
    if c < m {
        if t.kind(c) == "identifier"@ {
            lemma_mentions(t, t.after(c), e, m, src, tainted);
        } else {
            lemma_mentions(t, c + 1, e, m, src, tainted);
        }
    }
}

proof fn lemma_mentions_none(t: &SyntaxTree, c: int, e: int, src: Text, tainted: Set<Text>)
    requires
        forall|m: int|
            #![trigger t.kind(m)]
            c <= m < e ==> t.kind(m) != "subscript_expression"@ && !(t.kind(m) == "identifier"@
                && tainted.contains(t.text(m, src))),
    ensures
        !mentions(t, c, e, src, tainted),
    decreases gap(c, e),
{
    if c < e {
        if t.kind(c) == "identifier"@ {
            lemma_mentions_none(t, t.after(c), e, src, tainted);
        } else {
            lemma_mentions_none(t, c + 1, e, src, tainted);
        }
    }
}

// ─── Sinks ───────────────────────────────────────────────────────────────────
/// The function prints by a format that is its first argument, or its second behind a stream
/// or a priority.
pub open spec fn format_position(callee: Text) -> int {
    if callee == "printf"@ {
        0
    } else {
        1
    }
}

/// A call of `printf`, `fprintf` or `syslog` that is listed as a sink is reported where its
/// format is no literal and holds a tainted variable.
pub proof fn a_tainted_format_is_a_sink(
    t: &SyntaxTree,
    i: int,
    callee: Text,
    args: int,
    m: int,
    src: Text,
    sinks: Seq<Matcher>,
    tainted: Set<Text>,
)
    requires
        callee == "printf"@ || callee == "fprintf"@ || callee == "syslog"@,
        is_call_of(t, i, callee, args, src),
        lists(sinks, callee),
        format_position(callee) < t.named_children(args).len(),
        t.kind(t.named_children(args)[format_position(callee)]) != "string_literal"@,
        names_tainted(t, t.named_children(args)[format_position(callee)], m, src, tainted),
    ensures
        sink_at(t, i, src, sinks, tainted) is Some,
{
    let a = t.named_children(args)[format_position(callee)];
    lemma_sink_names();
    lemma_listed(sinks, 0, callee);
    lemma_mentions(t, a, t.after(a), m, src, tainted);
}

/// A call of `printf`, `fprintf` or `syslog` is no sink where its format is a literal or is
/// missing, whatever its other arguments are.
pub proof fn a_literal_format_is_no_sink(
    t: &SyntaxTree,
    i: int,
    callee: Text,
    args: int,
    src: Text,
    sinks: Seq<Matcher>,
    tainted: Set<Text>,
)
    requires
        callee == "printf"@ || callee == "fprintf"@ || callee == "syslog"@,
        is_call_of(t, i, callee, args, src),
        format_position(callee) < t.named_children(args).len() ==> t.kind(
            t.named_children(args)[format_position(callee)],
        ) == "string_literal"@,
    ensures
        sink_at(t, i, src, sinks, tainted) is None,
{
    lemma_sink_names();
}

/// Whether `callee` is of the `exec` family.
pub open spec fn runs_its_first_argument(callee: Text) -> bool {
    callee == "execl"@ || callee == "execlp"@ || callee == "execle"@ || callee == "execv"@ || callee
        == "execvp"@ || callee == "execve"@
}

/// A call of the `exec` family that is listed as a sink is reported where the program that it
/// runs, its first argument, holds a tainted variable.
pub proof fn a_tainted_program_is_a_sink(
    t: &SyntaxTree,
    i: int,
    callee: Text,
    args: int,
    m: int,
    src: Text,
    sinks: Seq<Matcher>,
    tainted: Set<Text>,
)
    requires
        runs_its_first_argument(callee),
        is_call_of(t, i, callee, args, src),
        lists(sinks, callee),
        0 < t.named_children(args).len(),
        names_tainted(t, t.named_children(args)[0], m, src, tainted),
    ensures
        sink_at(t, i, src, sinks, tainted) is Some,
{
    let a = t.named_children(args)[0];
    lemma_sink_names();
    lemma_listed(sinks, 0, callee);
    lemma_mentions(t, a, t.after(a), m, src, tainted);
}

/// A call of the `exec` family is no sink where no tainted variable stands in its first
/// argument, whatever its other arguments are. Nor is a call that prints where none stands in
/// its format.
pub proof fn other_arguments_do_not_count(
    t: &SyntaxTree,
    i: int,
    callee: Text,
    args: int,
    p: int,
    src: Text,
    sinks: Seq<Matcher>,
    tainted: Set<Text>,
)
    requires
        runs_its_first_argument(callee) && p == 0 || (callee == "printf"@ || callee == "fprintf"@
            || callee == "syslog"@) && p == format_position(callee),
        is_call_of(t, i, callee, args, src),
        p < t.named_children(args).len() ==> {
            let a = t.named_children(args)[p];
            forall|m: int|
                #![trigger t.kind(m)]
                a <= m < t.after(a) ==> t.kind(m) != "subscript_expression"@ && !(t.kind(m)
                    == "identifier"@ && tainted.contains(t.text(m, src)))
        },
    ensures
        sink_at(t, i, src, sinks, tainted) is None,
{
    lemma_sink_names();
    if p < t.named_children(args).len() {
        let a = t.named_children(args)[p];
        lemma_mentions_none(t, a, t.after(a), src, tainted);
    }
}

/// A call of any other function that is listed as a sink is reported where a tainted variable
/// stands in any of its arguments. A copy is, unless it is of a constant number of bytes.
pub proof fn any_tainted_argument_of_another_sink_counts(
    t: &SyntaxTree,
    i: int,
    callee: Text,
    args: int,
    m: int,
    src: Text,
    sinks: Seq<Matcher>,
    tainted: Set<Text>,
)
    requires
        callee != "printf"@ && callee != "fprintf"@ && callee != "syslog"@,
        !runs_its_first_argument(callee),
        callee == "memcpy"@ || callee == "memmove"@ ==> t.named_children(args).len() <= 2
            || !is_constant(t, t.named_children(args)[2]),
        is_call_of(t, i, callee, args, src),
        lists(sinks, callee),
        names_tainted(t, args, m, src, tainted),
    ensures
        sink_at(t, i, src, sinks, tainted) is Some,
{
    lemma_listed(sinks, 0, callee);
    lemma_mentions(t, args, t.after(args), m, src, tainted);
}

/// A call of a function that is not listed is no sink.
pub proof fn an_unlisted_function_is_no_sink(
    t: &SyntaxTree,
    i: int,
    callee: Text,
    args: int,
    src: Text,
    sinks: Seq<Matcher>,
    tainted: Set<Text>,
)
    requires
        is_call_of(t, i, callee, args, src),
        !lists(sinks, callee),
    ensures
        sink_at(t, i, src, sinks, tainted) is None,
{
    lemma_listed(sinks, 0, callee);
}

proof fn lemma_flow_listed(
    t: &SyntaxTree,
    c: int,
    e: int,
    i: int,
    src: Text,
    sinks: Seq<Matcher>,
    tainted: Set<Text>,
    origin: Origin,
)
    requires
        c <= i < e,
        sink_at(t, i, src, sinks, tainted) is Some,
    ensures
        flows_among(t, c, e, src, sinks, tainted, origin).contains(
            flow_into(t, i, src, origin, sink_at(t, i, src, sinks, tainted)->0),
        ),
    decreases gap(c, e),
{
    let all = flows_among(t, c, e, src, sinks, tainted, origin);
    let rest = flows_among(t, c + 1, e, src, sinks, tainted, origin);
    if c == i {
        assert(all[0] == flow_into(t, i, src, origin, sink_at(t, i, src, sinks, tainted)->0));
    } else {
        lemma_flow_listed(t, c + 1, e, i, src, sinks, tainted, origin);
        let f = flow_into(t, i, src, origin, sink_at(t, i, src, sinks, tainted)->0);
        let k = choose|k: int| 0 <= k < rest.len() && rest[k] == f;
        assert(all[k + (all.len() - rest.len())] == f);
    }
}

proof fn lemma_file_flow(
    t: &SyntaxTree,
    c: int,
    e: int,
    f: int,
    src: Text,
    rule: TaintRule,
    flow: Flow,
)
    requires
        c <= f < e,
        t.kind(f) == "function_definition"@,
        function_flows(t, f, src, rule).contains(flow),
    ensures
        file_flows(t, c, e, src, rule).contains(flow),
    decreases gap(c, e),
{
    let all = file_flows(t, c, e, src, rule);
    let rest = file_flows(t, c + 1, e, src, rule);
    let here = function_flows(t, c, src, rule);
    if c == f {
        let k = choose|k: int| 0 <= k < here.len() && here[k] == flow;
        assert(all[k] == flow);
    } else {
        lemma_file_flow(t, c + 1, e, f, src, rule, flow);
        let k = choose|k: int| 0 <= k < rest.len() && rest[k] == flow;
        if t.kind(c) == "function_definition"@ {
            assert(all[here.len() + k] == flow);
        }
    }
}

/// Every sink that taint reaches in a function with a source is reported, at its own place,
/// among the flows of the function and of the file.
pub proof fn every_sink_that_taint_reaches_is_reported(
    t: &SyntaxTree,
    c: int,
    e: int,
    f: int,
    b: int,
    i: int,
    src: Text,
    rule: TaintRule,
)
    requires
        c <= f < e,
        t.kind(f) == "function_definition"@,
        t.field(f, "body"@) == Some(b),
        b <= i < t.after(b),
        function_origins(t, f, src, rule.sources).len() > 0,
        sink_at(
            t,
            i,
            src,
            rule.sinks,
            tainted_in(t, b, src, rule, function_origins(t, f, src, rule.sources)),
        ) is Some,
    ensures
        exists|flow: Flow| #[trigger]
            function_flows(t, f, src, rule).contains(flow) && file_flows(
                t,
                c,
                e,
                src,
                rule,
            ).contains(flow) && flow.sink_start_byte == t.nodes@[i].start_byte
                && flow.sink_end_byte == t.nodes@[i].end_byte,
{
    let origins = function_origins(t, f, src, rule.sources);
    let tainted = tainted_in(t, b, src, rule, origins);
    let flow = flow_into(t, i, src, origins[0], sink_at(t, i, src, rule.sinks, tainted)->0);
    lemma_flow_listed(t, b, t.after(b), i, src, rule.sinks, tainted, origins[0]);
    assert(function_flows(t, f, src, rule).contains(flow));
    lemma_file_flow(t, c, e, f, src, rule, flow);
}

// ─── Values ──────────────────────────────────────────────────────────────────
/// A tainted variable is tainted, and no other variable is.
pub proof fn a_variable_is_tainted_by_its_name(
    t: &SyntaxTree,
    i: int,
    src: Text,
    rule: TaintRule,
    tainted: Set<Text>,
)
    requires
        0 <= i < t.len(),
        t.kind(i) == "identifier"@,
    ensures
        uses_tainted(t, i, src, rule, tainted) <==> tainted.contains(t.text(i, src)),
{
}

proof fn lemma_part_tainted(
    t: &SyntaxTree,
    i: int,
    c: int,
    k: int,
    src: Text,
    rule: TaintRule,
    tainted: Set<Text>,
)
    requires
        t.wf(),
        is_child(t, i, k),
        i < c <= k,
        uses_tainted(t, k, src, rule, tainted),
    ensures
        part_tainted(t, c, t.after(i), src, rule, tainted),
        t.named(k) ==> argument_tainted(t, c, t.after(i), src, rule, tainted),
    decreases gap(c, t.after(i)),
{
    a_child_comes_after_its_elders(t, i, c, k);
    if c < k {
        lemma_part_tainted(t, i, t.after(c), k, src, rule, tainted);
    }
}

/// An expression that is no call is tainted where any part of it is.
pub proof fn a_tainted_part_taints_the_whole(
    t: &SyntaxTree,
    i: int,
    k: int,
    src: Text,
    rule: TaintRule,
    tainted: Set<Text>,
)
    requires
        t.wf(),
        0 <= i < t.len(),
        t.kind(i) != "identifier"@,
        t.kind(i) != "call_expression"@,
        is_child(t, i, k),
        uses_tainted(t, k, src, rule, tainted),
    ensures
        uses_tainted(t, i, src, rule, tainted),
{
    a_child_comes_after_its_elders(t, i, i, k);
    lemma_part_tainted(t, i, i + 1, k, src, rule, tainted);
}

/// A call is tainted where the function is a source or any argument is tainted, unless the
/// function is a sanitizer.
pub proof fn a_call_passes_its_arguments_on(
    t: &SyntaxTree,
    i: int,
    callee: Text,
    args: int,
    k: int,
    src: Text,
    rule: TaintRule,
    tainted: Set<Text>,
)
    requires
        t.wf(),
        0 <= i < t.len(),
        is_call_of(t, i, callee, args, src),
        !lists(rule.sanitizers, callee),
        lists(rule.sources, callee) || is_child(t, args, k) && t.named(k) && uses_tainted(
            t,
            k,
            src,
            rule,
            tainted,
        ),
    ensures
        uses_tainted(t, i, src, rule, tainted),
{
    lemma_c_kinds();
    lemma_listed(rule.sanitizers, 0, callee);
    lemma_listed(rule.sources, 0, callee);
    if is_child(t, args, k) && t.named(k) && uses_tainted(t, k, src, rule, tainted) {
        a_child_comes_after_its_elders(t, args, args, k);
        lemma_part_tainted(t, args, args + 1, k, src, rule, tainted);
    }
}

/// An element of a tainted array, and one of `argv`, is tainted.
pub proof fn a_tainted_array_taints_its_elements(
    t: &SyntaxTree,
    i: int,
    base: Text,
    src: Text,
    rule: TaintRule,
    tainted: Set<Text>,
)
    requires
        0 <= i < t.len(),
        t.kind(i) == "subscript_expression"@,
        t.field_text(i, "argument"@, src) == Some(base),
        tainted.contains(base) || base == "argv"@,
    ensures
        uses_tainted(t, i, src, rule, tainted),
{
    lemma_c_kinds();
}

// ─── Spreading ───────────────────────────────────────────────────────────────
proof fn lemma_spread_set_taints(
    t: &SyntaxTree,
    set: Seq<(Text, int)>,
    from: int,
    k: int,
    src: Text,
    rule: TaintRule,
    names: Set<Text>,
    tainted: Set<Text>,
)
    requires
        0 <= from <= k < set.len(),
        names.subset_of(tainted),
        forall|s: Set<Text>|
            #![trigger uses_tainted(t, set[k].1, src, rule, s)]
            names.subset_of(s) ==> uses_tainted(t, set[k].1, src, rule, s),
    ensures
        spread_set(t, set, from, src, rule, tainted).contains(set[k].0),
    decreases set.len() - from,
{
    let next = if uses_tainted(t, set[from].1, src, rule, tainted) {
        tainted.insert(set[from].0)
    } else {
        tainted
    };
    if from == k {
        lemma_spread_set_grows(t, set, from + 1, src, rule, next);
    } else {
        lemma_spread_set_taints(t, set, from + 1, k, src, rule, names, next);
    }
}

proof fn lemma_spread_taints(
    t: &SyntaxTree,
    c: int,
    e: int,
    n: int,
    src: Text,
    rule: TaintRule,
    names: Set<Text>,
    tainted: Set<Text>,
    x: Text,
)
    requires
        c <= n < e,
        names.subset_of(tainted),
        forall|s: Set<Text>|
            #![trigger spread_at(t, n, src, rule, s)]
            names.subset_of(s) ==> spread_at(t, n, src, rule, s).contains(x),
    ensures
        spread(t, c, e, src, rule, tainted).contains(x),
    decreases gap(c, e),
{
    let next = spread_at(t, c, src, rule, tainted);
    if c == n {
        lemma_spread_grows(t, c + 1, e, src, rule, next);
    } else {
        lemma_spread_set_grows(t, settings(t, c, src), 0, src, rule, tainted);
        assert(tainted.subset_of(next));
        lemma_spread_taints(t, c + 1, e, n, src, rule, names, next, x);
    }
}

/// A variable that is set, by an assignment or an initializer, to an expression that is
/// tainted wherever the variables of `names` are is tainted in its function, where those are
/// filled with untrusted data.
pub proof fn a_variable_that_is_set_is_tainted(
    t: &SyntaxTree,
    b: int,
    n: int,
    k: int,
    src: Text,
    rule: TaintRule,
    origins: Seq<Origin>,
    names: Set<Text>,
)
    requires
        b <= n < t.after(b),
        t.kind(n) == "declaration"@ || t.kind(n) == "assignment_expression"@,
        0 <= k < settings(t, n, src).len(),
        forall|x: Text|
            #![trigger names.contains(x)]
            names.contains(x) ==> exists|j: int|
                #![trigger origins[j]]
                0 <= j < origins.len() && origins[j].name == x,
        forall|s: Set<Text>|
            #![trigger uses_tainted(t, settings(t, n, src)[k].1, src, rule, s)]
            names.subset_of(s) ==> uses_tainted(t, settings(t, n, src)[k].1, src, rule, s),
    ensures
        tainted_in(t, b, src, rule, origins).contains(settings(t, n, src)[k].0),
{
    lemma_c_kinds();
    let x = settings(t, n, src)[k].0;
    let start = origin_names(origins);
    let first = spread(t, b, t.after(b), src, rule, start);
    assert forall|y: Text| names.contains(y) implies start.contains(y) by {
        let j = choose|j: int| #![trigger origins[j]] 0 <= j < origins.len() && origins[j].name == y;
        lemma_origin_names(origins, j);
    }
    assert forall|s: Set<Text>| #![trigger spread_at(t, n, src, rule, s)] names.subset_of(
        s,
    ) implies spread_at(t, n, src, rule, s).contains(x) by {
        assert(tainted_buffer(t, n, src, rule.sanitizers, s) is None);
        lemma_spread_set_taints(t, settings(t, n, src), 0, k, src, rule, names, s);
    }
    lemma_spread_taints(t, b, t.after(b), n, src, rule, names, start, x);
    lemma_spread_grows(t, b, t.after(b), src, rule, first);
}

/// An assignment to a variable sets that variable to its right side.
pub proof fn an_assignment_sets_its_variable(t: &SyntaxTree, n: int, left: int, right: int, src: Text)
    requires
        t.kind(n) == "assignment_expression"@,
        t.field(n, "left"@) == Some(left),
        t.field(n, "right"@) == Some(right),
        t.kind(left) == "identifier"@,
    ensures
        settings(t, n, src) == seq![(t.text(left, src), right)],
{
    lemma_c_kinds();
}

proof fn lemma_initializer(t: &SyntaxTree, n: int, c: int, d: int, name: int, value: int, src: Text)
    requires
        t.wf(),
        is_child(t, n, d),
        n < c <= d,
        t.kind(d) == "init_declarator"@,
        t.field(d, "declarator"@) == Some(name),
        t.field(d, "value"@) == Some(value),
        0 <= name < t.len(),
        t.kind(name) == "identifier"@,
    ensures
        initializers(t, c, t.after(n), src).contains((t.text(name, src), value)),
    decreases gap(c, t.after(n)),
{
    a_child_comes_after_its_elders(t, n, c, d);
    let all = initializers(t, c, t.after(n), src);
    let rest = initializers(t, t.after(c), t.after(n), src);
    let x = (t.text(name, src), value);
    if c == d {
        assert(all[0] == x);
    } else {
        lemma_initializer(t, n, t.after(c), d, name, value, src);
        let k = choose|k: int| 0 <= k < rest.len() && rest[k] == x;
        assert(all[k + (all.len() - rest.len())] == x);
    }
}

/// A declaration sets each variable that it initializes.
pub proof fn a_declaration_sets_its_variables(
    t: &SyntaxTree,
    n: int,
    d: int,
    name: int,
    value: int,
    src: Text,
)
    requires
        t.wf(),
        t.kind(n) == "declaration"@,
        is_child(t, n, d),
        t.kind(d) == "init_declarator"@,
        t.field(d, "declarator"@) == Some(name),
        t.field(d, "value"@) == Some(value),
        0 <= name < t.len(),
        t.kind(name) == "identifier"@,
    ensures
        settings(t, n, src).contains((t.text(name, src), value)),
{
    lemma_c_kinds();
    a_child_comes_after_its_elders(t, n, n, d);
    lemma_initializer(t, n, n + 1, d, name, value, src);
}

// ─── Arguments and origins ───────────────────────────────────────────────────
/// Whether the argument at node `a` is the variable `x`, its address or a cast of it.
pub open spec fn is_variable(t: &SyntaxTree, a: int, x: Text, src: Text) -> bool {
    ||| t.kind(a) == "identifier"@ && t.text(a, src) == x
    ||| (t.kind(a) == "pointer_expression"@ || t.kind(a) == "cast_expression"@)
        && first_identifier(t, a, t.after(a), src) == Some(x)
}

proof fn lemma_argument_names(t: &SyntaxTree, c: int, e: int, src: Text)
    requires
        forall|a: int|
            #![trigger t.kind(a)]
            c <= a < e && (t.kind(a) == "pointer_expression"@ || t.kind(a) == "cast_expression"@)
                ==> first_identifier(t, a, t.after(a), src) is Some,
    ensures
        argument_names(t, c, e, src).len() == t.named_siblings(c, e).len(),
        forall|k: int, x: Text|
            #![trigger is_variable(t, t.named_siblings(c, e)[k], x, src)]
            0 <= k < t.named_siblings(c, e).len() && is_variable(
                t,
                t.named_siblings(c, e)[k],
                x,
                src,
            ) ==> argument_names(t, c, e, src)[k] == x,
    decreases gap(c, e),
{
    if c < e {
        lemma_c_kinds();
        lemma_argument_names(t, t.after(c), e, src);
        let rest = t.named_siblings(t.after(c), e);
        let named = t.named_siblings(c, e);
        let names = argument_names(t, t.after(c), e, src);
        let all = argument_names(t, c, e, src);
        assert forall|k: int, x: Text|
            #![trigger is_variable(t, named[k], x, src)]
            0 <= k < named.len() && is_variable(t, named[k], x, src) implies all[k] == x by {
            if t.named(c) {
                if k > 0 {
                    assert(named[k] == rest[k - 1]);
                    assert(all[k] == names[k - 1]);
                    assert(is_variable(t, rest[k - 1], x, src));
                }
            }
        }
    }
}

/// Whether the argument at position `k` of a call of `callee` is filled with untrusted data:
/// the first of `fgets` and `fread`, the second of `read` and its kin, all behind the format
/// of `scanf` and `fscanf`.
pub open spec fn is_filled(callee: Text, k: int) -> bool {
    ||| (callee == "fgets"@ || callee == "fread"@) && k == 0
    ||| (callee == "read"@ || callee == "recv"@ || callee == "recvfrom"@ || callee == "recvmsg"@) && k
        == 1
    ||| callee == "scanf"@ && k >= 1
    ||| callee == "fscanf"@ && k >= 2
}

proof fn lemma_origins_of(names: Seq<Text>, from: int, description: Text, line: int, x: Text)
    requires
        0 <= from,
    ensures
        (exists|k: int| #![trigger names[k]] from <= k < names.len() && names[k] == x)
            ==> exists|j: int|
            #![trigger origins_of(names, from, description, line)[j]]
            0 <= j < origins_of(names, from, description, line).len() && origins_of(
                names,
                from,
                description,
                line,
            )[j].name == x,
    decreases names.len() - from,
{
    if from < names.len() {
        lemma_origins_of(names, from + 1, description, line, x);
        let all = origins_of(names, from, description, line);
        let rest = origins_of(names, from + 1, description, line);
        if names[from] == x {
            assert(all[0].name == x);
        } else if exists|k: int| #![trigger names[k]] from <= k < names.len() && names[k] == x {
            let j = choose|j: int| #![trigger rest[j]] 0 <= j < rest.len() && rest[j].name == x;
            assert(all[j + 1] == rest[j]);
        }
    }
}

/// A call that reads untrusted data taints the variables that it fills, by their position
/// among the arguments.
pub proof fn a_reading_call_taints_what_it_fills(
    t: &SyntaxTree,
    i: int,
    callee: Text,
    args: int,
    k: int,
    x: Text,
    src: Text,
    sources: Seq<Matcher>,
)
    requires
        is_call_of(t, i, callee, args, src),
        is_filled(callee, k),
        0 <= k < t.named_children(args).len(),
        is_variable(t, t.named_children(args)[k], x, src),
        forall|a: int|
            #![trigger t.kind(a)]
            args < a < t.after(args) && (t.kind(a) == "pointer_expression"@ || t.kind(a)
                == "cast_expression"@) ==> first_identifier(t, a, t.after(a), src) is Some,
    ensures
        exists|j: int|
            #![trigger origins_at(sources, t, i, src)[j]]
            0 <= j < origins_at(sources, t, i, src).len() && origins_at(sources, t, i, src)[j].name
                == x,
{
    lemma_reader_names();
    lemma_argument_names(t, args + 1, t.after(args), src);
    let names = argument_names(t, args + 1, t.after(args), src);
    assert(names[k] == x);
    let into = filled(callee, names);
    if callee == "fgets"@ || callee == "fread"@ {
        assert(into[0] == x);
    } else if callee == "scanf"@ {
        assert(into[k - 1] == x);
    } else if callee == "fscanf"@ {
        assert(into[k - 2] == x);
    } else {
        assert(into[0] == x);
    }
    let description = crate::c_taint::fill_description(sources, callee);
    lemma_origins_of(into, 0, description, t.line(i), x);
    assert(origins_at(sources, t, i, src) == origins_of(into, 0, description, t.line(i)));
    let made = origins_of(into, 0, description, t.line(i));
    let j = choose|j: int| #![trigger made[j]] 0 <= j < made.len() && made[j].name == x;
    assert(origins_at(sources, t, i, src)[j].name == x);
}

proof fn lemma_set_origins(
    sources: Seq<Matcher>,
    t: &SyntaxTree,
    set: Seq<(Text, int)>,
    from: int,
    k: int,
    line: int,
    src: Text,
)
    requires
        0 <= from <= k < set.len(),
        crate::c_taint::source_at(sources, t, set[k].1, src) is Some,
    ensures
        exists|j: int|
            #![trigger set_origins(sources, t, set, from, line, src)[j]]
            0 <= j < set_origins(sources, t, set, from, line, src).len() && set_origins(
                sources,
                t,
                set,
                from,
                line,
                src,
            )[j].name == set[k].0,
    decreases set.len() - from,
{
    let all = set_origins(sources, t, set, from, line, src);
    let rest = set_origins(sources, t, set, from + 1, line, src);
    if from == k {
        assert(all[0].name == set[k].0);
    } else {
        lemma_set_origins(sources, t, set, from + 1, k, line, src);
        let j = choose|j: int| #![trigger rest[j]] 0 <= j < rest.len() && rest[j].name == set[k].0;
        assert(all[j + (all.len() - rest.len())] == rest[j]);
    }
}

/// A variable that is set to a call of a source is filled with untrusted data.
pub proof fn a_variable_that_is_set_to_a_source_is_an_origin(
    t: &SyntaxTree,
    n: int,
    k: int,
    callee: Text,
    args: int,
    src: Text,
    sources: Seq<Matcher>,
)
    requires
        t.kind(n) == "declaration"@ || t.kind(n) == "assignment_expression"@,
        0 <= k < settings(t, n, src).len(),
        is_call_of(t, settings(t, n, src)[k].1, callee, args, src),
        lists(sources, callee),
    ensures
        exists|j: int|
            #![trigger origins_at(sources, t, n, src)[j]]
            0 <= j < origins_at(sources, t, n, src).len() && origins_at(sources, t, n, src)[j].name
                == settings(t, n, src)[k].0,
{
    lemma_c_kinds();
    lemma_listed(sources, 0, callee);
    let set = settings(t, n, src);
    lemma_set_origins(sources, t, set, 0, k, t.line(n), src);
    let made = set_origins(sources, t, set, 0, t.line(n), src);
    assert(origins_at(sources, t, n, src) == made);
    let j = choose|j: int| #![trigger made[j]] 0 <= j < made.len() && made[j].name == set[k].0;
    assert(origins_at(sources, t, n, src)[j].name == set[k].0);
}

proof fn lemma_origins_among(
    sources: Seq<Matcher>,
    t: &SyntaxTree,
    c: int,
    e: int,
    n: int,
    src: Text,
    x: Text,
)
    requires
        c <= n < e,
        exists|j: int|
            #![trigger origins_at(sources, t, n, src)[j]]
            0 <= j < origins_at(sources, t, n, src).len() && origins_at(sources, t, n, src)[j].name
                == x,
    ensures
        exists|j: int|
            #![trigger origins_among(sources, t, c, e, src)[j]]
            0 <= j < origins_among(sources, t, c, e, src).len() && origins_among(
                sources,
                t,
                c,
                e,
                src,
            )[j].name == x,
    decreases gap(c, e),
{
    let here = origins_at(sources, t, c, src);
    let rest = origins_among(sources, t, c + 1, e, src);
    let all = origins_among(sources, t, c, e, src);
    if c == n {
        let j = choose|j: int| #![trigger here[j]] 0 <= j < here.len() && here[j].name == x;
        assert(all[j] == here[j]);
    } else {
        lemma_origins_among(sources, t, c + 1, e, n, src, x);
        let j = choose|j: int| #![trigger rest[j]] 0 <= j < rest.len() && rest[j].name == x;
        assert(all[here.len() + j] == rest[j]);
    }
}

/// Whatever a node of a function fills with untrusted data is tainted in the function.
pub proof fn what_a_function_reads_is_tainted_in_it(
    t: &SyntaxTree,
    f: int,
    b: int,
    n: int,
    src: Text,
    rule: TaintRule,
    x: Text,
)
    requires
        t.field(f, "body"@) == Some(b),
        b <= n < t.after(b),
        exists|j: int|
            #![trigger origins_at(rule.sources, t, n, src)[j]]
            0 <= j < origins_at(rule.sources, t, n, src).len() && origins_at(
                rule.sources,
                t,
                n,
                src,
            )[j].name == x,
    ensures
        function_origins(t, f, src, rule.sources).len() > 0,
        tainted_in(t, b, src, rule, function_origins(t, f, src, rule.sources)).contains(x),
{
    let among = origins_among(rule.sources, t, b, t.after(b), src);
    let origins = function_origins(t, f, src, rule.sources);
    lemma_origins_among(rule.sources, t, b, t.after(b), n, src, x);
    let j = choose|j: int| #![trigger among[j]] 0 <= j < among.len() && among[j].name == x;
    assert(origins[j] == among[j]);
    crate::c_laws::origins_stay_tainted(t, b, src, rule, origins, j);
}

proof fn lemma_param_listed(sources: Seq<Matcher>, from: int, k: int, x: Text)
    requires
        0 <= from <= k < sources.len(),
        sources[k] matches Matcher::ParamName { names, .. } && names.contains(x),
    ensures
        param_source(sources, from, x) is Some,
    decreases sources.len() - from,
{
    if from < k {
        lemma_param_listed(sources, from + 1, k, x);
    }
}

proof fn lemma_param_origin(
    sources: Seq<Matcher>,
    t: &SyntaxTree,
    p: int,
    c: int,
    d: int,
    name: int,
    src: Text,
)
    requires
        t.wf(),
        is_child(t, p, d),
        p < c <= d,
        t.kind(d) == "parameter_declaration"@,
        t.field(d, "declarator"@) == Some(name),
        0 <= name < t.len(),
        t.kind(name) == "identifier"@,
        param_source(sources, 0, t.text(name, src)) is Some,
    ensures
        exists|j: int|
            #![trigger param_origins(sources, t, c, t.after(p), src)[j]]
            0 <= j < param_origins(sources, t, c, t.after(p), src).len() && param_origins(
                sources,
                t,
                c,
                t.after(p),
                src,
            )[j].name == t.text(name, src),
    decreases gap(c, t.after(p)),
{
    a_child_comes_after_its_elders(t, p, c, d);
    let all = param_origins(sources, t, c, t.after(p), src);
    let rest = param_origins(sources, t, t.after(c), t.after(p), src);
    if c == d {
        assert(all[0].name == t.text(name, src));
    } else {
        lemma_param_origin(sources, t, p, t.after(c), d, name, src);
        let j = choose|j: int|
            #![trigger rest[j]]
            0 <= j < rest.len() && rest[j].name == t.text(name, src);
        assert(all[j + (all.len() - rest.len())] == rest[j]);
    }
}

/// A parameter that a source names is tainted in its function.
pub proof fn a_listed_parameter_is_tainted(
    t: &SyntaxTree,
    f: int,
    b: int,
    declarator: int,
    p: int,
    d: int,
    name: int,
    k: int,
    src: Text,
    rule: TaintRule,
)
    requires
        t.wf(),
        t.field(f, "body"@) == Some(b),
        t.field(f, "declarator"@) == Some(declarator),
        t.field(declarator, "parameters"@) == Some(p),
        is_child(t, p, d),
        t.kind(d) == "parameter_declaration"@,
        t.field(d, "declarator"@) == Some(name),
        0 <= name < t.len(),
        t.kind(name) == "identifier"@,
        0 <= k < rule.sources.len(),
        rule.sources[k] matches Matcher::ParamName { names, .. } && names.contains(
            t.text(name, src),
        ),
    ensures
        tainted_in(t, b, src, rule, function_origins(t, f, src, rule.sources)).contains(
            t.text(name, src),
        ),
{
    let x = t.text(name, src);
    let origins = function_origins(t, f, src, rule.sources);
    let among = origins_among(rule.sources, t, b, t.after(b), src);
    let params = function_param_origins(rule.sources, t, f, src);
    lemma_param_listed(rule.sources, 0, k, x);
    a_child_comes_after_its_elders(t, p, p, d);
    lemma_param_origin(rule.sources, t, p, p + 1, d, name, src);
    let j = choose|j: int| #![trigger params[j]] 0 <= j < params.len() && params[j].name == x;
    assert(origins[among.len() + j] == params[j]);
    crate::c_laws::origins_stay_tainted(t, b, src, rule, origins, among.len() + j);
}

/// A copy, or a print into a buffer by a literal format, taints the variable that it writes
/// into where another argument is a tainted variable, unless the function is a sanitizer.
pub proof fn a_tainted_copy_taints_the_buffer(
    t: &SyntaxTree,
    i: int,
    callee: Text,
    args: int,
    x: Text,
    k: int,
    y: Text,
    src: Text,
    rule: TaintRule,
    tainted: Set<Text>,
)
    requires
        is_call_of(t, i, callee, args, src),
        !lists(rule.sanitizers, callee),
        callee == "strcpy"@ || callee == "strncpy"@ || callee == "strcat"@ || callee == "strncat"@
            || callee == "strlcpy"@ || callee == "strlcat"@ || callee == "memcpy"@ || callee
            == "memmove"@ || callee == "sprintf"@ && t.named_children(args).len() > 1 && t.kind(
            t.named_children(args)[1],
        ) == "string_literal"@ || callee == "snprintf"@ && t.named_children(args).len() > 2
            && t.kind(t.named_children(args)[2]) == "string_literal"@,
        0 < k < t.named_children(args).len(),
        is_variable(t, t.named_children(args)[0], x, src),
        is_variable(t, t.named_children(args)[k], y, src),
        x.len() > 0,
        y.len() > 0,
        tainted.contains(y),
        forall|a: int|
            #![trigger t.kind(a)]
            args < a < t.after(args) && (t.kind(a) == "pointer_expression"@ || t.kind(a)
                == "cast_expression"@) ==> first_identifier(t, a, t.after(a), src) is Some,
    ensures
        spread_at(t, i, src, rule, tainted).contains(x),
        tainted.subset_of(spread_at(t, i, src, rule, tainted)),
{
    lemma_copier_names();
    lemma_listed(rule.sanitizers, 0, callee);
    lemma_argument_names(t, args + 1, t.after(args), src);
    let names = argument_names(t, args + 1, t.after(args), src);
    assert(names[0] == x && names[k] == y);
    assert(some_name_tainted(names, 1, tainted));
    assert(tainted_buffer(t, i, src, rule.sanitizers, tainted) == Some(x));
}

proof fn lemma_origin_is_filled(
    names: Seq<Text>,
    from: int,
    description: Text,
    line: int,
    j: int,
)
    requires
        0 <= from,
        0 <= j < origins_of(names, from, description, line).len(),
    ensures
        from + j < names.len(),
        origins_of(names, from, description, line)[j].name == names[from + j],
    decreases names.len() - from,
{
    if j > 0 {
        lemma_origin_is_filled(names, from + 1, description, line, j - 1);
    }
}

/// A call taints none of its arguments but those that it fills with untrusted data.
pub proof fn a_call_taints_nothing_else(
    t: &SyntaxTree,
    i: int,
    callee: Text,
    args: int,
    j: int,
    src: Text,
    sources: Seq<Matcher>,
)
    requires
        is_call_of(t, i, callee, args, src),
        0 <= j < origins_at(sources, t, i, src).len(),
    ensures
        exists|k: int|
            #![trigger argument_names(t, args + 1, t.after(args), src)[k]]
            0 <= k < argument_names(t, args + 1, t.after(args), src).len() && is_filled(callee, k)
                && origins_at(sources, t, i, src)[j].name == argument_names(
                t,
                args + 1,
                t.after(args),
                src,
            )[k],
{
    lemma_reader_names();
    let names = argument_names(t, args + 1, t.after(args), src);
    let into = filled(callee, names);
    lemma_origin_is_filled(
        into,
        0,
        crate::c_taint::fill_description(sources, callee),
        t.line(i),
        j,
    );
    if callee == "scanf"@ {
        assert(into[j] == names[j + 1]);
    } else if callee == "fscanf"@ {
        assert(into[j] == names[j + 2]);
    } else if callee == "fgets"@ || callee == "fread"@ {
        assert(into[j] == names[j]);
    } else {
        assert(into[j] == names[1]);
    }
}

/// Whether node `n` sets the variable `x` to an expression that is tainted wherever the
/// variables of `names` are.
pub open spec fn is_set_by(
    t: &SyntaxTree,
    n: int,
    k: int,
    src: Text,
    rule: TaintRule,
    names: Set<Text>,
    x: Text,
) -> bool {
    &&& t.kind(n) == "declaration"@ || t.kind(n) == "assignment_expression"@
    &&& 0 <= k < settings(t, n, src).len()
    &&& settings(t, n, src)[k].0 == x
    &&& forall|s: Set<Text>|
        #![trigger uses_tainted(t, settings(t, n, src)[k].1, src, rule, s)]
        names.subset_of(s) ==> uses_tainted(t, settings(t, n, src)[k].1, src, rule, s)
}

proof fn lemma_pass_taints(
    t: &SyntaxTree,
    b: int,
    n: int,
    k: int,
    src: Text,
    rule: TaintRule,
    names: Set<Text>,
    tainted: Set<Text>,
    x: Text,
)
    requires
        b <= n < t.after(b),
        is_set_by(t, n, k, src, rule, names, x),
        names.subset_of(tainted),
    ensures
        spread(t, b, t.after(b), src, rule, tainted).contains(x),
{
    lemma_c_kinds();
    assert forall|s: Set<Text>| #![trigger spread_at(t, n, src, rule, s)] names.subset_of(
        s,
    ) implies spread_at(t, n, src, rule, s).contains(x) by {
        assert(tainted_buffer(t, n, src, rule.sanitizers, s) is None);
        lemma_spread_set_taints(t, settings(t, n, src), 0, k, src, rule, names, s);
    }
    lemma_spread_taints(t, b, t.after(b), n, src, rule, names, tainted, x);
}

/// Taint goes on over two assignments, in whatever order they stand in the function.
pub proof fn taint_goes_on_in_any_order(
    t: &SyntaxTree,
    b: int,
    first: int,
    j: int,
    second: int,
    k: int,
    src: Text,
    rule: TaintRule,
    origins: Seq<Origin>,
    o: int,
    x: Text,
    y: Text,
)
    requires
        b <= first < t.after(b),
        b <= second < t.after(b),
        0 <= o < origins.len(),
        is_set_by(t, first, j, src, rule, Set::empty().insert(origins[o].name), x),
        is_set_by(t, second, k, src, rule, Set::empty().insert(x), y),
    ensures
        tainted_in(t, b, src, rule, origins).contains(y),
{
    let start = origin_names(origins);
    let once = spread(t, b, t.after(b), src, rule, start);
    lemma_origin_names(origins, o);
    lemma_pass_taints(
        t,
        b,
        first,
        j,
        src,
        rule,
        Set::empty().insert(origins[o].name),
        start,
        x,
    );
    lemma_pass_taints(t, b, second, k, src, rule, Set::empty().insert(x), once, y);
}

} // verus!
