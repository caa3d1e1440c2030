//! What the shell taint analysis finds: which values are tainted, what taints a variable, and
//! which commands are reported.
use crate::bash_taint::{
    argument_among, assigned_value, bash_state_after, command_flow, command_of, commands_among,
    expanded, expanded_among, expanded_in, flows_among, function_flows, functions_flows,
    is_sanitized, names_tainted, params_tainted, script_flows, some_call_named, tainted_value,
    unquoted, value_among, value_of, variable_among, words_tainted,
};
use crate::c_flow_laws::lists;
use crate::java_flow_laws::some_flow_into;
use crate::taint_engine::{call_named, Flow, Info, Matcher, TaintRule};
use crate::text::Text;
use crate::tree::{gap, SyntaxTree};
use crate::tree_laws::{
    a_child_comes_after_its_elders, a_child_lies_within_its_parent, children_name_their_parent,
    is_child,
};
use vstd::prelude::*;

verus! {

broadcast use crate::tree::group_tree;

/// The kinds of nodes of a script that the analysis tells apart differ in length or in a letter.
pub(crate) proof fn lemma_bash_kinds()
    ensures
        "variable_assignment"@.len() == 19,
        "command"@.len() == 7,
        "command_substitution"@.len() == 20,
        "concatenation"@.len() == 13,
        "string"@.len() == 6,
        "simple_expansion"@.len() == 16,
        "expansion"@.len() == 9,
        "function_definition"@.len() == 19,
        "variable_assignment"@ != "function_definition"@,
{
    reveal_strlit("variable_assignment");
    reveal_strlit("command");
    reveal_strlit("command_substitution");
    reveal_strlit("concatenation");
    reveal_strlit("string");
    reveal_strlit("simple_expansion");
    reveal_strlit("expansion");
    reveal_strlit("function_definition");
    assert("variable_assignment"@[0] != "function_definition"@[0]);
}

/// Whether node `m` expands the variable `x`, which is named at node `v`.
pub open spec fn expands(t: &SyntaxTree, m: int, v: int, x: Text, src: Text) -> bool {
    &&& t.kind(m) == "simple_expansion"@ || t.kind(m) == "expansion"@
    &&& is_child(t, m, v)
    &&& t.kind(v) == "variable_name"@ || t.kind(v) == "special_variable_name"@
    &&& t.text(v, src) == x
    &&& forall|c: int|
        #![trigger t.kind(c)]
        m < c < v ==> t.kind(c) != "variable_name"@ && t.kind(c) != "special_variable_name"@
}

/// Whether node `i` is a command with the name `name`.
pub open spec fn runs(t: &SyntaxTree, i: int, name: Text, src: Text) -> bool {
    t.kind(i) == "command"@ && (t.field(i, "name"@) matches Some(k) && (if t.kind(k)
        == "command_name"@ && t.named_children(k).len() > 0 {
        t.text(t.named_children(k)[0], src) == name
    } else {
        t.text(k, src) == name
    }))
}

proof fn lemma_listed(ms: Seq<Matcher>, from: int, name: Text)
    requires
        0 <= from,
    ensures
        call_named(ms, from, name) is Some <==> exists|k: int|
            #![trigger ms[k]]
            from <= k < ms.len() && (ms[k] matches Matcher::Call { canonical, .. } && canonical
                == name),
    decreases ms.len() - from,
{
    if from < ms.len() {
        lemma_listed(ms, from + 1, name);
        assert(ms[from] == ms[from]);
    }
}

// ─── Values ──────────────────────────────────────────────────────────────────
proof fn lemma_variable(t: &SyntaxTree, m: int, c: int, v: int, x: Text, src: Text)
    requires
        t.wf(),
        expands(t, m, v, x, src),
        m < c <= v,
    ensures
        variable_among(t, c, t.after(m), src) == Some(x),
    decreases gap(c, t.after(m)),
{
    a_child_comes_after_its_elders(t, m, c, v);
    if c < v {
        lemma_variable(t, m, t.after(c), v, x, src);
    }
}

proof fn lemma_expanded(
    t: &SyntaxTree,
    c: int,
    e: int,
    m: int,
    v: int,
    x: Text,
    src: Text,
    st: Map<Text, Info>,
)
    requires
        t.wf(),
        c <= m < e,
        expands(t, m, v, x, src),
        st.contains_key(x),
    ensures
        expanded_among(t, c, e, src, st) is Some,
    decreases gap(c, e),
{
    if c < m {
        lemma_expanded(t, c + 1, e, m, v, x, src, st);
    } else {
        a_child_comes_after_its_elders(t, m, m, v);
        lemma_variable(t, m, m + 1, v, x, src);
        assert(expanded(t, m, src, st) == Some(st[x]));
    }
}

/// A tainted variable is found in a node wherever in it the variable is expanded, however
/// deep.
pub proof fn an_expansion_is_found_anywhere(
    t: &SyntaxTree,
    i: int,
    m: int,
    v: int,
    x: Text,
    src: Text,
    st: Map<Text, Info>,
)
    requires
        t.wf(),
        i <= m < t.after(i),
        expands(t, m, v, x, src),
        st.contains_key(x),
    ensures
        expanded_in(t, i, src, st) is Some,
{
    lemma_expanded(t, i, t.after(i), m, v, x, src, st);
}

/// A value is tainted where a tainted variable is expanded in it, unless it is a
/// concatenation: of that, each part is a value of its own.
pub proof fn an_expansion_taints_the_value(
    t: &SyntaxTree,
    i: int,
    m: int,
    v: int,
    x: Text,
    src: Text,
    sources: Seq<Matcher>,
    st: Map<Text, Info>,
)
    requires
        t.wf(),
        0 <= i < t.len(),
        i <= m < t.after(i),
        t.kind(i) != "concatenation"@,
        expands(t, m, v, x, src),
        st.contains_key(x),
    ensures
        value_of(t, i, src, sources, st) is Some,
{
    an_expansion_is_found_anywhere(t, i, m, v, x, src, st);
}

proof fn lemma_value_among(
    t: &SyntaxTree,
    i: int,
    c: int,
    k: int,
    src: Text,
    sources: Seq<Matcher>,
    st: Map<Text, Info>,
)
    requires
        t.wf(),
        is_child(t, i, k),
        i < c <= k,
        value_of(t, k, src, sources, st) is Some,
    ensures
        value_among(t, c, t.after(i), src, sources, st) is Some,
    decreases gap(c, t.after(i)),
{
    a_child_comes_after_its_elders(t, i, c, k);
    if c < k {
        lemma_value_among(t, i, t.after(c), k, src, sources, st);
    }
}

/// A value that is no substitution is tainted where any part of it is.
pub proof fn a_tainted_part_taints_the_value(
    t: &SyntaxTree,
    i: int,
    k: int,
    src: Text,
    sources: Seq<Matcher>,
    st: Map<Text, Info>,
)
    requires
        t.wf(),
        0 <= i < t.len(),
        t.kind(i) != "command_substitution"@,
        is_child(t, i, k),
        value_of(t, k, src, sources, st) is Some,
    ensures
        value_of(t, i, src, sources, st) is Some,
{
    a_child_comes_after_its_elders(t, i, i, k);
    lemma_value_among(t, i, i + 1, k, src, sources, st);
}

proof fn lemma_commands(t: &SyntaxTree, c: int, e: int, m: int, name: Text, src: Text)
    requires
        c <= m < e,
        runs(t, m, name, src),
    ensures
        commands_among(t, c, e, src).contains(name),
    decreases gap(c, e),
{
    let all = commands_among(t, c, e, src);
    let rest = commands_among(t, c + 1, e, src);
    if c == m {
        assert(all[0] == name);
    } else {
        lemma_commands(t, c + 1, e, m, name, src);
        let j = choose|j: int| 0 <= j < rest.len() && rest[j] == name;
        assert(all[j + (all.len() - rest.len())] == name);
    }
}

proof fn lemma_command_back(t: &SyntaxTree, c: int, e: int, name: Text, src: Text) -> (m: int)
    requires
        commands_among(t, c, e, src).contains(name),
    ensures
        c <= m < e,
        runs(t, m, name, src),
    decreases gap(c, e),
{
    let all = commands_among(t, c, e, src);
    let rest = commands_among(t, c + 1, e, src);
    let j = choose|j: int| 0 <= j < all.len() && all[j] == name;
    if c < e && all.len() > rest.len() && j == 0 {
        c
    } else {
        assert(rest[j - (all.len() - rest.len())] == name);
        lemma_command_back(t, c + 1, e, name, src)
    }
}

proof fn lemma_some_named(ms: Seq<Matcher>, from: int, k: int, names: Seq<Text>)
    requires
        0 <= from <= k < ms.len(),
        ms[k] matches Matcher::Call { canonical, .. } && names.contains(canonical),
    ensures
        some_call_named(ms, from, names) is Some,
    decreases ms.len() - from,
{
    if from < k {
        lemma_some_named(ms, from + 1, k, names);
    }
}

proof fn lemma_none_named(ms: Seq<Matcher>, from: int, names: Seq<Text>)
    requires
        0 <= from,
        forall|x: Text| #![trigger names.contains(x)] names.contains(x) ==> !lists(ms, x),
    ensures
        some_call_named(ms, from, names) is None,
    decreases ms.len() - from,
{
    if from < ms.len() {
        if let Matcher::Call { canonical, .. } = ms[from] {
            assert(lists(ms, canonical));
        }
        lemma_none_named(ms, from + 1, names);
    }
}

/// A command substitution is tainted at its own line where any command in it, at any stage of
/// a pipeline, is listed as a source.
pub proof fn a_listed_command_taints_its_substitution(
    t: &SyntaxTree,
    i: int,
    m: int,
    k: int,
    name: Text,
    src: Text,
    sources: Seq<Matcher>,
    st: Map<Text, Info>,
)
    requires
        0 <= i < t.len(),
        t.kind(i) == "command_substitution"@,
        i <= m < t.after(i),
        runs(t, m, name, src),
        0 <= k < sources.len(),
        sources[k] matches Matcher::Call { canonical, .. } && canonical == name,
    ensures
        value_of(t, i, src, sources, st) matches Some(info) && info.line == t.line(i),
{
    lemma_commands(t, i, t.after(i), m, name, src);
    lemma_some_named(sources, 0, k, commands_among(t, i, t.after(i), src));
}

// ─── Variables ───────────────────────────────────────────────────────────────
/// Whether no command in node `v` is listed as a sanitizer.
pub open spec fn is_unsanitized(t: &SyntaxTree, v: int, src: Text, sanitizers: Seq<Matcher>) -> bool {
    forall|m: int, name: Text|
        #![trigger runs(t, m, name, src)]
        v <= m < t.after(v) && runs(t, m, name, src) ==> !lists(sanitizers, name)
}

proof fn lemma_unsanitized(t: &SyntaxTree, v: int, src: Text, sanitizers: Seq<Matcher>)
    requires
        t.wf(),
        0 <= v < t.len(),
        is_unsanitized(t, v, src, sanitizers),
    ensures
        !is_sanitized(t, v, src, sanitizers),
{
    let k = unquoted(t, v);
    if k != v {
        assert(t.named_children(v).contains(k));
        children_name_their_parent(t, v, k);
        a_child_comes_after_its_elders(t, v, v, k);
        a_child_lies_within_its_parent(t, v, k);
    }
    let names = commands_among(t, k, t.after(k), src);
    assert forall|x: Text| #![trigger names.contains(x)] names.contains(x) implies !lists(
        sanitizers,
        x,
    ) by {
        let m = lemma_command_back(t, k, t.after(k), x, src);
        assert(runs(t, m, x, src));
    }
    lemma_none_named(sanitizers, 0, names);
}

/// A variable that is set to a tainted value, in which no sanitizer runs, is tainted by the
/// same source.
pub proof fn a_variable_takes_the_taint_of_its_value(
    t: &SyntaxTree,
    i: int,
    name: int,
    value: int,
    src: Text,
    rule: TaintRule,
    st: Map<Text, Info>,
)
    requires
        t.wf(),
        t.kind(i) == "variable_assignment"@,
        t.field(i, "name"@) == Some(name),
        t.kind(name) == "variable_name"@,
        t.field(i, "value"@) == Some(value),
        0 <= value < t.len(),
        is_unsanitized(t, value, src, rule.sanitizers),
        value_of(t, value, src, rule.sources, st) is Some,
    ensures
        bash_state_after(t, i, src, rule, st).contains_key(t.text(name, src)),
        bash_state_after(t, i, src, rule, st)[t.text(name, src)].description == (value_of(
            t,
            value,
            src,
            rule.sources,
            st,
        )->0).description,
{
    lemma_unsanitized(t, value, src, rule.sanitizers);
    assert(assigned_value(t, i, src, rule, st) is Some);
}

/// A variable that is set to a substitution in which a sanitizer runs, in quotes or not, is
/// clean.
pub proof fn a_sanitizing_substitution_cleans(
    t: &SyntaxTree,
    i: int,
    name: int,
    value: int,
    sub: int,
    m: int,
    k: int,
    command: Text,
    src: Text,
    rule: TaintRule,
    st: Map<Text, Info>,
)
    requires
        t.kind(i) == "variable_assignment"@,
        t.field(i, "name"@) == Some(name),
        t.kind(name) == "variable_name"@,
        t.field(i, "value"@) == Some(value),
        value == sub || t.kind(value) == "string"@ && t.named_children(value) == seq![sub],
        t.kind(sub) == "command_substitution"@,
        sub <= m < t.after(sub),
        runs(t, m, command, src),
        0 <= k < rule.sanitizers.len(),
        rule.sanitizers[k] matches Matcher::Call { canonical, .. } && canonical == command,
    ensures
        !bash_state_after(t, i, src, rule, st).contains_key(t.text(name, src)),
{
    lemma_bash_kinds();
    assert(seq![sub][0] == sub);
    assert(unquoted(t, value) == sub);
    lemma_commands(t, sub, t.after(sub), m, command, src);
    lemma_some_named(rule.sanitizers, 0, k, commands_among(t, sub, t.after(sub), src));
    assert(is_sanitized(t, value, src, rule.sanitizers));
    assert(assigned_value(t, i, src, rule, st) is None);
}

proof fn lemma_words_keep(
    t: &SyntaxTree,
    c: int,
    e: int,
    src: Text,
    value: Info,
    st: Map<Text, Info>,
    x: Text,
)
    requires
        st.contains_key(x),
    ensures
        words_tainted(t, c, e, src, value, st).contains_key(x),
    decreases gap(c, e),
{
    if c < e {
        let next = if t.in_field(c, "argument"@) && t.kind(c) == "word"@
            && crate::bash_taint::is_plain(t.text(c, src)) {
            st.insert(t.text(c, src), value)
        } else {
            st
        };
        lemma_words_keep(t, t.after(c), e, src, value, next, x);
    }
}

proof fn lemma_words(
    t: &SyntaxTree,
    i: int,
    c: int,
    w: int,
    src: Text,
    value: Info,
    st: Map<Text, Info>,
)
    requires
        t.wf(),
        is_child(t, i, w),
        i < c <= w,
        t.in_field(w, "argument"@),
        t.kind(w) == "word"@,
        t.text(w, src).len() > 0 ==> t.text(w, src)[0] != '-',
    ensures
        words_tainted(t, c, t.after(i), src, value, st).contains_key(t.text(w, src)),
    decreases gap(c, t.after(i)),
{
    a_child_comes_after_its_elders(t, i, c, w);
    let next = if t.in_field(c, "argument"@) && t.kind(c) == "word"@
        && crate::bash_taint::is_plain(t.text(c, src)) {
        st.insert(t.text(c, src), value)
    } else {
        st
    };
    if c < w {
        lemma_words(t, i, t.after(c), w, src, value, next);
    } else {
        lemma_words_keep(t, t.after(c), t.after(i), src, value, next, t.text(w, src));
    }
}

/// A command that reads its input, where it is listed as a source, taints every variable that
/// its arguments name. A flag is no variable.
pub proof fn a_read_taints_its_variables(
    t: &SyntaxTree,
    i: int,
    w: int,
    name: Text,
    src: Text,
    rule: TaintRule,
    st: Map<Text, Info>,
)
    requires
        t.wf(),
        runs(t, i, name, src),
        name == "read"@ || name == "mapfile"@ || name == "readarray"@,
        lists(rule.sources, name),
        is_child(t, i, w),
        t.in_field(w, "argument"@),
        t.kind(w) == "word"@,
        t.text(w, src).len() > 0 ==> t.text(w, src)[0] != '-',
    ensures
        bash_state_after(t, i, src, rule, st).contains_key(t.text(w, src)),
{
    lemma_bash_kinds();
    lemma_listed(rule.sources, 0, name);
    a_child_comes_after_its_elders(t, i, i, w);
    let d = call_named(rule.sources, 0, name)->0;
    lemma_words(t, i, i + 1, w, src, tainted_value(d, t.line(i)), st);
}

/// Only an assignment cleans a variable, and only the one that it names.
pub proof fn only_an_assignment_cleans_its_variable(
    t: &SyntaxTree,
    i: int,
    x: Text,
    src: Text,
    rule: TaintRule,
    st: Map<Text, Info>,
)
    requires
        st.contains_key(x),
        t.kind(i) != "variable_assignment"@ || t.field_text(i, "name"@, src) != Some(x),
    ensures
        bash_state_after(t, i, src, rule, st).contains_key(x),
{
    if t.kind(i) == "command"@ && t.kind(i) != "variable_assignment"@ {
        if let Some(name) = command_of(t, i, src) {
            if let Some(d) = call_named(rule.sources, 0, name) {
                lemma_words_keep(
                    t,
                    i + 1,
                    t.after(i),
                    src,
                    tainted_value(d, t.line(i)),
                    st,
                    x,
                );
            }
        }
    }
}

// ─── Sinks ───────────────────────────────────────────────────────────────────
proof fn lemma_argument(
    t: &SyntaxTree,
    i: int,
    c: int,
    a: int,
    src: Text,
    st: Map<Text, Info>,
)
    requires
        t.wf(),
        is_child(t, i, a),
        i < c <= a,
        t.in_field(a, "argument"@),
        expanded_in(t, a, src, st) is Some,
    ensures
        argument_among(t, c, t.after(i), src, st) is Some,
    decreases gap(c, t.after(i)),
{
    a_child_comes_after_its_elders(t, i, c, a);
    if c < a {
        lemma_argument(t, i, t.after(c), a, src, st);
    }
}

/// A command that is listed as a sink is reported wherever a tainted variable is expanded in
/// any of its arguments.
pub proof fn a_tainted_argument_of_a_sink_is_reported(
    t: &SyntaxTree,
    i: int,
    a: int,
    m: int,
    v: int,
    x: Text,
    name: Text,
    src: Text,
    sinks: Seq<Matcher>,
    st: Map<Text, Info>,
)
    requires
        t.wf(),
        runs(t, i, name, src),
        lists(sinks, name),
        is_child(t, i, a),
        t.in_field(a, "argument"@),
        a <= m < t.after(a),
        expands(t, m, v, x, src),
        st.contains_key(x),
    ensures
        command_flow(t, i, src, sinks, st) matches Some(flow) && flow.sink_line == t.line(i)
            && flow.sink_start_byte == t.nodes@[i].start_byte && flow.sink_end_byte
            == t.nodes@[i].end_byte,
{
    lemma_listed(sinks, 0, name);
    an_expansion_is_found_anywhere(t, a, m, v, x, src, st);
    a_child_comes_after_its_elders(t, i, i, a);
    lemma_argument(t, i, i + 1, a, src, st);
}

/// A command that is not listed as a sink is not reported.
pub proof fn an_unlisted_command_is_not_reported(
    t: &SyntaxTree,
    i: int,
    name: Text,
    src: Text,
    sinks: Seq<Matcher>,
    st: Map<Text, Info>,
)
    requires
        runs(t, i, name, src),
        !lists(sinks, name),
    ensures
        command_flow(t, i, src, sinks, st) is None,
{
    lemma_listed(sinks, 0, name);
}

/// The state after node `n` is read, where the nodes from `c` on are read from the state `st`
/// on.
pub open spec fn state_behind(
    t: &SyntaxTree,
    c: int,
    n: int,
    skip: bool,
    src: Text,
    rule: TaintRule,
    st: Map<Text, Info>,
) -> Map<Text, Info>
    decreases gap(c, n + 1),
{
    if c > n {
        st
    } else if skip && t.kind(c) == "function_definition"@ {
        state_behind(t, t.after(c), n, skip, src, rule, st)
    } else {
        state_behind(t, c + 1, n, skip, src, rule, bash_state_after(t, c, src, rule, st))
    }
}

proof fn lemma_flow_listed(
    t: &SyntaxTree,
    c: int,
    e: int,
    n: int,
    skip: bool,
    src: Text,
    rule: TaintRule,
    st: Map<Text, Info>,
)
    requires
        c <= n < e,
        t.kind(n) == "command"@,
        skip ==> forall|m: int|
            #![trigger t.kind(m)]
            c <= m <= n && t.kind(m) == "function_definition"@ ==> t.after(m) <= n,
        command_flow(
            t,
            n,
            src,
            rule.sinks,
            state_behind(t, c, n, skip, src, rule, st),
        ) is Some,
    ensures
        flows_among(t, c, e, skip, src, rule, st).contains(
            command_flow(
                t,
                n,
                src,
                rule.sinks,
                state_behind(t, c, n, skip, src, rule, st),
            )->0,
        ),
    decreases gap(c, e),
{
    lemma_bash_kinds();
    let all = flows_among(t, c, e, skip, src, rule, st);
    let flow = command_flow(
        t,
        n,
        src,
        rule.sinks,
        state_behind(t, c, n, skip, src, rule, st),
    )->0;
    if skip && t.kind(c) == "function_definition"@ {
        lemma_flow_listed(t, t.after(c), e, n, skip, src, rule, st);
    } else {
        let next = bash_state_after(t, c, src, rule, st);
        let rest = flows_among(t, c + 1, e, skip, src, rule, next);
        if c == n {
            assert(state_behind(t, c + 1, n, skip, src, rule, next) == next);
            assert(state_behind(t, c, n, skip, src, rule, st) == next);
            assert(all[0] == flow);
        } else {
            lemma_flow_listed(t, c + 1, e, n, skip, src, rule, next);
            let j = choose|j: int| 0 <= j < rest.len() && rest[j] == flow;
            assert(all[j + (all.len() - rest.len())] == flow);
        }
    }
}

/// Every flow that a command outside of functions makes, in the state behind it, is a flow of
/// the script.
pub proof fn a_flow_of_a_command_is_a_flow_of_the_script(
    t: &SyntaxTree,
    root: int,
    n: int,
    src: Text,
    rule: TaintRule,
)
    requires
        root <= n < t.after(root),
        t.kind(n) == "command"@,
        forall|m: int|
            #![trigger t.kind(m)]
            root <= m <= n && t.kind(m) == "function_definition"@ ==> t.after(m) <= n,
        command_flow(
            t,
            n,
            src,
            rule.sinks,
            state_behind(
                t,
                root,
                n,
                true,
                src,
                rule,
                params_tainted(rule.sources, 0, t.line(root), Map::empty()),
            ),
        ) is Some,
    ensures
        script_flows(t, root, src, rule).contains(
            command_flow(
                t,
                n,
                src,
                rule.sinks,
                state_behind(
                    t,
                    root,
                    n,
                    true,
                    src,
                    rule,
                    params_tainted(rule.sources, 0, t.line(root), Map::empty()),
                ),
            )->0,
        ),
{
    let st = params_tainted(rule.sources, 0, t.line(root), Map::empty());
    let flow = command_flow(
        t,
        n,
        src,
        rule.sinks,
        state_behind(t, root, n, true, src, rule, st),
    )->0;
    lemma_flow_listed(t, root, t.after(root), n, true, src, rule, st);
    let here = flows_among(t, root, t.after(root), true, src, rule, st);
    let j = choose|j: int| 0 <= j < here.len() && here[j] == flow;
    assert(script_flows(t, root, src, rule)[j] == flow);
}

proof fn lemma_function_listed(
    t: &SyntaxTree,
    c: int,
    e: int,
    f: int,
    src: Text,
    rule: TaintRule,
    flow: Flow,
)
    requires
        c <= f < e,
        t.kind(f) == "function_definition"@,
        function_flows(t, f, src, rule).contains(flow),
    ensures
        functions_flows(t, c, e, src, rule).contains(flow),
    decreases gap(c, e),
{
    let all = functions_flows(t, c, e, src, rule);
    let rest = functions_flows(t, c + 1, e, src, rule);
    let here = function_flows(t, c, src, rule);
    if c == f {
        let j = choose|j: int| 0 <= j < here.len() && here[j] == flow;
        assert(all[j] == flow);
    } else {
        lemma_function_listed(t, c + 1, e, f, src, rule, flow);
        let j = choose|j: int| 0 <= j < rest.len() && rest[j] == flow;
        if t.kind(c) == "function_definition"@ {
            assert(all[here.len() + j] == flow);
        }
    }
}

/// Every flow that a command of a function makes, in the state behind it, is a flow of the
/// function and of the script. A function begins with its parameters tainted.
pub proof fn a_flow_of_a_function_is_a_flow_of_the_script(
    t: &SyntaxTree,
    root: int,
    f: int,
    b: int,
    n: int,
    src: Text,
    rule: TaintRule,
)
    requires
        root <= f < t.after(root),
        t.kind(f) == "function_definition"@,
        t.field(f, "body"@) == Some(b),
        b <= n < t.after(b),
        t.kind(n) == "command"@,
        command_flow(
            t,
            n,
            src,
            rule.sinks,
            state_behind(
                t,
                b,
                n,
                false,
                src,
                rule,
                params_tainted(rule.sources, 0, t.line(f), Map::empty()),
            ),
        ) is Some,
    ensures
        ({
            let flow = command_flow(
                t,
                n,
                src,
                rule.sinks,
                state_behind(
                    t,
                    b,
                    n,
                    false,
                    src,
                    rule,
                    params_tainted(rule.sources, 0, t.line(f), Map::empty()),
                ),
            )->0;
            &&& function_flows(t, f, src, rule).contains(flow)
            &&& script_flows(t, root, src, rule).contains(flow)
        }),
{
    let st = params_tainted(rule.sources, 0, t.line(f), Map::empty());
    let flow = command_flow(
        t,
        n,
        src,
        rule.sinks,
        state_behind(t, b, n, false, src, rule, st),
    )->0;
    lemma_flow_listed(t, b, t.after(b), n, false, src, rule, st);
    lemma_function_listed(t, root, t.after(root), f, src, rule, flow);
    let all = functions_flows(t, root, t.after(root), src, rule);
    let j = choose|j: int| 0 <= j < all.len() && all[j] == flow;
    let whole = script_flows(t, root, src, rule);
    assert(whole[whole.len() - all.len() + j] == flow);
}

// ─── Parameters ──────────────────────────────────────────────────────────────
proof fn lemma_names(names: Seq<Text>, from: int, value: Info, st: Map<Text, Info>, x: Text)
    requires
        0 <= from,
        st.contains_key(x) || exists|k: int|
            #![trigger names[k]]
            from <= k < names.len() && names[k] == x,
    ensures
        names_tainted(names, from, value, st).contains_key(x),
    decreases names.len() - from,
{
    if from < names.len() {
        lemma_names(names, from + 1, value, st.insert(names[from], value), x);
    }
}

proof fn lemma_params(sources: Seq<Matcher>, from: int, line: int, st: Map<Text, Info>, x: Text)
    requires
        0 <= from,
        st.contains_key(x) || exists|k: int|
            #![trigger sources[k]]
            from <= k < sources.len() && (sources[k] matches Matcher::ParamName { names, .. }
                && names.contains(x)),
    ensures
        params_tainted(sources, from, line, st).contains_key(x),
    decreases sources.len() - from,
{
    if from < sources.len() {
        let next = match sources[from] {
            Matcher::ParamName { names, description } => names_tainted(
                names,
                0,
                tainted_value(description, line),
                st,
            ),
            _ => st,
        };
        if let Matcher::ParamName { names, description } = sources[from] {
            if st.contains_key(x) || names.contains(x) {
                lemma_names(names, 0, tainted_value(description, line), st, x);
            }
        }
        lemma_params(sources, from + 1, line, next, x);
    }
}

/// A parameter that a source names is tainted when a script or a function begins.
pub proof fn a_listed_parameter_is_tainted(sources: Seq<Matcher>, k: int, line: int, x: Text)
    requires
        0 <= k < sources.len(),
        sources[k] matches Matcher::ParamName { names, .. } && names.contains(x),
    ensures
        params_tainted(sources, 0, line, Map::empty()).contains_key(x),
{
    lemma_params(sources, 0, line, Map::empty(), x);
}

proof fn lemma_state_keeps(
    t: &SyntaxTree,
    c: int,
    n: int,
    skip: bool,
    src: Text,
    rule: TaintRule,
    st: Map<Text, Info>,
    x: Text,
)
    requires
        st.contains_key(x),
        forall|m: int|
            #![trigger t.kind(m)]
            c <= m <= n && t.kind(m) == "variable_assignment"@ ==> t.field_text(m, "name"@, src)
                != Some(x),
    ensures
        state_behind(t, c, n, skip, src, rule, st).contains_key(x),
    decreases gap(c, n + 1),
{
    if c <= n {
        if skip && t.kind(c) == "function_definition"@ {
            lemma_state_keeps(t, t.after(c), n, skip, src, rule, st, x);
        } else {
            only_an_assignment_cleans_its_variable(t, c, x, src, rule, st);
            let next = bash_state_after(t, c, src, rule, st);
            lemma_state_keeps(t, c + 1, n, skip, src, rule, next, x);
        }
    }
}

/// A sink of a script whose argument expands a parameter that a source names, and that is not
/// set before, is reported.
pub proof fn a_parameter_in_a_sink_is_reported(
    t: &SyntaxTree,
    root: int,
    n: int,
    a: int,
    m: int,
    v: int,
    x: Text,
    name: Text,
    k: int,
    src: Text,
    rule: TaintRule,
)
    requires
        t.wf(),
        root <= n < t.after(root),
        forall|j: int|
            #![trigger t.kind(j)]
            root <= j <= n && t.kind(j) == "function_definition"@ ==> t.after(j) <= n,
        runs(t, n, name, src),
        lists(rule.sinks, name),
        is_child(t, n, a),
        t.in_field(a, "argument"@),
        a <= m < t.after(a),
        expands(t, m, v, x, src),
        0 <= k < rule.sources.len(),
        rule.sources[k] matches Matcher::ParamName { names, .. } && names.contains(x),
        forall|j: int|
            #![trigger t.kind(j)]
            root <= j <= n && t.kind(j) == "variable_assignment"@ ==> t.field_text(j, "name"@, src)
                != Some(x),
    ensures
        some_flow_into(script_flows(t, root, src, rule), t, n),
{
    let st = params_tainted(rule.sources, 0, t.line(root), Map::empty());
    let behind = state_behind(t, root, n, true, src, rule, st);
    a_listed_parameter_is_tainted(rule.sources, k, t.line(root), x);
    lemma_state_keeps(t, root, n, true, src, rule, st, x);
    a_tainted_argument_of_a_sink_is_reported(
        t,
        n,
        a,
        m,
        v,
        x,
        name,
        src,
        rule.sinks,
        behind,
    );
    a_flow_of_a_command_is_a_flow_of_the_script(t, root, n, src, rule);
    let all = script_flows(t, root, src, rule);
    let flow = command_flow(t, n, src, rule.sinks, behind)->0;
    let j = choose|j: int| 0 <= j < all.len() && all[j] == flow;
    assert(all[j] == flow);
}

} // verus!
