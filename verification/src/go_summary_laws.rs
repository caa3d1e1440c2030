//! What the Go taint analysis knows of imports, declared types, labels and other functions.
use crate::cross_file::SinkFlow;
use crate::go_flow_laws::lemma_go_kinds;
use crate::go_taint::{
    after_declaration, after_declarations, after_import, after_specs, all_param_flows, cross_flows,
    declared_source, first_flow_of, flows_at, format_sink, format_sink_flows, fresh, function_flows,
    function_summary, go_source, has_string_operand, identifiers_from, identifiers_in,
    import_aliases, labels_of, labels_of_named, labels_suffice, labels_within, param_flows,
    param_names, param_names_from, parameter_facts, pointed_to, seed_identifiers, some_call_sink,
    state_after, summaries_in, summary_key, taint_of, typed_source, CrossFacts, Facts,
};
use crate::taint_engine::{Flow, Info, LabelExpr, LabelPolicy, Matcher, TaintRule};
use crate::text::{decimal, digit_char, is_white, skip_two, views, Text};
use crate::text_laws::{quotes_are_taken_off, segments_stand_at_the_ends};
use crate::tree::{gap, SyntaxTree};
use crate::tree_laws::{a_child_comes_after_its_elders, a_child_lies_within_its_parent, is_child};
use vstd::prelude::*;

verus! {

broadcast use crate::tree::group_tree;

// ─── Imports ─────────────────────────────────────────────────────────────────
/// An import of a path makes the last part of the path known under its own name, or under the
/// alias that it is given.
pub proof fn an_import_makes_its_package_known(
    t: &SyntaxTree,
    i: int,
    front: Text,
    name: Text,
    alias: int,
    src: Text,
    aliases: Map<Text, Text>,
)
    requires
        name.len() > 0,
        !name.contains('/'),
        !name.contains('"'),
        !name.contains('`'),
        !front.contains('"'),
        !front.contains('`'),
        t.field_text(i, "path"@, src) == Some(seq!['"'] + (front + seq!['/'] + name) + seq!['"'])
            || t.field_text(i, "path"@, src) == Some(seq!['"'] + name + seq!['"']),
    ensures
        t.field(i, "name"@) is None ==> after_import(t, i, src, aliases) == aliases.insert(
            name,
            name,
        ),
        t.field(i, "name"@) == Some(alias) && t.kind(alias) == "package_identifier"@
            ==> after_import(t, i, src, aliases) == aliases.insert(t.text(alias, src), name),
        t.field(i, "name"@) == Some(alias) && (t.kind(alias) == "dot"@ || t.kind(alias)
            == "blank_identifier"@) ==> after_import(t, i, src, aliases) == aliases,
{
    reveal_strlit("package_identifier");
    reveal_strlit("dot");
    reveal_strlit("blank_identifier");
    assert("package_identifier"@.len() == 18 && "dot"@.len() == 3 && "blank_identifier"@.len()
        == 16);
    let quote = seq!['"'];
    let path = front + seq!['/'] + name;
    segments_stand_at_the_ends(front, name, '/');
    segments_stand_at_the_ends(name, name, '/');
    assert(name.contains(name[0]) && name.contains(name.last()));
    if front.len() > 0 {
        assert(front.contains(front[0]));
    }
    assert(path.last() == name.last());
    quotes_are_taken_off(quote, path, quote, '"', '`');
    quotes_are_taken_off(quote, name, quote, '"', '`');
}

/// Whether the import at node `k` says nothing of the name `x`.
pub open spec fn is_silent_on(t: &SyntaxTree, k: int, x: Text, src: Text) -> bool {
    forall|m: Map<Text, Text>|
        #![trigger after_import(t, k, src, m)]
        known_as(after_import(t, k, src, m), x) == known_as(m, x)
}

/// What a name is known to stand for.
pub open spec fn known_as(aliases: Map<Text, Text>, x: Text) -> Option<Text> {
    if aliases.contains_key(x) {
        Some(aliases[x])
    } else {
        None
    }
}

/// Whether the import at node `s` makes `x` stand for `name`, whatever stood before.
pub open spec fn introduces(t: &SyntaxTree, s: int, x: Text, name: Text, src: Text) -> bool {
    forall|m: Map<Text, Text>|
        #![trigger after_import(t, s, src, m)]
        known_as(after_import(t, s, src, m), x) == Some(name)
}

proof fn lemma_specs(
    t: &SyntaxTree,
    l: int,
    c: int,
    s: int,
    x: Text,
    name: Text,
    src: Text,
    aliases: Map<Text, Text>,
)
    requires
        t.wf(),
        l < c,
        is_child(t, l, s) && c <= s && t.kind(s) == "import_spec"@ && introduces(
            t,
            s,
            x,
            name,
            src,
        ) || c > s && known_as(aliases, x) == Some(name),
        forall|k: int|
            #![trigger t.kind(k)]
            s < k && t.kind(k) == "import_spec"@ ==> is_silent_on(t, k, x, src),
    ensures
        known_as(after_specs(t, c, t.after(l), src, aliases), x) == Some(name),
    decreases gap(c, t.after(l)),
{
    if c <= s {
        a_child_comes_after_its_elders(t, l, c, s);
    }
    if c < t.after(l) {
        let next = if t.kind(c) == "import_spec"@ {
            after_import(t, c, src, aliases)
        } else {
            aliases
        };
        lemma_specs(t, l, t.after(c), s, x, name, src, next);
    }
}

proof fn lemma_declaration(
    t: &SyntaxTree,
    d: int,
    c: int,
    l: int,
    s: int,
    x: Text,
    name: Text,
    src: Text,
    aliases: Map<Text, Text>,
)
    requires
        t.wf(),
        d < c,
        l <= s,
        c <= l && is_child(t, d, l) && t.kind(s) == "import_spec"@ && introduces(
            t,
            s,
            x,
            name,
            src,
        ) && (l == s || t.kind(l) == "import_spec_list"@ && is_child(t, l, s)) || c > s && known_as(
            aliases,
            x,
        ) == Some(name),
        forall|k: int|
            #![trigger t.kind(k)]
            s < k && t.kind(k) == "import_spec"@ ==> is_silent_on(t, k, x, src),
    ensures
        known_as(after_declaration(t, c, t.after(d), src, aliases), x) == Some(name),
    decreases gap(c, t.after(d)),
{
    reveal_strlit("import_spec");
    reveal_strlit("import_spec_list");
    assert("import_spec"@.len() != "import_spec_list"@.len());
    if c <= l {
        a_child_comes_after_its_elders(t, d, c, l);
    }
    if c < t.after(d) {
        let next = if t.kind(c) == "import_spec"@ {
            after_import(t, c, src, aliases)
        } else if t.kind(c) == "import_spec_list"@ {
            after_specs(t, c + 1, t.after(c), src, aliases)
        } else {
            aliases
        };
        if t.kind(c) == "import_spec_list"@ {
            if c == l {
                a_child_comes_after_its_elders(t, l, l, s);
                lemma_specs(t, c, c + 1, s, x, name, src, aliases);
            } else if c > s {
                lemma_specs(t, c, c + 1, s, x, name, src, aliases);
            }
        }
        lemma_declaration(t, d, t.after(c), l, s, x, name, src, next);
    }
}

proof fn lemma_declarations(
    t: &SyntaxTree,
    c: int,
    d: int,
    l: int,
    s: int,
    x: Text,
    name: Text,
    src: Text,
    aliases: Map<Text, Text>,
)
    requires
        t.wf(),
        0 < c,
        d < l <= s,
        c <= d && is_child(t, 0, d) && t.kind(d) == "import_declaration"@ && is_child(t, d, l)
            && t.kind(s) == "import_spec"@ && introduces(t, s, x, name, src) && (l == s || t.kind(l)
            == "import_spec_list"@ && is_child(t, l, s)) || c > s && known_as(aliases, x) == Some(
            name,
        ),
        forall|k: int|
            #![trigger t.kind(k)]
            s < k && t.kind(k) == "import_spec"@ ==> is_silent_on(t, k, x, src),
    ensures
        known_as(after_declarations(t, c, t.after(0), src, aliases), x) == Some(name),
    decreases gap(c, t.after(0)),
{
    if c <= d {
        a_child_comes_after_its_elders(t, 0, c, d);
    }
    if c < t.after(0) {
        let next = if t.kind(c) == "import_declaration"@ {
            after_declaration(t, c + 1, t.after(c), src, aliases)
        } else {
            aliases
        };
        if t.kind(c) == "import_declaration"@ {
            if c == d {
                lemma_declaration(t, c, c + 1, l, s, x, name, src, aliases);
            } else if c > s {
                lemma_declaration(t, c, c + 1, s, s, x, name, src, aliases);
            }
        }
        if c == d {
            a_child_comes_after_its_elders(t, d, d, l);
            a_child_lies_within_its_parent(t, d, l);
            if l != s {
                a_child_comes_after_its_elders(t, l, l, s);
            }
        }
        lemma_declarations(t, t.after(c), d, l, s, x, name, src, next);
    }
}

/// A name stands for the package that the last import of a file under that name gives it, by
/// itself or in a list.
pub proof fn the_last_import_gives_the_package(
    t: &SyntaxTree,
    d: int,
    l: int,
    s: int,
    x: Text,
    name: Text,
    src: Text,
)
    requires
        t.wf(),
        is_child(t, 0, d),
        t.kind(d) == "import_declaration"@,
        is_child(t, d, l),
        t.kind(s) == "import_spec"@,
        l == s || t.kind(l) == "import_spec_list"@ && is_child(t, l, s),
        introduces(t, s, x, name, src),
        forall|k: int|
            #![trigger t.kind(k)]
            s < k && t.kind(k) == "import_spec"@ ==> is_silent_on(t, k, x, src),
    ensures
        known_as(import_aliases(t, src), x) == Some(name),
{
    a_child_comes_after_its_elders(t, 0, 0, d);
    a_child_comes_after_its_elders(t, d, d, l);
    if l != s {
        a_child_comes_after_its_elders(t, l, l, s);
    }
    lemma_declarations(t, 1, d, l, s, x, name, src, Map::empty());
}

// ─── Declared types ──────────────────────────────────────────────────────────
/// A type and the pointers to it are known by the same name.
pub proof fn a_pointer_is_known_by_what_it_points_to(name: Text)
    requires
        name.len() > 0,
        !is_white(name[0]),
        !is_white(name.last()),
        name[0] != '*',
    ensures
        pointed_to(name) == name,
        pointed_to(seq!['*'] + name) == name,
{
    let star = seq!['*'] + name;
    crate::java_rule_laws::lemma_trim(name);
    crate::java_rule_laws::lemma_trim(star);
    assert(star.last() == name.last());
    crate::text_laws::lemma_skip_two(name, '*', '*', 0);
    crate::text_laws::lemma_skip_two(star, '*', '*', 0);
    assert(star[1] == name[0]);
    assert(star.skip(1) =~= name);
    assert(name.skip(0) =~= name);
    assert(skip_two(name, '*', '*', 0) == 0);
    assert(skip_two(star, '*', '*', 0) == 1);
}

proof fn lemma_typed(sources: Seq<Matcher>, from: int, k: int, ty: Text)
    requires
        0 <= from <= k < sources.len(),
        sources[k] matches Matcher::TypedName { declared, .. } && pointed_to(declared)
            == pointed_to(ty),
    ensures
        typed_source(sources, from, ty) is Some,
    decreases sources.len() - from,
{
    if from < k {
        lemma_typed(sources, from + 1, k, ty);
    }
}

proof fn lemma_seeds_keep(
    t: &SyntaxTree,
    c: int,
    e: int,
    d: Text,
    cx: Facts<'_>,
    st: Map<Text, Info>,
    x: Text,
)
    requires
        st.contains_key(x),
    ensures
        seed_identifiers(t, c, e, d, cx, st).contains_key(x),
    decreases gap(c, e),
{
    if c < e {
        let next = if t.kind(c) == "identifier"@ {
            st.insert(t.text(c, cx.src), fresh(t, c, d, cx))
        } else {
            st
        };
        lemma_seeds_keep(t, t.after(c), e, d, cx, next, x);
    }
}

proof fn lemma_seeds(
    t: &SyntaxTree,
    i: int,
    c: int,
    n: int,
    d: Text,
    cx: Facts<'_>,
    st: Map<Text, Info>,
)
    requires
        t.wf(),
        is_child(t, i, n),
        i < c <= n,
        t.kind(n) == "identifier"@,
    ensures
        seed_identifiers(t, c, t.after(i), d, cx, st).contains_key(t.text(n, cx.src)),
    decreases gap(c, t.after(i)),
{
    a_child_comes_after_its_elders(t, i, c, n);
    let next = if t.kind(c) == "identifier"@ {
        st.insert(t.text(c, cx.src), fresh(t, c, d, cx))
    } else {
        st
    };
    if c < n {
        lemma_seeds(t, i, t.after(c), n, d, cx, next);
    } else {
        lemma_seeds_keep(t, t.after(c), t.after(i), d, cx, next, t.text(n, cx.src));
    }
}

/// A variable that is declared without a value is tainted where its type is listed as a
/// source, behind pointers or not.
pub proof fn a_variable_of_a_listed_type_is_tainted(
    t: &SyntaxTree,
    i: int,
    n: int,
    k: int,
    ty: Text,
    cx: Facts<'_>,
    st: Map<Text, Info>,
)
    requires
        t.wf(),
        t.kind(i) == "var_spec"@,
        t.field(i, "value"@) is None,
        t.field_text(i, "type"@, cx.src) == Some(ty),
        is_child(t, i, n),
        t.kind(n) == "identifier"@,
        0 <= k < cx.sources.len(),
        cx.sources[k] matches Matcher::TypedName { declared, .. } && pointed_to(declared)
            == pointed_to(ty),
    ensures
        state_after(t, i, cx, st).contains_key(t.text(n, cx.src)),
{
    lemma_go_kinds();
    lemma_typed(cx.sources, 0, k, ty);
    a_child_comes_after_its_elders(t, i, i, n);
    lemma_seeds(t, i, i + 1, n, declared_source(t, i, cx)->0, cx, st);
}

// ─── Labels ──────────────────────────────────────────────────────────────────
/// A condition on labels asks for what it says: one label, the contrary of another
/// condition, both of two or one of two.
pub proof fn a_condition_asks_for_what_it_says(a: LabelExpr, b: LabelExpr, labels: Set<Text>)
    ensures
        a matches LabelExpr::Label(name) ==> (a.holds(labels) <==> labels.contains(name@)),
        LabelExpr::Not(Box::new(a)).holds(labels) <==> !a.holds(labels),
        LabelExpr::And(Box::new(a), Box::new(b)).holds(labels) <==> a.holds(labels) && b.holds(
            labels,
        ),
        LabelExpr::Or(Box::new(a), Box::new(b)).holds(labels) <==> a.holds(labels) || b.holds(
            labels,
        ),
{
}

/// A source carries the label of sources, and a variable the labels that are known of it.
pub proof fn sources_and_variables_carry_their_labels(
    t: &SyntaxTree,
    i: int,
    cx: Facts<'_>,
    st: Map<Text, Info>,
    policy: &LabelPolicy,
)
    requires
        0 <= i < t.len(),
        t.kind(i) == "identifier"@ || t.kind(i) == "selector_expression"@,
    ensures
        go_source(cx.sources, 0, t, i, cx.src, cx.aliases) is Some ==> (labels_of(
            t,
            i,
            cx,
            st,
            policy,
        ) matches Some(labels) && labels.contains(policy.source_label@)),
        t.kind(i) == "identifier"@ && go_source(cx.sources, 0, t, i, cx.src, cx.aliases) is None
            && st.contains_key(t.text(i, cx.src)) && st[t.text(i, cx.src)].labels is Some
            ==> labels_of(t, i, cx, st, policy) == st[t.text(i, cx.src)].labels,
{
    lemma_go_kinds();
    assert(labels_within(t, i, cx, st, policy) == labels_within(t, i, cx, st, policy));
}

proof fn lemma_labels_named(
    t: &SyntaxTree,
    i: int,
    c: int,
    k: int,
    cx: Facts<'_>,
    st: Map<Text, Info>,
    policy: &LabelPolicy,
)
    requires
        t.wf(),
        is_child(t, i, k),
        i < c <= k,
        t.named(k),
        labels_of(t, k, cx, st, policy) is Some,
        forall|j: int|
            #![trigger t.named(j)]
            c <= j < k && t.named(j) ==> labels_of(t, j, cx, st, policy) is None,
    ensures
        labels_of_named(t, c, t.after(i), cx, st, policy) == labels_of(t, k, cx, st, policy),
    decreases gap(c, t.after(i)),
{
    a_child_comes_after_its_elders(t, i, c, k);
    if c < k {
        lemma_labels_named(t, i, t.after(c), k, cx, st, policy);
    }
}

/// A sum with a string literal carries the labels of its first labelled operand, and those
/// that the policy adds to them.
pub proof fn a_string_that_is_put_together_is_relabelled(
    t: &SyntaxTree,
    i: int,
    k: int,
    cx: Facts<'_>,
    st: Map<Text, Info>,
    policy: &LabelPolicy,
    label: Text,
    r: int,
)
    requires
        t.wf(),
        0 <= i < t.len(),
        t.kind(i) == "binary_expression"@,
        t.field_text(i, "operator"@, cx.src) == Some("+"@),
        has_string_operand(t, i, cx.src),
        go_source(cx.sources, 0, t, i, cx.src, cx.aliases) is None,
        is_child(t, i, k),
        t.named(k),
        labels_of(t, k, cx, st, policy) matches Some(labels) && labels.contains(label),
        forall|j: int|
            #![trigger t.named(j)]
            i < j < k && t.named(j) ==> labels_of(t, j, cx, st, policy) is None,
        0 <= r < policy.relabels@.len(),
        views(policy.relabels@)[r].0 == label,
    ensures
        labels_of(t, i, cx, st, policy) matches Some(labels) && labels.contains(label)
            && labels.contains(views(policy.relabels@)[r].1),
{
    lemma_go_kinds();
    a_child_comes_after_its_elders(t, i, i, k);
    lemma_labels_named(t, i, i + 1, k, cx, st, policy);
    let base = labels_of(t, k, cx, st, policy)->0;
    let relabels = views(policy.relabels@);
    assert(relabels.len() == policy.relabels@.len());
    crate::taint_engine::relabelling_adds_targets(base, relabels, label);
    crate::taint_engine::relabelling_adds_targets(base, relabels, relabels[r].1);
    assert(labels_within(t, i, cx, st, policy) == Some(base));
}

// ─── Sums as sinks ───────────────────────────────────────────────────────────
proof fn lemma_format_sink(sinks: Seq<Matcher>, from: int, j: int)
    requires
        0 <= from <= j < sinks.len(),
        sinks[j] is BinopFormat,
    ensures
        format_sink(sinks, from) is Some,
    decreases sinks.len() - from,
{
    if from < j {
        lemma_format_sink(sinks, from + 1, j);
    }
}

proof fn lemma_format_flow(
    groups: Seq<(Option<Text>, Seq<Matcher>)>,
    from: int,
    g: int,
    t: &SyntaxTree,
    i: int,
    taint: crate::go_taint::Taint,
)
    requires
        0 <= from <= g < groups.len(),
        format_sink(groups[g].1, 0) is Some,
    ensures
        exists|n: int|
            #![trigger format_sink_flows(groups, from, t, i, taint)[n]]
            0 <= n < format_sink_flows(groups, from, t, i, taint).len() && format_sink_flows(
                groups,
                from,
                t,
                i,
                taint,
            )[n].sink_line == t.line(i) && format_sink_flows(groups, from, t, i, taint)[n].rule_id_hint
                == groups[g].0,
    decreases groups.len() - from,
{
    let all = format_sink_flows(groups, from, t, i, taint);
    if from == g {
        assert(all[0].rule_id_hint == groups[g].0);
    } else {
        let rest = format_sink_flows(groups, from + 1, t, i, taint);
        lemma_format_flow(groups, from + 1, g, t, i, taint);
        let n = choose|n: int|
            #![trigger rest[n]]
            0 <= n < rest.len() && rest[n].sink_line == t.line(i) && rest[n].rule_id_hint
                == groups[g].0;
        assert(all[n + (all.len() - rest.len())] == rest[n]);
    }
}

/// A sum that adds something tainted to a string literal, and is no part of a larger sum, is
/// reported for each rule that has sums as sinks.
pub proof fn a_tainted_sum_is_reported(
    t: &SyntaxTree,
    i: int,
    g: int,
    j: int,
    cx: Facts<'_>,
    st: Map<Text, Info>,
)
    requires
        cx.policy is None || labels_suffice(t, i, cx, st),
        t.kind(i) == "binary_expression"@,
        t.field_text(i, "operator"@, cx.src) == Some("+"@),
        match t.parent(i) {
            Some(p) => t.kind(p) != "binary_expression"@,
            None => true,
        },
        has_string_operand(t, i, cx.src),
        taint_of(t, i, cx, st) is Some,
        0 <= g < cx.groups.len(),
        0 <= j < cx.groups[g].1.len(),
        cx.groups[g].1[j] is BinopFormat,
    ensures
        exists|n: int|
            #![trigger flows_at(t, i, cx, st)[n]]
            0 <= n < flows_at(t, i, cx, st).len() && flows_at(t, i, cx, st)[n].sink_line == t.line(
                i,
            ) && flows_at(t, i, cx, st)[n].rule_id_hint == cx.groups[g].0,
{
    lemma_go_kinds();
    let taint = taint_of(t, i, cx, st)->0;
    lemma_format_sink(cx.groups[g].1, 0, j);
    lemma_format_flow(cx.groups, 0, g, t, i, taint);
    let made = format_sink_flows(cx.groups, 0, t, i, taint);
    assert(flows_at(t, i, cx, st) == made);
    let n = choose|n: int|
        #![trigger made[n]]
        0 <= n < made.len() && made[n].sink_line == t.line(i) && made[n].rule_id_hint
            == cx.groups[g].0;
    assert(flows_at(t, i, cx, st)[n].rule_id_hint == cx.groups[g].0);
}

/// A sum holds a string literal where either operand is one or holds one, in parentheses too.
/// A call and a variable hold none.
pub proof fn a_string_operand_is_found_on_either_side(t: &SyntaxTree, i: int, k: int, src: Text)
    requires
        0 <= i < t.len(),
    ensures
        t.kind(i) == "interpreted_string_literal"@ || t.kind(i) == "raw_string_literal"@
            ==> has_string_operand(t, i, src),
        t.kind(i) == "binary_expression"@ && t.field_text(i, "operator"@, src) == Some("+"@) && (
        t.field(i, "left"@) == Some(k) || t.field(i, "right"@) == Some(k)) && has_string_operand(
            t,
            k,
            src,
        ) ==> has_string_operand(t, i, src),
        t.kind(i) == "parenthesized_expression"@ && t.named_children(i).len() > 0
            && t.named_children(i)[0] == k ==> (has_string_operand(t, i, src)
            <==> has_string_operand(t, k, src)),
        t.kind(i) == "identifier"@ || t.kind(i) == "call_expression"@ ==> !has_string_operand(
            t,
            i,
            src,
        ),
{
    lemma_go_kinds();
    lemma_go_literals();
}

proof fn lemma_go_literals()
    ensures
        "interpreted_string_literal"@.len() == 26,
        "raw_string_literal"@.len() == 18,
        "binary_expression"@.len() == 17,
        "parenthesized_expression"@.len() == 24,
        "identifier"@.len() == 10,
        "call_expression"@.len() == 15,
{
    reveal_strlit("interpreted_string_literal");
    reveal_strlit("raw_string_literal");
    reveal_strlit("binary_expression");
    reveal_strlit("parenthesized_expression");
    reveal_strlit("identifier");
    reveal_strlit("call_expression");
}

// ─── Other functions ─────────────────────────────────────────────────────────
proof fn lemma_digit(a: int, b: int)
    requires
        0 <= a < 10,
        0 <= b < 10,
        digit_char(a) == digit_char(b),
    ensures
        a == b,
{
    assert(digit_char(a) as int == 48 + a);
    assert(digit_char(b) as int == 48 + b);
}

proof fn lemma_decimal(a: int, b: int)
    requires
        0 <= a,
        0 <= b,
        decimal(a) == decimal(b),
    ensures
        a == b,
    decreases a,
{
    if a < 10 && b < 10 {
        assert(decimal(a)[0] == digit_char(a) && decimal(b)[0] == digit_char(b));
        lemma_digit(a, b);
    } else if a >= 10 && b >= 10 {
        assert(decimal(a).drop_last() =~= decimal(a / 10));
        assert(decimal(b).drop_last() =~= decimal(b / 10));
        assert(decimal(a).last() == digit_char(a % 10) && decimal(b).last() == digit_char(b % 10));
        lemma_decimal(a / 10, b / 10);
        lemma_digit(a % 10, b % 10);
    } else if a < 10 {
        lemma_decimal_len(b / 10);
        assert(decimal(b).len() == decimal(b / 10).len() + 1);
    } else {
        lemma_decimal_len(a / 10);
        assert(decimal(a).len() == decimal(a / 10).len() + 1);
    }
}

proof fn lemma_decimal_len(n: int)
    ensures
        decimal(n).len() > 0,
    decreases n,
{
    if n >= 10 {
        lemma_decimal_len(n / 10);
    }
}

/// Functions of one name with different numbers of parameters are told apart.
pub proof fn functions_are_told_apart_by_their_parameters(name: Text, a: int, b: int)
    requires
        0 <= a,
        0 <= b,
        a != b,
    ensures
        summary_key(name, a) != summary_key(name, b),
{
    if summary_key(name, a) == summary_key(name, b) {
        let n = (name + "/"@).len() as int;
        assert(summary_key(name, a).skip(n) =~= decimal(a));
        assert(summary_key(name, b).skip(n) =~= decimal(b));
        lemma_decimal(a, b);
    }
}

proof fn lemma_cross(
    t: &SyntaxTree,
    i: int,
    name: Text,
    args: Seq<int>,
    flows: Seq<SinkFlow>,
    from: int,
    k: int,
    cx: Facts<'_>,
    st: Map<Text, Info>,
)
    requires
        cx.policy is None,
        0 <= from <= k < flows.len(),
        cx.cross matches Some(others) && others.allowed.contains(flows[k].sink_rule_id),
        0 <= flows[k].param_index < args.len(),
        taint_of(t, args[flows[k].param_index], cx, st) is Some,
    ensures
        cross_flows(t, i, name, args, flows, from, cx, st).len() == 1,
        cross_flows(t, i, name, args, flows, from, cx, st)[0].sink_line == t.line(i),
    decreases flows.len() - from,
{
    if from < k {
        lemma_cross(t, i, name, args, flows, from + 1, k, cx, st);
    }
}

/// A call of a function of another file of the package is reported where the function passes
/// a parameter into a sink, the argument in that place is tainted and the rule may report.
pub proof fn a_tainted_argument_of_a_sink_in_another_file_is_reported(
    t: &SyntaxTree,
    i: int,
    func: int,
    args: int,
    k: int,
    cx: Facts<'_>,
    st: Map<Text, Info>,
)
    requires
        cx.policy is None,
        t.kind(i) == "call_expression"@,
        t.field(i, "function"@) == Some(func),
        t.field(i, "arguments"@) == Some(args),
        t.kind(func) == "identifier"@,
        !some_call_sink(
            cx.groups,
            crate::common::resolved_in(cx.aliases, t.text(func, cx.src)),
        ),
        cx.cross matches Some(others) && others.summary(t.text(func, cx.src)) matches Some(s) && 0
            <= k < s.params_to_sink.len() && others.allowed.contains(
            s.params_to_sink[k].sink_rule_id,
        ) && 0 <= s.params_to_sink[k].param_index < t.named_children(args).len() && taint_of(
            t,
            t.named_children(args)[s.params_to_sink[k].param_index],
            cx,
            st,
        ) is Some,
    ensures
        flows_at(t, i, cx, st).len() == 1,
        flows_at(t, i, cx, st)[0].sink_line == t.line(i),
{
    lemma_go_kinds();
    let name = t.text(func, cx.src);
    let s = cx.cross->0.summary(name)->0;
    lemma_cross(t, i, name, t.named_children(args), s.params_to_sink, 0, k, cx, st);
}

proof fn lemma_first_flow(flows: Seq<Flow>, from: int, k: int, rule: Text)
    requires
        0 <= from <= k < flows.len(),
        flows[k].rule_id_hint is None || flows[k].rule_id_hint == Some(rule),
    ensures
        first_flow_of(flows, from, rule) is Some,
    decreases flows.len() - from,
{
    if from < k {
        lemma_first_flow(flows, from + 1, k, rule);
    }
}

proof fn lemma_param_flow(
    t: &SyntaxTree,
    f: int,
    source: Text,
    aliases: Option<Map<Text, Text>>,
    cross: Option<CrossFacts>,
    p: int,
    name: Text,
    rules: Seq<(Text, TaintRule)>,
    from: int,
    r: int,
    k: int,
)
    requires
        0 <= from <= r < rules.len(),
        ({
            let flows = function_flows(
                t,
                f,
                parameter_facts(source, aliases, cross, name, rules[r].1),
            );
            0 <= k < flows.len() && (flows[k].rule_id_hint is None || flows[k].rule_id_hint == Some(
                rules[r].0,
            ))
        }),
    ensures
        exists|j: int|
            #![trigger param_flows(t, f, source, aliases, cross, p, name, rules, from)[j]]
            {
                let all = param_flows(t, f, source, aliases, cross, p, name, rules, from);
                0 <= j < all.len() && all[j].param_index == p && all[j].sink_rule_id == rules[r].0
            },
    decreases rules.len() - from,
{
    let all = param_flows(t, f, source, aliases, cross, p, name, rules, from);
    if from == r {
        let flows = function_flows(
            t,
            f,
            parameter_facts(source, aliases, cross, name, rules[r].1),
        );
        lemma_first_flow(flows, 0, k, rules[r].0);
        assert(all[0].param_index == p && all[0].sink_rule_id == rules[r].0);
    } else {
        let rest = param_flows(t, f, source, aliases, cross, p, name, rules, from + 1);
        lemma_param_flow(t, f, source, aliases, cross, p, name, rules, from + 1, r, k);
        let j = choose|j: int|
            #![trigger rest[j]]
            0 <= j < rest.len() && rest[j].param_index == p && rest[j].sink_rule_id == rules[r].0;
        assert(all[j + (all.len() - rest.len())] == rest[j]);
    }
}

proof fn lemma_all_param_flows(
    t: &SyntaxTree,
    f: int,
    source: Text,
    aliases: Option<Map<Text, Text>>,
    cross: Option<CrossFacts>,
    names: Seq<Text>,
    from: int,
    p: int,
    rules: Seq<(Text, TaintRule)>,
    r: int,
    k: int,
)
    requires
        0 <= from <= p < names.len(),
        0 <= r < rules.len(),
        ({
            let flows = function_flows(
                t,
                f,
                parameter_facts(source, aliases, cross, names[p], rules[r].1),
            );
            0 <= k < flows.len() && (flows[k].rule_id_hint is None || flows[k].rule_id_hint == Some(
                rules[r].0,
            ))
        }),
    ensures
        exists|j: int|
            #![trigger all_param_flows(t, f, source, aliases, cross, names, from, rules)[j]]
            {
                let all = all_param_flows(t, f, source, aliases, cross, names, from, rules);
                0 <= j < all.len() && all[j].param_index == p && all[j].sink_rule_id == rules[r].0
            },
    decreases names.len() - from,
{
    let all = all_param_flows(t, f, source, aliases, cross, names, from, rules);
    let here = param_flows(t, f, source, aliases, cross, from, names[from], rules, 0);
    if from == p {
        lemma_param_flow(t, f, source, aliases, cross, p, names[p], rules, 0, r, k);
        let j = choose|j: int|
            #![trigger here[j]]
            0 <= j < here.len() && here[j].param_index == p && here[j].sink_rule_id == rules[r].0;
        assert(all[j] == here[j]);
    } else {
        let rest = all_param_flows(t, f, source, aliases, cross, names, from + 1, rules);
        lemma_all_param_flows(t, f, source, aliases, cross, names, from + 1, p, rules, r, k);
        let j = choose|j: int|
            #![trigger rest[j]]
            0 <= j < rest.len() && rest[j].param_index == p && rest[j].sink_rule_id == rules[r].0;
        assert(all[here.len() + j] == rest[j]);
    }
}

/// The summary of a function names each of its parameters with each rule into whose sinks the
/// parameter, as the only source, flows.
pub proof fn a_summary_names_the_parameters_that_flow_into_sinks(
    t: &SyntaxTree,
    f: int,
    name: Text,
    source: Text,
    aliases: Option<Map<Text, Text>>,
    cross: Option<CrossFacts>,
    rules: Seq<(Text, TaintRule)>,
    p: int,
    r: int,
    k: int,
)
    requires
        0 <= p < param_names(t, f, source).len(),
        0 <= r < rules.len(),
        ({
            let flows = function_flows(
                t,
                f,
                parameter_facts(
                    source,
                    aliases,
                    cross,
                    param_names(t, f, source)[p],
                    rules[r].1,
                ),
            );
            0 <= k < flows.len() && (flows[k].rule_id_hint is None || flows[k].rule_id_hint == Some(
                rules[r].0,
            ))
        }),
    ensures
        exists|j: int|
            #![trigger function_summary(t, f, name, source, aliases, cross, rules).params_to_sink[j]]
            {
                let all = function_summary(
                    t,
                    f,
                    name,
                    source,
                    aliases,
                    cross,
                    rules,
                ).params_to_sink;
                0 <= j < all.len() && all[j].param_index == p && all[j].sink_rule_id == rules[r].0
            },
{
    let names = param_names(t, f, source);
    lemma_all_param_flows(t, f, source, aliases, cross, names, 0, p, rules, r, k);
    let all = all_param_flows(t, f, source, aliases, cross, names, 0, rules);
    let j = choose|j: int|
        #![trigger all[j]]
        0 <= j < all.len() && all[j].param_index == p && all[j].sink_rule_id == rules[r].0;
    assert(function_summary(t, f, name, source, aliases, cross, rules).params_to_sink[j].param_index
        == p);
}

/// The summaries of a file are those of its named functions and methods that say anything.
pub proof fn a_file_has_the_summaries_of_its_functions(
    t: &SyntaxTree,
    c: int,
    e: int,
    f: int,
    name: Text,
    source: Text,
    aliases: Option<Map<Text, Text>>,
    cross: Option<CrossFacts>,
    rules: Seq<(Text, TaintRule)>,
)
    requires
        c <= f < e,
        t.kind(f) == "function_declaration"@ || t.kind(f) == "method_declaration"@,
        t.field_text(f, "name"@, source) == Some(name),
        ({
            let s = function_summary(t, f, name, source, aliases, cross, rules);
            s.params_to_return.len() > 0 || s.params_to_sink.len() > 0
        }),
    ensures
        summaries_in(t, c, e, source, aliases, cross, rules).contains(
            function_summary(t, f, name, source, aliases, cross, rules),
        ),
    decreases gap(c, e),
{
    let all = summaries_in(t, c, e, source, aliases, cross, rules);
    let rest = summaries_in(t, c + 1, e, source, aliases, cross, rules);
    let s = function_summary(t, f, name, source, aliases, cross, rules);
    if c == f {
        assert(all[0] == s);
    } else {
        a_file_has_the_summaries_of_its_functions(
            t,
            c + 1,
            e,
            f,
            name,
            source,
            aliases,
            cross,
            rules,
        );
        let j = choose|j: int| 0 <= j < rest.len() && rest[j] == s;
        assert(all[j + (all.len() - rest.len())] == s);
    }
}

// ─── Parameters ──────────────────────────────────────────────────────────────
proof fn lemma_identifier(t: &SyntaxTree, d: int, c: int, n: int, src: Text)
    requires
        t.wf(),
        is_child(t, d, n),
        d < c <= n,
        t.kind(n) == "identifier"@,
    ensures
        identifiers_from(t, c, t.after(d), src).contains(t.text(n, src)),
    decreases gap(c, t.after(d)),
{
    a_child_comes_after_its_elders(t, d, c, n);
    let all = identifiers_from(t, c, t.after(d), src);
    let rest = identifiers_from(t, t.after(c), t.after(d), src);
    if c == n {
        assert(all[0] == t.text(n, src));
    } else {
        lemma_identifier(t, d, t.after(c), n, src);
        let j = choose|j: int| 0 <= j < rest.len() && rest[j] == t.text(n, src);
        assert(all[j + (all.len() - rest.len())] == rest[j]);
    }
}

proof fn lemma_param_name(t: &SyntaxTree, l: int, c: int, d: int, x: Text, src: Text)
    requires
        t.wf(),
        is_child(t, l, d),
        l < c <= d,
        t.kind(d) == "parameter_declaration"@ || t.kind(d) == "variadic_parameter_declaration"@,
        identifiers_in(t, d, src).contains(x),
    ensures
        param_names_from(t, c, t.after(l), src).contains(x),
    decreases gap(c, t.after(l)),
{
    a_child_comes_after_its_elders(t, l, c, d);
    let all = param_names_from(t, c, t.after(l), src);
    let rest = param_names_from(t, t.after(c), t.after(l), src);
    if c == d {
        let here = identifiers_in(t, d, src);
        let j = choose|j: int| 0 <= j < here.len() && here[j] == x;
        assert(all[j] == x);
    } else {
        lemma_param_name(t, l, t.after(c), d, x, src);
        let j = choose|j: int| 0 <= j < rest.len() && rest[j] == x;
        assert(all[j + (all.len() - rest.len())] == x);
    }
}

/// Every name in every declaration of a function's parameters is a parameter of it, the last
/// one too where it stands for many.
pub proof fn every_declared_name_is_a_parameter(
    t: &SyntaxTree,
    f: int,
    l: int,
    d: int,
    n: int,
    src: Text,
)
    requires
        t.wf(),
        t.field(f, "parameters"@) == Some(l),
        is_child(t, l, d),
        t.kind(d) == "parameter_declaration"@ || t.kind(d) == "variadic_parameter_declaration"@,
        is_child(t, d, n),
        t.kind(n) == "identifier"@,
    ensures
        param_names(t, f, src).contains(t.text(n, src)),
{
    a_child_comes_after_its_elders(t, d, d, n);
    a_child_comes_after_its_elders(t, l, l, d);
    lemma_identifier(t, d, d + 1, n, src);
    lemma_param_name(t, l, l + 1, d, t.text(n, src), src);
}

} // verus!
