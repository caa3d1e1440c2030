//! What the Go taint analysis finds: how taint enters, how it is carried, and where it is reported.
use crate::common::resolved_in;
use crate::go_taint::{
    assign_all, assign_each, assign_lists, assigned, call_sink, call_sink_flows, call_taint_of,
    entry_state, file_flows, file_summaries, first_pass, first_value, flows_at, flows_from,
    function_flows, function_return, go_source, go_source_hits, identifiers_from, identifiers_in,
    labels_suffice, leftmost, param_names, param_names_from, reaching, return_facts, returned_taint,
    returning_params, scope_flows, scope_return, seed_by_name, seed_params, state_after,
    summaries_from, summary_key, taint_of, taint_of_literal, taint_of_method, taint_of_named,
    taint_of_params, typed_source, value_of, with_parameter, Facts, ReturnFacts,
};
use crate::taint_engine::{lookup, param_source, parameter_source, Flow, Info, Matcher};
use crate::text::{last_segment, Text};
use crate::text_laws::segments_stand_at_the_ends;
use crate::tree::{gap, SyntaxTree};
use crate::tree_laws::{a_child_comes_after_its_elders, a_field_is_the_first_child_in_it, is_child};
use vstd::prelude::*;

verus! {

broadcast use crate::tree::group_tree;

/// The kinds of nodes of Go that the analysis tells apart differ in length or in a letter.
pub(crate) proof fn lemma_go_kinds()
    ensures
        "identifier"@.len() == 10,
        "package_identifier"@.len() == 18,
        "selector_expression"@.len() == 19,
        "index_expression"@.len() == 16,
        "type_assertion_expression"@.len() == 25,
        "binary_expression"@.len() == 17,
        "type_conversion_expression"@.len() == 26,
        "parenthesized_expression"@.len() == 24,
        "unary_expression"@.len() == 16,
        "keyed_element"@.len() == 13,
        "composite_literal"@.len() == 17,
        "call_expression"@.len() == 15,
        "short_var_declaration"@.len() == 21,
        "assignment_statement"@.len() == 20,
        "var_spec"@.len() == 8,
        "func_literal"@.len() == 12,
        "return_statement"@.len() == 16,
        "expression_list"@.len() == 15,
        "function_declaration"@.len() == 20,
        "method_declaration"@.len() == 18,
        "literal_value"@.len() == 13,
        "package_identifier"@ != "method_declaration"@,
        "index_expression"@ != "unary_expression"@,
        "index_expression"@ != "return_statement"@,
        "binary_expression"@ != "composite_literal"@,
        "unary_expression"@ != "return_statement"@,
        "keyed_element"@ != "literal_value"@,
        "call_expression"@ != "expression_list"@,
        "assignment_statement"@ != "function_declaration"@,
{
    reveal_strlit("identifier");
    reveal_strlit("package_identifier");
    reveal_strlit("selector_expression");
    reveal_strlit("index_expression");
    reveal_strlit("type_assertion_expression");
    reveal_strlit("binary_expression");
    reveal_strlit("type_conversion_expression");
    reveal_strlit("parenthesized_expression");
    reveal_strlit("unary_expression");
    reveal_strlit("keyed_element");
    reveal_strlit("composite_literal");
    reveal_strlit("call_expression");
    reveal_strlit("short_var_declaration");
    reveal_strlit("assignment_statement");
    reveal_strlit("var_spec");
    reveal_strlit("func_literal");
    reveal_strlit("return_statement");
    reveal_strlit("expression_list");
    reveal_strlit("function_declaration");
    reveal_strlit("method_declaration");
    reveal_strlit("literal_value");
    assert("package_identifier"@[0] != "method_declaration"@[0]);
    assert("index_expression"@[0] != "unary_expression"@[0]);
    assert("index_expression"@[0] != "return_statement"@[0]);
    assert("binary_expression"@[0] != "composite_literal"@[0]);
    assert("unary_expression"@[0] != "return_statement"@[0]);
    assert("keyed_element"@[0] != "literal_value"@[0]);
    assert("call_expression"@[0] != "expression_list"@[0]);
    assert("assignment_statement"@[0] != "function_declaration"@[0]);
}

// ─── How taint enters ────────────────────────────────────────────────────────
proof fn lemma_source_listed(
    sources: Seq<Matcher>,
    from: int,
    k: int,
    t: &SyntaxTree,
    i: int,
    src: Text,
    aliases: Option<Map<Text, Text>>,
)
    requires
        0 <= from <= k < sources.len(),
        go_source_hits(sources[k], t, i, src, aliases),
    ensures
        go_source(sources, from, t, i, src, aliases) is Some,
    decreases sources.len() - from,
{
    if !go_source_hits(sources[from], t, i, src, aliases) {
        lemma_source_listed(sources, from + 1, k, t, i, src, aliases);
    }
}

/// A call of a function that is listed as a source is tainted at its own line, whether it is
/// written under its name or under an alias.
pub proof fn a_listed_call_is_tainted(
    t: &SyntaxTree,
    i: int,
    k: int,
    callee: Text,
    cx: Facts<'_>,
    st: Map<Text, Info>,
)
    requires
        0 <= i < t.len(),
        0 <= k < cx.sources.len(),
        t.kind(i) == "call_expression"@,
        t.field_text(i, "function"@, cx.src) == Some(callee),
        cx.sources[k] matches Matcher::Call { canonical, .. } && (canonical == callee || canonical
            == resolved_in(cx.aliases, callee)),
    ensures
        taint_of(t, i, cx, st) matches Some(x) && x.1 == t.line(i),
{
    lemma_source_listed(cx.sources, 0, k, t, i, cx.src, cx.aliases);
}

/// A field that is listed as a source is tainted wherever it is selected, and an attribute
/// where it is selected from the name that it is listed with.
pub proof fn a_listed_field_is_tainted(
    t: &SyntaxTree,
    i: int,
    k: int,
    operand: int,
    name: Text,
    cx: Facts<'_>,
    st: Map<Text, Info>,
)
    requires
        t.wf(),
        0 <= i < t.len(),
        0 <= k < cx.sources.len(),
        t.kind(i) == "selector_expression"@,
        t.field_text(i, "field"@, cx.src) == Some(name),
        t.field(i, "operand"@) == Some(operand),
        match cx.sources[k] {
            Matcher::FieldName { field, .. } => field == name,
            Matcher::Attribute { root, field, .. } => field == name && t.kind(operand)
                == "identifier"@ && (t.text(operand, cx.src) == root || resolved_in(
                cx.aliases,
                t.text(operand, cx.src),
            ) == root),
            _ => false,
        },
    ensures
        taint_of(t, i, cx, st) matches Some(x) && x.1 == t.line(i),
{
    lemma_go_kinds();
    a_field_is_the_first_child_in_it(t, i, "operand"@);
    assert(t.kind(operand) == "identifier"@ ==> leftmost(t, operand, cx.src) == Some(
        t.text(operand, cx.src),
    ));
    assert(leftmost(t, i, cx.src) == leftmost(t, operand, cx.src));
    lemma_source_listed(cx.sources, 0, k, t, i, cx.src, cx.aliases);
}

/// An index access is tainted where accesses of its base are listed, and where all are.
pub proof fn a_listed_index_is_tainted(
    t: &SyntaxTree,
    i: int,
    k: int,
    operand: int,
    cx: Facts<'_>,
    st: Map<Text, Info>,
)
    requires
        0 <= i < t.len(),
        0 <= k < cx.sources.len(),
        t.kind(i) == "index_expression"@,
        t.field(i, "operand"@) == Some(operand),
        cx.sources[k] matches Matcher::Subscript { base, .. } && (base is None || (t.kind(operand)
            == "identifier"@ && base == Some(t.text(operand, cx.src))) || (t.kind(operand)
            == "selector_expression"@ && base is Some && base == t.field_text(
            operand,
            "field"@,
            cx.src,
        ))),
    ensures
        taint_of(t, i, cx, st) matches Some(x) && x.1 == t.line(i),
{
    lemma_go_kinds();
    lemma_source_listed(cx.sources, 0, k, t, i, cx.src, cx.aliases);
}

/// A tainted variable is tainted, with what is known of it, unless it is itself a source.
pub proof fn a_tainted_variable_is_tainted(t: &SyntaxTree, i: int, cx: Facts<'_>, st: Map<Text, Info>)
    requires
        0 <= i < t.len(),
        t.kind(i) == "identifier"@,
        st.contains_key(t.text(i, cx.src)),
    ensures
        taint_of(t, i, cx, st) is Some,
        go_source(cx.sources, 0, t, i, cx.src, cx.aliases) is None ==> taint_of(t, i, cx, st)
            == Some((st[t.text(i, cx.src)].description, st[t.text(i, cx.src)].line)),
{
}

/// An untainted variable and a literal are clean, unless they are themselves a source.
pub proof fn an_untainted_variable_is_clean(t: &SyntaxTree, i: int, cx: Facts<'_>, st: Map<Text, Info>)
    requires
        0 <= i < t.len(),
        t.kind(i) == "identifier"@,
        !st.contains_key(t.text(i, cx.src)),
        go_source(cx.sources, 0, t, i, cx.src, cx.aliases) is None,
    ensures
        taint_of(t, i, cx, st) is None,
{
}

// ─── How taint is carried ────────────────────────────────────────────────────
proof fn lemma_named_part(
    t: &SyntaxTree,
    i: int,
    c: int,
    k: int,
    cx: Facts<'_>,
    st: Map<Text, Info>,
)
    requires
        t.wf(),
        is_child(t, i, k),
        t.named(k),
        i < c <= k,
        taint_of(t, k, cx, st) is Some,
    ensures
        taint_of_named(t, c, t.after(i), cx, st) is Some,
    decreases gap(c, t.after(i)),
{
    a_child_comes_after_its_elders(t, i, c, k);
    if !(t.named(c) && taint_of(t, c, cx, st) is Some) {
        lemma_named_part(t, i, t.after(c), k, cx, st);
    }
}

/// Parentheses, conversions, signs, keyed elements and operators that compute a value are
/// tainted where any part of them is.
pub proof fn a_tainted_part_taints_the_whole(
    t: &SyntaxTree,
    i: int,
    k: int,
    cx: Facts<'_>,
    st: Map<Text, Info>,
)
    requires
        t.wf(),
        0 <= i < t.len(),
        is_child(t, i, k),
        t.named(k),
        taint_of(t, k, cx, st) is Some,
        ({
            ||| t.kind(i) == "parenthesized_expression"@
            ||| t.kind(i) == "unary_expression"@
            ||| t.kind(i) == "type_conversion_expression"@
            ||| t.kind(i) == "keyed_element"@
            ||| t.kind(i) == "binary_expression"@ && match t.field_text(i, "operator"@, cx.src) {
                Some(op) => op != "=="@ && op != "!="@ && op != "<"@ && op != "<="@ && op != ">"@
                    && op != ">="@ && op != "&&"@ && op != "||"@,
                None => true,
            }
        }),
    ensures
        taint_of(t, i, cx, st) is Some,
{
    lemma_go_kinds();
    a_child_comes_after_its_elders(t, i, i, k);
    lemma_named_part(t, i, i + 1, k, cx, st);
}

/// A field, an element and an asserted value are tainted where what they are taken from is.
pub proof fn a_tainted_operand_taints_what_is_taken_from_it(
    t: &SyntaxTree,
    i: int,
    k: int,
    cx: Facts<'_>,
    st: Map<Text, Info>,
)
    requires
        0 <= i < t.len(),
        t.field(i, "operand"@) == Some(k),
        taint_of(t, k, cx, st) is Some,
        t.kind(i) == "selector_expression"@ || t.kind(i) == "index_expression"@ || t.kind(i)
            == "type_assertion_expression"@,
    ensures
        taint_of(t, i, cx, st) is Some,
{
    lemma_go_kinds();
}

proof fn lemma_literal_part(
    t: &SyntaxTree,
    i: int,
    c: int,
    l: int,
    k: int,
    cx: Facts<'_>,
    st: Map<Text, Info>,
)
    requires
        t.wf(),
        is_child(t, i, l),
        t.kind(l) == "literal_value"@,
        is_child(t, l, k),
        t.named(k),
        i < c <= l,
        taint_of(t, k, cx, st) is Some,
    ensures
        taint_of_literal(t, c, t.after(i), cx, st) is Some,
    decreases gap(c, t.after(i)),
{
    a_child_comes_after_its_elders(t, i, c, l);
    a_child_comes_after_its_elders(t, l, l, k);
    if c == l {
        lemma_named_part(t, l, l + 1, k, cx, st);
    } else {
        lemma_literal_part(t, i, t.after(c), l, k, cx, st);
    }
}

/// A composite literal is tainted where any of its elements is.
pub proof fn a_tainted_element_taints_the_literal(
    t: &SyntaxTree,
    i: int,
    l: int,
    k: int,
    cx: Facts<'_>,
    st: Map<Text, Info>,
)
    requires
        t.wf(),
        0 <= i < t.len(),
        t.kind(i) == "composite_literal"@,
        is_child(t, i, l),
        t.kind(l) == "literal_value"@,
        is_child(t, l, k),
        t.named(k),
        taint_of(t, k, cx, st) is Some,
    ensures
        taint_of(t, i, cx, st) is Some,
{
    lemma_go_kinds();
    a_child_comes_after_its_elders(t, i, i, l);
    lemma_literal_part(t, i, i + 1, l, k, cx, st);
}

/// Whether node `i` is a call, of the function at node `func` with the arguments at node
/// `args`, that no sanitizer is named for.
pub open spec fn is_plain_call(t: &SyntaxTree, i: int, func: int, args: int, cx: Facts<'_>) -> bool {
    &&& 0 <= i < t.len()
    &&& t.kind(i) == "call_expression"@
    &&& t.field(i, "function"@) == Some(func)
    &&& t.field(i, "arguments"@) == Some(args)
    &&& forall|j: int|
        #![trigger cx.sanitizers[j]]
        0 <= j < cx.sanitizers.len() ==> match cx.sanitizers[j] {
            Matcher::Call { canonical, .. } => canonical != t.text(func, cx.src) && canonical
                != resolved_in(cx.aliases, t.text(func, cx.src)),
            _ => true,
        }
}

proof fn lemma_params_reached(
    t: &SyntaxTree,
    args: int,
    params: Seq<int>,
    from: int,
    p: int,
    cx: Facts<'_>,
    st: Map<Text, Info>,
)
    requires
        0 <= args < t.len(),
        0 <= from,
        exists|j: int| #![trigger params[j]] from <= j < params.len() && params[j] == p,
        0 <= p < t.named_children(args).len(),
        taint_of(t, t.named_children(args)[p], cx, st) is Some,
    ensures
        taint_of_params(t, args, params, from, cx, st) is Some,
    decreases params.len() - from,
{
    if params[from] != p {
        lemma_params_reached(t, args, params, from + 1, p, cx, st);
    }
}

/// A call of a function of the same file is tainted where the function passes one of its
/// parameters on to what it returns and the argument in that place is tainted.
pub proof fn a_helper_passes_its_argument_on(
    t: &SyntaxTree,
    i: int,
    func: int,
    args: int,
    p: int,
    cx: Facts<'_>,
    st: Map<Text, Info>,
)
    requires
        is_plain_call(t, i, func, args, cx),
        t.kind(func) == "identifier"@,
        ({
            let key = summary_key(t.text(func, cx.src), t.named_children(args).len() as int);
            cx.summaries.contains_key(key) && cx.summaries[key].params_to_return.contains(p)
        }),
        0 <= p < t.named_children(args).len(),
        taint_of(t, t.named_children(args)[p], cx, st) is Some,
    ensures
        taint_of(t, i, cx, st) is Some,
{
    lemma_go_kinds();
    let key = summary_key(t.text(func, cx.src), t.named_children(args).len() as int);
    let s = cx.summaries[key];
    lemma_params_reached(t, args, s.params_to_return, 0, p, cx, st);
    assert(call_taint_of(t, i, cx, st) is Some);
}

/// A call of a method is tainted where a method of that name in the same file passes one of
/// its parameters on to what it returns and the argument in that place is tainted.
pub proof fn a_helper_method_passes_its_argument_on(
    t: &SyntaxTree,
    i: int,
    func: int,
    args: int,
    p: int,
    cx: Facts<'_>,
    st: Map<Text, Info>,
)
    requires
        is_plain_call(t, i, func, args, cx),
        t.kind(func) == "selector_expression"@,
        t.field(func, "field"@) is Some,
        ({
            let key = summary_key(
                t.field_text(func, "field"@, cx.src)->0,
                t.named_children(args).len() as int,
            );
            cx.summaries.contains_key(key) && cx.summaries[key].params_to_return.contains(p)
        }),
        0 <= p < t.named_children(args).len(),
        taint_of(t, t.named_children(args)[p], cx, st) is Some,
    ensures
        taint_of(t, i, cx, st) is Some,
{
    lemma_go_kinds();
    let key = summary_key(
        t.field_text(func, "field"@, cx.src)->0,
        t.named_children(args).len() as int,
    );
    let s = cx.summaries[key];
    lemma_params_reached(t, args, s.params_to_return, 0, p, cx, st);
    assert(taint_of_method(t, i, func, args, cx, st) is Some);
    assert(call_taint_of(t, i, cx, st) is Some);
}

/// A call of a function of the same file that returns a source is tainted, whatever its
/// arguments.
pub proof fn a_helper_returns_its_source(
    t: &SyntaxTree,
    i: int,
    func: int,
    args: int,
    cx: Facts<'_>,
    st: Map<Text, Info>,
)
    requires
        is_plain_call(t, i, func, args, cx),
        ({
            let name = if t.kind(func) == "identifier"@ {
                Some(t.text(func, cx.src))
            } else if t.kind(func) == "selector_expression"@ {
                t.field_text(func, "field"@, cx.src)
            } else {
                None
            };
            let key = summary_key(name->0, t.named_children(args).len() as int);
            name is Some && cx.summaries.contains_key(key) && cx.summaries[key].direct_source
                is Some
        }),
    ensures
        taint_of(t, i, cx, st) is Some,
{
    lemma_go_kinds();
    assert(t.kind(func) == "selector_expression"@ ==> taint_of_method(t, i, func, args, cx, st)
        is Some);
    assert(call_taint_of(t, i, cx, st) is Some);
}

/// A call of a function that the file does not define is tainted where any of its arguments
/// is.
pub proof fn an_unknown_function_passes_its_arguments_on(
    t: &SyntaxTree,
    i: int,
    func: int,
    args: int,
    k: int,
    cx: Facts<'_>,
    st: Map<Text, Info>,
)
    requires
        t.wf(),
        is_plain_call(t, i, func, args, cx),
        t.kind(func) == "identifier"@ ==> !cx.summaries.contains_key(
            summary_key(t.text(func, cx.src), t.named_children(args).len() as int),
        ),
        is_child(t, args, k),
        t.named(k),
        taint_of(t, k, cx, st) is Some,
    ensures
        taint_of(t, i, cx, st) is Some,
{
    lemma_go_kinds();
    a_child_comes_after_its_elders(t, args, args, k);
    lemma_named_part(t, args, args + 1, k, cx, st);
    assert(call_taint_of(t, i, cx, st) is Some);
}

/// A call of a method is tainted where what it is called on is.
pub proof fn a_tainted_receiver_taints_the_call(
    t: &SyntaxTree,
    i: int,
    func: int,
    args: int,
    operand: int,
    cx: Facts<'_>,
    st: Map<Text, Info>,
)
    requires
        is_plain_call(t, i, func, args, cx),
        t.kind(func) == "selector_expression"@,
        t.field(func, "operand"@) == Some(operand),
        taint_of(t, operand, cx, st) is Some,
    ensures
        taint_of(t, i, cx, st) is Some,
{
    lemma_go_kinds();
    assert(call_taint_of(t, i, cx, st) is Some);
}

/// A call of a function of another file is tainted where that function passes one of its
/// parameters on to what it returns and the argument in that place is tainted.
pub proof fn a_helper_of_another_file_passes_its_argument_on(
    t: &SyntaxTree,
    i: int,
    func: int,
    args: int,
    p: int,
    cx: Facts<'_>,
    st: Map<Text, Info>,
)
    requires
        is_plain_call(t, i, func, args, cx),
        t.kind(func) == "identifier"@,
        !cx.summaries.contains_key(
            summary_key(t.text(func, cx.src), t.named_children(args).len() as int),
        ),
        cx.cross matches Some(others) && others.summary(t.text(func, cx.src)) matches Some(s)
            && s.params_to_return.contains(p),
        0 <= p < t.named_children(args).len(),
        taint_of(t, t.named_children(args)[p], cx, st) is Some,
    ensures
        taint_of(t, i, cx, st) is Some,
{
    lemma_go_kinds();
    let s = cx.cross->0.summary(t.text(func, cx.src))->0;
    lemma_params_reached(t, args, s.params_to_return, 0, p, cx, st);
    assert(call_taint_of(t, i, cx, st) is Some);
}

// ─── Assignments ─────────────────────────────────────────────────────────────
proof fn lemma_assign_each(
    t: &SyntaxTree,
    names: Seq<Text>,
    exprs: Seq<int>,
    from: int,
    k: int,
    cx: Facts<'_>,
    st: Map<Text, Info>,
    now: Map<Text, Info>,
)
    requires
        0 <= k < names.len(),
        0 <= from <= names.len(),
        forall|j: int| k < j < names.len() ==> #[trigger] names[j] != names[k],
        from > k ==> lookup(now, names[k]) == value_of(t, exprs[k], cx, st),
    ensures
        lookup(assign_each(t, names, exprs, from, cx, st, now), names[k]) == value_of(
            t,
            exprs[k],
            cx,
            st,
        ),
    decreases names.len() - from,
{
    if from < names.len() {
        let next = assigned(now, names[from], value_of(t, exprs[from], cx, st));
        lemma_assign_each(t, names, exprs, from + 1, k, cx, st, next);
    }
}

/// Where as many expressions as names are assigned, a name is tainted afterwards exactly
/// where the last expression that it is given is, and with the same source.
pub proof fn paired_names_take_the_taint_of_their_expressions(
    t: &SyntaxTree,
    names: Seq<Text>,
    exprs: Seq<int>,
    k: int,
    cx: Facts<'_>,
    st: Map<Text, Info>,
)
    requires
        names.len() == exprs.len(),
        0 <= k < names.len(),
        forall|j: int| k < j < names.len() ==> #[trigger] names[j] != names[k],
    ensures
        ({
            let now = assign_lists(t, names, exprs, cx, st);
            match taint_of(t, exprs[k], cx, st) {
                Some(x) => now.contains_key(names[k]) && now[names[k]].description == x.0
                    && now[names[k]].line == x.1,
                None => !now.contains_key(names[k]),
            }
        }),
{
    lemma_assign_each(t, names, exprs, 0, k, cx, st, st);
}

proof fn lemma_first_value(
    t: &SyntaxTree,
    exprs: Seq<int>,
    from: int,
    k: int,
    cx: Facts<'_>,
    st: Map<Text, Info>,
)
    requires
        0 <= from <= k < exprs.len(),
        taint_of(t, exprs[k], cx, st) is Some,
    ensures
        first_value(t, exprs, from, cx, st) is Some,
    decreases exprs.len() - from,
{
    if value_of(t, exprs[from], cx, st) is None {
        lemma_first_value(t, exprs, from + 1, k, cx, st);
    }
}

/// Where the numbers of names and expressions differ, every name is tainted if any
/// expression is.
pub proof fn unpaired_names_are_all_tainted(
    t: &SyntaxTree,
    names: Seq<Text>,
    exprs: Seq<int>,
    n: int,
    k: int,
    cx: Facts<'_>,
    st: Map<Text, Info>,
)
    requires
        names.len() != exprs.len(),
        0 <= n < names.len(),
        0 <= k < exprs.len(),
        taint_of(t, exprs[k], cx, st) is Some,
    ensures
        assign_lists(t, names, exprs, cx, st).contains_key(names[n]),
{
    lemma_first_value(t, exprs, 0, k, cx, st);
    crate::go_laws::uneven_assignment_treats_names_alike(t, names, exprs, n, cx, st);
}

proof fn lemma_sole_sibling(t: &SyntaxTree, i: int, k: int, src: Text)
    requires
        t.children(i) == seq![k],
        t.kind(k) == "identifier"@,
    ensures
        identifiers_in(t, i, src) == seq![t.text(k, src)],
{
    let e = t.after(i);
    let c = i + 1;
    assert(t.children(i).len() == 1);
    if c < e {
        let rest = t.siblings(t.after(c), e);
        assert(t.children(i) == seq![c] + rest);
        assert(t.children(i)[0] == c);
        assert(rest.len() == 0);
        if t.after(c) < e {
            assert(rest[0] == t.after(c));
        }
        assert(identifiers_from(t, t.after(c), e, src) =~= Seq::<Text>::empty());
        assert(identifiers_in(t, i, src) =~= seq![t.text(k, src)]);
    }
}

/// A variable that is set to an expression, by `=`, `:=` or `var`, is tainted afterwards
/// exactly where the expression is.
pub proof fn a_variable_takes_the_taint_of_its_value(
    t: &SyntaxTree,
    i: int,
    left: int,
    name: int,
    right: int,
    value: int,
    cx: Facts<'_>,
    st: Map<Text, Info>,
)
    requires
        t.kind(i) == "short_var_declaration"@ || t.kind(i) == "assignment_statement"@,
        t.field(i, "left"@) == Some(left),
        t.field(i, "right"@) == Some(right),
        t.kind(left) == "expression_list"@,
        t.kind(right) == "expression_list"@,
        t.children(left) == seq![name],
        t.kind(name) == "identifier"@,
        t.named_children(right) == seq![value],
    ensures
        state_after(t, i, cx, st).contains_key(t.text(name, cx.src)) <==> taint_of(
            t,
            value,
            cx,
            st,
        ) is Some,
{
    lemma_go_kinds();
    lemma_sole_sibling(t, left, name, cx.src);
    let names = seq![t.text(name, cx.src)];
    let exprs = seq![value];
    paired_names_take_the_taint_of_their_expressions(t, names, exprs, 0, cx, st);
    assert(names[0] == t.text(name, cx.src) && exprs[0] == value);
}

proof fn lemma_assign_keeps(
    t: &SyntaxTree,
    names: Seq<Text>,
    exprs: Seq<int>,
    from: int,
    x: Text,
    value: Option<Info>,
    cx: Facts<'_>,
    st: Map<Text, Info>,
    now: Map<Text, Info>,
)
    requires
        0 <= from,
        !names.contains(x),
    ensures
        lookup(assign_each(t, names, exprs, from, cx, st, now), x) == lookup(now, x),
        lookup(assign_all(names, from, value, now), x) == lookup(now, x),
    decreases names.len() - from,
{
    if from < names.len() {
        assert(names.contains(names[from]));
        let next = assigned(now, names[from], value_of(t, exprs[from], cx, st));
        lemma_assign_keeps(t, names, exprs, from + 1, x, value, cx, st, next);
        let same = assigned(now, names[from], value);
        lemma_assign_keeps(t, names, exprs, from + 1, x, value, cx, st, same);
    }
}

/// An assignment changes nothing that is known of a variable that it does not name.
pub proof fn an_assignment_leaves_other_variables_alone(
    t: &SyntaxTree,
    i: int,
    left: int,
    x: Text,
    cx: Facts<'_>,
    st: Map<Text, Info>,
)
    requires
        t.kind(i) == "short_var_declaration"@ || t.kind(i) == "assignment_statement"@,
        t.field(i, "left"@) == Some(left),
        !identifiers_in(t, left, cx.src).contains(x),
    ensures
        lookup(state_after(t, i, cx, st), x) == lookup(st, x),
{
    let names = identifiers_in(t, left, cx.src);
    if t.field(i, "right"@) is Some {
        let right = t.field(i, "right"@)->0;
        let exprs = if t.kind(right) == "expression_list"@ {
            t.named_children(right)
        } else {
            seq![right]
        };
        lemma_assign_keeps(t, names, exprs, 0, x, first_value(t, exprs, 0, cx, st), cx, st, st);
    }
}

/// A node that neither assigns nor declares leaves all variables as they are.
pub proof fn other_nodes_change_no_variable(t: &SyntaxTree, i: int, cx: Facts<'_>, st: Map<Text, Info>)
    requires
        t.kind(i) != "short_var_declaration"@,
        t.kind(i) != "assignment_statement"@,
        t.kind(i) != "var_spec"@,
    ensures
        state_after(t, i, cx, st) == st,
{
}

// ─── Sinks ───────────────────────────────────────────────────────────────────
proof fn lemma_reaching(
    t: &SyntaxTree,
    i: int,
    c: int,
    k: int,
    cx: Facts<'_>,
    st: Map<Text, Info>,
)
    requires
        t.wf(),
        is_child(t, i, k),
        t.named(k),
        i < c <= k,
        taint_of(t, k, cx, st) is Some,
        cx.policy is None || labels_suffice(t, k, cx, st),
    ensures
        reaching(t, c, t.after(i), cx, st) is Some,
    decreases gap(c, t.after(i)),
{
    a_child_comes_after_its_elders(t, i, c, k);
    if c < k {
        lemma_reaching(t, i, t.after(c), k, cx, st);
    }
}

proof fn lemma_reaching_is_an_argument(
    t: &SyntaxTree,
    c: int,
    e: int,
    cx: Facts<'_>,
    st: Map<Text, Info>,
)
    requires
        reaching(t, c, e, cx, st) is Some,
    ensures
        exists|k: int| c <= k < e && #[trigger] taint_of(t, k, cx, st) == reaching(t, c, e, cx, st),
    decreases gap(c, e),
{
    if c < e && !(t.named(c) && taint_of(t, c, cx, st) is Some
        && labels_suffice(t, c, cx, st)) {
        lemma_reaching_is_an_argument(t, t.after(c), e, cx, st);
    }
}

proof fn lemma_sink_listed(sinks: Seq<Matcher>, from: int, k: int, callee: Text)
    requires
        0 <= from <= k < sinks.len(),
        crate::go_taint::call_sink_hits(sinks[k], callee),
    ensures
        call_sink(sinks, from, callee) is Some,
    decreases sinks.len() - from,
{
    if !crate::go_taint::call_sink_hits(sinks[from], callee) {
        lemma_sink_listed(sinks, from + 1, k, callee);
    }
}

proof fn lemma_sink_flow(
    groups: Seq<(Option<Text>, Seq<Matcher>)>,
    from: int,
    g: int,
    callee: Text,
    t: &SyntaxTree,
    i: int,
    taint: crate::go_taint::Taint,
)
    requires
        0 <= from <= g < groups.len(),
        call_sink(groups[g].1, 0, callee) is Some,
    ensures
        exists|n: int|
            #![trigger call_sink_flows(groups, from, callee, t, i, taint)[n]]
            {
                let flows = call_sink_flows(groups, from, callee, t, i, taint);
                0 <= n < flows.len() && is_flow_of(flows[n], t, i, taint, groups[g].0)
            },
    decreases groups.len() - from,
{
    let flows = call_sink_flows(groups, from, callee, t, i, taint);
    if from == g {
        assert(is_flow_of(flows[0], t, i, taint, groups[g].0));
    } else {
        lemma_sink_flow(groups, from + 1, g, callee, t, i, taint);
        let rest = call_sink_flows(groups, from + 1, callee, t, i, taint);
        let n = choose|n: int|
            #![trigger rest[n]]
            0 <= n < rest.len() && is_flow_of(rest[n], t, i, taint, groups[g].0);
        let m = n + (flows.len() - rest.len());
        assert(flows[m] == rest[n]);
    }
}

/// Whether a flow is one from the source of `taint` into node `i`, for the rule `rule`.
pub open spec fn is_flow_of(
    f: Flow,
    t: &SyntaxTree,
    i: int,
    taint: crate::go_taint::Taint,
    rule: Option<Text>,
) -> bool {
    &&& f.sink_start_byte == t.nodes@[i].start_byte
    &&& f.sink_end_byte == t.nodes@[i].end_byte
    &&& f.sink_line == t.line(i)
    &&& f.source_description == taint.0
    &&& f.source_line == taint.1
    &&& f.rule_id_hint == rule
}

/// Whether a sink of Go is for calls of `callee`: by its whole name, or by the name of the
/// method behind a receiver.
pub open spec fn is_sink_for(m: Matcher, callee: Text) -> bool {
    match m {
        Matcher::Call { canonical, .. } => canonical == callee,
        Matcher::MethodName { method, .. } => !method.contains('.') && (callee == method || exists|
            receiver: Text,
        |
            callee == #[trigger] (receiver + seq!['.']) + method),
        _ => false,
    }
}

/// A call of a sink is reported, for each rule that has the sink, wherever any of its
/// arguments is tainted and carries the labels that are asked for, and with the source of one
/// of its arguments.
pub proof fn a_tainted_argument_of_a_sink_is_reported(
    t: &SyntaxTree,
    i: int,
    func: int,
    args: int,
    k: int,
    g: int,
    j: int,
    cx: Facts<'_>,
    st: Map<Text, Info>,
)
    requires
        t.wf(),
        0 <= i < t.len(),
        cx.policy is None || labels_suffice(t, k, cx, st),
        t.kind(i) == "call_expression"@,
        t.field(i, "function"@) == Some(func),
        t.field(i, "arguments"@) == Some(args),
        is_child(t, args, k),
        t.named(k),
        taint_of(t, k, cx, st) is Some,
        0 <= g < cx.groups.len(),
        0 <= j < cx.groups[g].1.len(),
        is_sink_for(cx.groups[g].1[j], resolved_in(cx.aliases, t.text(func, cx.src))),
    ensures
        exists|n: int, a: int|
            #![trigger flows_at(t, i, cx, st)[n], taint_of(t, a, cx, st)]
            0 <= n < flows_at(t, i, cx, st).len() && args < a < t.after(args) && taint_of(
                t,
                a,
                cx,
                st,
            ) is Some && is_flow_of(
                flows_at(t, i, cx, st)[n],
                t,
                i,
                taint_of(t, a, cx, st)->0,
                cx.groups[g].0,
            ),
{
    let callee = resolved_in(cx.aliases, t.text(func, cx.src));
    a_child_comes_after_its_elders(t, args, args, k);
    lemma_reaching(t, args, args + 1, k, cx, st);
    let m = cx.groups[g].1[j];
    if let Matcher::MethodName { method, .. } = m {
        if callee != method {
            let receiver = choose|receiver: Text| callee == #[trigger] (receiver + seq!['.'])
                + method;
            assert(receiver + seq!['.'] + method =~= (receiver + seq!['.']) + method);
            segments_stand_at_the_ends(receiver, method, '.');
        } else {
            segments_stand_at_the_ends(method, method, '.');
        }
        assert(last_segment(callee, '.') == method);
    }
    lemma_sink_listed(cx.groups[g].1, 0, j, callee);
    let taint = reaching(t, args + 1, t.after(args), cx, st)->0;
    lemma_reaching_is_an_argument(t, args + 1, t.after(args), cx, st);
    let a = choose|a: int|
        args + 1 <= a < t.after(args) && #[trigger] taint_of(t, a, cx, st) == Some(taint);
    lemma_sink_flow(cx.groups, 0, g, callee, t, i, taint);
    assert(flows_at(t, i, cx, st) == call_sink_flows(cx.groups, 0, callee, t, i, taint));
    let flows = flows_at(t, i, cx, st);
    let n = choose|n: int|
        #![trigger flows[n]]
        0 <= n < flows.len() && is_flow_of(flows[n], t, i, taint, cx.groups[g].0);
    assert(is_flow_of(flows[n], t, i, taint_of(t, a, cx, st)->0, cx.groups[g].0));
}

/// A call none of whose arguments is tainted is not reported.
pub proof fn a_call_with_clean_arguments_is_not_reported(
    t: &SyntaxTree,
    i: int,
    func: int,
    args: int,
    cx: Facts<'_>,
    st: Map<Text, Info>,
)
    requires
        t.kind(i) == "call_expression"@,
        t.field(i, "function"@) == Some(func),
        t.field(i, "arguments"@) == Some(args),
        cx.cross is None,
        forall|k: int| args < k < t.after(args) ==> #[trigger] taint_of(t, k, cx, st) is None,
    ensures
        flows_at(t, i, cx, st) == Seq::<Flow>::empty(),
{
    if reaching(t, args + 1, t.after(args), cx, st) is Some {
        lemma_reaching_is_an_argument(t, args + 1, t.after(args), cx, st);
    }
}

// ─── Functions and files ─────────────────────────────────────────────────────
/// Whether node `n` is read with the body at node `b`, not within a closure.
pub open spec fn is_read_with(t: &SyntaxTree, b: int, n: int) -> bool {
    &&& b <= n < t.after(b)
    &&& forall|m: int|
        #![trigger t.kind(m)]
        b <= m <= n && t.kind(m) == "func_literal"@ ==> t.after(m) <= n
}

/// The state in which node `n` is read, where the nodes from `c` on are read from the state
/// `st` on.
pub open spec fn state_at(
    t: &SyntaxTree,
    c: int,
    n: int,
    cx: Facts<'_>,
    st: Map<Text, Info>,
) -> Map<Text, Info>
    decreases gap(c, n),
{
    if c >= n {
        st
    } else if t.kind(c) == "func_literal"@ {
        state_at(t, t.after(c), n, cx, st)
    } else {
        state_at(t, c + 1, n, cx, state_after(t, c, cx, st))
    }
}

proof fn lemma_scope_flow(
    t: &SyntaxTree,
    c: int,
    e: int,
    n: int,
    cx: Facts<'_>,
    st: Map<Text, Info>,
    f: Flow,
)
    requires
        c <= n < e,
        forall|m: int|
            #![trigger t.kind(m)]
            c <= m <= n && t.kind(m) == "func_literal"@ ==> t.after(m) <= n,
        flows_at(t, n, cx, state_at(t, c, n, cx, st)).contains(f),
    ensures
        scope_flows(t, c, e, cx, st).contains(f),
    decreases gap(c, e),
{
    if t.kind(c) == "func_literal"@ {
        lemma_scope_flow(t, t.after(c), e, n, cx, st, f);
    } else {
        let here = flows_at(t, c, cx, st);
        let rest = scope_flows(t, c + 1, e, cx, state_after(t, c, cx, st));
        let all = scope_flows(t, c, e, cx, st);
        if c == n {
            let k = choose|k: int| 0 <= k < here.len() && here[k] == f;
            assert(all[k] == f);
        } else {
            lemma_scope_flow(t, c + 1, e, n, cx, state_after(t, c, cx, st), f);
            let k = choose|k: int| 0 <= k < rest.len() && rest[k] == f;
            assert(all[here.len() + k] == f);
        }
    }
}

/// Every flow that a node of a function makes, in the state in which the node is read, is a
/// flow of the function.
pub proof fn a_function_reports_the_flows_of_its_nodes(
    t: &SyntaxTree,
    fun: int,
    b: int,
    n: int,
    cx: Facts<'_>,
    f: Flow,
)
    requires
        t.field(fun, "body"@) == Some(b),
        is_read_with(t, b, n),
        flows_at(t, n, cx, state_at(t, b, n, cx, entry_state(t, fun, cx))).contains(f),
    ensures
        function_flows(t, fun, cx).contains(f),
{
    lemma_scope_flow(t, b, t.after(b), n, cx, entry_state(t, fun, cx), f);
}

proof fn lemma_file_flow(t: &SyntaxTree, c: int, e: int, fun: int, cx: Facts<'_>, f: Flow)
    requires
        c <= fun < e,
        crate::go_taint::is_function(t, fun),
        function_flows(t, fun, cx).contains(f),
    ensures
        flows_from(t, c, e, cx).contains(f),
    decreases gap(c, e),
{
    let rest = flows_from(t, c + 1, e, cx);
    let all = flows_from(t, c, e, cx);
    if crate::go_taint::is_function(t, c) {
        let here = function_flows(t, c, cx);
        if c == fun {
            let k = choose|k: int| 0 <= k < here.len() && here[k] == f;
            assert(all[k] == f);
        } else {
            lemma_file_flow(t, c + 1, e, fun, cx, f);
            let k = choose|k: int| 0 <= k < rest.len() && rest[k] == f;
            assert(all[here.len() + k] == f);
        }
    } else {
        lemma_file_flow(t, c + 1, e, fun, cx, f);
    }
}

/// Every flow of a function, a method or a closure of a file is a flow of the file, where
/// the functions of the file know each other's summaries.
pub proof fn a_file_reports_the_flows_of_its_functions(
    t: &SyntaxTree,
    root: int,
    fun: int,
    cx: Facts<'_>,
    f: Flow,
)
    requires
        root <= fun < t.after(root),
        t.kind(fun) == "function_declaration"@ || t.kind(fun) == "method_declaration"@ || t.kind(
            fun,
        ) == "func_literal"@,
        function_flows(
            t,
            fun,
            (Facts { summaries: file_summaries(t, root, first_pass(cx)), ..cx }),
        ).contains(f),
    ensures
        file_flows(t, root, cx).contains(f),
{
    let known = Facts { summaries: file_summaries(t, root, first_pass(cx)), ..cx };
    lemma_file_flow(t, root, t.after(root), fun, known, f);
}

// ─── Helpers that return what they are given ─────────────────────────────────
proof fn lemma_summary_kept(
    t: &SyntaxTree,
    c: int,
    e: int,
    h: int,
    key: Text,
    cx: Facts<'_>,
    known: Map<Text, ReturnFacts>,
)
    requires
        c <= h < e || h < c && known.contains_key(key) && known[key] == return_facts(t, h, cx),
        crate::go_taint::is_function(t, h),
        t.field(h, "name"@) is Some,
        key == summary_key(
            t.field_text(h, "name"@, cx.src)->0,
            param_names(t, h, cx.src).len() as int,
        ),
        forall|m: int|
            #![trigger t.field_text(m, "name"@, cx.src)]
            h < m < e && crate::go_taint::is_function(t, m) ==> match t.field_text(
                m,
                "name"@,
                cx.src,
            ) {
                Some(name) => summary_key(name, param_names(t, m, cx.src).len() as int) != key,
                None => true,
            },
    ensures
        summaries_from(t, c, e, cx, known).contains_key(key),
        summaries_from(t, c, e, cx, known)[key] == return_facts(t, h, cx),
    decreases gap(c, e),
{
    if c < e {
        let next = match t.field_text(c, "name"@, cx.src) {
            Some(name) => if crate::go_taint::is_function(t, c) {
                known.insert(
                    summary_key(name, param_names(t, c, cx.src).len() as int),
                    return_facts(t, c, cx),
                )
            } else {
                known
            },
            None => known,
        };
        lemma_summary_kept(t, c + 1, e, h, key, cx, next);
    }
}

proof fn lemma_scope_return(
    t: &SyntaxTree,
    c: int,
    e: int,
    n: int,
    cx: Facts<'_>,
    st: Map<Text, Info>,
)
    requires
        c <= n < e,
        forall|m: int|
            #![trigger t.kind(m)]
            c <= m <= n && t.kind(m) == "func_literal"@ ==> t.after(m) <= n,
        t.kind(n) == "return_statement"@,
        returned_taint(t, n + 1, t.after(n), cx, state_at(t, c, n, cx, st)) is Some,
    ensures
        scope_return(t, c, e, cx, st) is Some,
    decreases gap(c, e),
{
    lemma_go_kinds();
    if t.kind(c) == "func_literal"@ {
        lemma_scope_return(t, t.after(c), e, n, cx, st);
    } else if c < n {
        lemma_scope_return(t, c + 1, e, n, cx, state_after(t, c, cx, st));
    } else {
        other_nodes_change_no_variable(t, c, cx, st);
    }
}

proof fn lemma_returned(
    t: &SyntaxTree,
    n: int,
    c: int,
    l: int,
    k: int,
    cx: Facts<'_>,
    st: Map<Text, Info>,
)
    requires
        t.wf(),
        is_child(t, n, l),
        t.named(l),
        n < c <= l,
        taint_of(t, k, cx, st) is Some,
        (t.kind(l) != "expression_list"@ && k == l) || (t.kind(l) == "expression_list"@ && is_child(
            t,
            l,
            k,
        ) && t.named(k)),
    ensures
        returned_taint(t, c, t.after(n), cx, st) is Some,
    decreases gap(c, t.after(n)),
{
    a_child_comes_after_its_elders(t, n, c, l);
    if c == l {
        if k != l {
            a_child_comes_after_its_elders(t, l, l, k);
            lemma_named_part(t, l, l + 1, k, cx, st);
        }
    } else {
        lemma_returned(t, n, t.after(c), l, k, cx, st);
    }
}

/// A function returns a source where one of its `return` statements gives back a tainted
/// expression, by itself or in a list.
pub proof fn a_function_returns_what_its_return_gives_back(
    t: &SyntaxTree,
    fun: int,
    b: int,
    n: int,
    l: int,
    k: int,
    cx: Facts<'_>,
)
    requires
        t.wf(),
        t.field(fun, "body"@) == Some(b),
        is_read_with(t, b, n),
        t.kind(n) == "return_statement"@,
        is_child(t, n, l),
        t.named(l),
        (t.kind(l) != "expression_list"@ && k == l) || (t.kind(l) == "expression_list"@ && is_child(
            t,
            l,
            k,
        ) && t.named(k)),
        taint_of(t, k, cx, state_at(t, b, n, cx, entry_state(t, fun, cx))) is Some,
    ensures
        function_return(t, fun, cx) is Some,
{
    a_child_comes_after_its_elders(t, n, n, l);
    lemma_returned(t, n, n + 1, l, k, cx, state_at(t, b, n, cx, entry_state(t, fun, cx)));
    lemma_scope_return(t, b, t.after(b), n, cx, entry_state(t, fun, cx));
}

proof fn lemma_returning(
    t: &SyntaxTree,
    f: int,
    names: Seq<Text>,
    from: int,
    p: int,
    cx: Facts<'_>,
)
    requires
        0 <= from,
    ensures
        returning_params(t, f, names, from, cx).contains(p) <==> from <= p < names.len()
            && function_return(t, f, with_parameter(cx, names[p])) is Some,
    decreases names.len() - from,
{
    if from < names.len() {
        let rest = returning_params(t, f, names, from + 1, cx);
        let all = returning_params(t, f, names, from, cx);
        lemma_returning(t, f, names, from + 1, p, cx);
        if function_return(t, f, with_parameter(cx, names[from])) is Some {
            assert(all == seq![from] + rest);
            if rest.contains(p) {
                let j = choose|j: int| 0 <= j < rest.len() && rest[j] == p;
                assert(all[j + 1] == p);
            }
            if all.contains(p) {
                let j = choose|j: int| 0 <= j < all.len() && all[j] == p;
                if j > 0 {
                    assert(rest[j - 1] == p);
                }
            }
            assert(all[0] == from);
        }
    }
}

/// A parameter is said to reach what a function returns exactly where the function returns a
/// source when that parameter is the only one.
pub proof fn a_parameter_is_returned_where_it_taints_the_return(
    t: &SyntaxTree,
    fun: int,
    p: int,
    cx: Facts<'_>,
)
    ensures
        return_facts(t, fun, cx).params_to_return.contains(p) <==> 0 <= p < param_names(
            t,
            fun,
            cx.src,
        ).len() && function_return(
            t,
            fun,
            with_parameter(cx, param_names(t, fun, cx.src)[p]),
        ) is Some,
{
    lemma_returning(t, fun, param_names(t, fun, cx.src), 0, p, cx);
}

proof fn lemma_seeded_by_name(
    t: &SyntaxTree,
    c: int,
    e: int,
    x: Text,
    cx: Facts<'_>,
    st: Map<Text, Info>,
)
    requires
        param_source(cx.sources, 0, x) is Some,
    ensures
        identifiers_from(t, c, e, cx.src).contains(x) || st.contains_key(x) ==> seed_by_name(
            t,
            c,
            e,
            cx,
            st,
        ).contains_key(x),
    decreases gap(c, e),
{
    if c < e {
        let name = t.text(c, cx.src);
        let next = if t.kind(c) == "identifier"@ && param_source(cx.sources, 0, name) is Some {
            st.insert(name, crate::go_taint::fresh(
                t,
                c,
                param_source(cx.sources, 0, name)->0,
                cx,
            ))
        } else {
            st
        };
        lemma_seeded_by_name(t, t.after(c), e, x, cx, next);
        let rest = identifiers_from(t, t.after(c), e, cx.src);
        let all = identifiers_from(t, c, e, cx.src);
        if all.contains(x) && !rest.contains(x) {
            let j = choose|j: int| 0 <= j < all.len() && all[j] == x;
            if t.kind(c) == "identifier"@ && j > 0 {
                assert(rest[j - 1] == x);
            }
        }
    }
}

proof fn lemma_seeded(t: &SyntaxTree, c: int, e: int, x: Text, cx: Facts<'_>, st: Map<Text, Info>)
    requires
        param_source(cx.sources, 0, x) is Some,
        forall|ty: Text| (#[trigger] typed_source(cx.sources, 0, ty)) is None,
    ensures
        param_names_from(t, c, e, cx.src).contains(x) || st.contains_key(x) ==> seed_params(
            t,
            c,
            e,
            cx,
            st,
        ).contains_key(x),
    decreases gap(c, e),
{
    if c < e {
        if crate::go_taint::declares_params(t, c) {
            let next = seed_by_name(t, c + 1, t.after(c), cx, st);
            lemma_seeded_by_name(t, c + 1, t.after(c), x, cx, st);
            lemma_seeded(t, t.after(c), e, x, cx, next);
            let here = identifiers_in(t, c, cx.src);
            let rest = param_names_from(t, t.after(c), e, cx.src);
            let all = param_names_from(t, c, e, cx.src);
            if all.contains(x) && !rest.contains(x) {
                let j = choose|j: int| 0 <= j < all.len() && all[j] == x;
                if j < here.len() {
                    assert(here[j] == x);
                } else {
                    assert(rest[j - here.len()] == x);
                }
            }
        } else {
            lemma_seeded(t, t.after(c), e, x, cx, st);
        }
    }
}

/// A parameter that is looked at alone is tainted when its function is entered.
pub proof fn a_parameter_looked_at_is_tainted(t: &SyntaxTree, fun: int, p: int, cx: Facts<'_>)
    requires
        0 <= p < param_names(t, fun, cx.src).len(),
    ensures
        entry_state(t, fun, with_parameter(cx, param_names(t, fun, cx.src)[p])).contains_key(
            param_names(t, fun, cx.src)[p],
        ),
{
    let x = param_names(t, fun, cx.src)[p];
    let looked = with_parameter(cx, x);
    let m = parameter_source(x)[0];
    assert(m->names[0] == x);
    assert(m->names.contains(x));
    assert(param_source(looked.sources, 0, x) is Some);
    assert forall|ty: Text| (#[trigger] typed_source(looked.sources, 0, ty)) is None by {
        assert(typed_source(looked.sources, 1, ty) is None);
    }
    if let Some(l) = t.field(fun, "parameters"@) {
        assert(param_names(t, fun, cx.src).contains(x));
        lemma_seeded(t, l + 1, t.after(l), x, looked, Map::empty());
    }
}

proof fn lemma_untouched(
    t: &SyntaxTree,
    c: int,
    n: int,
    cx: Facts<'_>,
    st: Map<Text, Info>,
)
    requires
        forall|m: int|
            #![trigger t.kind(m)]
            c <= m < n ==> t.kind(m) != "short_var_declaration"@ && t.kind(m)
                != "assignment_statement"@ && t.kind(m) != "var_spec"@,
    ensures
        state_at(t, c, n, cx, st) == st,
    decreases gap(c, n),
{
    if c < n {
        if t.kind(c) == "func_literal"@ {
            lemma_untouched(t, t.after(c), n, cx, st);
        } else {
            other_nodes_change_no_variable(t, c, cx, st);
            lemma_untouched(t, c + 1, n, cx, st);
        }
    }
}

/// Whether the function at node `h` returns its parameter at position `p` as it is, by the
/// expression at node `k` of the `return` at node `n` of its body `b`, where nothing is
/// assigned before.
pub open spec fn returns_its_parameter(
    t: &SyntaxTree,
    h: int,
    b: int,
    n: int,
    l: int,
    k: int,
    p: int,
    src: Text,
) -> bool {
    &&& t.kind(h) == "function_declaration"@
    &&& t.field(h, "body"@) == Some(b)
    &&& is_read_with(t, b, n)
    &&& t.kind(n) == "return_statement"@
    &&& is_child(t, n, l)
    &&& t.named(l)
    &&& t.kind(l) == "expression_list"@
    &&& is_child(t, l, k)
    &&& t.named(k)
    &&& t.kind(k) == "identifier"@
    &&& 0 <= p < param_names(t, h, src).len()
    &&& t.text(k, src) == param_names(t, h, src)[p]
    &&& forall|m: int|
        #![trigger t.kind(m)]
        b <= m < n ==> t.kind(m) != "short_var_declaration"@ && t.kind(m) != "assignment_statement"@
            && t.kind(m) != "var_spec"@
}

/// Whether the function at node `h` is the last in the file at node `root` with its name and
/// its number of parameters.
pub open spec fn is_last_of_its_name(t: &SyntaxTree, root: int, h: int, src: Text) -> bool {
    &&& root <= h < t.after(root)
    &&& t.field(h, "name"@) is Some
    &&& forall|m: int|
        #![trigger t.field_text(m, "name"@, src)]
        h < m < t.after(root) && crate::go_taint::is_function(t, m) ==> match t.field_text(
            m,
            "name"@,
            src,
        ) {
            Some(name) => summary_key(name, param_names(t, m, src).len() as int) != summary_key(
                t.field_text(h, "name"@, src)->0,
                param_names(t, h, src).len() as int,
            ),
            None => true,
        }
}

/// In a file with a helper that returns one of its parameters, a call of the helper is
/// tainted wherever its argument in that place is.
pub proof fn taint_passes_through_a_helper_of_the_file(
    t: &SyntaxTree,
    root: int,
    h: int,
    b: int,
    n: int,
    l: int,
    k: int,
    p: int,
    i: int,
    func: int,
    args: int,
    cx: Facts<'_>,
    st: Map<Text, Info>,
)
    requires
        t.wf(),
        is_last_of_its_name(t, root, h, cx.src),
        returns_its_parameter(t, h, b, n, l, k, p, cx.src),
        is_plain_call(t, i, func, args, cx),
        t.kind(func) == "identifier"@,
        Some(t.text(func, cx.src)) == t.field_text(h, "name"@, cx.src),
        t.named_children(args).len() == param_names(t, h, cx.src).len(),
        taint_of(
            t,
            t.named_children(args)[p],
            (Facts { summaries: file_summaries(t, root, first_pass(cx)), ..cx }),
            st,
        ) is Some,
    ensures
        taint_of(
            t,
            i,
            (Facts { summaries: file_summaries(t, root, first_pass(cx)), ..cx }),
            st,
        ) is Some,
{
    let first = first_pass(cx);
    let known = Facts { summaries: file_summaries(t, root, first), ..cx };
    let key = summary_key(
        t.field_text(h, "name"@, cx.src)->0,
        param_names(t, h, cx.src).len() as int,
    );
    let x = param_names(t, h, cx.src)[p];
    let looked = with_parameter(first, x);
    a_parameter_looked_at_is_tainted(t, h, p, first);
    lemma_untouched(t, b, n, looked, entry_state(t, h, looked));
    a_tainted_variable_is_tainted(t, k, looked, entry_state(t, h, looked));
    a_function_returns_what_its_return_gives_back(t, h, b, n, l, k, looked);
    a_parameter_is_returned_where_it_taints_the_return(t, h, p, first);
    lemma_summary_kept(t, root, t.after(root), h, key, first, Map::empty());
    a_helper_passes_its_argument_on(t, i, func, args, p, known, st);
}

/// In a file with a helper that returns one of its parameters, a flow is reported where a
/// tainted value is passed through the helper into a sink.
pub proof fn a_flow_through_a_helper_is_reported(
    t: &SyntaxTree,
    root: int,
    h: int,
    b: int,
    n: int,
    l: int,
    k: int,
    p: int,
    i: int,
    func: int,
    args: int,
    fun: int,
    body: int,
    s: int,
    sink_func: int,
    sink_args: int,
    g: int,
    j: int,
    cx: Facts<'_>,
)
    requires
        t.wf(),
        cx.policy is None,
        is_last_of_its_name(t, root, h, cx.src),
        returns_its_parameter(t, h, b, n, l, k, p, cx.src),
        is_plain_call(t, i, func, args, cx),
        t.kind(func) == "identifier"@,
        Some(t.text(func, cx.src)) == t.field_text(h, "name"@, cx.src),
        t.named_children(args).len() == param_names(t, h, cx.src).len(),
        root <= fun < t.after(root),
        t.kind(fun) == "function_declaration"@ || t.kind(fun) == "method_declaration"@ || t.kind(
            fun,
        ) == "func_literal"@,
        t.field(fun, "body"@) == Some(body),
        is_read_with(t, body, s),
        0 <= s < t.len(),
        t.kind(s) == "call_expression"@,
        t.field(s, "function"@) == Some(sink_func),
        t.field(s, "arguments"@) == Some(sink_args),
        is_child(t, sink_args, i),
        t.named(i),
        0 <= g < cx.groups.len(),
        0 <= j < cx.groups[g].1.len(),
        is_sink_for(cx.groups[g].1[j], resolved_in(cx.aliases, t.text(sink_func, cx.src))),
        ({
            let known = Facts { summaries: file_summaries(t, root, first_pass(cx)), ..cx };
            taint_of(
                t,
                t.named_children(args)[p],
                known,
                state_at(t, body, s, known, entry_state(t, fun, known)),
            ) is Some
        }),
    ensures
        exists|f: Flow| #[trigger]
            file_flows(t, root, cx).contains(f) && f.sink_line == t.line(s) && f.rule_id_hint
                == cx.groups[g].0,
{
    let known = Facts { summaries: file_summaries(t, root, first_pass(cx)), ..cx };
    let st = state_at(t, body, s, known, entry_state(t, fun, known));
    taint_passes_through_a_helper_of_the_file(
        t,
        root,
        h,
        b,
        n,
        l,
        k,
        p,
        i,
        func,
        args,
        cx,
        st,
    );
    a_tainted_argument_of_a_sink_is_reported(t, s, sink_func, sink_args, i, g, j, known, st);
    let flows = flows_at(t, s, known, st);
    let (m, a) = choose|m: int, a: int|
        #![trigger flows[m], taint_of(t, a, known, st)]
        0 <= m < flows.len() && sink_args < a < t.after(sink_args) && taint_of(
            t,
            a,
            known,
            st,
        ) is Some && is_flow_of(flows[m], t, s, taint_of(t, a, known, st)->0, cx.groups[g].0);
    let f = flows[m];
    assert(flows.contains(f));
    a_function_reports_the_flows_of_its_nodes(t, fun, body, s, known, f);
    a_file_reports_the_flows_of_its_functions(t, root, fun, cx, f);
}

} // verus!
