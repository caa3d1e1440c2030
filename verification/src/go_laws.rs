//! What holds of the Go taint analysis as a whole.
use crate::go_taint::{
    assign_all, assign_each, assign_lists, assigned, call_taint_of, cross_flows, declared_source,
    file_flows, file_summaries, first_pass, first_value, flows_at, flows_from, function_flows,
    function_return, go_source, identifiers_in, is_comparison, reaching, return_facts,
    returned_taint, rule_facts, sanitizes, scope_flows, scope_return, seed_by_name, seed_params,
    state_after, summaries_from, taint_of, taint_of_literal, taint_of_method, taint_of_named,
    taint_of_params, value_of, Facts, ReturnFacts,
};
use crate::taint_engine::{lookup, param_source, Flow, Info, TaintRule};
use crate::text::Text;
use crate::tree::{gap, SyntaxTree};
use vstd::prelude::*;

verus! {

broadcast use crate::tree::group_tree;

/// A call of a sanitizer is clean, whatever its arguments, unless the call is itself a source.
pub proof fn sanitizer_call_is_clean(t: &SyntaxTree, i: int, cx: Facts<'_>, st: Map<Text, Info>)
    requires
        0 <= i < t.len(),
        sanitizes(cx.sanitizers, t, i, cx.src, cx.aliases),
        go_source(cx.sources, 0, t, i, cx.src, cx.aliases) is None,
    ensures
        taint_of(t, i, cx, st) is None,
{
    reveal_strlit("call_expression");
    reveal_strlit("identifier");
    reveal_strlit("selector_expression");
    reveal_strlit("index_expression");
    reveal_strlit("type_assertion_expression");
    reveal_strlit("binary_expression");
    reveal_strlit("type_conversion_expression");
    reveal_strlit("parenthesized_expression");
    reveal_strlit("unary_expression");
    reveal_strlit("keyed_element");
    reveal_strlit("composite_literal");
    let k = t.kind(i);
    assert(k[0] == 'c' && k[1] == 'a' && k.len() == 15);
    assert("composite_literal"@[1] == 'o');
    assert(call_taint_of(t, i, cx, st) is None);
}

/// What a comparison or a logical operator yields is clean, unless it is itself a source.
pub proof fn comparison_is_clean(t: &SyntaxTree, i: int, cx: Facts<'_>, st: Map<Text, Info>)
    requires
        0 <= i < t.len(),
        t.kind(i) == "binary_expression"@,
        is_comparison(t, i, cx.src),
        go_source(cx.sources, 0, t, i, cx.src, cx.aliases) is None,
    ensures
        taint_of(t, i, cx, st) is None,
{
    reveal_strlit("binary_expression");
    reveal_strlit("identifier");
    reveal_strlit("selector_expression");
    reveal_strlit("index_expression");
    reveal_strlit("type_assertion_expression");
    assert("binary_expression"@[0] == 'b');
    assert("identifier"@[0] == 'i');
    assert("selector_expression"@[0] == 's');
    assert("index_expression"@[0] == 'i');
    assert("type_assertion_expression"@[0] == 't');
}

/// Where as many expressions as names are assigned, a name that is assigned once,
/// and to a clean expression, is clean afterwards.
pub proof fn clean_assignment_cleans(
    t: &SyntaxTree,
    names: Seq<Text>,
    exprs: Seq<int>,
    k: int,
    cx: Facts<'_>,
    st: Map<Text, Info>,
)
    requires
        names.len() == exprs.len(),
        0 <= k < names.len(),
        value_of(t, exprs[k], cx, st) is None,
        forall|j: int| 0 <= j < names.len() && names[j] == names[k] ==> j == k,
    ensures
        !assign_lists(t, names, exprs, cx, st).contains_key(names[k]),
{
    lemma_assign_each_clean(t, names, exprs, 0, k, cx, st, st);
}

/// Where the numbers of names and expressions differ, all names are tainted with the first
/// tainted expression, or all are clean.
pub proof fn uneven_assignment_treats_names_alike(
    t: &SyntaxTree,
    names: Seq<Text>,
    exprs: Seq<int>,
    k: int,
    cx: Facts<'_>,
    st: Map<Text, Info>,
)
    requires
        names.len() != exprs.len(),
        0 <= k < names.len(),
    ensures
        lookup(assign_lists(t, names, exprs, cx, st), names[k]) == first_value(
            t,
            exprs,
            0,
            cx,
            st,
        ),
{
    lemma_assign_all(names, 0, first_value(t, exprs, 0, cx, st), st, names[k]);
    assert(names[k] == names[k]);
}

proof fn lemma_assign_all(
    names: Seq<Text>,
    from: int,
    value: Option<Info>,
    now: Map<Text, Info>,
    name: Text,
)
    requires
        0 <= from,
        lookup(now, name) == value || exists|k: int|
            #![trigger names[k]]
            from <= k < names.len() && names[k] == name,
    ensures
        lookup(assign_all(names, from, value, now), name) == value,
    decreases names.len() - from,
{
    if from < names.len() {
        lemma_assign_all(names, from + 1, value, assigned(now, names[from], value), name);
    }
}

proof fn lemma_assign_each_clean(
    t: &SyntaxTree,
    names: Seq<Text>,
    exprs: Seq<int>,
    from: int,
    k: int,
    cx: Facts<'_>,
    st: Map<Text, Info>,
    now: Map<Text, Info>,
)
    requires
        names.len() == exprs.len(),
        0 <= k < names.len(),
        0 <= from <= names.len(),
        value_of(t, exprs[k], cx, st) is None,
        forall|j: int| 0 <= j < names.len() && names[j] == names[k] ==> j == k,
        from > k ==> !now.contains_key(names[k]),
    ensures
        !assign_each(t, names, exprs, from, cx, st, now).contains_key(names[k]),
    decreases names.len() - from,
{
    if from < names.len() {
        let next = assigned(now, names[from], value_of(t, exprs[from], cx, st));
        lemma_assign_each_clean(t, names, exprs, from + 1, k, cx, st, next);
    }
}

/// Whether no summary has a source of its own.
pub open spec fn no_direct_source(summaries: Map<Text, ReturnFacts>) -> bool {
    forall|k: Text| #[trigger] summaries.contains_key(k) ==> summaries[k].direct_source is None
}

/// Whether a context has no source at all.
pub open spec fn sourceless(cx: Facts<'_>) -> bool {
    cx.sources.len() == 0 && no_direct_source(cx.summaries)
}

proof fn lemma_clean(t: &SyntaxTree, i: int, cx: Facts<'_>, st: Map<Text, Info>)
    requires
        sourceless(cx),
        st == Map::<Text, Info>::empty(),
    ensures
        taint_of(t, i, cx, st) is None,
    decreases gap(i, t.len()), 1int, 0int,
{
    if 0 <= i < t.len() {
        if t.field(i, "operand"@) is Some {
            lemma_clean(t, t.field(i, "operand"@)->0, cx, st);
        }
        lemma_clean_named(t, i + 1, t.after(i), cx, st);
        lemma_clean_literal(t, i + 1, t.after(i), cx, st);
        lemma_clean_call(t, i, cx, st);
    }
}

proof fn lemma_clean_call(t: &SyntaxTree, i: int, cx: Facts<'_>, st: Map<Text, Info>)
    requires
        sourceless(cx),
        st == Map::<Text, Info>::empty(),
    ensures
        call_taint_of(t, i, cx, st) is None,
    decreases gap(i, t.len()), 0int, 0int,
{
    if 0 <= i < t.len() {
        let func = t.field(i, "function"@);
        let args = t.field(i, "arguments"@);
        if args is Some {
            let a = args->0;
            lemma_clean_named(t, a + 1, t.after(a), cx, st);
            if func is Some {
                let callee = t.text(func->0, cx.src);
                let key = crate::go_taint::summary_key(callee, t.named_children(a).len() as int);
                if cx.summaries.contains_key(key) {
                    lemma_clean_params(t, a, cx.summaries[key].params_to_return, 0, cx, st);
                }
                lemma_clean_method(t, i, func->0, a, cx, st);
                if cx.cross is Some && cx.cross->0.summary(callee) is Some {
                    let s = cx.cross->0.summary(callee)->0;
                    lemma_clean_params(t, a, s.params_to_return, 0, cx, st);
                }
            }
        }
        if func is Some && t.field(func->0, "operand"@) is Some {
            lemma_clean(t, t.field(func->0, "operand"@)->0, cx, st);
        }
    }
}

proof fn lemma_clean_named(t: &SyntaxTree, c: int, e: int, cx: Facts<'_>, st: Map<Text, Info>)
    requires
        sourceless(cx),
        st == Map::<Text, Info>::empty(),
    ensures
        taint_of_named(t, c, e, cx, st) is None,
    decreases gap(c, t.len()), 2int, 0int,
{
    if 0 <= c < t.len() && c < e {
        lemma_clean(t, c, cx, st);
        lemma_clean_named(t, t.after(c), e, cx, st);
    }
}

proof fn lemma_clean_literal(t: &SyntaxTree, c: int, e: int, cx: Facts<'_>, st: Map<Text, Info>)
    requires
        sourceless(cx),
        st == Map::<Text, Info>::empty(),
    ensures
        taint_of_literal(t, c, e, cx, st) is None,
    decreases gap(c, t.len()), 3int, 0int,
{
    if 0 <= c < t.len() && c < e {
        lemma_clean_named(t, c + 1, t.after(c), cx, st);
        lemma_clean_literal(t, t.after(c), e, cx, st);
    }
}

proof fn lemma_clean_params(
    t: &SyntaxTree,
    args: int,
    params: Seq<int>,
    from: int,
    cx: Facts<'_>,
    st: Map<Text, Info>,
)
    requires
        sourceless(cx),
        st == Map::<Text, Info>::empty(),
    ensures
        taint_of_params(t, args, params, from, cx, st) is None,
    decreases gap(args, t.len()), 4int, params.len() - from,
{
    if 0 <= args < t.len() && 0 <= from < params.len() {
        let p = params[from];
        if 0 <= p < t.named_children(args).len() {
            lemma_clean(t, t.named_children(args)[p], cx, st);
        }
        lemma_clean_params(t, args, params, from + 1, cx, st);
    }
}

proof fn lemma_clean_method(
    t: &SyntaxTree,
    i: int,
    func: int,
    args: int,
    cx: Facts<'_>,
    st: Map<Text, Info>,
)
    requires
        sourceless(cx),
        st == Map::<Text, Info>::empty(),
    ensures
        taint_of_method(t, i, func, args, cx, st) is None,
    decreases gap(args, t.len()), 5int, 0int,
{
    match t.field(func, "field"@) {
        Some(f) => {
            let key = crate::go_taint::summary_key(
                t.text(f, cx.src),
                t.named_children(args).len() as int,
            );
            if cx.summaries.contains_key(key) {
                lemma_clean_params(t, args, cx.summaries[key].params_to_return, 0, cx, st);
            }
        },
        None => {},
    }
}

proof fn lemma_clean_each(
    t: &SyntaxTree,
    names: Seq<Text>,
    exprs: Seq<int>,
    from: int,
    cx: Facts<'_>,
)
    requires
        sourceless(cx),
    ensures
        assign_each(t, names, exprs, from, cx, Map::empty(), Map::empty()) == Map::<
            Text,
            Info,
        >::empty(),
    decreases names.len() - from,
{
    if 0 <= from < names.len() {
        lemma_clean(t, exprs[from], cx, Map::empty());
        assert(Map::<Text, Info>::empty().remove(names[from]) =~= Map::empty());
        lemma_clean_each(t, names, exprs, from + 1, cx);
    }
}

proof fn lemma_clean_first(t: &SyntaxTree, exprs: Seq<int>, from: int, cx: Facts<'_>)
    requires
        sourceless(cx),
    ensures
        first_value(t, exprs, from, cx, Map::empty()) is None,
    decreases exprs.len() - from,
{
    if 0 <= from < exprs.len() {
        lemma_clean(t, exprs[from], cx, Map::empty());
        lemma_clean_first(t, exprs, from + 1, cx);
    }
}

proof fn lemma_clean_all(names: Seq<Text>, from: int)
    ensures
        assign_all(names, from, None, Map::empty()) == Map::<Text, Info>::empty(),
    decreases names.len() - from,
{
    if 0 <= from < names.len() {
        assert(Map::<Text, Info>::empty().remove(names[from]) =~= Map::empty());
        lemma_clean_all(names, from + 1);
    }
}

proof fn lemma_clean_lists(t: &SyntaxTree, names: Seq<Text>, exprs: Seq<int>, cx: Facts<'_>)
    requires
        sourceless(cx),
    ensures
        assign_lists(t, names, exprs, cx, Map::empty()) == Map::<Text, Info>::empty(),
{
    lemma_clean_each(t, names, exprs, 0, cx);
    lemma_clean_first(t, exprs, 0, cx);
    lemma_clean_all(names, 0);
}

proof fn lemma_clean_step(t: &SyntaxTree, i: int, cx: Facts<'_>)
    requires
        sourceless(cx),
    ensures
        state_after(t, i, cx, Map::empty()) == Map::<Text, Info>::empty(),
{
    let src = cx.src;
    if t.field(i, "left"@) is Some && t.field(i, "right"@) is Some {
        let left = t.field(i, "left"@)->0;
        let right = t.field(i, "right"@)->0;
        lemma_clean_lists(t, identifiers_in(t, left, src), t.named_children(right), cx);
        lemma_clean_lists(t, identifiers_in(t, left, src), seq![right], cx);
    }
    if t.field(i, "value"@) is Some {
        lemma_clean_lists(
            t,
            identifiers_in(t, i, src),
            t.named_children(t.field(i, "value"@)->0),
            cx,
        );
    }
    assert(declared_source(t, i, cx) is None);
}

proof fn lemma_clean_entry(t: &SyntaxTree, c: int, e: int, cx: Facts<'_>)
    requires
        cx.sources.len() == 0,
    ensures
        seed_params(t, c, e, cx, Map::empty()) == Map::<Text, Info>::empty(),
    decreases gap(c, e),
{
    if c < e {
        lemma_clean_names(t, c + 1, t.after(c), cx);
        lemma_clean_entry(t, t.after(c), e, cx);
    }
}

proof fn lemma_clean_names(t: &SyntaxTree, c: int, e: int, cx: Facts<'_>)
    requires
        cx.sources.len() == 0,
    ensures
        seed_by_name(t, c, e, cx, Map::empty()) == Map::<Text, Info>::empty(),
    decreases gap(c, e),
{
    if c < e {
        assert(param_source(cx.sources, 0, t.text(c, cx.src)) is None);
        lemma_clean_names(t, t.after(c), e, cx);
    }
}

proof fn lemma_clean_reaching(t: &SyntaxTree, c: int, e: int, cx: Facts<'_>)
    requires
        sourceless(cx),
    ensures
        reaching(t, c, e, cx, Map::empty()) is None,
    decreases gap(c, e),
{
    if c < e {
        lemma_clean(t, c, cx, Map::empty());
        lemma_clean_reaching(t, t.after(c), e, cx);
    }
}

proof fn lemma_clean_cross(
    t: &SyntaxTree,
    i: int,
    name: Text,
    args: Seq<int>,
    flows: Seq<crate::cross_file::SinkFlow>,
    from: int,
    cx: Facts<'_>,
)
    requires
        sourceless(cx),
    ensures
        cross_flows(t, i, name, args, flows, from, cx, Map::empty()) == Seq::<Flow>::empty(),
    decreases flows.len() - from,
{
    if 0 <= from < flows.len() {
        let p = flows[from].param_index;
        if 0 <= p < args.len() {
            lemma_clean(t, args[p], cx, Map::empty());
        }
        lemma_clean_cross(t, i, name, args, flows, from + 1, cx);
    }
}

proof fn lemma_clean_flows(t: &SyntaxTree, i: int, cx: Facts<'_>)
    requires
        sourceless(cx),
    ensures
        flows_at(t, i, cx, Map::empty()) == Seq::<Flow>::empty(),
{
    lemma_clean(t, i, cx, Map::empty());
    if t.field(i, "arguments"@) is Some {
        let a = t.field(i, "arguments"@)->0;
        lemma_clean_reaching(t, a + 1, t.after(a), cx);
        if t.field(i, "function"@) is Some && cx.cross is Some {
            let name = t.text(t.field(i, "function"@)->0, cx.src);
            if cx.cross->0.summary(name) is Some {
                lemma_clean_cross(
                    t,
                    i,
                    name,
                    t.named_children(a),
                    cx.cross->0.summary(name)->0.params_to_sink,
                    0,
                    cx,
                );
            }
        }
    }
}

proof fn lemma_clean_scope(t: &SyntaxTree, c: int, e: int, cx: Facts<'_>)
    requires
        sourceless(cx),
    ensures
        scope_flows(t, c, e, cx, Map::empty()) == Seq::<Flow>::empty(),
        scope_return(t, c, e, cx, Map::empty()) is None,
    decreases gap(c, e),
{
    if c < e {
        lemma_clean_scope(t, t.after(c), e, cx);
        lemma_clean_scope(t, c + 1, e, cx);
        lemma_clean_step(t, c, cx);
        lemma_clean_flows(t, c, cx);
        lemma_clean_return(t, c + 1, t.after(c), cx);
        assert(Seq::<Flow>::empty() + Seq::<Flow>::empty() =~= Seq::<Flow>::empty());
    }
}

proof fn lemma_clean_return(t: &SyntaxTree, c: int, e: int, cx: Facts<'_>)
    requires
        sourceless(cx),
    ensures
        returned_taint(t, c, e, cx, Map::empty()) is None,
    decreases gap(c, e),
{
    if c < e {
        lemma_clean(t, c, cx, Map::empty());
        lemma_clean_named(t, c + 1, t.after(c), cx, Map::empty());
        lemma_clean_return(t, t.after(c), e, cx);
    }
}

proof fn lemma_clean_function(t: &SyntaxTree, f: int, cx: Facts<'_>)
    requires
        sourceless(cx),
    ensures
        function_flows(t, f, cx) == Seq::<Flow>::empty(),
        function_return(t, f, cx) is None,
{
    if t.field(f, "parameters"@) is Some {
        let p = t.field(f, "parameters"@)->0;
        lemma_clean_entry(t, p + 1, t.after(p), cx);
    }
    if t.field(f, "body"@) is Some {
        let b = t.field(f, "body"@)->0;
        lemma_clean_scope(t, b, t.after(b), cx);
    }
}

proof fn lemma_clean_summaries(
    t: &SyntaxTree,
    c: int,
    e: int,
    cx: Facts<'_>,
    known: Map<Text, ReturnFacts>,
)
    requires
        sourceless(cx),
        no_direct_source(known),
    ensures
        no_direct_source(summaries_from(t, c, e, cx, known)),
    decreases gap(c, e),
{
    if c < e {
        lemma_clean_function(t, c, cx);
        assert(return_facts(t, c, cx).direct_source is None);
        let next = match t.field_text(c, "name"@, cx.src) {
            Some(name) => if crate::go_taint::is_function(t, c) {
                known.insert(
                    crate::go_taint::summary_key(
                        name,
                        crate::go_taint::param_names(t, c, cx.src).len() as int,
                    ),
                    return_facts(t, c, cx),
                )
            } else {
                known
            },
            None => known,
        };
        lemma_clean_summaries(t, c + 1, e, cx, next);
    }
}

proof fn lemma_clean_files(t: &SyntaxTree, c: int, e: int, cx: Facts<'_>)
    requires
        sourceless(cx),
    ensures
        flows_from(t, c, e, cx) == Seq::<Flow>::empty(),
    decreases gap(c, e),
{
    if c < e {
        lemma_clean_function(t, c, cx);
        lemma_clean_files(t, c + 1, e, cx);
        assert(Seq::<Flow>::empty() + Seq::<Flow>::empty() =~= Seq::<Flow>::empty());
    }
}

/// Where nothing is a source nothing is found, in any file.
pub proof fn no_source_no_flow(
    t: &SyntaxTree,
    root: int,
    source: Text,
    rule: TaintRule,
    aliases: Option<Map<Text, Text>>,
    cross: Option<crate::go_taint::CrossFacts>,
)
    requires
        rule.sources.len() == 0,
    ensures
        file_flows(t, root, rule_facts(source, rule, aliases, cross, None)) == Seq::<Flow>::empty(),
{
    let cx = rule_facts(source, rule, aliases, cross, None);
    let first = first_pass(cx);
    lemma_clean_summaries(t, root, t.after(root), first, Map::empty());
    lemma_clean_files(
        t,
        root,
        t.after(root),
        Facts { summaries: file_summaries(t, root, first), ..cx },
    );
}

} // verus!
