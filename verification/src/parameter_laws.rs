//! Which parameters the taint analyses count, and which of them are tainted when a scope is
//! entered.
use crate::apex_taint::{apex_params, formal_among, Apex};
use crate::csharp_taint::{csharp_params, first_param_source, named_of_kind, CSharp};
use crate::java_taint::{
    annotation_among, annotation_in, java_params, param_name, params_among, Java,
};
use crate::scope::{
    arguments_before, fresh, simple_type, typed_source, without_suffixes, CrossFileLanguage, Given,
    ScopeLanguage,
};
use crate::taint_engine::{Info, Matcher};
use crate::text::{has_part, is_white, trimmed_end, Text};
use crate::text_laws::segments_stand_at_the_ends;
use crate::tree::{gap, SyntaxTree};
use crate::tree_laws::{a_child_comes_after_its_elders, is_child};
use vstd::prelude::*;

verus! {

broadcast use crate::tree::group_tree;

// ─── Scopes ──────────────────────────────────────────────────────────────────
/// Methods and constructors are scopes in every language that is read scope by scope, lambdas
/// in those that have them, and the body of a scope is what its field says.
pub proof fn methods_are_scopes(t: &SyntaxTree, i: int, b: int)
    ensures
        t.kind(i) == "method_declaration"@ || t.kind(i) == "constructor_declaration"@
            ==> Java::is_scope(t, i) && CSharp::is_scope(t, i) && Apex::is_scope(t, i),
        t.kind(i) == "lambda_expression"@ ==> Java::is_scope(t, i) && CSharp::is_scope(t, i),
        t.kind(i) == "local_function_statement"@ || t.kind(i) == "anonymous_method_expression"@
            ==> CSharp::is_scope(t, i),
        t.kind(i) == "block"@ || t.kind(i) == "class_declaration"@ || t.kind(i)
            == "if_statement"@ ==> !Java::is_scope(t, i) && !CSharp::is_scope(t, i)
            && !Apex::is_scope(t, i),
        t.field(i, "body"@) == Some(b) ==> Java::body(t, i) == b && CSharp::body(t, i) == b
            && Apex::body(t, i) == b,
        t.kind(i) == "method_declaration"@ ==> Java::is_method(t, i) && CSharp::is_method(t, i),
        t.kind(i) == "local_function_statement"@ ==> CSharp::is_method(t, i),
        t.kind(i) == "lambda_expression"@ ==> !Java::is_method(t, i) && !CSharp::is_method(t, i),
{
    reveal_strlit("method_declaration");
    reveal_strlit("constructor_declaration");
    reveal_strlit("lambda_expression");
    reveal_strlit("local_function_statement");
    reveal_strlit("anonymous_method_expression");
    reveal_strlit("block");
    reveal_strlit("class_declaration");
    reveal_strlit("if_statement");
    assert("method_declaration"@.len() == 18 && "constructor_declaration"@.len() == 23);
    assert("lambda_expression"@.len() == 17 && "local_function_statement"@.len() == 24);
    assert("anonymous_method_expression"@.len() == 27 && "block"@.len() == 5);
    assert("class_declaration"@.len() == 17 && "if_statement"@.len() == 12);
    assert("class_declaration"@[0] == 'c' && "lambda_expression"@[0] == 'l');
}

// ─── Types ───────────────────────────────────────────────────────────────────
proof fn lemma_arguments(s: Text, p: int, k: int)
    requires
        0 <= p < k < s.len() - 1,
        s[p] == '<',
        forall|j: int| #![trigger s[j]] p < j < s.len() - 1 ==> s[j] != '<' && s[j] != '>',
    ensures
        arguments_before(s, k, 1) == Some(p),
    decreases k,
{
    if k - 1 > p {
        lemma_arguments(s, p, k - 1);
    } else {
        assert(arguments_before(s, p, 1) == Some(p));
    }
}

/// A declared type is known by its simple name: without its package, the brackets of an array
/// and its type arguments.
pub proof fn a_declared_type_is_known_by_its_simple_name(package: Text, name: Text, argument: Text)
    requires
        name.len() > 0,
        !name.contains('.'),
        !is_white(name[0]),
        !is_white(name.last()),
        name.last() != ']',
        name.last() != '>',
        package.len() > 0,
        !is_white(package[0]),
        argument.len() > 0,
        !argument.contains('<'),
        !argument.contains('>'),
    ensures
        simple_type(name) == name,
        simple_type(package + seq!['.'] + name) == name,
        simple_type(name + seq!['[', ']']) == name,
        simple_type(name + seq!['<'] + argument + seq!['>']) == name,
{
    let full = package + seq!['.'] + name;
    let array = name + seq!['[', ']'];
    let generic = name + seq!['<'] + argument + seq!['>'];
    let n = name.len() as int;
    crate::java_rule_laws::lemma_trim(name);
    crate::java_rule_laws::lemma_trim(full);
    crate::java_rule_laws::lemma_trim(array);
    crate::java_rule_laws::lemma_trim(generic);
    segments_stand_at_the_ends(package, name, '.');
    segments_stand_at_the_ends(name, name, '.');
    lemma_end(name);
    assert(full.last() == name.last());
    assert(without_suffixes(name) == name);
    assert(without_suffixes(full) == full);
    assert(array.last() == ']' && array[n] == '[');
    assert(array.take(n) =~= name);
    assert(crate::scope::suffix_start(array) == Some(n));
    assert(without_suffixes(array) == without_suffixes(name));
    assert(generic.last() == '>' && generic[n] == '<');
    assert forall|j: int| #![trigger generic[j]] n < j < generic.len() - 1 implies generic[j] != '<'
        && generic[j] != '>' by {
        assert(argument.contains(argument[j - n - 1]));
        assert(generic[j] == argument[j - n - 1]);
    }
    lemma_arguments(generic, n, generic.len() - 2);
    assert(arguments_before(generic, generic.len() - 1, 0) == arguments_before(
        generic,
        generic.len() - 2,
        1,
    ));
    assert(generic.take(n) =~= name);
    assert(crate::scope::suffix_start(generic) == Some(n));
    assert(without_suffixes(generic) == without_suffixes(name));
}

proof fn lemma_end(name: Text)
    requires
        name.len() > 0,
        !is_white(name.last()),
    ensures
        trimmed_end(name) == name,
{
    assert(crate::text::skip_white_back(name, 0, name.len() as int) == name.len());
    assert(name.take(name.len() as int) =~= name);
}

proof fn lemma_typed(sources: Seq<Matcher>, from: int, k: int, name: Text)
    requires
        0 <= from <= k < sources.len(),
        sources[k] matches Matcher::TypedName { declared, .. } && declared == name,
    ensures
        typed_source(sources, from, name) is Some,
    decreases sources.len() - from,
{
    if from < k {
        lemma_typed(sources, from + 1, k, name);
    }
}

// ─── Java ────────────────────────────────────────────────────────────────────
proof fn lemma_java_param(t: &SyntaxTree, p: int, c: int, k: int)
    requires
        t.wf(),
        is_child(t, p, k),
        p < c <= k,
        t.kind(k) == "formal_parameter"@ || t.kind(k) == "spread_parameter"@,
    ensures
        params_among(t, c, t.after(p)).contains(k),
    decreases gap(c, t.after(p)),
{
    a_child_comes_after_its_elders(t, p, c, k);
    let all = params_among(t, c, t.after(p));
    let rest = params_among(t, t.after(c), t.after(p));
    if c == k {
        assert(all[0] == k);
    } else {
        lemma_java_param(t, p, t.after(c), k);
        let j = choose|j: int| 0 <= j < rest.len() && rest[j] == k;
        assert(all[j + (all.len() - rest.len())] == k);
    }
}

proof fn lemma_java_seeds_keep(
    t: &SyntaxTree,
    params: Seq<int>,
    from: int,
    cx: Given<'_>,
    st: Map<Text, Info>,
    x: Text,
)
    requires
        0 <= from,
        st.contains_key(x) || exists|j: int|
            #![trigger params[j]]
            from <= j < params.len() && param_name(t, params[j], cx.src) == Some(x)
                && crate::java_taint::param_source(t, params[j], x, cx) is Some,
    ensures
        crate::java_taint::seed_params(t, params, from, cx, st).contains_key(x),
    decreases params.len() - from,
{
    if from < params.len() {
        let i = params[from];
        let next = match param_name(t, i, cx.src) {
            Some(n) => match crate::java_taint::param_source(t, i, n, cx) {
                Some(d) => st.insert(n, fresh(t, i, d, cx)),
                None => st,
            },
            None => st,
        };
        lemma_java_seeds_keep(t, params, from + 1, cx, next, x);
    }
}

proof fn lemma_annotation_among(names: Seq<Text>, from: int, j: int, text: Text)
    requires
        0 <= from <= j < names.len(),
        names[j].len() > 0,
        names[j][0] == '@',
        has_part(text, names[j]),
    ensures
        annotation_among(names, from, text) is Some,
    decreases names.len() - from,
{
    if from < j {
        lemma_annotation_among(names, from + 1, j, text);
    }
}

proof fn lemma_annotation(sources: Seq<Matcher>, from: int, k: int, j: int, text: Text)
    requires
        0 <= from <= k < sources.len(),
        sources[k] matches Matcher::ParamName { names, .. } && 0 <= j < names.len()
            && names[j].len() > 0 && names[j][0] == '@' && has_part(text, names[j]),
    ensures
        annotation_in(sources, from, text) is Some,
    decreases sources.len() - from,
{
    if from < k {
        lemma_annotation(sources, from + 1, k, j, text);
    } else {
        lemma_annotation_among(sources[k]->names, 0, j, text);
    }
}

/// Whether the source is the parameter at node `i`, of the name `x` and the declared type
/// `ty`: by its name, by its type or by an annotation.
pub open spec fn is_java_parameter_source(
    m: Matcher,
    t: &SyntaxTree,
    i: int,
    x: Text,
    src: Text,
    j: int,
) -> bool {
    match m {
        Matcher::ParamName { names, .. } => 0 <= j < names.len() && (names[j] == x && !(x.len() > 0
            && x[0] == '@') || names[j].len() > 0 && names[j][0] == '@' && has_part(
            t.text(i, src),
            names[j],
        )),
        Matcher::TypedName { declared, .. } => t.field_text(i, "type"@, src) matches Some(ty)
            && simple_type(ty) == declared,
        _ => false,
    }
}

/// A parameter of a Java method that is listed as a source is tainted when the method is
/// entered.
pub proof fn a_listed_java_parameter_is_tainted(
    t: &SyntaxTree,
    f: int,
    p: int,
    i: int,
    x: Text,
    k: int,
    j: int,
    cx: Given<'_>,
)
    requires
        t.wf(),
        t.field(f, "parameters"@) == Some(p),
        is_child(t, p, i),
        t.kind(i) == "formal_parameter"@ || t.kind(i) == "spread_parameter"@,
        t.field_text(i, "name"@, cx.src) == Some(x),
        0 <= k < cx.rule.sources.len(),
        is_java_parameter_source(cx.rule.sources[k], t, i, x, cx.src, j),
    ensures
        Java::entry_state(t, f, cx).contains_key(x),
{
    a_child_comes_after_its_elders(t, p, p, i);
    lemma_java_param(t, p, p + 1, i);
    let params = java_params(t, f);
    let n = choose|n: int| 0 <= n < params.len() && params[n] == i;
    let m = cx.rule.sources[k];
    if m is TypedName {
        let ty = t.field_text(i, "type"@, cx.src)->0;
        lemma_typed(cx.rule.sources, 0, k, simple_type(ty));
    } else {
        let names = m->names;
        if names[j].len() > 0 && names[j][0] == '@' && has_part(t.text(i, cx.src), names[j]) {
            lemma_annotation(cx.rule.sources, 0, k, j, t.text(i, cx.src));
        } else {
            assert(names.contains(x));
            assert(crate::java_taint::param_named_by(m, x));
            assert(crate::java_taint::names_param(cx.rule.sources, x));
        }
    }
    assert(crate::java_taint::param_source(t, i, x, cx) is Some);
    assert(param_name(t, params[n], cx.src) == Some(x));
    lemma_java_seeds_keep(t, params, 0, cx, Map::empty(), x);
}

// ─── C# ──────────────────────────────────────────────────────────────────────
proof fn lemma_csharp_param(t: &SyntaxTree, p: int, c: int, k: int, kind: Text)
    requires
        t.wf(),
        is_child(t, p, k),
        p < c <= k,
        t.named(k),
        t.kind(k) == kind,
    ensures
        named_of_kind(t, c, t.after(p), kind).contains(k),
    decreases gap(c, t.after(p)),
{
    a_child_comes_after_its_elders(t, p, c, k);
    let all = named_of_kind(t, c, t.after(p), kind);
    let rest = named_of_kind(t, t.after(c), t.after(p), kind);
    if c == k {
        assert(all[0] == k);
    } else {
        lemma_csharp_param(t, p, t.after(c), k, kind);
        let j = choose|j: int| 0 <= j < rest.len() && rest[j] == k;
        assert(all[j + (all.len() - rest.len())] == k);
    }
}

proof fn lemma_csharp_seeds_keep(
    t: &SyntaxTree,
    params: Seq<int>,
    from: int,
    cx: Given<'_>,
    st: Map<Text, Info>,
    x: Text,
)
    requires
        0 <= from,
        st.contains_key(x) || exists|j: int|
            #![trigger params[j]]
            from <= j < params.len() && t.field_text(params[j], "name"@, cx.src) == Some(x)
                && crate::csharp_taint::param_source(t, params[j], x, j == 0, cx) is Some,
    ensures
        crate::csharp_taint::seed_params(t, params, from, cx, st).contains_key(x),
    decreases params.len() - from,
{
    if from < params.len() {
        let i = params[from];
        let next = match t.field_text(i, "name"@, cx.src) {
            Some(n) => match crate::csharp_taint::param_source(t, i, n, from == 0, cx) {
                Some(d) => st.insert(n, fresh(t, i, d, cx)),
                None => st,
            },
            None => st,
        };
        lemma_csharp_seeds_keep(t, params, from + 1, cx, next, x);
    }
}

/// A parameter of a C# method that is listed as a source, by its name or by its type, is
/// tainted when the method is entered.
pub proof fn a_listed_csharp_parameter_is_tainted(
    t: &SyntaxTree,
    f: int,
    p: int,
    i: int,
    x: Text,
    k: int,
    cx: Given<'_>,
)
    requires
        t.wf(),
        t.field(f, "parameters"@) == Some(p),
        is_child(t, p, i),
        t.named(i),
        t.kind(i) == "parameter"@,
        t.field_text(i, "name"@, cx.src) == Some(x),
        0 <= k < cx.rule.sources.len(),
        match cx.rule.sources[k] {
            Matcher::ParamName { names, .. } => names.contains(x),
            Matcher::TypedName { declared, .. } => t.field_text(i, "type"@, cx.src) matches Some(ty)
                && simple_type(ty) == declared,
            _ => false,
        },
    ensures
        CSharp::entry_state(t, f, cx).contains_key(x),
{
    a_child_comes_after_its_elders(t, p, p, i);
    lemma_csharp_param(t, p, p + 1, i, "parameter"@);
    let params = csharp_params(t, f);
    let n = choose|n: int| 0 <= n < params.len() && params[n] == i;
    let m = cx.rule.sources[k];
    if m is TypedName {
        let ty = t.field_text(i, "type"@, cx.src)->0;
        lemma_typed(cx.rule.sources, 0, k, simple_type(ty));
    } else {
        assert(crate::csharp_taint::param_named_by(m, x));
        assert(crate::csharp_taint::names_param(cx.rule.sources, x));
    }
    assert(t.field_text(params[n], "name"@, cx.src) == Some(x));
    assert(crate::csharp_taint::param_source(t, params[n], x, n == 0, cx) is Some);
    lemma_csharp_seeds_keep(t, params, 0, cx, Map::empty(), x);
}

proof fn lemma_first_param(sources: Seq<Matcher>, end: int, k: int)
    requires
        0 <= k < end <= sources.len(),
        sources[k] is FirstParamSource,
    ensures
        first_param_source(sources, end) is Some,
    decreases end,
{
    if k < end - 1 {
        lemma_first_param(sources, end - 1, k);
    }
}

/// The first parameter of any C# method is tainted where a rule says so of first parameters.
pub proof fn a_first_parameter_is_tainted(t: &SyntaxTree, f: int, x: Text, k: int, cx: Given<'_>)
    requires
        csharp_params(t, f).len() > 0,
        t.field_text(csharp_params(t, f)[0], "name"@, cx.src) == Some(x),
        0 <= k < cx.rule.sources.len(),
        cx.rule.sources[k] is FirstParamSource,
    ensures
        CSharp::entry_state(t, f, cx).contains_key(x),
{
    let params = csharp_params(t, f);
    lemma_first_param(cx.rule.sources, cx.rule.sources.len() as int, k);
    assert(crate::csharp_taint::param_source(t, params[0], x, true, cx) is Some);
    lemma_csharp_seeds_keep(t, params, 0, cx, Map::empty(), x);
}

// ─── Apex ────────────────────────────────────────────────────────────────────
proof fn lemma_apex_param(t: &SyntaxTree, p: int, c: int, k: int)
    requires
        t.wf(),
        is_child(t, p, k),
        p < c <= k,
        t.kind(k) == "formal_parameter"@,
    ensures
        formal_among(t, c, t.after(p)).contains(k),
    decreases gap(c, t.after(p)),
{
    a_child_comes_after_its_elders(t, p, c, k);
    let all = formal_among(t, c, t.after(p));
    let rest = formal_among(t, t.after(c), t.after(p));
    if c == k {
        assert(all[0] == k);
    } else {
        lemma_apex_param(t, p, t.after(c), k);
        let j = choose|j: int| 0 <= j < rest.len() && rest[j] == k;
        assert(all[j + (all.len() - rest.len())] == k);
    }
}

proof fn lemma_apex_seeds_keep(
    t: &SyntaxTree,
    params: Seq<int>,
    from: int,
    cx: Given<'_>,
    st: Map<Text, Info>,
    x: Text,
)
    requires
        0 <= from,
        st.contains_key(x) || crate::apex_taint::names_param(cx.rule.sources, x) && exists|j: int|
            #![trigger params[j]]
            from <= j < params.len() && param_name(t, params[j], cx.src) == Some(x),
    ensures
        crate::apex_taint::seed_params(t, params, from, cx, st).contains_key(x),
    decreases params.len() - from,
{
    if from < params.len() {
        let i = params[from];
        let next = match param_name(t, i, cx.src) {
            Some(n) => if crate::apex_taint::names_param(cx.rule.sources, n) {
                st.insert(n, fresh(t, i, "untrusted parameter '"@ + n + "'"@, cx))
            } else {
                st
            },
            None => st,
        };
        lemma_apex_seeds_keep(t, params, from + 1, cx, next, x);
    }
}

/// A parameter of an Apex method that a source names is tainted when the method is entered.
pub proof fn a_listed_apex_parameter_is_tainted(
    t: &SyntaxTree,
    f: int,
    p: int,
    i: int,
    x: Text,
    k: int,
    cx: Given<'_>,
)
    requires
        t.wf(),
        t.field(f, "parameters"@) == Some(p),
        is_child(t, p, i),
        t.kind(i) == "formal_parameter"@,
        t.field_text(i, "name"@, cx.src) == Some(x),
        0 <= k < cx.rule.sources.len(),
        cx.rule.sources[k] matches Matcher::ParamName { names, .. } && names.contains(x),
    ensures
        Apex::entry_state(t, f, cx).contains_key(x),
{
    a_child_comes_after_its_elders(t, p, p, i);
    lemma_apex_param(t, p, p + 1, i);
    let params = apex_params(t, f);
    let n = choose|n: int| 0 <= n < params.len() && params[n] == i;
    assert(crate::apex_taint::param_named_by(cx.rule.sources[k], x));
    assert(crate::apex_taint::names_param(cx.rule.sources, x));
    assert(param_name(t, params[n], cx.src) == Some(x));
    lemma_apex_seeds_keep(t, params, 0, cx, Map::empty(), x);
}

} // verus!
