//! What the rules for C# report, told by the calls and declarations of a file.
use crate::common::Visitor;
use crate::csharp::{
    declaration_of, declarations, first_is_unsafe, has_some_part, has_unsafe, initializer,
    initializer_from, inside, is_built, is_fixed, is_hardened, is_open_sum, is_safe, lists_passing,
    operands, scope_around, unwrapped, AnyUnsafe, FirstUnsafe, ListTest, NoCommandInjection,
    NoCorsStar, NoLdapInjection, NoPathTraversal, NoSqlInjection, NoSsrf, NoUnsafeDeserialization,
    NoWeakCrypto, NoXxe,
};
use crate::finding::Report;
use crate::rule_laws::{is_reported, lemma_single};
use crate::text::{has_part, is_white, occurs_at, Text};
use crate::tree::{gap, SyntaxTree};
use crate::tree_laws::{a_child_comes_after_its_elders, is_child};
use vstd::prelude::*;

verus! {

broadcast use crate::tree::group_tree;

/// The kinds of nodes of C# that the rules tell apart differ in length or in a letter.
pub(crate) proof fn lemma_csharp_rule_kinds()
    ensures
        "string_literal"@.len() == 14,
        "verbatim_string_literal"@.len() == 23,
        "interpolated_string_expression"@.len() == 30,
        "string_literal_expression"@.len() == 25,
        "binary_expression"@.len() == 17,
        "parenthesized_expression"@.len() == 24,
        "identifier"@.len() == 10,
        "invocation_expression"@.len() == 21,
        "object_creation_expression"@.len() == 26,
        "argument"@.len() == 8,
        "argument_list"@.len() == 13,
        "variable_declarator"@.len() == 19,
        "assignment_expression"@.len() == 21,
        "equals_value_clause"@.len() == 19,
        "="@.len() == 1,
        "invocation_expression"@ != "assignment_expression"@,
        "variable_declarator"@ != "equals_value_clause"@,
{
    reveal_strlit("string_literal");
    reveal_strlit("verbatim_string_literal");
    reveal_strlit("interpolated_string_expression");
    reveal_strlit("string_literal_expression");
    reveal_strlit("binary_expression");
    reveal_strlit("parenthesized_expression");
    reveal_strlit("identifier");
    reveal_strlit("invocation_expression");
    reveal_strlit("object_creation_expression");
    reveal_strlit("argument");
    reveal_strlit("argument_list");
    reveal_strlit("variable_declarator");
    reveal_strlit("assignment_expression");
    reveal_strlit("equals_value_clause");
    reveal_strlit("=");
    assert("invocation_expression"@[0] != "assignment_expression"@[0]);
    assert("variable_declarator"@[0] != "equals_value_clause"@[0]);
}

/// Whether node `i` is a string literal of any form.
pub open spec fn is_text(t: &SyntaxTree, i: int) -> bool {
    ||| t.kind(i) == "string_literal"@
    ||| t.kind(i) == "verbatim_string_literal"@
    ||| t.kind(i) == "interpolated_string_expression"@
    ||| t.kind(i) == "string_literal_expression"@
}

// ─── Strings that are put together ───────────────────────────────────────────
/// Whether node `i` adds the operands at the nodes `l` and `r`.
pub open spec fn adds(t: &SyntaxTree, i: int, l: int, r: int, src: Text) -> bool {
    &&& t.kind(i) == "binary_expression"@
    &&& t.field_text(i, "operator"@, src) == Some("+"@)
    &&& t.field(i, "left"@) == Some(l)
    &&& t.field(i, "right"@) == Some(r)
}

/// Whether the operand at node `k` may change: a sum where one of its operands may, anything
/// else where it is not fixed.
pub open spec fn may_change(t: &SyntaxTree, k: int, src: Text) -> bool {
    if exists|l: int, r: int| #[trigger] adds(t, k, l, r, src) {
        is_open_sum(t, k, src)
    } else {
        !is_fixed(t, k, src)
    }
}

proof fn lemma_operands(t: &SyntaxTree, k: int, src: Text)
    requires
        0 <= k < t.len(),
    ensures
        may_change(t, k, src) <==> exists|j: int|
            #![trigger operands(t, k, src)[j]]
            0 <= j < operands(t, k, src).len() && !is_fixed(t, operands(t, k, src)[j], src),
{
    if exists|l: int, r: int| #[trigger] adds(t, k, l, r, src) {
    } else {
        if t.field(k, "left"@) is Some && t.field(k, "right"@) is Some {
            assert(!adds(t, k, t.field(k, "left"@)->0, t.field(k, "right"@)->0, src));
        }
        assert(operands(t, k, src) == seq![k]);
        assert(operands(t, k, src)[0] == k);
    }
}

/// A sum may change exactly where one of its operands may, on either side and at any depth.
pub proof fn a_sum_may_change_where_an_operand_may(
    t: &SyntaxTree,
    i: int,
    l: int,
    r: int,
    src: Text,
)
    requires
        0 <= i < t.len(),
        adds(t, i, l, r, src),
        0 <= l < t.len(),
        0 <= r < t.len(),
    ensures
        is_open_sum(t, i, src) <==> may_change(t, l, src) || may_change(t, r, src),
{
    lemma_operands(t, l, src);
    lemma_operands(t, r, src);
    let a = operands(t, l, src);
    let b = operands(t, r, src);
    let all = operands(t, i, src);
    assert(all == a + b);
    if may_change(t, l, src) {
        let j = choose|j: int| #![trigger a[j]] 0 <= j < a.len() && !is_fixed(t, a[j], src);
        assert(all[j] == a[j]);
    }
    if may_change(t, r, src) {
        let j = choose|j: int| #![trigger b[j]] 0 <= j < b.len() && !is_fixed(t, b[j], src);
        assert(all[a.len() + j] == b[j]);
    }
    if is_open_sum(t, i, src) {
        let j = choose|j: int| #![trigger all[j]] 0 <= j < all.len() && !is_fixed(t, all[j], src);
        if j < a.len() {
            assert(a[j] == all[j]);
        } else {
            assert(b[j - a.len()] == all[j]);
        }
    }
}

/// A string is put together where an open sum stands anywhere in it.
pub proof fn an_open_sum_is_found_anywhere(t: &SyntaxTree, i: int, k: int, src: Text)
    requires
        i <= k < t.after(i),
        is_open_sum(t, k, src),
    ensures
        is_built(t, i, src),
{
}

/// A string literal is fixed, parentheses change nothing, and a call is not fixed.
pub proof fn literals_are_fixed(t: &SyntaxTree, i: int, k: int, src: Text)
    requires
        0 <= i < t.len(),
    ensures
        is_text(t, i) ==> is_fixed(t, i, src),
        t.kind(i) == "parenthesized_expression"@ && t.named_children(i).len() > 0
            && t.named_children(i)[0] == k ==> (is_fixed(t, i, src) <==> is_fixed(t, k, src)),
        t.kind(i) == "invocation_expression"@ ==> !is_fixed(t, i, src),
{
    lemma_csharp_rule_kinds();
}

// ─── Names ───────────────────────────────────────────────────────────────────
/// Whether node `d` declares the variable `name`.
pub open spec fn is_declaration(t: &SyntaxTree, d: int, name: Text, src: Text) -> bool {
    t.kind(d) == "variable_declarator"@ && t.field_text(d, "name"@, src) == Some(name)
}

proof fn lemma_only(t: &SyntaxTree, c: int, e: int, d: int, name: Text, src: Text)
    requires
        is_declaration(t, d, name, src),
        forall|m: int| m != d ==> !#[trigger] is_declaration(t, m, name, src),
    ensures
        declarations(t, c, e, name, src) == if c <= d < e {
            seq![d]
        } else {
            Seq::empty()
        },
    decreases gap(c, e),
{
    if c < e {
        lemma_only(t, c + 1, e, d, name, src);
        assert(crate::csharp::declares(t, c, name, src) == is_declaration(t, c, name, src));
        if c == d {
            assert(seq![c] + Seq::<int>::empty() =~= seq![d]);
        }
    }
}

proof fn lemma_none(t: &SyntaxTree, c: int, e: int, name: Text, src: Text)
    requires
        forall|m: int| !#[trigger] is_declaration(t, m, name, src),
    ensures
        declarations(t, c, e, name, src) == Seq::<int>::empty(),
    decreases gap(c, e),
{
    if c < e {
        lemma_none(t, c + 1, e, name, src);
        assert(crate::csharp::declares(t, c, name, src) == is_declaration(t, c, name, src));
    }
}

/// A name refers to the only declaration of it in a file, wherever it stands, and to none
/// where there is none.
pub proof fn a_name_refers_to_its_only_declaration(
    t: &SyntaxTree,
    i: int,
    d: int,
    name: Text,
    src: Text,
)
    ensures
        0 <= d < t.after(0) && is_declaration(t, d, name, src) && (forall|m: int|
            m != d ==> !#[trigger] is_declaration(t, m, name, src)) ==> declaration_of(
            t,
            i,
            name,
            src,
        ) == Some(d),
        (forall|m: int| !#[trigger] is_declaration(t, m, name, src)) ==> declaration_of(
            t,
            i,
            name,
            src,
        ) is None,
{
    let scope = scope_around(t, i);
    if 0 <= d < t.after(0) && is_declaration(t, d, name, src) && (forall|m: int|
        m != d ==> !#[trigger] is_declaration(t, m, name, src)) {
        lemma_only(t, scope, t.after(scope), d, name, src);
        lemma_only(t, 0, t.after(0), d, name, src);
        assert(seq![d][0] == d);
    }
    if forall|m: int| !#[trigger] is_declaration(t, m, name, src) {
        lemma_none(t, scope, t.after(scope), name, src);
        lemma_none(t, 0, t.after(0), name, src);
    }
}

/// A declaration of a name, a sign and a value is initialized by the value.
pub proof fn a_declaration_is_initialized_by_its_value(t: &SyntaxTree, d: int, n: int, e: int, v: int)
    requires
        t.children(d) == seq![n, e, v],
        t.kind(n) == "identifier"@,
        t.kind(e) == "="@,
        t.named(v),
        t.kind(v) != "identifier"@,
        t.kind(v) != "="@,
        t.kind(v) != "equals_value_clause"@,
    ensures
        initializer(t, d) == Some(v),
{
    lemma_csharp_rule_kinds();
    let stop = t.after(d);
    let kids = t.children(d);
    assert(kids.len() == 3 && kids[0] == n && kids[1] == e && kids[2] == v);
    let c = d + 1;
    assert(c < stop);
    let one = t.siblings(t.after(c), stop);
    assert(kids == seq![c] + one);
    assert(c == n);
    assert(one[0] == kids[1] && one[1] == kids[2] && one.len() == 2);
    assert(t.after(c) < stop);
    let c1 = t.after(c);
    let two = t.siblings(t.after(c1), stop);
    assert(one == seq![c1] + two);
    assert(c1 == e);
    assert(two[0] == one[1] && two.len() == 1);
    assert(t.after(c1) < stop);
    let c2 = t.after(c1);
    let three = t.siblings(t.after(c2), stop);
    assert(two == seq![c2] + three);
    assert(c2 == v);
    assert(three.len() == 0);
    assert(t.after(c2) >= stop) by {
        if t.after(c2) < stop {
            assert(three[0] == t.after(c2));
        }
    }
    assert(initializer_from(t, t.after(c2), stop, Some(v)) == Some(v));
    assert(initializer_from(t, c2, stop, None) == Some(v));
    assert(initializer_from(t, c1, stop, None) == Some(v));
}

/// A name is fixed where its only declaration is initialized by a string literal, and is not
/// where it is declared nowhere.
pub proof fn a_name_of_a_literal_is_fixed(
    t: &SyntaxTree,
    i: int,
    d: int,
    v: int,
    src: Text,
)
    requires
        0 <= i < t.len(),
        t.kind(i) == "identifier"@,
    ensures
        0 <= d < t.after(0) && is_declaration(t, d, t.text(i, src), src) && (forall|m: int|
            m != d ==> !#[trigger] is_declaration(t, m, t.text(i, src), src)) && initializer(t, d)
            == Some(v) && is_text(t, v) ==> is_fixed(t, i, src),
        (forall|m: int| !#[trigger] is_declaration(t, m, t.text(i, src), src)) ==> !is_fixed(
            t,
            i,
            src,
        ),
{
    lemma_csharp_rule_kinds();
    a_name_refers_to_its_only_declaration(t, i, d, t.text(i, src), src);
    assert(unwrapped(t, i) == i);
}

// ─── Arguments ───────────────────────────────────────────────────────────────
/// An argument that is a string literal is safe.
pub proof fn a_literal_argument_is_safe(t: &SyntaxTree, a: int, k: int, src: Text)
    requires
        t.kind(a) == "argument"@,
        t.named_children(a).len() > 0,
        t.named_children(a)[0] == k,
        is_text(t, k),
    ensures
        is_safe(t, a, src),
{
}

/// An argument that is a name is not safe where the name is declared nowhere in the file.
pub proof fn a_foreign_name_is_not_safe(t: &SyntaxTree, a: int, k: int, src: Text)
    requires
        t.kind(a) == "argument"@,
        t.named_children(a).len() > 0,
        t.named_children(a)[0] == k,
        0 <= k < t.len(),
        t.kind(k) == "identifier"@,
        t.text(k, src).len() > 0,
        !is_white(t.text(k, src)[0]),
        !is_white(t.text(k, src).last()),
        !t.text(k, src).contains('('),
        !t.text(k, src).contains('"'),
        forall|m: int| !#[trigger] is_declaration(t, m, t.text(k, src), src),
    ensures
        !is_safe(t, a, src),
{
    lemma_csharp_rule_kinds();
    let text = t.text(k, src);
    crate::java_rule_laws::lemma_trim(text);
    lemma_no_part(text, "("@, '(', 0);
    lemma_no_part(text, "\""@, '"', 0);
    lemma_no_part(text, "@\""@, '"', 1);
    lemma_no_part(text, "$\""@, '"', 1);
    a_name_refers_to_its_only_declaration(t, a, 0, text, src);
    assert(inside(t, k) == Some(k));
}

proof fn lemma_no_part(text: Text, part: Text, c: char, k: int)
    requires
        !text.contains(c),
        part == "("@ && c == '(' && k == 0 || part == "\""@ && c == '"' && k == 0 || part
            == "@\""@ && c == '"' && k == 1 || part == "$\""@ && c == '"' && k == 1,
    ensures
        !has_part(text, part),
{
    reveal_strlit("(");
    reveal_strlit("\"");
    reveal_strlit("@\"");
    reveal_strlit("$\"");
    assert(part[k] == c);
    if has_part(text, part) {
        let i = choose|i: int| #[trigger] occurs_at(text, part, i);
        assert(text.subrange(i, i + part.len())[k] == c);
        assert(text[i + k] == c);
    }
}

proof fn lemma_lists<L: ListTest>(t: &SyntaxTree, i: int, c: int, a: int, src: Text)
    requires
        t.wf(),
        is_child(t, i, a),
        i < c <= a,
        t.kind(a) == "argument_list"@,
        L::holds(t, a, src),
    ensures
        lists_passing::<L>(t, c, t.after(i), src) > 0,
    decreases gap(c, t.after(i)),
{
    a_child_comes_after_its_elders(t, i, c, a);
    if c < a {
        lemma_lists::<L>(t, i, t.after(c), a, src);
    }
}

proof fn lemma_no_lists<L: ListTest>(t: &SyntaxTree, c: int, e: int, src: Text)
    requires
        forall|a: int|
            #![trigger t.kind(a)]
            c <= a < e && t.kind(a) == "argument_list"@ ==> !L::holds(t, a, src),
    ensures
        lists_passing::<L>(t, c, e, src) == 0,
    decreases gap(c, e),
{
    if c < e {
        lemma_no_lists::<L>(t, t.after(c), e, src);
    }
}

/// A process that is started is reported where any of its arguments is not safe, whatever the
/// argument's position, and is not where all are safe.
pub proof fn a_process_is_reported_where_an_argument_is_not_safe(
    t: &SyntaxTree,
    i: int,
    list: int,
    k: int,
    p: int,
    src: Text,
)
    requires
        t.wf(),
        t.kind(i) == "invocation_expression"@,
        occurs_at(t.text(i, src), "Process.Start"@, p),
        is_child(t, i, list),
        t.kind(list) == "argument_list"@,
    ensures
        0 <= k < t.named_children(list).len() && !is_safe(t, t.named_children(list)[k], src)
            ==> is_reported(
            NoCommandInjection::found((), t, i, src),
            "cs/no-command-injection"@,
            t,
            i,
        ),
        (forall|m: int, j: int|
            #![trigger t.named_children(m)[j]]
            i < m < t.after(i) && 0 <= j < t.named_children(m).len() ==> is_safe(
                t,
                t.named_children(m)[j],
                src,
            )) ==> NoCommandInjection::found((), t, i, src) == Seq::<Report>::empty(),
{
    a_child_comes_after_its_elders(t, i, i, list);
    if 0 <= k < t.named_children(list).len() && !is_safe(t, t.named_children(list)[k], src) {
        assert(has_unsafe(t, list, src));
        lemma_lists::<AnyUnsafe>(t, i, i + 1, list, src);
        lemma_single(
            NoCommandInjection::found((), t, i, src),
            "cs/no-command-injection"@,
            t,
            i,
        );
    }
    if forall|m: int, j: int|
        #![trigger t.named_children(m)[j]]
        i < m < t.after(i) && 0 <= j < t.named_children(m).len() ==> is_safe(
            t,
            t.named_children(m)[j],
            src,
        ) {
        lemma_no_lists::<AnyUnsafe>(t, i + 1, t.after(i), src);
    }
}

/// A request is reported where its first argument is not safe, and so is a file that is
/// opened, read, written or deleted.
pub proof fn a_request_or_a_file_is_reported_where_its_first_argument_is_not_safe(
    t: &SyntaxTree,
    i: int,
    list: int,
    part: Text,
    p: int,
    src: Text,
)
    requires
        t.wf(),
        is_child(t, i, list),
        t.kind(list) == "argument_list"@,
        t.named_children(list).len() > 0,
        !is_safe(t, t.named_children(list)[0], src),
        occurs_at(t.text(i, src), part, p),
    ensures
        t.kind(i) == "invocation_expression"@ && (part == "GetAsync"@ || part == "PostAsync"@ || part
            == "SendAsync"@ || part == "GetStringAsync"@ || part == "WebRequest.Create"@)
            ==> is_reported(NoSsrf::found((), t, i, src), "cs/no-ssrf"@, t, i),
        t.kind(i) == "invocation_expression"@ && (part == "File.ReadAllText"@ || part
            == "File.ReadAllBytes"@ || part == "File.Open"@ || part == "File.OpenRead"@ || part
            == "File.WriteAllText"@ || part == "File.Delete"@ || part == "File.Exists"@)
            ==> is_reported(
            NoPathTraversal::found((), t, i, src),
            "cs/no-path-traversal"@,
            t,
            i,
        ),
        t.kind(i) == "object_creation_expression"@ && (part == "StreamReader"@ || part
            == "FileStream"@) ==> is_reported(
            NoPathTraversal::found((), t, i, src),
            "cs/no-path-traversal"@,
            t,
            i,
        ),
{
    lemma_csharp_rule_kinds();
    a_child_comes_after_its_elders(t, i, i, list);
    assert(first_is_unsafe(t, list, src));
    lemma_lists::<FirstUnsafe>(t, i, i + 1, list, src);
    let text = t.text(i, src);
    let requests = crate::csharp::request_calls();
    let files = crate::csharp::file_methods();
    assert(requests[0] == "GetAsync"@ && requests[1] == "PostAsync"@ && requests[2] == "SendAsync"@
        && requests[3] == "GetStringAsync"@ && requests[4] == "WebRequest.Create"@);
    assert(files[0] == "File.ReadAllText"@ && files[1] == "File.ReadAllBytes"@ && files[2]
        == "File.Open"@ && files[3] == "File.OpenRead"@ && files[4] == "File.WriteAllText"@ && files[5]
        == "File.Delete"@ && files[6] == "File.Exists"@);
    assert(has_part(text, part));
    let asked = NoSsrf::found((), t, i, src);
    let opened = NoPathTraversal::found((), t, i, src);
    if asked.len() > 0 {
        lemma_single(asked, "cs/no-ssrf"@, t, i);
    }
    if opened.len() > 0 {
        lemma_single(opened, "cs/no-path-traversal"@, t, i);
    }
}

/// A query is reported where its arguments hold a string that is put together, and is not
/// where they do not.
pub proof fn a_query_is_reported_where_it_is_put_together(
    t: &SyntaxTree,
    i: int,
    args: int,
    part: Text,
    p: int,
    src: Text,
)
    requires
        t.kind(i) == "invocation_expression"@,
        t.field(i, "arguments"@) == Some(args),
        part == "ExecuteReader"@ || part == "ExecuteNonQuery"@ || part == "ExecuteScalar"@ || part
            == "FromSqlRaw"@,
        occurs_at(t.text(i, src), part, p),
    ensures
        is_built(t, args, src) ==> is_reported(
            NoSqlInjection::found((), t, i, src),
            "cs/no-sql-injection"@,
            t,
            i,
        ),
        !is_built(t, args, src) ==> NoSqlInjection::found((), t, i, src) == Seq::<Report>::empty(),
{
    let methods = crate::csharp::sql_methods();
    assert(methods[0] == "ExecuteReader"@ && methods[1] == "ExecuteNonQuery"@ && methods[2]
        == "ExecuteScalar"@ && methods[3] == "FromSqlRaw"@);
    assert(has_part(t.text(i, src), part));
    assert(has_some_part(t.text(i, src), methods));
    let made = NoSqlInjection::found((), t, i, src);
    if made.len() > 0 {
        lemma_single(made, "cs/no-sql-injection"@, t, i);
    }
}

/// A filter of a directory search is reported where it is set to a string that is put
/// together, and is not where the string is not.
pub proof fn a_filter_is_reported_where_it_is_put_together(
    t: &SyntaxTree,
    i: int,
    left: Text,
    right: int,
    p: int,
    src: Text,
)
    requires
        t.kind(i) == "assignment_expression"@,
        t.field_text(i, "left"@, src) == Some(left),
        t.field(i, "right"@) == Some(right),
        has_part(left, "Filter"@),
        occurs_at(left, "searcher"@, p) || occurs_at(left, "DirectorySearcher"@, p) || occurs_at(
            left,
            ".Filter"@,
            left.len() - ".Filter"@.len(),
        ),
    ensures
        is_built(t, right, src) ==> is_reported(
            NoLdapInjection::found((), t, i, src),
            "cs/no-ldap-injection"@,
            t,
            i,
        ),
        !is_built(t, right, src) ==> NoLdapInjection::found((), t, i, src) == Seq::<
            Report,
        >::empty(),
{
    lemma_csharp_rule_kinds();
    let made = NoLdapInjection::found((), t, i, src);
    if made.len() > 0 {
        lemma_single(made, "cs/no-ldap-injection"@, t, i);
    }
}

// ─── Classes ─────────────────────────────────────────────────────────────────
/// An object of a class that reads any type is reported where it is made, and a call that
/// reads through one.
pub proof fn objects_of_any_type_are_reported(
    t: &SyntaxTree,
    i: int,
    class: Text,
    p: int,
    src: Text,
)
    requires
        class == "BinaryFormatter"@ || class == "JavaScriptSerializer"@,
        occurs_at(t.text(i, src), class, p),
        t.kind(i) == "object_creation_expression"@ || t.kind(i) == "invocation_expression"@
            && has_part(t.text(i, src), "Deserialize"@),
    ensures
        is_reported(
            NoUnsafeDeserialization::found((), t, i, src),
            "cs/no-unsafe-deserialization"@,
            t,
            i,
        ),
{
    let made = NoUnsafeDeserialization::found((), t, i, src);
    assert(has_part(t.text(i, src), class));
    lemma_single(made, "cs/no-unsafe-deserialization"@, t, i);
}

/// A weak algorithm is reported where it is made, by a call or by a new object.
pub proof fn weak_algorithms_are_reported(t: &SyntaxTree, i: int, part: Text, p: int, src: Text)
    requires
        t.kind(i) == "invocation_expression"@ || t.kind(i) == "object_creation_expression"@,
        part == "MD5.Create"@ || part == "SHA1.Create"@ || part == "DES.Create"@ || part
            == "DESCryptoServiceProvider"@ || part == "RC2.Create"@ || part
            == "RC2CryptoServiceProvider"@,
        occurs_at(t.text(i, src), part, p),
    ensures
        is_reported(NoWeakCrypto::found((), t, i, src), "cs/no-weak-crypto"@, t, i),
{
    assert(has_part(t.text(i, src), part));
    lemma_single(NoWeakCrypto::found((), t, i, src), "cs/no-weak-crypto"@, t, i);
}

/// An XML parser that is made is reported, unless the file keeps its parsers from reading
/// document types.
pub proof fn open_parsers_are_reported(
    hardened: bool,
    t: &SyntaxTree,
    i: int,
    class: Text,
    p: int,
    src: Text,
)
    requires
        t.kind(i) == "object_creation_expression"@,
        class == "XmlDocument"@ || class == "XmlTextReader"@,
        occurs_at(t.text(i, src), class, p),
    ensures
        !hardened ==> is_reported(NoXxe::found(hardened, t, i, src), "cs/no-xxe"@, t, i),
        hardened ==> NoXxe::found(hardened, t, i, src) == Seq::<Report>::empty(),
        has_part(src, "DtdProcessing.Prohibit"@) ==> is_hardened(src),
{
    lemma_csharp_rule_kinds();
    assert(has_part(t.text(i, src), class));
    if !hardened {
        lemma_single(NoXxe::found(hardened, t, i, src), "cs/no-xxe"@, t, i);
    }
}

/// A call that lets every origin in is reported, and other calls are not.
pub proof fn open_origins_are_reported(t: &SyntaxTree, i: int, f: Text, src: Text)
    requires
        t.kind(i) == "invocation_expression"@,
        i + 1 < t.after(i),
        t.text(i + 1, src) == f,
    ensures
        f.len() >= "AllowAnyOrigin"@.len() && occurs_at(
            f,
            "AllowAnyOrigin"@,
            f.len() - "AllowAnyOrigin"@.len(),
        ) ==> is_reported(NoCorsStar::found((), t, i, src), "cs/no-cors-star"@, t, i),
        !has_part(f, "AllowAnyOrigin"@) && !has_part(f, "WithOrigins"@) ==> NoCorsStar::found(
            (),
            t,
            i,
            src,
        ) == Seq::<Report>::empty(),
{
    let made = NoCorsStar::found((), t, i, src);
    if made.len() > 0 {
        lemma_single(made, "cs/no-cors-star"@, t, i);
    }
}

} // verus!
