//! What the rules for Java report, told by the calls and declarations of a file.
use crate::common::Visitor;
use crate::finding::Report;
use crate::java::{
    allows_all, base_type, broken, chain_root, declared_types, has_literal_part, is_concatenation,
    is_declared, is_star, is_weak, origins_value, types_from, with_declaration, with_declarators,
    HardcodedCryptoAlgorithm, NoCommandInjection, NoPathTraversal, NoSqlInjection, NoSsrf,
    NoUnsafeDeserialization, NoWeakCrypto, NoXss, PqVulnerableCrypto, SpringCorsPermissive,
    SpringCsrfDisabled, SQL_METHODS, WEAK_ALGORITHM,
};
use crate::pattern::regex_matches;
use crate::rule_laws::{is_argument, is_reported, lemma_single};
use crate::text::{
    has_part, is_white, last_segment, occurs_at, trimmed, trimmed_of, uppercase, Text,
};
use crate::text_laws::{segments_stand_at_the_ends, trimming_takes_white_ends_off};
use crate::tree::{gap, SyntaxTree};
use crate::tree_laws::{
    a_child_comes_after_its_elders, children_name_their_parent, is_child, lemma_walk_on,
    walks_children,
};
use vstd::prelude::*;

verus! {

broadcast use crate::tree::group_tree;

/// The kinds of nodes of Java that the rules tell apart differ in length or in a letter.
pub(crate) proof fn lemma_java_rule_kinds()
    ensures
        "string_literal"@.len() == 14,
        "binary_expression"@.len() == 17,
        "parenthesized_expression"@.len() == 24,
        "ternary_expression"@.len() == 18,
        "identifier"@.len() == 10,
        "method_invocation"@.len() == 17,
        "object_creation_expression"@.len() == 26,
        "local_variable_declaration"@.len() == 26,
        "field_declaration"@.len() == 17,
        "formal_parameter"@.len() == 16,
        "variable_declarator"@.len() == 19,
        "assignment_expression"@.len() == 21,
        "marker_annotation"@.len() == 17,
        "annotation"@.len() == 10,
        "binary_expression"@ != "method_invocation"@,
        "binary_expression"@ != "field_declaration"@,
        "binary_expression"@ != "marker_annotation"@,
        "identifier"@ != "annotation"@,
        "method_invocation"@ != "field_declaration"@,
        "method_invocation"@ != "marker_annotation"@,
        "object_creation_expression"@ != "local_variable_declaration"@,
        "field_declaration"@ != "marker_annotation"@,
{
    reveal_strlit("string_literal");
    reveal_strlit("binary_expression");
    reveal_strlit("parenthesized_expression");
    reveal_strlit("ternary_expression");
    reveal_strlit("identifier");
    reveal_strlit("method_invocation");
    reveal_strlit("object_creation_expression");
    reveal_strlit("local_variable_declaration");
    reveal_strlit("field_declaration");
    reveal_strlit("formal_parameter");
    reveal_strlit("variable_declarator");
    reveal_strlit("assignment_expression");
    reveal_strlit("marker_annotation");
    reveal_strlit("annotation");
    assert("binary_expression"@[0] != "method_invocation"@[0]);
    assert("binary_expression"@[0] != "field_declaration"@[0]);
    assert("binary_expression"@[0] != "marker_annotation"@[0]);
    assert("identifier"@[0] != "annotation"@[0]);
    assert("method_invocation"@[0] != "field_declaration"@[0]);
    assert("method_invocation"@[1] != "marker_annotation"@[1]);
    assert("object_creation_expression"@[0] != "local_variable_declaration"@[0]);
    assert("field_declaration"@[0] != "marker_annotation"@[0]);
}

/// The methods of Java that the rules look for differ in length or in a letter.
pub(crate) proof fn lemma_java_rule_methods()
    ensures
        "exec"@.len() == 4,
        "readObject"@.len() == 10,
        "load"@.len() == 4,
        "getForObject"@.len() == 12,
        "getForEntity"@.len() == 12,
        "postForObject"@.len() == 13,
        "postForEntity"@.len() == 13,
        "exchange"@.len() == 8,
        "get"@.len() == 3,
        "getInstance"@.len() == 11,
        "csrf"@.len() == 4,
        "disable"@.len() == 7,
        "write"@.len() == 5,
        "println"@.len() == 7,
        "print"@.len() == 5,
        "exec"@ != "load"@,
        "exec"@ != "csrf"@,
        "load"@ != "csrf"@,
        "getForObject"@ != "getForEntity"@,
        "postForObject"@ != "postForEntity"@,
        "disable"@ != "println"@,
        "write"@ != "print"@,
{
    reveal_strlit("exec");
    reveal_strlit("readObject");
    reveal_strlit("load");
    reveal_strlit("getForObject");
    reveal_strlit("getForEntity");
    reveal_strlit("postForObject");
    reveal_strlit("postForEntity");
    reveal_strlit("exchange");
    reveal_strlit("get");
    reveal_strlit("getInstance");
    reveal_strlit("csrf");
    reveal_strlit("disable");
    reveal_strlit("write");
    reveal_strlit("println");
    reveal_strlit("print");
    assert("exec"@[0] != "load"@[0]);
    assert("exec"@[0] != "csrf"@[0]);
    assert("load"@[0] != "csrf"@[0]);
    assert("getForObject"@[6] != "getForEntity"@[6]);
    assert("postForObject"@[7] != "postForEntity"@[7]);
    assert("disable"@[0] != "println"@[0]);
    assert("write"@[0] != "print"@[0]);
}

/// Whether node `i` is a call of the method `name`.
pub open spec fn is_call(t: &SyntaxTree, i: int, name: Text, src: Text) -> bool {
    t.kind(i) == "method_invocation"@ && t.field_text(i, "name"@, src) == Some(name)
}

/// Whether node `i` creates an object of the class `class`.
pub open spec fn creates(t: &SyntaxTree, i: int, class: Text, src: Text) -> bool {
    t.kind(i) == "object_creation_expression"@ && t.field_text(i, "type"@, src) == Some(class)
}

/// Whether node `i` is a literal of any type.
pub open spec fn is_literal(t: &SyntaxTree, i: int) -> bool {
    ||| t.kind(i) == "string_literal"@
    ||| t.kind(i) == "character_literal"@
    ||| t.kind(i) == "decimal_integer_literal"@
    ||| t.kind(i) == "hex_integer_literal"@
    ||| t.kind(i) == "octal_integer_literal"@
    ||| t.kind(i) == "binary_integer_literal"@
    ||| t.kind(i) == "decimal_floating_point_literal"@
    ||| t.kind(i) == "hex_floating_point_literal"@
    ||| t.kind(i) == "true"@
    ||| t.kind(i) == "false"@
    ||| t.kind(i) == "null_literal"@
}

// ─── Strings that are put together ───────────────────────────────────────────
/// Whether node `i` adds the operands at the nodes `l` and `r`.
pub open spec fn adds(t: &SyntaxTree, i: int, l: int, r: int, src: Text) -> bool {
    &&& t.kind(i) == "binary_expression"@
    &&& t.field_text(i, "operator"@, src) == Some("+"@)
    &&& t.field(i, "left"@) == Some(l)
    &&& t.field(i, "right"@) == Some(r)
}

/// A sum is a string that is put together where an operand is a string literal or such a sum
/// itself, on either side. Where neither operand holds a literal, it is not.
pub proof fn a_sum_with_a_literal_is_a_concatenation(
    t: &SyntaxTree,
    i: int,
    l: int,
    r: int,
    src: Text,
)
    requires
        t.wf(),
        0 <= i < t.len(),
        adds(t, i, l, r, src),
        0 <= l < t.len(),
        0 <= r < t.len(),
    ensures
        t.kind(l) == "string_literal"@ || t.kind(r) == "string_literal"@ ==> is_concatenation(
            t,
            i,
            src,
        ),
        t.kind(l) == "binary_expression"@ && is_concatenation(t, l, src) ==> is_concatenation(
            t,
            i,
            src,
        ),
        t.kind(r) == "binary_expression"@ && is_concatenation(t, r, src) ==> is_concatenation(
            t,
            i,
            src,
        ),
        (t.kind(l) == "identifier"@ || t.kind(l) == "method_invocation"@) && (t.kind(r)
            == "identifier"@ || t.kind(r) == "method_invocation"@) ==> !is_concatenation(t, i, src),
{
    lemma_java_rule_kinds();
    assert(has_literal_part(t, i, src) <==> has_literal_part(t, l, src) || has_literal_part(
        t,
        r,
        src,
    ));
}

/// Parentheses change nothing of what a string is, and a conditional is put together where a
/// branch is.
pub proof fn parentheses_and_conditionals_pass_concatenations_on(
    t: &SyntaxTree,
    i: int,
    k: int,
    src: Text,
)
    requires
        0 <= i < t.len(),
    ensures
        t.kind(i) == "parenthesized_expression"@ && t.named_children(i).len() > 0
            && t.named_children(i)[0] == k ==> (is_concatenation(t, i, src) <==> is_concatenation(
            t,
            k,
            src,
        )) && (has_literal_part(t, i, src) <==> has_literal_part(t, k, src)),
        t.kind(i) == "ternary_expression"@ && (t.field(i, "consequence"@) == Some(k) || t.field(
            i,
            "alternative"@,
        ) == Some(k)) && is_concatenation(t, k, src) ==> is_concatenation(t, i, src),
        t.kind(i) == "string_literal"@ || t.kind(i) == "identifier"@ || t.kind(i)
            == "method_invocation"@ ==> !is_concatenation(t, i, src),
{
    lemma_java_rule_kinds();
}

// ─── Declared types ──────────────────────────────────────────────────────────
/// A type is known by its simple name: without its package and its type arguments.
pub proof fn a_type_is_known_by_its_simple_name(package: Text, name: Text, arguments: Text)
    requires
        name.len() > 0,
        !name.contains('.'),
        !name.contains('<'),
        !is_white(name[0]),
        !is_white(name.last()),
        package.len() > 0,
        !package.contains('<'),
        !is_white(package[0]),
        arguments.len() > 0,
        !is_white(arguments.last()),
    ensures
        base_type(name) == name,
        base_type(package + seq!['.'] + name) == name,
        base_type(name + seq!['<'] + arguments) == name,
        base_type(package + seq!['.'] + name + seq!['<'] + arguments) == name,
{
    let none = Seq::<char>::empty();
    let full = package + seq!['.'] + name;
    lemma_trim(name);
    lemma_trim(full);
    assert(full.last() == name.last() && full[0] == package[0]);
    segments_stand_at_the_ends(package, name, '.');
    segments_stand_at_the_ends(name, arguments, '<');
    segments_stand_at_the_ends(name, name, '.');
    assert(!full.contains('<')) by {
        if full.contains('<') {
            let k = choose|k: int| 0 <= k < full.len() && full[k] == '<';
            if k < package.len() {
                assert(package[k] == '<');
            } else if k > package.len() {
                assert(name[k - package.len() - 1] == '<');
            }
        }
    }
    segments_stand_at_the_ends(full, arguments, '<');
    let generic = name + seq!['<'] + arguments;
    let both = full + seq!['<'] + arguments;
    lemma_trim(generic);
    lemma_trim(both);
}

pub(crate) proof fn lemma_trim(s: Text)
    requires
        s.len() > 0,
        !is_white(s[0]),
        !is_white(s.last()),
    ensures
        trimmed(s) == s,
{
    let none = Seq::<char>::empty();
    trimming_takes_white_ends_off(none, s, none);
    assert(none + s + none =~= s);
}

/// Whether node `m` declares the variable, the field or the parameter `n` with the type `ty`.
pub open spec fn declares(t: &SyntaxTree, m: int, n: Text, ty: Text, src: Text) -> bool {
    ||| (t.kind(m) == "local_variable_declaration"@ || t.kind(m) == "field_declaration"@)
        && t.field_text(m, "type"@, src) == Some(ty) && exists|d: int| #[trigger]
        is_child(t, m, d) && t.kind(d) == "variable_declarator"@ && t.field_text(d, "name"@, src)
            == Some(n)
    ||| t.kind(m) == "formal_parameter"@ && t.field_text(m, "type"@, src) == Some(ty)
        && t.field_text(m, "name"@, src) == Some(n)
}

proof fn lemma_declarators(
    t: &SyntaxTree,
    m: int,
    c: int,
    ty: Text,
    src: Text,
    types: Map<Text, Text>,
    n: Text,
)
    requires
        t.wf(),
        m < c,
        walks_children(t, m, c, t.after(m)),
    ensures
        ({
            let out = with_declarators(t, c, t.after(m), ty, src, types);
            &&& (types.contains_key(n) && types[n] == ty) || (exists|d: int| #[trigger]
                is_child(t, m, d) && c <= d && t.kind(d) == "variable_declarator"@ && t.field_text(
                    d,
                    "name"@,
                    src,
                ) == Some(n)) ==> out.contains_key(n) && out[n] == ty
            &&& (forall|d: int| #[trigger]
                is_child(t, m, d) && t.kind(d) == "variable_declarator"@ ==> t.field_text(
                    d,
                    "name"@,
                    src,
                ) != Some(n)) ==> lookup_type(out, n) == lookup_type(types, n)
        }),
    decreases gap(c, t.after(m)),
{
    if c < t.after(m) {
        lemma_walk_on(t, m, c, t.after(m));
        let next = match t.field_text(c, "name"@, src) {
            Some(x) => if t.kind(c) == "variable_declarator"@ {
                types.insert(x, ty)
            } else {
                types
            },
            None => types,
        };
        lemma_declarators(t, m, t.after(c), ty, src, next, n);
        if exists|d: int| #[trigger]
            is_child(t, m, d) && c <= d && t.kind(d) == "variable_declarator"@ && t.field_text(
                d,
                "name"@,
                src,
            ) == Some(n) {
            let d = choose|d: int| #[trigger]
                is_child(t, m, d) && c <= d && t.kind(d) == "variable_declarator"@ && t.field_text(
                    d,
                    "name"@,
                    src,
                ) == Some(n);
            a_child_comes_after_its_elders(t, m, c, d);
        }
    } else {
        if exists|d: int| #[trigger]
            is_child(t, m, d) && c <= d && t.kind(d) == "variable_declarator"@ && t.field_text(
                d,
                "name"@,
                src,
            ) == Some(n) {
            let d = choose|d: int| #[trigger]
                is_child(t, m, d) && c <= d && t.kind(d) == "variable_declarator"@ && t.field_text(
                    d,
                    "name"@,
                    src,
                ) == Some(n);
            a_child_comes_after_its_elders(t, m, c, d);
        }
    }
}

/// What a table of declared types says of a name.
pub open spec fn lookup_type(types: Map<Text, Text>, n: Text) -> Option<Text> {
    if types.contains_key(n) {
        Some(types[n])
    } else {
        None
    }
}

proof fn lemma_declaration(
    t: &SyntaxTree,
    m: int,
    n: Text,
    src: Text,
    types: Map<Text, Text>,
)
    requires
        t.wf(),
        0 <= m < t.len(),
    ensures
        forall|ty: Text| #[trigger]
            declares(t, m, n, ty, src) ==> lookup_type(with_declaration(t, m, src, types), n)
                == Some(base_type(ty)),
        (forall|ty: Text| !#[trigger] declares(t, m, n, ty, src)) ==> lookup_type(
            with_declaration(t, m, src, types),
            n,
        ) == lookup_type(types, n),
{
    lemma_java_rule_kinds();
    if t.field(m, "type"@) is Some {
        let ty = t.field_text(m, "type"@, src)->0;
        assert forall|d: int|
            #![trigger t.siblings(m + 1, t.after(m)).contains(d)]
            t.siblings(m + 1, t.after(m)).contains(d) implies is_child(t, m, d) by {
            children_name_their_parent(t, m, d);
        }
        lemma_declarators(t, m, m + 1, base_type(ty), src, types, n);
        assert forall|d: int| #[trigger] is_child(t, m, d) implies m + 1 <= d by {
            a_child_comes_after_its_elders(t, m, m, d);
        }
        if forall|x: Text| !#[trigger] declares(t, m, n, x, src) {
            assert(!declares(t, m, n, ty, src));
        }
    }
}

proof fn lemma_types(
    t: &SyntaxTree,
    c: int,
    m: int,
    n: Text,
    ty: Text,
    src: Text,
    types: Map<Text, Text>,
)
    requires
        t.wf(),
        0 <= c,
        t.after(0) <= t.len(),
        c <= m < t.after(0) && declares(t, m, n, ty, src) || c > m && lookup_type(types, n) == Some(
            base_type(ty),
        ),
        forall|k: int, x: Text|
            m < k < t.after(0) ==> !#[trigger] declares(t, k, n, x, src),
    ensures
        lookup_type(types_from(t, c, t.after(0), src, types), n) == Some(base_type(ty)),
    decreases gap(c, t.after(0)),
{
    if c < t.after(0) {
        lemma_declaration(t, c, n, src, types);
        lemma_types(t, c + 1, m, n, ty, src, with_declaration(t, c, src, types));
    }
}

/// A name is of the type that its last declaration in the file gives it.
pub proof fn the_last_declaration_gives_the_type(
    t: &SyntaxTree,
    m: int,
    n: Text,
    ty: Text,
    src: Text,
)
    requires
        t.wf(),
        0 <= m < t.after(0),
        t.after(0) <= t.len(),
        declares(t, m, n, ty, src),
        forall|k: int, x: Text|
            m < k < t.after(0) ==> !#[trigger] declares(t, k, n, x, src),
    ensures
        is_declared(declared_types(t, src), n, base_type(ty)),
{
    lemma_types(t, 0, m, n, ty, src, Map::empty());
}

// ─── Calls with values from elsewhere ────────────────────────────────────────
/// A query method is reported where its first argument is a string that is put together, and
/// is not where that is a literal or a variable.
pub proof fn a_query_is_reported_where_it_is_put_together(
    t: &SyntaxTree,
    i: int,
    name: Text,
    a: int,
    src: Text,
)
    requires
        is_call(t, i, name, src),
        is_argument(t, i, 0, a),
    ensures
        regex_matches(SQL_METHODS@, name) && is_concatenation(t, a, src) ==> is_reported(
            NoSqlInjection::found((), t, i, src),
            "java/no-sql-injection"@,
            t,
            i,
        ),
        t.kind(a) == "string_literal"@ || t.kind(a) == "identifier"@ || !regex_matches(
            SQL_METHODS@,
            name,
        ) ==> NoSqlInjection::found((), t, i, src) == Seq::<Report>::empty(),
{
    lemma_java_rule_kinds();
    let made = NoSqlInjection::found((), t, i, src);
    if made.len() > 0 {
        lemma_single(made, "java/no-sql-injection"@, t, i);
    }
}

/// A command that is run through the runtime or a process builder is reported where it is no
/// literal, and only there.
pub proof fn a_command_is_reported_where_it_is_no_literal(
    t: &SyntaxTree,
    i: int,
    object: Text,
    p: int,
    a: int,
    src: Text,
)
    requires
        is_argument(t, i, 0, a),
        is_call(t, i, "exec"@, src) && t.field_text(i, "object"@, src) == Some(object) && (
        occurs_at(object, "Runtime"@, p) || occurs_at(object, "getRuntime()"@, p)) || creates(
            t,
            i,
            "ProcessBuilder"@,
            src,
        ),
    ensures
        !is_literal(t, a) ==> is_reported(
            NoCommandInjection::found((), t, i, src),
            "java/no-command-injection"@,
            t,
            i,
        ),
        is_literal(t, a) ==> NoCommandInjection::found((), t, i, src) == Seq::<Report>::empty(),
{
    lemma_java_rule_kinds();
    let made = NoCommandInjection::found((), t, i, src);
    if made.len() > 0 {
        lemma_single(made, "java/no-command-injection"@, t, i);
    }
}

/// Whether a receiver is of a class, by what it is called or by how it is declared.
pub open spec fn is_of_class(types: Map<Text, Text>, object: Text, class: Text) -> bool {
    has_part(object, class) || types.contains_key(object) && types[object] == class
}

/// Objects that are read from a stream or a decoder of any type are reported, and so is YAML
/// that is loaded.
pub proof fn objects_of_any_type_are_reported(
    types: Map<Text, Text>,
    t: &SyntaxTree,
    i: int,
    object: Text,
    src: Text,
)
    requires
        t.field_text(i, "object"@, src) == Some(object),
    ensures
        is_call(t, i, "readObject"@, src) ==> if is_of_class(types, object, "ObjectInputStream"@)
            || is_of_class(types, object, "XMLDecoder"@) {
            is_reported(
                NoUnsafeDeserialization::found(types, t, i, src),
                "java/no-unsafe-deserialization"@,
                t,
                i,
            )
        } else {
            NoUnsafeDeserialization::found(types, t, i, src) == Seq::<Report>::empty()
        },
        is_call(t, i, "load"@, src) ==> if has_part(object, "Yaml"@) || has_part(object, "yaml"@) {
            is_reported(
                NoUnsafeDeserialization::found(types, t, i, src),
                "java/no-unsafe-deserialization"@,
                t,
                i,
            )
        } else {
            NoUnsafeDeserialization::found(types, t, i, src) == Seq::<Report>::empty()
        },
{
    lemma_java_rule_methods();
    let made = NoUnsafeDeserialization::found(types, t, i, src);
    if made.len() > 0 {
        lemma_single(made, "java/no-unsafe-deserialization"@, t, i);
    }
}

/// A request is reported where its address is no literal, and only there: by a new address or
/// by a template for requests.
pub proof fn a_request_is_reported_where_its_address_is_no_literal(
    types: Map<Text, Text>,
    t: &SyntaxTree,
    i: int,
    name: Text,
    object: Text,
    a: int,
    src: Text,
)
    requires
        is_argument(t, i, 0, a),
        creates(t, i, "URL"@, src) || is_call(t, i, name, src) && (name == "getForObject"@ || name
            == "getForEntity"@ || name == "postForObject"@ || name == "postForEntity"@ || name
            == "exchange"@) && t.field_text(i, "object"@, src) == Some(object) && (object
            == "restTemplate"@ || is_of_class(types, object, "RestTemplate"@)),
    ensures
        !is_literal(t, a) ==> is_reported(
            NoSsrf::found(types, t, i, src),
            "java/no-ssrf"@,
            t,
            i,
        ),
        is_literal(t, a) ==> NoSsrf::found(types, t, i, src) == Seq::<Report>::empty(),
{
    lemma_java_rule_kinds();
    let made = NoSsrf::found(types, t, i, src);
    if made.len() > 0 {
        lemma_single(made, "java/no-ssrf"@, t, i);
    }
}

/// A file is reported where its path is no literal, and only there.
pub proof fn a_file_is_reported_where_its_path_is_no_literal(t: &SyntaxTree, i: int, a: int, src: Text)
    requires
        is_argument(t, i, 0, a),
        creates(t, i, "File"@, src) || creates(t, i, "FileInputStream"@, src) || is_call(
            t,
            i,
            "get"@,
            src,
        ) && (t.field_text(i, "object"@, src) == Some("Paths"@) || t.field_text(i, "object"@, src)
            == Some("Path"@)),
    ensures
        !is_literal(t, a) ==> is_reported(
            NoPathTraversal::found((), t, i, src),
            "java/no-path-traversal"@,
            t,
            i,
        ),
        is_literal(t, a) ==> NoPathTraversal::found((), t, i, src) == Seq::<Report>::empty(),
{
    lemma_java_rule_kinds();
    let made = NoPathTraversal::found((), t, i, src);
    if made.len() > 0 {
        lemma_single(made, "java/no-path-traversal"@, t, i);
    }
}

/// What is written to a response is reported where it is no literal, and only there.
pub proof fn a_response_is_reported_where_it_is_no_literal(
    t: &SyntaxTree,
    i: int,
    name: Text,
    object: Text,
    a: int,
    src: Text,
)
    requires
        is_argument(t, i, 0, a),
        name == "write"@ || name == "println"@ || name == "print"@,
        is_call(t, i, name, src),
        t.field_text(i, "object"@, src) == Some(object),
        object == "out"@ || object == "writer"@ || object == "pw"@ || has_part(
            object,
            "getWriter()"@,
        ) || has_part(object, "PrintWriter"@),
    ensures
        !is_literal(t, a) ==> is_reported(NoXss::found((), t, i, src), "java/no-xss"@, t, i),
        is_literal(t, a) ==> NoXss::found((), t, i, src) == Seq::<Report>::empty(),
{
    let made = NoXss::found((), t, i, src);
    if made.len() > 0 {
        lemma_single(made, "java/no-xss"@, t, i);
    }
}

// ─── Algorithms ──────────────────────────────────────────────────────────────
/// Whether node `i` asks the class `class` for the algorithm at node `a`.
pub open spec fn chooses(t: &SyntaxTree, i: int, class: Text, a: int, src: Text) -> bool {
    is_call(t, i, "getInstance"@, src) && t.field_text(i, "object"@, src) == Some(class)
        && is_argument(t, i, 0, a)
}

/// A weak algorithm is reported where a cipher, a hash or a key is made of it, and a strong
/// one is not.
pub proof fn weak_algorithms_are_reported(t: &SyntaxTree, i: int, class: Text, a: int, src: Text)
    requires
        chooses(t, i, class, a, src),
        class == "Cipher"@ || class == "MessageDigest"@ || class == "SecretKeyFactory"@ || class
            == "KeyGenerator"@,
    ensures
        regex_matches(WEAK_ALGORITHM@, t.text(a, src)) ==> is_reported(
            NoWeakCrypto::found((), t, i, src),
            "java/no-weak-crypto"@,
            t,
            i,
        ),
        !regex_matches(WEAK_ALGORITHM@, t.text(a, src)) ==> NoWeakCrypto::found((), t, i, src)
            == Seq::<Report>::empty(),
{
    let made = NoWeakCrypto::found((), t, i, src);
    if made.len() > 0 {
        lemma_single(made, "java/no-weak-crypto"@, t, i);
    }
}

/// An algorithm that a quantum computer breaks is reported where a class of public keys is
/// asked for it, by its name without quotes.
pub proof fn broken_algorithms_are_reported(
    t: &SyntaxTree,
    i: int,
    class: Text,
    a: int,
    algorithm: Text,
    src: Text,
)
    requires
        chooses(t, i, class, a, src),
        class == "KeyPairGenerator"@ || class == "KeyAgreement"@ || class == "Signature"@ || class
            == "Cipher"@ || class == "KeyFactory"@,
        trimmed_of(t.text(a, src), '"', '"') == algorithm,
    ensures
        algorithm == "RSA"@ || algorithm == "EC"@ || algorithm == "ECDSA"@ || algorithm == "DSA"@
            || algorithm == "DH"@ || algorithm == "ECDH"@ || algorithm == "DiffieHellman"@
            || algorithm == "Ed25519"@ || algorithm == "Ed448"@ || algorithm == "EdDSA"@ || algorithm
            == "X25519"@ || algorithm == "X448"@ || algorithm == "XDH"@ || has_part(
            uppercase(algorithm),
            "WITHRSA"@,
        ) || has_part(uppercase(algorithm), "WITHECDSA"@) || occurs_at(
            uppercase(algorithm),
            "RSA/"@,
            0,
        ) || occurs_at(uppercase(algorithm), "RSA_"@, 0) ==> is_reported(
            PqVulnerableCrypto::found((), t, i, src),
            "java/pq-vulnerable-crypto"@,
            t,
            i,
        ),
        broken(algorithm) is None ==> PqVulnerableCrypto::found((), t, i, src) == Seq::<
            Report,
        >::empty(),
{
    let made = PqVulnerableCrypto::found((), t, i, src);
    if made.len() > 0 {
        lemma_single(made, "java/pq-vulnerable-crypto"@, t, i);
    }
}

/// An algorithm that is chosen by a literal is reported for that, unless it is a weak one,
/// which another rule reports. One that is chosen by a variable is not.
pub proof fn literal_algorithms_are_reported(
    t: &SyntaxTree,
    i: int,
    class: Text,
    a: int,
    src: Text,
)
    requires
        chooses(t, i, class, a, src),
        class == "Cipher"@ || class == "MessageDigest"@ || class == "Signature"@ || class
            == "KeyPairGenerator"@ || class == "KeyAgreement"@ || class == "KeyFactory"@ || class
            == "SecretKeyFactory"@ || class == "KeyGenerator"@ || class == "Mac"@ || class
            == "AlgorithmParameters"@,
    ensures
        t.kind(a) == "string_literal"@ && !is_weak(
            uppercase(trimmed_of(t.text(a, src), '"', '"')),
        ) ==> is_reported(
            HardcodedCryptoAlgorithm::found((), t, i, src),
            "java/hardcoded-crypto-algorithm"@,
            t,
            i,
        ),
        t.kind(a) != "string_literal"@ || is_weak(uppercase(trimmed_of(t.text(a, src), '"', '"')))
            ==> HardcodedCryptoAlgorithm::found((), t, i, src) == Seq::<Report>::empty(),
{
    let made = HardcodedCryptoAlgorithm::found((), t, i, src);
    if made.len() > 0 {
        lemma_single(made, "java/hardcoded-crypto-algorithm"@, t, i);
    }
}

// ─── Settings ────────────────────────────────────────────────────────────────
/// A call in a chain starts where the call that it is made on starts, and a chain starts at
/// what is not called on anything.
pub proof fn a_chain_starts_at_its_first_receiver(t: &SyntaxTree, i: int, k: int)
    requires
        0 <= i < t.len(),
    ensures
        t.field(i, "object"@) == Some(k) ==> chain_root(t, i) == chain_root(t, k),
        t.field(i, "object"@) is None ==> chain_root(t, i) == i,
{
}

/// A call of `csrf` on the settings of a server is reported where protection is switched off
/// by the next call in the chain or by a call in its arguments, and is not where neither is.
pub proof fn disabled_protection_is_reported(
    types: Map<Text, Text>,
    t: &SyntaxTree,
    i: int,
    root: int,
    m: int,
    src: Text,
)
    requires
        is_call(t, i, "csrf"@, src),
        chain_root(t, i) == root,
        t.kind(root) == "identifier"@,
    ensures
        ({
            let name = trimmed(t.text(root, src));
            let on_server = name == "http"@ || name == "httpSecurity"@ || is_of_class(
                types,
                name,
                "HttpSecurity"@,
            );
            let next = t.parent(i) == Some(m) && is_call(t, m, "disable"@, src) && t.field(
                m,
                "object"@,
            ) == Some(i);
            let within = t.field(i, "arguments"@) matches Some(args) && args <= m < t.after(args)
                && is_call(t, m, "disable"@, src);
            &&& on_server && (next || within) ==> is_reported(
                SpringCsrfDisabled::found(types, t, i, src),
                "java/spring-csrf-disabled"@,
                t,
                i,
            )
            &&& !on_server ==> SpringCsrfDisabled::found(types, t, i, src) == Seq::<
                Report,
            >::empty()
        }),
{
    lemma_java_rule_methods();
    let made = SpringCsrfDisabled::found(types, t, i, src);
    assert(crate::java::invoked(t, m, src) == Some("disable"@) <==> is_call(
        t,
        m,
        "disable"@,
        src,
    ));
    if made.len() > 0 {
        lemma_single(made, "java/spring-csrf-disabled"@, t, i);
    }
}

/// An annotation that lets other origins in is reported where it names none, or where its
/// `origins` is a star.
pub proof fn open_origins_are_reported(
    t: &SyntaxTree,
    i: int,
    name: Text,
    args: int,
    k: int,
    v: int,
    src: Text,
)
    requires
        t.field_text(i, "name"@, src) == Some(name),
        name == "CrossOrigin"@ || last_segment(name, '.') == "CrossOrigin"@,
    ensures
        t.kind(i) == "marker_annotation"@ ==> is_reported(
            SpringCorsPermissive::found((), t, i, src),
            "java/spring-cors-permissive"@,
            t,
            i,
        ),
        t.kind(i) == "annotation"@ && t.field(i, "arguments"@) == Some(args) && 0 <= k
            < t.children(args).len() && t.kind(t.children(args)[k]) == "element_value_pair"@
            && t.field_text(t.children(args)[k], "key"@, src) == Some("origins"@) && t.field(
            t.children(args)[k],
            "value"@,
        ) == Some(v) && t.kind(v) == "string_literal"@ && trimmed(t.text(v, src)) == "\"*\""@
            ==> is_reported(
            SpringCorsPermissive::found((), t, i, src),
            "java/spring-cors-permissive"@,
            t,
            i,
        ),
{
    let made = SpringCorsPermissive::found((), t, i, src);
    if t.kind(i) == "annotation"@ && t.field(i, "arguments"@) == Some(args) && 0 <= k < t.children(
        args,
    ).len() {
        let kids = t.children(args);
        assert(origins_value(t, kids[k], src) == Some(v) && is_star(t, v, src) ==> allows_all(
            t,
            i,
            src,
        ));
    }
    if made.len() > 0 {
        lemma_single(made, "java/spring-cors-permissive"@, t, i);
    }
}

} // verus!
