//! What the rules for Go report, told by the calls and declarations of a file.
use crate::common::Visitor;
use crate::finding::Report;
use crate::go::{
    is_secret_literal, trusts_all_proxies, GinNoTrustedProxies, JwtHardcodedSecret, JwtNoVerify,
    NetHttpNoTimeout, NoCommandInjection, NoHardcodedSecret, NoSqlInjection, NoSsrf,
    NoUnsafeDeserialization, NoWeakCrypto, LITERAL_KEY, SECRET_NAME, SQL_STATEMENT,
};
use crate::pattern::regex_matches;
use crate::rule_laws::{is_argument, is_reported, lemma_single};
use crate::text::{has_part, occurs_at, Text};
use crate::tree::SyntaxTree;
use vstd::prelude::*;

verus! {

/// The kinds of nodes of Go that the rules tell apart differ in length or in a letter.
pub(crate) proof fn lemma_go_rule_kinds()
    ensures
        "interpreted_string_literal"@.len() == 26,
        "raw_string_literal"@.len() == 18,
        "identifier"@.len() == 10,
        "call_expression"@.len() == 15,
        "binary_expression"@.len() == 17,
        "short_var_declaration"@.len() == 21,
        "var_spec"@.len() == 8,
        "const_spec"@.len() == 10,
        "import_spec"@.len() == 11,
        "selector_expression"@.len() == 19,
        "identifier"@ != "const_spec"@,
{
    reveal_strlit("interpreted_string_literal");
    reveal_strlit("raw_string_literal");
    reveal_strlit("identifier");
    reveal_strlit("call_expression");
    reveal_strlit("binary_expression");
    reveal_strlit("short_var_declaration");
    reveal_strlit("var_spec");
    reveal_strlit("const_spec");
    reveal_strlit("import_spec");
    reveal_strlit("selector_expression");
    assert("identifier"@[0] != "const_spec"@[0]);
}

/// The functions of Go that the rules look for differ in length or in a letter.
pub(crate) proof fn lemma_go_callees()
    ensures
        "exec.Command"@.len() == 12,
        "exec.CommandContext"@.len() == 19,
        "md5.New"@.len() == 7,
        "md5.Sum"@.len() == 7,
        "sha1.New"@.len() == 8,
        "sha1.Sum"@.len() == 8,
        "gin.Default"@.len() == 11,
        "gin.New"@.len() == 7,
        "http.ListenAndServe"@.len() == 19,
        "http.ListenAndServeTLS"@.len() == 22,
        "http.Get"@.len() == 8,
        "http.Post"@.len() == 9,
        "http.Head"@.len() == 9,
        "http.PostForm"@.len() == 13,
        "http.NewRequest"@.len() == 15,
        "http.NewRequestWithContext"@.len() == 26,
        "gob.NewDecoder"@.len() == 14,
        "yaml.Unmarshal"@.len() == 14,
        "jwt.ParseUnverified"@.len() == 19,
        "jwt.Parse"@.len() == 9,
        "jwt.ParseWithClaims"@.len() == 19,
        "jwt.NewWithClaims"@.len() == 17,
        "fmt.Sprintf"@.len() == 11,
        "exec.CommandContext"@ != "http.ListenAndServe"@,
        "exec.CommandContext"@ != "jwt.ParseUnverified"@,
        "exec.CommandContext"@ != "jwt.ParseWithClaims"@,
        "md5.New"@ != "md5.Sum"@,
        "md5.New"@ != "gin.New"@,
        "md5.Sum"@ != "gin.New"@,
        "sha1.New"@ != "sha1.Sum"@,
        "sha1.New"@ != "http.Get"@,
        "sha1.Sum"@ != "http.Get"@,
        "gin.Default"@ != "fmt.Sprintf"@,
        "http.ListenAndServe"@ != "jwt.ParseUnverified"@,
        "http.ListenAndServe"@ != "jwt.ParseWithClaims"@,
        "http.Post"@ != "http.Head"@,
        "http.Post"@ != "jwt.Parse"@,
        "http.Head"@ != "jwt.Parse"@,
        "gob.NewDecoder"@ != "yaml.Unmarshal"@,
        "jwt.ParseUnverified"@ != "jwt.ParseWithClaims"@,
{
    reveal_strlit("exec.Command");
    reveal_strlit("exec.CommandContext");
    reveal_strlit("md5.New");
    reveal_strlit("md5.Sum");
    reveal_strlit("sha1.New");
    reveal_strlit("sha1.Sum");
    reveal_strlit("gin.Default");
    reveal_strlit("gin.New");
    reveal_strlit("http.ListenAndServe");
    reveal_strlit("http.ListenAndServeTLS");
    reveal_strlit("http.Get");
    reveal_strlit("http.Post");
    reveal_strlit("http.Head");
    reveal_strlit("http.PostForm");
    reveal_strlit("http.NewRequest");
    reveal_strlit("http.NewRequestWithContext");
    reveal_strlit("gob.NewDecoder");
    reveal_strlit("yaml.Unmarshal");
    reveal_strlit("jwt.ParseUnverified");
    reveal_strlit("jwt.Parse");
    reveal_strlit("jwt.ParseWithClaims");
    reveal_strlit("jwt.NewWithClaims");
    reveal_strlit("fmt.Sprintf");
    assert("exec.CommandContext"@[0] != "http.ListenAndServe"@[0]);
    assert("exec.CommandContext"@[0] != "jwt.ParseUnverified"@[0]);
    assert("exec.CommandContext"@[0] != "jwt.ParseWithClaims"@[0]);
    assert("md5.New"@[4] != "md5.Sum"@[4]);
    assert("md5.New"@[0] != "gin.New"@[0]);
    assert("md5.Sum"@[0] != "gin.New"@[0]);
    assert("sha1.New"@[5] != "sha1.Sum"@[5]);
    assert("sha1.New"@[0] != "http.Get"@[0]);
    assert("sha1.Sum"@[0] != "http.Get"@[0]);
    assert("gin.Default"@[0] != "fmt.Sprintf"@[0]);
    assert("http.ListenAndServe"@[0] != "jwt.ParseUnverified"@[0]);
    assert("http.ListenAndServe"@[0] != "jwt.ParseWithClaims"@[0]);
    assert("http.Post"@[5] != "http.Head"@[5]);
    assert("http.Post"@[0] != "jwt.Parse"@[0]);
    assert("http.Head"@[0] != "jwt.Parse"@[0]);
    assert("gob.NewDecoder"@[0] != "yaml.Unmarshal"@[0]);
    assert("jwt.ParseUnverified"@[9] != "jwt.ParseWithClaims"@[9]);
}

/// Whether node `i` is a call of the function `f`.
pub open spec fn is_call(t: &SyntaxTree, i: int, f: Text, src: Text) -> bool {
    t.kind(i) == "call_expression"@ && t.field_text(i, "function"@, src) == Some(f)
}

/// Whether node `i` is a string literal.
pub open spec fn is_text(t: &SyntaxTree, i: int) -> bool {
    t.kind(i) == "interpreted_string_literal"@ || t.kind(i) == "raw_string_literal"@
}

/// A command that is run is reported where the program is no string literal, and only there.
pub proof fn a_command_is_reported_where_it_is_no_literal(
    t: &SyntaxTree,
    i: int,
    f: Text,
    a: int,
    src: Text,
)
    requires
        f == "exec.Command"@ || f == "exec.CommandContext"@,
        is_call(t, i, f, src),
        is_argument(t, i, 0, a),
    ensures
        !is_text(t, a) ==> is_reported(
            NoCommandInjection::found((), t, i, src),
            "go/no-command-injection"@,
            t,
            i,
        ),
        is_text(t, a) ==> NoCommandInjection::found((), t, i, src) == Seq::<Report>::empty(),
{
    if !is_text(t, a) {
        lemma_single(NoCommandInjection::found((), t, i, src), "go/no-command-injection"@, t, i);
    }
}

/// Where the address stands among the arguments of a function that sends a request: first,
/// behind the method, or behind the context and the method.
pub open spec fn is_address(f: Text, k: int) -> bool {
    ||| (f == "http.Get"@ || f == "http.Post"@ || f == "http.Head"@ || f == "http.PostForm"@) && k
        == 0
    ||| f == "http.NewRequest"@ && k == 1
    ||| f == "http.NewRequestWithContext"@ && k == 2
}

/// A request is reported where its address is no string literal, and only there, whatever the
/// other arguments are.
pub proof fn a_request_is_reported_where_its_address_is_no_literal(
    t: &SyntaxTree,
    i: int,
    f: Text,
    k: int,
    a: int,
    src: Text,
)
    requires
        is_address(f, k),
        is_call(t, i, f, src),
        is_argument(t, i, k, a),
    ensures
        !is_text(t, a) ==> is_reported(NoSsrf::found((), t, i, src), "go/no-ssrf"@, t, i),
        is_text(t, a) ==> NoSsrf::found((), t, i, src) == Seq::<Report>::empty(),
{
    lemma_go_callees();
    if !is_text(t, a) {
        lemma_single(NoSsrf::found((), t, i, src), "go/no-ssrf"@, t, i);
    }
}

/// A statement of SQL that is formatted, or that something is added to, is reported, and one
/// that stands alone is not.
pub proof fn a_query_is_reported_where_it_is_put_together(
    t: &SyntaxTree,
    i: int,
    a: int,
    p: int,
    src: Text,
)
    requires
        is_text(t, a),
        regex_matches(SQL_STATEMENT@, t.text(a, src)),
    ensures
        is_call(t, i, "fmt.Sprintf"@, src) && is_argument(t, i, 0, a) ==> is_reported(
            NoSqlInjection::found((), t, i, src),
            "go/no-sql-injection"@,
            t,
            i,
        ),
        t.kind(i) == "binary_expression"@ && t.field(i, "left"@) == Some(a) && 0 <= p < t.text(
            i,
            src,
        ).len() && t.text(i, src)[p] == '+' ==> is_reported(
            NoSqlInjection::found((), t, i, src),
            "go/no-sql-injection"@,
            t,
            i,
        ),
        NoSqlInjection::found((), t, a, src) == Seq::<Report>::empty(),
{
    lemma_go_rule_kinds();
    let made = NoSqlInjection::found((), t, i, src);
    let text = t.text(i, src);
    if 0 <= p < text.len() && text[p] == '+' {
        reveal_strlit("+");
        assert(text.subrange(p, p + 1) =~= "+"@);
        assert(occurs_at(text, "+"@, p));
    }
    if made.len() > 0 {
        lemma_single(made, "go/no-sql-injection"@, t, i);
    }
}

/// A call that makes a weak hash is reported, and so is the import of its package.
pub proof fn weak_hashes_are_reported(t: &SyntaxTree, i: int, f: Text, path: Text, src: Text)
    ensures
        is_call(t, i, f, src) && (f == "md5.New"@ || f == "md5.Sum"@ || f == "sha1.New"@ || f
            == "sha1.Sum"@) ==> is_reported(
            NoWeakCrypto::found((), t, i, src),
            "go/no-weak-crypto"@,
            t,
            i,
        ),
        t.kind(i) == "import_spec"@ && t.field_text(i, "path"@, src) == Some(path) && (path
            == "\"crypto/md5\""@ || path == "\"crypto/sha1\""@) ==> is_reported(
            NoWeakCrypto::found((), t, i, src),
            "go/no-weak-crypto"@,
            t,
            i,
        ),
        t.kind(i) != "call_expression"@ && t.kind(i) != "import_spec"@ ==> NoWeakCrypto::found(
            (),
            t,
            i,
            src,
        ) == Seq::<Report>::empty(),
{
    lemma_go_rule_kinds();
    let made = NoWeakCrypto::found((), t, i, src);
    if made.len() > 0 {
        lemma_single(made, "go/no-weak-crypto"@, t, i);
    }
}

/// Every engine that is made is reported, where the file says nowhere which proxies it
/// trusts. Where it says so, none is.
pub proof fn engines_are_reported_where_no_proxies_are_named(
    t: &SyntaxTree,
    i: int,
    f: Text,
    src: Text,
    p: int,
)
    requires
        f == "gin.Default"@ || f == "gin.New"@,
        is_call(t, i, f, src),
    ensures
        is_reported(
            GinNoTrustedProxies::found((), t, i, src),
            "go/gin-no-trusted-proxies"@,
            t,
            i,
        ),
        occurs_at(src, "SetTrustedProxies"@, p) ==> !trusts_all_proxies(src),
        occurs_at(src, "gin.Default()"@, p) && !has_part(src, "SetTrustedProxies"@)
            ==> trusts_all_proxies(src),
        occurs_at(src, "gin.New()"@, p) && !has_part(src, "SetTrustedProxies"@)
            ==> trusts_all_proxies(src),
{
    lemma_single(
        GinNoTrustedProxies::found((), t, i, src),
        "go/gin-no-trusted-proxies"@,
        t,
        i,
    );
}

/// A server that is started without timeouts is reported.
pub proof fn servers_without_timeouts_are_reported(t: &SyntaxTree, i: int, f: Text, src: Text)
    ensures
        is_call(t, i, f, src) ==> (NetHttpNoTimeout::found((), t, i, src).len() > 0 <==> f
            == "http.ListenAndServe"@ || f == "http.ListenAndServeTLS"@),
        NetHttpNoTimeout::found((), t, i, src).len() > 0 ==> is_reported(
            NetHttpNoTimeout::found((), t, i, src),
            "go/net-http-no-timeout"@,
            t,
            i,
        ),
{
    let made = NetHttpNoTimeout::found((), t, i, src);
    if made.len() > 0 {
        lemma_single(made, "go/net-http-no-timeout"@, t, i);
    }
}

/// A decoder for any type is reported, and YAML that is read into any type.
pub proof fn unsafe_reads_are_reported(t: &SyntaxTree, i: int, p: int, src: Text)
    ensures
        is_call(t, i, "gob.NewDecoder"@, src) ==> is_reported(
            NoUnsafeDeserialization::found((), t, i, src),
            "go/no-unsafe-deserialization"@,
            t,
            i,
        ),
        is_call(t, i, "yaml.Unmarshal"@, src) && (occurs_at(t.text(i, src), "interface{}"@, p)
            || occurs_at(t.text(i, src), "any"@, p)) ==> is_reported(
            NoUnsafeDeserialization::found((), t, i, src),
            "go/no-unsafe-deserialization"@,
            t,
            i,
        ),
        is_call(t, i, "yaml.Unmarshal"@, src) && !has_part(t.text(i, src), "interface{}"@)
            && !has_part(t.text(i, src), "any"@) ==> NoUnsafeDeserialization::found(
            (),
            t,
            i,
            src,
        ) == Seq::<Report>::empty(),
{
    lemma_go_callees();
    let made = NoUnsafeDeserialization::found((), t, i, src);
    if made.len() > 0 {
        lemma_single(made, "go/no-unsafe-deserialization"@, t, i);
    }
}

/// A token that is parsed without a check is reported: by the function that makes none, or by
/// `nil` in the place of the key function. With another key function it is not.
pub proof fn unchecked_tokens_are_reported(
    t: &SyntaxTree,
    i: int,
    f: Text,
    k: int,
    a: int,
    src: Text,
)
    requires
        is_call(t, i, f, src),
    ensures
        f == "jwt.ParseUnverified"@ ==> is_reported(
            JwtNoVerify::found((), t, i, src),
            "go/jwt-no-verify"@,
            t,
            i,
        ),
        (f == "jwt.Parse"@ && k == 1 || f == "jwt.ParseWithClaims"@ && k == 2) && is_argument(
            t,
            i,
            k,
            a,
        ) ==> if t.text(a, src) == "nil"@ {
            is_reported(JwtNoVerify::found((), t, i, src), "go/jwt-no-verify"@, t, i)
        } else {
            JwtNoVerify::found((), t, i, src) == Seq::<Report>::empty()
        },
{
    lemma_go_callees();
    let made = JwtNoVerify::found((), t, i, src);
    if made.len() > 0 {
        lemma_single(made, "go/jwt-no-verify"@, t, i);
    }
}

/// A call that makes or parses a token is reported exactly where a literal key stands in it.
pub proof fn literal_keys_are_reported(t: &SyntaxTree, i: int, f: Text, src: Text)
    requires
        f == "jwt.Parse"@ || f == "jwt.ParseWithClaims"@ || f == "jwt.NewWithClaims"@,
        is_call(t, i, f, src),
    ensures
        regex_matches(LITERAL_KEY@, t.text(i, src)) ==> is_reported(
            JwtHardcodedSecret::found((), t, i, src),
            "go/jwt-hardcoded-secret"@,
            t,
            i,
        ),
        !regex_matches(LITERAL_KEY@, t.text(i, src)) ==> JwtHardcodedSecret::found((), t, i, src)
            == Seq::<Report>::empty(),
{
    let made = JwtHardcodedSecret::found((), t, i, src);
    if made.len() > 0 {
        lemma_single(made, "go/jwt-hardcoded-secret"@, t, i);
    }
}

/// A variable or a constant whose name is that of a secret is reported where it is given a
/// literal, and is not where it is given anything else.
pub proof fn literal_secrets_are_reported(
    t: &SyntaxTree,
    i: int,
    name: Text,
    value: int,
    src: Text,
)
    requires
        t.kind(i) == "short_var_declaration"@ && t.field_text(i, "left"@, src) == Some(name)
            && t.field(i, "right"@) == Some(value) || (t.kind(i) == "var_spec"@ || t.kind(i)
            == "const_spec"@) && t.field_text(i, "name"@, src) == Some(name) && t.field(i, "value"@)
            == Some(value),
    ensures
        regex_matches(SECRET_NAME@, name) && is_secret_literal(t, value, src) ==> is_reported(
            NoHardcodedSecret::found((), t, i, src),
            "go/no-hardcoded-secret"@,
            t,
            i,
        ),
        !regex_matches(SECRET_NAME@, name) ==> NoHardcodedSecret::found((), t, i, src) == Seq::<
            Report,
        >::empty(),
        t.named_children(value).len() > 0 && !is_text(t, t.named_children(value)[0])
            ==> NoHardcodedSecret::found((), t, i, src) == Seq::<Report>::empty(),
{
    lemma_go_rule_kinds();
    let made = NoHardcodedSecret::found((), t, i, src);
    if made.len() > 0 {
        lemma_single(made, "go/no-hardcoded-secret"@, t, i);
    }
}

} // verus!
