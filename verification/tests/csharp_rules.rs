use taintlint::common::SecretScanThresholds;
use taintlint::context::FileContext;
use taintlint::csharp::{
    NoCommandInjection, NoCorsStar, NoHardcodedSecret, NoLdapInjection, NoPathTraversal,
    NoSqlInjection, NoSsrf, NoUnsafeDeserialization, NoWeakCrypto, NoXxe,
};
use taintlint::finding::{Finding, Severity};
use taintlint::text_map::TextSet;
use taintlint::tree::{SyntaxNode, SyntaxTree};

fn add_nodes(
    cursor: &mut tree_sitter::TreeCursor<'_>,
    parent: Option<usize>,
    nodes: &mut Vec<SyntaxNode>,
) {
    let n = cursor.node();
    let index = nodes.len();
    nodes.push(SyntaxNode {
        kind: n.kind().to_string(),
        named: n.is_named(),
        field: cursor.field_name().map(|f| f.to_string()),
        start_byte: n.start_byte(),
        end_byte: n.end_byte(),
        start_row: n.start_position().row,
        start_column: n.start_position().column,
        end_row: n.end_position().row,
        end_column: n.end_position().column,
        parent,
        end: 0,
    });
    if cursor.goto_first_child() {
        loop {
            add_nodes(cursor, Some(index), nodes);
            if !cursor.goto_next_sibling() {
                break;
            }
        }
        cursor.goto_parent();
    }
    nodes[index].end = nodes.len();
}

fn parse(source: &str) -> SyntaxTree {
    let mut parser = tree_sitter::Parser::new();
    parser
        .set_language(&tree_sitter_c_sharp::LANGUAGE.into())
        .expect("the grammar should load");
    let parsed = parser.parse(source, None).expect("the fixture should parse");
    let mut nodes = Vec::new();
    add_nodes(&mut parsed.walk(), None, &mut nodes);
    let tree = SyntaxTree { nodes };
    assert!(tree.check(source));
    tree
}

fn said(findings: &[Finding]) -> Vec<(usize, String)> {
    findings.iter().map(|f| (f.line, f.description.clone())).collect()
}

fn lines_of(findings: &[Finding]) -> Vec<usize> {
    findings.iter().map(|f| f.line).collect()
}

fn context<'a>(thresholds: SecretScanThresholds) -> FileContext<'a> {
    FileContext {
        go_aliases: None,
        cross_file_summaries: None,
        go_same_package_paths: None,
        java_same_package_paths: None,
        secret_thresholds: thresholds,
    }
}

fn in_method(lines: &str) -> String {
    format!("class A {{\n void M() {{\n{}\n }}\n}}\n", lines)
}

#[test]
fn csharp_concatenated_queries_are_found() {
    let src = in_method(
        "db.FromSqlRaw(\"SELECT \" + id);\n\
         db.FromSqlRaw(\"SELECT \" + \"1\");\n\
         db.Query(\"SELECT \" + id);\n\
         const string Table = \"users\";\n\
         db.FromSqlRaw(\"SELECT * FROM \" + Table);\n\
         cmd.ExecuteScalar(Build((\"a\") + Name()));\n\
         db.FromSqlRaw(a - b);",
    );
    let found = NoSqlInjection.check(&src, &parse(&src));
    assert_eq!(lines_of(&found), vec![3, 8]);
    assert_eq!(
        found[0].description,
        "SQL query built with string concatenation — use parameterized queries"
    );
    assert_eq!(found[0].rule_id, "cs/no-sql-injection");
    assert_eq!(found[0].severity, Severity::Critical);
}

#[test]
fn csharp_constants_are_resolved_in_scope_first() {
    let src = "class A {\n const string T = \"t\";\n void M() { var T = Name(); db.FromSqlRaw(\"x\" + T); }\n\
               void N() { db.FromSqlRaw(\"x\" + T); }\n}\n";
    assert_eq!(lines_of(&NoSqlInjection.check(src, &parse(src))), vec![3, 4]);
    let once = "class A {\n const string T = \"t\";\n void N() { db.FromSqlRaw(\"x\" + T); }\n}\n";
    assert!(NoSqlInjection.check(once, &parse(once)).is_empty());
}

#[test]
fn csharp_dynamic_processes_are_found() {
    let src = in_method(
        "Process.Start(cmd);\n\
         Process.Start(\"ls\");\n\
         Process.Start(@\"c:\\ls\");\n\
         Process.Start($\"ls {x}\");\n\
         var safe = \"ls\";\n\
         Process.Start(safe);\n\
         var checked1 = ValidateName(x);\n\
         Process.Start(checked1);\n\
         Process.Start(\"ls\", args);\n\
         Process.Start(helper.SanitizeArg(x));\n\
         Process.Start((safe));",
    );
    assert_eq!(
        said(&NoCommandInjection.check(&src, &parse(&src))),
        vec![
            (3, "Process.Start called with dynamic argument — risk of command injection".to_string()),
            (11, "Process.Start called with dynamic argument — risk of command injection".to_string()),
        ]
    );
}

#[test]
fn csharp_unsafe_deserializers_are_found() {
    let src = in_method(
        "new BinaryFormatter();\n\
         new BinaryFormatter().Deserialize(s);\n\
         new JavaScriptSerializer();\n\
         JsonSerializer.Deserialize(s);",
    );
    assert_eq!(
        said(&NoUnsafeDeserialization.check(&src, &parse(&src))),
        vec![
            (
                3,
                "new BinaryFormatter() — this type is inherently unsafe for deserialization".to_string()
            ),
            (
                4,
                "Unsafe deserialization — BinaryFormatter/JavaScriptSerializer can execute arbitrary code"
                    .to_string()
            ),
            (
                4,
                "new BinaryFormatter() — this type is inherently unsafe for deserialization".to_string()
            ),
            (
                5,
                "new JavaScriptSerializer() — this type is inherently unsafe for deserialization"
                    .to_string()
            ),
        ]
    );
}

#[test]
fn csharp_dynamic_urls_are_found() {
    let src = in_method(
        "client.GetAsync(url);\n\
         client.GetAsync(\"https://a.example\");\n\
         WebRequest.Create(url);\n\
         client.PostAsync(\"https://a.example\", body);\n\
         client.GetAsync(AllowlistUrl(url));\n\
         client.DeleteAsync(url);",
    );
    assert_eq!(lines_of(&NoSsrf.check(&src, &parse(&src))), vec![3, 5]);
}

#[test]
fn csharp_dynamic_paths_are_found() {
    let src = in_method(
        "File.ReadAllText(name);\n\
         File.ReadAllText(\"a.txt\");\n\
         File.Delete(Path.Combine(dir, name));\n\
         new StreamReader(name);\n\
         new FileStream(name, mode);\n\
         var full = Path.GetFullPath(name);\n\
         File.Exists(full);\n\
         Directory.Delete(name);",
    );
    let found = NoPathTraversal.check(&src, &parse(&src));
    assert_eq!(
        said(&found),
        vec![
            (
                3,
                "File operation with dynamic path — validate and sanitize to prevent path traversal"
                    .to_string()
            ),
            (
                6,
                "new StreamReader with dynamic path — validate and sanitize to prevent path traversal"
                    .to_string()
            ),
            (
                7,
                "new FileStream with dynamic path — validate and sanitize to prevent path traversal"
                    .to_string()
            ),
        ]
    );
    assert_eq!(
        found[0].fix_suggestion,
        Some(
            "Validate file paths with Path.GetFullPath() and ensure they don't escape the intended directory"
                .to_string()
        )
    );
}

#[test]
fn csharp_weak_algorithms_are_found_once_a_call() {
    let src = in_method(
        "MD5.Create();\n\
         new DESCryptoServiceProvider();\n\
         SHA256.Create();\n\
         Use(SHA1.Create());",
    );
    assert_eq!(
        said(&NoWeakCrypto.check(&src, &parse(&src))),
        vec![
            (3, "MD5 is cryptographically weak — use AES or SHA-256+".to_string()),
            (4, "DES is cryptographically weak — use AES or SHA-256+".to_string()),
            (6, "SHA1 is cryptographically weak — use AES or SHA-256+".to_string()),
            (6, "SHA1 is cryptographically weak — use AES or SHA-256+".to_string()),
        ]
    );
}

#[test]
fn csharp_hardcoded_secrets_are_found() {
    let src = "class A {\n string password = \"hunter22\";\n string token = @\"abcd\";\n\
               string secret = \"abc\";\n string name = \"hunter22\";\n\
               void M() {\n connectionString = \"Server=a\";\n this.ApiKey = \"key-1234\";\n }\n}\n";
    let tree = parse(src);
    let found =
        NoHardcodedSecret.check_with_context(src, &tree, &context(SecretScanThresholds::default()));
    assert_eq!(
        said(&found),
        vec![
            (
                2,
                "Hardcoded secret in 'password' — use environment variables or a secret manager"
                    .to_string()
            ),
            (
                3,
                "Hardcoded secret in 'token' — use environment variables or a secret manager"
                    .to_string()
            ),
            (
                7,
                "Hardcoded secret in 'connectionString' — use environment variables or a secret manager"
                    .to_string()
            ),
            (
                8,
                "Hardcoded secret in 'this.ApiKey' — use environment variables or a secret manager"
                    .to_string()
            ),
        ]
    );
    let mut low = TextSet::new();
    low.insert("hunter22".to_string());
    let fewer = NoHardcodedSecret.check_with_context(
        src,
        &tree,
        &context(SecretScanThresholds::new(Some(5), low)),
    );
    assert_eq!(lines_of(&fewer), vec![7, 8]);
    assert_eq!(
        NoHardcodedSecret.candidates(src, &tree),
        vec![
            "hunter22".to_string(),
            "abcd".to_string(),
            "abc".to_string(),
            "Server=a".to_string(),
            "key-1234".to_string(),
        ]
    );
}

#[test]
fn csharp_open_xml_parsers_are_found() {
    let bad = in_method("var d = new XmlDocument();\nXmlReader.Create(s);\nd.Load(s);");
    assert_eq!(
        said(&NoXxe.check(&bad, &parse(&bad))),
        vec![
            (
                3,
                "XML parser created without disabling DTD processing — vulnerable to XXE attacks"
                    .to_string()
            ),
            (
                4,
                "XML parsing without DtdProcessing.Prohibit — vulnerable to XXE attacks".to_string()
            ),
        ]
    );
    let nulled = in_method("var d = new XmlDocument();\nd.XmlResolver =  null;");
    assert!(NoXxe.check(&nulled, &parse(&nulled)).is_empty());
    let kept = in_method("var d = new XmlDocument();\nd.XmlResolver = other;");
    assert_eq!(lines_of(&NoXxe.check(&kept, &parse(&kept))), vec![3]);
    let prohibited = in_method("var d = new XmlDocument();\nUse(DtdProcessing.Prohibit);");
    assert!(NoXxe.check(&prohibited, &parse(&prohibited)).is_empty());
}

#[test]
fn csharp_concatenated_filters_are_found() {
    let src = in_method(
        "searcher.Filter = \"(uid=\" + uid + \")\";\n\
         searcher.Filter = \"(uid=\" + \"1\" + \")\";\n\
         other.Path = \"a\" + uid;\n\
         new DirectorySearcher(\"(uid=\" + uid + \")\");\n\
         box.Filter = \"a\" + uid;\n\
         boxFilter = \"a\" + uid;",
    );
    assert_eq!(
        said(&NoLdapInjection.check(&src, &parse(&src))),
        vec![
            (
                3,
                "LDAP filter built with string concatenation — use parameterized filters to prevent LDAP injection"
                    .to_string()
            ),
            (
                6,
                "DirectorySearcher created with concatenated filter — use parameterized filters to prevent LDAP injection"
                    .to_string()
            ),
            (
                7,
                "LDAP filter built with string concatenation — use parameterized filters to prevent LDAP injection"
                    .to_string()
            ),
        ]
    );
}

#[test]
fn csharp_open_origins_are_found() {
    let src = in_method(
        "b.AllowAnyOrigin();\n\
         b.WithOrigins( \"*\" );\n\
         b.WithOrigins(\"https://a.example\");\n\
         b.AllowAnyOrigin().AllowAnyHeader();",
    );
    assert_eq!(
        said(&NoCorsStar.check(&src, &parse(&src))),
        vec![
            (
                3,
                "AllowAnyOrigin() permits requests from any domain — restrict CORS origins".to_string()
            ),
            (
                4,
                "WithOrigins(\"*\") permits requests from any domain — restrict CORS origins"
                    .to_string()
            ),
            (
                6,
                "AllowAnyOrigin() permits requests from any domain — restrict CORS origins".to_string()
            ),
        ]
    );
}

#[test]
fn csharp_constants_are_constant_whatever_they_are_set_to() {
    let src = "class A {\n const string Dir = \"a\" + Sep;\n void M() {\n  const int Page = 5;\n  var open = \"a\" + Name();\n  db.FromSqlRaw(\"x\" + Dir);\n  db.FromSqlRaw(\"x\" + Page);\n  File.ReadAllText(Dir);\n  File.ReadAllText(open);\n }\n}\n";
    let tree = parse(src);
    assert!(NoSqlInjection.check(src, &tree).is_empty());
    let found = NoPathTraversal.check(src, &tree);
    assert_eq!(lines_of(&found), vec![9]);
}

#[test]
fn csharp_paths_are_built_by_the_named_calls_alone() {
    let src = in_method(
        "File.ReadAllText(Path.CombineAll(name));\n\
         File.ReadAllText(Path.Join (dir, name));\n\
         File.ReadAllText(Path.Join);",
    );
    let found = NoPathTraversal.check(&src, &parse(&src));
    assert_eq!(lines_of(&found), vec![3, 5]);
}
