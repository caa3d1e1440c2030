use taintlint::common::SecretScanThresholds;
use taintlint::context::FileContext;
use taintlint::cross_file::{CrossFileSummaryMap, FunctionTaintSummary, ParamSinkFlow};
use taintlint::finding::{Finding, Severity};
use taintlint::java::{
    run_java_taint_batched, HardcodedCryptoAlgorithm, NoCommandInjection, NoHardcodedSecret,
    NoPathTraversal, NoSqlInjection, NoSsrf, NoUnsafeDeserialization, NoWeakCrypto, NoXss, NoXxe,
    PqReadyCrypto, PqVulnerableCrypto, SpringCorsPermissive, SpringCsrfDisabled,
    TaintCommandInjection, TaintSqlInjection, TaintSsrf, TaintUnsafeDeserialization,
};
use taintlint::text_map::TextSet;
use taintlint::tree::{SyntaxNode, SyntaxTree};

fn add_nodes(
    cursor: &mut tree_sitter::TreeCursor<'_>,
    parent: Option<usize>,
    nodes: &mut Vec<SyntaxNode>,
) {
    let n = cursor.node();
    let index = nodes.len();
    nodes.push(SyntaxNode {
        kind: n.kind().to_string(),
        named: n.is_named(),
        field: cursor.field_name().map(|f| f.to_string()),
        start_byte: n.start_byte(),
        end_byte: n.end_byte(),
        start_row: n.start_position().row,
        start_column: n.start_position().column,
        end_row: n.end_position().row,
        end_column: n.end_position().column,
        parent,
        end: 0,
    });
    if cursor.goto_first_child() {
        loop {
            add_nodes(cursor, Some(index), nodes);
            if !cursor.goto_next_sibling() {
                break;
            }
        }
        cursor.goto_parent();
    }
    nodes[index].end = nodes.len();
}

fn parse(source: &str) -> SyntaxTree {
    let mut parser = tree_sitter::Parser::new();
    parser
        .set_language(&tree_sitter_java::LANGUAGE.into())
        .expect("the grammar should load");
    let parsed = parser.parse(source, None).expect("the fixture should parse");
    let mut nodes = Vec::new();
    add_nodes(&mut parsed.walk(), None, &mut nodes);
    let tree = SyntaxTree { nodes };
    assert!(tree.check(source));
    tree
}

fn said(findings: &[Finding]) -> Vec<(usize, String)> {
    findings.iter().map(|f| (f.line, f.description.clone())).collect()
}

fn lines_of(findings: &[Finding]) -> Vec<usize> {
    findings.iter().map(|f| f.line).collect()
}

fn context<'a>(thresholds: SecretScanThresholds) -> FileContext<'a> {
    FileContext {
        go_aliases: None,
        cross_file_summaries: None,
        go_same_package_paths: None,
        java_same_package_paths: None,
        secret_thresholds: thresholds,
    }
}

fn in_method(lines: &str) -> String {
    format!("class A {{\n void m() {{\n{}\n }}\n}}\n", lines)
}

#[test]
fn java_concatenated_queries_are_found() {
    let src = in_method(
        "st.executeQuery(\"SELECT \" + id);\n\
         st.executeQuery(\"SELECT 1\");\n\
         st.execute((a + b + \"c\"));\n\
         em.createQuery(flag ? \"x\" + id : \"y\");\n\
         pool.execute(() -> log(\"a\" + b));\n\
         st.executeUpdate(\"SELECT \" + id);\n\
         st.execute(a + b);\n\
         st.execute(query, \"x\" + y);",
    );
    let found = NoSqlInjection.check(&src, &parse(&src));
    assert_eq!(lines_of(&found), vec![3, 5, 6]);
    assert_eq!(
        found[0].description,
        "SQL query built with string concatenation — use parameterized queries or prepared statements"
    );
    assert_eq!(found[0].rule_id, "java/no-sql-injection");
}

#[test]
fn java_dynamic_commands_are_found() {
    let src = in_method(
        "Runtime.getRuntime().exec(cmd);\n\
         Runtime.getRuntime().exec(\"ls\");\n\
         shell.exec(cmd);\n\
         new ProcessBuilder(cmd);\n\
         new ProcessBuilder(\"ls\");\n\
         myRuntime.exec(cmd);",
    );
    assert_eq!(
        said(&NoCommandInjection.check(&src, &parse(&src))),
        vec![
            (3, "Runtime.exec() called with dynamic argument — risk of command injection".to_string()),
            (6, "ProcessBuilder created with dynamic argument — risk of command injection".to_string()),
            (8, "Runtime.exec() called with dynamic argument — risk of command injection".to_string()),
        ]
    );
}

#[test]
fn java_unsafe_readers_are_found_by_text_and_by_type() {
    let src = "class A {\n java.io.ObjectInputStream field;\n void m(XMLDecoder dec, Reader r) {\n\
               field.readObject();\ndec.readObject();\nr.readObject();\n\
               new ObjectInputStream(in).readObject();\nyaml.load(x);\nprops.load(x);\n }\n}\n";
    let found = NoUnsafeDeserialization.check(src, &parse(src));
    assert_eq!(lines_of(&found), vec![4, 5, 7, 8]);
    assert_eq!(
        found[3].description,
        "Yaml.load() deserializes arbitrary objects — use Yaml.safeLoad() or a safe constructor"
    );
}

#[test]
fn java_dynamic_urls_are_found() {
    let src = in_method(
        "RestTemplate client = make();\n\
         new URL(target);\n\
         new URL(\"https://a.example\");\n\
         restTemplate.getForObject(target, String.class);\n\
         client.exchange(target);\n\
         jdbcTemplate.exchange(target);\n\
         new RestTemplate().postForEntity(target, body);\n\
         client.exchange(\"https://a.example\");",
    );
    assert_eq!(lines_of(&NoSsrf.check(&src, &parse(&src))), vec![4, 6, 7, 9]);
}

#[test]
fn java_dynamic_paths_are_found() {
    let src = in_method(
        "new File(name);\n\
         new FileInputStream(name);\n\
         new File(\"a.txt\");\n\
         Paths.get(name);\n\
         map.get(name);\n\
         Path.get(dir, name);",
    );
    assert_eq!(
        said(&NoPathTraversal.check(&src, &parse(&src))),
        vec![
            (3, "new File() with dynamic path — sanitize input to prevent path traversal".to_string()),
            (
                4,
                "new FileInputStream() with dynamic path — sanitize input to prevent path traversal"
                    .to_string()
            ),
            (6, "Paths.get() with dynamic path — sanitize input to prevent path traversal".to_string()),
            (8, "Paths.get() with dynamic path — sanitize input to prevent path traversal".to_string()),
        ]
    );
}

#[test]
fn java_weak_algorithms_are_found() {
    let src = in_method(
        "Cipher.getInstance(\"DES\");\n\
         Cipher.getInstance(\"AES/ECB/PKCS5Padding\");\n\
         Cipher.getInstance(\"AES/GCM/NoPadding\");\n\
         MessageDigest.getInstance(\"sha1\");\n\
         Signature.getInstance(\"MD5\");",
    );
    assert_eq!(
        said(&NoWeakCrypto.check(&src, &parse(&src))),
        vec![
            (
                3,
                "Cipher.getInstance(\"DES\") uses a weak algorithm — use AES-GCM, SHA-256, or stronger"
                    .to_string()
            ),
            (
                4,
                "Cipher.getInstance(\"AES/ECB/PKCS5Padding\") uses a weak algorithm — use AES-GCM, SHA-256, or stronger"
                    .to_string()
            ),
            (
                6,
                "MessageDigest.getInstance(\"sha1\") uses a weak algorithm — use AES-GCM, SHA-256, or stronger"
                    .to_string()
            ),
        ]
    );
}

#[test]
fn java_quantum_vulnerable_algorithms_are_classified() {
    let src = in_method(
        "KeyPairGenerator.getInstance(\"RSA\");\n\
         Signature.getInstance(\"sha256withECDSA\");\n\
         Signature.getInstance(\"SHA256withDSA\");\n\
         Signature.getInstance(\"ML-DSA\");\n\
         Signature.getInstance(\"X-withDSA-FN-DSA\");\n\
         Cipher.getInstance(\"rsa/ECB/PKCS1Padding\");\n\
         KeyAgreement.getInstance(\"X25519\");\n\
         KeyFactory.getInstance(\"EdDSA\");\n\
         Mac.getInstance(\"RSA\");\n\
         Cipher.getInstance(\"rsa\");",
    );
    let found = PqVulnerableCrypto.check(&src, &parse(&src));
    let algorithms: Vec<(usize, String)> = found
        .iter()
        .map(|f| (f.line, f.crypto_algorithm.clone().unwrap()))
        .collect();
    assert_eq!(
        algorithms,
        vec![
            (3, "RSA".to_string()),
            (4, "ECDSA".to_string()),
            (5, "DSA".to_string()),
            (8, "RSA".to_string()),
            (9, "X25519".to_string()),
            (10, "Ed25519".to_string()),
        ]
    );
    assert_eq!(found[0].tags, vec!["PQ".to_string()]);
    assert_eq!(
        found[1].description,
        "Signature.getInstance(\"sha256withECDSA\") uses quantum-vulnerable ECDSA — migrate to General use (FIPS category III): ML-DSA-65 (FIPS 204) or FN-DSA (FIPS 206, draft) for smaller signatures, with hybrid cert chains. CNSA 2.0 / NSS: ML-DSA-87 for signatures (Java JEP 527)."
    );
    assert!(found[4].description.contains("as a non-lattice alternative"));
    assert!(found[5].description.contains("quantum-vulnerable EdDSA — migrate to"));
    assert_eq!(PqVulnerableCrypto.info().cnsa2_deadline, Some("2033"));
}

#[test]
fn java_post_quantum_rule_describes_itself() {
    let info = PqReadyCrypto.info();
    assert_eq!(info.id, "java/pq-ready-crypto");
    assert_eq!(info.severity, Severity::Low);
    assert_eq!(info.cwe, None);
}

#[test]
fn java_hardcoded_secrets_are_found() {
    let src = "class A {\n String password = \"hunter22\";\n String token = \"abc\";\n\
               String name = \"hunter22\";\n void m() {\n  this.apiKey = \"key-1234\";\n\
               secret = load();\n }\n}\n";
    let tree = parse(src);
    let found =
        NoHardcodedSecret.check_with_context(src, &tree, &context(SecretScanThresholds::default()));
    assert_eq!(
        said(&found),
        vec![
            (
                2,
                "Hardcoded secret in 'password' — use environment variables or a secret manager"
                    .to_string()
            ),
            (
                6,
                "Hardcoded secret in 'this.apiKey' — use environment variables or a secret manager"
                    .to_string()
            ),
        ]
    );
}

#[test]
fn java_secret_thresholds_apply() {
    let src = "class A {\n String password = \"hunter22\";\n String token = \"aaaaaaaa\";\n\
               String secret = \"longer-than-both\";\n}\n";
    let tree = parse(src);
    assert_eq!(
        NoHardcodedSecret.candidates(src, &tree),
        vec!["hunter22".to_string(), "aaaaaaaa".to_string(), "longer-than-both".to_string()]
    );
    let mut low = TextSet::new();
    low.insert("aaaaaaaa".to_string());
    let found = NoHardcodedSecret.check_with_context(
        src,
        &tree,
        &context(SecretScanThresholds::new(None, low)),
    );
    assert_eq!(lines_of(&found), vec![2, 4]);
    let found = NoHardcodedSecret.check_with_context(
        src,
        &tree,
        &context(SecretScanThresholds::new(Some(9), TextSet::new())),
    );
    assert_eq!(lines_of(&found), vec![4]);
}

#[test]
fn java_open_xml_factories_are_found() {
    let bad = "class A {\n Object a = DocumentBuilderFactory.newInstance();\n Object b = XMLInputFactory.newInstance();\n}\n";
    let found = NoXxe.check(bad);
    assert_eq!(
        found.iter().map(|f| (f.line, f.column)).collect::<Vec<(usize, usize)>>(),
        vec![(2, 13), (3, 13)]
    );
    assert_eq!(found[0].end_column, 49);
    let good = "class A {\n Object a = DocumentBuilderFactory.newInstance();\n { a.setFeature (x, true); }\n}\n";
    assert!(NoXxe.check(good).is_empty());
    assert!(NoXxe.check("").is_empty());
}

#[test]
fn java_disabled_csrf_is_found_on_http_security_alone() {
    let src = "class A {\n void m(HttpSecurity security, Builder other) {\n\
               http.csrf().disable();\nsecurity.csrf(c -> c.disable());\n\
               other.csrf().disable();\nhttp.csrf();\nhttp.cors().and().csrf().disable();\n\
               config.disable();\n }\n}\n";
    assert_eq!(lines_of(&SpringCsrfDisabled.check(src, &parse(src))), vec![3, 4, 7]);
}

#[test]
fn java_written_responses_are_found() {
    let src = in_method(
        "response.getWriter().println(name);\n\
         out.write(\"hello\");\n\
         out.print(\"hello \" + name);\n\
         System.out.println(name);\n\
         writer.write(name);\n\
         pw.flush(name);",
    );
    let found = NoXss.check(&src, &parse(&src));
    assert_eq!(lines_of(&found), vec![3, 5, 7]);
    assert_eq!(
        found[0].fix_suggestion,
        Some(
            "HTML-encode user input before writing to response: use OWASP Java Encoder or StringEscapeUtils.escapeHtml4()"
                .to_string()
        )
    );
}

#[test]
fn java_literal_algorithms_are_found_unless_weak() {
    let src = in_method(
        "Cipher.getInstance(\"AES/GCM/NoPadding\");\n\
         Cipher.getInstance(\"aes/ecb/NoPadding\");\n\
         Mac.getInstance(\"HmacSHA256\");\n\
         MessageDigest.getInstance(\"sha1x\");\n\
         MessageDigest.getInstance(name);\n\
         Logger.getInstance(\"AES\");\n\
         KeyGenerator.getInstance(\"DESede\");",
    );
    assert_eq!(
        said(&HardcodedCryptoAlgorithm.check(&src, &parse(&src))),
        vec![
            (
                3,
                "Cipher.getInstance(\"AES/GCM/NoPadding\") uses a hardcoded algorithm — externalize to configuration for crypto agility"
                    .to_string()
            ),
            (
                5,
                "Mac.getInstance(\"HmacSHA256\") uses a hardcoded algorithm — externalize to configuration for crypto agility"
                    .to_string()
            ),
        ]
    );
}

#[test]
fn java_permissive_origins_are_found() {
    let src = "@CrossOrigin\nclass A {\n @CrossOrigin(\"*\") void a() {}\n\
               @CrossOrigin(origins = \"*\") void b() {}\n\
               @CrossOrigin(origins = {\"*\"}) void c() {}\n\
               @CrossOrigin(origins = \"https://a.example\") void d() {}\n\
               @org.springframework.web.bind.annotation.CrossOrigin void e() {}\n\
               @CrossOrigin(value = \"*\") void g() {}\n\
               void f() { registry.allowedOrigins( \"*\" ); }\n}\n";
    let found = SpringCorsPermissive.check(src, &parse(src));
    assert_eq!(lines_of(&found), vec![9, 1, 3, 4, 7]);
    assert_eq!(
        found[0].description,
        "allowedOrigins(\"*\") permits any origin — restrict to trusted domains"
    );
    assert_eq!(
        found[1].description,
        "@CrossOrigin with wildcard origin — restrict to trusted domains"
    );
}

const SERVLET: &str = "class A {\n void m(HttpServletRequest request) {\n  String id = request.getParameter(\"id\");\n  st.executeQuery(\"SELECT \" + id);\n  Runtime.getRuntime().exec(id);\n  new URL(id);\n  new ObjectInputStream(id);\n  helper(id);\n }\n}\n";

#[test]
fn java_taint_rules_report_their_own_sinks() {
    let tree = parse(SERVLET);
    let sql = TaintSqlInjection.check(SERVLET, &tree);
    assert_eq!(lines_of(&sql), vec![4]);
    assert_eq!(
        sql[0].description,
        "HttpServletRequest.getParameter() reaches executeQuery() with tainted query — untrusted input can inject SQL"
    );
    assert_eq!(sql[0].source_line, Some(3));
    assert_eq!(sql[0].taint_hops, Some(1));
    assert_eq!(sql[0].confidence, 100);
    assert_eq!(lines_of(&TaintCommandInjection.check(SERVLET, &tree)), vec![5]);
    assert_eq!(lines_of(&TaintSsrf.check(SERVLET, &tree)), vec![6]);
    assert_eq!(lines_of(&TaintUnsafeDeserialization.check(SERVLET, &tree)), vec![7]);
}

#[test]
fn java_batched_rules_report_in_rule_order() {
    let tree = parse(SERVLET);
    let ctx = context(SecretScanThresholds::default());
    let ids = vec![
        "java/taint-ssrf".to_string(),
        "java/taint-sql-injection".to_string(),
        "java/unknown".to_string(),
    ];
    let found = run_java_taint_batched(SERVLET, &tree, &ctx, &ids);
    assert_eq!(
        found.iter().map(|f| f.rule_id.as_str()).collect::<Vec<&str>>(),
        vec!["java/taint-sql-injection", "java/taint-ssrf"]
    );
    assert!(run_java_taint_batched(SERVLET, &tree, &ctx, &Vec::new()).is_empty());
}

#[test]
fn java_batched_rules_follow_calls_into_other_files() {
    let tree = parse(SERVLET);
    let mut summaries = CrossFileSummaryMap::new();
    summaries.insert(
        "B.java".to_string(),
        vec![FunctionTaintSummary {
            name: "helper".to_string(),
            params_to_return: Vec::new(),
            params_to_sink: vec![ParamSinkFlow {
                param_index: 0,
                sink_rule_id: "java/taint-ssrf".to_string(),
                sink_description: "URL() with tainted target".to_string(),
            }],
        }],
    );
    let ctx = FileContext {
        go_aliases: None,
        cross_file_summaries: Some(&summaries),
        go_same_package_paths: None,
        java_same_package_paths: Some(vec!["B.java".to_string()]),
        secret_thresholds: SecretScanThresholds::default(),
    };
    let found =
        run_java_taint_batched(SERVLET, &tree, &ctx, &vec!["java/taint-ssrf".to_string()]);
    assert_eq!(lines_of(&found), vec![6, 8]);
    let other =
        run_java_taint_batched(SERVLET, &tree, &ctx, &vec!["java/taint-sql-injection".to_string()]);
    assert_eq!(lines_of(&other), vec![4]);
}

#[test]
fn java_literals_in_arguments_are_no_part_of_a_query() {
    let src = in_method(
        "st.executeQuery(run(\"x\") + y);\n\
         st.executeQuery((a + (\"b\" + c)) + d);\n\
         st.executeQuery(a + (f ? \"b\" : c));\n\
         st.executeQuery(a + (f.equals(\"b\") ? c : d));\n\
         st.executeQuery(a + (\"b\" == c));",
    );
    assert_eq!(lines_of(&NoSqlInjection.check(&src, &parse(&src))), vec![4, 5]);
}
