use taintlint::common::SecretScanThresholds;
use taintlint::context::FileContext;
use taintlint::cross_file::{CrossFileSummaryMap, FunctionTaintSummary, ParamSinkFlow};
use taintlint::finding::{Finding, Severity};
use taintlint::go::{
    go_taint_rule_dispatch_table, go_taint_rule_specs, is_go_taint_rule_id, run_go_taint_batched,
    GinNoTrustedProxies, InsecureTlsSkipVerify, JwtHardcodedSecret, JwtNoVerify, NetHttpNoTimeout,
    NoCommandInjection, NoHardcodedSecret, NoSqlInjection, NoSsrf, NoUnsafeDeserialization,
    NoWeakCrypto, TaintCommandInjection, TaintLogInjection, TaintNosqlInjection, TaintPathTraversal,
    TaintSqlInjection, TaintSsrf,
};
use taintlint::tree::{SyntaxNode, SyntaxTree};

fn add_nodes(
    cursor: &mut tree_sitter::TreeCursor<'_>,
    parent: Option<usize>,
    nodes: &mut Vec<SyntaxNode>,
) {
    let n = cursor.node();
    let index = nodes.len();
    nodes.push(SyntaxNode {
        kind: n.kind().to_string(),
        named: n.is_named(),
        field: cursor.field_name().map(|f| f.to_string()),
        start_byte: n.start_byte(),
        end_byte: n.end_byte(),
        start_row: n.start_position().row,
        start_column: n.start_position().column,
        end_row: n.end_position().row,
        end_column: n.end_position().column,
        parent,
        end: 0,
    });
    if cursor.goto_first_child() {
        loop {
            add_nodes(cursor, Some(index), nodes);
            if !cursor.goto_next_sibling() {
                break;
            }
        }
        cursor.goto_parent();
    }
    nodes[index].end = nodes.len();
}

fn parse(source: &str) -> SyntaxTree {
    let mut parser = tree_sitter::Parser::new();
    parser
        .set_language(&tree_sitter_go::LANGUAGE.into())
        .expect("the grammar should load");
    let parsed = parser.parse(source, None).expect("the fixture should parse");
    let mut nodes = Vec::new();
    add_nodes(&mut parsed.walk(), None, &mut nodes);
    let tree = SyntaxTree { nodes };
    assert!(tree.check(source));
    tree
}

fn said(findings: &[Finding]) -> Vec<(usize, String)> {
    findings.iter().map(|f| (f.line, f.description.clone())).collect()
}

fn context<'a>() -> FileContext<'a> {
    FileContext {
        go_aliases: None,
        cross_file_summaries: None,
        go_same_package_paths: None,
        java_same_package_paths: None,
        secret_thresholds: SecretScanThresholds::default(),
    }
}

fn in_function(lines: &str) -> String {
    format!("package main\n\nfunc f() {{\n{}\n}}\n", lines)
}

#[test]
fn go_sql_concatenation_and_format_are_found() {
    let src = in_function(
        "q := \"SELECT name FROM users WHERE id = \" + id\n\
         r := fmt.Sprintf(\"DELETE FROM users WHERE id = %s\", id)\n\
         s := fmt.Sprintf(\"hello %s\", id)\n\
         t := id + \"SELECT name FROM users\"\n\
         u := \"SELECT name FROM users\"",
    );
    let found = NoSqlInjection.check(&src, &parse(&src));
    assert_eq!(
        said(&found),
        vec![
            (4, "SQL query built with string concatenation — use parameterized queries".to_string()),
            (5, "SQL query built with fmt.Sprintf — use parameterized queries".to_string()),
        ]
    );
    assert_eq!(found[0].rule_id, "go/no-sql-injection");
    assert_eq!(found[0].severity, Severity::Critical);
    assert_eq!(found[0].cwe, Some("CWE-89".to_string()));
    assert_eq!(found[0].column, 6);
    assert_eq!(found[0].end_line, 4);
    assert_eq!(found[0].end_column, 47);
    assert_eq!(found[0].snippet, "q := \"SELECT name FROM users WHERE id = \" + id");
    assert_eq!(found[0].confidence, 100);
    assert_eq!(found[0].source_line, None);
    assert_eq!(found[0].fix_suggestion, None);
}

#[test]
fn go_dynamic_commands_are_found() {
    let src = in_function(
        "exec.Command(name)\n\
         exec.Command(\"ls\", name)\n\
         exec.CommandContext(ctx, \"ls\")\n\
         exec.Command(`ls`)\n\
         exec.Command()\n\
         other.Command(name)",
    );
    let message = "exec.Command called with dynamic argument — risk of command injection";
    assert_eq!(
        said(&NoCommandInjection.check(&src, &parse(&src))),
        vec![(4, message.to_string()), (6, message.to_string())]
    );
}

#[test]
fn go_hardcoded_secrets_are_found() {
    let src = "package main\n\nvar authToken = \"abcd\"\nconst apiKey = `12345`\n\
               var password = \"abc\"\nvar greeting = \"hello there\"\n\n\
               func f() {\n\tpassword := \"hunter2\"\n\tsecret := load()\n\
               \tapi_key, other := \"k-1234\", 1\n}\n";
    assert_eq!(
        said(&NoHardcodedSecret.check(src, &parse(src))),
        vec![
            (3, "Hardcoded secret in 'authToken' — use environment variables".to_string()),
            (4, "Hardcoded secret in 'apiKey' — use environment variables".to_string()),
            (9, "Hardcoded secret in 'password' — use environment variables".to_string()),
            (11, "Hardcoded secret in 'api_key, other' — use environment variables".to_string()),
        ]
    );
}

#[test]
fn go_secret_lengths_are_counted_in_bytes() {
    let src = "package main\n\nvar token = \"éé\"\nvar password = \"é\"\n";
    assert_eq!(
        said(&NoHardcodedSecret.check(src, &parse(src))),
        vec![(3, "Hardcoded secret in 'token' — use environment variables".to_string())]
    );
}

#[test]
fn go_weak_hashes_are_found() {
    let src = "package main\n\nimport (\n\t\"crypto/md5\"\n\t\"crypto/sha1\"\n\t\"crypto/sha256\"\n)\n\n\
               func f() {\n\tmd5.New()\n\tsha1.Sum(x)\n\tsha256.New()\n}\n";
    assert_eq!(
        said(&NoWeakCrypto.check(src, &parse(src))),
        vec![
            (4, "Import of weak crypto package MD5 — use crypto/sha256 or stronger".to_string()),
            (5, "Import of weak crypto package SHA1 — use crypto/sha256 or stronger".to_string()),
            (10, "MD5 is cryptographically weak — use SHA-256 or stronger".to_string()),
            (11, "SHA1 is cryptographically weak — use SHA-256 or stronger".to_string()),
        ]
    );
}

#[test]
fn go_gin_without_trusted_proxies_is_found() {
    let bad = in_function("r := gin.Default()\ns := gin.New()");
    assert_eq!(
        said(&GinNoTrustedProxies.check(&bad, &parse(&bad))),
        vec![
            (
                4,
                "gin.Default() called without SetTrustedProxies — configure trusted proxies to prevent IP spoofing"
                    .to_string()
            ),
            (
                5,
                "gin.New() called without SetTrustedProxies — configure trusted proxies to prevent IP spoofing"
                    .to_string()
            ),
        ]
    );
    let good = in_function("r := gin.Default()\nr.SetTrustedProxies(nil)");
    assert!(GinNoTrustedProxies.check(&good, &parse(&good)).is_empty());
    let optioned = in_function("r := gin.Default(opts)");
    assert!(GinNoTrustedProxies.check(&optioned, &parse(&optioned)).is_empty());
}

#[test]
fn go_servers_without_timeout_are_found() {
    let src = in_function("http.ListenAndServe(\":80\", nil)\nhttp.ListenAndServeTLS(a, b, c, d)\nsrv.ListenAndServe()");
    assert_eq!(
        said(&NetHttpNoTimeout.check(&src, &parse(&src))),
        vec![
            (
                4,
                "http.ListenAndServe used without timeout — use http.Server with ReadTimeout/WriteTimeout to prevent slowloris"
                    .to_string()
            ),
            (
                5,
                "http.ListenAndServeTLS used without timeout — use http.Server with ReadTimeout/WriteTimeout to prevent slowloris"
                    .to_string()
            ),
        ]
    );
}

#[test]
fn go_dynamic_urls_are_found_at_their_position() {
    let src = in_function(
        "http.Get(url)\n\
         http.Get(\"https://a.example\")\n\
         http.NewRequest(method, \"https://a.example\", nil)\n\
         http.NewRequest(\"GET\", url, nil)\n\
         http.NewRequestWithContext(ctx, method, \"https://a.example\", nil)\n\
         http.NewRequestWithContext(ctx, \"GET\", url, nil)\n\
         http.NewRequest(\"GET\")",
    );
    let lines: Vec<usize> = NoSsrf.check(&src, &parse(&src)).iter().map(|f| f.line).collect();
    assert_eq!(lines, vec![4, 7, 9]);
    assert_eq!(
        NoSsrf.check(&src, &parse(&src))[1].description,
        "http.NewRequest called with dynamic URL — validate and allowlist target hosts to prevent SSRF"
    );
}

#[test]
fn go_skipped_verification_is_found_in_the_text() {
    let src = "// é\ncfg := tls.Config{InsecureSkipVerify : true}\nok := tls.Config{InsecureSkipVerify: false}\n";
    let found = InsecureTlsSkipVerify.check(src);
    assert_eq!(found.len(), 1);
    assert_eq!((found[0].line, found[0].column), (2, 19));
    assert_eq!((found[0].end_line, found[0].end_column), (2, 44));
    assert_eq!(found[0].snippet, "cfg := tls.Config{InsecureSkipVerify : true}");
    assert_eq!(found[0].severity, Severity::High);
}

#[test]
fn go_unsafe_decoders_are_found() {
    let src = in_function(
        "gob.NewDecoder(r)\n\
         yaml.Unmarshal(data, new(interface{}))\n\
         yaml.Unmarshal(data, &company)\n\
         yaml.Unmarshal(data, &config)\n\
         json.Unmarshal(data, new(interface{}))",
    );
    let lines: Vec<usize> =
        NoUnsafeDeserialization.check(&src, &parse(&src)).iter().map(|f| f.line).collect();
    assert_eq!(lines, vec![4, 5, 6]);
}

#[test]
fn go_unverified_tokens_are_found() {
    let src = in_function(
        "jwt.ParseUnverified(raw, claims)\n\
         jwt.Parse(raw, nil)\n\
         jwt.Parse(raw, keyFunc)\n\
         jwt.ParseWithClaims(raw, nil, keyFunc)\n\
         jwt.ParseWithClaims(raw, claims, nil)",
    );
    assert_eq!(
        said(&JwtNoVerify.check(&src, &parse(&src))),
        vec![
            (4, "JWT parsed without verification — use jwt.Parse with a proper key function".to_string()),
            (5, "JWT parsed with nil key function — provide a proper key validation function".to_string()),
            (8, "JWT parsed with nil key function — provide a proper key validation function".to_string()),
        ]
    );
}

#[test]
fn go_literal_token_keys_are_found() {
    let src = in_function(
        "jwt.Parse(raw, func(t *jwt.Token) (interface{}, error) { return []byte(\"s3cret\"), nil })\n\
         jwt.Parse(raw, func(t *jwt.Token) (interface{}, error) { return []byte(\"abc\"), nil })\n\
         jwt.Parse(raw, func(t *jwt.Token) (interface{}, error) { return key, nil })\n\
         other.Parse(raw, []byte(\"s3cret\"))",
    );
    let lines: Vec<usize> =
        JwtHardcodedSecret.check(&src, &parse(&src)).iter().map(|f| f.line).collect();
    assert_eq!(lines, vec![4]);
}

#[test]
fn go_taint_rules_report_source_and_sink() {
    let src = "package main\n\nfunc h(c *gin.Context) {\n\tname := c.Query(\"name\")\n\texec.Command(name)\n}\n";
    let found = TaintCommandInjection.check_with_context(src, &parse(src), &context());
    assert_eq!(found.len(), 1);
    let f = &found[0];
    assert_eq!(f.rule_id, "go/taint-command-injection");
    assert_eq!(
        f.description,
        "gin *Context.Query reaches exec.Command — untrusted input can inject OS commands"
    );
    assert_eq!((f.line, f.column, f.end_line, f.end_column), (5, 2, 5, 20));
    assert_eq!(f.snippet, "\texec.Command(name)");
    assert_eq!(f.source_line, Some(4));
    assert_eq!(f.source_description, Some("gin *Context.Query".to_string()));
    assert_eq!(f.sink_line, Some(5));
    assert_eq!(f.sink_description, Some("exec.Command".to_string()));
    assert_eq!(f.sink_start_byte, Some(65));
    assert_eq!(f.sink_end_byte, Some(83));
    assert!(f.fix_suggestion.as_ref().unwrap().starts_with("Go has no standard shell-escape function."));
}

#[test]
fn go_taint_sinks_are_told_apart() {
    let src = "package main\n\nfunc h(c *gin.Context) {\n\tname := c.Query(\"name\")\n\tdb.Query(name)\n\thttp.Get(name)\n\tos.Open(name)\n\tlog.Println(name)\n}\n";
    let tree = parse(src);
    let ctx = context();
    let lines = |found: Vec<Finding>| found.iter().map(|f| f.line).collect::<Vec<usize>>();
    assert_eq!(lines(TaintSqlInjection.check_with_context(src, &tree, &ctx)), vec![5]);
    assert_eq!(lines(TaintSsrf.check_with_context(src, &tree, &ctx)), vec![6]);
    assert_eq!(lines(TaintPathTraversal.check_with_context(src, &tree, &ctx)), vec![7]);
    assert_eq!(lines(TaintLogInjection.check_with_context(src, &tree, &ctx)), vec![8]);
    assert!(TaintNosqlInjection.check_with_context(src, &tree, &ctx).is_empty());
}

#[test]
fn go_batched_rules_find_what_each_finds_alone() {
    let src = "package main\n\nfunc h(c *gin.Context) {\n\tname := c.Query(\"name\")\n\tdb.Query(name)\n\thttp.Get(name)\n\tos.Open(name)\n\texec.Command(name)\n}\n";
    let tree = parse(src);
    let ctx = context();
    let ids: Vec<String> = go_taint_rule_specs().iter().map(|r| r.0.to_string()).collect();
    let batched = run_go_taint_batched(src, &tree, &ctx, &ids);
    let of = |id: &str| -> Vec<(usize, String)> {
        batched
            .iter()
            .filter(|f| f.rule_id == id)
            .map(|f| (f.line, f.description.clone()))
            .collect()
    };
    assert_eq!(
        of("go/taint-command-injection"),
        said(&TaintCommandInjection.check_with_context(src, &tree, &ctx))
    );
    assert_eq!(
        of("go/taint-sql-injection"),
        said(&TaintSqlInjection.check_with_context(src, &tree, &ctx))
    );
    assert_eq!(of("go/taint-ssrf"), said(&TaintSsrf.check_with_context(src, &tree, &ctx)));
    assert_eq!(
        of("go/taint-path-traversal"),
        said(&TaintPathTraversal.check_with_context(src, &tree, &ctx))
    );
    let one = run_go_taint_batched(src, &tree, &ctx, &vec!["go/taint-ssrf".to_string()]);
    assert_eq!(said(&one), said(&TaintSsrf.check_with_context(src, &tree, &ctx)));
    assert!(run_go_taint_batched(src, &tree, &ctx, &Vec::new()).is_empty());
}

#[test]
fn go_calls_into_other_files_are_followed() {
    let src = "package main\n\nfunc h(c *gin.Context) {\n\tname := c.Query(\"name\")\n\trunShell(name)\n\trunShell(\"ls\")\n}\n";
    let mut summaries = CrossFileSummaryMap::new();
    summaries.insert(
        "b.go".to_string(),
        vec![FunctionTaintSummary {
            name: "runShell".to_string(),
            params_to_return: Vec::new(),
            params_to_sink: vec![ParamSinkFlow {
                param_index: 0,
                sink_rule_id: "go/taint-command-injection".to_string(),
                sink_description: "exec.Command".to_string(),
            }],
        }],
    );
    let ctx = FileContext {
        go_aliases: None,
        cross_file_summaries: Some(&summaries),
        go_same_package_paths: Some(vec!["b.go".to_string()]),
        java_same_package_paths: None,
        secret_thresholds: SecretScanThresholds::default(),
    };
    let tree = parse(src);
    let found = TaintCommandInjection.check_with_context(src, &tree, &ctx);
    assert_eq!(found.len(), 1);
    assert_eq!(found[0].line, 5);
    assert!(TaintSqlInjection.check_with_context(src, &tree, &ctx).is_empty());
    assert!(TaintCommandInjection.check_with_context(src, &tree, &context()).is_empty());
}

#[test]
fn go_taint_rule_ids_are_known() {
    for rule in go_taint_rule_specs() {
        assert!(is_go_taint_rule_id(rule.0));
    }
    assert_eq!(go_taint_rule_specs().len(), 9);
    let table: Vec<&str> = go_taint_rule_dispatch_table().iter().map(|m| m.rule_id).collect();
    let ids: Vec<&str> = go_taint_rule_specs().iter().map(|r| r.0).collect();
    assert_eq!(table, ids);
    assert!(!is_go_taint_rule_id("go/no-ssrf"));
    assert!(!is_go_taint_rule_id("go/taint-unknown"));
    assert!(!is_go_taint_rule_id("go/taint-"));
    assert!(!is_go_taint_rule_id(""));
}
