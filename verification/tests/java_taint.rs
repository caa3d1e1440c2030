use taintlint::cross_file::{CrossFileSummaryMap, FunctionTaintSummary};
use taintlint::java_taint::{
    analyze_tree, command_injection_spec, compose_cross_file_summaries,
    extract_cross_file_summaries, java_taint_rule_specs, sql_injection_spec, ssrf_spec,
    unsafe_deserialization_spec,
};
use taintlint::taint_engine::{TaintFinding, TaintSpec};
use taintlint::tree::{SyntaxNode, SyntaxTree};

fn add_nodes(cursor: &mut tree_sitter::TreeCursor<'_>, parent: Option<usize>, nodes: &mut Vec<SyntaxNode>) {
    let n = cursor.node();
    let index = nodes.len();
    nodes.push(SyntaxNode {
        kind: n.kind().to_string(),
        named: n.is_named(),
        field: cursor.field_name().map(|f| f.to_string()),
        start_byte: n.start_byte(),
        end_byte: n.end_byte(),
        start_row: n.start_position().row,
        start_column: n.start_position().column,
        end_row: n.end_position().row,
        end_column: n.end_position().column,
        parent,
        end: 0,
    });
    if cursor.goto_first_child() {
        loop {
            add_nodes(cursor, Some(index), nodes);
            if !cursor.goto_next_sibling() {
                break;
            }
        }
        cursor.goto_parent();
    }
    nodes[index].end = nodes.len();
}

fn parse(source: &str) -> SyntaxTree {
    let mut parser = tree_sitter::Parser::new();
    parser
        .set_language(&tree_sitter_java::LANGUAGE.into())
        .expect("the grammar should load");
    let parsed = parser.parse(source, None).expect("the fixture should parse");
    let mut nodes = Vec::new();
    add_nodes(&mut parsed.walk(), None, &mut nodes);
    let tree = SyntaxTree { nodes };
    assert!(tree.check(source));
    tree
}


fn analyze(src: &str, spec: &TaintSpec) -> Vec<TaintFinding> {
    let tree = parse(src);
    analyze_tree(tree.root_node(), src, spec, None)
}

#[test]
fn sql_injection_via_spring_request_param() {
    let src = r#"
class Controller {
    void find(@RequestParam String name, Statement stmt) throws Exception {
        String query = "SELECT * FROM users WHERE name = '" + name + "'";
        stmt.executeQuery(query);
    }
}
"#;
    let findings = analyze(src, &sql_injection_spec());
    assert!(
        !findings.is_empty(),
        "should detect Spring param into SQL: {findings:?}"
    );
}

#[test]
fn command_injection_via_servlet_request() {
    let src = r#"
class Controller {
    void run(HttpServletRequest request) throws Exception {
        String cmd = request.getParameter("cmd");
        Runtime.getRuntime().exec(cmd);
    }
}
"#;
    let findings = analyze(src, &command_injection_spec());
    assert!(
        !findings.is_empty(),
        "should detect servlet request into Runtime.exec: {findings:?}"
    );
}

#[test]
fn ssrf_transitive_flow() {
    let src = r#"
class Controller {
    void fetch(HttpServletRequest req) throws Exception {
        String raw = req.getParameter("url");
        String target = "https://internal/" + raw;
        new URL(target);
    }
}
"#;
    let findings = analyze(src, &ssrf_spec());
    assert!(
        !findings.is_empty(),
        "should detect transitive servlet SSRF: {findings:?}"
    );
}

#[test]
fn unsafe_deserialization_constructor_sink() {
    let src = r#"
class Controller {
    void load(HttpServletRequest request) throws Exception {
        InputStream input = request.getInputStream();
        ObjectInputStream ois = new ObjectInputStream(input);
        ois.readObject();
    }
}
"#;
    let findings = analyze(src, &unsafe_deserialization_spec());
    assert!(
        findings
            .iter()
            .any(|finding| finding.sink_description.contains("ObjectInputStream")),
        "should detect tainted ObjectInputStream constructor: {findings:?}"
    );
}

#[test]
fn clean_literal_no_command_finding() {
    let src = r#"
class Controller {
    void run(HttpServletRequest request) throws Exception {
        String cmd = request.getParameter("cmd");
        Runtime.getRuntime().exec("id");
    }
}
"#;
    let findings = analyze(src, &command_injection_spec());
    assert!(
        findings.is_empty(),
        "literal command should not trigger taint: {findings:?}"
    );
}

fn summaries(src: &str) -> Vec<FunctionTaintSummary> {
    let tree = parse(src);
    let specs = java_taint_rule_specs();
    extract_cross_file_summaries(tree.root_node(), src, None, &specs)
}

#[test]
fn java_taint_cross_file_summary_records_param_to_sink() {
    let src = r#"
class QueryHelper {
    static Statement stmt;
    public static void runQuery(String term) throws Exception {
        stmt.executeQuery("SELECT * FROM users WHERE name = '" + term + "'");
    }
}
"#;
    let found = summaries(src);
    let helper = found
        .iter()
        .find(|s| s.name == "runQuery")
        .expect("runQuery should be summarized");
    let flow = helper
        .params_to_sink
        .iter()
        .find(|f| f.param_index == 0)
        .expect("param 0 should reach a sink");
    assert_eq!(flow.sink_rule_id, "java/taint-sql-injection");
}

#[test]
fn cross_file_summary_records_param_to_return() {
    let src = r#"
class Passthrough {
    public static String clean(String value) {
        return value.trim();
    }
}
"#;
    let found = summaries(src);
    let helper = found
        .iter()
        .find(|s| s.name == "clean")
        .expect("clean should be summarized");
    assert!(
        helper.params_to_return.contains(&0),
        "param 0 should flow to the return value: {helper:?}"
    );
}

#[test]
fn cross_file_summary_skips_methods_with_no_flow() {
    // `log` neither sinks nor returns its parameter, so it must not be
    // summarized at all.
    let src = r#"
class Plain {
    public static void log(String message) {
        System.out.println("constant");
    }
}
"#;
    let found = summaries(src);
    assert!(
        found.iter().all(|s| s.name != "log"),
        "method with no param flow should not be summarized: {found:?}"
    );
}

#[test]
fn java_taint_compose_lifts_forwarded_param_to_cross_file_sink() {
    // Middle helper `process` forwards its parameter into a same-package
    // helper `runQuery` that sinks it. Its base summary records nothing;
    // composing it against `runQuery`'s summary must lift the cross-file
    // sink into `process`'s own params_to_sink (the A->f->g->sink hop).
    let sink_src = r#"
class QueryHelper {
    static Statement stmt;
    static void runQuery(String term) throws Exception {
        stmt.executeQuery("SELECT * FROM users WHERE name = '" + term + "'");
    }
}
"#;
    let middle_src = r#"
class Service {
    static void process(String term) throws Exception {
        QueryHelper.runQuery(term);
    }
}
"#;
    let sink_path = String::from("QueryHelper.java");
    let mut map = CrossFileSummaryMap::new();
    map.insert(sink_path.clone(), summaries(sink_src));

    // Sanity: the base summary of `process` records no sink flow.
    assert!(
        summaries(middle_src)
            .iter()
            .find(|s| s.name == "process")
            .is_none_or(|s| s.params_to_sink.is_empty()),
        "base summary of process must not record a sink flow"
    );

    let tree = parse(middle_src);
    let specs = java_taint_rule_specs();
    let allowed: Vec<String> = specs.iter().map(|(id, _)| id.to_string()).collect();
    let composed = compose_cross_file_summaries(
        tree.root_node(),
        middle_src,
        None,
        &specs,
        &vec![sink_path.clone()],
        &map,
        &allowed,
    );
    let process = composed
        .iter()
        .find(|s| s.name == "process")
        .expect("process should gain a composed summary");
    let flow = process
        .params_to_sink
        .iter()
        .find(|f| f.param_index == 0)
        .expect("param 0 should reach the cross-file sink");
    assert_eq!(flow.sink_rule_id, "java/taint-sql-injection");
}

#[test]
fn java_taint_compose_is_taint_sensitive_across_the_hop() {
    // The middle helper replaces its parameter with a constant before the
    // cross-file call, so the composed summary must NOT record a sink flow
    // (the negative multi-hop shape — no configured Java sanitizer needed).
    let sink_src = r#"
class QueryHelper {
    static Statement stmt;
    static void runQuery(String term) throws Exception {
        stmt.executeQuery("SELECT * FROM users WHERE name = '" + term + "'");
    }
}
"#;
    let middle_src = r#"
class Service {
    static void process(String term) throws Exception {
        String safe = "constant";
        QueryHelper.runQuery(safe);
    }
}
"#;
    let sink_path = String::from("QueryHelper.java");
    let mut map = CrossFileSummaryMap::new();
    map.insert(sink_path.clone(), summaries(sink_src));

    let tree = parse(middle_src);
    let specs = java_taint_rule_specs();
    let allowed: Vec<String> = specs.iter().map(|(id, _)| id.to_string()).collect();
    let composed = compose_cross_file_summaries(
        tree.root_node(),
        middle_src,
        None,
        &specs,
        &vec![sink_path.clone()],
        &map,
        &allowed,
    );
    assert!(
        composed.iter().all(|s| s.params_to_sink.is_empty()),
        "a clean (constant) argument must not compose a sink flow: {composed:?}"
    );
}

#[test]
fn nested_lambda_parameter_does_not_taint_parent_scope() {
    let src = r#"
class Controller {
    private String name = "https://example.com";

    void fetch() throws Exception {
        Function<String, String> normalize = (@RequestParam String name) -> name.trim();
        new URL(name);
    }
}
"#;
    let findings = analyze(src, &ssrf_spec());
    assert!(
        findings.is_empty(),
        "nested lambda parameter should not taint parent scope: {findings:?}"
    );
}
