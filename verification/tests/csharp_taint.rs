use taintlint::cross_file::CrossFileSummaryMap;
use taintlint::csharp_taint::{
    analyze_tree, command_injection_spec, compose_cross_file_summaries, csharp_taint_rule_specs,
    extract_cross_file_findings, extract_cross_file_summaries, open_redirect_spec,
    sql_injection_spec, xss_spec, CrossFileInfo,
};
use taintlint::taint_engine::{TaintFinding, TaintSpec};
use taintlint::tree::{SyntaxNode, SyntaxTree};

fn add_nodes(cursor: &mut tree_sitter::TreeCursor<'_>, parent: Option<usize>, nodes: &mut Vec<SyntaxNode>) {
    let n = cursor.node();
    let index = nodes.len();
    nodes.push(SyntaxNode {
        kind: n.kind().to_string(),
        named: n.is_named(),
        field: cursor.field_name().map(|f| f.to_string()),
        start_byte: n.start_byte(),
        end_byte: n.end_byte(),
        start_row: n.start_position().row,
        start_column: n.start_position().column,
        end_row: n.end_position().row,
        end_column: n.end_position().column,
        parent,
        end: 0,
    });
    if cursor.goto_first_child() {
        loop {
            add_nodes(cursor, Some(index), nodes);
            if !cursor.goto_next_sibling() {
                break;
            }
        }
        cursor.goto_parent();
    }
    nodes[index].end = nodes.len();
}

fn parse(source: &str) -> SyntaxTree {
    let mut parser = tree_sitter::Parser::new();
    parser
        .set_language(&tree_sitter_c_sharp::LANGUAGE.into())
        .expect("the grammar should load");
    let parsed = parser.parse(source, None).expect("the fixture should parse");
    let mut nodes = Vec::new();
    add_nodes(&mut parsed.walk(), None, &mut nodes);
    let tree = SyntaxTree { nodes };
    assert!(tree.check(source));
    tree
}


fn analyze(src: &str, spec: &TaintSpec) -> Vec<TaintFinding> {
    let tree = parse(src);
    analyze_tree(tree.root_node(), src, spec, None)
}

#[test]
fn command_injection_request_querystring_to_process_start() {
    let src = r#"
using System.Diagnostics;
using System.Web;

class Controller {
    public void Handle() {
        string cmd = Request.QueryString["cmd"];
        Process.Start(cmd);
    }
}
"#;
    let findings = analyze(src, &command_injection_spec());
    assert!(
        !findings.is_empty(),
        "should detect Request.QueryString -> Process.Start: {findings:?}"
    );
}

#[test]
fn sql_injection_request_form_to_execute_reader() {
    let src = r#"
using System.Data.SqlClient;
using System.Web;

class Dao {
    public void Query() {
        string id = Request.Form["id"];
        string sql = "SELECT * FROM Users WHERE Id = " + id;
        var cmd = new SqlCommand(sql);
        cmd.ExecuteReader();
    }
}
"#;
    let findings = analyze(src, &sql_injection_spec());
    assert!(
        !findings.is_empty(),
        "should detect Request.Form -> ExecuteReader: {findings:?}"
    );
}

#[test]
fn sanitizer_htmlencode_blocks_xss() {
    let src = r#"
using System.Web;

class Controller {
    public void Handle() {
        string raw = Request.QueryString["q"];
        string safe = HttpUtility.HtmlEncode(raw);
        Response.Write(safe);
    }
}
"#;
    let findings = analyze(src, &xss_spec());
    assert!(
        findings.is_empty(),
        "HtmlEncode must block XSS finding: {findings:?}"
    );
}

#[test]
fn xss_direct_response_write_no_sanitizer() {
    let src = r#"
using System.Web;

class Controller {
    public void Handle() {
        string raw = Request.QueryString["q"];
        Response.Write(raw);
    }
}
"#;
    let findings = analyze(src, &xss_spec());
    assert!(!findings.is_empty(), "should detect XSS: {findings:?}");
}

#[test]
fn console_readline_to_process_start() {
    let src = r#"
using System;
using System.Diagnostics;

class App {
    static void Main() {
        string cmd = Console.ReadLine();
        Process.Start(cmd);
    }
}
"#;
    let findings = analyze(src, &command_injection_spec());
    assert!(
        !findings.is_empty(),
        "should detect Console.ReadLine -> Process.Start: {findings:?}"
    );
}

#[test]
fn csharp_taint_clean_literal_no_finding() {
    let src = r#"
using System.Diagnostics;

class App {
    static void Main() {
        string _ = Console.ReadLine();
        Process.Start("notepad.exe");
    }
}
"#;
    let findings = analyze(src, &command_injection_spec());
    assert!(
        findings.is_empty(),
        "literal argument must not trigger taint: {findings:?}"
    );
}

#[test]
fn int_parse_sanitizes_numeric_sql_injection() {
    let src = r#"
using System.Data.SqlClient;
using System.Web;

class Dao {
    void Query() {
        string rawId = Request.QueryString["id"];
        int safeId = int.Parse(rawId);
        string sql = "SELECT * FROM Users WHERE Id = " + safeId;
        var cmd = new SqlCommand(sql);
        cmd.ExecuteReader();
    }
}
"#;
    // int.Parse is a sanitizer that kills the taint.
    let findings = analyze(src, &sql_injection_spec());
    assert!(
        findings.is_empty(),
        "int.Parse should sanitize SQL injection: {findings:?}"
    );
}

// ── cross-file summary + resolution ──────────────────────────────────

#[test]
fn csharp_taint_cross_file_summary_records_param_to_sink() {
    let helper = r#"
using System.Data.SqlClient;
class QueryHelper {
    public static void RunQuery(string term) {
        string sql = "SELECT * FROM users WHERE name = '" + term + "'";
        var cmd = new SqlCommand(sql);
        cmd.ExecuteReader();
    }
}
"#;
    let tree = parse(helper);
    let specs = csharp_taint_rule_specs();
    let summaries = extract_cross_file_summaries(tree.root_node(), helper, None, &specs);
    let run = summaries
        .iter()
        .find(|s| s.name == "RunQuery")
        .expect("RunQuery should be summarized");
    assert!(
        run.params_to_sink
            .iter()
            .any(|f| f.param_index == 0 && f.sink_rule_id == "csharp/taint-sql-injection"),
        "param 0 must reach the SQL sink: {run:?}"
    );
}

#[test]
fn cross_file_findings_resolve_helper_call() {
        let helper = r#"
using System.Data.SqlClient;
class QueryHelper {
    public static void RunQuery(string term) {
        var cmd = new SqlCommand("SELECT * FROM users WHERE name = '" + term + "'");
        cmd.ExecuteReader();
    }
}
"#;
    let caller = r#"
using System.Web;
class Handler {
    public void Search() {
        string name = Request.QueryString["name"];
        QueryHelper.RunQuery(name);
    }
}
"#;
    let specs = csharp_taint_rule_specs();
    let helper_tree = parse(helper);
    let helper_path = String::from("QueryHelper.cs");
    let helper_summaries =
        extract_cross_file_summaries(helper_tree.root_node(), helper, None, &specs);
    let mut summary_map = CrossFileSummaryMap::new();
    summary_map.insert(helper_path.clone(), helper_summaries);

    let allowed: Vec<String> = ["csharp/taint-sql-injection".to_string()]
        .into_iter()
        .collect();
    let paths = vec![helper_path];
    let cross = CrossFileInfo {
        same_package_paths: &paths,
        summaries: &summary_map,
        allowed_rule_ids: &allowed,
    };
    let caller_tree = parse(caller);
    let findings = extract_cross_file_findings(
        caller_tree.root_node(),
        caller,
        &specs
            .iter()
            .map(|(id, s)| (*id, s.clone()))
            .collect::<Vec<_>>(),
        &cross,
    );
    assert_eq!(
        findings.len(),
        1,
        "expected exactly one cross-file finding: {findings:?}"
    );
    assert!(findings[0]
        .sink_description
        .contains("via cross-file call to RunQuery"));
}

// ── bounded multi-hop composition ────────────────────────────────────

const COMPOSE_SINK_SRC: &str = r#"
using System.Data.SqlClient;
class QueryHelper {
    public static void RunQuery(string term) {
        var cmd = new SqlCommand("SELECT * FROM users WHERE name = '" + term + "'");
        cmd.ExecuteReader();
    }
}
"#;

#[test]
fn csharp_taint_compose_lifts_forwarded_param_to_cross_file_sink() {
    // Middle helper `Forward` forwards its parameter into a same-directory
    // helper `RunQuery` that sinks it. Its base summary records nothing;
    // composing it against `RunQuery`'s summary must lift the cross-file
    // sink into `Forward`'s own params_to_sink (the A->f->g->sink hop).
    let middle_src = r#"
class Service {
    public static void Forward(string term) {
        QueryHelper.RunQuery(term);
    }
}
"#;
    let specs = csharp_taint_rule_specs();
    let sink_tree = parse(COMPOSE_SINK_SRC);
    let sink_path = String::from("QueryHelper.cs");
    let mut map = CrossFileSummaryMap::new();
    map.insert(
        sink_path.clone(),
        extract_cross_file_summaries(sink_tree.root_node(), COMPOSE_SINK_SRC, None, &specs),
    );

    let mid_tree = parse(middle_src);
    assert!(
        extract_cross_file_summaries(mid_tree.root_node(), middle_src, None, &specs)
            .iter()
            .find(|s| s.name == "Forward")
            .is_none_or(|s| s.params_to_sink.is_empty()),
        "base summary of Forward must not record a sink flow"
    );

    let allowed: Vec<String> = specs.iter().map(|(id, _)| id.to_string()).collect();
    let composed = compose_cross_file_summaries(
        mid_tree.root_node(),
        middle_src,
        None,
        &specs,
        &vec![sink_path.clone()],
        &map,
        &allowed,
    );
    let forward = composed
        .iter()
        .find(|s| s.name == "Forward")
        .expect("Forward should gain a composed summary");
    assert!(
        forward
            .params_to_sink
            .iter()
            .any(|f| f.param_index == 0 && f.sink_rule_id == "csharp/taint-sql-injection"),
        "param 0 should reach the cross-file sink: {forward:?}"
    );
}

#[test]
fn csharp_taint_compose_is_taint_sensitive_across_the_hop() {
    // The middle helper passes a clean constant to the cross-file call, so
    // the composed summary must NOT record a sink flow.
    let middle_src = r#"
class Service {
    public static void Forward(string term) {
        string safe = "constant";
        QueryHelper.RunQuery(safe);
    }
}
"#;
    let specs = csharp_taint_rule_specs();
    let sink_tree = parse(COMPOSE_SINK_SRC);
    let sink_path = String::from("QueryHelper.cs");
    let mut map = CrossFileSummaryMap::new();
    map.insert(
        sink_path.clone(),
        extract_cross_file_summaries(sink_tree.root_node(), COMPOSE_SINK_SRC, None, &specs),
    );

    let mid_tree = parse(middle_src);
    let allowed: Vec<String> = specs.iter().map(|(id, _)| id.to_string()).collect();
    let composed = compose_cross_file_summaries(
        mid_tree.root_node(),
        middle_src,
        None,
        &specs,
        &vec![sink_path.clone()],
        &map,
        &allowed,
    );
    assert!(
        composed.iter().all(|s| s.params_to_sink.is_empty()),
        "a clean (constant) argument must not compose a sink flow: {composed:?}"
    );
}

#[test]
fn open_redirect_via_request_params() {
    let src = r#"
using System.Web;

class Controller {
    void Redirect() {
        string url = Request.Params["returnUrl"];
        Response.Redirect(url);
    }
}
"#;
    let findings = analyze(src, &open_redirect_spec());
    assert!(
        !findings.is_empty(),
        "should detect open redirect: {findings:?}"
    );
}
