use taintlint::c::{
    run_c_taint_batched, TaintBufferOverflow, TaintCommandInjection, TaintFormatString,
    TaintSqlInjection,
};
use taintlint::c_taint::{analyze_tree, c_taint_rule_specs};
use taintlint::finding::{Finding, Severity};
use taintlint::taint_engine::{NodeMatcher, TaintSpec};
use taintlint::tree::{SyntaxNode, SyntaxTree};

fn add_nodes(
    cursor: &mut tree_sitter::TreeCursor<'_>,
    parent: Option<usize>,
    nodes: &mut Vec<SyntaxNode>,
) {
    let n = cursor.node();
    let index = nodes.len();
    nodes.push(SyntaxNode {
        kind: n.kind().to_string(),
        named: n.is_named(),
        field: cursor.field_name().map(|f| f.to_string()),
        start_byte: n.start_byte(),
        end_byte: n.end_byte(),
        start_row: n.start_position().row,
        start_column: n.start_position().column,
        end_row: n.end_position().row,
        end_column: n.end_position().column,
        parent,
        end: 0,
    });
    if cursor.goto_first_child() {
        loop {
            add_nodes(cursor, Some(index), nodes);
            if !cursor.goto_next_sibling() {
                break;
            }
        }
        cursor.goto_parent();
    }
    nodes[index].end = nodes.len();
}

fn parse(source: &str) -> SyntaxTree {
    let mut parser = tree_sitter::Parser::new();
    parser
        .set_language(&tree_sitter_c::LANGUAGE.into())
        .expect("the grammar should load");
    let parsed = parser.parse(source, None).expect("the fixture should parse");
    let mut nodes = Vec::new();
    add_nodes(&mut parsed.walk(), None, &mut nodes);
    let tree = SyntaxTree { nodes };
    assert!(tree.check(source));
    tree
}

fn lines_of(findings: &[Finding]) -> Vec<usize> {
    findings.iter().map(|f| f.line).collect()
}

const SERVER: &str = "int main(int argc, char **argv) {\n  char buf[64];\n  char out[64];\n  fgets(buf, 64, stdin);\n  printf(buf);\n  printf(\"%s\", buf);\n  system(buf);\n  strcpy(out, buf);\n  memcpy(out, buf, 8);\n  memcpy(out, buf, argc);\n  sqlite3_exec(db, buf, 0, 0, 0);\n}\n";

#[test]
fn c_rules_report_their_own_sinks() {
    let tree = parse(SERVER);
    let format = TaintFormatString.check(SERVER, &tree);
    assert_eq!(lines_of(&format), vec![5]);
    assert_eq!(
        format[0].description,
        "fgets() — buffered input flows to printf() with tainted format string — use a format string literal (e.g. printf(\"%s\", input))"
    );
    assert_eq!(format[0].rule_id, "c/taint-format-string");
    assert_eq!(format[0].confidence, 100);
    assert_eq!(format[0].taint_hops, None);
    assert_eq!(format[0].sink_start_byte, None);
    assert_eq!(format[0].source_line, Some(4));
    assert_eq!(lines_of(&TaintCommandInjection.check(SERVER, &tree)), vec![7]);
    assert_eq!(TaintCommandInjection.check(SERVER, &tree)[0].fix_suggestion, None);
    assert_eq!(lines_of(&TaintBufferOverflow.check(SERVER, &tree)), vec![8, 10]);
    assert_eq!(lines_of(&TaintSqlInjection.check(SERVER, &tree)), vec![11]);
    assert_eq!(TaintSqlInjection.info().severity, Severity::Critical);
}

#[test]
fn c_batched_rules_report_in_rule_order() {
    let tree = parse(SERVER);
    let ids: Vec<String> = c_taint_rule_specs().iter().rev().map(|r| r.0.to_string()).collect();
    let found = run_c_taint_batched(SERVER, &tree, &ids);
    assert_eq!(
        found.iter().map(|f| (f.line, f.rule_id.as_str())).collect::<Vec<(usize, &str)>>(),
        vec![
            (5, "c/taint-format-string"),
            (7, "c/taint-command-injection"),
            (8, "c/taint-buffer-overflow"),
            (10, "c/taint-buffer-overflow"),
            (11, "c/taint-sql-injection"),
        ]
    );
    assert!(run_c_taint_batched(SERVER, &tree, &vec!["c/other".to_string()]).is_empty());
}

#[test]
fn c_functions_without_input_have_no_flow() {
    let src = "void f(void) {\n  char b[8];\n  system(b);\n}\n";
    assert!(TaintCommandInjection.check(src, &parse(src)).is_empty());
}

#[test]
fn c_sanitizers_stop_what_they_are_given() {
    let src = "void f(void) {\n  char *a = getenv(\"A\");\n  char *b = clean(a);\n  system(b);\n}\n";
    let tree = parse(src);
    let mut spec = TaintSpec {
        sources: vec![NodeMatcher::Call {
            canonical: "getenv".to_string(),
            description: "env".to_string(),
        }],
        sinks: vec![NodeMatcher::Call {
            canonical: "system".to_string(),
            description: "system()".to_string(),
        }],
        sanitizers: Vec::new(),
    };
    assert_eq!(analyze_tree(tree.root_node(), src, &spec, None).len(), 1);
    spec.sanitizers.push(NodeMatcher::Call {
        canonical: "clean".to_string(),
        description: "clean".to_string(),
    });
    assert!(analyze_tree(tree.root_node(), src, &spec, None).is_empty());
}

#[test]
fn c_source_calls_taint_what_wraps_them() {
    let src = "void f(void) {\n  char *a = getenv(\"A\");\n  char *x;\n  x = strdup(getenv(\"B\"));\n  system(x);\n  char *y = strdup(\"B\");\n  system(y);\n}\n";
    assert_eq!(lines_of(&TaintCommandInjection.check(src, &parse(src))), vec![5]);
}

#[test]
fn c_sanitizers_clean_source_calls() {
    let src = "void f(void) {\n  char *a = getenv(\"A\");\n  char *x = clean(getenv(\"B\"));\n  system(x);\n}\n";
    let tree = parse(src);
    let call = |name: &str| NodeMatcher::Call {
        canonical: name.to_string(),
        description: name.to_string(),
    };
    let mut spec = TaintSpec {
        sources: vec![call("getenv")],
        sinks: vec![call("system")],
        sanitizers: Vec::new(),
    };
    assert_eq!(analyze_tree(tree.root_node(), src, &spec, None).len(), 1);
    spec.sanitizers.push(call("clean"));
    assert!(analyze_tree(tree.root_node(), src, &spec, None).is_empty());
}

#[test]
fn c_declarations_set_all_their_variables() {
    let src = "int main(int argc, char **argv) {\n  char *a = \"x\", *b = argv[1], *c;\n  system(a);\n  system(b);\n  char *d = \"y\", *e = b;\n  system(d);\n  system(e);\n}\n";
    assert_eq!(lines_of(&TaintCommandInjection.check(src, &parse(src))), vec![4, 7]);
    let src = "void f(void) {\n  char *a = \"x\", *b = getenv(\"B\");\n  system(b);\n}\n";
    let found = TaintCommandInjection.check(src, &parse(src));
    assert_eq!(lines_of(&found), vec![3]);
    assert_eq!(found[0].source_line, Some(2));
}

#[test]
fn c_assignments_in_conditions_count() {
    let src = "void f(void) {\n  char *p;\n  char *q;\n  if ((p = getenv(\"A\"))) {\n    q = p;\n    system(q);\n  }\n}\n";
    let found = TaintCommandInjection.check(src, &parse(src));
    assert_eq!(lines_of(&found), vec![6]);
    assert_eq!(found[0].source_line, Some(4));
}
