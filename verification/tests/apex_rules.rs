use taintlint::apex::{run_apex_taint_batched, TaintSoqlInjection, TaintSoslInjection};
use taintlint::finding::{Finding, Severity};
use taintlint::tree::{SyntaxNode, SyntaxTree};

fn add_nodes(
    cursor: &mut tree_sitter::TreeCursor<'_>,
    parent: Option<usize>,
    nodes: &mut Vec<SyntaxNode>,
) {
    let n = cursor.node();
    let index = nodes.len();
    nodes.push(SyntaxNode {
        kind: n.kind().to_string(),
        named: n.is_named(),
        field: cursor.field_name().map(|f| f.to_string()),
        start_byte: n.start_byte(),
        end_byte: n.end_byte(),
        start_row: n.start_position().row,
        start_column: n.start_position().column,
        end_row: n.end_position().row,
        end_column: n.end_position().column,
        parent,
        end: 0,
    });
    if cursor.goto_first_child() {
        loop {
            add_nodes(cursor, Some(index), nodes);
            if !cursor.goto_next_sibling() {
                break;
            }
        }
        cursor.goto_parent();
    }
    nodes[index].end = nodes.len();
}

fn parse(source: &str) -> SyntaxTree {
    let mut parser = tree_sitter::Parser::new();
    parser
        .set_language(&tree_sitter_sfapex::apex::LANGUAGE.into())
        .expect("the grammar should load");
    let parsed = parser.parse(source, None).expect("the fixture should parse");
    let mut nodes = Vec::new();
    add_nodes(&mut parsed.walk(), None, &mut nodes);
    let tree = SyntaxTree { nodes };
    assert!(tree.check(source));
    tree
}

fn lines_of(findings: &[Finding]) -> Vec<usize> {
    findings.iter().map(|f| f.line).collect()
}

const CLASS: &str = "public class C {\n  public void m(String p) {\n    String q = 'SELECT Id FROM A WHERE N = ' + p;\n    Database.query(q);\n    Database.query(String.escapeSingleQuotes(p));\n    Search.query('FIND ' + p);\n    q = 'SELECT Id FROM A';\n  }\n  public void n() {\n    Database.query('SELECT Id FROM A');\n  }\n}\n";

#[test]
fn apex_rules_report_their_own_sinks() {
    let tree = parse(CLASS);
    let soql = TaintSoqlInjection.check(CLASS, &tree);
    assert_eq!(lines_of(&TaintSoslInjection.check(CLASS, &tree)), vec![6]);
    assert!(soql.iter().all(|f| f.rule_id == "apex/taint-soql-injection"));
    assert!(soql.iter().all(|f| f.severity == Severity::Critical));
    assert!(!lines_of(&soql).contains(&5));
    assert!(!lines_of(&soql).contains(&10));
}

#[test]
fn apex_findings_name_source_and_sink() {
    let src = "public class C {\n  public void m(String p) {\n    Database.query(p);\n  }\n}\n";
    let found = TaintSoqlInjection.check(src, &parse(src));
    assert_eq!(found.len(), 1);
    assert_eq!((found[0].line, found[0].column), (3, 5));
    assert_eq!(found[0].source_line, Some(2));
    assert_eq!(found[0].source_description, Some("untrusted parameter 'p'".to_string()));
    assert!(found[0].description.starts_with("untrusted parameter 'p' reaches "));
    assert!(found[0].description.ends_with(" — untrusted input can inject SOQL"));
    assert_eq!(found[0].cwe, Some("CWE-943".to_string()));
}

#[test]
fn apex_batched_rules_are_the_enabled_ones() {
    let tree = parse(CLASS);
    let found = run_apex_taint_batched(CLASS, &tree, &vec!["apex/taint-sosl-injection".to_string()]);
    assert_eq!(lines_of(&found), vec![6]);
    assert!(run_apex_taint_batched(CLASS, &tree, &Vec::new()).is_empty());
}
