use taintlint::apex_taint::analyze_tree;
use taintlint::taint_engine::{NodeMatcher, TaintFinding, TaintSpec, ANY_PARAM_WILDCARD};
use taintlint::tree::{SyntaxNode, SyntaxTree};

fn add_nodes(cursor: &mut tree_sitter::TreeCursor<'_>, parent: Option<usize>, nodes: &mut Vec<SyntaxNode>) {
    let n = cursor.node();
    let index = nodes.len();
    nodes.push(SyntaxNode {
        kind: n.kind().to_string(),
        named: n.is_named(),
        field: cursor.field_name().map(|f| f.to_string()),
        start_byte: n.start_byte(),
        end_byte: n.end_byte(),
        start_row: n.start_position().row,
        start_column: n.start_position().column,
        end_row: n.end_position().row,
        end_column: n.end_position().column,
        parent,
        end: 0,
    });
    if cursor.goto_first_child() {
        loop {
            add_nodes(cursor, Some(index), nodes);
            if !cursor.goto_next_sibling() {
                break;
            }
        }
        cursor.goto_parent();
    }
    nodes[index].end = nodes.len();
}

fn parse(source: &str) -> SyntaxTree {
    let mut parser = tree_sitter::Parser::new();
    parser
        .set_language(&tree_sitter_sfapex::apex::LANGUAGE.into())
        .expect("the grammar should load");
    let parsed = parser.parse(source, None).expect("the fixture should parse");
    let mut nodes = Vec::new();
    add_nodes(&mut parsed.walk(), None, &mut nodes);
    let tree = SyntaxTree { nodes };
    assert!(tree.check(source));
    tree
}


fn run(src: &str, spec: &TaintSpec) -> Vec<TaintFinding> {
    let tree = parse(src);
    analyze_tree(tree.root_node(), src, spec, None)
}

fn wildcard_source() -> NodeMatcher {
    NodeMatcher::ParamName {
        names: vec![ANY_PARAM_WILDCARD.into()],
        description: "untrusted function parameter".into(),
    }
}

fn soql_spec() -> TaintSpec {
    TaintSpec {
        sources: vec![wildcard_source()],
        sinks: vec![NodeMatcher::Call {
            canonical: "Database.query".into(),
            description: "Database.query()".into(),
        }],
        sanitizers: vec![NodeMatcher::Call {
            canonical: "String.escapeSingleQuotes".into(),
            description: "String.escapeSingleQuotes()".into(),
        }],
    }
}

#[test]
fn soql_injection_from_param_fires() {
    let src = r#"
public class C {
    public void m(String p) {
        List<Account> a = Database.query(p);
    }
}
"#;
    let f = run(src, &soql_spec());
    assert_eq!(f.len(), 1, "tainted Database.query must fire, got {:?}", f);
    assert!(f[0].sink_description.contains("Database.query"));
}

#[test]
fn soql_injection_transitive_concat_fires() {
    let src = r#"
public class C {
    public void m(String p) {
        String q = 'SELECT Id FROM Account WHERE Name = ' + p;
        List<Account> a = Database.query(q);
    }
}
"#;
    let f = run(src, &soql_spec());
    assert_eq!(
        f.len(),
        1,
        "transitive SOQL injection must fire, got {:?}",
        f
    );
}

#[test]
fn soql_injection_sanitized_no_finding() {
    let src = r#"
public class C {
    public void m(String p) {
        String q = String.escapeSingleQuotes(p);
        List<Account> a = Database.query(q);
    }
}
"#;
    let f = run(src, &soql_spec());
    assert_eq!(f.len(), 0, "escaped param must not fire, got {:?}", f);
}

#[test]
fn soql_injection_literal_no_finding() {
    let src = r#"
public class C {
    public void m(String p) {
        List<Account> a = Database.query('SELECT Id FROM Account');
    }
}
"#;
    let f = run(src, &soql_spec());
    assert_eq!(f.len(), 0, "literal query must not fire, got {:?}", f);
}
