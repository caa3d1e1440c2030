use taintlint::bash::{run_bash_taint_batched, TaintCommandInjection, TaintPathTraversal, TaintSsrf};
use taintlint::bash_taint::{analyze_tree, bash_taint_rule_specs};
use taintlint::finding::{Finding, Severity};
use taintlint::taint_engine::{NodeMatcher, TaintSpec};
use taintlint::tree::{SyntaxNode, SyntaxTree};

fn add_nodes(
    cursor: &mut tree_sitter::TreeCursor<'_>,
    parent: Option<usize>,
    nodes: &mut Vec<SyntaxNode>,
) {
    let n = cursor.node();
    let index = nodes.len();
    nodes.push(SyntaxNode {
        kind: n.kind().to_string(),
        named: n.is_named(),
        field: cursor.field_name().map(|f| f.to_string()),
        start_byte: n.start_byte(),
        end_byte: n.end_byte(),
        start_row: n.start_position().row,
        start_column: n.start_position().column,
        end_row: n.end_position().row,
        end_column: n.end_position().column,
        parent,
        end: 0,
    });
    if cursor.goto_first_child() {
        loop {
            add_nodes(cursor, Some(index), nodes);
            if !cursor.goto_next_sibling() {
                break;
            }
        }
        cursor.goto_parent();
    }
    nodes[index].end = nodes.len();
}

fn parse(source: &str) -> SyntaxTree {
    let mut parser = tree_sitter::Parser::new();
    parser
        .set_language(&tree_sitter_bash::LANGUAGE.into())
        .expect("the grammar should load");
    let parsed = parser.parse(source, None).expect("the fixture should parse");
    let mut nodes = Vec::new();
    add_nodes(&mut parsed.walk(), None, &mut nodes);
    let tree = SyntaxTree { nodes };
    assert!(tree.check(source));
    tree
}

fn lines_of(findings: &[Finding]) -> Vec<usize> {
    findings.iter().map(|f| f.line).collect()
}

const SCRIPT: &str = "eval \"$1\"\nx=$(curl https://a.example)\ny=$x\nbash -c \"$y\"\ny=fixed\nbash -c \"$y\"\nread -r line\neval $line\nz=$(printf %q \"$1\")\neval \"$z\"\nf() {\n  eval \"$x\"\n  sh -c \"$2\"\n}\n";

#[test]
fn bash_scopes_are_read_in_order() {
    let tree = parse(SCRIPT);
    let found = TaintCommandInjection.check(SCRIPT, &tree);
    assert_eq!(lines_of(&found), vec![1, 4, 8, 13]);
    assert_eq!(
        found[0].description,
        "shell parameter ($1, $@, $REPLY, …) reaches eval — untrusted shell input can inject OS commands"
    );
    assert_eq!(found[1].source_line, Some(2));
    assert_eq!(found[1].source_description, Some("$(curl …)".to_string()));
    assert_eq!(found[2].source_line, Some(7));
    assert_eq!(found[3].source_line, Some(11));
    assert_eq!(found[0].taint_hops, Some(1));
    assert_eq!(found[0].severity, Severity::Critical);
}

#[test]
fn bash_rules_without_a_specification_find_nothing() {
    let tree = parse(SCRIPT);
    assert!(TaintPathTraversal.check(SCRIPT, &tree).is_empty());
    assert!(TaintSsrf.check(SCRIPT, &tree).is_empty());
    assert_eq!(bash_taint_rule_specs().len(), 1);
    assert_eq!(TaintSsrf.info().id, "bash/taint-ssrf");
}

#[test]
fn bash_batched_rules_are_the_enabled_ones() {
    let tree = parse(SCRIPT);
    let all = run_bash_taint_batched(SCRIPT, &tree, &vec!["bash/taint-command-injection".to_string()]);
    assert_eq!(lines_of(&all), lines_of(&TaintCommandInjection.check(SCRIPT, &tree)));
    assert!(run_bash_taint_batched(SCRIPT, &tree, &vec!["bash/taint-ssrf".to_string()]).is_empty());
}

#[test]
fn bash_rules_without_sources_find_nothing() {
    let tree = parse(SCRIPT);
    let spec = TaintSpec {
        sources: Vec::new(),
        sinks: vec![NodeMatcher::Call {
            canonical: "eval".to_string(),
            description: "eval".to_string(),
        }],
        sanitizers: Vec::new(),
    };
    assert!(analyze_tree(tree.root_node(), SCRIPT, &spec, None).is_empty());
}

#[test]
fn bash_defaults_of_expansions_are_read() {
    let src = "eval \"${x:-$1}\"\neval \"${x:-y}\"\nz=${x:-$(curl http://e)}\neval \"$z\"\n";
    assert_eq!(lines_of(&TaintCommandInjection.check(src, &parse(src))), vec![1, 4]);
}

#[test]
fn bash_quoted_substitutions_taint() {
    let src = "out=\"$(curl http://e)\"\neval \"$out\"\nok=\"$(date)\"\neval \"$ok\"\nlist=(a \"$1\")\neval \"$list\"\n";
    let found = TaintCommandInjection.check(src, &parse(src));
    assert_eq!(lines_of(&found), vec![2, 6]);
    assert_eq!(found[0].source_description, Some("$(curl …)".to_string()));
    assert_eq!(found[0].source_line, Some(1));
}

#[test]
fn bash_quoted_sanitizers_clean() {
    let src = "a=\"$(printf %q \"$1\")\"\neval \"$a\"\nb=\"$(printf %q \"$1\") $2\"\neval \"$b\"\n";
    assert_eq!(lines_of(&TaintCommandInjection.check(src, &parse(src))), vec![4]);
}
