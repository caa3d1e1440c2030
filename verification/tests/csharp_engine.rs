use taintlint::csharp_taint::{
    analyze_tree, analyze_tree_with_propagators, extract_cross_file_summaries,
};
use taintlint::taint_engine::{NodeMatcher, Propagator, TaintFinding, TaintSpec};
use taintlint::tree::{SyntaxNode, SyntaxTree};

fn add_nodes(
    cursor: &mut tree_sitter::TreeCursor<'_>,
    parent: Option<usize>,
    nodes: &mut Vec<SyntaxNode>,
) {
    let n = cursor.node();
    let index = nodes.len();
    nodes.push(SyntaxNode {
        kind: n.kind().to_string(),
        named: n.is_named(),
        field: cursor.field_name().map(|f| f.to_string()),
        start_byte: n.start_byte(),
        end_byte: n.end_byte(),
        start_row: n.start_position().row,
        start_column: n.start_position().column,
        end_row: n.end_position().row,
        end_column: n.end_position().column,
        parent,
        end: 0,
    });
    if cursor.goto_first_child() {
        loop {
            add_nodes(cursor, Some(index), nodes);
            if !cursor.goto_next_sibling() {
                break;
            }
        }
        cursor.goto_parent();
    }
    nodes[index].end = nodes.len();
}

fn parse(source: &str) -> SyntaxTree {
    let mut parser = tree_sitter::Parser::new();
    parser
        .set_language(&tree_sitter_c_sharp::LANGUAGE.into())
        .expect("the grammar should load");
    let parsed = parser.parse(source, None).expect("the fixture should parse");
    let mut nodes = Vec::new();
    add_nodes(&mut parsed.walk(), None, &mut nodes);
    let tree = SyntaxTree { nodes };
    assert!(tree.check(source));
    tree
}

fn spec(sources: Vec<NodeMatcher>, sinks: Vec<NodeMatcher>) -> TaintSpec {
    TaintSpec { sources, sinks, sanitizers: Vec::new() }
}

fn run_sink() -> NodeMatcher {
    NodeMatcher::MethodName { method: "Run".to_string(), description: "Run()".to_string() }
}

fn lines_of(found: &[TaintFinding]) -> Vec<usize> {
    found.iter().map(|f| f.sink_line).collect()
}

fn in_method(params: &str, lines: &str) -> String {
    format!("class A {{\n void M({}) {{\n{}\n }}\n}}\n", params, lines)
}

fn run(src: &str, s: &TaintSpec) -> Vec<usize> {
    let tree = parse(src);
    lines_of(&analyze_tree(tree.root_node(), src, s, None))
}

#[test]
fn csharp_calls_fill_one_of_their_arguments() {
    let src = in_method("", "var a = 1;\nvar b = 2;\nrng.NextBytes(a, b);\nx.Run(a);\nx.Run(b);");
    let source = |arg_index: usize| NodeMatcher::CallArgSource {
        method: "NextBytes".to_string(),
        arg_index,
        description: "filled".to_string(),
    };
    assert_eq!(run(&src, &spec(vec![source(0)], vec![run_sink()])), vec![6]);
    assert_eq!(run(&src, &spec(vec![source(1)], vec![run_sink()])), vec![7]);
    assert!(run(&src, &spec(vec![source(2)], vec![run_sink()])).is_empty());
}

#[test]
fn csharp_first_parameter_alone_is_a_source() {
    let src = in_method("string a, string b", "x.Run(a);\nx.Run(b);");
    let source = NodeMatcher::FirstParamSource { description: "first".to_string() };
    assert_eq!(run(&src, &spec(vec![source], vec![run_sink()])), vec![3]);
}

#[test]
fn csharp_every_parameter_is_a_source_by_wildcard() {
    let src = in_method("string a, string b", "x.Run(a);\nx.Run(b);\nx.Run(c);");
    let source = NodeMatcher::ParamName {
        names: vec![taintlint::taint_engine::ANY_PARAM_WILDCARD.to_string()],
        description: "p".to_string(),
    };
    assert_eq!(run(&src, &spec(vec![source], vec![run_sink()])), vec![3, 4]);
}

#[test]
fn csharp_concatenated_arguments_are_sinks() {
    let src = in_method("string a", "x.Run(a);\nx.Run(\"b\" + a);\nx.Run(\"b\" + c);");
    let source = NodeMatcher::FirstParamSource { description: "first".to_string() };
    let sink = NodeMatcher::CallArgConcat {
        method: "Run".to_string(),
        description: "built".to_string(),
    };
    assert_eq!(run(&src, &spec(vec![source], vec![sink])), vec![4]);
}

#[test]
fn csharp_members_and_elements_are_sources() {
    let src = in_method(
        "",
        "x.Run(Request.QueryString);\nx.Run(req.Body);\nx.Run(Request.Form[\"a\"]);\nx.Run(other.Form);",
    );
    let attribute = NodeMatcher::Attribute {
        root: "Request".to_string(),
        field: "QueryString".to_string(),
        description: "query".to_string(),
    };
    let field =
        NodeMatcher::FieldName { field: "Body".to_string(), description: "body".to_string() };
    let element = NodeMatcher::Subscript {
        base: Some("Form".to_string()),
        description: "form".to_string(),
    };
    assert_eq!(run(&src, &spec(vec![attribute], vec![run_sink()])), vec![3]);
    assert_eq!(run(&src, &spec(vec![field], vec![run_sink()])), vec![4]);
    assert_eq!(run(&src, &spec(vec![element], vec![run_sink()])), vec![5]);
}

#[test]
fn csharp_typed_names_are_sources() {
    let src = in_method("System.Web.HttpRequest q, string b", "x.Run(q);\nx.Run(b);\nStream s = Open();\nx.Run(s);");
    let of = |declared: &str| NodeMatcher::TypedName {
        declared: declared.to_string(),
        description: "typed".to_string(),
    };
    assert_eq!(run(&src, &spec(vec![of("HttpRequest")], vec![run_sink()])), vec![3]);
    assert_eq!(run(&src, &spec(vec![of("Stream")], vec![run_sink()])), vec![6]);
}

#[test]
fn csharp_interpolated_strings_carry_taint() {
    let src = in_method("string a", "var s = $\"x {a} y\";\nx.Run(s);\nx.Run($\"x {1} y\");");
    let source = NodeMatcher::FirstParamSource { description: "first".to_string() };
    assert_eq!(run(&src, &spec(vec![source], vec![run_sink()])), vec![4]);
}

#[test]
fn csharp_propagators_taint_receivers() {
    let src = in_method("string a", "var sb = new StringBuilder();\nsb.Append(a);\nx.Run(sb);");
    let tree = parse(&src);
    let s = spec(
        vec![NodeMatcher::FirstParamSource { description: "first".to_string() }],
        vec![run_sink()],
    );
    assert!(analyze_tree(tree.root_node(), &src, &s, None).is_empty());
    let found = analyze_tree_with_propagators(
        tree.root_node(),
        &src,
        &s,
        None,
        &vec![Propagator { method: Some("Append".to_string()) }],
    );
    assert_eq!(lines_of(&found), vec![5]);
}

#[test]
fn csharp_rules_without_sources_find_nothing() {
    let src = in_method("string a", "x.Run(a);\nx.Run(Request.QueryString);");
    assert!(run(&src, &spec(Vec::new(), vec![run_sink()])).is_empty());
}

#[test]
fn of_the_csharp_methods_of_one_name_the_last_counts() {
    let source = "class A {\n  string F(string a) { return a; }\n  string G(string a) { return a; }\n  string F(string a, string b) { return b; }\n}\n";
    let tree = parse(source);
    let rules = vec![("run", spec(Vec::new(), vec![run_sink()]))];
    let summaries = extract_cross_file_summaries(tree.root_node(), source, None, &rules);
    assert_eq!(summaries.len(), 2);
    assert_eq!(summaries[0].name, "G");
    assert_eq!(summaries[0].params_to_return, vec![0]);
    assert_eq!(summaries[1].name, "F");
    assert_eq!(summaries[1].params_to_return, vec![1]);
}
