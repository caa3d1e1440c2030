use taintlint::common::AliasTable;
use taintlint::cross_file::{CrossFileSummaryMap, FunctionTaintSummary, ParamSinkFlow};
use taintlint::go_taint::{
    analyze_tree, analyze_tree_batched, analyze_tree_labeled, compose_cross_file_summaries,
    extract_cross_file_summaries, function_summary_key, go_aliases_from_tree, normalize_go_type,
    BatchedRule,
};
use taintlint::taint_engine::{
    relabel, LabelExpr, LabelPolicy, LabelSet, NodeMatcher, Relabel, TaintFinding, TaintSpec,
};
use taintlint::tree::{SyntaxNode, SyntaxTree};

fn add_nodes(
    cursor: &mut tree_sitter::TreeCursor<'_>,
    parent: Option<usize>,
    nodes: &mut Vec<SyntaxNode>,
) {
    let n = cursor.node();
    let index = nodes.len();
    nodes.push(SyntaxNode {
        kind: n.kind().to_string(),
        named: n.is_named(),
        field: cursor.field_name().map(|f| f.to_string()),
        start_byte: n.start_byte(),
        end_byte: n.end_byte(),
        start_row: n.start_position().row,
        start_column: n.start_position().column,
        end_row: n.end_position().row,
        end_column: n.end_position().column,
        parent,
        end: 0,
    });
    if cursor.goto_first_child() {
        loop {
            add_nodes(cursor, Some(index), nodes);
            if !cursor.goto_next_sibling() {
                break;
            }
        }
        cursor.goto_parent();
    }
    nodes[index].end = nodes.len();
}

fn parse(source: &str) -> SyntaxTree {
    let mut parser = tree_sitter::Parser::new();
    parser
        .set_language(&tree_sitter_go::LANGUAGE.into())
        .expect("the grammar should load");
    let parsed = parser.parse(source, None).expect("the fixture should parse");
    let mut nodes = Vec::new();
    add_nodes(&mut parsed.walk(), None, &mut nodes);
    let tree = SyntaxTree { nodes };
    assert!(tree.check(source));
    tree
}

fn env() -> NodeMatcher {
    NodeMatcher::Call { canonical: "os.Getenv".to_string(), description: "env".to_string() }
}

fn sink(canonical: &str) -> NodeMatcher {
    NodeMatcher::Call { canonical: canonical.to_string(), description: canonical.to_string() }
}

fn spec(sources: Vec<NodeMatcher>, sinks: Vec<NodeMatcher>) -> TaintSpec {
    TaintSpec { sources, sinks, sanitizers: Vec::new() }
}

fn lines_of(found: &[TaintFinding]) -> Vec<usize> {
    found.iter().map(|f| f.sink_line).collect()
}

fn run(src: &str, s: &TaintSpec) -> Vec<usize> {
    let tree = parse(src);
    lines_of(&analyze_tree(tree.root_node(), src, s, None))
}

#[test]
fn go_aliases_are_resolved() {
    let src = "package main\n\nimport (\n\te \"os\"\n\t\"os/exec\"\n)\n\nfunc f() {\n\tx := e.Getenv(\"A\")\n\texec.Command(x)\n}\n";
    let tree = parse(src);
    let aliases = go_aliases_from_tree(src, &tree);
    assert_eq!(aliases.get("e"), Some("os"));
    let s = spec(vec![env()], vec![sink("exec.Command")]);
    let found = analyze_tree(tree.root_node(), src, &s, Some(&aliases));
    assert_eq!(lines_of(&found), vec![10]);
    assert!(analyze_tree(tree.root_node(), src, &s, None).is_empty());
    assert!(analyze_tree(tree.root_node(), src, &s, Some(&AliasTable::new())).is_empty());
}

#[test]
fn go_uneven_assignments_taint_every_name() {
    let src = "package main\n\nfunc f() {\n\ta, b := os.Getenv(\"A\")\n\trun(a)\n\trun(b)\n\tc, d := os.Getenv(\"A\"), 1\n\trun(c)\n\trun(d)\n}\n";
    assert_eq!(run(src, &spec(vec![env()], vec![sink("run")])), vec![5, 6, 8]);
}

#[test]
fn go_comparisons_and_clean_assignments_are_clean() {
    let src = "package main\n\nfunc f() {\n\ta := os.Getenv(\"A\")\n\trun(a == \"x\")\n\trun(a + \"x\")\n\ta = \"fixed\"\n\trun(a)\n}\n";
    assert_eq!(run(src, &spec(vec![env()], vec![sink("run")])), vec![6]);
}

#[test]
fn go_sanitizer_calls_are_clean() {
    let src = "package main\n\nfunc f() {\n\ta := os.Getenv(\"A\")\n\trun(clean(a))\n\trun(other(a))\n}\n";
    let mut s = spec(vec![env()], vec![sink("run")]);
    s.sanitizers.push(sink("clean"));
    assert_eq!(run(src, &s), vec![6]);
}

#[test]
fn go_rules_without_sources_find_nothing() {
    let src = "package main\n\nfunc f(r *http.Request) {\n\trun(r)\n\trun(os.Getenv(\"A\"))\n}\n";
    assert!(run(src, &spec(Vec::new(), vec![sink("run")])).is_empty());
}

#[test]
fn go_typed_parameters_and_variables_are_sources() {
    let src = "package main\n\nfunc f(q *http.Request, b string) {\n\trun(q)\n\trun(b)\n\tvar v http.Request\n\trun(v)\n}\n";
    let source = NodeMatcher::TypedName {
        declared: "http.Request".to_string(),
        description: "typed".to_string(),
    };
    assert_eq!(run(src, &spec(vec![source], vec![sink("run")])), vec![4, 7]);
    assert_eq!(normalize_go_type("*http.Request"), "http.Request");
    assert_eq!(normalize_go_type(" string "), "string");
}

#[test]
fn go_built_strings_are_sinks() {
    let src = "package main\n\nfunc f() {\n\ta := os.Getenv(\"A\")\n\tb := \"x\" + a\n\tc := \"x\" + \"y\"\n\tuse(b, c)\n}\n";
    let built = NodeMatcher::BinopFormat { description: "built".to_string() };
    assert_eq!(run(src, &spec(vec![env()], vec![built])), vec![5]);
}

#[test]
fn go_labels_gate_sinks() {
    let src = "package main\n\nfunc f() {\n\ta := os.Getenv(\"A\")\n\trun(a)\n\tb := \"https://a.example/\" + a\n\trun(b)\n}\n";
    let tree = parse(src);
    let s = spec(vec![env()], vec![sink("run")]);
    let policy = LabelPolicy {
        source_label: "INPUT".to_string(),
        relabels: vec![Relabel { from: "INPUT".to_string(), to: "CLEAN".to_string() }],
        sink_requires: LabelExpr::And(
            Box::new(LabelExpr::Label("INPUT".to_string())),
            Box::new(LabelExpr::Not(Box::new(LabelExpr::Label("CLEAN".to_string())))),
        ),
    };
    let labeled = analyze_tree_labeled(tree.root_node(), src, &s, None, Some(&policy));
    assert_eq!(lines_of(&labeled), vec![5]);
    let unlabeled = analyze_tree_labeled(tree.root_node(), src, &s, None, None);
    assert_eq!(lines_of(&unlabeled), vec![5, 7]);
}

#[test]
fn relabelling_twice_is_relabelling_once_without_chains() {
    let set = |names: &[&str]| {
        let mut s = LabelSet::new();
        for n in names {
            s.insert(n.to_string());
        }
        s
    };
    let rule = |from: &str, to: &str| Relabel { from: from.to_string(), to: to.to_string() };
    let plain = vec![rule("a", "x"), rule("b", "y")];
    let once = relabel(set(&["a"]), &plain);
    assert!(once.contains("a") && once.contains("x") && !once.contains("y"));
    let twice = relabel(relabel(set(&["a"]), &plain), &plain);
    assert!(twice.contains("a") && twice.contains("x") && !twice.contains("y"));
    let chain = vec![rule("a", "b"), rule("b", "c")];
    assert!(!relabel(set(&["a"]), &chain).contains("c"));
    assert!(relabel(relabel(set(&["a"]), &chain), &chain).contains("c"));
}

#[test]
fn go_summary_keys_name_the_function_and_its_arity() {
    assert_eq!(function_summary_key("helper", 2), "helper/2");
    assert_eq!(function_summary_key("f", 0), "f/0");
}

#[test]
fn go_batched_rules_agree_with_single_runs() {
    let src = "package main\n\nfunc f(p string) {\n\ta := os.Getenv(\"A\")\n\trun(a)\n\tread(a)\n\tread(p)\n}\n";
    let tree = parse(src);
    let first = spec(vec![env()], vec![sink("run")]);
    let second = spec(vec![env()], vec![sink("read")]);
    let third = spec(
        vec![NodeMatcher::ParamName { names: vec!["p".to_string()], description: "p".to_string() }],
        vec![sink("read")],
    );
    let rules = vec![
        BatchedRule { rule_id: "one", spec: &first },
        BatchedRule { rule_id: "two", spec: &second },
        BatchedRule { rule_id: "three", spec: &third },
    ];
    let found = analyze_tree_batched(tree.root_node(), src, &rules, None, None);
    for rule in &rules {
        let alone = lines_of(&analyze_tree(tree.root_node(), src, rule.spec, None));
        let batched: Vec<usize> = found
            .iter()
            .filter(|f| f.0 == rule.rule_id)
            .map(|f| f.1.sink_line)
            .collect();
        assert_eq!(alone, batched);
    }
    assert_eq!(found.len(), 3);
}

#[test]
fn go_summaries_name_the_parameters_that_reach_a_sink() {
    let src = "package main\n\nfunc f(a, b string) string {\n\trun(b)\n\treturn a\n}\n\nfunc g(a string) {\n\tuse(a)\n}\n";
    let tree = parse(src);
    let rules = vec![("r1", spec(Vec::new(), vec![sink("run")]))];
    let found = extract_cross_file_summaries(tree.root_node(), src, None, &rules);
    assert_eq!(found.len(), 1);
    assert_eq!(found[0].name, "f");
    assert_eq!(found[0].params_to_return, vec![0]);
    assert_eq!(found[0].params_to_sink.len(), 1);
    assert_eq!(found[0].params_to_sink[0].param_index, 1);
    assert_eq!(found[0].params_to_sink[0].sink_rule_id, "r1");
}

#[test]
fn go_composition_follows_one_call() {
    let src = "package main\n\nfunc g(a string) {\n\thelper(a)\n}\n";
    let tree = parse(src);
    let rules = vec![("r1", spec(Vec::new(), vec![sink("run")]))];
    let mut summaries = CrossFileSummaryMap::new();
    summaries.insert(
        "b.go".to_string(),
        vec![FunctionTaintSummary {
            name: "helper".to_string(),
            params_to_return: Vec::new(),
            params_to_sink: vec![ParamSinkFlow {
                param_index: 0,
                sink_rule_id: "r1".to_string(),
                sink_description: "run".to_string(),
            }],
        }],
    );
    let paths = vec!["b.go".to_string()];
    let compose = |allowed: Vec<String>| {
        compose_cross_file_summaries(
            tree.root_node(),
            src,
            None,
            &rules,
            &paths,
            &summaries,
            &allowed,
        )
    };
    let found = compose(vec!["r1".to_string()]);
    assert_eq!(found.len(), 1);
    assert_eq!(found[0].name, "g");
    assert_eq!(found[0].params_to_sink[0].param_index, 0);
    assert!(compose(vec!["r2".to_string()]).is_empty());
}
