use taintlint::cross_file::{CrossFileSummaryMap, FunctionTaintSummary, ParamSinkFlow};
use taintlint::java_taint::{
    analyze_tree, analyze_tree_labeled, analyze_tree_with_propagators, compose_cross_file_summaries,
    extract_cross_file_findings, extract_cross_file_summaries, java_taint_rule_specs,
    match_java_method_canonical,
};
use taintlint::scope::{type_final_segment, CrossFileInfo};
use taintlint::taint_engine::{
    LabelExpr, LabelPolicy, NodeMatcher, Propagator, Relabel, TaintFinding, TaintSpec,
};
use taintlint::tree::{SyntaxNode, SyntaxTree};

fn add_nodes(
    cursor: &mut tree_sitter::TreeCursor<'_>,
    parent: Option<usize>,
    nodes: &mut Vec<SyntaxNode>,
) {
    let n = cursor.node();
    let index = nodes.len();
    nodes.push(SyntaxNode {
        kind: n.kind().to_string(),
        named: n.is_named(),
        field: cursor.field_name().map(|f| f.to_string()),
        start_byte: n.start_byte(),
        end_byte: n.end_byte(),
        start_row: n.start_position().row,
        start_column: n.start_position().column,
        end_row: n.end_position().row,
        end_column: n.end_position().column,
        parent,
        end: 0,
    });
    if cursor.goto_first_child() {
        loop {
            add_nodes(cursor, Some(index), nodes);
            if !cursor.goto_next_sibling() {
                break;
            }
        }
        cursor.goto_parent();
    }
    nodes[index].end = nodes.len();
}

fn parse(source: &str) -> SyntaxTree {
    let mut parser = tree_sitter::Parser::new();
    parser
        .set_language(&tree_sitter_java::LANGUAGE.into())
        .expect("the grammar should load");
    let parsed = parser.parse(source, None).expect("the fixture should parse");
    let mut nodes = Vec::new();
    add_nodes(&mut parsed.walk(), None, &mut nodes);
    let tree = SyntaxTree { nodes };
    assert!(tree.check(source));
    tree
}

fn getter() -> NodeMatcher {
    NodeMatcher::Call {
        canonical: "request.getParameter".to_string(),
        description: "getParameter".to_string(),
    }
}

fn method_sink(method: &str) -> NodeMatcher {
    NodeMatcher::MethodName { method: method.to_string(), description: format!("{}()", method) }
}

fn spec(sources: Vec<NodeMatcher>, sinks: Vec<NodeMatcher>) -> TaintSpec {
    TaintSpec { sources, sinks, sanitizers: Vec::new() }
}

fn lines_of(found: &[TaintFinding]) -> Vec<usize> {
    found.iter().map(|f| f.sink_line).collect()
}

fn in_method(params: &str, lines: &str) -> String {
    format!("class A {{\n void m({}) {{\n{}\n }}\n}}\n", params, lines)
}

#[test]
fn java_propagators_taint_receivers() {
    let src = in_method(
        "",
        "StringBuilder sb = new StringBuilder();\nsb.append(request.getParameter(\"a\"));\nst.run(sb);\nlist.add(request.getParameter(\"a\"));\nst.run(list);",
    );
    let tree = parse(&src);
    let s = spec(vec![getter()], vec![method_sink("run")]);
    assert!(analyze_tree(tree.root_node(), &src, &s, None).is_empty());
    let append = vec![Propagator { method: Some("append".to_string()) }];
    let found = analyze_tree_with_propagators(tree.root_node(), &src, &s, None, &append);
    assert_eq!(lines_of(&found), vec![5]);
    let any = vec![Propagator { method: None }];
    let found = analyze_tree_with_propagators(tree.root_node(), &src, &s, None, &any);
    assert_eq!(lines_of(&found), vec![5, 7]);
}

#[test]
fn java_labels_gate_sinks() {
    let src = in_method(
        "",
        "String raw = request.getParameter(\"a\");\nString built = \"x\" + raw;\nst.run(raw);\nst.run(built);",
    );
    let tree = parse(&src);
    let s = spec(vec![getter()], vec![method_sink("run")]);
    let policy = |requires: LabelExpr| LabelPolicy {
        source_label: "INPUT".to_string(),
        relabels: vec![Relabel { from: "INPUT".to_string(), to: "CONCAT".to_string() }],
        sink_requires: requires,
    };
    let run = |p: Option<&LabelPolicy>| {
        lines_of(&analyze_tree_labeled(tree.root_node(), &src, &s, None, &Vec::new(), p))
    };
    let concat = || LabelExpr::Label("CONCAT".to_string());
    assert_eq!(run(None), vec![5, 6]);
    assert_eq!(run(Some(&policy(LabelExpr::Label("INPUT".to_string())))), vec![5, 6]);
    assert_eq!(run(Some(&policy(concat()))), vec![6]);
    assert_eq!(run(Some(&policy(LabelExpr::Not(Box::new(concat()))))), vec![5]);
    let never = LabelExpr::And(Box::new(concat()), Box::new(LabelExpr::Not(Box::new(concat()))));
    assert!(run(Some(&policy(never))).is_empty());
}

#[test]
fn java_declared_types_are_sources_and_sinks() {
    let src = in_method(
        "java.util.List<String> in, Other b",
        "st.run(in);\nst.run(b);\nFile f = in;\nFile g = null;\ng = in;\nString h = in;",
    );
    let tree = parse(&src);
    let source = NodeMatcher::TypedName {
        declared: "List".to_string(),
        description: "a list".to_string(),
    };
    let target = NodeMatcher::TypedAssignTarget {
        declared: "File".to_string(),
        description: "a file".to_string(),
    };
    let found =
        analyze_tree(tree.root_node(), &src, &spec(vec![source], vec![method_sink("run"), target]), None);
    assert_eq!(lines_of(&found), vec![3, 5, 7]);
    assert_eq!(found[0].source_description, "a list");
    assert_eq!(found[1].sink_description, "a file");
}

#[test]
fn java_sinks_match_by_pattern_and_receiver() {
    let src = in_method(
        "",
        "String x = request.getParameter(\"a\");\nst.runFast(x);\nshell.open(x);\nshell.inner.open(x);\nlog.info(x);",
    );
    let tree = parse(&src);
    let run = |sink: NodeMatcher| {
        lines_of(&analyze_tree(tree.root_node(), &src, &spec(vec![getter()], vec![sink]), None))
    };
    assert_eq!(
        run(NodeMatcher::MethodNameRegex {
            regex: "^run".to_string(),
            description: "run*".to_string()
        }),
        vec![4]
    );
    assert_eq!(
        run(NodeMatcher::CallRegex {
            regex: "^shell\\.open$".to_string(),
            description: "shell.open".to_string()
        }),
        vec![5]
    );
    assert_eq!(
        run(NodeMatcher::ReceiverCall {
            receiver: "shell".to_string(),
            description: "shell".to_string()
        }),
        vec![5, 6]
    );
}

#[test]
fn java_parameters_are_sources_by_name_and_by_wildcard() {
    let src = in_method("String a, int b", "st.run(a);\nst.run(b);");
    let tree = parse(&src);
    let named = |name: &str| {
        let source = NodeMatcher::ParamName {
            names: vec![name.to_string()],
            description: "p".to_string(),
        };
        lines_of(&analyze_tree(
            tree.root_node(),
            &src,
            &spec(vec![source], vec![method_sink("run")]),
            None,
        ))
    };
    assert_eq!(named("b"), vec![4]);
    assert_eq!(named(taintlint::taint_engine::ANY_PARAM_WILDCARD), vec![3, 4]);
    assert!(named("c").is_empty());
}

#[test]
fn java_assignments_of_clean_values_clean() {
    let src = in_method(
        "",
        "String x = request.getParameter(\"a\");\nst.run(x);\nx = \"fixed\";",
    );
    let tree = parse(&src);
    let s = spec(vec![getter()], vec![method_sink("run")]);
    assert!(analyze_tree(tree.root_node(), &src, &s, None).is_empty());
}

#[test]
fn java_sanitizer_calls_are_clean() {
    let src = in_method(
        "",
        "String x = request.getParameter(\"a\");\nst.run(clean(x));\nst.run(x);",
    );
    let tree = parse(&src);
    let mut s = spec(vec![getter()], vec![method_sink("run")]);
    s.sanitizers.push(method_sink("clean"));
    assert_eq!(lines_of(&analyze_tree(tree.root_node(), &src, &s, None)), vec![5]);
}

#[test]
fn java_rules_without_sources_find_nothing() {
    let src = in_method("String a", "st.run(a);\nst.run(request.getParameter(\"a\"));");
    let tree = parse(&src);
    let s = spec(Vec::new(), vec![method_sink("run")]);
    assert!(analyze_tree(tree.root_node(), &src, &s, None).is_empty());
}

#[test]
fn java_canonical_names_match_receivers_loosely() {
    assert!(match_java_method_canonical("request.getParameter", "httpRequest", "getParameter"));
    assert!(!match_java_method_canonical("request.getParameter", "httpRequest", "getHeader"));
    assert!(!match_java_method_canonical("request.getParameter", "session", "getParameter"));
    assert!(!match_java_method_canonical("getParameter", "request", "getParameter"));
}

#[test]
fn types_are_reduced_to_their_last_segment() {
    assert_eq!(type_final_segment("java.util.List<java.lang.String>"), "List");
    assert_eq!(type_final_segment(" File[] "), "File");
    assert_eq!(type_final_segment("byte[][]"), "byte");
    assert_eq!(type_final_segment(""), "");
    assert_eq!(type_final_segment("List<String>[]"), "List");
    assert_eq!(type_final_segment("java.util.Map<String, List<a.B[]>> [] []"), "Map");
    assert_eq!(type_final_segment("Outer<a.B>.Inner<C>"), "Inner");
    assert_eq!(type_final_segment("System.Int32[,]"), "Int32");
    assert_eq!(type_final_segment("a[b]"), "a[b]");
    assert_eq!(type_final_segment("a>"), "a>");
}

fn known(flows: Vec<(usize, &str)>) -> CrossFileSummaryMap {
    let mut summaries = CrossFileSummaryMap::new();
    summaries.insert(
        "B.java".to_string(),
        vec![FunctionTaintSummary {
            name: "helper".to_string(),
            params_to_return: Vec::new(),
            params_to_sink: flows
                .into_iter()
                .map(|(param_index, rule)| ParamSinkFlow {
                    param_index,
                    sink_rule_id: rule.to_string(),
                    sink_description: "sink".to_string(),
                })
                .collect(),
        }],
    );
    summaries
}

#[test]
fn java_calls_into_other_files_need_an_allowed_rule_and_a_tainted_argument() {
    let src = in_method(
        "HttpServletRequest request",
        "String x = request.getParameter(\"a\");\nhelper(x, 1);\nhelper(1, x);\nhelper();",
    );
    let tree = parse(&src);
    let paths = vec!["B.java".to_string()];
    let summaries = known(vec![(1, "java/taint-ssrf")]);
    let run = |allowed: Vec<String>| {
        let cross = CrossFileInfo {
            same_package_paths: &paths,
            summaries: &summaries,
            allowed_rule_ids: &allowed,
        };
        extract_cross_file_findings(tree.root_node(), &src, &java_taint_rule_specs(), &cross)
    };
    let found = run(vec!["java/taint-ssrf".to_string()]);
    assert_eq!(lines_of(&found), vec![5]);
    assert_eq!(found[0].rule_id_hint, Some("java/taint-ssrf".to_string()));
    assert!(run(vec!["java/taint-sql-injection".to_string()]).is_empty());
}

#[test]
fn java_composed_flows_are_distinct_and_grow() {
    let src = in_method("String a, String b", "helper(a, b);\nhelper(a, a);");
    let tree = parse(&src);
    let paths = vec!["B.java".to_string()];
    let allowed = vec!["r1".to_string(), "r2".to_string()];
    let compose = |summaries: &CrossFileSummaryMap| {
        compose_cross_file_summaries(
            tree.root_node(),
            &src,
            None,
            &java_taint_rule_specs(),
            &paths,
            summaries,
            &allowed,
        )
        .into_iter()
        .flat_map(|s| s.params_to_sink)
        .map(|f| (f.param_index, f.sink_rule_id))
        .collect::<Vec<(usize, String)>>()
    };
    let less = compose(&known(vec![(0, "r1"), (0, "r3")]));
    assert_eq!(less, vec![(0, "r1".to_string())]);
    let more = compose(&known(vec![(0, "r1"), (0, "r3"), (1, "r2"), (1, "r1")]));
    assert_eq!(
        more,
        vec![
            (0, "r1".to_string()),
            (0, "r2".to_string()),
            (1, "r2".to_string()),
            (1, "r1".to_string()),
        ]
    );
}

#[test]
fn of_the_methods_of_one_name_the_last_counts() {
    let source = "class A {\n  String f(String a) { return a; }\n  String g(String a) { return a; }\n  String f(String a, String b) { return b; }\n}\n";
    let tree = parse(source);
    let summaries = extract_cross_file_summaries(
        tree.root_node(),
        source,
        None,
        &java_taint_rule_specs(),
    );
    assert_eq!(summaries.len(), 2);
    assert_eq!(summaries[0].name, "g");
    assert_eq!(summaries[0].params_to_return, vec![0]);
    assert_eq!(summaries[1].name, "f");
    assert_eq!(summaries[1].params_to_return, vec![1]);
}

#[test]
fn java_arrays_of_generic_types_are_sources() {
    let src = in_method("List<String>[] in, String[] other", "st.run(in);\nst.run(other);");
    let tree = parse(&src);
    let source = NodeMatcher::TypedName {
        declared: "List".to_string(),
        description: "a list".to_string(),
    };
    let s = spec(vec![source], vec![method_sink("run")]);
    assert_eq!(lines_of(&analyze_tree(tree.root_node(), &src, &s, None)), vec![3]);
}

#[test]
fn java_only_string_format_and_join_build_strings() {
    let src = in_method(
        "",
        "String raw = request.getParameter(\"a\");\nst.run(String.format(\"%s\", raw));\nst.run(java.lang.String.join(\",\", raw));\nst.run(dates.format(raw));\nst.run(join(raw));\nst.run(x.concat(raw));",
    );
    let tree = parse(&src);
    let s = spec(vec![getter()], vec![method_sink("run")]);
    let policy = LabelPolicy {
        source_label: "INPUT".to_string(),
        relabels: vec![Relabel { from: "INPUT".to_string(), to: "CONCAT".to_string() }],
        sink_requires: LabelExpr::Label("CONCAT".to_string()),
    };
    let found =
        analyze_tree_labeled(tree.root_node(), &src, &s, None, &Vec::new(), Some(&policy));
    assert_eq!(lines_of(&found), vec![4, 5, 8]);
    assert_eq!(lines_of(&analyze_tree(tree.root_node(), &src, &s, None)), vec![4, 5, 6, 7, 8]);
}
