//! Matching text without a grammar.
use taintlint::finding::{Language, Severity};
use taintlint::generic_mode::{
    build_generic_rules, byte_offset_to_position, compile_pattern, find_pattern, tokenize,
    GenericMatcher, GenericRuleSpec, PatternElem, ALL_LANGUAGES,
};
use taintlint::pattern::compile_regex;

fn positions_of(pattern: &str, source: &str) -> Vec<(usize, usize)> {
    let m = GenericMatcher::Pattern(compile_pattern(pattern));
    let tokens = tokenize(source);
    m.find_all(source, &tokens)
        .into_iter()
        .map(|m| byte_offset_to_position(source, m.start_byte))
        .collect()
}

#[test]
fn tokenizes_words_and_punctuation() {
    let toks: Vec<&str> = tokenize("ssl_protocols TLSv1;")
        .iter()
        .map(|t| t.text)
        .collect();
    assert_eq!(toks, vec!["ssl_protocols", "TLSv1", ";"]);
}

#[test]
fn compiles_metavar_and_ellipsis() {
    let elems = compile_pattern("listen $PORT ... ssl");
    assert_eq!(
        elems,
        vec![
            PatternElem::Literal("listen".to_string()),
            PatternElem::Metavar("$PORT".to_string()),
            PatternElem::Ellipsis,
            PatternElem::Literal("ssl".to_string()),
        ]
    );
}

#[test]
fn lone_dollar_is_literal() {
    let elems = compile_pattern("cost $ 5");
    assert_eq!(
        elems,
        vec![
            PatternElem::Literal("cost".to_string()),
            PatternElem::Literal("$".to_string()),
            PatternElem::Literal("5".to_string()),
        ]
    );
}

#[test]
fn literal_match_finds_line() {
    let positions = positions_of(
        "ssl_protocols TLSv1",
        "server {\n  ssl_protocols TLSv1;\n}\n",
    );
    assert_eq!(positions, vec![(2, 3)]);
}

#[test]
fn ellipsis_matches_token_run() {
    // `...` should span across other directives.
    let positions = positions_of(
        "location ... proxy_pass",
        "location /api {\n  proxy_pass http://up;\n}\n",
    );
    assert_eq!(positions.len(), 1);
}

#[test]
fn ellipsis_crosses_newlines() {
    let positions = positions_of("foo ... baz", "foo\nbar\nbaz\n");
    assert_eq!(positions.len(), 1);
    assert_eq!(positions[0].0, 1);
}

#[test]
fn metavar_equality_is_enforced() {
    // Same metavar twice must bind the same token.
    assert_eq!(positions_of("$X = $X", "a = a").len(), 1);
    assert!(positions_of("$X = $X", "a = b").is_empty());
}

#[test]
fn metavar_binds_single_token() {
    let positions = positions_of("set $KEY $VAL", "set color red\nset size 10\n");
    assert_eq!(positions.len(), 2);
}

#[test]
fn pattern_not_filters_overlapping_matches() {
    let matcher = GenericMatcher::Filtered {
        positive: Box::new(GenericMatcher::Pattern(compile_pattern(
            "ssl_protocols ...",
        ))),
        negatives: vec![GenericMatcher::Pattern(compile_pattern(
            "ssl_protocols TLSv1_3",
        ))],
    };
    let source = "ssl_protocols TLSv1;\nssl_protocols TLSv1_3;\n";
    let tokens = tokenize(source);
    let found = matcher.find_all(source, &tokens);
    // The TLSv1_3 line is excluded by pattern-not; only the TLSv1 line
    // (up to the line-ending `;`) survives. Ellipsis is greedy-lazy and
    // may span further, so assert the surviving match starts on line 1.
    assert!(!found.is_empty());
    for m in &found {
        assert_eq!(byte_offset_to_position(source, m.start_byte).0, 1);
    }
}

#[test]
fn multiline_pattern_matches_across_lines() {
    let positions = positions_of(
        "server { ... listen 80",
        "server {\n  server_name x;\n  listen 80;\n}\n",
    );
    assert_eq!(positions.len(), 1);
    assert_eq!(positions[0].0, 1);
}

#[test]
fn regex_passthrough_matches() {
    let m = GenericMatcher::Regex(compile_regex(r"AKIA[0-9A-Z]{4}").unwrap());
    let source = "key = AKIA1234XYZ\n";
    let tokens = tokenize(source);
    assert_eq!(m.find_all(source, &tokens).len(), 1);
}

#[test]
fn build_generic_rules_fans_out_per_language() {
    let spec = GenericRuleSpec {
        id: "generic-test",
        message: "msg",
        severity: Severity::High,
        cwe: None,
        pattern: Some("ssl_protocols TLSv1"),
        pattern_regex: None,
        pattern_either: Vec::new(),
        pattern_not: None,
        path_filter: None,
    };
    let rules = build_generic_rules(spec).unwrap();
    assert_eq!(rules.len(), ALL_LANGUAGES.len());
    assert_eq!(rules[0].id(), "semgrep/generic-test");
}

fn spec_of<'a>(pattern: Option<&'a str>, regex: Option<&'a str>) -> GenericRuleSpec<'a> {
    GenericRuleSpec {
        id: "r",
        message: "found",
        severity: Severity::Low,
        cwe: Some("CWE-1".to_string()),
        pattern,
        pattern_regex: regex,
        pattern_either: Vec::new(),
        pattern_not: None,
        path_filter: None,
    }
}

#[test]
fn generic_rules_need_something_to_look_for() {
    let e = build_generic_rules(spec_of(None, None)).err().unwrap();
    assert_eq!(e, "generic rule has no pattern / pattern-regex / pattern-either");
    let e = build_generic_rules(spec_of(None, Some("("))).err().unwrap();
    assert!(e.starts_with("Invalid pattern-regex '(': "));
    assert!(build_generic_rules(spec_of(Some("a"), Some("("))).is_ok());
}

#[test]
fn generic_rules_are_made_for_every_language() {
    let rules = build_generic_rules(spec_of(Some("listen $PORT"), None)).unwrap();
    assert_eq!(rules.len(), ALL_LANGUAGES.len());
    for (rule, language) in rules.iter().zip(ALL_LANGUAGES.iter()) {
        assert_eq!(rule.language(), *language);
        assert_eq!(rule.id(), "semgrep/r");
        assert_eq!(rule.description(), "found");
        assert_eq!(rule.severity(), Severity::Low);
        assert_eq!(rule.cwe(), Some("CWE-1"));
        assert!(rule.applies_to_path(true));
        assert_eq!(rule.check("listen 80;\n").len(), 1);
    }
}

#[test]
fn generic_findings_have_byte_columns() {
    let rules = build_generic_rules(spec_of(None, Some("b+"))).unwrap();
    let found = rules[0].check("é\né bb\n");
    assert_eq!(found.len(), 1);
    let f = &found[0];
    assert_eq!((f.line, f.column, f.end_line, f.end_column), (2, 4, 2, 6));
    assert_eq!(f.snippet, "é bb");
    assert_eq!(f.confidence, 70);
    assert_eq!(f.rule_id, "semgrep/r");
}

#[test]
fn generic_finds_that_overlap_a_refused_one_are_left_out() {
    let mut spec = spec_of(Some("a $X"), None);
    spec.pattern_not = Some("a c");
    let rules = build_generic_rules(spec).unwrap();
    let lines: Vec<usize> = rules[0].check("a b\na c\na d\n").iter().map(|f| f.line).collect();
    assert_eq!(lines, vec![1, 3]);
}

#[test]
fn generic_alternatives_are_merged_in_order() {
    let mut spec = spec_of(None, None);
    spec.pattern_either = vec!["b".to_string(), "a".to_string(), "b".to_string()];
    let rules = build_generic_rules(spec).unwrap();
    let found: Vec<(usize, usize)> =
        rules[0].check("a b a").iter().map(|f| (f.line, f.column)).collect();
    assert_eq!(found, vec![(1, 1), (1, 3), (1, 5)]);
}

#[test]
fn tokens_leave_out_nothing_but_space() {
    let src = "é_1 -- x\t\u{a0}y";
    let kept: String = tokenize(src).iter().map(|t| t.text).collect();
    let all: String = src.chars().filter(|c| !c.is_ascii_whitespace()).collect();
    assert_eq!(kept, all);
}

#[test]
fn one_metavariable_stands_for_one_text() {
    assert_eq!(positions_of("$X = $X", "a = a\nb = c\n"), vec![(1, 1)]);
}

#[test]
fn generic_rules_are_made_for_scripts_and_classes() {
    let rules = build_generic_rules(spec_of(Some("a"), None)).unwrap();
    assert_eq!(rules.len(), 18);
    for language in [Language::Bash, Language::Apex, Language::Go, Language::Manifest] {
        assert_eq!(rules.iter().filter(|r| r.language() == language).count(), 1);
    }
}

fn ranges_of(pattern: &str, source: &str) -> Vec<(usize, usize)> {
    find_pattern(&compile_pattern(pattern), &tokenize(source))
        .iter()
        .map(|m| (m.start_byte, m.end_byte))
        .collect()
}

#[test]
fn searches_find_the_match_from_each_token() {
    assert_eq!(ranges_of("a ... b", "a a x b b"), vec![(0, 7), (2, 7)]);
    assert_eq!(ranges_of("$X", "a b"), vec![(0, 1), (2, 3)]);
    assert!(ranges_of("", "a b").is_empty());
}

#[test]
fn trailing_ellipses_widen_no_match() {
    assert_eq!(ranges_of("a x ...", "a x b a"), vec![(0, 3)]);
    assert_eq!(ranges_of("a x", "a x b a"), vec![(0, 3)]);
    assert_eq!(ranges_of("... x ... ...", "a x b"), ranges_of("... x", "a x b"));
    assert!(ranges_of("...", "a b").is_empty());
}
