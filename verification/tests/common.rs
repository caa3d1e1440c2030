use taintlint::common::{
    confidence_for_hops, csharp_hardcoded_secret_re, get_source_line, hardcoded_secret_re,
    identifier_components, is_high_signal_secret_name, is_secret_value_long_enough,
    looks_like_secret_value, make_finding_from_offsets, resolve_callee, AliasTable,
    SecretScanThresholds, CSHARP_HARDCODED_SECRET_PATTERN, DEFAULT_HARDCODED_SECRET_MIN_LENGTH,
    HARDCODED_SECRET_PATTERN,
};
use taintlint::finding::Severity;
use taintlint::pattern::{compile_regex, find_spans, is_regex_match};
use taintlint::text_map::TextSet;

#[test]
fn get_source_line_basic() {
    let src = "line one\nline two\nline three";
    assert_eq!(get_source_line(src, 0), "line one");
    assert_eq!(get_source_line(src, 9), "line two");
    assert_eq!(get_source_line(src, 18), "line three");
}

#[test]
fn get_source_line_empty_source() {
    assert_eq!(get_source_line("", 0), "");
}

#[test]
fn get_source_line_out_of_bounds() {
    assert_eq!(get_source_line("hello", 100), "");
}

#[test]
fn confidence_for_hops_curve_matches_documented_values() {
    assert_eq!(f64::from(confidence_for_hops(0)) / 100.0, 1.0);
    assert_eq!(f64::from(confidence_for_hops(1)) / 100.0, 1.0);
    assert_eq!(f64::from(confidence_for_hops(2)) / 100.0, 0.8);
    assert_eq!(f64::from(confidence_for_hops(3)) / 100.0, 0.6);
    assert_eq!(f64::from(confidence_for_hops(10)) / 100.0, 0.6);
}

#[test]
fn csharp_pattern_is_superset_of_base() {
    let base = regex::Regex::new(HARDCODED_SECRET_PATTERN).unwrap();
    let extended = regex::Regex::new(CSHARP_HARDCODED_SECRET_PATTERN).unwrap();

    // Every keyword the base pattern matches must also match the C# pattern.
    for kw in &[
        "password",
        "secret",
        "api_key",
        "apikey",
        "token",
        "auth",
        "credential",
        "private_key",
        "privatekey",
    ] {
        assert!(base.is_match(kw), "base should match {kw}");
        assert!(extended.is_match(kw), "csharp should match {kw}");
    }
    // C#-specific extras
    for kw in &["connection_string", "connectionstring"] {
        assert!(!base.is_match(kw), "base should NOT match {kw}");
        assert!(extended.is_match(kw), "csharp should match {kw}");
    }
}

#[test]
fn secret_pattern_ignores_benign_substring_names() {
    let re = hardcoded_secret_re();
    // These contain a secret keyword as a *substring* of a larger
    // identifier component and must NOT match (false positives the
    // word-boundary fix removes).
    for name in &[
        "author",
        "authors",
        "authored",
        "authenticate",
        "authenticated",
        "authentication",
        "authorize",
        "authorization",
        "tokenizer",
        "tokenize",
        "retokenize",
        "passwordField",
        "secretarial",
        "credentialsHelper", // `credentials` then letters -> no boundary
    ] {
        assert!(
            !is_regex_match(re, name),
            "benign name {name:?} should NOT match the secret pattern"
        );
    }
}

#[test]
fn secret_pattern_still_matches_real_secret_names() {
    let re = hardcoded_secret_re();
    // Whole-component keyword matches that must keep firing.
    for name in &[
        "password",
        "SECRET_KEY",
        "secret_key",
        "secret_token",
        "api_key",
        "apiKey", // the whole `api_?key` keyword
        "api_token",
        "token",
        "auth",
        "credential",
        "credentials", // plural still matches
        "secrets",     // plural still matches
        "private_key",
        "app.secret_key",
        "user_password",
    ] {
        assert!(
            is_regex_match(re, name),
            "real secret name {name:?} should still match the secret pattern"
        );
    }
}

#[test]
fn high_signal_name_is_component_aware() {
    // Strong names (whole component) -> high signal.
    for name in &[
        "password",
        "PASSWORD",
        "userPassword",
        "passwd",
        "SECRET_KEY",
        "secret",
        "apiKey",
        "api_key",
        "API_KEY",
        "credential",
        "credentials",
        "private_key",
        "privateKey",
    ] {
        assert!(
            is_high_signal_secret_name(name),
            "{name:?} should be high-signal"
        );
    }
    // Low-signal or benign substrings -> NOT high signal (value must
    // then pass `looks_like_secret_value`).
    for name in &[
        "auth",
        "token",
        "author",
        "authenticated",
        "tokenizer",
        "secretarial",
        "api",
        "key",
    ] {
        assert!(
            !is_high_signal_secret_name(name),
            "{name:?} should NOT be high-signal"
        );
    }
}

#[test]
fn identifier_components_splits_on_case_and_separators() {
    assert_eq!(identifier_components("SECRET_KEY"), vec!["secret", "key"]);
    assert_eq!(
        identifier_components("apiKeyValue"),
        vec!["api", "key", "value"]
    );
    assert_eq!(
        identifier_components("app.secret_token"),
        vec!["app", "secret", "token"]
    );
    assert_eq!(identifier_components("author"), vec!["author"]);
    assert_eq!(identifier_components("passwords"), vec!["password"]);
}

/// The entropy of the bytes of a string, in bits per byte.
fn entropy(s: &str) -> f32 {
    let len = s.len() as f32;
    let mut sum: f32 = 0.0;
    for b in 0..=255u8 {
        let count = s.bytes().filter(|x| *x == b).count();
        if count > 0 {
            let p = count as f32 / len;
            sum -= p * p.log2();
        }
    }
    sum
}

/// Thresholds under which those of `values` with too little entropy are no secrets.
fn thresholds(min_length: Option<usize>, min_entropy: f32, values: &[&str]) -> SecretScanThresholds {
    let mut low = TextSet::new();
    for v in values {
        if entropy(v) < min_entropy {
            low.insert(v.to_string());
        }
    }
    SecretScanThresholds::new(min_length, low)
}

#[test]
fn secret_thresholds_default_to_legacy_min_length() {
    let thresholds = SecretScanThresholds::default();

    assert_eq!(thresholds.min_length, DEFAULT_HARDCODED_SECRET_MIN_LENGTH);
    assert!(!thresholds.low_entropy.contains("abcd"));
    assert!(is_secret_value_long_enough("abcd", &thresholds));
    assert!(!is_secret_value_long_enough("abc", &thresholds));
}

#[test]
fn secret_thresholds_apply_min_entropy_per_scan() {
    let thresholds = thresholds(Some(4), 1.9, &["Ab9$", "aaaa"]);

    assert!(is_secret_value_long_enough("Ab9$", &thresholds));
    assert!(!is_secret_value_long_enough("aaaa", &thresholds));
}

#[test]
fn secret_values_are_told_from_prose_and_paths() {
    assert!(looks_like_secret_value("hunter2"));
    assert!(!looks_like_secret_value("two words"));
    assert!(!looks_like_secret_value("http://a.example"));
    assert!(!looks_like_secret_value("https://a.example"));
    assert!(!looks_like_secret_value("/etc/passwd"));
    assert!(!looks_like_secret_value("./a"));
    assert!(!looks_like_secret_value("../a"));
    assert!(looks_like_secret_value(".a"));
    assert!(looks_like_secret_value(""));
}

#[test]
fn identifiers_fall_into_lower_case_words() {
    assert_eq!(identifier_components(""), Vec::<String>::new());
    assert_eq!(identifier_components("__"), Vec::<String>::new());
    assert_eq!(identifier_components("HTTPServer2"), vec!["httpserver2"]);
    assert_eq!(identifier_components("aB1C"), vec!["a", "b1c"]);
    assert_eq!(identifier_components("s"), vec!["s"]);
    assert_eq!(identifier_components("ss"), vec!["s"]);
    assert_eq!(identifier_components("é_key"), vec!["key"]);
}

#[test]
fn aliases_resolve_the_first_segment() {
    let mut table = AliasTable::new();
    table.insert("e".to_string(), "os/exec".to_string());
    table.entry_or_insert("e".to_string(), "other".to_string());
    table.entry_or_insert("f".to_string(), "fmt".to_string());
    assert_eq!(table.get("e"), Some("os/exec"));
    assert_eq!(table.resolve("e.Command"), "os/exec.Command");
    assert_eq!(table.resolve("f"), "fmt");
    assert_eq!(table.resolve("g.Command"), "g.Command");
    assert_eq!(resolve_callee(None, "e.Command"), "e.Command");
    assert_eq!(resolve_callee(Some(&AliasTable::new()), "e.Command"), "e.Command");
    assert_eq!(resolve_callee(Some(&table), "f.Sprintf"), "fmt.Sprintf");
}

#[test]
fn findings_at_offsets_count_lines_and_characters() {
    let src = "é\nab é cd\n";
    let f = make_finding_from_offsets("r", Severity::Low, Some("CWE-1"), "d", src, 8, 10);
    assert_eq!((f.line, f.column, f.end_line, f.end_column), (2, 5, 2, 7));
    assert_eq!(f.snippet, "ab é cd");
    assert_eq!(f.rule_id, "r");
    assert_eq!(f.cwe, Some("CWE-1".to_string()));
    assert_eq!(f.description, "d");
    assert_eq!(f.confidence, 100);
}

#[test]
fn more_hops_are_never_surer() {
    for hops in 0..20u8 {
        assert!(confidence_for_hops(hops + 1) <= confidence_for_hops(hops));
    }
}

#[test]
fn patterns_are_searched_for_anywhere() {
    assert!(is_regex_match("b+", "abbc"));
    assert!(!is_regex_match("^b+", "abbc"));
    assert!(!is_regex_match("(", "("));
    assert_eq!(find_spans("b+", "abbcb"), vec![(1, 3), (4, 5)]);
    assert_eq!(find_spans("é", "aéé"), vec![(1, 3), (3, 5)]);
    assert_eq!(find_spans("(", "("), Vec::<(usize, usize)>::new());
    assert_eq!(find_spans("", "ab"), vec![(0, 0), (1, 1), (2, 2)]);
}

#[test]
fn patterns_that_do_not_parse_are_refused() {
    assert_eq!(compile_regex("a(b)?"), Ok("a(b)?".to_string()));
    let e = compile_regex("a(").unwrap_err();
    assert!(e.starts_with("Invalid pattern-regex 'a(': "));
    assert!(e.contains("unclosed group"));
}

#[test]
fn secret_patterns_are_handed_out() {
    assert_eq!(hardcoded_secret_re(), HARDCODED_SECRET_PATTERN);
    assert_eq!(csharp_hardcoded_secret_re(), CSHARP_HARDCODED_SECRET_PATTERN);
    assert!(is_regex_match(csharp_hardcoded_secret_re(), "connectionString"));
    assert!(!is_regex_match(hardcoded_secret_re(), "connectionString"));
}
