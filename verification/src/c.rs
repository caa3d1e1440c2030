//! Rules for C.
use crate::c_taint::{analyze_tree, c_rules, c_taint_rule_specs, file_flows};
use crate::finding::{Finding, Language, Report, RuleFacts, RuleInfo, Severity};
use crate::taint_engine::{Flow, TaintFinding, TaintRule, TaintSpec};
use crate::taint_rule::{
    check_taint_rule, distinct_ids, enabled_reports, flow_report, map_taint_finding, rule_named,
    rule_reports, run_taint_batched, MetaFacts, TaintLanguage, TaintRuleMeta,
};
use crate::text::{opt_view, text_eq, views, Text};
use crate::tree::{Node, SyntaxTree};
use vstd::prelude::*;

verus! {

broadcast use crate::text::group_views;

/// What the C taint rule with this id says of its flows.
pub open spec fn c_meta(id: Text) -> Option<MetaFacts> {
    if id == "c/taint-format-string"@ {
        Some(
            MetaFacts {
                rule_id: "c/taint-format-string"@,
                severity: Severity::Critical,
                cwe: Some("CWE-134"@),
                fix_suggestion: Some(
                    "Use a literal format string: printf(\"%s\", input) instead of printf(input)"@,
                ),
                verb: " flows to "@,
                advice: " — use a format string literal (e.g. printf(\"%s\", input))"@,
            },
        )
    } else if id == "c/taint-command-injection"@ {
        Some(
            MetaFacts {
                rule_id: "c/taint-command-injection"@,
                severity: Severity::Critical,
                cwe: Some("CWE-78"@),
                fix_suggestion: None,
                verb: " flows to "@,
                advice: " — avoid passing untrusted input to OS commands"@,
            },
        )
    } else if id == "c/taint-buffer-overflow"@ {
        Some(
            MetaFacts {
                rule_id: "c/taint-buffer-overflow"@,
                severity: Severity::High,
                cwe: Some("CWE-120"@),
                fix_suggestion: Some(
                    "Use bounds-checked alternatives: strlcpy, strncpy, snprintf"@,
                ),
                verb: " flows to "@,
                advice: " — use bounds-checked alternatives (strlcpy, snprintf)"@,
            },
        )
    } else if id == "c/taint-sql-injection"@ {
        Some(
            MetaFacts {
                rule_id: "c/taint-sql-injection"@,
                severity: Severity::Critical,
                cwe: Some("CWE-89"@),
                fix_suggestion: Some(
                    "Use parameterized queries: sqlite3_prepare_v2 + sqlite3_bind_*"@,
                ),
                verb: " flows to "@,
                advice: " — use parameterized queries to prevent SQL injection"@,
            },
        )
    } else {
        None
    }
}

/// What the C taint rule with this id says of its flows.
fn c_taint_meta(rule_id: &str) -> (r: Option<TaintRuleMeta>)
    ensures
        opt_view(r) == c_meta(rule_id@),
{
    if text_eq(rule_id, "c/taint-format-string") {
        Some(
            TaintRuleMeta {
                rule_id: "c/taint-format-string",
                severity: Severity::Critical,
                cwe: Some("CWE-134"),
                fix_suggestion: Some(
                    "Use a literal format string: printf(\"%s\", input) instead of printf(input)",
                ),
                verb: " flows to ",
                advice: " — use a format string literal (e.g. printf(\"%s\", input))",
            },
        )
    } else if text_eq(rule_id, "c/taint-command-injection") {
        Some(
            TaintRuleMeta {
                rule_id: "c/taint-command-injection",
                severity: Severity::Critical,
                cwe: Some("CWE-78"),
                fix_suggestion: None,
                verb: " flows to ",
                advice: " — avoid passing untrusted input to OS commands",
            },
        )
    } else if text_eq(rule_id, "c/taint-buffer-overflow") {
        Some(
            TaintRuleMeta {
                rule_id: "c/taint-buffer-overflow",
                severity: Severity::High,
                cwe: Some("CWE-120"),
                fix_suggestion: Some(
                    "Use bounds-checked alternatives: strlcpy, strncpy, snprintf",
                ),
                verb: " flows to ",
                advice: " — use bounds-checked alternatives (strlcpy, snprintf)",
            },
        )
    } else if text_eq(rule_id, "c/taint-sql-injection") {
        Some(
            TaintRuleMeta {
                rule_id: "c/taint-sql-injection",
                severity: Severity::Critical,
                cwe: Some("CWE-89"),
                fix_suggestion: Some(
                    "Use parameterized queries: sqlite3_prepare_v2 + sqlite3_bind_*",
                ),
                verb: " flows to ",
                advice: " — use parameterized queries to prevent SQL injection",
            },
        )
    } else {
        None
    }
}

/// The report of a flow. A flow without a known source has no source line.
pub open spec fn c_report(m: MetaFacts, src: Text, f: Flow) -> Report {
    Report {
        source_line: if f.source_line == 0 {
            None
        } else {
            Some(f.source_line)
        },
        sink_start_byte: None,
        sink_end_byte: None,
        confidence: 100,
        taint_hops: None,
        ..flow_report(m, src, f)
    }
}

fn map_c_taint_finding(meta: &TaintRuleMeta, source: &str, finding: &TaintFinding) -> (r: Finding)
    ensures
        r@ == c_report(meta@, source@, finding@),
{
    let mut r = map_taint_finding(meta, source, finding);
    if finding.source_line == 0 {
        r.source_line = None;
    }
    r.sink_start_byte = None;
    r.sink_end_byte = None;
    r.confidence = 100;
    r.taint_hops = None;
    r
}

/// The taint rules for C.
pub struct C;

impl TaintLanguage for C {
    open spec fn rules() -> Seq<(Text, TaintRule)> {
        c_rules()
    }

    fn rule_specs() -> (r: Vec<(&'static str, TaintSpec)>) {
        c_taint_rule_specs()
    }

    open spec fn meta(id: Text) -> Option<MetaFacts> {
        c_meta(id)
    }

    fn rule_meta(id: &str) -> (r: Option<TaintRuleMeta>) {
        c_taint_meta(id)
    }

    open spec fn flows(t: &SyntaxTree, i: int, src: Text, rule: TaintRule) -> Seq<Flow> {
        file_flows(t, i, t.after(i), src, rule)
    }

    fn find_flows(root: Node<'_>, source: &str, spec: &TaintSpec) -> (r: Vec<TaintFinding>) {
        analyze_tree(root, source, spec, None)
    }

    open spec fn report(m: MetaFacts, src: Text, f: Flow) -> Report {
        c_report(m, src, f)
    }

    fn map_finding(meta: &TaintRuleMeta, source: &str, finding: &TaintFinding) -> (r: Finding) {
        map_c_taint_finding(meta, source, finding)
    }
}

/// The findings of every enabled C taint rule in a file.
pub fn run_c_taint_batched(source: &str, tree: &SyntaxTree, enabled_rule_ids: &Vec<String>) -> (out:
    Vec<Finding>)
    requires
        tree.valid(source@),
        tree.len() > 0,
    ensures
        views(out@) == enabled_reports::<C>(
            c_rules(),
            0,
            views(enabled_rule_ids@),
            tree,
            0,
            source@,
        ),
{
    run_taint_batched::<C>(source, tree.root_node(), enabled_rule_ids)
}

/// Every C taint rule is found by its id, and what it says of itself agrees with what it
/// says of its flows.
pub proof fn c_taint_rules_are_found()
    ensures
        distinct_ids(c_rules()),
        forall|k: int|
            #![trigger c_rules()[k]]
            0 <= k < c_rules().len() ==> rule_named(c_rules(), 0, c_rules()[k].0)
                == c_rules()[k].1 && c_meta(c_rules()[k].0) is Some,
        c_meta(TaintFormatString::facts().id) matches Some(m) && m.rule_id == TaintFormatString::facts().id && m.severity
            == TaintFormatString::facts().severity && m.cwe == TaintFormatString::facts().cwe,
        c_meta(TaintCommandInjection::facts().id) matches Some(m) && m.rule_id == TaintCommandInjection::facts().id && m.severity
            == TaintCommandInjection::facts().severity && m.cwe == TaintCommandInjection::facts().cwe,
        c_meta(TaintBufferOverflow::facts().id) matches Some(m) && m.rule_id == TaintBufferOverflow::facts().id && m.severity
            == TaintBufferOverflow::facts().severity && m.cwe == TaintBufferOverflow::facts().cwe,
        c_meta(TaintSqlInjection::facts().id) matches Some(m) && m.rule_id == TaintSqlInjection::facts().id && m.severity
            == TaintSqlInjection::facts().severity && m.cwe == TaintSqlInjection::facts().cwe,
{
    reveal_strlit("c/taint-format-string");
    reveal_strlit("c/taint-command-injection");
    reveal_strlit("c/taint-buffer-overflow");
    reveal_strlit("c/taint-sql-injection");
    assert("c/taint-format-string"@.len() != "c/taint-command-injection"@.len());
    assert("c/taint-format-string"@.len() != "c/taint-buffer-overflow"@.len());
    assert("c/taint-format-string"@[8] != "c/taint-sql-injection"@[8]);
    assert("c/taint-command-injection"@.len() != "c/taint-buffer-overflow"@.len());
    assert("c/taint-command-injection"@.len() != "c/taint-sql-injection"@.len());
    assert("c/taint-buffer-overflow"@.len() != "c/taint-sql-injection"@.len());
    reveal_with_fuel(rule_named, 5);
}

/// Untrusted input used as format string argument.
#[derive(Debug, Clone, Copy)]
pub struct TaintFormatString;

impl TaintFormatString {
    /// What the rule says of itself.
    pub open spec fn facts() -> RuleFacts {
        RuleFacts {
            id: "c/taint-format-string"@,
            severity: Severity::Critical,
            cwe: Some("CWE-134"@),
            description: "Untrusted input used as format string argument"@,
            language: Language::C,
            cnsa2_deadline: None,
        }
    }

    /// What the rule says of itself.
    pub fn info(&self) -> (r: RuleInfo)
        ensures
            r@ == Self::facts(),
    {
        RuleInfo {
            id: "c/taint-format-string",
            severity: Severity::Critical,
            cwe: Some("CWE-134"),
            description: "Untrusted input used as format string argument",
            language: Language::C,
            cnsa2_deadline: None,
        }
    }

    /// The findings of the rule in a file.
    pub fn check(&self, source: &str, tree: &SyntaxTree) -> (out: Vec<Finding>)
        requires
            tree.valid(source@),
            tree.len() > 0,
        ensures
            views(out@) == rule_reports::<C>(
                Self::facts().id,
                rule_named(C::rules(), 0, Self::facts().id),
                tree,
                0,
                source@,
            ),
    {
        check_taint_rule::<C>(self.info().id, source, tree.root_node())
    }
}

/// Untrusted input flows to command execution sink.
#[derive(Debug, Clone, Copy)]
pub struct TaintCommandInjection;

impl TaintCommandInjection {
    /// What the rule says of itself.
    pub open spec fn facts() -> RuleFacts {
        RuleFacts {
            id: "c/taint-command-injection"@,
            severity: Severity::Critical,
            cwe: Some("CWE-78"@),
            description: "Untrusted input flows to command execution sink"@,
            language: Language::C,
            cnsa2_deadline: None,
        }
    }

    /// What the rule says of itself.
    pub fn info(&self) -> (r: RuleInfo)
        ensures
            r@ == Self::facts(),
    {
        RuleInfo {
            id: "c/taint-command-injection",
            severity: Severity::Critical,
            cwe: Some("CWE-78"),
            description: "Untrusted input flows to command execution sink",
            language: Language::C,
            cnsa2_deadline: None,
        }
    }

    /// The findings of the rule in a file.
    pub fn check(&self, source: &str, tree: &SyntaxTree) -> (out: Vec<Finding>)
        requires
            tree.valid(source@),
            tree.len() > 0,
        ensures
            views(out@) == rule_reports::<C>(
                Self::facts().id,
                rule_named(C::rules(), 0, Self::facts().id),
                tree,
                0,
                source@,
            ),
    {
        check_taint_rule::<C>(self.info().id, source, tree.root_node())
    }
}

/// Untrusted input flows to buffer operation without bounds checking.
#[derive(Debug, Clone, Copy)]
pub struct TaintBufferOverflow;

impl TaintBufferOverflow {
    /// What the rule says of itself.
    pub open spec fn facts() -> RuleFacts {
        RuleFacts {
            id: "c/taint-buffer-overflow"@,
            severity: Severity::High,
            cwe: Some("CWE-120"@),
            description: "Untrusted input flows to buffer operation without bounds checking"@,
            language: Language::C,
            cnsa2_deadline: None,
        }
    }

    /// What the rule says of itself.
    pub fn info(&self) -> (r: RuleInfo)
        ensures
            r@ == Self::facts(),
    {
        RuleInfo {
            id: "c/taint-buffer-overflow",
            severity: Severity::High,
            cwe: Some("CWE-120"),
            description: "Untrusted input flows to buffer operation without bounds checking",
            language: Language::C,
            cnsa2_deadline: None,
        }
    }

    /// The findings of the rule in a file.
    pub fn check(&self, source: &str, tree: &SyntaxTree) -> (out: Vec<Finding>)
        requires
            tree.valid(source@),
            tree.len() > 0,
        ensures
            views(out@) == rule_reports::<C>(
                Self::facts().id,
                rule_named(C::rules(), 0, Self::facts().id),
                tree,
                0,
                source@,
            ),
    {
        check_taint_rule::<C>(self.info().id, source, tree.root_node())
    }
}

/// Untrusted input flows to SQL query execution sink.
#[derive(Debug, Clone, Copy)]
pub struct TaintSqlInjection;

impl TaintSqlInjection {
    /// What the rule says of itself.
    pub open spec fn facts() -> RuleFacts {
        RuleFacts {
            id: "c/taint-sql-injection"@,
            severity: Severity::Critical,
            cwe: Some("CWE-89"@),
            description: "Untrusted input flows to SQL query execution sink"@,
            language: Language::C,
            cnsa2_deadline: None,
        }
    }

    /// What the rule says of itself.
    pub fn info(&self) -> (r: RuleInfo)
        ensures
            r@ == Self::facts(),
    {
        RuleInfo {
            id: "c/taint-sql-injection",
            severity: Severity::Critical,
            cwe: Some("CWE-89"),
            description: "Untrusted input flows to SQL query execution sink",
            language: Language::C,
            cnsa2_deadline: None,
        }
    }

    /// The findings of the rule in a file.
    pub fn check(&self, source: &str, tree: &SyntaxTree) -> (out: Vec<Finding>)
        requires
            tree.valid(source@),
            tree.len() > 0,
        ensures
            views(out@) == rule_reports::<C>(
                Self::facts().id,
                rule_named(C::rules(), 0, Self::facts().id),
                tree,
                0,
                source@,
            ),
    {
        check_taint_rule::<C>(self.info().id, source, tree.root_node())
    }
}

} // verus!
