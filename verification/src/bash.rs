//! Rules for shell scripts.
use crate::bash_taint::{analyze_tree, bash_rules, bash_taint_rule_specs, script_flows};
use crate::finding::{Finding, Language, Report, RuleFacts, RuleInfo, Severity};
use crate::taint_engine::{Flow, TaintFinding, TaintRule, TaintSpec};
use crate::taint_rule::{
    check_taint_rule, distinct_ids, enabled_reports, flow_report, map_taint_finding, rule_named,
    rule_reports, run_taint_batched, MetaFacts, TaintLanguage, TaintRuleMeta,
};
use crate::text::{opt_view, text_eq, views, Text};
use crate::tree::{Node, SyntaxTree};
use vstd::prelude::*;

verus! {

broadcast use crate::text::group_views;

/// What the Bash taint rule with this id says of its flows.
pub open spec fn bash_meta(id: Text) -> Option<MetaFacts> {
    if id == "bash/taint-command-injection"@ {
        Some(
            MetaFacts {
                rule_id: "bash/taint-command-injection"@,
                severity: Severity::Critical,
                cwe: Some("CWE-78"@),
                fix_suggestion: Some(
                    "Do not pass untrusted input to eval/bash -c/sh -c/source; validate against an allowlist or shell-quote with printf %q"@,
                ),
                verb: " reaches "@,
                advice: " — untrusted shell input can inject OS commands"@,
            },
        )
    } else if id == "bash/taint-path-traversal"@ {
        Some(
            MetaFacts {
                rule_id: "bash/taint-path-traversal"@,
                severity: Severity::High,
                cwe: Some("CWE-22"@),
                fix_suggestion: Some(
                    "Validate untrusted input against an allowlist and resolve it under a fixed base directory before passing it to file commands (cat/rm/cp/mv/...)"@,
                ),
                verb: " reaches "@,
                advice: " — untrusted shell input can traverse to an arbitrary path"@,
            },
        )
    } else if id == "bash/taint-ssrf"@ {
        Some(
            MetaFacts {
                rule_id: "bash/taint-ssrf"@,
                severity: Severity::High,
                cwe: Some("CWE-918"@),
                fix_suggestion: Some(
                    "Do not build curl/wget URLs from untrusted input; validate the host against an allowlist of trusted endpoints"@,
                ),
                verb: " reaches "@,
                advice: " — untrusted shell input can redirect the request to an arbitrary host"@,
            },
        )
    } else {
        None
    }
}

/// What the Bash taint rule with this id says of its flows.
fn bash_taint_meta(rule_id: &str) -> (r: Option<TaintRuleMeta>)
    ensures
        opt_view(r) == bash_meta(rule_id@),
{
    if text_eq(rule_id, "bash/taint-command-injection") {
        Some(
            TaintRuleMeta {
                rule_id: "bash/taint-command-injection",
                severity: Severity::Critical,
                cwe: Some("CWE-78"),
                fix_suggestion: Some(
                    "Do not pass untrusted input to eval/bash -c/sh -c/source; validate against an allowlist or shell-quote with printf %q",
                ),
                verb: " reaches ",
                advice: " — untrusted shell input can inject OS commands",
            },
        )
    } else if text_eq(rule_id, "bash/taint-path-traversal") {
        Some(
            TaintRuleMeta {
                rule_id: "bash/taint-path-traversal",
                severity: Severity::High,
                cwe: Some("CWE-22"),
                fix_suggestion: Some(
                    "Validate untrusted input against an allowlist and resolve it under a fixed base directory before passing it to file commands (cat/rm/cp/mv/...)",
                ),
                verb: " reaches ",
                advice: " — untrusted shell input can traverse to an arbitrary path",
            },
        )
    } else if text_eq(rule_id, "bash/taint-ssrf") {
        Some(
            TaintRuleMeta {
                rule_id: "bash/taint-ssrf",
                severity: Severity::High,
                cwe: Some("CWE-918"),
                fix_suggestion: Some(
                    "Do not build curl/wget URLs from untrusted input; validate the host against an allowlist of trusted endpoints",
                ),
                verb: " reaches ",
                advice: " — untrusted shell input can redirect the request to an arbitrary host",
            },
        )
    } else {
        None
    }
}

/// The taint rules for shell scripts.
pub struct Bash;

impl TaintLanguage for Bash {
    open spec fn rules() -> Seq<(Text, TaintRule)> {
        bash_rules()
    }

    fn rule_specs() -> (r: Vec<(&'static str, TaintSpec)>) {
        bash_taint_rule_specs()
    }

    open spec fn meta(id: Text) -> Option<MetaFacts> {
        bash_meta(id)
    }

    fn rule_meta(id: &str) -> (r: Option<TaintRuleMeta>) {
        bash_taint_meta(id)
    }

    open spec fn flows(t: &SyntaxTree, i: int, src: Text, rule: TaintRule) -> Seq<Flow> {
        script_flows(t, i, src, rule)
    }

    fn find_flows(root: Node<'_>, source: &str, spec: &TaintSpec) -> (r: Vec<TaintFinding>) {
        analyze_tree(root, source, spec, None)
    }

    open spec fn report(m: MetaFacts, src: Text, f: Flow) -> Report {
        flow_report(m, src, f)
    }

    fn map_finding(meta: &TaintRuleMeta, source: &str, finding: &TaintFinding) -> (r: Finding) {
        map_taint_finding(meta, source, finding)
    }
}

/// The findings of every enabled Bash taint rule in a file.
pub fn run_bash_taint_batched(source: &str, tree: &SyntaxTree, enabled_rule_ids: &Vec<String>) -> (out:
    Vec<Finding>)
    requires
        tree.valid(source@),
        tree.len() > 0,
    ensures
        views(out@) == enabled_reports::<Bash>(
            bash_rules(),
            0,
            views(enabled_rule_ids@),
            tree,
            0,
            source@,
        ),
{
    run_taint_batched::<Bash>(source, tree.root_node(), enabled_rule_ids)
}

/// Every Bash taint rule is found by its id, and what it says of itself agrees with what it
/// says of its flows.
pub proof fn bash_taint_rules_are_found()
    ensures
        distinct_ids(bash_rules()),
        forall|k: int|
            #![trigger bash_rules()[k]]
            0 <= k < bash_rules().len() ==> rule_named(bash_rules(), 0, bash_rules()[k].0)
                == bash_rules()[k].1 && bash_meta(bash_rules()[k].0) is Some,
        bash_meta(TaintCommandInjection::facts().id) matches Some(m) && m.rule_id == TaintCommandInjection::facts().id && m.severity
            == TaintCommandInjection::facts().severity && m.cwe == TaintCommandInjection::facts().cwe,
        bash_meta(TaintPathTraversal::facts().id) matches Some(m) && m.rule_id == TaintPathTraversal::facts().id && m.severity
            == TaintPathTraversal::facts().severity && m.cwe == TaintPathTraversal::facts().cwe,
        bash_meta(TaintSsrf::facts().id) matches Some(m) && m.rule_id == TaintSsrf::facts().id && m.severity
            == TaintSsrf::facts().severity && m.cwe == TaintSsrf::facts().cwe,
{
    reveal_strlit("bash/taint-command-injection");
    reveal_strlit("bash/taint-path-traversal");
    reveal_strlit("bash/taint-ssrf");
    assert("bash/taint-command-injection"@.len() != "bash/taint-path-traversal"@.len());
    assert("bash/taint-command-injection"@.len() != "bash/taint-ssrf"@.len());
    assert("bash/taint-path-traversal"@.len() != "bash/taint-ssrf"@.len());
    reveal_with_fuel(rule_named, 4);
}

/// Untrusted shell input reaches a command execution sink.
#[derive(Debug, Clone, Copy)]
pub struct TaintCommandInjection;

impl TaintCommandInjection {
    /// What the rule says of itself.
    pub open spec fn facts() -> RuleFacts {
        RuleFacts {
            id: "bash/taint-command-injection"@,
            severity: Severity::Critical,
            cwe: Some("CWE-78"@),
            description: "Untrusted shell input reaches a command execution sink"@,
            language: Language::Bash,
            cnsa2_deadline: None,
        }
    }

    /// What the rule says of itself.
    pub fn info(&self) -> (r: RuleInfo)
        ensures
            r@ == Self::facts(),
    {
        RuleInfo {
            id: "bash/taint-command-injection",
            severity: Severity::Critical,
            cwe: Some("CWE-78"),
            description: "Untrusted shell input reaches a command execution sink",
            language: Language::Bash,
            cnsa2_deadline: None,
        }
    }

    /// The findings of the rule in a file.
    pub fn check(&self, source: &str, tree: &SyntaxTree) -> (out: Vec<Finding>)
        requires
            tree.valid(source@),
            tree.len() > 0,
        ensures
            views(out@) == rule_reports::<Bash>(
                Self::facts().id,
                rule_named(Bash::rules(), 0, Self::facts().id),
                tree,
                0,
                source@,
            ),
    {
        check_taint_rule::<Bash>(self.info().id, source, tree.root_node())
    }
}

/// Untrusted shell input reaches a file-operation sink (path traversal).
#[derive(Debug, Clone, Copy)]
pub struct TaintPathTraversal;

impl TaintPathTraversal {
    /// What the rule says of itself.
    pub open spec fn facts() -> RuleFacts {
        RuleFacts {
            id: "bash/taint-path-traversal"@,
            severity: Severity::High,
            cwe: Some("CWE-22"@),
            description: "Untrusted shell input reaches a file-operation sink (path traversal)"@,
            language: Language::Bash,
            cnsa2_deadline: None,
        }
    }

    /// What the rule says of itself.
    pub fn info(&self) -> (r: RuleInfo)
        ensures
            r@ == Self::facts(),
    {
        RuleInfo {
            id: "bash/taint-path-traversal",
            severity: Severity::High,
            cwe: Some("CWE-22"),
            description: "Untrusted shell input reaches a file-operation sink (path traversal)",
            language: Language::Bash,
            cnsa2_deadline: None,
        }
    }

    /// The findings of the rule in a file.
    pub fn check(&self, source: &str, tree: &SyntaxTree) -> (out: Vec<Finding>)
        requires
            tree.valid(source@),
            tree.len() > 0,
        ensures
            views(out@) == rule_reports::<Bash>(
                Self::facts().id,
                rule_named(Bash::rules(), 0, Self::facts().id),
                tree,
                0,
                source@,
            ),
    {
        check_taint_rule::<Bash>(self.info().id, source, tree.root_node())
    }
}

/// Untrusted shell input reaches a curl/wget URL sink (SSRF).
#[derive(Debug, Clone, Copy)]
pub struct TaintSsrf;

impl TaintSsrf {
    /// What the rule says of itself.
    pub open spec fn facts() -> RuleFacts {
        RuleFacts {
            id: "bash/taint-ssrf"@,
            severity: Severity::High,
            cwe: Some("CWE-918"@),
            description: "Untrusted shell input reaches a curl/wget URL sink (SSRF)"@,
            language: Language::Bash,
            cnsa2_deadline: None,
        }
    }

    /// What the rule says of itself.
    pub fn info(&self) -> (r: RuleInfo)
        ensures
            r@ == Self::facts(),
    {
        RuleInfo {
            id: "bash/taint-ssrf",
            severity: Severity::High,
            cwe: Some("CWE-918"),
            description: "Untrusted shell input reaches a curl/wget URL sink (SSRF)",
            language: Language::Bash,
            cnsa2_deadline: None,
        }
    }

    /// The findings of the rule in a file.
    pub fn check(&self, source: &str, tree: &SyntaxTree) -> (out: Vec<Finding>)
        requires
            tree.valid(source@),
            tree.len() > 0,
        ensures
            views(out@) == rule_reports::<Bash>(
                Self::facts().id,
                rule_named(Bash::rules(), 0, Self::facts().id),
                tree,
                0,
                source@,
            ),
    {
        check_taint_rule::<Bash>(self.info().id, source, tree.root_node())
    }
}

} // verus!
