//! Rules for Apex.
use crate::apex_taint::{analyze_tree, apex_rules, apex_taint_rule_specs, Apex};
use crate::finding::{Finding, Language, Report, RuleFacts, RuleInfo, Severity};
use crate::scope::{file_flows, given};
use crate::taint_engine::{Flow, TaintFinding, TaintRule, TaintSpec};
use crate::taint_rule::{
    check_taint_rule, distinct_ids, enabled_reports, flow_report, map_taint_finding, rule_named,
    rule_reports, run_taint_batched, MetaFacts, TaintLanguage, TaintRuleMeta,
};
use crate::text::{opt_view, text_eq, views, Text};
use crate::tree::{Node, SyntaxTree};
use vstd::prelude::*;

verus! {

broadcast use crate::text::group_views;

/// What the Apex taint rule with this id says of its flows.
pub open spec fn apex_meta(id: Text) -> Option<MetaFacts> {
    if id == "apex/taint-soql-injection"@ {
        Some(
            MetaFacts {
                rule_id: "apex/taint-soql-injection"@,
                severity: Severity::Critical,
                cwe: Some("CWE-943"@),
                fix_suggestion: Some(
                    "Use static SOQL with bind variables, or escape untrusted input with String.escapeSingleQuotes() before building a dynamic query"@,
                ),
                verb: " reaches "@,
                advice: " — untrusted input can inject SOQL"@,
            },
        )
    } else if id == "apex/taint-sosl-injection"@ {
        Some(
            MetaFacts {
                rule_id: "apex/taint-sosl-injection"@,
                severity: Severity::Critical,
                cwe: Some("CWE-943"@),
                fix_suggestion: Some(
                    "Use a static SOSL FIND clause, or escape untrusted input with String.escapeSingleQuotes() before building a dynamic Search.query()"@,
                ),
                verb: " reaches "@,
                advice: " — untrusted input can inject SOSL"@,
            },
        )
    } else {
        None
    }
}

/// What the Apex taint rule with this id says of its flows.
fn apex_taint_meta(rule_id: &str) -> (r: Option<TaintRuleMeta>)
    ensures
        opt_view(r) == apex_meta(rule_id@),
{
    if text_eq(rule_id, "apex/taint-soql-injection") {
        Some(
            TaintRuleMeta {
                rule_id: "apex/taint-soql-injection",
                severity: Severity::Critical,
                cwe: Some("CWE-943"),
                fix_suggestion: Some(
                    "Use static SOQL with bind variables, or escape untrusted input with String.escapeSingleQuotes() before building a dynamic query",
                ),
                verb: " reaches ",
                advice: " — untrusted input can inject SOQL",
            },
        )
    } else if text_eq(rule_id, "apex/taint-sosl-injection") {
        Some(
            TaintRuleMeta {
                rule_id: "apex/taint-sosl-injection",
                severity: Severity::Critical,
                cwe: Some("CWE-943"),
                fix_suggestion: Some(
                    "Use a static SOSL FIND clause, or escape untrusted input with String.escapeSingleQuotes() before building a dynamic Search.query()",
                ),
                verb: " reaches ",
                advice: " — untrusted input can inject SOSL",
            },
        )
    } else {
        None
    }
}

impl TaintLanguage for Apex {
    open spec fn rules() -> Seq<(Text, TaintRule)> {
        apex_rules()
    }

    fn rule_specs() -> (r: Vec<(&'static str, TaintSpec)>) {
        apex_taint_rule_specs()
    }

    open spec fn meta(id: Text) -> Option<MetaFacts> {
        apex_meta(id)
    }

    fn rule_meta(id: &str) -> (r: Option<TaintRuleMeta>) {
        apex_taint_meta(id)
    }

    open spec fn flows(t: &SyntaxTree, i: int, src: Text, rule: TaintRule) -> Seq<Flow> {
        file_flows::<Apex>(t, i, t.after(i), Seq::empty(), given(src, rule))
    }

    fn find_flows(root: Node<'_>, source: &str, spec: &TaintSpec) -> (r: Vec<TaintFinding>) {
        analyze_tree(root, source, spec, None)
    }

    open spec fn report(m: MetaFacts, src: Text, f: Flow) -> Report {
        flow_report(m, src, f)
    }

    fn map_finding(meta: &TaintRuleMeta, source: &str, finding: &TaintFinding) -> (r: Finding) {
        map_taint_finding(meta, source, finding)
    }
}

/// The findings of every enabled Apex taint rule in a file.
pub fn run_apex_taint_batched(source: &str, tree: &SyntaxTree, enabled_rule_ids: &Vec<String>) -> (out:
    Vec<Finding>)
    requires
        tree.valid(source@),
        tree.len() > 0,
    ensures
        views(out@) == enabled_reports::<Apex>(
            apex_rules(),
            0,
            views(enabled_rule_ids@),
            tree,
            0,
            source@,
        ),
{
    run_taint_batched::<Apex>(source, tree.root_node(), enabled_rule_ids)
}

/// Every Apex taint rule is found by its id, and what it says of itself agrees with what it
/// says of its flows.
pub proof fn apex_taint_rules_are_found()
    ensures
        distinct_ids(apex_rules()),
        forall|k: int|
            #![trigger apex_rules()[k]]
            0 <= k < apex_rules().len() ==> rule_named(apex_rules(), 0, apex_rules()[k].0)
                == apex_rules()[k].1 && apex_meta(apex_rules()[k].0) is Some,
        apex_meta(TaintSoqlInjection::facts().id) matches Some(m) && m.rule_id == TaintSoqlInjection::facts().id && m.severity
            == TaintSoqlInjection::facts().severity && m.cwe == TaintSoqlInjection::facts().cwe,
        apex_meta(TaintSoslInjection::facts().id) matches Some(m) && m.rule_id == TaintSoslInjection::facts().id && m.severity
            == TaintSoslInjection::facts().severity && m.cwe == TaintSoslInjection::facts().cwe,
{
    reveal_strlit("apex/taint-soql-injection");
    reveal_strlit("apex/taint-sosl-injection");
    assert("apex/taint-soql-injection"@[13] != "apex/taint-sosl-injection"@[13]);
    reveal_with_fuel(rule_named, 3);
}

/// Untrusted input reaches a dynamic SOQL query sink.
#[derive(Debug, Clone, Copy)]
pub struct TaintSoqlInjection;

impl TaintSoqlInjection {
    /// What the rule says of itself.
    pub open spec fn facts() -> RuleFacts {
        RuleFacts {
            id: "apex/taint-soql-injection"@,
            severity: Severity::Critical,
            cwe: Some("CWE-943"@),
            description: "Untrusted input reaches a dynamic SOQL query sink"@,
            language: Language::Apex,
            cnsa2_deadline: None,
        }
    }

    /// What the rule says of itself.
    pub fn info(&self) -> (r: RuleInfo)
        ensures
            r@ == Self::facts(),
    {
        RuleInfo {
            id: "apex/taint-soql-injection",
            severity: Severity::Critical,
            cwe: Some("CWE-943"),
            description: "Untrusted input reaches a dynamic SOQL query sink",
            language: Language::Apex,
            cnsa2_deadline: None,
        }
    }

    /// The findings of the rule in a file.
    pub fn check(&self, source: &str, tree: &SyntaxTree) -> (out: Vec<Finding>)
        requires
            tree.valid(source@),
            tree.len() > 0,
        ensures
            views(out@) == rule_reports::<Apex>(
                Self::facts().id,
                rule_named(Apex::rules(), 0, Self::facts().id),
                tree,
                0,
                source@,
            ),
    {
        check_taint_rule::<Apex>(self.info().id, source, tree.root_node())
    }
}

/// Untrusted input reaches a dynamic SOSL query sink.
#[derive(Debug, Clone, Copy)]
pub struct TaintSoslInjection;

impl TaintSoslInjection {
    /// What the rule says of itself.
    pub open spec fn facts() -> RuleFacts {
        RuleFacts {
            id: "apex/taint-sosl-injection"@,
            severity: Severity::Critical,
            cwe: Some("CWE-943"@),
            description: "Untrusted input reaches a dynamic SOSL query sink"@,
            language: Language::Apex,
            cnsa2_deadline: None,
        }
    }

    /// What the rule says of itself.
    pub fn info(&self) -> (r: RuleInfo)
        ensures
            r@ == Self::facts(),
    {
        RuleInfo {
            id: "apex/taint-sosl-injection",
            severity: Severity::Critical,
            cwe: Some("CWE-943"),
            description: "Untrusted input reaches a dynamic SOSL query sink",
            language: Language::Apex,
            cnsa2_deadline: None,
        }
    }

    /// The findings of the rule in a file.
    pub fn check(&self, source: &str, tree: &SyntaxTree) -> (out: Vec<Finding>)
        requires
            tree.valid(source@),
            tree.len() > 0,
        ensures
            views(out@) == rule_reports::<Apex>(
                Self::facts().id,
                rule_named(Apex::rules(), 0, Self::facts().id),
                tree,
                0,
                source@,
            ),
    {
        check_taint_rule::<Apex>(self.info().id, source, tree.root_node())
    }
}

} // verus!
