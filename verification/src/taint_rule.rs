//! What taint rules report of the flows that an engine finds.
use crate::common::{confidence_for_hops, get_source_line, hop_confidence};
use crate::finding::{own, Finding, Report, Severity};
use crate::taint_engine::{Flow, TaintFinding, TaintRule, TaintSpec};
use crate::text::{concat3, opt_view, source_line_spec, text_eq, views, Text};
use crate::tree::{Node, SyntaxTree};
use vstd::prelude::*;

verus! {

broadcast use crate::text::group_views;

/// What a taint rule says of each flow that it reports.
#[derive(Debug, Clone, Copy)]
pub struct TaintRuleMeta {
    pub rule_id: &'static str,
    pub severity: Severity,
    pub cwe: Option<&'static str>,
    pub fix_suggestion: Option<&'static str>,
    /// What stands between the descriptions of the source and the sink.
    pub verb: &'static str,
    /// What stands after the description of the sink.
    pub advice: &'static str,
}

/// What a [`TaintRuleMeta`] denotes.
#[verifier::ext_equal]
pub struct MetaFacts {
    pub rule_id: Text,
    pub severity: Severity,
    pub cwe: Option<Text>,
    pub fix_suggestion: Option<Text>,
    pub verb: Text,
    pub advice: Text,
}

impl View for TaintRuleMeta {
    type V = MetaFacts;

    open spec fn view(&self) -> MetaFacts {
        MetaFacts {
            rule_id: self.rule_id@,
            severity: self.severity,
            cwe: opt_view(self.cwe),
            fix_suggestion: opt_view(self.fix_suggestion),
            verb: self.verb@,
            advice: self.advice@,
        }
    }
}

/// The report of a flow.
pub open spec fn flow_report(m: MetaFacts, src: Text, f: Flow) -> Report {
    Report {
        rule_id: m.rule_id,
        severity: m.severity,
        cwe: m.cwe,
        description: f.source_description + m.verb + f.sink_description + m.advice,
        file: Seq::empty(),
        line: f.sink_line,
        column: f.sink_column,
        end_line: f.sink_end_line,
        end_column: f.sink_end_column,
        snippet: source_line_spec(src, f.sink_start_byte),
        source_line: Some(f.source_line),
        source_description: Some(f.source_description),
        sink_line: Some(f.sink_line),
        sink_description: Some(f.sink_description),
        fix_suggestion: m.fix_suggestion,
        sink_start_byte: Some(f.sink_start_byte),
        sink_end_byte: Some(f.sink_end_byte),
        confidence: hop_confidence(f.hops),
        taint_hops: Some(f.hops),
        tags: Seq::empty(),
        crypto_algorithm: None,
        cnsa2_deadline: None,
    }
}

/// The finding for a flow.
pub fn map_taint_finding(meta: &TaintRuleMeta, source: &str, finding: &TaintFinding) -> (r: Finding)
    ensures
        r@ == flow_report(meta@, source@, finding@),
{
    let mut description = concat3(
        finding.source_description.as_str(),
        meta.verb,
        finding.sink_description.as_str(),
    );
    crate::text::append(&mut description, meta.advice);
    let r = Finding {
        rule_id: meta.rule_id.to_owned(),
        severity: meta.severity,
        cwe: own(meta.cwe),
        description,
        file: String::new(),
        line: finding.sink_line,
        column: finding.sink_column,
        end_line: finding.sink_end_line,
        end_column: finding.sink_end_column,
        snippet: get_source_line(source, finding.sink_start_byte),
        source_line: Some(finding.source_line),
        source_description: Some(finding.source_description.clone()),
        sink_line: Some(finding.sink_line),
        sink_description: Some(finding.sink_description.clone()),
        fix_suggestion: own(meta.fix_suggestion),
        sink_start_byte: Some(finding.sink_start_byte),
        sink_end_byte: Some(finding.sink_end_byte),
        confidence: confidence_for_hops(finding.hops),
        taint_hops: Some(finding.hops),
        tags: Vec::new(),
        crypto_algorithm: None,
        cnsa2_deadline: None,
    };
    assert(r@ =~= flow_report(meta@, source@, finding@));
    r
}

/// What the taint rules of a language need: the rules, what they say, and the engine.
pub trait TaintLanguage {
    /// The rules, each under its id.
    spec fn rules() -> Seq<(Text, TaintRule)>;

    fn rule_specs() -> (r: Vec<(&'static str, TaintSpec)>)
        ensures
            views(r@) == Self::rules(),
    ;

    /// What the rule with this id says of its flows, where there is such a rule.
    spec fn meta(id: Text) -> Option<MetaFacts>;

    fn rule_meta(id: &str) -> (r: Option<TaintRuleMeta>)
        ensures
            opt_view(r) == Self::meta(id@),
    ;

    /// The flows of a rule in the tree at node `i`.
    spec fn flows(t: &SyntaxTree, i: int, src: Text, rule: TaintRule) -> Seq<Flow>;

    fn find_flows(root: Node<'_>, source: &str, spec: &TaintSpec) -> (r: Vec<TaintFinding>)
        requires
            root.valid(source@),
        ensures
            views(r@) == Self::flows(root.tree, root.index as int, source@, spec@),
    ;

    /// The report of a flow.
    spec fn report(m: MetaFacts, src: Text, f: Flow) -> Report;

    fn map_finding(meta: &TaintRuleMeta, source: &str, finding: &TaintFinding) -> (r: Finding)
        ensures
            r@ == Self::report(meta@, source@, finding@),
    ;
}

/// The reports of flows, in order.
pub open spec fn reports_of<L: TaintLanguage>(m: MetaFacts, src: Text, flows: Seq<Flow>) -> Seq<
    Report,
> {
    Seq::new(flows.len(), |k: int| L::report(m, src, flows[k]))
}

/// The reports of a rule in the tree at node `i`: none where no rule has the id.
pub open spec fn rule_reports<L: TaintLanguage>(
    id: Text,
    rule: TaintRule,
    t: &SyntaxTree,
    i: int,
    src: Text,
) -> Seq<Report> {
    match L::meta(id) {
        Some(m) => reports_of::<L>(m, src, L::flows(t, i, src, rule)),
        None => Seq::empty(),
    }
}

/// The findings of a rule in the tree at a node.
pub fn run_taint_single<L: TaintLanguage>(
    rule_id: &str,
    source: &str,
    root: Node<'_>,
    spec: &TaintSpec,
) -> (out: Vec<Finding>)
    requires
        root.valid(source@),
    ensures
        views(out@) == rule_reports::<L>(
            rule_id@,
            spec@,
            root.tree,
            root.index as int,
            source@,
        ),
{
    let mut out: Vec<Finding> = Vec::new();
    let meta = match L::rule_meta(rule_id) {
        None => {
            return out;
        },
        Some(m) => m,
    };
    let raw = L::find_flows(root, source, spec);
    let ghost all = reports_of::<L>(meta@, source@, views(raw@));
    let mut k: usize = 0;
    while k < raw.len()
        invariant
            k <= raw@.len(),
            all == reports_of::<L>(meta@, source@, views(raw@)),
            views(out@) =~= all.take(k as int),
        decreases raw.len() - k,
    {
        assert(views(raw@)[k as int] == raw@[k as int]@);
        out.push(L::map_finding(&meta, source, &raw[k]));
        k = k + 1;
    }
    assert(views(out@) =~= all);
    out
}

/// Whether no two rules have the same id.
pub open spec fn distinct_ids(rules: Seq<(Text, TaintRule)>) -> bool {
    forall|j: int, k: int|
        #![trigger rules[j], rules[k]]
        0 <= j < rules.len() && 0 <= k < rules.len() && rules[j].0 == rules[k].0 ==> j == k
}

/// The enabled ones of the rules from `from` on.
pub open spec fn enabled_rules(rules: Seq<(Text, TaintRule)>, from: int, enabled: Seq<Text>) -> Seq<
    (Text, TaintRule),
>
    decreases rules.len() - from,
{
    if from < 0 || from >= rules.len() {
        Seq::empty()
    } else if enabled.contains(rules[from].0) {
        seq![rules[from]] + enabled_rules(rules, from + 1, enabled)
    } else {
        enabled_rules(rules, from + 1, enabled)
    }
}

/// The reports of the enabled ones of the rules from `from` on.
pub open spec fn enabled_reports<L: TaintLanguage>(
    rules: Seq<(Text, TaintRule)>,
    from: int,
    enabled: Seq<Text>,
    t: &SyntaxTree,
    i: int,
    src: Text,
) -> Seq<Report>
    decreases rules.len() - from,
{
    if from < 0 || from >= rules.len() {
        Seq::empty()
    } else {
        let rest = enabled_reports::<L>(rules, from + 1, enabled, t, i, src);
        if enabled.contains(rules[from].0) {
            rule_reports::<L>(rules[from].0, rules[from].1, t, i, src) + rest
        } else {
            rest
        }
    }
}

/// The findings of every enabled rule of a language in the tree at a node.
pub fn run_taint_batched<L: TaintLanguage>(
    source: &str,
    root: Node<'_>,
    enabled: &Vec<String>,
) -> (out: Vec<Finding>)
    requires
        root.valid(source@),
    ensures
        views(out@) == enabled_reports::<L>(
            L::rules(),
            0,
            views(enabled@),
            root.tree,
            root.index as int,
            source@,
        ),
{
    let specs = L::rule_specs();
    let mut out: Vec<Finding> = Vec::new();
    let ghost on = views(enabled@);
    let ghost at = root.index as int;
    let ghost all = enabled_reports::<L>(L::rules(), 0, on, root.tree, at, source@);
    assert(views(out@) + all =~= all);
    let mut k: usize = 0;
    while k < specs.len()
        invariant
            root.valid(source@),
            k <= specs@.len(),
            views(specs@) == L::rules(),
            on == views(enabled@),
            at == root.index,
            views(out@) + enabled_reports::<L>(L::rules(), k as int, on, root.tree, at, source@)
                == all,
        decreases specs.len() - k,
    {
        assert(views(specs@)[k as int] == specs@[k as int]@);
        if crate::taint_engine::has_text(enabled, specs[k].0) {
            let ghost before = views(out@);
            let mut found = run_taint_single::<L>(specs[k].0, source, root, &specs[k].1);
            let ghost here = views(found@);
            out.append(&mut found);
            proof {
                let rest = enabled_reports::<L>(L::rules(), k + 1, on, root.tree, at, source@);
                assert(before + here + rest =~= before + (here + rest));
            }
        }
        k = k + 1;
    }
    assert(views(out@) + Seq::<Report>::empty() =~= views(out@));
    out
}

/// The first of the rules from `from` on with this id; one that looks for nothing where
/// there is none.
pub open spec fn rule_named(rules: Seq<(Text, TaintRule)>, from: int, id: Text) -> TaintRule
    decreases rules.len() - from,
{
    if from < 0 || from >= rules.len() {
        TaintRule { sources: Seq::empty(), sinks: Seq::empty(), sanitizers: Seq::empty() }
    } else if rules[from].0 == id {
        rules[from].1
    } else {
        rule_named(rules, from + 1, id)
    }
}

/// The findings of the rule with this id in the tree at a node.
pub fn check_taint_rule<L: TaintLanguage>(id: &str, source: &str, root: Node<'_>) -> (out: Vec<
    Finding,
>)
    requires
        root.valid(source@),
    ensures
        views(out@) == rule_reports::<L>(
            id@,
            rule_named(L::rules(), 0, id@),
            root.tree,
            root.index as int,
            source@,
        ),
{
    let specs = L::rule_specs();
    let mut k: usize = 0;
    while k < specs.len()
        invariant
            root.valid(source@),
            k <= specs@.len(),
            views(specs@) == L::rules(),
            rule_named(L::rules(), 0, id@) == rule_named(L::rules(), k as int, id@),
        decreases specs.len() - k,
    {
        assert(views(specs@)[k as int] == specs@[k as int]@);
        if text_eq(specs[k].0, id) {
            return run_taint_single::<L>(id, source, root, &specs[k].1);
        }
        k = k + 1;
    }
    let none = TaintSpec { sources: Vec::new(), sinks: Vec::new(), sanitizers: Vec::new() };
    assert(none@ =~= rule_named(L::rules(), k as int, id@));
    run_taint_single::<L>(id, source, root, &none)
}

proof fn lemma_rule_named(rules: Seq<(Text, TaintRule)>, from: int, k: int)
    requires
        distinct_ids(rules),
        0 <= from <= k < rules.len(),
    ensures
        rule_named(rules, from, rules[k].0) == rules[k].1,
    decreases rules.len() - from,
{
    if from < k {
        assert(rules[from].0 != rules[k].0);
        lemma_rule_named(rules, from + 1, k);
    }
}

proof fn lemma_enabled_alone<L: TaintLanguage>(
    rules: Seq<(Text, TaintRule)>,
    from: int,
    k: int,
    t: &SyntaxTree,
    i: int,
    src: Text,
)
    requires
        distinct_ids(rules),
        0 <= from,
        0 <= k < rules.len(),
    ensures
        enabled_reports::<L>(rules, from, seq![rules[k].0], t, i, src) == if from <= k {
            rule_reports::<L>(rules[k].0, rules[k].1, t, i, src)
        } else {
            Seq::empty()
        },
    decreases rules.len() - from,
{
    if from < rules.len() {
        lemma_enabled_alone::<L>(rules, from + 1, k, t, i, src);
        let only = seq![rules[k].0];
        assert(only[0] == rules[k].0);
        if from == k {
            let here = rule_reports::<L>(rules[k].0, rules[k].1, t, i, src);
            assert(here + Seq::<Report>::empty() =~= here);
        } else {
            assert(rules[from].0 != rules[k].0);
            assert(!only.contains(rules[from].0));
        }
    }
}

/// A batch of one enabled rule reports what that rule reports on its own, where no two rules
/// have the same id.
pub proof fn one_enabled_rule_reports_as_alone<L: TaintLanguage>(
    k: int,
    t: &SyntaxTree,
    i: int,
    src: Text,
)
    requires
        distinct_ids(L::rules()),
        0 <= k < L::rules().len(),
    ensures
        enabled_reports::<L>(L::rules(), 0, seq![L::rules()[k].0], t, i, src) == rule_reports::<L>(
            L::rules()[k].0,
            rule_named(L::rules(), 0, L::rules()[k].0),
            t,
            i,
            src,
        ),
{
    lemma_rule_named(L::rules(), 0, k);
    lemma_enabled_alone::<L>(L::rules(), 0, k, t, i, src);
}

} // verus!
