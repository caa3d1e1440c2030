//! What reports say of what was found, and which rules make them.
use crate::c::c_report;
use crate::common::{hop_confidence, said_of_ranges};
use crate::cross_file::{has_flow, summary_in, summary_named, FunctionTaintSummary, Summary};
use crate::finding::{Language, Report, RuleFacts};
use crate::generic_mode::{
    compiled, is_rule_for, looks_for, pattern_ranges, ranges_of, GenericRule, GenericRuleSpec, Tok,
};
use crate::go::go_report;
use crate::java::{hinted_reports, java_meta};
use crate::pattern::regex_found;
use crate::taint_engine::{Flow, TaintRule};
use crate::taint_rule::{
    enabled_reports, enabled_rules, flow_report, rule_reports, MetaFacts, TaintLanguage,
};
use crate::text::{line_of, opt_view, views, Text};
use crate::tree::SyntaxTree;
use vstd::prelude::*;

verus! {

// ─── Flows ───────────────────────────────────────────────────────────────────
/// The report of a flow is on the sink, names the source, and is of the rule that found it. Go
/// and C report flows with full confidence.
pub proof fn a_flow_is_reported_at_its_sink(m: MetaFacts, src: Text, f: Flow)
    ensures
        forall|r: Report|
            #![trigger r.rule_id]
            r == flow_report(m, src, f) || r == go_report(m, src, f) || r == c_report(m, src, f)
                ==> r.rule_id == m.rule_id && r.severity == m.severity && r.cwe == m.cwe && r.line
                == f.sink_line && r.column == f.sink_column && r.end_line == f.sink_end_line
                && r.sink_line == Some(f.sink_line) && r.source_description == Some(
                f.source_description,
            ) && r.sink_description == Some(f.sink_description),
        flow_report(m, src, f).source_line == Some(f.source_line),
        go_report(m, src, f).source_line == Some(f.source_line),
        f.source_line > 0 ==> c_report(m, src, f).source_line == Some(f.source_line),
        flow_report(m, src, f).confidence == hop_confidence(f.hops),
        flow_report(m, src, f).taint_hops == Some(f.hops),
        go_report(m, src, f).confidence == 100,
        c_report(m, src, f).confidence == 100,
{
}

// ─── Rules ───────────────────────────────────────────────────────────────────
/// The enabled rules report what each of them reports by itself, and no other rule reports.
pub proof fn enabled_rules_report_and_others_do_not<L: TaintLanguage>(
    rules: Seq<(Text, TaintRule)>,
    from: int,
    enabled: Seq<Text>,
    t: &SyntaxTree,
    i: int,
    src: Text,
    r: Report,
)
    requires
        0 <= from,
    ensures
        enabled_reports::<L>(rules, from, enabled, t, i, src).contains(r) <==> exists|k: int|
            #![trigger rules[k]]
            from <= k < rules.len() && enabled.contains(rules[k].0) && rule_reports::<L>(
                rules[k].0,
                rules[k].1,
                t,
                i,
                src,
            ).contains(r),
    decreases rules.len() - from,
{
    if from < rules.len() {
        enabled_rules_report_and_others_do_not::<L>(rules, from + 1, enabled, t, i, src, r);
        let here = rule_reports::<L>(rules[from].0, rules[from].1, t, i, src);
        let rest = enabled_reports::<L>(rules, from + 1, enabled, t, i, src);
        let all = enabled_reports::<L>(rules, from, enabled, t, i, src);
        if enabled.contains(rules[from].0) {
            if here.contains(r) {
                let j = choose|j: int| 0 <= j < here.len() && here[j] == r;
                assert(all[j] == r);
            }
            if rest.contains(r) {
                let j = choose|j: int| 0 <= j < rest.len() && rest[j] == r;
                assert(all[here.len() + j] == r);
            }
            if all.contains(r) {
                let j = choose|j: int| 0 <= j < all.len() && all[j] == r;
                if j < here.len() {
                    assert(here[j] == r);
                    assert(here.contains(r));
                } else {
                    assert(rest[j - here.len()] == r);
                }
            }
        }
    }
}

/// The enabled ones of some rules are those whose id is enabled.
pub proof fn enabled_rules_are_those_that_are_named(
    rules: Seq<(Text, TaintRule)>,
    from: int,
    enabled: Seq<Text>,
    x: (Text, TaintRule),
)
    requires
        0 <= from,
    ensures
        enabled_rules(rules, from, enabled).contains(x) <==> enabled.contains(x.0) && exists|k: int|
            #![trigger rules[k]]
            from <= k < rules.len() && rules[k] == x,
    decreases rules.len() - from,
{
    if from < rules.len() {
        enabled_rules_are_those_that_are_named(rules, from + 1, enabled, x);
        let rest = enabled_rules(rules, from + 1, enabled);
        let all = enabled_rules(rules, from, enabled);
        if enabled.contains(rules[from].0) {
            if rest.contains(x) {
                let j = choose|j: int| 0 <= j < rest.len() && rest[j] == x;
                assert(all[j + 1] == x);
            }
            if all.contains(x) {
                let j = choose|j: int| 0 <= j < all.len() && all[j] == x;
                if j > 0 {
                    assert(rest[j - 1] == x);
                }
            }
            assert(all[0] == rules[from]);
        }
    }
}

/// A flow into another file is reported under the rule that it names, where there is such a
/// rule for Java.
pub proof fn a_flow_is_reported_under_the_rule_that_it_names(
    flows: Seq<Flow>,
    from: int,
    k: int,
    id: Text,
    src: Text,
)
    requires
        0 <= from <= k < flows.len(),
        flows[k].rule_id_hint == Some(id),
        java_meta(id) is Some,
    ensures
        hinted_reports(flows, from, src).contains(flow_report(java_meta(id)->0, src, flows[k])),
    decreases flows.len() - from,
{
    let all = hinted_reports(flows, from, src);
    let r = flow_report(java_meta(id)->0, src, flows[k]);
    if from == k {
        assert(all[0] == r);
    } else {
        let rest = hinted_reports(flows, from + 1, src);
        a_flow_is_reported_under_the_rule_that_it_names(flows, from + 1, k, id, src);
        let j = choose|j: int| 0 <= j < rest.len() && rest[j] == r;
        assert(all[j + (all.len() - rest.len())] == r);
    }
}

/// A rule that looks for ranges of a text reports each of them once, in order, on the line on
/// which it starts.
pub proof fn each_range_is_reported_on_its_line(
    f: RuleFacts,
    description: Text,
    src: Text,
    ranges: Seq<(int, int)>,
    k: int,
)
    requires
        0 <= k < ranges.len(),
        0 <= ranges[k].0 <= encode_len(src),
    ensures
        said_of_ranges(f, description, src, ranges).len() == ranges.len(),
        said_of_ranges(f, description, src, ranges)[k].rule_id == f.id,
        said_of_ranges(f, description, src, ranges)[k].severity == f.severity,
        said_of_ranges(f, description, src, ranges)[k].description == description,
        said_of_ranges(f, description, src, ranges)[k].line == line_of(src, ranges[k].0),
{
}

/// How many bytes a text has.
pub open spec fn encode_len(src: Text) -> int {
    vstd::utf8::encode_utf8(src).len() as int
}

// ─── Generic rules ───────────────────────────────────────────────────────────
/// A generic rule says what its spec says, and a pattern without exceptions finds what the
/// pattern matches.
pub proof fn a_generic_rule_is_what_its_spec_says(
    r: GenericRule,
    lang: Language,
    spec: GenericRuleSpec<'_>,
    src: Text,
    toks: Seq<Tok>,
)
    requires
        is_rule_for(r, lang, spec),
    ensures
        r.id@ == "semgrep/"@ + spec.id@,
        r.message@ == spec.message@,
        r.severity == spec.severity,
        r.lang == lang,
        opt_view(r.cwe) == opt_view(spec.cwe),
        spec.pattern is Some && spec.pattern_not is None ==> ranges_of(*r.matcher, src, toks)
            == pattern_ranges(compiled(opt_view(spec.pattern)->0), toks),
        spec.pattern is None && spec.pattern_regex is Some && spec.pattern_not is None ==> ranges_of(
            *r.matcher,
            src,
            toks,
        ) == regex_found(opt_view(spec.pattern_regex)->0, src),
        spec.pattern_not is Some ==> {
            &&& *r.matcher is Filtered
            &&& (*r.matcher)->negatives@.len() == 1
            &&& ranges_of((*r.matcher)->negatives@[0], src, toks) == pattern_ranges(
                compiled(opt_view(spec.pattern_not)->0),
                toks,
            )
            &&& spec.pattern is Some ==> ranges_of(*(*r.matcher)->positive, src, toks)
                == pattern_ranges(compiled(opt_view(spec.pattern)->0), toks)
        },
{
    if spec.pattern_not is Some {
        let n = opt_view(spec.pattern_not)->0;
        assert(seq![n][0] == n);
        assert(looks_for((*r.matcher)->negatives@[0], n));
    }
}

// ─── Summaries of other files ────────────────────────────────────────────────
proof fn lemma_named(list: Seq<Summary>, name: Text, from: int, k: int)
    requires
        0 <= from <= k < list.len(),
        list[k].name == name,
        forall|j: int| #![trigger list[j]] from <= j < k ==> list[j].name != name,
    ensures
        summary_named(list, name, from) == Some(list[k]),
    decreases list.len() - from,
{
    if from < k {
        lemma_named(list, name, from + 1, k);
    }
}

/// A function is known by the first summary under its name in the first file that has one.
pub proof fn the_first_file_with_a_summary_counts(
    paths: Seq<Text>,
    files: Map<Text, Vec<FunctionTaintSummary>>,
    name: Text,
    from: int,
    p: int,
    k: int,
)
    requires
        0 <= from <= p < paths.len(),
        files.contains_key(paths[p]),
        0 <= k < files[paths[p]]@.len(),
        views(files[paths[p]]@)[k].name == name,
        forall|j: int|
            #![trigger views(files[paths[p]]@)[j]]
            0 <= j < k ==> views(files[paths[p]]@)[j].name != name,
        forall|q: int, j: int|
            #![trigger views(files[paths[q]]@)[j]]
            from <= q < p && files.contains_key(paths[q]) && 0 <= j < files[paths[q]]@.len()
                ==> views(files[paths[q]]@)[j].name != name,
    ensures
        summary_in(paths, files, name, from) == Some(views(files[paths[p]]@)[k]),
    decreases paths.len() - from,
{
    if from < p {
        if files.contains_key(paths[from]) {
            lemma_not_named(views(files[paths[from]]@), name, 0);
        }
        the_first_file_with_a_summary_counts(paths, files, name, from + 1, p, k);
    } else {
        lemma_named(views(files[paths[p]]@), name, 0, k);
    }
}

proof fn lemma_not_named(list: Seq<Summary>, name: Text, from: int)
    requires
        0 <= from,
        forall|j: int| #![trigger list[j]] from <= j < list.len() ==> list[j].name != name,
    ensures
        summary_named(list, name, from) is None,
    decreases list.len() - from,
{
    if from < list.len() {
        lemma_not_named(list, name, from + 1);
    }
}

/// A list of flows holds one of a parameter into a rule exactly where a flow of it is of both.
pub proof fn a_flow_is_of_its_parameter_and_its_rule(s: Summary, k: int, param: int, rule: Text)
    ensures
        0 <= k < s.params_to_sink.len() ==> has_flow(
            s.params_to_sink,
            s.params_to_sink[k].param_index,
            s.params_to_sink[k].sink_rule_id,
        ),
        (forall|j: int|
            #![trigger s.params_to_sink[j]]
            0 <= j < s.params_to_sink.len() ==> s.params_to_sink[j].param_index != param) ==> !has_flow(
            s.params_to_sink,
            param,
            rule,
        ),
        (forall|j: int|
            #![trigger s.params_to_sink[j]]
            0 <= j < s.params_to_sink.len() ==> s.params_to_sink[j].sink_rule_id != rule) ==> !has_flow(
            s.params_to_sink,
            param,
            rule,
        ),
{
}

} // verus!
