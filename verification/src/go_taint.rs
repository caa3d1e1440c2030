//! Taint analysis for Go, within a function and through the functions that it calls.
//!
//! Each function, method and closure is a scope of its own. Statements are read
//! in source order; an assignment of a clean value cleans its target.
use crate::common::{resolve_callee, resolved_in, AliasTable};
use crate::cross_file::{
    ints, lookup_cross_file_summary, summary_in, CrossFileSummaryMap, FunctionTaintSummary,
    ParamSinkFlow, SinkFlow, Summary,
};
use crate::pattern::{is_regex_match, regex_matches};
use crate::taint_engine::{
    attribute, call, clone_matchers, cross_file_flow, cross_file_taint_finding, flow_at, has_text,
    lookup, match_param_source, m_attribute, m_call, m_params, param_names as params, param_source,
    parameter_source, parameter_sources, relabel, relabel_set, source_labels, source_labels_spec,
    taint_finding_at, Flow, Info, LabelPolicy, LabelSet, Matcher, NodeMatcher, TaintFinding,
    TaintInfo, TaintRule, TaintSpec, TaintState,
};
use crate::text::{
    concat3, decimal, decimal_text, last_segment, opt_view, past_last, remove_whitespace, text_eq,
    text_is, trim_chars, trimmed_of, views, without_white, Text,
};
use crate::text_map::TextMap;
use crate::tree::{gap, indices, Node, SyntaxTree};
use vstd::prelude::*;

verus! {

broadcast use {crate::text::group_views, crate::tree::group_tree};

// ─── Sources ─────────────────────────────────────────────────────────────────
/// The identifier at the left end of a chain of selectors and index accesses.
pub open spec fn leftmost(t: &SyntaxTree, i: int, src: Text) -> Option<Text>
    decreases gap(i, t.len()),
{
    if !(0 <= i < t.len()) {
        None
    } else if t.kind(i) == "identifier"@ || t.kind(i) == "package_identifier"@ {
        Some(t.text(i, src))
    } else if t.kind(i) == "selector_expression"@ || t.kind(i) == "index_expression"@ {
        match t.field(i, "operand"@) {
            Some(k) => leftmost(t, k, src),
            None => None,
        }
    } else {
        None
    }
}

fn leftmost_identifier<'a>(node: Node<'_>, source: &'a str) -> (r: Option<&'a str>)
    requires
        node.valid(source@),
    ensures
        opt_view(r) == leftmost(node.tree, node.index as int, source@),
    decreases node.tree.len() - node.index,
{
    if node.is_kind("identifier") || node.is_kind("package_identifier") {
        Some(node.text(source))
    } else if node.is_kind("selector_expression") || node.is_kind("index_expression") {
        match node.child_by_field_name("operand") {
            Some(k) => leftmost_identifier(k, source),
            None => None,
        }
    } else {
        None
    }
}

/// Whether an indexed operand is called `want`, by its name or its last field.
/// Without a name every operand is.
pub open spec fn subscript_base_matches(
    t: &SyntaxTree,
    i: int,
    src: Text,
    want: Option<Text>,
) -> bool {
    match want {
        None => true,
        Some(w) => if t.kind(i) == "identifier"@ {
            t.text(i, src) == w
        } else if t.kind(i) == "selector_expression"@ {
            t.field_text(i, "field"@, src) == Some(w)
        } else {
            false
        },
    }
}

fn go_subscript_base_matches(operand: Node<'_>, source: &str, want: Option<&str>) -> (r: bool)
    requires
        operand.valid(source@),
    ensures
        r == subscript_base_matches(
            operand.tree,
            operand.index as int,
            source@,
            opt_view(want),
        ),
{
    match want {
        None => true,
        Some(w) => {
            if operand.is_kind("identifier") {
                text_eq(operand.text(source), w)
            } else if operand.is_kind("selector_expression") {
                text_is(operand.field_text("field", source), w)
            } else {
                false
            }
        },
    }
}

/// Whether a conversion to `[]byte` is of a string literal whose content matches.
pub open spec fn byte_literal_matches(
    t: &SyntaxTree,
    i: int,
    src: Text,
    regex: Option<Text>,
) -> bool {
    &&& t.kind(i) == "type_conversion_expression"@
    &&& t.field_text(i, "type"@, src) matches Some(ty)
    &&& without_white(ty) == "[]byte"@
    &&& t.field(i, "operand"@) matches Some(k)
    &&& t.kind(k) == "interpreted_string_literal"@ || t.kind(k) == "raw_string_literal"@
    &&& match regex {
        None => true,
        Some(re) => regex_matches(re, trimmed_of(t.text(k, src), '"', '`')),
    }
}

/// Whether a matcher takes node `i` for a source.
pub open spec fn go_source_hits(
    m: Matcher,
    t: &SyntaxTree,
    i: int,
    src: Text,
    aliases: Option<Map<Text, Text>>,
) -> bool {
    match m {
        Matcher::Attribute { root, field, .. } => {
            &&& t.kind(i) == "selector_expression"@
            &&& t.field_text(i, "field"@, src) == Some(field)
            &&& leftmost(t, i, src) matches Some(base)
            &&& base == root || resolved_in(aliases, base) == root
        },
        Matcher::Call { canonical, .. } => {
            &&& t.kind(i) == "call_expression"@
            &&& t.field_text(i, "function"@, src) matches Some(callee)
            &&& callee == canonical || resolved_in(aliases, callee) == canonical
        },
        Matcher::FieldName { field, .. } => {
            &&& t.kind(i) == "selector_expression"@
            &&& t.field_text(i, "field"@, src) == Some(field)
        },
        Matcher::Subscript { base, .. } => {
            &&& t.kind(i) == "index_expression"@
            &&& t.field(i, "operand"@) matches Some(k)
            &&& subscript_base_matches(t, k, src, base)
        },
        Matcher::LiteralString { regex, .. } => byte_literal_matches(t, i, src, regex),
        _ => false,
    }
}

/// The description of the first matcher from the position `from` on that takes
/// node `i` for a source.
pub open spec fn go_source(
    sources: Seq<Matcher>,
    from: int,
    t: &SyntaxTree,
    i: int,
    src: Text,
    aliases: Option<Map<Text, Text>>,
) -> Option<Text>
    decreases sources.len() - from,
{
    if from < 0 || from >= sources.len() {
        None
    } else if go_source_hits(sources[from], t, i, src, aliases) {
        Some(sources[from].description())
    } else {
        go_source(sources, from + 1, t, i, src, aliases)
    }
}

fn source_hits(m: &NodeMatcher, node: Node<'_>, source: &str, aliases: Option<&AliasTable>) -> (r:
    bool)
    requires
        node.valid(source@),
    ensures
        r == go_source_hits(m@, node.tree, node.index as int, source@, opt_view(aliases)),
{
    match m {
        NodeMatcher::Attribute { root, field, .. } => {
            if !node.is_kind("selector_expression") {
                return false;
            }
            if !text_is(node.field_text("field", source), field.as_str()) {
                return false;
            }
            match leftmost_identifier(node, source) {
                None => false,
                Some(base) => text_eq(base, root.as_str()) || text_eq(
                    resolve_callee(aliases, base).as_str(),
                    root.as_str(),
                ),
            }
        },
        NodeMatcher::Call { canonical, .. } => {
            if !node.is_kind("call_expression") {
                return false;
            }
            match node.field_text("function", source) {
                None => false,
                Some(callee) => text_eq(callee, canonical.as_str()) || text_eq(
                    resolve_callee(aliases, callee).as_str(),
                    canonical.as_str(),
                ),
            }
        },
        NodeMatcher::FieldName { field, .. } => {
            node.is_kind("selector_expression") && text_is(
                node.field_text("field", source),
                field.as_str(),
            )
        },
        NodeMatcher::Subscript { base, .. } => {
            if !node.is_kind("index_expression") {
                return false;
            }
            match node.child_by_field_name("operand") {
                None => false,
                Some(k) => go_subscript_base_matches(
                    k,
                    source,
                    match base {
                        Some(b) => Some(b.as_str()),
                        None => None,
                    },
                ),
            }
        },
        NodeMatcher::LiteralString { regex, .. } => {
            if !node.is_kind("type_conversion_expression") {
                return false;
            }
            match node.field_text("type", source) {
                None => {
                    return false;
                },
                Some(ty) => {
                    if !text_eq(remove_whitespace(ty).as_str(), "[]byte") {
                        return false;
                    }
                },
            }
            match node.child_by_field_name("operand") {
                None => false,
                Some(k) => {
                    if !(k.is_kind("interpreted_string_literal") || k.is_kind(
                        "raw_string_literal",
                    )) {
                        return false;
                    }
                    match regex {
                        None => true,
                        Some(re) => is_regex_match(
                            re.as_str(),
                            trim_chars(k.text(source), '"', '`'),
                        ),
                    }
                },
            }
        },
        _ => false,
    }
}

/// The description of the first source that a node is.
pub fn match_source(
    node: Node<'_>,
    source: &str,
    spec: &TaintSpec,
    aliases: Option<&AliasTable>,
) -> (r: Option<String>)
    requires
        node.valid(source@),
    ensures
        opt_view(r) == go_source(
            spec@.sources,
            0,
            node.tree,
            node.index as int,
            source@,
            opt_view(aliases),
        ),
{
    let mut k: usize = 0;
    while k < spec.sources.len()
        invariant
            node.valid(source@),
            k <= spec.sources@.len(),
            go_source(spec@.sources, 0, node.tree, node.index as int, source@, opt_view(aliases))
                == go_source(
                spec@.sources,
                k as int,
                node.tree,
                node.index as int,
                source@,
                opt_view(aliases),
            ),
        decreases spec.sources.len() - k,
    {
        assert(spec@.sources[k as int] == spec.sources@[k as int]@);
        if source_hits(&spec.sources[k], node, source, aliases) {
            return Some(spec.sources[k].description().to_owned());
        }
        k = k + 1;
    }
    None
}

/// Whether a call at node `i` is of one of the sanitizers.
pub open spec fn sanitizes(
    sanitizers: Seq<Matcher>,
    t: &SyntaxTree,
    i: int,
    src: Text,
    aliases: Option<Map<Text, Text>>,
) -> bool {
    &&& t.kind(i) == "call_expression"@
    &&& t.field_text(i, "function"@, src) matches Some(callee)
    &&& exists|k: int|
        #![trigger sanitizers[k]]
        0 <= k < sanitizers.len() && sanitizers[k] is Call && (sanitizers[k]->canonical == callee
            || sanitizers[k]->canonical == resolved_in(aliases, callee))
}

#[verifier::loop_isolation(false)]
fn is_sanitizer_call(
    node: Node<'_>,
    source: &str,
    spec: &TaintSpec,
    aliases: Option<&AliasTable>,
) -> (r: bool)
    requires
        node.valid(source@),
    ensures
        r == sanitizes(
            spec@.sanitizers,
            node.tree,
            node.index as int,
            source@,
            opt_view(aliases),
        ),
{
    if !node.is_kind("call_expression") {
        return false;
    }
    let callee = match node.field_text("function", source) {
        None => {
            return false;
        },
        Some(c) => c,
    };
    let resolved = resolve_callee(aliases, callee);
    let mut k: usize = 0;
    while k < spec.sanitizers.len()
        invariant
            k <= spec.sanitizers@.len(),
            resolved@ == resolved_in(opt_view(aliases), callee@),
            forall|j: int|
                #![trigger spec@.sanitizers[j]]
                0 <= j < k ==> !(spec@.sanitizers[j] is Call && (spec@.sanitizers[j]->canonical
                    == callee@ || spec@.sanitizers[j]->canonical == resolved@)),
        decreases spec.sanitizers.len() - k,
    {
        assert(spec@.sanitizers[k as int] == spec.sanitizers@[k as int]@);
        match &spec.sanitizers[k] {
            NodeMatcher::Call { canonical, .. } => {
                if text_eq(callee, canonical.as_str()) || text_eq(
                    resolved.as_str(),
                    canonical.as_str(),
                ) {
                    return true;
                }
            },
            _ => {},
        }
        k = k + 1;
    }
    false
}

// ─── Contexts ────────────────────────────────────────────────────────────────
/// What the returned value of a function carries.
#[derive(Debug)]
pub struct ReturnTaintSummary {
    /// The source that the returned value comes from, whatever the arguments are.
    pub direct_source: Option<String>,
    /// The parameters whose taint reaches the returned value.
    pub params_to_return: Vec<usize>,
}

/// What a [`ReturnTaintSummary`] denotes.
#[verifier::ext_equal]
pub struct ReturnFacts {
    pub direct_source: Option<Text>,
    pub params_to_return: Seq<int>,
}

impl View for ReturnTaintSummary {
    type V = ReturnFacts;

    open spec fn view(&self) -> ReturnFacts {
        ReturnFacts {
            direct_source: opt_view(self.direct_source),
            params_to_return: ints(self.params_to_return@),
        }
    }
}

/// The return summaries of a file's functions, by name and number of parameters.
#[derive(Debug)]
pub struct ReturnSummary {
    map: TextMap<ReturnTaintSummary>,
}

impl View for ReturnSummary {
    type V = Map<Text, ReturnFacts>;

    closed spec fn view(&self) -> Map<Text, ReturnFacts> {
        Map::new(|k: Text| self.map@.contains_key(k), |k: Text| self.map@[k]@)
    }
}

impl ReturnSummary {
    /// No summaries.
    pub fn new() -> (r: Self)
        ensures
            r@ == Map::<Text, ReturnFacts>::empty(),
    {
        let r = ReturnSummary { map: TextMap::new() };
        assert(r@ =~= Map::<Text, ReturnFacts>::empty());
        r
    }

    /// Sets the summary under a key.
    pub fn insert(&mut self, key: String, summary: ReturnTaintSummary)
        ensures
            final(self)@ == old(self)@.insert(key@, summary@),
    {
        self.map.insert(key, summary);
        assert(self@ =~= old(self)@.insert(key@, summary@));
    }

    /// The summary under a key.
    pub fn get(&self, key: &str) -> (r: Option<&ReturnTaintSummary>)
        ensures
            match r {
                Some(s) => self@.contains_key(key@) && s@ == self@[key@],
                None => !self@.contains_key(key@),
            },
    {
        self.map.get(key)
    }
}

/// The rules that may report on what happens in other files.
#[derive(Debug)]
pub enum RuleFilter<'a> {
    Single(&'a str),
    Any(&'a Vec<String>),
}

impl<'a> View for RuleFilter<'a> {
    type V = Seq<Text>;

    open spec fn view(&self) -> Seq<Text> {
        match *self {
            RuleFilter::Single(id) => seq![id@],
            RuleFilter::Any(ids) => views(ids@),
        }
    }
}

impl<'a> RuleFilter<'a> {
    /// Whether a rule may report.
    pub fn allows(&self, rule: &str) -> (r: bool)
        ensures
            r == self@.contains(rule@),
    {
        match self {
            RuleFilter::Single(id) => {
                assert(self@[0] == id@);
                text_eq(id, rule)
            },
            RuleFilter::Any(ids) => has_text(ids, rule),
        }
    }
}

/// What is known of the other files of a package.
#[derive(Debug)]
pub struct CrossFileInfo<'a> {
    /// The paths of the other files.
    pub same_package_paths: &'a Vec<String>,
    /// The summaries of all files, by path.
    pub summaries: &'a CrossFileSummaryMap,
    pub rule_filter: RuleFilter<'a>,
}

/// What a [`CrossFileInfo`] denotes.
pub struct CrossFacts {
    pub paths: Seq<Text>,
    pub files: Map<Text, Vec<FunctionTaintSummary>>,
    /// The rules that may report.
    pub allowed: Seq<Text>,
}

impl CrossFacts {
    /// The summary of a function of the package.
    pub open spec fn summary(self, name: Text) -> Option<Summary> {
        summary_in(self.paths, self.files, name, 0)
    }
}

impl<'a> View for CrossFileInfo<'a> {
    type V = CrossFacts;

    open spec fn view(&self) -> CrossFacts {
        CrossFacts {
            paths: views(self.same_package_paths@),
            files: self.summaries@,
            allowed: self.rule_filter@,
        }
    }
}

/// The sinks of a rule. Without a rule id the flows into them carry no hint.
#[derive(Debug)]
pub struct SinkGroup {
    pub rule_id: Option<String>,
    pub sinks: Vec<NodeMatcher>,
}

impl View for SinkGroup {
    type V = (Option<Text>, Seq<Matcher>);

    open spec fn view(&self) -> (Option<Text>, Seq<Matcher>) {
        (opt_view(self.rule_id), views(self.sinks@))
    }
}

/// What a scope is analysed with.
#[derive(Debug)]
pub struct AnalysisContext<'a> {
    pub source: &'a str,
    /// The sources and sanitizers.
    pub spec: &'a TaintSpec,
    pub groups: &'a Vec<SinkGroup>,
    pub aliases: Option<&'a AliasTable>,
    pub summaries: &'a ReturnSummary,
    pub cross_file: Option<&'a CrossFileInfo<'a>>,
    pub label_policy: Option<&'a LabelPolicy>,
}

/// What an [`AnalysisContext`] denotes.
pub struct Facts<'a> {
    pub src: Text,
    pub sources: Seq<Matcher>,
    pub sanitizers: Seq<Matcher>,
    pub groups: Seq<(Option<Text>, Seq<Matcher>)>,
    pub aliases: Option<Map<Text, Text>>,
    pub summaries: Map<Text, ReturnFacts>,
    pub cross: Option<CrossFacts>,
    pub policy: Option<&'a LabelPolicy>,
}

impl<'a> AnalysisContext<'a> {
    /// What the context denotes.
    pub open spec fn facts(&self) -> Facts<'a> {
        Facts {
            src: self.source@,
            sources: self.spec@.sources,
            sanitizers: self.spec@.sanitizers,
            groups: views(self.groups@),
            aliases: opt_view(self.aliases),
            summaries: self.summaries@,
            cross: opt_view(self.cross_file),
            policy: self.label_policy,
        }
    }
}

// ─── Expressions ─────────────────────────────────────────────────────────────
/// The key of the summary of a function with a name and a number of parameters.
pub open spec fn summary_key(name: Text, arity: int) -> Text {
    name + "/"@ + decimal(arity)
}

/// The key of the summary of a function with a name and a number of parameters.
pub fn function_summary_key(name: &str, arity: usize) -> (r: String)
    ensures
        r@ == summary_key(name@, arity as int),
{
    concat3(name, "/", decimal_text(arity).as_str())
}

/// Whether a binary operator yields a truth value.
pub open spec fn is_predicate_operator(op: Text) -> bool {
    ||| op == "=="@
    ||| op == "!="@
    ||| op == "<"@
    ||| op == "<="@
    ||| op == ">"@
    ||| op == ">="@
    ||| op == "&&"@
    ||| op == "||"@
}

/// Whether node `i` compares its operands or joins them logically.
pub open spec fn is_comparison(t: &SyntaxTree, i: int, src: Text) -> bool {
    t.field_text(i, "operator"@, src) matches Some(op) && is_predicate_operator(op)
}

fn compares(node: Node<'_>, source: &str) -> (r: bool)
    requires
        node.valid(source@),
    ensures
        r == is_comparison(node.tree, node.index as int, source@),
{
    match node.field_text("operator", source) {
        None => false,
        Some(op) => text_eq(op, "==") || text_eq(op, "!=") || text_eq(op, "<") || text_eq(op, "<=")
            || text_eq(op, ">") || text_eq(op, ">=") || text_eq(op, "&&") || text_eq(op, "||"),
    }
}

/// A tainted value: the source and its line.
pub type Taint = (Text, int);

/// A taint that came through the function `name`.
pub open spec fn through(taint: Option<Taint>, link: Text, name: Text) -> Option<Taint> {
    match taint {
        Some(x) => Some((x.0 + link + name + ")"@, x.1)),
        None => None,
    }
}

/// The taint of the expression at node `i`.
pub open spec fn taint_of(t: &SyntaxTree, i: int, cx: Facts<'_>, st: Map<Text, Info>) -> Option<
    Taint,
>
    decreases gap(i, t.len()), 1int, 0int,
{
    if !(0 <= i < t.len()) {
        None
    } else if go_source(cx.sources, 0, t, i, cx.src, cx.aliases) is Some {
        Some((go_source(cx.sources, 0, t, i, cx.src, cx.aliases)->0, t.line(i)))
    } else if t.kind(i) == "identifier"@ {
        match lookup(st, t.text(i, cx.src)) {
            Some(info) => Some((info.description, info.line)),
            None => None,
        }
    } else if t.kind(i) == "selector_expression"@ || t.kind(i) == "index_expression"@ || t.kind(i)
        == "type_assertion_expression"@ {
        match t.field(i, "operand"@) {
            Some(k) => taint_of(t, k, cx, st),
            None => None,
        }
    } else if t.kind(i) == "binary_expression"@ {
        if is_comparison(t, i, cx.src) {
            None
        } else {
            taint_of_named(t, i + 1, t.after(i), cx, st)
        }
    } else if t.kind(i) == "type_conversion_expression"@ || t.kind(i)
        == "parenthesized_expression"@ || t.kind(i) == "unary_expression"@ || t.kind(i)
        == "keyed_element"@ {
        taint_of_named(t, i + 1, t.after(i), cx, st)
    } else if t.kind(i) == "composite_literal"@ {
        taint_of_literal(t, i + 1, t.after(i), cx, st)
    } else if t.kind(i) == "call_expression"@ {
        call_taint_of(t, i, cx, st)
    } else {
        None
    }
}

/// The taint of the value that the call at node `i` returns.
pub open spec fn call_taint_of(t: &SyntaxTree, i: int, cx: Facts<'_>, st: Map<Text, Info>) -> Option<
    Taint,
>
    decreases gap(i, t.len()), 0int, 0int,
{
    if !(0 <= i < t.len()) {
        None
    } else {
        if sanitizes(cx.sanitizers, t, i, cx.src, cx.aliases) {
            None
        } else {
            let func = t.field(i, "function"@);
            let args = t.field(i, "arguments"@);
            let named = func is Some && t.kind(func->0) == "identifier"@;
            let callee = t.text(func->0, cx.src);
            let key = summary_key(callee, t.named_children(args->0).len() as int);
            if args is Some && named && cx.summaries.contains_key(key) {
                let s = cx.summaries[key];
                match s.direct_source {
                    Some(d) => through(Some((d, t.line(i))), " (via "@, callee),
                    None => through(
                        taint_of_params(t, args->0, s.params_to_return, 0, cx, st),
                        " (via "@,
                        callee,
                    ),
                }
            } else {
                let in_args = if args is Some {
                    taint_of_named(t, args->0 + 1, t.after(args->0), cx, st)
                } else {
                    None
                };
                if in_args is Some {
                    in_args
                } else {
                    let selected = func is Some && t.kind(func->0) == "selector_expression"@;
                    let operand = t.field(func->0, "operand"@);
                    let on_receiver = if selected && operand is Some {
                        taint_of(t, operand->0, cx, st)
                    } else {
                        None
                    };
                    if on_receiver is Some {
                        on_receiver
                    } else {
                        let by_method = if selected && args is Some {
                            taint_of_method(t, i, func->0, args->0, cx, st)
                        } else {
                            None
                        };
                        if by_method is Some {
                            by_method
                        } else if named && args is Some && cx.cross is Some {
                            match cx.cross->0.summary(callee) {
                                Some(s) => through(
                                    taint_of_params(t, args->0, s.params_to_return, 0, cx, st),
                                    " (via cross-file "@,
                                    callee,
                                ),
                                None => None,
                            }
                        } else {
                            None
                        }
                    }
                }
            }
        }
    }
}

/// The taint of the first tainted one of the named siblings `c`, `after(c)`, ... before `e`.
pub open spec fn taint_of_named(
    t: &SyntaxTree,
    c: int,
    e: int,
    cx: Facts<'_>,
    st: Map<Text, Info>,
) -> Option<Taint>
    decreases gap(c, t.len()), 2int, 0int,
{
    if !(0 <= c < t.len() && c < e) {
        None
    } else if t.named(c) && taint_of(t, c, cx, st) is Some {
        taint_of(t, c, cx, st)
    } else {
        taint_of_named(t, t.after(c), e, cx, st)
    }
}

/// The taint of the first tainted element of the literal values among the siblings from `c` on.
pub open spec fn taint_of_literal(
    t: &SyntaxTree,
    c: int,
    e: int,
    cx: Facts<'_>,
    st: Map<Text, Info>,
) -> Option<Taint>
    decreases gap(c, t.len()), 3int, 0int,
{
    if !(0 <= c < t.len() && c < e) {
        None
    } else if t.kind(c) == "literal_value"@ && taint_of_named(t, c + 1, t.after(c), cx, st) is Some {
        taint_of_named(t, c + 1, t.after(c), cx, st)
    } else {
        taint_of_literal(t, t.after(c), e, cx, st)
    }
}

/// The taint of the first tainted one of the arguments at the positions `params[from..]`,
/// where `args` is the argument list.
pub open spec fn taint_of_params(
    t: &SyntaxTree,
    args: int,
    params: Seq<int>,
    from: int,
    cx: Facts<'_>,
    st: Map<Text, Info>,
) -> Option<Taint>
    decreases gap(args, t.len()), 4int, params.len() - from,
{
    if !(0 <= args < t.len()) || from < 0 || from >= params.len() {
        None
    } else {
        let p = params[from];
        let here = if 0 <= p < t.named_children(args).len() {
            taint_of(t, t.named_children(args)[p], cx, st)
        } else {
            None
        };
        if here is Some {
            here
        } else {
            taint_of_params(t, args, params, from + 1, cx, st)
        }
    }
}

/// The taint that the method called at node `i` returns, going by the summary of
/// a function of that name.
pub open spec fn taint_of_method(
    t: &SyntaxTree,
    i: int,
    func: int,
    args: int,
    cx: Facts<'_>,
    st: Map<Text, Info>,
) -> Option<Taint>
    decreases gap(args, t.len()), 5int, 0int,
{
    match t.field(func, "field"@) {
        None => None,
        Some(f) => {
            let method = t.text(f, cx.src);
            let key = summary_key(method, t.named_children(args).len() as int);
            if !cx.summaries.contains_key(key) {
                None
            } else {
                let s = cx.summaries[key];
                match s.direct_source {
                    Some(d) => through(Some((d, t.line(i))), " (via "@, method),
                    None => through(
                        taint_of_params(t, args, s.params_to_return, 0, cx, st),
                        " (via "@,
                        method,
                    ),
                }
            }
        },
    }
}

/// What a taint denotes.
pub open spec fn taint_view(o: Option<(String, usize)>) -> Option<Taint> {
    match o {
        Some(x) => Some((x.0@, x.1 as int)),
        None => None,
    }
}

fn routed(taint: Option<(String, usize)>, link: &str, name: &str) -> (r: Option<(String, usize)>)
    ensures
        taint_view(r) == through(taint_view(taint), link@, name@),
{
    match taint {
        None => None,
        Some((d, line)) => {
            let mut s = concat3(d.as_str(), link, name);
            crate::text::append(&mut s, ")");
            Some((s, line))
        },
    }
}

fn call_summary_key(name: &str, args: Node<'_>) -> (r: String)
    requires
        args.wf(),
    ensures
        r@ == summary_key(
            name@,
            args.tree.named_children(args.index as int).len() as int,
        ),
{
    let all = args.named_children();
    assert(indices(all@).len() == all@.len());
    function_summary_key(name, all.len())
}

/// The taint of an expression: the source that it comes from, and its line.
pub fn expression_taint(expr: Node<'_>, ctx: &AnalysisContext<'_>, state: &TaintState) -> (r: Option<
    (String, usize),
>)
    requires
        expr.valid(ctx.source@),
    ensures
        taint_view(r) == taint_of(expr.tree, expr.index as int, ctx.facts(), state@),
    decreases expr.tree.len() - expr.index, 1int, 0int,
{
    match match_source(expr, ctx.source, ctx.spec, ctx.aliases) {
        Some(d) => {
            return Some((d, expr.line()));
        },
        None => {},
    }
    if expr.is_kind("identifier") {
        return match state.info(expr.text(ctx.source)) {
            Some(info) => Some((info.description.clone(), info.line)),
            None => None,
        };
    }
    if expr.is_kind("selector_expression") || expr.is_kind("index_expression") || expr.is_kind(
        "type_assertion_expression",
    ) {
        return match expr.child_by_field_name("operand") {
            Some(k) => expression_taint(k, ctx, state),
            None => None,
        };
    }
    if expr.is_kind("binary_expression") {
        if compares(expr, ctx.source) {
            return None;
        }
        return named_child_taint(expr, ctx, state);
    }
    if expr.is_kind("type_conversion_expression") || expr.is_kind("parenthesized_expression")
        || expr.is_kind("unary_expression") || expr.is_kind("keyed_element") {
        return named_child_taint(expr, ctx, state);
    }
    if expr.is_kind("composite_literal") {
        return literal_taint(expr, ctx, state);
    }
    if expr.is_kind("call_expression") {
        return call_taint(expr, ctx, state);
    }
    None
}

fn named_child_taint(expr: Node<'_>, ctx: &AnalysisContext<'_>, state: &TaintState) -> (r: Option<
    (String, usize),
>)
    requires
        expr.valid(ctx.source@),
    ensures
        taint_view(r) == taint_of_named(
            expr.tree,
            expr.index + 1,
            expr.tree.after(expr.index as int),
            ctx.facts(),
            state@,
        ),
    decreases expr.tree.len() - expr.index, 0int, 0int,
{
    let e: usize = expr.end();
    let mut c: usize = expr.index + 1;
    while c < e
        invariant
            expr.valid(ctx.source@),
            expr.index < c,
            e == expr.tree.after(expr.index as int),
            e <= expr.tree.len(),
            taint_of_named(expr.tree, expr.index + 1, e as int, ctx.facts(), state@)
                == taint_of_named(expr.tree, c as int, e as int, ctx.facts(), state@),
        decreases gap(c as int, e as int),
    {
        let n = expr.at(c);
        if n.is_named() {
            let got = expression_taint(n, ctx, state);
            if got.is_some() {
                return got;
            }
        }
        c = n.end();
    }
    None
}

fn literal_taint(expr: Node<'_>, ctx: &AnalysisContext<'_>, state: &TaintState) -> (r: Option<
    (String, usize),
>)
    requires
        expr.valid(ctx.source@),
    ensures
        taint_view(r) == taint_of_literal(
            expr.tree,
            expr.index + 1,
            expr.tree.after(expr.index as int),
            ctx.facts(),
            state@,
        ),
    decreases expr.tree.len() - expr.index, 0int, 0int,
{
    let e: usize = expr.end();
    let mut c: usize = expr.index + 1;
    while c < e
        invariant
            expr.valid(ctx.source@),
            expr.index < c,
            e == expr.tree.after(expr.index as int),
            e <= expr.tree.len(),
            taint_of_literal(expr.tree, expr.index + 1, e as int, ctx.facts(), state@)
                == taint_of_literal(expr.tree, c as int, e as int, ctx.facts(), state@),
        decreases gap(c as int, e as int),
    {
        let n = expr.at(c);
        if n.is_kind("literal_value") {
            let got = named_child_taint(n, ctx, state);
            if got.is_some() {
                return got;
            }
        }
        c = n.end();
    }
    None
}

fn params_taint(
    args: Node<'_>,
    params: &Vec<usize>,
    ctx: &AnalysisContext<'_>,
    state: &TaintState,
) -> (r: Option<(String, usize)>)
    requires
        args.valid(ctx.source@),
    ensures
        taint_view(r) == taint_of_params(
            args.tree,
            args.index as int,
            ints(params@),
            0,
            ctx.facts(),
            state@,
        ),
    decreases args.tree.len() - args.index, 0int, 0int,
{
    let all = args.named_children();
    let mut k: usize = 0;
    while k < params.len()
        invariant
            args.valid(ctx.source@),
            k <= params@.len(),
            indices(all@) == args.tree.named_children(args.index as int),
            forall|j: int| #![trigger all@[j]]
                0 <= j < all@.len() ==> all@[j].tree == args.tree && all@[j].wf() && all@[j].index
                    > args.index,
            taint_of_params(args.tree, args.index as int, ints(params@), 0, ctx.facts(), state@)
                == taint_of_params(
                args.tree,
                args.index as int,
                ints(params@),
                k as int,
                ctx.facts(),
                state@,
            ),
        decreases params.len() - k,
    {
        let p: usize = params[k];
        assert(ints(params@)[k as int] == p);
        if p < all.len() {
            assert(indices(all@)[p as int] == all@[p as int].index);
            let got = expression_taint(all[p], ctx, state);
            if got.is_some() {
                return got;
            }
        }
        k = k + 1;
    }
    None
}

fn summary_taint(
    summary: &ReturnTaintSummary,
    name: &str,
    line: usize,
    args: Node<'_>,
    ctx: &AnalysisContext<'_>,
    state: &TaintState,
) -> (r: Option<(String, usize)>)
    requires
        args.valid(ctx.source@),
    ensures
        taint_view(r) == match summary@.direct_source {
            Some(d) => through(Some((d, line as int)), " (via "@, name@),
            None => through(
                taint_of_params(
                    args.tree,
                    args.index as int,
                    summary@.params_to_return,
                    0,
                    ctx.facts(),
                    state@,
                ),
                " (via "@,
                name@,
            ),
        },
    decreases args.tree.len() - args.index, 1int, 0int,
{
    match &summary.direct_source {
        Some(d) => routed(Some((d.clone(), line)), " (via ", name),
        None => routed(params_taint(args, &summary.params_to_return, ctx, state), " (via ", name),
    }
}

fn method_taint(
    expr: Node<'_>,
    func: Node<'_>,
    args: Node<'_>,
    ctx: &AnalysisContext<'_>,
    state: &TaintState,
) -> (r: Option<(String, usize)>)
    requires
        expr.wf(),
        func.valid(ctx.source@),
        args.valid(ctx.source@),
        func.tree == expr.tree,
        args.tree == expr.tree,
    ensures
        taint_view(r) == taint_of_method(
            expr.tree,
            expr.index as int,
            func.index as int,
            args.index as int,
            ctx.facts(),
            state@,
        ),
    decreases args.tree.len() - args.index, 2int, 0int,
{
    match func.child_by_field_name("field") {
        None => None,
        Some(m) => {
            let method = m.text(ctx.source);
            match ctx.summaries.get(call_summary_key(method, args).as_str()) {
                Some(summary) => summary_taint(summary, method, expr.line(), args, ctx, state),
                None => None,
            }
        },
    }
}

fn call_taint(expr: Node<'_>, ctx: &AnalysisContext<'_>, state: &TaintState) -> (r: Option<
    (String, usize),
>)
    requires
        expr.valid(ctx.source@),
    ensures
        taint_view(r) == call_taint_of(expr.tree, expr.index as int, ctx.facts(), state@),
    decreases expr.tree.len() - expr.index, 0int, 0int,
{
    if is_sanitizer_call(expr, ctx.source, ctx.spec, ctx.aliases) {
        return None;
    }
    let func = expr.child_by_field_name("function");
    let args = expr.child_by_field_name("arguments");
    let named = match func {
        Some(f) => f.is_kind("identifier"),
        None => false,
    };
    match (func, args) {
        (Some(f), Some(a)) => {
            if named {
                let callee = f.text(ctx.source);
                match ctx.summaries.get(call_summary_key(callee, a).as_str()) {
                    Some(summary) => {
                        return summary_taint(summary, callee, expr.line(), a, ctx, state);
                    },
                    None => {},
                }
            }
        },
        _ => {},
    }
    match args {
        Some(a) => {
            let got = named_child_taint(a, ctx, state);
            if got.is_some() {
                return got;
            }
        },
        None => {},
    }
    match func {
        None => None,
        Some(f) => {
            if f.is_kind("selector_expression") {
                match f.child_by_field_name("operand") {
                    Some(o) => {
                        let got = expression_taint(o, ctx, state);
                        if got.is_some() {
                            return got;
                        }
                    },
                    None => {},
                }
                match args {
                    Some(a) => {
                        let got = method_taint(expr, f, a, ctx, state);
                        if got.is_some() {
                            return got;
                        }
                    },
                    None => {},
                }
            }
            if named {
                match (args, ctx.cross_file) {
                    (Some(a), Some(cross)) => {
                        let callee = f.text(ctx.source);
                        match lookup_cross_file_summary(
                            cross.same_package_paths,
                            cross.summaries,
                            callee,
                        ) {
                            Some(s) => routed(
                                params_taint(a, &s.params_to_return, ctx, state),
                                " (via cross-file ",
                                callee,
                            ),
                            None => None,
                        }
                    },
                    _ => None,
                }
            } else {
                None
            }
        },
    }
}

// ─── Labels ──────────────────────────────────────────────────────────────────
/// Whether node `i` joins its operands with `+`.
pub open spec fn is_concat(t: &SyntaxTree, i: int, src: Text) -> bool {
    t.field_text(i, "operator"@, src) == Some("+"@)
}

fn go_binop_is_concat(node: Node<'_>, source: &str) -> (r: bool)
    requires
        node.valid(source@),
    ensures
        r == is_concat(node.tree, node.index as int, source@),
{
    text_is(node.field_text("operator", source), "+")
}

/// Whether a string literal is an operand of the chain of `+` at node `i`.
pub open spec fn has_string_operand(t: &SyntaxTree, i: int, src: Text) -> bool
    decreases gap(i, t.len()),
{
    if !(0 <= i < t.len()) {
        false
    } else if t.kind(i) == "interpreted_string_literal"@ || t.kind(i) == "raw_string_literal"@ {
        true
    } else if t.kind(i) == "binary_expression"@ {
        &&& is_concat(t, i, src)
        &&& {
            ||| t.field(i, "left"@) is Some && has_string_operand(t, t.field(i, "left"@)->0, src)
            ||| t.field(i, "right"@) is Some && has_string_operand(t, t.field(i, "right"@)->0, src)
        }
    } else if t.kind(i) == "parenthesized_expression"@ {
        t.first_named(i) is Some && has_string_operand(t, t.first_named(i)->0, src)
    } else {
        false
    }
}

fn go_binop_has_string_literal_operand(node: Node<'_>, source: &str) -> (r: bool)
    requires
        node.valid(source@),
    ensures
        r == has_string_operand(node.tree, node.index as int, source@),
    decreases node.tree.len() - node.index,
{
    if node.is_kind("interpreted_string_literal") || node.is_kind("raw_string_literal") {
        true
    } else if node.is_kind("binary_expression") {
        if !go_binop_is_concat(node, source) {
            return false;
        }
        let left = match node.child_by_field_name("left") {
            Some(n) => go_binop_has_string_literal_operand(n, source),
            None => false,
        };
        if left {
            return true;
        }
        match node.child_by_field_name("right") {
            Some(n) => go_binop_has_string_literal_operand(n, source),
            None => false,
        }
    } else if node.is_kind("parenthesized_expression") {
        match node.first_named_child() {
            Some(n) => go_binop_has_string_literal_operand(n, source),
            None => false,
        }
    } else {
        false
    }
}

/// Whether a callee is one of the `fmt` functions that build a string.
pub open spec fn is_format_function(callee: Text) -> bool {
    ||| callee == "fmt.Sprintf"@
    ||| callee == "fmt.Fprintf"@
    ||| callee == "fmt.Printf"@
    ||| callee == "fmt.Sprint"@
    ||| callee == "fmt.Sprintln"@
}

/// Whether a string is built at node `i`.
pub open spec fn builds_string(t: &SyntaxTree, i: int, cx: Facts<'_>) -> bool {
    if t.kind(i) == "binary_expression"@ {
        is_concat(t, i, cx.src) && has_string_operand(t, i, cx.src)
    } else if t.kind(i) == "call_expression"@ {
        t.field_text(i, "function"@, cx.src) matches Some(callee) && is_format_function(
            resolved_in(cx.aliases, callee),
        )
    } else {
        false
    }
}

fn go_is_string_building_node(node: Node<'_>, ctx: &AnalysisContext<'_>) -> (r: bool)
    requires
        node.valid(ctx.source@),
    ensures
        r == builds_string(node.tree, node.index as int, ctx.facts()),
{
    if node.is_kind("binary_expression") {
        go_binop_is_concat(node, ctx.source) && go_binop_has_string_literal_operand(
            node,
            ctx.source,
        )
    } else if node.is_kind("call_expression") {
        match node.field_text("function", ctx.source) {
            None => false,
            Some(callee) => {
                let resolved = resolve_callee(ctx.aliases, callee);
                let c = resolved.as_str();
                text_eq(c, "fmt.Sprintf") || text_eq(c, "fmt.Fprintf") || text_eq(c, "fmt.Printf")
                    || text_eq(c, "fmt.Sprint") || text_eq(c, "fmt.Sprintln")
            },
        }
    } else {
        false
    }
}

/// The labels of a fresh source.
pub open spec fn primary_labels(policy: &LabelPolicy) -> Set<Text> {
    Set::<Text>::empty().insert(policy.source_label@)
}

fn primary_label_set(policy: &LabelPolicy) -> (r: LabelSet)
    ensures
        r@ == primary_labels(policy),
{
    let mut set = LabelSet::new();
    set.insert(policy.source_label.clone());
    set
}

/// The labels of the expression at node `i`, where they are known.
pub open spec fn labels_of(
    t: &SyntaxTree,
    i: int,
    cx: Facts<'_>,
    st: Map<Text, Info>,
    policy: &LabelPolicy,
) -> Option<Set<Text>>
    decreases gap(i, t.len()), 1int,
{
    match labels_within(t, i, cx, st, policy) {
        None => None,
        Some(base) => Some(
            if builds_string(t, i, cx) {
                relabel_set(base, views(policy.relabels@))
            } else {
                base
            },
        ),
    }
}

/// The labels that the expression at node `i` has from its parts.
pub open spec fn labels_within(
    t: &SyntaxTree,
    i: int,
    cx: Facts<'_>,
    st: Map<Text, Info>,
    policy: &LabelPolicy,
) -> Option<Set<Text>>
    decreases gap(i, t.len()), 0int,
{
    if !(0 <= i < t.len()) {
        None
    } else if go_source(cx.sources, 0, t, i, cx.src, cx.aliases) is Some {
        Some(primary_labels(policy))
    } else if t.kind(i) == "identifier"@ {
        match lookup(st, t.text(i, cx.src)) {
            Some(info) => Some(
                match info.labels {
                    Some(l) => l,
                    None => primary_labels(policy),
                },
            ),
            None => None,
        }
    } else if (t.kind(i) == "selector_expression"@ || t.kind(i) == "index_expression"@ || t.kind(i)
        == "type_assertion_expression"@) && t.field(i, "operand"@) is Some {
        labels_of(t, t.field(i, "operand"@)->0, cx, st, policy)
    } else if t.kind(i) == "binary_expression"@ || t.kind(i) == "parenthesized_expression"@
        || t.kind(i) == "unary_expression"@ {
        labels_of_named(t, i + 1, t.after(i), cx, st, policy)
    } else if t.kind(i) == "call_expression"@ {
        let args = t.field(i, "arguments"@);
        let func = t.field(i, "function"@);
        if sanitizes(cx.sanitizers, t, i, cx.src, cx.aliases) {
            None
        } else if args is Some && labels_of_named(
            t,
            args->0 + 1,
            t.after(args->0),
            cx,
            st,
            policy,
        ) is Some {
            labels_of_named(t, args->0 + 1, t.after(args->0), cx, st, policy)
        } else if func is Some && t.kind(func->0) == "selector_expression"@ && t.field(
            func->0,
            "operand"@,
        ) is Some {
            labels_of(t, t.field(func->0, "operand"@)->0, cx, st, policy)
        } else {
            None
        }
    } else {
        None
    }
}

/// The labels of the first of the named siblings from `c` on whose labels are known.
pub open spec fn labels_of_named(
    t: &SyntaxTree,
    c: int,
    e: int,
    cx: Facts<'_>,
    st: Map<Text, Info>,
    policy: &LabelPolicy,
) -> Option<Set<Text>>
    decreases gap(c, t.len()), 2int,
{
    if !(0 <= c < t.len() && c < e) {
        None
    } else if t.named(c) && labels_of(t, c, cx, st, policy) is Some {
        labels_of(t, c, cx, st, policy)
    } else {
        labels_of_named(t, t.after(c), e, cx, st, policy)
    }
}

/// The labels of an expression, where they are known.
pub fn expression_labels(
    expr: Node<'_>,
    ctx: &AnalysisContext<'_>,
    state: &TaintState,
    policy: &LabelPolicy,
) -> (r: Option<LabelSet>)
    requires
        expr.valid(ctx.source@),
    ensures
        opt_view(r) == labels_of(expr.tree, expr.index as int, ctx.facts(), state@, policy),
    decreases expr.tree.len() - expr.index, 2int,
{
    match expression_labels_core(expr, ctx, state, policy) {
        None => None,
        Some(base) => {
            if go_is_string_building_node(expr, ctx) {
                Some(relabel(base, &policy.relabels))
            } else {
                Some(base)
            }
        },
    }
}

fn expression_labels_core(
    expr: Node<'_>,
    ctx: &AnalysisContext<'_>,
    state: &TaintState,
    policy: &LabelPolicy,
) -> (r: Option<LabelSet>)
    requires
        expr.valid(ctx.source@),
    ensures
        opt_view(r) == labels_within(expr.tree, expr.index as int, ctx.facts(), state@, policy),
    decreases expr.tree.len() - expr.index, 1int,
{
    if match_source(expr, ctx.source, ctx.spec, ctx.aliases).is_some() {
        return Some(primary_label_set(policy));
    }
    if expr.is_kind("identifier") {
        return match state.info(expr.text(ctx.source)) {
            Some(info) => match &info.labels {
                Some(l) => Some(l.clone()),
                None => Some(primary_label_set(policy)),
            },
            None => None,
        };
    }
    if expr.is_kind("selector_expression") || expr.is_kind("index_expression") || expr.is_kind(
        "type_assertion_expression",
    ) {
        match expr.child_by_field_name("operand") {
            Some(k) => {
                return expression_labels(k, ctx, state, policy);
            },
            None => {},
        }
    }
    if expr.is_kind("binary_expression") || expr.is_kind("parenthesized_expression")
        || expr.is_kind("unary_expression") {
        return named_child_labels(expr, ctx, state, policy);
    }
    if expr.is_kind("call_expression") {
        if is_sanitizer_call(expr, ctx.source, ctx.spec, ctx.aliases) {
            return None;
        }
        match expr.child_by_field_name("arguments") {
            Some(a) => {
                let got = named_child_labels(a, ctx, state, policy);
                if got.is_some() {
                    return got;
                }
            },
            None => {},
        }
        match expr.child_by_field_name("function") {
            Some(f) => {
                if f.is_kind("selector_expression") {
                    match f.child_by_field_name("operand") {
                        Some(o) => {
                            return expression_labels(o, ctx, state, policy);
                        },
                        None => {},
                    }
                }
            },
            None => {},
        }
    }
    None
}

fn named_child_labels(
    expr: Node<'_>,
    ctx: &AnalysisContext<'_>,
    state: &TaintState,
    policy: &LabelPolicy,
) -> (r: Option<LabelSet>)
    requires
        expr.valid(ctx.source@),
    ensures
        opt_view(r) == labels_of_named(
            expr.tree,
            expr.index + 1,
            expr.tree.after(expr.index as int),
            ctx.facts(),
            state@,
            policy,
        ),
    decreases expr.tree.len() - expr.index, 0int,
{
    let e: usize = expr.end();
    let mut c: usize = expr.index + 1;
    while c < e
        invariant
            expr.valid(ctx.source@),
            expr.index < c,
            e == expr.tree.after(expr.index as int),
            e <= expr.tree.len(),
            labels_of_named(expr.tree, expr.index + 1, e as int, ctx.facts(), state@, policy)
                == labels_of_named(expr.tree, c as int, e as int, ctx.facts(), state@, policy),
        decreases gap(c as int, e as int),
    {
        let n = expr.at(c);
        if n.is_named() {
            let got = expression_labels(n, ctx, state, policy);
            if got.is_some() {
                return got;
            }
        }
        c = n.end();
    }
    None
}

/// Whether the labels of the expression at node `i` meet what a sink requires.
pub open spec fn labels_suffice(
    t: &SyntaxTree,
    i: int,
    cx: Facts<'_>,
    st: Map<Text, Info>,
) -> bool {
    match cx.policy {
        None => true,
        Some(p) => p.sink_requires.holds(
            match labels_of(t, i, cx, st, p) {
                Some(l) => l,
                None => Set::empty(),
            },
        ),
    }
}

fn sink_labels_satisfied(arg: Node<'_>, ctx: &AnalysisContext<'_>, state: &TaintState) -> (r: bool)
    requires
        arg.valid(ctx.source@),
    ensures
        r == labels_suffice(arg.tree, arg.index as int, ctx.facts(), state@),
{
    match ctx.label_policy {
        None => true,
        Some(p) => {
            match expression_labels(arg, ctx, state, p) {
                Some(l) => p.sink_requires.eval(&l),
                None => p.sink_requires.eval(&LabelSet::new()),
            }
        },
    }
}

// ─── Assignments ─────────────────────────────────────────────────────────────
/// What is known of the value of the expression at node `i`, where it is tainted.
pub open spec fn value_of(t: &SyntaxTree, i: int, cx: Facts<'_>, st: Map<Text, Info>) -> Option<
    Info,
> {
    match taint_of(t, i, cx, st) {
        None => None,
        Some(x) => Some(
            Info {
                description: x.0,
                line: x.1,
                hops: 0,
                labels: match cx.policy {
                    Some(p) => labels_of(t, i, cx, st, p),
                    None => None,
                },
            },
        ),
    }
}

fn expression_value(expr: Node<'_>, ctx: &AnalysisContext<'_>, state: &TaintState) -> (r: Option<
    TaintInfo,
>)
    requires
        expr.valid(ctx.source@),
    ensures
        opt_view(r) == value_of(expr.tree, expr.index as int, ctx.facts(), state@),
{
    match expression_taint(expr, ctx, state) {
        None => None,
        Some((description, line)) => {
            let labels = match ctx.label_policy {
                Some(p) => expression_labels(expr, ctx, state, p),
                None => None,
            };
            Some(TaintInfo { description, line, hops: 0, labels })
        },
    }
}

/// The state after a variable was given a value: tainted, or clean.
pub open spec fn assigned(st: Map<Text, Info>, name: Text, value: Option<Info>) -> Map<Text, Info> {
    match value {
        Some(v) => st.insert(name, v),
        None => st.remove(name),
    }
}

fn assign(state: &mut TaintState, name: &str, value: Option<TaintInfo>)
    ensures
        final(state)@ == assigned(old(state)@, name@, opt_view(value)),
{
    match value {
        Some(v) => state.taint(name.to_owned(), v),
        None => state.clear(name),
    }
}

/// The state `now` after the names from `from` on were given, one by one, the
/// values that the expressions have in the state `st`.
pub open spec fn assign_each(
    t: &SyntaxTree,
    names: Seq<Text>,
    exprs: Seq<int>,
    from: int,
    cx: Facts<'_>,
    st: Map<Text, Info>,
    now: Map<Text, Info>,
) -> Map<Text, Info>
    decreases names.len() - from,
{
    if from < 0 || from >= names.len() {
        now
    } else {
        assign_each(
            t,
            names,
            exprs,
            from + 1,
            cx,
            st,
            assigned(now, names[from], value_of(t, exprs[from], cx, st)),
        )
    }
}

/// What is known of the first tainted one of the expressions from `from` on.
pub open spec fn first_value(
    t: &SyntaxTree,
    exprs: Seq<int>,
    from: int,
    cx: Facts<'_>,
    st: Map<Text, Info>,
) -> Option<Info>
    decreases exprs.len() - from,
{
    if from < 0 || from >= exprs.len() {
        None
    } else if value_of(t, exprs[from], cx, st) is Some {
        value_of(t, exprs[from], cx, st)
    } else {
        first_value(t, exprs, from + 1, cx, st)
    }
}

/// The state after all names from `from` on were given one value.
pub open spec fn assign_all(
    names: Seq<Text>,
    from: int,
    value: Option<Info>,
    now: Map<Text, Info>,
) -> Map<Text, Info>
    decreases names.len() - from,
{
    if from < 0 || from >= names.len() {
        now
    } else {
        assign_all(names, from + 1, value, assigned(now, names[from], value))
    }
}

/// The state after an assignment of the expressions to the names. Where there are
/// as many of both they are paired. Else every name gets the value of the first
/// tainted expression.
pub open spec fn assign_lists(
    t: &SyntaxTree,
    names: Seq<Text>,
    exprs: Seq<int>,
    cx: Facts<'_>,
    st: Map<Text, Info>,
) -> Map<Text, Info> {
    if names.len() == exprs.len() {
        assign_each(t, names, exprs, 0, cx, st, st)
    } else {
        assign_all(names, 0, first_value(t, exprs, 0, cx, st), st)
    }
}

#[verifier::loop_isolation(false)]
fn apply_multi_assign_semantics(
    names: &Vec<&str>,
    exprs: &Vec<Node<'_>>,
    tree: &SyntaxTree,
    ctx: &AnalysisContext<'_>,
    state: &mut TaintState,
)
    requires
        forall|k: int| #![trigger exprs@[k]]
            0 <= k < exprs@.len() ==> exprs@[k].tree == tree && exprs@[k].valid(ctx.source@),
    ensures
        final(state)@ == assign_lists(
            tree,
            views(names@),
            indices(exprs@),
            ctx.facts(),
            old(state)@,
        ),
{
    let ghost st = state@;
    let ghost cx = ctx.facts();
    let ghost all = views(names@);
    let ghost at = indices(exprs@);
    let n: usize = names.len();
    assert(at.len() == exprs@.len());
    if n == exprs.len() {
        let mut values: Vec<Option<TaintInfo>> = Vec::new();
        let mut k: usize = 0;
        while k < n
            invariant
                k <= n,
                state@ == st,
                values@.len() == k,
                forall|j: int| #![trigger values@[j]]
                    0 <= j < k ==> opt_view(values@[j]) == value_of(tree, at[j], cx, st),
            decreases n - k,
        {
            values.push(expression_value(exprs[k], ctx, state));
            k = k + 1;
        }
        let mut j: usize = 0;
        while j < n
            invariant
                j <= n,
                values@.len() == n,
                forall|m: int| #![trigger values@[m]]
                    0 <= m < n ==> opt_view(values@[m]) == value_of(tree, at[m], cx, st),
                assign_each(tree, all, at, 0, cx, st, st) == assign_each(
                    tree,
                    all,
                    at,
                    j as int,
                    cx,
                    st,
                    state@,
                ),
            decreases n - j,
        {
            assert(all[j as int] == names@[j as int]@);
            let v = match &values[j] {
                Some(info) => Some(info.clone()),
                None => None,
            };
            assign(state, names[j], v);
            j = j + 1;
        }
        return;
    }
    let mut found: Option<TaintInfo> = None;
    let mut k: usize = 0;
    while k < exprs.len() && found.is_none()
        invariant
            k <= exprs@.len(),
            state@ == st,
            match found {
                Some(f) => first_value(tree, at, 0, cx, st) == Some(f@),
                None => first_value(tree, at, 0, cx, st) == first_value(
                    tree,
                    at,
                    k as int,
                    cx,
                    st,
                ),
            },
        decreases exprs.len() - k,
    {
        found = expression_value(exprs[k], ctx, state);
        k = k + 1;
    }
    let ghost value = first_value(tree, at, 0, cx, st);
    assert(opt_view(found) == value);
    let mut j: usize = 0;
    while j < n
        invariant
            j <= n,
            opt_view(found) == value,
            assign_all(all, 0, value, st) == assign_all(all, j as int, value, state@),
        decreases n - j,
    {
        assert(all[j as int] == names@[j as int]@);
        let v = match &found {
            Some(info) => Some(info.clone()),
            None => None,
        };
        assign(state, names[j], v);
        j = j + 1;
    }
}

/// The names of the identifiers among the siblings from `c` on.
pub open spec fn identifiers_from(t: &SyntaxTree, c: int, e: int, src: Text) -> Seq<Text>
    decreases gap(c, e),
{
    if c >= e {
        Seq::empty()
    } else if t.kind(c) == "identifier"@ {
        seq![t.text(c, src)] + identifiers_from(t, t.after(c), e, src)
    } else {
        identifiers_from(t, t.after(c), e, src)
    }
}

/// The names of the identifiers among the children of node `i`.
pub open spec fn identifiers_in(t: &SyntaxTree, i: int, src: Text) -> Seq<Text> {
    identifiers_from(t, i + 1, t.after(i), src)
}

fn collect_identifiers<'a>(node: Node<'_>, source: &'a str) -> (r: Vec<&'a str>)
    requires
        node.valid(source@),
    ensures
        views(r@) == identifiers_in(node.tree, node.index as int, source@),
{
    let e: usize = node.end();
    let mut out: Vec<&'a str> = Vec::new();
    let mut c: usize = node.index + 1;
    let ghost all = identifiers_in(node.tree, node.index as int, source@);
    assert(views(out@) + all =~= all);
    while c < e
        invariant
            node.valid(source@),
            e <= node.tree.len(),
            views(out@) + identifiers_from(node.tree, c as int, e as int, source@) == all,
        decreases gap(c as int, e as int),
    {
        let n = node.at(c);
        if n.is_kind("identifier") {
            let ghost before = views(out@);
            out.push(n.text(source));
            proof {
                let rest = identifiers_from(
                    node.tree,
                    node.tree.after(c as int),
                    e as int,
                    source@,
                );
                assert(views(out@) + rest =~= before + identifiers_from(
                    node.tree,
                    c as int,
                    e as int,
                    source@,
                ));
            }
        }
        c = n.end();
    }
    proof {
        assert(views(out@) + identifiers_from(node.tree, c as int, e as int, source@) =~= views(
            out@,
        ));
    }
    out
}

/// A Go type without the pointers in front of it.
pub open spec fn pointed_to(ty: Text) -> Text {
    let s = crate::text::trimmed(ty);
    crate::text::trimmed(s.skip(crate::text::skip_two(s, '*', '*', 0)))
}

/// A Go type without the pointers in front of it. The package stays.
pub fn normalize_go_type(ty: &str) -> (r: &str)
    ensures
        r@ == pointed_to(ty@),
{
    let s = crate::text::trim(ty);
    crate::text::trim(crate::text::skip_leading(s, '*'))
}

/// The description of the first source from `from` on that is a variable of this type.
pub open spec fn typed_source(sources: Seq<Matcher>, from: int, ty: Text) -> Option<Text>
    decreases sources.len() - from,
{
    if from < 0 || from >= sources.len() {
        None
    } else if sources[from] is TypedName && pointed_to(sources[from]->TypedName_declared)
        == pointed_to(ty) {
        Some(sources[from].description())
    } else {
        typed_source(sources, from + 1, ty)
    }
}

/// The description of the first source that is a variable of this type.
pub fn go_typed_source_description(spec: &TaintSpec, decl_type: &str) -> (r: Option<String>)
    ensures
        opt_view(r) == typed_source(spec@.sources, 0, decl_type@),
{
    let want = normalize_go_type(decl_type);
    let mut k: usize = 0;
    while k < spec.sources.len()
        invariant
            k <= spec.sources@.len(),
            want@ == pointed_to(decl_type@),
            typed_source(spec@.sources, 0, decl_type@) == typed_source(
                spec@.sources,
                k as int,
                decl_type@,
            ),
        decreases spec.sources.len() - k,
    {
        assert(spec@.sources[k as int] == spec.sources@[k as int]@);
        match &spec.sources[k] {
            NodeMatcher::TypedName { declared, description } => {
                if text_eq(normalize_go_type(declared.as_str()), want) {
                    return Some(description.clone());
                }
            },
            _ => {},
        }
        k = k + 1;
    }
    None
}

/// The description of the source that node `i` is by its declared type.
pub open spec fn declared_source(t: &SyntaxTree, i: int, cx: Facts<'_>) -> Option<Text> {
    match t.field_text(i, "type"@, cx.src) {
        Some(ty) => typed_source(cx.sources, 0, ty),
        None => None,
    }
}

fn declared_source_of(node: Node<'_>, ctx: &AnalysisContext<'_>) -> (r: Option<String>)
    requires
        node.valid(ctx.source@),
    ensures
        opt_view(r) == declared_source(node.tree, node.index as int, ctx.facts()),
{
    match node.field_text("type", ctx.source) {
        Some(ty) => go_typed_source_description(ctx.spec, ty),
        None => None,
    }
}

/// A fresh source at node `i`.
pub open spec fn fresh(t: &SyntaxTree, i: int, description: Text, cx: Facts<'_>) -> Info {
    Info { description, line: t.line(i), hops: 0, labels: source_labels_spec(cx.policy) }
}

fn fresh_source(node: Node<'_>, description: String, ctx: &AnalysisContext<'_>) -> (r: TaintInfo)
    requires
        node.wf(),
    ensures
        r@ == fresh(node.tree, node.index as int, description@, ctx.facts()),
{
    TaintInfo { description, line: node.line(), hops: 0, labels: source_labels(ctx.label_policy) }
}

/// The state after the identifiers among the siblings from `c` on became sources.
pub open spec fn seed_identifiers(
    t: &SyntaxTree,
    c: int,
    e: int,
    description: Text,
    cx: Facts<'_>,
    st: Map<Text, Info>,
) -> Map<Text, Info>
    decreases gap(c, e),
{
    if c >= e {
        st
    } else {
        seed_identifiers(
            t,
            t.after(c),
            e,
            description,
            cx,
            if t.kind(c) == "identifier"@ {
                st.insert(t.text(c, cx.src), fresh(t, c, description, cx))
            } else {
                st
            },
        )
    }
}

fn taint_identifiers(
    node: Node<'_>,
    description: &str,
    ctx: &AnalysisContext<'_>,
    state: &mut TaintState,
)
    requires
        node.valid(ctx.source@),
    ensures
        final(state)@ == seed_identifiers(
            node.tree,
            node.index + 1,
            node.tree.after(node.index as int),
            description@,
            ctx.facts(),
            old(state)@,
        ),
{
    let e: usize = node.end();
    let mut c: usize = node.index + 1;
    while c < e
        invariant
            node.valid(ctx.source@),
            e == node.tree.after(node.index as int),
            e <= node.tree.len(),
            seed_identifiers(
                node.tree,
                node.index + 1,
                e as int,
                description@,
                ctx.facts(),
                old(state)@,
            ) == seed_identifiers(
                node.tree,
                c as int,
                e as int,
                description@,
                ctx.facts(),
                state@,
            ),
        decreases gap(c as int, e as int),
    {
        let n = node.at(c);
        if n.is_kind("identifier") {
            state.taint(
                n.text(ctx.source).to_owned(),
                fresh_source(n, description.to_owned(), ctx),
            );
        }
        c = n.end();
    }
}

/// The state after a `var` declaration at node `i`.
pub open spec fn after_var_spec(
    t: &SyntaxTree,
    i: int,
    cx: Facts<'_>,
    st: Map<Text, Info>,
) -> Map<Text, Info> {
    match t.field(i, "value"@) {
        None => match declared_source(t, i, cx) {
            Some(d) => seed_identifiers(t, i + 1, t.after(i), d, cx, st),
            None => st,
        },
        Some(v) => if identifiers_in(t, i, cx.src).len() == 0 {
            st
        } else {
            assign_lists(t, identifiers_in(t, i, cx.src), t.named_children(v), cx, st)
        },
    }
}

fn handle_var_spec(node: Node<'_>, ctx: &AnalysisContext<'_>, state: &mut TaintState)
    requires
        node.valid(ctx.source@),
    ensures
        final(state)@ == after_var_spec(node.tree, node.index as int, ctx.facts(), old(state)@),
{
    match node.child_by_field_name("value") {
        None => {
            match declared_source_of(node, ctx) {
                Some(d) => taint_identifiers(node, d.as_str(), ctx, state),
                None => {},
            }
        },
        Some(v) => {
            let names = collect_identifiers(node, ctx.source);
            if names.len() == 0 {
                return;
            }
            let exprs = v.named_children();
            apply_multi_assign_semantics(&names, &exprs, node.tree, ctx, state);
        },
    }
}

/// The state after an assignment or a short declaration at node `i`.
pub open spec fn after_assignment(
    t: &SyntaxTree,
    i: int,
    cx: Facts<'_>,
    st: Map<Text, Info>,
) -> Map<Text, Info> {
    let left = t.field(i, "left"@);
    let right = t.field(i, "right"@);
    if left is None || right is None || t.kind(left->0) != "expression_list"@ || identifiers_in(
        t,
        left->0,
        cx.src,
    ).len() == 0 {
        st
    } else {
        assign_lists(
            t,
            identifiers_in(t, left->0, cx.src),
            if t.kind(right->0) == "expression_list"@ {
                t.named_children(right->0)
            } else {
                seq![right->0]
            },
            cx,
            st,
        )
    }
}

fn handle_assignment(node: Node<'_>, ctx: &AnalysisContext<'_>, state: &mut TaintState)
    requires
        node.valid(ctx.source@),
    ensures
        final(state)@ == after_assignment(node.tree, node.index as int, ctx.facts(), old(state)@),
{
    match (node.child_by_field_name("left"), node.child_by_field_name("right")) {
        (Some(left), Some(right)) => {
            if !left.is_kind("expression_list") {
                return;
            }
            let names = collect_identifiers(left, ctx.source);
            if names.len() == 0 {
                return;
            }
            if right.is_kind("expression_list") {
                let exprs = right.named_children();
                apply_multi_assign_semantics(&names, &exprs, node.tree, ctx, state);
            } else {
                let mut exprs: Vec<Node<'_>> = Vec::new();
                exprs.push(right);
                assert(indices(exprs@) =~= seq![right.index as int]);
                apply_multi_assign_semantics(&names, &exprs, node.tree, ctx, state);
            }
        },
        _ => {},
    }
}

/// The state after node `i` of a scope was read.
pub open spec fn state_after(
    t: &SyntaxTree,
    i: int,
    cx: Facts<'_>,
    st: Map<Text, Info>,
) -> Map<Text, Info> {
    if t.kind(i) == "short_var_declaration"@ || t.kind(i) == "assignment_statement"@ {
        after_assignment(t, i, cx, st)
    } else if t.kind(i) == "var_spec"@ {
        after_var_spec(t, i, cx, st)
    } else {
        st
    }
}

fn read_node(node: Node<'_>, ctx: &AnalysisContext<'_>, state: &mut TaintState)
    requires
        node.valid(ctx.source@),
    ensures
        final(state)@ == state_after(node.tree, node.index as int, ctx.facts(), old(state)@),
{
    if node.is_kind("short_var_declaration") || node.is_kind("assignment_statement") {
        handle_assignment(node, ctx, state);
    } else if node.is_kind("var_spec") {
        handle_var_spec(node, ctx, state);
    }
}

// ─── Sinks ───────────────────────────────────────────────────────────────────
/// Whether a matcher takes a call of `callee` for a sink.
pub open spec fn call_sink_hits(m: Matcher, callee: Text) -> bool {
    match m {
        Matcher::Call { canonical, .. } => canonical == callee,
        Matcher::MethodName { method, .. } => last_segment(callee, '.') == method,
        Matcher::CallRegex { regex, .. } => regex_matches(regex, callee),
        Matcher::MethodNameRegex { regex, .. } => regex_matches(regex, last_segment(callee, '.')),
        Matcher::ReceiverCall { receiver, .. } => {
            &&& crate::text::first_pos(callee, '.', 0) < callee.len()
            &&& crate::text::first_segment(callee, '.') == receiver
        },
        _ => false,
    }
}

fn is_call_sink(m: &NodeMatcher, callee: &str) -> (r: bool)
    ensures
        r == call_sink_hits(m@, callee@),
{
    match m {
        NodeMatcher::Call { canonical, .. } => text_eq(canonical.as_str(), callee),
        NodeMatcher::MethodName { method, .. } => text_eq(past_last(callee, '.'), method.as_str()),
        NodeMatcher::CallRegex { regex, .. } => is_regex_match(regex.as_str(), callee),
        NodeMatcher::MethodNameRegex { regex, .. } => is_regex_match(
            regex.as_str(),
            past_last(callee, '.'),
        ),
        NodeMatcher::ReceiverCall { receiver, .. } => {
            let a = crate::text::chars_of(callee);
            crate::text::find_char(&a, '.', 0) < a.len() && text_eq(
                crate::text::before_first(callee, '.'),
                receiver.as_str(),
            )
        },
        _ => false,
    }
}

/// The description of the first sink from `from` on that a call of `callee` is.
pub open spec fn call_sink(sinks: Seq<Matcher>, from: int, callee: Text) -> Option<Text>
    decreases sinks.len() - from,
{
    if from < 0 || from >= sinks.len() {
        None
    } else if call_sink_hits(sinks[from], callee) {
        Some(sinks[from].description())
    } else {
        call_sink(sinks, from + 1, callee)
    }
}

/// The description of the first sink that a call of `callee` is.
pub fn match_call_sink(sinks: &Vec<NodeMatcher>, callee: &str) -> (r: Option<String>)
    ensures
        opt_view(r) == call_sink(views(sinks@), 0, callee@),
{
    let mut k: usize = 0;
    while k < sinks.len()
        invariant
            k <= sinks@.len(),
            call_sink(views(sinks@), 0, callee@) == call_sink(views(sinks@), k as int, callee@),
        decreases sinks.len() - k,
    {
        assert(views(sinks@)[k as int] == sinks@[k as int]@);
        if is_call_sink(&sinks[k], callee) {
            return Some(sinks[k].description().to_owned());
        }
        k = k + 1;
    }
    None
}

/// The description of the first sink from `from` on that is a built string.
pub open spec fn format_sink(sinks: Seq<Matcher>, from: int) -> Option<Text>
    decreases sinks.len() - from,
{
    if from < 0 || from >= sinks.len() {
        None
    } else if sinks[from] is BinopFormat {
        Some(sinks[from].description())
    } else {
        format_sink(sinks, from + 1)
    }
}

/// The description of the first sink that is a built string.
pub fn match_binop_format_sink(sinks: &Vec<NodeMatcher>) -> (r: Option<String>)
    ensures
        opt_view(r) == format_sink(views(sinks@), 0),
{
    let mut k: usize = 0;
    while k < sinks.len()
        invariant
            k <= sinks@.len(),
            format_sink(views(sinks@), 0) == format_sink(views(sinks@), k as int),
        decreases sinks.len() - k,
    {
        assert(views(sinks@)[k as int] == sinks@[k as int]@);
        match &sinks[k] {
            NodeMatcher::BinopFormat { description } => {
                return Some(description.clone());
            },
            _ => {},
        }
        k = k + 1;
    }
    None
}

/// The taint of the first named sibling from `c` on that is tainted and whose labels suffice.
pub open spec fn reaching(
    t: &SyntaxTree,
    c: int,
    e: int,
    cx: Facts<'_>,
    st: Map<Text, Info>,
) -> Option<Taint>
    decreases gap(c, e),
{
    if c >= e {
        None
    } else if t.named(c) && taint_of(t, c, cx, st) is Some && labels_suffice(t, c, cx, st) {
        taint_of(t, c, cx, st)
    } else {
        reaching(t, t.after(c), e, cx, st)
    }
}

fn reaching_argument(args: Node<'_>, ctx: &AnalysisContext<'_>, state: &TaintState) -> (r: Option<
    (String, usize),
>)
    requires
        args.valid(ctx.source@),
    ensures
        taint_view(r) == reaching(
            args.tree,
            args.index + 1,
            args.tree.after(args.index as int),
            ctx.facts(),
            state@,
        ),
{
    let e: usize = args.end();
    let mut c: usize = args.index + 1;
    while c < e
        invariant
            args.valid(ctx.source@),
            e == args.tree.after(args.index as int),
            e <= args.tree.len(),
            reaching(args.tree, args.index + 1, e as int, ctx.facts(), state@) == reaching(
                args.tree,
                c as int,
                e as int,
                ctx.facts(),
                state@,
            ),
        decreases gap(c as int, e as int),
    {
        let n = args.at(c);
        if n.is_named() {
            let got = expression_taint(n, ctx, state);
            if got.is_some() && sink_labels_satisfied(n, ctx, state) {
                return got;
            }
        }
        c = n.end();
    }
    None
}

/// Whether one of the groups has a sink that a call of `callee` is.
pub open spec fn some_call_sink(groups: Seq<(Option<Text>, Seq<Matcher>)>, callee: Text) -> bool {
    exists|g: int|
        #![trigger groups[g]]
        0 <= g < groups.len() && call_sink(groups[g].1, 0, callee) is Some
}

/// The flows of `taint` by the call at node `i` into the sinks of the groups from `from` on.
pub open spec fn call_sink_flows(
    groups: Seq<(Option<Text>, Seq<Matcher>)>,
    from: int,
    callee: Text,
    t: &SyntaxTree,
    i: int,
    taint: Taint,
) -> Seq<Flow>
    decreases groups.len() - from,
{
    if from < 0 || from >= groups.len() {
        Seq::empty()
    } else {
        let rest = call_sink_flows(groups, from + 1, callee, t, i, taint);
        match call_sink(groups[from].1, 0, callee) {
            Some(d) => seq![flow_at(t, i, taint.0, taint.1, d, groups[from].0, 1)] + rest,
            None => rest,
        }
    }
}

/// The flow by the call at node `i` into a sink of another file, from the recorded
/// flow `from` on. There is one at most.
pub open spec fn cross_flows(
    t: &SyntaxTree,
    i: int,
    name: Text,
    args: Seq<int>,
    flows: Seq<SinkFlow>,
    from: int,
    cx: Facts<'_>,
    st: Map<Text, Info>,
) -> Seq<Flow>
    decreases flows.len() - from,
{
    if from < 0 || from >= flows.len() {
        Seq::empty()
    } else {
        let f = flows[from];
        if cx.cross is Some && cx.cross->0.allowed.contains(f.sink_rule_id) && 0 <= f.param_index
            < args.len() && taint_of(t, args[f.param_index], cx, st) is Some && labels_suffice(
            t,
            args[f.param_index],
            cx,
            st,
        ) {
            let taint = taint_of(t, args[f.param_index], cx, st)->0;
            seq![
                cross_file_flow(
                    t,
                    i,
                    taint.0,
                    taint.1,
                    f.sink_description,
                    name,
                    f.sink_rule_id,
                ),
            ]
        } else {
            cross_flows(t, i, name, args, flows, from + 1, cx, st)
        }
    }
}

/// The flows into sinks by the call at node `i`.
pub open spec fn call_flows(
    t: &SyntaxTree,
    i: int,
    cx: Facts<'_>,
    st: Map<Text, Info>,
) -> Seq<Flow> {
    let func = t.field(i, "function"@);
    let args = t.field(i, "arguments"@);
    if func is None {
        Seq::empty()
    } else {
        let name = t.text(func->0, cx.src);
        let callee = resolved_in(cx.aliases, name);
        if some_call_sink(cx.groups, callee) {
            match args {
                None => Seq::empty(),
                Some(a) => match reaching(t, a + 1, t.after(a), cx, st) {
                    None => Seq::empty(),
                    Some(taint) => call_sink_flows(cx.groups, 0, callee, t, i, taint),
                },
            }
        } else if cx.cross is Some && t.kind(func->0) == "identifier"@ && args is Some
            && cx.cross->0.summary(name) is Some {
            cross_flows(
                t,
                i,
                name,
                t.named_children(args->0),
                cx.cross->0.summary(name)->0.params_to_sink,
                0,
                cx,
                st,
            )
        } else {
            Seq::empty()
        }
    }
}

fn has_call_sink(groups: &Vec<SinkGroup>, callee: &str) -> (r: bool)
    ensures
        r == some_call_sink(views(groups@), callee@),
{
    let mut g: usize = 0;
    while g < groups.len()
        invariant
            g <= groups@.len(),
            forall|k: int|
                #![trigger views(groups@)[k]]
                0 <= k < g ==> call_sink(views(groups@)[k].1, 0, callee@) is None,
        decreases groups.len() - g,
    {
        assert(views(groups@)[g as int] == groups@[g as int]@);
        if match_call_sink(&groups[g].sinks, callee).is_some() {
            return true;
        }
        g = g + 1;
    }
    false
}

fn clone_rule_id(o: &Option<String>) -> (r: Option<String>)
    ensures
        opt_view(r) == opt_view(*o),
{
    match o {
        Some(s) => Some(s.clone()),
        None => None,
    }
}

fn push_call_flows(
    groups: &Vec<SinkGroup>,
    callee: &str,
    node: Node<'_>,
    description: &str,
    line: usize,
    findings: &mut Vec<TaintFinding>,
)
    requires
        node.wf(),
    ensures
        views(final(findings)@) == views(old(findings)@) + call_sink_flows(
            views(groups@),
            0,
            callee@,
            node.tree,
            node.index as int,
            (description@, line as int),
        ),
{
    let ghost taint = (description@, line as int);
    let ghost i = node.index as int;
    let ghost start = views(findings@);
    let mut g: usize = 0;
    while g < groups.len()
        invariant
            node.wf(),
            i == node.index,
            taint == (description@, line as int),
            g <= groups@.len(),
            start + call_sink_flows(views(groups@), 0, callee@, node.tree, i, taint) == views(
                findings@,
            ) + call_sink_flows(views(groups@), g as int, callee@, node.tree, i, taint),
        decreases groups.len() - g,
    {
        assert(views(groups@)[g as int] == groups@[g as int]@);
        let ghost before = views(findings@);
        let ghost rest = call_sink_flows(views(groups@), g + 1, callee@, node.tree, i, taint);
        match match_call_sink(&groups[g].sinks, callee) {
            Some(d) => {
                let ghost flow = flow_at(
                    node.tree,
                    i,
                    description@,
                    line as int,
                    d@,
                    groups@[g as int]@.0,
                    1,
                );
                findings.push(
                    taint_finding_at(
                        node,
                        description.to_owned(),
                        line,
                        d,
                        clone_rule_id(&groups[g].rule_id),
                        1,
                    ),
                );
                assert(before.push(flow) + rest =~= before + (seq![flow] + rest));
            },
            None => {},
        }
        g = g + 1;
    }
    assert(views(findings@) =~= views(findings@) + Seq::<Flow>::empty());
}

fn handle_cross_file_call(
    node: Node<'_>,
    name: &str,
    args: Node<'_>,
    summary: &FunctionTaintSummary,
    cross: &CrossFileInfo<'_>,
    ctx: &AnalysisContext<'_>,
    state: &TaintState,
    findings: &mut Vec<TaintFinding>,
)
    requires
        node.wf(),
        args.valid(ctx.source@),
        args.tree == node.tree,
        ctx.cross_file == Some(cross),
    ensures
        views(final(findings)@) == views(old(findings)@) + cross_flows(
            node.tree,
            node.index as int,
            name@,
            node.tree.named_children(args.index as int),
            summary@.params_to_sink,
            0,
            ctx.facts(),
            state@,
        ),
{
    let all = args.named_children();
    let ghost at = node.tree.named_children(args.index as int);
    let ghost start = views(findings@);
    let mut k: usize = 0;
    while k < summary.params_to_sink.len()
        invariant
            node.wf(),
            args.valid(ctx.source@),
            args.tree == node.tree,
            ctx.cross_file == Some(cross),
            k <= summary.params_to_sink@.len(),
            start == views(old(findings)@),
            views(findings@) == start,
            at == node.tree.named_children(args.index as int),
            indices(all@) == at,
            forall|j: int| #![trigger all@[j]]
                0 <= j < all@.len() ==> all@[j].tree == args.tree && all@[j].wf(),
            cross_flows(
                node.tree,
                node.index as int,
                name@,
                at,
                summary@.params_to_sink,
                0,
                ctx.facts(),
                state@,
            ) == cross_flows(
                node.tree,
                node.index as int,
                name@,
                at,
                summary@.params_to_sink,
                k as int,
                ctx.facts(),
                state@,
            ),
        decreases summary.params_to_sink.len() - k,
    {
        let flow = &summary.params_to_sink[k];
        assert(summary@.params_to_sink[k as int] == flow@);
        let p: usize = flow.param_index;
        assert(at.len() == all@.len());
        if cross.rule_filter.allows(flow.sink_rule_id.as_str()) && p < all.len() {
            let arg = all[p];
            assert(at[p as int] == arg.index);
            match expression_taint(arg, ctx, state) {
                Some((description, line)) => {
                    if sink_labels_satisfied(arg, ctx, state) {
                        findings.push(
                            cross_file_taint_finding(
                                node,
                                description,
                                line,
                                flow.sink_description.as_str(),
                                name,
                                flow.sink_rule_id.as_str(),
                            ),
                        );
                        proof {
                            let f = views(findings@).last();
                            assert(views(findings@) =~= start + seq![f]);
                        }
                        return;
                    }
                },
                None => {},
            }
        }
        k = k + 1;
    }
    assert(views(findings@) =~= start + Seq::<Flow>::empty());
}

fn handle_call(
    node: Node<'_>,
    ctx: &AnalysisContext<'_>,
    state: &TaintState,
    findings: &mut Vec<TaintFinding>,
)
    requires
        node.valid(ctx.source@),
    ensures
        views(final(findings)@) == views(old(findings)@) + call_flows(
            node.tree,
            node.index as int,
            ctx.facts(),
            state@,
        ),
{
    assert(views(findings@) =~= views(findings@) + Seq::<Flow>::empty());
    let func = match node.child_by_field_name("function") {
        None => {
            return;
        },
        Some(f) => f,
    };
    let name = func.text(ctx.source);
    let callee = resolve_callee(ctx.aliases, name);
    let args = node.child_by_field_name("arguments");
    if has_call_sink(ctx.groups, callee.as_str()) {
        match args {
            None => {},
            Some(a) => {
                match reaching_argument(a, ctx, state) {
                    None => {},
                    Some((description, line)) => push_call_flows(
                        ctx.groups,
                        callee.as_str(),
                        node,
                        description.as_str(),
                        line,
                        findings,
                    ),
                }
            },
        }
        return;
    }
    match (ctx.cross_file, args) {
        (Some(cross), Some(a)) => {
            if func.is_kind("identifier") {
                match lookup_cross_file_summary(cross.same_package_paths, cross.summaries, name) {
                    Some(summary) => handle_cross_file_call(
                        node,
                        name,
                        a,
                        summary,
                        cross,
                        ctx,
                        state,
                        findings,
                    ),
                    None => {},
                }
            }
        },
        _ => {},
    }
}

/// The flows of `taint` at node `i` into the built-string sinks of the groups from `from` on.
pub open spec fn format_sink_flows(
    groups: Seq<(Option<Text>, Seq<Matcher>)>,
    from: int,
    t: &SyntaxTree,
    i: int,
    taint: Taint,
) -> Seq<Flow>
    decreases groups.len() - from,
{
    if from < 0 || from >= groups.len() {
        Seq::empty()
    } else {
        let rest = format_sink_flows(groups, from + 1, t, i, taint);
        match format_sink(groups[from].1, 0) {
            Some(d) => seq![flow_at(t, i, taint.0, taint.1, d, groups[from].0, 1)] + rest,
            None => rest,
        }
    }
}

/// Whether node `i` is the outermost `+` of a chain that has a string literal.
pub open spec fn is_outer_concat(t: &SyntaxTree, i: int, src: Text) -> bool {
    &&& is_concat(t, i, src)
    &&& !(t.parent(i) matches Some(p) && t.kind(p) == "binary_expression"@ && is_concat(t, p, src))
    &&& has_string_operand(t, i, src)
}

/// The flows into built-string sinks at node `i`.
pub open spec fn concat_flows(
    t: &SyntaxTree,
    i: int,
    cx: Facts<'_>,
    st: Map<Text, Info>,
) -> Seq<Flow> {
    if is_outer_concat(t, i, cx.src) && taint_of(t, i, cx, st) is Some && labels_suffice(
        t,
        i,
        cx,
        st,
    ) {
        format_sink_flows(cx.groups, 0, t, i, taint_of(t, i, cx, st)->0)
    } else {
        Seq::empty()
    }
}

fn push_format_flows(
    groups: &Vec<SinkGroup>,
    node: Node<'_>,
    description: &str,
    line: usize,
    findings: &mut Vec<TaintFinding>,
)
    requires
        node.wf(),
    ensures
        views(final(findings)@) == views(old(findings)@) + format_sink_flows(
            views(groups@),
            0,
            node.tree,
            node.index as int,
            (description@, line as int),
        ),
{
    let ghost taint = (description@, line as int);
    let ghost i = node.index as int;
    let ghost start = views(findings@);
    let mut g: usize = 0;
    while g < groups.len()
        invariant
            node.wf(),
            i == node.index,
            taint == (description@, line as int),
            g <= groups@.len(),
            start + format_sink_flows(views(groups@), 0, node.tree, i, taint) == views(findings@)
                + format_sink_flows(views(groups@), g as int, node.tree, i, taint),
        decreases groups.len() - g,
    {
        assert(views(groups@)[g as int] == groups@[g as int]@);
        let ghost before = views(findings@);
        let ghost rest = format_sink_flows(views(groups@), g + 1, node.tree, i, taint);
        match match_binop_format_sink(&groups[g].sinks) {
            Some(d) => {
                let ghost flow = flow_at(
                    node.tree,
                    i,
                    description@,
                    line as int,
                    d@,
                    groups@[g as int]@.0,
                    1,
                );
                findings.push(
                    taint_finding_at(
                        node,
                        description.to_owned(),
                        line,
                        d,
                        clone_rule_id(&groups[g].rule_id),
                        1,
                    ),
                );
                assert(before.push(flow) + rest =~= before + (seq![flow] + rest));
            },
            None => {},
        }
        g = g + 1;
    }
    assert(views(findings@) =~= views(findings@) + Seq::<Flow>::empty());
}

fn handle_binop_format_sink(
    node: Node<'_>,
    ctx: &AnalysisContext<'_>,
    state: &TaintState,
    findings: &mut Vec<TaintFinding>,
)
    requires
        node.valid(ctx.source@),
    ensures
        views(final(findings)@) == views(old(findings)@) + concat_flows(
            node.tree,
            node.index as int,
            ctx.facts(),
            state@,
        ),
{
    assert(views(findings@) =~= views(findings@) + Seq::<Flow>::empty());
    if !go_binop_is_concat(node, ctx.source) {
        return;
    }
    match node.parent() {
        Some(p) => {
            if p.is_kind("binary_expression") && go_binop_is_concat(p, ctx.source) {
                return;
            }
        },
        None => {},
    }
    if !go_binop_has_string_literal_operand(node, ctx.source) {
        return;
    }
    match expression_taint(node, ctx, state) {
        Some((description, line)) => {
            if sink_labels_satisfied(node, ctx, state) {
                push_format_flows(ctx.groups, node, description.as_str(), line, findings);
            }
        },
        None => {},
    }
}

/// The flows at node `i` of a scope.
pub open spec fn flows_at(t: &SyntaxTree, i: int, cx: Facts<'_>, st: Map<Text, Info>) -> Seq<Flow> {
    if t.kind(i) == "call_expression"@ {
        call_flows(t, i, cx, st)
    } else if t.kind(i) == "binary_expression"@ {
        concat_flows(t, i, cx, st)
    } else {
        Seq::empty()
    }
}

fn report_node(
    node: Node<'_>,
    ctx: &AnalysisContext<'_>,
    state: &TaintState,
    findings: &mut Vec<TaintFinding>,
)
    requires
        node.valid(ctx.source@),
    ensures
        views(final(findings)@) == views(old(findings)@) + flows_at(
            node.tree,
            node.index as int,
            ctx.facts(),
            state@,
        ),
{
    if node.is_kind("call_expression") {
        handle_call(node, ctx, state, findings);
    } else if node.is_kind("binary_expression") {
        handle_binop_format_sink(node, ctx, state, findings);
    } else {
        assert(views(findings@) =~= views(findings@) + Seq::<Flow>::empty());
    }
}

// ─── Scopes ──────────────────────────────────────────────────────────────────
/// The state after the identifiers from `c` on that are sources by name were seeded.
pub open spec fn seed_by_name(
    t: &SyntaxTree,
    c: int,
    e: int,
    cx: Facts<'_>,
    st: Map<Text, Info>,
) -> Map<Text, Info>
    decreases gap(c, e),
{
    if c >= e {
        st
    } else {
        let name = t.text(c, cx.src);
        seed_by_name(
            t,
            t.after(c),
            e,
            cx,
            if t.kind(c) == "identifier"@ && param_source(cx.sources, 0, name) is Some {
                st.insert(name, fresh(t, c, param_source(cx.sources, 0, name)->0, cx))
            } else {
                st
            },
        )
    }
}

fn taint_by_name(node: Node<'_>, ctx: &AnalysisContext<'_>, state: &mut TaintState)
    requires
        node.valid(ctx.source@),
    ensures
        final(state)@ == seed_by_name(
            node.tree,
            node.index + 1,
            node.tree.after(node.index as int),
            ctx.facts(),
            old(state)@,
        ),
{
    let e: usize = node.end();
    let mut c: usize = node.index + 1;
    while c < e
        invariant
            node.valid(ctx.source@),
            e == node.tree.after(node.index as int),
            e <= node.tree.len(),
            seed_by_name(node.tree, node.index + 1, e as int, ctx.facts(), old(state)@)
                == seed_by_name(node.tree, c as int, e as int, ctx.facts(), state@),
        decreases gap(c as int, e as int),
    {
        let n = node.at(c);
        if n.is_kind("identifier") {
            let name = n.text(ctx.source);
            match match_param_source(ctx.spec, name) {
                Some(d) => state.taint(name.to_owned(), fresh_source(n, d, ctx)),
                None => {},
            }
        }
        c = n.end();
    }
}

/// Whether node `c` declares parameters.
pub open spec fn declares_params(t: &SyntaxTree, c: int) -> bool {
    t.kind(c) == "parameter_declaration"@ || t.kind(c) == "variadic_parameter_declaration"@
}

/// The state after the parameter declarations from `c` on were read. A parameter
/// is a source by its declared type or else by its name.
pub open spec fn seed_params(
    t: &SyntaxTree,
    c: int,
    e: int,
    cx: Facts<'_>,
    st: Map<Text, Info>,
) -> Map<Text, Info>
    decreases gap(c, e),
{
    if c >= e {
        st
    } else {
        seed_params(
            t,
            t.after(c),
            e,
            cx,
            if !declares_params(t, c) {
                st
            } else {
                match declared_source(t, c, cx) {
                    Some(d) => seed_identifiers(t, c + 1, t.after(c), d, cx, st),
                    None => seed_by_name(t, c + 1, t.after(c), cx, st),
                }
            },
        )
    }
}

fn seed_param_sources(params: Node<'_>, ctx: &AnalysisContext<'_>, state: &mut TaintState)
    requires
        params.valid(ctx.source@),
    ensures
        final(state)@ == seed_params(
            params.tree,
            params.index + 1,
            params.tree.after(params.index as int),
            ctx.facts(),
            old(state)@,
        ),
{
    let e: usize = params.end();
    let mut c: usize = params.index + 1;
    while c < e
        invariant
            params.valid(ctx.source@),
            e == params.tree.after(params.index as int),
            e <= params.tree.len(),
            seed_params(params.tree, params.index + 1, e as int, ctx.facts(), old(state)@)
                == seed_params(params.tree, c as int, e as int, ctx.facts(), state@),
        decreases gap(c as int, e as int),
    {
        let n = params.at(c);
        if n.is_kind("parameter_declaration") || n.is_kind("variadic_parameter_declaration") {
            match declared_source_of(n, ctx) {
                Some(d) => taint_identifiers(n, d.as_str(), ctx, state),
                None => taint_by_name(n, ctx, state),
            }
        }
        c = n.end();
    }
}

/// The state in which the body of the function at node `f` starts.
pub open spec fn entry_state(t: &SyntaxTree, f: int, cx: Facts<'_>) -> Map<Text, Info> {
    match t.field(f, "parameters"@) {
        Some(p) => seed_params(t, p + 1, t.after(p), cx, Map::empty()),
        None => Map::empty(),
    }
}

fn enter_function(func: Node<'_>, ctx: &AnalysisContext<'_>) -> (state: TaintState)
    requires
        func.valid(ctx.source@),
    ensures
        state@ == entry_state(func.tree, func.index as int, ctx.facts()),
{
    let mut state = TaintState::new();
    match func.child_by_field_name("parameters") {
        Some(p) => seed_param_sources(p, ctx, &mut state),
        None => {},
    }
    state
}

/// The flows in the nodes from `c` to before `e`, read in order from the state
/// `st` on. Closures are scopes of their own and left out.
pub open spec fn scope_flows(
    t: &SyntaxTree,
    c: int,
    e: int,
    cx: Facts<'_>,
    st: Map<Text, Info>,
) -> Seq<Flow>
    decreases gap(c, e),
{
    if c >= e {
        Seq::empty()
    } else if t.kind(c) == "func_literal"@ {
        scope_flows(t, t.after(c), e, cx, st)
    } else {
        flows_at(t, c, cx, st) + scope_flows(t, c + 1, e, cx, state_after(t, c, cx, st))
    }
}

/// The flows in the function at node `f`.
pub open spec fn function_flows(t: &SyntaxTree, f: int, cx: Facts<'_>) -> Seq<Flow> {
    match t.field(f, "body"@) {
        Some(b) => scope_flows(t, b, t.after(b), cx, entry_state(t, f, cx)),
        None => Seq::empty(),
    }
}

/// Adds the flows in a function.
pub fn analyze_function(
    func: Node<'_>,
    ctx: &AnalysisContext<'_>,
    findings: &mut Vec<TaintFinding>,
)
    requires
        func.valid(ctx.source@),
    ensures
        views(final(findings)@) == views(old(findings)@) + function_flows(
            func.tree,
            func.index as int,
            ctx.facts(),
        ),
{
    let ghost start = views(findings@);
    assert(start =~= start + Seq::<Flow>::empty());
    let mut state = enter_function(func, ctx);
    match func.child_by_field_name("body") {
        None => {},
        Some(body) => {
            let e: usize = body.end();
            let mut c: usize = body.index;
            while c < e
                invariant
                    func.valid(ctx.source@),
                    e <= func.tree.len(),
                    start + function_flows(func.tree, func.index as int, ctx.facts()) == views(
                        findings@,
                    ) + scope_flows(func.tree, c as int, e as int, ctx.facts(), state@),
                decreases gap(c as int, e as int),
            {
                let n = func.at(c);
                if n.is_kind("func_literal") {
                    c = n.end();
                } else {
                    let ghost before = views(findings@);
                    report_node(n, ctx, &state, findings);
                    proof {
                        let here = flows_at(func.tree, c as int, ctx.facts(), state@);
                        let rest = scope_flows(
                            func.tree,
                            c + 1,
                            e as int,
                            ctx.facts(),
                            state_after(func.tree, c as int, ctx.facts(), state@),
                        );
                        assert(before + here + rest =~= before + (here + rest));
                    }
                    read_node(n, ctx, &mut state);
                    c = c + 1;
                }
            }
            assert(views(findings@) =~= views(findings@) + Seq::<Flow>::empty());
        },
    }
}

/// The source of what a `return` gives back, among its named children from `c` on.
pub open spec fn returned_taint(
    t: &SyntaxTree,
    c: int,
    e: int,
    cx: Facts<'_>,
    st: Map<Text, Info>,
) -> Option<Text>
    decreases gap(c, e),
{
    if c >= e {
        None
    } else {
        let here = if !t.named(c) {
            None
        } else if t.kind(c) == "expression_list"@ {
            taint_of_named(t, c + 1, t.after(c), cx, st)
        } else {
            taint_of(t, c, cx, st)
        };
        match here {
            Some(x) => Some(x.0),
            None => returned_taint(t, t.after(c), e, cx, st),
        }
    }
}

fn return_statement_taint(node: Node<'_>, ctx: &AnalysisContext<'_>, state: &TaintState) -> (r:
    Option<String>)
    requires
        node.valid(ctx.source@),
    ensures
        opt_view(r) == returned_taint(
            node.tree,
            node.index + 1,
            node.tree.after(node.index as int),
            ctx.facts(),
            state@,
        ),
{
    let e: usize = node.end();
    let mut c: usize = node.index + 1;
    while c < e
        invariant
            node.valid(ctx.source@),
            e == node.tree.after(node.index as int),
            e <= node.tree.len(),
            returned_taint(node.tree, node.index + 1, e as int, ctx.facts(), state@)
                == returned_taint(node.tree, c as int, e as int, ctx.facts(), state@),
        decreases gap(c as int, e as int),
    {
        let n = node.at(c);
        if n.is_named() {
            let got = if n.is_kind("expression_list") {
                named_child_taint(n, ctx, state)
            } else {
                expression_taint(n, ctx, state)
            };
            match got {
                Some((d, _line)) => {
                    return Some(d);
                },
                None => {},
            }
        }
        c = n.end();
    }
    None
}

/// The source of what the first tainted `return` in the nodes from `c` on gives back.
pub open spec fn scope_return(
    t: &SyntaxTree,
    c: int,
    e: int,
    cx: Facts<'_>,
    st: Map<Text, Info>,
) -> Option<Text>
    decreases gap(c, e),
{
    if c >= e {
        None
    } else if t.kind(c) == "func_literal"@ {
        scope_return(t, t.after(c), e, cx, st)
    } else {
        let now = state_after(t, c, cx, st);
        if t.kind(c) == "return_statement"@ && returned_taint(t, c + 1, t.after(c), cx, now)
            is Some {
            returned_taint(t, c + 1, t.after(c), cx, now)
        } else {
            scope_return(t, c + 1, e, cx, now)
        }
    }
}

/// The source of what the function at node `f` returns.
pub open spec fn function_return(t: &SyntaxTree, f: int, cx: Facts<'_>) -> Option<Text> {
    match t.field(f, "body"@) {
        Some(b) => scope_return(t, b, t.after(b), cx, entry_state(t, f, cx)),
        None => None,
    }
}

fn return_taint(func: Node<'_>, ctx: &AnalysisContext<'_>) -> (r: Option<String>)
    requires
        func.valid(ctx.source@),
    ensures
        opt_view(r) == function_return(func.tree, func.index as int, ctx.facts()),
{
    let mut state = enter_function(func, ctx);
    let body = match func.child_by_field_name("body") {
        None => {
            return None;
        },
        Some(b) => b,
    };
    let e: usize = body.end();
    let mut c: usize = body.index;
    while c < e
        invariant
            func.valid(ctx.source@),
            e <= func.tree.len(),
            function_return(func.tree, func.index as int, ctx.facts()) == scope_return(
                func.tree,
                c as int,
                e as int,
                ctx.facts(),
                state@,
            ),
        decreases gap(c as int, e as int),
    {
        let n = func.at(c);
        if n.is_kind("func_literal") {
            c = n.end();
        } else {
            read_node(n, ctx, &mut state);
            if n.is_kind("return_statement") {
                let got = return_statement_taint(n, ctx, &state);
                if got.is_some() {
                    return got;
                }
            }
            c = c + 1;
        }
    }
    None
}

// ─── Parameters as sources ───────────────────────────────────────────────────
/// The names of the parameters that the declarations from `c` on declare.
pub open spec fn param_names_from(t: &SyntaxTree, c: int, e: int, src: Text) -> Seq<Text>
    decreases gap(c, e),
{
    if c >= e {
        Seq::empty()
    } else if declares_params(t, c) {
        identifiers_in(t, c, src) + param_names_from(t, t.after(c), e, src)
    } else {
        param_names_from(t, t.after(c), e, src)
    }
}

/// The names of the parameters of the function at node `f`. A receiver is none.
pub open spec fn param_names(t: &SyntaxTree, f: int, src: Text) -> Seq<Text> {
    match t.field(f, "parameters"@) {
        Some(p) => param_names_from(t, p + 1, t.after(p), src),
        None => Seq::empty(),
    }
}

fn collect_param_names<'a>(func: Node<'_>, source: &'a str) -> (r: Vec<&'a str>)
    requires
        func.valid(source@),
    ensures
        views(r@) == param_names(func.tree, func.index as int, source@),
{
    let mut out: Vec<&'a str> = Vec::new();
    match func.child_by_field_name("parameters") {
        None => {},
        Some(p) => {
            let e: usize = p.end();
            let mut c: usize = p.index + 1;
            let ghost all = param_names(func.tree, func.index as int, source@);
            assert(views(out@) + all =~= all);
            while c < e
                invariant
                    func.valid(source@),
                    e <= func.tree.len(),
                    views(out@) + param_names_from(func.tree, c as int, e as int, source@) == all,
                decreases gap(c as int, e as int),
            {
                let n = func.at(c);
                if n.is_kind("parameter_declaration") || n.is_kind(
                    "variadic_parameter_declaration",
                ) {
                    let ghost before = views(out@);
                    let mut names = collect_identifiers(n, source);
                    let ghost here = views(names@);
                    out.append(&mut names);
                    proof {
                        let rest = param_names_from(
                            func.tree,
                            func.tree.after(c as int),
                            e as int,
                            source@,
                        );
                        assert(before + here + rest =~= before + (here + rest));
                    }
                }
                c = n.end();
            }
            assert(views(out@) + Seq::<Text>::empty() =~= views(out@));
        },
    }
    out
}

/// A context in which the parameter `name` is the only source and nothing is a sink.
pub open spec fn with_parameter<'a>(cx: Facts<'a>, name: Text) -> Facts<'a> {
    Facts { sources: parameter_source(name), groups: Seq::empty(), ..cx }
}

/// The positions, from `from` on, of the parameters that reach the returned value.
pub open spec fn returning_params(
    t: &SyntaxTree,
    f: int,
    names: Seq<Text>,
    from: int,
    cx: Facts<'_>,
) -> Seq<int>
    decreases names.len() - from,
{
    if from < 0 || from >= names.len() {
        Seq::empty()
    } else {
        let rest = returning_params(t, f, names, from + 1, cx);
        if function_return(t, f, with_parameter(cx, names[from])) is Some {
            seq![from] + rest
        } else {
            rest
        }
    }
}

fn params_to_return(
    func: Node<'_>,
    names: &Vec<&str>,
    sanitizers: &Vec<NodeMatcher>,
    ctx: &AnalysisContext<'_>,
) -> (r: Vec<usize>)
    requires
        func.valid(ctx.source@),
        views(sanitizers@) == ctx.spec@.sanitizers,
    ensures
        ints(r@) == returning_params(
            func.tree,
            func.index as int,
            views(names@),
            0,
            ctx.facts(),
        ),
{
    broadcast use crate::cross_file::lemma_ints_push;

    let mut out: Vec<usize> = Vec::new();
    let groups: Vec<SinkGroup> = Vec::new();
    let ghost cx = ctx.facts();
    let ghost all = returning_params(func.tree, func.index as int, views(names@), 0, cx);
    assert(ints(out@) + all =~= all);
    let mut k: usize = 0;
    while k < names.len()
        invariant
            func.valid(ctx.source@),
            views(sanitizers@) == ctx.spec@.sanitizers,
            cx == ctx.facts(),
            groups@.len() == 0,
            k <= names@.len(),
            ints(out@) + returning_params(
                func.tree,
                func.index as int,
                views(names@),
                k as int,
                cx,
            ) == all,
        decreases names.len() - k,
    {
        assert(views(names@)[k as int] == names@[k as int]@);
        let spec = TaintSpec {
            sources: parameter_sources(names[k]),
            sinks: Vec::new(),
            sanitizers: clone_matchers(sanitizers),
        };
        let inner = AnalysisContext {
            source: ctx.source,
            spec: &spec,
            groups: &groups,
            aliases: ctx.aliases,
            summaries: ctx.summaries,
            cross_file: ctx.cross_file,
            label_policy: ctx.label_policy,
        };
        proof {
            assert(views(groups@) =~= Seq::empty());
            assert(inner.facts() == with_parameter(cx, names@[k as int]@));
        }
        let ghost before = ints(out@);
        let ghost rest = returning_params(
            func.tree,
            func.index as int,
            views(names@),
            k + 1,
            cx,
        );
        if return_taint(func, &inner).is_some() {
            out.push(k);
            assert(before.push(k as int) + rest =~= before + (seq![k as int] + rest));
        }
        k = k + 1;
    }
    assert(ints(out@) + Seq::<int>::empty() =~= ints(out@));
    out
}

/// What the function at node `f` returns.
pub open spec fn return_facts(t: &SyntaxTree, f: int, cx: Facts<'_>) -> ReturnFacts {
    ReturnFacts {
        direct_source: function_return(t, f, cx),
        params_to_return: returning_params(t, f, param_names(t, f, cx.src), 0, cx),
    }
}

/// What a function returns.
pub fn summarize_function_return(func: Node<'_>, ctx: &AnalysisContext<'_>) -> (r:
    ReturnTaintSummary)
    requires
        func.valid(ctx.source@),
    ensures
        r@ == return_facts(func.tree, func.index as int, ctx.facts()),
{
    let names = collect_param_names(func, ctx.source);
    ReturnTaintSummary {
        direct_source: return_taint(func, ctx),
        params_to_return: params_to_return(func, &names, &ctx.spec.sanitizers, ctx),
    }
}

// ─── Files ───────────────────────────────────────────────────────────────────
/// Whether node `i` is a function, a method or a closure.
pub open spec fn is_function(t: &SyntaxTree, i: int) -> bool {
    t.kind(i) == "function_declaration"@ || t.kind(i) == "method_declaration"@ || t.kind(i)
        == "func_literal"@
}

fn defines_function(node: Node<'_>) -> (r: bool)
    requires
        node.wf(),
    ensures
        r == is_function(node.tree, node.index as int),
{
    node.is_kind("function_declaration") || node.is_kind("method_declaration") || node.is_kind(
        "func_literal",
    )
}

/// The summaries `known` with those of the named functions in the nodes from `c` on.
pub open spec fn summaries_from(
    t: &SyntaxTree,
    c: int,
    e: int,
    cx: Facts<'_>,
    known: Map<Text, ReturnFacts>,
) -> Map<Text, ReturnFacts>
    decreases gap(c, e),
{
    if c >= e {
        known
    } else {
        summaries_from(
            t,
            c + 1,
            e,
            cx,
            match t.field_text(c, "name"@, cx.src) {
                Some(name) => if is_function(t, c) {
                    known.insert(
                        summary_key(name, param_names(t, c, cx.src).len() as int),
                        return_facts(t, c, cx),
                    )
                } else {
                    known
                },
                None => known,
            },
        )
    }
}

/// The return summaries of the functions below the node `root`: the last, where
/// several share a name and a number of parameters.
pub open spec fn file_summaries(t: &SyntaxTree, root: int, cx: Facts<'_>) -> Map<
    Text,
    ReturnFacts,
> {
    summaries_from(t, root, t.after(root), cx, Map::empty())
}

fn collect_summaries(root: Node<'_>, ctx: &AnalysisContext<'_>) -> (r: ReturnSummary)
    requires
        root.valid(ctx.source@),
    ensures
        r@ == file_summaries(root.tree, root.index as int, ctx.facts()),
{
    let mut out = ReturnSummary::new();
    let e: usize = root.end();
    let mut c: usize = root.index;
    while c < e
        invariant
            root.valid(ctx.source@),
            e <= root.tree.len(),
            file_summaries(root.tree, root.index as int, ctx.facts()) == summaries_from(
                root.tree,
                c as int,
                e as int,
                ctx.facts(),
                out@,
            ),
        decreases gap(c as int, e as int),
    {
        let n = root.at(c);
        if defines_function(n) {
            match n.field_text("name", ctx.source) {
                Some(name) => {
                    let names = collect_param_names(n, ctx.source);
                    assert(views(names@).len() == names@.len());
                    out.insert(
                        function_summary_key(name, names.len()),
                        summarize_function_return(n, ctx),
                    );
                },
                None => {},
            }
        }
        c = c + 1;
    }
    out
}

/// The flows in the functions among the nodes from `c` to before `e`.
pub open spec fn flows_from(t: &SyntaxTree, c: int, e: int, cx: Facts<'_>) -> Seq<Flow>
    decreases gap(c, e),
{
    if c >= e {
        Seq::empty()
    } else if is_function(t, c) {
        function_flows(t, c, cx) + flows_from(t, c + 1, e, cx)
    } else {
        flows_from(t, c + 1, e, cx)
    }
}

fn collect_flows(root: Node<'_>, ctx: &AnalysisContext<'_>) -> (r: Vec<TaintFinding>)
    requires
        root.valid(ctx.source@),
    ensures
        views(r@) == flows_from(
            root.tree,
            root.index as int,
            root.tree.after(root.index as int),
            ctx.facts(),
        ),
{
    let mut out: Vec<TaintFinding> = Vec::new();
    let e: usize = root.end();
    let mut c: usize = root.index;
    let ghost all = flows_from(root.tree, root.index as int, e as int, ctx.facts());
    assert(views(out@) + all =~= all);
    while c < e
        invariant
            root.valid(ctx.source@),
            e <= root.tree.len(),
            views(out@) + flows_from(root.tree, c as int, e as int, ctx.facts()) == all,
        decreases gap(c as int, e as int),
    {
        let n = root.at(c);
        if defines_function(n) {
            let ghost before = views(out@);
            analyze_function(n, ctx, &mut out);
            proof {
                let here = function_flows(root.tree, c as int, ctx.facts());
                let rest = flows_from(root.tree, c + 1, e as int, ctx.facts());
                assert(before + here + rest =~= before + (here + rest));
            }
        }
        c = c + 1;
    }
    assert(views(out@) + Seq::<Flow>::empty() =~= views(out@));
    out
}

/// The context in which the functions of a file are summarised: nothing is known
/// of other functions, and nothing is a sink.
pub open spec fn first_pass<'a>(cx: Facts<'a>) -> Facts<'a> {
    Facts { groups: Seq::empty(), summaries: Map::empty(), cross: None, ..cx }
}

/// The flows in a file: its functions are summarised first, and then analysed with
/// the summaries.
pub open spec fn file_flows(t: &SyntaxTree, root: int, cx: Facts<'_>) -> Seq<Flow> {
    flows_from(
        t,
        root,
        t.after(root),
        Facts { summaries: file_summaries(t, root, first_pass(cx)), ..cx },
    )
}

fn analyze_file(
    root: Node<'_>,
    source: &str,
    spec: &TaintSpec,
    groups: &Vec<SinkGroup>,
    aliases: Option<&AliasTable>,
    cross_file: Option<&CrossFileInfo<'_>>,
    policy: Option<&LabelPolicy>,
) -> (r: Vec<TaintFinding>)
    requires
        root.valid(source@),
    ensures
        views(r@) == file_flows(
            root.tree,
            root.index as int,
            Facts {
                src: source@,
                sources: spec@.sources,
                sanitizers: spec@.sanitizers,
                groups: views(groups@),
                aliases: opt_view(aliases),
                summaries: Map::empty(),
                cross: opt_view(cross_file),
                policy,
            },
        ),
{
    let none = ReturnSummary::new();
    let no_groups: Vec<SinkGroup> = Vec::new();
    assert(views(no_groups@) =~= Seq::empty());
    let first = AnalysisContext {
        source,
        spec,
        groups: &no_groups,
        aliases,
        summaries: &none,
        cross_file: None,
        label_policy: policy,
    };
    let summaries = collect_summaries(root, &first);
    let ctx = AnalysisContext {
        source,
        spec,
        groups,
        aliases,
        summaries: &summaries,
        cross_file,
        label_policy: policy,
    };
    collect_flows(root, &ctx)
}

/// What a file is analysed with for one rule.
pub open spec fn rule_facts<'a>(
    source: Text,
    rule: TaintRule,
    aliases: Option<Map<Text, Text>>,
    cross: Option<CrossFacts>,
    policy: Option<&'a LabelPolicy>,
) -> Facts<'a> {
    Facts {
        src: source,
        sources: rule.sources,
        sanitizers: rule.sanitizers,
        groups: seq![(None, rule.sinks)],
        aliases,
        summaries: Map::empty(),
        cross,
        policy,
    }
}

fn analyze_rule(
    root: Node<'_>,
    source: &str,
    spec: &TaintSpec,
    aliases: Option<&AliasTable>,
    cross_file: Option<&CrossFileInfo<'_>>,
    policy: Option<&LabelPolicy>,
) -> (r: Vec<TaintFinding>)
    requires
        root.valid(source@),
    ensures
        views(r@) == file_flows(
            root.tree,
            root.index as int,
            rule_facts(source@, spec@, opt_view(aliases), opt_view(cross_file), policy),
        ),
{
    let mut groups: Vec<SinkGroup> = Vec::new();
    groups.push(SinkGroup { rule_id: None, sinks: clone_matchers(&spec.sinks) });
    assert(views(groups@) =~= seq![(None::<Text>, spec@.sinks)]);
    analyze_file(root, source, spec, &groups, aliases, cross_file, policy)
}

/// The flows of a rule in every function below `root`.
pub fn analyze_tree(
    root: Node<'_>,
    source: &str,
    spec: &TaintSpec,
    aliases: Option<&AliasTable>,
) -> (r: Vec<TaintFinding>)
    requires
        root.valid(source@),
    ensures
        views(r@) == file_flows(
            root.tree,
            root.index as int,
            rule_facts(source@, spec@, opt_view(aliases), None, None),
        ),
{
    analyze_rule(root, source, spec, aliases, None, None)
}

/// The flows of a rule whose values carry labels.
pub fn analyze_tree_labeled(
    root: Node<'_>,
    source: &str,
    spec: &TaintSpec,
    aliases: Option<&AliasTable>,
    policy: Option<&LabelPolicy>,
) -> (r: Vec<TaintFinding>)
    requires
        root.valid(source@),
    ensures
        views(r@) == file_flows(
            root.tree,
            root.index as int,
            rule_facts(source@, spec@, opt_view(aliases), None, policy),
        ),
{
    analyze_rule(root, source, spec, aliases, None, policy)
}

/// The flows of a rule, through the functions of the package's other files too.
pub fn analyze_tree_with_cross_file(
    root: Node<'_>,
    source: &str,
    spec: &TaintSpec,
    aliases: Option<&AliasTable>,
    cross_file: Option<&CrossFileInfo<'_>>,
) -> (r: Vec<TaintFinding>)
    requires
        root.valid(source@),
    ensures
        views(r@) == file_flows(
            root.tree,
            root.index as int,
            rule_facts(source@, spec@, opt_view(aliases), opt_view(cross_file), None),
        ),
{
    analyze_rule(root, source, spec, aliases, cross_file, None)
}

// ─── Summaries for other files ───────────────────────────────────────────────
/// The description of the first flow from `from` on that belongs to the rule.
pub open spec fn first_flow_of(flows: Seq<Flow>, from: int, rule: Text) -> Option<Text>
    decreases flows.len() - from,
{
    if from < 0 || from >= flows.len() {
        None
    } else if flows[from].rule_id_hint is None || flows[from].rule_id_hint == Some(rule) {
        Some(flows[from].sink_description)
    } else {
        first_flow_of(flows, from + 1, rule)
    }
}

fn first_finding_of(findings: &Vec<TaintFinding>, rule: &str) -> (r: Option<String>)
    ensures
        opt_view(r) == first_flow_of(views(findings@), 0, rule@),
{
    let mut k: usize = 0;
    while k < findings.len()
        invariant
            k <= findings@.len(),
            first_flow_of(views(findings@), 0, rule@) == first_flow_of(
                views(findings@),
                k as int,
                rule@,
            ),
        decreases findings.len() - k,
    {
        assert(views(findings@)[k as int] == findings@[k as int]@);
        let hit = match &findings[k].rule_id_hint {
            None => true,
            Some(h) => text_eq(h.as_str(), rule),
        };
        if hit {
            return Some(findings[k].sink_description.clone());
        }
        k = k + 1;
    }
    None
}

/// What the function at node `f` is analysed with for a parameter and a rule.
pub open spec fn parameter_facts(
    source: Text,
    aliases: Option<Map<Text, Text>>,
    cross: Option<CrossFacts>,
    name: Text,
    rule: TaintRule,
) -> Facts<'static> {
    rule_facts(
        source,
        TaintRule {
            sources: parameter_source(name),
            sinks: rule.sinks,
            sanitizers: rule.sanitizers,
        },
        aliases,
        cross,
        None,
    )
}

/// The rule without sinks and sanitizers.
pub open spec fn passive_rule() -> TaintRule {
    TaintRule { sources: Seq::empty(), sinks: Seq::empty(), sanitizers: Seq::empty() }
}

/// The flows of the parameter `p` into the sinks of the rules from `from` on.
pub open spec fn param_flows(
    t: &SyntaxTree,
    f: int,
    source: Text,
    aliases: Option<Map<Text, Text>>,
    cross: Option<CrossFacts>,
    p: int,
    name: Text,
    rules: Seq<(Text, TaintRule)>,
    from: int,
) -> Seq<SinkFlow>
    decreases rules.len() - from,
{
    if from < 0 || from >= rules.len() {
        Seq::empty()
    } else {
        let rest = param_flows(t, f, source, aliases, cross, p, name, rules, from + 1);
        let cx = parameter_facts(source, aliases, cross, name, rules[from].1);
        match first_flow_of(function_flows(t, f, cx), 0, rules[from].0) {
            Some(d) => seq![
                SinkFlow { param_index: p, sink_rule_id: rules[from].0, sink_description: d },
            ] + rest,
            None => rest,
        }
    }
}

/// The flows of the parameters from `from` on into the sinks of the rules.
pub open spec fn all_param_flows(
    t: &SyntaxTree,
    f: int,
    source: Text,
    aliases: Option<Map<Text, Text>>,
    cross: Option<CrossFacts>,
    names: Seq<Text>,
    from: int,
    rules: Seq<(Text, TaintRule)>,
) -> Seq<SinkFlow>
    decreases names.len() - from,
{
    if from < 0 || from >= names.len() {
        Seq::empty()
    } else {
        param_flows(t, f, source, aliases, cross, from, names[from], rules, 0) + all_param_flows(
            t,
            f,
            source,
            aliases,
            cross,
            names,
            from + 1,
            rules,
        )
    }
}

/// How the function at node `f` passes taint on.
pub open spec fn function_summary(
    t: &SyntaxTree,
    f: int,
    name: Text,
    source: Text,
    aliases: Option<Map<Text, Text>>,
    cross: Option<CrossFacts>,
    rules: Seq<(Text, TaintRule)>,
) -> Summary {
    let names = param_names(t, f, source);
    Summary {
        name,
        params_to_return: returning_params(
            t,
            f,
            names,
            0,
            rule_facts(source, passive_rule(), aliases, cross, None),
        ),
        params_to_sink: all_param_flows(t, f, source, aliases, cross, names, 0, rules),
    }
}

/// Whether a summary says anything.
pub open spec fn tells(s: Summary) -> bool {
    s.params_to_return.len() > 0 || s.params_to_sink.len() > 0
}

#[verifier::loop_isolation(false)]
fn push_param_flows(
    func: Node<'_>,
    source: &str,
    aliases: Option<&AliasTable>,
    cross_file: Option<&CrossFileInfo<'_>>,
    p: usize,
    name: &str,
    rules: &Vec<(&str, TaintSpec)>,
    out: &mut Vec<ParamSinkFlow>,
)
    requires
        func.valid(source@),
    ensures
        views(final(out)@) == views(old(out)@) + param_flows(
            func.tree,
            func.index as int,
            source@,
            opt_view(aliases),
            opt_view(cross_file),
            p as int,
            name@,
            views(rules@),
            0,
        ),
{
    let ghost al = opt_view(aliases);
    let ghost cr = opt_view(cross_file);
    let ghost t = func.tree;
    let ghost f = func.index as int;
    let ghost start = views(out@);
    let none = ReturnSummary::new();
    let mut k: usize = 0;
    while k < rules.len()
        invariant
            k <= rules@.len(),
            start + param_flows(t, f, source@, al, cr, p as int, name@, views(rules@), 0) == views(
                out@,
            ) + param_flows(t, f, source@, al, cr, p as int, name@, views(rules@), k as int),
        decreases rules.len() - k,
    {
        let rule = &rules[k];
        assert(views(rules@)[k as int] == rules@[k as int]@);
        let spec = TaintSpec {
            sources: parameter_sources(name),
            sinks: Vec::new(),
            sanitizers: clone_matchers(&rule.1.sanitizers),
        };
        let mut groups: Vec<SinkGroup> = Vec::new();
        groups.push(SinkGroup { rule_id: None, sinks: clone_matchers(&rule.1.sinks) });
        assert(views(groups@) =~= seq![(None::<Text>, rule.1@.sinks)]);
        let ctx = AnalysisContext {
            source,
            spec: &spec,
            groups: &groups,
            aliases,
            summaries: &none,
            cross_file,
            label_policy: None,
        };
        assert(ctx.facts() == parameter_facts(source@, al, cr, name@, rule.1@));
        let mut found: Vec<TaintFinding> = Vec::new();
        analyze_function(func, &ctx, &mut found);
        assert(views(found@) =~= function_flows(t, f, ctx.facts()));
        let ghost before = views(out@);
        let ghost rest = param_flows(
            t,
            f,
            source@,
            al,
            cr,
            p as int,
            name@,
            views(rules@),
            k + 1,
        );
        match first_finding_of(&found, rule.0) {
            Some(d) => {
                out.push(
                    ParamSinkFlow {
                        param_index: p,
                        sink_rule_id: rule.0.to_owned(),
                        sink_description: d,
                    },
                );
                proof {
                    let here = views(out@).last();
                    assert(before.push(here) + rest =~= before + (seq![here] + rest));
                }
            },
            None => {},
        }
        k = k + 1;
    }
    assert(views(out@) + Seq::<SinkFlow>::empty() =~= views(out@));
}

fn summarize_function(
    func: Node<'_>,
    name: &str,
    source: &str,
    aliases: Option<&AliasTable>,
    cross_file: Option<&CrossFileInfo<'_>>,
    rules: &Vec<(&str, TaintSpec)>,
) -> (r: FunctionTaintSummary)
    requires
        func.valid(source@),
    ensures
        r@ == function_summary(
            func.tree,
            func.index as int,
            name@,
            source@,
            opt_view(aliases),
            opt_view(cross_file),
            views(rules@),
        ),
{
    let names = collect_param_names(func, source);
    let none = ReturnSummary::new();
    let passive = TaintSpec::default();
    let mut groups: Vec<SinkGroup> = Vec::new();
    groups.push(SinkGroup { rule_id: None, sinks: Vec::new() });
    assert(views(groups@) =~= seq![(None::<Text>, passive_rule().sinks)]);
    let ctx = AnalysisContext {
        source,
        spec: &passive,
        groups: &groups,
        aliases,
        summaries: &none,
        cross_file,
        label_policy: None,
    };
    assert(ctx.facts() == rule_facts(
        source@,
        passive_rule(),
        opt_view(aliases),
        opt_view(cross_file),
        None,
    ));
    let forwarded = params_to_return(func, &names, &passive.sanitizers, &ctx);
    let ghost al = opt_view(aliases);
    let ghost cr = opt_view(cross_file);
    let ghost t = func.tree;
    let ghost f = func.index as int;
    let ghost all = all_param_flows(t, f, source@, al, cr, views(names@), 0, views(rules@));
    let mut flows: Vec<ParamSinkFlow> = Vec::new();
    assert(views(flows@) + all =~= all);
    let mut p: usize = 0;
    while p < names.len()
        invariant
            func.valid(source@),
            p <= names@.len(),
            al == opt_view(aliases),
            cr == opt_view(cross_file),
            t == func.tree,
            f == func.index,
            views(flows@) + all_param_flows(
                t,
                f,
                source@,
                al,
                cr,
                views(names@),
                p as int,
                views(rules@),
            ) == all,
        decreases names.len() - p,
    {
        assert(views(names@)[p as int] == names@[p as int]@);
        let ghost before = views(flows@);
        push_param_flows(func, source, aliases, cross_file, p, names[p], rules, &mut flows);
        proof {
            let here = param_flows(
                t,
                f,
                source@,
                al,
                cr,
                p as int,
                names@[p as int]@,
                views(rules@),
                0,
            );
            let rest = all_param_flows(
                t,
                f,
                source@,
                al,
                cr,
                views(names@),
                p + 1,
                views(rules@),
            );
            assert(before + here + rest =~= before + (here + rest));
        }
        p = p + 1;
    }
    assert(views(flows@) + Seq::<SinkFlow>::empty() =~= views(flows@));
    FunctionTaintSummary {
        name: name.to_owned(),
        params_to_return: forwarded,
        params_to_sink: flows,
    }
}

/// The summaries, where they say anything, of the named functions among the nodes from `c` on.
pub open spec fn summaries_in(
    t: &SyntaxTree,
    c: int,
    e: int,
    source: Text,
    aliases: Option<Map<Text, Text>>,
    cross: Option<CrossFacts>,
    rules: Seq<(Text, TaintRule)>,
) -> Seq<Summary>
    decreases gap(c, e),
{
    if c >= e {
        Seq::empty()
    } else {
        let rest = summaries_in(t, c + 1, e, source, aliases, cross, rules);
        match t.field_text(c, "name"@, source) {
            Some(name) => if is_function(t, c) && tells(
                function_summary(t, c, name, source, aliases, cross, rules),
            ) {
                seq![function_summary(t, c, name, source, aliases, cross, rules)] + rest
            } else {
                rest
            },
            None => rest,
        }
    }
}

fn collect_function_summaries(
    root: Node<'_>,
    source: &str,
    aliases: Option<&AliasTable>,
    cross_file: Option<&CrossFileInfo<'_>>,
    rules: &Vec<(&str, TaintSpec)>,
) -> (r: Vec<FunctionTaintSummary>)
    requires
        root.valid(source@),
    ensures
        views(r@) == summaries_in(
            root.tree,
            root.index as int,
            root.tree.after(root.index as int),
            source@,
            opt_view(aliases),
            opt_view(cross_file),
            views(rules@),
        ),
{
    let ghost al = opt_view(aliases);
    let ghost cr = opt_view(cross_file);
    let ghost t = root.tree;
    let e: usize = root.end();
    let mut c: usize = root.index;
    let mut out: Vec<FunctionTaintSummary> = Vec::new();
    let ghost all = summaries_in(t, c as int, e as int, source@, al, cr, views(rules@));
    assert(views(out@) + all =~= all);
    while c < e
        invariant
            root.valid(source@),
            al == opt_view(aliases),
            cr == opt_view(cross_file),
            t == root.tree,
            e <= root.tree.len(),
            views(out@) + summaries_in(t, c as int, e as int, source@, al, cr, views(rules@))
                == all,
        decreases gap(c as int, e as int),
    {
        let n = root.at(c);
        if defines_function(n) {
            match n.field_text("name", source) {
                Some(name) => {
                    let s = summarize_function(n, name, source, aliases, cross_file, rules);
                    let ghost before = views(out@);
                    let ghost rest = summaries_in(
                        t,
                        c + 1,
                        e as int,
                        source@,
                        al,
                        cr,
                        views(rules@),
                    );
                    if s.params_to_return.len() > 0 || s.params_to_sink.len() > 0 {
                        assert(tells(s@));
                        out.push(s);
                        assert(before.push(s@) + rest =~= before + (seq![s@] + rest));
                    }
                },
                None => {},
            }
        }
        c = c + 1;
    }
    assert(views(out@) + Seq::<Summary>::empty() =~= views(out@));
    out
}

/// How the functions of a file pass the taint of their parameters on.
pub fn extract_cross_file_summaries(
    root: Node<'_>,
    source: &str,
    aliases: Option<&AliasTable>,
    rule_specs: &Vec<(&str, TaintSpec)>,
) -> (r: Vec<FunctionTaintSummary>)
    requires
        root.valid(source@),
    ensures
        views(r@) == summaries_in(
            root.tree,
            root.index as int,
            root.tree.after(root.index as int),
            source@,
            opt_view(aliases),
            None,
            views(rule_specs@),
        ),
{
    collect_function_summaries(root, source, aliases, None, rule_specs)
}

/// The same, where calls into the package's other files are followed by one step.
pub fn compose_cross_file_summaries(
    root: Node<'_>,
    source: &str,
    aliases: Option<&AliasTable>,
    rule_specs: &Vec<(&str, TaintSpec)>,
    same_package_paths: &Vec<String>,
    summaries: &CrossFileSummaryMap,
    allowed_rule_ids: &Vec<String>,
) -> (r: Vec<FunctionTaintSummary>)
    requires
        root.valid(source@),
    ensures
        views(r@) == summaries_in(
            root.tree,
            root.index as int,
            root.tree.after(root.index as int),
            source@,
            opt_view(aliases),
            Some(
                CrossFacts {
                    paths: views(same_package_paths@),
                    files: summaries@,
                    allowed: views(allowed_rule_ids@),
                },
            ),
            views(rule_specs@),
        ),
{
    let cross = CrossFileInfo {
        same_package_paths,
        summaries,
        rule_filter: RuleFilter::Any(allowed_rule_ids),
    };
    collect_function_summaries(root, source, aliases, Some(&cross), rule_specs)
}

// ─── Several rules at once ───────────────────────────────────────────────────
/// A rule that is run together with others.
#[derive(Debug)]
pub struct BatchedRule<'a> {
    pub rule_id: &'a str,
    pub spec: &'a TaintSpec,
}

impl<'a> View for BatchedRule<'a> {
    type V = (Text, TaintRule);

    open spec fn view(&self) -> (Text, TaintRule) {
        (self.rule_id@, self.spec@)
    }
}

/// What is known of a package's other files when several rules are run at once.
#[derive(Debug)]
pub struct CrossFileInfoBatched<'a> {
    pub same_package_paths: &'a Vec<String>,
    pub summaries: &'a CrossFileSummaryMap,
}

/// Whether two rules can share a walk: they agree on sources and sanitizers.
pub open spec fn share_walk(a: TaintRule, b: TaintRule) -> bool {
    a.sources == b.sources && a.sanitizers == b.sanitizers
}

/// Whether an earlier rule shares its walk with the rule `k`.
pub open spec fn is_covered(rules: Seq<(Text, TaintRule)>, k: int) -> bool {
    exists|j: int| #![trigger rules[j]] 0 <= j < k && share_walk(rules[j].1, rules[k].1)
}

/// The sinks of the rules from `from` on that share a walk with the rule `k`.
pub open spec fn group_sinks(rules: Seq<(Text, TaintRule)>, k: int, from: int) -> Seq<
    (Option<Text>, Seq<Matcher>),
>
    decreases rules.len() - from,
{
    if from < 0 || from >= rules.len() {
        Seq::empty()
    } else if share_walk(rules[from].1, rules[k].1) {
        seq![(Some(rules[from].0), rules[from].1.sinks)] + group_sinks(rules, k, from + 1)
    } else {
        group_sinks(rules, k, from + 1)
    }
}

/// The ids of the rules from `from` on that share a walk with the rule `k`.
pub open spec fn group_ids(rules: Seq<(Text, TaintRule)>, k: int, from: int) -> Seq<Text>
    decreases rules.len() - from,
{
    if from < 0 || from >= rules.len() {
        Seq::empty()
    } else if share_walk(rules[from].1, rules[k].1) {
        seq![rules[from].0] + group_ids(rules, k, from + 1)
    } else {
        group_ids(rules, k, from + 1)
    }
}

/// What a file is analysed with for the rules that share a walk with the rule `k`.
pub open spec fn group_facts(
    source: Text,
    rules: Seq<(Text, TaintRule)>,
    k: int,
    aliases: Option<Map<Text, Text>>,
    cross: Option<(Seq<Text>, Map<Text, Vec<FunctionTaintSummary>>)>,
) -> Facts<'static> {
    Facts {
        src: source,
        sources: rules[k].1.sources,
        sanitizers: rules[k].1.sanitizers,
        groups: group_sinks(rules, k, 0),
        aliases,
        summaries: Map::empty(),
        cross: match cross {
            Some(x) => Some(
                CrossFacts { paths: x.0, files: x.1, allowed: group_ids(rules, k, 0) },
            ),
            None => None,
        },
        policy: None,
    }
}

/// The flows of a list that name their rule, from `from` on, each under that rule.
pub open spec fn attributed(flows: Seq<Flow>, from: int) -> Seq<(Text, Flow)>
    decreases flows.len() - from,
{
    if from < 0 || from >= flows.len() {
        Seq::empty()
    } else {
        match flows[from].rule_id_hint {
            Some(h) => seq![(h, flows[from])] + attributed(flows, from + 1),
            None => attributed(flows, from + 1),
        }
    }
}

/// The flows of the rules from `k` on, one walk for all that share it.
pub open spec fn batched_flows(
    t: &SyntaxTree,
    root: int,
    source: Text,
    rules: Seq<(Text, TaintRule)>,
    k: int,
    aliases: Option<Map<Text, Text>>,
    cross: Option<(Seq<Text>, Map<Text, Vec<FunctionTaintSummary>>)>,
) -> Seq<(Text, Flow)>
    decreases rules.len() - k,
{
    if k < 0 || k >= rules.len() {
        Seq::empty()
    } else {
        let rest = batched_flows(t, root, source, rules, k + 1, aliases, cross);
        if is_covered(rules, k) {
            rest
        } else {
            attributed(
                file_flows(t, root, group_facts(source, rules, k, aliases, cross)),
                0,
            ) + rest
        }
    }
}

fn same_walk(a: &TaintSpec, b: &TaintSpec) -> (r: bool)
    ensures
        r == share_walk(a@, b@),
{
    crate::taint_engine::same_matchers(&a.sources, &b.sources)
        && crate::taint_engine::same_matchers(&a.sanitizers, &b.sanitizers)
}

#[verifier::loop_isolation(false)]
fn covered(rules: &Vec<BatchedRule<'_>>, k: usize) -> (r: bool)
    requires
        k < rules@.len(),
    ensures
        r == is_covered(views(rules@), k as int),
{
    let mut j: usize = 0;
    while j < k
        invariant
            j <= k,
            forall|m: int|
                #![trigger views(rules@)[m]]
                0 <= m < j ==> !share_walk(views(rules@)[m].1, views(rules@)[k as int].1),
        decreases k - j,
    {
        assert(views(rules@)[j as int] == rules@[j as int]@);
        assert(views(rules@)[k as int] == rules@[k as int]@);
        if same_walk(rules[j].spec, rules[k].spec) {
            return true;
        }
        j = j + 1;
    }
    false
}

#[verifier::loop_isolation(false)]
fn build_group(rules: &Vec<BatchedRule<'_>>, k: usize) -> (r: (Vec<SinkGroup>, Vec<String>))
    requires
        k < rules@.len(),
    ensures
        views(r.0@) == group_sinks(views(rules@), k as int, 0),
        views(r.1@) == group_ids(views(rules@), k as int, 0),
{
    let ghost all = views(rules@);
    let mut groups: Vec<SinkGroup> = Vec::new();
    let mut ids: Vec<String> = Vec::new();
    let mut j: usize = 0;
    assert(views(groups@) + group_sinks(all, k as int, 0) =~= group_sinks(all, k as int, 0));
    assert(views(ids@) + group_ids(all, k as int, 0) =~= group_ids(all, k as int, 0));
    while j < rules.len()
        invariant
            j <= rules@.len(),
            views(groups@) + group_sinks(all, k as int, j as int) == group_sinks(all, k as int, 0),
            views(ids@) + group_ids(all, k as int, j as int) == group_ids(all, k as int, 0),
        decreases rules.len() - j,
    {
        assert(all[j as int] == rules@[j as int]@);
        assert(all[k as int] == rules@[k as int]@);
        if same_walk(rules[j].spec, rules[k].spec) {
            let ghost g0 = views(groups@);
            let ghost i0 = views(ids@);
            groups.push(
                SinkGroup {
                    rule_id: Some(rules[j].rule_id.to_owned()),
                    sinks: clone_matchers(&rules[j].spec.sinks),
                },
            );
            ids.push(rules[j].rule_id.to_owned());
            proof {
                let g = (Some(all[j as int].0), all[j as int].1.sinks);
                assert(groups@.last()@ == g);
                assert(g0.push(g) + group_sinks(all, k as int, j + 1) =~= g0 + (seq![g]
                    + group_sinks(all, k as int, j + 1)));
                let id = all[j as int].0;
                assert(i0.push(id) + group_ids(all, k as int, j + 1) =~= i0 + (seq![id]
                    + group_ids(all, k as int, j + 1)));
            }
        }
        j = j + 1;
    }
    assert(views(groups@) + Seq::<(Option<Text>, Seq<Matcher>)>::empty() =~= views(groups@));
    assert(views(ids@) + Seq::<Text>::empty() =~= views(ids@));
    (groups, ids)
}

fn push_attributed_findings(out: &mut Vec<(String, TaintFinding)>, findings: Vec<TaintFinding>)
    ensures
        views(final(out)@) == views(old(out)@) + attributed(views(findings@), 0),
{
    let ghost all = views(findings@);
    let ghost start = views(out@);
    let mut rest: Vec<TaintFinding> = findings;
    let mut k: usize = 0;
    let n: usize = rest.len();
    while k < n
        invariant
            k <= n,
            n == all.len(),
            rest@.len() == n - k,
            forall|j: int| #![trigger rest@[j]] 0 <= j < rest@.len() ==> rest@[j]@ == all[k + j],
            start + attributed(all, 0) == views(out@) + attributed(all, k as int),
        decreases n - k,
    {
        let ghost r0 = rest@;
        let f = rest.remove(0);
        assert(f@ == all[k as int]);
        assert forall|j: int| #![trigger rest@[j]] 0 <= j < rest@.len() implies rest@[j]@ == all[k
            + 1 + j] by {
            assert(rest@[j] == r0[j + 1]);
        }
        let ghost before = views(out@);
        match &f.rule_id_hint {
            Some(h) => {
                let id = h.clone();
                out.push((id, f));
                proof {
                    let x = (all[k as int].rule_id_hint->0, all[k as int]);
                    assert(out@.last()@ == x);
                    assert(before.push(x) + attributed(all, k + 1) =~= before + (seq![x]
                        + attributed(all, k + 1)));
                }
            },
            None => {},
        }
        k = k + 1;
    }
    assert(views(out@) + Seq::<(Text, Flow)>::empty() =~= views(out@));
}

/// What a [`CrossFileInfoBatched`] denotes.
pub open spec fn batched_cross(o: Option<&CrossFileInfoBatched<'_>>) -> Option<
    (Seq<Text>, Map<Text, Vec<FunctionTaintSummary>>),
> {
    match o {
        Some(c) => Some((views(c.same_package_paths@), c.summaries@)),
        None => None,
    }
}

/// The flows of several rules, each under its rule. Rules with the same sources
/// and sanitizers share a walk.
pub fn analyze_tree_batched(
    root: Node<'_>,
    source: &str,
    rules: &Vec<BatchedRule<'_>>,
    aliases: Option<&AliasTable>,
    cross_file: Option<&CrossFileInfoBatched<'_>>,
) -> (r: Vec<(String, TaintFinding)>)
    requires
        root.valid(source@),
    ensures
        views(r@) == batched_flows(
            root.tree,
            root.index as int,
            source@,
            views(rules@),
            0,
            opt_view(aliases),
            batched_cross(cross_file),
        ),
{
    let ghost al = opt_view(aliases);
    let ghost cr = batched_cross(cross_file);
    let ghost t = root.tree;
    let ghost at = root.index as int;
    let ghost all = batched_flows(t, at, source@, views(rules@), 0, al, cr);
    let mut out: Vec<(String, TaintFinding)> = Vec::new();
    assert(views(out@) + all =~= all);
    let mut k: usize = 0;
    while k < rules.len()
        invariant
            root.valid(source@),
            k <= rules@.len(),
            al == opt_view(aliases),
            cr == batched_cross(cross_file),
            t == root.tree,
            at == root.index,
            views(out@) + batched_flows(t, at, source@, views(rules@), k as int, al, cr) == all,
        decreases rules.len() - k,
    {
        assert(views(rules@)[k as int] == rules@[k as int]@);
        if !covered(rules, k) {
            let (groups, ids) = build_group(rules, k);
            let ghost cx = group_facts(source@, views(rules@), k as int, al, cr);
            let found = match cross_file {
                Some(c) => {
                    let cross = CrossFileInfo {
                        same_package_paths: c.same_package_paths,
                        summaries: c.summaries,
                        rule_filter: RuleFilter::Any(&ids),
                    };
                    analyze_file(root, source, rules[k].spec, &groups, aliases, Some(&cross), None)
                },
                None => analyze_file(root, source, rules[k].spec, &groups, aliases, None, None),
            };
            assert(views(found@) == file_flows(t, at, cx));
            let ghost before = views(out@);
            push_attributed_findings(&mut out, found);
            proof {
                let here = attributed(file_flows(t, at, cx), 0);
                let rest = batched_flows(t, at, source@, views(rules@), k + 1, al, cr);
                assert(before + here + rest =~= before + (here + rest));
            }
        }
        k = k + 1;
    }
    assert(views(out@) + Seq::<(Text, Flow)>::empty() =~= views(out@));
    out
}

/// What is untrusted in Go: request data of the common web frameworks, the environment and the command line.
pub open spec fn go_sources() -> Seq<Matcher> {
    seq![
        m_params(seq!["r"@, "req"@, "request"@], "net/http request parameter"@),
        m_attribute("r"@, "URL"@, "http.Request.URL"@),
        m_attribute("r"@, "Header"@, "http.Request.Header"@),
        m_attribute("r"@, "Body"@, "http.Request.Body"@),
        m_attribute("r"@, "Form"@, "http.Request.Form"@),
        m_call("r.FormValue"@, "http.Request.FormValue"@),
        m_call("r.PostFormValue"@, "http.Request.PostFormValue"@),
        m_call("r.URL.Query"@, "http.Request.URL.Query()"@),
        m_call("c.Query"@, "gin *Context.Query"@),
        m_call("c.PostForm"@, "gin *Context.PostForm"@),
        m_call("c.Param"@, "gin *Context.Param"@),
        m_call("c.GetHeader"@, "gin *Context.GetHeader"@),
        m_call("c.GetQuery"@, "gin *Context.GetQuery"@),
        m_call("c.GetString"@, "gin *Context.GetString"@),
        m_call("c.FormValue"@, "gin *Context.FormValue"@),
        m_attribute("c"@, "Request"@, "gin *Context.Request"@),
        m_call("c.QueryParam"@, "echo Context.QueryParam"@),
        m_call("c.Params"@, "fiber Ctx.Params"@),
        m_call("c.Body"@, "fiber Ctx.Body"@),
        m_call("chi.URLParam"@, "chi.URLParam"@),
        m_call("os.Getenv"@, "os.Getenv"@),
        m_attribute("os"@, "Args"@, "os.Args"@),
    ]
}

/// What is untrusted in Go: request data of the common web frameworks, the environment and the command line.
pub fn go_taint_sources() -> (r: Vec<NodeMatcher>)
    ensures
        views(r@) == go_sources(),
{
    let mut v: Vec<NodeMatcher> = Vec::new();
    let names = ["r", "req", "request"];
    assert(views(names@) =~= seq!["r"@, "req"@, "request"@]);
    v.push(params(&names, "net/http request parameter"));
    v.push(attribute("r", "URL", "http.Request.URL"));
    v.push(attribute("r", "Header", "http.Request.Header"));
    v.push(attribute("r", "Body", "http.Request.Body"));
    v.push(attribute("r", "Form", "http.Request.Form"));
    v.push(call("r.FormValue", "http.Request.FormValue"));
    v.push(call("r.PostFormValue", "http.Request.PostFormValue"));
    v.push(call("r.URL.Query", "http.Request.URL.Query()"));
    v.push(call("c.Query", "gin *Context.Query"));
    v.push(call("c.PostForm", "gin *Context.PostForm"));
    v.push(call("c.Param", "gin *Context.Param"));
    v.push(call("c.GetHeader", "gin *Context.GetHeader"));
    v.push(call("c.GetQuery", "gin *Context.GetQuery"));
    v.push(call("c.GetString", "gin *Context.GetString"));
    v.push(call("c.FormValue", "gin *Context.FormValue"));
    v.push(attribute("c", "Request", "gin *Context.Request"));
    v.push(call("c.QueryParam", "echo Context.QueryParam"));
    v.push(call("c.Params", "fiber Ctx.Params"));
    v.push(call("c.Body", "fiber Ctx.Body"));
    v.push(call("chi.URLParam", "chi.URLParam"));
    v.push(call("os.Getenv", "os.Getenv"));
    v.push(attribute("os", "Args", "os.Args"));
    v
}

// ─── Imports ─────────────────────────────────────────────────────────────────
/// The aliases after the import at node `i`. The local name of a package stands
/// for the last part of its path.
pub open spec fn after_import(t: &SyntaxTree, i: int, src: Text, aliases: Map<Text, Text>) -> Map<
    Text,
    Text,
> {
    match t.field_text(i, "path"@, src) {
        None => aliases,
        Some(raw) => {
            let path = trimmed_of(raw, '"', '`');
            let canonical = last_segment(path, '/');
            if path.len() == 0 {
                aliases
            } else {
                match t.field(i, "name"@) {
                    None => aliases.insert(canonical, canonical),
                    Some(n) => if t.kind(n) == "dot"@ || t.kind(n) == "blank_identifier"@ {
                        aliases
                    } else if t.kind(n) == "package_identifier"@ {
                        aliases.insert(t.text(n, src), canonical)
                    } else {
                        aliases.insert(canonical, canonical)
                    },
                }
            }
        },
    }
}

fn go_collect_import_spec(aliases: &mut AliasTable, node: Node<'_>, source: &str)
    requires
        node.valid(source@),
    ensures
        final(aliases)@ == after_import(node.tree, node.index as int, source@, old(aliases)@),
{
    let raw = match node.field_text("path", source) {
        None => {
            return;
        },
        Some(p) => p,
    };
    let path = trim_chars(raw, '"', '`');
    if path.is_empty() {
        return;
    }
    let canonical = past_last(path, '/').to_owned();
    match node.child_by_field_name("name") {
        None => aliases.insert(canonical.clone(), canonical),
        Some(n) => {
            if n.is_kind("dot") || n.is_kind("blank_identifier") {
                return;
            }
            if n.is_kind("package_identifier") {
                aliases.insert(n.text(source).to_owned(), canonical);
            } else {
                aliases.insert(canonical.clone(), canonical);
            }
        },
    }
}

/// The aliases after the single imports among the siblings from `c` on.
pub open spec fn after_specs(
    t: &SyntaxTree,
    c: int,
    e: int,
    src: Text,
    aliases: Map<Text, Text>,
) -> Map<Text, Text>
    decreases gap(c, e),
{
    if c >= e {
        aliases
    } else {
        after_specs(
            t,
            t.after(c),
            e,
            src,
            if t.kind(c) == "import_spec"@ {
                after_import(t, c, src, aliases)
            } else {
                aliases
            },
        )
    }
}

/// The aliases after the imports, single or in lists, among the siblings from `c` on.
pub open spec fn after_declaration(
    t: &SyntaxTree,
    c: int,
    e: int,
    src: Text,
    aliases: Map<Text, Text>,
) -> Map<Text, Text>
    decreases gap(c, e),
{
    if c >= e {
        aliases
    } else {
        after_declaration(
            t,
            t.after(c),
            e,
            src,
            if t.kind(c) == "import_spec"@ {
                after_import(t, c, src, aliases)
            } else if t.kind(c) == "import_spec_list"@ {
                after_specs(t, c + 1, t.after(c), src, aliases)
            } else {
                aliases
            },
        )
    }
}

/// The aliases after the import declarations among the siblings from `c` on.
pub open spec fn after_declarations(
    t: &SyntaxTree,
    c: int,
    e: int,
    src: Text,
    aliases: Map<Text, Text>,
) -> Map<Text, Text>
    decreases gap(c, e),
{
    if c >= e {
        aliases
    } else {
        after_declarations(
            t,
            t.after(c),
            e,
            src,
            if t.kind(c) == "import_declaration"@ {
                after_declaration(t, c + 1, t.after(c), src, aliases)
            } else {
                aliases
            },
        )
    }
}

fn go_collect_import_list(aliases: &mut AliasTable, node: Node<'_>, source: &str)
    requires
        node.valid(source@),
    ensures
        final(aliases)@ == after_specs(
            node.tree,
            node.index + 1,
            node.tree.after(node.index as int),
            source@,
            old(aliases)@,
        ),
{
    let e: usize = node.end();
    let mut c: usize = node.index + 1;
    while c < e
        invariant
            node.valid(source@),
            e == node.tree.after(node.index as int),
            e <= node.tree.len(),
            after_specs(node.tree, node.index + 1, e as int, source@, old(aliases)@) == after_specs(
                node.tree,
                c as int,
                e as int,
                source@,
                aliases@,
            ),
        decreases gap(c as int, e as int),
    {
        let n = node.at(c);
        if n.is_kind("import_spec") {
            go_collect_import_spec(aliases, n, source);
        }
        c = n.end();
    }
}

fn go_collect_import_decl(aliases: &mut AliasTable, node: Node<'_>, source: &str)
    requires
        node.valid(source@),
    ensures
        final(aliases)@ == after_declaration(
            node.tree,
            node.index + 1,
            node.tree.after(node.index as int),
            source@,
            old(aliases)@,
        ),
{
    let e: usize = node.end();
    let mut c: usize = node.index + 1;
    while c < e
        invariant
            node.valid(source@),
            e == node.tree.after(node.index as int),
            e <= node.tree.len(),
            after_declaration(node.tree, node.index + 1, e as int, source@, old(aliases)@)
                == after_declaration(node.tree, c as int, e as int, source@, aliases@),
        decreases gap(c as int, e as int),
    {
        let n = node.at(c);
        if n.is_kind("import_spec") {
            go_collect_import_spec(aliases, n, source);
        } else if n.is_kind("import_spec_list") {
            go_collect_import_list(aliases, n, source);
        }
        c = n.end();
    }
}

/// The local names of the packages that a file imports.
pub open spec fn import_aliases(t: &SyntaxTree, src: Text) -> Map<Text, Text> {
    after_declarations(t, 1, t.after(0), src, Map::empty())
}

/// The local names of the packages that a file imports, and what they stand for.
/// Dot and blank imports introduce no name.
pub fn go_aliases_from_tree(source: &str, tree: &SyntaxTree) -> (r: AliasTable)
    requires
        tree.valid(source@),
        tree.len() > 0,
    ensures
        r@ == import_aliases(tree, source@),
{
    let mut aliases = AliasTable::new();
    let root = tree.root_node();
    let e: usize = root.end();
    let mut c: usize = 1;
    while c < e
        invariant
            root.valid(source@),
            root.tree == tree,
            e <= tree.len(),
            e == tree.after(0),
            import_aliases(tree, source@) == after_declarations(
                tree,
                c as int,
                e as int,
                source@,
                aliases@,
            ),
        decreases gap(c as int, e as int),
    {
        let n = root.at(c);
        if n.is_kind("import_declaration") {
            go_collect_import_decl(&mut aliases, n, source);
        }
        c = n.end();
    }
    aliases
}

} // verus!
