//! The engine for languages whose scopes are read in several passes.
//!
//! A scope is a function body without the scopes nested in it. Its nodes are read
//! in source order, three times over, to settle which variables are tainted; then
//! its calls are held against the sinks of the rule.
use crate::cross_file::{
    contains_flow, has_flow, ints, keyed, lookup_cross_file_summary, put_summary, rule_allowed,
    summary_in, CrossFileSummaryMap, FunctionTaintSummary, ParamSinkFlow, SinkFlow, Summary,
};
use crate::taint_engine::{
    bump_hops, clone_matchers, cross_file_flow, cross_file_taint_finding, extend_matchers, lookup,
    parameter_source, parameter_sources, source_labels, source_labels_spec, Flow, Info, LabelPolicy,
    Matcher, NodeMatcher, Propagator, TaintFinding, TaintInfo, TaintRule, TaintSpec, TaintState,
};
use crate::text::{
    chars_of, is_white, is_whitespace, last_segment, opt_view, past_last, skip_white_back, text_eq,
    trim, trim_end, trimmed, trimmed_end, views, Text,
};
use crate::tree::{gap, indices, Node, SyntaxTree};
use vstd::prelude::*;
use vstd::string::*;

verus! {

broadcast use {crate::text::group_views, crate::tree::group_tree};

/// What a scope is read against: the file's text, the rule and its label policy.
pub struct Context<'a> {
    pub source: &'a str,
    pub spec: &'a TaintSpec,
    pub policy: Option<&'a LabelPolicy>,
}

/// What a [`Context`] denotes.
pub struct Given<'a> {
    pub src: Text,
    pub rule: TaintRule,
    pub policy: Option<&'a LabelPolicy>,
}

impl<'a> View for Context<'a> {
    type V = Given<'a>;

    open spec fn view(&self) -> Given<'a> {
        Given { src: self.source@, rule: self.spec@, policy: self.policy }
    }
}

/// A value that is tainted at node `i` itself.
pub open spec fn fresh(t: &SyntaxTree, i: int, description: Text, cx: Given<'_>) -> Info {
    Info { description, line: t.line(i), hops: 0, labels: source_labels_spec(cx.policy) }
}

/// A value that is tainted at a node itself.
pub fn fresh_info(node: Node<'_>, description: String, ctx: &Context<'_>) -> (r: TaintInfo)
    requires
        node.wf(),
    ensures
        r@ == fresh(node.tree, node.index as int, description@, ctx@),
{
    TaintInfo { description, line: node.line(), hops: 0, labels: source_labels(ctx.policy) }
}

/// The state in which `name` holds `value`: a clean value cleans the name.
pub open spec fn assigned(st: Map<Text, Info>, name: Text, value: Option<Info>) -> Map<Text, Info> {
    match value {
        Some(info) => st.insert(name, info),
        None => st.remove(name),
    }
}

/// Gives a name a value: a clean value cleans the name.
pub fn assign(state: &mut TaintState, name: &str, value: Option<TaintInfo>)
    ensures
        final(state)@ == assigned(old(state)@, name@, opt_view(value)),
{
    match value {
        Some(info) => state.taint(name.to_owned(), info),
        None => state.clear(name),
    }
}

/// The value one step further on.
pub open spec fn stepped(value: Option<Info>) -> Option<Info> {
    match value {
        Some(info) => Some(info.bumped()),
        None => None,
    }
}

/// The value one step further on.
pub fn step(value: Option<TaintInfo>) -> (r: Option<TaintInfo>)
    ensures
        opt_view(r) == stepped(opt_view(value)),
{
    match value {
        Some(info) => Some(bump_hops(info)),
        None => None,
    }
}

/// What a language tells the engine about its syntax tree.
pub trait ScopeLanguage {
    /// Whether node `i` is a scope of its own.
    spec fn is_scope(t: &SyntaxTree, i: int) -> bool;

    fn scope_node(node: Node<'_>) -> (r: bool)
        requires
            node.wf(),
        ensures
            r == Self::is_scope(node.tree, node.index as int),
    ;

    /// The node whose descendants are the body of the scope at node `f`.
    spec fn body(t: &SyntaxTree, f: int) -> int;

    fn scope_body<'a>(scope: Node<'a>) -> (r: Node<'a>)
        requires
            scope.wf(),
        ensures
            r.tree == scope.tree,
            r.wf(),
            r.index == Self::body(scope.tree, scope.index as int),
    ;

    /// The variables that are tainted when the scope at node `f` is entered.
    spec fn entry_state(t: &SyntaxTree, f: int, cx: Given<'_>) -> Map<Text, Info>;

    fn collect_param_sources(scope: Node<'_>, ctx: &Context<'_>) -> (r: TaintState)
        requires
            scope.valid(ctx.source@),
        ensures
            r@ == Self::entry_state(scope.tree, scope.index as int, ctx@),
    ;

    /// The state after node `i` is read in the state `st`.
    spec fn state_after(t: &SyntaxTree, i: int, cx: Given<'_>, st: Map<Text, Info>) -> Map<
        Text,
        Info,
    >;

    fn read_node(node: Node<'_>, ctx: &Context<'_>, state: &mut TaintState)
        requires
            node.valid(ctx.source@),
        ensures
            final(state)@ == Self::state_after(node.tree, node.index as int, ctx@, old(state)@),
    ;

    /// The state in which the sources that no assignment makes are tainted again,
    /// in the body at node `b`.
    spec fn reseeded(t: &SyntaxTree, b: int, cx: Given<'_>, st: Map<Text, Info>) -> Map<Text, Info>;

    fn reseed(body: Node<'_>, ctx: &Context<'_>, state: &mut TaintState)
        requires
            body.valid(ctx.source@),
        ensures
            final(state)@ == Self::reseeded(body.tree, body.index as int, ctx@, old(state)@),
    ;

    /// The variable that the method called at node `i` is called on, and the method.
    spec fn receiver_call(t: &SyntaxTree, i: int, src: Text) -> Option<(Text, Text)>;

    fn call_on_variable<'s>(node: Node<'_>, source: &'s str) -> (r: Option<(&'s str, &'s str)>)
        requires
            node.valid(source@),
        ensures
            opt_view(r) == Self::receiver_call(node.tree, node.index as int, source@),
    ;

    /// What the arguments of the call at node `i` pass on to its receiver.
    spec fn passed_on(t: &SyntaxTree, i: int, cx: Given<'_>, st: Map<Text, Info>) -> Option<Info>;

    fn argument_taint(node: Node<'_>, ctx: &Context<'_>, state: &TaintState) -> (r: Option<
        TaintInfo,
    >)
        requires
            node.valid(ctx.source@),
        ensures
            opt_view(r) == Self::passed_on(node.tree, node.index as int, ctx@, state@),
    ;

    /// The taint of the expression at node `i`.
    spec fn taint_of(t: &SyntaxTree, i: int, cx: Given<'_>, st: Map<Text, Info>) -> Option<Info>;

    fn expression_taint(node: Node<'_>, ctx: &Context<'_>, state: &TaintState) -> (r: Option<
        TaintInfo,
    >)
        requires
            node.valid(ctx.source@),
        ensures
            opt_view(r) == Self::taint_of(node.tree, node.index as int, ctx@, state@),
    ;

    /// The flows into the sinks of the body at node `b`, in the state `st`.
    spec fn sink_flows(t: &SyntaxTree, b: int, cx: Given<'_>, st: Map<Text, Info>) -> Seq<Flow>;

    fn find_sinks(body: Node<'_>, ctx: &Context<'_>, state: &TaintState) -> (r: Vec<TaintFinding>)
        requires
            body.valid(ctx.source@),
        ensures
            views(r@) == Self::sink_flows(body.tree, body.index as int, ctx@, state@),
    ;
}

// ─── Declared types ──────────────────────────────────────────────────────────
/// White space at the end is no longer than the text.
pub proof fn lemma_trimmed_end_len(s: Text)
    ensures
        0 <= skip_white_back(s, 0, s.len() as int) <= s.len(),
        trimmed_end(s).len() <= s.len(),
{
    lemma_skip_white_back(s, s.len() as int);
}

proof fn lemma_skip_white_back(s: Text, end: int)
    requires
        0 <= end <= s.len(),
    ensures
        0 <= skip_white_back(s, 0, end) <= end,
    decreases end,
{
    if end > 0 && is_white(s[end - 1]) {
        lemma_skip_white_back(s, end - 1);
    }
}

/// Where the brackets of an array begin that end a type: they hold commas and white space
/// at most. The characters behind the position `k` are read already.
pub open spec fn bracket_before(s: Text, k: int) -> Option<int>
    decreases k + 1,
{
    if k < 0 || k >= s.len() {
        None
    } else if s[k] == '[' {
        Some(k)
    } else if s[k] == ',' || is_white(s[k]) {
        bracket_before(s, k - 1)
    } else {
        None
    }
}

/// Where the type arguments begin that end a type: at the `<` that closes as many `>` as
/// are open. Of those behind the position `k`, `depth` are open.
pub open spec fn arguments_before(s: Text, k: int, depth: int) -> Option<int>
    decreases k + 1,
{
    if k < 0 || k >= s.len() {
        None
    } else if s[k] == '>' {
        arguments_before(s, k - 1, depth + 1)
    } else if s[k] != '<' {
        arguments_before(s, k - 1, depth)
    } else if depth <= 1 {
        Some(k)
    } else {
        arguments_before(s, k - 1, depth - 1)
    }
}

/// Where the array brackets or the type arguments begin that end a type.
pub open spec fn suffix_start(s: Text) -> Option<int> {
    if s.len() > 0 && s.last() == ']' {
        bracket_before(s, s.len() - 2)
    } else if s.len() > 0 && s.last() == '>' {
        arguments_before(s, s.len() - 1, 0)
    } else {
        None
    }
}

proof fn lemma_bracket_before(s: Text, k: int)
    ensures
        bracket_before(s, k) matches Some(p) ==> 0 <= p <= k && p < s.len(),
    decreases k + 1,
{
    if 0 <= k < s.len() {
        lemma_bracket_before(s, k - 1);
    }
}

proof fn lemma_arguments_before(s: Text, k: int, depth: int)
    ensures
        arguments_before(s, k, depth) matches Some(p) ==> 0 <= p <= k && p < s.len(),
    decreases k + 1,
{
    if 0 <= k < s.len() {
        lemma_arguments_before(s, k - 1, depth);
        lemma_arguments_before(s, k - 1, depth + 1);
        lemma_arguments_before(s, k - 1, depth - 1);
    }
}

/// What ends a type lies within it.
pub proof fn lemma_suffix_start(s: Text)
    ensures
        suffix_start(s) matches Some(p) ==> 0 <= p < s.len(),
{
    lemma_bracket_before(s, s.len() - 2);
    lemma_arguments_before(s, s.len() - 1, 0);
}

/// A type without the array brackets and type arguments at its end, as long as there are any.
pub open spec fn without_suffixes(s: Text) -> Text
    decreases s.len(),
{
    match suffix_start(s) {
        Some(p) => {
            proof {
                lemma_suffix_start(s);
                lemma_trimmed_end_len(s.take(p));
            }
            without_suffixes(trimmed_end(s.take(p)))
        },
        None => s,
    }
}

/// The simple name of a declared type: `Cookie` for `a.b.Cookie`, `Cookie[]`, `Cookie<T>`
/// and `Cookie<T>[]`.
pub open spec fn simple_type(s: Text) -> Text {
    trimmed(last_segment(without_suffixes(trimmed(s)), '.'))
}

fn find_suffix(a: &Vec<char>) -> (r: Option<usize>)
    ensures
        match r {
            Some(p) => suffix_start(a@) == Some(p as int) && p < a@.len(),
            None => suffix_start(a@) is None,
        },
{
    let n: usize = a.len();
    if n == 0 {
        return None;
    }
    let mut k: usize = n;
    if a[n - 1] == ']' {
        k = n - 1;
        while k > 0
            invariant
                k < n,
                n == a@.len(),
                a@.last() == ']',
                suffix_start(a@) == bracket_before(a@, k - 1),
            decreases k,
        {
            k = k - 1;
            if a[k] == '[' {
                return Some(k);
            }
            if !(a[k] == ',' || is_whitespace(a[k])) {
                return None;
            }
        }
        return None;
    }
    if a[n - 1] != '>' {
        return None;
    }
    let mut depth: usize = 0;
    while k > 0
        invariant
            k <= n,
            n == a@.len(),
            depth <= n - k,
            suffix_start(a@) == arguments_before(a@, k - 1, depth as int),
        decreases k,
    {
        k = k - 1;
        if a[k] == '>' {
            depth = depth + 1;
        } else if a[k] == '<' {
            if depth <= 1 {
                return Some(k);
            }
            depth = depth - 1;
        }
    }
    None
}

fn strip_suffixes(s: &str) -> (r: &str)
    ensures
        r@ == without_suffixes(s@),
    decreases s@.len(),
{
    let a = chars_of(s);
    match find_suffix(&a) {
        Some(p) => {
            proof {
                lemma_trimmed_end_len(s@.take(p as int));
                assert(s@.subrange(0, p as int) =~= s@.take(p as int));
            }
            strip_suffixes(trim_end(s.substring_char(0, p)))
        },
        None => s,
    }
}

/// The simple name of a declared type.
pub fn type_final_segment(type_text: &str) -> (r: &str)
    ensures
        r@ == simple_type(type_text@),
{
    trim(past_last(strip_suffixes(trim(type_text)), '.'))
}

/// The description of the first of `sources[from..]` that is a variable of the type
/// with the simple name `name`.
pub open spec fn typed_source(sources: Seq<Matcher>, from: int, name: Text) -> Option<Text>
    decreases sources.len() - from,
{
    if from < 0 || from >= sources.len() {
        None
    } else {
        match sources[from] {
            Matcher::TypedName { declared, description } => if declared == name {
                Some(description)
            } else {
                typed_source(sources, from + 1, name)
            },
            _ => typed_source(sources, from + 1, name),
        }
    }
}

/// What makes a variable of the type `declared` a source.
pub open spec fn type_source(sources: Seq<Matcher>, declared: Option<Text>) -> Option<Text> {
    match declared {
        Some(ty) => typed_source(sources, 0, simple_type(ty)),
        None => None,
    }
}

/// What makes a variable of a declared type a source.
pub fn typed_source_description(spec: &TaintSpec, declared: Option<&str>) -> (r: Option<String>)
    ensures
        opt_view(r) == type_source(spec@.sources, opt_view(declared)),
{
    let name = match declared {
        Some(ty) => type_final_segment(ty),
        None => {
            return None;
        },
    };
    let ghost all = spec@.sources;
    let mut i: usize = 0;
    while i < spec.sources.len()
        invariant
            i <= spec.sources@.len(),
            all == views(spec.sources@),
            typed_source(all, 0, name@) == typed_source(all, i as int, name@),
            type_source(all, opt_view(declared)) == typed_source(all, 0, name@),
            spec@.sources == all,
        decreases spec.sources.len() - i,
    {
        assert(all[i as int] == spec.sources@[i as int]@);
        match &spec.sources[i] {
            NodeMatcher::TypedName { declared: d, description } => {
                if text_eq(d.as_str(), name) {
                    return Some(description.clone());
                }
            },
            _ => {},
        }
        i = i + 1;
    }
    None
}

// ─── Passes over a scope ─────────────────────────────────────────────────────
/// The state after the nodes from `c` to before `e` are read in order. Nested
/// scopes are left out.
pub open spec fn read_all<L: ScopeLanguage>(
    t: &SyntaxTree,
    c: int,
    e: int,
    cx: Given<'_>,
    st: Map<Text, Info>,
) -> Map<Text, Info>
    decreases gap(c, e),
{
    if c >= e {
        st
    } else if L::is_scope(t, c) {
        read_all::<L>(t, t.after(c), e, cx, st)
    } else {
        read_all::<L>(t, c + 1, e, cx, L::state_after(t, c, cx, st))
    }
}

/// The state after the body at node `b` is read once.
pub open spec fn read_body<L: ScopeLanguage>(
    t: &SyntaxTree,
    b: int,
    cx: Given<'_>,
    st: Map<Text, Info>,
) -> Map<Text, Info> {
    read_all::<L>(t, b + 1, t.after(b), cx, st)
}

/// Reads the assignments of a body in order.
pub fn propagate_assignments<L: ScopeLanguage>(
    body: Node<'_>,
    ctx: &Context<'_>,
    state: &mut TaintState,
)
    requires
        body.valid(ctx.source@),
    ensures
        final(state)@ == read_body::<L>(body.tree, body.index as int, ctx@, old(state)@),
{
    let e: usize = body.end();
    let mut c: usize = body.index + 1;
    while c < e
        invariant
            body.valid(ctx.source@),
            e <= body.tree.len(),
            read_body::<L>(body.tree, body.index as int, ctx@, old(state)@) == read_all::<L>(
                body.tree,
                c as int,
                e as int,
                ctx@,
                state@,
            ),
        decreases gap(c as int, e as int),
    {
        let n = body.at(c);
        if L::scope_node(n) {
            c = n.end();
        } else {
            L::read_node(n, ctx, state);
            c = c + 1;
        }
    }
}

/// Whether one of the propagators is for the method.
pub open spec fn propagates(propagators: Seq<Option<Text>>, method: Text) -> bool {
    exists|k: int|
        #![trigger propagators[k]]
        0 <= k < propagators.len() && (propagators[k] is None || propagators[k] == Some(method))
}

fn is_propagated(propagators: &Vec<Propagator>, method: &str) -> (r: bool)
    ensures
        r == propagates(views(propagators@), method@),
{
    let mut i: usize = 0;
    while i < propagators.len()
        invariant
            i <= propagators@.len(),
            forall|k: int|
                #![trigger views(propagators@)[k]]
                0 <= k < i ==> !(views(propagators@)[k] is None || views(propagators@)[k] == Some(
                    method@,
                )),
        decreases propagators.len() - i,
    {
        assert(views(propagators@)[i as int] == propagators@[i as int]@);
        let hit = match &propagators[i].method {
            Some(m) => text_eq(m.as_str(), method),
            None => true,
        };
        if hit {
            return true;
        }
        i = i + 1;
    }
    false
}

/// The variable that the call at node `i` taints by its arguments, and its value.
/// A variable that is tainted already keeps what is known of it.
pub open spec fn tainted_receiver<L: ScopeLanguage>(
    t: &SyntaxTree,
    i: int,
    propagators: Seq<Option<Text>>,
    cx: Given<'_>,
    st: Map<Text, Info>,
) -> Option<(Text, Info)> {
    match L::receiver_call(t, i, cx.src) {
        Some(call) => if propagates(propagators, call.1) && lookup(st, call.0) is None {
            match L::passed_on(t, i, cx, st) {
                Some(info) => Some((call.0, info.bumped())),
                None => None,
            }
        } else {
            None
        },
        None => None,
    }
}

/// The state `acc` after the calls at the nodes from `c` to before `e` have tainted
/// their receivers. Every call is read in the state `st`.
pub open spec fn receivers_tainted<L: ScopeLanguage>(
    t: &SyntaxTree,
    c: int,
    e: int,
    propagators: Seq<Option<Text>>,
    cx: Given<'_>,
    st: Map<Text, Info>,
    acc: Map<Text, Info>,
) -> Map<Text, Info>
    decreases gap(c, e),
{
    if c >= e {
        acc
    } else if L::is_scope(t, c) {
        receivers_tainted::<L>(t, t.after(c), e, propagators, cx, st, acc)
    } else {
        let next = match tainted_receiver::<L>(t, c, propagators, cx, st) {
            Some(x) => acc.insert(x.0, x.1),
            None => acc,
        };
        receivers_tainted::<L>(t, c + 1, e, propagators, cx, st, next)
    }
}

fn taint_receiver<L: ScopeLanguage>(
    node: Node<'_>,
    ctx: &Context<'_>,
    propagators: &Vec<Propagator>,
    state: &TaintState,
) -> (r: Option<(String, TaintInfo)>)
    requires
        node.valid(ctx.source@),
    ensures
        opt_view(r) == tainted_receiver::<L>(
            node.tree,
            node.index as int,
            views(propagators@),
            ctx@,
            state@,
        ),
{
    match L::call_on_variable(node, ctx.source) {
        None => None,
        Some((name, method)) => {
            if !is_propagated(propagators, method) || state.info(name).is_some() {
                None
            } else {
                match L::argument_taint(node, ctx, state) {
                    Some(info) => Some((name.to_owned(), bump_hops(info))),
                    None => None,
                }
            }
        },
    }
}

/// The values of `pending[from..]` put into the state `acc`, in order.
spec fn put_all(pending: Seq<(Text, Info)>, from: int, acc: Map<Text, Info>) -> Map<Text, Info>
    decreases pending.len() - from,
{
    if from < 0 || from >= pending.len() {
        acc
    } else {
        put_all(pending, from + 1, acc.insert(pending[from].0, pending[from].1))
    }
}

proof fn lemma_put_all_push(
    pending: Seq<(Text, Info)>,
    x: (Text, Info),
    from: int,
    acc: Map<Text, Info>,
)
    requires
        0 <= from <= pending.len(),
    ensures
        put_all(pending.push(x), from, acc) == put_all(pending, from, acc).insert(x.0, x.1),
    decreases pending.len() - from,
{
    reveal_with_fuel(put_all, 2);
    if from < pending.len() {
        assert(pending.push(x)[from] == pending[from]);
        lemma_put_all_push(pending, x, from + 1, acc.insert(pending[from].0, pending[from].1));
    }
}

/// Taints the receivers of the calls whose arguments are tainted.
pub fn apply_propagators<L: ScopeLanguage>(
    body: Node<'_>,
    ctx: &Context<'_>,
    propagators: &Vec<Propagator>,
    state: &mut TaintState,
)
    requires
        body.valid(ctx.source@),
    ensures
        final(state)@ == receivers_tainted::<L>(
            body.tree,
            body.index + 1,
            body.tree.after(body.index as int),
            views(propagators@),
            ctx@,
            old(state)@,
            old(state)@,
        ),
{
    let ghost st = state@;
    let ghost props = views(propagators@);
    let e: usize = body.end();
    let mut c: usize = body.index + 1;
    let mut pending: Vec<(String, TaintInfo)> = Vec::new();
    let ghost all = receivers_tainted::<L>(
        body.tree,
        c as int,
        e as int,
        props,
        ctx@,
        st,
        put_all(views(pending@), 0, st),
    );
    while c < e
        invariant
            body.valid(ctx.source@),
            e <= body.tree.len(),
            st == state@,
            props == views(propagators@),
            all == receivers_tainted::<L>(
                body.tree,
                c as int,
                e as int,
                props,
                ctx@,
                st,
                put_all(views(pending@), 0, st),
            ),
        decreases gap(c as int, e as int),
    {
        let n = body.at(c);
        if L::scope_node(n) {
            c = n.end();
        } else {
            match taint_receiver::<L>(n, ctx, propagators, &*state) {
                Some(x) => {
                    proof {
                        lemma_put_all_push(views(pending@), x@, 0, st);
                    }
                    pending.push(x);
                },
                None => {},
            }
            c = c + 1;
        }
    }
    let mut k: usize = 0;
    while k < pending.len()
        invariant
            k <= pending@.len(),
            put_all(views(pending@), 0, st) == put_all(views(pending@), k as int, state@),
        decreases pending.len() - k,
    {
        assert(views(pending@)[k as int] == pending@[k as int]@);
        let p = &pending[k];
        state.taint(p.0.clone(), p.1.clone());
        k = k + 1;
    }
}

/// The state after one pass over the body at node `b`.
pub open spec fn passed<L: ScopeLanguage>(
    t: &SyntaxTree,
    b: int,
    propagators: Seq<Option<Text>>,
    cx: Given<'_>,
    st: Map<Text, Info>,
) -> Map<Text, Info> {
    let read = L::reseeded(t, b, cx, read_body::<L>(t, b, cx, st));
    receivers_tainted::<L>(t, b + 1, t.after(b), propagators, cx, read, read)
}

/// The variables that are tainted in the scope at node `f`, after three passes.
pub open spec fn settled<L: ScopeLanguage>(
    t: &SyntaxTree,
    f: int,
    propagators: Seq<Option<Text>>,
    cx: Given<'_>,
) -> Map<Text, Info> {
    let b = L::body(t, f);
    let first = passed::<L>(t, b, propagators, cx, L::entry_state(t, f, cx));
    let second = passed::<L>(t, b, propagators, cx, first);
    passed::<L>(t, b, propagators, cx, second)
}

/// The variables that are tainted in the scope at node `f` by its parameters and
/// assignments alone.
pub open spec fn assigned_in<L: ScopeLanguage>(t: &SyntaxTree, f: int, cx: Given<'_>) -> Map<
    Text,
    Info,
> {
    let b = L::body(t, f);
    let first = read_body::<L>(t, b, cx, L::entry_state(t, f, cx));
    let second = read_body::<L>(t, b, cx, first);
    read_body::<L>(t, b, cx, second)
}

fn pass<L: ScopeLanguage>(
    body: Node<'_>,
    ctx: &Context<'_>,
    propagators: &Vec<Propagator>,
    state: &mut TaintState,
)
    requires
        body.valid(ctx.source@),
    ensures
        final(state)@ == passed::<L>(
            body.tree,
            body.index as int,
            views(propagators@),
            ctx@,
            old(state)@,
        ),
{
    propagate_assignments::<L>(body, ctx, state);
    L::reseed(body, ctx, state);
    apply_propagators::<L>(body, ctx, propagators, state);
}

fn settle<L: ScopeLanguage>(
    scope: Node<'_>,
    ctx: &Context<'_>,
    propagators: &Vec<Propagator>,
) -> (state: TaintState)
    requires
        scope.valid(ctx.source@),
    ensures
        state@ == settled::<L>(scope.tree, scope.index as int, views(propagators@), ctx@),
{
    let body = L::scope_body(scope);
    let mut state = L::collect_param_sources(scope, ctx);
    pass::<L>(body, ctx, propagators, &mut state);
    pass::<L>(body, ctx, propagators, &mut state);
    pass::<L>(body, ctx, propagators, &mut state);
    state
}

fn settle_assignments<L: ScopeLanguage>(scope: Node<'_>, ctx: &Context<'_>) -> (state: TaintState)
    requires
        scope.valid(ctx.source@),
    ensures
        state@ == assigned_in::<L>(scope.tree, scope.index as int, ctx@),
{
    let body = L::scope_body(scope);
    let mut state = L::collect_param_sources(scope, ctx);
    propagate_assignments::<L>(body, ctx, &mut state);
    propagate_assignments::<L>(body, ctx, &mut state);
    propagate_assignments::<L>(body, ctx, &mut state);
    state
}

// ─── Flows in a file ─────────────────────────────────────────────────────────
/// The flows in the scope at node `f`.
pub open spec fn scope_flows<L: ScopeLanguage>(
    t: &SyntaxTree,
    f: int,
    propagators: Seq<Option<Text>>,
    cx: Given<'_>,
) -> Seq<Flow> {
    L::sink_flows(t, L::body(t, f), cx, settled::<L>(t, f, propagators, cx))
}

/// The flows in the scopes among the nodes from `c` to before `e`.
pub open spec fn file_flows<L: ScopeLanguage>(
    t: &SyntaxTree,
    c: int,
    e: int,
    propagators: Seq<Option<Text>>,
    cx: Given<'_>,
) -> Seq<Flow>
    decreases gap(c, e),
{
    if c >= e {
        Seq::empty()
    } else if L::is_scope(t, c) {
        scope_flows::<L>(t, c, propagators, cx) + file_flows::<L>(t, c + 1, e, propagators, cx)
    } else {
        file_flows::<L>(t, c + 1, e, propagators, cx)
    }
}

/// The flows in one scope.
pub fn analyze_scope<L: ScopeLanguage>(
    scope: Node<'_>,
    ctx: &Context<'_>,
    propagators: &Vec<Propagator>,
) -> (r: Vec<TaintFinding>)
    requires
        scope.valid(ctx.source@),
    ensures
        views(r@) == scope_flows::<L>(
            scope.tree,
            scope.index as int,
            views(propagators@),
            ctx@,
        ),
{
    let state = settle::<L>(scope, ctx, propagators);
    L::find_sinks(L::scope_body(scope), ctx, &state)
}

/// The flows in every scope under a node.
pub fn analyze_scopes<L: ScopeLanguage>(
    root: Node<'_>,
    ctx: &Context<'_>,
    propagators: &Vec<Propagator>,
) -> (r: Vec<TaintFinding>)
    requires
        root.valid(ctx.source@),
    ensures
        views(r@) == file_flows::<L>(
            root.tree,
            root.index as int,
            root.tree.after(root.index as int),
            views(propagators@),
            ctx@,
        ),
{
    let ghost props = views(propagators@);
    let mut out: Vec<TaintFinding> = Vec::new();
    let e: usize = root.end();
    let mut c: usize = root.index;
    let ghost all = file_flows::<L>(root.tree, c as int, e as int, props, ctx@);
    assert(views(out@) + all =~= all);
    while c < e
        invariant
            root.valid(ctx.source@),
            props == views(propagators@),
            e <= root.tree.len(),
            views(out@) + file_flows::<L>(root.tree, c as int, e as int, props, ctx@) == all,
        decreases gap(c as int, e as int),
    {
        let n = root.at(c);
        if L::scope_node(n) {
            let ghost before = views(out@);
            let mut found = analyze_scope::<L>(n, ctx, propagators);
            let ghost here = views(found@);
            out.append(&mut found);
            proof {
                let rest = file_flows::<L>(root.tree, c + 1, e as int, props, ctx@);
                assert(before + here + rest =~= before + (here + rest));
            }
        }
        c = c + 1;
    }
    assert(views(out@) + Seq::<Flow>::empty() =~= views(out@));
    out
}

// ─── Across files ────────────────────────────────────────────────────────────
/// What a language tells the engine about its methods and calls, for taint that
/// crosses files. A method is known by its bare name.
pub trait CrossFileLanguage: ScopeLanguage {
    /// Whether node `i` declares a method that other files can call.
    spec fn is_method(t: &SyntaxTree, i: int) -> bool;

    fn method_node(node: Node<'_>) -> (r: bool)
        requires
            node.wf(),
        ensures
            r == Self::is_method(node.tree, node.index as int),
    ;

    /// The names of the parameters of the method at node `f`.
    spec fn params(t: &SyntaxTree, f: int, src: Text) -> Seq<Text>;

    fn method_param_names<'s>(method: Node<'_>, source: &'s str) -> (r: Vec<&'s str>)
        requires
            method.valid(source@),
        ensures
            views(r@) == Self::params(method.tree, method.index as int, source@),
    ;

    /// The bare name of the method that node `i` calls.
    spec fn callee(t: &SyntaxTree, i: int, src: Text) -> Option<Text>;

    fn callee_name<'s>(node: Node<'_>, source: &'s str) -> (r: Option<&'s str>)
        requires
            node.valid(source@),
        ensures
            opt_view(r) == Self::callee(node.tree, node.index as int, source@),
    ;

    /// The arguments of the call at node `i`.
    spec fn arguments(t: &SyntaxTree, i: int) -> Option<Seq<int>>;

    fn argument_nodes<'a>(node: Node<'a>) -> (r: Option<Vec<Node<'a>>>)
        requires
            node.wf(),
        ensures
            match r {
                Some(v) => Self::arguments(node.tree, node.index as int) == Some(indices(v@)),
                None => Self::arguments(node.tree, node.index as int) is None,
            },
            r matches Some(v) ==> forall|k: int|
                #![trigger v@[k]]
                0 <= k < v@.len() ==> v@[k].tree == node.tree && v@[k].wf(),
    ;
}

/// The rule under which the parameter `name` is the only source.
pub open spec fn parameter_rule(name: Text, sinks: Seq<Matcher>, sanitizers: Seq<Matcher>) -> TaintRule {
    TaintRule { sources: parameter_source(name), sinks, sanitizers }
}

/// A rule without labels, on the text `src`.
pub open spec fn given<'a>(src: Text, rule: TaintRule) -> Given<'a> {
    Given { src, rule, policy: None }
}

/// Whether one of the `return` statements among the nodes from `c` to before `e`
/// gives back a tainted value.
pub open spec fn gives_back<L: ScopeLanguage>(
    t: &SyntaxTree,
    c: int,
    e: int,
    cx: Given<'_>,
    st: Map<Text, Info>,
) -> bool
    decreases gap(c, e),
{
    if c >= e {
        false
    } else if L::is_scope(t, c) {
        gives_back::<L>(t, t.after(c), e, cx, st)
    } else if returns_taint::<L>(t, c, cx, st) {
        true
    } else {
        gives_back::<L>(t, c + 1, e, cx, st)
    }
}

/// Whether node `i` is a `return` statement that gives back a tainted value.
pub open spec fn returns_taint<L: ScopeLanguage>(
    t: &SyntaxTree,
    i: int,
    cx: Given<'_>,
    st: Map<Text, Info>,
) -> bool {
    t.kind(i) == "return_statement"@ && match t.first_named(i) {
        Some(k) => L::taint_of(t, k, cx, st) is Some,
        None => false,
    }
}

/// Whether the parameter `name` of the method at node `f` reaches a `return`.
pub open spec fn reaches_return<L: ScopeLanguage>(
    t: &SyntaxTree,
    f: int,
    name: Text,
    src: Text,
) -> bool {
    let b = L::body(t, f);
    let cx = given(src, parameter_rule(name, Seq::empty(), Seq::empty()));
    gives_back::<L>(t, b + 1, t.after(b), cx, assigned_in::<L>(t, f, cx))
}

/// Whether a parameter reaches a `return` of its method.
pub fn param_flows_to_return<L: ScopeLanguage>(method: Node<'_>, name: &str, source: &str) -> (r:
    bool)
    requires
        method.valid(source@),
    ensures
        r == reaches_return::<L>(method.tree, method.index as int, name@, source@),
{
    let spec = TaintSpec {
        sources: parameter_sources(name),
        sinks: Vec::new(),
        sanitizers: Vec::new(),
    };
    let ctx = Context { source, spec: &spec, policy: None };
    let ghost cx = given(source@, parameter_rule(name@, Seq::empty(), Seq::empty()));
    assert(ctx@ == cx);
    let body = L::scope_body(method);
    let state = settle_assignments::<L>(method, &ctx);
    let e: usize = body.end();
    let mut c: usize = body.index + 1;
    while c < e
        invariant
            body.valid(source@),
            ctx@ == cx,
            ctx.source@ == source@,
            e <= body.tree.len(),
            reaches_return::<L>(method.tree, method.index as int, name@, source@)
                == gives_back::<L>(body.tree, c as int, e as int, cx, state@),
        decreases gap(c as int, e as int),
    {
        let n = body.at(c);
        if L::scope_node(n) {
            c = n.end();
        } else {
            if n.is_kind("return_statement") {
                match n.first_named_child() {
                    Some(k) => {
                        if L::expression_taint(k, &ctx, &state).is_some() {
                            return true;
                        }
                    },
                    None => {},
                }
            }
            c = c + 1;
        }
    }
    false
}

/// The flows of the parameter `name`, at position `p`, into the sinks of the rules
/// from `from` on: one for each rule, the first that is found.
pub open spec fn param_flows<L: ScopeLanguage>(
    t: &SyntaxTree,
    f: int,
    p: int,
    name: Text,
    src: Text,
    rules: Seq<(Text, TaintRule)>,
    from: int,
) -> Seq<SinkFlow>
    decreases rules.len() - from,
{
    if from < 0 || from >= rules.len() {
        Seq::empty()
    } else {
        let rest = param_flows::<L>(t, f, p, name, src, rules, from + 1);
        let rule = rules[from].1;
        let flows = scope_flows::<L>(
            t,
            f,
            Seq::empty(),
            given(src, parameter_rule(name, rule.sinks, rule.sanitizers)),
        );
        if flows.len() > 0 {
            seq![
                SinkFlow {
                    param_index: p,
                    sink_rule_id: rules[from].0,
                    sink_description: flows[0].sink_description,
                },
            ] + rest
        } else {
            rest
        }
    }
}

#[verifier::loop_isolation(false)]
fn push_param_flows<L: ScopeLanguage>(
    method: Node<'_>,
    p: usize,
    name: &str,
    source: &str,
    rules: &Vec<(&str, TaintSpec)>,
    out: &mut Vec<ParamSinkFlow>,
)
    requires
        method.valid(source@),
    ensures
        views(final(out)@) == views(old(out)@) + param_flows::<L>(
            method.tree,
            method.index as int,
            p as int,
            name@,
            source@,
            views(rules@),
            0,
        ),
{
    let ghost t = method.tree;
    let ghost f = method.index as int;
    let ghost start = views(out@);
    let none: Vec<Propagator> = Vec::new();
    assert(views(none@) =~= Seq::<Option<Text>>::empty());
    let mut k: usize = 0;
    while k < rules.len()
        invariant
            k <= rules@.len(),
            start + param_flows::<L>(t, f, p as int, name@, source@, views(rules@), 0) == views(
                out@,
            ) + param_flows::<L>(t, f, p as int, name@, source@, views(rules@), k as int),
        decreases rules.len() - k,
    {
        let rule = &rules[k];
        assert(views(rules@)[k as int] == rules@[k as int]@);
        let spec = TaintSpec {
            sources: parameter_sources(name),
            sinks: clone_matchers(&rule.1.sinks),
            sanitizers: clone_matchers(&rule.1.sanitizers),
        };
        let ctx = Context { source, spec: &spec, policy: None };
        assert(ctx@ == given(
            source@,
            parameter_rule(name@, rule.1@.sinks, rule.1@.sanitizers),
        ));
        let found = analyze_scope::<L>(method, &ctx, &none);
        let ghost before = views(out@);
        let ghost rest = param_flows::<L>(
            t,
            f,
            p as int,
            name@,
            source@,
            views(rules@),
            k + 1,
        );
        if found.len() > 0 {
            out.push(
                ParamSinkFlow {
                    param_index: p,
                    sink_rule_id: rule.0.to_owned(),
                    sink_description: found[0].sink_description.clone(),
                },
            );
            proof {
                let here = views(out@).last();
                assert(views(found@)[0] == found@[0]@);
                assert(before.push(here) + rest =~= before + (seq![here] + rest));
            }
        }
        k = k + 1;
    }
    assert(views(out@) + Seq::<SinkFlow>::empty() =~= views(out@));
}

/// The positions, from `from` on, of the parameters that reach a `return`.
pub open spec fn returned_params<L: ScopeLanguage>(
    t: &SyntaxTree,
    f: int,
    names: Seq<Text>,
    from: int,
    src: Text,
) -> Seq<int>
    decreases names.len() - from,
{
    if from < 0 || from >= names.len() {
        Seq::empty()
    } else {
        let rest = returned_params::<L>(t, f, names, from + 1, src);
        if reaches_return::<L>(t, f, names[from], src) {
            seq![from] + rest
        } else {
            rest
        }
    }
}

/// The flows of the parameters from `from` on into the sinks of the rules.
pub open spec fn all_param_flows<L: ScopeLanguage>(
    t: &SyntaxTree,
    f: int,
    names: Seq<Text>,
    from: int,
    src: Text,
    rules: Seq<(Text, TaintRule)>,
) -> Seq<SinkFlow>
    decreases names.len() - from,
{
    if from < 0 || from >= names.len() {
        Seq::empty()
    } else {
        param_flows::<L>(t, f, from, names[from], src, rules, 0) + all_param_flows::<L>(
            t,
            f,
            names,
            from + 1,
            src,
            rules,
        )
    }
}

/// How the method at node `f` passes the taint of its parameters on.
pub open spec fn method_summary<L: CrossFileLanguage>(
    t: &SyntaxTree,
    f: int,
    name: Text,
    src: Text,
    rules: Seq<(Text, TaintRule)>,
) -> Summary {
    let names = L::params(t, f, src);
    Summary {
        name,
        params_to_return: returned_params::<L>(t, f, names, 0, src),
        params_to_sink: all_param_flows::<L>(t, f, names, 0, src, rules),
    }
}

/// Whether a summary says anything.
pub open spec fn tells(s: Summary) -> bool {
    s.params_to_return.len() > 0 || s.params_to_sink.len() > 0
}

/// How a method passes the taint of its parameters on: nothing where it does not.
pub fn summarize_method<L: CrossFileLanguage>(
    method: Node<'_>,
    name: &str,
    source: &str,
    rules: &Vec<(&str, TaintSpec)>,
) -> (r: Option<FunctionTaintSummary>)
    requires
        method.valid(source@),
    ensures
        opt_view(r) == {
            let s = method_summary::<L>(
                method.tree,
                method.index as int,
                name@,
                source@,
                views(rules@),
            );
            if tells(s) {
                Some(s)
            } else {
                None
            }
        },
{
    broadcast use crate::cross_file::lemma_ints_push;

    let names = L::method_param_names(method, source);
    let ghost t = method.tree;
    let ghost f = method.index as int;
    let ghost ns = views(names@);
    let ghost rs = views(rules@);
    let mut forwarded: Vec<usize> = Vec::new();
    let mut flows: Vec<ParamSinkFlow> = Vec::new();
    let ghost all_back = returned_params::<L>(t, f, ns, 0, source@);
    let ghost all_flows = all_param_flows::<L>(t, f, ns, 0, source@, rs);
    assert(ints(forwarded@) + all_back =~= all_back);
    assert(views(flows@) + all_flows =~= all_flows);
    let mut p: usize = 0;
    while p < names.len()
        invariant
            method.valid(source@),
            p <= names@.len(),
            t == method.tree,
            f == method.index,
            ns == views(names@),
            rs == views(rules@),
            ints(forwarded@) + returned_params::<L>(t, f, ns, p as int, source@) == all_back,
            views(flows@) + all_param_flows::<L>(t, f, ns, p as int, source@, rs) == all_flows,
        decreases names.len() - p,
    {
        assert(ns[p as int] == names@[p as int]@);
        let ghost back = ints(forwarded@);
        let ghost back_rest = returned_params::<L>(t, f, ns, p + 1, source@);
        if param_flows_to_return::<L>(method, names[p], source) {
            forwarded.push(p);
            assert(back.push(p as int) + back_rest =~= back + (seq![p as int] + back_rest));
        }
        let ghost before = views(flows@);
        push_param_flows::<L>(method, p, names[p], source, rules, &mut flows);
        proof {
            let here = param_flows::<L>(t, f, p as int, ns[p as int], source@, rs, 0);
            let rest = all_param_flows::<L>(t, f, ns, p + 1, source@, rs);
            assert(before + here + rest =~= before + (here + rest));
        }
        p = p + 1;
    }
    assert(ints(forwarded@) + Seq::<int>::empty() =~= ints(forwarded@));
    assert(views(flows@) + Seq::<SinkFlow>::empty() =~= views(flows@));
    if flows.len() == 0 && forwarded.len() == 0 {
        return None;
    }
    Some(
        FunctionTaintSummary {
            name: name.to_owned(),
            params_to_return: forwarded,
            params_to_sink: flows,
        },
    )
}

/// The summaries, where they say anything, of the named methods among the nodes
/// from `c` to before `e`.
pub open spec fn summaries_in<L: CrossFileLanguage>(
    t: &SyntaxTree,
    c: int,
    e: int,
    src: Text,
    rules: Seq<(Text, TaintRule)>,
) -> Seq<Summary>
    decreases gap(c, e),
{
    if c >= e {
        Seq::empty()
    } else {
        let rest = summaries_in::<L>(t, c + 1, e, src, rules);
        match t.field_text(c, "name"@, src) {
            Some(name) => if L::is_method(t, c) && tells(
                method_summary::<L>(t, c, name, src, rules),
            ) {
                seq![method_summary::<L>(t, c, name, src, rules)] + rest
            } else {
                rest
            },
            None => rest,
        }
    }
}

/// How the methods of a file pass the taint of their parameters on, by their names: of the
/// methods of one name the last one counts.
pub fn extract_summaries<L: CrossFileLanguage>(
    root: Node<'_>,
    source: &str,
    rules: &Vec<(&str, TaintSpec)>,
) -> (r: Vec<FunctionTaintSummary>)
    requires
        root.valid(source@),
    ensures
        views(r@) == keyed(
            summaries_in::<L>(
                root.tree,
                root.index as int,
                root.tree.after(root.index as int),
                source@,
                views(rules@),
            ),
        ),
{
    let ghost t = root.tree;
    let ghost rs = views(rules@);
    let e: usize = root.end();
    let mut c: usize = root.index;
    let mut out: Vec<FunctionTaintSummary> = Vec::new();
    let ghost all = summaries_in::<L>(t, c as int, e as int, source@, rs);
    let ghost mut seen: Seq<Summary> = Seq::empty();
    assert(seen + all =~= all);
    assert(views(out@) =~= keyed(seen));
    while c < e
        invariant
            root.valid(source@),
            t == root.tree,
            rs == views(rules@),
            e <= root.tree.len(),
            seen + summaries_in::<L>(t, c as int, e as int, source@, rs) == all,
            views(out@) == keyed(seen),
        decreases gap(c as int, e as int),
    {
        let n = root.at(c);
        if L::method_node(n) {
            match n.field_text("name", source) {
                Some(name) => {
                    let ghost before = seen;
                    let ghost rest = summaries_in::<L>(t, c + 1, e as int, source@, rs);
                    match summarize_method::<L>(n, name, source, rules) {
                        Some(s) => {
                            proof {
                                seen = before.push(s@);
                                assert(seen.drop_last() =~= before);
                                assert(seen + rest =~= before + (seq![s@] + rest));
                            }
                            put_summary(&mut out, s);
                        },
                        None => {},
                    }
                },
                None => {},
            }
        }
        c = c + 1;
    }
    assert(seen + Seq::<Summary>::empty() =~= seen);
    out
}

/// What is known of the other files of a package: where they are, what their methods
/// do, and which rules may report by it.
pub struct CrossFileInfo<'a> {
    pub same_package_paths: &'a Vec<String>,
    pub summaries: &'a CrossFileSummaryMap,
    pub allowed_rule_ids: &'a Vec<String>,
}

/// What a [`CrossFileInfo`] denotes.
pub struct Siblings {
    pub paths: Seq<Text>,
    pub files: Map<Text, Vec<FunctionTaintSummary>>,
    pub allowed: Seq<Text>,
}

impl<'a> View for CrossFileInfo<'a> {
    type V = Siblings;

    open spec fn view(&self) -> Siblings {
        Siblings {
            paths: views(self.same_package_paths@),
            files: self.summaries@,
            allowed: views(self.allowed_rule_ids@),
        }
    }
}

impl Siblings {
    /// The summary of the method `name` in the first file that has one.
    pub open spec fn summary(self, name: Text) -> Option<Summary> {
        summary_in(self.paths, self.files, name, 0)
    }
}

/// The taint that the arguments `args` pass into the flow: nothing where the flow's
/// rule may not report or the flow's parameter has no argument.
pub open spec fn entering<L: ScopeLanguage>(
    t: &SyntaxTree,
    args: Seq<int>,
    flow: SinkFlow,
    allowed: Seq<Text>,
    cx: Given<'_>,
    st: Map<Text, Info>,
) -> Option<Info> {
    if allowed.contains(flow.sink_rule_id) && 0 <= flow.param_index < args.len() {
        L::taint_of(t, args[flow.param_index], cx, st)
    } else {
        None
    }
}

fn entering_taint<L: ScopeLanguage>(
    tree: &SyntaxTree,
    args: &Vec<Node<'_>>,
    flow: &ParamSinkFlow,
    allowed: &Vec<String>,
    ctx: &Context<'_>,
    state: &TaintState,
) -> (r: Option<TaintInfo>)
    requires
        tree.valid(ctx.source@),
        forall|k: int|
            #![trigger args@[k]]
            0 <= k < args@.len() ==> args@[k].tree == tree && args@[k].wf(),
    ensures
        opt_view(r) == entering::<L>(
            tree,
            indices(args@),
            flow@,
            views(allowed@),
            ctx@,
            state@,
        ),
{
    if rule_allowed(allowed, flow.sink_rule_id.as_str()) && flow.param_index < args.len() {
        let arg = args[flow.param_index];
        assert(indices(args@)[flow.param_index as int] == arg.index);
        L::expression_taint(arg, ctx, state)
    } else {
        None
    }
}

/// The summary that the call at node `i` resolves to, and the call's arguments.
pub open spec fn resolved_call<L: CrossFileLanguage>(
    t: &SyntaxTree,
    i: int,
    src: Text,
    others: Siblings,
) -> Option<(Text, Summary, Seq<int>)> {
    match L::callee(t, i, src) {
        Some(name) => match others.summary(name) {
            Some(s) => match L::arguments(t, i) {
                Some(args) => Some((name, s, args)),
                None => None,
            },
            None => None,
        },
        None => None,
    }
}

fn resolve_call<'a, 's, 'm, L: CrossFileLanguage>(
    node: Node<'a>,
    source: &'s str,
    others: &CrossFileInfo<'m>,
) -> (r: Option<(&'s str, &'m FunctionTaintSummary, Vec<Node<'a>>)>)
    requires
        node.valid(source@),
    ensures
        match r {
            Some(x) => resolved_call::<L>(node.tree, node.index as int, source@, others@) == Some(
                (x.0@, x.1@, indices(x.2@)),
            ),
            None => resolved_call::<L>(node.tree, node.index as int, source@, others@) is None,
        },
        r matches Some(x) ==> forall|k: int|
            #![trigger x.2@[k]]
            0 <= k < x.2@.len() ==> x.2@[k].tree == node.tree && x.2@[k].wf(),
{
    match L::callee_name(node, source) {
        None => None,
        Some(name) => {
            match lookup_cross_file_summary(others.same_package_paths, others.summaries, name) {
                None => None,
                Some(s) => {
                    match L::argument_nodes(node) {
                        None => None,
                        Some(args) => Some((name, s, args)),
                    }
                },
            }
        },
    }
}

/// The flows that the call at node `i` makes into the sinks of the method `name`,
/// by the flows of its summary from `from` on.
pub open spec fn call_flows<L: ScopeLanguage>(
    t: &SyntaxTree,
    i: int,
    name: Text,
    args: Seq<int>,
    flows: Seq<SinkFlow>,
    from: int,
    allowed: Seq<Text>,
    cx: Given<'_>,
    st: Map<Text, Info>,
) -> Seq<Flow>
    decreases flows.len() - from,
{
    if from < 0 || from >= flows.len() {
        Seq::empty()
    } else {
        let flow = flows[from];
        let rest = call_flows::<L>(t, i, name, args, flows, from + 1, allowed, cx, st);
        match entering::<L>(t, args, flow, allowed, cx, st) {
            Some(info) => seq![
                cross_file_flow(
                    t,
                    i,
                    info.description,
                    info.line,
                    flow.sink_description,
                    name,
                    flow.sink_rule_id,
                ),
            ] + rest,
            None => rest,
        }
    }
}

/// The flows that the calls at the nodes from `c` to before `e` make into the sinks
/// of other files.
pub open spec fn cross_flows<L: CrossFileLanguage>(
    t: &SyntaxTree,
    c: int,
    e: int,
    others: Siblings,
    cx: Given<'_>,
    st: Map<Text, Info>,
) -> Seq<Flow>
    decreases gap(c, e),
{
    if c >= e {
        Seq::empty()
    } else if L::is_scope(t, c) {
        cross_flows::<L>(t, t.after(c), e, others, cx, st)
    } else {
        let rest = cross_flows::<L>(t, c + 1, e, others, cx, st);
        match resolved_call::<L>(t, c, cx.src, others) {
            Some(x) => call_flows::<L>(
                t,
                c,
                x.0,
                x.2,
                x.1.params_to_sink,
                0,
                others.allowed,
                cx,
                st,
            ) + rest,
            None => rest,
        }
    }
}

#[verifier::loop_isolation(false)]
fn push_call_flows<L: ScopeLanguage>(
    node: Node<'_>,
    name: &str,
    args: &Vec<Node<'_>>,
    flows: &Vec<ParamSinkFlow>,
    allowed: &Vec<String>,
    ctx: &Context<'_>,
    state: &TaintState,
    out: &mut Vec<TaintFinding>,
)
    requires
        node.valid(ctx.source@),
        forall|k: int|
            #![trigger args@[k]]
            0 <= k < args@.len() ==> args@[k].tree == node.tree && args@[k].wf(),
    ensures
        views(final(out)@) == views(old(out)@) + call_flows::<L>(
            node.tree,
            node.index as int,
            name@,
            indices(args@),
            views(flows@),
            0,
            views(allowed@),
            ctx@,
            state@,
        ),
{
    let ghost t = node.tree;
    let ghost i = node.index as int;
    let ghost ar = indices(args@);
    let ghost fl = views(flows@);
    let ghost al = views(allowed@);
    let ghost start = views(out@);
    let mut k: usize = 0;
    while k < flows.len()
        invariant
            k <= flows@.len(),
            start + call_flows::<L>(t, i, name@, ar, fl, 0, al, ctx@, state@) == views(out@)
                + call_flows::<L>(t, i, name@, ar, fl, k as int, al, ctx@, state@),
        decreases flows.len() - k,
    {
        let flow = &flows[k];
        assert(fl[k as int] == flows@[k as int]@);
        let ghost before = views(out@);
        let ghost rest = call_flows::<L>(t, i, name@, ar, fl, k + 1, al, ctx@, state@);
        match entering_taint::<L>(node.tree, args, flow, allowed, ctx, state) {
            Some(info) => {
                out.push(
                    cross_file_taint_finding(
                        node,
                        info.description,
                        info.line,
                        flow.sink_description.as_str(),
                        name,
                        flow.sink_rule_id.as_str(),
                    ),
                );
                proof {
                    let here = views(out@).last();
                    assert(before.push(here) + rest =~= before + (seq![here] + rest));
                }
            },
            None => {},
        }
        k = k + 1;
    }
    assert(views(out@) + Seq::<Flow>::empty() =~= views(out@));
}

/// The flows of the scope at node `f` into the sinks of other files.
pub open spec fn scope_cross_flows<L: CrossFileLanguage>(
    t: &SyntaxTree,
    f: int,
    others: Siblings,
    cx: Given<'_>,
) -> Seq<Flow> {
    let b = L::body(t, f);
    cross_flows::<L>(t, b + 1, t.after(b), others, cx, assigned_in::<L>(t, f, cx))
}

#[verifier::loop_isolation(false)]
fn resolve_scope<L: CrossFileLanguage>(
    scope: Node<'_>,
    ctx: &Context<'_>,
    others: &CrossFileInfo<'_>,
) -> (out: Vec<TaintFinding>)
    requires
        scope.valid(ctx.source@),
    ensures
        views(out@) == scope_cross_flows::<L>(scope.tree, scope.index as int, others@, ctx@),
{
    let ghost t = scope.tree;
    let body = L::scope_body(scope);
    let state = settle_assignments::<L>(scope, ctx);
    let e: usize = body.end();
    let mut c: usize = body.index + 1;
    let mut out: Vec<TaintFinding> = Vec::new();
    let ghost all = cross_flows::<L>(t, c as int, e as int, others@, ctx@, state@);
    assert(views(out@) + all =~= all);
    while c < e
        invariant
            views(out@) + cross_flows::<L>(t, c as int, e as int, others@, ctx@, state@) == all,
        decreases gap(c as int, e as int),
    {
        let n = body.at(c);
        if L::scope_node(n) {
            c = n.end();
        } else {
            match resolve_call::<L>(n, ctx.source, others) {
                Some((name, summary, args)) => {
                    let ghost before = views(out@);
                    push_call_flows::<L>(
                        n,
                        name,
                        &args,
                        &summary.params_to_sink,
                        others.allowed_rule_ids,
                        ctx,
                        &state,
                        &mut out,
                    );
                    proof {
                        let here = call_flows::<L>(
                            t,
                            c as int,
                            name@,
                            indices(args@),
                            summary@.params_to_sink,
                            0,
                            others@.allowed,
                            ctx@,
                            state@,
                        );
                        let rest = cross_flows::<L>(t, c + 1, e as int, others@, ctx@, state@);
                        assert(before + here + rest =~= before + (here + rest));
                    }
                },
                None => {},
            }
            c = c + 1;
        }
    }
    assert(views(out@) + Seq::<Flow>::empty() =~= views(out@));
    out
}

/// The sources of all rules from `from` on, in order.
pub open spec fn all_sources(rules: Seq<(Text, TaintRule)>, from: int) -> Seq<Matcher>
    decreases rules.len() - from,
{
    if from < 0 || from >= rules.len() {
        Seq::empty()
    } else {
        rules[from].1.sources + all_sources(rules, from + 1)
    }
}

/// The sanitizers of all rules from `from` on, in order.
pub open spec fn all_sanitizers(rules: Seq<(Text, TaintRule)>, from: int) -> Seq<Matcher>
    decreases rules.len() - from,
{
    if from < 0 || from >= rules.len() {
        Seq::empty()
    } else {
        rules[from].1.sanitizers + all_sanitizers(rules, from + 1)
    }
}

/// The rule with the sources and sanitizers of all rules, and no sink.
pub open spec fn union_rule(rules: Seq<(Text, TaintRule)>) -> TaintRule {
    TaintRule {
        sources: all_sources(rules, 0),
        sinks: Seq::empty(),
        sanitizers: all_sanitizers(rules, 0),
    }
}

fn union_sanitizers(rules: &Vec<(&str, TaintSpec)>) -> (out: Vec<NodeMatcher>)
    ensures
        views(out@) == all_sanitizers(views(rules@), 0),
{
    let mut out: Vec<NodeMatcher> = Vec::new();
    let ghost all = all_sanitizers(views(rules@), 0);
    assert(views(out@) + all =~= all);
    let mut k: usize = 0;
    while k < rules.len()
        invariant
            k <= rules@.len(),
            views(out@) + all_sanitizers(views(rules@), k as int) == all,
        decreases rules.len() - k,
    {
        assert(views(rules@)[k as int] == rules@[k as int]@);
        let ghost before = views(out@);
        extend_matchers(&mut out, &rules[k].1.sanitizers);
        proof {
            let here = rules@[k as int].1@.sanitizers;
            let rest = all_sanitizers(views(rules@), k + 1);
            assert(before + here + rest =~= before + (here + rest));
        }
        k = k + 1;
    }
    assert(views(out@) + Seq::<Matcher>::empty() =~= views(out@));
    out
}

fn union_sources(rules: &Vec<(&str, TaintSpec)>) -> (out: Vec<NodeMatcher>)
    ensures
        views(out@) == all_sources(views(rules@), 0),
{
    let mut out: Vec<NodeMatcher> = Vec::new();
    let ghost all = all_sources(views(rules@), 0);
    assert(views(out@) + all =~= all);
    let mut k: usize = 0;
    while k < rules.len()
        invariant
            k <= rules@.len(),
            views(out@) + all_sources(views(rules@), k as int) == all,
        decreases rules.len() - k,
    {
        assert(views(rules@)[k as int] == rules@[k as int]@);
        let ghost before = views(out@);
        extend_matchers(&mut out, &rules[k].1.sources);
        proof {
            let here = rules@[k as int].1@.sources;
            let rest = all_sources(views(rules@), k + 1);
            assert(before + here + rest =~= before + (here + rest));
        }
        k = k + 1;
    }
    assert(views(out@) + Seq::<Matcher>::empty() =~= views(out@));
    out
}

/// The flows of the scopes among the nodes from `c` to before `e` into the sinks of
/// other files.
pub open spec fn file_cross_flows<L: CrossFileLanguage>(
    t: &SyntaxTree,
    c: int,
    e: int,
    others: Siblings,
    cx: Given<'_>,
) -> Seq<Flow>
    decreases gap(c, e),
{
    if c >= e {
        Seq::empty()
    } else if L::is_scope(t, c) {
        scope_cross_flows::<L>(t, c, others, cx) + file_cross_flows::<L>(t, c + 1, e, others, cx)
    } else {
        file_cross_flows::<L>(t, c + 1, e, others, cx)
    }
}

/// The flows of every scope under a node into the sinks of other files. Taint comes
/// from the sources of any rule.
pub fn extract_findings<L: CrossFileLanguage>(
    root: Node<'_>,
    source: &str,
    rules: &Vec<(&str, TaintSpec)>,
    others: &CrossFileInfo<'_>,
) -> (r: Vec<TaintFinding>)
    requires
        root.valid(source@),
    ensures
        views(r@) == file_cross_flows::<L>(
            root.tree,
            root.index as int,
            root.tree.after(root.index as int),
            others@,
            given(source@, union_rule(views(rules@))),
        ),
{
    let spec = TaintSpec {
        sources: union_sources(rules),
        sinks: Vec::new(),
        sanitizers: union_sanitizers(rules),
    };
    let ctx = Context { source, spec: &spec, policy: None };
    let ghost cx = given(source@, union_rule(views(rules@)));
    assert(ctx@ == cx);
    let mut out: Vec<TaintFinding> = Vec::new();
    let e: usize = root.end();
    let mut c: usize = root.index;
    let ghost all = file_cross_flows::<L>(root.tree, c as int, e as int, others@, cx);
    assert(views(out@) + all =~= all);
    while c < e
        invariant
            root.valid(source@),
            ctx.source@ == source@,
            ctx@ == cx,
            e <= root.tree.len(),
            views(out@) + file_cross_flows::<L>(root.tree, c as int, e as int, others@, cx)
                == all,
        decreases gap(c as int, e as int),
    {
        let n = root.at(c);
        if L::scope_node(n) {
            let ghost before = views(out@);
            let mut found = resolve_scope::<L>(n, &ctx, others);
            let ghost here = views(found@);
            out.append(&mut found);
            proof {
                let rest = file_cross_flows::<L>(root.tree, c + 1, e as int, others@, cx);
                assert(before + here + rest =~= before + (here + rest));
            }
        }
        c = c + 1;
    }
    assert(views(out@) + Seq::<Flow>::empty() =~= views(out@));
    out
}

// ─── One step further across files ───────────────────────────────────────────
/// The flows `acc` with those added that the parameter at position `p` makes by a
/// call with the arguments `args`, through the callee's flows from `from` on. No
/// parameter gets two flows for one rule.
pub open spec fn call_composed<L: ScopeLanguage>(
    t: &SyntaxTree,
    p: int,
    args: Seq<int>,
    flows: Seq<SinkFlow>,
    from: int,
    allowed: Seq<Text>,
    cx: Given<'_>,
    st: Map<Text, Info>,
    acc: Seq<SinkFlow>,
) -> Seq<SinkFlow>
    decreases flows.len() - from,
{
    if from < 0 || from >= flows.len() {
        acc
    } else {
        let flow = flows[from];
        let next = if entering::<L>(t, args, flow, allowed, cx, st) is Some && !has_flow(
            acc,
            p,
            flow.sink_rule_id,
        ) {
            acc.push(
                SinkFlow {
                    param_index: p,
                    sink_rule_id: flow.sink_rule_id,
                    sink_description: flow.sink_description,
                },
            )
        } else {
            acc
        };
        call_composed::<L>(t, p, args, flows, from + 1, allowed, cx, st, next)
    }
}

/// The flows `acc` with those added that the parameter at position `p` makes by the
/// calls at the nodes from `c` to before `e`.
pub open spec fn calls_composed<L: CrossFileLanguage>(
    t: &SyntaxTree,
    c: int,
    e: int,
    p: int,
    others: Siblings,
    cx: Given<'_>,
    st: Map<Text, Info>,
    acc: Seq<SinkFlow>,
) -> Seq<SinkFlow>
    decreases gap(c, e),
{
    if c >= e {
        acc
    } else if L::is_scope(t, c) {
        calls_composed::<L>(t, t.after(c), e, p, others, cx, st, acc)
    } else {
        let next = match resolved_call::<L>(t, c, cx.src, others) {
            Some(x) => call_composed::<L>(
                t,
                p,
                x.2,
                x.1.params_to_sink,
                0,
                others.allowed,
                cx,
                st,
                acc,
            ),
            None => acc,
        };
        calls_composed::<L>(t, c + 1, e, p, others, cx, st, next)
    }
}

/// The flows `acc` with those added that the parameters from `from` on make by the
/// calls of the method at node `f`.
pub open spec fn params_composed<L: CrossFileLanguage>(
    t: &SyntaxTree,
    f: int,
    names: Seq<Text>,
    from: int,
    src: Text,
    sanitizers: Seq<Matcher>,
    others: Siblings,
    acc: Seq<SinkFlow>,
) -> Seq<SinkFlow>
    decreases names.len() - from,
{
    if from < 0 || from >= names.len() {
        acc
    } else {
        let b = L::body(t, f);
        let cx = given(src, parameter_rule(names[from], Seq::empty(), sanitizers));
        let next = calls_composed::<L>(
            t,
            b + 1,
            t.after(b),
            from,
            others,
            cx,
            assigned_in::<L>(t, f, cx),
            acc,
        );
        params_composed::<L>(t, f, names, from + 1, src, sanitizers, others, next)
    }
}

/// How the method at node `f` passes the taint of its parameters on by its calls
/// into other files.
pub open spec fn composed_summary<L: CrossFileLanguage>(
    t: &SyntaxTree,
    f: int,
    name: Text,
    src: Text,
    rules: Seq<(Text, TaintRule)>,
    others: Siblings,
) -> Summary {
    Summary {
        name,
        params_to_return: Seq::empty(),
        params_to_sink: params_composed::<L>(
            t,
            f,
            L::params(t, f, src),
            0,
            src,
            all_sanitizers(rules, 0),
            others,
            Seq::empty(),
        ),
    }
}

fn compose_call<L: ScopeLanguage>(
    tree: &SyntaxTree,
    p: usize,
    args: &Vec<Node<'_>>,
    flows: &Vec<ParamSinkFlow>,
    allowed: &Vec<String>,
    ctx: &Context<'_>,
    state: &TaintState,
    acc: &mut Vec<ParamSinkFlow>,
)
    requires
        tree.valid(ctx.source@),
        forall|k: int|
            #![trigger args@[k]]
            0 <= k < args@.len() ==> args@[k].tree == tree && args@[k].wf(),
    ensures
        views(final(acc)@) == call_composed::<L>(
            tree,
            p as int,
            indices(args@),
            views(flows@),
            0,
            views(allowed@),
            ctx@,
            state@,
            views(old(acc)@),
        ),
{
    let ghost ar = indices(args@);
    let ghost fl = views(flows@);
    let ghost al = views(allowed@);
    let mut k: usize = 0;
    while k < flows.len()
        invariant
            tree.valid(ctx.source@),
            forall|k: int|
                #![trigger args@[k]]
                0 <= k < args@.len() ==> args@[k].tree == tree && args@[k].wf(),
            ar == indices(args@),
            fl == views(flows@),
            al == views(allowed@),
            k <= flows@.len(),
            call_composed::<L>(tree, p as int, ar, fl, 0, al, ctx@, state@, views(old(acc)@))
                == call_composed::<L>(
                tree,
                p as int,
                ar,
                fl,
                k as int,
                al,
                ctx@,
                state@,
                views(acc@),
            ),
        decreases flows.len() - k,
    {
        let flow = &flows[k];
        assert(fl[k as int] == flows@[k as int]@);
        if entering_taint::<L>(tree, args, flow, allowed, ctx, state).is_some() && !contains_flow(
            acc,
            p,
            flow.sink_rule_id.as_str(),
        ) {
            acc.push(
                ParamSinkFlow {
                    param_index: p,
                    sink_rule_id: flow.sink_rule_id.clone(),
                    sink_description: flow.sink_description.clone(),
                },
            );
        }
        k = k + 1;
    }
}

fn compose_calls<L: CrossFileLanguage>(
    body: Node<'_>,
    p: usize,
    ctx: &Context<'_>,
    others: &CrossFileInfo<'_>,
    state: &TaintState,
    acc: &mut Vec<ParamSinkFlow>,
)
    requires
        body.valid(ctx.source@),
    ensures
        views(final(acc)@) == calls_composed::<L>(
            body.tree,
            body.index + 1,
            body.tree.after(body.index as int),
            p as int,
            others@,
            ctx@,
            state@,
            views(old(acc)@),
        ),
{
    let ghost t = body.tree;
    let e: usize = body.end();
    let mut c: usize = body.index + 1;
    while c < e
        invariant
            body.valid(ctx.source@),
            t == body.tree,
            e == t.after(body.index as int),
            e <= t.len(),
            calls_composed::<L>(
                t,
                body.index + 1,
                e as int,
                p as int,
                others@,
                ctx@,
                state@,
                views(old(acc)@),
            ) == calls_composed::<L>(
                t,
                c as int,
                e as int,
                p as int,
                others@,
                ctx@,
                state@,
                views(acc@),
            ),
        decreases gap(c as int, e as int),
    {
        let n = body.at(c);
        if L::scope_node(n) {
            c = n.end();
        } else {
            match resolve_call::<L>(n, ctx.source, others) {
                Some((_name, summary, args)) => {
                    compose_call::<L>(
                        body.tree,
                        p,
                        &args,
                        &summary.params_to_sink,
                        others.allowed_rule_ids,
                        ctx,
                        state,
                        acc,
                    );
                },
                None => {},
            }
            c = c + 1;
        }
    }
}

/// How a method passes the taint of its parameters on by its calls into other files:
/// nothing where it does not.
pub fn compose_method<L: CrossFileLanguage>(
    method: Node<'_>,
    name: &str,
    source: &str,
    rules: &Vec<(&str, TaintSpec)>,
    others: &CrossFileInfo<'_>,
) -> (r: Option<FunctionTaintSummary>)
    requires
        method.valid(source@),
    ensures
        opt_view(r) == {
            let s = composed_summary::<L>(
                method.tree,
                method.index as int,
                name@,
                source@,
                views(rules@),
                others@,
            );
            if tells(s) {
                Some(s)
            } else {
                None
            }
        },
{
    let names = L::method_param_names(method, source);
    let sanitizers = union_sanitizers(rules);
    let body = L::scope_body(method);
    let ghost t = method.tree;
    let ghost f = method.index as int;
    let ghost ns = views(names@);
    let ghost sans = views(sanitizers@);
    let mut flows: Vec<ParamSinkFlow> = Vec::new();
    let mut p: usize = 0;
    while p < names.len()
        invariant
            method.valid(source@),
            t == method.tree,
            f == method.index,
            ns == views(names@),
            sans == views(sanitizers@),
            body.tree == t,
            body.wf(),
            body.index == L::body(t, f),
            p <= names@.len(),
            params_composed::<L>(t, f, ns, 0, source@, sans, others@, Seq::empty())
                == params_composed::<L>(
                t,
                f,
                ns,
                p as int,
                source@,
                sans,
                others@,
                views(flows@),
            ),
        decreases names.len() - p,
    {
        assert(ns[p as int] == names@[p as int]@);
        let spec = TaintSpec {
            sources: parameter_sources(names[p]),
            sinks: Vec::new(),
            sanitizers: clone_matchers(&sanitizers),
        };
        let ctx = Context { source, spec: &spec, policy: None };
        assert(ctx@ == given(source@, parameter_rule(ns[p as int], Seq::empty(), sans)));
        let state = settle_assignments::<L>(method, &ctx);
        compose_calls::<L>(body, p, &ctx, others, &state, &mut flows);
        p = p + 1;
    }
    if flows.len() == 0 {
        return None;
    }
    let none: Vec<usize> = Vec::new();
    assert(ints(none@) =~= Seq::empty());
    Some(
        FunctionTaintSummary {
            name: name.to_owned(),
            params_to_return: none,
            params_to_sink: flows,
        },
    )
}

/// The composed summaries, where they say anything, of the named methods among the
/// nodes from `c` to before `e`.
pub open spec fn composed_in<L: CrossFileLanguage>(
    t: &SyntaxTree,
    c: int,
    e: int,
    src: Text,
    rules: Seq<(Text, TaintRule)>,
    others: Siblings,
) -> Seq<Summary>
    decreases gap(c, e),
{
    if c >= e {
        Seq::empty()
    } else {
        let rest = composed_in::<L>(t, c + 1, e, src, rules, others);
        match t.field_text(c, "name"@, src) {
            Some(name) => if L::is_method(t, c) && tells(
                composed_summary::<L>(t, c, name, src, rules, others),
            ) {
                seq![composed_summary::<L>(t, c, name, src, rules, others)] + rest
            } else {
                rest
            },
            None => rest,
        }
    }
}

/// How the methods of a file pass the taint of their parameters on by their calls
/// into other files.
pub fn compose_summaries<L: CrossFileLanguage>(
    root: Node<'_>,
    source: &str,
    rules: &Vec<(&str, TaintSpec)>,
    others: &CrossFileInfo<'_>,
) -> (r: Vec<FunctionTaintSummary>)
    requires
        root.valid(source@),
    ensures
        views(r@) == composed_in::<L>(
            root.tree,
            root.index as int,
            root.tree.after(root.index as int),
            source@,
            views(rules@),
            others@,
        ),
{
    let ghost t = root.tree;
    let ghost rs = views(rules@);
    let e: usize = root.end();
    let mut c: usize = root.index;
    let mut out: Vec<FunctionTaintSummary> = Vec::new();
    let ghost all = composed_in::<L>(t, c as int, e as int, source@, rs, others@);
    assert(views(out@) + all =~= all);
    while c < e
        invariant
            root.valid(source@),
            t == root.tree,
            rs == views(rules@),
            e <= root.tree.len(),
            views(out@) + composed_in::<L>(t, c as int, e as int, source@, rs, others@) == all,
        decreases gap(c as int, e as int),
    {
        let n = root.at(c);
        if L::method_node(n) {
            match n.field_text("name", source) {
                Some(name) => {
                    let ghost before = views(out@);
                    let ghost rest = composed_in::<L>(t, c + 1, e as int, source@, rs, others@);
                    match compose_method::<L>(n, name, source, rules, others) {
                        Some(s) => {
                            out.push(s);
                            assert(before.push(s@) + rest =~= before + (seq![s@] + rest));
                        },
                        None => {},
                    }
                },
                None => {},
            }
        }
        c = c + 1;
    }
    assert(views(out@) + Seq::<Summary>::empty() =~= views(out@));
    out
}

} // verus!
