//! Summaries of what functions do with tainted parameters, by which a file is
//! analysed against the others.
use crate::taint_engine::has_text;
use crate::text::{text_eq, views, Text};
use crate::text_map::TextMap;
use vstd::prelude::*;

verus! {

broadcast use crate::text::group_views;

/// How a function passes taint on.
#[derive(Debug)]
pub struct FunctionTaintSummary {
    /// The function's name.
    pub name: String,
    /// The parameters whose taint reaches the returned value.
    pub params_to_return: Vec<usize>,
    /// The parameters whose taint reaches a sink.
    pub params_to_sink: Vec<ParamSinkFlow>,
}

/// Taint of a parameter reaches a sink of a rule.
#[derive(Debug)]
pub struct ParamSinkFlow {
    pub param_index: usize,
    pub sink_rule_id: String,
    pub sink_description: String,
}

/// What a [`ParamSinkFlow`] denotes.
#[verifier::ext_equal]
pub struct SinkFlow {
    pub param_index: int,
    pub sink_rule_id: Text,
    pub sink_description: Text,
}

/// What a [`FunctionTaintSummary`] denotes.
#[verifier::ext_equal]
pub struct Summary {
    pub name: Text,
    pub params_to_return: Seq<int>,
    pub params_to_sink: Seq<SinkFlow>,
}

impl View for ParamSinkFlow {
    type V = SinkFlow;

    open spec fn view(&self) -> SinkFlow {
        SinkFlow {
            param_index: self.param_index as int,
            sink_rule_id: self.sink_rule_id@,
            sink_description: self.sink_description@,
        }
    }
}

/// Machine integers as integers.
pub open spec fn ints(s: Seq<usize>) -> Seq<int> {
    s.map_values(|x: usize| x as int)
}

pub broadcast proof fn lemma_ints_push(s: Seq<usize>, x: usize)
    ensures
        #[trigger] ints(s.push(x)) == ints(s).push(x as int),
{
    assert(ints(s.push(x)) =~= ints(s).push(x as int));
}

impl View for FunctionTaintSummary {
    type V = Summary;

    open spec fn view(&self) -> Summary {
        Summary {
            name: self.name@,
            params_to_return: ints(self.params_to_return@),
            params_to_sink: views(self.params_to_sink@),
        }
    }
}

impl Clone for ParamSinkFlow {
    fn clone(&self) -> (r: Self)
        ensures
            r@ == self@,
    {
        ParamSinkFlow {
            param_index: self.param_index,
            sink_rule_id: self.sink_rule_id.clone(),
            sink_description: self.sink_description.clone(),
        }
    }
}

/// Whether a list of flows holds one of the parameter `param` into the rule `rule`.
pub open spec fn has_flow(flows: Seq<SinkFlow>, param: int, rule: Text) -> bool {
    exists|k: int|
        #![trigger flows[k]]
        0 <= k < flows.len() && flows[k].param_index == param && flows[k].sink_rule_id == rule
}

/// `a` followed by the members of `b` that are not there yet.
pub open spec fn union_ints(a: Seq<int>, b: Seq<int>) -> Seq<int>
    decreases b.len(),
{
    if b.len() == 0 {
        a
    } else {
        let done = union_ints(a, b.drop_last());
        if done.contains(b.last()) {
            done
        } else {
            done.push(b.last())
        }
    }
}

/// `a` followed by the flows of `b` whose parameter and rule are not there yet.
pub open spec fn union_flows(a: Seq<SinkFlow>, b: Seq<SinkFlow>) -> Seq<SinkFlow>
    decreases b.len(),
{
    if b.len() == 0 {
        a
    } else {
        let done = union_flows(a, b.drop_last());
        if has_flow(done, b.last().param_index, b.last().sink_rule_id) {
            done
        } else {
            done.push(b.last())
        }
    }
}

/// The summary `a` with the flows of `b` added.
pub open spec fn merged(a: Summary, b: Summary) -> Summary {
    Summary {
        name: a.name,
        params_to_return: union_ints(a.params_to_return, b.params_to_return),
        params_to_sink: union_flows(a.params_to_sink, b.params_to_sink),
    }
}

/// Whether a list of flows holds one of the parameter `param` into the rule `rule`.
pub fn contains_flow(flows: &Vec<ParamSinkFlow>, param: usize, rule: &str) -> (r: bool)
    ensures
        r == has_flow(views(flows@), param as int, rule@),
{
    let mut i: usize = 0;
    while i < flows.len()
        invariant
            i <= flows@.len(),
            forall|k: int|
                #![trigger views(flows@)[k]]
                0 <= k < i ==> !(views(flows@)[k].param_index == param
                    && views(flows@)[k].sink_rule_id == rule@),
        decreases flows.len() - i,
    {
        assert(views(flows@)[i as int] == flows@[i as int]@);
        if flows[i].param_index == param && text_eq(flows[i].sink_rule_id.as_str(), rule) {
            return true;
        }
        i = i + 1;
    }
    false
}

fn contains_index(v: &Vec<usize>, x: usize) -> (r: bool)
    ensures
        r == ints(v@).contains(x as int),
{
    let mut i: usize = 0;
    while i < v.len()
        invariant
            i <= v@.len(),
            forall|k: int| 0 <= k < i ==> #[trigger] ints(v@)[k] != x,
        decreases v.len() - i,
    {
        if v[i] == x {
            assert(ints(v@)[i as int] == x);
            return true;
        }
        i = i + 1;
    }
    assert forall|k: int| 0 <= k < ints(v@).len() implies ints(v@)[k] != x by {}
    false
}

impl FunctionTaintSummary {
    /// Adds the flows of `other` that are not known yet. Two flows into sinks are
    /// the same where parameter and rule are. Says whether anything was added.
    pub fn merge_from(&mut self, other: &FunctionTaintSummary) -> (changed: bool)
        ensures
            final(self)@ == merged(old(self)@, other@),
            changed == (final(self)@ != old(self)@),
    {
        broadcast use lemma_ints_push;

        let mut changed = false;
        let ghost r0 = ints(self.params_to_return@);
        let ghost s0 = views(self.params_to_sink@);
        let mut i: usize = 0;
        assert(ints(other.params_to_return@).take(0) =~= Seq::empty());
        while i < other.params_to_return.len()
            invariant
                i <= other.params_to_return@.len(),
                self.name == old(self).name,
                self.params_to_sink == old(self).params_to_sink,
                r0 == ints(old(self).params_to_return@),
                ints(self.params_to_return@) == union_ints(
                    r0,
                    ints(other.params_to_return@).take(i as int),
                ),
                self.params_to_return@.len() >= r0.len(),
                changed == (self.params_to_return@.len() > r0.len()),
                !changed ==> ints(self.params_to_return@) == r0,
            decreases other.params_to_return.len() - i,
        {
            let p: usize = other.params_to_return[i];
            proof {
                let now = ints(other.params_to_return@).take(i + 1);
                assert(now.drop_last() =~= ints(other.params_to_return@).take(i as int));
            }
            if !contains_index(&self.params_to_return, p) {
                self.params_to_return.push(p);
                changed = true;
            }
            i = i + 1;
        }
        assert(ints(other.params_to_return@).take(i as int) =~= ints(other.params_to_return@));
        let ghost returns_grew = changed;
        let mut j: usize = 0;
        assert(views(other.params_to_sink@).take(0) =~= Seq::empty());
        while j < other.params_to_sink.len()
            invariant
                j <= other.params_to_sink@.len(),
                self.name == old(self).name,
                s0 == views(old(self).params_to_sink@),
                r0 == ints(old(self).params_to_return@),
                ints(self.params_to_return@) == union_ints(r0, ints(other.params_to_return@)),
                returns_grew == (self.params_to_return@.len() > r0.len()),
                !returns_grew ==> ints(self.params_to_return@) == r0,
                views(self.params_to_sink@) == union_flows(
                    s0,
                    views(other.params_to_sink@).take(j as int),
                ),
                self.params_to_sink@.len() >= s0.len(),
                changed == (returns_grew || self.params_to_sink@.len() > s0.len()),
                !(self.params_to_sink@.len() > s0.len()) ==> views(self.params_to_sink@) == s0,
            decreases other.params_to_sink.len() - j,
        {
            let flow = &other.params_to_sink[j];
            proof {
                let now = views(other.params_to_sink@).take(j + 1);
                assert(now.drop_last() =~= views(other.params_to_sink@).take(j as int));
                assert(now.last() == flow@);
            }
            if !contains_flow(&self.params_to_sink, flow.param_index, flow.sink_rule_id.as_str()) {
                self.params_to_sink.push(flow.clone());
                changed = true;
            }
            j = j + 1;
        }
        assert(views(other.params_to_sink@).take(j as int) =~= views(other.params_to_sink@));
        changed
    }
}

proof fn lemma_union_ints(a: Seq<int>, b: Seq<int>)
    ensures
        a.is_prefix_of(union_ints(a, b)),
        forall|x: int| #[trigger] union_ints(a, b).contains(x) <==> a.contains(x) || b.contains(x),
    decreases b.len(),
{
    if b.len() > 0 {
        let done = union_ints(a, b.drop_last());
        let all = union_ints(a, b);
        lemma_union_ints(a, b.drop_last());
        assert forall|x: int| #[trigger] all.contains(x) <==> a.contains(x) || b.contains(x) by {
            assert(done.contains(x) <==> a.contains(x) || b.drop_last().contains(x));
            if b.contains(x) {
                let k = choose|k: int| 0 <= k < b.len() && b[k] == x;
                if k < b.len() - 1 {
                    assert(b.drop_last()[k] == x);
                }
            }
            if b.drop_last().contains(x) {
                let k = choose|k: int| 0 <= k < b.len() - 1 && b.drop_last()[k] == x;
                assert(b[k] == x);
            }
            if done.contains(x) {
                let k = choose|k: int| 0 <= k < done.len() && done[k] == x;
                assert(all[k] == x);
            }
            if !done.contains(b.last()) {
                assert(all[done.len() as int] == b.last());
                if all.contains(x) && !done.contains(x) {
                    let k = choose|k: int| 0 <= k < all.len() && all[k] == x;
                    if k < done.len() {
                        assert(done[k] == x);
                    }
                }
            }
            assert(b[b.len() - 1] == b.last());
        }
    }
}

proof fn lemma_union_ints_absorbs(a: Seq<int>, b: Seq<int>)
    requires
        forall|x: int| #[trigger] b.contains(x) ==> a.contains(x),
    ensures
        union_ints(a, b) == a,
    decreases b.len(),
{
    if b.len() > 0 {
        assert forall|x: int| #[trigger] b.drop_last().contains(x) implies a.contains(x) by {
            let k = choose|k: int| 0 <= k < b.len() - 1 && b.drop_last()[k] == x;
            assert(b[k] == x);
            assert(b.contains(x));
        }
        lemma_union_ints_absorbs(a, b.drop_last());
        assert(b[b.len() - 1] == b.last());
        assert(b.contains(b.last()));
    }
}

proof fn lemma_union_flows(a: Seq<SinkFlow>, b: Seq<SinkFlow>)
    ensures
        a.is_prefix_of(union_flows(a, b)),
        forall|p: int, r: Text| #[trigger]
            has_flow(union_flows(a, b), p, r) <==> has_flow(a, p, r) || has_flow(b, p, r),
    decreases b.len(),
{
    if b.len() > 0 {
        let head = b.drop_last();
        let done = union_flows(a, head);
        let all = union_flows(a, b);
        lemma_union_flows(a, head);
        assert forall|p: int, r: Text| #[trigger]
            has_flow(all, p, r) <==> has_flow(a, p, r) || has_flow(b, p, r) by {
            assert(has_flow(done, p, r) <==> has_flow(a, p, r) || has_flow(head, p, r));
            if has_flow(b, p, r) {
                let k = choose|k: int|
                    #![trigger b[k]]
                    0 <= k < b.len() && b[k].param_index == p && b[k].sink_rule_id == r;
                if k < b.len() - 1 {
                    assert(head[k] == b[k]);
                } else {
                    assert(b.last() == b[k]);
                    if !has_flow(done, b.last().param_index, b.last().sink_rule_id) {
                        assert(all[done.len() as int] == b.last());
                    }
                }
            }
            if has_flow(head, p, r) {
                let k = choose|k: int|
                    #![trigger head[k]]
                    0 <= k < head.len() && head[k].param_index == p && head[k].sink_rule_id == r;
                assert(b[k] == head[k]);
            }
            if has_flow(done, p, r) {
                let k = choose|k: int|
                    #![trigger done[k]]
                    0 <= k < done.len() && done[k].param_index == p && done[k].sink_rule_id == r;
                assert(all[k] == done[k]);
            }
            if has_flow(all, p, r) {
                let k = choose|k: int|
                    #![trigger all[k]]
                    0 <= k < all.len() && all[k].param_index == p && all[k].sink_rule_id == r;
                if k < done.len() {
                    assert(done[k] == all[k]);
                } else {
                    assert(all[k] == b.last());
                    assert(b[b.len() - 1] == b.last());
                }
            }
        }
    }
}

proof fn lemma_union_flows_absorbs(a: Seq<SinkFlow>, b: Seq<SinkFlow>)
    requires
        forall|p: int, r: Text| #[trigger] has_flow(b, p, r) ==> has_flow(a, p, r),
    ensures
        union_flows(a, b) == a,
    decreases b.len(),
{
    if b.len() > 0 {
        let head = b.drop_last();
        assert forall|p: int, r: Text| #[trigger] has_flow(head, p, r) implies has_flow(a, p, r) by {
            let k = choose|k: int|
                #![trigger head[k]]
                0 <= k < head.len() && head[k].param_index == p && head[k].sink_rule_id == r;
            assert(b[k] == head[k]);
            assert(has_flow(b, p, r));
        }
        lemma_union_flows_absorbs(a, head);
        assert(b[b.len() - 1] == b.last());
        assert(has_flow(b, b.last().param_index, b.last().sink_rule_id));
    }
}

/// Merging only adds: what a summary held stays, in place, and the merged summary
/// holds exactly the flows of both.
pub proof fn merge_is_union(a: Summary, b: Summary)
    ensures
        merged(a, b).name == a.name,
        a.params_to_return.is_prefix_of(merged(a, b).params_to_return),
        a.params_to_sink.is_prefix_of(merged(a, b).params_to_sink),
        forall|p: int| #[trigger]
            merged(a, b).params_to_return.contains(p) <==> a.params_to_return.contains(p)
                || b.params_to_return.contains(p),
        forall|p: int, r: Text| #[trigger]
            has_flow(merged(a, b).params_to_sink, p, r) <==> has_flow(a.params_to_sink, p, r)
                || has_flow(b.params_to_sink, p, r),
{
    lemma_union_ints(a.params_to_return, b.params_to_return);
    lemma_union_flows(a.params_to_sink, b.params_to_sink);
}

/// Merging the same summary a second time changes nothing.
pub proof fn merge_is_idempotent(a: Summary, b: Summary)
    ensures
        merged(merged(a, b), b) == merged(a, b),
{
    merge_is_union(a, b);
    lemma_union_ints_absorbs(merged(a, b).params_to_return, b.params_to_return);
    lemma_union_flows_absorbs(merged(a, b).params_to_sink, b.params_to_sink);
}

/// Merging a summary into itself changes nothing.
pub proof fn merge_with_itself(a: Summary)
    ensures
        merged(a, a) == a,
{
    lemma_union_ints_absorbs(a.params_to_return, a.params_to_return);
    lemma_union_flows_absorbs(a.params_to_sink, a.params_to_sink);
}

/// The summaries of all functions of each file, by the file's path.
pub type CrossFileSummaryMap = TextMap<Vec<FunctionTaintSummary>>;

/// The first summary of the function `name` in a list, from the position `from` on.
pub open spec fn summary_named(list: Seq<Summary>, name: Text, from: int) -> Option<Summary>
    decreases list.len() - from,
{
    if from < 0 || from >= list.len() {
        None
    } else if list[from].name == name {
        Some(list[from])
    } else {
        summary_named(list, name, from + 1)
    }
}

/// A list of summaries without those of the function `name`.
pub open spec fn without(list: Seq<Summary>, name: Text) -> Seq<Summary>
    decreases list.len(),
{
    if list.len() == 0 {
        Seq::empty()
    } else if list.last().name == name {
        without(list.drop_last(), name)
    } else {
        without(list.drop_last(), name).push(list.last())
    }
}

/// A list of summaries by name: each takes the place of those before it that have its name.
pub open spec fn keyed(list: Seq<Summary>) -> Seq<Summary>
    decreases list.len(),
{
    if list.len() == 0 {
        Seq::empty()
    } else {
        without(keyed(list.drop_last()), list.last().name).push(list.last())
    }
}

/// The last summary of the function `name` in a list.
pub open spec fn last_named(list: Seq<Summary>, name: Text) -> Option<Summary>
    decreases list.len(),
{
    if list.len() == 0 {
        None
    } else if list.last().name == name {
        Some(list.last())
    } else {
        last_named(list.drop_last(), name)
    }
}

proof fn lemma_named_push(list: Seq<Summary>, s: Summary, name: Text, from: int)
    requires
        0 <= from <= list.len(),
    ensures
        summary_named(list.push(s), name, from) == (match summary_named(list, name, from) {
            Some(found) => Some(found),
            None => if s.name == name {
                Some(s)
            } else {
                None
            },
        }),
    decreases list.len() - from,
{
    if from < list.len() {
        lemma_named_push(list, s, name, from + 1);
    } else {
        assert(summary_named(list.push(s), name, from + 1) is None);
    }
}

proof fn lemma_named_without(list: Seq<Summary>, gone: Text, name: Text)
    ensures
        summary_named(without(list, gone), name, 0) == if name == gone {
            None
        } else {
            summary_named(list, name, 0)
        },
    decreases list.len(),
{
    if list.len() > 0 {
        let head = list.drop_last();
        lemma_named_without(head, gone, name);
        lemma_named_push(head, list.last(), name, 0);
        assert(head.push(list.last()) =~= list);
        if list.last().name != gone {
            lemma_named_push(without(head, gone), list.last(), name, 0);
        }
    }
}

proof fn lemma_without_names(list: Seq<Summary>, gone: Text)
    requires
        names_differ(list),
    ensures
        names_differ(without(list, gone)),
        forall|i: int|
            0 <= i < without(list, gone).len() ==> (#[trigger] without(list, gone)[i]).name != gone
                && list.contains(without(list, gone)[i]),
    decreases list.len(),
{
    if list.len() > 0 {
        let head = list.drop_last();
        lemma_without_names(head, gone);
        let kept = without(head, gone);
        assert forall|i: int| 0 <= i < kept.len() implies list.contains(#[trigger] kept[i])
            && kept[i].name != list.last().name by {
            assert(head.contains(kept[i]));
            let k = choose|k: int| 0 <= k < head.len() && head[k] == kept[i];
            assert(list[k] == kept[i]);
            assert(list[list.len() - 1] == list.last());
        }
        assert(list.contains(list[list.len() - 1]));
    }
}

/// Whether no two summaries of a list have the same name.
pub open spec fn names_differ(list: Seq<Summary>) -> bool {
    forall|i: int, j: int|
        #![trigger list[i], list[j]]
        0 <= i < j < list.len() ==> list[i].name != list[j].name
}

/// In a list by name each name stands once, and what is found under a name is the last
/// summary that was written under it.
pub proof fn the_last_summary_counts(list: Seq<Summary>, name: Text)
    ensures
        names_differ(keyed(list)),
        summary_named(keyed(list), name, 0) == last_named(list, name),
    decreases list.len(),
{
    if list.len() > 0 {
        let head = list.drop_last();
        let s = list.last();
        the_last_summary_counts(head, name);
        lemma_named_without(keyed(head), s.name, name);
        lemma_named_push(without(keyed(head), s.name), s, name, 0);
        lemma_without_names(keyed(head), s.name);
    }
}

/// Takes the summaries of the function `name` out of a list.
fn drop_named(list: &mut Vec<FunctionTaintSummary>, name: &str)
    ensures
        views(final(list)@) == without(views(old(list)@), name@),
{
    let ghost all = views(list@);
    let ghost mut seen: int = 0;
    let mut i: usize = 0;
    assert(views(list@).skip(0) =~= all.skip(0));
    assert(all.take(0) =~= Seq::empty());
    assert(views(list@).take(0) =~= Seq::empty());
    while i < list.len()
        invariant
            i <= list@.len(),
            0 <= seen <= all.len(),
            list@.len() - i == all.len() - seen,
            views(list@).take(i as int) == without(all.take(seen), name@),
            views(list@).skip(i as int) == all.skip(seen),
        decreases list.len() - i,
    {
        let ghost before = views(list@);
        assert(before[i as int] == before.skip(i as int)[0]);
        assert(all[seen] == all.skip(seen)[0]);
        assert(all.take(seen + 1).drop_last() =~= all.take(seen));
        assert(all.skip(seen + 1) =~= all.skip(seen).skip(1));
        if text_eq(list[i].name.as_str(), name) {
            list.remove(i);
            assert(views(list@) =~= before.remove(i as int));
            assert(views(list@).take(i as int) =~= before.take(i as int));
            assert(views(list@).skip(i as int) =~= before.skip(i as int).skip(1));
        } else {
            i = i + 1;
            assert(before.take(i as int) =~= before.take(i - 1).push(before[i - 1]));
            assert(before.skip(i as int) =~= before.skip(i - 1).skip(1));
        }
        proof {
            seen = seen + 1;
        }
    }
    assert(views(list@).take(i as int) =~= views(list@));
    assert(all.take(seen) =~= all);
}

/// Puts a summary into a list by name.
pub fn put_summary(list: &mut Vec<FunctionTaintSummary>, s: FunctionTaintSummary)
    ensures
        views(final(list)@) == without(views(old(list)@), s@.name).push(s@),
{
    drop_named(list, s.name.as_str());
    list.push(s);
}

/// The summary of the function `name` in the first of the files `paths[from..]` that has one.
pub open spec fn summary_in(
    paths: Seq<Text>,
    files: Map<Text, Vec<FunctionTaintSummary>>,
    name: Text,
    from: int,
) -> Option<Summary>
    decreases paths.len() - from,
{
    if from < 0 || from >= paths.len() {
        None
    } else if files.contains_key(paths[from]) && summary_named(
        views(files[paths[from]]@),
        name,
        0,
    ) is Some {
        summary_named(views(files[paths[from]]@), name, 0)
    } else {
        summary_in(paths, files, name, from + 1)
    }
}

fn find_named<'a>(list: &'a Vec<FunctionTaintSummary>, name: &str) -> (r: Option<
    &'a FunctionTaintSummary,
>)
    ensures
        match r {
            Some(s) => summary_named(views(list@), name@, 0) == Some(s@),
            None => summary_named(views(list@), name@, 0) is None,
        },
{
    let mut i: usize = 0;
    while i < list.len()
        invariant
            i <= list@.len(),
            summary_named(views(list@), name@, 0) == summary_named(views(list@), name@, i as int),
        decreases list.len() - i,
    {
        assert(views(list@)[i as int] == list@[i as int]@);
        if text_eq(list[i].name.as_str(), name) {
            return Some(&list[i]);
        }
        i = i + 1;
    }
    None
}

/// The summary of the function `name` in the first of the given files that has one.
pub fn lookup_cross_file_summary<'a>(
    paths: &Vec<String>,
    files: &'a CrossFileSummaryMap,
    name: &str,
) -> (r: Option<&'a FunctionTaintSummary>)
    ensures
        match r {
            Some(s) => summary_in(views(paths@), files@, name@, 0) == Some(s@),
            None => summary_in(views(paths@), files@, name@, 0) is None,
        },
{
    let mut i: usize = 0;
    while i < paths.len()
        invariant
            i <= paths@.len(),
            summary_in(views(paths@), files@, name@, 0) == summary_in(
                views(paths@),
                files@,
                name@,
                i as int,
            ),
        decreases paths.len() - i,
    {
        assert(views(paths@)[i as int] == paths@[i as int]@);
        match files.get(paths[i].as_str()) {
            Some(list) => {
                match find_named(list, name) {
                    Some(s) => {
                        return Some(s);
                    },
                    None => {},
                }
            },
            None => {},
        }
        i = i + 1;
    }
    None
}

/// Whether a rule may report, going by a list of rule ids.
pub fn rule_allowed(allowed: &Vec<String>, rule: &str) -> (r: bool)
    ensures
        r == views(allowed@).contains(rule@),
{
    has_text(allowed, rule)
}

} // verus!
