//! What holds of syntax trees: how the walks over siblings relate to the parents of nodes.
use crate::text::Text;
use crate::tree::{first_of_kind, gap, SyntaxTree};
use vstd::prelude::*;

verus! {

/// Whether node `k` is a child of node `i`.
pub open spec fn is_child(t: &SyntaxTree, i: int, k: int) -> bool {
    0 <= k < t.len() && t.parent(k) == Some(i)
}

/// A child lies within its parent, and behind the subtrees of the nodes between them.
pub proof fn a_child_comes_after_its_elders(t: &SyntaxTree, i: int, c: int, k: int)
    requires
        t.wf(),
        is_child(t, i, k),
    ensures
        0 <= i < k < t.after(i),
        t.after(i) <= t.len(),
        i < c < k ==> t.after(c) <= k,
{
    reveal(SyntaxTree::wf);
    assert(t.nodes@[k].parent is Some);
    assert(t.nodes@[i].end > i);
    if i < c < k {
        assert(t.nodes@[c].end <= k);
    }
}

/// The subtree of a child ends within that of its parent.
pub proof fn a_child_lies_within_its_parent(t: &SyntaxTree, i: int, k: int)
    requires
        t.wf(),
        is_child(t, i, k),
    ensures
        i < k < t.after(k) <= t.after(i),
{
    reveal(SyntaxTree::wf);
    assert(t.nodes@[k].parent is Some);
    assert(t.nodes@[i].end > i);
    assert(t.nodes@[k].end > k);
    assert(t.nodes@[k].end <= t.nodes@[i].end);
}

/// A node is in the field that it is given, and in no other.
pub proof fn a_node_is_in_the_field_that_it_is_given(t: &SyntaxTree, k: int, name: Text)
    ensures
        t.in_field(k, name) <==> (t.nodes@[k].field matches Some(f) && f@ == name),
{
}

proof fn lemma_first_of_kind(t: &SyntaxTree, i: int, c: int, kind: Text)
    requires
        t.wf(),
        0 <= i < t.len(),
        is_boundary(t, i, c),
    ensures
        match first_of_kind(t, c, t.after(i), kind) {
            Some(k) => is_child(t, i, k) && t.kind(k) == kind && c <= k && forall|j: int|
                #![trigger is_child(t, i, j)]
                is_child(t, i, j) && c <= j < k ==> t.kind(j) != kind,
            None => forall|j: int|
                #![trigger is_child(t, i, j)]
                is_child(t, i, j) && c <= j ==> t.kind(j) != kind,
        },
    decreases gap(c, t.after(i)),
{
    if c < t.after(i) {
        lemma_boundary(t, i, c);
        lemma_first_of_kind(t, i, t.after(c), kind);
        assert forall|j: int| #![trigger is_child(t, i, j)] is_child(t, i, j) && c < j implies t.after(
            c,
        ) <= j by {
            a_child_comes_after_its_elders(t, i, c, j);
        }
    } else {
        assert forall|j: int| #![trigger is_child(t, i, j)] is_child(t, i, j) && c <= j implies t.kind(
            j,
        ) != kind by {
            a_child_comes_after_its_elders(t, i, c, j);
        }
    }
}

/// The first child of a kind is a child of that kind before which there is none.
pub proof fn the_first_of_a_kind_is_found(t: &SyntaxTree, i: int, kind: Text)
    requires
        t.wf(),
        0 <= i < t.len(),
    ensures
        match first_of_kind(t, i + 1, t.after(i), kind) {
            Some(k) => is_child(t, i, k) && t.kind(k) == kind && forall|j: int|
                #![trigger is_child(t, i, j)]
                is_child(t, i, j) && j < k ==> t.kind(j) != kind,
            None => forall|j: int|
                #![trigger is_child(t, i, j)]
                is_child(t, i, j) ==> t.kind(j) != kind,
        },
{
    lemma_first_of_kind(t, i, i + 1, kind);
    assert forall|j: int| #![trigger is_child(t, i, j)] is_child(t, i, j) implies i + 1 <= j by {
        a_child_comes_after_its_elders(t, i, i, j);
    }
}

/// Whether the nodes between node `i` and node `c` are all of subtrees that end before `c`.
spec fn is_boundary(t: &SyntaxTree, i: int, c: int) -> bool {
    0 <= i < c && forall|j: int| #![trigger t.nodes@[j].end] i < j < c ==> t.nodes@[j].end <= c
}

proof fn lemma_boundary(t: &SyntaxTree, i: int, c: int)
    requires
        t.wf(),
        0 <= i < t.len(),
        is_boundary(t, i, c),
        c < t.after(i),
    ensures
        is_child(t, i, c),
        is_boundary(t, i, t.after(c)),
        t.after(c) <= t.after(i),
        c < t.after(c),
{
    reveal(SyntaxTree::wf);
    let d = t.nodes@[c];
    assert(t.nodes@[i].end > i);
    assert(t.nodes@[c].end > c);
    match d.parent {
        Some(p) => {
            if p < i {
                assert(t.nodes@[i].end <= c);
            }
            if p > i {
                assert(t.nodes@[p as int].end <= c);
            }
        },
        None => {
            assert(t.nodes@[i].end <= c);
        },
    }
    assert forall|j: int| #![trigger t.nodes@[j].end] i < j < t.after(c) implies t.nodes@[j].end
        <= t.after(c) by {
        if j < c {
        } else if j > c {
            assert(t.nodes@[j].end <= t.nodes@[c].end);
        }
    }
}

proof fn lemma_siblings(t: &SyntaxTree, i: int, c: int, k: int)
    requires
        t.wf(),
        0 <= i < t.len(),
        is_boundary(t, i, c),
    ensures
        t.siblings(c, t.after(i)).contains(k) <==> c <= k && is_child(t, i, k),
        t.named_siblings(c, t.after(i)).contains(k) <==> c <= k && is_child(t, i, k) && t.named(k),
    decreases gap(c, t.after(i)),
{
    let e = t.after(i);
    if c < e {
        lemma_boundary(t, i, c);
        lemma_siblings(t, i, t.after(c), k);
        let rest = t.siblings(t.after(c), e);
        let named = t.named_siblings(t.after(c), e);
        if is_child(t, i, k) {
            a_child_comes_after_its_elders(t, i, c, k);
        }
        lemma_joined(c, rest, k);
        lemma_joined(c, named, k);
    } else if is_child(t, i, k) {
        a_child_comes_after_its_elders(t, i, c, k);
    }
}

proof fn lemma_joined(c: int, rest: Seq<int>, k: int)
    ensures
        (seq![c] + rest).contains(k) <==> k == c || rest.contains(k),
{
    let all = seq![c] + rest;
    if all.contains(k) {
        let j = choose|j: int| 0 <= j < all.len() && all[j] == k;
        if j > 0 {
            assert(rest[j - 1] == k);
        }
    }
    if rest.contains(k) {
        let j = choose|j: int| 0 <= j < rest.len() && rest[j] == k;
        assert(all[j + 1] == k);
    }
    if k == c {
        assert(all[0] == k);
    }
}

/// The children of a node are the nodes that name it as their parent, and its named
/// children are the named ones of them.
pub proof fn children_name_their_parent(t: &SyntaxTree, i: int, k: int)
    requires
        t.wf(),
        0 <= i < t.len(),
    ensures
        t.children(i).contains(k) <==> is_child(t, i, k),
        t.named_children(i).contains(k) <==> is_child(t, i, k) && t.named(k),
{
    lemma_siblings(t, i, i + 1, k);
    if is_child(t, i, k) {
        a_child_comes_after_its_elders(t, i, i, k);
    }
}

/// Whether the numbers grow and lie from `low` to before `high`.
pub open spec fn rises(s: Seq<int>, low: int, high: int) -> bool {
    &&& forall|j: int| #![trigger s[j]] 0 <= j < s.len() ==> low <= s[j] < high
    &&& forall|j: int, k: int| #![trigger s[j], s[k]] 0 <= j < k < s.len() ==> s[j] < s[k]
}

proof fn lemma_rises(c: int, rest: Seq<int>, low: int, high: int)
    requires
        c < low,
        c < high,
        rises(rest, low, high),
    ensures
        rises(seq![c] + rest, c, high),
{
    let all = seq![c] + rest;
    assert forall|j: int| #![trigger all[j]] 0 <= j < all.len() implies c <= all[j] < high by {
        if j > 0 {
            assert(all[j] == rest[j - 1]);
        }
    }
    assert forall|j: int, k: int| #![trigger all[j], all[k]] 0 <= j < k < all.len() implies all[j]
        < all[k] by {
        assert(all[k] == rest[k - 1]);
        if j > 0 {
            assert(all[j] == rest[j - 1]);
        }
    }
}

proof fn lemma_ordered(t: &SyntaxTree, c: int, e: int)
    requires
        0 <= c,
    ensures
        rises(t.named_siblings(c, e), c, e),
        rises(t.siblings(c, e), c, e),
    decreases gap(c, e),
{
    if c < e {
        let next = t.after(c);
        lemma_ordered(t, next, e);
        lemma_rises(c, t.named_siblings(next, e), next, e);
        lemma_rises(c, t.siblings(next, e), next, e);
    }
}

/// The children of a node are listed in the order of the text.
pub proof fn children_come_in_order(t: &SyntaxTree, i: int)
    requires
        0 <= i,
    ensures
        rises(t.named_children(i), i + 1, t.after(i)),
        rises(t.children(i), i + 1, t.after(i)),
{
    lemma_ordered(t, i + 1, t.after(i));
}

proof fn lemma_field_from(t: &SyntaxTree, i: int, c: int, name: Text)
    requires
        t.wf(),
        0 <= i < t.len(),
        is_boundary(t, i, c),
    ensures
        match t.field_from(c, t.after(i), name) {
            Some(k) => is_child(t, i, k) && t.in_field(k, name) && c <= k && forall|j: int|
                #![trigger is_child(t, i, j)]
                is_child(t, i, j) && t.in_field(j, name) && c <= j ==> k <= j,
            None => forall|j: int|
                #![trigger is_child(t, i, j)]
                is_child(t, i, j) && t.in_field(j, name) ==> j < c,
        },
    decreases gap(c, t.after(i)),
{
    let e = t.after(i);
    if c < e {
        lemma_boundary(t, i, c);
        lemma_field_from(t, i, t.after(c), name);
        if !t.in_field(c, name) {
            assert forall|j: int| #![trigger is_child(t, i, j)] is_child(t, i, j) && t.in_field(
                j,
                name,
            ) && c <= j implies t.after(c) <= j by {
                a_child_comes_after_its_elders(t, i, c, j);
            }
        }
    } else {
        assert forall|j: int| #![trigger is_child(t, i, j)] is_child(t, i, j) && t.in_field(
            j,
            name,
        ) implies j < c by {
            a_child_comes_after_its_elders(t, i, c, j);
        }
    }
}

/// The child in a field is the first child that stands in the field, and there is one where
/// any child does.
pub proof fn a_field_is_the_first_child_in_it(t: &SyntaxTree, i: int, name: Text)
    requires
        t.wf(),
        0 <= i < t.len(),
    ensures
        match t.field(i, name) {
            Some(k) => is_child(t, i, k) && t.in_field(k, name) && forall|j: int|
                #![trigger is_child(t, i, j)]
                is_child(t, i, j) && t.in_field(j, name) ==> k <= j,
            None => forall|j: int|
                #![trigger is_child(t, i, j)]
                is_child(t, i, j) ==> !t.in_field(j, name),
        },
{
    lemma_field_from(t, i, i + 1, name);
    assert forall|j: int| #![trigger is_child(t, i, j)] is_child(t, i, j) implies i + 1 <= j by {
        a_child_comes_after_its_elders(t, i, i, j);
    }
}

/// Whether every node from `c` on that a walk over the siblings before `e` comes to is a
/// child of node `i`.
pub open spec fn walks_children(t: &SyntaxTree, i: int, c: int, e: int) -> bool {
    forall|a: int| #![trigger t.siblings(c, e).contains(a)] t.siblings(c, e).contains(a)
        ==> is_child(t, i, a)
}

pub(crate) proof fn lemma_walk_on(t: &SyntaxTree, i: int, c: int, e: int)
    requires
        walks_children(t, i, c, e),
        c < e,
    ensures
        is_child(t, i, c),
        walks_children(t, i, t.after(c), e),
{
    let all = t.siblings(c, e);
    let rest = t.siblings(t.after(c), e);
    assert(all[0] == c);
    assert(all.contains(c));
    assert forall|a: int| #![trigger rest.contains(a)] rest.contains(a) implies is_child(t, i, a) by {
        let j = choose|j: int| 0 <= j < rest.len() && rest[j] == a;
        assert(all[j + 1] == a);
        assert(all.contains(a));
    }
}

} // verus!
