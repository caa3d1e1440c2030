//! Syntax trees as plain values.
//!
//! A tree is a list of nodes in pre-order. Each node holds the index one past
//! its last descendant, so a subtree is a contiguous range of the list.
use crate::text::{
    byte_slice, check_byte_range, is_byte_range, opt_view, slice_bytes, text_eq, Text,
};
use vstd::prelude::*;
use vstd::utf8::*;

verus! {

/// One node of a syntax tree.
#[derive(Debug)]
pub struct SyntaxNode {
    /// The grammar's name for the node.
    pub kind: String,
    /// Whether the node is named in the grammar (not a bare token).
    pub named: bool,
    /// The field of the parent that the node stands in, if any.
    pub field: Option<String>,
    pub start_byte: usize,
    pub end_byte: usize,
    pub start_row: usize,
    pub start_column: usize,
    pub end_row: usize,
    pub end_column: usize,
    /// The index of the parent, if any.
    pub parent: Option<usize>,
    /// The index one past the last descendant.
    pub end: usize,
}

/// A parsed file: its nodes in pre-order. The first node is the root.
#[derive(Debug)]
pub struct SyntaxTree {
    pub nodes: Vec<SyntaxNode>,
}

/// A node of a tree, as a handle on the tree that holds it.
#[derive(Debug, Clone, Copy)]
pub struct Node<'a> {
    pub tree: &'a SyntaxTree,
    pub index: usize,
}

/// How far `c` is before `e`.
pub open spec fn gap(c: int, e: int) -> int {
    if c < e {
        e - c
    } else {
        0
    }
}

impl SyntaxTree {
    pub open spec fn len(&self) -> int {
        self.nodes@.len() as int
    }

    /// The kind of node `i`.
    pub open spec fn kind(&self, i: int) -> Text {
        self.nodes@[i].kind@
    }

    /// Whether node `i` is named.
    pub open spec fn named(&self, i: int) -> bool {
        self.nodes@[i].named
    }

    /// The text of node `i` in `src`.
    pub open spec fn text(&self, i: int, src: Text) -> Text {
        byte_slice(src, self.nodes@[i].start_byte as int, self.nodes@[i].end_byte as int)
    }

    /// The line of node `i`, counted from one.
    pub open spec fn line(&self, i: int) -> int {
        self.nodes@[i].start_row + 1
    }

    /// The index after the subtree of node `i`: that of the next sibling, if any.
    pub open spec fn after(&self, i: int) -> int {
        if self.nodes@[i].end > i {
            self.nodes@[i].end as int
        } else {
            i + 1
        }
    }

    /// The parent of node `i`.
    pub open spec fn parent(&self, i: int) -> Option<int> {
        match self.nodes@[i].parent {
            Some(p) => Some(p as int),
            None => None,
        }
    }

    /// Whether node `i` stands in the field `name` of its parent.
    pub open spec fn in_field(&self, i: int, name: Text) -> bool {
        match self.nodes@[i].field {
            Some(f) => f@ == name,
            None => false,
        }
    }

    /// Of the siblings `c`, `after(c)`, ... before `e`, the first in the field `name`.
    pub open spec fn field_from(&self, c: int, e: int, name: Text) -> Option<int>
        decreases gap(c, e),
    {
        if c >= e {
            None
        } else if self.in_field(c, name) {
            Some(c)
        } else {
            self.field_from(self.after(c), e, name)
        }
    }

    /// The child of node `i` in the field `name`: the first, where there are several.
    pub open spec fn field(&self, i: int, name: Text) -> Option<int> {
        self.field_from(i + 1, self.after(i), name)
    }

    /// The text of the child of node `i` in the field `name`.
    pub open spec fn field_text(&self, i: int, name: Text, src: Text) -> Option<Text> {
        match self.field(i, name) {
            Some(k) => Some(self.text(k, src)),
            None => None,
        }
    }

    /// The siblings `c`, `after(c)`, ... before `e`.
    pub open spec fn siblings(&self, c: int, e: int) -> Seq<int>
        decreases gap(c, e),
    {
        if c >= e {
            Seq::empty()
        } else {
            seq![c] + self.siblings(self.after(c), e)
        }
    }

    /// The children of node `i`, in order.
    pub open spec fn children(&self, i: int) -> Seq<int> {
        self.siblings(i + 1, self.after(i))
    }

    /// The named ones of the siblings `c`, `after(c)`, ... before `e`.
    pub open spec fn named_siblings(&self, c: int, e: int) -> Seq<int>
        decreases gap(c, e),
    {
        if c >= e {
            Seq::empty()
        } else if self.named(c) {
            seq![c] + self.named_siblings(self.after(c), e)
        } else {
            self.named_siblings(self.after(c), e)
        }
    }

    /// The named children of node `i`, in order.
    pub open spec fn named_children(&self, i: int) -> Seq<int> {
        self.named_siblings(i + 1, self.after(i))
    }

    /// The first named child of node `i`.
    pub open spec fn first_named(&self, i: int) -> Option<int> {
        if self.named_children(i).len() > 0 {
            Some(self.named_children(i)[0])
        } else {
            None
        }
    }

    /// The named child of node `i` at position `k`, counted from zero.
    pub open spec fn nth_named(&self, i: int, k: int) -> Option<int> {
        if 0 <= k < self.named_children(i).len() {
            Some(self.named_children(i)[k])
        } else {
            None
        }
    }

    /// Whether the subtrees nest and every position is in range.
    pub open spec fn nested(&self) -> bool {
        &&& forall|i: int| #![trigger self.nodes@[i]]
            0 <= i < self.len() ==> i < self.nodes@[i].end <= self.len()
        &&& forall|i: int, j: int| #![trigger self.nodes@[i], self.nodes@[j]]
            0 <= i < j < self.nodes@[i].end && i < self.len() ==> self.nodes@[j].end
                <= self.nodes@[i].end
    }

    /// Whether each node names as its parent the innermost node that holds it.
    pub open spec fn parented(&self) -> bool {
        forall|i: int| #![trigger self.nodes@[i].parent]
            0 <= i < self.len() ==> match self.nodes@[i].parent {
                Some(p) => p < i < self.nodes@[p as int].end && forall|j: int| #![trigger self.nodes@[j].end]
                    p < j < i ==> self.nodes@[j].end <= i,
                None => forall|j: int| #![trigger self.nodes@[j].end] 0 <= j < i ==> self.nodes@[j].end
                    <= i,
            }
    }

    /// Whether every row and column can be counted from one.
    pub open spec fn countable(&self) -> bool {
        forall|i: int| #![trigger self.nodes@[i]]
            0 <= i < self.len() ==> {
                &&& self.nodes@[i].start_row < usize::MAX
                &&& self.nodes@[i].start_column < usize::MAX
                &&& self.nodes@[i].end_row < usize::MAX
                &&& self.nodes@[i].end_column < usize::MAX
            }
    }

    /// Whether the list of nodes is a tree.
    #[verifier::opaque]
    pub open spec fn wf(&self) -> bool {
        &&& self.nested()
        &&& self.parented()
        &&& self.countable()
    }

    /// Whether every node lies in `src`, on character boundaries, and the bytes of `src`
    /// can be counted from one.
    #[verifier::opaque]
    pub open spec fn placed(&self, src: Text) -> bool {
        &&& encode_utf8(src).len() < usize::MAX
        &&& forall|i: int| #![trigger self.nodes@[i]]
            0 <= i < self.len() ==> is_byte_range(
                src,
                self.nodes@[i].start_byte as int,
                self.nodes@[i].end_byte as int,
            )
    }

    /// Whether the list of nodes is a tree over `src`.
    pub open spec fn valid(&self, src: Text) -> bool {
        self.wf() && self.placed(src)
    }

    /// Whether the list of nodes is a tree over `src`.
    pub fn check(&self, src: &str) -> (r: bool)
        ensures
            r == self.valid(src@),
    {
        reveal(SyntaxTree::wf);
        reveal(SyntaxTree::placed);
        if src.as_bytes().len() == usize::MAX {
            return false;
        }
        let n: usize = self.nodes.len();
        let mut i: usize = 0;
        while i < n
            invariant
                i <= n,
                n == self.nodes@.len(),
                forall|k: int| #![trigger self.nodes@[k]]
                    0 <= k < i ==> {
                        &&& k < self.nodes@[k].end <= self.len()
                        &&& is_byte_range(
                            src@,
                            self.nodes@[k].start_byte as int,
                            self.nodes@[k].end_byte as int,
                        )
                        &&& self.nodes@[k].start_row < usize::MAX
                        &&& self.nodes@[k].start_column < usize::MAX
                        &&& self.nodes@[k].end_row < usize::MAX
                        &&& self.nodes@[k].end_column < usize::MAX
                    },
            decreases n - i,
        {
            reveal(SyntaxTree::wf);
            reveal(SyntaxTree::placed);
            let d = &self.nodes[i];
            if !(i < d.end && d.end <= n) {
                return false;
            }
            if !check_byte_range(src, d.start_byte, d.end_byte) {
                return false;
            }
            if d.start_row == usize::MAX || d.start_column == usize::MAX || d.end_row == usize::MAX
                || d.end_column == usize::MAX {
                return false;
            }
            i = i + 1;
        }
        let mut k: usize = 0;
        while k < n
            invariant
                k <= n,
                n == self.nodes@.len(),
                forall|i: int| #![trigger self.nodes@[i]]
                    0 <= i < self.len() ==> i < self.nodes@[i].end <= self.len(),
                forall|i: int, j: int| #![trigger self.nodes@[i], self.nodes@[j]]
                    0 <= i < k && i < j < self.nodes@[i].end ==> self.nodes@[j].end
                        <= self.nodes@[i].end,
            decreases n - k,
        {
            let stop: usize = self.nodes[k].end;
            let mut j: usize = k + 1;
            while j < stop
                invariant
                    k < n,
                    n == self.nodes@.len(),
                    k < j <= stop <= n,
                    stop == self.nodes@[k as int].end,
                    forall|m: int| #![trigger self.nodes@[m]]
                        k < m < j ==> self.nodes@[m].end <= stop,
                decreases stop - j,
            {
                reveal(SyntaxTree::wf);
                if self.nodes[j].end > stop {
                    assert(!self.nested());
                    return false;
                }
                j = j + 1;
            }
            k = k + 1;
        }
        assert(self.nested());
        let mut q: usize = 0;
        while q < n
            invariant
                q <= n,
                n == self.nodes@.len(),
                self.nested(),
                forall|i: int| #![trigger self.nodes@[i].parent]
                    0 <= i < q ==> match self.nodes@[i].parent {
                        Some(p) => p < i < self.nodes@[p as int].end && forall|j: int|
                            #![trigger self.nodes@[j].end]
                            p < j < i ==> self.nodes@[j].end <= i,
                        None => forall|j: int| #![trigger self.nodes@[j].end]
                            0 <= j < i ==> self.nodes@[j].end <= i,
                    },
            decreases n - q,
        {
            reveal(SyntaxTree::wf);
            let low: usize = match self.nodes[q].parent {
                Some(p) => {
                    if !(p < q && q < self.nodes[p].end) {
                        assert(self.nodes@[q as int].parent == Some(p));
                        assert(!self.parented());
                        return false;
                    }
                    p + 1
                },
                None => 0,
            };
            let mut j: usize = low;
            while j < q
                invariant
                    q < n,
                    n == self.nodes@.len(),
                    low <= j,
                    low <= q,
                    match self.nodes@[q as int].parent {
                        Some(p) => low == p + 1,
                        None => low == 0,
                    },
                    forall|m: int| #![trigger self.nodes@[m].end]
                        low <= m < j ==> self.nodes@[m].end <= q,
                decreases q - j,
            {
                reveal(SyntaxTree::wf);
                if self.nodes[j].end > q {
                    assert(!self.parented()) by {
                        assert(self.nodes@[j as int].end > q);
                        let p = self.nodes@[q as int].parent;
                    }
                    return false;
                }
                j = j + 1;
            }
            q = q + 1;
        }
        assert(self.parented());
        true
    }

    /// The root of a tree that has a node.
    pub fn root_node<'a>(&'a self) -> (r: Node<'a>)
        ensures
            r.tree == self,
            r.index == 0,
    {
        Node { tree: self, index: 0 }
    }
}

pub broadcast proof fn lemma_field_from_bounds(t: &SyntaxTree, c: int, e: int, name: Text)
    ensures
        (#[trigger] t.field_from(c, e, name)) matches Some(k) ==> c <= k < e && t.in_field(k, name),
    decreases gap(c, e),
{
    if c < e && !t.in_field(c, name) {
        lemma_field_from_bounds(t, t.after(c), e, name);
    }
}

/// A child in a field comes after its parent and before the parent's end.
pub broadcast proof fn lemma_field_bounds(t: &SyntaxTree, i: int, name: Text)
    ensures
        (#[trigger] t.field(i, name)) matches Some(k) ==> i < k < t.after(i) && t.in_field(k, name),
{
    lemma_field_from_bounds(t, i + 1, t.after(i), name);
}

pub proof fn lemma_named_siblings_bounds(t: &SyntaxTree, c: int, e: int, k: int)
    requires
        0 <= k < t.named_siblings(c, e).len(),
    ensures
        c <= t.named_siblings(c, e)[k] < e,
        t.named(t.named_siblings(c, e)[k]),
    decreases gap(c, e),
{
    if c < e {
        let rest = t.named_siblings(t.after(c), e);
        if t.named(c) {
            if k > 0 {
                lemma_named_siblings_bounds(t, t.after(c), e, k - 1);
                assert(t.named_siblings(c, e)[k] == rest[k - 1]);
            }
        } else {
            lemma_named_siblings_bounds(t, t.after(c), e, k);
        }
    }
}

pub proof fn lemma_siblings_bounds(t: &SyntaxTree, c: int, e: int, k: int)
    requires
        0 <= k < t.siblings(c, e).len(),
    ensures
        c <= t.siblings(c, e)[k] < e,
    decreases gap(c, e),
{
    if c < e {
        if k > 0 {
            lemma_siblings_bounds(t, t.after(c), e, k - 1);
            assert(t.siblings(c, e)[k] == t.siblings(t.after(c), e)[k - 1]);
        }
    }
}

/// A named child comes after its parent and before the parent's end.
pub broadcast proof fn lemma_named_child_bounds(t: &SyntaxTree, i: int, k: int)
    requires
        0 <= k < t.named_children(i).len(),
    ensures
        i < #[trigger] t.named_children(i)[k] < t.after(i),
        t.named(t.named_children(i)[k]),
{
    lemma_named_siblings_bounds(t, i + 1, t.after(i), k);
}

/// A child comes after its parent and before the parent's end.
pub broadcast proof fn lemma_child_bounds(t: &SyntaxTree, i: int, k: int)
    requires
        0 <= k < t.children(i).len(),
    ensures
        i < #[trigger] t.children(i)[k] < t.after(i),
{
    lemma_siblings_bounds(t, i + 1, t.after(i), k);
}

pub broadcast group group_tree {
    lemma_field_bounds,
    lemma_named_child_bounds,
    lemma_child_bounds,
}

/// Whether `r` is the node `o` of the tree `t`.
pub open spec fn is_node(r: Option<Node<'_>>, t: &SyntaxTree, o: Option<int>) -> bool {
    match r {
        Some(n) => n.tree == t && o == Some(n.index as int),
        None => o is None,
    }
}

/// The indices of a list of nodes.
pub open spec fn indices(s: Seq<Node<'_>>) -> Seq<int> {
    s.map_values(|n: Node<'_>| n.index as int)
}

impl<'a> Node<'a> {
    /// Whether the handle points into a tree over `src`.
    pub open spec fn valid(&self, src: Text) -> bool {
        self.wf() && self.tree.placed(src)
    }

    /// Whether the handle points into a tree.
    pub open spec fn wf(&self) -> bool {
        self.tree.wf() && self.index < self.tree.len()
    }

    /// The node's kind.
    pub fn kind(&self) -> (r: &'a str)
        requires
            self.index < self.tree.len(),
        ensures
            r@ == self.tree.kind(self.index as int),
    {
        self.tree.nodes[self.index].kind.as_str()
    }

    /// Whether the node is of the given kind.
    pub fn is_kind(&self, kind: &str) -> (r: bool)
        requires
            self.index < self.tree.len(),
        ensures
            r == (self.tree.kind(self.index as int) == kind@),
    {
        text_eq(self.kind(), kind)
    }

    /// Whether the node is named.
    pub fn is_named(&self) -> (r: bool)
        requires
            self.index < self.tree.len(),
        ensures
            r == self.tree.named(self.index as int),
    {
        self.tree.nodes[self.index].named
    }

    pub fn start_byte(&self) -> (r: usize)
        requires
            self.index < self.tree.len(),
        ensures
            r == self.tree.nodes@[self.index as int].start_byte,
    {
        self.tree.nodes[self.index].start_byte
    }

    pub fn end_byte(&self) -> (r: usize)
        requires
            self.index < self.tree.len(),
        ensures
            r == self.tree.nodes@[self.index as int].end_byte,
    {
        self.tree.nodes[self.index].end_byte
    }

    /// The line that the node starts on, counted from one.
    pub fn line(&self) -> (r: usize)
        requires
            self.wf(),
        ensures
            r == self.tree.line(self.index as int),
    {
        reveal(SyntaxTree::wf);
        self.tree.nodes[self.index].start_row + 1
    }

    /// The node's text in the source that the tree was parsed from.
    pub fn text<'s>(&self, src: &'s str) -> (r: &'s str)
        requires
            self.valid(src@),
        ensures
            r@ == self.tree.text(self.index as int, src@),
    {
        reveal(SyntaxTree::placed);
        let d = &self.tree.nodes[self.index];
        slice_bytes(src, d.start_byte, d.end_byte)
    }

    /// The index after the node's subtree.
    pub fn after(&self) -> (r: usize)
        requires
            self.index < self.tree.len(),
        ensures
            r == self.tree.after(self.index as int),
    {
        let _n: usize = self.tree.nodes.len();
        let e: usize = self.tree.nodes[self.index].end;
        if e > self.index {
            e
        } else {
            self.index + 1
        }
    }

    /// The index after the node's subtree, in a tree.
    pub fn end(&self) -> (r: usize)
        requires
            self.wf(),
        ensures
            r == self.tree.after(self.index as int),
            self.index < r <= self.tree.len(),
    {
        reveal(SyntaxTree::wf);
        self.after()
    }

    /// The node at an index of the same tree.
    pub fn at(&self, index: usize) -> (r: Node<'a>)
        ensures
            r.tree == self.tree,
            r.index == index,
    {
        Node { tree: self.tree, index }
    }

    /// Whether the node stands in the given field of its parent.
    pub fn is_in_field(&self, name: &str) -> (r: bool)
        requires
            self.index < self.tree.len(),
        ensures
            r == self.tree.in_field(self.index as int, name@),
    {
        match &self.tree.nodes[self.index].field {
            Some(f) => text_eq(f.as_str(), name),
            None => false,
        }
    }

    /// The text of the first child in the given field.
    pub fn field_text<'s>(&self, name: &str, src: &'s str) -> (r: Option<&'s str>)
        requires
            self.valid(src@),
        ensures
            opt_view(r) == self.tree.field_text(self.index as int, name@, src@),
    {
        match self.child_by_field_name(name) {
            Some(n) => Some(n.text(src)),
            None => None,
        }
    }

    /// The node's parent.
    pub fn parent(&self) -> (r: Option<Node<'a>>)
        requires
            self.wf(),
        ensures
            is_node(r, self.tree, self.tree.parent(self.index as int)),
            r matches Some(n) ==> n.wf() && n.index < self.index,
    {
        reveal(SyntaxTree::wf);
        match self.tree.nodes[self.index].parent {
            Some(p) => Some(Node { tree: self.tree, index: p }),
            None => None,
        }
    }

    /// The first child in the given field.
    pub fn child_by_field_name(&self, name: &str) -> (r: Option<Node<'a>>)
        requires
            self.wf(),
        ensures
            is_node(r, self.tree, self.tree.field(self.index as int, name@)),
            r matches Some(n) ==> n.wf() && self.index < n.index,
    {
        reveal(SyntaxTree::wf);
        let e: usize = self.after();
        let mut c: usize = self.index + 1;
        while c < e
            invariant
                self.wf(),
                self.index < c,
                e == self.tree.after(self.index as int),
                e <= self.tree.len(),
                self.tree.field(self.index as int, name@) == self.tree.field_from(
                    c as int,
                    e as int,
                    name@,
                ),
            decreases e - c,
        {
            reveal(SyntaxTree::wf);
            let child = Node { tree: self.tree, index: c };
            if child.is_in_field(name) {
                return Some(child);
            }
            c = child.after();
        }
        None
    }

    /// The children, in order.
    pub fn children(&self) -> (r: Vec<Node<'a>>)
        requires
            self.wf(),
        ensures
            indices(r@) == self.tree.children(self.index as int),
            forall|k: int| #![trigger r@[k]]
                0 <= k < r@.len() ==> r@[k].tree == self.tree && r@[k].wf() && r@[k].index
                    > self.index,
    {
        reveal(SyntaxTree::wf);
        let e: usize = self.after();
        let mut out: Vec<Node<'a>> = Vec::new();
        let mut c: usize = self.index + 1;
        proof {
            assert(indices(out@) + self.tree.siblings(c as int, e as int) =~= self.tree.children(
                self.index as int,
            ));
        }
        while c < e
            invariant
                self.wf(),
                self.index < c,
                e == self.tree.after(self.index as int),
                e <= self.tree.len(),
                indices(out@) + self.tree.siblings(c as int, e as int) == self.tree.children(
                    self.index as int,
                ),
                forall|k: int| #![trigger out@[k]]
                    0 <= k < out@.len() ==> out@[k].tree == self.tree && out@[k].wf()
                        && out@[k].index > self.index,
            decreases e - c,
        {
            reveal(SyntaxTree::wf);
            let child = Node { tree: self.tree, index: c };
            let ghost before = indices(out@);
            out.push(child);
            proof {
                assert(indices(out@) =~= before.push(c as int));
                assert(indices(out@) + self.tree.siblings(self.tree.after(c as int), e as int)
                    =~= before + self.tree.siblings(c as int, e as int));
            }
            c = child.after();
        }
        proof {
            assert(indices(out@) + self.tree.siblings(c as int, e as int) =~= indices(out@));
        }
        out
    }

    /// The named children, in order.
    pub fn named_children(&self) -> (r: Vec<Node<'a>>)
        requires
            self.wf(),
        ensures
            indices(r@) == self.tree.named_children(self.index as int),
            forall|k: int| #![trigger r@[k]]
                0 <= k < r@.len() ==> r@[k].tree == self.tree && r@[k].wf() && r@[k].index
                    > self.index,
    {
        reveal(SyntaxTree::wf);
        let e: usize = self.after();
        let mut out: Vec<Node<'a>> = Vec::new();
        let mut c: usize = self.index + 1;
        proof {
            assert(indices(out@) + self.tree.named_siblings(c as int, e as int)
                =~= self.tree.named_children(self.index as int));
        }
        while c < e
            invariant
                self.wf(),
                self.index < c,
                e == self.tree.after(self.index as int),
                e <= self.tree.len(),
                indices(out@) + self.tree.named_siblings(c as int, e as int)
                    == self.tree.named_children(self.index as int),
                forall|k: int| #![trigger out@[k]]
                    0 <= k < out@.len() ==> out@[k].tree == self.tree && out@[k].wf()
                        && out@[k].index > self.index,
            decreases e - c,
        {
            reveal(SyntaxTree::wf);
            let child = Node { tree: self.tree, index: c };
            if child.is_named() {
                let ghost before = indices(out@);
                out.push(child);
                proof {
                    assert(indices(out@) =~= before.push(c as int));
                    assert(indices(out@) + self.tree.named_siblings(
                        self.tree.after(c as int),
                        e as int,
                    ) =~= before + self.tree.named_siblings(c as int, e as int));
                }
            }
            c = child.after();
        }
        proof {
            assert(indices(out@) + self.tree.named_siblings(c as int, e as int) =~= indices(out@));
        }
        out
    }

    /// The named child at position `k`, counted from zero.
    pub fn named_child(&self, k: usize) -> (r: Option<Node<'a>>)
        requires
            self.wf(),
        ensures
            is_node(r, self.tree, self.tree.nth_named(self.index as int, k as int)),
            r matches Some(n) ==> n.wf() && self.index < n.index,
    {
        let all = self.named_children();
        if k < all.len() {
            proof {
                assert(indices(all@)[k as int] == all@[k as int].index);
            }
            Some(all[k])
        } else {
            None
        }
    }

    /// The first named child.
    pub fn first_named_child(&self) -> (r: Option<Node<'a>>)
        requires
            self.wf(),
        ensures
            is_node(r, self.tree, self.tree.first_named(self.index as int)),
            r matches Some(n) ==> n.wf() && self.index < n.index,
    {
        let all = self.named_children();
        if all.len() == 0 {
            None
        } else {
            proof {
                assert(indices(all@)[0] == all@[0].index);
            }
            Some(all[0])
        }
    }
}

/// The argument at position `k` of the call at node `i`.
pub open spec fn argument(t: &SyntaxTree, i: int, k: int) -> Option<int> {
    match t.field(i, "arguments"@) {
        Some(a) => t.nth_named(a, k),
        None => None,
    }
}

/// The argument of a call at position `k`.
pub fn nth_argument<'a>(node: Node<'a>, k: usize) -> (r: Option<Node<'a>>)
    requires
        node.wf(),
    ensures
        is_node(r, node.tree, argument(node.tree, node.index as int, k as int)),
        r matches Some(n) ==> n.wf() && node.index < n.index,
{
    match node.child_by_field_name("arguments") {
        Some(a) => a.named_child(k),
        None => None,
    }
}

/// The first of the siblings `c`, `after(c)`, ... before `e` of the given kind.
pub open spec fn first_of_kind(t: &SyntaxTree, c: int, e: int, kind: Text) -> Option<int>
    decreases gap(c, e),
{
    if c >= e {
        None
    } else if t.kind(c) == kind {
        Some(c)
    } else {
        first_of_kind(t, t.after(c), e, kind)
    }
}

/// The first child of the given kind.
pub fn child_of_kind<'a>(node: Node<'a>, kind: &str) -> (r: Option<Node<'a>>)
    requires
        node.wf(),
    ensures
        is_node(
            r,
            node.tree,
            first_of_kind(
                node.tree,
                node.index + 1,
                node.tree.after(node.index as int),
                kind@,
            ),
        ),
        r matches Some(n) ==> n.wf() && node.index < n.index,
{
    let e: usize = node.end();
    let mut c: usize = node.index + 1;
    while c < e
        invariant
            node.wf(),
            node.index < c,
            e == node.tree.after(node.index as int),
            e <= node.tree.len(),
            first_of_kind(node.tree, node.index + 1, e as int, kind@) == first_of_kind(
                node.tree,
                c as int,
                e as int,
                kind@,
            ),
        decreases gap(c as int, e as int),
    {
        let n = node.at(c);
        if n.is_kind(kind) {
            return Some(n);
        }
        c = n.end();
    }
    None
}

} // verus!
