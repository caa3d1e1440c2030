//! What a rule that looks at every node of a file reports.
use crate::common::{found_in, walked, Visitor};
use crate::finding::Report;
use crate::text::Text;
use crate::tree::{gap, SyntaxTree};
use vstd::prelude::*;

verus! {

broadcast use crate::tree::group_tree;

/// Whether one of the reports is of the rule `id` and on node `i`.
pub open spec fn is_reported(reports: Seq<Report>, id: Text, t: &SyntaxTree, i: int) -> bool {
    exists|k: int|
        #![trigger reports[k]]
        0 <= k < reports.len() && reports[k].rule_id == id && reports[k].line == t.line(i)
}

/// Whether node `a` is the argument at position `k` of the call at node `i`.
pub open spec fn is_argument(t: &SyntaxTree, i: int, k: int, a: int) -> bool {
    t.field(i, "arguments"@) matches Some(args) && 0 <= k < t.named_children(args).len()
        && t.named_children(args)[k] == a
}

pub(crate) proof fn lemma_single(reports: Seq<Report>, id: Text, t: &SyntaxTree, i: int)
    requires
        reports.len() > 0,
        reports[0].rule_id == id,
        reports[0].line == t.line(i),
    ensures
        is_reported(reports, id, t, i),
{
}

proof fn lemma_walked<V: Visitor>(
    d: <V::Data as View>::V,
    t: &SyntaxTree,
    c: int,
    e: int,
    src: Text,
    x: <V::Found as View>::V,
)
    ensures
        walked::<V>(d, t, c, e, src).contains(x) <==> exists|i: int|
            c <= i < e && #[trigger] V::found(d, t, i, src).contains(x),
    decreases gap(c, e),
{
    if c < e {
        lemma_walked::<V>(d, t, c + 1, e, src, x);
        let here = V::found(d, t, c, src);
        let rest = walked::<V>(d, t, c + 1, e, src);
        let all = walked::<V>(d, t, c, e, src);
        if here.contains(x) {
            let k = choose|k: int| 0 <= k < here.len() && here[k] == x;
            assert(all[k] == x);
        }
        if rest.contains(x) {
            let k = choose|k: int| 0 <= k < rest.len() && rest[k] == x;
            assert(all[here.len() + k] == x);
        }
        if all.contains(x) {
            let k = choose|k: int| 0 <= k < all.len() && all[k] == x;
            if k < here.len() {
                assert(here[k] == x);
                assert(here.contains(x));
            } else {
                assert(rest[k - here.len()] == x);
            }
        }
    }
}

/// What is found in a file is what is found at some node of it, at every node and at no
/// other.
pub proof fn a_file_holds_what_its_nodes_hold<V: Visitor>(
    d: <V::Data as View>::V,
    t: &SyntaxTree,
    src: Text,
    x: <V::Found as View>::V,
)
    ensures
        found_in::<V>(d, t, src).contains(x) <==> exists|i: int|
            0 <= i < t.after(0) && #[trigger] V::found(d, t, i, src).contains(x),
{
    lemma_walked::<V>(d, t, 0, t.after(0), src, x);
}

} // verus!
