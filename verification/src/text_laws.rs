//! What holds of parts of texts, of alias tables and of positions in a text.
use crate::common::{hop_confidence, passes, resolved, secret_shaped, Thresholds};
use crate::text::{
    after_last, byte_slice, count_before, first_pos, first_segment, is_white, last_segment,
    lemma_after_last, lemma_first_pos, line_of, line_start, lower_char, lowered, skip_two,
    skip_two_back, skip_white, skip_white_back, source_line_spec, trimmed, trimmed_end, trimmed_of,
    trimmed_start, Text, NEWLINE,
};
use vstd::prelude::*;
use vstd::utf8::*;

verus! {

/// What stands before the first separator is the first segment, and what stands behind the
/// last one is the last segment.
pub proof fn segments_stand_at_the_ends(a: Text, b: Text, c: char)
    ensures
        !a.contains(c) ==> first_segment(a + seq![c] + b, c) == a,
        !b.contains(c) ==> last_segment(a + seq![c] + b, c) == b,
        !a.contains(c) ==> first_segment(a, c) == a && last_segment(a, c) == a,
{
    let s = a + seq![c] + b;
    assert(s[a.len() as int] == c);
    if !a.contains(c) {
        lemma_first_pos(s, c, 0);
        let p = first_pos(s, c, 0);
        assert forall|k: int| 0 <= k < a.len() implies s[k] != c by {
            assert(a.contains(a[k]));
        }
        assert(p == a.len());
        assert(s.take(p) =~= a);
        lemma_first_pos(a, c, 0);
        lemma_after_last(a, c, a.len() as int);
        let q = first_pos(a, c, 0);
        if q < a.len() {
            assert(a.contains(a[q]));
        }
        let r = after_last(a, c, a.len() as int);
        if r > 0 {
            assert(a.contains(a[r - 1]));
        }
        assert(a.take(a.len() as int) =~= a);
        assert(a.skip(0) =~= a);
    }
    if !b.contains(c) {
        lemma_after_last(s, c, s.len() as int);
        let p = after_last(s, c, s.len() as int);
        assert forall|k: int| a.len() < k < s.len() implies s[k] != c by {
            assert(b.contains(b[k - a.len() - 1]));
            assert(s[k] == b[k - a.len() - 1]);
        }
        assert(p == a.len() + 1);
        assert(s.skip(p) =~= b);
    }
}

/// A name behind an alias stands for the same name behind what the alias stands for, and an
/// alias by itself for what it stands for.
pub proof fn an_alias_is_replaced(aliases: Map<Text, Text>, head: Text, tail: Text)
    requires
        !head.contains('.'),
        aliases.contains_key(head),
    ensures
        resolved(aliases, head + seq!['.'] + tail) == aliases[head] + seq!['.'] + tail,
        resolved(aliases, head) == aliases[head],
{
    let callee = head + seq!['.'] + tail;
    segments_stand_at_the_ends(head, tail, '.');
    lemma_first_pos(callee, '.', 0);
    assert(callee[head.len() as int] == '.');
    let dot = first_pos(callee, '.', 0);
    assert forall|k: int| 0 <= k < head.len() implies callee[k] != '.' by {
        assert(head.contains(head[k]));
    }
    assert(dot == head.len());
    assert(callee.take(dot) =~= head);
    assert(callee.skip(dot + 1) =~= tail);
    reveal_strlit(".");
    assert("."@ =~= seq!['.']);
    assert(aliases[head] + "."@ + tail =~= aliases[head] + seq!['.'] + tail);
    assert(head + "."@ + tail =~= callee);
    lemma_first_pos(head, '.', 0);
    if first_pos(head, '.', 0) < head.len() {
        assert(head.contains(head[first_pos(head, '.', 0)]));
    }
}

pub(crate) proof fn lemma_skip_white(s: Text, from: int)
    requires
        0 <= from <= s.len(),
    ensures
        from <= skip_white(s, from) <= s.len(),
        skip_white(s, from) < s.len() ==> !is_white(s[skip_white(s, from)]),
        forall|k: int| from <= k < skip_white(s, from) ==> is_white(s[k]),
    decreases s.len() - from,
{
    if from < s.len() && is_white(s[from]) {
        lemma_skip_white(s, from + 1);
    }
}

proof fn lemma_skip_white_back(s: Text, end: int)
    requires
        0 <= end <= s.len(),
    ensures
        0 <= skip_white_back(s, 0, end) <= end,
        skip_white_back(s, 0, end) > 0 ==> !is_white(s[skip_white_back(s, 0, end) - 1]),
        forall|k: int| skip_white_back(s, 0, end) <= k < end ==> is_white(s[k]),
    decreases end,
{
    if end > 0 && is_white(s[end - 1]) {
        lemma_skip_white_back(s, end - 1);
    }
}

/// Whether a text is white space throughout.
pub open spec fn all_white(s: Text) -> bool {
    forall|k: int| 0 <= k < s.len() ==> is_white(#[trigger] s[k])
}

/// Trimming takes white space off both ends, and nothing else.
pub proof fn trimming_takes_white_ends_off(front: Text, core: Text, back: Text)
    requires
        all_white(front),
        all_white(back),
        core.len() > 0,
        !is_white(core[0]),
        !is_white(core.last()),
    ensures
        trimmed(front + core + back) == core,
{
    let s = front + core + back;
    lemma_skip_white(s, 0);
    let p = skip_white(s, 0);
    assert(s[front.len() as int] == core[0]);
    if p < front.len() {
        assert(is_white(front[p]));
    }
    assert(p == front.len());
    let r = trimmed_start(s);
    assert(r =~= core + back);
    lemma_skip_white_back(r, r.len() as int);
    let q = skip_white_back(r, 0, r.len() as int);
    assert(r[core.len() - 1] == core.last());
    if q > core.len() {
        assert(r[q - 1] == back[q - 1 - core.len()]);
        assert(is_white(back[q - 1 - core.len()]));
    }
    assert(trimmed_end(r) =~= core);
}

/// Texts that differ in the case of ASCII letters alone are equal in lower case, and the
/// rest of a text stays as it is.
pub proof fn lower_case_keeps_all_but_capitals(s: Text)
    ensures
        lowered(s).len() == s.len(),
        forall|k: int|
            0 <= k < s.len() && !('A' <= s[k] <= 'Z') ==> #[trigger] lowered(s)[k] == s[k],
        forall|k: int|
            0 <= k < s.len() && 'A' <= s[k] <= 'Z' ==> (#[trigger] lowered(s)[k]) as int == s[k]
                as int + 32,
        lowered(lowered(s)) == lowered(s),
{
    let l = lowered(s);
    assert forall|k: int| 0 <= k < s.len() implies lower_char(#[trigger] l[k]) == l[k] by {
        assert(l[k] == lower_char(s[k]));
    }
    assert(lowered(l) =~= l);
}

proof fn lemma_no_newline(s: Seq<u8>, from: int, to: int)
    requires
        0 <= from <= to <= s.len(),
        forall|k: int| from <= k < to ==> s[k] != NEWLINE,
    ensures
        count_before(s, NEWLINE, to) == count_before(s, NEWLINE, from),
    decreases to - from,
{
    if from < to {
        lemma_no_newline(s, from, to - 1);
    }
}

/// The line of an offset grows by one behind every line feed and nowhere else, and begins
/// at one.
pub proof fn lines_are_counted_by_line_feeds(src: Text, at: int)
    requires
        0 <= at < encode_utf8(src).len(),
    ensures
        line_of(src, 0) == 1,
        line_of(src, at + 1) == line_of(src, at) + if encode_utf8(src)[at] == NEWLINE {
            1int
        } else {
            0int
        },
{
}

/// The line that an offset lies on reaches from the line feed before it, or the start, to
/// the line feed behind it, or the end, and holds no line feed.
pub proof fn a_source_line_lies_between_line_feeds(src: Text, at: int)
    requires
        0 <= at <= encode_utf8(src).len(),
    ensures
        exists|s: int, e: int|
            #![trigger byte_slice(src, s, e)]
            {
                &&& 0 <= s <= at <= e <= encode_utf8(src).len()
                &&& source_line_spec(src, at) == byte_slice(src, s, e)
                &&& s > 0 ==> encode_utf8(src)[s - 1] == NEWLINE
                &&& e < encode_utf8(src).len() ==> encode_utf8(src)[e] == NEWLINE
                &&& forall|k: int| s <= k < e ==> encode_utf8(src)[k] != NEWLINE
                &&& line_of(src, s) == line_of(src, at)
            },
{
    let bytes = encode_utf8(src);
    lemma_after_last(bytes, NEWLINE, at);
    lemma_first_pos(bytes, NEWLINE, at);
    let s = line_start(src, at);
    let e = first_pos(bytes, NEWLINE, at);
    lemma_no_newline(bytes, s, at);
    assert(source_line_spec(src, at) == byte_slice(src, s, e));
}

/// A flow within a function is certain, and no flow is less sure than three in five.
pub proof fn near_flows_are_certain(hops: int)
    ensures
        hops <= 1 ==> hop_confidence(hops) == 100,
        hops == 2 ==> hop_confidence(hops) == 80,
        hops > 2 ==> hop_confidence(hops) == 60,
{
}

/// A value with a space in it, an address or a path is not shaped like a secret, and a value
/// without spaces, slashes, dots and colons is.
pub proof fn prose_and_paths_are_no_secrets(inner: Text, rest: Text)
    ensures
        inner.contains(' ') ==> !secret_shaped(inner),
        inner == seq!['/'] + rest ==> !secret_shaped(inner),
        inner == "http://"@ + rest ==> !secret_shaped(inner),
        inner == "https://"@ + rest ==> !secret_shaped(inner),
        inner == "./"@ + rest ==> !secret_shaped(inner),
        inner == "../"@ + rest ==> !secret_shaped(inner),
        !inner.contains(' ') && !inner.contains('/') ==> secret_shaped(inner),
{
    reveal_strlit("/");
    reveal_strlit("http://");
    reveal_strlit("https://");
    reveal_strlit("./");
    reveal_strlit("../");
    if inner == seq!['/'] + rest {
        assert(inner.subrange(0, 1) =~= "/"@);
    }
    if inner == "http://"@ + rest {
        assert(inner.subrange(0, 7) =~= "http://"@);
    }
    if inner == "https://"@ + rest {
        assert(inner.subrange(0, 8) =~= "https://"@);
    }
    if inner == "./"@ + rest {
        assert(inner.subrange(0, 2) =~= "./"@);
    }
    if inner == "../"@ + rest {
        assert(inner.subrange(0, 3) =~= "../"@);
    }
    if !inner.contains('/') {
        assert("/"@[0] == '/' && "http://"@[5] == '/' && "https://"@[6] == '/' && "./"@[1] == '/'
            && "../"@[2] == '/');
        if inner.len() >= 1 && inner.subrange(0, 1) == "/"@ {
            assert(inner[0] == inner.subrange(0, 1)[0]);
            assert(inner.contains(inner[0]));
        }
        if inner.len() >= 7 && inner.subrange(0, 7) == "http://"@ {
            assert(inner[5] == inner.subrange(0, 7)[5]);
            assert(inner.contains(inner[5]));
        }
        if inner.len() >= 8 && inner.subrange(0, 8) == "https://"@ {
            assert(inner[6] == inner.subrange(0, 8)[6]);
            assert(inner.contains(inner[6]));
        }
        if inner.len() >= 2 && inner.subrange(0, 2) == "./"@ {
            assert(inner[1] == inner.subrange(0, 2)[1]);
            assert(inner.contains(inner[1]));
        }
        if inner.len() >= 3 && inner.subrange(0, 3) == "../"@ {
            assert(inner[2] == inner.subrange(0, 3)[2]);
            assert(inner.contains(inner[2]));
        }
    }
}

/// A value passes the thresholds exactly where it has the minimal number of bytes and is not
/// among those of low entropy.
pub proof fn short_and_plain_values_do_not_pass(limits: Thresholds, inner: Text)
    ensures
        encode_utf8(inner).len() < limits.min_length ==> !passes(limits, inner),
        limits.low_entropy.contains(inner) ==> !passes(limits, inner),
        encode_utf8(inner).len() >= limits.min_length && !limits.low_entropy.contains(inner)
            ==> passes(limits, inner),
{
}

pub(crate) proof fn lemma_skip_two(s: Text, x: char, y: char, from: int)
    requires
        0 <= from <= s.len(),
    ensures
        from <= skip_two(s, x, y, from) <= s.len(),
        skip_two(s, x, y, from) < s.len() ==> s[skip_two(s, x, y, from)] != x && s[skip_two(
            s,
            x,
            y,
            from,
        )] != y,
        forall|k: int| from <= k < skip_two(s, x, y, from) ==> s[k] == x || s[k] == y,
    decreases s.len() - from,
{
    if from < s.len() && (s[from] == x || s[from] == y) {
        lemma_skip_two(s, x, y, from + 1);
    }
}

proof fn lemma_skip_two_back(s: Text, x: char, y: char, end: int)
    requires
        0 <= end <= s.len(),
    ensures
        0 <= skip_two_back(s, x, y, end) <= end,
        skip_two_back(s, x, y, end) > 0 ==> s[skip_two_back(s, x, y, end) - 1] != x
            && s[skip_two_back(s, x, y, end) - 1] != y,
        forall|k: int| skip_two_back(s, x, y, end) <= k < end ==> s[k] == x || s[k] == y,
    decreases end,
{
    if end > 0 && (s[end - 1] == x || s[end - 1] == y) {
        lemma_skip_two_back(s, x, y, end - 1);
    }
}

/// Whether a text is made of two characters alone.
pub open spec fn all_of(s: Text, x: char, y: char) -> bool {
    forall|k: int| 0 <= k < s.len() ==> (#[trigger] s[k]) == x || s[k] == y
}

/// Taking quotes off takes them off both ends, and nothing else.
pub proof fn quotes_are_taken_off(front: Text, core: Text, back: Text, x: char, y: char)
    requires
        all_of(front, x, y),
        all_of(back, x, y),
        core.len() > 0,
        core[0] != x && core[0] != y,
        core.last() != x && core.last() != y,
    ensures
        trimmed_of(front + core + back, x, y) == core,
{
    let s = front + core + back;
    lemma_skip_two(s, x, y, 0);
    let p = skip_two(s, x, y, 0);
    assert(s[front.len() as int] == core[0]);
    if p < front.len() {
        assert(s[p] == front[p]);
    }
    assert(p == front.len());
    let r = s.skip(p);
    assert(r =~= core + back);
    lemma_skip_two_back(r, x, y, r.len() as int);
    let q = skip_two_back(r, x, y, r.len() as int);
    assert(r[core.len() - 1] == core.last());
    if q > core.len() {
        assert(r[q - 1] == back[q - 1 - core.len()]);
    }
    assert(q == core.len());
    assert(r.take(q) =~= core);
}

} // verus!
