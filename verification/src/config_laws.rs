//! What holds of configuration files whose comments are blanked, and of the directives in them.
use crate::config::{
    blanked, failing, failing_directives, in_comment, is_comment, line_stop, DirectiveTest,
    LacksAllProtocols, LacksMinimumTls13, LacksPostQuantum, LacksTls13,
};
use crate::pattern::regex_found;
use crate::text::{
    byte_slice, first_pos, has_part, is_white, lemma_after_last, lemma_first_pos, line_start,
    occurs_at, trimmed_start, uppercase, Text, NEWLINE,
};
use crate::text_laws::{all_white, lemma_skip_white};
use vstd::prelude::*;
use vstd::utf8::encode_utf8;

verus! {

/// Whether the bytes from `s` to before `e` are one line without its line feed.
pub open spec fn is_line(bytes: Seq<u8>, s: int, e: int) -> bool {
    &&& 0 <= s <= e <= bytes.len()
    &&& s == 0 || bytes[s - 1] == 10
    &&& e == bytes.len() || bytes[e] == 10
    &&& forall|k: int| #![trigger bytes[k]] s <= k < e ==> bytes[k] != 10
}

proof fn lemma_line(src: Text, s: int, e: int, p: int)
    requires
        is_line(encode_utf8(src), s, e),
        s <= p <= e,
        p < encode_utf8(src).len(),
    ensures
        line_start(src, p) == s,
        first_pos(encode_utf8(src), NEWLINE, s) == e,
{
    let bytes = encode_utf8(src);
    lemma_after_last(bytes, NEWLINE, p);
    lemma_first_pos(bytes, NEWLINE, s);
    let a = line_start(src, p);
    if a > s {
        assert(bytes[a - 1] == 10);
    }
    if a < s {
        assert(bytes[s - 1] != NEWLINE);
    }
    let f = first_pos(bytes, NEWLINE, s);
    if f < e {
        assert(bytes[f] == 10);
    }
    if f > e {
        assert(bytes[e] != NEWLINE);
    }
}

/// Blanking keeps the length of a text, its line feeds and whatever is no comment: a byte is
/// the same or becomes a space.
pub proof fn blanking_keeps_the_lines(src: Text, s: int, e: int, p: int)
    requires
        is_line(encode_utf8(src), s, e),
        s <= p <= e,
        p < encode_utf8(src).len(),
    ensures
        blanked(src).len() == encode_utf8(src).len(),
        blanked(src)[p] == encode_utf8(src)[p] || blanked(src)[p] == 32,
        p == e ==> blanked(src)[p] == 10,
{
    lemma_line(src, s, e, p);
}

/// A line is a comment where its first character other than white space is `#`. All of it is
/// blanked then, but for a carriage return at its end, and none of it where it is none.
pub proof fn comments_are_blanked(src: Text, s: int, e: int, p: int, w: Text, c: char, rest: Text)
    requires
        is_line(encode_utf8(src), s, e),
        s <= p < line_stop(encode_utf8(src), s),
        byte_slice(src, s, line_stop(encode_utf8(src), s)) == w + seq![c] + rest,
        all_white(w),
        !is_white(c),
    ensures
        c == '#' ==> blanked(src)[p] == 32,
        c != '#' ==> blanked(src)[p] == encode_utf8(src)[p],
{
    let bytes = encode_utf8(src);
    let line = w + seq![c] + rest;
    lemma_first_pos(bytes, NEWLINE, s);
    if e < bytes.len() {
        lemma_line(src, s, e, s);
    } else {
        let f = first_pos(bytes, NEWLINE, s);
        if f < e {
            assert(bytes[f] == 10);
        }
    }
    lemma_line(src, s, e, p);
    lemma_skip_white(line, 0);
    let q = crate::text::skip_white(line, 0);
    assert(line[w.len() as int] == c);
    if q < w.len() {
        assert(is_white(w[q]));
    }
    assert(q == w.len());
    let cut = trimmed_start(line);
    assert(cut[0] == c);
    reveal_strlit("#");
    assert(cut.subrange(0, 1) =~= seq![c]);
    assert("#"@ =~= seq!['#']);
    if c == '#' {
        assert(occurs_at(cut, "#"@, 0));
    } else {
        assert(seq![c][0] != seq!['#'][0]);
    }
    assert(is_comment(src, s) <==> c == '#');
    assert(in_comment(src, p) <==> c == '#');
}

/// An empty line stays empty, and so does one of white space alone.
pub proof fn blank_lines_stay(src: Text, s: int, e: int, p: int)
    requires
        is_line(encode_utf8(src), s, e),
        s <= p < e,
        all_white(byte_slice(src, s, line_stop(encode_utf8(src), s))),
    ensures
        blanked(src)[p] == encode_utf8(src)[p],
{
    lemma_line(src, s, e, p);
    let line = byte_slice(src, s, line_stop(encode_utf8(src), s));
    lemma_skip_white(line, 0);
    let q = crate::text::skip_white(line, 0);
    if q < line.len() {
        assert(is_white(line[q]));
    }
    reveal_strlit("#");
    assert(trimmed_start(line).len() == 0);
}

// ─── Directives ──────────────────────────────────────────────────────────────
proof fn lemma_failing<D: DirectiveTest>(
    cleaned: Text,
    ranges: Seq<(int, int)>,
    from: int,
    x: (int, int),
)
    requires
        0 <= from,
    ensures
        failing::<D>(cleaned, ranges, from).contains(x) <==> D::fails(
            byte_slice(cleaned, x.0, x.1),
        ) && exists|k: int| #![trigger ranges[k]] from <= k < ranges.len() && ranges[k] == x,
    decreases ranges.len() - from,
{
    if from < ranges.len() {
        lemma_failing::<D>(cleaned, ranges, from + 1, x);
        let rest = failing::<D>(cleaned, ranges, from + 1);
        let all = failing::<D>(cleaned, ranges, from);
        if rest.contains(x) {
            let j = choose|j: int| 0 <= j < rest.len() && rest[j] == x;
            assert(all[j + (all.len() - rest.len())] == x);
        }
        if all.contains(x) {
            let j = choose|j: int| 0 <= j < all.len() && all[j] == x;
            if all.len() > rest.len() && j == 0 {
                assert(ranges[from] == x);
            } else {
                assert(rest[j - (all.len() - rest.len())] == x);
            }
        }
        if ranges[from] == x && D::fails(byte_slice(cleaned, x.0, x.1)) {
            assert(all[0] == x);
        }
    }
}

/// The directives that are reported are those that are found and fail the test.
pub proof fn failing_directives_are_those_that_fail<D: DirectiveTest>(
    pattern: Text,
    cleaned: Text,
    x: (int, int),
)
    ensures
        failing_directives::<D>(pattern, cleaned).contains(x) <==> regex_found(
            pattern,
            cleaned,
        ).contains(x) && D::fails(byte_slice(cleaned, x.0, x.1)),
{
    let ranges = regex_found(pattern, cleaned);
    lemma_failing::<D>(cleaned, ranges, 0, x);
}

/// A directive that names the protocol version with post-quantum key exchange passes, and one
/// that names neither it nor all protocols fails.
pub proof fn the_needed_protocol_passes(directive: Text, p: int)
    ensures
        occurs_at(directive, "TLSv1.3"@, p) ==> !LacksTls13::fails(directive)
            && !LacksAllProtocols::fails(directive),
        !has_part(directive, "TLSv1.3"@) ==> LacksTls13::fails(directive),
        occurs_at(directive, "ssl-min-ver TLSv1.3"@, p) ==> !LacksMinimumTls13::fails(directive),
        !has_part(directive, "min-ver TLSv1.3"@) && !has_part(directive, "ssl-min-ver TLSv1.3"@)
            ==> LacksMinimumTls13::fails(directive),
        occurs_at(uppercase(directive), "MLKEM"@, p) ==> !LacksPostQuantum::fails(directive),
        !has_part(uppercase(directive), "MLKEM"@) && !has_part(uppercase(directive), "X25519MLKEM"@)
            ==> LacksPostQuantum::fails(directive),
{
}

} // verus!
