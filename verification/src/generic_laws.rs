//! What generic matchers find, told by the bytes of what is found.
use crate::generic_mode::{
    all_ranges, compiled, filtered_finds_do_not_overlap, is_name, is_sorted_once, overlap,
    overlaps_any, ranges_of, sorted_once, sorting_keeps_the_ranges, tokens_from, tokens_of,
    with_ellipses, with_metavars, Elem, GenericMatcher, GenericRule, Tok,
};
use crate::text::Text;
use vstd::prelude::*;
use vstd::utf8::encode_utf8;

verus! {

/// Whether the byte `p` lies in the range.
pub open spec fn holds_byte(range: (int, int), p: int) -> bool {
    range.0 <= p < range.1
}

/// Whether the range `x` is one that the matcher finds.
pub open spec fn is_found(m: GenericMatcher, src: Text, toks: Seq<Tok>, x: (int, int)) -> bool {
    ranges_of(m, src, toks).contains(x)
}

proof fn lemma_found_by_one(
    ms: Seq<GenericMatcher>,
    from: int,
    src: Text,
    toks: Seq<Tok>,
    x: (int, int),
)
    requires
        0 <= from,
    ensures
        all_ranges(ms, from, src, toks).contains(x) <==> exists|k: int|
            from <= k < ms.len() && #[trigger] is_found(ms[k], src, toks, x),
    decreases ms.len() - from,
{
    if from < ms.len() {
        let here = ranges_of(ms[from], src, toks);
        let rest = all_ranges(ms, from + 1, src, toks);
        let all = all_ranges(ms, from, src, toks);
        lemma_found_by_one(ms, from + 1, src, toks, x);
        if here.contains(x) {
            let j = choose|j: int| 0 <= j < here.len() && here[j] == x;
            assert(all[j] == x);
            assert(is_found(ms[from], src, toks, x));
        }
        if rest.contains(x) {
            let j = choose|j: int| 0 <= j < rest.len() && rest[j] == x;
            assert(all[here.len() + j] == x);
        }
        if all.contains(x) {
            let j = choose|j: int| 0 <= j < all.len() && all[j] == x;
            if j < here.len() {
                assert(here[j] == x);
                assert(is_found(ms[from], src, toks, x));
            } else {
                assert(rest[j - here.len()] == x);
            }
        }
    }
}

/// A matcher of alternatives finds what any of them finds, each range once and in order.
pub proof fn alternatives_find_what_any_of_them_finds(
    m: GenericMatcher,
    src: Text,
    toks: Seq<Tok>,
    x: (int, int),
)
    requires
        m is Either,
    ensures
        is_found(m, src, toks, x) <==> exists|k: int|
            0 <= k < m->Either_0@.len() && #[trigger] is_found(m->Either_0@[k], src, toks, x),
        is_sorted_once(ranges_of(m, src, toks)),
{
    let all = all_ranges(m->Either_0@, 0, src, toks);
    sorting_keeps_the_ranges(all);
    lemma_found_by_one(m->Either_0@, 0, src, toks, x);
    assert(ranges_of(m, src, toks) == sorted_once(all));
}

/// What shares a byte with a find of one of the matchers that are left out is not found.
pub proof fn what_shares_a_byte_with_an_exception_is_left_out(
    m: GenericMatcher,
    src: Text,
    toks: Seq<Tok>,
    x: (int, int),
    k: int,
    n: (int, int),
    p: int,
)
    requires
        m is Filtered,
        0 <= k < m->negatives@.len(),
        is_found(m->negatives@[k], src, toks, n),
        holds_byte(x, p),
        holds_byte(n, p),
    ensures
        !is_found(m, src, toks, x),
{
    let others = all_ranges(m->negatives@, 0, src, toks);
    filtered_finds_do_not_overlap(m, src, toks, x);
    lemma_found_by_one(m->negatives@, 0, src, toks, n);
    let j = choose|j: int| 0 <= j < others.len() && others[j] == n;
    assert(overlap(x, others[j]));
}

/// What is to be found is found where every find of the matchers that are left out ends
/// before it or begins behind it.
pub proof fn what_lies_apart_from_the_exceptions_is_found(
    m: GenericMatcher,
    src: Text,
    toks: Seq<Tok>,
    x: (int, int),
)
    requires
        m is Filtered,
        is_found(*m->positive, src, toks, x),
        forall|k: int, n: (int, int)|
            0 <= k < m->negatives@.len() && #[trigger] is_found(m->negatives@[k], src, toks, n)
                ==> n.1 <= x.0 || x.1 <= n.0,
    ensures
        is_found(m, src, toks, x),
{
    let others = all_ranges(m->negatives@, 0, src, toks);
    filtered_finds_do_not_overlap(m, src, toks, x);
    if overlaps_any(x, others) {
        let j = choose|j: int| #![trigger others[j]] 0 <= j < others.len() && overlap(x, others[j]);
        lemma_found_by_one(m->negatives@, 0, src, toks, others[j]);
        assert(others.contains(others[j]));
    }
}

/// Where no find is empty, a filtered matcher finds what is to be found and shares no byte
/// with a find of the matchers that are left out, and nothing else.
pub proof fn a_filtered_matcher_finds_what_shares_no_byte(
    m: GenericMatcher,
    src: Text,
    toks: Seq<Tok>,
    x: (int, int),
)
    requires
        m is Filtered,
        x.0 < x.1,
        forall|k: int, n: (int, int)|
            0 <= k < m->negatives@.len() && #[trigger] is_found(m->negatives@[k], src, toks, n)
                ==> n.0 < n.1,
    ensures
        is_found(m, src, toks, x) <==> is_found(*m->positive, src, toks, x) && !exists|
            k: int,
            n: (int, int),
            p: int,
        |
            #![trigger is_found(m->negatives@[k], src, toks, n), holds_byte(n, p)]
            0 <= k < m->negatives@.len() && is_found(m->negatives@[k], src, toks, n) && holds_byte(
                x,
                p,
            ) && holds_byte(n, p),
{
    filtered_finds_do_not_overlap(m, src, toks, x);
    if exists|k: int, n: (int, int), p: int|
        #![trigger is_found(m->negatives@[k], src, toks, n), holds_byte(n, p)]
        0 <= k < m->negatives@.len() && is_found(m->negatives@[k], src, toks, n) && holds_byte(x, p)
            && holds_byte(n, p) {
        let (k, n, p) = choose|k: int, n: (int, int), p: int|
            #![trigger is_found(m->negatives@[k], src, toks, n), holds_byte(n, p)]
            0 <= k < m->negatives@.len() && is_found(m->negatives@[k], src, toks, n) && holds_byte(
                x,
                p,
            ) && holds_byte(n, p);
        what_shares_a_byte_with_an_exception_is_left_out(m, src, toks, x, k, n, p);
    } else if is_found(*m->positive, src, toks, x) {
        assert forall|k: int, n: (int, int)|
            0 <= k < m->negatives@.len() && #[trigger] is_found(
                m->negatives@[k],
                src,
                toks,
                n,
            ) implies n.1 <= x.0 || x.1 <= n.0 by {
            let p = if x.0 < n.0 {
                n.0
            } else {
                x.0
            };
            assert(holds_byte(n, p) ==> !holds_byte(x, p));
        }
        what_lies_apart_from_the_exceptions_is_found(m, src, toks, x);
    }
}

// ─── Reports ─────────────────────────────────────────────────────────────────
/// A rule reports each range once, in the order of the ranges, under its own id, severity and
/// message.
pub proof fn each_range_is_reported(rule: &GenericRule, src: Text, ranges: Seq<(int, int)>, from: int)
    requires
        0 <= from <= ranges.len(),
    ensures
        rule.reports(src, ranges, from).len() == ranges.len() - from,
        forall|k: int|
            #![trigger rule.reports(src, ranges, from)[k]]
            0 <= k < ranges.len() - from ==> {
                let r = rule.reports(src, ranges, from)[k];
                r == rule.report(src, ranges[from + k]) && r.rule_id == rule.id@ && r.severity
                    == rule.severity && r.description == rule.message@
            },
    decreases ranges.len() - from,
{
    if from < ranges.len() {
        each_range_is_reported(rule, src, ranges, from + 1);
        let rest = rule.reports(src, ranges, from + 1);
        let all = rule.reports(src, ranges, from);
        assert forall|k: int| #![trigger all[k]] 0 <= k < ranges.len() - from implies {
            let r = all[k];
            r == rule.report(src, ranges[from + k]) && r.rule_id == rule.id@ && r.severity
                == rule.severity && r.description == rule.message@
        } by {
            if k > 0 {
                assert(all[k] == rest[k - 1]);
            }
        }
    }
}

// ─── Tokens and patterns ─────────────────────────────────────────────────────
/// Whether a byte is an ASCII letter, a digit or an underscore.
pub open spec fn belongs_to_a_word(b: u8) -> bool {
    ||| 'a' <= b as char <= 'z'
    ||| 'A' <= b as char <= 'Z'
    ||| '0' <= b as char <= '9'
    ||| b as char == '_'
}

/// Whether the token is a run of letters, digits and underscores that goes on as far as
/// there are any.
pub open spec fn is_whole_word(bytes: Seq<u8>, tok: Tok) -> bool {
    &&& forall|p: int|
        #![trigger bytes[p]]
        tok.start <= p < tok.end ==> belongs_to_a_word(bytes[p])
    &&& tok.end < bytes.len() ==> !belongs_to_a_word(bytes[tok.end])
}

proof fn lemma_whole_words(src: Text, i: int, k: int)
    requires
        0 <= i,
        0 <= k < tokens_from(src, i).len(),
    ensures
        ({
            let bytes = encode_utf8(src);
            let tok = tokens_from(src, i)[k];
            i <= tok.start < bytes.len() && !(bytes[tok.start] == 32 || 9 <= bytes[tok.start] <= 10
                || 12 <= bytes[tok.start] <= 13) && if belongs_to_a_word(bytes[tok.start]) {
                is_whole_word(bytes, tok)
            } else {
                bytes[tok.start] < 128 ==> tok.end == tok.start + 1
            }
        }),
    decreases encode_utf8(src).len() - i,
{
    let bytes = encode_utf8(src);
    crate::generic_mode::lemma_word_end(bytes, i);
    if crate::generic_mode::is_space(bytes[i]) {
        lemma_whole_words(src, i + 1, k);
    } else {
        let end = crate::generic_mode::token_end(bytes, i);
        if k > 0 {
            lemma_whole_words(src, end, k - 1);
            assert(tokens_from(src, i)[k] == tokens_from(src, end)[k - 1]);
        }
    }
}

/// A token begins at no white space. One that begins with a letter, a digit or an
/// underscore is a whole word, and any other ASCII character is a token by itself.
pub proof fn words_are_not_split(src: Text, k: int)
    requires
        0 <= k < tokens_of(src).len(),
    ensures
        ({
            let bytes = encode_utf8(src);
            let tok = tokens_of(src)[k];
            0 <= tok.start < bytes.len() && !(bytes[tok.start] == 32 || 9 <= bytes[tok.start] <= 10
                || 12 <= bytes[tok.start] <= 13) && if belongs_to_a_word(bytes[tok.start]) {
                is_whole_word(bytes, tok)
            } else {
                bytes[tok.start] < 128 ==> tok.end == tok.start + 1
            }
        }),
{
    lemma_whole_words(src, 0, k);
}

proof fn lemma_plain_metavars(toks: Seq<Tok>, from: int)
    requires
        0 <= from <= toks.len(),
        forall|k: int| #![trigger toks[k]] 0 <= k < toks.len() ==> toks[k].text != "$"@,
    ensures
        with_metavars(toks, from).len() == toks.len() - from,
        forall|k: int|
            #![trigger with_metavars(toks, from)[k]]
            0 <= k < toks.len() - from ==> with_metavars(toks, from)[k] == Elem::Literal(
                toks[from + k].text,
            ),
    decreases toks.len() - from,
{
    if from < toks.len() {
        lemma_plain_metavars(toks, from + 1);
        let rest = with_metavars(toks, from + 1);
        let all = with_metavars(toks, from);
        assert(all == seq![Elem::Literal(toks[from].text)] + rest);
        assert forall|k: int| #![trigger all[k]] 0 <= k < toks.len() - from implies all[k]
            == Elem::Literal(toks[from + k].text) by {
            if k > 0 {
                assert(all[k] == rest[k - 1]);
            }
        }
    }
}

proof fn lemma_plain_elems(elems: Seq<Elem>, from: int)
    requires
        0 <= from <= elems.len(),
        forall|k: int|
            #![trigger elems[k]]
            0 <= k < elems.len() ==> elems[k] != Elem::Literal("."@),
    ensures
        with_ellipses(elems, from, 0) == elems.skip(from),
    decreases elems.len() - from,
{
    let none = crate::generic_mode::literal_dots(0);
    if from < elems.len() {
        lemma_plain_elems(elems, from + 1);
        assert(none + seq![elems[from]] + elems.skip(from + 1) =~= elems.skip(from));
    } else {
        assert(none =~= elems.skip(from));
    }
}

/// A pattern without dollar signs and dots stands for its own tokens, one after the other.
pub proof fn a_plain_pattern_stands_for_its_tokens(pattern: Text)
    requires
        forall|k: int|
            #![trigger tokens_of(pattern)[k]]
            0 <= k < tokens_of(pattern).len() ==> tokens_of(pattern)[k].text != "$"@ && tokens_of(
                pattern,
            )[k].text != "."@,
    ensures
        compiled(pattern).len() == tokens_of(pattern).len(),
        forall|k: int|
            #![trigger compiled(pattern)[k]]
            0 <= k < tokens_of(pattern).len() ==> compiled(pattern)[k] == Elem::Literal(
                tokens_of(pattern)[k].text,
            ),
{
    let toks = tokens_of(pattern);
    let elems = with_metavars(toks, 0);
    lemma_plain_metavars(toks, 0);
    assert forall|k: int| #![trigger elems[k]] 0 <= k < elems.len() implies elems[k]
        != Elem::Literal("."@) by {
        assert(toks[k].text != "."@);
    }
    lemma_plain_elems(elems, 0);
    assert(elems.skip(0) =~= elems);
}

/// A dollar sign and a word that begins with a capital letter or an underscore make one
/// metavariable, wherever they stand.
pub proof fn a_dollar_and_a_name_make_a_metavariable(toks: Seq<Tok>, from: int)
    requires
        0 <= from,
        from + 1 < toks.len(),
        toks[from].text == "$"@,
        toks[from + 1].text.len() > 0,
        'A' <= toks[from + 1].text[0] <= 'Z' || toks[from + 1].text[0] == '_',
        forall|j: int|
            #![trigger toks[from + 1].text[j]]
            0 <= j < toks[from + 1].text.len() ==> ({
                let c = toks[from + 1].text[j];
                'a' <= c <= 'z' || 'A' <= c <= 'Z' || '0' <= c <= '9' || c == '_'
            }),
    ensures
        with_metavars(toks, from) == seq![Elem::Metavar("$"@ + toks[from + 1].text)]
            + with_metavars(toks, from + 2),
{
    assert(is_name(toks[from + 1].text));
}

/// Three dots in a row make one ellipsis, wherever they stand.
pub proof fn three_dots_make_an_ellipsis(elems: Seq<Elem>, from: int)
    requires
        0 <= from,
        from + 2 < elems.len(),
        elems[from] == Elem::Literal("."@),
        elems[from + 1] == Elem::Literal("."@),
        elems[from + 2] == Elem::Literal("."@),
    ensures
        with_ellipses(elems, from, 0) == seq![Elem::Ellipsis] + with_ellipses(elems, from + 3, 0),
{
    assert(with_ellipses(elems, from, 0) == with_ellipses(elems, from + 1, 1));
    assert(with_ellipses(elems, from + 1, 1) == with_ellipses(elems, from + 2, 2));
}

} // verus!
