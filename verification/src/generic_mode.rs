//! Matching of token patterns on plain text, for rules that know no grammar.
//!
//! A pattern is a list of tokens: `...` stands for any run of tokens, `$X` for one
//! token that is the same wherever `$X` stands, and any other token for itself.
use crate::common::{clamp, get_source_line};
use crate::finding::{plain_finding, plain_report, Finding, Language, Report, Severity};
use crate::pattern::{compile_regex, find_spans, int_spans, invalid_regex, regex_error, regex_found};
use crate::text::{
    byte_slice, chars_of, concat2, lemma_boundary_after_ascii, line_number, line_of, line_start,
    line_start_of, opt_view, slice_bytes, source_line_spec, text_eq, views, Text,
};
use crate::text_map::TextTable;
use std::sync::Arc;
use vstd::prelude::*;
use vstd::string::*;
use vstd::utf8::*;

verus! {

broadcast use crate::text::group_views;

// ─── Tokens ──────────────────────────────────────────────────────────────────
/// A token with its byte range.
#[derive(Debug, Clone, Copy)]
pub struct Token<'a> {
    pub text: &'a str,
    pub start: usize,
    pub end: usize,
}

/// What a [`Token`] denotes.
pub struct Tok {
    pub text: Text,
    pub start: int,
    pub end: int,
}

impl<'a> View for Token<'a> {
    type V = Tok;

    open spec fn view(&self) -> Tok {
        Tok { text: self.text@, start: self.start as int, end: self.end as int }
    }
}

/// Whether a byte is white space in ASCII.
pub open spec fn is_space(b: u8) -> bool {
    b == 32 || b == 9 || b == 10 || b == 12 || b == 13
}

/// Whether a byte is an ASCII letter, a digit or an underscore.
pub open spec fn is_word(b: u8) -> bool {
    (48 <= b <= 57) || (65 <= b <= 90) || (97 <= b <= 122) || b == 95
}

/// How many bytes the character has that begins with the byte `b`.
pub open spec fn char_width(b: u8) -> int {
    if 0xc0 <= b <= 0xdf {
        2
    } else if 0xe0 <= b <= 0xef {
        3
    } else if 0xf0 <= b <= 0xf7 {
        4
    } else {
        1
    }
}

/// The position of the first byte at or after `i` that is no part of a word.
pub open spec fn word_end(bytes: Seq<u8>, i: int) -> int
    decreases bytes.len() - i,
{
    if 0 <= i < bytes.len() && is_word(bytes[i]) {
        word_end(bytes, i + 1)
    } else {
        i
    }
}

/// The end of the token that begins at `i`: of a word, or of a single character.
pub open spec fn token_end(bytes: Seq<u8>, i: int) -> int {
    if is_word(bytes[i]) {
        word_end(bytes, i)
    } else if i + char_width(bytes[i]) < bytes.len() {
        i + char_width(bytes[i])
    } else {
        bytes.len() as int
    }
}

/// The end of a word lies after its start.
pub proof fn lemma_word_end(bytes: Seq<u8>, i: int)
    requires
        0 <= i <= bytes.len(),
    ensures
        i <= word_end(bytes, i) <= bytes.len(),
        i < bytes.len() && is_word(bytes[i]) ==> i < word_end(bytes, i),
        forall|k: int| i <= k < word_end(bytes, i) ==> is_word(#[trigger] bytes[k]),
        word_end(bytes, i) < bytes.len() ==> !is_word(bytes[word_end(bytes, i)]),
    decreases bytes.len() - i,
{
    if i < bytes.len() && is_word(bytes[i]) {
        lemma_word_end(bytes, i + 1);
    }
}

/// The tokens of `src` that begin at or after the byte `i`.
pub open spec fn tokens_from(src: Text, i: int) -> Seq<Tok>
    decreases encode_utf8(src).len() - i,
{
    let bytes = encode_utf8(src);
    if i < 0 || i >= bytes.len() {
        Seq::empty()
    } else if is_space(bytes[i]) {
        tokens_from(src, i + 1)
    } else {
        proof {
            lemma_word_end(bytes, i);
        }
        let end = token_end(bytes, i);
        seq![Tok { text: byte_slice(src, i, end), start: i, end }] + tokens_from(src, end)
    }
}

/// The tokens of `src`.
pub open spec fn tokens_of(src: Text) -> Seq<Tok> {
    tokens_from(src, 0)
}

/// A character boundary is followed by one after the character that begins there.
proof fn lemma_next_boundary(bytes: Seq<u8>, i: int)
    requires
        valid_utf8(bytes),
        0 <= i < bytes.len(),
        is_char_boundary(bytes, i),
    ensures
        i + char_width(bytes[i]) <= bytes.len(),
        is_char_boundary(bytes, i + char_width(bytes[i])),
    decreases bytes.len(),
{
    let n = length_of_first_scalar(bytes);
    let rest = pop_first_scalar(bytes);
    if i == 0 {
        is_char_boundary_start_end_of_seq(rest);
        reveal_with_fuel(is_char_boundary, 2);
    } else {
        is_char_boundary_iff_not_is_continuation_byte(bytes, i);
        assert(i >= n);
        assert(rest[i - n] == bytes[i]);
        is_char_boundary_iff_not_is_continuation_byte(rest, i - n);
        lemma_next_boundary(rest, i - n);
    }
}

fn is_space_byte(b: u8) -> (r: bool)
    ensures
        r == is_space(b),
{
    b == 32 || b == 9 || b == 10 || b == 12 || b == 13
}

fn is_word_byte(b: u8) -> (r: bool)
    ensures
        r == is_word(b),
{
    (48 <= b && b <= 57) || (65 <= b && b <= 90) || (97 <= b && b <= 122) || b == 95
}

fn utf8_char_len(first: u8) -> (r: usize)
    ensures
        r == char_width(first),
{
    if 0xc0 <= first && first <= 0xdf {
        2
    } else if 0xe0 <= first && first <= 0xef {
        3
    } else if 0xf0 <= first && first <= 0xf7 {
        4
    } else {
        1
    }
}

/// The tokens of a text: words, and single characters that are neither part of a word
/// nor white space.
pub fn tokenize(source: &str) -> (tokens: Vec<Token<'_>>)
    ensures
        views(tokens@) == tokens_of(source@),
{
    let bytes = source.as_bytes();
    let n: usize = bytes.len();
    let mut tokens: Vec<Token<'_>> = Vec::new();
    let ghost all = tokens_of(source@);
    assert(views(tokens@) + all =~= all);
    proof {
        encode_utf8_valid_utf8(source@);
        is_char_boundary_start_end_of_seq(encode_utf8(source@));
    }
    let mut i: usize = 0;
    while i < n
        invariant
            i <= n,
            n == bytes@.len(),
            bytes@ == encode_utf8(source@),
            valid_utf8(bytes@),
            is_char_boundary(bytes@, i as int),
            views(tokens@) + tokens_from(source@, i as int) == all,
        decreases n - i,
    {
        let b: u8 = bytes[i];
        if is_space_byte(b) {
            proof {
                lemma_boundary_after_ascii(bytes@, i as int);
            }
            i = i + 1;
        } else {
            let start: usize = i;
            if is_word_byte(b) {
                while i < n && is_word_byte(bytes[i])
                    invariant
                        start <= i <= n,
                        n == bytes@.len(),
                        valid_utf8(bytes@),
                        is_char_boundary(bytes@, i as int),
                        word_end(bytes@, start as int) == word_end(bytes@, i as int),
                    decreases n - i,
                {
                    proof {
                        lemma_boundary_after_ascii(bytes@, i as int);
                    }
                    i = i + 1;
                }
                proof {
                    lemma_word_end(bytes@, start as int);
                }
            } else {
                proof {
                    lemma_next_boundary(bytes@, i as int);
                }
                i = i + utf8_char_len(b);
            }
            let ghost before = views(tokens@);
            tokens.push(Token { text: slice_bytes(source, start, i), start, end: i });
            proof {
                let here = views(tokens@).last();
                let rest = tokens_from(source@, i as int);
                assert(i == token_end(bytes@, start as int));
                assert(before.push(here) + rest =~= before + (seq![here] + rest));
            }
        }
    }
    assert(views(tokens@) + Seq::<Tok>::empty() =~= views(tokens@));
    tokens
}

// ─── Patterns ────────────────────────────────────────────────────────────────
/// One element of a pattern.
#[derive(Debug, PartialEq, Eq)]
pub enum PatternElem {
    /// Any run of tokens.
    Ellipsis,
    /// One token, the same wherever the name stands.
    Metavar(String),
    /// This token.
    Literal(String),
}

/// What a [`PatternElem`] denotes.
pub enum Elem {
    Ellipsis,
    Metavar(Text),
    Literal(Text),
}

impl View for PatternElem {
    type V = Elem;

    open spec fn view(&self) -> Elem {
        match *self {
            PatternElem::Ellipsis => Elem::Ellipsis,
            PatternElem::Metavar(name) => Elem::Metavar(name@),
            PatternElem::Literal(text) => Elem::Literal(text@),
        }
    }
}

impl Clone for PatternElem {
    fn clone(&self) -> (r: Self)
        ensures
            r@ == self@,
    {
        match self {
            PatternElem::Ellipsis => PatternElem::Ellipsis,
            PatternElem::Metavar(name) => PatternElem::Metavar(name.clone()),
            PatternElem::Literal(text) => PatternElem::Literal(text.clone()),
        }
    }
}

/// Whether a character can stand in the name of a metavariable.
pub open spec fn is_name_char(c: char) -> bool {
    ('a' <= c <= 'z') || ('A' <= c <= 'Z') || ('0' <= c <= '9') || c == '_'
}

/// Whether a word can name a metavariable: it begins with a capital letter or an
/// underscore.
pub open spec fn is_name(word: Text) -> bool {
    &&& word.len() > 0
    &&& ('A' <= word[0] <= 'Z') || word[0] == '_'
    &&& forall|k: int| 0 <= k < word.len() ==> is_name_char(#[trigger] word[k])
}

fn is_metavar_name(name: &str) -> (r: bool)
    ensures
        r == is_name(name@),
{
    let a = chars_of(name);
    if a.len() == 0 || !(('A' <= a[0] && a[0] <= 'Z') || a[0] == '_') {
        return false;
    }
    let mut k: usize = 0;
    while k < a.len()
        invariant
            a@ == name@,
            k <= a@.len(),
            forall|j: int| 0 <= j < k ==> is_name_char(#[trigger] a@[j]),
        decreases a.len() - k,
    {
        let c: char = a[k];
        if !(('a' <= c && c <= 'z') || ('A' <= c && c <= 'Z') || ('0' <= c && c <= '9') || c
            == '_') {
            return false;
        }
        k = k + 1;
    }
    true
}

/// The tokens from `from` on as pattern elements: a dollar sign and a name make a
/// metavariable.
pub open spec fn with_metavars(toks: Seq<Tok>, from: int) -> Seq<Elem>
    decreases toks.len() - from,
{
    if from < 0 || from >= toks.len() {
        Seq::empty()
    } else if toks[from].text == "$"@ && from + 1 < toks.len() && is_name(toks[from + 1].text) {
        seq![Elem::Metavar("$"@ + toks[from + 1].text)] + with_metavars(toks, from + 2)
    } else {
        seq![Elem::Literal(toks[from].text)] + with_metavars(toks, from + 1)
    }
}

fn fold_dollars(toks: &Vec<Token<'_>>) -> (out: Vec<PatternElem>)
    ensures
        views(out@) == with_metavars(views(toks@), 0),
{
    let ghost ts = views(toks@);
    let mut out: Vec<PatternElem> = Vec::new();
    let ghost all = with_metavars(ts, 0);
    assert(views(out@) + all =~= all);
    let mut k: usize = 0;
    while k < toks.len()
        invariant
            ts == views(toks@),
            k <= toks@.len(),
            views(out@) + with_metavars(ts, k as int) == all,
        decreases toks.len() - k,
    {
        assert(ts[k as int] == toks@[k as int]@);
        let ghost before = views(out@);
        let mut used: usize = 1;
        if text_eq(toks[k].text, "$") && k + 1 < toks.len() && is_metavar_name(toks[k + 1].text) {
            assert(ts[k + 1] == toks@[k + 1]@);
            out.push(PatternElem::Metavar(concat2("$", toks[k + 1].text)));
            used = 2;
        } else {
            assert(k + 1 < toks@.len() ==> ts[k + 1] == toks@[k + 1]@);
            out.push(PatternElem::Literal(toks[k].text.to_owned()));
        }
        proof {
            let here = views(out@).last();
            let rest = with_metavars(ts, k + used);
            assert(before.push(here) + rest =~= before + (seq![here] + rest));
        }
        k = k + used;
    }
    assert(views(out@) + Seq::<Elem>::empty() =~= views(out@));
    out
}

/// So many literal dots.
pub open spec fn literal_dots(n: int) -> Seq<Elem>
    decreases n,
{
    if n <= 0 {
        Seq::empty()
    } else {
        literal_dots(n - 1).push(Elem::Literal("."@))
    }
}

/// The elements from `from` on, after `dots` dots: three dots in a row make an ellipsis.
pub open spec fn with_ellipses(elems: Seq<Elem>, from: int, dots: int) -> Seq<Elem>
    decreases elems.len() - from,
{
    if from < 0 || from >= elems.len() {
        literal_dots(dots)
    } else if elems[from] == Elem::Literal("."@) {
        if dots + 1 == 3 {
            seq![Elem::Ellipsis] + with_ellipses(elems, from + 1, 0)
        } else {
            with_ellipses(elems, from + 1, dots + 1)
        }
    } else {
        literal_dots(dots) + seq![elems[from]] + with_ellipses(elems, from + 1, 0)
    }
}

fn push_dots(out: &mut Vec<PatternElem>, n: usize)
    ensures
        views(final(out)@) == views(old(out)@) + literal_dots(n as int),
{
    let ghost start = views(out@);
    assert(start + literal_dots(0) =~= start);
    let mut k: usize = 0;
    while k < n
        invariant
            k <= n,
            views(out@) == start + literal_dots(k as int),
        decreases n - k,
    {
        out.push(PatternElem::Literal(".".to_owned()));
        assert((start + literal_dots(k as int)).push(Elem::Literal("."@)) =~= start + literal_dots(
            k + 1,
        ));
        k = k + 1;
    }
}

fn is_dot(e: &PatternElem) -> (r: bool)
    ensures
        r == (e@ == Elem::Literal("."@)),
{
    match e {
        PatternElem::Literal(text) => text_eq(text.as_str(), "."),
        _ => false,
    }
}

fn fold_ellipsis(elems: &Vec<PatternElem>) -> (out: Vec<PatternElem>)
    ensures
        views(out@) == with_ellipses(views(elems@), 0, 0),
{
    let ghost es = views(elems@);
    let mut out: Vec<PatternElem> = Vec::new();
    let ghost all = with_ellipses(es, 0, 0);
    assert(views(out@) + all =~= all);
    let mut dots: usize = 0;
    let mut k: usize = 0;
    while k < elems.len()
        invariant
            es == views(elems@),
            k <= elems@.len(),
            dots < 3,
            views(out@) + with_ellipses(es, k as int, dots as int) == all,
        decreases elems.len() - k,
    {
        assert(es[k as int] == elems@[k as int]@);
        let ghost before = views(out@);
        if is_dot(&elems[k]) {
            if dots == 2 {
                out.push(PatternElem::Ellipsis);
                proof {
                    let rest = with_ellipses(es, k + 1, 0);
                    assert(before.push(Elem::Ellipsis) + rest =~= before + (seq![Elem::Ellipsis]
                        + rest));
                }
                dots = 0;
            } else {
                dots = dots + 1;
            }
        } else {
            push_dots(&mut out, dots);
            out.push(elems[k].clone());
            proof {
                let stray = literal_dots(dots as int);
                let here = es[k as int];
                let rest = with_ellipses(es, k + 1, 0);
                assert((before + stray).push(here) + rest =~= before + (stray + seq![here] + rest));
            }
            dots = 0;
        }
        k = k + 1;
    }
    push_dots(&mut out, dots);
    out
}

/// The elements of a pattern.
pub open spec fn compiled(pattern: Text) -> Seq<Elem> {
    with_ellipses(with_metavars(tokens_of(pattern), 0), 0, 0)
}

/// The elements of a pattern.
pub fn compile_pattern(pattern: &str) -> (r: Vec<PatternElem>)
    ensures
        views(r@) == compiled(pattern@),
{
    let tokens = tokenize(pattern);
    fold_ellipsis(&fold_dollars(&tokens))
}

// ─── Matching ────────────────────────────────────────────────────────────────
/// The position after the last token that the elements from `p` on match, where they are
/// matched from the token `i` on and `binds` holds what the metavariables stand for.
pub open spec fn match_end(
    elems: Seq<Elem>,
    p: int,
    toks: Seq<Tok>,
    i: int,
    binds: Map<Text, Text>,
) -> Option<int>
    decreases elems.len() - p, 0int, 0int,
{
    if p < 0 || p >= elems.len() {
        Some(i)
    } else {
        match elems[p] {
            Elem::Ellipsis => if p + 1 == elems.len() {
                Some(i)
            } else {
                match_later(elems, p + 1, toks, i, binds)
            },
            Elem::Metavar(name) => if !(0 <= i < toks.len()) {
                None
            } else if binds.contains_key(name) && binds[name] != toks[i].text {
                None
            } else {
                match_end(elems, p + 1, toks, i + 1, binds.insert(name, toks[i].text))
            },
            Elem::Literal(text) => if 0 <= i < toks.len() && toks[i].text == text {
                match_end(elems, p + 1, toks, i + 1, binds)
            } else {
                None
            },
        }
    }
}

/// The same, from the first token at or after `i` from which the elements match.
pub open spec fn match_later(
    elems: Seq<Elem>,
    p: int,
    toks: Seq<Tok>,
    i: int,
    binds: Map<Text, Text>,
) -> Option<int>
    decreases elems.len() - p, 1int, toks.len() + 1 - i,
{
    if i > toks.len() {
        None
    } else if match_end(elems, p, toks, i, binds) is Some {
        match_end(elems, p, toks, i, binds)
    } else {
        match_later(elems, p, toks, i + 1, binds)
    }
}

fn match_from(
    elems: &Vec<PatternElem>,
    from: usize,
    tokens: &Vec<Token<'_>>,
    start: usize,
    bindings: TextTable,
) -> (r: Option<usize>)
    requires
        start <= tokens@.len(),
    ensures
        match r {
            Some(e) => match_end(
                views(elems@),
                from as int,
                views(tokens@),
                start as int,
                bindings@,
            ) == Some(e as int) && e <= tokens@.len(),
            None => match_end(
                views(elems@),
                from as int,
                views(tokens@),
                start as int,
                bindings@,
            ) is None,
        },
    decreases elems@.len() - from, 0int,
{
    let ghost es = views(elems@);
    let ghost ts = views(tokens@);
    let mut binds = bindings;
    let mut p: usize = from;
    let mut i: usize = start;
    while p < elems.len()
        invariant
            es == views(elems@),
            ts == views(tokens@),
            from <= p,
            i <= tokens@.len(),
            match_end(es, from as int, ts, start as int, bindings@) == match_end(
                es,
                p as int,
                ts,
                i as int,
                binds@,
            ),
        decreases elems.len() - p,
    {
        assert(es[p as int] == elems@[p as int]@);
        match &elems[p] {
            PatternElem::Ellipsis => {
                if p + 1 == elems.len() {
                    return Some(i);
                }
                return match_rest(elems, p + 1, tokens, i, &binds);
            },
            PatternElem::Metavar(name) => {
                if i >= tokens.len() {
                    return None;
                }
                assert(ts[i as int] == tokens@[i as int]@);
                let text = tokens[i].text;
                let clash = match binds.get(name.as_str()) {
                    Some(known) => !text_eq(known, text),
                    None => false,
                };
                if clash {
                    return None;
                }
                binds.insert(name.as_str(), text);
                i = i + 1;
                p = p + 1;
            },
            PatternElem::Literal(lit) => {
                if i >= tokens.len() {
                    return None;
                }
                assert(ts[i as int] == tokens@[i as int]@);
                if !text_eq(tokens[i].text, lit.as_str()) {
                    return None;
                }
                i = i + 1;
                p = p + 1;
            },
        }
    }
    Some(i)
}

fn match_rest(
    elems: &Vec<PatternElem>,
    from: usize,
    tokens: &Vec<Token<'_>>,
    start: usize,
    bindings: &TextTable,
) -> (r: Option<usize>)
    requires
        start <= tokens@.len(),
        from <= elems@.len(),
    ensures
        match r {
            Some(e) => match_later(
                views(elems@),
                from as int,
                views(tokens@),
                start as int,
                bindings@,
            ) == Some(e as int) && e <= tokens@.len(),
            None => match_later(
                views(elems@),
                from as int,
                views(tokens@),
                start as int,
                bindings@,
            ) is None,
        },
    decreases elems@.len() - from, 1int,
{
    let ghost es = views(elems@);
    let ghost ts = views(tokens@);
    let mut skip: usize = start;
    loop
        invariant
            es == views(elems@),
            ts == views(tokens@),
            from <= elems@.len(),
            skip <= tokens@.len(),
            match_later(es, from as int, ts, start as int, bindings@) == match_later(
                es,
                from as int,
                ts,
                skip as int,
                bindings@,
            ),
        decreases tokens.len() - skip,
    {
        let got = match_from(elems, from, tokens, skip, bindings.clone());
        if got.is_some() {
            return got;
        }
        if skip == tokens.len() {
            assert(match_later(es, from as int, ts, skip + 1, bindings@) is None);
            return None;
        }
        skip = skip + 1;
    }
}

// ─── Matches ─────────────────────────────────────────────────────────────────
/// The byte range of a match.
#[derive(Debug, Clone, Copy)]
pub struct GenericMatch {
    pub start_byte: usize,
    pub end_byte: usize,
}

impl View for GenericMatch {
    type V = (int, int);

    open spec fn view(&self) -> (int, int) {
        (self.start_byte as int, self.end_byte as int)
    }
}

/// Whether the range `a` comes before `b`: by its start, and then by its end.
pub open spec fn before(a: (int, int), b: (int, int)) -> bool {
    a.0 < b.0 || (a.0 == b.0 && a.1 < b.1)
}

/// The sorted ranges `s` with `x` at its place, once.
pub open spec fn with_range(s: Seq<(int, int)>, x: (int, int)) -> Seq<(int, int)>
    decreases s.len(),
{
    if s.len() == 0 || before(s.last(), x) {
        s.push(x)
    } else if s.last() == x {
        s
    } else {
        with_range(s.drop_last(), x).push(s.last())
    }
}

/// The ranges sorted, each once.
pub open spec fn sorted_once(s: Seq<(int, int)>) -> Seq<(int, int)>
    decreases s.len(),
{
    if s.len() == 0 {
        Seq::empty()
    } else {
        with_range(sorted_once(s.drop_last()), s.last())
    }
}

/// Whether the ranges are sorted and no range comes twice.
pub open spec fn is_sorted_once(s: Seq<(int, int)>) -> bool {
    forall|j: int, k: int| #![trigger s[j], s[k]] 0 <= j < k < s.len() ==> before(s[j], s[k])
}

proof fn lemma_with_range(s: Seq<(int, int)>, x: (int, int))
    requires
        is_sorted_once(s),
    ensures
        is_sorted_once(with_range(s, x)),
        forall|y: (int, int)| #[trigger]
            with_range(s, x).contains(y) <==> s.contains(y) || y == x,
        with_range(s, x).len() > 0,
        with_range(s, x).last() == x || s.len() > 0 && with_range(s, x).last() == s.last(),
    decreases s.len(),
{
    let out = with_range(s, x);
    if s.len() == 0 || before(s.last(), x) {
        assert forall|y: (int, int)| #[trigger] out.contains(y) <==> s.contains(y) || y == x by {
            if s.contains(y) {
                let k = choose|k: int| 0 <= k < s.len() && s[k] == y;
                assert(out[k] == y);
            }
            if y == x {
                assert(out[s.len() as int] == y);
            }
        }
    } else if s.last() == x {
        assert(s[s.len() - 1] == x);
    } else {
        let head = s.drop_last();
        let part = with_range(head, x);
        lemma_with_range(head, x);
        assert forall|k: int| #![trigger part[k]] 0 <= k < part.len() implies before(
            part[k],
            s.last(),
        ) by {
            assert(part.contains(part[k]));
            if head.contains(part[k]) {
                let j = choose|j: int| 0 <= j < head.len() && head[j] == part[k];
                assert(s[j] == part[k]);
                assert(s[s.len() - 1] == s.last());
            }
        }
        assert(is_sorted_once(out));
        assert forall|y: (int, int)| #[trigger] out.contains(y) <==> s.contains(y) || y == x by {
            if out.contains(y) {
                let k = choose|k: int| 0 <= k < out.len() && out[k] == y;
                if k < part.len() {
                    assert(part[k] == y);
                    assert(part.contains(y));
                    if head.contains(y) {
                        let j = choose|j: int| 0 <= j < head.len() && head[j] == y;
                        assert(s[j] == y);
                    }
                } else {
                    assert(s[s.len() - 1] == y);
                }
            }
            if s.contains(y) {
                let j = choose|j: int| 0 <= j < s.len() && s[j] == y;
                if j < s.len() - 1 {
                    assert(head[j] == y);
                    assert(part.contains(y));
                    let k = choose|k: int| 0 <= k < part.len() && part[k] == y;
                    assert(out[k] == y);
                } else {
                    assert(out[part.len() as int] == y);
                }
            }
            if y == x {
                assert(part.contains(y));
                let k = choose|k: int| 0 <= k < part.len() && part[k] == y;
                assert(out[k] == y);
            }
        }
    }
}

/// Sorting keeps exactly the ranges that were there, in order and each once.
pub proof fn sorting_keeps_the_ranges(s: Seq<(int, int)>)
    ensures
        is_sorted_once(sorted_once(s)),
        forall|y: (int, int)| #[trigger] sorted_once(s).contains(y) <==> s.contains(y),
    decreases s.len(),
{
    if s.len() > 0 {
        let head = s.drop_last();
        sorting_keeps_the_ranges(head);
        lemma_with_range(sorted_once(head), s.last());
        assert forall|y: (int, int)| #[trigger] sorted_once(s).contains(y) <==> s.contains(y) by {
            if s.contains(y) {
                let j = choose|j: int| 0 <= j < s.len() && s[j] == y;
                if j < s.len() - 1 {
                    assert(head[j] == y);
                    assert(head.contains(y));
                }
            }
            if head.contains(y) {
                let j = choose|j: int| 0 <= j < head.len() && head[j] == y;
                assert(s[j] == y);
            }
            if y == s.last() {
                assert(s[s.len() - 1] == y);
            }
        }
    }
}

fn insert_match(out: &mut Vec<GenericMatch>, m: GenericMatch)
    ensures
        views(final(out)@) == with_range(views(old(out)@), m@),
{
    let ghost all = views(out@);
    let mut k: usize = out.len();
    assert(all.take(k as int) =~= all);
    assert(with_range(all.take(k as int), m@) + all.skip(k as int) =~= with_range(all, m@));
    while k > 0
        invariant
            out@ == old(out)@,
            all == views(out@),
            k <= out@.len(),
            with_range(all.take(k as int), m@) + all.skip(k as int) == with_range(all, m@),
        decreases k,
    {
        let ghost now = all.take(k as int);
        assert(all[k - 1] == out@[k - 1]@);
        assert(now.last() == all[k - 1]);
        let last = out[k - 1];
        if last.start_byte == m.start_byte && last.end_byte == m.end_byte {
            assert(now + all.skip(k as int) =~= all);
            return;
        }
        if last.start_byte < m.start_byte || (last.start_byte == m.start_byte && last.end_byte
            < m.end_byte) {
            assert(views(out@.insert(k as int, m)) =~= now.push(m@) + all.skip(k as int));
            out.insert(k, m);
            return;
        }
        proof {
            assert(now.drop_last() =~= all.take(k - 1));
            let part = with_range(all.take(k - 1), m@);
            assert(part.push(now.last()) + all.skip(k as int) =~= part + all.skip(k - 1));
        }
        k = k - 1;
    }
    assert(views(out@.insert(0, m)) =~= all.take(0).push(m@) + all.skip(0));
    out.insert(0, m);
}

/// The matches sorted, each once.
pub fn dedup(matches_found: &Vec<GenericMatch>) -> (out: Vec<GenericMatch>)
    ensures
        views(out@) == sorted_once(views(matches_found@)),
{
    let ghost all = views(matches_found@);
    let mut out: Vec<GenericMatch> = Vec::new();
    let mut k: usize = 0;
    assert(all.take(0) =~= Seq::empty());
    while k < matches_found.len()
        invariant
            all == views(matches_found@),
            k <= matches_found@.len(),
            views(out@) == sorted_once(all.take(k as int)),
        decreases matches_found.len() - k,
    {
        proof {
            assert(all[k as int] == matches_found@[k as int]@);
            assert(all.take(k + 1).drop_last() =~= all.take(k as int));
            assert(all.take(k + 1).last() == all[k as int]);
        }
        insert_match(&mut out, matches_found[k]);
        k = k + 1;
    }
    assert(all.take(all.len() as int) =~= all);
    out
}

/// The ranges of the matches that begin at the tokens from `from` on. A match holds a
/// token at least.
pub open spec fn ranges_from(elems: Seq<Elem>, toks: Seq<Tok>, from: int) -> Seq<(int, int)>
    decreases toks.len() - from,
{
    if from < 0 || from >= toks.len() {
        Seq::empty()
    } else {
        let rest = ranges_from(elems, toks, from + 1);
        match match_end(elems, 0, toks, from, Map::empty()) {
            Some(end) => if end > from {
                seq![(toks[from].start, toks[end - 1].end)] + rest
            } else {
                rest
            },
            None => rest,
        }
    }
}

/// The ranges that a pattern matches: those of the shortest match from each token.
pub open spec fn pattern_ranges(elems: Seq<Elem>, toks: Seq<Tok>) -> Seq<(int, int)> {
    if elems.len() == 0 {
        Seq::empty()
    } else {
        sorted_once(ranges_from(elems, toks, 0))
    }
}

/// The matches of a token pattern.
pub fn find_pattern(elems: &Vec<PatternElem>, tokens: &Vec<Token<'_>>) -> (r: Vec<GenericMatch>)
    ensures
        views(r@) == pattern_ranges(views(elems@), views(tokens@)),
{
    let mut found: Vec<GenericMatch> = Vec::new();
    if elems.len() == 0 {
        return found;
    }
    let ghost es = views(elems@);
    let ghost ts = views(tokens@);
    let ghost all = ranges_from(es, ts, 0);
    assert(views(found@) + all =~= all);
    let mut start: usize = 0;
    while start < tokens.len()
        invariant
            es == views(elems@),
            ts == views(tokens@),
            start <= tokens@.len(),
            views(found@) + ranges_from(es, ts, start as int) == all,
        decreases tokens.len() - start,
    {
        assert(ts[start as int] == tokens@[start as int]@);
        let ghost so_far = views(found@);
        let ghost rest = ranges_from(es, ts, start + 1);
        match match_from(elems, 0, tokens, start, TextTable::new()) {
            Some(end) => {
                if end > start {
                    assert(ts[end - 1] == tokens@[end - 1]@);
                    found.push(
                        GenericMatch {
                            start_byte: tokens[start].start,
                            end_byte: tokens[end - 1].end,
                        },
                    );
                    proof {
                        let here = views(found@).last();
                        assert(so_far.push(here) + rest =~= so_far + (seq![here] + rest));
                    }
                }
            },
            None => {},
        }
        start = start + 1;
    }
    assert(views(found@) + Seq::<(int, int)>::empty() =~= views(found@));
    dedup(&found)
}

// ─── Matchers ────────────────────────────────────────────────────────────────
/// What a rule looks for.
#[derive(Debug)]
pub enum GenericMatcher {
    /// A token pattern.
    Pattern(Vec<PatternElem>),
    /// A regular expression on the plain text.
    Regex(String),
    /// What any of the matchers finds.
    Either(Vec<GenericMatcher>),
    /// What the first matcher finds, without what overlaps a find of the others.
    Filtered { positive: Box<GenericMatcher>, negatives: Vec<GenericMatcher> },
}

/// Whether two ranges share a byte.
pub open spec fn overlap(a: (int, int), b: (int, int)) -> bool {
    a.0 < b.1 && b.0 < a.1
}

/// Whether the range `x` overlaps one of `others`.
pub open spec fn overlaps_any(x: (int, int), others: Seq<(int, int)>) -> bool {
    exists|k: int| #![trigger others[k]] 0 <= k < others.len() && overlap(x, others[k])
}

/// Those of `s[from..]` that overlap none of `others`.
pub open spec fn apart_from(s: Seq<(int, int)>, from: int, others: Seq<(int, int)>) -> Seq<
    (int, int),
>
    decreases s.len() - from,
{
    if from < 0 || from >= s.len() {
        Seq::empty()
    } else if overlaps_any(s[from], others) {
        apart_from(s, from + 1, others)
    } else {
        seq![s[from]] + apart_from(s, from + 1, others)
    }
}

/// The ranges that a matcher finds in `src`, whose tokens are `toks`.
pub open spec fn ranges_of(m: GenericMatcher, src: Text, toks: Seq<Tok>) -> Seq<(int, int)>
    decreases m, 0int,
{
    match m {
        GenericMatcher::Pattern(elems) => pattern_ranges(views(elems@), toks),
        GenericMatcher::Regex(pattern) => regex_found(pattern@, src),
        GenericMatcher::Either(inner) => sorted_once(all_ranges(inner@, 0, src, toks)),
        GenericMatcher::Filtered { positive, negatives } => apart_from(
            ranges_of(*positive, src, toks),
            0,
            all_ranges(negatives@, 0, src, toks),
        ),
    }
}

/// The ranges that the matchers from `from` on find, one matcher after the other.
pub open spec fn all_ranges(ms: Seq<GenericMatcher>, from: int, src: Text, toks: Seq<Tok>) -> Seq<
    (int, int),
>
    decreases ms, ms.len() - from,
{
    if from < 0 || from >= ms.len() {
        Seq::empty()
    } else {
        ranges_of(ms[from], src, toks) + all_ranges(ms, from + 1, src, toks)
    }
}

fn overlaps(a: &GenericMatch, b: &GenericMatch) -> (r: bool)
    ensures
        r == overlap(a@, b@),
{
    a.start_byte < b.end_byte && b.start_byte < a.end_byte
}

fn overlaps_some(m: &GenericMatch, others: &Vec<GenericMatch>) -> (r: bool)
    ensures
        r == overlaps_any(m@, views(others@)),
{
    let mut k: usize = 0;
    while k < others.len()
        invariant
            k <= others@.len(),
            forall|j: int|
                #![trigger views(others@)[j]]
                0 <= j < k ==> !overlap(m@, views(others@)[j]),
        decreases others.len() - k,
    {
        assert(views(others@)[k as int] == others@[k as int]@);
        if overlaps(m, &others[k]) {
            return true;
        }
        k = k + 1;
    }
    false
}

fn retain_apart(found: &Vec<GenericMatch>, others: &Vec<GenericMatch>) -> (out: Vec<GenericMatch>)
    ensures
        views(out@) == apart_from(views(found@), 0, views(others@)),
{
    let ghost s = views(found@);
    let ghost o = views(others@);
    let mut out: Vec<GenericMatch> = Vec::new();
    let ghost all = apart_from(s, 0, o);
    assert(views(out@) + all =~= all);
    let mut k: usize = 0;
    while k < found.len()
        invariant
            s == views(found@),
            o == views(others@),
            k <= found@.len(),
            views(out@) + apart_from(s, k as int, o) == all,
        decreases found.len() - k,
    {
        assert(s[k as int] == found@[k as int]@);
        if !overlaps_some(&found[k], others) {
            let ghost so_far = views(out@);
            let ghost rest = apart_from(s, k + 1, o);
            out.push(found[k]);
            assert(so_far.push(s[k as int]) + rest =~= so_far + (seq![s[k as int]] + rest));
        }
        k = k + 1;
    }
    assert(views(out@) + Seq::<(int, int)>::empty() =~= views(out@));
    out
}

fn find_regex(pattern: &str, source: &str) -> (out: Vec<GenericMatch>)
    ensures
        views(out@) == regex_found(pattern@, source@),
{
    let spans = find_spans(pattern, source);
    let mut out: Vec<GenericMatch> = Vec::new();
    let mut k: usize = 0;
    while k < spans.len()
        invariant
            k <= spans@.len(),
            views(out@) =~= int_spans(spans@).take(k as int),
        decreases spans.len() - k,
    {
        out.push(GenericMatch { start_byte: spans[k].0, end_byte: spans[k].1 });
        k = k + 1;
    }
    assert(views(out@) =~= int_spans(spans@));
    out
}

impl GenericMatcher {
    /// The ranges that the matcher finds in a text.
    pub fn find_all(&self, source: &str, tokens: &Vec<Token<'_>>) -> (r: Vec<GenericMatch>)
        ensures
            views(r@) == ranges_of(*self, source@, views(tokens@)),
        decreases *self, 0int,
    {
        match self {
            GenericMatcher::Pattern(elems) => find_pattern(elems, tokens),
            GenericMatcher::Regex(pattern) => find_regex(pattern.as_str(), source),
            GenericMatcher::Either(inner) => dedup(&find_each(inner, source, tokens)),
            GenericMatcher::Filtered { positive, negatives } => {
                let found = positive.find_all(source, tokens);
                retain_apart(&found, &find_each(negatives, source, tokens))
            },
        }
    }
}

fn find_each(ms: &Vec<GenericMatcher>, source: &str, tokens: &Vec<Token<'_>>) -> (out: Vec<
    GenericMatch,
>)
    ensures
        views(out@) == all_ranges(ms@, 0, source@, views(tokens@)),
    decreases ms@, ms@.len() + 1,
{
    let ghost ts = views(tokens@);
    let mut out: Vec<GenericMatch> = Vec::new();
    let ghost all = all_ranges(ms@, 0, source@, ts);
    assert(views(out@) + all =~= all);
    let mut k: usize = 0;
    while k < ms.len()
        invariant
            ts == views(tokens@),
            k <= ms@.len(),
            views(out@) + all_ranges(ms@, k as int, source@, ts) == all,
        decreases ms.len() - k,
    {
        let ghost so_far = views(out@);
        let mut found = ms[k].find_all(source, tokens);
        let ghost here = views(found@);
        out.append(&mut found);
        proof {
            let rest = all_ranges(ms@, k + 1, source@, ts);
            assert(so_far + here + rest =~= so_far + (here + rest));
        }
        k = k + 1;
    }
    assert(views(out@) + Seq::<(int, int)>::empty() =~= views(out@));
    out
}

// ─── Rules ───────────────────────────────────────────────────────────────────
/// The files that a rule is for, by patterns on their paths.
#[derive(Debug)]
pub struct PathFilter {
    pub include_globs: Vec<String>,
    pub exclude_globs: Vec<String>,
}

/// A rule that looks for patterns in plain text.
pub struct GenericRule {
    pub id: String,
    pub message: String,
    pub severity: Severity,
    pub lang: Language,
    pub cwe: Option<String>,
    pub matcher: Arc<GenericMatcher>,
    pub path_filter: Option<Arc<PathFilter>>,
}

/// The line of the byte `at`, and its column in bytes, both counted from one. An offset
/// past the end counts as the end.
pub open spec fn position_of(src: Text, at: int) -> (int, int) {
    let p = clamp(at, encode_utf8(src).len() as int);
    (line_of(src, p), p - line_start(src, p) + 1)
}

/// The line of a byte, and its column in bytes, both counted from one.
pub fn byte_offset_to_position(source: &str, byte_offset: usize) -> (r: (usize, usize))
    requires
        encode_utf8(source@).len() < usize::MAX,
    ensures
        (r.0 as int, r.1 as int) == position_of(source@, byte_offset as int),
{
    let n: usize = source.as_bytes().len();
    let at: usize = if byte_offset < n {
        byte_offset
    } else {
        n
    };
    let start: usize = line_start_of(source, at);
    (line_number(source, at), at - start + 1)
}

impl GenericRule {
    /// The report on one range.
    pub open spec fn report(&self, src: Text, range: (int, int)) -> Report {
        let start = position_of(src, range.0);
        let end = position_of(src, range.1);
        Report {
            confidence: 70,
            ..plain_report(
                self.id@,
                self.severity,
                opt_view(self.cwe),
                self.message@,
                start.0,
                start.1,
                end.0,
                end.1,
                source_line_spec(src, range.0),
            )
        }
    }

    /// The reports on the ranges from `from` on.
    pub open spec fn reports(&self, src: Text, ranges: Seq<(int, int)>, from: int) -> Seq<Report>
        decreases ranges.len() - from,
    {
        if from < 0 || from >= ranges.len() {
            Seq::empty()
        } else {
            seq![self.report(src, ranges[from])] + self.reports(src, ranges, from + 1)
        }
    }

    /// The rule's id.
    pub fn id(&self) -> (r: &str)
        ensures
            r@ == self.id@,
    {
        self.id.as_str()
    }

    pub fn severity(&self) -> (r: Severity)
        ensures
            r == self.severity,
    {
        self.severity
    }

    pub fn cwe(&self) -> (r: Option<&str>)
        ensures
            opt_view(r) == opt_view(self.cwe),
    {
        match &self.cwe {
            Some(s) => Some(s.as_str()),
            None => None,
        }
    }

    pub fn description(&self) -> (r: &str)
        ensures
            r@ == self.message@,
    {
        self.message.as_str()
    }

    pub fn language(&self) -> (r: Language)
        ensures
            r == self.lang,
    {
        self.lang
    }

    /// Whether the rule is for a file, going by whether its path filter lets the file's
    /// path through. A rule without a filter is for every file.
    pub fn applies_to_path(&self, accepted: bool) -> (r: bool)
        ensures
            r == (self.path_filter is None || accepted),
    {
        self.path_filter.is_none() || accepted
    }

    fn finding(&self, source: &str, m: GenericMatch) -> (r: Finding)
        requires
            encode_utf8(source@).len() < usize::MAX,
        ensures
            r@ == self.report(source@, m@),
    {
        let start = byte_offset_to_position(source, m.start_byte);
        let end = byte_offset_to_position(source, m.end_byte);
        let mut f = plain_finding(
            self.id.as_str(),
            self.severity,
            self.cwe(),
            self.message.as_str(),
            start.0,
            start.1,
            end.0,
            end.1,
            get_source_line(source, m.start_byte),
        );
        f.confidence = 70;
        f
    }

    /// What the rule finds in a text, in order and each once.
    pub fn check(&self, source: &str) -> (out: Vec<Finding>)
        requires
            encode_utf8(source@).len() < usize::MAX,
        ensures
            views(out@) == self.reports(
                source@,
                sorted_once(ranges_of(*self.matcher, source@, tokens_of(source@))),
                0,
            ),
    {
        let tokens = tokenize(source);
        let found = dedup(&self.matcher.find_all(source, &tokens));
        let ghost ranges = views(found@);
        let mut out: Vec<Finding> = Vec::new();
        let ghost all = self.reports(source@, ranges, 0);
        assert(views(out@) + all =~= all);
        let mut k: usize = 0;
        while k < found.len()
            invariant
                encode_utf8(source@).len() < usize::MAX,
                ranges == views(found@),
                k <= found@.len(),
                views(out@) + self.reports(source@, ranges, k as int) == all,
            decreases found.len() - k,
        {
            assert(ranges[k as int] == found@[k as int]@);
            let ghost so_far = views(out@);
            let f = self.finding(source, found[k]);
            out.push(f);
            proof {
                let rest = self.reports(source@, ranges, k + 1);
                assert(so_far.push(f@) + rest =~= so_far + (seq![f@] + rest));
            }
            k = k + 1;
        }
        assert(views(out@) + Seq::<Report>::empty() =~= views(out@));
        out
    }
}

/// What a rule is built from.
pub struct GenericRuleSpec<'a> {
    pub id: &'a str,
    pub message: &'a str,
    pub severity: Severity,
    pub cwe: Option<String>,
    pub pattern: Option<&'a str>,
    pub pattern_regex: Option<&'a str>,
    pub pattern_either: Vec<String>,
    pub pattern_not: Option<&'a str>,
    pub path_filter: Option<PathFilter>,
}

/// Whether the matcher looks for the token pattern.
pub open spec fn looks_for(m: GenericMatcher, pattern: Text) -> bool {
    m matches GenericMatcher::Pattern(elems) && views(elems@) == compiled(pattern)
}

/// Whether the matcher looks for any of the token patterns, in order.
pub open spec fn looks_for_each(ms: Seq<GenericMatcher>, patterns: Seq<Text>) -> bool {
    &&& ms.len() == patterns.len()
    &&& forall|k: int| #![trigger ms[k]] 0 <= k < ms.len() ==> looks_for(ms[k], patterns[k])
}

/// Whether the matcher looks for the first of these that is given: the pattern, the
/// regular expression, any of the patterns.
pub open spec fn finds(
    m: GenericMatcher,
    pattern: Option<Text>,
    regex: Option<Text>,
    either: Seq<Text>,
) -> bool {
    match pattern {
        Some(p) => looks_for(m, p),
        None => match regex {
            Some(re) => m matches GenericMatcher::Regex(x) && x@ == re,
            None => m matches GenericMatcher::Either(ms) && looks_for_each(ms@, either),
        },
    }
}

/// Whether the matcher is the one that is asked for: what is to be found, without what
/// overlaps the pattern that is not.
pub open spec fn is_built(
    m: GenericMatcher,
    pattern: Option<Text>,
    regex: Option<Text>,
    either: Seq<Text>,
    not: Option<Text>,
) -> bool {
    match not {
        Some(n) => m matches GenericMatcher::Filtered { positive, negatives } && finds(
            *positive,
            pattern,
            regex,
            either,
        ) && looks_for_each(negatives@, seq![n]),
        None => finds(m, pattern, regex, either),
    }
}

/// Why no matcher can be built.
pub open spec fn build_error(
    pattern: Option<Text>,
    regex: Option<Text>,
    either: Seq<Text>,
) -> Option<Text> {
    match (pattern, regex) {
        (Some(_), _) => None,
        (None, Some(re)) => match regex_error(re) {
            Some(e) => Some(invalid_regex(re, e)),
            None => None,
        },
        (None, None) => if either.len() == 0 {
            Some("generic rule has no pattern / pattern-regex / pattern-either"@)
        } else {
            None
        },
    }
}

fn build_each(patterns: &Vec<String>) -> (out: Vec<GenericMatcher>)
    ensures
        looks_for_each(out@, views(patterns@)),
{
    let mut out: Vec<GenericMatcher> = Vec::new();
    let mut k: usize = 0;
    while k < patterns.len()
        invariant
            k <= patterns@.len(),
            out@.len() == k,
            forall|j: int|
                #![trigger out@[j]]
                0 <= j < k ==> looks_for(out@[j], views(patterns@)[j]),
        decreases patterns.len() - k,
    {
        assert(views(patterns@)[k as int] == patterns@[k as int]@);
        out.push(GenericMatcher::Pattern(compile_pattern(patterns[k].as_str())));
        k = k + 1;
    }
    out
}

/// The matcher of a rule.
pub fn build_matcher(
    pattern: Option<&str>,
    pattern_regex: Option<&str>,
    pattern_either: &Vec<String>,
    pattern_not: Option<&str>,
) -> (r: Result<GenericMatcher, String>)
    ensures
        match r {
            Ok(m) => build_error(
                opt_view(pattern),
                opt_view(pattern_regex),
                views(pattern_either@),
            ) is None && is_built(
                m,
                opt_view(pattern),
                opt_view(pattern_regex),
                views(pattern_either@),
                opt_view(pattern_not),
            ),
            Err(e) => build_error(
                opt_view(pattern),
                opt_view(pattern_regex),
                views(pattern_either@),
            ) == Some(e@),
        },
{
    let positive = match (pattern, pattern_regex) {
        (Some(p), _) => GenericMatcher::Pattern(compile_pattern(p)),
        (None, Some(re)) => match compile_regex(re) {
            Ok(x) => GenericMatcher::Regex(x),
            Err(e) => {
                return Err(e);
            },
        },
        (None, None) => {
            if pattern_either.len() == 0 {
                return Err(
                    "generic rule has no pattern / pattern-regex / pattern-either".to_owned(),
                );
            }
            GenericMatcher::Either(build_each(pattern_either))
        },
    };
    match pattern_not {
        Some(n) => {
            let mut negatives: Vec<GenericMatcher> = Vec::new();
            negatives.push(GenericMatcher::Pattern(compile_pattern(n)));
            Ok(GenericMatcher::Filtered { positive: Box::new(positive), negatives })
        },
        None => Ok(positive),
    }
}

/// Every language and file format that a scan hands to a rule.
pub const ALL_LANGUAGES: [Language; 18] = [
    Language::JavaScript,
    Language::Python,
    Language::Go,
    Language::Ruby,
    Language::Java,
    Language::Php,
    Language::Rust,
    Language::CSharp,
    Language::Swift,
    Language::Kotlin,
    Language::C,
    Language::NginxConf,
    Language::ApacheConf,
    Language::HAProxyConf,
    Language::Dockerfile,
    Language::Manifest,
    Language::Bash,
    Language::Apex,
];

/// Calls `Arc::clone`. Claims that the copy points to the same value.
#[verifier::external_body]
fn share<T>(a: &Arc<T>) -> (r: Arc<T>)
    ensures
        r == *a,
{
    Arc::clone(a)
}

/// Whether the rule is the one for the language that the spec asks for.
pub open spec fn is_rule_for(r: GenericRule, lang: Language, spec: GenericRuleSpec<'_>) -> bool {
    &&& r.id@ == "semgrep/"@ + spec.id@
    &&& r.message@ == spec.message@
    &&& r.severity == spec.severity
    &&& r.lang == lang
    &&& opt_view(r.cwe) == opt_view(spec.cwe)
    &&& is_built(
        *r.matcher,
        opt_view(spec.pattern),
        opt_view(spec.pattern_regex),
        views(spec.pattern_either@),
        opt_view(spec.pattern_not),
    )
    &&& match (r.path_filter, spec.path_filter) {
        (Some(a), Some(b)) => *a == b,
        (None, None) => true,
        _ => false,
    }
}

/// One rule for each language, all with the same matcher.
pub fn build_generic_rules(spec: GenericRuleSpec<'_>) -> (r: Result<Vec<GenericRule>, String>)
    ensures
        match r {
            Ok(rules) => {
                &&& build_error(
                    opt_view(spec.pattern),
                    opt_view(spec.pattern_regex),
                    views(spec.pattern_either@),
                ) is None
                &&& rules@.len() == ALL_LANGUAGES@.len()
                &&& forall|k: int|
                    #![trigger rules@[k]]
                    0 <= k < rules@.len() ==> is_rule_for(rules@[k], ALL_LANGUAGES@[k], spec)
            },
            Err(e) => build_error(
                opt_view(spec.pattern),
                opt_view(spec.pattern_regex),
                views(spec.pattern_either@),
            ) == Some(e@),
        },
{
    let matcher = match build_matcher(
        spec.pattern,
        spec.pattern_regex,
        &spec.pattern_either,
        spec.pattern_not,
    ) {
        Ok(m) => Arc::new(m),
        Err(e) => {
            return Err(e);
        },
    };
    let filter = match spec.path_filter {
        Some(f) => Some(Arc::new(f)),
        None => None,
    };
    let mut rules: Vec<GenericRule> = Vec::new();
    let mut k: usize = 0;
    while k < ALL_LANGUAGES.len()
        invariant
            k <= ALL_LANGUAGES@.len(),
            rules@.len() == k,
            is_built(
                *matcher,
                opt_view(spec.pattern),
                opt_view(spec.pattern_regex),
                views(spec.pattern_either@),
                opt_view(spec.pattern_not),
            ),
            match (filter, spec.path_filter) {
                (Some(a), Some(b)) => *a == b,
                (None, None) => true,
                _ => false,
            },
            forall|j: int|
                #![trigger rules@[j]]
                0 <= j < k ==> is_rule_for(rules@[j], ALL_LANGUAGES@[j], spec),
        decreases ALL_LANGUAGES.len() - k,
    {
        rules.push(
            GenericRule {
                id: concat2("semgrep/", spec.id),
                message: spec.message.to_owned(),
                severity: spec.severity,
                lang: ALL_LANGUAGES[k],
                cwe: match &spec.cwe {
                    Some(c) => Some(c.clone()),
                    None => None,
                },
                matcher: share(&matcher),
                path_filter: match &filter {
                    Some(f) => Some(share(f)),
                    None => None,
                },
            },
        );
        k = k + 1;
    }
    Ok(rules)
}

// ─── What holds of matching ──────────────────────────────────────────────────
proof fn lemma_tokens_from(src: Text, i: int)
    requires
        0 <= i <= encode_utf8(src).len(),
    ensures
        forall|k: int|
            #![trigger tokens_from(src, i)[k]]
            0 <= k < tokens_from(src, i).len() ==> i <= tokens_from(src, i)[k].start < tokens_from(
                src,
                i,
            )[k].end <= encode_utf8(src).len(),
        forall|j: int, k: int|
            #![trigger tokens_from(src, i)[j], tokens_from(src, i)[k]]
            0 <= j < k < tokens_from(src, i).len() ==> tokens_from(src, i)[j].end <= tokens_from(
                src,
                i,
            )[k].start,
        forall|p: int|
            #![trigger encode_utf8(src)[p]]
            i <= p < encode_utf8(src).len() && !is_space(encode_utf8(src)[p]) ==> in_token(
                tokens_from(src, i),
                p,
            ),
    decreases encode_utf8(src).len() - i,
{
    let bytes = encode_utf8(src);
    let toks = tokens_from(src, i);
    if i < bytes.len() {
        if is_space(bytes[i]) {
            lemma_tokens_from(src, i + 1);
        } else {
            lemma_word_end(bytes, i);
            let end = token_end(bytes, i);
            let rest = tokens_from(src, end);
            lemma_tokens_from(src, end);
            assert(toks =~= seq![toks[0]] + rest);
            assert forall|k: int| #![trigger toks[k]] 0 <= k < toks.len() implies i <= toks[k].start
                < toks[k].end <= bytes.len() by {
                if k > 0 {
                    assert(toks[k] == rest[k - 1]);
                }
            }
            assert forall|j: int, k: int|
                #![trigger toks[j], toks[k]]
                0 <= j < k < toks.len() implies toks[j].end <= toks[k].start by {
                assert(toks[k] == rest[k - 1]);
                if j > 0 {
                    assert(toks[j] == rest[j - 1]);
                }
            }
            assert forall|p: int|
                #![trigger bytes[p]]
                i <= p < bytes.len() && !is_space(bytes[p]) implies in_token(toks, p) by {
                if p < end {
                    assert(toks[0].start <= p < toks[0].end);
                } else {
                    assert(in_token(rest, p));
                    let k = choose|k: int|
                        #![trigger rest[k]]
                        0 <= k < rest.len() && rest[k].start <= p < rest[k].end;
                    assert(toks[k + 1] == rest[k]);
                }
            }
        }
    }
}

/// Whether the byte `p` lies in one of the tokens.
pub open spec fn in_token(toks: Seq<Tok>, p: int) -> bool {
    exists|k: int| #![trigger toks[k]] 0 <= k < toks.len() && toks[k].start <= p < toks[k].end
}

/// Tokens are not empty, come in order, do not overlap, and leave out nothing but white
/// space.
pub proof fn tokens_leave_out_only_space(src: Text)
    ensures
        forall|k: int|
            #![trigger tokens_of(src)[k]]
            0 <= k < tokens_of(src).len() ==> 0 <= tokens_of(src)[k].start < tokens_of(src)[k].end
                <= encode_utf8(src).len(),
        forall|j: int, k: int|
            #![trigger tokens_of(src)[j], tokens_of(src)[k]]
            0 <= j < k < tokens_of(src).len() ==> tokens_of(src)[j].end <= tokens_of(src)[k].start,
        forall|p: int|
            #![trigger encode_utf8(src)[p]]
            0 <= p < encode_utf8(src).len() && !is_space(encode_utf8(src)[p]) ==> in_token(
                tokens_of(src),
                p,
            ),
{
    lemma_tokens_from(src, 0);
}

/// Whether the element stands for the tokens from `a` to before `b`, where the
/// metavariables stand for `binds`.
pub open spec fn fits(e: Elem, toks: Seq<Tok>, a: int, b: int, binds: Map<Text, Text>) -> bool {
    &&& 0 <= a <= b <= toks.len()
    &&& match e {
        Elem::Ellipsis => true,
        Elem::Metavar(name) => b == a + 1 && binds.contains_key(name) && binds[name]
            == toks[a].text,
        Elem::Literal(text) => b == a + 1 && toks[a].text == text,
    }
}

/// Whether each element `elems[k]` stands for the tokens from `at[k]` to before `at[k + 1]`,
/// and every metavariable for one text.
pub open spec fn fit(elems: Seq<Elem>, toks: Seq<Tok>, at: Seq<int>, binds: Map<Text, Text>) -> bool {
    &&& at.len() == elems.len() + 1
    &&& forall|k: int|
        #![trigger elems[k]]
        0 <= k < elems.len() ==> fits(elems[k], toks, at[k], at[k + 1], binds)
}

/// Whether `big` holds everything that `small` holds.
pub open spec fn extends(big: Map<Text, Text>, small: Map<Text, Text>) -> bool {
    forall|x: Text| #[trigger]
        small.contains_key(x) ==> big.contains_key(x) && big[x] == small[x]
}

proof fn lemma_match_later(
    elems: Seq<Elem>,
    p: int,
    toks: Seq<Tok>,
    i: int,
    binds: Map<Text, Text>,
) -> (j: int)
    requires
        match_later(elems, p, toks, i, binds) is Some,
    ensures
        i <= j <= toks.len(),
        match_end(elems, p, toks, j, binds) == match_later(elems, p, toks, i, binds),
    decreases toks.len() + 1 - i,
{
    if match_end(elems, p, toks, i, binds) is Some {
        i
    } else {
        lemma_match_later(elems, p, toks, i + 1, binds)
    }
}

proof fn lemma_match_fits(
    elems: Seq<Elem>,
    p: int,
    toks: Seq<Tok>,
    i: int,
    binds: Map<Text, Text>,
) -> (r: (Seq<int>, Map<Text, Text>))
    requires
        0 <= p <= elems.len(),
        0 <= i <= toks.len(),
        match_end(elems, p, toks, i, binds) is Some,
    ensures
        fit(elems.skip(p), toks, r.0, r.1),
        r.0[0] == i,
        match_end(elems, p, toks, i, binds) == Some(r.0.last()),
        extends(r.1, binds),
    decreases elems.len() - p,
{
    if p == elems.len() {
        (seq![i], binds)
    } else {
        let rest = elems.skip(p + 1);
        assert(elems.skip(p) =~= seq![elems[p]] + rest);
        let (at, b) = match elems[p] {
            Elem::Ellipsis => {
                if p + 1 == elems.len() {
                    (seq![i], binds)
                } else {
                    let j = lemma_match_later(elems, p + 1, toks, i, binds);
                    lemma_match_fits(elems, p + 1, toks, j, binds)
                }
            },
            Elem::Metavar(name) => lemma_match_fits(
                elems,
                p + 1,
                toks,
                i + 1,
                binds.insert(name, toks[i].text),
            ),
            Elem::Literal(_) => lemma_match_fits(elems, p + 1, toks, i + 1, binds),
        };
        let all = seq![i] + at;
        assert(all[1] == at[0]);
        assert(extends(b, binds)) by {
            assert forall|x: Text| #[trigger] binds.contains_key(x) implies b.contains_key(x) && b[x]
                == binds[x] by {
                match elems[p] {
                    Elem::Metavar(name) => {
                        assert(binds.insert(name, toks[i].text).contains_key(x));
                    },
                    _ => {},
                }
            }
        }
        match elems[p] {
            Elem::Metavar(name) => {
                assert(binds.insert(name, toks[i].text).contains_key(name));
            },
            _ => {},
        }
        assert(fits(elems[p], toks, i, at[0], b)) by {
            if rest.len() > 0 {
                assert(fits(rest[0], toks, at[0], at[1], b));
            }
        }
        assert forall|k: int| #![trigger elems.skip(p)[k]] 0 <= k < elems.skip(p).len() implies fits(
            elems.skip(p)[k],
            toks,
            all[k],
            all[k + 1],
            b,
        ) by {
            if k > 0 {
                assert(rest[k - 1] == elems.skip(p)[k]);
                assert(all[k] == at[k - 1] && all[k + 1] == at[k]);
            }
        }
        assert(all.last() == at.last());
        (all, b)
    }
}

proof fn lemma_later_from(
    elems: Seq<Elem>,
    p: int,
    toks: Seq<Tok>,
    i: int,
    j: int,
    binds: Map<Text, Text>,
)
    requires
        i <= j <= toks.len(),
        match_end(elems, p, toks, j, binds) is Some,
    ensures
        match_later(elems, p, toks, i, binds) is Some,
    decreases j - i,
{
    if i < j && match_end(elems, p, toks, i, binds) is None {
        lemma_later_from(elems, p, toks, i + 1, j, binds);
    }
}

proof fn lemma_fit_matches(
    elems: Seq<Elem>,
    p: int,
    toks: Seq<Tok>,
    at: Seq<int>,
    all: Map<Text, Text>,
    binds: Map<Text, Text>,
)
    requires
        0 <= p <= elems.len(),
        fit(elems.skip(p), toks, at, all),
        extends(all, binds),
    ensures
        match_end(elems, p, toks, at[0], binds) is Some,
    decreases elems.len() - p,
{
    if p < elems.len() {
        let rest = elems.skip(p + 1);
        let tail = at.skip(1);
        assert(elems.skip(p)[0] == elems[p]);
        assert(fits(elems[p], toks, at[0], at[1], all));
        assert forall|k: int| #![trigger rest[k]] 0 <= k < rest.len() implies fits(
            rest[k],
            toks,
            tail[k],
            tail[k + 1],
            all,
        ) by {
            assert(elems.skip(p)[k + 1] == rest[k]);
        }
        assert(tail[0] == at[1]);
        match elems[p] {
            Elem::Ellipsis => {
                if p + 1 < elems.len() {
                    lemma_fit_matches(elems, p + 1, toks, tail, all, binds);
                    lemma_later_from(elems, p + 1, toks, at[0], at[1], binds);
                }
            },
            Elem::Metavar(name) => {
                let more = binds.insert(name, toks[at[0]].text);
                assert(binds.contains_key(name) ==> binds[name] == all[name]);
                assert(extends(all, more));
                lemma_fit_matches(elems, p + 1, toks, tail, all, more);
            },
            Elem::Literal(_) => {
                lemma_fit_matches(elems, p + 1, toks, tail, all, binds);
            },
        }
    }
}

/// A pattern matches from a token on exactly where its elements can be laid on the tokens:
/// every literal on its text, every ellipsis on a run, and every metavariable on the same
/// text wherever it stands.
pub proof fn a_match_is_a_fit(elems: Seq<Elem>, toks: Seq<Tok>, i: int)
    requires
        0 <= i <= toks.len(),
    ensures
        match_end(elems, 0, toks, i, Map::empty()) is Some <==> exists|
            at: Seq<int>,
            binds: Map<Text, Text>,
        | #[trigger]
            fit(elems, toks, at, binds) && at[0] == i,
        match_end(elems, 0, toks, i, Map::empty()) matches Some(end) ==> exists|
            at: Seq<int>,
            binds: Map<Text, Text>,
        | #[trigger]
            fit(elems, toks, at, binds) && at[0] == i && at.last() == end,
{
    assert(elems.skip(0) =~= elems);
    if match_end(elems, 0, toks, i, Map::empty()) is Some {
        let (at, binds) = lemma_match_fits(elems, 0, toks, i, Map::empty());
        assert(fit(elems, toks, at, binds));
    }
    if exists|at: Seq<int>, binds: Map<Text, Text>| #[trigger]
        fit(elems, toks, at, binds) && at[0] == i {
        let (at, binds) = choose|at: Seq<int>, binds: Map<Text, Text>| #[trigger]
            fit(elems, toks, at, binds) && at[0] == i;
        lemma_fit_matches(elems, 0, toks, at, binds, Map::empty());
    }
}

/// Two elements that are the same metavariable stand for tokens with the same text.
pub proof fn a_metavariable_stands_for_one_text(
    elems: Seq<Elem>,
    toks: Seq<Tok>,
    at: Seq<int>,
    binds: Map<Text, Text>,
    j: int,
    k: int,
)
    requires
        fit(elems, toks, at, binds),
        0 <= j < elems.len(),
        0 <= k < elems.len(),
        elems[j] is Metavar,
        elems[j] == elems[k],
    ensures
        toks[at[j]].text == toks[at[k]].text,
{
    assert(fits(elems[j], toks, at[j], at[j + 1], binds));
    assert(fits(elems[k], toks, at[k], at[k + 1], binds));
}

/// Whether `x` is the range of the match of a pattern from the token `i` on. A match holds a
/// token at least.
pub open spec fn is_match_at(elems: Seq<Elem>, toks: Seq<Tok>, i: int, x: (int, int)) -> bool {
    0 <= i < toks.len() && match match_end(elems, 0, toks, i, Map::empty()) {
        Some(end) => end > i && x == (toks[i].start, toks[end - 1].end),
        None => false,
    }
}

proof fn lemma_ranges_from(elems: Seq<Elem>, toks: Seq<Tok>, from: int)
    requires
        0 <= from <= toks.len(),
    ensures
        forall|x: (int, int)| #[trigger]
            ranges_from(elems, toks, from).contains(x) <==> exists|i: int|
                from <= i && #[trigger] is_match_at(elems, toks, i, x),
    decreases toks.len() - from,
{
    let all = ranges_from(elems, toks, from);
    if from < toks.len() {
        let rest = ranges_from(elems, toks, from + 1);
        lemma_ranges_from(elems, toks, from + 1);
        assert forall|x: (int, int)| #[trigger] all.contains(x) <==> exists|i: int|
            from <= i && #[trigger] is_match_at(elems, toks, i, x) by {
            if all.contains(x) {
                let k = choose|k: int| 0 <= k < all.len() && all[k] == x;
                if all.len() == rest.len() {
                    assert(rest.contains(x));
                } else if k == 0 {
                    assert(is_match_at(elems, toks, from, x));
                } else {
                    assert(rest[k - 1] == x);
                    assert(rest.contains(x));
                }
            }
            if exists|i: int| from <= i && #[trigger] is_match_at(elems, toks, i, x) {
                let i = choose|i: int| from <= i && #[trigger] is_match_at(elems, toks, i, x);
                if i == from {
                    assert(all[0] == x);
                } else {
                    assert(from + 1 <= i && is_match_at(elems, toks, i, x));
                    assert(rest.contains(x));
                    let k = choose|k: int| 0 <= k < rest.len() && rest[k] == x;
                    assert(all[k + (all.len() - rest.len())] == x);
                }
            }
        }
    }
}

/// A pattern finds in a text exactly the ranges of its matches from some token on. Each
/// begins after the one before it, and an empty pattern finds nothing.
pub proof fn a_search_finds_the_matches(elems: Seq<Elem>, src: Text)
    ensures
        forall|x: (int, int)| #[trigger]
            pattern_ranges(elems, tokens_of(src)).contains(x) <==> exists|i: int| #[trigger]
                is_match_at(elems, tokens_of(src), i, x),
        forall|j: int, k: int|
            #![trigger pattern_ranges(elems, tokens_of(src))[j], pattern_ranges(
                elems,
                tokens_of(src),
            )[k]]
            0 <= j < k < pattern_ranges(elems, tokens_of(src)).len() ==> pattern_ranges(
                elems,
                tokens_of(src),
            )[j].0 < pattern_ranges(elems, tokens_of(src))[k].0,
        elems.len() == 0 ==> pattern_ranges(elems, tokens_of(src)).len() == 0,
{
    let toks = tokens_of(src);
    let found = ranges_from(elems, toks, 0);
    let out = pattern_ranges(elems, toks);
    tokens_leave_out_only_space(src);
    lemma_ranges_from(elems, toks, 0);
    sorting_keeps_the_ranges(found);
    assert forall|x: (int, int)| #[trigger] out.contains(x) <==> exists|i: int| #[trigger]
        is_match_at(elems, toks, i, x) by {
        if elems.len() > 0 {
            assert(out.contains(x) <==> found.contains(x));
            if exists|i: int| #[trigger] is_match_at(elems, toks, i, x) {
                let i = choose|i: int| #[trigger] is_match_at(elems, toks, i, x);
                assert(0 <= i && is_match_at(elems, toks, i, x));
                assert(found.contains(x));
            }
        }
    }
    assert forall|j: int, k: int| #![trigger out[j], out[k]] 0 <= j < k < out.len() implies out[j].0
        < out[k].0 by {
        assert(before(out[j], out[k]));
        assert(out.contains(out[j]) && out.contains(out[k]));
        let a = choose|i: int| #[trigger] is_match_at(elems, toks, i, out[j]);
        let b = choose|i: int| #[trigger] is_match_at(elems, toks, i, out[k]);
        if a < b {
            assert(toks[a].end <= toks[b].start);
        } else if b < a {
            assert(toks[b].end <= toks[a].start);
        }
    }
}

proof fn lemma_trailing_ellipsis(
    elems: Seq<Elem>,
    p: int,
    toks: Seq<Tok>,
    i: int,
    binds: Map<Text, Text>,
)
    requires
        0 <= p <= elems.len(),
        0 <= i <= toks.len(),
    ensures
        match_end(elems.push(Elem::Ellipsis), p, toks, i, binds) == match_end(
            elems,
            p,
            toks,
            i,
            binds,
        ),
    decreases elems.len() - p, 0int, 0int,
{
    let more = elems.push(Elem::Ellipsis);
    if p < elems.len() {
        assert(more[p] == elems[p]);
        match elems[p] {
            Elem::Ellipsis => {
                if p + 1 < elems.len() {
                    lemma_trailing_ellipsis_later(elems, p + 1, toks, i, binds);
                } else {
                    assert(match_end(more, p + 1, toks, i, binds) == Some(i));
                }
            },
            Elem::Metavar(name) => {
                if i < toks.len() {
                    lemma_trailing_ellipsis(
                        elems,
                        p + 1,
                        toks,
                        i + 1,
                        binds.insert(name, toks[i].text),
                    );
                }
            },
            Elem::Literal(_) => {
                if i < toks.len() {
                    lemma_trailing_ellipsis(elems, p + 1, toks, i + 1, binds);
                }
            },
        }
    }
}

proof fn lemma_trailing_ellipsis_later(
    elems: Seq<Elem>,
    p: int,
    toks: Seq<Tok>,
    i: int,
    binds: Map<Text, Text>,
)
    requires
        0 <= p <= elems.len(),
        0 <= i <= toks.len() + 1,
    ensures
        match_later(elems.push(Elem::Ellipsis), p, toks, i, binds) == match_later(
            elems,
            p,
            toks,
            i,
            binds,
        ),
    decreases elems.len() - p, 1int, toks.len() + 1 - i,
{
    if i <= toks.len() {
        lemma_trailing_ellipsis(elems, p, toks, i, binds);
        lemma_trailing_ellipsis_later(elems, p, toks, i + 1, binds);
    }
}

proof fn lemma_trailing_ellipsis_ranges(elems: Seq<Elem>, toks: Seq<Tok>, from: int)
    requires
        0 <= from,
    ensures
        ranges_from(elems.push(Elem::Ellipsis), toks, from) == ranges_from(elems, toks, from),
    decreases toks.len() - from,
{
    if from < toks.len() {
        lemma_trailing_ellipsis(elems, 0, toks, from, Map::empty());
        lemma_trailing_ellipsis_ranges(elems, toks, from + 1);
    }
}

proof fn lemma_empty_pattern(elems: Seq<Elem>, toks: Seq<Tok>, from: int)
    requires
        elems.len() == 0,
    ensures
        ranges_from(elems, toks, from) == Seq::<(int, int)>::empty(),
    decreases toks.len() - from,
{
    if 0 <= from < toks.len() {
        lemma_empty_pattern(elems, toks, from + 1);
    }
}

/// An ellipsis at the end of a pattern widens no match: the pattern finds what it finds
/// without it. So a lone ellipsis finds nothing.
pub proof fn a_trailing_ellipsis_widens_no_match(elems: Seq<Elem>, toks: Seq<Tok>)
    ensures
        pattern_ranges(elems.push(Elem::Ellipsis), toks) == pattern_ranges(elems, toks),
        pattern_ranges(seq![Elem::Ellipsis], toks) == Seq::<(int, int)>::empty(),
{
    let none = Seq::<Elem>::empty();
    lemma_trailing_ellipsis_ranges(elems, toks, 0);
    lemma_trailing_ellipsis_ranges(none, toks, 0);
    lemma_empty_pattern(none, toks, 0);
    assert(none.push(Elem::Ellipsis) =~= seq![Elem::Ellipsis]);
    if elems.len() == 0 {
        lemma_empty_pattern(elems, toks, 0);
    }
}

/// Every language has one rule among those that are built for a spec.
pub proof fn every_language_has_one_rule(lang: Language)
    ensures
        exists|k: int| 0 <= k < ALL_LANGUAGES@.len() && #[trigger] ALL_LANGUAGES@[k] == lang,
        forall|j: int, k: int|
            #![trigger ALL_LANGUAGES@[j], ALL_LANGUAGES@[k]]
            0 <= j < k < ALL_LANGUAGES@.len() ==> ALL_LANGUAGES@[j] != ALL_LANGUAGES@[k],
{
    let all = ALL_LANGUAGES@;
    assert(all.len() == 18);
    assert(all[0] is JavaScript && all[1] is Python && all[2] is Go && all[3] is Ruby);
    assert(all[4] is Java && all[5] is Php && all[6] is Rust && all[7] is CSharp);
    assert(all[8] is Swift && all[9] is Kotlin && all[10] is C && all[11] is NginxConf);
    assert(all[12] is ApacheConf && all[13] is HAProxyConf && all[14] is Dockerfile);
    assert(all[15] is Manifest && all[16] is Bash && all[17] is Apex);
}

proof fn lemma_apart_from(s: Seq<(int, int)>, from: int, others: Seq<(int, int)>)
    requires
        0 <= from <= s.len(),
    ensures
        forall|x: (int, int)| #[trigger]
            apart_from(s, from, others).contains(x) <==> s.skip(from).contains(x) && !overlaps_any(
                x,
                others,
            ),
    decreases s.len() - from,
{
    let out = apart_from(s, from, others);
    if from < s.len() {
        let rest = apart_from(s, from + 1, others);
        lemma_apart_from(s, from + 1, others);
        let tail = s.skip(from + 1);
        assert(s.skip(from) =~= seq![s[from]] + tail);
        assert forall|x: (int, int)| #[trigger]
            out.contains(x) <==> s.skip(from).contains(x) && !overlaps_any(x, others) by {
            if s.skip(from).contains(x) {
                let k = choose|k: int| 0 <= k < s.skip(from).len() && s.skip(from)[k] == x;
                if k > 0 {
                    assert(tail[k - 1] == x);
                    assert(tail.contains(x));
                }
            }
            if tail.contains(x) {
                let k = choose|k: int| 0 <= k < tail.len() && tail[k] == x;
                assert(s.skip(from)[k + 1] == x);
            }
            if x == s[from] {
                assert(s.skip(from)[0] == x);
            }
            if !overlaps_any(s[from], others) {
                assert(out =~= seq![s[from]] + rest);
                if out.contains(x) {
                    let k = choose|k: int| 0 <= k < out.len() && out[k] == x;
                    if k > 0 {
                        assert(rest[k - 1] == x);
                        assert(rest.contains(x));
                    }
                }
                if rest.contains(x) {
                    let k = choose|k: int| 0 <= k < rest.len() && rest[k] == x;
                    assert(out[k + 1] == x);
                }
                assert(out[0] == s[from]);
            }
        }
    } else {
        assert(s.skip(from) =~= Seq::empty());
    }
}

/// What a filtered matcher finds is what its first matcher finds, without what overlaps a
/// find of the others.
pub proof fn filtered_finds_do_not_overlap(m: GenericMatcher, src: Text, toks: Seq<Tok>, x: (int, int))
    requires
        m is Filtered,
    ensures
        ranges_of(m, src, toks).contains(x) <==> ranges_of(
            *m->positive,
            src,
            toks,
        ).contains(x) && !overlaps_any(x, all_ranges(m->negatives@, 0, src, toks)),
{
    let found = ranges_of(*m->positive, src, toks);
    let others = all_ranges(m->negatives@, 0, src, toks);
    lemma_apart_from(found, 0, others);
    assert(found.skip(0) =~= found);
    assert(apart_from(found, 0, others).contains(x) <==> found.contains(x) && !overlaps_any(
        x,
        others,
    ));
}

} // verus!
