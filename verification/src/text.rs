//! Text primitives: every operation is stated over the sequence of characters
//! that a string denotes.
use vstd::prelude::*;
use vstd::string::*;
use vstd::utf8::*;

verus! {

/// A piece of text as the sequence of its characters.
pub type Text = Seq<char>;

/// The views of the elements of a sequence, in order.
pub open spec fn views<T: View>(s: Seq<T>) -> Seq<T::V> {
    s.map_values(|x: T| x@)
}

/// The view of an optional value.
pub open spec fn opt_view<T: View>(o: Option<T>) -> Option<T::V> {
    match o {
        Some(x) => Some(x@),
        None => None,
    }
}

pub broadcast proof fn lemma_views_len<T: View>(s: Seq<T>)
    ensures
        #[trigger] views(s).len() == s.len(),
{
}

pub broadcast proof fn lemma_views_index<T: View>(s: Seq<T>, i: int)
    requires
        0 <= i < s.len(),
    ensures
        #[trigger] views(s)[i] == s[i]@,
{
}

pub broadcast proof fn lemma_views_push<T: View>(s: Seq<T>, x: T)
    ensures
        #[trigger] views(s.push(x)) == views(s).push(x@),
{
    assert(views(s.push(x)) =~= views(s).push(x@));
}

pub broadcast proof fn lemma_views_add<T: View>(s: Seq<T>, t: Seq<T>)
    ensures
        #[trigger] views(s + t) == views(s) + views(t),
{
    assert(views(s + t) =~= views(s) + views(t));
}

pub broadcast proof fn lemma_views_empty<T: View>()
    ensures
        #[trigger] views(Seq::<T>::empty()) == Seq::<T::V>::empty(),
{
    assert(views(Seq::<T>::empty()) =~= Seq::<T::V>::empty());
}

pub broadcast group group_views {
    lemma_views_len,
    lemma_views_index,
    lemma_views_push,
    lemma_views_add,
    lemma_views_empty,
}

/// Whether two strings hold the same characters.
pub fn text_eq(a: &str, b: &str) -> (r: bool)
    ensures
        r == (a@ == b@),
{
    let x = a.as_bytes();
    let y = b.as_bytes();
    proof {
        encode_utf8_decode_utf8(a@);
        encode_utf8_decode_utf8(b@);
    }
    if x.len() != y.len() {
        return false;
    }
    let mut i: usize = 0;
    while i < x.len()
        invariant
            i <= x.len(),
            x.len() == y.len(),
            x@ == encode_utf8(a@),
            y@ == encode_utf8(b@),
            forall|j: int| 0 <= j < i ==> x@[j] == y@[j],
        decreases x.len() - i,
    {
        if x[i] != y[i] {
            return false;
        }
        i = i + 1;
    }
    assert(x@ =~= y@);
    true
}

/// Whether there is a string and it holds the characters of `want`.
pub fn text_is(o: Option<&str>, want: &str) -> (r: bool)
    ensures
        r == (opt_view(o) == Some(want@)),
{
    match o {
        Some(s) => text_eq(s, want),
        None => false,
    }
}

/// The characters of a string, one by one.
pub fn chars_of(s: &str) -> (r: Vec<char>)
    ensures
        r@ == s@,
{
    let mut out: Vec<char> = Vec::new();
    for c in it: s.chars()
        invariant
            it.seq() == s@,
            out@ == s@.take(it.index() as int),
    {
        out.push(c);
    }
    assert(s@.take(s@.len() as int) =~= s@);
    out
}

/// Appends a string to another.
pub fn append(s: &mut String, t: &str)
    ensures
        final(s)@ == old(s)@ + t@,
{
    s.append(t);
}

/// Two strings joined.
pub fn concat2(a: &str, b: &str) -> (r: String)
    ensures
        r@ == a@ + b@,
{
    let mut s = a.to_owned();
    s.append(b);
    s
}

/// The text between two byte offsets of `src`.
pub open spec fn byte_slice(src: Text, start: int, end: int) -> Text {
    decode_utf8(encode_utf8(src).subrange(start, end))
}

/// Whether `start..end` is a byte range of `src` that splits no character.
pub open spec fn is_byte_range(src: Text, start: int, end: int) -> bool {
    &&& 0 <= start <= end <= encode_utf8(src).len()
    &&& is_char_boundary(encode_utf8(src), start)
    &&& is_char_boundary(encode_utf8(src), end)
}

pub proof fn lemma_boundary_in_prefix(bytes: Seq<u8>, start: int, end: int)
    requires
        valid_utf8(bytes),
        0 <= start <= end <= bytes.len(),
        is_char_boundary(bytes, start),
        is_char_boundary(bytes, end),
    ensures
        valid_utf8(bytes.subrange(0, end)),
        is_char_boundary(bytes.subrange(0, end), start),
{
    valid_utf8_split(bytes, end);
    let pre = bytes.subrange(0, end);
    if start == end {
        is_char_boundary_start_end_of_seq(pre);
    } else {
        is_char_boundary_iff_not_is_continuation_byte(bytes, start);
        is_char_boundary_iff_not_is_continuation_byte(pre, start);
    }
}

/// The text of `src` between two byte offsets.
pub fn slice_bytes(src: &str, start: usize, end: usize) -> (r: &str)
    requires
        is_byte_range(src@, start as int, end as int),
    ensures
        r@ == byte_slice(src@, start as int, end as int),
{
    proof {
        encode_utf8_valid_utf8(src@);
        lemma_boundary_in_prefix(encode_utf8(src@), start as int, end as int);
    }
    let (pre, _rest) = src.split_at(end);
    let (_skipped, piece) = pre.split_at(start);
    proof {
        encode_utf8_decode_utf8(piece@);
        assert(piece.spec_bytes() =~= encode_utf8(src@).subrange(start as int, end as int));
    }
    piece
}

/// Whether `start..end` is a byte range of `src` that splits no character.
pub fn check_byte_range(src: &str, start: usize, end: usize) -> (r: bool)
    ensures
        r == is_byte_range(src@, start as int, end as int),
{
    let n: usize = src.as_bytes().len();
    start <= end && end <= n && src.is_char_boundary(start) && src.is_char_boundary(end)
}

// ─── Searching ───────────────────────────────────────────────────────────────
/// Whether `p` stands in `s` at position `i`.
pub open spec fn occurs_at(s: Text, p: Text, i: int) -> bool {
    0 <= i && i + p.len() <= s.len() && s.subrange(i, i + p.len()) == p
}

/// Whether `p` is a part of `s`.
pub open spec fn has_part(s: Text, p: Text) -> bool {
    exists|i: int| #[trigger] occurs_at(s, p, i)
}

/// Whether `s` begins with `p`.
pub open spec fn begins_with(s: Text, p: Text) -> bool {
    occurs_at(s, p, 0)
}

/// Whether `s` ends with `p`.
pub open spec fn finishes_with(s: Text, p: Text) -> bool {
    occurs_at(s, p, s.len() - p.len())
}

/// Whether `p` stands in `s` at position `i`.
pub fn chars_occur_at(s: &Vec<char>, p: &Vec<char>, i: usize) -> (r: bool)
    ensures
        r == occurs_at(s@, p@, i as int),
{
    let n: usize = s.len();
    let m: usize = p.len();
    if i > n || m > n - i {
        return false;
    }
    let mut k: usize = 0;
    while k < m
        invariant
            k <= m,
            n == s@.len(),
            m == p@.len(),
            i + m <= n,
            forall|j: int| 0 <= j < k ==> s@[i + j] == #[trigger] p@[j],
        decreases m - k,
    {
        if s[i + k] != p[k] {
            assert(s@.subrange(i as int, i + m)[k as int] != p@[k as int]);
            return false;
        }
        k = k + 1;
    }
    assert(s@.subrange(i as int, i + m) =~= p@);
    true
}

/// Whether `p` is a part of `s`.
pub fn contains(s: &str, p: &str) -> (r: bool)
    ensures
        r == has_part(s@, p@),
{
    let a = chars_of(s);
    let b = chars_of(p);
    let n: usize = a.len();
    let mut i: usize = 0;
    loop
        invariant
            i <= n,
            n == a@.len(),
            a@ == s@,
            b@ == p@,
            forall|j: int| 0 <= j < i ==> !#[trigger] occurs_at(s@, p@, j),
        decreases n - i,
    {
        if chars_occur_at(&a, &b, i) {
            return true;
        }
        if i == n {
            assert forall|j: int| !#[trigger] occurs_at(s@, p@, j) by {}
            return false;
        }
        i = i + 1;
    }
}

/// Whether `s` begins with `p`.
pub fn starts_with(s: &str, p: &str) -> (r: bool)
    ensures
        r == begins_with(s@, p@),
{
    let a = chars_of(s);
    let b = chars_of(p);
    chars_occur_at(&a, &b, 0)
}

/// Whether `s` ends with `p`.
pub fn ends_with(s: &str, p: &str) -> (r: bool)
    ensures
        r == finishes_with(s@, p@),
{
    let a = chars_of(s);
    let b = chars_of(p);
    if b.len() > a.len() {
        return false;
    }
    chars_occur_at(&a, &b, a.len() - b.len())
}

/// The position of the first `c` in `s` at or after `from`: the length if there is none.
pub open spec fn first_pos<T>(s: Seq<T>, c: T, from: int) -> int
    decreases s.len() - from,
{
    if from < 0 || from >= s.len() {
        s.len() as int
    } else if s[from] == c {
        from
    } else {
        first_pos(s, c, from + 1)
    }
}

/// The position after the last `c` in `s` before `end`: zero if there is none.
pub open spec fn after_last<T>(s: Seq<T>, c: T, end: int) -> int
    decreases end,
{
    if end <= 0 || end > s.len() {
        0
    } else if s[end - 1] == c {
        end
    } else {
        after_last(s, c, end - 1)
    }
}

/// The part of `s` before the first `c`, or all of it.
pub open spec fn first_segment(s: Text, c: char) -> Text {
    s.take(first_pos(s, c, 0))
}

/// The part of `s` after the last `c`, or all of it.
pub open spec fn last_segment(s: Text, c: char) -> Text {
    s.skip(after_last(s, c, s.len() as int))
}

pub proof fn lemma_first_pos<T>(s: Seq<T>, c: T, from: int)
    requires
        0 <= from <= s.len(),
    ensures
        from <= first_pos(s, c, from) <= s.len(),
        first_pos(s, c, from) < s.len() ==> s[first_pos(s, c, from)] == c,
        forall|k: int| from <= k < first_pos(s, c, from) ==> s[k] != c,
    decreases s.len() - from,
{
    if from < s.len() && s[from] != c {
        lemma_first_pos(s, c, from + 1);
    }
}

pub proof fn lemma_after_last<T>(s: Seq<T>, c: T, end: int)
    requires
        0 <= end <= s.len(),
    ensures
        0 <= after_last(s, c, end) <= end,
        after_last(s, c, end) > 0 ==> s[after_last(s, c, end) - 1] == c,
        forall|k: int| after_last(s, c, end) <= k < end ==> s[k] != c,
    decreases end,
{
    if end > 0 && s[end - 1] != c {
        lemma_after_last(s, c, end - 1);
    }
}

/// The position of the first `c` in `s` at or after `from`: the length if there is none.
pub fn find_char(s: &Vec<char>, c: char, from: usize) -> (r: usize)
    requires
        from <= s@.len(),
    ensures
        r == first_pos(s@, c, from as int),
        from <= r <= s@.len(),
        r < s@.len() ==> s@[r as int] == c,
{
    let mut i: usize = from;
    while i < s.len()
        invariant
            from <= i <= s@.len(),
            first_pos(s@, c, from as int) == first_pos(s@, c, i as int),
        decreases s.len() - i,
    {
        if s[i] == c {
            return i;
        }
        i = i + 1;
    }
    i
}

/// The position after the last `c` in `s`: zero if there is none.
pub fn find_after_last(s: &Vec<char>, c: char) -> (r: usize)
    ensures
        r == after_last(s@, c, s@.len() as int),
        r <= s@.len(),
{
    let mut i: usize = s.len();
    while i > 0
        invariant
            i <= s@.len(),
            after_last(s@, c, s@.len() as int) == after_last(s@, c, i as int),
        decreases i,
    {
        if s[i - 1] == c {
            return i;
        }
        i = i - 1;
    }
    i
}

/// The part of `s` before the first `c`, or all of it.
pub fn before_first<'a>(s: &'a str, c: char) -> (r: &'a str)
    ensures
        r@ == first_segment(s@, c),
{
    let a = chars_of(s);
    let i: usize = find_char(&a, c, 0);
    assert(s@.subrange(0, i as int) =~= s@.take(i as int));
    s.substring_char(0, i)
}

/// The part of `s` after the last `c`, or all of it.
pub fn past_last<'a>(s: &'a str, c: char) -> (r: &'a str)
    ensures
        r@ == last_segment(s@, c),
{
    let a = chars_of(s);
    let i: usize = find_after_last(&a, c);
    assert(s@.subrange(i as int, s@.len() as int) =~= s@.skip(i as int));
    s.substring_char(i, a.len())
}

// ─── Trimming ────────────────────────────────────────────────────────────────
/// Whether a character has Unicode's `White_Space` property.
pub open spec fn is_white(c: char) -> bool {
    ||| '\u{9}' <= c <= '\u{d}'
    ||| c == ' '
    ||| c == '\u{85}'
    ||| c == '\u{a0}'
    ||| c == '\u{1680}'
    ||| '\u{2000}' <= c <= '\u{200a}'
    ||| c == '\u{2028}'
    ||| c == '\u{2029}'
    ||| c == '\u{202f}'
    ||| c == '\u{205f}'
    ||| c == '\u{3000}'
}

/// Whether a character has Unicode's `White_Space` property.
pub fn is_whitespace(c: char) -> (r: bool)
    ensures
        r == is_white(c),
{
    ('\u{9}' <= c && c <= '\u{d}') || c == ' ' || c == '\u{85}' || c == '\u{a0}' || c == '\u{1680}'
        || ('\u{2000}' <= c && c <= '\u{200a}') || c == '\u{2028}' || c == '\u{2029}' || c
        == '\u{202f}' || c == '\u{205f}' || c == '\u{3000}'
}

/// The first position at or after `from` whose character is not white.
pub open spec fn skip_white(s: Text, from: int) -> int
    decreases s.len() - from,
{
    if from < 0 || from >= s.len() || !is_white(s[from]) {
        from
    } else {
        skip_white(s, from + 1)
    }
}

/// The last position at or before `end`, not below `low`, that no white character precedes.
pub open spec fn skip_white_back(s: Text, low: int, end: int) -> int
    decreases end - low,
{
    if end <= low || end > s.len() || low < 0 || !is_white(s[end - 1]) {
        end
    } else {
        skip_white_back(s, low, end - 1)
    }
}

/// `s` without white space at its start.
pub open spec fn trimmed_start(s: Text) -> Text {
    s.skip(skip_white(s, 0))
}

/// `s` without white space at its end.
pub open spec fn trimmed_end(s: Text) -> Text {
    s.take(skip_white_back(s, 0, s.len() as int))
}

/// `s` without white space at its ends.
pub open spec fn trimmed(s: Text) -> Text {
    trimmed_end(trimmed_start(s))
}

fn white_prefix(a: &Vec<char>) -> (i: usize)
    ensures
        i == skip_white(a@, 0),
        i <= a@.len(),
{
    let mut i: usize = 0;
    while i < a.len() && is_whitespace(a[i])
        invariant
            i <= a@.len(),
            skip_white(a@, 0) == skip_white(a@, i as int),
        decreases a.len() - i,
    {
        i = i + 1;
    }
    i
}

fn white_suffix(a: &Vec<char>) -> (i: usize)
    ensures
        i == skip_white_back(a@, 0, a@.len() as int),
        i <= a@.len(),
{
    let mut i: usize = a.len();
    while i > 0 && is_whitespace(a[i - 1])
        invariant
            i <= a@.len(),
            skip_white_back(a@, 0, a@.len() as int) == skip_white_back(a@, 0, i as int),
        decreases i,
    {
        i = i - 1;
    }
    i
}

/// `s` without white space at its start.
pub fn trim_start<'a>(s: &'a str) -> (r: &'a str)
    ensures
        r@ == trimmed_start(s@),
{
    let a = chars_of(s);
    let i: usize = white_prefix(&a);
    assert(s@.subrange(i as int, s@.len() as int) =~= s@.skip(i as int));
    s.substring_char(i, a.len())
}

/// `s` without white space at its end.
pub fn trim_end<'a>(s: &'a str) -> (r: &'a str)
    ensures
        r@ == trimmed_end(s@),
{
    let a = chars_of(s);
    let i: usize = white_suffix(&a);
    assert(s@.subrange(0, i as int) =~= s@.take(i as int));
    s.substring_char(0, i)
}

/// `s` without white space at its ends.
pub fn trim<'a>(s: &'a str) -> (r: &'a str)
    ensures
        r@ == trimmed(s@),
{
    trim_end(trim_start(s))
}

/// The first position at or after `from` whose character is neither `x` nor `y`.
pub open spec fn skip_two(s: Text, x: char, y: char, from: int) -> int
    decreases s.len() - from,
{
    if from < 0 || from >= s.len() || !(s[from] == x || s[from] == y) {
        from
    } else {
        skip_two(s, x, y, from + 1)
    }
}

/// The last position at or before `end` that neither `x` nor `y` precedes.
pub open spec fn skip_two_back(s: Text, x: char, y: char, end: int) -> int
    decreases end,
{
    if end <= 0 || end > s.len() || !(s[end - 1] == x || s[end - 1] == y) {
        end
    } else {
        skip_two_back(s, x, y, end - 1)
    }
}

/// `s` without the characters `x` and `y` at its ends.
pub open spec fn trimmed_of(s: Text, x: char, y: char) -> Text {
    let front = s.skip(skip_two(s, x, y, 0));
    front.take(skip_two_back(front, x, y, front.len() as int))
}

/// `s` without the characters `x` and `y` at its ends.
pub fn trim_chars<'a>(s: &'a str, x: char, y: char) -> (r: &'a str)
    ensures
        r@ == trimmed_of(s@, x, y),
{
    let a = chars_of(s);
    let mut i: usize = 0;
    while i < a.len() && (a[i] == x || a[i] == y)
        invariant
            i <= a@.len(),
            skip_two(a@, x, y, 0) == skip_two(a@, x, y, i as int),
        decreases a.len() - i,
    {
        i = i + 1;
    }
    assert(s@.subrange(i as int, s@.len() as int) =~= s@.skip(i as int));
    let front = s.substring_char(i, a.len());
    let b = chars_of(front);
    let mut j: usize = b.len();
    while j > 0 && (b[j - 1] == x || b[j - 1] == y)
        invariant
            j <= b@.len(),
            skip_two_back(b@, x, y, b@.len() as int) == skip_two_back(b@, x, y, j as int),
        decreases j,
    {
        j = j - 1;
    }
    assert(front@.subrange(0, j as int) =~= front@.take(j as int));
    front.substring_char(0, j)
}

/// `s` without the characters `x` at its start.
pub fn skip_leading<'a>(s: &'a str, x: char) -> (r: &'a str)
    ensures
        r@ == s@.skip(skip_two(s@, x, x, 0)),
{
    let a = chars_of(s);
    let mut i: usize = 0;
    while i < a.len() && a[i] == x
        invariant
            i <= a@.len(),
            skip_two(a@, x, x, 0) == skip_two(a@, x, x, i as int),
        decreases a.len() - i,
    {
        i = i + 1;
    }
    assert(s@.subrange(i as int, s@.len() as int) =~= s@.skip(i as int));
    s.substring_char(i, a.len())
}

// ─── Building ────────────────────────────────────────────────────────────────
/// Three strings joined.
pub fn concat3(a: &str, b: &str, c: &str) -> (r: String)
    ensures
        r@ == a@ + b@ + c@,
{
    let mut s = concat2(a, b);
    s.append(c);
    s
}

/// Specifies `String::push`, which adds one character at the end.
pub assume_specification[ String::push ](s: &mut String, c: char)
    ensures
        final(s)@ == old(s)@.push(c),
;

/// A string from its characters.
pub fn from_chars(a: &Vec<char>) -> (r: String)
    ensures
        r@ == a@,
{
    let mut s = String::new();
    let mut i: usize = 0;
    assert(a@.take(0) =~= Seq::empty());
    while i < a.len()
        invariant
            i <= a@.len(),
            s@ == a@.take(i as int),
        decreases a.len() - i,
    {
        s.push(a[i]);
        assert(a@.take(i + 1) =~= a@.take(i as int).push(a@[i as int]));
        i = i + 1;
    }
    assert(a@.take(a@.len() as int) =~= a@);
    s
}

/// The lower-case form of an ASCII letter; any other character unchanged.
pub open spec fn lower_char(c: char) -> char {
    if 'A' <= c <= 'Z' {
        (c as u32 + 32) as char
    } else {
        c
    }
}

/// `s` with its ASCII letters in lower case.
pub open spec fn lowered(s: Text) -> Text {
    s.map_values(|c: char| lower_char(c))
}

/// The lower-case form of an ASCII letter; any other character unchanged.
pub fn to_lower(c: char) -> (r: char)
    ensures
        r == lower_char(c),
{
    if 'A' <= c && c <= 'Z' {
        ((c as u8) + 32) as char
    } else {
        c
    }
}

/// `s` with its ASCII letters in lower case.
pub fn to_ascii_lowercase(s: &str) -> (r: String)
    ensures
        r@ == lowered(s@),
{
    let a = chars_of(s);
    let mut out: Vec<char> = Vec::new();
    let mut i: usize = 0;
    while i < a.len()
        invariant
            i <= a@.len(),
            a@ == s@,
            out@ =~= lowered(s@).take(i as int),
        decreases a.len() - i,
    {
        out.push(to_lower(a[i]));
        i = i + 1;
    }
    assert(out@ =~= lowered(s@));
    from_chars(&out)
}

/// `s` without its white space.
pub open spec fn without_white(s: Text) -> Text
    decreases s.len(),
{
    if s.len() == 0 {
        Seq::empty()
    } else if is_white(s.last()) {
        without_white(s.drop_last())
    } else {
        without_white(s.drop_last()).push(s.last())
    }
}

/// `s` without its white space.
pub fn remove_whitespace(s: &str) -> (r: String)
    ensures
        r@ == without_white(s@),
{
    let a = chars_of(s);
    let mut out = String::new();
    let mut i: usize = 0;
    assert(a@.take(0) =~= Seq::empty());
    while i < a.len()
        invariant
            i <= a@.len(),
            out@ == without_white(a@.take(i as int)),
        decreases a.len() - i,
    {
        assert(a@.take(i + 1).drop_last() =~= a@.take(i as int));
        if !is_whitespace(a[i]) {
            out.push(a[i]);
        }
        i = i + 1;
    }
    assert(a@.take(a@.len() as int) =~= a@);
    out
}

/// The decimal digit for a number below ten.
pub open spec fn digit_char(d: int) -> char {
    (48 + d) as char
}

/// A number in decimal notation.
pub open spec fn decimal(n: int) -> Text
    decreases n,
{
    if n < 10 {
        seq![digit_char(n)]
    } else {
        decimal(n / 10).push(digit_char(n % 10))
    }
}

/// A number in decimal notation.
pub fn decimal_text(n: usize) -> (r: String)
    ensures
        r@ == decimal(n as int),
    decreases n,
{
    if n < 10 {
        let mut s = String::new();
        s.push((48u8 + n as u8) as char);
        assert(s@ =~= seq![digit_char(n as int)]);
        s
    } else {
        let mut s = decimal_text(n / 10);
        s.push((48u8 + (n % 10) as u8) as char);
        s
    }
}

/// The upper-case form of a text.
pub uninterp spec fn uppercase(s: Seq<char>) -> Seq<char>;

/// Calls `str::to_uppercase`. Claims that the result depends on the text alone.
#[verifier::external_body]
pub(crate) fn to_uppercase(s: &str) -> (r: String)
    ensures
        r@ == uppercase(s@),
{
    s.to_uppercase()
}

/// Whether the word `w` stands in `s` between white space or the ends.
pub open spec fn has_word(s: Text, w: Text) -> bool {
    exists|i: int| #[trigger] is_word_at(s, w, i)
}

/// Whether the word `w` stands in `s` at position `i`, between white space or the ends.
pub open spec fn is_word_at(s: Text, w: Text, i: int) -> bool {
    &&& occurs_at(s, w, i)
    &&& i > 0 ==> is_white(s[i - 1])
    &&& i + w.len() < s.len() ==> is_white(s[i + w.len()])
}

/// Whether the word `w` stands in `s` between white space or the ends.
pub fn contains_word(s: &str, w: &str) -> (r: bool)
    ensures
        r == has_word(s@, w@),
{
    let a = chars_of(s);
    let b = chars_of(w);
    let n: usize = a.len();
    let m: usize = b.len();
    let mut i: usize = 0;
    loop
        invariant
            i <= n,
            n == a@.len(),
            m == b@.len(),
            a@ == s@,
            b@ == w@,
            forall|j: int| 0 <= j < i ==> !#[trigger] is_word_at(s@, w@, j),
        decreases n - i,
    {
        if chars_occur_at(&a, &b, i) && (i == 0 || is_whitespace(a[i - 1])) && (i + m == n
            || is_whitespace(a[i + m])) {
            assert(is_word_at(s@, w@, i as int));
            return true;
        }
        assert(!is_word_at(s@, w@, i as int));
        if i == n {
            assert forall|j: int| !#[trigger] is_word_at(s@, w@, j) by {}
            return false;
        }
        i = i + 1;
    }
}

/// The bytes of two texts joined are their bytes joined.
pub proof fn lemma_encode_add(a: Text, b: Text)
    ensures
        encode_utf8(a + b) == encode_utf8(a) + encode_utf8(b),
    decreases a.len(),
{
    if a.len() == 0 {
        assert(a + b =~= b);
        assert(encode_utf8(a) + encode_utf8(b) =~= encode_utf8(b));
    } else {
        assert((a + b).drop_first() =~= a.drop_first() + b);
        lemma_encode_add(a.drop_first(), b);
        assert(encode_utf8(a + b) =~= encode_utf8(a) + encode_utf8(b));
    }
}

/// The bytes between two boundaries are those of the text there.
pub proof fn lemma_encode_slice(src: Text, start: int, end: int)
    requires
        is_byte_range(src, start, end),
    ensures
        valid_utf8(encode_utf8(src).subrange(start, end)),
        encode_utf8(byte_slice(src, start, end)) == encode_utf8(src).subrange(start, end),
{
    let bytes = encode_utf8(src);
    encode_utf8_valid_utf8(src);
    lemma_boundary_in_prefix(bytes, start, end);
    let pre = bytes.subrange(0, end);
    valid_utf8_split(pre, start);
    assert(pre.subrange(start, pre.len() as int) =~= bytes.subrange(start, end));
    decode_utf8_encode_utf8(bytes.subrange(start, end));
}

// ─── Lines and columns ───────────────────────────────────────────────────────
/// The byte of a line feed.
pub const NEWLINE: u8 = 10;

/// How often `x` stands among the first `end` elements of `s`.
pub open spec fn count_before(s: Seq<u8>, x: u8, end: int) -> int
    decreases end,
{
    if end <= 0 {
        0
    } else {
        count_before(s, x, end - 1) + if s[end - 1] == x {
            1int
        } else {
            0int
        }
    }
}

/// The byte offset at which the line of the byte offset `at` starts.
pub open spec fn line_start(src: Text, at: int) -> int {
    after_last(encode_utf8(src), NEWLINE, at)
}

/// The line of the byte offset `at`, counted from one.
pub open spec fn line_of(src: Text, at: int) -> int {
    count_before(encode_utf8(src), NEWLINE, at) + 1
}

/// A character boundary follows each ASCII byte.
pub proof fn lemma_boundary_after_ascii(bytes: Seq<u8>, p: int)
    requires
        valid_utf8(bytes),
        0 <= p < bytes.len(),
        bytes[p] < 0x80,
    ensures
        is_char_boundary(bytes, p),
        is_char_boundary(bytes, p + 1),
    decreases bytes.len(),
{
    is_char_boundary_iff_not_is_continuation_byte(bytes, p);
    let n = length_of_first_scalar(bytes);
    if p < n {
        assert(p == 0 && n == 1);
        reveal_with_fuel(is_char_boundary, 2);
    } else {
        assert(pop_first_scalar(bytes)[p - n] == bytes[p]);
        lemma_boundary_after_ascii(pop_first_scalar(bytes), p - n);
    }
}

/// Text has no more characters than bytes.
pub proof fn lemma_decoded_len(bytes: Seq<u8>)
    requires
        valid_utf8(bytes),
    ensures
        decode_utf8(bytes).len() <= bytes.len(),
    decreases bytes.len(),
{
    if bytes.len() > 0 {
        lemma_decoded_len(pop_first_scalar(bytes));
    }
}

/// The start of a line is a byte range with every boundary after it on the line.
pub proof fn lemma_line_start(src: Text, at: int)
    requires
        0 <= at <= encode_utf8(src).len(),
        is_char_boundary(encode_utf8(src), at),
    ensures
        is_byte_range(src, line_start(src, at), at),
{
    let bytes = encode_utf8(src);
    encode_utf8_valid_utf8(src);
    lemma_after_last(bytes, NEWLINE, at);
    let s = line_start(src, at);
    if s > 0 {
        lemma_boundary_after_ascii(bytes, s - 1);
    } else {
        is_char_boundary_start_end_of_seq(bytes);
    }
}

/// The byte offset at which the line of `at` starts.
pub fn line_start_of(src: &str, at: usize) -> (r: usize)
    requires
        at <= encode_utf8(src@).len(),
    ensures
        r == line_start(src@, at as int),
        r <= at,
{
    let b = src.as_bytes();
    let mut i: usize = at;
    while i > 0
        invariant
            i <= at <= b@.len(),
            b@ == encode_utf8(src@),
            after_last(b@, NEWLINE, at as int) == after_last(b@, NEWLINE, i as int),
        decreases i,
    {
        if b[i - 1] == NEWLINE {
            return i;
        }
        i = i - 1;
    }
    i
}

/// The byte offset of the first line feed at or after `at`: the length if there is none.
pub fn line_end_of(src: &str, at: usize) -> (r: usize)
    requires
        at <= encode_utf8(src@).len(),
    ensures
        r == first_pos(encode_utf8(src@), NEWLINE, at as int),
{
    let b = src.as_bytes();
    let mut i: usize = at;
    while i < b.len()
        invariant
            at <= i <= b@.len(),
            b@ == encode_utf8(src@),
            first_pos(b@, NEWLINE, at as int) == first_pos(b@, NEWLINE, i as int),
        decreases b.len() - i,
    {
        if b[i] == NEWLINE {
            return i;
        }
        i = i + 1;
    }
    i
}

/// The line of a byte offset, counted from one.
pub fn line_number(src: &str, at: usize) -> (r: usize)
    requires
        at <= encode_utf8(src@).len() < usize::MAX,
    ensures
        r == line_of(src@, at as int),
{
    let b = src.as_bytes();
    let mut n: usize = 0;
    let mut i: usize = 0;
    while i < at
        invariant
            i <= at <= b@.len() < usize::MAX,
            b@ == encode_utf8(src@),
            n == count_before(b@, NEWLINE, i as int),
            n <= i,
        decreases at - i,
    {
        if b[i] == NEWLINE {
            n = n + 1;
        }
        i = i + 1;
    }
    n + 1
}

/// The line that holds the byte offset `at`; nothing where `at` is past the end.
pub open spec fn source_line_spec(src: Text, at: int) -> Text {
    let bytes = encode_utf8(src);
    if at > bytes.len() {
        Seq::empty()
    } else {
        byte_slice(src, line_start(src, at), first_pos(bytes, NEWLINE, at))
    }
}

} // verus!
