//! What the rules of all languages share.
use crate::finding::{plain_finding, plain_report, Finding, Report, RuleFacts, RuleInfo, Severity};
use crate::text::{
    begins_with, byte_slice, chars_of, concat3, first_pos, line_end_of, line_number, line_of,
    line_start, line_start_of, lower_char, opt_view, slice_bytes, source_line_spec, starts_with,
    text_eq, to_lower, views, Text, NEWLINE,
};
use crate::text_map::{TextMap, TextSet};
use crate::tree::{gap, Node, SyntaxTree};
use vstd::prelude::*;
use vstd::string::*;
use vstd::utf8::*;

verus! {

broadcast use crate::text::group_views;

/// The names of variables that hold a secret, as a regular expression. A keyword
/// counts only as a whole part of the name.
pub const HARDCODED_SECRET_PATTERN: &'static str =
    r"(?i)(?:^|[^A-Za-z])(password|secret|api_?key|token|auth|credential|private_?key)(?:s?(?:$|[^A-Za-z]))";

/// The same for C#, where connection strings count too.
pub const CSHARP_HARDCODED_SECRET_PATTERN: &'static str =
    r"(?i)(?:^|[^A-Za-z])(password|secret|api_?key|token|auth|credential|private_?key|connection_?string|connectionstring)(?:s?(?:$|[^A-Za-z]))";

/// The length below which a string is not taken for a secret by default.
pub const DEFAULT_HARDCODED_SECRET_MIN_LENGTH: usize = 4;

/// The pattern for the names of variables that hold a secret.
pub fn hardcoded_secret_re() -> (r: &'static str)
    ensures
        r@ == HARDCODED_SECRET_PATTERN@,
{
    HARDCODED_SECRET_PATTERN
}

/// The pattern for the names of C# variables that hold a secret.
pub fn csharp_hardcoded_secret_re() -> (r: &'static str)
    ensures
        r@ == CSHARP_HARDCODED_SECRET_PATTERN@,
{
    CSHARP_HARDCODED_SECRET_PATTERN
}

/// What a string must have to be taken for a secret.
#[derive(Debug)]
pub struct SecretScanThresholds {
    /// The number of bytes that it has at least.
    pub min_length: usize,
    /// The strings whose characters vary too little.
    pub low_entropy: TextSet,
}

/// What [`SecretScanThresholds`] denote.
pub struct Thresholds {
    pub min_length: int,
    pub low_entropy: Set<Text>,
}

impl View for SecretScanThresholds {
    type V = Thresholds;

    open spec fn view(&self) -> Thresholds {
        Thresholds { min_length: self.min_length as int, low_entropy: self.low_entropy@ }
    }
}

impl SecretScanThresholds {
    /// Thresholds with the default length, where none is given.
    pub fn new(min_length: Option<usize>, low_entropy: TextSet) -> (r: Self)
        ensures
            r@.min_length == (match min_length {
                Some(n) => n as int,
                None => DEFAULT_HARDCODED_SECRET_MIN_LENGTH as int,
            }),
            r@.low_entropy == low_entropy@,
    {
        SecretScanThresholds {
            min_length: match min_length {
                Some(n) => n,
                None => DEFAULT_HARDCODED_SECRET_MIN_LENGTH,
            },
            low_entropy,
        }
    }
}

impl Default for SecretScanThresholds {
    fn default() -> (r: Self)
        ensures
            r@.min_length == DEFAULT_HARDCODED_SECRET_MIN_LENGTH,
            r@.low_entropy == Set::<Text>::empty(),
    {
        SecretScanThresholds::new(None, TextSet::new())
    }
}

/// Whether a string is long and varied enough to be a secret.
pub open spec fn passes(limits: Thresholds, inner: Text) -> bool {
    encode_utf8(inner).len() >= limits.min_length && !limits.low_entropy.contains(inner)
}

/// Whether the content of a string literal is long and varied enough to be a secret.
pub fn is_secret_value_long_enough(inner: &str, thresholds: &SecretScanThresholds) -> (r: bool)
    ensures
        r == passes(thresholds@, inner@),
{
    if inner.as_bytes().len() < thresholds.min_length {
        return false;
    }
    !thresholds.low_entropy.contains(inner)
}

/// Whether a string could be a secret: it holds no space and is neither a web
/// address nor a path.
pub open spec fn secret_shaped(inner: Text) -> bool {
    &&& !inner.contains(' ')
    &&& !begins_with(inner, "http://"@)
    &&& !begins_with(inner, "https://"@)
    &&& !begins_with(inner, "/"@)
    &&& !begins_with(inner, "./"@)
    &&& !begins_with(inner, "../"@)
}

/// Whether a string could be a secret.
pub fn looks_like_secret_value(inner: &str) -> (r: bool)
    ensures
        r == secret_shaped(inner@),
{
    let a = chars_of(inner);
    let mut i: usize = 0;
    while i < a.len()
        invariant
            i <= a@.len(),
            a@ == inner@,
            forall|k: int| 0 <= k < i ==> a@[k] != ' ',
        decreases a.len() - i,
    {
        if a[i] == ' ' {
            assert(inner@.contains(' '));
            return false;
        }
        i = i + 1;
    }
    if starts_with(inner, "http://") || starts_with(inner, "https://") {
        return false;
    }
    if starts_with(inner, "/") || starts_with(inner, "./") || starts_with(inner, "../") {
        return false;
    }
    true
}

// ─── Identifiers ─────────────────────────────────────────────────────────────
pub open spec fn is_upper(c: char) -> bool {
    'A' <= c <= 'Z'
}

pub open spec fn is_lower(c: char) -> bool {
    'a' <= c <= 'z'
}

pub open spec fn is_word_char(c: char) -> bool {
    is_upper(c) || is_lower(c) || '0' <= c <= '9'
}

/// A name that is being split: the words so far, the word under way, and whether
/// the last character was a lower-case letter.
#[verifier::ext_equal]
pub struct Split {
    pub words: Seq<Text>,
    pub current: Text,
    pub prev_lower: bool,
}

/// The words with the word under way added, where it is not empty.
pub open spec fn closed_words(s: Split) -> Seq<Text> {
    if s.current.len() > 0 {
        s.words.push(s.current)
    } else {
        s.words
    }
}

/// The split one character further on.
pub open spec fn split_step(s: Split, c: char) -> Split {
    if is_word_char(c) {
        let fresh = s.prev_lower && is_upper(c) && s.current.len() > 0;
        Split {
            words: if fresh {
                s.words.push(s.current)
            } else {
                s.words
            },
            current: (if fresh {
                Seq::<char>::empty()
            } else {
                s.current
            }).push(lower_char(c)),
            prev_lower: is_lower(c),
        }
    } else {
        Split { words: closed_words(s), current: Seq::empty(), prev_lower: false }
    }
}

/// The split of a name.
pub open spec fn split_name(name: Text) -> Split
    decreases name.len(),
{
    if name.len() == 0 {
        Split { words: Seq::empty(), current: Seq::empty(), prev_lower: false }
    } else {
        split_step(split_name(name.drop_last()), name.last())
    }
}

/// A word without the `s` of its plural.
pub open spec fn singular(word: Text) -> Text {
    if word.len() > 1 && word.last() == 's' {
        word.drop_last()
    } else {
        word
    }
}

/// The words that make up an identifier, in lower case and in the singular. Words
/// end at characters that are neither letter nor digit, and between a lower-case
/// and an upper-case letter.
pub open spec fn name_words(name: Text) -> Seq<Text> {
    closed_words(split_name(name)).map_values(|w: Text| singular(w))
}

fn finish_word(words: &mut Vec<String>, word: &mut Vec<char>)
    ensures
        views(final(words)@) == views(old(words)@).push(singular(old(word)@)),
        final(word)@ == Seq::<char>::empty(),
{
    let n: usize = word.len();
    if n > 1 && word[n - 1] == 's' {
        let _s = word.pop();
        assert(word@ =~= old(word)@.drop_last());
    }
    words.push(crate::text::from_chars(word));
    word.clear();
}

/// The words that make up an identifier, in lower case and in the singular.
pub fn identifier_components(name: &str) -> (r: Vec<String>)
    ensures
        views(r@) == name_words(name@),
{
    let a = chars_of(name);
    let mut words: Vec<String> = Vec::new();
    let mut current: Vec<char> = Vec::new();
    let mut prev_lower = false;
    let mut i: usize = 0;
    let ghost single = |w: Text| singular(w);
    proof {
        assert(a@.take(0) =~= Seq::empty());
        assert(views(words@) =~= Seq::<Text>::empty().map_values(single));
    }
    while i < a.len()
        invariant
            i <= a@.len(),
            a@ == name@,
            single == (|w: Text| singular(w)),
            views(words@) == split_name(a@.take(i as int)).words.map_values(single),
            current@ == split_name(a@.take(i as int)).current,
            prev_lower == split_name(a@.take(i as int)).prev_lower,
        decreases a.len() - i,
    {
        let c = a[i];
        let ghost s = split_name(a@.take(i as int));
        proof {
            assert(a@.take(i + 1).drop_last() =~= a@.take(i as int));
            assert(s.words.push(s.current).map_values(single) =~= s.words.map_values(single).push(
                singular(s.current),
            ));
        }
        let upper = 'A' <= c && c <= 'Z';
        let lower = 'a' <= c && c <= 'z';
        if upper || lower || ('0' <= c && c <= '9') {
            if prev_lower && upper && current.len() > 0 {
                finish_word(&mut words, &mut current);
            }
            current.push(to_lower(c));
            prev_lower = lower;
        } else {
            if current.len() > 0 {
                finish_word(&mut words, &mut current);
            }
            prev_lower = false;
            assert(current@ =~= Seq::empty());
        }
        i = i + 1;
    }
    proof {
        let s = split_name(name@);
        assert(a@.take(i as int) =~= name@);
        assert(s.words.push(s.current).map_values(single) =~= s.words.map_values(single).push(
            singular(s.current),
        ));
        assert(name_words(name@) =~= closed_words(s).map_values(single));
    }
    if current.len() > 0 {
        finish_word(&mut words, &mut current);
    }
    words
}

/// Whether the words `a` and `b` stand in `words` one after the other.
pub open spec fn has_pair(words: Seq<Text>, a: Text, b: Text) -> bool {
    exists|i: int| #![trigger words[i]] 0 <= i < words.len() - 1 && words[i] == a && words[i + 1] == b
}

/// Whether a name alone says that its value is a secret.
pub open spec fn high_signal_name(name: Text) -> bool {
    let w = name_words(name);
    ||| w.contains("password"@)
    ||| w.contains("passwd"@)
    ||| w.contains("secret"@)
    ||| w.contains("credential"@)
    ||| has_pair(w, "api"@, "key"@)
    ||| has_pair(w, "private"@, "key"@)
}

fn next_to(words: &Vec<String>, a: &str, b: &str) -> (r: bool)
    ensures
        r == has_pair(views(words@), a@, b@),
{
    let n: usize = words.len();
    let mut i: usize = 0;
    while i < n && i + 1 < n
        invariant
            n == words@.len(),
            i <= n,
            forall|k: int|
                #![trigger views(words@)[k]]
                0 <= k < i && k < n - 1 ==> !(views(words@)[k] == a@ && views(words@)[k + 1] == b@),
        decreases n - i,
    {
        assert(views(words@)[i as int] == words@[i as int]@);
        assert(views(words@)[i + 1] == words@[i + 1]@);
        if text_eq(words[i].as_str(), a) && text_eq(words[i + 1].as_str(), b) {
            return true;
        }
        i = i + 1;
    }
    false
}

/// Whether a name alone says that its value is a secret.
pub fn is_high_signal_secret_name(name: &str) -> (r: bool)
    ensures
        r == high_signal_name(name@),
{
    let w = identifier_components(name);
    if crate::taint_engine::has_text(&w, "password") || crate::taint_engine::has_text(&w, "passwd")
        || crate::taint_engine::has_text(&w, "secret") || crate::taint_engine::has_text(
        &w,
        "credential",
    ) {
        return true;
    }
    next_to(&w, "api", "key") || next_to(&w, "private", "key")
}

// ─── Import aliases ──────────────────────────────────────────────────────────
/// The local names of a file's imports and what they stand for.
#[derive(Debug)]
pub struct AliasTable {
    map: TextMap<String>,
}

impl View for AliasTable {
    type V = Map<Text, Text>;

    closed spec fn view(&self) -> Map<Text, Text> {
        Map::new(|k: Text| self.map@.contains_key(k), |k: Text| self.map@[k]@)
    }
}

/// What a callee stands for under a table of aliases: the part before its first
/// dot, or all of it, is replaced by what it stands for.
pub open spec fn resolved(aliases: Map<Text, Text>, callee: Text) -> Text {
    let dot = first_pos(callee, '.', 0);
    if dot < callee.len() {
        let head = callee.take(dot);
        if aliases.contains_key(head) && aliases[head] != head {
            aliases[head] + "."@ + callee.skip(dot + 1)
        } else {
            callee
        }
    } else if aliases.contains_key(callee) {
        aliases[callee]
    } else {
        callee
    }
}

impl AliasTable {
    /// A table without aliases.
    pub fn new() -> (r: Self)
        ensures
            r@ == Map::<Text, Text>::empty(),
    {
        let r = AliasTable { map: TextMap::new() };
        assert(r@ =~= Map::<Text, Text>::empty());
        r
    }

    /// Lets `local` stand for `canonical`.
    pub fn insert(&mut self, local: String, canonical: String)
        ensures
            final(self)@ == old(self)@.insert(local@, canonical@),
    {
        self.map.insert(local, canonical);
        assert(self@ =~= old(self)@.insert(local@, canonical@));
    }

    /// Lets `local` stand for `canonical` where it does not stand for anything yet.
    pub fn entry_or_insert(&mut self, local: String, canonical: String)
        ensures
            final(self)@ == (if old(self)@.contains_key(local@) {
                old(self)@
            } else {
                old(self)@.insert(local@, canonical@)
            }),
    {
        let known = self.map.get(local.as_str()).is_some();
        if !known {
            self.insert(local, canonical);
        }
    }

    /// What a callee stands for.
    pub fn resolve(&self, callee: &str) -> (r: String)
        ensures
            r@ == resolved(self@, callee@),
    {
        let a = chars_of(callee);
        let dot: usize = crate::text::find_char(&a, '.', 0);
        if dot < a.len() {
            let head = callee.substring_char(0, dot);
            let tail = callee.substring_char(dot + 1, a.len());
            proof {
                assert(callee@.subrange(0, dot as int) =~= callee@.take(dot as int));
                assert(callee@.subrange(dot + 1, callee@.len() as int) =~= callee@.skip(dot + 1));
            }
            match self.map.get(head) {
                Some(root) => {
                    if text_eq(root.as_str(), head) {
                        return callee.to_owned();
                    }
                    return concat3(root.as_str(), ".", tail);
                },
                None => {
                    return callee.to_owned();
                },
            }
        }
        match self.map.get(callee) {
            Some(canonical) => canonical.clone(),
            None => callee.to_owned(),
        }
    }

    /// What `local` stands for.
    pub fn get(&self, local: &str) -> (r: Option<&str>)
        ensures
            match r {
                Some(c) => self@.contains_key(local@) && c@ == self@[local@],
                None => !self@.contains_key(local@),
            },
    {
        match self.map.get(local) {
            Some(c) => Some(c.as_str()),
            None => None,
        }
    }
}

/// A callee for which the table has no alias stands for itself.
pub proof fn resolve_without_alias(aliases: Map<Text, Text>, callee: Text)
    requires
        !aliases.contains_key(callee),
        !aliases.contains_key(callee.take(first_pos(callee, '.', 0))),
    ensures
        resolved(aliases, callee) == callee,
{
}

/// Under an empty table every callee stands for itself.
pub proof fn resolve_in_empty_table(callee: Text)
    ensures
        resolved(Map::<Text, Text>::empty(), callee) == callee,
{
}

/// What a callee stands for, where there may be no table of aliases.
pub open spec fn resolved_in(aliases: Option<Map<Text, Text>>, callee: Text) -> Text {
    match aliases {
        Some(a) => resolved(a, callee),
        None => callee,
    }
}

/// What a callee stands for, where there may be no table of aliases.
pub fn resolve_callee(aliases: Option<&AliasTable>, callee: &str) -> (r: String)
    ensures
        r@ == resolved_in(opt_view(aliases), callee@),
{
    match aliases {
        Some(a) => a.resolve(callee),
        None => callee.to_owned(),
    }
}

// ─── Positions ───────────────────────────────────────────────────────────────
/// The line of `source` that holds the byte offset `byte_offset`. Empty where the
/// offset is past the end.
pub fn get_source_line(source: &str, byte_offset: usize) -> (r: String)
    ensures
        r@ == source_line_spec(source@, byte_offset as int),
{
    let n: usize = source.as_bytes().len();
    if byte_offset > n {
        return String::new();
    }
    let start: usize = line_start_of(source, byte_offset);
    let end: usize = line_end_of(source, byte_offset);
    proof {
        let bytes = encode_utf8(source@);
        encode_utf8_valid_utf8(source@);
        crate::text::lemma_after_last(bytes, NEWLINE, byte_offset as int);
        crate::text::lemma_first_pos(bytes, NEWLINE, byte_offset as int);
        is_char_boundary_start_end_of_seq(bytes);
        if start > 0 {
            crate::text::lemma_boundary_after_ascii(bytes, start - 1);
        }
        if end < n {
            crate::text::lemma_boundary_after_ascii(bytes, end as int);
        }
    }
    slice_bytes(source, start, end).to_owned()
}

/// The smaller of an offset and a length.
pub open spec fn clamp(at: int, len: int) -> int {
    if at < len {
        at
    } else {
        len
    }
}

/// How many characters begin in the bytes from `start` to before `end`.
pub open spec fn begun_between(bytes: Seq<u8>, start: int, end: int) -> int
    decreases end - start,
{
    if end <= start {
        0
    } else {
        begun_between(bytes, start, end - 1) + if is_continuation_byte(bytes[end - 1]) {
            0int
        } else {
            1int
        }
    }
}

/// The column of the byte offset `at`, in characters counted from one.
pub open spec fn column_of(src: Text, at: int) -> int {
    begun_between(encode_utf8(src), line_start(src, at), at) + 1
}

/// The column of a byte offset, in characters counted from one.
pub(crate) fn column_number(src: &str, at: usize) -> (r: usize)
    requires
        at <= encode_utf8(src@).len() < usize::MAX,
    ensures
        r == column_of(src@, at as int),
{
    let start: usize = line_start_of(src, at);
    let b = src.as_bytes();
    let mut n: usize = 0;
    let mut i: usize = start;
    while i < at
        invariant
            start <= i <= at <= b@.len() < usize::MAX,
            b@ == encode_utf8(src@),
            n == begun_between(b@, start as int, i as int),
            n <= i - start,
        decreases at - i,
    {
        if !(0x80 <= b[i] && b[i] <= 0xbf) {
            n = n + 1;
        }
        i = i + 1;
    }
    n + 1
}

proof fn lemma_begun_split(bytes: Seq<u8>, a: int, b: int, c: int)
    requires
        a <= b <= c,
    ensures
        begun_between(bytes, a, c) == begun_between(bytes, a, b) + begun_between(bytes, b, c),
    decreases c - b,
{
    if b < c {
        lemma_begun_split(bytes, a, b, c - 1);
    }
}

proof fn lemma_begun_shift(bytes: Seq<u8>, other: Seq<u8>, by: int, a: int, b: int)
    requires
        forall|k: int| #![trigger other[k]] a <= k < b ==> other[k] == bytes[k + by],
    ensures
        begun_between(other, a, b) == begun_between(bytes, a + by, b + by),
    decreases b - a,
{
    if a < b {
        lemma_begun_shift(bytes, other, by, a, b - 1);
        assert(other[b - 1] == bytes[b - 1 + by]);
    }
}

proof fn lemma_begun_counts(bytes: Seq<u8>)
    requires
        valid_utf8(bytes),
    ensures
        begun_between(bytes, 0, bytes.len() as int) == decode_utf8(bytes).len(),
    decreases bytes.len(),
{
    if bytes.len() > 0 {
        let n = length_of_first_scalar(bytes);
        let rest = pop_first_scalar(bytes);
        lemma_begun_counts(rest);
        lemma_begun_shift(bytes, rest, n, 0, rest.len() as int);
        lemma_begun_split(bytes, 0, n, bytes.len() as int);
        reveal_with_fuel(begun_between, 5);
        assert(begun_between(bytes, 0, n) == 1);
    }
}

/// The column of a character is one more than the number of characters before it on its
/// line.
pub proof fn column_counts_characters(src: Text, at: int)
    requires
        0 <= at <= encode_utf8(src).len(),
        is_char_boundary(encode_utf8(src), at),
    ensures
        column_of(src, at) == byte_slice(src, line_start(src, at), at).len() + 1,
{
    let start = line_start(src, at);
    let bytes = encode_utf8(src);
    let piece = bytes.subrange(start, at);
    crate::text::lemma_line_start(src, at);
    crate::text::lemma_encode_slice(src, start, at);
    lemma_begun_counts(piece);
    lemma_begun_shift(bytes, piece, start, 0, at - start);
}

/// The report of a rule on a byte range of a file. Offsets past the end count as the end.
pub open spec fn offsets_report(
    rule_id: Text,
    severity: Severity,
    cwe: Option<Text>,
    description: Text,
    source: Text,
    start_byte: int,
    end_byte: int,
) -> Report {
    let len = encode_utf8(source).len() as int;
    let s = clamp(start_byte, len);
    let e = clamp(end_byte, len);
    plain_report(
        rule_id,
        severity,
        cwe,
        description,
        line_of(source, s),
        column_of(source, s),
        line_of(source, e),
        column_of(source, e),
        source_line_spec(source, s),
    )
}

/// The finding of a rule on a byte range of a file.
pub fn make_finding_from_offsets(
    rule_id: &str,
    severity: Severity,
    cwe: Option<&str>,
    description: &str,
    source: &str,
    start_byte: usize,
    end_byte: usize,
) -> (r: Finding)
    requires
        encode_utf8(source@).len() < usize::MAX,
    ensures
        r@ == offsets_report(
            rule_id@,
            severity,
            opt_view(cwe),
            description@,
            source@,
            start_byte as int,
            end_byte as int,
        ),
{
    let n: usize = source.as_bytes().len();
    let start: usize = if start_byte < n {
        start_byte
    } else {
        n
    };
    let end: usize = if end_byte < n {
        end_byte
    } else {
        n
    };
    plain_finding(
        rule_id,
        severity,
        cwe,
        description,
        line_number(source, start),
        column_number(source, start),
        line_number(source, end),
        column_number(source, end),
        get_source_line(source, start),
    )
}

/// The report of a rule on node `i` of a tree.
pub open spec fn node_report(
    rule_id: Text,
    severity: Severity,
    cwe: Option<Text>,
    description: Text,
    t: &SyntaxTree,
    i: int,
    source: Text,
) -> Report {
    let d = t.nodes@[i];
    plain_report(
        rule_id,
        severity,
        cwe,
        description,
        d.start_row + 1,
        d.start_column + 1,
        d.end_row + 1,
        d.end_column + 1,
        source_line_spec(source, d.start_byte as int),
    )
}

/// The finding of a rule on a node.
pub fn make_finding(
    rule_id: &str,
    severity: Severity,
    cwe: Option<&str>,
    description: &str,
    node: Node<'_>,
    source: &str,
) -> (r: Finding)
    requires
        node.valid(source@),
    ensures
        r@ == node_report(
            rule_id@,
            severity,
            opt_view(cwe),
            description@,
            node.tree,
            node.index as int,
            source@,
        ),
{
    reveal(SyntaxTree::wf);
    reveal(SyntaxTree::placed);
    let d = &node.tree.nodes[node.index];
    plain_finding(
        rule_id,
        severity,
        cwe,
        description,
        d.start_row + 1,
        d.start_column + 1,
        d.end_row + 1,
        d.end_column + 1,
        get_source_line(source, d.start_byte),
    )
}

// ─── Walking a tree ──────────────────────────────────────────────────────────
/// What is looked for at each node of a tree.
pub trait Visitor {
    /// What is known before the walk.
    type Data: View;

    /// What is found.
    type Found: View;

    /// What is found at node `i`.
    spec fn found(d: <Self::Data as View>::V, t: &SyntaxTree, i: int, src: Text) -> Seq<
        <Self::Found as View>::V,
    >;

    fn visit(data: &Self::Data, node: Node<'_>, source: &str, out: &mut Vec<Self::Found>)
        requires
            node.valid(source@),
        ensures
            views(final(out)@) == views(old(out)@) + Self::found(
                data@,
                node.tree,
                node.index as int,
                source@,
            ),
    ;
}

/// What is found at the nodes from `c` to before `e`, in pre-order.
pub open spec fn walked<V: Visitor>(
    d: <V::Data as View>::V,
    t: &SyntaxTree,
    c: int,
    e: int,
    src: Text,
) -> Seq<<V::Found as View>::V>
    decreases gap(c, e),
{
    if c >= e {
        Seq::empty()
    } else {
        V::found(d, t, c, src) + walked::<V>(d, t, c + 1, e, src)
    }
}

/// What is found in a file.
pub open spec fn found_in<V: Visitor>(d: <V::Data as View>::V, t: &SyntaxTree, src: Text) -> Seq<
    <V::Found as View>::V,
> {
    walked::<V>(d, t, 0, t.after(0), src)
}

/// Visits a node and its descendants in pre-order.
pub fn walk_tree<V: Visitor>(data: &V::Data, node: Node<'_>, source: &str) -> (out: Vec<V::Found>)
    requires
        node.valid(source@),
    ensures
        views(out@) == walked::<V>(
            data@,
            node.tree,
            node.index as int,
            node.tree.after(node.index as int),
            source@,
        ),
{
    let mut out: Vec<V::Found> = Vec::new();
    let e: usize = node.end();
    let mut c: usize = node.index;
    let ghost all = walked::<V>(data@, node.tree, c as int, e as int, source@);
    assert(views(out@) + all =~= all);
    while c < e
        invariant
            node.valid(source@),
            e <= node.tree.len(),
            views(out@) + walked::<V>(data@, node.tree, c as int, e as int, source@) == all,
        decreases gap(c as int, e as int),
    {
        let ghost before = views(out@);
        V::visit(data, node.at(c), source, &mut out);
        proof {
            let here = V::found(data@, node.tree, c as int, source@);
            let rest = walked::<V>(data@, node.tree, c + 1, e as int, source@);
            assert(before + here + rest =~= before + (here + rest));
        }
        c = c + 1;
    }
    assert(views(out@) + Seq::<<V::Found as View>::V>::empty() =~= views(out@));
    out
}

/// What the rule with these facts reports on node `i`.
pub open spec fn said_of_node(
    f: RuleFacts,
    description: Text,
    t: &SyntaxTree,
    i: int,
    src: Text,
) -> Report {
    node_report(f.id, f.severity, f.cwe, description, t, i, src)
}

/// What the rule with these facts reports on node `i`, where the condition holds.
pub open spec fn said_if(
    c: bool,
    f: RuleFacts,
    description: Text,
    t: &SyntaxTree,
    i: int,
    src: Text,
) -> Seq<Report> {
    if c {
        seq![said_of_node(f, description, t, i, src)]
    } else {
        Seq::empty()
    }
}

/// The finding of a rule on a node.
pub fn say_of_node(info: &RuleInfo, description: &str, node: Node<'_>, source: &str) -> (r: Finding)
    requires
        node.valid(source@),
    ensures
        r@ == said_of_node(info@, description@, node.tree, node.index as int, source@),
{
    make_finding(info.id, info.severity, info.cwe, description, node, source)
}

/// Adds the finding of a rule on a node, where the condition holds.
pub fn say_if(
    c: bool,
    info: &RuleInfo,
    description: &str,
    node: Node<'_>,
    source: &str,
    out: &mut Vec<Finding>,
)
    requires
        node.valid(source@),
    ensures
        views(final(out)@) == views(old(out)@) + said_if(
            c,
            info@,
            description@,
            node.tree,
            node.index as int,
            source@,
        ),
{
    if c {
        out.push(say_of_node(info, description, node, source));
    }
    assert(views(out@) =~= views(old(out)@) + said_if(
        c,
        info@,
        description@,
        node.tree,
        node.index as int,
        source@,
    ));
}

/// What the rule with these facts reports on a byte range.
pub open spec fn said_of_range(f: RuleFacts, description: Text, src: Text, range: (int, int)) -> Report {
    offsets_report(f.id, f.severity, f.cwe, description, src, range.0, range.1)
}

/// What the rule with these facts reports on each of the byte ranges.
pub open spec fn said_of_ranges(
    f: RuleFacts,
    description: Text,
    src: Text,
    ranges: Seq<(int, int)>,
) -> Seq<Report> {
    Seq::new(ranges.len(), |k: int| said_of_range(f, description, src, ranges[k]))
}

/// The findings of a rule on byte ranges.
pub fn say_of_ranges(
    info: &RuleInfo,
    description: &str,
    source: &str,
    ranges: &Vec<(usize, usize)>,
) -> (out: Vec<Finding>)
    requires
        encode_utf8(source@).len() < usize::MAX,
    ensures
        views(out@) == said_of_ranges(
            info@,
            description@,
            source@,
            crate::pattern::int_spans(ranges@),
        ),
{
    let mut out: Vec<Finding> = Vec::new();
    let ghost spans = crate::pattern::int_spans(ranges@);
    let ghost all = said_of_ranges(info@, description@, source@, spans);
    let mut k: usize = 0;
    while k < ranges.len()
        invariant
            k <= ranges@.len(),
            encode_utf8(source@).len() < usize::MAX,
            spans == crate::pattern::int_spans(ranges@),
            all == said_of_ranges(info@, description@, source@, spans),
            views(out@) =~= all.take(k as int),
        decreases ranges.len() - k,
    {
        let r = ranges[k];
        assert(spans[k as int] == (r.0 as int, r.1 as int));
        out.push(
            make_finding_from_offsets(
                info.id,
                info.severity,
                info.cwe,
                description,
                source,
                r.0,
                r.1,
            ),
        );
        k = k + 1;
    }
    assert(views(out@) =~= all);
    out
}

// ─── Confidence ──────────────────────────────────────────────────────────────
/// How sure a flow of so many steps is, in percent.
pub open spec fn hop_confidence(hops: int) -> int {
    if hops <= 1 {
        100
    } else if hops == 2 {
        80
    } else {
        60
    }
}

/// How sure a flow of so many steps is, in percent.
pub fn confidence_for_hops(hops: u8) -> (r: u8)
    ensures
        r == hop_confidence(hops as int),
{
    if hops <= 1 {
        100
    } else if hops == 2 {
        80
    } else {
        60
    }
}

/// A longer way from source to sink never makes a finding surer.
pub proof fn confidence_falls_with_hops(a: int, b: int)
    requires
        a <= b,
    ensures
        hop_confidence(b) <= hop_confidence(a),
{
}

} // verus!
