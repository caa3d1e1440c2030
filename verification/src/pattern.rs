//! Regular expressions, through the `regex` crate.
use crate::text::{concat3, is_byte_range, opt_view, Text};
use vstd::prelude::*;

verus! {

/// Whether the regular expression `pattern` matches somewhere in `text`: nothing
/// where `pattern` is no regular expression.
pub uninterp spec fn regex_verdict(pattern: Seq<char>, text: Seq<char>) -> Option<bool>;

/// The byte ranges of the successive matches of `pattern` in `text`: nothing
/// where `pattern` is no regular expression.
pub uninterp spec fn regex_spans(pattern: Seq<char>, text: Seq<char>) -> Option<Seq<(int, int)>>;

/// Why `pattern` is no regular expression, in words: nothing where it is one.
pub uninterp spec fn regex_error(pattern: Seq<char>) -> Option<Seq<char>>;

/// Pairs of offsets as integers.
pub open spec fn int_spans(s: Seq<(usize, usize)>) -> Seq<(int, int)> {
    s.map_values(|p: (usize, usize)| (p.0 as int, p.1 as int))
}

/// Calls `regex::Regex::new` and puts its error into words. Claims that the error depends
/// on the pattern alone.
#[verifier::external_body]
pub(crate) fn regex_complaint(pattern: &str) -> (r: Option<String>)
    ensures
        opt_view(r) == regex_error(pattern@),
{
    match regex::Regex::new(pattern) {
        Ok(_) => None,
        Err(e) => Some(e.to_string()),
    }
}

/// Calls `regex::Regex::new` and `Regex::is_match`. Claims that the answer
/// depends on the pattern and the text alone, and that there is one unless the
/// pattern is no regular expression.
#[verifier::external_body]
pub(crate) fn regex_is_match(pattern: &str, text: &str) -> (r: Option<bool>)
    ensures
        r == regex_verdict(pattern@, text@),
        r is None == regex_error(pattern@) is Some,
{
    match regex::Regex::new(pattern) {
        Ok(re) => Some(re.is_match(text)),
        Err(_) => None,
    }
}

/// Calls `regex::Regex::new` and `Regex::find_iter`. Claims that the ranges
/// depend on the pattern and the text alone, that there are none only where the
/// pattern is no regular expression, that each is a range of the text on
/// character boundaries, and that they come in order and do not overlap.
#[verifier::external_body]
pub(crate) fn regex_find_iter(pattern: &str, text: &str) -> (r: Option<Vec<(usize, usize)>>)
    ensures
        match r {
            Some(v) => regex_spans(pattern@, text@) == Some(int_spans(v@)),
            None => regex_spans(pattern@, text@) is None,
        },
        r is None == regex_error(pattern@) is Some,
        r matches Some(v) ==> forall|k: int| #![trigger v@[k]]
            0 <= k < v@.len() ==> is_byte_range(text@, v@[k].0 as int, v@[k].1 as int),
        r matches Some(v) ==> forall|j: int, k: int| #![trigger v@[j], v@[k]]
            0 <= j < k < v@.len() ==> v@[j].1 <= v@[k].0,
{
    match regex::Regex::new(pattern) {
        Ok(re) => Some(re.find_iter(text).map(|m| (m.start(), m.end())).collect()),
        Err(_) => None,
    }
}

/// Whether `pattern` is a regular expression that matches somewhere in `text`.
pub open spec fn regex_matches(pattern: Text, text: Text) -> bool {
    regex_verdict(pattern, text) == Some(true)
}

/// Whether `pattern` is a regular expression that matches somewhere in `text`.
pub fn is_regex_match(pattern: &str, text: &str) -> (r: bool)
    ensures
        r == regex_matches(pattern@, text@),
{
    match regex_is_match(pattern, text) {
        Some(b) => b,
        None => false,
    }
}

/// The successive matches of `pattern` in `text`; none where `pattern` is no
/// regular expression.
pub open spec fn regex_found(pattern: Text, text: Text) -> Seq<(int, int)> {
    match regex_spans(pattern, text) {
        Some(v) => v,
        None => Seq::empty(),
    }
}

/// The successive matches of `pattern` in `text`; none where `pattern` is no
/// regular expression.
pub fn find_spans(pattern: &str, text: &str) -> (r: Vec<(usize, usize)>)
    ensures
        int_spans(r@) == regex_found(pattern@, text@),
        forall|k: int| #![trigger r@[k]]
            0 <= k < r@.len() ==> is_byte_range(text@, r@[k].0 as int, r@[k].1 as int),
        forall|j: int, k: int| #![trigger r@[j], r@[k]]
            0 <= j < k < r@.len() ==> r@[j].1 <= r@[k].0,
{
    match regex_find_iter(pattern, text) {
        Some(v) => v,
        None => {
            let v: Vec<(usize, usize)> = Vec::new();
            assert(int_spans(v@) =~= Seq::empty());
            v
        },
    }
}

/// The message for a pattern that is no regular expression.
pub open spec fn invalid_regex(pattern: Text, error: Text) -> Text {
    "Invalid pattern-regex '"@ + pattern + "': "@ + error
}

/// Checks that `pattern` is a regular expression.
pub fn compile_regex(pattern: &str) -> (r: Result<String, String>)
    ensures
        match r {
            Ok(p) => regex_error(pattern@) is None && p@ == pattern@,
            Err(e) => regex_error(pattern@) is Some && e@ == invalid_regex(
                pattern@,
                regex_error(pattern@)->0,
            ),
        },
{
    match regex_complaint(pattern) {
        None => Ok(pattern.to_owned()),
        Some(e) => {
            let mut message = concat3("Invalid pattern-regex '", pattern, "': ");
            crate::text::append(&mut message, e.as_str());
            Err(message)
        },
    }
}

} // verus!
