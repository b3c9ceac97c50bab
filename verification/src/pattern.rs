//! The pattern engine, as far as this library relies on it.
//!
//! Compiled patterns are opaque here. Everything in this module is
//! trusted rather than proved: it states what the engine is documented
//! to return.

use regex::Regex;
use vstd::prelude::*;

verus! {

#[verifier::external_type_specification]
#[verifier::external_body]
pub struct ExRegex(Regex);

#[verifier::external_type_specification]
#[verifier::external_body]
pub struct ExRegexError(regex::Error);

/// The byte span of the leftmost match of `regex` in `text`, if there is one.
pub uninterp spec fn first_match(regex: Regex, text: Seq<char>) -> Option<(usize, usize)>;

/// The byte spans of the successive non-overlapping matches of `regex` in
/// `text`, from left to right.
pub uninterp spec fn all_matches(regex: Regex, text: Seq<char>) -> Seq<(usize, usize)>;

/// `pattern` with every pattern metacharacter escaped, so that it reads
/// as a literal.
pub uninterp spec fn escaped(pattern: Seq<char>) -> Seq<char>;

/// The pattern engine's compiled form of `pattern`, where it compiles.
pub uninterp spec fn compiled(pattern: Seq<char>) -> Option<Regex>;

/// Every span ends no earlier than it starts, and no span starts before
/// the one in front of it has ended.
pub open spec fn spans_in_order(spans: Seq<(usize, usize)>) -> bool {
    &&& forall|i: int| 0 <= i < spans.len() ==> (#[trigger] spans[i]).0 <= spans[i].1
    &&& forall|i: int| 0 <= i < spans.len() - 1 ==> (#[trigger] spans[i]).1 <= spans[i + 1].0
}

/// Calls `Regex::find`. Trusted: the result is the first match of the
/// pattern in `text` as a pair of byte offsets, and a match never ends
/// before it starts.
#[verifier::external_body]
pub(crate) fn search_first(regex: &Regex, text: &str) -> (span: Option<(usize, usize)>)
    ensures
        span == first_match(*regex, text@),
        span matches Some(s) ==> s.0 <= s.1,
{
    regex.find(text).map(|m| (m.start(), m.end()))
}

/// Calls `Regex::find_iter` and collects the byte offsets of what it
/// yields. Trusted: the result is the sequence of all matches of the
/// pattern in `text`; the matches come from left to right and do not
/// overlap, and none ends before it starts.
#[verifier::external_body]
pub(crate) fn search_all(regex: &Regex, text: &str) -> (spans: Vec<(usize, usize)>)
    ensures
        spans@ == all_matches(*regex, text@),
        spans_in_order(spans@),
{
    regex.find_iter(text).map(|m| (m.start(), m.end())).collect()
}

/// Calls `regex::escape`. Trusted: the result is the escaped form of
/// `pattern`.
#[verifier::external_body]
pub(crate) fn escape_literal(pattern: &str) -> (out: String)
    ensures
        out@ == escaped(pattern@),
{
    regex::escape(pattern)
}

/// Calls `Regex::new`. Trusted: the outcome is the compiled form of
/// `pattern`, and an error exactly where there is none. Nothing is
/// claimed of when compilation succeeds: it fails on a malformed pattern
/// and on one that compiles to too large a program.
#[verifier::external_body]
pub(crate) fn compile(pattern: &str) -> (outcome: Result<Regex, regex::Error>)
    ensures
        match outcome {
            Ok(regex) => compiled(pattern@) == Some(regex),
            Err(_) => compiled(pattern@) is None,
        },
{
    Regex::new(pattern)
}

} // verus!
