//! Matches in grapheme indices, and their validation against a source.

use crate::grapheme::{clusters, concat_range};
use crate::pattern::{
    all_matches, compile, compiled, escape_literal, escaped, search_all, spans_in_order,
};
use crate::string::EzStr;
use vstd::prelude::*;

verus! {

/// A match: the clusters `[start, end)` of some source, with their text.
/// The text is owned, and nothing ties the value to its source: whether
/// the three fit a given source is what [`GraphemeMatch::is_valid`] tells.
#[derive(Debug, Clone, PartialEq, Eq, Hash, Default)]
pub struct GraphemeMatch {
    pub start: usize,
    pub end: usize,
    pub text: EzStr,
}

/// Why a match does not fit a source.
#[derive(Debug, Clone, PartialEq, Eq)]
pub struct InvalidMatch {
    /// The text that the match records.
    pub expected: EzStr,
    /// What the source holds at the recorded range, where both ends lie
    /// within the source.
    pub found: Option<EzStr>,
    /// The byte spans at which the recorded text, read as a literal,
    /// does occur in the source.
    pub hits: Vec<(usize, usize)>,
}

/// The byte spans that a search for `text`, read as a literal, finds in
/// `source`: the matches of the escaped text as a pattern, and none where
/// the escaped text does not compile.
pub open spec fn literal_hits(text: Seq<char>, source: Seq<char>) -> Seq<(usize, usize)> {
    match compiled(escaped(text)) {
        Some(regex) => all_matches(regex, source),
        None => Seq::empty(),
    }
}

/// The byte spans at which `text` occurs in `source` when every pattern
/// metacharacter in it is escaped; none when the escaped text cannot be
/// compiled.
pub fn literal_occurrences(text: &str, source: &str) -> (hits: Vec<(usize, usize)>)
    ensures
        hits@ == literal_hits(text@, source@),
        spans_in_order(hits@),
{
    let literal = escape_literal(text);
    match compile(literal.as_str()) {
        Ok(regex) => search_all(&regex, source),
        Err(_) => Vec::new(),
    }
}

impl GraphemeMatch {
    /// Both ends of the recorded range lie within the clusters of `source`.
    pub open spec fn ends_within(self, source: Seq<char>) -> bool {
        self.start <= clusters(source).len() && self.end <= clusters(source).len()
    }

    /// `report` says of this match and `source` what a diagnosis must:
    /// the recorded text, and the slice at the recorded range where
    /// there is one.
    pub open spec fn diagnosed_by(self, source: Seq<char>, report: InvalidMatch) -> bool {
        &&& report.expected@ == self.text@
        &&& report.found is Some <==> self.ends_within(source)
        &&& report.found matches Some(found) ==> found@ == concat_range(
            clusters(source),
            self.start as int,
            self.end as int,
        )
    }

    /// The match fits `source`: its range lies within the clusters of
    /// `source`, and those clusters spell its text.
    pub open spec fn valid_in(self, source: Seq<char>) -> bool {
        &&& self.start <= self.end <= clusters(source).len()
        &&& concat_range(clusters(source), self.start as int, self.end as int) == self.text@
    }

    /// A match with the given fields, taken as they are.
    pub fn new(start: usize, end: usize, text: EzStr) -> (m: GraphemeMatch)
        ensures
            m.start == start,
            m.end == end,
            m.text == text,
    {
        GraphemeMatch { start, end, text }
    }

    /// The matched text.
    pub fn as_str(&self) -> (r: &str)
        ensures
            r@ == self.text@,
    {
        self.text.as_str()
    }

    /// A copy of the matched text as a string of its own.
    pub fn to_ezstr(&self) -> (r: EzStr)
        ensures
            r@ == self.text@,
    {
        EzStr::new(self.text.as_str())
    }

    /// Slices `source` at the recorded range and compares the result
    /// with the recorded text.
    pub fn is_valid(&self, source: &EzStr) -> (b: bool)
        ensures
            b == self.valid_in(source@),
    {
        if self.start <= self.end && self.end <= source.len() {
            let found = source.slice_range(self.start, self.end);
            found == self.text
        } else {
            false
        }
    }

    /// The diagnosis of this match against `source`, carrying `hits` as
    /// the places where the recorded text was found instead.
    pub fn diagnose(&self, source: &EzStr, hits: Vec<(usize, usize)>) -> (report: InvalidMatch)
        ensures
            self.diagnosed_by(source@, report),
            report.hits == hits,
    {
        let count = source.len();
        let found = if self.start <= count && self.end <= count {
            Some(source.slice_range(self.start, self.end))
        } else {
            None
        };
        InvalidMatch { expected: self.to_ezstr(), found, hits }
    }

    /// Validates the match against `source` as [`GraphemeMatch::is_valid`]
    /// does. Where it does not fit, the error tells what the source holds
    /// at the recorded range and where the recorded text, searched for as
    /// a literal, occurs in the source.
    pub fn ensure_is_valid(&self, source: &EzStr) -> (r: Result<(), InvalidMatch>)
        ensures
            r is Ok <==> self.valid_in(source@),
            r matches Err(report) ==> self.diagnosed_by(source@, report) && report.hits@
                == literal_hits(self.text@, source@),
    {
        if self.is_valid(source) {
            Ok(())
        } else {
            let hits = literal_occurrences(self.as_str(), source.as_str());
            Err(self.diagnose(source, hits))
        }
    }
}

} // verus!
