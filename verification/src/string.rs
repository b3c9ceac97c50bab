//! The grapheme-indexed string.

use crate::grapheme::{
    build_byte_index, build_graphemes, cluster_offsets, cluster_table, clusters, concat_range,
    grapheme_texts, lemma_clusters_at_most_chars, lemma_offsets_increase, segment,
    strictly_increasing, well_segmented, Grapheme,
};
use crate::locator::{
    first_at_or_after, index_keys, lemma_locate_monotone, lemma_scan_result, locate,
};
use crate::matching::GraphemeMatch;
use crate::pattern::{all_matches, first_match, search_all, search_first, spans_in_order};
use regex::Regex;
use vstd::prelude::*;
use vstd::std_specs::cmp::PartialEqSpecImpl;
use vstd::std_specs::convert::FromSpecImpl;
use vstd::string::StringExecFns;
use vstd::utf8::encode_utf8;

verus! {

/// The byte index of `text`: for each cluster, the byte offset at which
/// it starts paired with its position among the clusters.
pub open spec fn byte_index(text: Seq<char>) -> Seq<(usize, usize)> {
    Seq::new(cluster_table(text).len(), |i: int| (cluster_table(text)[i].0, i as usize))
}

/// The grapheme index that the byte offset `offset` of `text` resolves to:
/// the position of the first cluster that starts at or after `offset`,
/// and the number of clusters when none does.
pub open spec fn grapheme_index_at(text: Seq<char>, offset: usize) -> int {
    first_at_or_after(cluster_offsets(text), offset)
}

/// An index as it counts in a slice of `count` clusters: a negative `v`
/// stands for `count + v + 1`, so that `-1` is one past the last cluster.
pub open spec fn remap(count: int, v: int) -> int {
    if v < 0 {
        count + v + 1
    } else {
        v
    }
}

/// `needle` occurs in `hay`, byte for byte.
pub open spec fn occurs_in(needle: Seq<u8>, hay: Seq<u8>) -> bool {
    exists|i: int|
        0 <= i && i + needle.len() <= hay.len() && #[trigger] hay.subrange(
            i,
            i + needle.len(),
        ) == needle
}

/// `m` is the byte span `span` of `text` carried over to grapheme
/// indices: both ends resolved by the byte index, and the text rebuilt
/// from the clusters between them.
pub open spec fn translation(text: Seq<char>, span: (usize, usize), m: GraphemeMatch) -> bool {
    &&& m.start == grapheme_index_at(text, span.0)
    &&& m.end == grapheme_index_at(text, span.1)
    &&& m.text@ == concat_range(clusters(text), m.start as int, m.end as int)
}

/// The remapped index within a string of `count` clusters, where it lies
/// in `0..=count`.
pub fn resolve_index(count: usize, v: i32) -> (r: Option<usize>)
    ensures
        r is Some <==> 0 <= remap(count as int, v as int) <= count,
        r matches Some(i) ==> i == remap(count as int, v as int),
{
    if v < 0 {
        let back: usize = (-(v + 1)) as usize;
        if back <= count {
            Some(count - back)
        } else {
            None
        }
    } else {
        let at: usize = v as usize;
        if at <= count {
            Some(at)
        } else {
            None
        }
    }
}

/// Text whose length, positions and slices count grapheme clusters.
///
/// The clusters and the byte index are worked out once, when the value is
/// made, and never change afterwards.
#[derive(Debug, Hash)]
pub struct EzStr {
    data: String,
    graphemes_data: Vec<Grapheme>,
    grapheme_byte_index_data: Vec<(usize, usize)>,
}

impl View for EzStr {
    type V = Seq<char>;

    closed spec fn view(&self) -> Seq<char> {
        self.data@
    }
}

impl EzStr {
    #[verifier::type_invariant]
    spec fn caches_match_text(self) -> bool {
        &&& well_segmented(self.data@)
        &&& grapheme_texts(self.graphemes_data@) == clusters(self.data@)
        &&& self.grapheme_byte_index_data@ == byte_index(self.data@)
    }

    /// The stored cluster sequence.
    pub closed spec fn stored_graphemes(&self) -> Vec<Grapheme> {
        self.graphemes_data
    }

    /// The stored byte index.
    pub closed spec fn stored_byte_index(&self) -> Vec<(usize, usize)> {
        self.grapheme_byte_index_data
    }

    /// Takes a copy of `data` and segments it.
    pub fn new(data: &str) -> (s: EzStr)
        ensures
            s@ == data@,
            well_segmented(s@),
    {
        let table = segment(data);
        let graphemes_data = build_graphemes(&table);
        let grapheme_byte_index_data = build_byte_index(&table);
        let owned = data.to_owned();
        proof {
            assert(grapheme_texts(graphemes_data@) =~= clusters(data@));
            assert(grapheme_byte_index_data@ =~= byte_index(data@));
        }
        EzStr { data: owned, graphemes_data, grapheme_byte_index_data }
    }

    /// The raw text.
    pub fn as_str(&self) -> (r: &str)
        ensures
            r@ == self@,
    {
        self.data.as_str()
    }

    /// The clusters of the text, in order. Every call returns the same
    /// stored sequence.
    pub fn graphemes(&self) -> (r: &Vec<Grapheme>)
        ensures
            *r == self.stored_graphemes(),
            grapheme_texts(r@) == clusters(self@),
            well_segmented(self@),
    {
        proof {
            use_type_invariant(self);
        }
        &self.graphemes_data
    }

    /// The byte index of the text, sorted by byte offset. Every call
    /// returns the same stored sequence.
    pub fn graphemes_byte_index(&self) -> (r: &Vec<(usize, usize)>)
        ensures
            *r == self.stored_byte_index(),
            r@ == byte_index(self@),
            strictly_increasing(index_keys(r@)),
            well_segmented(self@),
    {
        proof {
            use_type_invariant(self);
            lemma_offsets_increase(self.data@);
            assert(index_keys(self.grapheme_byte_index_data@) =~= cluster_offsets(self.data@));
        }
        &self.grapheme_byte_index_data
    }

    /// The number of grapheme clusters, which never exceeds the number
    /// of code points.
    pub fn len(&self) -> (n: usize)
        ensures
            n == clusters(self@).len(),
            n <= self@.len(),
    {
        proof {
            use_type_invariant(self);
            lemma_clusters_at_most_chars(self@);
        }
        self.graphemes_data.len()
    }

    /// Whether the string holds no cluster.
    pub fn is_empty(&self) -> (b: bool)
        ensures
            b == (clusters(self@).len() == 0),
            b == (self@.len() == 0),
    {
        proof {
            use_type_invariant(self);
            lemma_clusters_at_most_chars(self@);
        }
        self.len() == 0
    }

    /// Resolves one byte offset to a grapheme index.
    pub fn grapheme_index_of(&self, offset: usize) -> (g: usize)
        ensures
            g == grapheme_index_at(self@, offset),
            g <= clusters(self@).len(),
    {
        proof {
            use_type_invariant(self);
            lemma_offsets_increase(self.data@);
            assert(index_keys(self.grapheme_byte_index_data@) =~= cluster_offsets(self.data@));
            lemma_scan_result(cluster_offsets(self.data@), offset, 0);
            let at = first_at_or_after(cluster_offsets(self.data@), offset);
            assert(self.grapheme_byte_index_data@.len() == self.grapheme_byte_index_data.len());
            if at < self.grapheme_byte_index_data@.len() {
                assert(self.grapheme_byte_index_data@[at] == byte_index(self.data@)[at]);
            }
        }
        locate(&self.grapheme_byte_index_data, offset)
    }

    /// Resolves both ends of a byte range to grapheme indices.
    pub fn byte_range_to_grapheme_indices(&self, start: usize, end: usize) -> (r: (usize, usize))
        ensures
            r.0 == grapheme_index_at(self@, start),
            r.1 == grapheme_index_at(self@, end),
            r.0 <= clusters(self@).len(),
            r.1 <= clusters(self@).len(),
            start <= end ==> r.0 <= r.1,
    {
        proof {
            if start <= end {
                lemma_locate_monotone(cluster_offsets(self@), start, end);
            }
        }
        (self.grapheme_index_of(start), self.grapheme_index_of(end))
    }

    /// The clusters from `from` up to, not including, `to`, as a string
    /// of their own; empty when `to <= from`.
    pub fn slice_range(&self, from: usize, to: usize) -> (r: EzStr)
        requires
            from <= clusters(self@).len(),
            to <= clusters(self@).len(),
        ensures
            r@ == concat_range(clusters(self@), from as int, to as int),
    {
        proof {
            use_type_invariant(self);
        }
        let ghost parts = clusters(self@);
        let mut ret = String::new();
        let mut i: usize = from;
        while i < to
            invariant
                from <= i,
                from <= to ==> i <= to,
                from > to ==> i == from,
                to <= self.graphemes_data.len(),
                parts == clusters(self@),
                grapheme_texts(self.graphemes_data@) == parts,
                ret@ == concat_range(parts, from as int, i as int),
            decreases to - i,
        {
            assert(parts[i as int] == self.graphemes_data[i as int].value@);
            ret.append(self.graphemes_data[i].value.as_str());
            i += 1;
        }
        EzStr::new(ret.as_str())
    }

    /// The clusters `[start, end)` as a string of their own. A negative
    /// index `v` stands for `len + v + 1`, so `-1` is one past the last
    /// cluster and `slice(0, -1)` is the whole string. Both indices must,
    /// after remapping, lie in `0..=len`.
    pub fn slice(&self, start: i32, end: i32) -> (r: EzStr)
        requires
            0 <= remap(clusters(self@).len() as int, start as int) <= clusters(self@).len(),
            0 <= remap(clusters(self@).len() as int, end as int) <= clusters(self@).len(),
        ensures
            r@ == concat_range(
                clusters(self@),
                remap(clusters(self@).len() as int, start as int),
                remap(clusters(self@).len() as int, end as int),
            ),
            start == 0 && end == -1 ==> r@ == self@,
    {
        proof {
            use_type_invariant(self);
        }
        let count = self.len();
        let from = resolve_index(count, start);
        let to = resolve_index(count, end);
        self.slice_range(from.unwrap(), to.unwrap())
    }

    /// As [`EzStr::slice`], for any pair of indices: `None` exactly when
    /// one of them, after remapping, lies outside `0..=len`.
    pub fn try_slice(&self, start: i32, end: i32) -> (r: Option<EzStr>)
        ensures
            r is Some <==> {
                &&& 0 <= remap(clusters(self@).len() as int, start as int) <= clusters(self@).len()
                &&& 0 <= remap(clusters(self@).len() as int, end as int) <= clusters(self@).len()
            },
            r matches Some(s) ==> s@ == concat_range(
                clusters(self@),
                remap(clusters(self@).len() as int, start as int),
                remap(clusters(self@).len() as int, end as int),
            ),
    {
        let count = self.len();
        if resolve_index(count, start).is_some() && resolve_index(count, end).is_some() {
            Some(self.slice(start, end))
        } else {
            None
        }
    }

    /// Whether `substring` occurs in the raw text, byte for byte. This
    /// looks at bytes only and takes no account of cluster boundaries.
    pub fn contains(&self, substring: &str) -> (b: bool)
        ensures
            b == occurs_in(encode_utf8(substring@), encode_utf8(self@)),
    {
        has_substring(self.data.as_str(), substring)
    }

    /// The byte span `[b_start, b_end)` of this string as a match in
    /// grapheme indices. The text of the match is rebuilt from whole
    /// clusters, so it may be longer than the bytes of the span where
    /// the span cuts through a cluster.
    pub fn translate_match(&self, b_start: usize, b_end: usize) -> (m: GraphemeMatch)
        ensures
            translation(self@, (b_start, b_end), m),
            b_start <= b_end ==> m.valid_in(self@),
    {
        let (g_start, g_end) = self.byte_range_to_grapheme_indices(b_start, b_end);
        GraphemeMatch::new(g_start, g_end, self.slice_range(g_start, g_end))
    }

    /// The first match of `regex` in the raw text, in grapheme indices.
    pub fn find(&self, regex: &Regex) -> (r: Option<GraphemeMatch>)
        ensures
            match first_match(*regex, self@) {
                Some(span) => r matches Some(m) && translation(self@, span, m) && m.valid_in(
                    self@,
                ),
                None => r is None,
            },
    {
        match search_first(regex, self.data.as_str()) {
            Some((b_start, b_end)) => Some(self.translate_match(b_start, b_end)),
            None => None,
        }
    }

    /// Same as [`EzStr::find`].
    #[allow(non_snake_case)]
    pub fn findOLD(&self, regex: &Regex) -> (r: Option<GraphemeMatch>)
        ensures
            match first_match(*regex, self@) {
                Some(span) => r matches Some(m) && translation(self@, span, m) && m.valid_in(
                    self@,
                ),
                None => r is None,
            },
    {
        self.find(regex)
    }

    /// All non-overlapping matches of `regex` in the raw text, from left
    /// to right, in grapheme indices.
    pub fn find_iter(&self, regex: &Regex) -> (r: Vec<GraphemeMatch>)
        ensures
            r.len() == all_matches(*regex, self@).len(),
            forall|i: int|
                0 <= i < r.len() ==> translation(self@, all_matches(*regex, self@)[i], #[trigger] r[i])
                    && r[i].valid_in(self@),
            forall|i: int| 0 <= i < r.len() - 1 ==> (#[trigger] r[i]).end <= r[i + 1].start,
    {
        let spans = search_all(regex, self.data.as_str());
        let mut found: Vec<GraphemeMatch> = Vec::new();
        let mut i: usize = 0;
        while i < spans.len()
            invariant
                i <= spans.len(),
                found.len() == i,
                spans@ == all_matches(*regex, self@),
                spans_in_order(spans@),
                forall|k: int|
                    0 <= k < i ==> translation(self@, spans[k], #[trigger] found[k])
                        && found[k].valid_in(self@),
            decreases spans.len() - i,
        {
            let m = self.translate_match(spans[i].0, spans[i].1);
            found.push(m);
            i += 1;
        }
        proof {
            assert forall|k: int| 0 <= k < found.len() - 1 implies (#[trigger] found[k]).end
                <= found[k + 1].start by {
                lemma_locate_monotone(cluster_offsets(self@), spans[k].1, spans[k + 1].0);
            }
        }
        found
    }
}

/// Calls `str::contains` with a string as the pattern. Trusted: the
/// result tells whether the bytes of `needle` occur as a contiguous run
/// among the bytes of `hay`.
#[verifier::external_body]
fn has_substring(hay: &str, needle: &str) -> (b: bool)
    ensures
        b == occurs_in(encode_utf8(needle@), encode_utf8(hay@)),
{
    hay.contains(needle)
}

impl Clone for EzStr {
    /// A string with the same raw text.
    fn clone(&self) -> (r: Self)
        ensures
            r@ == self@,
    {
        EzStr::new(self.data.as_str())
    }
}

impl<'a> From<&'a str> for EzStr {
    /// A string with a copy of `item` as its raw text.
    fn from(item: &'a str) -> (r: EzStr)
        ensures
            r@ == item@,
    {
        EzStr::new(item)
    }
}

/// The conversion fixes the text of its result and nothing beyond it, so
/// it names no value that the result would have to equal.
impl<'a> FromSpecImpl<&'a str> for EzStr {
    open spec fn obeys_from_spec() -> bool {
        false
    }

    open spec fn from_spec(v: &'a str) -> EzStr {
        arbitrary()
    }
}

impl From<String> for EzStr {
    /// A string with the text of `item` as its raw text.
    fn from(item: String) -> (r: EzStr)
        ensures
            r@ == item@,
    {
        EzStr::new(item.as_str())
    }
}

/// As for `&str`: only the text of the result is fixed.
impl FromSpecImpl<String> for EzStr {
    open spec fn obeys_from_spec() -> bool {
        false
    }

    open spec fn from_spec(v: String) -> EzStr {
        arbitrary()
    }
}

impl PartialEq for EzStr {
    /// Two strings are equal when their raw texts are.
    fn eq(&self, other: &Self) -> (r: bool) {
        self.data == other.data
    }
}

impl Eq for EzStr {

}

impl Default for EzStr {
    /// The empty string.
    fn default() -> (r: EzStr)
        ensures
            r@ == Seq::<char>::empty(),
    {
        let empty = String::new();
        EzStr::new(empty.as_str())
    }
}

impl PartialEqSpecImpl for EzStr {
    open spec fn obeys_eq_spec() -> bool {
        true
    }

    open spec fn eq_spec(&self, other: &Self) -> bool {
        self@ == other@
    }
}

} // verus!
