//! Grapheme clusters and the segmentation of a text into them.

use unicode_segmentation::UnicodeSegmentation;
use vstd::prelude::*;
use vstd::utf8::{encode_scalar, encode_utf8};

verus! {

/// One user-perceived character: the text of a single extended grapheme cluster.
#[derive(Debug, Clone, PartialEq, Eq, Hash)]
pub struct Grapheme {
    pub value: String,
}

impl Grapheme {
    /// Wraps a copy of `value`.
    pub fn new(value: &str) -> (g: Grapheme)
        ensures
            g.value@ == value@,
    {
        Grapheme { value: value.to_owned() }
    }
}

/// The extended grapheme clusters of `text` in order, each with the byte
/// offset at which it starts, as Unicode segmentation yields them.
pub uninterp spec fn cluster_table(text: Seq<char>) -> Seq<(usize, Seq<char>)>;

/// The cluster texts of a table, in order.
pub open spec fn table_texts(table: Seq<(usize, Seq<char>)>) -> Seq<Seq<char>> {
    Seq::new(table.len(), |i: int| table[i].1)
}

/// The byte offsets of a table, in order.
pub open spec fn table_offsets(table: Seq<(usize, Seq<char>)>) -> Seq<usize> {
    Seq::new(table.len(), |i: int| table[i].0)
}

/// The cluster texts of `text`, in order.
pub open spec fn clusters(text: Seq<char>) -> Seq<Seq<char>> {
    table_texts(cluster_table(text))
}

/// The starting byte offset of each cluster of `text`, in order.
pub open spec fn cluster_offsets(text: Seq<char>) -> Seq<usize> {
    table_offsets(cluster_table(text))
}

/// The concatenation of `parts[lo]`, ..., `parts[hi - 1]`; empty when the
/// range is empty or does not lie within `parts`.
pub open spec fn concat_range(parts: Seq<Seq<char>>, lo: int, hi: int) -> Seq<char>
    decreases hi - lo,
{
    if lo < 0 || hi > parts.len() || hi <= lo {
        Seq::empty()
    } else {
        concat_range(parts, lo, hi - 1) + parts[hi - 1]
    }
}

/// Each key is smaller than every later one.
pub open spec fn strictly_increasing(keys: Seq<usize>) -> bool {
    forall|i: int, j: int| 0 <= i < j < keys.len() ==> keys[i] < keys[j]
}

/// The number of bytes that `text` takes in UTF-8.
pub open spec fn byte_len(text: Seq<char>) -> nat {
    encode_utf8(text).len()
}

/// What makes a table a segmentation of `text`: its clusters are
/// non-empty, each is recorded with the number of bytes that the clusters
/// in front of it take, and together they spell the text.
pub open spec fn is_segmentation(text: Seq<char>, table: Seq<(usize, Seq<char>)>) -> bool {
    &&& forall|i: int| 0 <= i < table.len() ==> (#[trigger] table[i]).1.len() > 0
    &&& forall|i: int|
        0 <= i < table.len() ==> (#[trigger] table[i]).0 == byte_len(
            concat_range(table_texts(table), 0, i),
        )
    &&& concat_range(table_texts(table), 0, table.len() as int) == text
}

/// The cluster table of `text` is a segmentation of it.
pub open spec fn well_segmented(text: Seq<char>) -> bool {
    is_segmentation(text, cluster_table(text))
}

/// A table as plain values: each cluster by its characters.
pub open spec fn table_view(table: Seq<(usize, Grapheme)>) -> Seq<(usize, Seq<char>)> {
    Seq::new(table.len(), |i: int| (table[i].0, table[i].1.value@))
}

/// The texts held by a run of graphemes.
pub open spec fn grapheme_texts(graphemes: Seq<Grapheme>) -> Seq<Seq<char>> {
    Seq::new(graphemes.len(), |i: int| graphemes[i].value@)
}

/// Calls `UnicodeSegmentation::grapheme_indices` with extended clusters
/// switched on and collects what it yields. Trusted: the result is the
/// cluster table of `text`, and it is a segmentation of `text` in the
/// sense of [`is_segmentation`]. The iterator walks the text from its
/// first byte to its last, cutting it at successive cluster boundaries,
/// and reports each non-empty piece with the byte offset it starts at.
#[verifier::external_body]
pub(crate) fn segment(text: &str) -> (table: Vec<(usize, Grapheme)>)
    ensures
        table_view(table@) == cluster_table(text@),
        is_segmentation(text@, table_view(table@)),
{
    text.grapheme_indices(true).map(|(offset, cluster)| (offset, Grapheme::new(cluster))).collect()
}

/// The bytes of a concatenation are the bytes of its two halves.
pub proof fn lemma_byte_len_concat(a: Seq<char>, b: Seq<char>)
    ensures
        byte_len(a + b) == byte_len(a) + byte_len(b),
    decreases a.len(),
{
    if a.len() == 0 {
        assert(a + b =~= b);
    } else {
        assert((a + b).drop_first() =~= a.drop_first() + b);
        assert((a + b)[0] == a[0]);
        lemma_byte_len_concat(a.drop_first(), b);
    }
}

/// A text that is not empty takes at least one byte.
pub proof fn lemma_byte_len_positive(a: Seq<char>)
    requires
        a.len() > 0,
    ensures
        byte_len(a) > 0,
{
    assert(encode_scalar(a[0] as u32).len() > 0);
}

/// With non-empty parts, a longer run of leading parts takes more bytes.
pub proof fn lemma_prefix_bytes_increase(parts: Seq<Seq<char>>, i: int, j: int)
    requires
        0 <= i < j <= parts.len(),
        forall|k: int| 0 <= k < parts.len() ==> (#[trigger] parts[k]).len() > 0,
    ensures
        byte_len(concat_range(parts, 0, i)) < byte_len(concat_range(parts, 0, j)),
    decreases j - i,
{
    lemma_byte_len_concat(concat_range(parts, 0, j - 1), parts[j - 1]);
    lemma_byte_len_positive(parts[j - 1]);
    if i < j - 1 {
        lemma_prefix_bytes_increase(parts, i, j - 1);
    }
}

/// The clusters of a segmented text start at strictly increasing byte
/// offsets, the first of them at zero and all of them within the text.
pub proof fn lemma_offsets_increase(text: Seq<char>)
    requires
        well_segmented(text),
    ensures
        strictly_increasing(cluster_offsets(text)),
        cluster_offsets(text).len() > 0 ==> cluster_offsets(text)[0] == 0,
        forall|i: int|
            0 <= i < cluster_offsets(text).len() ==> (#[trigger] cluster_offsets(text)[i])
                < byte_len(text),
{
    let table = cluster_table(text);
    let parts = clusters(text);
    let offsets = cluster_offsets(text);
    assert forall|k: int| 0 <= k < parts.len() implies (#[trigger] parts[k]).len() > 0 by {
        assert(table[k].1.len() > 0);
    }
    assert forall|i: int, j: int| 0 <= i < j < offsets.len() implies offsets[i] < offsets[j] by {
        assert(table[i].0 == byte_len(concat_range(parts, 0, i)));
        assert(table[j].0 == byte_len(concat_range(parts, 0, j)));
        lemma_prefix_bytes_increase(parts, i, j);
    }
    assert forall|i: int| 0 <= i < offsets.len() implies (#[trigger] offsets[i]) < byte_len(
        text,
    ) by {
        assert(table[i].0 == byte_len(concat_range(parts, 0, i)));
        lemma_prefix_bytes_increase(parts, i, parts.len() as int);
    }
    if offsets.len() > 0 {
        assert(table[0].0 == byte_len(concat_range(parts, 0, 0)));
    }
}

/// Non-empty parts make a concatenation at least as long as their number.
pub proof fn lemma_concat_at_least_count(parts: Seq<Seq<char>>, hi: int)
    requires
        0 <= hi <= parts.len(),
        forall|i: int| 0 <= i < parts.len() ==> (#[trigger] parts[i]).len() > 0,
    ensures
        concat_range(parts, 0, hi).len() >= hi,
    decreases hi,
{
    if hi > 0 {
        lemma_concat_at_least_count(parts, hi - 1);
    }
}

/// A segmented text has at most as many clusters as code points, and
/// has no cluster exactly when it is empty.
pub proof fn lemma_clusters_at_most_chars(text: Seq<char>)
    requires
        well_segmented(text),
    ensures
        clusters(text).len() <= text.len(),
        clusters(text).len() == 0 <==> text.len() == 0,
{
    let parts = clusters(text);
    assert forall|i: int| 0 <= i < parts.len() implies (#[trigger] parts[i]).len() > 0 by {
        assert(cluster_table(text)[i].1.len() > 0);
    }
    lemma_concat_at_least_count(parts, parts.len() as int);
}

/// The graphemes of a segmented text, one per table entry.
pub fn build_graphemes(table: &Vec<(usize, Grapheme)>) -> (graphemes: Vec<Grapheme>)
    ensures
        graphemes.len() == table.len(),
        forall|i: int|
            0 <= i < table.len() ==> (#[trigger] graphemes[i]).value@ == table[i].1.value@,
{
    let mut graphemes: Vec<Grapheme> = Vec::new();
    let mut i: usize = 0;
    while i < table.len()
        invariant
            i <= table.len(),
            graphemes.len() == i,
            forall|k: int| 0 <= k < i ==> (#[trigger] graphemes[k]).value@ == table[k].1.value@,
        decreases table.len() - i,
    {
        graphemes.push(Grapheme::new(table[i].1.value.as_str()));
        i += 1;
    }
    graphemes
}

/// The byte index of a segmented text: for each table entry, its byte
/// offset paired with its position.
pub fn build_byte_index(table: &Vec<(usize, Grapheme)>) -> (index: Vec<(usize, usize)>)
    ensures
        index.len() == table.len(),
        forall|i: int| 0 <= i < table.len() ==> (#[trigger] index[i]) == (table[i].0, i as usize),
{
    let mut index: Vec<(usize, usize)> = Vec::new();
    let mut i: usize = 0;
    while i < table.len()
        invariant
            i <= table.len(),
            index.len() == i,
            forall|k: int| 0 <= k < i ==> (#[trigger] index[k]) == (table[k].0, k as usize),
        decreases table.len() - i,
    {
        index.push((table[i].0, i));
        i += 1;
    }
    index
}

} // verus!
