//! Laws that hold across the operations of the library.

use crate::grapheme::{
    cluster_offsets, clusters, concat_range, lemma_clusters_at_most_chars, lemma_offsets_increase,
    well_segmented,
};
use crate::locator::{lemma_locate_monotone, lemma_scan_unique};
use crate::matching::GraphemeMatch;
use crate::string::{grapheme_index_at, remap, translation};
use vstd::prelude::*;

verus! {

/// Slicing from `0` to `-1` gives the whole text back: `-1` is remapped
/// to the number of clusters, and all the clusters together spell the
/// text.
pub proof fn law_identity_slice(text: Seq<char>)
    requires
        well_segmented(text),
    ensures
        remap(clusters(text).len() as int, 0) == 0,
        remap(clusters(text).len() as int, -1) == clusters(text).len(),
        concat_range(
            clusters(text),
            remap(clusters(text).len() as int, 0),
            remap(clusters(text).len() as int, -1),
        ) == text,
{
}

/// The length in clusters never exceeds the length in code points, and
/// is zero for the empty text only.
pub proof fn law_length_counts_clusters(text: Seq<char>)
    requires
        well_segmented(text),
    ensures
        clusters(text).len() <= text.len(),
        clusters(text).len() == 0 <==> text.len() == 0,
{
    lemma_clusters_at_most_chars(text);
}

/// Every byte offset resolves to a grapheme index between zero and the
/// number of clusters, and a larger offset never resolves to a smaller
/// index.
pub proof fn law_locator_total_and_monotone(text: Seq<char>, a: usize, b: usize)
    requires
        a <= b,
    ensures
        0 <= grapheme_index_at(text, a) <= grapheme_index_at(text, b) <= clusters(text).len(),
{
    lemma_locate_monotone(cluster_offsets(text), a, b);
}

/// A byte offset at which a cluster starts resolves to that cluster.
pub proof fn law_cluster_start_resolves_to_cluster(text: Seq<char>, i: int)
    requires
        well_segmented(text),
        0 <= i < clusters(text).len(),
    ensures
        grapheme_index_at(text, cluster_offsets(text)[i]) == i,
{
    lemma_offsets_increase(text);
    lemma_scan_unique(cluster_offsets(text), cluster_offsets(text)[i], 0, i);
}

/// A byte offset past the start of a cluster, and not past the start of
/// the next one, resolves to the next one; past the start of the last
/// cluster it resolves to the number of clusters.
pub proof fn law_offset_within_cluster_resolves_to_next(text: Seq<char>, i: int, offset: usize)
    requires
        well_segmented(text),
        0 <= i < clusters(text).len(),
        cluster_offsets(text)[i] < offset,
        i + 1 < clusters(text).len() ==> offset <= cluster_offsets(text)[i + 1],
    ensures
        grapheme_index_at(text, offset) == i + 1,
{
    lemma_offsets_increase(text);
    let offsets = cluster_offsets(text);
    assert forall|j: int| 0 <= j < i + 1 implies offsets[j] < offset by {
        if j < i {
            assert(offsets[j] < offsets[i]);
        }
    }
    lemma_scan_unique(offsets, offset, 0, i + 1);
}

/// A match that carries a byte span of a source over to grapheme indices
/// fits that source.
pub proof fn law_translated_match_is_valid(source: Seq<char>, span: (usize, usize), m: GraphemeMatch)
    requires
        span.0 <= span.1,
        translation(source, span, m),
    ensures
        m.valid_in(source),
{
    lemma_locate_monotone(cluster_offsets(source), span.0, span.1);
}

} // verus!
