//! Lookup from a byte offset to the grapheme index it falls in or before.

use vstd::prelude::*;

verus! {

/// The byte offsets of an index, in order.
pub open spec fn index_keys(index: Seq<(usize, usize)>) -> Seq<usize> {
    Seq::new(index.len(), |i: int| index[i].0)
}

/// No key is larger than a later one.
pub open spec fn ordered(keys: Seq<usize>) -> bool {
    forall|i: int, j: int| 0 <= i < j < keys.len() ==> keys[i] <= keys[j]
}

/// Scanning from position `from`, the first position whose key is at least
/// `offset`; the number of keys when there is none.
pub open spec fn first_at_or_after_from(keys: Seq<usize>, offset: usize, from: int) -> int
    decreases keys.len() - from,
{
    if from < 0 || from >= keys.len() {
        keys.len() as int
    } else if keys[from] >= offset {
        from
    } else {
        first_at_or_after_from(keys, offset, from + 1)
    }
}

/// The first position whose key is at least `offset`; the number of keys
/// when every key is smaller.
pub open spec fn first_at_or_after(keys: Seq<usize>, offset: usize) -> int {
    first_at_or_after_from(keys, offset, 0)
}

/// The grapheme index that an index assigns to a byte offset: the one
/// recorded with the first entry at or after the offset, and the number of
/// entries when the offset lies past all of them.
pub open spec fn located(index: Seq<(usize, usize)>, offset: usize) -> usize {
    let at = first_at_or_after(index_keys(index), offset);
    if at < index.len() {
        index[at].1
    } else {
        index.len() as usize
    }
}

/// What the scan finds: a position within bounds, with only smaller keys
/// between `from` and it, and a key at least `offset` at it unless it is
/// the end.
pub proof fn lemma_scan_result(keys: Seq<usize>, offset: usize, from: int)
    requires
        0 <= from <= keys.len(),
    ensures
        from <= first_at_or_after_from(keys, offset, from) <= keys.len(),
        forall|j: int|
            from <= j < first_at_or_after_from(keys, offset, from) ==> keys[j] < offset,
        first_at_or_after_from(keys, offset, from) < keys.len() ==> keys[first_at_or_after_from(
            keys,
            offset,
            from,
        )] >= offset,
    decreases keys.len() - from,
{
    if from < keys.len() && keys[from] < offset {
        lemma_scan_result(keys, offset, from + 1);
    }
}

/// A position with only smaller keys before it and a key at least
/// `offset` at it (or none left) is the one the scan finds.
pub proof fn lemma_scan_unique(keys: Seq<usize>, offset: usize, from: int, at: int)
    requires
        0 <= from <= at <= keys.len(),
        forall|j: int| from <= j < at ==> keys[j] < offset,
        at < keys.len() ==> keys[at] >= offset,
    ensures
        first_at_or_after_from(keys, offset, from) == at,
    decreases at - from,
{
    if from < at {
        lemma_scan_unique(keys, offset, from + 1, at);
    }
}

/// The scan is monotone in the offset: a larger offset is never
/// resolved to an earlier position.
pub proof fn lemma_locate_monotone(keys: Seq<usize>, a: usize, b: usize)
    requires
        a <= b,
    ensures
        0 <= first_at_or_after(keys, a) <= first_at_or_after(keys, b) <= keys.len(),
{
    lemma_scan_result(keys, a, 0);
    lemma_scan_result(keys, b, 0);
    let at_a = first_at_or_after(keys, a);
    let at_b = first_at_or_after(keys, b);
    if at_b < at_a {
        assert(keys[at_b] < a);
        assert(keys[at_b] >= b);
    }
}

/// Resolves a byte offset against a sorted index by binary search.
pub fn locate(index: &Vec<(usize, usize)>, offset: usize) -> (g: usize)
    requires
        ordered(index_keys(index@)),
    ensures
        g == located(index@, offset),
{
    let ghost keys = index_keys(index@);
    let mut lo: usize = 0;
    let mut hi: usize = index.len();
    while lo < hi
        invariant
            0 <= lo <= hi <= index.len(),
            keys == index_keys(index@),
            ordered(keys),
            forall|j: int| 0 <= j < lo ==> keys[j] < offset,
            hi < index.len() ==> keys[hi as int] >= offset,
        decreases hi - lo,
    {
        let mid: usize = lo + (hi - lo) / 2;
        if index[mid].0 < offset {
            assert forall|j: int| 0 <= j < mid + 1 implies keys[j] < offset by {
                if j < mid {
                    assert(keys[j] <= keys[mid as int]);
                }
            }
            lo = mid + 1;
        } else {
            hi = mid;
        }
    }
    proof {
        lemma_scan_unique(keys, offset, 0, lo as int);
    }
    if lo < index.len() {
        index[lo].1
    } else {
        index.len()
    }
}

} // verus!
