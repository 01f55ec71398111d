//! Segment descriptors and the quantities the engine computes over them.

use vstd::prelude::*;

verus! {

/// One immutable stored unit of index content, as the metadata store describes it.
#[derive(Clone, Copy, Debug, PartialEq, Eq, Structural)]
pub struct Segment {
    /// Identifier, unique within an index.
    pub id: u64,
    /// Stored size in bytes.
    pub byte_size: u64,
    /// Number of documents the segment holds.
    pub document_count: u64,
    /// Position in the index's creation history; later segments have larger values.
    pub creation_order: u64,
}

/// What a merge hands back: the new segment before the index has given it a
/// place in its creation history.
#[derive(Clone, Copy, Debug, PartialEq, Eq, Structural)]
pub struct MergedSegment {
    pub id: u64,
    pub byte_size: u64,
    pub document_count: u64,
}

/// Size class of a segment. The two tiers are compacted independently.
#[derive(Clone, Copy, Debug, PartialEq, Eq, Structural)]
pub enum Tier {
    /// Strictly below the small-segment threshold.
    Small,
    /// At or above the small-segment threshold.
    Large,
}

/// Whether a segment of `byte_size` bytes belongs to `tier` under `threshold`.
pub open spec fn in_tier(segment: Segment, threshold: nat, tier: Tier) -> bool {
    match tier {
        Tier::Small => segment.byte_size < threshold,
        Tier::Large => segment.byte_size >= threshold,
    }
}

/// Sum of the byte sizes of `segments`.
pub open spec fn total_bytes(segments: Seq<Segment>) -> nat
    decreases segments.len(),
{
    if segments.len() == 0 {
        0
    } else {
        total_bytes(segments.drop_last()) + segments.last().byte_size as nat
    }
}

/// Sum of the document counts of `segments`.
pub open spec fn total_documents(segments: Seq<Segment>) -> nat
    decreases segments.len(),
{
    if segments.len() == 0 {
        0
    } else {
        total_documents(segments.drop_last()) + segments.last().document_count as nat
    }
}

/// The ids of `segments`, in the same order.
pub open spec fn segment_ids(segments: Seq<Segment>) -> Seq<u64> {
    Seq::new(segments.len(), |i: int| segments[i].id)
}

/// Adding a segment at the end adds its size to the total.
pub proof fn lemma_total_bytes_push(segments: Seq<Segment>, segment: Segment)
    ensures
        total_bytes(segments.push(segment)) == total_bytes(segments) + segment.byte_size,
{
    assert(segments.push(segment).drop_last() =~= segments);
}

impl Segment {
    /// The tier this segment falls in for a given small-segment threshold.
    pub fn tier(&self, small_segment_threshold_bytes: u64) -> (tier: Tier)
        ensures
            in_tier(*self, small_segment_threshold_bytes as nat, tier),
            tier == Tier::Small <==> self.byte_size < small_segment_threshold_bytes,
    {
        if self.byte_size < small_segment_threshold_bytes {
            Tier::Small
        } else {
            Tier::Large
        }
    }
}

/// Collects the ids of `segments` in order.
pub fn ids_of(segments: &Vec<Segment>) -> (ids: Vec<u64>)
    ensures
        ids@ == segment_ids(segments@),
{
    let mut ids: Vec<u64> = Vec::new();
    let mut i: usize = 0;
    while i < segments.len()
        invariant
            i <= segments.len(),
            ids@ == segment_ids(segments@.take(i as int)),
        decreases segments.len() - i,
    {
        ids.push(segments[i].id);
        i = i + 1;
        assert(ids@ =~= segment_ids(segments@.take(i as int)));
    }
    assert(segments@.take(segments.len() as int) =~= segments@);
    ids
}

} // verus!
