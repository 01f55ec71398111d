//! The bookkeeping half of the segment merger.
//!
//! Reading the source segments and writing the merged one is the storage
//! layer's work. What is decided here is the descriptor of the result: it
//! carries the id and size that storage reported and accounts for every
//! document of every source segment.

use vstd::prelude::*;
use crate::segment::{total_documents, MergedSegment, Segment};

verus! {

/// Why a merge produced no segment.
#[derive(Clone, Copy, Debug, PartialEq, Eq, Structural)]
pub enum MergeError {
    /// A source segment could not be read, or the merged segment could not be written.
    Storage,
    /// The content or the metadata of a source segment is structurally invalid.
    Format,
}

/// The documents of a prefix never outnumber those of the whole list.
pub proof fn lemma_total_documents_prefix(segments: Seq<Segment>, n: int)
    requires
        0 <= n <= segments.len(),
    ensures
        total_documents(segments.take(n)) <= total_documents(segments),
    decreases segments.len(),
{
    if n == segments.len() {
        assert(segments.take(n) =~= segments);
    } else {
        lemma_total_documents_prefix(segments.drop_last(), n);
        assert(segments.drop_last().take(n) =~= segments.take(n));
    }
}

/// Describes the segment that results from merging `sources` once storage has
/// written it under `id` with `byte_size` bytes.
///
/// The document count of the result is the sum of the document counts of the
/// sources. Source metadata whose sum does not fit the count's 64 bits cannot
/// describe real segments and is rejected as a format error.
pub fn merged_segment(sources: &Vec<Segment>, id: u64, byte_size: u64) -> (result: Result<
    MergedSegment,
    MergeError,
>)
    ensures
        total_documents(sources@) <= u64::MAX ==> result == Ok::<MergedSegment, MergeError>(
            MergedSegment { id, byte_size, document_count: total_documents(sources@) as u64 },
        ),
        total_documents(sources@) > u64::MAX ==> result == Err::<MergedSegment, MergeError>(
            MergeError::Format,
        ),
{
    let mut documents: u64 = 0;
    let mut i: usize = 0;
    while i < sources.len()
        invariant
            i <= sources.len(),
            documents == total_documents(sources@.take(i as int)),
        decreases sources.len() - i,
    {
        proof {
            assert(sources@.take(i + 1).drop_last() =~= sources@.take(i as int));
            lemma_total_documents_prefix(sources@, i + 1);
        }
        match documents.checked_add(sources[i].document_count) {
            Some(sum) => {
                documents = sum;
            },
            None => {
                return Err(MergeError::Format);
            },
        }
        i = i + 1;
    }
    assert(sources@.take(sources.len() as int) =~= sources@);
    Ok(MergedSegment { id, byte_size, document_count: documents })
}

} // verus!
