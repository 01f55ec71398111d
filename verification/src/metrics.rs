//! What one compaction step reports: for each index that was compacted, how
//! many of its segments were merged away.

use std::collections::BTreeMap;
use vstd::prelude::*;

verus! {

/// Ordered mapping from the resolved name of an index to the number of
/// segments merged during one step. An index without an entry had nothing
/// merged.
#[derive(Debug)]
pub struct CompactionMetrics {
    entries: BTreeMap<u64, u64>,
}

impl View for CompactionMetrics {
    type V = Map<u64, u64>;

    closed spec fn view(&self) -> Map<u64, u64> {
        self.entries@
    }
}

impl CompactionMetrics {
    /// Metrics without any entry.
    pub fn new() -> (metrics: CompactionMetrics)
        ensures
            metrics@ == Map::<u64, u64>::empty(),
    {
        CompactionMetrics { entries: BTreeMap::new() }
    }

    /// Sets the entry of `index` to `segments_merged`.
    pub fn record(&mut self, index: u64, segments_merged: u64)
        ensures
            final(self)@ == old(self)@.insert(index, segments_merged),
    {
        broadcast use vstd::laws_cmp::group_laws_cmp;

        self.entries.insert(index, segments_merged);
    }

    /// The number of segments merged for `index`, if it has an entry.
    pub fn get(&self, index: u64) -> (segments_merged: Option<u64>)
        ensures
            segments_merged == (if self@.contains_key(index) {
                Some(self@[index])
            } else {
                None
            }),
    {
        broadcast use vstd::laws_cmp::group_laws_cmp;
        broadcast use vstd::std_specs::btree::group_btree_axioms;

        match self.entries.get(&index) {
            Some(count) => Some(*count),
            None => None,
        }
    }

    /// Number of indexes with an entry.
    pub fn len(&self) -> (n: usize)
        ensures
            n == self@.len(),
    {
        broadcast use vstd::laws_cmp::group_laws_cmp;
        broadcast use vstd::std_specs::btree::group_btree_axioms;

        self.entries.len()
    }

    /// Whether no index has an entry.
    pub fn is_empty(&self) -> (empty: bool)
        ensures
            empty == self@.is_empty(),
    {
        self.entries.is_empty()
    }

    /// The entries as a standard ordered map.
    pub fn to_map(&self) -> (entries: BTreeMap<u64, u64>)
        ensures
            entries@ == self@,
    {
        self.entries.clone()
    }
}

} // verus!
