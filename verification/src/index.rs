//! The metadata record of one search index and the atomic segment swap.
//!
//! An index references an ordered list of segments and carries a generation
//! token that every change of that list advances. Compaction changes the list
//! in exactly one way: a swap removes the segments of a batch and adds the
//! segment they were merged into, all or nothing. Superseded segments are only
//! dropped from the list; deleting their bytes is somebody else's job.

use vstd::prelude::*;
use crate::segment::{segment_ids, MergedSegment, Segment};

verus! {

/// Lifecycle state of an index.
#[derive(Clone, Copy, Debug, PartialEq, Eq, Structural)]
pub enum IndexState {
    /// Not serving and holding no stored content.
    Disabled,
    /// Historical content is still being indexed.
    Backfilling,
    /// Fully built and serving.
    Enabled,
}

/// Why a swap was refused. Nothing was changed.
#[derive(Clone, Copy, Debug, PartialEq, Eq, Structural)]
pub enum Conflict {
    /// The index has moved on from the generation the batch was selected at.
    StaleGeneration,
    /// A segment of the batch is no longer referenced by the index.
    SegmentMissing,
    /// The id of the new segment is still in use by a segment that stays.
    SegmentExists,
    /// The generation token has no successor.
    GenerationExhausted,
}

/// The segments of `segments` whose id is not among `ids`, in order.
pub open spec fn without_ids(segments: Seq<Segment>, ids: Seq<u64>) -> Seq<Segment> {
    segments.filter(unlisted(ids))
}

/// The predicate "this segment's id is not among `ids`".
pub open spec fn unlisted(ids: Seq<u64>) -> spec_fn(Segment) -> bool {
    |s: Segment| !ids.contains(s.id)
}

/// Whether a segment list can be the list of an index at `generation`: ids
/// are unique, creation orders strictly increase along the list, and all of
/// them lie before `generation`.
pub open spec fn segments_valid(segments: Seq<Segment>, generation: nat) -> bool {
    &&& forall|i: int, j: int| 0 <= i < j < segments.len() ==> segments[i].id != segments[j].id
    &&& forall|i: int, j: int|
        0 <= i < j < segments.len() ==> segments[i].creation_order < segments[j].creation_order
    &&& forall|i: int| 0 <= i < segments.len() ==> segments[i].creation_order < generation
}

/// The mathematical content of a [`SearchIndex`].
pub struct IndexView {
    pub name: u64,
    pub state: IndexState,
    pub generation: nat,
    pub segments: Seq<Segment>,
}

impl IndexView {
    /// What holds of every index record.
    pub open spec fn valid(self) -> bool {
        &&& self.generation <= u64::MAX
        &&& segments_valid(self.segments, self.generation)
    }

    /// Whether the index references a segment with this id.
    pub open spec fn references(self, id: u64) -> bool {
        segment_ids(self.segments).contains(id)
    }

    /// The segment that a swap adds: the merged segment, created at the
    /// current generation.
    pub open spec fn admitted(self, merged: MergedSegment) -> Segment {
        Segment {
            id: merged.id,
            byte_size: merged.byte_size,
            document_count: merged.document_count,
            creation_order: self.generation as u64,
        }
    }

    /// Why swapping `old_ids` for `merged` is refused, if it is. The reasons
    /// are tried in the order of the variants of [`Conflict`].
    pub open spec fn refusal(self, old_ids: Seq<u64>, merged: MergedSegment, expected: u64)
        -> Option<Conflict> {
        if self.generation != expected {
            Some(Conflict::StaleGeneration)
        } else if exists|k: int| 0 <= k < old_ids.len() && !self.references(old_ids[k]) {
            Some(Conflict::SegmentMissing)
        } else if segment_ids(without_ids(self.segments, old_ids)).contains(merged.id) {
            Some(Conflict::SegmentExists)
        } else if self.generation >= u64::MAX {
            Some(Conflict::GenerationExhausted)
        } else {
            None
        }
    }

    /// The index after `old_ids` were swapped for `merged`.
    pub open spec fn swapped(self, old_ids: Seq<u64>, merged: MergedSegment) -> IndexView {
        IndexView {
            generation: self.generation + 1,
            segments: without_ids(self.segments, old_ids).push(self.admitted(merged)),
            ..self
        }
    }

    /// The index after an attempt to swap `old_ids` for `merged`: swapped
    /// when nothing stands against it, untouched otherwise.
    pub open spec fn after_swap(self, old_ids: Seq<u64>, merged: MergedSegment, expected: u64)
        -> IndexView {
        if self.refusal(old_ids, merged, expected) is None {
            self.swapped(old_ids, merged)
        } else {
            self
        }
    }
}

/// The metadata record of one index: its name, lifecycle state, generation
/// token and the segments it references, oldest first.
#[derive(Debug)]
pub struct SearchIndex {
    name: u64,
    state: IndexState,
    generation: u64,
    segments: Vec<Segment>,
}

impl View for SearchIndex {
    type V = IndexView;

    closed spec fn view(&self) -> IndexView {
        IndexView {
            name: self.name,
            state: self.state,
            generation: self.generation as nat,
            segments: self.segments@,
        }
    }
}

/// Whether `ids` holds `id`.
pub fn contains_id(ids: &Vec<u64>, id: u64) -> (found: bool)
    ensures
        found == ids@.contains(id),
{
    let mut i: usize = 0;
    while i < ids.len()
        invariant
            i <= ids.len(),
            forall|k: int| 0 <= k < i ==> ids@[k] != id,
        decreases ids.len() - i,
    {
        if ids[i] == id {
            return true;
        }
        i = i + 1;
    }
    false
}

/// Whether one of `segments` has the id `id`.
pub fn references_id(segments: &Vec<Segment>, id: u64) -> (found: bool)
    ensures
        found == segment_ids(segments@).contains(id),
{
    let mut i: usize = 0;
    while i < segments.len()
        invariant
            i <= segments.len(),
            forall|k: int| 0 <= k < i ==> segments@[k].id != id,
        decreases segments.len() - i,
    {
        if segments[i].id == id {
            assert(segment_ids(segments@)[i as int] == id);
            return true;
        }
        i = i + 1;
    }
    false
}

/// The segments whose id is not listed in `ids`, in their order.
pub fn segments_without(segments: &Vec<Segment>, ids: &Vec<u64>) -> (rest: Vec<Segment>)
    ensures
        rest@ == without_ids(segments@, ids@),
{
    let mut rest: Vec<Segment> = Vec::new();
    let mut i: usize = 0;
    proof {
        reveal(Seq::filter);
        assert(segments@.take(0).filter(unlisted(ids@)) =~= Seq::<Segment>::empty());
    }
    while i < segments.len()
        invariant
            i <= segments.len(),
            rest@ == without_ids(segments@.take(i as int), ids@),
        decreases segments.len() - i,
    {
        proof {
            reveal(Seq::filter);
            assert(segments@.take(i + 1).drop_last() =~= segments@.take(i as int));
        }
        if !contains_id(ids, segments[i].id) {
            rest.push(segments[i]);
        }
        i = i + 1;
    }
    assert(segments@.take(segments.len() as int) =~= segments@);
    rest
}

/// Every segment that a removal leaves is a segment of the list it was
/// taken from, and its id is not among the removed ones.
pub proof fn lemma_without_ids_members(segments: Seq<Segment>, ids: Seq<u64>)
    ensures
        without_ids(segments, ids).len() <= segments.len(),
        forall|k: int|
            0 <= k < without_ids(segments, ids).len() ==> segments.contains(
                #[trigger] without_ids(segments, ids)[k],
            ) && !ids.contains(without_ids(segments, ids)[k].id),
    decreases segments.len(),
{
    reveal(Seq::filter);
    if segments.len() > 0 {
        let shorter = segments.drop_last();
        lemma_without_ids_members(shorter, ids);
        let rest = without_ids(segments, ids);
        assert forall|k: int| 0 <= k < rest.len() implies segments.contains(#[trigger] rest[k])
            && !ids.contains(rest[k].id) by {
            if k < without_ids(shorter, ids).len() {
                let w = without_ids(shorter, ids)[k];
                assert(shorter.contains(w));
                let j = choose|j: int| 0 <= j < shorter.len() && shorter[j] == w;
                assert(segments[j] == w);
            } else {
                assert(rest[k] == segments[segments.len() - 1]);
            }
        }
    }
}

/// Removing segments from a valid list leaves a valid list.
pub proof fn lemma_without_ids_valid(segments: Seq<Segment>, ids: Seq<u64>, generation: nat)
    requires
        segments_valid(segments, generation),
    ensures
        segments_valid(without_ids(segments, ids), generation),
    decreases segments.len(),
{
    reveal(Seq::filter);
    if segments.len() > 0 {
        let shorter = segments.drop_last();
        let last = segments.last();
        assert(segments_valid(shorter, generation));
        lemma_without_ids_valid(shorter, ids, generation);
        lemma_without_ids_members(shorter, ids);
        let kept = without_ids(shorter, ids);
        assert forall|k: int| 0 <= k < kept.len() implies kept[k].id != last.id
            && kept[k].creation_order < last.creation_order by {
            assert(shorter.contains(kept[k]));
            let j = choose|j: int| 0 <= j < shorter.len() && shorter[j] == kept[k];
            assert(segments[j] == kept[k]);
        }
    }
}

/// Two lists of ids that agree on every id that occurs among `segments`
/// remove the same segments.
pub proof fn lemma_without_ids_agree(segments: Seq<Segment>, a: Seq<u64>, b: Seq<u64>)
    requires
        forall|k: int|
            0 <= k < segments.len() ==> (a.contains(#[trigger] segments[k].id) <==> b.contains(
                segments[k].id,
            )),
    ensures
        without_ids(segments, a) == without_ids(segments, b),
    decreases segments.len(),
{
    reveal(Seq::filter);
    if segments.len() > 0 {
        let shorter = segments.drop_last();
        assert forall|k: int| 0 <= k < shorter.len() implies (a.contains(#[trigger] shorter[k].id)
            <==> b.contains(shorter[k].id)) by {
            assert(shorter[k] == segments[k]);
        }
        lemma_without_ids_agree(shorter, a, b);
        assert(a.contains(segments[segments.len() - 1].id) <==> b.contains(
            segments[segments.len() - 1].id,
        ));
    }
}

/// Removing a list of distinct ids, each of which names a segment of a list
/// with unique ids, shortens the list by exactly that many segments.
pub proof fn lemma_without_ids_len(segments: Seq<Segment>, ids: Seq<u64>)
    requires
        forall|i: int, j: int| 0 <= i < j < segments.len() ==> segments[i].id != segments[j].id,
        ids.no_duplicates(),
        forall|k: int| 0 <= k < ids.len() ==> segment_ids(segments).contains(#[trigger] ids[k]),
    ensures
        without_ids(segments, ids).len() + ids.len() == segments.len(),
    decreases segments.len(),
{
    reveal(Seq::filter);
    if segments.len() == 0 {
        if ids.len() > 0 {
            assert(segment_ids(segments).contains(ids[0]));
        }
    } else {
        let shorter = segments.drop_last();
        let last = segments.last();
        let end = segments.len() - 1;
        if ids.contains(last.id) {
            let at = choose|at: int| 0 <= at < ids.len() && ids[at] == last.id;
            let fewer = ids.remove(at);
            assert forall|k: int| 0 <= k < fewer.len() implies segment_ids(shorter).contains(
                #[trigger] fewer[k],
            ) by {
                let from = if k < at {
                    k
                } else {
                    k + 1
                };
                assert(fewer[k] == ids[from]);
                assert(segment_ids(segments).contains(ids[from]));
                let j = choose|j: int|
                    0 <= j < segment_ids(segments).len() && segment_ids(segments)[j] == ids[from];
                assert(segments[j].id == ids[from]);
                assert(j != end);
                assert(segment_ids(shorter)[j] == fewer[k]);
            }
            assert forall|k: int| 0 <= k < shorter.len() implies (ids.contains(
                #[trigger] shorter[k].id,
            ) <==> fewer.contains(shorter[k].id)) by {
                assert(shorter[k] == segments[k]);
                if ids.contains(shorter[k].id) {
                    let from = choose|from: int| 0 <= from < ids.len() && ids[from] == shorter[k].id;
                    assert(from != at);
                    let to = if from < at {
                        from
                    } else {
                        from - 1
                    };
                    assert(fewer[to] == shorter[k].id);
                }
                if fewer.contains(shorter[k].id) {
                    let to = choose|to: int| 0 <= to < fewer.len() && fewer[to] == shorter[k].id;
                    let from = if to < at {
                        to
                    } else {
                        to + 1
                    };
                    assert(ids[from] == shorter[k].id);
                }
            }
            lemma_without_ids_agree(shorter, ids, fewer);
            lemma_without_ids_len(shorter, fewer);
        } else {
            assert forall|k: int| 0 <= k < ids.len() implies segment_ids(shorter).contains(
                #[trigger] ids[k],
            ) by {
                assert(segment_ids(segments).contains(ids[k]));
                let j = choose|j: int|
                    0 <= j < segment_ids(segments).len() && segment_ids(segments)[j] == ids[k];
                assert(segments[j].id == ids[k]);
                assert(j != end);
                assert(segment_ids(shorter)[j] == ids[k]);
            }
            lemma_without_ids_len(shorter, ids);
        }
    }
}

/// A swap of distinct ids that is not refused takes as many segments out of
/// the list as it was given ids and puts one in: the merged segment, as the
/// youngest. None of the replaced segments is referenced afterwards, unless
/// the merged segment took over its id.
pub proof fn lemma_swap_replaces_batch(
    index: IndexView,
    old_ids: Seq<u64>,
    merged: MergedSegment,
    expected: u64,
)
    requires
        index.valid(),
        old_ids.no_duplicates(),
        index.refusal(old_ids, merged, expected) is None,
    ensures
        index.swapped(old_ids, merged).segments.len() + old_ids.len() == index.segments.len() + 1,
        index.swapped(old_ids, merged).segments.last() == index.admitted(merged),
        index.swapped(old_ids, merged).generation == index.generation + 1,
        forall|k: int|
            0 <= k < old_ids.len() && old_ids[k] != merged.id ==> !index.swapped(
                old_ids,
                merged,
            ).references(#[trigger] old_ids[k]),
{
    let kept = without_ids(index.segments, old_ids);
    let after = index.swapped(old_ids, merged);
    assert forall|k: int| 0 <= k < old_ids.len() implies segment_ids(index.segments).contains(
        #[trigger] old_ids[k],
    ) by {
        assert(index.references(old_ids[k]));
    }
    lemma_without_ids_len(index.segments, old_ids);
    lemma_without_ids_members(index.segments, old_ids);
    assert forall|k: int| 0 <= k < old_ids.len() && old_ids[k] != merged.id implies !after.references(
        #[trigger] old_ids[k],
    ) by {
        if after.references(old_ids[k]) {
            let j = choose|j: int|
                0 <= j < segment_ids(after.segments).len() && segment_ids(after.segments)[j]
                    == old_ids[k];
            assert(after.segments[j].id == old_ids[k]);
            assert(j < kept.len());
            assert(after.segments[j] == kept[j]);
            assert(!old_ids.contains(kept[j].id));
        }
    }
}

/// A valid list holds no more segments than generations have passed: every
/// segment was created at a generation of its own.
pub proof fn lemma_valid_list_is_short(segments: Seq<Segment>, generation: nat)
    requires
        segments_valid(segments, generation),
    ensures
        segments.len() <= generation,
        forall|i: int| 0 <= i < segments.len() ==> (#[trigger] segments[i]).creation_order >= i,
    decreases segments.len(),
{
    if segments.len() > 0 {
        let shorter = segments.drop_last();
        assert(segments_valid(shorter, generation));
        lemma_valid_list_is_short(shorter, generation);
        let end = segments.len() - 1;
        if end > 0 {
            assert(shorter[end - 1] == segments[end - 1]);
            assert(segments[end - 1].creation_order < segments[end].creation_order);
        }
        assert forall|i: int| 0 <= i < segments.len() implies (#[trigger] segments[i]).creation_order
            >= i by {
            if i < end {
                assert(shorter[i] == segments[i]);
            }
        }
    }
}

/// A swap that is not refused leaves a valid index.
pub proof fn lemma_swap_keeps_valid(
    index: IndexView,
    old_ids: Seq<u64>,
    merged: MergedSegment,
    expected: u64,
)
    requires
        index.valid(),
    ensures
        index.after_swap(old_ids, merged, expected).valid(),
{
    if index.refusal(old_ids, merged, expected) is None {
        let kept = without_ids(index.segments, old_ids);
        let added = index.admitted(merged);
        lemma_without_ids_valid(index.segments, old_ids, index.generation);
        assert forall|k: int| 0 <= k < kept.len() implies kept[k].id != added.id by {
            assert(segment_ids(kept)[k] == kept[k].id);
        }
    }
}

impl SearchIndex {
    #[verifier::type_invariant]
    spec fn well_formed(&self) -> bool {
        segments_valid(self.segments@, self.generation as nat)
    }

    /// A fresh index without segments, at generation zero.
    pub fn new(name: u64, state: IndexState) -> (index: SearchIndex)
        ensures
            index@ == (IndexView { name, state, generation: 0, segments: Seq::empty() }),
            index@.valid(),
    {
        SearchIndex { name, state, generation: 0, segments: Vec::new() }
    }

    /// Rebuilds a record from stored parts, or `None` when the parts cannot
    /// be the record of an index.
    pub fn restore(name: u64, state: IndexState, generation: u64, segments: Vec<Segment>) -> (index:
        Option<SearchIndex>)
        ensures
            segments_valid(segments@, generation as nat) <==> index is Some,
            index is Some ==> index->Some_0@ == (IndexView {
                name,
                state,
                generation: generation as nat,
                segments: segments@,
            }),
    {
        let mut i: usize = 0;
        while i < segments.len()
            invariant
                i <= segments.len(),
                segments_valid(segments@.take(i as int), generation as nat),
            decreases segments.len() - i,
        {
            let candidate = segments[i];
            if candidate.creation_order >= generation {
                return None;
            }
            if i > 0 && segments[i - 1].creation_order >= candidate.creation_order {
                return None;
            }
            let mut k: usize = 0;
            while k < i
                invariant
                    k <= i < segments.len(),
                    candidate == segments@[i as int],
                    forall|j: int| 0 <= j < k ==> segments@[j].id != candidate.id,
                decreases i - k,
            {
                if segments[k].id == candidate.id {
                    return None;
                }
                k = k + 1;
            }
            proof {
                let shorter = segments@.take(i as int);
                let longer = segments@.take(i + 1);
                assert forall|a: int, b: int| 0 <= a < b < longer.len() implies longer[a].id
                    != longer[b].id && longer[a].creation_order < longer[b].creation_order by {
                    if b < i {
                        assert(shorter[a] == longer[a] && shorter[b] == longer[b]);
                    } else if a < i - 1 {
                        assert(shorter[a].creation_order < shorter[i - 1].creation_order);
                    }
                }
            }
            i = i + 1;
        }
        assert(segments@.take(segments.len() as int) =~= segments@);
        Some(SearchIndex { name, state, generation, segments })
    }

    /// The resolved name of the index.
    pub fn name(&self) -> (name: u64)
        ensures
            name == self@.name,
    {
        self.name
    }

    /// The lifecycle state of the index.
    pub fn state(&self) -> (state: IndexState)
        ensures
            state == self@.state,
    {
        self.state
    }

    /// The current generation token.
    pub fn generation(&self) -> (generation: u64)
        ensures
            generation == self@.generation,
            self@.valid(),
    {
        proof {
            use_type_invariant(self);
        }
        self.generation
    }

    /// The segments the index references, oldest first.
    pub fn segments(&self) -> (segments: &Vec<Segment>)
        ensures
            segments@ == self@.segments,
            self@.valid(),
    {
        proof {
            use_type_invariant(self);
        }
        &self.segments
    }

    /// Moves the index to another lifecycle state. The segment list and the
    /// generation stay as they are.
    pub fn set_state(&mut self, state: IndexState)
        ensures
            final(self)@ == (IndexView { state, ..old(self)@ }),
    {
        proof {
            use_type_invariant(&*self);
        }
        self.state = state;
    }

    /// Atomically replaces the segments listed in `old_ids` by `merged`.
    ///
    /// The swap is refused, and the record left untouched, when the index is
    /// no longer at `expected_generation`, when one of `old_ids` is no longer
    /// referenced, when the id of `merged` collides with a segment that stays,
    /// or when the generation cannot advance. Otherwise the listed segments
    /// leave the list, `merged` joins it as the youngest segment, and the
    /// generation advances by one.
    pub fn commit_swap(
        &mut self,
        old_ids: &Vec<u64>,
        merged: MergedSegment,
        expected_generation: u64,
    ) -> (result: Result<(), Conflict>)
        ensures
            result == match old(self)@.refusal(old_ids@, merged, expected_generation) {
                Some(conflict) => Err::<(), Conflict>(conflict),
                None => Ok::<(), Conflict>(()),
            },
            final(self)@ == old(self)@.after_swap(old_ids@, merged, expected_generation),
            final(self)@.valid(),
    {
        proof {
            use_type_invariant(&*self);
            lemma_swap_keeps_valid(self@, old_ids@, merged, expected_generation);
        }
        if self.generation != expected_generation {
            return Err(Conflict::StaleGeneration);
        }
        let mut k: usize = 0;
        while k < old_ids.len()
            invariant
                k <= old_ids.len(),
                *self == *old(self),
                self@.valid(),
                self@.generation == expected_generation,
                forall|j: int| 0 <= j < k ==> self@.references(old_ids@[j]),
            decreases old_ids.len() - k,
        {
            if !references_id(&self.segments, old_ids[k]) {
                assert(!self@.references(old_ids@[k as int]));
                return Err(Conflict::SegmentMissing);
            }
            k = k + 1;
        }
        let mut kept = segments_without(&self.segments, old_ids);
        if references_id(&kept, merged.id) {
            return Err(Conflict::SegmentExists);
        }
        if self.generation == u64::MAX {
            return Err(Conflict::GenerationExhausted);
        }
        kept.push(
            Segment {
                id: merged.id,
                byte_size: merged.byte_size,
                document_count: merged.document_count,
                creation_order: self.generation,
            },
        );
        *self = SearchIndex {
            name: self.name,
            state: self.state,
            generation: self.generation + 1,
            segments: kept,
        };
        Ok(())
    }

    /// Records a segment that the write path has flushed: it joins the list
    /// as the youngest segment and the generation advances by one. Refused
    /// like a swap that replaces nothing.
    pub fn append(&mut self, segment: MergedSegment) -> (result: Result<(), Conflict>)
        ensures
            result == match old(self)@.refusal(
                Seq::empty(),
                segment,
                old(self)@.generation as u64,
            ) {
                Some(conflict) => Err::<(), Conflict>(conflict),
                None => Ok::<(), Conflict>(()),
            },
            final(self)@ == old(self)@.after_swap(
                Seq::empty(),
                segment,
                old(self)@.generation as u64,
            ),
            final(self)@.valid(),
    {
        let nothing: Vec<u64> = Vec::new();
        let generation = self.generation;
        self.commit_swap(&nothing, segment, generation)
    }
}

} // verus!
