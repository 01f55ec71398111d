//! The segment selector: which segments of one index to merge next.
//!
//! Segments are split into a small and a large tier by byte size. Each tier is
//! put in creation order and packed greedily, oldest first, into runs whose
//! cumulative size stays within the configured cap. The oldest run that holds
//! at least the configured minimum number of segments is the tier's batch;
//! every other segment is left for a later step. Each tier yields at most one
//! batch per selection.

use vstd::prelude::*;
use vstd::seq_lib::{to_multiset_build, to_multiset_insert};
use crate::config::{CompactionConfig, ConfigView};
use crate::segment::{
    ids_of, in_tier, lemma_total_bytes_push, segment_ids, total_bytes, Segment, Tier,
};

verus! {

/// Index at which `segment` enters `ordered` (searching from `from`): before
/// the first segment created strictly later, so equal creation orders keep
/// their arrival order.
pub open spec fn insertion_point(ordered: Seq<Segment>, segment: Segment, from: int) -> int
    decreases ordered.len() - from,
{
    if from < 0 || from >= ordered.len() {
        ordered.len() as int
    } else if ordered[from].creation_order > segment.creation_order {
        from
    } else {
        insertion_point(ordered, segment, from + 1)
    }
}

/// The segments of one tier, oldest first.
pub open spec fn tier_by_creation(segments: Seq<Segment>, threshold: nat, tier: Tier) -> Seq<
    Segment,
>
    decreases segments.len(),
{
    if segments.len() == 0 {
        Seq::empty()
    } else {
        let earlier = tier_by_creation(segments.drop_last(), threshold, tier);
        let segment = segments.last();
        if in_tier(segment, threshold, tier) {
            earlier.insert(insertion_point(earlier, segment, 0), segment)
        } else {
            earlier
        }
    }
}

/// Whether `segment` may join a run that already holds `total` bytes.
/// Under a zero cap nothing ever fits, not even an empty segment.
pub open spec fn fits(total: nat, segment: Segment, cap: nat) -> bool {
    cap > 0 && total + segment.byte_size <= cap
}

/// Greedy packing of `tier[from..]` with `run` as the run under construction.
/// The result is the first run that closes with at least `min` segments, or the
/// empty sequence when no run gets that far.
pub open spec fn pack_from(tier: Seq<Segment>, from: int, run: Seq<Segment>, min: nat, cap: nat)
    -> Seq<Segment>
    decreases tier.len() - from,
{
    if from < 0 || from >= tier.len() {
        if run.len() >= min {
            run
        } else {
            Seq::empty()
        }
    } else if fits(total_bytes(run), tier[from], cap) {
        pack_from(tier, from + 1, run.push(tier[from]), min, cap)
    } else if run.len() >= min {
        run
    } else if fits(0, tier[from], cap) {
        pack_from(tier, from + 1, seq![tier[from]], min, cap)
    } else {
        pack_from(tier, from + 1, Seq::empty(), min, cap)
    }
}

/// The batch selected for `tier`: empty when the tier has nothing to merge.
pub open spec fn tier_batch(segments: Seq<Segment>, config: ConfigView, tier: Tier) -> Seq<
    Segment,
> {
    pack_from(
        tier_by_creation(segments, config.small_segment_threshold_bytes, tier),
        0,
        Seq::empty(),
        config.min_compaction_segments,
        config.max_segment_size_bytes,
    )
}

/// The outcome of one selection: one batch per tier, empty where the tier has
/// no eligible batch.
#[derive(Debug)]
pub struct Selection {
    /// Batch of the small tier, oldest first.
    pub small: Vec<Segment>,
    /// Batch of the large tier, oldest first.
    pub large: Vec<Segment>,
}

impl Selection {
    /// The batches as ordered lists of segment ids, the small tier's first.
    /// A tier without a batch contributes nothing.
    pub fn batches(&self) -> (batches: Vec<Vec<u64>>)
        ensures
            batches@.len() == (if self.small@.len() > 0 {
                1int
            } else {
                0int
            }) + (if self.large@.len() > 0 {
                1int
            } else {
                0int
            }),
            self.small@.len() > 0 ==> batches@[0]@ == segment_ids(self.small@),
            self.large@.len() > 0 ==> batches@[batches@.len() - 1]@ == segment_ids(self.large@),
    {
        let mut batches: Vec<Vec<u64>> = Vec::new();
        if self.small.len() > 0 {
            batches.push(ids_of(&self.small));
        }
        if self.large.len() > 0 {
            batches.push(ids_of(&self.large));
        }
        batches
    }
}

/// The segments of `segments` that fall in `tier`, oldest first; segments with
/// equal creation order keep the order in which they were given.
pub fn sorted_tier(segments: &Vec<Segment>, small_segment_threshold_bytes: u64, tier: Tier) -> (ordered:
    Vec<Segment>)
    ensures
        ordered@ == tier_by_creation(segments@, small_segment_threshold_bytes as nat, tier),
{
    let ghost threshold = small_segment_threshold_bytes as nat;
    let mut ordered: Vec<Segment> = Vec::new();
    let mut i: usize = 0;
    while i < segments.len()
        invariant
            i <= segments.len(),
            threshold == small_segment_threshold_bytes as nat,
            ordered@ == tier_by_creation(segments@.take(i as int), threshold, tier),
            ordered.len() <= i,
        decreases segments.len() - i,
    {
        let segment = segments[i];
        assert(segments@.take(i + 1).drop_last() =~= segments@.take(i as int));
        assert(segments@.take(i + 1).last() == segment);
        if segment.tier(small_segment_threshold_bytes) == tier {
            let mut at: usize = 0;
            while at < ordered.len() && ordered[at].creation_order <= segment.creation_order
                invariant
                    at <= ordered.len(),
                    insertion_point(ordered@, segment, 0) == insertion_point(
                        ordered@,
                        segment,
                        at as int,
                    ),
                decreases ordered.len() - at,
            {
                at = at + 1;
            }
            ordered.insert(at, segment);
        }
        i = i + 1;
    }
    assert(segments@.take(segments.len() as int) =~= segments@);
    ordered
}

/// Packs an ordered tier greedily and returns its batch.
pub fn pack_tier(tier: &Vec<Segment>, config: &CompactionConfig) -> (batch: Vec<Segment>)
    ensures
        batch@ == pack_from(
            tier@,
            0,
            Seq::empty(),
            config@.min_compaction_segments,
            config@.max_segment_size_bytes,
        ),
{
    let min = config.min_compaction_segments();
    let cap = config.max_segment_size_bytes();
    let mut run: Vec<Segment> = Vec::new();
    let mut total: u64 = 0;
    let mut i: usize = 0;
    assert(total_bytes(run@) == 0);
    while i < tier.len()
        invariant
            i <= tier.len(),
            min == config@.min_compaction_segments,
            cap == config@.max_segment_size_bytes,
            total == total_bytes(run@),
            total <= cap,
            run.len() <= i,
            pack_from(tier@, 0, Seq::empty(), min as nat, cap as nat) == pack_from(
                tier@,
                i as int,
                run@,
                min as nat,
                cap as nat,
            ),
        decreases tier.len() - i,
    {
        let segment = tier[i];
        if cap > 0 && segment.byte_size <= cap && total <= cap - segment.byte_size {
            proof {
                lemma_total_bytes_push(run@, segment);
            }
            run.push(segment);
            total = total + segment.byte_size;
        } else if run.len() >= min as usize {
            return run;
        } else if cap > 0 && segment.byte_size <= cap {
            run = Vec::new();
            run.push(segment);
            total = segment.byte_size;
            proof {
                assert(run@ =~= seq![segment]);
                assert(run@.drop_last() =~= Seq::<Segment>::empty());
                assert(total_bytes(run@.drop_last()) == 0);
            }
        } else {
            run = Vec::new();
            total = 0;
            assert(run@ =~= Seq::<Segment>::empty());
        }
        i = i + 1;
    }
    if run.len() >= min as usize {
        run
    } else {
        Vec::new()
    }
}

/// Runs the selector on the segment list of one index.
///
/// Each tier's batch is `tier_batch`: either empty or a run of the tier's
/// segments in creation order that holds at least `min_compaction_segments`
/// segments and at most `max_segment_size_bytes` bytes in total.
pub fn select_batches(segments: &Vec<Segment>, config: &CompactionConfig) -> (selection: Selection)
    ensures
        selection.small@ == tier_batch(segments@, config@, Tier::Small),
        selection.large@ == tier_batch(segments@, config@, Tier::Large),
{
    let threshold = config.small_segment_threshold_bytes();
    let small_tier = sorted_tier(segments, threshold, Tier::Small);
    let large_tier = sorted_tier(segments, threshold, Tier::Large);
    Selection { small: pack_tier(&small_tier, config), large: pack_tier(&large_tier, config) }
}

/// The membership test of one tier, as a predicate on segments.
pub open spec fn tier_members(threshold: nat, tier: Tier) -> spec_fn(Segment) -> bool {
    |s: Segment| in_tier(s, threshold, tier)
}

/// Whether `segments` never steps back in creation order.
pub open spec fn ordered_by_creation(segments: Seq<Segment>) -> bool {
    forall|i: int, j: int|
        0 <= i < j < segments.len() ==> segments[i].creation_order <= segments[j].creation_order
}

/// Whether `batch` is the stretch of `tier` that starts at `start`.
pub open spec fn run_at(tier: Seq<Segment>, start: int, batch: Seq<Segment>) -> bool {
    &&& 0 <= start
    &&& start + batch.len() <= tier.len()
    &&& batch == tier.subrange(start, start + batch.len())
}

/// The insertion point lies in range, everything before it was created no
/// later than `segment`, and what stands at it was created strictly later.
pub proof fn lemma_insertion_point(ordered: Seq<Segment>, segment: Segment, from: int)
    requires
        0 <= from <= ordered.len(),
    ensures
        from <= insertion_point(ordered, segment, from) <= ordered.len(),
        forall|k: int|
            from <= k < insertion_point(ordered, segment, from) ==> ordered[k].creation_order
                <= segment.creation_order,
        insertion_point(ordered, segment, from) < ordered.len() ==> ordered[insertion_point(
            ordered,
            segment,
            from,
        )].creation_order > segment.creation_order,
    decreases ordered.len() - from,
{
    if from < ordered.len() && ordered[from].creation_order <= segment.creation_order {
        lemma_insertion_point(ordered, segment, from + 1);
    }
}

/// A tier in creation order is ordered, and holds exactly the segments of the
/// input that fall in the tier, each as often as the input holds it.
pub proof fn lemma_tier_by_creation(segments: Seq<Segment>, threshold: nat, tier: Tier)
    ensures
        ordered_by_creation(tier_by_creation(segments, threshold, tier)),
        tier_by_creation(segments, threshold, tier).to_multiset() == segments.filter(
            tier_members(threshold, tier),
        ).to_multiset(),
        tier_by_creation(segments, threshold, tier).len() <= segments.len(),
        forall|k: int|
            0 <= k < tier_by_creation(segments, threshold, tier).len() ==> in_tier(
                #[trigger] tier_by_creation(segments, threshold, tier)[k],
                threshold,
                tier,
            ),
    decreases segments.len(),
{
    reveal(Seq::filter);
    let keep = tier_members(threshold, tier);
    if segments.len() == 0 {
        assert(segments.filter(keep) =~= tier_by_creation(segments, threshold, tier));
    } else {
        let earlier = tier_by_creation(segments.drop_last(), threshold, tier);
        let kept = segments.drop_last().filter(keep);
        let segment = segments.last();
        lemma_tier_by_creation(segments.drop_last(), threshold, tier);
        assert(keep(segment) == in_tier(segment, threshold, tier));
        if in_tier(segment, threshold, tier) {
            let at = insertion_point(earlier, segment, 0);
            lemma_insertion_point(earlier, segment, 0);
            let grown = earlier.insert(at, segment);
            assert(ordered_by_creation(grown)) by {
                assert forall|i: int, j: int| 0 <= i < j < grown.len() implies grown[i].creation_order
                    <= grown[j].creation_order by {
                    if j < at {
                        assert(grown[i] == earlier[i] && grown[j] == earlier[j]);
                    } else if j == at {
                        assert(grown[i] == earlier[i]);
                    } else if i < at {
                        assert(grown[i] == earlier[i] && grown[j] == earlier[j - 1]);
                        assert(earlier[at].creation_order <= earlier[j - 1].creation_order);
                    } else if i == at {
                        assert(grown[j] == earlier[j - 1]);
                        assert(earlier[at].creation_order <= earlier[j - 1].creation_order);
                    } else {
                        assert(grown[i] == earlier[i - 1] && grown[j] == earlier[j - 1]);
                    }
                }
            }
            to_multiset_insert(earlier, at, segment);
            to_multiset_build(kept, segment);
            assert(segments.filter(keep) == kept.push(segment));
            assert forall|k: int| 0 <= k < grown.len() implies in_tier(
                #[trigger] grown[k],
                threshold,
                tier,
            ) by {
                if k < at {
                    assert(grown[k] == earlier[k]);
                } else if k > at {
                    assert(grown[k] == earlier[k - 1]);
                }
            }
        } else {
            assert(segments.filter(keep) == kept);
        }
    }
}

/// A run of one segment weighs what the segment weighs.
pub proof fn lemma_total_bytes_single(segment: Segment)
    ensures
        total_bytes(seq![segment]) == segment.byte_size,
{
    assert(seq![segment].drop_last() =~= Seq::<Segment>::empty());
    assert(total_bytes(seq![segment].drop_last()) == 0);
}

/// The weight of a non-empty run is that of its first segment plus the rest.
pub proof fn lemma_total_bytes_first(segments: Seq<Segment>)
    requires
        segments.len() > 0,
    ensures
        total_bytes(segments) == segments[0].byte_size + total_bytes(segments.drop_first()),
    decreases segments.len(),
{
    if segments.len() == 1 {
        assert(segments.drop_last() =~= Seq::<Segment>::empty());
        assert(segments.drop_first() =~= Seq::<Segment>::empty());
    } else {
        lemma_total_bytes_first(segments.drop_last());
        assert(segments.drop_last().drop_first() =~= segments.drop_first().drop_last());
    }
}

/// Whatever packing selects stays within the cap, and is either empty or at
/// least `min` segments long.
pub proof fn lemma_pack_within_limits(
    tier: Seq<Segment>,
    from: int,
    run: Seq<Segment>,
    min: nat,
    cap: nat,
)
    requires
        0 <= from,
        total_bytes(run) <= cap,
    ensures
        total_bytes(pack_from(tier, from, run, min, cap)) <= cap,
        pack_from(tier, from, run, min, cap).len() == 0 || pack_from(
            tier,
            from,
            run,
            min,
            cap,
        ).len() >= min,
    decreases tier.len() - from,
{
    if from < tier.len() {
        if fits(total_bytes(run), tier[from], cap) {
            lemma_total_bytes_push(run, tier[from]);
            lemma_pack_within_limits(tier, from + 1, run.push(tier[from]), min, cap);
        } else if run.len() >= min {
        } else if fits(0, tier[from], cap) {
            lemma_total_bytes_single(tier[from]);
            lemma_pack_within_limits(tier, from + 1, seq![tier[from]], min, cap);
        } else {
            lemma_pack_within_limits(tier, from + 1, Seq::empty(), min, cap);
        }
    }
}

/// Whatever packing selects is one unbroken stretch of the tier, in the
/// tier's order.
pub proof fn lemma_pack_is_run(tier: Seq<Segment>, from: int, run: Seq<Segment>, min: nat, cap: nat)
    requires
        0 <= from <= tier.len(),
        run_at(tier, from - run.len(), run),
    ensures
        exists|start: int| #[trigger] run_at(tier, start, pack_from(tier, from, run, min, cap)),
    decreases tier.len() - from,
{
    let empty = Seq::<Segment>::empty();
    let batch = pack_from(tier, from, run, min, cap);
    if from < tier.len() {
        let next = if fits(total_bytes(run), tier[from], cap) {
            run.push(tier[from])
        } else if fits(0, tier[from], cap) {
            seq![tier[from]]
        } else {
            empty
        };
        if !fits(total_bytes(run), tier[from], cap) && run.len() >= min {
            assert(run_at(tier, from - run.len(), batch));
        } else {
            assert(next =~= tier.subrange(from + 1 - next.len(), from + 1));
            lemma_pack_is_run(tier, from + 1, next, min, cap);
            assert(batch == pack_from(tier, from + 1, next, min, cap));
        }
    } else if run.len() >= min {
        assert(run_at(tier, from - run.len(), batch));
    } else {
        assert(empty =~= tier.subrange(0, 0));
        assert(run_at(tier, 0, batch));
    }
}

/// With a zero cap packing selects nothing.
pub proof fn lemma_pack_zero_cap(tier: Seq<Segment>, from: int, min: nat)
    requires
        0 <= from,
        min >= 1,
    ensures
        pack_from(tier, from, Seq::empty(), min, 0) == Seq::<Segment>::empty(),
    decreases tier.len() - from,
{
    if from < tier.len() {
        lemma_pack_zero_cap(tier, from + 1, min);
    }
}

/// Packing selects nothing when the run under construction and what is left
/// of the tier together hold fewer than `min` segments.
pub proof fn lemma_pack_too_few(tier: Seq<Segment>, from: int, run: Seq<Segment>, min: nat, cap: nat)
    requires
        0 <= from <= tier.len(),
        run.len() + (tier.len() - from) < min,
    ensures
        pack_from(tier, from, run, min, cap) == Seq::<Segment>::empty(),
    decreases tier.len() - from,
{
    if from < tier.len() {
        if fits(total_bytes(run), tier[from], cap) {
            lemma_pack_too_few(tier, from + 1, run.push(tier[from]), min, cap);
        } else if fits(0, tier[from], cap) {
            lemma_pack_too_few(tier, from + 1, seq![tier[from]], min, cap);
        } else {
            lemma_pack_too_few(tier, from + 1, Seq::empty(), min, cap);
        }
    }
}

/// Packing selects the whole rest of the tier when it fits under a positive
/// cap together with the run under construction and reaches `min` segments.
pub proof fn lemma_pack_takes_all(
    tier: Seq<Segment>,
    from: int,
    run: Seq<Segment>,
    min: nat,
    cap: nat,
)
    requires
        0 <= from <= tier.len(),
        cap > 0,
        total_bytes(run) + total_bytes(tier.subrange(from, tier.len() as int)) <= cap,
        run.len() + (tier.len() - from) >= min,
    ensures
        pack_from(tier, from, run, min, cap) == run + tier.subrange(from, tier.len() as int),
    decreases tier.len() - from,
{
    let rest = tier.subrange(from, tier.len() as int);
    if from < tier.len() {
        lemma_total_bytes_first(rest);
        assert(rest.drop_first() =~= tier.subrange(from + 1, tier.len() as int));
        lemma_total_bytes_push(run, tier[from]);
        lemma_pack_takes_all(tier, from + 1, run.push(tier[from]), min, cap);
        assert(run.push(tier[from]) + tier.subrange(from + 1, tier.len() as int) =~= run + rest);
    } else {
        assert(run + rest =~= run);
    }
}

/// Every batch respects both limits: it stays within `max_segment_size_bytes`,
/// and it is empty or holds at least `min_compaction_segments` segments. It is
/// an unbroken stretch of its tier in creation order.
pub proof fn law_batch_respects_limits(segments: Seq<Segment>, config: ConfigView, tier: Tier)
    ensures
        total_bytes(tier_batch(segments, config, tier)) <= config.max_segment_size_bytes,
        tier_batch(segments, config, tier).len() == 0 || tier_batch(segments, config, tier).len()
            >= config.min_compaction_segments,
        tier_batch(segments, config, tier).len() <= segments.len(),
        exists|start: int| #[trigger]
            run_at(
                tier_by_creation(segments, config.small_segment_threshold_bytes, tier),
                start,
                tier_batch(segments, config, tier),
            ),
{
    let ordered = tier_by_creation(segments, config.small_segment_threshold_bytes, tier);
    let empty = Seq::<Segment>::empty();
    lemma_pack_within_limits(
        ordered,
        0,
        empty,
        config.min_compaction_segments,
        config.max_segment_size_bytes,
    );
    assert(empty =~= ordered.subrange(0, 0));
    lemma_pack_is_run(
        ordered,
        0,
        empty,
        config.min_compaction_segments,
        config.max_segment_size_bytes,
    );
    lemma_tier_by_creation(segments, config.small_segment_threshold_bytes, tier);
}

/// A zero `max_segment_size_bytes` disables selection: no tier of any
/// segment list has a batch.
pub proof fn lemma_zero_cap_selects_nothing(segments: Seq<Segment>, config: ConfigView, tier: Tier)
    requires
        config.valid(),
        config.max_segment_size_bytes == 0,
    ensures
        tier_batch(segments, config, tier) == Seq::<Segment>::empty(),
{
    lemma_pack_zero_cap(
        tier_by_creation(segments, config.small_segment_threshold_bytes, tier),
        0,
        config.min_compaction_segments,
    );
}

/// A tier with fewer than `min_compaction_segments` segments has no batch.
pub proof fn lemma_short_tier_selects_nothing(
    segments: Seq<Segment>,
    config: ConfigView,
    tier: Tier,
)
    requires
        tier_by_creation(segments, config.small_segment_threshold_bytes, tier).len()
            < config.min_compaction_segments,
    ensures
        tier_batch(segments, config, tier) == Seq::<Segment>::empty(),
{
    lemma_pack_too_few(
        tier_by_creation(segments, config.small_segment_threshold_bytes, tier),
        0,
        Seq::empty(),
        config.min_compaction_segments,
        config.max_segment_size_bytes,
    );
}

/// A tier that holds at least `min_compaction_segments` segments and fits
/// under a positive `max_segment_size_bytes` as a whole is its own batch.
pub proof fn lemma_fitting_tier_is_batch(segments: Seq<Segment>, config: ConfigView, tier: Tier)
    requires
        config.max_segment_size_bytes > 0,
        tier_by_creation(segments, config.small_segment_threshold_bytes, tier).len()
            >= config.min_compaction_segments,
        total_bytes(tier_by_creation(segments, config.small_segment_threshold_bytes, tier))
            <= config.max_segment_size_bytes,
    ensures
        tier_batch(segments, config, tier) == tier_by_creation(
            segments,
            config.small_segment_threshold_bytes,
            tier,
        ),
{
    let ordered = tier_by_creation(segments, config.small_segment_threshold_bytes, tier);
    assert(ordered.subrange(0, ordered.len() as int) =~= ordered);
    lemma_pack_takes_all(
        ordered,
        0,
        Seq::empty(),
        config.min_compaction_segments,
        config.max_segment_size_bytes,
    );
    assert(Seq::<Segment>::empty() + ordered =~= ordered);
}

/// The batches of the two tiers share no segment: one holds segments below
/// the threshold only, the other segments at or above it.
pub proof fn law_batches_are_disjoint(segments: Seq<Segment>, config: ConfigView)
    ensures
        forall|i: int, j: int|
            0 <= i < tier_batch(segments, config, Tier::Small).len() && 0 <= j < tier_batch(
                segments,
                config,
                Tier::Large,
            ).len() ==> #[trigger] tier_batch(segments, config, Tier::Small)[i]
                != #[trigger] tier_batch(segments, config, Tier::Large)[j],
        forall|i: int|
            0 <= i < tier_batch(segments, config, Tier::Small).len() ==> (#[trigger] tier_batch(
                segments,
                config,
                Tier::Small,
            )[i]).byte_size < config.small_segment_threshold_bytes,
        forall|j: int|
            0 <= j < tier_batch(segments, config, Tier::Large).len() ==> (#[trigger] tier_batch(
                segments,
                config,
                Tier::Large,
            )[j]).byte_size >= config.small_segment_threshold_bytes,
{
    let threshold = config.small_segment_threshold_bytes;
    let small_tier = tier_by_creation(segments, threshold, Tier::Small);
    let large_tier = tier_by_creation(segments, threshold, Tier::Large);
    let small = tier_batch(segments, config, Tier::Small);
    let large = tier_batch(segments, config, Tier::Large);
    law_batch_respects_limits(segments, config, Tier::Small);
    law_batch_respects_limits(segments, config, Tier::Large);
    lemma_tier_by_creation(segments, threshold, Tier::Small);
    lemma_tier_by_creation(segments, threshold, Tier::Large);
    let from_small = choose|start: int| #[trigger] run_at(small_tier, start, small);
    let from_large = choose|start: int| #[trigger] run_at(large_tier, start, large);
    assert forall|i: int| 0 <= i < small.len() implies (#[trigger] small[i]).byte_size
        < threshold by {
        assert(small[i] == small_tier[from_small + i]);
        assert(in_tier(small_tier[from_small + i], threshold, Tier::Small));
    }
    assert forall|j: int| 0 <= j < large.len() implies (#[trigger] large[j]).byte_size
        >= threshold by {
        assert(large[j] == large_tier[from_large + j]);
        assert(in_tier(large_tier[from_large + j], threshold, Tier::Large));
    }
}

} // verus!
