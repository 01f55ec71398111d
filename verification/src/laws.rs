//! What a compaction step guarantees, stated over the selector, the merger,
//! the swap and the coordinator together.

use vstd::prelude::*;
use vstd::seq_lib::to_multiset_contains;
use crate::config::ConfigView;
use crate::coordinator::{
    compactable, next_compactable, IndexEntry, IndexFailure, JobView, Stage, StepError, StepEvent,
    StepView,
};
use crate::index::{
    lemma_swap_keeps_valid, lemma_swap_replaces_batch, lemma_valid_list_is_short,
    lemma_without_ids_members, unlisted, without_ids, IndexView,
};
use crate::segment::{in_tier, segment_ids, total_documents, MergedSegment, Segment, Tier};
use crate::selector::{
    lemma_fitting_tier_is_batch, lemma_short_tier_selects_nothing, lemma_tier_by_creation,
    lemma_zero_cap_selects_nothing, tier_batch, tier_by_creation, tier_members,
};
use crate::segment::total_bytes;

verus! {

/// An index with nothing to merge passes through a step untouched: when the
/// segment list that was read has no batch in either tier, the coordinator
/// asks for no merge and no swap, adds no metrics entry and no failure, and
/// turns to the next index.
pub proof fn law_no_batch_no_work(step: StepView, event: StepEvent)
    requires
        step.job matches Some(job) && job.stage is Reading && job.merged_count == 0,
        event matches StepEvent::Segments { segments, .. } && tier_batch(
            segments@,
            step.config,
            Tier::Small,
        ).len() == 0 && tier_batch(segments@, step.config, Tier::Large).len() == 0,
    ensures
        step.after(event) == step.entering(step.job->Some_0.position as int + 1),
        step.after(event).metrics == step.metrics,
        step.after(event).failures == step.failures,
{
}

/// The segment that a step hands over for commit accounts for every
/// document of the batch it was merged from: once a merge is reported, the
/// step either moves on to commit a segment whose document count is the sum
/// of the document counts of the batch, or, where that sum cannot be
/// represented, gives the index up with a format error.
pub proof fn law_documents_are_conserved(step: StepView, event: StepEvent)
    requires
        step.job matches Some(job) && job.stage is Merging,
        event is Merged,
    ensures
        ({
            let job = step.job->Some_0;
            let batch = job.stage->Merging_batch;
            let next = step.after(event);
            if total_documents(batch) <= u64::MAX {
                &&& next.job is Some
                &&& next.job->Some_0.stage is Committing
                &&& next.job->Some_0.stage->Committing_batch == batch
                &&& next.job->Some_0.stage->Committing_merged.document_count == total_documents(
                    batch,
                )
                &&& next.failures == step.failures
            } else {
                next == step.failing(job, StepError::Format)
            }
        }),
{
}

/// One tier with work, one merge: when a tier of the segment list holds at
/// least `min_compaction_segments` segments that fit under a positive
/// `max_segment_size_bytes` together, and the other tier has no batch, the
/// step has exactly that tier merged, oldest segment first, commits a segment
/// that holds all its documents, and reports the number of segments of the
/// tier as the metrics entry of the index.
pub proof fn law_fitting_tier_is_merged_once(
    step: StepView,
    tier: Tier,
    read: StepEvent,
    written: StepEvent,
    applied: StepEvent,
)
    requires
        step.config.max_segment_size_bytes > 0,
        step.job == Some(JobView::fresh(step.job->Some_0.position)),
        step.job is Some,
        read is Segments,
        written is Merged,
        applied is Committed,
        tier_by_creation(
            read->Segments_segments@,
            step.config.small_segment_threshold_bytes,
            tier,
        ).len() >= step.config.min_compaction_segments,
        step.config.min_compaction_segments >= 1,
        total_bytes(
            tier_by_creation(
                read->Segments_segments@,
                step.config.small_segment_threshold_bytes,
                tier,
            ),
        ) <= step.config.max_segment_size_bytes,
        tier_batch(
            read->Segments_segments@,
            step.config,
            if tier == Tier::Small {
                Tier::Large
            } else {
                Tier::Small
            },
        ).len() == 0,
        total_documents(
            tier_by_creation(
                read->Segments_segments@,
                step.config.small_segment_threshold_bytes,
                tier,
            ),
        ) <= u64::MAX,
    ensures
        ({
            let whole = tier_by_creation(
                read->Segments_segments@,
                step.config.small_segment_threshold_bytes,
                tier,
            );
            let merging = step.after(read);
            let committing = merging.after(written);
            let done = committing.after(applied);
            &&& merging.job matches Some(job) && job.stage matches Stage::Merging { batch, .. }
                && batch == whole
            &&& committing.job matches Some(job) && job.stage matches Stage::Committing {
                batch,
                merged,
                generation,
                ..
            } && batch == whole && generation == read->Segments_generation && merged
                == (MergedSegment {
                id: written->Merged_id,
                byte_size: written->Merged_byte_size,
                document_count: total_documents(whole) as u64,
            })
            &&& done.metrics == step.metrics.insert(
                step.index_of(step.job->Some_0),
                whole.len() as u64,
            )
            &&& done.failures == step.failures
            &&& done == (StepView { metrics: done.metrics, ..step }).entering(
                step.job->Some_0.position as int + 1,
            )
        }),
{
    broadcast use vstd::std_specs::vec::group_vec_axioms;

    let segments = read->Segments_segments@;
    lemma_fitting_tier_is_batch(segments, step.config, tier);
    lemma_tier_by_creation(segments, step.config.small_segment_threshold_bytes, tier);
    assert(segments.len() == read->Segments_segments.len());
}

/// After a tier was swapped as a whole for a merged segment of the same tier,
/// that tier holds one segment, the merged one, and the other tier holds what
/// it held before.
pub proof fn law_merged_tier_holds_one_segment(
    index: IndexView,
    config: ConfigView,
    tier: Tier,
    merged: MergedSegment,
    expected: u64,
)
    requires
        index.valid(),
        in_tier(index.admitted(merged), config.small_segment_threshold_bytes, tier),
        index.refusal(
            segment_ids(tier_by_creation(index.segments, config.small_segment_threshold_bytes, tier)),
            merged,
            expected,
        ) is None,
    ensures
        tier_by_creation(
            index.swapped(
                segment_ids(
                    tier_by_creation(index.segments, config.small_segment_threshold_bytes, tier),
                ),
                merged,
            ).segments,
            config.small_segment_threshold_bytes,
            tier,
        ) == seq![index.admitted(merged)],
{
    let threshold = config.small_segment_threshold_bytes;
    let whole = tier_by_creation(index.segments, threshold, tier);
    let ids = segment_ids(whole);
    let kept = without_ids(index.segments, ids);
    lemma_tier_by_creation(index.segments, threshold, tier);
    lemma_without_ids_members(index.segments, ids);
    assert forall|k: int| 0 <= k < kept.len() implies !in_tier(#[trigger] kept[k], threshold, tier) by {
        if in_tier(kept[k], threshold, tier) {
            let j = choose|j: int| 0 <= j < index.segments.len() && index.segments[j] == kept[k];
            assert(tier_members(threshold, tier)(index.segments[j]));
            index.segments.lemma_filter_contains(tier_members(threshold, tier), j);
            to_multiset_contains(index.segments.filter(tier_members(threshold, tier)), kept[k]);
            to_multiset_contains(whole, kept[k]);
            let at = choose|at: int| 0 <= at < whole.len() && whole[at] == kept[k];
            assert(ids[at] == kept[k].id);
        }
    }
    lemma_tier_of_outsiders(kept, threshold, tier);
    assert(kept.push(index.admitted(merged)).drop_last() =~= kept);
    assert(Seq::<Segment>::empty().insert(0, index.admitted(merged)) =~= seq![
        index.admitted(merged),
    ]);
}

/// A tier holds every segment of the list that falls in it, and nothing
/// that the list does not hold.
pub proof fn lemma_tier_holds_members(segments: Seq<Segment>, threshold: nat, tier: Tier)
    ensures
        forall|j: int|
            0 <= j < segments.len() && in_tier(segments[j], threshold, tier) ==> tier_by_creation(
                segments,
                threshold,
                tier,
            ).contains(#[trigger] segments[j]),
        forall|k: int|
            0 <= k < tier_by_creation(segments, threshold, tier).len() ==> segments.contains(
                #[trigger] tier_by_creation(segments, threshold, tier)[k],
            ),
{
    let whole = tier_by_creation(segments, threshold, tier);
    let kept = segments.filter(tier_members(threshold, tier));
    lemma_tier_by_creation(segments, threshold, tier);
    assert forall|j: int| 0 <= j < segments.len() && in_tier(segments[j], threshold, tier) implies whole.contains(
        #[trigger] segments[j],
    ) by {
        assert(tier_members(threshold, tier)(segments[j]));
        segments.lemma_filter_contains(tier_members(threshold, tier), j);
        to_multiset_contains(kept, segments[j]);
        to_multiset_contains(whole, segments[j]);
    }
    assert forall|k: int| 0 <= k < whole.len() implies segments.contains(#[trigger] whole[k]) by {
        assert(whole.contains(whole[k]));
        to_multiset_contains(whole, whole[k]);
        to_multiset_contains(kept, whole[k]);
        segments.lemma_filter_contains_rev(tier_members(threshold, tier), whole[k]);
    }
}

/// A list without a segment of the tier has an empty tier.
pub proof fn lemma_tier_of_outsiders(segments: Seq<Segment>, threshold: nat, tier: Tier)
    requires
        forall|k: int| 0 <= k < segments.len() ==> !in_tier(#[trigger] segments[k], threshold, tier),
    ensures
        tier_by_creation(segments, threshold, tier) == Seq::<Segment>::empty(),
    decreases segments.len(),
{
    if segments.len() > 0 {
        let shorter = segments.drop_last();
        assert forall|k: int| 0 <= k < shorter.len() implies !in_tier(
            #[trigger] shorter[k],
            threshold,
            tier,
        ) by {
            assert(shorter[k] == segments[k]);
        }
        lemma_tier_of_outsiders(shorter, threshold, tier);
        assert(!in_tier(segments[segments.len() - 1], threshold, tier));
    }
}

/// Whether `event` reports a segment list that has no batch in either tier.
pub open spec fn nothing_to_merge(config: ConfigView, event: StepEvent) -> bool {
    &&& event matches StepEvent::Segments { segments, .. }
    &&& tier_batch(segments@, config, Tier::Small).len() == 0
    &&& tier_batch(segments@, config, Tier::Large).len() == 0
}

/// The state of a step after the driver has answered up to `rounds` pending
/// reads, the read of index `name` with `answers(name)`.
pub open spec fn after_reads(step: StepView, answers: spec_fn(u64) -> StepEvent, rounds: nat)
    -> StepView
    decreases rounds,
{
    if rounds == 0 || step.job is None {
        step
    } else {
        after_reads(
            step.after(answers(step.index_of(step.job->Some_0))),
            answers,
            (rounds - 1) as nat,
        )
    }
}

/// A step over indexes that have nothing to merge is over once every
/// compactable index was read, and reports nothing: no metrics entry and no
/// failure. On the way it asks for reads only, so no segment list changes.
pub proof fn law_quiet_step_reports_nothing(
    config: ConfigView,
    indexes: Seq<IndexEntry>,
    answers: spec_fn(u64) -> StepEvent,
)
    requires
        forall|name: u64| nothing_to_merge(config, #[trigger] answers(name)),
    ensures
        after_reads(StepView::starting(config, indexes), answers, indexes.len()).job is None,
        after_reads(StepView::starting(config, indexes), answers, indexes.len()).metrics
            == Map::<u64, u64>::empty(),
        after_reads(StepView::starting(config, indexes), answers, indexes.len()).failures
            == Seq::<IndexFailure>::empty(),
{
    let idle = StepView {
        config,
        indexes,
        job: None,
        cancelled: false,
        metrics: Map::empty(),
        failures: Seq::empty(),
    };
    lemma_next_compactable_bounds(indexes, 0);
    lemma_quiet_reads(idle, 0, answers, indexes.len());
}

/// The next compactable position lies at or after where the search began
/// and within the list.
pub proof fn lemma_next_compactable_bounds(indexes: Seq<IndexEntry>, from: int)
    requires
        0 <= from,
    ensures
        from <= next_compactable(indexes, from) || next_compactable(indexes, from)
            == indexes.len(),
        next_compactable(indexes, from) <= indexes.len(),
    decreases indexes.len() - from,
{
    if from < indexes.len() && !compactable(indexes[from].state) {
        lemma_next_compactable_bounds(indexes, from + 1);
    }
}

/// Reads that find nothing to merge walk through the list without leaving a
/// trace.
proof fn lemma_quiet_reads(
    idle: StepView,
    from: int,
    answers: spec_fn(u64) -> StepEvent,
    rounds: nat,
)
    requires
        idle.job is None,
        0 <= from,
        rounds + from >= idle.indexes.len(),
        forall|name: u64| nothing_to_merge(idle.config, #[trigger] answers(name)),
    ensures
        after_reads(idle.entering(from), answers, rounds) == idle,
    decreases rounds,
{
    let step = idle.entering(from);
    lemma_next_compactable_bounds(idle.indexes, from);
    if step.job is Some {
        let job = step.job->Some_0;
        let event = answers(step.index_of(job));
        assert(nothing_to_merge(idle.config, event));
        assert(step.after(event) == step.entering(job.position as int + 1));
        assert(step.entering(job.position as int + 1) == idle.entering(job.position as int + 1));
        lemma_quiet_reads(idle, job.position as int + 1, answers, (rounds - 1) as nat);
    } else {
        assert(step == idle);
    }
}

/// Whether `event` reports a segment list both tiers of which hold fewer
/// than `min_compaction_segments` segments.
pub open spec fn tiers_are_short(config: ConfigView, event: StepEvent) -> bool {
    &&& event matches StepEvent::Segments { segments, .. }
    &&& tier_by_creation(segments@, config.small_segment_threshold_bytes, Tier::Small).len()
        < config.min_compaction_segments
    &&& tier_by_creation(segments@, config.small_segment_threshold_bytes, Tier::Large).len()
        < config.min_compaction_segments
}

/// A step merges nothing where every tier of every index holds fewer than
/// `min_compaction_segments` segments: it reports no metrics entry and asks
/// for no change. This is the state a merge that took a whole tier leaves that
/// tier in whenever the minimum is above one, so running the step again on
/// such indexes reports nothing, however often.
pub proof fn law_short_tiers_step_reports_nothing(
    config: ConfigView,
    indexes: Seq<IndexEntry>,
    answers: spec_fn(u64) -> StepEvent,
)
    requires
        forall|name: u64| tiers_are_short(config, #[trigger] answers(name)),
    ensures
        after_reads(StepView::starting(config, indexes), answers, indexes.len()).job is None,
        after_reads(StepView::starting(config, indexes), answers, indexes.len()).metrics
            == Map::<u64, u64>::empty(),
        after_reads(StepView::starting(config, indexes), answers, indexes.len()).failures
            == Seq::<IndexFailure>::empty(),
{
    assert forall|name: u64| nothing_to_merge(config, #[trigger] answers(name)) by {
        assert(tiers_are_short(config, answers(name)));
        let segments = answers(name)->Segments_segments@;
        lemma_short_tier_selects_nothing(segments, config, Tier::Small);
        lemma_short_tier_selects_nothing(segments, config, Tier::Large);
    }
    law_quiet_step_reports_nothing(config, indexes, answers);
}

/// With `max_segment_size_bytes == 0` a step merges nothing, however many
/// segments the indexes hold and whichever their tier: it reports no
/// metrics entry and asks for no change.
pub proof fn law_zero_cap_step_reports_nothing(
    config: ConfigView,
    indexes: Seq<IndexEntry>,
    answers: spec_fn(u64) -> StepEvent,
)
    requires
        config.valid(),
        config.max_segment_size_bytes == 0,
        forall|name: u64| #[trigger] answers(name) is Segments,
    ensures
        after_reads(StepView::starting(config, indexes), answers, indexes.len()).job is None,
        after_reads(StepView::starting(config, indexes), answers, indexes.len()).metrics
            == Map::<u64, u64>::empty(),
        after_reads(StepView::starting(config, indexes), answers, indexes.len()).failures
            == Seq::<IndexFailure>::empty(),
{
    assert forall|name: u64| nothing_to_merge(config, #[trigger] answers(name)) by {
        assert(answers(name) is Segments);
        let segments = answers(name)->Segments_segments@;
        lemma_zero_cap_selects_nothing(segments, config, Tier::Small);
        lemma_zero_cap_selects_nothing(segments, config, Tier::Large);
    }
    law_quiet_step_reports_nothing(config, indexes, answers);
}

/// The segments kept from a list with unique ids are distinct, and each of
/// them is a segment of the list.
pub proof fn lemma_kept_segments_are_distinct(segments: Seq<Segment>, keep: spec_fn(Segment) -> bool)
    requires
        forall|i: int, j: int| 0 <= i < j < segments.len() ==> segments[i].id != segments[j].id,
    ensures
        segments.filter(keep).no_duplicates(),
        forall|k: int|
            0 <= k < segments.filter(keep).len() ==> segments.contains(
                #[trigger] segments.filter(keep)[k],
            ),
    decreases segments.len(),
{
    reveal(Seq::filter);
    if segments.len() > 0 {
        let shorter = segments.drop_last();
        let last = segments.last();
        let kept = shorter.filter(keep);
        lemma_kept_segments_are_distinct(shorter, keep);
        assert forall|k: int| 0 <= k < kept.len() implies segments.contains(#[trigger] kept[k])
            && kept[k] != last by {
            assert(shorter.contains(kept[k]));
            let j = choose|j: int| 0 <= j < shorter.len() && shorter[j] == kept[k];
            assert(segments[j] == kept[k]);
        }
        if keep(last) {
            let longer = kept.push(last);
            assert(segments[segments.len() - 1] == last);
            assert forall|k: int| 0 <= k < longer.len() implies segments.contains(
                #[trigger] longer[k],
            ) by {
                if k < kept.len() {
                    assert(longer[k] == kept[k]);
                }
            }
        }
    }
}

/// The segments of a tier of a list with unique ids have ids that are
/// distinct and that the list holds.
pub proof fn lemma_tier_ids(segments: Seq<Segment>, threshold: nat, tier: Tier)
    requires
        forall|i: int, j: int| 0 <= i < j < segments.len() ==> segments[i].id != segments[j].id,
    ensures
        segment_ids(tier_by_creation(segments, threshold, tier)).no_duplicates(),
        forall|k: int|
            0 <= k < tier_by_creation(segments, threshold, tier).len() ==> segment_ids(
                segments,
            ).contains(#[trigger] segment_ids(tier_by_creation(segments, threshold, tier))[k]),
{
    let whole = tier_by_creation(segments, threshold, tier);
    let kept = segments.filter(tier_members(threshold, tier));
    lemma_tier_by_creation(segments, threshold, tier);
    lemma_kept_segments_are_distinct(segments, tier_members(threshold, tier));
    kept.lemma_multiset_has_no_duplicates();
    whole.lemma_multiset_has_no_duplicates_conv();
    assert forall|k: int| 0 <= k < whole.len() implies segments.contains(#[trigger] whole[k]) by {
        assert(whole.contains(whole[k]));
        to_multiset_contains(whole, whole[k]);
        to_multiset_contains(kept, whole[k]);
        let j = choose|j: int| 0 <= j < kept.len() && kept[j] == whole[k];
        assert(segments.contains(kept[j]));
    }
    assert forall|k: int| 0 <= k < whole.len() implies segment_ids(segments).contains(
        #[trigger] segment_ids(whole)[k],
    ) by {
        assert(segments.contains(whole[k]));
        let j = choose|j: int| 0 <= j < segments.len() && segments[j] == whole[k];
        assert(segment_ids(segments)[j] == whole[k].id);
    }
    assert forall|a: int, b: int|
        0 <= a < segment_ids(whole).len() && 0 <= b < segment_ids(whole).len() && a
            != b implies segment_ids(whole)[a] != segment_ids(whole)[b] by {
        if whole[a].id == whole[b].id {
            assert(segments.contains(whole[a]));
            assert(segments.contains(whole[b]));
            let i = choose|i: int| 0 <= i < segments.len() && segments[i] == whole[a];
            let j = choose|j: int| 0 <= j < segments.len() && segments[j] == whole[b];
            assert(i == j);
        }
    }
}

/// What one step does to an index one tier of which is ready to be merged.
///
/// Take an index whose `tier` holds at least `min_compaction_segments`
/// segments that fit under a positive `max_segment_size_bytes` together,
/// while its other tier has no batch. When the step reads the index, has the
/// merge it asks for written under an id the index does not use, and has the
/// swap it asks for applied to the index, then
/// - the swap is not refused;
/// - the index holds as many segments less as the tier held, plus the
///   merged one;
/// - the merged segment holds all documents of the tier;
/// - if the merged segment falls in the same tier, that tier holds it and
///   nothing else;
/// - the metrics entry of the index is the number of segments the tier held.
pub proof fn law_ready_tier_becomes_one_segment(
    index: IndexView,
    step: StepView,
    tier: Tier,
    id: u64,
    byte_size: u64,
    read: StepEvent,
    written: StepEvent,
    applied: StepEvent,
)
    requires
        index.valid(),
        index.generation < u64::MAX,
        step.config.min_compaction_segments >= 1,
        step.config.max_segment_size_bytes > 0,
        step.job is Some,
        step.job == Some(JobView::fresh(step.job->Some_0.position)),
        step.index_of(step.job->Some_0) == index.name,
        read matches StepEvent::Segments { generation, segments } && generation == index.generation
            && segments@ == index.segments,
        written == (StepEvent::Merged { id, byte_size }),
        applied == (StepEvent::Committed { generation: (index.generation + 1) as u64 }),
        !index.references(id),
        tier_by_creation(index.segments, step.config.small_segment_threshold_bytes, tier).len()
            >= step.config.min_compaction_segments,
        total_bytes(
            tier_by_creation(index.segments, step.config.small_segment_threshold_bytes, tier),
        ) <= step.config.max_segment_size_bytes,
        tier_batch(
            index.segments,
            step.config,
            if tier == Tier::Small {
                Tier::Large
            } else {
                Tier::Small
            },
        ).len() == 0,
        total_documents(
            tier_by_creation(index.segments, step.config.small_segment_threshold_bytes, tier),
        ) <= u64::MAX,
    ensures
        ({
            let threshold = step.config.small_segment_threshold_bytes;
            let whole = tier_by_creation(index.segments, threshold, tier);
            let merged = MergedSegment {
                id,
                byte_size,
                document_count: total_documents(whole) as u64,
            };
            let committing = step.after(read).after(written);
            let done = committing.after(applied);
            let swapped = index.swapped(segment_ids(whole), merged);
            &&& committing.job matches Some(job) && job.stage == (Stage::Committing {
                generation: index.generation as u64,
                batch: whole,
                tier,
                queued: Seq::empty(),
                merged,
            })
            &&& index.refusal(segment_ids(whole), merged, index.generation as u64) is None
            &&& swapped.valid()
            &&& swapped.segments.len() + whole.len() == index.segments.len() + 1
            &&& whole.len() == index.segments.len() ==> swapped.segments.len() == 1
            &&& swapped.segments.last() == index.admitted(merged)
            &&& !index.references(swapped.segments.last().id)
            &&& swapped.segments.last().document_count == total_documents(whole)
            &&& forall|i: int|
                0 <= i < index.segments.len() && !in_tier(index.segments[i], threshold, tier)
                    ==> swapped.segments.contains(#[trigger] index.segments[i])
            &&& forall|k: int|
                0 <= k < swapped.segments.len() - 1 ==> index.segments.contains(
                    #[trigger] swapped.segments[k],
                ) && !in_tier(swapped.segments[k], threshold, tier)
            &&& in_tier(index.admitted(merged), threshold, tier) ==> tier_by_creation(
                swapped.segments,
                threshold,
                tier,
            ) == seq![index.admitted(merged)]
            &&& done.metrics == step.metrics.insert(index.name, whole.len() as u64)
            &&& done.failures == step.failures
        }),
{
    let threshold = step.config.small_segment_threshold_bytes;
    let whole = tier_by_creation(index.segments, threshold, tier);
    let ids = segment_ids(whole);
    let merged = MergedSegment { id, byte_size, document_count: total_documents(whole) as u64 };
    law_fitting_tier_is_merged_once(step, tier, read, written, applied);
    lemma_tier_ids(index.segments, threshold, tier);
    let kept = without_ids(index.segments, ids);
    lemma_without_ids_members(index.segments, ids);
    assert(!segment_ids(kept).contains(id)) by {
        if segment_ids(kept).contains(id) {
            let k = choose|k: int| 0 <= k < segment_ids(kept).len() && segment_ids(kept)[k] == id;
            assert(index.segments.contains(kept[k]));
            let j = choose|j: int| 0 <= j < index.segments.len() && index.segments[j] == kept[k];
            assert(segment_ids(index.segments)[j] == id);
        }
    }
    assert forall|k: int| 0 <= k < ids.len() implies index.references(#[trigger] ids[k]) by {
        assert(segment_ids(index.segments).contains(ids[k]));
    }
    assert(index.refusal(ids, merged, index.generation as u64) is None);
    lemma_swap_keeps_valid(index, ids, merged, index.generation as u64);
    lemma_swap_replaces_batch(index, ids, merged, index.generation as u64);
    if in_tier(index.admitted(merged), threshold, tier) {
        law_merged_tier_holds_one_segment(
            index,
            step.config,
            tier,
            merged,
            index.generation as u64,
        );
    }
    let other = tier_batch(
        index.segments,
        step.config,
        if tier == Tier::Small {
            Tier::Large
        } else {
            Tier::Small
        },
    );
    assert(other =~= Seq::<Segment>::empty());
    let committing = step.after(read).after(written);
    let done = committing.after(applied);
    let swapped = index.swapped(ids, merged);
    assert(committing.job matches Some(job) && job.stage == (Stage::Committing {
        generation: index.generation as u64,
        batch: whole,
        tier,
        queued: Seq::empty(),
        merged,
    }));
    assert(swapped.segments.len() + whole.len() == index.segments.len() + 1);
    assert(swapped.segments.last().document_count == total_documents(whole));
    lemma_valid_list_is_short(index.segments, index.generation);
    lemma_tier_by_creation(index.segments, threshold, tier);
    assert(done.metrics == step.metrics.insert(index.name, whole.len() as u64));
    lemma_tier_holds_members(index.segments, threshold, tier);
    assert forall|i: int|
        0 <= i < index.segments.len() && !in_tier(
            index.segments[i],
            threshold,
            tier,
        ) implies swapped.segments.contains(#[trigger] index.segments[i]) by {
        let outsider = index.segments[i];
        if ids.contains(outsider.id) {
            let at = choose|at: int| 0 <= at < ids.len() && ids[at] == outsider.id;
            assert(index.segments.contains(whole[at]));
            let j = choose|j: int| 0 <= j < index.segments.len() && index.segments[j] == whole[at];
            assert(i == j);
        }
        assert(unlisted(ids)(outsider));
        index.segments.lemma_filter_contains(unlisted(ids), i);
        let k = choose|k: int| 0 <= k < kept.len() && kept[k] == outsider;
        assert(swapped.segments[k] == outsider);
    }
    assert forall|k: int| 0 <= k < swapped.segments.len() - 1 implies index.segments.contains(
        #[trigger] swapped.segments[k],
    ) && !in_tier(swapped.segments[k], threshold, tier) by {
        assert(swapped.segments[k] == kept[k]);
        assert(index.segments.contains(kept[k]));
        if in_tier(kept[k], threshold, tier) {
            let j = choose|j: int| 0 <= j < index.segments.len() && index.segments[j] == kept[k];
            assert(whole.contains(index.segments[j]));
            let at = choose|at: int| 0 <= at < whole.len() && whole[at] == kept[k];
            assert(ids[at] == kept[k].id);
        }
    }
}

/// A step that was told to stop begins no further index: whether the index
/// it was working on ends in good order or fails, the step is over.
pub proof fn law_cancelled_step_begins_no_index(step: StepView, job: JobView, error: StepError)
    ensures
        step.stopping().cancelled,
        step.stopping().finishing(job).job is None,
        step.stopping().failing(job, error).job is None,
        step.job matches Some(current) && current == JobView::fresh(current.position)
            ==> step.stopping().job is None,
        step.stopping().metrics == step.metrics,
        step.stopping().failures == step.failures,
{
}

} // verus!
