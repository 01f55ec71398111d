//! The compaction coordinator: one step over a list of indexes.
//!
//! The coordinator performs no input or output. It is a state machine that
//! names the next thing to do ([`StepAction`]) and is told how it went
//! ([`StepEvent`]); whoever drives it reads segment lists, merges segments
//! and commits swaps on its behalf. Indexes are visited one after the other
//! in the order given. For each index that is not disabled the machine reads
//! the segment list, selects one batch per tier, and has each batch merged and
//! then swapped in, the small tier first. A refused swap makes it read and
//! select again, a bounded number of times. A merge that fails, or a swap that
//! keeps being refused, ends the work on that index only: the failure is
//! recorded, the index gets no metrics entry, and the step goes on.

use vstd::prelude::*;
use crate::config::{CompactionConfig, ConfigView};
use crate::index::IndexState;
use crate::merger::{merged_segment, MergeError};
use crate::metrics::CompactionMetrics;
use crate::segment::{ids_of, segment_ids, total_documents, MergedSegment, Segment, Tier};
use crate::selector::{select_batches, tier_batch};

verus! {

/// How many refused swaps on one index are answered by reading and selecting
/// again. One more ends the work on that index.
pub const MAX_COMMIT_RETRIES: u32 = 3;

/// One index as the step is told about it.
#[derive(Clone, Copy, Debug, PartialEq, Eq, Structural)]
pub struct IndexEntry {
    /// Resolved name of the index.
    pub name: u64,
    /// Lifecycle state at the start of the step.
    pub state: IndexState,
}

/// Why the work on one index was given up.
#[derive(Clone, Copy, Debug, PartialEq, Eq, Structural)]
pub enum StepError {
    /// A segment could not be read or written during a merge.
    Storage,
    /// Segment content or metadata was structurally invalid.
    Format,
    /// Swaps kept being refused after all retries.
    Conflict,
}

/// A failure that was isolated to one index.
#[derive(Clone, Copy, Debug, PartialEq, Eq, Structural)]
pub struct IndexFailure {
    /// Resolved name of the index.
    pub index: u64,
    /// What went wrong.
    pub error: StepError,
}

/// What the driver has to do next.
#[derive(Debug)]
pub enum StepAction {
    /// Read the generation and the segment list of `index` and answer with
    /// [`StepEvent::Segments`].
    ReadSegments { index: u64 },
    /// Merge the segments `sources` of `index`, in this order, into one new
    /// stored segment and answer with [`StepEvent::Merged`] or
    /// [`StepEvent::MergeFailed`].
    Merge { index: u64, sources: Vec<u64> },
    /// Swap `old_ids` for `merged` in `index`, provided it is still at
    /// `expected_generation`, and answer with [`StepEvent::Committed`] or
    /// [`StepEvent::Conflicted`].
    Commit { index: u64, old_ids: Vec<u64>, merged: MergedSegment, expected_generation: u64 },
    /// Nothing: the step is over.
    Done,
}

/// What the driver reports back.
#[derive(Debug)]
pub enum StepEvent {
    /// The index is at `generation` and references `segments`.
    Segments { generation: u64, segments: Vec<Segment> },
    /// The merged segment was written under `id` with `byte_size` bytes.
    Merged { id: u64, byte_size: u64 },
    /// The merge produced no segment.
    MergeFailed { error: MergeError },
    /// The swap was applied; the index is now at `generation`.
    Committed { generation: u64 },
    /// The swap was refused; nothing was changed.
    Conflicted,
}

/// Where the work on the current index stands.
pub enum Stage {
    /// Waiting for the segment list.
    Reading,
    /// Waiting for `batch` to be merged. `queued` is the batch of the large
    /// tier from the same selection, to be merged next (empty when none).
    Merging { generation: u64, batch: Seq<Segment>, tier: Tier, queued: Seq<Segment> },
    /// Waiting for `batch` to be swapped for `merged`.
    Committing {
        generation: u64,
        batch: Seq<Segment>,
        tier: Tier,
        queued: Seq<Segment>,
        merged: MergedSegment,
    },
}

/// The work on the current index.
pub struct JobView {
    /// Position of the index in the list of indexes.
    pub position: nat,
    /// Swaps refused so far.
    pub conflicts: nat,
    /// Whether the batch of the small tier has been committed.
    pub small_done: bool,
    /// Whether the batch of the large tier has been committed.
    pub large_done: bool,
    /// Segments merged away so far.
    pub merged_count: nat,
    pub stage: Stage,
}

/// The mathematical content of a [`CompactionStep`].
pub struct StepView {
    pub config: ConfigView,
    pub indexes: Seq<IndexEntry>,
    /// The work in progress; `None` once the step is over.
    pub job: Option<JobView>,
    /// Whether the step was told to stop before the next index.
    pub cancelled: bool,
    pub metrics: Map<u64, u64>,
    pub failures: Seq<IndexFailure>,
}

/// Whether an index in this state is compacted at all.
pub open spec fn compactable(state: IndexState) -> bool {
    state != IndexState::Disabled
}

/// Position of the first compactable index at or after `from`, or the
/// length of the list when there is none.
pub open spec fn next_compactable(indexes: Seq<IndexEntry>, from: int) -> int
    decreases indexes.len() - from,
{
    if from < 0 || from >= indexes.len() {
        indexes.len() as int
    } else if compactable(indexes[from].state) {
        from
    } else {
        next_compactable(indexes, from + 1)
    }
}

/// A count of merged segments grown by `more`, held at the largest value a
/// metrics entry can take.
pub open spec fn grown_count(count: nat, more: nat) -> nat {
    if count + more <= u64::MAX {
        count + more
    } else {
        u64::MAX as nat
    }
}

/// What a failed merge means for the index.
pub open spec fn merge_failure(error: MergeError) -> StepError {
    match error {
        MergeError::Storage => StepError::Storage,
        MergeError::Format => StepError::Format,
    }
}

impl JobView {
    /// The job of an index on which no work has been done yet.
    pub open spec fn fresh(position: nat) -> JobView {
        JobView {
            position,
            conflicts: 0,
            small_done: false,
            large_done: false,
            merged_count: 0,
            stage: Stage::Reading,
        }
    }
}

impl StepView {
    /// The state before anything was done: waiting for the segments of the
    /// first compactable index, or over when there is none.
    pub open spec fn starting(config: ConfigView, indexes: Seq<IndexEntry>) -> StepView {
        (StepView {
            config,
            indexes,
            job: None,
            cancelled: false,
            metrics: Map::empty(),
            failures: Seq::empty(),
        }).entering(0)
    }

    /// Turns to the first compactable index at or after `from`, unless the
    /// step was cancelled, which ends it here.
    pub open spec fn entering(self, from: int) -> StepView {
        let at = next_compactable(self.indexes, from);
        StepView {
            job: if at < self.indexes.len() && !self.cancelled {
                Some(JobView::fresh(at as nat))
            } else {
                None
            },
            ..self
        }
    }

    /// The state after the step was told to stop. An index on which nothing
    /// was done yet is not begun; an index whose merge and commit are under
    /// way is brought to its end, and no further index is begun after it.
    pub open spec fn stopping(self) -> StepView {
        StepView {
            cancelled: true,
            job: match self.job {
                Some(job) if job != JobView::fresh(job.position) => Some(job),
                _ => None,
            },
            ..self
        }
    }

    /// Resolved name of the index that `job` works on.
    pub open spec fn index_of(self, job: JobView) -> u64 {
        self.indexes[job.position as int].name
    }

    /// Ends the work on the index of `job` in good order: if anything was
    /// merged the count becomes the metrics entry of the index; an index
    /// with nothing merged gets no entry.
    pub open spec fn finishing(self, job: JobView) -> StepView {
        (StepView {
            metrics: if job.merged_count > 0 {
                self.metrics.insert(self.index_of(job), job.merged_count as u64)
            } else {
                self.metrics
            },
            ..self
        }).entering(job.position as int + 1)
    }

    /// Gives up the work on the index of `job`: the failure is recorded and
    /// the index gets no metrics entry.
    pub open spec fn failing(self, job: JobView, error: StepError) -> StepView {
        (StepView {
            failures: self.failures.push(IndexFailure { index: self.index_of(job), error }),
            ..self
        }).entering(job.position as int + 1)
    }

    /// Selection on a fresh segment list: the small batch goes first and the
    /// large one waits; tiers already committed in this step are left alone.
    pub open spec fn planned(self, job: JobView, generation: u64, segments: Seq<Segment>)
        -> StepView {
        let small = if job.small_done {
            Seq::empty()
        } else {
            tier_batch(segments, self.config, Tier::Small)
        };
        let large = if job.large_done {
            Seq::empty()
        } else {
            tier_batch(segments, self.config, Tier::Large)
        };
        if small.len() > 0 {
            StepView {
                job: Some(
                    JobView {
                        stage: Stage::Merging {
                            generation,
                            batch: small,
                            tier: Tier::Small,
                            queued: large,
                        },
                        ..job
                    },
                ),
                ..self
            }
        } else if large.len() > 0 {
            StepView {
                job: Some(
                    JobView {
                        stage: Stage::Merging {
                            generation,
                            batch: large,
                            tier: Tier::Large,
                            queued: Seq::empty(),
                        },
                        ..job
                    },
                ),
                ..self
            }
        } else {
            self.finishing(job)
        }
    }

    /// A merge came back with the id and size of the new segment: its
    /// descriptor accounts for all documents of the batch and goes on to be
    /// committed. A batch whose documents cannot be counted fails the index.
    pub open spec fn merged(
        self,
        job: JobView,
        generation: u64,
        batch: Seq<Segment>,
        tier: Tier,
        queued: Seq<Segment>,
        id: u64,
        byte_size: u64,
    ) -> StepView {
        if total_documents(batch) <= u64::MAX {
            StepView {
                job: Some(
                    JobView {
                        stage: Stage::Committing {
                            generation,
                            batch,
                            tier,
                            queued,
                            merged: MergedSegment {
                                id,
                                byte_size,
                                document_count: total_documents(batch) as u64,
                            },
                        },
                        ..job
                    },
                ),
                ..self
            }
        } else {
            self.failing(job, StepError::Format)
        }
    }

    /// A swap was applied: the batch counts as merged and its tier as done.
    /// The queued batch, if any, is merged next against the new generation;
    /// otherwise the index is finished.
    pub open spec fn committed(
        self,
        job: JobView,
        batch: Seq<Segment>,
        tier: Tier,
        queued: Seq<Segment>,
        generation: u64,
    ) -> StepView {
        let progressed = JobView {
            merged_count: grown_count(job.merged_count, batch.len()),
            small_done: job.small_done || tier == Tier::Small,
            large_done: job.large_done || tier == Tier::Large,
            ..job
        };
        if queued.len() > 0 {
            StepView {
                job: Some(
                    JobView {
                        stage: Stage::Merging {
                            generation,
                            batch: queued,
                            tier: Tier::Large,
                            queued: Seq::empty(),
                        },
                        ..progressed
                    },
                ),
                ..self
            }
        } else {
            self.finishing(progressed)
        }
    }

    /// A swap was refused: read and select again, unless the retries are
    /// used up, which fails the index.
    pub open spec fn conflicted(self, job: JobView) -> StepView {
        if job.conflicts >= MAX_COMMIT_RETRIES {
            self.failing(job, StepError::Conflict)
        } else {
            StepView {
                job: Some(JobView { conflicts: job.conflicts + 1, stage: Stage::Reading, ..job }),
                ..self
            }
        }
    }

    /// The state after `event`. An event that does not answer the pending
    /// action changes nothing.
    pub open spec fn after(self, event: StepEvent) -> StepView {
        match self.job {
            None => self,
            Some(job) => match (job.stage, event) {
                (Stage::Reading, StepEvent::Segments { generation, segments }) => self.planned(
                    job,
                    generation,
                    segments@,
                ),
                (
                    Stage::Merging { generation, batch, tier, queued },
                    StepEvent::Merged { id, byte_size },
                ) => self.merged(job, generation, batch, tier, queued, id, byte_size),
                (Stage::Merging { .. }, StepEvent::MergeFailed { error }) => self.failing(
                    job,
                    merge_failure(error),
                ),
                (
                    Stage::Committing { batch, tier, queued, .. },
                    StepEvent::Committed { generation },
                ) => self.committed(job, batch, tier, queued, generation),
                (Stage::Committing { .. }, StepEvent::Conflicted) => self.conflicted(job),
                _ => self,
            },
        }
    }

    /// Whether `action` is what this state asks of the driver.
    pub open spec fn issues(self, action: StepAction) -> bool {
        match self.job {
            None => action is Done,
            Some(job) => match job.stage {
                Stage::Reading => action == (StepAction::ReadSegments { index: self.index_of(job) }),
                Stage::Merging { batch, .. } => {
                    &&& action matches StepAction::Merge { index, sources }
                    &&& index == self.index_of(job)
                    &&& sources@ == segment_ids(batch)
                },
                Stage::Committing { generation, batch, merged, .. } => {
                    &&& action matches StepAction::Commit {
                        index,
                        old_ids,
                        merged: new_segment,
                        expected_generation,
                    }
                    &&& index == self.index_of(job)
                    &&& old_ids@ == segment_ids(batch)
                    &&& new_segment == merged
                    &&& expected_generation == generation
                },
            },
        }
    }

    /// What holds of every state of a step: the job, if any, is on a
    /// compactable index of the list and has not used more than its retries.
    pub open spec fn valid(self) -> bool {
        &&& self.config.valid()
        &&& self.job matches Some(job) ==> {
            &&& job.position < self.indexes.len()
            &&& compactable(self.indexes[job.position as int].state)
            &&& job.conflicts <= MAX_COMMIT_RETRIES
            &&& job.merged_count <= u64::MAX
        }
    }
}

#[derive(Clone, Copy, Debug, PartialEq, Eq, Structural)]
enum Phase {
    Reading,
    Merging,
    Committing,
    Finished,
}

/// One compaction step in progress.
#[derive(Debug)]
pub struct CompactionStep {
    config: CompactionConfig,
    indexes: Vec<IndexEntry>,
    position: usize,
    phase: Phase,
    conflicts: u32,
    small_done: bool,
    large_done: bool,
    merged_count: u64,
    generation: u64,
    batch: Vec<Segment>,
    batch_tier: Tier,
    queued: Vec<Segment>,
    merged: MergedSegment,
    cancelled: bool,
    metrics: CompactionMetrics,
    failures: Vec<IndexFailure>,
}

impl View for CompactionStep {
    type V = StepView;

    closed spec fn view(&self) -> StepView {
        StepView {
            config: self.config@,
            indexes: self.indexes@,
            job: match self.phase {
                Phase::Finished => None,
                Phase::Reading => Some(self.job_at(Stage::Reading)),
                Phase::Merging => Some(
                    self.job_at(
                        Stage::Merging {
                            generation: self.generation,
                            batch: self.batch@,
                            tier: self.batch_tier,
                            queued: self.queued@,
                        },
                    ),
                ),
                Phase::Committing => Some(
                    self.job_at(
                        Stage::Committing {
                            generation: self.generation,
                            batch: self.batch@,
                            tier: self.batch_tier,
                            queued: self.queued@,
                            merged: self.merged,
                        },
                    ),
                ),
            },
            cancelled: self.cancelled,
            metrics: self.metrics@,
            failures: self.failures@,
        }
    }
}

impl CompactionStep {
    spec fn job_at(&self, stage: Stage) -> JobView {
        JobView {
            position: self.position as nat,
            conflicts: self.conflicts as nat,
            small_done: self.small_done,
            large_done: self.large_done,
            merged_count: self.merged_count as nat,
            stage,
        }
    }

    /// Starts a step over `indexes`, to be visited in the order given.
    pub fn begin(config: CompactionConfig, indexes: Vec<IndexEntry>) -> (step: CompactionStep)
        ensures
            step@ == StepView::starting(config@, indexes@),
            step@.valid(),
    {
        let _ = config.min_compaction_segments();
        let mut step = CompactionStep {
            config,
            indexes,
            position: 0,
            phase: Phase::Finished,
            conflicts: 0,
            small_done: false,
            large_done: false,
            merged_count: 0,
            generation: 0,
            batch: Vec::new(),
            batch_tier: Tier::Small,
            queued: Vec::new(),
            merged: MergedSegment { id: 0, byte_size: 0, document_count: 0 },
            cancelled: false,
            metrics: CompactionMetrics::new(),
            failures: Vec::new(),
        };
        step.enter(0);
        step
    }

    /// Turns to the first compactable index at or after `from`.
    fn enter(&mut self, from: usize)
        requires
            from <= old(self).indexes.len(),
            old(self)@.config.valid(),
        ensures
            final(self)@ == old(self)@.entering(from as int),
            final(self)@.valid(),
    {
        let mut at = from;
        while at < self.indexes.len() && self.indexes[at].state == IndexState::Disabled
            invariant
                from <= at <= self.indexes.len(),
                *self == *old(self),
                next_compactable(self.indexes@, from as int) == next_compactable(
                    self.indexes@,
                    at as int,
                ),
            decreases self.indexes.len() - at,
        {
            at = at + 1;
        }
        if at < self.indexes.len() && !self.cancelled {
            self.position = at;
            self.phase = Phase::Reading;
            self.conflicts = 0;
            self.small_done = false;
            self.large_done = false;
            self.merged_count = 0;
        } else {
            self.phase = Phase::Finished;
        }
    }

    /// Ends the work on the current index in good order.
    fn finish_index(&mut self)
        requires
            old(self).phase != Phase::Finished,
            old(self)@.valid(),
        ensures
            final(self)@ == old(self)@.finishing(old(self).job_at(Stage::Reading)),
            final(self)@.valid(),
    {
        assert(self@.job matches Some(job) && job.position == self.position);
        assert(self.position < self.indexes.len());
        if self.merged_count > 0 {
            self.metrics.record(self.indexes[self.position].name, self.merged_count);
        }
        let next = self.position + 1;
        self.enter(next);
    }

    /// Gives up the work on the current index.
    fn fail_index(&mut self, error: StepError)
        requires
            old(self).phase != Phase::Finished,
            old(self)@.valid(),
        ensures
            final(self)@ == old(self)@.failing(old(self).job_at(Stage::Reading), error),
            final(self)@.valid(),
    {
        assert(self@.job matches Some(job) && job.position == self.position);
        assert(self.position < self.indexes.len());
        self.failures.push(IndexFailure { index: self.indexes[self.position].name, error });
        let next = self.position + 1;
        self.enter(next);
    }

    /// Tells the step to stop. An index on which nothing was done yet is not
    /// begun; work under way on an index is brought to its end first. The
    /// action to go on with is the pending one.
    pub fn cancel(&mut self)
        requires
            old(self)@.valid(),
        ensures
            final(self)@ == old(self)@.stopping(),
            final(self)@.valid(),
    {
        self.cancelled = true;
        if self.phase == Phase::Reading && self.conflicts == 0 && !self.small_done
            && !self.large_done && self.merged_count == 0 {
            self.phase = Phase::Finished;
        }
    }

    /// Hands over the metrics gathered by the step.
    pub fn into_metrics(self) -> (metrics: CompactionMetrics)
        ensures
            metrics@ == self@.metrics,
    {
        self.metrics
    }

    /// Whether the step is over.
    pub fn is_finished(&self) -> (finished: bool)
        ensures
            finished == (self@.job is None),
    {
        self.phase == Phase::Finished
    }

    /// The metrics gathered so far. Once the step is over they are its result.
    pub fn metrics(&self) -> (metrics: &CompactionMetrics)
        ensures
            metrics@ == self@.metrics,
    {
        &self.metrics
    }

    /// The failures isolated so far, in the order they happened.
    pub fn failures(&self) -> (failures: &Vec<IndexFailure>)
        ensures
            failures@ == self@.failures,
    {
        &self.failures
    }

    /// What the driver has to do next.
    pub fn pending(&self) -> (action: StepAction)
        requires
            self@.valid(),
        ensures
            self@.issues(action),
    {
        match self.phase {
            Phase::Finished => StepAction::Done,
            Phase::Reading => StepAction::ReadSegments { index: self.indexes[self.position].name },
            Phase::Merging => StepAction::Merge {
                index: self.indexes[self.position].name,
                sources: ids_of(&self.batch),
            },
            Phase::Committing => StepAction::Commit {
                index: self.indexes[self.position].name,
                old_ids: ids_of(&self.batch),
                merged: self.merged,
                expected_generation: self.generation,
            },
        }
    }

    /// Takes the driver's report on the pending action and names the next
    /// action. A report that does not answer the pending action is ignored
    /// and the pending action is named again.
    pub fn handle(&mut self, event: StepEvent) -> (action: StepAction)
        requires
            old(self)@.valid(),
        ensures
            final(self)@ == old(self)@.after(event),
            final(self)@.issues(action),
            final(self)@.valid(),
    {
        match event {
            StepEvent::Segments { generation, segments } => {
                if self.phase == Phase::Reading {
                    let selection = select_batches(&segments, &self.config);
                    let mut small = selection.small;
                    let mut large = selection.large;
                    if self.small_done {
                        small = Vec::new();
                    }
                    if self.large_done {
                        large = Vec::new();
                    }
                    if small.len() > 0 {
                        self.generation = generation;
                        self.batch = small;
                        self.batch_tier = Tier::Small;
                        self.queued = large;
                        self.phase = Phase::Merging;
                    } else if large.len() > 0 {
                        self.generation = generation;
                        self.batch = large;
                        self.batch_tier = Tier::Large;
                        self.queued = Vec::new();
                        self.phase = Phase::Merging;
                    } else {
                        self.finish_index();
                    }
                }
            },
            StepEvent::Merged { id, byte_size } => {
                if self.phase == Phase::Merging {
                    match merged_segment(&self.batch, id, byte_size) {
                        Ok(merged) => {
                            self.merged = merged;
                            self.phase = Phase::Committing;
                        },
                        Err(_) => {
                            self.fail_index(StepError::Format);
                        },
                    }
                }
            },
            StepEvent::MergeFailed { error } => {
                if self.phase == Phase::Merging {
                    let failure = match error {
                        MergeError::Storage => StepError::Storage,
                        MergeError::Format => StepError::Format,
                    };
                    self.fail_index(failure);
                }
            },
            StepEvent::Committed { generation } => {
                if self.phase == Phase::Committing {
                    let more: u64 = self.batch.len() as u64;
                    self.merged_count = self.merged_count.saturating_add(more);
                    match self.batch_tier {
                        Tier::Small => {
                            self.small_done = true;
                        },
                        Tier::Large => {
                            self.large_done = true;
                        },
                    }
                    if self.queued.len() > 0 {
                        let mut next: Vec<Segment> = Vec::new();
                        std::mem::swap(&mut self.queued, &mut next);
                        self.generation = generation;
                        self.batch = next;
                        self.batch_tier = Tier::Large;
                        self.phase = Phase::Merging;
                    } else {
                        self.finish_index();
                    }
                }
            },
            StepEvent::Conflicted => {
                if self.phase == Phase::Committing {
                    if self.conflicts >= MAX_COMMIT_RETRIES {
                        self.fail_index(StepError::Conflict);
                    } else {
                        self.conflicts = self.conflicts + 1;
                        self.phase = Phase::Reading;
                    }
                }
            },
        }
        self.pending()
    }
}

} // verus!
