//! Tunable thresholds of the compaction engine.

use vstd::prelude::*;

verus! {

/// Number of same-tier segments that triggers a merge when nothing else is configured.
pub const DEFAULT_MIN_COMPACTION_SEGMENTS: u32 = 3;

/// Segments below this many bytes count as small when nothing else is configured (10 MiB).
pub const DEFAULT_SMALL_SEGMENT_THRESHOLD_BYTES: u64 = 10485760;

/// Largest cumulative size of one merge when nothing else is configured (10 GiB).
pub const DEFAULT_MAX_SEGMENT_SIZE_BYTES: u64 = 10737418240;

/// Why a configuration was rejected.
#[derive(Clone, Copy, Debug, PartialEq, Eq, Structural)]
pub enum ConfigError {
    /// `min_compaction_segments` was zero: a merge needs at least one source segment.
    ZeroMinCompactionSegments,
}

/// The mathematical content of a [`CompactionConfig`].
pub struct ConfigView {
    pub min_compaction_segments: nat,
    pub small_segment_threshold_bytes: nat,
    pub max_segment_size_bytes: nat,
}

/// Immutable thresholds that steer segment selection.
///
/// A value of this type always has `min_compaction_segments >= 1`.
#[derive(Clone, Copy, Debug)]
pub struct CompactionConfig {
    min_compaction_segments: u32,
    small_segment_threshold_bytes: u64,
    max_segment_size_bytes: u64,
}

impl View for CompactionConfig {
    type V = ConfigView;

    closed spec fn view(&self) -> ConfigView {
        ConfigView {
            min_compaction_segments: self.min_compaction_segments as nat,
            small_segment_threshold_bytes: self.small_segment_threshold_bytes as nat,
            max_segment_size_bytes: self.max_segment_size_bytes as nat,
        }
    }
}

impl ConfigView {
    /// What every configuration satisfies: the minimum batch size is positive
    /// and all three thresholds fit their machine types.
    pub open spec fn valid(self) -> bool {
        &&& 1 <= self.min_compaction_segments <= u32::MAX
        &&& self.small_segment_threshold_bytes <= u64::MAX
        &&& self.max_segment_size_bytes <= u64::MAX
    }
}

impl CompactionConfig {
    #[verifier::type_invariant]
    spec fn positive_minimum(&self) -> bool {
        self.min_compaction_segments >= 1
    }

    /// Builds a configuration, rejecting a zero `min_compaction_segments`.
    /// The two byte thresholds are independent and accepted as given.
    pub fn new(
        min_compaction_segments: u32,
        small_segment_threshold_bytes: u64,
        max_segment_size_bytes: u64,
    ) -> (result: Result<CompactionConfig, ConfigError>)
        ensures
            min_compaction_segments == 0 <==> result == Err::<CompactionConfig, ConfigError>(
                ConfigError::ZeroMinCompactionSegments,
            ),
            min_compaction_segments >= 1 ==> result is Ok && result->Ok_0@ == (ConfigView {
                min_compaction_segments: min_compaction_segments as nat,
                small_segment_threshold_bytes: small_segment_threshold_bytes as nat,
                max_segment_size_bytes: max_segment_size_bytes as nat,
            }),
    {
        if min_compaction_segments == 0 {
            Err(ConfigError::ZeroMinCompactionSegments)
        } else {
            Ok(
                CompactionConfig {
                    min_compaction_segments,
                    small_segment_threshold_bytes,
                    max_segment_size_bytes,
                },
            )
        }
    }

    /// Minimum number of segments a batch needs to be merged.
    pub fn min_compaction_segments(&self) -> (n: u32)
        ensures
            n == self@.min_compaction_segments,
            n >= 1,
            self@.valid(),
    {
        proof {
            use_type_invariant(self);
        }
        self.min_compaction_segments
    }

    /// Boundary between the small tier (strictly below) and the large tier.
    pub fn small_segment_threshold_bytes(&self) -> (n: u64)
        ensures
            n == self@.small_segment_threshold_bytes,
    {
        self.small_segment_threshold_bytes
    }

    /// Upper bound on the cumulative size of the segments merged together.
    pub fn max_segment_size_bytes(&self) -> (n: u64)
        ensures
            n == self@.max_segment_size_bytes,
    {
        self.max_segment_size_bytes
    }

    /// The same configuration with another tier boundary.
    pub fn with_small_segment_threshold_bytes(self, bytes: u64) -> (result: CompactionConfig)
        ensures
            result@ == (ConfigView { small_segment_threshold_bytes: bytes as nat, ..self@ }),
    {
        proof {
            use_type_invariant(&self);
        }
        CompactionConfig {
            min_compaction_segments: self.min_compaction_segments,
            small_segment_threshold_bytes: bytes,
            max_segment_size_bytes: self.max_segment_size_bytes,
        }
    }

    /// The same configuration with another cap on the size of one merge.
    pub fn with_max_segment_size_bytes(self, bytes: u64) -> (result: CompactionConfig)
        ensures
            result@ == (ConfigView { max_segment_size_bytes: bytes as nat, ..self@ }),
    {
        proof {
            use_type_invariant(&self);
        }
        CompactionConfig {
            min_compaction_segments: self.min_compaction_segments,
            small_segment_threshold_bytes: self.small_segment_threshold_bytes,
            max_segment_size_bytes: bytes,
        }
    }

    /// The same configuration with another minimum batch size; zero is rejected.
    pub fn with_min_compaction_segments(self, segments: u32) -> (result: Result<
        CompactionConfig,
        ConfigError,
    >)
        ensures
            segments == 0 <==> result == Err::<CompactionConfig, ConfigError>(
                ConfigError::ZeroMinCompactionSegments,
            ),
            segments >= 1 ==> result is Ok && result->Ok_0@ == (ConfigView {
                min_compaction_segments: segments as nat,
                ..self@
            }),
    {
        CompactionConfig::new(
            segments,
            self.small_segment_threshold_bytes,
            self.max_segment_size_bytes,
        )
    }
}

impl Default for CompactionConfig {
    fn default() -> (result: CompactionConfig)
        ensures
            result@ == (ConfigView {
                min_compaction_segments: DEFAULT_MIN_COMPACTION_SEGMENTS as nat,
                small_segment_threshold_bytes: DEFAULT_SMALL_SEGMENT_THRESHOLD_BYTES as nat,
                max_segment_size_bytes: DEFAULT_MAX_SEGMENT_SIZE_BYTES as nat,
            }),
    {
        CompactionConfig {
            min_compaction_segments: DEFAULT_MIN_COMPACTION_SEGMENTS,
            small_segment_threshold_bytes: DEFAULT_SMALL_SEGMENT_THRESHOLD_BYTES,
            max_segment_size_bytes: DEFAULT_MAX_SEGMENT_SIZE_BYTES,
        }
    }
}

} // verus!
