//! Configuration of batches and of the pipeline.
use vstd::prelude::*;

verus! {

/// Largest number of batches that one priority may own.
pub const RBLEN: usize = 16;

/// Number of priority levels of a pipeline that distinguishes priorities.
pub const PRIORITY_NUM: usize = 8;

/// Index of the priority used where a message names none.
pub const PRIORITY_DEFAULT: u8 = 5;

/// Number of bytes of the length prefix of a streamed batch.
pub const LENGTH_PREFIX: usize = 2;

/// How a batch is laid out.
#[derive(Clone, Copy, Debug, PartialEq, Eq, Structural)]
pub struct BatchConfig {
    /// Maximum size of a serialized batch, in bytes.
    pub mtu: u16,
    /// Whether a batch starts with a two-byte length prefix.
    pub is_streamed: bool,
}

impl BatchConfig {
    /// Bytes at the start of a batch that belong to the framing, not to
    /// the payload.
    pub open spec fn spec_prefix_len(self) -> usize {
        if self.is_streamed {
            LENGTH_PREFIX
        } else {
            0
        }
    }

    #[verifier::when_used_as_spec(spec_prefix_len)]
    pub fn prefix_len(self) -> (n: usize)
        ensures
            n == self.spec_prefix_len(),
    {
        if self.is_streamed {
            LENGTH_PREFIX
        } else {
            0
        }
    }
}

/// Configuration of a transmission pipeline.
#[derive(Clone, Copy, Debug, PartialEq, Eq)]
pub struct TransmissionPipelineConf {
    /// Layout of every batch of the pipeline.
    pub batch: BatchConfig,
    /// Number of batches owned by each priority.
    pub queue_size: [usize; 8],
    /// How long a droppable message may wait for a batch, in nanoseconds.
    pub wait_before_drop: u64,
    /// Base slot of the pull backoff, in nanoseconds.
    pub backoff: u32,
}

/// Whether `n` batches are an admissible queue size.
pub open spec fn spec_queue_size_ok(n: usize) -> bool {
    1 <= n <= RBLEN
}

#[verifier::when_used_as_spec(spec_queue_size_ok)]
pub fn queue_size_ok(n: usize) -> (ok: bool)
    ensures
        ok == spec_queue_size_ok(n),
{
    n != 0 && n <= RBLEN
}

impl TransmissionPipelineConf {
    /// Number of stages that a pipeline over `priorities` channels has:
    /// one where a single channel is given, else one per priority level.
    pub open spec fn spec_stage_count(priorities: nat) -> nat {
        if priorities == 1 {
            1
        } else {
            PRIORITY_NUM as nat
        }
    }

    /// Queue size of stage `idx` in a pipeline over `priorities` channels.
    /// A pipeline of one stage uses the size configured for the default
    /// priority.
    pub open spec fn spec_stage_queue_size(self, priorities: nat, idx: int) -> usize
        recommends
            0 <= idx < Self::spec_stage_count(priorities),
    {
        if priorities == 1 {
            self.queue_size[PRIORITY_DEFAULT as int]
        } else {
            self.queue_size[idx]
        }
    }

    /// Whether a pipeline can be made from this configuration over
    /// `priorities` channels: there is a channel for every stage and every
    /// stage has an admissible queue size.
    pub open spec fn spec_admits(self, priorities: nat) -> bool {
        &&& priorities == 1 || priorities >= PRIORITY_NUM
        &&& forall|i: int|
            0 <= i < Self::spec_stage_count(priorities) ==> spec_queue_size_ok(
                #[trigger] self.spec_stage_queue_size(priorities, i),
            )
    }

    pub fn stage_count(priorities: usize) -> (n: usize)
        ensures
            n == Self::spec_stage_count(priorities as nat),
    {
        if priorities == 1 {
            1
        } else {
            PRIORITY_NUM
        }
    }

    pub fn stage_queue_size(&self, priorities: usize, idx: usize) -> (n: usize)
        requires
            idx < Self::spec_stage_count(priorities as nat),
        ensures
            n == self.spec_stage_queue_size(priorities as nat, idx as int),
    {
        if priorities == 1 {
            self.queue_size[5]
        } else {
            self.queue_size[idx]
        }
    }

    /// Decides `spec_admits`.
    pub fn admits(&self, priorities: usize) -> (ok: bool)
        ensures
            ok == self.spec_admits(priorities as nat),
    {
        if priorities != 1 && priorities < PRIORITY_NUM {
            return false;
        }
        let count: usize = Self::stage_count(priorities);
        let mut i: usize = 0;
        while i < count
            invariant
                i <= count,
                count == Self::spec_stage_count(priorities as nat),
                forall|j: int|
                    0 <= j < i ==> spec_queue_size_ok(
                        #[trigger] self.spec_stage_queue_size(priorities as nat, j),
                    ),
            decreases count - i,
        {
            if !queue_size_ok(self.stage_queue_size(priorities, i)) {
                return false;
            }
            i += 1;
        }
        true
    }
}

} // verus!
