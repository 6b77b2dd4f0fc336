//! The pipeline: one stage per priority level, a producer's side that
//! routes messages to their stage, and a consumer's side that serves the
//! stages in strict order of priority.
use flume::Receiver;
use vstd::prelude::*;
use zenoh_protocol::transport::TransportMessage;

use crate::batch::{BatchView, WBatch};
use crate::config::{TransmissionPipelineConf, PRIORITY_DEFAULT, PRIORITY_NUM};
use crate::message::NetMessage;
use crate::seq_num::TransportPriorityTx;
use crate::signal::{signal_channel, signal_handle};
use crate::model::{PullView, Push, StageView, TransportPush};
use crate::stage::{batch_views, Pull, Stage};

verus! {

/// What one pass of the consumer over the stages gave.
pub enum Scan {
    /// A batch to send and the index of the stage it came from.
    Batch(WBatch, usize),
    /// No batch: wait for a wake-up, at most so many nanoseconds, and
    /// scan again.
    Backoff(u32),
    /// The pipeline is disabled.
    Disabled,
}

/// What a pass gave, with the batch as its view.
pub enum ScanView {
    Batch(BatchView, usize),
    Backoff(u32),
    Disabled,
}

impl View for Scan {
    type V = ScanView;

    open spec fn view(&self) -> ScanView {
        match *self {
            Scan::Batch(b, idx) => ScanView::Batch(b@, idx),
            Scan::Backoff(ns) => ScanView::Backoff(ns),
            Scan::Disabled => ScanView::Disabled,
        }
    }
}

/// The receiving ends of the wake-up signals of a pipeline.
pub struct PipelineSignals {
    /// Signalled when a batch may be ready for the consumer.
    pub n_out_r: Receiver<()>,
    /// One per stage: signalled when a batch came back to its pool.
    pub n_ref_r: Vec<Receiver<()>>,
}

/// What a pipeline is to its users.
pub struct PipelineView {
    /// The stages, the highest priority first.
    pub stages: Seq<StageView>,
    /// Whether the consumer still pulls.
    pub active: bool,
    /// How long a droppable message may wait for a batch, in
    /// nanoseconds.
    pub wait_before_drop: u64,
}

/// The smallest backoff that the pulls of the first `n` stages give,
/// `u32::MAX` where none of them backs off.
pub open spec fn min_backoff(stages: Seq<StageView>, n: int) -> u32
    decreases n,
{
    if n <= 0 {
        u32::MAX
    } else {
        let rest = min_backoff(stages, n - 1);
        match stages[n - 1].try_pull_result() {
            PullView::Backoff(ns) => if ns < rest {
                ns
            } else {
                rest
            },
            _ => rest,
        }
    }
}

/// The batches that hold data in the first `n` stages, each with the
/// index of its stage: stage by stage, the ready ones before the one
/// being filled.
pub open spec fn holding_data(stages: Seq<StageView>, n: int) -> Seq<(BatchView, usize)>
    decreases n,
{
    if n <= 0 {
        Seq::empty()
    } else {
        holding_data(stages, n - 1) + stages[n - 1].holding_data().map_values(
            |b: BatchView| (b, (n - 1) as usize),
        )
    }
}

/// The views of drained batches, each with the index of its stage.
pub open spec fn drained_views(batches: Seq<(WBatch, usize)>) -> Seq<(BatchView, usize)> {
    Seq::new(batches.len(), |i: int| (batches[i].0@, batches[i].1))
}

impl PipelineView {
    /// The index of the stage that takes a message of the given
    /// priority: the priority itself where the pipeline tells priorities
    /// apart, else the only stage.
    pub open spec fn route(self, priority: u8) -> int {
        if self.stages.len() > 1 {
            priority as int
        } else {
            0
        }
    }

    /// The priority written into the headers of a message of the given
    /// priority: the priority itself where the pipeline tells priorities
    /// apart, else the default.
    pub open spec fn header_priority(self, priority: u8) -> u8 {
        if self.stages.len() > 1 {
            priority
        } else {
            PRIORITY_DEFAULT
        }
    }

    /// Whether `after` is this pipeline with a pull made on each of the
    /// first `n` stages and nothing else.
    pub open spec fn pulled_upto(self, after: PipelineView, n: int) -> bool {
        &&& after.active == self.active
        &&& after.wait_before_drop == self.wait_before_drop
        &&& after.stages.len() == self.stages.len()
        &&& forall|j: int|
            0 <= j < self.stages.len() ==> #[trigger] after.stages[j] == (if j < n {
                self.stages[j].after_try_pull()
            } else {
                self.stages[j]
            })
    }

    /// Whether none of the first `n` stages gives a batch to a pull.
    pub open spec fn none_ready(self, n: int) -> bool {
        forall|j: int| 0 <= j < n ==> !((#[trigger] self.stages[j]).try_pull_result() is Batch)
    }

    /// What one pass of the consumer does. A disabled pipeline gives
    /// nothing and stays as it is. Else the stages are pulled in the
    /// order of their index up to the first that gives a batch, which is
    /// the result together with that index; the stages behind it are not
    /// touched. Where no stage gives a batch, the result is the smallest
    /// backoff that a stage asks for.
    pub open spec fn scanned(self, after: PipelineView, res: ScanView) -> bool {
        if !self.active {
            res is Disabled && after == self
        } else {
            match res {
                ScanView::Batch(b, idx) => {
                    &&& idx < self.stages.len()
                    &&& self.stages[idx as int].try_pull_result() == PullView::Batch(b)
                    &&& self.none_ready(idx as int)
                    &&& self.pulled_upto(after, idx + 1)
                },
                ScanView::Backoff(ns) => {
                    &&& self.none_ready(self.stages.len() as int)
                    &&& ns == min_backoff(self.stages, self.stages.len() as int)
                    &&& self.pulled_upto(after, self.stages.len() as int)
                },
                ScanView::Disabled => false,
            }
        }
    }

    /// Whether only stage `idx` differs between this pipeline and
    /// `after`.
    pub open spec fn same_but(self, after: PipelineView, idx: int) -> bool {
        &&& after.active == self.active
        &&& after.wait_before_drop == self.wait_before_drop
        &&& after.stages.len() == self.stages.len()
        &&& forall|j: int|
            0 <= j < self.stages.len() && j != idx ==> #[trigger] after.stages[j] == self.stages[j]
    }
}

/// A transmission pipeline with one stage per priority level.
pub struct TransmissionPipeline {
    stages: Vec<Stage>,
    active: bool,
    wait_before_drop: u64,
}

impl View for TransmissionPipeline {
    type V = PipelineView;

    closed spec fn view(&self) -> PipelineView {
        PipelineView {
            stages: Seq::new(self.stages@.len(), |i: int| self.stages@[i]@),
            active: self.active,
            wait_before_drop: self.wait_before_drop,
        }
    }
}

impl TransmissionPipeline {
    /// Every stage keeps its invariant.
    pub closed spec fn stages_inv(&self) -> bool {
        forall|i: int| 0 <= i < self.stages@.len() ==> (#[trigger] self.stages@[i]).inv()
    }

    /// The invariant of a pipeline: it has one stage, or one per
    /// priority level, and every stage keeps its invariant.
    pub open spec fn inv(&self) -> bool {
        &&& self@.stages.len() == 1 || self@.stages.len() == PRIORITY_NUM
        &&& forall|i: int| 0 <= i < self@.stages.len() ==> (#[trigger] self@.stages[i]).inv()
        &&& self.stages_inv()
    }

    /// Makes a pipeline over the channels in `priority`: one stage where
    /// a single channel pair is given, else one stage per priority
    /// level. Every stage owns as many new batches as the configuration
    /// gives its level, all of them free.
    pub fn make(config: TransmissionPipelineConf, priority: &[TransportPriorityTx]) -> (res: (
        TransmissionPipeline,
        PipelineSignals,
    ))
        requires
            config.spec_admits(priority@.len()),
        ensures
            res.0.inv(),
            res.0@.active,
            res.0@.wait_before_drop == config.wait_before_drop,
            res.0@.stages.len() == TransmissionPipelineConf::spec_stage_count(priority@.len()),
            res.1.n_ref_r@.len() == res.0@.stages.len(),
            forall|i: int|
                0 <= i < res.0@.stages.len() ==> #[trigger] res.0@.stages[i] == StageView::fresh(
                    config.spec_stage_queue_size(priority@.len(), i),
                    config.batch,
                    priority@[i],
                    config.backoff,
                ),
    {
        let count: usize = TransmissionPipelineConf::stage_count(priority.len());
        let (n_out_w, n_out_r) = signal_channel(1);
        let mut stages: Vec<Stage> = Vec::new();
        let mut n_ref_r: Vec<Receiver<()>> = Vec::new();
        let mut prio: usize = 0;
        while prio < count
            invariant
                prio <= count,
                count == TransmissionPipelineConf::spec_stage_count(priority@.len()),
                config.spec_admits(priority@.len()),
                stages@.len() == prio,
                n_ref_r@.len() == prio,
                forall|i: int| 0 <= i < prio ==> (#[trigger] stages@[i]).inv(),
                forall|i: int|
                    0 <= i < prio ==> (#[trigger] stages@[i])@ == StageView::fresh(
                        config.spec_stage_queue_size(priority@.len(), i),
                        config.batch,
                        priority@[i],
                        config.backoff,
                    ),
            decreases count - prio,
        {
            let num: usize = config.stage_queue_size(priority.len(), prio);
            let (n_ref_w, r) = signal_channel(1);
            let stage = Stage::new(
                num,
                config.batch,
                priority[prio],
                config.backoff,
                signal_handle(&n_out_w),
                n_ref_w,
            );
            stages.push(stage);
            n_ref_r.push(r);
            prio = prio + 1;
        }
        let pipeline = TransmissionPipeline {
            stages,
            active: true,
            wait_before_drop: config.wait_before_drop,
        };
        (pipeline, PipelineSignals { n_out_r, n_ref_r })
    }

    /// Where the stages before `prio` are already `f` of what they were
    /// at first and stage `prio` has just become `f` of what it was,
    /// the stages up to and with `prio` are `f` of what they were at
    /// first, and the others are as they were.
    proof fn lemma_stage_stepped(
        first: PipelineView,
        before: PipelineView,
        vec_before: Seq<Stage>,
        after: TransmissionPipeline,
        prio: int,
        f: spec_fn(StageView) -> StageView,
    )
        requires
            0 <= prio < vec_before.len(),
            before.stages.len() == vec_before.len(),
            first.stages.len() == vec_before.len(),
            after.stages@.len() == vec_before.len(),
            forall|j: int| 0 <= j < vec_before.len() ==> before.stages[j] == vec_before[j]@,
            forall|j: int|
                0 <= j < vec_before.len() && j != prio ==> after.stages@[j] == vec_before[j],
            after.stages@[prio]@ == f(vec_before[prio]@),
            forall|j: int|
                0 <= j < vec_before.len() ==> #[trigger] before.stages[j] == (if j < prio {
                    f(first.stages[j])
                } else {
                    first.stages[j]
                }),
        ensures
            after@.stages.len() == first.stages.len(),
            forall|j: int|
                0 <= j < vec_before.len() ==> #[trigger] after@.stages[j] == (if j < prio + 1 {
                    f(first.stages[j])
                } else {
                    first.stages[j]
                }),
    {
        assert forall|j: int| 0 <= j < vec_before.len() implies #[trigger] after@.stages[j] == (if j
            < prio + 1 {
            f(first.stages[j])
        } else {
            first.stages[j]
        }) by {
            assert(after@.stages[j] == after.stages@[j]@);
            assert(before.stages[j] == vec_before[j]@);
            if j != prio {
                assert(after.stages@[j] == vec_before[j]);
            }
        }
    }

    /// Number of stages.
    pub fn stage_count(&self) -> (n: usize)
        ensures
            n == self@.stages.len(),
    {
        self.stages.len()
    }

    /// Whether the consumer still pulls.
    pub fn is_active(&self) -> (a: bool)
        ensures
            a == self@.active,
    {
        self.active
    }

    /// How long a droppable message may wait for a batch, in
    /// nanoseconds.
    pub fn wait_before_drop(&self) -> (ns: u64)
        ensures
            ns == self@.wait_before_drop,
    {
        self.wait_before_drop
    }

    /// Pushes a network message into the stage of its priority, or goes
    /// on with the message under way there. A pipeline of one stage
    /// takes every message into that stage and writes the default
    /// priority into its headers.
    pub fn push_network_message(&mut self, msg: &NetMessage) -> (res: Push)
        requires
            old(self).inv(),
        ensures
            final(self).inv(),
            old(self)@.same_but(final(self)@, old(self)@.route(msg.spec_priority())),
            ({
                let idx = old(self)@.route(msg.spec_priority());
                let before = old(self)@.stages[idx];
                let after = final(self)@.stages[idx];
                let channel = before.push_channel(msg.spec_is_reliable());
                let priority = before.push_priority(
                    old(self)@.header_priority(msg.spec_priority()),
                );
                &&& (after, res) == before.network_push(
                    *msg,
                    old(self)@.header_priority(msg.spec_priority()),
                )
                &&& before.push_progress(after, channel, priority)
                &&& before.push_settled(after, channel, priority, msg.spec_is_droppable(), res)
                &&& before.writable() is None ==> res is Blocked && after == before
            }),
    {
        let idx: usize = self.route(msg.priority());
        let priority: u8 = if self.stages.len() > 1 {
            msg.priority()
        } else {
            PRIORITY_DEFAULT
        };
        let stage = &mut self.stages[idx];
        stage.push_network_message(msg, priority)
    }

    /// The index of the stage that takes a message of the given
    /// priority: the priority itself where the pipeline tells priorities
    /// apart, else the only stage.
    pub fn route(&self, priority: u8) -> (idx: usize)
        requires
            self.inv(),
            priority < PRIORITY_NUM,
        ensures
            idx == self@.route(priority),
            idx < self@.stages.len(),
    {
        if self.stages.len() > 1 {
            priority as usize
        } else {
            0
        }
    }

    /// Gives up the network message that is under way in the stage of
    /// `msg`, if there is one. Returns whether one was under way.
    pub fn cancel(&mut self, msg: &NetMessage) -> (was_pending: bool)
        requires
            old(self).inv(),
        ensures
            final(self).inv(),
            old(self)@.same_but(final(self)@, old(self)@.route(msg.spec_priority())),
            ({
                let idx = old(self)@.route(msg.spec_priority());
                &&& was_pending == !(old(self)@.stages[idx].pending is Idle)
                &&& old(self)@.stages[idx].cancelled(final(self)@.stages[idx])
            }),
    {
        let idx: usize = self.route(msg.priority());
        let stage = &mut self.stages[idx];
        stage.cancel()
    }

    /// Pushes a transport message into the stage of the given priority;
    /// a pipeline of one stage takes it into that stage.
    pub fn push_transport_message(&mut self, msg: &TransportMessage, priority: u8) -> (res:
        TransportPush)
        requires
            old(self).inv(),
            priority < PRIORITY_NUM,
        ensures
            final(self).inv(),
            old(self)@.same_but(final(self)@, old(self)@.route(priority)),
            (final(self)@.stages[old(self)@.route(priority)], res) == old(self)@.stages[old(
                self,
            )@.route(priority)].transport_push(*msg),
    {
        let idx: usize = self.route(priority);
        let stage = &mut self.stages[idx];
        stage.push_transport_message(msg)
    }

    /// Stops the consumer: the pipeline is inactive from now on, and
    /// every stage publishes the largest bytes hint and wakes the
    /// consumer unless it is backing off.
    pub fn disable(&mut self)
        requires
            old(self).inv(),
        ensures
            final(self).inv(),
            !final(self)@.active,
            final(self)@.wait_before_drop == old(self)@.wait_before_drop,
            final(self)@.stages.len() == old(self)@.stages.len(),
            forall|j: int|
                0 <= j < old(self)@.stages.len() ==> #[trigger] final(self)@.stages[j]
                    == (old(self)@.stages[j].notified(u16::MAX)),
    {
        self.active = false;
        let n: usize = self.stages.len();
        let mut prio: usize = 0;
        while prio < n
            invariant
                prio <= n,
                n == self.stages@.len(),
                self.inv(),
                !self@.active,
                self@.wait_before_drop == old(self)@.wait_before_drop,
                self@.stages.len() == old(self)@.stages.len(),
                forall|j: int|
                    0 <= j < n ==> #[trigger] self@.stages[j] == (if j < prio {
                        old(self)@.stages[j].notified(u16::MAX)
                    } else {
                        old(self)@.stages[j]
                    }),
            decreases n - prio,
        {
            let ghost before = self@;
            let ghost vec_before = self.stages@;
            self.stages[prio].notify(u16::MAX);
            proof {
                Self::lemma_stage_stepped(
                    old(self)@,
                    before,
                    vec_before,
                    *self,
                    prio as int,
                    |s: StageView| s.notified(u16::MAX),
                );
            }
            prio = prio + 1;
        }
    }

    /// Closes the signals to the producers of every stage, as the
    /// consumer does when it goes away. Nothing else changes.
    pub fn close_refill(&mut self)
        requires
            old(self).inv(),
        ensures
            final(self).inv(),
            final(self)@.active == old(self)@.active,
            final(self)@.wait_before_drop == old(self)@.wait_before_drop,
            final(self)@.stages.len() == old(self)@.stages.len(),
            forall|j: int|
                0 <= j < old(self)@.stages.len() ==> #[trigger] final(self)@.stages[j]
                    == (StageView { refill_closed: true, ..old(self)@.stages[j] }),
    {
        let n: usize = self.stages.len();
        let mut prio: usize = 0;
        while prio < n
            invariant
                prio <= n,
                n == self.stages@.len(),
                self.inv(),
                self@.active == old(self)@.active,
                self@.wait_before_drop == old(self)@.wait_before_drop,
                self@.stages.len() == old(self)@.stages.len(),
                forall|j: int|
                    0 <= j < n ==> #[trigger] self@.stages[j] == (if j < prio {
                        StageView { refill_closed: true, ..old(self)@.stages[j] }
                    } else {
                        old(self)@.stages[j]
                    }),
            decreases n - prio,
        {
            let ghost before = self@;
            let ghost vec_before = self.stages@;
            self.stages[prio].close_refill();
            proof {
                Self::lemma_stage_stepped(
                    old(self)@,
                    before,
                    vec_before,
                    *self,
                    prio as int,
                    |s: StageView| StageView { refill_closed: true, ..s },
                );
            }
            prio = prio + 1;
        }
    }

    /// Closes the signal to the consumer at every stage, as the
    /// producers do when they go away: a consumer that waits for a batch
    /// finds the signal closed. Nothing else changes.
    pub fn close_ready(&mut self)
        requires
            old(self).inv(),
        ensures
            final(self).inv(),
            final(self)@.active == old(self)@.active,
            final(self)@.wait_before_drop == old(self)@.wait_before_drop,
            final(self)@.stages.len() == old(self)@.stages.len(),
            forall|j: int|
                0 <= j < old(self)@.stages.len() ==> #[trigger] final(self)@.stages[j]
                    == (StageView { ready_closed: true, ..old(self)@.stages[j] }),
    {
        let n: usize = self.stages.len();
        let mut prio: usize = 0;
        while prio < n
            invariant
                prio <= n,
                n == self.stages@.len(),
                self.inv(),
                self@.active == old(self)@.active,
                self@.wait_before_drop == old(self)@.wait_before_drop,
                self@.stages.len() == old(self)@.stages.len(),
                forall|j: int|
                    0 <= j < n ==> #[trigger] self@.stages[j] == (if j < prio {
                        StageView { ready_closed: true, ..old(self)@.stages[j] }
                    } else {
                        old(self)@.stages[j]
                    }),
            decreases n - prio,
        {
            let ghost before = self@;
            let ghost vec_before = self.stages@;
            self.stages[prio].close_ready();
            proof {
                Self::lemma_stage_stepped(
                    old(self)@,
                    before,
                    vec_before,
                    *self,
                    prio as int,
                    |s: StageView| StageView { ready_closed: true, ..s },
                );
            }
            prio = prio + 1;
        }
    }

    /// Ends the backoff of every stage, as the consumer does before it
    /// starts to pull.
    pub fn begin_pull(&mut self)
        requires
            old(self).inv(),
        ensures
            final(self).inv(),
            final(self)@.active == old(self)@.active,
            final(self)@.wait_before_drop == old(self)@.wait_before_drop,
            final(self)@.stages.len() == old(self)@.stages.len(),
            forall|j: int|
                0 <= j < old(self)@.stages.len() ==> #[trigger] final(self)@.stages[j]
                    == (StageView {
                    backoff: old(self)@.stages[j].backoff.rested(),
                    ..old(self)@.stages[j]
                }),
    {
        let n: usize = self.stages.len();
        let mut prio: usize = 0;
        while prio < n
            invariant
                prio <= n,
                n == self.stages@.len(),
                self.inv(),
                self@.active == old(self)@.active,
                self@.wait_before_drop == old(self)@.wait_before_drop,
                self@.stages.len() == old(self)@.stages.len(),
                forall|j: int|
                    0 <= j < n ==> #[trigger] self@.stages[j] == (if j < prio {
                        StageView {
                            backoff: old(self)@.stages[j].backoff.rested(),
                            ..old(self)@.stages[j]
                        }
                    } else {
                        old(self)@.stages[j]
                    }),
            decreases n - prio,
        {
            let ghost before = self@;
            let ghost vec_before = self.stages@;
            self.stages[prio].reset_backoff();
            proof {
                Self::lemma_stage_stepped(
                    old(self)@,
                    before,
                    vec_before,
                    *self,
                    prio as int,
                    |s: StageView| StageView { backoff: s.backoff.rested(), ..s },
                );
            }
            prio = prio + 1;
        }
    }

    /// One pass of the consumer over the stages, the highest priority
    /// first.
    pub fn pull(&mut self) -> (res: Scan)
        requires
            old(self).inv(),
        ensures
            final(self).inv(),
            old(self)@.scanned(final(self)@, res@),
    {
        if !self.active {
            return Scan::Disabled;
        }
        let mut bo: u32 = u32::MAX;
        let n: usize = self.stages.len();
        let mut prio: usize = 0;
        while prio < n
            invariant
                prio <= n,
                n == self.stages@.len(),
                self.inv(),
                old(self)@.active,
                old(self)@.none_ready(prio as int),
                old(self)@.pulled_upto(self@, prio as int),
                bo == min_backoff(old(self)@.stages, prio as int),
            decreases n - prio,
        {
            let ghost before = self@;
            let ghost vec_before = self.stages@;
            proof {
                assert(before.stages[prio as int] == old(self)@.stages[prio as int]);
            }
            let pulled = self.stages[prio].try_pull();
            proof {
                Self::lemma_stage_stepped(
                    old(self)@,
                    before,
                    vec_before,
                    *self,
                    prio as int,
                    |s: StageView| s.after_try_pull(),
                );
            }
            match pulled {
                Pull::Batch(batch) => {
                    return Scan::Batch(batch, prio);
                },
                Pull::Backoff(ns) => {
                    if ns < bo {
                        bo = ns;
                    }
                },
                Pull::Empty => {},
            }
            prio = prio + 1;
        }
        Scan::Backoff(bo)
    }

    /// Returns a batch to the pool of the stage it came from and wakes
    /// a producer that waits for one.
    pub fn refill(&mut self, batch: WBatch, priority: usize)
        requires
            old(self).inv(),
            priority < old(self)@.stages.len(),
            old(self)@.stages[priority as int].in_flight > 0,
        ensures
            final(self).inv(),
            old(self)@.same_but(final(self)@, priority as int),
            final(self)@.stages[priority as int] == old(self)@.stages[priority as int].after_refill(
                batch@,
            ),
    {
        let stage = &mut self.stages[priority];
        stage.refill(batch);
    }

    /// Takes every batch that holds data out of the pipeline, stage by
    /// stage, each with the index of its stage. The free batches stay in
    /// their pools.
    pub fn drain(&mut self) -> (batches: Vec<(WBatch, usize)>)
        requires
            old(self).inv(),
        ensures
            final(self).inv(),
            drained_views(batches@) == holding_data(
                old(self)@.stages,
                old(self)@.stages.len() as int,
            ),
            final(self)@.active == old(self)@.active,
            final(self)@.wait_before_drop == old(self)@.wait_before_drop,
            final(self)@.stages.len() == old(self)@.stages.len(),
            forall|j: int|
                0 <= j < old(self)@.stages.len() ==> #[trigger] final(self)@.stages[j] == old(
                    self,
                )@.stages[j].after_drain(),
    {
        let mut batches: Vec<(WBatch, usize)> = Vec::new();
        let n: usize = self.stages.len();
        let mut prio: usize = 0;
        proof {
            assert(drained_views(batches@) =~= holding_data(old(self)@.stages, 0));
        }
        while prio < n
            invariant
                prio <= n,
                n == self.stages@.len(),
                self.inv(),
                self@.active == old(self)@.active,
                self@.wait_before_drop == old(self)@.wait_before_drop,
                self@.stages.len() == old(self)@.stages.len(),
                drained_views(batches@) == holding_data(old(self)@.stages, prio as int),
                forall|j: int|
                    0 <= j < n ==> #[trigger] self@.stages[j] == (if j < prio {
                        old(self)@.stages[j].after_drain()
                    } else {
                        old(self)@.stages[j]
                    }),
            decreases n - prio,
        {
            let ghost before = self@;
            let ghost vec_before = self.stages@;
            proof {
                assert(before.stages[prio as int] == old(self)@.stages[prio as int]);
            }
            let mut bs: Vec<WBatch> = self.stages[prio].drain();
            let ghost all = bs@;
            let ghost base = batches@;
            let ghost tagged = batch_views(all).map_values(|b: BatchView| (b, prio));
            proof {
                Self::lemma_stage_stepped(
                    old(self)@,
                    before,
                    vec_before,
                    *self,
                    prio as int,
                    |s: StageView| s.after_drain(),
                );
                assert(drained_views(batches@) =~= drained_views(base) + tagged.take(0));
                assert(all.skip(0) =~= all);
            }
            while bs.len() > 0
                invariant
                    bs@.len() <= all.len(),
                    bs@ == all.skip(all.len() - bs@.len()),
                    tagged == batch_views(all).map_values(|b: BatchView| (b, prio)),
                    drained_views(batches@) == drained_views(base) + tagged.take(
                        all.len() - bs@.len(),
                    ),
                decreases bs@.len(),
            {
                let ghost k = all.len() - bs@.len();
                let ghost prev = batches@;
                let batch = bs.remove(0);
                batches.push((batch, prio));
                proof {
                    assert(batch == all.skip(k)[0]);
                    assert(all.skip(k).remove(0) =~= all.skip(k + 1));
                    assert(batch_views(all)[k] == batch@);
                    assert(tagged[k] == (batch@, prio));
                    assert(tagged.take(k + 1) =~= tagged.take(k).push(tagged[k]));
                    assert(drained_views(batches@) =~= drained_views(prev).push((batch@, prio)));
                    assert((drained_views(base) + tagged.take(k)).push(tagged[k]) =~= drained_views(
                        base,
                    ) + tagged.take(k + 1));
                    assert(drained_views(batches@) =~= drained_views(base) + tagged.take(k + 1));
                }
            }
            proof {
                assert(tagged.take(all.len() as int) =~= tagged);
            }
            prio = prio + 1;
        }
        batches
    }

    /// Whether the backoff of some stage was cut down to the longest
    /// wait when it was last lengthened.
    pub fn backoff_saturated(&self) -> (saturated: bool)
        requires
            self.inv(),
        ensures
            saturated == exists|j: int|
                0 <= j < self@.stages.len() && (#[trigger] self@.stages[j]).backoff.saturated,
    {
        let n: usize = self.stages.len();
        let mut prio: usize = 0;
        while prio < n
            invariant
                prio <= n,
                n == self.stages@.len(),
                n == self@.stages.len(),
                forall|j: int| 0 <= j < prio ==> !(#[trigger] self@.stages[j]).backoff.saturated,
            decreases n - prio,
        {
            assert(self@.stages[prio as int] == self.stages@[prio as int]@);
            if self.stages[prio].backoff().saturated {
                return true;
            }
            prio = prio + 1;
        }
        false
    }

    /// The stage of index `idx`.
    pub fn stage(&self, idx: usize) -> (s: &Stage)
        requires
            self.inv(),
            idx < self@.stages.len(),
        ensures
            s@ == self@.stages[idx as int],
            s.inv(),
    {
        &self.stages[idx]
    }
}

} // verus!
