//! One priority level of the pipeline: its pool of batches, the batch
//! being filled, the batches that await the consumer, and the state of
//! the producer and of the consumer of that level.
use flume::Sender;
use vstd::prelude::*;
use vstd::slice::slice_subrange;
use zenoh_codec::transport::batch::BatchError;
use zenoh_protocol::transport::TransportMessage;

use crate::backoff::Backoff;
use crate::batch::{serialize_network, BatchView, WBatch};
use crate::config::{spec_queue_size_ok, BatchConfig, PRIORITY_NUM, RBLEN};
use crate::message::NetMessage;
use crate::model::{
    lemma_push_progress_trans, lemma_push_settled_trans, Pending, PullView, Push, StageView,
    TransportPush,
};
use crate::ring::BatchRing;
use crate::seq_num::{spec_sn_fits, spec_sn_next, TransportPriorityTx};
use crate::signal::{signal, signal_channel};
use crate::wire::{lemma_wire_chained_push, WireRecord};

verus! {

/// What a pull from one stage gave.
pub enum Pull {
    /// A batch to send.
    Batch(WBatch),
    /// Nothing to send and nothing being written.
    Empty,
    /// Bytes are being written: look again after so many nanoseconds.
    Backoff(u32),
}

impl View for Pull {
    type V = PullView;

    open spec fn view(&self) -> PullView {
        match *self {
            Pull::Batch(b) => PullView::Batch(b@),
            Pull::Empty => PullView::Empty,
            Pull::Backoff(ns) => PullView::Backoff(ns),
        }
    }
}

/// The views of a sequence of batches.
pub open spec fn batch_views(batches: Seq<WBatch>) -> Seq<BatchView> {
    Seq::new(batches.len(), |i: int| batches[i]@)
}

/// The views of a sequence with one more batch are the views with one
/// more view.
pub proof fn lemma_views_push(batches: Seq<WBatch>, batch: WBatch)
    ensures
        batch_views(batches.push(batch)) == batch_views(batches).push(batch@),
{
    assert(batch_views(batches.push(batch)) =~= batch_views(batches).push(batch@));
}

/// The views of a sequence without its first batch are the views
/// without the first view.
pub proof fn lemma_views_drop_first(batches: Seq<WBatch>)
    ensures
        batches.len() > 0 ==> batch_views(batches.drop_first()) == batch_views(
            batches,
        ).drop_first(),
        batch_views(batches).len() == batches.len(),
{
    if batches.len() > 0 {
        assert(batch_views(batches.drop_first()) =~= batch_views(batches).drop_first());
    }
}

/// One priority level of the pipeline.
pub struct Stage {
    refill: BatchRing,
    ready: BatchRing,
    current: Option<WBatch>,
    refill_len: usize,
    ready_len: usize,
    bytes: u16,
    in_flight: usize,
    queue_size: usize,
    backoff: Backoff,
    channels: TransportPriorityTx,
    scratch: Vec<u8>,
    pending: Pending,
    n_out_w: Sender<()>,
    n_ref_w: Sender<()>,
    wire_reliable: Ghost<Seq<WireRecord>>,
    wire_best_effort: Ghost<Seq<WireRecord>>,
    consumer_wakes: Ghost<nat>,
    producer_wakes: Ghost<nat>,
    refill_closed: Ghost<bool>,
    ready_closed: Ghost<bool>,
}

impl View for Stage {
    type V = StageView;

    closed spec fn view(&self) -> StageView {
        StageView {
            refill: batch_views(self.refill@),
            ready: batch_views(self.ready@),
            current: match self.current {
                Some(b) => Some(b@),
                None => None,
            },
            bytes: self.bytes,
            in_flight: self.in_flight as nat,
            queue_size: self.queue_size as nat,
            backoff: self.backoff,
            channels: self.channels,
            scratch: self.scratch@,
            pending: self.pending,
            wire_reliable: self.wire_reliable@,
            wire_best_effort: self.wire_best_effort@,
            consumer_wakes: self.consumer_wakes@,
            producer_wakes: self.producer_wakes@,
            refill_closed: self.refill_closed@,
            ready_closed: self.ready_closed@,
        }
    }
}

impl Stage {
    /// The counters agree with the rings.
    pub closed spec fn counted(&self) -> bool {
        &&& self.refill_len == self.refill@.len()
        &&& self.ready_len == self.ready@.len()
    }

    /// The invariant of a stage while an operation holds `held` of its
    /// batches.
    pub open spec fn inv_holding(&self, held: nat) -> bool {
        &&& self@.inv_holding(held)
        &&& self.counted()
    }

    /// The invariant of a stage between operations.
    pub open spec fn inv(&self) -> bool {
        self.inv_holding(0)
    }

    /// A stage that owns `size` new batches for `config`, all of them
    /// free. `n_out_w` wakes the consumer and `n_ref_w` wakes a producer
    /// that waits for a batch.
    pub fn new(
        size: usize,
        config: BatchConfig,
        channels: TransportPriorityTx,
        tslot: u32,
        n_out_w: Sender<()>,
        n_ref_w: Sender<()>,
    ) -> (stage: Stage)
        requires
            spec_queue_size_ok(size),
        ensures
            stage.inv(),
            stage@ == StageView::fresh(size, config, channels, tslot),
    {
        let mut refill = BatchRing::new();
        let mut filled: usize = 0;
        while filled < size
            invariant
                filled <= size <= RBLEN,
                refill@.len() == filled,
                batch_views(refill@) == Seq::new(filled as nat, |i: int| BatchView::fresh(config)),
            decreases size - filled,
        {
            let batch = WBatch::new(config);
            proof {
                lemma_views_push(refill@, batch);
                assert(Seq::new(filled as nat, |i: int| BatchView::fresh(config)).push(batch@)
                    =~= Seq::new((filled + 1) as nat, |i: int| BatchView::fresh(config)));
            }
            let _ = refill.push(batch);
            filled = filled + 1;
        }
        let ready = BatchRing::new();
        proof {
            assert(batch_views(ready@) =~= Seq::<BatchView>::empty());
        }
        Stage {
            refill,
            ready,
            current: None,
            refill_len: size,
            ready_len: 0,
            bytes: 0,
            in_flight: 0,
            queue_size: size,
            backoff: Backoff::new(tslot),
            channels,
            scratch: Vec::new(),
            pending: Pending::Idle,
            n_out_w,
            n_ref_w,
            wire_reliable: Ghost(Seq::empty()),
            wire_best_effort: Ghost(Seq::empty()),
            consumer_wakes: Ghost(0),
            producer_wakes: Ghost(0),
            refill_closed: Ghost(false),
            ready_closed: Ghost(false),
        }
    }

    /// Number of batches that the stage owns.
    pub fn queue_size(&self) -> (n: usize)
        ensures
            n == self@.queue_size,
    {
        self.queue_size
    }

    /// Number of batches that the consumer holds.
    pub fn in_flight(&self) -> (n: usize)
        ensures
            n == self@.in_flight,
    {
        self.in_flight
    }

    /// Number of free batches.
    pub fn refill_len(&self) -> (n: usize)
        requires
            self.inv(),
        ensures
            n == self@.refill.len(),
    {
        self.refill_len
    }

    /// Number of batches that await the consumer.
    pub fn ready_len(&self) -> (n: usize)
        requires
            self.inv(),
        ensures
            n == self@.ready.len(),
    {
        self.ready_len
    }

    /// Whether a batch is being filled.
    pub fn has_current(&self) -> (b: bool)
        ensures
            b == (self@.current is Some),
    {
        self.current.is_some()
    }

    /// The bytes hint.
    pub fn bytes_hint(&self) -> (bytes: u16)
        ensures
            bytes == self@.bytes,
    {
        self.bytes
    }

    /// The state of the consumer's backoff.
    pub fn backoff(&self) -> (b: Backoff)
        ensures
            b == self@.backoff,
    {
        self.backoff
    }

    /// The number that the generator of a channel gives next.
    pub fn next_sn(&self, reliable: bool) -> (sn: u32)
        ensures
            sn == self@.generator(reliable).value(),
    {
        if reliable {
            self.channels.reliable.sn.now()
        } else {
            self.channels.best_effort.sn.now()
        }
    }

    /// Whether a network message is under way.
    pub fn is_pending(&self) -> (p: bool)
        ensures
            p == !(self@.pending is Idle),
    {
        match self.pending {
            Pending::Idle => false,
            _ => true,
        }
    }

    /// Takes the batch to write into: the current one, else a cleared
    /// one from the pool. Gives nothing where neither is there.
    fn take_batch(&mut self) -> (res: Option<WBatch>)
        requires
            old(self).inv_holding(0),
        ensures
            res matches Some(b) ==> {
                &&& final(self).inv_holding(1)
                &&& Some(b@) == old(self)@.writable()
                &&& final(self)@ == old(self)@.taken()
                &&& final(self)@.current is None
            },
            res is None ==> {
                &&& old(self)@.writable() is None
                &&& final(self)@ == old(self)@
                &&& final(self).inv_holding(0)
            },
    {
        match self.current.take() {
            Some(batch) => Some(batch),
            None => match self.refill.pop() {
                Some(mut batch) => {
                    self.refill_len = self.refill_len - 1;
                    proof {
                        lemma_views_drop_first(old(self).refill@);
                    }
                    batch.clear();
                    Some(batch)
                },
                None => None,
            },
        }
    }

    /// Stores the bytes hint and wakes the consumer unless it is backing
    /// off.
    pub fn notify(&mut self, bytes: u16)
        ensures
            final(self)@ == old(self)@.notified(bytes),
            forall|held: nat| old(self).inv_holding(held) ==> final(self).inv_holding(held),
    {
        self.bytes = bytes;
        if !self.backoff.backoff {
            let _ = signal(&self.n_out_w);
            proof {
                self.consumer_wakes@ = self.consumer_wakes@ + 1;
            }
        }
    }

    /// Hands a batch to the consumer's queue, clears the bytes hint and
    /// wakes the consumer.
    fn move_batch(&mut self, batch: WBatch)
        requires
            old(self).inv_holding(1),
        ensures
            final(self)@ == old(self)@.moved(batch@),
            final(self).inv_holding(0),
    {
        proof {
            lemma_views_push(self.ready@, batch);
        }
        let _ = self.ready.push(batch);
        self.ready_len = self.ready_len + 1;
        self.bytes = 0;
        let _ = signal(&self.n_out_w);
        proof {
            self.consumer_wakes@ = self.consumer_wakes@ + 1;
        }
    }

    /// Makes a batch the current one, publishes its length as the bytes
    /// hint and wakes the consumer unless it is backing off.
    fn store_batch(&mut self, batch: WBatch)
        requires
            old(self).inv_holding(1),
            old(self)@.current is None,
            old(self)@.pending is Idle,
        ensures
            final(self)@ == old(self)@.stored(batch@),
            final(self).inv_holding(0),
    {
        let bytes: u16 = batch.len();
        self.current = Some(batch);
        self.notify(bytes);
    }

    /// Puts a batch into the current slot.
    fn keep_batch(&mut self, batch: WBatch)
        requires
            old(self).inv_holding(1),
            old(self)@.current is None,
            !(old(self)@.pending is Idle) ==> batch@.is_empty(),
        ensures
            final(self)@ == (StageView { current: Some(batch@), ..old(self)@ }),
            final(self).inv_holding(0),
    {
        self.current = Some(batch);
    }
}

/// The producer's side of a stage.
impl Stage {
    /// Pushes a transport message. It is never fragmented.
    pub fn push_transport_message(&mut self, msg: &TransportMessage) -> (res: TransportPush)
        requires
            old(self).inv(),
        ensures
            final(self).inv(),
            (final(self)@, res) == old(self)@.transport_push(*msg),
    {
        match self.pending {
            Pending::Idle => {},
            _ => {
                return TransportPush::Blocked;
            },
        }
        let mut batch = match self.take_batch() {
            Some(batch) => batch,
            None => {
                return TransportPush::Blocked;
            },
        };
        if batch.encode_transport(msg) {
            self.store_batch(batch);
            return TransportPush::Stored;
        }
        if batch.is_empty() {
            self.keep_batch(batch);
            return TransportPush::Refused;
        }
        self.move_batch(batch);
        let mut batch = match self.take_batch() {
            Some(batch) => batch,
            None => {
                return TransportPush::Blocked;
            },
        };
        if batch.encode_transport(msg) {
            self.store_batch(batch);
            TransportPush::Stored
        } else {
            self.keep_batch(batch);
            TransportPush::Refused
        }
    }

    /// Pushes a network message, or goes on with the one under way.
    ///
    /// The message goes into the frame that is open in the writable
    /// batch, else behind a new frame header with the channel's next
    /// sequence number, in that batch or, where it does not fit, in the
    /// next free one. A message that does not fit into an empty batch is
    /// cut into fragments, one batch each. Every batch written goes to
    /// the consumer's queue.
    pub fn push_network_message(&mut self, msg: &NetMessage, priority: u8) -> (res: Push)
        requires
            old(self).inv(),
            priority < PRIORITY_NUM,
        ensures
            final(self).inv(),
            (final(self)@, res) == old(self)@.network_push(*msg, priority),
            old(self)@.push_progress(
                final(self)@,
                old(self)@.push_channel(msg.spec_is_reliable()),
                old(self)@.push_priority(priority),
            ),
            old(self)@.push_settled(
                final(self)@,
                old(self)@.push_channel(msg.spec_is_reliable()),
                old(self)@.push_priority(priority),
                msg.spec_is_droppable(),
                res,
            ),
            old(self)@.writable() is None ==> res is Blocked && final(self)@ == old(self)@,
    {
        match self.pending {
            Pending::Idle => self.push_start(msg, priority),
            Pending::Frame { reliable, sn, priority } => {
                proof {
                    assert(self@.pending_wf());
                }
                self.push_framed(msg, reliable, sn, priority)
            },
            Pending::Fragment { .. } => self.push_fragments(),
        }
    }

    /// Gives up the network message under way, if there is one: its
    /// sequence number is the next again. Returns whether a message was
    /// under way.
    pub fn cancel(&mut self) -> (was_pending: bool)
        requires
            old(self).inv(),
        ensures
            final(self).inv(),
            was_pending == !(old(self)@.pending is Idle),
            old(self)@.cancelled(final(self)@),
    {
        match self.pending {
            Pending::Idle => false,
            Pending::Frame { reliable, sn, .. } => {
                self.abandon(reliable, sn);
                true
            },
            Pending::Fragment { reliable, first_sn, .. } => {
                self.abandon(reliable, first_sn);
                true
            },
        }
    }

    /// Allocates the next number of a channel.
    fn allocate(&mut self, reliable: bool) -> (sn: u32)
        ensures
            sn == old(self)@.generator(reliable).value(),
            spec_sn_fits(sn, old(self)@.generator(reliable).mask()),
            final(self)@.generator(reliable).value() == spec_sn_next(
                sn,
                old(self)@.generator(reliable).mask(),
            ),
            final(self)@.generator(reliable).mask() == old(self)@.generator(reliable).mask(),
            final(self)@.generator(!reliable) == old(self)@.generator(!reliable),
            final(self)@ == old(self)@.with_generator(
                reliable,
                old(self)@.generator(reliable).advanced(),
            ),
            final(self).counted() == old(self).counted(),
    {
        if reliable {
            self.channels.reliable.sn.get()
        } else {
            self.channels.best_effort.sn.get()
        }
    }

    /// Gives up the push under way on a channel: restores the number,
    /// records the abandonment and forgets the push.
    fn abandon(&mut self, reliable: bool, sn: u32)
        requires
            old(self).inv(),
            old(self)@.pending_on(reliable),
            sn == old(self)@.rollback_sn(reliable),
        ensures
            final(self).inv(),
            final(self)@ == old(self)@.abandoned(reliable, sn),
            final(self)@.generator(reliable).value() == sn,
            final(self)@.generator(reliable).mask() == old(self)@.generator(reliable).mask(),
            old(self)@.cancelled(final(self)@),
    {
        proof {
            self@.generator(reliable).lemma_moved(sn);
        }
        let ghost mask = self@.generator(reliable).mask();
        let ghost log = self@.wire(reliable);
        let ghost record = WireRecord::Abandoned { sn };
        if reliable {
            let _ = self.channels.reliable.sn.set(sn);
            proof {
                self.wire_reliable@ = log.push(record);
            }
        } else {
            let _ = self.channels.best_effort.sn.set(sn);
            proof {
                self.wire_best_effort@ = log.push(record);
            }
        }
        self.pending = Pending::Idle;
        self.scratch.clear();
        proof {
            lemma_wire_chained_push(log, record, mask);
        }
    }

    /// Records a frame header and ends the push that wrote it.
    fn frame_written(&mut self, reliable: bool, sn: u32, priority: u8)
        requires
            old(self).inv_holding(1),
            old(self)@.pending == (Pending::Frame { reliable, sn, priority }),
        ensures
            final(self).inv_holding(1),
            final(self)@ == old(self)@.frame_logged(),
    {
        let ghost mask = self@.generator(reliable).mask();
        let ghost log = self@.wire(reliable);
        let ghost record = WireRecord::Frame { sn, priority };
        proof {
            if reliable {
                self.wire_reliable@ = log.push(record);
            } else {
                self.wire_best_effort@ = log.push(record);
            }
            lemma_wire_chained_push(log, record, mask);
        }
        self.pending = Pending::Idle;
    }

    /// The first attempts of a push: into the open frame, then behind a
    /// new frame header.
    #[verifier::rlimit(100)]
    fn push_start(&mut self, msg: &NetMessage, priority: u8) -> (res: Push)
        requires
            old(self).inv(),
            old(self)@.pending is Idle,
            priority < PRIORITY_NUM,
        ensures
            final(self).inv(),
            (final(self)@, res) == old(self)@.push_started(*msg, priority),
            old(self)@.push_progress(final(self)@, msg.spec_is_reliable(), priority),
            old(self)@.push_settled(
                final(self)@,
                msg.spec_is_reliable(),
                priority,
                msg.spec_is_droppable(),
                res,
            ),
            old(self)@.writable() is None ==> res is Blocked && final(self)@ == old(self)@,
    {
        let ghost c = msg.spec_is_reliable();
        let ghost start = self@;
        proof {
            assert(start.ready.is_prefix_of(start.ready));
            assert(start.wire(c).is_prefix_of(start.wire(c)));
            assert(start.refill.skip(0) =~= start.refill);
        }
        let mut batch = match self.take_batch() {
            Some(batch) => batch,
            None => {
                return Push::Blocked { droppable: msg.is_droppable() };
            },
        };
        proof {
            if start.current is None {
                assert(start.refill.drop_first() =~= start.refill.skip(1));
            }
        }
        let e = match batch.encode_network(msg) {
            Ok(()) => {
                self.move_batch(batch);
                return Push::Sent;
            },
            Err(e) => e,
        };
        let reliable = msg.is_reliable();
        let sn: u32 = self.allocate(reliable);
        self.pending = Pending::Frame { reliable, sn, priority };
        match e {
            BatchError::NewFrame => {
                if batch.encode_frame(msg, true, sn, priority) {
                    self.frame_written(reliable, sn, priority);
                    self.move_batch(batch);
                    return Push::Sent;
                }
            },
            BatchError::DidntWrite => {},
        }
        if !batch.is_empty() {
            self.move_batch(batch);
            let ghost mid = self@;
            let res = self.push_framed(msg, reliable, sn, priority);
            proof {
                lemma_push_progress_trans(start, mid, self@, c, priority);
                lemma_push_settled_trans(
                    start,
                    mid,
                    self@,
                    c,
                    priority,
                    msg.spec_is_droppable(),
                    res,
                );
            }
            return res;
        }
        let ghost mid = self@;
        let res = self.push_framed_on(batch, msg, reliable, sn, priority);
        proof {
            lemma_push_progress_trans(start, mid, self@, c, priority);
            lemma_push_settled_trans(
                start,
                mid,
                self@,
                c,
                priority,
                msg.spec_is_droppable(),
                res,
            );
        }
        res
    }

    /// The framed attempt of a push whose frame waits for a batch.
    fn push_framed(&mut self, msg: &NetMessage, reliable: bool, sn: u32, priority: u8) -> (res:
        Push)
        requires
            old(self).inv(),
            old(self)@.pending == (Pending::Frame { reliable, sn, priority }),
        ensures
            final(self).inv(),
            (final(self)@, res) == old(self)@.push_framed(*msg),
            old(self)@.push_progress(final(self)@, reliable, priority),
            old(self)@.push_settled(
                final(self)@,
                reliable,
                priority,
                msg.spec_is_droppable(),
                res,
            ),
            old(self)@.writable() is None ==> res is Blocked && final(self)@ == old(self)@,
    {
        let ghost start = self@;
        proof {
            assert(start.ready.is_prefix_of(start.ready));
            assert(start.wire(reliable).is_prefix_of(start.wire(reliable)));
            assert(start.refill.skip(0) =~= start.refill);
        }
        let batch = match self.take_batch() {
            Some(batch) => batch,
            None => {
                return Push::Blocked { droppable: false };
            },
        };
        let ghost mid = self@;
        proof {
            if start.current is None {
                assert(start.refill.drop_first() =~= start.refill.skip(1));
            }
        }
        let res = self.push_framed_on(batch, msg, reliable, sn, priority);
        proof {
            lemma_push_progress_trans(start, mid, self@, reliable, priority);
            lemma_push_settled_trans(
                start,
                mid,
                self@,
                reliable,
                priority,
                msg.spec_is_droppable(),
                res,
            );
        }
        res
    }

    /// The framed attempt on a batch in hand, and the fragmentation that
    /// follows where it fails.
    fn push_framed_on(
        &mut self,
        batch: WBatch,
        msg: &NetMessage,
        reliable: bool,
        sn: u32,
        priority: u8,
    ) -> (res: Push)
        requires
            old(self).inv_holding(1),
            old(self)@.pending == (Pending::Frame { reliable, sn, priority }),
            old(self)@.current is None,
            batch@.is_empty(),
        ensures
            final(self).inv(),
            (final(self)@, res) == old(self)@.push_framed_on(batch@, *msg),
            old(self)@.push_progress(final(self)@, reliable, priority),
            old(self)@.push_settled(
                final(self)@,
                reliable,
                priority,
                msg.spec_is_droppable(),
                res,
            ),
            !(res is Blocked && final(self)@ == old(self)@),
    {
        let ghost start = self@;
        let mut batch = batch;
        proof {
            assert(start.ready.is_prefix_of(start.ready));
            assert(start.wire(reliable).is_prefix_of(start.wire(reliable)));
            assert(start.refill.skip(0) =~= start.refill);
        }
        if batch.encode_frame(msg, true, sn, priority) {
            self.frame_written(reliable, sn, priority);
            self.move_batch(batch);
            return Push::Sent;
        }
        self.keep_batch(batch);
        match serialize_network(msg.message()) {
            None => {
                self.abandon(reliable, sn);
                Push::Abandoned
            },
            Some(bytes) => {
                self.scratch = bytes;
                self.pending = Pending::Fragment { reliable, first_sn: sn, sn, priority, offset: 0 };
                let ghost mid = self@;
                let res = self.push_fragments();
                proof {
                    lemma_push_progress_trans(start, mid, self@, reliable, priority);
                    lemma_push_settled_trans(
                        start,
                        mid,
                        self@,
                        reliable,
                        priority,
                        msg.spec_is_droppable(),
                        res,
                    );
                }
                res
            },
        }
    }

    /// Records a fragment header and moves the push under way behind the
    /// bytes that the fragment carries; ends the push with the last
    /// fragment.
    fn fragment_written(&mut self, written: usize, more: bool)
        requires
            old(self).inv_holding(1),
            old(self)@.pending is Fragment,
            1 <= written,
            old(self)@.pending->Fragment_offset + written <= old(self)@.scratch.len(),
            more == (old(self)@.pending->Fragment_offset + written < old(self)@.scratch.len()),
        ensures
            final(self).inv_holding(1),
            final(self)@ == old(self)@.fragment_logged(written, more),
            final(self)@.generator(old(self)@.push_channel(true)).mask() == old(self)@.generator(
                old(self)@.push_channel(true),
            ).mask(),
    {
        let (reliable, first_sn, sn, priority, offset) = match self.pending {
            Pending::Fragment { reliable, first_sn, sn, priority, offset } => (
                reliable,
                first_sn,
                sn,
                priority,
                offset,
            ),
            _ => {
                // No other case while a fragmentation is under way.
                proof {
                    assert(false);
                }
                return ;
            },
        };
        let len: usize = self.scratch.len();
        let next: u32 = self.allocate(reliable);
        let ghost mask = self@.generator(reliable).mask();
        let ghost log = self@.wire(reliable);
        let ghost record = WireRecord::Fragment {
            sn,
            more,
            priority,
            message: self.scratch@,
            start: offset as nat,
            len: written as nat,
        };
        proof {
            if reliable {
                self.wire_reliable@ = log.push(record);
            } else {
                self.wire_best_effort@ = log.push(record);
            }
            lemma_wire_chained_push(log, record, mask);
        }
        if more {
            self.pending = Pending::Fragment {
                reliable,
                first_sn,
                sn: next,
                priority,
                offset: offset + written,
            };
        } else {
            self.pending = Pending::Idle;
            self.scratch.clear();
        }
    }

    /// Writes the next fragment of the message under way into a batch
    /// of its own. Gives the result of the push where the push ends or
    /// cannot go on, and nothing where more fragments are left.
    #[verifier::rlimit(60)]
    fn push_fragment(&mut self) -> (res: Option<Push>)
        requires
            old(self).inv(),
            old(self)@.pending is Fragment,
        ensures
            final(self).inv(),
            old(self)@.push_progress(
                final(self)@,
                old(self)@.push_channel(true),
                old(self)@.push_priority(0),
            ),
            res matches Some(r) ==> forall|droppable: bool|
                old(self)@.push_settled(
                    final(self)@,
                    old(self)@.push_channel(true),
                    old(self)@.push_priority(0),
                    droppable,
                    r,
                ),
            res matches Some(r) ==> (final(self)@, r) == old(self)@.push_fragmented(),
            res is None ==> final(self)@.push_fragmented() == old(self)@.push_fragmented(),
            res is None ==> {
                &&& final(self)@.pending is Fragment
                &&& final(self)@.scratch == old(self)@.scratch
                &&& final(self)@.pending->Fragment_offset > old(self)@.pending->Fragment_offset
                &&& final(self)@.ready.len() > old(self)@.ready.len()
            },
            old(self)@.writable() is None ==> res == Some(Push::Blocked { droppable: false })
                && final(self)@ == old(self)@,
    {
        let ghost start = self@;
        let ghost c = start.push_channel(true);
        proof {
            assert(start.ready.is_prefix_of(start.ready));
            assert(start.wire(c).is_prefix_of(start.wire(c)));
            assert(start.refill.skip(0) =~= start.refill);
        }
        let (reliable, first_sn, sn, priority, offset) = match self.pending {
            Pending::Fragment { reliable, first_sn, sn, priority, offset } => (
                reliable,
                first_sn,
                sn,
                priority,
                offset,
            ),
            _ => {
                // No other case while a fragmentation is under way.
                proof {
                    assert(false);
                }
                return Some(Push::Abandoned);
            },
        };
        let mut batch = match self.take_batch() {
            Some(batch) => batch,
            None => {
                return Some(Push::Blocked { droppable: false });
            },
        };
        let ghost taken = self@;
        proof {
            if start.current is None {
                assert(start.refill.drop_first() =~= start.refill.skip(1));
            }
            assert(taken.ready.is_prefix_of(taken.ready));
            assert(taken.refill.skip(0) =~= taken.refill);
        }
        let len: usize = self.scratch.len();
        let window: usize = batch.capacity();
        let end: usize = if len - offset > window {
            offset + window
        } else {
            len
        };
        let chunk = slice_subrange(self.scratch.as_slice(), offset, end);
        match batch.encode_fragment(chunk, true, sn, priority) {
            Some(written) => {
                proof {
                    assert(chunk@.subrange(0, written.written as int) =~= start.scratch.subrange(
                        offset as int,
                        offset + written.written,
                    ));
                }
                self.fragment_written(written.written, written.more);
                self.move_batch(batch);
                proof {
                    assert(start.ready.is_prefix_of(self@.ready));
                    assert(start.wire(c).is_prefix_of(self@.wire(c)));
                    assert(self@.ready.last() == batch@);
                }
                if written.more {
                    None
                } else {
                    Some(Push::Sent)
                }
            },
            None => {
                self.keep_batch(batch);
                self.abandon(reliable, first_sn);
                proof {
                    assert(start.wire(c).is_prefix_of(self@.wire(c)));
                }
                Some(Push::Abandoned)
            },
        }
    }

    /// Writes the fragments that are left of the message under way, one
    /// batch each, until all are written, none fits, or no batch is free.
    fn push_fragments(&mut self) -> (res: Push)
        requires
            old(self).inv(),
            old(self)@.pending is Fragment,
        ensures
            final(self).inv(),
            (final(self)@, res) == old(self)@.push_fragmented(),
            old(self)@.push_progress(
                final(self)@,
                old(self)@.push_channel(true),
                old(self)@.push_priority(0),
            ),
            forall|droppable: bool|
                old(self)@.push_settled(
                    final(self)@,
                    old(self)@.push_channel(true),
                    old(self)@.push_priority(0),
                    droppable,
                    res,
                ),
            old(self)@.writable() is None ==> res is Blocked && final(self)@ == old(self)@,
    {
        let ghost start = self@;
        let ghost c = start.push_channel(true);
        let ghost p = start.push_priority(0);
        match self.push_fragment() {
            Some(res) => {
                return res;
            },
            None => {},
        }
        loop
            invariant
                self.inv(),
                self@.pending is Fragment,
                start == old(self)@,
                start.pending is Fragment,
                start.writable() is Some,
                c == start.push_channel(true),
                p == start.push_priority(0),
                start.push_progress(self@, c, p),
                self@.push_fragmented() == start.push_fragmented(),
                self@.ready.len() > start.ready.len(),
            decreases self@.scratch.len() - self@.pending->Fragment_offset,
        {
            let ghost round = self@;
            let step = self.push_fragment();
            proof {
                lemma_push_progress_trans(start, round, self@, c, p);
            }
            match step {
                Some(res) => {
                    proof {
                        assert forall|droppable: bool|
                            start.push_settled(self@, c, p, droppable, res) by {
                            lemma_push_settled_trans(start, round, self@, c, p, droppable, res);
                        }
                    }
                    return res;
                },
                None => {},
            }
        }
    }
}

/// The consumer's side of a stage.
impl Stage {
    /// Tries to obtain the next batch to send without waiting.
    pub fn try_pull(&mut self) -> (res: Pull)
        requires
            old(self).inv(),
        ensures
            res@ == old(self)@.try_pull_result(),
            final(self)@ == old(self)@.after_try_pull(),
            final(self).inv(),
    {
        proof {
            lemma_views_drop_first(self.ready@);
        }
        match self.ready.pop() {
            Some(batch) => {
                self.ready_len = self.ready_len - 1;
                self.in_flight = self.in_flight + 1;
                Pull::Batch(batch)
            },
            None => self.try_pull_deep(),
        }
    }

    /// Looks for a batch that is being filled and has not grown since
    /// the last look.
    pub fn try_pull_deep(&mut self) -> (res: Pull)
        requires
            old(self).inv(),
        ensures
            res@ == old(self)@.deep_pull_result(),
            final(self)@ == old(self)@.after_deep_pull(),
            final(self).inv(),
    {
        let new_bytes: u16 = self.bytes;
        let old_bytes: u16 = self.backoff.last_bytes;
        self.backoff.last_bytes = new_bytes;
        if new_bytes == old_bytes {
            proof {
                lemma_views_drop_first(self.ready@);
            }
            match self.ready.pop() {
                Some(batch) => {
                    self.ready_len = self.ready_len - 1;
                    self.in_flight = self.in_flight + 1;
                    return Pull::Batch(batch);
                },
                None => {},
            }
            match self.current.take() {
                Some(batch) => {
                    self.bytes = 0;
                    self.in_flight = self.in_flight + 1;
                    return Pull::Batch(batch);
                },
                None => {
                    return Pull::Empty;
                },
            }
        }
        let _ = self.backoff.next();
        Pull::Backoff(self.backoff.retry_time)
    }

    /// Returns a batch to the pool and wakes a producer that waits for
    /// one.
    pub fn refill(&mut self, batch: WBatch)
        requires
            old(self).inv(),
            old(self)@.in_flight > 0,
        ensures
            final(self)@ == old(self)@.after_refill(batch@),
            final(self).inv(),
    {
        proof {
            lemma_views_push(self.refill@, batch);
        }
        let _ = self.refill.push(batch);
        self.refill_len = self.refill_len + 1;
        self.in_flight = self.in_flight - 1;
        let _ = signal(&self.n_ref_w);
        proof {
            self.producer_wakes@ = self.producer_wakes@ + 1;
        }
    }

    /// Takes every batch that holds data out of the stage: the ready
    /// ones, the oldest first, then the one being filled. The free
    /// batches stay in the pool.
    pub fn drain(&mut self) -> (batches: Vec<WBatch>)
        requires
            old(self).inv(),
        ensures
            batch_views(batches@) == old(self)@.holding_data(),
            final(self)@ == old(self)@.after_drain(),
            final(self).inv(),
    {
        let mut batches: Vec<WBatch> = Vec::new();
        proof {
            assert(old(self)@.ready.skip(0) =~= old(self)@.ready);
            assert(old(self)@.ready.take(0) =~= batch_views(batches@));
        }
        loop
            invariant
                self.inv(),
                batches@.len() <= old(self)@.ready.len(),
                batch_views(batches@) == old(self)@.ready.take(batches@.len() as int),
                self@ == (StageView {
                    ready: old(self)@.ready.skip(batches@.len() as int),
                    in_flight: old(self)@.in_flight + batches@.len(),
                    ..old(self)@
                }),
            ensures
                self.inv(),
                batch_views(batches@) == old(self)@.ready,
                self@ == (StageView {
                    ready: Seq::<BatchView>::empty(),
                    in_flight: old(self)@.in_flight + batches@.len(),
                    ..old(self)@
                }),
            decreases self@.ready.len(),
        {
            let ghost before = batches@;
            let ghost ring = self.ready@;
            proof {
                lemma_views_drop_first(self.ready@);
            }
            match self.ready.pop() {
                Some(batch) => {
                    self.ready_len = self.ready_len - 1;
                    self.in_flight = self.in_flight + 1;
                    batches.push(batch);
                    proof {
                        let n = before.len() as int;
                        lemma_views_push(before, batch);
                        assert(batch_views(ring)[0] == batch@);
                        assert(old(self)@.ready.skip(n)[0] == old(self)@.ready[n]);
                        assert(old(self)@.ready.skip(n).drop_first() =~= old(self)@.ready.skip(
                            n + 1,
                        ));
                        assert(old(self)@.ready.take(n).push(old(self)@.ready[n]) =~= old(
                            self,
                        )@.ready.take(n + 1));
                    }
                },
                None => {
                    proof {
                        let n = before.len() as int;
                        assert(old(self)@.ready.take(n) =~= old(self)@.ready);
                        assert(old(self)@.ready.skip(n) =~= Seq::<BatchView>::empty());
                    }
                    break ;
                },
            }
        }
        match self.current.take() {
            Some(batch) => {
                proof {
                    lemma_views_push(batches@, batch);
                }
                self.in_flight = self.in_flight + 1;
                batches.push(batch);
            },
            None => {},
        }
        self.bytes = 0;
        batches
    }

    /// Closes the stage's end of the signal to the consumer, as the
    /// producers do when they go away: once every stage has closed its
    /// end, a consumer that waits for a batch finds the signal closed.
    /// Nothing else changes.
    pub fn close_ready(&mut self)
        ensures
            final(self)@ == (StageView { ready_closed: true, ..old(self)@ }),
            forall|held: nat| old(self).inv_holding(held) ==> final(self).inv_holding(held),
    {
        let (n_out_w, _n_out_r) = signal_channel(1);
        self.n_out_w = n_out_w;
        proof {
            self.ready_closed@ = true;
        }
    }

    /// Ends the consumer's backoff.
    pub fn reset_backoff(&mut self)
        ensures
            final(self)@ == (StageView {
                backoff: old(self)@.backoff.rested(),
                ..old(self)@
            }),
            old(self).inv() ==> final(self).inv(),
    {
        self.backoff.reset();
    }

    /// Closes the signal to the producers of the stage, as the consumer
    /// does when it goes away: a producer that waits for a batch, now or
    /// later, finds the signal closed. Nothing else changes.
    pub fn close_refill(&mut self)
        ensures
            final(self)@ == (StageView { refill_closed: true, ..old(self)@ }),
            forall|held: nat| old(self).inv_holding(held) ==> final(self).inv_holding(held),
    {
        let (n_ref_w, _n_ref_r) = signal_channel(1);
        self.n_ref_w = n_ref_w;
        proof {
            self.refill_closed@ = true;
        }
    }
}

} // verus!
