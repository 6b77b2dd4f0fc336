//! What a stage is to its users: the mathematical state of one priority
//! level and what each operation does to it.
use vstd::prelude::*;

use crate::backoff::{spec_backoff_next, Backoff};
use crate::batch::{frame_continues, network_wire, BatchView};
use crate::message::NetMessage;
use crate::config::{BatchConfig, PRIORITY_NUM, RBLEN};
use crate::seq_num::{
    spec_sn_fits, spec_sn_next, SeqNumGenerator, TransportChannelTx, TransportPriorityTx,
};
use zenoh_protocol::transport::TransportMessage;
use crate::wire::{wire_chained, WireRecord};

verus! {

/// What a pull gave, with the batch as its view.
pub enum PullView {
    Batch(BatchView),
    Empty,
    Backoff(u32),
}

/// How the push of a network message ended.
#[derive(Clone, Copy, Debug, PartialEq, Eq, Structural)]
pub enum Push {
    /// The message, or the last of its fragments, went to the consumer's
    /// queue.
    Sent,
    /// The message does not fit into an empty batch and cannot be
    /// fragmented either: it is lost and its sequence number restored.
    Abandoned,
    /// No batch is free. The push has kept its progress and goes on with
    /// the next call. `droppable` tells whether the caller may give up
    /// at its deadline or has to wait: it may give up only a droppable
    /// message of which nothing is under way yet. Where the wait itself
    /// fails, `cancel` gives the message up.
    Blocked { droppable: bool },
}

/// How the push of a transport message ended.
#[derive(Clone, Copy, Debug, PartialEq, Eq, Structural)]
pub enum TransportPush {
    /// The message is in the batch being filled.
    Stored,
    /// The message does not fit into an empty batch.
    Refused,
    /// No batch is free, or a network message is under way: call again.
    Blocked,
}

/// A network message that a push has begun and not finished.
#[derive(Clone, Copy, Debug, PartialEq, Eq, Structural)]
pub enum Pending {
    /// No push is under way.
    Idle,
    /// A sequence number was allocated for the frame of the message; the
    /// frame waits for an empty batch.
    Frame { reliable: bool, sn: u32, priority: u8 },
    /// The message is being fragmented. `first_sn` is the number of its
    /// first fragment, `sn` that of the next one, which starts at byte
    /// `offset` of the scratch buffer.
    Fragment { reliable: bool, first_sn: u32, sn: u32, priority: u8, offset: usize },
}

/// What a stage is to its users.
pub struct StageView {
    /// The free batches, the next to be used first.
    pub refill: Seq<BatchView>,
    /// The batches that await the consumer, the oldest first.
    pub ready: Seq<BatchView>,
    /// The batch being filled.
    pub current: Option<BatchView>,
    /// Bytes written into the current batch at its last update.
    pub bytes: u16,
    /// Batches that the consumer holds.
    pub in_flight: nat,
    /// Batches that the stage owns.
    pub queue_size: nat,
    pub backoff: Backoff,
    pub channels: TransportPriorityTx,
    /// The serialized message that is being fragmented.
    pub scratch: Seq<u8>,
    pub pending: Pending,
    /// The headers written on the reliable channel, in ready order.
    pub wire_reliable: Seq<WireRecord>,
    /// The headers written on the best-effort channel, in ready order.
    pub wire_best_effort: Seq<WireRecord>,
    /// How often the stage has signalled the consumer.
    pub consumer_wakes: nat,
    /// How often the stage has signalled its producers.
    pub producer_wakes: nat,
    /// Whether the signal to the producers was closed.
    pub refill_closed: bool,
    /// Whether the stage's end of the signal to the consumer was closed.
    pub ready_closed: bool,
}

impl StageView {
    /// Batches inside the stage.
    pub open spec fn batches(self) -> nat {
        self.refill.len() + self.ready.len() + (if self.current is Some {
            1nat
        } else {
            0nat
        })
    }

    /// Every batch of the stage is either inside it, with the consumer,
    /// or one of the `held` batches in the hands of a running operation.
    pub open spec fn conserved(self, held: nat) -> bool {
        &&& 1 <= self.queue_size <= RBLEN
        &&& self.batches() + self.in_flight + held == self.queue_size
    }

    pub open spec fn generator(self, reliable: bool) -> SeqNumGenerator {
        if reliable {
            self.channels.reliable.sn
        } else {
            self.channels.best_effort.sn
        }
    }

    pub open spec fn wire(self, reliable: bool) -> Seq<WireRecord> {
        if reliable {
            self.wire_reliable
        } else {
            self.wire_best_effort
        }
    }

    /// Whether a push under way has allocated a number on the channel.
    pub open spec fn pending_on(self, reliable: bool) -> bool {
        match self.pending {
            Pending::Idle => false,
            Pending::Frame { reliable: r, .. } => r == reliable,
            Pending::Fragment { reliable: r, .. } => r == reliable,
        }
    }

    /// The number that the next header on the channel carries: the one
    /// that a push under way holds for it, else the generator's next.
    pub open spec fn next_sn(self, reliable: bool) -> u32 {
        match self.pending {
            Pending::Frame { reliable: r, sn, .. } if r == reliable => sn,
            Pending::Fragment { reliable: r, sn, .. } if r == reliable => sn,
            _ => self.generator(reliable).value(),
        }
    }

    /// What a push under way must satisfy: it has left no data in the
    /// slot, its numbers fit the resolution, the generator has moved one
    /// past the number it holds, and a fragmentation has bytes left to
    /// send. The scratch buffer is empty but during a fragmentation.
    pub open spec fn pending_wf(self) -> bool {
        &&& !(self.pending is Idle) ==> (self.current matches Some(b) ==> b.is_empty())
        &&& !(self.pending is Fragment) ==> self.scratch.len() == 0
        &&& self.pending_numbered()
    }

    /// What a push under way must satisfy of its numbers.
    pub open spec fn pending_numbered(self) -> bool {
        match self.pending {
            Pending::Idle => true,
            Pending::Frame { reliable, sn, priority } => {
                &&& priority < PRIORITY_NUM
                &&& spec_sn_fits(sn, self.generator(reliable).mask())
                &&& self.generator(reliable).value() == spec_sn_next(
                    sn,
                    self.generator(reliable).mask(),
                )
            },
            Pending::Fragment { reliable, first_sn, sn, priority, offset } => {
                &&& priority < PRIORITY_NUM
                &&& spec_sn_fits(first_sn, self.generator(reliable).mask())
                &&& spec_sn_fits(sn, self.generator(reliable).mask())
                &&& self.generator(reliable).value() == spec_sn_next(
                    sn,
                    self.generator(reliable).mask(),
                )
                &&& offset < self.scratch.len()
            },
        }
    }

    /// Whether a fragmentation on the channel has written a fragment and
    /// has more to write.
    pub open spec fn series_open(self, reliable: bool) -> bool {
        self.pending matches Pending::Fragment { reliable: r, offset, .. } && r == reliable
            && offset > 0
    }

    /// The log of the channel is chained, the next number continues it,
    /// and it ends in a fragment that announces more exactly while the
    /// series of that fragment is under way; the fragmentation then
    /// stands where that fragment stopped in the scratch buffer.
    pub open spec fn channel_chained(self, reliable: bool) -> bool {
        let log = self.wire(reliable);
        let mask = self.generator(reliable).mask();
        &&& wire_chained(log, mask)
        &&& log.len() > 0 ==> self.next_sn(reliable) == log.last().successor(mask)
        &&& (log.len() > 0 && log.last().is_open_fragment()) == self.series_open(reliable)
        &&& self.series_open(reliable) ==> {
            &&& log.last()->message == self.scratch
            &&& log.last()->start + log.last()->len == self.pending->Fragment_offset
            &&& log.last()->Fragment_priority == self.pending->Fragment_priority
        }
    }

    /// The invariant of a stage while an operation holds `held` of its
    /// batches: the batches are conserved, the flag is raised while the
    /// consumer backs off, a push under way is well formed, and the logs
    /// of both channels are chained.
    pub open spec fn inv_holding(self, held: nat) -> bool {
        &&& self.conserved(held)
        &&& self.backoff.retry_time != 0 ==> self.backoff.backoff
        &&& self.pending_wf()
        &&& self.channel_chained(true)
        &&& self.channel_chained(false)
    }

    /// The invariant of a stage between operations.
    pub open spec fn inv(self) -> bool {
        self.inv_holding(0)
    }

    /// A stage that owns `size` new batches, all of them free.
    pub open spec fn fresh(
        size: usize,
        config: BatchConfig,
        channels: TransportPriorityTx,
        tslot: u32,
    ) -> StageView {
        StageView {
            refill: Seq::new(size as nat, |i: int| BatchView::fresh(config)),
            ready: Seq::<BatchView>::empty(),
            current: None,
            bytes: 0,
            in_flight: 0,
            queue_size: size as nat,
            backoff: Backoff {
                tslot,
                retry_time: 0,
                last_bytes: 0,
                backoff: false,
                saturated: false,
            },
            channels,
            scratch: Seq::<u8>::empty(),
            pending: Pending::Idle,
            wire_reliable: Seq::<WireRecord>::empty(),
            wire_best_effort: Seq::<WireRecord>::empty(),
            consumer_wakes: 0,
            producer_wakes: 0,
            refill_closed: false,
            ready_closed: false,
        }
    }

    /// The batch that the next write goes into, as it will be taken: the
    /// current one, else the first free one, cleared.
    pub open spec fn writable(self) -> Option<BatchView> {
        match self.current {
            Some(c) => Some(c),
            None => if self.refill.len() > 0 {
                Some(self.refill[0].cleared())
            } else {
                None
            },
        }
    }

    /// The stage after the writable batch was taken out.
    pub open spec fn taken(self) -> StageView {
        match self.current {
            Some(_) => StageView { current: None, ..self },
            None => StageView { refill: self.refill.drop_first(), ..self },
        }
    }

    /// The stage after `batch` went to the consumer's queue: the bytes
    /// hint is cleared and the consumer signalled.
    pub open spec fn moved(self, batch: BatchView) -> StageView {
        StageView {
            ready: self.ready.push(batch),
            bytes: 0,
            consumer_wakes: self.consumer_wakes + 1,
            ..self
        }
    }

    /// The stage after `bytes` was published as the bytes hint: the
    /// consumer is signalled unless it is backing off.
    pub open spec fn notified(self, bytes: u16) -> StageView {
        StageView {
            bytes,
            consumer_wakes: if self.backoff.backoff {
                self.consumer_wakes
            } else {
                self.consumer_wakes + 1
            },
            ..self
        }
    }

    /// The stage after `batch` became the current one and its length the
    /// bytes hint.
    pub open spec fn stored(self, batch: BatchView) -> StageView {
        StageView { current: Some(batch), ..self }.notified(batch.len() as u16)
    }

    /// The stage with `batch` back in the slot.
    pub open spec fn kept(self, batch: BatchView) -> StageView {
        StageView { current: Some(batch), ..self }
    }

    /// What the push of a transport message does, and how it ends.
    ///
    /// It is blocked, and changes nothing, while a network message is
    /// under way or no batch can be had. Else it writes into the writable
    /// batch. Where the codec takes the message, that batch is stored as
    /// the current one, with its length as the bytes hint, and the
    /// consumer is signalled unless it is backing off. Where the codec
    /// does not take it and the batch is empty, the message is refused
    /// and the empty batch stays the current one. Where the batch holds
    /// data, it goes to the consumer's queue as it is, and the message
    /// is written into the next free batch in the same way; the push is
    /// blocked where there is none.
    pub open spec fn transport_push(self, msg: TransportMessage) -> (StageView, TransportPush) {
        if !(self.pending is Idle) || self.writable() is None {
            (self, TransportPush::Blocked)
        } else {
            let first = self.writable().unwrap();
            if first.transport_result(msg) is Some {
                (self.taken().stored(first.after_transport(msg)), TransportPush::Stored)
            } else if first.is_empty() {
                (self.taken().kept(first), TransportPush::Refused)
            } else {
                let queued = self.taken().moved(first);
                match queued.writable() {
                    None => (queued, TransportPush::Blocked),
                    Some(second) => if second.transport_result(msg) is Some {
                        (
                            queued.taken().stored(second.after_transport(msg)),
                            TransportPush::Stored,
                        )
                    } else {
                        (queued.taken().kept(second), TransportPush::Refused)
                    },
                }
            }
        }
    }

    /// The stage with `g` as the generator of channel `c`.
    pub open spec fn with_generator(self, c: bool, g: SeqNumGenerator) -> StageView {
        if c {
            StageView {
                channels: TransportPriorityTx {
                    reliable: TransportChannelTx { sn: g },
                    best_effort: self.channels.best_effort,
                },
                ..self
            }
        } else {
            StageView {
                channels: TransportPriorityTx {
                    reliable: self.channels.reliable,
                    best_effort: TransportChannelTx { sn: g },
                },
                ..self
            }
        }
    }

    /// The stage with `record` at the end of the log of channel `c`.
    pub open spec fn logged(self, c: bool, record: WireRecord) -> StageView {
        if c {
            StageView { wire_reliable: self.wire_reliable.push(record), ..self }
        } else {
            StageView { wire_best_effort: self.wire_best_effort.push(record), ..self }
        }
    }

    /// The stage after a message on channel `c` with header priority `p`
    /// was given the next number of the channel for its frame.
    pub open spec fn framing(self, c: bool, p: u8) -> StageView {
        StageView {
            pending: Pending::Frame { reliable: c, sn: self.generator(c).value(), priority: p },
            ..self.with_generator(c, self.generator(c).advanced())
        }
    }

    /// The stage after the frame under way was written: the log of its
    /// channel records the header and no push is under way.
    pub open spec fn frame_logged(self) -> StageView {
        match self.pending {
            Pending::Frame { reliable, sn, priority } => StageView {
                pending: Pending::Idle,
                ..self.logged(reliable, WireRecord::Frame { sn, priority })
            },
            _ => self,
        }
    }

    /// The stage after a fragment of `written` bytes with the given
    /// `more` flag was written for the fragmentation under way: the log
    /// of the channel records the fragment with the number that the push
    /// held for it, and the channel has allocated the number after it.
    /// Where more follow, the push holds that number for the next
    /// fragment and stands behind the bytes written. Else no push is
    /// under way and the scratch buffer is empty.
    pub open spec fn fragment_logged(self, written: usize, more: bool) -> StageView {
        match self.pending {
            Pending::Fragment { reliable, first_sn, sn, priority, offset } => {
                let allocated = self.with_generator(
                    reliable,
                    self.generator(reliable).advanced(),
                ).logged(
                    reliable,
                    WireRecord::Fragment {
                        sn,
                        more,
                        priority,
                        message: self.scratch,
                        start: offset as nat,
                        len: written as nat,
                    },
                );
                if more {
                    StageView {
                        pending: Pending::Fragment {
                            reliable,
                            first_sn,
                            sn: self.generator(reliable).value(),
                            priority,
                            offset: (offset + written) as usize,
                        },
                        ..allocated
                    }
                } else {
                    StageView {
                        pending: Pending::Idle,
                        scratch: Seq::<u8>::empty(),
                        ..allocated
                    }
                }
            },
            _ => self,
        }
    }

    /// The stage after the push under way on channel `c` was given up:
    /// the channel is back at `sn`, which the log records, no push is
    /// under way and the scratch buffer is empty.
    pub open spec fn abandoned(self, c: bool, sn: u32) -> StageView {
        StageView {
            pending: Pending::Idle,
            scratch: Seq::<u8>::empty(),
            ..self.with_generator(c, self.generator(c).restored(sn)).logged(
                c,
                WireRecord::Abandoned { sn },
            )
        }
    }

    /// The stage after `cancel`: as it was where no push is under way,
    /// else with the push given up and the channel back at the number it
    /// had before the message.
    pub open spec fn cancel_result(self) -> StageView {
        match self.pending {
            Pending::Idle => self,
            Pending::Frame { reliable, sn, .. } => self.abandoned(reliable, sn),
            Pending::Fragment { reliable, first_sn, .. } => self.abandoned(reliable, first_sn),
        }
    }

    /// The bytes of the scratch buffer that are offered to the codec for
    /// the next fragment into `batch`: all that are left, but no more
    /// than the batch can hold.
    pub open spec fn next_chunk(self, batch: BatchView) -> Seq<u8> {
        let offset = self.pending->Fragment_offset as int;
        let end = if self.scratch.len() - offset > batch.capacity {
            offset + batch.capacity
        } else {
            self.scratch.len() as int
        };
        self.scratch.subrange(offset, end)
    }

    /// What the push of a network message does, and how it ends: the
    /// start of a new push where none is under way, else the next steps
    /// of the one under way.
    pub open spec fn network_push(self, msg: NetMessage, priority: u8) -> (StageView, Push) {
        match self.pending {
            Pending::Idle => self.push_started(msg, priority),
            Pending::Frame { .. } => self.push_framed(msg),
            Pending::Fragment { .. } => self.push_fragmented(),
        }
    }

    /// The start of a push.
    ///
    /// Without a writable batch the push is blocked, nothing changes and
    /// a droppable message may be given up. Else the message goes into
    /// the open frame of the writable batch where it continues that
    /// frame and the codec finds room, and the batch goes to the
    /// consumer's queue. Else the channel allocates its next number for
    /// a frame header marked reliable. Where the batch has no open frame
    /// for the message and header and message fit behind its bytes, they
    /// are written there and the batch goes to the queue. Else a batch
    /// that holds data goes to the queue as it is and the frame waits for
    /// the next free batch, from now on as a message that is not
    /// droppable; an empty batch takes the framed attempt at once.
    pub open spec fn push_started(self, msg: NetMessage, priority: u8) -> (StageView, Push) {
        match self.writable() {
            None => (self, Push::Blocked { droppable: msg.spec_is_droppable() }),
            Some(first) => {
                let c = msg.spec_is_reliable();
                let n = self.generator(c).value();
                match first.network_result(msg) {
                    Ok(_) => (self.taken().moved(first.after_network(msg)), Push::Sent),
                    Err(e) => {
                        let framing = self.taken().framing(c, priority);
                        if e is NewFrame && first.frame_result(msg, true, n, priority) is Some {
                            (
                                framing.frame_logged().moved(
                                    first.after_frame(msg, true, n, priority),
                                ),
                                Push::Sent,
                            )
                        } else if !first.is_empty() {
                            framing.moved(first).push_framed(msg)
                        } else {
                            framing.push_framed_on(first, msg)
                        }
                    },
                }
            },
        }
    }

    /// The framed attempt of a push whose frame waits for a batch:
    /// blocked, with nothing changed, where no batch can be had, and the
    /// caller has to wait; else made on the writable batch.
    pub open spec fn push_framed(self, msg: NetMessage) -> (StageView, Push) {
        match self.writable() {
            None => (self, Push::Blocked { droppable: false }),
            Some(batch) => self.taken().push_framed_on(batch, msg),
        }
    }

    /// The framed attempt on an empty batch in hand. Where header and
    /// message fit, they are written and the batch goes to the
    /// consumer's queue. Else the batch goes back into the slot and the
    /// message is serialized into the scratch buffer and fragmented;
    /// where the codec refuses to serialize it, the push is abandoned.
    pub open spec fn push_framed_on(self, batch: BatchView, msg: NetMessage) -> (StageView, Push) {
        match self.pending {
            Pending::Frame { reliable, sn, priority } => {
                if batch.frame_result(msg, true, sn, priority) is Some {
                    (
                        self.frame_logged().moved(batch.after_frame(msg, true, sn, priority)),
                        Push::Sent,
                    )
                } else {
                    match network_wire(msg.spec_message()) {
                        None => (self.kept(batch).abandoned(reliable, sn), Push::Abandoned),
                        Some(wire) => StageView {
                            scratch: wire,
                            pending: Pending::Fragment {
                                reliable,
                                first_sn: sn,
                                sn,
                                priority,
                                offset: 0,
                            },
                            ..self.kept(batch)
                        }.push_fragmented(),
                    }
                }
            },
            _ => (self, Push::Abandoned),
        }
    }

    /// The fragmentation under way, as far as batches can be had. Each
    /// step offers the next bytes of the scratch buffer to the codec for
    /// a fragment marked reliable into the writable batch. Where the
    /// codec writes one, the batch goes to the consumer's queue; the push
    /// is done with the fragment that announces no more. Where the codec
    /// writes none, the batch goes back into the slot and the push is
    /// abandoned. Without a writable batch the push is blocked and the
    /// caller has to wait.
    pub open spec fn push_fragmented(self) -> (StageView, Push)
        decreases self.refill.len() + (if self.current is Some {
            1nat
        } else {
            0nat
        }),
    {
        match self.pending {
            Pending::Fragment { reliable, first_sn, sn, priority, .. } => match self.writable() {
                None => (self, Push::Blocked { droppable: false }),
                Some(batch) => {
                    let chunk = self.next_chunk(batch);
                    match batch.fragment_result(chunk, true, sn, priority) {
                        None => (
                            self.taken().kept(batch).abandoned(reliable, first_sn),
                            Push::Abandoned,
                        ),
                        Some(w) => {
                            let queued = self.taken().fragment_logged(w.written, w.more).moved(
                                batch.after_fragment(chunk, true, sn, priority),
                            );
                            if w.more {
                                queued.push_fragmented()
                            } else {
                                (queued, Push::Sent)
                            }
                        },
                    }
                },
            },
            _ => (self, Push::Abandoned),
        }
    }

    /// The channel of the push that a message starts or resumes: the
    /// channel of the push under way, else that of the message.
    pub open spec fn push_channel(self, msg_reliable: bool) -> bool {
        match self.pending {
            Pending::Idle => msg_reliable,
            Pending::Frame { reliable, .. } => reliable,
            Pending::Fragment { reliable, .. } => reliable,
        }
    }

    /// The priority in the headers of the push that a message of the
    /// given header priority starts or resumes: that of the push under
    /// way, else the given one.
    pub open spec fn push_priority(self, priority: u8) -> u8 {
        match self.pending {
            Pending::Idle => priority,
            Pending::Frame { priority: p, .. } => p,
            Pending::Fragment { priority: p, .. } => p,
        }
    }

    /// The number that the channel goes back to where the push under
    /// way, or one that is about to start, is given up.
    pub open spec fn rollback_sn(self, reliable: bool) -> u32 {
        match self.pending {
            Pending::Frame { reliable: r, sn, .. } if r == reliable => sn,
            Pending::Fragment { reliable: r, first_sn, .. } if r == reliable => first_sn,
            _ => self.generator(reliable).value(),
        }
    }

    /// What every push of a network message on channel `c` with header
    /// priority `p` keeps and how it moves the rest: nothing changes for
    /// the consumer's side or for the other channel; batches leave the
    /// pool from its front and join the consumer's queue at its back,
    /// each with a signal to the consumer, at most one for every header
    /// written and one more for the batch that a new message finds; the
    /// bytes hint is cleared with the first batch that joins the queue; the
    /// log of the channel grows at its end; and a push that is still
    /// under way goes back to the same number and keeps its priority.
    pub open spec fn push_progress(self, after: StageView, c: bool, p: u8) -> bool {
        &&& after.in_flight == self.in_flight
        &&& after.queue_size == self.queue_size
        &&& after.backoff == self.backoff
        &&& after.producer_wakes == self.producer_wakes
        &&& after.refill_closed == self.refill_closed
        &&& after.ready_closed == self.ready_closed
        &&& after.consumer_wakes == self.consumer_wakes + (after.ready.len() - self.ready.len())
        &&& after.generator(!c) == self.generator(!c)
        &&& after.wire(!c) == self.wire(!c)
        &&& after.generator(c).mask() == self.generator(c).mask()
        &&& self.ready.is_prefix_of(after.ready)
        &&& after.bytes == (if after.ready.len() > self.ready.len() {
            0u16
        } else {
            self.bytes
        })
        &&& after.ready.len() - self.ready.len() <= after.wire(c).len() - self.wire(c).len()
            + (if self.pending is Idle {
            1int
        } else {
            0int
        })
        &&& after.refill.len() <= self.refill.len()
        &&& after.refill == self.refill.skip(self.refill.len() - after.refill.len())
        &&& self.wire(c).is_prefix_of(after.wire(c))
        &&& !(after.pending is Idle) ==> {
            &&& after.pending_on(c)
            &&& after.rollback_sn(c) == self.rollback_sn(c)
            &&& after.push_priority(p) == p
        }
    }

    /// What the result of a push of a network message on channel `c`
    /// with header priority `p` says of the stage.
    ///
    /// Blocked: no batch can be had; the caller may give up at its
    /// deadline only for a droppable message of which nothing is under
    /// way; and where no push is under way nothing has changed.
    /// Sent: no push is under way, no batch is being filled, the
    /// consumer's queue has grown and the bytes hint is cleared. Where no header was written the message
    /// went into the frame that was open and took no number. Where the
    /// last header written is a frame, it has priority `p` and the batch
    /// at the end of the queue is in a reliable frame with that header's
    /// number as its latest;
    /// where it is a fragment, it is one that announces no more, and
    /// that batch ends with the bytes that the fragment carries.
    /// Abandoned: no push is under way, the batch that refused the
    /// message is the current one and is empty, and the channel is back
    /// at the number
    /// it had before the message, which the log records.
    pub open spec fn push_settled(
        self,
        after: StageView,
        c: bool,
        p: u8,
        droppable: bool,
        res: Push,
    ) -> bool {
        match res {
            Push::Blocked { droppable: d } => {
                &&& after.writable() is None
                &&& d == (droppable && after.pending is Idle)
                &&& after.pending is Idle ==> after == self
            },
            Push::Sent => {
                &&& after.pending is Idle
                &&& after.current is None
                &&& after.ready.len() > self.ready.len()
                &&& after.bytes == 0
                &&& after.wire(c).len() == self.wire(c).len() ==> {
                    &&& self.pending is Idle
                    &&& after.generator(c) == self.generator(c)
                    &&& frame_continues(after.ready.last().codec.current_frame, c)
                }
                &&& after.wire(c).len() > self.wire(c).len() ==> match after.wire(c).last() {
                    WireRecord::Frame { sn, priority } => {
                        &&& priority == p
                        &&& after.ready.last().codec.current_frame is Reliable
                        &&& after.ready.last().codec.latest_sn.reliable == Some(sn)
                    },
                    WireRecord::Fragment { more, len, priority, .. } => {
                        &&& !more
                        &&& priority == p
                        &&& after.ready.last().bytes.len() > len
                        &&& after.ready.last().bytes.subrange(
                            after.ready.last().bytes.len() - len,
                            after.ready.last().bytes.len() as int,
                        ) == after.wire(c).last().payload()
                    },
                    WireRecord::Abandoned { .. } => false,
                }
            },
            Push::Abandoned => {
                &&& after.pending is Idle
                &&& after.current matches Some(b) && b.is_empty()
                &&& after.wire(c).len() > self.wire(c).len()
                &&& after.wire(c).last() == (WireRecord::Abandoned { sn: self.rollback_sn(c) })
                &&& after.generator(c).value() == self.rollback_sn(c)
            },
        }
    }

    /// Whether `after` is this stage after `cancel`.
    pub open spec fn cancelled(self, after: StageView) -> bool {
        after == self.cancel_result()
    }

    /// The stage after the consumer took the oldest ready batch.
    pub open spec fn without_first_ready(self) -> StageView {
        StageView { ready: self.ready.drop_first(), in_flight: self.in_flight + 1, ..self }
    }

    /// The stage after a deep pull has looked at the bytes hint.
    pub open spec fn hint_seen(self) -> StageView {
        StageView { backoff: Backoff { last_bytes: self.bytes, ..self.backoff }, ..self }
    }

    /// What a deep pull gives. Where the bytes hint is the one seen by
    /// the deep pull before, nothing was written since: the oldest ready
    /// batch, else the batch being filled, else nothing. Where the hint
    /// has changed, the next backoff. Taking the batch being filled
    /// leaves the slot empty and clears the hint.
    pub open spec fn deep_pull_result(self) -> PullView {
        if self.bytes == self.backoff.last_bytes {
            if self.ready.len() > 0 {
                PullView::Batch(self.ready[0])
            } else {
                match self.current {
                    Some(b) => PullView::Batch(b),
                    None => PullView::Empty,
                }
            }
        } else {
            PullView::Backoff(spec_backoff_next(self.backoff.tslot, self.backoff.retry_time))
        }
    }

    /// The stage after a deep pull.
    pub open spec fn after_deep_pull(self) -> StageView {
        if self.bytes == self.backoff.last_bytes {
            if self.ready.len() > 0 {
                self.hint_seen().without_first_ready()
            } else if self.current is Some {
                StageView {
                    current: None,
                    bytes: 0,
                    in_flight: self.in_flight + 1,
                    ..self.hint_seen()
                }
            } else {
                self.hint_seen()
            }
        } else {
            StageView { backoff: self.hint_seen().backoff.lengthened(), ..self }
        }
    }

    /// What a pull gives: the oldest ready batch, else what a deep pull
    /// gives.
    pub open spec fn try_pull_result(self) -> PullView {
        if self.ready.len() > 0 {
            PullView::Batch(self.ready[0])
        } else {
            self.deep_pull_result()
        }
    }

    /// The stage after a pull.
    pub open spec fn after_try_pull(self) -> StageView {
        if self.ready.len() > 0 {
            self.without_first_ready()
        } else {
            self.after_deep_pull()
        }
    }

    /// The batches that hold data: the ready ones, the oldest first, then
    /// the one being filled.
    pub open spec fn holding_data(self) -> Seq<BatchView> {
        match self.current {
            Some(b) => self.ready.push(b),
            None => self.ready,
        }
    }

    /// The stage after all batches that hold data went to the consumer:
    /// the slot is empty and the bytes hint cleared.
    pub open spec fn after_drain(self) -> StageView {
        StageView {
            ready: Seq::<BatchView>::empty(),
            current: None,
            bytes: 0,
            in_flight: self.in_flight + self.holding_data().len(),
            ..self
        }
    }

    /// The stage after the consumer gave `batch` back: the batch is the
    /// last of the free ones and the producers are signalled.
    pub open spec fn after_refill(self, batch: BatchView) -> StageView {
        StageView {
            refill: self.refill.push(batch),
            in_flight: (self.in_flight - 1) as nat,
            producer_wakes: self.producer_wakes + 1,
            ..self
        }
    }
}

/// Progress made in two steps is progress.
pub proof fn lemma_push_progress_trans(a: StageView, b: StageView, c: StageView, ch: bool, p: u8)
    requires
        a.push_progress(b, ch, p),
        b.push_progress(c, ch, p),
        !(b.pending is Idle),
    ensures
        a.push_progress(c, ch, p),
{
    let k1 = a.refill.len() - b.refill.len();
    let k2 = b.refill.len() - c.refill.len();
    assert(a.refill.skip(k1).skip(k2) =~= a.refill.skip(k1 + k2));
    assert(a.ready.is_prefix_of(c.ready)) by {
        assert(a.ready =~= c.ready.subrange(0, a.ready.len() as int));
    }
    assert(a.wire(ch).is_prefix_of(c.wire(ch))) by {
        assert(a.wire(ch) =~= c.wire(ch).subrange(0, a.wire(ch).len() as int));
    }
}

/// What the second of two steps says of its result holds of both steps
/// together.
pub proof fn lemma_push_settled_trans(
    a: StageView,
    b: StageView,
    c: StageView,
    ch: bool,
    p: u8,
    droppable: bool,
    res: Push,
)
    requires
        a.push_progress(b, ch, p),
        b.push_settled(c, ch, p, droppable, res),
        b.push_progress(c, ch, p),
        !(b.pending is Idle),
    ensures
        a.push_settled(c, ch, p, droppable, res),
{
}

} // verus!
