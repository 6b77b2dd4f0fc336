//! Laws of the two pushes, proved from what `transport_push` and
//! `network_push` say over the codec's results.
use vstd::prelude::*;
use zenoh_protocol::transport::TransportMessage;

use crate::batch::network_wire;
use crate::message::NetMessage;
use crate::model::{Pending, Push, StageView, TransportPush};
use crate::seq_num::spec_sn_next;
use crate::wire::WireRecord;

verus! {

/// A transport message that the codec takes into the writable batch is
/// stored: that batch, with the message behind its bytes, is the current
/// one, its length is the bytes hint, the consumer is signalled unless it
/// backs off, and the queue and the channels stay as they were.
pub proof fn law_transport_that_fits_is_stored(stage: StageView, msg: TransportMessage)
    requires
        stage.pending is Idle,
        stage.writable() matches Some(first) && first.transport_result(msg) is Some,
    ensures
        ({
            let first = stage.writable().unwrap();
            let written = first.after_transport(msg);
            let (after, res) = stage.transport_push(msg);
            &&& res is Stored
            &&& after.current == Some(written)
            &&& written.bytes == first.bytes + first.transport_result(msg).unwrap()
            &&& after.bytes == written.len() as u16
            &&& after.ready == stage.ready
            &&& after.channels == stage.channels
            &&& after.consumer_wakes == stage.consumer_wakes + (if stage.backoff.backoff {
                0nat
            } else {
                1nat
            })
        }),
{
}

/// A transport message that the codec does not take behind the data of
/// the current batch, but takes into an empty one, is stored in the next
/// free batch; the batch that was current is in the consumer's queue as
/// it was, behind the batches that were there.
pub proof fn law_transport_overflow_is_stored_in_the_next_batch(
    stage: StageView,
    msg: TransportMessage,
)
    requires
        stage.pending is Idle,
        stage.current matches Some(full) && !full.is_empty() && full.transport_result(msg) is None,
        stage.refill.len() > 0,
        stage.refill[0].cleared().transport_result(msg) is Some,
    ensures
        ({
            let full = stage.current.unwrap();
            let (after, res) = stage.transport_push(msg);
            &&& res is Stored
            &&& after.ready == stage.ready.push(full)
            &&& after.current == Some(stage.refill[0].cleared().after_transport(msg))
            &&& after.refill == stage.refill.drop_first()
            &&& after.channels == stage.channels
        }),
{
}

/// A transport message that the codec does not take into an empty batch
/// is refused: the empty batch is the current one, nothing of the message
/// is in it, and the queue and the channels stay as they were.
pub proof fn law_transport_too_large_is_refused(stage: StageView, msg: TransportMessage)
    requires
        stage.pending is Idle,
        stage.writable() matches Some(first) && first.is_empty() && first.transport_result(msg)
            is None,
    ensures
        ({
            let (after, res) = stage.transport_push(msg);
            &&& res is Refused
            &&& after.current == stage.writable()
            &&& after.ready == stage.ready
            &&& after.channels == stage.channels
            &&& after.wire_reliable == stage.wire_reliable
            &&& after.wire_best_effort == stage.wire_best_effort
        }),
{
}

/// A transport message never touches the channels or their logs, and is
/// stored exactly where the codec takes it into the writable batch or,
/// once that batch was queued with its data, into the next free one.
pub proof fn law_transport_stored_exactly_where_it_fits(stage: StageView, msg: TransportMessage)
    requires
        stage.pending is Idle,
        stage.writable() is Some,
    ensures
        ({
            let first = stage.writable().unwrap();
            let (after, res) = stage.transport_push(msg);
            &&& after.channels == stage.channels
            &&& after.wire_reliable == stage.wire_reliable
            &&& after.wire_best_effort == stage.wire_best_effort
            &&& res is Stored <==> (first.transport_result(msg) is Some || (!first.is_empty()
                && stage.refill.len() > 0 && stage.refill[0].cleared().transport_result(msg)
                is Some))
        }),
{
    let first = stage.writable().unwrap();
    if first.transport_result(msg) is None && !first.is_empty() {
        // A batch that holds data was the current one, so the pool is
        // as it was when the next batch is taken from it.
        assert(stage.current is Some);
    }
}

/// A message that continues the open frame of the writable batch and
/// finds room there goes into that frame: the batch is the last of the
/// queue, no header is written and no number is taken.
pub proof fn law_message_joins_the_open_frame(stage: StageView, msg: NetMessage, priority: u8)
    requires
        stage.pending is Idle,
        stage.writable() matches Some(first) && first.network_result(msg) is Ok,
    ensures
        ({
            let first = stage.writable().unwrap();
            let (after, res) = stage.network_push(msg, priority);
            &&& res is Sent
            &&& after.ready == stage.ready.push(first.after_network(msg))
            &&& after.channels == stage.channels
            &&& after.wire_reliable == stage.wire_reliable
            &&& after.wire_best_effort == stage.wire_best_effort
            &&& after.current is None
            &&& after.bytes == 0
        }),
{
}

/// A message whose frame the codec writes into the writable batch, which
/// has no open frame for it, is sent in that batch: the batch is the
/// last of the queue, the log of the channel records a frame with the
/// channel's next number and the header priority, the channel moves on to
/// the successor of that number, and the other channel stays.
pub proof fn law_frame_that_fits_is_sent(stage: StageView, msg: NetMessage, priority: u8)
    requires
        stage.pending is Idle,
        stage.writable() matches Some(first) && (first.network_result(msg) matches Err(e) && e
            is NewFrame) && first.frame_result(
            msg,
            true,
            stage.generator(msg.spec_is_reliable()).value(),
            priority,
        ) is Some,
    ensures
        ({
            let first = stage.writable().unwrap();
            let c = msg.spec_is_reliable();
            let n = stage.generator(c).value();
            let (after, res) = stage.network_push(msg, priority);
            &&& res is Sent
            &&& after.ready == stage.ready.push(first.after_frame(msg, true, n, priority))
            &&& after.wire(c) == stage.wire(c).push(WireRecord::Frame { sn: n, priority })
            &&& after.wire(!c) == stage.wire(!c)
            &&& after.generator(c).value() == spec_sn_next(n, stage.generator(c).mask())
            &&& after.generator(!c) == stage.generator(!c)
            &&& after.pending is Idle
            &&& after.current is None
            &&& after.bytes == 0
        }),
{
    let c = msg.spec_is_reliable();
    stage.generator(c).lemma_moved(0);
}

/// A message whose frame the codec writes into an empty batch is sent in
/// the first free batch where the slot is empty: the channel's next
/// number goes into the header and the channel moves on by one.
pub proof fn law_frame_into_a_free_batch(stage: StageView, msg: NetMessage, priority: u8)
    requires
        stage.pending is Idle,
        stage.current is None,
        stage.refill.len() > 0,
        stage.refill[0].cleared().frame_result(
            msg,
            true,
            stage.generator(msg.spec_is_reliable()).value(),
            priority,
        ) is Some,
    ensures
        ({
            let c = msg.spec_is_reliable();
            let n = stage.generator(c).value();
            let (after, res) = stage.network_push(msg, priority);
            &&& res is Sent
            &&& after.ready == stage.ready.push(
                stage.refill[0].cleared().after_frame(msg, true, n, priority),
            )
            &&& after.refill == stage.refill.drop_first()
            &&& after.wire(c) == stage.wire(c).push(WireRecord::Frame { sn: n, priority })
            &&& after.generator(c).value() == spec_sn_next(n, stage.generator(c).mask())
            &&& after.generator(!c) == stage.generator(!c)
            &&& after.current is None
        }),
{
    law_frame_that_fits_is_sent(stage, msg, priority);
}

/// A message whose frame finds no room behind the data of the current
/// batch, but fits an empty batch, is sent in the next free batch: the
/// queue gains the batch that was current, as it was, and then the batch
/// with the frame. No fragment is written.
pub proof fn law_frame_moves_to_the_next_batch(stage: StageView, msg: NetMessage, priority: u8)
    requires
        stage.pending is Idle,
        stage.current matches Some(full) && !full.is_empty() && full.network_result(msg) is Err
            && !(full.network_result(msg)->Err_0 is NewFrame && full.frame_result(
            msg,
            true,
            stage.generator(msg.spec_is_reliable()).value(),
            priority,
        ) is Some),
        stage.refill.len() > 0,
        stage.refill[0].cleared().frame_result(
            msg,
            true,
            stage.generator(msg.spec_is_reliable()).value(),
            priority,
        ) is Some,
    ensures
        ({
            let full = stage.current.unwrap();
            let c = msg.spec_is_reliable();
            let n = stage.generator(c).value();
            let (after, res) = stage.network_push(msg, priority);
            &&& res is Sent
            &&& after.ready == stage.ready.push(full).push(
                stage.refill[0].cleared().after_frame(msg, true, n, priority),
            )
            &&& after.wire(c) == stage.wire(c).push(WireRecord::Frame { sn: n, priority })
            &&& after.generator(c).value() == spec_sn_next(n, stage.generator(c).mask())
            &&& after.generator(!c) == stage.generator(!c)
            &&& after.refill == stage.refill.drop_first()
            &&& after.current is None
            &&& after.bytes == 0
        }),
{
    let c = msg.spec_is_reliable();
    stage.generator(c).lemma_moved(0);
}

/// A frame that finds no batch after the current one was queued waits,
/// and the message is no longer droppable: the caller has to wait. The
/// batch that was current is the last of the queue, as it was. Where the
/// wait fails and the push is cancelled, that batch stays where it is,
/// and both channels are back at the numbers they had.
pub proof fn law_waiting_frame_can_be_dropped(stage: StageView, msg: NetMessage, priority: u8)
    requires
        stage.pending is Idle,
        stage.current matches Some(full) && !full.is_empty() && full.network_result(msg) is Err
            && !(full.network_result(msg)->Err_0 is NewFrame && full.frame_result(
            msg,
            true,
            stage.generator(msg.spec_is_reliable()).value(),
            priority,
        ) is Some),
        stage.refill.len() == 0,
    ensures
        ({
            let full = stage.current.unwrap();
            let c = msg.spec_is_reliable();
            let (after, res) = stage.network_push(msg, priority);
            let dropped = after.cancel_result();
            &&& res == Push::Blocked { droppable: false }
            &&& after.pending is Frame
            &&& after.ready == stage.ready.push(full)
            &&& dropped.ready == stage.ready.push(full)
            &&& dropped.current is None
            &&& dropped.pending is Idle
            &&& dropped.generator(c) == stage.generator(c)
            &&& dropped.generator(!c) == stage.generator(!c)
            &&& dropped.wire(c) == stage.wire(c).push(
                WireRecord::Abandoned { sn: stage.generator(c).value() },
            )
        }),
{
    let c = msg.spec_is_reliable();
    stage.generator(c).lemma_moved(0);
    stage.generator(c).advanced().lemma_moved(stage.generator(c).value());
    stage.generator(c).lemma_restores(stage.generator(c).value());
}

/// A push that finds no batch at all changes nothing; only then may a
/// droppable message be given up at its deadline.
pub proof fn law_push_without_a_batch_changes_nothing(
    stage: StageView,
    msg: NetMessage,
    priority: u8,
)
    requires
        stage.writable() is None,
    ensures
        stage.network_push(msg, priority).0 == stage,
        stage.network_push(msg, priority).1 == (Push::Blocked {
            droppable: stage.pending is Idle && msg.spec_is_droppable(),
        }),
{
}

/// A message whose frame the codec does not write into an empty batch is
/// serialized and fragmented: the scratch buffer holds the bytes that the
/// codec gives for the message, the fragmentation starts at their first
/// byte with the number allocated for the frame, and the push goes on as
/// the fragmentation does. Where the codec refuses to serialize the
/// message, the push is abandoned with the empty batch back in the slot.
pub proof fn law_message_too_large_is_fragmented(
    stage: StageView,
    msg: NetMessage,
    priority: u8,
)
    requires
        stage.pending is Idle,
        stage.current is None,
        stage.refill.len() > 0,
        stage.refill[0].cleared().frame_result(
            msg,
            true,
            stage.generator(msg.spec_is_reliable()).value(),
            priority,
        ) is None,
    ensures
        ({
            let c = msg.spec_is_reliable();
            let n = stage.generator(c).value();
            let empty = stage.refill[0].cleared();
            let framing = stage.taken().framing(c, priority);
            match network_wire(msg.spec_message()) {
                Some(wire) => stage.network_push(msg, priority) == (StageView {
                    scratch: wire,
                    pending: Pending::Fragment {
                        reliable: c,
                        first_sn: n,
                        sn: n,
                        priority,
                        offset: 0,
                    },
                    ..framing.kept(empty)
                }).push_fragmented(),
                None => stage.network_push(msg, priority) == (
                    framing.kept(empty).abandoned(c, n),
                    Push::Abandoned,
                ),
            }
        }),
{
    let empty = stage.refill[0].cleared();
    assert(empty.is_empty()) by {
        assert(seq![0u8, 0u8].len() == 2);
    }
}

/// Whether every record of `log` from index `from` up to, and without,
/// index `to` is a fragment that announces more.
pub open spec fn all_open_fragments(log: Seq<WireRecord>, from: int, to: int) -> bool {
    forall|i: int| from <= i < to ==> (#[trigger] log[i]).is_open_fragment()
}

/// A fragmentation queues one batch for every fragment it writes, behind
/// the batches that were in the queue, and records one fragment for every
/// batch, behind the records that were in the log of its channel; the
/// other channel's log stays. Every fragment but the last of a finished
/// series announces more.
///
/// Blocked: only such fragments were added and the fragmentation is still
/// under way. Sent: the last record is a fragment that announces no
/// more. Abandoned: behind the fragments written so far the log records
/// the abandonment, no batch was queued for it, and the channel is back
/// at the number of the first fragment.
pub proof fn law_fragmentation_queues_one_batch_per_fragment(stage: StageView)
    requires
        stage.pending is Fragment,
    ensures
        ({
            let c = stage.push_channel(true);
            let (after, res) = stage.push_fragmented();
            let batches = after.ready.len() - stage.ready.len();
            let records = after.wire(c).len() - stage.wire(c).len();
            let log = after.wire(c);
            &&& stage.ready.is_prefix_of(after.ready)
            &&& stage.wire(c).is_prefix_of(log)
            &&& after.wire(!c) == stage.wire(!c)
            &&& after.in_flight == stage.in_flight
            &&& match res {
                Push::Blocked { droppable } => {
                    &&& !droppable
                    &&& records == batches
                    &&& all_open_fragments(log, stage.wire(c).len() as int, log.len() as int)
                    &&& after.pending is Fragment
                    &&& after.writable() is None
                },
                Push::Sent => {
                    &&& records == batches
                    &&& batches >= 1
                    &&& all_open_fragments(log, stage.wire(c).len() as int, log.len() - 1)
                    &&& log.last() is Fragment
                    &&& !log.last().is_open_fragment()
                    &&& after.pending is Idle
                    &&& after.current is None
                    &&& after.scratch.len() == 0
                },
                Push::Abandoned => {
                    &&& records == batches + 1
                    &&& all_open_fragments(log, stage.wire(c).len() as int, log.len() - 1)
                    &&& log.last() == (WireRecord::Abandoned {
                        sn: stage.pending->Fragment_first_sn,
                    })
                    &&& after.generator(c).value() == stage.pending->Fragment_first_sn
                    &&& after.pending is Idle
                    &&& after.current is Some
                    &&& after.scratch.len() == 0
                },
            }
        }),
    decreases stage.refill.len() + (if stage.current is Some {
        1nat
    } else {
        0nat
    }),
{
    let c = stage.push_channel(true);
    let first_sn = stage.pending->Fragment_first_sn;
    let sn = stage.pending->Fragment_sn;
    let priority = stage.pending->Fragment_priority;
    let (after, res) = stage.push_fragmented();
    assert(stage.ready.is_prefix_of(stage.ready));
    assert(stage.wire(c).is_prefix_of(stage.wire(c)));
    match stage.writable() {
        None => {},
        Some(batch) => {
            let chunk = stage.next_chunk(batch);
            let taken = stage.taken();
            match batch.fragment_result(chunk, true, sn, priority) {
                None => {
                    let kept = taken.kept(batch);
                    kept.generator(c).lemma_moved(first_sn);
                    assert(stage.wire(c).is_prefix_of(after.wire(c)));
                },
                Some(w) => {
                    let logged = taken.fragment_logged(w.written, w.more);
                    let queued = logged.moved(batch.after_fragment(chunk, true, sn, priority));
                    assert(stage.ready.is_prefix_of(queued.ready));
                    assert(stage.wire(c).is_prefix_of(queued.wire(c)));
                    assert(queued.wire(c).len() == stage.wire(c).len() + 1);
                    assert(queued.wire(c).last().is_open_fragment() == w.more);
                    if w.more {
                        law_fragmentation_queues_one_batch_per_fragment(queued);
                        assert(queued.push_channel(true) == c);
                        let log = after.wire(c);
                        let from = stage.wire(c).len() as int;
                        assert(stage.ready.is_prefix_of(after.ready)) by {
                            assert(stage.ready =~= after.ready.subrange(
                                0,
                                stage.ready.len() as int,
                            ));
                        }
                        assert(stage.wire(c).is_prefix_of(log)) by {
                            assert(stage.wire(c) =~= log.subrange(0, from));
                        }
                        assert(log[from] == queued.wire(c)[from]) by {
                            assert(queued.wire(c) =~= log.subrange(
                                0,
                                queued.wire(c).len() as int,
                            ));
                        }
                        assert(log[from].is_open_fragment());
                    }
                },
            }
        },
    }
}

} // verus!
