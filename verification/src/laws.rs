//! Laws of the pipeline, proved from the invariants that every
//! operation keeps.
use vstd::prelude::*;

use crate::pipeline::{PipelineView, ScanView, TransmissionPipeline};
use crate::seq_num::{lemma_sn_next_counts, spec_is_resolution_mask, spec_sn_next};
use crate::model::{PullView, StageView};
use crate::wire::WireRecord;

verus! {

/// Between operations every batch that a stage owns is in exactly one
/// place: free in the pool, ready for the consumer, the batch being
/// filled, or with the consumer. Their number is the queue size of the
/// stage, which lies between one and the length of a ring.
pub proof fn law_batches_conserved(stage: StageView)
    requires
        stage.inv(),
    ensures
        stage.refill.len() + stage.ready.len() + (if stage.current is Some {
            1nat
        } else {
            0nat
        }) + stage.in_flight == stage.queue_size,
        1 <= stage.queue_size <= crate::config::RBLEN,
{
}

/// The same holds of every stage of a pipeline.
pub proof fn law_pipeline_batches_conserved(pipeline: &TransmissionPipeline, idx: int)
    requires
        pipeline.inv(),
        0 <= idx < pipeline@.stages.len(),
    ensures
        pipeline@.stages[idx].batches() + pipeline@.stages[idx].in_flight
            == pipeline@.stages[idx].queue_size,
{
}

/// No operation that keeps the invariant can lose or make a batch: the
/// batches inside a stage and with the consumer stay as many as they
/// were, whatever was done in between.
pub proof fn law_batches_constant(before: StageView, after: StageView)
    requires
        before.inv(),
        after.inv(),
        after.queue_size == before.queue_size,
    ensures
        after.batches() + after.in_flight == before.batches() + before.in_flight,
{
}

/// On each channel the headers in the ready stream carry advancing
/// sequence numbers: a header that follows a frame, or a fragment that
/// announces more, carries the successor of that header's number; the
/// header that follows the last fragment of a series carries the
/// successor's successor, because the number in between was allocated
/// when the series closed and is never sent.
pub proof fn law_sequence_numbers_advance(stage: StageView, reliable: bool, i: int)
    requires
        stage.inv(),
        0 <= i < stage.wire(reliable).len() - 1,
        !(stage.wire(reliable)[i] is Abandoned),
        !(stage.wire(reliable)[i + 1] is Abandoned),
    ensures
        ({
            let log = stage.wire(reliable);
            let mask = stage.generator(reliable).mask();
            let step = spec_sn_next(log[i].sn(), mask);
            if log[i] is Fragment && !log[i].is_open_fragment() {
                log[i + 1].sn() == spec_sn_next(step, mask)
            } else {
                log[i + 1].sn() == step
            }
        }),
{
    let log = stage.wire(reliable);
    assert(log[i].followed_by(log[i + 1], stage.generator(reliable).mask()));
}

/// As long as the numbers of a channel do not wrap around, they grow
/// strictly from header to header: under the mask of a resolution, a
/// header whose number leaves room for two more is followed by a header
/// with a greater number.
pub proof fn law_sequence_numbers_increase(stage: StageView, reliable: bool, i: int)
    requires
        stage.inv(),
        spec_is_resolution_mask(stage.generator(reliable).mask()),
        0 <= i < stage.wire(reliable).len() - 1,
        !(stage.wire(reliable)[i] is Abandoned),
        !(stage.wire(reliable)[i + 1] is Abandoned),
        stage.wire(reliable)[i].sn() + 2 <= stage.generator(reliable).mask(),
    ensures
        stage.wire(reliable)[i].sn() < stage.wire(reliable)[i + 1].sn(),
        stage.wire(reliable)[i + 1].sn() <= stage.wire(reliable)[i].sn() + 2,
{
    let log = stage.wire(reliable);
    let mask = stage.generator(reliable).mask();
    law_sequence_numbers_advance(stage, reliable, i);
    assert(crate::seq_num::spec_sn_fits(log[i].sn(), mask));
    lemma_sn_next_counts(log[i].sn(), mask);
    lemma_sn_next_counts(spec_sn_next(log[i].sn(), mask), mask);
}

/// The number that the next header on a channel will carry continues
/// the log of that channel in the same way.
pub proof fn law_next_sequence_number(stage: StageView, reliable: bool)
    requires
        stage.inv(),
        stage.wire(reliable).len() > 0,
    ensures
        stage.next_sn(reliable) == stage.wire(reliable).last().successor(
            stage.generator(reliable).mask(),
        ),
{
}

/// After a message was given up the numbering resumes at the number
/// that the message would have taken first.
pub proof fn law_sequence_number_restored(stage: StageView, reliable: bool, i: int)
    requires
        stage.inv(),
        0 <= i < stage.wire(reliable).len() - 1,
        stage.wire(reliable)[i] is Abandoned,
        !(stage.wire(reliable)[i + 1] is Abandoned),
    ensures
        stage.wire(reliable)[i + 1].sn() == stage.wire(reliable)[i].sn(),
{
    let log = stage.wire(reliable);
    assert(log[i].followed_by(log[i + 1], stage.generator(reliable).mask()));
}

/// A fragment that announces more is never left alone: the next record
/// of its channel is the next fragment of its series, with the next
/// number, or the mark that the series was abandoned; and where it is
/// the last record, the fragmentation is still under way.
pub proof fn law_fragment_series_continues(stage: StageView, reliable: bool, i: int)
    requires
        stage.inv(),
        0 <= i < stage.wire(reliable).len(),
        stage.wire(reliable)[i].is_open_fragment(),
    ensures
        i == stage.wire(reliable).len() - 1 ==> stage.series_open(reliable),
        i < stage.wire(reliable).len() - 1 ==> {
            let next = stage.wire(reliable)[i + 1];
            ||| next is Abandoned
            ||| next.is_continuation() && next.sn() == spec_sn_next(
                stage.wire(reliable)[i].sn(),
                stage.generator(reliable).mask(),
            )
        },
{
    let log = stage.wire(reliable);
    if i < log.len() - 1 {
        assert(log[i].followed_by(log[i + 1], stage.generator(reliable).mask()));
    }
}

/// A series ends where a fragment announces no more, and after an
/// abandonment: no fragment continues a series behind either, nor at the
/// start of the log.
pub proof fn law_fragment_series_ends(stage: StageView, reliable: bool, i: int)
    requires
        stage.inv(),
        0 <= i < stage.wire(reliable).len(),
        stage.wire(reliable)[i].is_continuation(),
    ensures
        i > 0,
        stage.wire(reliable)[i - 1].is_open_fragment(),
{
    let log = stage.wire(reliable);
    if i > 0 {
        assert(log[i - 1].followed_by(log[i], stage.generator(reliable).mask()));
    }
}

/// The bytes carried by the fragments of a series up to record `j` of a
/// log, in the order of the log.
pub open spec fn series_bytes(log: Seq<WireRecord>, j: int) -> Seq<u8>
    decreases j,
{
    if j < 0 || j >= log.len() || !(log[j] is Fragment) {
        Seq::empty()
    } else if log[j].is_continuation() && j > 0 {
        series_bytes(log, j - 1) + log[j].payload()
    } else {
        log[j].payload()
    }
}

/// A fragment carries a slice of its message that is not empty; the
/// first fragment of a series starts at the first byte, and every other
/// directly behind the fragment before it.
pub proof fn law_fragments_carry_consecutive_slices(stage: StageView, reliable: bool, j: int)
    requires
        stage.inv(),
        0 <= j < stage.wire(reliable).len(),
        stage.wire(reliable)[j] is Fragment,
    ensures
        ({
            let log = stage.wire(reliable);
            &&& log[j]->len >= 1
            &&& log[j]->start + log[j]->len <= log[j]->message.len()
            &&& log[j].is_open_fragment() == (log[j]->start + log[j]->len < log[j]->message.len())
            &&& log[j]->start > 0 ==> {
                &&& j > 0
                &&& log[j - 1] is Fragment
                &&& log[j - 1]->message == log[j]->message
                &&& log[j - 1]->start + log[j - 1]->len == log[j]->start
            }
        }),
{
    let log = stage.wire(reliable);
    assert(log[j].wf());
    if j > 0 {
        assert(log[j - 1].followed_by(log[j], stage.generator(reliable).mask()));
    }
}

/// The fragments of a series, taken together in the order of the log,
/// carry their message from its first byte up to where the latest of
/// them stops; a series that ends with a fragment that announces no more
/// carries the whole message.
pub proof fn law_fragments_carry_the_message(stage: StageView, reliable: bool, j: int)
    requires
        stage.inv(),
        0 <= j < stage.wire(reliable).len(),
        stage.wire(reliable)[j] is Fragment,
    ensures
        ({
            let log = stage.wire(reliable);
            &&& series_bytes(log, j) == log[j]->message.take((log[j]->start + log[j]->len) as int)
            &&& !log[j].is_open_fragment() ==> series_bytes(log, j) == log[j]->message
        }),
    decreases j,
{
    let log = stage.wire(reliable);
    let message = log[j]->message;
    let end = (log[j]->start + log[j]->len) as int;
    law_fragments_carry_consecutive_slices(stage, reliable, j);
    if log[j].is_continuation() {
        law_fragments_carry_the_message(stage, reliable, j - 1);
        assert(message.take(log[j]->start as int) + log[j].payload() =~= message.take(end));
    } else {
        assert(log[j].payload() =~= message.take(end));
    }
    if !log[j].is_open_fragment() {
        assert(message.take(end) =~= message);
    }
}

/// Every header of a series carries the priority of its first fragment.
pub proof fn law_series_keeps_priority(stage: StageView, reliable: bool, j: int)
    requires
        stage.inv(),
        0 < j < stage.wire(reliable).len(),
        stage.wire(reliable)[j].is_continuation(),
    ensures
        stage.wire(reliable)[j - 1] is Fragment,
        stage.wire(reliable)[j]->Fragment_priority == stage.wire(
            reliable,
        )[j - 1]->Fragment_priority,
{
    let log = stage.wire(reliable);
    assert(log[j - 1].followed_by(log[j], stage.generator(reliable).mask()));
}

/// Strict priority: a pass of the consumer gives the batch of a stage
/// only where no stage of a smaller index has a batch to give.
pub proof fn law_strict_priority(before: PipelineView, after: PipelineView, res: ScanView, j: int)
    requires
        before.scanned(after, res),
        res matches ScanView::Batch(_, idx) && 0 <= j < idx,
    ensures
        !(before.stages[j].try_pull_result() is Batch),
        before.stages[j].ready.len() == 0,
{
}

/// A stage with a ready batch always gives its oldest ready batch, and a
/// pass never skips the first stage that has a batch to give.
pub proof fn law_first_ready_served(before: PipelineView, after: PipelineView, res: ScanView, j: int)
    requires
        before.active,
        before.scanned(after, res),
        0 <= j < before.stages.len(),
        before.stages[j].ready.len() > 0,
        forall|k: int| 0 <= k < j ==> !((#[trigger] before.stages[k]).try_pull_result() is Batch),
    ensures
        res == ScanView::Batch(before.stages[j].ready[0], j as usize),
{
    assert(before.stages[j].try_pull_result() is Batch);
    match res {
        ScanView::Batch(b, idx) => {
            if idx < j {
                assert(!(before.stages[idx as int].try_pull_result() is Batch));
            }
        },
        _ => {},
    }
}

/// A disabled pipeline gives nothing to a pass and is left as it was.
pub proof fn law_disabled_gives_nothing(before: PipelineView, after: PipelineView, res: ScanView)
    requires
        !before.active,
        before.scanned(after, res),
    ensures
        res is Disabled,
        after == before,
{
}

/// A pull that finds nothing ready and meets a bytes hint that has
/// changed since the last look backs off, and the first backoff after a
/// reset is the base slot.
pub proof fn law_backoff_starts_at_slot(stage: StageView)
    requires
        stage.ready.len() == 0,
        stage.bytes != stage.backoff.last_bytes,
        stage.backoff.retry_time == 0,
    ensures
        stage.try_pull_result() == PullView::Backoff(stage.backoff.tslot),
        stage.after_try_pull().backoff.backoff,
{
}

/// Coalescing: a batch being filled goes to the consumer as soon as a
/// pull finds the bytes hint that the pull before it saw.
pub proof fn law_stale_batch_flushed(stage: StageView)
    requires
        stage.ready.len() == 0,
        stage.current is Some,
        stage.bytes != stage.backoff.last_bytes,
    ensures
        stage.try_pull_result() is Backoff,
        stage.after_try_pull().try_pull_result() == PullView::Batch(stage.current.unwrap()),
{
}

/// Where the consumer empties the slot, by a pull that takes the batch
/// being filled or by draining, the bytes hint is zero afterwards.
pub proof fn law_hint_cleared_with_the_slot(stage: StageView)
    ensures
        stage.after_drain().current is None && stage.after_drain().bytes == 0,
        stage.ready.len() == 0 && stage.current is Some && stage.bytes == stage.backoff.last_bytes
            ==> stage.after_try_pull().current is None && stage.after_try_pull().bytes == 0,
{
}

/// A pull that backs off leaves the flag raised that keeps producers
/// from waking the consumer for bytes alone.
pub proof fn law_backing_off_raises_the_flag(stage: StageView)
    requires
        stage.inv(),
        stage.try_pull_result() is Backoff,
    ensures
        stage.after_try_pull().backoff.backoff,
        stage.after_try_pull().inv(),
{
}

/// Draining takes exactly the batches that hold data and leaves the
/// free ones in the pool.
pub proof fn law_drain_leaves_pool(stage: StageView)
    requires
        stage.inv(),
    ensures
        stage.after_drain().refill == stage.refill,
        stage.after_drain().ready.len() == 0,
        stage.after_drain().current is None,
        stage.holding_data().len() == stage.ready.len() + (if stage.current is Some {
            1nat
        } else {
            0nat
        }),
        stage.after_drain().in_flight + stage.after_drain().refill.len() == stage.queue_size,
{
}

} // verus!
