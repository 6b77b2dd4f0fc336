use tx_pipeline::batch::WBatch;
use tx_pipeline::config::{BatchConfig, TransmissionPipelineConf};
use tx_pipeline::message::NetMessage;
use tx_pipeline::pipeline::{PipelineSignals, Scan, TransmissionPipeline};
use tx_pipeline::seq_num::TransportPriorityTx;
use tx_pipeline::model::{Push, TransportPush};
use tx_pipeline::stage::{Pull, Stage};
use zenoh_buffers::reader::{DidntRead, HasReader};
use zenoh_buffers::ZBuf;
use zenoh_codec::{RCodec, Zenoh080};
use zenoh_protocol::network::NetworkMessage;
use zenoh_protocol::transport::{
    Fragment, Frame, KeepAlive, TransportBody, TransportMessage,
};
use zenoh_protocol::zenoh::{PushBody, Put};

const SN_MASK: u32 = u32::MAX >> 4;

fn config(mtu: u16, queue_size: usize) -> TransmissionPipelineConf {
    TransmissionPipelineConf {
        batch: BatchConfig { mtu, is_streamed: false },
        queue_size: [queue_size; 8],
        wait_before_drop: 1_000_000,
        backoff: 1_000,
    }
}

fn single(mtu: u16, queue_size: usize) -> (TransmissionPipeline, PipelineSignals) {
    let priorities = vec![TransportPriorityTx::make(SN_MASK)];
    TransmissionPipeline::make(config(mtu, queue_size), priorities.as_slice())
}

fn multi(mtu: u16, queue_size: usize) -> (TransmissionPipeline, PipelineSignals) {
    let priorities = vec![TransportPriorityTx::make(SN_MASK); 8];
    TransmissionPipeline::make(config(mtu, queue_size), priorities.as_slice())
}

fn push_message(
    payload_size: usize,
    priority: zenoh_protocol::core::Priority,
    droppable: bool,
) -> NetMessage {
    let congestion = if droppable {
        zenoh_protocol::core::CongestionControl::Drop
    } else {
        zenoh_protocol::core::CongestionControl::Block
    };
    let msg: NetworkMessage = zenoh_protocol::network::Push {
        wire_expr: "test".into(),
        ext_qos: zenoh_protocol::network::ext::QoSType::new(priority, congestion, false),
        ext_tstamp: None,
        ext_nodeid: zenoh_protocol::network::ext::NodeIdType::default(),
        payload: PushBody::Put(Put {
            timestamp: None,
            encoding: zenoh_protocol::core::Encoding::default(),
            ext_sinfo: None,
            ext_attachment: None,
            ext_unknown: vec![],
            payload: ZBuf::from(vec![7_u8; payload_size]),
        }),
    }
    .into();
    NetMessage::new(msg)
}

fn blocking(payload_size: usize) -> NetMessage {
    push_message(payload_size, zenoh_protocol::core::Priority::Control, false)
}

fn keep_alive() -> TransportMessage {
    KeepAlive.into()
}

/// A header read back from a batch.
#[derive(Debug, Clone, Copy, PartialEq, Eq)]
enum Header {
    Frame { sn: u32, messages: usize, priority: u8 },
    Fragment { sn: u32, more: bool, len: usize },
    Other,
}

fn headers(batch: &WBatch) -> Vec<Header> {
    let mut reader = batch.as_slice().reader();
    let codec = Zenoh080::new();
    let mut out = vec![];
    loop {
        let res: Result<TransportMessage, DidntRead> = codec.read(&mut reader);
        match res {
            Ok(msg) => out.push(match msg.body {
                TransportBody::Frame(Frame { sn, payload, ext_qos, .. }) => Header::Frame {
                    sn,
                    messages: payload.len(),
                    priority: ext_qos.priority() as u8,
                },
                TransportBody::Fragment(Fragment { sn, more, payload, .. }) => {
                    Header::Fragment { sn, more, len: payload.len() }
                }
                _ => Header::Other,
            }),
            Err(_) => break,
        }
    }
    out
}

fn pull(pipeline: &mut TransmissionPipeline) -> (WBatch, usize) {
    match pipeline.pull() {
        Scan::Batch(batch, priority) => (batch, priority),
        Scan::Backoff(ns) => panic!("backoff of {} ns", ns),
        Scan::Disabled => panic!("disabled"),
    }
}

fn total(stage: &Stage) -> usize {
    stage.refill_len()
        + stage.ready_len()
        + if stage.has_current() { 1 } else { 0 }
        + stage.in_flight()
}

#[test]
fn make_fills_every_pool() {
    let mut conf = config(1_024, 1);
    conf.queue_size = [1, 2, 3, 4, 5, 6, 7, 16];
    let priorities = vec![TransportPriorityTx::make(SN_MASK); 8];
    let (pipeline, signals) = TransmissionPipeline::make(conf, priorities.as_slice());
    assert_eq!(pipeline.stage_count(), 8);
    assert_eq!(signals.n_ref_r.len(), 8);
    assert!(pipeline.is_active());
    assert_eq!(pipeline.wait_before_drop(), 1_000_000);
    for idx in 0..8 {
        let stage = pipeline.stage(idx);
        assert_eq!(stage.queue_size(), conf.queue_size[idx]);
        assert_eq!(stage.refill_len(), conf.queue_size[idx]);
        assert_eq!(stage.ready_len(), 0);
        assert_eq!(stage.in_flight(), 0);
        assert!(!stage.has_current());
        assert_eq!(stage.bytes_hint(), 0);
        assert_eq!(stage.backoff().tslot, 1_000);
        assert_eq!(stage.backoff().retry_time, 0);
        assert_eq!(stage.next_sn(true), 0);
        assert_eq!(stage.next_sn(false), 0);
    }
}

#[test]
fn single_channel_uses_default_queue_size() {
    let mut conf = config(1_024, 1);
    conf.queue_size = [1, 1, 1, 1, 1, 9, 1, 1];
    let priorities = vec![TransportPriorityTx::make(SN_MASK)];
    let (pipeline, signals) = TransmissionPipeline::make(conf, priorities.as_slice());
    assert_eq!(pipeline.stage_count(), 1);
    assert_eq!(signals.n_ref_r.len(), 1);
    assert_eq!(pipeline.stage(0).queue_size(), 9);
    assert_eq!(pipeline.stage(0).refill_len(), 9);
}

#[test]
fn batches_are_conserved() {
    let (mut pipeline, _signals) = single(1_024, 3);
    let small = blocking(100);
    let large = blocking(5_000);
    assert_eq!(total(pipeline.stage(0)), 3);

    assert_eq!(pipeline.push_network_message(&small), Push::Sent);
    assert_eq!(total(pipeline.stage(0)), 3);
    assert_eq!(pipeline.push_transport_message(&keep_alive(), 0), TransportPush::Stored);
    assert_eq!(total(pipeline.stage(0)), 3);
    assert!(pipeline.stage(0).has_current());

    // The large message needs more batches than are free.
    assert_eq!(pipeline.push_network_message(&large), Push::Blocked { droppable: false });
    assert_eq!(total(pipeline.stage(0)), 3);
    assert_eq!(pipeline.stage(0).refill_len(), 0);
    assert_eq!(pipeline.stage(0).ready_len(), 3);

    let mut guard = 0;
    loop {
        let (batch, priority) = pull(&mut pipeline);
        assert_eq!(total(pipeline.stage(0)), 3);
        assert_eq!(pipeline.stage(0).in_flight(), 1);
        pipeline.refill(batch, priority);
        assert_eq!(total(pipeline.stage(0)), 3);
        assert_eq!(pipeline.stage(0).in_flight(), 0);
        match pipeline.push_network_message(&large) {
            Push::Sent => break,
            Push::Blocked { droppable } => assert!(!droppable),
            Push::Abandoned => panic!("abandoned"),
        }
        assert_eq!(total(pipeline.stage(0)), 3);
        guard += 1;
        assert!(guard < 100);
    }
    let drained = pipeline.drain();
    assert_eq!(pipeline.stage(0).in_flight(), drained.len());
    assert_eq!(total(pipeline.stage(0)), 3);
}

#[test]
fn sequence_numbers_advance_by_one_per_frame() {
    let (mut pipeline, _signals) = single(1_024, 4);
    let msg = blocking(600);
    let mut seen = vec![];
    for round in 0..12_u32 {
        assert_eq!(pipeline.stage(0).next_sn(true), round);
        assert_eq!(pipeline.push_network_message(&msg), Push::Sent);
        let (batch, priority) = pull(&mut pipeline);
        seen.extend(headers(&batch));
        pipeline.refill(batch, priority);
    }
    let expected: Vec<Header> =
        (0..12).map(|sn| Header::Frame { sn, messages: 1, priority: 5 }).collect();
    assert_eq!(seen, expected);
    assert_eq!(pipeline.stage(0).next_sn(true), 12);
    assert_eq!(pipeline.stage(0).next_sn(false), 0);
}

#[test]
fn fragment_series_is_complete_and_numbered() {
    let (mut pipeline, _signals) = single(1_024, 1);
    let payload = 5_000;
    let msg = blocking(payload);
    let mut seen = vec![];
    let mut guard = 0;
    loop {
        match pipeline.push_network_message(&msg) {
            Push::Sent => break,
            Push::Blocked { droppable } => {
                assert!(!droppable);
                assert!(pipeline.stage(0).is_pending());
            }
            Push::Abandoned => panic!("abandoned"),
        }
        let (batch, priority) = pull(&mut pipeline);
        seen.extend(headers(&batch));
        pipeline.refill(batch, priority);
        guard += 1;
        assert!(guard < 100);
    }
    let (batch, priority) = pull(&mut pipeline);
    seen.extend(headers(&batch));
    pipeline.refill(batch, priority);

    assert!(seen.len() >= 5);
    let mut carried = 0;
    for (i, header) in seen.iter().enumerate() {
        match *header {
            Header::Fragment { sn, more, len } => {
                assert_eq!(sn, i as u32);
                assert_eq!(more, i + 1 < seen.len());
                assert!(len > 0);
                carried += len;
            }
            other => panic!("not a fragment: {:?}", other),
        }
    }
    // The fragments carry the whole serialized message: its payload and
    // a few bytes of header.
    assert!(carried > payload && carried < payload + 32);
    assert!(!pipeline.stage(0).is_pending());
    // The number after the last fragment was allocated when the series
    // closed and is not sent.
    assert_eq!(pipeline.stage(0).next_sn(true), seen.len() as u32 + 1);

    // The next message starts behind the series.
    assert_eq!(pipeline.push_network_message(&blocking(8)), Push::Sent);
    let (batch, _) = pull(&mut pipeline);
    assert_eq!(
        headers(&batch),
        vec![Header::Frame { sn: seen.len() as u32 + 1, messages: 1, priority: 5 }]
    );
}

#[test]
fn fragments_of_a_large_message_with_largest_batches() {
    let (mut pipeline, _signals) = single(u16::MAX, 1);
    let msg = blocking(2_097_152);
    let mut seen = vec![];
    loop {
        let res = pipeline.push_network_message(&msg);
        let (batch, priority) = pull(&mut pipeline);
        seen.extend(headers(&batch));
        pipeline.refill(batch, priority);
        match res {
            Push::Sent => break,
            Push::Blocked { droppable } => assert!(!droppable),
            Push::Abandoned => panic!("abandoned"),
        }
    }
    assert_eq!(seen.len(), 33);
    for (i, header) in seen.iter().enumerate() {
        match *header {
            Header::Fragment { sn, more, .. } => {
                assert_eq!(sn, i as u32);
                assert_eq!(more, i != 32);
            }
            other => panic!("not a fragment: {:?}", other),
        }
    }
}

#[test]
fn droppable_message_without_a_batch_takes_no_number() {
    let (mut pipeline, _signals) = single(u16::MAX, 1);
    let first = blocking((u16::MAX / 2) as usize);
    let second = push_message(
        (u16::MAX / 2) as usize,
        zenoh_protocol::core::Priority::Control,
        true,
    );
    assert!(second.is_droppable());
    assert!(!first.is_droppable());
    assert_eq!(pipeline.push_network_message(&first), Push::Sent);
    let next = pipeline.stage(0).next_sn(true);
    assert_eq!(next, 1);

    // The only batch waits for the consumer: the caller may wait until
    // its deadline and then give up.
    assert_eq!(pipeline.push_network_message(&second), Push::Blocked { droppable: true });
    assert!(!pipeline.stage(0).is_pending());
    assert!(!pipeline.cancel(&second));
    assert_eq!(pipeline.stage(0).next_sn(true), next);

    // The message after the dropped one carries the number that the
    // dropped one would have carried.
    let (batch, priority) = pull(&mut pipeline);
    pipeline.refill(batch, priority);
    assert_eq!(pipeline.push_network_message(&first), Push::Sent);
    let (batch, _) = pull(&mut pipeline);
    assert_eq!(headers(&batch), vec![Header::Frame { sn: next, messages: 1, priority: 5 }]);
}

#[test]
fn cancel_restores_the_number_of_a_waiting_frame() {
    let (mut pipeline, _signals) = single(256, 1);
    // The slot holds a batch with a transport message in it.
    assert_eq!(pipeline.push_transport_message(&keep_alive(), 0), TransportPush::Stored);
    let before = pipeline.stage(0).next_sn(true);
    // The message does not fit behind it: that batch moves out and the
    // frame waits for the next one, with its number allocated. From
    // here on the message is no longer droppable.
    let msg = push_message(250, zenoh_protocol::core::Priority::Control, true);
    assert!(msg.is_droppable());
    assert_eq!(pipeline.push_network_message(&msg), Push::Blocked { droppable: false });
    assert!(pipeline.stage(0).is_pending());
    assert_eq!(pipeline.stage(0).ready_len(), 1);
    assert_eq!(pipeline.stage(0).next_sn(true), before + 1);
    // A transport message has to wait behind the message under way.
    assert_eq!(pipeline.push_transport_message(&keep_alive(), 0), TransportPush::Blocked);

    assert!(pipeline.cancel(&msg));
    assert!(!pipeline.stage(0).is_pending());
    assert_eq!(pipeline.stage(0).next_sn(true), before);
    assert!(!pipeline.cancel(&msg));
}

#[test]
fn waiting_frame_goes_on_after_a_refill() {
    // The smallest payload that does not fit behind a keep-alive still
    // fits into an empty batch.
    let mut found = false;
    for payload in 200..256 {
        let (mut pipeline, _signals) = single(256, 1);
        assert_eq!(pipeline.push_transport_message(&keep_alive(), 0), TransportPush::Stored);
        let msg = blocking(payload);
        match pipeline.push_network_message(&msg) {
            Push::Sent => continue,
            Push::Blocked { droppable } => assert!(!droppable),
            Push::Abandoned => panic!("abandoned"),
        }
        found = true;
        assert!(pipeline.stage(0).is_pending());
        assert_eq!(pipeline.stage(0).next_sn(true), 1);
        let (batch, priority) = pull(&mut pipeline);
        assert_eq!(headers(&batch), vec![Header::Other]);
        pipeline.refill(batch, priority);
        assert_eq!(pipeline.push_network_message(&msg), Push::Sent);
        assert!(!pipeline.stage(0).is_pending());
        let (batch, _) = pull(&mut pipeline);
        assert_eq!(headers(&batch), vec![Header::Frame { sn: 0, messages: 1, priority: 5 }]);
        assert_eq!(batch.len(), 256);
        assert_eq!(pipeline.stage(0).next_sn(true), 1);
        break;
    }
    assert!(found);
}

#[test]
fn message_that_cannot_be_fragmented_is_abandoned() {
    // Two bytes are too few for the header of a frame or of a fragment.
    let (mut pipeline, _signals) = single(2, 2);
    let msg = blocking(64);
    assert_eq!(pipeline.push_network_message(&msg), Push::Abandoned);
    assert!(!pipeline.stage(0).is_pending());
    assert_eq!(pipeline.stage(0).next_sn(true), 0);
    assert!(pipeline.stage(0).has_current());
    assert_eq!(pipeline.stage(0).ready_len(), 0);
    assert_eq!(total(pipeline.stage(0)), 2);
    // The same again: nothing was used up.
    assert_eq!(pipeline.push_network_message(&msg), Push::Abandoned);
    assert_eq!(pipeline.stage(0).next_sn(true), 0);
}

#[test]
fn strict_priority_serves_the_smaller_index_first() {
    let (mut pipeline, _signals) = multi(1_024, 1);
    let low = push_message(16, zenoh_protocol::core::Priority::RealTime, false);
    let high = push_message(16, zenoh_protocol::core::Priority::Control, false);
    assert_eq!(low.priority(), 1);
    assert_eq!(high.priority(), 0);
    assert_eq!(pipeline.push_network_message(&low), Push::Sent);
    assert_eq!(pipeline.push_network_message(&high), Push::Sent);
    assert_eq!(pipeline.stage(0).ready_len(), 1);
    assert_eq!(pipeline.stage(1).ready_len(), 1);

    pipeline.begin_pull();
    let (batch, priority) = pull(&mut pipeline);
    assert_eq!(priority, 0);
    assert_eq!(headers(&batch), vec![Header::Frame { sn: 0, messages: 1, priority: 0 }]);
    // The stage behind was not touched.
    assert_eq!(pipeline.stage(1).ready_len(), 1);
    let (batch, priority) = pull(&mut pipeline);
    assert_eq!(priority, 1);
    assert_eq!(headers(&batch), vec![Header::Frame { sn: 0, messages: 1, priority: 1 }]);
}

#[test]
fn every_priority_has_its_own_stage_and_numbers() {
    let (mut pipeline, _signals) = multi(1_024, 2);
    let background = push_message(16, zenoh_protocol::core::Priority::Background, false);
    assert_eq!(pipeline.push_network_message(&background), Push::Sent);
    assert_eq!(pipeline.push_network_message(&background), Push::Sent);
    for idx in 0..7 {
        assert_eq!(pipeline.stage(idx).ready_len(), 0);
        assert_eq!(pipeline.stage(idx).next_sn(true), 0);
    }
    assert_eq!(pipeline.stage(7).ready_len(), 2);
    assert_eq!(pipeline.stage(7).next_sn(true), 2);
    let (batch, priority) = pull(&mut pipeline);
    assert_eq!(priority, 7);
    assert_eq!(headers(&batch), vec![Header::Frame { sn: 0, messages: 1, priority: 7 }]);
}

#[test]
fn transport_messages_coalesce_until_the_hint_is_stale() {
    let (mut pipeline, signals) = single(1_024, 2);
    assert_eq!(pipeline.push_transport_message(&keep_alive(), 0), TransportPush::Stored);
    assert_eq!(pipeline.push_transport_message(&keep_alive(), 0), TransportPush::Stored);
    assert_eq!(pipeline.stage(0).ready_len(), 0);
    assert!(pipeline.stage(0).has_current());
    let written = pipeline.stage(0).bytes_hint();
    assert_eq!(written, 2);
    assert!(signals.n_out_r.try_recv().is_ok());

    pipeline.begin_pull();
    // The hint has changed since the last look: back off for one slot.
    match pipeline.pull() {
        Scan::Backoff(ns) => assert_eq!(ns, 1_000),
        _ => panic!("expected a backoff"),
    }
    assert!(pipeline.stage(0).backoff().backoff);
    assert_eq!(pipeline.stage(0).backoff().last_bytes, written);
    // Nothing was written meanwhile: the consumer takes the batch with
    // both messages.
    let (batch, priority) = pull(&mut pipeline);
    assert_eq!(priority, 0);
    assert_eq!(headers(&batch), vec![Header::Other, Header::Other]);
    assert!(!pipeline.stage(0).has_current());
    assert_eq!(pipeline.stage(0).in_flight(), 1);
    // The slot is empty: the hint is cleared.
    assert_eq!(pipeline.stage(0).bytes_hint(), 0);
}

#[test]
fn backoff_doubles_while_bytes_keep_coming() {
    let (mut pipeline, _signals) = single(1_024, 2);
    pipeline.begin_pull();
    let mut expected = 1_000_u32;
    for _ in 0..5 {
        assert_eq!(pipeline.push_transport_message(&keep_alive(), 0), TransportPush::Stored);
        match pipeline.pull() {
            Scan::Backoff(ns) => assert_eq!(ns, expected),
            _ => panic!("expected a backoff"),
        }
        expected *= 2;
    }
    pipeline.begin_pull();
    assert_eq!(pipeline.stage(0).backoff().retry_time, 0);
    assert!(!pipeline.stage(0).backoff().backoff);
}

#[test]
fn wake_up_is_suppressed_while_the_consumer_backs_off() {
    let (mut pipeline, signals) = single(1_024, 2);
    pipeline.begin_pull();
    assert_eq!(pipeline.push_transport_message(&keep_alive(), 0), TransportPush::Stored);
    assert!(signals.n_out_r.try_recv().is_ok());
    assert!(signals.n_out_r.try_recv().is_err());
    match pipeline.pull() {
        Scan::Backoff(_) => {}
        _ => panic!("expected a backoff"),
    }
    // The consumer backs off: bytes alone do not wake it.
    assert_eq!(pipeline.push_transport_message(&keep_alive(), 0), TransportPush::Stored);
    assert!(signals.n_out_r.try_recv().is_err());
    // A batch handed over always does.
    assert_eq!(pipeline.push_network_message(&blocking(8)), Push::Sent);
    assert!(signals.n_out_r.try_recv().is_ok());
    assert_eq!(pipeline.stage(0).bytes_hint(), 0);
}

#[test]
fn idle_pipeline_gives_the_longest_wait() {
    let (mut pipeline, _signals) = multi(1_024, 1);
    pipeline.begin_pull();
    match pipeline.pull() {
        Scan::Backoff(ns) => assert_eq!(ns, u32::MAX),
        _ => panic!("expected a wait"),
    }
}

#[test]
fn smallest_backoff_of_all_stages_is_the_wait() {
    let (mut pipeline, _signals) = multi(1_024, 1);
    pipeline.begin_pull();
    assert_eq!(pipeline.push_transport_message(&keep_alive(), 3), TransportPush::Stored);
    match pipeline.pull() {
        Scan::Backoff(ns) => assert_eq!(ns, 1_000),
        _ => panic!("expected a backoff"),
    }
    // Stage 3 goes on to its second slot while stage 6 starts.
    assert_eq!(pipeline.push_transport_message(&keep_alive(), 3), TransportPush::Stored);
    assert_eq!(pipeline.push_transport_message(&keep_alive(), 6), TransportPush::Stored);
    match pipeline.pull() {
        Scan::Backoff(ns) => assert_eq!(ns, 1_000),
        _ => panic!("expected a backoff"),
    }
    assert_eq!(pipeline.stage(3).backoff().retry_time, 2_000);
    assert_eq!(pipeline.stage(6).backoff().retry_time, 1_000);
}

#[test]
fn disable_stops_the_pulls() {
    let (mut pipeline, signals) = single(u16::MAX, 1);
    let msg = blocking((u16::MAX / 2) as usize);
    assert_eq!(pipeline.push_network_message(&msg), Push::Sent);
    assert_eq!(pipeline.push_network_message(&msg), Push::Blocked { droppable: false });
    while signals.n_out_r.try_recv().is_ok() {}

    pipeline.disable();
    assert!(!pipeline.is_active());
    assert_eq!(pipeline.stage(0).bytes_hint(), u16::MAX);
    // The consumer is woken to see it.
    assert!(signals.n_out_r.try_recv().is_ok());
    for _ in 0..3 {
        pipeline.begin_pull();
        assert!(matches!(pipeline.pull(), Scan::Disabled));
    }
    // The producer still waits; nothing was taken from the stage.
    assert_eq!(pipeline.push_network_message(&msg), Push::Blocked { droppable: false });
    assert_eq!(pipeline.stage(0).ready_len(), 1);
    // Draining reclaims the batch.
    let drained = pipeline.drain();
    assert_eq!(drained.len(), 1);
    let (batch, priority) = drained.into_iter().next().unwrap();
    pipeline.refill(batch, priority);
    assert_eq!(pipeline.push_network_message(&msg), Push::Sent);
    assert!(matches!(pipeline.pull(), Scan::Disabled));
}

#[test]
fn drain_returns_ready_then_current_and_leaves_the_pool() {
    let (mut pipeline, _signals) = multi(1_024, 4);
    let control = push_message(16, zenoh_protocol::core::Priority::Control, false);
    let data = push_message(16, zenoh_protocol::core::Priority::Data, false);
    assert_eq!(pipeline.push_network_message(&data), Push::Sent);
    assert_eq!(pipeline.push_network_message(&control), Push::Sent);
    assert_eq!(pipeline.push_network_message(&control), Push::Sent);
    assert_eq!(pipeline.push_transport_message(&keep_alive(), 0), TransportPush::Stored);
    assert_eq!(pipeline.push_transport_message(&keep_alive(), 2), TransportPush::Stored);

    let drained = pipeline.drain();
    let got: Vec<(Vec<Header>, usize)> =
        drained.iter().map(|(batch, priority)| (headers(batch), *priority)).collect();
    assert_eq!(
        got,
        vec![
            (vec![Header::Frame { sn: 0, messages: 1, priority: 0 }], 0),
            (vec![Header::Frame { sn: 1, messages: 1, priority: 0 }], 0),
            (vec![Header::Other], 0),
            (vec![Header::Other], 2),
            (vec![Header::Frame { sn: 0, messages: 1, priority: 5 }], 5),
        ]
    );
    assert_eq!(pipeline.stage(0).refill_len(), 1);
    assert_eq!(pipeline.stage(0).in_flight(), 3);
    assert_eq!(pipeline.stage(2).refill_len(), 3);
    assert_eq!(pipeline.stage(5).refill_len(), 3);
    assert_eq!(pipeline.stage(1).refill_len(), 4);
    for idx in 0..8 {
        assert_eq!(pipeline.stage(idx).ready_len(), 0);
        assert!(!pipeline.stage(idx).has_current());
        assert_eq!(total(pipeline.stage(idx)), 4);
    }
    for idx in 0..8 {
        assert_eq!(pipeline.stage(idx).bytes_hint(), 0);
    }
    assert!(pipeline.drain().is_empty());
}

#[test]
fn refill_wakes_the_producer_of_its_stage() {
    let (mut pipeline, signals) = multi(1_024, 1);
    let msg = push_message(16, zenoh_protocol::core::Priority::DataLow, false);
    assert_eq!(pipeline.push_network_message(&msg), Push::Sent);
    let (batch, priority) = pull(&mut pipeline);
    assert_eq!(priority, 6);
    for rx in signals.n_ref_r.iter() {
        assert!(rx.try_recv().is_err());
    }
    pipeline.refill(batch, priority);
    for (idx, rx) in signals.n_ref_r.iter().enumerate() {
        assert_eq!(rx.try_recv().is_ok(), idx == 6);
    }
    assert_eq!(pipeline.stage(6).refill_len(), 1);
}

#[test]
fn refilled_batch_is_cleared_before_it_is_written() {
    let (mut pipeline, _signals) = single(1_024, 1);
    let msg = blocking(500);
    for sn in 0..3 {
        assert_eq!(pipeline.push_network_message(&msg), Push::Sent);
        let (batch, priority) = pull(&mut pipeline);
        assert_eq!(headers(&batch), vec![Header::Frame { sn, messages: 1, priority: 5 }]);
        pipeline.refill(batch, priority);
    }
}

#[test]
fn transport_message_moves_a_full_batch_out() {
    let (mut pipeline, _signals) = single(3, 2);
    for _ in 0..3 {
        assert_eq!(pipeline.push_transport_message(&keep_alive(), 0), TransportPush::Stored);
    }
    assert_eq!(pipeline.stage(0).bytes_hint(), 3);
    // The fourth does not fit: the full batch goes to the consumer and
    // the message into the next one.
    assert_eq!(pipeline.push_transport_message(&keep_alive(), 0), TransportPush::Stored);
    assert_eq!(pipeline.stage(0).ready_len(), 1);
    assert_eq!(pipeline.stage(0).bytes_hint(), 1);
    assert!(pipeline.stage(0).has_current());
    for _ in 0..2 {
        assert_eq!(pipeline.push_transport_message(&keep_alive(), 0), TransportPush::Stored);
    }
    // No batch is left for the next one.
    assert_eq!(pipeline.push_transport_message(&keep_alive(), 0), TransportPush::Blocked);
    assert_eq!(pipeline.stage(0).ready_len(), 2);
    assert!(!pipeline.stage(0).has_current());
    assert_eq!(pipeline.stage(0).bytes_hint(), 0);
    let (batch, _) = pull(&mut pipeline);
    assert_eq!(headers(&batch), vec![Header::Other; 3]);
}

#[test]
fn transport_message_larger_than_a_batch_is_refused() {
    let (mut pipeline, _signals) = single(0, 1);
    assert_eq!(pipeline.push_transport_message(&keep_alive(), 0), TransportPush::Refused);
    assert!(pipeline.stage(0).has_current());
    assert_eq!(pipeline.stage(0).ready_len(), 0);
    assert_eq!(pipeline.push_transport_message(&keep_alive(), 0), TransportPush::Refused);
    assert_eq!(total(pipeline.stage(0)), 1);
}

#[test]
fn stage_pull_is_empty_when_nothing_is_written() {
    let (tx_out, _rx_out) = flume::bounded(1);
    let (tx_ref, _rx_ref) = flume::bounded(1);
    let mut stage = Stage::new(
        2,
        BatchConfig { mtu: 128, is_streamed: true },
        TransportPriorityTx::make(SN_MASK),
        500,
        tx_out,
        tx_ref,
    );
    assert!(matches!(stage.try_pull(), Pull::Empty));
    assert!(matches!(stage.try_pull_deep(), Pull::Empty));
    assert_eq!(stage.backoff().retry_time, 0);
    stage.notify(9);
    match stage.try_pull() {
        Pull::Backoff(ns) => assert_eq!(ns, 500),
        _ => panic!("expected a backoff"),
    }
    match stage.try_pull() {
        Pull::Empty => {}
        _ => panic!("expected nothing"),
    }
    stage.reset_backoff();
    assert_eq!(stage.backoff().retry_time, 0);
    assert_eq!(stage.backoff().last_bytes, 9);
}

#[test]
fn closing_the_refill_signal_releases_the_producers() {
    let (mut pipeline, signals) = multi(1_024, 1);
    for rx in signals.n_ref_r.iter() {
        assert!(matches!(rx.try_recv(), Err(flume::TryRecvError::Empty)));
    }
    pipeline.close_refill();
    for rx in signals.n_ref_r.iter() {
        assert!(matches!(rx.try_recv(), Err(flume::TryRecvError::Disconnected)));
        assert!(rx.recv().is_err());
    }
    // The stages go on as before.
    let msg = push_message(16, zenoh_protocol::core::Priority::Data, false);
    assert_eq!(pipeline.push_network_message(&msg), Push::Sent);
    let (batch, priority) = pull(&mut pipeline);
    assert_eq!(priority, 5);
    pipeline.refill(batch, priority);
    assert_eq!(total(pipeline.stage(5)), 1);
}

#[test]
fn streamed_batches_keep_their_length_prefix() {
    let mut conf = config(1_024, 2);
    conf.batch.is_streamed = true;
    let priorities = vec![TransportPriorityTx::make(SN_MASK)];
    let (mut pipeline, _signals) = TransmissionPipeline::make(conf, priorities.as_slice());
    let msg = blocking(100);
    assert_eq!(pipeline.push_network_message(&msg), Push::Sent);
    assert_eq!(pipeline.push_transport_message(&keep_alive(), 0), TransportPush::Stored);
    assert_eq!(pipeline.stage(0).bytes_hint(), 1);
    let drained = pipeline.drain();
    assert_eq!(drained.len(), 2);
    for (batch, _) in drained.iter() {
        assert_eq!(&batch.as_slice()[..2], &[0_u8, 0]);
        assert_eq!(batch.len() as usize, batch.as_slice().len() - 2);
        assert!(!batch.is_empty());
    }
    let mut reader = drained[0].0.as_slice()[2..].reader();
    let res: Result<TransportMessage, DidntRead> = Zenoh080::new().read(&mut reader);
    match res.unwrap().body {
        TransportBody::Frame(Frame { sn, payload, .. }) => {
            assert_eq!(sn, 0);
            assert_eq!(payload.len(), 1);
        }
        _ => panic!("not a frame"),
    }
}

#[test]
fn sequence_numbers_wrap_at_the_resolution() {
    let priorities = vec![TransportPriorityTx::make(0x3)];
    let (mut pipeline, _signals) =
        TransmissionPipeline::make(config(1_024, 1), priorities.as_slice());
    let msg = blocking(600);
    let mut seen = vec![];
    for _ in 0..6 {
        assert_eq!(pipeline.push_network_message(&msg), Push::Sent);
        let (batch, priority) = pull(&mut pipeline);
        for header in headers(&batch) {
            match header {
                Header::Frame { sn, .. } => seen.push(sn),
                other => panic!("not a frame: {:?}", other),
            }
        }
        pipeline.refill(batch, priority);
    }
    assert_eq!(seen, vec![0, 1, 2, 3, 0, 1]);
}

#[test]
fn two_small_messages_share_no_batch() {
    // A network message always hands its batch over: the next one
    // starts a new batch and a new frame.
    let (mut pipeline, _signals) = single(1_024, 2);
    let msg = blocking(10);
    assert_eq!(pipeline.push_network_message(&msg), Push::Sent);
    assert_eq!(pipeline.push_network_message(&msg), Push::Sent);
    assert_eq!(pipeline.stage(0).ready_len(), 2);
    let (first, _) = pull(&mut pipeline);
    let (second, _) = pull(&mut pipeline);
    assert_eq!(headers(&first), vec![Header::Frame { sn: 0, messages: 1, priority: 5 }]);
    assert_eq!(headers(&second), vec![Header::Frame { sn: 1, messages: 1, priority: 5 }]);
}

#[test]
fn network_message_joins_a_batch_of_transport_messages() {
    let (mut pipeline, _signals) = single(1_024, 2);
    assert_eq!(pipeline.push_transport_message(&keep_alive(), 0), TransportPush::Stored);
    assert_eq!(pipeline.push_network_message(&blocking(10)), Push::Sent);
    assert!(!pipeline.stage(0).has_current());
    assert_eq!(pipeline.stage(0).ready_len(), 1);
    assert_eq!(pipeline.stage(0).refill_len(), 1);
    let (batch, _) = pull(&mut pipeline);
    assert_eq!(
        headers(&batch),
        vec![Header::Other, Header::Frame { sn: 0, messages: 1, priority: 5 }]
    );
}

#[test]
fn closing_the_ready_signal_releases_the_consumer() {
    let (mut pipeline, signals) = multi(1_024, 1);
    assert!(matches!(signals.n_out_r.try_recv(), Err(flume::TryRecvError::Empty)));
    pipeline.close_ready();
    assert!(matches!(signals.n_out_r.try_recv(), Err(flume::TryRecvError::Disconnected)));
    // The stages go on as before, and the refill signals stay open.
    let msg = push_message(16, zenoh_protocol::core::Priority::Data, false);
    assert_eq!(pipeline.push_network_message(&msg), Push::Sent);
    let (batch, priority) = pull(&mut pipeline);
    pipeline.refill(batch, priority);
    assert!(signals.n_ref_r[5].try_recv().is_ok());
}

#[test]
fn route_is_the_priority_or_the_only_stage() {
    let (pipeline, _signals) = multi(1_024, 1);
    for priority in 0..8_u8 {
        assert_eq!(pipeline.route(priority), priority as usize);
    }
    let (pipeline, _signals) = single(1_024, 1);
    for priority in 0..8_u8 {
        assert_eq!(pipeline.route(priority), 0);
    }
}

#[test]
fn saturated_backoff_is_reported() {
    let mut conf = config(1_024, 2);
    conf.backoff = 1 << 31;
    let priorities = vec![TransportPriorityTx::make(SN_MASK)];
    let (mut pipeline, _signals) = TransmissionPipeline::make(conf, priorities.as_slice());
    pipeline.begin_pull();
    assert_eq!(pipeline.push_transport_message(&keep_alive(), 0), TransportPush::Stored);
    match pipeline.pull() {
        Scan::Backoff(ns) => assert_eq!(ns, 1 << 31),
        _ => panic!("expected a backoff"),
    }
    assert!(!pipeline.stage(0).backoff().saturated);
    assert_eq!(pipeline.push_transport_message(&keep_alive(), 0), TransportPush::Stored);
    match pipeline.pull() {
        Scan::Backoff(ns) => assert_eq!(ns, u32::MAX),
        _ => panic!("expected a backoff"),
    }
    assert!(pipeline.stage(0).backoff().saturated);
    assert!(pipeline.backoff_saturated());
    pipeline.begin_pull();
    assert!(!pipeline.stage(0).backoff().saturated);
    assert!(!pipeline.backoff_saturated());
}
