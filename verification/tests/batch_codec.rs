use tx_pipeline::batch::{FragmentWritten, WBatch};
use tx_pipeline::config::BatchConfig;
use tx_pipeline::message::NetMessage;
use zenoh_buffers::reader::{DidntRead, HasReader};
use zenoh_buffers::ZBuf;
use zenoh_codec::transport::batch::BatchError;
use zenoh_codec::{RCodec, Zenoh080};
use zenoh_protocol::network::NetworkMessage;
use zenoh_protocol::transport::{
    Fragment, Frame, KeepAlive, TransportBody, TransportMessage,
};
use zenoh_protocol::zenoh::{PushBody, Put};

fn network(payload_size: usize) -> NetMessage {
    let msg: NetworkMessage = zenoh_protocol::network::Push {
        wire_expr: "batch".into(),
        ext_qos: zenoh_protocol::network::ext::QoSType::new(
            zenoh_protocol::core::Priority::DataHigh,
            zenoh_protocol::core::CongestionControl::Drop,
            false,
        ),
        ext_tstamp: None,
        ext_nodeid: zenoh_protocol::network::ext::NodeIdType::default(),
        payload: PushBody::Put(Put {
            timestamp: None,
            encoding: zenoh_protocol::core::Encoding::default(),
            ext_sinfo: None,
            ext_attachment: None,
            ext_unknown: vec![],
            payload: ZBuf::from(vec![3_u8; payload_size]),
        }),
    }
    .into();
    NetMessage::new(msg)
}

fn read_all(bytes: &[u8]) -> Vec<TransportMessage> {
    let mut reader = bytes.reader();
    let codec = Zenoh080::new();
    let mut out = vec![];
    loop {
        let res: Result<TransportMessage, DidntRead> = codec.read(&mut reader);
        match res {
            Ok(msg) => out.push(msg),
            Err(_) => break,
        }
    }
    out
}

#[test]
fn net_message_reads_the_qos() {
    let msg = network(4);
    assert!(msg.is_reliable());
    assert!(msg.is_droppable());
    assert_eq!(msg.priority(), 4);
    assert_eq!(msg.message().priority(), zenoh_protocol::core::Priority::DataHigh);
}

#[test]
fn new_batch_is_empty() {
    let plain = WBatch::new(BatchConfig { mtu: 100, is_streamed: false });
    assert_eq!(plain.len(), 0);
    assert!(plain.is_empty());
    assert_eq!(plain.as_slice(), &[] as &[u8]);
    assert_eq!(plain.capacity(), 100);
    assert_eq!(plain.config(), BatchConfig { mtu: 100, is_streamed: false });

    let streamed = WBatch::new(BatchConfig { mtu: 100, is_streamed: true });
    assert_eq!(streamed.len(), 0);
    assert!(streamed.is_empty());
    assert_eq!(streamed.as_slice(), &[0_u8, 0]);
    assert_eq!(streamed.capacity(), 100);
}

#[test]
fn streamed_batch_too_small_for_its_prefix_stays_empty() {
    let mut batch = WBatch::new(BatchConfig { mtu: 1, is_streamed: true });
    assert_eq!(batch.as_slice(), &[] as &[u8]);
    assert_eq!(batch.len(), 0);
    assert!(batch.is_empty());
    batch.clear();
    assert_eq!(batch.as_slice(), &[] as &[u8]);
    let exact = WBatch::new(BatchConfig { mtu: 2, is_streamed: true });
    assert_eq!(exact.as_slice(), &[0_u8, 0]);
    assert_eq!(exact.len(), 0);
}

#[test]
fn transport_message_is_appended_and_read_back() {
    let mut batch = WBatch::new(BatchConfig { mtu: 3, is_streamed: true });
    let msg: TransportMessage = KeepAlive.into();
    assert!(batch.encode_transport(&msg));
    assert_eq!(batch.len(), 1);
    assert!(!batch.is_empty());
    assert_eq!(batch.as_slice().len(), 3);
    assert_eq!(&batch.as_slice()[..2], &[0_u8, 0]);
    let before = batch.as_slice().to_vec();
    // No room is left: the batch stays as it is.
    assert!(!batch.encode_transport(&msg));
    assert_eq!(batch.as_slice(), before.as_slice());
    let read = read_all(&batch.as_slice()[2..]);
    assert_eq!(read.len(), 1);
    assert!(matches!(read[0].body, TransportBody::KeepAlive(_)));

    batch.clear();
    assert!(batch.is_empty());
    assert_eq!(batch.as_slice(), &[0_u8, 0]);
    assert!(batch.encode_transport(&msg));
    assert_eq!(batch.len(), 1);
}

#[test]
fn network_message_needs_a_frame() {
    let mut batch = WBatch::new(BatchConfig { mtu: 1_024, is_streamed: false });
    let msg = network(16);
    assert_eq!(batch.encode_network(&msg), Err(BatchError::NewFrame));
    assert!(batch.is_empty());

    assert!(batch.encode_frame(&msg, true, 42, 4));
    let framed = batch.len();
    assert!(framed > 16);
    // The frame is open: the next message joins it.
    assert_eq!(batch.encode_network(&msg), Ok(()));
    assert!(batch.len() > framed);
    let read = read_all(batch.as_slice());
    assert_eq!(read.len(), 1);
    match &read[0].body {
        TransportBody::Frame(Frame { reliability, sn, ext_qos, payload }) => {
            assert_eq!(*reliability, zenoh_protocol::core::Reliability::Reliable);
            assert_eq!(*sn, 42);
            assert_eq!(ext_qos.priority(), zenoh_protocol::core::Priority::DataHigh);
            assert_eq!(payload.len(), 2);
            assert_eq!(payload[0], *msg.message());
        }
        _ => panic!("not a frame"),
    }

    // A transport message closes the frame.
    let keep_alive: TransportMessage = KeepAlive.into();
    assert!(batch.encode_transport(&keep_alive));
    assert_eq!(batch.encode_network(&msg), Err(BatchError::NewFrame));
    // Clearing closes it too.
    assert!(batch.encode_frame(&msg, true, 43, 4));
    batch.clear();
    assert_eq!(batch.encode_network(&msg), Err(BatchError::NewFrame));
}

#[test]
fn best_effort_frame_does_not_take_a_reliable_message() {
    let mut batch = WBatch::new(BatchConfig { mtu: 1_024, is_streamed: false });
    let msg = network(16);
    assert!(batch.encode_frame(&msg, false, 7, 0));
    assert_eq!(batch.encode_network(&msg), Err(BatchError::NewFrame));
    let read = read_all(batch.as_slice());
    match &read[0].body {
        TransportBody::Frame(Frame { reliability, sn, ext_qos, .. }) => {
            assert_eq!(*reliability, zenoh_protocol::core::Reliability::BestEffort);
            assert_eq!(*sn, 7);
            assert_eq!(ext_qos.priority(), zenoh_protocol::core::Priority::Control);
        }
        _ => panic!("not a frame"),
    }
}

#[test]
fn message_without_room_leaves_the_batch_unchanged() {
    let mut batch = WBatch::new(BatchConfig { mtu: 64, is_streamed: false });
    let small = network(8);
    let large = network(64);
    assert!(batch.encode_frame(&small, true, 1, 5));
    let before = batch.as_slice().to_vec();
    assert_eq!(batch.encode_network(&large), Err(BatchError::DidntWrite));
    assert_eq!(batch.as_slice(), before.as_slice());
    assert!(!batch.encode_frame(&large, true, 2, 5));
    assert_eq!(batch.as_slice(), before.as_slice());
    // The frame is still the one that was open.
    assert_eq!(batch.encode_network(&small), Ok(()));
}

#[test]
fn fragment_takes_what_fits() {
    let chunk: Vec<u8> = (0..200).map(|i| i as u8).collect();
    let mut batch = WBatch::new(BatchConfig { mtu: 100, is_streamed: false });
    let first = batch.encode_fragment(&chunk, true, 9, 5).unwrap();
    assert!(first.more);
    assert!(first.written >= 90 && first.written < 100);
    assert_eq!(batch.len() as usize, 100);
    let tail = &batch.as_slice()[100 - first.written..];
    assert_eq!(tail, &chunk[..first.written]);
    let read = read_all(batch.as_slice());
    assert_eq!(read.len(), 1);
    match &read[0].body {
        TransportBody::Fragment(Fragment { reliability, more, sn, payload, ext_qos }) => {
            assert_eq!(*reliability, zenoh_protocol::core::Reliability::Reliable);
            assert!(*more);
            assert_eq!(*sn, 9);
            assert_eq!(payload.as_slice(), &chunk[..first.written]);
            assert_eq!(ext_qos.priority(), zenoh_protocol::core::Priority::Data);
        }
        _ => panic!("not a fragment"),
    }
    // A full batch takes no fragment and stays as it is.
    let before = batch.as_slice().to_vec();
    assert_eq!(batch.encode_fragment(&chunk[first.written..], true, 10, 5), None);
    assert_eq!(batch.as_slice(), before.as_slice());
}

#[test]
fn last_fragment_announces_no_more() {
    let chunk = vec![1_u8; 50];
    let mut batch = WBatch::new(BatchConfig { mtu: 100, is_streamed: true });
    assert_eq!(
        batch.encode_fragment(&chunk, true, 3, 2),
        Some(FragmentWritten { written: 50, more: false })
    );
    let read = read_all(&batch.as_slice()[2..]);
    match &read[0].body {
        TransportBody::Fragment(Fragment { more, sn, payload, ext_qos, .. }) => {
            assert!(!*more);
            assert_eq!(*sn, 3);
            assert_eq!(payload.len(), 50);
            assert_eq!(ext_qos.priority(), zenoh_protocol::core::Priority::InteractiveHigh);
        }
        _ => panic!("not a fragment"),
    }
    // A chunk that fills the batch to its last byte is a last fragment.
    let mut batch = WBatch::new(BatchConfig { mtu: 100, is_streamed: false });
    let probe = batch.encode_fragment(&[0_u8; 200], true, 0, 5).unwrap();
    batch.clear();
    let exact = vec![9_u8; probe.written];
    assert_eq!(
        batch.encode_fragment(&exact, true, 0, 5),
        Some(FragmentWritten { written: probe.written, more: false })
    );
    assert_eq!(batch.len(), 100);
}

#[test]
fn empty_chunk_is_no_fragment() {
    let mut batch = WBatch::new(BatchConfig { mtu: 100, is_streamed: false });
    assert_eq!(batch.encode_fragment(&[], true, 0, 5), None);
    assert!(batch.is_empty());
}
