//! The serialization batch: a byte buffer of fixed capacity and the
//! state of the framing codec that writes into it.
use vstd::prelude::*;
use zenoh_buffers::reader::HasReader;
use zenoh_buffers::writer::{HasWriter, Writer};
use zenoh_buffers::{BBuf, ZBuf};
use zenoh_codec::transport::batch::{BatchError, CurrentFrame, LatestSn, Zenoh080Batch};
use zenoh_codec::{WCodec, Zenoh080};
use zenoh_protocol::transport::fragment::FragmentHeader;
use zenoh_protocol::transport::frame::FrameHeader;
use zenoh_protocol::network::NetworkMessage;
use zenoh_protocol::transport::TransportMessage;

use crate::config::{BatchConfig, PRIORITY_NUM};
use crate::message::NetMessage;

verus! {

/// The buffer of a batch. What it holds is known through `bbuf_bytes`
/// and `bbuf_capacity` only.
#[verifier::external_type_specification]
#[verifier::external_body]
pub struct ExBBuf(BBuf);

// The state of the batch codec and its error are plain data with public
// fields and variants. They are declared as they are, so that contracts
// speak of the fields themselves and nothing has to be believed of them.

/// The frame that the codec is in.
#[verifier::external_type_specification]
pub struct ExCurrentFrame(CurrentFrame);

/// The latest sequence number that the codec has seen on each channel.
#[verifier::external_type_specification]
pub struct ExLatestSn(LatestSn);

/// The state of the batch codec.
#[verifier::external_type_specification]
pub struct ExZenoh080Batch(Zenoh080Batch);

/// Why the batch codec did not write a network message.
#[verifier::external_type_specification]
pub struct ExBatchError(BatchError);

/// The bytes written into a buffer, oldest first.
pub uninterp spec fn bbuf_bytes(b: BBuf) -> Seq<u8>;

/// The capacity that a buffer was made with.
pub uninterp spec fn bbuf_capacity(b: BBuf) -> nat;

/// `BBuf::with_capacity`: an empty buffer of the given capacity.
pub assume_specification[ BBuf::with_capacity ](capacity: usize) -> (b: BBuf)
    ensures
        bbuf_bytes(b) == Seq::<u8>::empty(),
        bbuf_capacity(b) == capacity,
;

/// `BBuf::capacity`: the capacity that the buffer was made with.
pub assume_specification[ BBuf::capacity ](b: &BBuf) -> (c: usize)
    ensures
        c == bbuf_capacity(*b),
;

/// `BBuf::as_slice`: the written bytes, which never exceed the capacity.
pub assume_specification[ BBuf::as_slice ](b: &BBuf) -> (s: &[u8])
    ensures
        s@ == bbuf_bytes(*b),
        s@.len() <= bbuf_capacity(*b),
;

/// `Zenoh080Batch::new`: a codec outside any frame that has seen no
/// sequence number.
pub assume_specification[ Zenoh080Batch::new ]() -> (c: Zenoh080Batch)
    ensures
        c.current_frame is None,
        c.latest_sn.reliable is None,
        c.latest_sn.best_effort is None,
;

/// Whether a message of the given channel continues the frame that the
/// codec is in.
pub open spec fn frame_continues(frame: CurrentFrame, reliable: bool) -> bool {
    match frame {
        CurrentFrame::Reliable => reliable,
        CurrentFrame::BestEffort => !reliable,
        CurrentFrame::None => false,
    }
}

/// The bytes that the batch codec's `write` of a transport message
/// appends to a buffer that holds `bytes` under `capacity`, or nothing
/// where it does not write the message.
pub uninterp spec fn transport_write(
    bytes: Seq<u8>,
    capacity: nat,
    msg: TransportMessage,
) -> Option<Seq<u8>>;

/// The bytes that the batch codec's `write` of a network message into
/// the open frame appends to a buffer that holds `bytes` under
/// `capacity`, or nothing where the message finds no room.
pub uninterp spec fn network_write(
    bytes: Seq<u8>,
    capacity: nat,
    msg: NetworkMessage,
) -> Option<Seq<u8>>;

/// The bytes that the batch codec's `write` of a frame header and a
/// network message appends to a buffer that holds `bytes` under
/// `capacity`, for a header made of `reliable`, `sn` and `priority`, or
/// nothing where the two find no room.
pub uninterp spec fn frame_write(
    bytes: Seq<u8>,
    capacity: nat,
    msg: NetworkMessage,
    reliable: bool,
    sn: u32,
    priority: u8,
) -> Option<Seq<u8>>;

/// What the batch codec's `write` of a fragment gives for a buffer that
/// holds `bytes` under `capacity` and for a header made of `reliable`,
/// `more`, `sn` and `priority`: the bytes of the header as written, how
/// many bytes of `chunk` follow it, and the `more` flag as written; or
/// nothing where it wrote no fragment.
pub uninterp spec fn fragment_write(
    bytes: Seq<u8>,
    capacity: nat,
    chunk: Seq<u8>,
    reliable: bool,
    more: bool,
    sn: u32,
    priority: u8,
) -> Option<(Seq<u8>, usize, bool)>;

/// The bytes that `Zenoh080::write` gives for a network message, or
/// nothing where the codec refuses the message.
pub uninterp spec fn network_wire(msg: NetworkMessage) -> Option<Seq<u8>>;

/// `BBuf::clear` on the buffer of a batch: forgets the written bytes
/// and keeps the capacity.
#[verifier::external_body]
fn buffer_clear(batch: &mut WBatch)
    ensures
        bbuf_bytes(final(batch).buffer) == Seq::<u8>::empty(),
        bbuf_capacity(final(batch).buffer) == bbuf_capacity(old(batch).buffer),
        final(batch).codec == old(batch).codec,
        final(batch).config == old(batch).config,
{
    batch.buffer.clear();
}

/// `Zenoh080Batch::clear` on the codec of a batch: back to the state of
/// a new codec.
#[verifier::external_body]
fn codec_clear(batch: &mut WBatch)
    ensures
        final(batch).codec.current_frame is None,
        final(batch).codec.latest_sn.reliable is None,
        final(batch).codec.latest_sn.best_effort is None,
        bbuf_bytes(final(batch).buffer) == bbuf_bytes(old(batch).buffer),
        bbuf_capacity(final(batch).buffer) == bbuf_capacity(old(batch).buffer),
        final(batch).config == old(batch).config,
{
    batch.codec.clear();
}

/// `Writer::write_exact` on the buffer of a batch: appends `bytes`
/// where all of them fit into what is left of the capacity, else writes
/// nothing.
#[verifier::external_body]
fn buffer_write_exact(batch: &mut WBatch, bytes: &[u8]) -> (ok: bool)
    ensures
        ok == (bbuf_bytes(old(batch).buffer).len() + bytes@.len() <= bbuf_capacity(
            old(batch).buffer,
        )),
        ok ==> bbuf_bytes(final(batch).buffer) == bbuf_bytes(old(batch).buffer) + bytes@,
        !ok ==> bbuf_bytes(final(batch).buffer) == bbuf_bytes(old(batch).buffer),
        bbuf_capacity(final(batch).buffer) == bbuf_capacity(old(batch).buffer),
        final(batch).codec == old(batch).codec,
        final(batch).config == old(batch).config,
{
    let mut writer = (&mut batch.buffer).writer();
    writer.write_exact(bytes).is_ok()
}

/// The batch codec's `write` of a transport message. It appends the
/// bytes that `transport_write` names, at least one, and leaves any
/// frame; or it fails and changes nothing.
#[verifier::external_body]
fn codec_write_transport(batch: &mut WBatch, msg: &TransportMessage) -> (ok: bool)
    ensures
        ok == (transport_write(
            bbuf_bytes(old(batch).buffer),
            bbuf_capacity(old(batch).buffer),
            *msg,
        ) is Some),
        ok ==> {
            let w = transport_write(
                bbuf_bytes(old(batch).buffer),
                bbuf_capacity(old(batch).buffer),
                *msg,
            ).unwrap();
            &&& w.len() >= 1
            &&& bbuf_bytes(final(batch).buffer) == bbuf_bytes(old(batch).buffer) + w
            &&& bbuf_bytes(final(batch).buffer).len() <= bbuf_capacity(old(batch).buffer)
            &&& final(batch).codec.current_frame is None
        },
        !ok ==> bbuf_bytes(final(batch).buffer) == bbuf_bytes(old(batch).buffer)
            && final(batch).codec.current_frame == old(batch).codec.current_frame,
        final(batch).codec.latest_sn == old(batch).codec.latest_sn,
        bbuf_capacity(final(batch).buffer) == bbuf_capacity(old(batch).buffer),
        final(batch).config == old(batch).config,
{
    let mut writer = (&mut batch.buffer).writer();
    (&mut batch.codec).write(&mut writer, msg).is_ok()
}

/// The batch codec's `write` of a network message into the current
/// frame. It asks for a new frame, before it writes anything, exactly
/// where the channel that the message gives for itself does not
/// continue the frame the codec is in. Else it appends the bytes that
/// `network_write` names, at least one, or fails for want of room. The
/// codec's state stays.
#[verifier::external_body]
fn codec_write_network(batch: &mut WBatch, msg: &NetworkMessage) -> (res: Result<(), BatchError>)
    ensures
        (res matches Err(e) && e is NewFrame) <==> !frame_continues(
            old(batch).codec.current_frame,
            crate::message::message_reliable(*msg),
        ),
        frame_continues(old(batch).codec.current_frame, crate::message::message_reliable(*msg))
            ==> (res is Ok <==> network_write(
            bbuf_bytes(old(batch).buffer),
            bbuf_capacity(old(batch).buffer),
            *msg,
        ) is Some),
        res is Ok ==> {
            let w = network_write(
                bbuf_bytes(old(batch).buffer),
                bbuf_capacity(old(batch).buffer),
                *msg,
            ).unwrap();
            &&& w.len() >= 1
            &&& bbuf_bytes(final(batch).buffer) == bbuf_bytes(old(batch).buffer) + w
            &&& bbuf_bytes(final(batch).buffer).len() <= bbuf_capacity(old(batch).buffer)
        },
        res is Err ==> bbuf_bytes(final(batch).buffer) == bbuf_bytes(old(batch).buffer),
        final(batch).codec == old(batch).codec,
        bbuf_capacity(final(batch).buffer) == bbuf_capacity(old(batch).buffer),
        final(batch).config == old(batch).config,
{
    let mut writer = (&mut batch.buffer).writer();
    (&mut batch.codec).write(&mut writer, msg)
}

/// The batch codec's `write` of a frame header and a network message.
/// Where both fit it appends the bytes that `frame_write` names, at
/// least one, enters the frame of the header's channel and records the
/// header's sequence number as the latest of that channel. Else it
/// changes nothing.
#[verifier::external_body]
fn codec_write_frame(
    batch: &mut WBatch,
    msg: &NetworkMessage,
    reliable: bool,
    sn: u32,
    priority: u8,
) -> (ok: bool)
    requires
        priority < PRIORITY_NUM,
    ensures
        ok == (frame_write(
            bbuf_bytes(old(batch).buffer),
            bbuf_capacity(old(batch).buffer),
            *msg,
            reliable,
            sn,
            priority,
        ) is Some),
        ok ==> {
            let w = frame_write(
                bbuf_bytes(old(batch).buffer),
                bbuf_capacity(old(batch).buffer),
                *msg,
                reliable,
                sn,
                priority,
            ).unwrap();
            &&& w.len() >= 1
            &&& bbuf_bytes(final(batch).buffer) == bbuf_bytes(old(batch).buffer) + w
            &&& bbuf_bytes(final(batch).buffer).len() <= bbuf_capacity(old(batch).buffer)
        },
        ok && reliable ==> {
            &&& final(batch).codec.current_frame is Reliable
            &&& final(batch).codec.latest_sn.reliable == Some(sn)
            &&& final(batch).codec.latest_sn.best_effort == old(batch).codec.latest_sn.best_effort
        },
        ok && !reliable ==> {
            &&& final(batch).codec.current_frame is BestEffort
            &&& final(batch).codec.latest_sn.best_effort == Some(sn)
            &&& final(batch).codec.latest_sn.reliable == old(batch).codec.latest_sn.reliable
        },
        !ok ==> bbuf_bytes(final(batch).buffer) == bbuf_bytes(old(batch).buffer)
            && final(batch).codec == old(batch).codec,
        bbuf_capacity(final(batch).buffer) == bbuf_capacity(old(batch).buffer),
        final(batch).config == old(batch).config,
{
    let reliability = if reliable {
        zenoh_protocol::core::Reliability::Reliable
    } else {
        zenoh_protocol::core::Reliability::BestEffort
    };
    let ext_qos = zenoh_protocol::transport::frame::ext::QoSType::new(
        zenoh_protocol::core::Priority::try_from(priority).unwrap_or_default(),
    );
    let header = FrameHeader { reliability, sn, ext_qos };
    let mut writer = (&mut batch.buffer).writer();
    (&mut batch.codec).write(&mut writer, (msg, &header)).is_ok()
}

/// The batch codec's `write` of a fragment header and of as many bytes
/// of `chunk` as fit behind it. What it returns is what `fragment_write`
/// names: on success the bytes of the header, at least one, how many
/// bytes of `chunk` follow it, at least one, and the `more` flag as
/// written, which is cleared exactly where all of `chunk` was written.
/// On failure nothing changes. The codec's state stays either way.
#[verifier::external_body]
fn codec_write_fragment(
    batch: &mut WBatch,
    chunk: &[u8],
    reliable: bool,
    more: bool,
    sn: u32,
    priority: u8,
) -> (res: Option<(usize, bool)>)
    requires
        priority < PRIORITY_NUM,
        more,
    ensures
        (res is Some) <==> (fragment_write(
            bbuf_bytes(old(batch).buffer),
            bbuf_capacity(old(batch).buffer),
            chunk@,
            reliable,
            more,
            sn,
            priority,
        ) is Some),
        res matches Some(r) ==> {
            let w = fragment_write(
                bbuf_bytes(old(batch).buffer),
                bbuf_capacity(old(batch).buffer),
                chunk@,
                reliable,
                more,
                sn,
                priority,
            ).unwrap();
            &&& r.0 == w.1
            &&& r.1 == w.2
            &&& w.0.len() >= 1
            &&& 1 <= w.1 <= chunk@.len()
            &&& w.2 == (w.1 < chunk@.len())
            &&& bbuf_bytes(final(batch).buffer) == bbuf_bytes(old(batch).buffer) + w.0
                + chunk@.subrange(0, w.1 as int)
            &&& bbuf_bytes(final(batch).buffer).len() <= bbuf_capacity(old(batch).buffer)
        },
        res is None ==> bbuf_bytes(final(batch).buffer) == bbuf_bytes(old(batch).buffer),
        final(batch).codec == old(batch).codec,
        bbuf_capacity(final(batch).buffer) == bbuf_capacity(old(batch).buffer),
        final(batch).config == old(batch).config,
{
    let reliability = if reliable {
        zenoh_protocol::core::Reliability::Reliable
    } else {
        zenoh_protocol::core::Reliability::BestEffort
    };
    let ext_qos = zenoh_protocol::transport::fragment::ext::QoSType::new(
        zenoh_protocol::core::Priority::try_from(priority).unwrap_or_default(),
    );
    let mut header = FragmentHeader { reliability, more, sn, ext_qos };
    let source = ZBuf::from(chunk.to_vec());
    let mut reader = source.reader();
    let mut writer = (&mut batch.buffer).writer();
    let written = (&mut batch.codec).write(&mut writer, (&mut reader, &mut header));
    written.ok().map(|n| (n.get(), header.more))
}

/// `Zenoh080::write` of a network message into a growable buffer: the
/// bytes that `network_wire` names, or nothing where the codec refuses
/// the message. Every message starts with a header byte, so the bytes
/// are never empty.
#[verifier::external_body]
pub(crate) fn serialize_network(msg: &NetworkMessage) -> (res: Option<Vec<u8>>)
    ensures
        (res is Some) <==> (network_wire(*msg) is Some),
        res matches Some(bytes) ==> bytes@ == network_wire(*msg).unwrap() && bytes@.len() > 0,
{
    let mut scratch = ZBuf::empty();
    let mut writer = scratch.writer();
    let written = Zenoh080::new().write(&mut writer, msg);
    written.ok().map(|_| zenoh_buffers::buffer::SplitBuffer::contiguous(&scratch).into_owned())
}

/// What a batch is to its users.
pub struct BatchView {
    /// Every byte in the buffer, the length prefix included.
    pub bytes: Seq<u8>,
    /// How many bytes the buffer can hold.
    pub capacity: nat,
    /// The state of the framing codec.
    pub codec: Zenoh080Batch,
    pub config: BatchConfig,
}

/// A fragment that was written into a batch.
#[derive(Clone, Copy, Debug, PartialEq, Eq, Structural)]
pub struct FragmentWritten {
    /// How many bytes of the chunk the fragment carries.
    pub written: usize,
    /// Whether the fragment says that more follow.
    pub more: bool,
}

/// A write batch: a buffer with the capacity of the configured MTU,
/// which never holds more, and the codec that writes into it.
pub struct WBatch {
    buffer: BBuf,
    codec: Zenoh080Batch,
    config: BatchConfig,
}

impl View for WBatch {
    type V = BatchView;

    closed spec fn view(&self) -> BatchView {
        BatchView {
            bytes: bbuf_bytes(self.buffer),
            capacity: bbuf_capacity(self.buffer),
            codec: self.codec,
            config: self.config,
        }
    }
}

impl BatchView {
    /// The bytes of an empty batch: the length prefix, as far as the
    /// MTU has room for it.
    pub open spec fn cleared_bytes(config: BatchConfig) -> Seq<u8> {
        if config.is_streamed && config.mtu >= 2 {
            seq![0u8, 0u8]
        } else {
            Seq::<u8>::empty()
        }
    }

    /// Number of payload bytes: those behind the length prefix.
    pub open spec fn len(self) -> nat {
        if self.bytes.len() >= self.config.spec_prefix_len() {
            (self.bytes.len() - self.config.spec_prefix_len()) as nat
        } else {
            0
        }
    }

    pub open spec fn is_empty(self) -> bool {
        self.len() == 0
    }

    /// The buffer has the capacity of the MTU and holds no more.
    pub open spec fn wf(self) -> bool {
        &&& self.capacity == self.config.mtu
        &&& self.bytes.len() <= self.capacity
    }

    /// Whether this is `before` with at least one byte appended.
    pub open spec fn extends(self, before: BatchView) -> bool {
        &&& self.config == before.config
        &&& self.capacity == before.capacity
        &&& self.bytes.len() <= self.capacity
        &&& before.bytes.len() < self.bytes.len()
        &&& self.bytes.subrange(0, before.bytes.len() as int) == before.bytes
    }

    /// A batch as `clear` leaves it.
    pub open spec fn is_cleared(self) -> bool {
        &&& self.bytes == Self::cleared_bytes(self.config)
        &&& self.codec.current_frame is None
        &&& self.codec.latest_sn.reliable is None
        &&& self.codec.latest_sn.best_effort is None
    }

    /// A new batch for `config`.
    pub open spec fn fresh(config: BatchConfig) -> BatchView {
        BatchView {
            bytes: Self::cleared_bytes(config),
            capacity: config.mtu as nat,
            codec: Zenoh080Batch {
                current_frame: CurrentFrame::None,
                latest_sn: LatestSn { reliable: None, best_effort: None },
            },
            config,
        }
    }

    /// This batch with `written` behind its bytes and with the codec in
    /// state `codec`.
    pub open spec fn wrote(self, written: Seq<u8>, codec: Zenoh080Batch) -> BatchView {
        BatchView { bytes: self.bytes + written, codec, ..self }
    }

    /// The bytes that a transport message adds to this batch, or nothing
    /// where the codec does not write it.
    pub open spec fn transport_result(self, msg: TransportMessage) -> Option<Seq<u8>> {
        transport_write(self.bytes, self.capacity, msg)
    }

    /// This batch after the attempt to write a transport message: with
    /// the message behind its bytes and outside any frame, or as it was.
    pub open spec fn after_transport(self, msg: TransportMessage) -> BatchView {
        match self.transport_result(msg) {
            Some(w) => self.wrote(
                w,
                Zenoh080Batch { current_frame: CurrentFrame::None, ..self.codec },
            ),
            None => self,
        }
    }

    /// The bytes that a network message adds to the open frame of this
    /// batch; or why there are none: the message does not continue the
    /// frame, or it finds no room.
    pub open spec fn network_result(self, msg: NetMessage) -> Result<Seq<u8>, BatchError> {
        if !frame_continues(self.codec.current_frame, msg.spec_is_reliable()) {
            Err(BatchError::NewFrame)
        } else {
            match network_write(self.bytes, self.capacity, msg.spec_message()) {
                Some(w) => Ok(w),
                None => Err(BatchError::DidntWrite),
            }
        }
    }

    /// This batch after the attempt to write a network message into its
    /// open frame.
    pub open spec fn after_network(self, msg: NetMessage) -> BatchView {
        match self.network_result(msg) {
            Ok(w) => self.wrote(w, self.codec),
            Err(_) => self,
        }
    }

    /// The codec state after a frame header of the given channel and
    /// sequence number.
    pub open spec fn framed(codec: Zenoh080Batch, reliable: bool, sn: u32) -> Zenoh080Batch {
        if reliable {
            Zenoh080Batch {
                current_frame: CurrentFrame::Reliable,
                latest_sn: LatestSn { reliable: Some(sn), best_effort: codec.latest_sn.best_effort },
            }
        } else {
            Zenoh080Batch {
                current_frame: CurrentFrame::BestEffort,
                latest_sn: LatestSn { reliable: codec.latest_sn.reliable, best_effort: Some(sn) },
            }
        }
    }

    /// The bytes that a frame header and `msg` add to this batch, for a
    /// header of the given channel, number and priority; or nothing
    /// where the two find no room.
    pub open spec fn frame_result(
        self,
        msg: NetMessage,
        reliable: bool,
        sn: u32,
        priority: u8,
    ) -> Option<Seq<u8>> {
        frame_write(self.bytes, self.capacity, msg.spec_message(), reliable, sn, priority)
    }

    /// This batch after the attempt to write a frame header and `msg`.
    pub open spec fn after_frame(
        self,
        msg: NetMessage,
        reliable: bool,
        sn: u32,
        priority: u8,
    ) -> BatchView {
        match self.frame_result(msg, reliable, sn, priority) {
            Some(w) => self.wrote(w, Self::framed(self.codec, reliable, sn)),
            None => self,
        }
    }

    /// What writing a fragment of `chunk` into this batch gives, for a
    /// header that announces more, with the given channel, number and
    /// priority: how many bytes of `chunk` it takes and the `more` flag
    /// as written.
    pub open spec fn fragment_result(
        self,
        chunk: Seq<u8>,
        reliable: bool,
        sn: u32,
        priority: u8,
    ) -> Option<FragmentWritten> {
        match fragment_write(self.bytes, self.capacity, chunk, reliable, true, sn, priority) {
            Some(w) => Some(FragmentWritten { written: w.1, more: w.2 }),
            None => None,
        }
    }

    /// This batch after the attempt to write a fragment of `chunk`: with
    /// the header and the bytes taken from `chunk` behind its bytes, or
    /// as it was.
    pub open spec fn after_fragment(
        self,
        chunk: Seq<u8>,
        reliable: bool,
        sn: u32,
        priority: u8,
    ) -> BatchView {
        match fragment_write(self.bytes, self.capacity, chunk, reliable, true, sn, priority) {
            Some(w) => self.wrote(w.0 + chunk.subrange(0, w.1 as int), self.codec),
            None => self,
        }
    }

    /// This batch after `clear`.
    pub open spec fn cleared(self) -> BatchView {
        BatchView {
            bytes: Self::cleared_bytes(self.config),
            capacity: self.capacity,
            codec: Zenoh080Batch {
                current_frame: CurrentFrame::None,
                latest_sn: LatestSn { reliable: None, best_effort: None },
            },
            config: self.config,
        }
    }
}

impl WBatch {
    #[verifier::type_invariant]
    closed spec fn inv(self) -> bool {
        &&& bbuf_capacity(self.buffer) == self.config.mtu
        &&& bbuf_bytes(self.buffer).len() <= bbuf_capacity(self.buffer)
    }

    /// A cleared batch for `config`.
    pub fn new(config: BatchConfig) -> (batch: WBatch)
        ensures
            batch@ == BatchView::fresh(config),
            batch@.is_cleared(),
            batch@.wf(),
    {
        let buffer = BBuf::with_capacity(config.mtu as usize);
        let codec = Zenoh080Batch::new();
        let mut batch = WBatch { buffer, codec, config };
        if config.is_streamed {
            let prefix: [u8; 2] = [0, 0];
            let _ = buffer_write_exact(&mut batch, prefix.as_slice());
            assert(prefix@ =~= seq![0u8, 0u8]);
        }
        batch
    }

    /// Empties the batch: only the length prefix of a streamed batch is
    /// left, and the codec is outside any frame.
    pub fn clear(&mut self)
        ensures
            final(self)@ == old(self)@.cleared(),
            final(self)@.wf(),
            final(self)@.is_cleared(),
    {
        proof {
            use_type_invariant(&*self);
        }
        buffer_clear(self);
        codec_clear(self);
        if self.config.is_streamed {
            let prefix: [u8; 2] = [0, 0];
            let _ = buffer_write_exact(self, prefix.as_slice());
            assert(prefix@ =~= seq![0u8, 0u8]);
        }
    }

    pub fn config(&self) -> (c: BatchConfig)
        ensures
            c == self@.config,
    {
        self.config
    }

    /// How many bytes the buffer can hold: the MTU of the batch.
    pub fn capacity(&self) -> (c: usize)
        ensures
            c == self@.capacity,
            self@.wf(),
    {
        proof {
            use_type_invariant(self);
        }
        self.buffer.capacity()
    }

    /// Number of payload bytes.
    pub fn len(&self) -> (n: u16)
        ensures
            n == self@.len(),
            self@.wf(),
    {
        proof {
            use_type_invariant(self);
        }
        let total: usize = self.buffer.as_slice().len();
        let prefix: usize = self.config.prefix_len();
        if total >= prefix {
            (total - prefix) as u16
        } else {
            0
        }
    }

    pub fn is_empty(&self) -> (e: bool)
        ensures
            e == self@.is_empty(),
            self@.wf(),
    {
        self.len() == 0
    }

    /// Every byte of the batch, the length prefix included.
    pub fn as_slice(&self) -> (s: &[u8])
        ensures
            s@ == self@.bytes,
    {
        self.buffer.as_slice()
    }

    /// Appends a transport message where the codec finds room for it:
    /// the batch then holds the message behind its bytes and is outside
    /// any frame. Else the batch is unchanged.
    pub fn encode_transport(&mut self, msg: &TransportMessage) -> (ok: bool)
        ensures
            ok == (old(self)@.transport_result(*msg) is Some),
            final(self)@ == old(self)@.after_transport(*msg),
            final(self)@.wf(),
            ok ==> final(self)@.extends(old(self)@),
    {
        proof {
            use_type_invariant(&*self);
        }
        let ghost before = self@;
        let ok = codec_write_transport(self, msg);
        proof {
            if ok {
                let w = before.transport_result(*msg).unwrap();
                assert((before.bytes + w).subrange(0, before.bytes.len() as int)
                    =~= before.bytes);
            }
        }
        ok
    }

    /// Appends a network message to the current frame. Asks for a new
    /// frame exactly where the message does not continue the current
    /// one, and fails for want of room where the codec finds none. The
    /// batch is unchanged unless the message was appended.
    pub fn encode_network(&mut self, msg: &NetMessage) -> (res: Result<(), BatchError>)
        ensures
            res == (match old(self)@.network_result(*msg) {
                Ok(_) => Ok::<(), BatchError>(()),
                Err(e) => Err::<(), BatchError>(e),
            }),
            final(self)@ == old(self)@.after_network(*msg),
            final(self)@.wf(),
            res is Ok ==> final(self)@.extends(old(self)@),
    {
        proof {
            use_type_invariant(&*self);
        }
        let ghost before = self@;
        let res = codec_write_network(self, msg.message());
        proof {
            match res {
                Ok(u) => {
                    let w = before.network_result(*msg)->Ok_0;
                    assert((before.bytes + w).subrange(0, before.bytes.len() as int)
                        =~= before.bytes);
                    assert(u == ());
                },
                Err(e) => {
                    assert(e is NewFrame || e is DidntWrite);
                    assert(e is NewFrame ==> e == BatchError::NewFrame);
                    assert(e is DidntWrite ==> e == BatchError::DidntWrite);
                },
            }
        }
        res
    }

    /// Appends a frame header and a network message where the codec
    /// finds room for both: the batch is then in the frame of the
    /// header's channel and `sn` is the latest sequence number of that
    /// channel. Else the batch is unchanged.
    pub fn encode_frame(&mut self, msg: &NetMessage, reliable: bool, sn: u32, priority: u8) -> (ok:
        bool)
        requires
            priority < PRIORITY_NUM,
        ensures
            ok == (old(self)@.frame_result(*msg, reliable, sn, priority) is Some),
            final(self)@ == old(self)@.after_frame(*msg, reliable, sn, priority),
            final(self)@.wf(),
            ok ==> final(self)@.extends(old(self)@),
    {
        proof {
            use_type_invariant(&*self);
        }
        let ghost before = self@;
        let ok = codec_write_frame(self, msg.message(), reliable, sn, priority);
        proof {
            if ok {
                let w = before.frame_result(*msg, reliable, sn, priority).unwrap();
                assert((before.bytes + w).subrange(0, before.bytes.len() as int)
                    =~= before.bytes);
            }
        }
        ok
    }

    /// Appends a fragment: a header that says `more`, then as many bytes
    /// from the start of `chunk` as fit. Where all of `chunk` fits the
    /// header says that no more follow. Where the codec writes no
    /// fragment the batch is unchanged.
    pub fn encode_fragment(&mut self, chunk: &[u8], reliable: bool, sn: u32, priority: u8) -> (res:
        Option<FragmentWritten>)
        requires
            priority < PRIORITY_NUM,
        ensures
            res == old(self)@.fragment_result(chunk@, reliable, sn, priority),
            final(self)@ == old(self)@.after_fragment(chunk@, reliable, sn, priority),
            final(self)@.wf(),
            res matches Some(w) ==> {
                &&& final(self)@.extends(old(self)@)
                &&& 1 <= w.written <= chunk@.len()
                &&& w.more == (w.written < chunk@.len())
                &&& final(self)@.bytes.len() > old(self)@.bytes.len() + w.written
                &&& final(self)@.bytes.subrange(
                    final(self)@.bytes.len() - w.written,
                    final(self)@.bytes.len() as int,
                ) == chunk@.subrange(0, w.written as int)
            },
    {
        proof {
            use_type_invariant(&*self);
        }
        let ghost before = self@;
        let res = codec_write_fragment(self, chunk, reliable, true, sn, priority);
        match res {
            Some((written, more)) => {
                proof {
                    let w = fragment_write(
                        before.bytes,
                        before.capacity,
                        chunk@,
                        reliable,
                        true,
                        sn,
                        priority,
                    ).unwrap();
                    let tail = chunk@.subrange(0, w.1 as int);
                    let all = before.bytes + w.0 + tail;
                    assert(all =~= before.bytes + (w.0 + tail));
                    assert(all.subrange(0, before.bytes.len() as int) =~= before.bytes);
                    assert(all.subrange(all.len() - w.1, all.len() as int) =~= tail);
                }
                Some(FragmentWritten { written, more })
            },
            None => None,
        }
    }
}

} // verus!
