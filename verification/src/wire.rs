//! The record of what a stage has written into the ready stream of a
//! channel: frame and fragment headers in the order of the stream, and
//! the marks where the numbering was taken back.
use vstd::prelude::*;

use crate::seq_num::{spec_sn_fits, spec_sn_next};

verus! {

/// A header that was written into the ready stream of one channel, or
/// the mark that the numbering was taken back.
pub enum WireRecord {
    /// A frame with this sequence number and priority.
    Frame { sn: u32, priority: u8 },
    /// A fragment with this sequence number, `more` flag and priority.
    /// It carries `len` bytes of `message`, the serialized message that
    /// is being fragmented, from byte `start` on.
    Fragment { sn: u32, more: bool, priority: u8, message: Seq<u8>, start: nat, len: nat },
    /// The message under way was given up and `sn` is the next number
    /// again.
    Abandoned { sn: u32 },
}

impl WireRecord {
    /// The number that the record after this one carries under `mask`:
    /// the successor after a frame or a fragment that announces more; one
    /// further after a last fragment, whose successor was allocated and
    /// never used; the restored number after an abandonment.
    pub open spec fn successor(self, mask: u32) -> u32 {
        match self {
            WireRecord::Frame { sn, .. } => spec_sn_next(sn, mask),
            WireRecord::Fragment { sn, more, .. } => if more {
                spec_sn_next(sn, mask)
            } else {
                spec_sn_next(spec_sn_next(sn, mask), mask)
            },
            WireRecord::Abandoned { sn } => sn,
        }
    }

    /// Whether the record is a fragment that announces more.
    pub open spec fn is_open_fragment(self) -> bool {
        self matches WireRecord::Fragment { more, .. } && more
    }

    /// The number that a header carries; for an abandonment the number
    /// that was restored.
    pub open spec fn sn(self) -> u32 {
        match self {
            WireRecord::Frame { sn, .. } => sn,
            WireRecord::Fragment { sn, .. } => sn,
            WireRecord::Abandoned { sn } => sn,
        }
    }

    /// Whether the record is a fragment that continues a series: one
    /// that does not start at the first byte of its message.
    pub open spec fn is_continuation(self) -> bool {
        self matches WireRecord::Fragment { start, .. } && start > 0
    }

    /// A fragment carries at least one byte, all of them inside its
    /// message, and announces more exactly where it stops before the
    /// end of the message.
    pub open spec fn wf(self) -> bool {
        self matches WireRecord::Fragment { more, message, start, len, .. } ==> {
            &&& len >= 1
            &&& start + len <= message.len()
            &&& more == (start + len < message.len())
        }
    }

    /// The bytes that a fragment carries.
    pub open spec fn payload(self) -> Seq<u8>
        recommends
            self is Fragment,
    {
        self->message.subrange(self->start as int, (self->start + self->len) as int)
    }

    /// Whether `next` may directly follow this record in the log of a
    /// channel: a header carries the successor number; a fragment that
    /// announces more is followed by the next fragment of its series or
    /// by the abandonment of the series; and no fragment continues a
    /// series but behind a fragment that announces more, of the same
    /// message and priority, where that fragment stopped.
    pub open spec fn followed_by(self, next: WireRecord, mask: u32) -> bool {
        &&& !(next is Abandoned) ==> next.sn() == self.successor(mask)
        &&& self.is_open_fragment() ==> next is Abandoned || next.is_continuation()
        &&& next.is_continuation() ==> {
            &&& self.is_open_fragment()
            &&& next->message == self->message
            &&& next->start == self->start + self->len
            &&& next->Fragment_priority == self->Fragment_priority
        }
    }
}

/// Whether the log of a channel begins outside any series, every record
/// is well formed with a number inside the resolution, and every later
/// record may follow the one before it.
pub open spec fn wire_chained(log: Seq<WireRecord>, mask: u32) -> bool {
    &&& log.len() > 0 ==> !log[0].is_continuation()
    &&& forall|i: int| 0 <= i < log.len() ==> (#[trigger] log[i]).wf()
    &&& forall|i: int| 0 <= i < log.len() ==> spec_sn_fits((#[trigger] log[i]).sn(), mask)
    &&& forall|i: int|
        0 <= i < log.len() - 1 ==> (#[trigger] log[i]).followed_by(log[i + 1], mask)
}

/// A chained log stays chained with one more record that may follow its
/// last.
pub proof fn lemma_wire_chained_push(log: Seq<WireRecord>, record: WireRecord, mask: u32)
    requires
        wire_chained(log, mask),
        record.wf(),
        spec_sn_fits(record.sn(), mask),
        log.len() > 0 ==> log.last().followed_by(record, mask),
        log.len() == 0 ==> !record.is_continuation(),
    ensures
        wire_chained(log.push(record), mask),
{
    let grown = log.push(record);
    assert forall|i: int| 0 <= i < grown.len() implies spec_sn_fits(
        (#[trigger] grown[i]).sn(),
        mask,
    ) by {
        if i < log.len() {
            assert(grown[i] == log[i]);
        }
    }
    assert forall|i: int| 0 <= i < grown.len() - 1 implies (#[trigger] grown[i]).followed_by(
        grown[i + 1],
        mask,
    ) by {
        if i < log.len() - 1 {
            assert(grown[i] == log[i]);
            assert(grown[i + 1] == log[i + 1]);
        }
    }
}

} // verus!
