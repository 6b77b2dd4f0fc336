//! The backoff of the consumer's pulls.
use vstd::prelude::*;

verus! {

/// The wait that follows `retry_time`: the base slot at first, then twice
/// the previous wait, never more than `u32::MAX`.
pub open spec fn spec_backoff_next(tslot: u32, retry_time: u32) -> u32 {
    if retry_time == 0 {
        tslot
    } else if 2 * retry_time > u32::MAX {
        u32::MAX
    } else {
        (2 * retry_time) as u32
    }
}

/// Whether lengthening the wait `retry_time` has to be cut down to
/// `u32::MAX`.
pub open spec fn spec_backoff_saturates(retry_time: u32) -> bool {
    retry_time != 0 && 2 * retry_time > u32::MAX
}

/// Keeps the time that the consumer waits before it looks again at a
/// stage without a ready batch. All times are in nanoseconds.
#[derive(Clone, Copy, Debug, PartialEq, Eq, Structural)]
pub struct Backoff {
    /// Base slot.
    pub tslot: u32,
    /// Current wait; zero while the consumer is not backing off.
    pub retry_time: u32,
    /// The bytes hint seen by the last deep pull.
    pub last_bytes: u16,
    /// Raised while the consumer backs off, so that producers need not
    /// wake it for bytes that it will find by itself.
    pub backoff: bool,
    /// Whether the last lengthening of the wait was cut down to
    /// `u32::MAX`.
    pub saturated: bool,
}

impl Backoff {
    pub fn new(tslot: u32) -> (b: Backoff)
        ensures
            b == (Backoff {
                tslot,
                retry_time: 0,
                last_bytes: 0,
                backoff: false,
                saturated: false,
            }),
    {
        Backoff { tslot, retry_time: 0, last_bytes: 0, backoff: false, saturated: false }
    }

    /// This backoff after the wait was lengthened.
    pub open spec fn lengthened(self) -> Backoff {
        Backoff {
            tslot: self.tslot,
            retry_time: spec_backoff_next(self.tslot, self.retry_time),
            last_bytes: self.last_bytes,
            backoff: self.backoff || self.retry_time == 0,
            saturated: spec_backoff_saturates(self.retry_time),
        }
    }

    /// Lengthens the wait. Returns whether the doubling had to be cut
    /// down to `u32::MAX`.
    pub fn next(&mut self) -> (saturated: bool)
        ensures
            *final(self) == old(self).lengthened(),
            saturated == spec_backoff_saturates(old(self).retry_time),
    {
        if self.retry_time == 0 {
            self.retry_time = self.tslot;
            self.backoff = true;
            self.saturated = false;
        } else {
            match self.retry_time.checked_mul(2) {
                Some(rt) => {
                    self.retry_time = rt;
                    self.saturated = false;
                },
                None => {
                    self.retry_time = u32::MAX;
                    self.saturated = true;
                },
            }
        }
        self.saturated
    }

    /// Ends the backoff.
    pub fn reset(&mut self)
        ensures
            *final(self) == old(self).rested(),
    {
        self.retry_time = 0;
        self.backoff = false;
        self.saturated = false;
    }

    /// This backoff after it was ended.
    pub open spec fn rested(self) -> Backoff {
        Backoff { retry_time: 0, backoff: false, saturated: false, ..self }
    }
}

} // verus!
