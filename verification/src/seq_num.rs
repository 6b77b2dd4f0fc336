//! Sequence numbers of the transmission channels.
use vstd::prelude::*;

verus! {

/// The sequence number that follows `value` under `mask`.
pub open spec fn spec_sn_next(value: u32, mask: u32) -> u32 {
    (if value == u32::MAX {
        0u32
    } else {
        (value + 1) as u32
    }) & mask
}

/// Whether `value` can be held by a generator with mask `mask`.
pub open spec fn spec_sn_fits(value: u32, mask: u32) -> bool {
    value & !mask == 0
}

/// Whether `mask` selects all the low bits up to some position, as the
/// mask of a resolution does.
pub open spec fn spec_is_resolution_mask(mask: u32) -> bool {
    mask == u32::MAX || mask & ((mask + 1) as u32) == 0
}

/// Under the mask of a resolution a number below the mask is followed
/// by the next integer, and the mask itself by zero.
pub proof fn lemma_sn_next_counts(value: u32, mask: u32)
    requires
        spec_sn_fits(value, mask),
        spec_is_resolution_mask(mask),
    ensures
        value <= mask,
        spec_sn_fits(spec_sn_next(value, mask), mask),
        value < mask ==> spec_sn_next(value, mask) == value + 1,
        value == mask ==> spec_sn_next(value, mask) == 0,
{
    let step: u32 = if value == u32::MAX {
        0u32
    } else {
        (value + 1) as u32
    };
    if mask == u32::MAX {
        assert(step & mask == step && (step & mask) & !mask == 0) by (bit_vector)
            requires
                mask == 0xffff_ffffu32,
        ;
    } else {
        let up: u32 = (mask + 1) as u32;
        assert(value <= mask && (value < mask ==> step & mask == step) && (value == mask ==> step
            & mask == 0) && (step & mask) & !mask == 0) by (bit_vector)
            requires
                value & !mask == 0,
                mask & up == 0,
                mask < 0xffff_ffffu32,
                up == mask + 1,
                step == if value == 0xffff_ffffu32 {
                    0u32
                } else {
                    (value + 1) as u32
                },
        ;
    }
}

/// A sequence number that was refused because it exceeds the resolution.
#[derive(Clone, Copy, Debug, PartialEq, Eq, Structural)]
pub struct SnOutOfRange {
    pub value: u32,
    pub mask: u32,
}

/// Allocates the sequence numbers of one channel. Every value it holds
/// has no bit outside its mask.
#[derive(Clone, Copy, Debug)]
pub struct SeqNumGenerator {
    value: u32,
    mask: u32,
}

impl SeqNumGenerator {
    /// The number that the next `get` returns.
    pub closed spec fn value(self) -> u32 {
        self.value
    }

    pub closed spec fn mask(self) -> u32 {
        self.mask
    }

    #[verifier::type_invariant]
    pub closed spec fn inv(self) -> bool {
        spec_sn_fits(self.value, self.mask)
    }

    /// This generator after it has allocated its next number.
    pub closed spec fn advanced(self) -> SeqNumGenerator {
        SeqNumGenerator { value: spec_sn_next(self.value, self.mask), mask: self.mask }
    }

    /// This generator with `sn` as its next number.
    pub closed spec fn restored(self, sn: u32) -> SeqNumGenerator {
        SeqNumGenerator { value: sn, mask: self.mask }
    }

    /// What `advanced` and `restored` are in terms of the next number
    /// and the mask.
    pub proof fn lemma_moved(self, sn: u32)
        ensures
            self.advanced().value() == spec_sn_next(self.value(), self.mask()),
            self.advanced().mask() == self.mask(),
            self.restored(sn).value() == sn,
            self.restored(sn).mask() == self.mask(),
            self.restored(self.value()) == self,
    {
    }

    /// Restoring the number that was allocated last undoes the
    /// allocation.
    pub proof fn lemma_restores(self, sn: u32)
        requires
            sn == self.value(),
        ensures
            self.advanced().restored(sn) == self,
    {
    }

    /// A generator that starts at `initial_sn`, or the refusal where
    /// `initial_sn` has a bit outside `mask`.
    pub fn make(initial_sn: u32, mask: u32) -> (res: Result<SeqNumGenerator, SnOutOfRange>)
        ensures
            spec_sn_fits(initial_sn, mask) ==> (res matches Ok(g) && g.value() == initial_sn
                && g.mask() == mask),
            !spec_sn_fits(initial_sn, mask) ==> res == Err::<SeqNumGenerator, SnOutOfRange>(
                SnOutOfRange { value: initial_sn, mask },
            ),
    {
        if initial_sn & !mask != 0 {
            return Err(SnOutOfRange { value: initial_sn, mask });
        }
        Ok(SeqNumGenerator { value: initial_sn, mask })
    }

    /// The next number, which stays the next.
    pub fn now(&self) -> (sn: u32)
        ensures
            sn == self.value(),
            spec_sn_fits(sn, self.mask()),
    {
        proof {
            use_type_invariant(self);
        }
        self.value
    }

    /// Allocates the next number: returns it and moves on to its
    /// successor.
    pub fn get(&mut self) -> (sn: u32)
        ensures
            sn == old(self).value(),
            spec_sn_fits(sn, old(self).mask()),
            *final(self) == old(self).advanced(),
            final(self).value() == spec_sn_next(sn, old(self).mask()),
            final(self).mask() == old(self).mask(),
    {
        proof {
            use_type_invariant(&*self);
        }
        let now: u32 = self.value;
        let mask: u32 = self.mask;
        let next: u32 = now.wrapping_add(1) & mask;
        assert(next & !mask == 0) by (bit_vector)
            requires
                next == now.wrapping_add(1) & mask,
        ;
        assert(now.wrapping_add(1) == if now == u32::MAX {
            0u32
        } else {
            (now + 1) as u32
        });
        self.value = next;
        now
    }

    /// Makes `sn` the next number. Refuses a number with a bit outside
    /// the mask and then changes nothing.
    pub fn set(&mut self, sn: u32) -> (res: Result<(), SnOutOfRange>)
        ensures
            final(self).mask() == old(self).mask(),
            spec_sn_fits(sn, old(self).mask()) ==> res is Ok && final(self).value() == sn
                && *final(self) == old(self).restored(sn),
            !spec_sn_fits(sn, old(self).mask()) ==> res == Err::<(), SnOutOfRange>(
                SnOutOfRange { value: sn, mask: old(self).mask() },
            ) && final(self).value() == old(self).value(),
    {
        proof {
            use_type_invariant(&*self);
        }
        if sn & !self.mask != 0 {
            return Err(SnOutOfRange { value: sn, mask: self.mask });
        }
        self.value = sn;
        Ok(())
    }
}

/// The transmission state of one channel.
#[derive(Clone, Copy, Debug)]
pub struct TransportChannelTx {
    pub sn: SeqNumGenerator,
}

impl TransportChannelTx {
    /// A channel whose numbers start at zero.
    pub fn make(mask: u32) -> (ch: TransportChannelTx)
        ensures
            ch.sn.value() == 0,
            ch.sn.mask() == mask,
    {
        assert(0u32 & !mask == 0) by (bit_vector);
        TransportChannelTx { sn: SeqNumGenerator { value: 0, mask } }
    }
}

/// The reliable and the best-effort channel of one priority.
#[derive(Clone, Copy, Debug)]
pub struct TransportPriorityTx {
    pub reliable: TransportChannelTx,
    pub best_effort: TransportChannelTx,
}

impl TransportPriorityTx {
    /// Two channels whose numbers start at zero.
    pub fn make(mask: u32) -> (p: TransportPriorityTx)
        ensures
            p.reliable.sn.value() == 0,
            p.best_effort.sn.value() == 0,
            p.reliable.sn.mask() == mask,
            p.best_effort.sn.mask() == mask,
    {
        TransportPriorityTx {
            reliable: TransportChannelTx::make(mask),
            best_effort: TransportChannelTx::make(mask),
        }
    }
}

} // verus!
