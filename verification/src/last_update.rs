//! Slot stamps that record when a reserve or an obligation was last brought up to date.

use vstd::prelude::*;
use crate::error::LendingError;

verus! {

/// Number of elapsed slots after which a stamp counts as stale.
pub const STALE_AFTER_SLOTS_ELAPSED: u64 = 1;

/// The slot of the last refresh, and whether the state was touched since.
#[derive(Clone, Copy, Debug, PartialEq, Eq, Structural)]
pub struct LastUpdate {
    /// Slot of the last refresh.
    pub slot: u64,
    /// Set by every operation that changes the stamped state.
    pub stale: bool,
}

impl LastUpdate {
    /// Slots between the stamp and `slot`, or `MathUnderflow` when `slot` lies
    /// before the stamp.
    pub open spec fn spec_slots_elapsed(self, slot: u64) -> Result<u64, LendingError> {
        if slot >= self.slot {
            Ok((slot - self.slot) as u64)
        } else {
            Err(LendingError::MathUnderflow)
        }
    }

    /// Whether the stamp is stale when read at `slot`: it was marked so, or at
    /// least `STALE_AFTER_SLOTS_ELAPSED` slots have passed. A slot before the
    /// stamp is an error unless the stamp was marked stale.
    pub open spec fn spec_is_stale(self, slot: u64) -> Result<bool, LendingError> {
        if self.stale {
            Ok(true)
        } else {
            match self.spec_slots_elapsed(slot) {
                Ok(elapsed) => Ok(elapsed >= STALE_AFTER_SLOTS_ELAPSED),
                Err(e) => Err(e),
            }
        }
    }

    /// Whether the stamp was set at `slot` and not marked stale since.
    pub open spec fn fresh_at(self, slot: u64) -> bool {
        !self.stale && self.slot == slot
    }

    /// A stamp at `slot`, marked stale: nothing was refreshed yet.
    pub fn new(slot: u64) -> (r: LastUpdate)
        ensures
            r.slot == slot,
            r.stale,
    {
        LastUpdate { slot, stale: true }
    }

    /// Slots between the stamp and `slot`.
    pub fn slots_elapsed(&self, slot: u64) -> (r: Result<u64, LendingError>)
        ensures
            r == self.spec_slots_elapsed(slot),
    {
        match slot.checked_sub(self.slot) {
            Some(elapsed) => Ok(elapsed),
            None => Err(LendingError::MathUnderflow),
        }
    }

    /// Stamps `slot` and clears the stale mark.
    pub fn update_slot(&mut self, slot: u64)
        ensures
            final(self).slot == slot,
            !final(self).stale,
    {
        self.slot = slot;
        self.stale = false;
    }

    /// Marks the stamp stale and keeps its slot.
    pub fn mark_stale(&mut self)
        ensures
            final(self).slot == old(self).slot,
            final(self).stale,
    {
        self.stale = true;
    }

    /// Whether the stamp is stale when read at `slot`.
    pub fn is_stale(&self, slot: u64) -> (r: Result<bool, LendingError>)
        ensures
            r == self.spec_is_stale(slot),
            r == Ok::<bool, LendingError>(false) <==> self.fresh_at(slot),
    {
        if self.stale {
            return Ok(true);
        }
        match self.slots_elapsed(slot) {
            Ok(elapsed) => Ok(elapsed >= STALE_AFTER_SLOTS_ELAPSED),
            Err(e) => Err(e),
        }
    }
}

} // verus!
