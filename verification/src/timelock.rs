use vstd::prelude::*;
use crate::error::Error;
use crate::slot::SlotIndex;

verus! {

/// Defines a slot index until which the output can not be unlocked.
///
/// The slot index of a timelock is never zero.
#[derive(Copy, Clone, Debug, PartialEq, Eq, Structural, PartialOrd, Ord, Hash)]
pub struct TimelockUnlockCondition(SlotIndex);

impl TimelockUnlockCondition {
    /// The unlock condition kind of a timelock.
    pub const KIND: u8 = 2;

    #[verifier::type_invariant]
    spec fn nonzero(self) -> bool {
        self.0.0 > 0
    }

    /// The slot index until which the output stays locked.
    pub closed spec fn spec_slot_index(&self) -> SlotIndex {
        self.0
    }

    /// Whether the lock has not yet matured at `slot_index`, given that history
    /// is only committed `min_committable_age` slots later.
    pub open spec fn spec_is_timelocked(&self, slot_index: SlotIndex, min_committable_age: u32) -> bool {
        slot_index.0 + min_committable_age < self.spec_slot_index().0
    }

    /// Creates a new timelock; slot index zero is rejected.
    pub fn new(slot_index: SlotIndex) -> (r: Result<Self, Error>)
        ensures
            slot_index.0 > 0 ==> r is Ok && r->Ok_0.spec_slot_index() == slot_index,
            slot_index.0 == 0 ==> r == Err::<Self, Error>(Error::TimelockUnlockConditionZero),
    {
        match verify_slot_index::<true>(&slot_index, &()) {
            Ok(()) => Ok(Self(slot_index)),
            Err(e) => Err(e),
        }
    }

    /// Returns the slot index of the timelock.
    #[verifier::when_used_as_spec(spec_slot_index)]
    pub fn slot_index(&self) -> (slot: SlotIndex)
        ensures
            slot == self.spec_slot_index(),
            slot.0 > 0,
    {
        proof {
            use_type_invariant(self);
        }
        self.0
    }

    /// Checks whether the timelock is still relevant.
    #[verifier::when_used_as_spec(spec_is_timelocked)]
    pub fn is_timelocked(&self, slot_index: SlotIndex, min_committable_age: u32) -> (locked: bool)
        ensures
            locked == self.spec_is_timelocked(slot_index, min_committable_age),
            locked == (slot_index.0 + min_committable_age < self.slot_index().0),
    {
        let now: u64 = slot_index.0 as u64;
        let age: u64 = min_committable_age as u64;
        let target: u64 = self.0.0 as u64;
        now + age < target
    }
}

/// Accepts every slot index but zero; with `VERIFY` off, accepts zero too.
pub fn verify_slot_index<const VERIFY: bool>(slot_index: &SlotIndex, _visitor: &()) -> (r: Result<(), Error>)
    ensures
        r is Err <==> VERIFY && slot_index.0 == 0,
        r is Err ==> r == Err::<(), Error>(Error::TimelockUnlockConditionZero),
{
    if VERIFY && slot_index.0 == 0 {
        Err(Error::TimelockUnlockConditionZero)
    } else {
        Ok(())
    }
}

} // verus!
