use vstd::prelude::*;

verus! {

/// A discrete unit of ledger time.
#[derive(Copy, Clone, Debug, PartialEq, Eq, Structural, PartialOrd, Ord, Hash)]
pub struct SlotIndex(pub u32);

impl SlotIndex {
    /// Wraps a raw slot number.
    pub fn new(index: u32) -> (slot: Self)
        ensures
            slot == SlotIndex(index),
    {
        SlotIndex(index)
    }

    /// The raw slot number.
    pub fn get(&self) -> (index: u32)
        ensures
            index == self.0,
    {
        self.0
    }
}

} // verus!
