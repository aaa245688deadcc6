use vstd::prelude::*;
use crate::address::Address;

verus! {

/// Everything that can go wrong while building ledger values or resolving a balance.
#[derive(Copy, Clone, Debug, PartialEq, Eq, Hash)]
pub enum Error {
    /// A timelock was given slot index zero.
    TimelockUnlockConditionZero,
    /// The cumulative amount of a native token left the 256-bit range.
    NativeTokensOverflow,
    /// No address could be derived that is required to unlock an output.
    UnlockResolutionFailure,
    /// A sum of base coin amounts left the 64-bit range.
    BaseCoinOverflow,
    /// Unlock conditions were not given in strictly increasing order of kind.
    UnlockConditionsNotUniqueSorted,
    /// An address was asked for that the account does not hold.
    AddressNotFoundInAccount(Address),
}

} // verus!
