use vstd::prelude::*;
use crate::address::Address;
use crate::key::{bytes_eq, Key};
use crate::native_token::NativeToken;
use crate::slot::SlotIndex;
use crate::unlock_condition::UnlockConditions;

verus! {

/// The identifier of an output: stable, and never given to a second output.
#[derive(Copy, Clone, Debug, PartialEq, Eq, Hash)]
pub struct OutputId(pub [u8; 34]);

impl Key for OutputId {
    fn key_eq(&self, other: &Self) -> (same: bool) {
        bytes_eq(&self.0, &other.0)
    }
}

/// The type of an output.
#[derive(Copy, Clone, Debug, PartialEq, Eq, Structural, Hash)]
pub enum OutputKind {
    Basic,
    Alias,
    Foundry,
    Nft,
    Other,
}

/// A unit of value on the ledger.
#[derive(Clone, Debug, PartialEq, Eq)]
pub struct Output {
    pub kind: OutputKind,
    pub amount: u64,
    pub native_tokens: Vec<NativeToken>,
    pub unlock_conditions: UnlockConditions,
}

impl Output {
    /// The address that has to unlock the output at `slot_index`.
    ///
    /// It is the address condition's address; with an expiration it is that
    /// address before the expiration, the return address after it, and none
    /// while the expiration lies inside the committable window. An output
    /// without an address condition has no such address.
    pub open spec fn spec_required_address(
        &self,
        slot_index: SlotIndex,
        min_committable_age: u32,
        max_committable_age: u32,
    ) -> Option<Address> {
        match self.unlock_conditions.address {
            None => None,
            Some(address) => match self.unlock_conditions.expiration {
                None => Some(address),
                Some(expiration) => expiration.spec_return_address_expired(
                    address,
                    slot_index,
                    min_committable_age,
                    max_committable_age,
                ),
            },
        }
    }

    /// An output of the given type, amount, tokens and conditions.
    pub fn new(
        kind: OutputKind,
        amount: u64,
        native_tokens: Vec<NativeToken>,
        unlock_conditions: UnlockConditions,
    ) -> (output: Self)
        ensures
            output.kind == kind,
            output.amount == amount,
            output.native_tokens == native_tokens,
            output.unlock_conditions == unlock_conditions,
    {
        Output { kind, amount, native_tokens, unlock_conditions }
    }

    /// The amount of base coin.
    pub fn amount(&self) -> (amount: u64)
        ensures
            amount == self.amount,
    {
        self.amount
    }

    /// Whether this is a basic output.
    pub fn is_basic(&self) -> (basic: bool)
        ensures
            basic == (self.kind == OutputKind::Basic),
    {
        self.kind == OutputKind::Basic
    }

    /// The native tokens that the output holds.
    pub fn native_tokens(&self) -> (tokens: &Vec<NativeToken>)
        ensures
            *tokens == self.native_tokens,
    {
        &self.native_tokens
    }

    /// The unlock conditions of the output.
    pub fn unlock_conditions(&self) -> (conditions: &UnlockConditions)
        ensures
            *conditions == self.unlock_conditions,
    {
        &self.unlock_conditions
    }

    /// The address that has to unlock the output at `slot_index`, if one can
    /// be told.
    #[verifier::when_used_as_spec(spec_required_address)]
    pub fn required_address(
        &self,
        slot_index: SlotIndex,
        min_committable_age: u32,
        max_committable_age: u32,
    ) -> (required: Option<Address>)
        ensures
            required == self.spec_required_address(
                slot_index,
                min_committable_age,
                max_committable_age,
            ),
    {
        match self.unlock_conditions.address {
            None => None,
            Some(address) => match self.unlock_conditions.expiration {
                None => Some(address),
                Some(expiration) => expiration.return_address_expired(
                    address,
                    slot_index,
                    min_committable_age,
                    max_committable_age,
                ),
            },
        }
    }
}

/// An output as the wallet knows it: with the network it lives on and the
/// storage deposit that the ledger's rent parameters ask of it.
#[derive(Clone, Debug, PartialEq, Eq)]
pub struct OutputData {
    pub output: Output,
    pub network_id: u64,
    pub rent_cost: u64,
}

impl OutputData {
    /// An output seen on `network_id`, for which `rent_cost` is due.
    pub fn new(output: Output, network_id: u64, rent_cost: u64) -> (data: Self)
        ensures
            data.output == output,
            data.network_id == network_id,
            data.rent_cost == rent_cost,
    {
        OutputData { output, network_id, rent_cost }
    }
}

} // verus!
