use vstd::prelude::*;
use crate::address::{
    AccountAddress, AccountId, Address, AnchorAddress, AnchorId, Ed25519Address,
    ImplicitAccountCreationAddress, NftAddress, NftId,
};

verus! {

/// Draws 32 bytes with `rand::Rng::gen` on the thread's generator.
/// Nothing is claimed of the bytes: every array can come back.
#[verifier::external_body]
fn rand_bytes_array() -> (bytes: [u8; 32]) {
    ::rand::Rng::gen::<[u8; 32]>(&mut ::rand::thread_rng())
}

/// Draws a number with `rand::random`.
/// Nothing is claimed of the number: every value can come back.
#[verifier::external_body]
fn rand_number() -> (number: u64) {
    ::rand::random::<u64>()
}

/// The address that a draw of a number and of 32 bytes stands for: the
/// number picks the kind among all five, the bytes fill it.
pub open spec fn spec_address_from_draw(number: u64, bytes: [u8; 32]) -> Address {
    if number % 5 == 0 {
        Address::Ed25519(Ed25519Address(bytes))
    } else if number % 5 == 1 {
        Address::Account(AccountAddress(AccountId(bytes)))
    } else if number % 5 == 2 {
        Address::Nft(NftAddress(NftId(bytes)))
    } else if number % 5 == 3 {
        Address::Anchor(AnchorAddress(AnchorId(bytes)))
    } else {
        Address::ImplicitAccountCreation(ImplicitAccountCreationAddress(Ed25519Address(bytes)))
    }
}

/// The base address that a draw stands for: the number picks the kind among
/// the four kinds that are not implicit account creation.
pub open spec fn spec_base_address_from_draw(number: u64, bytes: [u8; 32]) -> Address {
    if number % 4 == 0 {
        Address::Ed25519(Ed25519Address(bytes))
    } else if number % 4 == 1 {
        Address::Account(AccountAddress(AccountId(bytes)))
    } else if number % 4 == 2 {
        Address::Nft(NftAddress(NftId(bytes)))
    } else {
        Address::Anchor(AnchorAddress(AnchorId(bytes)))
    }
}

/// Turns a drawn number and drawn bytes into an address of any kind.
pub fn address_from_draw(number: u64, bytes: [u8; 32]) -> (address: Address)
    ensures
        address == spec_address_from_draw(number, bytes),
        address.spec_bytes() == bytes,
{
    let pick: u64 = number % 5;
    if pick == 0 {
        Address::Ed25519(Ed25519Address::new(bytes))
    } else if pick == 1 {
        Address::Account(AccountAddress::new(AccountId(bytes)))
    } else if pick == 2 {
        Address::Nft(NftAddress::new(NftId(bytes)))
    } else if pick == 3 {
        Address::Anchor(AnchorAddress::new(AnchorId(bytes)))
    } else {
        Address::ImplicitAccountCreation(
            ImplicitAccountCreationAddress::new(Ed25519Address::new(bytes)),
        )
    }
}

/// Turns a drawn number and drawn bytes into a base address.
pub fn base_address_from_draw(number: u64, bytes: [u8; 32]) -> (address: Address)
    ensures
        address == spec_base_address_from_draw(number, bytes),
        address.spec_bytes() == bytes,
        !(address is ImplicitAccountCreation),
{
    let pick: u64 = number % 4;
    if pick == 0 {
        Address::Ed25519(Ed25519Address::new(bytes))
    } else if pick == 1 {
        Address::Account(AccountAddress::new(AccountId(bytes)))
    } else if pick == 2 {
        Address::Nft(NftAddress::new(NftId(bytes)))
    } else {
        Address::Anchor(AnchorAddress::new(AnchorId(bytes)))
    }
}

/// Generates a random [`Ed25519Address`].
pub fn rand_ed25519_address() -> Ed25519Address {
    Ed25519Address::new(rand_bytes_array())
}

/// Generates a random [`AccountAddress`].
pub fn rand_account_address() -> AccountAddress {
    AccountAddress::new(AccountId(rand_bytes_array()))
}

/// Generates a random [`NftAddress`].
pub fn rand_nft_address() -> NftAddress {
    NftAddress::new(NftId(rand_bytes_array()))
}

/// Generates a random [`AnchorAddress`].
pub fn rand_anchor_address() -> AnchorAddress {
    AnchorAddress::new(AnchorId(rand_bytes_array()))
}

/// Generates a random [`ImplicitAccountCreationAddress`].
pub fn rand_implicit_address() -> ImplicitAccountCreationAddress {
    ImplicitAccountCreationAddress::new(rand_ed25519_address())
}

/// Generates a random [`Address`] of any kind.
pub fn rand_address() -> (address: Address)
    ensures
        exists|number: u64, bytes: [u8; 32]| address == spec_address_from_draw(number, bytes),
{
    let number: u64 = rand_number();
    let bytes: [u8; 32] = rand_bytes_array();
    address_from_draw(number, bytes)
}

/// Generates a random base [`Address`]: never one of implicit account creation.
pub fn rand_base_address() -> (address: Address)
    ensures
        exists|number: u64, bytes: [u8; 32]| address == spec_base_address_from_draw(number, bytes),
        !(address is ImplicitAccountCreation),
{
    let number: u64 = rand_number();
    let bytes: [u8; 32] = rand_bytes_array();
    base_address_from_draw(number, bytes)
}

} // verus!
