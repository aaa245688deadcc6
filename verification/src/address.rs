use vstd::prelude::*;
use crate::key::{bytes_eq, Key};

verus! {

/// An address derived from an Ed25519 public key.
#[derive(Copy, Clone, Debug, PartialEq, Eq, Hash)]
pub struct Ed25519Address(pub [u8; 32]);

impl Ed25519Address {
    /// The length in bytes of an Ed25519 address.
    pub const LENGTH: usize = 32;

    /// Creates an address from its bytes.
    pub fn new(bytes: [u8; 32]) -> (address: Self)
        ensures
            address == Ed25519Address(bytes),
    {
        Ed25519Address(bytes)
    }
}

/// The identifier of an account.
#[derive(Copy, Clone, Debug, PartialEq, Eq, Hash)]
pub struct AccountId(pub [u8; 32]);

/// The identifier of an NFT.
#[derive(Copy, Clone, Debug, PartialEq, Eq, Hash)]
pub struct NftId(pub [u8; 32]);

/// The identifier of an anchor.
#[derive(Copy, Clone, Debug, PartialEq, Eq, Hash)]
pub struct AnchorId(pub [u8; 32]);

/// The address of an account.
#[derive(Copy, Clone, Debug, PartialEq, Eq, Hash)]
pub struct AccountAddress(pub AccountId);

impl AccountAddress {
    /// Creates the address of the account `id`.
    pub fn new(id: AccountId) -> (address: Self)
        ensures
            address == AccountAddress(id),
    {
        AccountAddress(id)
    }
}

/// The address of an NFT.
#[derive(Copy, Clone, Debug, PartialEq, Eq, Hash)]
pub struct NftAddress(pub NftId);

impl NftAddress {
    /// Creates the address of the NFT `id`.
    pub fn new(id: NftId) -> (address: Self)
        ensures
            address == NftAddress(id),
    {
        NftAddress(id)
    }
}

/// The address of an anchor.
#[derive(Copy, Clone, Debug, PartialEq, Eq, Hash)]
pub struct AnchorAddress(pub AnchorId);

impl AnchorAddress {
    /// Creates the address of the anchor `id`.
    pub fn new(id: AnchorId) -> (address: Self)
        ensures
            address == AnchorAddress(id),
    {
        AnchorAddress(id)
    }
}

/// An address that creates an account implicitly when funds are sent to it.
#[derive(Copy, Clone, Debug, PartialEq, Eq, Hash)]
pub struct ImplicitAccountCreationAddress(pub Ed25519Address);

impl ImplicitAccountCreationAddress {
    /// Wraps the Ed25519 address that will control the account.
    pub fn new(address: Ed25519Address) -> (implicit: Self)
        ensures
            implicit == ImplicitAccountCreationAddress(address),
    {
        ImplicitAccountCreationAddress(address)
    }
}

/// Any of the address kinds of the ledger.
#[derive(Copy, Clone, Debug, PartialEq, Eq, Hash)]
pub enum Address {
    Ed25519(Ed25519Address),
    Account(AccountAddress),
    Nft(NftAddress),
    Anchor(AnchorAddress),
    ImplicitAccountCreation(ImplicitAccountCreationAddress),
}

impl Address {
    /// The 32 bytes that the address wraps, whatever its kind.
    pub open spec fn spec_bytes(&self) -> [u8; 32] {
        match *self {
            Address::Ed25519(a) => a.0,
            Address::Account(a) => a.0.0,
            Address::Nft(a) => a.0.0,
            Address::Anchor(a) => a.0.0,
            Address::ImplicitAccountCreation(a) => a.0.0,
        }
    }

    /// The number that tells the kinds of address apart.
    pub open spec fn spec_kind(&self) -> u8 {
        match *self {
            Address::Ed25519(_) => 0,
            Address::Account(_) => 8,
            Address::Nft(_) => 16,
            Address::Anchor(_) => 24,
            Address::ImplicitAccountCreation(_) => 32,
        }
    }

    /// The 32 bytes that the address wraps, whatever its kind.
    #[verifier::when_used_as_spec(spec_bytes)]
    pub fn bytes(&self) -> (bytes: [u8; 32])
        ensures
            bytes == self.spec_bytes(),
    {
        match self {
            Address::Ed25519(a) => a.0,
            Address::Account(a) => a.0.0,
            Address::Nft(a) => a.0.0,
            Address::Anchor(a) => a.0.0,
            Address::ImplicitAccountCreation(a) => a.0.0,
        }
    }

    /// The number that tells the kinds of address apart.
    #[verifier::when_used_as_spec(spec_kind)]
    pub fn kind(&self) -> (kind: u8)
        ensures
            kind == self.spec_kind(),
    {
        match self {
            Address::Ed25519(_) => 0,
            Address::Account(_) => 8,
            Address::Nft(_) => 16,
            Address::Anchor(_) => 24,
            Address::ImplicitAccountCreation(_) => 32,
        }
    }

    /// Two addresses are equal exactly when kind and bytes agree.
    pub proof fn lemma_equal_by_parts(a: Address, b: Address)
        ensures
            (a == b) <==> (a.spec_kind() == b.spec_kind() && a.spec_bytes() == b.spec_bytes()),
    {
    }
}

impl Key for Address {
    fn key_eq(&self, other: &Self) -> (same: bool) {
        proof {
            Address::lemma_equal_by_parts(*self, *other);
        }
        self.kind() == other.kind() && bytes_eq(&self.bytes(), &other.bytes())
    }
}

} // verus!
