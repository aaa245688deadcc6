use vstd::prelude::*;
use crate::amount::TokenAmount;
use crate::native_token::TokenId;
use crate::output::OutputId;
use crate::vec_map::VecMap;

verus! {

/// The base coin of a balance.
#[derive(Copy, Clone, Debug, PartialEq, Eq, Structural, Hash)]
pub struct BaseCoinBalance {
    /// Total amount.
    pub total: u64,
    /// Amount that is not reserved by pending operations, by storage
    /// deposits that only burning would free, or by voting.
    pub available: u64,
    /// Amount that is bound in the voting output.
    pub voting_power: u64,
}

/// The storage deposit that the counted outputs need, by type of output.
#[derive(Copy, Clone, Debug, PartialEq, Eq, Structural, Hash)]
pub struct RequiredStorageDeposit {
    pub alias: u64,
    pub basic: u64,
    pub foundry: u64,
    pub nft: u64,
}

/// The balance of one native token.
#[derive(Clone, Debug, PartialEq, Eq)]
pub struct NativeTokensBalance {
    pub token_id: TokenId,
    /// Total amount.
    pub total: TokenAmount,
    /// Amount that pending operations have not reserved.
    pub available: TokenAmount,
    /// The immutable metadata of the token's foundry, where it is known.
    pub metadata: Option<Vec<u8>>,
}

/// The balance of one native token, as numbers.
pub struct NativeTokensBalanceView {
    pub token_id: TokenId,
    pub total: nat,
    pub available: nat,
    pub metadata: Option<Seq<u8>>,
}

impl View for NativeTokensBalance {
    type V = NativeTokensBalanceView;

    open spec fn view(&self) -> NativeTokensBalanceView {
        NativeTokensBalanceView {
            token_id: self.token_id,
            total: self.total@,
            available: self.available@,
            metadata: match self.metadata {
                Some(bytes) => Some(bytes@),
                None => None,
            },
        }
    }
}

/// What a wallet holds, as one resolution found it.
#[derive(Debug, PartialEq, Eq)]
pub struct Balance {
    /// Total and available amount of the base coin.
    pub base_coin: BaseCoinBalance,
    /// Storage deposit of the counted outputs, by type of output.
    pub required_storage_deposit: RequiredStorageDeposit,
    /// One balance for each native token, in the order in which the tokens
    /// were first met.
    pub native_tokens: Vec<NativeTokensBalance>,
    /// Outputs whose value is left out of the total. `true`: the output can be
    /// claimed now, but not for certain from now on. `false`: it cannot be
    /// claimed yet and may become claimable when it expires.
    pub potentially_locked_outputs: VecMap<OutputId, bool>,
}

/// A balance as mathematical values.
pub struct BalanceView {
    pub base_coin: BaseCoinBalance,
    pub required_storage_deposit: RequiredStorageDeposit,
    pub native_tokens: Seq<NativeTokensBalanceView>,
    pub potentially_locked_outputs: Map<OutputId, bool>,
}

impl View for Balance {
    type V = BalanceView;

    open spec fn view(&self) -> BalanceView {
        BalanceView {
            base_coin: self.base_coin,
            required_storage_deposit: self.required_storage_deposit,
            native_tokens: self.native_tokens@.map_values(|b: NativeTokensBalance| b@),
            potentially_locked_outputs: self.potentially_locked_outputs@,
        }
    }
}

impl Balance {
    /// A balance that holds nothing.
    pub fn new() -> (balance: Self)
        ensures
            balance.base_coin == (BaseCoinBalance { total: 0, available: 0, voting_power: 0 }),
            balance.required_storage_deposit == (RequiredStorageDeposit {
                alias: 0,
                basic: 0,
                foundry: 0,
                nft: 0,
            }),
            balance.native_tokens@ == Seq::<NativeTokensBalance>::empty(),
            balance.potentially_locked_outputs@ == Map::<OutputId, bool>::empty(),
    {
        Balance {
            base_coin: BaseCoinBalance { total: 0, available: 0, voting_power: 0 },
            required_storage_deposit: RequiredStorageDeposit {
                alias: 0,
                basic: 0,
                foundry: 0,
                nft: 0,
            },
            native_tokens: Vec::new(),
            potentially_locked_outputs: VecMap::new(),
        }
    }
}

} // verus!
