use vstd::prelude::*;
use crate::address::Address;
use crate::amount::{u256_limit, TokenAmount};
use crate::balance::{
    Balance, BalanceView, BaseCoinBalance, NativeTokensBalance, NativeTokensBalanceView,
    RequiredStorageDeposit,
};
use crate::error::Error;
use crate::key::Key;
use crate::native_token::{
    keeps_places, lemma_totals_add_all, token_amount_in, token_total, totals_add_all,
    totals_bounded, FoundryId, NativeTokensBuilder, TokenId,
};
use crate::output::{Output, OutputData, OutputId, OutputKind};
use crate::slot::SlotIndex;
use crate::time::{
    can_output_be_unlocked_forever_from_now_on, spec_can_output_be_unlocked_forever_from_now_on,
};
use crate::vec_map::{distinct_keys, VecMap, VecSet};

verus! {

/// An address of the wallet with the outputs that are believed unspent and
/// attributed to it.
#[derive(Clone, Debug, PartialEq, Eq)]
pub struct AddressWithUnspentOutputs {
    pub address: Address,
    pub output_ids: Vec<OutputId>,
}

/// What the wallet has on record.
#[derive(Debug, PartialEq, Eq)]
pub struct AccountDetails {
    /// Every unspent output that the wallet knows, of whatever network.
    pub unspent_outputs: VecMap<OutputId, OutputData>,
    /// The outputs that operations in flight have reserved.
    pub locked_outputs: VecSet<OutputId>,
    /// The wallet's addresses that hold unspent outputs.
    pub addresses_with_unspent_outputs: Vec<AddressWithUnspentOutputs>,
    /// The immutable metadata of the foundries that the wallet knows; `None`
    /// for a known foundry without metadata.
    pub native_token_foundries: VecMap<FoundryId, Option<Vec<u8>>>,
}

/// An account as one resolution of its balance sees it: the wallet's
/// records together with what the network said when it was asked.
#[derive(Debug, PartialEq, Eq)]
pub struct Account {
    pub details: AccountDetails,
    /// The network that the wallet is connected to.
    pub network_id: u64,
    /// The current ledger time.
    pub slot_index: SlotIndex,
    /// How many slots pass before history counts as committed.
    pub min_committable_age: u32,
    /// How many slots a commitment may lag behind at most.
    pub max_committable_age: u32,
    /// The outputs that the wallet can unlock at present, for any reason.
    pub claimable_outputs: VecSet<OutputId>,
    /// Every address of the wallet.
    pub addresses: Vec<Address>,
    /// The output that holds the wallet's voting power, if there is one.
    pub voting_output: Option<OutputData>,
    /// Whether voting power is tracked and kept out of what is available.
    pub voting_enabled: bool,
}

/// What a resolution does with one listed output.
#[derive(Copy, Clone, Debug, PartialEq, Eq, Structural, Hash)]
pub enum Classification {
    /// Unknown to the wallet, or of another network: it counts for nothing.
    Invisible,
    /// Counted: `amount` goes into the total.
    Merged { amount: u64 },
    /// Left out of the total and recorded as potentially locked.
    PotentiallyLocked { claimable: bool },
    /// Left out of the balance, and not recorded.
    Dropped,
}

/// The sums that a resolution keeps over the listed outputs.
#[derive(Copy, Clone, Debug, PartialEq, Eq, Structural, Hash)]
pub enum Quantity {
    /// Base coin of the counted outputs.
    Total,
    /// Storage deposit of the counted outputs of one type.
    Deposit(OutputKind),
    /// Storage deposit that stays bound although the output is not reserved.
    Reserve,
}

/// The addresses of a list of addresses with unspent outputs, in order.
pub open spec fn listed_addresses(addresses: Seq<AddressWithUnspentOutputs>) -> Seq<Address> {
    addresses.map_values(|a: AddressWithUnspentOutputs| a.address)
}

/// The outputs of a list of addresses with unspent outputs, address by
/// address, each in the order in which its address lists it.
pub open spec fn listed_output_ids(addresses: Seq<AddressWithUnspentOutputs>) -> Seq<OutputId>
    decreases addresses.len(),
{
    if addresses.len() == 0 {
        Seq::empty()
    } else {
        listed_output_ids(addresses.drop_last()) + addresses.last().output_ids@
    }
}

/// What is left of `total` once `locked` and, where voting is tracked,
/// `voting_power` are taken off, never less than zero.
pub open spec fn spec_available(total: u64, locked: nat, voting_power: u64, voting_enabled: bool) -> u64 {
    let unlocked: int = if total >= locked {
        total - locked
    } else {
        0
    };
    if !voting_enabled {
        unlocked as u64
    } else if unlocked >= voting_power {
        (unlocked - voting_power) as u64
    } else {
        0
    }
}

/// Whether `address` occurs in `addresses`.
pub fn contains_address(addresses: &Vec<Address>, address: &Address) -> (found: bool)
    ensures
        found == addresses@.contains(*address),
{
    let mut i: usize = 0;
    while i < addresses.len()
        invariant
            i <= addresses.len(),
            forall|k: int| 0 <= k < i ==> addresses@[k] != *address,
        decreases addresses.len() - i,
    {
        if addresses[i].key_eq(address) {
            return true;
        }
        i += 1;
    }
    false
}

/// The addresses of `addresses`, in order.
pub fn collect_addresses(addresses: &Vec<AddressWithUnspentOutputs>) -> (listed: Vec<Address>)
    ensures
        listed@ == listed_addresses(addresses@),
{
    let mut listed: Vec<Address> = Vec::new();
    let mut i: usize = 0;
    while i < addresses.len()
        invariant
            i <= addresses.len(),
            listed@.len() == i,
            forall|k: int| 0 <= k < i ==> listed@[k] == addresses@[k].address,
        decreases addresses.len() - i,
    {
        listed.push(addresses[i].address);
        i += 1;
    }
    assert(listed@ =~= listed_addresses(addresses@));
    listed
}

/// Appends `ids` to `listed`.
pub fn append_output_ids(listed: &mut Vec<OutputId>, ids: &Vec<OutputId>)
    ensures
        final(listed)@ == old(listed)@ + ids@,
{
    let ghost before = listed@;
    let mut j: usize = 0;
    assert(listed@ =~= before + ids@.take(0));
    while j < ids.len()
        invariant
            j <= ids.len(),
            listed@ == before + ids@.take(j as int),
        decreases ids.len() - j,
    {
        listed.push(ids[j]);
        proof {
            assert(ids@.take(j + 1) =~= ids@.take(j as int).push(ids@[j as int]));
            assert(listed@ =~= before + ids@.take(j + 1));
        }
        j += 1;
    }
    assert(ids@.take(j as int) =~= ids@);
}

/// The outputs of `addresses`, address by address.
pub fn collect_output_ids(addresses: &Vec<AddressWithUnspentOutputs>) -> (listed: Vec<OutputId>)
    ensures
        listed@ == listed_output_ids(addresses@),
{
    let mut listed: Vec<OutputId> = Vec::new();
    let mut i: usize = 0;
    while i < addresses.len()
        invariant
            i <= addresses.len(),
            listed@ == listed_output_ids(addresses@.take(i as int)),
        decreases addresses.len() - i,
    {
        append_output_ids(&mut listed, &addresses[i].output_ids);
        proof {
            assert(addresses@.take(i + 1).drop_last() =~= addresses@.take(i as int));
            assert(addresses@.take(i + 1).last() == addresses@[i as int]);
        }
        i += 1;
    }
    assert(addresses@.take(i as int) =~= addresses@);
    listed
}

impl Account {
    /// Whether the wallet knows the output and it lives on the wallet's network.
    pub open spec fn visible(&self, id: OutputId) -> bool {
        self.details.unspent_outputs@.contains_key(id) && self.details.unspent_outputs@[id].network_id
            == self.network_id
    }

    /// What the wallet knows of the output.
    pub open spec fn data(&self, id: OutputId) -> OutputData {
        self.details.unspent_outputs@[id]
    }

    /// Whether `address` is one of the wallet's addresses.
    pub open spec fn owns(&self, address: Address) -> bool {
        self.addresses@.contains(address)
    }

    /// Whether one of the wallet's addresses with unspent outputs can unlock
    /// `output` now and from now on.
    pub open spec fn unlockable_forever(&self, output: Output) -> bool {
        exists|i: int|
            0 <= i < self.details.addresses_with_unspent_outputs@.len()
                && spec_can_output_be_unlocked_forever_from_now_on(
                (#[trigger] self.details.addresses_with_unspent_outputs@[i]).address,
                output,
                self.slot_index,
                self.min_committable_age,
                self.max_committable_age,
            )
    }

    /// What a claimed output adds to the total: its amount, less what a
    /// storage deposit return sends to an address that is not the wallet's.
    pub open spec fn claimed_amount(&self, output: Output) -> u64 {
        match output.unlock_conditions.storage_deposit_return {
            Some(sdr) => if self.owns(sdr.return_address) {
                output.amount
            } else if output.amount >= sdr.amount {
                (output.amount - sdr.amount) as u64
            } else {
                0
            },
            None => output.amount,
        }
    }

    /// What a resolution does with a visible output.
    pub open spec fn spec_classify_output(&self, id: OutputId, output: Output) -> Classification {
        if output.unlock_conditions.spec_is_address_only() {
            Classification::Merged { amount: output.amount }
        } else if self.claimable_outputs@.contains(id) {
            if self.unlockable_forever(output) {
                Classification::Merged { amount: self.claimed_amount(output) }
            } else {
                Classification::PotentiallyLocked { claimable: true }
            }
        } else {
            match output.unlock_conditions.expiration {
                Some(expiration) => if self.slot_index.0 < expiration.slot_index.0 {
                    Classification::PotentiallyLocked { claimable: false }
                } else {
                    Classification::Dropped
                },
                None => Classification::Dropped,
            }
        }
    }

    /// What a resolution does with the output `id`.
    pub open spec fn spec_classify(&self, id: OutputId) -> Classification {
        if self.visible(id) {
            self.spec_classify_output(id, self.data(id).output)
        } else {
            Classification::Invisible
        }
    }

    /// What the output `id` adds to a sum each time it is listed.
    pub open spec fn share(&self, quantity: Quantity, id: OutputId) -> nat {
        match quantity {
            Quantity::Total => match self.spec_classify(id) {
                Classification::Merged { amount } => amount as nat,
                _ => 0,
            },
            Quantity::Deposit(kind) => if self.spec_classify(id) is Merged && self.data(
                id,
            ).output.kind == kind {
                self.data(id).rent_cost as nat
            } else {
                0
            },
            Quantity::Reserve => if self.visible(id) && !self.details.locked_outputs@.contains(id)
                && !(self.data(id).output.kind == OutputKind::Basic && self.data(
                id,
            ).output.native_tokens@.len() == 0) {
                self.data(id).rent_cost as nat
            } else {
                0
            },
        }
    }

    /// A sum over the listed outputs.
    pub open spec fn sum_of(&self, quantity: Quantity, ids: Seq<OutputId>) -> nat
        decreases ids.len(),
    {
        if ids.len() == 0 {
            0
        } else {
            self.sum_of(quantity, ids.drop_last()) + self.share(quantity, ids.last())
        }
    }

    /// The listed outputs that are left out of the total and recorded, each
    /// with whether it can be claimed now.
    pub open spec fn potentially_locked_of(&self, ids: Seq<OutputId>) -> Map<OutputId, bool> {
        Map::new(
            |id: OutputId| ids.contains(id) && self.spec_classify(id) is PotentiallyLocked,
            |id: OutputId| self.spec_classify(id)->claimable,
        )
    }

    /// Whether the native tokens of a listed output are added up: the output
    /// is visible and not among those left out.
    pub open spec fn counts_tokens(&self, left_out: Set<OutputId>, id: OutputId) -> bool {
        self.visible(id) && !left_out.contains(id)
    }

    /// The native tokens of the listed outputs that count, added up output by
    /// output until an amount would overflow. Gives the totals reached and
    /// whether all were added.
    pub open spec fn tokens_of(
        &self,
        left_out: Set<OutputId>,
        totals: Seq<(TokenId, nat)>,
        ids: Seq<OutputId>,
    ) -> (Seq<(TokenId, nat)>, bool)
        decreases ids.len(),
    {
        if ids.len() == 0 {
            (totals, true)
        } else if !self.counts_tokens(left_out, ids[0]) {
            self.tokens_of(left_out, totals, ids.skip(1))
        } else {
            let step = totals_add_all(totals, self.data(ids[0]).output.native_tokens@);
            if step.1 {
                self.tokens_of(left_out, step.0, ids.skip(1))
            } else {
                step
            }
        }
    }

    /// How much of `token` the listed outputs that count hold, an output
    /// counted each time it is listed.
    pub open spec fn token_amount_of(
        &self,
        left_out: Set<OutputId>,
        ids: Seq<OutputId>,
        token: TokenId,
    ) -> nat
        decreases ids.len(),
    {
        if ids.len() == 0 {
            0
        } else {
            (if self.counts_tokens(left_out, ids[0]) {
                token_amount_in(self.data(ids[0]).output.native_tokens@, token)
            } else {
                0
            }) + self.token_amount_of(left_out, ids.skip(1), token)
        }
    }

    /// The native tokens that the listed outputs claim: those of every
    /// visible output, whatever its class.
    pub open spec fn claimed_tokens_of(&self, totals: Seq<(TokenId, nat)>, ids: Seq<OutputId>) -> (
        Seq<(TokenId, nat)>,
        bool,
    ) {
        self.tokens_of(Set::empty(), totals, ids)
    }

    /// Whether a reserved output counts as locked: it is visible and was not
    /// recorded as potentially locked, so its value is part of the total.
    pub open spec fn locked_counts(&self, potentially_locked: Map<OutputId, bool>, id: OutputId) -> bool {
        !potentially_locked.contains_key(id) && self.visible(id)
    }

    /// The base coin of the reserved outputs that count as locked.
    pub open spec fn locked_amount_of(
        &self,
        potentially_locked: Map<OutputId, bool>,
        reserved: Seq<OutputId>,
    ) -> nat
        decreases reserved.len(),
    {
        if reserved.len() == 0 {
            0
        } else {
            self.locked_amount_of(potentially_locked, reserved.drop_last()) + if self.locked_counts(
                potentially_locked,
                reserved.last(),
            ) {
                self.data(reserved.last()).output.amount as nat
            } else {
                0
            }
        }
    }

    /// The native tokens of the reserved outputs that count as locked.
    pub open spec fn locked_tokens_of(
        &self,
        potentially_locked: Map<OutputId, bool>,
        totals: Seq<(TokenId, nat)>,
        reserved: Seq<OutputId>,
    ) -> (Seq<(TokenId, nat)>, bool) {
        self.tokens_of(potentially_locked.dom(), totals, reserved)
    }

    /// The immutable metadata of the foundry of `token_id`, where the wallet
    /// knows the foundry and it has metadata.
    pub open spec fn metadata_of(&self, token_id: TokenId) -> Option<Seq<u8>> {
        let foundry = FoundryId(token_id.0);
        if self.details.native_token_foundries@.contains_key(foundry) {
            match self.details.native_token_foundries@[foundry] {
                Some(bytes) => Some(bytes@),
                None => None,
            }
        } else {
            None
        }
    }

    /// The balance of one token: its claimed total, and what of it the locked
    /// total leaves.
    pub open spec fn token_balance(&self, claimed: (TokenId, nat), locked: Seq<(TokenId, nat)>) -> NativeTokensBalanceView {
        NativeTokensBalanceView {
            token_id: claimed.0,
            total: claimed.1,
            available: if claimed.1 >= token_total(locked, claimed.0) {
                (claimed.1 - token_total(locked, claimed.0)) as nat
            } else {
                0
            },
            metadata: self.metadata_of(claimed.0),
        }
    }

    /// The balances of the claimed tokens, in their order.
    pub open spec fn token_balances(&self, claimed: Seq<(TokenId, nat)>, locked: Seq<(TokenId, nat)>) -> Seq<NativeTokensBalanceView> {
        Seq::new(claimed.len(), |i: int| self.token_balance(claimed[i], locked))
    }

    /// The amount of the voting output, where voting is tracked and the
    /// output's address is among `addresses`; zero otherwise.
    pub open spec fn voting_power_of(&self, addresses: Seq<Address>) -> u64 {
        match self.voting_output {
            Some(voting) => match voting.output.unlock_conditions.address {
                Some(address) => if self.voting_enabled && addresses.contains(address) {
                    voting.output.amount
                } else {
                    0
                },
                None => 0,
            },
            None => 0,
        }
    }

    /// Whether the sums that a balance reports fit in 64 bits.
    pub open spec fn sums_fit(&self, ids: Seq<OutputId>) -> bool {
        &&& self.sum_of(Quantity::Total, ids) <= u64::MAX
        &&& self.sum_of(Quantity::Deposit(OutputKind::Basic), ids) <= u64::MAX
        &&& self.sum_of(Quantity::Deposit(OutputKind::Alias), ids) <= u64::MAX
        &&& self.sum_of(Quantity::Deposit(OutputKind::Foundry), ids) <= u64::MAX
        &&& self.sum_of(Quantity::Deposit(OutputKind::Nft), ids) <= u64::MAX
    }

    /// What the pass over the listed outputs counts, before reservations are
    /// looked at: nothing is available yet and no token balance is listed.
    pub open spec fn counted(&self, addresses: Seq<Address>, ids: Seq<OutputId>) -> BalanceView {
        BalanceView {
            base_coin: BaseCoinBalance {
                total: self.sum_of(Quantity::Total, ids) as u64,
                available: 0,
                voting_power: self.voting_power_of(addresses),
            },
            required_storage_deposit: RequiredStorageDeposit {
                alias: self.sum_of(Quantity::Deposit(OutputKind::Alias), ids) as u64,
                basic: self.sum_of(Quantity::Deposit(OutputKind::Basic), ids) as u64,
                foundry: self.sum_of(Quantity::Deposit(OutputKind::Foundry), ids) as u64,
                nft: self.sum_of(Quantity::Deposit(OutputKind::Nft), ids) as u64,
            },
            native_tokens: Seq::empty(),
            potentially_locked_outputs: self.potentially_locked_of(ids),
        }
    }

    /// The balance that the reconciliation with the reserved outputs makes of
    /// what was counted.
    ///
    /// The reserved outputs that count as locked, and `total_rent_amount`,
    /// come off what is available; each claimed token gets a balance. Fails
    /// where a locked total of a native token would overflow.
    pub open spec fn spec_finish(
        &self,
        balance: BalanceView,
        total_rent_amount: nat,
        claimed: Seq<(TokenId, nat)>,
    ) -> Result<BalanceView, Error> {
        let reserved = self.details.locked_outputs.elements();
        let locked = self.locked_tokens_of(
            balance.potentially_locked_outputs,
            Seq::empty(),
            reserved,
        );
        if !locked.1 {
            Err(Error::NativeTokensOverflow)
        } else {
            Ok(
                BalanceView {
                    base_coin: BaseCoinBalance {
                        total: balance.base_coin.total,
                        available: spec_available(
                            balance.base_coin.total,
                            self.locked_amount_of(balance.potentially_locked_outputs, reserved)
                                + total_rent_amount,
                            balance.base_coin.voting_power,
                            self.voting_enabled,
                        ),
                        voting_power: balance.base_coin.voting_power,
                    },
                    required_storage_deposit: balance.required_storage_deposit,
                    native_tokens: balance.native_tokens + self.token_balances(claimed, locked.0),
                    potentially_locked_outputs: balance.potentially_locked_outputs,
                },
            )
        }
    }

    /// The balance of the outputs `ids`, listed under `addresses`.
    ///
    /// Fails where a total of a native token would overflow, on the claimed
    /// side first, and where a sum of base coin that the balance reports does
    /// not fit in 64 bits.
    pub open spec fn spec_balance_of(&self, addresses: Seq<Address>, ids: Seq<OutputId>) -> Result<
        BalanceView,
        Error,
    > {
        let claimed = self.claimed_tokens_of(Seq::empty(), ids);
        if !claimed.1 {
            Err(Error::NativeTokensOverflow)
        } else if !self.sums_fit(ids) {
            Err(Error::BaseCoinOverflow)
        } else {
            self.spec_finish(
                self.counted(addresses, ids),
                self.sum_of(Quantity::Reserve, ids),
                claimed.0,
            )
        }
    }

    /// Whether `r` is the result that `expected` describes.
    pub open spec fn is_result(r: Result<Balance, Error>, expected: Result<BalanceView, Error>) -> bool {
        match expected {
            Ok(view) => r is Ok && r->Ok_0@ == view,
            Err(e) => r == Err::<Balance, Error>(e),
        }
    }

    /// Whether the wallet holds unspent outputs under `address`.
    pub open spec fn holds_address(&self, address: Address) -> bool {
        listed_addresses(self.details.addresses_with_unspent_outputs@).contains(address)
    }

    /// Whether entry `i` is the first that the wallet keeps for `address`.
    pub open spec fn is_first_entry(&self, address: Address, i: int) -> bool {
        &&& 0 <= i < self.details.addresses_with_unspent_outputs@.len()
        &&& self.details.addresses_with_unspent_outputs@[i].address == address
        &&& forall|j: int|
            0 <= j < i ==> (#[trigger] self.details.addresses_with_unspent_outputs@[j]).address
                != address
    }

    /// The outputs that the wallet lists under `address`.
    pub open spec fn output_ids_of(&self, address: Address) -> Seq<OutputId> {
        self.details.addresses_with_unspent_outputs@[choose|i: int|
            self.is_first_entry(address, i)].output_ids@
    }

    /// The outputs that the wallet lists under `addresses`, address by address.
    pub open spec fn selected_output_ids(&self, addresses: Seq<Address>) -> Seq<OutputId>
        decreases addresses.len(),
    {
        if addresses.len() == 0 {
            Seq::empty()
        } else {
            self.selected_output_ids(addresses.drop_last()) + self.output_ids_of(addresses.last())
        }
    }

    /// The first of `addresses` under which the wallet holds nothing.
    pub open spec fn first_missing(&self, addresses: Seq<Address>) -> Option<Address>
        decreases addresses.len(),
    {
        if addresses.len() == 0 {
            None
        } else if !self.holds_address(addresses[0]) {
            Some(addresses[0])
        } else {
            self.first_missing(addresses.skip(1))
        }
    }

    /// The balance of the given addresses: it fails on the first address that
    /// the wallet holds nothing under.
    pub open spec fn spec_addresses_balance(&self, addresses: Seq<Address>) -> Result<
        BalanceView,
        Error,
    > {
        match self.first_missing(addresses) {
            Some(address) => Err(Error::AddressNotFoundInAccount(address)),
            None => self.spec_balance_of(addresses, self.selected_output_ids(addresses)),
        }
    }

    /// One more listed output adds its share to a sum.
    pub proof fn lemma_sum_step(&self, quantity: Quantity, ids: Seq<OutputId>, i: int)
        requires
            0 <= i < ids.len(),
        ensures
            self.sum_of(quantity, ids.take(i + 1)) == self.sum_of(quantity, ids.take(i))
                + self.share(quantity, ids[i]),
            self.share(quantity, ids[i]) <= u64::MAX,
    {
        assert(ids.take(i + 1).drop_last() =~= ids.take(i));
        assert(ids.take(i + 1).last() == ids[i]);
    }

    /// One more listed output is recorded where it is potentially locked.
    pub proof fn lemma_potentially_locked_step(&self, ids: Seq<OutputId>, i: int)
        requires
            0 <= i < ids.len(),
        ensures
            self.potentially_locked_of(ids.take(i + 1)) == match self.spec_classify(ids[i]) {
                Classification::PotentiallyLocked { claimable } => self.potentially_locked_of(
                    ids.take(i),
                ).insert(ids[i], claimable),
                _ => self.potentially_locked_of(ids.take(i)),
            },
    {
        let before = ids.take(i);
        let after = ids.take(i + 1);
        assert forall|id: OutputId| after.contains(id) <==> (before.contains(id) || id == ids[i]) by {
            if after.contains(id) {
                let k = choose|k: int| 0 <= k < after.len() && after[k] == id;
                if k < i {
                    assert(before[k] == id);
                }
            }
            if before.contains(id) {
                let k = choose|k: int| 0 <= k < before.len() && before[k] == id;
                assert(after[k] == id);
            }
            if id == ids[i] {
                assert(after[i] == id);
            }
        }
        match self.spec_classify(ids[i]) {
            Classification::PotentiallyLocked { claimable } => {
                assert(self.potentially_locked_of(after) =~= self.potentially_locked_of(
                    before,
                ).insert(ids[i], claimable));
            },
            _ => {
                assert(self.potentially_locked_of(after) =~= self.potentially_locked_of(before));
            },
        }
    }

    /// One more reserved output adds its amount where it counts as locked.
    pub proof fn lemma_locked_amount_step(
        &self,
        potentially_locked: Map<OutputId, bool>,
        reserved: Seq<OutputId>,
        i: int,
    )
        requires
            0 <= i < reserved.len(),
        ensures
            self.locked_amount_of(potentially_locked, reserved.take(i + 1)) == self.locked_amount_of(
                potentially_locked,
                reserved.take(i),
            ) + if self.locked_counts(potentially_locked, reserved[i]) {
                self.data(reserved[i]).output.amount as nat
            } else {
                0
            },
    {
        assert(reserved.take(i + 1).drop_last() =~= reserved.take(i));
        assert(reserved.take(i + 1).last() == reserved[i]);
    }

    /// Whether `address` is one of the wallet's addresses.
    pub fn is_own_address(&self, address: &Address) -> (own: bool)
        ensures
            own == self.owns(*address),
    {
        contains_address(&self.addresses, address)
    }

    /// Whether one of the wallet's addresses with unspent outputs can unlock
    /// `output` now and from now on.
    pub fn can_unlock_forever(&self, output: &Output) -> (can: bool)
        ensures
            can == self.unlockable_forever(*output),
    {
        let addresses = &self.details.addresses_with_unspent_outputs;
        let mut i: usize = 0;
        while i < addresses.len()
            invariant
                i <= addresses.len(),
                addresses == &self.details.addresses_with_unspent_outputs,
                forall|k: int|
                    0 <= k < i ==> !spec_can_output_be_unlocked_forever_from_now_on(
                        (#[trigger] addresses@[k]).address,
                        *output,
                        self.slot_index,
                        self.min_committable_age,
                        self.max_committable_age,
                    ),
            decreases addresses.len() - i,
        {
            if can_output_be_unlocked_forever_from_now_on(
                &addresses[i].address,
                output,
                self.slot_index,
                self.min_committable_age,
                self.max_committable_age,
            ) {
                return true;
            }
            i += 1;
        }
        false
    }

    /// What a resolution does with the visible output `id`.
    pub fn classify_output(&self, id: &OutputId, output: &Output) -> (class: Classification)
        ensures
            class == self.spec_classify_output(*id, *output),
            !(class is Invisible),
    {
        if output.unlock_conditions.is_address_only() {
            Classification::Merged { amount: output.amount }
        } else if self.claimable_outputs.contains(id) {
            if self.can_unlock_forever(output) {
                let mut amount: u64 = output.amount;
                match output.unlock_conditions.storage_deposit_return {
                    Some(sdr) => {
                        if !self.is_own_address(&sdr.return_address) {
                            amount = amount.saturating_sub(sdr.amount);
                        }
                    },
                    None => {},
                }
                Classification::Merged { amount }
            } else {
                Classification::PotentiallyLocked { claimable: true }
            }
        } else {
            match output.unlock_conditions.expiration {
                Some(expiration) => {
                    if self.slot_index.0 < expiration.slot_index.0 {
                        Classification::PotentiallyLocked { claimable: false }
                    } else {
                        Classification::Dropped
                    }
                },
                None => Classification::Dropped,
            }
        }
    }

    /// What a resolution does with the output `id`.
    pub fn classify(&self, id: &OutputId) -> (class: Classification)
        ensures
            class == self.spec_classify(*id),
    {
        match self.details.unspent_outputs.get(id) {
            Some(data) => {
                if data.network_id == self.network_id {
                    self.classify_output(id, &data.output)
                } else {
                    Classification::Invisible
                }
            },
            None => Classification::Invisible,
        }
    }

    /// The amount of the voting output, where voting is tracked and the
    /// output's address is among `addresses`; zero otherwise.
    pub fn voting_power(&self, addresses: &Vec<Address>) -> (power: u64)
        ensures
            power == self.voting_power_of(addresses@),
    {
        if !self.voting_enabled {
            return 0;
        }
        match &self.voting_output {
            Some(voting) => match voting.output.unlock_conditions.address {
                Some(address) => {
                    if contains_address(addresses, &address) {
                        voting.output.amount
                    } else {
                        0
                    }
                },
                None => 0,
            },
            None => 0,
        }
    }
}

/// A copy of `bytes`.
pub fn copy_bytes(bytes: &Vec<u8>) -> (copy: Vec<u8>)
    ensures
        copy@ == bytes@,
{
    let mut copy: Vec<u8> = Vec::new();
    let mut i: usize = 0;
    while i < bytes.len()
        invariant
            i <= bytes.len(),
            copy@ == bytes@.take(i as int),
        decreases bytes.len() - i,
    {
        copy.push(bytes[i]);
        assert(copy@ =~= bytes@.take(i + 1));
        i += 1;
    }
    assert(bytes@.take(i as int) =~= bytes@);
    copy
}

impl Account {
    /// The immutable metadata of the foundry of `token_id`, where the wallet
    /// knows the foundry and it has metadata.
    pub fn foundry_metadata(&self, token_id: &TokenId) -> (metadata: Option<Vec<u8>>)
        ensures
            match metadata {
                Some(bytes) => self.metadata_of(*token_id) == Some(bytes@),
                None => self.metadata_of(*token_id) is None,
            },
    {
        let foundry = FoundryId::from_token_id(*token_id);
        match self.details.native_token_foundries.get(&foundry) {
            Some(known) => match known {
                Some(bytes) => Some(copy_bytes(bytes)),
                None => None,
            },
            None => None,
        }
    }

    /// Reconciles what was counted with the reserved outputs.
    ///
    /// Every reserved output that is visible and not recorded as potentially
    /// locked counts as locked, with its amount and its native tokens. What
    /// is locked, and `total_rent_amount`, come off what is available, never
    /// below zero; each token in `total_native_tokens` gets a balance.
    pub fn finish(
        &self,
        balance: Balance,
        total_rent_amount: u128,
        total_native_tokens: NativeTokensBuilder,
    ) -> (r: Result<Balance, Error>)
        ensures
            Self::is_result(
                r,
                self.spec_finish(balance@, total_rent_amount as nat, total_native_tokens@),
            ),
    {
        let ghost counted = balance@;
        let ghost potentially_locked = balance.potentially_locked_outputs@;
        let mut resolved = balance;
        let ghost reserved = self.details.locked_outputs.elements();
        let ghost claimed = total_native_tokens@;

        let mut locked_amount: u128 = 0;
        let mut locked_native_tokens = NativeTokensBuilder::new();
        let n: usize = self.details.locked_outputs.len();
        let mut i: usize = 0;
        assert(reserved.skip(0) =~= reserved);
        while i < n
            invariant
                i <= n,
                n == reserved.len(),
                reserved == self.details.locked_outputs.elements(),
                counted == balance@,
                resolved@ == counted,
                potentially_locked == counted.potentially_locked_outputs,
                locked_amount == self.locked_amount_of(potentially_locked, reserved.take(i as int)),
                locked_amount <= i * 0xFFFF_FFFF_FFFF_FFFF,
                self.locked_tokens_of(potentially_locked, Seq::empty(), reserved)
                    == self.locked_tokens_of(
                    potentially_locked,
                    locked_native_tokens@,
                    reserved.skip(i as int),
                ),
            decreases n - i,
        {
            let id = self.details.locked_outputs.element(i);
            proof {
                self.lemma_locked_amount_step(potentially_locked, reserved, i as int);
                assert(reserved.skip(i as int)[0] == id);
                assert(reserved.skip(i as int).skip(1) =~= reserved.skip(i + 1));
            }
            // Potentially locked outputs were never added to the total.
            if !resolved.potentially_locked_outputs.contains_key(&id) {
                match self.details.unspent_outputs.get(&id) {
                    Some(data) => {
                        // Only outputs of this network count.
                        if data.network_id == self.network_id {
                            locked_amount += data.output.amount as u128;
                            match locked_native_tokens.add_native_tokens(&data.output.native_tokens) {
                                Ok(()) => {},
                                Err(e) => {
                                    return Err(e);
                                },
                            }
                        }
                    },
                    None => {},
                }
            }
            i += 1;
        }
        assert(reserved.take(n as int) =~= reserved);
        let ghost locked = locked_native_tokens@;

        let locked_total: u128 = locked_amount.saturating_add(total_rent_amount);

        let tokens = total_native_tokens.finish_set();
        let mut k: usize = 0;
        while k < tokens.len()
            invariant
                k <= tokens.len(),
                tokens@.len() == claimed.len(),
                forall|j: int|
                    0 <= j < tokens@.len() ==> (#[trigger] tokens@[j]).token_id == claimed[j].0
                        && tokens@[j].amount@ == claimed[j].1,
                locked == locked_native_tokens@,
                counted == balance@,
                resolved.base_coin == counted.base_coin,
                resolved.required_storage_deposit == counted.required_storage_deposit,
                resolved.potentially_locked_outputs@ == counted.potentially_locked_outputs,
                resolved@.native_tokens == counted.native_tokens + self.token_balances(
                    claimed,
                    locked,
                ).take(k as int),
            decreases tokens.len() - k,
        {
            let token = tokens[k];
            let locked_of_token = match locked_native_tokens.total_of(&token.token_id) {
                Some(amount) => amount,
                None => TokenAmount::zero(),
            };
            let metadata = self.foundry_metadata(&token.token_id);
            let entry = NativeTokensBalance {
                token_id: token.token_id,
                total: token.amount,
                available: token.amount.saturating_sub(locked_of_token),
                metadata,
            };
            proof {
                let all = self.token_balances(claimed, locked);
                assert(entry@ == all[k as int]);
                assert(all.take(k + 1) =~= all.take(k as int).push(all[k as int]));
                assert(resolved.native_tokens@.push(entry).map_values(|b: NativeTokensBalance| b@)
                    =~= resolved.native_tokens@.map_values(|b: NativeTokensBalance| b@).push(entry@));
            }
            resolved.native_tokens.push(entry);
            k += 1;
        }
        proof {
            let all = self.token_balances(claimed, locked);
            assert(all.take(k as int) =~= all);
        }

        let total: u64 = resolved.base_coin.total;
        let unlocked: u64 = if locked_total >= total as u128 {
            0
        } else {
            total - locked_total as u64
        };
        if self.voting_enabled {
            resolved.base_coin.available = unlocked.saturating_sub(resolved.base_coin.voting_power);
        } else {
            resolved.base_coin.available = unlocked;
        }
        Ok(resolved)
    }

    /// Resolves the balance of the outputs that the given addresses list.
    ///
    /// Each listed output that the wallet knows on its network is classified:
    /// counted into the total, recorded as potentially locked, or dropped.
    /// Its native tokens are claimed whatever its class, and its storage
    /// deposit is reserved unless the output is itself reserved or is a basic
    /// output without native tokens. The reserved outputs are then
    /// reconciled by [`Account::finish`].
    pub fn balance_inner(&self, addresses_with_unspent_outputs: &Vec<AddressWithUnspentOutputs>) -> (r:
        Result<Balance, Error>)
        ensures
            Self::is_result(
                r,
                self.spec_balance_of(
                    listed_addresses(addresses_with_unspent_outputs@),
                    listed_output_ids(addresses_with_unspent_outputs@),
                ),
            ),
    {
        let addresses = collect_addresses(addresses_with_unspent_outputs);
        let output_ids = collect_output_ids(addresses_with_unspent_outputs);
        let ghost ids = output_ids@;
        let mut total: u128 = 0;
        let mut basic: u128 = 0;
        let mut alias: u128 = 0;
        let mut foundry: u128 = 0;
        let mut nft: u128 = 0;
        let mut total_rent_amount: u128 = 0;
        let mut total_native_tokens = NativeTokensBuilder::new();
        let mut potentially_locked: VecMap<OutputId, bool> = VecMap::new();

        let mut i: usize = 0;
        proof {
            assert(ids.skip(0) =~= ids);
            assert(potentially_locked@ =~= self.potentially_locked_of(ids.take(0)));
        }
        while i < output_ids.len()
            invariant
                i <= output_ids.len(),
                ids == output_ids@,
                ids == listed_output_ids(addresses_with_unspent_outputs@),
                total == self.sum_of(Quantity::Total, ids.take(i as int)),
                basic == self.sum_of(Quantity::Deposit(OutputKind::Basic), ids.take(i as int)),
                alias == self.sum_of(Quantity::Deposit(OutputKind::Alias), ids.take(i as int)),
                foundry == self.sum_of(Quantity::Deposit(OutputKind::Foundry), ids.take(i as int)),
                nft == self.sum_of(Quantity::Deposit(OutputKind::Nft), ids.take(i as int)),
                total_rent_amount == self.sum_of(Quantity::Reserve, ids.take(i as int)),
                total <= i * 0xFFFF_FFFF_FFFF_FFFF,
                basic <= i * 0xFFFF_FFFF_FFFF_FFFF,
                alias <= i * 0xFFFF_FFFF_FFFF_FFFF,
                foundry <= i * 0xFFFF_FFFF_FFFF_FFFF,
                nft <= i * 0xFFFF_FFFF_FFFF_FFFF,
                total_rent_amount <= i * 0xFFFF_FFFF_FFFF_FFFF,
                potentially_locked@ == self.potentially_locked_of(ids.take(i as int)),
                self.claimed_tokens_of(Seq::empty(), ids) == self.claimed_tokens_of(
                    total_native_tokens@,
                    ids.skip(i as int),
                ),
            decreases output_ids.len() - i,
        {
            let id = output_ids[i];
            proof {
                self.lemma_sum_step(Quantity::Total, ids, i as int);
                self.lemma_sum_step(Quantity::Deposit(OutputKind::Basic), ids, i as int);
                self.lemma_sum_step(Quantity::Deposit(OutputKind::Alias), ids, i as int);
                self.lemma_sum_step(Quantity::Deposit(OutputKind::Foundry), ids, i as int);
                self.lemma_sum_step(Quantity::Deposit(OutputKind::Nft), ids, i as int);
                self.lemma_sum_step(Quantity::Reserve, ids, i as int);
                self.lemma_potentially_locked_step(ids, i as int);
                assert(ids.skip(i as int)[0] == id);
                assert(ids.skip(i as int).skip(1) =~= ids.skip(i + 1));
            }
            match self.details.unspent_outputs.get(&id) {
                Some(data) => {
                    // Outputs of another network are not seen.
                    if data.network_id == self.network_id {
                        let output = &data.output;
                        let rent: u128 = data.rent_cost as u128;

                        if !self.details.locked_outputs.contains(&id) {
                            // A basic output without native tokens can be
                            // spent without burning anything.
                            if !(output.is_basic() && output.native_tokens.len() == 0) {
                                total_rent_amount += rent;
                            }
                        }

                        match total_native_tokens.add_native_tokens(&output.native_tokens) {
                            Ok(()) => {},
                            Err(e) => {
                                return Err(e);
                            },
                        }

                        match self.classify_output(&id, output) {
                            Classification::Merged { amount } => {
                                total += amount as u128;
                                match output.kind {
                                    OutputKind::Basic => {
                                        basic += rent;
                                    },
                                    OutputKind::Alias => {
                                        alias += rent;
                                    },
                                    OutputKind::Foundry => {
                                        foundry += rent;
                                    },
                                    OutputKind::Nft => {
                                        nft += rent;
                                    },
                                    OutputKind::Other => {},
                                }
                            },
                            Classification::PotentiallyLocked { claimable } => {
                                potentially_locked.insert(id, claimable);
                            },
                            _ => {},
                        }
                    }
                },
                None => {},
            }
            i += 1;
        }
        proof {
            assert(ids.take(i as int) =~= ids);
        }

        let limit: u128 = 0xFFFF_FFFF_FFFF_FFFF;
        if total > limit || basic > limit || alias > limit || foundry > limit || nft > limit {
            return Err(Error::BaseCoinOverflow);
        }
        let balance = Balance {
            base_coin: BaseCoinBalance {
                total: total as u64,
                available: 0,
                voting_power: self.voting_power(&addresses),
            },
            required_storage_deposit: RequiredStorageDeposit {
                alias: alias as u64,
                basic: basic as u64,
                foundry: foundry as u64,
                nft: nft as u64,
            },
            native_tokens: Vec::new(),
            potentially_locked_outputs: potentially_locked,
        };
        proof {
            assert(balance@.native_tokens =~= Seq::empty());
            assert(balance@ == self.counted(addresses@, ids));
        }
        self.finish(balance, total_rent_amount, total_native_tokens)
    }

    /// Get the balance of the account: of all its addresses with unspent outputs.
    pub fn balance(&self) -> (r: Result<Balance, Error>)
        ensures
            Self::is_result(
                r,
                self.spec_balance_of(
                    listed_addresses(self.details.addresses_with_unspent_outputs@),
                    listed_output_ids(self.details.addresses_with_unspent_outputs@),
                ),
            ),
    {
        self.balance_inner(&self.details.addresses_with_unspent_outputs)
    }
}

impl Account {
    /// The first entry that the wallet keeps for `address`, if there is one.
    pub fn find_address(&self, address: &Address) -> (at: Option<usize>)
        ensures
            at is Some <==> self.holds_address(*address),
            at is Some ==> self.is_first_entry(*address, at->Some_0 as int),
            at is Some ==> self.output_ids_of(*address)
                == self.details.addresses_with_unspent_outputs@[at->Some_0 as int].output_ids@,
    {
        let entries = &self.details.addresses_with_unspent_outputs;
        let mut i: usize = 0;
        while i < entries.len()
            invariant
                i <= entries.len(),
                entries == &self.details.addresses_with_unspent_outputs,
                forall|k: int| 0 <= k < i ==> (#[trigger] entries@[k]).address != *address,
            decreases entries.len() - i,
        {
            if entries[i].address.key_eq(address) {
                proof {
                    assert(listed_addresses(entries@)[i as int] == *address);
                    assert(self.is_first_entry(*address, i as int));
                    let chosen = choose|c: int| self.is_first_entry(*address, c);
                    assert(self.is_first_entry(*address, chosen));
                    if chosen < i {
                        assert(entries@[chosen].address != *address);
                    }
                    if i < chosen {
                        assert(entries@[i as int].address != *address);
                    }
                }
                return Some(i);
            }
            i += 1;
        }
        proof {
            if self.holds_address(*address) {
                let listed = listed_addresses(entries@);
                let k = choose|k: int| 0 <= k < listed.len() && listed[k] == *address;
                assert(entries@[k].address == *address);
            }
        }
        None
    }

    /// Get the balance of the given addresses.
    ///
    /// Fails on the first address under which the wallet holds no unspent output.
    pub fn addresses_balance(&self, addresses: Vec<Address>) -> (r: Result<Balance, Error>)
        ensures
            Self::is_result(r, self.spec_addresses_balance(addresses@)),
    {
        let mut selected: Vec<AddressWithUnspentOutputs> = Vec::new();
        let mut i: usize = 0;
        proof {
            assert(addresses@.skip(0) =~= addresses@);
            assert(listed_addresses(selected@) =~= addresses@.take(0));
        }
        while i < addresses.len()
            invariant
                i <= addresses.len(),
                listed_addresses(selected@) == addresses@.take(i as int),
                listed_output_ids(selected@) == self.selected_output_ids(addresses@.take(i as int)),
                self.first_missing(addresses@) == self.first_missing(addresses@.skip(i as int)),
            decreases addresses.len() - i,
        {
            proof {
                assert(addresses@.skip(i as int)[0] == addresses@[i as int]);
                assert(addresses@.skip(i as int).skip(1) =~= addresses@.skip(i + 1));
                assert(addresses@.take(i + 1).drop_last() =~= addresses@.take(i as int));
                assert(addresses@.take(i + 1).last() == addresses@[i as int]);
            }
            match self.find_address(&addresses[i]) {
                Some(at) => {
                    let entry = &self.details.addresses_with_unspent_outputs[at];
                    let mut output_ids: Vec<OutputId> = Vec::new();
                    append_output_ids(&mut output_ids, &entry.output_ids);
                    let ghost before = selected@;
                    selected.push(AddressWithUnspentOutputs { address: entry.address, output_ids });
                    proof {
                        assert(output_ids@ =~= entry.output_ids@);
                        assert(selected@.drop_last() =~= before);
                        assert(listed_addresses(selected@) =~= addresses@.take(i + 1));
                    }
                },
                None => {
                    return Err(Error::AddressNotFoundInAccount(addresses[i]));
                },
            }
            i += 1;
        }
        proof {
            assert(addresses@.take(i as int) =~= addresses@);
        }
        self.balance_inner(&selected)
    }

    /// Resolving twice over one snapshot gives the same balance, or the same
    /// error.
    pub proof fn lemma_balance_is_determined(
        &self,
        addresses: Seq<Address>,
        ids: Seq<OutputId>,
        first: Result<Balance, Error>,
        second: Result<Balance, Error>,
    )
        requires
            Self::is_result(first, self.spec_balance_of(addresses, ids)),
            Self::is_result(second, self.spec_balance_of(addresses, ids)),
        ensures
            first is Ok <==> second is Ok,
            first is Ok ==> first->Ok_0@ == second->Ok_0@,
            first is Err ==> first->Err_0 == second->Err_0,
    {
    }

    /// What a resolved balance holds, field by field.
    ///
    /// The total and the storage deposits are the sums over the listed
    /// outputs, the record of potentially locked outputs holds exactly the
    /// listed outputs of that class, and what is available is the total less
    /// the locked amount, the bound storage deposit and the voting power.
    pub proof fn lemma_balance_fields(
        &self,
        addresses: Seq<Address>,
        ids: Seq<OutputId>,
        balance: Balance,
    )
        requires
            Self::is_result(Ok(balance), self.spec_balance_of(addresses, ids)),
        ensures
            balance.base_coin.total == self.sum_of(Quantity::Total, ids),
            balance.base_coin.voting_power == self.voting_power_of(addresses),
            balance.base_coin.available == spec_available(
                balance.base_coin.total,
                self.locked_amount_of(
                    self.potentially_locked_of(ids),
                    self.details.locked_outputs.elements(),
                ) + self.sum_of(Quantity::Reserve, ids),
                balance.base_coin.voting_power,
                self.voting_enabled,
            ),
            balance.base_coin.available <= balance.base_coin.total,
            balance.required_storage_deposit.basic == self.sum_of(
                Quantity::Deposit(OutputKind::Basic),
                ids,
            ),
            balance.required_storage_deposit.alias == self.sum_of(
                Quantity::Deposit(OutputKind::Alias),
                ids,
            ),
            balance.required_storage_deposit.foundry == self.sum_of(
                Quantity::Deposit(OutputKind::Foundry),
                ids,
            ),
            balance.required_storage_deposit.nft == self.sum_of(
                Quantity::Deposit(OutputKind::Nft),
                ids,
            ),
            balance.potentially_locked_outputs@ == self.potentially_locked_of(ids),
            balance@.native_tokens == self.token_balances(
                self.claimed_tokens_of(Seq::empty(), ids).0,
                self.locked_tokens_of(
                    self.potentially_locked_of(ids),
                    Seq::empty(),
                    self.details.locked_outputs.elements(),
                ).0,
            ),
    {
        let counted = self.counted(addresses, ids);
        let claimed = self.claimed_tokens_of(Seq::empty(), ids);
        assert(self.spec_balance_of(addresses, ids) == self.spec_finish(
            counted,
            self.sum_of(Quantity::Reserve, ids),
            claimed.0,
        ));
        let locked = self.locked_tokens_of(
            counted.potentially_locked_outputs,
            Seq::empty(),
            self.details.locked_outputs.elements(),
        );
        assert(balance@.native_tokens =~= self.token_balances(claimed.0, locked.0));
    }

    /// No output is both counted into the total and recorded as potentially
    /// locked: a recorded output is a listed one that adds nothing to the
    /// total nor to a storage deposit, and an output that is counted has no
    /// record.
    pub proof fn lemma_counted_excludes_recorded(
        &self,
        addresses: Seq<Address>,
        ids: Seq<OutputId>,
        balance: Balance,
        id: OutputId,
    )
        requires
            Self::is_result(Ok(balance), self.spec_balance_of(addresses, ids)),
        ensures
            balance.potentially_locked_outputs@.contains_key(id) <==> ids.contains(id)
                && self.spec_classify(id) is PotentiallyLocked,
            self.spec_classify(id) is Merged ==> !balance.potentially_locked_outputs@.contains_key(
                id,
            ),
            self.share(Quantity::Total, id) > 0 ==> !balance.potentially_locked_outputs@.contains_key(
                id,
            ),
            balance.potentially_locked_outputs@.contains_key(id) ==> {
                &&& self.share(Quantity::Total, id) == 0
                &&& forall|kind: OutputKind| self.share(Quantity::Deposit(kind), id) == 0
            },
    {
        self.lemma_balance_fields(addresses, ids, balance);
    }

    /// A reserved output that is recorded as potentially locked counts for
    /// nothing in the reconciliation: with it or without it in the reserved
    /// list, at whatever place, the locked amount is the same.
    pub proof fn lemma_potentially_locked_adds_no_locked_amount(
        &self,
        potentially_locked: Map<OutputId, bool>,
        reserved: Seq<OutputId>,
        at: int,
        id: OutputId,
    )
        requires
            potentially_locked.contains_key(id),
            0 <= at <= reserved.len(),
        ensures
            self.locked_amount_of(potentially_locked, reserved.insert(at, id))
                == self.locked_amount_of(potentially_locked, reserved),
        decreases reserved.len(),
    {
        let with = reserved.insert(at, id);
        if at == reserved.len() {
            assert(with.drop_last() =~= reserved);
            assert(with.last() == id);
        } else {
            assert(with.drop_last() =~= reserved.drop_last().insert(at, id));
            assert(with.last() == reserved.last());
            self.lemma_potentially_locked_adds_no_locked_amount(
                potentially_locked,
                reserved.drop_last(),
                at,
                id,
            );
        }
    }

    /// An output that is left out adds no native tokens: with it or without
    /// it in the list, at whatever place, the totals are the same. So a
    /// reserved output that is recorded as potentially locked locks no tokens.
    pub proof fn lemma_left_out_adds_no_tokens(
        &self,
        left_out: Set<OutputId>,
        totals: Seq<(TokenId, nat)>,
        ids: Seq<OutputId>,
        at: int,
        id: OutputId,
    )
        requires
            left_out.contains(id),
            0 <= at <= ids.len(),
        ensures
            self.tokens_of(left_out, totals, ids.insert(at, id)) == self.tokens_of(
                left_out,
                totals,
                ids,
            ),
        decreases ids.len(),
    {
        let with = ids.insert(at, id);
        if at == 0 {
            assert(with[0] == id);
            assert(with.skip(1) =~= ids);
        } else {
            assert(with[0] == ids[0]);
            assert(with.skip(1) =~= ids.skip(1).insert(at - 1, id));
            if !self.counts_tokens(left_out, ids[0]) {
                self.lemma_left_out_adds_no_tokens(left_out, totals, ids.skip(1), at - 1, id);
            } else {
                let step = totals_add_all(totals, self.data(ids[0]).output.native_tokens@);
                if step.1 {
                    self.lemma_left_out_adds_no_tokens(left_out, step.0, ids.skip(1), at - 1, id);
                }
            }
        }
    }

    /// What adding up the native tokens of listed outputs comes to, token by
    /// token.
    ///
    /// All are added exactly when, for every token, the total with what the
    /// counting outputs hold of it fits in 256 bits. Each total is then
    /// raised by what they hold of its token; the tokens that were there keep
    /// their places, and new tokens follow in the order in which they are met.
    pub proof fn lemma_tokens_of(
        &self,
        left_out: Set<OutputId>,
        totals: Seq<(TokenId, nat)>,
        ids: Seq<OutputId>,
    )
        requires
            distinct_keys(totals),
            totals_bounded(totals),
        ensures
            distinct_keys(self.tokens_of(left_out, totals, ids).0),
            totals_bounded(self.tokens_of(left_out, totals, ids).0),
            keeps_places(totals, self.tokens_of(left_out, totals, ids).0),
            self.tokens_of(left_out, totals, ids).1 <==> (forall|token: TokenId|
                token_total(totals, token) + #[trigger] self.token_amount_of(left_out, ids, token)
                    < u256_limit()),
            self.tokens_of(left_out, totals, ids).1 ==> (forall|token: TokenId|
                #[trigger] token_total(self.tokens_of(left_out, totals, ids).0, token)
                    == token_total(totals, token) + self.token_amount_of(left_out, ids, token)),
        decreases ids.len(),
    {
        if ids.len() == 0 {
            lemma_totals_add_all(totals, Seq::empty());
            assert forall|token: TokenId|
                token_total(totals, token) + #[trigger] self.token_amount_of(left_out, ids, token)
                    < u256_limit() by {
                assert(token_amount_in(Seq::empty(), token) == 0);
            }
        } else if !self.counts_tokens(left_out, ids[0]) {
            let rest = ids.skip(1);
            self.lemma_tokens_of(left_out, totals, rest);
            let done = self.tokens_of(left_out, totals, rest);
            assert(done == self.tokens_of(left_out, totals, ids));
            if done.1 {
                assert forall|token: TokenId|
                    token_total(totals, token) + #[trigger] self.token_amount_of(
                        left_out,
                        ids,
                        token,
                    ) < u256_limit() by {
                    assert(token_total(totals, token) + self.token_amount_of(left_out, rest, token)
                        < u256_limit());
                }
                assert forall|token: TokenId| #[trigger]
                    token_total(done.0, token) == token_total(totals, token)
                        + self.token_amount_of(left_out, ids, token) by {
                    assert(token_total(done.0, token) == token_total(totals, token)
                        + self.token_amount_of(left_out, rest, token));
                }
            } else {
                let witness = choose|token: TokenId|
                    !(token_total(totals, token) + #[trigger] self.token_amount_of(
                        left_out,
                        rest,
                        token,
                    ) < u256_limit());
                assert(!(token_total(totals, witness) + self.token_amount_of(
                    left_out,
                    ids,
                    witness,
                ) < u256_limit()));
            }
        } else {
            let held = self.data(ids[0]).output.native_tokens@;
            let rest = ids.skip(1);
            let step = totals_add_all(totals, held);
            lemma_totals_add_all(totals, held);
            assert forall|token: TokenId| #[trigger]
                self.token_amount_of(left_out, ids, token) == token_amount_in(held, token)
                    + self.token_amount_of(left_out, rest, token) by {}
            if step.1 {
                self.lemma_tokens_of(left_out, step.0, rest);
                let done = self.tokens_of(left_out, step.0, rest);
                assert(done == self.tokens_of(left_out, totals, ids));
                assert forall|token: TokenId|
                    token_total(step.0, token) + self.token_amount_of(left_out, rest, token)
                        == token_total(totals, token) + #[trigger] self.token_amount_of(
                        left_out,
                        ids,
                        token,
                    ) by {
                    assert(token_total(step.0, token) == token_total(totals, token)
                        + token_amount_in(held, token));
                }
                if done.1 {
                    assert forall|token: TokenId|
                        token_total(totals, token) + #[trigger] self.token_amount_of(
                            left_out,
                            ids,
                            token,
                        ) < u256_limit() by {
                        assert(token_total(step.0, token) + self.token_amount_of(
                            left_out,
                            rest,
                            token,
                        ) < u256_limit());
                    }
                    assert forall|token: TokenId| #[trigger]
                        token_total(done.0, token) == token_total(totals, token)
                            + self.token_amount_of(left_out, ids, token) by {
                        assert(token_total(done.0, token) == token_total(step.0, token)
                            + self.token_amount_of(left_out, rest, token));
                    }
                } else {
                    let witness = choose|token: TokenId|
                        !(token_total(step.0, token) + #[trigger] self.token_amount_of(
                            left_out,
                            rest,
                            token,
                        ) < u256_limit());
                    assert(!(token_total(totals, witness) + self.token_amount_of(
                        left_out,
                        ids,
                        witness,
                    ) < u256_limit()));
                }
                assert forall|i: int| 0 <= i < totals.len() implies (#[trigger] done.0[i]).0
                    == totals[i].0 by {
                    assert(step.0[i].0 == totals[i].0);
                }
            } else {
                let witness = choose|token: TokenId|
                    !(token_total(totals, token) + #[trigger] token_amount_in(held, token)
                        < u256_limit());
                assert(!(token_total(totals, witness) + self.token_amount_of(
                    left_out,
                    ids,
                    witness,
                ) < u256_limit()));
            }
        }
    }
}

} // verus!
