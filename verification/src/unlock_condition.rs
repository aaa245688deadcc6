use vstd::prelude::*;
use crate::address::Address;
use crate::error::Error;
use crate::slot::SlotIndex;
use crate::timelock::TimelockUnlockCondition;

verus! {

/// Defines the amount that has to be sent back to the sender of an output,
/// and where to.
#[derive(Copy, Clone, Debug, PartialEq, Eq, Hash)]
pub struct StorageDepositReturnUnlockCondition {
    pub return_address: Address,
    pub amount: u64,
}

impl StorageDepositReturnUnlockCondition {
    /// The unlock condition kind of a storage deposit return.
    pub const KIND: u8 = 1;

    /// A storage deposit return of `amount` to `return_address`.
    pub fn new(return_address: Address, amount: u64) -> (condition: Self)
        ensures
            condition == (StorageDepositReturnUnlockCondition { return_address, amount }),
    {
        StorageDepositReturnUnlockCondition { return_address, amount }
    }

    /// The address that the amount goes back to.
    pub fn return_address(&self) -> (address: &Address)
        ensures
            *address == self.return_address,
    {
        &self.return_address
    }

    /// The amount that goes back.
    pub fn amount(&self) -> (amount: u64)
        ensures
            amount == self.amount,
    {
        self.amount
    }
}

/// Defines a slot index from which on an output belongs to the return
/// address instead of its address.
#[derive(Copy, Clone, Debug, PartialEq, Eq, Hash)]
pub struct ExpirationUnlockCondition {
    pub return_address: Address,
    pub slot_index: SlotIndex,
}

impl ExpirationUnlockCondition {
    /// The unlock condition kind of an expiration.
    pub const KIND: u8 = 3;

    /// An expiration at `slot_index` in favour of `return_address`.
    pub fn new(return_address: Address, slot_index: SlotIndex) -> (condition: Self)
        ensures
            condition == (ExpirationUnlockCondition { return_address, slot_index }),
    {
        ExpirationUnlockCondition { return_address, slot_index }
    }

    /// The address that owns the output once it has expired.
    pub fn return_address(&self) -> (address: &Address)
        ensures
            *address == self.return_address,
    {
        &self.return_address
    }

    /// The slot index at which the output expires.
    pub fn slot_index(&self) -> (slot: SlotIndex)
        ensures
            slot == self.slot_index,
    {
        self.slot_index
    }

    /// Who can unlock at `slot_index`: `address` while the expiration lies
    /// beyond the committable window, the return address once it lies within
    /// or before the window's start, and nobody in between.
    pub open spec fn spec_return_address_expired(
        &self,
        address: Address,
        slot_index: SlotIndex,
        min_committable_age: u32,
        max_committable_age: u32,
    ) -> Option<Address> {
        if self.slot_index.0 > slot_index.0 + max_committable_age {
            Some(address)
        } else if self.slot_index.0 <= slot_index.0 + min_committable_age {
            Some(self.return_address)
        } else {
            None
        }
    }

    /// Who can unlock at `slot_index`, if anybody can.
    pub fn return_address_expired(
        &self,
        address: Address,
        slot_index: SlotIndex,
        min_committable_age: u32,
        max_committable_age: u32,
    ) -> (owner: Option<Address>)
        ensures
            owner == self.spec_return_address_expired(
                address,
                slot_index,
                min_committable_age,
                max_committable_age,
            ),
    {
        let expires: u64 = self.slot_index.0 as u64;
        let now: u64 = slot_index.0 as u64;
        if expires > now + max_committable_age as u64 {
            Some(address)
        } else if expires <= now + min_committable_age as u64 {
            Some(self.return_address)
        } else {
            None
        }
    }
}

/// A rule that says who may consume an output, and when.
#[derive(Copy, Clone, Debug, PartialEq, Eq, Hash)]
pub enum UnlockCondition {
    Address(Address),
    StorageDepositReturn(StorageDepositReturnUnlockCondition),
    Timelock(TimelockUnlockCondition),
    Expiration(ExpirationUnlockCondition),
    StateControllerAddress(Address),
    GovernorAddress(Address),
    ImmutableAccountAddress(Address),
}

impl UnlockCondition {
    /// The number that tells the kinds of unlock condition apart and orders them.
    pub open spec fn spec_kind(&self) -> u8 {
        match *self {
            UnlockCondition::Address(_) => 0,
            UnlockCondition::StorageDepositReturn(_) => 1,
            UnlockCondition::Timelock(_) => 2,
            UnlockCondition::Expiration(_) => 3,
            UnlockCondition::StateControllerAddress(_) => 4,
            UnlockCondition::GovernorAddress(_) => 5,
            UnlockCondition::ImmutableAccountAddress(_) => 6,
        }
    }

    /// The number that tells the kinds of unlock condition apart and orders them.
    #[verifier::when_used_as_spec(spec_kind)]
    pub fn kind(&self) -> (kind: u8)
        ensures
            kind == self.spec_kind(),
    {
        match self {
            UnlockCondition::Address(_) => 0,
            UnlockCondition::StorageDepositReturn(_) => 1,
            UnlockCondition::Timelock(_) => 2,
            UnlockCondition::Expiration(_) => 3,
            UnlockCondition::StateControllerAddress(_) => 4,
            UnlockCondition::GovernorAddress(_) => 5,
            UnlockCondition::ImmutableAccountAddress(_) => 6,
        }
    }
}

/// Whether the kinds of `conditions` strictly increase: the conditions are in
/// order and no kind occurs twice.
pub open spec fn kinds_increasing(conditions: Seq<UnlockCondition>) -> bool {
    forall|i: int, j: int|
        0 <= i < j < conditions.len() ==> conditions[i].spec_kind() < conditions[j].spec_kind()
}

/// The unlock conditions of an output: at most one of each kind, in the order
/// of their kinds.
#[derive(Copy, Clone, Debug, PartialEq, Eq, Hash)]
pub struct UnlockConditions {
    pub address: Option<Address>,
    pub storage_deposit_return: Option<StorageDepositReturnUnlockCondition>,
    pub timelock: Option<TimelockUnlockCondition>,
    pub expiration: Option<ExpirationUnlockCondition>,
    pub state_controller_address: Option<Address>,
    pub governor_address: Option<Address>,
    pub immutable_account_address: Option<Address>,
}

impl UnlockConditions {
    /// No unlock condition at all.
    pub open spec fn spec_empty() -> Self {
        UnlockConditions {
            address: None,
            storage_deposit_return: None,
            timelock: None,
            expiration: None,
            state_controller_address: None,
            governor_address: None,
            immutable_account_address: None,
        }
    }

    /// These conditions with `condition` in the place of its kind.
    pub open spec fn spec_with(self, condition: UnlockCondition) -> Self {
        match condition {
            UnlockCondition::Address(a) => UnlockConditions { address: Some(a), ..self },
            UnlockCondition::StorageDepositReturn(c) => UnlockConditions {
                storage_deposit_return: Some(c),
                ..self
            },
            UnlockCondition::Timelock(c) => UnlockConditions { timelock: Some(c), ..self },
            UnlockCondition::Expiration(c) => UnlockConditions { expiration: Some(c), ..self },
            UnlockCondition::StateControllerAddress(a) => UnlockConditions {
                state_controller_address: Some(a),
                ..self
            },
            UnlockCondition::GovernorAddress(a) => UnlockConditions {
                governor_address: Some(a),
                ..self
            },
            UnlockCondition::ImmutableAccountAddress(a) => UnlockConditions {
                immutable_account_address: Some(a),
                ..self
            },
        }
    }

    /// The conditions that a list stands for.
    pub open spec fn spec_from_seq(conditions: Seq<UnlockCondition>) -> Self
        decreases conditions.len(),
    {
        if conditions.len() == 0 {
            Self::spec_empty()
        } else {
            Self::spec_from_seq(conditions.drop_last()).spec_with(conditions.last())
        }
    }

    /// The condition of the given kind, if there is one.
    pub open spec fn spec_get(&self, kind: u8) -> Option<UnlockCondition> {
        if kind == 0 {
            match self.address {
                Some(a) => Some(UnlockCondition::Address(a)),
                None => None,
            }
        } else if kind == 1 {
            match self.storage_deposit_return {
                Some(c) => Some(UnlockCondition::StorageDepositReturn(c)),
                None => None,
            }
        } else if kind == 2 {
            match self.timelock {
                Some(c) => Some(UnlockCondition::Timelock(c)),
                None => None,
            }
        } else if kind == 3 {
            match self.expiration {
                Some(c) => Some(UnlockCondition::Expiration(c)),
                None => None,
            }
        } else if kind == 4 {
            match self.state_controller_address {
                Some(a) => Some(UnlockCondition::StateControllerAddress(a)),
                None => None,
            }
        } else if kind == 5 {
            match self.governor_address {
                Some(a) => Some(UnlockCondition::GovernorAddress(a)),
                None => None,
            }
        } else if kind == 6 {
            match self.immutable_account_address {
                Some(a) => Some(UnlockCondition::ImmutableAccountAddress(a)),
                None => None,
            }
        } else {
            None
        }
    }

    /// Whether `condition` is one of these conditions.
    pub open spec fn holds(&self, condition: UnlockCondition) -> bool {
        self.spec_get(condition.spec_kind()) == Some(condition)
    }

    /// How many conditions there are.
    pub open spec fn spec_len(&self) -> nat {
        ((if self.address is Some { 1nat } else { 0nat })
            + (if self.storage_deposit_return is Some { 1nat } else { 0nat })
            + (if self.timelock is Some { 1nat } else { 0nat })
            + (if self.expiration is Some { 1nat } else { 0nat })
            + (if self.state_controller_address is Some { 1nat } else { 0nat })
            + (if self.governor_address is Some { 1nat } else { 0nat })
            + (if self.immutable_account_address is Some { 1nat } else { 0nat })) as nat
    }

    /// Whether there is exactly one condition, and it is an address.
    pub open spec fn spec_is_address_only(&self) -> bool {
        self.address is Some && self.spec_len() == 1
    }

    /// Whether a timelock is there that has not matured at `slot_index`.
    pub open spec fn spec_is_timelocked(&self, slot_index: SlotIndex, min_committable_age: u32) -> bool {
        match self.timelock {
            Some(timelock) => timelock.spec_is_timelocked(slot_index, min_committable_age),
            None => false,
        }
    }

    /// No unlock condition at all.
    pub fn empty() -> (conditions: Self)
        ensures
            conditions == Self::spec_empty(),
            conditions.spec_len() == 0,
    {
        UnlockConditions {
            address: None,
            storage_deposit_return: None,
            timelock: None,
            expiration: None,
            state_controller_address: None,
            governor_address: None,
            immutable_account_address: None,
        }
    }

    /// These conditions with `condition` in the place of its kind.
    pub fn with(self, condition: UnlockCondition) -> (conditions: Self)
        ensures
            conditions == self.spec_with(condition),
            conditions.holds(condition),
    {
        let mut conditions = self;
        match condition {
            UnlockCondition::Address(a) => {
                conditions.address = Some(a);
            },
            UnlockCondition::StorageDepositReturn(c) => {
                conditions.storage_deposit_return = Some(c);
            },
            UnlockCondition::Timelock(c) => {
                conditions.timelock = Some(c);
            },
            UnlockCondition::Expiration(c) => {
                conditions.expiration = Some(c);
            },
            UnlockCondition::StateControllerAddress(a) => {
                conditions.state_controller_address = Some(a);
            },
            UnlockCondition::GovernorAddress(a) => {
                conditions.governor_address = Some(a);
            },
            UnlockCondition::ImmutableAccountAddress(a) => {
                conditions.immutable_account_address = Some(a);
            },
        }
        conditions
    }

    /// Takes a list of conditions whose kinds strictly increase.
    ///
    /// Fails where a kind occurs twice or the list is out of order.
    pub fn from_vec(conditions: Vec<UnlockCondition>) -> (r: Result<Self, Error>)
        ensures
            kinds_increasing(conditions@) ==> r == Ok::<Self, Error>(
                Self::spec_from_seq(conditions@),
            ),
            !kinds_increasing(conditions@) ==> r == Err::<Self, Error>(
                Error::UnlockConditionsNotUniqueSorted,
            ),
            r is Ok ==> forall|condition: UnlockCondition|
                r->Ok_0.holds(condition) <==> conditions@.contains(condition),
    {
        let mut built = Self::empty();
        let mut i: usize = 0;
        while i < conditions.len()
            invariant
                i <= conditions.len(),
                kinds_increasing(conditions@.take(i as int)),
                built == Self::spec_from_seq(conditions@.take(i as int)),
            decreases conditions.len() - i,
        {
            if i > 0 && conditions[i - 1].kind() >= conditions[i].kind() {
                return Err(Error::UnlockConditionsNotUniqueSorted);
            }
            proof {
                let before = conditions@.take(i as int);
                let after = conditions@.take(i + 1);
                assert(after.drop_last() =~= before);
                assert forall|a: int, b: int| 0 <= a < b < after.len() implies after[a].spec_kind()
                    < after[b].spec_kind() by {
                    if b == i {
                        if a < i - 1 {
                            assert(before[a].spec_kind() < before[i - 1].spec_kind());
                        }
                    } else {
                        assert(before[a].spec_kind() < before[b].spec_kind());
                    }
                }
            }
            built = built.with(conditions[i]);
            i += 1;
        }
        proof {
            assert(conditions@.take(i as int) =~= conditions@);
            assert forall|condition: UnlockCondition|
                built.holds(condition) <==> conditions@.contains(condition) by {
                Self::lemma_from_seq_holds(conditions@, condition);
            }
        }
        Ok(built)
    }

    /// A list of conditions in order stands for exactly its members.
    pub proof fn lemma_from_seq_holds(conditions: Seq<UnlockCondition>, condition: UnlockCondition)
        requires
            kinds_increasing(conditions),
        ensures
            Self::spec_from_seq(conditions).holds(condition) <==> conditions.contains(condition),
        decreases conditions.len(),
    {
        if conditions.len() == 0 {
        } else {
            let front = conditions.drop_last();
            let last = conditions.last();
            assert forall|i: int, j: int| 0 <= i < j < front.len() implies front[i].spec_kind()
                < front[j].spec_kind() by {
                assert(conditions[i].spec_kind() < conditions[j].spec_kind());
            }
            Self::lemma_from_seq_holds(front, condition);
            if conditions.contains(condition) {
                let i = choose|i: int| 0 <= i < conditions.len() && conditions[i] == condition;
                if i < front.len() {
                    assert(front[i] == condition);
                    assert(conditions[i].spec_kind() < conditions[conditions.len() - 1].spec_kind());
                }
            }
            if front.contains(condition) {
                let i = choose|i: int| 0 <= i < front.len() && front[i] == condition;
                assert(conditions[i] == condition);
                assert(conditions[i].spec_kind() < conditions[conditions.len() - 1].spec_kind());
            }
            if condition == last {
                assert(conditions[conditions.len() - 1] == condition);
            }
        }
    }

    /// How many conditions there are.
    pub fn len(&self) -> (n: usize)
        ensures
            n == self.spec_len(),
    {
        let mut n: usize = 0;
        if self.address.is_some() {
            n += 1;
        }
        if self.storage_deposit_return.is_some() {
            n += 1;
        }
        if self.timelock.is_some() {
            n += 1;
        }
        if self.expiration.is_some() {
            n += 1;
        }
        if self.state_controller_address.is_some() {
            n += 1;
        }
        if self.governor_address.is_some() {
            n += 1;
        }
        if self.immutable_account_address.is_some() {
            n += 1;
        }
        n
    }

    /// Whether there is no condition at all.
    pub fn is_empty(&self) -> (empty: bool)
        ensures
            empty == (self.spec_len() == 0),
            empty == (*self == Self::spec_empty()),
    {
        self.len() == 0
    }

    /// Whether there is exactly one condition, and it is an address.
    #[verifier::when_used_as_spec(spec_is_address_only)]
    pub fn is_address_only(&self) -> (only: bool)
        ensures
            only == self.spec_is_address_only(),
    {
        self.address.is_some() && self.len() == 1
    }

    /// The address condition, if there is one.
    pub fn address(&self) -> (address: Option<&Address>)
        ensures
            address is Some <==> self.address is Some,
            address is Some ==> *address->Some_0 == self.address->Some_0,
    {
        self.address.as_ref()
    }

    /// The storage deposit return, if there is one.
    pub fn storage_deposit_return(&self) -> (condition: Option<&StorageDepositReturnUnlockCondition>)
        ensures
            condition is Some <==> self.storage_deposit_return is Some,
            condition is Some ==> *condition->Some_0 == self.storage_deposit_return->Some_0,
    {
        self.storage_deposit_return.as_ref()
    }

    /// The timelock, if there is one.
    pub fn timelock(&self) -> (condition: Option<&TimelockUnlockCondition>)
        ensures
            condition is Some <==> self.timelock is Some,
            condition is Some ==> *condition->Some_0 == self.timelock->Some_0,
    {
        self.timelock.as_ref()
    }

    /// The expiration, if there is one.
    pub fn expiration(&self) -> (condition: Option<&ExpirationUnlockCondition>)
        ensures
            condition is Some <==> self.expiration is Some,
            condition is Some ==> *condition->Some_0 == self.expiration->Some_0,
    {
        self.expiration.as_ref()
    }

    /// Whether a timelock is there that has not matured at `slot_index`.
    #[verifier::when_used_as_spec(spec_is_timelocked)]
    pub fn is_timelocked(&self, slot_index: SlotIndex, min_committable_age: u32) -> (locked: bool)
        ensures
            locked == self.spec_is_timelocked(slot_index, min_committable_age),
    {
        match self.timelock {
            Some(timelock) => timelock.is_timelocked(slot_index, min_committable_age),
            None => false,
        }
    }
}

} // verus!
