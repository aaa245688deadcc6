use wallet_balance::address::{AccountAddress, AccountId, Address, Ed25519Address};
use wallet_balance::error::Error;
use wallet_balance::output::{Output, OutputData, OutputKind};
use wallet_balance::slot::SlotIndex;
use wallet_balance::time::{can_output_be_unlocked_forever_from_now_on, can_output_be_unlocked_now};
use wallet_balance::timelock::TimelockUnlockCondition;
use wallet_balance::unlock_condition::{
    ExpirationUnlockCondition, StorageDepositReturnUnlockCondition, UnlockCondition,
    UnlockConditions,
};

fn ed(n: u8) -> Address {
    Address::Ed25519(Ed25519Address::new([n; 32]))
}

fn lock(slot: u32) -> TimelockUnlockCondition {
    TimelockUnlockCondition::new(SlotIndex(slot)).unwrap()
}

fn output_with(conditions: Vec<UnlockCondition>) -> Output {
    Output::new(OutputKind::Basic, 1000, Vec::new(), UnlockConditions::from_vec(conditions).unwrap())
}

fn output_data_with(conditions: Vec<UnlockCondition>) -> OutputData {
    OutputData::new(output_with(conditions), 1, 0)
}

#[test]
fn kinds_of_unlock_conditions() {
    let sdr = StorageDepositReturnUnlockCondition::new(ed(1), 5);
    let expiration = ExpirationUnlockCondition::new(ed(1), SlotIndex(5));
    assert_eq!(UnlockCondition::Address(ed(1)).kind(), 0);
    assert_eq!(UnlockCondition::StorageDepositReturn(sdr).kind(), 1);
    assert_eq!(UnlockCondition::Timelock(lock(1)).kind(), 2);
    assert_eq!(UnlockCondition::Expiration(expiration).kind(), 3);
    assert_eq!(UnlockCondition::StateControllerAddress(ed(1)).kind(), 4);
    assert_eq!(UnlockCondition::GovernorAddress(ed(1)).kind(), 5);
    assert_eq!(UnlockCondition::ImmutableAccountAddress(ed(1)).kind(), 6);
    assert_eq!(StorageDepositReturnUnlockCondition::KIND, 1);
    assert_eq!(ExpirationUnlockCondition::KIND, 3);
}

#[test]
fn condition_getters() {
    let sdr = StorageDepositReturnUnlockCondition::new(ed(1), 5);
    assert_eq!(*sdr.return_address(), ed(1));
    assert_eq!(sdr.amount(), 5);
    let expiration = ExpirationUnlockCondition::new(ed(2), SlotIndex(9));
    assert_eq!(*expiration.return_address(), ed(2));
    assert_eq!(expiration.slot_index(), SlotIndex(9));
}

#[test]
fn from_vec_fills_each_kind() {
    let sdr = StorageDepositReturnUnlockCondition::new(ed(2), 5);
    let expiration = ExpirationUnlockCondition::new(ed(3), SlotIndex(9));
    let conditions = UnlockConditions::from_vec(vec![
        UnlockCondition::Address(ed(1)),
        UnlockCondition::StorageDepositReturn(sdr),
        UnlockCondition::Timelock(lock(7)),
        UnlockCondition::Expiration(expiration),
    ])
    .unwrap();
    assert_eq!(conditions.len(), 4);
    assert_eq!(conditions.address(), Some(&ed(1)));
    assert_eq!(conditions.storage_deposit_return(), Some(&sdr));
    assert_eq!(conditions.timelock(), Some(&lock(7)));
    assert_eq!(conditions.expiration(), Some(&expiration));
    assert_eq!(conditions.state_controller_address, None);
    assert_eq!(conditions.governor_address, None);
    assert_eq!(conditions.immutable_account_address, None);
    assert!(!conditions.is_empty());
    assert!(!conditions.is_address_only());
}

#[test]
fn from_vec_of_nothing_is_empty() {
    let conditions = UnlockConditions::from_vec(Vec::new()).unwrap();
    assert_eq!(conditions, UnlockConditions::empty());
    assert!(conditions.is_empty());
    assert_eq!(conditions.len(), 0);
    assert_eq!(conditions.address(), None);
    assert_eq!(conditions.timelock(), None);
    assert!(!conditions.is_address_only());
}

#[test]
fn from_vec_rejects_a_kind_given_twice() {
    assert_eq!(
        UnlockConditions::from_vec(vec![
            UnlockCondition::Address(ed(1)),
            UnlockCondition::Address(ed(2)),
        ]),
        Err(Error::UnlockConditionsNotUniqueSorted)
    );
    assert_eq!(
        UnlockConditions::from_vec(vec![
            UnlockCondition::Address(ed(1)),
            UnlockCondition::Timelock(lock(3)),
            UnlockCondition::Timelock(lock(3)),
        ]),
        Err(Error::UnlockConditionsNotUniqueSorted)
    );
}

#[test]
fn from_vec_rejects_conditions_out_of_order() {
    assert_eq!(
        UnlockConditions::from_vec(vec![
            UnlockCondition::Timelock(lock(3)),
            UnlockCondition::Address(ed(1)),
        ]),
        Err(Error::UnlockConditionsNotUniqueSorted)
    );
    assert_eq!(
        UnlockConditions::from_vec(vec![
            UnlockCondition::Address(ed(1)),
            UnlockCondition::GovernorAddress(ed(1)),
            UnlockCondition::StateControllerAddress(ed(1)),
        ]),
        Err(Error::UnlockConditionsNotUniqueSorted)
    );
}

#[test]
fn with_replaces_the_condition_of_its_kind() {
    let conditions = UnlockConditions::empty()
        .with(UnlockCondition::Timelock(lock(3)))
        .with(UnlockCondition::Address(ed(1)))
        .with(UnlockCondition::Timelock(lock(4)));
    assert_eq!(conditions.len(), 2);
    assert_eq!(conditions.timelock(), Some(&lock(4)));
    assert_eq!(
        conditions,
        UnlockConditions::from_vec(vec![
            UnlockCondition::Address(ed(1)),
            UnlockCondition::Timelock(lock(4)),
        ])
        .unwrap()
    );
}

#[test]
fn only_a_single_address_condition_is_address_only() {
    assert!(UnlockConditions::empty().with(UnlockCondition::Address(ed(1))).is_address_only());
    assert!(!UnlockConditions::empty()
        .with(UnlockCondition::GovernorAddress(ed(1)))
        .is_address_only());
    assert!(!UnlockConditions::empty()
        .with(UnlockCondition::Address(ed(1)))
        .with(UnlockCondition::ImmutableAccountAddress(ed(1)))
        .is_address_only());
}

#[test]
fn conditions_are_timelocked_by_their_timelock() {
    let conditions = UnlockConditions::empty()
        .with(UnlockCondition::Address(ed(1)))
        .with(UnlockCondition::Timelock(lock(100)));
    assert!(conditions.is_timelocked(SlotIndex(50), 0));
    assert!(conditions.is_timelocked(SlotIndex(50), 49));
    assert!(!conditions.is_timelocked(SlotIndex(50), 50));
    assert!(!conditions.is_timelocked(SlotIndex(100), 0));
    let free = UnlockConditions::empty().with(UnlockCondition::Address(ed(1)));
    assert!(!free.is_timelocked(SlotIndex(0), 0));
}

#[test]
fn expiration_decides_who_unlocks() {
    let expiration = ExpirationUnlockCondition::new(ed(2), SlotIndex(100));
    // before the window: the address
    assert_eq!(expiration.return_address_expired(ed(1), SlotIndex(50), 5, 10), Some(ed(1)));
    assert_eq!(expiration.return_address_expired(ed(1), SlotIndex(89), 5, 10), Some(ed(1)));
    // inside the window: nobody
    assert_eq!(expiration.return_address_expired(ed(1), SlotIndex(90), 5, 10), None);
    assert_eq!(expiration.return_address_expired(ed(1), SlotIndex(94), 5, 10), None);
    // from the window's start on: the return address
    assert_eq!(expiration.return_address_expired(ed(1), SlotIndex(95), 5, 10), Some(ed(2)));
    assert_eq!(expiration.return_address_expired(ed(1), SlotIndex(100), 5, 10), Some(ed(2)));
    assert_eq!(expiration.return_address_expired(ed(1), SlotIndex(u32::MAX), u32::MAX, u32::MAX), Some(ed(2)));
}

#[test]
fn required_address_follows_address_and_expiration() {
    let plain = output_with(vec![UnlockCondition::Address(ed(1))]);
    assert_eq!(plain.required_address(SlotIndex(50), 0, 0), Some(ed(1)));
    let expiring = output_with(vec![
        UnlockCondition::Address(ed(1)),
        UnlockCondition::Expiration(ExpirationUnlockCondition::new(ed(2), SlotIndex(100))),
    ]);
    assert_eq!(expiring.required_address(SlotIndex(50), 5, 10), Some(ed(1)));
    assert_eq!(expiring.required_address(SlotIndex(92), 5, 10), None);
    assert_eq!(expiring.required_address(SlotIndex(100), 5, 10), Some(ed(2)));
    let governed = output_with(vec![UnlockCondition::GovernorAddress(ed(1))]);
    assert_eq!(governed.required_address(SlotIndex(50), 0, 0), None);
    assert_eq!(output_with(Vec::new()).required_address(SlotIndex(50), 0, 0), None);
}

#[test]
fn output_getters() {
    let output = output_with(vec![UnlockCondition::Address(ed(1))]);
    assert_eq!(output.amount(), 1000);
    assert!(output.is_basic());
    assert!(output.native_tokens().is_empty());
    assert!(output.unlock_conditions().is_address_only());
    let nft = Output::new(OutputKind::Nft, 1, Vec::new(), UnlockConditions::empty());
    assert!(!nft.is_basic());
}

#[test]
fn unlock_now_is_false_while_timelocked() {
    let data = output_data_with(vec![
        UnlockCondition::Address(ed(1)),
        UnlockCondition::Timelock(lock(100)),
    ]);
    assert_eq!(can_output_be_unlocked_now(&ed(1), &data, SlotIndex(50), 0, 0), Ok(false));
    assert_eq!(can_output_be_unlocked_now(&ed(1), &data, SlotIndex(99), 0, 10), Ok(false));
    // matured exactly
    assert_eq!(can_output_be_unlocked_now(&ed(1), &data, SlotIndex(100), 0, 10), Ok(true));
    assert_eq!(can_output_be_unlocked_now(&ed(1), &data, SlotIndex(90), 10, 10), Ok(true));
    assert_eq!(can_output_be_unlocked_now(&ed(2), &data, SlotIndex(100), 0, 10), Ok(false));
}

#[test]
fn unlock_now_compares_the_required_address() {
    let data = output_data_with(vec![UnlockCondition::Address(ed(1))]);
    assert_eq!(can_output_be_unlocked_now(&ed(1), &data, SlotIndex(50), 0, 0), Ok(true));
    assert_eq!(can_output_be_unlocked_now(&ed(2), &data, SlotIndex(50), 0, 0), Ok(false));
    // same bytes, another kind of address
    let account = Address::Account(AccountAddress::new(AccountId([1; 32])));
    assert_eq!(can_output_be_unlocked_now(&account, &data, SlotIndex(50), 0, 0), Ok(false));
    let expiring = output_data_with(vec![
        UnlockCondition::Address(ed(1)),
        UnlockCondition::Expiration(ExpirationUnlockCondition::new(ed(2), SlotIndex(100))),
    ]);
    assert_eq!(can_output_be_unlocked_now(&ed(1), &expiring, SlotIndex(50), 5, 10), Ok(true));
    assert_eq!(can_output_be_unlocked_now(&ed(2), &expiring, SlotIndex(50), 5, 10), Ok(false));
    assert_eq!(can_output_be_unlocked_now(&ed(1), &expiring, SlotIndex(100), 5, 10), Ok(false));
    assert_eq!(can_output_be_unlocked_now(&ed(2), &expiring, SlotIndex(100), 5, 10), Ok(true));
}

#[test]
fn unlock_now_fails_without_a_required_address() {
    let expiring = output_data_with(vec![
        UnlockCondition::Address(ed(1)),
        UnlockCondition::Expiration(ExpirationUnlockCondition::new(ed(2), SlotIndex(100))),
    ]);
    assert_eq!(
        can_output_be_unlocked_now(&ed(1), &expiring, SlotIndex(92), 5, 10),
        Err(Error::UnlockResolutionFailure)
    );
    assert_eq!(
        can_output_be_unlocked_now(&ed(1), &output_data_with(Vec::new()), SlotIndex(92), 5, 10),
        Err(Error::UnlockResolutionFailure)
    );
    // a timelock that has not matured answers before the address is asked for
    let locked = output_data_with(vec![UnlockCondition::Timelock(lock(100))]);
    assert_eq!(can_output_be_unlocked_now(&ed(1), &locked, SlotIndex(50), 0, 0), Ok(false));
    assert_eq!(
        can_output_be_unlocked_now(&ed(1), &locked, SlotIndex(100), 0, 0),
        Err(Error::UnlockResolutionFailure)
    );
}

#[test]
fn unlock_forever_needs_conditions_and_a_matured_timelock() {
    let conditionless = output_with(Vec::new());
    assert!(!can_output_be_unlocked_forever_from_now_on(&ed(1), &conditionless, SlotIndex(50), 0, 0));
    let plain = output_with(vec![UnlockCondition::Address(ed(1))]);
    assert!(can_output_be_unlocked_forever_from_now_on(&ed(1), &plain, SlotIndex(50), 0, 0));
    let locked = output_with(vec![
        UnlockCondition::Address(ed(1)),
        UnlockCondition::Timelock(lock(100)),
    ]);
    assert!(!can_output_be_unlocked_forever_from_now_on(&ed(1), &locked, SlotIndex(50), 0, 0));
    assert!(!can_output_be_unlocked_forever_from_now_on(&ed(1), &locked, SlotIndex(50), 49, 0));
    assert!(can_output_be_unlocked_forever_from_now_on(&ed(1), &locked, SlotIndex(50), 50, 0));
    assert!(can_output_be_unlocked_forever_from_now_on(&ed(1), &locked, SlotIndex(100), 0, 0));
    // an expiration does not change the answer
    let expiring = output_with(vec![
        UnlockCondition::Address(ed(1)),
        UnlockCondition::Expiration(ExpirationUnlockCondition::new(ed(2), SlotIndex(60))),
    ]);
    assert!(can_output_be_unlocked_forever_from_now_on(&ed(1), &expiring, SlotIndex(50), 0, 0));
}
