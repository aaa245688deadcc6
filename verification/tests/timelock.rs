use wallet_balance::error::Error;
use wallet_balance::slot::SlotIndex;
use wallet_balance::timelock::{verify_slot_index, TimelockUnlockCondition};

#[test]
fn new_keeps_every_nonzero_slot_index() {
    for s in [1u32, 2, 50, 100, 65_536, u32::MAX - 1, u32::MAX] {
        let timelock = TimelockUnlockCondition::new(SlotIndex(s)).unwrap();
        assert_eq!(timelock.slot_index(), SlotIndex(s));
        assert_eq!(timelock.slot_index().get(), s);
    }
}

#[test]
fn new_rejects_slot_index_zero() {
    assert_eq!(
        TimelockUnlockCondition::new(SlotIndex(0)),
        Err(Error::TimelockUnlockConditionZero)
    );
    assert_eq!(
        TimelockUnlockCondition::new(SlotIndex::new(0)),
        Err(Error::TimelockUnlockConditionZero)
    );
}

#[test]
fn kind_of_timelock_is_two() {
    assert_eq!(TimelockUnlockCondition::KIND, 2);
}

#[test]
fn is_timelocked_before_the_lock_slot() {
    let timelock = TimelockUnlockCondition::new(SlotIndex(100)).unwrap();
    assert!(timelock.is_timelocked(SlotIndex(50), 0));
    assert!(timelock.is_timelocked(SlotIndex(99), 0));
    assert!(timelock.is_timelocked(SlotIndex(0), 99));
    assert!(timelock.is_timelocked(SlotIndex(90), 9));
}

#[test]
fn is_timelocked_boundary_is_not_timelocked() {
    let timelock = TimelockUnlockCondition::new(SlotIndex(100)).unwrap();
    // slot + min_age == lock_slot
    assert!(!timelock.is_timelocked(SlotIndex(100), 0));
    assert!(!timelock.is_timelocked(SlotIndex(90), 10));
    assert!(!timelock.is_timelocked(SlotIndex(0), 100));
    // one below the boundary is still locked, one above is not
    assert!(timelock.is_timelocked(SlotIndex(89), 10));
    assert!(!timelock.is_timelocked(SlotIndex(91), 10));
}

#[test]
fn is_timelocked_after_the_lock_slot() {
    let timelock = TimelockUnlockCondition::new(SlotIndex(100)).unwrap();
    assert!(!timelock.is_timelocked(SlotIndex(101), 0));
    assert!(!timelock.is_timelocked(SlotIndex(1000), 1000));
}

#[test]
fn is_timelocked_does_not_wrap_around() {
    let timelock = TimelockUnlockCondition::new(SlotIndex(5)).unwrap();
    // in 32 bits the sum would wrap to 4 and look smaller than 5
    assert!(!timelock.is_timelocked(SlotIndex(u32::MAX), 5));
    let late = TimelockUnlockCondition::new(SlotIndex(u32::MAX)).unwrap();
    assert!(!late.is_timelocked(SlotIndex(u32::MAX), u32::MAX));
    assert!(late.is_timelocked(SlotIndex(u32::MAX - 1), 0));
    assert!(!late.is_timelocked(SlotIndex(u32::MAX - 1), 1));
}

#[test]
fn verify_slot_index_rejects_zero_only_when_verifying() {
    assert_eq!(
        verify_slot_index::<true>(&SlotIndex(0), &()),
        Err(Error::TimelockUnlockConditionZero)
    );
    assert_eq!(verify_slot_index::<true>(&SlotIndex(1), &()), Ok(()));
    assert_eq!(verify_slot_index::<false>(&SlotIndex(0), &()), Ok(()));
    assert_eq!(verify_slot_index::<false>(&SlotIndex(7), &()), Ok(()));
}

#[test]
fn timelocks_compare_by_slot_index() {
    let early = TimelockUnlockCondition::new(SlotIndex(3)).unwrap();
    let late = TimelockUnlockCondition::new(SlotIndex(4)).unwrap();
    assert!(early < late);
    assert_eq!(early, TimelockUnlockCondition::new(SlotIndex(3)).unwrap());
    assert_ne!(early, late);
}
