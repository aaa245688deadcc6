use vstd::prelude::*;
use crate::address::Address;
use crate::error::Error;
use crate::key::Key;
use crate::output::{Output, OutputData};
use crate::slot::SlotIndex;

verus! {

/// Whether `wallet_address` can unlock the output at `slot_index`: the
/// timelock, if any, has matured and the address required to unlock is the
/// wallet's. `None` where no required address can be told.
pub open spec fn spec_can_output_be_unlocked_now(
    wallet_address: Address,
    output_data: OutputData,
    slot_index: SlotIndex,
    min_committable_age: u32,
    max_committable_age: u32,
) -> Option<bool> {
    if output_data.output.unlock_conditions.spec_is_timelocked(slot_index, min_committable_age) {
        Some(false)
    } else {
        match output_data.output.spec_required_address(
            slot_index,
            min_committable_age,
            max_committable_age,
        ) {
            Some(required) => Some(wallet_address == required),
            None => None,
        }
    }
}

/// Whether it is safe to take the output as unlockable from `slot_index` on:
/// it has unlock conditions and its timelock, if any, has matured.
pub open spec fn spec_can_output_be_unlocked_forever_from_now_on(
    wallet_address: Address,
    output: Output,
    slot_index: SlotIndex,
    min_committable_age: u32,
    max_committable_age: u32,
) -> bool {
    output.unlock_conditions.spec_len() > 0 && !output.unlock_conditions.spec_is_timelocked(
        slot_index,
        min_committable_age,
    )
}

/// Check if an output can be unlocked by the wallet address at the current time.
///
/// Fails where the output is not timelocked and no address can be told that
/// is required to unlock it.
pub fn can_output_be_unlocked_now(
    wallet_address: &Address,
    output_data: &OutputData,
    slot_index: SlotIndex,
    min_committable_age: u32,
    max_committable_age: u32,
) -> (r: Result<bool, Error>)
    ensures
        match spec_can_output_be_unlocked_now(
            *wallet_address,
            *output_data,
            slot_index,
            min_committable_age,
            max_committable_age,
        ) {
            Some(can) => r == Ok::<bool, Error>(can),
            None => r == Err::<bool, Error>(Error::UnlockResolutionFailure),
        },
{
    if output_data.output.unlock_conditions.is_timelocked(slot_index, min_committable_age) {
        return Ok(false);
    }
    match output_data.output.required_address(slot_index, min_committable_age, max_committable_age) {
        Some(required) => Ok(wallet_address.key_eq(&required)),
        None => Err(Error::UnlockResolutionFailure),
    }
}

/// Check if an output can be unlocked by the wallet address at the current
/// time and at any point in the future.
pub fn can_output_be_unlocked_forever_from_now_on(
    wallet_address: &Address,
    output: &Output,
    slot_index: SlotIndex,
    min_committable_age: u32,
    max_committable_age: u32,
) -> (can: bool)
    ensures
        can == spec_can_output_be_unlocked_forever_from_now_on(
            *wallet_address,
            *output,
            slot_index,
            min_committable_age,
            max_committable_age,
        ),
{
    if output.unlock_conditions.is_empty() {
        false
    } else if output.unlock_conditions.is_timelocked(slot_index, min_committable_age) {
        false
    } else {
        true
    }
}

/// A timelock that has not matured decides both questions: the output can
/// be unlocked neither now nor from now on, whoever asks.
pub proof fn lemma_timelocked_cannot_be_unlocked(
    wallet_address: Address,
    output_data: OutputData,
    slot_index: SlotIndex,
    min_committable_age: u32,
    max_committable_age: u32,
)
    requires
        output_data.output.unlock_conditions.spec_is_timelocked(slot_index, min_committable_age),
    ensures
        output_data.output.unlock_conditions.timelock is Some,
        slot_index.0 + min_committable_age
            < output_data.output.unlock_conditions.timelock->Some_0.spec_slot_index().0,
        spec_can_output_be_unlocked_now(
            wallet_address,
            output_data,
            slot_index,
            min_committable_age,
            max_committable_age,
        ) == Some(false),
        !spec_can_output_be_unlocked_forever_from_now_on(
            wallet_address,
            output_data.output,
            slot_index,
            min_committable_age,
            max_committable_age,
        ),
{
}

} // verus!
