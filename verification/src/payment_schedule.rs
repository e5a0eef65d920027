//! Recurring-payment schedules: frequencies, status, parameter
//! validation and the due/funding arithmetic. Storage, token transfers
//! and event emission around these rules live with the host.

use vstd::prelude::*;
use crate::error::ContractError;

verus! {

#[derive(Clone, Copy, Debug, PartialEq, Eq, Structural)]
pub enum PaymentFrequency {
    Daily,
    Weekly,
    Monthly,
}

#[derive(Clone, Copy, Debug, PartialEq, Eq, Structural)]
pub enum ScheduleStatus {
    Active,
    Inactive,
    Cancelled,
    Completed,
}

/// One recurring payment schedule. Parties and the token are plain
/// `u64` identifiers, as in the oracle's registry.
#[derive(Clone, Copy, Debug, PartialEq, Eq)]
pub struct PaymentSchedule {
    pub id: u64,
    pub payer: u64,
    pub recipient: u64,
    pub token: u64,
    pub amount: u128,
    pub frequency: PaymentFrequency,
    pub status: ScheduleStatus,
    pub balance: u128,
    pub total_paid: u128,
    pub payment_count: u32,
    pub failed_attempts: u32,
    pub start_time: u64,
    pub end_time: Option<u64>,
    pub next_payment_time: u64,
    pub created_at: u64,
    pub last_payment_at: Option<u64>,
}

/// Seconds between two payments of a frequency.
pub open spec fn spec_payment_interval(frequency: PaymentFrequency) -> int {
    match frequency {
        PaymentFrequency::Daily => 86400,
        PaymentFrequency::Weekly => 604800,
        PaymentFrequency::Monthly => 2592000,
    }
}

/// When the next payment after `current_time` falls due.
pub fn calculate_next_payment_time(frequency: &PaymentFrequency, current_time: u64) -> (r: u64)
    requires
        current_time + spec_payment_interval(*frequency) <= u64::MAX,
    ensures
        r == current_time + spec_payment_interval(*frequency),
{
    match frequency {
        PaymentFrequency::Daily => current_time + 86400,
        PaymentFrequency::Weekly => current_time + 604800,
        PaymentFrequency::Monthly => current_time + 2592000,
    }
}

/// The funds a schedule must hold up front: one payment per full
/// interval between start and end (at least one), or three payments for
/// an open-ended schedule; saturating at the largest representable
/// amount.
pub open spec fn spec_required_funds(
    frequency: PaymentFrequency,
    amount: u128,
    start_time: u64,
    end_time: Option<u64>,
) -> int {
    match end_time {
        Some(end) => {
            let duration: int = if end >= start_time {
                end - start_time
            } else {
                0
            };
            let intervals = duration / spec_payment_interval(frequency);
            let payments = if intervals < 1 {
                1
            } else {
                intervals
            };
            if amount * payments > u128::MAX {
                u128::MAX as int
            } else {
                amount * payments
            }
        },
        None => {
            if amount * 3 > u128::MAX {
                u128::MAX as int
            } else {
                amount * 3
            }
        },
    }
}

pub fn calculate_required_funds(
    frequency: &PaymentFrequency,
    amount: u128,
    start_time: u64,
    end_time: Option<u64>,
) -> (r: u128)
    ensures
        r == spec_required_funds(*frequency, amount, start_time, end_time),
{
    match end_time {
        Some(end) => {
            let duration = end.saturating_sub(start_time);
            let payment_intervals: u64 = match frequency {
                PaymentFrequency::Daily => duration / 86400,
                PaymentFrequency::Weekly => duration / 604800,
                PaymentFrequency::Monthly => duration / 2592000,
            };
            let payments: u128 = if payment_intervals < 1 {
                1
            } else {
                payment_intervals as u128
            };
            match amount.checked_mul(payments) {
                Some(funds) => funds,
                None => u128::MAX,
            }
        },
        None => match amount.checked_mul(3) {
            Some(funds) => funds,
            None => u128::MAX,
        },
    }
}

/// A payment that failed fewer than three times may be retried.
pub fn should_retry_payment(failed_attempts: u32) -> (r: bool)
    ensures
        r == (failed_attempts < 3),
{
    failed_attempts < 3
}

/// What `validate_schedule_params` decides: a positive amount, distinct
/// parties, a start no earlier than now, and an end after the start.
pub open spec fn spec_validate_schedule_params(
    payer: u64,
    recipient: u64,
    amount: u128,
    start_time: u64,
    end_time: Option<u64>,
    current_time: u64,
) -> Result<(), ContractError> {
    if amount == 0 {
        Err(ContractError::InvalidAmount)
    } else if payer == recipient {
        Err(ContractError::InvalidInput)
    } else if start_time < current_time {
        Err(ContractError::InvalidStartTime)
    } else if end_time is Some && end_time->Some_0 <= start_time {
        Err(ContractError::InvalidEndTime)
    } else {
        Ok(())
    }
}

pub fn validate_schedule_params(
    payer: u64,
    recipient: u64,
    amount: u128,
    start_time: u64,
    end_time: Option<u64>,
    current_time: u64,
) -> (r: Result<(), ContractError>)
    ensures
        r == spec_validate_schedule_params(
            payer,
            recipient,
            amount,
            start_time,
            end_time,
            current_time,
        ),
{
    if amount == 0 {
        return Err(ContractError::InvalidAmount);
    }
    if payer == recipient {
        return Err(ContractError::InvalidInput);
    }
    if start_time < current_time {
        return Err(ContractError::InvalidStartTime);
    }
    if let Some(end) = end_time {
        if end <= start_time {
            return Err(ContractError::InvalidEndTime);
        }
    }
    Ok(())
}

/// Whether a payment is due now: the schedule must be funded, the first
/// payment waits for the start, later ones for their due time, and
/// nothing is due past the end.
pub open spec fn spec_can_execute_payment(schedule: PaymentSchedule, current_time: u64) -> bool {
    &&& schedule.balance >= schedule.amount
    &&& (schedule.payment_count == 0 ==> current_time >= schedule.start_time)
    &&& (schedule.payment_count != 0 ==> current_time >= schedule.next_payment_time)
    &&& (schedule.end_time is Some ==> current_time <= schedule.end_time->Some_0)
}

pub fn can_execute_payment(schedule: &PaymentSchedule, current_time: u64) -> (r: bool)
    ensures
        r == spec_can_execute_payment(*schedule, current_time),
{
    if schedule.balance < schedule.amount {
        return false;
    }
    if schedule.payment_count == 0 {
        if current_time < schedule.start_time {
            return false;
        }
    } else {
        if current_time < schedule.next_payment_time {
            return false;
        }
    }
    if let Some(end_time) = schedule.end_time {
        if current_time > end_time {
            return false;
        }
    }
    true
}

} // verus!
