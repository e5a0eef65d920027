//! Payment-schedule rules and per-user spending limits on concrete
//! values.

use price_oracle::error::ContractError;
use price_oracle::payment_schedule::{
    calculate_next_payment_time, calculate_required_funds, can_execute_payment,
    should_retry_payment, validate_schedule_params, PaymentFrequency, PaymentSchedule,
    ScheduleStatus,
};
use price_oracle::user_limits::UserLimits;

#[test]
fn test_next_payment_time() {
    assert_eq!(calculate_next_payment_time(&PaymentFrequency::Daily, 1000), 1000 + 86400);
    assert_eq!(calculate_next_payment_time(&PaymentFrequency::Weekly, 1000), 1000 + 604800);
    assert_eq!(calculate_next_payment_time(&PaymentFrequency::Monthly, 1000), 1000 + 2592000);
}

#[test]
fn test_required_funds() {
    // ten full days between start and end: ten daily payments
    assert_eq!(
        calculate_required_funds(&PaymentFrequency::Daily, 50, 0, Some(864000)),
        500
    );
    // less than one interval still requires one payment
    assert_eq!(
        calculate_required_funds(&PaymentFrequency::Weekly, 50, 0, Some(1000)),
        50
    );
    // open-ended schedules require three payments up front
    assert_eq!(calculate_required_funds(&PaymentFrequency::Monthly, 50, 0, None), 150);
    // the requirement saturates instead of overflowing
    assert_eq!(
        calculate_required_funds(&PaymentFrequency::Daily, u128::MAX, 0, None),
        u128::MAX
    );
}

#[test]
fn test_should_retry_payment() {
    assert!(should_retry_payment(0));
    assert!(should_retry_payment(2));
    assert!(!should_retry_payment(3));
}

#[test]
fn test_validate_schedule_params() {
    assert!(validate_schedule_params(1, 2, 100, 50, Some(200), 50).is_ok());
    assert_eq!(
        validate_schedule_params(1, 2, 0, 50, Some(200), 50),
        Err(ContractError::InvalidAmount)
    );
    assert_eq!(
        validate_schedule_params(1, 1, 100, 50, Some(200), 50),
        Err(ContractError::InvalidInput)
    );
    assert_eq!(
        validate_schedule_params(1, 2, 100, 40, Some(200), 50),
        Err(ContractError::InvalidStartTime)
    );
    assert_eq!(
        validate_schedule_params(1, 2, 100, 50, Some(50), 50),
        Err(ContractError::InvalidEndTime)
    );
}

fn schedule() -> PaymentSchedule {
    PaymentSchedule {
        id: 1,
        payer: 1,
        recipient: 2,
        token: 3,
        amount: 100,
        frequency: PaymentFrequency::Daily,
        status: ScheduleStatus::Active,
        balance: 500,
        total_paid: 0,
        payment_count: 0,
        failed_attempts: 0,
        start_time: 1000,
        end_time: Some(10000),
        next_payment_time: 2000,
        created_at: 900,
        last_payment_at: None,
    }
}

#[test]
fn test_can_execute_payment() {
    // first payment waits for the start time
    assert!(!can_execute_payment(&schedule(), 999));
    assert!(can_execute_payment(&schedule(), 1000));
    // later payments wait for their due time
    let later = PaymentSchedule { payment_count: 1, ..schedule() };
    assert!(!can_execute_payment(&later, 1999));
    assert!(can_execute_payment(&later, 2000));
    // an underfunded schedule never pays
    let broke = PaymentSchedule { balance: 99, ..schedule() };
    assert!(!can_execute_payment(&broke, 1000));
    // nothing is due past the end
    assert!(!can_execute_payment(&schedule(), 10001));
}

#[test]
fn test_user_limits_new_and_default() {
    let limits = UserLimits::new(500, 2000, 100);
    assert_eq!(limits.daily_limit, 500);
    assert_eq!(limits.monthly_limit, 2000);
    assert_eq!(limits.daily_spent, 0);
    assert_eq!(limits.last_daily_reset, 100);
    assert!(limits.is_active);
    let defaults = UserLimits::default();
    assert_eq!(defaults.daily_limit, 1000_0000000);
    assert_eq!(defaults.monthly_limit, 10000_0000000);
    assert!(defaults.is_active);
}

#[test]
fn test_user_limits_can_spend() {
    let mut limits = UserLimits::new(500, 800, 0);
    assert!(limits.can_spend(500));
    assert!(!limits.can_spend(501));
    limits.add_spending(400);
    assert!(limits.can_spend(100));
    assert!(!limits.can_spend(101));
    // the monthly window binds even when the daily one would allow it
    limits.add_spending(400);
    assert_eq!(limits.monthly_spent, 800);
    assert!(!limits.can_spend(1));
    // inactive limits allow nothing
    let mut off = UserLimits::new(500, 800, 0);
    off.is_active = false;
    assert!(!off.can_spend(1));
}

#[test]
fn test_user_limits_remaining() {
    let mut limits = UserLimits::new(500, 2000, 0);
    limits.add_spending(300);
    assert_eq!(limits.get_remaining_daily(), 200);
    assert_eq!(limits.get_remaining_monthly(), 1700);
    limits.add_spending(300);
    // overspending never reports negative headroom
    assert_eq!(limits.get_remaining_daily(), 0);
    assert_eq!(limits.get_remaining_monthly(), 1400);
}

#[test]
fn test_user_limits_daily_reset() {
    let mut limits = UserLimits::new(500, 2000, 1000);
    limits.add_spending(400);
    // within the same day nothing resets
    assert!(!limits.reset_daily_if_needed(1000 + 86399));
    assert_eq!(limits.daily_spent, 400);
    // a day later the daily window starts over, the monthly one stands
    assert!(limits.reset_daily_if_needed(1000 + 86400));
    assert_eq!(limits.daily_spent, 0);
    assert_eq!(limits.last_daily_reset, 1000 + 86400);
    assert_eq!(limits.monthly_spent, 400);
}

#[test]
fn test_user_limits_monthly_reset() {
    let mut limits = UserLimits::new(500, 2000, 1000);
    limits.add_spending(400);
    assert!(!limits.reset_monthly_if_needed(1000 + 2629745));
    assert_eq!(limits.monthly_spent, 400);
    assert!(limits.reset_monthly_if_needed(1000 + 2629746));
    assert_eq!(limits.monthly_spent, 0);
    assert_eq!(limits.daily_spent, 400);
}
