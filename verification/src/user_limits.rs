//! Per-user spending limits with daily and monthly windows that reset
//! after a fixed period.

use vstd::prelude::*;

verus! {

/// Seconds in a day.
pub const DAILY_RESET_PERIOD: u64 = 86400;

/// Approximate seconds in a month (30.44 days).
pub const MONTHLY_RESET_PERIOD: u64 = 2629746;

/// A user's spending limits and what has been spent against them since
/// the last resets.
#[derive(Clone, Copy, Debug, PartialEq, Eq, Structural)]
pub struct UserLimits {
    pub daily_limit: i128,
    pub monthly_limit: i128,
    pub daily_spent: i128,
    pub monthly_spent: i128,
    pub last_daily_reset: u64,
    pub last_monthly_reset: u64,
    pub is_active: bool,
}

impl Default for UserLimits {
    /// The default limits: 1000 units daily and 10000 monthly, in seven
    /// decimal places, nothing spent, active, with both windows anchored
    /// at time zero.
    fn default() -> (r: UserLimits)
        ensures
            r == (UserLimits {
                daily_limit: 1000_0000000,
                monthly_limit: 10000_0000000,
                daily_spent: 0,
                monthly_spent: 0,
                last_daily_reset: 0,
                last_monthly_reset: 0,
                is_active: true,
            }),
    {
        UserLimits {
            daily_limit: 1000_0000000,
            monthly_limit: 10000_0000000,
            daily_spent: 0,
            monthly_spent: 0,
            last_daily_reset: 0,
            last_monthly_reset: 0,
            is_active: true,
        }
    }
}

impl UserLimits {
    pub fn new(daily_limit: i128, monthly_limit: i128, current_time: u64) -> (r: UserLimits)
        ensures
            r == (UserLimits {
                daily_limit,
                monthly_limit,
                daily_spent: 0,
                monthly_spent: 0,
                last_daily_reset: current_time,
                last_monthly_reset: current_time,
                is_active: true,
            }),
    {
        UserLimits {
            daily_limit,
            monthly_limit,
            daily_spent: 0,
            monthly_spent: 0,
            last_daily_reset: current_time,
            last_monthly_reset: current_time,
            is_active: true,
        }
    }

    /// Once a full day has passed since the last daily reset, the daily
    /// window starts over.
    pub fn reset_daily_if_needed(&mut self, current_time: u64) -> (reset: bool)
        requires
            old(self).last_daily_reset + DAILY_RESET_PERIOD <= u64::MAX,
        ensures
            reset == (current_time >= old(self).last_daily_reset + DAILY_RESET_PERIOD),
            reset ==> *final(self) == (UserLimits {
                daily_spent: 0,
                last_daily_reset: current_time,
                ..*old(self)
            }),
            !reset ==> *final(self) == *old(self),
    {
        if current_time >= self.last_daily_reset + DAILY_RESET_PERIOD {
            self.daily_spent = 0;
            self.last_daily_reset = current_time;
            true
        } else {
            false
        }
    }

    /// Once a full month has passed since the last monthly reset, the
    /// monthly window starts over.
    pub fn reset_monthly_if_needed(&mut self, current_time: u64) -> (reset: bool)
        requires
            old(self).last_monthly_reset + MONTHLY_RESET_PERIOD <= u64::MAX,
        ensures
            reset == (current_time >= old(self).last_monthly_reset + MONTHLY_RESET_PERIOD),
            reset ==> *final(self) == (UserLimits {
                monthly_spent: 0,
                last_monthly_reset: current_time,
                ..*old(self)
            }),
            !reset ==> *final(self) == *old(self),
    {
        if current_time >= self.last_monthly_reset + MONTHLY_RESET_PERIOD {
            self.monthly_spent = 0;
            self.last_monthly_reset = current_time;
            true
        } else {
            false
        }
    }

    /// An amount may be spent only while the limits are active and it
    /// fits under both windows' limits.
    pub fn can_spend(&self, amount: i128) -> (r: bool)
        requires
            i128::MIN <= self.daily_spent + amount <= i128::MAX,
            i128::MIN <= self.monthly_spent + amount <= i128::MAX,
        ensures
            r == (self.is_active && self.daily_spent + amount <= self.daily_limit
                && self.monthly_spent + amount <= self.monthly_limit),
    {
        if !self.is_active {
            return false;
        }
        self.daily_spent + amount <= self.daily_limit && self.monthly_spent + amount
            <= self.monthly_limit
    }

    /// Count an amount against both windows.
    pub fn add_spending(&mut self, amount: i128)
        requires
            i128::MIN <= old(self).daily_spent + amount <= i128::MAX,
            i128::MIN <= old(self).monthly_spent + amount <= i128::MAX,
        ensures
            *final(self) == (UserLimits {
                daily_spent: (old(self).daily_spent + amount) as i128,
                monthly_spent: (old(self).monthly_spent + amount) as i128,
                ..*old(self)
            }),
    {
        self.daily_spent = self.daily_spent + amount;
        self.monthly_spent = self.monthly_spent + amount;
    }

    /// What is left of the daily limit, never below zero.
    pub fn get_remaining_daily(&self) -> (r: i128)
        requires
            i128::MIN <= self.daily_limit - self.daily_spent <= i128::MAX,
        ensures
            r == if self.daily_limit - self.daily_spent >= 0 {
                self.daily_limit - self.daily_spent
            } else {
                0
            },
    {
        let remaining = self.daily_limit - self.daily_spent;
        if remaining < 0 {
            0
        } else {
            remaining
        }
    }

    /// What is left of the monthly limit, never below zero.
    pub fn get_remaining_monthly(&self) -> (r: i128)
        requires
            i128::MIN <= self.monthly_limit - self.monthly_spent <= i128::MAX,
        ensures
            r == if self.monthly_limit - self.monthly_spent >= 0 {
                self.monthly_limit - self.monthly_spent
            } else {
                0
            },
    {
        let remaining = self.monthly_limit - self.monthly_spent;
        if remaining < 0 {
            0
        } else {
            remaining
        }
    }
}

} // verus!
