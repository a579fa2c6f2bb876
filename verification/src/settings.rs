//! What the user chose, kept between launches: how long a clip may live.

use vstd::prelude::*;

verus! {

/// Seconds in a day.
pub const SECS_PER_DAY: u64 = 86_400;

/// Days a clip may live when the user chose nothing. `0` means no expiry.
pub const DEFAULT_RETENTION_DAYS: u32 = 7;

/// The choices the settings window offers, in order. `0` turns expiry off.
pub const RETENTION_CHOICES: [u32; 4] = [1, 7, 30, 0];

/// The retention a settings file without the field reads as.
pub fn default_retention() -> (days: u32)
    ensures
        days == DEFAULT_RETENTION_DAYS,
{
    DEFAULT_RETENTION_DAYS
}

/// The age limit a retention choice stands for, in seconds.
pub open spec fn spec_max_age_secs(retention_days: u32) -> Option<u64> {
    if retention_days == 0 {
        None
    } else {
        Some((retention_days * SECS_PER_DAY) as u64)
    }
}

/// Seconds a clip may live, or `None` when the user turned expiry off.
pub fn max_age_secs(retention_days: u32) -> (r: Option<u64>)
    ensures
        r == spec_max_age_secs(retention_days),
{
    if retention_days == 0 {
        None
    } else {
        assert(retention_days * SECS_PER_DAY <= u64::MAX) by (nonlinear_arith)
            requires retention_days <= u32::MAX;
        Some((retention_days as u64) * SECS_PER_DAY)
    }
}

} // verus!
