//! Per-client rate-limit quota derived from a requests-per-minute setting.

use vstd::prelude::*;

verus! {

/// Milliseconds between two refilled tokens for a limit of `rpm` requests per minute.
pub open spec fn spec_refill_period_ms(rpm: u32) -> int {
    let r: int = if rpm < 1 { 1 } else { rpm as int };
    let p: int = 60_000int / r;
    if p < 1 { 1 } else { p }
}

/// Burst size (bucket capacity) for a limit of `rpm` requests per minute.
pub open spec fn spec_burst_size(rpm: u32) -> int {
    let b: int = rpm as int / 10;
    if b < 10 { 10 } else { b }
}

/// Token-bucket quota for the per-IP rate limiter: `(refill period in ms, burst size)`.
///
/// The limit is read as an average of `rate_limit_rpm` requests per minute per client:
/// one token is refilled every `60000 / rpm` milliseconds (at least 1 ms, with `rpm`
/// taken as at least 1) and the bucket holds `rpm / 10` tokens, at least 10.
pub fn rate_limit_quota(rate_limit_rpm: u32) -> (quota: (u64, u32))
    ensures
        quota.0 == spec_refill_period_ms(rate_limit_rpm),
        quota.1 == spec_burst_size(rate_limit_rpm),
        quota.0 >= 1,
        quota.1 >= 10,
{
    let rpm: u64 = if rate_limit_rpm < 1 { 1 } else { rate_limit_rpm as u64 };
    let q: u64 = 60_000u64 / rpm;
    let period_ms: u64 = if q < 1 { 1 } else { q };
    let b: u32 = rate_limit_rpm / 10;
    let burst: u32 = if b < 10 { 10 } else { b };
    (period_ms, burst)
}

} // verus!
