//! A keyed token bucket: one bucket per client under one quota of so many
//! requests per period.

use vstd::prelude::*;

verus! {

/// Requests per second that the shield, the limiter in front of all
/// others, lets through from one client.
pub const SHIELD_REQUESTS_PER_SECOND: u32 = 30;

/// Bytes of memory that the shield may use: 64 MiB.
pub const SHIELD_MEMORY_LIMIT: usize = 67108864;

/// The buckets of a keyed limiter of `governor`, one per key. They change
/// with every check and with the clock, so the library sees nothing inside.
#[verifier::external_body]
struct Buckets {
    inner: governor::DefaultKeyedRateLimiter<String>,
}

/// Nanoseconds in a second.
pub const NANOS_PER_SEC: u64 = 1_000_000_000;

/// The longest period, in nanoseconds, that a quota may have: half of what
/// 64 bits hold. A bucket counts in nanoseconds since it was made, so this
/// leaves the other half, some 292 years, to the time that the process runs.
pub open spec fn bucket_span_limit() -> int {
    0x7FFF_FFFF_FFFF_FFFF
}

/// Whether a quota of `requests` per `period_secs` seconds is in force:
/// neither is zero.
pub open spec fn quota_is_live(period_secs: u64, requests: u32) -> bool {
    period_secs > 0 && requests > 0
}

/// Whether a period is short enough for a bucket to count it.
pub open spec fn period_fits(period_secs: u64) -> bool {
    period_secs * NANOS_PER_SEC <= bucket_span_limit()
}

/// Nanoseconds after which a bucket of `requests` per `period_secs`
/// seconds gets one cell back: the period divided evenly among the
/// requests, and never less than a nanosecond, the finest that a bucket
/// counts.
pub open spec fn refill_interval(period_secs: u64, requests: u32) -> int {
    let share = ((period_secs * NANOS_PER_SEC) as int) / (requests as int);
    if share < 1 {
        1
    } else {
        share
    }
}

/// A limiter that keeps one bucket per key. A bucket holds `requests`
/// cells when full and gets one back every `refill_nanos` nanoseconds, which
/// makes `requests` per period.
pub struct Limiter {
    period_secs: u64,
    requests: u32,
    refill_nanos: u64,
    buckets: Buckets,
}

/// `governor::RateLimiter::keyed` on the quota that refills one cell every
/// `refill_nanos` nanoseconds and holds at most `burst`, made with
/// `Quota::with_period` and `Quota::allow_burst`. The `requires` keeps the
/// nanoseconds of a full bucket within what governor counts in; nothing is
/// claimed of the limiter that comes back.
#[verifier::external_body]
fn keyed_buckets(refill_nanos: u64, burst: u32) -> (buckets: Buckets)
    requires
        refill_nanos > 0,
        burst > 0,
        refill_nanos * burst <= bucket_span_limit(),
{
    let every = std::time::Duration::from_nanos(refill_nanos);
    let burst = std::num::NonZeroU32::new(burst).unwrap();
    let quota = governor::Quota::with_period(every).unwrap().allow_burst(burst);
    Buckets { inner: governor::RateLimiter::keyed(quota) }
}

/// `RateLimiter::check_key`: whether the bucket of `key` lets one more
/// request through now. The answer depends on the clock and on what went
/// before, so nothing is claimed of it.
#[verifier::external_body]
fn check_key(buckets: &Buckets, key: &String) -> (allowed: bool) {
    buckets.inner.check_key(key).is_ok()
}

/// Whether a period is too long for a bucket to count it.
pub fn period_is_too_long(period_secs: u64) -> (r: bool)
    ensures
        r == !period_fits(period_secs),
{
    period_secs > 9_223_372_036
}

impl Limiter {
    /// Seconds in the period of the quota.
    pub closed spec fn period(self) -> u64 {
        self.period_secs
    }

    /// Cells that the bucket holds when full: the requests of the quota.
    pub closed spec fn burst(self) -> u32 {
        self.requests
    }

    /// Nanoseconds after which the bucket gets one cell back.
    pub closed spec fn refill(self) -> u64 {
        self.refill_nanos
    }

    /// A limiter of `requests` per `period_secs` seconds and key: a bucket
    /// holds `requests` cells and gets one back every
    /// `refill_interval(period_secs, requests)` nanoseconds. There is none
    /// where the quota is not in force, and none where the period is too
    /// long to count.
    pub fn new(period_secs: u64, requests: u32) -> (r: Option<Limiter>)
        ensures
            r is Some <==> quota_is_live(period_secs, requests) && period_fits(period_secs),
            r matches Some(limiter) ==> {
                &&& limiter.period() == period_secs
                &&& limiter.burst() == requests
                &&& limiter.refill() == refill_interval(period_secs, requests)
            },
    {
        if period_secs == 0 || requests == 0 || period_is_too_long(period_secs) {
            return None;
        }
        let nanos: u64 = period_secs * NANOS_PER_SEC;
        let share: u64 = nanos / (requests as u64);
        let refill_nanos: u64 = if share < 1 {
            1
        } else {
            share
        };
        assert(refill_nanos * requests <= bucket_span_limit()) by (nonlinear_arith)
            requires
                requests >= 1,
                nanos <= 0x7FFF_FFFF_FFFF_FFFFint,
                refill_nanos == if (nanos as int) / (requests as int) < 1 {
                    1
                } else {
                    (nanos as int) / (requests as int)
                },
        {
            if (nanos as int) / (requests as int) >= 1 {
                assert(((nanos as int) / (requests as int)) * requests <= nanos);
            }
        }
        Some(
            Limiter {
                period_secs,
                requests,
                refill_nanos,
                buckets: keyed_buckets(refill_nanos, requests),
            },
        )
    }

    /// Seconds in the period of the quota.
    pub fn period_secs(&self) -> (r: u64)
        ensures
            r == self.period(),
    {
        self.period_secs
    }

    /// Cells that the bucket holds when full.
    pub fn requests(&self) -> (r: u32)
        ensures
            r == self.burst(),
    {
        self.requests
    }

    /// Nanoseconds after which the bucket gets one cell back.
    pub fn refill_nanos(&self) -> (r: u64)
        ensures
            r == self.refill(),
    {
        self.refill_nanos
    }

    /// Takes one cell from the bucket of `key`; whether there was one.
    pub(crate) fn check(&self, key: &String) -> (allowed: bool) {
        check_key(&self.buckets, key)
    }
}

} // verus!
