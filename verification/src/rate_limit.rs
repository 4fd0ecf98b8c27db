//! Rate limits: how many requests per minute become a period and a burst.

use vstd::prelude::*;

verus! {

/// A rate: one request per period, and a burst on top.
#[derive(Clone, Copy, Debug, PartialEq, Eq, Structural)]
pub struct RateLimit {
    pub period_millis: u64,
    pub burst_size: u32,
}

/// The milliseconds between two requests: a minute for a limit of none, and
/// never less than one.
pub open spec fn period_millis(per_minute: u32) -> int {
    if per_minute == 0 {
        60000
    } else if 60000int / (per_minute as int) < 1 {
        1
    } else {
        60000int / (per_minute as int)
    }
}

/// Turns a per-minute limit into the milliseconds between two requests.
pub fn per_minute_to_period(per_minute: u32) -> (r: u64)
    ensures
        r == period_millis(per_minute),
{
    if per_minute == 0 {
        return 60000;
    }
    let millis: u64 = 60000 / (per_minute as u64);
    if millis < 1 {
        1
    } else {
        millis
    }
}

/// The rate for a per-minute limit and a burst, both at least one.
pub fn rate_limit(per_minute: u32, burst_size: u32) -> (r: RateLimit)
    ensures
        r.period_millis == period_millis(per_minute),
        r.burst_size == if burst_size == 0 {
            1
        } else {
            burst_size
        },
{
    RateLimit {
        period_millis: per_minute_to_period(per_minute),
        burst_size: if burst_size == 0 {
            1
        } else {
            burst_size
        },
    }
}

/// A higher limit never means a longer wait.
pub proof fn law_higher_limits_wait_no_longer(lower: u32, higher: u32)
    requires
        lower <= higher,
    ensures
        period_millis(higher) <= period_millis(lower),
{
    if lower > 0 {
        assert(60000int / (higher as int) <= 60000int / (lower as int)) by (nonlinear_arith)
            requires
                0 < lower <= higher,
        ;
    } else if higher > 0 {
        assert(60000int / (higher as int) <= 60000int) by (nonlinear_arith)
            requires
                0 < higher,
        ;
    }
}

/// As long as a minute has a millisecond for each request, the period allows
/// at least as many requests a minute as the limit says.
pub proof fn law_limit_is_reached(per_minute: u32)
    requires
        0 < per_minute <= 60000,
    ensures
        per_minute * period_millis(per_minute) <= 60000,
{
    assert(60000int / (per_minute as int) >= 1 && per_minute * (60000int / (per_minute as int))
        <= 60000) by (nonlinear_arith)
        requires
            0 < per_minute <= 60000,
    ;
}

/// The period is the longest number of whole milliseconds that lets as many
/// requests into a minute as the limit says. Past a thousand a second it is one
/// millisecond, and a limit of none means one request a minute.
pub proof fn law_periods_are_as_long_as_allowed(per_minute: u32)
    ensures
        per_minute == 0 ==> period_millis(per_minute) == 60000,
        per_minute > 60000 ==> period_millis(per_minute) == 1,
        0 < per_minute <= 60000 ==> per_minute * period_millis(per_minute) <= 60000 < per_minute * (
        period_millis(per_minute) + 1),
{
    if per_minute > 60000 {
        assert(60000int / (per_minute as int) == 0) by (nonlinear_arith)
            requires
                per_minute > 60000,
        ;
    } else if per_minute > 0 {
        assert(60000int / (per_minute as int) >= 1 && per_minute * (60000int / (per_minute as int))
            <= 60000 < per_minute * (60000int / (per_minute as int) + 1)) by (nonlinear_arith)
            requires
                0 < per_minute <= 60000,
        ;
    }
}

} // verus!
