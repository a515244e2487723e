//! The two backoff schedules: retries of failed work and polls of an idle
//! daemon.

use vstd::arithmetic::power2::{lemma2_to64, lemma_pow2_pos, lemma_pow2_strictly_increases, pow2};
use vstd::bits::lemma_u64_shl_is_mul;
use vstd::prelude::*;

verus! {

/// Largest exponent the retry schedule ever applies to the base delay.
pub const MAX_BACKOFF_EXPONENT: u64 = 10;

/// The exponent used after `error_count` consecutive failures: one less than
/// the count, never negative, never above [`MAX_BACKOFF_EXPONENT`].
pub open spec fn backoff_exponent(error_count: int) -> nat {
    if error_count <= 1 {
        0
    } else if error_count - 1 >= MAX_BACKOFF_EXPONENT {
        MAX_BACKOFF_EXPONENT as nat
    } else {
        (error_count - 1) as nat
    }
}

/// The retry schedule: the base delay doubled once per failure after the
/// first, at most ten times, and never above `max_seconds`.
pub open spec fn retry_delay(base_seconds: int, max_seconds: int, error_count: int) -> int {
    let doubled = base_seconds * pow2(backoff_exponent(error_count));
    if doubled <= max_seconds {
        doubled
    } else {
        max_seconds
    }
}

/// Seconds to wait before the next attempt after `error_count` failures.
pub fn calculate_retry_delay_seconds(
    base_seconds: u64,
    max_seconds: u64,
    error_count: u64,
) -> (delay: u64)
    ensures
        delay == retry_delay(base_seconds as int, max_seconds as int, error_count as int),
{
    let reduced: u64 = error_count.saturating_sub(1);
    let capped_power: u64 = if reduced < MAX_BACKOFF_EXPONENT {
        reduced
    } else {
        MAX_BACKOFF_EXPONENT
    };
    proof {
        lemma2_to64();
        if capped_power < 10 {
            lemma_pow2_strictly_increases(capped_power as nat, 10);
        }
        lemma_u64_shl_is_mul(1, capped_power);
    }
    let factor: u64 = 1u64 << capped_power;
    match base_seconds.checked_mul(factor) {
        Some(doubled) => if doubled <= max_seconds {
            doubled
        } else {
            max_seconds
        },
        None => max_seconds,
    }
}

/// The retry schedule never exceeds its ceiling, never waits less than the
/// smaller of base and ceiling, and never shortens as failures accumulate.
pub proof fn lemma_retry_delay_monotonic_and_bounded(
    base_seconds: int,
    max_seconds: int,
    fewer: int,
    more: int,
)
    requires
        0 <= base_seconds,
        fewer <= more,
    ensures
        retry_delay(base_seconds, max_seconds, fewer) <= retry_delay(
            base_seconds,
            max_seconds,
            more,
        ),
        retry_delay(base_seconds, max_seconds, more) <= max_seconds,
        base_seconds <= max_seconds ==> base_seconds <= retry_delay(
            base_seconds,
            max_seconds,
            fewer,
        ),
{
    let low = backoff_exponent(fewer);
    let high = backoff_exponent(more);
    assert(low <= high);
    if low < high {
        lemma_pow2_strictly_increases(low, high);
    }
    lemma_pow2_pos(low);
    let p = pow2(low) as int;
    let q = pow2(high) as int;
    assert(base_seconds * p <= base_seconds * q) by (nonlinear_arith)
        requires
            0 <= base_seconds,
            p <= q,
    ;
    assert(base_seconds <= base_seconds * p) by (nonlinear_arith)
        requires
            0 <= base_seconds,
            1 <= p,
    ;
}

/// The poll interval that serves as floor of the idle backoff: `base`, but at
/// least one second.
pub open spec fn idle_floor(base: int) -> int {
    if base < 1 {
        1
    } else {
        base
    }
}

/// The ceiling of the idle backoff: `max`, but never below the floor.
pub open spec fn idle_ceiling(base: int, max: int) -> int {
    if max < idle_floor(base) {
        idle_floor(base)
    } else {
        max
    }
}

/// The idle backoff after one more idle cycle: the current one, raised to the
/// floor, doubled and cut at the ceiling.
pub open spec fn idle_backoff(current: int, base: int, max: int) -> int {
    let raised = if current < idle_floor(base) {
        idle_floor(base)
    } else {
        current
    };
    if 2 * raised <= idle_ceiling(base, max) {
        2 * raised
    } else {
        idle_ceiling(base, max)
    }
}

/// Seconds to sleep after the next idle cycle, given the current backoff.
pub fn next_idle_backoff_seconds(current: u64, base: u64, max: u64) -> (next: u64)
    ensures
        next == idle_backoff(current as int, base as int, max as int),
{
    let bounded_base: u64 = if base < 1 {
        1
    } else {
        base
    };
    let bounded_max: u64 = if max < bounded_base {
        bounded_base
    } else {
        max
    };
    let raised: u64 = if current < bounded_base {
        bounded_base
    } else {
        current
    };
    match raised.checked_mul(2) {
        Some(doubled) => if doubled <= bounded_max {
            doubled
        } else {
            bounded_max
        },
        None => bounded_max,
    }
}

/// The idle backoff stays between floor and ceiling, grows with the current
/// backoff, and never falls below a current backoff that is within the
/// ceiling.
pub proof fn lemma_idle_backoff_monotonic_and_bounded(smaller: int, larger: int, base: int, max: int)
    requires
        smaller <= larger,
    ensures
        idle_floor(base) <= idle_backoff(smaller, base, max) <= idle_ceiling(base, max),
        idle_backoff(smaller, base, max) <= idle_backoff(larger, base, max),
        smaller <= idle_ceiling(base, max) ==> smaller <= idle_backoff(smaller, base, max),
{
}

} // verus!
