//! The shared I/O budget: a leaky bucket that paces all workers at a limit
//! in MiB per second.

use crate::db::{find_flagged, first_flagged};
use crate::text::text_equal;
use vstd::arithmetic::div_mod::{lemma_fundamental_div_mod, lemma_mod_bound};
use vstd::prelude::*;
use vstd::string::StringExecFns;

verus! {

/// One shared bucket of the rate limiter as the store holds it.
#[derive(Clone, Debug, PartialEq, Eq)]
pub struct IoBucketRow {
    pub bucket_key: String,
    pub next_available_at_ms: i64,
    pub updated_at: i64,
}

/// An [`IoBucketRow`] as plain values.
pub struct IoBucketView {
    pub bucket_key: Seq<char>,
    pub next_available_at_ms: i64,
    pub updated_at: i64,
}

impl View for IoBucketRow {
    type V = IoBucketView;

    open spec fn view(&self) -> IoBucketView {
        IoBucketView {
            bucket_key: self.bucket_key@,
            next_available_at_ms: self.next_available_at_ms,
            updated_at: self.updated_at,
        }
    }
}

/// The rows of a bucket table as plain values.
pub open spec fn bucket_views(rows: Seq<IoBucketRow>) -> Seq<IoBucketView> {
    rows.map_values(|row: IoBucketRow| row@)
}

/// Bytes per second that a limit in MiB per second allows.
pub open spec fn bytes_per_second(mib_per_sec: int) -> int {
    mib_per_sec * 1048576
}

/// The milliseconds that `bytes` cost under a limit: the time the bytes take
/// at the limit, rounded up to a whole millisecond.
pub open spec fn budget_millis(bytes: int, mib_per_sec: int) -> int {
    (bytes * 1000 + bytes_per_second(mib_per_sec) - 1) / bytes_per_second(mib_per_sec)
}

/// A number of milliseconds cut to what an instant can hold.
pub open spec fn clamp_instant(value: int) -> int {
    if value > i64::MAX {
        i64::MAX as int
    } else if value < i64::MIN {
        i64::MIN as int
    } else {
        value
    }
}

/// The instant up to which a bucket is taken once a budget has been
/// reserved at `now_ms`: the budget starts when the bucket is free, but not
/// before now.
pub open spec fn reserved_until(next_available_at_ms: int, now_ms: int, budget_ms: int) -> int {
    clamp_instant(
        if next_available_at_ms > now_ms {
            next_available_at_ms + budget_ms
        } else {
            now_ms + budget_ms
        },
    )
}

/// How long the caller waits before its budget starts: from now to the
/// start of the budget that ends at `reserved_until_ms`, and never less than
/// nothing.
pub open spec fn reservation_delay(reserved_until_ms: int, budget_ms: int, now_ms: int) -> int {
    let start = clamp_instant(reserved_until_ms - budget_ms);
    let wait = clamp_instant(start - now_ms);
    if wait < 0 {
        0
    } else {
        wait
    }
}

/// The milliseconds that `bytes` cost under a limit of `mib_per_sec`.
pub fn io_budget_millis(bytes: u64, mib_per_sec: u64) -> (budget_ms: i64)
    requires
        mib_per_sec > 0,
    ensures
        budget_ms == budget_millis(bytes as int, mib_per_sec as int),
        bytes > 0 ==> budget_ms >= 1,
{
    let per_second: u128 = (mib_per_sec as u128) * 1048576;
    let scaled: u128 = (bytes as u128) * 1000 + (per_second - 1);
    let budget: u128 = scaled / per_second;
    proof {
        let d = per_second as int;
        let x = scaled as int;
        let q = budget as int;
        lemma_fundamental_div_mod(x, d);
        lemma_mod_bound(x, d);
        assert(d * q <= x);
        assert(q <= 17592186044416001) by (nonlinear_arith)
            requires
                d * q <= x,
                x < bytes * 1000 + d,
                d >= 1048576,
                bytes < 18446744073709551616,
                q >= 0,
        ;
        if bytes > 0 {
            assert(q >= 1) by (nonlinear_arith)
                requires
                    x == d * q + (x % d),
                    x % d < d,
                    x >= d,
                    d > 0,
            ;
        }
    }
    budget as i64
}

/// The sum of two instants, cut to what an instant can hold.
fn add_clamped(a: i64, b: i64) -> (sum: i64)
    ensures
        sum == clamp_instant(a + b),
{
    match a.checked_add(b) {
        Some(sum) => sum,
        None => if b > 0 {
            i64::MAX
        } else {
            i64::MIN
        },
    }
}

/// The difference of two instants, cut to what an instant can hold.
fn sub_clamped(a: i64, b: i64) -> (difference: i64)
    ensures
        difference == clamp_instant(a - b),
{
    match a.checked_sub(b) {
        Some(difference) => difference,
        None => if b < 0 {
            i64::MAX
        } else {
            i64::MIN
        },
    }
}

/// Advances a bucket by a budget reserved at `now_ms`.
pub fn advance_bucket(next_available_at_ms: i64, now_ms: i64, budget_ms: i64) -> (reserved: i64)
    ensures
        reserved == reserved_until(next_available_at_ms as int, now_ms as int, budget_ms as int),
{
    if next_available_at_ms > now_ms {
        add_clamped(next_available_at_ms, budget_ms)
    } else {
        add_clamped(now_ms, budget_ms)
    }
}

/// The milliseconds to wait before a budget that ends at
/// `reserved_until_ms` starts.
pub fn delay_before_budget(reserved_until_ms: i64, budget_ms: i64, now_ms: i64) -> (delay_ms: u64)
    ensures
        delay_ms == reservation_delay(reserved_until_ms as int, budget_ms as int, now_ms as int),
{
    let start = sub_clamped(reserved_until_ms, budget_ms);
    let wait = sub_clamped(start, now_ms);
    if wait < 0 {
        0
    } else {
        wait as u64
    }
}

/// Which rows of a bucket table have the given key.
pub open spec fn bucket_key_flags(rows: Seq<IoBucketView>, key: Seq<char>) -> Seq<bool> {
    rows.map_values(|row: IoBucketView| row.bucket_key == key)
}

/// The bucket table with the bucket `key` in it: as it is where the bucket
/// exists, else with a new bucket at its end that is free from the start of
/// time.
pub open spec fn with_bucket(rows: Seq<IoBucketView>, key: Seq<char>, now: i64) -> Seq<
    IoBucketView,
> {
    if first_flagged(bucket_key_flags(rows, key)) is Some {
        rows
    } else {
        rows.push(IoBucketView { bucket_key: key, next_available_at_ms: 0, updated_at: now })
    }
}

/// The position of the bucket `key` in a table that holds it.
pub open spec fn bucket_position(rows: Seq<IoBucketView>, key: Seq<char>) -> int {
    match first_flagged(bucket_key_flags(rows, key)) {
        Some(i) => i,
        None => rows.len() as int,
    }
}

/// Whether a reservation costs anything: it does for a positive number of
/// bytes under a positive limit.
pub open spec fn is_limited(bytes: u64, mib_per_sec: Option<u64>) -> bool {
    &&& bytes > 0
    &&& mib_per_sec matches Some(limit)
    &&& limit > 0
}

/// What a reservation does: without a limit, with a limit of zero or for
/// no bytes, nothing is reserved and there is nothing to wait for; else the
/// bucket, which is made on first use, is advanced by the budget of the
/// bytes, and the caller waits until its budget starts.
pub open spec fn reservation_effect(
    before: Seq<IoBucketView>,
    after: Seq<IoBucketView>,
    delay_ms: u64,
    bucket_key: Seq<char>,
    bytes: u64,
    mib_per_sec: Option<u64>,
    now_ms: i64,
    now: i64,
) -> bool {
    if is_limited(bytes, mib_per_sec) {
        let rows = with_bucket(before, bucket_key, now);
        let i = bucket_position(before, bucket_key);
        let budget = budget_millis(bytes as int, mib_per_sec->0 as int);
        let reserved = reserved_until(rows[i].next_available_at_ms as int, now_ms as int, budget);
        &&& after == rows.update(
            i,
            IoBucketView { bucket_key, next_available_at_ms: reserved as i64, updated_at: now },
        )
        &&& delay_ms == reservation_delay(reserved, budget, now_ms as int)
    } else {
        delay_ms == 0 && after == before
    }
}

/// Reserves the budget for `bytes` in the shared bucket `bucket_key` and
/// tells how many milliseconds the caller has to wait before it may use the
/// budget.
pub fn reserve_global_io_budget(
    buckets: &mut Vec<IoBucketRow>,
    bucket_key: &str,
    bytes: u64,
    mib_per_sec: Option<u64>,
    now_ms: i64,
    now: i64,
) -> (delay_ms: u64)
    ensures
        reservation_effect(
            bucket_views(old(buckets)@),
            bucket_views(final(buckets)@),
            delay_ms,
            bucket_key@,
            bytes,
            mib_per_sec,
            now_ms,
            now,
        ),
{
    let limit = match mib_per_sec {
        Some(limit) => limit,
        None => {
            return 0;
        },
    };
    if bytes == 0 || limit == 0 {
        return 0;
    }
    let ghost before = bucket_views(buckets@);
    let mut flags: Vec<bool> = Vec::new();
    let mut i: usize = 0;
    while i < buckets.len()
        invariant
            i <= buckets.len(),
            flags@.len() == i,
            before == bucket_views(buckets@),
            forall|j: int| 0 <= j < i ==> #[trigger] flags@[j] == (before[j].bucket_key == bucket_key@),
        decreases buckets.len() - i,
    {
        flags.push(text_equal(buckets[i].bucket_key.as_str(), bucket_key));
        i += 1;
    }
    assert(flags@ =~= bucket_key_flags(before, bucket_key@));
    let position = match find_flagged(&flags) {
        Some(position) => position,
        None => {
            buckets.push(
                IoBucketRow {
                    bucket_key: String::from_str(bucket_key),
                    next_available_at_ms: 0,
                    updated_at: now,
                },
            );
            buckets.len() - 1
        },
    };
    let ghost rows = bucket_views(buckets@);
    assert(rows =~= with_bucket(before, bucket_key@, now));
    let budget_ms = io_budget_millis(bytes, limit);
    let row = &mut buckets[position];
    let reserved = advance_bucket(row.next_available_at_ms, now_ms, budget_ms);
    row.next_available_at_ms = reserved;
    row.updated_at = now;
    assert(bucket_views(buckets@) =~= rows.update(
        position as int,
        IoBucketView { bucket_key: bucket_key@, next_available_at_ms: reserved, updated_at: now },
    ));
    delay_before_budget(reserved, budget_ms, now_ms)
}

/// A budget is the time the bytes take at the limit, rounded up to a whole
/// millisecond: it is never shorter than that time and less than one
/// millisecond longer.
pub proof fn lemma_budget_is_exact_to_the_millisecond(bytes: int, mib_per_sec: int)
    requires
        0 <= bytes,
        1 <= mib_per_sec,
    ensures
        budget_millis(bytes, mib_per_sec) * bytes_per_second(mib_per_sec) >= bytes * 1000,
        (budget_millis(bytes, mib_per_sec) - 1) * bytes_per_second(mib_per_sec) < bytes * 1000,
{
    let d = bytes_per_second(mib_per_sec);
    let x = bytes * 1000 + d - 1;
    let q = budget_millis(bytes, mib_per_sec);
    lemma_fundamental_div_mod(x, d);
    lemma_mod_bound(x, d);
    assert(q * d == d * q) by (nonlinear_arith);
    assert((q - 1) * d == d * q - d) by (nonlinear_arith);
}

/// The sum of a list of budgets.
pub open spec fn total_budget(budgets: Seq<int>) -> int
    decreases budgets.len(),
{
    if budgets.len() == 0 {
        0
    } else {
        total_budget(budgets.drop_last()) + budgets.last()
    }
}

/// The instant up to which a bucket is taken after the budgets have been
/// reserved one after another at the same instant, where time has no end.
pub open spec fn reserved_after(next_available_at_ms: int, now_ms: int, budgets: Seq<int>) -> int
    decreases budgets.len(),
{
    if budgets.len() == 0 {
        next_available_at_ms
    } else {
        let before = reserved_after(next_available_at_ms, now_ms, budgets.drop_last());
        if before > now_ms {
            before + budgets.last()
        } else {
            now_ms + budgets.last()
        }
    }
}

/// Reservations made back to back pace the caller at the limit: after any
/// number of them the bucket is taken for exactly the sum of their budgets,
/// counted from now or from where the bucket was free, so the wait before the
/// last budget is the sum of all budgets but the last.
pub proof fn lemma_back_to_back_reservations(
    next_available_at_ms: int,
    now_ms: int,
    budgets: Seq<int>,
)
    requires
        budgets.len() > 0,
        forall|i: int| 0 <= i < budgets.len() ==> budgets[i] >= 0,
    ensures
        reserved_after(next_available_at_ms, now_ms, budgets) == (if next_available_at_ms > now_ms {
            next_available_at_ms
        } else {
            now_ms
        }) + total_budget(budgets),
        reserved_after(next_available_at_ms, now_ms, budgets) - budgets.last() - now_ms == (
        if next_available_at_ms > now_ms {
            next_available_at_ms - now_ms
        } else {
            0
        }) + total_budget(budgets.drop_last()),
        total_budget(budgets) >= 0,
    decreases budgets.len(),
{
    let front = budgets.drop_last();
    if front.len() > 0 {
        assert forall|i: int| 0 <= i < front.len() implies front[i] >= 0 by {
            assert(front[i] == budgets[i]);
        }
        lemma_back_to_back_reservations(next_available_at_ms, now_ms, front);
    } else {
        assert(total_budget(front) == 0);
        assert(reserved_after(next_available_at_ms, now_ms, front) == next_available_at_ms);
    }
    assert(budgets[budgets.len() - 1] >= 0);
}

} // verus!
