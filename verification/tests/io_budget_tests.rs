use rust_worker::io_budget::{
    advance_bucket, delay_before_budget, io_budget_millis, reserve_global_io_budget, IoBucketRow,
};

#[test]
fn budget_is_the_transfer_time_rounded_up() {
    assert_eq!(io_budget_millis(1024 * 1024, 1), 1000);
    assert_eq!(io_budget_millis(1024 * 1024 + 1, 1), 1001);
    assert_eq!(io_budget_millis(1, 1), 1);
    assert_eq!(io_budget_millis(1048, 1), 1);
    assert_eq!(io_budget_millis(1049, 1), 2);
    assert_eq!(io_budget_millis(0, 5), 0);
    assert_eq!(io_budget_millis(10 * 1024 * 1024, 4), 2500);
    assert_eq!(io_budget_millis(u64::MAX, 1), 17592186044416000);
    assert_eq!(io_budget_millis(u64::MAX, u64::MAX), 1);
}

#[test]
fn bucket_advances_from_now_or_from_where_it_is_free() {
    assert_eq!(advance_bucket(0, 1000, 250), 1250);
    assert_eq!(advance_bucket(1000, 1000, 250), 1250);
    assert_eq!(advance_bucket(1500, 1000, 250), 1750);
    assert_eq!(advance_bucket(i64::MAX, 0, 5), i64::MAX);
    assert_eq!(delay_before_budget(1250, 250, 1000), 0);
    assert_eq!(delay_before_budget(1750, 250, 1000), 500);
    assert_eq!(delay_before_budget(100, 250, 1000), 0);
}

#[test]
fn reservations_without_limit_cost_nothing() {
    let mut buckets: Vec<IoBucketRow> = Vec::new();
    assert_eq!(reserve_global_io_budget(&mut buckets, "b", 1 << 20, None, 1000, 1), 0);
    assert_eq!(reserve_global_io_budget(&mut buckets, "b", 1 << 20, Some(0), 1000, 1), 0);
    assert_eq!(reserve_global_io_budget(&mut buckets, "b", 0, Some(4), 1000, 1), 0);
    assert!(buckets.is_empty());
}

#[test]
fn back_to_back_reservations_pace_at_the_limit() {
    let mut buckets: Vec<IoBucketRow> = Vec::new();
    let mib = 1024 * 1024;
    assert_eq!(reserve_global_io_budget(&mut buckets, "thumbnail_io_global", mib, Some(2), 10_000, 10), 0);
    assert_eq!(buckets.len(), 1);
    assert_eq!(buckets[0].bucket_key, "thumbnail_io_global");
    assert_eq!(buckets[0].next_available_at_ms, 10_500);
    assert_eq!(buckets[0].updated_at, 10);
    assert_eq!(reserve_global_io_budget(&mut buckets, "thumbnail_io_global", mib, Some(2), 10_000, 10), 500);
    assert_eq!(reserve_global_io_budget(&mut buckets, "thumbnail_io_global", 2 * mib, Some(2), 10_000, 10), 1000);
    assert_eq!(buckets[0].next_available_at_ms, 12_000);
    assert_eq!(reserve_global_io_budget(&mut buckets, "other", mib, Some(1), 10_000, 11), 0);
    assert_eq!(buckets.len(), 2);
    assert_eq!(buckets[1].next_available_at_ms, 11_000);
    assert_eq!(reserve_global_io_budget(&mut buckets, "thumbnail_io_global", mib, Some(2), 20_000, 20), 0);
    assert_eq!(buckets[0].next_available_at_ms, 20_500);

    let mut total_budget = 0;
    let mut last_delay = 0;
    let mut paced: Vec<IoBucketRow> = Vec::new();
    let sizes = [3 * mib + 17, 5, mib / 2, 7 * mib];
    for bytes in sizes {
        last_delay = reserve_global_io_budget(&mut paced, "b", bytes, Some(3), 0, 0);
        total_budget += io_budget_millis(bytes, 3) as u64;
    }
    assert_eq!(paced[0].next_available_at_ms as u64, total_budget);
    assert_eq!(last_delay, total_budget - io_budget_millis(7 * mib, 3) as u64);
    let all_bytes: u64 = sizes.iter().sum();
    let exact_ms = all_bytes * 1000 / (3 * mib);
    assert!(exact_ms <= total_budget && total_budget <= exact_ms + sizes.len() as u64);
}
