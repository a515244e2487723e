use rust_worker::backoff::{calculate_retry_delay_seconds, next_idle_backoff_seconds};

#[test]
fn idle_backoff_is_bounded_and_monotonic() {
    let base = 5;
    let max = 20;
    assert_eq!(next_idle_backoff_seconds(5, base, max), 10);
    assert_eq!(next_idle_backoff_seconds(10, base, max), 20);
    assert_eq!(next_idle_backoff_seconds(20, base, max), 20);
    assert_eq!(next_idle_backoff_seconds(30, base, max), 20);
}

#[test]
fn idle_backoff_respects_floor_and_ceiling() {
    assert_eq!(next_idle_backoff_seconds(0, 0, 0), 1);
    assert_eq!(next_idle_backoff_seconds(0, 5, 30), 10);
    assert_eq!(next_idle_backoff_seconds(1, 5, 30), 10);
    assert_eq!(next_idle_backoff_seconds(7, 5, 3), 5);
    assert_eq!(next_idle_backoff_seconds(u64::MAX, 1, u64::MAX), u64::MAX);
    assert_eq!(next_idle_backoff_seconds(u64::MAX / 2 + 1, 1, u64::MAX), u64::MAX);
    let mut previous = 0;
    for current in 0..100 {
        let next = next_idle_backoff_seconds(current, 5, 30);
        assert!(5 <= next && next <= 30);
        assert!(previous <= next);
        previous = next;
    }
}

#[test]
fn retry_delay_doubles_up_to_the_ceiling() {
    assert_eq!(calculate_retry_delay_seconds(30, 3600, 0), 30);
    assert_eq!(calculate_retry_delay_seconds(30, 3600, 1), 30);
    assert_eq!(calculate_retry_delay_seconds(30, 3600, 2), 60);
    assert_eq!(calculate_retry_delay_seconds(30, 3600, 3), 120);
    assert_eq!(calculate_retry_delay_seconds(30, 3600, 7), 1920);
    assert_eq!(calculate_retry_delay_seconds(30, 3600, 8), 3600);
    assert_eq!(calculate_retry_delay_seconds(30, 1800, 7), 1800);
    assert_eq!(calculate_retry_delay_seconds(1, u64::MAX, 11), 1024);
    assert_eq!(calculate_retry_delay_seconds(1, u64::MAX, 12), 1024);
    assert_eq!(calculate_retry_delay_seconds(1, u64::MAX, 500), 1024);
    assert_eq!(calculate_retry_delay_seconds(1, u64::MAX, u64::MAX), 1024);
    assert_eq!(calculate_retry_delay_seconds(u64::MAX, 77, 3), 77);
    assert_eq!(calculate_retry_delay_seconds(u64::MAX, u64::MAX, 3), u64::MAX);
    assert_eq!(calculate_retry_delay_seconds(0, 10, 5), 0);
}

#[test]
fn retry_delay_is_monotonic_and_bounded() {
    let mut previous = 0;
    for count in 0..40 {
        let delay = calculate_retry_delay_seconds(30, 3600, count);
        assert!(delay <= 3600);
        assert!(30 <= delay);
        assert!(previous <= delay);
        previous = delay;
    }
}
