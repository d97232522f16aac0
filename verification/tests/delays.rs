use sashiko::ai::delay::{Delay, MAX_NANOS};
use sashiko::ai::quota::QuotaManager;
use sashiko::ai::transient::{backoff_multiplier, backoff_nanos, jitter_nanos, jittered};
use std::time::Duration;

fn secs(n: u64) -> Delay {
    Delay::from_secs(n)
}

#[test]
fn delays_have_seconds_and_nanoseconds() {
    let delay = Delay::from_nanos(12_000_000_345);
    assert_eq!((delay.as_secs(), delay.subsec_nanos()), (12, 345));
    assert_eq!(delay.as_nanos(), 12_000_000_345);
    assert_eq!(secs(3).as_nanos(), 3_000_000_000);
    let longest = Delay::from_nanos(MAX_NANOS);
    assert_eq!(
        Duration::new(longest.as_secs(), longest.subsec_nanos()),
        Duration::MAX
    );
    assert_eq!(Duration::MAX.as_nanos(), MAX_NANOS);
}

#[test]
fn multiplier_doubles_up_to_sixty() {
    let multipliers: Vec<u128> = (1..=9).map(backoff_multiplier).collect();
    assert_eq!(multipliers, vec![1, 2, 4, 8, 16, 32, 60, 60, 60]);
    assert_eq!(backoff_multiplier(u32::MAX), 60);
}

#[test]
fn multiplier_is_a_power_of_two_or_the_cap() {
    for streak in 1..40 {
        let expected = 2.0_f64.powi(streak - 1).min(60.0);
        assert_eq!(backoff_multiplier(streak as u32), expected as u128);
    }
}

#[test]
fn backoff_is_floored_by_what_the_server_asks_for() {
    assert_eq!(backoff_nanos(secs(1), 1, secs(0)), 1_000_000_000);
    assert_eq!(backoff_nanos(secs(1), 4, secs(7)), 8_000_000_000);
    assert_eq!(backoff_nanos(secs(1), 4, secs(8)), 8_000_000_000);
    assert_eq!(backoff_nanos(secs(1), 4, secs(9)), 9_000_000_000);
    assert_eq!(backoff_nanos(secs(2), 50, secs(9)), 120_000_000_000);
}

#[test]
fn jitter_is_a_quarter_of_the_backoff_times_the_draw() {
    assert_eq!(jitter_nanos(4_000_000_000, 0), 0);
    assert_eq!(jitter_nanos(4_000_000_000, 1 << 62), 250_000_000);
    assert_eq!(jitter_nanos(4_000_000_000, 1 << 63), 500_000_000);
    assert_eq!(jitter_nanos(4_000_000_000, u64::MAX), 1_000_000_000);
    assert_eq!(jitter_nanos(0, u64::MAX), 0);
    assert_eq!(jitter_nanos(7, u64::MAX), 2);
    assert_eq!(jittered(secs(4), 1 << 63).as_nanos(), 4_500_000_000);
    assert!(4 * jitter_nanos(MAX_NANOS, u64::MAX) <= MAX_NANOS + 1);
}

#[test]
fn jitter_agrees_with_floating_point() {
    for secs in [1u64, 2, 16, 59, 300, 4_321] {
        for draw in [0u64, 1 << 50, 3 << 61, 0x1234_5678_9abc_def0, u64::MAX] {
            let fraction = (draw >> 11) as f64 / (1u64 << 53) as f64;
            let backoff = Duration::from_secs(secs);
            let expected = (backoff + backoff.mul_f64(0.25 * fraction)).as_nanos();
            let sleep = jittered(Delay::from_secs(secs), draw).as_nanos();
            assert!(sleep.abs_diff(expected) <= 1, "{sleep} {expected}");
        }
    }
}

#[test]
fn a_rate_limit_blocks_until_its_window_is_over() {
    let mut quota = QuotaManager::new();
    assert_eq!(quota.wait_for_access(secs(0)), None);
    quota.report_quota_error(secs(10), secs(30));
    assert_eq!(quota.wait_for_access(secs(10)), Some(secs(30)));
    assert_eq!(quota.wait_for_access(secs(39)), Some(secs(1)));
    assert_eq!(quota.wait_for_access(secs(40)), None);
}

#[test]
fn a_block_is_extended_but_never_shortened() {
    let mut quota = QuotaManager::new();
    quota.report_quota_error(secs(10), secs(30));
    quota.report_quota_error(secs(12), secs(5));
    assert_eq!(quota.wait_for_access(secs(12)), Some(secs(28)));
    quota.report_quota_error(secs(20), secs(30));
    assert_eq!(quota.wait_for_access(secs(20)), Some(secs(30)));
}

#[test]
fn a_block_lasts_five_minutes_at_most() {
    let mut quota = QuotaManager::new();
    quota.report_quota_error(secs(10), secs(301));
    assert_eq!(quota.wait_for_access(secs(10)), Some(secs(300)));
    quota.report_quota_error(secs(10), secs(u64::MAX));
    assert_eq!(quota.wait_for_access(secs(10)), Some(secs(300)));
}

#[test]
fn a_success_clears_the_block() {
    let mut quota = QuotaManager::new();
    quota.report_quota_error(secs(10), secs(30));
    quota.report_success();
    assert_eq!(quota.wait_for_access(secs(10)), None);
}
