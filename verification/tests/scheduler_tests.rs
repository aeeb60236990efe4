//! Tests for the failure counter and the backoff interval.

use epaper_display::scheduler::FailureCounter;
use epaper_display::scheduler::effective_interval_secs;

#[test]
fn below_threshold_interval_is_unchanged() {
    for f in 0..5u32 {
        assert_eq!(effective_interval_secs(f, 600), 600);
        assert_eq!(effective_interval_secs(f, 1), 1);
    }
}

#[test]
fn at_threshold_interval_doubles() {
    assert_eq!(effective_interval_secs(5, 600), 1200);
    assert_eq!(effective_interval_secs(6, 600), 2400);
    assert_eq!(effective_interval_secs(7, 600), 3600); // 4800 capped
}

#[test]
fn backoff_is_nondecreasing_up_to_the_cap() {
    let base = 60u64;
    let mut prev = 0u64;
    for f in 5..30u32 {
        let eff = effective_interval_secs(f, base);
        assert!(eff >= prev);
        assert!(eff <= 3600);
        prev = eff;
    }
    // The exponent caps at six doublings.
    assert_eq!(effective_interval_secs(10, 30), 1920);
    assert_eq!(effective_interval_secs(100, 30), 1920);
}

#[test]
fn backoff_caps_at_one_hour() {
    assert_eq!(effective_interval_secs(5, 1800), 3600);
    assert_eq!(effective_interval_secs(20, 86400), 3600);
}

#[test]
fn counter_resets_on_success() {
    let mut c = FailureCounter::new();
    for _ in 0..8 {
        c.record_failure();
    }
    assert_eq!(c.consecutive_failures, 8);
    assert_eq!(c.get_effective_interval(600), 3600);
    c.record_success();
    assert_eq!(c.consecutive_failures, 0);
    // The exponent resets with the counter: the base interval returns.
    assert_eq!(c.get_effective_interval(600), 600);
}

#[test]
fn counter_counts_failures() {
    let mut c = FailureCounter::new();
    c.record_failure();
    c.record_failure();
    assert_eq!(c.consecutive_failures, 2);
    assert_eq!(c.get_effective_interval(600), 600);
}
