//! Configurations, refusals and window arithmetic of the rate limiter.

use orbit_haul::rate_limit::{QuotaTracker, RateLimitConfig, RateLimitError};

#[test]
fn predefined_configurations() {
    let strict = RateLimitConfig::strict();
    assert_eq!((strict.max_operations, strict.window_seconds), (10, 3600));
    let permissive = RateLimitConfig::permissive();
    assert_eq!((permissive.max_operations, permissive.window_seconds), (1000, 3600));
}

#[test]
fn batch_larger_than_quota_is_refused_and_changes_nothing() {
    let config = RateLimitConfig::strict();
    let mut tracker = QuotaTracker::new(50);
    assert_eq!(tracker.check_and_update(60, &config, 11), Err(RateLimitError::RateLimitExceeded));
    assert_eq!(tracker, QuotaTracker::new(50));
    assert_eq!(tracker.check_and_update(60, &config, 10), Ok(()));
    assert_eq!(tracker.remaining_quota(&config), 0);
    // even after the window is over, a batch above the whole quota is refused
    assert_eq!(tracker.check_and_update(10_000, &config, 11), Err(RateLimitError::RateLimitExceeded));
    assert_eq!(tracker.window_start, 50);
}

#[test]
fn batches_accumulate_within_a_window() {
    let config = RateLimitConfig::default();
    let mut tracker = QuotaTracker::new(0);
    tracker.check_and_update(10, &config, 30).unwrap();
    tracker.check_and_update(20, &config, 45).unwrap();
    assert_eq!(tracker.operations_count, 75);
    assert_eq!(tracker.remaining_quota(&config), 25);
    assert_eq!(tracker.check_and_update(3_599, &config, 26), Err(RateLimitError::RateLimitExceeded));
    assert_eq!(tracker.check_and_update(3_599, &config, 25), Ok(()));
    assert_eq!(tracker.remaining_quota(&config), 0);
}

#[test]
fn window_time_remaining_edges() {
    let config = RateLimitConfig::default();
    let tracker = QuotaTracker::new(1_000);
    assert_eq!(tracker.window_time_remaining(500, &config), 3600);
    assert_eq!(tracker.window_time_remaining(1_000, &config), 3600);
    assert_eq!(tracker.window_time_remaining(1_001, &config), 3599);
    assert_eq!(tracker.window_time_remaining(4_600, &config), 0);
    assert_eq!(tracker.window_time_remaining(u64::MAX, &config), 0);
}

#[test]
fn remaining_quota_of_an_overfull_tracker_is_zero() {
    let config = RateLimitConfig::strict();
    let tracker = QuotaTracker { operations_count: 50, window_start: 0 };
    assert_eq!(tracker.remaining_quota(&config), 0);
}

#[test]
fn window_far_in_the_future_does_not_overflow() {
    let config = RateLimitConfig::default();
    let mut tracker = QuotaTracker::new(u64::MAX - 10);
    assert_eq!(tracker.check_and_update(u64::MAX, &config, 1), Ok(()));
    assert_eq!(tracker.window_start, u64::MAX - 10);
    assert_eq!(tracker.window_time_remaining(u64::MAX, &config), 3590);
}
