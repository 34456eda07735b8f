use horology_kernel::jitter::{JitterMonitor, MAX_COMPENSATION_MS};
use horology_kernel::timer::MIN_COMPENSATED_LEAD_MS;

#[test]
fn averages_samples_with_clamped_compensation() {
    let mut monitor = JitterMonitor::new(3);
    let now = 1_000_000;
    for offset in [10i64, 20, 30] {
        monitor.record(now, now + offset, 1, "tenant", now + offset);
    }
    assert_eq!(monitor.compensation_hint_ms(), 20);

    // A large outlier is clamped by the window and the maximum compensation.
    monitor.record(now, now + 5_000, 1, "tenant", now + 5_000);
    assert_eq!(monitor.compensation_hint_ms(), MAX_COMPENSATION_MS);
}

#[test]
fn adjust_fire_at_never_returns_past_now() {
    let mut monitor = JitterMonitor::with_default_window();
    let now = 1_000_000;
    let scheduled = now + 100;
    // Negative jitter biases the compensation toward a later fire time.
    monitor.record(scheduled, scheduled - 80, 2, "tenant", scheduled);
    let adjusted = monitor.adjust_fire_at(now, scheduled);
    assert!(adjusted >= now + MIN_COMPENSATED_LEAD_MS);
}

#[test]
fn empty_window_leaves_targets_untouched() {
    let monitor = JitterMonitor::with_default_window();
    assert_eq!(monitor.compensation_hint_ms(), 0);
    assert_eq!(monitor.adjust_fire_at(500, 700), 700);
    // with no samples even a past target passes through unadjusted
    assert_eq!(monitor.adjust_fire_at(500, 100), 100);
}

#[test]
fn rounding_is_half_away_from_zero() {
    let mut monitor = JitterMonitor::new(2);
    monitor.record(0, 2, 3, "t", 2);
    monitor.record(0, 3, 3, "t", 3);
    // mean 2.5 rounds away from zero
    assert_eq!(monitor.compensation_hint_ms(), 3);

    let mut negative = JitterMonitor::new(2);
    negative.record(0, -2, 3, "t", 0);
    negative.record(0, -3, 3, "t", 0);
    assert_eq!(negative.compensation_hint_ms(), -3);
}

#[test]
fn window_evicts_oldest_sample() {
    let mut monitor = JitterMonitor::new(2);
    monitor.record(0, 100, 4, "t", 100);
    monitor.record(0, 200, 4, "t", 200);
    monitor.record(0, 300, 4, "t", 300);
    // only 200 and 300 remain: mean 250
    assert_eq!(monitor.compensation_hint_ms(), 250);
}

#[test]
fn sample_reports_the_delta() {
    let mut monitor = JitterMonitor::new(8);
    let sample = monitor.record(1_000, 1_042, 77, "tenant-x", 1_050);
    assert_eq!(sample.delta_ms, 42);
    assert_eq!(sample.timer_id, 77);
    assert_eq!(sample.tenant_id, "tenant-x");
    assert_eq!(sample.recorded_at, 1_050);
}
