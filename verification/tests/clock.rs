use mixxx_midi_clock::clock::compute_phase_correction;
use std::time::{Duration, Instant};

// Phase errors are fractions of a beat (numerator, denominator) and the gain is
// in millionths: 1.0 is (1, 1), 0.1 is (1, 10), a gain of 0.15 is 150_000.

#[test]
fn phase_error_wraps_correctly_at_boundary() {
    // beat_distance jumps from 0.99 to 0.01 (boundary crossing)
    // Without wrap-safe math, error would be ~0.98
    // With wrap-safe: ((0.01 - 0.0) + 0.5) % 1.0 - 0.5 = 0.01
    let adjusted: f64 = 0.01;
    let expected: f64 = 0.0;
    let phase_error: f64 = ((adjusted - expected) + 0.5) % 1.0 - 0.5;
    assert!(
        phase_error.abs() < 0.05,
        "phase_error should be small, got {}",
        phase_error
    );
}

#[test]
fn correction_capped_at_min_of_5pct_beat_and_tick_interval() {
    // At 120 BPM: beat_duration = 500ms, tick_interval = ~20.8ms
    // 5% of beat = 25ms, but tick_interval - 1 = ~20.8ms - 1
    // So max correction should be ~20.8ms - 1, not 25ms
    let beat_duration_ns: u64 = 500_000_000; // 500ms
    let tick_interval_ns: u64 = 20_833_333; // ~20.8ms
    let gain: u32 = 150_000;

    // Large positive phase_error (behind) -> negative correction (speed up), capped
    let correction = compute_phase_correction(1, 1, beat_duration_ns, tick_interval_ns, gain);
    let max_allowed = (beat_duration_ns / 20).min(tick_interval_ns - 1) as i64;
    assert!(
        correction.abs() <= max_allowed,
        "correction {} should be <= {}",
        correction,
        max_allowed
    );
    assert!(
        correction < 0,
        "positive phase_error should produce negative correction (speed up), got {}",
        correction
    );
}

#[test]
fn zero_phase_error_produces_zero_correction() {
    let correction = compute_phase_correction(0, 1, 500_000_000, 20_833_333, 150_000);
    assert_eq!(correction, 0);
}

#[test]
fn negative_phase_error_increases_next_tick_deadline() {
    // Negative phase_error means we're ahead of Mixxx -> slow down (positive correction)
    let correction = compute_phase_correction(-1, 10, 500_000_000, 20_833_333, 150_000);
    assert!(
        correction > 0,
        "negative phase_error should produce positive correction (slow down), got {}",
        correction
    );
}

#[test]
fn positive_phase_error_decreases_next_tick_deadline() {
    // Positive phase_error means we're behind Mixxx -> speed up (negative correction)
    let correction = compute_phase_correction(1, 10, 500_000_000, 20_833_333, 150_000);
    assert!(
        correction < 0,
        "positive phase_error should produce negative correction (speed up), got {}",
        correction
    );
}

#[test]
fn correction_cannot_push_next_tick_into_past() {
    // At 120 BPM: tick_interval = ~20.8ms. Max correction = tick_interval - 1.
    // If we apply this to next_tick which is one tick_interval in the future,
    // the earliest next_tick can be is 1ns from now (not negative/past).
    let tick_interval_ns = 20_833_333u64;
    let max_correction = (500_000_000.0f64 * 0.05).min(tick_interval_ns as f64 - 1.0) as i64;
    let now = Instant::now();
    let next_tick = now + Duration::from_nanos(tick_interval_ns);

    // Simulate applying the max negative correction (speed up most)
    let corrected = next_tick - Duration::from_nanos(max_correction as u64);
    assert!(
        corrected >= now,
        "corrected next_tick should not be in the past: corrected={:?}, now={:?}",
        corrected,
        now
    );
}

#[test]
fn correction_exact_values() {
    // 0.1 beat * 500ms * 0.15 = 7.5ms
    assert_eq!(compute_phase_correction(-1, 10, 500_000_000, 20_833_333, 150_000), 7_500_000);
    assert_eq!(compute_phase_correction(1, 10, 500_000_000, 20_833_333, 150_000), -7_500_000);
    // a whole beat behind is capped at the pulse interval minus one
    assert_eq!(compute_phase_correction(1, 1, 500_000_000, 20_833_333, 150_000), -20_833_332);
    // with a long pulse interval the cap is 5% of the beat
    assert_eq!(compute_phase_correction(-1, 1, 500_000_000, 100_000_000, 1_000_000), 25_000_000);
    // truncation toward zero: 1/3 beat of 1000ns at gain 1.0 is 333.33ns
    assert_eq!(compute_phase_correction(1, 3, 1000, 1_000_000, 1_000_000), -50);
    assert_eq!(compute_phase_correction(1, 3, 100_000, 1_000_000, 1_000_000), -5_000);
    assert_eq!(compute_phase_correction(-1, 300, 100_000, 1_000_000, 1_000_000), 333);
    // a zero gain corrects nothing
    assert_eq!(compute_phase_correction(1, 4, 500_000_000, 20_833_333, 0), 0);
}

#[test]
fn correction_is_odd_and_never_grows_with_the_error() {
    let mut previous = i64::MAX;
    for n in -40i64..=40 {
        let c = compute_phase_correction(n, 20, 500_000_000, 20_833_333, 150_000);
        assert_eq!(compute_phase_correction(-n, 20, 500_000_000, 20_833_333, 150_000), -c);
        assert!(c <= previous);
        previous = c;
    }
    // the same error written with another denominator gives the same correction
    assert_eq!(
        compute_phase_correction(3, 40, 500_000_000, 20_833_333, 150_000),
        compute_phase_correction(6, 80, 500_000_000, 20_833_333, 150_000)
    );
}
