use mixxx_midi_clock::config::Config;

// Tempos are in hundredths of a BPM: 120 BPM is 12000.

#[test]
fn tick_interval_ns_computes_correctly_for_120_bpm() {
    assert_eq!(Config::tick_interval_ns(12000), 20_833_333);
}

#[test]
fn tick_interval_ns_computes_correctly_for_160_bpm() {
    assert_eq!(Config::tick_interval_ns(16000), 15_625_000);
}

#[test]
fn tick_interval_ns_computes_correctly_for_60_bpm() {
    assert_eq!(Config::tick_interval_ns(6000), 41_666_666);
}

#[test]
fn clamp_bpm_limits_to_30_300() {
    let config = Config {
        input_port: None,
        output_port: None,
        fallback_bpm: 12000,
        phase_gain: 150_000,
        list_ports: false,
        dry_run: false,
        stop: false,
        status: false,
        status_socket: None,
    };
    assert_eq!(config.clamp_bpm(2000), 3000);
    assert_eq!(config.clamp_bpm(40000), 30000);
    assert_eq!(config.clamp_bpm(12000), 12000);
}

#[test]
fn beat_duration_and_zero_tempo() {
    assert_eq!(Config::beat_duration_ns(12000), 500_000_000);
    assert_eq!(Config::beat_duration_ns(6000), 1_000_000_000);
    assert_eq!(Config::beat_duration_ns(0), u64::MAX);
    assert_eq!(Config::tick_interval_ns(0), u64::MAX);
    assert_eq!(Config::tick_interval_ns(12345), 20_251_113);
}

#[test]
fn pulse_interval_is_beat_over_24() {
    for bpm in [1u32, 3000, 9999, 12000, 12345, 30000, u32::MAX] {
        assert_eq!(Config::tick_interval_ns(bpm), Config::beat_duration_ns(bpm) / 24);
    }
}

#[test]
fn clamp_is_idempotent_and_bounds() {
    let config = Config {
        input_port: Some("mixxx".to_string()),
        output_port: None,
        fallback_bpm: 12000,
        phase_gain: 150_000,
        list_ports: false,
        dry_run: true,
        stop: false,
        status: false,
        status_socket: None,
    };
    for bpm in [0u32, 2999, 3000, 3001, 29999, 30000, 30001, u32::MAX] {
        let c = config.clamp_bpm(bpm);
        assert!((3000..=30000).contains(&c));
        assert_eq!(config.clamp_bpm(c), c);
    }
}
