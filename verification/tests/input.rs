use mixxx_midi_clock::input::{decode_events, input_watchdog_expired, InputEvent};

// Tempo in hundredths of a BPM; beat distance in 127ths of a beat.
fn bpm_of(hundredths: u32) -> f64 {
    hundredths as f64 / 100.0
}

fn beat_distance_of(value: i32) -> f64 {
    value as f64 / 127.0
}

#[test]
fn decode_pitch_bend_message_returns_correct_bpm() {
    // data1=60, data2=0 => BPM = 60 + 60 + 0 = 120
    let msg = vec![0xEA, 60, 0];
    let events = decode_events(&msg);
    assert!(matches!(events[0], InputEvent::BpmUpdate { bpm } if bpm_of(bpm) == 120.0));
}

#[test]
fn decode_pitch_bend_clamps_to_30_300() {
    // data1=255 would be 315 BPM, should clamp to 300
    let msg = vec![0xEA, 255, 50];
    let events = decode_events(&msg);
    assert!(matches!(events[0], InputEvent::BpmUpdate { bpm } if bpm_of(bpm) == 300.0));

    // BPM = data1 + 60 + data2/100. Minimum is 60.0. So clamp only affects upper bound in practice.
    // Let's test a very high value
    let msg = vec![0xEA, 250, 99];
    let events = decode_events(&msg);
    if let InputEvent::BpmUpdate { bpm } = events[0] {
        assert!(bpm_of(bpm) <= 300.0);
    } else {
        panic!("Expected BpmUpdate");
    }
}

#[test]
fn decode_note_on_returns_inverted_beat_distance() {
    // velocity 0 => beat_distance = 1.0
    let msg = vec![0x9A, 0x77, 0];
    let events = decode_events(&msg);
    assert!(matches!(events[0], InputEvent::BeatDistance { value } if beat_distance_of(value) == 1.0));

    // velocity 127 => beat_distance ~0.0
    let msg = vec![0x9A, 0x77, 127];
    let events = decode_events(&msg);
    if let InputEvent::BeatDistance { value } = events[0] {
        assert!(beat_distance_of(value) < 0.01);
    } else {
        panic!("Expected BeatDistance");
    }

    // velocity 64 => beat_distance ~0.496
    let msg = vec![0x9A, 0x77, 64];
    let events = decode_events(&msg);
    if let InputEvent::BeatDistance { value } = events[0] {
        assert!((beat_distance_of(value) - 0.496).abs() < 0.01);
    } else {
        panic!("Expected BeatDistance");
    }
}

#[test]
fn decode_note_off_returns_stopped_event() {
    let msg = vec![0x8A, 0x77, 0];
    let events = decode_events(&msg);
    assert!(matches!(events[0], InputEvent::Stopped));
}

#[test]
fn decode_exact_events() {
    assert_eq!(
        decode_events(&[0xEA, 60, 0]),
        vec![InputEvent::BpmUpdate { bpm: 12000 }, InputEvent::Playing]
    );
    assert_eq!(
        decode_events(&[0xEA, 68, 45, 0x99]),
        vec![InputEvent::BpmUpdate { bpm: 12845 }, InputEvent::Playing]
    );
    assert_eq!(
        decode_events(&[0x9A, 0x77, 100]),
        vec![InputEvent::BeatDistance { value: 27 }, InputEvent::Playing]
    );
    // a velocity above 127 gives a negative distance
    assert_eq!(
        decode_events(&[0x9A, 0x77, 255]),
        vec![InputEvent::BeatDistance { value: -128 }, InputEvent::Playing]
    );
    assert_eq!(decode_events(&[0x8A, 0x77, 64]), vec![InputEvent::Stopped]);
}

#[test]
fn decode_ignores_other_messages() {
    assert!(decode_events(&[]).is_empty());
    assert!(decode_events(&[0xEA, 60]).is_empty());
    assert!(decode_events(&[0x9A, 0x76, 10]).is_empty());
    assert!(decode_events(&[0x8A, 0x78, 10]).is_empty());
    assert!(decode_events(&[0x90, 0x77, 10]).is_empty());
    assert!(decode_events(&[0xF8, 0, 0]).is_empty());
}

#[test]
fn watchdog_after_five_seconds() {
    assert!(!input_watchdog_expired(1_000, 1_000 + 5_000_000_000));
    assert!(input_watchdog_expired(1_000, 1_001 + 5_000_000_000));
    assert!(!input_watchdog_expired(9_000_000_000, 1_000));
}
