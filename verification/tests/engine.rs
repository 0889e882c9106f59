use mixxx_midi_clock::clock::{ClockEngine, EngineAction, LoopStep};
use mixxx_midi_clock::config::Config;
use mixxx_midi_clock::input::InputEvent;
use mixxx_midi_clock::output::command_bytes;
use mixxx_midi_clock::state::{DaemonStatus, OutputCommand, PlayState};

fn config(dry_run: bool) -> Config {
    Config {
        input_port: Some("mixxx".to_string()),
        output_port: Some("Circuit".to_string()),
        fallback_bpm: 12000,
        phase_gain: 150_000,
        list_ports: false,
        dry_run,
        stop: false,
        status: false,
        status_socket: None,
    }
}

#[test]
fn engine_starts_idle_at_fallback_tempo() {
    let e = ClockEngine::new(config(false), 1_000);
    assert_eq!(e.play_state(), PlayState::Idle);
    assert_eq!(e.bpm(), 12000);
    assert_eq!(e.pulse_count(), 0);
    assert_eq!(e.next_tick_ns(), 1_000);
    assert_eq!(e.phase_error(), (0, 1));
    assert_eq!(e.loop_step(), LoopStep::Pause);
}

#[test]
fn engine_full_cycle_with_phase_correction() {
    let mut e = ClockEngine::new(config(false), 1_000);
    let acts = e.handle_input_event(InputEvent::Playing, 2_000);
    assert_eq!(acts, vec![EngineAction::Send(OutputCommand::Start), EngineAction::BeginRunning]);
    assert_eq!(e.play_state(), PlayState::WaitingForBeat);
    assert_eq!(e.loop_step(), LoopStep::EnterRunning);

    e.transition_to_running(3_000);
    assert_eq!(e.play_state(), PlayState::Running);
    assert_eq!(e.pulse_count(), 0);
    assert_eq!(e.next_tick_ns(), 3_000);
    assert_eq!(e.loop_step(), LoopStep::Pulse);
    assert_eq!(e.tick_sleep_ns(2_500), 500);
    assert_eq!(e.tick_sleep_ns(4_000), 0);

    for k in 1..=23u8 {
        let now = e.next_tick_ns();
        let acts = e.clock_tick(now);
        assert_eq!(acts, vec![EngineAction::Send(OutputCommand::ClockPulse)]);
        assert_eq!(e.pulse_count(), k);
    }
    assert_eq!(e.next_tick_ns(), 3_000 + 23 * 20_833_333);

    // the 24th pulse is the beat boundary: the clock is 0.0417 of a beat
    // ahead, so the next pulse is delayed by 0.0417 * 500ms * 0.15
    let now = e.next_tick_ns();
    e.clock_tick(now);
    assert_eq!(e.pulse_count(), 24);
    assert_eq!(e.phase_error(), (-5_291_414_614, 127_000_000_000));
    assert_eq!(e.next_tick_ns(), 479_169_659 + 3_124_851 + 20_833_333);

    let now = e.next_tick_ns();
    e.clock_tick(now);
    assert_eq!(e.pulse_count(), 1);

    let acts = e.handle_input_event(InputEvent::Stopped, now + 10);
    assert_eq!(acts, vec![EngineAction::Send(OutputCommand::Stop)]);
    assert_eq!(e.play_state(), PlayState::Stopped);
    assert_eq!(e.loop_step(), LoopStep::Pause);

    // a second Stopped changes nothing
    let acts = e.handle_input_event(InputEvent::Stopped, now + 20);
    assert!(acts.is_empty());
}

#[test]
fn engine_ignores_small_tempo_changes() {
    let mut e = ClockEngine::new(config(false), 0);
    e.handle_input_event(InputEvent::BpmUpdate { bpm: 12005 }, 10);
    assert_eq!(e.bpm(), 12000);
    e.handle_input_event(InputEvent::BpmUpdate { bpm: 12006 }, 20);
    assert_eq!(e.bpm(), 12006);
    e.handle_input_event(InputEvent::BpmUpdate { bpm: 50000 }, 30);
    assert_eq!(e.bpm(), 30000);
    e.handle_input_event(InputEvent::BpmUpdate { bpm: 100 }, 40);
    assert_eq!(e.bpm(), 3000);
}

#[test]
fn engine_syncs_to_beat_before_start() {
    let mut e = ClockEngine::new(config(false), 0);
    let acts = e.handle_input_event(InputEvent::BeatDistance { value: 64 }, 10);
    assert_eq!(
        acts,
        vec![
            EngineAction::Sleep { ns: 248_031_496 },
            EngineAction::Send(OutputCommand::Start),
            EngineAction::BeginRunning
        ]
    );
    assert_eq!(e.last_beat_distance(), 64);

    // 120/127 of a beat is below 0.95: wait the remaining 7/127
    let mut e = ClockEngine::new(config(false), 0);
    let acts = e.handle_input_event(InputEvent::BeatDistance { value: 120 }, 10);
    assert_eq!(acts[0], EngineAction::Sleep { ns: 27_559_055 });

    // 121/127 of a beat is above 0.95: start at once
    let mut e = ClockEngine::new(config(false), 0);
    let acts = e.handle_input_event(InputEvent::BeatDistance { value: 121 }, 10);
    assert_eq!(acts, vec![EngineAction::Send(OutputCommand::Start), EngineAction::BeginRunning]);
}

#[test]
fn engine_restarts_from_stopped() {
    let mut e = ClockEngine::new(config(false), 0);
    e.handle_input_event(InputEvent::Playing, 1);
    e.transition_to_running(2);
    e.handle_input_event(InputEvent::Stopped, 3);
    assert_eq!(e.play_state(), PlayState::Stopped);
    let acts = e.handle_input_event(InputEvent::BpmUpdate { bpm: 14000 }, 4);
    assert_eq!(acts, vec![EngineAction::Send(OutputCommand::Start), EngineAction::BeginRunning]);
    assert_eq!(e.bpm(), 14000);
    // while waiting or running, events do not send Start again
    let acts = e.handle_input_event(InputEvent::Playing, 5);
    assert!(acts.is_empty());
    e.transition_to_running(6);
    let acts = e.handle_input_event(InputEvent::Playing, 7);
    assert!(acts.is_empty());
    // a Stopped that arrives while waiting is ignored
    let mut e = ClockEngine::new(config(false), 0);
    e.handle_input_event(InputEvent::Playing, 1);
    let acts = e.handle_input_event(InputEvent::Stopped, 2);
    assert!(acts.is_empty());
    assert_eq!(e.play_state(), PlayState::WaitingForBeat);
}

#[test]
fn engine_dry_run_sends_nothing() {
    let mut e = ClockEngine::new(config(true), 0);
    let acts = e.handle_input_event(InputEvent::Playing, 1);
    assert_eq!(acts, vec![EngineAction::BeginRunning]);
    e.transition_to_running(2);
    for _ in 0..30 {
        let now = e.next_tick_ns();
        assert!(e.clock_tick(now).is_empty());
    }
    let acts = e.handle_input_event(InputEvent::Stopped, 3);
    assert!(acts.is_empty());
    assert_eq!(e.play_state(), PlayState::Stopped);
}

#[test]
fn engine_deadline_always_advances() {
    let mut e = ClockEngine::new(config(false), 0);
    e.handle_input_event(InputEvent::BeatDistance { value: -100 }, 0);
    e.transition_to_running(0);
    let mut now: u64 = 0;
    for i in 0..200u64 {
        let before = e.next_tick_ns();
        now += 7_000_000 + (i % 5) * 3_000_000;
        e.clock_tick(now);
        assert!(e.next_tick_ns() > before);
    }
}

#[test]
fn engine_coasting_warning() {
    let mut e = ClockEngine::new(config(false), 0);
    assert!(!e.check_coasting(10_000_000_000));
    e.handle_input_event(InputEvent::BpmUpdate { bpm: 12000 }, 1_000);
    e.transition_to_running(1_000);
    assert!(!e.check_coasting(1_000 + 3_000_000_000));
    assert!(e.check_coasting(1_001 + 3_000_000_000));
    assert!(!e.check_coasting(1_002 + 3_000_000_000));
    assert!(!e.check_coasting(1_000 + 5_000_000_000));
    assert!(e.check_coasting(1_001 + 5_000_000_000));
    // a new BPM message clears the warning
    e.handle_input_event(InputEvent::BpmUpdate { bpm: 12000 }, 6_000_000_000);
    assert!(!e.check_coasting(8_000_000_000));
    assert!(e.check_coasting(9_000_000_001));
}

#[test]
fn engine_publishes_status() {
    let cfg = config(false);
    let mut st = DaemonStatus::new(&cfg);
    assert_eq!(st.play_state, "Idle");
    assert_eq!(st.bpm, 12000);
    assert_eq!(st.input_port.as_deref(), Some("mixxx"));
    let mut e = ClockEngine::new(cfg, 0);
    e.handle_input_event(InputEvent::BpmUpdate { bpm: 13000 }, 1);
    e.transition_to_running(2);
    e.clock_tick(2);
    e.publish_status(&mut st);
    assert_eq!(st.play_state, "Running");
    assert_eq!(st.bpm, 13000);
    assert_eq!(st.pulse_count, 1);
    assert_eq!((st.phase_error_num, st.phase_error_den), (0, 1));
    assert_eq!(st.output_port.as_deref(), Some("Circuit"));
}

#[test]
fn play_state_names_and_default() {
    assert_eq!(PlayState::default(), PlayState::Idle);
    assert_eq!(PlayState::Idle.name(), "Idle");
    assert_eq!(PlayState::WaitingForBeat.name(), "WaitingForBeat");
    assert_eq!(PlayState::Running.name(), "Running");
    assert_eq!(PlayState::Stopped.name(), "Stopped");
}

#[test]
fn output_command_bytes() {
    assert_eq!(command_bytes(OutputCommand::ClockPulse), vec![0xF8]);
    assert_eq!(command_bytes(OutputCommand::Start), vec![0xFA]);
    assert_eq!(command_bytes(OutputCommand::Stop), vec![0xFC]);
    assert_eq!(command_bytes(OutputCommand::Continue), vec![0xFB]);
}

#[test]
fn engine_start_and_stop_alternate() {
    let mut e = ClockEngine::new(config(false), 0);
    let events = [
        InputEvent::Stopped,
        InputEvent::Playing,
        InputEvent::Playing,
        InputEvent::Stopped,
        InputEvent::Stopped,
        InputEvent::BeatDistance { value: 10 },
        InputEvent::BpmUpdate { bpm: 9000 },
        InputEvent::Stopped,
        InputEvent::BpmUpdate { bpm: 9100 },
        InputEvent::Stopped,
        InputEvent::Playing,
    ];
    let mut lifecycle = Vec::new();
    let mut now: u64 = 0;
    for (i, ev) in events.iter().enumerate() {
        now += 1_000_000;
        for a in e.handle_input_event(*ev, now) {
            match a {
                EngineAction::Send(OutputCommand::Start) | EngineAction::Send(OutputCommand::Stop) => {
                    lifecycle.push(a)
                }
                EngineAction::BeginRunning => e.transition_to_running(now),
                _ => {}
            }
        }
        if i % 2 == 0 && e.loop_step() == LoopStep::Pulse {
            let t = e.next_tick_ns();
            e.clock_tick(t);
        }
    }
    assert_eq!(lifecycle.len(), 7);
    for (i, a) in lifecycle.iter().enumerate() {
        let expected = if i % 2 == 0 { OutputCommand::Start } else { OutputCommand::Stop };
        assert_eq!(*a, EngineAction::Send(expected));
    }
}
