//! What each operation of the clock engine does, stated directly in terms of
//! its inputs and results.
use vstd::prelude::*;
use crate::clock::{
    spec_loop_step, LoopStep, abs,
    spec_handle_input_event, spec_clock_tick, spec_transition_to_running, spec_check_coasting,
    spec_phase_error, spec_phase_correction, EngineModel, EngineAction, GAIN_SCALE,
};
use crate::input::{InputEvent, spec_decode_events};
use crate::state::{OutputCommand, PlayState};

verus! {

/// Nanoseconds in a beat at a tempo in hundredths of a BPM (the longest time
/// there is at tempo zero).
pub open spec fn beat_ns(bpm: u32) -> int {
    if bpm == 0 {
        u64::MAX as int
    } else {
        6_000_000_000_000int / (bpm as int)
    }
}

/// Nanoseconds between pulses, 24 to the beat.
pub open spec fn pulse_ns(bpm: u32) -> int {
    if bpm == 0 {
        u64::MAX as int
    } else {
        6_000_000_000_000int / (24 * (bpm as int))
    }
}

/// A BPM message sets the tempo to the message's tempo limited to 30..=300
/// BPM whenever that differs from the current tempo by more than 0.05 BPM,
/// whatever the play state (also while running), and keeps it otherwise. It
/// records when the tempo was last heard and clears the coasting warning.
pub proof fn lemma_bpm_update_sets_tempo(m: EngineModel, bpm: u32, now: u64)
    ensures
        ({
            let r = spec_handle_input_event(m, InputEvent::BpmUpdate { bpm }, now).0;
            let c: int = if bpm < 3000 {
                3000
            } else if bpm > 30000 {
                30000
            } else {
                bpm as int
            };
            &&& r.bpm == (if c - m.bpm > 5 || m.bpm - c > 5 { c } else { m.bpm as int })
            &&& r.last_bpm_update_ns == Some(now)
            &&& r.last_coast_warn_ns is None
            &&& r.last_msg_ns == now
            &&& r.last_beat_distance == m.last_beat_distance
            &&& r.next_tick_ns == m.next_tick_ns
        }),
{
}

/// A beat-distance message records the beat position, whatever the play
/// state (also while running), and leaves the tempo alone.
pub proof fn lemma_beat_distance_recorded(m: EngineModel, value: i32, now: u64)
    ensures
        ({
            let r = spec_handle_input_event(m, InputEvent::BeatDistance { value }, now).0;
            &&& r.last_beat_distance == value
            &&& r.bpm == m.bpm
            &&& r.last_msg_ns == now
            &&& r.last_bpm_update_ns == m.last_bpm_update_ns
            &&& r.next_tick_ns == m.next_tick_ns
        }),
{
}

/// Only beat-distance messages move the recorded beat position.
pub proof fn lemma_beat_distance_only_from_its_message(m: EngineModel, e: InputEvent, now: u64)
    requires
        !(e is BeatDistance),
    ensures
        spec_handle_input_event(m, e, now).0.last_beat_distance == m.last_beat_distance,
{
}

/// Waking the clock. An event other than Stopped that arrives while the clock
/// is Idle or Stopped first waits until the next beat boundary, when the beat
/// distance `n` (in 127ths, as it stands after the event) is positive and at
/// most 0.95 of a beat: `(127 - n) / 127` of a beat at the tempo after the
/// event. Then it sends Start (unless a dry run) and asks to begin running; the
/// clock is WaitingForBeat. The same event while the clock is waiting or
/// running does nothing to the play state and asks for nothing.
pub proof fn lemma_wake_actions(m: EngineModel, e: InputEvent, now: u64)
    requires
        !(e is Stopped),
    ensures
        ({
            let (r, acts) = spec_handle_input_event(m, e, now);
            let n = r.last_beat_distance as int;
            let sync = if 0 < n && 100 * n <= 95 * 127 {
                seq![EngineAction::Sleep { ns: ((127 - n) * beat_ns(r.bpm) / 127) as u64 }]
            } else {
                Seq::<EngineAction>::empty()
            };
            let start = if m.dry_run {
                Seq::<EngineAction>::empty()
            } else {
                seq![EngineAction::Send(OutputCommand::Start)]
            };
            &&& (m.play_state == PlayState::Idle || m.play_state == PlayState::Stopped) ==> {
                &&& acts == sync + start + seq![EngineAction::BeginRunning]
                &&& r.play_state == PlayState::WaitingForBeat
            }
            &&& (m.play_state == PlayState::Running || m.play_state == PlayState::WaitingForBeat) ==> {
                &&& acts == Seq::<EngineAction>::empty()
                &&& r.play_state == m.play_state
            }
        }),
{
    let (r, acts) = spec_handle_input_event(m, e, now);
    if m.play_state == PlayState::Idle || m.play_state == PlayState::Stopped {
        let n = r.last_beat_distance as int;
        let sync = if 0 < n && 100 * n <= 95 * 127 {
            seq![EngineAction::Sleep { ns: ((127 - n) * beat_ns(r.bpm) / 127) as u64 }]
        } else {
            Seq::<EngineAction>::empty()
        };
        let start = if m.dry_run {
            Seq::<EngineAction>::empty()
        } else {
            seq![EngineAction::Send(OutputCommand::Start)]
        };
        assert(acts =~= sync + start + seq![EngineAction::BeginRunning]);
    }
}

/// A Stopped message stops a running clock and sends Stop (unless a dry
/// run); in any other play state it changes nothing and sends nothing.
pub proof fn lemma_stopped_event(m: EngineModel, now: u64)
    ensures
        ({
            let (r, acts) = spec_handle_input_event(m, InputEvent::Stopped, now);
            &&& m.play_state == PlayState::Running ==> {
                &&& r.play_state == PlayState::Stopped
                &&& acts == (if m.dry_run {
                    Seq::<EngineAction>::empty()
                } else {
                    seq![EngineAction::Send(OutputCommand::Stop)]
                })
            }
            &&& m.play_state != PlayState::Running ==> {
                &&& r.play_state == m.play_state
                &&& acts == Seq::<EngineAction>::empty()
            }
            &&& r.bpm == m.bpm
            &&& r.pulse_count == m.pulse_count
            &&& r.next_tick_ns == m.next_tick_ns
            &&& r.last_msg_ns == now
        }),
{
}

/// Beginning to run: the pulse count restarts from zero and the first pulse
/// is due at once; a clock already running is left as it is.
pub proof fn lemma_begin_running(m: EngineModel, now: u64)
    ensures
        ({
            let r = spec_transition_to_running(m, now);
            &&& r.play_state == PlayState::Running
            &&& m.play_state != PlayState::Running ==> r.pulse_count == 0 && r.next_tick_ns == now
            &&& m.play_state == PlayState::Running ==> r == m
            &&& r.bpm == m.bpm
        }),
{
}

/// Every pulse sends one clock message (unless a dry run), the beat-boundary
/// pulse included, so 24 go out per beat. The pulse count runs 1..=24 and
/// wraps; the tempo and play state stay. Away from the beat boundary the next
/// deadline is the previous one plus one pulse interval.
pub proof fn lemma_clock_tick_pulses(m: EngineModel, now: u64)
    requires
        m.pulse_count <= 24,
    ensures
        ({
            let (r, acts) = spec_clock_tick(m, now);
            &&& acts == (if m.dry_run {
                Seq::<EngineAction>::empty()
            } else {
                seq![EngineAction::Send(OutputCommand::ClockPulse)]
            })
            &&& r.pulse_count == (if m.pulse_count == 24 { 1 } else { m.pulse_count + 1 })
            &&& r.play_state == m.play_state
            &&& r.bpm == m.bpm
            &&& r.last_beat_distance == m.last_beat_distance
            &&& (r.pulse_count != 24 && m.next_tick_ns + pulse_ns(m.bpm) <= u64::MAX) ==> r.next_tick_ns
                == m.next_tick_ns + pulse_ns(m.bpm)
        }),
{
}

/// On the beat boundary (the 24th pulse) the phase error is measured from the
/// last beat distance and the time since the last message, and the next
/// deadline becomes the previous one plus the signed correction plus one pulse
/// interval: a clock that is behind (negative correction) is brought forward,
/// one that is ahead is held back. Saturation at 0 and at the largest time
/// aside, that is exact.
pub proof fn lemma_beat_boundary_correction(m: EngineModel, now: u64)
    requires
        m.pulse_count == 23,
    ensures
        ({
            let (r, acts) = spec_clock_tick(m, now);
            let elapsed: int = if now >= m.last_msg_ns { now - m.last_msg_ns } else { 0 };
            let phase = spec_phase_error(m.last_beat_distance as int, elapsed, beat_ns(m.bpm));
            let c = spec_phase_correction(phase.0, phase.1, beat_ns(m.bpm), pulse_ns(m.bpm), m.phase_gain as int);
            &&& r.pulse_count == 24
            &&& r.phase_error_num == phase.0
            &&& r.phase_error_den == phase.1
            &&& (0 <= m.next_tick_ns + c && m.next_tick_ns + c + pulse_ns(m.bpm) <= u64::MAX) ==> r.next_tick_ns
                == m.next_tick_ns + c + pulse_ns(m.bpm)
        }),
{
    crate::config::lemma_durations_positive(m.bpm);
    let m1 = EngineModel { pulse_count: 24, ..m };
    crate::clock_laws::lemma_correction_within_pulse(m1, now);
}

/// The coasting warning is due exactly when a BPM message has been heard,
/// more than three seconds have passed since the last one, the clock is
/// running, and the warning has not been given in the last two seconds; then
/// the time of the warning is recorded.
pub proof fn lemma_coasting(m: EngineModel, now: u64)
    ensures
        ({
            let (r, warn) = spec_check_coasting(m, now);
            &&& warn == (m.last_bpm_update_ns matches Some(t) && now >= t && now - t > 3_000_000_000
                && m.play_state == PlayState::Running && (match m.last_coast_warn_ns {
                Some(w) => now >= w && now - w >= 2_000_000_000,
                None => true,
            }))
            &&& warn ==> r.last_coast_warn_ns == Some(now)
            &&& !warn ==> r == m
        }),
{
}

/// The loop pulses exactly while running, begins running exactly while
/// waiting for the beat, and otherwise pauses.
pub proof fn lemma_loop_step(s: PlayState)
    ensures
        (spec_loop_step(s) == LoopStep::Pulse) <==> s == PlayState::Running,
        (spec_loop_step(s) == LoopStep::EnterRunning) <==> s == PlayState::WaitingForBeat,
        (spec_loop_step(s) == LoopStep::Pause) <==> (s == PlayState::Idle || s == PlayState::Stopped),
{
}

/// What the result of a phase correction must satisfy, for a phase error of
/// `num / den` of a beat: its size is the phase error times the beat times
/// the gain in millionths, rounded down, unless that reaches the cap of 5% of
/// a beat (and less than one pulse interval), where it is the cap; its sign is
/// opposite to the error's.
pub proof fn lemma_phase_correction_result(num: int, den: int, beat: int, tick: int, gain: int)
    requires
        den > 0,
        beat >= 0,
        tick >= 1,
        gain >= 0,
    ensures
        ({
            let r = spec_phase_correction(num, den, beat, tick, gain);
            let p = abs(num) * beat * gain;
            let q = den * 1_000_000;
            let cap = if beat / 20 <= tick - 1 { beat / 20 } else { tick - 1 };
            &&& 0 <= abs(r) <= cap
            &&& abs(r) < cap ==> abs(r) * q <= p < (abs(r) + 1) * q
            &&& abs(r) == cap ==> cap * q <= p
            &&& num > 0 ==> r <= 0
            &&& num <= 0 ==> r >= 0
        }),
{
    let p = abs(num) * beat * gain;
    let q = den * 1_000_000;
    assert(p >= 0) by (nonlinear_arith)
        requires
            p == abs(num) * beat * gain,
            abs(num) >= 0,
            beat >= 0,
            gain >= 0,
    ;
    assert(q == den * GAIN_SCALE);
    let f = p / q;
    vstd::arithmetic::div_mod::lemma_fundamental_div_mod(p, q);
    vstd::arithmetic::div_mod::lemma_div_pos_is_pos(p, q);
    vstd::arithmetic::div_mod::lemma_div_pos_is_pos(beat, 20);
    assert(f * q <= p < (f + 1) * q) by (nonlinear_arith)
        requires
            p == q * f + p % q,
            0 <= p % q < q,
    ;
    let cap = if beat / 20 <= tick - 1 { beat / 20 } else { tick - 1 };
    if f >= cap {
        assert(cap * q <= f * q) by (nonlinear_arith)
            requires
                cap <= f,
                q > 0,
        ;
    }
}

/// The MIDI messages the clock understands, for any bytes: a message shorter
/// than three bytes means nothing. Pitch bend on channel 11 (0xEA) carries the
/// tempo, `data1 + 60` BPM and `data2` hundredths, limited to 30..=300 BPM, and
/// means playing; note-on on channel 11 (0x9A) for note 0x77 carries the beat
/// distance `1 - data2 / 127` and means playing; note-off on channel 11
/// (0x8A) for note 0x77 means stopped; anything else means nothing.
pub proof fn lemma_decode_messages(msg: Seq<u8>)
    ensures
        ({
            let ev = spec_decode_events(msg);
            &&& msg.len() < 3 ==> ev.len() == 0
            &&& msg.len() >= 3 ==> {
                let (status, d1, d2) = (msg[0], msg[1], msg[2]);
                let raw: int = (d1 as int + 60) * 100 + d2 as int;
                let tempo: int = if raw > 30000 { 30000 } else { raw };
                &&& status == 0xEA ==> ev == seq![InputEvent::BpmUpdate { bpm: tempo as u32 }, InputEvent::Playing]
                &&& (status == 0x9A && d1 == 0x77) ==> ev == seq![
                    InputEvent::BeatDistance { value: (127 - d2) as i32 },
                    InputEvent::Playing,
                ]
                &&& (status == 0x8A && d1 == 0x77) ==> ev == seq![InputEvent::Stopped]
                &&& !(status == 0xEA || ((status == 0x9A || status == 0x8A) && d1 == 0x77)) ==> ev.len() == 0
            }
        }),
{
}

} // verus!
