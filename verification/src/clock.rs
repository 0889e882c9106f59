use vstd::prelude::*;
use crate::config::{Config, spec_beat_duration_ns, spec_tick_interval_ns, spec_clamp_bpm, lemma_durations_positive};
use crate::input::InputEvent;
use crate::state::{DaemonStatus, OutputCommand, PlayState};
use vstd::string::StringExecFns;

verus! {

/// The gain is given in millionths.
pub const GAIN_SCALE: u64 = 1_000_000;

/// Absolute value of an integer.
pub open spec fn abs(x: int) -> int {
    if x < 0 {
        -x
    } else {
        x
    }
}

/// Smaller of two integers.
pub open spec fn min(a: int, b: int) -> int {
    if a <= b {
        a
    } else {
        b
    }
}

/// The largest correction, in nanoseconds, applied at one beat boundary: 5% of a
/// beat, and always less than one pulse interval so that a correction can
/// never move the next pulse before the previous one.
pub open spec fn correction_cap(beat_duration_ns: int, tick_interval_ns: int) -> int {
    min(beat_duration_ns / 20, tick_interval_ns - 1)
}

/// The correction, in nanoseconds, for a phase error of `num / den` of a beat.
///
/// It is the phase error times the beat duration times the gain (given in
/// millionths), with the opposite sign, limited to `correction_cap` and
/// truncated toward zero. A positive result delays the next pulse (the clock is
/// ahead), a negative one brings it forward (the clock is behind).
pub open spec fn spec_phase_correction(num: int, den: int, beat_duration_ns: int, tick_interval_ns: int, gain: int) -> int {
    let magnitude = (abs(num) * beat_duration_ns * gain) / (den * GAIN_SCALE);
    let m = min(magnitude, correction_cap(beat_duration_ns, tick_interval_ns));
    if num > 0 {
        -m
    } else {
        m
    }
}

/// Applies the cap and the sign to a correction's magnitude.
fn capped_correction(magnitude: u128, behind: bool, beat_duration_ns: u64, tick_interval_ns: u64) -> (r: i64)
    requires
        tick_interval_ns >= 1,
    ensures
        r == (if behind {
            -min(magnitude as int, correction_cap(beat_duration_ns as int, tick_interval_ns as int))
        } else {
            min(magnitude as int, correction_cap(beat_duration_ns as int, tick_interval_ns as int))
        }),
{
    let five_percent: u64 = beat_duration_ns / 20;
    let cap: u64 = if five_percent <= tick_interval_ns - 1 { five_percent } else { tick_interval_ns - 1 };
    let m: u64 = if magnitude <= cap as u128 { magnitude as u64 } else { cap };
    assert(cap <= u64::MAX / 20);
    if behind {
        -(m as i64)
    } else {
        m as i64
    }
}

/// `(t * g) / q == (t / q) * g + ((t % q) * g) / q`.
proof fn lemma_split_scaled_quotient(t: int, g: int, q: int)
    requires
        t >= 0,
        g >= 0,
        q > 0,
    ensures
        (t * g) / q == (t / q) * g + ((t % q) * g) / q,
        (t / q) * g <= (t * g) / q,
{
    let hi = t / q;
    let lo = t % q;
    vstd::arithmetic::div_mod::lemma_fundamental_div_mod(t, q);
    assert(t * g == (lo * g) + (hi * g) * q) by (nonlinear_arith)
        requires
            t == q * hi + lo,
    ;
    vstd::arithmetic::div_mod::lemma_hoist_over_denominator(lo * g, hi * g, q as nat);
    assert(lo * g >= 0) by (nonlinear_arith)
        requires
            lo >= 0,
            g >= 0,
    ;
    vstd::arithmetic::div_mod::lemma_div_pos_is_pos(lo * g, q);
}

/// Computes the phase correction in nanoseconds for a phase error of
/// `phase_error_num / phase_error_den` of a beat: positive means slow down
/// (add to the next pulse's deadline), negative means speed up.
pub fn compute_phase_correction(
    phase_error_num: i64,
    phase_error_den: u64,
    beat_duration_ns: u64,
    tick_interval_ns: u64,
    gain: u32,
) -> (r: i64)
    requires
        phase_error_den > 0,
        tick_interval_ns >= 1,
    ensures
        r == spec_phase_correction(
            phase_error_num as int,
            phase_error_den as int,
            beat_duration_ns as int,
            tick_interval_ns as int,
            gain as int,
        ),
        abs(r as int) <= correction_cap(beat_duration_ns as int, tick_interval_ns as int),
        abs(r as int) < tick_interval_ns,
        phase_error_num > 0 ==> r <= 0,
        phase_error_num < 0 ==> r >= 0,
        phase_error_num == 0 ==> r == 0,
{
    let a: u128 = if phase_error_num < 0 {
        (-(phase_error_num as i128)) as u128
    } else {
        phase_error_num as u128
    };
    assert(a == abs(phase_error_num as int));
    assert(a * (beat_duration_ns as u128) <= 0x8000_0000_0000_0000u128 * 0xffff_ffff_ffff_ffffu128)
        by (nonlinear_arith)
        requires
            a <= 0x8000_0000_0000_0000u128,
            beat_duration_ns <= 0xffff_ffff_ffff_ffffu64,
    ;
    let t: u128 = a * (beat_duration_ns as u128);
    assert((phase_error_den as u128) * 1_000_000u128 <= 0xffff_ffff_ffff_ffffu128 * 1_000_000u128)
        by (nonlinear_arith)
        requires
            phase_error_den <= 0xffff_ffff_ffff_ffffu64,
    ;
    let q: u128 = (phase_error_den as u128) * 1_000_000u128;
    let hi: u128 = t / q;
    let lo: u128 = t % q;
    assert(lo < q);
    assert(0xffff_ffff_ffff_ffffu128 * 1_000_000u128 < 0x20_0000_0000_0000_0000_0000u128);
    assert(q < 0x20_0000_0000_0000_0000_0000u128);
    let five_percent: u64 = beat_duration_ns / 20;
    let cap: u64 = if five_percent <= tick_interval_ns - 1 { five_percent } else { tick_interval_ns - 1 };
    proof {
        lemma_split_scaled_quotient(t as int, gain as int, q as int);
        assert(t * gain == a * beat_duration_ns * gain) by (nonlinear_arith)
            requires
                t == a * beat_duration_ns,
        ;
    }
    // The magnitude is hi * gain + (lo * gain) / q; at least hi when the gain is
    // not zero, so once hi passes the cap the cap is the answer.
    let magnitude: u128 = if gain == 0 {
        proof {
            assert(t * gain == 0) by (nonlinear_arith)
                requires
                    gain == 0,
            ;
        }
        0
    } else if hi > cap as u128 {
        proof {
            assert(hi * gain >= hi) by (nonlinear_arith)
                requires
                    gain >= 1,
                    hi >= 0,
            ;
        }
        cap as u128 + 1
    } else {
        assert(hi * (gain as u128) <= 0x1000_0000_0000_0000u128 * 0xffff_ffffu128) by (nonlinear_arith)
            requires
                hi <= 0x1000_0000_0000_0000u128,
                gain <= 0xffff_ffffu32,
        ;
        assert(lo * (gain as u128) <= 0x20_0000_0000_0000_0000_0000u128 * 0xffff_ffffu128) by (nonlinear_arith)
            requires
                lo < 0x20_0000_0000_0000_0000_0000u128,
                gain <= 0xffff_ffffu32,
        ;
        hi * (gain as u128) + lo * (gain as u128) / q
    };
    proof {
        if phase_error_num == 0 {
            assert(t == 0) by (nonlinear_arith)
                requires
                    a == 0,
                    t == a * beat_duration_ns,
            ;
            vstd::arithmetic::div_mod::lemma_div_of0(q as int);
            vstd::arithmetic::div_mod::lemma_small_mod(0, q as nat);
            assert(hi == 0 && lo == 0);
            if gain != 0 {
                assert(magnitude == 0) by (nonlinear_arith)
                    requires
                        magnitude == hi * gain + (lo * gain) / (q as int),
                        hi == 0,
                        lo == 0,
                        q > 0,
                ;
            }
        }
    }
    assert(min(magnitude as int, cap as int) == min(
        (a * beat_duration_ns * gain) / (phase_error_den * GAIN_SCALE),
        cap as int,
    ));
    capped_correction(magnitude, phase_error_num > 0, beat_duration_ns, tick_interval_ns)
}


/// Tempo changes smaller than this many hundredths of a BPM are ignored.
pub const BPM_CHANGE_THRESHOLD: u32 = 5;
/// Without a BPM message for longer than this, the clock is coasting.
pub const BPM_TIMEOUT_NS: u64 = 3_000_000_000;
/// The coasting warning repeats at most this often.
pub const WATCHDOG_INTERVAL_NS: u64 = 2_000_000_000;
/// Above this beat distance (in 127ths, 0.95 of a beat) the clock starts at once.
pub const PHASE_SYNC_SKIP_PERCENT: u64 = 95;

/// An instruction the clock engine hands to the code that drives it.
/// The instructions of one call are carried out in order.
#[derive(Debug, Clone, Copy, PartialEq, Eq, Structural)]
pub enum EngineAction {
    /// Wait this many nanoseconds.
    Sleep { ns: u64 },
    /// Hand this command to the MIDI output.
    Send(OutputCommand),
    /// Call `ClockEngine::transition_to_running` with the current time.
    BeginRunning,
}

/// What the driving loop does next, decided by the play state.
#[derive(Debug, Clone, Copy, PartialEq, Eq, Structural)]
pub enum LoopStep {
    /// Nothing to clock: wait a millisecond for events (Idle or Stopped).
    Pause,
    /// Begin running (WaitingForBeat).
    EnterRunning,
    /// Wait for the next deadline and send a pulse (Running).
    Pulse,
}

/// The loop step for a play state.
pub open spec fn spec_loop_step(s: PlayState) -> LoopStep {
    match s {
        PlayState::Idle => LoopStep::Pause,
        PlayState::WaitingForBeat => LoopStep::EnterRunning,
        PlayState::Running => LoopStep::Pulse,
        PlayState::Stopped => LoopStep::Pause,
    }
}

/// The engine's state as the contracts see it.
///
/// Times are nanoseconds since the caller's origin; the last phase error is
/// `phase_error_num / phase_error_den` of a beat.
pub struct EngineModel {
    pub bpm: u32,
    pub play_state: PlayState,
    pub pulse_count: u8,
    pub last_beat_distance: i32,
    pub last_msg_ns: u64,
    pub last_bpm_update_ns: Option<u64>,
    pub last_coast_warn_ns: Option<u64>,
    pub next_tick_ns: u64,
    pub phase_error_num: int,
    pub phase_error_den: int,
    pub dry_run: bool,
    pub phase_gain: u32,
}

/// Time from `since` to `now`, or zero if `now` is earlier.
pub open spec fn elapsed_ns(since: u64, now: u64) -> int {
    if now >= since {
        now - since
    } else {
        0
    }
}

/// `a + b`, stopping at the largest time there is.
pub open spec fn time_add(a: u64, b: int) -> u64 {
    if a + b > u64::MAX {
        u64::MAX
    } else {
        (a + b) as u64
    }
}

/// `a - b`, stopping at zero.
pub open spec fn time_sub(a: u64, b: int) -> u64 {
    if a - b < 0 {
        0
    } else {
        (a - b) as u64
    }
}

/// Remainder of a division that truncates toward zero (the sign follows `a`).
pub open spec fn trunc_rem(a: int, d: int) -> int {
    if a >= 0 {
        a % d
    } else {
        -((-a) % d)
    }
}

/// The phase error, as `(numerator, denominator)` of a beat, for a beat
/// distance of `beat_distance / 127` measured `elapsed` nanoseconds ago, at
/// `beat_duration` nanoseconds per beat.
///
/// The position is the beat distance plus the time since, in beats, reduced to
/// less than one beat; the error is that position shifted by half a beat,
/// reduced again, minus half a beat. Both reductions keep the sign of what they
/// reduce, so for a non-negative position the error lies in [-1/2, 1/2).
pub open spec fn spec_phase_error(beat_distance: int, elapsed: int, beat_duration: int) -> (int, int) {
    let d = 127 * beat_duration;
    let position = trunc_rem(beat_distance * beat_duration + 127 * elapsed, d);
    let shifted = trunc_rem(2 * position + d, 2 * d);
    (shifted - d, 2 * d)
}

/// The command, unless the engine only logs (dry run).
pub open spec fn spec_send(m: EngineModel, cmd: OutputCommand) -> Seq<EngineAction> {
    if m.dry_run {
        seq![]
    } else {
        seq![EngineAction::Send(cmd)]
    }
}

/// The wait, before the clock starts, until the next beat boundary; none
/// when the beat distance is not positive or is above 0.95 of a beat.
pub open spec fn spec_phase_sync(m: EngineModel) -> Seq<EngineAction> {
    let n = m.last_beat_distance as int;
    if n <= 0 {
        seq![]
    } else if 100 * n > PHASE_SYNC_SKIP_PERCENT * 127 {
        seq![]
    } else {
        seq![EngineAction::Sleep { ns: ((127 - n) * spec_beat_duration_ns(m.bpm as int) / 127) as u64 }]
    }
}

/// The clock is not running and nothing is about to start it.
pub open spec fn is_idle_or_stopped(s: PlayState) -> bool {
    s == PlayState::Idle || s == PlayState::Stopped
}

/// Entering WaitingForBeat: sync to the beat, send Start when coming from
/// Idle or Stopped, then begin running.
pub open spec fn spec_to_waiting(m: EngineModel) -> (EngineModel, Seq<EngineAction>) {
    if m.play_state == PlayState::WaitingForBeat {
        (m, seq![])
    } else {
        let m1 = EngineModel { play_state: PlayState::WaitingForBeat, ..m };
        let start = if is_idle_or_stopped(m.play_state) {
            spec_send(m, OutputCommand::Start)
        } else {
            seq![]
        };
        (m1, spec_phase_sync(m1) + start + seq![EngineAction::BeginRunning])
    }
}

/// Entering Stopped: send Stop.
pub open spec fn spec_to_stopped(m: EngineModel) -> (EngineModel, Seq<EngineAction>) {
    if m.play_state == PlayState::Stopped {
        (m, seq![])
    } else {
        (EngineModel { play_state: PlayState::Stopped, ..m }, spec_send(m, OutputCommand::Stop))
    }
}

/// Wakes the clock when it is Idle or Stopped.
pub open spec fn spec_wake(m: EngineModel) -> (EngineModel, Seq<EngineAction>) {
    if is_idle_or_stopped(m.play_state) {
        spec_to_waiting(m)
    } else {
        (m, seq![])
    }
}

/// What one input event does to the engine, received at time `now`.
pub open spec fn spec_handle_input_event(m: EngineModel, event: InputEvent, now: u64) -> (EngineModel, Seq<EngineAction>) {
    let m0 = EngineModel { last_msg_ns: now, ..m };
    match event {
        InputEvent::BpmUpdate { bpm } => {
            let clamped = spec_clamp_bpm(bpm as int);
            let m1 = if abs(clamped - m0.bpm) > BPM_CHANGE_THRESHOLD {
                EngineModel { bpm: clamped as u32, ..m0 }
            } else {
                m0
            };
            spec_wake(EngineModel { last_bpm_update_ns: Some(now), last_coast_warn_ns: None, ..m1 })
        },
        InputEvent::BeatDistance { value } => spec_wake(EngineModel { last_beat_distance: value, ..m0 }),
        InputEvent::Playing => spec_wake(m0),
        InputEvent::Stopped => if m0.play_state == PlayState::Running {
            spec_to_stopped(m0)
        } else {
            (m0, seq![])
        },
    }
}

/// Entering Running at time `now`: the pulse count restarts and the next
/// pulse is due at once.
pub open spec fn spec_transition_to_running(m: EngineModel, now: u64) -> EngineModel {
    if m.play_state == PlayState::Running {
        m
    } else {
        EngineModel { play_state: PlayState::Running, pulse_count: 0, next_tick_ns: now, ..m }
    }
}

/// Whether the coasting warning is due at `now`, and the state after it.
pub open spec fn spec_check_coasting(m: EngineModel, now: u64) -> (EngineModel, bool) {
    match m.last_bpm_update_ns {
        Some(last) => {
            if elapsed_ns(last, now) > BPM_TIMEOUT_NS && m.play_state == PlayState::Running && (match m.last_coast_warn_ns {
                Some(t) => elapsed_ns(t, now) >= WATCHDOG_INTERVAL_NS,
                None => true,
            }) {
                (EngineModel { last_coast_warn_ns: Some(now), ..m }, true)
            } else {
                (m, false)
            }
        },
        None => (m, false),
    }
}

/// The pulse count after one more pulse: 1 to 24, then 1 again.
pub open spec fn next_pulse(p: int) -> int {
    if p + 1 > 24 {
        1
    } else {
        p + 1
    }
}

/// The correction, in nanoseconds, applied at a beat boundary reached at `now`.
pub open spec fn spec_beat_correction(m: EngineModel, now: u64) -> int {
    let beat = spec_beat_duration_ns(m.bpm as int);
    let phase = spec_phase_error(m.last_beat_distance as int, elapsed_ns(m.last_msg_ns, now), beat);
    spec_phase_correction(phase.0, phase.1, beat, spec_tick_interval_ns(m.bpm as int), m.phase_gain as int)
}

/// The phase correction at a beat boundary reached at `now`: the next
/// deadline moves by the correction and the phase error is recorded.
pub open spec fn spec_apply_phase_correction(m: EngineModel, now: u64) -> EngineModel {
    let beat = spec_beat_duration_ns(m.bpm as int);
    let phase = spec_phase_error(m.last_beat_distance as int, elapsed_ns(m.last_msg_ns, now), beat);
    let c = spec_beat_correction(m, now);
    let next = if c >= 0 {
        time_add(m.next_tick_ns, c)
    } else {
        time_sub(m.next_tick_ns, -c)
    };
    EngineModel { next_tick_ns: next, phase_error_num: phase.0, phase_error_den: phase.1, ..m }
}

/// One clock pulse at time `now`: count it, send it, correct the phase on the
/// beat boundary (the 24th pulse), and schedule the next one.
pub open spec fn spec_clock_tick(m: EngineModel, now: u64) -> (EngineModel, Seq<EngineAction>) {
    let m1 = EngineModel { pulse_count: next_pulse(m.pulse_count as int) as u8, ..m };
    let m2 = if m1.pulse_count == 24 {
        spec_apply_phase_correction(m1, now)
    } else {
        m1
    };
    (
        EngineModel {
            next_tick_ns: time_add(m2.next_tick_ns, spec_tick_interval_ns(m2.bpm as int)),
            ..m2
        },
        spec_send(m, OutputCommand::ClockPulse),
    )
}


/// Reduces `a` modulo `d`, truncating toward zero like Rust's `%`.
fn rem_toward_zero(a: i128, d: i128) -> (r: i128)
    requires
        d > 0,
        a > i128::MIN,
    ensures
        r == trunc_rem(a as int, d as int),
        -d < r < d,
{
    if a >= 0 {
        ((a as u128) % (d as u128)) as i128
    } else {
        let m = ((-a) as u128) % (d as u128);
        -(m as i128)
    }
}

/// The phase error for a beat distance (in 127ths) seen `elapsed` nanoseconds ago.
fn phase_error(beat_distance: i32, elapsed: u64, beat_duration: u64) -> (r: (i128, i128))
    requires
        beat_duration > 0,
    ensures
        r.0 == spec_phase_error(beat_distance as int, elapsed as int, beat_duration as int).0,
        r.1 == spec_phase_error(beat_distance as int, elapsed as int, beat_duration as int).1,
        r.1 == 254 * beat_duration,
        -3 * (127 * beat_duration) < r.0 < 127 * beat_duration,
{
    let b = beat_duration as i128;
    let n = beat_distance as i128;
    assert(-0x8000_0000i128 * 0xffff_ffff_ffff_ffffi128 <= n * b <= 0x8000_0000i128 * 0xffff_ffff_ffff_ffffi128)
        by (nonlinear_arith)
        requires
            -0x8000_0000i128 <= n <= 0x8000_0000i128,
            0 < b <= 0xffff_ffff_ffff_ffffi128,
    ;
    let d: i128 = 127 * b;
    let p: i128 = n * b + 127 * (elapsed as i128);
    let position = rem_toward_zero(p, d);
    let shifted = rem_toward_zero(2 * position + d, 2 * d);
    (shifted - d, 2 * d)
}

/// `(x * beat * g) / (254 * beat * 10^6) == (x * g) / (254 * 10^6)`.
proof fn lemma_beat_cancels(x: int, beat: int, g: int)
    requires
        x >= 0,
        beat > 0,
        g >= 0,
    ensures
        (x * beat * g) / ((2 * (127 * beat)) * 1_000_000) == (x * g) / 254_000_000,
{
    assert(x * beat * g == beat * (x * g)) by (nonlinear_arith);
    assert((2 * (127 * beat)) * 1_000_000 == beat * 254_000_000) by (nonlinear_arith);
    assert(x * g >= 0) by (nonlinear_arith)
        requires
            x >= 0,
            g >= 0,
    ;
    vstd::arithmetic::div_mod::lemma_div_multiples_vanish_quotient(beat, x * g, 254_000_000);
}

/// The correction for a phase error of `num / (254 * beat_duration)` of a beat.
fn beat_phase_correction(num: i128, beat_duration: u64, tick_interval_ns: u64, gain: u32) -> (r: i64)
    requires
        beat_duration > 0,
        tick_interval_ns >= 1,
        -3 * (127 * beat_duration) < num < 3 * (127 * beat_duration),
    ensures
        r == spec_phase_correction(
            num as int,
            2 * (127 * beat_duration),
            beat_duration as int,
            tick_interval_ns as int,
            gain as int,
        ),
{
    let a: u128 = if num < 0 {
        (-num) as u128
    } else {
        num as u128
    };
    assert(a * (gain as u128) <= 0x400_0000_0000_0000_0000u128 * 0xffff_ffffu128) by (nonlinear_arith)
        requires
            a <= 0x400_0000_0000_0000_0000u128,
            gain <= 0xffff_ffffu32,
    ;
    let magnitude: u128 = (a * (gain as u128)) / 254_000_000;
    proof {
        lemma_beat_cancels(a as int, beat_duration as int, gain as int);
    }
    capped_correction(magnitude, num > 0, beat_duration, tick_interval_ns)
}

/// The clock's state machine: it turns input events and pulse deadlines into
/// MIDI commands, waits and deadlines.
///
/// The code that drives it owns the channels, the clock and the sleeping:
/// it hands each event in with the current time and carries out the
/// returned actions in order.
pub struct ClockEngine {
    config: Config,
    bpm: u32,
    play_state: PlayState,
    pulse_count: u8,
    last_beat_distance: i32,
    last_msg_ns: u64,
    last_bpm_update_ns: Option<u64>,
    last_coast_warn_ns: Option<u64>,
    next_tick_ns: u64,
    phase_error_num: i128,
    phase_error_den: i128,
}

impl View for ClockEngine {
    type V = EngineModel;

    closed spec fn view(&self) -> EngineModel {
        EngineModel {
            bpm: self.bpm,
            play_state: self.play_state,
            pulse_count: self.pulse_count,
            last_beat_distance: self.last_beat_distance,
            last_msg_ns: self.last_msg_ns,
            last_bpm_update_ns: self.last_bpm_update_ns,
            last_coast_warn_ns: self.last_coast_warn_ns,
            next_tick_ns: self.next_tick_ns,
            phase_error_num: self.phase_error_num as int,
            phase_error_den: self.phase_error_den as int,
            dry_run: self.config.dry_run,
            phase_gain: self.config.phase_gain,
        }
    }
}

/// The pulse count never leaves 0..=24 and the recorded phase error has a
/// positive denominator.
pub open spec fn engine_model_wf(m: EngineModel) -> bool {
    &&& m.pulse_count <= 24
    &&& m.phase_error_den > 0
}

impl ClockEngine {
    #[verifier::type_invariant]
    closed spec fn inv(self) -> bool {
        &&& self.pulse_count <= 24
        &&& self.phase_error_den > 0
    }

    /// A stopped-out engine (Idle) at the fallback tempo, created at time `now_ns`.
    pub fn new(config: Config, now_ns: u64) -> (e: Self)
        ensures
            e@ == (EngineModel {
                bpm: config.fallback_bpm,
                play_state: PlayState::Idle,
                pulse_count: 0,
                last_beat_distance: 0,
                last_msg_ns: now_ns,
                last_bpm_update_ns: None,
                last_coast_warn_ns: None,
                next_tick_ns: now_ns,
                phase_error_num: 0,
                phase_error_den: 1,
                dry_run: config.dry_run,
                phase_gain: config.phase_gain,
            }),
    {
        let bpm = config.fallback_bpm;
        ClockEngine {
            config,
            bpm,
            play_state: PlayState::Idle,
            pulse_count: 0,
            last_beat_distance: 0,
            last_msg_ns: now_ns,
            last_bpm_update_ns: None,
            last_coast_warn_ns: None,
            next_tick_ns: now_ns,
            phase_error_num: 0,
            phase_error_den: 1,
        }
    }

    /// Current play state.
    pub fn play_state(&self) -> (r: PlayState)
        ensures
            r == self@.play_state,
    {
        self.play_state
    }

    /// Current tempo, in hundredths of a BPM.
    pub fn bpm(&self) -> (r: u32)
        ensures
            r == self@.bpm,
    {
        self.bpm
    }

    /// Pulses sent since the last beat boundary (1..=24 while running).
    pub fn pulse_count(&self) -> (r: u8)
        ensures
            r == self@.pulse_count,
            r <= 24,
    {
        proof {
            use_type_invariant(self);
        }
        self.pulse_count
    }

    /// Deadline of the next pulse, in nanoseconds since the caller's origin.
    pub fn next_tick_ns(&self) -> (r: u64)
        ensures
            r == self@.next_tick_ns,
    {
        self.next_tick_ns
    }

    /// Last beat distance received, in 127ths of a beat.
    pub fn last_beat_distance(&self) -> (r: i32)
        ensures
            r == self@.last_beat_distance,
    {
        self.last_beat_distance
    }

    /// Phase error measured at the last beat boundary, as
    /// `(numerator, denominator)` of a beat.
    pub fn phase_error(&self) -> (r: (i128, i128))
        ensures
            r.0 == self@.phase_error_num,
            r.1 == self@.phase_error_den,
            r.1 > 0,
    {
        proof {
            use_type_invariant(self);
        }
        (self.phase_error_num, self.phase_error_den)
    }

    /// The settings the engine runs with.
    pub fn config(&self) -> (r: &Config)
        ensures
            r.dry_run == self@.dry_run,
            r.phase_gain == self@.phase_gain,
    {
        &self.config
    }

    /// Writes the engine's state into the status report; the port names stay.
    pub fn publish_status(&self, st: &mut DaemonStatus)
        ensures
            final(st).play_state@ == self@.play_state.spec_name(),
            final(st).bpm == self@.bpm,
            final(st).pulse_count == self@.pulse_count,
            final(st).pulse_count <= 24,
            final(st).phase_error_num == self@.phase_error_num,
            final(st).phase_error_den == self@.phase_error_den,
            final(st).input_port == old(st).input_port,
            final(st).output_port == old(st).output_port,
    {
        proof {
            use_type_invariant(self);
        }
        st.play_state = String::from_str(self.play_state.name());
        st.bpm = self.bpm;
        st.pulse_count = self.pulse_count;
        st.phase_error_num = self.phase_error_num;
        st.phase_error_den = self.phase_error_den;
    }

    /// What the driving loop does next.
    pub fn loop_step(&self) -> (r: LoopStep)
        ensures
            r == spec_loop_step(self@.play_state),
    {
        match self.play_state {
            PlayState::Idle => LoopStep::Pause,
            PlayState::WaitingForBeat => LoopStep::EnterRunning,
            PlayState::Running => LoopStep::Pulse,
            PlayState::Stopped => LoopStep::Pause,
        }
    }

    /// Nanoseconds to wait at `now_ns` before the next pulse is due.
    pub fn tick_sleep_ns(&self, now_ns: u64) -> (r: u64)
        ensures
            r == (if now_ns < self@.next_tick_ns { self@.next_tick_ns - now_ns } else { 0 }),
    {
        if now_ns < self.next_tick_ns {
            self.next_tick_ns - now_ns
        } else {
            0
        }
    }

    /// Appends `cmd` to `actions` unless the engine only logs.
    fn send_output(&self, actions: &mut Vec<EngineAction>, cmd: OutputCommand)
        ensures
            final(actions)@ == old(actions)@ + spec_send(self@, cmd),
    {
        if self.config.dry_run {
            return;
        }
        actions.push(EngineAction::Send(cmd));
    }

    /// Appends the wait until the next beat boundary, if any.
    fn initial_phase_sync(&self, actions: &mut Vec<EngineAction>)
        ensures
            final(actions)@ == old(actions)@ + spec_phase_sync(self@),
    {
        if self.last_beat_distance <= 0 {
            return;
        }
        let n = self.last_beat_distance as u64;
        if 100 * n > PHASE_SYNC_SKIP_PERCENT * 127 {
            return;
        }
        let beat = Config::beat_duration_ns(self.bpm);
        assert((127 - n) * beat <= 127 * beat) by (nonlinear_arith)
            requires
                1 <= n <= 127,
        ;
        assert(127 * (beat as u128) <= 127 * 0xffff_ffff_ffff_ffffu128);
        let sleep_ns: u128 = ((127 - n) as u128) * (beat as u128) / 127;
        assert(sleep_ns <= beat) by (nonlinear_arith)
            requires
                sleep_ns == ((127 - n) * beat) / 127,
                (127 - n) * beat <= 127 * beat,
        ;
        actions.push(EngineAction::Sleep { ns: sleep_ns as u64 });
    }

    fn transition_to_waiting(&mut self, actions: &mut Vec<EngineAction>)
        ensures
            final(self)@ == spec_to_waiting(old(self)@).0,
            final(actions)@ == old(actions)@ + spec_to_waiting(old(self)@).1,
    {
        proof {
            use_type_invariant(&*self);
        }
        if self.play_state == PlayState::WaitingForBeat {
            assert(actions@ =~= old(actions)@ + seq![]);
            return;
        }
        let old_state = self.play_state;
        self.play_state = PlayState::WaitingForBeat;
        self.initial_phase_sync(actions);
        if old_state == PlayState::Stopped || old_state == PlayState::Idle {
            self.send_output(actions, OutputCommand::Start);
        }
        actions.push(EngineAction::BeginRunning);
        proof {
            let m = old(self)@;
            let m1 = EngineModel { play_state: PlayState::WaitingForBeat, ..m };
            assert(self@ == m1);
            let start = if is_idle_or_stopped(m.play_state) {
                spec_send(m, OutputCommand::Start)
            } else {
                seq![]
            };
            assert(actions@ =~= old(actions)@ + (spec_phase_sync(m1) + start + seq![EngineAction::BeginRunning]));
        }
    }

    fn transition_to_stopped(&mut self, actions: &mut Vec<EngineAction>)
        ensures
            final(self)@ == spec_to_stopped(old(self)@).0,
            final(actions)@ == old(actions)@ + spec_to_stopped(old(self)@).1,
    {
        proof {
            use_type_invariant(&*self);
        }
        if self.play_state == PlayState::Stopped {
            assert(actions@ =~= old(actions)@ + seq![]);
            return;
        }
        self.play_state = PlayState::Stopped;
        self.send_output(actions, OutputCommand::Stop);
    }

    /// Wakes the clock if it is Idle or Stopped.
    fn wake(&mut self, actions: &mut Vec<EngineAction>)
        ensures
            final(self)@ == spec_wake(old(self)@).0,
            final(actions)@ == old(actions)@ + spec_wake(old(self)@).1,
    {
        if self.play_state == PlayState::Idle || self.play_state == PlayState::Stopped {
            self.transition_to_waiting(actions);
        } else {
            assert(actions@ =~= old(actions)@ + seq![]);
        }
    }

    /// Handles one input event received at `now_ns`; returns what to do, in order.
    pub fn handle_input_event(&mut self, event: InputEvent, now_ns: u64) -> (actions: Vec<EngineAction>)
        ensures
            final(self)@ == spec_handle_input_event(old(self)@, event, now_ns).0,
            actions@ == spec_handle_input_event(old(self)@, event, now_ns).1,
            engine_model_wf(final(self)@),
    {
        proof {
            use_type_invariant(&*self);
        }
        let mut actions: Vec<EngineAction> = Vec::new();
        self.last_msg_ns = now_ns;
        match event {
            InputEvent::BpmUpdate { bpm } => {
                let clamped = self.config.clamp_bpm(bpm);
                let delta: u32 = if clamped >= self.bpm {
                    clamped - self.bpm
                } else {
                    self.bpm - clamped
                };
                if delta > BPM_CHANGE_THRESHOLD {
                    self.bpm = clamped;
                }
                self.last_bpm_update_ns = Some(now_ns);
                self.last_coast_warn_ns = None;
                self.wake(&mut actions);
            },
            InputEvent::BeatDistance { value } => {
                self.last_beat_distance = value;
                self.wake(&mut actions);
            },
            InputEvent::Playing => {
                self.wake(&mut actions);
            },
            InputEvent::Stopped => {
                if self.play_state == PlayState::Running {
                    self.transition_to_stopped(&mut actions);
                }
            },
        }
        proof {
            use_type_invariant(&*self);
            assert(actions@ =~= spec_handle_input_event(old(self)@, event, now_ns).1);
        }
        actions
    }

    /// Enters Running at `now_ns`: the pulse count restarts and the next pulse
    /// is due at once.
    pub fn transition_to_running(&mut self, now_ns: u64)
        ensures
            final(self)@ == spec_transition_to_running(old(self)@, now_ns),
            engine_model_wf(final(self)@),
    {
        proof {
            use_type_invariant(&*self);
        }
        if self.play_state == PlayState::Running {
            return;
        }
        self.play_state = PlayState::Running;
        self.pulse_count = 0;
        self.next_tick_ns = now_ns;
    }

    /// Whether to warn, at `now_ns`, that no BPM message came for three
    /// seconds while running; the warning repeats at most every two seconds.
    pub fn check_coasting(&mut self, now_ns: u64) -> (warn: bool)
        ensures
            final(self)@ == spec_check_coasting(old(self)@, now_ns).0,
            warn == spec_check_coasting(old(self)@, now_ns).1,
            engine_model_wf(final(self)@),
    {
        proof {
            use_type_invariant(&*self);
        }
        match self.last_bpm_update_ns {
            Some(last) => {
                let quiet = now_ns.saturating_sub(last);
                let warn_due = match self.last_coast_warn_ns {
                    Some(t) => now_ns.saturating_sub(t) >= WATCHDOG_INTERVAL_NS,
                    None => true,
                };
                if quiet > BPM_TIMEOUT_NS && self.play_state == PlayState::Running && warn_due {
                    self.last_coast_warn_ns = Some(now_ns);
                    true
                } else {
                    false
                }
            },
            None => false,
        }
    }

    /// The phase correction on a beat boundary reached at `now_ns`.
    fn apply_phase_correction(&mut self, now_ns: u64)
        ensures
            final(self)@ == spec_apply_phase_correction(old(self)@, now_ns),
    {
        proof {
            use_type_invariant(&*self);
        }
        let beat = Config::beat_duration_ns(self.bpm);
        let tick = Config::tick_interval_ns(self.bpm);
        proof {
            lemma_durations_positive(self.bpm);
        }
        let elapsed = now_ns.saturating_sub(self.last_msg_ns);
        let (num, den) = phase_error(self.last_beat_distance, elapsed, beat);
        let correction = if self.bpm > 0 {
            proof {
                vstd::arithmetic::div_mod::lemma_div_is_ordered_by_denominator(
                    crate::config::CENTI_MINUTE_NS as int,
                    1,
                    self.bpm as int,
                );
                assert(beat <= 6_000_000_000_000u64);
            }
            compute_phase_correction(num as i64, den as u64, beat, tick, self.config.phase_gain)
        } else {
            // At a tempo of zero the beat is so long that the fraction does not
            // fit the public function's argument types; the beat duration
            // cancels out of the correction, and this computes it without it.
            beat_phase_correction(num, beat, tick, self.config.phase_gain)
        };
        assert(correction == spec_beat_correction(old(self)@, now_ns));
        if correction >= 0 {
            self.next_tick_ns = self.next_tick_ns.saturating_add(correction as u64);
        } else {
            self.next_tick_ns = self.next_tick_ns.saturating_sub((-correction) as u64);
        }
        self.phase_error_num = num;
        self.phase_error_den = den;
    }

    /// One clock pulse, its deadline reached at `now_ns`; returns what to send.
    pub fn clock_tick(&mut self, now_ns: u64) -> (actions: Vec<EngineAction>)
        ensures
            final(self)@ == spec_clock_tick(old(self)@, now_ns).0,
            actions@ == spec_clock_tick(old(self)@, now_ns).1,
            engine_model_wf(final(self)@),
    {
        proof {
            use_type_invariant(&*self);
        }
        let mut actions: Vec<EngineAction> = Vec::new();
        let next: u8 = if self.pulse_count + 1 > 24 { 1 } else { self.pulse_count + 1 };
        self.pulse_count = next;
        self.send_output(&mut actions, OutputCommand::ClockPulse);
        if self.pulse_count == 24 {
            self.apply_phase_correction(now_ns);
        }
        proof {
            use_type_invariant(&*self);
        }
        let tick = Config::tick_interval_ns(self.bpm);
        self.next_tick_ns = self.next_tick_ns.saturating_add(tick);
        proof {
            use_type_invariant(&*self);
            assert(actions@ =~= spec_clock_tick(old(self)@, now_ns).1);
        }
        actions
    }
}

} // verus!

