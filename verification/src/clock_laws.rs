//! Properties of the clock that hold across calls.
use vstd::prelude::*;
use crate::config::{spec_beat_duration_ns, spec_tick_interval_ns, lemma_durations_positive};
use crate::clock::{
    spec_to_stopped, spec_phase_correction, correction_cap,
    abs, spec_phase_error, spec_beat_correction, spec_clock_tick, spec_handle_input_event,
    spec_transition_to_running, spec_check_coasting, spec_loop_step, spec_send, spec_phase_sync,
    spec_wake, next_pulse, is_idle_or_stopped, EngineModel, EngineAction, LoopStep,
    GAIN_SCALE,
};
use crate::input::InputEvent;
use crate::state::{OutputCommand, PlayState};

verus! {

/// The correction at a beat boundary is never larger than 5% of a beat, and
/// always smaller than one pulse interval.
pub proof fn lemma_correction_within_pulse(m: EngineModel, now: u64)
    ensures
        abs(spec_beat_correction(m, now)) <= spec_beat_duration_ns(m.bpm as int) / 20,
        abs(spec_beat_correction(m, now)) < spec_tick_interval_ns(m.bpm as int),
{
    lemma_durations_positive(m.bpm);
    let beat = spec_beat_duration_ns(m.bpm as int);
    let elapsed = crate::clock::elapsed_ns(m.last_msg_ns, now);
    let phase = spec_phase_error(m.last_beat_distance as int, elapsed, beat);
    let x = abs(phase.0);
    let g = m.phase_gain as int;
    assert(x * beat * g >= 0) by (nonlinear_arith)
        requires
            x >= 0,
            beat >= 0,
            g >= 0,
    ;
    assert(phase.1 * GAIN_SCALE > 0) by (nonlinear_arith)
        requires
            phase.1 == 2 * (127 * beat),
            beat > 0,
    ;
    vstd::arithmetic::div_mod::lemma_div_pos_is_pos(x * beat * g, phase.1 * GAIN_SCALE);
}

/// Each pulse moves the next deadline strictly later (the correction can never
/// pull it back into the past), unless the deadline has reached the end of time.
pub proof fn lemma_tick_advances_deadline(m: EngineModel, now: u64)
    ensures
        spec_clock_tick(m, now).0.next_tick_ns > m.next_tick_ns
            || spec_clock_tick(m, now).0.next_tick_ns == u64::MAX,
{
    lemma_durations_positive(m.bpm);
    let m1 = EngineModel { pulse_count: next_pulse(m.pulse_count as int) as u8, ..m };
    lemma_correction_within_pulse(m1, now);
}

/// The pulse count after `k` pulses from a fresh start.
pub open spec fn pulses_after(k: nat) -> int
    decreases k,
{
    if k == 0 {
        0
    } else {
        next_pulse(pulses_after((k - 1) as nat))
    }
}

/// From a fresh start the pulse count runs 1, 2, ..., 24, 1, 2, ...: the
/// `k`-th pulse is a beat boundary (count 24) exactly when `k` is a multiple of 24.
pub proof fn lemma_pulse_cycle(k: nat)
    ensures
        k > 0 ==> pulses_after(k) == (k - 1) % 24 + 1,
        k > 0 ==> (pulses_after(k) == 24 <==> k % 24 == 0),
    decreases k,
{
    reveal_with_fuel(pulses_after, 2);
    if k > 0 {
        let x = (k - 1) as int;
        let q = x / 24;
        let r = x % 24;
        vstd::arithmetic::div_mod::lemma_fundamental_div_mod(x, 24);
        if r == 23 {
            vstd::arithmetic::div_mod::lemma_fundamental_div_mod_converse_mod(k as int, 24, q + 1, 0);
        } else {
            vstd::arithmetic::div_mod::lemma_fundamental_div_mod_converse_mod(k as int, 24, q, r + 1);
        }
        if k > 1 {
            lemma_pulse_cycle((k - 1) as nat);
            let y = (k - 2) as int;
            vstd::arithmetic::div_mod::lemma_fundamental_div_mod(y, 24);
            if y % 24 == 23 {
                vstd::arithmetic::div_mod::lemma_fundamental_div_mod_converse_mod(x, 24, y / 24 + 1, 0);
            } else {
                vstd::arithmetic::div_mod::lemma_fundamental_div_mod_converse_mod(x, 24, y / 24, y % 24 + 1);
            }
        }
    }
}

/// For a non-negative position the phase error lies in [-1/2, 1/2) of a beat:
/// a position in the first half of the beat is the error itself, one in the
/// second half is wrapped round to the error minus one beat.
pub proof fn lemma_phase_error_wraps(beat_distance: int, elapsed: int, beat: int)
    requires
        beat_distance >= 0,
        elapsed >= 0,
        beat > 0,
    ensures
        ({
            let d = 127 * beat;
            let position = (beat_distance * beat + 127 * elapsed) % d;
            let (num, den) = spec_phase_error(beat_distance, elapsed, beat);
            &&& den == 2 * d
            &&& -d <= num < d
            &&& 2 * position < d ==> num == 2 * position
            &&& 2 * position >= d ==> num == 2 * position - 2 * d
        }),
{
    let d = 127 * beat;
    assert(beat_distance * beat >= 0) by (nonlinear_arith)
        requires
            beat_distance >= 0,
            beat > 0,
    ;
    let position = (beat_distance * beat + 127 * elapsed) % d;
    assert(0 <= position < d);
    let s = 2 * position + d;
    if s < 2 * d {
        vstd::arithmetic::div_mod::lemma_small_mod(s as nat, (2 * d) as nat);
    } else {
        vstd::arithmetic::div_mod::lemma_mod_sub_multiples_vanish(s, 2 * d);
        vstd::arithmetic::div_mod::lemma_small_mod((s - 2 * d) as nat, (2 * d) as nat);
    }
}

/// A Start goes out only when the clock is woken from Idle or Stopped, a Stop
/// only when a running clock is stopped; events never send clock pulses.
pub proof fn lemma_event_commands(m: EngineModel, e: InputEvent, now: u64)
    ensures
        ({
            let (m2, acts) = spec_handle_input_event(m, e, now);
            &&& acts.contains(EngineAction::Send(OutputCommand::Start)) ==> is_idle_or_stopped(m.play_state)
                && m2.play_state == PlayState::WaitingForBeat
            &&& acts.contains(EngineAction::Send(OutputCommand::Stop)) ==> m.play_state == PlayState::Running
                && m2.play_state == PlayState::Stopped
            &&& !acts.contains(EngineAction::Send(OutputCommand::ClockPulse))
            &&& !acts.contains(EngineAction::Send(OutputCommand::Continue))
        }),
{
    let (m2, acts) = spec_handle_input_event(m, e, now);
    let m0 = EngineModel { last_msg_ns: now, ..m };
    reveal_with_fuel(Seq::contains, 1);
    assert forall|a: EngineAction| acts.contains(a) implies (a == EngineAction::Send(OutputCommand::Start)
        ==> is_idle_or_stopped(m.play_state) && m2.play_state == PlayState::WaitingForBeat) && (a
        == EngineAction::Send(OutputCommand::Stop) ==> m.play_state == PlayState::Running && m2.play_state
        == PlayState::Stopped) && a != EngineAction::Send(OutputCommand::ClockPulse) && a != EngineAction::Send(
        OutputCommand::Continue) by {
        let i = choose|i: int| 0 <= i < acts.len() && acts[i] == a;
        lemma_only_woken_start(m, e, now, i);
    }
}

proof fn lemma_only_woken_start(m: EngineModel, e: InputEvent, now: u64, i: int)
    requires
        0 <= i < spec_handle_input_event(m, e, now).1.len(),
    ensures
        ({
            let (m2, acts) = spec_handle_input_event(m, e, now);
            let a = acts[i];
            &&& a == EngineAction::Send(OutputCommand::Start) ==> is_idle_or_stopped(m.play_state)
                && m2.play_state == PlayState::WaitingForBeat
            &&& a == EngineAction::Send(OutputCommand::Stop) ==> m.play_state == PlayState::Running
                && m2.play_state == PlayState::Stopped
            &&& a != EngineAction::Send(OutputCommand::ClockPulse)
            &&& a != EngineAction::Send(OutputCommand::Continue)
        }),
{
}

/// A dry run hands nothing to the output: no step sends a command.
pub proof fn lemma_dry_run_sends_nothing(m: EngineModel, e: InputEvent, now: u64, c: OutputCommand)
    requires
        m.dry_run,
    ensures
        !spec_handle_input_event(m, e, now).1.contains(EngineAction::Send(c)),
        !spec_clock_tick(m, now).1.contains(EngineAction::Send(c)),
{
    let acts = spec_handle_input_event(m, e, now).1;
    if acts.contains(EngineAction::Send(c)) {
        let i = choose|i: int| 0 <= i < acts.len() && acts[i] == EngineAction::Send(c);
        assert(false);
    }
}

/// One thing the driving loop does to the engine: hand in an event, take
/// the step that the play state calls for, or check for coasting.
pub enum DriverInput {
    /// An event handed in at the first time; a `BeginRunning` among the
    /// actions it returns is carried out at the second.
    Event(InputEvent, u64, u64),
    Step(u64),
    Coast(u64),
}

/// What one event does when the driver carries out a `BeginRunning` among
/// its actions at `begin`.
pub open spec fn spec_driver_event(m: EngineModel, e: InputEvent, now: u64, begin: u64) -> (EngineModel, Seq<EngineAction>) {
    let handled = spec_handle_input_event(m, e, now);
    if handled.1.contains(EngineAction::BeginRunning) {
        (spec_transition_to_running(handled.0, begin), handled.1)
    } else {
        handled
    }
}

/// The effect of one driver input.
pub open spec fn spec_driver_step(m: EngineModel, input: DriverInput) -> (EngineModel, Seq<EngineAction>) {
    match input {
        DriverInput::Event(e, now, begin) => spec_driver_event(m, e, now, begin),
        DriverInput::Step(now) => match spec_loop_step(m.play_state) {
            LoopStep::Pause => (m, seq![]),
            LoopStep::EnterRunning => (spec_transition_to_running(m, now), seq![]),
            LoopStep::Pulse => spec_clock_tick(m, now),
        },
        DriverInput::Coast(now) => (spec_check_coasting(m, now).0, seq![]),
    }
}

/// The state after a run of driver inputs, and every action it produced.
pub open spec fn spec_run_driver(m: EngineModel, inputs: Seq<DriverInput>) -> (EngineModel, Seq<EngineAction>)
    decreases inputs.len(),
{
    if inputs.len() == 0 {
        (m, seq![])
    } else {
        let before = spec_run_driver(m, inputs.drop_last());
        let step = spec_driver_step(before.0, inputs.last());
        (step.0, before.1 + step.1)
    }
}

/// The Start and Stop commands among some actions, in order.
pub open spec fn lifecycle(acts: Seq<EngineAction>) -> Seq<OutputCommand>
    decreases acts.len(),
{
    if acts.len() == 0 {
        seq![]
    } else {
        let rest = lifecycle(acts.drop_last());
        match acts.last() {
            EngineAction::Send(OutputCommand::Start) => rest.push(OutputCommand::Start),
            EngineAction::Send(OutputCommand::Stop) => rest.push(OutputCommand::Stop),
            _ => rest,
        }
    }
}

/// Start, Stop, Start, Stop, ...
pub open spec fn alternates(l: Seq<OutputCommand>) -> bool {
    forall|i: int|
        0 <= i < l.len() ==> #[trigger] l[i] == (if i % 2 == 0 {
            OutputCommand::Start
        } else {
            OutputCommand::Stop
        })
}

proof fn lemma_lifecycle_append(a: Seq<EngineAction>, b: Seq<EngineAction>)
    ensures
        lifecycle(a + b) == lifecycle(a) + lifecycle(b),
    decreases b.len(),
{
    if b.len() == 0 {
        assert(a + b =~= a);
        assert(lifecycle(a) + lifecycle(b) =~= lifecycle(a));
    } else {
        lemma_lifecycle_append(a, b.drop_last());
        assert((a + b).drop_last() =~= a + b.drop_last());
        assert((a + b).last() == b.last());
        assert(lifecycle(a + b) =~= lifecycle(a) + lifecycle(b));
    }
}

proof fn lemma_lifecycle_single(x: EngineAction)
    ensures
        lifecycle(seq![x]) == (match x {
            EngineAction::Send(OutputCommand::Start) => seq![OutputCommand::Start],
            EngineAction::Send(OutputCommand::Stop) => seq![OutputCommand::Stop],
            _ => Seq::<OutputCommand>::empty(),
        }),
{
    reveal_with_fuel(lifecycle, 2);
    assert(seq![x].drop_last() =~= Seq::<EngineAction>::empty());
    assert(seq![x].last() == x);
    assert(lifecycle(Seq::<EngineAction>::empty()) == Seq::<OutputCommand>::empty());
    let r = lifecycle(seq![x]);
    assert(r =~= (match x {
        EngineAction::Send(OutputCommand::Start) => seq![OutputCommand::Start],
        EngineAction::Send(OutputCommand::Stop) => seq![OutputCommand::Stop],
        _ => Seq::<OutputCommand>::empty(),
    }));
}

/// How the Start/Stop commands sent so far fit the play state: they alternate,
/// their number is even exactly when the clock is idle or stopped (none at
/// all while idle), and a dry run sends none.
pub open spec fn lifecycle_consistent(m: EngineModel, l: Seq<OutputCommand>) -> bool {
    &&& alternates(l)
    &&& m.dry_run ==> l.len() == 0
    &&& !m.dry_run ==> {
        &&& m.play_state == PlayState::Idle ==> l.len() == 0
        &&& m.play_state == PlayState::Stopped ==> l.len() % 2 == 0
        &&& (m.play_state == PlayState::WaitingForBeat || m.play_state == PlayState::Running) ==> l.len() % 2 == 1
    }
}

proof fn lemma_send_lifecycle(m: EngineModel, c: OutputCommand)
    ensures
        lifecycle(spec_send(m, c)) == (if m.dry_run {
            Seq::<OutputCommand>::empty()
        } else if c == OutputCommand::Start {
            seq![OutputCommand::Start]
        } else if c == OutputCommand::Stop {
            seq![OutputCommand::Stop]
        } else {
            Seq::<OutputCommand>::empty()
        }),
{
    if !m.dry_run {
        lemma_lifecycle_single(EngineAction::Send(c));
    }
}

proof fn lemma_wake_lifecycle(m: EngineModel)
    ensures
        is_idle_or_stopped(m.play_state) ==> lifecycle(spec_wake(m).1) == (if m.dry_run {
            Seq::<OutputCommand>::empty()
        } else {
            seq![OutputCommand::Start]
        }),
        is_idle_or_stopped(m.play_state) ==> spec_wake(m).0.play_state == PlayState::WaitingForBeat,
        is_idle_or_stopped(m.play_state) ==> spec_wake(m).1.contains(EngineAction::BeginRunning),
        !is_idle_or_stopped(m.play_state) ==> spec_wake(m) == (m, Seq::<EngineAction>::empty()),
        spec_wake(m).0.dry_run == m.dry_run,
{
    if is_idle_or_stopped(m.play_state) {
        let acts = spec_wake(m).1;
        assert(acts[acts.len() - 1] == EngineAction::BeginRunning);
        let m1 = EngineModel { play_state: PlayState::WaitingForBeat, ..m };
        let sync = spec_phase_sync(m1);
        let start = spec_send(m, OutputCommand::Start);
        lemma_lifecycle_append(sync + start, seq![EngineAction::BeginRunning]);
        lemma_lifecycle_append(sync, start);
        lemma_lifecycle_single(EngineAction::BeginRunning);
        lemma_send_lifecycle(m, OutputCommand::Start);
        if sync.len() > 0 {
            lemma_lifecycle_single(sync[0]);
            assert(sync =~= seq![sync[0]]);
        } else {
            assert(sync =~= Seq::<EngineAction>::empty());
        }
        assert(lifecycle(sync) =~= Seq::<OutputCommand>::empty());
        let all = lifecycle(sync) + lifecycle(start) + lifecycle(seq![EngineAction::BeginRunning]);
        assert(all =~= lifecycle(start));
    }
}

/// Every clock pulse among `acts` comes after a Start with no Stop between:
/// an odd number of Start/Stop commands precede it.
pub open spec fn pulses_follow_start(acts: Seq<EngineAction>) -> bool {
    forall|i: int|
        0 <= i < acts.len() && #[trigger] acts[i] == EngineAction::Send(OutputCommand::ClockPulse)
            ==> lifecycle(acts.take(i)).len() % 2 == 1
}

/// What holds after any run of the driver from a fresh engine.
pub open spec fn run_invariant(m: EngineModel, acts: Seq<EngineAction>) -> bool {
    &&& lifecycle_consistent(m, lifecycle(acts))
    &&& m.play_state != PlayState::WaitingForBeat
    &&& !acts.contains(EngineAction::Send(OutputCommand::Continue))
    &&& pulses_follow_start(acts)
}

proof fn lemma_no_begin_in_send(m: EngineModel, c: OutputCommand)
    ensures
        !spec_send(m, c).contains(EngineAction::BeginRunning),
{
    if spec_send(m, c).contains(EngineAction::BeginRunning) {
        let i = choose|i: int| 0 <= i < spec_send(m, c).len() && spec_send(m, c)[i] == EngineAction::BeginRunning;
    }
}

proof fn lemma_step_keeps_invariant(m: EngineModel, before: Seq<EngineAction>, input: DriverInput)
    requires
        run_invariant(m, before),
    ensures
        run_invariant(spec_driver_step(m, input).0, before + spec_driver_step(m, input).1),
{
    let l = lifecycle(before);
    let (m2, acts) = spec_driver_step(m, input);
    match input {
        DriverInput::Event(e, now, begin) => {
            let m0 = EngineModel { last_msg_ns: now, ..m };
            lemma_event_commands(m, e, now);
            match e {
                InputEvent::BpmUpdate { bpm } => {
                    let clamped = crate::config::spec_clamp_bpm(bpm as int);
                    let m1 = if abs(clamped - m0.bpm) > crate::clock::BPM_CHANGE_THRESHOLD {
                        EngineModel { bpm: clamped as u32, ..m0 }
                    } else {
                        m0
                    };
                    lemma_wake_lifecycle(EngineModel { last_bpm_update_ns: Some(now), last_coast_warn_ns: None, ..m1 });
                },
                InputEvent::BeatDistance { value } => {
                    lemma_wake_lifecycle(EngineModel { last_beat_distance: value, ..m0 });
                },
                InputEvent::Playing => {
                    lemma_wake_lifecycle(m0);
                },
                InputEvent::Stopped => {
                    if m0.play_state == PlayState::Running {
                        lemma_send_lifecycle(m0, OutputCommand::Stop);
                        lemma_no_begin_in_send(m0, OutputCommand::Stop);
                    } else {
                        assert(lifecycle(acts) =~= Seq::<OutputCommand>::empty());
                    }
                },
            }
        },
        DriverInput::Step(now) => {
            match spec_loop_step(m.play_state) {
                LoopStep::Pulse => {
                    lemma_send_lifecycle(m, OutputCommand::ClockPulse);
                },
                _ => {
                    assert(lifecycle(acts) =~= Seq::<OutputCommand>::empty());
                },
            }
        },
        DriverInput::Coast(now) => {
            assert(lifecycle(acts) =~= Seq::<OutputCommand>::empty());
        },
    }
    let all = before + acts;
    lemma_lifecycle_append(before, acts);
    let l2 = l + lifecycle(acts);
    assert forall|i: int| 0 <= i < l2.len() implies #[trigger] l2[i] == (if i % 2 == 0 {
        OutputCommand::Start
    } else {
        OutputCommand::Stop
    }) by {
        if i < l.len() {
            assert(l2[i] == l[i]);
        }
    }
    assert forall|i: int|
        0 <= i < all.len() && #[trigger] all[i] == EngineAction::Send(OutputCommand::ClockPulse) implies lifecycle(
        all.take(i)).len() % 2 == 1 by {
        if i < before.len() {
            assert(all.take(i) =~= before.take(i));
            assert(all[i] == before[i]);
        } else {
            assert(acts[i - before.len()] == EngineAction::Send(OutputCommand::ClockPulse));
            assert(acts.contains(EngineAction::Send(OutputCommand::ClockPulse)));
            match input {
                DriverInput::Step(now) => {
                    assert(m.play_state == PlayState::Running);
                    assert(!m.dry_run);
                    assert(i == before.len());
                    assert(all.take(i) =~= before);
                },
                _ => {},
            }
        }
    }
    if all.contains(EngineAction::Send(OutputCommand::Continue)) {
        let i = choose|i: int| 0 <= i < all.len() && all[i] == EngineAction::Send(OutputCommand::Continue);
        if i < before.len() {
            assert(before[i] == all[i]);
        } else {
            assert(acts[i - before.len()] == all[i]);
        }
    }
}

/// Whatever the driving loop hands in, from a fresh (Idle) engine the Start
/// and Stop commands go out in alternation, Start first: the output never
/// sees two Starts or two Stops in a row, nor a Stop before a Start.
pub proof fn lemma_start_stop_alternate(m: EngineModel, inputs: Seq<DriverInput>)
    requires
        m.play_state == PlayState::Idle,
    ensures
        alternates(lifecycle(spec_run_driver(m, inputs).1)),
{
    lemma_run_lifecycle(m, inputs);
}

/// Over any run of the driver from a fresh (Idle) engine: Start and Stop
/// alternate, Start first; their number is even exactly when the clock is
/// idle or stopped, and none go out in a dry run; every clock pulse comes
/// after a Start with no Stop between; Continue is never sent; and between
/// inputs the clock is never left waiting for the beat, so WaitingForBeat is
/// never published.
pub proof fn lemma_run_lifecycle(m: EngineModel, inputs: Seq<DriverInput>)
    requires
        m.play_state == PlayState::Idle,
    ensures
        lifecycle_consistent(spec_run_driver(m, inputs).0, lifecycle(spec_run_driver(m, inputs).1)),
        spec_run_driver(m, inputs).0.play_state != PlayState::WaitingForBeat,
        !spec_run_driver(m, inputs).1.contains(EngineAction::Send(OutputCommand::Continue)),
        forall|i: int|
            0 <= i < spec_run_driver(m, inputs).1.len() && #[trigger] spec_run_driver(m, inputs).1[i]
                == EngineAction::Send(OutputCommand::ClockPulse) ==> {
                let l = lifecycle(spec_run_driver(m, inputs).1.take(i));
                l.len() > 0 && l.last() == OutputCommand::Start
            },
{
    lemma_run_keeps_invariant(m, inputs);
    let acts = spec_run_driver(m, inputs).1;
    assert forall|i: int|
        0 <= i < acts.len() && #[trigger] acts[i] == EngineAction::Send(OutputCommand::ClockPulse) implies {
        let l = lifecycle(acts.take(i));
        l.len() > 0 && l.last() == OutputCommand::Start
    } by {
        let l = lifecycle(acts.take(i));
        let k = (l.len() - 1) as int;
        lemma_lifecycle_prefix_alternates(acts, i);
        assert(l[k] == (if k % 2 == 0 { OutputCommand::Start } else { OutputCommand::Stop }));
    }
}

/// A prefix of alternating Start/Stop commands alternates too.
proof fn lemma_lifecycle_prefix_alternates(acts: Seq<EngineAction>, i: int)
    requires
        0 <= i <= acts.len(),
        alternates(lifecycle(acts)),
    ensures
        alternates(lifecycle(acts.take(i))),
{
    lemma_lifecycle_append(acts.take(i), acts.skip(i));
    assert(acts.take(i) + acts.skip(i) =~= acts);
    let p = lifecycle(acts.take(i));
    assert forall|j: int| 0 <= j < p.len() implies #[trigger] p[j] == (if j % 2 == 0 {
        OutputCommand::Start
    } else {
        OutputCommand::Stop
    }) by {
        assert(lifecycle(acts)[j] == p[j]);
    }
}

proof fn lemma_run_keeps_invariant(m: EngineModel, inputs: Seq<DriverInput>)
    requires
        m.play_state == PlayState::Idle,
    ensures
        run_invariant(spec_run_driver(m, inputs).0, spec_run_driver(m, inputs).1),
    decreases inputs.len(),
{
    if inputs.len() == 0 {
        assert(lifecycle(Seq::<EngineAction>::empty()) =~= Seq::<OutputCommand>::empty());
    } else {
        lemma_run_keeps_invariant(m, inputs.drop_last());
        let before = spec_run_driver(m, inputs.drop_last());
        lemma_step_keeps_invariant(before.0, before.1, inputs.last());
    }
}

/// Clock pulses go out only while the clock is running.
pub proof fn lemma_pulses_only_while_running(m: EngineModel, input: DriverInput)
    ensures
        spec_driver_step(m, input).1.contains(EngineAction::Send(OutputCommand::ClockPulse)) ==> m.play_state
            == PlayState::Running,
{
    let acts = spec_driver_step(m, input).1;
    if acts.contains(EngineAction::Send(OutputCommand::ClockPulse)) {
        match input {
            DriverInput::Event(e, now, begin) => {
                lemma_event_commands(m, e, now);
            },
            _ => {},
        }
    }
}

/// The tempo changes only on a BPM message, and then only to one within
/// 30..=300 BPM.
pub proof fn lemma_tempo_in_range(m: EngineModel, input: DriverInput)
    ensures
        spec_driver_step(m, input).0.bpm == m.bpm || (crate::config::MIN_BPM <= spec_driver_step(m, input).0.bpm
            <= crate::config::MAX_BPM),
{
}

/// The wait before the clock starts is at most one beat.
pub proof fn lemma_phase_sync_within_beat(m: EngineModel)
    ensures
        forall|i: int|
            0 <= i < spec_phase_sync(m).len() ==> (#[trigger] spec_phase_sync(m)[i] matches EngineAction::Sleep { ns }
                ==> ns <= spec_beat_duration_ns(m.bpm as int)),
{
    let n = m.last_beat_distance as int;
    let b = spec_beat_duration_ns(m.bpm as int);
    lemma_durations_positive(m.bpm);
    if 0 < n && !(100 * n > crate::clock::PHASE_SYNC_SKIP_PERCENT * 127) {
        assert((127 - n) * b <= 127 * b) by (nonlinear_arith)
            requires
                1 <= n <= 127,
                b >= 1,
        ;
        assert((127 - n) * b / 127 <= b) by (nonlinear_arith)
            requires
                (127 - n) * b <= 127 * b,
                (127 - n) * b >= 0,
        ;
        assert(b <= u64::MAX);
    }
}

/// Away from the beat boundary, consecutive pulse deadlines are a 24th of a
/// beat apart (24 pulses per quarter note), unless the deadline has reached
/// the end of time.
pub proof fn lemma_pulse_spacing(m: EngineModel, now: u64)
    requires
        next_pulse(m.pulse_count as int) != 24,
        m.bpm > 0,
    ensures
        spec_clock_tick(m, now).0.next_tick_ns == m.next_tick_ns + spec_beat_duration_ns(m.bpm as int) / 24
            || spec_clock_tick(m, now).0.next_tick_ns == u64::MAX,
{
    crate::config::lemma_tick_is_beat_over_24(m.bpm as int);
}

/// Stopping: the clock ends Stopped with everything else unchanged; one Stop
/// goes out exactly when it was not already stopped (and not a dry run), so
/// stopping twice in a row sends one Stop at most.
pub proof fn lemma_stop_idempotent(m: EngineModel)
    ensures
        spec_to_stopped(m).0 == (EngineModel { play_state: PlayState::Stopped, ..m }),
        spec_to_stopped(m).1 == (if m.play_state == PlayState::Stopped || m.dry_run {
            Seq::<EngineAction>::empty()
        } else {
            seq![EngineAction::Send(OutputCommand::Stop)]
        }),
        spec_to_stopped(spec_to_stopped(m).0).1 == Seq::<EngineAction>::empty(),
{
}

/// `p1 / q1 <= p2 / q2` (rounded down) when `p1 / q1 <= p2 / q2` exactly.
proof fn lemma_floor_div_monotone(p1: int, q1: int, p2: int, q2: int)
    requires
        p1 >= 0,
        p2 >= 0,
        q1 > 0,
        q2 > 0,
        p1 * q2 <= p2 * q1,
    ensures
        p1 / q1 <= p2 / q2,
{
    let f = p1 / q1;
    vstd::arithmetic::div_mod::lemma_fundamental_div_mod(p1, q1);
    vstd::arithmetic::div_mod::lemma_fundamental_div_mod(p2, q2);
    let g = p2 / q2;
    assert(f * q1 <= p1);
    assert(f * q2 <= p2) by (nonlinear_arith)
        requires
            f * q1 <= p1,
            p1 * q2 <= p2 * q1,
            q1 > 0,
            q2 > 0,
    ;
    assert(f <= g) by (nonlinear_arith)
        requires
            f * q2 <= p2,
            p2 == q2 * g + p2 % q2,
            p2 % q2 < q2,
            q2 > 0,
    ;
}

/// The correction never grows with the phase error: for phase errors
/// `n1 / d1 <= n2 / d2` the first correction is at least the second.
pub proof fn lemma_phase_correction_monotone(n1: int, d1: int, n2: int, d2: int, beat: int, tick: int, gain: int)
    requires
        d1 > 0,
        d2 > 0,
        beat >= 0,
        tick >= 1,
        gain >= 0,
        n1 * d2 <= n2 * d1,
    ensures
        spec_phase_correction(n1, d1, beat, tick, gain) >= spec_phase_correction(n2, d2, beat, tick, gain),
{
    let q1 = d1 * GAIN_SCALE;
    let q2 = d2 * GAIN_SCALE;
    let p1 = abs(n1) * beat * gain;
    let p2 = abs(n2) * beat * gain;
    assert(p1 >= 0 && p2 >= 0) by (nonlinear_arith)
        requires
            p1 == abs(n1) * beat * gain,
            p2 == abs(n2) * beat * gain,
            abs(n1) >= 0,
            abs(n2) >= 0,
            beat >= 0,
            gain >= 0,
    ;
    vstd::arithmetic::div_mod::lemma_div_pos_is_pos(p1, q1);
    vstd::arithmetic::div_mod::lemma_div_pos_is_pos(p2, q2);
    assert(correction_cap(beat, tick) >= 0) by {
        vstd::arithmetic::div_mod::lemma_div_pos_is_pos(beat, 20);
    }
    // The sign of n2 follows from that of n1 and the other way round.
    assert(n1 > 0 ==> n2 > 0) by (nonlinear_arith)
        requires
            n1 * d2 <= n2 * d1,
            d1 > 0,
            d2 > 0,
    ;
    assert(n2 < 0 ==> n1 < 0) by (nonlinear_arith)
        requires
            n1 * d2 <= n2 * d1,
            d1 > 0,
            d2 > 0,
    ;
    if n1 > 0 {
        assert(p1 * q2 <= p2 * q1) by (nonlinear_arith)
            requires
                n1 * d2 <= n2 * d1,
                n1 > 0,
                n2 > 0,
                p1 == n1 * beat * gain,
                p2 == n2 * beat * gain,
                q1 == d1 * 1000000,
                q2 == d2 * 1000000,
                beat >= 0,
                gain >= 0,
        ;
        lemma_floor_div_monotone(p1, q1, p2, q2);
    } else if n2 < 0 {
        assert(p2 * q1 <= p1 * q2) by (nonlinear_arith)
            requires
                n1 * d2 <= n2 * d1,
                n1 < 0,
                n2 < 0,
                p1 == (-n1) * beat * gain,
                p2 == (-n2) * beat * gain,
                q1 == d1 * 1000000,
                q2 == d2 * 1000000,
                beat >= 0,
                gain >= 0,
        ;
        lemma_floor_div_monotone(p2, q2, p1, q1);
    } else if n2 == 0 {
        assert(p2 == 0) by (nonlinear_arith)
            requires
                p2 == abs(n2) * beat * gain,
                abs(n2) == 0,
        ;
        vstd::arithmetic::div_mod::lemma_div_of0(q2);
    }
    assert(spec_phase_correction(n1, d1, beat, tick, gain) == (if n1 > 0 {
        -crate::clock::min(p1 / q1, correction_cap(beat, tick))
    } else {
        crate::clock::min(p1 / q1, correction_cap(beat, tick))
    }));
    assert(spec_phase_correction(n2, d2, beat, tick, gain) == (if n2 > 0 {
        -crate::clock::min(p2 / q2, correction_cap(beat, tick))
    } else {
        crate::clock::min(p2 / q2, correction_cap(beat, tick))
    }));
}

/// The correction is odd in the phase error: the opposite error gives the
/// opposite correction.
pub proof fn lemma_phase_correction_odd(n: int, d: int, beat: int, tick: int, gain: int)
    requires
        d > 0,
        beat >= 0,
        tick >= 1,
        gain >= 0,
    ensures
        spec_phase_correction(-n, d, beat, tick, gain) == -spec_phase_correction(n, d, beat, tick, gain),
{
    if n == 0 {
        assert(abs(n) * beat * gain == 0) by (nonlinear_arith)
            requires
                abs(n) == 0,
        ;
        vstd::arithmetic::div_mod::lemma_div_of0(d * GAIN_SCALE);
        vstd::arithmetic::div_mod::lemma_div_pos_is_pos(beat, 20);
    }
}

} // verus!
