use vstd::prelude::*;

verus! {

/// Lowest tempo the clock follows, in hundredths of a beat per minute (30 BPM).
pub const MIN_BPM: u32 = 3000;

/// Highest tempo the clock follows, in hundredths of a beat per minute (300 BPM).
pub const MAX_BPM: u32 = 30000;

/// One minute in nanoseconds, times 100 because tempos are in hundredths of a BPM.
pub const CENTI_MINUTE_NS: u64 = 6_000_000_000_000;

/// MIDI clock resolution: pulses per quarter note.
pub const PULSES_PER_BEAT: u8 = 24;

/// The daemon's settings.
///
/// `fallback_bpm` is in hundredths of a beat per minute (12000 is 120 BPM);
/// `phase_gain` is in millionths (150000 is a gain of 0.15).
#[derive(Debug, Clone)]
pub struct Config {
    /// Substring of the MIDI input port (the DJ application's output).
    pub input_port: Option<String>,
    /// Substring of the MIDI output port (the drum machine's input).
    pub output_port: Option<String>,
    /// Tempo used until the first BPM message arrives.
    pub fallback_bpm: u32,
    /// Share of the measured phase error corrected at each beat boundary.
    pub phase_gain: u32,
    /// List the MIDI ports and exit.
    pub list_ports: bool,
    /// Log commands instead of sending them.
    pub dry_run: bool,
    /// Send a MIDI Stop and exit.
    pub stop: bool,
    /// Print the daemon's status and exit.
    pub status: bool,
    /// Path of the status socket.
    pub status_socket: Option<String>,
}

/// `bpm` limited to the range the clock follows.
pub open spec fn spec_clamp_bpm(bpm: int) -> int {
    if bpm < MIN_BPM {
        MIN_BPM as int
    } else if bpm > MAX_BPM {
        MAX_BPM as int
    } else {
        bpm
    }
}

/// Nanoseconds between two clock pulses at `bpm` hundredths of a BPM, rounded
/// down; a tempo of zero gives the largest interval there is.
pub open spec fn spec_tick_interval_ns(bpm: int) -> int {
    if bpm == 0 {
        u64::MAX as int
    } else {
        (CENTI_MINUTE_NS as int) / ((PULSES_PER_BEAT as int) * bpm)
    }
}

/// Nanoseconds in one beat at `bpm` hundredths of a BPM, rounded down; a tempo
/// of zero gives the largest duration there is.
pub open spec fn spec_beat_duration_ns(bpm: int) -> int {
    if bpm == 0 {
        u64::MAX as int
    } else {
        (CENTI_MINUTE_NS as int) / bpm
    }
}

/// Limits a tempo to 30..=300 BPM.
pub fn clamp_tempo(bpm: u32) -> (r: u32)
    ensures
        r == spec_clamp_bpm(bpm as int),
        MIN_BPM <= r <= MAX_BPM,
{
    if bpm < MIN_BPM {
        MIN_BPM
    } else if bpm > MAX_BPM {
        MAX_BPM
    } else {
        bpm
    }
}

impl Config {
    /// Limits a tempo to 30..=300 BPM.
    pub fn clamp_bpm(&self, bpm: u32) -> (r: u32)
        ensures
            r == spec_clamp_bpm(bpm as int),
            MIN_BPM <= r <= MAX_BPM,
    {
        clamp_tempo(bpm)
    }

    /// Nanoseconds between two clock pulses (24 per beat) at a tempo.
    pub fn tick_interval_ns(bpm: u32) -> (r: u64)
        ensures
            r == spec_tick_interval_ns(bpm as int),
    {
        if bpm == 0 {
            u64::MAX
        } else {
            CENTI_MINUTE_NS / (24 * (bpm as u64))
        }
    }

    /// Nanoseconds in one beat at a tempo.
    pub fn beat_duration_ns(bpm: u32) -> (r: u64)
        ensures
            r == spec_beat_duration_ns(bpm as int),
    {
        if bpm == 0 {
            u64::MAX
        } else {
            CENTI_MINUTE_NS / (bpm as u64)
        }
    }
}

/// Clamping is idempotent, and leaves a tempo already in range unchanged.
pub proof fn lemma_clamp_bpm_idempotent(bpm: int)
    ensures
        spec_clamp_bpm(spec_clamp_bpm(bpm)) == spec_clamp_bpm(bpm),
        MIN_BPM <= bpm <= MAX_BPM ==> spec_clamp_bpm(bpm) == bpm,
{
}

/// At any nonzero tempo a pulse interval is the beat duration split into 24:
/// the interval is the beat duration divided by 24, rounded down.
pub proof fn lemma_tick_is_beat_over_24(bpm: int)
    requires
        0 < bpm,
    ensures
        spec_tick_interval_ns(bpm) == spec_beat_duration_ns(bpm) / (PULSES_PER_BEAT as int),
{
    vstd::arithmetic::div_mod::lemma_div_denominator(CENTI_MINUTE_NS as int, bpm, 24);
    vstd::arithmetic::mul::lemma_mul_is_commutative(bpm, 24);
}

/// Every tempo that fits a `u32` gives a beat and a pulse interval of at
/// least one nanosecond.
pub proof fn lemma_durations_positive(bpm: u32)
    ensures
        spec_beat_duration_ns(bpm as int) >= 1,
        spec_tick_interval_ns(bpm as int) >= 1,
{
    if bpm > 0 {
        let d = 24 * (bpm as int);
        vstd::arithmetic::div_mod::lemma_div_is_ordered(d, CENTI_MINUTE_NS as int, d);
        vstd::arithmetic::div_mod::lemma_div_by_self(d);
        vstd::arithmetic::div_mod::lemma_div_is_ordered(bpm as int, CENTI_MINUTE_NS as int, bpm as int);
        vstd::arithmetic::div_mod::lemma_div_by_self(bpm as int);
    }
}

/// Faster tempos never give longer pulse intervals or beats.
pub proof fn lemma_durations_shrink_with_tempo(a: int, b: int)
    requires
        0 < a <= b,
    ensures
        spec_tick_interval_ns(b) <= spec_tick_interval_ns(a),
        spec_beat_duration_ns(b) <= spec_beat_duration_ns(a),
{
    vstd::arithmetic::div_mod::lemma_div_is_ordered_by_denominator(CENTI_MINUTE_NS as int, a, b);
    vstd::arithmetic::mul::lemma_mul_inequality(a, b, 24);
    vstd::arithmetic::mul::lemma_mul_is_commutative(a, 24);
    vstd::arithmetic::mul::lemma_mul_is_commutative(b, 24);
    vstd::arithmetic::div_mod::lemma_div_is_ordered_by_denominator(CENTI_MINUTE_NS as int, 24 * a, 24 * b);
}

} // verus!
