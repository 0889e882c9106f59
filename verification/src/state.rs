use vstd::prelude::*;
use vstd::string::StringExecFns;
use crate::config::Config;

verus! {

/// Where the clock is in its life cycle.
#[derive(Debug, Clone, Copy, PartialEq, Eq, Structural)]
pub enum PlayState {
    Idle,
    WaitingForBeat,
    Running,
    Stopped,
}

impl Default for PlayState {
    fn default() -> (s: Self)
        ensures
            s == PlayState::Idle,
    {
        PlayState::Idle
    }
}

impl PlayState {
    /// The name under which the state is reported.
    pub open spec fn spec_name(self) -> Seq<char> {
        match self {
            PlayState::Idle => "Idle"@,
            PlayState::WaitingForBeat => "WaitingForBeat"@,
            PlayState::Running => "Running"@,
            PlayState::Stopped => "Stopped"@,
        }
    }

    /// The name under which the state is reported (its variant's name).
    pub fn name(&self) -> (r: &'static str)
        ensures
            r@ == self.spec_name(),
    {
        match self {
            PlayState::Idle => "Idle",
            PlayState::WaitingForBeat => "WaitingForBeat",
            PlayState::Running => "Running",
            PlayState::Stopped => "Stopped",
        }
    }
}

/// A MIDI real-time message that the clock asks the output side to send.
#[derive(Debug, Clone, Copy, PartialEq, Eq, Structural)]
pub enum OutputCommand {
    ClockPulse,
    Start,
    Stop,
    Continue,
}

/// What the daemon reports about itself on its status socket.
///
/// `bpm` is in hundredths of a BPM; the phase error measured at the last beat
/// boundary is `phase_error_num / phase_error_den` of a beat.
#[derive(Debug)]
pub struct DaemonStatus {
    pub play_state: String,
    pub bpm: u32,
    pub phase_error_num: i128,
    pub phase_error_den: i128,
    pub input_port: Option<String>,
    pub output_port: Option<String>,
    pub pulse_count: u8,
}

/// A copy of an optional string.
fn copy_port(p: &Option<String>) -> (r: Option<String>)
    ensures
        r == *p,
{
    match p {
        Some(s) => Some(s.clone()),
        None => None,
    }
}

impl DaemonStatus {
    /// The status before the clock has run: Idle at the fallback tempo.
    pub fn new(config: &Config) -> (st: Self)
        ensures
            st.play_state@ == PlayState::Idle.spec_name(),
            st.bpm == config.fallback_bpm,
            st.phase_error_num == 0,
            st.phase_error_den == 1,
            st.input_port == config.input_port,
            st.output_port == config.output_port,
            st.pulse_count == 0,
    {
        DaemonStatus {
            play_state: String::from_str(PlayState::Idle.name()),
            bpm: config.fallback_bpm,
            phase_error_num: 0,
            phase_error_den: 1,
            input_port: copy_port(&config.input_port),
            output_port: copy_port(&config.output_port),
            pulse_count: 0,
        }
    }
}

} // verus!
