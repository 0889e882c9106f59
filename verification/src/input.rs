use vstd::prelude::*;
use crate::config::{clamp_tempo, spec_clamp_bpm, MIN_BPM, MAX_BPM};

verus! {

/// Status byte of a pitch-bend message on channel 11: carries the tempo.
pub const PITCH_BEND_STATUS: u8 = 0xEA;
/// Status byte of a note-on message on channel 11: carries the beat distance.
pub const NOTE_ON_STATUS: u8 = 0x9A;
/// Status byte of a note-off message on channel 11: playback stopped.
pub const NOTE_OFF_STATUS: u8 = 0x8A;
/// The note on which beat messages arrive.
pub const BEAT_NOTE: u8 = 0x77;

/// What the DJ application reported.
///
/// `bpm` is in hundredths of a beat per minute. `value` is the distance of the
/// playhead from the next beat in 127ths of a beat (127 is a whole beat);
/// it is negative when the velocity byte exceeds 127.
#[derive(Debug, Clone, Copy, PartialEq, Eq, Structural)]
pub enum InputEvent {
    BpmUpdate { bpm: u32 },
    BeatDistance { value: i32 },
    Playing,
    Stopped,
}

/// The tempo a pitch-bend message states before clamping:
/// `data1 + 60` whole BPM plus `data2` hundredths.
pub open spec fn pitch_bend_bpm(data1: u8, data2: u8) -> int {
    (data1 + 60) * 100 + data2
}

/// The beat distance a note-on message states, in 127ths: `1 - data2 / 127`.
pub open spec fn note_on_beat_distance(data2: u8) -> int {
    127 - data2
}

/// The events that one incoming MIDI message stands for.
///
/// Only the first three bytes count; shorter messages and unknown ones mean nothing.
pub open spec fn spec_decode_events(msg: Seq<u8>) -> Seq<InputEvent> {
    if msg.len() < 3 {
        seq![]
    } else {
        let status = msg[0];
        let data1 = msg[1];
        let data2 = msg[2];
        if status == PITCH_BEND_STATUS {
            seq![
                InputEvent::BpmUpdate { bpm: spec_clamp_bpm(pitch_bend_bpm(data1, data2)) as u32 },
                InputEvent::Playing,
            ]
        } else if status == NOTE_ON_STATUS {
            if data1 == BEAT_NOTE {
                seq![
                    InputEvent::BeatDistance { value: note_on_beat_distance(data2) as i32 },
                    InputEvent::Playing,
                ]
            } else {
                seq![]
            }
        } else if status == NOTE_OFF_STATUS {
            if data1 == BEAT_NOTE {
                seq![InputEvent::Stopped]
            } else {
                seq![]
            }
        } else {
            seq![]
        }
    }
}

/// Decodes one incoming MIDI message into clock events.
pub fn decode_events(msg: &[u8]) -> (events: Vec<InputEvent>)
    ensures
        events@ == spec_decode_events(msg@),
        forall|i: int|
            0 <= i < events@.len() ==> (#[trigger] events@[i] matches InputEvent::BpmUpdate { bpm }
                ==> MIN_BPM <= bpm <= MAX_BPM),
        forall|i: int|
            0 <= i < events@.len() ==> (#[trigger] events@[i] matches InputEvent::BeatDistance {
                value,
            } ==> -128 <= value <= 127),
{
    let mut events: Vec<InputEvent> = Vec::new();
    if msg.len() < 3 {
        return events;
    }
    let status = msg[0];
    let data1 = msg[1];
    let data2 = msg[2];
    if status == PITCH_BEND_STATUS {
        let raw: u32 = ((data1 as u32) + 60) * 100 + (data2 as u32);
        let bpm = clamp_tempo(raw);
        events.push(InputEvent::BpmUpdate { bpm });
        events.push(InputEvent::Playing);
    } else if status == NOTE_ON_STATUS {
        if data1 == BEAT_NOTE {
            let value: i32 = 127 - (data2 as i32);
            events.push(InputEvent::BeatDistance { value });
            events.push(InputEvent::Playing);
        }
    } else if status == NOTE_OFF_STATUS {
        if data1 == BEAT_NOTE {
            events.push(InputEvent::Stopped);
        }
    }
    proof {
        assert(events@ =~= spec_decode_events(msg@));
    }
    events
}

/// Without any incoming message for longer than this, playback is taken as stopped.
pub const INPUT_WATCHDOG_NS: u64 = 5_000_000_000;

/// Whether the input has been silent for too long at `now_ns`, the last
/// message having arrived at `last_msg_ns` (a clock that went backwards
/// counts as no time at all).
pub fn input_watchdog_expired(last_msg_ns: u64, now_ns: u64) -> (r: bool)
    ensures
        r == (now_ns >= last_msg_ns && now_ns - last_msg_ns > INPUT_WATCHDOG_NS),
{
    now_ns.saturating_sub(last_msg_ns) > INPUT_WATCHDOG_NS
}

} // verus!
