use vstd::prelude::*;
use crate::state::OutputCommand;

verus! {

/// The status byte of the MIDI real-time message for a command.
pub open spec fn command_status_byte(cmd: OutputCommand) -> u8 {
    match cmd {
        OutputCommand::ClockPulse => 0xF8,
        OutputCommand::Start => 0xFA,
        OutputCommand::Stop => 0xFC,
        OutputCommand::Continue => 0xFB,
    }
}

/// The bytes that go on the wire for a command: its one status byte.
pub fn command_bytes(cmd: OutputCommand) -> (bytes: Vec<u8>)
    ensures
        bytes@ == seq![command_status_byte(cmd)],
{
    let b: u8 = match cmd {
        OutputCommand::ClockPulse => 0xF8,
        OutputCommand::Start => 0xFA,
        OutputCommand::Stop => 0xFC,
        OutputCommand::Continue => 0xFB,
    };
    let mut v: Vec<u8> = Vec::new();
    v.push(b);
    v
}

} // verus!
