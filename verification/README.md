# mixxx_midi_clock

A daemon that listens to the BPM and beat-position messages Mixxx sends over
MIDI and drives a Novation Circuit Rhythm with MIDI clock (24 pulses per
quarter note), Start and Stop.

- `src/` is the verified library: decoding of the incoming MIDI messages
  (`input`), tempo arithmetic (`config`), the clock's state machine with its
  phase correction (`clock`, and the properties proved of it in
  `clock_laws`), the bytes of the outgoing messages (`output`), port
  selection by index or by name (`ports`) and the reported status (`state`).
- `app/` is the program around it: command line, MIDI I/O through ALSA,
  threads and channels, sleeping, logging and the status socket. It hands
  the engine each event with the current time and carries out the actions
  the engine returns.

All quantities in the library are integers: tempo in hundredths of a beat
per minute (the resolution of the pitch-bend message that carries it), beat
distance in 127ths of a beat (the velocity range of the note-on message),
time in nanoseconds since an origin the program chooses, phase errors as
fractions of a beat and the correction gain in millionths. The command line
still takes decimal BPM and gain; `app/cli.rs` converts them.
