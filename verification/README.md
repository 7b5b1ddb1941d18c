# mixct

A voice-driven assistant that writes mix automation into a DAW over MIDI.
A spoken or typed command ("Violins are too soft in bars 26-29") is parsed
into an intent, checked against the session and the studio's synchronisation
state, planned as a pass over fader or EQ lanes, and written through a Mackie
Control or controller-learn backend, with an undo anchor to restore it.

## Layout

- `src/` — the library, verified with Verus: the runtime state machine,
  command parsing and routing, the session map and alias table, pass
  planning and the write schedule, pre-write and synchronisation checks,
  MIDI message framing and parsing (notes, controllers, pitch bend, Mackie
  Control transport, MIDI time code), hotkey seeks, the score timeline read
  from a standard MIDI file, the bookkeeping of the fader, time-code and
  audio monitors, restore from an undo anchor, and the speech front ends'
  handling of recognizer output.
- `tests/` — tests of the library.
- `app/` — the command-line program: MIDI and audio devices, files, the
  audit log, recognizer and voice processes, and the floating-point parts
  (curve values in dB, risk and confidence scores, signal analysis, seconds
  on a tempo map, transport seek loops).
