# SimonSaysSeeq for Norns: verified core

A gate and MIDI sequencer driven by two monome grids, the Norns keys and
encoders, and an external MIDI clock, with CO2-driven control voltages sent
to a Crow module.

## Layout

- `src/` is the library, verified with Verus. Every decision the program
  takes stands here with its contract: the sequencer (editing, undo/redo,
  Euclidean rhythms, step advancement, clock-division resets), what grid
  presses, keys, MIDI messages and SysEx commands do (`control`), MIDI
  encoding and decoding, port selection, the clock scanner, the OSC
  messages exchanged with serialosc and the LED state of the grids, the
  screen's pixel buffer, the CO2 record cursors, the test-script checks,
  and the command handling of the clock generator and detector programs.
  Laws that span several operations are public proof functions named
  `law_*`.
- `app/` is the program around it: devices, files, threads, timing and the
  floating-point tempo and voltage arithmetic. Its entry point takes the
  subcommands `automated-test-clock`, `clock-driven-test`, `midi-clock-generator`,
  `midi-clock-detector`, `test-co2-cv` and `startup-debug`; without one it
  runs the sequencer.
- `tests/` exercises the library on concrete values.

The only trusted items are thin wrappers around `rosc`'s OSC encoder and
decoder, `str::to_lowercase`, `char::is_numeric` and the system clock;
each names what it claims of the call in its doc comment.
