# multi-audio-sink

A terminal tool for managing audio outputs on Linux systems running PipeWire
or PulseAudio through `pactl`: list outputs and streams, set the default
output, move streams, combine several outputs into one and remove such
combinations.

## Layout

- `src/` — the library, verified with Verus:
  - `text.rs`: character-sequence operations on `pactl` output (trimming,
    splitting, joining, decimal numbers) with their specifications;
  - `models.rs`: devices, streams, combined groups and the audio snapshot;
  - `parser.rs`: from the decoded `pactl` records to the model;
  - `backend.rs`: the argument list of every `pactl` command, the reading of
    command output and the assembly of a snapshot (group membership, stale
    combined outputs, recovered module indices);
  - `app.rs`: application state, the combine wizard and the outcome of each
    backend action;
  - `events.rs`: what every key press does on every screen;
  - `view.rs`, `logging.rs`: what the screens and the debug log show;
  - `laws.rs`: properties of the library as a whole.
- `tests/` — tests of the library on concrete values.
- `app/` — the program: command line, terminal, drawing, running `pactl`,
  decoding its JSON and the debug log file.
