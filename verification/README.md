# mgs2smf

A converter from MGSDRV `.MUS` music text (PSG, SCC and OPLL tracks written in
music macro language) to Standard MIDI Files, written in Verus: the conversion
is executable Rust whose behaviour is stated in contracts and proved.

## Layout

- `src/` is the verified library.
  - `cli`, `conversion`: the command line, and one conversion from a loaded source
    to the files that it writes.
  - `parser`: from bytes to a song. `loader` decodes, `statements` and
    `definitions` read the top level, `mml` reads the tracks, `loops` plays endless
    loops on to their common end, `invariants` proves what every track keeps,
    `sources` what holds of whole sources.
  - `smfmap`, `yaml`: the `.smfmap.yaml` configuration and the skeleton of one;
    `formula` computes the values that register rules give by a formula, `details`
    holds how envelopes, tones and the order of events are rendered.
  - `render`: from a song to MIDI events and to the bytes of a file. `balance` proves
    that every note that begins ends, `record` that reports stay, `order` and `file`
    that events are played and written in time.
  - `ir`, `fraction`, `diagnostics`, `report`, `json`: songs, exact positions, what
    is reported, its JSON text and how that is read.
- `app/` is the `mgs2smf` command: arguments, files and exit codes.
- `tests/` runs the library.

## What is proved

Each function states its result exactly, over mathematical views of the data.
Beside these contracts stand laws, as public proof functions: a report reads
back as what was reported, fractions stay in lowest terms and their sums can be
grouped, dots add up, endless loops end together, tracks with a channel of their
own keep it and the others do not take it, every note that begins ends, no event
is lost or moved back in time, the times in a file add up, the command line
counts over configurations, earlier events stay when a track cannot be read on,
what was reported stays when a song cannot be rendered, nothing counts behind
the end of a source, tracks come in the order in which they appear, and a strict
conversion writes no file with warnings.

## What is trusted

The decoding of Shift_JIS (`encoding_rs`), the reading of YAML (`serde_yaml`), the
validation of UTF-8 and `String::push` (the standard library). The functions that
make these calls say what is taken for granted.
