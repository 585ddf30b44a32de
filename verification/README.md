# octave

Recording and playback of 32-bit float audio, and the sessions, tools and
workspace state that a digital audio workstation builds on them. The library is
written in Verus: what each function returns and changes is stated in its
contract and proved.

## Layout

- `src/` — the verified library.
  - `audio_devices` — device identifiers, capabilities, and a catalog of what the
    backends list.
  - `recorder` — capture callback, WAV/RF64 writer, recording sessions.
  - `player` — WAV parser, sources, reader, output callback, playback sessions.
  - `mcp`, `engine` — the audio tool server: sessions, commands, replies.
  - `handler` — the state behind the handler server: selected devices, active
    sessions, the history of takes, and its revision; folding a take to mono.
  - `shell` — what the desktop shell decides.
  - `ring`, `samples`, `bytes`, `meter`, `frames`, `ids`, `text`, `strings`,
    `tools` — what these share.
- `tests/` — tests of the library.
- `app/` — the program around it: audio streams, files, threads, the tool
  servers' transport, and floating-point arithmetic.

## Samples

A sample is the bit pattern of an `f32`. Everything that the library decides about
samples (finite or not, the largest magnitude, the order in which they travel)
is a statement about these integers. Mean squares and decibels are computed in
`app/levels.rs`.

## Laws

Properties that span several functions are public proof functions whose names
start with `law_`: a finished file parses back, a recording plays back bit for
bit, the ring keeps the order of samples, a refused command changes nothing.
