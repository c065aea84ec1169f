# soundtouch

Tempo, pitch and playback-rate processing of audio streams, with its
sample buffers and processing rules verified with Verus.

## Layout

- `src/` — the verified library:
  - `aligned_buffer.rs`, `fifo_buffer.rs`: the sample storage and the
    first-in-first-out frame buffer that every processing stage reads from
    and writes to, with their laws (first in first out, moves keep every
    sample, written slack is appended).
  - `td_stretch.rs`: the integer settings of the time-domain stretcher
    (lengths in milliseconds and in samples, sample requirement, latency)
    and the emission of one stretched sequence.
  - `overlap_seek.rs`: which offsets the overlap search scores and which
    one wins, for the full and the quick search.
  - `soundtouch.rs`: processing guards and the table of settings.
  - `bpm_detect.rs`: the analysis window of the beat detector and its peak
    search.
  - `fir_filter.rs`, `types.rs`, `error.rs`, `interpolate.rs`,
    `fifo_pipe.rs`: filter length rules, setting identifiers, channel
    checks, errors.
  - `soundstretch.rs`: the command-line grammar of the `soundstretch` tool.
- `app/` — the `soundstretch` program and the floating-point signal
  processing (interpolation, filtering, correlation, cross-fading, beat
  analysis), WAV file I/O and the WebAssembly bindings.
- `tests/` — tests of the library.

Floating-point scores enter the verified searches as order keys: integers
that order as the scores do.
