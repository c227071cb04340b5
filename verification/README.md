# ForgePlayer

A media player: FFmpeg decodes, wgpu draws, and a library of plain logic in
between decides what happens. The library is written in Verus; every function in
`src/` is proved against its contract.

## Layout

- `src/` is the library. It does no input or output. Decoders, threads, queues
  and the GPU stand outside: the library is told what they answered, and says
  what to do next.
  - `bytes`, `text`, `timing`: numbers, characters and time.
  - `context`, `probe`, `hdr`, `hw_accel`, `launch`: opening a source, what it
    holds, how bright it is, and what may speed its decoding up.
  - `audio`, `pcm`, `tempo`, `video`, `pixel`, `subtitle`: what decoders give,
    and what becomes of it.
  - `demuxer`, `video_worker`, `seek`, `pipeline`, `cpu_probe`: the threads and
    what they tell each other.
  - `color`, `frame_upload`, `video_renderer`, `video_callback`, `zero_copy`,
    `icon`: the way to the screen.
- `app/` is the program: it calls FFmpeg, wgpu and egui, and follows the library.
- `tests/` runs the library on concrete values.

## Numbers

The library holds no floating-point number. Time is counted in nanoseconds, that
of sound with the fraction of one, so that counting samples does not drift;
speeds in units of 2⁻²⁵, fractions by numerator and denominator, and samples as
integers with a scale or as bit patterns. `app/convert.rs` turns them into floats.

## Laws

What holds of several functions together stands beside them as public proof
functions whose names start with `law_`.

## Trust

Verus takes one contract on trust: that `String::push` of the standard library
appends a character (`src/text.rs`).
