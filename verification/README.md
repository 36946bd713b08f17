# harmoniq

The verified core of the Harmoniq Studio audio workstation, written in Verus.

- `src/` is the library. Verus proves every function in it against its contract:
  the channel rack (patterns, channels, step lanes, instrument slots), pattern
  scheduling into sample-accurate note events, step-to-MIDI conversion, stable
  ordering of timed items, voice allocation of the built-in synthesizers, plugin
  parameters and their validation, plugin descriptors, clip editing ranges, colour
  parsing and mixer skins, and the small helpers shared by engine and UI.
  Calls into `ringbuf` and a few `std` functions sit behind trusted wrappers whose
  doc comments say what is assumed of them. A few functions promise nothing of
  their result, because the result depends on the clock or on another thread, or
  because there is nothing to say: `SpanTimer::finish`, `RtReceiver::try_recv`,
  `rt_queue` and `CpalBackend::new`.
- `tests/` exercises the library through its public API.
- `app/` is ordinary Rust around the library: UI callback tables, the snapshot
  channel between threads, floating-point conversions (decibels, tempo, step lengths,
  SIMD lanes), error messages with floating-point values, and the C entry point of
  the plugin SDK.

Floating-point values that the library only stores or compares travel as their
`f32::to_bits` patterns; `float_order` orders them as the numbers they stand for.
