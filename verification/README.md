# puget

Physical-modeling instruments (handpan, bowed, plucked and membrane drums,
mallets and bells) for plugins and Eurorack firmware, with their control
logic verified in Verus.

- `src/` is the verified library: the xorshift noise source, Euclidean
  rhythms and the step sequencer, a Schmitt-trigger gate input, the macro
  ids and presence sets, scales and the firmware's control codes, the voice
  allocator, the ensemble's player count and onset stagger, note-name and
  Scala (`.scl`) parsing. Every public function carries its contract, and the
  laws that span several calls are public proof functions beside them.
- `app/` is the `f32` layer around it: voltages and slews, the sound engines,
  the shared reverb, and the recording analyzer (FFT via `rustfft`, mp3 via
  `puremp3`). It calls the library for every decision that is not made on a
  float.
- `tests/` exercises the library on concrete values.
