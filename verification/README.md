# shimmer_granular

A granular shimmer reverb, split in two:

- `src/` — the verified library: power-of-two sizing, the delay line
  and ring buffer that hold the audio history (generic over the sample type,
  with every wrapped index proved equal to the Euclidean remainder), the
  xorshift32 jitter generator, the tempo-sync division table, the grain
  scheduler's slot choice and phase cycling, and the shimmer branch's on/off
  gate and delay-mode selection.
- `app/` — the plugin itself: the `f32` signal path (filters, allpasses,
  feedback delay network, early reflections, grains, grain delay), the
  nih_plug parameters and the egui editor, built on the library.
- `tests/` — executable tests of the library.
