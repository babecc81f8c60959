# xvisual

A real-time terminal audio visualizer: PipeWire audio goes through a
lock-free ring buffer to one of six animated screens drawn with crossterm.

The crate is split in two:

- `src/` is a Verus-verified library holding the integer logic of the
  visualizer: the xorshift generator (`rng`), frame decoding of the capture
  stream (`pcm`), the ring buffer ends with their ghost accounts and the only calls into ringbuf
  (`ring`), offering and the per-frame drain over those accounts (`feed`), the
  band partition of a sample window and column-to-band mapping (`bands`),
  screen layout (`layout`), menu keys and screens (`menu`), peak hold
  (`peak`), the dashboard's gears, boost and arc zones (`dashboard`), shade
  glyphs (`glyphs`), the synapse picking of the neural screen (`links`) and
  the particle culling (`cull`). Each public function states its result in
  its contract (for the ring buffer, over the accounts of the calls its two
  ends made, since the other thread decides what comes back); proof functions state the laws that tie them together.
- `app/` is the program around it: audio capture, terminal drawing and the
  frame loops, which work in floating point and call the library for every
  integer decision.

`tests/` exercises the library on concrete values.
