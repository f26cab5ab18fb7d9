# termpane

A terminal screen model, verified with Verus. A `DamageGrid` interprets the bytes
that a program writes to its terminal, records which cells changed and what has to
reach the outer terminal, and can write its own state back out as bytes that
reproduce it.

What is proved:

- every operation keeps the grid well formed (screen shape, wide pairs, cursor and
  scroll region, damage);
- `process` applies the model's meaning of each event, and a stream may be cut
  anywhere, also inside a character or a sequence;
- the bytes of `state_formatted` and `state_diff` reproduce the state when they are
  read back, those of `contents_*` the picture, and those of `input_mode_*` the modes;
- damage covers every cell that changed; no unlisted control sequence passes through.

## Layout

- `src/state.rs`, `src/model.rs`, `src/paint.rs`: the model that contracts speak of.
- `src/grid.rs`, `write.rs`, `scroll.rs`, `erase.rs`, `perform.rs`, `osc.rs`,
  `parse.rs`, `process.rs`, `access.rs`: the grid.
- `src/serialize.rs`, `snapshot.rs`, `replica.rs`: writing the state out, and views.
- `src/wellformed.rs`, `laws.rs`, `roundtrip.rs`: what holds of the whole;
  `canvas.rs`, `ops.rs`, `pen.rs`, `replay.rs`, `reproduce.rs` hold the proofs behind it.
- `src/vt.rs`, `width.rs`, `compact.rs`, `params.rs`, `bytes.rs`: the calls into
  `vte`, `unicode-width`, `compact_str`, `smallvec` and the standard library, each
  with the contract that is taken on trust.
- `app/`: the process-wide row pool and a grid that returns its rows when dropped.
