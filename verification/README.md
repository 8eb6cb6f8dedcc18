# mouse_trail

Records how a person moves the mouse, and replays a recorded movement to
carry the cursor from one point to another.

While training, a half-transparent box jumps around the screen; the user
chases it, and every movement that ends at rest inside the box is stored as
a trail file `<x0>-<y0>-<x1>-<y1>.json` in `./movements`. To move, the trail
whose horizontal and vertical spans are closest to the wanted move is
stretched onto it and replayed step by step, optionally ending in a click.

Layout:

- `src/` — the verified library (Verus):
  - `geometry.rs` — points, the box, `contains`, centring the box on a point;
  - `decimal.rs` — decimal text of `i32`, written and read back;
  - `trail_name.rs` — trail file names, with the proof that a name reads
    back as the trail's end points exactly when no coordinate is negative;
  - `trail.rs` — the trail that is stored, and the choice of the best trail;
  - `random.rs` — the one call into `rand`;
  - `tracker.rs` — what the window does on each message, as a function from
    state and message to new state and actions, with its invariants.
- `tests/` — tests of the library on concrete values.
- `app/` — the Windows program: command line, window, timers, cursor and
  mouse input, trail files on disk, and stretching a trail (which scales by
  a floating-point factor).
