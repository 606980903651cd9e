# vzglyd_clock

An analog clock slide for the vzglyd display engine: a dial with a bezel,
hour markers and three hands, a glowing halo and a sky backdrop.

- `src/` is the verified library (Verus):
  - `noise`: the 96×96 RGBA noise texture, with the hash-to-byte mapping of
    single-precision arithmetic computed exactly in integers;
  - `topology`: 16-bit index buffers of quads, fans, annuli and boxes, and of
    whole meshes laid out from a plan of shapes;
  - `cell`: the corner order of the faces of a box and of an annulus segment,
    with the proof that every face winds outward;
  - `scene`: the parts of the clock body and glow, their index buffers and the
    draw plan;
  - `wire`: the version byte in front of the serialized slide description.
- `app/` holds what stays plain Rust: the float geometry (glam), the
  `vzglyd_slide` description and its postcard serialization, the JSON
  parameters and the exported wasm entry points.
- `tests/` runs the library, including a comparison of the noise texture with
  the float expression it reproduces.
