# valle-motion

Backend-neutral motion scenes: typed expressions that give every frame its values, CSS layout of
scene trees, glass surfaces and 3D planes, and the recording of a frame as drawing commands. The
library is written in Verus: every function states what it returns, and Verus proves it.

## Layout

- `src/` is the library.
  - Values and expressions: `scalar`, `value`, `expr`, `admission`, `typing`, `eval`, `passes`,
    `folding`, `determinism`.
  - Geometry: `path`, `contours`, `measure`, `trimming`, `arc_lengths`, `pieces`,
    `outlines`, `sampling`.
  - Scenes and layout: `artifact`, `surface`, `declarations`, `nodes`, `boxes`, `spaces`, `frames`,
    `stages`, `layout_tree`, `trees`, `layout_cache`, `visibility`.
  - Glass: `glass`, `structure`, `rooted`, `schema`, `schema_laws`, `continuity`, `tracks`,
    `glass_frame`, `glass_layout`.
  - Text: `units`, `text_units`, `text_paths`, `clusters`, `projection`, `glyphs`.
  - Recording: `recording`, `emitter`, `shell`, `frame`, `content`, `runs`, `gradient_record`,
    `painting`, `readiness`, `scene_frames`.
- `tests/` runs the library on concrete values.
- `app/` is the host: floating-point arithmetic, polygon operations, the layout engine, the wire
  forms of inspection, and `engine`, which takes a scene through the library from end to end. The
  recording tables, the canonical form of 3D requests and the functions under fixed versions are an
  embedder's.

## Numbers

A number of a scene is a `Scalar`: the bit pattern of a double. The library compares, classifies and
passes numbers on; arithmetic is done by functions that the host hands in, and contracts say which
question was asked and what was done with the answer.

## Trust

Calls into sha2, ttf-parser, cssparser and takumi-core stand behind small functions whose contracts
are believed, each with a doc comment that says what it claims.
