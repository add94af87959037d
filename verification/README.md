# alacritty front-end logic, verified

The decisions and data handling of the terminal's display front end, written
in Verus with contracts over mathematical models:

- `src/shaping.rs` — line shaping with `rustybuzz`: ligature and
  texture-healing layout per cell, feature tag parsing, a bounded shape cache
  that always agrees with shaping afresh.
- `src/shader.rs` — custom post-process shaders: source preprocessing,
  `#pragma include` line handling, and the bookkeeping of the shader chain's
  framebuffers (what to create, bind and delete).
- `src/cursor.rs` — cursor tracking for the shaders (movement, trails, mode
  changes, secondary cursors) and the uniform arrays built from it.
- `src/display.rs` — pending display and renderer updates, frame pacing,
  cursor counts, line indicator, hyperlink preview placement, search bar.
- `src/ime.rs` — input method state, preedit widths and preedit layout.
- `src/size_info.rs`, `src/config.rs`, `src/memory.rs`, `src/text.rs` — grid
  size bookkeeping, the general configuration section, reading `statm`, and
  the text helpers the rest builds on.

`app/` holds what stays outside verification: file and process I/O, clocks,
serde forms of the configuration, and the floating-point pixel geometry.
`tests/` exercises the library on concrete values.
