# aperture_kill

The data side of the Aperture Kill platformer, written in Verus: level packages
(the binary chunk codec, the `world.index` and manifest text files, package path
and entry checks, the kind checks of reading a level back out of chunks), the keyed `.lvl` level text format, level progression and
difficulty tables, the level editor's selection and its whole-number editing steps (group,
layer, enemy spawn and portal ids; not delete, duplicate, undo or dragging, which
work on floating-point geometry), and the key
handling of the menus, the game and the level editor.

Layout:

- `src/` — the verified library. Each public function states what it returns in
  its `ensures`; the round-trip laws (chunk codec, world index, level file, keyed
  lines) are public proof functions (`binio`, `index_laws`, `level_file_laws`,
  `keyed`).
- `tests/` — tests on concrete values, run against the compiled library.
- `app/` — a small command-line front end: reading and writing files, the
  `f32` checks on number texts, and the `thiserror` error type.

The SHA-256 digest (`sha2`) and TOML parsing (`toml`) are called through
trusted wrappers in `src/package.rs` and `src/manifest.rs`; two std calls
(`String::push`, `String::from_utf8`) have wrappers in `src/strutil.rs` and
`src/binio.rs`. Each has a doc comment that says what its contract assumes.
