# rgpre

Readers and converters for the asset files of the game Redguard, written
in Verus: the parsers, the scene planning and the command decisions are
verified against their contracts; a command-line tool turns them into
glTF, PNG, GIF, WAV, TTF and JSON files.

- `src/` — the verified library: parsers for textures (`bsi`), palettes,
  fonts, animated bitmaps (`gxa`), models (`model3d`, `rob`), scenes
  (`rgm`), terrain (`wld`), collision octrees (`pvo`), sounds (`sfx`,
  `rtx`), cheats and world settings; the file registry; scene planning;
  and the decisions of the command-line tool (`commands`).
- `tests/` — tests of the library.
- `app/` — the command-line tool: file I/O, floating-point transforms and
  glTF assembly around the library.
