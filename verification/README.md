# fpv_editor

The verified core of an FPV video editor, written in Verus.

- `src/` is the library. Verus proves every function in it against its
  contract, except six small wrappers around `String` and the `uuid` crate
  (`push_char`, `lossy_string`, `utf8_string`, `debug_text`, `fresh_uuid`,
  `uuid_to_string`), whose contracts are trusted:
  - `timeline`: the project model, the edit commands, the command bus with
    undo/redo, and the laws that relate them;
  - `media`: FFmpeg argument lists for exports, previews and proxies, and
    the reading of `ffprobe` and FFmpeg output (including GoPro gyro data);
  - `import`, `updates`, `stabilize`, `gpu` (`.cube` LUT files), `ai`
    (tool catalog, tool routing, agent steps);
  - `text`: decimal printing and parsing shared by the modules above.
  Floating-point values are carried as their IEEE-754 bit patterns.
- `tests/` runs the library on concrete values.
- `app/` is the `fpv` command-line program around the library: files,
  processes, HTTP, the AI provider and MCP server, JSON, and the
  floating-point stabilization and color math.
