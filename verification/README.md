# memscope

Memory layout analysis of ARM embedded ELF binaries: Flash and RAM usage,
gaps, overlaps, alignment padding, stack/heap headroom, interrupt vector
tables, binary-to-binary diffs, exports (JSON report, CSV, Markdown) and an
interactive terminal explorer.

The library under `src/` is written in Verus; every function in it carries a
contract that Verus proves. Calls into `goblin` (ELF parsing), `fuzzy-matcher`
(fuzzy search) and a few `std` routines go through small trusted wrappers
whose contracts say what those crates document. Reading the clock for report
time stamps is left to `app/`.

- `src/elf` — reading ELF images, building the memory layout, analysis
- `src/linker` — the `MEMORY` block of linker scripts
- `src/diff` — comparing two layouts, and the laws comparisons obey
- `src/vector` — interrupt vector tables and the ARM exception database
- `src/symbol` — symbol filters and fuzzy search
- `src/export` — CSV and Markdown text, the JSON report's content
- `src/ui` — the explorer's data, key handling, memory map and statistics
- `app/` — the command line: arguments, files, terminal output, the
  ratatui front end and JSON serialisation with serde
- `tests/` — tests of the library
