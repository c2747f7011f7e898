# voidctl

A personal machine operations tool: project jump aliases and saved
per-project commands, a system hygiene scanner and interactive cleaner, and a
dotfiles drift auditor (symlink integrity, mode bits, repository status).

## Layout

- `src/` — the library, written in Verus and verified:
  - `text`, `order`, `paths`, `table` — strings, orderings, paths and a
    string-keyed map, with their specifications;
  - `config` — the configuration model and its defaults;
  - `jump`, `runner` — aliases and saved commands;
  - `clean` — cleanup categories and targets, build-artifact recognition,
    disk hotspots, the targets built from scanned sources and from the walk
    of the scan roots, the interactive
    selection, and the deletion plan and its accounting;
  - `drift` — `git status --porcelain` parsing and symlink classification;
  - `search` — pattern normalization, glob matching and the walk's choices;
  - `report` — table cells.
- `app/` — the command-line program around the library: argument parsing,
  the TOML configuration file, the file system, child processes, prompts and
  terminal output.
- `tests/` — tests of the library.
