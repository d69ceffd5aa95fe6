# contentos_core

The core of ContentOS, a desktop pipeline for producing short-form video:
ideas become reels with scripts built from reusable components, reels are
shot in batches, staged for DaVinci Resolve with ready timelines, filed back
as finals and published through a CSV bundle for Metricool. Everything is
kept in one SQLite database.

Layout:

- `src/` — the library, written and proved with Verus. Each module states its
  operations' contracts over plain values (`Seq<char>` views of strings,
  integers, options) and proves them. The laws of the pipeline (the status
  transition rule, the forward-only reel sync, shot-list de-duplication,
  slug shape, codes in generated file names) are proved of the verified
  decision functions that the database operations call: each operation reads
  what SQLite holds, hands it to such a function, and writes what that
  function returns (the statement parameters are built by verified
  functions with exact contracts). What SQLite itself stores and returns is
  not modelled, so no contract follows the database's contents from one
  call to the next.
  Calls into rusqlite, chrono, uuid, serde_json and blake3 go through small
  trusted wrappers whose contracts say what those crates document.
- `app/` — the program around it: the file-system side (walking folders,
  reading files in chunks for hashing, moving and linking files, ffprobe), backups on disk, the command
  layer and serialisable copies of the library's records.
- `tests/` — tests of the library against an in-memory database.
