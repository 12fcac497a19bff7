# crate_library

The verified core of a desktop music-library manager for DJs, written in Verus.

- `src/` — the library, verified by Verus:
  - `text` — character-level string helpers (trimming, searching, decimals);
  - `schema` — the SQL migrations and which of them a database still needs;
  - `query` — the SQL and parameters of track listings and tag lookups;
  - `resolution` — which library root a file belongs to and where a track plays;
  - `library` — supported formats, import tallies, relocation checks, folder scans;
  - `analysis` — worker limits, the life cycle of an analysis task, the task registry;
  - `artwork` — where artwork is stored, which picture is used, image conversion;
  - `tags` — the metadata read from an audio file's tag;
  - `device` — FAT32 volume names, system-tool output, the removable-device list.
- `tests/` — tests of the library, run against the real outside crates.
- `app/` — the application shell: SQLite, the file system, audio decoding, disk
  tools and the event channel to the user interface.
