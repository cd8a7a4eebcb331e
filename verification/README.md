# grit

A small reimplementation of git's object store, verified with Verus.

- `src/path.rs` — paths as sequences of components (join, pop).
- `src/repo.rs` — repositories and the upward search for `.git`.
- `src/objects/` — object kinds, ids (hex text, fan-out), the store
  representation `"<kind> <len>\0<data>"`, its parser, and loose
  (zlib-compressed) object files; `format.rs` holds the format's
  specification and the proof that reading what was written gives it back.
- `src/commands/init.rs` — the directories and files of a new repository.
- `src/codec.rs` — the calls into `sha1`, `flate2`, `hex` and
  `std::str::from_utf8`, with the contracts the rest of the proof relies on.
- `app/` — the `grit` command line and the filesystem reads and writes.
