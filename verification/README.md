# file_source

The part of a file source that follows one file: it decides from where a file
is read, cuts what is read into lines, notices when the file is gone, has been
truncated or has been replaced by another one, and accounts for the bytes that are lost if the file is
given up before it has been read.

- `src/` is the library. It does no input or output. Every function states what
  it does, and Verus proves it; `line_laws.rs` and `watcher_laws.rs` hold what is
  proved of the library as a whole. What it relies on of `bytes`, `chrono` and
  the standard library is stated in `byte_buffers.rs`, `utc.rs`, `clock.rs` and
  `paths.rs`.
- `app/` opens and reads the files.
- `tests/` runs the library on files in memory.
