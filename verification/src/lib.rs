//! Following files that other programs write to, line by line.
//!
//! A [`file_watcher::FileWatcher`] decides how a file is read, cuts what is read
//! into lines, notices when the file is gone, has been truncated or has been
//! replaced, and accounts for the bytes that are lost if the file is given up
//! before it has been read.
//! The files themselves are opened and read by its owner.
pub mod byte_buffers;
pub mod clock;
pub mod delimiter;
pub mod file_watcher;
pub mod line_buffer;
pub mod line_laws;
pub mod paths;
pub mod start;
pub mod start_laws;
pub mod utc;
pub mod watcher_laws;
