//! The count of dropped bytes, in the situations in which a file is given up.
use bytes::Bytes;
use file_source::clock::starting_instant;
use file_source::file_watcher::{
    FileWatcher, FoundFile, RawLineResult, ReadAction, ReadEvent,
};
use file_source::start::{is_gzipped, OpenedFile, ReadFrom, ReaderPlan};
use std::path::PathBuf;

/// A file in memory.
struct MemoryFile {
    devno: u64,
    inode: u64,
    content: Vec<u8>,
}

impl MemoryFile {
    fn new(inode: u64, content: &str) -> MemoryFile {
        MemoryFile { devno: 1, inode, content: content.as_bytes().to_vec() }
    }

    fn found(&self) -> FoundFile {
        FoundFile {
            devno: self.devno,
            inode: self.inode,
            size: Some(self.content.len() as u64),
            gzipped: is_gzipped(&self.content),
        }
    }

    /// Starts to watch the file.
    fn watch(&self, path: &str, read_from: ReadFrom) -> FileWatcher {
        let opened = OpenedFile {
            devno: self.devno,
            inode: self.inode,
            size: self.content.len() as u64,
            modified: None,
            gzipped: is_gzipped(&self.content),
        };
        let sought = match opened.plan(read_from, None) {
            ReaderPlan::SeekTo(position) => position,
            ReaderPlan::SeekToEnd => self.content.len() as u64,
            ReaderPlan::Nothing(_) | ReaderPlan::Decompress => 0,
        };
        FileWatcher::new(
            PathBuf::from(path),
            read_from,
            None,
            100_000,
            Bytes::from("\n"),
            opened,
            sought,
            starting_instant(None),
        )
    }

    /// Reads a line, in chunks of at most seven bytes.
    fn read_line(&self, fw: &mut FileWatcher) -> RawLineResult {
        let size = if is_gzipped(&self.content) { None } else { Some(self.content.len() as u64) };
        let (mut read, _) = fw.start_read(size);
        loop {
            let position = fw.get_file_position() as usize;
            let start = position.min(self.content.len());
            let end = (start + 7).min(self.content.len());
            match fw.read_line(&mut read, ReadEvent::Available(&self.content[start..end])) {
                ReadAction::Continue { used } => {
                    assert_eq!(fw.get_file_position() as usize, position + used);
                }
                ReadAction::Finish { used, result } => {
                    assert_eq!(fw.get_file_position() as usize, position + used);
                    return result;
                }
                ReadAction::Fail(_) | ReadAction::OutOfRoom => panic!("could not read"),
            }
        }
    }

    /// Reads all lines that are there.
    fn read_all_lines(&self, fw: &mut FileWatcher) -> Vec<String> {
        let mut lines = Vec::new();
        while let Some(line) = self.read_line(fw).raw_line {
            lines.push(String::from_utf8_lossy(&line.bytes).to_string());
        }
        lines
    }
}

#[test]
fn test_bytes_dropped_zero_when_eof_reached() {
    let file = MemoryFile::new(1, "line1\nline2\nline3\n");
    let mut fw = file.watch("test.log", ReadFrom::Beginning);

    let lines = file.read_all_lines(&mut fw);
    assert_eq!(lines.len(), 3);
    assert_eq!(lines, vec!["line1", "line2", "line3"]);
    assert!(fw.reached_eof());

    assert_eq!(fw.get_bytes_dropped(), 0);
}

#[test]
fn test_bytes_dropped_nonzero_when_not_fully_read() {
    let content = "aaaaaaaaa\nbbbbbbbbb\nccccccccc\n";
    assert_eq!(content.len(), 30);
    let file = MemoryFile::new(1, content);
    let mut fw = file.watch("test.log", ReadFrom::Beginning);

    match file.read_line(&mut fw).raw_line {
        Some(line) => assert_eq!(line.bytes.as_ref(), b"aaaaaaaaa"),
        None => panic!("expected to read a line"),
    }

    assert_eq!(fw.get_bytes_dropped(), 20);
}

#[test]
fn test_bytes_dropped_zero_when_read_from_end() {
    let file = MemoryFile::new(1, "old_line1\nold_line2\n");
    let mut fw = file.watch("test.log", ReadFrom::End);
    assert_eq!(fw.get_bytes_dropped(), 0);

    let lines = file.read_all_lines(&mut fw);
    assert!(lines.is_empty());

    assert_eq!(fw.get_bytes_dropped(), 0);
}

#[test]
fn test_bytes_dropped_with_checkpoint_resume() {
    let file = MemoryFile::new(1, "aaaaaaaaa\nbbbbbbbbb\nccccccccc\n");
    let mut fw = file.watch("test.log", ReadFrom::Checkpoint(10));

    match file.read_line(&mut fw).raw_line {
        Some(line) => assert_eq!(line.bytes.as_ref(), b"bbbbbbbbb"),
        None => panic!("expected to read a line"),
    }

    assert_eq!(fw.get_bytes_dropped(), 10);
}

#[test]
fn test_bytes_dropped_file_deleted_before_eof() {
    let content = "aaaaaaaaaa\nbbbbbbbbbb\ncccccccccc\ndddddddddd\neeeeeeeeee\n";
    assert_eq!(content.len(), 55);
    let file = MemoryFile::new(1, content);
    let mut fw = file.watch("test.log", ReadFrom::Beginning);

    for _ in 0..2 {
        assert!(file.read_line(&mut fw).raw_line.is_some(), "expected to read a line");
    }

    fw.set_file_findable(false);

    assert_eq!(fw.get_bytes_dropped(), 33);
    assert!(!fw.reached_eof());
}

#[test]
fn test_update_path_same_inode_no_bytes_dropped() {
    let file = MemoryFile::new(1, "line1\nline2\nline3\n");
    let mut fw = file.watch("test.log", ReadFrom::Beginning);
    assert!(file.read_line(&mut fw).raw_line.is_some(), "expected to read a line");

    assert!(!fw.is_replaced_by(file.devno, file.inode));
    let result = fw.update_path(PathBuf::from("test.log.1"), file.found());
    assert!(result.is_none());
    assert_eq!(fw.path, PathBuf::from("test.log.1"));
    assert_eq!(fw.path(), &fw.path);
    assert_eq!(fw.get_file_position(), 6);
    assert_eq!(fw.get_bytes_dropped(), 12);
}

#[test]
fn test_update_path_different_inode_returns_bytes_dropped() {
    let file = MemoryFile::new(1, "line1\nline2\nline3\n");
    let mut fw = file.watch("test.log", ReadFrom::Beginning);
    assert!(file.read_line(&mut fw).raw_line.is_some(), "expected to read a line");

    let replacement = MemoryFile::new(2, "new_line1\nnew_line2\n");
    assert!(fw.is_replaced_by(replacement.devno, replacement.inode));
    assert!(matches!(fw.plan_replacement(false), ReaderPlan::SeekTo(6)));
    let inode_change = fw.update_path(PathBuf::from("test.log"), replacement.found());
    assert!(inode_change.is_some());

    let info = inode_change.unwrap();
    assert_eq!(info.bytes_dropped, 12);
    assert!(!info.reached_eof);
    assert_eq!(info.path, PathBuf::from("test.log"));
    assert_eq!(info.clone().bytes_dropped, 12);

    assert_eq!(fw.get_file_position(), 6);
    assert_eq!(fw.get_bytes_dropped(), 14);
    assert!(fw.update_path(PathBuf::from("test.log"), replacement.found()).is_none());
}

#[test]
fn test_bytes_dropped_empty_file() {
    let file = MemoryFile::new(1, "");
    let mut fw = file.watch("test.log", ReadFrom::Beginning);

    let lines = file.read_all_lines(&mut fw);
    assert!(lines.is_empty());

    assert_eq!(fw.get_bytes_dropped(), 0);
}

#[test]
fn test_bytes_dropped_large_file_partial_read() {
    let line = "x".repeat(99) + "\n";
    let mut content = String::new();
    for _ in 0..1000 {
        content.push_str(&line);
    }
    let total_size = content.len() as u64;
    assert_eq!(total_size, 100_000);
    let file = MemoryFile::new(1, &content);
    let mut fw = file.watch("test.log", ReadFrom::Beginning);

    for _ in 0..100 {
        assert!(file.read_line(&mut fw).raw_line.is_some(), "expected to read a line");
    }

    assert_eq!(fw.get_bytes_dropped(), total_size - 10_000);
}

#[test]
fn test_bytes_dropped_file_grows_after_watcher_created() {
    let mut file = MemoryFile::new(1, "line1\nline2\n");
    let mut fw = file.watch("test.log", ReadFrom::Beginning);

    file.content.extend_from_slice(b"line3\nline4\n");

    for _ in 0..2 {
        assert!(file.read_line(&mut fw).raw_line.is_some(), "expected to read a line");
    }

    assert_eq!(fw.get_bytes_dropped(), 0);
}

#[test]
fn nothing_is_dropped_once_the_end_is_reached() {
    // Of a compressed file there is nothing to be read past a checkpoint.
    let mut file = MemoryFile::new(1, "");
    file.content = vec![0x1f, 0x8b, 8, 0, 0, 0];
    let mut fw = file.watch("test.log.gz", ReadFrom::Checkpoint(2));
    assert_eq!(fw.get_bytes_dropped(), 4);

    let (mut read, truncated) = fw.start_read(None);
    assert!(!truncated);
    let action = fw.read_line(&mut read, ReadEvent::Available(&[]));
    assert!(matches!(action, ReadAction::Finish { used: 0, .. }));
    assert!(fw.reached_eof());
    assert_eq!(fw.get_bytes_dropped(), 0);
    assert_eq!(fw.get_unwatch_info().bytes_dropped, 0);
    assert!(fw.get_unwatch_info().reached_eof);
}

#[test]
fn skipped_bytes_of_a_compressed_file_are_not_dropped() {
    let mut file = MemoryFile::new(1, "");
    file.content = vec![0x1f, 0x8b, 8, 0, 0, 0];
    let fw = file.watch("test.log.gz", ReadFrom::End);
    assert_eq!(fw.get_file_position(), 0);
    assert_eq!(fw.get_bytes_dropped(), 0);
    assert!(!fw.reached_eof());
    let fw = file.watch("test.log.gz", ReadFrom::Beginning);
    assert_eq!(fw.get_bytes_dropped(), 6);
}

#[test]
fn a_checkpoint_past_the_end_is_waited_for() {
    let mut file = MemoryFile::new(1, "aaaaaaaaa\nbbbbbbbbb\nccccccccc\n");
    let mut fw = file.watch("test.log", ReadFrom::Checkpoint(100));
    assert!(!fw.is_truncated_at(30));
    assert!(file.read_line(&mut fw).raw_line.is_none());
    assert_eq!(fw.get_file_position(), 100);
    assert_eq!(fw.get_bytes_dropped(), 0);

    file.content.resize(100, b'x');
    file.content.extend_from_slice(b"line\n");
    let line = file.read_line(&mut fw).raw_line.unwrap();
    assert_eq!((line.offset, line.bytes.as_ref()), (100, &b"line"[..]));

    // Now that the file has reached that far, less is a truncation.
    assert!(fw.is_truncated_at(30));
}

#[test]
fn a_position_past_the_end_of_a_replacement_is_waited_for() {
    let file = MemoryFile::new(1, "aaaaaaaaa\nbbbbbbbbb\n");
    let mut fw = file.watch("test.log", ReadFrom::Beginning);
    assert_eq!(file.read_all_lines(&mut fw).len(), 2);
    assert!(fw.is_truncated_at(5));

    let mut replacement = MemoryFile::new(2, "new1\n");
    assert!(fw.update_path(PathBuf::from("test.log"), replacement.found()).is_some());
    assert!(!fw.is_truncated_at(5));
    assert!(replacement.read_line(&mut fw).raw_line.is_none());
    assert_eq!(fw.get_file_position(), 20);

    replacement.content.resize(20, b'x');
    assert!(replacement.read_line(&mut fw).raw_line.is_none());
    assert_eq!(fw.get_file_position(), 20);
    // It reaches up to the position, so that it can fall short of it.
    replacement.content = b"new1\n".to_vec();
    let line = replacement.read_line(&mut fw).raw_line.unwrap();
    assert_eq!((line.offset, line.bytes.as_ref()), (0, &b"new1"[..]));

    let found = FoundFile { devno: 1, inode: 3, size: None, gzipped: false };
    assert!(fw.update_path(PathBuf::from("test.log"), found).is_some());
    assert!(!fw.is_truncated_at(0));
}

#[test]
fn a_file_read_from_its_end_can_be_truncated() {
    let mut file = MemoryFile::new(1, "old_line1\nold_line2\n");
    let mut fw = file.watch("test.log", ReadFrom::End);
    file.content = b"new\n".to_vec();
    assert_eq!(file.read_all_lines(&mut fw), vec!["new"]);
    assert_eq!(fw.get_file_position(), 4);
}

#[test]
fn a_compressed_file_is_never_taken_for_truncated() {
    let mut file = MemoryFile::new(1, "");
    file.content = vec![0x1f, 0x8b, 8];
    let mut fw = file.watch("test.log.gz", ReadFrom::Beginning);
    let (mut read, _) = fw.start_read(None);
    let action = fw.read_line(&mut read, ReadEvent::Available(b"decompressed\n"));
    assert!(matches!(action, ReadAction::Finish { used: 13, .. }));
    assert!(!fw.is_truncated_at(3));
    assert!(!fw.note_size(3));
    assert_eq!(fw.get_file_position(), 13);

    // A plain file that takes its place can be.
    let found = FoundFile { devno: 1, inode: 2, size: Some(13), gzipped: false };
    assert!(fw.update_path(PathBuf::from("test.log"), found).is_some());
    assert!(fw.is_truncated_at(3));
}

#[test]
fn the_end_of_a_replaced_file_is_not_that_of_the_new_one() {
    let file = MemoryFile::new(1, "line1\n");
    let mut fw = file.watch("test.log", ReadFrom::Beginning);
    assert_eq!(file.read_all_lines(&mut fw), vec!["line1"]);
    assert!(fw.reached_eof());

    let replacement = MemoryFile::new(2, "line1\nline2\n");
    let info = fw.update_path(PathBuf::from("test.log"), replacement.found()).unwrap();
    assert!(info.reached_eof);
    assert_eq!(info.bytes_dropped, 0);

    assert!(!fw.reached_eof());
    assert_eq!(fw.get_bytes_dropped(), 6);
    assert_eq!(replacement.read_all_lines(&mut fw), vec!["line2"]);
    assert!(fw.reached_eof());
}

#[test]
fn every_byte_read_is_one_byte_less_dropped() {
    let file = MemoryFile::new(1, "a\nbb\nccc\ndd");
    let mut fw = file.watch("test.log", ReadFrom::Beginning);
    let mut dropped = Vec::new();
    loop {
        dropped.push(fw.get_bytes_dropped());
        assert_eq!(fw.get_bytes_dropped() + fw.get_file_position(), 11);
        if file.read_line(&mut fw).raw_line.is_none() {
            break;
        }
    }
    assert_eq!(dropped, vec![11, 9, 6, 2]);
    assert_eq!(fw.get_file_position(), 11);
    assert_eq!(fw.get_bytes_dropped(), 0);
}

#[test]
fn a_compressed_replacement_is_noticed_once() {
    let file = MemoryFile::new(1, "line1\nline2\n");
    let mut fw = file.watch("test.log", ReadFrom::Beginning);
    assert!(matches!(fw.plan_replacement(true), ReaderPlan::Decompress));
    file.read_line(&mut fw);
    assert!(matches!(fw.plan_replacement(true), ReaderPlan::Nothing(6)));

    let found = FoundFile { devno: 1, inode: 2, size: Some(99), gzipped: true };
    assert_eq!(fw.update_path(PathBuf::from("test.log"), found).unwrap().bytes_dropped, 6);
    assert_eq!(fw.get_bytes_dropped(), 0);
    assert!(!fw.is_replaced_by(1, 2));
    assert!(fw.is_replaced_by(0, 0));
    assert!(fw.update_path(PathBuf::from("test.log.1"), found).is_none());
    assert_eq!(fw.path(), &PathBuf::from("test.log.1"));

    let found = FoundFile { devno: 1, inode: 3, size: None, gzipped: false };
    assert!(fw.update_path(PathBuf::from("test.log"), found).is_some());
    assert_eq!(fw.get_bytes_dropped(), 0);
    assert!(!fw.is_replaced_by(1, 3));
}
