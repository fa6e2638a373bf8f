//! Reading lines from a watched file.
use bytes::Bytes;
use file_source::file_watcher::{
    FileWatcher, RawLineResult, ReadAction, ReadEvent, ReadFailure,
};
use file_source::line_buffer::{ChunkOutcome, LineBuffer};
use file_source::start::{OpenedFile, ReadFrom};
use std::path::PathBuf;
use std::time::{Duration, Instant};

fn watcher(max_line_bytes: usize, delimiter: &'static str, seen: Instant) -> FileWatcher {
    let opened = OpenedFile { devno: 1, inode: 2, size: 100, modified: None, gzipped: false };
    FileWatcher::new(
        PathBuf::from("test.log"),
        ReadFrom::Beginning,
        None,
        max_line_bytes,
        Bytes::from(delimiter),
        opened,
        0,
        seen,
    )
}

/// Reads a line of `content` in chunks of `size`.
fn read_line(fw: &mut FileWatcher, content: &[u8], size: usize) -> RawLineResult {
    let (mut read, _) = fw.start_read(None);
    loop {
        let start = fw.get_file_position() as usize;
        let end = (start + size).min(content.len());
        match fw.read_line(&mut read, ReadEvent::Available(&content[start..end])) {
            ReadAction::Continue { .. } => {}
            ReadAction::Finish { result, .. } => return result,
            ReadAction::Fail(_) | ReadAction::OutOfRoom => panic!("could not read"),
        }
    }
}

/// Reads all lines of `content`, with their offsets, and the beginnings of those
/// that are too long.
fn read_all(
    max_line_bytes: usize,
    delimiter: &'static str,
    content: &[u8],
    size: usize,
) -> (Vec<(u64, Vec<u8>)>, Vec<Vec<u8>>) {
    let mut fw = watcher(max_line_bytes, delimiter, Instant::now());
    let mut lines = Vec::new();
    let mut discarded = Vec::new();
    loop {
        let result = read_line(&mut fw, content, size);
        for prefix in result.discarded_for_size_and_truncated {
            discarded.push(prefix.to_vec());
        }
        match result.raw_line {
            Some(line) => lines.push((line.offset, line.bytes.to_vec())),
            None => return (lines, discarded),
        }
    }
}

#[test]
fn lines_come_with_their_offsets() {
    let (lines, discarded) = read_all(100, "\n", b"one\n\nthree\nfour", 1000);
    assert_eq!(
        lines,
        vec![(0, b"one".to_vec()), (4, b"".to_vec()), (5, b"three".to_vec())]
    );
    assert!(discarded.is_empty());
}

#[test]
fn chunks_do_not_matter() {
    let content = b"a\r\nbb\rb\r\r\n\r\nlonger than it may be\r\n\nc\r\n\rlonger than it may\r\nd\r\ne\r";
    let whole = read_all(8, "\r\n", content, 1000);
    assert_eq!(
        whole.0,
        vec![
            (0, b"a".to_vec()),
            (3, b"bb\rb\r".to_vec()),
            (10, b"".to_vec()),
            (35, b"\nc".to_vec()),
            (60, b"d".to_vec()),
        ]
    );
    assert_eq!(whole.1, vec![b"longer t".to_vec(), b"\rlonger ".to_vec()]);
    for size in 1..30 {
        assert_eq!(read_all(8, "\r\n", content, size), whole);
    }
}

#[test]
fn a_line_of_exactly_the_allowed_length_is_delivered() {
    for size in 1..10 {
        let (lines, discarded) = read_all(4, "\n", b"four\nfiver\nsix\n", size);
        assert_eq!(lines, vec![(0, b"four".to_vec()), (11, b"six".to_vec())]);
        assert_eq!(discarded, vec![b"five".to_vec()]);
    }
}

#[test]
fn at_most_a_thousand_bytes_are_kept_of_a_discarded_line() {
    let mut content = vec![b'x'; 5000];
    content.push(b'\n');
    let (lines, discarded) = read_all(2000, "\n", &content, 300);
    assert!(lines.is_empty());
    assert_eq!(discarded, vec![vec![b'x'; 1000]]);
    let (lines, discarded) = read_all(5000, "\n", &content, 300);
    assert_eq!(lines, vec![(0, vec![b'x'; 5000])]);
    assert!(discarded.is_empty());
}

#[test]
fn a_line_that_is_too_long_is_given_up_across_reads() {
    let mut fw = watcher(4, "\n", Instant::now());
    let result = read_line(&mut fw, b"overlong", 3);
    assert!(result.raw_line.is_none());
    assert_eq!(result.discarded_for_size_and_truncated, vec![&b"over"[..]]);
    let result = read_line(&mut fw, b"overlong still\nnext\n", 3);
    let line = result.raw_line.unwrap();
    assert_eq!((line.offset, line.bytes.as_ref()), (15, &b"next"[..]));
    assert!(result.discarded_for_size_and_truncated.is_empty());
}

#[test]
fn an_unfinished_line_is_finished_later() {
    let mut fw = watcher(100, "\n", Instant::now());
    assert!(read_line(&mut fw, b"abc", 2).raw_line.is_none());
    assert!(fw.reached_eof());
    assert_eq!(fw.get_file_position(), 3);
    let line = read_line(&mut fw, b"abcdef\n", 2).raw_line.unwrap();
    assert_eq!(line.offset, 0);
    assert_eq!(line.bytes.as_ref(), b"abcdef");
    assert_eq!(fw.get_file_position(), 7);
}

#[test]
fn the_rest_of_a_deleted_file_is_delivered() {
    let mut fw = watcher(100, "\n", Instant::now());
    assert_eq!(read_line(&mut fw, b"one\ntw", 10).raw_line.unwrap().bytes.as_ref(), b"one");
    fw.set_file_findable(false);
    assert!(!fw.file_findable());
    assert!(!fw.dead());

    let line = read_line(&mut fw, b"one\ntw", 10).raw_line.unwrap();
    assert_eq!((line.offset, line.bytes.as_ref()), (4, &b"tw"[..]));
    assert!(fw.dead());
    assert!(fw.reached_eof());
    assert_eq!(fw.get_bytes_dropped(), 0);

    assert!(read_line(&mut fw, b"one\ntw", 10).raw_line.is_none());
    assert!(fw.dead());
    assert!(fw.reached_eof());
    assert_eq!(fw.get_bytes_dropped(), 0);
}

#[test]
fn a_deleted_file_is_read_to_its_end_in_one_read() {
    let mut fw = watcher(100, "\n", Instant::now());
    fw.set_file_findable(false);
    let line = read_line(&mut fw, b"abc", 10).raw_line.unwrap();
    assert_eq!((line.offset, line.bytes.as_ref()), (0, &b"abc"[..]));
    assert!(fw.dead());
    assert!(fw.get_unwatch_info().reached_eof);
    assert_eq!(fw.get_unwatch_info().bytes_dropped, 0);
}

#[test]
fn the_lines_of_a_deleted_file_are_delivered_before_its_rest() {
    let content = b"one\ntwo\nthr";
    for size in 1..15 {
        let mut fw = watcher(100, "\n", Instant::now());
        fw.set_file_findable(false);
        let mut lines = Vec::new();
        while let Some(line) = read_line(&mut fw, content, size).raw_line {
            lines.push((line.offset, line.bytes.to_vec()));
        }
        assert_eq!(lines, vec![(0, b"one".to_vec()), (4, b"two".to_vec()), (8, b"thr".to_vec())]);
    }
}

#[test]
fn a_truncated_file_is_read_anew() {
    let content = b"aaaaaaaaa\nbbbbbbbbb\nccccccccc\n";
    let mut fw = watcher(100, "\n", Instant::now());
    while read_line(&mut fw, content, 7).raw_line.is_some() {}
    assert_eq!(fw.get_file_position(), 30);
    assert!(fw.reached_eof());

    assert!(!fw.is_truncated_at(30));
    assert!(fw.is_truncated_at(2));
    assert_eq!(fw.get_file_position(), 30);
    assert!(fw.note_size(2));
    assert_eq!(fw.get_file_position(), 0);
    assert!(!fw.reached_eof());
    assert_eq!(fw.get_bytes_dropped(), 2);
    assert!(!fw.note_size(2));

    let line = read_line(&mut fw, b"x\n", 7).raw_line.unwrap();
    assert_eq!((line.offset, line.bytes.as_ref()), (0, &b"x"[..]));
    assert_eq!(fw.get_file_position(), 2);
    assert_eq!(fw.get_bytes_dropped(), 0);
}

#[test]
fn a_read_starts_with_a_look_at_the_size() {
    let start = Instant::now();
    let at = |seconds: u64| start + Duration::from_secs(seconds);
    let mut fw = watcher(100, "\n", start);
    assert!(read_line(&mut fw, b"abc", 10).raw_line.is_none());
    assert!(!fw.start_read_at(None, at(20)).1);
    assert!(!fw.start_read_at(Some(3), at(20)).1);
    assert_eq!(fw.get_file_position(), 3);
    // The attempt has been noted.
    assert!(!fw.should_read_at(at(30), at(30)));
    assert!(fw.should_read_at(at(31), at(31)));

    let (mut read, truncated) = fw.start_read_at(Some(2), at(40));
    assert!(truncated);
    assert_eq!(fw.get_file_position(), 0);
    assert!(!fw.should_read_at(at(50), at(50)));
    match fw.read_line_at(&mut read, ReadEvent::Available(b"x\n"), at(41)) {
        ReadAction::Finish { used: 2, result } => {
            assert_eq!(result.raw_line.unwrap().offset, 0);
            assert!(result.discarded_for_size_and_truncated.is_empty());
        }
        _ => panic!("expected a line"),
    }

    assert!(fw.start_read(Some(1)).1);
    assert!(!fw.start_read(Some(1)).1);
    fw.track_read_attempt();
    assert_eq!(fw.get_file_position(), 0);
}

#[test]
fn nothing_is_kept_of_what_a_truncated_file_held() {
    let mut fw = watcher(100, "\n", Instant::now());
    assert!(read_line(&mut fw, b"abc", 2).raw_line.is_none());
    assert!(fw.note_size(1));
    let line = read_line(&mut fw, b"x\n", 2).raw_line.unwrap();
    assert_eq!((line.offset, line.bytes.as_ref()), (0, &b"x"[..]));
}

#[test]
fn a_file_that_is_not_truncated_is_read_on() {
    let mut fw = watcher(100, "\n", Instant::now());
    assert!(read_line(&mut fw, b"abc", 2).raw_line.is_none());
    assert!(!fw.note_size(3));
    assert!(!fw.note_size(7));
    assert_eq!(fw.get_file_position(), 3);
    assert!(fw.reached_eof());
    let line = read_line(&mut fw, b"abcdef\n", 2).raw_line.unwrap();
    assert_eq!((line.offset, line.bytes.as_ref()), (0, &b"abcdef"[..]));
}

#[test]
fn the_rest_of_an_overlong_line_is_not_delivered() {
    let mut fw = watcher(4, "\r\n", Instant::now());
    assert!(read_line(&mut fw, b"overlong\r", 3).raw_line.is_none());
    fw.set_file_findable(false);
    assert!(read_line(&mut fw, b"overlong\r", 3).raw_line.is_none());
    assert!(fw.dead());
    assert!(fw.reached_eof());
}

#[test]
fn failures_are_told_apart() {
    let mut fw = watcher(100, "\n", Instant::now());
    let (mut read, _) = fw.start_read(None);
    let action = fw.read_line(&mut read, ReadEvent::Available(b"par"));
    assert!(matches!(action, ReadAction::Continue { used: 3 }));

    let action = fw.read_line(&mut read, ReadEvent::Failed(ReadFailure::Interrupted));
    assert!(matches!(action, ReadAction::Continue { used: 0 }));
    let action = fw.read_line(&mut read, ReadEvent::Failed(ReadFailure::Other));
    assert!(matches!(action, ReadAction::Fail(ReadFailure::Other)));
    assert!(!fw.dead());
    let action = fw.read_line(&mut read, ReadEvent::Failed(ReadFailure::NotFound));
    assert!(matches!(action, ReadAction::Fail(ReadFailure::NotFound)));
    assert!(fw.dead());
    assert_eq!(fw.get_file_position(), 3);
    assert!(!fw.reached_eof());

    let line = read_line(&mut fw, b"partial\n", 10).raw_line.unwrap();
    assert_eq!(line.bytes.as_ref(), b"partial");
    assert!(fw.dead());
}

#[test]
fn positions_do_not_overflow() {
    let opened = OpenedFile { devno: 1, inode: 2, size: 0, modified: None, gzipped: false };
    let mut fw = FileWatcher::new(
        PathBuf::from("test.log"),
        ReadFrom::Checkpoint(u64::MAX - 3),
        None,
        100,
        Bytes::from("\n"),
        opened,
        u64::MAX - 3,
        Instant::now(),
    );
    let (mut read, _) = fw.start_read(None);
    let action = fw.read_line(&mut read, ReadEvent::Available(b"four"));
    assert!(matches!(action, ReadAction::OutOfRoom));
    assert_eq!(fw.get_file_position(), u64::MAX - 3);
    let action = fw.read_line(&mut read, ReadEvent::Available(b"ab\n"));
    assert!(matches!(action, ReadAction::Finish { used: 3, .. }));
    assert_eq!(fw.get_file_position(), u64::MAX);
}

#[test]
fn an_empty_delimiter_ends_a_line_at_once() {
    let mut lines = LineBuffer::new(5);
    let taken = lines.take_chunk(b"abc", b"", 10);
    assert_eq!(taken.used, 0);
    match taken.outcome {
        ChunkOutcome::Line(line) => assert_eq!((line.offset, line.bytes.len()), (5, 0)),
        ChunkOutcome::EndOfInput | ChunkOutcome::More => panic!("expected a line"),
    }
    assert_eq!(lines.position(), 5);
}

#[test]
fn an_unfinished_line_can_be_taken() {
    let mut lines = LineBuffer::new(5);
    assert!(lines.has_room_for(b"abc"));
    assert!(matches!(lines.take_chunk(b"abc", b"\n", 10).outcome, ChunkOutcome::More));
    assert!(matches!(lines.take_chunk(b"", b"\n", 10).outcome, ChunkOutcome::EndOfInput));
    let line = lines.take_unfinished_line();
    assert_eq!((line.offset, line.bytes.as_ref()), (5, &b"abc"[..]));
    let line = lines.take_unfinished_line();
    assert_eq!((line.offset, line.bytes.as_ref()), (8, &b""[..]));
}

#[test]
fn instants_are_tracked() {
    let start = Instant::now();
    let later = start + Duration::from_secs(5);
    let mut fw = watcher(100, "\n", start);
    assert_eq!(fw.last_seen(), start);
    assert_eq!(fw.last_read_success(), start);

    fw.set_file_findable_at(false, later);
    assert_eq!(fw.last_seen(), start);
    fw.set_file_findable_at(true, later);
    assert_eq!(fw.last_seen(), later);
    assert!(fw.file_findable());

    let (mut read, truncated) = fw.start_read_at(Some(100), later);
    assert!(!truncated);
    fw.read_line_at(&mut read, ReadEvent::Available(b""), later);
    assert_eq!(fw.last_read_success(), start);
    fw.read_line_at(&mut read, ReadEvent::Available(b"a\n"), later);
    assert_eq!(fw.last_read_success(), later);
}

#[test]
fn the_clock_is_read() {
    let start = Instant::now();
    let mut fw = watcher(100, "\n", start);
    fw.set_file_findable(true);
    assert!(fw.last_seen() >= start);
    assert!(fw.last_seen() <= Instant::now());
    let before = Instant::now();
    read_line(&mut fw, b"a\n", 10);
    assert!(fw.last_read_success() >= before);
}

#[test]
fn a_file_is_read_while_it_is_busy_and_now_and_then() {
    let start = Instant::now();
    let at = |nanos: u64| start + Duration::from_nanos(nanos);
    let fw = watcher(100, "\n", start);
    // A line was read less than ten seconds ago.
    assert!(fw.should_read_at(at(0), at(0)));
    assert!(fw.should_read_at(at(9_999_999_999), at(0)));
    assert!(!fw.should_read_at(at(10_000_000_000), at(0)));
    // None was asked for in more than ten seconds.
    assert!(!fw.should_read_at(at(20_000_000_000), at(10_000_000_000)));
    assert!(fw.should_read_at(at(20_000_000_000), at(10_000_000_001)));
    assert!(fw.should_read());

    let mut fw = watcher(100, "\n", start);
    fw.track_read_attempt_at(at(5_000_000_000));
    assert!(!fw.should_read_at(at(12_000_000_000), at(12_000_000_000)));
    assert!(fw.should_read_at(at(16_000_000_000), at(16_000_000_000)));
}

#[test]
fn dead_is_final() {
    let mut fw = watcher(100, "\n", Instant::now());
    assert!(!fw.dead());
    fw.set_dead();
    assert!(fw.dead());
    fw.set_file_findable(true);
    read_line(&mut fw, b"a\n", 10);
    assert!(fw.dead());
}
