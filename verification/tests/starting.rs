//! Where reading of a file starts.
use bytes::Bytes;
use chrono::{DateTime, Utc};
use file_source::clock::{starting_instant, starting_instant_at};
use file_source::file_watcher::FileWatcher;
use file_source::start::{is_gzipped, OpenedFile, ReadFrom, ReaderPlan};
use file_source::utc::{is_too_old, utc_time, UtcTime, MAX_UTC_SECONDS, MIN_UTC_SECONDS};
use std::path::PathBuf;
use std::time::{Duration, Instant, SystemTime, UNIX_EPOCH};

const MODIFIED: UtcTime = UtcTime { seconds: 1000, nanos: 500 };
const LATER: UtcTime = UtcTime { seconds: 1000, nanos: 501 };

fn opened(gzipped: bool) -> OpenedFile {
    OpenedFile { devno: 3, inode: 4, size: 50, modified: Some(MODIFIED), gzipped }
}

fn position(file: OpenedFile, read_from: ReadFrom, ignore_before: Option<UtcTime>) -> u64 {
    FileWatcher::new(
        PathBuf::from("test.log"),
        read_from,
        ignore_before,
        100,
        Bytes::from("\n"),
        file,
        77,
        Instant::now(),
    )
    .get_file_position()
}

#[test]
fn plain_files_are_sought() {
    let file = opened(false);
    assert!(matches!(file.plan(ReadFrom::Beginning, None), ReaderPlan::SeekTo(0)));
    assert!(matches!(file.plan(ReadFrom::End, None), ReaderPlan::SeekToEnd));
    assert!(matches!(file.plan(ReadFrom::Checkpoint(9), None), ReaderPlan::SeekTo(9)));
    assert_eq!(position(file, ReadFrom::Beginning, None), 77);
    assert_eq!(position(file, ReadFrom::Checkpoint(9), None), 77);
}

#[test]
fn old_plain_files_are_read_from_their_end() {
    let file = opened(false);
    for read_from in [ReadFrom::Beginning, ReadFrom::End, ReadFrom::Checkpoint(9)] {
        assert!(matches!(file.plan(read_from, Some(LATER)), ReaderPlan::SeekToEnd));
        assert!(!matches!(file.plan(ReadFrom::Beginning, Some(MODIFIED)), ReaderPlan::SeekToEnd));
    }
}

#[test]
fn compressed_files_are_read_from_their_beginning_or_not_at_all() {
    let file = opened(true);
    assert!(matches!(file.plan(ReadFrom::Beginning, None), ReaderPlan::Decompress));
    assert!(matches!(file.plan(ReadFrom::End, None), ReaderPlan::Nothing(0)));
    assert!(matches!(file.plan(ReadFrom::Checkpoint(9), None), ReaderPlan::Nothing(9)));
    assert_eq!(position(file, ReadFrom::Beginning, None), 0);
    assert_eq!(position(file, ReadFrom::End, None), 0);
    assert_eq!(position(file, ReadFrom::Checkpoint(9), None), 9);
    for read_from in [ReadFrom::Beginning, ReadFrom::End, ReadFrom::Checkpoint(9)] {
        assert!(matches!(file.plan(read_from, Some(LATER)), ReaderPlan::Nothing(0)));
    }
}

#[test]
fn compressed_files_are_recognised() {
    assert!(is_gzipped(&[0x1f, 0x8b]));
    assert!(is_gzipped(&[0x1f, 0x8b, 8, 0]));
    assert!(!is_gzipped(&[]));
    assert!(!is_gzipped(&[0x1f]));
    assert!(!is_gzipped(&[0x8b, 0x1f]));
    assert!(!is_gzipped(&[0x1f, 0x8c]));
    assert!(!is_gzipped(b"plain"));
}

#[test]
fn age_is_judged_only_if_it_is_known() {
    assert!(is_too_old(Some(MODIFIED), Some(LATER)));
    assert!(!is_too_old(Some(LATER), Some(MODIFIED)));
    assert!(!is_too_old(Some(MODIFIED), Some(MODIFIED)));
    assert!(!is_too_old(None, Some(LATER)));
    assert!(!is_too_old(Some(MODIFIED), None));
    assert!(!is_too_old(None, None));
}

#[test]
fn points_in_time_are_ordered_as_those_of_chrono() {
    // The one with more than a second of nanoseconds is in a leap second.
    let parts = [
        (-1, 0),
        (-1, 999_999_999),
        (0, 0),
        (0, 1),
        (1_483_228_799, 999_999_999),
        (1_483_228_799, 1_500_000_000),
        (1_483_228_800, 0),
        (1_483_228_800, 400_000_000),
    ];
    for (s1, n1) in parts {
        for (s2, n2) in parts {
            let first = UtcTime { seconds: s1, nanos: n1 };
            let second = UtcTime { seconds: s2, nanos: n2 };
            let chrono_first = DateTime::<Utc>::from_timestamp(s1, n1).unwrap();
            let chrono_second = DateTime::<Utc>::from_timestamp(s2, n2).unwrap();
            assert_eq!(first.is_before(&second), chrono_first < chrono_second);
            assert_eq!(chrono_first.timestamp(), s1);
            assert_eq!(chrono_first.timestamp_subsec_nanos(), n1);
        }
    }
}

fn parts(time: SystemTime) -> Option<(i64, u32)> {
    utc_time(time).map(|utc| (utc.seconds, utc.nanos))
}

#[test]
fn system_times_become_utc() {
    assert_eq!(parts(UNIX_EPOCH), Some((0, 0)));
    assert_eq!(parts(UNIX_EPOCH + Duration::new(12, 34)), Some((12, 34)));
    assert_eq!(parts(UNIX_EPOCH - Duration::new(12, 0)), Some((-12, 0)));
    assert_eq!(parts(UNIX_EPOCH - Duration::new(12, 34)), Some((-13, 999_999_966)));
}

#[test]
fn times_that_cannot_be_expressed_are_refused() {
    let last = UNIX_EPOCH + Duration::new(MAX_UTC_SECONDS as u64, 999_999_999);
    assert_eq!(parts(last), Some((MAX_UTC_SECONDS, 999_999_999)));
    assert_eq!(parts(last + Duration::from_nanos(1)), None);
    let first = UNIX_EPOCH - Duration::new(MIN_UTC_SECONDS.unsigned_abs(), 0);
    assert_eq!(parts(first), Some((MIN_UTC_SECONDS, 0)));
    assert_eq!(parts(first - Duration::from_nanos(1)), None);
    assert_eq!(DateTime::<Utc>::MAX_UTC.timestamp(), MAX_UTC_SECONDS);
    assert_eq!(DateTime::<Utc>::MIN_UTC.timestamp(), MIN_UTC_SECONDS);
}

#[test]
fn watching_starts_when_the_file_was_modified() {
    let now = Instant::now();
    let fallback = now + Duration::from_secs(1);
    let minute = Duration::from_secs(60);
    let wall = UNIX_EPOCH + Duration::from_secs(1_000_000);
    assert_eq!(starting_instant_at(Some(wall - minute), wall, now + minute, fallback), now);
    assert_eq!(starting_instant_at(Some(wall), wall, now, fallback), now);
    assert_eq!(starting_instant_at(Some(wall + minute), wall, now, fallback), fallback);
    assert_eq!(starting_instant_at(None, wall, now, fallback), fallback);
    // The age is more than the clock can go back.
    let last = UNIX_EPOCH + Duration::from_secs(i64::MAX as u64);
    let first = UNIX_EPOCH - Duration::from_secs(1 << 62);
    assert_eq!(starting_instant_at(Some(first), last, now, fallback), fallback);
}

#[test]
fn watching_starts_now_if_the_modification_is_not_known_or_to_come() {
    let before = Instant::now();
    assert!(starting_instant(None) >= before);
    assert!(starting_instant(Some(SystemTime::now() + Duration::from_secs(1000))) >= before);
    assert!(starting_instant(Some(SystemTime::now() - Duration::from_millis(50))) < Instant::now());
}
