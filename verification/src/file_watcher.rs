//! The state machine that follows one file.
//!
//! A [`FileWatcher`] keeps all that is decided about a file that is being
//! watched. It does no input or output: its owner opens the file, reads from
//! it, and tells the watcher what came of it.
use crate::byte_buffers::{buffer_contents, bytes_as_slice, bytes_contents};
use crate::clock::{duration_nanos, read_clock, time_between};
use crate::line_buffer::{
    ChunkOutcome, ChunkOutcomeView, FilePosition, LineBuffer, LineState, RawLine, RawLineView,
};
use crate::paths::path_contents;
use crate::start::{first_plan, replacement_plan, OpenedFile, ReadFrom, ReaderPlan};
use crate::utc::UtcTime;
use bytes::{Bytes, BytesMut};
use std::path::PathBuf;
use std::time::Instant;
use vstd::prelude::*;

verus! {

/// How long after a successful read a file is read again without delay, and
/// how long after an attempt a quiet file is tried again, in nanoseconds.
pub const READ_PERIOD_NANOS: u128 = 10_000_000_000;

/// The contents of each of a list of buffers.
pub open spec fn all_contents(buffers: Seq<BytesMut>) -> Seq<Seq<u8>> {
    buffers.map_values(|buffer: BytesMut| buffer_contents(buffer))
}

/// What reading a line gave.
#[derive(Debug)]
pub struct RawLineResult {
    /// The line, if there was one.
    pub raw_line: Option<RawLine>,
    /// The beginnings of the lines that were skipped on the way because they
    /// are too long.
    pub discarded_for_size_and_truncated: Vec<BytesMut>,
}

/// What a [`RawLineResult`] says.
pub struct RawLineResultView {
    pub raw_line: Option<RawLineView>,
    pub discarded: Seq<Seq<u8>>,
}

impl View for RawLineResult {
    type V = RawLineResultView;

    open spec fn view(&self) -> RawLineResultView {
        RawLineResultView {
            raw_line: match self.raw_line {
                Some(line) => Some(line@),
                None => None,
            },
            discarded: all_contents(self.discarded_for_size_and_truncated@),
        }
    }
}

/// Information about a file when it is unwatched, for whatever reason: it was
/// deleted, rotated away, replaced by another file, or not found for too long.
#[derive(Debug)]
pub struct FileUnwatchInfo {
    /// The path of the file.
    pub path: PathBuf,
    /// Number of bytes that were not read (dropped) from the file.
    pub bytes_dropped: u64,
    /// Whether the file reached EOF before being unwatched.
    pub reached_eof: bool,
}

/// What a [`FileUnwatchInfo`] says.
pub struct FileUnwatchInfoView {
    pub path: Seq<u8>,
    pub bytes_dropped: int,
    pub reached_eof: bool,
}

impl View for FileUnwatchInfo {
    type V = FileUnwatchInfoView;

    open spec fn view(&self) -> FileUnwatchInfoView {
        FileUnwatchInfoView {
            path: path_contents(self.path),
            bytes_dropped: self.bytes_dropped as int,
            reached_eof: self.reached_eof,
        }
    }
}

impl Clone for FileUnwatchInfo {
    fn clone(&self) -> (copy: FileUnwatchInfo)
        ensures
            copy@ == self@,
            copy.bytes_dropped == self.bytes_dropped,
            copy.reached_eof == self.reached_eof,
            path_contents(copy.path) == path_contents(self.path),
    {
        FileUnwatchInfo {
            path: self.path.clone(),
            bytes_dropped: self.bytes_dropped,
            reached_eof: self.reached_eof,
        }
    }
}

/// What is found out about the file at a path when the path is updated.
#[derive(Clone, Copy, Debug)]
pub struct FoundFile {
    /// The device that holds the file.
    pub devno: u64,
    /// The number of the file on its device.
    pub inode: u64,
    /// The size of the file in bytes, where the system tells.
    pub size: Option<u64>,
    /// Whether the file is compressed.
    pub gzipped: bool,
}

/// Why a read failed.
#[derive(Clone, Copy, Debug, PartialEq, Eq, Structural)]
pub enum ReadFailure {
    /// The read was interrupted before it read anything.
    Interrupted,
    /// The file is not there.
    NotFound,
    /// Anything else.
    Other,
}

/// What came of asking the reader for bytes.
pub enum ReadEvent<'a> {
    /// The bytes that follow the current position; none, if there are no more.
    Available(&'a [u8]),
    /// The read failed.
    Failed(ReadFailure),
}

/// What a [`ReadEvent`] says.
pub enum ReadEventView {
    Available(Seq<u8>),
    Failed(ReadFailure),
}

impl<'a> View for ReadEvent<'a> {
    type V = ReadEventView;

    open spec fn view(&self) -> ReadEventView {
        match self {
            ReadEvent::Available(bytes) => ReadEventView::Available(bytes@),
            ReadEvent::Failed(failure) => ReadEventView::Failed(*failure),
        }
    }
}

/// What to do after a [`ReadEvent`].
pub enum ReadAction {
    /// Consume the given number of bytes and ask for more.
    Continue { used: usize },
    /// Consume the given number of bytes; the read is over.
    Finish { used: usize, result: RawLineResult },
    /// The read is over; it failed.
    Fail(ReadFailure),
    /// The bytes do not fit. Nothing has been done with them.
    OutOfRoom,
}

/// What a [`ReadAction`] says.
pub enum ReadActionView {
    Continue { used: int },
    Finish { used: int, result: RawLineResultView },
    Fail(ReadFailure),
    OutOfRoom,
}

impl View for ReadAction {
    type V = ReadActionView;

    open spec fn view(&self) -> ReadActionView {
        match self {
            ReadAction::Continue { used } => ReadActionView::Continue { used: *used as int },
            ReadAction::Finish { used, result } => ReadActionView::Finish {
                used: *used as int,
                result: result@,
            },
            ReadAction::Fail(failure) => ReadActionView::Fail(*failure),
            ReadAction::OutOfRoom => ReadActionView::OutOfRoom,
        }
    }
}

/// A line that is being read: the beginnings of the lines that were skipped on
/// the way to it.
pub struct LineRead {
    discarded: Vec<BytesMut>,
}

impl View for LineRead {
    type V = Seq<Seq<u8>>;

    closed spec fn view(&self) -> Seq<Seq<u8>> {
        all_contents(self.discarded@)
    }
}

impl LineRead {
    /// Nothing has been skipped yet.
    fn new() -> (read: LineRead)
        ensures
            read@ == Seq::<Seq<u8>>::empty(),
    {
        let read = LineRead { discarded: Vec::new() };
        assert(read@ =~= Seq::<Seq<u8>>::empty());
        read
    }

    /// Notes the beginning of a skipped line, if there is one.
    fn note(&mut self, prefix: Option<BytesMut>)
        ensures
            final(self)@ == noted(
                old(self)@,
                match prefix {
                    Some(prefix) => Some(buffer_contents(prefix)),
                    None => None,
                },
            ),
    {
        if let Some(prefix) = prefix {
            self.discarded.push(prefix);
        }
        assert(self@ =~= noted(
            old(self)@,
            match prefix {
                Some(prefix) => Some(buffer_contents(prefix)),
                None => None,
            },
        ));
    }

    /// Hands out what has been noted.
    fn take(&mut self) -> (discarded: Vec<BytesMut>)
        ensures
            all_contents(discarded@) == old(self)@,
            final(self)@ == Seq::<Seq<u8>>::empty(),
    {
        let mut discarded: Vec<BytesMut> = Vec::new();
        std::mem::swap(&mut discarded, &mut self.discarded);
        assert(self@ =~= Seq::<Seq<u8>>::empty());
        discarded
    }
}

/// A list with one more beginning of a skipped line, if there is one.
pub open spec fn noted(discarded: Seq<Seq<u8>>, prefix: Option<Seq<u8>>) -> Seq<Seq<u8>> {
    match prefix {
        Some(prefix) => discarded.push(prefix),
        None => discarded,
    }
}

/// What is known of a file that is being watched.
#[verifier::ext_equal]
pub struct WatcherState {
    /// The path under which the file was last found.
    pub path: Seq<u8>,
    /// Whether the file can still be found.
    pub findable: bool,
    /// How far the file has been read.
    pub lines: LineState,
    /// Whether the file is known to have held all bytes up to the position: it was
    /// long enough when it was opened or when its size was looked at, or bytes
    /// have been read from it.
    pub position_reached: bool,
    /// Whether the file is compressed. Its position is then none in its own bytes.
    pub compressed: bool,
    /// The device that holds the file.
    pub devno: u64,
    /// The number of the file on its device.
    pub inode: u64,
    /// Whether the file is to be watched no longer.
    pub dead: bool,
    /// Whether the end of the file has been reached.
    pub reached_eof: bool,
    /// When a line was last asked for.
    pub last_read_attempt: Instant,
    /// When a line was last read.
    pub last_read_success: Instant,
    /// When the file was last found.
    pub last_seen: Instant,
    /// The length of the longest line that is delivered.
    pub max_line_bytes: usize,
    /// What ends a line.
    pub delimiter: Seq<u8>,
    /// How many bytes of the file there were to be read when watching it, or
    /// reading it anew, began.
    pub initial_file_size: u64,
}

/// What a [`ReadEvent`] does.
pub struct ReadStep {
    /// The state of the watcher afterwards.
    pub watcher: WatcherState,
    /// What has been noted of the read afterwards.
    pub discarded: Seq<Seq<u8>>,
    /// What to do.
    pub action: ReadActionView,
}

impl WatcherState {
    /// What holds between any two operations.
    pub open spec fn inv(self) -> bool {
        self.lines.inv(self.delimiter, self.max_line_bytes as nat)
    }

    /// The state in which a file that has just been opened begins to be watched,
    /// where a seek, if there was one, went to `sought`.
    pub open spec fn watching(
        path: Seq<u8>,
        read_from: ReadFrom,
        too_old: bool,
        sought: FilePosition,
        max_line_bytes: usize,
        delimiter: Seq<u8>,
        opened: OpenedFile,
        seen: Instant,
    ) -> WatcherState {
        let plan = first_plan(opened.gzipped, too_old, read_from);
        WatcherState {
            path,
            findable: true,
            lines: LineState::starting_at(plan.start(sought) as int),
            position_reached: plan.starts_within(sought, opened.size),
            compressed: opened.gzipped,
            devno: opened.devno,
            inode: opened.inode,
            dead: false,
            reached_eof: false,
            last_read_attempt: seen,
            last_read_success: seen,
            last_seen: seen,
            max_line_bytes,
            delimiter,
            initial_file_size: opened.size_to_read(read_from),
        }
    }

    /// The bytes of the file that will never be read if it is unwatched now:
    /// none, if its end has been reached, and otherwise those that it had when
    /// watching it began and that have not been read.
    pub open spec fn bytes_dropped(self) -> int {
        if self.reached_eof || self.initial_file_size <= self.lines.position {
            0
        } else {
            self.initial_file_size - self.lines.position
        }
    }

    /// What is reported of the file if it is unwatched now.
    pub open spec fn unwatch_info(self) -> FileUnwatchInfoView {
        FileUnwatchInfoView {
            path: self.path,
            bytes_dropped: self.bytes_dropped(),
            reached_eof: self.reached_eof,
        }
    }

    /// Whether the file with this device and number is another one.
    pub open spec fn is_replaced_by(self, devno: u64, inode: u64) -> bool {
        devno != self.devno || inode != self.inode
    }

    /// The state after the file has been found, or not.
    pub open spec fn found(self, findable: bool, now: Instant) -> WatcherState {
        WatcherState {
            findable,
            last_seen: if findable {
                now
            } else {
                self.last_seen
            },
            ..self
        }
    }

    /// The state after a line has been asked for.
    pub open spec fn attempted(self, now: Instant) -> WatcherState {
        WatcherState { last_read_attempt: now, ..self }
    }

    /// The state after the file has been given up.
    pub open spec fn given_up(self) -> WatcherState {
        WatcherState { dead: true, ..self }
    }

    /// The state after the file at `path` has been looked at. If it is another
    /// file, that one is watched from now on, at the same position, and its end
    /// has not been reached. Whether it reaches up to that position is seen by its
    /// size. The size of one that is compressed does not count.
    pub open spec fn path_updated(self, path: Seq<u8>, found: FoundFile) -> WatcherState {
        if self.is_replaced_by(found.devno, found.inode) {
            WatcherState {
                path,
                position_reached: match found.size {
                    Some(size) => self.lines.position <= size,
                    None => false,
                },
                compressed: found.gzipped,
                devno: found.devno,
                inode: found.inode,
                reached_eof: false,
                initial_file_size: match found.size {
                    Some(size) if !found.gzipped => size,
                    _ => 0,
                },
                ..self
            }
        } else {
            WatcherState { path, ..self }
        }
    }

    /// Whether the file, if it now has the given size, has been truncated: it
    /// reached up to the position and does so no longer. A position at which the
    /// file has never been, such as one carried over from another file or from an
    /// earlier run, is waited for; and the size of a compressed file says nothing.
    pub open spec fn is_truncated_at(self, size: u64) -> bool {
        !self.compressed && self.position_reached && size < self.lines.position
    }

    /// The state after the size of the file has been looked at. A file that has
    /// been truncated is watched from its beginning, as a file of that size. Of
    /// any other it is noted whether it reaches up to the position.
    pub open spec fn size_noted(self, size: u64) -> WatcherState {
        if self.is_truncated_at(size) {
            WatcherState {
                lines: LineState::starting_at(0),
                reached_eof: false,
                initial_file_size: size,
                ..self
            }
        } else {
            WatcherState {
                position_reached: self.position_reached || self.lines.position <= size,
                ..self
            }
        }
    }

    /// The state after a read has been started, and the size of the file, where
    /// it is known, has been looked at.
    pub open spec fn read_started(self, size: Option<u64>, now: Instant) -> WatcherState {
        match size {
            Some(size) => self.attempted(now).size_noted(size),
            None => self.attempted(now),
        }
    }

    /// What is delivered at the end of the file, and the state after it. While
    /// the file can be found, the rest of the current line may still come. Once
    /// it cannot, what there is of the line is all of it, and the file is done.
    pub open spec fn at_end(self) -> (WatcherState, Option<RawLineView>) {
        if self.findable {
            (WatcherState { reached_eof: true, ..self }, None)
        } else {
            let rest = self.lines.unfinished_line();
            let done = WatcherState {
                dead: true,
                reached_eof: true,
                lines: LineState::starting_at(self.lines.position),
                ..self
            };
            if rest.len() == 0 {
                (done, None)
            } else {
                (done, Some(RawLineView { offset: self.lines.line_start, bytes: rest }))
            }
        }
    }

    /// What a [`ReadEvent`] does to the watcher and to a read that has noted
    /// `discarded`.
    pub open spec fn read_step(
        self,
        discarded: Seq<Seq<u8>>,
        event: ReadEventView,
        now: Instant,
    ) -> ReadStep {
        match event {
            ReadEventView::Failed(ReadFailure::Interrupted) => ReadStep {
                watcher: self,
                discarded,
                action: ReadActionView::Continue { used: 0 },
            },
            ReadEventView::Failed(failure) => ReadStep {
                watcher: WatcherState {
                    dead: self.dead || failure == ReadFailure::NotFound,
                    ..self
                },
                discarded,
                action: ReadActionView::Fail(failure),
            },
            ReadEventView::Available(bytes) => if !self.lines.has_room_for(bytes) {
                ReadStep { watcher: self, discarded, action: ReadActionView::OutOfRoom }
            } else {
                let step = self.lines.take_chunk(
                    bytes,
                    self.delimiter,
                    self.max_line_bytes as nat,
                );
                let moved = WatcherState {
                    lines: step.state,
                    position_reached: self.position_reached || bytes.len() > 0,
                    ..self
                };
                let all = noted(discarded, step.discarded);
                match step.outcome {
                    ChunkOutcomeView::More => ReadStep {
                        watcher: moved,
                        discarded: all,
                        action: ReadActionView::Continue { used: step.used },
                    },
                    ChunkOutcomeView::Line(line) => ReadStep {
                        watcher: WatcherState { last_read_success: now, ..moved },
                        discarded: Seq::empty(),
                        action: ReadActionView::Finish {
                            used: step.used,
                            result: RawLineResultView { raw_line: Some(line), discarded: all },
                        },
                    },
                    ChunkOutcomeView::EndOfInput => ReadStep {
                        watcher: moved.at_end().0,
                        discarded: Seq::empty(),
                        action: ReadActionView::Finish {
                            used: step.used,
                            result: RawLineResultView {
                                raw_line: moved.at_end().1,
                                discarded: all,
                            },
                        },
                    },
                }
            },
        }
    }

    /// Whether to read the file, at the instants at which the two periods are
    /// looked at: a line was read less than a period ago, or none was asked for
    /// in more than a period.
    pub open spec fn is_due(self, success_checked: Instant, attempt_checked: Instant) -> bool {
        ||| duration_nanos(time_between(success_checked, self.last_read_success))
            < READ_PERIOD_NANOS
        ||| duration_nanos(time_between(attempt_checked, self.last_read_attempt))
            > READ_PERIOD_NANOS
    }
}

/// The state machine which follows a file path, transparently going on with
/// another file when the one under the path has been rolled over, as is common
/// for logs.
pub struct FileWatcher {
    /// The path under which the file was last found.
    pub path: PathBuf,
    findable: bool,
    lines: LineBuffer,
    position_reached: bool,
    compressed: bool,
    devno: u64,
    inode: u64,
    is_dead: bool,
    reached_eof: bool,
    last_read_attempt: Instant,
    last_read_success: Instant,
    last_seen: Instant,
    max_line_bytes: usize,
    line_delimiter: Bytes,
    initial_file_size: u64,
}

impl View for FileWatcher {
    type V = WatcherState;

    closed spec fn view(&self) -> WatcherState {
        WatcherState {
            path: path_contents(self.path),
            findable: self.findable,
            lines: self.lines@,
            position_reached: self.position_reached,
            compressed: self.compressed,
            devno: self.devno,
            inode: self.inode,
            dead: self.is_dead,
            reached_eof: self.reached_eof,
            last_read_attempt: self.last_read_attempt,
            last_read_success: self.last_read_success,
            last_seen: self.last_seen,
            max_line_bytes: self.max_line_bytes,
            delimiter: bytes_contents(self.line_delimiter),
            initial_file_size: self.initial_file_size,
        }
    }
}

impl FileWatcher {
    /// Starts to watch a file that has just been opened.
    ///
    /// `sought` is the position that the seek reported, where
    /// [`OpenedFile::plan`] asks for one, and `seen` the instant from which the
    /// file counts as seen and read.
    pub fn new(
        path: PathBuf,
        read_from: ReadFrom,
        ignore_before: Option<UtcTime>,
        max_line_bytes: usize,
        line_delimiter: Bytes,
        opened: OpenedFile,
        sought: FilePosition,
        seen: Instant,
    ) -> (watcher: FileWatcher)
        ensures
            watcher@ == WatcherState::watching(
                path_contents(path),
                read_from,
                opened.too_old(ignore_before),
                sought,
                max_line_bytes,
                bytes_contents(line_delimiter),
                opened,
                seen,
            ),
            watcher@.inv(),
    {
        let plan = opened.plan(read_from, ignore_before);
        FileWatcher {
            path,
            findable: true,
            lines: LineBuffer::new(plan.starting_position(sought)),
            position_reached: plan.has_start_within(sought, opened.size),
            compressed: opened.gzipped,
            devno: opened.devno,
            inode: opened.inode,
            is_dead: false,
            reached_eof: false,
            last_read_attempt: seen,
            last_read_success: seen,
            last_seen: seen,
            max_line_bytes,
            line_delimiter,
            initial_file_size: opened.count_size(read_from),
        }
    }

    /// Whether the file with this device and number is another one than the one
    /// that is being watched.
    pub fn is_replaced_by(&self, devno: u64, inode: u64) -> (replaced: bool)
        ensures
            replaced == self@.is_replaced_by(devno, inode),
    {
        devno != self.devno || inode != self.inode
    }

    /// How to read a file that takes the place of the one that is being watched.
    pub fn plan_replacement(&self, gzipped: bool) -> (plan: ReaderPlan)
        ensures
            plan == replacement_plan(gzipped, self@.lines.position as u64),
    {
        let position = self.lines.position();
        if gzipped {
            if position != 0 {
                ReaderPlan::Nothing(position)
            } else {
                ReaderPlan::Decompress
            }
        } else {
            ReaderPlan::SeekTo(position)
        }
    }

    /// Updates the path being watched.
    ///
    /// If the file at the new path is another one, the file was replaced, not
    /// just renamed. In this case, returns what is to be reported of the old
    /// file.
    pub fn update_path(&mut self, path: PathBuf, found: FoundFile) -> (info: Option<
        FileUnwatchInfo,
    >)
        ensures
            final(self)@ == old(self)@.path_updated(path_contents(path), found),
            final(self)@.devno == found.devno,
            final(self)@.inode == found.inode,
            info is Some <==> old(self)@.is_replaced_by(found.devno, found.inode),
            info is Some <==> (old(self)@.devno, old(self)@.inode) != (found.devno, found.inode),
            info matches Some(info) ==> info@ == old(self)@.unwatch_info(),
            info matches Some(info) ==> {
                &&& path_contents(info.path) == old(self)@.path
                &&& info.bytes_dropped == old(self)@.bytes_dropped()
                &&& info.reached_eof == old(self)@.reached_eof
            },
            old(self)@.inv() ==> final(self)@.inv(),
    {
        let unwatch_info = if self.is_replaced_by(found.devno, found.inode) {
            let old_info = self.get_unwatch_info();
            self.position_reached = match found.size {
                Some(size) => self.lines.position() <= size,
                None => false,
            };
            self.compressed = found.gzipped;
            self.devno = found.devno;
            self.inode = found.inode;
            self.initial_file_size = match found.size {
                Some(size) if !found.gzipped => size,
                _ => 0,
            };
            self.reached_eof = false;
            Some(old_info)
        } else {
            None
        };
        self.path = path;
        unwatch_info
    }

    /// Whether the file, if it now has the given size, has been truncated.
    pub fn is_truncated_at(&self, size: u64) -> (truncated: bool)
        ensures
            truncated == self@.is_truncated_at(size),
    {
        !self.compressed && self.position_reached && size < self.lines.position()
    }

    /// Notes the size that the file has now. Returns whether it has been
    /// truncated: then it is to be read from its beginning.
    pub fn note_size(&mut self, size: u64) -> (truncated: bool)
        ensures
            truncated == old(self)@.is_truncated_at(size),
            final(self)@ == old(self)@.size_noted(size),
            old(self)@.inv() ==> final(self)@.inv(),
    {
        if self.is_truncated_at(size) {
            self.lines = LineBuffer::new(0);
            self.reached_eof = false;
            self.initial_file_size = size;
            true
        } else {
            if self.lines.position() <= size {
                self.position_reached = true;
            }
            false
        }
    }

    /// The path under which the file was last found.
    pub fn path(&self) -> (path: &PathBuf)
        ensures
            path_contents(*path) == self@.path,
    {
        &self.path
    }

    /// Notes that the file has been found, or has not, at the given instant.
    pub fn set_file_findable_at(&mut self, f: bool, now: Instant)
        ensures
            final(self)@ == old(self)@.found(f, now),
            old(self)@.inv() ==> final(self)@.inv(),
    {
        self.findable = f;
        if f {
            self.last_seen = now;
        }
    }

    /// Notes that the file has been found, or has not, just now.
    pub fn set_file_findable(&mut self, f: bool)
        ensures
            exists|now: Instant|
                {
                    &&& call_ensures(Instant::now, (), now)
                    &&& final(self)@ == #[trigger] old(self)@.found(f, now)
                },
            old(self)@.inv() ==> final(self)@.inv(),
    {
        let now = read_clock(Instant::now);
        self.set_file_findable_at(f, now);
        assert(self@ == old(self)@.found(f, now));
    }

    /// Whether the file could be found when it was last looked for.
    pub fn file_findable(&self) -> (findable: bool)
        ensures
            findable == self@.findable,
    {
        self.findable
    }

    /// Notes that the file is to be watched no longer.
    pub fn set_dead(&mut self)
        ensures
            final(self)@ == old(self)@.given_up(),
            old(self)@.inv() ==> final(self)@.inv(),
    {
        self.is_dead = true;
    }

    /// Whether the file is to be watched no longer.
    pub fn dead(&self) -> (dead: bool)
        ensures
            dead == self@.dead,
    {
        self.is_dead
    }

    /// Whether the end of the file has been reached.
    pub fn reached_eof(&self) -> (reached: bool)
        ensures
            reached == self@.reached_eof,
    {
        self.reached_eof
    }

    /// The position up to which the file has been read.
    pub fn get_file_position(&self) -> (position: FilePosition)
        ensures
            position == self@.lines.position,
    {
        self.lines.position()
    }

    /// The number of bytes that were not read (dropped).
    ///
    /// It counts the bytes that the file had when watching it began. When the
    /// end of the file has been reached, it is 0. When the file is unwatched
    /// before that, it counts the bytes that were never read.
    pub fn get_bytes_dropped(&self) -> (dropped: u64)
        ensures
            dropped == self@.bytes_dropped(),
    {
        if self.reached_eof {
            0
        } else {
            self.initial_file_size.saturating_sub(self.lines.position())
        }
    }

    /// What is to be reported of this file when it is unwatched, for whatever
    /// reason.
    pub fn get_unwatch_info(&self) -> (info: FileUnwatchInfo)
        ensures
            info@ == self@.unwatch_info(),
            path_contents(info.path) == self@.path,
            info.bytes_dropped == self@.bytes_dropped(),
            info.reached_eof == self@.reached_eof,
    {
        FileUnwatchInfo {
            path: self.path.clone(),
            bytes_dropped: self.get_bytes_dropped(),
            reached_eof: self.reached_eof,
        }
    }

    /// Ends a read at the end of the file.
    fn finish_at_end(&mut self) -> (line: Option<RawLine>)
        ensures
            final(self)@ == old(self)@.at_end().0,
            (match line {
                Some(line) => Some(line@),
                None => None,
            }) == old(self)@.at_end().1,
    {
        self.reached_eof = true;
        if !self.file_findable() {
            self.set_dead();
            // The file has been deleted, so return what there is of the line, even
            // though it does not end with a delimiter.
            let line = self.lines.take_unfinished_line();
            if line.bytes.is_empty() {
                None
            } else {
                Some(line)
            }
        } else {
            None
        }
    }

    /// Starts to read a single line at the given instant.
    ///
    /// `size` is the size that the file has now, where it is known. The second
    /// part of what is returned tells whether the file has been truncated: then
    /// the line is to be read from the beginning of the file.
    pub fn start_read_at(&mut self, size: Option<u64>, now: Instant) -> (started: (LineRead, bool))
        ensures
            started.0@ == Seq::<Seq<u8>>::empty(),
            started.1 == (size matches Some(size) && old(self)@.is_truncated_at(size)),
            final(self)@ == old(self)@.read_started(size, now),
            old(self)@.inv() ==> final(self)@.inv(),
    {
        self.track_read_attempt_at(now);
        let truncated = match size {
            Some(size) => self.note_size(size),
            None => false,
        };
        (LineRead::new(), truncated)
    }

    /// Starts to read a single line now.
    ///
    /// `size` is the size that the file has now, where it is known. The second
    /// part of what is returned tells whether the file has been truncated: then
    /// the line is to be read from the beginning of the file.
    pub fn start_read(&mut self, size: Option<u64>) -> (started: (LineRead, bool))
        ensures
            started.0@ == Seq::<Seq<u8>>::empty(),
            started.1 == (size matches Some(size) && old(self)@.is_truncated_at(size)),
            exists|now: Instant|
                {
                    &&& call_ensures(Instant::now, (), now)
                    &&& final(self)@ == #[trigger] old(self)@.read_started(size, now)
                },
            old(self)@.inv() ==> final(self)@.inv(),
    {
        self.track_read_attempt();
        let ghost now = choose|now: Instant|
            call_ensures(Instant::now, (), now) && self@ == #[trigger] old(self)@.attempted(now);
        let truncated = match size {
            Some(size) => self.note_size(size),
            None => false,
        };
        assert(self@ == old(self)@.read_started(size, now));
        (LineRead::new(), truncated)
    }

    /// Goes on reading a single line, given what came of asking the reader for
    /// bytes, at the given instant.
    pub fn read_line_at(&mut self, read: &mut LineRead, event: ReadEvent, now: Instant) -> (action:
        ReadAction)
        requires
            old(self)@.inv(),
        ensures
            final(self)@.inv(),
            final(self)@ == old(self)@.read_step(old(read)@, event@, now).watcher,
            final(read)@ == old(self)@.read_step(old(read)@, event@, now).discarded,
            action@ == old(self)@.read_step(old(read)@, event@, now).action,
    {
        match event {
            ReadEvent::Failed(ReadFailure::Interrupted) => ReadAction::Continue { used: 0 },
            ReadEvent::Failed(failure) => {
                if let ReadFailure::NotFound = failure {
                    self.set_dead();
                }
                ReadAction::Fail(failure)
            },
            ReadEvent::Available(bytes) => {
                if !self.lines.has_room_for(bytes) {
                    return ReadAction::OutOfRoom;
                }
                if bytes.len() > 0 {
                    self.position_reached = true;
                }
                let taken = self.lines.take_chunk(
                    bytes,
                    bytes_as_slice(&self.line_delimiter),
                    self.max_line_bytes,
                );
                read.note(taken.discarded);
                match taken.outcome {
                    ChunkOutcome::More => ReadAction::Continue { used: taken.used },
                    ChunkOutcome::Line(line) => {
                        self.last_read_success = now;
                        ReadAction::Finish {
                            used: taken.used,
                            result: RawLineResult {
                                raw_line: Some(line),
                                discarded_for_size_and_truncated: read.take(),
                            },
                        }
                    },
                    ChunkOutcome::EndOfInput => ReadAction::Finish {
                        used: taken.used,
                        result: RawLineResult {
                            raw_line: self.finish_at_end(),
                            discarded_for_size_and_truncated: read.take(),
                        },
                    },
                }
            },
        }
    }

    /// Goes on reading a single line, given what came of asking the reader for
    /// bytes.
    ///
    /// A read starts with [`FileWatcher::start_read`], which alone gives a
    /// [`LineRead`], and goes on for as long as the action is to continue.
    pub fn read_line(&mut self, read: &mut LineRead, event: ReadEvent) -> (action: ReadAction)
        requires
            old(self)@.inv(),
        ensures
            final(self)@.inv(),
            exists|now: Instant|
                {
                    let step = #[trigger] old(self)@.read_step(old(read)@, event@, now);
                    &&& call_ensures(Instant::now, (), now)
                    &&& final(self)@ == step.watcher
                    &&& final(read)@ == step.discarded
                    &&& action@ == step.action
                },
    {
        let now = read_clock(Instant::now);
        let action = self.read_line_at(read, event, now);
        assert(action@ == old(self)@.read_step(old(read)@, event@, now).action);
        action
    }

    /// Notes that a line is asked for at the given instant.
    pub fn track_read_attempt_at(&mut self, now: Instant)
        ensures
            final(self)@ == old(self)@.attempted(now),
            old(self)@.inv() ==> final(self)@.inv(),
    {
        self.last_read_attempt = now;
    }

    /// Notes that a line is asked for just now.
    pub fn track_read_attempt(&mut self)
        ensures
            exists|now: Instant|
                {
                    &&& call_ensures(Instant::now, (), now)
                    &&& final(self)@ == #[trigger] old(self)@.attempted(now)
                },
            old(self)@.inv() ==> final(self)@.inv(),
    {
        let now = read_clock(Instant::now);
        self.track_read_attempt_at(now);
        assert(self@ == old(self)@.attempted(now));
    }

    /// When a line was last read.
    pub fn last_read_success(&self) -> (instant: Instant)
        ensures
            instant == self@.last_read_success,
    {
        self.last_read_success
    }

    /// Whether to read the file, given the instants at which the time since the
    /// last success and the time since the last attempt are looked at.
    pub fn should_read_at(&self, success_checked: Instant, attempt_checked: Instant) -> (due: bool)
        ensures
            due == self@.is_due(success_checked, attempt_checked),
    {
        success_checked.saturating_duration_since(self.last_read_success).as_nanos()
            < READ_PERIOD_NANOS || attempt_checked.saturating_duration_since(
            self.last_read_attempt,
        ).as_nanos() > READ_PERIOD_NANOS
    }

    /// Whether to read the file now: a line was read less than ten seconds ago,
    /// or none was asked for in more than ten seconds.
    pub fn should_read(&self) -> (due: bool)
        ensures
            exists|success_checked: Instant, attempt_checked: Instant|
                {
                    &&& call_ensures(Instant::now, (), success_checked)
                    &&& call_ensures(Instant::now, (), attempt_checked)
                    &&& due == #[trigger] self@.is_due(success_checked, attempt_checked)
                },
    {
        let success_checked = read_clock(Instant::now);
        let attempt_checked = read_clock(Instant::now);
        let due = self.should_read_at(success_checked, attempt_checked);
        assert(due == self@.is_due(success_checked, attempt_checked));
        due
    }

    /// When the file was last found.
    pub fn last_seen(&self) -> (instant: Instant)
        ensures
            instant == self@.last_seen,
    {
        self.last_seen
    }
}

} // verus!
