//! What holds of a watched file over any number of operations.
use crate::byte_buffers::buffer_contents;
use crate::clock::{duration_nanos, time_between};
use crate::file_watcher::{
    FileUnwatchInfo, FoundFile, RawLineResult, RawLineResultView, ReadAction, ReadActionView,
    ReadEvent, ReadEventView, ReadFailure, ReadStep, WatcherState,
};
use crate::line_buffer::{FilePosition, LineState, RawLineView};
use crate::line_laws::{
    all_lines_from, chunk_of, is_line, law_all_lines_are_delivered, law_chunks_are_consumed,
    law_every_overlong_line_is_reported_once, law_invariant_is_kept,
    law_lines_are_those_of_the_file, law_memory_is_bounded, law_no_bytes_change_nothing,
    law_no_line_ends_past_what_was_read, law_reading_can_start_anywhere,
    law_written_lines_are_the_lines_of_the_file, lines_from, reads_from, still_to_report, text_of,
};
use crate::paths::path_contents;
use crate::start::{first_plan, replacement_plan, OpenedFile, ReadFrom, ReaderPlan};
use std::time::Instant;
use vstd::prelude::*;

verus! {

/// Whether one operation on a watcher, other than looking at the size of the
/// file, leads from one state to another.
pub open spec fn goes_on(before: WatcherState, after: WatcherState) -> bool {
    ||| exists|findable: bool, now: Instant| after == #[trigger] before.found(findable, now)
    ||| after == before.given_up()
    ||| exists|now: Instant| after == #[trigger] before.attempted(now)
    ||| exists|path: Seq<u8>, found: FoundFile|
        after == #[trigger] before.path_updated(path, found)
    ||| exists|discarded: Seq<Seq<u8>>, event: ReadEventView, now: Instant|
        after == #[trigger] before.read_step(discarded, event, now).watcher
}

/// Whether one operation on a watcher leads from one state to another.
pub open spec fn leads_to(before: WatcherState, after: WatcherState) -> bool {
    ||| goes_on(before, after)
    ||| exists|size: u64| after == #[trigger] before.size_noted(size)
}

/// Starting a read is to ask for a line and then, where the size of the file is
/// known, to look at it.
pub proof fn law_a_read_starts_with_an_attempt(
    before: WatcherState,
    size: Option<u64>,
    now: Instant,
)
    ensures
        ({
            let attempted = before.attempted(now);
            let after = before.read_started(size, now);
            &&& goes_on(before, attempted)
            &&& attempted == after || leads_to(attempted, after)
            &&& after.last_read_attempt == now
            &&& after.lines == (match size {
                Some(size) => before.size_noted(size).lines,
                None => before.lines,
            })
            &&& after.bytes_dropped() == (match size {
                Some(size) => before.size_noted(size).bytes_dropped(),
                None => before.bytes_dropped(),
            })
        }),
{
}

/// A read keeps what holds between any two operations, and it moves the
/// position by what is to be consumed. A position that it has moved lies within
/// the file.
pub proof fn law_reads_advance_the_position(
    before: WatcherState,
    discarded: Seq<Seq<u8>>,
    event: ReadEventView,
    now: Instant,
)
    requires
        before.inv(),
    ensures
        ({
            let step = before.read_step(discarded, event, now);
            let used = match step.action {
                ReadActionView::Continue { used } => used,
                ReadActionView::Finish { used, .. } => used,
                _ => 0,
            };
            &&& step.watcher.inv()
            &&& 0 <= used
            &&& event matches ReadEventView::Available(bytes) ==> used <= bytes.len()
            &&& step.watcher.lines.position == before.lines.position + used
            &&& used > 0 ==> step.watcher.position_reached
        }),
{
    if let ReadEventView::Available(bytes) = event {
        law_invariant_is_kept(
            before.lines,
            bytes,
            before.delimiter,
            before.max_line_bytes as nat,
        );
    }
}

/// Every operation keeps what holds between any two operations.
pub proof fn law_every_operation_keeps_the_invariant(before: WatcherState, after: WatcherState)
    requires
        before.inv(),
        leads_to(before, after),
    ensures
        after.inv(),
{
    if exists|discarded: Seq<Seq<u8>>, event: ReadEventView, now: Instant|
        after == #[trigger] before.read_step(discarded, event, now).watcher {
        let (discarded, event, now) = choose|
            discarded: Seq<Seq<u8>>,
            event: ReadEventView,
            now: Instant,
        | after == #[trigger] before.read_step(discarded, event, now).watcher;
        law_reads_advance_the_position(before, discarded, event, now);
    }
}

/// A file that is to be watched no longer stays so.
pub proof fn law_dead_is_final(before: WatcherState, after: WatcherState)
    requires
        leads_to(before, after),
        before.dead,
    ensures
        after.dead,
{
}

/// No operation changes what ends a line, or how long a line may be.
pub proof fn law_settings_never_change(before: WatcherState, after: WatcherState)
    requires
        leads_to(before, after),
    ensures
        after.delimiter == before.delimiter,
        after.max_line_bytes == before.max_line_bytes,
{
}

/// The position never goes back, unless the file reached up to it and has been
/// truncated.
pub proof fn law_position_never_goes_back(before: WatcherState, after: WatcherState)
    requires
        before.inv(),
        leads_to(before, after),
    ensures
        before.lines.position <= after.lines.position || exists|size: u64|
            before.is_truncated_at(size) && after == #[trigger] before.size_noted(size),
{
    if exists|discarded: Seq<Seq<u8>>, event: ReadEventView, now: Instant|
        after == #[trigger] before.read_step(discarded, event, now).watcher {
        let (discarded, event, now) = choose|
            discarded: Seq<Seq<u8>>,
            event: ReadEventView,
            now: Instant,
        | after == #[trigger] before.read_step(discarded, event, now).watcher;
        law_reads_advance_the_position(before, discarded, event, now);
    }
}

/// Of a file whose end has been reached, nothing is dropped.
pub proof fn law_nothing_is_dropped_at_eof(state: WatcherState)
    requires
        state.reached_eof,
    ensures
        state.bytes_dropped() == 0,
        state.unwatch_info().bytes_dropped == 0,
{
}

/// Before the end of a file has been reached, the bytes read and the bytes
/// dropped make up the size that it had when watching it began; once more than
/// that has been read, nothing is dropped.
pub proof fn law_read_and_dropped_make_up_the_file(state: WatcherState)
    requires
        !state.reached_eof,
    ensures
        state.lines.position <= state.initial_file_size ==> state.lines.position
            + state.bytes_dropped() == state.initial_file_size,
        state.initial_file_size <= state.lines.position ==> state.bytes_dropped() == 0,
        0 <= state.bytes_dropped(),
{
}

/// Reading on makes the number of dropped bytes smaller by as many bytes as are
/// consumed, until none is left; and reaching the end of the file makes it zero.
pub proof fn law_reading_saves_bytes(
    before: WatcherState,
    discarded: Seq<Seq<u8>>,
    event: ReadEventView,
    now: Instant,
)
    requires
        before.inv(),
    ensures
        ({
            let after = before.read_step(discarded, event, now).watcher;
            let used = after.lines.position - before.lines.position;
            after.bytes_dropped() == if after.reached_eof || before.bytes_dropped() <= used {
                0
            } else {
                before.bytes_dropped() - used
            }
        }),
{
    law_reads_advance_the_position(before, discarded, event, now);
}

/// As long as the file that is watched stays the same and is not truncated, no
/// operation makes more of its bytes count as dropped.
pub proof fn law_drops_never_grow(before: WatcherState, after: WatcherState)
    requires
        before.inv(),
        leads_to(before, after),
        after.devno == before.devno,
        after.inode == before.inode,
        forall|size: u64|
            after == #[trigger] before.size_noted(size) ==> !before.is_truncated_at(size),
    ensures
        after.bytes_dropped() <= before.bytes_dropped(),
{
    law_position_never_goes_back(before, after);
}

/// What is appended to a file while it is watched never counts as dropped: the
/// count never exceeds the size that the file had when watching it began.
pub proof fn law_growth_is_not_dropped(state: WatcherState)
    requires
        state.inv(),
    ensures
        0 <= state.bytes_dropped() <= state.initial_file_size,
{
}

/// Nothing is dropped of a file that is asked for from its end, nor of one that
/// is too old and not compressed. Where there is a seek, it goes to the end of
/// what is known of the file.
pub proof fn law_skipped_bytes_are_not_dropped(
    path: Seq<u8>,
    read_from: ReadFrom,
    too_old: bool,
    sought: FilePosition,
    max_line_bytes: usize,
    delimiter: Seq<u8>,
    opened: OpenedFile,
    seen: Instant,
)
    requires
        read_from is End || (too_old && !opened.gzipped),
        !opened.gzipped ==> opened.size <= sought,
    ensures
        WatcherState::watching(
            path,
            read_from,
            too_old,
            sought,
            max_line_bytes,
            delimiter,
            opened,
            seen,
        ).bytes_dropped() == 0,
{
}

/// Every line that is read, also one that is cut short because the file is gone,
/// is what the file holds from its offset on, and what has been read of the file
/// is kept in step with it.
pub proof fn law_lines_stand_at_their_offset(
    before: WatcherState,
    file: Seq<u8>,
    discarded: Seq<Seq<u8>>,
    bytes: Seq<u8>,
    now: Instant,
)
    requires
        reads_from(before.lines, file, before.delimiter, before.max_line_bytes as nat),
        before.lines.position + bytes.len() <= file.len(),
        bytes == file.subrange(
            before.lines.position,
            before.lines.position + bytes.len(),
        ),
    ensures
        ({
            let step = before.read_step(discarded, ReadEventView::Available(bytes), now);
            &&& reads_from(
                step.watcher.lines,
                file,
                before.delimiter,
                before.max_line_bytes as nat,
            )
            &&& step.action matches ReadActionView::Finish { result, .. } ==> (
            result.raw_line matches Some(line) ==> {
                &&& line.offset == before.lines.line_start
                &&& line.offset + line.bytes.len() <= file.len()
                &&& line.bytes == file.subrange(line.offset, line.offset + line.bytes.len())
            })
        }),
{
    let max_size = before.max_line_bytes as nat;
    law_lines_are_those_of_the_file(before.lines, file, bytes, before.delimiter, max_size);
    let lines = before.lines.take_chunk(bytes, before.delimiter, max_size).state;
    law_reading_can_start_anywhere(lines.position, file, before.delimiter, max_size);
}

/// When a file that can be found has no more bytes, its end has been reached,
/// nothing is dropped, and nothing of the current line is lost.
pub proof fn law_end_of_a_file_that_is_there(
    before: WatcherState,
    discarded: Seq<Seq<u8>>,
    empty: Seq<u8>,
    now: Instant,
)
    requires
        before.inv(),
        before.findable,
        before.delimiter.len() > 0,
        before.lines.has_room_for(empty),
        empty.len() == 0,
    ensures
        ({
            let step = before.read_step(discarded, ReadEventView::Available(empty), now);
            &&& step.watcher == WatcherState { reached_eof: true, ..before }
            &&& step.watcher.bytes_dropped() == 0
            &&& step.action == (ReadActionView::Finish {
                used: 0,
                result: RawLineResultView { raw_line: None, discarded },
            })
        }),
{
    law_no_bytes_change_nothing(before.lines, empty, before.delimiter, before.max_line_bytes as nat);
}

/// When a file that cannot be found any longer has no more bytes, it is done:
/// what there is of the current line is delivered, at the offset at which it
/// begins, the end of the file has been reached, and nothing is dropped. The
/// next read finds nothing and changes nothing.
pub proof fn law_end_of_a_file_that_is_gone(
    before: WatcherState,
    discarded: Seq<Seq<u8>>,
    later_discarded: Seq<Seq<u8>>,
    empty: Seq<u8>,
    now: Instant,
    later: Instant,
)
    requires
        before.inv(),
        !before.findable,
        before.delimiter.len() > 0,
        before.lines.has_room_for(empty),
        empty.len() == 0,
    ensures
        ({
            let step = before.read_step(discarded, ReadEventView::Available(empty), now);
            let next = step.watcher.read_step(later_discarded, ReadEventView::Available(empty), later);
            let rest = before.lines.unfinished_line();
            &&& step.watcher.dead
            &&& step.watcher.reached_eof
            &&& step.watcher.bytes_dropped() == 0
            &&& step.action == (ReadActionView::Finish {
                used: 0,
                result: RawLineResultView {
                    raw_line: if rest.len() == 0 {
                        None
                    } else {
                        Some(RawLineView { offset: before.lines.line_start, bytes: rest })
                    },
                    discarded,
                },
            })
            &&& next.watcher == step.watcher
            &&& next.action == (ReadActionView::Finish {
                used: 0,
                result: RawLineResultView { raw_line: None, discarded: later_discarded },
            })
        }),
{
    let max_size = before.max_line_bytes as nat;
    law_no_bytes_change_nothing(before.lines, empty, before.delimiter, max_size);
    let step = before.read_step(discarded, ReadEventView::Available(empty), now);
    law_reads_advance_the_position(before, discarded, ReadEventView::Available(empty), now);
    law_no_bytes_change_nothing(step.watcher.lines, empty, before.delimiter, max_size);
}

/// A read that fails loses nothing that has been read.
pub proof fn law_failed_reads_lose_nothing(
    before: WatcherState,
    discarded: Seq<Seq<u8>>,
    failure: ReadFailure,
    now: Instant,
)
    ensures
        ({
            let step = before.read_step(discarded, ReadEventView::Failed(failure), now);
            &&& step.watcher.lines == before.lines
            &&& step.watcher.bytes_dropped() == before.bytes_dropped()
            &&& step.watcher.dead == (before.dead || failure is NotFound)
            &&& step.discarded == discarded
        }),
{
}

/// A file that is only renamed goes on being watched as before, and nothing is
/// reported of it.
pub proof fn law_renaming_changes_only_the_path(
    before: WatcherState,
    path: Seq<u8>,
    found: FoundFile,
)
    requires
        found.devno == before.devno,
        found.inode == before.inode,
    ensures
        !before.is_replaced_by(found.devno, found.inode),
        before.path_updated(path, found) == (WatcherState { path, ..before }),
        before.path_updated(path, found).bytes_dropped() == before.bytes_dropped(),
{
}

/// A file that takes the place of another one is watched from the position that
/// was reached there. Its end has not been reached, and what counts as dropped
/// is what it holds past that position, or nothing if it is compressed.
pub proof fn law_replacement_starts_afresh(before: WatcherState, path: Seq<u8>, found: FoundFile)
    requires
        before.inv(),
        before.is_replaced_by(found.devno, found.inode),
    ensures
        ({
            let after = before.path_updated(path, found);
            &&& after.lines == before.lines
            &&& !after.reached_eof
            &&& after.bytes_dropped() == (match found.size {
                Some(size) if !found.gzipped && before.lines.position < size => size - before.lines.position,
                _ => 0,
            })
        }),
{
}

/// Once a file has taken the place of another one, looking at it again finds
/// that it is the one that is watched.
pub proof fn law_replacement_is_noticed_once(
    before: WatcherState,
    path: Seq<u8>,
    found: FoundFile,
    later_path: Seq<u8>,
    later: FoundFile,
)
    requires
        later.devno == found.devno,
        later.inode == found.inode,
    ensures
        ({
            let after = before.path_updated(path, found);
            &&& !after.is_replaced_by(later.devno, later.inode)
            &&& after.path_updated(later_path, later) == (WatcherState {
                path: later_path,
                ..after
            })
        }),
{
}

/// A watcher tracks only one file: which one it is changes only when another one
/// is found at the path.
pub proof fn law_only_a_replacement_changes_the_file(before: WatcherState, after: WatcherState)
    requires
        leads_to(before, after),
        after.devno != before.devno || after.inode != before.inode,
    ensures
        exists|path: Seq<u8>, found: FoundFile|
            after == #[trigger] before.path_updated(path, found) && before.is_replaced_by(
                found.devno,
                found.inode,
            ),
{
}

/// After the size of a file has been looked at, a position that lay within the
/// file lies within it still.
pub proof fn law_position_stays_within_the_file(before: WatcherState, size: u64)
    requires
        before.position_reached,
        !before.compressed,
    ensures
        before.size_noted(size).lines.position <= size,
        before.size_noted(size).position_reached,
{
}

/// A position at which the file has never been is kept, whatever its size.
pub proof fn law_positions_ahead_are_kept(before: WatcherState, size: u64)
    requires
        !before.position_reached,
    ensures
        before.size_noted(size) == (WatcherState {
            position_reached: before.lines.position <= size,
            ..before
        }),
{
}

/// A checkpoint past the end of a file that is not compressed is a position at
/// which the file has never been.
pub proof fn law_checkpoints_may_lie_ahead(
    path: Seq<u8>,
    checkpoint: FilePosition,
    max_line_bytes: usize,
    delimiter: Seq<u8>,
    opened: OpenedFile,
    seen: Instant,
)
    requires
        !opened.gzipped,
        opened.size < checkpoint,
    ensures
        ({
            let state = WatcherState::watching(
                path,
                ReadFrom::Checkpoint(checkpoint),
                false,
                checkpoint,
                max_line_bytes,
                delimiter,
                opened,
                seen,
            );
            &&& state.lines.position == checkpoint
            &&& !state.position_reached
        }),
{
}

/// So is a position that is carried over to a file that is shorter.
pub proof fn law_replaced_positions_may_lie_ahead(
    before: WatcherState,
    path: Seq<u8>,
    found: FoundFile,
    size: u64,
)
    requires
        before.is_replaced_by(found.devno, found.inode),
        found.size == Some(size),
        size < before.lines.position,
    ensures
        before.path_updated(path, found).lines.position == before.lines.position,
        !before.path_updated(path, found).position_reached,
{
}

/// A compressed file is never taken for truncated.
pub proof fn law_compressed_files_are_never_truncated(before: WatcherState, size: u64)
    requires
        before.compressed,
    ensures
        before.size_noted(size).lines == before.lines,
        before.size_noted(size).bytes_dropped() == before.bytes_dropped(),
{
}

/// A file that has been truncated is read from its beginning: nothing of what it
/// held before is kept, its end has not been reached, and all of it counts as
/// dropped until it is read. That it has been truncated is noticed once.
pub proof fn law_truncated_files_are_read_anew(
    before: WatcherState,
    file: Seq<u8>,
    size: u64,
    later: u64,
)
    requires
        before.is_truncated_at(size),
    ensures
        ({
            let after = before.size_noted(size);
            &&& after.lines.position == 0
            &&& after.lines.line_start == 0
            &&& reads_from(after.lines, file, before.delimiter, before.max_line_bytes as nat)
            &&& !after.reached_eof
            &&& after.bytes_dropped() == size
            &&& !after.is_truncated_at(later)
        }),
{
    law_reading_can_start_anywhere(0, file, before.delimiter, before.max_line_bytes as nat);
}

/// A file that has not been truncated goes on being watched as before.
pub proof fn law_only_truncation_starts_anew(before: WatcherState, size: u64)
    requires
        before.lines.position <= size,
    ensures
        before.size_noted(size) == (WatcherState { position_reached: true, ..before }),
        before.size_noted(size).bytes_dropped() == before.bytes_dropped(),
{
}

/// What a watcher does when it is offered at most so many bytes of a file, from
/// its position on, at the given instant.
pub open spec fn read_of(
    state: WatcherState,
    discarded: Seq<Seq<u8>>,
    file: Seq<u8>,
    offer: (nat, Instant),
) -> ReadStep {
    let bytes = chunk_of(file, state.lines.position, offer.0);
    state.read_step(discarded, ReadEventView::Available(bytes), offer.1)
}

/// The state of a watcher after it has been offered bytes of a file any number
/// of times, in reads of as many offers as each takes.
pub open spec fn watcher_after(
    state: WatcherState,
    discarded: Seq<Seq<u8>>,
    file: Seq<u8>,
    offers: Seq<(nat, Instant)>,
) -> WatcherState
    decreases offers.len(),
{
    if offers.len() == 0 {
        state
    } else {
        let step = read_of(state, discarded, file, offers.first());
        watcher_after(step.watcher, step.discarded, file, offers.drop_first())
    }
}

/// The lines that those reads give.
pub open spec fn lines_read(
    state: WatcherState,
    discarded: Seq<Seq<u8>>,
    file: Seq<u8>,
    offers: Seq<(nat, Instant)>,
) -> Seq<RawLineView>
    decreases offers.len(),
{
    if offers.len() == 0 {
        Seq::empty()
    } else {
        let step = read_of(state, discarded, file, offers.first());
        let later = lines_read(step.watcher, step.discarded, file, offers.drop_first());
        match step.action {
            ReadActionView::Finish { result, .. } => match result.raw_line {
                Some(line) => seq![line] + later,
                None => later,
            },
            _ => later,
        }
    }
}

/// Whether each of those offers holds bytes: none is made at the end of the
/// file.
pub open spec fn offers_hold_bytes(
    state: WatcherState,
    discarded: Seq<Seq<u8>>,
    file: Seq<u8>,
    offers: Seq<(nat, Instant)>,
) -> bool
    decreases offers.len(),
{
    offers.len() > 0 ==> {
        let step = read_of(state, discarded, file, offers.first());
        &&& chunk_of(file, state.lines.position, offers.first().0).len() > 0
        &&& offers_hold_bytes(step.watcher, step.discarded, file, offers.drop_first())
    }
}

/// However a file is offered to a watcher, the lines read are the lines of the
/// file, in order, without gaps or repetitions: those read and those still to
/// come make up the lines that were to come at first. This holds of a file that
/// can be found, and of one that is gone until its end is met, where what there
/// is of the current line becomes a line.
pub proof fn law_reads_lose_no_line(
    state: WatcherState,
    discarded: Seq<Seq<u8>>,
    file: Seq<u8>,
    offers: Seq<(nat, Instant)>,
)
    requires
        reads_from(state.lines, file, state.delimiter, state.max_line_bytes as nat),
        state.delimiter.len() > 0,
        state.findable || offers_hold_bytes(state, discarded, file, offers),
    ensures
        ({
            let after = watcher_after(state, discarded, file, offers);
            let max_size = state.max_line_bytes as nat;
            &&& reads_from(after.lines, file, state.delimiter, max_size)
            &&& after.findable == state.findable
            &&& lines_from(file, state.lines.line_start, state.delimiter, max_size) == lines_read(
                state,
                discarded,
                file,
                offers,
            ) + lines_from(file, after.lines.line_start, state.delimiter, max_size)
        }),
    decreases offers.len(),
{
    let delimiter = state.delimiter;
    let max_size = state.max_line_bytes as nat;
    let all = lines_from(file, state.lines.line_start, delimiter, max_size);
    if offers.len() == 0 {
        assert(all =~= Seq::<RawLineView>::empty() + all);
    } else {
        let chunk = chunk_of(file, state.lines.position, offers.first().0);
        assert(chunk =~= file.subrange(
            state.lines.position,
            state.lines.position + chunk.len(),
        ));
        let step = read_of(state, discarded, file, offers.first());
        law_lines_are_those_of_the_file(state.lines, file, chunk, delimiter, max_size);
        law_reads_lose_no_line(step.watcher, step.discarded, file, offers.drop_first());
        let after = watcher_after(state, discarded, file, offers);
        assert(all =~= lines_read(state, discarded, file, offers) + lines_from(
            file,
            after.lines.line_start,
            delimiter,
            max_size,
        ));
    }
}

/// Once the position of a watcher has come to the end of a file, all lines of
/// the file have been read.
pub proof fn law_all_lines_are_read(
    state: WatcherState,
    discarded: Seq<Seq<u8>>,
    file: Seq<u8>,
    offers: Seq<(nat, Instant)>,
)
    requires
        reads_from(state.lines, file, state.delimiter, state.max_line_bytes as nat),
        state.delimiter.len() > 0,
        state.findable || offers_hold_bytes(state, discarded, file, offers),
        watcher_after(state, discarded, file, offers).lines.position == file.len(),
    ensures
        lines_read(state, discarded, file, offers) == lines_from(
            file,
            state.lines.line_start,
            state.delimiter,
            state.max_line_bytes as nat,
        ),
{
    let max_size = state.max_line_bytes as nat;
    law_reads_lose_no_line(state, discarded, file, offers);
    let after = watcher_after(state, discarded, file, offers);
    law_all_lines_are_delivered(after.lines, file, Seq::empty(), state.delimiter, max_size);
    let lines = lines_read(state, discarded, file, offers);
    assert(lines + Seq::<RawLineView>::empty() =~= lines);
}

/// A compressed file is never sought in: it is read from its first byte, or not
/// at all.
pub proof fn law_compressed_files_are_never_sought(
    too_old: bool,
    read_from: ReadFrom,
    position: FilePosition,
    sought: FilePosition,
)
    ensures
        ({
            let plan = first_plan(true, too_old, read_from);
            &&& plan is Nothing || plan is Decompress
            &&& plan is Decompress ==> plan.start(sought) == 0
        }),
        ({
            let plan = replacement_plan(true, position);
            &&& plan is Nothing || plan is Decompress
            &&& plan is Decompress ==> position == 0
        }),
{
}

/// Of a file that is too old, nothing is read that it holds when watching it
/// begins.
pub proof fn law_old_files_are_not_read(gzipped: bool, read_from: ReadFrom)
    ensures
        first_plan(gzipped, true, read_from) == if gzipped {
            ReaderPlan::Nothing(0)
        } else {
            ReaderPlan::SeekToEnd
        },
{
}

/// A file that takes the place of another one goes on at the position that was
/// reached there, whichever way it is read.
pub proof fn law_replacement_keeps_the_position(gzipped: bool, position: FilePosition)
    ensures
        replacement_plan(gzipped, position).start(position) == position,
        replacement_plan(gzipped, position) matches ReaderPlan::SeekTo(target) ==> target
            == position,
{
}

/// Bytes that are offered are read: as long as the position stays an offset and
/// memory can hold the line with them, at least one of them is consumed, and the
/// read goes on or is over.
pub proof fn law_reads_make_progress(
    before: WatcherState,
    discarded: Seq<Seq<u8>>,
    bytes: Seq<u8>,
    now: Instant,
)
    requires
        before.inv(),
        before.delimiter.len() > 0,
        bytes.len() > 0,
        before.lines.position + bytes.len() <= u64::MAX,
        before.lines.buffered.len() + bytes.len() <= isize::MAX,
    ensures
        ({
            let step = before.read_step(discarded, ReadEventView::Available(bytes), now);
            let used = step.watcher.lines.position - before.lines.position;
            &&& 0 < used <= bytes.len()
            &&& match step.action {
                ReadActionView::Continue { used: consumed } => consumed == used,
                ReadActionView::Finish { used: consumed, result } => consumed == used
                    && result.raw_line is Some,
                _ => false,
            }
        }),
{
    law_chunks_are_consumed(
        before.lines,
        bytes,
        before.delimiter,
        before.max_line_bytes as nat,
    );
}

/// Bytes are refused only if the position would be no offset any more, or if
/// memory could not hold the line with them; then nothing changes.
pub proof fn law_bytes_are_refused_only_for_want_of_room(
    before: WatcherState,
    discarded: Seq<Seq<u8>>,
    event: ReadEventView,
    now: Instant,
)
    ensures
        ({
            let step = before.read_step(discarded, event, now);
            &&& step.action is OutOfRoom <==> {
                &&& event is Available
                &&& {
                    ||| before.lines.position + event->Available_0.len() > u64::MAX
                    ||| before.lines.buffered.len() + event->Available_0.len() > isize::MAX
                }
            }
            &&& step.action is OutOfRoom ==> step.watcher == before && step.discarded == discarded
        }),
{
}

/// Reading changes nothing but how far the file has been read, what was met on
/// the way, and when a line was last read.
pub proof fn law_reads_touch_nothing_else(
    before: WatcherState,
    discarded: Seq<Seq<u8>>,
    event: ReadEventView,
    now: Instant,
)
    ensures
        ({
            let after = before.read_step(discarded, event, now).watcher;
            &&& after.path == before.path
            &&& after.findable == before.findable
            &&& after.compressed == before.compressed
            &&& after.devno == before.devno
            &&& after.inode == before.inode
            &&& after.last_read_attempt == before.last_read_attempt
            &&& after.last_seen == before.last_seen
            &&& after.max_line_bytes == before.max_line_bytes
            &&& after.delimiter == before.delimiter
            &&& after.initial_file_size == before.initial_file_size
        }),
{
}

/// What is met at a read is what is noted of it: that a line was read, exactly
/// if one is delivered that bytes have ended; that the end was reached, exactly
/// if there are no bytes; that the file is to be watched no longer, exactly if
/// it is not there, or gone and at its end.
pub proof fn law_reads_note_what_they_meet(
    before: WatcherState,
    discarded: Seq<Seq<u8>>,
    event: ReadEventView,
    now: Instant,
)
    requires
        before.inv(),
        before.delimiter.len() > 0,
        event matches ReadEventView::Available(bytes) ==> before.lines.position + bytes.len()
            <= u64::MAX && before.lines.buffered.len() + bytes.len() <= isize::MAX,
    ensures
        ({
            let step = before.read_step(discarded, event, now);
            let after = step.watcher;
            let ended = event matches ReadEventView::Available(bytes) && bytes.len() == 0;
            let fed = event matches ReadEventView::Available(bytes) && bytes.len() > 0;
            &&& after.last_read_success == if fed && step.action is Finish {
                now
            } else {
                before.last_read_success
            }
            &&& after.reached_eof <==> before.reached_eof || ended
            &&& after.position_reached <==> before.position_reached || fed
            &&& after.dead <==> {
                ||| before.dead
                ||| ended && !before.findable
                ||| event matches ReadEventView::Failed(failure) && failure is NotFound
            }
        }),
{
    if let ReadEventView::Available(bytes) = event {
        let max_size = before.max_line_bytes as nat;
        if bytes.len() == 0 {
            law_no_bytes_change_nothing(before.lines, bytes, before.delimiter, max_size);
        } else {
            law_chunks_are_consumed(before.lines, bytes, before.delimiter, max_size);
        }
    }
}

/// A read that is interrupted goes on as if nothing had happened. Any other
/// failure ends the read and is handed on as it is, and nothing changes but that
/// a file that is not there is to be watched no longer.
pub proof fn law_failures_are_handed_on(
    before: WatcherState,
    discarded: Seq<Seq<u8>>,
    failure: ReadFailure,
    now: Instant,
)
    ensures
        ({
            let step = before.read_step(discarded, ReadEventView::Failed(failure), now);
            &&& step.action == if failure is Interrupted {
                ReadActionView::Continue { used: 0 }
            } else {
                ReadActionView::Fail(failure)
            }
            &&& step.watcher == WatcherState {
                dead: before.dead || failure is NotFound,
                ..before
            }
            &&& step.discarded == discarded
        }),
{
}

/// What a read reports as discarded is what it had noted before and what it met
/// since; a read that is over has nothing noted any more.
pub proof fn law_reads_report_what_they_noted(
    before: WatcherState,
    discarded: Seq<Seq<u8>>,
    bytes: Seq<u8>,
    now: Instant,
)
    requires
        before.lines.position + bytes.len() <= u64::MAX,
        before.lines.buffered.len() + bytes.len() <= isize::MAX,
    ensures
        ({
            let step = before.read_step(discarded, ReadEventView::Available(bytes), now);
            let met = before.lines.take_chunk(
                bytes,
                before.delimiter,
                before.max_line_bytes as nat,
            ).discarded;
            let all = match met {
                Some(beginning) => discarded + seq![beginning],
                None => discarded,
            };
            match step.action {
                ReadActionView::Continue { .. } => step.discarded == all,
                ReadActionView::Finish { result, .. } => result.discarded == all
                    && step.discarded.len() == 0,
                _ => false,
            }
        }),
{
    let met = before.lines.take_chunk(
        bytes,
        before.delimiter,
        before.max_line_bytes as nat,
    ).discarded;
    if let Some(beginning) = met {
        assert(discarded.push(beginning) =~= discarded + seq![beginning]);
    }
}

/// Whether a file can be found is what was found last; when it was last seen is
/// when it was last found. Nothing else depends on it.
pub proof fn law_the_last_look_counts(
    before: WatcherState,
    findable: bool,
    now: Instant,
    later: Instant,
)
    ensures
        before.found(findable, now).findable == findable,
        before.found(true, now).last_seen == now,
        before.found(false, now).last_seen == before.last_seen,
        before.found(findable, now).found(true, later) == before.found(true, later),
        before.found(true, now).found(false, later) == (WatcherState {
            findable: false,
            ..before.found(true, now)
        }),
        (WatcherState {
            findable: before.findable,
            last_seen: before.last_seen,
            ..before.found(findable, now)
        }) == before,
{
}

/// Asking for a line notes when, and nothing else.
pub proof fn law_attempts_note_only_the_instant(before: WatcherState, now: Instant)
    ensures
        before.attempted(now).last_read_attempt == now,
        (WatcherState { last_read_attempt: before.last_read_attempt, ..before.attempted(now) })
            == before,
{
}

/// Giving a file up makes it one that is to be watched no longer, and nothing
/// else: what is reported of it stays the same.
pub proof fn law_giving_up_changes_nothing_else(before: WatcherState)
    ensures
        before.given_up().dead,
        (WatcherState { dead: before.dead, ..before.given_up() }) == before,
        before.given_up().unwatch_info() == before.unwatch_info(),
{
}

/// Starting a read notes when a line was asked for, and does otherwise what
/// looking at the size does, where there is one.
pub proof fn law_starting_a_read_does_nothing_else(
    before: WatcherState,
    size: u64,
    now: Instant,
)
    ensures
        before.read_started(None, now) == (WatcherState { last_read_attempt: now, ..before }),
        before.read_started(Some(size), now) == (WatcherState {
            last_read_attempt: now,
            ..before.size_noted(size)
        }),
{
}

/// After the path has been updated, the file that was found there is the one
/// that is watched, under that path. It was another one before exactly if its
/// device or its number is not the same.
pub proof fn law_the_file_found_is_watched(
    before: WatcherState,
    path: Seq<u8>,
    found: FoundFile,
)
    ensures
        ({
            let after = before.path_updated(path, found);
            &&& after.path == path
            &&& after.devno == found.devno
            &&& after.inode == found.inode
            &&& before.is_replaced_by(found.devno, found.inode) <==> (after.devno, after.inode) != (
                before.devno,
                before.inode,
            )
        }),
{
}

/// Whether one file is another than the one watched is told by its device and
/// its number alone: the one watched is not, and any other is.
pub proof fn law_files_are_told_apart(before: WatcherState, devno: u64, inode: u64)
    ensures
        before.is_replaced_by(devno, inode) <==> !(devno == before.devno && inode == before.inode),
        !before.is_replaced_by(before.devno, before.inode),
{
}

/// Whatever is found at the path, how far the file has been read and what has
/// been read of the current line stay, as does all that does not speak of the
/// file itself.
pub proof fn law_updates_touch_only_the_file(
    before: WatcherState,
    path: Seq<u8>,
    found: FoundFile,
)
    ensures
        ({
            let after = before.path_updated(path, found);
            &&& after.lines == before.lines
            &&& after.findable == before.findable
            &&& after.dead == before.dead
            &&& after.last_read_attempt == before.last_read_attempt
            &&& after.last_read_success == before.last_read_success
            &&& after.last_seen == before.last_seen
            &&& after.max_line_bytes == before.max_line_bytes
            &&& after.delimiter == before.delimiter
        }),
{
}

/// Of a file that takes the place of another one, the size counts that was found,
/// unless it is compressed or the size is not known; its end has not been
/// reached; and it reaches up to the position exactly if it is known to be long
/// enough.
pub proof fn law_replacements_count_by_their_size(
    before: WatcherState,
    path: Seq<u8>,
    found: FoundFile,
)
    requires
        found.devno != before.devno || found.inode != before.inode,
    ensures
        ({
            let after = before.path_updated(path, found);
            &&& !after.reached_eof
            &&& after.compressed == found.gzipped
            &&& found.gzipped || found.size is None ==> after.initial_file_size == 0
            &&& !found.gzipped && found.size is Some ==> Some(after.initial_file_size)
                == found.size
            &&& after.position_reached <==> found.size is Some && before.lines.position
                <= found.size->0
        }),
{
}

/// What is reported of a file, whether it can be found or not, and whether it is
/// to be watched or not: its path, whether its end has been reached, and as
/// dropped the bytes that it had past the position, or none if its end has been
/// reached.
pub proof fn law_reports_say_what_is_lost(state: WatcherState)
    ensures
        ({
            let info = state.unwatch_info();
            &&& info.path == state.path
            &&& info.reached_eof == state.reached_eof
            &&& info.bytes_dropped == state.bytes_dropped()
            &&& state.reached_eof ==> info.bytes_dropped == 0
            &&& !state.reached_eof && state.initial_file_size >= state.lines.position
                ==> info.bytes_dropped == state.initial_file_size - state.lines.position
            &&& !state.reached_eof && state.initial_file_size < state.lines.position
                ==> info.bytes_dropped == 0
        }),
{
}

/// What is lost of a file depends on nothing but how far it has been read, how
/// much there was of it, and whether its end has been reached.
pub proof fn law_losses_depend_on_reading_alone(state1: WatcherState, state2: WatcherState)
    requires
        state1.lines.position == state2.lines.position,
        state1.initial_file_size == state2.initial_file_size,
        state1.reached_eof == state2.reached_eof,
    ensures
        state1.bytes_dropped() == state2.bytes_dropped(),
        state1.unwatch_info().bytes_dropped == state2.unwatch_info().bytes_dropped,
        state1.unwatch_info().reached_eof == state2.unwatch_info().reached_eof,
{
}

/// A file has been truncated exactly if it is read as it is, reached up to the
/// position, and is shorter than that now.
pub proof fn law_truncation_is_falling_short_of_the_position(state: WatcherState, size: u64)
    ensures
        state.is_truncated_at(size) <==> {
            &&& !state.compressed
            &&& state.position_reached
            &&& size < state.lines.position
        },
{
}

/// Looking at the size of a file changes nothing but how far the file has been
/// read and how much there is of it, and that only if it has been truncated.
pub proof fn law_looking_at_the_size_touches_nothing_else(before: WatcherState, size: u64)
    ensures
        ({
            let after = before.size_noted(size);
            &&& after.path == before.path
            &&& after.findable == before.findable
            &&& after.compressed == before.compressed
            &&& after.devno == before.devno
            &&& after.inode == before.inode
            &&& after.dead == before.dead
            &&& after.last_read_attempt == before.last_read_attempt
            &&& after.last_read_success == before.last_read_success
            &&& after.last_seen == before.last_seen
            &&& after.max_line_bytes == before.max_line_bytes
            &&& after.delimiter == before.delimiter
            &&& after.position_reached <==> before.position_reached || before.lines.position
                <= size
            &&& before.is_truncated_at(size) ==> {
                &&& after.lines.position == 0
                &&& after.lines.line_start == 0
                &&& !after.lines.discarding
                &&& after.lines.buffered.len() == 0
                &&& after.initial_file_size == size
                &&& !after.reached_eof
            }
            &&& !before.is_truncated_at(size) ==> {
                &&& after.lines == before.lines
                &&& after.initial_file_size == before.initial_file_size
                &&& after.reached_eof == before.reached_eof
            }
        }),
{
}

/// That the end of a file has been reached is not forgotten, as long as the file
/// is the same and has not been truncated.
pub proof fn law_eof_is_remembered(before: WatcherState, after: WatcherState)
    requires
        before.reached_eof,
        leads_to(before, after),
        after.devno == before.devno,
        after.inode == before.inode,
        forall|size: u64|
            after == #[trigger] before.size_noted(size) ==> !before.is_truncated_at(size),
    ensures
        after.reached_eof,
{
}

/// Whether a file is due does not depend on whether or when it was found, on its
/// path or its size, nor on whether it is to be watched.
pub proof fn law_looking_does_not_make_a_file_due(
    state: WatcherState,
    findable: bool,
    seen: Instant,
    path: Seq<u8>,
    found: FoundFile,
    size: u64,
    success_checked: Instant,
    attempt_checked: Instant,
)
    ensures
        ({
            let due = state.is_due(success_checked, attempt_checked);
            &&& state.found(findable, seen).is_due(success_checked, attempt_checked) == due
            &&& state.path_updated(path, found).is_due(success_checked, attempt_checked) == due
            &&& state.size_noted(size).is_due(success_checked, attempt_checked) == due
            &&& state.given_up().is_due(success_checked, attempt_checked) == due
        }),
{
}

/// A file from which a line has been read is due for ten seconds, whatever else
/// is known of it.
pub proof fn law_busy_files_are_due(
    before: WatcherState,
    discarded: Seq<Seq<u8>>,
    bytes: Seq<u8>,
    now: Instant,
    success_checked: Instant,
    attempt_checked: Instant,
)
    requires
        before.inv(),
        before.delimiter.len() > 0,
        bytes.len() > 0,
        before.read_step(discarded, ReadEventView::Available(bytes), now).action is Finish,
        duration_nanos(time_between(success_checked, now)) < 10_000_000_000,
    ensures
        before.read_step(discarded, ReadEventView::Available(bytes), now).watcher.is_due(
            success_checked,
            attempt_checked,
        ),
{
    law_chunks_are_consumed(
        before.lines,
        bytes,
        before.delimiter,
        before.max_line_bytes as nat,
    );
}

/// A file from which no line has been read for ten seconds is due exactly if no
/// line has been asked for in more than ten seconds.
pub proof fn law_quiet_files_are_tried_now_and_then(
    before: WatcherState,
    attempted: Instant,
    success_checked: Instant,
    attempt_checked: Instant,
)
    requires
        duration_nanos(time_between(success_checked, before.last_read_success)) >= 10_000_000_000,
    ensures
        before.attempted(attempted).is_due(success_checked, attempt_checked) <==> duration_nanos(
            time_between(attempt_checked, attempted),
        ) > 10_000_000_000,
        before.is_due(success_checked, attempt_checked) <==> duration_nanos(
            time_between(attempt_checked, before.last_read_attempt),
        ) > 10_000_000_000,
{
}

/// A file from which a line has been read less than ten seconds ago is due,
/// however recently one was asked for.
pub proof fn law_attempts_do_not_slow_busy_files(
    state: WatcherState,
    attempted: Instant,
    success_checked: Instant,
    attempt_checked: Instant,
)
    requires
        duration_nanos(time_between(success_checked, state.last_read_success)) < 10_000_000_000,
    ensures
        state.is_due(success_checked, attempt_checked),
        state.attempted(attempted).is_due(success_checked, attempt_checked),
{
}

/// Reads in which nothing is read leave a file as due as it was.
pub proof fn law_vain_reads_do_not_make_a_file_due(
    before: WatcherState,
    discarded: Seq<Seq<u8>>,
    event: ReadEventView,
    now: Instant,
    success_checked: Instant,
    attempt_checked: Instant,
)
    requires
        before.inv(),
        before.delimiter.len() > 0,
        event matches ReadEventView::Available(bytes) ==> bytes.len() == 0 || !(before.read_step(
            discarded,
            event,
            now,
        ).action is Finish),
    ensures
        before.read_step(discarded, event, now).watcher.is_due(success_checked, attempt_checked)
            == before.is_due(success_checked, attempt_checked),
{
    if let ReadEventView::Available(bytes) = event {
        let max_size = before.max_line_bytes as nat;
        if bytes.len() == 0 {
            law_no_bytes_change_nothing(before.lines, bytes, before.delimiter, max_size);
        } else {
            law_chunks_are_consumed(before.lines, bytes, before.delimiter, max_size);
        }
    }
}

/// Whether each of a number of offers is of at least one byte, and of no more
/// than memory can hold behind a line.
pub open spec fn offers_can_be_read(state: WatcherState, offers: Seq<(nat, Instant)>) -> bool {
    forall|i: int|
        0 <= i < offers.len() ==> 0 < (#[trigger] offers[i]).0 && state.max_line_bytes
            + state.delimiter.len() - 1 + offers[i].0 <= isize::MAX
}

/// An offer of bytes that are there brings the position on.
proof fn lemma_offers_bring_the_position_on(
    state: WatcherState,
    discarded: Seq<Seq<u8>>,
    file: Seq<u8>,
    offers: Seq<(nat, Instant)>,
)
    requires
        reads_from(state.lines, file, state.delimiter, state.max_line_bytes as nat),
        state.delimiter.len() > 0,
        state.lines.position < file.len() <= u64::MAX,
        offers.len() > 0,
        offers_can_be_read(state, offers),
    ensures
        ({
            let step = read_of(state, discarded, file, offers.first());
            let chunk = chunk_of(file, state.lines.position, offers.first().0);
            &&& chunk.len() > 0
            &&& chunk == file.subrange(state.lines.position, state.lines.position + chunk.len())
            &&& state.lines.has_room_for(chunk)
            &&& reads_from(step.watcher.lines, file, state.delimiter, state.max_line_bytes as nat)
            &&& state.lines.position < step.watcher.lines.position <= file.len()
            &&& step.watcher.delimiter == state.delimiter
            &&& step.watcher.max_line_bytes == state.max_line_bytes
            &&& step.watcher.findable == state.findable
            &&& offers_can_be_read(step.watcher, offers.drop_first())
        }),
{
    let max_size = state.max_line_bytes as nat;
    let offer = offers[0];
    let chunk = chunk_of(file, state.lines.position, offer.0);
    assert(chunk =~= file.subrange(state.lines.position, state.lines.position + chunk.len()));
    law_memory_is_bounded(state.lines, state.delimiter, max_size);
    law_reads_make_progress(state, discarded, chunk, offer.1);
    law_lines_are_those_of_the_file(state.lines, file, chunk, state.delimiter, max_size);
    let later = offers.drop_first();
    assert forall|i: int| 0 <= i < later.len() implies 0 < (#[trigger] later[i]).0
        && state.max_line_bytes + state.delimiter.len() - 1 + later[i].0 <= isize::MAX by {
        assert(later[i] == offers[i + 1]);
    }
}

/// However a file that can be found is offered to a watcher, as many offers as
/// there are bytes to be read suffice to bring the position to the end of the
/// file; then all its lines have been read.
pub proof fn law_enough_reads_read_all_lines(
    state: WatcherState,
    discarded: Seq<Seq<u8>>,
    file: Seq<u8>,
    offers: Seq<(nat, Instant)>,
)
    requires
        reads_from(state.lines, file, state.delimiter, state.max_line_bytes as nat),
        state.delimiter.len() > 0,
        state.findable,
        file.len() <= u64::MAX,
        offers_can_be_read(state, offers),
        file.len() - state.lines.position <= offers.len(),
    ensures
        watcher_after(state, discarded, file, offers).lines.position == file.len(),
        lines_read(state, discarded, file, offers) == lines_from(
            file,
            state.lines.line_start,
            state.delimiter,
            state.max_line_bytes as nat,
        ),
{
    lemma_enough_offers(state, discarded, file, offers);
    law_all_lines_are_read(state, discarded, file, offers);
}

/// As many offers as there are bytes to be read bring the position to the end of
/// the file.
proof fn lemma_enough_offers(
    state: WatcherState,
    discarded: Seq<Seq<u8>>,
    file: Seq<u8>,
    offers: Seq<(nat, Instant)>,
)
    requires
        reads_from(state.lines, file, state.delimiter, state.max_line_bytes as nat),
        state.delimiter.len() > 0,
        state.findable,
        file.len() <= u64::MAX,
        offers_can_be_read(state, offers),
        file.len() - state.lines.position <= offers.len(),
    ensures
        watcher_after(state, discarded, file, offers).lines.position == file.len(),
    decreases offers.len(),
{
    if offers.len() > 0 {
        let step = read_of(state, discarded, file, offers.first());
        let later = offers.drop_first();
        if state.lines.position < file.len() {
            lemma_offers_bring_the_position_on(state, discarded, file, offers);
        } else {
            let empty = chunk_of(file, state.lines.position, offers.first().0);
            assert(empty.len() == 0);
            law_no_bytes_change_nothing(
                state.lines,
                empty,
                state.delimiter,
                state.max_line_bytes as nat,
            );
            assert forall|i: int| 0 <= i < later.len() implies 0 < (#[trigger] later[i]).0
                && state.max_line_bytes + state.delimiter.len() - 1 + later[i].0
                <= isize::MAX by {
                assert(later[i] == offers[i + 1]);
            }
        }
        lemma_enough_offers(step.watcher, step.discarded, file, later);
    }
}

/// Lines that are written to a file that is watched are read back, in order,
/// each with its bytes and at the offset at which it was written, however the
/// file is offered.
pub proof fn law_written_lines_are_read_back(
    state: WatcherState,
    discarded: Seq<Seq<u8>>,
    front: Seq<u8>,
    lines: Seq<Seq<u8>>,
    offers: Seq<(nat, Instant)>,
)
    requires
        state.lines.position == front.len(),
        state.lines.line_start == front.len(),
        state.inv(),
        state.findable,
        state.delimiter.len() > 0,
        forall|i: int|
            0 <= i < lines.len() ==> is_line(#[trigger] lines[i], state.delimiter)
                && lines[i].len() <= state.max_line_bytes,
        front.len() + text_of(lines, state.delimiter).len() <= u64::MAX,
        offers_can_be_read(state, offers),
        text_of(lines, state.delimiter).len() <= offers.len(),
    ensures
        ({
            let file = front + text_of(lines, state.delimiter);
            let read = lines_read(state, discarded, file, offers);
            &&& read.len() == lines.len()
            &&& forall|i: int|
                0 <= i < lines.len() ==> {
                    &&& (#[trigger] read[i]).bytes == lines[i]
                    &&& read[i].offset == front.len() + text_of(
                        lines.take(i),
                        state.delimiter,
                    ).len()
                }
        }),
{
    let file = front + text_of(lines, state.delimiter);
    let max_size = state.max_line_bytes as nat;
    law_reading_can_start_anywhere(front.len() as int, file, state.delimiter, max_size);
    assert(state.lines =~= LineState::starting_at(front.len() as int));
    law_written_lines_are_the_lines_of_the_file(front, lines, state.delimiter, max_size);
    law_enough_reads_read_all_lines(state, discarded, file, offers);
}

/// When a file that is gone has been read to its end, what follows its last
/// delimiter is delivered as a line, at the offset at which it begins, unless it
/// is empty or too long. Nothing of it is kept: the file is done.
pub proof fn law_the_rest_of_a_file_that_is_gone_is_a_line(
    before: WatcherState,
    discarded: Seq<Seq<u8>>,
    file: Seq<u8>,
    empty: Seq<u8>,
    now: Instant,
)
    requires
        reads_from(before.lines, file, before.delimiter, before.max_line_bytes as nat),
        before.delimiter.len() > 0,
        before.lines.position == file.len() <= u64::MAX,
        before.lines.buffered.len() <= isize::MAX,
        !before.findable,
        empty.len() == 0,
    ensures
        ({
            let step = before.read_step(discarded, ReadEventView::Available(empty), now);
            let start = before.lines.line_start;
            let rest = file.subrange(start, file.len() as int);
            &&& step.action == (ReadActionView::Finish {
                used: 0,
                result: RawLineResultView {
                    raw_line: if 0 < rest.len() <= before.max_line_bytes + before.delimiter.len()
                        - 1 {
                        Some(RawLineView { offset: start, bytes: rest })
                    } else {
                        None
                    },
                    discarded,
                },
            })
            &&& step.discarded.len() == 0
            &&& step.watcher.dead
            &&& step.watcher.reached_eof
            &&& step.watcher.bytes_dropped() == 0
            &&& step.watcher.lines.position == file.len()
            &&& step.watcher.lines.line_start == file.len()
            &&& step.watcher.lines.buffered.len() == 0
            &&& !step.watcher.lines.discarding
        }),
{
    law_no_bytes_change_nothing(
        before.lines,
        empty,
        before.delimiter,
        before.max_line_bytes as nat,
    );
}

/// A file that is gone and done gives nothing any more.
proof fn lemma_nothing_comes_of_a_file_that_is_done(
    state: WatcherState,
    file: Seq<u8>,
    offers: Seq<(nat, Instant)>,
)
    requires
        state.lines == LineState::starting_at(file.len() as int),
        state.delimiter.len() > 0,
        file.len() <= u64::MAX,
        !state.findable,
        state.dead,
        state.reached_eof,
    ensures
        watcher_after(state, Seq::empty(), file, offers) == state,
        lines_read(state, Seq::empty(), file, offers) == Seq::<RawLineView>::empty(),
    decreases offers.len(),
{
    if offers.len() > 0 {
        let empty = chunk_of(file, state.lines.position, offers.first().0);
        assert(empty.len() == 0);
        law_no_bytes_change_nothing(
            state.lines,
            empty,
            state.delimiter,
            state.max_line_bytes as nat,
        );
        let step = read_of(state, Seq::empty(), file, offers.first());
        assert(step.watcher == state);
        assert(step.discarded == Seq::<Seq<u8>>::empty());
        lemma_nothing_comes_of_a_file_that_is_done(state, file, offers.drop_first());
    }
}

/// However a file that is gone is offered to a watcher, one offer more than there
/// are bytes to be read suffices to read all its lines, and what follows the last
/// delimiter. Then it is to be watched no longer, its end has been reached, and
/// nothing of it is dropped.
pub proof fn law_enough_reads_finish_a_file_that_is_gone(
    state: WatcherState,
    discarded: Seq<Seq<u8>>,
    file: Seq<u8>,
    offers: Seq<(nat, Instant)>,
)
    requires
        reads_from(state.lines, file, state.delimiter, state.max_line_bytes as nat),
        state.delimiter.len() > 0,
        !state.findable,
        file.len() <= u64::MAX,
        offers_can_be_read(state, offers),
        file.len() - state.lines.position < offers.len(),
    ensures
        ({
            let after = watcher_after(state, discarded, file, offers);
            &&& lines_read(state, discarded, file, offers) == all_lines_from(
                file,
                state.lines.line_start,
                state.delimiter,
                state.max_line_bytes as nat,
            )
            &&& after.lines.position == file.len()
            &&& after.dead
            &&& after.reached_eof
            &&& after.bytes_dropped() == 0
        }),
    decreases offers.len(),
{
    let delimiter = state.delimiter;
    let max_size = state.max_line_bytes as nat;
    let start = state.lines.line_start;
    let offer = offers.first();
    let later = offers.drop_first();
    let chunk = chunk_of(file, state.lines.position, offer.0);
    let step = read_of(state, discarded, file, offer);
    if state.lines.position < file.len() {
        lemma_offers_bring_the_position_on(state, discarded, file, offers);
        law_lines_are_those_of_the_file(state.lines, file, chunk, delimiter, max_size);
        law_chunks_are_consumed(state.lines, chunk, delimiter, max_size);
        law_enough_reads_finish_a_file_that_is_gone(step.watcher, step.discarded, file, later);
        assert(lines_read(state, discarded, file, offers) =~= all_lines_from(
            file,
            start,
            delimiter,
            max_size,
        ));
    } else {
        assert(chunk.len() == 0);
        assert(offers[0] == offer);
        law_memory_is_bounded(state.lines, delimiter, max_size);
        law_no_line_ends_past_what_was_read(state.lines, file, delimiter, max_size);
        law_the_rest_of_a_file_that_is_gone_is_a_line(state, discarded, file, chunk, offer.1);
        assert(step.discarded =~= Seq::<Seq<u8>>::empty());
        assert(step.watcher.lines =~= LineState::starting_at(file.len() as int));
        lemma_nothing_comes_of_a_file_that_is_done(step.watcher, file, later);
        assert(lines_read(state, discarded, file, offers) =~= all_lines_from(
            file,
            start,
            delimiter,
            max_size,
        ));
    }
}

/// The beginnings of overlong lines that reads report.
pub open spec fn reports_read(
    state: WatcherState,
    discarded: Seq<Seq<u8>>,
    file: Seq<u8>,
    offers: Seq<(nat, Instant)>,
) -> Seq<Seq<u8>>
    decreases offers.len(),
{
    if offers.len() == 0 {
        Seq::empty()
    } else {
        let step = read_of(state, discarded, file, offers.first());
        let later = reports_read(step.watcher, step.discarded, file, offers.drop_first());
        match step.action {
            ReadActionView::Finish { result, .. } => result.discarded + later,
            _ => later,
        }
    }
}

/// What is noted of the read that is under way after a number of offers.
pub open spec fn noted_after(
    state: WatcherState,
    discarded: Seq<Seq<u8>>,
    file: Seq<u8>,
    offers: Seq<(nat, Instant)>,
) -> Seq<Seq<u8>>
    decreases offers.len(),
{
    if offers.len() == 0 {
        discarded
    } else {
        let step = read_of(state, discarded, file, offers.first());
        noted_after(step.watcher, step.discarded, file, offers.drop_first())
    }
}

/// However a file is offered to a watcher, its reads report every line that is
/// too long, once, in order, by its beginning, and nothing else: what is
/// reported, what is noted of the read that is under way, and what is still to
/// come make up what was noted and was to come at first.
pub proof fn law_reads_report_every_overlong_line(
    state: WatcherState,
    discarded: Seq<Seq<u8>>,
    file: Seq<u8>,
    offers: Seq<(nat, Instant)>,
)
    requires
        reads_from(state.lines, file, state.delimiter, state.max_line_bytes as nat),
        state.delimiter.len() > 0,
        state.findable || offers_hold_bytes(state, discarded, file, offers),
    ensures
        ({
            let after = watcher_after(state, discarded, file, offers);
            let max_size = state.max_line_bytes as nat;
            discarded + still_to_report(state.lines, file, state.delimiter, max_size)
                == reports_read(state, discarded, file, offers) + noted_after(
                state,
                discarded,
                file,
                offers,
            ) + still_to_report(after.lines, file, state.delimiter, max_size)
        }),
    decreases offers.len(),
{
    let delimiter = state.delimiter;
    let max_size = state.max_line_bytes as nat;
    let to_come = still_to_report(state.lines, file, delimiter, max_size);
    if offers.len() == 0 {
        assert(discarded + to_come =~= Seq::<Seq<u8>>::empty() + discarded + to_come);
    } else {
        let chunk = chunk_of(file, state.lines.position, offers.first().0);
        assert(chunk =~= file.subrange(
            state.lines.position,
            state.lines.position + chunk.len(),
        ));
        let step = read_of(state, discarded, file, offers.first());
        let later = offers.drop_first();
        law_lines_are_those_of_the_file(state.lines, file, chunk, delimiter, max_size);
        law_every_overlong_line_is_reported_once(state.lines, file, chunk, delimiter, max_size);
        law_reads_report_every_overlong_line(step.watcher, step.discarded, file, later);
        let after = watcher_after(state, discarded, file, offers);
        assert(discarded + to_come =~= reports_read(state, discarded, file, offers) + noted_after(
            state,
            discarded,
            file,
            offers,
        ) + still_to_report(after.lines, file, delimiter, max_size));
    }
}

/// What came of reading a line says the line and the beginnings that it holds.
pub proof fn law_results_say_what_they_hold(result: RawLineResult)
    ensures
        result.raw_line is Some <==> result@.raw_line is Some,
        result.raw_line matches Some(line) ==> result@.raw_line == Some(line@),
        result@.discarded.len() == result.discarded_for_size_and_truncated@.len(),
        forall|i: int|
            0 <= i < result@.discarded.len() ==> #[trigger] result@.discarded[i]
                == buffer_contents(result.discarded_for_size_and_truncated@[i]),
{
}

/// A report on a file says what it holds.
pub proof fn law_reports_say_what_they_hold(info: FileUnwatchInfo)
    ensures
        info@.path == path_contents(info.path),
        info@.bytes_dropped == info.bytes_dropped,
        info@.reached_eof == info.reached_eof,
{
}

/// What to do after a read says what it holds.
pub proof fn law_actions_say_what_they_hold(action: ReadAction)
    ensures
        match action {
            ReadAction::Continue { used } => action@ == (ReadActionView::Continue {
                used: used as int,
            }),
            ReadAction::Finish { used, result } => action@ == (ReadActionView::Finish {
                used: used as int,
                result: result@,
            }),
            ReadAction::Fail(failure) => action@ == ReadActionView::Fail(failure),
            ReadAction::OutOfRoom => action@ is OutOfRoom,
        },
{
}

/// What came of asking for bytes says the bytes or the failure that it holds.
pub proof fn law_events_say_what_they_hold(event: ReadEvent)
    ensures
        match event {
            ReadEvent::Available(bytes) => event@ == ReadEventView::Available(bytes@),
            ReadEvent::Failed(failure) => event@ == ReadEventView::Failed(failure),
        },
{
}

} // verus!
