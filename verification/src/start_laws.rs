//! What holds of the beginning of a watch: from where a file is read, how its
//! age is judged, and from which instant it counts as seen.
use crate::clock::{age_at, instant_minus, start_of_watch, system_time_between};
use crate::file_watcher::WatcherState;
use crate::line_buffer::FilePosition;
use crate::start::{first_plan, has_gzip_magic, replacement_plan, OpenedFile, ReadFrom, ReaderPlan};
use crate::utc::{
    epoch_distance, is_expressible, older_than_limit, unix_nanos, unix_seconds, UtcTime,
};
use std::time::{Duration, Instant, SystemTime};
use vstd::prelude::*;

verus! {

/// A file is taken for compressed exactly if its first two bytes are those of
/// the gzip format, whatever follows them.
pub proof fn law_compression_shows_in_two_bytes(header: Seq<u8>)
    ensures
        has_gzip_magic(header) <==> header.len() >= 2 && header[0] == 0x1f && header[1] == 0x8b,
{
    if header.len() >= 2 && header[0] == 0x1f && header[1] == 0x8b {
        assert(header.subrange(0, 2) =~= seq![0x1fu8, 0x8bu8]);
        assert(crate::start::GZIP_MAGIC@ =~= seq![0x1fu8, 0x8bu8]);
    }
    if has_gzip_magic(header) {
        assert(header[0] == crate::start::GZIP_MAGIC@[0]);
        assert(header[1] == crate::start::GZIP_MAGIC@[1]);
    }
}

/// A file that is not compressed is always read from where a seek goes: to its
/// end if it is too old or if that is asked for, else to its beginning or to the
/// checkpoint, as it is asked for.
pub proof fn law_plain_files_are_sought(too_old: bool, read_from: ReadFrom)
    ensures
        ({
            let plan = first_plan(false, too_old, read_from);
            &&& plan is SeekToEnd <==> too_old || read_from is End
            &&& plan is SeekToEnd || plan is SeekTo
            &&& plan matches ReaderPlan::SeekTo(target) ==> {
                &&& read_from is Beginning ==> target == 0
                &&& read_from matches ReadFrom::Checkpoint(position) ==> target == position
            }
        }),
{
}

/// A compressed file is decompressed exactly if it is asked for from its
/// beginning and is not too old. Otherwise nothing of it is read, and only a
/// checkpoint of one that is not too old is kept as its position.
pub proof fn law_compressed_files_are_read_whole_or_not(too_old: bool, read_from: ReadFrom)
    ensures
        ({
            let plan = first_plan(true, too_old, read_from);
            &&& plan is Decompress <==> read_from is Beginning && !too_old
            &&& plan is Decompress || plan is Nothing
            &&& plan matches ReaderPlan::Nothing(position) ==> match read_from {
                ReadFrom::Checkpoint(checkpoint) => position == if too_old {
                    0
                } else {
                    checkpoint
                },
                _ => position == 0,
            }
        }),
{
}

/// A file that takes the place of another one is sought at the position reached
/// there, exactly if it is not compressed. One that is compressed is decompressed
/// exactly if nothing has been read yet.
pub proof fn law_replacements_go_on_where_reading_stopped(gzipped: bool, position: FilePosition)
    ensures
        ({
            let plan = replacement_plan(gzipped, position);
            &&& plan is SeekTo <==> !gzipped
            &&& plan is Decompress <==> gzipped && position == 0
            &&& plan is Nothing <==> gzipped && position != 0
            &&& plan matches ReaderPlan::SeekTo(target) ==> target == position
            &&& plan matches ReaderPlan::Nothing(kept) ==> kept == position
        }),
{
}

/// A plan that asks for a seek starts where the seek went, and one that asks for
/// none where it says itself.
pub proof fn law_reading_starts_where_the_seek_went(plan: ReaderPlan, sought: FilePosition)
    ensures
        plan is SeekTo || plan is SeekToEnd ==> plan.start(sought) == sought,
        plan is Decompress ==> plan.start(sought) == 0,
        plan matches ReaderPlan::Nothing(position) ==> plan.start(sought) == position,
{
}

/// The watch of a file that is not compressed begins at the position that the
/// seek reported, whatever was asked for and however old the file is: no line
/// has been begun before it, and all bytes that the file had count.
pub proof fn law_watches_begin_where_the_seek_went(
    path: Seq<u8>,
    read_from: ReadFrom,
    too_old: bool,
    sought: FilePosition,
    max_line_bytes: usize,
    delimiter: Seq<u8>,
    opened: OpenedFile,
    seen: Instant,
)
    requires
        !opened.gzipped,
    ensures
        ({
            let state = WatcherState::watching(
                path,
                read_from,
                too_old,
                sought,
                max_line_bytes,
                delimiter,
                opened,
                seen,
            );
            &&& state.lines.position == sought
            &&& state.lines.line_start == sought
            &&& state.initial_file_size == opened.size
            &&& !state.compressed
            &&& state.position_reached <==> too_old || read_from is End || sought <= opened.size
            &&& state.bytes_dropped() == if sought < opened.size {
                opened.size - sought
            } else {
                0
            }
        }),
{
}

/// The watch of a compressed file begins at its first byte, or at the checkpoint
/// if there is one and the file is not too old; no seek matters. All its bytes
/// count, unless it is asked for from its end.
pub proof fn law_watches_of_compressed_files_begin_without_a_seek(
    path: Seq<u8>,
    read_from: ReadFrom,
    too_old: bool,
    sought: FilePosition,
    max_line_bytes: usize,
    delimiter: Seq<u8>,
    opened: OpenedFile,
    seen: Instant,
)
    requires
        opened.gzipped,
    ensures
        ({
            let state = WatcherState::watching(
                path,
                read_from,
                too_old,
                sought,
                max_line_bytes,
                delimiter,
                opened,
                seen,
            );
            &&& state.lines.line_start == state.lines.position
            &&& read_from is Checkpoint && !too_old ==> state.lines.position == read_from->0
            &&& !(read_from is Checkpoint) || too_old ==> state.lines.position == 0
            &&& read_from is End ==> state.initial_file_size == 0
            &&& !(read_from is End) ==> state.initial_file_size == opened.size
            &&& state.compressed
            &&& state.position_reached <==> state.lines.position <= opened.size
        }),
{
}

/// However a watch begins: the file can be found and is to be watched, its end
/// has not been reached, nothing of a line is there, and the file counts as seen,
/// asked for and read at the instant given. What identifies the file and what
/// cuts it into lines is what was given.
pub proof fn law_watches_begin_afresh(
    path: Seq<u8>,
    read_from: ReadFrom,
    too_old: bool,
    sought: FilePosition,
    max_line_bytes: usize,
    delimiter: Seq<u8>,
    opened: OpenedFile,
    seen: Instant,
)
    ensures
        ({
            let state = WatcherState::watching(
                path,
                read_from,
                too_old,
                sought,
                max_line_bytes,
                delimiter,
                opened,
                seen,
            );
            &&& state.path == path
            &&& state.findable
            &&& !state.dead
            &&& !state.reached_eof
            &&& !state.lines.discarding
            &&& state.lines.buffered.len() == 0
            &&& state.devno == opened.devno
            &&& state.inode == opened.inode
            &&& state.last_seen == seen
            &&& state.last_read_attempt == seen
            &&& state.last_read_success == seen
            &&& state.max_line_bytes == max_line_bytes
            &&& state.delimiter == delimiter
        }),
{
}

/// A file is too old exactly if it was last modified before the limit. One whose
/// modification is not known, or for which there is no limit, never is.
pub proof fn law_age_is_judged_by_the_modification(
    opened: OpenedFile,
    modified: UtcTime,
    limit: UtcTime,
    ignore_before: Option<UtcTime>,
)
    ensures
        opened.modified == Some(modified) && ignore_before == Some(limit) ==> (opened.too_old(
            ignore_before,
        ) <==> modified.seconds < limit.seconds || (modified.seconds == limit.seconds
            && modified.nanos < limit.nanos)),
        opened.modified is None ==> !opened.too_old(ignore_before),
        ignore_before is None ==> !opened.too_old(ignore_before),
        opened.too_old(ignore_before) == older_than_limit(opened.modified, ignore_before),
{
}

/// A later limit ignores no fewer files.
pub proof fn law_later_limits_ignore_more(
    modified: Option<UtcTime>,
    limit: UtcTime,
    later: UtcTime,
)
    requires
        limit.precedes(later),
        older_than_limit(modified, Some(limit)),
    ensures
        older_than_limit(modified, Some(later)),
{
}

/// Of any two points in time, either one precedes the other or they are the
/// same, and not both.
pub proof fn law_times_are_ordered(first: UtcTime, second: UtcTime, third: UtcTime)
    ensures
        first.precedes(second) || second.precedes(first) || first == second,
        !(first.precedes(second) && second.precedes(first)),
        !first.precedes(first),
        first.precedes(second) && second.precedes(third) ==> first.precedes(third),
{
}

/// Outside leap seconds, one point in time precedes another exactly if fewer
/// nanoseconds lie between the epoch and it.
pub proof fn law_times_are_ordered_by_their_nanoseconds(first: UtcTime, second: UtcTime)
    requires
        first.nanos < 1_000_000_000,
        second.nanos < 1_000_000_000,
    ensures
        first.precedes(second) <==> first.seconds * 1_000_000_000 + first.nanos < second.seconds
            * 1_000_000_000 + second.nanos,
{
}

/// The second and the nanoseconds of a system time make up its distance from the
/// epoch, and the nanoseconds count forward from the second and do not make up
/// another one.
pub proof fn law_seconds_and_nanoseconds_make_up_the_time(time: SystemTime)
    requires
        epoch_distance(time).2 < 1_000_000_000,
    ensures
        ({
            let (after, seconds, nanos) = epoch_distance(time);
            let distance = seconds * 1_000_000_000 + nanos;
            &&& 0 <= unix_nanos(time) < 1_000_000_000
            &&& unix_seconds(time) * 1_000_000_000 + unix_nanos(time) == if after {
                distance
            } else {
                -distance
            }
        }),
{
}

/// A system time can be expressed exactly if its second lies between the start
/// of the year -262143 and the end of the year 262142.
pub proof fn law_expressible_times_lie_between_two_years(time: SystemTime)
    ensures
        is_expressible(time) <==> -8_334_601_228_800 <= unix_seconds(time) <= 8_210_266_876_799,
{
}

/// A file counts as seen and read as long ago as it was modified, by the system
/// clock, if that can be told on the monotonic clock; whatever the fallback.
pub proof fn law_watches_count_from_the_modification(
    modified: SystemTime,
    wall: SystemTime,
    now: Instant,
    fallback: Instant,
    age: Duration,
    start: Instant,
)
    requires
        system_time_between(wall, modified) == Some(age),
        instant_minus(now, age) == Some(start),
    ensures
        start_of_watch(now, age_at(wall, Some(modified)), fallback) == start,
{
}

/// Where the modification is not known, lies ahead, or lies too far back for the
/// monotonic clock, a file counts as seen and read at the fallback.
pub proof fn law_watches_count_from_the_fallback_otherwise(
    modified: Option<SystemTime>,
    wall: SystemTime,
    now: Instant,
    fallback: Instant,
)
    requires
        modified matches Some(time) ==> (system_time_between(wall, time) matches Some(age)
            ==> instant_minus(now, age) is None),
    ensures
        start_of_watch(now, age_at(wall, modified), fallback) == fallback,
{
}

} // verus!
