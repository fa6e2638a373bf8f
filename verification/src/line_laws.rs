//! What holds of the lines that are cut from a file.
//!
//! These laws speak of the contents of the file as a whole, however it is cut
//! into chunks on the way.
use crate::byte_buffers::bytes_contents;
use crate::delimiter::{
    delimiter_at, first_delimiter, first_delimiter_at, is_free_of, lemma_delimiter_in_front,
    lemma_first_delimiter, lemma_first_delimiter_exists,
};
use crate::line_buffer::{
    delimiter_tail, discarded_prefix, ChunkOutcomeView, LineState, RawLine, RawLineView,
};
use vstd::prelude::*;

verus! {

/// Where the line that begins at `start` ends: at the first delimiter from
/// there on.
pub open spec fn line_end(file: Seq<u8>, start: int, delimiter: Seq<u8>) -> Option<int> {
    match first_delimiter(file.skip(start), delimiter) {
        Some(len) => Some(start + len),
        None => None,
    }
}

/// Whether the line that begins at `start`, as far as the file shows it, is
/// longer than `max_size`: no delimiter stands within that many bytes.
pub open spec fn line_is_longer_than(
    file: Seq<u8>,
    start: int,
    delimiter: Seq<u8>,
    max_size: nat,
) -> bool {
    &&& start + max_size < file.len()
    &&& forall|i: int|
        0 <= i <= max_size ==> !#[trigger] delimiter_at(file.skip(start), delimiter, i)
}

/// Whether a buffer has been handed the bytes of `file` up to its position: it
/// keeps of the current line what the file holds there.
pub open spec fn reads_from(
    state: LineState,
    file: Seq<u8>,
    delimiter: Seq<u8>,
    max_size: nat,
) -> bool {
    let seen = file.subrange(state.line_start, state.position);
    &&& state.inv(delimiter, max_size)
    &&& state.line_start <= state.position <= file.len()
    &&& delimiter.len() > 0 ==> is_free_of(seen, delimiter)
    &&& state.buffered == if state.discarding {
        delimiter_tail(seen, delimiter)
    } else {
        seen
    }
}

/// A delimiter at the front of a text is the first one, whatever follows.
proof fn lemma_first_delimiter_in_front(
    front: Seq<u8>,
    back: Seq<u8>,
    delimiter: Seq<u8>,
    i: int,
)
    requires
        first_delimiter_at(front, delimiter, i),
    ensures
        first_delimiter(front + back, delimiter) == Some(i),
{
    assert forall|j: int| 0 <= j <= i implies #[trigger] delimiter_at(
        front + back,
        delimiter,
        j,
    ) == delimiter_at(front, delimiter, j) by {
        lemma_delimiter_in_front(front, back, delimiter, j);
    }
    lemma_first_delimiter(front + back, delimiter, i);
}

/// Nothing is lost of a delimiter if, of a text without one, only the end is
/// looked at that may hold the beginning of a delimiter.
proof fn lemma_tail_suffices(seen: Seq<u8>, chunk: Seq<u8>, delimiter: Seq<u8>, i: int)
    requires
        delimiter.len() > 0,
        is_free_of(seen, delimiter),
    ensures
        ({
            let tail = delimiter_tail(seen, delimiter);
            let cut = seen.len() - tail.len();
            delimiter_at(seen + chunk, delimiter, i) == (cut <= i && delimiter_at(
                tail + chunk,
                delimiter,
                i - cut,
            ))
        }),
{
    let tail = delimiter_tail(seen, delimiter);
    let cut = seen.len() - tail.len();
    if 0 <= i < cut {
        lemma_delimiter_in_front(seen, chunk, delimiter, i);
    } else if 0 <= i && i + delimiter.len() <= seen.len() + chunk.len() {
        assert((seen + chunk).subrange(i, i + delimiter.len()) =~= (tail + chunk).subrange(
            i - cut,
            i - cut + delimiter.len(),
        ));
    }
}

/// Where the line ends that a buffer is reading is decided by what it keeps of
/// the line and the next chunk.
proof fn lemma_window(
    state: LineState,
    file: Seq<u8>,
    chunk: Seq<u8>,
    delimiter: Seq<u8>,
    max_size: nat,
)
    requires
        reads_from(state, file, delimiter, max_size),
        state.position + chunk.len() <= file.len(),
        chunk == file.subrange(state.position, state.position + chunk.len()),
    ensures
        ({
            let window = file.subrange(state.line_start, state.position + chunk.len());
            let text = state.buffered + chunk;
            let cut = window.len() - text.len();
            &&& cut >= 0
            &&& !state.discarding ==> cut == 0 && text == window
            &&& match first_delimiter(text, delimiter) {
                Some(i) => {
                    &&& first_delimiter_at(text, delimiter, i)
                    &&& first_delimiter_at(window, delimiter, cut + i)
                    &&& line_end(file, state.line_start, delimiter) == Some(
                        state.line_start + cut + i,
                    )
                },
                None => is_free_of(window, delimiter),
            }
        }),
{
    let seen = file.subrange(state.line_start, state.position);
    let window = file.subrange(state.line_start, state.position + chunk.len());
    let text = state.buffered + chunk;
    let cut = window.len() - text.len();
    assert(window =~= seen + chunk);
    if state.discarding {
        assert forall|i: int| #[trigger] delimiter_at(window, delimiter, i) == (cut <= i
            && delimiter_at(text, delimiter, i - cut)) by {
            lemma_tail_suffices(seen, chunk, delimiter, i);
        }
    }
    match first_delimiter(text, delimiter) {
        Some(i) => {
            assert(first_delimiter_at(text, delimiter, i));
            if state.discarding {
                assert(delimiter_at(window, delimiter, cut + i) == delimiter_at(
                    text,
                    delimiter,
                    cut + i - cut,
                ));
                assert forall|j: int| 0 <= j < cut + i implies !#[trigger] delimiter_at(
                    window,
                    delimiter,
                    j,
                ) by {
                    if cut <= j {
                        assert(!delimiter_at(text, delimiter, j - cut));
                    }
                }
            }
            assert(first_delimiter_at(window, delimiter, cut + i));
            let rest = file.skip(state.position + chunk.len());
            assert(file.skip(state.line_start) =~= window + rest);
            lemma_first_delimiter_in_front(window, rest, delimiter, cut + i);
        },
        None => {
            assert forall|i: int| !#[trigger] delimiter_at(window, delimiter, i) by {
                if delimiter_at(window, delimiter, i) {
                    lemma_first_delimiter_exists(text, delimiter, i - cut);
                }
            }
        },
    }
}

/// Taking in a chunk keeps what holds between two chunks.
pub proof fn law_invariant_is_kept(
    state: LineState,
    chunk: Seq<u8>,
    delimiter: Seq<u8>,
    max_size: nat,
)
    requires
        state.inv(delimiter, max_size),
    ensures
        state.take_chunk(chunk, delimiter, max_size).state.inv(delimiter, max_size),
        0 <= state.take_chunk(chunk, delimiter, max_size).used <= chunk.len(),
{
    let text = state.buffered + chunk;
    match first_delimiter(text, delimiter) {
        Some(i) => {
            assert(first_delimiter_at(text, delimiter, i));
            if delimiter.len() > 0 && i + delimiter.len() <= state.buffered.len() {
                lemma_delimiter_in_front(state.buffered, chunk, delimiter, i);
            }
        },
        None => {
            assert forall|i: int| !#[trigger] delimiter_at(text, delimiter, i) by {
                if delimiter_at(text, delimiter, i) {
                    lemma_first_delimiter_exists(text, delimiter, i);
                }
            }
            if delimiter.len() == 0 {
                assert(delimiter_at(text, delimiter, 0));
            }
        },
    }
}

/// However a file is cut into chunks, a buffer that has been handed its bytes so
/// far has been handed them still after the next chunk, and
///
/// - a new line begins just past the delimiter that ends the old one,
/// - a line is delivered as soon as its delimiter has been seen, exactly if it is
///   no longer than allowed, and
/// - what is delivered is what the file holds from the offset of the line up to
///   its delimiter.
pub proof fn law_lines_are_those_of_the_file(
    state: LineState,
    file: Seq<u8>,
    chunk: Seq<u8>,
    delimiter: Seq<u8>,
    max_size: nat,
)
    requires
        reads_from(state, file, delimiter, max_size),
        state.position + chunk.len() <= file.len(),
        chunk == file.subrange(state.position, state.position + chunk.len()),
    ensures
        ({
            let step = state.take_chunk(chunk, delimiter, max_size);
            let start = state.line_start;
            let seen = state.position + chunk.len();
            let end = line_end(file, start, delimiter);
            &&& reads_from(step.state, file, delimiter, max_size)
            &&& step.state.line_start == (match end {
                Some(end) if end + delimiter.len() <= seen => end + delimiter.len(),
                _ => start,
            })
            &&& step.outcome is Line <==> (end matches Some(end) && end + delimiter.len() <= seen
                && end - start <= max_size)
            &&& step.outcome matches ChunkOutcomeView::Line(line) ==> {
                &&& line.offset == start
                &&& end == Some(start + line.bytes.len())
                &&& line.bytes == file.subrange(start, start + line.bytes.len())
            }
        }),
{
    let step = state.take_chunk(chunk, delimiter, max_size);
    let start = state.line_start;
    let window = file.subrange(start, state.position + chunk.len());
    let text = state.buffered + chunk;
    let cut = window.len() - text.len();
    lemma_window(state, file, chunk, delimiter, max_size);
    law_invariant_is_kept(state, chunk, delimiter, max_size);
    match first_delimiter(text, delimiter) {
        Some(i) => {
            assert(file.subrange(step.state.position, step.state.position) =~= Seq::<u8>::empty());
            assert(text.take(i) =~= window.subrange(cut, cut + i));
            if !state.discarding {
                assert(text.take(i) =~= file.subrange(start, start + i));
            }
        },
        None => {
            let rest = file.skip(state.position + chunk.len());
            assert(file.skip(start) =~= window + rest);
            if let Some(end) = line_end(file, start, delimiter) {
                let len = end - start;
                assert(first_delimiter_at(file.skip(start), delimiter, len));
                if len + delimiter.len() <= window.len() {
                    lemma_delimiter_in_front(window, rest, delimiter, len);
                }
            }
            assert(delimiter_tail(text, delimiter) =~= delimiter_tail(window, delimiter));
        },
    }
}

/// A line of which the beginning is reported as discarded is longer than
/// allowed, what is reported is its beginning, and it is reported only once.
pub proof fn law_discarded_lines_are_too_long(
    state: LineState,
    file: Seq<u8>,
    chunk: Seq<u8>,
    delimiter: Seq<u8>,
    max_size: nat,
)
    requires
        reads_from(state, file, delimiter, max_size),
        state.position + chunk.len() <= file.len(),
        chunk == file.subrange(state.position, state.position + chunk.len()),
    ensures
        ({
            let step = state.take_chunk(chunk, delimiter, max_size);
            let start = state.line_start;
            &&& step.discarded matches Some(prefix) ==> {
                &&& !state.discarding
                &&& line_is_longer_than(file, start, delimiter, max_size)
                &&& prefix == discarded_prefix(file.skip(start), max_size)
                &&& step.state.discarding || step.state.line_start > start
            }
            &&& step.state.discarding && step.state.line_start == start ==> state.discarding
                || step.discarded is Some
        }),
{
    let step = state.take_chunk(chunk, delimiter, max_size);
    let start = state.line_start;
    let window = file.subrange(start, state.position + chunk.len());
    let rest = file.skip(state.position + chunk.len());
    lemma_window(state, file, chunk, delimiter, max_size);
    law_invariant_is_kept(state, chunk, delimiter, max_size);
    assert(file.skip(start) =~= window + rest);
    if step.discarded is Some {
        assert forall|i: int| 0 <= i <= max_size implies !#[trigger] delimiter_at(
            file.skip(start),
            delimiter,
            i,
        ) by {
            if i + delimiter.len() <= window.len() {
                lemma_delimiter_in_front(window, rest, delimiter, i);
            }
        }
        assert(step.discarded->0 =~= discarded_prefix(file.skip(start), max_size));
    }
}

/// Where no bytes are there, nothing changes.
pub proof fn law_no_bytes_change_nothing(
    state: LineState,
    empty: Seq<u8>,
    delimiter: Seq<u8>,
    max_size: nat,
)
    requires
        state.inv(delimiter, max_size),
        delimiter.len() > 0,
        empty.len() == 0,
    ensures
        ({
            let step = state.take_chunk(empty, delimiter, max_size);
            &&& step.state == state
            &&& step.used == 0
            &&& step.outcome is EndOfInput
            &&& step.discarded is None
        }),
{
    assert(state.buffered + empty =~= state.buffered);
    assert(delimiter_tail(state.buffered, delimiter) == state.buffered || !state.discarding);
}

/// What is appended to a file does not change what has been read of it.
pub proof fn law_growth_disturbs_nothing(
    state: LineState,
    file: Seq<u8>,
    appended: Seq<u8>,
    delimiter: Seq<u8>,
    max_size: nat,
)
    requires
        reads_from(state, file, delimiter, max_size),
    ensures
        reads_from(state, file + appended, delimiter, max_size),
{
    assert((file + appended).subrange(state.line_start, state.position) =~= file.subrange(
        state.line_start,
        state.position,
    ));
}

/// A buffer that starts at a position within the file has been handed its bytes
/// so far.
pub proof fn law_reading_can_start_anywhere(
    position: int,
    file: Seq<u8>,
    delimiter: Seq<u8>,
    max_size: nat,
)
    requires
        0 <= position <= file.len(),
    ensures
        reads_from(LineState::starting_at(position), file, delimiter, max_size),
{
    assert(file.subrange(position, position) =~= Seq::<u8>::empty());
}

/// Two buffers that read the same line of the same file, in whatever chunks,
/// deliver the same.
pub proof fn law_lines_do_not_depend_on_chunks(
    state1: LineState,
    chunk1: Seq<u8>,
    state2: LineState,
    chunk2: Seq<u8>,
    file: Seq<u8>,
    delimiter: Seq<u8>,
    max_size: nat,
)
    requires
        reads_from(state1, file, delimiter, max_size),
        reads_from(state2, file, delimiter, max_size),
        state1.line_start == state2.line_start,
        state1.position + chunk1.len() <= file.len(),
        state2.position + chunk2.len() <= file.len(),
        chunk1 == file.subrange(state1.position, state1.position + chunk1.len()),
        chunk2 == file.subrange(state2.position, state2.position + chunk2.len()),
        state1.take_chunk(chunk1, delimiter, max_size).outcome is Line,
        state2.take_chunk(chunk2, delimiter, max_size).outcome is Line,
    ensures
        state1.take_chunk(chunk1, delimiter, max_size).outcome == state2.take_chunk(
            chunk2,
            delimiter,
            max_size,
        ).outcome,
{
    law_lines_are_those_of_the_file(state1, file, chunk1, delimiter, max_size);
    law_lines_are_those_of_the_file(state2, file, chunk2, delimiter, max_size);
}

/// The lines of a file from `start` on that are no longer than allowed. What
/// follows the last delimiter is no line yet.
pub open spec fn lines_from(
    file: Seq<u8>,
    start: int,
    delimiter: Seq<u8>,
    max_size: nat,
) -> Seq<RawLineView>
    decreases file.len() - start,
{
    match line_end(file, start, delimiter) {
        Some(end) if delimiter.len() > 0 && 0 <= start <= end < file.len() => {
            let rest = lines_from(file, end + delimiter.len(), delimiter, max_size);
            if end - start <= max_size {
                seq![RawLineView { offset: start, bytes: file.subrange(start, end) }] + rest
            } else {
                rest
            }
        },
        _ => Seq::empty(),
    }
}

/// The bytes of a file from `position` on, at most `size` of them.
pub open spec fn chunk_of(file: Seq<u8>, position: int, size: nat) -> Seq<u8> {
    if position + size <= file.len() {
        file.subrange(position, position + size)
    } else {
        file.skip(position)
    }
}

/// The state of a buffer after it has been offered a chunk of each of the given
/// sizes, each from where the last one was consumed up to.
pub open spec fn state_after(
    state: LineState,
    file: Seq<u8>,
    sizes: Seq<nat>,
    delimiter: Seq<u8>,
    max_size: nat,
) -> LineState
    decreases sizes.len(),
{
    if sizes.len() == 0 {
        state
    } else {
        let chunk = chunk_of(file, state.position, sizes.first());
        let step = state.take_chunk(chunk, delimiter, max_size);
        state_after(step.state, file, sizes.drop_first(), delimiter, max_size)
    }
}

/// The lines that a buffer delivers on the way.
pub open spec fn lines_delivered(
    state: LineState,
    file: Seq<u8>,
    sizes: Seq<nat>,
    delimiter: Seq<u8>,
    max_size: nat,
) -> Seq<RawLineView>
    decreases sizes.len(),
{
    if sizes.len() == 0 {
        Seq::empty()
    } else {
        let chunk = chunk_of(file, state.position, sizes.first());
        let step = state.take_chunk(chunk, delimiter, max_size);
        let later = lines_delivered(step.state, file, sizes.drop_first(), delimiter, max_size);
        match step.outcome {
            ChunkOutcomeView::Line(line) => seq![line] + later,
            _ => later,
        }
    }
}

/// However a file is cut into chunks, the lines delivered are the lines of the
/// file, in order, without gaps or repetitions: those delivered and those still
/// to come make up the lines that were to come at first.
pub proof fn law_no_line_is_lost(
    state: LineState,
    file: Seq<u8>,
    sizes: Seq<nat>,
    delimiter: Seq<u8>,
    max_size: nat,
)
    requires
        reads_from(state, file, delimiter, max_size),
        delimiter.len() > 0,
    ensures
        ({
            let after = state_after(state, file, sizes, delimiter, max_size);
            &&& reads_from(after, file, delimiter, max_size)
            &&& lines_from(file, state.line_start, delimiter, max_size) == lines_delivered(
                state,
                file,
                sizes,
                delimiter,
                max_size,
            ) + lines_from(file, after.line_start, delimiter, max_size)
        }),
    decreases sizes.len(),
{
    let start = state.line_start;
    let all = lines_from(file, start, delimiter, max_size);
    if sizes.len() == 0 {
        assert(all =~= Seq::<RawLineView>::empty() + all);
    } else {
        let chunk = chunk_of(file, state.position, sizes.first());
        assert(chunk =~= file.subrange(state.position, state.position + chunk.len()));
        let step = state.take_chunk(chunk, delimiter, max_size);
        law_lines_are_those_of_the_file(state, file, chunk, delimiter, max_size);
        law_no_line_is_lost(step.state, file, sizes.drop_first(), delimiter, max_size);
        let after = state_after(state, file, sizes, delimiter, max_size);
        assert(all =~= lines_delivered(state, file, sizes, delimiter, max_size) + lines_from(
            file,
            after.line_start,
            delimiter,
            max_size,
        ));
    }
}

/// Once all bytes of a file have been consumed, all its lines have been
/// delivered.
pub proof fn law_all_lines_are_delivered(
    state: LineState,
    file: Seq<u8>,
    sizes: Seq<nat>,
    delimiter: Seq<u8>,
    max_size: nat,
)
    requires
        reads_from(state, file, delimiter, max_size),
        delimiter.len() > 0,
        state_after(state, file, sizes, delimiter, max_size).position == file.len(),
    ensures
        lines_delivered(state, file, sizes, delimiter, max_size) == lines_from(
            file,
            state.line_start,
            delimiter,
            max_size,
        ),
{
    law_no_line_is_lost(state, file, sizes, delimiter, max_size);
    let after = state_after(state, file, sizes, delimiter, max_size);
    assert(file.skip(after.line_start) =~= file.subrange(after.line_start, after.position));
    let delivered = lines_delivered(state, file, sizes, delimiter, max_size);
    assert(lines_from(file, after.line_start, delimiter, max_size) =~= Seq::<RawLineView>::empty())
        by {
        if line_end(file, after.line_start, delimiter) is Some {
            let i = first_delimiter(file.skip(after.line_start), delimiter)->0;
            assert(delimiter_at(file.skip(after.line_start), delimiter, i));
        }
    }
    assert(delivered + Seq::<RawLineView>::empty() =~= delivered);
}

/// A delimiter stands in a text exactly where all of its bytes stand, one after
/// the other.
pub proof fn law_delimiters_stand_where_their_bytes_do(
    text: Seq<u8>,
    delimiter: Seq<u8>,
    i: int,
)
    ensures
        delimiter_at(text, delimiter, i) <==> {
            &&& 0 <= i
            &&& i + delimiter.len() <= text.len()
            &&& forall|j: int| 0 <= j < delimiter.len() ==> #[trigger] delimiter[j] == text[i + j]
        },
{
    if 0 <= i && i + delimiter.len() <= text.len() {
        let part = text.subrange(i, i + delimiter.len());
        if delimiter_at(text, delimiter, i) {
            assert forall|j: int| 0 <= j < delimiter.len() implies #[trigger] delimiter[j] == text[i
                + j] by {
                assert(part[j] == delimiter[j]);
            }
        }
        if forall|j: int| 0 <= j < delimiter.len() ==> #[trigger] delimiter[j] == text[i + j] {
            assert(part =~= delimiter);
        }
    }
}

/// The delimiter that ends a line is the first one: one stands there, and none
/// before. If there is no such one, none stands anywhere.
pub proof fn law_the_first_delimiter_counts(text: Seq<u8>, delimiter: Seq<u8>, j: int)
    ensures
        match first_delimiter(text, delimiter) {
            Some(i) => {
                &&& delimiter_at(text, delimiter, i)
                &&& delimiter_at(text, delimiter, j) ==> i <= j
            },
            None => !delimiter_at(text, delimiter, j),
        },
{
    if delimiter_at(text, delimiter, j) {
        lemma_first_delimiter_exists(text, delimiter, j);
    }
    if let Some(i) = first_delimiter(text, delimiter) {
        assert(first_delimiter_at(text, delimiter, i));
    }
}

/// What is kept of a discarded line is its beginning: as many bytes as a line may
/// have, but no more than a thousand.
pub proof fn law_beginnings_of_discarded_lines(line: Seq<u8>, max_size: nat)
    requires
        max_size < line.len(),
    ensures
        discarded_prefix(line, max_size).len() == if max_size <= 1000 {
            max_size
        } else {
            1000
        },
        discarded_prefix(line, max_size).is_prefix_of(line),
{
    assert(discarded_prefix(line, max_size) =~= line.subrange(
        0,
        discarded_prefix(line, max_size).len() as int,
    ));
}

/// There is room for a chunk exactly as long as the position stays an offset and
/// memory can hold the line with the chunk. Nothing else limits a chunk.
pub proof fn law_only_the_machine_limits_a_chunk(state: LineState, chunk: Seq<u8>)
    ensures
        state.has_room_for(chunk) <==> state.position + chunk.len() <= u64::MAX
            && state.buffered.len() + chunk.len() <= isize::MAX,
{
}

/// Of a chunk that is not empty, something is always consumed, and it is never
/// taken for the end of the file.
pub proof fn law_chunks_are_consumed(
    state: LineState,
    chunk: Seq<u8>,
    delimiter: Seq<u8>,
    max_size: nat,
)
    requires
        state.inv(delimiter, max_size),
        delimiter.len() > 0,
        chunk.len() > 0,
    ensures
        ({
            let step = state.take_chunk(chunk, delimiter, max_size);
            &&& 0 < step.used <= chunk.len()
            &&& step.state.position == state.position + step.used
            &&& !(step.outcome is EndOfInput)
        }),
{
    law_invariant_is_kept(state, chunk, delimiter, max_size);
    let text = state.buffered + chunk;
    if let Some(i) = first_delimiter(text, delimiter) {
        assert(first_delimiter_at(text, delimiter, i));
        if i + delimiter.len() <= state.buffered.len() {
            lemma_delimiter_in_front(state.buffered, chunk, delimiter, i);
        }
    }
}

/// What is kept of a line is never more than a line may have, and what may be
/// the beginning of a delimiter.
pub proof fn law_memory_is_bounded(state: LineState, delimiter: Seq<u8>, max_size: nat)
    requires
        state.inv(delimiter, max_size),
        delimiter.len() > 0,
    ensures
        state.buffered.len() <= max_size + delimiter.len() - 1,
{
}

/// An empty delimiter ends a line at once: every line is empty, nothing is
/// consumed, and nothing changes.
pub proof fn law_empty_delimiters_end_every_line(
    state: LineState,
    chunk: Seq<u8>,
    delimiter: Seq<u8>,
    max_size: nat,
)
    requires
        state.inv(delimiter, max_size),
        delimiter.len() == 0,
    ensures
        ({
            let step = state.take_chunk(chunk, delimiter, max_size);
            &&& step.used == 0
            &&& step.state == state
            &&& step.discarded is None
            &&& step.outcome matches ChunkOutcomeView::Line(line) && line.offset == state.position
                && line.bytes.len() == 0
        }),
{
    let text = state.buffered + chunk;
    assert(first_delimiter_at(text, delimiter, 0));
    lemma_first_delimiter(text, delimiter, 0);
}

/// The beginnings of the lines of a file from `start` on that are longer than
/// allowed, also of one whose end is not there but which is too long already.
pub open spec fn overlong_from(
    file: Seq<u8>,
    start: int,
    delimiter: Seq<u8>,
    max_size: nat,
) -> Seq<Seq<u8>>
    decreases file.len() - start,
{
    let beginning = file.subrange(
        start,
        start + if max_size <= 1000 {
            max_size as int
        } else {
            1000
        },
    );
    match line_end(file, start, delimiter) {
        Some(end) if delimiter.len() > 0 && 0 <= start <= end < file.len() => {
            let rest = overlong_from(file, end + delimiter.len(), delimiter, max_size);
            if end - start > max_size {
                seq![beginning] + rest
            } else {
                rest
            }
        },
        _ => if file.len() - start > max_size + delimiter.len() - 1 {
            seq![beginning]
        } else {
            Seq::empty()
        },
    }
}

/// The beginnings of overlong lines that a buffer has still to report: that of a
/// line that it has given up has been reported.
pub open spec fn still_to_report(
    state: LineState,
    file: Seq<u8>,
    delimiter: Seq<u8>,
    max_size: nat,
) -> Seq<Seq<u8>> {
    let overlong = overlong_from(file, state.line_start, delimiter, max_size);
    if state.discarding {
        overlong.drop_first()
    } else {
        overlong
    }
}

/// However a file is cut into chunks, every line that is too long is reported,
/// once, in order, by its beginning, and no other line is: what a chunk reports
/// is what there is no longer to report.
pub proof fn law_every_overlong_line_is_reported_once(
    state: LineState,
    file: Seq<u8>,
    chunk: Seq<u8>,
    delimiter: Seq<u8>,
    max_size: nat,
)
    requires
        reads_from(state, file, delimiter, max_size),
        delimiter.len() > 0,
        state.position + chunk.len() <= file.len(),
        chunk == file.subrange(state.position, state.position + chunk.len()),
    ensures
        ({
            let step = state.take_chunk(chunk, delimiter, max_size);
            let later = still_to_report(step.state, file, delimiter, max_size);
            still_to_report(state, file, delimiter, max_size) == match step.discarded {
                Some(beginning) => seq![beginning] + later,
                None => later,
            }
        }),
{
    let step = state.take_chunk(chunk, delimiter, max_size);
    let start = state.line_start;
    let window = file.subrange(start, state.position + chunk.len());
    let text = state.buffered + chunk;
    let before = still_to_report(state, file, delimiter, max_size);
    let later = still_to_report(step.state, file, delimiter, max_size);
    let beginning = file.subrange(
        start,
        start + if max_size <= 1000 {
            max_size as int
        } else {
            1000
        },
    );
    lemma_window(state, file, chunk, delimiter, max_size);
    law_invariant_is_kept(state, chunk, delimiter, max_size);
    if step.discarded is Some {
        assert(step.discarded->0 =~= beginning);
    }
    match first_delimiter(text, delimiter) {
        Some(i) => {
            let cut = window.len() - text.len();
            let end = start + cut + i;
            assert(line_end(file, start, delimiter) == Some(end));
            let rest = overlong_from(file, end + delimiter.len(), delimiter, max_size);
            if state.discarding {
                // The delimiter does not end within what has been seen before.
                let seen = file.subrange(start, state.position);
                if cut + i + delimiter.len() <= seen.len() {
                    assert(window =~= seen + chunk);
                    lemma_delimiter_in_front(seen, chunk, delimiter, cut + i);
                }
                assert(end - start > max_size);
                assert((seq![beginning] + rest).drop_first() =~= rest);
            }
            assert(before =~= match step.discarded {
                Some(beginning) => seq![beginning] + later,
                None => later,
            });
        },
        None => {
            if let Some(end) = line_end(file, start, delimiter) {
                let back = file.skip(state.position + chunk.len());
                assert(file.skip(start) =~= window + back);
                let len = end - start;
                assert(first_delimiter_at(file.skip(start), delimiter, len));
                if len + delimiter.len() <= window.len() {
                    lemma_delimiter_in_front(window, back, delimiter, len);
                }
            }
            if step.discarded is Some {
                let overlong = overlong_from(file, start, delimiter, max_size);
                assert(overlong.len() > 0 && overlong[0] == beginning);
                assert(overlong =~= seq![beginning] + overlong.drop_first());
            }
        },
    }
}

/// The lines of a file that is gone, from `start` on: those that end in a
/// delimiter and are no longer than allowed, and then what follows the last
/// delimiter, unless it is too long.
pub open spec fn all_lines_from(
    file: Seq<u8>,
    start: int,
    delimiter: Seq<u8>,
    max_size: nat,
) -> Seq<RawLineView>
    decreases file.len() - start,
{
    match line_end(file, start, delimiter) {
        Some(end) if delimiter.len() > 0 && 0 <= start <= end < file.len() => {
            let rest = all_lines_from(file, end + delimiter.len(), delimiter, max_size);
            if end - start <= max_size {
                seq![RawLineView { offset: start, bytes: file.subrange(start, end) }] + rest
            } else {
                rest
            }
        },
        _ => if 0 < file.len() - start <= max_size + delimiter.len() - 1 {
            seq![
                RawLineView { offset: start, bytes: file.subrange(start, file.len() as int) },
            ]
        } else {
            Seq::empty()
        },
    }
}

/// Where all bytes of a file have been consumed, no line of it ends any more.
pub proof fn law_no_line_ends_past_what_was_read(
    state: LineState,
    file: Seq<u8>,
    delimiter: Seq<u8>,
    max_size: nat,
)
    requires
        reads_from(state, file, delimiter, max_size),
        delimiter.len() > 0,
        state.position == file.len(),
    ensures
        line_end(file, state.line_start, delimiter) is None,
        lines_from(file, state.line_start, delimiter, max_size) == Seq::<RawLineView>::empty(),
        still_to_report(state, file, delimiter, max_size) == Seq::<Seq<u8>>::empty(),
{
    assert(file.skip(state.line_start) =~= file.subrange(state.line_start, state.position));
    if line_end(file, state.line_start, delimiter) is Some {
        let i = first_delimiter(file.skip(state.line_start), delimiter)->0;
        assert(delimiter_at(file.skip(state.line_start), delimiter, i));
    }
    assert(still_to_report(state, file, delimiter, max_size) =~= Seq::<Seq<u8>>::empty());
}

/// Whether a text, with a delimiter behind it, is one line: no delimiter stands
/// in it, nor begins in it and ends in the one behind it.
pub open spec fn is_line(line: Seq<u8>, delimiter: Seq<u8>) -> bool {
    forall|i: int|
        0 <= i < line.len() ==> #[trigger] (line + delimiter).subrange(i, i + delimiter.len())
            != delimiter
}

/// What is in a file to which lines have been written.
pub open spec fn text_of(lines: Seq<Seq<u8>>, delimiter: Seq<u8>) -> Seq<u8>
    decreases lines.len(),
{
    if lines.len() == 0 {
        Seq::empty()
    } else {
        lines[0] + delimiter + text_of(lines.drop_first(), delimiter)
    }
}

/// The lines of a file are those that have been written to it, in order, each at
/// the offset at which it was written, whatever was there before.
pub proof fn law_written_lines_are_the_lines_of_the_file(
    front: Seq<u8>,
    lines: Seq<Seq<u8>>,
    delimiter: Seq<u8>,
    max_size: nat,
)
    requires
        delimiter.len() > 0,
        forall|i: int|
            0 <= i < lines.len() ==> is_line(#[trigger] lines[i], delimiter) && lines[i].len()
                <= max_size,
    ensures
        ({
            let file = front + text_of(lines, delimiter);
            let found = lines_from(file, front.len() as int, delimiter, max_size);
            &&& found.len() == lines.len()
            &&& forall|i: int|
                0 <= i < lines.len() ==> {
                    &&& (#[trigger] found[i]).bytes == lines[i]
                    &&& found[i].offset == front.len() + text_of(lines.take(i), delimiter).len()
                }
        }),
    decreases lines.len(),
{
    let text = text_of(lines, delimiter);
    let file = front + text;
    let start = front.len() as int;
    let found = lines_from(file, start, delimiter, max_size);
    assert(file.skip(start) =~= text);
    if lines.len() == 0 {
        if line_end(file, start, delimiter) is Some {
            let i = first_delimiter(text, delimiter)->0;
            assert(first_delimiter_at(text, delimiter, i));
        }
    } else {
        let line = lines[0];
        let others = lines.drop_first();
        let head = line + delimiter;
        assert(is_line(lines[0], delimiter));
        assert(text =~= head + text_of(others, delimiter));
        assert(head.subrange(line.len() as int, head.len() as int) =~= delimiter);
        assert forall|j: int| 0 <= j < line.len() implies !#[trigger] delimiter_at(
            head,
            delimiter,
            j,
        ) by {
            assert(head.subrange(j, j + delimiter.len()) != delimiter);
        }
        assert(first_delimiter_at(head, delimiter, line.len() as int));
        lemma_first_delimiter_in_front(
            head,
            text_of(others, delimiter),
            delimiter,
            line.len() as int,
        );
        let next = front + head;
        assert(file =~= next + text_of(others, delimiter));
        assert(file.subrange(start, start + line.len()) =~= line);
        assert forall|i: int| 0 <= i < others.len() implies is_line(
            #[trigger] others[i],
            delimiter,
        ) && others[i].len() <= max_size by {
            assert(others[i] == lines[i + 1]);
        }
        law_written_lines_are_the_lines_of_the_file(next, others, delimiter, max_size);
        let rest = lines_from(file, next.len() as int, delimiter, max_size);
        assert(found == seq![RawLineView { offset: start, bytes: line }] + rest);
        assert forall|i: int| 0 <= i < lines.len() implies {
            &&& (#[trigger] found[i]).bytes == lines[i]
            &&& found[i].offset == front.len() + text_of(lines.take(i), delimiter).len()
        } by {
            if i > 0 {
                assert(found[i] == rest[i - 1]);
                assert(lines.take(i).drop_first() =~= others.take(i - 1));
                assert(text_of(lines.take(i), delimiter) == line + delimiter + text_of(
                    others.take(i - 1),
                    delimiter,
                ));
            } else {
                assert(lines.take(0).len() == 0);
            }
        }
    }
}

/// A line that has been read says the offset and the bytes that it holds.
pub proof fn law_lines_say_what_they_hold(line: RawLine)
    ensures
        line@.offset == line.offset,
        line@.bytes == bytes_contents(line.bytes),
{
}

} // verus!
