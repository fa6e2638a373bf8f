//! Cutting a stream of bytes into lines.
//!
//! A [`LineBuffer`] is handed the bytes of a file in chunks of any size. It
//! keeps what it has seen of the current line, knows at which offset of the
//! file that line began, and gives up on a line that grows too long.
use crate::byte_buffers::{
    buffer_as_slice, buffer_contents, buffer_from_slice, bytes_contents,
};
use crate::delimiter::{delimiter_at, find_delimiter, first_delimiter, is_free_of, lemma_delimiter_in_front};
use bytes::{Bytes, BytesMut};
use vstd::prelude::*;
use vstd::slice::slice_subrange;

verus! {

/// An offset into a file, in bytes.
pub type FilePosition = u64;

/// How many bytes at most are kept of a line that is discarded for its size.
pub const DISCARDED_PREFIX_LEN: usize = 1000;

/// A thin wrapper around the bytes of a line that keeps the context of where in
/// the file they have been read from.
#[derive(Debug)]
pub struct RawLine {
    /// The offset of the beginning of the line within the file.
    pub offset: FilePosition,
    /// The bytes of the line, without its delimiter.
    pub bytes: Bytes,
}

/// What a [`RawLine`] says.
pub struct RawLineView {
    pub offset: int,
    pub bytes: Seq<u8>,
}

impl View for RawLine {
    type V = RawLineView;

    open spec fn view(&self) -> RawLineView {
        RawLineView { offset: self.offset as int, bytes: bytes_contents(self.bytes) }
    }
}

/// The state of a [`LineBuffer`].
#[verifier::ext_equal]
pub struct LineState {
    /// The offset of the next byte that is not consumed.
    pub position: int,
    /// The offset at which the current line began.
    pub line_start: int,
    /// Whether the current line has been given up.
    pub discarding: bool,
    /// What is kept of the current line: all of it, or, if it has been given up,
    /// as much of its end as the beginning of a delimiter may be.
    pub buffered: Seq<u8>,
}

/// What became of a chunk.
pub enum ChunkOutcome {
    /// The chunk ended a line.
    Line(RawLine),
    /// The chunk was empty: there are no more bytes for now.
    EndOfInput,
    /// The chunk did not end a line that can be delivered.
    More,
}

/// What a [`ChunkOutcome`] says.
pub enum ChunkOutcomeView {
    Line(RawLineView),
    EndOfInput,
    More,
}

impl View for ChunkOutcome {
    type V = ChunkOutcomeView;

    open spec fn view(&self) -> ChunkOutcomeView {
        match self {
            ChunkOutcome::Line(line) => ChunkOutcomeView::Line(line@),
            ChunkOutcome::EndOfInput => ChunkOutcomeView::EndOfInput,
            ChunkOutcome::More => ChunkOutcomeView::More,
        }
    }
}

/// What taking in a chunk does.
pub struct ChunkStep {
    /// The state afterwards.
    pub state: LineState,
    /// How many bytes of the chunk are consumed.
    pub used: int,
    /// What became of the chunk.
    pub outcome: ChunkOutcomeView,
    /// The beginning of the line that this chunk made too long, if it did.
    pub discarded: Option<Seq<u8>>,
}

/// The beginning of a line that is kept when the line is discarded.
pub open spec fn discarded_prefix(line: Seq<u8>, max_size: nat) -> Seq<u8> {
    line.take(
        if max_size < DISCARDED_PREFIX_LEN {
            max_size as int
        } else {
            DISCARDED_PREFIX_LEN as int
        },
    )
}

/// The last bytes of a text, one fewer than the delimiter has, in which a
/// delimiter may have begun.
pub open spec fn delimiter_tail(text: Seq<u8>, delimiter: Seq<u8>) -> Seq<u8> {
    if text.len() < delimiter.len() {
        text
    } else {
        text.skip(text.len() - (delimiter.len() - 1))
    }
}

impl LineState {
    /// No byte is consumed yet, and the next line begins at `position`.
    pub open spec fn starting_at(position: int) -> LineState {
        LineState {
            position,
            line_start: position,
            discarding: false,
            buffered: Seq::empty(),
        }
    }

    /// What holds between two chunks: nothing kept holds a delimiter; a line
    /// that is not given up is kept in full and may still turn out no longer
    /// than allowed; and of one that is given up, it is certain that it is too
    /// long.
    pub open spec fn inv(self, delimiter: Seq<u8>, max_size: nat) -> bool {
        &&& 0 <= self.line_start
        &&& if delimiter.len() == 0 {
            !self.discarding && self.buffered.len() == 0 && self.line_start == self.position
        } else if self.discarding {
            &&& is_free_of(self.buffered, delimiter)
            &&& self.buffered.len() == delimiter.len() - 1
            &&& self.position - self.line_start > max_size + delimiter.len() - 1
        } else {
            &&& is_free_of(self.buffered, delimiter)
            &&& self.buffered.len() == self.position - self.line_start
            &&& self.buffered.len() <= max_size + delimiter.len() - 1
        }
    }

    /// What is delivered when no more bytes of the current line will come.
    pub open spec fn unfinished_line(self) -> Seq<u8> {
        if self.discarding {
            Seq::empty()
        } else {
            self.buffered
        }
    }

    /// What taking in a chunk does. A line ends at the first delimiter in what is
    /// kept of it and the chunk together. It is delivered if it is no longer
    /// than `max_size`; otherwise it is skipped, and its beginning is reported
    /// as soon as it is certain that it is too long.
    pub open spec fn take_chunk(
        self,
        chunk: Seq<u8>,
        delimiter: Seq<u8>,
        max_size: nat,
    ) -> ChunkStep {
        let text = self.buffered + chunk;
        match first_delimiter(text, delimiter) {
            Some(i) => {
                let used = i + delimiter.len() - self.buffered.len();
                let too_long = !self.discarding && i > max_size;
                ChunkStep {
                    state: LineState::starting_at(self.position + used),
                    used,
                    outcome: if self.discarding || too_long {
                        ChunkOutcomeView::More
                    } else {
                        ChunkOutcomeView::Line(
                            RawLineView { offset: self.line_start, bytes: text.take(i) },
                        )
                    },
                    discarded: if too_long {
                        Some(discarded_prefix(text, max_size))
                    } else {
                        None
                    },
                }
            },
            None => {
                let too_long = !self.discarding && text.len() > max_size + delimiter.len() - 1;
                let discarding = self.discarding || too_long;
                ChunkStep {
                    state: LineState {
                        position: self.position + chunk.len(),
                        line_start: self.line_start,
                        discarding,
                        buffered: if discarding {
                            delimiter_tail(text, delimiter)
                        } else {
                            text
                        },
                    },
                    used: chunk.len() as int,
                    outcome: if chunk.len() == 0 {
                        ChunkOutcomeView::EndOfInput
                    } else {
                        ChunkOutcomeView::More
                    },
                    discarded: if too_long {
                        Some(discarded_prefix(text, max_size))
                    } else {
                        None
                    },
                }
            },
        }
    }

    /// Whether a chunk can be taken in: the position stays an offset, and the
    /// buffer stays of a size that memory can hold.
    pub open spec fn has_room_for(self, chunk: Seq<u8>) -> bool {
        self.position + chunk.len() <= u64::MAX && self.buffered.len() + chunk.len() <= isize::MAX
    }
}

/// What taking in a chunk gave.
pub struct TakenChunk {
    /// How many bytes of the chunk are consumed.
    pub used: usize,
    /// What became of the chunk.
    pub outcome: ChunkOutcome,
    /// The beginning of the line that this chunk made too long, if it did.
    pub discarded: Option<BytesMut>,
}

impl TakenChunk {
    /// Whether this is what a step gives.
    pub open spec fn agrees_with(self, step: ChunkStep) -> bool {
        &&& self.used == step.used
        &&& self.outcome@ == step.outcome
        &&& match self.discarded {
            Some(prefix) => step.discarded == Some(buffer_contents(prefix)),
            None => step.discarded is None,
        }
    }
}

/// Copies the first `len` bytes of the text made of two parts.
fn joined_prefix(front: &[u8], back: &[u8], len: usize) -> (prefix: BytesMut)
    requires
        len <= front@.len() + back@.len() <= isize::MAX,
    ensures
        buffer_contents(prefix) == (front@ + back@).take(len as int),
{
    let prefix = if len <= front.len() {
        buffer_from_slice(slice_subrange(front, 0, len))
    } else {
        let mut joined = buffer_from_slice(front);
        joined.extend_from_slice(slice_subrange(back, 0, len - front.len()));
        joined
    };
    assert(buffer_contents(prefix) =~= (front@ + back@).take(len as int));
    prefix
}

/// The part of a file that has been read: the position reached in it, and what
/// is kept of the current line.
pub struct LineBuffer {
    position: FilePosition,
    line_start: FilePosition,
    discarding: bool,
    buf: BytesMut,
}

impl View for LineBuffer {
    type V = LineState;

    closed spec fn view(&self) -> LineState {
        LineState {
            position: self.position as int,
            line_start: self.line_start as int,
            discarding: self.discarding,
            buffered: buffer_contents(self.buf),
        }
    }
}

impl LineBuffer {
    /// A buffer for the lines from `position` on.
    pub fn new(position: FilePosition) -> (lines: LineBuffer)
        ensures
            lines@ == LineState::starting_at(position as int),
    {
        LineBuffer { position, line_start: position, discarding: false, buf: BytesMut::new() }
    }

    /// The offset of the next byte that is not consumed.
    pub fn position(&self) -> (position: FilePosition)
        ensures
            position == self@.position,
    {
        self.position
    }

    /// Whether a chunk can be taken in.
    pub fn has_room_for(&self, chunk: &[u8]) -> (room: bool)
        ensures
            room == self@.has_room_for(chunk@),
    {
        let len = chunk.len();
        len <= isize::MAX as usize && self.buf.len() <= isize::MAX as usize - len && len as u64
            <= u64::MAX - self.position
    }

    /// Takes in the next bytes of the file.
    pub fn take_chunk(
        &mut self,
        chunk: &[u8],
        delimiter: &[u8],
        max_size: usize,
    ) -> (taken: TakenChunk)
        requires
            old(self)@.inv(delimiter@, max_size as nat),
            old(self)@.has_room_for(chunk@),
        ensures
            final(self)@.inv(delimiter@, max_size as nat),
            final(self)@ == old(self)@.take_chunk(chunk@, delimiter@, max_size as nat).state,
            taken.agrees_with(old(self)@.take_chunk(chunk@, delimiter@, max_size as nat)),
            taken.used <= chunk@.len(),
    {
        let ghost text = buffer_contents(self.buf) + chunk@;
        let kept = self.buf.len();
        let total = kept + chunk.len();
        let prefix_len = if max_size < DISCARDED_PREFIX_LEN {
            max_size
        } else {
            DISCARDED_PREFIX_LEN
        };
        match find_delimiter(buffer_as_slice(&self.buf), chunk, delimiter) {
            Some(i) => {
                proof {
                    if delimiter@.len() > 0 && i + delimiter@.len() <= kept {
                        lemma_delimiter_in_front(
                            buffer_contents(self.buf),
                            chunk@,
                            delimiter@,
                            i as int,
                        );
                    }
                }
                let used = i + delimiter.len() - kept;
                let offset = self.line_start;
                self.position = self.position + used as u64;
                self.line_start = self.position;
                if self.discarding {
                    self.discarding = false;
                    self.buf.clear();
                    TakenChunk { used, outcome: ChunkOutcome::More, discarded: None }
                } else if i > max_size {
                    let prefix = joined_prefix(buffer_as_slice(&self.buf), chunk, prefix_len);
                    self.buf.clear();
                    TakenChunk { used, outcome: ChunkOutcome::More, discarded: Some(prefix) }
                } else {
                    if i <= kept {
                        self.buf.truncate(i);
                    } else {
                        self.buf.extend_from_slice(slice_subrange(chunk, 0, i - kept));
                    }
                    assert(buffer_contents(self.buf) =~= text.take(i as int));
                    let bytes = self.buf.split().freeze();
                    TakenChunk {
                        used,
                        outcome: ChunkOutcome::Line(RawLine { offset, bytes }),
                        discarded: None,
                    }
                }
            },
            None => {
                proof {
                    // The empty delimiter stands everywhere.
                    if delimiter@.len() == 0 {
                        assert(delimiter_at(text, delimiter@, 0));
                    }
                }
                let too_long = !self.discarding && total > max_size && total - max_size
                    > delimiter.len() - 1;
                let discarded = if too_long {
                    self.discarding = true;
                    Some(joined_prefix(buffer_as_slice(&self.buf), chunk, prefix_len))
                } else {
                    None
                };
                self.position = self.position + chunk.len() as u64;
                self.buf.extend_from_slice(chunk);
                if self.discarding {
                    let from = total - (delimiter.len() - 1);
                    let tail = buffer_from_slice(
                        slice_subrange(buffer_as_slice(&self.buf), from, total),
                    );
                    assert(buffer_contents(tail) =~= delimiter_tail(text, delimiter@));
                    self.buf = tail;
                }
                let outcome = if chunk.len() == 0 {
                    ChunkOutcome::EndOfInput
                } else {
                    ChunkOutcome::More
                };
                TakenChunk { used: chunk.len(), outcome, discarded }
            },
        }
    }

    /// Gives up waiting for the end of the current line and hands out what is
    /// kept of it.
    pub fn take_unfinished_line(&mut self) -> (line: RawLine)
        ensures
            line@.offset == old(self)@.line_start,
            line@.bytes == old(self)@.unfinished_line(),
            final(self)@ == LineState::starting_at(old(self)@.position),
    {
        let offset = self.line_start;
        if self.discarding {
            self.discarding = false;
            self.buf.clear();
        }
        self.line_start = self.position;
        RawLine { offset, bytes: self.buf.split().freeze() }
    }
}

} // verus!
