//! Where reading of a file starts, and through what kind of reader.
use crate::line_buffer::FilePosition;
use crate::utc::{is_too_old, older_than_limit, UtcTime};
use vstd::prelude::*;

verus! {

/// The two bytes with which every gzip stream begins.
pub const GZIP_MAGIC: [u8; 2] = [0x1f, 0x8b];

/// Where to start reading a file that has not been watched before.
#[derive(Clone, Copy, Debug)]
pub enum ReadFrom {
    /// At its first byte.
    Beginning,
    /// Past its last byte.
    End,
    /// At the position that an earlier run reached.
    Checkpoint(FilePosition),
}

/// How to read a file that has just been opened.
#[derive(Clone, Copy, Debug)]
pub enum ReaderPlan {
    /// Do not read it; it stands at the given position.
    Nothing(FilePosition),
    /// Decompress it from its first byte.
    Decompress,
    /// Read its bytes as they are, from the given position on.
    SeekTo(FilePosition),
    /// Read what will be appended to it.
    SeekToEnd,
}

impl ReaderPlan {
    /// The position at which reading starts, given the position that the seek
    /// reported, where the plan asks for a seek.
    pub open spec fn start(self, sought: FilePosition) -> FilePosition {
        match self {
            ReaderPlan::Nothing(position) => position,
            ReaderPlan::Decompress => 0,
            ReaderPlan::SeekTo(_) | ReaderPlan::SeekToEnd => sought,
        }
    }

    /// Computes [`ReaderPlan::start`].
    pub fn starting_position(&self, sought: FilePosition) -> (position: FilePosition)
        ensures
            position == self.start(sought),
    {
        match self {
            ReaderPlan::Nothing(position) => *position,
            ReaderPlan::Decompress => 0,
            ReaderPlan::SeekTo(_) => sought,
            ReaderPlan::SeekToEnd => sought,
        }
    }

    /// Whether reading starts within a file that had the given size when it was
    /// opened. The end of the file is within it, even if it has grown since.
    pub open spec fn starts_within(self, sought: FilePosition, size: u64) -> bool {
        self is SeekToEnd || self.start(sought) <= size
    }

    /// Computes [`ReaderPlan::starts_within`].
    pub fn has_start_within(&self, sought: FilePosition, size: u64) -> (within: bool)
        ensures
            within == self.starts_within(sought, size),
    {
        match self {
            ReaderPlan::SeekToEnd => true,
            _ => self.starting_position(sought) <= size,
        }
    }
}

/// What is found out about a file when it is opened.
#[derive(Clone, Copy, Debug)]
pub struct OpenedFile {
    /// The device that holds the file.
    pub devno: u64,
    /// The number of the file on its device.
    pub inode: u64,
    /// The size of the file in bytes.
    pub size: u64,
    /// When the file was last modified, where the system tells.
    pub modified: Option<UtcTime>,
    /// Whether the file is compressed.
    pub gzipped: bool,
}

/// Whether a file with these first bytes is compressed.
pub open spec fn has_gzip_magic(header: Seq<u8>) -> bool {
    GZIP_MAGIC@.is_prefix_of(header)
}

/// Decides by its first bytes whether a file is compressed.
pub fn is_gzipped(header: &[u8]) -> (gzipped: bool)
    ensures
        gzipped == has_gzip_magic(header@),
{
    let gzipped = header.len() >= 2 && header[0] == GZIP_MAGIC[0] && header[1] == GZIP_MAGIC[1];
    assert(gzipped ==> header@.subrange(0, 2) =~= GZIP_MAGIC@);
    gzipped
}

/// How to read a file that has not been watched before. What is compressed can
/// only be read from its beginning, so it is read only if that is asked for and
/// it is not too old. What is not compressed is read from where it is asked
/// for, or, if it is too old, from its end.
pub open spec fn first_plan(gzipped: bool, too_old: bool, read_from: ReadFrom) -> ReaderPlan {
    if gzipped {
        if too_old {
            ReaderPlan::Nothing(0)
        } else {
            match read_from {
                ReadFrom::Beginning => ReaderPlan::Decompress,
                ReadFrom::End => ReaderPlan::Nothing(0),
                ReadFrom::Checkpoint(position) => ReaderPlan::Nothing(position),
            }
        }
    } else if too_old {
        ReaderPlan::SeekToEnd
    } else {
        match read_from {
            ReadFrom::Beginning => ReaderPlan::SeekTo(0),
            ReadFrom::End => ReaderPlan::SeekToEnd,
            ReadFrom::Checkpoint(position) => ReaderPlan::SeekTo(position),
        }
    }
}

/// How to read a file that takes the place of one that is being watched, at the
/// position that was reached there.
pub open spec fn replacement_plan(gzipped: bool, position: FilePosition) -> ReaderPlan {
    if !gzipped {
        ReaderPlan::SeekTo(position)
    } else if position == 0 {
        ReaderPlan::Decompress
    } else {
        ReaderPlan::Nothing(position)
    }
}

impl OpenedFile {
    /// Whether the file was last modified before the age limit.
    pub open spec fn too_old(self, ignore_before: Option<UtcTime>) -> bool {
        older_than_limit(self.modified, ignore_before)
    }

    /// How many bytes of this file there are to be read: none, if it is asked for
    /// from its end and cannot be read from there.
    pub open spec fn size_to_read(self, read_from: ReadFrom) -> u64 {
        if self.gzipped && read_from is End {
            0
        } else {
            self.size
        }
    }

    /// Computes [`OpenedFile::size_to_read`].
    pub fn count_size(&self, read_from: ReadFrom) -> (size: u64)
        ensures
            size == self.size_to_read(read_from),
    {
        match (self.gzipped, read_from) {
            (true, ReadFrom::End) => 0,
            _ => self.size,
        }
    }

    /// Decides how to read this file.
    pub fn plan(&self, read_from: ReadFrom, ignore_before: Option<UtcTime>) -> (plan: ReaderPlan)
        ensures
            plan == first_plan(self.gzipped, self.too_old(ignore_before), read_from),
    {
        let too_old = is_too_old(self.modified, ignore_before);
        match (self.gzipped, too_old, read_from) {
            (true, true, _) => ReaderPlan::Nothing(0),
            (true, _, ReadFrom::Checkpoint(position)) => ReaderPlan::Nothing(position),
            (true, _, ReadFrom::End) => ReaderPlan::Nothing(0),
            (true, false, ReadFrom::Beginning) => ReaderPlan::Decompress,
            (false, true, _) => ReaderPlan::SeekToEnd,
            (false, false, ReadFrom::Checkpoint(position)) => ReaderPlan::SeekTo(position),
            (false, false, ReadFrom::Beginning) => ReaderPlan::SeekTo(0),
            (false, false, ReadFrom::End) => ReaderPlan::SeekToEnd,
        }
    }
}

} // verus!
