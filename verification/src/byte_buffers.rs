//! What this crate relies on of the `bytes` crate.
//!
//! The contents of a [`Bytes`] and of a [`BytesMut`] are named as sequences of
//! bytes, and each method used here is described by what it does to them.
use bytes::{Bytes, BytesMut};
use vstd::prelude::*;

verus! {

#[verifier::external_type_specification]
#[verifier::external_body]
pub struct ExBytes(bytes::Bytes);

#[verifier::external_type_specification]
#[verifier::external_body]
pub struct ExBytesMut(bytes::BytesMut);

/// The bytes that a [`Bytes`] handle shows.
pub uninterp spec fn bytes_contents(bytes: Bytes) -> Seq<u8>;

/// The bytes that a [`BytesMut`] handle shows.
pub uninterp spec fn buffer_contents(buffer: BytesMut) -> Seq<u8>;

/// `BytesMut::new` makes an empty buffer.
pub assume_specification[ BytesMut::new ]() -> (buffer: BytesMut)
    ensures
        buffer_contents(buffer) == Seq::<u8>::empty(),
;

/// `BytesMut::len` counts the bytes of the buffer.
pub assume_specification[ BytesMut::len ](buffer: &BytesMut) -> (len: usize)
    ensures
        len == buffer_contents(*buffer).len(),
;

/// `BytesMut::split` hands out all bytes of the buffer and leaves it empty.
pub assume_specification[ BytesMut::split ](buffer: &mut BytesMut) -> (front: BytesMut)
    ensures
        buffer_contents(front) == buffer_contents(*old(buffer)),
        buffer_contents(*final(buffer)) == Seq::<u8>::empty(),
;

/// `BytesMut::freeze` keeps the bytes and makes them immutable.
pub assume_specification[ BytesMut::freeze ](buffer: BytesMut) -> (bytes: Bytes)
    ensures
        bytes_contents(bytes) == buffer_contents(buffer),
;

/// `BytesMut::clear` removes all bytes.
pub assume_specification[ BytesMut::clear ](buffer: &mut BytesMut)
    ensures
        buffer_contents(*final(buffer)) == Seq::<u8>::empty(),
;

/// `BytesMut::truncate` keeps the first `len` bytes; it does nothing to a
/// buffer that is not longer than that.
pub assume_specification[ BytesMut::truncate ](buffer: &mut BytesMut, len: usize)
    ensures
        buffer_contents(*final(buffer)) == if len <= buffer_contents(*old(buffer)).len() {
            buffer_contents(*old(buffer)).take(len as int)
        } else {
            buffer_contents(*old(buffer))
        },
;

/// `BytesMut::extend_from_slice` appends the slice. It panics where the buffer
/// would grow past `isize::MAX` bytes. That memory runs out is not considered.
pub assume_specification[ BytesMut::extend_from_slice ](buffer: &mut BytesMut, extend: &[u8])
    requires
        buffer_contents(*old(buffer)).len() + extend@.len() <= isize::MAX,
    ensures
        buffer_contents(*final(buffer)) == buffer_contents(*old(buffer)) + extend@,
;

/// `Bytes::is_empty` tells whether there are no bytes.
pub assume_specification[ Bytes::is_empty ](bytes: &Bytes) -> (empty: bool)
    ensures
        empty == (bytes_contents(*bytes).len() == 0),
;

/// The bytes of a [`Bytes`] as a slice, by its `AsRef<[u8]>`.
#[verifier::external_body]
pub(crate) fn bytes_as_slice(bytes: &Bytes) -> (slice: &[u8])
    ensures
        slice@ == bytes_contents(*bytes),
{
    bytes.as_ref()
}

/// The bytes of a [`BytesMut`] as a slice, by its `AsRef<[u8]>`.
#[verifier::external_body]
pub(crate) fn buffer_as_slice(buffer: &BytesMut) -> (slice: &[u8])
    ensures
        slice@ == buffer_contents(*buffer),
{
    buffer.as_ref()
}

/// A new buffer with a copy of the slice, by `BytesMut`'s `From<&[u8]>`.
#[verifier::external_body]
pub(crate) fn buffer_from_slice(slice: &[u8]) -> (buffer: BytesMut)
    ensures
        buffer_contents(buffer) == slice@,
{
    BytesMut::from(slice)
}

} // verus!
