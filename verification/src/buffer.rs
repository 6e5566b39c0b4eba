//! The byte buffer of a process source. Nothing in this file is proved:
//! each item states what a method of `buf_redux::Buffer` does.

use vstd::prelude::*;
use buf_redux::Buffer;

verus! {

/// `buf_redux::Buffer`, a queue of bytes with a fixed room. Its bytes are
/// known by [`buffer_bytes`] only.
#[verifier::external_type_specification]
#[verifier::external_body]
pub struct ExBuffer(Buffer);

/// The bytes that the buffer holds, the one that is read first at the
/// front.
pub uninterp spec fn buffer_bytes(buffer: &Buffer) -> Seq<u8>;

/// `Buffer::new` makes an empty buffer.
pub assume_specification[ Buffer::new ]() -> (buffer: Buffer)
    ensures
        buffer_bytes(&buffer) == Seq::<u8>::empty(),
;

/// `Buffer::copy_from_slice` copies bytes from the front of `src` to the
/// end of the buffer, as many as there is room for, and returns their
/// number. It does not make room.
pub assume_specification[ Buffer::copy_from_slice ](buffer: &mut Buffer, src: &[u8]) -> (copied:
    usize)
    ensures
        copied <= src@.len(),
        buffer_bytes(final(buffer)) == buffer_bytes(old(buffer)) + src@.take(copied as int),
;

/// `Buffer::buf` is the bytes that the buffer holds.
pub assume_specification<'a>[ Buffer::buf ](buffer: &'a Buffer) -> (bytes: &'a [u8])
    ensures
        bytes@ == buffer_bytes(buffer),
;

/// `Buffer::len` is the number of bytes that the buffer holds.
pub assume_specification[ Buffer::len ](buffer: &Buffer) -> (n: usize)
    ensures
        n == buffer_bytes(buffer).len(),
;

/// `Buffer::consume` drops `amt` bytes from the front of the buffer. It is
/// called with no more than the buffer holds: the crate adds `amt` to its
/// read position before it looks at the length.
pub assume_specification[ Buffer::consume ](buffer: &mut Buffer, amt: usize)
    requires
        amt <= buffer_bytes(old(buffer)).len(),
    ensures
        buffer_bytes(final(buffer)) == buffer_bytes(old(buffer)).skip(amt as int),
;

} // verus!
