//! The reference-counted byte buffers of the `bytes` crate.
//!
//! `bytes_of` and `bytes_mut_of` name the contents of a buffer. Every
//! statement about them below is what the `bytes` crate documents.

use bytes::{BufMut, Bytes, BytesMut};
use vstd::prelude::*;

verus! {

/// `bytes::Bytes`: an immutable, cheaply cloneable byte buffer.
#[verifier::external_type_specification]
#[verifier::external_body]
pub struct ExBytes(bytes::Bytes);

/// `bytes::BytesMut`: a growable byte buffer with a single owner.
#[verifier::external_type_specification]
#[verifier::external_body]
pub struct ExBytesMut(bytes::BytesMut);

/// The bytes that a `Bytes` holds.
pub uninterp spec fn bytes_of(buf: Bytes) -> Seq<u8>;

/// The bytes that a `BytesMut` holds so far.
pub uninterp spec fn bytes_mut_of(buf: BytesMut) -> Seq<u8>;

/// The number of bytes that a `BytesMut` was made to hold without growing.
pub uninterp spec fn bytes_mut_limit(buf: BytesMut) -> nat;

/// `<Bytes as Clone>::clone` returns a second handle to the same bytes.
pub assume_specification[ <bytes::Bytes as Clone>::clone ](buf: &Bytes) -> (copy: Bytes)
    ensures
        bytes_of(copy) == bytes_of(*buf),
;

/// `<Bytes as AsRef<[u8]>>::as_ref` lends the whole buffer as a slice.
#[verifier::external_body]
pub(crate) fn as_slice(buf: &Bytes) -> (slice: &[u8])
    ensures
        slice@ == bytes_of(*buf),
{
    buf.as_ref()
}

/// `Bytes::copy_from_slice` makes a buffer with a copy of the bytes of `data`.
pub assume_specification[ bytes::Bytes::copy_from_slice ](data: &[u8]) -> (buf: Bytes)
    ensures
        bytes_of(buf) == data@,
;

/// `Bytes::slice` with the range `begin..` returns a handle to the bytes from
/// `begin` on. It panics when `begin` lies behind the end.
#[verifier::external_body]
pub(crate) fn slice_from(buf: &Bytes, begin: usize) -> (rest: Bytes)
    requires
        begin <= bytes_of(*buf).len(),
    ensures
        bytes_of(rest) == bytes_of(*buf).skip(begin as int),
{
    buf.slice(begin..)
}

/// `BytesMut::with_capacity` returns an empty buffer that holds `capacity`
/// bytes without growing. It panics when `capacity` exceeds `isize::MAX`.
pub assume_specification[ bytes::BytesMut::with_capacity ](capacity: usize) -> (buf: BytesMut)
    requires
        capacity <= isize::MAX,
    ensures
        bytes_mut_of(buf) == Seq::<u8>::empty(),
        bytes_mut_limit(buf) == capacity,
;

/// `BufMut::put_slice` appends the bytes of `src`. Within the capacity that the
/// buffer was made with it does not grow, so it cannot panic.
#[verifier::external_body]
pub(crate) fn put_slice(buf: &mut BytesMut, src: &[u8])
    requires
        bytes_mut_of(*old(buf)).len() + src@.len() <= bytes_mut_limit(*old(buf)),
    ensures
        bytes_mut_of(*final(buf)) == bytes_mut_of(*old(buf)) + src@,
        bytes_mut_limit(*final(buf)) == bytes_mut_limit(*old(buf)),
{
    buf.put_slice(src)
}

/// `BytesMut::freeze` turns the buffer into an immutable one with the same bytes.
pub assume_specification[ bytes::BytesMut::freeze ](buf: BytesMut) -> (frozen: Bytes)
    ensures
        bytes_of(frozen) == bytes_mut_of(buf),
;

} // verus!
