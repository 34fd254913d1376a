//! The byte buffers of the `bytes` crate, as this library sees them.
//!
//! Nothing in this file is proved. Each function below makes one call into
//! `bytes`, and its contract records what that call does to the bytes held,
//! as the crate's source and documentation show it.

use bytes::{Buf, BufMut, Bytes, BytesMut};
use vstd::prelude::*;

verus! {

/// `bytes::Bytes`, an immutable handle on a run of bytes. Nothing of its
/// inside is known here but what `bytes_contents` names.
#[verifier::external_type_specification]
#[verifier::external_body]
pub struct ExBytes(Bytes);

/// `bytes::BytesMut`, a buffer that bytes are appended to.
#[verifier::external_type_specification]
#[verifier::external_body]
pub struct ExBytesMut(BytesMut);

/// The bytes that a `Bytes` handle gives access to, in order.
pub uninterp spec fn bytes_contents(b: Bytes) -> Seq<u8>;

/// The bytes written so far into a `BytesMut`, in order.
pub uninterp spec fn bytes_mut_contents(b: BytesMut) -> Seq<u8>;

/// The number of bytes that a `BytesMut` was made to hold without growing.
pub uninterp spec fn bytes_mut_room(b: BytesMut) -> nat;

/// The two bytes of `n`, most significant first.
pub open spec fn be_bytes(n: u16) -> Seq<u8> {
    seq![(n / 256) as u8, (n % 256) as u8]
}

/// The number whose two bytes, most significant first, are `hi` and `lo`.
pub open spec fn from_be_bytes(hi: u8, lo: u8) -> u16 {
    (hi * 256 + lo) as u16
}

/// `Bytes::new`: a handle on no bytes at all.
#[verifier::external_body]
pub(crate) fn bytes_new() -> (b: Bytes)
    ensures
        bytes_contents(b) == Seq::<u8>::empty(),
{
    Bytes::new()
}

/// `Bytes::len`: how many bytes the handle holds.
#[verifier::external_body]
pub(crate) fn bytes_len(b: &Bytes) -> (n: usize)
    ensures
        n == bytes_contents(*b).len(),
{
    b.len()
}

/// `AsRef::as_ref` on a `Bytes`: the same bytes, borrowed as a slice.
#[verifier::external_body]
pub(crate) fn bytes_as_slice(b: &Bytes) -> (s: &[u8])
    ensures
        s@ == bytes_contents(*b),
{
    b.as_ref()
}

/// `Bytes::clone`: a second handle on the same bytes.
#[verifier::external_body]
pub(crate) fn bytes_clone(b: &Bytes) -> (c: Bytes)
    ensures
        bytes_contents(c) == bytes_contents(*b),
{
    b.clone()
}

/// `BytesMut::with_capacity`: an empty buffer with room for `capacity`
/// bytes. The underlying `Vec::with_capacity` panics above `isize::MAX`.
#[verifier::external_body]
pub(crate) fn bytes_mut_with_capacity(capacity: usize) -> (buf: BytesMut)
    requires
        capacity <= isize::MAX,
    ensures
        bytes_mut_contents(buf) == Seq::<u8>::empty(),
        bytes_mut_room(buf) == capacity,
{
    BytesMut::with_capacity(capacity)
}

/// `BufMut::put_u8` on a `BytesMut`: appends one byte. Within the room the
/// buffer was made with, it does not grow and so cannot fail.
#[verifier::external_body]
pub(crate) fn put_u8(buf: &mut BytesMut, n: u8)
    requires
        bytes_mut_contents(*old(buf)).len() + 1 <= bytes_mut_room(*old(buf)),
    ensures
        bytes_mut_contents(*final(buf)) == bytes_mut_contents(*old(buf)).push(n),
        bytes_mut_room(*final(buf)) == bytes_mut_room(*old(buf)),
{
    buf.put_u8(n)
}

/// `BufMut::put_u16` on a `BytesMut`: appends the two bytes of `n` in
/// big-endian order.
#[verifier::external_body]
pub(crate) fn put_u16(buf: &mut BytesMut, n: u16)
    requires
        bytes_mut_contents(*old(buf)).len() + 2 <= bytes_mut_room(*old(buf)),
    ensures
        bytes_mut_contents(*final(buf)) == bytes_mut_contents(*old(buf)) + be_bytes(n),
        bytes_mut_room(*final(buf)) == bytes_mut_room(*old(buf)),
{
    buf.put_u16(n)
}

/// `BytesMut::extend_from_slice`: appends the slice.
#[verifier::external_body]
pub(crate) fn extend_from_slice(buf: &mut BytesMut, extend: &[u8])
    requires
        bytes_mut_contents(*old(buf)).len() + extend@.len() <= bytes_mut_room(*old(buf)),
    ensures
        bytes_mut_contents(*final(buf)) == bytes_mut_contents(*old(buf)) + extend@,
        bytes_mut_room(*final(buf)) == bytes_mut_room(*old(buf)),
{
    buf.extend_from_slice(extend)
}

/// `BytesMut::freeze`: the bytes written, as an immutable handle.
#[verifier::external_body]
pub(crate) fn freeze(buf: BytesMut) -> (b: Bytes)
    ensures
        bytes_contents(b) == bytes_mut_contents(buf),
{
    buf.freeze()
}

/// `Buf::remaining` on a byte slice: the number of bytes not yet read.
#[verifier::external_body]
pub(crate) fn remaining(buf: &[u8]) -> (n: usize)
    ensures
        n == buf@.len(),
{
    buf.remaining()
}

/// `Buf::get_u8` on a byte slice: reads the first byte and moves the slice
/// past it. It panics on an empty slice.
#[verifier::external_body]
pub(crate) fn get_u8(buf: &mut &[u8]) -> (n: u8)
    requires
        (*old(buf))@.len() >= 1,
    ensures
        n == (*old(buf))@[0],
        (*final(buf))@ == (*old(buf))@.skip(1),
{
    buf.get_u8()
}

/// `Buf::get_u16` on a byte slice: reads two bytes as a big-endian number
/// and moves the slice past them. It panics on fewer than two bytes.
#[verifier::external_body]
pub(crate) fn get_u16(buf: &mut &[u8]) -> (n: u16)
    requires
        (*old(buf))@.len() >= 2,
    ensures
        n == from_be_bytes((*old(buf))@[0], (*old(buf))@[1]),
        (*final(buf))@ == (*old(buf))@.skip(2),
{
    buf.get_u16()
}

/// `Buf::copy_to_bytes` on a byte slice: copies the first `len` bytes into a
/// new `Bytes` and moves the slice past them. It panics when fewer remain.
#[verifier::external_body]
pub(crate) fn copy_to_bytes(buf: &mut &[u8], len: usize) -> (b: Bytes)
    requires
        len <= (*old(buf))@.len(),
    ensures
        bytes_contents(b) == (*old(buf))@.take(len as int),
        (*final(buf))@ == (*old(buf))@.skip(len as int),
{
    buf.copy_to_bytes(len)
}

} // verus!
