//! Byte buffers of the `bytes` crate, as the rest of the library uses them.
//!
//! A [`bytes::Bytes`] or [`bytes::BytesMut`] is opaque to the verifier. What it holds is
//! named by [`bytes_of`] and [`pending_of`]; the functions below are the calls that the
//! library makes on these buffers.

use bytes::{Buf, Bytes, BytesMut};
use vstd::prelude::*;

verus! {

/// `bytes::Bytes`, an immutable run of bytes.
#[verifier::external_type_specification]
#[verifier::external_body]
pub struct ExBytes(bytes::Bytes);

/// `bytes::BytesMut`, a growable run of bytes.
#[verifier::external_type_specification]
#[verifier::external_body]
pub struct ExBytesMut(bytes::BytesMut);

/// The bytes that a `Bytes` still holds, front first.
pub uninterp spec fn bytes_of(buffer: bytes::Bytes) -> Seq<u8>;

/// The bytes that a `BytesMut` still holds, front first.
pub uninterp spec fn pending_of(buffer: bytes::BytesMut) -> Seq<u8>;

/// `Buf::has_remaining` on `Bytes`: whether any byte is left.
#[verifier::external_body]
pub(crate) fn has_remaining(buffer: &Bytes) -> (r: bool)
    ensures
        r == (bytes_of(*buffer).len() > 0),
{
    buffer.has_remaining()
}

/// `Buf::chunk` on `Bytes`: the buffer is contiguous, so its first chunk is all of it.
#[verifier::external_body]
pub(crate) fn chunk(buffer: &Bytes) -> (r: &[u8])
    ensures
        r@ == bytes_of(*buffer),
{
    buffer.chunk()
}

/// `Buf::advance` on `Bytes`: drops `count` bytes from the front. It panics when fewer are
/// left, which `requires` rules out.
#[verifier::external_body]
pub(crate) fn advance(buffer: &mut Bytes, count: usize)
    requires
        count <= bytes_of(*old(buffer)).len(),
    ensures
        bytes_of(*final(buffer)) == bytes_of(*old(buffer)).skip(count as int),
{
    buffer.advance(count)
}

/// `Bytes::from(Vec<u8>)`: the same bytes, without a copy.
#[verifier::external_body]
pub(crate) fn bytes_from_vec(data: Vec<u8>) -> (r: Bytes)
    ensures
        bytes_of(r) == data@,
{
    Bytes::from(data)
}

/// `Bytes::copy_from_slice`: a buffer that holds a copy of `data`.
#[verifier::external_body]
pub(crate) fn bytes_copy_of(data: &[u8]) -> (r: Bytes)
    ensures
        bytes_of(r) == data@,
{
    Bytes::copy_from_slice(data)
}

/// `BytesMut::new`: an empty buffer.
#[verifier::external_body]
pub(crate) fn pending_new() -> (r: BytesMut)
    ensures
        pending_of(r) == Seq::<u8>::empty(),
{
    BytesMut::new()
}

/// `BytesMut::is_empty`.
#[verifier::external_body]
pub(crate) fn pending_is_empty(buffer: &BytesMut) -> (r: bool)
    ensures
        r == (pending_of(*buffer).len() == 0),
{
    buffer.is_empty()
}

/// `Buf::chunk` on `BytesMut`: the buffer is contiguous, so its first chunk is all of it.
#[verifier::external_body]
pub(crate) fn pending_chunk(buffer: &BytesMut) -> (r: &[u8])
    ensures
        r@ == pending_of(*buffer),
{
    buffer.chunk()
}

/// `BytesMut::extend_from_slice`: appends a copy of `data`.
#[verifier::external_body]
pub(crate) fn pending_extend(buffer: &mut BytesMut, data: &[u8])
    ensures
        pending_of(*final(buffer)) == pending_of(*old(buffer)) + data@,
{
    buffer.extend_from_slice(data)
}

/// `Buf::advance` on `BytesMut`: drops `count` bytes from the front. It panics when fewer
/// are left, which `requires` rules out.
#[verifier::external_body]
pub(crate) fn pending_advance(buffer: &mut BytesMut, count: usize)
    requires
        count <= pending_of(*old(buffer)).len(),
    ensures
        pending_of(*final(buffer)) == pending_of(*old(buffer)).skip(count as int),
{
    buffer.advance(count)
}

} // verus!
