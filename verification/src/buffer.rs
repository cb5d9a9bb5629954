//! The in-memory buffer of the `bytes` crate, as the envelope reads it.

use vstd::prelude::*;
use bytes::{Buf, IntoBuf};
use crate::endian::from_le32;

verus! {

/// `bytes::Bytes`, a block of bytes in memory. Nothing is known of a value
/// of it but what the wrappers below say.
#[verifier::external_type_specification]
#[verifier::external_body]
pub struct ExBytes(bytes::Bytes);

/// `std::io::Cursor`, which is what `bytes` reads a `Bytes` through: the
/// block and a position in it.
#[verifier::external_type_specification]
#[verifier::external_body]
#[verifier::reject_recursive_types(T)]
pub struct ExCursor<T>(std::io::Cursor<T>);

/// The bytes of a buffer that have not been taken out yet, in order.
pub uninterp spec fn buf_remaining(buf: std::io::Cursor<bytes::Bytes>) -> Seq<u8>;

/// Calls `Bytes::from` on the slice and `IntoBuf::into_buf` on the result.
/// Trusted: the buffer holds a copy of the bytes of `input`, none taken out.
#[verifier::external_body]
pub(crate) fn buf_from_slice(input: &[u8]) -> (buf: std::io::Cursor<bytes::Bytes>)
    ensures
        buf_remaining(buf) == input@,
{
    bytes::Bytes::from(input).into_buf()
}

/// Calls `Buf::get_u8`. Trusted: it returns the first remaining byte and
/// takes it out. The outside function panics on an empty buffer, which
/// `requires` leaves out.
#[verifier::external_body]
pub(crate) fn buf_get_u8(buf: &mut std::io::Cursor<bytes::Bytes>) -> (byte: u8)
    requires
        buf_remaining(*old(buf)).len() >= 1,
    ensures
        byte == buf_remaining(*old(buf))[0],
        buf_remaining(*final(buf)) == buf_remaining(*old(buf)).skip(1),
{
    buf.get_u8()
}

/// Calls `Buf::get_u32_le`. Trusted: it returns the little-endian value of
/// the first four remaining bytes and takes them out. The outside function
/// panics on fewer than four bytes, which `requires` leaves out.
#[verifier::external_body]
pub(crate) fn buf_get_u32_le(buf: &mut std::io::Cursor<bytes::Bytes>) -> (value: u32)
    requires
        buf_remaining(*old(buf)).len() >= 4,
    ensures
        value == from_le32(
            buf_remaining(*old(buf))[0],
            buf_remaining(*old(buf))[1],
            buf_remaining(*old(buf))[2],
            buf_remaining(*old(buf))[3],
        ),
        buf_remaining(*final(buf)) == buf_remaining(*old(buf)).skip(4),
{
    buf.get_u32_le()
}

/// Calls `Buf::collect` into a `Vec<u8>`. Trusted: the vector holds the
/// remaining bytes, in order.
#[verifier::external_body]
pub(crate) fn buf_collect(buf: std::io::Cursor<bytes::Bytes>) -> (rest: Vec<u8>)
    ensures
        rest@ == buf_remaining(buf),
{
    buf.collect::<Vec<u8>>()
}

} // verus!
