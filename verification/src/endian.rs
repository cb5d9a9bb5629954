//! Little-endian integers on the wire.

use vstd::prelude::*;
use byteorder::ByteOrder;

verus! {

/// The two bytes of `v`, low byte first.
pub open spec fn le16(v: u16) -> Seq<u8> {
    seq![(v % 256) as u8, (v / 256) as u8]
}

/// The 16-bit value whose low byte is `lo` and whose high byte is `hi`.
pub open spec fn from_le16(lo: u8, hi: u8) -> u16 {
    (lo + 256 * hi) as u16
}

/// The low three bytes of `v`, lowest first.
pub open spec fn le24(v: u32) -> Seq<u8> {
    seq![(v % 256) as u8, (v / 256 % 256) as u8, (v / 65536 % 256) as u8]
}

/// The value of three bytes, lowest first, zero-extended to 32 bits.
pub open spec fn from_le24(b0: u8, b1: u8, b2: u8) -> u32 {
    (b0 + 256 * b1 + 65536 * b2) as u32
}

/// The four bytes of `v`, lowest first.
pub open spec fn le32(v: u32) -> Seq<u8> {
    seq![(v % 256) as u8, (v / 256 % 256) as u8, (v / 65536 % 256) as u8, (v / 16777216) as u8]
}

/// The 32-bit value of four bytes, lowest first.
pub open spec fn from_le32(b0: u8, b1: u8, b2: u8, b3: u8) -> u32 {
    (b0 + 256 * b1 + 65536 * b2 + 16777216 * b3) as u32
}

/// Calls `byteorder::LittleEndian::read_u16`. Trusted: the result is the
/// little-endian value of the first two bytes of `buf`. The outside function
/// panics on a shorter buffer, which `requires` leaves out.
#[verifier::external_body]
pub(crate) fn read_u16_le(buf: &[u8]) -> (v: u16)
    requires
        buf@.len() >= 2,
    ensures
        v == from_le16(buf@[0], buf@[1]),
{
    byteorder::LittleEndian::read_u16(buf)
}

/// Calls `byteorder::LittleEndian::write_u16` on a two-byte buffer.
/// Trusted: the buffer then holds the two bytes of `v`, low byte first.
#[verifier::external_body]
pub(crate) fn u16_le_bytes(v: u16) -> (bytes: [u8; 2])
    ensures
        bytes@ == le16(v),
{
    let mut bytes = [0u8; 2];
    byteorder::LittleEndian::write_u16(&mut bytes, v);
    bytes
}

/// Reading back what was written gives the value that was written.
pub proof fn lemma_le16_round_trip(v: u16)
    ensures
        le16(v).len() == 2,
        from_le16(le16(v)[0], le16(v)[1]) == v,
{
}

/// Three little-endian bytes hold any id below 2^24 exactly.
pub proof fn lemma_le24_round_trip(v: u32)
    requires
        v < 0x100_0000,
    ensures
        le24(v).len() == 3,
        from_le24(le24(v)[0], le24(v)[1], le24(v)[2]) == v,
{
}

/// Four little-endian bytes hold any 32-bit value exactly.
pub proof fn lemma_le32_round_trip(v: u32)
    ensures
        le32(v).len() == 4,
        from_le32(le32(v)[0], le32(v)[1], le32(v)[2], le32(v)[3]) == v,
{
}

} // verus!
