//! The frame checksum: CRC-16/MCRF4XX, computed by the `crc16` crate.

use vstd::prelude::*;

verus! {

/// The CRC-16/MCRF4XX checksum of `data` (polynomial 0x1021, reflected,
/// initial value 0xFFFF, no final XOR), as the `crc16` crate computes it.
pub uninterp spec fn mcrf4xx(data: Seq<u8>) -> u16;

/// The checksum that a frame carries: the CRC of everything between the start
/// byte and the checksum itself, followed by the per-message seed byte.
pub open spec fn frame_checksum(body: Seq<u8>, extra_crc: u8) -> u16 {
    mcrf4xx(body.push(extra_crc))
}

/// Calls `crc16::State::<crc16::MCRF4XX>::calculate`. Trusted: the result is
/// the MCRF4XX checksum of the bytes passed in, a function of those bytes
/// alone.
#[verifier::external_body]
pub(crate) fn crc_calculate(data: &[u8]) -> (crc: u16)
    ensures
        crc == mcrf4xx(data@),
{
    crc16::State::<crc16::MCRF4XX>::calculate(data)
}

/// Computes the checksum of a frame body with its seed byte.
pub(crate) fn compute_frame_checksum(body: &mut Vec<u8>, extra_crc: u8) -> (crc: u16)
    ensures
        final(body)@ == old(body)@,
        crc == frame_checksum(old(body)@, extra_crc),
{
    body.push(extra_crc);
    let crc = crc_calculate(body.as_slice());
    body.pop();
    assert(body@ =~= old(body)@);
    crc
}

} // verus!
