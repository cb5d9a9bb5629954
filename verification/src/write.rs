//! Writing messages to a byte sink.

use vstd::prelude::*;
use crate::header::{MavHeader, MavlinkVersion};
use crate::message::Message;
use crate::wire::{encoded, RawFrame, MAX_PAYLOAD_LEN};

verus! {

/// Why a message could not be written.
#[derive(Debug, Copy, Clone, PartialEq, Eq, Structural)]
pub enum WriteError {
    /// The payload has more than 255 bytes, which the length byte of a frame
    /// cannot describe.
    PayloadTooLong,
}

/// Whether the payload of `msg` fits the length byte of a frame.
pub open spec fn writable<M: Message>(msg: M) -> bool {
    msg.spec_ser().len() <= MAX_PAYLOAD_LEN
}

/// Writes a message using the given MAVLink version.
pub fn write_versioned_msg<M: Message>(
    w: &mut Vec<u8>,
    version: MavlinkVersion,
    header: MavHeader,
    data: &M,
) -> (res: Result<(), WriteError>)
    ensures
        writable(*data) ==> res is Ok && final(w)@ == old(w)@ + encoded(version, header, *data),
        !writable(*data) ==> res == Err::<(), WriteError>(WriteError::PayloadTooLong) && final(w)@
            == old(w)@,
{
    match version {
        MavlinkVersion::V2 => write_v2_msg(w, header, data),
        MavlinkVersion::V1 => write_v1_msg(w, header, data),
    }
}

/// Writes a MAVLink v2 message to the sink: one frame with the checksum of
/// its bytes and of the seed of its id, or nothing if the payload is too
/// long. The frame is never signed, and both flag bytes are zero. Only the
/// low three bytes of the message id are written.
pub fn write_v2_msg<M: Message>(w: &mut Vec<u8>, header: MavHeader, data: &M) -> (res: Result<
    (),
    WriteError,
>)
    ensures
        writable(*data) ==> res is Ok && final(w)@ == old(w)@ + encoded(
            MavlinkVersion::V2,
            header,
            *data,
        ),
        !writable(*data) ==> res == Err::<(), WriteError>(WriteError::PayloadTooLong) && final(w)@
            == old(w)@,
{
    let msgid = data.message_id();
    let payload = data.ser();
    if payload.len() > MAX_PAYLOAD_LEN {
        return Err(WriteError::PayloadTooLong);
    }
    let mut frame = RawFrame {
        protocol_version: MavlinkVersion::V2,
        header,
        incompat_flags: 0,
        compat_flags: 0,
        message_id: msgid,
        payload,
        checksum: 0,
    };
    frame.checksum = frame.expected_checksum(M::extra_crc(msgid));
    frame.write(w)
}

/// Writes a MAVLink v1 message to the sink: one frame with the checksum of
/// its bytes and of the seed of its id, or nothing if the payload is too
/// long. Only the low byte of the message id is written.
pub fn write_v1_msg<M: Message>(w: &mut Vec<u8>, header: MavHeader, data: &M) -> (res: Result<
    (),
    WriteError,
>)
    ensures
        writable(*data) ==> res is Ok && final(w)@ == old(w)@ + encoded(
            MavlinkVersion::V1,
            header,
            *data,
        ),
        !writable(*data) ==> res == Err::<(), WriteError>(WriteError::PayloadTooLong) && final(w)@
            == old(w)@,
{
    let msgid = data.message_id();
    let payload = data.ser();
    if payload.len() > MAX_PAYLOAD_LEN {
        return Err(WriteError::PayloadTooLong);
    }
    let mut frame = RawFrame {
        protocol_version: MavlinkVersion::V1,
        header,
        incompat_flags: 0,
        compat_flags: 0,
        message_id: msgid,
        payload,
        checksum: 0,
    };
    frame.checksum = frame.expected_checksum(M::extra_crc(msgid));
    frame.write(w)
}

} // verus!
