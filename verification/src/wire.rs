//! The byte layout of MAVLink v1 and v2 frames.

use vstd::prelude::*;
use crate::checksum::{compute_frame_checksum, frame_checksum};
use crate::endian::{le16, le24, u16_le_bytes};
use crate::header::{MavHeader, MavlinkVersion, MAV_STX, MAV_STX_V2};
use crate::message::Message;
use crate::write::WriteError;

verus! {

/// The incompatibility flag that announces a 13-byte signature after the
/// checksum.
pub const MAVLINK_IFLAG_SIGNED: u8 = 0x01;

/// The length of the signature that follows a signed v2 frame.
pub const SIGNATURE_LEN: usize = 13;

/// The longest payload that a frame can carry.
pub const MAX_PAYLOAD_LEN: usize = 255;

/// The start byte of a version.
pub open spec fn start_byte(version: MavlinkVersion) -> u8 {
    match version {
        MavlinkVersion::V1 => MAV_STX,
        MavlinkVersion::V2 => MAV_STX_V2,
    }
}

/// What the checksum of a v1 frame covers, apart from the seed byte: length,
/// sequence, system, component, the low byte of the id, and the payload.
pub open spec fn v1_body(header: MavHeader, id: u32, payload: Seq<u8>) -> Seq<u8> {
    seq![
        payload.len() as u8,
        header.sequence,
        header.system_id,
        header.component_id,
        (id % 256) as u8,
    ] + payload
}

/// What the checksum of a v2 frame covers, apart from the seed byte: length,
/// the two flag bytes, sequence, system, component, the low three bytes of
/// the id, and the payload.
pub open spec fn v2_body(
    header: MavHeader,
    incompat_flags: u8,
    compat_flags: u8,
    id: u32,
    payload: Seq<u8>,
) -> Seq<u8> {
    seq![
        payload.len() as u8,
        incompat_flags,
        compat_flags,
        header.sequence,
        header.system_id,
        header.component_id,
    ] + le24(id) + payload
}

/// A frame as it lies on the wire, field by field, before any catalogue is
/// asked about it: the checksum is the one that the frame carries, right or
/// wrong. The flag bytes exist in v2 only. A signature is not part of it.
#[derive(Debug, Clone, PartialEq, Eq)]
pub struct RawFrame {
    pub protocol_version: MavlinkVersion,
    pub header: MavHeader,
    pub incompat_flags: u8,
    pub compat_flags: u8,
    pub message_id: u32,
    pub payload: Vec<u8>,
    pub checksum: u16,
}

/// The mathematical value of a `RawFrame`.
pub struct RawFrameView {
    pub protocol_version: MavlinkVersion,
    pub header: MavHeader,
    pub incompat_flags: u8,
    pub compat_flags: u8,
    pub message_id: u32,
    pub payload: Seq<u8>,
    pub checksum: u16,
}

impl View for RawFrame {
    type V = RawFrameView;

    open spec fn view(&self) -> RawFrameView {
        RawFrameView {
            protocol_version: self.protocol_version,
            header: self.header,
            incompat_flags: self.incompat_flags,
            compat_flags: self.compat_flags,
            message_id: self.message_id,
            payload: self.payload@,
            checksum: self.checksum,
        }
    }
}

impl RawFrameView {
    /// What the checksum covers, apart from the seed byte: everything
    /// between the start byte and the checksum.
    pub open spec fn body(self) -> Seq<u8> {
        match self.protocol_version {
            MavlinkVersion::V1 => v1_body(self.header, self.message_id, self.payload),
            MavlinkVersion::V2 => v2_body(
                self.header,
                self.incompat_flags,
                self.compat_flags,
                self.message_id,
                self.payload,
            ),
        }
    }

    /// The bytes of the frame: start byte, body, and the checksum, low byte
    /// first.
    pub open spec fn bytes(self) -> Seq<u8> {
        seq![start_byte(self.protocol_version)] + self.body() + le16(self.checksum)
    }
}

impl RawFrame {
    /// The bytes between the start byte and the checksum.
    fn body_bytes(&self) -> (body: Vec<u8>)
        requires
            self.payload@.len() <= MAX_PAYLOAD_LEN,
        ensures
            body@ == self@.body(),
    {
        let msgid = self.message_id;
        let mut body: Vec<u8> = Vec::new();
        body.push(self.payload.len() as u8);
        match self.protocol_version {
            MavlinkVersion::V1 => {
                body.push(self.header.sequence);
                body.push(self.header.system_id);
                body.push(self.header.component_id);
                body.push((msgid % 256) as u8);
            },
            MavlinkVersion::V2 => {
                body.push(self.incompat_flags);
                body.push(self.compat_flags);
                body.push(self.header.sequence);
                body.push(self.header.system_id);
                body.push(self.header.component_id);
                body.push((msgid % 256) as u8);
                body.push((msgid / 256 % 256) as u8);
                body.push((msgid / 65536 % 256) as u8);
            },
        }
        body.extend_from_slice(self.payload.as_slice());
        assert(body@ =~= self@.body());
        body
    }

    /// The checksum that the frame has to carry where `extra_crc` is the
    /// seed of its message id: the CRC of its body and the seed. The payload
    /// must fit the length byte.
    pub fn expected_checksum(&self, extra_crc: u8) -> (crc: u16)
        requires
            self.payload@.len() <= MAX_PAYLOAD_LEN,
        ensures
            crc == frame_checksum(self@.body(), extra_crc),
    {
        let mut body = self.body_bytes();
        compute_frame_checksum(&mut body, extra_crc)
    }

    /// Appends the bytes of the frame to the sink, with the checksum that
    /// the frame holds, or nothing if the payload does not fit the length
    /// byte.
    pub fn write(&self, w: &mut Vec<u8>) -> (res: Result<(), WriteError>)
        ensures
            self.payload@.len() <= MAX_PAYLOAD_LEN ==> res is Ok && final(w)@ == old(w)@
                + self@.bytes(),
            self.payload@.len() > MAX_PAYLOAD_LEN ==> res == Err::<(), WriteError>(
                WriteError::PayloadTooLong,
            ) && final(w)@ == old(w)@,
    {
        if self.payload.len() > MAX_PAYLOAD_LEN {
            return Err(WriteError::PayloadTooLong);
        }
        let body = self.body_bytes();
        let crc_bytes = u16_le_bytes(self.checksum);
        match self.protocol_version {
            MavlinkVersion::V1 => w.push(MAV_STX),
            MavlinkVersion::V2 => w.push(MAV_STX_V2),
        }
        w.extend_from_slice(body.as_slice());
        w.push(crc_bytes[0]);
        w.push(crc_bytes[1]);
        assert(w@ =~= old(w)@ + self@.bytes());
        Ok(())
    }
}

/// A complete frame: start byte, body, and the checksum of the body and the
/// seed, low byte first.
pub open spec fn framed(stx: u8, body: Seq<u8>, extra_crc: u8) -> Seq<u8> {
    seq![stx] + body + le16(frame_checksum(body, extra_crc))
}

/// The bytes that stand for `msg` under `header` in the given version: one
/// unsigned frame, in v2 with both flag bytes zero.
pub open spec fn encoded<M: Message>(version: MavlinkVersion, header: MavHeader, msg: M) -> Seq<u8> {
    let id = msg.spec_message_id();
    match version {
        MavlinkVersion::V1 => framed(
            MAV_STX,
            v1_body(header, id, msg.spec_ser()),
            M::spec_extra_crc(id),
        ),
        MavlinkVersion::V2 => framed(
            MAV_STX_V2,
            v2_body(header, 0, 0, id, msg.spec_ser()),
            M::spec_extra_crc(id),
        ),
    }
}

/// A v2 frame with the signed flag set and the checksum that goes with it,
/// followed by `signature`.
pub open spec fn v2_signed_frame(
    header: MavHeader,
    id: u32,
    payload: Seq<u8>,
    extra_crc: u8,
    signature: Seq<u8>,
) -> Seq<u8> {
    framed(MAV_STX_V2, v2_body(header, MAVLINK_IFLAG_SIGNED, 0, id, payload), extra_crc)
        + signature
}

} // verus!
