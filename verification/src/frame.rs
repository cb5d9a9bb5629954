//! A message together with its header and protocol version, and the
//! portable envelope that carries one without start byte or checksum.

use vstd::prelude::*;
use crate::buffer::{buf_collect, buf_from_slice, buf_get_u32_le, buf_get_u8};
use crate::endian::{from_le32, le32, lemma_le32_round_trip};
use crate::header::{MavHeader, MavlinkVersion};
use crate::message::Message;

verus! {

/// A message with the header it travels under and the protocol version it
/// belongs to, so that the sender's system and component id are kept.
#[derive(Debug, Clone)]
pub struct MavFrame<M: Message> {
    pub header: MavHeader,
    pub msg: M,
    pub protocol_version: MavlinkVersion,
}

/// The number of bytes that stand before the payload in an envelope: system,
/// component, sequence, and the message id, which takes one byte in v1 and
/// four in v2.
pub open spec fn envelope_prefix_len(version: MavlinkVersion) -> nat {
    match version {
        MavlinkVersion::V1 => 4,
        MavlinkVersion::V2 => 7,
    }
}

/// The message id as an envelope holds it: four bytes, lowest first, in v2;
/// its low byte alone in v1.
pub open spec fn envelope_id(version: MavlinkVersion, id: u32) -> Seq<u8> {
    match version {
        MavlinkVersion::V1 => seq![(id % 256) as u8],
        MavlinkVersion::V2 => le32(id),
    }
}

/// The envelope of a frame: system id, component id, sequence, message id,
/// payload. No start byte, no length and no checksum.
pub open spec fn envelope<M: Message>(frame: MavFrame<M>) -> Seq<u8> {
    seq![frame.header.system_id, frame.header.component_id, frame.header.sequence] + envelope_id(
        frame.protocol_version,
        frame.msg.spec_message_id(),
    ) + frame.msg.spec_ser()
}

/// The header that an envelope begins with.
pub open spec fn envelope_header(input: Seq<u8>) -> MavHeader {
    MavHeader { system_id: input[0], component_id: input[1], sequence: input[2] }
}

/// The message id that an envelope of the given version holds.
pub open spec fn envelope_message_id(version: MavlinkVersion, input: Seq<u8>) -> u32 {
    match version {
        MavlinkVersion::V1 => input[3] as u32,
        MavlinkVersion::V2 => from_le32(input[3], input[4], input[5], input[6]),
    }
}

/// The frame that an envelope of the given version stands for, if the
/// catalogue accepts its payload under its message id.
pub open spec fn opened<M: Message>(version: MavlinkVersion, input: Seq<u8>) -> Option<
    MavFrame<M>,
> {
    match M::spec_parse(
        version,
        envelope_message_id(version, input),
        input.skip(envelope_prefix_len(version) as int),
    ) {
        Some(msg) => Some(
            MavFrame { header: envelope_header(input), msg, protocol_version: version },
        ),
        None => None,
    }
}

impl<M: Message> MavFrame<M> {
    /// Serializes the frame into its envelope, so that it can be sent over a
    /// socket, for example.
    pub fn ser(&self) -> (v: Vec<u8>)
        ensures
            v@ == envelope(*self),
    {
        let mut v = Vec::new();

        // serialize header
        v.push(self.header.system_id);
        v.push(self.header.component_id);
        v.push(self.header.sequence);

        // message id
        let id = self.msg.message_id();
        match self.protocol_version {
            MavlinkVersion::V2 => {
                v.push((id % 256) as u8);
                v.push((id / 256 % 256) as u8);
                v.push((id / 65536 % 256) as u8);
                v.push((id / 16777216) as u8);
            },
            MavlinkVersion::V1 => {
                v.push((id % 256) as u8);
            },
        }

        // serialize message
        let mut payload = self.msg.ser();
        v.append(&mut payload);
        assert(v@ =~= envelope(*self));
        v
    }

    /// Deserializes a frame from an envelope that has been received from,
    /// for example, a socket. The envelope must at least hold the header and
    /// the message id. Returns `None` where the catalogue rejects the
    /// payload.
    pub fn deser(version: MavlinkVersion, input: &[u8]) -> (frame: Option<Self>)
        requires
            input@.len() >= envelope_prefix_len(version),
        ensures
            frame == opened::<M>(version, input@),
    {
        let mut buf = buf_from_slice(input);

        let system_id = buf_get_u8(&mut buf);
        let component_id = buf_get_u8(&mut buf);
        let sequence = buf_get_u8(&mut buf);
        let header = MavHeader { system_id, component_id, sequence };

        let msg_id = match version {
            MavlinkVersion::V2 => buf_get_u32_le(&mut buf),
            MavlinkVersion::V1 => buf_get_u8(&mut buf) as u32,
        };
        let payload = buf_collect(buf);
        assert(payload@ =~= input@.skip(envelope_prefix_len(version) as int));

        if let Some(msg) = M::parse(version, msg_id, payload.as_slice()) {
            Some(MavFrame { header, msg, protocol_version: version })
        } else {
            None
        }
    }

    /// Returns the frame header.
    pub fn header(&self) -> (header: MavHeader)
        ensures
            header == self.header,
    {
        self.header
    }
}

/// Serialising and deserialising are exact inverses when both sides use the
/// same version: the envelope of a frame opens to that frame, provided the
/// catalogue parses the message's payload back and, in v1, the message id
/// fits one byte.
pub proof fn law_envelope_round_trip<M: Message>(frame: MavFrame<M>)
    requires
        M::spec_parse(
            frame.protocol_version,
            frame.msg.spec_message_id(),
            frame.msg.spec_ser(),
        ) == Some(frame.msg),
        frame.protocol_version == MavlinkVersion::V1 ==> frame.msg.spec_message_id() < 0x100,
    ensures
        envelope(frame).len() >= envelope_prefix_len(frame.protocol_version),
        opened::<M>(frame.protocol_version, envelope(frame)) == Some(frame),
{
    let version = frame.protocol_version;
    let id = frame.msg.spec_message_id();
    let e = envelope(frame);
    lemma_le32_round_trip(id);
    assert(e.skip(envelope_prefix_len(version) as int) =~= frame.msg.spec_ser());
    match version {
        MavlinkVersion::V1 => {
            assert(e[3] == envelope_id(version, id)[0]);
        },
        MavlinkVersion::V2 => {
            assert(e[3] == le32(id)[0] && e[4] == le32(id)[1] && e[5] == le32(id)[2] && e[6]
                == le32(id)[3]);
        },
    }
}

} // verus!
