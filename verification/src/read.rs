//! Reading frames from a byte source, resynchronising on bad ones.

use vstd::prelude::*;
use vstd::slice::{slice_subrange, slice_to_vec};
use crate::checksum::frame_checksum;
use crate::endian::{from_le16, from_le24, le24, read_u16_le};
use crate::header::{MavHeader, MavlinkVersion, MAV_STX, MAV_STX_V2};
use crate::message::Message;
use crate::reader::ByteReader;
use crate::wire::{
    start_byte, RawFrame, RawFrameView, MAVLINK_IFLAG_SIGNED, MAX_PAYLOAD_LEN, SIGNATURE_LEN,
};

verus! {

/// Why nothing could be read.
#[derive(Debug, Copy, Clone, PartialEq, Eq, Structural)]
pub enum ReadError {
    /// The source ended before a valid frame was complete.
    UnexpectedEof,
    /// A v2 frame with a good checksum carried a payload that the catalogue
    /// does not accept under the frame's message id.
    InvalidData,
}

/// The offset behind a v1 frame that starts at `pos`, going by its length
/// byte: start byte, five header bytes, payload, two checksum bytes.
pub open spec fn v1_end(s: Seq<u8>, pos: int) -> int {
    pos + 8 + s[pos + 1] as int
}

/// Whether all bytes of the v1 frame that starts at `pos` are there.
pub open spec fn v1_complete(s: Seq<u8>, pos: int) -> bool {
    pos + 8 <= s.len() && v1_end(s, pos) <= s.len()
}

/// The header of the v1 frame that starts at `pos`.
pub open spec fn v1_header(s: Seq<u8>, pos: int) -> MavHeader {
    MavHeader { sequence: s[pos + 2], system_id: s[pos + 3], component_id: s[pos + 4] }
}

/// The message id of the v1 frame that starts at `pos`.
pub open spec fn v1_id(s: Seq<u8>, pos: int) -> u32 {
    s[pos + 5] as u32
}

/// The payload of the v1 frame that starts at `pos`.
pub open spec fn v1_payload(s: Seq<u8>, pos: int) -> Seq<u8> {
    s.subrange(pos + 6, v1_end(s, pos) - 2)
}

/// Whether the checksum that the v1 frame at `pos` carries is the checksum
/// of its bytes, from the length byte to the end of the payload, and of
/// `extra_crc`.
pub open spec fn v1_checksum_ok(s: Seq<u8>, pos: int, extra_crc: u8) -> bool {
    let end = v1_end(s, pos);
    frame_checksum(s.subrange(pos + 1, end - 2), extra_crc) == from_le16(s[end - 2], s[end - 1])
}

/// Whether the incompatibility flags announce a signature.
pub open spec fn is_signed(incompat_flags: u8) -> bool {
    incompat_flags & MAVLINK_IFLAG_SIGNED == MAVLINK_IFLAG_SIGNED
}

/// Whether the incompatibility flags hold a bit that this codec does not
/// know, so that the frame cannot be interpreted.
pub open spec fn has_unknown_flags(incompat_flags: u8) -> bool {
    incompat_flags & !MAVLINK_IFLAG_SIGNED != 0
}

/// The offset behind the checksum of the v2 frame that starts at `pos`:
/// start byte, nine header bytes, payload, two checksum bytes.
pub open spec fn v2_checksum_end(s: Seq<u8>, pos: int) -> int {
    pos + 12 + s[pos + 1] as int
}

/// The offset behind a v2 frame that starts at `pos`, signature included
/// where the flags announce one.
pub open spec fn v2_end(s: Seq<u8>, pos: int) -> int {
    if is_signed(s[pos + 2]) {
        v2_checksum_end(s, pos) + SIGNATURE_LEN as int
    } else {
        v2_checksum_end(s, pos)
    }
}

/// Whether all bytes of the v2 frame that starts at `pos` are there.
pub open spec fn v2_complete(s: Seq<u8>, pos: int) -> bool {
    pos + 12 <= s.len() && v2_end(s, pos) <= s.len()
}

/// The header of the v2 frame that starts at `pos`.
pub open spec fn v2_header(s: Seq<u8>, pos: int) -> MavHeader {
    MavHeader { sequence: s[pos + 4], system_id: s[pos + 5], component_id: s[pos + 6] }
}

/// The message id of the v2 frame that starts at `pos`: three bytes, lowest
/// first, zero-extended.
pub open spec fn v2_id(s: Seq<u8>, pos: int) -> u32 {
    from_le24(s[pos + 7], s[pos + 8], s[pos + 9])
}

/// The payload of the v2 frame that starts at `pos`.
pub open spec fn v2_payload(s: Seq<u8>, pos: int) -> Seq<u8> {
    s.subrange(pos + 10, v2_checksum_end(s, pos) - 2)
}

/// Whether the checksum that the v2 frame at `pos` carries is the checksum
/// of its bytes, from the length byte to the end of the payload, and of
/// `extra_crc`.
pub open spec fn v2_checksum_ok(s: Seq<u8>, pos: int, extra_crc: u8) -> bool {
    let end = v2_checksum_end(s, pos);
    frame_checksum(s.subrange(pos + 1, end - 2), extra_crc) == from_le16(s[end - 2], s[end - 1])
}

/// The first position at or behind `pos` that holds the start byte, or the
/// end of the bytes if none does.
pub open spec fn next_start(stx: u8, s: Seq<u8>, pos: int) -> int
    decreases s.len() - pos,
{
    if pos < 0 || pos >= s.len() || s[pos] == stx {
        pos
    } else {
        next_start(stx, s, pos + 1)
    }
}

/// Whether a frame of the given version starts at `pos` with all its bytes
/// there, signature included.
pub open spec fn frame_complete(version: MavlinkVersion, s: Seq<u8>, pos: int) -> bool {
    &&& 0 <= pos < s.len()
    &&& s[pos] == start_byte(version)
    &&& match version {
        MavlinkVersion::V1 => v1_complete(s, pos),
        MavlinkVersion::V2 => v2_complete(s, pos),
    }
}

/// The offset behind the frame of the given version that starts at `pos`,
/// signature included.
pub open spec fn frame_end(version: MavlinkVersion, s: Seq<u8>, pos: int) -> int {
    match version {
        MavlinkVersion::V1 => v1_end(s, pos),
        MavlinkVersion::V2 => v2_end(s, pos),
    }
}

/// The fields of the v1 frame that starts at `pos`.
pub open spec fn v1_frame_at(s: Seq<u8>, pos: int) -> RawFrameView {
    RawFrameView {
        protocol_version: MavlinkVersion::V1,
        header: v1_header(s, pos),
        incompat_flags: 0,
        compat_flags: 0,
        message_id: v1_id(s, pos),
        payload: v1_payload(s, pos),
        checksum: from_le16(s[v1_end(s, pos) - 2], s[v1_end(s, pos) - 1]),
    }
}

/// The fields of the v2 frame that starts at `pos`.
pub open spec fn v2_frame_at(s: Seq<u8>, pos: int) -> RawFrameView {
    RawFrameView {
        protocol_version: MavlinkVersion::V2,
        header: v2_header(s, pos),
        incompat_flags: s[pos + 2],
        compat_flags: s[pos + 3],
        message_id: v2_id(s, pos),
        payload: v2_payload(s, pos),
        checksum: from_le16(s[v2_checksum_end(s, pos) - 2], s[v2_checksum_end(s, pos) - 1]),
    }
}

/// The fields of the frame of the given version that starts at `pos`.
pub open spec fn frame_at(version: MavlinkVersion, s: Seq<u8>, pos: int) -> RawFrameView {
    match version {
        MavlinkVersion::V1 => v1_frame_at(s, pos),
        MavlinkVersion::V2 => v2_frame_at(s, pos),
    }
}

/// What scanning a byte sequence from some position comes to.
pub enum Scan<M> {
    /// A valid frame, and the position just behind it.
    Found { header: MavHeader, msg: M, end: int },
    /// A v2 frame with a good checksum whose payload the catalogue rejects,
    /// and the position just behind it.
    Invalid { end: int },
    /// No valid frame before the bytes ran out. `start` is where the frame
    /// that was cut short begins, or where the bytes end if there is none.
    Incomplete { start: int },
}

impl<M> Scan<M> {
    /// What a read returns for this outcome.
    pub open spec fn result(self) -> Result<(MavHeader, M), ReadError> {
        match self {
            Scan::Found { header, msg, end } => Ok((header, msg)),
            Scan::Invalid { end } => Err(ReadError::InvalidData),
            Scan::Incomplete { start } => Err(ReadError::UnexpectedEof),
        }
    }

    /// Where a read leaves the reader for this outcome.
    pub open spec fn resume(self) -> int {
        match self {
            Scan::Found { header, msg, end } => end,
            Scan::Invalid { end } => end,
            Scan::Incomplete { start } => start,
        }
    }

    /// The same outcome with its position moved by `by`.
    pub open spec fn shifted(self, by: int) -> Scan<M> {
        match self {
            Scan::Found { header, msg, end } => Scan::Found { header, msg, end: end + by },
            Scan::Invalid { end } => Scan::Invalid { end: end + by },
            Scan::Incomplete { start } => Scan::Incomplete { start: start + by },
        }
    }
}

/// The first valid v1 frame at or behind `pos`.
///
/// Every byte that is no start byte is passed over. A frame whose bytes are
/// not all there ends the scan. A complete frame is passed over where its
/// checksum is not the one of its bytes and of the seed of its id, or where
/// the catalogue rejects its payload; scanning goes on behind it.
pub open spec fn scan_v1<M: Message>(s: Seq<u8>, pos: int) -> Scan<M>
    decreases s.len() - pos,
{
    if pos < 0 || pos >= s.len() {
        Scan::Incomplete { start: pos }
    } else if s[pos] != MAV_STX {
        scan_v1::<M>(s, pos + 1)
    } else if !v1_complete(s, pos) {
        Scan::Incomplete { start: pos }
    } else if !v1_checksum_ok(s, pos, M::spec_extra_crc(v1_id(s, pos))) {
        scan_v1::<M>(s, v1_end(s, pos))
    } else {
        match M::spec_parse(MavlinkVersion::V1, v1_id(s, pos), v1_payload(s, pos)) {
            Some(msg) => Scan::Found { header: v1_header(s, pos), msg, end: v1_end(s, pos) },
            None => scan_v1::<M>(s, v1_end(s, pos)),
        }
    }
}

/// The first v2 frame at or behind `pos` that is complete, holds no unknown
/// incompatibility flag and has a good checksum.
///
/// Every byte that is no start byte is passed over. A frame whose bytes are
/// not all there ends the scan. A complete frame is passed over, signature
/// and all, where it holds an incompatibility flag that this codec does not
/// know or where its checksum is not the one of its bytes and of the seed of
/// its id; scanning goes on behind it. A signature is never looked at. Where
/// the catalogue rejects the payload of the frame that was found, the
/// outcome is `Invalid`.
pub open spec fn scan_v2<M: Message>(s: Seq<u8>, pos: int) -> Scan<M>
    decreases s.len() - pos,
{
    if pos < 0 || pos >= s.len() {
        Scan::Incomplete { start: pos }
    } else if s[pos] != MAV_STX_V2 {
        scan_v2::<M>(s, pos + 1)
    } else if !v2_complete(s, pos) {
        Scan::Incomplete { start: pos }
    } else if has_unknown_flags(s[pos + 2]) || !v2_checksum_ok(
        s,
        pos,
        M::spec_extra_crc(v2_id(s, pos)),
    ) {
        scan_v2::<M>(s, v2_end(s, pos))
    } else {
        match M::spec_parse(MavlinkVersion::V2, v2_id(s, pos), v2_payload(s, pos)) {
            Some(msg) => Scan::Found { header: v2_header(s, pos), msg, end: v2_end(s, pos) },
            None => Scan::Invalid { end: v2_end(s, pos) },
        }
    }
}

/// The outcome of scanning in the given version.
pub open spec fn scan<M: Message>(version: MavlinkVersion, s: Seq<u8>, pos: int) -> Scan<M> {
    match version {
        MavlinkVersion::V1 => scan_v1::<M>(s, pos),
        MavlinkVersion::V2 => scan_v2::<M>(s, pos),
    }
}

/// Scanning passes over everything before the next start byte, which lies
/// at or behind the position that scanning starts from.
proof fn lemma_scan_from_next_start<M: Message>(
    version: MavlinkVersion,
    s: Seq<u8>,
    pos: int,
)
    ensures
        scan::<M>(version, s, pos) == scan::<M>(
            version,
            s,
            next_start(start_byte(version), s, pos),
        ),
        pos <= next_start(start_byte(version), s, pos),
        0 <= next_start(start_byte(version), s, pos) < s.len() ==> s[next_start(
            start_byte(version),
            s,
            pos,
        )] == start_byte(version),
    decreases s.len() - pos,
{
    if 0 <= pos < s.len() && s[pos] != start_byte(version) {
        lemma_scan_from_next_start::<M>(version, s, pos + 1);
    }
}

/// The body of a frame that was read is the bytes it was read from: those
/// between the start byte and the checksum.
proof fn lemma_body_is_wire_bytes(version: MavlinkVersion, s: Seq<u8>, pos: int)
    requires
        frame_complete(version, s, pos),
    ensures
        frame_at(version, s, pos).payload.len() <= MAX_PAYLOAD_LEN,
        frame_at(version, s, pos).body() == match version {
            MavlinkVersion::V1 => s.subrange(pos + 1, v1_end(s, pos) - 2),
            MavlinkVersion::V2 => s.subrange(pos + 1, v2_checksum_end(s, pos) - 2),
        },
{
    let frame = frame_at(version, s, pos);
    match version {
        MavlinkVersion::V1 => {
            assert(frame.body() =~= s.subrange(pos + 1, v1_end(s, pos) - 2));
        },
        MavlinkVersion::V2 => {
            let id = v2_id(s, pos);
            assert(le24(id) =~= seq![s[pos + 7], s[pos + 8], s[pos + 9]]);
            assert(frame.body() =~= s.subrange(pos + 1, v2_checksum_end(s, pos) - 2));
        },
    }
}

/// Reads the next frame of the given version from the source as it lies
/// there, whatever its checksum: the frame that begins at the first start
/// byte at or behind the reader's position. The reader ends up behind the
/// frame, behind its signature where it has one. Where the bytes run out
/// first, the reader ends up at that start byte, or at the end of the bytes
/// if there is none.
pub fn read_raw_frame(r: &mut ByteReader, version: MavlinkVersion) -> (res: Result<
    RawFrame,
    ReadError,
>)
    ensures
        final(r).data@ == old(r).data@,
        ({
            let s = old(r).data@;
            let start = next_start(start_byte(version), s, old(r).position as int);
            if frame_complete(version, s, start) {
                &&& res is Ok
                &&& res->Ok_0@ == frame_at(version, s, start)
                &&& final(r).position == frame_end(version, s, start)
            } else {
                &&& res is Err
                &&& res->Err_0 == ReadError::UnexpectedEof
                &&& final(r).position == start
            }
        }),
{
    let stx = match version {
        MavlinkVersion::V1 => MAV_STX,
        MavlinkVersion::V2 => MAV_STX_V2,
    };
    let n = r.data.len();
    let mut pos = r.position;
    // search for the magic framing value indicating start of mavlink message
    while pos < n && r.data[pos] != stx
        invariant
            n == r.data@.len(),
            stx == start_byte(version),
            *r == *old(r),
            next_start(stx, r.data@, pos as int) == next_start(
                stx,
                r.data@,
                old(r).position as int,
            ),
        decreases n - pos,
    {
        pos += 1;
    }
    r.position = pos;
    if pos >= n {
        return Err(ReadError::UnexpectedEof);
    }
    match version {
        MavlinkVersion::V1 => {
            if n - pos < 8 {
                return Err(ReadError::UnexpectedEof);
            }
            let len = r.data[pos + 1] as usize;
            if n - pos - 8 < len {
                return Err(ReadError::UnexpectedEof);
            }
            let end = pos + 8 + len;
            let frame = RawFrame {
                protocol_version: version,
                header: MavHeader {
                    sequence: r.data[pos + 2],
                    system_id: r.data[pos + 3],
                    component_id: r.data[pos + 4],
                },
                incompat_flags: 0,
                compat_flags: 0,
                message_id: r.data[pos + 5] as u32,
                payload: slice_to_vec(slice_subrange(r.data.as_slice(), pos + 6, end - 2)),
                checksum: read_u16_le(slice_subrange(r.data.as_slice(), end - 2, end)),
            };
            r.position = end;
            Ok(frame)
        },
        MavlinkVersion::V2 => {
            if n - pos < 12 {
                return Err(ReadError::UnexpectedEof);
            }
            let payload_len = r.data[pos + 1] as usize;
            let incompat_flags = r.data[pos + 2];
            let signature_len = if incompat_flags & MAVLINK_IFLAG_SIGNED == MAVLINK_IFLAG_SIGNED {
                SIGNATURE_LEN
            } else {
                0
            };
            if n - pos - 12 < payload_len + signature_len {
                return Err(ReadError::UnexpectedEof);
            }
            let crc_end = pos + 12 + payload_len;
            let frame = RawFrame {
                protocol_version: version,
                header: MavHeader {
                    sequence: r.data[pos + 4],
                    system_id: r.data[pos + 5],
                    component_id: r.data[pos + 6],
                },
                incompat_flags,
                compat_flags: r.data[pos + 3],
                message_id: r.data[pos + 7] as u32 + 256 * (r.data[pos + 8] as u32) + 65536 * (
                r.data[pos + 9] as u32),
                payload: slice_to_vec(slice_subrange(r.data.as_slice(), pos + 10, crc_end - 2)),
                checksum: read_u16_le(slice_subrange(r.data.as_slice(), crc_end - 2, crc_end)),
            };
            r.position = crc_end + signature_len;
            Ok(frame)
        },
    }
}

/// Reads a message using the given MAVLink version.
pub fn read_versioned_msg<M: Message>(r: &mut ByteReader, version: MavlinkVersion) -> (res: Result<
    (MavHeader, M),
    ReadError,
>)
    ensures
        final(r).data@ == old(r).data@,
        res == scan::<M>(version, old(r).data@, old(r).position as int).result(),
        final(r).position == scan::<M>(version, old(r).data@, old(r).position as int).resume(),
{
    match version {
        MavlinkVersion::V2 => read_v2_msg(r),
        MavlinkVersion::V1 => read_v1_msg(r),
    }
}

/// Reads a MAVLink v1 message from the source: the first valid frame at or
/// behind the reader's position. Frames with a wrong checksum and frames
/// whose payload the catalogue rejects are skipped. The reader ends up behind
/// the frame it returns, or, when the bytes run out, at the start of the
/// frame that was cut short.
pub fn read_v1_msg<M: Message>(r: &mut ByteReader) -> (res: Result<(MavHeader, M), ReadError>)
    ensures
        final(r).data@ == old(r).data@,
        res == scan_v1::<M>(old(r).data@, old(r).position as int).result(),
        final(r).position == scan_v1::<M>(old(r).data@, old(r).position as int).resume(),
{
    let ghost goal = scan_v1::<M>(r.data@, r.position as int);
    loop
        invariant
            r.data@ == old(r).data@,
            goal == scan_v1::<M>(old(r).data@, old(r).position as int),
            scan_v1::<M>(r.data@, r.position as int) == goal,
        decreases r.data@.len() - r.position,
    {
        let ghost start = next_start(start_byte(MavlinkVersion::V1), r.data@, r.position as int);
        proof {
            lemma_scan_from_next_start::<M>(MavlinkVersion::V1, r.data@, r.position as int);
        }
        let frame = match read_raw_frame(r, MavlinkVersion::V1) {
            Ok(frame) => frame,
            Err(e) => {
                return Err(e);
            },
        };
        proof {
            lemma_body_is_wire_bytes(MavlinkVersion::V1, r.data@, start);
        }
        let recvd_crc = frame.expected_checksum(M::extra_crc(frame.message_id));
        if recvd_crc != frame.checksum {
            // bad crc: ignore message
            continue ;
        }
        if let Some(msg) = M::parse(
            MavlinkVersion::V1,
            frame.message_id,
            frame.payload.as_slice(),
        ) {
            return Ok((frame.header, msg));
        }
    }
}

/// Reads a MAVLink v2 message from the source: the first complete frame at
/// or behind the reader's position that holds no unknown incompatibility flag
/// and has a good checksum. A signature is consumed and ignored. Where the
/// catalogue rejects the payload of that frame, the error is `InvalidData`.
/// The reader ends up behind the frame it returns or rejects, or, when the
/// bytes run out, at the start of the frame that was cut short.
pub fn read_v2_msg<M: Message>(r: &mut ByteReader) -> (res: Result<(MavHeader, M), ReadError>)
    ensures
        final(r).data@ == old(r).data@,
        res == scan_v2::<M>(old(r).data@, old(r).position as int).result(),
        final(r).position == scan_v2::<M>(old(r).data@, old(r).position as int).resume(),
{
    let ghost goal = scan_v2::<M>(r.data@, r.position as int);
    loop
        invariant
            r.data@ == old(r).data@,
            goal == scan_v2::<M>(old(r).data@, old(r).position as int),
            scan_v2::<M>(r.data@, r.position as int) == goal,
        decreases r.data@.len() - r.position,
    {
        let ghost start = next_start(start_byte(MavlinkVersion::V2), r.data@, r.position as int);
        proof {
            lemma_scan_from_next_start::<M>(MavlinkVersion::V2, r.data@, r.position as int);
        }
        let frame = match read_raw_frame(r, MavlinkVersion::V2) {
            Ok(frame) => frame,
            Err(e) => {
                return Err(e);
            },
        };
        proof {
            lemma_body_is_wire_bytes(MavlinkVersion::V2, r.data@, start);
        }
        let recvd_crc = frame.expected_checksum(M::extra_crc(frame.message_id));
        if frame.incompat_flags & !MAVLINK_IFLAG_SIGNED != 0 || recvd_crc != frame.checksum {
            // unknown flags or bad crc: ignore message
            continue ;
        }
        if let Some(msg) = M::parse(
            MavlinkVersion::V2,
            frame.message_id,
            frame.payload.as_slice(),
        ) {
            return Ok((frame.header, msg));
        } else {
            return Err(ReadError::InvalidData);
        }
    }
}

} // verus!
