//! What holds of writing and reading together.

use vstd::prelude::*;
use crate::checksum::frame_checksum;
use crate::endian::{from_le16, le16, le24, lemma_le16_round_trip, lemma_le24_round_trip};
use crate::header::{MavHeader, MavlinkVersion, MAV_STX, MAV_STX_V2};
use crate::message::Message;
use crate::read::{
    frame_at, frame_complete, frame_end, has_unknown_flags, is_signed, next_start, scan,
    v1_complete, v1_end, v1_header, v1_id, v1_payload, v2_complete, v2_end, v2_header, v2_id,
    v2_payload, Scan,
};
use crate::wire::{
    encoded, start_byte, v1_body, v2_body, v2_signed_frame, RawFrameView, MAVLINK_IFLAG_SIGNED,
    MAX_PAYLOAD_LEN, SIGNATURE_LEN,
};

verus! {

/// Whether the id fits the id field of a version's frame: one byte in v1,
/// three bytes in v2.
pub open spec fn id_fits(version: MavlinkVersion, id: u32) -> bool {
    match version {
        MavlinkVersion::V1 => id < 0x100,
        MavlinkVersion::V2 => id < 0x100_0000,
    }
}

/// Whether a message can travel in a frame of the given version and come
/// back: its payload fits the length byte, its id fits the id field, and the
/// catalogue parses its payload under its id back into the message.
pub open spec fn representable<M: Message>(version: MavlinkVersion, msg: M) -> bool {
    &&& msg.spec_ser().len() <= MAX_PAYLOAD_LEN
    &&& id_fits(version, msg.spec_message_id())
    &&& M::spec_parse(version, msg.spec_message_id(), msg.spec_ser()) == Some(msg)
}

proof fn lemma_flag_bits()
    ensures
        !is_signed(0),
        is_signed(MAVLINK_IFLAG_SIGNED),
        !has_unknown_flags(0),
        !has_unknown_flags(MAVLINK_IFLAG_SIGNED),
{
    assert(0u8 & 1u8 != 1u8) by (bit_vector);
    assert(1u8 & 1u8 == 1u8) by (bit_vector);
    assert(0u8 & !1u8 == 0u8) by (bit_vector);
    assert(1u8 & !1u8 == 0u8) by (bit_vector);
}

/// The fields of a v1 frame that lies at offset `pre.len()` of a byte
/// sequence, whatever its checksum bytes are.
proof fn lemma_v1_fields(
    pre: Seq<u8>,
    header: MavHeader,
    id: u32,
    payload: Seq<u8>,
    crc: u16,
    post: Seq<u8>,
)
    requires
        payload.len() <= MAX_PAYLOAD_LEN,
        id < 0x100,
    ensures
        ({
            let s = pre + (seq![MAV_STX] + v1_body(header, id, payload) + le16(crc)) + post;
            let k = pre.len() as int;
            &&& s[k] == MAV_STX
            &&& v1_complete(s, k)
            &&& v1_end(s, k) == k + 8 + payload.len()
            &&& v1_header(s, k) == header
            &&& v1_id(s, k) == id
            &&& v1_payload(s, k) == payload
            &&& s.subrange(k + 1, v1_end(s, k) - 2) == v1_body(header, id, payload)
            &&& from_le16(s[v1_end(s, k) - 2], s[v1_end(s, k) - 1]) == crc
        }),
{
    let body = v1_body(header, id, payload);
    let f = seq![MAV_STX] + body + le16(crc);
    let s = pre + f + post;
    let k = pre.len() as int;
    lemma_le16_round_trip(crc);
    assert(body.len() == 5 + payload.len());
    assert(f.len() == 8 + payload.len());
    assert forall|i: int| 0 <= i < f.len() implies s[k + i] == f[i] by {}
    assert(s[k] == f[0]);
    assert(s[k + 1] == f[1]);
    assert(f[1] == body[0]);
    assert(s[k + 2] == f[2] && s[k + 3] == f[3] && s[k + 4] == f[4] && s[k + 5] == f[5]);
    let end = k + 8 + payload.len();
    assert(s[end - 2] == f[f.len() - 2]);
    assert(s[end - 1] == f[f.len() - 1]);
    assert(f[f.len() - 2] == le16(crc)[0]);
    assert(f[f.len() - 1] == le16(crc)[1]);
    assert(s.subrange(k + 1, end - 2) =~= body);
    assert(s.subrange(k + 6, end - 2) =~= payload);
}

/// The fields of a v2 frame that lies at offset `pre.len()` of a byte
/// sequence, whatever its checksum bytes are, with or without a signature.
proof fn lemma_v2_fields(
    pre: Seq<u8>,
    header: MavHeader,
    incompat_flags: u8,
    compat_flags: u8,
    id: u32,
    payload: Seq<u8>,
    crc: u16,
    signature: Seq<u8>,
    post: Seq<u8>,
)
    requires
        payload.len() <= MAX_PAYLOAD_LEN,
        id < 0x100_0000,
        signature.len() == if is_signed(incompat_flags) {
            SIGNATURE_LEN
        } else {
            0
        },
    ensures
        ({
            let s = pre + (seq![MAV_STX_V2] + v2_body(
                header,
                incompat_flags,
                compat_flags,
                id,
                payload,
            ) + le16(crc) + signature) + post;
            let k = pre.len() as int;
            &&& s[k] == MAV_STX_V2
            &&& v2_complete(s, k)
            &&& v2_end(s, k) == k + 12 + payload.len() + signature.len()
            &&& s[k + 2] == incompat_flags
            &&& s[k + 3] == compat_flags
            &&& v2_header(s, k) == header
            &&& v2_id(s, k) == id
            &&& v2_payload(s, k) == payload
            &&& s.subrange(k + 1, k + 10 + payload.len()) == v2_body(
                header,
                incompat_flags,
                compat_flags,
                id,
                payload,
            )
            &&& from_le16(s[k + 10 + payload.len()], s[k + 11 + payload.len()]) == crc
        }),
{
    let body = v2_body(header, incompat_flags, compat_flags, id, payload);
    let f = seq![MAV_STX_V2] + body + le16(crc) + signature;
    let s = pre + f + post;
    let k = pre.len() as int;
    lemma_le16_round_trip(crc);
    lemma_le24_round_trip(id);
    assert(body.len() == 9 + payload.len());
    assert(f.len() == 12 + payload.len() + signature.len());
    assert forall|i: int| 0 <= i < f.len() implies s[k + i] == f[i] by {}
    assert(s[k] == f[0]);
    assert(s[k + 1] == f[1]);
    assert(s[k + 2] == f[2]);
    assert(s[k + 3] == f[3]);
    assert(f[1] == body[0]);
    assert(f[2] == body[1]);
    assert(f[3] == body[2]);
    assert(s[k + 4] == f[4] && s[k + 5] == f[5] && s[k + 6] == f[6]);
    assert(s[k + 7] == f[7] && s[k + 8] == f[8] && s[k + 9] == f[9]);
    assert(f[7] == le24(id)[0] && f[8] == le24(id)[1] && f[9] == le24(id)[2]);
    let end = k + 12 + payload.len();
    assert(s[end - 2] == f[end - 2 - k]);
    assert(s[end - 1] == f[end - 1 - k]);
    assert(f[end - 2 - k] == le16(crc)[0]);
    assert(f[end - 1 - k] == le16(crc)[1]);
    assert(s.subrange(k + 1, end - 2) =~= body);
    assert(s.subrange(k + 10, end - 2) =~= payload);
}

/// A frame of a representable message is found where it lies, whatever
/// stands before and behind it.
#[verifier::spinoff_prover]
#[verifier::rlimit(40)]
proof fn lemma_frame_found<M: Message>(
    version: MavlinkVersion,
    pre: Seq<u8>,
    header: MavHeader,
    msg: M,
    post: Seq<u8>,
)
    requires
        representable(version, msg),
    ensures
        scan::<M>(version, pre + encoded(version, header, msg) + post, pre.len() as int)
            == (Scan::Found {
            header,
            msg,
            end: (pre.len() + encoded(version, header, msg).len()) as int,
        }),
        encoded(version, header, msg).len() >= 8,
{
    let id = msg.spec_message_id();
    let payload = msg.spec_ser();
    let extra = M::spec_extra_crc(id);
    match version {
        MavlinkVersion::V1 => {
            let crc = frame_checksum(v1_body(header, id, payload), extra);
            lemma_v1_fields(pre, header, id, payload, crc, post);
        },
        MavlinkVersion::V2 => {
            let crc = frame_checksum(v2_body(header, 0, 0, id, payload), extra);
            lemma_flag_bits();
            lemma_v2_fields(pre, header, 0, 0, id, payload, crc, Seq::<u8>::empty(), post);
            assert(encoded(version, header, msg) + Seq::<u8>::empty() =~= encoded(
                version,
                header,
                msg,
            ));
        },
    }
}

/// Bytes that are no start byte are passed over.
proof fn lemma_skip<M: Message>(version: MavlinkVersion, s: Seq<u8>, from: int, to: int)
    requires
        0 <= from <= to <= s.len(),
        forall|i: int| from <= i < to ==> s[i] != start_byte(version),
    ensures
        scan::<M>(version, s, from) == scan::<M>(version, s, to),
    decreases to - from,
{
    if from < to {
        lemma_skip::<M>(version, s, from + 1, to);
    }
}

/// Round trip: reading the frame that was written for a representable
/// message gives back the header, with the sequence number that was written,
/// and the message, and consumes the whole frame. This holds in both
/// versions.
pub proof fn law_round_trip<M: Message>(version: MavlinkVersion, header: MavHeader, msg: M)
    requires
        representable(version, msg),
    ensures
        scan::<M>(version, encoded(version, header, msg), 0) == (Scan::Found {
            header,
            msg,
            end: encoded(version, header, msg).len() as int,
        }),
{
    let f = encoded(version, header, msg);
    lemma_frame_found(version, Seq::<u8>::empty(), header, msg, Seq::<u8>::empty());
    assert(Seq::<u8>::empty() + f + Seq::<u8>::empty() =~= f);
}

/// Resynchronisation: bytes before a valid frame, none of them the start
/// byte, do not change what is read: the same header and message, and the
/// reader ends just behind the frame.
pub proof fn law_resync<M: Message>(
    version: MavlinkVersion,
    garbage: Seq<u8>,
    header: MavHeader,
    msg: M,
)
    requires
        representable(version, msg),
        forall|i: int| 0 <= i < garbage.len() ==> garbage[i] != start_byte(version),
    ensures
        scan::<M>(version, garbage + encoded(version, header, msg), 0) == (Scan::Found {
            header,
            msg,
            end: (garbage.len() + encoded(version, header, msg).len()) as int,
        }),
{
    let f = encoded(version, header, msg);
    let s = garbage + f;
    lemma_frame_found(version, garbage, header, msg, Seq::<u8>::empty());
    assert(garbage + f + Seq::<u8>::empty() =~= s);
    lemma_skip::<M>(version, s, 0, garbage.len() as int);
}

/// Two valid frames one after the other are read as exactly two messages, in
/// order: the first read ends behind the first frame, the second behind the
/// second, and a third finds nothing more.
pub proof fn law_two_frames<M: Message>(
    version: MavlinkVersion,
    header1: MavHeader,
    msg1: M,
    header2: MavHeader,
    msg2: M,
)
    requires
        representable(version, msg1),
        representable(version, msg2),
    ensures
        ({
            let f1 = encoded(version, header1, msg1);
            let f2 = encoded(version, header2, msg2);
            &&& scan::<M>(version, f1 + f2, 0) == (Scan::Found {
                header: header1,
                msg: msg1,
                end: f1.len() as int,
            })
            &&& scan::<M>(version, f1 + f2, f1.len() as int) == (Scan::Found {
                header: header2,
                msg: msg2,
                end: (f1 + f2).len() as int,
            })
            &&& scan::<M>(version, f1 + f2, (f1 + f2).len() as int) == (Scan::<M>::Incomplete {
                start: (f1 + f2).len() as int,
            })
        }),
{
    let f1 = encoded(version, header1, msg1);
    let f2 = encoded(version, header2, msg2);
    lemma_frame_found(version, Seq::<u8>::empty(), header1, msg1, f2);
    assert(Seq::<u8>::empty() + f1 + f2 =~= f1 + f2);
    lemma_frame_found(version, f1, header2, msg2, Seq::<u8>::empty());
    assert(f1 + f2 + Seq::<u8>::empty() =~= f1 + f2);
}

/// Length bound on reading: a frame whose bytes end before the length that
/// it declares is not read. Of a valid frame cut short anywhere, nothing is
/// decoded, and the reader stays at its start.
pub proof fn law_cut_frame_is_incomplete<M: Message>(
    version: MavlinkVersion,
    header: MavHeader,
    msg: M,
    cut: int,
)
    requires
        representable(version, msg),
        0 <= cut < encoded(version, header, msg).len(),
    ensures
        scan::<M>(version, encoded(version, header, msg).subrange(0, cut), 0) == (Scan::<
            M,
        >::Incomplete { start: 0 }),
{
    let f = encoded(version, header, msg);
    let t = f.subrange(0, cut);
    match version {
        MavlinkVersion::V1 => {
            let body = v1_body(header, msg.spec_message_id(), msg.spec_ser());
            assert(f.len() == 8 + msg.spec_ser().len());
            if cut >= 8 {
                assert(t[0] == f[0]);
                assert(t[1] == f[1]);
                assert(f[1] == body[0]);
            } else if cut >= 1 {
                assert(t[0] == f[0]);
            }
        },
        MavlinkVersion::V2 => {
            let body = v2_body(header, 0, 0, msg.spec_message_id(), msg.spec_ser());
            lemma_flag_bits();
            assert(f.len() == 12 + msg.spec_ser().len());
            if cut >= 12 {
                assert(t[0] == f[0]);
                assert(t[1] == f[1]);
                assert(t[2] == f[2]);
                assert(f[1] == body[0]);
                assert(f[2] == body[1]);
            } else if cut >= 1 {
                assert(t[0] == f[0]);
            }
        },
    }
}

/// Checksum integrity: a valid frame whose two checksum bytes are replaced
/// by any other two bytes, be it by a single flipped bit, is skipped, and the
/// reader goes on behind it.
#[verifier::spinoff_prover]
#[verifier::rlimit(40)]
pub proof fn law_wrong_checksum_is_skipped<M: Message>(
    version: MavlinkVersion,
    header: MavHeader,
    msg: M,
    lo: u8,
    hi: u8,
    post: Seq<u8>,
)
    requires
        msg.spec_ser().len() <= MAX_PAYLOAD_LEN,
        id_fits(version, msg.spec_message_id()),
        seq![lo, hi] != encoded(version, header, msg).skip(
            encoded(version, header, msg).len() - 2,
        ),
    ensures
        ({
            let good = encoded(version, header, msg);
            let bad = good.take(good.len() - 2) + seq![lo, hi];
            scan::<M>(version, bad + post, 0) == scan::<M>(version, bad + post, bad.len() as int)
        }),
{
    let id = msg.spec_message_id();
    let payload = msg.spec_ser();
    let extra = M::spec_extra_crc(id);
    let good = encoded(version, header, msg);
    let bad = good.take(good.len() - 2) + seq![lo, hi];
    let crc = from_le16(lo, hi);
    let empty = Seq::<u8>::empty();
    assert(le16(crc) =~= seq![lo, hi]);
    match version {
        MavlinkVersion::V1 => {
            let body = v1_body(header, id, payload);
            assert(good.skip(good.len() - 2) =~= le16(frame_checksum(body, extra)));
            assert(bad =~= seq![MAV_STX] + body + le16(crc));
            lemma_v1_fields(empty, header, id, payload, crc, post);
            assert(empty + bad + post =~= bad + post);
        },
        MavlinkVersion::V2 => {
            let body = v2_body(header, 0, 0, id, payload);
            assert(good.skip(good.len() - 2) =~= le16(frame_checksum(body, extra)));
            assert(bad =~= seq![MAV_STX_V2] + body + le16(crc) + empty);
            lemma_flag_bits();
            lemma_v2_fields(empty, header, 0, 0, id, payload, crc, empty, post);
            assert(empty + bad + post =~= bad + post);
        },
    }
}

/// What is written of a frame is what is read of it: the bytes of a frame,
/// with a signature behind them where its flags announce one, are read back
/// as that frame, field by field, whatever its checksum is and whatever
/// stands behind it. The payload has to fit the length byte and the message
/// id the id field; a v1 frame has no flag bytes.
#[verifier::spinoff_prover]
#[verifier::rlimit(40)]
pub proof fn law_raw_frame_round_trip(frame: RawFrameView, signature: Seq<u8>, post: Seq<u8>)
    requires
        frame.payload.len() <= MAX_PAYLOAD_LEN,
        id_fits(frame.protocol_version, frame.message_id),
        frame.protocol_version == MavlinkVersion::V1 ==> frame.incompat_flags == 0
            && frame.compat_flags == 0,
        signature.len() == if frame.protocol_version == MavlinkVersion::V2 && is_signed(
            frame.incompat_flags,
        ) {
            SIGNATURE_LEN
        } else {
            0
        },
    ensures
        ({
            let version = frame.protocol_version;
            let s = frame.bytes() + signature + post;
            &&& next_start(start_byte(version), s, 0) == 0
            &&& frame_complete(version, s, 0)
            &&& frame_at(version, s, 0) == frame
            &&& frame_end(version, s, 0) == frame.bytes().len() + signature.len()
        }),
{
    let empty = Seq::<u8>::empty();
    let s = frame.bytes() + signature + post;
    match frame.protocol_version {
        MavlinkVersion::V1 => {
            lemma_v1_fields(
                empty,
                frame.header,
                frame.message_id,
                frame.payload,
                frame.checksum,
                post,
            );
            assert(empty + frame.bytes() + post =~= s);
        },
        MavlinkVersion::V2 => {
            lemma_v2_fields(
                empty,
                frame.header,
                frame.incompat_flags,
                frame.compat_flags,
                frame.message_id,
                frame.payload,
                frame.checksum,
                signature,
                post,
            );
            assert(empty + (frame.bytes() + signature) + post =~= s);
        },
    }
}

/// A v2 frame that holds an incompatibility flag other than the signed flag
/// is passed over, however good its checksum is, and the reader goes on
/// behind it and behind its signature, where it has one.
#[verifier::spinoff_prover]
#[verifier::rlimit(40)]
pub proof fn law_unknown_flags_are_skipped<M: Message>(
    frame: RawFrameView,
    signature: Seq<u8>,
    post: Seq<u8>,
)
    requires
        frame.protocol_version == MavlinkVersion::V2,
        frame.payload.len() <= MAX_PAYLOAD_LEN,
        id_fits(frame.protocol_version, frame.message_id),
        has_unknown_flags(frame.incompat_flags),
        signature.len() == if is_signed(frame.incompat_flags) {
            SIGNATURE_LEN
        } else {
            0
        },
    ensures
        ({
            let s = frame.bytes() + signature + post;
            scan::<M>(MavlinkVersion::V2, s, 0) == scan::<M>(
                MavlinkVersion::V2,
                s,
                (frame.bytes().len() + signature.len()) as int,
            )
        }),
{
    let empty = Seq::<u8>::empty();
    let s = frame.bytes() + signature + post;
    lemma_v2_fields(
        empty,
        frame.header,
        frame.incompat_flags,
        frame.compat_flags,
        frame.message_id,
        frame.payload,
        frame.checksum,
        signature,
        post,
    );
    assert(empty + (frame.bytes() + signature) + post =~= s);
}

/// Signature skip: a v2 frame with the signed flag and any 13-byte signature
/// is read as the same header and message as the unsigned frame, the
/// signature is consumed with it, and what is written for that message has
/// both flag bytes zero and ends with its checksum.
#[verifier::spinoff_prover]
#[verifier::rlimit(40)]
pub proof fn law_signature_skip<M: Message>(header: MavHeader, msg: M, signature: Seq<u8>)
    requires
        representable(MavlinkVersion::V2, msg),
        signature.len() == SIGNATURE_LEN,
    ensures
        ({
            let id = msg.spec_message_id();
            let signed = v2_signed_frame(
                header,
                id,
                msg.spec_ser(),
                M::spec_extra_crc(id),
                signature,
            );
            let unsigned = encoded(MavlinkVersion::V2, header, msg);
            &&& scan::<M>(MavlinkVersion::V2, signed, 0) == (Scan::Found { header, msg, end: signed.len() as int })
            &&& scan::<M>(MavlinkVersion::V2, signed, 0).result() == scan::<M>(MavlinkVersion::V2, unsigned, 0).result()
            &&& unsigned.len() == 12 + msg.spec_ser().len()
            &&& unsigned[2] == 0
            &&& unsigned[3] == 0
        }),
{
    let id = msg.spec_message_id();
    let payload = msg.spec_ser();
    let extra = M::spec_extra_crc(id);
    let signed = v2_signed_frame(header, id, payload, extra, signature);
    let unsigned = encoded(MavlinkVersion::V2, header, msg);
    let empty = Seq::<u8>::empty();
    let body = v2_body(header, MAVLINK_IFLAG_SIGNED, 0, id, payload);
    lemma_flag_bits();
    lemma_v2_fields(
        empty,
        header,
        MAVLINK_IFLAG_SIGNED,
        0,
        id,
        payload,
        frame_checksum(body, extra),
        signature,
        empty,
    );
    assert(empty + signed + empty =~= signed);
    law_round_trip(MavlinkVersion::V2, header, msg);
    let plain = v2_body(header, 0, 0, id, payload);
    assert(unsigned[2] == plain[1]);
    assert(unsigned[3] == plain[2]);
}

/// Scanning looks only at the bytes that are there: with more bytes behind
/// them, a frame that was found or rejected is found or rejected as before,
/// and where the bytes ran out, scanning the longer input comes to what
/// scanning it from the start of the unfinished frame comes to. So a reader
/// that ran out of bytes can be given more and asked again.
#[verifier::spinoff_prover]
#[verifier::rlimit(40)]
pub proof fn law_more_input<M: Message>(
    version: MavlinkVersion,
    s: Seq<u8>,
    more: Seq<u8>,
    pos: int,
)
    ensures
        match scan::<M>(version, s, pos) {
            Scan::Incomplete { start } => scan::<M>(version, s + more, pos) == scan::<M>(
                version,
                s + more,
                start,
            ),
            outcome => scan::<M>(version, s + more, pos) == outcome,
        },
    decreases s.len() - pos,
{
    let t = s + more;
    if 0 <= pos < s.len() {
        assert(t[pos] == s[pos]);
        match version {
            MavlinkVersion::V1 => {
                if s[pos] != MAV_STX {
                    law_more_input::<M>(version, s, more, pos + 1);
                } else if v1_complete(s, pos) {
                    let end = v1_end(s, pos);
                    assert(t[pos + 1] == s[pos + 1]);
                    assert(t[pos + 2] == s[pos + 2] && t[pos + 3] == s[pos + 3] && t[pos + 4]
                        == s[pos + 4] && t[pos + 5] == s[pos + 5]);
                    assert(t[end - 2] == s[end - 2] && t[end - 1] == s[end - 1]);
                    assert(t.subrange(pos + 1, end - 2) =~= s.subrange(pos + 1, end - 2));
                    assert(t.subrange(pos + 6, end - 2) =~= s.subrange(pos + 6, end - 2));
                    law_more_input::<M>(version, s, more, end);
                }
            },
            MavlinkVersion::V2 => {
                if s[pos] != MAV_STX_V2 {
                    law_more_input::<M>(version, s, more, pos + 1);
                } else if v2_complete(s, pos) {
                    let end = v2_end(s, pos);
                    let crc_end = pos + 12 + s[pos + 1];
                    assert(t[pos + 1] == s[pos + 1] && t[pos + 2] == s[pos + 2]);
                    assert(t[pos + 4] == s[pos + 4] && t[pos + 5] == s[pos + 5] && t[pos + 6]
                        == s[pos + 6]);
                    assert(t[pos + 7] == s[pos + 7] && t[pos + 8] == s[pos + 8] && t[pos + 9]
                        == s[pos + 9]);
                    assert(t[crc_end - 2] == s[crc_end - 2] && t[crc_end - 1] == s[crc_end - 1]);
                    assert(t.subrange(pos + 1, crc_end - 2) =~= s.subrange(pos + 1, crc_end - 2));
                    assert(t.subrange(pos + 10, crc_end - 2) =~= s.subrange(
                        pos + 10,
                        crc_end - 2,
                    ));
                    law_more_input::<M>(version, s, more, end);
                }
            },
        }
    }
}

/// Scanning looks only at the bytes from its position on: without the bytes
/// before `from`, the outcome is the same, with its position counted from
/// `from`. So a reader can drop the bytes that it has consumed.
#[verifier::spinoff_prover]
#[verifier::rlimit(40)]
pub proof fn law_consumed_bytes<M: Message>(
    version: MavlinkVersion,
    s: Seq<u8>,
    from: int,
    pos: int,
)
    requires
        0 <= from <= pos,
        from <= s.len(),
    ensures
        scan::<M>(version, s.skip(from), pos - from) == scan::<M>(version, s, pos).shifted(-from),
    decreases s.len() - pos,
{
    let t = s.skip(from);
    let q = pos - from;
    if pos < s.len() {
        assert(t[q] == s[pos]);
        match version {
            MavlinkVersion::V1 => {
                if s[pos] != MAV_STX {
                    law_consumed_bytes::<M>(version, s, from, pos + 1);
                } else if pos + 8 <= s.len() {
                    assert(t[q + 1] == s[pos + 1]);
                    if v1_complete(s, pos) {
                        let end = v1_end(s, pos);
                        assert(t[q + 2] == s[pos + 2] && t[q + 3] == s[pos + 3] && t[q + 4]
                            == s[pos + 4] && t[q + 5] == s[pos + 5]);
                        assert(t[end - from - 2] == s[end - 2] && t[end - from - 1] == s[end
                            - 1]);
                        assert(t.subrange(q + 1, end - from - 2) =~= s.subrange(
                            pos + 1,
                            end - 2,
                        ));
                        assert(t.subrange(q + 6, end - from - 2) =~= s.subrange(
                            pos + 6,
                            end - 2,
                        ));
                        law_consumed_bytes::<M>(version, s, from, end);
                    }
                }
            },
            MavlinkVersion::V2 => {
                if s[pos] != MAV_STX_V2 {
                    law_consumed_bytes::<M>(version, s, from, pos + 1);
                } else if pos + 12 <= s.len() {
                    assert(t[q + 1] == s[pos + 1] && t[q + 2] == s[pos + 2]);
                    if v2_complete(s, pos) {
                        let end = v2_end(s, pos);
                        let crc_end = pos + 12 + s[pos + 1];
                        assert(t[q + 4] == s[pos + 4] && t[q + 5] == s[pos + 5] && t[q + 6]
                            == s[pos + 6]);
                        assert(t[q + 7] == s[pos + 7] && t[q + 8] == s[pos + 8] && t[q + 9]
                            == s[pos + 9]);
                        assert(t[crc_end - from - 2] == s[crc_end - 2] && t[crc_end - from - 1]
                            == s[crc_end - 1]);
                        assert(t.subrange(q + 1, crc_end - from - 2) =~= s.subrange(
                            pos + 1,
                            crc_end - 2,
                        ));
                        assert(t.subrange(q + 10, crc_end - from - 2) =~= s.subrange(
                            pos + 10,
                            crc_end - 2,
                        ));
                        law_consumed_bytes::<M>(version, s, from, end);
                    }
                }
            },
        }
    }
}

} // verus!
