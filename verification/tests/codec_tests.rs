use mavlink::{
    read_v1_msg, read_v2_msg, read_versioned_msg, write_v1_msg, write_v2_msg,
    write_versioned_msg, ByteReader, MavHeader, MavlinkVersion, RawMessage, ReadError,
    WriteError, MAV_STX, MAV_STX_V2,
};

type Heartbeat = RawMessage<0, 50, 9>;
type ParamValue = RawMessage<22, 220, 25>;

const HEARTBEAT_V1: [u8; 17] = [
    0xfe, 0x09, 0xef, 0x01, 0x01, 0x00, 0x05, 0x00, 0x00, 0x00, 0x02, 0x03, 0x59, 0x03, 0x03,
    0xf1, 0xd7,
];

const HEARTBEAT_V2: [u8; 21] = [
    0xfd, 0x09, 0x00, 0x00, 0xef, 0x01, 0x01, 0x00, 0x00, 0x00, 0x05, 0x00, 0x00, 0x00, 0x02,
    0x03, 0x59, 0x03, 0x03, 16, 240,
];

fn sample_header() -> MavHeader {
    MavHeader { sequence: 239, system_id: 1, component_id: 1 }
}

fn sample_heartbeat() -> Heartbeat {
    RawMessage { payload: [0x05, 0x00, 0x00, 0x00, 0x02, 0x03, 0x59, 0x03, 0x03] }
}

/// HEARTBEAT{custom_mode=0, type=QUADROTOR, autopilot=ARDUPILOTMEGA,
/// base_mode=0, system_status=STANDBY, mavlink_version=3}.
fn standby_heartbeat() -> Heartbeat {
    RawMessage { payload: [0, 0, 0, 0, 2, 3, 0, 3, 3] }
}

fn sample_param_value() -> ParamValue {
    let mut payload = [0u8; 25];
    payload[0..4].copy_from_slice(&1.5f32.to_le_bytes());
    payload[4..6].copy_from_slice(&300u16.to_le_bytes());
    payload[6..8].copy_from_slice(&7u16.to_le_bytes());
    payload[8..16].copy_from_slice(b"RATE_RLL");
    payload[24] = 9;
    RawMessage { payload }
}

fn reader(data: &[u8]) -> ByteReader {
    ByteReader { data: data.to_vec(), position: 0 }
}

fn checksum(body: &[u8], extra_crc: u8) -> [u8; 2] {
    let mut input = body.to_vec();
    input.push(extra_crc);
    crc16::State::<crc16::MCRF4XX>::calculate(&input).to_le_bytes()
}

/// A v2 frame with the given flag bytes and id, with a checksum that is
/// right for `extra_crc`, and `tail` behind it.
fn v2_frame_with(
    incompat_flags: u8,
    compat_flags: u8,
    header: MavHeader,
    id: u32,
    payload: &[u8],
    extra_crc: u8,
    tail: &[u8],
) -> Vec<u8> {
    let mut body = vec![
        payload.len() as u8,
        incompat_flags,
        compat_flags,
        header.sequence,
        header.system_id,
        header.component_id,
        id as u8,
        (id >> 8) as u8,
        (id >> 16) as u8,
    ];
    body.extend_from_slice(payload);
    let crc = checksum(&body, extra_crc);
    let mut frame = vec![MAV_STX_V2];
    frame.extend_from_slice(&body);
    frame.extend_from_slice(&crc);
    frame.extend_from_slice(tail);
    frame
}

/// A v1 frame with a checksum that is right for `extra_crc`.
fn v1_frame_with(header: MavHeader, id: u8, payload: &[u8], extra_crc: u8) -> Vec<u8> {
    let mut body = vec![
        payload.len() as u8,
        header.sequence,
        header.system_id,
        header.component_id,
        id,
    ];
    body.extend_from_slice(payload);
    let crc = checksum(&body, extra_crc);
    let mut frame = vec![MAV_STX];
    frame.extend_from_slice(&body);
    frame.extend_from_slice(&crc);
    frame
}

/// Bytes that look random and hold neither start byte.
fn garbage(seed: u32, len: usize) -> Vec<u8> {
    let mut state = seed;
    let mut out = Vec::new();
    while out.len() < len {
        state = state.wrapping_mul(1664525).wrapping_add(1013904223);
        let byte = (state >> 24) as u8;
        if byte != MAV_STX && byte != MAV_STX_V2 {
            out.push(byte);
        }
    }
    out
}

#[test]
fn start_bytes() {
    assert_eq!(MAV_STX, 0xFE);
    assert_eq!(MAV_STX_V2, 0xFD);
}

#[test]
fn write_v1_heartbeat_bytes() {
    let mut w = Vec::new();
    write_v1_msg(&mut w, sample_header(), &sample_heartbeat()).unwrap();
    assert_eq!(w, HEARTBEAT_V1.to_vec());
}

#[test]
fn write_v2_heartbeat_bytes() {
    let mut w = Vec::new();
    write_v2_msg(&mut w, sample_header(), &sample_heartbeat()).unwrap();
    assert_eq!(w, HEARTBEAT_V2.to_vec());
}

#[test]
fn write_appends_to_the_sink() {
    let mut w = vec![1, 2, 3];
    write_v1_msg(&mut w, sample_header(), &sample_heartbeat()).unwrap();
    assert_eq!(&w[..3], &[1, 2, 3]);
    assert_eq!(&w[3..], &HEARTBEAT_V1[..]);
}

#[test]
fn write_versioned_picks_the_layout() {
    let mut v1 = Vec::new();
    write_versioned_msg(&mut v1, MavlinkVersion::V1, sample_header(), &sample_heartbeat())
        .unwrap();
    assert_eq!(v1, HEARTBEAT_V1.to_vec());
    let mut v2 = Vec::new();
    write_versioned_msg(&mut v2, MavlinkVersion::V2, sample_header(), &sample_heartbeat())
        .unwrap();
    assert_eq!(v2, HEARTBEAT_V2.to_vec());
}

#[test]
fn write_v2_id_is_three_bytes_little_endian() {
    let msg: RawMessage<0x123456, 7, 2> = RawMessage { payload: [0xAA, 0xBB] };
    let mut w = Vec::new();
    write_v2_msg(&mut w, sample_header(), &msg).unwrap();
    assert_eq!(&w[..12], &[0xfd, 2, 0, 0, 239, 1, 1, 0x56, 0x34, 0x12, 0xAA, 0xBB]);
    assert_eq!(&w[12..], &checksum(&w[1..12], 7));
    assert_eq!(w.len(), 14);
}

#[test]
fn write_v2_keeps_the_low_three_bytes_of_the_id() {
    let msg: RawMessage<0xAB123456, 7, 0> = RawMessage { payload: [] };
    let mut w = Vec::new();
    write_v2_msg(&mut w, sample_header(), &msg).unwrap();
    assert_eq!(&w[7..10], &[0x56, 0x34, 0x12]);
}

#[test]
fn write_v1_keeps_the_low_byte_of_the_id() {
    let msg: RawMessage<0x1FE, 9, 1> = RawMessage { payload: [0x11] };
    let mut w = Vec::new();
    write_v1_msg(&mut w, sample_header(), &msg).unwrap();
    assert_eq!(&w[..7], &[0xfe, 1, 239, 1, 1, 0xFE, 0x11]);
    assert_eq!(&w[7..], &checksum(&w[1..7], 9));
}

#[test]
fn write_refuses_a_payload_of_more_than_255_bytes() {
    let msg: RawMessage<1, 0, 256> = RawMessage { payload: [0; 256] };
    let mut w = vec![9];
    assert_eq!(write_v1_msg(&mut w, sample_header(), &msg), Err(WriteError::PayloadTooLong));
    assert_eq!(write_v2_msg(&mut w, sample_header(), &msg), Err(WriteError::PayloadTooLong));
    assert_eq!(
        write_versioned_msg(&mut w, MavlinkVersion::V2, sample_header(), &msg),
        Err(WriteError::PayloadTooLong)
    );
    assert_eq!(w, vec![9]);
}

#[test]
fn payload_of_255_bytes_round_trips() {
    let mut payload = [0u8; 255];
    for (i, b) in payload.iter_mut().enumerate() {
        *b = i as u8;
    }
    let msg: RawMessage<77, 3, 255> = RawMessage { payload };
    for version in [MavlinkVersion::V1, MavlinkVersion::V2] {
        let mut w = Vec::new();
        write_versioned_msg(&mut w, version, sample_header(), &msg).unwrap();
        assert_eq!(w[1], 255);
        let mut r = reader(&w);
        let (header, back) =
            read_versioned_msg::<RawMessage<77, 3, 255>>(&mut r, version).unwrap();
        assert_eq!(header, sample_header());
        assert_eq!(back, msg);
        assert_eq!(r.position, w.len());
    }
}

#[test]
fn empty_payload_round_trips() {
    let msg: RawMessage<5, 1, 0> = RawMessage { payload: [] };
    let mut w = Vec::new();
    write_v1_msg(&mut w, sample_header(), &msg).unwrap();
    assert_eq!(w.len(), 8);
    let mut r = reader(&w);
    assert_eq!(read_v1_msg::<RawMessage<5, 1, 0>>(&mut r), Ok((sample_header(), msg)));
    let mut w = Vec::new();
    write_v2_msg(&mut w, sample_header(), &msg).unwrap();
    assert_eq!(w.len(), 12);
    let mut r = reader(&w);
    assert_eq!(read_v2_msg::<RawMessage<5, 1, 0>>(&mut r), Ok((sample_header(), msg)));
}

#[test]
fn read_v1_heartbeat() {
    let mut r = reader(&HEARTBEAT_V1);
    let (header, msg) = read_v1_msg::<Heartbeat>(&mut r).unwrap();
    assert_eq!(header, sample_header());
    assert_eq!(msg, sample_heartbeat());
    assert_eq!(r.position, 17);
    assert_eq!(r.data, HEARTBEAT_V1.to_vec());
}

#[test]
fn read_v2_heartbeat() {
    let mut r = reader(&HEARTBEAT_V2);
    let (header, msg) = read_v2_msg::<Heartbeat>(&mut r).unwrap();
    assert_eq!(header, sample_header());
    assert_eq!(msg, sample_heartbeat());
    assert_eq!(r.position, 21);
}

#[test]
fn read_versioned_picks_the_layout() {
    let mut r = reader(&HEARTBEAT_V1);
    assert_eq!(
        read_versioned_msg::<Heartbeat>(&mut r, MavlinkVersion::V1),
        Ok((sample_header(), sample_heartbeat()))
    );
    let mut r = reader(&HEARTBEAT_V2);
    assert_eq!(
        read_versioned_msg::<Heartbeat>(&mut r, MavlinkVersion::V2),
        Ok((sample_header(), sample_heartbeat()))
    );
    // A v1 reader finds no v1 frame in a v2 frame.
    let mut r = reader(&HEARTBEAT_V2);
    assert_eq!(
        read_versioned_msg::<Heartbeat>(&mut r, MavlinkVersion::V1),
        Err(ReadError::UnexpectedEof)
    );
}

#[test]
fn read_v2_id_is_zero_extended() {
    let header = sample_header();
    let frame = v2_frame_with(0, 0, header, 0x80FFEE, &[1, 2], 4, &[]);
    let mut r = reader(&frame);
    let (_, msg) = read_v2_msg::<RawMessage<0x80FFEE, 4, 2>>(&mut r).unwrap();
    assert_eq!(msg.payload, [1, 2]);
}

#[test]
fn read_accepts_a_short_payload_and_fills_with_zeros() {
    let frame = v1_frame_with(sample_header(), 0, &[5, 0, 0, 0, 2], 50);
    let mut r = reader(&frame);
    let (_, msg) = read_v1_msg::<Heartbeat>(&mut r).unwrap();
    assert_eq!(msg.payload, [5, 0, 0, 0, 2, 0, 0, 0, 0]);
}

#[test]
fn round_trip_in_both_versions() {
    for version in [MavlinkVersion::V1, MavlinkVersion::V2] {
        for seq in [0u8, 1, 127, 255] {
            let header = MavHeader { sequence: seq, system_id: 42, component_id: 200 };
            let msg = sample_param_value();
            let mut w = Vec::new();
            write_versioned_msg(&mut w, version, header, &msg).unwrap();
            let mut r = reader(&w);
            assert_eq!(read_versioned_msg::<ParamValue>(&mut r, version), Ok((header, msg)));
            assert_eq!(r.position, w.len());
        }
    }
}

#[test]
fn read_of_nothing_is_end_of_input() {
    let mut r = reader(&[]);
    assert_eq!(read_v1_msg::<Heartbeat>(&mut r), Err(ReadError::UnexpectedEof));
    assert_eq!(r.position, 0);
    assert_eq!(read_v2_msg::<Heartbeat>(&mut r), Err(ReadError::UnexpectedEof));
    assert_eq!(r.position, 0);
}

#[test]
fn read_behind_the_end_is_end_of_input() {
    let mut r = ByteReader { data: HEARTBEAT_V1.to_vec(), position: 40 };
    assert_eq!(read_v1_msg::<Heartbeat>(&mut r), Err(ReadError::UnexpectedEof));
    assert_eq!(r.position, 40);
}

#[test]
fn flipping_any_single_bit_makes_the_reader_skip_the_frame() {
    for i in 0..HEARTBEAT_V1.len() * 8 {
        let mut frame = HEARTBEAT_V1.to_vec();
        frame[i / 8] ^= 1 << (i % 8);
        let mut r = reader(&frame);
        assert_eq!(read_v1_msg::<Heartbeat>(&mut r), Err(ReadError::UnexpectedEof), "bit {}", i);
    }
    for i in 0..HEARTBEAT_V2.len() * 8 {
        let mut frame = HEARTBEAT_V2.to_vec();
        frame[i / 8] ^= 1 << (i % 8);
        let mut r = reader(&frame);
        assert_eq!(read_v2_msg::<Heartbeat>(&mut r), Err(ReadError::UnexpectedEof), "bit {}", i);
    }
}

#[test]
fn a_wrong_checksum_is_skipped_and_reading_goes_on_behind_the_frame() {
    let mut data = HEARTBEAT_V1.to_vec();
    data[15] = 0x00;
    data.extend_from_slice(&HEARTBEAT_V1);
    let mut r = reader(&data);
    assert_eq!(read_v1_msg::<Heartbeat>(&mut r), Ok((sample_header(), sample_heartbeat())));
    assert_eq!(r.position, 34);
}

#[test]
fn garbage_before_a_frame_changes_nothing() {
    for k in [1usize, 2, 17, 300] {
        let mut data = garbage(k as u32, k);
        data.extend_from_slice(&HEARTBEAT_V1);
        let mut r = reader(&data);
        assert_eq!(read_v1_msg::<Heartbeat>(&mut r), Ok((sample_header(), sample_heartbeat())));
        assert_eq!(r.position, k + 17);

        let mut data = garbage(k as u32 + 1000, k);
        data.extend_from_slice(&HEARTBEAT_V2);
        let mut r = reader(&data);
        assert_eq!(read_v2_msg::<Heartbeat>(&mut r), Ok((sample_header(), sample_heartbeat())));
        assert_eq!(r.position, k + 21);
    }
}

#[test]
fn two_frames_are_two_messages_in_order() {
    let first = MavHeader { sequence: 1, system_id: 10, component_id: 20 };
    let second = MavHeader { sequence: 2, system_id: 10, component_id: 20 };
    for version in [MavlinkVersion::V1, MavlinkVersion::V2] {
        let mut data = Vec::new();
        write_versioned_msg(&mut data, version, first, &sample_heartbeat()).unwrap();
        let first_len = data.len();
        write_versioned_msg(&mut data, version, second, &standby_heartbeat()).unwrap();
        let mut r = reader(&data);
        assert_eq!(
            read_versioned_msg::<Heartbeat>(&mut r, version),
            Ok((first, sample_heartbeat()))
        );
        assert_eq!(r.position, first_len);
        assert_eq!(
            read_versioned_msg::<Heartbeat>(&mut r, version),
            Ok((second, standby_heartbeat()))
        );
        assert_eq!(r.position, data.len());
        assert_eq!(
            read_versioned_msg::<Heartbeat>(&mut r, version),
            Err(ReadError::UnexpectedEof)
        );
        assert_eq!(r.position, data.len());
    }
}

#[test]
fn a_frame_cut_short_is_not_read() {
    for cut in 0..HEARTBEAT_V1.len() {
        let mut r = reader(&HEARTBEAT_V1[..cut]);
        assert_eq!(read_v1_msg::<Heartbeat>(&mut r), Err(ReadError::UnexpectedEof));
        assert_eq!(r.position, 0);
    }
    for cut in 0..HEARTBEAT_V2.len() {
        let mut r = reader(&HEARTBEAT_V2[..cut]);
        assert_eq!(read_v2_msg::<Heartbeat>(&mut r), Err(ReadError::UnexpectedEof));
        assert_eq!(r.position, 0);
    }
}

#[test]
fn a_declared_length_beyond_the_input_is_not_read() {
    let mut frame = HEARTBEAT_V1.to_vec();
    frame[1] = 200;
    let mut r = reader(&frame);
    assert_eq!(read_v1_msg::<Heartbeat>(&mut r), Err(ReadError::UnexpectedEof));
    assert_eq!(r.position, 0);
}

#[test]
fn reading_resumes_when_more_bytes_arrive() {
    let mut data = garbage(3, 5);
    data.extend_from_slice(&HEARTBEAT_V2[..12]);
    let mut r = reader(&data);
    assert_eq!(read_v2_msg::<Heartbeat>(&mut r), Err(ReadError::UnexpectedEof));
    assert_eq!(r.position, 5);
    r.data.extend_from_slice(&HEARTBEAT_V2[12..]);
    assert_eq!(read_v2_msg::<Heartbeat>(&mut r), Ok((sample_header(), sample_heartbeat())));
    assert_eq!(r.position, 26);
}

#[test]
fn a_signed_v2_frame_is_read_and_its_signature_dropped() {
    let header = sample_header();
    let msg = sample_heartbeat();
    for fill in [0x00u8, 0x5A, 0xFD, 0xFF] {
        let signature = [fill; 13];
        let signed = v2_frame_with(0x01, 0, header, 0, &msg.payload, 50, &signature);
        assert_eq!(signed.len(), 21 + 13);
        let mut data = signed.clone();
        data.extend_from_slice(&HEARTBEAT_V2);
        let mut r = reader(&data);
        let got = read_v2_msg::<Heartbeat>(&mut r);
        assert_eq!(got, Ok((header, msg)));
        assert_eq!(r.position, 34);

        let mut plain = reader(&HEARTBEAT_V2);
        assert_eq!(read_v2_msg::<Heartbeat>(&mut plain), got);

        // What is written for the message is unsigned.
        let (header, msg) = got.unwrap();
        let mut w = Vec::new();
        write_v2_msg(&mut w, header, &msg).unwrap();
        assert_eq!(w, HEARTBEAT_V2.to_vec());
        assert_eq!(w[2], 0);

        assert_eq!(read_v2_msg::<Heartbeat>(&mut r), Ok((header, msg)));
        assert_eq!(r.position, data.len());
    }
}

#[test]
fn a_signed_frame_without_its_signature_is_incomplete() {
    let signed = v2_frame_with(0x01, 0, sample_header(), 0, &sample_heartbeat().payload, 50, &[]);
    let mut data = signed.clone();
    data.extend_from_slice(&[0u8; 12]);
    let mut r = reader(&data);
    assert_eq!(read_v2_msg::<Heartbeat>(&mut r), Err(ReadError::UnexpectedEof));
    assert_eq!(r.position, 0);
}

#[test]
fn an_unknown_incompat_flag_makes_the_reader_skip_the_frame() {
    let payload = sample_heartbeat().payload;
    for flags in [0x02u8, 0x80, 0x03] {
        let tail: Vec<u8> = if flags & 1 == 1 { vec![7; 13] } else { Vec::new() };
        let mut data = v2_frame_with(flags, 0, sample_header(), 0, &payload, 50, &tail);
        let skipped = data.len();
        data.extend_from_slice(&HEARTBEAT_V2);
        let mut r = reader(&data);
        assert_eq!(read_v2_msg::<Heartbeat>(&mut r), Ok((sample_header(), sample_heartbeat())));
        assert_eq!(r.position, skipped + 21);
    }
}

#[test]
fn compat_flags_do_not_matter() {
    let payload = sample_heartbeat().payload;
    let data = v2_frame_with(0, 0xFF, sample_header(), 0, &payload, 50, &[]);
    let mut r = reader(&data);
    assert_eq!(read_v2_msg::<Heartbeat>(&mut r), Ok((sample_header(), sample_heartbeat())));
}

#[test]
fn v2_reports_a_payload_that_the_catalogue_rejects() {
    // Id 9 is unknown to the heartbeat catalogue, whose seed for it is 0.
    let mut data = v2_frame_with(0, 0, sample_header(), 9, &[1, 2, 3], 0, &[]);
    let rejected = data.len();
    data.extend_from_slice(&HEARTBEAT_V2);
    let mut r = reader(&data);
    assert_eq!(read_v2_msg::<Heartbeat>(&mut r), Err(ReadError::InvalidData));
    assert_eq!(r.position, rejected);
    assert_eq!(read_v2_msg::<Heartbeat>(&mut r), Ok((sample_header(), sample_heartbeat())));
}

#[test]
fn v2_reports_a_payload_that_is_too_long_for_the_message() {
    let data = v2_frame_with(0, 0, sample_header(), 0, &[0; 10], 50, &[]);
    let mut r = reader(&data);
    assert_eq!(read_v2_msg::<Heartbeat>(&mut r), Err(ReadError::InvalidData));
}

#[test]
fn v1_skips_a_payload_that_the_catalogue_rejects() {
    let mut data = v1_frame_with(sample_header(), 9, &[1, 2, 3], 0);
    let skipped = data.len();
    data.extend_from_slice(&HEARTBEAT_V1);
    let mut r = reader(&data);
    assert_eq!(read_v1_msg::<Heartbeat>(&mut r), Ok((sample_header(), sample_heartbeat())));
    assert_eq!(r.position, skipped + 17);
}

#[test]
fn v1_unknown_message_id_is_skipped_until_the_input_ends() {
    let mut frame = HEARTBEAT_V1.to_vec();
    frame[5] = 0x2A;
    let mut r = reader(&frame);
    assert_eq!(read_v1_msg::<Heartbeat>(&mut r), Err(ReadError::UnexpectedEof));
    assert_eq!(r.position, frame.len());

    let frame = v1_frame_with(sample_header(), 0x2A, &sample_heartbeat().payload, 0);
    let mut r = reader(&frame);
    assert_eq!(read_v1_msg::<Heartbeat>(&mut r), Err(ReadError::UnexpectedEof));
    assert_eq!(r.position, frame.len());
}

#[test]
fn corrupted_payload_then_valid_frame_gives_the_second_message_only() {
    let first = MavHeader { sequence: 7, system_id: 1, component_id: 1 };
    let second = MavHeader { sequence: 8, system_id: 1, component_id: 1 };
    for version in [MavlinkVersion::V1, MavlinkVersion::V2] {
        let mut data = Vec::new();
        write_versioned_msg(&mut data, version, first, &sample_heartbeat()).unwrap();
        let first_len = data.len();
        data[first_len - 5] ^= 0x40;
        write_versioned_msg(&mut data, version, second, &standby_heartbeat()).unwrap();
        let mut r = reader(&data);
        assert_eq!(
            read_versioned_msg::<Heartbeat>(&mut r, version),
            Ok((second, standby_heartbeat()))
        );
        assert_eq!(r.position, data.len());
        assert_eq!(
            read_versioned_msg::<Heartbeat>(&mut r, version),
            Err(ReadError::UnexpectedEof)
        );
    }
}

#[test]
fn byte_stream_with_garbage_between_a_v2_heartbeat_and_a_v1_param_value() {
    let heartbeat_header = MavHeader { sequence: 3, system_id: 1, component_id: 1 };
    let param_header = MavHeader { sequence: 4, system_id: 1, component_id: 1 };

    let mut data = garbage(11, 37);
    write_v2_msg(&mut data, heartbeat_header, &standby_heartbeat()).unwrap();
    let behind_heartbeat = data.len();
    data.extend_from_slice(&garbage(12, 53));
    write_v1_msg(&mut data, param_header, &sample_param_value()).unwrap();
    let behind_param = data.len();
    data.extend_from_slice(&garbage(13, 5));

    let mut r = reader(&data);
    assert_eq!(read_v2_msg::<Heartbeat>(&mut r), Ok((heartbeat_header, standby_heartbeat())));
    assert_eq!(r.position, behind_heartbeat);
    assert_eq!(read_v1_msg::<ParamValue>(&mut r), Ok((param_header, sample_param_value())));
    assert_eq!(r.position, behind_param);
    assert_eq!(read_v1_msg::<ParamValue>(&mut r), Err(ReadError::UnexpectedEof));
    assert_eq!(r.position, data.len());
}

#[test]
fn three_heartbeats_in_a_row() {
    let mut data = Vec::new();
    for _ in 0..3 {
        write_v2_msg(&mut data, MavHeader::get_default_header(), &standby_heartbeat()).unwrap();
    }
    let mut r = reader(&data);
    let mut recv_count = 0;
    for _ in 0..3 {
        match read_v2_msg::<Heartbeat>(&mut r) {
            Ok((header, msg)) => {
                assert_eq!(header.system_id, 255);
                assert_eq!(msg, standby_heartbeat());
                recv_count += 1;
            }
            Err(_) => break,
        }
    }
    assert_eq!(recv_count, 3);
}

#[test]
fn hundred_distinct_messages_round_trip() {
    for version in [MavlinkVersion::V1, MavlinkVersion::V2] {
        let mut data = Vec::new();
        let mut sent = Vec::new();
        for i in 0..100u8 {
            let header = MavHeader { sequence: i, system_id: 1, component_id: 2 };
            let msg: Heartbeat = RawMessage { payload: [i, i ^ 0xFF, 0, 0, 2, 3, i / 2, 3, 3] };
            write_versioned_msg(&mut data, version, header, &msg).unwrap();
            sent.push((header, msg));
        }
        let mut r = reader(&data);
        let mut again = Vec::new();
        for expected in &sent {
            let (header, msg) = read_versioned_msg::<Heartbeat>(&mut r, version).unwrap();
            assert_eq!((header, msg), *expected);
            write_versioned_msg(&mut again, version, header, &msg).unwrap();
        }
        assert_eq!(again, data);
        assert_eq!(
            read_versioned_msg::<Heartbeat>(&mut r, version),
            Err(ReadError::UnexpectedEof)
        );
    }
}

#[test]
fn flipping_a_bit_of_a_signed_frame_matters_everywhere_but_in_the_signature() {
    let header = sample_header();
    let msg = sample_heartbeat();
    let signed = v2_frame_with(0x01, 0, header, 0, &msg.payload, 50, &[0x3C; 13]);
    let signature_start = signed.len() - 13;
    for i in 0..signed.len() * 8 {
        let mut frame = signed.clone();
        frame[i / 8] ^= 1 << (i % 8);
        let mut r = reader(&frame);
        let got = read_v2_msg::<Heartbeat>(&mut r);
        if i / 8 >= signature_start {
            assert_eq!(got, Ok((header, msg)), "bit {}", i);
            assert_eq!(r.position, signed.len());
        } else {
            assert_eq!(got, Err(ReadError::UnexpectedEof), "bit {}", i);
        }
    }
}
