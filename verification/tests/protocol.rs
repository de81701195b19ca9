use bytes::BytesMut;
use demo2::protocol::demo_serial::{
    crc16_modbus, parse_channel, parse_group, raw_axis, u16_le, Command, CommandStatus, Packet,
    RequestFrame, SerialDemoCodec, SerialDemoCodecError, CMD_STREAM, GROUP_COUNT, HEADER,
    STREAM_BODY_LEN, STREAM_TOTAL_LEN,
};
use demo2::protocol::{
    crc16, sent3_check_nibble, sent3_inverted_copy, sent_crc_nibble, CodecError, Frame, FrameCodec,
    SentFrameCodec, SimpleFrameCodec,
};

#[test]
fn decode_split_and_sticky_packets() {
    let codec = SimpleFrameCodec::new(1024);
    let mut buf = BytesMut::new();

    codec
        .encode(&Frame { request_id: 1, kind: 0x01, payload: b"abc".to_vec() }, &mut buf)
        .unwrap();
    codec
        .encode(&Frame { request_id: 2, kind: 0x02, payload: b"xyz".to_vec() }, &mut buf)
        .unwrap();

    let mut part = BytesMut::new();
    part.extend_from_slice(&buf[..5]);
    assert!(codec.try_decode(&mut part).unwrap().is_none());

    part.extend_from_slice(&buf[5..]);
    assert_eq!(codec.try_decode(&mut part).unwrap().unwrap().request_id, 1);
    assert_eq!(codec.try_decode(&mut part).unwrap().unwrap().request_id, 2);
    assert!(codec.try_decode(&mut part).unwrap().is_none());
}

#[test]
fn sent_roundtrip() {
    let codec = SentFrameCodec;
    let frame = SentFrameCodec::with_crc(0x03, 0x08AB, 0x0734, 0x01);
    let raw = SentFrameCodec::encode_frame(frame);
    let mut buf = BytesMut::from(&raw[..]);
    let decoded = codec.try_decode(&mut buf).unwrap().unwrap();
    assert_eq!(decoded, frame);
    assert!(buf.is_empty());
}

#[test]
fn sent3_roundtrip() {
    let codec = SentFrameCodec;
    let frame = SentFrameCodec::sent3_with_crc(0x04, 0x08AB, 0x0C, 0x0B);
    let raw = SentFrameCodec::encode_frame(frame);
    let mut buf = BytesMut::from(&raw[..]);
    let decoded = codec.try_decode(&mut buf).unwrap().unwrap();
    assert_eq!(decoded, frame);
    assert_eq!(decoded.channel_2 & 0x0F, 0x0C);
    assert_eq!((decoded.channel_2 >> 4) as u8 & 0x0F, sent3_inverted_copy(0x08AB));
    assert!(buf.is_empty());
}

#[test]
fn decode_stream_frame_first() {
    let codec = SerialDemoCodec;
    let mut src = BytesMut::new();
    src.extend_from_slice(&[HEADER, 0x04, 0x20, CMD_STREAM]);
    src.resize(STREAM_TOTAL_LEN, 0);

    let packet = codec.try_decode(&mut src).unwrap().unwrap();
    match packet {
        Packet::Stream(frame) => {
            assert_eq!(frame.body.len(), STREAM_BODY_LEN);
            assert_eq!(frame.groups().len(), GROUP_COUNT);
        }
        Packet::Response(_) => panic!("expected stream packet"),
    }
}

#[test]
fn encode_usb_link_check_request() {
    let codec = SerialDemoCodec;
    let bytes = codec.build_request_bytes(&RequestFrame::usb_link_check()).unwrap();
    assert_eq!(bytes[0], HEADER);
    assert_eq!(u16::from_le_bytes([bytes[1], bytes[2]]), 6);
    assert_eq!(bytes[3], Command::UsbLinkCheck.to_u8());
}

#[test]
fn crc16_of_the_usual_digits() {
    assert_eq!(crc16(b"123456789"), 0x4B37);
    assert_eq!(crc16_modbus(b"123456789"), 0x4B37);
    assert_eq!(crc16(b""), 0xFFFF);
    assert_ne!(crc16(b"123456788"), crc16(b"123456789"));
}

#[test]
fn frame_bytes_are_big_endian() {
    let codec = SimpleFrameCodec::new(16);
    let mut out = BytesMut::new();
    let frame = Frame { request_id: 0x0102_0304_0506_0708, kind: 0x34, payload: vec![0xEE] };
    codec.encode(&frame, &mut out).unwrap();
    assert_eq!(out[..14], [0xAA, 0x55, 0, 10, 1, 2, 3, 4, 5, 6, 7, 8, 0x34, 0xEE]);
    let crc = crc16(&out[4..14]);
    assert_eq!(out[14..], [(crc >> 8) as u8, crc as u8]);
    let back = codec.try_decode(&mut out).unwrap().unwrap();
    assert_eq!(back.request_id, frame.request_id);
    assert_eq!(back.kind, frame.kind);
    assert_eq!(back.payload, frame.payload);
    assert!(out.is_empty());
}

#[test]
fn frames_are_found_after_noise_and_damage() {
    let codec = SimpleFrameCodec::new(64);
    let mut good = BytesMut::new();
    codec.encode(&Frame { request_id: 7, kind: 9, payload: vec![1, 2, 3] }, &mut good).unwrap();

    let mut src = BytesMut::new();
    src.extend_from_slice(&[0x00, 0xAA, 0x13]);
    let mut bad = good.to_vec();
    bad[14] ^= 0x40;
    src.extend_from_slice(&bad);
    src.extend_from_slice(&good);
    let frame = codec.try_decode(&mut src).unwrap().unwrap();
    assert_eq!(frame.request_id, 7);
    assert_eq!(frame.payload, vec![1, 2, 3]);
    assert!(codec.try_decode(&mut src).unwrap().is_none());
}

#[test]
fn too_large_payloads_are_refused() {
    let codec = SimpleFrameCodec::new(4);
    let mut out = BytesMut::from(&b"kept"[..]);
    let err = codec
        .encode(&Frame { request_id: 1, kind: 1, payload: vec![0; 5] }, &mut out)
        .unwrap_err();
    assert!(matches!(err, CodecError::FrameTooLarge(5)));
    assert_eq!(err.to_text(), "frame too large: 5");
    assert_eq!(out[..], b"kept"[..]);

    let codec = SimpleFrameCodec::new(100_000);
    let err = codec
        .encode(&Frame { request_id: 1, kind: 1, payload: vec![0; 65_527] }, &mut out)
        .unwrap_err();
    assert!(matches!(err, CodecError::InvalidLength));
    assert_eq!(err.to_text(), "invalid length");
}

#[test]
fn codec_error_texts() {
    assert_eq!(CodecError::CrcMismatch.to_text(), "crc mismatch");
}

#[test]
fn sent_frames_hold_nibbles() {
    let frame = SentFrameCodec::with_crc(0x13, 0xF8AB, 0x1734, 0xF1);
    assert_eq!(frame.status, 3);
    assert_eq!(frame.channel_1, 0x8AB);
    assert_eq!(frame.channel_2, 0x734);
    assert_eq!(frame.pause, 1);
    assert_eq!(frame.crc, sent_crc_nibble(3, 0x8AB, 0x734));
    let raw = SentFrameCodec::encode_frame(frame);
    assert_eq!(raw, [0xF0, 3, 8, 0xA, 0xB, 4, 3, 7, frame.crc, 1]);
}

#[test]
fn sent_frames_with_a_wrong_checksum_are_passed_over() {
    let codec = SentFrameCodec;
    let good = SentFrameCodec::encode_frame(SentFrameCodec::with_crc(1, 2, 3, 4));
    let mut bad = good;
    bad[8] ^= 1;
    let mut src = BytesMut::new();
    src.extend_from_slice(&[0x55, 0x66]);
    src.extend_from_slice(&bad);
    src.extend_from_slice(&good);
    let frame = codec.try_decode(&mut src).unwrap().unwrap();
    assert_eq!(frame, SentFrameCodec::with_crc(1, 2, 3, 4));
    assert!(codec.try_decode(&mut src).unwrap().is_none());
}

#[test]
fn sent3_second_channel_has_three_parts() {
    let frame = SentFrameCodec::sent3_with_crc(0x04, 0x08AB, 0x0C, 0x0B);
    let inverted = sent3_inverted_copy(0x08AB);
    let check = sent3_check_nibble(0x04, 0x08AB, 0x0C, inverted);
    assert_eq!(frame.channel_2, 0x0C | (inverted as u16) << 4 | (check as u16) << 8);
    assert_eq!(inverted, 0x7);
}

#[test]
fn commands_and_their_codes() {
    for value in 0..=255u8 {
        if let Some(command) = Command::from_u8(value) {
            assert_eq!(command.to_u8(), value);
        }
    }
    assert!(matches!(Command::from_u8(Command::ResetSystem.to_u8()), Some(Command::ResetSystem)));
    assert!(Command::from_u8(0xEE).is_none());
    assert!(CommandStatus::from_u8(0xEE).is_none());
}

#[test]
fn requests_carry_length_and_checksum() {
    let codec = SerialDemoCodec;
    let request = RequestFrame::configure_adxl317(2, &[0x10, 0x20]);
    let bytes = codec.build_request_bytes(&request).unwrap();
    assert_eq!(u16::from_le_bytes([bytes[1], bytes[2]]) as usize, bytes.len());
    assert_eq!(bytes[4..7], [2, 0x10, 0x20]);
    let crc = crc16_modbus(&bytes[..bytes.len() - 2]);
    assert_eq!(u16_le(crc)[..], bytes[bytes.len() - 2..]);

    let too_long = RequestFrame::configure_adxl317(2, &vec![0; 600]);
    let err = codec.build_request_bytes(&too_long).unwrap_err();
    assert!(matches!(err, SerialDemoCodecError::RequestTooLarge(601)));
    assert_eq!(err.to_text(), "request payload too large: 601");
    assert_eq!(SerialDemoCodecError::InvalidLength(3).to_text(), "invalid frame length: 3");
}

#[test]
fn responses_are_checked_and_taken() {
    let codec = SerialDemoCodec;
    let mut bytes = vec![HEADER, 8, 0, Command::UsbLinkCheck.to_u8(), 1, 0x77];
    let crc = crc16_modbus(&bytes);
    bytes.extend_from_slice(&u16_le(crc));
    let mut src = BytesMut::new();
    src.extend_from_slice(&[0x01, 0x02]);
    src.extend_from_slice(&bytes);
    match codec.try_decode(&mut src).unwrap().unwrap() {
        Packet::Response(response) => {
            assert!(matches!(response.command(), Some(Command::UsbLinkCheck)));
            assert!(response.is_ok());
            assert!(matches!(response.command_status(), Some(CommandStatus::Okay)));
            assert_eq!(response.payload[..], [0x77]);
        }
        Packet::Stream(_) => panic!("expected a response"),
    }
    assert!(src.is_empty());
    assert!(codec.try_decode(&mut src).unwrap().is_none());
}

#[test]
fn samples_drop_their_low_two_bits() {
    assert_eq!(raw_axis(&[0x04, 0x00]), 1);
    assert_eq!(raw_axis(&[0x07, 0x00]), 1);
    assert_eq!(raw_axis(&[0xFF, 0xFF]), -1);
    assert_eq!(raw_axis(&[0x00, 0x80]), -8192);
    let channel = parse_channel(&[4, 0, 8, 0, 0xF4, 0xFF, 1, 0]);
    assert_eq!((channel.x, channel.y, channel.z, channel.alarm), (1, 2, -3, true));
    let mut chunk = vec![0u8; 32];
    chunk[24] = 4;
    assert_eq!(parse_group(&chunk).ch1.x, 1);
    assert_eq!(parse_group(&chunk).ch4.x, 0);
}

#[test]
fn checksums_cancel_out() {
    for message in [&b""[..], &b"123456789"[..], &[0xAA, 0x55, 0x00, 0xFF][..]] {
        let mut whole = message.to_vec();
        whole.extend_from_slice(&u16_le(crc16(message)));
        assert_eq!(crc16(&whole), 0);
    }
}

#[test]
fn one_changed_nibble_is_noticed() {
    let frame = SentFrameCodec::with_crc(0x3, 0x08AB, 0x0734, 0x1);
    let raw = SentFrameCodec::encode_frame(frame);
    let next = SentFrameCodec::with_crc(0x4, 0x123, 0x456, 0x1);
    for at in 1..9 {
        for nibble in 0..16 {
            let mut damaged = raw;
            damaged[at] = nibble;
            let mut buf = BytesMut::from(&damaged[..]);
            buf.extend_from_slice(&SentFrameCodec::encode_frame(next));
            let first = SentFrameCodec.try_decode(&mut buf).unwrap().unwrap();
            assert_eq!(first, if nibble == raw[at] { frame } else { next });
        }
    }
}

#[test]
fn noise_before_other_frames_is_passed_over() {
    let frame = SentFrameCodec::with_crc(0x3, 0x08AB, 0x0734, 0x1);
    let mut buf = BytesMut::from(&[1u8, 2, 0xEF, 0xFF][..]);
    buf.extend_from_slice(&SentFrameCodec::encode_frame(frame));
    assert_eq!(SentFrameCodec.try_decode(&mut buf).unwrap(), Some(frame));

    let request = RequestFrame::read_adxl317_config(7);
    let mut buf = BytesMut::from(&[0u8, 1, 2][..]);
    assert!(buf.iter().all(|byte| *byte != HEADER));
    buf.extend_from_slice(&SerialDemoCodec.build_request_bytes(&request).unwrap());
    assert!(matches!(SerialDemoCodec.try_decode(&mut buf).unwrap(), Some(Packet::Response(_))));
    assert!(buf.is_empty());
}
