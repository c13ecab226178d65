use fernq::protocol::decoder::{header_readable, message_readable, names_readable};
use fernq::protocol::{
    decode_basic, decode_header, generate_message_data_stream, get_channel_id,
    get_message_source_target, parse_message, ping_frame, pong_frame, validate_magic,
    validate_version, ChannelId, MessageFlags, MessageType, ProtocolError, MAX_FRAME_SIZE,
    MAX_STREAM_LENGTH,
};

const PING: [u8; 13] = [0x01, 0x35, 0x2D, 0xCF, 0x01, 0x03, 0xC0, 0, 0, 0, 2, 0x65, 0x7B];
const PONG: [u8; 13] = [0x01, 0x35, 0x2D, 0xCF, 0x01, 0x04, 0xE0, 0, 0, 0, 2, 0xA5, 0x8E];

fn id() -> ChannelId {
    ChannelId::from_bytes([0, 1, 2, 3, 4, 5, 6, 7, 8, 9, 10, 11, 12, 13, 14, 15])
}

#[test]
fn heartbeat_frames_have_the_documented_bytes() {
    assert_eq!(ping_frame(), PING.to_vec());
    assert_eq!(pong_frame(), PONG.to_vec());
}

#[test]
fn heartbeat_frames_decode() {
    let mut buf = ping_frame();
    buf.extend_from_slice(&pong_frame());
    let (t, f, frame, rest) = decode_basic(&buf).unwrap();
    assert_eq!(t, MessageType::Ping);
    assert_eq!(f.as_u8(), 0xC0);
    assert_eq!(frame, &PING[..]);
    let (t, f, frame, rest) = decode_basic(rest).unwrap();
    assert_eq!(t, MessageType::Pong);
    assert!(f.is_response() && f.end_stream() && f.end_channel());
    assert_eq!(frame, &PONG[..]);
    assert!(rest.is_empty());
    let (t, f, len) = decode_header(&PING[..11]).unwrap();
    assert_eq!((t, f.as_u8(), len), (MessageType::Ping, 0xC0, 2));
}

#[test]
fn magic_and_version_checks() {
    assert_eq!(validate_magic(&[0x01, 0x35, 0x2D, 0xCF]).unwrap(), 20262351);
    assert!(matches!(
        validate_magic(&[0, 0, 0, 1]),
        Err(ProtocolError::InvalidMagic { received: 1, expected: 20262351 })
    ));
    assert!(matches!(validate_magic(&[1, 2, 3]), Err(ProtocolError::InvalidFrameLength(m)) if m == "magic validation requires 4 bytes, got 3"));
    assert_eq!(validate_version(1).unwrap(), 1);
    assert!(matches!(validate_version(2), Err(ProtocolError::InvalidVersion { received: 2, expected: 1 })));
}

#[test]
fn flags_bits() {
    let flags = MessageFlags::new(true, false, true);
    assert_eq!(flags.as_u8(), 0xA0);
    assert!(flags.end_stream());
    assert!(!flags.end_channel());
    assert!(flags.is_response());
    assert!(!flags.is_request());
    assert!(flags.is_valid());
    assert_eq!(flags.to_tuple(), (true, false, true));
    assert_eq!(MessageFlags::new(false, true, false).as_u8(), 0x40);
    assert_eq!(MessageFlags::try_from_u8(0x60).unwrap().as_u8(), 0x60);
    assert!(matches!(MessageFlags::try_from_u8(0x61), Err(ProtocolError::InvalidFlags(0x61))));
    assert!(MessageFlags::default().is_request());
}

#[test]
fn message_types() {
    for (t, b) in [
        (MessageType::Header, 1u8),
        (MessageType::Body, 2),
        (MessageType::Ping, 3),
        (MessageType::Pong, 4),
    ] {
        assert_eq!(t.as_u8(), b);
        assert_eq!(MessageType::try_from_u8(b).unwrap(), t);
    }
    assert!(matches!(MessageType::try_from_u8(0), Err(ProtocolError::UnknownMessageType(0))));
    assert!(matches!(MessageType::try_from_u8(5), Err(ProtocolError::UnknownMessageType(5))));
    assert_eq!(MessageType::Body.name(), "Body");
}

#[test]
fn decode_errors() {
    assert!(matches!(
        decode_basic(&PING[..5]),
        Err(ProtocolError::IncompleteFrame { required: 11, actual: 5, context: "fixed header" })
    ));
    assert!(matches!(
        decode_basic(&PING[..12]),
        Err(ProtocolError::IncompleteFrame { required: 13, actual: 12, context: "complete frame" })
    ));
    let mut bad = PING;
    bad[0] = 0;
    assert!(matches!(decode_basic(&bad), Err(ProtocolError::InvalidMagic { .. })));
    let mut bad = PING;
    bad[12] ^= 1;
    assert!(matches!(
        decode_basic(&bad),
        Err(ProtocolError::CrcMismatch { received: 0x657A, calculated: 0x657B })
    ));
    assert!(matches!(
        decode_header(&PING[..2]),
        Err(ProtocolError::IncompleteFrame { required: 4, actual: 2, context: "fixed header" })
    ));
    let mut bad = PING;
    bad[4] = 9;
    assert!(matches!(decode_header(&bad[..11]), Err(ProtocolError::InvalidVersion { received: 9, expected: 1 })));
    let mut bad = PING;
    bad[5] = 9;
    assert!(matches!(decode_header(&bad[..11]), Err(ProtocolError::UnknownMessageType(9))));
    let mut bad = PING;
    bad[6] = 0xC1;
    assert!(matches!(decode_header(&bad[..11]), Err(ProtocolError::InvalidFlags(0xC1))));
    assert!(!header_readable(&PING[..4]));
    assert!(header_readable(&PING[..11]));
    assert!(header_readable(&[0, 0, 0, 0, 0]));
}

#[test]
fn single_frame_message_roundtrip() {
    let frames =
        generate_message_data_stream(MessageType::Body, false, true, &id(), "alice", "bob", b"hello")
            .unwrap();
    assert_eq!(frames.len(), 1);
    let f = &frames[0];
    assert_eq!(f.len(), 41 + 5 + 3 + 5);
    let (t, flags, frame, rest) = decode_basic(f).unwrap();
    assert_eq!(t, MessageType::Body);
    assert_eq!(flags.to_tuple(), (true, false, true));
    assert!(rest.is_empty());
    assert!(names_readable(frame) && message_readable(frame));
    let (header, payload) = parse_message(frame).unwrap();
    assert_eq!(header.channel_id, id());
    assert_eq!(header.source, "alice");
    assert_eq!(header.target, "bob");
    assert_eq!(header.total_len, 5);
    assert_eq!(header.stream_offset, 0);
    assert_eq!(payload, b"hello");
    assert_eq!(get_channel_id(frame).unwrap(), id());
    assert_eq!(
        get_message_source_target(frame).unwrap(),
        ("alice".to_string(), "bob".to_string())
    );
    let (_, _, len) = decode_header(&f[..11]).unwrap();
    assert_eq!(len, f.len() - 11);
}

#[test]
fn large_message_is_fragmented_and_reassembled() {
    let data: Vec<u8> = (0..20000u32).map(|i| (i % 251) as u8).collect();
    let frames =
        generate_message_data_stream(MessageType::Body, true, false, &id(), "s", "t", &data).unwrap();
    let max_payload = MAX_FRAME_SIZE - 41 - 2;
    assert_eq!(frames.len(), (data.len() + max_payload - 1) / max_payload);
    let mut joined = Vec::new();
    for (i, f) in frames.iter().enumerate() {
        assert!(f.len() <= MAX_FRAME_SIZE);
        let (_, flags, frame, _) = decode_basic(f).unwrap();
        assert_eq!(flags.end_stream(), i + 1 == frames.len());
        assert!(flags.end_channel());
        assert!(flags.is_request());
        let (header, payload) = parse_message(frame).unwrap();
        assert_eq!(header.total_len, data.len());
        assert_eq!(header.stream_offset, joined.len());
        joined.extend_from_slice(payload);
    }
    assert_eq!(joined, data);
}

#[test]
fn empty_data_gives_no_frame() {
    let frames = generate_message_data_stream(MessageType::Body, true, false, &id(), "s", "t", b"").unwrap();
    assert!(frames.is_empty());
}

#[test]
fn encoder_rejects_bad_names_and_streams() {
    assert!(matches!(
        generate_message_data_stream(MessageType::Body, true, false, &id(), "", "t", b"x"),
        Err(ProtocolError::EmptyName("source"))
    ));
    assert!(matches!(
        generate_message_data_stream(MessageType::Body, true, false, &id(), "s", "", b"x"),
        Err(ProtocolError::EmptyName("target"))
    ));
    let long = "x".repeat(129);
    assert!(matches!(
        generate_message_data_stream(MessageType::Body, true, false, &id(), &long, "t", b"x"),
        Err(ProtocolError::NameTooLong { name_type: "source", length: 129, max: 128 })
    ));
    assert!(matches!(
        generate_message_data_stream(MessageType::Body, true, false, &id(), "s", &long, b"x"),
        Err(ProtocolError::NameTooLong { name_type: "target", length: 129, max: 128 })
    ));
    let big = vec![0u8; MAX_STREAM_LENGTH as usize + 1];
    assert!(matches!(
        generate_message_data_stream(MessageType::Body, true, false, &id(), "s", "t", &big),
        Err(ProtocolError::StreamTooLong { length: 8388609, max: 8388608 })
    ));
}

#[test]
fn name_errors_in_frames() {
    let mut f = generate_message_data_stream(MessageType::Body, true, false, &id(), "ab", "cd", b"x")
        .unwrap()
        .remove(0);
    f[29] = 0xFF;
    assert!(matches!(get_message_source_target(&f), Err(ProtocolError::InvalidName("source"))));
    let mut g = f.clone();
    g[27] = 0;
    g[28] = 0;
    assert!(matches!(get_message_source_target(&g), Err(ProtocolError::EmptyName("source"))));
    let mut g = f.clone();
    g[27] = 1;
    assert!(matches!(
        get_message_source_target(&g),
        Err(ProtocolError::NameTooLong { name_type: "source", length: 258, max: 128 })
    ));
    assert!(matches!(
        get_channel_id(&f[..40]),
        Err(ProtocolError::IncompleteFrame { required: 41, actual: 40, context: "channel id" })
    ));
    let mut g = f.clone();
    g[28] = 100;
    assert!(!names_readable(&g));
}

#[test]
fn channel_id_assignment() {
    let id = id();
    assert_eq!(id.hash_u64(), 0x08090A0B0C0D0E0F);
    assert_eq!(id.as_bytes()[15], 15);
    assert_eq!(id.into_bytes()[0], 0);
    assert_eq!(id.assign_target(10).unwrap(), (0x08090A0B0C0D0E0Fu64 % 10) as usize);
    assert!(matches!(
        id.assign_target(0),
        Err(ProtocolError::InvalidTargetCount { received: 0, reason }) if reason == "must be greater than 0"
    ));
    assert!(matches!(id.assign_target_fast(24), Err(ProtocolError::InvalidTargetCount { received: 24, .. })));
    assert!(matches!(id.assign_target_fast(0), Err(ProtocolError::InvalidTargetCount { received: 0, .. })));
    for n in [1usize, 2, 16, 32, 1024] {
        assert_eq!(id.assign_target_fast(n).unwrap(), id.assign_target(n).unwrap());
    }
    assert!(matches!(
        ChannelId::try_from_slice(&[1, 2, 3]),
        Err(ProtocolError::InvalidUuidLength { expected: 16, actual: 3 })
    ));
    assert_eq!(ChannelId::try_from_slice(&[7u8; 16]).unwrap().into_bytes(), [7u8; 16]);
    let fresh = ChannelId::new();
    let b = fresh.into_bytes();
    assert_eq!(b[6] & 0xF0, 0x40);
    assert_eq!(b[8] & 0xC0, 0x80);
    assert_ne!(ChannelId::new(), ChannelId::default());
}
