use fernq::protocol::validate::{
    extract_name, extract_password, extract_uuid, validate_and_normalize_address,
    validate_ipv4_or_hostname, validate_ipv6_address,
};
use fernq::protocol::{
    create_message_response, create_validate, create_verify_response, decode_basic,
    decode_from_bytes, parse_message, parse_validate, parse_verify_response, ChannelId, Message,
    MessageType, ProtocolError,
};

const ROOM: [u8; 16] = [
    0x55, 0x0e, 0x84, 0x00, 0xe2, 0x9b, 0x41, 0xd4, 0xa7, 0x16, 0x44, 0x66, 0x55, 0x44, 0x00, 0x00,
];

fn id() -> ChannelId {
    ChannelId::from_bytes([9u8; 16])
}

#[test]
fn handshake_roundtrip() {
    let url = "fernq://node-a.local:8080/550e8400-e29b-41d4-a716-446655440000#room?room_pass=secret";
    let (addr, frame) = create_validate("client-1", &id(), url.to_string()).unwrap();
    assert_eq!(addr, "node-a.local:8080");
    let (t, flags, frame, rest) = decode_basic(&frame).unwrap();
    assert_eq!(t, MessageType::Header);
    assert_eq!(flags.to_tuple(), (true, true, false));
    assert!(rest.is_empty());
    let (header, payload) = parse_message(frame).unwrap();
    assert_eq!(header.source, "client-1");
    assert_eq!(header.target, "fernq");
    assert_eq!(header.channel_id, id());
    assert_eq!(payload, url.as_bytes());
    let (room, name, password) = parse_validate(payload).unwrap();
    assert_eq!(room, ROOM);
    assert_eq!(name, "room");
    assert_eq!(password, "secret");
}

#[test]
fn addresses_as_documented() {
    let f = |u: &str| create_validate("c", &id(), u.to_string()).map(|(a, _)| a);
    assert_eq!(f("fernq://node-a.local/x").unwrap(), "node-a.local");
    assert_eq!(f("fernq://192.168.1.100:9147?x").unwrap(), "192.168.1.100:9147");
    assert_eq!(f("fernq://[::1]:9147#r").unwrap(), "[::1]:9147");
    assert_eq!(f("fernq://[::1]").unwrap(), "[::1]:9147");
    assert_eq!(f("fernq://192.168.1.100/u#r?room_pass=p").unwrap(), "192.168.1.100:9147");
    assert!(matches!(f("http://x"), Err(ProtocolError::InvalidProtocol(u)) if u == "http://x"));
    assert!(matches!(f("fernq:///uuid"), Err(ProtocolError::EmptyAddress)));
    assert!(matches!(f("fernq://host:99999/u"), Err(ProtocolError::InvalidPort(p)) if p == "99999"));
    assert!(matches!(f("fernq://:8080/u"), Err(ProtocolError::MalformedFrame(m)) if m == "empty host before port"));
    let long = format!("fernq://host/{}", "a".repeat(9000));
    assert!(matches!(f(&long), Err(ProtocolError::InvalidFrameLength(m)) if m == "frame too long"));
    assert!(matches!(
        create_validate("", &id(), "fernq://h".to_string()),
        Err(ProtocolError::EmptyName("source"))
    ));
}

#[test]
fn address_checks() {
    assert_eq!(validate_ipv4_or_hostname("example.org").unwrap(), "example.org");
    assert_eq!(validate_ipv4_or_hostname("h:+80").unwrap(), "h:+80");
    assert_eq!(validate_ipv4_or_hostname("h:65535").unwrap(), "h:65535");
    assert!(matches!(validate_ipv4_or_hostname("h:65536"), Err(ProtocolError::InvalidPort(p)) if p == "65536"));
    assert!(matches!(validate_ipv4_or_hostname("h:+"), Err(ProtocolError::InvalidPort(p)) if p == "+"));
    assert!(matches!(validate_ipv4_or_hostname("h:"), Err(ProtocolError::InvalidPort(p)) if p.is_empty()));
    assert!(matches!(validate_ipv4_or_hostname("h:-1"), Err(ProtocolError::InvalidPort(_))));
    assert_eq!(validate_ipv4_or_hostname("a:b:0080").unwrap(), "a:b:0080");
    assert!(matches!(validate_ipv6_address("[::1"), Err(ProtocolError::MalformedFrame(m)) if m == "unclosed IPv6 bracket"));
    assert!(matches!(
        validate_ipv6_address("[::1]x"),
        Err(ProtocolError::MalformedFrame(m)) if m == "invalid IPv6 format, expected ]:port"
    ));
    assert!(matches!(validate_ipv6_address("[::1]:x"), Err(ProtocolError::InvalidPort(p)) if p == "x"));
    assert_eq!(validate_and_normalize_address("[fe80::1]:1").unwrap(), "[fe80::1]:1");
    assert_eq!(validate_and_normalize_address("host:1").unwrap(), "host:1");
}

#[test]
fn default_port_for_ip_addresses() {
    assert_eq!(validate_ipv4_or_hostname("10.0.0.1").unwrap(), "10.0.0.1:9147");
    assert_eq!(validate_ipv4_or_hostname("255.255.255.255").unwrap(), "255.255.255.255:9147");
    assert_eq!(validate_ipv4_or_hostname("0.0.0.0").unwrap(), "0.0.0.0:9147");
    assert_eq!(validate_ipv4_or_hostname("256.1.1.1").unwrap(), "256.1.1.1");
    assert_eq!(validate_ipv4_or_hostname("01.2.3.4").unwrap(), "01.2.3.4");
    assert_eq!(validate_ipv4_or_hostname("1.2.3").unwrap(), "1.2.3");
    assert_eq!(validate_ipv4_or_hostname("1.2.3.4.5").unwrap(), "1.2.3.4.5");
    assert_eq!(validate_ipv4_or_hostname("localhost").unwrap(), "localhost");
    assert_eq!(validate_ipv4_or_hostname("10.0.0.1:80").unwrap(), "10.0.0.1:80");
    assert_eq!(validate_ipv6_address("[fe80::1]").unwrap(), "[fe80::1]:9147");
    assert_eq!(validate_and_normalize_address("[::]").unwrap(), "[::]:9147");
}

#[test]
fn url_parts() {
    let (base, pass) = extract_password("fernq://h/u#n?a=1&room_pass=pw&room_pass=other").unwrap();
    assert_eq!(base, "fernq://h/u#n");
    assert_eq!(pass, "pw");
    assert!(matches!(extract_password("fernq://h/u#n"), Err(ProtocolError::MissingPassword)));
    assert!(matches!(extract_password("fernq://h/u#n?a=1"), Err(ProtocolError::MissingPassword)));
    assert!(matches!(extract_password("fernq://h/u#n?room_pass="), Err(ProtocolError::EmptyPassword)));
    let (base, name) = extract_name("fernq://h/u#my room").unwrap();
    assert_eq!(base, "fernq://h/u");
    assert_eq!(name, "my room");
    assert!(matches!(extract_name("fernq://h/u"), Err(ProtocolError::MissingName)));
    assert!(matches!(extract_name("fernq://h/u#"), Err(ProtocolError::MissingName)));
    assert_eq!(extract_uuid("fernq://h/550e8400-e29b-41d4-a716-446655440000").unwrap(), ROOM);
    assert!(matches!(extract_uuid("fernq://h/"), Err(ProtocolError::MissingUuid)));
    assert!(matches!(
        extract_uuid("fernq://h/nope"),
        Err(ProtocolError::InvalidUuidFormat(m)) if m.starts_with("'nope' is not a valid UUID")
    ));
}

#[test]
fn parse_validate_errors() {
    assert!(matches!(parse_validate(&[0xFF, 0xFE]), Err(ProtocolError::InvalidUtf8)));
    assert!(matches!(parse_validate(b"tcp://x"), Err(ProtocolError::InvalidProtocol(u)) if u == "tcp://x"));
    assert!(matches!(parse_validate(b"fernq://h/u#n"), Err(ProtocolError::MissingPassword)));
    assert!(matches!(parse_validate(b"fernq://h/u?room_pass=p"), Err(ProtocolError::MissingName)));
    assert!(matches!(parse_validate(b"fernq://h/#n?room_pass=p"), Err(ProtocolError::MissingUuid)));
}

#[test]
fn verify_reply_roundtrip() {
    let frame = create_verify_response("client-1", &id(), true, "Welcome to FernQ").unwrap();
    let (t, flags, frame, _) = decode_basic(&frame).unwrap();
    assert_eq!(t, MessageType::Header);
    assert_eq!(flags.to_tuple(), (true, true, true));
    let (header, payload) = parse_message(frame).unwrap();
    assert_eq!(header.source, "fernq");
    assert_eq!(header.target, "client-1");
    let (state, message) = parse_verify_response(payload).unwrap();
    assert!(state);
    assert_eq!(message, "Welcome to FernQ");
    let frame = create_verify_response("c", &id(), false, "房间不存在").unwrap();
    let (_, _, frame, _) = decode_basic(&frame).unwrap();
    let (_, payload) = parse_message(frame).unwrap();
    assert_eq!(parse_verify_response(payload).unwrap(), (false, "房间不存在".to_string()));
}

#[test]
fn verify_reply_roundtrip_with_escaped_text() {
    let text = "quote \" back\\slash\nnew line\ttab \u{1} end";
    let frame = create_verify_response("c", &id(), false, text).unwrap();
    let (_, _, frame, _) = decode_basic(&frame).unwrap();
    let (_, payload) = parse_message(frame).unwrap();
    assert_eq!(parse_verify_response(payload).unwrap(), (false, text.to_string()));
}

#[test]
fn verify_reply_errors() {
    assert!(matches!(parse_verify_response(&[0xC3]), Err(ProtocolError::InvalidUtf8)));
    assert!(matches!(parse_verify_response(b"{"), Err(ProtocolError::InvalidJson(_))));
    assert!(matches!(
        parse_verify_response(br#"{"state":"yes","message":"m"}"#),
        Err(ProtocolError::InvalidJson(m)) if m == "field 'state' must be boolean"
    ));
    assert!(matches!(
        parse_verify_response(br#"{"state":true}"#),
        Err(ProtocolError::InvalidJson(m)) if m == "field 'message' must be string"
    ));
}

#[test]
fn message_response_frame() {
    let frame = create_message_response("client-1", &id(), 404, "404 Not Found !").unwrap();
    let (_, _, frame, _) = decode_basic(&frame).unwrap();
    let (header, payload) = parse_message(frame).unwrap();
    assert_eq!(header.source, "fernq");
    assert_eq!(header.target, "client-1");
    match decode_from_bytes(payload).unwrap() {
        Message::Response(res) => {
            assert_eq!(res.state, 404);
            assert_eq!(res.body, Some(fernq::protocol::json::JsonValue::String("404 Not Found !".to_string())));
        }
        _ => panic!("expected response"),
    }
    assert!(matches!(
        create_message_response("c", &id(), 42, "x"),
        Err(ProtocolError::InvalidStateCode(42))
    ));
}

#[test]
fn create_validate_can_be_tested_first() {
    use_readable();
}

fn use_readable() {
    assert!(fernq::protocol::validate::create_validate_readable("fernq://[::1]:80/u"));
    assert!(fernq::protocol::validate::create_validate_readable("http://x"));
    assert!(fernq::protocol::validate::create_validate_readable("fernq://[::1]/u"));
    assert!(!fernq::protocol::validate::create_validate_readable("fernq://[::1]é/u"));
}
