use fernq::protocol::{MessageFlags, ProtocolError};

#[test]
fn magic_mismatch_message_pads_hex_to_eight_digits() {
    let e = ProtocolError::InvalidMagic { received: 0x1234, expected: 20262351 };
    assert_eq!(e.message(), "magic mismatch: received 0x00001234, expected 0x01352DCF");
}

#[test]
fn unknown_type_and_flags_messages_pad_hex_to_two_digits() {
    assert_eq!(ProtocolError::UnknownMessageType(7).message(), "unknown message type: 0x07");
    assert_eq!(
        ProtocolError::InvalidFlags(0xC3).message(),
        "invalid flags: 0xC3 (reserved bits must be zero)"
    );
}

#[test]
fn crc_mismatch_message_pads_hex_to_four_digits() {
    let e = ProtocolError::CrcMismatch { received: 0xAB, calculated: 0xFFFF };
    assert_eq!(e.message(), "CRC mismatch: received 0x00AB, calculated 0xFFFF");
}

#[test]
fn decimal_fields_are_written_in_full() {
    let e = ProtocolError::IncompleteFrame { required: 11, actual: 0, context: "fixed header" };
    assert_eq!(e.message(), "incomplete frame (fixed header): required 11 bytes, got 0");
    let e = ProtocolError::NameTooLong { name_type: "source", length: 129, max: 128 };
    assert_eq!(e.message(), "source name too long: 129 bytes (max: 128)");
    let e = ProtocolError::StreamTooLong { length: 8388609, max: 8388608 };
    assert_eq!(e.message(), "stream too long: 8388609 bytes (max: 8388608 bytes)");
    let e = ProtocolError::InvalidVersion { received: 2, expected: 1 };
    assert_eq!(e.message(), "version mismatch: received 2, expected 1");
    let e = ProtocolError::InvalidOffset { offset: 10, total: 4294967295 };
    assert_eq!(e.message(), "invalid offset: 10 (total: 4294967295)");
}

#[test]
fn state_code_message_is_signed() {
    assert_eq!(
        ProtocolError::InvalidStateCode(-42).message(),
        "invalid state code: -42 (expected HTTP status code)"
    );
    assert_eq!(
        ProtocolError::InvalidStateCode(i64::MIN).message(),
        "invalid state code: -9223372036854775808 (expected HTTP status code)"
    );
    assert_eq!(
        ProtocolError::InvalidStateCode(600).message(),
        "invalid state code: 600 (expected HTTP status code)"
    );
}

#[test]
fn text_fields_are_inserted() {
    assert_eq!(
        ProtocolError::InvalidHeaderType("push".to_string()).message(),
        "invalid header_type: push (expected 'request' or 'response')"
    );
    assert_eq!(
        ProtocolError::InvalidTargetCount { received: 0, reason: "no targets".to_string() }.message(),
        "invalid target count: 0 (no targets)"
    );
    assert_eq!(ProtocolError::EmptyName("target").message(), "target name cannot be empty");
    assert_eq!(ProtocolError::EmptyAddress.message(), "address is empty after fernq://");
}

#[test]
fn flags_are_described() {
    assert_eq!(
        MessageFlags::new(true, false, true).describe(),
        "[END_STREAM=true, END_CHANNEL=false, IS_RESPONSE=true]"
    );
    assert_eq!(
        MessageFlags::new(false, false, false).describe(),
        "[END_STREAM=false, END_CHANNEL=false, IS_RESPONSE=false]"
    );
}
