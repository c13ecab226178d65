//! Frame decoder.

use vstd::prelude::*;

use super::bytes::{get_be_u16, get_be_u32, read_be_u16, read_be_u32};
use super::error::{ProtocolError, ProtocolResult};
use super::frame::{message_type_of, reserved_clear, validate_magic, validate_version, MessageFlags, MessageType};
use super::frame::{ChannelId, MessageHeader};
use super::crc::crc16_xmodem;
use super::outside::{crc16_checksum, utf8_to_string};
use super::{CHANNEL_ID_LEN, FIXED_HEADER_LEN, MAGIC, MAGIC_LEN, MAX_NAME_LENGTH, MESSAGE_FIXED_LEN, VERSION};

verus! {

/// What `decode_header` makes of a buffer: type, flag byte and frame length.
pub open spec fn decode_header_spec(b: Seq<u8>) -> Result<(MessageType, u8, nat), ProtocolError> {
    if b.len() < MAGIC_LEN {
        Err(
            ProtocolError::IncompleteFrame {
                required: MAGIC_LEN,
                actual: b.len() as usize,
                context: "fixed header",
            },
        )
    } else if read_be_u32(b, 0) != MAGIC {
        Err(ProtocolError::InvalidMagic { received: read_be_u32(b, 0) as u32, expected: MAGIC })
    } else if b[4] != VERSION {
        Err(ProtocolError::InvalidVersion { received: b[4], expected: VERSION })
    } else if message_type_of(b[5]) is None {
        Err(ProtocolError::UnknownMessageType(b[5]))
    } else if !reserved_clear(b[6]) {
        Err(ProtocolError::InvalidFlags(b[6]))
    } else {
        Ok((message_type_of(b[5])->0, b[6], read_be_u32(b, 7) as nat))
    }
}

/// `decode_header` reads no byte beyond the buffer: every field it reaches is there.
pub open spec fn decode_header_in_bounds(b: Seq<u8>) -> bool {
    b.len() < MAGIC_LEN || read_be_u32(b, 0) != MAGIC || (b.len() > 4 && (b[4] != VERSION || (
    b.len() > 5 && (message_type_of(b[5]) is None || (b.len() > 6 && (!reserved_clear(b[6])
        || b.len() >= FIXED_HEADER_LEN))))))
}

/// A decoded fixed header, by the flag byte.
pub open spec fn header_result_view(r: ProtocolResult<(MessageType, MessageFlags, usize)>) -> Result<
    (MessageType, u8, nat),
    ProtocolError,
> {
    match r {
        Ok((t, f, n)) => Ok((t, f.bits(), n as nat)),
        Err(e) => Err(e),
    }
}

/// Decodes the fixed header: checks magic, version, type and flags, and
/// reads the frame length.
pub fn decode_header(bytes: &[u8]) -> (r: ProtocolResult<(MessageType, MessageFlags, usize)>)
    requires
        decode_header_in_bounds(bytes@),
    ensures
        header_result_view(r) == decode_header_spec(bytes@),
{
    if bytes.len() < MAGIC_LEN {
        return Err(
            ProtocolError::IncompleteFrame {
                required: MAGIC_LEN,
                actual: bytes.len(),
                context: "fixed header",
            },
        );
    }
    let _magic = validate_magic(&bytes[0..MAGIC_LEN])?;
    let _version = validate_version(bytes[4])?;
    let msg_type = MessageType::try_from_u8(bytes[5])?;
    let flags = MessageFlags::try_from_u8(bytes[6])?;
    let frame_length = get_be_u32(bytes, 7) as usize;
    Ok((msg_type, flags, frame_length))
}


/// What `decode_basic` makes of a buffer: type, flag byte, the first frame
/// and the bytes after it.
pub open spec fn decode_basic_spec(b: Seq<u8>) -> Result<
    (MessageType, u8, Seq<u8>, Seq<u8>),
    ProtocolError,
> {
    if b.len() < FIXED_HEADER_LEN {
        Err(
            ProtocolError::IncompleteFrame {
                required: FIXED_HEADER_LEN,
                actual: b.len() as usize,
                context: "fixed header",
            },
        )
    } else if read_be_u32(b, 0) != MAGIC {
        Err(ProtocolError::InvalidMagic { received: read_be_u32(b, 0) as u32, expected: MAGIC })
    } else if FIXED_HEADER_LEN + read_be_u32(b, 7) > usize::MAX {
        Err(ProtocolError::LengthOverflow("total frame length calculation"))
    } else {
        let total = FIXED_HEADER_LEN + read_be_u32(b, 7);
        if b.len() < total {
            Err(
                ProtocolError::IncompleteFrame {
                    required: total as usize,
                    actual: b.len() as usize,
                    context: "complete frame",
                },
            )
        } else {
            let frame = b.subrange(0, total);
            let calculated = crc16_xmodem(frame.subrange(MAGIC_LEN as int, total - 2));
            let received = read_be_u16(frame, total - 2);
            if calculated != received {
                Err(ProtocolError::CrcMismatch { received: received as u16, calculated })
            } else if b[4] != VERSION {
                Err(ProtocolError::InvalidVersion { received: b[4], expected: VERSION })
            } else if message_type_of(b[5]) is None {
                Err(ProtocolError::UnknownMessageType(b[5]))
            } else if !reserved_clear(b[6]) {
                Err(ProtocolError::InvalidFlags(b[6]))
            } else {
                Ok((message_type_of(b[5])->0, b[6], frame, b.subrange(total, b.len() as int)))
            }
        }
    }
}

/// A split frame, by the flag byte and the slices' contents.
pub open spec fn basic_result_view(r: ProtocolResult<(MessageType, MessageFlags, &[u8], &[u8])>) -> Result<
    (MessageType, u8, Seq<u8>, Seq<u8>),
    ProtocolError,
> {
    match r {
        Ok((t, f, frame, rest)) => Ok((t, f.bits(), frame@, rest@)),
        Err(e) => Err(e),
    }
}

/// Splits the first complete frame off `bytes`.
///
/// Checks the magic, that the whole frame is there, its CRC (over the bytes
/// from the version up to the CRC), the version, the type and the flags, in
/// that order.  Returns the type, the flags, the frame and what follows it.
pub fn decode_basic(bytes: &[u8]) -> (r: ProtocolResult<(MessageType, MessageFlags, &[u8], &[u8])>)
    ensures
        basic_result_view(r) == decode_basic_spec(bytes@),
{
    if bytes.len() < FIXED_HEADER_LEN {
        return Err(
            ProtocolError::IncompleteFrame {
                required: FIXED_HEADER_LEN,
                actual: bytes.len(),
                context: "fixed header",
            },
        );
    }
    let _magic = validate_magic(&bytes[0..MAGIC_LEN])?;
    let frame_length = get_be_u32(bytes, 7) as usize;
    let total_frame_len = match FIXED_HEADER_LEN.checked_add(frame_length) {
        Some(t) => t,
        None => {
            return Err(ProtocolError::LengthOverflow("total frame length calculation"));
        },
    };
    if bytes.len() < total_frame_len {
        return Err(
            ProtocolError::IncompleteFrame {
                required: total_frame_len,
                actual: bytes.len(),
                context: "complete frame",
            },
        );
    }
    let current_frame = &bytes[0..total_frame_len];
    let remaining = &bytes[total_frame_len..bytes.len()];
    let crc_offset = total_frame_len - 2;
    let calculated_crc = crc16_checksum(&current_frame[MAGIC_LEN..crc_offset]);
    let received_crc = get_be_u16(current_frame, crc_offset);
    if calculated_crc != received_crc {
        return Err(ProtocolError::CrcMismatch { received: received_crc, calculated: calculated_crc });
    }
    validate_version(bytes[4])?;
    let msg_type = MessageType::try_from_u8(bytes[5])?;
    let flags = MessageFlags::try_from_u8(bytes[6])?;
    Ok((msg_type, flags, current_frame, remaining))
}


/// Position of the source name length field.
pub open spec fn source_len_pos() -> int {
    (FIXED_HEADER_LEN + CHANNEL_ID_LEN) as int
}

/// Length of the source name, as the frame states it.
pub open spec fn source_len_of(b: Seq<u8>) -> int {
    read_be_u16(b, source_len_pos())
}

/// Position of the target name length field.
pub open spec fn target_len_pos(b: Seq<u8>) -> int {
    source_len_pos() + 2 + source_len_of(b)
}

/// Length of the target name, as the frame states it.
pub open spec fn target_len_of(b: Seq<u8>) -> int {
    read_be_u16(b, target_len_pos(b))
}

/// Position of the stream total length field.
pub open spec fn stream_fields_pos(b: Seq<u8>) -> int {
    target_len_pos(b) + 2 + target_len_of(b)
}

/// The source name bytes.
pub open spec fn source_bytes_of(b: Seq<u8>) -> Seq<u8> {
    b.subrange(source_len_pos() + 2, target_len_pos(b))
}

/// The target name bytes.
pub open spec fn target_bytes_of(b: Seq<u8>) -> Seq<u8> {
    b.subrange(target_len_pos(b) + 2, stream_fields_pos(b))
}

/// What `get_channel_id` makes of a frame.
pub open spec fn channel_id_spec(b: Seq<u8>) -> Result<Seq<u8>, ProtocolError> {
    if b.len() < MESSAGE_FIXED_LEN {
        Err(
            ProtocolError::IncompleteFrame {
                required: MESSAGE_FIXED_LEN,
                actual: b.len() as usize,
                context: "channel id",
            },
        )
    } else {
        Ok(b.subrange(FIXED_HEADER_LEN as int, source_len_pos()))
    }
}

/// Reads the channel id of a message frame.
pub fn get_channel_id(bytes: &[u8]) -> (r: ProtocolResult<ChannelId>)
    ensures
        match r {
            Ok(id) => channel_id_spec(bytes@) == Ok::<Seq<u8>, ProtocolError>(id@),
            Err(e) => channel_id_spec(bytes@) == Err::<Seq<u8>, ProtocolError>(e),
        },
{
    if bytes.len() < MESSAGE_FIXED_LEN {
        return Err(
            ProtocolError::IncompleteFrame {
                required: MESSAGE_FIXED_LEN,
                actual: bytes.len(),
                context: "channel id",
            },
        );
    }
    ChannelId::try_from_slice(&bytes[FIXED_HEADER_LEN..FIXED_HEADER_LEN + CHANNEL_ID_LEN])
}

/// The name checks shared by `get_message_source_target` and `parse_message`:
/// `Ok` with the two names, or the first failing check's error.
pub open spec fn names_spec(b: Seq<u8>) -> Result<(Seq<char>, Seq<char>), ProtocolError> {
    if b.len() < MESSAGE_FIXED_LEN {
        Err(
            ProtocolError::IncompleteFrame {
                required: MESSAGE_FIXED_LEN,
                actual: b.len() as usize,
                context: "fixed header",
            },
        )
    } else if source_len_of(b) > MAX_NAME_LENGTH {
        Err(
            ProtocolError::NameTooLong {
                name_type: "source",
                length: source_len_of(b) as usize,
                max: MAX_NAME_LENGTH,
            },
        )
    } else if source_len_of(b) == 0 {
        Err(ProtocolError::EmptyName("source"))
    } else if !vstd::utf8::valid_utf8(source_bytes_of(b)) {
        Err(ProtocolError::InvalidName("source"))
    } else if target_len_of(b) > MAX_NAME_LENGTH {
        Err(
            ProtocolError::NameTooLong {
                name_type: "target",
                length: target_len_of(b) as usize,
                max: MAX_NAME_LENGTH,
            },
        )
    } else if target_len_of(b) == 0 {
        Err(ProtocolError::EmptyName("target"))
    } else if !vstd::utf8::valid_utf8(target_bytes_of(b)) {
        Err(ProtocolError::InvalidName("target"))
    } else {
        Ok(
            (
                vstd::utf8::decode_utf8(source_bytes_of(b)),
                vstd::utf8::decode_utf8(target_bytes_of(b)),
            ),
        )
    }
}

/// The name checks read no byte beyond the frame.
pub open spec fn names_in_bounds(b: Seq<u8>) -> bool {
    b.len() < MESSAGE_FIXED_LEN || source_len_of(b) > MAX_NAME_LENGTH || source_len_of(b) == 0 || (
    target_len_pos(b) <= b.len() && (!vstd::utf8::valid_utf8(source_bytes_of(b)) || (
    target_len_pos(b) + 2 <= b.len() && (target_len_of(b) > MAX_NAME_LENGTH || target_len_of(b) == 0
        || stream_fields_pos(b) <= b.len()))))
}

/// Decoded names, by their characters.
pub open spec fn names_result_view(r: ProtocolResult<(String, String)>) -> Result<
    (Seq<char>, Seq<char>),
    ProtocolError,
> {
    match r {
        Ok((s, t)) => Ok((s@, t@)),
        Err(e) => Err(e),
    }
}

/// Reads the source and target names of a message frame.
pub fn get_message_source_target(bytes: &[u8]) -> (r: ProtocolResult<(String, String)>)
    requires
        names_in_bounds(bytes@),
    ensures
        names_result_view(r) == names_spec(bytes@),
{
    if bytes.len() < MESSAGE_FIXED_LEN {
        return Err(
            ProtocolError::IncompleteFrame {
                required: MESSAGE_FIXED_LEN,
                actual: bytes.len(),
                context: "fixed header",
            },
        );
    }
    let (source_name, target_name, _next) = read_names(bytes)?;
    Ok((source_name, target_name))
}

/// The name fields of a frame of at least `MESSAGE_FIXED_LEN` bytes, and the
/// position after them.
fn read_names(bytes: &[u8]) -> (r: ProtocolResult<(String, String, usize)>)
    requires
        bytes@.len() >= MESSAGE_FIXED_LEN,
        names_in_bounds(bytes@),
    ensures
        match r {
            Ok((s, t, next)) => names_spec(bytes@) == Ok::<(Seq<char>, Seq<char>), ProtocolError>(
                (s@, t@),
            ) && next == stream_fields_pos(bytes@),
            Err(e) => names_spec(bytes@) == Err::<(Seq<char>, Seq<char>), ProtocolError>(e),
        },
{
    let mut offset: usize = FIXED_HEADER_LEN + CHANNEL_ID_LEN;
    let source_len = get_be_u16(bytes, offset) as usize;
    if source_len > MAX_NAME_LENGTH as usize {
        return Err(
            ProtocolError::NameTooLong {
                name_type: "source",
                length: source_len,
                max: MAX_NAME_LENGTH,
            },
        );
    }
    if source_len == 0 {
        return Err(ProtocolError::EmptyName("source"));
    }
    offset = offset + 2;
    let source_name = match utf8_to_string(&bytes[offset..offset + source_len]) {
        Some(s) => s,
        None => {
            return Err(ProtocolError::InvalidName("source"));
        },
    };
    offset = offset + source_len;
    let target_len = get_be_u16(bytes, offset) as usize;
    if target_len > MAX_NAME_LENGTH as usize {
        return Err(
            ProtocolError::NameTooLong {
                name_type: "target",
                length: target_len,
                max: MAX_NAME_LENGTH,
            },
        );
    }
    if target_len == 0 {
        return Err(ProtocolError::EmptyName("target"));
    }
    offset = offset + 2;
    let target_name = match utf8_to_string(&bytes[offset..offset + target_len]) {
        Some(s) => s,
        None => {
            return Err(ProtocolError::InvalidName("target"));
        },
    };
    offset = offset + target_len;
    Ok((source_name, target_name, offset))
}

/// What `parse_message` makes of a frame: channel id, source, target, stream
/// total length, stream offset and payload.
pub open spec fn parse_message_spec(b: Seq<u8>) -> Result<
    (Seq<u8>, Seq<char>, Seq<char>, nat, nat, Seq<u8>),
    ProtocolError,
> {
    if b.len() < MESSAGE_FIXED_LEN {
        Err(
            ProtocolError::IncompleteFrame {
                required: MESSAGE_FIXED_LEN,
                actual: b.len() as usize,
                context: "channel id",
            },
        )
    } else {
        match names_spec(b) {
            Err(e) => Err(e),
            Ok((source, target)) => {
                let p = stream_fields_pos(b);
                Ok(
                    (
                        b.subrange(FIXED_HEADER_LEN as int, source_len_pos()),
                        source,
                        target,
                        read_be_u32(b, p) as nat,
                        read_be_u32(b, p + 4) as nat,
                        b.subrange(p + 8, b.len() - 2),
                    ),
                )
            },
        }
    }
}

/// `parse_message` reads no byte beyond the frame.
pub open spec fn parse_in_bounds(b: Seq<u8>) -> bool {
    names_in_bounds(b) && (names_spec(b) is Ok ==> stream_fields_pos(b) + 10 <= b.len())
}

/// A parsed message, by its header fields and payload contents.
pub open spec fn parse_result_view(r: ProtocolResult<(MessageHeader, &[u8])>) -> Result<
    (Seq<u8>, Seq<char>, Seq<char>, nat, nat, Seq<u8>),
    ProtocolError,
> {
    match r {
        Ok((h, payload)) => Ok(
            (
                h.channel_id@,
                h.source@,
                h.target@,
                h.total_len as nat,
                h.stream_offset as nat,
                payload@,
            ),
        ),
        Err(e) => Err(e),
    }
}

/// Parses a message frame whose fixed header and CRC were already checked:
/// channel id, names, stream total length, stream offset and payload.
pub fn parse_message(bytes: &[u8]) -> (r: ProtocolResult<(MessageHeader, &[u8])>)
    requires
        parse_in_bounds(bytes@),
    ensures
        parse_result_view(r) == parse_message_spec(bytes@),
{
    if bytes.len() < MESSAGE_FIXED_LEN {
        return Err(
            ProtocolError::IncompleteFrame {
                required: MESSAGE_FIXED_LEN,
                actual: bytes.len(),
                context: "channel id",
            },
        );
    }
    let chan_id = ChannelId::try_from_slice(&bytes[FIXED_HEADER_LEN..FIXED_HEADER_LEN + CHANNEL_ID_LEN])?;
    let (source_name, target_name, offset) = read_names(bytes)?;
    let total_len = get_be_u32(bytes, offset) as usize;
    let stream_offset = get_be_u32(bytes, offset + 4) as usize;
    let payload = &bytes[offset + 8..bytes.len() - 2];
    let header = MessageHeader {
        channel_id: chan_id,
        source: source_name,
        target: target_name,
        total_len,
        stream_offset,
    };
    Ok((header, payload))
}


/// Whether `decode_header` can read `bytes` (see `decode_header_in_bounds`).
pub fn header_readable(bytes: &[u8]) -> (r: bool)
    ensures
        r == decode_header_in_bounds(bytes@),
{
    let n = bytes.len();
    if n < MAGIC_LEN || get_be_u32(bytes, 0) != MAGIC {
        return true;
    }
    if n <= 4 {
        return false;
    }
    if bytes[4] != VERSION {
        return true;
    }
    if n <= 5 {
        return false;
    }
    if MessageType::try_from_u8(bytes[5]).is_err() {
        return true;
    }
    if n <= 6 {
        return false;
    }
    if (bytes[6] & MessageFlags::RESERVED_MASK) != 0 {
        return true;
    }
    n >= FIXED_HEADER_LEN
}

/// Whether the name fields of `bytes` can be read (see `names_in_bounds`).
pub fn names_readable(bytes: &[u8]) -> (r: bool)
    ensures
        r == names_in_bounds(bytes@),
{
    let n = bytes.len();
    if n < MESSAGE_FIXED_LEN {
        return true;
    }
    let source_len = get_be_u16(bytes, 27) as usize;
    if source_len > MAX_NAME_LENGTH as usize || source_len == 0 {
        return true;
    }
    let target_pos = 29 + source_len;
    if target_pos > n {
        return false;
    }
    if utf8_to_string(&bytes[29..target_pos]).is_none() {
        return true;
    }
    if target_pos + 2 > n {
        return false;
    }
    let target_len = get_be_u16(bytes, target_pos) as usize;
    if target_len > MAX_NAME_LENGTH as usize || target_len == 0 {
        return true;
    }
    target_pos + 2 + target_len <= n
}

/// Whether `parse_message` can read `bytes` (see `parse_in_bounds`).
pub fn message_readable(bytes: &[u8]) -> (r: bool)
    ensures
        r == parse_in_bounds(bytes@),
{
    if !names_readable(bytes) {
        return false;
    }
    let n = bytes.len();
    if n < MESSAGE_FIXED_LEN {
        return true;
    }
    let source_len = get_be_u16(bytes, 27) as usize;
    if source_len > MAX_NAME_LENGTH as usize || source_len == 0 {
        return true;
    }
    let target_pos = 29 + source_len;
    if utf8_to_string(&bytes[29..target_pos]).is_none() {
        return true;
    }
    let target_len = get_be_u16(bytes, target_pos) as usize;
    if target_len > MAX_NAME_LENGTH as usize || target_len == 0 {
        return true;
    }
    let fields_pos = target_pos + 2 + target_len;
    if utf8_to_string(&bytes[target_pos + 2..fields_pos]).is_none() {
        return true;
    }
    fields_pos + 10 <= n
}

} // verus!
