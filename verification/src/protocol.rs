//! The FernQ wire protocol.
//!
//! Every frame starts with an 11-byte fixed header:
//! magic (4, big endian) | version (1) | type (1) | flags (1) | frame length (4).
//! The frame length counts the bytes after the fixed header, CRC included.
//! The last two bytes of a frame are a CRC-16/XMODEM checksum (big endian)
//! over everything from the version byte up to the checksum.
//!
//! Message frames continue after the fixed header with
//! channel id (16) | source length (2) | source | target length (2) | target |
//! stream total length (4) | stream offset (4) | payload | CRC (2).

use vstd::prelude::*;

pub mod bytes;
pub mod crc;
pub mod decoder;
pub mod describe;
pub mod encoder;
pub mod error;
pub mod frame;
pub mod json;
pub mod message;
pub mod outside;
pub mod roundtrip;
pub mod text;
pub mod validate;

pub use error::{ProtocolError, ProtocolResult};
pub use decoder::{decode_basic, decode_header, get_channel_id, get_message_source_target, parse_message};
pub use encoder::{generate_message_data_stream, ping_frame, pong_frame};
pub use message::{
    decode_from_bytes, decode_from_string, decode_message, decode_message_fields, encode_request,
    encode_request_to_bytes, encode_request_to_string, encode_response, encode_response_to_bytes,
    encode_response_to_string, ContentType, HeaderType, Message, RequestMessage, ResponseMessage,
};
pub use validate::{
    create_message_response, create_validate, create_verify_response, parse_validate,
    parse_verify_response,
};
pub use frame::{validate_magic, validate_version, ChannelId, MessageFlags, MessageHeader, MessageType};

verus! {

/// Protocol magic number, written big endian at the start of every frame.
pub const MAGIC: u32 = 20262351;

/// Protocol version.
pub const VERSION: u8 = 1;

/// Length of the magic field.
pub const MAGIC_LEN: usize = 4;

/// Length of the version field.
pub const VERSION_LEN: usize = 1;

/// Length of the message type field.
pub const TYPE_LEN: usize = 1;

/// Length of the flags field.
pub const FLAGS_LEN: usize = 1;

/// Length of the frame length field.
pub const FRAME_LENGTH_LEN: usize = 4;

/// Length of a channel id.
pub const CHANNEL_ID_LEN: usize = 16;

/// Length of the source name length field.
pub const SOURCE_LEN_SIZE: usize = 2;

/// Length of the target name length field.
pub const TARGET_LEN_SIZE: usize = 2;

/// Length of the stream total length field.
pub const TOTAL_STREAM_LEN: usize = 4;

/// Length of the stream offset field.
pub const STREAM_OFFSET_LEN: usize = 4;

/// Length of the CRC field.
pub const CRC_LEN: usize = 2;

/// Length of the fixed header: magic, version, type, flags and frame length.
pub const FIXED_HEADER_LEN: usize = 11;

/// Length of a message frame without its names and payload.
pub const MESSAGE_FIXED_LEN: usize = 41;

/// Largest frame the encoder produces and the server accepts (8 KiB).
pub const MAX_FRAME_SIZE: usize = 8192;

/// Largest message stream (8 MiB).
pub const MAX_STREAM_LENGTH: u32 = 8388608;

/// Largest source or target name, in bytes.
pub const MAX_NAME_LENGTH: u16 = 128;

/// The layout constants add up as the frame format says.
pub proof fn lemma_layout_lengths()
    ensures
        FIXED_HEADER_LEN == MAGIC_LEN + VERSION_LEN + TYPE_LEN + FLAGS_LEN + FRAME_LENGTH_LEN,
        MESSAGE_FIXED_LEN == FIXED_HEADER_LEN + CHANNEL_ID_LEN + SOURCE_LEN_SIZE + TARGET_LEN_SIZE
            + TOTAL_STREAM_LEN + STREAM_OFFSET_LEN + CRC_LEN,
{
}

} // verus!
