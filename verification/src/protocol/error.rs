//! Protocol error type.

use vstd::prelude::*;

verus! {

/// Everything that can go wrong while encoding, decoding or validating
/// protocol data.
#[allow(inconsistent_fields)]
#[derive(Debug, Clone, PartialEq)]
pub enum ProtocolError {
    /// Unknown message type byte.
    UnknownMessageType(u8),
    /// Flags byte with a reserved bit set.
    InvalidFlags(u8),
    /// Magic number mismatch.
    InvalidMagic { received: u32, expected: u32 },
    /// Version mismatch.
    InvalidVersion { received: u8, expected: u8 },
    /// Bad frame length (general format error).
    InvalidFrameLength(String),
    /// Not enough bytes for the part being decoded.
    IncompleteFrame {
        /// Bytes needed.
        required: usize,
        /// Bytes available.
        actual: usize,
        /// What was being decoded ("fixed header", "complete frame", ...).
        context: &'static str,
    },
    /// A source or target name exceeds the limit.
    NameTooLong { name_type: &'static str, length: usize, max: u16 },
    /// A message stream exceeds the limit.
    StreamTooLong { length: usize, max: u32 },
    /// Arithmetic overflow while computing a length.
    LengthOverflow(&'static str),
    /// Stream offset out of range.
    InvalidOffset { offset: u32, total: u32 },
    /// CRC check failed.
    CrcMismatch { received: u16, calculated: u16 },
    /// Malformed frame or field.
    MalformedFrame(String),
    /// Empty name.
    EmptyName(&'static str),
    /// A UUID must be 16 bytes.
    InvalidUuidLength { expected: usize, actual: usize },
    /// Text that is no UUID.
    InvalidUuidFormat(String),
    /// Bad number of targets for channel assignment.
    InvalidTargetCount { received: usize, reason: String },
    /// Name bytes that are not UTF-8.
    InvalidName(&'static str),
    /// URL without the `fernq://` scheme.
    InvalidProtocol(String),
    /// URL without an address.
    EmptyAddress,
    /// Bad port number.
    InvalidPort(String),
    /// Payload that is not UTF-8.
    InvalidUtf8,
    /// URL without a UUID.
    MissingUuid,
    /// URL without a room name (`#name`).
    MissingName,
    /// URL without `room_pass`.
    MissingPassword,
    /// Empty `room_pass`.
    EmptyPassword,
    /// JSON parse or shape error.
    InvalidJson(String),
    /// `header_type` that is neither request nor response.
    InvalidHeaderType(String),
    /// Unknown `content_type`.
    InvalidContentType(String),
    /// Request without `path`.
    MissingPath,
    /// Response without `state`.
    MissingState,
    /// Body on a form or form_flow message.
    UnexpectedBody,
    /// Missing body (no longer produced: a JSON body is optional).
    MissingBody,
    /// State code outside 100..=599.
    InvalidStateCode(i64),
}

/// Result of a protocol operation.
pub type ProtocolResult<T> = Result<T, ProtocolError>;

/// A protocol error with its texts taken by their characters; contracts
/// compare errors through this view.
#[allow(inconsistent_fields)]
pub enum ErrorView {
    UnknownMessageType(u8),
    InvalidFlags(u8),
    InvalidMagic { received: u32, expected: u32 },
    InvalidVersion { received: u8, expected: u8 },
    InvalidFrameLength(Seq<char>),
    IncompleteFrame { required: usize, actual: usize, context: Seq<char> },
    NameTooLong { name_type: Seq<char>, length: usize, max: u16 },
    StreamTooLong { length: usize, max: u32 },
    LengthOverflow(Seq<char>),
    InvalidOffset { offset: u32, total: u32 },
    CrcMismatch { received: u16, calculated: u16 },
    MalformedFrame(Seq<char>),
    EmptyName(Seq<char>),
    InvalidUuidLength { expected: usize, actual: usize },
    InvalidUuidFormat(Seq<char>),
    InvalidTargetCount { received: usize, reason: Seq<char> },
    InvalidName(Seq<char>),
    InvalidProtocol(Seq<char>),
    EmptyAddress,
    InvalidPort(Seq<char>),
    InvalidUtf8,
    MissingUuid,
    MissingName,
    MissingPassword,
    EmptyPassword,
    InvalidJson(Seq<char>),
    InvalidHeaderType(Seq<char>),
    InvalidContentType(Seq<char>),
    MissingPath,
    MissingState,
    UnexpectedBody,
    MissingBody,
    InvalidStateCode(i64),
}

impl View for ProtocolError {
    type V = ErrorView;

    open spec fn view(&self) -> ErrorView {
        match *self {
            ProtocolError::UnknownMessageType(v) => ErrorView::UnknownMessageType(v),
            ProtocolError::InvalidFlags(v) => ErrorView::InvalidFlags(v),
            ProtocolError::InvalidMagic { received, expected } => ErrorView::InvalidMagic { received, expected },
            ProtocolError::InvalidVersion { received, expected } => ErrorView::InvalidVersion { received, expected },
            ProtocolError::InvalidFrameLength(m) => ErrorView::InvalidFrameLength(m@),
            ProtocolError::IncompleteFrame { required, actual, context } => ErrorView::IncompleteFrame { required, actual, context: context@ },
            ProtocolError::NameTooLong { name_type, length, max } => ErrorView::NameTooLong { name_type: name_type@, length, max },
            ProtocolError::StreamTooLong { length, max } => ErrorView::StreamTooLong { length, max },
            ProtocolError::LengthOverflow(m) => ErrorView::LengthOverflow(m@),
            ProtocolError::InvalidOffset { offset, total } => ErrorView::InvalidOffset { offset, total },
            ProtocolError::CrcMismatch { received, calculated } => ErrorView::CrcMismatch { received, calculated },
            ProtocolError::MalformedFrame(m) => ErrorView::MalformedFrame(m@),
            ProtocolError::EmptyName(m) => ErrorView::EmptyName(m@),
            ProtocolError::InvalidUuidLength { expected, actual } => ErrorView::InvalidUuidLength { expected, actual },
            ProtocolError::InvalidUuidFormat(m) => ErrorView::InvalidUuidFormat(m@),
            ProtocolError::InvalidTargetCount { received, reason } => ErrorView::InvalidTargetCount { received, reason: reason@ },
            ProtocolError::InvalidName(m) => ErrorView::InvalidName(m@),
            ProtocolError::InvalidProtocol(m) => ErrorView::InvalidProtocol(m@),
            ProtocolError::EmptyAddress => ErrorView::EmptyAddress,
            ProtocolError::InvalidPort(m) => ErrorView::InvalidPort(m@),
            ProtocolError::InvalidUtf8 => ErrorView::InvalidUtf8,
            ProtocolError::MissingUuid => ErrorView::MissingUuid,
            ProtocolError::MissingName => ErrorView::MissingName,
            ProtocolError::MissingPassword => ErrorView::MissingPassword,
            ProtocolError::EmptyPassword => ErrorView::EmptyPassword,
            ProtocolError::InvalidJson(m) => ErrorView::InvalidJson(m@),
            ProtocolError::InvalidHeaderType(m) => ErrorView::InvalidHeaderType(m@),
            ProtocolError::InvalidContentType(m) => ErrorView::InvalidContentType(m@),
            ProtocolError::MissingPath => ErrorView::MissingPath,
            ProtocolError::MissingState => ErrorView::MissingState,
            ProtocolError::UnexpectedBody => ErrorView::UnexpectedBody,
            ProtocolError::MissingBody => ErrorView::MissingBody,
            ProtocolError::InvalidStateCode(c) => ErrorView::InvalidStateCode(c),
        }
    }
}

} // verus!
