//! Frame fields: magic, version, message type, flags and channel ids.

use vstd::prelude::*;

use super::bytes::{get_be_u32, read_be_u32};
use super::describe::{magic_length_spec, magic_length_text};
use super::error::{ProtocolError, ProtocolResult};
use super::outside;
use super::{MAGIC, VERSION};

verus! {

/// Checks that `bytes` is exactly the four big-endian bytes of the magic number.
pub fn validate_magic(bytes: &[u8]) -> (r: ProtocolResult<u32>)
    ensures
        bytes@.len() != 4 ==> (r matches Err(ProtocolError::InvalidFrameLength(msg))
            && msg@ == magic_length_spec(bytes@.len())),
        bytes@.len() == 4 && read_be_u32(bytes@, 0) != MAGIC ==> r == Err::<u32, ProtocolError>(
            ProtocolError::InvalidMagic { received: read_be_u32(bytes@, 0) as u32, expected: MAGIC },
        ),
        bytes@.len() == 4 && read_be_u32(bytes@, 0) == MAGIC ==> r == Ok::<u32, ProtocolError>(
            MAGIC,
        ),
{
    if bytes.len() != 4 {
        return Err(ProtocolError::InvalidFrameLength(magic_length_text(bytes.len())));
    }
    let magic = get_be_u32(bytes, 0);
    if magic != MAGIC {
        return Err(ProtocolError::InvalidMagic { received: magic, expected: MAGIC });
    }
    Ok(magic)
}

/// Checks that `byte` is the protocol version.
pub fn validate_version(byte: u8) -> (r: ProtocolResult<u8>)
    ensures
        byte == VERSION ==> r == Ok::<u8, ProtocolError>(byte),
        byte != VERSION ==> r == Err::<u8, ProtocolError>(
            ProtocolError::InvalidVersion { received: byte, expected: VERSION },
        ),
{
    if byte != VERSION {
        return Err(ProtocolError::InvalidVersion { received: byte, expected: VERSION });
    }
    Ok(byte)
}

/// Message type (one byte on the wire: 0x01 to 0x04).
#[derive(Debug, Clone, Copy, PartialEq, Eq, Structural, Hash)]
pub enum MessageType {
    /// Metadata exchanged when a connection is set up (handshake).
    Header,
    /// Business payload.
    Body,
    /// Heartbeat probe.
    Ping,
    /// Heartbeat answer.
    Pong,
}

/// The byte that encodes a message type.
pub open spec fn message_type_byte(t: MessageType) -> u8 {
    match t {
        MessageType::Header => 0x01,
        MessageType::Body => 0x02,
        MessageType::Ping => 0x03,
        MessageType::Pong => 0x04,
    }
}

/// The message type a byte encodes, if any.
pub open spec fn message_type_of(b: u8) -> Option<MessageType> {
    if b == 0x01 {
        Some(MessageType::Header)
    } else if b == 0x02 {
        Some(MessageType::Body)
    } else if b == 0x03 {
        Some(MessageType::Ping)
    } else if b == 0x04 {
        Some(MessageType::Pong)
    } else {
        None
    }
}

impl MessageType {
    /// The byte written on the wire for this type.
    pub fn as_u8(self) -> (r: u8)
        ensures
            r == message_type_byte(self),
    {
        match self {
            MessageType::Header => 0x01,
            MessageType::Body => 0x02,
            MessageType::Ping => 0x03,
            MessageType::Pong => 0x04,
        }
    }

    /// The type a wire byte encodes; `UnknownMessageType` for any other byte.
    pub fn try_from_u8(value: u8) -> (r: ProtocolResult<MessageType>)
        ensures
            message_type_of(value) matches Some(t) ==> r == Ok::<MessageType, ProtocolError>(t),
            message_type_of(value) is None ==> r == Err::<MessageType, ProtocolError>(
                ProtocolError::UnknownMessageType(value),
            ),
    {
        match value {
            0x01 => Ok(MessageType::Header),
            0x02 => Ok(MessageType::Body),
            0x03 => Ok(MessageType::Ping),
            0x04 => Ok(MessageType::Pong),
            _ => Err(ProtocolError::UnknownMessageType(value)),
        }
    }

    /// The name of the type as it is displayed.
    pub fn name(&self) -> (r: &'static str)
        ensures
            r@ == message_type_name(*self),
    {
        match self {
            MessageType::Header => "HEADER",
            MessageType::Body => "Body",
            MessageType::Ping => "PING",
            MessageType::Pong => "PONG",
        }
    }
}

/// The display name of a message type.
pub open spec fn message_type_name(t: MessageType) -> Seq<char> {
    match t {
        MessageType::Header => "HEADER"@,
        MessageType::Body => "Body"@,
        MessageType::Ping => "PING"@,
        MessageType::Pong => "PONG"@,
    }
}

/// Every type byte decodes back to its type, and only the four type bytes decode.
pub proof fn lemma_message_type_roundtrip(t: MessageType, b: u8)
    ensures
        message_type_of(message_type_byte(t)) == Some(t),
        message_type_of(b) matches Some(u) ==> message_type_byte(u) == b,
{
}


/// The flag byte built from the three flags.
pub open spec fn flag_byte(end_stream: bool, end_channel: bool, is_response: bool) -> u8 {
    (if end_stream { 0x80u8 } else { 0u8 }) | (if end_channel { 0x40u8 } else { 0u8 }) | (if is_response {
        0x20u8
    } else {
        0u8
    })
}

/// END_STREAM (bit 7) is set in `b`.
pub open spec fn bit_end_stream(b: u8) -> bool {
    b & 0x80 != 0
}

/// END_CHANNEL (bit 6) is set in `b`.
pub open spec fn bit_end_channel(b: u8) -> bool {
    b & 0x40 != 0
}

/// IS_RESPONSE (bit 5) is set in `b`.
pub open spec fn bit_is_response(b: u8) -> bool {
    b & 0x20 != 0
}

/// The reserved bits 4..0 of `b` are all zero.
pub open spec fn reserved_clear(b: u8) -> bool {
    b & 0x1f == 0
}

/// Message flags (one byte).
///
/// Bit 7 END_STREAM, bit 6 END_CHANNEL, bit 5 IS_RESPONSE (0 = request,
/// 1 = response); bits 4..0 are reserved and must be zero on the wire.
#[derive(Debug, Clone, Copy, PartialEq, Eq, Default)]
pub struct MessageFlags(u8);

impl MessageFlags {
    /// END_STREAM mask.
    pub const END_STREAM: u8 = 0x80;

    /// END_CHANNEL mask.
    pub const END_CHANNEL: u8 = 0x40;

    /// IS_RESPONSE mask.
    pub const IS_RESPONSE: u8 = 0x20;

    /// Mask of the reserved bits.
    pub const RESERVED_MASK: u8 = 0x1f;

    /// The flag byte.
    pub closed spec fn bits(self) -> u8 {
        self.0
    }

    /// Flags from the three booleans.
    pub fn new(end_stream: bool, end_channel: bool, is_response: bool) -> (r: Self)
        ensures
            r.bits() == flag_byte(end_stream, end_channel, is_response),
    {
        let val: u8 = (if end_stream {
            Self::END_STREAM
        } else {
            0
        }) | (if end_channel {
            Self::END_CHANNEL
        } else {
            0
        }) | (if is_response {
            Self::IS_RESPONSE
        } else {
            0
        });
        MessageFlags(val)
    }

    /// The byte written on the wire.
    pub fn as_u8(self) -> (r: u8)
        ensures
            r == self.bits(),
    {
        self.0
    }

    /// END_STREAM is set.
    pub fn end_stream(&self) -> (r: bool)
        ensures
            r == bit_end_stream(self.bits()),
    {
        (self.0 & Self::END_STREAM) != 0
    }

    /// END_CHANNEL is set.
    pub fn end_channel(&self) -> (r: bool)
        ensures
            r == bit_end_channel(self.bits()),
    {
        (self.0 & Self::END_CHANNEL) != 0
    }

    /// IS_RESPONSE is set.
    pub fn is_response(&self) -> (r: bool)
        ensures
            r == bit_is_response(self.bits()),
    {
        (self.0 & Self::IS_RESPONSE) != 0
    }

    /// IS_RESPONSE is clear: the frame belongs to a request.
    pub fn is_request(&self) -> (r: bool)
        ensures
            r == !bit_is_response(self.bits()),
    {
        !self.is_response()
    }

    /// The reserved bits are all zero.
    pub fn is_valid(&self) -> (r: bool)
        ensures
            r == reserved_clear(self.bits()),
    {
        (self.0 & Self::RESERVED_MASK) == 0
    }

    /// Flags from a wire byte; `InvalidFlags` when a reserved bit is set.
    pub fn try_from_u8(value: u8) -> (r: ProtocolResult<MessageFlags>)
        ensures
            reserved_clear(value) ==> (r matches Ok(f) && f.bits() == value),
            !reserved_clear(value) ==> r == Err::<MessageFlags, ProtocolError>(
                ProtocolError::InvalidFlags(value),
            ),
    {
        if (value & Self::RESERVED_MASK) != 0 {
            return Err(ProtocolError::InvalidFlags(value));
        }
        Ok(MessageFlags(value))
    }

    /// The three flags as a tuple (END_STREAM, END_CHANNEL, IS_RESPONSE).
    pub fn to_tuple(self) -> (r: (bool, bool, bool))
        ensures
            r == (bit_end_stream(self.bits()), bit_end_channel(self.bits()), bit_is_response(
                self.bits(),
            )),
    {
        (self.end_stream(), self.end_channel(), self.is_response())
    }

    /// Two flag values with the same byte are the same value.
    pub proof fn lemma_bits_determine(a: MessageFlags, b: MessageFlags)
        requires
            a.bits() == b.bits(),
        ensures
            a == b,
    {
    }
}

impl From<MessageFlags> for (bool, bool, bool) {
    fn from(flags: MessageFlags) -> (r: (bool, bool, bool)) {
        flags.to_tuple()
    }
}

impl vstd::std_specs::convert::FromSpecImpl<MessageFlags> for (bool, bool, bool) {
    open spec fn obeys_from_spec() -> bool {
        true
    }

    open spec fn from_spec(flags: MessageFlags) -> (bool, bool, bool) {
        (bit_end_stream(flags.bits()), bit_end_channel(flags.bits()), bit_is_response(flags.bits()))
    }
}

/// Flags built from three booleans read back as those booleans, and leave
/// the reserved bits clear.
pub proof fn lemma_flag_byte_fields(es: bool, ec: bool, ir: bool)
    ensures
        bit_end_stream(flag_byte(es, ec, ir)) == es,
        bit_end_channel(flag_byte(es, ec, ir)) == ec,
        bit_is_response(flag_byte(es, ec, ir)) == ir,
        reserved_clear(flag_byte(es, ec, ir)),
{
    let b = flag_byte(es, ec, ir);
    assert(b & 0x80 != 0 <==> es) by (bit_vector)
        requires
            b == (if es { 0x80u8 } else { 0u8 }) | (if ec { 0x40u8 } else { 0u8 }) | (if ir {
                0x20u8
            } else {
                0u8
            }),
    ;
    assert(b & 0x40 != 0 <==> ec) by (bit_vector)
        requires
            b == (if es { 0x80u8 } else { 0u8 }) | (if ec { 0x40u8 } else { 0u8 }) | (if ir {
                0x20u8
            } else {
                0u8
            }),
    ;
    assert(b & 0x20 != 0 <==> ir) by (bit_vector)
        requires
            b == (if es { 0x80u8 } else { 0u8 }) | (if ec { 0x40u8 } else { 0u8 }) | (if ir {
                0x20u8
            } else {
                0u8
            }),
    ;
    assert(b & 0x1f == 0) by (bit_vector)
        requires
            b == (if es { 0x80u8 } else { 0u8 }) | (if ec { 0x40u8 } else { 0u8 }) | (if ir {
                0x20u8
            } else {
                0u8
            }),
    ;
}


/// The big-endian 64-bit number stored at `b[i..i + 8]`.
pub open spec fn read_be_u64(b: Seq<u8>, i: int) -> int {
    read_be_u32(b, i) * 0x1_0000_0000 + read_be_u32(b, i + 4)
}

/// `n` is a power of two (exactly one bit set).
pub open spec fn is_power_of_two(n: usize) -> bool {
    n != 0 && n & ((n - 1) as usize) == 0
}

/// Channel id: 16 bytes (a version 4 UUID when generated here).
#[derive(Clone, Copy, PartialEq, Eq, Hash, Debug)]
pub struct ChannelId {
    bytes: [u8; 16],
}

impl View for ChannelId {
    type V = Seq<u8>;

    closed spec fn view(&self) -> Seq<u8> {
        self.bytes@
    }
}

impl ChannelId {
    /// The id's bytes as an array.
    pub closed spec fn byte_array(self) -> [u8; 16] {
        self.bytes
    }

    /// A fresh random id (UUID v4).
    pub fn new() -> (r: Self)
        ensures
            r@.len() == 16,
            r@[6] & 0xf0 == 0x40,
            r@[8] & 0xc0 == 0x80,
    {
        ChannelId { bytes: outside::random_uuid_bytes() }
    }

    /// The id made of these 16 bytes.
    pub fn from_bytes(bytes: [u8; 16]) -> (r: Self)
        ensures
            r@ == bytes@,
    {
        ChannelId { bytes }
    }

    /// The 16 bytes of the id.
    pub fn as_bytes(&self) -> (r: &[u8; 16])
        ensures
            r@ == self@,
    {
        &self.bytes
    }

    /// The 16 bytes of the id, by value.
    pub fn into_bytes(self) -> (r: [u8; 16])
        ensures
            r@ == self@,
            r == self.byte_array(),
    {
        self.bytes
    }

    /// The id made of a 16-byte slice; `InvalidUuidLength` for any other length.
    pub fn try_from_slice(slice: &[u8]) -> (r: ProtocolResult<Self>)
        ensures
            slice@.len() == 16 ==> (r matches Ok(id) && id@ == slice@),
            slice@.len() != 16 ==> r == Err::<ChannelId, ProtocolError>(
                ProtocolError::InvalidUuidLength { expected: 16, actual: slice@.len() as usize },
            ),
    {
        if slice.len() != 16 {
            return Err(ProtocolError::InvalidUuidLength { expected: 16, actual: slice.len() });
        }
        let mut bytes = [0u8; 16];
        let mut i: usize = 0;
        while i < 16
            invariant
                i <= 16,
                slice@.len() == 16,
                forall|j: int| 0 <= j < i ==> bytes@[j] == slice@[j],
            decreases 16 - i,
        {
            bytes[i] = slice[i];
            i = i + 1;
        }
        assert(bytes@ =~= slice@);
        Ok(ChannelId { bytes })
    }

    /// The last 8 bytes as a big-endian number (used for consistent hashing).
    pub fn hash_u64(&self) -> (r: u64)
        ensures
            r == read_be_u64(self@, 8),
    {
        let hi = get_be_u32(&self.bytes, 8);
        let lo = get_be_u32(&self.bytes, 12);
        (hi as u64) * 0x1_0000_0000 + (lo as u64)
    }

    /// Worker index `hash % total_targets`; `InvalidTargetCount` when there are no targets.
    pub fn assign_target(&self, total_targets: usize) -> (r: ProtocolResult<usize>)
        ensures
            total_targets == 0 ==> (r matches Err(ProtocolError::InvalidTargetCount { received, reason })
                && received == 0 && reason@ == "must be greater than 0"@),
            total_targets > 0 ==> r == Ok::<usize, ProtocolError>(
                ((read_be_u64(self@, 8) as u64) as usize) % total_targets,
            ),
            r matches Ok(i) ==> i < total_targets,
    {
        if total_targets == 0 {
            return Err(
                ProtocolError::InvalidTargetCount {
                    received: 0,
                    reason: "must be greater than 0".to_owned(),
                },
            );
        }
        Ok((self.hash_u64() as usize) % total_targets)
    }

    /// Worker index by masking: `hash & (total_targets - 1)`; the count must
    /// be a power of two, else `InvalidTargetCount`.
    pub fn assign_target_fast(&self, total_targets: usize) -> (r: ProtocolResult<usize>)
        ensures
            !is_power_of_two(total_targets) ==> (r matches Err(
                ProtocolError::InvalidTargetCount { received, reason },
            ) && received == total_targets && reason@
                == "must be power of 2 for fast path (e.g., 16, 32, 64, 128)"@),
            is_power_of_two(total_targets) ==> r == Ok::<usize, ProtocolError>(
                ((read_be_u64(self@, 8) as u64) as usize) & ((total_targets - 1) as usize),
            ),
            is_power_of_two(total_targets) ==> r == Ok::<usize, ProtocolError>(
                ((read_be_u64(self@, 8) as u64) as usize) % total_targets,
            ),
            r matches Ok(i) ==> i < total_targets,
    {
        proof {
            if is_power_of_two(total_targets) {
                lemma_mask_is_mod((read_be_u64(self@, 8) as u64) as usize, total_targets);
            }
        }
        if !(total_targets != 0 && (total_targets & (total_targets - 1)) == 0) {
            return Err(
                ProtocolError::InvalidTargetCount {
                    received: total_targets,
                    reason: "must be power of 2 for fast path (e.g., 16, 32, 64, 128)".to_owned(),
                },
            );
        }
        Ok((self.hash_u64() as usize) & (total_targets - 1))
    }
}

impl Default for ChannelId {
    fn default() -> (r: Self)
    {
        Self::new()
    }
}

impl From<ChannelId> for [u8; 16] {
    fn from(id: ChannelId) -> (r: [u8; 16]) {
        id.into_bytes()
    }
}

impl vstd::std_specs::convert::FromSpecImpl<ChannelId> for [u8; 16] {
    open spec fn obeys_from_spec() -> bool {
        true
    }

    open spec fn from_spec(id: ChannelId) -> [u8; 16] {
        id.byte_array()
    }
}

/// For a power-of-two number of targets, the fast (masking) assignment
/// picks the same target as the standard (modulo) assignment, and that
/// target is one of the `total_targets`.
pub proof fn lemma_assign_fast_agrees(id: ChannelId, total_targets: usize)
    requires
        is_power_of_two(total_targets),
    ensures
        ((read_be_u64(id@, 8) as u64) as usize) & ((total_targets - 1) as usize) == ((read_be_u64(
            id@,
            8,
        ) as u64) as usize) % total_targets,
        ((read_be_u64(id@, 8) as u64) as usize) & ((total_targets - 1) as usize) < total_targets,
{
    lemma_mask_is_mod((read_be_u64(id@, 8) as u64) as usize, total_targets);
}

/// Masking with `n - 1` is reduction modulo `n` when `n` is a power of two.
pub proof fn lemma_mask_is_mod(x: usize, n: usize)
    requires
        is_power_of_two(n),
    ensures
        x & ((n - 1) as usize) == x % n,
    decreases n,
{
    if n == 1 {
        assert(x & 0 == 0) by (bit_vector);
    } else {
        let m = n / 2;
        assert(n % 2 == 0 && m & ((m - 1) as usize) == 0 && m != 0 && n == 2 * m) by (bit_vector)
            requires
                n != 0,
                n != 1,
                n & ((n - 1) as usize) == 0,
                m == n / 2,
        ;
        lemma_mask_is_mod(x / 2, m);
        assert(x & ((n - 1) as usize) == 2 * ((x / 2) & ((m - 1) as usize)) + x % 2) by (bit_vector)
            requires
                n == 2 * m,
                m != 0,
        ;
        vstd::arithmetic::div_mod::lemma_mod_breakdown(x as int, 2, m as int);
    }
}

/// The decoded header of a message frame.
#[derive(Debug)]
pub struct MessageHeader {
    pub channel_id: ChannelId,
    pub source: String,
    pub target: String,
    pub total_len: usize,
    pub stream_offset: usize,
}

} // verus!
