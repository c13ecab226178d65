//! Frame encoder: heartbeat frames and fragmented message streams.

use vstd::prelude::*;

use super::bytes::{be_u16_bytes, be_u32_bytes, push_be_u16, push_be_u32, push_range, push_slice};
use super::error::{ErrorView, ProtocolError, ProtocolResult};
use super::frame::{flag_byte, message_type_byte, ChannelId, MessageFlags, MessageType};
use super::crc::crc16_xmodem;
use super::outside::crc16_checksum;
use super::{FIXED_HEADER_LEN, MAGIC, MAGIC_LEN, MAX_FRAME_SIZE, MAX_NAME_LENGTH, MAX_STREAM_LENGTH, MESSAGE_FIXED_LEN, VERSION};

verus! {

/// The fixed header: magic, version, type, flags and frame length.
pub open spec fn fixed_header(type_byte: u8, flags: u8, frame_len: u32) -> Seq<u8> {
    be_u32_bytes(MAGIC) + seq![VERSION, type_byte, flags] + be_u32_bytes(frame_len)
}

/// `body` followed by the big-endian CRC of everything after the magic.
pub open spec fn sealed(body: Seq<u8>) -> Seq<u8> {
    body + be_u16_bytes(crc16_xmodem(body.skip(MAGIC_LEN as int)))
}

/// The heartbeat frame of the given type and flags (no payload).
pub open spec fn heartbeat_frame(type_byte: u8, flags: u8) -> Seq<u8> {
    sealed(fixed_header(type_byte, flags, 2))
}

/// The bytes after the fixed header of a message frame, up to its CRC.
pub open spec fn message_body(
    channel_id: Seq<u8>,
    source: Seq<u8>,
    target: Seq<u8>,
    total_len: nat,
    offset: nat,
    payload: Seq<u8>,
) -> Seq<u8> {
    channel_id + be_u16_bytes(source.len() as u16) + source + be_u16_bytes(target.len() as u16)
        + target + be_u32_bytes(total_len as u32) + be_u32_bytes(offset as u32) + payload
}

/// The frame length field of a message frame: everything after the fixed header.
pub open spec fn message_frame_len(source_len: nat, target_len: nat, payload_len: nat) -> nat {
    (MESSAGE_FIXED_LEN - FIXED_HEADER_LEN) as nat + source_len + target_len + payload_len
}

/// One message frame.
pub open spec fn message_frame(
    type_byte: u8,
    flags: u8,
    channel_id: Seq<u8>,
    source: Seq<u8>,
    target: Seq<u8>,
    total_len: nat,
    offset: nat,
    payload: Seq<u8>,
) -> Seq<u8> {
    sealed(
        fixed_header(
            type_byte,
            flags,
            message_frame_len(source.len(), target.len(), payload.len()) as u32,
        ) + message_body(channel_id, source, target, total_len, offset, payload),
    )
}

/// Payload room left in a frame by names of these lengths.
pub open spec fn max_payload_len(source_len: nat, target_len: nat) -> int {
    MAX_FRAME_SIZE - MESSAGE_FIXED_LEN - source_len - target_len
}

/// Payload length of the frame that starts at `offset`.
pub open spec fn chunk_len(data_len: nat, max_payload: nat, offset: nat) -> nat {
    if max_payload < data_len - offset {
        max_payload
    } else {
        (data_len - offset) as nat
    }
}

/// The frames of a stream from `offset` on: each carries at most
/// `max_payload` bytes of `data`, and only the last has END_STREAM.
pub open spec fn stream_frames_from(
    type_byte: u8,
    end_channel: bool,
    is_response: bool,
    channel_id: Seq<u8>,
    source: Seq<u8>,
    target: Seq<u8>,
    data: Seq<u8>,
    max_payload: nat,
    offset: nat,
) -> Seq<Seq<u8>>
    decreases data.len() - offset,
{
    if offset >= data.len() || max_payload == 0 {
        Seq::empty()
    } else {
        let n = chunk_len(data.len(), max_payload, offset);
        let flags = flag_byte(offset + n >= data.len(), end_channel, is_response);
        seq![
            message_frame(
                type_byte,
                flags,
                channel_id,
                source,
                target,
                data.len(),
                offset,
                data.subrange(offset as int, (offset + n) as int),
            ),
        ] + stream_frames_from(
            type_byte,
            end_channel,
            is_response,
            channel_id,
            source,
            target,
            data,
            max_payload,
            offset + n,
        )
    }
}

/// All frames of a message stream.
pub open spec fn stream_frames(
    message_type: MessageType,
    end_channel: bool,
    is_response: bool,
    channel_id: Seq<u8>,
    source: Seq<u8>,
    target: Seq<u8>,
    data: Seq<u8>,
) -> Seq<Seq<u8>> {
    stream_frames_from(
        message_type_byte(message_type),
        end_channel,
        is_response,
        channel_id,
        source,
        target,
        data,
        max_payload_len(source.len(), target.len()) as nat,
        0,
    )
}

/// Appends the CRC of `frame[MAGIC_LEN..]` to `frame`.
fn seal(frame: &mut Vec<u8>)
    requires
        old(frame)@.len() >= MAGIC_LEN,
    ensures
        final(frame)@ == sealed(old(frame)@),
{
    let crc = crc16_checksum(&frame.as_slice()[MAGIC_LEN..frame.len()]);
    assert(frame@.subrange(MAGIC_LEN as int, frame@.len() as int) =~= frame@.skip(MAGIC_LEN as int));
    push_be_u16(frame, crc);
}

/// Appends the fixed header to `frame`.
fn push_fixed_header(frame: &mut Vec<u8>, type_byte: u8, flags: u8, frame_len: u32)
    ensures
        final(frame)@ == old(frame)@ + fixed_header(type_byte, flags, frame_len),
{
    push_be_u32(frame, MAGIC);
    frame.push(VERSION);
    frame.push(type_byte);
    frame.push(flags);
    push_be_u32(frame, frame_len);
    assert(final(frame)@ =~= old(frame)@ + fixed_header(type_byte, flags, frame_len));
}

/// The Ping frame: type Ping, END_STREAM and END_CHANNEL set, no payload.
pub fn ping_frame() -> (r: Vec<u8>)
    ensures
        r@ == heartbeat_frame(message_type_byte(MessageType::Ping), flag_byte(true, true, false)),
{
    let mut frame: Vec<u8> = Vec::new();
    push_fixed_header(
        &mut frame,
        MessageType::Ping.as_u8(),
        MessageFlags::new(true, true, false).as_u8(),
        2,
    );
    assert(frame@ =~= fixed_header(
        message_type_byte(MessageType::Ping),
        flag_byte(true, true, false),
        2,
    ));
    seal(&mut frame);
    frame
}

/// The Pong frame: type Pong, END_STREAM, END_CHANNEL and IS_RESPONSE set, no payload.
pub fn pong_frame() -> (r: Vec<u8>)
    ensures
        r@ == heartbeat_frame(message_type_byte(MessageType::Pong), flag_byte(true, true, true)),
{
    let mut frame: Vec<u8> = Vec::new();
    push_fixed_header(
        &mut frame,
        MessageType::Pong.as_u8(),
        MessageFlags::new(true, true, true).as_u8(),
        2,
    );
    assert(frame@ =~= fixed_header(
        message_type_byte(MessageType::Pong),
        flag_byte(true, true, true),
        2,
    ));
    seal(&mut frame);
    frame
}


/// One message frame carrying `data[offset..offset + payload_len]`.
fn build_message_frame(
    type_byte: u8,
    flags: u8,
    channel_id: &ChannelId,
    source: &[u8],
    target: &[u8],
    data: &[u8],
    offset: usize,
    payload_len: usize,
) -> (r: Vec<u8>)
    requires
        source@.len() <= MAX_NAME_LENGTH,
        target@.len() <= MAX_NAME_LENGTH,
        data@.len() <= MAX_STREAM_LENGTH,
        offset + payload_len <= data@.len(),
        payload_len <= MAX_FRAME_SIZE,
    ensures
        r@ == message_frame(
            type_byte,
            flags,
            channel_id@,
            source@,
            target@,
            data@.len(),
            offset as nat,
            data@.subrange(offset as int, offset + payload_len),
        ),
{
    let capacity = MESSAGE_FIXED_LEN + source.len() + target.len() + payload_len;
    let frame_len = capacity - FIXED_HEADER_LEN;
    let mut frame: Vec<u8> = Vec::with_capacity(capacity);
    push_fixed_header(&mut frame, type_byte, flags, frame_len as u32);
    let ghost header = frame@;
    push_slice(&mut frame, channel_id.as_bytes());
    push_be_u16(&mut frame, source.len() as u16);
    push_slice(&mut frame, source);
    push_be_u16(&mut frame, target.len() as u16);
    push_slice(&mut frame, target);
    push_be_u32(&mut frame, data.len() as u32);
    push_be_u32(&mut frame, offset as u32);
    push_range(&mut frame, data, offset, offset + payload_len);
    assert(frame@ =~= header + message_body(
        channel_id@,
        source@,
        target@,
        data@.len(),
        offset as nat,
        data@.subrange(offset as int, offset + payload_len),
    ));
    seal(&mut frame);
    frame
}

/// The byte contents of a list of frames.
pub open spec fn frames_view(frames: Seq<Vec<u8>>) -> Seq<Seq<u8>> {
    frames.map_values(|f: Vec<u8>| f@)
}

/// What `generate_message_data_stream` returns, by the errors' views and
/// the frames' bytes: the first failing check's error, else the frames.
pub open spec fn stream_result(
    message_type: MessageType,
    end_channel: bool,
    is_response: bool,
    channel_id: Seq<u8>,
    source: Seq<char>,
    target: Seq<char>,
    data: Seq<u8>,
) -> Result<Seq<Seq<u8>>, ErrorView> {
    let sb = vstd::utf8::encode_utf8(source);
    let tb = vstd::utf8::encode_utf8(target);
    if source.len() == 0 {
        Err(ErrorView::EmptyName("source"@))
    } else if target.len() == 0 {
        Err(ErrorView::EmptyName("target"@))
    } else if sb.len() > MAX_NAME_LENGTH {
        Err(
            ErrorView::NameTooLong {
                name_type: "source"@,
                length: sb.len() as usize,
                max: MAX_NAME_LENGTH,
            },
        )
    } else if tb.len() > MAX_NAME_LENGTH {
        Err(
            ErrorView::NameTooLong {
                name_type: "target"@,
                length: tb.len() as usize,
                max: MAX_NAME_LENGTH,
            },
        )
    } else if data.len() > MAX_STREAM_LENGTH {
        Err(ErrorView::StreamTooLong { length: data.len() as usize, max: MAX_STREAM_LENGTH })
    } else {
        Ok(stream_frames(message_type, end_channel, is_response, channel_id, sb, tb, data))
    }
}

/// A frame list result, by the error's view and the frames' bytes.
pub open spec fn stream_result_view(r: ProtocolResult<Vec<Vec<u8>>>) -> Result<Seq<Seq<u8>>, ErrorView> {
    match r {
        Ok(frames) => Ok(frames_view(frames@)),
        Err(e) => Err(e@),
    }
}

/// Splits `data` into message frames.
///
/// Each frame carries the channel id, both names, the stream's total length
/// and the frame's offset in it, and at most `MAX_FRAME_SIZE` bytes in all;
/// only the last frame has END_STREAM.  Names must be 1 to `MAX_NAME_LENGTH`
/// bytes, the data at most `MAX_STREAM_LENGTH` bytes.  Empty data gives no frame.
pub fn generate_message_data_stream(
    message_type: MessageType,
    end_channel: bool,
    is_response: bool,
    channel_id: &ChannelId,
    source_name: &str,
    target_name: &str,
    data: &[u8],
) -> (r: ProtocolResult<Vec<Vec<u8>>>)
    ensures
        stream_result_view(r) == stream_result(
            message_type,
            end_channel,
            is_response,
            channel_id@,
            source_name@,
            target_name@,
            data@,
        ),
{
    if source_name.is_empty() {
        return Err(ProtocolError::EmptyName("source"));
    }
    if target_name.is_empty() {
        return Err(ProtocolError::EmptyName("target"));
    }
    let source_name_bytes = source_name.as_bytes();
    let target_name_bytes = target_name.as_bytes();
    let source_name_len = source_name_bytes.len();
    let target_name_len = target_name_bytes.len();
    if source_name_len > MAX_NAME_LENGTH as usize {
        return Err(
            ProtocolError::NameTooLong {
                name_type: "source",
                length: source_name_len,
                max: MAX_NAME_LENGTH,
            },
        );
    }
    if target_name_len > MAX_NAME_LENGTH as usize {
        return Err(
            ProtocolError::NameTooLong {
                name_type: "target",
                length: target_name_len,
                max: MAX_NAME_LENGTH,
            },
        );
    }
    let max_payload_len = MAX_FRAME_SIZE - MESSAGE_FIXED_LEN - source_name_len - target_name_len;
    if max_payload_len == 0 {
        return Err(ProtocolError::InvalidFrameLength("names too long, no space for payload".to_owned()));
    }
    let total_stream_length = data.len();
    if total_stream_length > MAX_STREAM_LENGTH as usize {
        return Err(
            ProtocolError::StreamTooLong { length: total_stream_length, max: MAX_STREAM_LENGTH },
        );
    }
    let type_byte = message_type.as_u8();
    let ghost id = channel_id@;
    let ghost sb = source_name_bytes@;
    let ghost tb = target_name_bytes@;
    let ghost all = stream_frames_from(
        type_byte,
        end_channel,
        is_response,
        id,
        sb,
        tb,
        data@,
        max_payload_len as nat,
        0,
    );
    let mut frames: Vec<Vec<u8>> = Vec::new();
    let mut offset: usize = 0;
    assert(frames_view(frames@) =~= Seq::<Seq<u8>>::empty());
    while offset < total_stream_length
        invariant
            offset <= total_stream_length == data@.len() <= MAX_STREAM_LENGTH,
            sb == source_name_bytes@,
            tb == target_name_bytes@,
            source_name_len == sb.len() <= MAX_NAME_LENGTH,
            target_name_len == tb.len() <= MAX_NAME_LENGTH,
            id == channel_id@,
            max_payload_len == MAX_FRAME_SIZE - MESSAGE_FIXED_LEN - source_name_len - target_name_len,
            all == stream_frames_from(
                type_byte,
                end_channel,
                is_response,
                id,
                sb,
                tb,
                data@,
                max_payload_len as nat,
                0,
            ),
            frames_view(frames@) + stream_frames_from(
                type_byte,
                end_channel,
                is_response,
                id,
                sb,
                tb,
                data@,
                max_payload_len as nat,
                offset as nat,
            ) == all,
        decreases total_stream_length - offset,
    {
        let payload_len = if max_payload_len < total_stream_length - offset {
            max_payload_len
        } else {
            total_stream_length - offset
        };
        let end_stream = offset + payload_len >= total_stream_length;
        let frame = build_message_frame(
            type_byte,
            MessageFlags::new(end_stream, end_channel, is_response).as_u8(),
            channel_id,
            source_name_bytes,
            target_name_bytes,
            data,
            offset,
            payload_len,
        );
        let ghost f = frame@;
        let ghost before = frames@;
        frames.push(frame);
        assert(frames_view(frames@) =~= frames_view(before).push(f));
        assert(stream_frames_from(
            type_byte,
            end_channel,
            is_response,
            id,
            sb,
            tb,
            data@,
            max_payload_len as nat,
            offset as nat,
        ) =~= seq![f] + stream_frames_from(
            type_byte,
            end_channel,
            is_response,
            id,
            sb,
            tb,
            data@,
            max_payload_len as nat,
            (offset + payload_len) as nat,
        ));
        offset = offset + payload_len;
    }
    assert(frames_view(frames@) =~= all);
    Ok(frames)
}

} // verus!
