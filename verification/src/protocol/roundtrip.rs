//! What the decoder makes of the encoder's frames.

use vstd::prelude::*;

use super::bytes::{be_u16_bytes, be_u32_bytes, lemma_read_u16_at, lemma_read_u32_at, read_be_u16, read_be_u32};
use super::decoder::{decode_basic_spec, decode_header_spec, names_in_bounds, names_spec, parse_in_bounds, parse_message_spec, source_bytes_of, source_len_of, source_len_pos, stream_fields_pos, target_bytes_of, target_len_of, target_len_pos};
use super::encoder::{chunk_len, fixed_header, heartbeat_frame, max_payload_len, message_body, message_frame, message_frame_len, sealed, stream_frames, stream_frames_from};
use super::error::ProtocolError;
use super::validate::{create_validate_spec, parse_validate_spec, url_fields_spec, verdict_object, verify_response_spec, lemma_verdict_reads_back};
use super::message::json_bytes;
use super::frame::{flag_byte, lemma_flag_byte_fields, message_type_byte, message_type_of, reserved_clear, MessageType};
use super::crc::crc16_xmodem;
use super::{FIXED_HEADER_LEN, MAGIC, MAGIC_LEN, MAX_FRAME_SIZE, MAX_NAME_LENGTH, MAX_STREAM_LENGTH, VERSION};

verus! {

/// A sealed frame whose frame-length field counts its body and CRC is split
/// off any following bytes with its type and flags, and its fixed header
/// decodes to the same type, flags and length.
pub proof fn lemma_sealed_frame_decodes(type_byte: u8, flags: u8, body: Seq<u8>, rest: Seq<u8>)
    requires
        message_type_of(type_byte) is Some,
        reserved_clear(flags),
        body.len() + 2 <= u32::MAX,
        FIXED_HEADER_LEN + body.len() + 2 + rest.len() <= usize::MAX,
    ensures
        ({
            let frame = sealed(fixed_header(type_byte, flags, (body.len() + 2) as u32) + body);
            &&& frame.len() == FIXED_HEADER_LEN + body.len() + 2
            &&& decode_basic_spec(frame + rest) == Ok::<
                (MessageType, u8, Seq<u8>, Seq<u8>),
                super::error::ProtocolError,
            >((message_type_of(type_byte)->0, flags, frame, rest))
            &&& decode_header_spec(frame) == Ok::<(MessageType, u8, nat), super::error::ProtocolError>(
                (message_type_of(type_byte)->0, flags, (body.len() + 2) as nat),
            )
            &&& decode_header_spec(frame.subrange(0, FIXED_HEADER_LEN as int)) == Ok::<
                (MessageType, u8, nat),
                super::error::ProtocolError,
            >((message_type_of(type_byte)->0, flags, (body.len() + 2) as nat))
        }),
{
    let len = (body.len() + 2) as u32;
    let h = fixed_header(type_byte, flags, len);
    let pre = h + body;
    let frame = sealed(pre);
    let b = frame + rest;
    let crc = crc16_xmodem(pre.skip(MAGIC_LEN as int));
    assert(h.len() == 11);
    assert(frame.len() == 11 + body.len() + 2);
    let total: int = (11 + body.len() + 2) as int;
    assert(b.subrange(0, 4) =~= be_u32_bytes(MAGIC));
    lemma_read_u32_at(b, 0, MAGIC);
    assert(b.subrange(7, 11) =~= be_u32_bytes(len));
    lemma_read_u32_at(b, 7, len);
    assert(frame.subrange(0, 4) =~= be_u32_bytes(MAGIC));
    lemma_read_u32_at(frame, 0, MAGIC);
    assert(frame.subrange(7, 11) =~= be_u32_bytes(len));
    lemma_read_u32_at(frame, 7, len);
    assert(b.subrange(0, total) =~= frame);
    assert(frame.subrange(MAGIC_LEN as int, total - 2) =~= pre.skip(MAGIC_LEN as int));
    assert(frame.subrange(total - 2, total) =~= be_u16_bytes(crc));
    lemma_read_u16_at(frame, total - 2, crc);
    assert(b.subrange(total, b.len() as int) =~= rest);
    assert(b[4] == VERSION && b[5] == type_byte && b[6] == flags);
    assert(frame[4] == VERSION && frame[5] == type_byte && frame[6] == flags);
    let hd = frame.subrange(0, 11);
    assert(hd.subrange(0, 4) =~= be_u32_bytes(MAGIC));
    lemma_read_u32_at(hd, 0, MAGIC);
    assert(hd.subrange(7, 11) =~= be_u32_bytes(len));
    lemma_read_u32_at(hd, 7, len);
    assert(hd[4] == VERSION && hd[5] == type_byte && hd[6] == flags);
}


/// A heartbeat frame (Ping or Pong, with any flags the encoder sets) is
/// split off whatever follows it with its own type and flags.
pub proof fn lemma_heartbeat_frame_decodes(
    message_type: MessageType,
    end_stream: bool,
    end_channel: bool,
    is_response: bool,
    rest: Seq<u8>,
)
    requires
        FIXED_HEADER_LEN + 2 + rest.len() <= usize::MAX,
    ensures
        ({
            let frame = heartbeat_frame(
                message_type_byte(message_type),
                flag_byte(end_stream, end_channel, is_response),
            );
            &&& frame.len() == FIXED_HEADER_LEN + 2
            &&& decode_basic_spec(frame + rest) == Ok::<
                (MessageType, u8, Seq<u8>, Seq<u8>),
                ProtocolError,
            >((message_type, flag_byte(end_stream, end_channel, is_response), frame, rest))
            &&& decode_header_spec(frame) == Ok::<(MessageType, u8, nat), ProtocolError>(
                (message_type, flag_byte(end_stream, end_channel, is_response), 2),
            )
        }),
{
    let t = message_type_byte(message_type);
    let fb = flag_byte(end_stream, end_channel, is_response);
    lemma_flag_byte_fields(end_stream, end_channel, is_response);
    let h = fixed_header(t, fb, 2);
    assert(h + Seq::<u8>::empty() =~= h);
    lemma_sealed_frame_decodes(t, fb, Seq::<u8>::empty(), rest);
}

/// Where each field of a message body lies.
proof fn lemma_body_layout(
    channel_id: Seq<u8>,
    source: Seq<u8>,
    target: Seq<u8>,
    total_len: nat,
    offset: nat,
    payload: Seq<u8>,
)
    requires
        channel_id.len() == 16,
    ensures
        ({
            let body = message_body(channel_id, source, target, total_len, offset, payload);
            let sl = source.len() as int;
            let tl = target.len() as int;
            &&& body.len() == 28 + sl + tl + payload.len()
            &&& body.subrange(0, 16) == channel_id
            &&& body.subrange(16, 18) == be_u16_bytes(sl as u16)
            &&& body.subrange(18, 18 + sl) == source
            &&& body.subrange(18 + sl, 20 + sl) == be_u16_bytes(tl as u16)
            &&& body.subrange(20 + sl, 20 + sl + tl) == target
            &&& body.subrange(20 + sl + tl, 24 + sl + tl) == be_u32_bytes(total_len as u32)
            &&& body.subrange(24 + sl + tl, 28 + sl + tl) == be_u32_bytes(offset as u32)
            &&& body.subrange(28 + sl + tl, body.len() as int) == payload
        }),
{
    let body = message_body(channel_id, source, target, total_len, offset, payload);
    let sl = source.len() as int;
    let tl = target.len() as int;
    assert(body.subrange(0, 16) =~= channel_id);
    assert(body.subrange(16, 18) =~= be_u16_bytes(sl as u16));
    assert(body.subrange(18, 18 + sl) =~= source);
    assert(body.subrange(18 + sl, 20 + sl) =~= be_u16_bytes(tl as u16));
    assert(body.subrange(20 + sl, 20 + sl + tl) =~= target);
    assert(body.subrange(20 + sl + tl, 24 + sl + tl) =~= be_u32_bytes(total_len as u32));
    assert(body.subrange(24 + sl + tl, 28 + sl + tl) =~= be_u32_bytes(offset as u32));
    assert(body.subrange(28 + sl + tl, body.len() as int) =~= payload);
}

/// A range of the body of `h + body + c` is the same range of `body`.
proof fn lemma_inner_range(h: Seq<u8>, body: Seq<u8>, c: Seq<u8>, lo: int, hi: int)
    requires
        h.len() == 11,
        0 <= lo <= hi <= body.len(),
    ensures
        (h + body + c).subrange(11 + lo, 11 + hi) == body.subrange(lo, hi),
{
    assert((h + body + c).subrange(11 + lo, 11 + hi) =~= body.subrange(lo, hi));
}

/// The field reads of a message frame built from valid fields.
#[verifier::spinoff_prover]
proof fn lemma_message_frame_fields(
    type_byte: u8,
    flags: u8,
    channel_id: Seq<u8>,
    source: Seq<u8>,
    target: Seq<u8>,
    total_len: nat,
    offset: nat,
    payload: Seq<u8>,
)
    requires
        channel_id.len() == 16,
        source.len() <= MAX_NAME_LENGTH,
        target.len() <= MAX_NAME_LENGTH,
        total_len <= u32::MAX,
        offset <= u32::MAX,
        payload.len() <= MAX_FRAME_SIZE,
    ensures
        ({
            let frame = message_frame(
                type_byte,
                flags,
                channel_id,
                source,
                target,
                total_len,
                offset,
                payload,
            );
            let p = stream_fields_pos(frame);
            &&& frame.len() == 41 + source.len() + target.len() + payload.len()
            &&& frame.subrange(11, 27) == channel_id
            &&& source_len_of(frame) == source.len()
            &&& target_len_pos(frame) == 29 + source.len()
            &&& source_bytes_of(frame) == source
            &&& target_len_of(frame) == target.len()
            &&& target_bytes_of(frame) == target
            &&& p == 31 + source.len() + target.len()
            &&& read_be_u32(frame, p) == total_len
            &&& read_be_u32(frame, p + 4) == offset
            &&& frame.subrange(p + 8, frame.len() - 2) == payload
        }),
{
    let sl = source.len() as int;
    let tl = target.len() as int;
    let body = message_body(channel_id, source, target, total_len, offset, payload);
    lemma_body_layout(channel_id, source, target, total_len, offset, payload);
    let h = fixed_header(type_byte, flags, message_frame_len(sl as nat, tl as nat, payload.len()) as u32);
    let pre = h + body;
    let c = be_u16_bytes(crc16_xmodem(pre.skip(MAGIC_LEN as int)));
    let frame = message_frame(type_byte, flags, channel_id, source, target, total_len, offset, payload);
    assert(frame == h + body + c);
    assert(h.len() == 11);
    let n = frame.len() as int;
    lemma_inner_range(h, body, c, 0, 16);
    lemma_inner_range(h, body, c, 16, 18);
    lemma_read_u16_at(frame, 27, sl as u16);
    lemma_inner_range(h, body, c, 18, 18 + sl);
    lemma_inner_range(h, body, c, 18 + sl, 20 + sl);
    lemma_read_u16_at(frame, 29 + sl, tl as u16);
    lemma_inner_range(h, body, c, 20 + sl, 20 + sl + tl);
    let p = 31 + sl + tl;
    lemma_inner_range(h, body, c, 20 + sl + tl, 24 + sl + tl);
    lemma_read_u32_at(frame, p, total_len as u32);
    lemma_inner_range(h, body, c, 24 + sl + tl, 28 + sl + tl);
    lemma_read_u32_at(frame, p + 4, offset as u32);
    lemma_inner_range(h, body, c, 28 + sl + tl, body.len() as int);
}

/// A message frame built from valid fields is split off whatever follows
/// it with its type and flags, and parses back to the same channel id,
/// names, stream length, offset and payload.
pub proof fn lemma_message_frame_parses(
    type_byte: u8,
    flags: u8,
    channel_id: Seq<u8>,
    source: Seq<u8>,
    target: Seq<u8>,
    total_len: nat,
    offset: nat,
    payload: Seq<u8>,
    rest: Seq<u8>,
)
    requires
        message_type_of(type_byte) is Some,
        reserved_clear(flags),
        channel_id.len() == 16,
        1 <= source.len() <= MAX_NAME_LENGTH,
        1 <= target.len() <= MAX_NAME_LENGTH,
        vstd::utf8::valid_utf8(source),
        vstd::utf8::valid_utf8(target),
        total_len <= u32::MAX,
        offset <= u32::MAX,
        payload.len() <= MAX_FRAME_SIZE,
        MAX_FRAME_SIZE + 1024 + rest.len() <= usize::MAX,
    ensures
        ({
            let frame = message_frame(
                type_byte,
                flags,
                channel_id,
                source,
                target,
                total_len,
                offset,
                payload,
            );
            &&& frame.len() == 41 + source.len() + target.len() + payload.len()
            &&& decode_basic_spec(frame + rest) == Ok::<
                (MessageType, u8, Seq<u8>, Seq<u8>),
                ProtocolError,
            >((message_type_of(type_byte)->0, flags, frame, rest))
            &&& decode_header_spec(frame.subrange(0, FIXED_HEADER_LEN as int)) == Ok::<
                (MessageType, u8, nat),
                ProtocolError,
            >((message_type_of(type_byte)->0, flags, (frame.len() - FIXED_HEADER_LEN) as nat))
            &&& parse_in_bounds(frame)
            &&& parse_message_spec(frame) == Ok::<
                (Seq<u8>, Seq<char>, Seq<char>, nat, nat, Seq<u8>),
                ProtocolError,
            >(
                (
                    channel_id,
                    vstd::utf8::decode_utf8(source),
                    vstd::utf8::decode_utf8(target),
                    total_len,
                    offset,
                    payload,
                ),
            )
        }),
{
    lemma_message_frame_decodes(type_byte, flags, channel_id, source, target, total_len, offset, payload, rest);
    lemma_message_frame_parse(type_byte, flags, channel_id, source, target, total_len, offset, payload);
}

/// A message frame is split off what follows it, and its fixed header decodes.
#[verifier::spinoff_prover]
proof fn lemma_message_frame_decodes(
    type_byte: u8,
    flags: u8,
    channel_id: Seq<u8>,
    source: Seq<u8>,
    target: Seq<u8>,
    total_len: nat,
    offset: nat,
    payload: Seq<u8>,
    rest: Seq<u8>,
)
    requires
        message_type_of(type_byte) is Some,
        reserved_clear(flags),
        channel_id.len() == 16,
        source.len() <= MAX_NAME_LENGTH,
        target.len() <= MAX_NAME_LENGTH,
        payload.len() <= MAX_FRAME_SIZE,
        MAX_FRAME_SIZE + 1024 + rest.len() <= usize::MAX,
    ensures
        ({
            let frame = message_frame(
                type_byte,
                flags,
                channel_id,
                source,
                target,
                total_len,
                offset,
                payload,
            );
            &&& frame.len() == 41 + source.len() + target.len() + payload.len()
            &&& decode_basic_spec(frame + rest) == Ok::<
                (MessageType, u8, Seq<u8>, Seq<u8>),
                ProtocolError,
            >((message_type_of(type_byte)->0, flags, frame, rest))
            &&& decode_header_spec(frame.subrange(0, FIXED_HEADER_LEN as int)) == Ok::<
                (MessageType, u8, nat),
                ProtocolError,
            >((message_type_of(type_byte)->0, flags, (frame.len() - FIXED_HEADER_LEN) as nat))
        }),
{
    let body = message_body(channel_id, source, target, total_len, offset, payload);
    lemma_body_layout(channel_id, source, target, total_len, offset, payload);
    assert(message_frame_len(source.len(), target.len(), payload.len()) == body.len() + 2);
    lemma_sealed_frame_decodes(type_byte, flags, body, rest);
}

/// A message frame parses back to its fields.
#[verifier::spinoff_prover]
proof fn lemma_message_frame_parse(
    type_byte: u8,
    flags: u8,
    channel_id: Seq<u8>,
    source: Seq<u8>,
    target: Seq<u8>,
    total_len: nat,
    offset: nat,
    payload: Seq<u8>,
)
    requires
        channel_id.len() == 16,
        1 <= source.len() <= MAX_NAME_LENGTH,
        1 <= target.len() <= MAX_NAME_LENGTH,
        vstd::utf8::valid_utf8(source),
        vstd::utf8::valid_utf8(target),
        total_len <= u32::MAX,
        offset <= u32::MAX,
        payload.len() <= MAX_FRAME_SIZE,
    ensures
        ({
            let frame = message_frame(
                type_byte,
                flags,
                channel_id,
                source,
                target,
                total_len,
                offset,
                payload,
            );
            &&& parse_in_bounds(frame)
            &&& parse_message_spec(frame) == Ok::<
                (Seq<u8>, Seq<char>, Seq<char>, nat, nat, Seq<u8>),
                ProtocolError,
            >(
                (
                    channel_id,
                    vstd::utf8::decode_utf8(source),
                    vstd::utf8::decode_utf8(target),
                    total_len,
                    offset,
                    payload,
                ),
            )
        }),
{
    lemma_message_frame_fields(type_byte, flags, channel_id, source, target, total_len, offset, payload);
}

/// The payload `parse_message` finds in a frame (empty when it finds none).
#[verifier::opaque]
pub open spec fn frame_payload(f: Seq<u8>) -> Seq<u8> {
    match parse_message_spec(f) {
        Ok(m) => m.5,
        Err(_) => Seq::empty(),
    }
}

/// The payloads of a list of frames, joined in order.
pub open spec fn joined_payloads(frames: Seq<Seq<u8>>) -> Seq<u8>
    decreases frames.len(),
{
    if frames.len() == 0 {
        Seq::empty()
    } else {
        frame_payload(frames[0]) + joined_payloads(frames.drop_first())
    }
}

/// `f` is a frame of at most `MAX_FRAME_SIZE` bytes whose fixed header
/// decodes to this type, flag byte and the length of the rest of the frame,
/// that the decoder splits off any following bytes with this type and flag
/// byte, and that parses to
/// this channel id, these names, this stream length and this offset.
#[verifier::opaque]
pub open spec fn is_stream_frame(
    f: Seq<u8>,
    type_byte: u8,
    flags: u8,
    channel_id: Seq<u8>,
    source: Seq<char>,
    target: Seq<char>,
    total_len: nat,
    offset: nat,
) -> bool {
    &&& FIXED_HEADER_LEN <= f.len() <= MAX_FRAME_SIZE
    &&& decode_header_spec(f.subrange(0, FIXED_HEADER_LEN as int)) == Ok::<
        (MessageType, u8, nat),
        ProtocolError,
    >((message_type_of(type_byte)->0, flags, (f.len() - FIXED_HEADER_LEN) as nat))
    &&& forall|rest: Seq<u8>|
        MAX_FRAME_SIZE + 1024 + rest.len() <= usize::MAX ==> #[trigger] decode_basic_spec(f + rest)
            == Ok::<(MessageType, u8, Seq<u8>, Seq<u8>), ProtocolError>(
            (message_type_of(type_byte)->0, flags, f, rest),
        )
    &&& parse_in_bounds(f)
    &&& parse_message_spec(f) matches Ok((cid, s, t, tot, off, _)) && cid == channel_id && s
        == source && t == target && tot == total_len && off == offset
}

/// A message frame built from valid fields is a stream frame, and its
/// payload is the one it was built with.
proof fn lemma_frame_is_stream_frame(
    type_byte: u8,
    flags: u8,
    channel_id: Seq<u8>,
    source: Seq<u8>,
    target: Seq<u8>,
    total_len: nat,
    offset: nat,
    payload: Seq<u8>,
)
    requires
        message_type_of(type_byte) is Some,
        reserved_clear(flags),
        channel_id.len() == 16,
        1 <= source.len() <= MAX_NAME_LENGTH,
        1 <= target.len() <= MAX_NAME_LENGTH,
        vstd::utf8::valid_utf8(source),
        vstd::utf8::valid_utf8(target),
        total_len <= u32::MAX,
        offset <= u32::MAX,
        41 + source.len() + target.len() + payload.len() <= MAX_FRAME_SIZE,
    ensures
        ({
            let f = message_frame(
                type_byte,
                flags,
                channel_id,
                source,
                target,
                total_len,
                offset,
                payload,
            );
            &&& is_stream_frame(
                f,
                type_byte,
                flags,
                channel_id,
                vstd::utf8::decode_utf8(source),
                vstd::utf8::decode_utf8(target),
                total_len,
                offset,
            )
            &&& frame_payload(f) == payload
        }),
{
    let f = message_frame(type_byte, flags, channel_id, source, target, total_len, offset, payload);
    reveal(is_stream_frame);
    reveal(frame_payload);
    lemma_message_frame_parses(
        type_byte,
        flags,
        channel_id,
        source,
        target,
        total_len,
        offset,
        payload,
        Seq::empty(),
    );
    assert forall|rest: Seq<u8>|
        MAX_FRAME_SIZE + 1024 + rest.len() <= usize::MAX implies #[trigger] decode_basic_spec(
        f + rest,
    ) == Ok::<(MessageType, u8, Seq<u8>, Seq<u8>), ProtocolError>(
        (message_type_of(type_byte)->0, flags, f, rest),
    ) by {
        lemma_message_frame_parses(
            type_byte,
            flags,
            channel_id,
            source,
            target,
            total_len,
            offset,
            payload,
            rest,
        );
    }
}

/// The payloads of `[f] + tail`, joined, and of its prefixes.
proof fn lemma_joined_cons(f: Seq<u8>, tail: Seq<Seq<u8>>, i: int)
    requires
        1 <= i <= tail.len() + 1,
    ensures
        joined_payloads(seq![f] + tail) == frame_payload(f) + joined_payloads(tail),
        joined_payloads((seq![f] + tail).take(i)) == frame_payload(f) + joined_payloads(
            tail.take(i - 1),
        ),
{
    assert((seq![f] + tail).drop_first() =~= tail);
    assert((seq![f] + tail).take(i).drop_first() =~= tail.take(i - 1));
}

/// The frames of a stream from `offset` on parse back to the rest of the
/// data, each at its own offset, with END_STREAM on the last one only.
#[verifier::spinoff_prover]
#[verifier::rlimit(50)]
proof fn lemma_stream_frames_from(
    type_byte: u8,
    end_channel: bool,
    is_response: bool,
    channel_id: Seq<u8>,
    source: Seq<u8>,
    target: Seq<u8>,
    data: Seq<u8>,
    offset: nat,
)
    requires
        message_type_of(type_byte) is Some,
        channel_id.len() == 16,
        1 <= source.len() <= MAX_NAME_LENGTH,
        1 <= target.len() <= MAX_NAME_LENGTH,
        vstd::utf8::valid_utf8(source),
        vstd::utf8::valid_utf8(target),
        data.len() <= MAX_STREAM_LENGTH,
        offset <= data.len(),
    ensures
        ({
            let frames = stream_frames_from(
                type_byte,
                end_channel,
                is_response,
                channel_id,
                source,
                target,
                data,
                max_payload_len(source.len(), target.len()) as nat,
                offset,
            );
            &&& joined_payloads(frames) == data.subrange(offset as int, data.len() as int)
            &&& forall|i: int|
                0 <= i < frames.len() ==> is_stream_frame(
                    #[trigger] frames[i],
                    type_byte,
                    flag_byte(i == frames.len() - 1, end_channel, is_response),
                    channel_id,
                    vstd::utf8::decode_utf8(source),
                    vstd::utf8::decode_utf8(target),
                    data.len(),
                    offset + joined_payloads(frames.take(i)).len(),
                )
        }),
    decreases data.len() - offset,
{
    let mp = max_payload_len(source.len(), target.len()) as nat;
    let frames = stream_frames_from(
        type_byte,
        end_channel,
        is_response,
        channel_id,
        source,
        target,
        data,
        mp,
        offset,
    );
    if offset >= data.len() {
        assert(data.subrange(offset as int, data.len() as int) =~= Seq::<u8>::empty());
    } else {
        let n = chunk_len(data.len(), mp, offset);
        let last = offset + n >= data.len();
        let fb = flag_byte(last, end_channel, is_response);
        let chunk = data.subrange(offset as int, (offset + n) as int);
        let f = message_frame(
            type_byte,
            fb,
            channel_id,
            source,
            target,
            data.len(),
            offset,
            chunk,
        );
        let tail = stream_frames_from(
            type_byte,
            end_channel,
            is_response,
            channel_id,
            source,
            target,
            data,
            mp,
            offset + n,
        );
        assert(frames == seq![f] + tail);
        lemma_stream_frames_from(
            type_byte,
            end_channel,
            is_response,
            channel_id,
            source,
            target,
            data,
            offset + n,
        );
        lemma_flag_byte_fields(last, end_channel, is_response);
        lemma_frame_is_stream_frame(
            type_byte,
            fb,
            channel_id,
            source,
            target,
            data.len(),
            offset,
            chunk,
        );
        assert(frame_payload(f) == chunk);
        lemma_joined_cons(f, tail, 1);
        assert(data.subrange(offset as int, data.len() as int) =~= chunk + data.subrange(
            (offset + n) as int,
            data.len() as int,
        ));
        assert(tail.len() == 0 <==> last);
        assert forall|i: int| 0 <= i < frames.len() implies is_stream_frame(
            #[trigger] frames[i],
            type_byte,
            flag_byte(i == frames.len() - 1, end_channel, is_response),
            channel_id,
            vstd::utf8::decode_utf8(source),
            vstd::utf8::decode_utf8(target),
            data.len(),
            offset + joined_payloads(frames.take(i)).len(),
        ) by {
            if i == 0 {
                assert(frames.take(0) =~= Seq::<Seq<u8>>::empty());
            } else {
                assert(frames[i] == tail[i - 1]);
                lemma_joined_cons(f, tail, i);
            }
        }
    }
}

/// `k` whole steps of `p` and one more.
proof fn lemma_steps(k: int, p: int)
    requires
        k >= 1,
        p >= 1,
    ensures
        (k - 1) * p + p == k * p,
        k * p >= p,
{
    assert((k - 1) * p + p == k * p) by (nonlinear_arith);
    assert(k * p >= p) by (nonlinear_arith)
        requires
            k >= 1,
            p >= 1,
    ;
}

/// Counting the frames of `r + p` bytes: one more than those of `r`.
proof fn lemma_frame_count(r: int, p: int)
    requires
        r >= 1,
        p >= 1,
    ensures
        (r + p + p - 1) / p == (r + p - 1) / p + 1,
        r <= p ==> (r + p - 1) / p == 1,
{
    assert((r + p + p - 1) / p == (r + p - 1) / p + 1) by (nonlinear_arith)
        requires
            r >= 1,
            p >= 1,
    ;
    assert(r <= p ==> (r + p - 1) / p == 1) by (nonlinear_arith)
        requires
            r >= 1,
            p >= 1,
    ;
}

/// The frames of a stream from `offset` on: there are as many as `p`-byte
/// pieces of the rest of the data, frame `i` carries the `i`-th piece, and
/// the payloads before frame `i` are `i` whole pieces long.
#[verifier::spinoff_prover]
#[verifier::rlimit(50)]
proof fn lemma_stream_frames_layout(
    type_byte: u8,
    end_channel: bool,
    is_response: bool,
    channel_id: Seq<u8>,
    source: Seq<u8>,
    target: Seq<u8>,
    data: Seq<u8>,
    offset: nat,
)
    requires
        message_type_of(type_byte) is Some,
        channel_id.len() == 16,
        1 <= source.len() <= MAX_NAME_LENGTH,
        1 <= target.len() <= MAX_NAME_LENGTH,
        vstd::utf8::valid_utf8(source),
        vstd::utf8::valid_utf8(target),
        data.len() <= MAX_STREAM_LENGTH,
        offset <= data.len(),
    ensures
        ({
            let p = max_payload_len(source.len(), target.len());
            let frames = stream_frames_from(
                type_byte,
                end_channel,
                is_response,
                channel_id,
                source,
                target,
                data,
                p as nat,
                offset,
            );
            &&& frames.len() == (data.len() - offset + p - 1) / p
            &&& forall|i: int| 0 <= i < frames.len() ==> frame_payload(#[trigger] frames[i]) == data.subrange(
                offset + i * p,
                if offset + (i + 1) * p < data.len() { offset + (i + 1) * p } else { data.len() as int },
            )
            &&& forall|i: int| 0 <= i < frames.len() ==> joined_payloads(#[trigger] frames.take(i)).len() == i * p
        }),
    decreases data.len() - offset,
{
    let p = max_payload_len(source.len(), target.len());
    let mp = p as nat;
    let frames = stream_frames_from(type_byte, end_channel, is_response, channel_id, source, target, data, mp, offset);
    if offset >= data.len() {
        assert((data.len() - offset + p - 1) / p == 0) by (nonlinear_arith)
            requires
                data.len() - offset == 0,
                p >= 1,
        ;
    } else {
        let n = chunk_len(data.len(), mp, offset);
        let last = offset + n >= data.len();
        let fb = flag_byte(last, end_channel, is_response);
        let chunk = data.subrange(offset as int, (offset + n) as int);
        let f = message_frame(type_byte, fb, channel_id, source, target, data.len(), offset, chunk);
        let tail = stream_frames_from(type_byte, end_channel, is_response, channel_id, source, target, data, mp, offset + n);
        assert(frames == seq![f] + tail);
        lemma_stream_frames_layout(type_byte, end_channel, is_response, channel_id, source, target, data, offset + n);
        lemma_flag_byte_fields(last, end_channel, is_response);
        lemma_frame_is_stream_frame(type_byte, fb, channel_id, source, target, data.len(), offset, chunk);
        let r = data.len() - offset;
        if last {
            lemma_frame_count(r, p);
            assert(tail.len() == 0) by {
                assert((data.len() - (offset + n) + p - 1) / p == 0) by (nonlinear_arith)
                    requires
                        data.len() - (offset + n) == 0,
                        p >= 1,
                ;
            }
        } else {
            assert(n == mp);
            lemma_frame_count(r - p, p);
        }
        assert forall|i: int| 0 <= i < frames.len() implies frame_payload(#[trigger] frames[i]) == data.subrange(
            offset + i * p,
            if offset + (i + 1) * p < data.len() { offset + (i + 1) * p } else { data.len() as int },
        ) by {
            if i == 0 {
                assert(frames[0] == f);
            } else {
                assert(frames[i] == tail[i - 1]);
                lemma_steps(i, p);
                assert(offset + n + (i - 1) * p == offset + i * p);
                assert(offset + n + (i - 1 + 1) * p == offset + (i + 1) * p) by {
                    lemma_steps(i + 1, p);
                }
            }
        }
        assert forall|i: int| 0 <= i < frames.len() implies joined_payloads(#[trigger] frames.take(i)).len() == i * p by {
            if i == 0 {
                assert(frames.take(0) =~= Seq::<Seq<u8>>::empty());
            } else {
                lemma_joined_cons(f, tail, i);
                lemma_steps(i, p);
                assert(frame_payload(f) == chunk);
            }
        }
    }
}

/// Fragmentation round trip: a message stream has one frame for each
/// `p`-byte piece of the data, where `p` is the payload room a frame has
/// beside the two names (none for empty data); every frame is split off
/// whatever follows it with the stream's type, END_STREAM on the last frame
/// only and the given END_CHANNEL and IS_RESPONSE; frame `i` parses back to
/// the channel id, the two names, the stream's length and the offset `i * p`,
/// and carries the data from `i * p` to the next piece; the payloads joined
/// in order are the data.
pub proof fn lemma_stream_roundtrip(
    message_type: MessageType,
    end_channel: bool,
    is_response: bool,
    channel_id: Seq<u8>,
    source: Seq<char>,
    target: Seq<char>,
    data: Seq<u8>,
)
    requires
        channel_id.len() == 16,
        source.len() > 0,
        target.len() > 0,
        vstd::utf8::encode_utf8(source).len() <= MAX_NAME_LENGTH,
        vstd::utf8::encode_utf8(target).len() <= MAX_NAME_LENGTH,
        data.len() <= MAX_STREAM_LENGTH,
    ensures
        ({
            let frames = stream_frames(
                message_type,
                end_channel,
                is_response,
                channel_id,
                vstd::utf8::encode_utf8(source),
                vstd::utf8::encode_utf8(target),
                data,
            );
            let p = max_payload_len(
                vstd::utf8::encode_utf8(source).len(),
                vstd::utf8::encode_utf8(target).len(),
            );
            &&& p > 0
            &&& frames.len() == (data.len() + p - 1) / p
            &&& joined_payloads(frames) == data
            &&& forall|i: int|
                0 <= i < frames.len() ==> frame_payload(#[trigger] frames[i]) == data.subrange(
                    i * p,
                    if (i + 1) * p < data.len() { (i + 1) * p } else { data.len() as int },
                )
            &&& forall|i: int|
                0 <= i < frames.len() ==> is_stream_frame(
                    #[trigger] frames[i],
                    message_type_byte(message_type),
                    flag_byte(i == frames.len() - 1, end_channel, is_response),
                    channel_id,
                    source,
                    target,
                    data.len(),
                    (i * p) as nat,
                )
        }),
{
    let sb = vstd::utf8::encode_utf8(source);
    let tb = vstd::utf8::encode_utf8(target);
    vstd::utf8::encode_utf8_valid_utf8(source);
    vstd::utf8::encode_utf8_valid_utf8(target);
    vstd::utf8::encode_utf8_decode_utf8(source);
    vstd::utf8::encode_utf8_decode_utf8(target);
    assert(sb.len() >= 1);
    assert(tb.len() >= 1);
    lemma_stream_frames_from(message_type_byte(message_type), end_channel, is_response, channel_id, sb, tb, data, 0);
    lemma_stream_frames_layout(message_type_byte(message_type), end_channel, is_response, channel_id, sb, tb, data, 0);
    assert(data.subrange(0, data.len() as int) =~= data);
}

/// Handshake round trip: when `create_validate` accepts a room URL, its
/// frame is a single, final Header frame from the client to `fernq` at
/// offset 0 whose payload is the URL's bytes, and what the server's
/// `parse_validate` reads from that payload is what the URL says.
pub proof fn lemma_handshake_roundtrip(name: Seq<char>, channel_id: Seq<u8>, url: Seq<char>)
    requires
        channel_id.len() == 16,
    ensures
        create_validate_spec(name, channel_id, url) matches Ok((address, frame)) ==> {
            &&& is_stream_frame(
                frame,
                message_type_byte(MessageType::Header),
                flag_byte(true, true, false),
                channel_id,
                name,
                "fernq"@,
                vstd::utf8::encode_utf8(url).len(),
                0,
            )
            &&& frame_payload(frame) == vstd::utf8::encode_utf8(url)
            &&& parse_validate_spec(frame_payload(frame)) == url_fields_spec(url)
        },
{
    if let Ok((address, frame)) = create_validate_spec(name, channel_id, url) {
        let data = vstd::utf8::encode_utf8(url);
        let frames = stream_frames(
            MessageType::Header,
            true,
            false,
            channel_id,
            vstd::utf8::encode_utf8(name),
            vstd::utf8::encode_utf8("fernq"@),
            data,
        );
        assert(frames.len() == 1 && frame == frames[0]);
        lemma_stream_roundtrip(MessageType::Header, true, false, channel_id, name, "fernq"@, data);
        assert(frames.take(0) =~= Seq::<Seq<u8>>::empty());
        assert(frames.drop_first() =~= Seq::<Seq<u8>>::empty());
        assert(joined_payloads(frames) == frame_payload(frame) + joined_payloads(frames.drop_first()));
        assert(frame_payload(frame) =~= data);
        vstd::utf8::encode_utf8_valid_utf8(url);
        vstd::utf8::encode_utf8_decode_utf8(url);
    }
}

/// Verdict round trip: when `create_verify_response` builds a frame, it is
/// a single, final Header response frame from `fernq` to the client at
/// offset 0 whose payload is the JSON text of the verdict, and the verdict
/// object is one that serde_json reads back, with `state` and `message`
/// the verdict's own (so `parse_verify_response` returns them; its
/// `ensures` states this for such a payload).
pub proof fn lemma_verdict_roundtrip(name: Seq<char>, channel_id: Seq<u8>, state: bool, message: Seq<char>)
    requires
        channel_id.len() == 16,
    ensures
        verify_response_spec(name, channel_id, state, message) matches Ok(frame) ==> {
            let data = json_bytes(verdict_object(state, message));
            &&& is_stream_frame(
                frame,
                message_type_byte(MessageType::Header),
                flag_byte(true, true, true),
                channel_id,
                "fernq"@,
                name,
                data.len(),
                0,
            )
            &&& frame_payload(frame) == data
        },
        super::json::reads_back(verdict_object(state, message)),
        super::json::field_bool(verdict_object(state, message), "state"@) == Some(state),
        super::json::field_text(verdict_object(state, message), "message"@) == Some(message),
{
    lemma_verdict_reads_back(state, message);
    if let Ok(frame) = verify_response_spec(name, channel_id, state, message) {
        let data = json_bytes(verdict_object(state, message));
        let frames = stream_frames(
            MessageType::Header,
            true,
            true,
            channel_id,
            vstd::utf8::encode_utf8("fernq"@),
            vstd::utf8::encode_utf8(name),
            data,
        );
        assert(frames.len() == 1 && frame == frames[0]);
        lemma_stream_roundtrip(MessageType::Header, true, true, channel_id, "fernq"@, name, data);
        assert(frames.take(0) =~= Seq::<Seq<u8>>::empty());
        assert(frames.drop_first() =~= Seq::<Seq<u8>>::empty());
        assert(joined_payloads(frames) == frame_payload(frame) + joined_payloads(frames.drop_first()));
        assert(frame_payload(frame) =~= data);
    }
}

/// Integrity: changing one byte of a frame that `decode_basic` accepts,
/// anywhere from the version byte to the end of the frame except the frame
/// length field, makes `decode_basic` refuse it (the checksum no longer
/// matches).
pub proof fn lemma_decode_detects_byte_change(b: Seq<u8>, b2: Seq<u8>, i: int)
    requires
        decode_basic_spec(b) is Ok,
        b2.len() == b.len(),
        4 <= i < decode_basic_spec(b)->Ok_0.2.len(),
        !(7 <= i < 11),
        b2[i] != b[i],
        forall|k: int| 0 <= k < b.len() && k != i ==> b2[k] == b[k],
    ensures
        decode_basic_spec(b2) is Err,
{
    let total = FIXED_HEADER_LEN + read_be_u32(b, 7);
    assert(read_be_u32(b2, 0) == read_be_u32(b, 0));
    assert(read_be_u32(b2, 7) == read_be_u32(b, 7));
    let frame = b.subrange(0, total);
    let frame2 = b2.subrange(0, total);
    let region = frame.subrange(MAGIC_LEN as int, total - 2);
    let region2 = frame2.subrange(MAGIC_LEN as int, total - 2);
    if i < total - 2 {
        assert(region2[i - 4] != region[i - 4]);
        assert forall|k: int| 0 <= k < region.len() && k != i - 4 implies region2[k] == region[k] by {
            assert(region2[k] == b2[k + 4] && region[k] == b[k + 4]);
        }
        crate::protocol::crc::lemma_crc_detects_byte_change(region, region2, i - 4);
        assert(read_be_u16(frame2, total - 2) == read_be_u16(frame, total - 2));
    } else {
        assert(region2 =~= region);
        assert(read_be_u16(frame2, total - 2) != read_be_u16(frame, total - 2));
    }
}

} // verus!
