//! Human-readable texts: the message of each protocol error and the
//! rendering of message flags.
//!
//! Numbers are written as Rust's formatter writes them: `{}` in decimal,
//! `{:0NX}` in upper-case hexadecimal padded with zeros to `N` digits.

use vstd::prelude::*;

use super::error::{ErrorView, ProtocolError};
use super::frame::{bit_end_channel, bit_end_stream, bit_is_response, MessageFlags};
use super::outside::{chars_of, string_from_chars};

verus! {

/// The character of a digit below 16 (upper case past 9).
pub open spec fn digit_char(d: nat) -> char {
    if d == 0 { '0' }
    else if d == 1 { '1' }
    else if d == 2 { '2' }
    else if d == 3 { '3' }
    else if d == 4 { '4' }
    else if d == 5 { '5' }
    else if d == 6 { '6' }
    else if d == 7 { '7' }
    else if d == 8 { '8' }
    else if d == 9 { '9' }
    else if d == 10 { 'A' }
    else if d == 11 { 'B' }
    else if d == 12 { 'C' }
    else if d == 13 { 'D' }
    else if d == 14 { 'E' }
    else { 'F' }
}

/// The digits of `n` in base `base` (2..=16), most significant first, with
/// no leading zeros (`0` is a single digit).
pub open spec fn digits(n: nat, base: nat) -> Seq<char>
    recommends
        2 <= base <= 16,
    decreases n,
{
    if n < base || base < 2 {
        seq![digit_char(n)]
    } else {
        proof {
            vstd::arithmetic::div_mod::lemma_div_decreases(n as int, base as int);
        }
        digits(n / base, base).push(digit_char(n % base))
    }
}

/// `n` in decimal.
pub open spec fn decimal(n: nat) -> Seq<char> {
    digits(n, 10)
}

/// A signed number in decimal, with a leading `-` when negative.
pub open spec fn signed_decimal(n: int) -> Seq<char> {
    if n < 0 {
        seq!['-'] + decimal((-n) as nat)
    } else {
        decimal(n as nat)
    }
}

/// `n` in upper-case hexadecimal, padded with zeros to `width` digits.
pub open spec fn hex_padded(n: nat, width: nat) -> Seq<char> {
    let h = digits(n, 16);
    if h.len() < width {
        Seq::new((width - h.len()) as nat, |i: int| '0') + h
    } else {
        h
    }
}

/// `true` or `false`.
pub open spec fn bool_text(b: bool) -> Seq<char> {
    if b { "true"@ } else { "false"@ }
}

/// The message of each protocol error.
pub open spec fn error_text(e: ErrorView) -> Seq<char> {
    match e {
        ErrorView::UnknownMessageType(v) => "unknown message type: 0x"@ + hex_padded(v as nat, 2),
        ErrorView::InvalidFlags(v) => "invalid flags: 0x"@ + hex_padded(v as nat, 2)
            + " (reserved bits must be zero)"@,
        ErrorView::InvalidMagic { received, expected } => "magic mismatch: received 0x"@
            + hex_padded(received as nat, 8) + ", expected 0x"@ + hex_padded(expected as nat, 8),
        ErrorView::InvalidVersion { received, expected } => "version mismatch: received "@
            + decimal(received as nat) + ", expected "@ + decimal(expected as nat),
        ErrorView::InvalidFrameLength(m) => "invalid frame length: "@ + m,
        ErrorView::IncompleteFrame { required, actual, context } => "incomplete frame ("@ + context
            + "): required "@ + decimal(required as nat) + " bytes, got "@ + decimal(actual as nat),
        ErrorView::NameTooLong { name_type, length, max } => name_type + " name too long: "@
            + decimal(length as nat) + " bytes (max: "@ + decimal(max as nat) + ")"@,
        ErrorView::StreamTooLong { length, max } => "stream too long: "@ + decimal(length as nat)
            + " bytes (max: "@ + decimal(max as nat) + " bytes)"@,
        ErrorView::LengthOverflow(c) => "arithmetic overflow in: "@ + c,
        ErrorView::InvalidOffset { offset, total } => "invalid offset: "@ + decimal(offset as nat)
            + " (total: "@ + decimal(total as nat) + ")"@,
        ErrorView::CrcMismatch { received, calculated } => "CRC mismatch: received 0x"@
            + hex_padded(received as nat, 4) + ", calculated 0x"@ + hex_padded(calculated as nat, 4),
        ErrorView::MalformedFrame(m) => "malformed frame: "@ + m,
        ErrorView::EmptyName(t) => t + " name cannot be empty"@,
        ErrorView::InvalidUuidLength { expected, actual } => "invalid UUID length: expected "@
            + decimal(expected as nat) + " bytes, got "@ + decimal(actual as nat),
        ErrorView::InvalidUuidFormat(m) => "invalid UUID format: "@ + m,
        ErrorView::InvalidTargetCount { received, reason } => "invalid target count: "@
            + decimal(received as nat) + " ("@ + reason + ")"@,
        ErrorView::InvalidName(t) => t + " name cannot be empty"@,
        ErrorView::InvalidProtocol(u) => "invalid protocol scheme: "@ + u + " (expected fernq://)"@,
        ErrorView::EmptyAddress => "address is empty after fernq://"@,
        ErrorView::InvalidPort(p) => "invalid port number: "@ + p,
        ErrorView::InvalidUtf8 => "payload is not valid UTF-8"@,
        ErrorView::MissingUuid => "missing UUID in URL path"@,
        ErrorView::MissingName => "missing room name (expected #name)"@,
        ErrorView::MissingPassword => "missing room_pass in query string"@,
        ErrorView::EmptyPassword => "room_pass cannot be empty"@,
        ErrorView::InvalidJson(m) => "json parse error: "@ + m,
        ErrorView::InvalidHeaderType(t) => "invalid header_type: "@ + t
            + " (expected 'request' or 'response')"@,
        ErrorView::InvalidContentType(t) => "invalid content_type: "@ + t
            + " (expected 'json', 'form', or 'form_flow')"@,
        ErrorView::MissingPath => "missing required field 'path' for request"@,
        ErrorView::MissingState => "missing required field 'state' for response"@,
        ErrorView::UnexpectedBody => "unexpected body field for form/form_flow content type"@,
        ErrorView::MissingBody =>
            "missing required body field for json content type (deprecated: body is now optional)"@,
        ErrorView::InvalidStateCode(c) => "invalid state code: "@ + signed_decimal(c as int)
            + " (expected HTTP status code)"@,
    }
}

/// The message for a magic field of `len` bytes.
pub open spec fn magic_length_spec(len: nat) -> Seq<char> {
    "magic validation requires 4 bytes, got "@ + decimal(len)
}

/// The message for a text that is no UUID, with the parser's reason.
pub open spec fn invalid_uuid_spec(text: Seq<char>, reason: Seq<char>) -> Seq<char> {
    "'"@ + text + "' is not a valid UUID: "@ + reason
}

/// The rendering of flags: `[END_STREAM=.., END_CHANNEL=.., IS_RESPONSE=..]`.
pub open spec fn flags_text(bits: u8) -> Seq<char> {
    "[END_STREAM="@ + bool_text(bit_end_stream(bits)) + ", END_CHANNEL="@ + bool_text(
        bit_end_channel(bits),
    ) + ", IS_RESPONSE="@ + bool_text(bit_is_response(bits)) + "]"@
}

/// The character of a digit below 16.
fn digit_of(d: u64) -> (c: char)
    requires
        d < 16,
    ensures
        c == digit_char(d as nat),
{
    if d == 0 { '0' }
    else if d == 1 { '1' }
    else if d == 2 { '2' }
    else if d == 3 { '3' }
    else if d == 4 { '4' }
    else if d == 5 { '5' }
    else if d == 6 { '6' }
    else if d == 7 { '7' }
    else if d == 8 { '8' }
    else if d == 9 { '9' }
    else if d == 10 { 'A' }
    else if d == 11 { 'B' }
    else if d == 12 { 'C' }
    else if d == 13 { 'D' }
    else if d == 14 { 'E' }
    else { 'F' }
}

/// Appends the characters of `s`.
pub(crate) fn push_text(out: &mut Vec<char>, s: &str)
    ensures
        final(out)@ == old(out)@ + s@,
{
    let cs = chars_of(s);
    let mut i: usize = 0;
    while i < cs.len()
        invariant
            i <= cs@.len(),
            cs@ == s@,
            out@ == old(out)@ + cs@.subrange(0, i as int),
        decreases cs@.len() - i,
    {
        out.push(cs[i]);
        i = i + 1;
        assert(cs@.subrange(0, i as int) =~= cs@.subrange(0, i - 1) .push(cs@[i - 1]));
    }
    assert(cs@.subrange(0, i as int) =~= cs@);
}

/// Appends the digits of `n` in base `base`.
fn push_digits(out: &mut Vec<char>, n: u64, base: u64)
    requires
        2 <= base <= 16,
    ensures
        final(out)@ == old(out)@ + digits(n as nat, base as nat),
    decreases n,
{
    if n < base {
        out.push(digit_of(n));
    } else {
        proof {
            vstd::arithmetic::div_mod::lemma_div_decreases(n as int, base as int);
        }
        push_digits(out, n / base, base);
        out.push(digit_of(n % base));
    }
}

/// Appends `n` in decimal.
fn push_decimal(out: &mut Vec<char>, n: u64)
    ensures
        final(out)@ == old(out)@ + decimal(n as nat),
{
    push_digits(out, n, 10);
}

/// Appends a signed number in decimal.
fn push_signed(out: &mut Vec<char>, n: i64)
    ensures
        final(out)@ == old(out)@ + signed_decimal(n as int),
{
    if n < 0 {
        out.push('-');
        let m: u64 = (0i128 - n as i128) as u64;
        push_decimal(out, m);
        assert(old(out)@.push('-') + decimal(m as nat) =~= old(out)@ + (seq!['-'] + decimal(m as nat)));
    } else {
        push_decimal(out, n as u64);
    }
}

/// Appends `n` in upper-case hexadecimal, padded with zeros to `width` digits.
fn push_hex(out: &mut Vec<char>, n: u64, width: usize)
    ensures
        final(out)@ == old(out)@ + hex_padded(n as nat, width as nat),
{
    let mut h: Vec<char> = Vec::new();
    push_digits(&mut h, n, 16);
    assert(h@ =~= digits(n as nat, 16));
    let ghost start = out@;
    let mut pad: usize = 0;
    if h.len() < width {
        pad = width - h.len();
    }
    let mut i: usize = 0;
    while i < pad
        invariant
            i <= pad,
            out@ == start + Seq::new(i as nat, |k: int| '0'),
        decreases pad - i,
    {
        out.push('0');
        i = i + 1;
        assert(Seq::new(i as nat, |k: int| '0') =~= Seq::new((i - 1) as nat, |k: int| '0').push('0'));
    }
    let mut j: usize = 0;
    while j < h.len()
        invariant
            j <= h@.len(),
            out@ == start + Seq::new(pad as nat, |k: int| '0') + h@.subrange(0, j as int),
        decreases h@.len() - j,
    {
        out.push(h[j]);
        j = j + 1;
        assert(h@.subrange(0, j as int) =~= h@.subrange(0, j - 1).push(h@[j - 1]));
    }
    assert(h@.subrange(0, j as int) =~= h@);
    if h.len() < width {
        assert(out@ =~= start + hex_padded(n as nat, width as nat));
    } else {
        assert(Seq::new(pad as nat, |k: int| '0') =~= Seq::<char>::empty());
        assert(out@ =~= start + hex_padded(n as nat, width as nat));
    }
}

/// Appends `true` or `false`.
fn push_bool(out: &mut Vec<char>, b: bool)
    ensures
        final(out)@ == old(out)@ + bool_text(b),
{
    if b {
        push_text(out, "true");
    } else {
        push_text(out, "false");
    }
}

/// The message for a magic field of `len` bytes.
pub fn magic_length_text(len: usize) -> (r: String)
    ensures
        r@ == magic_length_spec(len as nat),
{
    let mut out: Vec<char> = Vec::new();
    push_text(&mut out, "magic validation requires 4 bytes, got ");
    push_decimal(&mut out, len as u64);
    string_from_chars(out.as_slice())
}

/// The message for a text that is no UUID, with the parser's reason.
pub fn invalid_uuid_text(text: &str, reason: &str) -> (r: String)
    ensures
        r@ == invalid_uuid_spec(text@, reason@),
{
    let mut out: Vec<char> = Vec::new();
    push_text(&mut out, "'");
    push_text(&mut out, text);
    push_text(&mut out, "' is not a valid UUID: ");
    push_text(&mut out, reason);
    string_from_chars(out.as_slice())
}

impl ProtocolError {
    /// The human-readable message of this error.
    pub fn message(&self) -> (r: String)
        ensures
            r@ == error_text(self@),
    {
        let mut out: Vec<char> = Vec::new();
        match self {
            ProtocolError::UnknownMessageType(v) => {
                push_text(&mut out, "unknown message type: 0x");
                push_hex(&mut out, *v as u64, 2);
            },
            ProtocolError::InvalidFlags(v) => {
                push_text(&mut out, "invalid flags: 0x");
                push_hex(&mut out, *v as u64, 2);
                push_text(&mut out, " (reserved bits must be zero)");
            },
            ProtocolError::InvalidMagic { received, expected } => {
                push_text(&mut out, "magic mismatch: received 0x");
                push_hex(&mut out, *received as u64, 8);
                push_text(&mut out, ", expected 0x");
                push_hex(&mut out, *expected as u64, 8);
            },
            ProtocolError::InvalidVersion { received, expected } => {
                push_text(&mut out, "version mismatch: received ");
                push_decimal(&mut out, *received as u64);
                push_text(&mut out, ", expected ");
                push_decimal(&mut out, *expected as u64);
            },
            ProtocolError::InvalidFrameLength(m) => {
                push_text(&mut out, "invalid frame length: ");
                push_text(&mut out, m.as_str());
            },
            ProtocolError::IncompleteFrame { required, actual, context } => {
                push_text(&mut out, "incomplete frame (");
                push_text(&mut out, context);
                push_text(&mut out, "): required ");
                push_decimal(&mut out, *required as u64);
                push_text(&mut out, " bytes, got ");
                push_decimal(&mut out, *actual as u64);
            },
            ProtocolError::NameTooLong { name_type, length, max } => {
                push_text(&mut out, name_type);
                push_text(&mut out, " name too long: ");
                push_decimal(&mut out, *length as u64);
                push_text(&mut out, " bytes (max: ");
                push_decimal(&mut out, *max as u64);
                push_text(&mut out, ")");
            },
            ProtocolError::StreamTooLong { length, max } => {
                push_text(&mut out, "stream too long: ");
                push_decimal(&mut out, *length as u64);
                push_text(&mut out, " bytes (max: ");
                push_decimal(&mut out, *max as u64);
                push_text(&mut out, " bytes)");
            },
            ProtocolError::LengthOverflow(c) => {
                push_text(&mut out, "arithmetic overflow in: ");
                push_text(&mut out, c);
            },
            ProtocolError::InvalidOffset { offset, total } => {
                push_text(&mut out, "invalid offset: ");
                push_decimal(&mut out, *offset as u64);
                push_text(&mut out, " (total: ");
                push_decimal(&mut out, *total as u64);
                push_text(&mut out, ")");
            },
            ProtocolError::CrcMismatch { received, calculated } => {
                push_text(&mut out, "CRC mismatch: received 0x");
                push_hex(&mut out, *received as u64, 4);
                push_text(&mut out, ", calculated 0x");
                push_hex(&mut out, *calculated as u64, 4);
            },
            ProtocolError::MalformedFrame(m) => {
                push_text(&mut out, "malformed frame: ");
                push_text(&mut out, m.as_str());
            },
            ProtocolError::EmptyName(t) => {
                push_text(&mut out, t);
                push_text(&mut out, " name cannot be empty");
            },
            ProtocolError::InvalidUuidLength { expected, actual } => {
                push_text(&mut out, "invalid UUID length: expected ");
                push_decimal(&mut out, *expected as u64);
                push_text(&mut out, " bytes, got ");
                push_decimal(&mut out, *actual as u64);
            },
            ProtocolError::InvalidUuidFormat(m) => {
                push_text(&mut out, "invalid UUID format: ");
                push_text(&mut out, m.as_str());
            },
            ProtocolError::InvalidTargetCount { received, reason } => {
                push_text(&mut out, "invalid target count: ");
                push_decimal(&mut out, *received as u64);
                push_text(&mut out, " (");
                push_text(&mut out, reason.as_str());
                push_text(&mut out, ")");
            },
            ProtocolError::InvalidName(t) => {
                push_text(&mut out, t);
                push_text(&mut out, " name cannot be empty");
            },
            ProtocolError::InvalidProtocol(u) => {
                push_text(&mut out, "invalid protocol scheme: ");
                push_text(&mut out, u.as_str());
                push_text(&mut out, " (expected fernq://)");
            },
            ProtocolError::EmptyAddress => {
                push_text(&mut out, "address is empty after fernq://");
            },
            ProtocolError::InvalidPort(p) => {
                push_text(&mut out, "invalid port number: ");
                push_text(&mut out, p.as_str());
            },
            ProtocolError::InvalidUtf8 => {
                push_text(&mut out, "payload is not valid UTF-8");
            },
            ProtocolError::MissingUuid => {
                push_text(&mut out, "missing UUID in URL path");
            },
            ProtocolError::MissingName => {
                push_text(&mut out, "missing room name (expected #name)");
            },
            ProtocolError::MissingPassword => {
                push_text(&mut out, "missing room_pass in query string");
            },
            ProtocolError::EmptyPassword => {
                push_text(&mut out, "room_pass cannot be empty");
            },
            ProtocolError::InvalidJson(m) => {
                push_text(&mut out, "json parse error: ");
                push_text(&mut out, m.as_str());
            },
            ProtocolError::InvalidHeaderType(t) => {
                push_text(&mut out, "invalid header_type: ");
                push_text(&mut out, t.as_str());
                push_text(&mut out, " (expected 'request' or 'response')");
            },
            ProtocolError::InvalidContentType(t) => {
                push_text(&mut out, "invalid content_type: ");
                push_text(&mut out, t.as_str());
                push_text(&mut out, " (expected 'json', 'form', or 'form_flow')");
            },
            ProtocolError::MissingPath => {
                push_text(&mut out, "missing required field 'path' for request");
            },
            ProtocolError::MissingState => {
                push_text(&mut out, "missing required field 'state' for response");
            },
            ProtocolError::UnexpectedBody => {
                push_text(&mut out, "unexpected body field for form/form_flow content type");
            },
            ProtocolError::MissingBody => {
                push_text(
                    &mut out,
                    "missing required body field for json content type (deprecated: body is now optional)",
                );
            },
            ProtocolError::InvalidStateCode(c) => {
                push_text(&mut out, "invalid state code: ");
                push_signed(&mut out, *c);
                push_text(&mut out, " (expected HTTP status code)");
            },
        }
        assert(out@ =~= error_text(self@));
        string_from_chars(out.as_slice())
    }
}

impl MessageFlags {
    /// The rendering `[END_STREAM=.., END_CHANNEL=.., IS_RESPONSE=..]`.
    pub fn describe(&self) -> (r: String)
        ensures
            r@ == flags_text(self.bits()),
    {
        let mut out: Vec<char> = Vec::new();
        push_text(&mut out, "[END_STREAM=");
        push_bool(&mut out, self.end_stream());
        push_text(&mut out, ", END_CHANNEL=");
        push_bool(&mut out, self.end_channel());
        push_text(&mut out, ", IS_RESPONSE=");
        push_bool(&mut out, self.is_response());
        push_text(&mut out, "]");
        assert(out@ =~= flags_text(self.bits()));
        string_from_chars(out.as_slice())
    }
}

} // verus!
