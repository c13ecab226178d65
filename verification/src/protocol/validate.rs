//! The connection handshake: room URLs and verification replies.
//!
//! A client joins a room with a URL such as
//! `fernq://node-a.local:8080/<room uuid>#<room name>?room_pass=<password>`.
//! The client sends the whole URL as the payload of a Header frame; the
//! server answers with a Header frame carrying a JSON verdict.

use vstd::prelude::*;

use super::encoder::{generate_message_data_stream, stream_result};
use super::describe::{invalid_uuid_spec, invalid_uuid_text, push_text};
use super::error::{ErrorView, ProtocolError, ProtocolResult};
use super::frame::{ChannelId, MessageType};
use super::message::{encode_response_to_bytes, json_bytes, response_object, valid_state, ContentType};
use super::json::{json_reals_ok, field_bool, field_text, get_bool, get_text, keys_ascending, lemma_members_view, reads_back, text_less, JsonMember, JsonValue, JsonView};
use super::outside::{json_result_view, read_ok, chars_of, json_read_str, json_read_text, json_text, json_write, parse_uuid, string_from_chars, utf8_to_string, uuid_parse_result};
use super::text::{holds_none_of, is_first_of_any, lemma_first_of_any_at, lemma_first_of_any_none, is_dotted_octets, is_ipv4, find_first_of, find_last, first_index, first_of_any, is_u16_text, last_index, parses_as_u16, starts_with, sub_chars};

verus! {

/// The port a client connects to when a URL gives an IP address without one.
pub open spec fn default_port_suffix() -> Seq<char> {
    ":9147"@
}

/// What `validate_ipv4_or_hostname` makes of an address: the address itself,
/// unless a last `:` is followed by text that is no `u16` port, or preceded
/// by nothing; an IPv4 address without a port gets the default port, a host
/// name without a port stays as it is.
pub open spec fn ipv4_or_hostname_spec(a: Seq<char>) -> Result<Seq<char>, ErrorView> {
    match last_index(a, ':') {
        Some(p) => {
            let port = a.subrange(p + 1, a.len() as int);
            if !parses_as_u16(port) {
                Err(ErrorView::InvalidPort(port))
            } else if p == 0 {
                Err(ErrorView::MalformedFrame("empty host before port"@))
            } else {
                Ok(a)
            }
        },
        None => if is_ipv4(a) {
            Ok(a + default_port_suffix())
        } else {
            Ok(a)
        },
    }
}

/// What `validate_ipv6_address` makes of an address that starts with `[`:
/// a bracketed address without a port gets the default port.
pub open spec fn ipv6_spec(a: Seq<char>) -> Result<Seq<char>, ErrorView> {
    match first_index(a, ']') {
        None => Err(ErrorView::MalformedFrame("unclosed IPv6 bracket"@)),
        Some(c) => {
            if c + 1 < a.len() {
                if a[c + 1] != ':' {
                    Err(ErrorView::MalformedFrame("invalid IPv6 format, expected ]:port"@))
                } else if !parses_as_u16(a.subrange(c + 2, a.len() as int)) {
                    Err(ErrorView::InvalidPort(a.subrange(c + 2, a.len() as int)))
                } else {
                    Ok(a)
                }
            } else {
                Ok(a + default_port_suffix())
            }
        },
    }
}

/// The IPv6 check compares the single byte after `]` with `:`; it can only
/// do so when that character is ASCII (one byte long).
pub open spec fn ipv6_in_bounds(a: Seq<char>) -> bool {
    match first_index(a, ']') {
        Some(c) => c + 1 < a.len() ==> (a[c + 1] as u32) < 0x80,
        None => true,
    }
}

/// What `validate_and_normalize_address` makes of an address.
pub open spec fn address_spec(a: Seq<char>) -> Result<Seq<char>, ErrorView> {
    if a.len() > 0 && a[0] == '[' {
        ipv6_spec(a)
    } else {
        ipv4_or_hostname_spec(a)
    }
}

/// The address check reads no byte it cannot.
pub open spec fn address_in_bounds(a: Seq<char>) -> bool {
    a.len() > 0 && a[0] == '[' ==> ipv6_in_bounds(a)
}

/// A text result, by the error's view.
pub open spec fn text_result_view(r: ProtocolResult<String>) -> Result<Seq<char>, ErrorView> {
    match r {
        Ok(s) => Ok(s@),
        Err(e) => Err(e@),
    }
}

/// Checks a host-and-port address (`[ipv6]`, `[ipv6]:port`, `host` or
/// `host:port`) and returns the address to connect to: an IP address without
/// a port gets the default port 9147, a host name without one is returned
/// as it is.
pub fn validate_and_normalize_address(addr: &str) -> (r: ProtocolResult<String>)
    requires
        address_in_bounds(addr@),
    ensures
        text_result_view(r) == address_spec(addr@),
{
    let chars = chars_of(addr);
    if chars.len() > 0 && chars[0] == '[' {
        validate_ipv6_address(addr)
    } else {
        validate_ipv4_or_hostname(addr)
    }
}

/// Checks `host` or `host:port` (the port after the last `:`); a dotted-quad
/// IPv4 address without a port gets the default port.
pub fn validate_ipv4_or_hostname(addr: &str) -> (r: ProtocolResult<String>)
    ensures
        text_result_view(r) == ipv4_or_hostname_spec(addr@),
{
    let chars = chars_of(addr);
    let n = chars.len();
    match find_last(chars.as_slice(), ':') {
        Some(colon_pos) => {
            let port = sub_chars(chars.as_slice(), colon_pos + 1, n);
            if !is_u16_text(port.as_slice()) {
                return Err(ProtocolError::InvalidPort(string_from_chars(port.as_slice())));
            }
            if colon_pos == 0 {
                return Err(ProtocolError::MalformedFrame("empty host before port".to_owned()));
            }
            Ok(string_from_chars(chars.as_slice()))
        },
        None => {
            if is_dotted_octets(chars.as_slice(), 4) {
                Ok(with_default_port(addr))
            } else {
                Ok(string_from_chars(chars.as_slice()))
            }
        },
    }
}

/// `addr` followed by the default port.
fn with_default_port(addr: &str) -> (r: String)
    ensures
        r@ == addr@ + default_port_suffix(),
{
    let mut out: Vec<char> = Vec::new();
    push_text(&mut out, addr);
    push_text(&mut out, ":9147");
    string_from_chars(out.as_slice())
}

/// Checks `[address]` or `[address]:port`; without a port the default port
/// is added.
pub fn validate_ipv6_address(addr: &str) -> (r: ProtocolResult<String>)
    requires
        ipv6_in_bounds(addr@),
    ensures
        text_result_view(r) == ipv6_spec(addr@),
{
    let chars = chars_of(addr);
    let n = chars.len();
    let close_set = vec![']'];
    let close_bracket = match find_first_of(chars.as_slice(), close_set.as_slice()) {
        Some(c) => c,
        None => {
            return Err(ProtocolError::MalformedFrame("unclosed IPv6 bracket".to_owned()));
        },
    };
    assert(close_set@ =~= seq![']']);
    if close_bracket + 1 < n {
        if chars[close_bracket + 1] != ':' {
            return Err(
                ProtocolError::MalformedFrame("invalid IPv6 format, expected ]:port".to_owned()),
            );
        }
        let port = sub_chars(chars.as_slice(), close_bracket + 2, n);
        if !is_u16_text(port.as_slice()) {
            return Err(ProtocolError::InvalidPort(string_from_chars(port.as_slice())));
        }
        Ok(string_from_chars(chars.as_slice()))
    } else {
        Ok(with_default_port(addr))
    }
}


/// The value of the first `&`-separated parameter of `query` that starts
/// with `key`, taken after `key`.
pub open spec fn param_value(query: Seq<char>, key: Seq<char>) -> Option<Seq<char>>
    decreases query.len(),
{
    let end = match first_index(query, '&') {
        Some(i) => i,
        None => query.len() as int,
    };
    if 0 <= end <= query.len() {
        let seg = query.subrange(0, end);
        if key.is_prefix_of(seg) {
            Some(seg.subrange(key.len() as int, seg.len() as int))
        } else if end < query.len() {
            param_value(query.subrange(end + 1, query.len() as int), key)
        } else {
            None
        }
    } else {
        None
    }
}

/// What `extract_password` makes of a URL: the URL before the first `?`,
/// and the `room_pass` parameter of the query after it.
pub open spec fn password_spec(u: Seq<char>) -> Result<(Seq<char>, Seq<char>), ErrorView> {
    match first_index(u, '?') {
        None => Err(ErrorView::MissingPassword),
        Some(q) => match param_value(u.subrange(q + 1, u.len() as int), "room_pass="@) {
            None => Err(ErrorView::MissingPassword),
            Some(p) => if p.len() == 0 {
                Err(ErrorView::EmptyPassword)
            } else {
                Ok((u.subrange(0, q), p))
            },
        },
    }
}

/// The password is the whole `room_pass` value: for a URL `base` (holding
/// no `?`) followed by `?room_pass=` and a non-empty password holding no
/// `&`, and then nothing or further `&`-separated parameters, the URL before
/// the query is `base` and the password is exactly the one given.
pub proof fn lemma_password_is_whole_value(base: Seq<char>, password: Seq<char>, more: Seq<char>)
    requires
        holds_none_of(base, seq!['?']),
        password.len() > 0,
        holds_none_of(password, seq!['&']),
        more.len() == 0 || more[0] == '&',
    ensures
        password_spec(base + "?room_pass="@ + password + more) == Ok::<(Seq<char>, Seq<char>), ErrorView>(
            (base, password),
        ),
{
    reveal_strlit("?room_pass=");
    reveal_strlit("room_pass=");
    let key = "room_pass="@;
    let u = base + "?room_pass="@ + password + more;
    let q = base.len() as int;
    assert("?room_pass="@ =~= seq!['?'] + key);
    assert(u[q] == '?');
    assert forall|j: int| 0 <= j < q implies !seq!['?'].contains(#[trigger] u[j]) by {
        assert(u[j] == base[j]);
        assert(!seq!['?'].contains(base[j]));
    }
    assert(is_first_of_any(u, seq!['?'], q)) by {
        assert(seq!['?'].contains(u[q])) by {
            assert(seq!['?'][0] == '?');
        }
    }
    lemma_first_of_any_at(u, seq!['?'], q);
    let query = u.subrange(q + 1, u.len() as int);
    assert(query =~= key + password + more);
    let end = (key.len() + password.len()) as int;
    assert(key =~= seq!['r', 'o', 'o', 'm', '_', 'p', 'a', 's', 's', '=']);
    assert forall|j: int| 0 <= j < end implies !seq!['&'].contains(#[trigger] query[j]) by {
        if j < key.len() {
            assert(query[j] == key[j]);
            assert(key[j] != '&');
        } else {
            assert(query[j] == password[j - key.len()]);
            assert(!seq!['&'].contains(password[j - key.len()]));
        }
        if seq!['&'].contains(query[j]) {
            let k = choose|k: int| 0 <= k < seq!['&'].len() && seq!['&'][k] == query[j];
            assert(seq!['&'][k] == '&');
            if j >= key.len() {
                assert(seq!['&'].contains(password[j - key.len()]));
            }
        }
    }
    if more.len() == 0 {
        assert(holds_none_of(query, seq!['&'])) by {
            assert(query.len() == end);
        }
        lemma_first_of_any_none(query, seq!['&']);
    } else {
        assert(query[end] == '&');
        assert(is_first_of_any(query, seq!['&'], end)) by {
            assert(seq!['&'].contains(query[end])) by {
                assert(seq!['&'][0] == '&');
            }
        }
        lemma_first_of_any_at(query, seq!['&'], end);
    }
    let seg = query.subrange(0, end);
    assert(seg =~= key + password);
    assert(key.is_prefix_of(seg));
    assert(seg.subrange(key.len() as int, seg.len() as int) =~= password);
    assert(u.subrange(0, q) =~= base);
}

/// What `extract_name` makes of a URL: the URL before the first `#`, and
/// the non-empty room name after it.
pub open spec fn name_spec(u: Seq<char>) -> Result<(Seq<char>, Seq<char>), ErrorView> {
    match first_index(u, '#') {
        None => Err(ErrorView::MissingName),
        Some(h) => if h + 1 == u.len() {
            Err(ErrorView::MissingName)
        } else {
            Ok((u.subrange(0, h), u.subrange(h + 1, u.len() as int)))
        },
    }
}

/// The text after the last `/` of `u` (all of `u` when it has none).
pub open spec fn last_segment(u: Seq<char>) -> Seq<char> {
    match last_index(u, '/') {
        Some(i) => u.subrange(i + 1, u.len() as int),
        None => u,
    }
}

/// What `extract_uuid` makes of a URL path: the UUID spelt by its last segment.
pub open spec fn uuid_spec(u: Seq<char>) -> Result<Seq<u8>, ErrorView> {
    if last_segment(u).len() == 0 {
        Err(ErrorView::MissingUuid)
    } else {
        match uuid_parse_result(last_segment(u)) {
            Ok(b) => Ok(b),
            Err(m) => Err(ErrorView::InvalidUuidFormat(invalid_uuid_spec(last_segment(u), m))),
        }
    }
}

/// A pair-of-texts result, by the error's view.
pub open spec fn pair_result_view(r: ProtocolResult<(String, String)>) -> Result<
    (Seq<char>, Seq<char>),
    ErrorView,
> {
    match r {
        Ok((a, b)) => Ok((a@, b@)),
        Err(e) => Err(e@),
    }
}

/// Splits the `room_pass` parameter off a URL: returns the URL before the
/// query and the password.
pub fn extract_password(url: &str) -> (r: ProtocolResult<(String, String)>)
    ensures
        pair_result_view(r) == password_spec(url@),
{
    let chars = chars_of(url);
    let n = chars.len();
    let question = vec!['?'];
    assert(question@ =~= seq!['?']);
    let query_start = match find_first_of(chars.as_slice(), question.as_slice()) {
        Some(q) => q,
        None => {
            return Err(ProtocolError::MissingPassword);
        },
    };
    let base_url = sub_chars(chars.as_slice(), 0, query_start);
    let query = sub_chars(chars.as_slice(), query_start + 1, n);
    let key = chars_of("room_pass=");
    let password = match find_param(query.as_slice(), key.as_slice()) {
        Some(p) => p,
        None => {
            return Err(ProtocolError::MissingPassword);
        },
    };
    if password.len() == 0 {
        return Err(ProtocolError::EmptyPassword);
    }
    Ok((string_from_chars(base_url.as_slice()), string_from_chars(password.as_slice())))
}

/// The value of the first parameter of `query` that starts with `key`.
fn find_param(query: &[char], key: &[char]) -> (r: Option<Vec<char>>)
    ensures
        match r {
            Some(v) => param_value(query@, key@) == Some(v@),
            None => param_value(query@, key@) is None,
        },
{
    let n = query.len();
    let amp = vec!['&'];
    assert(amp@ =~= seq!['&']);
    let mut start: usize = 0;
    assert(query@.subrange(0, n as int) =~= query@);
    while start <= n
        invariant
            start <= n == query@.len(),
            amp@ == seq!['&'],
            param_value(query@, key@) == param_value(query@.subrange(start as int, n as int), key@),
        decreases n - start,
    {
        let rest = &query[start..n];
        let ghost q = rest@;
        assert(q == query@.subrange(start as int, n as int));
        let found = find_first_of(rest, amp.as_slice());
        let end: usize = match found {
            Some(i) => i,
            None => rest.len(),
        };
        let seg = sub_chars(rest, 0, end);
        if starts_with(seg.as_slice(), key) {
            let value = sub_chars(seg.as_slice(), key.len(), seg.len());
            return Some(value);
        }
        match found {
            Some(i) => {
                assert(q.subrange(i + 1, q.len() as int) =~= query@.subrange(
                    start + i + 1,
                    n as int,
                ));
                start = start + i + 1;
            },
            None => {
                return None;
            },
        }
    }
    None
}

/// Splits the room name (after the first `#`) off a URL: returns the URL
/// before it and the name.
pub fn extract_name(url: &str) -> (r: ProtocolResult<(String, String)>)
    ensures
        pair_result_view(r) == name_spec(url@),
{
    let chars = chars_of(url);
    let n = chars.len();
    let hash = vec!['#'];
    assert(hash@ =~= seq!['#']);
    let hash_pos = match find_first_of(chars.as_slice(), hash.as_slice()) {
        Some(h) => h,
        None => {
            return Err(ProtocolError::MissingName);
        },
    };
    if hash_pos + 1 == n {
        return Err(ProtocolError::MissingName);
    }
    let base = sub_chars(chars.as_slice(), 0, hash_pos);
    let name = sub_chars(chars.as_slice(), hash_pos + 1, n);
    Ok((string_from_chars(base.as_slice()), string_from_chars(name.as_slice())))
}

/// A UUID result, by its bytes and the error's view.
pub open spec fn uuid_result_view(r: ProtocolResult<[u8; 16]>) -> Result<Seq<u8>, ErrorView> {
    match r {
        Ok(b) => Ok(b@),
        Err(e) => Err(e@),
    }
}

/// Reads the room UUID from the last segment of a URL path.
pub fn extract_uuid(url: &str) -> (r: ProtocolResult<[u8; 16]>)
    ensures
        uuid_result_view(r) == uuid_spec(url@),
{
    let chars = chars_of(url);
    let n = chars.len();
    let seg = match find_last(chars.as_slice(), '/') {
        Some(i) => sub_chars(chars.as_slice(), i + 1, n),
        None => sub_chars(chars.as_slice(), 0, n),
    };
    assert(chars@.subrange(0, n as int) =~= chars@);
    if seg.len() == 0 {
        return Err(ProtocolError::MissingUuid);
    }
    let text = string_from_chars(seg.as_slice());
    match parse_uuid(text.as_str()) {
        Ok(bytes) => Ok(bytes),
        Err(reason) => Err(ProtocolError::InvalidUuidFormat(invalid_uuid_text(text.as_str(), reason.as_str()))),
    }
}

/// What the server reads from a room URL: room UUID, room name and password.
pub open spec fn url_fields_spec(url: Seq<char>) -> Result<(Seq<u8>, Seq<char>, Seq<char>), ErrorView> {
    if !"fernq://"@.is_prefix_of(url) {
        Err(ErrorView::InvalidProtocol(url))
    } else {
        match password_spec(url) {
            Err(e) => Err(e),
            Ok((without_query, password)) => match name_spec(without_query) {
                Err(e) => Err(e),
                Ok((path, name)) => match uuid_spec(path) {
                    Err(e) => Err(e),
                    Ok(id) => Ok((id, name, password)),
                },
            },
        }
    }
}

/// The password a join payload yields is the whole `room_pass` value: for
/// the UTF-8 bytes of a URL `base?room_pass=<password>` followed by nothing
/// or more `&`-parameters (with `base` holding no `?` and the password
/// non-empty and free of `&`), whatever `parse_validate` accepts carries
/// exactly that password.
pub proof fn lemma_parse_validate_password(base: Seq<char>, password: Seq<char>, more: Seq<char>)
    requires
        holds_none_of(base, seq!['?']),
        password.len() > 0,
        holds_none_of(password, seq!['&']),
        more.len() == 0 || more[0] == '&',
    ensures
        parse_validate_spec(vstd::utf8::encode_utf8(base + "?room_pass="@ + password + more)) matches Ok(
            (_, _, p),
        ) ==> p == password,
{
    let url = base + "?room_pass="@ + password + more;
    lemma_password_is_whole_value(base, password, more);
    vstd::utf8::encode_utf8_valid_utf8(url);
    vstd::utf8::encode_utf8_decode_utf8(url);
}

/// What `parse_validate` makes of a handshake payload: room UUID, room
/// name and password.
pub open spec fn parse_validate_spec(payload: Seq<u8>) -> Result<
    (Seq<u8>, Seq<char>, Seq<char>),
    ErrorView,
> {
    if !vstd::utf8::valid_utf8(payload) {
        Err(ErrorView::InvalidUtf8)
    } else {
        url_fields_spec(vstd::utf8::decode_utf8(payload))
    }
}

/// A parsed handshake, by the UUID's bytes, the texts and the error's view.
pub open spec fn validate_result_view(r: ProtocolResult<([u8; 16], String, String)>) -> Result<
    (Seq<u8>, Seq<char>, Seq<char>),
    ErrorView,
> {
    match r {
        Ok((id, name, password)) => Ok((id@, name@, password@)),
        Err(e) => Err(e@),
    }
}

/// Reads a handshake payload (`url.as_bytes()`): returns the room UUID, the
/// room name and the password.
pub fn parse_validate(payload: &[u8]) -> (r: ProtocolResult<([u8; 16], String, String)>)
    ensures
        validate_result_view(r) == parse_validate_spec(payload@),
{
    let url = match utf8_to_string(payload) {
        Some(u) => u,
        None => {
            return Err(ProtocolError::InvalidUtf8);
        },
    };
    let chars = chars_of(url.as_str());
    let prefix = chars_of("fernq://");
    if !starts_with(chars.as_slice(), prefix.as_slice()) {
        return Err(ProtocolError::InvalidProtocol(url));
    }
    let (url_without_query, password) = extract_password(url.as_str())?;
    let (path_part, name) = extract_name(url_without_query.as_str())?;
    let uuid = extract_uuid(path_part.as_str())?;
    Ok((uuid, name, password))
}


/// The address part of a room URL: what follows `fernq://` up to the first
/// `/`, `?` or `#`.
pub open spec fn url_address(url: Seq<char>) -> Seq<char> {
    let rest = url.subrange("fernq://"@.len() as int, url.len() as int);
    match first_of_any(rest, seq!['/', '?', '#']) {
        Some(i) => rest.subrange(0, i),
        None => rest,
    }
}

/// What `create_validate` makes of a client name, channel id and room URL:
/// the checked address and the one Header frame that carries the URL.
pub open spec fn create_validate_spec(name: Seq<char>, channel_id: Seq<u8>, url: Seq<char>) -> Result<
    (Seq<char>, Seq<u8>),
    ErrorView,
> {
    if !"fernq://"@.is_prefix_of(url) {
        Err(ErrorView::InvalidProtocol(url))
    } else if url_address(url).len() == 0 {
        Err(ErrorView::EmptyAddress)
    } else {
        match address_spec(url_address(url)) {
            Err(e) => Err(e),
            Ok(address) => match stream_result(
                MessageType::Header,
                true,
                false,
                channel_id,
                name,
                "fernq"@,
                vstd::utf8::encode_utf8(url),
            ) {
                Err(e) => Err(e),
                Ok(frames) => if frames.len() != 1 {
                    Err(ErrorView::InvalidFrameLength("frame too long"@))
                } else {
                    Ok((address, frames[0]))
                },
            },
        }
    }
}

/// `create_validate` reads no byte it cannot: the address check can be made.
pub open spec fn create_validate_in_bounds(url: Seq<char>) -> bool {
    "fernq://"@.is_prefix_of(url) ==> address_in_bounds(url_address(url))
}

/// An address-and-frame result, by the error's view.
pub open spec fn address_frame_view(r: ProtocolResult<(String, Vec<u8>)>) -> Result<
    (Seq<char>, Seq<u8>),
    ErrorView,
> {
    match r {
        Ok((a, f)) => Ok((a@, f@)),
        Err(e) => Err(e@),
    }
}

/// Whether `create_validate` can check `url` (its address check reads no
/// character it cannot); a caller tests this before calling it.
pub fn create_validate_readable(url: &str) -> (r: bool)
    ensures
        r == create_validate_in_bounds(url@),
{
    let chars = chars_of(url);
    let n = chars.len();
    let prefix = chars_of("fernq://");
    if !starts_with(chars.as_slice(), prefix.as_slice()) {
        return true;
    }
    let rest = sub_chars(chars.as_slice(), prefix.len(), n);
    let stops = vec!['/', '?', '#'];
    assert(stops@ =~= seq!['/', '?', '#']);
    let addr_end = match find_first_of(rest.as_slice(), stops.as_slice()) {
        Some(i) => i,
        None => rest.len(),
    };
    let a = sub_chars(rest.as_slice(), 0, addr_end);
    assert(rest@.subrange(0, rest@.len() as int) =~= rest@);
    assert(a@ == url_address(url@));
    if a.len() == 0 || a[0] != '[' {
        return true;
    }
    let close_set = vec![']'];
    assert(close_set@ =~= seq![']']);
    match find_first_of(a.as_slice(), close_set.as_slice()) {
        Some(c) => {
            if c + 1 < a.len() {
                (a[c + 1] as u32) < 0x80
            } else {
                true
            }
        },
        None => true,
    }
}

/// Checks a room URL and builds the Header frame that asks to join the
/// room (source `name`, target `fernq`, payload the URL).  Returns the
/// address to connect to and the frame; the URL must fit in one frame.
pub fn create_validate(name: &str, channel_id: &ChannelId, url: String) -> (r: ProtocolResult<
    (String, Vec<u8>),
>)
    requires
        create_validate_in_bounds(url@),
    ensures
        address_frame_view(r) == create_validate_spec(name@, channel_id@, url@),
{
    let chars = chars_of(url.as_str());
    let n = chars.len();
    let prefix = chars_of("fernq://");
    if !starts_with(chars.as_slice(), prefix.as_slice()) {
        return Err(ProtocolError::InvalidProtocol(url));
    }
    let rest = sub_chars(chars.as_slice(), prefix.len(), n);
    let stops = vec!['/', '?', '#'];
    assert(stops@ =~= seq!['/', '?', '#']);
    let addr_end = match find_first_of(rest.as_slice(), stops.as_slice()) {
        Some(i) => i,
        None => rest.len(),
    };
    let addr_part = sub_chars(rest.as_slice(), 0, addr_end);
    assert(rest@.subrange(0, rest@.len() as int) =~= rest@);
    if addr_part.len() == 0 {
        return Err(ProtocolError::EmptyAddress);
    }
    let addr_text = string_from_chars(addr_part.as_slice());
    let normalized_addr = validate_and_normalize_address(addr_text.as_str())?;
    let mut frames = generate_message_data_stream(
        MessageType::Header,
        true,
        false,
        channel_id,
        name,
        "fernq",
        url.as_str().as_bytes(),
    )?;
    if frames.len() != 1 {
        return Err(ProtocolError::InvalidFrameLength("frame too long".to_owned()));
    }
    let frame = frames.remove(0);
    Ok((normalized_addr, frame))
}


/// The single Header frame, flagged end-of-stream, end-of-channel and
/// response, that carries `payload` from `fernq` to `name`; a payload too
/// long for one frame is refused with `InvalidFrameLength`.
pub open spec fn reply_frame_spec(name: Seq<char>, channel_id: Seq<u8>, payload: Seq<u8>) -> Result<
    Seq<u8>,
    ErrorView,
> {
    match stream_result(MessageType::Header, true, true, channel_id, "fernq"@, name, payload) {
        Err(e) => Err(e),
        Ok(frames) => if frames.len() != 1 {
            Err(ErrorView::InvalidFrameLength("frame too long"@))
        } else {
            Ok(frames[0])
        },
    }
}

/// The object the server's verdict is written as: `message` and `state`
/// (members in key order).
pub open spec fn verdict_object(state: bool, message: Seq<char>) -> JsonView {
    JsonView::Object(seq![("message"@, JsonView::Str(message)), ("state"@, JsonView::Bool(state))])
}

/// What `create_verify_response` builds: the reply frame whose payload is
/// the JSON text of the verdict.
pub open spec fn verify_response_spec(
    name: Seq<char>,
    channel_id: Seq<u8>,
    state: bool,
    message: Seq<char>,
) -> Result<Seq<u8>, ErrorView> {
    reply_frame_spec(name, channel_id, json_bytes(verdict_object(state, message)))
}

/// A frame result, by views.
pub open spec fn frame_result_view(r: ProtocolResult<Vec<u8>>) -> Result<Seq<u8>, ErrorView> {
    match r {
        Ok(f) => Ok(f@),
        Err(e) => Err(e@),
    }
}

/// Frames `payload` as the server's reply to `name` (see `reply_frame_spec`).
pub fn reply_frame(name: &str, channel_id: &ChannelId, payload: &[u8]) -> (r: ProtocolResult<Vec<u8>>)
    ensures
        frame_result_view(r) == reply_frame_spec(name@, channel_id@, payload@),
{
    let mut frames = generate_message_data_stream(
        MessageType::Header,
        true,
        true,
        channel_id,
        "fernq",
        name,
        payload,
    )?;
    if frames.len() != 1 {
        return Err(ProtocolError::InvalidFrameLength("frame too long".to_owned()));
    }
    let ghost all = frames@;
    let frame = frames.remove(0);
    proof {
        assert(super::encoder::frames_view(all) =~= seq![frame@]);
    }
    Ok(frame)
}

/// Builds the server's answer to a join request: a Header response frame
/// from `fernq` to `name` whose payload is `{"state": .., "message": ..}`.
pub fn create_verify_response(name: &str, channel_id: &ChannelId, state: bool, message: &str) -> (r:
    ProtocolResult<Vec<u8>>)
    ensures
        frame_result_view(r) == verify_response_spec(name@, channel_id@, state, message@),
{
    let mut members: Vec<JsonMember> = Vec::new();
    members.push(JsonMember { key: "message".to_owned(), value: JsonValue::String(message.to_owned()) });
    members.push(JsonMember { key: "state".to_owned(), value: JsonValue::Bool(state) });
    let verdict = JsonValue::Object(members);
    proof {
        lemma_members_view(members@);
        assert(super::json::members_view(members@) =~= seq![
            ("message"@, JsonView::Str(message@)),
            ("state"@, JsonView::Bool(state)),
        ]);
        assert(verdict@ == verdict_object(state, message@));
    }
    proof {
        let ms = seq![("message"@, JsonView::Str(message@)), ("state"@, JsonView::Bool(state))];
        assert forall|i: int| 0 <= i < ms.len() implies json_reals_ok(#[trigger] ms[i].1) by {}
        assert(json_reals_ok(verdict@));
    }
    match json_write(&verdict) {
        Some(text) => reply_frame(name, channel_id, text.as_str().as_bytes()),
        None => Err(ProtocolError::InvalidJson("a number's text is no JSON number".to_owned())),
    }
}

/// Builds a JSON response frame (Header, from `fernq` to `name`) carrying
/// `state` and the string `body`.  A state outside 100..=599 is refused
/// with `InvalidStateCode`; otherwise the result is the reply frame of the
/// encoded response.
pub fn create_message_response(name: &str, channel_id: &ChannelId, state: u16, body: &str) -> (r:
    ProtocolResult<Vec<u8>>)
    ensures
        !valid_state(state as int) ==> r == Err::<Vec<u8>, ProtocolError>(
            ProtocolError::InvalidStateCode(state as i64),
        ),
        valid_state(state as int) ==> frame_result_view(r) == reply_frame_spec(
            name@,
            channel_id@,
            json_bytes(response_object(state, ContentType::Json, Some(JsonView::Str(body@)))),
        ),
{
    let json_bytes = encode_response_to_bytes(
        state,
        ContentType::Json,
        Some(JsonValue::String(body.to_owned())),
    )?;
    reply_frame(name, channel_id, json_bytes.as_slice())
}

/// What `parse_verify_response` makes of a verdict payload.
pub open spec fn parse_verify_spec(data: Seq<u8>) -> Result<(bool, Seq<char>), ErrorView> {
    if !vstd::utf8::valid_utf8(data) {
        Err(ErrorView::InvalidUtf8)
    } else {
        match json_read_text(vstd::utf8::decode_utf8(data)) {
            Err(m) => Err(ErrorView::InvalidJson(m)),
            Ok(v) => match (field_bool(v, "state"@), field_text(v, "message"@)) {
                (None, _) => Err(ErrorView::InvalidJson("field 'state' must be boolean"@)),
                (Some(_), None) => Err(ErrorView::InvalidJson("field 'message' must be string"@)),
                (Some(state), Some(message)) => Ok((state, message)),
            },
        }
    }
}

/// A verdict result, by views.
pub open spec fn verdict_result_view(r: ProtocolResult<(bool, String)>) -> Result<(bool, Seq<char>), ErrorView> {
    match r {
        Ok((state, message)) => Ok((state, message@)),
        Err(e) => Err(e@),
    }
}

/// The verdict a payload carries.
pub open spec fn verdict_ok(v: (bool, Seq<char>)) -> Result<(bool, Seq<char>), ErrorView> {
    Ok(v)
}

/// Reads the server's verdict payload: `state` and `message`.  A payload
/// that `create_verify_response` wrote reads back as the verdict it carries.
pub fn parse_verify_response(data: &[u8]) -> (r: ProtocolResult<(bool, String)>)
    ensures
        verdict_result_view(r) == parse_verify_spec(data@),
        forall|v: (bool, Seq<char>)|
            data@ == #[trigger] json_bytes(verdict_object(v.0, v.1)) ==> verdict_result_view(r) == verdict_ok(v),
{
    proof {
        assert forall|v: (bool, Seq<char>)| data@ == #[trigger] json_bytes(verdict_object(v.0, v.1)) implies
            vstd::utf8::valid_utf8(data@) && vstd::utf8::decode_utf8(data@) == json_text(verdict_object(v.0, v.1)) by {
            vstd::utf8::encode_utf8_valid_utf8(json_text(verdict_object(v.0, v.1)));
            vstd::utf8::encode_utf8_decode_utf8(json_text(verdict_object(v.0, v.1)));
        }
    }
    let json_str = match utf8_to_string(data) {
        Some(s) => s,
        None => {
            return Err(ProtocolError::InvalidUtf8);
        },
    };
    let read = json_read_str(json_str.as_str());
    proof {
        assert forall|v: (bool, Seq<char>)| data@ == #[trigger] json_bytes(verdict_object(v.0, v.1)) implies
            json_result_view(read) == read_ok(verdict_object(v.0, v.1)) by {
            lemma_verdict_reads_back(v.0, v.1);
            assert(json_text(verdict_object(v.0, v.1)) == json_str@);
        }
    }
    let value = match read {
        Ok(v) => v,
        Err(text) => {
            return Err(ProtocolError::InvalidJson(text));
        },
    };
    proof {
        assert forall|v: (bool, Seq<char>)| data@ == #[trigger] json_bytes(verdict_object(v.0, v.1)) implies
            field_bool(value@, "state"@) == Some(v.0) && field_text(value@, "message"@) == Some(v.1) by {
            lemma_verdict_reads_back(v.0, v.1);
        }
    }
    let state = match get_bool(&value, "state") {
        Some(b) => b,
        None => {
            return Err(ProtocolError::InvalidJson("field 'state' must be boolean".to_owned()));
        },
    };
    match get_text(&value, "message") {
        Some(message) => Ok((state, message)),
        None => Err(ProtocolError::InvalidJson("field 'message' must be string".to_owned())),
    }
}

/// A verdict object reads back as itself.
pub proof fn lemma_verdict_reads_back(state: bool, message: Seq<char>)
    ensures
        reads_back(verdict_object(state, message)),
        field_bool(verdict_object(state, message), "state"@) == Some(state),
        field_text(verdict_object(state, message), "message"@) == Some(message),
{
    reveal_strlit("message");
    reveal_strlit("state");
    let ms = seq![("message"@, JsonView::Str(message)), ("state"@, JsonView::Bool(state))];
    assert("message"@[0] == 'm' && "state"@[0] == 's');
    assert(text_less("message"@, "state"@));
    assert(keys_ascending(ms));
    assert forall|i: int| 0 <= i < ms.len() implies super::json::reads_back_within(#[trigger] ms[i].1, 126) by {
        assert(ms[i].1 is Str || ms[i].1 is Bool);
    }
    assert(super::json::reads_back_within(JsonView::Object(ms), 127));
    assert(ms.drop_first() =~= seq![("state"@, JsonView::Bool(state))]);
    assert("state"@ != "message"@);
    assert(super::json::member_of(ms, "message"@) == Some(JsonView::Str(message)));
    assert(super::json::member_of(ms.drop_first(), "state"@) == Some(JsonView::Bool(state)));
    assert(super::json::member_of(ms, "state"@) == Some(JsonView::Bool(state)));
}

} // verus!
