//! The JSON message layer carried in Body frames.
//!
//! A request is `{"header_type": "request", "content_type": ..., "path": ...,
//! "body"?: ...}`; a response is `{"header_type": "response",
//! "content_type": ..., "state": <HTTP status>, "body"?: ...}`.  Only `json`
//! content may carry a body; `form` and `form_flow` never do.  Messages are
//! held as `JsonValue`s; serde_json writes and reads their text.

use vstd::prelude::*;

use super::error::{ErrorView, ProtocolError, ProtocolResult};
use super::json::{json_reals_ok, lemma_reads_back_writable, keys_ascending, member_of, reads_back_within, text_less, reads_back, field, field_text, field_u64, get_field, get_text, get_u64, JsonMember, JsonNumber, JsonValue, JsonView};
use super::outside::{chars_of, json_read_bytes, json_read_slice, json_read_str, json_read_text, json_result_view, json_text, json_write, string_from_chars};

verus! {

/// Whether `s` holds exactly the characters of `lit`.
pub fn text_is(s: &str, lit: &str) -> (r: bool)
    ensures
        r == (s@ == lit@),
{
    let a = chars_of(s);
    let b = chars_of(lit);
    if a.len() != b.len() {
        return false;
    }
    let mut i: usize = 0;
    while i < a.len()
        invariant
            i <= a@.len() == b@.len(),
            a@ == s@,
            b@ == lit@,
            forall|j: int| 0 <= j < i ==> a@[j] == b@[j],
        decreases a@.len() - i,
    {
        if a[i] != b[i] {
            assert(a@[i as int] != b@[i as int]);
            return false;
        }
        i = i + 1;
    }
    assert(a@ =~= b@);
    true
}

/// Message direction.
#[derive(Debug, Clone, Copy, PartialEq, Eq)]
pub enum HeaderType {
    Request,
    Response,
}

/// The wire name of a header type.
pub open spec fn header_type_text(h: HeaderType) -> Seq<char> {
    match h {
        HeaderType::Request => "request"@,
        HeaderType::Response => "response"@,
    }
}

/// The header type a wire name stands for.
pub open spec fn header_type_of(s: Seq<char>) -> Option<HeaderType> {
    if s == "request"@ {
        Some(HeaderType::Request)
    } else if s == "response"@ {
        Some(HeaderType::Response)
    } else {
        None
    }
}

impl HeaderType {
    /// The wire name: `request` or `response`.
    pub fn as_str(&self) -> (r: &'static str)
        ensures
            r@ == header_type_text(*self),
    {
        match self {
            HeaderType::Request => "request",
            HeaderType::Response => "response",
        }
    }

    /// The header type a wire name stands for; `InvalidHeaderType` otherwise.
    pub fn parse_text(s: &str) -> (r: ProtocolResult<HeaderType>)
        ensures
            match header_type_of(s@) {
                Some(h) => r == Ok::<HeaderType, ProtocolError>(h),
                None => r matches Err(e) && e@ == ErrorView::InvalidHeaderType(s@),
            },
    {
        if text_is(s, "request") {
            Ok(HeaderType::Request)
        } else if text_is(s, "response") {
            Ok(HeaderType::Response)
        } else {
            Err(ProtocolError::InvalidHeaderType(string_from_chars(chars_of(s).as_slice())))
        }
    }
}

impl std::str::FromStr for HeaderType {
    type Err = ProtocolError;

    fn from_str(s: &str) -> (r: Result<HeaderType, ProtocolError>)
        ensures
            match header_type_of(s@) {
                Some(h) => r == Ok::<HeaderType, ProtocolError>(h),
                None => r matches Err(e) && e@ == ErrorView::InvalidHeaderType(s@),
            },
    {
        HeaderType::parse_text(s)
    }
}

/// Content kind.
#[derive(Debug, Clone, Copy, PartialEq, Eq)]
pub enum ContentType {
    /// JSON data; the body is optional and may be any JSON value.
    Json,
    /// Form data; never a body (streamed).
    Form,
    /// Form stream data; never a body (streamed).
    FormFlow,
}

/// The wire name of a content type.
pub open spec fn content_type_text(c: ContentType) -> Seq<char> {
    match c {
        ContentType::Json => "json"@,
        ContentType::Form => "form"@,
        ContentType::FormFlow => "form_flow"@,
    }
}

/// The content type a wire name stands for.
pub open spec fn content_type_of(s: Seq<char>) -> Option<ContentType> {
    if s == "json"@ {
        Some(ContentType::Json)
    } else if s == "form"@ {
        Some(ContentType::Form)
    } else if s == "form_flow"@ {
        Some(ContentType::FormFlow)
    } else {
        None
    }
}

/// Only JSON content may carry a body.
pub open spec fn body_allowed(c: ContentType) -> bool {
    c == ContentType::Json
}

impl ContentType {
    /// The wire name: `json`, `form` or `form_flow`.
    pub fn as_str(&self) -> (r: &'static str)
        ensures
            r@ == content_type_text(*self),
    {
        match self {
            ContentType::Json => "json",
            ContentType::Form => "form",
            ContentType::FormFlow => "form_flow",
        }
    }

    /// Whether this content may carry a body (only `Json`).
    pub fn allows_body(&self) -> (r: bool)
        ensures
            r == body_allowed(*self),
    {
        match self {
            ContentType::Json => true,
            _ => false,
        }
    }

    /// The content type a wire name stands for; `InvalidContentType` otherwise.
    pub fn parse_text(s: &str) -> (r: ProtocolResult<ContentType>)
        ensures
            match content_type_of(s@) {
                Some(c) => r == Ok::<ContentType, ProtocolError>(c),
                None => r matches Err(e) && e@ == ErrorView::InvalidContentType(s@),
            },
    {
        if text_is(s, "json") {
            Ok(ContentType::Json)
        } else if text_is(s, "form") {
            Ok(ContentType::Form)
        } else if text_is(s, "form_flow") {
            Ok(ContentType::FormFlow)
        } else {
            Err(ProtocolError::InvalidContentType(string_from_chars(chars_of(s).as_slice())))
        }
    }
}

impl std::str::FromStr for ContentType {
    type Err = ProtocolError;

    fn from_str(s: &str) -> (r: Result<ContentType, ProtocolError>)
        ensures
            match content_type_of(s@) {
                Some(c) => r == Ok::<ContentType, ProtocolError>(c),
                None => r matches Err(e) && e@ == ErrorView::InvalidContentType(s@),
            },
    {
        ContentType::parse_text(s)
    }
}

/// A request message.
#[derive(Debug, Clone, PartialEq)]
pub struct RequestMessage {
    pub content_type: ContentType,
    pub path: String,
    pub body: Option<JsonValue>,
}

/// A response message.
#[derive(Debug, Clone, PartialEq)]
pub struct ResponseMessage {
    pub content_type: ContentType,
    pub state: u16,
    pub body: Option<JsonValue>,
}

/// A decoded message.
#[derive(Debug, Clone, PartialEq)]
pub enum Message {
    Request(RequestMessage),
    Response(ResponseMessage),
}

/// A message with its path and body taken by their views.
pub enum MessageView {
    Request { content_type: ContentType, path: Seq<char>, body: Option<JsonView> },
    Response { content_type: ContentType, state: u16, body: Option<JsonView> },
}

/// The option's value, by its view.
pub open spec fn opt_json(o: Option<JsonValue>) -> Option<JsonView> {
    match o {
        Some(v) => Some(v@),
        None => None,
    }
}

impl View for Message {
    type V = MessageView;

    open spec fn view(&self) -> MessageView {
        match *self {
            Message::Request(m) => MessageView::Request { content_type: m.content_type, path: m.path@, body: opt_json(m.body) },
            Message::Response(m) => MessageView::Response { content_type: m.content_type, state: m.state, body: opt_json(m.body) },
        }
    }
}

impl RequestMessage {
    /// A request without a body.
    pub fn new(path: String, content_type: ContentType) -> (r: Self)
        ensures
            r.content_type == content_type,
            r.path@ == path@,
            r.body is None,
    {
        RequestMessage { content_type, path, body: None }
    }

    /// A JSON request with a body.
    pub fn with_body(path: String, body: JsonValue) -> (r: Self)
        ensures
            r.content_type == ContentType::Json,
            r.path@ == path@,
            r.body == Some(body),
    {
        RequestMessage { content_type: ContentType::Json, path, body: Some(body) }
    }
}

impl ResponseMessage {
    /// A response without a body.
    pub fn new(state: u16, content_type: ContentType) -> (r: Self)
        ensures
            r.content_type == content_type,
            r.state == state,
            r.body is None,
    {
        ResponseMessage { content_type, state, body: None }
    }

    /// A JSON response with a body.
    pub fn with_body(state: u16, body: JsonValue) -> (r: Self)
        ensures
            r.content_type == ContentType::Json,
            r.state == state,
            r.body == Some(body),
    {
        ResponseMessage { content_type: ContentType::Json, state, body: Some(body) }
    }
}

/// State codes a response may carry (HTTP status codes).
pub open spec fn valid_state(state: int) -> bool {
    100 <= state <= 599
}

/// The members before the three fixed ones: `body` when there is one.
pub open spec fn body_members(body: Option<JsonView>) -> Seq<(Seq<char>, JsonView)> {
    match body {
        Some(b) => seq![("body"@, b)],
        None => Seq::empty(),
    }
}

/// The object a request is written as (members in key order).
pub open spec fn request_object(path: Seq<char>, content_type: ContentType, body: Option<JsonView>) -> JsonView {
    JsonView::Object(
        body_members(body) + seq![
            ("content_type"@, JsonView::Str(content_type_text(content_type))),
            ("header_type"@, JsonView::Str("request"@)),
            ("path"@, JsonView::Str(path)),
        ],
    )
}

/// The object a response is written as (members in key order).
pub open spec fn response_object(state: u16, content_type: ContentType, body: Option<JsonView>) -> JsonView {
    JsonView::Object(
        body_members(body) + seq![
            ("content_type"@, JsonView::Str(content_type_text(content_type))),
            ("header_type"@, JsonView::Str("response"@)),
            ("state"@, JsonView::Unsigned(state as u64)),
        ],
    )
}

/// A member of an object.
fn member(key: &str, value: JsonValue) -> (r: JsonMember)
    ensures
        r.key@ == key@,
        r.value == value,
{
    JsonMember { key: key.to_owned(), value }
}

/// A string value.
fn text_value(s: &str) -> (r: JsonValue)
    ensures
        r@ == JsonView::Str(s@),
{
    JsonValue::String(s.to_owned())
}

/// Builds the object of a message from its body and its three fixed members.
fn message_object(body: Option<JsonValue>, m1: JsonMember, m2: JsonMember, m3: JsonMember) -> (r: JsonValue)
    ensures
        r@ == JsonView::Object(
            body_members(opt_json(body)) + seq![(m1.key@, m1.value@), (m2.key@, m2.value@), (m3.key@, m3.value@)],
        ),
{
    let mut members: Vec<JsonMember> = Vec::new();
    if let Some(b) = body {
        members.push(member("body", b));
    }
    members.push(m1);
    members.push(m2);
    members.push(m3);
    proof {
        super::json::lemma_members_view(members@);
        assert(super::json::members_view(members@) =~= body_members(opt_json(body)) + seq![
            (m1.key@, m1.value@),
            (m2.key@, m2.value@),
            (m3.key@, m3.value@),
        ]);
    }
    JsonValue::Object(members)
}

/// Encodes a request as a JSON object (see `request_object`).  A `form` or
/// `form_flow` request with a body is refused with `UnexpectedBody`.
pub fn encode_request(path: String, content_type: ContentType, body: Option<JsonValue>) -> (r:
    ProtocolResult<JsonValue>)
    ensures
        r is Err <==> !body_allowed(content_type) && body is Some,
        r is Err ==> r == Err::<JsonValue, ProtocolError>(ProtocolError::UnexpectedBody),
        r matches Ok(v) ==> v@ == request_object(path@, content_type, opt_json(body)),
{
    if !content_type.allows_body() && body.is_some() {
        return Err(ProtocolError::UnexpectedBody);
    }
    let m1 = member("content_type", text_value(content_type.as_str()));
    let m2 = member("header_type", text_value(HeaderType::Request.as_str()));
    let m3 = member("path", JsonValue::String(path));
    Ok(message_object(body, m1, m2, m3))
}

/// Encodes a response as a JSON object (see `response_object`).  A state
/// outside 100..=599 is refused with `InvalidStateCode`; then a `form` or
/// `form_flow` response with a body with `UnexpectedBody`.
pub fn encode_response(state: u16, content_type: ContentType, body: Option<JsonValue>) -> (r:
    ProtocolResult<JsonValue>)
    ensures
        !valid_state(state as int) ==> r == Err::<JsonValue, ProtocolError>(
            ProtocolError::InvalidStateCode(state as i64),
        ),
        valid_state(state as int) && !body_allowed(content_type) && body is Some ==> r == Err::<
            JsonValue,
            ProtocolError,
        >(ProtocolError::UnexpectedBody),
        valid_state(state as int) && (body_allowed(content_type) || body is None) ==> r is Ok,
        r matches Ok(v) ==> v@ == response_object(state, content_type, opt_json(body)),
{
    if !(100 <= state && state <= 599) {
        return Err(ProtocolError::InvalidStateCode(state as i64));
    }
    if !content_type.allows_body() && body.is_some() {
        return Err(ProtocolError::UnexpectedBody);
    }
    let m1 = member("content_type", text_value(content_type.as_str()));
    let m2 = member("header_type", text_value(HeaderType::Response.as_str()));
    let m3 = member("state", JsonValue::Number(JsonNumber::Unsigned(state as u64)));
    Ok(message_object(body, m1, m2, m3))
}

/// The UTF-8 bytes of a JSON value's text.
pub open spec fn json_bytes(v: JsonView) -> Seq<u8> {
    vstd::utf8::encode_utf8(json_text(v))
}

/// A text result, by its characters and the error's view.
pub open spec fn string_result_view(r: ProtocolResult<String>) -> Result<Seq<char>, ErrorView> {
    match r {
        Ok(s) => Ok(s@),
        Err(e) => Err(e@),
    }
}

/// The message of the error for a value with a `Real` number whose text
/// serde_json cannot read, which therefore has no JSON text.
pub open spec fn unwritable_number_text() -> Seq<char> {
    "a number's text is no JSON number"@
}

/// The body, if any, can be written (see `json_reals_ok`).
pub open spec fn body_writable(body: Option<JsonView>) -> bool {
    body matches Some(b) ==> json_reals_ok(b)
}

/// An object can be written only when its first member's value can.
proof fn lemma_first_member_writable(v: JsonView)
    requires
        v is Object,
        v->Object_0.len() > 0,
    ensures
        json_reals_ok(v) ==> json_reals_ok(v->Object_0[0].1),
{
}

/// A message object can be written exactly when its body can.
pub proof fn lemma_message_object_writable(
    body: Option<JsonView>,
    m1: (Seq<char>, JsonView),
    m2: (Seq<char>, JsonView),
    m3: (Seq<char>, JsonView),
)
    requires
        json_reals_ok(m1.1),
        json_reals_ok(m2.1),
        json_reals_ok(m3.1),
    ensures
        json_reals_ok(JsonView::Object(body_members(body) + seq![m1, m2, m3])) == body_writable(body),
{
    let ms = body_members(body) + seq![m1, m2, m3];
    let tail = seq![m1, m2, m3];
    assert(tail[0] == m1 && tail[1] == m2 && tail[2] == m3);
    if body is Some {
        assert(ms[0].1 == body->0);
        if json_reals_ok(body->0) {
            assert forall|i: int| 0 <= i < ms.len() implies json_reals_ok(#[trigger] ms[i].1) by {
                if i > 0 {
                    assert(ms[i] == tail[i - 1]);
                }
            }
            assert(json_reals_ok(JsonView::Object(ms)));
        } else {
            assert(ms.len() == 4);
            assert(!json_reals_ok(ms[0].1));
            lemma_first_member_writable(JsonView::Object(ms));
        }
    } else {
        assert(ms =~= tail);
        assert forall|i: int| 0 <= i < ms.len() implies json_reals_ok(#[trigger] ms[i].1) by {
            assert(ms[i] == tail[i]);
        }
        assert(json_reals_ok(JsonView::Object(ms)));
    }
}

/// A request object can be written exactly when its body can.
pub proof fn lemma_request_writable(path: Seq<char>, content_type: ContentType, body: Option<JsonView>)
    ensures
        json_reals_ok(request_object(path, content_type, body)) == body_writable(body),
{
    lemma_message_object_writable(
        body,
        ("content_type"@, JsonView::Str(content_type_text(content_type))),
        ("header_type"@, JsonView::Str("request"@)),
        ("path"@, JsonView::Str(path)),
    );
}

/// A response object can be written exactly when its body can.
pub proof fn lemma_response_writable(state: u16, content_type: ContentType, body: Option<JsonView>)
    ensures
        json_reals_ok(response_object(state, content_type, body)) == body_writable(body),
{
    lemma_message_object_writable(
        body,
        ("content_type"@, JsonView::Str(content_type_text(content_type))),
        ("header_type"@, JsonView::Str("response"@)),
        ("state"@, JsonView::Unsigned(state as u64)),
    );
}

/// What `encode_request_to_bytes` makes: the bytes of `request_object`, or
/// why there are none.
pub open spec fn request_bytes_spec(path: Seq<char>, content_type: ContentType, body: Option<JsonView>) -> Result<
    Seq<u8>,
    ErrorView,
> {
    if !body_allowed(content_type) && body is Some {
        Err(ErrorView::UnexpectedBody)
    } else if !body_writable(body) {
        Err(ErrorView::InvalidJson(unwritable_number_text()))
    } else {
        Ok(json_bytes(request_object(path, content_type, body)))
    }
}

/// What `encode_response_to_bytes` makes: the bytes of `response_object`,
/// or why there are none.
pub open spec fn response_bytes_spec(state: u16, content_type: ContentType, body: Option<JsonView>) -> Result<
    Seq<u8>,
    ErrorView,
> {
    if !valid_state(state as int) {
        Err(ErrorView::InvalidStateCode(state as i64))
    } else if !body_allowed(content_type) && body is Some {
        Err(ErrorView::UnexpectedBody)
    } else if !body_writable(body) {
        Err(ErrorView::InvalidJson(unwritable_number_text()))
    } else {
        Ok(json_bytes(response_object(state, content_type, body)))
    }
}

/// What `encode_request_to_string` makes: the text of `request_object`, or
/// why there is none.
pub open spec fn request_text_spec(path: Seq<char>, content_type: ContentType, body: Option<JsonView>) -> Result<
    Seq<char>,
    ErrorView,
> {
    if !body_allowed(content_type) && body is Some {
        Err(ErrorView::UnexpectedBody)
    } else if !body_writable(body) {
        Err(ErrorView::InvalidJson(unwritable_number_text()))
    } else {
        Ok(json_text(request_object(path, content_type, body)))
    }
}

/// What `encode_response_to_string` makes: the text of `response_object`,
/// or why there is none.
pub open spec fn response_text_spec(state: u16, content_type: ContentType, body: Option<JsonView>) -> Result<
    Seq<char>,
    ErrorView,
> {
    if !valid_state(state as int) {
        Err(ErrorView::InvalidStateCode(state as i64))
    } else if !body_allowed(content_type) && body is Some {
        Err(ErrorView::UnexpectedBody)
    } else if !body_writable(body) {
        Err(ErrorView::InvalidJson(unwritable_number_text()))
    } else {
        Ok(json_text(response_object(state, content_type, body)))
    }
}

/// A byte result, by its bytes and the error's view.
pub open spec fn bytes_result_view(r: ProtocolResult<Vec<u8>>) -> Result<Seq<u8>, ErrorView> {
    match r {
        Ok(b) => Ok(b@),
        Err(e) => Err(e@),
    }
}

/// The UTF-8 bytes of the JSON text of a value (see `to_json_string`).
fn json_to_bytes(v: &JsonValue) -> (r: ProtocolResult<Vec<u8>>)
    ensures
        bytes_result_view(r) == (if json_reals_ok(v@) {
            Ok::<Seq<u8>, ErrorView>(json_bytes(v@))
        } else {
            Err(ErrorView::InvalidJson(unwritable_number_text()))
        }),
{
    match json_write(v) {
        Some(text) => Ok(text.as_str().as_bytes_vec()),
        None => Err(ProtocolError::InvalidJson("a number's text is no JSON number".to_owned())),
    }
}

/// Encodes a request as JSON bytes (see `request_bytes_spec`).
pub fn encode_request_to_bytes(path: String, content_type: ContentType, body: Option<JsonValue>) -> (r:
    ProtocolResult<Vec<u8>>)
    ensures
        bytes_result_view(r) == request_bytes_spec(path@, content_type, opt_json(body)),
{
    let ghost p = path@;
    let ghost b = opt_json(body);
    proof {
        lemma_request_writable(p, content_type, b);
    }
    let value = encode_request(path, content_type, body)?;
    json_to_bytes(&value)
}

/// Encodes a response as JSON bytes (see `response_bytes_spec`).
pub fn encode_response_to_bytes(state: u16, content_type: ContentType, body: Option<JsonValue>) -> (r:
    ProtocolResult<Vec<u8>>)
    ensures
        bytes_result_view(r) == response_bytes_spec(state, content_type, opt_json(body)),
{
    let ghost b = opt_json(body);
    proof {
        lemma_response_writable(state, content_type, b);
    }
    let value = encode_response(state, content_type, body)?;
    json_to_bytes(&value)
}

/// Encodes a request as JSON text (see `request_text_spec`).
pub fn encode_request_to_string(path: String, content_type: ContentType, body: Option<JsonValue>) -> (r:
    ProtocolResult<String>)
    ensures
        string_result_view(r) == request_text_spec(path@, content_type, opt_json(body)),
{
    let ghost p = path@;
    let ghost b = opt_json(body);
    proof {
        lemma_request_writable(p, content_type, b);
    }
    let value = encode_request(path, content_type, body)?;
    to_json_string(&value)
}

/// Encodes a response as JSON text (see `response_text_spec`).
pub fn encode_response_to_string(state: u16, content_type: ContentType, body: Option<JsonValue>) -> (r:
    ProtocolResult<String>)
    ensures
        string_result_view(r) == response_text_spec(state, content_type, opt_json(body)),
{
    let ghost b = opt_json(body);
    proof {
        lemma_response_writable(state, content_type, b);
    }
    let value = encode_response(state, content_type, body)?;
    to_json_string(&value)
}

/// The JSON text of a value; `InvalidJson` when a `Real` number in it has a
/// text that serde_json cannot read, for such a value has no JSON text.
pub fn to_json_string(value: &JsonValue) -> (r: ProtocolResult<String>)
    ensures
        string_result_view(r) == (if json_reals_ok(value@) {
            Ok::<Seq<char>, ErrorView>(json_text(value@))
        } else {
            Err(ErrorView::InvalidJson(unwritable_number_text()))
        }),
{
    match json_write(value) {
        Some(text) => Ok(text),
        None => Err(ProtocolError::InvalidJson("a number's text is no JSON number".to_owned())),
    }
}

/// What reading JSON gives, with a read error as `InvalidJson`.
pub open spec fn read_result(r: Result<JsonView, Seq<char>>) -> Result<JsonView, ErrorView> {
    match r {
        Ok(v) => Ok(v),
        Err(t) => Err(ErrorView::InvalidJson(t)),
    }
}

/// A value result, by the value's and the error's views.
pub open spec fn value_result_view(r: ProtocolResult<JsonValue>) -> Result<JsonView, ErrorView> {
    match r {
        Ok(v) => Ok(v@),
        Err(e) => Err(e@),
    }
}

/// The value JSON text spells (see `json_read_text`); `InvalidJson` with
/// serde_json's message when it spells none.
pub fn from_json_string(s: &str) -> (r: ProtocolResult<JsonValue>)
    ensures
        value_result_view(r) == read_result(json_read_text(s@)),
{
    match json_read_str(s) {
        Ok(value) => Ok(value),
        Err(text) => Err(ProtocolError::InvalidJson(text)),
    }
}

/// The message the fields read from a JSON value make: `is_object` tells
/// whether the root is an object, the options hold the string fields
/// `header_type`, `content_type` and `path`, the `state` field read as
/// `u64`, and the `body` field.  A state outside 100..=599 is refused.
pub open spec fn decode_fields_spec(
    is_object: bool,
    header_type: Option<Seq<char>>,
    content_type: Option<Seq<char>>,
    path: Option<Seq<char>>,
    state: Option<u64>,
    body: Option<JsonView>,
) -> Result<MessageView, ErrorView> {
    if !is_object {
        Err(ErrorView::MalformedFrame("root must be a JSON object"@))
    } else if header_type is None {
        Err(ErrorView::MalformedFrame("missing or invalid header_type"@))
    } else if header_type_of(header_type->0) is None {
        Err(ErrorView::InvalidHeaderType(header_type->0))
    } else if content_type is None {
        Err(ErrorView::MalformedFrame("missing or invalid content_type"@))
    } else if content_type_of(content_type->0) is None {
        Err(ErrorView::InvalidContentType(content_type->0))
    } else {
        let h = header_type_of(header_type->0)->0;
        let c = content_type_of(content_type->0)->0;
        if h == HeaderType::Request {
            if path is None {
                Err(ErrorView::MissingPath)
            } else if !body_allowed(c) && body is Some {
                Err(ErrorView::UnexpectedBody)
            } else {
                Ok(MessageView::Request { content_type: c, path: path->0, body })
            }
        } else {
            if state is None {
                Err(ErrorView::MissingState)
            } else if !valid_state(state->0 as int) {
                Err(ErrorView::InvalidStateCode(state->0 as i64))
            } else if !body_allowed(c) && body is Some {
                Err(ErrorView::UnexpectedBody)
            } else {
                Ok(MessageView::Response { content_type: c, state: state->0 as u16, body })
            }
        }
    }
}

/// The message a JSON value makes (see `decode_fields_spec`).
pub open spec fn decode_value_spec(v: JsonView) -> Result<MessageView, ErrorView> {
    decode_fields_spec(
        v is Object,
        field_text(v, "header_type"@),
        field_text(v, "content_type"@),
        field_text(v, "path"@),
        field_u64(v, "state"@),
        field(v, "body"@),
    )
}

/// A decoded message, by its view.
pub open spec fn message_result_view(r: ProtocolResult<Message>) -> Result<MessageView, ErrorView> {
    match r {
        Ok(m) => Ok(m@),
        Err(e) => Err(e@),
    }
}

/// The option's contents, by its view.
pub open spec fn opt_text(o: Option<String>) -> Option<Seq<char>> {
    match o {
        Some(s) => Some(s@),
        None => None,
    }
}

/// Builds the message from the fields of a JSON value (see
/// `decode_fields_spec`), checking them in the order `decode_message` does.
pub fn decode_message_fields(
    is_object: bool,
    header_type: Option<String>,
    content_type: Option<String>,
    path: Option<String>,
    state: Option<u64>,
    body: Option<JsonValue>,
) -> (r: ProtocolResult<Message>)
    ensures
        message_result_view(r) == decode_fields_spec(
            is_object,
            opt_text(header_type),
            opt_text(content_type),
            opt_text(path),
            state,
            opt_json(body),
        ),
        r matches Ok(Message::Request(m)) ==> m.body == body,
        r matches Ok(Message::Response(m)) ==> m.body == body,
{
    if !is_object {
        return Err(ProtocolError::MalformedFrame("root must be a JSON object".to_owned()));
    }
    let header_type_str = match header_type {
        Some(s) => s,
        None => {
            return Err(ProtocolError::MalformedFrame("missing or invalid header_type".to_owned()));
        },
    };
    let h = HeaderType::parse_text(header_type_str.as_str())?;
    let content_type_str = match content_type {
        Some(s) => s,
        None => {
            return Err(ProtocolError::MalformedFrame("missing or invalid content_type".to_owned()));
        },
    };
    let c = ContentType::parse_text(content_type_str.as_str())?;
    match h {
        HeaderType::Request => {
            let path = match path {
                Some(p) => p,
                None => {
                    return Err(ProtocolError::MissingPath);
                },
            };
            if !c.allows_body() && body.is_some() {
                return Err(ProtocolError::UnexpectedBody);
            }
            Ok(Message::Request(RequestMessage { content_type: c, path, body }))
        },
        HeaderType::Response => {
            let state = match state {
                Some(s) => s,
                None => {
                    return Err(ProtocolError::MissingState);
                },
            };
            if !(100 <= state && state <= 599) {
                return Err(ProtocolError::InvalidStateCode(state as i64));
            }
            if !c.allows_body() && body.is_some() {
                return Err(ProtocolError::UnexpectedBody);
            }
            Ok(Message::Response(ResponseMessage { content_type: c, state: state as u16, body }))
        },
    }
}

/// The body of a message.
pub open spec fn message_body(m: MessageView) -> Option<JsonView> {
    match m {
        MessageView::Request { body, .. } => body,
        MessageView::Response { body, .. } => body,
    }
}

/// Decoding keeps the body: a message decoded from a JSON value carries
/// exactly the value's `body` member (none when it has none), whatever JSON
/// value that is, numbers that are not integers included.
pub proof fn lemma_decode_keeps_body(v: JsonView)
    ensures
        decode_value_spec(v) matches Ok(m) ==> message_body(m) == field(v, "body"@),
{
}

/// Decodes a message from a JSON value (see `decode_value_spec`); the
/// message carries the value's `body` member exactly.
pub fn decode_message(value: JsonValue) -> (r: ProtocolResult<Message>)
    ensures
        message_result_view(r) == decode_value_spec(value@),
        r matches Ok(m) ==> message_body(m@) == field(value@, "body"@),
{
    proof {
        lemma_decode_keeps_body(value@);
    }
    let is_object = match &value {
        JsonValue::Object(_) => true,
        _ => false,
    };
    let header_type = get_text(&value, "header_type");
    let content_type = get_text(&value, "content_type");
    let path = get_text(&value, "path");
    let state = get_u64(&value, "state");
    let body = get_field(&value, "body");
    decode_message_fields(is_object, header_type, content_type, path, state, body)
}

/// What `decode_from_bytes` makes of bytes: the message their JSON value makes.
pub open spec fn decode_bytes_spec(data: Seq<u8>) -> Result<MessageView, ErrorView> {
    match json_read_bytes(data) {
        Ok(v) => decode_value_spec(v),
        Err(t) => Err(ErrorView::InvalidJson(t)),
    }
}

/// What `decode_from_string` makes of a text: the message its JSON value makes.
pub open spec fn decode_text_spec(s: Seq<char>) -> Result<MessageView, ErrorView> {
    match json_read_text(s) {
        Ok(v) => decode_value_spec(v),
        Err(t) => Err(ErrorView::InvalidJson(t)),
    }
}

/// Decodes a message from JSON bytes; `InvalidJson` when they are no JSON.
/// Bytes written for a value that reads back decode as that value does.
pub fn decode_from_bytes(data: &[u8]) -> (r: ProtocolResult<Message>)
    ensures
        message_result_view(r) == decode_bytes_spec(data@),
        r matches Ok(m) ==> (json_read_bytes(data@) matches Ok(v) && message_body(m@) == field(v, "body"@)),
        forall|v: JsonView|
            reads_back(v) && data@ == #[trigger] json_bytes(v) ==> message_result_view(r) == decode_value_spec(v),
{
    let value = match json_read_slice(data) {
        Ok(v) => v,
        Err(text) => {
            return Err(ProtocolError::InvalidJson(text));
        },
    };
    decode_message(value)
}

/// Decodes a message from JSON text; `InvalidJson` when it is no JSON.
/// A text written for a value that reads back decodes as that value does.
pub fn decode_from_string(s: &str) -> (r: ProtocolResult<Message>)
    ensures
        message_result_view(r) == decode_text_spec(s@),
        r matches Ok(m) ==> (json_read_text(s@) matches Ok(v) && message_body(m@) == field(v, "body"@)),
        forall|v: JsonView|
            reads_back(v) && s@ == #[trigger] json_text(v) ==> message_result_view(r) == decode_value_spec(v),
{
    let value = match json_read_str(s) {
        Ok(v) => v,
        Err(text) => {
            return Err(ProtocolError::InvalidJson(text));
        },
    };
    decode_message(value)
}

/// The wire name of each content type is read back as that content type.
pub proof fn lemma_content_type_text(c: ContentType)
    ensures
        content_type_of(content_type_text(c)) == Some(c),
        content_type_text(c).len() > 0,
{
    reveal_strlit("json");
    reveal_strlit("form");
    reveal_strlit("form_flow");
    assert("json"@[0] == 'j' && "form"@[0] == 'f' && "form_flow"@.len() == 9 && "form"@.len() == 4
        && "json"@.len() == 4);
    assert("json"@ != "form"@);
    assert("form_flow"@ != "json"@ && "form_flow"@ != "form"@);
}

/// The keys of a message object, in order, start with the characters
/// `b`, `c`, `h` and then `last` (`p` for a request, `s` for a response).
proof fn lemma_message_keys(body: Option<JsonView>, ct: JsonView, ht: JsonView, last_key: Seq<char>, last: JsonView)
    requires
        last_key.len() > 0,
        (last_key[0] as u32) > ('h' as u32),
        last_key != "body"@,
        last_key != "content_type"@,
        last_key != "header_type"@,
    ensures
        ({
            let ms = body_members(body) + seq![("content_type"@, ct), ("header_type"@, ht), (last_key, last)];
            &&& keys_ascending(ms)
            &&& member_of(ms, "body"@) == body
            &&& member_of(ms, "content_type"@) == Some(ct)
            &&& member_of(ms, "header_type"@) == Some(ht)
            &&& member_of(ms, last_key) == Some(last)
        }),
{
    reveal_strlit("body");
    reveal_strlit("content_type");
    reveal_strlit("header_type");
    let tail = seq![("content_type"@, ct), ("header_type"@, ht), (last_key, last)];
    let ms = body_members(body) + tail;
    assert("body"@[0] == 'b' && "content_type"@[0] == 'c' && "header_type"@[0] == 'h');
    assert("body"@ != "content_type"@ && "body"@ != "header_type"@ && "content_type"@ != "header_type"@);
    assert forall|i: int| 0 <= i < ms.len() implies #[trigger] ms[i].0.len() > 0 && {
        let c = ms[i].0[0] as u32;
        &&& (ms[i].0 == "body"@ ==> c == 'b' as u32)
        &&& (ms[i].0 == "content_type"@ ==> c == 'c' as u32)
        &&& (ms[i].0 == "header_type"@ ==> c == 'h' as u32)
    } by {}
    assert forall|i: int, j: int| 0 <= i < j < ms.len() implies text_less(#[trigger] ms[i].0, #[trigger] ms[j].0) by {
        assert((ms[i].0[0] as u32) < (ms[j].0[0] as u32)) by {
            if body is Some {
                assert(ms[0].0 == "body"@ && ms[1].0 == "content_type"@ && ms[2].0 == "header_type"@ && ms[3].0 == last_key);
            } else {
                assert(ms[0].0 == "content_type"@ && ms[1].0 == "header_type"@ && ms[2].0 == last_key);
            }
        }
    }
    assert(tail.drop_first() =~= seq![("header_type"@, ht), (last_key, last)]);
    assert(tail.drop_first().drop_first() =~= seq![(last_key, last)]);
    assert(member_of(tail, "body"@) is None) by {
        reveal_with_fuel(member_of, 4);
        assert(tail.drop_first().drop_first().drop_first() =~= Seq::<(Seq<char>, JsonView)>::empty());
    }
    assert(member_of(tail, last_key) == Some(last)) by {
        reveal_with_fuel(member_of, 3);
    }
    assert(member_of(tail, "header_type"@) == Some(ht)) by {
        reveal_with_fuel(member_of, 2);
    }
    if let Some(b) = body {
        assert(ms.drop_first() =~= tail);
    } else {
        assert(ms =~= tail);
    }
}

/// Message round trip, requests: for a request `encode_request_to_bytes`
/// accepts whose body reads back, the body can be written, so the bytes are
/// those of `request_object`, which reads back as itself and decodes to the
/// same request (so `decode_from_bytes` returns it).
pub proof fn lemma_request_roundtrip(path: Seq<char>, content_type: ContentType, body: Option<JsonView>)
    requires
        body_allowed(content_type) || body is None,
        body matches Some(b) ==> reads_back_within(b, 126),
    ensures
        body_writable(body),
        reads_back(request_object(path, content_type, body)),
        decode_value_spec(request_object(path, content_type, body)) == Ok::<MessageView, ErrorView>(
            MessageView::Request { content_type, path, body },
        ),
{
    if let Some(b) = body {
        lemma_reads_back_writable(b, 126);
    }
    reveal_strlit("path");
    reveal_strlit("request");
    reveal_strlit("body");
    reveal_strlit("content_type");
    reveal_strlit("header_type");
    assert("path"@[0] == 'p' && "body"@[0] == 'b' && "content_type"@[0] == 'c' && "header_type"@[0] == 'h');
    lemma_content_type_text(content_type);
    let ct = JsonView::Str(content_type_text(content_type));
    let ht = JsonView::Str("request"@);
    lemma_message_keys(body, ct, ht, "path"@, JsonView::Str(path));
    let ms = body_members(body) + seq![("content_type"@, ct), ("header_type"@, ht), ("path"@, JsonView::Str(path))];
    assert forall|i: int| 0 <= i < ms.len() implies reads_back_within(#[trigger] ms[i].1, 126) by {
        if body is Some && i == 0 {
        } else {
            assert(ms[i].1 is Str);
        }
    }
}

/// Message round trip, responses: for a response `encode_response_to_bytes`
/// accepts whose body reads back, the body can be written, so the bytes are
/// those of `response_object`, which reads back as itself and decodes to
/// the same response (so `decode_from_bytes` returns it).
pub proof fn lemma_response_roundtrip(state: u16, content_type: ContentType, body: Option<JsonView>)
    requires
        valid_state(state as int),
        body_allowed(content_type) || body is None,
        body matches Some(b) ==> reads_back_within(b, 126),
    ensures
        body_writable(body),
        reads_back(response_object(state, content_type, body)),
        decode_value_spec(response_object(state, content_type, body)) == Ok::<MessageView, ErrorView>(
            MessageView::Response { content_type, state, body },
        ),
{
    if let Some(b) = body {
        lemma_reads_back_writable(b, 126);
    }
    reveal_strlit("state");
    reveal_strlit("response");
    reveal_strlit("body");
    reveal_strlit("content_type");
    reveal_strlit("header_type");
    reveal_strlit("request");
    assert("state"@[0] == 's' && "body"@[0] == 'b' && "content_type"@[0] == 'c' && "header_type"@[0] == 'h');
    assert("response"@[2] == 's' && "request"@[2] == 'q');
    assert("response"@ != "request"@);
    lemma_content_type_text(content_type);
    let ct = JsonView::Str(content_type_text(content_type));
    let ht = JsonView::Str("response"@);
    lemma_message_keys(body, ct, ht, "state"@, JsonView::Unsigned(state as u64));
    let ms = body_members(body) + seq![("content_type"@, ct), ("header_type"@, ht), ("state"@, JsonView::Unsigned(state as u64))];
    assert forall|i: int| 0 <= i < ms.len() implies reads_back_within(#[trigger] ms[i].1, 126) by {
        if body is Some && i == 0 {
        } else {
            assert(ms[i].1 is Str || ms[i].1 is Unsigned);
        }
    }
}

} // verus!
