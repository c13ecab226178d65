use fernq::protocol::message::{from_json_string, to_json_string};
use fernq::protocol::{
    decode_from_bytes, decode_from_string, decode_message_fields, encode_request_to_bytes,
    encode_request_to_string, encode_response_to_bytes, encode_response_to_string, ContentType,
    HeaderType, Message, ProtocolError, RequestMessage, ResponseMessage,
};
use fernq::protocol::json::{JsonMember, JsonNumber, JsonValue};

fn jtext(s: &str) -> JsonValue {
    JsonValue::String(s.to_string())
}

#[test]
fn test_json_without_body() {
    let bytes = encode_request_to_bytes("/health".to_string(), ContentType::Json, None).unwrap();
    let msg = decode_from_bytes(&bytes).unwrap();
    match msg {
        Message::Request(req) => {
            assert_eq!(req.content_type, ContentType::Json);
            assert!(req.body.is_none());
        }
        _ => panic!("expected request"),
    }
}

#[test]
fn test_json_with_string_body() {
    let body = jtext("hello world");
    let bytes = encode_request_to_bytes("/echo".to_string(), ContentType::Json, Some(body)).unwrap();
    let msg = decode_from_bytes(&bytes).unwrap();
    match msg {
        Message::Request(req) => {
            assert_eq!(req.body, Some(jtext("hello world")));
        }
        _ => panic!("expected request"),
    }
}

#[test]
fn test_form_must_not_have_body() {
    let file = JsonValue::Object(vec![JsonMember { key: "file".to_string(), value: jtext("test") }]);
    let result = encode_request_to_bytes("/upload".to_string(), ContentType::Form, Some(file));
    assert!(matches!(result, Err(ProtocolError::UnexpectedBody)));
}

#[test]
fn test_response_json_optional_body() {
    let bytes = encode_response_to_bytes(204, ContentType::Json, None).unwrap();
    let msg = decode_from_bytes(&bytes).unwrap();
    match msg {
        Message::Response(res) => {
            assert_eq!(res.state, 204);
            assert!(res.body.is_none());
        }
        _ => panic!("expected response"),
    }
}

#[test]
fn wire_names_of_header_and_content_types() {
    assert_eq!(HeaderType::Request.as_str(), "request");
    assert_eq!(HeaderType::Response.as_str(), "response");
    assert_eq!(ContentType::Json.as_str(), "json");
    assert_eq!(ContentType::Form.as_str(), "form");
    assert_eq!(ContentType::FormFlow.as_str(), "form_flow");
    assert!(ContentType::Json.allows_body());
    assert!(!ContentType::Form.allows_body());
    assert!(!ContentType::FormFlow.allows_body());
    assert_eq!(HeaderType::parse_text("response").unwrap(), HeaderType::Response);
    assert_eq!(ContentType::parse_text("form_flow").unwrap(), ContentType::FormFlow);
    assert!(matches!(HeaderType::parse_text("reply"), Err(ProtocolError::InvalidHeaderType(s)) if s == "reply"));
    assert!(matches!(ContentType::parse_text("xml"), Err(ProtocolError::InvalidContentType(s)) if s == "xml"));
}

#[test]
fn response_state_must_be_an_http_status() {
    assert!(matches!(
        encode_response_to_bytes(99, ContentType::Json, None),
        Err(ProtocolError::InvalidStateCode(99))
    ));
    assert!(matches!(
        encode_response_to_bytes(600, ContentType::Json, None),
        Err(ProtocolError::InvalidStateCode(600))
    ));
    assert!(encode_response_to_bytes(100, ContentType::Json, None).is_ok());
    assert!(encode_response_to_bytes(599, ContentType::Form, None).is_ok());
    assert!(matches!(
        encode_response_to_bytes(200, ContentType::FormFlow, Some(JsonValue::Bool(true))),
        Err(ProtocolError::UnexpectedBody)
    ));
}

#[test]
fn response_roundtrip_through_text() {
    let text = encode_response_to_string(404, ContentType::Json, Some(jtext("gone"))).unwrap();
    match decode_from_string(&text).unwrap() {
        Message::Response(res) => {
            assert_eq!(res.state, 404);
            assert_eq!(res.content_type, ContentType::Json);
            assert_eq!(res.body, Some(jtext("gone")));
        }
        _ => panic!("expected response"),
    }
    let text = encode_request_to_string("/a/b".to_string(), ContentType::FormFlow, None).unwrap();
    match decode_from_string(&text).unwrap() {
        Message::Request(req) => {
            assert_eq!(req.path, "/a/b");
            assert_eq!(req.content_type, ContentType::FormFlow);
        }
        _ => panic!("expected request"),
    }
}

#[test]
fn decoding_reports_each_missing_field() {
    assert!(matches!(decode_from_bytes(b"not json"), Err(ProtocolError::InvalidJson(_))));
    assert!(matches!(decode_from_bytes(b"[1,2]"), Err(ProtocolError::MalformedFrame(m)) if m == "root must be a JSON object"));
    assert!(matches!(decode_from_bytes(b"{}"), Err(ProtocolError::MalformedFrame(m)) if m == "missing or invalid header_type"));
    assert!(matches!(decode_from_bytes(br#"{"header_type":"x"}"#), Err(ProtocolError::InvalidHeaderType(_))));
    assert!(matches!(decode_from_bytes(br#"{"header_type":"request"}"#), Err(ProtocolError::MalformedFrame(m)) if m == "missing or invalid content_type"));
    assert!(matches!(decode_from_bytes(br#"{"header_type":"request","content_type":"json"}"#), Err(ProtocolError::MissingPath)));
    assert!(matches!(decode_from_bytes(br#"{"header_type":"response","content_type":"json"}"#), Err(ProtocolError::MissingState)));
    assert!(matches!(
        decode_from_bytes(br#"{"header_type":"request","content_type":"form","path":"/p","body":1}"#),
        Err(ProtocolError::UnexpectedBody)
    ));
    assert!(matches!(
        decode_from_bytes(br#"{"header_type":"response","content_type":"json","state":65736}"#),
        Err(ProtocolError::InvalidStateCode(65736))
    ));
    assert!(matches!(
        decode_from_bytes(br#"{"header_type":"response","content_type":"json","state":-1}"#),
        Err(ProtocolError::MissingState)
    ));
}

#[test]
fn decoding_from_fields() {
    let m = decode_message_fields(
        true,
        Some("request".to_string()),
        Some("json".to_string()),
        Some("/x".to_string()),
        None,
        Some(JsonValue::Null),
    )
    .unwrap();
    assert_eq!(m, Message::Request(RequestMessage::with_body("/x".to_string(), JsonValue::Null)));
    let m = decode_message_fields(true, Some("response".to_string()), Some("form".to_string()), None, Some(201), None).unwrap();
    assert_eq!(m, Message::Response(ResponseMessage::new(201, ContentType::Form)));
    assert!(matches!(
        decode_message_fields(true, Some("response".to_string()), Some("json".to_string()), None, Some(42), None),
        Err(ProtocolError::InvalidStateCode(42))
    ));
}

#[test]
fn message_constructors() {
    let r = RequestMessage::new("/p".to_string(), ContentType::Form);
    assert_eq!(r.path, "/p");
    assert_eq!(r.content_type, ContentType::Form);
    assert!(r.body.is_none());
    let r = ResponseMessage::with_body(201, JsonValue::Bool(false));
    assert_eq!(r.state, 201);
    assert_eq!(r.content_type, ContentType::Json);
    assert_eq!(r.body, Some(JsonValue::Bool(false)));
}

#[test]
fn json_text_conversions() {
    let v = from_json_string(r#"{"a":[1,true,"x"]}"#).unwrap();
    assert_eq!(to_json_string(&v).unwrap(), r#"{"a":[1,true,"x"]}"#);
    let reason = serde_json::from_str::<serde_json::Value>("{").unwrap_err().to_string();
    assert_eq!(from_json_string("{"), Err(ProtocolError::InvalidJson(reason)));
}

#[test]
fn header_and_content_types_parse_from_text() {
    assert_eq!("request".parse::<HeaderType>(), Ok(HeaderType::Request));
    assert_eq!("response".parse::<HeaderType>(), Ok(HeaderType::Response));
    assert_eq!("push".parse::<HeaderType>(), Err(ProtocolError::InvalidHeaderType("push".to_string())));
    assert_eq!("form_flow".parse::<ContentType>(), Ok(ContentType::FormFlow));
    assert_eq!("xml".parse::<ContentType>(), Err(ProtocolError::InvalidContentType("xml".to_string())));
}

#[test]
fn json_values_as_serde_json_writes_and_reads_them() {
    let v = JsonValue::Object(vec![
        JsonMember { key: "a".to_string(), value: JsonValue::Array(vec![
            JsonValue::Number(JsonNumber::Unsigned(1)),
            JsonValue::Number(JsonNumber::Negative(-7)),
            JsonValue::Null,
        ]) },
        JsonMember { key: "b".to_string(), value: jtext("q\"x") },
    ]);
    let t = to_json_string(&v).unwrap();
    assert_eq!(t, r#"{"a":[1,-7,null],"b":"q\"x"}"#);
    assert_eq!(from_json_string(&t).unwrap(), v);
    let r = from_json_string("[1.5, 1e2, 18446744073709551616]").unwrap();
    assert_eq!(
        r,
        JsonValue::Array(vec![
            JsonValue::Number(JsonNumber::Real("1.5".to_string())),
            JsonValue::Number(JsonNumber::Real("100.0".to_string())),
            JsonValue::Number(JsonNumber::Real("1.8446744073709552e+19".to_string())),
        ])
    );
    assert_eq!(to_json_string(&r).unwrap(), "[1.5,100.0,1.8446744073709552e+19]");
    // object members come back in key order
    let unsorted = JsonValue::Object(vec![
        JsonMember { key: "z".to_string(), value: JsonValue::Null },
        JsonMember { key: "a".to_string(), value: JsonValue::Bool(true) },
    ]);
    assert_eq!(to_json_string(&unsorted).unwrap(), r#"{"a":true,"z":null}"#);
}

#[test]
fn request_bytes_are_the_sorted_object() {
    let bytes = encode_request_to_bytes("/p".to_string(), ContentType::Json, Some(jtext("b"))).unwrap();
    assert_eq!(bytes, br#"{"body":"b","content_type":"json","header_type":"request","path":"/p"}"#.to_vec());
    let bytes = encode_response_to_bytes(204, ContentType::Form, None).unwrap();
    assert_eq!(bytes, br#"{"content_type":"form","header_type":"response","state":204}"#.to_vec());
}

#[test]
fn request_with_object_body_decodes_to_itself() {
    let body = JsonValue::Object(vec![
        JsonMember { key: "file".to_string(), value: jtext("a.txt") },
        JsonMember { key: "size".to_string(), value: JsonValue::Number(JsonNumber::Unsigned(12)) },
        JsonMember { key: "tags".to_string(), value: JsonValue::Array(vec![jtext("x"), JsonValue::Bool(false)]) },
    ]);
    let bytes = encode_request_to_bytes("/upload".to_string(), ContentType::Json, Some(body.clone())).unwrap();
    assert_eq!(
        decode_from_bytes(&bytes).unwrap(),
        Message::Request(RequestMessage { content_type: ContentType::Json, path: "/upload".to_string(), body: Some(body) })
    );
}

#[test]
fn a_number_text_serde_json_cannot_read_is_refused() {
    let bad = JsonValue::Array(vec![JsonValue::Number(JsonNumber::Real("1.2.3".to_string()))]);
    assert_eq!(
        to_json_string(&bad),
        Err(ProtocolError::InvalidJson("a number's text is no JSON number".to_string()))
    );
    assert_eq!(
        encode_request_to_bytes("/p".to_string(), ContentType::Json, Some(bad)),
        Err(ProtocolError::InvalidJson("a number's text is no JSON number".to_string()))
    );
    let good = JsonValue::Number(JsonNumber::Real("2.5".to_string()));
    assert_eq!(to_json_string(&good).unwrap(), "2.5");
}
