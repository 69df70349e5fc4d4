use bytes::BytesMut;
use lsp_server_tokio::codec::{
    decode_body, find_subsequence, frame_body, message_from_json, parse_content_length, CodecError,
};
use lsp_server_tokio::message::MemberNames;
use lsp_server_tokio::text::LengthError;
use lsp_server_tokio::{
    ErrorCode, LspCodec, Message, Notification, Request, Response, ResponseError,
};
use std::io;

/// The JSON value that `text` holds.
fn value(text: &str) -> serde_json::Value {
    serde_json::from_str(text).unwrap()
}



// ============== Encoder Tests ==============

#[test]
fn encode_request_test() {
    let mut codec = LspCodec::new();
    let mut buf = BytesMut::new();

    let req = Request::new(1, "test/method", None);
    let msg = Message::Request(req);
    codec.encode(msg, &mut buf).unwrap();

    let output = std::str::from_utf8(&buf).unwrap();

    // Verify header format
    assert!(output.starts_with("Content-Length: "));
    assert!(output.contains("\r\n\r\n"));

    // Split header and body
    let parts: Vec<&str> = output.splitn(2, "\r\n\r\n").collect();
    assert_eq!(parts.len(), 2);

    // Verify body is valid JSON
    let body = parts[1];
    let parsed: serde_json::Value = serde_json::from_str(body).unwrap();
    assert_eq!(parsed["method"], "test/method");
    assert_eq!(parsed["id"], 1);
    assert_eq!(parsed["jsonrpc"], "2.0");

    // Verify Content-Length matches body byte length
    let header = parts[0];
    let content_length: usize = header
        .strip_prefix("Content-Length: ")
        .unwrap()
        .parse()
        .unwrap();
    assert_eq!(content_length, body.len());
}

#[test]
fn encode_response_test() {
    let mut codec = LspCodec::new();
    let mut buf = BytesMut::new();

    let resp = Response::ok(42, value(r#"{"result": "value"}"#));
    let msg = Message::Response(resp);
    codec.encode(msg, &mut buf).unwrap();

    let output = std::str::from_utf8(&buf).unwrap();
    assert!(output.starts_with("Content-Length: "));
    assert!(output.contains("\r\n\r\n"));

    // Verify body
    let body = output.split("\r\n\r\n").nth(1).unwrap();
    let parsed: serde_json::Value = serde_json::from_str(body).unwrap();
    assert_eq!(parsed["id"], 42);
    assert!(parsed.get("result").is_some());
}

#[test]
fn encode_notification_test() {
    let mut codec = LspCodec::new();
    let mut buf = BytesMut::new();

    let notif = Notification::new("textDocument/didOpen", Some(value(r#"{"uri": "file:///test"}"#)));
    let msg = Message::Notification(notif);
    codec.encode(msg, &mut buf).unwrap();

    let output = std::str::from_utf8(&buf).unwrap();
    assert!(output.starts_with("Content-Length: "));

    // Verify body
    let body = output.split("\r\n\r\n").nth(1).unwrap();
    let parsed: serde_json::Value = serde_json::from_str(body).unwrap();
    assert_eq!(parsed["method"], "textDocument/didOpen");
    assert!(parsed.get("id").is_none());
}

// ============== Decoder Tests ==============

#[test]
fn decode_complete_message_test() {
    let mut codec = LspCodec::new();
    let mut buf = BytesMut::new();

    let json_body = r#"{"jsonrpc":"2.0","id":1,"method":"test"}"#;
    let framed = format!("Content-Length: {}\r\n\r\n{}", json_body.len(), json_body);
    buf.extend_from_slice(framed.as_bytes());

    let msg = codec.decode(&mut buf).unwrap().unwrap();
    assert!(msg.is_request());

    if let Message::Request(req) = msg {
        assert_eq!(req.method, "test");
    }
}

#[test]
fn decode_partial_header_test() {
    let mut codec = LspCodec::new();
    let mut buf = BytesMut::new();

    // Feed partial header
    buf.extend_from_slice(b"Content-Length: ");
    assert!(codec.decode(&mut buf).unwrap().is_none());

    // Feed more header
    buf.extend_from_slice(b"40\r\n");
    assert!(codec.decode(&mut buf).unwrap().is_none());

    // Complete header
    buf.extend_from_slice(b"\r\n");
    assert!(codec.decode(&mut buf).unwrap().is_none()); // Still no body

    // Now add body
    let json_body = r#"{"jsonrpc":"2.0","id":1,"method":"test"}"#;
    assert_eq!(json_body.len(), 40);
    buf.extend_from_slice(json_body.as_bytes());

    let msg = codec.decode(&mut buf).unwrap().unwrap();
    assert!(msg.is_request());
}

#[test]
fn decode_partial_body_test() {
    let mut codec = LspCodec::new();
    let mut buf = BytesMut::new();

    let json_body = r#"{"jsonrpc":"2.0","id":1,"method":"test"}"#;

    // Feed complete header but partial body
    buf.extend_from_slice(format!("Content-Length: {}\r\n\r\n", json_body.len()).as_bytes());
    buf.extend_from_slice(&json_body.as_bytes()[..20]);
    assert!(codec.decode(&mut buf).unwrap().is_none());

    // Feed remaining body
    buf.extend_from_slice(&json_body.as_bytes()[20..]);
    let msg = codec.decode(&mut buf).unwrap().unwrap();
    assert!(msg.is_request());
}

#[test]
fn decode_multiple_messages_test() {
    let mut codec = LspCodec::new();
    let mut buf = BytesMut::new();

    // Add two complete messages
    let json1 = r#"{"jsonrpc":"2.0","id":1,"method":"first"}"#;
    let json2 = r#"{"jsonrpc":"2.0","id":2,"method":"second"}"#;

    buf.extend_from_slice(
        format!("Content-Length: {}\r\n\r\n{}", json1.len(), json1).as_bytes(),
    );
    buf.extend_from_slice(
        format!("Content-Length: {}\r\n\r\n{}", json2.len(), json2).as_bytes(),
    );

    // Decode first
    let msg1 = codec.decode(&mut buf).unwrap().unwrap();
    if let Message::Request(req) = msg1 {
        assert_eq!(req.method, "first");
    } else {
        panic!("Expected request");
    }

    // Buffer should still contain second message
    assert!(!buf.is_empty());

    // Decode second
    let msg2 = codec.decode(&mut buf).unwrap().unwrap();
    if let Message::Request(req) = msg2 {
        assert_eq!(req.method, "second");
    } else {
        panic!("Expected request");
    }

    // Buffer should be empty
    assert!(buf.is_empty());
}

#[test]
fn encode_decode_roundtrip_test() {
    let mut codec = LspCodec::new();
    let mut buf = BytesMut::new();

    // Create various message types
    let request = Message::Request(Request::new(
        123,
        "textDocument/completion",
        Some(value(r#"{"position": {"line": 10}}"#)),
    ));
    let response = Message::Response(Response::ok(456, value(r#"{"items": []}"#)));
    let notification = Message::Notification(Notification::new("textDocument/didSave", None));

    // Encode all
    codec.encode(request.clone(), &mut buf).unwrap();
    codec.encode(response.clone(), &mut buf).unwrap();
    codec.encode(notification.clone(), &mut buf).unwrap();

    // Decode and verify
    let decoded_request = codec.decode(&mut buf).unwrap().unwrap();
    assert!(decoded_request.is_request());
    if let (Message::Request(orig), Message::Request(dec)) = (&request, &decoded_request) {
        assert_eq!(orig.id, dec.id);
        assert_eq!(orig.method, dec.method);
    }

    let decoded_response = codec.decode(&mut buf).unwrap().unwrap();
    assert!(decoded_response.is_response());

    let decoded_notification = codec.decode(&mut buf).unwrap().unwrap();
    assert!(decoded_notification.is_notification());

    assert!(buf.is_empty());
}

#[test]
fn content_length_byte_count_test() {
    let mut codec = LspCodec::new();
    let mut buf = BytesMut::new();

    // Create a message with Unicode content
    // The method name contains non-ASCII characters
    // "test/mehod" with a Japanese character (3 bytes in UTF-8)
    let req = Request::new(1, "test/\u{65E5}\u{672C}", None); // "test/日本" - 2 Japanese chars (6 bytes each encoded)
    let msg = Message::Request(req);
    codec.encode(msg, &mut buf).unwrap();

    let output = std::str::from_utf8(&buf).unwrap();

    // Split header and body
    let parts: Vec<&str> = output.splitn(2, "\r\n\r\n").collect();
    let header = parts[0];
    let body = parts[1];

    // Extract Content-Length
    let content_length: usize = header
        .strip_prefix("Content-Length: ")
        .unwrap()
        .parse()
        .unwrap();

    // Content-Length should be BYTE count, not character count
    assert_eq!(content_length, body.len());

    // Verify the body contains more bytes than characters due to UTF-8 encoding
    assert!(body.len() > body.chars().count());
}

#[test]
fn case_insensitive_header_parsing() {
    let mut codec = LspCodec::new();
    let mut buf = BytesMut::new();

    // Use lowercase header (some clients might send this)
    let json_body = r#"{"jsonrpc":"2.0","id":1,"method":"test"}"#;
    let framed = format!("content-length: {}\r\n\r\n{}", json_body.len(), json_body);
    buf.extend_from_slice(framed.as_bytes());

    let msg = codec.decode(&mut buf).unwrap().unwrap();
    assert!(msg.is_request());
}

#[test]
fn response_error_roundtrip() {
    let mut codec = LspCodec::new();
    let mut buf = BytesMut::new();

    let error = ResponseError::new(ErrorCode::MethodNotFound, "Method not found");
    let resp = Message::Response(Response::err(1, error));
    codec.encode(resp, &mut buf).unwrap();

    let decoded = codec.decode(&mut buf).unwrap().unwrap();
    if let Message::Response(r) = decoded {
        assert!(r.error().is_some());
        assert_eq!(r.into_error().unwrap().code, -32601);
    } else {
        panic!("Expected response");
    }
}

#[test]
fn decode_invalid_json_returns_error() {
    let mut codec = LspCodec::new();
    let mut buf = BytesMut::new();

    let invalid_json = "{ not valid json }";
    let framed = format!(
        "Content-Length: {}\r\n\r\n{}",
        invalid_json.len(),
        invalid_json
    );
    buf.extend_from_slice(framed.as_bytes());

    let result = codec.decode(&mut buf);
    assert!(result.is_err());
    assert_eq!(io::Error::from(result.unwrap_err()).kind(), io::ErrorKind::InvalidData);
}

#[test]
fn decode_missing_content_length_returns_error() {
    let mut codec = LspCodec::new();
    let mut buf = BytesMut::new();

    // No Content-Length header
    let framed = "Some-Other-Header: value\r\n\r\n{}";
    buf.extend_from_slice(framed.as_bytes());

    let result = codec.decode(&mut buf);
    assert!(result.is_err());
}

// ============== Content-Length Guard Tests ==============

#[test]
fn decode_at_max_limit_passes() {
    let json_body = r#"{"jsonrpc":"2.0","id":1,"method":"test"}"#;
    // Set max to exactly the body size
    let mut codec = LspCodec::with_max_content_length(json_body.len());
    let mut buf = BytesMut::new();

    let framed = format!("Content-Length: {}\r\n\r\n{}", json_body.len(), json_body);
    buf.extend_from_slice(framed.as_bytes());

    let msg = codec.decode(&mut buf).unwrap().unwrap();
    assert!(msg.is_request());
}

#[test]
fn decode_over_max_limit_rejected() {
    let json_body = r#"{"jsonrpc":"2.0","id":1,"method":"test"}"#;
    // Set max to one less than body size
    let mut codec = LspCodec::with_max_content_length(json_body.len() - 1);
    let mut buf = BytesMut::new();

    let framed = format!("Content-Length: {}\r\n\r\n{}", json_body.len(), json_body);
    buf.extend_from_slice(framed.as_bytes());

    let result = codec.decode(&mut buf);
    assert!(result.is_err());
    let err = io::Error::from(result.unwrap_err());
    assert_eq!(err.kind(), io::ErrorKind::InvalidData);
    assert!(err.to_string().contains("exceeds maximum"));
}

#[test]
fn decode_custom_limit_works() {
    // Very small custom limit
    let mut codec = LspCodec::with_max_content_length(10);
    let mut buf = BytesMut::new();

    let json_body = r#"{"jsonrpc":"2.0","id":1,"method":"test"}"#;
    let framed = format!("Content-Length: {}\r\n\r\n{}", json_body.len(), json_body);
    buf.extend_from_slice(framed.as_bytes());

    let result = codec.decode(&mut buf);
    assert!(result.is_err());
    assert!(result.unwrap_err().to_string().contains("exceeds maximum"));
}

#[test]
fn default_max_content_length_is_10mb() {
    let codec = LspCodec::new();
    assert_eq!(codec.max_content_length(), 10 * 1024 * 1024);

    let codec_default = LspCodec::default();
    assert_eq!(codec_default.max_content_length(), 10 * 1024 * 1024);
}

// ============== Header parsing ==============

/// The content length that the headers give, or the message of the error.
fn length(headers: &str) -> Result<usize, String> {
    parse_content_length(headers.as_bytes()).map_err(|e| e.to_string())
}

#[test]
fn test_encode_lsp_message() {
    let content = value(r#"{"key": "value"}"#);
    let encoded = frame_body(&serde_json::to_vec(&content).unwrap());
    let expected = b"Content-Length: 15\r\n\r\n{\"key\":\"value\"}";
    assert_eq!(encoded, expected);
}

#[test]
fn test_parse_content_length_valid() {
    assert_eq!(length("Content-Length: 123\r\n").ok(), Some(123));
    assert_eq!(length("Content-Length:456").ok(), Some(456));
    assert_eq!(length("content-length: 789").ok(), Some(789));
}

#[test]
fn test_parse_content_length_invalid() {
    assert_eq!(length("Invalid-Header: 123").ok(), None);
    assert_eq!(length("Content-Length: abc").ok(), None);
    assert_eq!(length("").ok(), None);
}

#[test]
fn the_first_content_length_line_counts() {
    let headers = "Content-Type: text\r\nCONTENT-LENGTH:\t7 \r\nContent-Length: 8";
    assert_eq!(length(headers), Ok(7));
    // The name has to stand at the start of the line.
    assert_eq!(length(" Content-Length: 7\r\nContent-Length: 8"), Ok(8));
    // A lone CR or LF ends no line.
    assert_eq!(length("a\rb\nContent-Length: 7\r\nContent-Length: 8"), Ok(8));
}

#[test]
fn the_value_is_trimmed_and_may_have_a_plus_sign() {
    assert_eq!(length("Content-Length: \u{3000}+12\u{a0}"), Ok(12));
    assert_eq!(length("Content-Length: 0007"), Ok(7));
    assert_eq!(length(&format!("Content-Length: {}", usize::MAX)), Ok(usize::MAX));
}

#[test]
fn each_fault_of_the_headers_has_its_error() {
    assert!(matches!(
        parse_content_length(b"Content-Length: 1\r\n\xff"),
        Err(CodecError::HeaderEncoding(_))
    ));
    assert!(matches!(
        parse_content_length(b"Content-Type: text"),
        Err(CodecError::MissingContentLength)
    ));
    assert_eq!(length("Content-Type: text"), Err("Missing Content-Length header".to_string()));

    let kinds = [
        ("", LengthError::Empty),
        (" \t", LengthError::Empty),
        ("+", LengthError::InvalidDigit),
        ("-", LengthError::InvalidDigit),
        ("-5", LengthError::InvalidDigit),
        ("1 2", LengthError::InvalidDigit),
        ("\u{661}", LengthError::InvalidDigit),
        ("99999999999999999999999", LengthError::Overflow),
        ("18446744073709551616", LengthError::Overflow),
        ("99999999999999999999999x", LengthError::Overflow),
        ("9x9999999999999999999999", LengthError::InvalidDigit),
    ];
    for (text, kind) in kinds {
        match parse_content_length(format!("Content-Length:{text}").as_bytes()) {
            Err(CodecError::InvalidContentLength(e)) => {
                assert_eq!(e, kind);
                // The message is the one that std gives for the same text.
                let std_message = text.trim().parse::<usize>().unwrap_err().to_string();
                assert_eq!(e.to_string(), std_message);
            }
            other => panic!("expected an invalid length for {text:?}, got {other:?}"),
        }
    }
}

#[test]
fn header_text_that_is_not_utf8_is_reported_with_its_place() {
    let err = parse_content_length(b"ab\xff").unwrap_err();
    let std_message = String::from_utf8(b"ab\xff".to_vec()).unwrap_err().utf8_error().to_string();
    assert_eq!(err.to_string(), std_message);
    assert_eq!(io::Error::from(err).kind(), io::ErrorKind::InvalidData);
}

#[test]
fn white_space_is_trimmed_as_std_trims_it() {
    for c in 0..0x1_1000u32 {
        let Some(c) = char::from_u32(c) else {
            continue;
        };
        if c == '\r' || c == '\n' {
            continue;
        }
        let text = format!("{c}5{c}");
        let ours = length(&format!("Content-Length:{text}")).ok();
        assert_eq!(ours, text.trim().parse::<usize>().ok(), "{c:?}");
    }
}

#[test]
fn subsequences_are_found_where_they_first_stand() {
    assert_eq!(find_subsequence(b"abcabc", b"bc"), Some(1));
    assert_eq!(find_subsequence(b"aaab", b"aab"), Some(1));
    assert_eq!(find_subsequence(b"abc", b"abc"), Some(0));
    assert_eq!(find_subsequence(b"abc", b"abcd"), None);
    assert_eq!(find_subsequence(b"abc", b"d"), None);
    assert_eq!(find_subsequence(b"", b"d"), None);
}

// ============== Frames ==============

#[test]
fn frames_read_back_and_leave_the_rest() {
    let mut codec = LspCodec::new();
    let mut buf = BytesMut::new();
    buf.extend_from_slice(&frame_body(b"first"));
    buf.extend_from_slice(&frame_body(b""));
    buf.extend_from_slice(&frame_body(b"Content-Length: 3\r\n\r\nabc"));
    buf.extend_from_slice(b"rest");

    assert_eq!(&codec.decode_frame(&mut buf).unwrap().unwrap()[..], b"first");
    assert_eq!(&codec.decode_frame(&mut buf).unwrap().unwrap()[..], b"");
    assert_eq!(
        &codec.decode_frame(&mut buf).unwrap().unwrap()[..],
        b"Content-Length: 3\r\n\r\nabc"
    );
    assert!(codec.decode_frame(&mut buf).unwrap().is_none());
    assert_eq!(&buf[..], b"rest");
}

#[test]
fn frames_may_arrive_byte_by_byte() {
    let body = r#"{"jsonrpc":"2.0","method":"é"}"#;
    let frame = frame_body(body.as_bytes());
    let mut codec = LspCodec::new();
    let mut buf = BytesMut::new();
    for byte in &frame[..frame.len() - 1] {
        buf.extend_from_slice(&[*byte]);
        assert!(codec.decode(&mut buf).unwrap().is_none());
    }
    buf.extend_from_slice(&frame[frame.len() - 1..]);
    let message = codec.decode(&mut buf).unwrap().unwrap();
    assert_eq!(message.into_notification().unwrap().method, "\u{e9}");
    assert!(buf.is_empty());
}

#[test]
fn refused_headers_stay_in_the_buffer() {
    let mut codec = LspCodec::with_max_content_length(4);
    let mut buf = BytesMut::new();
    buf.extend_from_slice(&frame_body(b"12345"));
    let before = buf.clone();
    let err = codec.decode(&mut buf).unwrap_err();
    assert!(matches!(err, CodecError::ContentTooLarge { content_length: 5, max: 4 }));
    assert_eq!(err.to_string(), "Content-Length 5 exceeds maximum 4");
    assert_eq!(buf, before);
}

#[test]
fn a_body_that_is_no_message_is_dropped() {
    let mut codec = LspCodec::new();
    let mut buf = BytesMut::new();
    buf.extend_from_slice(&frame_body(b"{ not valid json }"));
    buf.extend_from_slice(&frame_body(b"[1, 2]"));
    buf.extend_from_slice(&frame_body(br#"{"jsonrpc":"2.0","method":"next"}"#));

    let err = codec.decode(&mut buf).unwrap_err();
    let reader_message = serde_json::from_str::<serde_json::Value>("{ not valid json }")
        .unwrap_err()
        .to_string();
    assert_eq!(err.to_string(), reader_message);
    assert!(matches!(err, CodecError::InvalidJson(_)));

    let err = codec.decode(&mut buf).unwrap_err();
    assert!(matches!(err, CodecError::InvalidMessage));
    assert_eq!(io::Error::from(err).kind(), io::ErrorKind::InvalidData);

    assert!(codec.decode(&mut buf).unwrap().unwrap().is_notification());
    assert!(buf.is_empty());
}

#[test]
fn encoding_appends_to_the_buffer() {
    let mut codec = LspCodec::new();
    let mut buf = BytesMut::new();
    buf.extend_from_slice(b"before ");
    let message = Message::Notification(Notification::new("m", None));
    codec.encode(message.clone(), &mut buf).unwrap();
    let mut whole = BytesMut::new();
    assert!(codec.encode_if_it_fits(message, &mut whole).unwrap());
    assert_eq!(&buf[..7], b"before ");
    assert_eq!(&buf[7..], &whole[..]);
    assert_eq!(&whole[..], b"Content-Length: 30\r\n\r\n{\"jsonrpc\":\"2.0\",\"method\":\"m\"}".as_slice());
}

#[test]
fn every_kind_of_message_reads_back() {
    let data = value(r#"{"deep":[[{"n":-9223372036854775808,"m":18446744073709551615}]],"s":"\u0000\"\\/日"}"#);
    let messages = [
        Message::Request(Request::new(i32::MIN, "a", Some(data.clone()))),
        Message::Request(Request::new("\u{1F600}", "", None)),
        Message::Response(Response::ok(1, data.clone())),
        Message::Response(Response::ok("x", value("null"))),
        Message::Response(Response::err(1, ResponseError::new_raw(7, "m").with_data(data.clone()))),
        Message::Response(Response::parse_error(ResponseError::new(ErrorCode::ParseError, "p"))),
        Message::Notification(Notification::new("n", Some(data))),
    ];
    for message in messages {
        let mut codec = LspCodec::new();
        let mut buf = BytesMut::new();
        codec.encode(message.clone(), &mut buf).unwrap();
        let back = codec.decode(&mut buf).unwrap().unwrap();
        assert_eq!(back.into_value(), message.into_value());
        assert!(buf.is_empty());
    }
}

#[test]
fn a_read_text_becomes_a_message_or_an_error() {
    let none = MemberNames::none();
    let notification = r#"{"jsonrpc":"2.0","method":"m"}"#;
    let failure = || serde_json::from_str::<serde_json::Value>("{").unwrap_err();

    assert!(message_from_json(Ok(value(notification)), None, &none).unwrap().is_notification());
    assert!(matches!(
        message_from_json(Ok(value("{}")), None, &none),
        Err(CodecError::InvalidMessage)
    ));
    assert!(matches!(
        message_from_json(Err(failure()), None, &none),
        Err(CodecError::InvalidJson(_))
    ));
    assert!(matches!(
        message_from_json(Err(failure()), Some(value("{}")), &none),
        Err(CodecError::InvalidMessage)
    ));
    assert!(matches!(
        message_from_json(Err(failure()), Some(value(notification)), &none),
        Err(CodecError::InvalidJson(_))
    ));
}

/// The frame that a message is written as.
fn written(message: Message) -> String {
    let mut buf = BytesMut::new();
    LspCodec::new().encode(message, &mut buf).unwrap();
    String::from_utf8(buf.to_vec()).unwrap()
}

#[test]
fn members_are_written_in_their_order() {
    assert_eq!(
        written(Message::Request(Request::new(1, "test/\u{65E5}\u{672C}", None))),
        "Content-Length: 47\r\n\r\n{\"jsonrpc\":\"2.0\",\"id\":1,\"method\":\"test/\u{65E5}\u{672C}\"}"
    );
    let params = value(r#"{"b":[1,-2.5],"a":null}"#);
    assert_eq!(
        written(Message::Request(Request::new("a\"b", "m", Some(params)))),
        "Content-Length: 75\r\n\r\n{\"jsonrpc\":\"2.0\",\"id\":\"a\\\"b\",\"method\":\"m\",\"params\":{\"a\":null,\"b\":[1,-2.5]}}"
    );
    assert_eq!(
        written(Message::Notification(Notification::new("n", Some(value("[]"))))),
        "Content-Length: 42\r\n\r\n{\"jsonrpc\":\"2.0\",\"method\":\"n\",\"params\":[]}"
    );
    assert_eq!(
        written(Message::Response(Response::ok(-7, value("true")))),
        "Content-Length: 39\r\n\r\n{\"jsonrpc\":\"2.0\",\"id\":-7,\"result\":true}"
    );
    let error = ResponseError::new_raw(5, "e").with_data(value("\"d\""));
    assert_eq!(
        written(Message::Response(Response::err(2, error))),
        "Content-Length: 68\r\n\r\n{\"jsonrpc\":\"2.0\",\"id\":2,\"error\":{\"code\":5,\"message\":\"e\",\"data\":\"d\"}}"
    );
    let error = ResponseError::new(ErrorCode::ParseError, "p");
    assert_eq!(
        written(Message::Response(Response::parse_error(error))),
        "Content-Length: 65\r\n\r\n{\"jsonrpc\":\"2.0\",\"id\":null,\"error\":{\"code\":-32700,\"message\":\"p\"}}"
    );
}

/// What a body is read as.
fn read_body(body: &str) -> Result<Message, CodecError> {
    let mut buf = BytesMut::new();
    buf.extend_from_slice(&frame_body(body.as_bytes()));
    LspCodec::new().decode(&mut buf).map(|message| message.unwrap())
}

#[test]
fn text_behind_a_value_is_refused() {
    for body in ["5x", "[1] x", "{} {}", "null,", r#"{"jsonrpc":"2.0"}]"#] {
        let err = read_body(body).unwrap_err();
        assert!(matches!(err, CodecError::InvalidMessage), "{body}");
        assert_eq!(err.to_string(), "data did not match any variant of untagged enum Message");
    }
    let err = read_body(r#"{"jsonrpc":"2.0","method":"m"} x"#).unwrap_err();
    assert!(matches!(err, CodecError::InvalidJson(_)));
    assert_eq!(err.to_string(), "trailing characters at line 1 column 32");
    for body in ["", "x", "[1", "{\"jsonrpc\":\"2.0\"", "\"\u{1}\""] {
        assert!(matches!(read_body(body), Err(CodecError::InvalidJson(_))), "{body}");
    }
}

/// The member names that stand in a text.
fn names(message: &[&str], error: &[&str]) -> MemberNames {
    MemberNames {
        message: message.iter().map(|name| name.to_string()).collect(),
        error: error.iter().map(|name| name.to_string()).collect(),
    }
}

#[test]
fn repeated_members_are_refused_where_their_names_are_known() {
    let request = br#"{"jsonrpc":"2.0","id":1,"method":"a","method":"b"}"#;
    let repeated = names(&["jsonrpc", "id", "method", "method"], &[]);
    assert!(matches!(decode_body(request, &repeated), Err(CodecError::InvalidMessage)));
    let last = decode_body(request, &MemberNames::none()).unwrap();
    assert_eq!(last.into_request().unwrap().method, "b");

    let response = br#"{"jsonrpc":"2.0","id":1,"error":{"code":1,"code":2,"message":"m"}}"#;
    let repeated = names(&["jsonrpc", "id", "error"], &["code", "code", "message"]);
    assert!(matches!(decode_body(response, &repeated), Err(CodecError::InvalidMessage)));
    let once = names(&["jsonrpc", "id", "error"], &["code", "message"]);
    assert!(decode_body(response, &once).unwrap().is_response());

    // A member that messages of the kind do not have may be repeated.
    let notification = br#"{"jsonrpc":"2.0","method":"m","result":1,"result":2}"#;
    let repeated = names(&["jsonrpc", "method", "result", "result"], &[]);
    assert!(decode_body(notification, &repeated).unwrap().is_notification());
    let repeated = names(&["jsonrpc", "jsonrpc", "method"], &[]);
    assert!(matches!(decode_body(notification, &repeated), Err(CodecError::InvalidMessage)));

    // Text behind the value does not change that.
    let more = br#"{"jsonrpc":"2.0","method":"m","method":"m"} x"#;
    let repeated = names(&["jsonrpc", "method", "method"], &[]);
    assert!(matches!(decode_body(more, &repeated), Err(CodecError::InvalidMessage)));
    assert!(matches!(
        decode_body(more, &MemberNames::none()),
        Err(CodecError::InvalidJson(_))
    ));
}

#[test]
fn io_errors_keep_what_caused_them() {
    let err = io::Error::from(parse_content_length(b"ab\xff").unwrap_err());
    let cause = err.get_ref().unwrap().downcast_ref::<std::str::Utf8Error>().unwrap();
    assert_eq!(cause.valid_up_to(), 2);

    for text in ["", "x", "99999999999999999999999"] {
        let headers = format!("Content-Length: {text}");
        let err = io::Error::from(parse_content_length(headers.as_bytes()).unwrap_err());
        let cause = err.get_ref().unwrap().downcast_ref::<std::num::ParseIntError>().unwrap();
        assert_eq!(*cause, text.parse::<usize>().unwrap_err());
        assert_eq!(err.to_string(), text.parse::<usize>().unwrap_err().to_string());
        assert_eq!(err.kind(), io::ErrorKind::InvalidData);
    }

    let err = io::Error::from(read_body("[1,").unwrap_err());
    let cause = err.get_ref().unwrap().downcast_ref::<serde_json::Error>().unwrap();
    assert!(cause.is_eof());
    assert_eq!(err.to_string(), "EOF while parsing a value at line 1 column 3");

    let err = io::Error::from(read_body("5").unwrap_err());
    let cause = err.get_ref().unwrap().downcast_ref::<serde_json::Error>().unwrap();
    assert!(cause.is_data());
    assert_eq!(err.to_string(), "data did not match any variant of untagged enum Message");

    let err = io::Error::from(CodecError::MissingContentLength);
    assert_eq!(err.to_string(), "Missing Content-Length header");
    assert_eq!(err.kind(), io::ErrorKind::InvalidData);
}

#[test]
fn any_cutting_of_a_stream_gives_the_same_messages() {
    let mut stream = Vec::new();
    for body in [r#"{"jsonrpc":"2.0","method":"a"}"#, r#"{"jsonrpc":"2.0","id":1,"result":null}"#] {
        stream.extend_from_slice(&frame_body(body.as_bytes()));
    }
    stream.extend_from_slice(b"Content-Length: 2");
    for first in 0..=stream.len() {
        for second in [first, (first + stream.len()) / 2, stream.len()] {
            let mut codec = LspCodec::new();
            let mut buf = BytesMut::new();
            let mut read = Vec::new();
            for piece in [&stream[..first], &stream[first..second], &stream[second..]] {
                buf.extend_from_slice(piece);
                while let Some(message) = codec.decode(&mut buf).unwrap() {
                    read.push(message);
                }
            }
            assert_eq!(read.len(), 2);
            assert!(read[0].is_notification() && read[1].is_response());
            assert_eq!(&buf[..], b"Content-Length: 2");
        }
    }
}
