use lsp_server_tokio::{
    ErrorCode, Message, Notification, Request, RequestId, Response, ResponseBody, ResponseError,
};

/// The JSON value that `text` holds.
fn value(text: &str) -> serde_json::Value {
    serde_json::from_str(text).unwrap()
}

/// The message that `text` stands for, if it stands for one.
fn read(text: &str) -> Option<Message> {
    Message::from_value(value(text))
}

#[test]
fn messages_are_told_by_their_members() {
    assert!(read(r#"{"jsonrpc":"2.0","id":1,"method":"test"}"#).unwrap().is_request());
    assert!(read(r#"{"jsonrpc":"2.0","id":1,"result":null}"#).unwrap().is_response());
    assert!(read(r#"{"jsonrpc":"2.0","method":"test"}"#).unwrap().is_notification());
}

#[test]
fn id_and_method_make_a_request_whatever_else_there_is() {
    let m = read(r#"{"jsonrpc":"2.0","id":"a","method":"m","result":1,"extra":2}"#).unwrap();
    let request = m.into_request().unwrap();
    assert_eq!(request.id, "a".into());
    assert_eq!(request.method, "m");
    assert!(request.params.is_none());
}

#[test]
fn a_response_has_a_result_or_an_error() {
    let ok = read(r#"{"jsonrpc":"2.0","id":1,"result":{"a":[1]}}"#).unwrap();
    let ok = ok.into_response().unwrap();
    assert_eq!(ok.result(), Some(&value(r#"{"a":[1]}"#)));
    assert!(ok.error().is_none());

    let err = read(r#"{"jsonrpc":"2.0","id":1,"error":{"code":-32601,"message":"no"}}"#).unwrap();
    let err = err.into_response().unwrap();
    assert!(err.result().is_none());
    let error = err.into_error().unwrap();
    assert_eq!(error.code, -32601);
    assert_eq!(error.message, "no");
    assert!(error.data.is_none());

    // A null beside the other member does not count.
    let m = r#"{"jsonrpc":"2.0","id":1,"result":null,"error":{"code":1,"message":"no"}}"#;
    assert!(read(m).unwrap().into_response().unwrap().error().is_some());
    let m = r#"{"jsonrpc":"2.0","id":1,"result":5,"error":null}"#;
    assert_eq!(read(m).unwrap().into_response().unwrap().into_result(), Some(value("5")));

    // Both, or neither, are no response.
    assert!(read(r#"{"jsonrpc":"2.0","id":1,"result":5,"error":{"code":1,"message":"no"}}"#).is_none());
    assert!(read(r#"{"jsonrpc":"2.0","id":1}"#).is_none());
    assert!(read(r#"{"jsonrpc":"2.0","id":1,"error":null}"#).is_none());
    assert!(read(r#"{"jsonrpc":"2.0","id":1,"error":{"code":"x","message":"no"}}"#).is_none());
    assert!(read(r#"{"jsonrpc":"2.0","id":1,"error":{"code":1}}"#).is_none());
}

#[test]
fn what_is_no_message_is_refused() {
    assert!(read("null").is_none());
    assert!(read("true").is_none());
    assert!(read("5").is_none());
    assert!(read(r#""text""#).is_none());
    assert!(read("[]").is_none());
    assert!(read("{}").is_none());
    assert!(read(r#"{"id":1,"method":"m"}"#).is_none());
    assert!(read(r#"{"jsonrpc":2,"id":1,"method":"m"}"#).is_none());
    assert!(read(r#"{"jsonrpc":"2.0","method":5}"#).is_none());
    // An id that is no identifier makes it neither a request nor a notification.
    assert!(read(r#"{"jsonrpc":"2.0","id":1.5,"method":"m"}"#).is_none());
    assert!(read(r#"{"jsonrpc":"2.0","id":null,"method":"m"}"#).is_none());
    assert!(read(r#"{"jsonrpc":"2.0","id":2147483648,"method":"m"}"#).is_none());
    assert!(read(r#"{"jsonrpc":"2.0","id":true,"result":1}"#).is_none());
}

#[test]
fn ids_at_the_ends_of_their_range_are_read() {
    let m = read(r#"{"jsonrpc":"2.0","id":2147483647,"method":"m"}"#).unwrap();
    assert_eq!(m.into_request().unwrap().id, RequestId::Integer(i32::MAX));
    let m = read(r#"{"jsonrpc":"2.0","id":-2147483648,"method":"m"}"#).unwrap();
    assert_eq!(m.into_request().unwrap().id, RequestId::Integer(i32::MIN));
}

#[test]
fn null_params_are_no_params() {
    let m = read(r#"{"jsonrpc":"2.0","id":1,"method":"m","params":null}"#).unwrap();
    assert!(m.into_request().unwrap().params.is_none());
    let m = read(r#"{"jsonrpc":"2.0","method":"m","params":null}"#).unwrap();
    assert!(m.into_notification().unwrap().params.is_none());

    // Written they are null, and read back they are none.
    let m = Message::Request(Request::new(1, "m", Some(value("null"))));
    let v = m.into_value();
    assert_eq!(v, value(r#"{"jsonrpc":"2.0","id":1,"method":"m","params":null}"#));
    let m = Message::from_value(v).unwrap();
    assert!(m.into_request().unwrap().params.is_none());
}

#[test]
fn messages_are_written_with_their_members() {
    let request = Message::from(Request::new("a", "m", Some(value("[1,2]"))));
    assert_eq!(
        request.into_value(),
        value(r#"{"jsonrpc":"2.0","id":"a","method":"m","params":[1,2]}"#)
    );
    let request = Message::from(Request::new(1, "m", None));
    assert_eq!(request.into_value(), value(r#"{"jsonrpc":"2.0","id":1,"method":"m"}"#));
    let notification = Message::from(Notification::new("m", None));
    assert_eq!(notification.into_value(), value(r#"{"jsonrpc":"2.0","method":"m"}"#));
    let response = Message::from(Response::ok(-3, value("null")));
    assert_eq!(response.into_value(), value(r#"{"jsonrpc":"2.0","id":-3,"result":null}"#));
    let error = ResponseError::new(ErrorCode::InvalidParams, "bad").with_data(value("7"));
    let response = Message::from(Response::err(1, error));
    assert_eq!(
        response.into_value(),
        value(r#"{"jsonrpc":"2.0","id":1,"error":{"code":-32602,"message":"bad","data":7}}"#)
    );
}

#[test]
fn a_parse_error_response_has_a_null_id() {
    let response = Response::parse_error(ResponseError::new(ErrorCode::ParseError, "Parse error"));
    let v = Message::Response(response).into_value();
    assert_eq!(
        v,
        value(r#"{"jsonrpc":"2.0","id":null,"error":{"code":-32700,"message":"Parse error"}}"#)
    );
    let back = Message::from_value(v).unwrap().into_response().unwrap();
    assert!(back.id.is_none());
    assert_eq!(back.into_error().unwrap().error_code(), Some(ErrorCode::ParseError));
}

#[test]
fn accessors_give_the_message_that_it_is() {
    let request = Message::Request(Request::new(1, "r", None));
    assert_eq!(request.as_request().unwrap().method, "r");
    assert!(request.as_response().is_none());
    assert!(request.as_notification().is_none());
    assert!(request.clone().into_response().is_none());
    assert!(request.clone().into_notification().is_none());
    assert_eq!(request.into_request().unwrap().id, 1.into());

    let response = Message::Response(Response::ok(2, value("true")));
    assert!(response.as_request().is_none());
    assert_eq!(response.as_response().unwrap().id, Some(2.into()));
    assert!(response.clone().into_request().is_none());

    let notification = Message::Notification(Notification::new("n", None));
    assert_eq!(notification.as_notification().unwrap().method, "n");
    assert!(notification.as_response().is_none());
}

#[test]
fn clones_hold_the_same() {
    let error = ResponseError::new_raw(5, "five").with_data(value(r#"{"k":[null]}"#));
    let response = Response::err("id", error);
    let copy = response.clone();
    assert_eq!(copy.id, response.id);
    match copy.body {
        ResponseBody::Error(e) => {
            assert_eq!(e.code, 5);
            assert_eq!(e.message, "five");
            assert_eq!(e.data, Some(value(r#"{"k":[null]}"#)));
        }
        ResponseBody::Result(v) => panic!("expected an error, got {v}"),
    }
}

#[test]
fn every_error_code_converts_both_ways() {
    let codes = [
        (ErrorCode::ParseError, -32700),
        (ErrorCode::InvalidRequest, -32600),
        (ErrorCode::MethodNotFound, -32601),
        (ErrorCode::InvalidParams, -32602),
        (ErrorCode::InternalError, -32603),
        (ErrorCode::ServerNotInitialized, -32002),
        (ErrorCode::UnknownErrorCode, -32001),
        (ErrorCode::RequestFailed, -32803),
        (ErrorCode::ServerCancelled, -32802),
        (ErrorCode::ContentModified, -32801),
        (ErrorCode::RequestCancelled, -32800),
    ];
    for (code, number) in codes {
        assert_eq!(i32::from(code), number);
        assert_eq!(ErrorCode::try_from(number), Ok(code));
        assert_eq!(ResponseError::new(code, "x").error_code(), Some(code));
    }
}

#[test]
fn ids_print_as_text() {
    assert_eq!(RequestId::Integer(0).to_string(), "0");
    assert_eq!(RequestId::Integer(-1).to_string(), "-1");
    assert_eq!(RequestId::Integer(i32::MIN).to_string(), "-2147483648");
    assert_eq!(RequestId::Integer(i32::MAX).to_string(), "2147483647");
    assert_eq!(RequestId::from("\u{65E5}").to_string(), "\u{65E5}");
}
