use lsp_server_tokio::{ErrorCode, ResponseError};

/// The JSON value that `text` holds.
fn value(text: &str) -> serde_json::Value {
    serde_json::from_str(text).unwrap()
}



#[test]
fn error_code_to_i32() {
    assert_eq!(i32::from(ErrorCode::ParseError), -32700);
    assert_eq!(i32::from(ErrorCode::InvalidRequest), -32600);
    assert_eq!(i32::from(ErrorCode::MethodNotFound), -32601);
    assert_eq!(i32::from(ErrorCode::InvalidParams), -32602);
    assert_eq!(i32::from(ErrorCode::InternalError), -32603);
    assert_eq!(i32::from(ErrorCode::ServerNotInitialized), -32002);
    assert_eq!(i32::from(ErrorCode::UnknownErrorCode), -32001);
    assert_eq!(i32::from(ErrorCode::RequestFailed), -32803);
    assert_eq!(i32::from(ErrorCode::ServerCancelled), -32802);
    assert_eq!(i32::from(ErrorCode::ContentModified), -32801);
    assert_eq!(i32::from(ErrorCode::RequestCancelled), -32800);
}

#[test]
fn i32_to_error_code() {
    assert_eq!(ErrorCode::try_from(-32700), Ok(ErrorCode::ParseError));
    assert_eq!(ErrorCode::try_from(-32601), Ok(ErrorCode::MethodNotFound));
    assert_eq!(ErrorCode::try_from(-32800), Ok(ErrorCode::RequestCancelled));
    assert_eq!(ErrorCode::try_from(-99999), Err(-99999));
}

#[test]
fn response_error_construction() {
    let error = ResponseError::new(ErrorCode::MethodNotFound, "Method not found");
    assert_eq!(error.code, -32601);
    assert_eq!(error.message, "Method not found");
    assert!(error.data.is_none());
}

#[test]
fn response_error_with_data() {
    let error = ResponseError::new(ErrorCode::InvalidParams, "Invalid params")
        .with_data(value(r#"{"field": "uri"}"#));
    assert_eq!(error.code, -32602);
    assert!(error.data.is_some());
    assert_eq!(error.data.unwrap()["field"], "uri");
}

#[test]
fn response_error_serialization_without_data() {
    let error = ResponseError::new(ErrorCode::ParseError, "Parse error");
    let json = serde_json::to_string(&error.into_value()).unwrap();
    // data field should be omitted when None
    assert!(!json.contains("data"));
    assert!(json.contains("-32700"));
    assert!(json.contains("Parse error"));
}

#[test]
fn response_error_serialization_with_data() {
    let error = ResponseError::new(ErrorCode::InvalidParams, "Missing field")
        .with_data(value(r#"{"missing": "uri"}"#));
    let json = serde_json::to_string(&error.into_value()).unwrap();
    assert!(json.contains("data"));
    assert!(json.contains("missing"));
}

#[test]
fn response_error_deserialization() {
    let json = r#"{"code":-32601,"message":"Method not found"}"#;
    let error = ResponseError::from_value(value(json)).unwrap();
    assert_eq!(error.code, -32601);
    assert_eq!(error.message, "Method not found");
    assert!(error.data.is_none());
}

#[test]
fn response_error_deserialization_with_data() {
    let json = r#"{"code":-32602,"message":"Invalid","data":{"field":"uri"}}"#;
    let error = ResponseError::from_value(value(json)).unwrap();
    assert_eq!(error.code, -32602);
    assert!(error.data.is_some());
}

#[test]
fn response_error_raw_code() {
    let error = ResponseError::new_raw(-99999, "Custom error");
    assert_eq!(error.code, -99999);
    assert!(error.error_code().is_none());
}

#[test]
fn skip_serializing_if_works() {
    let error = ResponseError::new(ErrorCode::InternalError, "Error");
    let json = error.into_value();
    let obj = json.as_object().unwrap();
    // The "data" key should not exist when data is None
    assert!(!obj.contains_key("data"));
}
