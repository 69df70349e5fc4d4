use lsp_server_tokio::{
    cancelled_response, method_not_found_response, CancellationToken, ErrorCode, IncomingMessage,
    Notification, Request, RequestId, Response,
};

/// The JSON value that `text` holds.
fn value(text: &str) -> serde_json::Value {
    serde_json::from_str(text).unwrap()
}



#[test]
fn method_not_found_response_creates_correct_error() {
    let request = Request::new(42, "textDocument/unknown", Some(value(r#"{"key": "value"}"#)));
    let response = method_not_found_response(&request);

    // Verify it's an error response
    assert!(response.error().is_some());
    assert!(response.result().is_none());

    // Verify correct ID
    assert_eq!(response.id, Some(42.into()));

    // Verify error details
    let error = response.into_error().unwrap();
    assert_eq!(error.code, i32::from(ErrorCode::MethodNotFound));
    assert_eq!(error.code, -32601);
}

#[test]
fn method_not_found_response_includes_method_name() {
    let request = Request::new(1, "custom/myMethod", None);
    let response = method_not_found_response(&request);

    let error = response.into_error().unwrap();
    assert!(
        error.message.contains("custom/myMethod"),
        "Error message should contain the method name"
    );
    assert_eq!(error.message, "Method not found: custom/myMethod");
}

#[test]
fn method_not_found_response_with_string_id() {
    let request = Request::new("request-abc-123", "test/method", None);
    let response = method_not_found_response(&request);

    assert_eq!(
        response.id,
        Some(RequestId::String("request-abc-123".to_string()))
    );
}

#[test]
fn incoming_message_variants_constructible() {
    // Test that all variants can be constructed
    let request = Request::new(1, "test", None);
    let notification = Notification::new("test", None);
    let response = Response::ok(1, value(r#"null"#));
    let token = CancellationToken::new();

    let _req = IncomingMessage::Request(request, token);
    let _notif = IncomingMessage::Notification(notification);
    let _routed = IncomingMessage::ResponseRouted;
    let _unknown = IncomingMessage::ResponseUnknown(response);
}

#[test]
fn incoming_message_is_debug() {
    let request = Request::new(1, "test", None);
    let token = CancellationToken::new();
    let incoming = IncomingMessage::Request(request, token);
    let debug_str = format!("{incoming:?}");
    assert!(debug_str.contains("Request"));
}

#[test]
fn incoming_message_accessors_match_variants() {
    let request = IncomingMessage::Request(Request::new(1, "test", None), CancellationToken::new());
    assert!(request.is_request());
    assert!(!request.is_notification());
    assert!(!request.is_response_routed());
    assert!(!request.is_response_unknown());
    assert!(!request.is_cancel_handled());

    let notification = IncomingMessage::Notification(Notification::new("test", None));
    assert!(notification.is_notification());

    let routed = IncomingMessage::ResponseRouted;
    assert!(routed.is_response_routed());

    let unknown = IncomingMessage::ResponseUnknown(Response::ok(1, value(r#"null"#)));
    assert!(unknown.is_response_unknown());

    let cancelled = IncomingMessage::CancelHandled;
    assert!(cancelled.is_cancel_handled());
}

// ============== cancelled_response Tests ==============

#[test]
fn cancelled_response_creates_correct_error() {
    let response = cancelled_response(42);

    assert!(response.error().is_some());
    assert!(response.result().is_none());
    assert_eq!(response.id, Some(42.into()));

    let error = response.into_error().unwrap();
    assert_eq!(error.code, i32::from(ErrorCode::RequestCancelled));
    assert_eq!(error.code, -32800);
    assert!(error.message.contains("cancelled"));
}

#[test]
fn cancelled_response_with_string_id() {
    let response = cancelled_response("req-xyz");

    assert_eq!(
        response.id,
        Some(RequestId::String("req-xyz".to_string()))
    );
    assert!(response.error().is_some());
}
