use lsp_server_tokio::connection::{
    await_response, initialize_result, Inbound, InitializeStep, TimedInbound, WaitStep,
};
use lsp_server_tokio::{
    CancellationToken, Connection, ErrorCode, ExitCode, IncomingMessage, LifecycleState, Message,
    Notification, ProtocolError, Request, RequestId, RequestQueue, Response, ResponseError,
};
use std::io;
use tokio::sync::mpsc;
use tokio::sync::oneshot::error::TryRecvError;

/// The JSON value that `text` holds.
fn value(text: &str) -> serde_json::Value {
    serde_json::from_str(text).unwrap()
}

/// A connection, and the receiving side of its outbound queue.
fn connection<I>() -> (Connection<I>, mpsc::UnboundedReceiver<Message>) {
    let (tx, rx) = mpsc::unbounded_channel();
    (Connection::new(tx, CancellationToken::new()), rx)
}

#[test]
fn connection_has_request_queue_test() {
    let (mut conn, _outbound) = connection::<String>();

    // Use request queue to track an incoming request
    let token = CancellationToken::new();
    conn.request_queue
        .incoming
        .register(1.into(), "handler_data".to_string(), token);
    assert!(conn.request_queue.incoming.is_pending(&1.into()));

    // Complete it
    let data = conn.request_queue.incoming.complete(&1.into());
    assert_eq!(data, Some("handler_data".to_string()));
}

#[test]
fn connection_with_request_queue_test() {
    let (tx, _outbound) = mpsc::unbounded_channel();
    let mut queue: RequestQueue<u32> = RequestQueue::new();
    let token = CancellationToken::new();
    queue.incoming.register(42.into(), 100, token);

    let conn = Connection::with_request_queue(tx, CancellationToken::new(), queue);
    assert!(conn.request_queue.incoming.is_pending(&42.into()));
}

#[test]
fn connection_outgoing_request_queue_test() {
    let (mut conn, _outbound) = connection::<()>();

    // Register an outgoing request
    let mut rx = conn.request_queue.outgoing.register(1.into());
    assert!(conn.request_queue.outgoing.is_pending(&1.into()));

    // Complete it with a response
    let completed = conn
        .request_queue
        .outgoing
        .complete(&1.into(), Response::ok(1, value(r#""response data""#)));
    assert!(completed);

    // Receiver gets the response
    let response = rx.try_recv().unwrap();
    assert_eq!(response.id, Some(1.into()));
    assert_eq!(response.result().cloned(), Some(value(r#""response data""#)));
}

#[test]
fn route_request_returns_incoming_request() {
    let (mut conn, _outbound) = connection::<()>();

    let request = Request::new(42, "textDocument/hover", Some(value(r#"{"line": 10}"#)));
    let message = Message::Request(request);

    let result = conn.route(message);
    match result {
        IncomingMessage::Request(req, token) => {
            assert_eq!(req.id, 42.into());
            assert_eq!(req.method, "textDocument/hover");
            // Token should not be cancelled yet
            assert!(!token.is_cancelled());
            // Request should be auto-registered
            assert!(conn.request_queue.incoming.is_pending(&42.into()));
        }
        _ => panic!("Expected IncomingMessage::Request"),
    }
}

#[test]
fn route_notification_returns_incoming_notification() {
    let (mut conn, _outbound) = connection::<()>();

    let notification = Notification::new(
        "textDocument/didOpen",
        Some(value(r#"{"uri": "file:///test.rs"}"#)),
    );
    let message = Message::Notification(notification);

    let result = conn.route(message);
    match result {
        IncomingMessage::Notification(notif) => {
            assert_eq!(notif.method, "textDocument/didOpen");
        }
        _ => panic!("Expected IncomingMessage::Notification"),
    }
}

#[test]
fn route_response_to_pending_outgoing_request() {
    let (mut conn, _outbound) = connection::<()>();

    // Register an outgoing request
    let mut rx = conn.request_queue.outgoing.register(42.into());

    // Create a matching response
    let response = Response::ok(42, value(r#"{"result": "success"}"#));
    let message = Message::Response(response);

    // Route it
    let result = conn.route(message);
    assert!(
        matches!(result, IncomingMessage::ResponseRouted),
        "Expected ResponseRouted, got {result:?}"
    );

    // Verify receiver got the response
    let received = rx.try_recv().expect("Should receive response");
    assert_eq!(received.id, Some(42.into()));
    assert!(received.result().is_some());
    assert_eq!(received.into_result().unwrap()["result"], "success");
}

#[test]
fn route_response_for_unknown_id_returns_response_unknown() {
    let (mut conn, _outbound) = connection::<()>();

    // Create a response for an ID that was never registered
    let response = Response::ok(999, value(r#"{"unexpected": true}"#));
    let message = Message::Response(response);

    let result = conn.route(message);
    match result {
        IncomingMessage::ResponseUnknown(resp) => {
            assert_eq!(resp.id, Some(999.into()));
        }
        _ => panic!("Expected IncomingMessage::ResponseUnknown"),
    }
}

#[test]
fn route_response_with_null_id_returns_response_unknown() {
    let (mut conn, _outbound) = connection::<()>();

    // Create a parse error response (null id)
    let response = Response::parse_error(ResponseError::new(
        ErrorCode::ParseError,
        "Parse error",
    ));
    let message = Message::Response(response);

    let result = conn.route(message);
    match result {
        IncomingMessage::ResponseUnknown(resp) => {
            assert!(
                resp.id.is_none(),
                "Expected null id for parse error response"
            );
            assert!(resp.error().is_some());
        }
        _ => panic!("Expected IncomingMessage::ResponseUnknown"),
    }
}

#[test]
fn route_response_with_string_id() {
    let (mut conn, _outbound) = connection::<()>();

    // Register with string ID
    let mut rx = conn.request_queue.outgoing.register("request-abc".into());

    // Create matching response
    let response = Response::ok("request-abc", value(r#"null"#));
    let message = Message::Response(response);

    let result = conn.route(message);
    assert!(matches!(result, IncomingMessage::ResponseRouted));

    let received = rx.try_recv().expect("Should receive response");
    assert_eq!(
        received.id,
        Some(RequestId::String("request-abc".to_string()))
    );
}

#[test]
fn route_multiple_responses_to_different_requests() {
    let (mut conn, _outbound) = connection::<()>();

    // Register multiple outgoing requests
    let mut rx1 = conn.request_queue.outgoing.register(1.into());
    let mut rx2 = conn.request_queue.outgoing.register(2.into());
    let mut rx3 = conn.request_queue.outgoing.register(3.into());

    // Route responses out of order
    let result2 = conn.route(Message::Response(Response::ok(2, value(r#""second""#))));
    assert!(matches!(result2, IncomingMessage::ResponseRouted));

    let result1 = conn.route(Message::Response(Response::ok(1, value(r#""first""#))));
    assert!(matches!(result1, IncomingMessage::ResponseRouted));

    let result3 = conn.route(Message::Response(Response::ok(3, value(r#""third""#))));
    assert!(matches!(result3, IncomingMessage::ResponseRouted));

    // Verify all receivers got correct responses
    let resp1 = rx1.try_recv().unwrap();
    assert_eq!(resp1.into_result().unwrap(), value(r#""first""#));

    let resp2 = rx2.try_recv().unwrap();
    assert_eq!(resp2.into_result().unwrap(), value(r#""second""#));

    let resp3 = rx3.try_recv().unwrap();
    assert_eq!(resp3.into_result().unwrap(), value(r#""third""#));
}

#[test]
fn route_error_response_to_pending_request() {
    let (mut conn, _outbound) = connection::<()>();

    // Register an outgoing request (we won't await it in this sync test)
    let _rx = conn.request_queue.outgoing.register(42.into());

    // Route an error response
    let response = Response::err(
        42,
        ResponseError::new(ErrorCode::MethodNotFound, "Not found"),
    );
    let message = Message::Response(response);

    let result = conn.route(message);
    assert!(matches!(result, IncomingMessage::ResponseRouted));
}

#[test]
fn handle_cancel_request_cancels_pending() {
    let (mut conn, _outbound) = connection::<()>();

    // Register a request via route
    let request = Request::new(42, "test", None);
    let result = conn.route(Message::Request(request));
    let IncomingMessage::Request(_, token) = result else {
        panic!("Expected IncomingMessage::Request")
    };
    assert!(!token.is_cancelled());

    // Create cancel notification
    let cancel_notif = Notification::new("$/cancelRequest", Some(value(r#"{"id": 42}"#)));

    // Handle it
    let result = conn.handle_cancel_request(&cancel_notif);
    assert_eq!(result, Some(true));

    // Token should be cancelled
    assert!(token.is_cancelled());
}

#[test]
fn handle_cancel_request_unknown_id_returns_false() {
    let (mut conn, _outbound) = connection::<String>();

    let cancel_notif = Notification::new("$/cancelRequest", Some(value(r#"{"id": 999}"#)));

    let result = conn.handle_cancel_request(&cancel_notif);
    assert_eq!(result, Some(false));
}

#[test]
fn handle_cancel_request_wrong_method_returns_none() {
    let (mut conn, _outbound) = connection::<String>();

    let other_notif = Notification::new(
        "textDocument/didOpen",
        Some(value(r#"{"uri": "file:///test.rs"}"#)),
    );

    let result = conn.handle_cancel_request(&other_notif);
    assert_eq!(result, None);
}

#[test]
fn handle_cancel_request_malformed_params_returns_none() {
    let (mut conn, _outbound) = connection::<String>();

    // Missing id field
    let cancel_notif = Notification::new("$/cancelRequest", Some(value(r#"{"other": "field"}"#)));

    let result = conn.handle_cancel_request(&cancel_notif);
    assert_eq!(result, None);
}

#[test]
fn route_cancel_request_returns_cancel_handled_and_cancels_pending() {
    let (mut conn, _outbound) = connection::<()>();

    // Register a request via route
    let request = Request::new(42, "test", None);
    let routed = conn.route(Message::Request(request));
    let IncomingMessage::Request(_, token) = routed else {
        panic!("expected Request");
    };
    assert!(!token.is_cancelled());

    // Send $/cancelRequest via route
    let cancel = Notification::new("$/cancelRequest", Some(value(r#"{"id": 42}"#)));
    let result = conn.route(Message::Notification(cancel));
    assert!(matches!(result, IncomingMessage::CancelHandled));
    assert!(token.is_cancelled());
}

#[test]
fn route_cancel_request_unknown_id_still_returns_cancel_handled() {
    let (mut conn, _outbound) = connection::<()>();

    // Cancel a request that was never registered — still CancelHandled
    let cancel = Notification::new("$/cancelRequest", Some(value(r#"{"id": 99}"#)));
    let result = conn.route(Message::Notification(cancel));
    assert!(matches!(result, IncomingMessage::CancelHandled));
}

#[test]
fn route_regular_notification_not_affected() {
    let (mut conn, _outbound) = connection::<()>();

    let notif = Notification::new("textDocument/didOpen", None);
    let result = conn.route(Message::Notification(notif));
    assert!(matches!(result, IncomingMessage::Notification(_)));
}

#[test]
fn route_request_auto_registers_and_cancellation_works() {
    let (mut conn, _outbound) = connection::<()>();

    // Route a request
    let request = Request::new(42, "test", None);
    let result = conn.route(Message::Request(request));

    let IncomingMessage::Request(_, token) = result else {
        panic!("Expected IncomingMessage::Request")
    };

    // Token should not be cancelled
    assert!(!token.is_cancelled());

    // Cancel via cancel_incoming
    let was_cancelled = conn.cancel_incoming(42);
    assert!(was_cancelled);

    // Token should now be cancelled
    assert!(token.is_cancelled());
}

#[test]
fn cancellation_propagates_to_spawned_handler() {
    let (mut conn, _outbound) = connection::<()>();

    // Register a request via route
    let request = Request::new(1, "test", None);
    let result = conn.route(Message::Request(request));
    let IncomingMessage::Request(_, token) = result else {
        panic!("Expected IncomingMessage::Request")
    };
    assert!(!token.is_cancelled());

    // Cancel the request
    let _ = conn.request_queue.incoming.cancel(&1.into());

    // What waits for the cancellation goes on
    futures::executor::block_on(token.cancelled());
    assert!(token.is_cancelled());
}

#[test]
fn test_cancel_unknown_outgoing_request() {
    let (mut client, _outbound) = connection::<()>();

    // Cancel a request that was never registered
    let was_pending = client.cancel(999).unwrap();
    assert!(!was_pending);
}

// ============== Outgoing cancellation ==============

#[test]
fn test_cancel_outgoing_request() {
    let (mut client, mut outbound) = connection::<()>();

    // Register an outgoing request on client
    let rx = client.request_queue.outgoing.register(42.into());

    // Cancel it - should send notification and remove from queue
    let was_pending = client.cancel(42).unwrap();
    assert!(was_pending);
    assert!(!client.request_queue.outgoing.is_pending(&42.into()));

    // The $/cancelRequest notification is queued
    let msg = outbound.try_recv().unwrap();
    assert!(msg.is_notification());
    if let Message::Notification(notif) = msg {
        assert_eq!(notif.method, "$/cancelRequest");
        assert_eq!(notif.params.unwrap()["id"], 42);
    } else {
        panic!("Expected notification");
    }
    assert!(outbound.try_recv().is_err());

    // The receiver should get an error (sender dropped)
    assert!(rx.blocking_recv().is_err());
}

#[test]
fn test_cancel_with_string_id() {
    let (mut client, mut outbound) = connection::<()>();

    // Register with string ID
    let rx = client.request_queue.outgoing.register("req-abc".into());

    // Cancel it
    let was_pending = client.cancel("req-abc").unwrap();
    assert!(was_pending);

    // The notification has the string ID
    if let Message::Notification(notif) = outbound.try_recv().unwrap() {
        assert_eq!(notif.params.unwrap()["id"], "req-abc");
    } else {
        panic!("Expected notification");
    }

    assert!(rx.blocking_recv().is_err());
}

#[test]
fn cancel_on_a_closed_queue_leaves_the_request_pending() {
    let (mut conn, outbound) = connection::<()>();
    let mut rx = conn.request_queue.outgoing.register(1.into());
    drop(outbound);

    let err = conn.cancel(1).unwrap_err();
    assert_eq!(err.kind(), io::ErrorKind::BrokenPipe);
    assert_eq!(err.to_string(), "connection closed");
    assert!(conn.request_queue.outgoing.is_pending(&1.into()));
    assert!(matches!(rx.try_recv(), Err(TryRecvError::Empty)));
}

#[test]
fn cancel_request_reaches_the_request_on_the_other_side() {
    let (mut client, mut outbound) = connection::<()>();
    let (mut server, _server_outbound) = connection::<()>();
    let token = match server.route(Message::Request(Request::new("job", "test", None))) {
        IncomingMessage::Request(_, token) => token,
        other => panic!("expected request, got {other:?}"),
    };

    client.cancel("job").unwrap();
    let routed = server.route(outbound.try_recv().unwrap());
    assert!(routed.is_cancel_handled());
    assert!(token.is_cancelled());
    assert!(server.request_queue.incoming.is_pending(&"job".into()));
}

// ============== Sending ==============

#[test]
fn send_queues_messages_in_order() {
    let (mut conn, mut outbound) = connection::<()>();
    conn.send(Message::Notification(Notification::new("first", None)))
        .unwrap();
    conn.send(Message::Notification(Notification::new("second", None)))
        .unwrap();

    let methods: Vec<String> = vec![outbound.try_recv().unwrap(), outbound.try_recv().unwrap()]
        .into_iter()
        .map(|m| m.into_notification().unwrap().method)
        .collect();
    assert_eq!(methods, ["first", "second"]);
}

#[test]
fn connection_multiple_messages_test() {
    let (mut client, mut outbound) = connection::<()>();

    // Send 3 messages in sequence
    client.send(Message::Request(Request::new(1, "first", None))).unwrap();
    client.send(Message::Request(Request::new(2, "second", None))).unwrap();
    client.send(Message::Request(Request::new(3, "third", None))).unwrap();

    // All 3 are queued - order must be preserved
    for (id, method) in [(1, "first"), (2, "second"), (3, "third")] {
        if let Message::Request(r) = outbound.try_recv().unwrap() {
            assert_eq!(r.method, method);
            assert_eq!(r.id, id.into());
        } else {
            panic!("Expected request");
        }
    }
}

#[test]
fn send_works_after_client_sender() {
    let (mut server, mut outbound) = connection::<()>();
    let _sender = server.client_sender();

    // send() should still work after client_sender()
    server
        .send(Message::Notification(Notification::new("test/ping", None)))
        .unwrap();

    let notif = outbound.try_recv().unwrap().into_notification().unwrap();
    assert_eq!(notif.method, "test/ping");
}

#[test]
fn send_fails_on_a_closed_queue() {
    let (mut conn, outbound) = connection::<()>();
    drop(outbound);
    let err = conn
        .send(Message::Notification(Notification::new("test", None)))
        .unwrap_err();
    assert_eq!(err.kind(), io::ErrorKind::BrokenPipe);
    assert_eq!(err.to_string(), "connection closed");
}

#[test]
fn client_sender_can_be_called_multiple_times() {
    let (mut conn, _outbound) = connection::<()>();
    assert!(conn.response_map.is_none());

    let _sender1 = conn.client_sender();
    let _rx = conn.response_map.as_mut().unwrap().register(7.into());

    // The second call leaves the pending requests as they are.
    let _sender2 = conn.client_sender();
    assert!(conn.response_map.as_ref().unwrap().is_pending(&7.into()));
}

#[test]
fn send_works_before_and_after_client_sender() {
    let (mut server, mut outbound) = connection::<()>();

    server
        .send(Message::Notification(Notification::new("test/before", None)))
        .unwrap();
    let _sender = server.client_sender();
    server
        .send(Message::Notification(Notification::new("test/after", None)))
        .unwrap();

    let before = outbound.try_recv().unwrap().into_notification().unwrap();
    assert_eq!(before.method, "test/before");
    let after = outbound.try_recv().unwrap().into_notification().unwrap();
    assert_eq!(after.method, "test/after");
}

#[test]
fn client_sender_messages_arrive_on_receiver() {
    let (mut server, mut outbound) = connection::<()>();
    let mut sender = server.client_sender();

    sender
        .notify(
            "window/logMessage",
            Some(value(r#"{"type": 3, "message": "hello"}"#)),
        )
        .unwrap();

    let notif = outbound.try_recv().unwrap().into_notification().unwrap();
    assert_eq!(notif.method, "window/logMessage");
    assert_eq!(notif.params.unwrap()["message"], "hello");
}

// ============== Routing of replies ==============

#[test]
fn client_sender_request_routed_through_response_map() {
    let (mut server, mut outbound) = connection::<()>();
    let mut sender = server.client_sender();

    let mut pending = sender
        .request(
            server.response_map.as_mut().unwrap(),
            "client/registerCapability",
            Some(value(r#"{"registrations": []}"#)),
        )
        .unwrap();

    let req = outbound.try_recv().unwrap().into_request().unwrap();
    assert_eq!(req.method, "client/registerCapability");

    let routed = server.route(Message::Response(Response::ok(req.id.clone(), value("null"))));
    assert!(routed.is_response_routed());
    assert_eq!(pending.receiver.try_recv().unwrap().id, Some(req.id));
}

#[test]
fn route_prefers_response_map_over_outgoing_queue() {
    let (mut server, _outbound) = connection::<()>();
    let mut sender = server.client_sender();

    // Register the same ID in both response_map (via ClientSender) and outgoing queue
    let mut outgoing_rx = server.request_queue.outgoing.register(1.into());
    let mut pending = sender
        .request(server.response_map.as_mut().unwrap(), "test", None)
        .unwrap();

    // Route a response for id=1 - should go to response_map, not outgoing queue
    let response = Response::ok(1, value(r#""via-response-map""#));
    let result = server.route(Message::Response(response));
    assert!(matches!(result, IncomingMessage::ResponseRouted));

    let resp = pending.receiver.try_recv().unwrap();
    assert_eq!(resp.result().cloned(), Some(value(r#""via-response-map""#)));

    // outgoing queue receiver should NOT have received anything (still pending)
    assert!(matches!(outgoing_rx.try_recv(), Err(TryRecvError::Empty)));
    assert!(server.request_queue.outgoing.is_pending(&1.into()));

    // A second response with the id goes to the outgoing queue, and a third one to no request.
    let second = server.route(Message::Response(Response::ok(1, value("2"))));
    assert!(second.is_response_routed());
    assert_eq!(outgoing_rx.try_recv().unwrap().into_result().unwrap(), value("2"));
    let third = server.route(Message::Response(Response::ok(1, value("3"))));
    assert!(third.is_response_unknown());
}

#[test]
fn routed_request_gets_default_metadata() {
    let (mut conn, _outbound) = connection::<u32>();
    let _ = conn.route(Message::Request(Request::new(1, "test", None)));
    assert_eq!(conn.request_queue.incoming.complete(&1.into()), Some(0));
}

#[test]
fn cancel_request_with_malformed_params_is_handled() {
    let (mut conn, _outbound) = connection::<()>();
    let token = match conn.route(Message::Request(Request::new(1, "test", None))) {
        IncomingMessage::Request(_, token) => token,
        other => panic!("expected request, got {other:?}"),
    };
    let routed = conn.route(Message::Notification(Notification::new("$/cancelRequest", None)));
    assert!(routed.is_cancel_handled());
    assert!(!token.is_cancelled());
}

#[test]
fn cancel_incoming_of_an_unknown_request_is_false() {
    let (mut conn, _outbound) = connection::<()>();
    assert!(!conn.cancel_incoming("nobody"));
}

// ============== Lifecycle ==============

/// Takes a connection through the opening handshake.
fn initialize(conn: &mut Connection<()>, outbound: &mut mpsc::UnboundedReceiver<Message>) {
    let step = conn.initialize_start(Inbound::Message(Message::Request(Request::new(
        1,
        "initialize",
        None,
    ))));
    let id = match step {
        InitializeStep::Initialize(id, _) => id,
        other => panic!("expected initialize, got {other:?}"),
    };
    conn.respond_initialize(id, value(r#"{"capabilities": {}}"#))
        .unwrap();
    assert!(outbound.try_recv().unwrap().is_response());
    let initialized = Notification::new("initialized", None);
    let step = conn.initialize_finish(TimedInbound::Inbound(Inbound::Message(
        Message::Notification(initialized),
    )));
    assert!(matches!(step, WaitStep::Done(())));
}

#[test]
fn test_initialize_handshake() {
    let (mut server, mut outbound) = connection::<()>();
    assert_eq!(server.lifecycle_state(), LifecycleState::Uninitialized);

    let init_params = value(r#"{"processId": 1234, "capabilities": {}}"#);
    let init_request = Message::Request(Request::new(1, "initialize", Some(init_params.clone())));
    let (id, params) = match server.initialize_start(Inbound::Message(init_request)) {
        InitializeStep::Initialize(id, params) => (id, params),
        other => panic!("expected initialize, got {other:?}"),
    };
    assert_eq!(id, 1.into());
    assert_eq!(params["processId"], 1234);
    assert_eq!(server.lifecycle_state(), LifecycleState::Initializing);

    let result = value(r#"{"capabilities": {"textDocumentSync": 1}}"#);
    server.respond_initialize(id, result).unwrap();

    let resp = outbound.try_recv().unwrap().into_response().unwrap();
    assert_eq!(resp.id, Some(1.into()));
    assert!(resp.result().is_some());
    let result = resp.into_result().unwrap();
    assert_eq!(result["capabilities"]["textDocumentSync"], 1);
    assert!(!server.is_running());

    let initialized = Message::Notification(Notification::new("initialized", None));
    let step = server.initialize_finish(TimedInbound::Inbound(Inbound::Message(initialized)));
    assert!(matches!(step, WaitStep::Done(())));
    assert!(server.is_running());
    assert_eq!(server.lifecycle_state(), LifecycleState::Running);
}

#[test]
fn test_initialize_rejects_non_init_requests() {
    let (mut server, mut outbound) = connection::<()>();

    let hover_request = Message::Request(Request::new(1, "textDocument/hover", None));
    let step = server.initialize_start(Inbound::Message(hover_request));
    assert!(matches!(step, InitializeStep::Waiting));

    let resp = outbound.try_recv().unwrap().into_response().unwrap();
    assert_eq!(resp.id, Some(1.into()));
    let error = resp.into_error().unwrap();
    assert_eq!(error.code, i32::from(ErrorCode::ServerNotInitialized));
    assert_eq!(error.message, "Server not yet initialized");

    let init_request = Message::Request(Request::new(2, "initialize", None));
    let step = server.initialize_start(Inbound::Message(init_request));
    match step {
        InitializeStep::Initialize(id, params) => {
            assert_eq!(id, 2.into());
            assert!(params.is_null());
        }
        other => panic!("expected initialize, got {other:?}"),
    }
    assert_eq!(server.lifecycle_state(), LifecycleState::Initializing);
    assert!(outbound.try_recv().is_err());
}

#[test]
fn test_initialize_finish_times_out_without_initialized() {
    let (mut server, mut outbound) = connection::<()>();
    let init_request = Message::Request(Request::new(1, "initialize", None));
    let id = match server.initialize_start(Inbound::Message(init_request)) {
        InitializeStep::Initialize(id, _) => id,
        other => panic!("expected initialize, got {other:?}"),
    };
    server.respond_initialize(id, value(r#"{"capabilities": {}}"#)).unwrap();
    assert!(outbound.try_recv().unwrap().is_response());

    let step = server.initialize_finish(TimedInbound::TimedOut);
    assert!(matches!(step, WaitStep::Failed(ProtocolError::InitializeTimeout)));
    assert!(!server.is_running());
}

#[test]
fn test_initialize_drops_notifications() {
    let (mut server, mut outbound) = connection::<()>();

    let random_notif = Message::Notification(Notification::new("textDocument/didOpen", None));
    let step = server.initialize_start(Inbound::Message(random_notif));
    assert!(matches!(step, InitializeStep::Waiting));
    let response = Message::Response(Response::ok(1, value("null")));
    let step = server.initialize_start(Inbound::Message(response));
    assert!(matches!(step, InitializeStep::Waiting));
    assert!(outbound.try_recv().is_err());

    let init_request = Message::Request(Request::new(1, "initialize", None));
    match server.initialize_start(Inbound::Message(init_request)) {
        InitializeStep::Initialize(id, _) => assert_eq!(id, 1.into()),
        other => panic!("expected initialize, got {other:?}"),
    }
    assert_eq!(server.lifecycle_state(), LifecycleState::Initializing);
}

#[test]
fn test_exit_during_init_disconnects() {
    let (mut server, _outbound) = connection::<()>();
    let exit_notif = Message::Notification(Notification::new("exit", None));
    let result = server.initialize_start(Inbound::Message(exit_notif));
    assert!(matches!(result, InitializeStep::Failed(ProtocolError::Disconnected)));
}

#[test]
fn the_end_of_the_stream_ends_the_handshake() {
    let (mut server, _outbound) = connection::<()>();
    let result = server.initialize_start(Inbound::Closed);
    assert!(matches!(result, InitializeStep::Failed(ProtocolError::Disconnected)));
    let result = server.initialize_finish(TimedInbound::Inbound(Inbound::Closed));
    assert!(matches!(result, WaitStep::Failed(ProtocolError::Disconnected)));

    let broken = io::Error::new(io::ErrorKind::InvalidData, "broken");
    let result = server.initialize_start(Inbound::Failed(broken));
    match result {
        InitializeStep::Failed(ProtocolError::Io(e)) => assert_eq!(e.to_string(), "broken"),
        other => panic!("expected an I/O error, got {other:?}"),
    }
    let broken = io::Error::new(io::ErrorKind::InvalidData, "broken again");
    let result = server.initialize_finish(TimedInbound::Inbound(Inbound::Failed(broken)));
    match result {
        WaitStep::Failed(ProtocolError::Io(e)) => assert_eq!(e.to_string(), "broken again"),
        other => panic!("expected an I/O error, got {other:?}"),
    }
}

#[test]
fn requests_before_initialized_are_rejected() {
    let (mut server, mut outbound) = connection::<()>();
    let request = Message::Request(Request::new("early", "textDocument/hover", None));
    let step = server.initialize_finish(TimedInbound::Inbound(Inbound::Message(request)));
    assert!(matches!(step, WaitStep::Waiting));
    let resp = outbound.try_recv().unwrap().into_response().unwrap();
    assert_eq!(resp.id, Some("early".into()));
    assert_eq!(resp.into_error().unwrap().code, -32002);

    drop(outbound);
    let request = Message::Request(Request::new("late", "textDocument/hover", None));
    let step = server.initialize_finish(TimedInbound::Inbound(Inbound::Message(request)));
    assert!(matches!(step, WaitStep::Failed(ProtocolError::Io(_))));
}

#[test]
fn capabilities_are_wrapped() {
    let result = initialize_result(value(r#"{"hoverProvider": true}"#));
    assert_eq!(result, value(r#"{"capabilities": {"hoverProvider": true}}"#));
}

#[test]
fn test_shutdown_then_exit() {
    let (mut server, mut outbound) = connection::<()>();
    initialize(&mut server, &mut outbound);
    assert!(server.is_running());
    let routed = match server.route(Message::Request(Request::new(5, "test", None))) {
        IncomingMessage::Request(_, token) => token,
        other => panic!("expected request, got {other:?}"),
    };
    let token = server.shutdown_token();
    assert!(!token.is_cancelled());

    server.handle_shutdown(2.into()).unwrap();

    assert!(server.is_shutting_down());
    assert!(server.shutdown_token().is_cancelled());
    assert!(token.is_cancelled());
    // Shutdown cancels the requests that were routed.
    assert!(routed.is_cancelled());

    let resp = outbound.try_recv().unwrap().into_response().unwrap();
    assert_eq!(resp.id, Some(2.into()));
    assert_eq!(resp.result().cloned(), Some(serde_json::Value::Null));

    let exit_code = server.handle_exit();
    assert_eq!(exit_code, ExitCode::Success);
    assert_eq!(server.lifecycle_state(), LifecycleState::Exited);
}

#[test]
fn test_exit_without_shutdown() {
    let (mut server, mut outbound) = connection::<()>();
    initialize(&mut server, &mut outbound);
    assert!(server.is_running());

    let exit_code = server.handle_exit();
    assert_eq!(exit_code, ExitCode::Error);
    assert_eq!(server.lifecycle_state(), LifecycleState::Exited);
}

#[test]
fn test_on_shutdown_future() {
    let (mut server, mut outbound) = connection::<()>();
    initialize(&mut server, &mut outbound);

    let token = server.shutdown_token();
    assert!(!token.is_cancelled());
    server.handle_shutdown(2.into()).unwrap();

    // What waits for the shutdown goes on
    futures::executor::block_on(token.cancelled());
    assert!(server.shutdown_token().is_cancelled());
}

#[test]
fn requests_routed_after_shutdown_are_cancelled_at_once() {
    let (mut server, _outbound) = connection::<()>();
    server.handle_shutdown(1.into()).unwrap();
    match server.route(Message::Request(Request::new(2, "test", None))) {
        IncomingMessage::Request(_, token) => assert!(token.is_cancelled()),
        other => panic!("expected request, got {other:?}"),
    }
}

// ============== Awaiting a response ==============

/// What is handed over when `message` arrives in time.
fn arrives(message: Message) -> TimedInbound {
    TimedInbound::Inbound(Inbound::Message(message))
}

#[test]
fn test_send_request_happy_path() {
    let (mut server, mut outbound) = connection::<()>();
    server
        .send_request(
            1.into(),
            "client/registerCapability",
            Some(value(r#"{"registrations": []}"#)),
        )
        .unwrap();

    let req = outbound.try_recv().unwrap().into_request().unwrap();
    assert_eq!(req.method, "client/registerCapability");
    assert_eq!(req.params, Some(value(r#"{"registrations": []}"#)));

    let response = Message::Response(Response::ok(req.id, value("null")));
    match await_response(&1.into(), arrives(response)) {
        WaitStep::Done(result) => {
            assert_eq!(result.id, Some(1.into()));
            assert_eq!(result.result().cloned(), Some(value("null")));
        }
        other => panic!("expected response, got {other:?}"),
    }
}

#[test]
fn test_send_request_timeout() {
    let step = await_response(&1.into(), TimedInbound::TimedOut);
    assert!(matches!(step, WaitStep::Failed(ProtocolError::RequestTimeout)));
}

#[test]
fn test_send_request_disconnect() {
    let (mut server, outbound) = connection::<()>();
    drop(outbound);
    let result = server.send_request(1.into(), "test", None);
    assert!(matches!(result, Err(ProtocolError::Io(_))));

    let step = await_response(&1.into(), TimedInbound::Inbound(Inbound::Closed));
    assert!(matches!(step, WaitStep::Failed(ProtocolError::Disconnected)));
}

#[test]
fn test_send_request_discards_non_matching_messages() {
    let id: RequestId = 42.into();
    let notif = Message::Notification(Notification::new("textDocument/didOpen", None));
    assert!(matches!(await_response(&id, arrives(notif)), WaitStep::Waiting));
    let wrong = Message::Response(Response::ok(999, value(r#""wrong""#)));
    assert!(matches!(await_response(&id, arrives(wrong)), WaitStep::Waiting));
    let nobody = Message::Response(Response::parse_error(ResponseError::new(
        ErrorCode::ParseError,
        "Parse error",
    )));
    assert!(matches!(await_response(&id, arrives(nobody)), WaitStep::Waiting));

    let correct = Message::Response(Response::ok(42, value(r#""correct""#)));
    match await_response(&id, arrives(correct)) {
        WaitStep::Done(result) => {
            assert_eq!(result.id, Some(42.into()));
            assert_eq!(result.result().cloned(), Some(value(r#""correct""#)));
        }
        other => panic!("expected response, got {other:?}"),
    }
}

#[test]
fn test_send_request_with_error_response() {
    let error_resp = Message::Response(Response::err(
        1,
        ResponseError::new(ErrorCode::MethodNotFound, "Not supported"),
    ));
    match await_response(&1.into(), arrives(error_resp)) {
        WaitStep::Done(result) => {
            assert_eq!(result.id, Some(1.into()));
            assert!(result.error().is_some());
            assert_eq!(
                result.into_error().unwrap().code,
                i32::from(ErrorCode::MethodNotFound)
            );
        }
        other => panic!("expected response, got {other:?}"),
    }
}

#[test]
fn test_send_request_with_string_id() {
    let (mut server, mut outbound) = connection::<()>();
    server.send_request("req-abc".into(), "test", None).unwrap();
    let req = outbound.try_recv().unwrap().into_request().unwrap();
    assert_eq!(req.id, RequestId::String("req-abc".to_string()));

    let response = Message::Response(Response::ok("req-abc", value(r#""ok""#)));
    match await_response(&req.id, arrives(response)) {
        WaitStep::Done(result) => {
            assert_eq!(result.id, Some(RequestId::String("req-abc".to_string())));
        }
        other => panic!("expected response, got {other:?}"),
    }
}
