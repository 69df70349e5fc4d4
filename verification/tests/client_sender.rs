use lsp_server_tokio::client_sender::{finish_request, PendingResponseGuard, ReplyOutcome};
use lsp_server_tokio::{
    CancellationToken, ClientSender, Connection, IncomingMessage, Message, ProtocolError, Request,
    RequestId, Response, ResponseMap, SendError,
};
use tokio::sync::mpsc;
use tokio::sync::oneshot::error::TryRecvError;

/// The JSON value that `text` holds.
fn value(text: &str) -> serde_json::Value {
    serde_json::from_str(text).unwrap()
}

/// A sender, and the receiving side of its queue.
fn sender() -> (ClientSender, mpsc::UnboundedReceiver<Message>) {
    let (tx, rx) = mpsc::unbounded_channel();
    (ClientSender::new(tx, CancellationToken::new()), rx)
}

/// A connection, a sender of it, and the receiving side of their queue.
fn server() -> (Connection<()>, ClientSender, mpsc::UnboundedReceiver<Message>) {
    let (tx, rx) = mpsc::unbounded_channel();
    let mut server = Connection::new(tx, CancellationToken::new());
    let sender = server.client_sender();
    (server, sender, rx)
}

/// The pending requests of the connection's senders.
fn responses(server: &mut Connection<()>) -> &mut ResponseMap {
    server.response_map.as_mut().unwrap()
}

/// The request that is next in the queue.
fn next_request(outbound: &mut mpsc::UnboundedReceiver<Message>) -> Request {
    match outbound.try_recv().unwrap() {
        Message::Request(request) => request,
        other => panic!("expected request, got {other:?}"),
    }
}

/// The JSON string `text`.
fn text(text: &str) -> serde_json::Value {
    serde_json::Value::String(text.to_string())
}

#[test]
fn client_sender_notify_sends_notification() {
    let (mut sender, mut outbound) = sender();

    sender
        .notify("window/logMessage", Some(value(r#"{"type": 4}"#)))
        .unwrap();

    match outbound.try_recv().unwrap() {
        Message::Notification(notification) => {
            assert_eq!(notification.jsonrpc, "2.0");
            assert_eq!(notification.method, "window/logMessage");
            assert_eq!(notification.params, Some(value(r#"{"type": 4}"#)));
        }
        other => panic!("expected notification, got {other:?}"),
    }
}

#[test]
fn client_sender_respond_sends_response() {
    let (mut sender, mut outbound) = sender();

    sender.respond(Response::ok(7, value(r#""ok""#))).unwrap();

    match outbound.try_recv().unwrap() {
        Message::Response(response) => {
            assert_eq!(response.id, Some(7.into()));
            assert_eq!(response.result().cloned(), Some(value(r#""ok""#)));
        }
        other => panic!("expected response, got {other:?}"),
    }
}

#[test]
fn client_sender_request_auto_id() {
    let (mut server, mut sender, mut outbound) = server();

    let mut first = sender.request(responses(&mut server), "first", None).unwrap();
    let first_request = next_request(&mut outbound);
    assert_eq!(first_request.method, "first");
    let first_id = first_request.id;
    assert_eq!(first_id, RequestId::Integer(1));

    let mut second = sender.request(responses(&mut server), "second", None).unwrap();
    let second_request = next_request(&mut outbound);
    assert_eq!(second_request.method, "second");
    let second_id = second_request.id;
    assert_eq!(second_id, RequestId::Integer(2));

    assert!(matches!(
        server.route(Message::Response(Response::ok(first_id.clone(), text("first")))),
        IncomingMessage::ResponseRouted
    ));
    assert!(matches!(
        server.route(Message::Response(Response::ok(second_id.clone(), text("second")))),
        IncomingMessage::ResponseRouted
    ));

    assert_eq!(first.receiver.try_recv().unwrap().id, Some(first_id));
    assert_eq!(second.receiver.try_recv().unwrap().id, Some(second_id));
}

#[test]
fn client_sender_request_gets_response() {
    let (mut server, mut sender, mut outbound) = server();

    let params = Some(value(r#"{"items": []}"#));
    let mut pending = sender
        .request(responses(&mut server), "workspace/configuration", params)
        .unwrap();
    let request = next_request(&mut outbound);
    assert_eq!(request.method, "workspace/configuration");
    assert_eq!(request.params, Some(value(r#"{"items": []}"#)));

    let reply = Response::ok(request.id.clone(), value(r#"{"settings": []}"#));
    let routed = server.route(Message::Response(reply));
    assert!(matches!(routed, IncomingMessage::ResponseRouted));

    let received = ReplyOutcome::Received(pending.receiver.try_recv().unwrap());
    let response =
        finish_request(&mut pending.guard, responses(&mut server), received).unwrap();
    assert_eq!(response.id, Some(request.id));
    assert_eq!(response.result().cloned(), Some(value(r#"{"settings": []}"#)));
}

#[test]
fn client_sender_concurrent_requests() {
    let (mut server, mut sender, mut outbound) = server();

    let mut pending = Vec::new();
    for method in ["first", "second", "third"] {
        pending.push((method, sender.request(responses(&mut server), method, None).unwrap()));
    }
    let mut requests = Vec::new();
    for _ in 0..3 {
        requests.push(next_request(&mut outbound));
    }

    for request in [requests[2].clone(), requests[0].clone(), requests[1].clone()] {
        let reply = Response::ok(request.id.clone(), text(&request.method));
        assert!(matches!(
            server.route(Message::Response(reply)),
            IncomingMessage::ResponseRouted
        ));
    }

    for (method, mut pending) in pending {
        let response = pending.receiver.try_recv().unwrap();
        assert_eq!(response.result().cloned(), Some(text(method)));
    }
}

#[test]
fn route_delivers_to_response_map() {
    let (mut server, mut sender, mut outbound) = server();

    let mut pending = sender.request(responses(&mut server), "test", None).unwrap();
    let request_id = next_request(&mut outbound).id;

    let routed = server.route(Message::Response(Response::ok(request_id.clone(), value("true"))));
    assert!(matches!(routed, IncomingMessage::ResponseRouted));

    assert_eq!(pending.receiver.try_recv().unwrap().id, Some(request_id));
}

#[test]
fn route_response_map_takes_priority() {
    let (mut server, mut sender, mut outbound) = server();

    let mut pending = sender.request(responses(&mut server), "test", None).unwrap();
    let request_id = next_request(&mut outbound).id;
    let _outgoing_rx = server.request_queue.outgoing.register(request_id.clone());

    let reply = Response::ok(request_id.clone(), text("response-map"));
    let routed = server.route(Message::Response(reply));
    assert!(matches!(routed, IncomingMessage::ResponseRouted));
    assert!(server.request_queue.outgoing.is_pending(&request_id));

    let response = pending.receiver.try_recv().unwrap();
    assert_eq!(response.result().cloned(), Some(text("response-map")));
}

#[test]
fn client_sender_request_timeout() {
    let (mut sender, _outbound) = sender();
    let mut responses = ResponseMap::new();
    let mut pending = sender
        .request(&mut responses, "workspace/configuration", None)
        .unwrap();
    assert_eq!(responses.pending_count(), 1);

    let result = finish_request(&mut pending.guard, &mut responses, ReplyOutcome::TimedOut);
    assert!(matches!(result, Err(ProtocolError::RequestTimeout)));
    assert_eq!(responses.pending_count(), 0);
}

#[test]
fn client_sender_request_disconnected() {
    let (mut sender, outbound) = sender();
    let mut responses = ResponseMap::new();

    // The transport stops while the response is awaited.
    let mut pending = sender.request(&mut responses, "test", None).unwrap();
    let result = finish_request(&mut pending.guard, &mut responses, ReplyOutcome::Stopped);
    assert!(matches!(result, Err(ProtocolError::Disconnected)));
    assert_eq!(responses.pending_count(), 0);

    // The request is dropped while the response is awaited.
    let mut pending = sender.request(&mut responses, "test", None).unwrap();
    responses.cancel_all();
    assert!(matches!(pending.receiver.try_recv(), Err(TryRecvError::Closed)));
    let result = finish_request(&mut pending.guard, &mut responses, ReplyOutcome::Dropped);
    assert!(matches!(result, Err(ProtocolError::Disconnected)));

    // The queue is closed before the request is sent.
    drop(outbound);
    let result = sender.request(&mut responses, "test", None);
    assert!(matches!(result, Err(ProtocolError::Disconnected)));
    assert_eq!(responses.pending_count(), 0);
}

#[test]
fn client_sender_notify_after_close() {
    let (mut sender, outbound) = sender();
    drop(outbound);
    let err: SendError = sender.notify("window/logMessage", None).unwrap_err();
    assert_eq!(err.to_string(), "connection closed");
    assert!(sender.respond(Response::ok(1, value("null"))).is_err());
}

#[test]
fn client_sender_request_timeout_does_not_swallow_late_response() {
    let (mut server, mut sender, mut outbound) = server();
    let mut pending = sender.request(responses(&mut server), "late-response", None).unwrap();
    let request_id = next_request(&mut outbound).id;

    let result =
        finish_request(&mut pending.guard, responses(&mut server), ReplyOutcome::TimedOut);
    assert!(matches!(result, Err(ProtocolError::RequestTimeout)));

    let routed = server.route(Message::Response(Response::ok(request_id.clone(), value("true"))));
    match routed {
        IncomingMessage::ResponseUnknown(response) => {
            assert_eq!(response.id, Some(request_id));
        }
        other => panic!("late response should not be swallowed after timeout, got {other:?}"),
    }
}

#[test]
fn client_sender_aborted_request_does_not_swallow_late_response() {
    let (mut server, mut sender, mut outbound) = server();
    let mut pending = sender.request(responses(&mut server), "aborted", None).unwrap();
    let request_id = next_request(&mut outbound).id;

    pending.guard.release(responses(&mut server));

    let routed = server.route(Message::Response(Response::ok(request_id.clone(), value("true"))));
    match routed {
        IncomingMessage::ResponseUnknown(response) => {
            assert_eq!(response.id, Some(request_id));
        }
        other => panic!("late response should not be swallowed after abort, got {other:?}"),
    }
}

#[test]
fn client_sender_wraparound_does_not_reuse_pending_id() {
    let (tx, mut outbound) = mpsc::unbounded_channel();
    let drain_alive = CancellationToken::new();
    let mut server: Connection<()> = Connection::new(tx.clone(), drain_alive.clone());
    let _ = server.client_sender();
    let mut sender = ClientSender::with_first_id(tx, drain_alive, i32::MAX);

    let mut first_rx = responses(&mut server).register(RequestId::Integer(1));
    let first_id = RequestId::Integer(1);
    let _first = sender
        .send_registered_request(responses(&mut server), first_id, "first", None)
        .unwrap();
    let first_request = next_request(&mut outbound);
    assert_eq!(first_request.id, RequestId::Integer(1));

    let mut max = sender.request(responses(&mut server), "max", None).unwrap();
    let mut wrapped = sender.request(responses(&mut server), "wrapped", None).unwrap();
    let second_request = next_request(&mut outbound);
    let third_request = next_request(&mut outbound);

    assert_ne!(second_request.id, first_request.id);
    assert_ne!(
        third_request.id, first_request.id,
        "wrapped request reused an active pending id"
    );
    assert_ne!(second_request.id, third_request.id);
    assert_eq!(second_request.id, RequestId::Integer(i32::MAX));
    // 1 is still pending, so it is passed over.
    assert_eq!(third_request.id, RequestId::Integer(2));

    for (request, result) in [
        (&first_request, "first"),
        (&second_request, "second"),
        (&third_request, "third"),
    ] {
        let reply = Response::ok(request.id.clone(), text(result));
        assert!(matches!(
            server.route(Message::Response(reply)),
            IncomingMessage::ResponseRouted
        ));
    }

    assert_eq!(first_rx.try_recv().unwrap().result().cloned(), Some(text("first")));
    assert_eq!(max.receiver.try_recv().unwrap().result().cloned(), Some(text("second")));
    assert_eq!(wrapped.receiver.try_recv().unwrap().result().cloned(), Some(text("third")));
}

#[test]
fn a_reserved_slot_leaves_the_others_and_gets_its_response() {
    let (tx, _outbound) = mpsc::unbounded_channel();
    let mut sender = ClientSender::with_first_id(tx, CancellationToken::new(), i32::MAX);
    let mut responses = ResponseMap::new();
    let mut named = responses.register(RequestId::from("other"));
    let mut negative = responses.register(RequestId::Integer(-1));
    let mut last = responses.register(RequestId::Integer(i32::MAX));

    let (id, mut reserved) = sender.reserve_request_slot(&mut responses);
    assert_eq!(id, RequestId::Integer(1));
    assert_eq!(responses.pending_count(), 4);

    assert!(responses.deliver(&id, Response::ok(id.clone(), value("10"))));
    assert_eq!(reserved.try_recv().unwrap().result().cloned(), Some(value("10")));
    assert!(!responses.is_pending(&id));

    for (other, receiver) in [
        (RequestId::from("other"), &mut named),
        (RequestId::Integer(-1), &mut negative),
        (RequestId::Integer(i32::MAX), &mut last),
    ] {
        assert!(matches!(receiver.try_recv(), Err(TryRecvError::Empty)));
        assert!(responses.deliver(&other, Response::ok(other.clone(), value("11"))));
        assert_eq!(receiver.try_recv().unwrap().result().cloned(), Some(value("11")));
    }
}

#[test]
fn ids_wrap_to_one() {
    let (tx, _outbound) = mpsc::unbounded_channel();
    let mut sender = ClientSender::with_first_id(tx, CancellationToken::new(), i32::MAX - 1);
    assert_eq!(sender.next_id(), RequestId::Integer(2147483646));
    assert_eq!(sender.next_id(), RequestId::Integer(2147483647));
    assert_eq!(sender.next_id(), RequestId::Integer(1));
    assert_eq!(sender.next_id(), RequestId::Integer(2));
}

#[test]
fn client_sender_timeout_preserves_other_pending_requests() {
    let (mut server, mut sender, mut outbound) = server();
    let mut timed_out = sender.request(responses(&mut server), "timeout", None).unwrap();
    let mut live = sender.request(responses(&mut server), "ok", None).unwrap();
    let timed_out_id = next_request(&mut outbound).id;
    let live_id = next_request(&mut outbound).id;

    let result =
        finish_request(&mut timed_out.guard, responses(&mut server), ReplyOutcome::TimedOut);
    assert!(matches!(result, Err(ProtocolError::RequestTimeout)));

    let reply = Response::ok(live_id.clone(), text("ok"));
    assert!(matches!(
        server.route(Message::Response(reply)),
        IncomingMessage::ResponseRouted
    ));
    let response = live.receiver.try_recv().unwrap();
    assert_eq!(response.result().cloned(), Some(text("ok")));

    let late = Response::ok(timed_out_id.clone(), text("late"));
    let routed = server.route(Message::Response(late));
    assert!(matches!(routed, IncomingMessage::ResponseUnknown(_)));
}

#[test]
fn response_map_cancel_ignores_unknown_id() {
    let mut response_map = ResponseMap::new();

    assert!(!response_map.cancel(&RequestId::Integer(404)));
    assert!(!response_map.deliver(&RequestId::Integer(404), Response::ok(404, value("null"))));
}

#[test]
fn try_register_refuses_a_pending_id() {
    let mut responses = ResponseMap::default();
    let mut first = responses.try_register(3.into()).unwrap();
    assert!(responses.try_register(3.into()).is_none());
    assert!(responses.is_pending(&3.into()));
    assert!(responses.deliver(&3.into(), Response::ok(3, value("1"))));
    assert_eq!(first.try_recv().unwrap().into_result(), Some(value("1")));
    assert!(responses.try_register(3.into()).is_some());
}

#[test]
fn dropped_requests_give_their_receivers_an_error() {
    let mut responses = ResponseMap::new();
    let mut cancelled = responses.register(1.into());
    let mut first = responses.register("a".into());
    let mut replaced = responses.register(2.into());
    let mut second = responses.register(2.into());

    assert!(matches!(replaced.try_recv(), Err(TryRecvError::Closed)));
    assert!(responses.cancel(&1.into()));
    assert!(matches!(cancelled.try_recv(), Err(TryRecvError::Closed)));
    assert!(matches!(first.try_recv(), Err(TryRecvError::Empty)));
    assert!(matches!(second.try_recv(), Err(TryRecvError::Empty)));

    responses.cancel_all();
    assert_eq!(responses.pending_count(), 0);
    assert!(matches!(first.try_recv(), Err(TryRecvError::Closed)));
    assert!(matches!(second.try_recv(), Err(TryRecvError::Closed)));
}

#[test]
fn a_disarmed_guard_keeps_the_request() {
    let mut responses = ResponseMap::new();
    let mut rx = responses.register(1.into());
    let mut guard = PendingResponseGuard::new(1.into());
    guard.disarm();
    guard.release(&mut responses);
    assert!(responses.is_pending(&1.into()));
    assert!(matches!(rx.try_recv(), Err(TryRecvError::Empty)));

    let mut guard = PendingResponseGuard::new(1.into());
    guard.release(&mut responses);
    assert!(!responses.is_pending(&1.into()));
    assert!(matches!(rx.try_recv(), Err(TryRecvError::Closed)));
}

#[test]
fn the_drain_token_is_handed_on() {
    let (tx, _outbound) = mpsc::unbounded_channel();
    let drain = CancellationToken::new();
    let sender = ClientSender::new(tx, drain.clone());
    assert!(!sender.drain_alive().is_cancelled());
    drain.cancel();
    assert!(sender.drain_alive().is_cancelled());
}

#[test]
fn a_queue_that_refused_a_message_takes_none() {
    let (tx, outbound) = mpsc::unbounded_channel();
    let mut first = ClientSender::new(tx.clone(), CancellationToken::new());
    assert!(first.notify("taken", None).is_ok());
    drop(outbound);
    assert!(first.notify("refused", None).is_err());
    assert!(first.notify("refused again", None).is_err());
    assert!(first.respond(Response::ok(1, value("null"))).is_err());

    // Another handle to the queue is refused too.
    let mut second = ClientSender::new(tx, CancellationToken::new());
    assert!(second.notify("refused as well", None).is_err());
}
