use lsp_server_tokio::{
    parse_cancel_params, CancellationToken, IncomingRequests, OutgoingRequests, RequestId, RequestQueue,
};

/// The JSON value that `text` holds.
fn value(text: &str) -> serde_json::Value {
    serde_json::from_str(text).unwrap()
}



// ============== IncomingRequests Tests ==============

#[test]
fn incoming_register_and_complete() {
    let mut incoming: IncomingRequests<String> = IncomingRequests::new();

    incoming.register(1.into(), "metadata".to_string(), CancellationToken::new());
    let data = incoming.complete(&1.into());

    assert_eq!(data, Some("metadata".to_string()));
    assert!(!incoming.is_pending(&1.into()));
}

#[test]
fn incoming_complete_unknown_returns_none() {
    let mut incoming: IncomingRequests<String> = IncomingRequests::new();

    let data = incoming.complete(&999.into());
    assert_eq!(data, None);
}

#[test]
fn incoming_is_pending() {
    let mut incoming: IncomingRequests<()> = IncomingRequests::new();

    assert!(!incoming.is_pending(&1.into()));

    incoming.register(1.into(), (), CancellationToken::new());
    assert!(incoming.is_pending(&1.into()));

    incoming.complete(&1.into());
    assert!(!incoming.is_pending(&1.into()));
}

#[test]
fn incoming_pending_count() {
    let mut incoming: IncomingRequests<i32> = IncomingRequests::new();

    assert_eq!(incoming.pending_count(), 0);

    incoming.register(1.into(), 100, CancellationToken::new());
    assert_eq!(incoming.pending_count(), 1);

    incoming.register(2.into(), 200, CancellationToken::new());
    assert_eq!(incoming.pending_count(), 2);

    incoming.complete(&1.into());
    assert_eq!(incoming.pending_count(), 1);

    incoming.complete(&2.into());
    assert_eq!(incoming.pending_count(), 0);
}

#[test]
fn incoming_default() {
    let incoming: IncomingRequests<()> = IncomingRequests::default();
    assert_eq!(incoming.pending_count(), 0);
}

// ============== OutgoingRequests Tests ==============

#[test]
fn outgoing_register_and_complete() {
    let mut outgoing: OutgoingRequests<String> = OutgoingRequests::new();
    let mut rx = outgoing.register(1.into());

    assert!(outgoing.complete(&1.into(), "response".to_string()));
    assert_eq!(rx.try_recv().unwrap(), "response");
}

#[test]
fn outgoing_complete_unknown_returns_false() {
    let mut outgoing: OutgoingRequests<String> = OutgoingRequests::new();

    let result = outgoing.complete(&999.into(), "response".to_string());
    assert!(!result);
}

#[test]
fn outgoing_cancel_drops_sender() {
    let mut outgoing: OutgoingRequests<String> = OutgoingRequests::new();
    let rx = outgoing.register(1.into());

    assert!(outgoing.cancel(&1.into()));
    assert!(!outgoing.is_pending(&1.into()));

    // Receiver should get an error since sender was dropped
    assert!(rx.blocking_recv().is_err());
}

#[test]
fn outgoing_cancel_unknown_returns_false() {
    let mut outgoing: OutgoingRequests<String> = OutgoingRequests::new();

    assert!(!outgoing.cancel(&999.into()));
}

#[test]
fn outgoing_is_pending() {
    let mut outgoing: OutgoingRequests<()> = OutgoingRequests::new();

    assert!(!outgoing.is_pending(&1.into()));

    let _rx = outgoing.register(1.into());
    assert!(outgoing.is_pending(&1.into()));

    outgoing.complete(&1.into(), ());
    assert!(!outgoing.is_pending(&1.into()));
}

#[test]
fn outgoing_pending_count() {
    let mut outgoing: OutgoingRequests<i32> = OutgoingRequests::new();

    assert_eq!(outgoing.pending_count(), 0);

    let _rx1 = outgoing.register(1.into());
    assert_eq!(outgoing.pending_count(), 1);

    let _rx2 = outgoing.register(2.into());
    assert_eq!(outgoing.pending_count(), 2);

    outgoing.complete(&1.into(), 100);
    assert_eq!(outgoing.pending_count(), 1);

    outgoing.cancel(&2.into());
    assert_eq!(outgoing.pending_count(), 0);
}

#[test]
fn outgoing_default() {
    let outgoing: OutgoingRequests<()> = OutgoingRequests::default();
    assert_eq!(outgoing.pending_count(), 0);
}

// ============== RequestQueue Tests ==============

#[test]
fn queue_new_creates_empty() {
    let queue: RequestQueue<(), ()> = RequestQueue::new();

    assert_eq!(queue.incoming.pending_count(), 0);
    assert_eq!(queue.outgoing.pending_count(), 0);
}

#[test]
fn queue_incoming_outgoing_independent() {
    let mut queue: RequestQueue<String, String> = RequestQueue::new();

    // Register on incoming
    queue.incoming.register(1.into(), "incoming".to_string(), CancellationToken::new());
    assert_eq!(queue.incoming.pending_count(), 1);
    assert_eq!(queue.outgoing.pending_count(), 0);

    // Register on outgoing
    let _rx = queue.outgoing.register(2.into());
    assert_eq!(queue.incoming.pending_count(), 1);
    assert_eq!(queue.outgoing.pending_count(), 1);

    // Complete incoming doesn't affect outgoing
    queue.incoming.complete(&1.into());
    assert_eq!(queue.incoming.pending_count(), 0);
    assert_eq!(queue.outgoing.pending_count(), 1);
}

#[test]
fn queue_default() {
    let queue: RequestQueue<(), ()> = RequestQueue::default();
    assert_eq!(queue.incoming.pending_count(), 0);
    assert_eq!(queue.outgoing.pending_count(), 0);
}

#[test]
fn queue_with_string_request_id() {
    let mut queue: RequestQueue<i32, i32> = RequestQueue::new();

    let str_id: RequestId = "abc-123".into();
    queue.incoming.register(str_id.clone(), 42, CancellationToken::new());

    assert!(queue.incoming.is_pending(&str_id));
    assert_eq!(queue.incoming.complete(&str_id), Some(42));
}

// ============== Cancellation ==============

#[test]
fn cancel_triggers_only_the_named_request() {
    let mut incoming: IncomingRequests<i32> = IncomingRequests::new();
    let first = CancellationToken::new();
    let second = CancellationToken::new();
    incoming.register(1.into(), 10, first.clone());
    incoming.register(2.into(), 20, second.clone());

    assert!(incoming.cancel(&2.into()));
    assert!(!first.is_cancelled());
    assert!(second.is_cancelled());

    // The request stays pending, with its metadata.
    assert_eq!(incoming.pending_count(), 2);
    assert_eq!(incoming.complete(&2.into()), Some(20));
    assert!(!incoming.cancel(&2.into()));
}

#[test]
fn get_token_gives_a_handle_to_the_same_token() {
    let mut incoming: IncomingRequests<()> = IncomingRequests::new();
    let token = CancellationToken::new();
    incoming.register("a".into(), (), token.clone());

    let handle = incoming.get_token(&"a".into()).unwrap();
    assert!(!handle.is_cancelled());
    token.cancel();
    assert!(handle.is_cancelled());
    assert!(incoming.get_token(&"b".into()).is_none());
}

#[test]
fn registering_again_replaces_the_request() {
    let mut incoming: IncomingRequests<i32> = IncomingRequests::new();
    incoming.register(1.into(), 10, CancellationToken::new());
    incoming.register(1.into(), 11, CancellationToken::new());
    assert_eq!(incoming.pending_count(), 1);
    assert_eq!(incoming.complete(&1.into()), Some(11));

    let mut outgoing: OutgoingRequests<i32> = OutgoingRequests::new();
    let first = outgoing.register(1.into());
    let mut second = outgoing.register(1.into());
    assert!(outgoing.complete(&1.into(), 5));
    assert!(first.blocking_recv().is_err());
    assert_eq!(second.try_recv().unwrap(), 5);
}

#[test]
fn integer_and_string_ids_are_tracked_apart() {
    let mut incoming: IncomingRequests<i32> = IncomingRequests::new();
    incoming.register(1.into(), 10, CancellationToken::new());
    incoming.register("1".into(), 20, CancellationToken::new());
    assert_eq!(incoming.pending_count(), 2);
    assert_eq!(incoming.complete(&"1".into()), Some(20));
    assert_eq!(incoming.complete(&1.into()), Some(10));
}

#[test]
fn complete_is_true_when_the_receiver_is_gone() {
    let mut outgoing: OutgoingRequests<i32> = OutgoingRequests::new();
    let rx = outgoing.register(1.into());
    drop(rx);
    assert!(outgoing.complete(&1.into(), 5));
    assert!(!outgoing.is_pending(&1.into()));
}

// ============== Cancel params ==============

#[test]
fn cancel_params_name_an_integer_or_a_string() {
    assert_eq!(parse_cancel_params(&Some(value(r#"{"id": 42}"#))), Some(42.into()));
    assert_eq!(parse_cancel_params(&Some(value(r#"{"id": -7}"#))), Some((-7).into()));
    assert_eq!(parse_cancel_params(&Some(value(r#"{"id": "abc"}"#))), Some("abc".into()));
}

#[test]
fn cancel_params_without_an_id_name_nothing() {
    assert_eq!(parse_cancel_params(&None), None);
    assert_eq!(parse_cancel_params(&Some(value("null"))), None);
    assert_eq!(parse_cancel_params(&Some(value("[1]"))), None);
    assert_eq!(parse_cancel_params(&Some(value(r#"{"other": "field"}"#))), None);
    assert_eq!(parse_cancel_params(&Some(value(r#"{"id": null}"#))), None);
    assert_eq!(parse_cancel_params(&Some(value(r#"{"id": 1.5}"#))), None);
    assert_eq!(parse_cancel_params(&Some(value(r#"{"id": 2147483648}"#))), None);
}
