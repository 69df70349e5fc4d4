//! What calls on a connection come to: routing, the opening and the end of a session.

use vstd::prelude::*;

verus! {

use crate::channel::{outbox, was_dropped, was_sent};
use crate::client_sender::ClientSender;
use crate::connection::{
    await_response, initialize_result, Connection, Inbound, InitializeStep, TimedInbound, WaitStep,
};
use crate::io_error::{io_error_kind, io_error_text, IoKind};
use crate::json::{json, json_in, JsonView};
use crate::laws::requests::{
    is_request, one_was_refused, one_was_sent, only_this_was_cancelled, same_elsewhere,
};
use crate::lifecycle::{ExitCode, LifecycleState, ProtocolError};
use crate::message::{
    id_holds, BodyView, Message, MessageView, Notification, Request, Response, ResponseBody,
};
use crate::request_id::{strings_and_integers_are_ids, IdView, RequestId};
use crate::request_queue::{cancel_target, RequestQueue};
use crate::routing::{cancelled_response, method_not_found_response, IncomingMessage};
use crate::token::token_view;
use serde_json::Value;
use tokio::sync::mpsc::UnboundedSender;
use tokio_util::sync::CancellationToken;

/// No token of the session was cancelled, and no handle was given out through which one could have
/// been.
pub open spec fn same_session_tokens<I>(before: Connection<I>, after: Connection<I>) -> bool {
    &&& after.shutdown() == before.shutdown()
    &&& after.drain() == before.drain()
    &&& after.session.shutdown_handle() == before.session.shutdown_handle()
    &&& after.session.drain_handle() == before.session.drain_handle()
}

/// Nothing was sent, and no state and no token of the session changed.
pub open spec fn same_session<I>(before: Connection<I>, after: Connection<I>) -> bool {
    &&& after.outbox() == before.outbox()
    &&& after.state() == before.state()
    &&& same_session_tokens(before, after)
}

/// No state and no token of the session changed; messages may have been sent.
pub open spec fn same_lifecycle<I>(before: Connection<I>, after: Connection<I>) -> bool {
    &&& after.state() == before.state()
    &&& same_session_tokens(before, after)
}

/// The same requests await a response from the client.
pub open spec fn same_outgoing<I>(before: Connection<I>, after: Connection<I>) -> bool {
    &&& after.request_queue.outgoing@ == before.request_queue.outgoing@
    &&& match (before.response_map, after.response_map) {
        (Some(a), Some(b)) => a@ == b@,
        (None, None) => true,
        _ => false,
    }
}

/// The same requests are pending, in both directions.
pub open spec fn same_pending<I>(before: Connection<I>, after: Connection<I>) -> bool {
    &&& same_outgoing(before, after)
    &&& after.request_queue.incoming@ == before.request_queue.incoming@
}

/// A request is handed on as it is, with a token of its own that is cancelled with the shutdown
/// token, and not cancelled before. It is pending then, under its id; other requests and the session
/// are not touched.
pub proof fn request_is_routed<I: Default>(
    connection: &mut Connection<I>,
    request: Request,
    r: IncomingMessage,
)
    requires
        call_ensures(Connection::<I>::route, (connection, Message::Request(request)), r),
    ensures
        r matches IncomingMessage::Request(got, token) && {
            &&& got == request
            &&& token_view(token).parent == Some(old(connection).shutdown().node)
            &&& token_view(token).cancelled <==> old(connection).shutdown().cancelled
            &&& final(connection).request_queue.incoming@.contains_key(request.id@)
            &&& token_view(final(connection).request_queue.incoming@[request.id@].1) == token_view(
                token,
            )
        },
        same_elsewhere(
            old(connection).request_queue.incoming@,
            request.id@,
            final(connection).request_queue.incoming@,
        ),
        same_outgoing(*old(connection), *final(connection)),
        same_session(*old(connection), *final(connection)),
{
}

/// A notification is handed on as it is, and nothing changes, unless it is a `$/cancelRequest`.
pub proof fn notification_is_routed<I: Default>(
    connection: &mut Connection<I>,
    notification: Notification,
    r: IncomingMessage,
)
    requires
        call_ensures(Connection::<I>::route, (connection, Message::Notification(notification)), r),
        notification.method@ != "$/cancelRequest"@,
    ensures
        r == IncomingMessage::Notification(notification),
        same_pending(*old(connection), *final(connection)),
        same_session(*old(connection), *final(connection)),
{
}

/// The request that the params of a cancel request name.
pub open spec fn names_request(params: Option<Value>, id: IdView) -> bool {
    params matches Some(v) && (json(v) matches JsonView::Object(o) && o.contains_key("id"@)
        && id_holds(id, o["id"@]))
}

/// A `$/cancelRequest` is handled. It cancels the token of the request that its params name, if that
/// is pending. The tokens of other requests and the shutdown token are left as they are, and nothing
/// is sent. If the params name no request, nothing changes.
pub proof fn cancel_request_is_routed<I: Default>(
    connection: &mut Connection<I>,
    notification: Notification,
    r: IncomingMessage,
)
    requires
        call_ensures(Connection::<I>::route, (connection, Message::Notification(notification)), r),
        notification.method@ == "$/cancelRequest"@,
    ensures
        r is CancelHandled,
        forall|id: IdView| #[trigger]
            names_request(notification.params, id) ==> only_this_was_cancelled(
                old(connection).request_queue.incoming@,
                id,
                final(connection).request_queue.incoming@,
            ),
        (forall|id: IdView| !#[trigger] names_request(notification.params, id)) ==> same_pending(
            *old(connection),
            *final(connection),
        ),
        same_outgoing(*old(connection), *final(connection)),
        same_session(*old(connection), *final(connection)),
{
    lemma_cancel_target(notification.params);
}

/// Params name at most one request.
proof fn lemma_cancel_target(params: Option<Value>)
    ensures
        forall|id: IdView| #[trigger]
            names_request(params, id) <==> cancel_target(json_in(params)) == Some(id),
        cancel_target(json_in(params)) matches Some(id) ==> names_request(params, id),
{
    if let Some(v) = params {
        if let JsonView::Object(o) = json(v) {
            if o.contains_key("id"@) {
                strings_and_integers_are_ids(o["id"@]);
            }
        }
    }
}

/// A `$/cancelRequest` does not reach beyond the request that it names: a request that is routed
/// after it comes with a token that is not cancelled, unless shutdown was requested before, and a
/// request that was pending under another id still has the token it had.
pub proof fn cancel_request_does_not_reach_other_requests<I: Default>(
    connection: &mut Connection<I>,
    notification: Notification,
    handled: IncomingMessage,
    next: &mut Connection<I>,
    request: Request,
    r: IncomingMessage,
    other: IdView,
)
    requires
        call_ensures(
            Connection::<I>::route,
            (connection, Message::Notification(notification)),
            handled,
        ),
        notification.method@ == "$/cancelRequest"@,
        *old(next) == *final(connection),
        call_ensures(Connection::<I>::route, (next, Message::Request(request)), r),
        other != request.id@,
        !names_request(notification.params, other),
        old(connection).request_queue.incoming@.contains_key(other),
    ensures
        r matches IncomingMessage::Request(_, token) && (token_view(token).cancelled
            <==> old(connection).shutdown().cancelled),
        final(next).shutdown() == old(connection).shutdown(),
        final(next).request_queue.incoming@.contains_key(other),
        final(next).request_queue.incoming@[other] == old(connection).request_queue.incoming@[other],
{
    lemma_cancel_target(notification.params);
    cancel_request_is_routed(connection, notification, handled);
    request_is_routed(next, request, r);
}

/// A response goes to the request of a client sender that is pending under its id, or else to the
/// one of the request queue. That request is no longer pending then; no other one is touched. If
/// there is none, or the response has no id, it is handed back and nothing changes.
pub proof fn response_is_routed<I: Default>(
    connection: &mut Connection<I>,
    response: Response,
    r: IncomingMessage,
)
    requires
        call_ensures(Connection::<I>::route, (connection, Message::Response(response)), r),
    ensures
        response.id matches Some(id) ==> {
            let queue = old(connection).request_queue.outgoing@;
            let to_sender = old(connection).response_map matches Some(m) && m@.contains_key(id@);
            &&& to_sender ==> {
                let m = old(connection).response_map->0@;
                &&& r is ResponseRouted
                &&& was_sent(m[id@], response)
                &&& final(connection).response_map matches Some(n) && n@ == m.remove(id@)
                &&& final(connection).request_queue.outgoing@ == queue
            }
            &&& !to_sender && queue.contains_key(id@) ==> {
                &&& r is ResponseRouted
                &&& was_sent(queue[id@], response)
                &&& final(connection).request_queue.outgoing@ == queue.remove(id@)
                &&& match (old(connection).response_map, final(connection).response_map) {
                    (Some(a), Some(b)) => a@ == b@,
                    (None, None) => true,
                    _ => false,
                }
            }
            &&& !to_sender && !queue.contains_key(id@) ==> {
                &&& r == IncomingMessage::ResponseUnknown(response)
                &&& same_outgoing(*old(connection), *final(connection))
            }
        },
        response.id is None ==> r == IncomingMessage::ResponseUnknown(response) && same_outgoing(
            *old(connection),
            *final(connection),
        ),
        final(connection).request_queue.incoming@ == old(connection).request_queue.incoming@,
        same_session(*old(connection), *final(connection)),
{
}

/// The error of a queue that is closed.
pub open spec fn is_broken_pipe(e: std::io::Error) -> bool {
    io_error_kind(e) == Some(IoKind::BrokenPipe) && io_error_text(e) == Some("connection closed"@)
}

/// Sending puts one message into the queue, or none if the queue is closed, and changes nothing
/// else.
pub proof fn sending_sends_one_message<I>(
    connection: &mut Connection<I>,
    message: Message,
    r: Result<(), std::io::Error>,
)
    requires
        call_ensures(Connection::<I>::send, (connection, message), r),
    ensures
        r is Ok ==> one_was_sent(
            old(connection).outbox(),
            message@,
            final(connection).outbox(),
        ),
        r matches Err(e) ==> is_broken_pipe(e) && one_was_refused(
            old(connection).outbox(),
            final(connection).outbox(),
        ),
        old(connection).outbox().closed ==> r is Err,
        same_pending(*old(connection), *final(connection)),
        same_lifecycle(*old(connection), *final(connection)),
{
}

/// The answer to a request that comes too early: an error response with its id, the code -32002 and
/// the message that says so.
pub open spec fn is_not_initialized(m: MessageView, id: IdView) -> bool {
    m matches MessageView::Response(m) && {
        &&& m.jsonrpc == "2.0"@
        &&& m.id == Some(id)
        &&& m.body matches BodyView::Error(e) && e.code == -32002 && e.message
            == "Server not yet initialized"@ && e.data is None
    }
}

/// The one answer to a request that comes too early was sent, or refused.
pub open spec fn too_early_was_answered<I>(
    before: Connection<I>,
    id: IdView,
    after: Connection<I>,
    refused: Option<ProtocolError>,
) -> bool {
    match refused {
        None => exists|m: MessageView| #[trigger]
            is_not_initialized(m, id) && one_was_sent(before.outbox(), m, after.outbox()),
        Some(e) => (e matches ProtocolError::Io(io) && is_broken_pipe(io)) && one_was_refused(
            before.outbox(),
            after.outbox(),
        ),
    }
}

/// The session is opened by every request whose method is `initialize`, whatever its id and its
/// params are, and by no other message. The id and the params are handed on.
pub proof fn session_is_opened_by_initialize<I>(
    connection: &mut Connection<I>,
    inbound: Inbound,
    r: InitializeStep,
)
    requires
        call_ensures(Connection::<I>::initialize_start, (connection, inbound), r),
    ensures
        r is Initialize <==> (inbound matches Inbound::Message(Message::Request(req))
            && req.method@ == "initialize"@),
        r matches InitializeStep::Initialize(id, params) ==> (inbound matches Inbound::Message(
            Message::Request(req),
        ) && {
            &&& id == req.id
            &&& req.params matches Some(v) ==> json(params) == json(v)
            &&& req.params is None ==> json(params) == JsonView::Null
        }),
        r is Initialize ==> final(connection).state() == LifecycleState::Initializing
            && final(connection).outbox() == old(connection).outbox(),
        !(r is Initialize) ==> final(connection).state() == old(connection).state(),
        same_session_tokens(*old(connection), *final(connection)),
        same_pending(*old(connection), *final(connection)),
{
}

/// What comes before `initialize` does not open the session: another request is answered once with
/// an error, `exit` ends the wait, and so do a failure and the end of the stream. Everything else is
/// dropped without an answer.
pub proof fn nothing_else_opens_the_session<I>(
    connection: &mut Connection<I>,
    inbound: Inbound,
    r: InitializeStep,
)
    requires
        call_ensures(Connection::<I>::initialize_start, (connection, inbound), r),
    ensures
        inbound matches Inbound::Message(Message::Request(req)) ==> (req.method@ != "initialize"@
            ==> match r {
            InitializeStep::Waiting => too_early_was_answered(
                *old(connection),
                req.id@,
                *final(connection),
                None,
            ),
            InitializeStep::Failed(e) => too_early_was_answered(
                *old(connection),
                req.id@,
                *final(connection),
                Some(e),
            ),
            InitializeStep::Initialize(_, _) => false,
        }),
        inbound matches Inbound::Message(Message::Notification(n)) ==> r == (if n.method@
            == "exit"@ {
            InitializeStep::Failed(ProtocolError::Disconnected)
        } else {
            InitializeStep::Waiting
        }),
        inbound matches Inbound::Message(Message::Response(_)) ==> r is Waiting,
        inbound matches Inbound::Failed(e) ==> r == InitializeStep::Failed(ProtocolError::Io(e)),
        inbound is Closed ==> r == InitializeStep::Failed(ProtocolError::Disconnected),
        !(inbound matches Inbound::Message(Message::Request(_))) ==> final(connection).outbox()
            == old(connection).outbox(),
{
    if let Inbound::Message(Message::Request(req)) = inbound {
        if r is Waiting {
            let m = final(connection).outbox().accepted.last();
            assert(is_not_initialized(m, req.id@));
            assert(one_was_sent(old(connection).outbox(), m, final(connection).outbox()));
        }
    }
}

/// The handshake is ended by every notification whose method is `initialized`, and by no other
/// message. A request is answered once with an error, a failure, the end of the stream and the end
/// of the time fail the handshake, and everything else is dropped without an answer.
pub proof fn handshake_is_ended_by_initialized<I>(
    connection: &mut Connection<I>,
    inbound: TimedInbound,
    r: WaitStep<()>,
)
    requires
        call_ensures(Connection::<I>::initialize_finish, (connection, inbound), r),
    ensures
        r is Done <==> (inbound matches TimedInbound::Inbound(
            Inbound::Message(Message::Notification(n)),
        ) && n.method@ == "initialized"@),
        r is Done ==> final(connection).state() == LifecycleState::Running,
        !(r is Done) ==> final(connection).state() == old(connection).state(),
        inbound matches TimedInbound::Inbound(Inbound::Message(Message::Request(req))) ==> match r {
            WaitStep::Waiting => too_early_was_answered(
                *old(connection),
                req.id@,
                *final(connection),
                None,
            ),
            WaitStep::Failed(e) => too_early_was_answered(
                *old(connection),
                req.id@,
                *final(connection),
                Some(e),
            ),
            WaitStep::Done(_) => false,
        },
        inbound matches TimedInbound::Inbound(Inbound::Message(Message::Notification(n))) ==> (
        n.method@ != "initialized"@ ==> r is Waiting),
        inbound matches TimedInbound::Inbound(Inbound::Message(Message::Response(_)))
            ==> r is Waiting,
        inbound matches TimedInbound::Inbound(Inbound::Failed(e)) ==> r == WaitStep::<()>::Failed(
            ProtocolError::Io(e),
        ),
        inbound matches TimedInbound::Inbound(Inbound::Closed) ==> r == WaitStep::<()>::Failed(
            ProtocolError::Disconnected,
        ),
        inbound is TimedOut ==> r == WaitStep::<()>::Failed(ProtocolError::InitializeTimeout),
        !(inbound matches TimedInbound::Inbound(Inbound::Message(Message::Request(_))))
            ==> final(connection).outbox() == old(connection).outbox(),
        same_session_tokens(*old(connection), *final(connection)),
        same_pending(*old(connection), *final(connection)),
{
    if let TimedInbound::Inbound(Inbound::Message(Message::Request(req))) = inbound {
        if r is Waiting {
            let m = final(connection).outbox().accepted.last();
            assert(is_not_initialized(m, req.id@));
            assert(one_was_sent(old(connection).outbox(), m, final(connection).outbox()));
        }
    }
}

/// The response with this id and this result, of protocol version 2.0.
pub open spec fn is_success(m: MessageView, id: IdView, result: JsonView) -> bool {
    m matches MessageView::Response(m) && {
        &&& m.jsonrpc == "2.0"@
        &&& m.id == Some(id)
        &&& m.body == BodyView::Result(result)
    }
}

/// One success response was sent, or refused.
pub open spec fn success_was_sent<I>(
    before: Connection<I>,
    id: IdView,
    result: JsonView,
    after: Connection<I>,
    r: Result<(), ProtocolError>,
) -> bool {
    &&& match r {
        Ok(()) => exists|m: MessageView| #[trigger]
            is_success(m, id, result) && one_was_sent(before.outbox(), m, after.outbox()),
        Err(e) => (e matches ProtocolError::Io(io) && is_broken_pipe(io)) && one_was_refused(
            before.outbox(),
            after.outbox(),
        ),
    }
    &&& before.outbox().closed ==> r is Err
}

/// The result of `initialize` is sent once and as it is, and nothing else changes.
pub proof fn initialize_is_answered_once<I>(
    connection: &mut Connection<I>,
    id: RequestId,
    result: Value,
    r: Result<(), ProtocolError>,
)
    requires
        call_ensures(Connection::<I>::respond_initialize, (connection, id, result), r),
    ensures
        success_was_sent(*old(connection), id@, json(result), *final(connection), r),
        same_pending(*old(connection), *final(connection)),
        same_lifecycle(*old(connection), *final(connection)),
{
    if r is Ok {
        let m = final(connection).outbox().accepted.last();
        assert(is_success(m, id@, json(result)));
        assert(one_was_sent(old(connection).outbox(), m, final(connection).outbox()));
    }
}

/// The result of `initialize` is an object that holds the capabilities under that name, and nothing
/// else.
pub proof fn initialize_result_holds_the_capabilities(capabilities: Value, r: Value)
    requires
        call_ensures(initialize_result, (capabilities,), r),
    ensures
        json(r) matches JsonView::Object(o) && {
            &&& forall|k: Seq<char>| #[trigger] o.contains_key(k) <==> k == "capabilities"@
            &&& o["capabilities"@] == json(capabilities)
        },
{
}

/// Shutdown cancels the shutdown token, changes the state and answers once with `null`. The pending
/// requests stay.
pub proof fn shutdown_is_answered_once<I>(
    connection: &mut Connection<I>,
    id: RequestId,
    r: Result<(), ProtocolError>,
)
    requires
        call_ensures(Connection::<I>::handle_shutdown, (connection, id), r),
    ensures
        final(connection).shutdown().cancelled,
        final(connection).shutdown().node == old(connection).shutdown().node,
        final(connection).shutdown().parent == old(connection).shutdown().parent,
        final(connection).state() == LifecycleState::ShuttingDown,
        final(connection).drain() == old(connection).drain(),
        final(connection).session.drain_handle() == old(connection).session.drain_handle(),
        success_was_sent(*old(connection), id@, JsonView::Null, *final(connection), r),
        same_pending(*old(connection), *final(connection)),
{
    if r is Ok {
        let m = final(connection).outbox().accepted.last();
        assert(is_success(m, id@, JsonView::Null));
        assert(one_was_sent(old(connection).outbox(), m, final(connection).outbox()));
    }
}

/// Shutdown reaches a request that was routed before it: the token that it came with is the shutdown
/// token's child.
pub proof fn shutdown_cancels_routed_requests<I: Default>(
    connection: &mut Connection<I>,
    request: Request,
    r: IncomingMessage,
    next: &mut Connection<I>,
    id: RequestId,
    answered: Result<(), ProtocolError>,
)
    requires
        call_ensures(Connection::<I>::route, (connection, Message::Request(request)), r),
        *old(next) == *final(connection),
        call_ensures(Connection::<I>::handle_shutdown, (next, id), answered),
    ensures
        r matches IncomingMessage::Request(_, token) && token_view(token).parent == Some(
            final(next).shutdown().node,
        ),
        final(next).shutdown().cancelled,
{
}

/// The exit is clean if and only if shutdown came first. Exiting sends nothing.
pub proof fn exit_is_clean_after_shutdown<I>(connection: &mut Connection<I>, r: ExitCode)
    requires
        call_ensures(Connection::<I>::handle_exit, (connection,), r),
    ensures
        r == ExitCode::Success <==> old(connection).state() == LifecycleState::ShuttingDown,
        final(connection).state() == LifecycleState::Exited,
        final(connection).outbox() == old(connection).outbox(),
        same_session_tokens(*old(connection), *final(connection)),
        same_pending(*old(connection), *final(connection)),
{
}

/// What a connection says of its state is the state that the steps of the session put it in.
pub proof fn state_is_told<I>(
    connection: &Connection<I>,
    state: LifecycleState,
    running: bool,
    shutting_down: bool,
)
    requires
        call_ensures(Connection::<I>::lifecycle_state, (connection,), state),
        call_ensures(Connection::<I>::is_running, (connection,), running),
        call_ensures(Connection::<I>::is_shutting_down, (connection,), shutting_down),
    ensures
        state == connection.state(),
        running <==> state == LifecycleState::Running,
        shutting_down <==> state == LifecycleState::ShuttingDown,
{
}

/// A new connection awaits `initialize`, has no pending requests, has sent nothing of its own, and
/// has a shutdown token that is not cancelled.
pub proof fn new_connection_is_idle<I>(
    tx: UnboundedSender<Message>,
    drain: CancellationToken,
    r: Connection<I>,
)
    requires
        call_ensures(Connection::<I>::new, (tx, drain), r),
    ensures
        r.state() == LifecycleState::Uninitialized,
        r.outbox() == outbox(tx),
        r.drain() == token_view(drain),
        !r.shutdown().cancelled,
        r.shutdown().parent is None,
        forall|id: IdView| !#[trigger] r.request_queue.incoming@.contains_key(id),
        forall|id: IdView| !#[trigger] r.request_queue.outgoing@.contains_key(id),
        r.response_map is None,
{
}

/// A client sender sends into the queue of the connection, numbers its requests from 1, and has a
/// map of pending requests, which later senders leave as it is. Making one sends nothing, and
/// touches no request and no state.
pub proof fn client_sender_shares_the_queue<I>(connection: &mut Connection<I>, r: ClientSender)
    requires
        call_ensures(Connection::<I>::client_sender, (connection,), r),
    ensures
        r.outbox().queue == old(connection).outbox().queue,
        r.outbox().accepted.len() == 0,
        r.outbox().closed == old(connection).outbox().closed,
        r.drain() == old(connection).drain(),
        r.upcoming_id() == 1,
        final(connection).outbox().queue == old(connection).outbox().queue,
        final(connection).outbox().accepted == old(connection).outbox().accepted,
        final(connection).outbox().closed == old(connection).outbox().closed,
        final(connection).outbox().clones == old(connection).outbox().clones + 1,
        match (old(connection).response_map, final(connection).response_map) {
            (Some(a), Some(b)) => a@ == b@,
            (None, Some(b)) => forall|id: IdView| !#[trigger] b@.contains_key(id),
            _ => false,
        },
        final(connection).request_queue == old(connection).request_queue,
        final(connection).state() == old(connection).state(),
        final(connection).shutdown() == old(connection).shutdown(),
        final(connection).session.shutdown_handle() == old(connection).session.shutdown_handle(),
        final(connection).drain() == old(connection).drain(),
{
}

/// A handled `$/cancelRequest` tells whether the request that it names is pending, and cancels that
/// request's token alone. Another notification, or params that name no request, tell nothing and
/// change nothing.
pub proof fn cancel_request_is_handled<I>(
    connection: &mut Connection<I>,
    notification: &Notification,
    r: Option<bool>,
)
    requires
        call_ensures(Connection::<I>::handle_cancel_request, (connection, notification), r),
    ensures
        forall|id: IdView|
            notification.method@ == "$/cancelRequest"@ && #[trigger] names_request(
                notification.params,
                id,
            ) ==> r == Some(old(connection).request_queue.incoming@.contains_key(id))
                && only_this_was_cancelled(
                old(connection).request_queue.incoming@,
                id,
                final(connection).request_queue.incoming@,
            ),
        notification.method@ != "$/cancelRequest"@ || (forall|id: IdView|
            !#[trigger] names_request(notification.params, id)) ==> r is None && same_pending(
            *old(connection),
            *final(connection),
        ),
        same_outgoing(*old(connection), *final(connection)),
        same_session(*old(connection), *final(connection)),
{
    lemma_cancel_target(notification.params);
}

/// Cancelling an incoming request cancels its token alone, and tells whether it is pending.
pub proof fn incoming_request_is_cancelled<I>(
    connection: &mut Connection<I>,
    id: RequestId,
    r: bool,
)
    requires
        call_ensures(Connection::<I>::cancel_incoming, (connection, id), r),
    ensures
        r <==> old(connection).request_queue.incoming@.contains_key(id@),
        only_this_was_cancelled(
            old(connection).request_queue.incoming@,
            id@,
            final(connection).request_queue.incoming@,
        ),
        same_outgoing(*old(connection), *final(connection)),
        same_session(*old(connection), *final(connection)),
{
}

/// The notification that asks for a request to be cancelled: its params are an object with the id
/// and nothing else.
pub open spec fn is_cancel_request(m: MessageView, id: IdView) -> bool {
    m matches MessageView::Notification(m) && {
        &&& m.jsonrpc == "2.0"@
        &&& m.method == "$/cancelRequest"@
        &&& m.params matches Some(JsonView::Object(o)) && {
            &&& forall|k: Seq<char>| #[trigger] o.contains_key(k) <==> k == "id"@
            &&& id_holds(id, o["id"@])
        }
    }
}

/// Cancelling an outgoing request sends one `$/cancelRequest` with its id, and the request is no
/// longer pending then. If the queue is closed, the request stays. Other requests are not touched.
pub proof fn outgoing_request_is_cancelled<I>(
    connection: &mut Connection<I>,
    id: RequestId,
    r: Result<bool, std::io::Error>,
)
    requires
        call_ensures(Connection::<I>::cancel, (connection, id), r),
    ensures
        r matches Ok(pending) ==> {
            let before = old(connection).request_queue.outgoing@;
            &&& pending <==> before.contains_key(id@)
            &&& pending ==> was_dropped(before[id@])
            &&& final(connection).request_queue.outgoing@ == before.remove(id@)
            &&& exists|m: MessageView| #[trigger]
                is_cancel_request(m, id@) && one_was_sent(
                    old(connection).outbox(),
                    m,
                    final(connection).outbox(),
                )
        },
        r matches Err(e) ==> {
            &&& is_broken_pipe(e)
            &&& final(connection).request_queue.outgoing@ == old(connection).request_queue.outgoing@
            &&& one_was_refused(old(connection).outbox(), final(connection).outbox())
        },
        old(connection).outbox().closed ==> r is Err,
        final(connection).request_queue.incoming@ == old(connection).request_queue.incoming@,
        match (old(connection).response_map, final(connection).response_map) {
            (Some(a), Some(b)) => a@ == b@,
            (None, None) => true,
            _ => false,
        },
        same_lifecycle(*old(connection), *final(connection)),
{
    if r is Ok {
        let m = final(connection).outbox().accepted.last();
        assert(is_cancel_request(m, id@));
        assert(one_was_sent(old(connection).outbox(), m, final(connection).outbox()));
    }
}

/// Sending a request puts one request with this id, method and params into the queue, and changes
/// nothing else.
pub proof fn request_is_sent_once<I>(
    connection: &mut Connection<I>,
    id: RequestId,
    method: String,
    params: Option<Value>,
    r: Result<(), ProtocolError>,
)
    requires
        call_ensures(Connection::<I>::send_request, (connection, id, method, params), r),
    ensures
        r is Ok ==> exists|m: MessageView| #[trigger]
            is_request(m, id@, method@, params) && one_was_sent(
                old(connection).outbox(),
                m,
                final(connection).outbox(),
            ),
        r matches Err(e) ==> (e matches ProtocolError::Io(io) && is_broken_pipe(io))
            && one_was_refused(old(connection).outbox(), final(connection).outbox()),
        old(connection).outbox().closed ==> r is Err,
        same_pending(*old(connection), *final(connection)),
        same_lifecycle(*old(connection), *final(connection)),
{
    if r is Ok {
        let m = final(connection).outbox().accepted.last();
        assert(is_request(m, id@, method@, params));
        assert(one_was_sent(old(connection).outbox(), m, final(connection).outbox()));
    }
}

/// The wait for a response ends with the response that has the request's id, and with no other
/// message. A failure, the end of the stream and the end of the time fail it.
pub proof fn response_with_the_id_is_awaited(
    id: &RequestId,
    inbound: TimedInbound,
    r: WaitStep<Response>,
)
    requires
        call_ensures(await_response, (id, inbound), r),
    ensures
        r matches WaitStep::Done(response) ==> inbound == TimedInbound::Inbound(
            Inbound::Message(Message::Response(response)),
        ),
        r is Done <==> (inbound matches TimedInbound::Inbound(
            Inbound::Message(Message::Response(response)),
        ) && (response.id matches Some(other) && other@ == id@)),
        inbound matches TimedInbound::Inbound(Inbound::Message(_)) ==> !(r is Failed),
        inbound matches TimedInbound::Inbound(Inbound::Failed(e)) ==> r == WaitStep::<
            Response,
        >::Failed(ProtocolError::Io(e)),
        inbound matches TimedInbound::Inbound(Inbound::Closed) ==> r == WaitStep::<
            Response,
        >::Failed(ProtocolError::Disconnected),
        inbound is TimedOut ==> r == WaitStep::<Response>::Failed(ProtocolError::RequestTimeout),
{
}

/// The messages that a state allows: `initialize` alone opens a session; a running session takes
/// every other request and every notification; `initialized` alone is awaited while initializing;
/// `exit` alone is taken before initialization and after shutdown; and nothing after the exit.
pub proof fn state_allows_these_messages(
    state: LifecycleState,
    method: &str,
    request: bool,
    notification: bool,
)
    requires
        call_ensures(LifecycleState::is_request_allowed, (&state, method), request),
        call_ensures(LifecycleState::is_notification_allowed, (&state, method), notification),
    ensures
        state == LifecycleState::Uninitialized ==> (request <==> method@ == "initialize"@) && (
        notification <==> method@ == "exit"@),
        state == LifecycleState::Initializing ==> !request && (notification <==> method@
            == "initialized"@),
        state == LifecycleState::Running ==> (request <==> method@ != "initialize"@)
            && notification,
        state == LifecycleState::ShuttingDown ==> !request && (notification <==> method@
            == "exit"@),
        state == LifecycleState::Exited ==> !request && !notification,
{
}

/// The response to a request that nobody handles has its id, the code -32601 and a message that
/// names the method.
pub proof fn unhandled_request_is_answered(request: &Request, r: Response)
    requires
        call_ensures(method_not_found_response, (request,), r),
    ensures
        r.jsonrpc@ == "2.0"@,
        r.id matches Some(id) && id@ == request.id@,
        r.body matches ResponseBody::Error(e) && e.code == -32601 && e.message@
            == "Method not found: "@ + request.method@ && e.data is None,
{
}

/// The response to a request that was cancelled has its id, the code -32800 and a message that says
/// so.
pub proof fn cancelled_request_is_answered(id: RequestId, r: Response)
    requires
        call_ensures(cancelled_response, (id,), r),
    ensures
        r.jsonrpc@ == "2.0"@,
        r.id matches Some(rid) && rid@ == id@,
        r.body matches ResponseBody::Error(e) && e.code == -32800 && e.message@
            == "Request was cancelled"@ && e.data is None,
{
}

/// The shutdown token is given out as another handle to the same token. Nothing is cancelled or sent
/// by that, and no request is touched.
pub proof fn shutdown_token_is_given_out<I>(connection: &mut Connection<I>, r: CancellationToken)
    requires
        call_ensures(Connection::<I>::shutdown_token, (connection,), r),
    ensures
        token_view(r) == old(connection).shutdown(),
        final(connection).shutdown() == old(connection).shutdown(),
        final(connection).drain() == old(connection).drain(),
        final(connection).session.drain_handle() == old(connection).session.drain_handle(),
        final(connection).outbox() == old(connection).outbox(),
        final(connection).state() == old(connection).state(),
        same_pending(*old(connection), *final(connection)),
{
}

/// A connection with a queue of requests keeps that queue, and is otherwise a new connection.
pub proof fn connection_keeps_its_queue<I>(
    tx: UnboundedSender<Message>,
    drain: CancellationToken,
    queue: RequestQueue<I>,
    r: Connection<I>,
)
    requires
        call_ensures(Connection::<I>::with_request_queue, (tx, drain, queue), r),
    ensures
        r.request_queue == queue,
        r.response_map is None,
        r.state() == LifecycleState::Uninitialized,
        r.outbox() == outbox(tx),
        r.drain() == token_view(drain),
        !r.shutdown().cancelled,
        r.shutdown().parent is None,
{
}

/// What routing made of a message is exactly one of five things.
pub proof fn routed_message_is_of_one_kind(
    m: &IncomingMessage,
    request: bool,
    notification: bool,
    cancel_handled: bool,
    response_routed: bool,
    response_unknown: bool,
)
    requires
        call_ensures(IncomingMessage::is_request, (m,), request),
        call_ensures(IncomingMessage::is_notification, (m,), notification),
        call_ensures(IncomingMessage::is_cancel_handled, (m,), cancel_handled),
        call_ensures(IncomingMessage::is_response_routed, (m,), response_routed),
        call_ensures(IncomingMessage::is_response_unknown, (m,), response_unknown),
    ensures
        request <==> m is Request,
        notification <==> m is Notification,
        cancel_handled <==> m is CancelHandled,
        response_routed <==> m is ResponseRouted,
        response_unknown <==> m is ResponseUnknown,
{
}

/// Every error of the protocol has its message. That of an I/O error is what that error displays,
/// behind a prefix, where it is known.
pub proof fn protocol_error_has_its_message(e: ProtocolError, r: String)
    requires
        call_ensures(ProtocolError::to_string, (&e,), r),
    ensures
        e matches ProtocolError::ExpectedInitialize(got) ==> r@
            == "expected initialize request, got: "@ + got@,
        e matches ProtocolError::ExpectedInitialized(got) ==> r@
            == "expected initialized notification, got: "@ + got@,
        e is Disconnected ==> r@ == "connection disconnected unexpectedly"@,
        e matches ProtocolError::AfterShutdown(got) ==> r@ == "received request after shutdown: "@
            + got@,
        e is InitializeTimeout ==> r@ == "timed out waiting for initialized notification (60s)"@,
        e is RequestTimeout ==> r@ == "timed out waiting for response to server request"@,
        e matches ProtocolError::Io(io) ==> (io_error_text(io) matches Some(t) ==> r@
            == "I/O error: "@ + t),
{
}

/// A session goes through its states in order: `initialize` opens it, `initialized` lets it run,
/// shutdown ends it, and the exit is clean then.
pub proof fn session_goes_through_its_states<I>(
    tx: UnboundedSender<Message>,
    drain: CancellationToken,
    new: Connection<I>,
    opening: &mut Connection<I>,
    initialize: Request,
    opened: InitializeStep,
    starting: &mut Connection<I>,
    initialized: Notification,
    started: WaitStep<()>,
    ending: &mut Connection<I>,
    id: RequestId,
    ended: Result<(), ProtocolError>,
    leaving: &mut Connection<I>,
    code: ExitCode,
)
    requires
        call_ensures(Connection::<I>::new, (tx, drain), new),
        *old(opening) == new,
        initialize.method@ == "initialize"@,
        call_ensures(
            Connection::<I>::initialize_start,
            (opening, Inbound::Message(Message::Request(initialize))),
            opened,
        ),
        *old(starting) == *final(opening),
        initialized.method@ == "initialized"@,
        call_ensures(
            Connection::<I>::initialize_finish,
            (starting, TimedInbound::Inbound(Inbound::Message(Message::Notification(initialized)))),
            started,
        ),
        *old(ending) == *final(starting),
        call_ensures(Connection::<I>::handle_shutdown, (ending, id), ended),
        *old(leaving) == *final(ending),
        call_ensures(Connection::<I>::handle_exit, (leaving,), code),
    ensures
        new.state() == LifecycleState::Uninitialized,
        opened is Initialize,
        final(opening).state() == LifecycleState::Initializing,
        started is Done,
        final(starting).state() == LifecycleState::Running,
        !final(starting).shutdown().cancelled,
        final(ending).state() == LifecycleState::ShuttingDown,
        final(ending).shutdown().cancelled,
        final(leaving).state() == LifecycleState::Exited,
        code == ExitCode::Success,
{
    session_is_opened_by_initialize(
        opening,
        Inbound::Message(Message::Request(initialize)),
        opened,
    );
    handshake_is_ended_by_initialized(
        starting,
        TimedInbound::Inbound(Inbound::Message(Message::Notification(initialized))),
        started,
    );
    shutdown_is_answered_once(ending, id, ended);
    exit_is_clean_after_shutdown(leaving, code);
}

} // verus!
