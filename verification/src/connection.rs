//! A connection: its lifecycle, its pending requests, and the routing of inbound messages.
//!
//! The connection decides and keeps state; the transport hands it what was received and writes what
//! it queues.

use vstd::prelude::*;

use crate::channel::{clone_sender, queue_message};
use crate::client_sender::{ClientSender, ResponseMap};
use crate::error::{ErrorCode, ResponseError};
use crate::io_error::{new_io_error, IoKind, IoPayload};
use crate::json::{close, insert_member, new_object, Json};
use crate::lifecycle::{
    ExitCode, LifecycleState, ProtocolError, INITIALIZED_METHOD, INITIALIZE_METHOD, EXIT_METHOD,
};
use crate::message::{Message, Notification, Request, Response};
use crate::request_id::RequestId;
use crate::request_queue::{parse_cancel_params, RequestQueue, CANCEL_REQUEST_METHOD};
use crate::routing::IncomingMessage;
use crate::text::text_eq;
use crate::token::SharedToken;
use serde_json::Value;
use tokio::sync::mpsc::UnboundedSender;
use tokio::sync::oneshot;
use tokio_util::sync::CancellationToken;

verus! {

use crate::channel::{outbox, was_dropped, was_sent, OutboxView};
use crate::io_error::{io_error_kind, io_error_text};
use crate::json::{json, json_in, no_members, JsonView};
use crate::message::{BodyView, MessageView, NotificationView, RequestView, ResponseView};
use crate::request_id::IdView;
use crate::request_queue::{cancel_target, cancelled_in};
use crate::token::{token_view, TokenView};

/// What a connection keeps besides its pending requests: the queue of outbound messages, the
/// lifecycle state, and the tokens that signal the end.
#[derive(Debug)]
pub struct Session {
    /// The queue of outbound messages.
    outbound_tx: UnboundedSender<Message>,
    /// The current lifecycle state of the connection.
    lifecycle_state: LifecycleState,
    /// Cancellation token that is triggered when shutdown is requested.
    shutdown_token: SharedToken,
    /// Cancellation token that is triggered when the transport stops.
    drain_alive: SharedToken,
}

impl Session {
    /// What is known of the queue of outbound messages.
    pub closed spec fn outbox(self) -> OutboxView {
        outbox(self.outbound_tx)
    }

    /// The lifecycle state.
    pub closed spec fn state(self) -> LifecycleState {
        self.lifecycle_state
    }

    /// What is known of the token that is cancelled on shutdown.
    pub closed spec fn shutdown(self) -> TokenView {
        token_view(self.shutdown_token.kept())
    }

    /// What is known of the token that is cancelled when the transport stops.
    pub closed spec fn drain(self) -> TokenView {
        token_view(self.drain_alive.kept())
    }

    /// The handle to the shutdown token that the session keeps. While it is the same value, no other
    /// handle to the token was given out.
    pub closed spec fn shutdown_handle(self) -> CancellationToken {
        self.shutdown_token.kept()
    }

    /// The handle to the token of the transport that the session keeps. While it is the same value,
    /// no other handle to the token was given out.
    pub closed spec fn drain_handle(self) -> CancellationToken {
        self.drain_alive.kept()
    }
}

/// A bidirectional LSP connection with request tracking and lifecycle state.
///
/// `I` is the metadata that is kept for each incoming request.
#[derive(Debug)]
pub struct Connection<I = ()> {
    /// Request queue for tracking pending incoming and outgoing requests.
    pub request_queue: RequestQueue<I>,
    /// The pending requests of [`ClientSender`]s, once there is one.
    pub response_map: Option<ResponseMap>,
    /// The outbound queue, the lifecycle state and the tokens.
    pub session: Session,
}

impl<I> Connection<I> {
    /// What is known of the queue of outbound messages: the messages that were queued through this
    /// connection, in order.
    pub open spec fn outbox(self) -> OutboxView {
        self.session.outbox()
    }

    /// The lifecycle state.
    pub open spec fn state(self) -> LifecycleState {
        self.session.state()
    }

    /// What is known of the token that is cancelled on shutdown.
    pub open spec fn shutdown(self) -> TokenView {
        self.session.shutdown()
    }

    /// What is known of the token that is cancelled when the transport stops.
    pub open spec fn drain(self) -> TokenView {
        self.session.drain()
    }

    /// The tokens are the same values: no handle to them was given out.
    pub open spec fn same_tokens(self, other: Self) -> bool {
        &&& self.session.shutdown_handle() == other.session.shutdown_handle()
        &&& self.session.drain_handle() == other.session.drain_handle()
    }

    /// The pending requests of client senders.
    pub open spec fn routes(self) -> Option<Map<IdView, oneshot::Sender<Response>>> {
        match self.response_map {
            Some(m) => Some(m@),
            None => None,
        }
    }

    /// The pending requests are the same.
    pub open spec fn same_requests(self, other: Self) -> bool {
        &&& self.request_queue.incoming@ == other.request_queue.incoming@
        &&& self.request_queue.outgoing@ == other.request_queue.outgoing@
        &&& self.routes() == other.routes()
    }

    /// Creates a connection that queues outbound messages in `outbound_tx`.
    ///
    /// The token is to be cancelled when the transport stops.
    pub fn new(outbound_tx: UnboundedSender<Message>, drain_alive: CancellationToken) -> (r: Self)
        ensures
            r.outbox() == outbox(outbound_tx),
            r.state() == LifecycleState::Uninitialized,
            r.shutdown().parent is None,
            !r.shutdown().cancelled,
            r.drain() == token_view(drain_alive),
            r.request_queue.incoming@ == Map::<IdView, (I, CancellationToken)>::empty(),
            r.request_queue.outgoing@ == Map::<IdView, oneshot::Sender<Response>>::empty(),
            r.routes() is None,
    {
        Self::with_request_queue(outbound_tx, drain_alive, RequestQueue::new())
    }

    /// Creates a connection with a pre-existing request queue.
    pub fn with_request_queue(
        outbound_tx: UnboundedSender<Message>,
        drain_alive: CancellationToken,
        request_queue: RequestQueue<I>,
    ) -> (r: Self)
        ensures
            r.outbox() == outbox(outbound_tx),
            r.state() == LifecycleState::Uninitialized,
            r.shutdown().parent is None,
            !r.shutdown().cancelled,
            r.drain() == token_view(drain_alive),
            r.request_queue == request_queue,
            r.routes() is None,
    {
        Self {
            request_queue,
            response_map: None,
            session: Session {
                outbound_tx,
                lifecycle_state: LifecycleState::default(),
                shutdown_token: SharedToken::of(CancellationToken::new()),
                drain_alive: SharedToken::of(drain_alive),
            },
        }
    }

    /// Returns the current lifecycle state.
    #[must_use]
    pub fn lifecycle_state(&self) -> (r: LifecycleState)
        ensures
            r == self.state(),
    {
        self.session.lifecycle_state
    }

    /// Returns a token that is cancelled when shutdown is requested.
    ///
    /// It is another handle to the token that the connection keeps. That it was given out counts as
    /// a change of the connection, so that what changes nothing cannot have given one out.
    #[must_use]
    pub fn shutdown_token(&mut self) -> (r: CancellationToken)
        ensures
            token_view(r) == old(self).shutdown(),
            final(self).shutdown() == old(self).shutdown(),
            final(self).outbox() == old(self).outbox(),
            final(self).state() == old(self).state(),
            final(self).drain() == old(self).drain(),
            final(self).session.drain_handle() == old(self).session.drain_handle(),
            final(self).request_queue == old(self).request_queue,
            final(self).response_map == old(self).response_map,
    {
        self.session.shutdown_token.handle()
    }

    /// Queues a message for sending.
    ///
    /// # Errors
    ///
    /// An error of kind `BrokenPipe` if the receiving side of the queue is closed.
    pub fn send(&mut self, message: Message) -> (r: Result<(), std::io::Error>)
        ensures
            match r {
                Ok(()) => final(self).outbox() == old(self).outbox().push(message@),
                Err(e) => final(self).outbox() == old(self).outbox().refused() && is_closed_error(e),
            },
            old(self).outbox().closed ==> r is Err,
            final(self).state() == old(self).state(),
            final(self).shutdown() == old(self).shutdown(),
            final(self).drain() == old(self).drain(),
            final(self).same_tokens(*old(self)),
            final(self).request_queue == old(self).request_queue,
            final(self).response_map == old(self).response_map,
    {
        match queue_message(&mut self.session.outbound_tx, message) {
            Ok(()) => Ok(()),
            Err(_) => Err(new_io_error(
                IoKind::BrokenPipe,
                IoPayload::Text("connection closed".to_owned()),
            )),
        }
    }
}

/// The error of a connection whose queue is closed.
pub open spec fn is_closed_error(e: std::io::Error) -> bool {
    io_error_kind(e) == Some(IoKind::BrokenPipe) && io_error_text(e) == Some("connection closed"@)
}

/// Where a response goes.
pub enum ResponseTarget {
    /// To a pending request of a client sender.
    ClientSender(IdView),
    /// To a pending request of the request queue.
    Queue(IdView),
    /// To no one: no request is pending under its id, or it has none.
    Nowhere,
}

/// Where a response with the given id goes. Requests of client senders come first.
pub open spec fn response_target<S, T>(
    routes: Option<Map<IdView, S>>,
    outgoing: Map<IdView, T>,
    id: Option<IdView>,
) -> ResponseTarget {
    match id {
        Some(id) => if routes matches Some(m) && m.contains_key(id) {
            ResponseTarget::ClientSender(id)
        } else if outgoing.contains_key(id) {
            ResponseTarget::Queue(id)
        } else {
            ResponseTarget::Nowhere
        },
        None => ResponseTarget::Nowhere,
    }
}

impl<I> Connection<I> {
    /// `next` is this connection with the request `id` registered, for which `token` was derived
    /// from the shutdown token.
    pub open spec fn registered(self, id: IdView, token: CancellationToken, next: Self) -> bool where
        I: Default,
     {
        let entry = next.request_queue.incoming@[id];
        &&& next.request_queue.incoming@ == self.request_queue.incoming@.insert(id, entry)
        &&& call_ensures(I::default, (), entry.0)
        &&& token_view(entry.1) == token_view(token)
        &&& token_view(token).parent == Some(self.shutdown().node)
        &&& token_view(token).cancelled == self.shutdown().cancelled
        &&& next.request_queue.outgoing@ == self.request_queue.outgoing@
        &&& next.routes() == self.routes()
    }

    /// `next` is this connection with the pending incoming request that the params of a cancel
    /// request name cancelled, if there is one.
    pub open spec fn cancel_applied(self, params: Option<JsonView>, next: Self) -> bool {
        &&& match cancel_target(params) {
            Some(id) => cancelled_in(
                self.request_queue.incoming@,
                id,
                next.request_queue.incoming@,
            ),
            None => next.request_queue.incoming@ == self.request_queue.incoming@,
        }
        &&& next.request_queue.outgoing@ == self.request_queue.outgoing@
        &&& next.routes() == self.routes()
    }

    /// `next` is this connection with the request that a response goes to completed: the response
    /// was sent to it, and it is no longer pending.
    pub open spec fn delivered(self, resp: Response, target: ResponseTarget, next: Self) -> bool {
        &&& next.request_queue.incoming@ == self.request_queue.incoming@
        &&& match target {
            ResponseTarget::ClientSender(id) => {
                &&& next.request_queue.outgoing@ == self.request_queue.outgoing@
                &&& next.routes() == Some(self.routes()->0.remove(id))
                &&& was_sent(self.routes()->0[id], resp)
            },
            ResponseTarget::Queue(id) => {
                &&& next.request_queue.outgoing@ == self.request_queue.outgoing@.remove(id)
                &&& next.routes() == self.routes()
                &&& was_sent(self.request_queue.outgoing@[id], resp)
            },
            ResponseTarget::Nowhere => {
                &&& next.request_queue.outgoing@ == self.request_queue.outgoing@
                &&& next.routes() == self.routes()
            },
        }
    }
}

impl<I: Default> Connection<I> {
    /// Routes an inbound message, delivering responses to pending outgoing requests.
    ///
    /// - A request is registered with a token that is cancelled on shutdown, and by a
    ///   `$/cancelRequest` for its id.
    /// - A `$/cancelRequest` is applied; any other notification is handed back.
    /// - A response is delivered to the request that is pending under its id: one of a client
    ///   sender, or else one of the request queue. It is handed back if there is none.
    pub fn route(&mut self, message: Message) -> (r: IncomingMessage)
        ensures
            final(self).session == old(self).session,
            match message {
                Message::Request(req) => {
                    &&& r matches IncomingMessage::Request(q, token)
                    &&& q == req
                    &&& old(self).registered(req.id@, token, *final(self))
                },
                Message::Notification(notif) => if notif.method@ == "$/cancelRequest"@ {
                    &&& r is CancelHandled
                    &&& old(self).cancel_applied(json_in(notif.params), *final(self))
                } else {
                    &&& r == IncomingMessage::Notification(notif)
                    &&& final(self).same_requests(*old(self))
                },
                Message::Response(resp) => {
                    let target = response_target(
                        old(self).routes(),
                        old(self).request_queue.outgoing@,
                        resp@.id,
                    );
                    &&& old(self).delivered(resp, target, *final(self))
                    &&& r == (if target is Nowhere {
                        IncomingMessage::ResponseUnknown(resp)
                    } else {
                        IncomingMessage::ResponseRouted
                    })
                },
            },
    {
        match message {
            Message::Request(req) => {
                let token = self.session.shutdown_token.child();
                self.request_queue.incoming.register(req.id.clone(), I::default(), token.clone());
                IncomingMessage::Request(req, token)
            },
            Message::Notification(notif) => {
                if text_eq(notif.method.as_str(), CANCEL_REQUEST_METHOD) {
                    if let Some(id) = parse_cancel_params(&notif.params) {
                        let _ = self.request_queue.incoming.cancel(&id);
                    }
                    IncomingMessage::CancelHandled
                } else {
                    IncomingMessage::Notification(notif)
                }
            },
            Message::Response(resp) => self.route_response(resp),
        }
    }
}

impl<I> Connection<I> {
    /// Delivers a response to the request that is pending under its id, or hands it back.
    fn route_response(&mut self, resp: Response) -> (r: IncomingMessage)
        ensures
            final(self).session == old(self).session,
            ({
                let target = response_target(
                    old(self).routes(),
                    old(self).request_queue.outgoing@,
                    resp@.id,
                );
                &&& old(self).delivered(resp, target, *final(self))
                &&& r == (if target is Nowhere {
                    IncomingMessage::ResponseUnknown(resp)
                } else {
                    IncomingMessage::ResponseRouted
                })
            }),
    {
        let id = match &resp.id {
            Some(id) => id.clone(),
            None => return IncomingMessage::ResponseUnknown(resp),
        };
        match self.response_map.take() {
            Some(response_map) => {
                let mut response_map = response_map;
                if response_map.is_pending(&id) {
                    let _ = response_map.deliver(&id, resp);
                    self.response_map = Some(response_map);
                    return IncomingMessage::ResponseRouted;
                }
                self.response_map = Some(response_map);
            },
            None => {},
        }
        if self.request_queue.outgoing.is_pending(&id) {
            let _ = self.request_queue.outgoing.complete(&id, resp);
            IncomingMessage::ResponseRouted
        } else {
            IncomingMessage::ResponseUnknown(resp)
        }
    }
}

impl<I> Connection<I> {
    /// Cancels the token of the pending incoming request with the given id.
    ///
    /// Returns `true` if the request was found and cancelled, `false` if not found.
    pub fn cancel_incoming(&mut self, id: impl Into<RequestId>) -> (r: bool)
        ensures
            exists|rid: RequestId| #[trigger]
                call_ensures(<_ as Into<RequestId>>::into, (id,), rid) && {
                    let before = old(self).request_queue.incoming@;
                    &&& r == before.contains_key(rid@)
                    &&& cancelled_in(before, rid@, final(self).request_queue.incoming@)
                },
            final(self).request_queue.outgoing == old(self).request_queue.outgoing,
            final(self).response_map == old(self).response_map,
            final(self).session == old(self).session,
    {
        let rid = id.into();
        self.request_queue.incoming.cancel(&rid)
    }

    /// Returns a [`ClientSender`] for sending requests, responses, and notifications.
    ///
    /// The first call sets up the map of pending requests. Later calls leave it as it is.
    #[must_use]
    pub fn client_sender(&mut self) -> (r: ClientSender)
        ensures
            r.outbox() == old(self).outbox().another(),
            r.drain() == old(self).drain(),
            r.upcoming_id() == 1,
            final(self).routes() == (match old(self).routes() {
                Some(m) => Some(m),
                None => Some(Map::empty()),
            }),
            final(self).request_queue == old(self).request_queue,
            final(self).session.shutdown_handle() == old(self).session.shutdown_handle(),
            final(self).state() == old(self).state(),
            final(self).shutdown() == old(self).shutdown(),
            final(self).drain() == old(self).drain(),
            final(self).outbox() == old(self).outbox().cloned(),
    {
        if self.response_map.is_none() {
            self.response_map = Some(ResponseMap::new());
        }
        ClientSender::new(
            clone_sender(&mut self.session.outbound_tx),
            self.session.drain_alive.handle(),
        )
    }

    /// Handles a `$/cancelRequest` notification.
    ///
    /// Returns `None` if the notification is no `$/cancelRequest`, or if its params name no
    /// request. Otherwise the token of the request is cancelled, if it is pending, and the result
    /// tells whether it is.
    pub fn handle_cancel_request(&mut self, notification: &Notification) -> (r: Option<bool>)
        ensures
            r == (if notification.method@ == "$/cancelRequest"@ {
                match cancel_target(json_in(notification.params)) {
                    Some(id) => Some(old(self).request_queue.incoming@.contains_key(id)),
                    None => None,
                }
            } else {
                None
            }),
            notification.method@ == "$/cancelRequest"@ ==> old(self).cancel_applied(
                json_in(notification.params),
                *final(self),
            ),
            notification.method@ != "$/cancelRequest"@ ==> *final(self) == *old(self),
            final(self).session == old(self).session,
    {
        if !text_eq(notification.method.as_str(), CANCEL_REQUEST_METHOD) {
            return None;
        }
        match parse_cancel_params(&notification.params) {
            Some(id) => Some(self.request_queue.incoming.cancel(&id)),
            None => None,
        }
    }

    /// Cancels an outgoing request: sends a `$/cancelRequest` for it and drops it from the queue, so
    /// that its receiver gets an error.
    ///
    /// Returns whether the request was pending.
    ///
    /// # Errors
    ///
    /// An error if the notification cannot be queued. The request stays pending then.
    pub fn cancel(&mut self, id: impl Into<RequestId>) -> (r: Result<bool, std::io::Error>)
        ensures
            exists|rid: RequestId| #[trigger]
                call_ensures(<_ as Into<RequestId>>::into, (id,), rid) && {
                    let before = old(self).request_queue.outgoing@;
                    let after = final(self).request_queue.outgoing@;
                    match r {
                        Ok(pending) => {
                            &&& pending == before.contains_key(rid@)
                            &&& pending ==> was_dropped(before[rid@])
                            &&& after == before.remove(rid@)
                            &&& final(self).outbox() == old(self).outbox().push(cancel_request(rid@))
                        },
                        Err(e) => {
                            &&& is_closed_error(e)
                            &&& after == before
                            &&& final(self).outbox() == old(self).outbox().refused()
                        },
                    }
                },
            old(self).outbox().closed ==> r is Err,
            final(self).request_queue.incoming == old(self).request_queue.incoming,
            final(self).response_map == old(self).response_map,
            final(self).state() == old(self).state(),
            final(self).shutdown() == old(self).shutdown(),
            final(self).drain() == old(self).drain(),
            final(self).same_tokens(*old(self)),
    {
        let rid = id.into();
        let mut o = new_object();
        let _ = insert_member(&mut o, "id".to_owned(), rid.clone().into_value());
        let notification = Notification::new(CANCEL_REQUEST_METHOD, Some(close(Json::Object(o))));
        match self.send(Message::Notification(notification)) {
            Ok(()) => Ok(self.request_queue.outgoing.cancel(&rid)),
            Err(e) => Err(e),
        }
    }
}

/// The notification that asks for the request `id` to be cancelled.
pub open spec fn cancel_request(id: IdView) -> MessageView {
    MessageView::Notification(
        NotificationView {
            jsonrpc: "2.0"@,
            method: "$/cancelRequest"@,
            params: Some(JsonView::Object(no_members().insert("id"@, id.to_json()))),
        },
    )
}

/// The notification that asks for a request to be cancelled names that request to the side that
/// reads it.
pub proof fn cancel_request_names_its_target(id: IdView)
    ensures
        cancel_request(id) matches MessageView::Notification(n) && n.method == "$/cancelRequest"@
            && cancel_target(n.params) == Some(id),
{
    crate::request_id::id_json_round_trip(id);
}

/// A cancel request for a request that was routed before cancels the token that was given out for
/// it, and leaves the request pending.
pub proof fn routed_request_can_be_cancelled<I: Default>(
    before: Connection<I>,
    routed: Connection<I>,
    after: Connection<I>,
    id: IdView,
    token: CancellationToken,
    params: Option<JsonView>,
)
    requires
        before.registered(id, token, routed),
        cancel_target(params) == Some(id),
        routed.cancel_applied(params, after),
    ensures
        after.request_queue.incoming@.contains_key(id),
        token_view(after.request_queue.incoming@[id].1) == (TokenView {
            cancelled: true,
            ..token_view(token)
        }),
        forall|other: IdView|
            other != id ==> (after.request_queue.incoming@.contains_key(other)
                <==> before.request_queue.incoming@.contains_key(other)) && (
            before.request_queue.incoming@.contains_key(other)
                ==> #[trigger] after.request_queue.incoming@[other]
                == before.request_queue.incoming@[other]),
{
}

/// Shutdown cancels the token that was given out for a request that was routed before.
pub proof fn shutdown_reaches_routed_requests<I: Default>(
    before: Connection<I>,
    routed: Connection<I>,
    after: Connection<I>,
    id: IdView,
    token: CancellationToken,
)
    requires
        before.registered(id, token, routed),
        routed.session == before.session,
        after.shutdown() == (TokenView { cancelled: true, ..routed.shutdown() }),
    ensures
        token_view(token).cancelled_by(after.shutdown()),
{
}

/// A request is completed by one response: where a response was delivered, a second one with the
/// same id does not get there.
pub proof fn response_is_delivered_once<I>(
    before: Connection<I>,
    after: Connection<I>,
    resp: Response,
    id: IdView,
)
    requires
        before.delivered(
            resp,
            response_target(before.routes(), before.request_queue.outgoing@, Some(id)),
            after,
        ),
    ensures
        ({
            let first = response_target(before.routes(), before.request_queue.outgoing@, Some(id));
            let second = response_target(after.routes(), after.request_queue.outgoing@, Some(id));
            &&& first is ClientSender ==> !(second is ClientSender)
            &&& first is Queue ==> second is Nowhere
            &&& first is Nowhere ==> second is Nowhere
        }),
{
}

/// Delivering a response leaves the requests with other ids pending, each where it was.
pub proof fn delivery_leaves_other_requests<I>(
    before: Connection<I>,
    after: Connection<I>,
    resp: Response,
    id: IdView,
    other: IdView,
)
    requires
        before.delivered(
            resp,
            response_target(before.routes(), before.request_queue.outgoing@, Some(id)),
            after,
        ),
        other != id,
    ensures
        response_target(after.routes(), after.request_queue.outgoing@, Some(other))
            == response_target(before.routes(), before.request_queue.outgoing@, Some(other)),
{
}

/// A response without an id goes to no request.
pub proof fn response_without_id_goes_nowhere<I>(connection: Connection<I>)
    ensures
        response_target(connection.routes(), connection.request_queue.outgoing@, None) is Nowhere,
{
}

/// A response that arrives after its request was dropped, because the time was over or the wait
/// was given up, goes to no request.
pub proof fn late_response_goes_nowhere<I>(
    before: Connection<I>,
    after: Connection<I>,
    id: IdView,
)
    requires
        before.routes() is Some,
        after.routes() == Some(before.routes()->0.remove(id)),
        !after.request_queue.outgoing@.contains_key(id),
    ensures
        response_target(after.routes(), after.request_queue.outgoing@, Some(id)) is Nowhere,
{
}

/// What the transport hands over while a message is awaited.
#[derive(Debug)]
pub enum Inbound {
    /// A message was received.
    Message(Message),
    /// Receiving failed.
    Failed(std::io::Error),
    /// The stream has ended.
    Closed,
}

/// What the transport hands over while a message is awaited for a limited time.
#[derive(Debug)]
pub enum TimedInbound {
    /// Something arrived in time.
    Inbound(Inbound),
    /// The time is over.
    TimedOut,
}

/// What comes of a message during the first part of the opening handshake.
#[derive(Debug)]
pub enum InitializeStep {
    /// The `initialize` request is still awaited.
    Waiting,
    /// The `initialize` request arrived, with this id and these params.
    Initialize(RequestId, Value),
    /// The handshake has failed.
    Failed(ProtocolError),
}

/// What comes of a message while something else is awaited.
#[derive(Debug)]
pub enum WaitStep<T> {
    /// It is still awaited.
    Waiting,
    /// It arrived.
    Done(T),
    /// The wait has failed.
    Failed(ProtocolError),
}

/// The response to a request that arrives before initialization is complete.
pub open spec fn not_initialized(id: IdView) -> MessageView {
    MessageView::Response(
        ResponseView {
            jsonrpc: "2.0"@,
            id: Some(id),
            body: BodyView::Error(
                crate::error::ErrorView {
                    code: ErrorCode::ServerNotInitialized.number(),
                    message: "Server not yet initialized"@,
                    data: None,
                },
            ),
        },
    )
}

/// The request opens the session: it is one that the first state allows.
pub open spec fn initialize_allowed(req: RequestView) -> bool {
    LifecycleState::Uninitialized.allows_request(req.method)
}

/// The response with a result.
pub open spec fn ok_response(id: IdView, result: JsonView) -> MessageView {
    MessageView::Response(
        ResponseView { jsonrpc: "2.0"@, id: Some(id), body: BodyView::Result(result) },
    )
}

/// The result of `initialize` for the given server capabilities.
pub fn initialize_result(server_capabilities: Value) -> (r: Value)
    ensures
        json(r) == JsonView::Object(no_members().insert("capabilities"@, json(server_capabilities))),
{
    let mut o = new_object();
    let _ = insert_member(&mut o, "capabilities".to_owned(), server_capabilities);
    close(Json::Object(o))
}

impl<I> Connection<I> {
    /// Everything but the queue of outbound messages is the same.
    pub open spec fn same_but_outbox(self, other: Self) -> bool {
        &&& self.request_queue == other.request_queue
        &&& self.response_map == other.response_map
        &&& self.state() == other.state()
        &&& self.shutdown() == other.shutdown()
        &&& self.drain() == other.drain()
        &&& self.same_tokens(other)
    }

    /// Answers a request that arrives before initialization is complete.
    fn reject_uninitialized(&mut self, id: RequestId) -> (r: Result<(), ProtocolError>)
        ensures
            final(self).same_but_outbox(*old(self)),
            match r {
                Ok(()) => final(self).outbox() == old(self).outbox().push(not_initialized(id@)),
                Err(e) => final(self).outbox() == old(self).outbox().refused() && (
                e matches ProtocolError::Io(io) && is_closed_error(io)),
            },
            old(self).outbox().closed ==> r is Err,
    {
        let error = ResponseError::new(
            ErrorCode::ServerNotInitialized,
            "Server not yet initialized",
        );
        match self.send(Message::Response(Response::err(id, error))) {
            Ok(()) => Ok(()),
            Err(e) => Err(ProtocolError::Io(e)),
        }
    }

    /// One step of waiting for the `initialize` request.
    ///
    /// Other requests are answered with a `ServerNotInitialized` error. Responses and
    /// notifications are dropped, except `exit`, which disconnects. To be called with what is
    /// received until it gives something else than [`InitializeStep::Waiting`].
    pub fn initialize_start(&mut self, inbound: Inbound) -> (r: InitializeStep)
        ensures
            final(self).request_queue == old(self).request_queue,
            final(self).response_map == old(self).response_map,
            final(self).shutdown() == old(self).shutdown(),
            final(self).drain() == old(self).drain(),
            final(self).same_tokens(*old(self)),
            final(self).state() == (if r is Initialize {
                LifecycleState::Initializing
            } else {
                old(self).state()
            }),
            match inbound {
                Inbound::Message(Message::Request(req)) if initialize_allowed(req@) => {
                    r matches InitializeStep::Initialize(id, params) && id == req.id && json(params)
                        == (match req.params {
                        Some(v) => json(v),
                        None => JsonView::Null,
                    })
                },
                Inbound::Message(Message::Request(_)) => (r is Waiting
                    && !old(self).outbox().closed) || (
                r matches InitializeStep::Failed(ProtocolError::Io(e)) && is_closed_error(e)),
                Inbound::Message(Message::Notification(notif)) => r == (if notif.method@
                    == "exit"@ {
                    InitializeStep::Failed(ProtocolError::Disconnected)
                } else {
                    InitializeStep::Waiting
                }),
                Inbound::Message(Message::Response(_)) => r is Waiting,
                Inbound::Failed(e) => r == InitializeStep::Failed(ProtocolError::Io(e)),
                Inbound::Closed => r == InitializeStep::Failed(ProtocolError::Disconnected),
            },
            final(self).outbox() == (match inbound {
                Inbound::Message(Message::Request(req)) if r is Waiting => old(self).outbox().push(
                    not_initialized(req.id@),
                ),
                Inbound::Message(Message::Request(_)) if r is Failed => old(self).outbox().refused(),
                _ => old(self).outbox(),
            }),
    {
        match inbound {
            Inbound::Message(Message::Request(req)) => {
                if text_eq(req.method.as_str(), INITIALIZE_METHOD) {
                    self.session.lifecycle_state = LifecycleState::Initializing;
                    let params = match req.params {
                        Some(params) => params,
                        None => close(Json::Null),
                    };
                    return InitializeStep::Initialize(req.id, params);
                }
                match self.reject_uninitialized(req.id) {
                    Ok(()) => InitializeStep::Waiting,
                    Err(e) => InitializeStep::Failed(e),
                }
            },
            Inbound::Message(Message::Notification(notif)) => {
                if text_eq(notif.method.as_str(), EXIT_METHOD) {
                    InitializeStep::Failed(ProtocolError::Disconnected)
                } else {
                    InitializeStep::Waiting
                }
            },
            Inbound::Message(Message::Response(_)) => InitializeStep::Waiting,
            Inbound::Failed(e) => InitializeStep::Failed(ProtocolError::Io(e)),
            Inbound::Closed => InitializeStep::Failed(ProtocolError::Disconnected),
        }
    }

    /// Sends the result of the `initialize` request, as it is.
    ///
    /// # Errors
    ///
    /// [`ProtocolError::Io`] if the response cannot be queued.
    pub fn respond_initialize(&mut self, id: RequestId, initialize_result: Value) -> (r: Result<
        (),
        ProtocolError,
    >)
        ensures
            final(self).same_but_outbox(*old(self)),
            match r {
                Ok(()) => final(self).outbox() == old(self).outbox().push(
                    ok_response(id@, json(initialize_result)),
                ),
                Err(e) => final(self).outbox() == old(self).outbox().refused() && (
                e matches ProtocolError::Io(io) && is_closed_error(io)),
            },
            old(self).outbox().closed ==> r is Err,
    {
        match self.send(Message::Response(Response::ok(id, initialize_result))) {
            Ok(()) => Ok(()),
            Err(e) => Err(ProtocolError::Io(e)),
        }
    }

    /// One step of waiting for the `initialized` notification.
    ///
    /// Requests are answered with a `ServerNotInitialized` error. Responses and other
    /// notifications are dropped. To be called with what is received until it gives something else
    /// than [`WaitStep::Waiting`].
    pub fn initialize_finish(&mut self, inbound: TimedInbound) -> (r: WaitStep<()>)
        ensures
            final(self).request_queue == old(self).request_queue,
            final(self).response_map == old(self).response_map,
            final(self).shutdown() == old(self).shutdown(),
            final(self).drain() == old(self).drain(),
            final(self).same_tokens(*old(self)),
            final(self).state() == (if r is Done {
                LifecycleState::Running
            } else {
                old(self).state()
            }),
            match inbound {
                TimedInbound::Inbound(Inbound::Message(Message::Request(_))) => (r is Waiting
                    && !old(self).outbox().closed) || (
                r matches WaitStep::Failed(ProtocolError::Io(e)) && is_closed_error(e)),
                TimedInbound::Inbound(Inbound::Message(Message::Notification(notif))) => r == (
                if LifecycleState::Initializing.allows_notification(notif.method@) {
                    WaitStep::Done(())
                } else {
                    WaitStep::Waiting
                }),
                TimedInbound::Inbound(Inbound::Message(Message::Response(_))) => r is Waiting,
                TimedInbound::Inbound(Inbound::Failed(e)) => r == WaitStep::<()>::Failed(
                    ProtocolError::Io(e),
                ),
                TimedInbound::Inbound(Inbound::Closed) => r == WaitStep::<()>::Failed(
                    ProtocolError::Disconnected,
                ),
                TimedInbound::TimedOut => r == WaitStep::<()>::Failed(
                    ProtocolError::InitializeTimeout,
                ),
            },
            final(self).outbox() == (match inbound {
                TimedInbound::Inbound(Inbound::Message(Message::Request(req))) if r is Waiting => {
                    old(self).outbox().push(not_initialized(req.id@))
                },
                TimedInbound::Inbound(Inbound::Message(Message::Request(_))) => {
                    old(self).outbox().refused()
                },
                _ => old(self).outbox(),
            }),
    {
        let inbound = match inbound {
            TimedInbound::Inbound(inbound) => inbound,
            TimedInbound::TimedOut => return WaitStep::Failed(ProtocolError::InitializeTimeout),
        };
        match inbound {
            Inbound::Message(Message::Notification(notif)) => {
                if text_eq(notif.method.as_str(), INITIALIZED_METHOD) {
                    self.session.lifecycle_state = LifecycleState::Running;
                    WaitStep::Done(())
                } else {
                    WaitStep::Waiting
                }
            },
            Inbound::Message(Message::Request(req)) => match self.reject_uninitialized(req.id) {
                Ok(()) => WaitStep::Waiting,
                Err(e) => WaitStep::Failed(e),
            },
            Inbound::Message(Message::Response(_)) => WaitStep::Waiting,
            Inbound::Failed(e) => WaitStep::Failed(ProtocolError::Io(e)),
            Inbound::Closed => WaitStep::Failed(ProtocolError::Disconnected),
        }
    }

    /// Handles a shutdown request.
    ///
    /// Cancels the shutdown token, changes to the `ShuttingDown` state, and sends a null response.
    ///
    /// # Errors
    ///
    /// [`ProtocolError::Io`] if the response cannot be queued.
    pub fn handle_shutdown(&mut self, id: RequestId) -> (r: Result<(), ProtocolError>)
        ensures
            final(self).shutdown() == (TokenView { cancelled: true, ..old(self).shutdown() }),
            final(self).state() == LifecycleState::ShuttingDown,
            final(self).drain() == old(self).drain(),
            final(self).session.drain_handle() == old(self).session.drain_handle(),
            final(self).request_queue == old(self).request_queue,
            final(self).response_map == old(self).response_map,
            match r {
                Ok(()) => final(self).outbox() == old(self).outbox().push(
                    ok_response(id@, JsonView::Null),
                ),
                Err(e) => final(self).outbox() == old(self).outbox().refused() && (
                e matches ProtocolError::Io(io) && is_closed_error(io)),
            },
            old(self).outbox().closed ==> r is Err,
    {
        self.session.shutdown_token.cancel();
        self.session.lifecycle_state = LifecycleState::ShuttingDown;
        match self.send(Message::Response(Response::ok(id, close(Json::Null)))) {
            Ok(()) => Ok(()),
            Err(e) => Err(ProtocolError::Io(e)),
        }
    }

    /// Handles the exit notification.
    ///
    /// Returns [`ExitCode::Success`] if shutdown was received first, or [`ExitCode::Error`] if exit
    /// came without shutdown.
    pub fn handle_exit(&mut self) -> (r: ExitCode)
        ensures
            final(self).state() == LifecycleState::Exited,
            r == old(self).state().exit_code(),
            final(self).same_tokens(*old(self)),
            final(self).outbox() == old(self).outbox(),
            final(self).shutdown() == old(self).shutdown(),
            final(self).drain() == old(self).drain(),
            final(self).request_queue == old(self).request_queue,
            final(self).response_map == old(self).response_map,
    {
        let was_shutting_down = self.session.lifecycle_state == LifecycleState::ShuttingDown;
        self.session.lifecycle_state = LifecycleState::Exited;
        if was_shutting_down {
            ExitCode::Success
        } else {
            ExitCode::Error
        }
    }

    /// Returns true if the connection is in Running state.
    #[must_use]
    pub fn is_running(&self) -> (r: bool)
        ensures
            r == (self.state() == LifecycleState::Running),
    {
        self.session.lifecycle_state == LifecycleState::Running
    }

    /// Returns true if shutdown has been requested.
    #[must_use]
    pub fn is_shutting_down(&self) -> (r: bool)
        ensures
            r == (self.state() == LifecycleState::ShuttingDown),
    {
        self.session.lifecycle_state == LifecycleState::ShuttingDown
    }

    /// Sends a server-initiated request, whose response is then awaited with
    /// [`await_response`].
    ///
    /// # Errors
    ///
    /// [`ProtocolError::Io`] if the request cannot be queued.
    pub fn send_request(
        &mut self,
        id: RequestId,
        method: impl Into<String>,
        params: Option<Value>,
    ) -> (r: Result<(), ProtocolError>)
        ensures
            final(self).same_but_outbox(*old(self)),
            match r {
                Ok(()) => exists|m: String| #[trigger]
                    call_ensures(<_ as Into<String>>::into, (method,), m) && final(self).outbox()
                        == old(self).outbox().push(
                        MessageView::Request(
                            RequestView {
                                jsonrpc: "2.0"@,
                                id: id@,
                                method: m@,
                                params: json_in(params),
                            },
                        ),
                    ),
                Err(e) => final(self).outbox() == old(self).outbox().refused() && (
                e matches ProtocolError::Io(io) && is_closed_error(io)),
            },
            old(self).outbox().closed ==> r is Err,
    {
        let request = Request::new(id, method, params);
        match self.send(Message::Request(request)) {
            Ok(()) => Ok(()),
            Err(e) => Err(ProtocolError::Io(e)),
        }
    }
}

/// One step of waiting for the response to the request `id`.
///
/// Everything but that response is dropped. To be called with what is received until it gives
/// something else than [`WaitStep::Waiting`].
pub fn await_response(id: &RequestId, inbound: TimedInbound) -> (r: WaitStep<Response>)
    ensures
        r == (match inbound {
            TimedInbound::Inbound(Inbound::Message(Message::Response(resp))) => if resp@.id == Some(
                id@,
            ) {
                WaitStep::Done(resp)
            } else {
                WaitStep::Waiting
            },
            TimedInbound::Inbound(Inbound::Message(_)) => WaitStep::Waiting,
            TimedInbound::Inbound(Inbound::Failed(e)) => WaitStep::Failed(ProtocolError::Io(e)),
            TimedInbound::Inbound(Inbound::Closed) => WaitStep::Failed(
                ProtocolError::Disconnected,
            ),
            TimedInbound::TimedOut => WaitStep::Failed(ProtocolError::RequestTimeout),
        }),
{
    let inbound = match inbound {
        TimedInbound::Inbound(inbound) => inbound,
        TimedInbound::TimedOut => return WaitStep::Failed(ProtocolError::RequestTimeout),
    };
    match inbound {
        Inbound::Message(Message::Response(resp)) => {
            let matching = match &resp.id {
                Some(other) => *other == *id,
                None => false,
            };
            if matching {
                WaitStep::Done(resp)
            } else {
                WaitStep::Waiting
            }
        },
        Inbound::Message(_) => WaitStep::Waiting,
        Inbound::Failed(e) => WaitStep::Failed(ProtocolError::Io(e)),
        Inbound::Closed => WaitStep::Failed(ProtocolError::Disconnected),
    }
}

} // verus!
