//! Sending to the client: notifications, responses, and requests with their replies.

use vstd::prelude::*;

use crate::channel::queue_message;
use crate::lifecycle::ProtocolError;
use crate::message::{Message, Notification, Request, Response};
use crate::request_id::RequestId;
use crate::request_queue::OutgoingRequests;
use serde_json::Value;
use tokio::sync::mpsc::UnboundedSender;
use tokio::sync::oneshot;
use tokio_util::sync::CancellationToken;

verus! {

use crate::channel::{goes_to, is_channel, outbox, was_dropped, was_sent, OutboxView};
use crate::json::json_in;
use crate::message::{id_in, MessageView, NotificationView, RequestView};
use crate::request_id::IdView;
use crate::token::{token_view, TokenView};

/// The requests of [`ClientSender`]s that await their responses.
#[derive(Debug)]
pub struct ResponseMap {
    pending: OutgoingRequests<Response>,
}

impl View for ResponseMap {
    type V = Map<IdView, oneshot::Sender<Response>>;

    closed spec fn view(&self) -> Map<IdView, oneshot::Sender<Response>> {
        self.pending@
    }
}

impl Default for ResponseMap {
    fn default() -> (r: Self)
        ensures
            r@ == Map::<IdView, oneshot::Sender<Response>>::empty(),
    {
        Self::new()
    }
}

impl ResponseMap {
    /// Creates a map without pending requests.
    pub fn new() -> (r: Self)
        ensures
            r@ == Map::<IdView, oneshot::Sender<Response>>::empty(),
    {
        Self { pending: OutgoingRequests::new() }
    }

    /// Registers a request and returns a receiver for its response.
    ///
    /// A request that is pending under the same id is replaced, and its receiver gets an error.
    pub fn register(&mut self, id: RequestId) -> (r: oneshot::Receiver<Response>)
        ensures
            final(self)@.contains_key(id@),
            final(self)@ == old(self)@.insert(id@, final(self)@[id@]),
            is_channel(final(self)@[id@], r),
            old(self)@.contains_key(id@) ==> was_dropped(old(self)@[id@]),
    {
        self.pending.register(id)
    }

    /// Registers a request, unless one is pending under the same id.
    pub fn try_register(&mut self, id: RequestId) -> (r: Option<oneshot::Receiver<Response>>)
        ensures
            r is None <==> old(self)@.contains_key(id@),
            r is None ==> final(self)@ == old(self)@,
            r matches Some(rx) ==> {
                &&& final(self)@.contains_key(id@)
                &&& final(self)@ == old(self)@.insert(id@, final(self)@[id@])
                &&& is_channel(final(self)@[id@], rx)
            },
    {
        if self.pending.is_pending(&id) {
            None
        } else {
            Some(self.pending.register(id))
        }
    }

    /// Delivers a response to the request that is pending under its id.
    ///
    /// Returns whether there is one. That holds even if its receiver was dropped.
    pub fn deliver(&mut self, id: &RequestId, response: Response) -> (r: bool)
        ensures
            r == old(self)@.contains_key(id@),
            final(self)@ == old(self)@.remove(id@),
            r ==> was_sent(old(self)@[id@], response),
    {
        self.pending.complete(id, response)
    }

    /// Drops a pending request, so that its receiver gets an error.
    ///
    /// Returns whether it was pending.
    pub fn cancel(&mut self, id: &RequestId) -> (r: bool)
        ensures
            r == old(self)@.contains_key(id@),
            final(self)@ == old(self)@.remove(id@),
            r ==> was_dropped(old(self)@[id@]),
    {
        self.pending.cancel(id)
    }

    /// Drops all pending requests, so that their receivers get an error.
    pub fn cancel_all(&mut self)
        ensures
            final(self)@ == Map::<IdView, oneshot::Sender<Response>>::empty(),
            forall|id: IdView|
                old(self)@.contains_key(id) ==> #[trigger] was_dropped(old(self)@[id]),
    {
        self.pending.cancel_all();
    }

    /// Tests whether a request is pending under `id`.
    pub fn is_pending(&self, id: &RequestId) -> (r: bool)
        ensures
            r == self@.contains_key(id@),
    {
        self.pending.is_pending(id)
    }

    /// Returns the number of pending requests.
    pub fn pending_count(&self) -> (r: usize)
        ensures
            self@.dom().finite(),
            r == self@.dom().len(),
    {
        self.pending.pending_count()
    }
}

/// Error returned when the connection is closed and messages can no longer be queued.
#[derive(Debug)]
pub struct SendError;

impl Clone for SendError {
    fn clone(&self) -> (r: Self)
        ensures
            r == *self,
    {
        SendError
    }
}

impl SendError {
    /// Returns the message of this error.
    pub fn to_string(&self) -> (r: String)
        ensures
            r@ == "connection closed"@,
    {
        "connection closed".to_owned()
    }
}

/// The ids that are given out one after another: from 1 to `i32::MAX`, and then from 1 again.
pub open spec fn id_after(id: int) -> int {
    if id >= i32::MAX {
        1
    } else {
        id + 1
    }
}

/// The id that is given out `k` ids after `id`.
pub open spec fn nth_id(id: int, k: nat) -> int {
    (id - 1 + k) % (i32::MAX as int) + 1
}

/// The id that is given out `k` ids after `id` is the first that is not pending.
pub open spec fn is_first_free<S>(pending: Map<IdView, S>, id: int, k: nat) -> bool {
    &&& !pending.contains_key(IdView::Integer(nth_id(id, k) as i32))
    &&& forall|j: nat|
        j < k ==> pending.contains_key(IdView::Integer(#[trigger] nth_id(id, j) as i32))
}

/// Some id that can be given out is not pending.
pub open spec fn has_free_id<S>(pending: Map<IdView, S>) -> bool {
    exists|n: i32| 1 <= n && !(#[trigger] pending.contains_key(IdView::Integer(n)))
}

/// `after` is `before` with one more request, whose id was free and can be given out, and whose
/// response goes to `receiver`.
pub open spec fn reserved(
    before: Map<IdView, oneshot::Sender<Response>>,
    after: Map<IdView, oneshot::Sender<Response>>,
    id: IdView,
    receiver: oneshot::Receiver<Response>,
) -> bool {
    &&& id matches IdView::Integer(n) && 1 <= n
    &&& !before.contains_key(id)
    &&& after.contains_key(id)
    &&& after == before.insert(id, after[id])
    &&& is_channel(after[id], receiver)
}

/// The sender of the request was dropped, if there is such a request and it is pending.
pub open spec fn was_given_up(
    pending: Map<IdView, oneshot::Sender<Response>>,
    request: Option<IdView>,
) -> bool {
    request matches Some(id) ==> (pending.contains_key(id) ==> was_dropped(pending[id]))
}

/// Keeps a request registered until its response was received.
#[derive(Debug)]
pub struct PendingResponseGuard {
    id: Option<RequestId>,
}

impl PendingResponseGuard {
    /// The id of the request that is dropped on release.
    pub closed spec fn guarded(self) -> Option<IdView> {
        id_in(self.id)
    }

    /// Creates a guard for the request `id`.
    pub fn new(id: RequestId) -> (r: Self)
        ensures
            r.guarded() == Some(id@),
    {
        Self { id: Some(id) }
    }

    /// Lets go of the request, so that it is not dropped on release.
    pub fn disarm(&mut self)
        ensures
            final(self).guarded() is None,
    {
        self.id = None;
    }

    /// Drops the request from `responses`, unless the guard was disarmed or released before.
    pub fn release(&mut self, responses: &mut ResponseMap)
        ensures
            final(self).guarded() is None,
            final(responses)@ == (match old(self).guarded() {
                Some(id) => old(responses)@.remove(id),
                None => old(responses)@,
            }),
            was_given_up(old(responses)@, old(self).guarded()),
    {
        match self.id.take() {
            Some(id) => {
                let _ = responses.cancel(&id);
            },
            None => {},
        }
    }
}

/// A request that was sent and whose response is awaited.
#[derive(Debug)]
pub struct PendingRequest {
    /// Keeps the request registered.
    pub guard: PendingResponseGuard,
    /// Gets the response.
    pub receiver: oneshot::Receiver<Response>,
}

/// How the wait for a response ends.
#[derive(Debug)]
pub enum ReplyOutcome {
    /// The response arrived.
    Received(Response),
    /// The request was dropped from the map of pending requests.
    Dropped,
    /// The transport stopped.
    Stopped,
    /// The time for the response is over.
    TimedOut,
}

/// Ends the wait for a response.
///
/// Where no response arrived, the request is dropped, so that a late response finds none.
///
/// # Errors
///
/// [`ProtocolError::Disconnected`] if the request was dropped or the transport stopped, and
/// [`ProtocolError::RequestTimeout`] if the time is over.
pub fn finish_request(
    guard: &mut PendingResponseGuard,
    responses: &mut ResponseMap,
    outcome: ReplyOutcome,
) -> (r: Result<Response, ProtocolError>)
    ensures
        r == (match outcome {
            ReplyOutcome::Received(response) => Ok::<Response, ProtocolError>(response),
            ReplyOutcome::Dropped | ReplyOutcome::Stopped => Err(ProtocolError::Disconnected),
            ReplyOutcome::TimedOut => Err(ProtocolError::RequestTimeout),
        }),
        final(guard).guarded() is None,
        final(responses)@ == (match (outcome, old(guard).guarded()) {
            (ReplyOutcome::Received(_), _) => old(responses)@,
            (_, Some(id)) => old(responses)@.remove(id),
            (_, None) => old(responses)@,
        }),
        !(outcome is Received) ==> was_given_up(old(responses)@, old(guard).guarded()),
{
    match outcome {
        ReplyOutcome::Received(response) => {
            guard.disarm();
            Ok(response)
        },
        ReplyOutcome::Dropped | ReplyOutcome::Stopped => {
            guard.release(responses);
            Err(ProtocolError::Disconnected)
        },
        ReplyOutcome::TimedOut => {
            guard.release(responses);
            Err(ProtocolError::RequestTimeout)
        },
    }
}

/// A counter that gives request ids out.
#[derive(Debug)]
pub struct IdCounter {
    next: i64,
}

impl IdCounter {
    #[verifier::type_invariant]
    spec fn in_range(self) -> bool {
        1 <= self.next <= i32::MAX
    }

    /// The id that is given out next.
    pub closed spec fn upcoming(self) -> int {
        self.next as int
    }

    /// Creates a counter that starts at `first`.
    fn starting_at(first: i32) -> (r: Self)
        requires
            first >= 1,
        ensures
            r.upcoming() == first,
    {
        Self { next: first as i64 }
    }

    /// Gives the next id out.
    pub fn next_id(&mut self) -> (r: RequestId)
        ensures
            1 <= old(self).upcoming() <= i32::MAX,
            r@ == IdView::Integer(old(self).upcoming() as i32),
            final(self).upcoming() == id_after(old(self).upcoming()),
    {
        proof {
            use_type_invariant(&*self);
        }
        let id: i32 = self.next as i32;
        self.next = if self.next >= i32::MAX as i64 {
            1
        } else {
            self.next + 1
        };
        RequestId::Integer(id)
    }
}

/// A handle for server to client communication.
#[derive(Debug)]
pub struct ClientSender {
    tx: UnboundedSender<Message>,
    drain_alive: CancellationToken,
    id_counter: IdCounter,
}

impl ClientSender {
    /// What is known of the queue of outbound messages: the messages that were sent through this
    /// handle, in order.
    pub closed spec fn outbox(self) -> OutboxView {
        outbox(self.tx)
    }

    /// The id that the next request gets, if it is free.
    pub closed spec fn upcoming_id(self) -> int {
        self.id_counter.upcoming()
    }

    /// What is known of the token that is cancelled when the transport stops.
    pub closed spec fn drain(self) -> TokenView {
        token_view(self.drain_alive)
    }

    /// Creates a handle that sends through `tx`. The token is to be cancelled when the transport
    /// stops.
    pub fn new(tx: UnboundedSender<Message>, drain_alive: CancellationToken) -> (r: Self)
        ensures
            r.outbox() == outbox(tx),
            r.drain() == token_view(drain_alive),
            r.upcoming_id() == 1,
    {
        Self { tx, drain_alive, id_counter: IdCounter::starting_at(1) }
    }

    /// Creates a handle whose first request gets the id `first_id`, if it is free.
    pub fn with_first_id(
        tx: UnboundedSender<Message>,
        drain_alive: CancellationToken,
        first_id: i32,
    ) -> (r: Self)
        requires
            first_id >= 1,
        ensures
            r.outbox() == outbox(tx),
            r.drain() == token_view(drain_alive),
            r.upcoming_id() == first_id,
    {
        Self { tx, drain_alive, id_counter: IdCounter::starting_at(first_id) }
    }

    /// Returns the token that is cancelled when the transport stops.
    pub fn drain_alive(&self) -> (r: CancellationToken)
        ensures
            token_view(r) == self.drain(),
    {
        self.drain_alive.clone()
    }

    /// Sends a message. Once the queue refused one, it refuses all.
    fn enqueue(&mut self, message: Message) -> (r: Result<(), SendError>)
        ensures
            final(self).outbox() == (match r {
                Ok(()) => old(self).outbox().push(message@),
                Err(_) => old(self).outbox().refused(),
            }),
            old(self).outbox().closed ==> r is Err,
            final(self).upcoming_id() == old(self).upcoming_id(),
            final(self).drain() == old(self).drain(),
    {
        match queue_message(&mut self.tx, message) {
            Ok(()) => Ok(()),
            Err(_) => Err(SendError),
        }
    }

    /// Queues a notification for delivery to the client.
    ///
    /// # Errors
    ///
    /// Returns [`SendError`] if the connection has been closed.
    pub fn notify(&mut self, method: &str, params: Option<Value>) -> (r: Result<(), SendError>)
        ensures
            final(self).outbox() == (match r {
                Ok(()) => old(self).outbox().push(
                    MessageView::Notification(
                        NotificationView {
                            jsonrpc: "2.0"@,
                            method: method@,
                            params: json_in(params),
                        },
                    ),
                ),
                Err(_) => old(self).outbox().refused(),
            }),
            old(self).outbox().closed ==> r is Err,
            final(self).upcoming_id() == old(self).upcoming_id(),
            final(self).drain() == old(self).drain(),
    {
        self.enqueue(Message::Notification(Notification::new(method, params)))
    }

    /// Queues a response for delivery to the client.
    ///
    /// # Errors
    ///
    /// Returns [`SendError`] if the connection has been closed.
    pub fn respond(&mut self, response: Response) -> (r: Result<(), SendError>)
        ensures
            final(self).outbox() == (match r {
                Ok(()) => old(self).outbox().push(MessageView::Response(response@)),
                Err(_) => old(self).outbox().refused(),
            }),
            old(self).outbox().closed ==> r is Err,
            final(self).upcoming_id() == old(self).upcoming_id(),
            final(self).drain() == old(self).drain(),
    {
        self.enqueue(Message::Response(response))
    }

    /// Gives the next id out.
    pub fn next_id(&mut self) -> (r: RequestId)
        ensures
            1 <= old(self).upcoming_id() <= i32::MAX,
            r@ == IdView::Integer(old(self).upcoming_id() as i32),
            final(self).upcoming_id() == id_after(old(self).upcoming_id()),
            final(self).outbox() == old(self).outbox(),
            final(self).drain() == old(self).drain(),
    {
        self.id_counter.next_id()
    }

    /// Registers a request in `responses` under the first id that is not pending.
    ///
    /// Gives the id and the receiver for the response. There is a free id wherever fewer than
    /// `i32::MAX` requests are pending; see [`few_pending_leave_a_free_id`].
    pub fn reserve_request_slot(&mut self, responses: &mut ResponseMap) -> (r: (
        RequestId,
        oneshot::Receiver<Response>,
    ))
        requires
            has_free_id(old(responses)@),
        ensures
            1 <= old(self).upcoming_id() <= i32::MAX,
            exists|k: nat| #[trigger]
                is_first_free(old(responses)@, old(self).upcoming_id(), k) && r.0@
                    == IdView::Integer(nth_id(old(self).upcoming_id(), k) as i32)
                    && final(self).upcoming_id() == nth_id(old(self).upcoming_id(), k + 1),
            reserved(old(responses)@, final(responses)@, r.0@, r.1),
            final(self).outbox() == old(self).outbox(),
            final(self).drain() == old(self).drain(),
    {
        let ghost start = self.upcoming_id();
        let ghost pending = responses@;
        let ghost free = choose|n: i32|
            1 <= n && !(#[trigger] pending.contains_key(IdView::Integer(n)));
        let ghost last = steps_to(start, free as int);
        let ghost mut k: nat = 0;
        proof {
            use_type_invariant(&self.id_counter);
            lemma_id_after(start, 0);
            lemma_steps_to(start, free as int);
        }
        loop
            invariant
                1 <= start <= i32::MAX,
                self.upcoming_id() == nth_id(start, k),
                responses@ == pending,
                forall|j: nat|
                    j < k ==> pending.contains_key(
                        IdView::Integer(#[trigger] nth_id(start, j) as i32),
                    ),
                k <= last,
                nth_id(start, last) == free,
                !pending.contains_key(IdView::Integer(free)),
                self.outbox() == old(self).outbox(),
                self.drain() == old(self).drain(),
                start == old(self).upcoming_id(),
                pending == old(responses)@,
            decreases last - k,
        {
            let id = self.next_id();
            proof {
                lemma_id_after(start, k);
            }
            if let Some(rx) = responses.try_register(id.clone()) {
                assert(is_first_free(pending, start, k));
                return (id, rx);
            }
            proof {
                k = k + 1;
            }
        }
    }
}

impl ClientSender {
    /// Sends a request that is registered in `responses` under `id`.
    ///
    /// # Errors
    ///
    /// [`ProtocolError::Disconnected`] if the connection has been closed. The request is dropped
    /// then.
    pub fn send_registered_request(
        &mut self,
        responses: &mut ResponseMap,
        id: RequestId,
        method: &str,
        params: Option<Value>,
    ) -> (r: Result<PendingResponseGuard, ProtocolError>)
        ensures
            match r {
                Ok(guard) => {
                    &&& guard.guarded() == Some(id@)
                    &&& final(responses)@ == old(responses)@
                    &&& final(self).outbox() == old(self).outbox().push(
                        MessageView::Request(
                            RequestView {
                                jsonrpc: "2.0"@,
                                id: id@,
                                method: method@,
                                params: json_in(params),
                            },
                        ),
                    )
                },
                Err(e) => {
                    &&& e == ProtocolError::Disconnected
                    &&& final(responses)@ == old(responses)@.remove(id@)
                    &&& old(responses)@.contains_key(id@) ==> was_dropped(old(responses)@[id@])
                    &&& final(self).outbox() == old(self).outbox().refused()
                },
            },
            old(self).outbox().closed ==> r is Err,
            final(self).upcoming_id() == old(self).upcoming_id(),
            final(self).drain() == old(self).drain(),
    {
        let mut guard = PendingResponseGuard::new(id.clone());
        let request = Request::new(id, method, params);
        match self.enqueue(Message::Request(request)) {
            Ok(()) => Ok(guard),
            Err(_) => {
                guard.release(responses);
                Err(ProtocolError::Disconnected)
            },
        }
    }

    /// Sends a request with an auto-generated id.
    ///
    /// The id is the first that is not pending in `responses`, where the request is registered.
    /// The receiver that is given out gets the response; [`finish_request`] ends the wait for it.
    ///
    /// # Errors
    ///
    /// [`ProtocolError::Disconnected`] if the connection has been closed.
    pub fn request(
        &mut self,
        responses: &mut ResponseMap,
        method: &str,
        params: Option<Value>,
    ) -> (r: Result<PendingRequest, ProtocolError>)
        requires
            has_free_id(old(responses)@),
        ensures
            1 <= old(self).upcoming_id() <= i32::MAX,
            exists|k: nat| #[trigger]
                is_first_free(old(responses)@, old(self).upcoming_id(), k)
                    && final(self).upcoming_id() == nth_id(old(self).upcoming_id(), k + 1) && (
                match r {
                    Ok(p) => {
                        let id = IdView::Integer(nth_id(old(self).upcoming_id(), k) as i32);
                        &&& p.guard.guarded() == Some(id)
                        &&& reserved(old(responses)@, final(responses)@, id, p.receiver)
                        &&& final(self).outbox() == old(self).outbox().push(
                            MessageView::Request(
                                RequestView {
                                    jsonrpc: "2.0"@,
                                    id,
                                    method: method@,
                                    params: json_in(params),
                                },
                            ),
                        )
                    },
                    Err(e) => {
                        &&& e == ProtocolError::Disconnected
                        &&& final(responses)@ == old(responses)@
                        &&& final(self).outbox() == old(self).outbox().refused()
                    },
                }),
            old(self).outbox().closed ==> r is Err,
            final(self).drain() == old(self).drain(),
    {
        let (id, receiver) = self.reserve_request_slot(responses);
        match self.send_registered_request(responses, id, method, params) {
            Ok(guard) => Ok(PendingRequest { guard, receiver }),
            Err(e) => {
                assert(responses@ =~= old(responses)@);
                Err(e)
            },
        }
    }
}

/// The id after the one that comes `k` ids after `id` comes `k + 1` ids after `id`.
proof fn lemma_id_after(id: int, k: nat)
    requires
        1 <= id <= i32::MAX,
    ensures
        nth_id(id, 0) == id,
        1 <= nth_id(id, k) <= i32::MAX,
        id_after(nth_id(id, k)) == nth_id(id, k + 1),
{
}

/// Ids repeat only after `i32::MAX` of them.
pub proof fn ids_repeat_late(id: int, j: nat, k: nat)
    requires
        1 <= id <= i32::MAX,
        j < k,
        k - j < i32::MAX,
    ensures
        nth_id(id, j) != nth_id(id, k),
        1 <= nth_id(id, j) <= i32::MAX,
        1 <= nth_id(id, k) <= i32::MAX,
{
}

/// How many ids after `id` the id `target` is given out.
spec fn steps_to(id: int, target: int) -> nat {
    if target >= id {
        (target - id) as nat
    } else {
        (target - id + i32::MAX) as nat
    }
}

/// Every id is given out in its turn.
proof fn lemma_steps_to(id: int, target: int)
    requires
        1 <= id <= i32::MAX,
        1 <= target <= i32::MAX,
    ensures
        nth_id(id, steps_to(id, target)) == target,
{
}

/// If the ids up to `n` are all pending, at least `n` requests are.
proof fn lemma_pending_ids<S>(pending: Map<IdView, S>, n: i32)
    requires
        n >= 0,
        pending.dom().finite(),
        forall|i: i32|
            1 <= i <= n ==> #[trigger] pending.contains_key(IdView::Integer(i)),
    ensures
        pending.dom().len() >= n,
    decreases n,
{
    if n > 0 {
        let id = IdView::Integer(n);
        let fewer = pending.remove(id);
        assert(pending.contains_key(id));
        assert(fewer.dom() =~= pending.dom().remove(id));
        lemma_pending_ids(fewer, (n - 1) as i32);
    }
}

/// Where fewer than `i32::MAX` requests are pending, there is a free id.
pub proof fn few_pending_leave_a_free_id<S>(pending: Map<IdView, S>)
    requires
        pending.dom().finite(),
        pending.dom().len() < i32::MAX,
    ensures
        has_free_id(pending),
{
    if !has_free_id(pending) {
        lemma_pending_ids(pending, i32::MAX);
    }
}

/// A request that is reserved leaves the others as they are, each with its receiver, and a response
/// that is delivered while it is pending goes to its own receiver.
pub proof fn reserved_request_gets_its_response(
    before: Map<IdView, oneshot::Sender<Response>>,
    after: Map<IdView, oneshot::Sender<Response>>,
    id: IdView,
    receiver: oneshot::Receiver<Response>,
)
    requires
        reserved(before, after, id, receiver),
    ensures
        forall|other: IdView, rx: oneshot::Receiver<Response>|
            before.contains_key(other) && #[trigger] is_channel(before[other], rx)
                ==> after.contains_key(other) && is_channel(after[other], rx),
        forall|other: IdView|
            after.contains_key(other) && other != id ==> before.contains_key(other),
        forall|response: Response| #[trigger]
            was_sent(after[id], response) ==> goes_to(response, receiver),
{
}

} // verus!
