//! What calls on pending requests and on client senders come to.

use vstd::prelude::*;

verus! {

use crate::channel::{
    gets_error, goes_to, is_channel, outbox, was_dropped, was_sent, OutboxView,
};
use crate::client_sender::{
    finish_request, is_first_free, nth_id, reserved, ClientSender, PendingRequest,
    PendingResponseGuard, ReplyOutcome, ResponseMap, SendError,
};
use crate::json::{json, json_in, JsonView};
use crate::laws::message::id_json;
use crate::lifecycle::ProtocolError;
use crate::message::{
    is_id_value, BodyView, Message, MessageView, RequestView, Response, ResponseBody,
};
use crate::request_id::{strings_and_integers_are_ids, IdView, RequestId};
use crate::request_queue::{parse_cancel_params, IncomingRequests, OutgoingRequests};
use crate::token::token_view;
use serde_json::Value;
use tokio::sync::mpsc::UnboundedSender;
use tokio::sync::oneshot;
use tokio_util::sync::CancellationToken;

/// Under every other id the maps hold the same.
pub open spec fn same_elsewhere<V>(
    before: Map<IdView, V>,
    id: IdView,
    after: Map<IdView, V>,
) -> bool {
    forall|other: IdView|
        other != id ==> (#[trigger] after.contains_key(other) <==> before.contains_key(other)) && (
        before.contains_key(other) ==> after[other] == before[other])
}

/// A request that was registered is given back with its metadata when it is completed, and is no
/// longer pending then. Requests under other ids are not touched.
pub proof fn registered_request_is_completed<I>(
    queue: &mut IncomingRequests<I>,
    id: RequestId,
    data: I,
    token: CancellationToken,
    next: &mut IncomingRequests<I>,
    done: &RequestId,
    r: Option<I>,
)
    requires
        call_ensures(IncomingRequests::<I>::register, (queue, id, data, token), ()),
        *old(next) == *final(queue),
        call_ensures(IncomingRequests::<I>::complete, (next, done), r),
    ensures
        final(queue)@.contains_key(id@) && final(queue)@[id@] == (data, token),
        same_elsewhere(old(queue)@, id@, final(queue)@),
        done@ == id@ ==> r == Some(data),
        done@ != id@ && old(queue)@.contains_key(done@) ==> r == Some(old(queue)@[done@].0),
        done@ != id@ && !old(queue)@.contains_key(done@) ==> r is None,
        !final(next)@.contains_key(done@),
        same_elsewhere(final(queue)@, done@, final(next)@),
{
}

/// Cancelling a request cancels its token and leaves it pending with its metadata. Every other
/// request is left as it is, and so is everything if the request is not pending.
pub proof fn cancelling_touches_one_request<I>(
    queue: &mut IncomingRequests<I>,
    id: &RequestId,
    r: bool,
)
    requires
        call_ensures(IncomingRequests::<I>::cancel, (queue, id), r),
    ensures
        r <==> old(queue)@.contains_key(id@),
        only_this_was_cancelled(old(queue)@, id@, final(queue)@),
{
}

/// The same requests are pending with the same metadata and tokens, but the token of `id` is now
/// cancelled, if `id` is pending.
pub open spec fn only_this_was_cancelled<I>(
    before: Map<IdView, (I, CancellationToken)>,
    id: IdView,
    after: Map<IdView, (I, CancellationToken)>,
) -> bool {
    &&& forall|k: IdView| #[trigger] after.contains_key(k) <==> before.contains_key(k)
    &&& forall|k: IdView| before.contains_key(k) && k != id ==> #[trigger] after[k] == before[k]
    &&& before.contains_key(id) ==> {
        &&& after[id].0 == before[id].0
        &&& token_view(after[id].1).node == token_view(before[id].1).node
        &&& token_view(after[id].1).parent == token_view(before[id].1).parent
        &&& token_view(after[id].1).cancelled
    }
}

/// The token that is given out for a request is a handle to the one it was registered with.
pub proof fn token_is_that_of_the_request<I>(
    queue: &mut IncomingRequests<I>,
    id: RequestId,
    data: I,
    token: CancellationToken,
    next: &mut IncomingRequests<I>,
    asked: &RequestId,
    r: Option<CancellationToken>,
)
    requires
        call_ensures(IncomingRequests::<I>::register, (queue, id, data, token), ()),
        *old(next) == *final(queue),
        call_ensures(IncomingRequests::<I>::get_token, (next, asked), r),
    ensures
        asked@ == id@ ==> (r matches Some(t) && token_view(t) == token_view(token)),
        asked@ != id@ ==> (r is Some <==> old(queue)@.contains_key(asked@)),
        forall|k: IdView| #[trigger]
            final(next)@.contains_key(k) <==> final(queue)@.contains_key(k),
        forall|k: IdView|
            final(queue)@.contains_key(k) ==> (#[trigger] final(next)@[k]).0 == final(queue)@[k].0
                && token_view(final(next)@[k].1) == token_view(final(queue)@[k].1),
        forall|k: IdView|
            final(queue)@.contains_key(k) && k != asked@ ==> #[trigger] final(next)@[k]
                == final(queue)@[k],
{
}

/// The receiver that is given out for a request gets the value that the request is completed with.
/// The request is then no longer pending, and other requests are not touched.
pub proof fn value_goes_to_its_receiver<O>(
    queue: &mut OutgoingRequests<O>,
    id: RequestId,
    rx: oneshot::Receiver<O>,
    next: &mut OutgoingRequests<O>,
    done: &RequestId,
    value: O,
    r: bool,
)
    requires
        call_ensures(OutgoingRequests::<O>::register, (queue, id), rx),
        *old(next) == *final(queue),
        call_ensures(OutgoingRequests::<O>::complete, (next, done, value), r),
    ensures
        done@ == id@ ==> r && goes_to(value, rx),
        done@ != id@ ==> (r <==> old(queue)@.contains_key(done@)),
        !final(next)@.contains_key(done@),
        done@ != id@ ==> final(next)@.contains_key(id@) && is_channel(final(next)@[id@], rx),
        forall|other: IdView|
            other != done@ && other != id@ ==> (#[trigger] final(next)@.contains_key(other)
                <==> old(queue)@.contains_key(other)) && (old(queue)@.contains_key(other)
                ==> final(next)@[other] == old(queue)@[other]),
{
    if done@ == id@ {
        assert(is_channel(final(queue)@[id@], rx) && was_sent(final(queue)@[id@], value));
    }
}

/// The receiver that is given out for a request gets an error when the request is cancelled, or
/// replaced by another under the same id. Other requests are not touched.
pub proof fn cancelled_request_gives_an_error<O>(
    queue: &mut OutgoingRequests<O>,
    id: RequestId,
    rx: oneshot::Receiver<O>,
    next: &mut OutgoingRequests<O>,
    gone: &RequestId,
    r: bool,
    other_queue: &mut OutgoingRequests<O>,
    again: RequestId,
    second: oneshot::Receiver<O>,
)
    requires
        call_ensures(OutgoingRequests::<O>::register, (queue, id), rx),
        *old(next) == *final(queue),
        call_ensures(OutgoingRequests::<O>::cancel, (next, gone), r),
        *old(other_queue) == *final(queue),
        call_ensures(OutgoingRequests::<O>::register, (other_queue, again), second),
    ensures
        gone@ == id@ ==> r && gets_error(rx),
        gone@ != id@ ==> (r <==> old(queue)@.contains_key(gone@)),
        !final(next)@.contains_key(gone@),
        gone@ != id@ ==> final(next)@.contains_key(id@) && is_channel(final(next)@[id@], rx),
        again@ == id@ ==> gets_error(rx),
        again@ != id@ ==> final(other_queue)@.contains_key(id@) && is_channel(
            final(other_queue)@[id@],
            rx,
        ),
        final(other_queue)@.contains_key(again@) && is_channel(final(other_queue)@[again@], second),
{
    assert(is_channel(final(queue)@[id@], rx));
    if gone@ == id@ {
        assert(was_dropped(final(queue)@[id@]));
    }
    if again@ == id@ {
        assert(was_dropped(final(queue)@[id@]));
    }
}

/// The params of a cancel request name the identifier that stands under `id` of an object, and
/// nothing if there is none.
pub proof fn cancel_params_name_their_id(params: &Option<Value>, r: Option<RequestId>)
    requires
        call_ensures(parse_cancel_params, (params,), r),
    ensures
        match r {
            Some(id) => params matches Some(v) && (json(*v) matches JsonView::Object(o)
                && o.contains_key("id"@) && o["id"@] == id_json(id)),
            None => params matches Some(v) ==> (json(*v) matches JsonView::Object(o)
                ==> !o.contains_key("id"@) || !is_id_value(o["id"@])),
        },
{
    if let Some(v) = *params {
        if let JsonView::Object(o) = json(v) {
            if o.contains_key("id"@) {
                strings_and_integers_are_ids(o["id"@]);
            }
        }
    }
}

/// One message was put into the queue through this handle, behind those before it, and nothing else
/// happened to the handle: no other message was sent, and no other handle was made through which
/// one could have been.
pub open spec fn one_was_sent(before: OutboxView, message: MessageView, after: OutboxView) -> bool {
    &&& after.queue == before.queue
    &&& after.accepted.len() == before.accepted.len() + 1
    &&& forall|i: int|
        0 <= i < before.accepted.len() ==> #[trigger] after.accepted[i] == before.accepted[i]
    &&& after.accepted[before.accepted.len() as int] == message
    &&& !before.closed && !after.closed
    &&& after.clones == before.clones
}

/// A message was refused: none was put into the queue through this handle, which is now known to be
/// closed.
pub open spec fn one_was_refused(before: OutboxView, after: OutboxView) -> bool {
    &&& after.queue == before.queue
    &&& after.accepted == before.accepted
    &&& after.closed
    &&& after.clones == before.clones
}

/// The request with these parts, of protocol version 2.0.
pub open spec fn is_request(
    m: MessageView,
    id: IdView,
    method: Seq<char>,
    params: Option<Value>,
) -> bool {
    m matches MessageView::Request(m) && {
        &&& m.jsonrpc == "2.0"@
        &&& m.id == id
        &&& m.method == method
        &&& params matches Some(v) ==> m.params == Some(json(v))
        &&& params is None ==> m.params is None
    }
}

/// The notification with these parts, of protocol version 2.0.
pub open spec fn is_notification(m: MessageView, method: Seq<char>, params: Option<Value>) -> bool {
    m matches MessageView::Notification(m) && {
        &&& m.jsonrpc == "2.0"@
        &&& m.method == method
        &&& params matches Some(v) ==> m.params == Some(json(v))
        &&& params is None ==> m.params is None
    }
}

/// The response with these parts.
pub open spec fn is_response(m: MessageView, r: Response) -> bool {
    m matches MessageView::Response(m) && {
        &&& m.jsonrpc == r.jsonrpc@
        &&& r.id matches Some(id) ==> m.id == Some(id@)
        &&& r.id is None ==> m.id is None
        &&& r.body matches ResponseBody::Result(v) ==> m.body == BodyView::Result(json(v))
        &&& r.body matches ResponseBody::Error(e) ==> (m.body matches BodyView::Error(f) && {
            &&& f.code == e.code
            &&& f.message == e.message@
            &&& e.data matches Some(v) ==> f.data == Some(json(v))
            &&& e.data is None ==> f.data is None
        })
    }
}

/// Notifying sends one message, the notification with this method and these params, or none if the
/// queue is closed. It sends nothing else, and changes nothing else.
pub proof fn notifying_sends_one_notification(
    sender: &mut ClientSender,
    method: &str,
    params: Option<Value>,
    r: Result<(), SendError>,
)
    requires
        call_ensures(ClientSender::notify, (sender, method, params), r),
    ensures
        r is Ok ==> exists|m: MessageView| #[trigger]
            is_notification(m, method@, params) && one_was_sent(
                old(sender).outbox(),
                m,
                final(sender).outbox(),
            ),
        r is Err ==> one_was_refused(old(sender).outbox(), final(sender).outbox()),
        old(sender).outbox().closed ==> r is Err,
        final(sender).upcoming_id() == old(sender).upcoming_id(),
        final(sender).drain() == old(sender).drain(),
{
    if r is Ok {
        let m = final(sender).outbox().accepted.last();
        assert(is_notification(m, method@, params));
        assert(one_was_sent(old(sender).outbox(), m, final(sender).outbox()));
    }
}

/// Responding sends one message, this response, or none if the queue is closed. It sends nothing
/// else, and changes nothing else.
pub proof fn responding_sends_one_response(
    sender: &mut ClientSender,
    response: Response,
    r: Result<(), SendError>,
)
    requires
        call_ensures(ClientSender::respond, (sender, response), r),
    ensures
        r is Ok ==> exists|m: MessageView| #[trigger]
            is_response(m, response) && one_was_sent(
                old(sender).outbox(),
                m,
                final(sender).outbox(),
            ),
        r is Err ==> one_was_refused(old(sender).outbox(), final(sender).outbox()),
        old(sender).outbox().closed ==> r is Err,
        final(sender).upcoming_id() == old(sender).upcoming_id(),
        final(sender).drain() == old(sender).drain(),
{
    if r is Ok {
        let m = final(sender).outbox().accepted.last();
        assert(is_response(m, response));
        assert(one_was_sent(old(sender).outbox(), m, final(sender).outbox()));
    }
}

/// Requesting sends one message, the request with this method and these params, under a positive id
/// that was not pending: the upcoming one, if that is free. The request is pending then, and its
/// receiver is that of the result. If the queue is closed, nothing is sent, and the same requests
/// are pending as before.
pub proof fn requesting_sends_one_request(
    sender: &mut ClientSender,
    responses: &mut ResponseMap,
    method: &str,
    params: Option<Value>,
    r: Result<PendingRequest, ProtocolError>,
)
    requires
        call_ensures(ClientSender::request, (sender, responses, method, params), r),
    ensures
        r matches Ok(p) ==> (p.guard.guarded() matches Some(id) && {
            &&& id matches IdView::Integer(n) && n >= 1
            &&& !old(responses)@.contains_key(id)
            &&& !old(responses)@.contains_key(IdView::Integer(old(sender).upcoming_id() as i32))
                ==> id == IdView::Integer(old(sender).upcoming_id() as i32)
            &&& final(responses)@.contains_key(id)
            &&& is_channel(final(responses)@[id], p.receiver)
            &&& same_elsewhere(old(responses)@, id, final(responses)@)
            &&& exists|m: MessageView| #[trigger]
                is_request(m, id, method@, params) && one_was_sent(
                    old(sender).outbox(),
                    m,
                    final(sender).outbox(),
                )
        }),
        r matches Err(e) ==> {
            &&& e == ProtocolError::Disconnected
            &&& final(responses)@ == old(responses)@
            &&& one_was_refused(old(sender).outbox(), final(sender).outbox())
        },
        old(sender).outbox().closed ==> r is Err,
        final(sender).drain() == old(sender).drain(),
{
    let start = old(sender).upcoming_id();
    let k = choose|k: nat| #[trigger]
        is_first_free(old(responses)@, start, k) && final(sender).upcoming_id() == nth_id(
            start,
            k + 1,
        ) && (match r {
            Ok(p) => {
                let id = IdView::Integer(nth_id(start, k) as i32);
                &&& p.guard.guarded() == Some(id)
                &&& reserved(old(responses)@, final(responses)@, id, p.receiver)
                &&& final(sender).outbox() == old(sender).outbox().push(
                    MessageView::Request(
                        RequestView {
                            jsonrpc: "2.0"@,
                            id,
                            method: method@,
                            params: json_in(params),
                        },
                    ),
                )
            },
            Err(e) => {
                &&& e == ProtocolError::Disconnected
                &&& final(responses)@ == old(responses)@
                &&& final(sender).outbox() == old(sender).outbox().refused()
            },
        });
    assert(nth_id(start, 0) == start);
    if let Ok(p) = r {
        let m = final(sender).outbox().accepted.last();
        let id = IdView::Integer(nth_id(start, k) as i32);
        assert(is_request(m, id, method@, params));
        assert(one_was_sent(old(sender).outbox(), m, final(sender).outbox()));
        if k > 0 {
            assert(old(responses)@.contains_key(IdView::Integer(nth_id(start, 0) as i32)));
        }
    }
}

/// Ids are given out one after another, and start again at 1 behind the largest. Giving one out
/// sends nothing.
pub proof fn ids_count_up(
    sender: &mut ClientSender,
    first: RequestId,
    next: &mut ClientSender,
    second: RequestId,
)
    requires
        call_ensures(ClientSender::next_id, (sender,), first),
        *old(next) == *final(sender),
        call_ensures(ClientSender::next_id, (next,), second),
    ensures
        first matches RequestId::Integer(a) && (second matches RequestId::Integer(b) && a >= 1 && b
            == (if a == 0x7fff_ffff {
            1
        } else {
            a + 1
        })),
        final(next).outbox() == old(sender).outbox(),
        final(next).drain() == old(sender).drain(),
{
}

/// The end of a wait gives the response that was received, or says why there is none, and then a
/// response that comes late finds no request. Other requests stay pending.
pub proof fn finished_wait_leaves_no_request(
    guard: &mut PendingResponseGuard,
    responses: &mut ResponseMap,
    outcome: ReplyOutcome,
    r: Result<Response, ProtocolError>,
)
    requires
        call_ensures(finish_request, (guard, responses, outcome), r),
    ensures
        outcome matches ReplyOutcome::Received(response) ==> r == Ok::<Response, ProtocolError>(
            response,
        ) && final(responses)@ == old(responses)@,
        outcome is Dropped || outcome is Stopped ==> r == Err::<Response, ProtocolError>(
            ProtocolError::Disconnected,
        ),
        outcome is TimedOut ==> r == Err::<Response, ProtocolError>(ProtocolError::RequestTimeout),
        !(outcome is Received) ==> (old(guard).guarded() matches Some(id)
            ==> !final(responses)@.contains_key(id)),
        forall|other: IdView|
            old(guard).guarded() != Some(other) ==> (#[trigger] final(responses)@.contains_key(other)
                <==> old(responses)@.contains_key(other)) && (old(responses)@.contains_key(other)
                ==> final(responses)@[other] == old(responses)@[other]),
        final(guard).guarded() is None,
{
}

/// What a queue says of its requests is what was done to it: a registered request is pending, and
/// raises the count by one unless one was pending under its id.
pub proof fn incoming_requests_are_counted<I>(
    queue: &mut IncomingRequests<I>,
    id: RequestId,
    data: I,
    token: CancellationToken,
    asked: &RequestId,
    before: bool,
    after: bool,
    count_before: usize,
    count_after: usize,
    empty: IncomingRequests<I>,
    none: bool,
    zero: usize,
)
    requires
        call_ensures(IncomingRequests::<I>::register, (queue, id, data, token), ()),
        call_ensures(IncomingRequests::<I>::is_pending, (old(queue), asked), before),
        call_ensures(IncomingRequests::<I>::is_pending, (final(queue), asked), after),
        call_ensures(IncomingRequests::<I>::pending_count, (old(queue),), count_before),
        call_ensures(IncomingRequests::<I>::pending_count, (final(queue),), count_after),
        call_ensures(IncomingRequests::<I>::new, (), empty),
        call_ensures(IncomingRequests::<I>::is_pending, (&empty, asked), none),
        call_ensures(IncomingRequests::<I>::pending_count, (&empty,), zero),
    ensures
        asked@ == id@ ==> after && count_after == count_before + (if before {
            0int
        } else {
            1
        }),
        asked@ != id@ ==> after == before,
        !none,
        zero == 0,
{
    assert(final(queue)@.dom() =~= old(queue)@.dom().insert(id@));
}

/// The same of the requests that await a response from the client.
pub proof fn outgoing_requests_are_counted<O>(
    queue: &mut OutgoingRequests<O>,
    id: RequestId,
    rx: oneshot::Receiver<O>,
    asked: &RequestId,
    before: bool,
    after: bool,
    count_before: usize,
    count_after: usize,
    empty: OutgoingRequests<O>,
    none: bool,
    zero: usize,
)
    requires
        call_ensures(OutgoingRequests::<O>::register, (queue, id), rx),
        call_ensures(OutgoingRequests::<O>::is_pending, (old(queue), asked), before),
        call_ensures(OutgoingRequests::<O>::is_pending, (final(queue), asked), after),
        call_ensures(OutgoingRequests::<O>::pending_count, (old(queue),), count_before),
        call_ensures(OutgoingRequests::<O>::pending_count, (final(queue),), count_after),
        call_ensures(OutgoingRequests::<O>::new, (), empty),
        call_ensures(OutgoingRequests::<O>::is_pending, (&empty, asked), none),
        call_ensures(OutgoingRequests::<O>::pending_count, (&empty,), zero),
    ensures
        asked@ == id@ ==> after && count_after == count_before + (if before {
            0int
        } else {
            1
        }),
        asked@ != id@ ==> after == before,
        !none,
        zero == 0,
{
    assert(final(queue)@.dom() =~= old(queue)@.dom().insert(id@));
}

/// A request of a client sender that was registered gets the response that is delivered under its
/// id, and is no longer pending then. Others are not touched.
pub proof fn delivered_response_goes_to_its_receiver(
    responses: &mut ResponseMap,
    id: RequestId,
    rx: oneshot::Receiver<Response>,
    next: &mut ResponseMap,
    done: &RequestId,
    response: Response,
    r: bool,
)
    requires
        call_ensures(ResponseMap::register, (responses, id), rx),
        *old(next) == *final(responses),
        call_ensures(ResponseMap::deliver, (next, done, response), r),
    ensures
        done@ == id@ ==> r && goes_to(response, rx),
        done@ != id@ ==> (r <==> old(responses)@.contains_key(done@)),
        !final(next)@.contains_key(done@),
        done@ != id@ ==> final(next)@.contains_key(id@) && is_channel(final(next)@[id@], rx),
        forall|other: IdView|
            other != done@ && other != id@ ==> (#[trigger] final(next)@.contains_key(other)
                <==> old(responses)@.contains_key(other)) && (old(responses)@.contains_key(other)
                ==> final(next)@[other] == old(responses)@[other]),
{
    if done@ == id@ {
        assert(is_channel(final(responses)@[id@], rx) && was_sent(
            final(responses)@[id@],
            response,
        ));
    }
}

/// A request is not registered over another: where one is pending under the id, there is no
/// receiver, and nothing changes.
pub proof fn pending_request_is_not_replaced(
    responses: &mut ResponseMap,
    id: RequestId,
    r: Option<oneshot::Receiver<Response>>,
)
    requires
        call_ensures(ResponseMap::try_register, (responses, id), r),
    ensures
        r is None <==> old(responses)@.contains_key(id@),
        r is None ==> final(responses)@ == old(responses)@,
        r matches Some(rx) ==> final(responses)@.contains_key(id@) && is_channel(
            final(responses)@[id@],
            rx,
        ),
        same_elsewhere(old(responses)@, id@, final(responses)@),
{
}

/// Dropping all requests leaves none pending, and their receivers get an error.
pub proof fn all_requests_are_dropped(
    responses: &mut ResponseMap,
    id: IdView,
    rx: oneshot::Receiver<Response>,
    count: usize,
)
    requires
        call_ensures(ResponseMap::cancel_all, (responses,), ()),
        old(responses)@.contains_key(id),
        is_channel(old(responses)@[id], rx),
        call_ensures(ResponseMap::pending_count, (final(responses),), count),
    ensures
        gets_error(rx),
        !final(responses)@.contains_key(id),
        count == 0,
{
    assert(was_dropped(old(responses)@[id]));
}

/// A guard that is released drops its request, once, and a guard that was disarmed drops none.
pub proof fn guard_drops_its_request(
    id: RequestId,
    new: PendingResponseGuard,
    guard: &mut PendingResponseGuard,
    responses: &mut ResponseMap,
    disarmed: &mut PendingResponseGuard,
    released: &mut PendingResponseGuard,
    other_responses: &mut ResponseMap,
)
    requires
        call_ensures(PendingResponseGuard::new, (id,), new),
        *old(guard) == new,
        call_ensures(PendingResponseGuard::release, (guard, responses), ()),
        call_ensures(PendingResponseGuard::disarm, (disarmed,), ()),
        *old(released) == *final(disarmed),
        call_ensures(PendingResponseGuard::release, (released, other_responses), ()),
    ensures
        new.guarded() == Some(id@),
        !final(responses)@.contains_key(id@),
        old(responses)@.contains_key(id@) ==> was_dropped(old(responses)@[id@]),
        same_elsewhere(old(responses)@, id@, final(responses)@),
        final(guard).guarded() is None,
        final(disarmed).guarded() is None,
        final(other_responses)@ == old(other_responses)@,
{
}

/// Sending a registered request puts one request with its id, method and params into the queue, and
/// the request stays pending. If the queue is closed, the request is dropped; no other request is.
pub proof fn registered_request_is_sent_once(
    sender: &mut ClientSender,
    responses: &mut ResponseMap,
    id: RequestId,
    method: &str,
    params: Option<Value>,
    r: Result<PendingResponseGuard, ProtocolError>,
)
    requires
        call_ensures(
            ClientSender::send_registered_request,
            (sender, responses, id, method, params),
            r,
        ),
    ensures
        r matches Ok(guard) ==> {
            &&& guard.guarded() == Some(id@)
            &&& final(responses)@ == old(responses)@
            &&& exists|m: MessageView| #[trigger]
                is_request(m, id@, method@, params) && one_was_sent(
                    old(sender).outbox(),
                    m,
                    final(sender).outbox(),
                )
        },
        r matches Err(e) ==> {
            &&& e == ProtocolError::Disconnected
            &&& final(responses)@ == old(responses)@.remove(id@)
            &&& old(responses)@.contains_key(id@) ==> was_dropped(old(responses)@[id@])
            &&& one_was_refused(old(sender).outbox(), final(sender).outbox())
        },
        old(sender).outbox().closed ==> r is Err,
        final(sender).upcoming_id() == old(sender).upcoming_id(),
        final(sender).drain() == old(sender).drain(),
{
    if r is Ok {
        let m = final(sender).outbox().accepted.last();
        assert(is_request(m, id@, method@, params));
        assert(one_was_sent(old(sender).outbox(), m, final(sender).outbox()));
    }
}

/// A slot is reserved under a positive id that was not pending: the upcoming one, if that is free.
/// Other requests are not touched, and nothing is sent.
pub proof fn slot_is_reserved_under_a_free_id(
    sender: &mut ClientSender,
    responses: &mut ResponseMap,
    r: (RequestId, oneshot::Receiver<Response>),
)
    requires
        call_ensures(ClientSender::reserve_request_slot, (sender, responses), r),
    ensures
        r.0 matches RequestId::Integer(n) && n >= 1,
        !old(responses)@.contains_key(r.0@),
        !old(responses)@.contains_key(IdView::Integer(old(sender).upcoming_id() as i32)) ==> r.0@
            == IdView::Integer(old(sender).upcoming_id() as i32),
        final(responses)@.contains_key(r.0@),
        is_channel(final(responses)@[r.0@], r.1),
        same_elsewhere(old(responses)@, r.0@, final(responses)@),
        final(sender).outbox() == old(sender).outbox(),
        final(sender).drain() == old(sender).drain(),
{
    let start = old(sender).upcoming_id();
    let k = choose|k: nat| #[trigger]
        is_first_free(old(responses)@, start, k) && r.0@ == IdView::Integer(
            nth_id(start, k) as i32,
        ) && final(sender).upcoming_id() == nth_id(start, k + 1);
    assert(nth_id(start, 0) == start);
    if k > 0 {
        assert(old(responses)@.contains_key(IdView::Integer(nth_id(start, 0) as i32)));
    }
}

/// A new client sender sends through the handle that it was given, numbers its requests from 1, or
/// from the first id that it was given, and hands its token on.
pub proof fn new_client_sender_starts_counting(
    tx: UnboundedSender<Message>,
    drain: CancellationToken,
    first_id: i32,
    sender: ClientSender,
    numbered: ClientSender,
    handed: CancellationToken,
)
    requires
        call_ensures(ClientSender::new, (tx, drain), sender),
        call_ensures(ClientSender::with_first_id, (tx, drain, first_id), numbered),
        call_ensures(ClientSender::drain_alive, (&sender,), handed),
    ensures
        sender.outbox() == outbox(tx),
        sender.drain() == token_view(drain),
        sender.upcoming_id() == 1,
        numbered.outbox() == outbox(tx),
        numbered.drain() == token_view(drain),
        numbered.upcoming_id() == first_id,
        token_view(handed) == token_view(drain),
{
}

} // verus!
