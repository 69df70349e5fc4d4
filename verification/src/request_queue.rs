//! Tracking of pending requests, in both directions.
//!
//! - [`IncomingRequests`] tracks requests received from the client, which await a response
//! - [`OutgoingRequests`] tracks requests sent to the client, whose response is awaited
//! - [`RequestQueue`] holds one of each

use vstd::prelude::*;

use crate::id_map::IdMap;
use crate::json::{clone_in, open, remove_member, Json};
use crate::message::Response;
use crate::request_id::RequestId;
use crate::token::SharedToken;
use serde_json::Value;
use tokio::sync::oneshot;
use tokio_util::sync::CancellationToken;

verus! {

use crate::channel::{gets_error, is_channel, was_dropped, was_sent};
use crate::json::{json_in, member, JsonView};
use crate::request_id::IdView;
use crate::token::{token_view, TokenView};

/// The method of the notification that asks for a request to be cancelled.
pub const CANCEL_REQUEST_METHOD: &'static str = "$/cancelRequest";

/// The id that the params of a cancel request name: the member `id` of an object, if it is an
/// identifier.
pub open spec fn cancel_target(params: Option<JsonView>) -> Option<IdView> {
    match params {
        Some(JsonView::Object(o)) => match member(o, "id"@) {
            Some(id) => IdView::of_json(id),
            None => None,
        },
        _ => None,
    }
}

/// Reads the id of the request to be cancelled from the params of a `$/cancelRequest`.
///
/// Returns `None` if there is no `id`, or if it is neither an integer nor a string.
pub fn parse_cancel_params(params: &Option<Value>) -> (r: Option<RequestId>)
    ensures
        match r {
            Some(id) => cancel_target(json_in(*params)) == Some(id@),
            None => cancel_target(json_in(*params)) is None,
        },
{
    match clone_in(params) {
        Some(params) => match open(params) {
            Json::Object(o) => {
                let mut o = o;
                match remove_member(&mut o, "id") {
                    Some(id) => RequestId::from_value(id),
                    None => None,
                }
            },
            _ => None,
        },
        None => None,
    }
}

/// Tracks requests received from clients (incoming to the server).
///
/// Each request is registered with metadata of type `I`, which is given back when the request is
/// completed, and with a [`CancellationToken`] that signals its cancellation.
#[derive(Debug)]
pub struct IncomingRequests<I> {
    pending: IdMap<(I, SharedToken)>,
}

impl<I> View for IncomingRequests<I> {
    type V = Map<IdView, (I, CancellationToken)>;

    closed spec fn view(&self) -> Map<IdView, (I, CancellationToken)> {
        Map::new(
            |id: IdView| self.pending@.contains_key(id),
            |id: IdView| (self.pending@[id].0, self.pending@[id].1.kept()),
        )
    }
}

impl<I> IncomingRequests<I> {
    /// Creates a new empty incoming request tracker.
    pub fn new() -> (r: Self)
        ensures
            r@ == Map::<IdView, (I, CancellationToken)>::empty(),
    {
        let r = Self { pending: IdMap::new() };
        assert(r@ =~= Map::empty());
        r
    }

    /// Registers an incoming request with associated metadata and cancellation token.
    ///
    /// A request that is pending under the same id is replaced.
    pub fn register(&mut self, id: RequestId, data: I, token: CancellationToken)
        ensures
            final(self)@ == old(self)@.insert(id@, (data, token)),
    {
        let _ = self.pending.insert(id, (data, SharedToken::of(token)));
        assert(self@ =~= old(self)@.insert(id@, (data, token)));
    }

    /// Completes an incoming request, removing it from tracking and returning the metadata.
    ///
    /// Returns `Some(metadata)` if the request was pending, `None` otherwise.
    /// The cancellation token is dropped when the request is completed.
    pub fn complete(&mut self, id: &RequestId) -> (r: Option<I>)
        ensures
            final(self)@ == old(self)@.remove(id@),
            r == (if old(self)@.contains_key(id@) {
                Some(old(self)@[id@].0)
            } else {
                None
            }),
    {
        let removed = self.pending.remove(id);
        assert(self@ =~= old(self)@.remove(id@));
        match removed {
            Some((data, _)) => Some(data),
            None => None,
        }
    }

    /// Returns `true` if the request is currently pending.
    pub fn is_pending(&self, id: &RequestId) -> (r: bool)
        ensures
            r == self@.contains_key(id@),
    {
        self.pending.contains_key(id)
    }

    /// Cancels a pending request by triggering its cancellation token.
    ///
    /// Returns `true` if the request was found and cancelled, `false` if the
    /// request ID was not pending. The request stays pending. Note that cancelling an
    /// already-cancelled token is a no-op.
    pub fn cancel(&mut self, id: &RequestId) -> (r: bool)
        ensures
            r == old(self)@.contains_key(id@),
            cancelled_in(old(self)@, id@, final(self)@),
    {
        match self.pending.remove(id) {
            Some((data, token)) => {
                let mut token = token;
                token.cancel();
                let _ = self.pending.insert(id.clone(), (data, token));
                assert(self@ =~= old(self)@.insert(id@, self@[id@]));
                true
            },
            None => {
                assert(self@ =~= old(self)@);
                false
            },
        }
    }

    /// Returns a clone of the cancellation token for a pending request.
    ///
    /// Returns `None` if the request is not pending. The returned token
    /// can be passed to async handlers for cooperative cancellation. That it was given out counts as
    /// a change of the request, so that what leaves a request as it is cannot have given one out.
    pub fn get_token(&mut self, id: &RequestId) -> (r: Option<CancellationToken>)
        ensures
            match r {
                Some(token) => {
                    &&& old(self)@.contains_key(id@)
                    &&& token_view(token) == token_view(old(self)@[id@].1)
                    &&& final(self)@ == old(self)@.insert(id@, final(self)@[id@])
                    &&& final(self)@[id@].0 == old(self)@[id@].0
                    &&& token_view(final(self)@[id@].1) == token_view(old(self)@[id@].1)
                },
                None => !old(self)@.contains_key(id@) && final(self)@ == old(self)@,
            },
    {
        match self.pending.remove(id) {
            Some((data, token)) => {
                let mut token = token;
                let handle = token.handle();
                let _ = self.pending.insert(id.clone(), (data, token));
                assert(self@ =~= old(self)@.insert(id@, self@[id@]));
                Some(handle)
            },
            None => {
                assert(self@ =~= old(self)@);
                None
            },
        }
    }

    /// Returns the number of currently pending requests.
    pub fn pending_count(&self) -> (r: usize)
        ensures
            self@.dom().finite(),
            r == self@.dom().len(),
    {
        assert(self@.dom() =~= self.pending@.dom());
        self.pending.len()
    }
}

/// `after` is `before` with the token of `id` cancelled, if `id` is pending, and is `before`
/// otherwise.
pub open spec fn cancelled_in<I>(
    before: Map<IdView, (I, CancellationToken)>,
    id: IdView,
    after: Map<IdView, (I, CancellationToken)>,
) -> bool {
    if before.contains_key(id) {
        &&& after == before.insert(id, after[id])
        &&& after[id].0 == before[id].0
        &&& token_view(after[id].1) == (TokenView { cancelled: true, ..token_view(before[id].1) })
    } else {
        after == before
    }
}

impl<I> Default for IncomingRequests<I> {
    fn default() -> (r: Self)
        ensures
            r@ == Map::<IdView, (I, CancellationToken)>::empty(),
    {
        Self::new()
    }
}

/// Tracks requests sent to clients (outgoing from the server).
///
/// Each request is registered with the sending half of a one-shot channel. When the response
/// arrives, it is sent to the receiving half, which the registration gave out.
#[derive(Debug)]
#[verifier::reject_recursive_types(O)]
pub struct OutgoingRequests<O> {
    pending: IdMap<oneshot::Sender<O>>,
}

impl<O> View for OutgoingRequests<O> {
    type V = Map<IdView, oneshot::Sender<O>>;

    closed spec fn view(&self) -> Map<IdView, oneshot::Sender<O>> {
        self.pending@
    }
}

impl<O> OutgoingRequests<O> {
    /// Creates a new empty outgoing request tracker.
    pub fn new() -> (r: Self)
        ensures
            r@ == Map::<IdView, oneshot::Sender<O>>::empty(),
    {
        Self { pending: IdMap::new() }
    }

    /// Registers an outgoing request and returns a receiver for the response.
    ///
    /// The receiver gets the response when [`complete`](Self::complete) is called with the same
    /// id. If the request is cancelled via [`cancel`](Self::cancel), the receiver gets an error.
    /// A request that is pending under the same id is replaced, and its receiver gets an error.
    pub fn register(&mut self, id: RequestId) -> (r: oneshot::Receiver<O>)
        ensures
            final(self)@.contains_key(id@),
            final(self)@ == old(self)@.insert(id@, final(self)@[id@]),
            is_channel(final(self)@[id@], r),
            old(self)@.contains_key(id@) ==> was_dropped(old(self)@[id@]),
    {
        let (tx, rx) = oneshot::channel();
        match self.pending.insert(id, tx) {
            Some(replaced) => core::mem::drop(replaced),
            None => {},
        }
        rx
    }

    /// Completes an outgoing request by sending the response to the waiting receiver.
    ///
    /// Returns `true` if the request was pending and the response was sent,
    /// `false` if the request was not found.
    ///
    /// Note: This returns `true` even if the receiver was dropped (the response is
    /// still considered "completed" from the queue's perspective).
    pub fn complete(&mut self, id: &RequestId, response: O) -> (r: bool)
        ensures
            r == old(self)@.contains_key(id@),
            final(self)@ == old(self)@.remove(id@),
            r ==> was_sent(old(self)@[id@], response),
    {
        match self.pending.remove(id) {
            Some(tx) => {
                let _ = tx.send(response);
                true
            },
            None => false,
        }
    }

    /// Cancels an outgoing request without sending a response.
    ///
    /// The sender is dropped, so that the receiver gets an error.
    ///
    /// Returns `true` if the request was pending, `false` otherwise.
    pub fn cancel(&mut self, id: &RequestId) -> (r: bool)
        ensures
            r == old(self)@.contains_key(id@),
            final(self)@ == old(self)@.remove(id@),
            r ==> was_dropped(old(self)@[id@]),
    {
        match self.pending.remove(id) {
            Some(tx) => {
                core::mem::drop(tx);
                true
            },
            None => false,
        }
    }

    /// Cancels all outgoing requests. Their receivers get an error.
    pub(crate) fn cancel_all(&mut self)
        ensures
            final(self)@ == Map::<IdView, oneshot::Sender<O>>::empty(),
            forall|id: IdView|
                old(self)@.contains_key(id) ==> #[trigger] was_dropped(old(self)@[id]),
    {
        let ghost all = self@;
        loop
            invariant
                self@.submap_of(all),
                all == old(self)@,
                forall|id: IdView|
                    all.contains_key(id) && !self@.contains_key(id) ==> #[trigger] was_dropped(
                        all[id],
                    ),
            decreases self@.dom().len(),
        {
            match self.pending.pop() {
                Some((_, tx)) => core::mem::drop(tx),
                None => return,
            }
        }
    }

    /// Returns `true` if the request is currently pending.
    pub fn is_pending(&self, id: &RequestId) -> (r: bool)
        ensures
            r == self@.contains_key(id@),
    {
        self.pending.contains_key(id)
    }

    /// Returns the number of currently pending requests.
    pub fn pending_count(&self) -> (r: usize)
        ensures
            self@.dom().finite(),
            r == self@.dom().len(),
    {
        self.pending.len()
    }
}

impl<O> Default for OutgoingRequests<O> {
    fn default() -> (r: Self)
        ensures
            r@ == Map::<IdView, oneshot::Sender<O>>::empty(),
    {
        Self::new()
    }
}

/// The receiver that was given out for a request gets an error once the request was cancelled or
/// replaced: its sender is dropped then.
pub proof fn dropped_request_gives_an_error<O>(
    pending: Map<IdView, oneshot::Sender<O>>,
    id: IdView,
    receiver: oneshot::Receiver<O>,
)
    requires
        pending.contains_key(id),
        is_channel(pending[id], receiver),
        was_dropped(pending[id]),
    ensures
        gets_error(receiver),
{
}

/// Combined request queue tracking both incoming and outgoing requests.
#[derive(Debug)]
#[verifier::reject_recursive_types(O)]
pub struct RequestQueue<I, O = Response> {
    /// Tracker for requests received from clients.
    pub incoming: IncomingRequests<I>,
    /// Tracker for requests sent to clients.
    pub outgoing: OutgoingRequests<O>,
}

impl<I, O> RequestQueue<I, O> {
    /// Creates a new empty request queue.
    pub fn new() -> (r: Self)
        ensures
            r.incoming@ == Map::<IdView, (I, CancellationToken)>::empty(),
            r.outgoing@ == Map::<IdView, oneshot::Sender<O>>::empty(),
    {
        Self { incoming: IncomingRequests::new(), outgoing: OutgoingRequests::new() }
    }
}

impl<I, O> Default for RequestQueue<I, O> {
    fn default() -> (r: Self)
        ensures
            r.incoming@ == Map::<IdView, (I, CancellationToken)>::empty(),
            r.outgoing@ == Map::<IdView, oneshot::Sender<O>>::empty(),
    {
        Self::new()
    }
}

} // verus!
