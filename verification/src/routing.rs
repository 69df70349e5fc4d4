//! Classification of inbound messages, and the responses that routing calls for.

use vstd::prelude::*;

use crate::error::{ErrorCode, ResponseError};
use crate::message::{Notification, Request, Response, ResponseBody};
use crate::request_id::RequestId;
use crate::text::join;
use tokio_util::sync::CancellationToken;

verus! {

/// An inbound message after routing.
#[derive(Debug)]
#[non_exhaustive]
pub enum IncomingMessage {
    /// A request that needs a response.
    ///
    /// The token is triggered when a `$/cancelRequest` is received for this request, or when the
    /// connection is shutting down.
    Request(Request, CancellationToken),
    /// A notification (fire-and-forget).
    Notification(Notification),
    /// A `$/cancelRequest` notification that was automatically processed.
    ///
    /// The token of the referenced request, if it is pending, has been triggered.
    CancelHandled,
    /// A response that was delivered to a pending outgoing request.
    ResponseRouted,
    /// A response for an unknown request id, or without an id.
    ResponseUnknown(Response),
}

impl IncomingMessage {
    /// Returns `true` if this message is a routed request.
    #[must_use]
    pub fn is_request(&self) -> (r: bool)
        ensures
            r == (self is Request),
    {
        matches!(self, Self::Request(_, _))
    }

    /// Returns `true` if this message is a notification.
    #[must_use]
    pub fn is_notification(&self) -> (r: bool)
        ensures
            r == (self is Notification),
    {
        matches!(self, Self::Notification(_))
    }

    /// Returns `true` if this message is an automatically handled cancellation notification.
    #[must_use]
    pub fn is_cancel_handled(&self) -> (r: bool)
        ensures
            r == (self is CancelHandled),
    {
        matches!(self, Self::CancelHandled)
    }

    /// Returns `true` if this message is a response routed to a pending request.
    #[must_use]
    pub fn is_response_routed(&self) -> (r: bool)
        ensures
            r == (self is ResponseRouted),
    {
        matches!(self, Self::ResponseRouted)
    }

    /// Returns `true` if this message is a response for an unknown request.
    #[must_use]
    pub fn is_response_unknown(&self) -> (r: bool)
        ensures
            r == (self is ResponseUnknown),
    {
        matches!(self, Self::ResponseUnknown(_))
    }
}

/// Creates a `MethodNotFound` error response for an unhandled request.
///
/// The response has the id of the request and error code `-32601`, and its message names the
/// method.
#[must_use]
pub fn method_not_found_response(request: &Request) -> (r: Response)
    ensures
        r.jsonrpc@ == "2.0"@,
        r.id == Some(request.id),
        r.body matches ResponseBody::Error(e) && e.code == ErrorCode::MethodNotFound.number()
            && e.message@ == "Method not found: "@ + request.method@ && e.data is None,
{
    let error = ResponseError::new(
        ErrorCode::MethodNotFound,
        join("Method not found: ", request.method.as_str()),
    );
    Response::err(request.id.clone(), error)
}

/// Creates a `RequestCancelled` error response for a cancelled request.
///
/// The response has the given id, error code `-32800` and a standard message.
pub fn cancelled_response(id: impl Into<RequestId>) -> (r: Response)
    ensures
        r.jsonrpc@ == "2.0"@,
        r.id is Some,
        call_ensures(<_ as Into<RequestId>>::into, (id,), r.id->0),
        r.body matches ResponseBody::Error(e) && e.code == ErrorCode::RequestCancelled.number()
            && e.message@ == "Request was cancelled"@ && e.data is None,
{
    let error = ResponseError::new(ErrorCode::RequestCancelled, "Request was cancelled");
    Response::err(id, error)
}

} // verus!
