//! Infrastructure for LSP (Language Server Protocol) servers: Content-Length framing, JSON-RPC
//! messages, request tracking, routing and the session lifecycle.
//!
//! The functions have contracts that Verus proves. I/O stays outside: a transport hands the
//! library bytes and messages, and writes what the library queues.
//!
//! ## Messages
//!
//! - [`RequestId`] - identifies requests and responses; an integer or a string
//! - [`ErrorCode`], [`ResponseError`] - the errors of responses
//! - [`Message`] - a [`Request`], a [`Response`] or a [`Notification`]
//!
//! ## Framing
//!
//! - [`LspCodec`] - reads messages from a byte buffer and writes them to one
//!
//! ## Sessions
//!
//! - [`Connection`] - routes inbound messages, and keeps the lifecycle and the pending requests
//! - [`IncomingMessage`] - what routing makes of a message
//! - [`ClientSender`] - sends notifications, responses and requests to the client
//! - [`RequestQueue`] - the pending requests of both directions
//!
//! The modules [`json`], [`buffer`], [`channel`], [`token`], [`io_error`] and [`text`] hold the
//! contracts of the outside functions that the library calls. The module [`laws`] says what calls of
//! the library come to, alone and one after another.

pub mod buffer;
pub mod channel;
pub mod client_sender;
pub mod codec;
pub mod connection;
mod convert;
pub mod error;
pub mod id_map;
pub mod io_error;
pub mod json;
pub mod laws;
pub mod lifecycle;
pub mod message;
pub mod request_id;
pub mod request_queue;
pub mod routing;
pub mod text;
pub mod token;

pub use client_sender::{ClientSender, ResponseMap, SendError};
pub use codec::{CodecError, LspCodec};
pub use connection::Connection;
pub use error::{ErrorCode, ResponseError};
pub use lifecycle::{
    ExitCode, LifecycleState, ProtocolError, EXIT_METHOD, INITIALIZED_METHOD, INITIALIZE_METHOD,
    SHUTDOWN_METHOD,
};
pub use message::{Message, Notification, Request, Response, ResponseBody};
pub use request_id::RequestId;
pub use request_queue::{
    parse_cancel_params, IncomingRequests, OutgoingRequests, RequestQueue, CANCEL_REQUEST_METHOD,
};
pub use routing::{cancelled_response, method_not_found_response, IncomingMessage};

// Requests are routed with a token of this type.
pub use tokio_util::sync::CancellationToken;
