//! Lifecycle of an LSP connection: states, protocol errors and exit codes.
//!
//! A connection goes through these states:
//!
//! 1. **Uninitialized** - only the `initialize` request is allowed
//! 2. **Initializing** - `initialize` was received, only `initialized` is allowed
//! 3. **Running** - everything but `initialize` is allowed
//! 4. **`ShuttingDown`** - `shutdown` was received, only `exit` is allowed
//! 5. **Exited** - `exit` was received

use vstd::prelude::*;

use crate::io_error::error_text;
use crate::text::{join, text_eq};

verus! {

/// The method of the request that opens a session.
pub const INITIALIZE_METHOD: &'static str = "initialize";

/// The method of the notification that ends the opening handshake.
pub const INITIALIZED_METHOD: &'static str = "initialized";

/// The method of the request that announces the end of a session.
pub const SHUTDOWN_METHOD: &'static str = "shutdown";

/// The method of the notification that ends a session.
pub const EXIT_METHOD: &'static str = "exit";

/// How long the `initialized` notification is awaited, in seconds.
pub const INITIALIZE_TIMEOUT_SECONDS: u64 = 60;

/// The lifecycle state of an LSP connection.
///
/// ```text
/// Uninitialized --(initialize)--> Initializing --(initialized)--> Running
///       |                                                            |
///       | (exit)                                                     | (shutdown)
///       v                                                            v
///    Exited <----------------------(exit)--------------------- ShuttingDown
/// ```
#[derive(Debug, Clone, Copy, PartialEq, Eq, Structural)]
#[non_exhaustive]
pub enum LifecycleState {
    /// Connection established, awaiting the `initialize` request.
    Uninitialized,
    /// `initialize` received, awaiting the `initialized` notification.
    Initializing,
    /// Normal operation.
    Running,
    /// `shutdown` received, awaiting the `exit` notification.
    ShuttingDown,
    /// `exit` received, the connection should close.
    Exited,
}

impl Default for LifecycleState {
    fn default() -> (r: Self)
        ensures
            r == LifecycleState::Uninitialized,
    {
        LifecycleState::Uninitialized
    }
}

impl LifecycleState {
    /// The requests that are valid in this state: `initialize` before anything else, and
    /// everything but `initialize` while running.
    pub open spec fn allows_request(self, method: Seq<char>) -> bool {
        match self {
            LifecycleState::Uninitialized => method == "initialize"@,
            LifecycleState::Running => method != "initialize"@,
            LifecycleState::Initializing => false,
            LifecycleState::ShuttingDown => false,
            LifecycleState::Exited => false,
        }
    }

    /// The notifications that are valid in this state: `exit` before initialization and after
    /// shutdown, `initialized` while initializing, and every one while running.
    pub open spec fn allows_notification(self, method: Seq<char>) -> bool {
        match self {
            LifecycleState::Uninitialized | LifecycleState::ShuttingDown => method == "exit"@,
            LifecycleState::Initializing => method == "initialized"@,
            LifecycleState::Running => true,
            LifecycleState::Exited => false,
        }
    }

    /// The exit code of a session that is ended by `exit` in this state.
    pub open spec fn exit_code(self) -> ExitCode {
        if self == LifecycleState::ShuttingDown {
            ExitCode::Success
        } else {
            ExitCode::Error
        }
    }

    /// Returns `true` if the given request method is valid in this state.
    ///
    /// | State | Allowed Requests |
    /// |-------|-----------------|
    /// | Uninitialized | `initialize` only |
    /// | Initializing | None |
    /// | Running | All except `initialize` |
    /// | `ShuttingDown` | None |
    /// | Exited | None |
    #[must_use]
    pub fn is_request_allowed(&self, method: &str) -> (r: bool)
        ensures
            r == self.allows_request(method@),
    {
        match self {
            Self::Uninitialized => text_eq(method, INITIALIZE_METHOD),
            Self::Initializing | Self::ShuttingDown | Self::Exited => false,
            Self::Running => !text_eq(method, INITIALIZE_METHOD),
        }
    }

    /// Returns `true` if the given notification method is valid in this state.
    ///
    /// | State | Allowed Notifications |
    /// |-------|----------------------|
    /// | Uninitialized | `exit` only |
    /// | Initializing | `initialized` only |
    /// | Running | All |
    /// | `ShuttingDown` | `exit` only |
    /// | Exited | None |
    #[must_use]
    pub fn is_notification_allowed(&self, method: &str) -> (r: bool)
        ensures
            r == self.allows_notification(method@),
    {
        match self {
            Self::Uninitialized | Self::ShuttingDown => text_eq(method, EXIT_METHOD),
            Self::Initializing => text_eq(method, INITIALIZED_METHOD),
            Self::Running => true,
            Self::Exited => false,
        }
    }
}

/// A session is opened once: `initialize` is valid in the first state and in no other.
pub proof fn initialize_is_allowed_once(state: LifecycleState)
    ensures
        state.allows_request("initialize"@) <==> state == LifecycleState::Uninitialized,
{
}

/// Only a running session accepts requests other than `initialize`.
pub proof fn requests_need_a_running_session(state: LifecycleState, method: Seq<char>)
    requires
        method != "initialize"@,
    ensures
        state.allows_request(method) <==> state == LifecycleState::Running,
{
}

/// Once a session has exited, no message is valid.
pub proof fn nothing_is_allowed_after_exit(method: Seq<char>)
    ensures
        !LifecycleState::Exited.allows_request(method),
        !LifecycleState::Exited.allows_notification(method),
{
}

/// The exit is clean if and only if `shutdown` came first.
pub proof fn exit_is_clean_only_after_shutdown(state: LifecycleState)
    ensures
        state.exit_code() == ExitCode::Success <==> state == LifecycleState::ShuttingDown,
{
}

/// Exit code for the LSP server process.
///
/// As an `i32`, `Success` is 0 and `Error` is 1.
#[derive(Debug, Clone, Copy, PartialEq, Eq, Structural)]
pub enum ExitCode {
    /// Proper shutdown sequence was followed (`shutdown` then `exit`).
    Success,
    /// Exit without prior shutdown request.
    Error,
}

/// Errors that occur during LSP protocol lifecycle management.
#[derive(Debug)]
#[non_exhaustive]
pub enum ProtocolError {
    /// Expected `initialize` request, but received a different message.
    ExpectedInitialize(String),
    /// Expected `initialized` notification, but received a different message.
    ExpectedInitialized(String),
    /// The connection was disconnected unexpectedly.
    Disconnected,
    /// Received a request after the `shutdown` request was processed.
    AfterShutdown(String),
    /// Timed out waiting for the `initialized` notification.
    InitializeTimeout,
    /// Timed out waiting for a response to a server-initiated request.
    RequestTimeout,
    /// An I/O error occurred during protocol communication.
    Io(std::io::Error),
}

impl vstd::std_specs::convert::FromSpecImpl<std::io::Error> for ProtocolError {
    open spec fn obeys_from_spec() -> bool {
        true
    }

    open spec fn from_spec(e: std::io::Error) -> Self {
        ProtocolError::Io(e)
    }
}

impl From<std::io::Error> for ProtocolError {
    fn from(e: std::io::Error) -> (r: Self) {
        ProtocolError::Io(e)
    }
}

impl ProtocolError {
    /// `text` is the message of this error. That of an I/O error ends with what the I/O error
    /// displays.
    pub open spec fn shows(self, text: Seq<char>) -> bool {
        match self {
            ProtocolError::ExpectedInitialize(got) => text == "expected initialize request, got: "@
                + got@,
            ProtocolError::ExpectedInitialized(got) => text
                == "expected initialized notification, got: "@ + got@,
            ProtocolError::Disconnected => text == "connection disconnected unexpectedly"@,
            ProtocolError::AfterShutdown(got) => text == "received request after shutdown: "@
                + got@,
            ProtocolError::InitializeTimeout => text
                == "timed out waiting for initialized notification (60s)"@,
            ProtocolError::RequestTimeout => text
                == "timed out waiting for response to server request"@,
            ProtocolError::Io(e) => exists|shown: Seq<char>|
                text == #[trigger] ("I/O error: "@ + shown) && (
                crate::io_error::io_error_text(e) matches Some(t) ==> shown == t),
        }
    }

    /// Returns the message of this error.
    pub fn to_string(&self) -> (r: String)
        ensures
            self.shows(r@),
    {
        match self {
            ProtocolError::ExpectedInitialize(got) => join(
                "expected initialize request, got: ",
                got.as_str(),
            ),
            ProtocolError::ExpectedInitialized(got) => join(
                "expected initialized notification, got: ",
                got.as_str(),
            ),
            ProtocolError::Disconnected => "connection disconnected unexpectedly".to_owned(),
            ProtocolError::AfterShutdown(got) => join(
                "received request after shutdown: ",
                got.as_str(),
            ),
            ProtocolError::InitializeTimeout =>
                "timed out waiting for initialized notification (60s)".to_owned(),
            ProtocolError::RequestTimeout =>
                "timed out waiting for response to server request".to_owned(),
            ProtocolError::Io(e) => join("I/O error: ", error_text(e).as_str()),
        }
    }
}

} // verus!
