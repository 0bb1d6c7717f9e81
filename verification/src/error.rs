//! Error taxonomy of the download engine.

use crate::text::{decimal, decimal_string, join2, join3, owned};
use vstd::prelude::*;

verus! {

/// Class of a network failure.
#[derive(Clone, Copy, Debug, PartialEq, Eq, Structural)]
pub enum NetworkErrorKind {
    Timeout,
    Dns,
    Tls,
    /// The server answered with this HTTP status code.
    HttpStatus(u16),
    Other,
}

/// Class of a storage failure.
#[derive(Clone, Copy, Debug, PartialEq, Eq, Structural)]
pub enum StorageErrorKind {
    Io,
    AllocFailed,
    PermissionDenied,
}

/// Class of a protocol failure.
#[derive(Clone, Copy, Debug, PartialEq, Eq, Structural)]
pub enum ProtocolErrorKind {
    InvalidTorrent,
    PeerProtocol,
    HandshakeFailed,
}

/// Everything that an engine operation can fail with.
#[derive(Debug)]
#[allow(inconsistent_fields)]
pub enum EngineError {
    /// Caller error; never retried.
    InvalidInput { field: String, message: String },
    /// Unknown download id.
    NotFound(String),
    /// The operation is forbidden in the download's current state.
    InvalidState { action: String, current_state: String },
    Network { kind: NetworkErrorKind, message: String },
    Storage { kind: StorageErrorKind, path: String, message: String },
    Protocol { kind: ProtocolErrorKind, message: String },
    /// The persistent store failed.
    Database(String),
    /// The engine is stopping.
    Shutdown,
    /// An invariant was violated.
    Internal(String),
}

/// An `EngineError` with its texts as character sequences.
#[allow(inconsistent_fields)]
pub enum EngineErrorView {
    InvalidInput { field: Seq<char>, message: Seq<char> },
    NotFound(Seq<char>),
    InvalidState { action: Seq<char>, current_state: Seq<char> },
    Network { kind: NetworkErrorKind, message: Seq<char> },
    Storage { kind: StorageErrorKind, path: Seq<char>, message: Seq<char> },
    Protocol { kind: ProtocolErrorKind, message: Seq<char> },
    Database(Seq<char>),
    Shutdown,
    Internal(Seq<char>),
}

impl View for EngineError {
    type V = EngineErrorView;

    open spec fn view(&self) -> EngineErrorView {
        match self {
            EngineError::InvalidInput { field, message } => EngineErrorView::InvalidInput {
                field: field@,
                message: message@,
            },
            EngineError::NotFound(m) => EngineErrorView::NotFound(m@),
            EngineError::InvalidState { action, current_state } => EngineErrorView::InvalidState {
                action: action@,
                current_state: current_state@,
            },
            EngineError::Network { kind, message } => EngineErrorView::Network {
                kind: *kind,
                message: message@,
            },
            EngineError::Storage { kind, path, message } => EngineErrorView::Storage {
                kind: *kind,
                path: path@,
                message: message@,
            },
            EngineError::Protocol { kind, message } => EngineErrorView::Protocol {
                kind: *kind,
                message: message@,
            },
            EngineError::Database(m) => EngineErrorView::Database(m@),
            EngineError::Shutdown => EngineErrorView::Shutdown,
            EngineError::Internal(m) => EngineErrorView::Internal(m@),
        }
    }
}

/// A network failure is transient unless the server answered with a 4xx
/// status other than 408 (request timeout) and 429 (too many requests).
pub open spec fn network_kind_retryable(kind: NetworkErrorKind) -> bool {
    match kind {
        NetworkErrorKind::HttpStatus(code) => !(400 <= code < 500) || code == 408 || code == 429,
        _ => true,
    }
}

/// Only plain I/O failures of the storage are worth another attempt.
pub open spec fn storage_kind_retryable(kind: StorageErrorKind) -> bool {
    kind == StorageErrorKind::Io
}

impl EngineErrorView {
    /// Whether the failed operation may succeed when tried again.
    pub open spec fn is_retryable(self) -> bool {
        match self {
            EngineErrorView::Network { kind, .. } => network_kind_retryable(kind),
            EngineErrorView::Storage { kind, .. } => storage_kind_retryable(kind),
            _ => false,
        }
    }

    /// Name of the error's variant.
    pub open spec fn kind_name(self) -> Seq<char> {
        match self {
            EngineErrorView::InvalidInput { .. } => "InvalidInput"@,
            EngineErrorView::NotFound(_) => "NotFound"@,
            EngineErrorView::InvalidState { .. } => "InvalidState"@,
            EngineErrorView::Network { .. } => "Network"@,
            EngineErrorView::Storage { .. } => "Storage"@,
            EngineErrorView::Protocol { .. } => "Protocol"@,
            EngineErrorView::Database(_) => "Database"@,
            EngineErrorView::Shutdown => "Shutdown"@,
            EngineErrorView::Internal(_) => "Internal"@,
        }
    }

    /// The error as one line of text.
    pub open spec fn describe(self) -> Seq<char> {
        match self {
            EngineErrorView::InvalidInput { field, message } => "invalid input for "@ + field
                + ": "@ + message,
            EngineErrorView::NotFound(m) => "not found: "@ + m,
            EngineErrorView::InvalidState { action, current_state } => "cannot "@ + action
                + " in state "@ + current_state,
            EngineErrorView::Network { message, .. } => "network error: "@ + message,
            EngineErrorView::Storage { path, message, .. } => "storage error at "@ + path + ": "@
                + message,
            EngineErrorView::Protocol { message, .. } => "protocol error: "@ + message,
            EngineErrorView::Database(m) => "database error: "@ + m,
            EngineErrorView::Shutdown => "engine is shutting down"@,
            EngineErrorView::Internal(m) => "internal error: "@ + m,
        }
    }
}

pub fn network_retryable(kind: NetworkErrorKind) -> (r: bool)
    ensures
        r == network_kind_retryable(kind),
{
    match kind {
        NetworkErrorKind::HttpStatus(code) => !(400 <= code && code < 500) || code == 408 || code
            == 429,
        _ => true,
    }
}

impl EngineError {
    pub fn invalid_input(field: &str, message: String) -> (e: EngineError)
        ensures
            e@ == (EngineErrorView::InvalidInput { field: field@, message: message@ }),
    {
        EngineError::InvalidInput { field: owned(field), message }
    }

    pub fn network(kind: NetworkErrorKind, message: String) -> (e: EngineError)
        ensures
            e@ == (EngineErrorView::Network { kind, message: message@ }),
    {
        EngineError::Network { kind, message }
    }

    pub fn storage(kind: StorageErrorKind, path: &str, message: String) -> (e: EngineError)
        ensures
            e@ == (EngineErrorView::Storage { kind, path: path@, message: message@ }),
    {
        EngineError::Storage { kind, path: owned(path), message }
    }

    pub fn protocol(kind: ProtocolErrorKind, message: String) -> (e: EngineError)
        ensures
            e@ == (EngineErrorView::Protocol { kind, message: message@ }),
    {
        EngineError::Protocol { kind, message }
    }

    /// A network error for an HTTP status that was not accepted; the message
    /// is `what`, then `": HTTP "` and the status code.
    pub fn http_status(code: u16, what: &str) -> (e: EngineError)
        ensures
            e@ == (EngineErrorView::Network {
                kind: NetworkErrorKind::HttpStatus(code),
                message: what@ + ": HTTP "@ + decimal(code as nat),
            }),
    {
        let number = decimal_string(code as u64);
        EngineError::Network {
            kind: NetworkErrorKind::HttpStatus(code),
            message: join3(what, ": HTTP ", number.as_str()),
        }
    }

    /// Whether the failed operation may succeed when tried again.
    pub fn is_retryable(&self) -> (r: bool)
        ensures
            r == self@.is_retryable(),
    {
        match self {
            EngineError::Network { kind, .. } => network_retryable(*kind),
            EngineError::Storage { kind, .. } => match kind {
                StorageErrorKind::Io => true,
                _ => false,
            },
            _ => false,
        }
    }

    /// Name of the error's variant.
    pub fn kind_name(&self) -> (r: String)
        ensures
            r@ == self@.kind_name(),
    {
        match self {
            EngineError::InvalidInput { .. } => owned("InvalidInput"),
            EngineError::NotFound(_) => owned("NotFound"),
            EngineError::InvalidState { .. } => owned("InvalidState"),
            EngineError::Network { .. } => owned("Network"),
            EngineError::Storage { .. } => owned("Storage"),
            EngineError::Protocol { .. } => owned("Protocol"),
            EngineError::Database(_) => owned("Database"),
            EngineError::Shutdown => owned("Shutdown"),
            EngineError::Internal(_) => owned("Internal"),
        }
    }

    /// The error as one line of text.
    pub fn describe(&self) -> (r: String)
        ensures
            r@ == self@.describe(),
    {
        match self {
            EngineError::InvalidInput { field, message } => {
                let head = join3("invalid input for ", field.as_str(), ": ");
                join2(head.as_str(), message.as_str())
            },
            EngineError::NotFound(m) => join2("not found: ", m.as_str()),
            EngineError::InvalidState { action, current_state } => {
                let head = join3("cannot ", action.as_str(), " in state ");
                join2(head.as_str(), current_state.as_str())
            },
            EngineError::Network { message, .. } => join2("network error: ", message.as_str()),
            EngineError::Storage { path, message, .. } => {
                let head = join3("storage error at ", path.as_str(), ": ");
                join2(head.as_str(), message.as_str())
            },
            EngineError::Protocol { message, .. } => join2("protocol error: ", message.as_str()),
            EngineError::Database(m) => join2("database error: ", m.as_str()),
            EngineError::Shutdown => owned("engine is shutting down"),
            EngineError::Internal(m) => join2("internal error: ", m.as_str()),
        }
    }
}

} // verus!
