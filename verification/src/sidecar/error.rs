//! Errors as the front end receives them: a code and one line of text.

use crate::error::{EngineError, EngineErrorView};
use crate::text::{join2, join3, owned};
use vstd::prelude::*;

verus! {

/// What a command of the front end can fail with.
#[derive(Debug)]
pub enum Error {
    Engine(String),
    EngineNotInitialized,
    Database(String),
    Io(String),
    Serialization(String),
    Rusqlite(String),
    InvalidInput(String),
    NotFound(String),
    Network(String),
}

pub enum ErrorView {
    Engine(Seq<char>),
    EngineNotInitialized,
    Database(Seq<char>),
    Io(Seq<char>),
    Serialization(Seq<char>),
    Rusqlite(Seq<char>),
    InvalidInput(Seq<char>),
    NotFound(Seq<char>),
    Network(Seq<char>),
}

impl View for Error {
    type V = ErrorView;

    open spec fn view(&self) -> ErrorView {
        match self {
            Error::Engine(m) => ErrorView::Engine(m@),
            Error::EngineNotInitialized => ErrorView::EngineNotInitialized,
            Error::Database(m) => ErrorView::Database(m@),
            Error::Io(m) => ErrorView::Io(m@),
            Error::Serialization(m) => ErrorView::Serialization(m@),
            Error::Rusqlite(m) => ErrorView::Rusqlite(m@),
            Error::InvalidInput(m) => ErrorView::InvalidInput(m@),
            Error::NotFound(m) => ErrorView::NotFound(m@),
            Error::Network(m) => ErrorView::Network(m@),
        }
    }
}

impl ErrorView {
    /// The code that the RPC answer carries for the error.
    pub open spec fn code(self) -> int {
        match self {
            ErrorView::Engine(_) => -1,
            ErrorView::EngineNotInitialized => -2,
            ErrorView::Database(_) => -3,
            ErrorView::Io(_) => -4,
            ErrorView::Serialization(_) => -5,
            ErrorView::Rusqlite(_) => -6,
            ErrorView::InvalidInput(_) => -7,
            ErrorView::NotFound(_) => -8,
            ErrorView::Network(_) => -9,
        }
    }

    /// The error as one line of text.
    pub open spec fn describe(self) -> Seq<char> {
        match self {
            ErrorView::Engine(m) => "download engine error: "@ + m,
            ErrorView::EngineNotInitialized => "engine not initialized"@,
            ErrorView::Database(m) => "database error: "@ + m,
            ErrorView::Io(m) => "IO error: "@ + m,
            ErrorView::Serialization(m) => "serialization error: "@ + m,
            ErrorView::Rusqlite(m) => "rusqlite error: "@ + m,
            ErrorView::InvalidInput(m) => "invalid input: "@ + m,
            ErrorView::NotFound(m) => "not found: "@ + m,
            ErrorView::Network(m) => "network error: "@ + m,
        }
    }

    /// The front end's error for an error of the engine: unknown ids,
    /// rejected input, network and storage failures keep their kind, the
    /// rest is an engine error with the engine's text.
    pub open spec fn of_engine(e: EngineErrorView) -> ErrorView {
        match e {
            EngineErrorView::NotFound(m) => ErrorView::NotFound(m),
            EngineErrorView::InvalidInput { field, message } => ErrorView::InvalidInput(
                field + ": "@ + message,
            ),
            EngineErrorView::Network { message, .. } => ErrorView::Network(message),
            EngineErrorView::Storage { message, .. } => ErrorView::Database(message),
            other => ErrorView::Engine(other.describe()),
        }
    }
}

impl Error {
    /// The code that the RPC answer carries for the error.
    pub fn code(&self) -> (r: i32)
        ensures
            r == self@.code(),
    {
        match self {
            Error::Engine(_) => -1,
            Error::EngineNotInitialized => -2,
            Error::Database(_) => -3,
            Error::Io(_) => -4,
            Error::Serialization(_) => -5,
            Error::Rusqlite(_) => -6,
            Error::InvalidInput(_) => -7,
            Error::NotFound(_) => -8,
            Error::Network(_) => -9,
        }
    }

    /// The error as one line of text.
    pub fn describe(&self) -> (r: String)
        ensures
            r@ == self@.describe(),
    {
        match self {
            Error::Engine(m) => join2("download engine error: ", m.as_str()),
            Error::EngineNotInitialized => owned("engine not initialized"),
            Error::Database(m) => join2("database error: ", m.as_str()),
            Error::Io(m) => join2("IO error: ", m.as_str()),
            Error::Serialization(m) => join2("serialization error: ", m.as_str()),
            Error::Rusqlite(m) => join2("rusqlite error: ", m.as_str()),
            Error::InvalidInput(m) => join2("invalid input: ", m.as_str()),
            Error::NotFound(m) => join2("not found: ", m.as_str()),
            Error::Network(m) => join2("network error: ", m.as_str()),
        }
    }

    /// The front end's error for an error of the engine.
    pub fn from_engine(err: EngineError) -> (r: Error)
        ensures
            r@ == ErrorView::of_engine(err@),
    {
        match err {
            EngineError::NotFound(m) => Error::NotFound(m),
            EngineError::InvalidInput { field, message } => Error::InvalidInput(
                join3(field.as_str(), ": ", message.as_str()),
            ),
            EngineError::Network { message, .. } => Error::Network(message),
            EngineError::Storage { message, .. } => Error::Database(message),
            other => Error::Engine(other.describe()),
        }
    }
}

} // verus!
