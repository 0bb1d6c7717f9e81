//! Errors of the desktop application.

use crate::text::{join2, owned};
use vstd::prelude::*;

verus! {

/// What a command of the desktop application can fail with.
#[derive(Debug)]
pub enum Error {
    Engine(String),
    EngineNotInitialized,
    Aria2(String),
    Aria2NotRunning,
    Aria2Connection(String),
    Database(String),
    Io(String),
    Serialization(String),
    Tauri(String),
    InvalidInput(String),
    NotFound(String),
    Network(String),
}

pub enum ErrorView {
    Engine(Seq<char>),
    EngineNotInitialized,
    Aria2(Seq<char>),
    Aria2NotRunning,
    Aria2Connection(Seq<char>),
    Database(Seq<char>),
    Io(Seq<char>),
    Serialization(Seq<char>),
    Tauri(Seq<char>),
    InvalidInput(Seq<char>),
    NotFound(Seq<char>),
    Network(Seq<char>),
}

impl View for Error {
    type V = ErrorView;

    open spec fn view(&self) -> ErrorView {
        match self {
            Error::Engine(m) => ErrorView::Engine(m@),
            Error::EngineNotInitialized => ErrorView::EngineNotInitialized,
            Error::Aria2(m) => ErrorView::Aria2(m@),
            Error::Aria2NotRunning => ErrorView::Aria2NotRunning,
            Error::Aria2Connection(m) => ErrorView::Aria2Connection(m@),
            Error::Database(m) => ErrorView::Database(m@),
            Error::Io(m) => ErrorView::Io(m@),
            Error::Serialization(m) => ErrorView::Serialization(m@),
            Error::Tauri(m) => ErrorView::Tauri(m@),
            Error::InvalidInput(m) => ErrorView::InvalidInput(m@),
            Error::NotFound(m) => ErrorView::NotFound(m@),
            Error::Network(m) => ErrorView::Network(m@),
        }
    }
}

impl ErrorView {
    /// The error as one line of text.
    pub open spec fn describe(self) -> Seq<char> {
        match self {
            ErrorView::Engine(m) => "download engine error: "@ + m,
            ErrorView::EngineNotInitialized => "engine not initialized"@,
            ErrorView::Aria2(m) => "aria2 error: "@ + m,
            ErrorView::Aria2NotRunning => "aria2 not running"@,
            ErrorView::Aria2Connection(m) => "aria2 connection failed: "@ + m,
            ErrorView::Database(m) => "database error: "@ + m,
            ErrorView::Io(m) => "IO error: "@ + m,
            ErrorView::Serialization(m) => "serialization error: "@ + m,
            ErrorView::Tauri(m) => "tauri error: "@ + m,
            ErrorView::InvalidInput(m) => "invalid input: "@ + m,
            ErrorView::NotFound(m) => "not found: "@ + m,
            ErrorView::Network(m) => "network error: "@ + m,
        }
    }
}

impl Error {
    /// The error as one line of text.
    pub fn describe(&self) -> (r: String)
        ensures
            r@ == self@.describe(),
    {
        match self {
            Error::Engine(m) => join2("download engine error: ", m.as_str()),
            Error::EngineNotInitialized => owned("engine not initialized"),
            Error::Aria2(m) => join2("aria2 error: ", m.as_str()),
            Error::Aria2NotRunning => owned("aria2 not running"),
            Error::Aria2Connection(m) => join2("aria2 connection failed: ", m.as_str()),
            Error::Database(m) => join2("database error: ", m.as_str()),
            Error::Io(m) => join2("IO error: ", m.as_str()),
            Error::Serialization(m) => join2("serialization error: ", m.as_str()),
            Error::Tauri(m) => join2("tauri error: ", m.as_str()),
            Error::InvalidInput(m) => join2("invalid input: ", m.as_str()),
            Error::NotFound(m) => join2("not found: ", m.as_str()),
            Error::Network(m) => join2("network error: ", m.as_str()),
        }
    }
}

} // verus!
