//! The errors of the library.

use vstd::prelude::*;

use crate::text::concat2;

verus! {

/// What can go wrong. Each variant carries the text of its cause.
#[derive(Debug, Clone)]
pub enum NixClipError {
    Database(String),
    Io(String),
    Config(String),
    Ipc(String),
    Pipeline(String),
    Wayland(String),
    Image(String),
    Serialization(String),
}

/// The outcome of a fallible operation of the library.
pub type Result<T> = std::result::Result<T, NixClipError>;

impl NixClipError {
    /// What an error message begins with.
    pub open spec fn prefix(&self) -> Seq<char> {
        match self {
            NixClipError::Database(_) => "database error: "@,
            NixClipError::Io(_) => "I/O error: "@,
            NixClipError::Config(_) => "configuration error: "@,
            NixClipError::Ipc(_) => "IPC error: "@,
            NixClipError::Pipeline(_) => "pipeline error: "@,
            NixClipError::Wayland(_) => "Wayland error: "@,
            NixClipError::Image(_) => "image error: "@,
            NixClipError::Serialization(_) => "serialization error: "@,
        }
    }

    /// The cause that an error carries.
    pub open spec fn cause(&self) -> Seq<char> {
        match self {
            NixClipError::Database(m) => m@,
            NixClipError::Io(m) => m@,
            NixClipError::Config(m) => m@,
            NixClipError::Ipc(m) => m@,
            NixClipError::Pipeline(m) => m@,
            NixClipError::Wayland(m) => m@,
            NixClipError::Image(m) => m@,
            NixClipError::Serialization(m) => m@,
        }
    }

    /// The message of an error: the kind of error, then its cause.
    pub open spec fn text(&self) -> Seq<char> {
        self.prefix() + self.cause()
    }

    /// The message of the error: the kind of error, then its cause.
    pub fn message(&self) -> (r: String)
        ensures
            r@ == self.text(),
    {
        match self {
            NixClipError::Database(m) => concat2("database error: ", m.as_str()),
            NixClipError::Io(m) => concat2("I/O error: ", m.as_str()),
            NixClipError::Config(m) => concat2("configuration error: ", m.as_str()),
            NixClipError::Ipc(m) => concat2("IPC error: ", m.as_str()),
            NixClipError::Pipeline(m) => concat2("pipeline error: ", m.as_str()),
            NixClipError::Wayland(m) => concat2("Wayland error: ", m.as_str()),
            NixClipError::Image(m) => concat2("image error: ", m.as_str()),
            NixClipError::Serialization(m) => concat2("serialization error: ", m.as_str()),
        }
    }
}

} // verus!
