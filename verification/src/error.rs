//! What can go wrong.

use crate::text::cat2;
use vstd::prelude::*;

verus! {

/// The kinds of input and output failure that are told apart.
#[derive(Debug, Clone, Copy, PartialEq, Eq, Structural)]
pub enum IoKind {
    PermissionDenied,
    BrokenPipe,
    ConnectionReset,
    WouldBlock,
    TimedOut,
    Interrupted,
    Other,
}

/// A failed input or output operation: its kind and how the system words it.
#[derive(Debug)]
pub struct IoFailure {
    pub kind: IoKind,
    pub message: String,
}

#[derive(Debug)]
pub enum PyopsError {
    Io(IoFailure),
    TomlDe(String),
    Json(String),
    Config(String),
    Ipc(String),
    Supervisor(String),
}

pub enum ErrorView {
    Io(IoKind, Seq<char>),
    TomlDe(Seq<char>),
    Json(Seq<char>),
    Config(Seq<char>),
    Ipc(Seq<char>),
    Supervisor(Seq<char>),
}

impl View for PyopsError {
    type V = ErrorView;

    open spec fn view(&self) -> ErrorView {
        match self {
            PyopsError::Io(f) => ErrorView::Io(f.kind, f.message@),
            PyopsError::TomlDe(m) => ErrorView::TomlDe(m@),
            PyopsError::Json(m) => ErrorView::Json(m@),
            PyopsError::Config(m) => ErrorView::Config(m@),
            PyopsError::Ipc(m) => ErrorView::Ipc(m@),
            PyopsError::Supervisor(m) => ErrorView::Supervisor(m@),
        }
    }
}

impl ErrorView {
    /// How the error is worded for the user.
    pub open spec fn text(self) -> Seq<char> {
        match self {
            ErrorView::Io(_, m) => "io error: "@ + m,
            ErrorView::TomlDe(m) => "toml parse error: "@ + m,
            ErrorView::Json(m) => "json error: "@ + m,
            ErrorView::Config(m) => "config error: "@ + m,
            ErrorView::Ipc(m) => "ipc error: "@ + m,
            ErrorView::Supervisor(m) => "supervisor error: "@ + m,
        }
    }
}

impl PyopsError {
    /// How the error is worded for the user.
    pub fn to_string(&self) -> (r: String)
        ensures
            r@ == self@.text(),
    {
        match self {
            PyopsError::Io(f) => cat2("io error: ", f.message.as_str()),
            PyopsError::TomlDe(m) => cat2("toml parse error: ", m.as_str()),
            PyopsError::Json(m) => cat2("json error: ", m.as_str()),
            PyopsError::Config(m) => cat2("config error: ", m.as_str()),
            PyopsError::Ipc(m) => cat2("ipc error: ", m.as_str()),
            PyopsError::Supervisor(m) => cat2("supervisor error: ", m.as_str()),
        }
    }
}

/// A result with its value and its error taken by their views.
pub open spec fn outcome<T: View>(r: Result<T, PyopsError>) -> Result<T::V, ErrorView> {
    match r {
        Ok(v) => Ok(v@),
        Err(e) => Err(e@),
    }
}

/// Every error is worded with the kind of thing that went wrong before what it
/// says of itself.
pub proof fn law_errors_are_worded(kind: IoKind, m: Seq<char>)
    ensures
        ErrorView::Io(kind, m).text() == "io error: "@ + m,
        ErrorView::TomlDe(m).text() == "toml parse error: "@ + m,
        ErrorView::Json(m).text() == "json error: "@ + m,
        ErrorView::Config(m).text() == "config error: "@ + m,
        ErrorView::Ipc(m).text() == "ipc error: "@ + m,
        ErrorView::Supervisor(m).text() == "supervisor error: "@ + m,
{
}

} // verus!
