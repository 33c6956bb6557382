//! The error type shared by every module.

use vstd::prelude::*;
use vstd::string::*;

verus! {

/// What went wrong, with the text to show for it.
#[derive(Debug, Clone, PartialEq, Eq)]
pub enum KexshError {
    /// An input or output operation failed; the text is what the system reported.
    Io(String),
    /// A message could not be encoded or decoded; the text is what the JSON layer reported.
    Json(String),
    Server(String),
    Ipc(String),
    Config(String),
}

pub type Result<T> = std::result::Result<T, KexshError>;

/// The mathematical content of a [`KexshError`].
pub enum ErrorView {
    Io(Seq<char>),
    Json(Seq<char>),
    Server(Seq<char>),
    Ipc(Seq<char>),
    Config(Seq<char>),
}

impl View for KexshError {
    type V = ErrorView;

    open spec fn view(&self) -> ErrorView {
        match *self {
            KexshError::Io(text) => ErrorView::Io(text@),
            KexshError::Json(text) => ErrorView::Json(text@),
            KexshError::Server(text) => ErrorView::Server(text@),
            KexshError::Ipc(text) => ErrorView::Ipc(text@),
            KexshError::Config(text) => ErrorView::Config(text@),
        }
    }
}

impl ErrorView {
    /// The sentence shown to a user: the kind of error, then its text.
    pub open spec fn message(self) -> Seq<char> {
        match self {
            ErrorView::Io(text) => "IO error: "@ + text,
            ErrorView::Json(text) => "JSON error: "@ + text,
            ErrorView::Server(text) => "Server error: "@ + text,
            ErrorView::Ipc(text) => "IPC error: "@ + text,
            ErrorView::Config(text) => "Config error: "@ + text,
        }
    }
}

impl KexshError {
    /// Renders the error as one sentence.
    pub fn message(&self) -> (text: String)
        ensures
            text@ == self@.message(),
    {
        match self {
            KexshError::Io(text) => "IO error: ".to_owned().concat(text.as_str()),
            KexshError::Json(text) => "JSON error: ".to_owned().concat(text.as_str()),
            KexshError::Server(text) => "Server error: ".to_owned().concat(text.as_str()),
            KexshError::Ipc(text) => "IPC error: ".to_owned().concat(text.as_str()),
            KexshError::Config(text) => "Config error: ".to_owned().concat(text.as_str()),
        }
    }
}

/// An error is told by its kind and then its whole text.
pub proof fn errors_are_told_by_kind_and_text(text: Seq<char>)
    ensures
        ErrorView::Io(text).message() == "IO error: "@ + text,
        ErrorView::Json(text).message() == "JSON error: "@ + text,
        ErrorView::Server(text).message() == "Server error: "@ + text,
        ErrorView::Ipc(text).message() == "IPC error: "@ + text,
        ErrorView::Config(text).message() == "Config error: "@ + text,
{
}

/// An error counts by its kind and its text.
pub proof fn errors_by_content(error: KexshError)
    ensures
        match error {
            KexshError::Io(text) => error@ == ErrorView::Io(text@),
            KexshError::Json(text) => error@ == ErrorView::Json(text@),
            KexshError::Server(text) => error@ == ErrorView::Server(text@),
            KexshError::Ipc(text) => error@ == ErrorView::Ipc(text@),
            KexshError::Config(text) => error@ == ErrorView::Config(text@),
        },
{
}

} // verus!
