//! The kinds of failure that a request can end in.

use vstd::prelude::*;

verus! {

/// The keys that a response envelope and a joke payload are read by.
#[derive(Debug, PartialEq, Eq, Hash, Clone, Copy, Structural)]
pub enum Field {
    Error,
    Amount,
    Jokes,
    Category,
    Type,
    Joke,
    Setup,
    Delivery,
    Safe,
}

impl Field {
    /// The key as it is written in a response body.
    pub open spec fn key(self) -> Seq<char> {
        match self {
            Field::Error => "error"@,
            Field::Amount => "amount"@,
            Field::Jokes => "jokes"@,
            Field::Category => "category"@,
            Field::Type => "type"@,
            Field::Joke => "joke"@,
            Field::Setup => "setup"@,
            Field::Delivery => "delivery"@,
            Field::Safe => "safe"@,
        }
    }

    /// The key, as a string slice.
    pub fn as_str(&self) -> (text: &'static str)
        ensures
            text@ == self.key(),
    {
        match self {
            Field::Error => "error",
            Field::Amount => "amount",
            Field::Jokes => "jokes",
            Field::Category => "category",
            Field::Type => "type",
            Field::Joke => "joke",
            Field::Setup => "setup",
            Field::Delivery => "delivery",
            Field::Safe => "safe",
        }
    }
}

/// Why a body could not be turned into jokes.
#[derive(Debug, PartialEq, Eq)]
pub enum Cause {
    /// The text is not well-formed in the declared format. Holds the
    /// message of the backend that read it.
    Syntax(String),
    /// The envelope, or an entry of the joke list, is not a record.
    NotRecord,
    /// A required key is absent.
    Missing(Field),
    /// A key is present with a value of the wrong kind, or with a text
    /// outside the vocabulary it belongs to.
    Invalid(Field),
}

/// A [`Cause`] with its message as a sequence of characters.
pub enum CauseView {
    Syntax(Seq<char>),
    NotRecord,
    Missing(Field),
    Invalid(Field),
}

impl View for Cause {
    type V = CauseView;

    open spec fn view(&self) -> CauseView {
        match self {
            Cause::Syntax(message) => CauseView::Syntax(message@),
            Cause::NotRecord => CauseView::NotRecord,
            Cause::Missing(field) => CauseView::Missing(*field),
            Cause::Invalid(field) => CauseView::Invalid(*field),
        }
    }
}

/// How a request can fail.
#[derive(Debug, PartialEq, Eq)]
pub enum Error {
    /// The transport could not deliver a body. Holds the transport's own
    /// message; the library only passes it on.
    Transport(String),
    /// The body, read as JSON, is not a response envelope.
    Json(Cause),
    /// The body, read as YAML, is not a response envelope.
    Yaml(Cause),
    /// The envelope was read and declares an error of the API's own.
    ApiResponse(String),
    /// Reserved; no function of this library returns it.
    Unknown,
}

/// An [`Error`] with its messages as sequences of characters.
pub enum ErrorView {
    Transport(Seq<char>),
    Json(CauseView),
    Yaml(CauseView),
    ApiResponse(Seq<char>),
    Unknown,
}

impl View for Error {
    type V = ErrorView;

    open spec fn view(&self) -> ErrorView {
        match self {
            Error::Transport(message) => ErrorView::Transport(message@),
            Error::Json(cause) => ErrorView::Json(cause@),
            Error::Yaml(cause) => ErrorView::Yaml(cause@),
            Error::ApiResponse(message) => ErrorView::ApiResponse(message@),
            Error::Unknown => ErrorView::Unknown,
        }
    }
}

} // verus!
