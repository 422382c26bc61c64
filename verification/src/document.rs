//! A response body as structured data, and the two backends that read one
//! from text.

use vstd::prelude::*;
use crate::error::Cause;
use crate::error::CauseView;
use crate::error::Error;
use crate::error::ErrorView;
use crate::params::Format;

verus! {

/// A body after a backend has read it: the data model that JSON and YAML
/// share, as far as an envelope uses it.
#[derive(Debug, PartialEq, Eq)]
pub enum Document {
    Null,
    Bool(bool),
    /// A number. Holds its value where the backend read it as an integer
    /// from 0 to `u64::MAX`, and nothing for any other number: a negative
    /// one, one written with a fraction or an exponent, or one too large.
    Number(Option<u64>),
    Text(String),
    List(Vec<Document>),
    /// Keys with their values. A key is looked up from the front, so of two
    /// equal keys the first counts.
    Record(Vec<(String, Document)>),
}

/// The parsers that can read a body.
#[derive(Debug, PartialEq, Eq, Hash, Clone, Copy, Structural)]
pub enum Backend {
    Json,
    Yaml,
}

/// The backend that reads a body of the given format: YAML for YAML, and
/// JSON for every other format, also for those that are not JSON.
pub open spec fn backend_of(format: Format) -> Backend {
    if format == Format::Yaml {
        Backend::Yaml
    } else {
        Backend::Json
    }
}

/// The failure of a backend, as the error kind that belongs to it.
pub open spec fn failure(backend: Backend, cause: CauseView) -> ErrorView {
    match backend {
        Backend::Json => ErrorView::Json(cause),
        Backend::Yaml => ErrorView::Yaml(cause),
    }
}

/// `serde_json::Value`, as both backends hand it over. Verified code only
/// carries one along; what it holds is known through [`value_document`] alone.
#[verifier::external_type_specification]
#[verifier::external_body]
pub struct ExJsonValue(serde_json::Value);

/// The document that holds what a `serde_json::Value` holds.
pub uninterp spec fn value_document(value: serde_json::Value) -> Document;

/// What `serde_json::from_str` makes of a text when it is asked for a
/// `serde_json::Value`: the value as a document, or the message of its error.
pub uninterp spec fn json_reading(text: Seq<char>) -> Result<Document, Seq<char>>;

/// What `serde_yaml::from_str` makes of a text when it is asked for a
/// `serde_json::Value`: the value as a document, or the message of its error.
pub uninterp spec fn yaml_reading(text: Seq<char>) -> Result<Document, Seq<char>>;

/// What the given backend makes of a text.
pub open spec fn reading(backend: Backend, text: Seq<char>) -> Result<Document, Seq<char>> {
    match backend {
        Backend::Json => json_reading(text),
        Backend::Yaml => yaml_reading(text),
    }
}

/// Calls `serde_json::from_str` for a `serde_json::Value` and, where it
/// fails, takes the error's `Display` text. Nothing is proved of the parser:
/// the contract only gives its result the name [`json_reading`], which rests
/// on the parser giving the same result for the same text every time.
#[verifier::external_body]
fn json_value(text: &str) -> (parsed: Result<serde_json::Value, String>)
    ensures
        match parsed {
            Ok(value) => json_reading(text@) == Ok::<Document, Seq<char>>(value_document(value)),
            Err(message) => json_reading(text@) == Err::<Document, Seq<char>>(message@),
        },
{
    serde_json::from_str::<serde_json::Value>(text).map_err(|error| error.to_string())
}

/// Calls `serde_yaml::from_str` for a `serde_json::Value` and, where it
/// fails, takes the error's `Display` text. Nothing is proved of the parser:
/// the contract only gives its result the name [`yaml_reading`], which rests
/// on the parser giving the same result for the same text every time.
#[verifier::external_body]
fn yaml_value(text: &str) -> (parsed: Result<serde_json::Value, String>)
    ensures
        match parsed {
            Ok(value) => yaml_reading(text@) == Ok::<Document, Seq<char>>(value_document(value)),
            Err(message) => yaml_reading(text@) == Err::<Document, Seq<char>>(message@),
        },
{
    serde_yaml::from_str::<serde_json::Value>(text).map_err(|error| error.to_string())
}

/// Copies a `serde_json::Value` into a [`Document`], variant by variant; of a
/// number it keeps what `serde_json::Number::as_u64` returns, and of an
/// object its entries in the order of `serde_json::Map::iter`. The contract
/// gives the copy the name [`value_document`].
#[verifier::external_body]
fn document_of(value: &serde_json::Value) -> (document: Document)
    ensures
        document == value_document(*value),
{
    match value {
        serde_json::Value::Null => Document::Null,
        serde_json::Value::Bool(flag) => Document::Bool(*flag),
        serde_json::Value::Number(number) => Document::Number(number.as_u64()),
        serde_json::Value::String(text) => Document::Text(text.clone()),
        serde_json::Value::Array(items) => Document::List(items.iter().map(document_of).collect()),
        serde_json::Value::Object(entries) => Document::Record(
            entries.iter().map(|(key, item)| (key.clone(), document_of(item))).collect(),
        ),
    }
}

impl Backend {
    /// The backend that reads a body of the given format.
    pub fn for_format(format: &Format) -> (backend: Backend)
        ensures
            backend == backend_of(*format),
    {
        match format {
            Format::Yaml => Backend::Yaml,
            _ => Backend::Json,
        }
    }

    /// The error that reports `cause` for this backend.
    pub fn fail(&self, cause: Cause) -> (error: Error)
        ensures
            error@ == failure(*self, cause@),
    {
        match self {
            Backend::Json => Error::Json(cause),
            Backend::Yaml => Error::Yaml(cause),
        }
    }

    /// Reads a body with this backend. A text that the backend rejects gives
    /// the backend's error with the parser's message as a syntax cause.
    pub fn read(&self, text: &str) -> (outcome: Result<Document, Error>)
        ensures
            match outcome {
                Ok(document) => reading(*self, text@) == Ok::<Document, Seq<char>>(document),
                Err(error) => reading(*self, text@) is Err && error@ == failure(
                    *self,
                    CauseView::Syntax(reading(*self, text@)->Err_0),
                ),
            },
    {
        let parsed = match self {
            Backend::Json => json_value(text),
            Backend::Yaml => yaml_value(text),
        };
        match parsed {
            Ok(value) => Ok(document_of(&value)),
            Err(message) => Err(self.fail(Cause::Syntax(message))),
        }
    }
}

} // verus!
