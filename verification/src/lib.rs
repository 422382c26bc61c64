//! A client for a joke-delivery web API: it builds the request URL from the
//! caller's choices and decodes the body that the API sends back.
//!
//! The library performs no I/O. A caller configures a [`JokeBuilder`], takes
//! its [`JokeBuilder::url`], fetches that address by whatever transport it
//! likes, and hands the body to [`parse_joke`], or the transport's outcome to
//! [`JokeBuilder::receive`].

pub mod builder;
pub mod document;
pub mod error;
pub mod joke;
pub mod params;
pub mod selector;
pub mod text;

pub use builder::JokeBuilder;
pub use document::Backend;
pub use document::Document;
pub use error::Cause;
pub use error::Error;
pub use error::Field;
pub use joke::decode_document;
pub use joke::missing_joke;
pub use joke::parse_joke;
pub use joke::Joke;
pub use joke::Result;
pub use params::Category;
pub use params::Flag;
pub use params::Format;
pub use params::JokeType;
pub use params::Param;
pub use selector::Selector;
