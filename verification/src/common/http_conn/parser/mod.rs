//! Parsers for messages that arrive piece by piece.

pub mod buffer;
pub mod completeness;
pub mod head;
pub mod message;
pub mod request;
pub mod response;
pub mod written;

pub use message::{ParseError, ParseErrorKind};
pub use request::HttpRequestParser;
pub use response::HttpResponseParser;
