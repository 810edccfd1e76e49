//! The sessions of a server.

pub mod client;
pub mod http_request;
pub mod tcp;
pub mod websocket;

pub use http_request::parse_http_request;
