//! The sessions of a client.

pub mod backend;
pub mod connection;
pub mod http_request;
pub mod legacy;
pub mod websocket;
