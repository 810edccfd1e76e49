//! A reverse tunnel.
//!
//! A client behind a firewall registers with a server; visitors of a public
//! port of the server reach the service behind the client. This library holds
//! what client and server decide: the lines they exchange, the HTTP messages
//! they recognise, the way in which each session goes on.

use vstd::prelude::*;

pub mod client;
pub mod common;
pub mod http_server;
pub mod numbers;
pub mod prelude;
mod retain;
pub mod server;
pub mod text;

pub use client::{Args, ConnectionPool, PooledConnection, ProxyError, ProxyResult};
pub use common::{
    determine_connection_type, is_websocket_upgrade_request, is_websocket_upgrade_response,
    serialize_http_request_to_bytes, serialize_request_to_bytes, ConnectionType, HttpRequest,
    HttpRequestParser, HttpResponse, HttpResponseParser, ProxyConnectionState,
};
pub use server::{update_client_activity, ProxyClientInfo};

verus! {

/// The version of this package.
pub const VERSION: &'static str = "0.1.0";

/// The size of a buffer, in bytes.
pub const DEFAULT_BUFFER_SIZE: usize = 32 * 1024;

/// How long connecting may take, in seconds.
pub const DEFAULT_CONNECTION_TIMEOUT: u64 = 5;

/// How long a session may be idle, in seconds; zero means for ever.
pub const DEFAULT_IDLE_TIMEOUT: u64 = 0;

} // verus!
