//! HTTP messages and the connections that carry them.

pub mod connection;
pub mod headers;
pub mod parser;
pub mod proxy_state;
pub mod types;
pub mod upgrade;
pub mod wire;

pub use connection::{determine_connection_type, ConnectionType};
pub use parser::{HttpRequestParser, HttpResponseParser};
pub use proxy_state::ProxyConnectionState;
pub use types::{
    serialize_http_request_to_bytes, serialize_request_to_bytes, HttpRequest, HttpResponse,
};
pub use upgrade::{is_websocket_upgrade_request, is_websocket_upgrade_response};
