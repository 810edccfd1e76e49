//! What client and server share.

pub mod http_conn;
pub mod logging;
pub mod one_time;
pub mod protocol;
pub mod relay;
pub mod session;

pub use http_conn::{
    determine_connection_type, is_websocket_upgrade_request, is_websocket_upgrade_response,
    serialize_http_request_to_bytes, serialize_request_to_bytes, ConnectionType, HttpRequest,
    HttpRequestParser, HttpResponse, HttpResponseParser, ProxyConnectionState,
};
pub use logging::{log_data_sample, log_transfer_summary};
