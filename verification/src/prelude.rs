//! What most users need.

pub use crate::client::{ProxyError, ProxyResult};
pub use crate::common::http_conn::{
    serialize_http_request_to_bytes, serialize_request_to_bytes, ConnectionType, HttpRequest,
    HttpRequestParser, HttpResponse, HttpResponseParser,
};
