//! The server side of the tunnel.

pub mod client_manager;
pub mod config;
pub mod handlers;
pub mod listener;
pub mod proxy;
pub mod types;

pub use client_manager::update_client_activity;
pub use config::Args;
pub use handlers::parse_http_request;
pub use types::ProxyClientInfo;
