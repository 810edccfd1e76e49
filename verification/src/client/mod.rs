//! The client side of the tunnel.

pub mod config;
pub mod connection;
pub mod errors;
pub mod handlers;
pub mod reconnect;
pub mod sessions;

pub use config::Args;
pub use connection::{ConnectionPool, PooledConnection};
pub use errors::{ProxyError, ProxyResult};
