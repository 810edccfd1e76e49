//! The life of a proxied connection.

use vstd::prelude::*;

verus! {

/// The state of an HTTP proxy connection.
#[derive(Debug, Clone, Copy, PartialEq, Eq, Structural)]
pub enum ProxyConnectionState {
    /// Nothing has happened yet.
    Initial,
    /// The first request and its response are under way.
    FirstExchange,
    /// Requests and responses are exchanged.
    Active,
    /// The connection carries a WebSocket.
    WebSocket,
    /// The connection is being closed.
    Closing,
    /// The connection is closed.
    Closed,
    /// The connection failed.
    Error,
}

} // verus!
