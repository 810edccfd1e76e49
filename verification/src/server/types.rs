//! What a server knows of a client.

use vstd::prelude::*;

verus! {

/// A handshake that a client was asked to call back for. `C` is what the
/// connection of the call back is handed over through.
#[derive(Debug)]
pub struct ProxyClientInfo<C> {
    pub backend_port: u16,
    pub public_port: u16,
    /// Where the call back is waited for; none once it has come.
    pub handshake_channel: Option<C>,
    pub handshake_id: String,
    /// When the handshake was last active, in nanoseconds on a clock that never
    /// runs backwards.
    pub last_activity: u64,
    pub reconnect_attempts: u32,
}

} // verus!
