//! How a client is set up.

use vstd::prelude::*;

verus! {

/// The settings of a client.
#[derive(Debug)]
pub struct Args {
    /// The address of the server.
    pub server: String,
    /// The port of the service that is made public.
    pub backend_port: u16,
    /// The port that visitors connect to.
    pub public_port: u16,
    /// How long connecting may take, in seconds.
    pub connection_timeout: u64,
    /// How long a session may be idle, in seconds; zero means for ever.
    pub idle_timeout: u64,
    /// How long to wait before connecting again, in seconds; zero means never.
    pub reconnect_interval: u64,
    /// How often to connect again; zero means without limit.
    pub max_reconnect_attempts: u32,
    /// How much of the data is logged.
    pub data_logging: String,
    /// How many backend connections are kept.
    pub max_pool_size: usize,
    /// How long a backend connection is kept, in seconds.
    pub pool_idle_timeout: u64,
    /// Whether backend connections are kept.
    pub use_connection_pool: bool,
}

} // verus!
