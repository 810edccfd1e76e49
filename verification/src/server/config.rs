//! How a server is set up.

use vstd::prelude::*;

verus! {

/// The settings of a server.
#[derive(Debug)]
pub struct Args {
    /// The address to listen on.
    pub host: String,
    /// The port to listen on.
    pub port: u16,
    /// How long the first bytes of a visitor and a call back are waited for, in
    /// seconds.
    pub connection_timeout: u64,
    /// How long a session may be idle, in seconds; zero means for ever.
    pub idle_timeout: u64,
    /// How much of the data is logged.
    pub data_logging: String,
    /// The size of the buffers, in kilobytes.
    pub buffer_size: u32,
}

/// The size of the buffers in bytes: what was asked for in kilobytes, within
/// bounds.
pub open spec fn bounded_size(kilobytes: u32) -> int {
    if kilobytes < 32 {
        32768
    } else if kilobytes > 1024 {
        1048576
    } else {
        kilobytes * 1024
    }
}

/// The size of the buffers in bytes.
pub fn buffer_size_bytes(kilobytes: u32) -> (r: usize)
    ensures
        r == bounded_size(kilobytes),
{
    if kilobytes < 32 {
        32 * 1024
    } else if kilobytes > 1024 {
        1024 * 1024
    } else {
        kilobytes as usize * 1024
    }
}

/// What the session of a visitor goes by.
#[derive(Debug, PartialEq, Eq)]
pub struct SessionSettings {
    /// How long the session may be idle, in seconds; zero means for ever.
    pub idle_timeout: u64,
    /// How much of the data is logged.
    pub data_logging: String,
    /// The size of the buffers, in bytes.
    pub buffer_size: usize,
}

impl Clone for SessionSettings {
    fn clone(&self) -> (r: Self)
        ensures
            r == *self,
    {
        SessionSettings {
            idle_timeout: self.idle_timeout,
            data_logging: self.data_logging.clone(),
            buffer_size: self.buffer_size,
        }
    }
}

impl Args {
    /// The sessions of the server go by these settings.
    pub open spec fn sets(&self, settings: SessionSettings) -> bool {
        &&& settings.idle_timeout == self.idle_timeout
        &&& settings.data_logging == self.data_logging
        &&& settings.buffer_size == bounded_size(self.buffer_size)
    }

    /// What the sessions of the server go by.
    pub fn session_settings(&self) -> (r: SessionSettings)
        ensures
            r.idle_timeout == self.idle_timeout,
            r.data_logging == self.data_logging,
            r.buffer_size == bounded_size(self.buffer_size),
            self.sets(r),
    {
        SessionSettings {
            idle_timeout: self.idle_timeout,
            data_logging: self.data_logging.clone(),
            buffer_size: buffer_size_bytes(self.buffer_size),
        }
    }
}

/// The buffers are never smaller than 32 kilobytes nor larger than 1024.
pub proof fn buffer_size_is_bounded(kilobytes: u32)
    ensures
        32 * 1024 <= bounded_size(kilobytes) <= 1024 * 1024,
        32 <= kilobytes <= 1024 ==> bounded_size(kilobytes) == kilobytes * 1024,
{
}

/// What is asked for in kilobytes is what the buffers have, but 32 where less is asked
/// for and 1024 where more is; asking for more never gives less.
pub proof fn buffer_sizes_are_as_asked(kilobytes: u32, more: u32)
    ensures
        kilobytes <= 32 ==> bounded_size(kilobytes) == 32 * 1024,
        kilobytes >= 1024 ==> bounded_size(kilobytes) == 1024 * 1024,
        32 <= kilobytes <= 1024 ==> bounded_size(kilobytes) == 1024 * kilobytes,
        kilobytes <= more ==> bounded_size(kilobytes) <= bounded_size(more),
{
}

/// A session goes by the timeout and the logging that the server was set up with, and
/// by its buffers, in bytes.
pub proof fn sessions_go_by_the_settings(args: Args, settings: SessionSettings)
    requires
        args.sets(settings),
    ensures
        settings.idle_timeout == args.idle_timeout,
        settings.data_logging@ == args.data_logging@,
        32 <= args.buffer_size <= 1024 ==> settings.buffer_size == 1024 * args.buffer_size,
        args.buffer_size < 32 ==> settings.buffer_size == 32_768,
        args.buffer_size > 1024 ==> settings.buffer_size == 1_048_576,
{
}

} // verus!
