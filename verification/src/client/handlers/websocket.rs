//! A WebSocket between the tunnel and the backend.

use crate::common::relay;
use crate::common::relay::{Counting, Relay, RelayEvent};
use vstd::prelude::*;

verus! {

/// How one direction of a WebSocket starts.
pub open spec fn relay_start() -> Relay {
    Relay::fresh(Counting::WhenFlushed, false)
}

/// One direction of a WebSocket. It has no time limit, and counts what was
/// flushed.
pub fn websocket_relay() -> (r: Relay)
    ensures
        relay::is_fresh(r),
        r.counting == Counting::WhenFlushed,
        !r.flush_blames_source,
        !r.source_failed && !r.sink_failed,
        r == relay_start(),
{
    Relay::new(Counting::WhenFlushed, false)
}

/// A direction of a WebSocket counts what was flushed, and what fails in it is held
/// against the end where it happened; a flush against the sink.
pub proof fn websockets_count_what_they_flush(n: usize)
    requires
        n > 0,
    ensures
        relay::is_fresh(relay_start()),
        relay_start().after(RelayEvent::Read(n)).after(RelayEvent::Written).total == 0,
        relay_start().after(RelayEvent::Read(n)).after(RelayEvent::Written).after(
            RelayEvent::Flushed,
        ).total == n,
        relay_start().after(RelayEvent::ReadFailed).source_failed,
        relay_start().after(RelayEvent::Read(n)).after(RelayEvent::WriteFailed).sink_failed,
        ({
            let r = relay_start().after(RelayEvent::Read(n)).after(RelayEvent::Written).after(
                RelayEvent::FlushFailed,
            );
            r.sink_failed && !r.source_failed
        }),
{
}

} // verus!
