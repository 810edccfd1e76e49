//! What is relayed between the tunnel and a visitor.

use crate::common::one_time;
use crate::common::one_time::{OneTime, OneTimeAction, Side, Stage};
use crate::common::relay;
use crate::common::relay::{Counting, Relay, RelayEvent};
use vstd::prelude::*;

verus! {

/// How the exchange that relays one response to the visitor starts.
pub open spec fn starts_exchange(exchange: OneTime) -> bool {
    &&& exchange.side == Side::Server
    &&& exchange.stage == Stage::First
    &&& exchange.buf@ == Seq::<u8>::empty()
    &&& one_time::framing_is(exchange.framing, None, false, 0)
}

/// How one direction of a session with a visitor starts.
pub open spec fn relay_start() -> Relay {
    Relay::fresh(Counting::WhenFlushed, false)
}

/// The exchange that relays one response to the visitor.
pub fn one_time_proxy() -> (r: OneTime)
    ensures
        r.wf(),
        r.side == Side::Server,
        r.stage == Stage::First,
        r.buf@ == Seq::<u8>::empty(),
        one_time::framing_is(r.framing, None, false, 0),
        starts_exchange(r),
{
    OneTime::new(Side::Server)
}

/// One direction of a session with a visitor. It counts what was flushed.
pub fn visitor_relay() -> (r: Relay)
    ensures
        relay::is_fresh(r),
        r.counting == Counting::WhenFlushed,
        !r.flush_blames_source,
        !r.source_failed && !r.sink_failed,
        r == relay_start(),
{
    Relay::new(Counting::WhenFlushed, false)
}

/// The exchange with the visitor waits half a minute for the first bytes, and
/// collects them from the first one on, on the visitor's side of the tunnel.
pub proof fn exchanges_wait_for_the_tunnel(exchange: OneTime, data: Seq<u8>, after: OneTime)
    requires
        starts_exchange(exchange),
        exchange.takes(data, after),
    ensures
        exchange.first_action() == OneTimeAction::Read(30),
        after.side == Side::Server,
        after.buf@ == data,
        after.stage == Stage::ForwardingFirst,
{
    assert(Seq::<u8>::empty() + data =~= data);
}

/// A direction of a session with a visitor counts what was flushed, and what fails in
/// it is held against the end where it happened; a flush against the sink.
pub proof fn directions_count_what_they_flush(n: usize)
    requires
        n > 0,
    ensures
        relay::is_fresh(relay_start()),
        relay_start().after(RelayEvent::Read(n)).after(RelayEvent::Written).total == 0,
        relay_start().after(RelayEvent::Read(n)).after(RelayEvent::Written).after(
            RelayEvent::Flushed,
        ).total == n,
        relay_start().after(RelayEvent::ReadFailed).source_failed,
        relay_start().after(RelayEvent::Read(n)).after(RelayEvent::WriteFailed).sink_failed,
        ({
            let r = relay_start().after(RelayEvent::Read(n)).after(RelayEvent::Written).after(
                RelayEvent::FlushFailed,
            );
            r.sink_failed && !r.source_failed
        }),
{
}

} // verus!
