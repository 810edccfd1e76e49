//! One response from the backend, relayed to the tunnel.

use crate::common::one_time;
use crate::common::one_time::{OneTime, OneTimeAction, Side, Stage};
use vstd::prelude::*;

verus! {

/// How the exchange that relays one response from the backend starts.
pub open spec fn starts_exchange(exchange: OneTime) -> bool {
    &&& exchange.side == Side::Client
    &&& exchange.stage == Stage::First
    &&& exchange.buf@ == Seq::<u8>::empty()
    &&& one_time::framing_is(exchange.framing, None, false, 0)
}

/// The exchange that relays one response from the backend.
pub fn one_time_request() -> (r: OneTime)
    ensures
        r.wf(),
        r.side == Side::Client,
        r.stage == Stage::First,
        r.buf@ == Seq::<u8>::empty(),
        one_time::framing_is(r.framing, None, false, 0),
        starts_exchange(r),
{
    OneTime::new(Side::Client)
}

/// The exchange with the backend waits half a minute for the first bytes, and
/// collects them from the first one on, on the backend's side of the tunnel.
pub proof fn exchanges_wait_for_the_backend(exchange: OneTime, data: Seq<u8>, after: OneTime)
    requires
        starts_exchange(exchange),
        exchange.takes(data, after),
    ensures
        exchange.first_action() == OneTimeAction::Read(30),
        after.side == Side::Client,
        after.buf@ == data,
        after.stage == Stage::ForwardingFirst,
{
    assert(Seq::<u8>::empty() + data =~= data);
}

} // verus!
