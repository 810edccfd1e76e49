//! A session over a backend connection of its own.

use crate::common::http_conn::connection::ConnectionType;
use crate::common::http_conn::parser::completeness;
use crate::common::http_conn::headers;
use crate::common::http_conn::parser::head;
use crate::common::http_conn::parser::message;
use crate::common::http_conn::parser::request;
use crate::common::http_conn::parser::response;
use crate::common::http_conn::types;
use crate::common::http_conn::types::HttpRequestView;
use crate::common::http_conn::proxy_state::ProxyConnectionState;
use crate::common::relay;
use crate::common::relay::{Counting, Relay, RelayEvent};
use crate::common::session;
use crate::common::session::{Route, SessionPlan};
use crate::common::{HttpRequestParser, HttpResponseParser};
use vstd::prelude::*;

verus! {

/// What a session is doing.
#[derive(Debug, Clone, Copy, PartialEq, Eq, Structural)]
pub enum LegacyStage {
    /// Reading the first bytes of the visitor.
    ReadingInitial,
    /// Handing them to the backend.
    Forwarding,
    /// On its way.
    Routed,
    /// Given up.
    Dropped,
}

/// What happened.
#[derive(Debug, Clone, Copy, PartialEq, Eq, Structural)]
pub enum LegacyEvent {
    /// The first bytes came, and this is the plan they give.
    Initial(SessionPlan),
    /// The tunnel ended before any bytes came.
    NoInitial,
    InitialFailed,
    /// The bytes were written and flushed.
    Forwarded,
    ForwardFailed,
    /// Neither side sent anything for too long.
    Idle,
}

/// What to do next.
#[derive(Debug, Clone, Copy, PartialEq, Eq, Structural)]
pub enum LegacyAction {
    ReadInitial,
    /// Write the first bytes to the backend and flush.
    Forward,
    /// Go on this way.
    Run(Route),
    /// Close both connections.
    Drop,
    /// Nothing: what was reported does not belong here.
    Ignore,
}

/// What the silence of a session means for it.
#[derive(Debug, Clone, Copy, PartialEq, Eq, Structural)]
pub enum IdleCheck {
    /// The session may be silent for ever.
    Unlimited,
    /// The session may be silent for so many more seconds and nanoseconds.
    Wait(u64, u32),
    /// The session was silent for too long.
    Idle,
}

/// The nanoseconds of a second.
pub const SECOND: u64 = 1_000_000_000;

/// A session over a backend connection of its own.
#[derive(Debug, Clone, Copy, PartialEq, Eq, Structural)]
pub struct LegacySession {
    pub stage: LegacyStage,
    pub plan: SessionPlan,
}

impl LegacySession {
    /// The session after an event, and what to do next. An event that does not
    /// belong to the stage changes nothing.
    pub open spec fn next(self, event: LegacyEvent) -> (LegacySession, LegacyAction) {
        match (self.stage, event) {
            (LegacyStage::ReadingInitial, LegacyEvent::Initial(plan)) => (
                LegacySession { stage: LegacyStage::Forwarding, plan },
                LegacyAction::Forward,
            ),
            (LegacyStage::ReadingInitial, LegacyEvent::NoInitial) => (
                LegacySession { stage: LegacyStage::Routed, plan: session::plan_for(None) },
                LegacyAction::Run(Route::Persistent),
            ),
            (LegacyStage::ReadingInitial, LegacyEvent::InitialFailed) => (
                LegacySession { stage: LegacyStage::Dropped, ..self },
                LegacyAction::Drop,
            ),
            (LegacyStage::Forwarding, LegacyEvent::Forwarded) => (
                LegacySession { stage: LegacyStage::Routed, ..self },
                LegacyAction::Run(session::route_of(self.plan)),
            ),
            (LegacyStage::Forwarding, LegacyEvent::ForwardFailed) => (
                LegacySession { stage: LegacyStage::Dropped, ..self },
                LegacyAction::Drop,
            ),
            (LegacyStage::Routed, LegacyEvent::Idle) => (
                LegacySession { stage: LegacyStage::Dropped, ..self },
                LegacyAction::Drop,
            ),
            _ => (self, LegacyAction::Ignore),
        }
    }

    /// The session carries HTTP that is kept alive, whose messages are watched.
    pub open spec fn is_watched(self) -> bool {
        self.plan.is_http && self.plan.is_keep_alive
    }

    /// The session relays both ways and may not be silent for ever. A WebSocket
    /// may, and one response has time limits of its own.
    pub open spec fn has_idle_limit(self, idle_timeout: u64) -> bool {
        &&& self.stage == LegacyStage::Routed
        &&& session::route_of(self.plan) == Route::Persistent
        &&& idle_timeout > 0
    }

    /// Neither side sent anything for as long as the timeout, in seconds,
    /// allows. For how long they were quiet is given in nanoseconds.
    pub open spec fn is_idle(self, idle_timeout: u64, quiet: u64) -> bool {
        self.has_idle_limit(idle_timeout) && quiet >= idle_timeout * SECOND
    }

    /// A session that has seen nothing.
    pub open spec fn fresh() -> LegacySession {
        LegacySession { stage: LegacyStage::ReadingInitial, plan: session::plan_for(None) }
    }

    /// What so many nanoseconds of silence mean for the session, by a timeout in
    /// seconds.
    pub open spec fn verdict(self, idle_timeout: u64, quiet: u64) -> IdleCheck {
        if !self.has_idle_limit(idle_timeout) {
            IdleCheck::Unlimited
        } else if quiet >= idle_timeout * SECOND {
            IdleCheck::Idle
        } else {
            let left = idle_timeout * SECOND - quiet;
            IdleCheck::Wait((left / SECOND as int) as u64, (left % SECOND as int) as u32)
        }
    }

    /// A session that has seen nothing.
    pub fn new() -> (r: Self)
        ensures
            r == (LegacySession {
                stage: LegacyStage::ReadingInitial,
                plan: session::plan_for(None),
            }),
            r == LegacySession::fresh(),
    {
        LegacySession { stage: LegacyStage::ReadingInitial, plan: session::plan_from_type(None) }
    }

    /// Whether the messages of the session are watched.
    pub fn watches(&self) -> (r: bool)
        ensures
            r == self.is_watched(),
    {
        self.plan.is_http && self.plan.is_keep_alive
    }

    /// Judges a session whose two sides sent nothing for so many nanoseconds,
    /// by a timeout in seconds; zero means that there is none.
    pub fn check_idle(&self, idle_timeout: u64, quiet: u64) -> (r: IdleCheck)
        ensures
            match r {
                IdleCheck::Unlimited => !self.has_idle_limit(idle_timeout),
                IdleCheck::Wait(seconds, nanos) => {
                    &&& self.has_idle_limit(idle_timeout)
                    &&& quiet < idle_timeout * SECOND
                    &&& quiet + seconds * SECOND + nanos == idle_timeout * SECOND
                    &&& nanos < SECOND
                },
                IdleCheck::Idle => self.is_idle(idle_timeout, quiet),
            },
            r == self.verdict(idle_timeout, quiet),
    {
        let persistent = matches!(self.stage, LegacyStage::Routed) && matches!(
            session::route(&self.plan),
            Route::Persistent
        );
        if !persistent || idle_timeout == 0 {
            return IdleCheck::Unlimited;
        }
        let seconds: u64 = quiet / SECOND;
        let nanos: u64 = quiet % SECOND;
        if seconds >= idle_timeout {
            IdleCheck::Idle
        } else if nanos == 0 {
            IdleCheck::Wait(idle_timeout - seconds, 0)
        } else {
            IdleCheck::Wait(idle_timeout - seconds - 1, (SECOND - nanos) as u32)
        }
    }

    /// Takes note of what happened and says what to do next.
    pub fn step(&mut self, event: LegacyEvent) -> (r: LegacyAction)
        ensures
            (*final(self), r) == old(self).next(event),
    {
        match (self.stage, event) {
            (LegacyStage::ReadingInitial, LegacyEvent::Initial(plan)) => {
                self.plan = plan;
                self.stage = LegacyStage::Forwarding;
                LegacyAction::Forward
            },
            (LegacyStage::ReadingInitial, LegacyEvent::NoInitial) => {
                self.plan = session::plan_from_type(None);
                self.stage = LegacyStage::Routed;
                LegacyAction::Run(Route::Persistent)
            },
            (LegacyStage::ReadingInitial, LegacyEvent::InitialFailed) => {
                self.stage = LegacyStage::Dropped;
                LegacyAction::Drop
            },
            (LegacyStage::Forwarding, LegacyEvent::Forwarded) => {
                self.stage = LegacyStage::Routed;
                LegacyAction::Run(session::route(&self.plan))
            },
            (LegacyStage::Forwarding, LegacyEvent::ForwardFailed) => {
                self.stage = LegacyStage::Dropped;
                LegacyAction::Drop
            },
            (LegacyStage::Routed, LegacyEvent::Idle) => {
                self.stage = LegacyStage::Dropped;
                LegacyAction::Drop
            },
            _ => LegacyAction::Ignore,
        }
    }
}

/// What the first bytes from the tunnel report. Only a whole request counts.
pub open spec fn initial_report(data: Seq<u8>) -> LegacyEvent {
    if data.len() == 0 {
        LegacyEvent::NoInitial
    } else {
        LegacyEvent::Initial(session::plan_of(data, false))
    }
}

/// What the first bytes from the tunnel report.
pub fn initial_event(data: &[u8]) -> (r: LegacyEvent)
    requires
        data@.len() <= usize::MAX / 4,
    ensures
        r == initial_report(data@),
        forall|req: HttpRequestView| #[trigger]
            request::is_plain_request(req) && data@ == types::written_request(req)
                && completeness::request_complete(data@) ==> r == LegacyEvent::Initial(
                session::plan_for(Some(req.connection_type)),
            ),
        forall|h: head::RequestHeadView| #[trigger]
            head::is_plain_head(h, head::MAX_HEADERS as nat) && head::head_bytes(h).is_prefix_of(
                data@,
            ) ==> r == LegacyEvent::Initial(
                session::plan_by_head(h, completeness::request_complete(data@), false),
            ),
        data@.len() > 0 && head::is_unfinished_head(data@) ==> r == LegacyEvent::Initial(
            session::plan_for(None),
        ),
{
    proof {
        if data@.len() == 0 {
            completeness::lemma_nothing_is_incomplete(data@);
        }
    }
    if data.len() == 0 {
        LegacyEvent::NoInitial
    } else {
        LegacyEvent::Initial(session::plan_session(data, false))
    }
}

/// How one direction of the session starts.
pub open spec fn relay_start() -> Relay {
    Relay::fresh(Counting::WhenRead, false)
}

/// One direction of the session. It counts what was read.
pub fn legacy_relay() -> (r: Relay)
    ensures
        relay::is_fresh(r),
        r.counting == Counting::WhenRead,
        !r.flush_blames_source,
        !r.source_failed && !r.sink_failed,
        r == relay_start(),
{
    Relay::new(Counting::WhenRead, false)
}

// ---------------------------------------------------------------------------
// Watching the messages of a connection that is kept alive
// ---------------------------------------------------------------------------

/// Which messages are watched.
#[derive(Debug, Clone, Copy, PartialEq, Eq, Structural)]
pub enum Watched {
    Requests,
    Responses,
}

/// Collects the bytes of a message until it is whole.
#[derive(Debug)]
pub struct MessageWatch {
    pub watched: Watched,
    /// What has arrived of the message.
    pub data: Vec<u8>,
    /// A message is waited for.
    pub awaiting: bool,
}

/// The bytes are a whole message.
pub open spec fn is_whole(watched: Watched, data: Seq<u8>) -> bool {
    match watched {
        Watched::Requests => completeness::request_complete(data),
        Watched::Responses => completeness::response_complete(data),
    }
}

/// The message that the bytes are ends the connection.
pub open spec fn ends_connection(watched: Watched, data: Seq<u8>) -> bool {
    match watched {
        Watched::Requests => request::recognised(data) matches Some(req) && req.connection_type
            == ConnectionType::Close,
        Watched::Responses => response::begun_response(data) matches Some(res)
            && res.connection_type == ConnectionType::Close,
    }
}

impl MessageWatch {
    /// A watch that has seen nothing.
    pub open spec fn is_new(self, watched: Watched) -> bool {
        self.watched == watched && self.data@ == Seq::<u8>::empty() && self.awaiting
    }

    /// A watch that has seen nothing.
    pub fn new(watched: Watched) -> (r: Self)
        ensures
            r.watched == watched,
            r.data@ == Seq::<u8>::empty(),
            r.awaiting,
            r.is_new(watched),
    {
        MessageWatch { watched, data: Vec::new(), awaiting: true }
    }

    /// What a watch has collected, whether a message is waited for, and the new
    /// state of the connection, once the bytes of a message are these.
    pub open spec fn after(watched: Watched, data: Seq<u8>, awaiting: bool) -> (
        Seq<u8>,
        bool,
        Option<ProxyConnectionState>,
    ) {
        if is_whole(watched, data) {
            (
                Seq::empty(),
                watched == Watched::Responses,
                if ends_connection(watched, data) {
                    Some(ProxyConnectionState::FirstExchange)
                } else {
                    None
                },
            )
        } else {
            (data, awaiting, None)
        }
    }

    /// Takes bytes of the connection. Where they make a message whole, what was
    /// collected is dropped; where that message ends the connection, the state
    /// of the connection changes to the one given.
    pub fn see(&mut self, chunk: &[u8]) -> (r: Option<ProxyConnectionState>)
        requires
            old(self).data@.len() + chunk@.len() <= usize::MAX / 4,
        ensures
            final(self).watched == old(self).watched,
            (final(self).data@, final(self).awaiting, r) == MessageWatch::after(
                old(self).watched,
                old(self).data@ + chunk@,
                old(self).awaiting,
            ),
            is_whole(old(self).watched, old(self).data@ + chunk@) ==> {
                &&& final(self).data@ == Seq::<u8>::empty()
                &&& final(self).awaiting == (old(self).watched == Watched::Responses)
                &&& r == (if ends_connection(old(self).watched, old(self).data@ + chunk@) {
                    Some(ProxyConnectionState::FirstExchange)
                } else {
                    None
                })
            },
            !is_whole(old(self).watched, old(self).data@ + chunk@) ==> {
                &&& final(self).data@ == old(self).data@ + chunk@
                &&& final(self).awaiting == old(self).awaiting
                &&& r is None
            },
            old(self).watched == Watched::Requests ==> forall|h: head::RequestHeadView| #[trigger]
                head::is_plain_head(h, head::MAX_HEADERS as nat) && head::head_bytes(
                    h,
                ).is_prefix_of(old(self).data@ + chunk@) && completeness::request_complete(
                    old(self).data@ + chunk@,
                ) ==> (r is Some) == (request::request_of(
                    h,
                    old(self).data@ + chunk@,
                ).connection_type == ConnectionType::Close),
            old(self).watched == Watched::Responses ==> forall|h: head::ResponseHeadView| #[trigger]
                head::is_plain_response_head(h, head::MAX_HEADERS as nat)
                    && head::response_head_bytes(h).is_prefix_of(old(self).data@ + chunk@)
                    && completeness::response_complete(old(self).data@ + chunk@) ==> (r is Some)
                    == (response::response_of(h, old(self).data@ + chunk@).connection_type
                    == ConnectionType::Close),
    {
        self.data.extend_from_slice(chunk);
        assert(self.data@ =~= old(self).data@ + chunk@);
        let closes: Option<bool> = match self.watched {
            Watched::Requests => {
                let mut parser = HttpRequestParser::new();
                parser.extend(self.data.as_slice());
                assert(parser@ =~= self.data@);
                if parser.is_complete() {
                    match parser.parse() {
                        Ok(req) => Some(matches!(req.connection_type, ConnectionType::Close)),
                        Err(_) => Some(false),
                    }
                } else {
                    None
                }
            },
            Watched::Responses => {
                let mut parser = HttpResponseParser::new();
                parser.extend(self.data.as_slice());
                assert(parser@ =~= self.data@);
                if parser.is_complete() {
                    match parser.parse() {
                        Ok(res) => Some(matches!(res.connection_type, ConnectionType::Close)),
                        Err(_) => Some(false),
                    }
                } else {
                    None
                }
            },
        };
        match closes {
            Some(closes) => {
                self.data.clear();
                self.awaiting = matches!(self.watched, Watched::Responses);
                if closes {
                    Some(ProxyConnectionState::FirstExchange)
                } else {
                    None
                }
            },
            None => None,
        }
    }
}

// ---------------------------------------------------------------------------
// Laws
// ---------------------------------------------------------------------------

/// A session is routed by a plan only once its first bytes were handed to the
/// backend.
pub proof fn routes_follow_forwarding(s: LegacySession, event: LegacyEvent)
    requires
        s.next(event).1 is Run,
    ensures
        (s.stage == LegacyStage::Forwarding && event == LegacyEvent::Forwarded && s.next(event).1
            == LegacyAction::Run(session::route_of(s.plan))) || (s.stage
            == LegacyStage::ReadingInitial && event == LegacyEvent::NoInitial && s.next(event).1
            == LegacyAction::Run(Route::Persistent)),
{
}

/// A session that relays both ways is dropped once neither side sent anything
/// for as long as the timeout allows, unless there is no timeout.
pub proof fn silent_sessions_are_dropped(s: LegacySession, idle_timeout: u64, quiet: u64)
    requires
        s.stage == LegacyStage::Routed,
        session::route_of(s.plan) == Route::Persistent,
        idle_timeout > 0,
        quiet >= idle_timeout * SECOND,
    ensures
        s.is_idle(idle_timeout, quiet),
        s.next(LegacyEvent::Idle) == (
            LegacySession { stage: LegacyStage::Dropped, ..s },
            LegacyAction::Drop,
        ),
{
}

/// A WebSocket is never idle, and without a timeout nothing is.
pub proof fn unlimited_sessions_are_never_idle(s: LegacySession, idle_timeout: u64, quiet: u64)
    requires
        s.plan.is_websocket || idle_timeout == 0,
    ensures
        !s.is_idle(idle_timeout, quiet),
{
}

/// A session that was dropped stays dropped.
pub proof fn dropped_sessions_stay_dropped(s: LegacySession, event: LegacyEvent)
    requires
        s.stage == LegacyStage::Dropped,
    ensures
        s.next(event) == (s, LegacyAction::Ignore),
{
}

/// The pieces put together.
pub open spec fn joined(pieces: Seq<Seq<u8>>) -> Seq<u8>
    decreases pieces.len(),
{
    if pieces.len() == 0 {
        Seq::empty()
    } else {
        joined(pieces.drop_last()) + pieces.last()
    }
}

/// What a watch has collected after these pieces.
pub open spec fn collected(watched: Watched, pieces: Seq<Seq<u8>>) -> Seq<u8>
    decreases pieces.len(),
{
    if pieces.len() == 0 {
        Seq::empty()
    } else {
        let data = collected(watched, pieces.drop_last()) + pieces.last();
        if is_whole(watched, data) {
            Seq::empty()
        } else {
            data
        }
    }
}

/// None of the pieces completes a message.
pub open spec fn completes_nothing(watched: Watched, pieces: Seq<Seq<u8>>) -> bool {
    forall|k: int|
        0 < k <= pieces.len() ==> !is_whole(watched, #[trigger] joined(pieces.take(k)))
}

/// A message that comes in pieces is judged as one: as long as it is not whole,
/// what was collected is all that came of it.
pub proof fn pieces_are_judged_together(watched: Watched, pieces: Seq<Seq<u8>>)
    ensures
        completes_nothing(watched, pieces) ==> collected(watched, pieces) == joined(pieces),
    decreases pieces.len(),
{
    if pieces.len() > 0 && completes_nothing(watched, pieces) {
        let before = pieces.drop_last();
        assert forall|k: int| 0 < k <= before.len() implies !is_whole(
            watched,
            #[trigger] joined(before.take(k)),
        ) by {
            assert(before.take(k) =~= pieces.take(k));
        }
        pieces_are_judged_together(watched, before);
        assert(pieces.take(pieces.len() as int) =~= pieces);
        assert(!is_whole(watched, joined(pieces.take(pieces.len() as int))));
    }
}

/// A session whose connections hold is served: whatever plan its first bytes
/// give, they are handed to the backend, and the session then goes the way of that
/// plan.
pub proof fn sessions_are_routed(plan: SessionPlan)
    ensures
        ({
            let (forwarding, first) = LegacySession::fresh().next(LegacyEvent::Initial(plan));
            let (routed, second) = forwarding.next(LegacyEvent::Forwarded);
            &&& first == LegacyAction::Forward
            &&& routed.stage == LegacyStage::Routed
            &&& routed.plan == plan
            &&& plan.is_websocket ==> second == LegacyAction::Run(Route::WebSocket)
            &&& !plan.is_websocket && plan.is_http && plan.is_connection_close ==> second
                == LegacyAction::Run(Route::OneTime)
            &&& !plan.is_websocket && !(plan.is_http && plan.is_connection_close) ==> second
                == LegacyAction::Run(Route::Persistent)
        }),
        LegacySession::fresh().next(LegacyEvent::NoInitial).1 == LegacyAction::Run(
            Route::Persistent,
        ),
        LegacySession::fresh().next(LegacyEvent::NoInitial).0.stage == LegacyStage::Routed,
{
}

/// A session is dropped exactly where its first bytes cannot be read or handed on,
/// and where it was silent for too long. What does not belong to what it is doing
/// changes nothing.
pub proof fn sessions_are_dropped_for_a_reason(s: LegacySession, event: LegacyEvent)
    ensures
        (s.next(event).1 == LegacyAction::Drop) == (s.stage == LegacyStage::ReadingInitial && event
            == LegacyEvent::InitialFailed || s.stage == LegacyStage::Forwarding && event
            == LegacyEvent::ForwardFailed || s.stage == LegacyStage::Routed && event
            == LegacyEvent::Idle),
        s.next(event).1 == LegacyAction::Drop ==> s.next(event).0.stage == LegacyStage::Dropped,
        (s.next(event).1 == LegacyAction::Ignore) == !(match event {
            LegacyEvent::Initial(_) | LegacyEvent::NoInitial | LegacyEvent::InitialFailed => s.stage
                == LegacyStage::ReadingInitial,
            LegacyEvent::Forwarded | LegacyEvent::ForwardFailed => s.stage
                == LegacyStage::Forwarding,
            LegacyEvent::Idle => s.stage == LegacyStage::Routed,
        }),
        s.next(event).1 == LegacyAction::Ignore ==> s.next(event).0 == s,
        !(event is Initial) && event != LegacyEvent::NoInitial ==> s.next(event).0.plan == s.plan,
{
}

/// Whatever bytes come first are judged, however few or many they are.
pub proof fn all_bytes_are_judged(data: Seq<u8>)
    ensures
        data.len() > 0 ==> initial_report(data) == LegacyEvent::Initial(
            session::plan_of(data, false),
        ),
        initial_report(Seq::empty()) == LegacyEvent::NoInitial,
{
}

/// A session that relays both ways is given up once it was silent for as many
/// seconds as the timeout says, and not a nanosecond sooner; what it may still be
/// silent for is what is missing. Any other session, and any session without a
/// timeout, may be silent for ever.
pub proof fn silence_is_measured_in_seconds(s: LegacySession, idle_timeout: u64, quiet: u64)
    ensures
        ({
            let limited = s.stage == LegacyStage::Routed && !s.plan.is_websocket && !(s.plan.is_http
                && s.plan.is_connection_close) && idle_timeout > 0;
            let v = s.verdict(idle_timeout, quiet);
            &&& (v == IdleCheck::Unlimited) == !limited
            &&& limited ==> (v == IdleCheck::Idle) == (quiet >= idle_timeout * 1_000_000_000)
            &&& v matches IdleCheck::Wait(seconds, nanos) ==> quiet + seconds * 1_000_000_000
                + nanos == idle_timeout * 1_000_000_000 && nanos < 1_000_000_000
            &&& s.is_idle(idle_timeout, quiet) == (v == IdleCheck::Idle)
        }),
{
    let left = idle_timeout * SECOND - quiet;
    if s.has_idle_limit(idle_timeout) && left > 0 {
        assert(left / 1_000_000_000 <= idle_timeout);
        assert(left == (left / 1_000_000_000) * 1_000_000_000 + left % 1_000_000_000);
    }
}

/// The messages of a session are watched exactly where it is HTTP that is kept
/// alive.
pub proof fn kept_sessions_are_watched(s: LegacySession)
    ensures
        s.plan.is_http && s.plan.is_keep_alive ==> s.is_watched(),
        !s.plan.is_http ==> !s.is_watched(),
        !s.plan.is_keep_alive ==> !s.is_watched(),
{
}

/// A direction of a session counts what it reads at once, and what fails in it is
/// held against the end where it happened; a flush against the sink.
pub proof fn directions_count_what_they_read(n: usize)
    requires
        n > 0,
    ensures
        relay::is_fresh(relay_start()),
        relay_start().after(RelayEvent::Read(n)).total == n,
        relay_start().after(RelayEvent::Read(n)).after(RelayEvent::WriteFailed).sink_failed,
        relay_start().after(RelayEvent::ReadFailed).source_failed,
        ({
            let r = relay_start().after(RelayEvent::Read(n)).after(RelayEvent::Written).after(
                RelayEvent::FlushFailed,
            );
            r.sink_failed && !r.source_failed
        }),
{
}

/// As long as a message is not whole, its bytes are collected and nothing changes.
/// Once it is whole they are dropped, a response is waited for again and a request
/// no more, and the connection goes back to its first exchange exactly where the
/// message ends it.
pub proof fn messages_are_judged_when_whole(watched: Watched, data: Seq<u8>, awaiting: bool)
    ensures
        ({
            let (left, waits, state) = MessageWatch::after(watched, data, awaiting);
            &&& !is_whole(watched, data) ==> left == data && waits == awaiting && state is None
            &&& is_whole(watched, data) ==> left.len() == 0 && waits == (watched
                == Watched::Responses)
            &&& is_whole(watched, data) && ends_connection(watched, data) ==> state == Some(
                ProxyConnectionState::FirstExchange,
            )
            &&& is_whole(watched, data) && !ends_connection(watched, data) ==> state is None
        }),
        is_whole(Watched::Requests, data) == completeness::request_complete(data),
        is_whole(Watched::Responses, data) == completeness::response_complete(data),
{
}

/// A whole message whose last `connection` line holds `close`, in any letter case,
/// and that has no `upgrade` line ends the connection, whatever its other lines
/// are.
pub proof fn closing_messages_end_the_connection(
    h: head::RequestHeadView,
    s: head::ResponseHeadView,
    i: int,
    data: Seq<u8>,
)
    ensures
        message::is_last_line(h.headers, "connection"@, i) && message::is_readable_line(
            h.headers[i],
        ) && headers::holds_word(h.headers[i].1, "close"@) && message::has_no_line(
            h.headers,
            "upgrade"@,
        ) && request::recognised(data) == Some(request::request_of(h, data)) ==> ends_connection(
            Watched::Requests,
            data,
        ),
        message::is_last_line(s.headers, "connection"@, i) && message::is_readable_line(
            s.headers[i],
        ) && headers::holds_word(s.headers[i].1, "close"@) && message::has_no_line(
            s.headers,
            "upgrade"@,
        ) && response::begun_response(data) == Some(response::response_of(s, data))
            ==> ends_connection(Watched::Responses, data),
{
    if message::is_last_line(h.headers, "connection"@, i) && message::is_readable_line(h.headers[i])
        && headers::holds_word(h.headers[i].1, "close"@) && message::has_no_line(
        h.headers,
        "upgrade"@,
    ) {
        message::closing_lines_close(h.headers, message::version_text(h.version), i);
    }
    if message::is_last_line(s.headers, "connection"@, i) && message::is_readable_line(s.headers[i])
        && headers::holds_word(s.headers[i].1, "close"@) && message::has_no_line(
        s.headers,
        "upgrade"@,
    ) {
        message::closing_lines_close(s.headers, message::version_text(s.version), i);
    }
}

/// A message that has no `connection` line ends the connection exactly where it is
/// of HTTP/1.0.
pub proof fn silent_messages_end_it_by_version(
    h: head::RequestHeadView,
    s: head::ResponseHeadView,
    data: Seq<u8>,
)
    ensures
        message::has_no_line(h.headers, "connection"@) && request::recognised(data) == Some(
            request::request_of(h, data),
        ) ==> ends_connection(Watched::Requests, data) == (h.version == Some(0u8)),
        message::has_no_line(s.headers, "connection"@) && response::begun_response(data) == Some(
            response::response_of(s, data),
        ) ==> ends_connection(Watched::Responses, data) == (s.version == Some(0u8)),
{
    message::lemma_versions_differ();
    if message::has_no_line(h.headers, "connection"@) {
        message::silent_heads_leave_it_to_the_version(h.headers, message::version_text(h.version));
    }
    if message::has_no_line(s.headers, "connection"@) {
        message::silent_heads_leave_it_to_the_version(s.headers, message::version_text(s.version));
    }
}

/// A new watch judges a message by its first bytes on, and waits for one.
pub proof fn new_watches_wait(watch: MessageWatch, watched: Watched, chunk: Seq<u8>)
    requires
        watch.is_new(watched),
    ensures
        watch.awaiting,
        MessageWatch::after(watch.watched, watch.data@ + chunk, watch.awaiting)
            == MessageWatch::after(watched, chunk, true),
{
    assert(Seq::<u8>::empty() + chunk =~= chunk);
}

} // verus!
