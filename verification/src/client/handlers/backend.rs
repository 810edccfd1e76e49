//! A session that is served by a pooled backend connection.
//!
//! A `BackendSession` decides; whoever runs it moves the bytes and reports how
//! that went.

use crate::client::errors::{ProxyError, ProxyErrorView};
use crate::common::http_conn::parser::completeness;
use crate::common::http_conn::parser::head;
use crate::common::http_conn::parser::message;
use crate::common::http_conn::parser::request;
use crate::common::http_conn::parser::response;
use crate::common::http_conn::types;
use crate::common::http_conn::types::{HttpRequestView, HttpResponseView};
use crate::common::http_conn::upgrade;
use crate::common::relay;
use crate::common::relay::{Counting, Relay, RelayEvent};
use crate::common::session;
use crate::common::session::SessionPlan;
use crate::common::HttpResponseParser;
use vstd::prelude::*;

verus! {

/// What a session is doing.
#[derive(Debug, Clone, Copy, PartialEq, Eq, Structural)]
pub enum BackendStage {
    /// Getting a backend connection.
    Connecting,
    /// Reading the first bytes of the visitor.
    ReadingInitial,
    /// Handing them to the backend.
    Forwarding,
    /// Waiting for the backend to answer a request for a WebSocket.
    AwaitingResponse,
    /// Handing that answer back.
    Answering,
    /// Carrying a WebSocket.
    WebSocket,
    /// Relaying one response.
    OneTime,
    /// Relaying both ways.
    Relaying,
    /// Opening a connection to put into the pool.
    Replacing,
    Done,
}

/// What happened.
#[derive(Debug, Clone, Copy, PartialEq, Eq, Structural)]
pub enum BackendEvent {
    Connected,
    ConnectFailed,
    /// The first bytes came, and this is the plan they give.
    Initial(SessionPlan),
    /// The tunnel ended before any bytes came.
    NoInitial,
    InitialFailed,
    Forwarded,
    ForwardFailed,
    /// The backend answered; it grants the WebSocket or not.
    Response(bool),
    /// The backend closed, failed or took too long.
    NoResponse,
    Answered,
    AnswerFailed,
    /// The WebSocket or the response came to its end.
    HandlerDone,
    /// Both relays came to their end.
    RelaysDone { server_failed: bool, backend_failed: bool },
    Replaced,
    ReplaceFailed,
}

/// Why a session failed.
#[derive(Debug, Clone, Copy, PartialEq, Eq, Structural)]
pub enum BackendFailure {
    /// No backend connection could be had.
    NoBackend,
    /// The backend did not answer a request for a WebSocket.
    NoUpgradeResponse,
    /// Reading or writing failed.
    Io,
}

impl BackendFailure {
    /// The error that a failure is reported as, where `detail` tells what
    /// went wrong in reading or writing.
    pub open spec fn error_view(self, detail: Seq<char>) -> ProxyErrorView {
        match self {
            BackendFailure::NoBackend => ProxyErrorView::Msg("Failed to connect to backend"@),
            BackendFailure::NoUpgradeResponse => ProxyErrorView::Msg(
                "Failed to get backend response for WebSocket upgrade"@,
            ),
            BackendFailure::Io => ProxyErrorView::Io(detail),
        }
    }

    /// The error that a failure is reported as.
    pub fn error(self, detail: &str) -> (r: ProxyError)
        ensures
            r@ == self.error_view(detail@),
    {
        match self {
            BackendFailure::NoBackend => ProxyError::from("Failed to connect to backend"),
            BackendFailure::NoUpgradeResponse => ProxyError::from(
                "Failed to get backend response for WebSocket upgrade",
            ),
            BackendFailure::Io => ProxyError::Io(detail.to_owned()),
        }
    }
}

/// What to do next.
#[derive(Debug, Clone, Copy, PartialEq, Eq, Structural)]
pub enum BackendAction {
    /// Get a connection from the pool, or a new one.
    Connect,
    /// Read the first bytes from the tunnel.
    ReadInitial,
    /// Write them to the backend.
    Forward,
    /// Read the answer of the backend.
    AwaitResponse,
    /// Write it to the tunnel.
    Answer,
    /// Carry a WebSocket.
    RunWebSocket,
    /// Relay one response.
    RunOneTime,
    /// Relay both ways.
    RunRelays,
    /// Open a connection and put it into the pool.
    Replace,
    /// The session has come to its end.
    Finish,
    /// The session has failed.
    Fail(BackendFailure),
    /// Nothing: what was reported does not belong here.
    Ignore,
}

/// A session that is served by a backend connection.
#[derive(Debug, Clone, Copy, PartialEq, Eq, Structural)]
pub struct BackendSession {
    pub stage: BackendStage,
    pub plan: SessionPlan,
    /// The backend granted a WebSocket.
    pub granted: bool,
}

/// The backend connection can be replaced by a fresh one in the pool: the
/// session was HTTP, kept alive, and nothing failed.
pub open spec fn can_reuse(plan: SessionPlan, server_failed: bool, backend_failed: bool) -> bool {
    plan.is_http && plan.is_keep_alive && !server_failed && !backend_failed
}

impl BackendSession {
    pub open spec fn at(self, stage: BackendStage) -> BackendSession {
        BackendSession { stage, ..self }
    }

    /// How a session goes on that carries no WebSocket.
    pub open spec fn after_forwarding(self) -> (BackendSession, BackendAction) {
        if self.plan.is_http && self.plan.is_connection_close {
            (self.at(BackendStage::OneTime), BackendAction::RunOneTime)
        } else {
            (self.at(BackendStage::Relaying), BackendAction::RunRelays)
        }
    }

    /// The session that has failed.
    pub open spec fn failed(self, why: BackendFailure) -> (BackendSession, BackendAction) {
        (self.at(BackendStage::Done), BackendAction::Fail(why))
    }

    /// The session after an event, and what to do next. An event that does not
    /// belong to the stage changes nothing.
    pub open spec fn next(self, event: BackendEvent) -> (BackendSession, BackendAction) {
        match (self.stage, event) {
            (BackendStage::Connecting, BackendEvent::Connected) => (
                self.at(BackendStage::ReadingInitial),
                BackendAction::ReadInitial,
            ),
            (BackendStage::Connecting, BackendEvent::ConnectFailed) => self.failed(
                BackendFailure::NoBackend,
            ),
            (BackendStage::ReadingInitial, BackendEvent::Initial(plan)) => (
                BackendSession { stage: BackendStage::Forwarding, plan, ..self },
                BackendAction::Forward,
            ),
            (BackendStage::ReadingInitial, BackendEvent::NoInitial) => (
                self.at(BackendStage::Relaying),
                BackendAction::RunRelays,
            ),
            (BackendStage::ReadingInitial, BackendEvent::InitialFailed) => self.failed(
                BackendFailure::Io,
            ),
            (BackendStage::Forwarding, BackendEvent::ForwardFailed) => self.failed(
                BackendFailure::Io,
            ),
            (BackendStage::Forwarding, BackendEvent::Forwarded) => if self.plan.is_websocket {
                (self.at(BackendStage::AwaitingResponse), BackendAction::AwaitResponse)
            } else {
                self.after_forwarding()
            },
            (BackendStage::AwaitingResponse, BackendEvent::NoResponse) => self.failed(
                BackendFailure::NoUpgradeResponse,
            ),
            (BackendStage::AwaitingResponse, BackendEvent::Response(granted)) => (
                BackendSession { stage: BackendStage::Answering, granted, ..self },
                BackendAction::Answer,
            ),
            (BackendStage::Answering, BackendEvent::AnswerFailed) => self.failed(
                BackendFailure::Io,
            ),
            (BackendStage::Answering, BackendEvent::Answered) => if self.granted {
                (self.at(BackendStage::WebSocket), BackendAction::RunWebSocket)
            } else {
                self.after_forwarding()
            },
            (BackendStage::WebSocket, BackendEvent::HandlerDone) => (
                self.at(BackendStage::Done),
                BackendAction::Finish,
            ),
            (BackendStage::OneTime, BackendEvent::HandlerDone) => (
                self.at(BackendStage::Done),
                BackendAction::Finish,
            ),
            (
                BackendStage::Relaying,
                BackendEvent::RelaysDone { server_failed, backend_failed },
            ) => if can_reuse(self.plan, server_failed, backend_failed) {
                (self.at(BackendStage::Replacing), BackendAction::Replace)
            } else {
                (self.at(BackendStage::Done), BackendAction::Finish)
            },
            (BackendStage::Replacing, BackendEvent::Replaced) => (
                self.at(BackendStage::Done),
                BackendAction::Finish,
            ),
            (BackendStage::Replacing, BackendEvent::ReplaceFailed) => (
                self.at(BackendStage::Done),
                BackendAction::Finish,
            ),
            _ => (self, BackendAction::Ignore),
        }
    }

    /// A session that has to get its backend connection.
    pub open spec fn fresh() -> BackendSession {
        BackendSession {
            stage: BackendStage::Connecting,
            plan: session::plan_for(None),
            granted: false,
        }
    }

    /// A session that has to get its backend connection.
    pub fn new() -> (r: Self)
        ensures
            r == BackendSession::fresh(),
    {
        BackendSession {
            stage: BackendStage::Connecting,
            plan: session::plan_from_type(None),
            granted: false,
        }
    }

    fn fail(&mut self, why: BackendFailure) -> (r: BackendAction)
        ensures
            (*final(self), r) == old(self).failed(why),
    {
        self.stage = BackendStage::Done;
        BackendAction::Fail(why)
    }

    fn go_on(&mut self) -> (r: BackendAction)
        ensures
            (*final(self), r) == old(self).after_forwarding(),
    {
        if self.plan.is_http && self.plan.is_connection_close {
            self.stage = BackendStage::OneTime;
            BackendAction::RunOneTime
        } else {
            self.stage = BackendStage::Relaying;
            BackendAction::RunRelays
        }
    }

    fn finish(&mut self) -> (r: BackendAction)
        ensures
            (*final(self), r) == (old(self).at(BackendStage::Done), BackendAction::Finish),
    {
        self.stage = BackendStage::Done;
        BackendAction::Finish
    }

    /// Takes note of what happened and says what to do next.
    pub fn step(&mut self, event: BackendEvent) -> (r: BackendAction)
        ensures
            (*final(self), r) == old(self).next(event),
    {
        match (self.stage, event) {
            (BackendStage::Connecting, BackendEvent::Connected) => {
                self.stage = BackendStage::ReadingInitial;
                BackendAction::ReadInitial
            },
            (BackendStage::Connecting, BackendEvent::ConnectFailed) => self.fail(
                BackendFailure::NoBackend,
            ),
            (BackendStage::ReadingInitial, BackendEvent::Initial(plan)) => {
                self.plan = plan;
                self.stage = BackendStage::Forwarding;
                BackendAction::Forward
            },
            (BackendStage::ReadingInitial, BackendEvent::NoInitial) => {
                self.stage = BackendStage::Relaying;
                BackendAction::RunRelays
            },
            (BackendStage::ReadingInitial, BackendEvent::InitialFailed) => self.fail(
                BackendFailure::Io,
            ),
            (BackendStage::Forwarding, BackendEvent::ForwardFailed) => self.fail(
                BackendFailure::Io,
            ),
            (BackendStage::Forwarding, BackendEvent::Forwarded) => {
                if self.plan.is_websocket {
                    self.stage = BackendStage::AwaitingResponse;
                    BackendAction::AwaitResponse
                } else {
                    self.go_on()
                }
            },
            (BackendStage::AwaitingResponse, BackendEvent::NoResponse) => self.fail(
                BackendFailure::NoUpgradeResponse,
            ),
            (BackendStage::AwaitingResponse, BackendEvent::Response(granted)) => {
                self.granted = granted;
                self.stage = BackendStage::Answering;
                BackendAction::Answer
            },
            (BackendStage::Answering, BackendEvent::AnswerFailed) => self.fail(BackendFailure::Io),
            (BackendStage::Answering, BackendEvent::Answered) => {
                if self.granted {
                    self.stage = BackendStage::WebSocket;
                    BackendAction::RunWebSocket
                } else {
                    self.go_on()
                }
            },
            (BackendStage::WebSocket, BackendEvent::HandlerDone) => self.finish(),
            (BackendStage::OneTime, BackendEvent::HandlerDone) => self.finish(),
            (
                BackendStage::Relaying,
                BackendEvent::RelaysDone { server_failed, backend_failed },
            ) => {
                if self.plan.is_http && self.plan.is_keep_alive && !server_failed
                    && !backend_failed {
                    self.stage = BackendStage::Replacing;
                    BackendAction::Replace
                } else {
                    self.finish()
                }
            },
            (BackendStage::Replacing, BackendEvent::Replaced) => self.finish(),
            (BackendStage::Replacing, BackendEvent::ReplaceFailed) => self.finish(),
            _ => BackendAction::Ignore,
        }
    }
}

// ---------------------------------------------------------------------------
// From bytes to events
// ---------------------------------------------------------------------------

/// What the first bytes from the tunnel report.
pub open spec fn initial_report(data: Seq<u8>) -> BackendEvent {
    if data.len() == 0 {
        BackendEvent::NoInitial
    } else {
        BackendEvent::Initial(session::plan_of(data, true))
    }
}

/// What the first bytes from the tunnel report.
pub fn initial_event(data: &[u8]) -> (r: BackendEvent)
    requires
        data@.len() <= usize::MAX / 4,
    ensures
        r == initial_report(data@),
        forall|req: HttpRequestView| #[trigger]
            request::is_plain_request(req) && data@ == types::written_request(req)
                && completeness::request_complete(data@) ==> r == BackendEvent::Initial(
                session::plan_for(Some(req.connection_type)),
            ),
        forall|h: head::RequestHeadView| #[trigger]
            head::is_plain_head(h, head::MAX_HEADERS as nat) && head::head_bytes(h).is_prefix_of(
                data@,
            ) ==> r == BackendEvent::Initial(
                session::plan_by_head(h, completeness::request_complete(data@), true),
            ),
        data@.len() > 0 && head::is_unfinished_head(data@) ==> r == BackendEvent::Initial(
            session::plan_for(None),
        ),
{
    proof {
        if data@.len() == 0 {
            completeness::lemma_nothing_is_incomplete(data@);
        }
    }
    if data.len() == 0 {
        BackendEvent::NoInitial
    } else {
        BackendEvent::Initial(session::plan_session(data, true))
    }
}

/// What the answer of the backend to a request for a WebSocket reports.
pub open spec fn response_report(data: Seq<u8>) -> BackendEvent {
    if data.len() == 0 {
        BackendEvent::NoResponse
    } else {
        BackendEvent::Response(response::upgrade_granted(data))
    }
}

/// What the answer of the backend to a request for a WebSocket reports.
pub fn response_event(data: &[u8]) -> (r: BackendEvent)
    requires
        data@.len() <= usize::MAX / 4,
    ensures
        r == response_report(data@),
        forall|res: HttpResponseView| #[trigger]
            response::is_plain_response(res) && data@ == response::written_response(res) ==> r
                == BackendEvent::Response(upgrade::grants_websocket(res.status, res.headers)),
        forall|h: head::ResponseHeadView| #[trigger]
            head::is_plain_response_head(h, head::MAX_HEADERS as nat)
                && head::response_head_bytes(h).is_prefix_of(data@) ==> r == BackendEvent::Response(
                upgrade::grants_websocket(
                    response::status_of(h.code),
                    message::stored_fields(h.headers),
                ),
            ),
        data@.len() > 0 && head::is_unfinished_response_head(data@) ==> r
            == BackendEvent::Response(false),
{
    if data.len() == 0 {
        return BackendEvent::NoResponse;
    }
    let mut parser = HttpResponseParser::new();
    parser.extend(data);
    assert(parser@ =~= data@);
    BackendEvent::Response(parser.is_websocket_upgrade())
}

/// How the relay from the tunnel to the backend starts.
pub open spec fn to_backend_start() -> Relay {
    Relay::fresh(Counting::WhenFlushed, true)
}

/// How the relay from the backend to the tunnel starts.
pub open spec fn to_server_start(has_idle_limit: bool) -> Relay {
    Relay::fresh(Counting::WhenFlushed, has_idle_limit)
}

/// What two relays that came to their end report.
pub open spec fn relays_report(to_backend: Relay, to_server: Relay) -> BackendEvent {
    BackendEvent::RelaysDone {
        server_failed: to_backend.source_failed || to_server.sink_failed,
        backend_failed: to_backend.sink_failed || to_server.source_failed,
    }
}

/// The relay from the tunnel to the backend. A flush that fails is held
/// against the tunnel.
pub fn relay_to_backend() -> (r: Relay)
    ensures
        relay::is_fresh(r),
        r.counting == Counting::WhenFlushed,
        r.flush_blames_source,
        !r.source_failed && !r.sink_failed,
        r == to_backend_start(),
{
    Relay::new(Counting::WhenFlushed, true)
}

/// The relay from the backend to the tunnel. A flush that fails is held
/// against the backend where idle time is limited, else against the tunnel.
pub fn relay_to_server(has_idle_limit: bool) -> (r: Relay)
    ensures
        relay::is_fresh(r),
        r.counting == Counting::WhenFlushed,
        r.flush_blames_source == has_idle_limit,
        !r.source_failed && !r.sink_failed,
        r == to_server_start(has_idle_limit),
{
    Relay::new(Counting::WhenFlushed, has_idle_limit)
}

/// What two relays that came to their end report: which side failed, whether
/// as a source or as a sink.
pub fn relays_event(to_backend: &Relay, to_server: &Relay) -> (r: BackendEvent)
    ensures
        r == (BackendEvent::RelaysDone {
            server_failed: to_backend.source_failed || to_server.sink_failed,
            backend_failed: to_backend.sink_failed || to_server.source_failed,
        }),
        r == relays_report(*to_backend, *to_server),
{
    BackendEvent::RelaysDone {
        server_failed: to_backend.source_failed || to_server.sink_failed,
        backend_failed: to_backend.sink_failed || to_server.source_failed,
    }
}

// ---------------------------------------------------------------------------
// Laws
// ---------------------------------------------------------------------------

/// The session that a history leads to.
pub open spec fn session_of(history: Seq<BackendEvent>) -> BackendSession
    decreases history.len(),
{
    if history.len() == 0 {
        BackendSession::fresh()
    } else {
        session_of(history.drop_last()).next(history.last()).0
    }
}

/// A WebSocket is carried only where one was asked for and the backend granted
/// it; one response is relayed only for a request that closes the connection;
/// and a connection goes into the pool only for HTTP that is kept alive.
pub proof fn stages_have_reasons(history: Seq<BackendEvent>)
    ensures
        ({
            let s = session_of(history);
            &&& s.stage == BackendStage::WebSocket ==> s.plan.is_websocket && s.granted
            &&& s.stage == BackendStage::AwaitingResponse || s.stage == BackendStage::Answering
                ==> s.plan.is_websocket
            &&& s.stage == BackendStage::OneTime ==> s.plan.is_http && s.plan.is_connection_close
            &&& s.stage == BackendStage::Replacing ==> s.plan.is_http && s.plan.is_keep_alive
            &&& s.stage == BackendStage::Connecting || s.stage == BackendStage::ReadingInitial
                ==> s.plan == session::plan_for(None) && !s.granted
        }),
    decreases history.len(),
{
    if history.len() > 0 {
        stages_have_reasons(history.drop_last());
    }
}

/// A connection is put into the pool only after relays that did not fail.
pub proof fn replacements_follow_clean_relays(s: BackendSession, event: BackendEvent)
    requires
        s.next(event).1 == BackendAction::Replace,
    ensures
        event == (BackendEvent::RelaysDone { server_failed: false, backend_failed: false }),
        s.plan.is_http && s.plan.is_keep_alive,
{
}

/// Where the backend refuses a WebSocket, the session goes on relaying both
/// ways.
pub proof fn refused_upgrades_are_relayed(data: Seq<u8>)
    ensures
        session::plan_of(data, true).is_websocket ==> (BackendSession {
            stage: BackendStage::Answering,
            plan: session::plan_of(data, true),
            granted: false,
        }).next(BackendEvent::Answered).1 == BackendAction::RunRelays,
{
    session::websocket_sessions_do_not_close(data, true);
}

/// A session that has come to its end stays there.
pub proof fn done_sessions_stay_done(s: BackendSession, event: BackendEvent)
    requires
        s.stage == BackendStage::Done,
    ensures
        s.next(event) == (s, BackendAction::Ignore),
{
}

/// A session whose connections hold is served: it connects, reads the first
/// bytes, forwards them, and then goes on as its plan says, whatever that is. Where
/// a WebSocket was asked for, the answer of the backend is handed back, and the
/// WebSocket is carried exactly where it was granted.
pub proof fn sessions_are_served(plan: SessionPlan, granted: bool)
    ensures
        BackendSession::fresh().next(BackendEvent::Connected).1 == BackendAction::ReadInitial,
        ({
            let read = BackendSession::fresh().next(BackendEvent::Connected).0;
            let (forwarding, first) = read.next(BackendEvent::Initial(plan));
            let (on, second) = forwarding.next(BackendEvent::Forwarded);
            let (answering, third) = on.next(BackendEvent::Response(granted));
            let (over, fourth) = answering.next(BackendEvent::Answered);
            &&& first == BackendAction::Forward
            &&& plan.is_websocket ==> second == BackendAction::AwaitResponse && third
                == BackendAction::Answer
            &&& plan.is_websocket && granted ==> fourth == BackendAction::RunWebSocket && over.next(
                BackendEvent::HandlerDone,
            ).1 == BackendAction::Finish
            &&& plan.is_websocket && !granted && plan.is_http && plan.is_connection_close ==> fourth
                == BackendAction::RunOneTime
            &&& plan.is_websocket && !granted && !(plan.is_http && plan.is_connection_close)
                ==> fourth == BackendAction::RunRelays
            &&& !plan.is_websocket && plan.is_http && plan.is_connection_close ==> second
                == BackendAction::RunOneTime && on.next(BackendEvent::HandlerDone).1
                == BackendAction::Finish
            &&& !plan.is_websocket && !(plan.is_http && plan.is_connection_close) ==> second
                == BackendAction::RunRelays
        }),
{
}

/// Where the tunnel ended before any bytes came, the session relays both ways.
pub proof fn silent_sessions_are_relayed(s: BackendSession)
    requires
        s.stage == BackendStage::ReadingInitial,
    ensures
        s.next(BackendEvent::NoInitial) == (
            s.at(BackendStage::Relaying),
            BackendAction::RunRelays,
        ),
{
}

/// Relays that came to their end lead to a fresh connection in the pool exactly
/// where the session was HTTP that is kept alive and no side failed; the session
/// then ends, whether or not that connection could be had.
pub proof fn clean_relays_are_replaced(s: BackendSession, server_failed: bool, backend_failed: bool)
    requires
        s.stage == BackendStage::Relaying,
    ensures
        ({
            let (after, action) = s.next(BackendEvent::RelaysDone { server_failed, backend_failed });
            &&& (action == BackendAction::Replace) == (s.plan.is_http && s.plan.is_keep_alive
                && !server_failed && !backend_failed)
            &&& action != BackendAction::Replace ==> action == BackendAction::Finish && after.stage
                == BackendStage::Done
            &&& action == BackendAction::Replace ==> after.next(BackendEvent::Replaced).1
                == BackendAction::Finish && after.next(BackendEvent::ReplaceFailed).1
                == BackendAction::Finish
        }),
{
}

/// A session fails exactly where no backend could be had, where the backend does
/// not answer a request for a WebSocket, and where reading or writing fails before
/// it is on its way; it is then done.
pub proof fn sessions_fail_for_a_reason(s: BackendSession, event: BackendEvent)
    ensures
        (s.next(event).1 == BackendAction::Fail(BackendFailure::NoBackend)) == (s.stage
            == BackendStage::Connecting && event == BackendEvent::ConnectFailed),
        (s.next(event).1 == BackendAction::Fail(BackendFailure::NoUpgradeResponse)) == (s.stage
            == BackendStage::AwaitingResponse && event == BackendEvent::NoResponse),
        (s.next(event).1 == BackendAction::Fail(BackendFailure::Io)) == (s.stage
            == BackendStage::ReadingInitial && event == BackendEvent::InitialFailed || s.stage
            == BackendStage::Forwarding && event == BackendEvent::ForwardFailed || s.stage
            == BackendStage::Answering && event == BackendEvent::AnswerFailed),
        s.next(event).1 is Fail || s.next(event).1 == BackendAction::Finish ==> s.next(event).0.stage
            == BackendStage::Done,
        s.next(event).0.stage == BackendStage::Done && s.stage != BackendStage::Done ==> s.next(
            event,
        ).1 is Fail || s.next(event).1 == BackendAction::Finish,
{
}

/// An event that belongs to what a session is doing.
pub open spec fn belongs(stage: BackendStage, event: BackendEvent) -> bool {
    match event {
        BackendEvent::Connected | BackendEvent::ConnectFailed => stage == BackendStage::Connecting,
        BackendEvent::Initial(_) | BackendEvent::NoInitial | BackendEvent::InitialFailed => stage
            == BackendStage::ReadingInitial,
        BackendEvent::Forwarded | BackendEvent::ForwardFailed => stage == BackendStage::Forwarding,
        BackendEvent::Response(_) | BackendEvent::NoResponse => stage
            == BackendStage::AwaitingResponse,
        BackendEvent::Answered | BackendEvent::AnswerFailed => stage == BackendStage::Answering,
        BackendEvent::HandlerDone => stage == BackendStage::WebSocket || stage
            == BackendStage::OneTime,
        BackendEvent::RelaysDone { .. } => stage == BackendStage::Relaying,
        BackendEvent::Replaced | BackendEvent::ReplaceFailed => stage == BackendStage::Replacing,
    }
}

/// An event is ignored exactly where it does not belong to what the session is
/// doing, and then it changes nothing. The plan and what the backend granted
/// change only where they are told.
pub proof fn sessions_ignore_what_is_out_of_turn(s: BackendSession, event: BackendEvent)
    ensures
        (s.next(event).1 == BackendAction::Ignore) == !belongs(s.stage, event),
        !belongs(s.stage, event) ==> s.next(event).0 == s,
        !(event is Initial) ==> s.next(event).0.plan == s.plan,
        !(event is Response) ==> s.next(event).0.granted == s.granted,
        s.stage == BackendStage::ReadingInitial ==> (event matches BackendEvent::Initial(plan)
            ==> s.next(event).0.plan == plan),
        s.stage == BackendStage::AwaitingResponse ==> (event matches BackendEvent::Response(granted)
            ==> s.next(event).0.granted == granted),
{
}

/// Whatever bytes come first are judged, however few or many they are; only where
/// there are none is there nothing to judge. So is whatever the backend answers.
pub proof fn all_bytes_are_judged(data: Seq<u8>)
    ensures
        data.len() > 0 ==> initial_report(data) == BackendEvent::Initial(
            session::plan_of(data, true),
        ),
        data.len() > 0 ==> response_report(data) == BackendEvent::Response(
            response::upgrade_granted(data),
        ),
        initial_report(Seq::empty()) == BackendEvent::NoInitial,
        response_report(Seq::empty()) == BackendEvent::NoResponse,
{
}

/// What fails between the tunnel and the backend is held against one of them: a
/// read against the one that was read from, a write against the one that was
/// written to. A flush towards the backend is held against the tunnel; a flush
/// towards the tunnel against the backend where idle time is limited, else against
/// the tunnel.
pub proof fn failures_are_held_against_an_end(n: usize, has_idle_limit: bool)
    requires
        n > 0,
    ensures
        ({
            let a = to_backend_start();
            let b = to_server_start(has_idle_limit);
            let a_on = a.after(RelayEvent::Read(n));
            let b_on = b.after(RelayEvent::Read(n));
            let server = BackendEvent::RelaysDone { server_failed: true, backend_failed: false };
            let backend = BackendEvent::RelaysDone { server_failed: false, backend_failed: true };
            let neither = BackendEvent::RelaysDone { server_failed: false, backend_failed: false };
            &&& relays_report(a, b) == neither
            &&& relays_report(a.after(RelayEvent::Read(0)), b.after(RelayEvent::Read(0))) == neither
            &&& relays_report(a.after(RelayEvent::Idle), b.after(RelayEvent::Idle)) == neither
            &&& relays_report(a.after(RelayEvent::ReadFailed), b) == server
            &&& relays_report(a, b.after(RelayEvent::ReadFailed)) == backend
            &&& relays_report(a_on.after(RelayEvent::WriteFailed), b) == backend
            &&& relays_report(a, b_on.after(RelayEvent::WriteFailed)) == server
            &&& relays_report(
                a_on.after(RelayEvent::Written).after(RelayEvent::FlushFailed),
                b,
            ) == server
            &&& relays_report(a, b_on.after(RelayEvent::Written).after(RelayEvent::FlushFailed))
                == (if has_idle_limit {
                backend
            } else {
                server
            })
            &&& a_on.after(RelayEvent::Written).total == 0
            &&& a_on.after(RelayEvent::Written).after(RelayEvent::Flushed).total == n
            &&& b_on.after(RelayEvent::Written).total == 0
            &&& b_on.after(RelayEvent::Written).after(RelayEvent::Flushed).total == n
        }),
{
}

/// One failure anywhere is enough for a side to have failed.
pub proof fn any_failure_is_reported(to_backend: Relay, to_server: Relay)
    ensures
        relays_report(to_backend, to_server) is RelaysDone,
        to_backend.source_failed ==> relays_report(to_backend, to_server)->server_failed,
        to_server.sink_failed ==> relays_report(to_backend, to_server)->server_failed,
        to_backend.sink_failed ==> relays_report(to_backend, to_server)->backend_failed,
        to_server.source_failed ==> relays_report(to_backend, to_server)->backend_failed,
        !to_backend.source_failed && !to_server.sink_failed ==> !relays_report(
            to_backend,
            to_server,
        )->server_failed,
        !to_backend.sink_failed && !to_server.source_failed ==> !relays_report(
            to_backend,
            to_server,
        )->backend_failed,
{
}

/// A failure in reading or writing tells what went wrong, and every failure tells
/// which it was.
pub proof fn failures_are_told_apart(detail: Seq<char>, other: Seq<char>)
    ensures
        BackendFailure::Io.error_view(detail) == ProxyErrorView::Io(detail),
        BackendFailure::NoBackend.error_view(detail) == ProxyErrorView::Msg(
            "Failed to connect to backend"@,
        ),
        BackendFailure::NoUpgradeResponse.error_view(detail) == ProxyErrorView::Msg(
            "Failed to get backend response for WebSocket upgrade"@,
        ),
        BackendFailure::NoBackend.error_view(detail)
            != BackendFailure::NoUpgradeResponse.error_view(other),
{
    reveal_strlit("Failed to connect to backend");
    reveal_strlit("Failed to get backend response for WebSocket upgrade");
    assert("Failed to connect to backend"@.len()
        != "Failed to get backend response for WebSocket upgrade"@.len());
}

} // verus!
