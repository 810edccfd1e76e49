//! The control connection of a client.
//!
//! A `ControlLoop` follows what the server says; a `Callback` follows one call
//! back to the server.

use crate::client::errors::{ProxyError, ProxyErrorView};
use crate::common::protocol;
use crate::common::protocol::{ConnectLine, ConnectLineView};
use vstd::prelude::*;

verus! {

/// How long a line of the server is waited for before it is checked whether to
/// go on, in seconds.
pub const LINE_WAIT: u64 = 1;

/// What the control connection is doing.
#[derive(Debug, Clone, Copy, PartialEq, Eq, Structural)]
pub enum ControlStage {
    Connecting,
    /// Sending the registration.
    Registering,
    /// Flushing the registration.
    Flushing,
    /// Waiting for a visitor to be announced.
    AwaitingReady,
    /// Waiting to be told the handshake of an announced visitor.
    AwaitingConnect,
    Done,
}

/// What happened. Texts tell what went wrong.
#[derive(Debug)]
pub enum ControlEvent {
    Connected,
    ConnectFailed(String),
    ConnectTimedOut,
    Sent,
    SendFailed(String),
    Flushed,
    FlushFailed(String),
    /// The server sent a line.
    Line(String),
    /// The server closed the connection.
    Eof,
    ReadFailed(String),
    /// No line came in time; the flag tells whether the client is to go on.
    TimedOut(bool),
}

/// What to do next.
#[derive(Debug)]
pub enum ControlAction {
    Connect,
    SendRegistration,
    FlushRegistration,
    /// Wait for the next line.
    ReadLine,
    /// Call back for this handshake, then wait for the next line.
    Serve(String),
    /// End without an error.
    Finish,
    Fail(ProxyError),
    /// Nothing: what was reported does not belong here.
    Ignore,
}

/// What a `ControlAction` holds.
pub enum ControlActionView {
    Connect,
    SendRegistration,
    FlushRegistration,
    ReadLine,
    Serve(Seq<char>),
    Finish,
    Fail(ProxyErrorView),
    Ignore,
}

impl View for ControlAction {
    type V = ControlActionView;

    open spec fn view(&self) -> ControlActionView {
        match self {
            ControlAction::Connect => ControlActionView::Connect,
            ControlAction::SendRegistration => ControlActionView::SendRegistration,
            ControlAction::FlushRegistration => ControlActionView::FlushRegistration,
            ControlAction::ReadLine => ControlActionView::ReadLine,
            ControlAction::Serve(id) => ControlActionView::Serve(id@),
            ControlAction::Finish => ControlActionView::Finish,
            ControlAction::Fail(e) => ControlActionView::Fail(e@),
            ControlAction::Ignore => ControlActionView::Ignore,
        }
    }
}

/// The control connection.
#[derive(Debug, Clone, Copy, PartialEq, Eq, Structural)]
pub struct ControlLoop {
    pub stage: ControlStage,
}

/// The end of the loop with an error of that text.
pub open spec fn failure(text: Seq<char>) -> (ControlStage, ControlActionView) {
    (ControlStage::Done, ControlActionView::Fail(ProxyErrorView::Msg(text)))
}

/// What follows where no line came in time. A visitor that was announced and
/// not told in time is forgotten.
pub open spec fn after_wait(running: bool) -> (ControlStage, ControlActionView) {
    if running {
        (ControlStage::AwaitingReady, ControlActionView::ReadLine)
    } else {
        (ControlStage::Done, ControlActionView::Finish)
    }
}

impl ControlLoop {
    /// The stage after an event, and what to do next. An event that does not
    /// belong to the stage changes nothing.
    pub open spec fn next(stage: ControlStage, event: ControlEvent) -> (
        ControlStage,
        ControlActionView,
    ) {
        match (stage, event) {
            (ControlStage::Connecting, ControlEvent::Connected) => (
                ControlStage::Registering,
                ControlActionView::SendRegistration,
            ),
            (ControlStage::Connecting, ControlEvent::ConnectFailed(e)) => failure(
                "Failed to connect to server: "@ + e@,
            ),
            (ControlStage::Connecting, ControlEvent::ConnectTimedOut) => failure(
                "Connection timeout while connecting to server"@,
            ),
            (ControlStage::Registering, ControlEvent::Sent) => (
                ControlStage::Flushing,
                ControlActionView::FlushRegistration,
            ),
            (ControlStage::Registering, ControlEvent::SendFailed(e)) => failure(
                "Failed to send registration message: "@ + e@,
            ),
            (ControlStage::Flushing, ControlEvent::Flushed) => (
                ControlStage::AwaitingReady,
                ControlActionView::ReadLine,
            ),
            (ControlStage::Flushing, ControlEvent::FlushFailed(e)) => failure(
                "Failed to flush registration message: "@ + e@,
            ),
            (ControlStage::AwaitingReady, ControlEvent::Line(line)) => (
                if protocol::announces_visitor(line@) {
                    ControlStage::AwaitingConnect
                } else {
                    ControlStage::AwaitingReady
                },
                ControlActionView::ReadLine,
            ),
            (ControlStage::AwaitingReady, ControlEvent::Eof) => failure(
                "Server closed connection"@,
            ),
            (ControlStage::AwaitingReady, ControlEvent::ReadFailed(e)) => failure(
                "Error reading from server: "@ + e@,
            ),
            (ControlStage::AwaitingReady, ControlEvent::TimedOut(running)) => after_wait(running),
            (ControlStage::AwaitingConnect, ControlEvent::Line(line)) => (
                ControlStage::AwaitingReady,
                match protocol::connect_request(line@) {
                    ConnectLineView::Handshake(id) => ControlActionView::Serve(id),
                    _ => ControlActionView::ReadLine,
                },
            ),
            (ControlStage::AwaitingConnect, ControlEvent::Eof) => failure(
                "Server closed connection while waiting for CONNECT"@,
            ),
            (ControlStage::AwaitingConnect, ControlEvent::ReadFailed(e)) => failure(
                "Error reading from server: "@ + e@,
            ),
            (ControlStage::AwaitingConnect, ControlEvent::TimedOut(running)) => after_wait(running),
            _ => (stage, ControlActionView::Ignore),
        }
    }

    /// A control connection that has to be made.
    pub open spec fn fresh() -> ControlLoop {
        ControlLoop { stage: ControlStage::Connecting }
    }

    /// A control connection that has to be made.
    pub fn new() -> (r: Self)
        ensures
            r.stage == ControlStage::Connecting,
            r == ControlLoop::fresh(),
    {
        ControlLoop { stage: ControlStage::Connecting }
    }

    fn fail(&mut self, prefix: &str, detail: &str) -> (r: ControlAction)
        ensures
            (final(self).stage, r@) == failure(prefix@ + detail@),
    {
        self.stage = ControlStage::Done;
        let mut message = prefix.to_owned();
        message.append(detail);
        ControlAction::Fail(ProxyError::from(message))
    }

    fn fail_plainly(&mut self, message: &str) -> (r: ControlAction)
        ensures
            (final(self).stage, r@) == failure(message@),
    {
        self.stage = ControlStage::Done;
        ControlAction::Fail(ProxyError::from(message))
    }

    fn waited(&mut self, running: bool) -> (r: ControlAction)
        ensures
            (final(self).stage, r@) == after_wait(running),
    {
        if running {
            self.stage = ControlStage::AwaitingReady;
            ControlAction::ReadLine
        } else {
            self.stage = ControlStage::Done;
            ControlAction::Finish
        }
    }

    /// Takes note of what happened and says what to do next.
    pub fn step(&mut self, event: ControlEvent) -> (r: ControlAction)
        ensures
            (final(self).stage, r@) == ControlLoop::next(old(self).stage, event),
    {
        match (self.stage, event) {
            (ControlStage::Connecting, ControlEvent::Connected) => {
                self.stage = ControlStage::Registering;
                ControlAction::SendRegistration
            },
            (ControlStage::Connecting, ControlEvent::ConnectFailed(e)) => self.fail(
                "Failed to connect to server: ",
                e.as_str(),
            ),
            (ControlStage::Connecting, ControlEvent::ConnectTimedOut) => self.fail_plainly(
                "Connection timeout while connecting to server",
            ),
            (ControlStage::Registering, ControlEvent::Sent) => {
                self.stage = ControlStage::Flushing;
                ControlAction::FlushRegistration
            },
            (ControlStage::Registering, ControlEvent::SendFailed(e)) => self.fail(
                "Failed to send registration message: ",
                e.as_str(),
            ),
            (ControlStage::Flushing, ControlEvent::Flushed) => {
                self.stage = ControlStage::AwaitingReady;
                ControlAction::ReadLine
            },
            (ControlStage::Flushing, ControlEvent::FlushFailed(e)) => self.fail(
                "Failed to flush registration message: ",
                e.as_str(),
            ),
            (ControlStage::AwaitingReady, ControlEvent::Line(line)) => {
                if protocol::is_ready(line.as_str()) {
                    self.stage = ControlStage::AwaitingConnect;
                }
                ControlAction::ReadLine
            },
            (ControlStage::AwaitingReady, ControlEvent::Eof) => self.fail_plainly(
                "Server closed connection",
            ),
            (ControlStage::AwaitingReady, ControlEvent::ReadFailed(e)) => self.fail(
                "Error reading from server: ",
                e.as_str(),
            ),
            (ControlStage::AwaitingReady, ControlEvent::TimedOut(running)) => self.waited(running),
            (ControlStage::AwaitingConnect, ControlEvent::Line(line)) => {
                self.stage = ControlStage::AwaitingReady;
                match protocol::parse_connect(line.as_str()) {
                    ConnectLine::Handshake(id) => ControlAction::Serve(id),
                    _ => ControlAction::ReadLine,
                }
            },
            (ControlStage::AwaitingConnect, ControlEvent::Eof) => self.fail_plainly(
                "Server closed connection while waiting for CONNECT",
            ),
            (ControlStage::AwaitingConnect, ControlEvent::ReadFailed(e)) => self.fail(
                "Error reading from server: ",
                e.as_str(),
            ),
            (ControlStage::AwaitingConnect, ControlEvent::TimedOut(running)) => self.waited(
                running,
            ),
            _ => ControlAction::Ignore,
        }
    }
}

// ---------------------------------------------------------------------------
// Calling back
// ---------------------------------------------------------------------------

/// The delay before a call back that follows another closely, in milliseconds.
pub const REFRESH_DELAY: u64 = 50;

/// How long to wait before calling back, in milliseconds, so many nanoseconds
/// after the last call back.
pub open spec fn delay_after(since_last: int) -> Option<u64> {
    if since_last < 500_000_000 {
        Some(REFRESH_DELAY)
    } else {
        None
    }
}

/// How long to wait before calling back, in milliseconds, where the last call
/// back was so many nanoseconds ago: a moment where that is less than half a
/// second, so that quick refreshes do not race.
pub fn refresh_delay(since_last: u64) -> (r: Option<u64>)
    ensures
        r == (if since_last < 500_000_000 {
            Some(REFRESH_DELAY)
        } else {
            None
        }),
        r == delay_after(since_last as int),
{
    let millis: u64 = since_last / 1_000_000;
    if millis < 500 {
        Some(REFRESH_DELAY)
    } else {
        None
    }
}

/// What a call back is doing.
#[derive(Debug, Clone, Copy, PartialEq, Eq, Structural)]
pub enum CallbackStage {
    Connecting,
    Sending,
    Flushing,
    Done,
}

/// What happened.
#[derive(Debug, Clone, Copy, PartialEq, Eq, Structural)]
pub enum CallbackEvent {
    Connected,
    /// The connection failed or took too long.
    ConnectFailed,
    Sent,
    SendFailed,
    Flushed,
    FlushFailed,
}

/// What to do next.
#[derive(Debug, Clone, Copy, PartialEq, Eq, Structural)]
pub enum CallbackAction {
    Connect,
    /// Send the line that names the handshake.
    SendHandshake,
    FlushHandshake,
    /// Serve the session over a pooled backend connection.
    ServePooled,
    /// Serve the session over a backend connection of its own.
    ServeDirect,
    GiveUp,
    /// Nothing: what was reported does not belong here.
    Ignore,
}

/// One call back to the server.
#[derive(Debug, Clone, Copy, PartialEq, Eq, Structural)]
pub struct Callback {
    pub stage: CallbackStage,
    pub use_pool: bool,
}

impl Callback {
    pub open spec fn at(self, stage: CallbackStage) -> Callback {
        Callback { stage, ..self }
    }

    /// The call back after an event, and what to do next. An event that does
    /// not belong to the stage changes nothing.
    pub open spec fn next(self, event: CallbackEvent) -> (Callback, CallbackAction) {
        match (self.stage, event) {
            (CallbackStage::Connecting, CallbackEvent::Connected) => (
                self.at(CallbackStage::Sending),
                CallbackAction::SendHandshake,
            ),
            (CallbackStage::Connecting, CallbackEvent::ConnectFailed) => (
                self.at(CallbackStage::Done),
                CallbackAction::GiveUp,
            ),
            (CallbackStage::Sending, CallbackEvent::Sent) => (
                self.at(CallbackStage::Flushing),
                CallbackAction::FlushHandshake,
            ),
            (CallbackStage::Sending, CallbackEvent::SendFailed) => (
                self.at(CallbackStage::Done),
                CallbackAction::GiveUp,
            ),
            (CallbackStage::Flushing, CallbackEvent::Flushed) => (
                self.at(CallbackStage::Done),
                if self.use_pool {
                    CallbackAction::ServePooled
                } else {
                    CallbackAction::ServeDirect
                },
            ),
            (CallbackStage::Flushing, CallbackEvent::FlushFailed) => (
                self.at(CallbackStage::Done),
                CallbackAction::GiveUp,
            ),
            _ => (self, CallbackAction::Ignore),
        }
    }

    /// A call back that has to be made.
    pub open spec fn fresh(use_pool: bool) -> Callback {
        Callback { stage: CallbackStage::Connecting, use_pool }
    }

    /// A call back that has to be made.
    pub fn new(use_pool: bool) -> (r: Self)
        ensures
            r == (Callback { stage: CallbackStage::Connecting, use_pool }),
            r == Callback::fresh(use_pool),
    {
        Callback { stage: CallbackStage::Connecting, use_pool }
    }

    /// Takes note of what happened and says what to do next.
    pub fn step(&mut self, event: CallbackEvent) -> (r: CallbackAction)
        ensures
            (*final(self), r) == old(self).next(event),
    {
        match (self.stage, event) {
            (CallbackStage::Connecting, CallbackEvent::Connected) => {
                self.stage = CallbackStage::Sending;
                CallbackAction::SendHandshake
            },
            (CallbackStage::Connecting, CallbackEvent::ConnectFailed) => {
                self.stage = CallbackStage::Done;
                CallbackAction::GiveUp
            },
            (CallbackStage::Sending, CallbackEvent::Sent) => {
                self.stage = CallbackStage::Flushing;
                CallbackAction::FlushHandshake
            },
            (CallbackStage::Sending, CallbackEvent::SendFailed) => {
                self.stage = CallbackStage::Done;
                CallbackAction::GiveUp
            },
            (CallbackStage::Flushing, CallbackEvent::Flushed) => {
                self.stage = CallbackStage::Done;
                if self.use_pool {
                    CallbackAction::ServePooled
                } else {
                    CallbackAction::ServeDirect
                }
            },
            (CallbackStage::Flushing, CallbackEvent::FlushFailed) => {
                self.stage = CallbackStage::Done;
                CallbackAction::GiveUp
            },
            _ => CallbackAction::Ignore,
        }
    }
}

// ---------------------------------------------------------------------------
// Laws
// ---------------------------------------------------------------------------

/// A client that waits for visitors serves the one that the server announces,
/// under the handshake that the server names, and then waits for the next.
pub proof fn announced_visitors_are_served(ready: String, connect: String, id: Seq<char>)
    requires
        ready@ == "READY\n"@,
        protocol::is_word(id),
        connect@ == protocol::connect_line(id),
    ensures
        ControlLoop::next(ControlStage::AwaitingReady, ControlEvent::Line(ready)) == (
            ControlStage::AwaitingConnect,
            ControlActionView::ReadLine,
        ),
        ControlLoop::next(ControlStage::AwaitingConnect, ControlEvent::Line(connect)) == (
            ControlStage::AwaitingReady,
            ControlActionView::Serve(id),
        ),
{
    protocol::ready_is_understood();
    protocol::connect_round_trip(id);
}

/// A visitor is served only after being announced, and under the handshake
/// that the line names.
pub proof fn only_announced_visitors_are_served(stage: ControlStage, event: ControlEvent)
    requires
        ControlLoop::next(stage, event).1 is Serve,
    ensures
        stage == ControlStage::AwaitingConnect,
        event matches ControlEvent::Line(line) && protocol::connect_request(line@)
            == ConnectLineView::Handshake(ControlLoop::next(stage, event).1->Serve_0),
{
}

/// Waiting for the handshake begins with nothing but an announcement.
pub proof fn handshakes_follow_announcements(stage: ControlStage, event: ControlEvent)
    requires
        stage != ControlStage::AwaitingConnect,
        ControlLoop::next(stage, event).0 == ControlStage::AwaitingConnect,
    ensures
        event matches ControlEvent::Line(line) && protocol::announces_visitor(line@),
{
}

/// A client that was told to stop ends without an error at the next pause.
pub proof fn shutdown_is_noticed(stage: ControlStage)
    requires
        stage == ControlStage::AwaitingReady || stage == ControlStage::AwaitingConnect,
    ensures
        ControlLoop::next(stage, ControlEvent::TimedOut(false)) == (
            ControlStage::Done,
            ControlActionView::Finish,
        ),
{
}

/// A session is served only once its handshake was sent and flushed.
pub proof fn sessions_follow_handshakes(c: Callback, event: CallbackEvent)
    requires
        c.next(event).1 == CallbackAction::ServePooled || c.next(event).1
            == CallbackAction::ServeDirect,
    ensures
        c.stage == CallbackStage::Flushing,
        event == CallbackEvent::Flushed,
        (c.next(event).1 == CallbackAction::ServePooled) == c.use_pool,
{
}

/// A client whose connection holds registers and then waits for visitors, and goes
/// on waiting through whatever lines and pauses come.
pub proof fn clients_register_and_wait(line: String)
    ensures
        ControlLoop::next(ControlLoop::fresh().stage, ControlEvent::Connected) == (
            ControlStage::Registering,
            ControlActionView::SendRegistration,
        ),
        ControlLoop::next(ControlStage::Registering, ControlEvent::Sent) == (
            ControlStage::Flushing,
            ControlActionView::FlushRegistration,
        ),
        ControlLoop::next(ControlStage::Flushing, ControlEvent::Flushed) == (
            ControlStage::AwaitingReady,
            ControlActionView::ReadLine,
        ),
        ControlLoop::next(ControlStage::AwaitingReady, ControlEvent::Line(line)).1
            == ControlActionView::ReadLine,
        ControlLoop::next(ControlStage::AwaitingReady, ControlEvent::Line(line)).0
            == ControlStage::AwaitingReady || ControlLoop::next(
            ControlStage::AwaitingReady,
            ControlEvent::Line(line),
        ).0 == ControlStage::AwaitingConnect,
        ControlLoop::next(ControlStage::AwaitingConnect, ControlEvent::Line(line)).0
            == ControlStage::AwaitingReady,
        ControlLoop::next(ControlStage::AwaitingConnect, ControlEvent::Line(line)).1 is Serve
            || ControlLoop::next(ControlStage::AwaitingConnect, ControlEvent::Line(line)).1
            == ControlActionView::ReadLine,
        ControlLoop::next(ControlStage::AwaitingReady, ControlEvent::TimedOut(true)) == (
            ControlStage::AwaitingReady,
            ControlActionView::ReadLine,
        ),
        ControlLoop::next(ControlStage::AwaitingConnect, ControlEvent::TimedOut(true)) == (
            ControlStage::AwaitingReady,
            ControlActionView::ReadLine,
        ),
{
}

/// A line that a client waits for announces a visitor exactly where its word is
/// `READY`, and a visitor is served under exactly the handshake that a line names.
pub proof fn lines_are_taken_at_their_word(line: String)
    ensures
        (ControlLoop::next(ControlStage::AwaitingReady, ControlEvent::Line(line)).0
            == ControlStage::AwaitingConnect) == protocol::announces_visitor(line@),
        match protocol::connect_request(line@) {
            ConnectLineView::Handshake(id) => ControlLoop::next(
                ControlStage::AwaitingConnect,
                ControlEvent::Line(line),
            ).1 == ControlActionView::Serve(id),
            _ => ControlLoop::next(ControlStage::AwaitingConnect, ControlEvent::Line(line)).1
                == ControlActionView::ReadLine,
        },
{
}

/// The loop ends with an error exactly where connecting, registering or reading
/// fails or the server closes the connection, and says what went wrong and with
/// what words.
pub proof fn failures_say_what_went_wrong(e: String)
    ensures
        ControlLoop::next(ControlStage::Connecting, ControlEvent::ConnectFailed(e)) == failure(
            "Failed to connect to server: "@ + e@,
        ),
        ControlLoop::next(ControlStage::Connecting, ControlEvent::ConnectTimedOut) == failure(
            "Connection timeout while connecting to server"@,
        ),
        ControlLoop::next(ControlStage::Registering, ControlEvent::SendFailed(e)) == failure(
            "Failed to send registration message: "@ + e@,
        ),
        ControlLoop::next(ControlStage::Flushing, ControlEvent::FlushFailed(e)) == failure(
            "Failed to flush registration message: "@ + e@,
        ),
        ControlLoop::next(ControlStage::AwaitingReady, ControlEvent::Eof) == failure(
            "Server closed connection"@,
        ),
        ControlLoop::next(ControlStage::AwaitingConnect, ControlEvent::Eof) == failure(
            "Server closed connection while waiting for CONNECT"@,
        ),
        ControlLoop::next(ControlStage::AwaitingReady, ControlEvent::ReadFailed(e)) == failure(
            "Error reading from server: "@ + e@,
        ),
        ControlLoop::next(ControlStage::AwaitingConnect, ControlEvent::ReadFailed(e)) == failure(
            "Error reading from server: "@ + e@,
        ),
        forall|text: Seq<char>| #[trigger]
            failure(text).0 == ControlStage::Done && failure(text).1 == ControlActionView::Fail(
                ProxyErrorView::Msg(text),
            ),
{
}

/// An event that belongs to what the control connection is doing.
pub open spec fn belongs(stage: ControlStage, event: ControlEvent) -> bool {
    match event {
        ControlEvent::Connected | ControlEvent::ConnectFailed(_) | ControlEvent::ConnectTimedOut =>
            stage == ControlStage::Connecting,
        ControlEvent::Sent | ControlEvent::SendFailed(_) => stage == ControlStage::Registering,
        ControlEvent::Flushed | ControlEvent::FlushFailed(_) => stage == ControlStage::Flushing,
        ControlEvent::Line(_) | ControlEvent::Eof | ControlEvent::ReadFailed(_)
        | ControlEvent::TimedOut(_) => stage == ControlStage::AwaitingReady || stage
            == ControlStage::AwaitingConnect,
    }
}

/// What does not belong to what the control connection is doing is ignored, and
/// nothing else is. The loop ends only with an error or by being told to stop.
pub proof fn loops_end_for_a_reason(stage: ControlStage, event: ControlEvent)
    ensures
        (ControlLoop::next(stage, event).1 == ControlActionView::Ignore) == !belongs(stage, event),
        !belongs(stage, event) ==> ControlLoop::next(stage, event).0 == stage,
        belongs(stage, event) ==> (ControlLoop::next(stage, event).1 is Fail) == (match event {
            ControlEvent::ConnectFailed(_) | ControlEvent::ConnectTimedOut
            | ControlEvent::SendFailed(_) | ControlEvent::FlushFailed(_) | ControlEvent::Eof
            | ControlEvent::ReadFailed(_) => true,
            _ => false,
        }),
        belongs(stage, event) ==> (ControlLoop::next(stage, event).1 == ControlActionView::Finish)
            == (event == ControlEvent::TimedOut(false)),
        belongs(stage, event) ==> (ControlLoop::next(stage, event).0 == ControlStage::Done) == (
        ControlLoop::next(stage, event).1 is Fail || ControlLoop::next(stage, event).1
            == ControlActionView::Finish),
{
}

/// A call back whose connection holds sends its handshake, flushes it and serves
/// the session; one that fails on the way is given up. What does not belong to what
/// it is doing changes nothing.
pub proof fn call_backs_serve_their_session(use_pool: bool, c: Callback, event: CallbackEvent)
    ensures
        ({
            let start = Callback::fresh(use_pool);
            let (sending, first) = start.next(CallbackEvent::Connected);
            let (flushing, second) = sending.next(CallbackEvent::Sent);
            let (done, third) = flushing.next(CallbackEvent::Flushed);
            &&& first == CallbackAction::SendHandshake
            &&& second == CallbackAction::FlushHandshake
            &&& use_pool ==> third == CallbackAction::ServePooled
            &&& !use_pool ==> third == CallbackAction::ServeDirect
            &&& done.stage == CallbackStage::Done
        }),
        (c.next(event).1 == CallbackAction::GiveUp) == (c.stage == CallbackStage::Connecting && event
            == CallbackEvent::ConnectFailed || c.stage == CallbackStage::Sending && event
            == CallbackEvent::SendFailed || c.stage == CallbackStage::Flushing && event
            == CallbackEvent::FlushFailed),
        c.next(event).1 == CallbackAction::GiveUp ==> c.next(event).0.stage == CallbackStage::Done,
        (c.next(event).1 == CallbackAction::Ignore) == !(match event {
            CallbackEvent::Connected | CallbackEvent::ConnectFailed => c.stage
                == CallbackStage::Connecting,
            CallbackEvent::Sent | CallbackEvent::SendFailed => c.stage == CallbackStage::Sending,
            CallbackEvent::Flushed | CallbackEvent::FlushFailed => c.stage
                == CallbackStage::Flushing,
        }),
        c.next(event).1 == CallbackAction::Ignore ==> c.next(event).0 == c,
        c.next(event).0.use_pool == c.use_pool,
{
}

/// A call back waits a moment of fifty milliseconds exactly where the last one was
/// less than half a second ago.
pub proof fn quick_refreshes_wait(since_last: int)
    ensures
        since_last < 500_000_000 ==> delay_after(since_last) == Some(50u64),
        since_last >= 500_000_000 ==> delay_after(since_last) is None,
{
}

} // verus!
