//! A registered client and the visitors of its public port.
//!
//! A `Registration` follows the control connection of a client, a `Visit` one
//! visitor until its session is under way.

use crate::common::protocol;
use crate::common::protocol::RegisterError;
use crate::server::config::SessionSettings;
use vstd::prelude::*;

verus! {

// ---------------------------------------------------------------------------
// The control connection
// ---------------------------------------------------------------------------

/// What the control connection of a client is doing.
#[derive(Debug, Clone, Copy, PartialEq, Eq, Structural)]
pub enum RegistrationStage {
    /// Waiting for the registration.
    AwaitingLine,
    /// Opening the public port.
    Binding,
    /// Waiting for visitors.
    Serving,
    Done,
}

/// What happened.
#[derive(Debug)]
pub enum RegistrationEvent {
    /// The client sent its first line.
    Line(String),
    /// The client left, or reading failed, before that.
    NoLine,
    Bound,
    BindFailed,
    /// A visitor came.
    Visitor,
    /// A visitor could not be let in.
    AcceptFailed,
    /// The client sent another line.
    Chatter,
    /// The client left.
    Gone,
}

/// What to do next.
#[derive(Debug, Clone, Copy, PartialEq, Eq, Structural)]
pub enum RegistrationAction {
    /// Open this public port.
    Bind(u16),
    /// Wait for a visitor, or for the client to leave.
    Wait,
    /// See to the visitor, then wait.
    Visit,
    /// Tell the client why it is refused, and close.
    Refuse(RegisterError),
    /// Close.
    Close,
    /// Nothing: what was reported does not belong here.
    Ignore,
}

/// The control connection of a client.
#[derive(Debug, Clone, Copy, PartialEq, Eq, Structural)]
pub struct Registration {
    pub stage: RegistrationStage,
    pub backend_port: u16,
    pub public_port: u16,
}

impl Registration {
    pub open spec fn at(self, stage: RegistrationStage) -> Registration {
        Registration { stage, ..self }
    }

    /// The connection after an event, and what to do next. An event that does
    /// not belong to the stage changes nothing.
    pub open spec fn next(self, event: RegistrationEvent) -> (Registration, RegistrationAction) {
        match (self.stage, event) {
            (RegistrationStage::AwaitingLine, RegistrationEvent::Line(line)) =>
                match protocol::register_request(line@) {
                Ok((backend_port, public_port)) => (
                    Registration {
                        stage: RegistrationStage::Binding,
                        backend_port: backend_port as u16,
                        public_port: public_port as u16,
                    },
                    RegistrationAction::Bind(public_port as u16),
                ),
                Err(e) => (self.at(RegistrationStage::Done), RegistrationAction::Refuse(e)),
            },
            (RegistrationStage::AwaitingLine, RegistrationEvent::NoLine) => (
                self.at(RegistrationStage::Done),
                RegistrationAction::Close,
            ),
            (RegistrationStage::Binding, RegistrationEvent::Bound) => (
                self.at(RegistrationStage::Serving),
                RegistrationAction::Wait,
            ),
            (RegistrationStage::Binding, RegistrationEvent::BindFailed) => (
                self.at(RegistrationStage::Done),
                RegistrationAction::Refuse(RegisterError::PublicPortInUse),
            ),
            (RegistrationStage::Serving, RegistrationEvent::Visitor) => (
                self,
                RegistrationAction::Visit,
            ),
            (RegistrationStage::Serving, RegistrationEvent::AcceptFailed) => (
                self,
                RegistrationAction::Wait,
            ),
            (RegistrationStage::Serving, RegistrationEvent::Chatter) => (
                self,
                RegistrationAction::Wait,
            ),
            (RegistrationStage::Serving, RegistrationEvent::Gone) => (
                self.at(RegistrationStage::Done),
                RegistrationAction::Close,
            ),
            _ => (self, RegistrationAction::Ignore),
        }
    }

    /// A connection whose registration is waited for.
    pub open spec fn fresh() -> Registration {
        Registration { stage: RegistrationStage::AwaitingLine, backend_port: 0, public_port: 0 }
    }

    /// A connection whose registration is waited for.
    pub fn new() -> (r: Self)
        ensures
            r == (Registration {
                stage: RegistrationStage::AwaitingLine,
                backend_port: 0,
                public_port: 0,
            }),
            r == Registration::fresh(),
    {
        Registration { stage: RegistrationStage::AwaitingLine, backend_port: 0, public_port: 0 }
    }

    /// Takes note of what happened and says what to do next.
    pub fn step(&mut self, event: RegistrationEvent) -> (r: RegistrationAction)
        ensures
            (*final(self), r) == old(self).next(event),
    {
        match (self.stage, event) {
            (RegistrationStage::AwaitingLine, RegistrationEvent::Line(line)) => {
                match protocol::parse_register(line.as_str()) {
                    Ok((backend_port, public_port)) => {
                        self.backend_port = backend_port;
                        self.public_port = public_port;
                        self.stage = RegistrationStage::Binding;
                        RegistrationAction::Bind(public_port)
                    },
                    Err(e) => {
                        self.stage = RegistrationStage::Done;
                        RegistrationAction::Refuse(e)
                    },
                }
            },
            (RegistrationStage::AwaitingLine, RegistrationEvent::NoLine) => {
                self.stage = RegistrationStage::Done;
                RegistrationAction::Close
            },
            (RegistrationStage::Binding, RegistrationEvent::Bound) => {
                self.stage = RegistrationStage::Serving;
                RegistrationAction::Wait
            },
            (RegistrationStage::Binding, RegistrationEvent::BindFailed) => {
                self.stage = RegistrationStage::Done;
                RegistrationAction::Refuse(RegisterError::PublicPortInUse)
            },
            (RegistrationStage::Serving, RegistrationEvent::Visitor) => RegistrationAction::Visit,
            (RegistrationStage::Serving, RegistrationEvent::AcceptFailed) => {
                RegistrationAction::Wait
            },
            (RegistrationStage::Serving, RegistrationEvent::Chatter) => RegistrationAction::Wait,
            (RegistrationStage::Serving, RegistrationEvent::Gone) => {
                self.stage = RegistrationStage::Done;
                RegistrationAction::Close
            },
            _ => RegistrationAction::Ignore,
        }
    }
}

// ---------------------------------------------------------------------------
// A visitor
// ---------------------------------------------------------------------------

/// What is done for a visitor.
#[derive(Debug, Clone, Copy, PartialEq, Eq, Structural)]
pub enum VisitStage {
    /// Waiting for the first bytes.
    ReadingInitial,
    /// Announcing the visitor to the client.
    Announcing,
    /// Making the handshake known.
    Registering,
    /// Asking the client to call back.
    Asking,
    /// Waiting for the call back.
    Waiting,
    Done,
}

/// What happened.
#[derive(Debug, Clone, Copy, PartialEq, Eq, Structural)]
pub enum VisitEvent {
    /// So many bytes came; none means that the visitor left.
    Initial(usize),
    /// Reading failed or took too long.
    InitialFailed,
    Sent,
    SendFailed,
    /// The handshake is known.
    Registered,
    /// The client called back.
    CalledBack,
    /// Nobody called back in time.
    NotCalledBack,
}

/// What to do next.
#[derive(Debug, PartialEq, Eq)]
pub enum VisitAction {
    /// Wait so many seconds for the first bytes.
    ReadInitial(u64),
    /// Announce the visitor.
    SendReady,
    /// Make the handshake known.
    RegisterHandshake,
    /// Ask the client to call back for the handshake.
    SendConnect,
    /// Wait so many seconds for the call back.
    AwaitCallback(u64),
    /// Forget the handshake and begin the session with these settings.
    ForgetAndServe(SessionSettings),
    /// Forget the handshake and drop the visitor.
    ForgetAndDrop,
    /// Drop the visitor.
    Drop,
    /// Nothing: what was reported does not belong here.
    Ignore,
}

/// A visitor whose session is not yet under way.
#[derive(Debug, PartialEq, Eq)]
pub struct Visit {
    pub stage: VisitStage,
    /// How long the first bytes and a call back are waited for, in seconds.
    pub connection_timeout: u64,
    /// What the session will go by.
    pub session: SessionSettings,
}

impl Visit {
    pub open spec fn at(self, stage: VisitStage) -> Visit {
        Visit { stage, ..self }
    }

    /// The visit that comes to nothing.
    pub open spec fn dropped(self) -> (Visit, VisitAction) {
        (self.at(VisitStage::Done), VisitAction::Drop)
    }

    /// The visit after an event, and what to do next. An event that does not
    /// belong to the stage changes nothing.
    pub open spec fn next(self, event: VisitEvent) -> (Visit, VisitAction) {
        match (self.stage, event) {
            (VisitStage::ReadingInitial, VisitEvent::Initial(n)) => if n > 0 {
                (self.at(VisitStage::Announcing), VisitAction::SendReady)
            } else {
                self.dropped()
            },
            (VisitStage::ReadingInitial, VisitEvent::InitialFailed) => self.dropped(),
            (VisitStage::Announcing, VisitEvent::Sent) => (
                self.at(VisitStage::Registering),
                VisitAction::RegisterHandshake,
            ),
            (VisitStage::Announcing, VisitEvent::SendFailed) => self.dropped(),
            (VisitStage::Registering, VisitEvent::Registered) => (
                self.at(VisitStage::Asking),
                VisitAction::SendConnect,
            ),
            (VisitStage::Asking, VisitEvent::Sent) => (
                self.at(VisitStage::Waiting),
                VisitAction::AwaitCallback(self.connection_timeout),
            ),
            (VisitStage::Asking, VisitEvent::SendFailed) => self.dropped(),
            (VisitStage::Waiting, VisitEvent::CalledBack) => (
                self.at(VisitStage::Done),
                VisitAction::ForgetAndServe(self.session),
            ),
            (VisitStage::Waiting, VisitEvent::NotCalledBack) => (
                self.at(VisitStage::Done),
                VisitAction::ForgetAndDrop,
            ),
            _ => (self, VisitAction::Ignore),
        }
    }

    /// A visit that begins.
    pub open spec fn fresh(connection_timeout: u64, session: SessionSettings) -> Visit {
        Visit { stage: VisitStage::ReadingInitial, connection_timeout, session }
    }

    /// A visit that begins.
    pub fn new(connection_timeout: u64, session: SessionSettings) -> (r: Self)
        ensures
            r == (Visit { stage: VisitStage::ReadingInitial, connection_timeout, session }),
            r == Visit::fresh(connection_timeout, session),
    {
        Visit { stage: VisitStage::ReadingInitial, connection_timeout, session }
    }

    /// What to do first.
    pub open spec fn first_action(self) -> VisitAction {
        VisitAction::ReadInitial(self.connection_timeout)
    }

    /// What to do first.
    pub fn begin(&self) -> (r: VisitAction)
        ensures
            r == self.first_action(),
            r == VisitAction::ReadInitial(self.connection_timeout),
    {
        VisitAction::ReadInitial(self.connection_timeout)
    }

    fn give_up(&mut self) -> (r: VisitAction)
        ensures
            (*final(self), r) == old(self).dropped(),
    {
        self.stage = VisitStage::Done;
        VisitAction::Drop
    }

    /// Takes note of what happened and says what to do next.
    pub fn step(&mut self, event: VisitEvent) -> (r: VisitAction)
        ensures
            (*final(self), r) == old(self).next(event),
    {
        match (self.stage, event) {
            (VisitStage::ReadingInitial, VisitEvent::Initial(n)) => {
                if n > 0 {
                    self.stage = VisitStage::Announcing;
                    VisitAction::SendReady
                } else {
                    self.give_up()
                }
            },
            (VisitStage::ReadingInitial, VisitEvent::InitialFailed) => self.give_up(),
            (VisitStage::Announcing, VisitEvent::Sent) => {
                self.stage = VisitStage::Registering;
                VisitAction::RegisterHandshake
            },
            (VisitStage::Announcing, VisitEvent::SendFailed) => self.give_up(),
            (VisitStage::Registering, VisitEvent::Registered) => {
                self.stage = VisitStage::Asking;
                VisitAction::SendConnect
            },
            (VisitStage::Asking, VisitEvent::Sent) => {
                self.stage = VisitStage::Waiting;
                VisitAction::AwaitCallback(self.connection_timeout)
            },
            (VisitStage::Asking, VisitEvent::SendFailed) => self.give_up(),
            (VisitStage::Waiting, VisitEvent::CalledBack) => {
                self.stage = VisitStage::Done;
                VisitAction::ForgetAndServe(self.session.clone())
            },
            (VisitStage::Waiting, VisitEvent::NotCalledBack) => {
                self.stage = VisitStage::Done;
                VisitAction::ForgetAndDrop
            },
            _ => VisitAction::Ignore,
        }
    }
}

// ---------------------------------------------------------------------------
// Laws
// ---------------------------------------------------------------------------

/// A client that registers as the protocol has it gets the public port that it
/// asked for opened.
pub proof fn registrations_are_bound(line: String, backend_port: u16, public_port: u16)
    requires
        line@ == protocol::register_line(backend_port, public_port),
    ensures
        (Registration {
            stage: RegistrationStage::AwaitingLine,
            backend_port: 0,
            public_port: 0,
        }).next(RegistrationEvent::Line(line)) == (
            Registration { stage: RegistrationStage::Binding, backend_port, public_port },
            RegistrationAction::Bind(public_port),
        ),
{
    protocol::registration_round_trip(backend_port, public_port);
}

/// The registration that a history leads to.
pub open spec fn registration_of(history: Seq<RegistrationEvent>) -> Registration
    decreases history.len(),
{
    if history.len() == 0 {
        Registration { stage: RegistrationStage::AwaitingLine, backend_port: 0, public_port: 0 }
    } else {
        registration_of(history.drop_last()).next(history.last()).0
    }
}

/// No client is served before its registration was accepted: its history then
/// holds a registration line with the ports in use, and the port was opened.
pub proof fn served_clients_are_registered(history: Seq<RegistrationEvent>)
    ensures
        ({
            let r = registration_of(history);
            &&& r.stage == RegistrationStage::Serving || r.stage == RegistrationStage::Binding ==>
                exists|i: int|
                0 <= i < history.len() && (#[trigger] history[i] matches RegistrationEvent::Line(
                    line,
                ) && protocol::register_request(line@) == Ok::<(int, int), RegisterError>(
                    (r.backend_port as int, r.public_port as int),
                ))
            &&& r.stage == RegistrationStage::Serving ==> exists|j: int|
                0 <= j < history.len() && #[trigger] history[j] == RegistrationEvent::Bound
        }),
    decreases history.len(),
{
    if history.len() > 0 {
        let before = history.drop_last();
        served_clients_are_registered(before);
        assert forall|i: int| 0 <= i < before.len() implies before[i] == #[trigger] history[i] by {}
        let last = history[history.len() - 1];
        assert(last == history.last());
        let r = registration_of(before);
        match (r.stage, last) {
            (RegistrationStage::AwaitingLine, RegistrationEvent::Line(line)) => {
                if let Ok((b, p)) = protocol::register_request(line@) {
                    protocol::lemma_ports_fit(line@);
                }
            },
            _ => {},
        }
    }
}

/// The visit that a history leads to.
pub open spec fn visit_of(start: Visit, history: Seq<VisitEvent>) -> Visit
    decreases history.len(),
{
    if history.len() == 0 {
        start
    } else {
        visit_of(start, history.drop_last()).next(history.last()).0
    }
}

/// A call back is waited for only once the handshake is known and was sent; so
/// the call back cannot come too early to be matched.
pub proof fn handshakes_are_known_before_they_are_sent(start: Visit, history: Seq<VisitEvent>)
    requires
        start.stage == VisitStage::ReadingInitial,
    ensures
        ({
            let v = visit_of(start, history);
            v.stage == VisitStage::Asking || v.stage == VisitStage::Waiting ==> exists|i: int|
                0 <= i < history.len() && #[trigger] history[i] == VisitEvent::Registered
        }),
    decreases history.len(),
{
    if history.len() > 0 {
        let before = history.drop_last();
        handshakes_are_known_before_they_are_sent(start, before);
        assert forall|i: int| 0 <= i < before.len() implies before[i] == #[trigger] history[i] by {}
        assert(history[history.len() - 1] == history.last());
    }
}

/// Once a call back is waited for, the handshake is forgotten however that
/// ends.
pub proof fn awaited_handshakes_are_forgotten(v: Visit, event: VisitEvent)
    requires
        v.stage == VisitStage::Waiting,
        v.next(event).0.stage != VisitStage::Waiting,
    ensures
        v.next(event).1 is ForgetAndServe || v.next(event).1 is ForgetAndDrop,
{
}

/// Whatever happened before, a session begins with the settings that its visit
/// began with, and a call back is waited for as long as they say.
pub proof fn sessions_are_served_as_configured(
    start: Visit,
    history: Seq<VisitEvent>,
    event: VisitEvent,
)
    ensures
        ({
            let action = visit_of(start, history).next(event).1;
            &&& action matches VisitAction::ForgetAndServe(session) ==> session == start.session
            &&& action matches VisitAction::AwaitCallback(seconds) ==> seconds
                == start.connection_timeout
        }),
{
    visits_keep_their_settings(start, history);
}

proof fn visits_keep_their_settings(start: Visit, history: Seq<VisitEvent>)
    ensures
        visit_of(start, history).session == start.session,
        visit_of(start, history).connection_timeout == start.connection_timeout,
    decreases history.len(),
{
    if history.len() > 0 {
        visits_keep_their_settings(start, history.drop_last());
    }
}

/// A visitor that sent something, be it little or much, is served, where every
/// send succeeds and the client calls back: it is announced, its handshake is
/// made known before the client is asked to call back, the first bytes and the
/// call back are waited for as long as configured, and the session begins with
/// the settings of the visit.
pub proof fn visitors_that_send_are_served(v: Visit, n: usize)
    requires
        v.stage == VisitStage::ReadingInitial,
        n > 0,
    ensures
        ({
            let (announcing, first) = v.next(VisitEvent::Initial(n));
            let (registering, second) = announcing.next(VisitEvent::Sent);
            let (asking, third) = registering.next(VisitEvent::Registered);
            let (waiting, fourth) = asking.next(VisitEvent::Sent);
            let (done, fifth) = waiting.next(VisitEvent::CalledBack);
            &&& v.first_action() == VisitAction::ReadInitial(v.connection_timeout)
            &&& first == VisitAction::SendReady
            &&& second == VisitAction::RegisterHandshake
            &&& third == VisitAction::SendConnect
            &&& fourth == VisitAction::AwaitCallback(v.connection_timeout)
            &&& fifth == VisitAction::ForgetAndServe(v.session)
            &&& done.stage == VisitStage::Done
        }),
{
}

/// A visitor is dropped only where it sent nothing, reading from it failed, or
/// the client could not be told of it; and, once its call back is waited for,
/// only where nobody called back. Whatever else happens, it is not dropped.
pub proof fn visitors_are_dropped_for_a_reason(v: Visit, event: VisitEvent)
    ensures
        v.next(event).1 == VisitAction::Drop <==> (v.stage == VisitStage::ReadingInitial && (event
            == VisitEvent::Initial(0) || event == VisitEvent::InitialFailed)) || ((v.stage
            == VisitStage::Announcing || v.stage == VisitStage::Asking) && event
            == VisitEvent::SendFailed),
        v.next(event).1 == VisitAction::ForgetAndDrop <==> v.stage == VisitStage::Waiting && event
            == VisitEvent::NotCalledBack,
        v.next(event).1 == VisitAction::Drop || v.next(event).1 == VisitAction::ForgetAndDrop
            || v.next(event).1 is ForgetAndServe ==> v.next(event).0.stage == VisitStage::Done,
{
}

/// Nothing that happens out of turn changes a visit, and a visit that is done
/// with stays so.
pub proof fn visits_ignore_what_is_out_of_turn(v: Visit, event: VisitEvent)
    ensures
        v.next(event).1 == VisitAction::Ignore ==> v.next(event).0 == v,
        v.stage == VisitStage::Done ==> v.next(event).1 == VisitAction::Ignore,
        v.next(event).1 != VisitAction::Ignore ==> v.next(event).0.stage != v.stage,
{
}

/// A client is served for as long as it stays: every visitor is seen to, one
/// that could not be let in and anything that the client says change nothing,
/// and only the client's leaving ends it.
pub proof fn clients_are_served_until_they_leave(r: Registration, event: RegistrationEvent)
    requires
        r.stage == RegistrationStage::Serving,
    ensures
        !(event is Gone) ==> r.next(event).0 == r,
        (r.next(event).1 == RegistrationAction::Visit) == (event is Visitor),
        event is AcceptFailed || event is Chatter ==> r.next(event).1 == RegistrationAction::Wait,
        event is Gone ==> r.next(event).1 == RegistrationAction::Close && r.next(event).0.stage
            == RegistrationStage::Done,
{
}

/// A client whose port was opened is served, and one whose port could not be
/// opened is told that it is in use. A client that leaves without a word is
/// not answered.
pub proof fn registrations_are_answered(r: Registration)
    ensures
        r.stage == RegistrationStage::Binding ==> r.next(RegistrationEvent::Bound).1
            == RegistrationAction::Wait && r.next(RegistrationEvent::Bound).0 == (Registration {
            stage: RegistrationStage::Serving,
            ..r
        }),
        r.stage == RegistrationStage::Binding ==> r.next(RegistrationEvent::BindFailed).1
            == RegistrationAction::Refuse(RegisterError::PublicPortInUse) && r.next(
            RegistrationEvent::BindFailed,
        ).0.stage == RegistrationStage::Done,
        r.stage == RegistrationStage::AwaitingLine ==> r.next(RegistrationEvent::NoLine).1
            == RegistrationAction::Close && r.next(RegistrationEvent::NoLine).0.stage
            == RegistrationStage::Done,
{
}

/// A registration whose first word is another, or that has more or fewer than
/// three words, is refused as no command; one whose ports are no numbers up to
/// 65535 is refused for the port.
pub proof fn bad_registrations_are_refused(r: Registration, line: String)
    requires
        r.stage == RegistrationStage::AwaitingLine,
    ensures
        ({
            let words = crate::text::words(line@);
            let (after, action) = r.next(RegistrationEvent::Line(line));
            &&& words.len() != 3 ==> action == RegistrationAction::Refuse(
                RegisterError::InvalidCommand,
            )
            &&& words.len() == 3 && words[0] != "REGISTER"@ ==> action
                == RegistrationAction::Refuse(RegisterError::InvalidCommand)
            &&& forall|n: nat|
                n > 65535 && words.len() == 3 && words[0] == "REGISTER"@ && words[1]
                    == #[trigger] crate::numbers::decimal(n) ==> action
                    == RegistrationAction::Refuse(RegisterError::InvalidBackendPort)
            &&& action is Refuse ==> after.stage == RegistrationStage::Done
        }),
{
    protocol::oversized_ports_are_refused(line@);
}

/// A visitor that sends nothing in time is dropped without anything being
/// announced, registered or asked of the client.
pub proof fn silent_visitors_are_dropped(v: Visit)
    requires
        v.stage == VisitStage::ReadingInitial,
    ensures
        v.next(VisitEvent::InitialFailed) == (v.at(VisitStage::Done), VisitAction::Drop),
        v.next(VisitEvent::Initial(0)) == (v.at(VisitStage::Done), VisitAction::Drop),
{
}

/// A new connection waits for its registration, and whatever line registers ports, in
/// whatever form, gets the public one opened.
pub proof fn new_connections_may_register(line: String)
    ensures
        protocol::register_request(line@) matches Ok((b, p)) ==> {
            let (after, action) = Registration::fresh().next(RegistrationEvent::Line(line));
            &&& action matches RegistrationAction::Bind(port) && port == p
            &&& after.stage == RegistrationStage::Binding
            &&& after.backend_port == b
            &&& after.public_port == p
        },
        protocol::register_request(line@) matches Err(e) ==> Registration::fresh().next(
            RegistrationEvent::Line(line),
        ).1 == RegistrationAction::Refuse(e),
{
    protocol::lemma_ports_fit(line@);
}

/// What does not belong to what a control connection is doing is ignored, changes
/// nothing, and nothing else is ignored.
pub proof fn registrations_ignore_what_is_out_of_turn(r: Registration, event: RegistrationEvent)
    ensures
        (r.next(event).1 == RegistrationAction::Ignore) == !(match event {
            RegistrationEvent::Line(_) | RegistrationEvent::NoLine => r.stage
                == RegistrationStage::AwaitingLine,
            RegistrationEvent::Bound | RegistrationEvent::BindFailed => r.stage
                == RegistrationStage::Binding,
            RegistrationEvent::Visitor | RegistrationEvent::AcceptFailed
            | RegistrationEvent::Chatter | RegistrationEvent::Gone => r.stage
                == RegistrationStage::Serving,
        }),
        r.next(event).1 == RegistrationAction::Ignore ==> r.next(event).0 == r,
{
}

/// A new visit waits for the first bytes for as long as it was told to, and keeps its
/// settings for the session. What does not belong to what is done for a visitor is
/// ignored, and nothing else is.
pub proof fn visits_take_their_turns(
    connection_timeout: u64,
    session: SessionSettings,
    v: Visit,
    event: VisitEvent,
)
    ensures
        Visit::fresh(connection_timeout, session).first_action() == VisitAction::ReadInitial(
            connection_timeout,
        ),
        Visit::fresh(connection_timeout, session).stage == VisitStage::ReadingInitial,
        Visit::fresh(connection_timeout, session).session == session,
        (v.next(event).1 == VisitAction::Ignore) == !(match event {
            VisitEvent::Initial(_) | VisitEvent::InitialFailed => v.stage
                == VisitStage::ReadingInitial,
            VisitEvent::Sent | VisitEvent::SendFailed => v.stage == VisitStage::Announcing
                || v.stage == VisitStage::Asking,
            VisitEvent::Registered => v.stage == VisitStage::Registering,
            VisitEvent::CalledBack | VisitEvent::NotCalledBack => v.stage == VisitStage::Waiting,
        }),
        v.next(event).0.session == v.session,
        v.next(event).0.connection_timeout == v.connection_timeout,
{
}

} // verus!
