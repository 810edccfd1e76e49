//! A session between a visitor and the tunnel.

use crate::common::http_conn::parser::completeness;
use crate::common::http_conn::parser::head;
use crate::common::http_conn::parser::request;
use crate::common::http_conn::types;
use crate::common::http_conn::types::HttpRequestView;
use crate::common::session;
use crate::common::session::{Route, SessionPlan};
use vstd::prelude::*;

verus! {

/// What to do next.
#[derive(Debug, Clone, Copy, PartialEq, Eq, Structural)]
pub enum PublicAction {
    /// Write the first bytes of the visitor to the tunnel.
    SendInitial,
    /// Go on this way.
    Run(Route),
    /// Close both connections.
    Drop,
}

/// A session between a visitor and the tunnel.
#[derive(Debug, Clone, Copy, PartialEq, Eq, Structural)]
pub struct PublicSession {
    pub plan: SessionPlan,
    /// The visitor has sent something.
    pub has_initial: bool,
}

impl PublicSession {
    /// A session with a visitor that has sent these bytes.
    pub open spec fn opened(initial_data: Seq<u8>) -> PublicSession {
        PublicSession {
            plan: session::plan_of(initial_data, true),
            has_initial: initial_data.len() > 0,
        }
    }

    /// A session with a visitor that has sent these bytes.
    pub fn open(initial_data: &[u8]) -> (r: Self)
        requires
            initial_data@.len() <= usize::MAX / 4,
        ensures
            r.plan == session::plan_of(initial_data@, true),
            r.has_initial == (initial_data@.len() > 0),
            r == PublicSession::opened(initial_data@),
            forall|req: HttpRequestView| #[trigger]
                request::is_plain_request(req) && initial_data@ == types::written_request(req)
                    && completeness::request_complete(initial_data@) ==> r.plan
                    == session::plan_for(Some(req.connection_type)),
            forall|h: head::RequestHeadView| #[trigger]
                head::is_plain_head(h, head::MAX_HEADERS as nat) && head::head_bytes(
                    h,
                ).is_prefix_of(initial_data@) ==> r.plan == session::plan_by_head(
                    h,
                    completeness::request_complete(initial_data@),
                    true,
                ),
            head::is_unfinished_head(initial_data@) ==> r.plan == session::plan_for(None),
    {
        PublicSession {
            plan: session::plan_session(initial_data, true),
            has_initial: initial_data.len() > 0,
        }
    }

    /// What to do first.
    pub open spec fn first_action(self) -> PublicAction {
        if self.has_initial {
            PublicAction::SendInitial
        } else {
            PublicAction::Run(session::route_of(self.plan))
        }
    }

    /// What to do once the first bytes were sent or not.
    pub open spec fn second_action(self, sent: bool) -> PublicAction {
        if sent {
            PublicAction::Run(session::route_of(self.plan))
        } else {
            PublicAction::Drop
        }
    }

    /// What to do first: what the visitor has sent goes to the tunnel before
    /// anything else.
    pub fn begin(&self) -> (r: PublicAction)
        ensures
            r == self.first_action(),
    {
        if self.has_initial {
            PublicAction::SendInitial
        } else {
            PublicAction::Run(session::route(&self.plan))
        }
    }

    /// What to do once the first bytes were sent, or could not be.
    pub fn after_initial(&self, sent: bool) -> (r: PublicAction)
        ensures
            r == self.second_action(sent),
    {
        if sent {
            PublicAction::Run(session::route(&self.plan))
        } else {
            PublicAction::Drop
        }
    }
}

/// Whatever a visitor has sent goes to the tunnel first, however little or much it
/// is; then, and at once where nothing was sent, the session goes the way of its
/// plan. It is dropped exactly where the first bytes cannot be sent.
pub proof fn visitors_are_heard_first(data: Seq<u8>, s: PublicSession, sent: bool)
    ensures
        data.len() > 0 ==> PublicSession::opened(data).first_action() == PublicAction::SendInitial,
        data.len() == 0 ==> PublicSession::opened(data).first_action() == PublicAction::Run(
            session::route_of(session::plan_of(data, true)),
        ),
        PublicSession::opened(data).second_action(true) == PublicAction::Run(
            session::route_of(session::plan_of(data, true)),
        ),
        (s.second_action(sent) == PublicAction::Drop) == !sent,
        s.first_action() != PublicAction::Drop,
        !s.has_initial ==> s.first_action() == s.second_action(true),
{
}

} // verus!
