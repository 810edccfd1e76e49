//! How a session goes on, judged by the first bytes that it carries.

use crate::common::http_conn::connection;
use crate::common::http_conn::connection::ConnectionType;
use crate::common::http_conn::headers;
use crate::common::http_conn::parser::head;
use crate::common::http_conn::parser::message;
use crate::common::http_conn::parser::request;
use crate::common::http_conn::proxy_state::ProxyConnectionState;
use crate::common::http_conn::parser::completeness;
use crate::common::http_conn::types;
use crate::common::http_conn::types::HttpRequestView;
use crate::common::http_conn::upgrade;
use crate::common::HttpRequestParser;
use vstd::prelude::*;

verus! {

/// What the first bytes of a session say about it.
#[derive(Debug, Clone, Copy, PartialEq, Eq, Structural)]
pub struct SessionPlan {
    /// The session began with a whole HTTP request.
    pub is_http: bool,
    /// The session asks for a WebSocket.
    pub is_websocket: bool,
    /// The connection can serve further exchanges.
    pub is_keep_alive: bool,
    /// The connection ends with the first exchange.
    pub is_connection_close: bool,
    pub state: ProxyConnectionState,
}

/// The ways in which a session can go on.
#[derive(Debug, Clone, Copy, PartialEq, Eq, Structural)]
pub enum Route {
    /// Relay both ways without time limits.
    WebSocket,
    /// Relay one response, then close.
    OneTime,
    /// Relay both ways.
    Persistent,
}

/// The plan for a request of that connection type; none means that there was
/// no request.
pub open spec fn plan_for(connection_type: Option<ConnectionType>) -> SessionPlan {
    SessionPlan {
        is_http: connection_type is Some,
        is_websocket: connection_type == Some(ConnectionType::WebSocketUpgrade),
        is_keep_alive: connection_type != Some(ConnectionType::Close),
        is_connection_close: connection_type == Some(ConnectionType::Close),
        state: match connection_type {
            None => ProxyConnectionState::Initial,
            Some(ConnectionType::KeepAlive) => ProxyConnectionState::Active,
            Some(ConnectionType::Close) => ProxyConnectionState::FirstExchange,
            Some(ConnectionType::WebSocketUpgrade) => ProxyConnectionState::WebSocket,
        },
    }
}

/// The plan once it is known that a WebSocket is asked for.
pub open spec fn with_upgrade(plan: SessionPlan) -> SessionPlan {
    SessionPlan { is_websocket: true, state: ProxyConnectionState::WebSocket, ..plan }
}

/// The connection type of the request that the bytes are, if they are one.
pub open spec fn request_type(data: Seq<u8>) -> Option<ConnectionType> {
    match request::recognised(data) {
        Some(req) => Some(req.connection_type),
        None => None,
    }
}

/// The plan for a session that begins with these bytes. Where the head is
/// checked as well, a request for a WebSocket is noticed before the whole of
/// it has arrived.
pub open spec fn plan_of(data: Seq<u8>, check_head: bool) -> SessionPlan {
    if check_head && request::upgrade_requested(data) {
        with_upgrade(plan_for(request_type(data)))
    } else {
        plan_for(request_type(data))
    }
}

/// The plan for a session that begins with this head, where the request has
/// fully arrived or not.
pub open spec fn plan_by_head(
    h: head::RequestHeadView,
    complete: bool,
    check_head: bool,
) -> SessionPlan {
    let fields = message::stored_fields(h.headers);
    if complete {
        plan_for(Some(connection::connection_type_of(fields, message::version_text(h.version))))
    } else if check_head && upgrade::asks_for_websocket(fields) {
        with_upgrade(plan_for(None))
    } else {
        plan_for(None)
    }
}

/// How a session with this plan goes on.
pub open spec fn route_of(plan: SessionPlan) -> Route {
    if plan.is_websocket {
        Route::WebSocket
    } else if plan.is_http && plan.is_connection_close {
        Route::OneTime
    } else {
        Route::Persistent
    }
}

/// The plan for a request of that connection type.
pub fn plan_from_type(connection_type: Option<ConnectionType>) -> (r: SessionPlan)
    ensures
        r == plan_for(connection_type),
{
    let mut plan = SessionPlan {
        is_http: false,
        is_websocket: false,
        is_keep_alive: true,
        is_connection_close: false,
        state: ProxyConnectionState::Initial,
    };
    if let Some(connection_type) = connection_type {
        plan.is_http = true;
        match connection_type {
            ConnectionType::KeepAlive => {
                plan.is_keep_alive = true;
                plan.is_connection_close = false;
                plan.state = ProxyConnectionState::Active;
            },
            ConnectionType::Close => {
                plan.is_keep_alive = false;
                plan.is_connection_close = true;
                plan.state = ProxyConnectionState::FirstExchange;
            },
            ConnectionType::WebSocketUpgrade => {
                plan.is_websocket = true;
                plan.state = ProxyConnectionState::WebSocket;
            },
        }
    }
    plan
}

/// Plans a session by its first bytes. A session that begins with a whole
/// request, written in the plain way, is planned by the connection type of that
/// request; one that begins with a plain head by that head; and one whose head
/// is unfinished like anything else.
pub fn plan_session(data: &[u8], check_head: bool) -> (r: SessionPlan)
    requires
        data@.len() <= usize::MAX / 4,
    ensures
        r == plan_of(data@, check_head),
        forall|req: HttpRequestView| #[trigger]
            request::is_plain_request(req) && data@ == types::written_request(req)
                && completeness::request_complete(data@) ==> r == plan_for(
                Some(req.connection_type),
            ),
        forall|h: head::RequestHeadView| #[trigger]
            head::is_plain_head(h, head::MAX_HEADERS as nat) && head::head_bytes(h).is_prefix_of(
                data@,
            ) ==> r == plan_by_head(h, completeness::request_complete(data@), check_head),
        head::is_unfinished_head(data@) ==> r == plan_for(None),
{
    let connection_type = match request::recognise(data) {
        Some(req) => Some(req.connection_type),
        None => None,
    };
    let mut plan = plan_from_type(connection_type);
    if check_head {
        let mut parser = HttpRequestParser::new();
        parser.extend(data);
        assert(parser@ =~= data@);
        if parser.is_websocket_upgrade() {
            plan.is_websocket = true;
            plan.state = ProxyConnectionState::WebSocket;
        }
        proof {
            assert forall|req: HttpRequestView| #[trigger]
                request::is_plain_request(req) && data@ == types::written_request(req)
                    && completeness::request_complete(data@) implies plan == plan_for(
                Some(req.connection_type),
            ) by {
                upgrade::upgrade_requests_have_upgrade_type(req.headers, req.version);
            }
            assert forall|h: head::RequestHeadView| #[trigger]
                head::is_plain_head(h, head::MAX_HEADERS as nat) && head::head_bytes(
                    h,
                ).is_prefix_of(data@) implies plan == plan_by_head(
                h,
                completeness::request_complete(data@),
                check_head,
            ) by {
                upgrade::upgrade_requests_have_upgrade_type(
                    message::stored_fields(h.headers),
                    message::version_text(h.version),
                );
            }
        }
    }
    plan
}

/// How a session with this plan goes on.
pub fn route(plan: &SessionPlan) -> (r: Route)
    ensures
        r == route_of(*plan),
{
    if plan.is_websocket {
        Route::WebSocket
    } else if plan.is_http && plan.is_connection_close {
        Route::OneTime
    } else {
        Route::Persistent
    }
}

// ---------------------------------------------------------------------------
// Laws
// ---------------------------------------------------------------------------

/// A session that asks for a WebSocket is not one that closes after its first
/// exchange, whichever way it was recognised.
pub proof fn websocket_sessions_do_not_close(data: Seq<u8>, check_head: bool)
    ensures
        plan_of(data, check_head).is_websocket ==> !plan_of(data, check_head).is_connection_close,
{
    if check_head && request::upgrade_requested(data) {
        if let head::HeadView::Complete(h) = head::parsed_request(data, head::MAX_HEADERS as nat) {
            let req = request::request_of(h, data);
            upgrade::upgrade_requests_have_upgrade_type(
                message::stored_fields(h.headers),
                req.version,
            );
        }
    }
}

/// A whole request for a WebSocket is recognised even where the head is not
/// checked as well.
pub proof fn whole_upgrade_requests_are_recognised(data: Seq<u8>)
    ensures
        request::recognised(data) is Some && request::upgrade_requested(data) ==> plan_of(
            data,
            false,
        ) == plan_of(data, true) && plan_of(data, false).is_websocket,
{
    if request::recognised(data) is Some && request::upgrade_requested(data) {
        if let head::HeadView::Complete(h) = head::parsed_request(data, head::MAX_HEADERS as nat) {
            let req = request::request_of(h, data);
            upgrade::upgrade_requests_have_upgrade_type(
                message::stored_fields(h.headers),
                req.version,
            );
        }
    }
}

/// A connection either can serve further exchanges or ends with the first.
pub proof fn plans_are_consistent(data: Seq<u8>, check_head: bool)
    ensures
        plan_of(data, check_head).is_keep_alive == !plan_of(data, check_head).is_connection_close,
        plan_of(data, check_head).is_connection_close ==> plan_of(data, check_head).is_http,
        plan_of(data, check_head).is_websocket == (plan_of(data, check_head).state
            == ProxyConnectionState::WebSocket),
{
}

/// What is no HTTP request and asks for nothing is relayed both ways.
pub proof fn other_traffic_is_relayed(data: Seq<u8>, check_head: bool)
    ensures
        request::recognised(data) is None && !request::upgrade_requested(data) ==> route_of(
            plan_of(data, check_head),
        ) == Route::Persistent,
{
}

/// A session is carried as a WebSocket where the connection changes to one, is
/// one exchange where the connection is closed, and is relayed both ways where
/// the connection is kept alive or where there was no request.
pub proof fn sessions_follow_the_connection(connection_type: Option<ConnectionType>)
    ensures
        (route_of(plan_for(connection_type)) == Route::WebSocket) == (connection_type == Some(
            ConnectionType::WebSocketUpgrade,
        )),
        (route_of(plan_for(connection_type)) == Route::OneTime) == (connection_type == Some(
            ConnectionType::Close,
        )),
        (route_of(plan_for(connection_type)) == Route::Persistent) == (connection_type is None
            || connection_type == Some(ConnectionType::KeepAlive)),
        plan_for(connection_type).is_http == (connection_type is Some),
        plan_for(connection_type).is_keep_alive == (connection_type != Some(ConnectionType::Close)),
{
}

/// A session goes on as its first request says: where that has fully arrived,
/// by its connection type.
pub proof fn sessions_follow_their_request(data: Seq<u8>, check_head: bool)
    ensures
        request::recognised(data) matches Some(req) ==> {
            &&& plan_of(data, check_head).is_http
            &&& (route_of(plan_of(data, check_head)) == Route::WebSocket) == (req.connection_type
                == ConnectionType::WebSocketUpgrade)
            &&& (route_of(plan_of(data, check_head)) == Route::OneTime) == (req.connection_type
                == ConnectionType::Close)
            &&& (route_of(plan_of(data, check_head)) == Route::Persistent) == (req.connection_type
                == ConnectionType::KeepAlive)
        },
        request::recognised(data) is None ==> !plan_of(data, check_head).is_http && (route_of(
            plan_of(data, check_head),
        ) == Route::WebSocket) == (check_head && request::upgrade_requested(data)),
        request::recognised(data) is None ==> route_of(plan_of(data, check_head))
            != Route::OneTime,
{
    if check_head && request::upgrade_requested(data) {
        whole_upgrade_requests_are_recognised(data);
        if let head::HeadView::Complete(h) = head::parsed_request(data, head::MAX_HEADERS as nat) {
            upgrade::upgrade_requests_have_upgrade_type(
                message::stored_fields(h.headers),
                request::request_of(h, data).version,
            );
        }
    }
}

/// A whole request whose last `connection` line holds `close`, in any letter
/// case, and that has no `upgrade` line is relayed as one exchange, whatever its
/// other lines are.
pub proof fn closing_requests_are_relayed_once(
    h: head::RequestHeadView,
    i: int,
    check_head: bool,
)
    requires
        message::is_last_line(h.headers, "connection"@, i),
        message::is_readable_line(h.headers[i]),
        headers::holds_word(h.headers[i].1, "close"@),
        message::has_no_line(h.headers, "upgrade"@),
    ensures
        route_of(plan_by_head(h, true, check_head)) == Route::OneTime,
{
    message::closing_lines_close(h.headers, message::version_text(h.version), i);
}

/// A whole request without a `connection` line is relayed as one exchange where
/// it is of HTTP/1.0, and both ways where it is of HTTP/1.1, whatever its other
/// lines are.
pub proof fn silent_requests_are_relayed_by_version(h: head::RequestHeadView, check_head: bool)
    requires
        message::has_no_line(h.headers, "connection"@),
    ensures
        h.version == Some(0u8) ==> route_of(plan_by_head(h, true, check_head)) == Route::OneTime,
        h.version == Some(1u8) ==> route_of(plan_by_head(h, true, check_head)) == Route::Persistent,
{
    message::lemma_versions_differ();
    message::silent_heads_leave_it_to_the_version(h.headers, message::version_text(h.version));
}

/// A request for a WebSocket is carried as one, in lines of any letter case and
/// any order; and before the whole of it has arrived, where the head is checked
/// as well.
pub proof fn upgrading_requests_are_carried(
    h: head::RequestHeadView,
    i: int,
    j: int,
    k: int,
    complete: bool,
    check_head: bool,
)
    requires
        message::is_last_line(h.headers, "connection"@, i),
        message::is_last_line(h.headers, "upgrade"@, j),
        message::is_last_line(h.headers, "sec-websocket-key"@, k),
        message::is_readable_line(h.headers[i]),
        message::is_readable_line(h.headers[j]),
        message::is_readable_line(h.headers[k]),
        headers::holds_word(h.headers[i].1, "upgrade"@),
        headers::holds_word(h.headers[j].1, "websocket"@),
        complete || check_head,
    ensures
        route_of(plan_by_head(h, complete, check_head)) == Route::WebSocket,
{
    message::upgrading_lines_upgrade(h.headers, message::version_text(h.version), i, j, k);
}

/// Every plan has one way to go on: a WebSocket comes before all else, one
/// exchange is for HTTP that closes the connection, and everything else is
/// relayed both ways.
pub proof fn plans_have_one_way_on(plan: SessionPlan)
    ensures
        plan.is_websocket ==> route_of(plan) == Route::WebSocket,
        !plan.is_websocket && plan.is_http && plan.is_connection_close ==> route_of(plan)
            == Route::OneTime,
        !plan.is_websocket && !(plan.is_http && plan.is_connection_close) ==> route_of(plan)
            == Route::Persistent,
{
}

/// The state of a connection follows the type of its first request, and a
/// WebSocket that is noticed changes nothing but that it is one.
pub proof fn states_follow_the_connection(plan: SessionPlan)
    ensures
        plan_for(None).state == ProxyConnectionState::Initial,
        plan_for(Some(ConnectionType::KeepAlive)).state == ProxyConnectionState::Active,
        plan_for(Some(ConnectionType::Close)).state == ProxyConnectionState::FirstExchange,
        plan_for(Some(ConnectionType::WebSocketUpgrade)).state == ProxyConnectionState::WebSocket,
        with_upgrade(plan).is_websocket,
        with_upgrade(plan).state == ProxyConnectionState::WebSocket,
        with_upgrade(plan).is_http == plan.is_http,
        with_upgrade(plan).is_keep_alive == plan.is_keep_alive,
        with_upgrade(plan).is_connection_close == plan.is_connection_close,
{
}

/// Before the whole of a request has arrived, a session that does not ask for a
/// WebSocket, or whose head is not looked at, is no HTTP and is relayed both
/// ways.
pub proof fn unfinished_requests_are_relayed(h: head::RequestHeadView, check_head: bool)
    ensures
        message::has_no_line(h.headers, "upgrade"@) || !check_head ==> route_of(
            plan_by_head(h, false, check_head),
        ) == Route::Persistent && !plan_by_head(h, false, check_head).is_http,
{
    let fields = message::stored_fields(h.headers);
    message::last_lines_count(h.headers, "upgrade"@);
    headers::lookup_finds_the_first(fields, "upgrade"@);
    headers::lemma_known_words();
    headers::values_are_read_in_any_letter_case(fields, "upgrade"@, "websocket"@);
}

/// A session that begins with a head goes on as that head says, once the request has
/// fully arrived or before.
pub proof fn plans_follow_the_head(data: Seq<u8>, h: head::RequestHeadView, check_head: bool)
    ensures
        head::parsed_request(data, 64) == head::HeadView::Complete(h) ==> plan_of(data, check_head)
            == plan_by_head(h, completeness::request_complete(data), check_head),
        !(head::parsed_request(data, 64) is Complete) ==> plan_of(data, check_head) == plan_for(
            None,
        ),
{
    upgrade::upgrade_requests_have_upgrade_type(
        message::stored_fields(h.headers),
        message::version_text(h.version),
    );
}

/// What a whole request says of its connection decides how the session goes on, whatever
/// lines say it, and whether or not its head is looked at as well.
pub proof fn whole_requests_decide(h: head::RequestHeadView, check_head: bool)
    ensures
        ({
            let connection_type = connection::connection_type_of(
                message::stored_fields(h.headers),
                message::version_text(h.version),
            );
            let route = route_of(plan_by_head(h, true, check_head));
            &&& connection_type == ConnectionType::Close ==> route == Route::OneTime
            &&& connection_type == ConnectionType::KeepAlive ==> route == Route::Persistent
            &&& connection_type == ConnectionType::WebSocketUpgrade ==> route == Route::WebSocket
            &&& plan_by_head(h, true, check_head).is_http
        }),
{
}

} // verus!
