use reverse_tunnel::client::handlers::backend::{
    initial_event, response_event, BackendAction, BackendEvent, BackendFailure, BackendSession,
    BackendStage,
};
use reverse_tunnel::client::handlers::http_request::one_time_request;
use reverse_tunnel::client::handlers::legacy;
use reverse_tunnel::client::handlers::legacy::{
    IdleCheck, LegacyAction, LegacyEvent, LegacySession, MessageWatch, Watched, SECOND,
};
use reverse_tunnel::common::one_time::{
    has_end_arrived, Framing, OneTime, OneTimeAction, OneTimeEvent, Side, Stage, FIRST_WAIT, MORE_WAIT,
};
use reverse_tunnel::common::session::{plan_from_type, plan_session, route, Route};
use reverse_tunnel::server::handlers::parse_http_request;
use reverse_tunnel::server::handlers::tcp::{PublicAction, PublicSession};
use reverse_tunnel::server::handlers::websocket::is_websocket_upgrade;
use reverse_tunnel::server::proxy::one_time_proxy;
use reverse_tunnel::{ConnectionType, ProxyConnectionState};

const GET: &[u8] = b"GET /a HTTP/1.1\r\n\r\n";
const CLOSE: &[u8] = b"GET /b HTTP/1.1\r\nConnection: close\r\n\r\n";
const UPGRADE: &[u8] = b"GET /c HTTP/1.1\r\nUpgrade: websocket\r\nConnection: Upgrade\r\nSec-WebSocket-Key: k\r\n\r\n";
const UNFINISHED_UPGRADE: &[u8] = b"GET /c HTTP/1.1\r\nUpgrade: websocket\r\nConnection: Upgrade\r\nSec-WebSocket-Key: k\r\nContent-Length: 9\r\n\r\n";
const GRANTED: &[u8] = b"HTTP/1.1 101 Switching Protocols\r\nUpgrade: websocket\r\nConnection: Upgrade\r\nSec-WebSocket-Accept: k\r\n\r\n";

#[test]
fn plans_follow_the_first_bytes() {
    let plan = plan_session(GET, true);
    assert!(plan.is_http && plan.is_keep_alive && !plan.is_websocket && !plan.is_connection_close);
    assert_eq!(plan.state, ProxyConnectionState::Active);
    assert_eq!(route(&plan), Route::Persistent);

    let plan = plan_session(CLOSE, true);
    assert!(plan.is_http && !plan.is_keep_alive && plan.is_connection_close);
    assert_eq!(plan.state, ProxyConnectionState::FirstExchange);
    assert_eq!(route(&plan), Route::OneTime);

    let plan = plan_session(UPGRADE, false);
    assert!(plan.is_http && plan.is_websocket && plan.is_keep_alive);
    assert_eq!(plan.state, ProxyConnectionState::WebSocket);
    assert_eq!(route(&plan), Route::WebSocket);
    assert_eq!(plan, plan_session(UPGRADE, true));

    let plan = plan_session(b"SSH-2.0-x\r\n", true);
    assert_eq!(plan, plan_from_type(None));
    assert_eq!(plan.state, ProxyConnectionState::Initial);
    assert_eq!(route(&plan), Route::Persistent);
    assert_eq!(plan_from_type(Some(ConnectionType::Close)), plan_session(CLOSE, true));
}

#[test]
fn unfinished_upgrades_are_seen_in_the_head() {
    let plan = plan_session(UNFINISHED_UPGRADE, true);
    assert!(!plan.is_http && plan.is_websocket && !plan.is_connection_close);
    assert_eq!(route(&plan), Route::WebSocket);
    assert_eq!(route(&plan_session(UNFINISHED_UPGRADE, false)), Route::Persistent);
    assert!(is_websocket_upgrade(UNFINISHED_UPGRADE));
    assert!(!is_websocket_upgrade(GET));
}

#[test]
fn requests_are_summed_up() {
    assert_eq!(parse_http_request(GET), Some((true, false, "/a".to_string())));
    assert_eq!(parse_http_request(CLOSE), Some((false, true, "/b".to_string())));
    assert_eq!(parse_http_request(UPGRADE), Some((true, false, "/c".to_string())));
    assert_eq!(parse_http_request(UNFINISHED_UPGRADE), None);
    assert_eq!(parse_http_request(b"\r\n\r\n"), None);
}

#[test]
fn public_sessions_send_first() {
    let session = PublicSession::open(CLOSE);
    assert_eq!(session.begin(), PublicAction::SendInitial);
    assert_eq!(session.after_initial(true), PublicAction::Run(Route::OneTime));
    assert_eq!(session.after_initial(false), PublicAction::Drop);
    assert_eq!(PublicSession::open(b"").begin(), PublicAction::Run(Route::Persistent));
    assert_eq!(
        PublicSession::open(UPGRADE).after_initial(true),
        PublicAction::Run(Route::WebSocket)
    );
}

fn backend_at_forwarding(data: &[u8]) -> BackendSession {
    let mut session = BackendSession::new();
    assert_eq!(session.step(BackendEvent::Connected), BackendAction::ReadInitial);
    assert_eq!(session.step(initial_event(data)), BackendAction::Forward);
    session
}

#[test]
fn backend_session_relays_and_replaces() {
    let mut session = backend_at_forwarding(GET);
    assert_eq!(session.step(BackendEvent::Forwarded), BackendAction::RunRelays);
    let clean = BackendEvent::RelaysDone { server_failed: false, backend_failed: false };
    assert_eq!(session.step(clean), BackendAction::Replace);
    assert_eq!(session.step(BackendEvent::ReplaceFailed), BackendAction::Finish);
    assert_eq!(session.stage, BackendStage::Done);
    assert_eq!(session.step(BackendEvent::Connected), BackendAction::Ignore);

    let mut session = backend_at_forwarding(GET);
    session.step(BackendEvent::Forwarded);
    let failed = BackendEvent::RelaysDone { server_failed: false, backend_failed: true };
    assert_eq!(session.step(failed), BackendAction::Finish);

    // What is not HTTP is not replaced.
    let mut session = BackendSession::new();
    session.step(BackendEvent::Connected);
    assert_eq!(session.step(initial_event(b"")), BackendAction::RunRelays);
    assert_eq!(session.step(clean), BackendAction::Finish);
}

#[test]
fn backend_session_closes_after_one_response() {
    let mut session = backend_at_forwarding(CLOSE);
    assert_eq!(session.step(BackendEvent::Forwarded), BackendAction::RunOneTime);
    assert_eq!(session.step(BackendEvent::HandlerDone), BackendAction::Finish);
}

#[test]
fn backend_session_carries_a_granted_websocket() {
    let mut session = backend_at_forwarding(UPGRADE);
    assert_eq!(session.step(BackendEvent::Forwarded), BackendAction::AwaitResponse);
    assert_eq!(response_event(GRANTED), BackendEvent::Response(true));
    assert_eq!(session.step(response_event(GRANTED)), BackendAction::Answer);
    assert_eq!(session.step(BackendEvent::Answered), BackendAction::RunWebSocket);
    assert_eq!(session.step(BackendEvent::HandlerDone), BackendAction::Finish);
}

#[test]
fn backend_session_relays_after_a_refused_websocket() {
    let mut session = backend_at_forwarding(UPGRADE);
    session.step(BackendEvent::Forwarded);
    let refused = response_event(b"HTTP/1.1 400 Bad Request\r\n\r\n");
    assert_eq!(refused, BackendEvent::Response(false));
    session.step(refused);
    assert_eq!(session.step(BackendEvent::Answered), BackendAction::RunRelays);
}

#[test]
fn backend_session_failures() {
    let mut session = BackendSession::new();
    assert_eq!(
        session.step(BackendEvent::ConnectFailed),
        BackendAction::Fail(BackendFailure::NoBackend)
    );
    assert_eq!(
        BackendFailure::NoBackend.error("x").message(),
        "Other: Failed to connect to backend"
    );
    let mut session = backend_at_forwarding(UPGRADE);
    session.step(BackendEvent::Forwarded);
    assert_eq!(response_event(b""), BackendEvent::NoResponse);
    assert_eq!(
        session.step(BackendEvent::NoResponse),
        BackendAction::Fail(BackendFailure::NoUpgradeResponse)
    );
    assert_eq!(
        BackendFailure::NoUpgradeResponse.error("x").message(),
        "Other: Failed to get backend response for WebSocket upgrade"
    );
    let mut session = backend_at_forwarding(GET);
    assert_eq!(
        session.step(BackendEvent::ForwardFailed),
        BackendAction::Fail(BackendFailure::Io)
    );
    assert_eq!(BackendFailure::Io.error("broken pipe").message(), "broken pipe");
    let mut session = BackendSession::new();
    session.step(BackendEvent::Connected);
    assert_eq!(
        session.step(BackendEvent::InitialFailed),
        BackendAction::Fail(BackendFailure::Io)
    );
    let mut session = backend_at_forwarding(UPGRADE);
    session.step(BackendEvent::Forwarded);
    session.step(BackendEvent::Response(true));
    assert_eq!(
        session.step(BackendEvent::AnswerFailed),
        BackendAction::Fail(BackendFailure::Io)
    );
}

#[test]
fn legacy_sessions_are_routed() {
    let mut session = LegacySession::new();
    assert_eq!(session.step(legacy::initial_event(CLOSE)), LegacyAction::Forward);
    assert_eq!(session.step(LegacyEvent::Forwarded), LegacyAction::Run(Route::OneTime));
    assert!(!session.watches());
    let mut session = LegacySession::new();
    session.step(legacy::initial_event(GET));
    assert_eq!(session.step(LegacyEvent::Forwarded), LegacyAction::Run(Route::Persistent));
    assert!(session.watches());
    let mut session = LegacySession::new();
    session.step(legacy::initial_event(UPGRADE));
    assert_eq!(session.step(LegacyEvent::Forwarded), LegacyAction::Run(Route::WebSocket));
    // An unfinished request for a WebSocket is relayed like anything else.
    let mut session = LegacySession::new();
    session.step(legacy::initial_event(UNFINISHED_UPGRADE));
    assert_eq!(session.step(LegacyEvent::Forwarded), LegacyAction::Run(Route::Persistent));
    let mut session = LegacySession::new();
    assert_eq!(session.step(legacy::initial_event(b"")), LegacyAction::Run(Route::Persistent));
    assert!(!session.watches());
    let mut session = LegacySession::new();
    assert_eq!(session.step(LegacyEvent::InitialFailed), LegacyAction::Drop);
    let mut session = LegacySession::new();
    session.step(legacy::initial_event(GET));
    assert_eq!(session.step(LegacyEvent::ForwardFailed), LegacyAction::Drop);
    assert_eq!(session.step(LegacyEvent::Forwarded), LegacyAction::Ignore);
}

#[test]
fn watched_messages_are_put_together() {
    let mut watch = MessageWatch::new(Watched::Requests);
    assert_eq!(watch.see(b"GET / HTTP/1.1\r\nConnection: cl"), None);
    assert!(watch.awaiting);
    assert_eq!(watch.see(b"ose\r\n\r\n"), Some(ProxyConnectionState::FirstExchange));
    assert!(!watch.awaiting);
    assert!(watch.data.is_empty());
    assert_eq!(watch.see(GET), None);
    assert!(watch.data.is_empty());

    let mut watch = MessageWatch::new(Watched::Responses);
    assert_eq!(watch.see(b"HTTP/1.0 200 OK\r\n\r\n"), None);
    assert!(!watch.data.is_empty());
    assert_eq!(watch.see(b"x"), Some(ProxyConnectionState::FirstExchange));
    assert!(watch.awaiting);
    assert_eq!(watch.see(b"HTTP/1.1 204 No Content\r\n\r\n"), None);
    assert_eq!(watch.see(b"zzz\r\n\r\nz"), None);
    assert!(watch.data.is_empty());
}

fn first(mut exchange: OneTime, data: &[u8]) -> (OneTime, OneTimeAction) {
    assert_eq!(exchange.begin(), OneTimeAction::Read(FIRST_WAIT));
    assert_eq!(exchange.read(data), OneTimeAction::Forward);
    let action = exchange.step(OneTimeEvent::Forwarded);
    (exchange, action)
}

#[test]
fn whole_closing_responses_end_the_exchange() {
    let data = b"HTTP/1.1 200 OK\r\nConnection: close\r\nContent-Length: 2\r\n\r\nab";
    let (exchange, action) = first(one_time_proxy(), data);
    assert_eq!(action, OneTimeAction::Close);
    assert_eq!(exchange.stage, Stage::Over);
    assert_eq!(exchange.framing.content_length, Some(2));
    assert_eq!(exchange.framing.headers_end, data.len() - 2);
    let (_, action) = first(one_time_request(), data);
    assert_eq!(action, OneTimeAction::Close);
}

#[test]
fn missing_bodies_are_read_on() {
    let data = b"HTTP/1.1 200 OK\r\nConnection: close\r\nContent-Length: 4\r\n\r\nab";
    for exchange in vec![one_time_proxy(), one_time_request()] {
        let (mut exchange, action) = first(exchange, data);
        assert_eq!(action, OneTimeAction::Read(MORE_WAIT));
        assert_eq!(exchange.read(b"c"), OneTimeAction::Forward);
        assert_eq!(exchange.step(OneTimeEvent::Forwarded), OneTimeAction::Read(MORE_WAIT));
        assert_eq!(exchange.read(b"d"), OneTimeAction::Forward);
        assert_eq!(exchange.step(OneTimeEvent::Forwarded), OneTimeAction::Close);
        assert_eq!(exchange.buf, [&data[..], b"cd"].concat());
    }
}

#[test]
fn server_reads_on_where_the_connection_is_kept_alive() {
    let data = b"HTTP/1.1 200 OK\r\nContent-Length: 2\r\n\r\nab";
    let (mut exchange, action) = first(one_time_proxy(), data);
    assert_eq!(action, OneTimeAction::Read(MORE_WAIT));
    assert_eq!(exchange.step(OneTimeEvent::ReadEnded), OneTimeAction::Close);
    let (_, action) = first(one_time_request(), data);
    assert_eq!(action, OneTimeAction::Close);
}

#[test]
fn chunked_responses_end_with_the_empty_chunk() {
    let data = b"HTTP/1.1 200 OK\r\nConnection: close\r\nTransfer-Encoding: Chunked\r\n\r\n1\r\na\r\n";
    for exchange in vec![one_time_proxy(), one_time_request()] {
        let (mut exchange, action) = first(exchange, data);
        assert_eq!(action, OneTimeAction::Read(MORE_WAIT));
        assert!(exchange.framing.chunked);
        exchange.read(b"0\r\n");
        assert_eq!(exchange.step(OneTimeEvent::Forwarded), OneTimeAction::Read(MORE_WAIT));
        exchange.read(b"\r\n");
        assert_eq!(exchange.step(OneTimeEvent::Forwarded), OneTimeAction::Close);
    }
}

#[test]
fn responses_without_an_end_are_read_until_they_stop() {
    let data = b"HTTP/1.0 200 OK\r\n\r\n";
    // The server takes a response without a declared end as it is.
    let (_, action) = first(one_time_proxy(), data);
    assert_eq!(action, OneTimeAction::Close);
    // The client wants some of a body.
    let (mut exchange, action) = first(one_time_request(), data);
    assert_eq!(action, OneTimeAction::Read(MORE_WAIT));
    exchange.read(b"abc");
    assert_eq!(exchange.step(OneTimeEvent::Forwarded), OneTimeAction::Read(MORE_WAIT));
    assert_eq!(exchange.step(OneTimeEvent::ReadEnded), OneTimeAction::Close);
    let (_, action) = first(one_time_request(), b"HTTP/1.0 200 OK\r\n\r\nx");
    assert_eq!(action, OneTimeAction::Close);
}

#[test]
fn framing_of_bodies_that_are_no_text() {
    let data = b"HTTP/1.1 200 OK\r\nConnection: close\r\nContent-Length: 4\r\n\r\n\xff\xfe";
    // The server goes by where the parsed body begins.
    let (exchange, action) = first(one_time_proxy(), data);
    assert_eq!(exchange.framing.headers_end, data.len() - 2);
    assert_eq!(action, OneTimeAction::Read(MORE_WAIT));
    // The client falls back to judging the response as a whole.
    let (exchange, action) = first(one_time_request(), data);
    assert_eq!(exchange.framing.headers_end, data.len() - 2);
    assert_eq!(action, OneTimeAction::Read(MORE_WAIT));
}

#[test]
fn exchanges_end_on_failures() {
    let mut exchange = one_time_proxy();
    assert_eq!(exchange.side, Side::Server);
    assert_eq!(exchange.step(OneTimeEvent::ReadEnded), OneTimeAction::Close);
    assert_eq!(exchange.read(b"x"), OneTimeAction::Ignore);
    let mut exchange = one_time_proxy();
    exchange.read(b"x");
    assert_eq!(exchange.step(OneTimeEvent::ForwardFailed), OneTimeAction::Abandon);
    let (mut exchange, _) =
        first(one_time_request(), b"HTTP/1.1 200 OK\r\nContent-Length: 9\r\n\r\n");
    exchange.read(b"x");
    assert_eq!(exchange.step(OneTimeEvent::ForwardFailed), OneTimeAction::Close);
    assert_eq!(exchange.step(OneTimeEvent::Forwarded), OneTimeAction::Ignore);
}

#[test]
fn arrived_ends_stay_arrived() {
    let length = Framing { content_length: Some(2), chunked: false, headers_end: 4 };
    assert!(!has_end_arrived(&length, b"hhhha"));
    assert!(has_end_arrived(&length, b"hhhhab"));
    assert!(has_end_arrived(&length, b"hhhhabc"));
    let chunks = Framing { content_length: None, chunked: true, headers_end: 0 };
    assert!(!has_end_arrived(&chunks, b"hhhh0\r\n\r"));
    assert!(has_end_arrived(&chunks, b"hhhh0\r\n\r\n"));
    assert!(has_end_arrived(&chunks, b"hhhh0\r\n\r\nmore"));
    // Where the body begins is not known, or nothing is declared.
    let unknown = Framing { content_length: Some(2), chunked: true, headers_end: 0 };
    assert!(!has_end_arrived(&unknown, b"0\r\n\r\n"));
    let open = Framing { content_length: None, chunked: false, headers_end: 4 };
    assert!(!has_end_arrived(&open, b"hhhh0\r\n\r\n"));
}

#[test]
fn silent_legacy_sessions_are_dropped() {
    let mut session = LegacySession::new();
    assert_eq!(session.check_idle(5, 9 * SECOND), IdleCheck::Unlimited);
    session.step(legacy::initial_event(GET));
    assert_eq!(session.step(LegacyEvent::Idle), LegacyAction::Ignore);
    session.step(LegacyEvent::Forwarded);
    assert_eq!(session.check_idle(5, 0), IdleCheck::Wait(5, 0));
    assert_eq!(session.check_idle(5, 1), IdleCheck::Wait(4, 999_999_999));
    assert_eq!(session.check_idle(5, 3 * SECOND), IdleCheck::Wait(2, 0));
    assert_eq!(session.check_idle(5, 5 * SECOND - 1), IdleCheck::Wait(0, 1));
    assert_eq!(session.check_idle(5, 5 * SECOND), IdleCheck::Idle);
    assert_eq!(session.check_idle(5, u64::MAX), IdleCheck::Idle);
    assert_eq!(session.check_idle(u64::MAX, 0), IdleCheck::Wait(u64::MAX, 0));
    assert_eq!(session.check_idle(0, u64::MAX), IdleCheck::Unlimited);
    assert_eq!(session.step(LegacyEvent::Idle), LegacyAction::Drop);
    assert_eq!(session.step(LegacyEvent::Idle), LegacyAction::Ignore);
    assert_eq!(session.check_idle(5, u64::MAX), IdleCheck::Unlimited);
}

#[test]
fn websockets_and_single_responses_have_no_idle_limit() {
    for first in vec![UPGRADE, CLOSE] {
        let mut session = LegacySession::new();
        session.step(legacy::initial_event(first));
        session.step(LegacyEvent::Forwarded);
        assert_eq!(session.check_idle(1, u64::MAX), IdleCheck::Unlimited);
    }
}

#[test]
fn exchanges_forward_what_they_read() {
    let response = b"HTTP/1.1 200 OK\r\nConnection: close\r\nContent-Length: 6\r\n\r\nabcdef";
    for fails_at in 0..4usize {
        let mut exchange = one_time_request();
        let mut received: Vec<u8> = Vec::new();
        let mut forwarded: Vec<u8> = Vec::new();
        for (i, chunk) in [&response[..60], &response[60..61], &response[61..]].iter().enumerate() {
            assert!(chunk.len() > 0);
            if exchange.read(chunk) == OneTimeAction::Ignore {
                break;
            }
            received.extend_from_slice(chunk);
            if i == fails_at {
                exchange.step(OneTimeEvent::ForwardFailed);
            } else {
                forwarded.extend_from_slice(chunk);
                exchange.step(OneTimeEvent::Forwarded);
            }
        }
        assert_eq!(exchange.stage, Stage::Over);
        assert_eq!(exchange.buf, received);
        assert!(received.starts_with(&forwarded));
        assert_eq!(forwarded == received, fails_at == 3);
        assert_eq!(received == response, fails_at >= 2);
    }
}
