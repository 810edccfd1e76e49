use reverse_tunnel::client::handlers::connection::{
    refresh_delay, Callback, CallbackAction, CallbackEvent, ControlAction, ControlEvent,
    ControlLoop, ControlStage,
};
use reverse_tunnel::client::reconnect::{ReconnectPolicy, ReconnectStep};
use reverse_tunnel::client::sessions::ActiveSessions;
use reverse_tunnel::{Args, ConnectionPool, ProxyError};

const SECOND: u64 = 1_000_000_000;

#[test]
fn pool_hands_out_recent_connections() {
    let mut pool: ConnectionPool<u32> = ConnectionPool::new(300, 2);
    assert_eq!(pool.get_connection(80, 0), None);
    pool.return_connection(80, 1, "a".to_string(), 0);
    pool.return_connection(80, 2, "b".to_string(), 20 * SECOND);
    pool.return_connection(80, 3, "c".to_string(), 20 * SECOND);
    // The first is too old, the third did not fit.
    assert_eq!(pool.get_connection(80, 30 * SECOND), Some((2, "b".to_string())));
    assert_eq!(pool.get_connection(80, 30 * SECOND), None);
    assert_eq!(pool.get_connection(81, 30 * SECOND), None);
    // Just within the window.
    assert_eq!(pool.get_connection(80, 30 * SECOND - 1), Some((1, "a".to_string())));
}

#[test]
fn pool_hands_out_the_first_that_is_recent() {
    let mut pool: ConnectionPool<u32> = ConnectionPool::new(300, 10);
    pool.return_connection(80, 1, "a".to_string(), 10 * SECOND);
    pool.return_connection(80, 2, "b".to_string(), 10 * SECOND);
    assert_eq!(pool.get_connection(80, 5 * SECOND), Some((1, "a".to_string())));
    assert_eq!(pool.get_connection(80, 5 * SECOND), Some((2, "b".to_string())));
}

#[test]
fn pool_drops_idle_connections() {
    let mut pool: ConnectionPool<u32> = ConnectionPool::new(5, 10);
    pool.return_connection(80, 1, "a".to_string(), 0);
    pool.return_connection(80, 2, "b".to_string(), SECOND);
    pool.return_connection(81, 3, "c".to_string(), 0);
    pool.cleanup(5 * SECOND);
    pool.cleanup(5 * SECOND);
    assert_eq!(pool.get_connection(81, 5 * SECOND), None);
    assert_eq!(pool.get_connection(80, 5 * SECOND), Some((2, "b".to_string())));
    assert_eq!(pool.get_connection(80, 5 * SECOND), None);
}

#[test]
fn pool_without_room_keeps_nothing() {
    let mut pool: ConnectionPool<u32> = ConnectionPool::new(5, 0);
    pool.return_connection(80, 1, "a".to_string(), 0);
    assert_eq!(pool.get_connection(80, 0), None);
}

#[test]
fn sessions_are_kept_until_they_finish() {
    let mut sessions = ActiveSessions::new();
    sessions.enter("a");
    sessions.enter("b");
    sessions.enter("a");
    assert_eq!(sessions.len(), 2);
    assert!(sessions.contains("a"));
    sessions.finish("a");
    assert!(!sessions.contains("a"));
    sessions.finish("a");
    assert_eq!(sessions.len(), 1);
}

#[test]
fn too_many_sessions_are_forgotten() {
    let mut sessions = ActiveSessions::new();
    for i in 0..100 {
        sessions.enter(&format!("s{}", i));
    }
    assert_eq!(sessions.len(), 100);
    sessions.enter("one more");
    assert_eq!(sessions.len(), 1);
    assert!(sessions.contains("one more"));
}

#[test]
fn sweeps_forget_many_sessions() {
    let mut sessions = ActiveSessions::new();
    for i in 0..10 {
        sessions.enter(&format!("s{}", i));
    }
    assert_eq!(sessions.sweep(), None);
    assert_eq!(sessions.len(), 10);
    sessions.enter("s10");
    assert_eq!(sessions.sweep(), Some(11));
    assert_eq!(sessions.len(), 0);
}

#[test]
fn waits_double_up_to_a_limit() {
    let mut policy = ReconnectPolicy::new(5, 0);
    let mut waits = vec![];
    for _ in 0..9 {
        assert!(policy.may_attempt());
        match policy.after_attempt(true, true) {
            ReconnectStep::Wait(s) => waits.push(s),
            other => panic!("{:?}", other),
        }
    }
    assert_eq!(waits, vec![5, 10, 20, 40, 80, 160, 300, 300, 300]);
    assert_eq!(policy.after_attempt(false, true), ReconnectStep::Wait(5));
    assert_eq!(policy.count, 0);
    let mut slow = ReconnectPolicy::new(1000, 0);
    assert_eq!(slow.after_attempt(true, true), ReconnectStep::Wait(1000));
    assert_eq!(slow.after_attempt(true, true), ReconnectStep::Wait(300));
    let mut slowest = ReconnectPolicy::new(u64::MAX, 0);
    slowest.after_attempt(true, true);
    assert_eq!(slowest.after_attempt(true, true), ReconnectStep::Wait(300));
}

#[test]
fn attempts_have_a_limit() {
    let mut policy = ReconnectPolicy::new(1, 2);
    assert!(policy.may_attempt());
    policy.after_attempt(true, true);
    assert!(policy.may_attempt());
    policy.after_attempt(true, true);
    assert!(!policy.may_attempt());
}

#[test]
fn reconnecting_can_be_ended() {
    let mut policy = ReconnectPolicy::new(0, 0);
    assert_eq!(policy.after_attempt(true, true), ReconnectStep::Disabled);
    assert_eq!(policy.after_attempt(true, false), ReconnectStep::Shutdown);
    let mut policy = ReconnectPolicy::new(9, 0);
    assert_eq!(policy.after_attempt(false, false), ReconnectStep::Shutdown);
}

fn registered() -> ControlLoop {
    let mut control = ControlLoop::new();
    assert!(matches!(control.step(ControlEvent::Connected), ControlAction::SendRegistration));
    assert!(matches!(control.step(ControlEvent::Sent), ControlAction::FlushRegistration));
    assert!(matches!(control.step(ControlEvent::Flushed), ControlAction::ReadLine));
    control
}

fn line(s: &str) -> ControlEvent {
    ControlEvent::Line(s.to_string())
}

#[test]
fn announced_visitor_is_served() {
    let mut control = registered();
    assert!(matches!(control.step(line("noise\n")), ControlAction::ReadLine));
    assert_eq!(control.stage, ControlStage::AwaitingReady);
    assert!(matches!(control.step(line("READY\n")), ControlAction::ReadLine));
    assert_eq!(control.stage, ControlStage::AwaitingConnect);
    assert!(matches!(control.step(line("CONNECT 12-80\n")), ControlAction::Serve(id) if id == "12-80"));
    assert_eq!(control.stage, ControlStage::AwaitingReady);
    // Without an announcement nobody is served.
    assert!(matches!(control.step(line("CONNECT 13-80\n")), ControlAction::ReadLine));
}

#[test]
fn other_lines_end_the_announcement() {
    for other in vec!["CONNECT\n", "ERROR: x\n", "READY\n"] {
        let mut control = registered();
        control.step(line("READY\n"));
        assert!(matches!(control.step(line(other)), ControlAction::ReadLine));
        assert_eq!(control.stage, ControlStage::AwaitingReady);
    }
}

#[test]
fn pauses_notice_a_shutdown() {
    let mut control = registered();
    assert!(matches!(control.step(ControlEvent::TimedOut(true)), ControlAction::ReadLine));
    control.step(line("READY\n"));
    assert!(matches!(control.step(ControlEvent::TimedOut(true)), ControlAction::ReadLine));
    assert_eq!(control.stage, ControlStage::AwaitingReady);
    assert!(matches!(control.step(ControlEvent::TimedOut(false)), ControlAction::Finish));
    assert!(matches!(control.step(line("READY\n")), ControlAction::Ignore));
}

fn failure(action: ControlAction) -> String {
    match action {
        ControlAction::Fail(e) => e.message(),
        other => panic!("{:?}", other),
    }
}

#[test]
fn control_failures_tell_what_happened() {
    let mut c = ControlLoop::new();
    assert_eq!(
        failure(c.step(ControlEvent::ConnectFailed("refused".to_string()))),
        "Other: Failed to connect to server: refused"
    );
    let mut c = ControlLoop::new();
    assert_eq!(
        failure(c.step(ControlEvent::ConnectTimedOut)),
        "Other: Connection timeout while connecting to server"
    );
    let mut c = ControlLoop::new();
    c.step(ControlEvent::Connected);
    assert_eq!(
        failure(c.step(ControlEvent::SendFailed("x".to_string()))),
        "Other: Failed to send registration message: x"
    );
    let mut c = ControlLoop::new();
    c.step(ControlEvent::Connected);
    c.step(ControlEvent::Sent);
    assert_eq!(
        failure(c.step(ControlEvent::FlushFailed("x".to_string()))),
        "Other: Failed to flush registration message: x"
    );
    assert_eq!(failure(registered().step(ControlEvent::Eof)), "Other: Server closed connection");
    assert_eq!(
        failure(registered().step(ControlEvent::ReadFailed("reset".to_string()))),
        "Other: Error reading from server: reset"
    );
    let mut c = registered();
    c.step(line("READY\n"));
    assert_eq!(
        failure(c.step(ControlEvent::Eof)),
        "Other: Server closed connection while waiting for CONNECT"
    );
    let mut c = registered();
    c.step(line("READY\n"));
    assert_eq!(
        failure(c.step(ControlEvent::ReadFailed("reset".to_string()))),
        "Other: Error reading from server: reset"
    );
}

#[test]
fn errors_are_shown() {
    assert_eq!(ProxyError::Io("io".to_string()).message(), "io");
    assert_eq!(ProxyError::Network("n".to_string()).message(), "Network error: n");
    assert_eq!(ProxyError::Parse("p".to_string()).message(), "Parsing error: p");
    assert_eq!(ProxyError::from("m").message(), "Other: m");
    assert_eq!(ProxyError::from("s".to_string()).message(), "Other: s");
}

#[test]
fn callbacks_send_their_handshake_first() {
    let mut callback = Callback::new(true);
    assert_eq!(callback.step(CallbackEvent::Connected), CallbackAction::SendHandshake);
    assert_eq!(callback.step(CallbackEvent::Sent), CallbackAction::FlushHandshake);
    assert_eq!(callback.step(CallbackEvent::Flushed), CallbackAction::ServePooled);
    assert_eq!(callback.step(CallbackEvent::Flushed), CallbackAction::Ignore);
    let mut callback = Callback::new(false);
    callback.step(CallbackEvent::Connected);
    callback.step(CallbackEvent::Sent);
    assert_eq!(callback.step(CallbackEvent::Flushed), CallbackAction::ServeDirect);
    let mut callback = Callback::new(false);
    assert_eq!(callback.step(CallbackEvent::ConnectFailed), CallbackAction::GiveUp);
    let mut callback = Callback::new(false);
    callback.step(CallbackEvent::Connected);
    assert_eq!(callback.step(CallbackEvent::SendFailed), CallbackAction::GiveUp);
    let mut callback = Callback::new(false);
    callback.step(CallbackEvent::Connected);
    callback.step(CallbackEvent::Sent);
    assert_eq!(callback.step(CallbackEvent::FlushFailed), CallbackAction::GiveUp);
}

#[test]
fn quick_refreshes_are_delayed() {
    assert_eq!(refresh_delay(499_999_999), Some(50));
    assert_eq!(refresh_delay(500_000_000), None);
}

#[test]
fn settings_are_plain_values() {
    let args = Args {
        server: "localhost:7000".to_string(),
        backend_port: 80,
        public_port: 8080,
        connection_timeout: reverse_tunnel::DEFAULT_CONNECTION_TIMEOUT,
        idle_timeout: reverse_tunnel::DEFAULT_IDLE_TIMEOUT,
        reconnect_interval: 5,
        max_reconnect_attempts: 0,
        data_logging: "off".to_string(),
        max_pool_size: 10,
        pool_idle_timeout: 300,
        use_connection_pool: false,
    };
    assert_eq!(args.connection_timeout, 5);
    assert_eq!(args.idle_timeout, 0);
    assert_eq!(reverse_tunnel::DEFAULT_BUFFER_SIZE, 32768);
}
