use reverse_tunnel::common::protocol::{
    callback_message, connect_message, parse_connect, register_message, session_id, ConnectLine,
    RegisterError,
};
use reverse_tunnel::server::client_manager::{
    purge_idle_sessions, purge_stale_handshakes, register_handshake, remove_handshake,
    take_channel, update_client_activity,
};
use reverse_tunnel::server::config::{buffer_size_bytes, Args, SessionSettings};
use reverse_tunnel::server::handlers::client::{
    Registration, RegistrationAction, RegistrationEvent, RegistrationStage, Visit, VisitAction,
    VisitEvent,
};
use reverse_tunnel::server::listener::{classify_connection, Incoming};
use reverse_tunnel::server::ProxyClientInfo;

const SECOND: u64 = 1_000_000_000;

#[test]
fn handshakes_are_called_back_once() {
    let mut clients: Vec<ProxyClientInfo<u32>> = Vec::new();
    register_handshake(&mut clients, 80, 8080, 7, "1-8080", SECOND);
    register_handshake(&mut clients, 80, 8080, 8, "2-8080", SECOND);
    assert_eq!(take_channel(&mut clients, "3-8080", SECOND), None);
    assert_eq!(take_channel(&mut clients, "2-8080", 2 * SECOND), Some(8));
    assert_eq!(take_channel(&mut clients, "2-8080", 3 * SECOND), None);
    assert_eq!(take_channel(&mut clients, "1-8080", 3 * SECOND), Some(7));
    assert_eq!(clients[0].last_activity, 3 * SECOND);
    assert_eq!(clients[0].backend_port, 80);
    assert_eq!(clients[0].public_port, 8080);
    assert_eq!(clients[0].reconnect_attempts, 0);
}

#[test]
fn forgotten_handshakes_are_not_found() {
    let mut clients: Vec<ProxyClientInfo<u32>> = Vec::new();
    register_handshake(&mut clients, 80, 8080, 7, "a", 0);
    register_handshake(&mut clients, 80, 8080, 8, "b", 0);
    remove_handshake(&mut clients, "a");
    assert_eq!(take_channel(&mut clients, "a", 0), None);
    assert_eq!(take_channel(&mut clients, "b", 0), Some(8));
}

#[test]
fn activity_belongs_to_the_first() {
    let mut clients: Vec<ProxyClientInfo<u32>> = Vec::new();
    register_handshake(&mut clients, 80, 8080, 7, "a", 0);
    register_handshake(&mut clients, 80, 8080, 8, "a", 0);
    update_client_activity(&mut clients, "a", 5);
    assert_eq!(clients[0].last_activity, 5);
    assert_eq!(clients[1].last_activity, 0);
    update_client_activity(&mut clients, "x", 9);
    assert_eq!(clients[0].last_activity, 5);
}

#[test]
fn stale_handshakes_are_forgotten() {
    let mut clients: Vec<ProxyClientInfo<u32>> = Vec::new();
    register_handshake(&mut clients, 80, 8080, 7, "a", 0);
    register_handshake(&mut clients, 80, 8080, 8, "b", 0);
    take_channel(&mut clients, "b", 0);
    purge_stale_handshakes(&mut clients, 31 * SECOND - 1);
    assert_eq!(clients.len(), 2);
    // Registering another forgets the one that nobody called back for.
    register_handshake(&mut clients, 80, 8080, 9, "c", 31 * SECOND);
    let ids: Vec<&str> = clients.iter().map(|c| c.handshake_id.as_str()).collect();
    assert_eq!(ids, vec!["b", "c"]);
}

#[test]
fn idle_sessions_are_forgotten() {
    let mut clients: Vec<ProxyClientInfo<u32>> = Vec::new();
    register_handshake(&mut clients, 80, 8080, 7, "a", 0);
    take_channel(&mut clients, "a", 0);
    register_handshake(&mut clients, 80, 8080, 8, "b", 200 * SECOND);
    assert_eq!(purge_idle_sessions(&mut clients, 300 * SECOND - 1), 0);
    assert_eq!(purge_idle_sessions(&mut clients, 300 * SECOND), 1);
    assert_eq!(clients[0].handshake_id, "b");
}

#[test]
fn registrations_open_the_port() {
    let mut registration = Registration::new();
    let line = RegistrationEvent::Line(register_message(80, 8080));
    assert_eq!(registration.step(line), RegistrationAction::Bind(8080));
    assert_eq!(registration.backend_port, 80);
    assert_eq!(registration.step(RegistrationEvent::Bound), RegistrationAction::Wait);
    assert_eq!(registration.step(RegistrationEvent::Visitor), RegistrationAction::Visit);
    assert_eq!(registration.step(RegistrationEvent::AcceptFailed), RegistrationAction::Wait);
    assert_eq!(registration.step(RegistrationEvent::Chatter), RegistrationAction::Wait);
    assert_eq!(registration.step(RegistrationEvent::Gone), RegistrationAction::Close);
    assert_eq!(registration.stage, RegistrationStage::Done);
    assert_eq!(registration.step(RegistrationEvent::Visitor), RegistrationAction::Ignore);
}

#[test]
fn registrations_can_be_refused() {
    let mut registration = Registration::new();
    assert_eq!(
        registration.step(RegistrationEvent::Line("GET / HTTP/1.1\r\n".to_string())),
        RegistrationAction::Refuse(RegisterError::InvalidCommand)
    );
    assert_eq!(registration.stage, RegistrationStage::Done);
}

#[test]
fn ports_in_use_are_refused() {
    let mut registration = Registration::new();
    registration.step(RegistrationEvent::Line(register_message(80, 8080)));
    assert_eq!(
        registration.step(RegistrationEvent::BindFailed),
        RegistrationAction::Refuse(RegisterError::PublicPortInUse)
    );
    let mut registration = Registration::new();
    assert_eq!(registration.step(RegistrationEvent::NoLine), RegistrationAction::Close);
}

fn settings(data_logging: &str) -> SessionSettings {
    SessionSettings { idle_timeout: 60, data_logging: data_logging.to_string(), buffer_size: 65536 }
}

#[test]
fn visits_become_sessions() {
    let mut visit = Visit::new(5, settings("off"));
    assert_eq!(visit.begin(), VisitAction::ReadInitial(5));
    assert_eq!(visit.step(VisitEvent::Initial(3)), VisitAction::SendReady);
    assert_eq!(visit.step(VisitEvent::Sent), VisitAction::RegisterHandshake);
    assert_eq!(visit.step(VisitEvent::Registered), VisitAction::SendConnect);
    assert_eq!(visit.step(VisitEvent::Sent), VisitAction::AwaitCallback(5));
    assert_eq!(
        visit.step(VisitEvent::CalledBack),
        VisitAction::ForgetAndServe(settings("off"))
    );
    assert_eq!(visit.step(VisitEvent::CalledBack), VisitAction::Ignore);
}

#[test]
fn sessions_get_the_settings_of_the_server() {
    for level in vec!["off", "minimal", "verbose"] {
        let args = Args {
            host: "h".to_string(),
            port: 7000,
            connection_timeout: u64::MAX,
            idle_timeout: 9,
            data_logging: level.to_string(),
            buffer_size: 64,
        };
        let mut visit = Visit::new(args.connection_timeout, args.session_settings());
        assert_eq!(visit.begin(), VisitAction::ReadInitial(u64::MAX));
        visit.step(VisitEvent::Initial(1));
        visit.step(VisitEvent::Sent);
        visit.step(VisitEvent::Registered);
        assert_eq!(visit.step(VisitEvent::Sent), VisitAction::AwaitCallback(u64::MAX));
        let expected = SessionSettings {
            idle_timeout: 9,
            data_logging: level.to_string(),
            buffer_size: 65536,
        };
        assert_eq!(visit.step(VisitEvent::CalledBack), VisitAction::ForgetAndServe(expected));
    }
}

#[test]
fn visits_can_come_to_nothing() {
    let mut visit = Visit::new(5, settings("off"));
    assert_eq!(visit.step(VisitEvent::Initial(0)), VisitAction::Drop);
    let mut visit = Visit::new(5, settings("off"));
    assert_eq!(visit.step(VisitEvent::InitialFailed), VisitAction::Drop);
    let mut visit = Visit::new(5, settings("off"));
    visit.step(VisitEvent::Initial(3));
    assert_eq!(visit.step(VisitEvent::SendFailed), VisitAction::Drop);
    let mut visit = Visit::new(5, settings("off"));
    visit.step(VisitEvent::Initial(3));
    visit.step(VisitEvent::Sent);
    visit.step(VisitEvent::Registered);
    assert_eq!(visit.step(VisitEvent::SendFailed), VisitAction::Drop);
    let mut visit = Visit::new(5, settings("off"));
    visit.step(VisitEvent::Initial(3));
    visit.step(VisitEvent::Sent);
    visit.step(VisitEvent::Registered);
    visit.step(VisitEvent::Sent);
    assert_eq!(visit.step(VisitEvent::NotCalledBack), VisitAction::ForgetAndDrop);
}

#[test]
fn buffer_sizes_are_bounded() {
    assert_eq!(buffer_size_bytes(0), 32 * 1024);
    assert_eq!(buffer_size_bytes(31), 32 * 1024);
    assert_eq!(buffer_size_bytes(33), 33 * 1024);
    assert_eq!(buffer_size_bytes(1024), 1024 * 1024);
    assert_eq!(buffer_size_bytes(5000), 1024 * 1024);
    let args = Args {
        host: "0.0.0.0".to_string(),
        port: 7000,
        connection_timeout: 5,
        idle_timeout: 0,
        data_logging: "off".to_string(),
        buffer_size: 32,
    };
    assert_eq!(buffer_size_bytes(args.buffer_size), 32768);
}

#[test]
fn callbacks_reach_their_handshake() {
    let mut clients: Vec<ProxyClientInfo<u32>> = Vec::new();
    register_handshake(&mut clients, 80, 8080, 1, &session_id(5, 8080), 0);
    let id = session_id(6, 8080);
    register_handshake(&mut clients, 80, 8080, 2, &id, 0);
    let told = match parse_connect(&connect_message(&id)) {
        ConnectLine::Handshake(told) => told,
        other => panic!("{:?}", other),
    };
    let named = match classify_connection(callback_message(&told).as_bytes()) {
        Incoming::Callback(named) => named,
        other => panic!("{:?}", other),
    };
    assert_eq!(take_channel(&mut clients, &named, 1), Some(2));
}
