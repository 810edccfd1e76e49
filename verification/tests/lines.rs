use reverse_tunnel::common::protocol::{
    callback_message, connect_message, is_ready, parse_callback, parse_connect, parse_register,
    ready_message, register_message, session_id, ConnectLine, RegisterError,
};
use reverse_tunnel::server::listener::{classify_connection, Incoming};

#[test]
fn registrations_are_read_as_written() {
    assert_eq!(register_message(80, 65535), "REGISTER 80 65535\n");
    assert_eq!(parse_register(&register_message(80, 65535)), Ok((80, 65535)));
    assert_eq!(parse_register("  REGISTER\t7  +8 \r\n"), Ok((7, 8)));
}

#[test]
fn bad_registrations_are_refused() {
    assert_eq!(parse_register("HELLO 1 2\n"), Err(RegisterError::InvalidCommand));
    assert_eq!(parse_register("REGISTER 1\n"), Err(RegisterError::InvalidCommand));
    assert_eq!(parse_register("REGISTER 1 2 3\n"), Err(RegisterError::InvalidCommand));
    assert_eq!(parse_register(""), Err(RegisterError::InvalidCommand));
    assert_eq!(parse_register("REGISTER 65536 2\n"), Err(RegisterError::InvalidBackendPort));
    assert_eq!(parse_register("REGISTER x y\n"), Err(RegisterError::InvalidBackendPort));
    assert_eq!(parse_register("REGISTER 1 -2\n"), Err(RegisterError::InvalidPublicPort));
    assert_eq!(RegisterError::InvalidCommand.reply(), "ERROR: Invalid command\n");
    assert_eq!(RegisterError::InvalidBackendPort.reply(), "ERROR: Invalid backend port\n");
    assert_eq!(RegisterError::InvalidPublicPort.reply(), "ERROR: Invalid public port\n");
    assert_eq!(RegisterError::PublicPortInUse.reply(), "ERROR: Public port in use\n");
}

#[test]
fn announcements_are_understood() {
    assert_eq!(ready_message(), "READY\n");
    assert!(is_ready(ready_message()));
    assert!(is_ready("  READY \r\n"));
    assert!(!is_ready("READY now\n"));
    assert!(!is_ready("ready\n"));
}

#[test]
fn handshakes_pass_through_the_lines() {
    let id = session_id(1700000000123, 8080);
    assert_eq!(id, "1700000000123-8080");
    assert_eq!(session_id(-5, 1), "-5-1");
    let line = connect_message(&id);
    assert_eq!(line, "CONNECT 1700000000123-8080\n");
    let told = match parse_connect(&line) {
        ConnectLine::Handshake(told) => told,
        other => panic!("{:?}", other),
    };
    assert_eq!(told, id);
    let callback = callback_message(&told);
    assert_eq!(callback, "CALLBACK 1700000000123-8080\n");
    assert_eq!(parse_callback(callback.as_bytes()), Some(id));
}

#[test]
fn other_lines_after_an_announcement() {
    assert!(matches!(parse_connect("CONNECT\n"), ConnectLine::NoHandshake));
    assert!(matches!(parse_connect("ERROR: no\n"), ConnectLine::ServerError));
    assert!(matches!(parse_connect("READY\n"), ConnectLine::Unexpected));
    assert!(matches!(parse_connect("CONNECTED\u{2003}x y\n"), ConnectLine::Handshake(id) if id == "x"));
}

#[test]
fn connections_are_told_apart() {
    assert!(matches!(classify_connection(b"CALLBACK  a b \n"), Incoming::Callback(id) if id == "a b"));
    assert!(matches!(classify_connection(b"REGISTER 1 2\n"), Incoming::Registration));
    assert!(matches!(classify_connection(b"CALLBACK"), Incoming::Registration));
    assert!(matches!(classify_connection(b"CALLBACK \xff"), Incoming::Registration));
    assert!(matches!(classify_connection(b""), Incoming::Registration));
}
