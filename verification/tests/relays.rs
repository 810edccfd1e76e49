use reverse_tunnel::client::handlers::backend::{relay_to_backend, relay_to_server, relays_event, BackendEvent};
use reverse_tunnel::client::handlers::legacy::legacy_relay;
use reverse_tunnel::client::handlers::websocket::websocket_relay;
use reverse_tunnel::common::relay::{
    idle_limit, is_large_transfer, is_large_websocket_transfer, progress_due, sample_len,
    should_yield, websocket_progress_due, Phase, RateWatch, Relay, RelayAction, RelayEvent,
};
use reverse_tunnel::server::proxy::visitor_relay;

fn pass(relay: &mut Relay, n: usize) {
    assert_eq!(relay.step(RelayEvent::Read(n)), RelayAction::Write(n));
    assert_eq!(relay.step(RelayEvent::Written), RelayAction::Flush);
    assert_eq!(relay.step(RelayEvent::Flushed), RelayAction::Read);
}

#[test]
fn relay_counts_what_it_delivers() {
    let mut relay = visitor_relay();
    assert_eq!(relay.wants(), RelayAction::Read);
    pass(&mut relay, 10);
    pass(&mut relay, 7);
    assert_eq!(relay.total, 17);
    relay.step(RelayEvent::Read(5));
    assert_eq!(relay.total, 17);
    assert_eq!(relay.step(RelayEvent::WriteFailed), RelayAction::Stop);
    assert_eq!(relay.total, 17);
    assert!(relay.sink_failed && !relay.source_failed);
    assert_eq!(relay.step(RelayEvent::Read(3)), RelayAction::Stop);
    assert_eq!(relay.total, 17);
}

#[test]
fn relay_ends_with_its_source() {
    let mut relay = websocket_relay();
    assert_eq!(relay.step(RelayEvent::Read(0)), RelayAction::Stop);
    assert!(!relay.source_failed && !relay.sink_failed);
    let mut relay = websocket_relay();
    assert_eq!(relay.step(RelayEvent::Idle), RelayAction::Stop);
    assert!(!relay.source_failed);
    let mut relay = websocket_relay();
    assert_eq!(relay.step(RelayEvent::ReadFailed), RelayAction::Stop);
    assert!(relay.source_failed);
}

#[test]
fn relay_ignores_what_does_not_belong() {
    let mut relay = websocket_relay();
    assert_eq!(relay.step(RelayEvent::Written), RelayAction::Read);
    assert_eq!(relay.phase, Phase::Reading);
    relay.step(RelayEvent::Read(4));
    assert_eq!(relay.step(RelayEvent::Read(9)), RelayAction::Write(4));
}

#[test]
fn legacy_relay_counts_what_it_reads() {
    let mut relay = legacy_relay();
    relay.step(RelayEvent::Read(5));
    assert_eq!(relay.total, 5);
    relay.step(RelayEvent::WriteFailed);
    assert_eq!(relay.total, 5);
}

#[test]
fn failures_are_held_against_a_side() {
    let mut up = relay_to_backend();
    up.step(RelayEvent::Read(1));
    up.step(RelayEvent::Written);
    up.step(RelayEvent::FlushFailed);
    assert!(up.source_failed && !up.sink_failed);
    let down = relay_to_server(true);
    assert_eq!(
        relays_event(&up, &down),
        BackendEvent::RelaysDone { server_failed: true, backend_failed: false }
    );

    let mut down = relay_to_server(false);
    down.step(RelayEvent::Read(1));
    down.step(RelayEvent::Written);
    down.step(RelayEvent::FlushFailed);
    assert_eq!(
        relays_event(&relay_to_backend(), &down),
        BackendEvent::RelaysDone { server_failed: true, backend_failed: false }
    );
    let mut down = relay_to_server(true);
    down.step(RelayEvent::Read(1));
    down.step(RelayEvent::Written);
    down.step(RelayEvent::FlushFailed);
    assert_eq!(
        relays_event(&relay_to_backend(), &down),
        BackendEvent::RelaysDone { server_failed: false, backend_failed: true }
    );

    let mut copy = relay_to_backend();
    copy.copy_failed(true);
    assert!(!copy.source_failed);
    assert_eq!(copy.wants(), RelayAction::Stop);
    copy.copy_failed(false);
    assert!(copy.source_failed);
}

#[test]
fn progress_is_noted_at_each_step() {
    assert!(!progress_due(1048575, 1000));
    assert!(progress_due(1048576, 1));
    assert!(progress_due(1048576 + 99, 100));
    assert!(!progress_due(1048576 + 100, 100));
    assert!(!progress_due(5, 5));
    assert!(progress_due(2 * 1048576 + 5, 1048576));
}

#[test]
fn notes_have_thresholds() {
    assert_eq!(sample_len(50, 10), None);
    assert_eq!(sample_len(50, 11), Some(11));
    assert_eq!(sample_len(9999, 500), Some(100));
    assert_eq!(sample_len(10000, 500), None);
    assert!(!is_large_transfer(100_000_000));
    assert!(is_large_transfer(100_000_001));
    assert!(!should_yield(100_000));
    assert!(should_yield(100_001));
    assert!(websocket_progress_due(20480));
    assert!(!websocket_progress_due(20481));
    assert!(!is_large_websocket_transfer(100_000));
    assert!(is_large_websocket_transfer(110_239));
    assert!(!is_large_websocket_transfer(110_240));
    assert_eq!(idle_limit(0), None);
    assert_eq!(idle_limit(7), Some(7));
}

#[test]
fn rates_are_noted_after_a_while() {
    let mut watch = RateWatch::new();
    assert_eq!(watch.count(1_048_576, 6_000_000_000), None);
    assert_eq!(watch.count(1, 5_000_000_000), None);
    assert_eq!(watch.count(1, 5_000_000_001), Some(1_048_578));
    assert_eq!(watch.bytes, 0);
}

fn carry(relay: &mut Relay, source: &mut Vec<u8>, sink: &mut Vec<u8>, n: usize) {
    let chunk: Vec<u8> = source.drain(..n.min(source.len())).collect();
    if let RelayAction::Write(k) = relay.step(RelayEvent::Read(chunk.len())) {
        relay.step(RelayEvent::Written);
        relay.step(RelayEvent::Flushed);
        sink.extend_from_slice(&chunk[..k]);
    }
}

#[test]
fn two_relays_keep_what_they_carry() {
    let sent: Vec<u8> = (0..=255u8).collect();
    let mut source = sent.clone();
    let mut between = Vec::new();
    let mut received = Vec::new();
    let mut near = visitor_relay();
    let mut far = relay_to_backend();
    while near.wants() == RelayAction::Read {
        carry(&mut near, &mut source, &mut between, 100);
        if !between.is_empty() {
            carry(&mut far, &mut between, &mut received, 7);
        }
        assert!(sent.starts_with(&received));
    }
    while !between.is_empty() {
        carry(&mut far, &mut between, &mut received, 7);
    }
    assert_eq!(received, sent);
    assert_eq!(near.total, 256);
    assert_eq!(far.total, 256);
}

#[test]
fn stopped_relays_have_delivered_what_they_read() {
    for end in vec![RelayEvent::Read(0), RelayEvent::ReadFailed, RelayEvent::Idle] {
        let mut relay = visitor_relay();
        let mut source = vec![1u8, 2, 3, 4, 5];
        let mut sink = Vec::new();
        while !source.is_empty() {
            carry(&mut relay, &mut source, &mut sink, 2);
        }
        assert_eq!(relay.step(end), RelayAction::Stop);
        assert_eq!(relay.phase, Phase::Stopped);
        assert_eq!(sink, vec![1u8, 2, 3, 4, 5]);
        assert_eq!(relay.total, 5);
    }
}
