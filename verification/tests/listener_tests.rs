use sacn_viewer::clock::Timestamp;
use sacn_viewer::codec::{build, parse, MalformedPacket};
use sacn_viewer::listener::{Listener, ListenerAction, ListenerEvent, ListenerState, Received};
use sacn_viewer::model::{LogLevel, NetworkAdapter};
use sacn_viewer::net::IpAddress;
use sacn_viewer::sender::Sender;
use sacn_viewer::state::AppState;

fn at(secs: i64) -> Timestamp {
    Timestamp { secs, nanos: 0 }
}

fn datagram(
    universe: u16,
    first: u8,
    second: u8,
    name: &str,
    priority: u8,
    sequence: u8,
) -> Vec<u8> {
    let mut channels = [0u8; 512];
    channels[0] = first;
    channels[1] = second;
    build(universe, &channels, name, priority, sequence, &[0x5au8; 16])
}

fn listening() -> (Listener, AppState) {
    let mut listener = Listener::new();
    let mut store = AppState::new();
    listener.step(&mut store, ListenerEvent::Start, at(0));
    listener.step(&mut store, ListenerEvent::BindSucceeded, at(0));
    for _ in 1..=63999u32 {
        listener.step(&mut store, ListenerEvent::JoinSucceeded, at(0));
    }
    (listener, store)
}

#[test]
fn end_to_end_datagram_for_universe_five() {
    let sender = IpAddress::V4(192, 168, 1, 50);
    let bytes = datagram(5, 255, 128, "Desk", 100, 1);
    let packet = parse(&bytes).unwrap();
    let mut state = AppState::new();
    state.update_device(sender, packet.universe, packet.source_name.clone(), packet.priority);
    state.update_universe(packet.universe, packet.channels, sender, packet.sequence);
    let snapshot = state.universe(5).unwrap();
    assert_eq!(snapshot.channels[0], 255);
    assert_eq!(snapshot.channels[1], 128);
    assert_eq!(snapshot.source_ip, sender);
    let device = state.device(sender).unwrap();
    assert!(device.universes.contains(&5));
    assert_eq!(device.source_name, "Desk");
}

#[test]
fn receive_datagram_takes_a_packet_into_both_tables() {
    let sender = IpAddress::V4(192, 168, 1, 50);
    let mut state = AppState::new();
    let outcome = state.receive_datagram(sender, &datagram(5, 255, 128, "Desk", 100, 9), at(11));
    assert_eq!(outcome, Received::Accepted { universe: 5 });
    let snapshot = state.universe(5).unwrap();
    assert_eq!(snapshot.universe, 5);
    assert_eq!(snapshot.channels[0], 255);
    assert_eq!(snapshot.channels[1], 128);
    assert!(snapshot.channels[2..].iter().all(|c| *c == 0));
    assert_eq!(snapshot.sequence, 9);
    assert_eq!(snapshot.source_ip, sender);
    assert_eq!(snapshot.last_updated, at(11));
    let device = state.device(sender).unwrap();
    assert_eq!(device.universes, vec![5]);
    assert_eq!(device.source_name, "Desk");
    assert_eq!(device.priority, 100);
    assert_eq!(device.last_seen, at(11));
    assert_eq!(state.logs().len(), 1);
    assert_eq!(state.logs()[0].level, LogLevel::Rx);
    assert_eq!(state.logs()[0].message, "Received DMX data on universe 5: 512 channels");
}

#[test]
fn receive_datagram_drops_what_is_no_packet() {
    let sender = IpAddress::V4(192, 168, 1, 50);
    let mut state = AppState::new();
    let outcome = state.receive_datagram(sender, &[1, 2, 3], at(1));
    assert_eq!(outcome, Received::Malformed(MalformedPacket::TooShort));
    let mut bad = datagram(5, 1, 2, "Desk", 100, 0);
    bad[9] = b'X';
    let outcome = state.receive_datagram(sender, &bad, at(2));
    assert_eq!(outcome, Received::Malformed(MalformedPacket::BadIdentifier));
    let short = datagram(5, 1, 2, "Desk", 100, 0);
    let outcome = state.receive_datagram(sender, &short[..400], at(3));
    assert_eq!(outcome, Received::Malformed(MalformedPacket::TruncatedPayload));
    assert!(state.devices().is_empty());
    assert!(state.universes().is_empty());
    let logs = state.logs();
    assert_eq!(logs.len(), 3);
    assert_eq!(logs[0].message, "Dropped malformed packet: too short");
    assert_eq!(logs[1].message, "Dropped malformed packet: bad identifier");
    assert_eq!(logs[2].message, "Dropped malformed packet: truncated payload");
    assert!(logs.iter().all(|e| e.level == LogLevel::Info));
}

#[test]
fn receive_datagram_drops_a_universe_out_of_range() {
    let sender = IpAddress::V4(192, 168, 1, 50);
    let mut state = AppState::new();
    let outcome = state.receive_datagram(sender, &datagram(0, 1, 2, "Desk", 100, 0), at(1));
    assert_eq!(outcome, Received::UniverseOutOfRange { universe: 0 });
    let outcome = state.receive_datagram(sender, &datagram(64000, 1, 2, "Desk", 100, 0), at(2));
    assert_eq!(outcome, Received::UniverseOutOfRange { universe: 64000 });
    assert!(state.devices().is_empty());
    assert!(state.universes().is_empty());
    assert_eq!(state.logs()[0].message, "Dropped packet for universe 0: out of range");
    assert_eq!(state.logs()[1].message, "Dropped packet for universe 64000: out of range");
    let outcome = state.receive_datagram(sender, &datagram(63999, 1, 2, "Desk", 100, 0), at(3));
    assert_eq!(outcome, Received::Accepted { universe: 63999 });
}

#[test]
fn receive_datagram_drops_a_priority_out_of_range() {
    let sender = IpAddress::V4(192, 168, 1, 50);
    let mut state = AppState::new();
    let outcome = state.receive_datagram(sender, &datagram(5, 1, 2, "Desk", 201, 0), at(1));
    assert_eq!(outcome, Received::PriorityOutOfRange { priority: 201 });
    let outcome = state.receive_datagram(sender, &datagram(0, 1, 2, "Desk", 255, 0), at(2));
    assert_eq!(outcome, Received::PriorityOutOfRange { priority: 255 });
    assert!(state.devices().is_empty());
    assert!(state.universes().is_empty());
    assert_eq!(state.logs()[0].level, LogLevel::Info);
    assert_eq!(state.logs()[0].message, "Dropped packet with priority 201: out of range");
    assert_eq!(state.logs()[1].message, "Dropped packet with priority 255: out of range");
    let outcome = state.receive_datagram(sender, &datagram(5, 1, 2, "Desk", 200, 0), at(3));
    assert_eq!(outcome, Received::Accepted { universe: 5 });
    assert_eq!(state.device(sender).unwrap().priority, 200);
    let outcome = state.receive_datagram(sender, &datagram(5, 1, 2, "Desk", 0, 0), at(4));
    assert_eq!(outcome, Received::Accepted { universe: 5 });
    assert_eq!(state.device(sender).unwrap().priority, 0);
}

#[test]
fn what_the_sender_prepares_the_store_takes() {
    let from = IpAddress::V4(10, 0, 0, 3);
    let mut sender = Sender::new([7u8; 16]);
    let mut state = AppState::new();
    let mut channels = [0u8; 512];
    channels[0] = 255;
    channels[1] = 128;
    channels[511] = 9;
    for expected_sequence in 0..3u8 {
        let outgoing = sender.prepare(5, &channels);
        let outcome = state.receive_datagram(from, &outgoing.payload, at(1));
        assert_eq!(outcome, Received::Accepted { universe: 5 });
        let snapshot = state.universe(5).unwrap();
        assert_eq!(snapshot.channels, channels);
        assert_eq!(snapshot.sequence, expected_sequence);
    }
    assert_eq!(state.universes().len(), 1);
    let device = state.device(from).unwrap();
    assert_eq!(device.universes, vec![5]);
    assert_eq!(device.priority, 100);
    assert_eq!(device.source_name, "sACN Viewer");
}

#[test]
fn every_field_of_a_built_datagram_reaches_the_store() {
    let from = IpAddress::V4(10, 0, 0, 4);
    for universe in [1u16, 100, 256, 63999] {
        for priority in [0u8, 1, 100, 200] {
            for sequence in [0u8, 255] {
                let mut state = AppState::new();
                let mut channels = [0u8; 512];
                channels[2] = 3;
                channels[511] = 0xfe;
                let bytes = build(universe, &channels, "Desk", priority, sequence, &[1u8; 16]);
                let outcome = state.receive_datagram(from, &bytes, at(1));
                assert_eq!(outcome, Received::Accepted { universe });
                assert_eq!(state.universe_list(), vec![universe]);
                let snapshot = state.universe(universe).unwrap();
                assert_eq!(snapshot.universe, universe);
                assert_eq!(snapshot.channels, channels);
                assert_eq!(snapshot.sequence, sequence);
                let device = state.device(from).unwrap();
                assert_eq!(device.priority, priority);
                assert_eq!(device.universes, vec![universe]);
            }
        }
    }
}

#[test]
fn receive_datagram_last_writer_wins_across_sources() {
    let a = IpAddress::V4(10, 0, 0, 1);
    let b = IpAddress::V4(10, 0, 0, 2);
    let mut state = AppState::new();
    state.receive_datagram(a, &datagram(5, 10, 20, "A", 200, 1), at(1));
    state.receive_datagram(b, &datagram(5, 30, 40, "B", 1, 2), at(2));
    let snapshot = state.universe(5).unwrap();
    assert_eq!(snapshot.channels[0], 30);
    assert_eq!(snapshot.channels[1], 40);
    assert_eq!(snapshot.source_ip, b);
    assert_eq!(state.devices().len(), 2);
    assert_eq!(state.device(a).unwrap().universes, vec![5]);
    assert_eq!(state.device(b).unwrap().universes, vec![5]);
}

#[test]
fn handle_packet_takes_a_parsed_packet() {
    let sender = IpAddress::V6(0xfe80 << 112 | 9);
    let packet = parse(&datagram(300, 1, 2, "Desk", 77, 3)).unwrap();
    let mut state = AppState::new();
    state.handle_packet(sender, packet, at(4));
    assert_eq!(state.universe(300).unwrap().channels[1], 2);
    assert_eq!(state.device(sender).unwrap().priority, 77);
    assert_eq!(state.logs()[0].message, "Received DMX data on universe 300: 512 channels");
}

#[test]
fn new_listener_is_idle() {
    let listener = Listener::new();
    assert_eq!(listener.state(), ListenerState::Idle);
    assert_eq!(listener.bind_ip(), IpAddress::V4(0, 0, 0, 0));
}

#[test]
fn start_asks_for_the_wildcard_address_without_adapters() {
    let mut listener = Listener::new();
    let mut store = AppState::new();
    let action = listener.step(&mut store, ListenerEvent::Start, at(0));
    assert_eq!(action, ListenerAction::Bind { ip: IpAddress::V4(0, 0, 0, 0), port: 5568 });
    assert_eq!(listener.state(), ListenerState::Idle);
    assert!(store.logs().is_empty());
}

#[test]
fn start_asks_for_the_selected_adapter() {
    let mut listener = Listener::new();
    let mut store = AppState::new();
    store.set_network_adapters(vec![
        NetworkAdapter {
            name: "eth0".to_string(),
            ip: IpAddress::V4(10, 0, 0, 5),
            description: String::new(),
            is_available: true,
        },
        NetworkAdapter {
            name: "eth1".to_string(),
            ip: IpAddress::V4(10, 0, 1, 5),
            description: String::new(),
            is_available: true,
        },
    ]);
    store.update_adapter_selection(Some("eth1".to_string()));
    let action = listener.step(&mut store, ListenerEvent::Start, at(0));
    assert_eq!(action, ListenerAction::Bind { ip: IpAddress::V4(10, 0, 1, 5), port: 5568 });
    assert_eq!(listener.bind_ip(), IpAddress::V4(10, 0, 1, 5));
    let action = listener.step(&mut store, ListenerEvent::BindSucceeded, at(1));
    assert_eq!(action, ListenerAction::Join { group: IpAddress::V4(239, 255, 0, 1) });
    assert_eq!(store.logs()[0].message, "sACN receiver created on 10.0.1.5:5568");
    assert_eq!(store.logs()[0].level, LogLevel::Info);
}

#[test]
fn bind_failure_ends_the_listener() {
    let mut listener = Listener::new();
    let mut store = AppState::new();
    listener.step(&mut store, ListenerEvent::Start, at(0));
    let action =
        listener.step(&mut store, ListenerEvent::BindFailed("address in use".to_string()), at(1));
    assert_eq!(action, ListenerAction::Abort);
    assert_eq!(listener.state(), ListenerState::Failed);
    assert_eq!(store.logs().len(), 1);
    assert_eq!(store.logs()[0].level, LogLevel::Error);
    assert_eq!(store.logs()[0].message, "Failed to create sACN receiver: address in use");
    for event in [
        ListenerEvent::Start,
        ListenerEvent::BindSucceeded,
        ListenerEvent::JoinSucceeded,
        ListenerEvent::BackoffElapsed,
        ListenerEvent::Shutdown,
        ListenerEvent::ReceiveFailed("x".to_string()),
    ] {
        assert_eq!(listener.step(&mut store, event, at(2)), ListenerAction::Nothing);
        assert_eq!(listener.state(), ListenerState::Failed);
    }
    assert_eq!(store.logs().len(), 1);
}

#[test]
fn joining_walks_through_the_universes() {
    let mut listener = Listener::new();
    let mut store = AppState::new();
    listener.step(&mut store, ListenerEvent::Start, at(0));
    let action = listener.step(&mut store, ListenerEvent::BindSucceeded, at(0));
    assert_eq!(action, ListenerAction::Join { group: IpAddress::V4(239, 255, 0, 1) });
    assert_eq!(listener.state(), ListenerState::Bound { next_universe: 1 });
    let action = listener.step(&mut store, ListenerEvent::JoinSucceeded, at(0));
    assert_eq!(action, ListenerAction::Join { group: IpAddress::V4(239, 255, 0, 2) });
    assert_eq!(listener.state(), ListenerState::Bound { next_universe: 2 });
    let action =
        listener.step(&mut store, ListenerEvent::JoinFailed("no buffer space".to_string()), at(3));
    assert_eq!(action, ListenerAction::Join { group: IpAddress::V4(239, 255, 0, 3) });
    assert_eq!(listener.state(), ListenerState::Bound { next_universe: 3 });
    let last = store.logs().last().unwrap();
    assert_eq!(last.level, LogLevel::Warning);
    assert_eq!(last.message, "Failed to join the group of universe 2: no buffer space");
}

#[test]
fn listening_begins_after_the_last_universe() {
    let mut listener = Listener::new();
    let mut store = AppState::new();
    listener.step(&mut store, ListenerEvent::Start, at(0));
    listener.step(&mut store, ListenerEvent::BindSucceeded, at(0));
    for u in 1..63999u16 {
        let action = listener.step(&mut store, ListenerEvent::JoinSucceeded, at(0));
        assert_eq!(listener.state(), ListenerState::Bound { next_universe: u + 1 });
        let hi = ((u + 1) >> 8) as u8;
        let lo = ((u + 1) & 0xff) as u8;
        assert_eq!(action, ListenerAction::Join { group: IpAddress::V4(239, 255, hi, lo) });
    }
    let action = listener.step(&mut store, ListenerEvent::JoinFailed("late".to_string()), at(5));
    assert_eq!(action, ListenerAction::Receive { max_len: 1500 });
    assert_eq!(listener.state(), ListenerState::Listening);
    let logs = store.logs();
    assert_eq!(logs.len(), 3);
    assert_eq!(logs[1].message, "Failed to join the group of universe 63999: late");
    assert_eq!(logs[2].message, "sACN listener started on 0.0.0.0 port 5568");
    assert_eq!(logs[2].level, LogLevel::Info);
}

#[test]
fn a_listening_listener_takes_datagrams() {
    let (mut listener, mut store) = listening();
    let sender = IpAddress::V4(10, 0, 0, 9);
    let action = listener.step(
        &mut store,
        ListenerEvent::Datagram { sender, payload: datagram(5, 255, 128, "Desk", 100, 1) },
        at(7),
    );
    assert_eq!(action, ListenerAction::Receive { max_len: 1500 });
    assert_eq!(listener.state(), ListenerState::Listening);
    assert_eq!(store.universe(5).unwrap().channels[0], 255);
    assert_eq!(store.universe(5).unwrap().channels[1], 128);
    assert!(store.device(sender).unwrap().universes.contains(&5));
    let action = listener.step(
        &mut store,
        ListenerEvent::Datagram { sender, payload: vec![0u8; 10] },
        at(8),
    );
    assert_eq!(action, ListenerAction::Receive { max_len: 1500 });
    assert_eq!(listener.state(), ListenerState::Listening);
    assert_eq!(store.logs().last().unwrap().message, "Dropped malformed packet: too short");
}

#[test]
fn a_failed_receive_is_followed_by_a_wait() {
    let (mut listener, mut store) = listening();
    let action =
        listener.step(&mut store, ListenerEvent::ReceiveFailed("timed out".to_string()), at(7));
    assert_eq!(action, ListenerAction::Sleep { millis: 50 });
    assert_eq!(listener.state(), ListenerState::Backoff);
    let last = store.logs().last().unwrap();
    assert_eq!(last.level, LogLevel::Error);
    assert_eq!(last.message, "sACN receive error: timed out");
    let action = listener.step(&mut store, ListenerEvent::BackoffElapsed, at(8));
    assert_eq!(action, ListenerAction::Receive { max_len: 1500 });
    assert_eq!(listener.state(), ListenerState::Listening);
}

#[test]
fn a_waiting_listener_takes_no_datagram() {
    let (mut listener, mut store) = listening();
    listener.step(&mut store, ListenerEvent::ReceiveFailed("x".to_string()), at(7));
    let lines = store.logs().len();
    let action = listener.step(
        &mut store,
        ListenerEvent::Datagram {
            sender: IpAddress::V4(10, 0, 0, 9),
            payload: datagram(5, 255, 128, "Desk", 100, 1),
        },
        at(8),
    );
    assert_eq!(action, ListenerAction::Nothing);
    assert_eq!(listener.state(), ListenerState::Backoff);
    assert!(store.universes().is_empty());
    assert_eq!(store.logs().len(), lines);
}

#[test]
fn shutdown_stops_from_every_state_that_runs() {
    let mut store = AppState::new();
    let mut idle = Listener::new();
    assert_eq!(idle.step(&mut store, ListenerEvent::Shutdown, at(0)), ListenerAction::Close);
    assert_eq!(idle.state(), ListenerState::Stopped);
    assert_eq!(idle.step(&mut store, ListenerEvent::Shutdown, at(0)), ListenerAction::Nothing);
    assert_eq!(idle.step(&mut store, ListenerEvent::Start, at(0)), ListenerAction::Nothing);
    assert_eq!(idle.state(), ListenerState::Stopped);

    let mut bound = Listener::new();
    bound.step(&mut store, ListenerEvent::BindSucceeded, at(0));
    assert_eq!(bound.step(&mut store, ListenerEvent::Shutdown, at(0)), ListenerAction::Close);
    assert_eq!(bound.state(), ListenerState::Stopped);

    let (mut running, mut store) = listening();
    assert_eq!(running.step(&mut store, ListenerEvent::Shutdown, at(0)), ListenerAction::Close);
    assert_eq!(running.state(), ListenerState::Stopped);

    let (mut waiting, mut store) = listening();
    waiting.step(&mut store, ListenerEvent::ReceiveFailed("x".to_string()), at(0));
    assert_eq!(waiting.step(&mut store, ListenerEvent::Shutdown, at(0)), ListenerAction::Close);
    assert_eq!(waiting.state(), ListenerState::Stopped);
}

#[test]
fn events_out_of_place_change_nothing() {
    let mut listener = Listener::new();
    let mut store = AppState::new();
    for event in [
        ListenerEvent::JoinSucceeded,
        ListenerEvent::JoinFailed("x".to_string()),
        ListenerEvent::BackoffElapsed,
        ListenerEvent::ReceiveFailed("x".to_string()),
        ListenerEvent::Datagram { sender: IpAddress::V4(1, 1, 1, 1), payload: vec![] },
    ] {
        assert_eq!(listener.step(&mut store, event, at(0)), ListenerAction::Nothing);
        assert_eq!(listener.state(), ListenerState::Idle);
    }
    assert!(store.logs().is_empty());
}
