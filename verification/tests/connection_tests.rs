use mc_honeypot::connection::{
    initial, step, Action, ConnConfig, ConnState, ConnectionEvent, StreamEvent,
};
use mc_honeypot::identity::offline_identity;
use mc_honeypot::packet::{read_packet, write_packet};
use mc_honeypot::strcodec::{prefix_str_len, read_string};
use mc_honeypot::varint::write_varint;

const STATUS_JSON: &str = "{\"version\":{\"name\":\"1.20.2\",\"protocol\":764},\"players\":{\"max\":20,\"online\":0}}";

fn test_config() -> ConnConfig {
    ConnConfig {
        status_json: String::from(STATUS_JSON),
        remote_ip: String::from("127.0.0.1"),
    }
}

fn handshake_packet(next_state: i32) -> StreamEvent {
    let mut payload = write_varint(764);
    payload.extend_from_slice(&prefix_str_len("localhost"));
    payload.push(0x63);
    payload.push(0xdd);
    payload.extend_from_slice(&write_varint(next_state));
    StreamEvent::Packet { packet_id: 0, payload }
}

#[test]
fn status_flow_end_to_end() {
    let cfg = test_config();
    let (state, action) = initial();
    assert_eq!(state, ConnState::AwaitHandshake);
    assert_eq!(action, Action::ReadPacket);

    let (state, action) = step(state, handshake_packet(1), &cfg);
    assert_eq!(state, ConnState::AwaitStatusRequest);
    assert_eq!(action, Action::ReadPacket);

    let (state, action) = step(state, StreamEvent::Packet { packet_id: 0, payload: vec![] }, &cfg);
    assert_eq!(state, ConnState::SendingStatus);
    let bytes = match action {
        Action::Send { bytes } => bytes,
        other => panic!("expected a send, got {:?}", other),
    };
    assert_eq!(bytes, write_packet(0, &prefix_str_len(STATUS_JSON)));
    // The response payload is one length-prefixed string holding valid JSON.
    let (id, payload, _) = read_packet(&bytes, 0).unwrap();
    assert_eq!(id, 0);
    let (document, _) = read_string(&payload, 0).unwrap();
    assert!(serde_json::from_str::<serde_json::Value>(&document).is_ok());

    let (state, action) = step(state, StreamEvent::SendOk, &cfg);
    assert_eq!(state, ConnState::AwaitPing);
    assert_eq!(action, Action::ReadPacket);

    let ping = vec![0u8; 8];
    let (state, action) = step(
        state,
        StreamEvent::Packet { packet_id: 1, payload: ping.clone() },
        &cfg,
    );
    assert_eq!(state, ConnState::SendingPong);
    assert_eq!(action, Action::Send { bytes: write_packet(1, &ping) });

    let (state, action) = step(state, StreamEvent::SendOk, &cfg);
    assert_eq!(state, ConnState::Done);
    assert_eq!(
        action,
        Action::Finish {
            event: Some(ConnectionEvent::StatusProbe { remote_ip: String::from("127.0.0.1") })
        }
    );
}

#[test]
fn login_flow_end_to_end() {
    let cfg = test_config();
    let (state, _) = initial();

    let (state, action) = step(state, handshake_packet(2), &cfg);
    assert_eq!(state, ConnState::AwaitLoginStart);
    assert_eq!(action, Action::ReadPacket);

    let (state, action) = step(
        state,
        StreamEvent::Packet { packet_id: 0, payload: prefix_str_len("Alex") },
        &cfg,
    );
    assert_eq!(state, ConnState::SendingLoginSuccess { username: String::from("Alex") });
    let bytes = match action {
        Action::Send { bytes } => bytes,
        other => panic!("expected a send, got {:?}", other),
    };
    let (id, payload, consumed) = read_packet(&bytes, 0).unwrap();
    assert_eq!(id, 2);
    assert_eq!(consumed, bytes.len());
    assert_eq!(&payload[..16], offline_identity("Alex").as_slice());
    let (username, used) = read_string(&payload, 16).unwrap();
    assert_eq!(username, "Alex");
    // The trailing varint zero: the empty property list.
    assert_eq!(&payload[16 + used..], &[0x00]);

    let (state, action) = step(state, StreamEvent::SendOk, &cfg);
    assert_eq!(state, ConnState::Done);
    assert_eq!(
        action,
        Action::Finish {
            event: Some(ConnectionEvent::LoginAttempt {
                remote_ip: String::from("127.0.0.1"),
                username: String::from("Alex"),
            })
        }
    );
}

#[test]
fn wrong_handshake_id_drops_silently() {
    let cfg = test_config();
    let (state, _) = initial();
    let (state, action) = step(state, StreamEvent::Packet { packet_id: 7, payload: vec![] }, &cfg);
    assert_eq!(state, ConnState::Done);
    assert_eq!(action, Action::Finish { event: None });
}

#[test]
fn unknown_target_drops_silently() {
    let cfg = test_config();
    let (state, _) = initial();
    let (state, action) = step(state, handshake_packet(3), &cfg);
    assert_eq!(state, ConnState::Done);
    assert_eq!(action, Action::Finish { event: None });
}

#[test]
fn failed_status_send_still_reports_probe() {
    let cfg = test_config();
    let (state, _) = initial();
    let (state, _) = step(state, handshake_packet(1), &cfg);
    let (state, _) = step(state, StreamEvent::Packet { packet_id: 0, payload: vec![] }, &cfg);
    let (state, action) = step(state, StreamEvent::SendFailed, &cfg);
    assert_eq!(state, ConnState::Done);
    assert_eq!(
        action,
        Action::Finish {
            event: Some(ConnectionEvent::StatusProbe { remote_ip: String::from("127.0.0.1") })
        }
    );
}

#[test]
fn malformed_ping_still_reports_probe() {
    let cfg = test_config();
    let (state, _) = initial();
    let (state, _) = step(state, handshake_packet(1), &cfg);
    let (state, _) = step(state, StreamEvent::Packet { packet_id: 0, payload: vec![] }, &cfg);
    let (state, _) = step(state, StreamEvent::SendOk, &cfg);
    // A ping with the wrong payload size is not echoed; the probe stands.
    let (state, action) = step(
        state,
        StreamEvent::Packet { packet_id: 1, payload: vec![0u8; 3] },
        &cfg,
    );
    assert_eq!(state, ConnState::Done);
    assert_eq!(
        action,
        Action::Finish {
            event: Some(ConnectionEvent::StatusProbe { remote_ip: String::from("127.0.0.1") })
        }
    );
}

#[test]
fn failed_login_send_drops_silently() {
    let cfg = test_config();
    let (state, _) = initial();
    let (state, _) = step(state, handshake_packet(2), &cfg);
    let (state, _) = step(
        state,
        StreamEvent::Packet { packet_id: 0, payload: prefix_str_len("Alex") },
        &cfg,
    );
    let (state, action) = step(state, StreamEvent::SendFailed, &cfg);
    assert_eq!(state, ConnState::Done);
    assert_eq!(action, Action::Finish { event: None });
}

#[test]
fn read_failure_before_handshake_drops_silently() {
    let cfg = test_config();
    let (state, _) = initial();
    let (state, action) = step(state, StreamEvent::ReadFailed, &cfg);
    assert_eq!(state, ConnState::Done);
    assert_eq!(action, Action::Finish { event: None });
}

#[test]
fn event_messages() {
    let probe = ConnectionEvent::StatusProbe { remote_ip: String::from("1.2.3.4") };
    assert_eq!(probe.message(), "STATUS `1.2.3.4`");
    let login = ConnectionEvent::LoginAttempt {
        remote_ip: String::from("1.2.3.4"),
        username: String::from("Alex"),
    };
    assert_eq!(login.message(), "JOIN `1.2.3.4`, username: `Alex`");
}
