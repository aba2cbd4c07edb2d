use signaling::connection::{
    Action, CloseReason, Connection, Frame, Payload, Phase, CLIENT_TIMEOUT_MS,
    HEARTBEAT_INTERVAL_MS,
};
use signaling::registry::PeerRegistry;

fn text(s: &str) -> Frame {
    Frame::Text(s.to_string())
}

fn reply(s: &str) -> Action {
    Action::Send(Payload::Text(s.to_string()))
}

fn identified(reg: &mut PeerRegistry, id: u64, name: &str) -> Connection {
    let mut c = Connection::new(id, 0);
    assert_eq!(c.on_frame(reg, text(&format!("HELLO {}", name)), 0), reply("HELLO"));
    c
}

#[test]
fn handshake_scenario() {
    let mut reg = PeerRegistry::new();
    let mut c = Connection::new(1, 0);
    assert_eq!(c.phase, Phase::Connecting);
    assert_eq!(c.on_frame(&mut reg, text("HELLO alice"), 0), reply("HELLO"));
    assert_eq!(c.phase, Phase::Identified);
    assert_eq!(c.identity.as_deref(), Some("alice"));
    assert_eq!(reg.connection_of("alice"), Some(1));

    let a = c.on_frame(&mut reg, text("HELLO bob"), 0);
    assert_eq!(a, Action::Close(Some(CloseReason::InvalidProtocol)));
    assert_eq!(c.phase, Phase::Closed);
    assert_eq!(reg.connection_of("bob"), None);
    assert_eq!(reg.connection_of("alice"), None);
}

#[test]
fn handshake_with_taken_identity_is_rejected() {
    let mut reg = PeerRegistry::new();
    let _alice = identified(&mut reg, 1, "alice");
    let mut other = Connection::new(2, 0);
    let a = other.on_frame(&mut reg, text("HELLO alice"), 0);
    assert_eq!(a, Action::Close(Some(CloseReason::InvalidPeer)));
    assert_eq!(other.phase, Phase::Closed);
    assert_eq!(reg.connection_of("alice"), Some(1));
}

#[test]
fn pairing_and_relay_scenario() {
    let mut reg = PeerRegistry::new();
    let mut alice = identified(&mut reg, 1, "alice");
    let mut bob = identified(&mut reg, 2, "bob");

    assert_eq!(alice.on_frame(&mut reg, text("SESSION bob"), 0), reply("SESSION_OK"));

    let offer = "{\"type\": \"offer\", \"sdp\": \"v=0 o=- 1 2 IN IP4 0.0.0.0\"}";
    assert_eq!(
        alice.on_frame(&mut reg, text(offer), 0),
        Action::Forward(2, Payload::Text(offer.to_string()))
    );
    assert_eq!(
        bob.on_frame(&mut reg, text("ANSWER sdp-blob"), 0),
        Action::Forward(1, Payload::Text("ANSWER sdp-blob".to_string()))
    );
    assert_eq!(
        bob.on_frame(&mut reg, Frame::Binary(vec![0, 159, 255]), 0),
        Action::Forward(1, Payload::Binary(vec![0, 159, 255]))
    );
}

#[test]
fn session_with_unknown_peer_is_rejected_but_not_fatal() {
    let mut reg = PeerRegistry::new();
    let mut alice = identified(&mut reg, 1, "alice");
    assert_eq!(alice.on_frame(&mut reg, text("SESSION nobody"), 0), reply("SESSION_REJECTED"));
    assert_eq!(alice.phase, Phase::Identified);
    assert_eq!(reg.lookup_partner("alice"), None);
}

#[test]
fn session_with_busy_peer_is_rejected() {
    let mut reg = PeerRegistry::new();
    let mut alice = identified(&mut reg, 1, "alice");
    let _bob = identified(&mut reg, 2, "bob");
    let mut carol = identified(&mut reg, 3, "carol");
    assert_eq!(alice.on_frame(&mut reg, text("SESSION bob"), 0), reply("SESSION_OK"));
    assert_eq!(carol.on_frame(&mut reg, text("SESSION bob"), 0), reply("SESSION_REJECTED"));
}

#[test]
fn session_before_handshake_is_a_protocol_violation() {
    let mut reg = PeerRegistry::new();
    let mut c = Connection::new(1, 0);
    let a = c.on_frame(&mut reg, text("SESSION bob"), 0);
    assert_eq!(a, Action::Close(Some(CloseReason::InvalidProtocol)));
    assert_eq!(c.phase, Phase::Closed);
}

#[test]
fn payload_before_handshake_is_a_protocol_violation() {
    let mut reg = PeerRegistry::new();
    let mut c = Connection::new(1, 0);
    let a = c.on_frame(&mut reg, text("MALFORMED"), 0);
    assert_eq!(a, Action::Close(Some(CloseReason::InvalidProtocol)));
    assert_eq!(c.phase, Phase::Closed);
}

#[test]
fn unpaired_payload_is_echoed() {
    let mut reg = PeerRegistry::new();
    let mut alice = identified(&mut reg, 1, "alice");
    assert_eq!(alice.on_frame(&mut reg, text("MALFORMED"), 0), reply("MALFORMED"));
    assert_eq!(alice.on_frame(&mut reg, text("  ICE a b c "), 0), reply("  ICE a b c "));
    assert_eq!(
        alice.on_frame(&mut reg, Frame::Binary(vec![1, 2]), 0),
        Action::Send(Payload::Binary(vec![1, 2]))
    );
}

#[test]
fn hello_is_case_sensitive() {
    let mut reg = PeerRegistry::new();
    let mut c = Connection::new(1, 0);
    let a = c.on_frame(&mut reg, text("hello alice"), 0);
    assert_eq!(a, Action::Close(Some(CloseReason::InvalidProtocol)));
    assert_eq!(reg.connection_of("alice"), None);
}

#[test]
fn ping_is_answered_and_refreshes_liveness() {
    let mut reg = PeerRegistry::new();
    let mut c = Connection::new(1, 0);
    assert_eq!(c.on_frame(&mut reg, Frame::Ping(vec![7, 8]), 4000), Action::Pong(vec![7, 8]));
    assert_eq!(c.last_seen, 4000);
    assert_eq!(c.on_frame(&mut reg, Frame::Pong, 9000), Action::Nothing);
    assert_eq!(c.last_seen, 9000);
    assert_eq!(c.phase, Phase::Connecting);
}

#[test]
fn heartbeat_timeout_scenario() {
    assert!(CLIENT_TIMEOUT_MS > HEARTBEAT_INTERVAL_MS);
    let mut reg = PeerRegistry::new();
    let mut alice = identified(&mut reg, 1, "alice");
    let _bob = identified(&mut reg, 2, "bob");
    assert_eq!(alice.on_frame(&mut reg, text("SESSION bob"), 0), reply("SESSION_OK"));

    assert_eq!(alice.on_tick(&mut reg, HEARTBEAT_INTERVAL_MS), Action::Ping);
    assert_eq!(alice.on_tick(&mut reg, CLIENT_TIMEOUT_MS), Action::Ping);
    assert_eq!(alice.phase, Phase::Identified);
    assert_eq!(alice.on_tick(&mut reg, CLIENT_TIMEOUT_MS + 1), Action::Drop);
    assert_eq!(alice.phase, Phase::Closed);
    assert_eq!(reg.connection_of("alice"), None);
    assert_eq!(reg.lookup_partner("bob"), None);
    assert_eq!(alice.on_tick(&mut reg, CLIENT_TIMEOUT_MS + 2), Action::Nothing);
}

#[test]
fn answered_probes_keep_the_connection_alive() {
    let mut reg = PeerRegistry::new();
    let mut c = identified(&mut reg, 1, "alice");
    assert_eq!(c.on_tick(&mut reg, 5000), Action::Ping);
    assert_eq!(c.on_frame(&mut reg, Frame::Pong, 5001), Action::Nothing);
    assert_eq!(c.on_tick(&mut reg, 15000), Action::Ping);
    assert_eq!(c.phase, Phase::Identified);
    assert_eq!(reg.connection_of("alice"), Some(1));
}

#[test]
fn close_frame_deregisters_and_unpairs() {
    let mut reg = PeerRegistry::new();
    let mut alice = identified(&mut reg, 1, "alice");
    let mut bob = identified(&mut reg, 2, "bob");
    assert_eq!(alice.on_frame(&mut reg, text("SESSION bob"), 0), reply("SESSION_OK"));
    assert_eq!(alice.on_frame(&mut reg, Frame::Close, 0), Action::Close(None));
    assert_eq!(alice.phase, Phase::Closed);
    assert_eq!(reg.connection_of("alice"), None);
    assert_eq!(reg.lookup_partner("bob"), None);
    assert_eq!(bob.on_frame(&mut reg, text("still there?"), 0), reply("still there?"));
}

#[test]
fn unsupported_frame_closes() {
    let mut reg = PeerRegistry::new();
    let mut alice = identified(&mut reg, 1, "alice");
    assert_eq!(alice.on_frame(&mut reg, Frame::Other, 0), Action::Close(None));
    assert_eq!(alice.phase, Phase::Closed);
    assert_eq!(reg.connection_of("alice"), None);
}

#[test]
fn closed_connection_ignores_frames() {
    let mut reg = PeerRegistry::new();
    let mut alice = identified(&mut reg, 1, "alice");
    alice.terminate(&mut reg);
    assert_eq!(alice.on_frame(&mut reg, text("HELLO alice"), 0), Action::Nothing);
    assert_eq!(alice.on_frame(&mut reg, Frame::Ping(vec![1]), 0), Action::Nothing);
    assert_eq!(reg.connection_of("alice"), None);
}
