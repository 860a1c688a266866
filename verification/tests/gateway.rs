use ed25519_compact::KeyPair;
use ed25519_compact::Seed;
use ic_websocket_gateway::coordinator::GatewayServer;
use ic_websocket_gateway::keys::parse_key_sequence;
use ic_websocket_gateway::poller::CanisterPoller;
use ic_websocket_gateway::session::GatewaySession;
use ic_websocket_gateway::session::HandshakeOutcome;
use ic_websocket_gateway::session::SessionState;
use ic_websocket_gateway::wire::session_record_matches;
use ic_websocket_gateway::wire::CertMessages;
use ic_websocket_gateway::wire::EncodedMessage;
use ic_websocket_gateway::wire::SessionData;

fn keypair() -> KeyPair {
    KeyPair::from_seed(Seed::new([7u8; 32]))
}

fn batch(messages: Vec<EncodedMessage>) -> CertMessages {
    CertMessages {
        messages,
        cert: vec![0xca, 0xfe],
        tree: vec![0xbe, 0xef],
    }
}

fn message(client_id: u64, key: &str, val: &[u8]) -> EncodedMessage {
    EncodedMessage {
        client_id,
        key: key.to_string(),
        val: val.to_vec(),
    }
}

#[test]
fn key_sequence_plain() {
    assert_eq!(parse_key_sequence("foo_0"), Ok(0));
    assert_eq!(parse_key_sequence("foo_5"), Ok(5));
    assert_eq!(parse_key_sequence("a_b_12"), Ok(12));
    assert_eq!(parse_key_sequence("5"), Ok(5));
    assert_eq!(parse_key_sequence("foo_007"), Ok(7));
}

#[test]
fn key_sequence_largest_nonce() {
    assert_eq!(
        parse_key_sequence("k_18446744073709551615"),
        Ok(u64::MAX)
    );
    assert!(parse_key_sequence("k_18446744073709551616").is_err());
    assert!(parse_key_sequence("k_99999999999999999999999").is_err());
}

#[test]
fn key_sequence_malformed() {
    assert!(parse_key_sequence("").is_err());
    assert!(parse_key_sequence("foo_").is_err());
    assert!(parse_key_sequence("foo").is_err());
    assert!(parse_key_sequence("foo_12a").is_err());
    assert!(parse_key_sequence("foo_1 2").is_err());
    assert!(parse_key_sequence("_").is_err());
}

#[test]
fn valid_handshake_opens_session() {
    let kp = keypair();
    let payload = b"client-and-canister".to_vec();
    let signature = kp.sk.sign(&payload, None).to_vec();
    let public_key = kp.pk.to_vec();

    let mut session = GatewaySession::new(0);
    assert_eq!(session.state, SessionState::AwaitingHandshake);
    let outcome = session.process_handshake(
        &payload,
        &signature,
        &public_key,
        7,
        "aaaa-aa".to_string(),
        1234,
    );
    assert_eq!(session.state, SessionState::Open);
    assert_eq!(session.client_id, Some(7));
    assert_eq!(session.canister_id, Some("aaaa-aa".to_string()));
    match outcome {
        HandshakeOutcome::Accepted { record } => {
            assert_eq!(record.client_id, 7);
            assert_eq!(record.canister_id, "aaaa-aa");
            assert_eq!(record.timestamp, 1234);
        }
        other => panic!("expected Accepted, got {:?}", other),
    }
}

#[test]
fn forged_signature_is_rejected() {
    let kp = keypair();
    let payload = b"client-and-canister".to_vec();
    let mut signature = kp.sk.sign(&payload, None).to_vec();
    signature[0] ^= 1;
    let public_key = kp.pk.to_vec();

    let mut session = GatewaySession::new(0);
    let outcome = session.process_handshake(
        &payload,
        &signature,
        &public_key,
        7,
        "aaaa-aa".to_string(),
        1234,
    );
    assert_eq!(session.state, SessionState::AwaitingHandshake);
    assert_eq!(session.client_id, None);
    assert_eq!(session.canister_id, None);
    match outcome {
        HandshakeOutcome::Rejected { response } => {
            assert_eq!(
                response,
                "{\"status\":\"error\",\"message\":\"Invalid signature\"}"
            );
        }
        other => panic!("expected Rejected, got {:?}", other),
    }
}

#[test]
fn signature_over_different_payload_is_rejected() {
    let kp = keypair();
    let signature = kp.sk.sign(b"one payload", None).to_vec();
    let public_key = kp.pk.to_vec();

    let mut session = GatewaySession::new(0);
    let outcome = session.process_handshake(
        &b"another payload".to_vec(),
        &signature,
        &public_key,
        7,
        "aaaa-aa".to_string(),
        1234,
    );
    assert!(matches!(outcome, HandshakeOutcome::Rejected { .. }));
    assert_eq!(session.state, SessionState::AwaitingHandshake);
}

#[test]
fn failed_handshake_may_be_retried() {
    let kp = keypair();
    let payload = b"payload".to_vec();
    let good = kp.sk.sign(&payload, None).to_vec();
    let mut bad = good.clone();
    bad[10] ^= 0xff;
    let public_key = kp.pk.to_vec();

    let mut session = GatewaySession::new(0);
    let first = session.process_handshake(
        &payload,
        &bad,
        &public_key,
        7,
        "aaaa-aa".to_string(),
        1,
    );
    assert!(matches!(first, HandshakeOutcome::Rejected { .. }));
    let second = session.process_handshake(
        &payload,
        &good,
        &public_key,
        7,
        "aaaa-aa".to_string(),
        2,
    );
    assert!(matches!(second, HandshakeOutcome::Accepted { .. }));
    assert_eq!(session.state, SessionState::Open);
}

#[test]
fn open_and_closed_sessions_ignore_handshakes() {
    let mut session = GatewaySession::new(0);
    let first = session.handshake(7, "aaaa-aa".to_string(), true, 1);
    assert!(matches!(first, HandshakeOutcome::Accepted { .. }));
    let again = session.handshake(9, "bbbb-bb".to_string(), true, 2);
    assert!(matches!(again, HandshakeOutcome::Ignored));
    assert_eq!(session.client_id, Some(7));

    session.close();
    assert_eq!(session.state, SessionState::Closed);
    let after_close = session.handshake(9, "bbbb-bb".to_string(), true, 3);
    assert!(matches!(after_close, HandshakeOutcome::Ignored));
    assert_eq!(session.state, SessionState::Closed);
}

#[test]
fn can_relay_only_when_open() {
    let mut session = GatewaySession::new(0);
    assert!(!session.can_relay());
    session.handshake(7, "aaaa-aa".to_string(), true, 1);
    assert!(session.can_relay());
    session.close();
    assert!(!session.can_relay());
}

#[test]
fn poll_delivers_and_advances_nonce() {
    let mut poller = CanisterPoller::new("aaaa-aa".to_string());
    poller.add_session(7, 0);
    assert_eq!(poller.next_nonce, 0);

    let deliveries = poller.process_batch(batch(vec![message(7, "foo_0", b"hi")]));
    assert_eq!(deliveries.len(), 1);
    assert_eq!(deliveries[0].client_id, 7);
    assert_eq!(deliveries[0].session_id, 0);
    assert_eq!(deliveries[0].frame.key, "foo_0");
    assert_eq!(deliveries[0].frame.val, b"hi".to_vec());
    assert_eq!(deliveries[0].frame.cert, vec![0xca, 0xfe]);
    assert_eq!(deliveries[0].frame.tree, vec![0xbe, 0xef]);
    assert_eq!(poller.next_nonce, 1);
}

#[test]
fn per_client_order_is_kept() {
    let mut poller = CanisterPoller::new("aaaa-aa".to_string());
    poller.add_session(7, 0);
    poller.add_session(9, 1);

    let deliveries = poller.process_batch(batch(vec![
        message(7, "foo_5", b"five"),
        message(9, "foo_6", b"other"),
        message(7, "foo_7", b"seven"),
    ]));
    let to_seven: Vec<_> = deliveries.iter().filter(|d| d.client_id == 7).collect();
    assert_eq!(to_seven.len(), 2);
    assert_eq!(to_seven[0].frame.key, "foo_5");
    assert_eq!(to_seven[1].frame.key, "foo_7");
    assert_eq!(poller.next_nonce, 8);
}

#[test]
fn unrouted_messages_are_dropped() {
    let mut poller = CanisterPoller::new("aaaa-aa".to_string());
    poller.add_session(7, 0);

    let deliveries = poller.process_batch(batch(vec![
        message(9, "foo_0", b"nobody"),
        message(7, "foo_1", b"hi"),
    ]));
    assert_eq!(deliveries.len(), 1);
    assert_eq!(deliveries[0].client_id, 7);
    // The dropped message still advances the nonce.
    assert_eq!(poller.next_nonce, 2);
}

#[test]
fn malformed_key_skips_only_that_message() {
    let mut poller = CanisterPoller::new("aaaa-aa".to_string());
    poller.add_session(7, 0);

    let deliveries = poller.process_batch(batch(vec![
        message(7, "foo_", b"bad"),
        message(7, "foo_3", b"good"),
    ]));
    assert_eq!(deliveries.len(), 1);
    assert_eq!(deliveries[0].frame.key, "foo_3");
    assert_eq!(poller.next_nonce, 4);
}

#[test]
fn empty_batch_leaves_nonce_alone() {
    let mut poller = CanisterPoller::new("aaaa-aa".to_string());
    poller.add_session(7, 0);
    poller.process_batch(batch(vec![message(7, "foo_9", b"x")]));
    assert_eq!(poller.next_nonce, 10);

    let deliveries = poller.process_batch(batch(vec![]));
    assert!(deliveries.is_empty());
    assert_eq!(poller.next_nonce, 10);
}

#[test]
fn nonce_never_moves_backwards() {
    let mut poller = CanisterPoller::new("aaaa-aa".to_string());
    poller.add_session(7, 0);
    poller.process_batch(batch(vec![message(7, "foo_9", b"x")]));
    assert_eq!(poller.next_nonce, 10);

    poller.process_batch(batch(vec![message(7, "foo_2", b"late")]));
    assert_eq!(poller.next_nonce, 10);
}

#[test]
fn reconnect_overwrites_routing() {
    let mut poller = CanisterPoller::new("aaaa-aa".to_string());
    poller.add_session(7, 0);
    poller.add_session(7, 5);

    let deliveries = poller.process_batch(batch(vec![message(7, "foo_0", b"hi")]));
    assert_eq!(deliveries.len(), 1);
    assert_eq!(deliveries[0].session_id, 5);
}

#[test]
fn register_creates_poller_once() {
    let mut server = GatewayServer::new();
    let a = server.accept();
    let b = server.accept();
    assert_eq!(a.id, 0);
    assert_eq!(b.id, 1);
    assert_eq!(a.state, SessionState::AwaitingHandshake);

    let created = server.register(a.id, 7, "aaaa-aa".to_string());
    assert!(created);
    assert_eq!(server.connected_canisters.len(), 1);
    assert_eq!(server.connected_canisters[0].canister_id, "aaaa-aa");
    assert_eq!(server.connected_canisters[0].table.get(&7), Some(&0));

    // A second client on the same canister reuses the poller.
    let created_again = server.register(b.id, 9, "aaaa-aa".to_string());
    assert!(!created_again);
    assert_eq!(server.connected_canisters.len(), 1);
    assert_eq!(server.connected_canisters[0].table.get(&7), Some(&0));
    assert_eq!(server.connected_canisters[0].table.get(&9), Some(&1));
}

#[test]
fn distinct_canisters_get_distinct_pollers() {
    let mut server = GatewayServer::new();
    let a = server.accept();
    let b = server.accept();
    assert!(server.register(a.id, 7, "aaaa-aa".to_string()));
    assert!(server.register(b.id, 7, "bbbb-bb".to_string()));
    assert_eq!(server.connected_canisters.len(), 2);
    assert_eq!(server.connected_canisters[0].canister_id, "aaaa-aa");
    assert_eq!(server.connected_canisters[1].canister_id, "bbbb-bb");
}

#[test]
fn disconnect_is_idempotent() {
    let mut server = GatewayServer::new();
    let a = server.accept();
    server.register(a.id, 7, "aaaa-aa".to_string());

    let cleanup = server.on_disconnect(a.id);
    let info = cleanup.expect("first disconnect finds the bookkeeping");
    assert_eq!(info.client_id, 7);
    assert_eq!(info.canister_id, "aaaa-aa");

    // The second call is a no-op.
    assert!(server.on_disconnect(a.id).is_none());
}

#[test]
fn disconnect_before_handshake_is_a_no_op() {
    let mut server = GatewayServer::new();
    let a = server.accept();
    assert!(server.on_disconnect(a.id).is_none());
}

#[test]
fn wrong_length_public_key_is_rejected() {
    let kp = keypair();
    let payload = b"payload".to_vec();
    let signature = kp.sk.sign(&payload, None).to_vec();
    let truncated_key = kp.pk.to_vec()[..30].to_vec();

    let mut session = GatewaySession::new(0);
    let outcome = session.process_handshake(
        &payload,
        &signature,
        &truncated_key,
        7,
        "aaaa-aa".to_string(),
        1,
    );
    assert!(matches!(outcome, HandshakeOutcome::Rejected { .. }));
    assert_eq!(session.state, SessionState::AwaitingHandshake);
}

#[test]
fn record_matches_its_canister() {
    let record = SessionData {
        client_id: 7,
        canister_id: "aaaa-aa".to_string(),
        timestamp: 99,
    };
    assert!(session_record_matches(&record, &"aaaa-aa".to_string()));
    assert!(!session_record_matches(&record, &"bbbb-bb".to_string()));
}

#[test]
fn end_to_end_open_poll_disconnect() {
    let kp = keypair();
    let payload = b"binding".to_vec();
    let signature = kp.sk.sign(&payload, None).to_vec();
    let public_key = kp.pk.to_vec();

    let mut server = GatewayServer::new();
    let mut session = server.accept();
    let id = session.id;
    let outcome = session.process_handshake(
        &payload,
        &signature,
        &public_key,
        7,
        "aaaa-aa".to_string(),
        99,
    );
    let record = match outcome {
        HandshakeOutcome::Accepted { record } => record,
        other => panic!("expected Accepted, got {:?}", other),
    };
    assert_eq!(record.canister_id, "aaaa-aa");
    assert!(server.register(id, 7, record.canister_id.clone()));

    let deliveries = server.connected_canisters[0]
        .process_batch(batch(vec![message(7, "foo_0", b"hi")]));
    assert_eq!(deliveries.len(), 1);
    assert_eq!(deliveries[0].session_id, id);
    assert_eq!(server.connected_canisters[0].next_nonce, 1);

    let cleanup = server.on_disconnect(id).expect("bookkeeping present");
    assert_eq!(cleanup.client_id, 7);
    assert_eq!(cleanup.canister_id, "aaaa-aa");
}
