use sha2::Digest;
use voynich::chat::ChatMessage;
use voynich::connection::{parse_dial_address, AcceptorHello, DialerHello, LiveConnection, LiveStep};
use voynich::engine::{
    ConnectionDirection, ConnectionEvent, Engine, EngineEvent, NetworkEvent,
};
use voynich::handshake::HandshakeError;
use voynich::identity::ServiceId;

struct Party {
    id: ServiceId,
    engine: Engine,
}

fn party(address: &str) -> Party {
    let signing_key = ed25519_dalek::SigningKey::generate(&mut rand::rngs::OsRng);
    let tor_id = tor_client_lib::key::TorServiceId::from(signing_key.verifying_key());
    let id = ServiceId::parse(&tor_id.as_str().to_uppercase()).unwrap();
    let hash = sha2::Sha512::digest(signing_key.as_bytes());
    let mut key = hash.to_vec();
    key[0] &= 248;
    key[31] &= 127;
    key[31] |= 64;
    let engine = Engine::new(id.clone(), address.to_string(), key);
    Party { id, engine }
}

fn strip_frame(frame: &[u8]) -> Vec<u8> {
    assert!(frame.len() > 4);
    frame[4..].to_vec()
}

/// Runs the whole handshake between two in-memory parties and returns both
/// live connections.
fn run_handshake(a: &Party, b: &Party) -> (LiveConnection, LiveConnection) {
    // Key exchange: A (dialer) sends `01 00 || pk_A`, B answers in kind.
    let (dialer, hello_a) = DialerHello::start(
        a.id.clone(),
        b.id.clone(),
        "b.onion:3000".to_string(),
    );
    assert_eq!(&hello_a[..2], &[1u8, 0u8]);
    assert_eq!(hello_a.len(), 34);

    let acceptor = AcceptorHello::start(b.id.clone(), "peer:1".to_string());
    let (acceptor, hello_b) = acceptor.on_hello(&hello_a).expect("acceptor accepts hello");
    assert_eq!(&hello_b[..2], &[1u8, 0u8]);

    let (dialer, auth_data_a) = dialer.on_hello(&hello_b).expect("dialer accepts hello");

    // A signs through its engine's oracle and sends its auth record.
    let signature_a = a.engine.sign(&auth_data_a);
    let (dialer, auth_record_a) = dialer.on_signature(&signature_a);

    // B verifies A's record, signs its own, and goes live.
    let (acceptor, auth_data_b) = acceptor
        .on_auth_record(Some(&strip_frame(&auth_record_a)))
        .expect("acceptor verifies the dialer");
    let signature_b = b.engine.sign(&auth_data_b);
    let (live_b, auth_record_b) = acceptor.on_signature(&signature_b);

    // A verifies B's record.
    let dialer = dialer
        .on_auth_record(Some(&strip_frame(&auth_record_b)))
        .expect("dialer verifies the acceptor");

    // B's upper layer admits the peer; the go-ahead reaches A.
    let authorized_frame = match live_b.on_inbox(Some(ConnectionEvent::ConnectionAuthorized)) {
        LiveStep::Send(frame) => frame,
        other => panic!("expected a record to send, got {:?}", step_name(&other)),
    };
    let live_a = dialer
        .on_authorized_record(Some(&strip_frame(&authorized_frame)))
        .expect("dialer sees the go-ahead");

    (live_a, live_b)
}

fn step_name(step: &LiveStep) -> &'static str {
    match step {
        LiveStep::Deliver(_) => "Deliver",
        LiveStep::CloseClean => "CloseClean",
        LiveStep::CloseError(_) => "CloseError",
        LiveStep::Send(_) => "Send",
        LiveStep::SendFailed => "SendFailed",
        LiveStep::Stop => "Stop",
    }
}

#[test]
fn handshake_completes_and_reports_both_sides() {
    let a = party("a.onion:3000");
    let b = party("b.onion:3000");
    let (live_a, live_b) = run_handshake(&a, &b);
    let info_a = live_a.info();
    let info_b = live_b.info();
    assert_eq!(info_a.id().as_str(), b.id.as_str());
    assert_eq!(*info_a.direction(), ConnectionDirection::Outgoing);
    assert_eq!(info_b.id().as_str(), a.id.as_str());
    assert_eq!(*info_b.direction(), ConnectionDirection::Incoming);
}

#[test]
fn bad_version_closes_the_attempt() {
    let a = party("a.onion:3000");
    let b = party("b.onion:3000");
    let (_dialer, mut hello) = DialerHello::start(
        a.id.clone(),
        b.id.clone(),
        "b.onion:3000".to_string(),
    );
    hello[0] = 2;
    let acceptor = AcceptorHello::start(b.id.clone(), "peer:1".to_string());
    assert_eq!(acceptor.on_hello(&hello).err().unwrap(), HandshakeError::BadVersion);
}

#[test]
fn bad_algorithm_and_length_close_the_attempt() {
    let b = party("b.onion:3000");
    let acceptor = AcceptorHello::start(b.id.clone(), "peer:1".to_string());
    let mut hello = vec![1u8, 9u8];
    hello.extend_from_slice(&[0u8; 32]);
    assert_eq!(acceptor.on_hello(&hello).err().unwrap(), HandshakeError::BadAlgorithm);

    let acceptor = AcceptorHello::start(b.id.clone(), "peer:1".to_string());
    assert_eq!(
        acceptor.on_hello(&vec![1u8, 0u8, 3u8]).err().unwrap(),
        HandshakeError::BadPacketLength
    );

    let acceptor = AcceptorHello::start(b.id.clone(), "peer:1".to_string());
    assert_eq!(acceptor.on_hello(&Vec::new()).err().unwrap(), HandshakeError::EndOfStream);
}

#[test]
fn impersonated_auth_message_is_rejected() {
    // A dials B, but the signature on A's auth record was made by C's key:
    // an impersonator who does not hold A's key.  B rejects the record and
    // never answers with its own, so no connection surfaces.
    let a = party("a.onion:3000");
    let b = party("b.onion:3000");
    let c = party("c.onion:3000");

    let (dialer, hello_a) = DialerHello::start(
        a.id.clone(),
        b.id.clone(),
        "b.onion:3000".to_string(),
    );
    let acceptor = AcceptorHello::start(b.id.clone(), "peer:1".to_string());
    let (acceptor, hello_b) = acceptor.on_hello(&hello_a).unwrap();
    let (dialer, auth_data_a) = dialer.on_hello(&hello_b).unwrap();

    let forged_signature = c.engine.sign(&auth_data_a);
    let (_dialer, forged_record) = dialer.on_signature(&forged_signature);
    let err = acceptor
        .on_auth_record(Some(&strip_frame(&forged_record)))
        .err()
        .unwrap();
    assert_eq!(err, HandshakeError::BadSignature);
}

#[test]
fn wrong_expected_peer_breaks_the_session_binding() {
    // A dials an address it believes belongs to D, but B answers.  A's
    // session hash binds D, B's binds B; A's signature does not verify at
    // B, and the attempt dies before any connection surfaces.
    let a = party("a.onion:3000");
    let b = party("b.onion:3000");
    let d = party("d.onion:3000");

    let (dialer, hello_a) = DialerHello::start(
        a.id.clone(),
        d.id.clone(),
        "b.onion:3000".to_string(),
    );
    let acceptor = AcceptorHello::start(b.id.clone(), "peer:1".to_string());
    let (acceptor, hello_b) = acceptor.on_hello(&hello_a).unwrap();
    let (dialer, auth_data_a) = dialer.on_hello(&hello_b).unwrap();
    let signature_a = a.engine.sign(&auth_data_a);
    let (_dialer, record_a) = dialer.on_signature(&signature_a);
    let err = acceptor
        .on_auth_record(Some(&strip_frame(&record_a)))
        .err()
        .unwrap();
    assert_eq!(err, HandshakeError::BadSignature);
}

#[test]
fn chat_round_trip_between_live_connections() {
    let a = party("a.onion:3000");
    let b = party("b.onion:3000");
    let (live_a, live_b) = run_handshake(&a, &b);

    let message = ChatMessage::new(&a.id, &b.id, "hello".to_string());
    let frame = match live_a.on_inbox(Some(ConnectionEvent::Message(message))) {
        LiveStep::Send(frame) => frame,
        other => panic!("expected a record to send, got {:?}", step_name(&other)),
    };
    match live_b.on_frame(Some(&strip_frame(&frame))) {
        LiveStep::Deliver(delivered) => {
            assert_eq!(delivered.message, "hello");
            assert_eq!(delivered.sender.as_str(), a.id.as_str());
            assert_eq!(delivered.recipient.as_str(), b.id.as_str());
        }
        other => panic!("expected delivery, got {:?}", step_name(&other)),
    }
}

#[test]
fn non_chat_record_is_fatal_in_live_phase() {
    let a = party("a.onion:3000");
    let b = party("b.onion:3000");
    let (live_a, live_b) = run_handshake(&a, &b);
    let frame = match live_a.on_inbox(Some(ConnectionEvent::ConnectionAuthorized)) {
        LiveStep::Send(frame) => frame,
        other => panic!("expected a record to send, got {:?}", step_name(&other)),
    };
    match live_b.on_frame(Some(&strip_frame(&frame))) {
        LiveStep::CloseError(_) => {}
        other => panic!("expected a fatal close, got {:?}", step_name(&other)),
    }
}

#[test]
fn close_propagates_between_parties() {
    let a = party("a.onion:3000");
    let mut b = party("b.onion:3000");
    let (live_a, live_b) = run_handshake(&a, &b);

    // B's engine learns of the new connection under inbox handle 1.
    let info_b = live_b.info();
    let (event, directive) = b
        .engine
        .handle_engine_event(EngineEvent::NewConnection(info_b.clone(), 1));
    assert!(matches!(event, Some(NetworkEvent::NewConnection(_))));
    assert!(directive.is_none());

    // A disconnects: its actor stops without writing anything further.
    match live_a.on_inbox(Some(ConnectionEvent::CloseConnection)) {
        LiveStep::Stop => {}
        other => panic!("expected a silent stop, got {:?}", step_name(&other)),
    }

    // B's actor observes end-of-stream and reports the closed connection.
    match live_b.on_frame(None) {
        LiveStep::CloseClean => {}
        other => panic!("expected a clean close, got {:?}", step_name(&other)),
    }
    let (event, _) = b
        .engine
        .handle_engine_event(EngineEvent::ConnectionClosed(info_b));
    match event {
        Some(NetworkEvent::ConnectionClosed(info)) => {
            assert_eq!(info.id().as_str(), a.id.as_str());
        }
        _ => panic!("expected a connection-closed event"),
    }

    // Any further disconnect for that peer observes the routing error.
    assert!(b.engine.disconnect(&a.id).is_err());
}

#[test]
fn tampered_record_closes_live_connection() {
    let a = party("a.onion:3000");
    let b = party("b.onion:3000");
    let (live_a, live_b) = run_handshake(&a, &b);
    let message = ChatMessage::new(&a.id, &b.id, "tamper me".to_string());
    let frame = match live_a.on_inbox(Some(ConnectionEvent::Message(message))) {
        LiveStep::Send(frame) => frame,
        other => panic!("expected a record to send, got {:?}", step_name(&other)),
    };
    let mut payload = strip_frame(&frame);
    let last = payload.len() - 1;
    payload[last] ^= 0x80;
    match live_b.on_frame(Some(&payload)) {
        LiveStep::CloseError(voynich::codec::CodecError::Decrypt) => {}
        other => panic!("expected a decrypt failure, got {:?}", step_name(&other)),
    }
}

#[test]
fn dial_addresses_parse_exactly() {
    let tor_id = tor_client_lib::key::TorServiceId::generate();
    let address = format!("{}.onion:3000", tor_id.as_str());
    let (id, port) = parse_dial_address(&address).expect("a well-formed address parses");
    assert_eq!(id.as_str(), tor_id.as_str().to_uppercase());
    assert_eq!(port, 3000);

    // The host may also be the bare label, and the largest port is accepted.
    let bare = format!("{}:65535", tor_id.as_str());
    let (_, port) = parse_dial_address(&bare).expect("a bare label parses");
    assert_eq!(port, 65535);

    // No colon, no digits, an oversized port, or a garbage label all fail.
    assert!(parse_dial_address("no-colon.onion").is_none());
    assert!(parse_dial_address("host.onion:").is_none());
    assert!(parse_dial_address("host.onion:12x4").is_none());
    assert!(parse_dial_address(&format!("{}.onion:65536", tor_id.as_str())).is_none());
    assert!(parse_dial_address("garbage.onion:3000").is_none());
}
