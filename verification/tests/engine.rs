use ed25519_dalek::Verifier;
use sha2::Digest;
use voynich::chat::ChatMessage;
use voynich::engine::{
    ConnectionDirection, ConnectionEvent, ConnectionInfo, Engine, EngineEvent, NetworkEvent,
};
use voynich::identity::ServiceId;

fn generated_id() -> ServiceId {
    let tor_id = tor_client_lib::key::TorServiceId::generate();
    ServiceId::parse(&tor_id.as_str().to_uppercase()).unwrap()
}

fn engine_with_id() -> (Engine, ServiceId) {
    let signing_key = ed25519_dalek::SigningKey::generate(&mut rand::rngs::OsRng);
    let tor_id = tor_client_lib::key::TorServiceId::from(signing_key.verifying_key());
    let id = ServiceId::parse(&tor_id.as_str().to_uppercase()).unwrap();
    let hash = sha2::Sha512::digest(signing_key.as_bytes());
    let mut key = hash.to_vec();
    key[0] &= 248;
    key[31] &= 127;
    key[31] |= 64;
    (Engine::new(id.clone(), "local.onion:3000".to_string(), key), id)
}

#[test]
fn engine_reports_its_identity_and_address() {
    let (engine, id) = engine_with_id();
    assert_eq!(engine.id().as_str(), id.as_str());
    assert_eq!(engine.onion_service_address(), "local.onion:3000");
}

#[test]
fn send_message_routes_to_registered_peer() {
    let (mut engine, _id) = engine_with_id();
    let peer = generated_id();
    let info = ConnectionInfo::new("x:1".to_string(), &peer, ConnectionDirection::Incoming);
    engine.handle_engine_event(EngineEvent::NewConnection(info, 42));

    let message = ChatMessage::new(&generated_id(), &peer, "hi".to_string());
    match engine.send_message(&message) {
        Ok((handle, ConnectionEvent::Message(m))) => {
            assert_eq!(handle, 42);
            assert_eq!(m.message, "hi");
        }
        other => panic!("unexpected routing result: {:?}", other),
    }
}

#[test]
fn send_message_to_unknown_peer_fails() {
    let (engine, _id) = engine_with_id();
    let message = ChatMessage::new(&generated_id(), &generated_id(), "hi".to_string());
    assert!(engine.send_message(&message).is_err());
}

#[test]
fn authorize_routes_or_fails() {
    let (mut engine, _id) = engine_with_id();
    let peer = generated_id();
    assert!(engine.send_connection_authorized_message(&peer).is_err());
    let info = ConnectionInfo::new("x:1".to_string(), &peer, ConnectionDirection::Incoming);
    engine.handle_engine_event(EngineEvent::NewConnection(info, 7));
    match engine.send_connection_authorized_message(&peer) {
        Ok((7, ConnectionEvent::ConnectionAuthorized)) => {}
        other => panic!("unexpected routing result: {:?}", other),
    }
}

#[test]
fn disconnect_is_idempotent_after_close() {
    let (mut engine, _id) = engine_with_id();
    let peer = generated_id();
    let info = ConnectionInfo::new("x:1".to_string(), &peer, ConnectionDirection::Outgoing);
    engine.handle_engine_event(EngineEvent::NewConnection(info.clone(), 3));

    // The first disconnect routes the close order.
    match engine.disconnect(&peer) {
        Ok((3, ConnectionEvent::CloseConnection)) => {}
        other => panic!("unexpected routing result: {:?}", other),
    }

    // The actor tears down and reports; the engine forgets the route.
    let (event, _) = engine.handle_engine_event(EngineEvent::ConnectionClosed(info));
    assert!(matches!(event, Some(NetworkEvent::ConnectionClosed(_))));

    // Every later disconnect observes the routing error.
    assert!(engine.disconnect(&peer).is_err());
    assert!(engine.disconnect(&peer).is_err());
}

#[test]
fn new_connection_replaces_stale_route() {
    let (mut engine, _id) = engine_with_id();
    let peer = generated_id();
    let info = ConnectionInfo::new("x:1".to_string(), &peer, ConnectionDirection::Incoming);
    engine.handle_engine_event(EngineEvent::NewConnection(info.clone(), 1));
    engine.handle_engine_event(EngineEvent::NewConnection(info, 2));
    match engine.disconnect(&peer) {
        Ok((2, ConnectionEvent::CloseConnection)) => {}
        other => panic!("unexpected routing result: {:?}", other),
    }
}

#[test]
fn signature_requests_are_serviced_with_valid_signatures() {
    let (mut engine, id) = engine_with_id();
    let data = b"sign this".to_vec();
    let (event, directive) = engine.handle_engine_event(EngineEvent::SignatureRequest {
        reply_to: 9,
        data: data.clone(),
    });
    assert!(event.is_none());
    let (handle, reply) = directive.expect("a signature reply");
    assert_eq!(handle, 9);
    let signature = match reply {
        ConnectionEvent::SignatureResponse(sig) => sig,
        other => panic!("unexpected reply: {:?}", other),
    };
    assert_eq!(signature.len(), 64);

    // The signature verifies under the engine identity's verifying key.
    let vk_bytes = id.verifying_key().expect("identity yields a key");
    let vk =
        ed25519_dalek::VerifyingKey::from_bytes(&vk_bytes.try_into().unwrap()).unwrap();
    let sig = ed25519_dalek::Signature::from_slice(&signature).unwrap();
    assert!(vk.verify(&data, &sig).is_ok());
}

#[test]
fn message_and_error_events_pass_through() {
    let (mut engine, _id) = engine_with_id();
    let message = ChatMessage::new(&generated_id(), &generated_id(), "m".to_string());
    let (event, directive) = engine.handle_engine_event(EngineEvent::Message(message));
    match event {
        Some(NetworkEvent::Message(m)) => assert_eq!(m.message, "m"),
        _ => panic!("expected a message event"),
    }
    assert!(directive.is_none());
    let (event, directive) =
        engine.handle_engine_event(EngineEvent::Error("boom".to_string()));
    assert!(event.is_none());
    assert!(directive.is_none());
}
