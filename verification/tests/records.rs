use voynich::cbor::{decode_body, encode_body, Body};
use voynich::chat::ChatMessage;
use voynich::codec::{build_plaintext, parse_plaintext, CodecError};
use voynich::crypto::{random_bytes, Cryptor};
use voynich::handshake::AuthMessage;
use voynich::identity::ServiceId;
use voynich::records::{open_record, seal_record};

fn test_key() -> Vec<u8> {
    (0u8..32).collect()
}

fn some_id(tag: u8) -> ServiceId {
    let sk = ed25519_dalek::SigningKey::from_bytes(&[tag; 32]);
    let tor_id = tor_client_lib::key::TorServiceId::from(sk.verifying_key());
    ServiceId::parse(&tor_id.as_str().to_uppercase()).expect("generated identity parses")
}

fn chat_body(message: &str) -> Body {
    Body::Chat(ChatMessage {
        date: 1_700_000_000,
        sender: some_id(1),
        recipient: some_id(2),
        message: message.to_string(),
    })
}

fn frame_payload_of(frame: &[u8]) -> Vec<u8> {
    assert!(frame.len() > 4);
    let len = u32::from_be_bytes([frame[0], frame[1], frame[2], frame[3]]) as usize;
    assert_eq!(len, frame.len() - 4);
    frame[4..].to_vec()
}

fn assert_chat_round_trip(message: &str) {
    let cryptor = Cryptor::new(&test_key());
    let body = chat_body(message);
    let frame = seal_record(&cryptor, &body);
    let payload = frame_payload_of(&frame);
    match open_record(&cryptor, &payload).expect("record opens") {
        Body::Chat(m) => {
            assert_eq!(m.message, message);
            assert_eq!(m.date, 1_700_000_000);
            assert_eq!(m.sender.as_str(), some_id(1).as_str());
            assert_eq!(m.recipient.as_str(), some_id(2).as_str());
        }
        other => panic!("wrong body kind: {:?}", other),
    }
}

#[test]
fn chat_message_round_trips() {
    assert_chat_round_trip("hello");
    assert_chat_round_trip("");
    assert_chat_round_trip("a longer message that spans more than one block of the record codec padding scheme");
}

#[test]
fn record_length_is_block_multiple() {
    let cryptor = Cryptor::new(&test_key());
    for len in [0usize, 1, 30, 63, 64, 65, 200] {
        let message = "x".repeat(len);
        let frame = seal_record(&cryptor, &chat_body(&message));
        let payload_len = frame.len() - 4;
        assert_eq!((payload_len - 28) % 64, 0);
    }
}

#[test]
fn empty_body_pads_to_one_block() {
    let body: Vec<u8> = Vec::new();
    let padding = random_bytes(63);
    let plaintext = build_plaintext(&body, &padding);
    assert_eq!(plaintext.len(), 64);
    assert_eq!(plaintext[0], 63);
    assert_eq!(parse_plaintext(&plaintext).unwrap(), body);
}

#[test]
fn body_of_sixty_three_bytes_fills_one_block() {
    let body: Vec<u8> = vec![7u8; 63];
    let padding: Vec<u8> = Vec::new();
    let plaintext = build_plaintext(&body, &padding);
    assert_eq!(plaintext.len(), 64);
    assert_eq!(plaintext[0], 0);
    assert_eq!(parse_plaintext(&plaintext).unwrap(), body);
}

#[test]
fn body_of_sixty_four_bytes_takes_two_blocks() {
    let body: Vec<u8> = vec![7u8; 64];
    let padding = random_bytes(63);
    let plaintext = build_plaintext(&body, &padding);
    assert_eq!(plaintext.len(), 128);
    assert_eq!(plaintext[0], 63);
    assert_eq!(parse_plaintext(&plaintext).unwrap(), body);
}

#[test]
fn zero_padding_parses() {
    let body: Vec<u8> = vec![9u8; 63];
    let padding: Vec<u8> = Vec::new();
    let plaintext = build_plaintext(&body, &padding);
    assert_eq!(plaintext[0], 0);
    assert_eq!(parse_plaintext(&plaintext).unwrap(), body);
}

#[test]
fn inconsistent_padding_is_rejected() {
    // A one-byte plaintext claiming one padding byte cannot hold it.
    let plaintext = vec![1u8];
    assert_eq!(parse_plaintext(&plaintext).unwrap_err(), CodecError::Decode);
    let empty: Vec<u8> = Vec::new();
    assert_eq!(parse_plaintext(&empty).unwrap_err(), CodecError::Decode);
}

#[test]
fn tampered_records_fail_to_decrypt() {
    let cryptor = Cryptor::new(&test_key());
    let frame = seal_record(&cryptor, &chat_body("payload under test"));
    let payload = frame_payload_of(&frame);
    // Flip one bit in the nonce, in the ciphertext, and in the tag.
    let positions = [0usize, 15, payload.len() - 1];
    for &pos in positions.iter() {
        let mut tampered = payload.clone();
        tampered[pos] ^= 0x01;
        assert_eq!(open_record(&cryptor, &tampered).unwrap_err(), CodecError::Decrypt);
    }
    // The untouched payload still opens.
    assert!(open_record(&cryptor, &payload).is_ok());
}

#[test]
fn wrong_key_fails_to_decrypt() {
    let cryptor = Cryptor::new(&test_key());
    let other = Cryptor::new(&vec![0xAAu8; 32]);
    let frame = seal_record(&cryptor, &chat_body("secret"));
    let payload = frame_payload_of(&frame);
    assert_eq!(open_record(&other, &payload).unwrap_err(), CodecError::Decrypt);
}

#[test]
fn short_payload_fails_to_decrypt() {
    let cryptor = Cryptor::new(&test_key());
    let payload = vec![0u8; 11];
    assert_eq!(open_record(&cryptor, &payload).unwrap_err(), CodecError::Decrypt);
}

#[test]
fn body_encodings_round_trip() {
    let bodies = [
        chat_body("hi"),
        Body::ConnectionAuthorized,
        Body::Auth(AuthMessage::new(&some_id(3), &vec![5u8; 64])),
    ];
    for body in bodies.iter() {
        let bytes = encode_body(body);
        let decoded = decode_body(&bytes).expect("canonical encoding decodes");
        match (body, &decoded) {
            (Body::Chat(a), Body::Chat(b)) => {
                assert_eq!(a.date, b.date);
                assert_eq!(a.sender.as_str(), b.sender.as_str());
                assert_eq!(a.recipient.as_str(), b.recipient.as_str());
                assert_eq!(a.message, b.message);
            }
            (Body::ConnectionAuthorized, Body::ConnectionAuthorized) => {}
            (Body::Auth(a), Body::Auth(b)) => {
                assert_eq!(a.service_id(), b.service_id());
                assert_eq!(a.signature(), b.signature());
            }
            other => panic!("variant changed in round trip: {:?}", other),
        }
    }
}

#[test]
fn body_encoding_is_valid_cbor() {
    let bodies = [
        chat_body("cross-checked"),
        Body::ConnectionAuthorized,
        Body::Auth(AuthMessage::new(&some_id(3), &vec![5u8; 64])),
    ];
    for body in bodies.iter() {
        let bytes = encode_body(body);
        let value: serde_cbor::Value =
            serde_cbor::from_slice(&bytes).expect("encoding parses as CBOR");
        match value {
            serde_cbor::Value::Array(items) => assert!(!items.is_empty()),
            other => panic!("expected a CBOR array, got {:?}", other),
        }
    }
}

#[test]
fn garbage_bodies_fail_to_decode() {
    assert!(decode_body(&vec![]).is_err());
    assert!(decode_body(&vec![0x80]).is_err());
    assert!(decode_body(&vec![0xFF, 0xFF, 0xFF]).is_err());
    // A correct prefix with trailing garbage is rejected.
    let mut bytes = encode_body(&Body::ConnectionAuthorized);
    bytes.push(0);
    assert!(decode_body(&bytes).is_err());
}
