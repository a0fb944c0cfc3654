use sha2::Digest;
use voynich::cbor::Body;
use voynich::chat::ChatMessage;
use voynich::crypto::{generate_ephemeral_keypair, generate_shared_secret, random_bytes, Cryptor};
use voynich::handshake::{generate_auth_data, generate_session_hash, verify_auth_message,
    AuthMessage};
use voynich::identity::ServiceId;
use voynich::records::{open_record, seal_record};

fn generated_id() -> ServiceId {
    let tor_id = tor_client_lib::key::TorServiceId::generate();
    ServiceId::parse(&tor_id.as_str().to_uppercase()).expect("generated identity parses")
}

fn generate_and_test_message(msg: &str) {
    let sender = generated_id();
    let recipient = generated_id();
    let message = ChatMessage::new(&sender, &recipient, msg.to_string());
    let key = random_bytes(32);
    let cryptor = Cryptor::new(&key);
    let frame = seal_record(&cryptor, &Body::Chat(message));
    let payload = frame[4..].to_vec();
    match open_record(&cryptor, &payload).expect("record opens") {
        Body::Chat(read_message) => {
            assert_eq!(read_message.message, msg);
            assert_eq!(read_message.sender.as_str(), sender.as_str());
            assert_eq!(read_message.recipient.as_str(), recipient.as_str());
        }
        other => panic!("wrong body kind: {:?}", other),
    }
}

// Test encryption, decryption, and padding
#[test]
fn test_read_write_encrypted() {
    // message size < blocksize
    generate_and_test_message("The quick brown fox jumped over the");

    // message size == blocksize
    generate_and_test_message("The quick brown fox jumped over the l");

    // message size > blocksize
    generate_and_test_message("The quick brown fox jumped over the lazy dog");
}

// The 64-byte expanded form of an Ed25519 key, as Tor's key blobs carry
// it: the clamped lower half of the SHA-512 of the seed, then the prefix.
fn expanded_key_of(signing_key: &ed25519_dalek::SigningKey) -> Vec<u8> {
    let hash = sha2::Sha512::digest(signing_key.as_bytes());
    let mut bytes = hash.to_vec();
    bytes[0] &= 248;
    bytes[31] &= 127;
    bytes[31] |= 64;
    bytes
}

#[test]
fn test_auth() {
    // Generate server key and ID
    let server_signing_key = ed25519_dalek::SigningKey::generate(&mut rand::rngs::OsRng);
    let server_tor_id = tor_client_lib::key::TorServiceId::from(server_signing_key.verifying_key());
    let server_id = ServiceId::parse(&server_tor_id.as_str().to_uppercase()).unwrap();

    // Generate client key and ID
    let client_signing_key = ed25519_dalek::SigningKey::generate(&mut rand::rngs::OsRng);
    let client_tor_id = tor_client_lib::key::TorServiceId::from(client_signing_key.verifying_key());
    let client_id = ServiceId::parse(&client_tor_id.as_str().to_uppercase()).unwrap();

    // Generate keypairs, shared secrets, and session_hashes
    let (client_private_key, mut client_public_key) = generate_ephemeral_keypair();
    let (server_private_key, mut server_public_key) = generate_ephemeral_keypair();
    let client_shared_secret = generate_shared_secret(client_private_key, &mut server_public_key);
    let server_shared_secret = generate_shared_secret(server_private_key, &mut client_public_key);
    let client_session_hash =
        generate_session_hash(&client_id, &server_id, &client_shared_secret).unwrap();
    let server_session_hash =
        generate_session_hash(&client_id, &server_id, &server_shared_secret).unwrap();

    // Shared secrets better be the same!
    assert_eq!(server_shared_secret, client_shared_secret);

    // Generate client auth message
    let client_key = expanded_key_of(&client_signing_key);
    let client_auth_message = voynich::handshake::signed_auth_message(
        &client_key,
        &client_id,
        &client_session_hash,
    );

    // Generate server auth message
    let server_key = expanded_key_of(&server_signing_key);
    let server_auth_message = voynich::handshake::signed_auth_message(
        &server_key,
        &server_id,
        &server_session_hash,
    );

    // Verify both
    assert!(verify_auth_message(&client_auth_message, &client_id, &client_session_hash).is_ok());
    assert!(verify_auth_message(&server_auth_message, &server_id, &server_session_hash).is_ok());
}

#[test]
fn honest_peers_derive_identical_keys_and_hashes() {
    let client_id = generated_id();
    let server_id = generated_id();
    let (client_secret, mut client_public) = generate_ephemeral_keypair();
    let (server_secret, mut server_public) = generate_ephemeral_keypair();
    let client_shared = generate_shared_secret(client_secret, &mut server_public);
    let server_shared = generate_shared_secret(server_secret, &mut client_public);
    assert_eq!(client_shared, server_shared);
    let client_key = voynich::crypto::generate_symmetric_key(&client_shared);
    let server_key = voynich::crypto::generate_symmetric_key(&server_shared);
    assert_eq!(client_key, server_key);
    let client_hash = generate_session_hash(&client_id, &server_id, &client_shared).unwrap();
    let server_hash = generate_session_hash(&client_id, &server_id, &server_shared).unwrap();
    assert_eq!(client_hash, server_hash);
}

#[test]
fn mismatched_identity_fails_even_with_valid_signature() {
    // The expected peer is B; the message embeds C with a signature that is
    // perfectly valid for C over this very session hash.
    let b_id = generated_id();
    let c_signing_key = ed25519_dalek::SigningKey::generate(&mut rand::rngs::OsRng);
    let c_tor_id = tor_client_lib::key::TorServiceId::from(c_signing_key.verifying_key());
    let c_id = ServiceId::parse(&c_tor_id.as_str().to_uppercase()).unwrap();

    let session_hash = random_bytes(32);
    let c_key = expanded_key_of(&c_signing_key);
    let c_message = voynich::handshake::signed_auth_message(&c_key, &c_id, &session_hash);
    // C's message verifies against C itself ...
    assert!(verify_auth_message(&c_message, &c_id, &session_hash).is_ok());
    // ... but not against the peer this side expected to reach.
    assert!(verify_auth_message(&c_message, &b_id, &session_hash).is_err());
}

#[test]
fn replayed_auth_message_fails_for_new_session() {
    let a_signing_key = ed25519_dalek::SigningKey::generate(&mut rand::rngs::OsRng);
    let a_tor_id = tor_client_lib::key::TorServiceId::from(a_signing_key.verifying_key());
    let a_id = ServiceId::parse(&a_tor_id.as_str().to_uppercase()).unwrap();
    let peer_id = generated_id();

    // First session.
    let secret_one = random_bytes(32);
    let hash_one = generate_session_hash(&a_id, &peer_id, &secret_one).unwrap();
    let a_key = expanded_key_of(&a_signing_key);
    let replayed = voynich::handshake::signed_auth_message(&a_key, &a_id, &hash_one);
    assert!(verify_auth_message(&replayed, &a_id, &hash_one).is_ok());

    // Second session: a different shared secret yields a different hash,
    // and the replayed message no longer verifies.
    let secret_two = random_bytes(32);
    let hash_two = generate_session_hash(&a_id, &peer_id, &secret_two).unwrap();
    assert_ne!(hash_one, hash_two);
    assert!(verify_auth_message(&replayed, &a_id, &hash_two).is_err());
}

#[test]
fn signature_length_is_checked_by_construction() {
    let id = generated_id();
    let message = AuthMessage::new(&id, &vec![1u8; 64]);
    assert_eq!(message.signature().len(), 64);
    assert_eq!(message.service_id(), id.as_str());
    let data = generate_auth_data(&id, &vec![2u8; 32]);
    assert_eq!(data.len(), 32 + id.as_str().len());
    assert_eq!(&data[..32], &[2u8; 32][..]);
}

#[test]
fn sha256_matches_the_published_empty_digest() {
    let digest = voynich::crypto::sha256(&Vec::new());
    let expected = [
        0xe3u8, 0xb0, 0xc4, 0x42, 0x98, 0xfc, 0x1c, 0x14, 0x9a, 0xfb, 0xf4, 0xc8, 0x99, 0x6f,
        0xb9, 0x24, 0x27, 0xae, 0x41, 0xe4, 0x64, 0x9b, 0x93, 0x4c, 0xa4, 0x95, 0x99, 0x1b,
        0x78, 0x52, 0xb8, 0x55,
    ];
    assert_eq!(digest, expected.to_vec());
}

#[test]
fn derived_key_differs_from_its_secret() {
    let secret = vec![7u8; 32];
    let key = voynich::crypto::generate_symmetric_key(&secret);
    assert_eq!(key.len(), 32);
    assert_ne!(key, secret);
}

#[test]
fn shared_secret_wipes_the_peer_key() {
    let (secret, _own_public) = generate_ephemeral_keypair();
    let (_other_secret, mut peer_public) = generate_ephemeral_keypair();
    assert!(peer_public.iter().any(|&b| b != 0));
    let shared = generate_shared_secret(secret, &mut peer_public);
    assert_eq!(shared.len(), 32);
    // The peer's public key was wiped once the agreement was computed.
    assert_eq!(peer_public, vec![0u8; 32]);
}
