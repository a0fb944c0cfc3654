//! Key agreement and the mutual identity-binding handshake.
//!
//! A newly opened stream first carries one fixed 34-byte packet in each
//! direction: `[version=1 | algorithm=0 | 32-byte X25519 public key]`.  From
//! the two ephemeral keys each side derives a shared secret and, through
//! HKDF, the session's AEAD key.  Both sides then bind their identities to
//! the session by exchanging signed [`AuthMessage`] records over a hash of
//! both identities and the shared secret.

use vstd::prelude::*;

verus! {

use vstd::utf8::encode_utf8;
use crate::crypto::{sha256, sha256_of};
use crate::identity::{ServiceId, ed_sign, ed_verify, sign_message, signing_vk_of,
    verify_signature, vk_of_id};

/// Failures of key agreement and identity binding.
#[derive(Clone, Copy, Debug, PartialEq, Eq, Structural)]
pub enum HandshakeError {
    /// The stream ended before the peer's opening packet arrived.
    EndOfStream,
    /// The opening packet did not have exactly 34 bytes.
    BadPacketLength,
    /// The opening packet named a protocol version other than 1.
    BadVersion,
    /// The opening packet named an algorithm other than 0.
    BadAlgorithm,
    /// An identity yields no Ed25519 verifying key.
    UnknownKey,
    /// The identity embedded in an auth message is not the expected peer.
    IdMismatch,
    /// The signature in an auth message does not verify.
    BadSignature,
    /// The identity embedded in an auth message does not parse.
    InvalidId,
    /// A record of the handshake failed AEAD verification.
    Decrypt,
    /// A record of the handshake did not decode.
    Decode,
    /// A record of the wrong kind arrived for the current phase.
    Protocol,
}

/// The protocol version named in the opening packet.
pub const PROTOCOL_VERSION: u8 = 1;

/// The algorithm byte designating X25519 with ChaCha20-Poly1305.
pub const ALGORITHM_CHACHA20POLY1305: u8 = 0;

/// The opening packet announcing an ephemeral public key.
pub open spec fn key_packet_of(pk: Seq<u8>) -> Seq<u8> {
    seq![PROTOCOL_VERSION, ALGORITHM_CHACHA20POLY1305] + pk
}

/// Builds the 34-byte opening packet for an ephemeral public key.
pub fn encode_public_key_packet(pk: &Vec<u8>) -> (r: Vec<u8>)
    requires
        pk@.len() == 32,
    ensures
        r@ == key_packet_of(pk@),
        r@.len() == 34,
{
    let mut packet: Vec<u8> = Vec::new();
    packet.push(PROTOCOL_VERSION);
    packet.push(ALGORITHM_CHACHA20POLY1305);
    let mut i: usize = 0;
    while i < pk.len()
        invariant
            i <= pk@.len(),
            packet@ == seq![PROTOCOL_VERSION, ALGORITHM_CHACHA20POLY1305] + pk@.subrange(
                0,
                i as int,
            ),
        decreases pk@.len() - i,
    {
        packet.push(pk[i]);
        i = i + 1;
    }
    assert(pk@.subrange(0, pk@.len() as int) == pk@);
    packet
}

/// Reads the peer's ephemeral public key out of its opening packet.
///
/// An empty buffer means the stream ended; any other length than 34, a
/// version byte other than 1, or an algorithm byte other than 0 is fatal.
pub fn parse_public_key_packet(buffer: &Vec<u8>) -> (r: Result<Vec<u8>, HandshakeError>)
    ensures
        r matches Ok(pk) ==> buffer@ == key_packet_of(pk@) && pk@.len() == 32,
        buffer@.len() == 0 ==> r == Err::<Vec<u8>, _>(HandshakeError::EndOfStream),
        buffer@.len() != 0 && buffer@.len() != 34 ==> r == Err::<Vec<u8>, _>(
            HandshakeError::BadPacketLength,
        ),
        buffer@.len() == 34 && buffer@[0] != PROTOCOL_VERSION ==> r == Err::<Vec<u8>, _>(
            HandshakeError::BadVersion,
        ),
        buffer@.len() == 34 && buffer@[0] == PROTOCOL_VERSION && buffer@[1]
            != ALGORITHM_CHACHA20POLY1305 ==> r == Err::<Vec<u8>, _>(HandshakeError::BadAlgorithm),
        buffer@.len() == 34 && buffer@[0] == PROTOCOL_VERSION && buffer@[1]
            == ALGORITHM_CHACHA20POLY1305 ==> r is Ok,
{
    if buffer.len() == 0 {
        return Err(HandshakeError::EndOfStream);
    }
    if buffer.len() != 34 {
        return Err(HandshakeError::BadPacketLength);
    }
    if buffer[0] != PROTOCOL_VERSION {
        return Err(HandshakeError::BadVersion);
    }
    if buffer[1] != ALGORITHM_CHACHA20POLY1305 {
        return Err(HandshakeError::BadAlgorithm);
    }
    let mut pk: Vec<u8> = Vec::new();
    let mut i: usize = 2;
    while i < buffer.len()
        invariant
            2 <= i <= buffer@.len() == 34,
            pk@ == buffer@.subrange(2, i as int),
        decreases buffer@.len() - i,
    {
        pk.push(buffer[i]);
        i = i + 1;
    }
    proof {
        assert(buffer@ =~= key_packet_of(pk@));
    }
    Ok(pk)
}

/// Appends a copy of `src` to `dst`.
pub fn append_bytes(dst: &mut Vec<u8>, src: &Vec<u8>)
    ensures
        final(dst)@ == old(dst)@ + src@,
{
    let mut i: usize = 0;
    while i < src.len()
        invariant
            i <= src@.len(),
            dst@ == old(dst)@ + src@.subrange(0, i as int),
        decreases src@.len() - i,
    {
        dst.push(src[i]);
        i = i + 1;
    }
    assert(src@.subrange(0, src@.len() as int) == src@);
}

/// The bytes both sides hash into the session hash: the dialer's identity
/// text, the acceptor's identity text, their verifying keys, and the shared
/// secret, in that fixed order.
pub open spec fn session_hash_input(
    client_id: Seq<char>,
    server_id: Seq<char>,
    client_vk: Seq<u8>,
    server_vk: Seq<u8>,
    secret: Seq<u8>,
) -> Seq<u8> {
    encode_utf8(client_id) + encode_utf8(server_id) + client_vk + server_vk + secret
}

/// The session hash of a run whose dialer is `client_id`, acceptor is
/// `server_id`, and shared secret is `secret`, when both identities yield
/// verifying keys.
pub open spec fn session_hash_of(
    client_id: Seq<char>,
    server_id: Seq<char>,
    secret: Seq<u8>,
) -> Option<Seq<u8>> {
    if vk_of_id(client_id) is Some && vk_of_id(server_id) is Some {
        Some(
            sha256_of(
                session_hash_input(
                    client_id,
                    server_id,
                    vk_of_id(client_id)->Some_0,
                    vk_of_id(server_id)->Some_0,
                    secret,
                ),
            ),
        )
    } else {
        None
    }
}

/// Computes the session hash binding both identities and the shared secret.
///
/// The dialer and the acceptor call this with the same argument order, so
/// an honest pair computes the same hash from the same shared secret.
pub fn generate_session_hash(client_id: &ServiceId, server_id: &ServiceId, secret: &Vec<u8>) -> (r:
    Result<Vec<u8>, HandshakeError>)
    ensures
        r is Ok <==> session_hash_of(client_id@, server_id@, secret@) is Some,
        r matches Ok(h) ==> Some(h@) == session_hash_of(client_id@, server_id@, secret@)
            && h@.len() == 32,
        r matches Err(e) ==> e == HandshakeError::UnknownKey,
{
    let client_vk: Vec<u8> = match client_id.verifying_key() {
        Some(vk) => vk,
        None => {
            return Err(HandshakeError::UnknownKey);
        },
    };
    let server_vk: Vec<u8> = match server_id.verifying_key() {
        Some(vk) => vk,
        None => {
            return Err(HandshakeError::UnknownKey);
        },
    };
    let mut input: Vec<u8> = Vec::new();
    let client_text: Vec<u8> = client_id.as_str().as_bytes_vec();
    let server_text: Vec<u8> = server_id.as_str().as_bytes_vec();
    append_bytes(&mut input, &client_text);
    append_bytes(&mut input, &server_text);
    append_bytes(&mut input, &client_vk);
    append_bytes(&mut input, &server_vk);
    append_bytes(&mut input, secret);
    proof {
        assert(input@ =~= session_hash_input(
            client_id@,
            server_id@,
            vk_of_id(client_id@)->Some_0,
            vk_of_id(server_id@)->Some_0,
            secret@,
        ));
    }
    Ok(sha256(&input))
}

/// The bytes an identity signs to bind itself to a session: the session
/// hash followed by the identity's own text.
pub open spec fn auth_data_of(id: Seq<char>, session_hash: Seq<u8>) -> Seq<u8> {
    session_hash + encode_utf8(id)
}

/// Builds the bytes an identity signs: `session_hash || identity text`.
pub fn generate_auth_data(id: &ServiceId, session_hash: &Vec<u8>) -> (r: Vec<u8>)
    ensures
        r@ == auth_data_of(id@, session_hash@),
{
    let mut data: Vec<u8> = Vec::new();
    append_bytes(&mut data, session_hash);
    let text: Vec<u8> = id.as_str().as_bytes_vec();
    append_bytes(&mut data, &text);
    data
}

/// Two honest peers that completed the key agreement hold byte-identical
/// Diffie-Hellman outputs, so their derived AEAD keys are byte-identical,
/// and — with the dialer and acceptor identities fixed the same way on both
/// sides — so are their session hashes.  The premise, that X25519 gives
/// both sides the same shared secret, is the curve's defining property.
pub proof fn lemma_session_agreement(
    client_id: Seq<char>,
    server_id: Seq<char>,
    dialer_secret: Seq<u8>,
    acceptor_secret: Seq<u8>,
)
    requires
        dialer_secret == acceptor_secret,
    ensures
        crate::crypto::hkdf_key_of(dialer_secret) == crate::crypto::hkdf_key_of(acceptor_secret),
        session_hash_of(client_id, server_id, dialer_secret) == session_hash_of(
            client_id,
            server_id,
            acceptor_secret,
        ),
{
}

/// The identity-binding record: the sender's identity text and its Ed25519
/// signature over `session_hash || identity text`.
#[derive(Debug)]
pub struct AuthMessage {
    service_id: String,
    signature: Vec<u8>,
}

/// The mathematical content of an [`AuthMessage`].
pub struct AuthMessageView {
    pub service_id: Seq<char>,
    pub signature: Seq<u8>,
}

impl View for AuthMessage {
    type V = AuthMessageView;

    closed spec fn view(&self) -> AuthMessageView {
        AuthMessageView { service_id: self.service_id@, signature: self.signature@ }
    }
}

impl AuthMessage {
    /// Whether the message is well formed: the signature has 64 bytes.
    pub open spec fn wf(&self) -> bool {
        self@.signature.len() == 64
    }

    /// Builds an auth message from an identity and a 64-byte signature.
    pub fn new(service_id: &ServiceId, signature: &Vec<u8>) -> (r: AuthMessage)
        requires
            signature@.len() == 64,
        ensures
            r@.service_id == service_id@,
            r@.signature == signature@,
            r.wf(),
    {
        AuthMessage { service_id: service_id.to_text(), signature: signature.clone() }
    }

    /// Rebuilds an auth message from its decoded wire fields.
    pub fn from_parts(service_id: String, signature: Vec<u8>) -> (r: AuthMessage)
        requires
            signature@.len() == 64,
        ensures
            r@.service_id == service_id@,
            r@.signature == signature@,
            r.wf(),
    {
        AuthMessage { service_id, signature }
    }

    /// The embedded identity text.
    pub fn service_id(&self) -> (r: String)
        ensures
            r@ == self@.service_id,
    {
        self.service_id.clone()
    }

    /// The embedded signature bytes.
    pub fn signature(&self) -> (r: &Vec<u8>)
        ensures
            r@ == self@.signature,
    {
        &self.signature
    }
}

impl Clone for AuthMessage {
    fn clone(&self) -> (r: Self)
        ensures
            r@ == self@,
    {
        let r = AuthMessage { service_id: self.service_id.clone(), signature: self.signature.clone() };
        proof {
            assert(r@ == self@);
        }
        r
    }
}

/// When verification of a peer's auth message succeeds: the peer's identity
/// yields a verifying key, the embedded identity text is exactly the
/// expected peer's, and the signature verifies over
/// `session_hash || peer identity text` under that key.
pub open spec fn auth_message_ok(
    message: AuthMessageView,
    peer_id: Seq<char>,
    session_hash: Seq<u8>,
) -> bool {
    &&& vk_of_id(peer_id) is Some
    &&& message.service_id == peer_id
    &&& ed_verify(vk_of_id(peer_id)->Some_0, auth_data_of(peer_id, session_hash), message.signature)
}

/// Verifies a peer's auth message against the identity this side expected
/// to reach and the session hash of this very session.
///
/// A message whose embedded identity is not the expected peer fails even if
/// its signature is valid for the embedded identity; a signature made over
/// another session's hash fails with it.
pub fn verify_auth_message(
    message: &AuthMessage,
    peer_id: &ServiceId,
    session_hash: &Vec<u8>,
) -> (r: Result<(), HandshakeError>)
    requires
        message.wf(),
    ensures
        r is Ok <==> auth_message_ok(message@, peer_id@, session_hash@),
        r matches Err(e) ==> match e {
            HandshakeError::UnknownKey => vk_of_id(peer_id@) is None,
            HandshakeError::IdMismatch => vk_of_id(peer_id@) is Some && message@.service_id
                != peer_id@,
            HandshakeError::BadSignature => vk_of_id(peer_id@) is Some && message@.service_id
                == peer_id@,
            _ => false,
        },
{
    match peer_id.verifying_key() {
        Some(_) => (),
        None => {
            return Err(HandshakeError::UnknownKey);
        },
    };
    let peer_text: String = peer_id.to_text();
    if !(message.service_id == peer_text) {
        return Err(HandshakeError::IdMismatch);
    }
    let auth_data: Vec<u8> = generate_auth_data(peer_id, session_hash);
    if verify_signature(peer_id, &auth_data, &message.signature) {
        Ok(())
    } else {
        Err(HandshakeError::BadSignature)
    }
}

/// Signs the session binding and builds this side's auth message.
///
/// The returned message embeds the local identity and the signature over
/// `session_hash || identity text`.  When the identity's verifying key is
/// the one belonging to the signing key — the invariant of an honest party —
/// the message passes [`verify_auth_message`] against that identity and the
/// same session hash.
pub fn signed_auth_message(key: &Vec<u8>, id: &ServiceId, session_hash: &Vec<u8>) -> (r:
    AuthMessage)
    requires
        key@.len() == 64,
    ensures
        r@.service_id == id@,
        r@.signature == ed_sign(key@, auth_data_of(id@, session_hash@)),
        r.wf(),
        vk_of_id(id@) == Some(signing_vk_of(key@)) ==> auth_message_ok(r@, id@, session_hash@),
{
    let auth_data: Vec<u8> = generate_auth_data(id, session_hash);
    let signature: Vec<u8> = sign_message(key, &auth_data);
    AuthMessage::new(id, &signature)
}

} // verus!
