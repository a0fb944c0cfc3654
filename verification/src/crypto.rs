//! Cryptographic primitives behind the record codec and the handshake.
//!
//! The ChaCha20-Poly1305 cipher, SHA-256, HKDF and X25519 are supplied by
//! outside crates; each call stands behind a trusted wrapper whose contract
//! states what the crate's own source shows of it.

use chacha20poly1305::aead::Aead;
use chacha20poly1305::aead::OsRng;
use chacha20poly1305::AeadCore;
use chacha20poly1305::KeyInit;
use rand::RngCore;
use sha2::Digest;
use vstd::prelude::*;

verus! {

/// An ephemeral X25519 secret of the `x25519_dalek` crate.
#[verifier::external_type_specification]
#[verifier::external_body]
pub struct ExEphemeralSecret(x25519_dalek::EphemeralSecret);

/// What ChaCha20-Poly1305 decryption under `key` yields for a packet of the
/// form `nonce[12] || ciphertext_with_tag`: the plaintext, or nothing when
/// the packet is too short or its tag does not verify.  Decryption is a
/// deterministic function of key and packet.
pub uninterp spec fn aead_open_spec(key: Seq<u8>, packet: Seq<u8>) -> Option<Seq<u8>>;

/// The SHA-256 digest of a byte sequence, as the `sha2` crate computes it.
pub uninterp spec fn sha256_of(data: Seq<u8>) -> Seq<u8>;

/// The 32-byte key that HKDF-SHA256 expands from an input secret with empty
/// salt and the info string `"encryption"`, as the `hkdf` crate computes it.
pub uninterp spec fn hkdf_key_of(secret: Seq<u8>) -> Seq<u8>;

/// A record cipher: the 32-byte symmetric key under which records are
/// sealed and opened.
pub struct Cryptor {
    key: Vec<u8>,
}

impl Cryptor {
    /// The symmetric key this cipher was built from.
    pub closed spec fn key(&self) -> Seq<u8> {
        self.key@
    }

    /// Whether the cipher is well formed: built from a 32-byte key.
    pub open spec fn wf(&self) -> bool {
        self.key().len() == 32
    }

    /// Builds the cipher for a 32-byte key.
    pub fn new(key: &Vec<u8>) -> (r: Cryptor)
        requires
            key@.len() == 32,
        ensures
            r.key() == key@,
    {
        Cryptor { key: key.clone() }
    }

    /// Encrypts a plaintext under a fresh random 12-byte nonce and returns
    /// `nonce || ciphertext_with_tag`.
    ///
    /// Relies on `ChaCha20Poly1305::generate_nonce` and `Aead::encrypt`: for
    /// a plaintext below the cipher's maximum message length the call
    /// succeeds, appends a 16-byte tag, and decrypting the packet with the
    /// same key gives the plaintext back.
    #[verifier::external_body]
    pub fn aead_encrypt(&self, plaintext: &Vec<u8>) -> (r: Vec<u8>)
        requires
            self.wf(),
            plaintext@.len() < 0x100000000,
        ensures
            r@.len() == plaintext@.len() + 28,
            aead_open_spec(self.key(), r@) == Some(plaintext@),
    {
        let cipher = chacha20poly1305::ChaCha20Poly1305::new(
            chacha20poly1305::Key::from_slice(self.key.as_slice()),
        );
        let nonce = chacha20poly1305::ChaCha20Poly1305::generate_nonce(&mut OsRng);
        let ciphertext = cipher.encrypt(&nonce, plaintext.as_slice()).expect(
            "plaintext within the cipher's message limit",
        );
        let mut packet = nonce.to_vec();
        packet.extend_from_slice(&ciphertext);
        packet
    }

    /// Decrypts a packet of the form `nonce || ciphertext_with_tag`.
    ///
    /// Relies on `Aead::decrypt`: deterministic in key and packet, it yields
    /// the plaintext exactly when the tag verifies, which it does for every
    /// packet produced by [`Cryptor::aead_encrypt`] under the same key.
    #[verifier::external_body]
    pub fn aead_decrypt(&self, packet: &Vec<u8>) -> (r: Option<Vec<u8>>)
        requires
            self.wf(),
            packet@.len() >= 12,
        ensures
            r is Some <==> aead_open_spec(self.key(), packet@) is Some,
            r matches Some(pt) ==> Some(pt@) == aead_open_spec(self.key(), packet@) && packet@.len()
                == pt@.len() + 28,
    {
        let cipher = chacha20poly1305::ChaCha20Poly1305::new(
            chacha20poly1305::Key::from_slice(self.key.as_slice()),
        );
        let nonce = chacha20poly1305::Nonce::from_slice(&packet[..12]);
        match cipher.decrypt(nonce, &packet[12..]) {
            Ok(plaintext) => Some(plaintext),
            Err(_) => None,
        }
    }
}

impl Cryptor {
    /// Overwrites the key with zeros; the session's key material is wiped
    /// when its connection ends.
    pub fn wipe(&mut self)
        ensures
            final(self).key().len() == old(self).key().len(),
            forall|i: int| 0 <= i < final(self).key().len() ==> final(self).key()[i] == 0u8,
    {
        wipe_bytes(&mut self.key);
    }
}

impl Clone for Cryptor {
    /// A second cipher for the same key.
    fn clone(&self) -> (r: Self)
        ensures
            r.key() == self.key(),
    {
        Cryptor { key: self.key.clone() }
    }
}

/// Draws `n` random bytes from the operating system's generator.
///
/// Relies on `rand::rngs::OsRng::fill_bytes`; nothing is stated of the
/// values beyond their number.
#[verifier::external_body]
pub fn random_bytes(n: usize) -> (r: Vec<u8>)
    ensures
        r@.len() == n,
{
    let mut buffer = vec![0u8; n];
    rand::rngs::OsRng.fill_bytes(&mut buffer);
    buffer
}

/// The SHA-256 digest of a byte sequence.
///
/// Relies on `sha2::Sha256`: a deterministic 32-byte digest of the input.
#[verifier::external_body]
pub fn sha256(data: &Vec<u8>) -> (r: Vec<u8>)
    ensures
        r@ == sha256_of(data@),
        r@.len() == 32,
{
    let mut hasher = sha2::Sha256::new();
    hasher.update(data.as_slice());
    hasher.finalize().to_vec()
}

/// Derives the 32-byte AEAD key from a Diffie-Hellman shared secret by
/// HKDF-SHA256 with empty salt and info string `"encryption"`.
///
/// Relies on `hkdf::Hkdf::<Sha256>::new` and `expand`: deterministic, and a
/// 32-byte output is always within the expansion limit.
#[verifier::external_body]
pub fn generate_symmetric_key(secret: &Vec<u8>) -> (r: Vec<u8>)
    ensures
        r@ == hkdf_key_of(secret@),
        r@.len() == 32,
{
    let hk = hkdf::Hkdf::<sha2::Sha256>::new(None, secret.as_slice());
    let mut output = [0u8; 32];
    hk.expand("encryption".as_bytes(), &mut output).expect(
        "a 32-byte output is within the HKDF expansion limit",
    );
    output.to_vec()
}

/// Generates an ephemeral X25519 key pair, returning the secret and the
/// 32 public-key bytes.
///
/// Relies on `x25519_dalek::EphemeralSecret::random` and
/// `PublicKey::from(&secret)`; the secret is random, so nothing is stated of
/// the values.
#[verifier::external_body]
pub fn generate_ephemeral_keypair() -> (r: (x25519_dalek::EphemeralSecret, Vec<u8>))
    ensures
        r.1@.len() == 32,
{
    let secret = x25519_dalek::EphemeralSecret::random();
    let public = x25519_dalek::PublicKey::from(&secret);
    (secret, public.to_bytes().to_vec())
}

/// Computes the raw X25519 shared secret.
///
/// Relies on `EphemeralSecret::diffie_hellman`: it always yields 32 bytes.
#[verifier::external_body]
fn x25519_diffie_hellman(secret: x25519_dalek::EphemeralSecret, peer_public: &Vec<u8>) -> (r: Vec<
    u8,
>)
    requires
        peer_public@.len() == 32,
    ensures
        r@.len() == 32,
{
    let mut bytes = [0u8; 32];
    bytes.copy_from_slice(peer_public.as_slice());
    let public = x25519_dalek::PublicKey::from(bytes);
    secret.diffie_hellman(&public).to_bytes().to_vec()
}

/// Overwrites every byte of a buffer with zero.
pub fn wipe_bytes(buffer: &mut Vec<u8>)
    ensures
        final(buffer)@.len() == old(buffer)@.len(),
        forall|i: int| 0 <= i < final(buffer)@.len() ==> final(buffer)@[i] == 0u8,
{
    let mut i: usize = 0;
    while i < buffer.len()
        invariant
            i <= buffer@.len() == old(buffer)@.len(),
            forall|j: int| 0 <= j < i ==> buffer@[j] == 0u8,
        decreases buffer@.len() - i,
    {
        buffer.set(i, 0);
        i = i + 1;
    }
}

/// Computes the X25519 shared secret between an ephemeral secret and a
/// peer's 32 public-key bytes, consuming the secret and wiping the peer's
/// key from memory once the agreement is computed.
pub fn generate_shared_secret(
    secret: x25519_dalek::EphemeralSecret,
    peer_public: &mut Vec<u8>,
) -> (r: Vec<u8>)
    requires
        old(peer_public)@.len() == 32,
    ensures
        r@.len() == 32,
        final(peer_public)@.len() == 32,
        forall|i: int| 0 <= i < 32 ==> final(peer_public)@[i] == 0u8,
{
    let shared: Vec<u8> = x25519_diffie_hellman(secret, peer_public);
    wipe_bytes(peer_public);
    shared
}

} // verus!
