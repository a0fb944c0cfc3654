//! Hidden-service identities.
//!
//! A peer is identified by the 56-character textual form of a Tor v3 onion
//! service, which encodes an Ed25519 verifying key.  The text is the stable
//! routing key of the engine; the verifying key recovered from it checks the
//! signatures exchanged during the handshake.

use ed25519_dalek::Signer;
use ed25519_dalek::Verifier;
use std::str::FromStr;
use vstd::prelude::*;

verus! {

/// Whether a piece of text is a well-formed v3 onion service identifier, as
/// `tor_client_lib::key::TorServiceId::from_str` decides it: base32 text that
/// decodes to 35 bytes whose embedded checksum matches.
pub uninterp spec fn id_valid(text: Seq<char>) -> bool;

/// The Ed25519 verifying key encoded in an identifier's text, if the text
/// parses as a service identifier and its key bytes form a valid curve
/// point, as `TorServiceId::from_str` followed by
/// `TorServiceId::verifying_key` computes it.
pub uninterp spec fn vk_of_id(text: Seq<char>) -> Option<Seq<u8>>;

/// The Ed25519 signature over a message by the holder of an expanded signing
/// key, as `tor_client_lib::key::TorEd25519SigningKey::try_sign` computes it
/// (Ed25519 signing is deterministic).
pub uninterp spec fn ed_sign(key: Seq<u8>, message: Seq<u8>) -> Seq<u8>;

/// Whether a signature verifies over a message under a verifying key, as
/// `ed25519_dalek::VerifyingKey::verify` decides it.
pub uninterp spec fn ed_verify(vk: Seq<u8>, message: Seq<u8>, signature: Seq<u8>) -> bool;

/// The verifying key that belongs to an expanded Ed25519 signing key, as
/// `tor_client_lib::key::TorEd25519SigningKey::verifying_key` computes it.
pub uninterp spec fn signing_vk_of(key: Seq<u8>) -> Seq<u8>;

/// A peer's identity: the textual identifier of its hidden service.
///
/// The text is kept exactly as received; whether it is well formed is a
/// separate question ([`id_valid`]), asked where the protocol requires it.
#[derive(Debug)]
pub struct ServiceId {
    text: String,
}

impl View for ServiceId {
    type V = Seq<char>;

    closed spec fn view(&self) -> Seq<char> {
        self.text@
    }
}

impl ServiceId {
    /// Wraps a piece of text as an identity without checking it.
    pub fn from_text(text: String) -> (r: ServiceId)
        ensures
            r@ == text@,
    {
        ServiceId { text }
    }

    /// Parses and validates an identifier.
    ///
    /// Relies on `TorServiceId::from_str`, which accepts exactly the text
    /// that base32-decodes to 35 bytes with a matching checksum and keeps
    /// that text unchanged.
    #[verifier::external_body]
    pub fn parse(text: &str) -> (r: Option<ServiceId>)
        ensures
            r is Some <==> id_valid(text@),
            r matches Some(id) ==> id@ == text@,
    {
        match tor_client_lib::key::TorServiceId::from_str(text) {
            Ok(_) => Some(ServiceId { text: text.to_string() }),
            Err(_) => None,
        }
    }

    /// The identifier's text.
    pub fn as_str(&self) -> (r: &str)
        ensures
            r@ == self@,
    {
        self.text.as_str()
    }

    /// A copy of the identifier's text.
    pub fn to_text(&self) -> (r: String)
        ensures
            r@ == self@,
    {
        self.text.clone()
    }

    /// Whether two identities carry the same text.
    pub fn matches(&self, other: &ServiceId) -> (r: bool)
        ensures
            r == (self@ == other@),
    {
        self.text == other.text
    }

    /// The Ed25519 verifying key bytes encoded in this identity.
    ///
    /// Relies on `TorServiceId::from_str` and `TorServiceId::verifying_key`:
    /// a deterministic function of the identifier's text that yields the 32
    /// key bytes, or fails when the text does not parse or the bytes are
    /// not a valid curve point.
    #[verifier::external_body]
    pub fn verifying_key(&self) -> (r: Option<Vec<u8>>)
        ensures
            r is Some <==> vk_of_id(self@) is Some,
            r matches Some(vk) ==> Some(vk@) == vk_of_id(self@) && vk@.len() == 32,
    {
        let id = tor_client_lib::key::TorServiceId::from_str(&self.text).ok()?;
        let vk = id.verifying_key().ok()?;
        Some(vk.to_bytes().to_vec())
    }
}

impl Clone for ServiceId {
    fn clone(&self) -> (r: Self)
        ensures
            r@ == self@,
    {
        ServiceId { text: self.text.clone() }
    }
}

/// Signs a message with a 64-byte expanded Ed25519 signing key.
///
/// Relies on `TorEd25519SigningKey::from_bytes` and its `Signer` impl:
/// signing is a deterministic function of key and message, yields 64 bytes,
/// and the signature verifies under the key's own verifying key.
#[verifier::external_body]
pub fn sign_message(key: &Vec<u8>, message: &Vec<u8>) -> (r: Vec<u8>)
    requires
        key@.len() == 64,
    ensures
        r@ == ed_sign(key@, message@),
        r@.len() == 64,
        ed_verify(signing_vk_of(key@), message@, r@),
{
    let mut bytes = [0u8; 64];
    bytes.copy_from_slice(key.as_slice());
    let signing_key = tor_client_lib::key::TorEd25519SigningKey::from_bytes(bytes);
    signing_key.sign(message).to_bytes().to_vec()
}

/// Checks an Ed25519 signature under the verifying key of an identity.
///
/// Relies on `TorServiceId::from_str`, `TorServiceId::verifying_key` and
/// `ed25519_dalek::VerifyingKey::verify`, all deterministic in their
/// inputs; the check fails whenever the identity yields no verifying key.
#[verifier::external_body]
pub fn verify_signature(id: &ServiceId, message: &Vec<u8>, signature: &Vec<u8>) -> (r: bool)
    requires
        signature@.len() == 64,
    ensures
        r == (vk_of_id(id@) matches Some(vk) && ed_verify(vk, message@, signature@)),
{
    let Ok(tor_id) = tor_client_lib::key::TorServiceId::from_str(&id.text) else {
        return false;
    };
    let Ok(vk) = tor_id.verifying_key() else {
        return false;
    };
    let Ok(sig) = ed25519_dalek::Signature::from_slice(signature.as_slice()) else {
        return false;
    };
    vk.verify(message, &sig).is_ok()
}

} // verus!
