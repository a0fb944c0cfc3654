//! Sealing and opening whole records.
//!
//! Outbound, a body is serialized, padded to a whole number of blocks,
//! encrypted under a fresh random nonce, and framed by its length.  Inbound,
//! one frame's payload is decrypted, unpadded and deserialized.  Opening is
//! the exact inverse of sealing under the same key.

use vstd::prelude::*;

verus! {

use crate::BLOCKSIZE;
use crate::cbor::{Body, BodyView, body_view_encodable, body_view_wf, decode_body, encode_body,
    encode_body_spec, lemma_body_round_trip, parse_body_spec};
use crate::codec::{CodecError, build_plaintext, frame_payload, frame_of, lemma_plaintext_round_trip,
    padded_len, padding_length, parse_plaintext, parse_plaintext_spec};
use crate::crypto::{Cryptor, aead_open_spec, random_bytes};

/// Whether an encrypted record payload opens, under `key`, to the body `b`:
/// decryption succeeds, the plaintext is exactly the smallest whole number
/// of blocks that holds the body's encoding and the one-byte header, and
/// stripping the padding leaves exactly the canonical encoding of `b`.
pub open spec fn record_opens_to(key: Seq<u8>, payload: Seq<u8>, b: BodyView) -> bool {
    match aead_open_spec(key, payload) {
        Some(pt) => {
            &&& payload.len() == pt.len() + 28
            &&& pt.len() == padded_len(encode_body_spec(b).len())
            &&& pt.len() % (BLOCKSIZE as nat) == 0
            &&& match parse_plaintext_spec(pt) {
                Some(enc) => parse_body_spec(enc) == Some(b),
                None => false,
            }
        },
        None => false,
    }
}

/// What opening a record payload yields: the body, or the error that stops
/// the connection — `Decrypt` when the payload is too short or its tag does
/// not verify, `Decode` when the plaintext or the body does not parse.
pub open spec fn open_record_spec(key: Seq<u8>, payload: Seq<u8>) -> Result<BodyView, CodecError> {
    if payload.len() < 12 {
        Err(CodecError::Decrypt)
    } else {
        match aead_open_spec(key, payload) {
            None => Err(CodecError::Decrypt),
            Some(pt) => match parse_plaintext_spec(pt) {
                None => Err(CodecError::Decode),
                Some(enc) => match parse_body_spec(enc) {
                    None => Err(CodecError::Decode),
                    Some(b) => Ok(b),
                },
            },
        }
    }
}

/// Serializes, pads, encrypts and frames one body, yielding the on-wire
/// bytes `u32be length || nonce || ciphertext_with_tag`.
pub fn seal_record(cryptor: &Cryptor, body: &Body) -> (r: Vec<u8>)
    requires
        cryptor.wf(),
        body.wf(),
        encode_body_spec(body@).len() + 100 <= u32::MAX,
    ensures
        r@.len() > 4,
        r@ == frame_of(r@.skip(4)),
        record_opens_to(cryptor.key(), r@.skip(4), body@),
{
    let encoded: Vec<u8> = encode_body(body);
    let pad: usize = padding_length(encoded.len());
    let padding: Vec<u8> = random_bytes(pad);
    let plaintext: Vec<u8> = build_plaintext(&encoded, &padding);
    let payload: Vec<u8> = cryptor.aead_encrypt(&plaintext);
    let framed: Vec<u8> = frame_payload(&payload);
    proof {
        lemma_plaintext_round_trip(encoded@, padding@);
        assert(body_view_encodable(body@)) by {
            match body@ {
                BodyView::Auth(m) => {
                    assert(encoded@.len() >= vstd::utf8::encode_utf8(m.service_id).len());
                },
                BodyView::ConnectionAuthorized => {},
                BodyView::Chat(m) => {
                    assert(encoded@.len() >= vstd::utf8::encode_utf8(m.sender).len());
                    assert(encoded@.len() >= vstd::utf8::encode_utf8(m.recipient).len());
                    assert(encoded@.len() >= vstd::utf8::encode_utf8(m.message).len());
                },
            }
        }
        lemma_body_round_trip(body@);
        assert(framed@.skip(4) =~= payload@);
    }
    framed
}

/// Decrypts and decodes one frame's payload (the bytes after the length
/// prefix), failing exactly as [`open_record_spec`] says.
pub fn open_record(cryptor: &Cryptor, payload: &Vec<u8>) -> (r: Result<Body, CodecError>)
    requires
        cryptor.wf(),
    ensures
        r matches Ok(b) ==> open_record_spec(cryptor.key(), payload@) == Ok::<_, CodecError>(b@)
            && b.wf(),
        r matches Err(e) ==> open_record_spec(cryptor.key(), payload@) == Err::<BodyView, _>(e),
{
    if payload.len() < 12 {
        return Err(CodecError::Decrypt);
    }
    let plaintext: Vec<u8> = match cryptor.aead_decrypt(payload) {
        Some(pt) => pt,
        None => {
            return Err(CodecError::Decrypt);
        },
    };
    let encoded: Vec<u8> = match parse_plaintext(&plaintext) {
        Ok(enc) => enc,
        Err(e) => {
            return Err(e);
        },
    };
    match decode_body(&encoded) {
        Ok(b) => Ok(b),
        Err(e) => Err(e),
    }
}

/// Round trip: any payload that opens to a body under a key is opened to
/// exactly that body — so a sealed record, carried intact, decodes on the
/// other side to the body that was sent.
pub proof fn lemma_record_round_trip(key: Seq<u8>, payload: Seq<u8>, b: BodyView)
    requires
        record_opens_to(key, payload, b),
    ensures
        open_record_spec(key, payload) == Ok::<_, CodecError>(b),
{
}

} // verus!
