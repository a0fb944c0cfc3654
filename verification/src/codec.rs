//! Plaintext layout of one record and its length-delimited framing.
//!
//! A record's plaintext is `[pad_len | body | pad_len padding bytes]`, sized
//! so that the whole plaintext is the smallest multiple of [`crate::BLOCKSIZE`]
//! that can hold the one-byte header and the body.  On the wire the encrypted
//! packet is preceded by its length as a 4-byte big-endian prefix.

use vstd::prelude::*;

verus! {

use crate::BLOCKSIZE;

/// Errors raised while decoding inbound records.
#[derive(Clone, Copy, Debug, PartialEq, Eq, Structural)]
pub enum CodecError {
    /// The framed read returned no bytes: the peer closed cleanly.
    EndOfStream,
    /// AEAD verification of a record failed.
    Decrypt,
    /// The record's plaintext or body did not parse.
    Decode,
}

/// Length of the plaintext that carries a body of `n` bytes: the smallest
/// multiple of the block size that is at least `n + 1`.
pub open spec fn padded_len(n: nat) -> nat {
    ((n + BLOCKSIZE as nat) / (BLOCKSIZE as nat)) * (BLOCKSIZE as nat)
}

/// Number of padding bytes appended after a body of `n` bytes.
pub open spec fn pad_len(n: nat) -> nat {
    (padded_len(n) - (n + 1)) as nat
}

pub proof fn lemma_padded_len(n: nat)
    ensures
        padded_len(n) % (BLOCKSIZE as nat) == 0,
        n + 1 <= padded_len(n) < n + 1 + BLOCKSIZE,
        pad_len(n) < BLOCKSIZE,
{
    let b = BLOCKSIZE as nat;
    let q = (n + b) / b;
    assert(q * b % b == 0) by (nonlinear_arith)
        requires
            b == 64,
    ;
    assert(n + b == q * b + ((n + b) % b) && 0 <= (n + b) % b < b) by (nonlinear_arith)
        requires
            b == 64 && q == (n + b) / b,
    ;
}

/// The plaintext of a record that carries `body` padded with `padding`.
pub open spec fn plaintext_of(body: Seq<u8>, padding: Seq<u8>) -> Seq<u8> {
    seq![padding.len() as u8] + body + padding
}

/// What parsing a plaintext yields: the body bytes, unless the buffer is
/// empty or its padding length is inconsistent with its total length.
pub open spec fn parse_plaintext_spec(pt: Seq<u8>) -> Option<Seq<u8>> {
    if pt.len() == 0 {
        None
    } else if pt[0] + 1 > pt.len() {
        None
    } else {
        Some(pt.subrange(1, pt.len() - pt[0]))
    }
}

/// Builds the plaintext `[pad_len | body | padding]` of one record.
pub fn build_plaintext(body: &Vec<u8>, padding: &Vec<u8>) -> (pt: Vec<u8>)
    requires
        padding@.len() == pad_len(body@.len()),
        body@.len() + BLOCKSIZE <= usize::MAX,
    ensures
        pt@ == plaintext_of(body@, padding@),
        pt@.len() == padded_len(body@.len()),
        pt@.len() % (BLOCKSIZE as nat) == 0,
{
    proof {
        lemma_padded_len(body@.len());
    }
    let mut pt: Vec<u8> = Vec::new();
    pt.push(padding.len() as u8);
    let mut i: usize = 0;
    while i < body.len()
        invariant
            i <= body@.len(),
            pt@ == seq![padding@.len() as u8] + body@.subrange(0, i as int),
        decreases body@.len() - i,
    {
        pt.push(body[i]);
        i = i + 1;
    }
    assert(body@.subrange(0, body@.len() as int) == body@);
    let mut j: usize = 0;
    while j < padding.len()
        invariant
            j <= padding@.len(),
            pt@ == seq![padding@.len() as u8] + body@ + padding@.subrange(0, j as int),
        decreases padding@.len() - j,
    {
        pt.push(padding[j]);
        j = j + 1;
    }
    assert(padding@.subrange(0, padding@.len() as int) == padding@);
    pt
}

/// Recovers the body from a record's plaintext, rejecting an empty buffer or
/// a padding length inconsistent with the buffer's length.
pub fn parse_plaintext(pt: &Vec<u8>) -> (r: Result<Vec<u8>, CodecError>)
    ensures
        match r {
            Ok(body) => parse_plaintext_spec(pt@) == Some(body@),
            Err(e) => parse_plaintext_spec(pt@) is None && e == CodecError::Decode,
        },
{
    if pt.len() == 0 {
        return Err(CodecError::Decode);
    }
    let header: u8 = pt[0];
    if (header as usize) + 1 > pt.len() {
        return Err(CodecError::Decode);
    }
    let end: usize = pt.len() - (header as usize);
    let mut body: Vec<u8> = Vec::new();
    let mut i: usize = 1;
    while i < end
        invariant
            1 <= i <= end <= pt@.len(),
            body@ == pt@.subrange(1, i as int),
        decreases end - i,
    {
        body.push(pt[i]);
        i = i + 1;
    }
    Ok(body)
}

/// Round trip: parsing the plaintext built from a body and its padding gives
/// the body back, whatever the padding bytes hold.
pub proof fn lemma_plaintext_round_trip(body: Seq<u8>, padding: Seq<u8>)
    requires
        padding.len() == pad_len(body.len()),
    ensures
        parse_plaintext_spec(plaintext_of(body, padding)) == Some(body),
{
    lemma_padded_len(body.len());
    let pt = plaintext_of(body, padding);
    assert(pt[0] == padding.len() as u8);
    assert(pt.subrange(1, pt.len() - pt[0]) == body);
}

/// The 4-byte big-endian length prefix of a frame whose payload has `n` bytes.
pub open spec fn be32_of(n: nat) -> Seq<u8> {
    seq![
        ((n / 0x1000000) % 0x100) as u8,
        ((n / 0x10000) % 0x100) as u8,
        ((n / 0x100) % 0x100) as u8,
        (n % 0x100) as u8,
    ]
}

/// A length-delimited frame: 4-byte big-endian payload length, then the payload.
pub open spec fn frame_of(payload: Seq<u8>) -> Seq<u8> {
    be32_of(payload.len()) + payload
}

/// Prefixes a payload with its 4-byte big-endian length.
pub fn frame_payload(payload: &Vec<u8>) -> (f: Vec<u8>)
    requires
        payload@.len() <= u32::MAX,
    ensures
        f@ == frame_of(payload@),
        f@.len() == payload@.len() + 4,
{
    let n: usize = payload.len();
    let mut f: Vec<u8> = Vec::new();
    f.push(((n / 0x1000000) % 0x100) as u8);
    f.push(((n / 0x10000) % 0x100) as u8);
    f.push(((n / 0x100) % 0x100) as u8);
    f.push((n % 0x100) as u8);
    let mut i: usize = 0;
    while i < payload.len()
        invariant
            i <= payload@.len(),
            f@ == be32_of(payload@.len()) + payload@.subrange(0, i as int),
        decreases payload@.len() - i,
    {
        f.push(payload[i]);
        i = i + 1;
    }
    assert(payload@.subrange(0, payload@.len() as int) == payload@);
    f
}

/// Reads the payload length out of a frame's 4-byte big-endian prefix.
pub fn parse_frame_len(header: &Vec<u8>) -> (n: u32)
    requires
        header@.len() == 4,
    ensures
        be32_of(n as nat) == header@,
{
    let n: u32 = (header[0] as u32) * 0x1000000 + (header[1] as u32) * 0x10000 + (header[2] as u32)
        * 0x100 + (header[3] as u32);
    proof {
        let b0 = header@[0] as nat;
        let b1 = header@[1] as nat;
        let b2 = header@[2] as nat;
        let b3 = header@[3] as nat;
        let m = b0 * 0x1000000 + b1 * 0x10000 + b2 * 0x100 + b3;
        assert((m / 0x1000000) % 0x100 == b0 && (m / 0x10000) % 0x100 == b1 && (m / 0x100) % 0x100
            == b2 && m % 0x100 == b3) by (nonlinear_arith)
            requires
                b0 < 0x100 && b1 < 0x100 && b2 < 0x100 && b3 < 0x100 && m == b0 * 0x1000000 + b1
                    * 0x10000 + b2 * 0x100 + b3,
        ;
        assert(be32_of(n as nat) =~= header@);
    }
    n
}

/// Computes the padded plaintext length for a body of `n` bytes.
pub fn packet_length(n: usize) -> (r: usize)
    requires
        n + BLOCKSIZE <= usize::MAX,
    ensures
        r == padded_len(n as nat),
{
    ((n + BLOCKSIZE) / BLOCKSIZE) * BLOCKSIZE
}

/// Computes the number of padding bytes for a body of `n` bytes.
pub fn padding_length(n: usize) -> (r: usize)
    requires
        n + BLOCKSIZE <= usize::MAX,
    ensures
        r == pad_len(n as nat),
        r < BLOCKSIZE,
{
    proof {
        lemma_padded_len(n as nat);
    }
    packet_length(n) - n - 1
}

} // verus!
