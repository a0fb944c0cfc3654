//! The wire encoding of record bodies.
//!
//! A body is one of three variants, serialized as a CBOR array whose first
//! element is the variant's tag: `[0, service_id, signature]` for an auth
//! message, `[1]` for the connection-authorized mark, and
//! `[2, date, sender, recipient, message]` for a chat message.  Integers,
//! text and byte strings use minimal-length CBOR headers, and the decoder
//! accepts exactly that canonical form.

use vstd::prelude::*;

verus! {

use vstd::utf8::{decode_utf8, encode_utf8, valid_utf8};
use crate::chat::{ChatMessage, ChatMessageView};
use crate::codec::CodecError;
use crate::handshake::{AuthMessage, AuthMessageView};
use crate::identity::ServiceId;

/// One record body.
#[derive(Debug)]
pub enum Body {
    /// The identity-binding handshake record.
    Auth(AuthMessage),
    /// The acceptor's go-ahead after admission.
    ConnectionAuthorized,
    /// One chat message.
    Chat(ChatMessage),
}

/// The mathematical content of a [`Body`].
pub enum BodyView {
    Auth(AuthMessageView),
    ConnectionAuthorized,
    Chat(ChatMessageView),
}

impl View for Body {
    type V = BodyView;

    open spec fn view(&self) -> BodyView {
        match self {
            Body::Auth(m) => BodyView::Auth(m@),
            Body::ConnectionAuthorized => BodyView::ConnectionAuthorized,
            Body::Chat(m) => BodyView::Chat(m@),
        }
    }
}

impl Body {
    /// Whether the body is well formed: an auth signature has 64 bytes.
    pub open spec fn wf(&self) -> bool {
        match self {
            Body::Auth(m) => m.wf(),
            _ => true,
        }
    }
}

/// Whether a body's content is well formed: an auth signature has 64 bytes.
pub open spec fn body_view_wf(b: BodyView) -> bool {
    match b {
        BodyView::Auth(m) => m.signature.len() == 64,
        _ => true,
    }
}

/// The CBOR header that introduces an item of major type `major` with
/// value or length `n`, using the shortest form that holds `n`.
pub open spec fn cbor_hdr(major: u8, n: nat) -> Seq<u8> {
    let lead = (major * 0x20) as u8;
    if n < 24 {
        seq![(lead + n) as u8]
    } else if n < 0x100 {
        seq![(lead + 24) as u8, n as u8]
    } else if n < 0x10000 {
        seq![(lead + 25) as u8, ((n / 0x100) % 0x100) as u8, (n % 0x100) as u8]
    } else if n < 0x100000000 {
        seq![
            (lead + 26) as u8,
            ((n / 0x1000000) % 0x100) as u8,
            ((n / 0x10000) % 0x100) as u8,
            ((n / 0x100) % 0x100) as u8,
            (n % 0x100) as u8,
        ]
    } else {
        seq![
            (lead + 27) as u8,
            ((n / 0x100000000000000) % 0x100) as u8,
            ((n / 0x1000000000000) % 0x100) as u8,
            ((n / 0x10000000000) % 0x100) as u8,
            ((n / 0x100000000) % 0x100) as u8,
            ((n / 0x1000000) % 0x100) as u8,
            ((n / 0x10000) % 0x100) as u8,
            ((n / 0x100) % 0x100) as u8,
            (n % 0x100) as u8,
        ]
    }
}

/// A CBOR unsigned integer.
pub open spec fn cbor_uint(n: nat) -> Seq<u8> {
    cbor_hdr(0, n)
}

/// A CBOR text string: header, then the text's UTF-8 bytes.
pub open spec fn cbor_text(s: Seq<char>) -> Seq<u8> {
    cbor_hdr(3, encode_utf8(s).len()) + encode_utf8(s)
}

/// A CBOR byte string: header, then the bytes.
pub open spec fn cbor_bstr(b: Seq<u8>) -> Seq<u8> {
    cbor_hdr(2, b.len()) + b
}

/// The encoding of a body.
pub open spec fn encode_body_spec(b: BodyView) -> Seq<u8> {
    match b {
        BodyView::Auth(m) => seq![0x83u8, 0x00u8] + cbor_text(m.service_id) + cbor_bstr(
            m.signature,
        ),
        BodyView::ConnectionAuthorized => seq![0x81u8, 0x01u8],
        BodyView::Chat(m) => seq![0x85u8, 0x02u8] + cbor_uint(m.date as nat) + cbor_text(m.sender)
            + cbor_text(m.recipient) + cbor_text(m.message),
    }
}

/// Parses a CBOR header of major type `major` at `pos`, yielding the value
/// and the header's length.  Only the shortest form of each value is
/// accepted.
pub open spec fn parse_hdr(bytes: Seq<u8>, pos: int, major: u8) -> Option<(nat, int)> {
    if !(0 <= pos < bytes.len()) {
        None
    } else {
        let lead = bytes[pos];
        if lead / 0x20 != major {
            None
        } else {
            let ai = (lead % 0x20) as nat;
            if ai < 24 {
                Some((ai, 1))
            } else if ai == 24 {
                if pos + 2 <= bytes.len() && bytes[pos + 1] >= 24 {
                    Some((bytes[pos + 1] as nat, 2))
                } else {
                    None
                }
            } else if ai == 25 {
                if pos + 3 <= bytes.len() {
                    let n = bytes[pos + 1] * 0x100 + bytes[pos + 2];
                    if n >= 0x100 {
                        Some((n as nat, 3))
                    } else {
                        None
                    }
                } else {
                    None
                }
            } else if ai == 26 {
                if pos + 5 <= bytes.len() {
                    let n = bytes[pos + 1] * 0x1000000 + bytes[pos + 2] * 0x10000 + bytes[pos + 3]
                        * 0x100 + bytes[pos + 4];
                    if n >= 0x10000 {
                        Some((n as nat, 5))
                    } else {
                        None
                    }
                } else {
                    None
                }
            } else if ai == 27 {
                if pos + 9 <= bytes.len() {
                    let hi = bytes[pos + 1] * 0x1000000 + bytes[pos + 2] * 0x10000 + bytes[pos + 3]
                        * 0x100 + bytes[pos + 4];
                    let lo = bytes[pos + 5] * 0x1000000 + bytes[pos + 6] * 0x10000 + bytes[pos + 7]
                        * 0x100 + bytes[pos + 8];
                    let n = hi * 0x100000000 + lo;
                    if n >= 0x100000000 {
                        Some((n as nat, 9))
                    } else {
                        None
                    }
                } else {
                    None
                }
            } else {
                None
            }
        }
    }
}

/// Parses a CBOR text string at `pos`, yielding the text and the number of
/// bytes consumed.
pub open spec fn parse_text(bytes: Seq<u8>, pos: int) -> Option<(Seq<char>, int)> {
    match parse_hdr(bytes, pos, 3) {
        None => None,
        Some((n, hl)) => {
            if pos + hl + n <= bytes.len() && valid_utf8(
                bytes.subrange(pos + hl, pos + hl + n),
            ) {
                Some((decode_utf8(bytes.subrange(pos + hl, pos + hl + n)), hl + n))
            } else {
                None
            }
        },
    }
}

/// Parses a CBOR byte string at `pos`, yielding the bytes and the number of
/// bytes consumed.
pub open spec fn parse_bstr(bytes: Seq<u8>, pos: int) -> Option<(Seq<u8>, int)> {
    match parse_hdr(bytes, pos, 2) {
        None => None,
        Some((n, hl)) => {
            if pos + hl + n <= bytes.len() {
                Some((bytes.subrange(pos + hl, pos + hl + n), hl + n))
            } else {
                None
            }
        },
    }
}

/// What decoding a body yields: the body encoded in the bytes, or nothing
/// when they are not the canonical encoding of any body.
pub open spec fn parse_body_spec(bytes: Seq<u8>) -> Option<BodyView> {
    if bytes.len() < 2 {
        None
    } else if bytes[0] == 0x81 {
        if bytes[1] == 0x01 && bytes.len() == 2 {
            Some(BodyView::ConnectionAuthorized)
        } else {
            None
        }
    } else if bytes[0] == 0x83 {
        if bytes[1] != 0x00 {
            None
        } else {
            match parse_text(bytes, 2) {
                None => None,
                Some((sid, l1)) => match parse_bstr(bytes, 2 + l1) {
                    None => None,
                    Some((sig, l2)) => {
                        if sig.len() == 64 && 2 + l1 + l2 == bytes.len() {
                            Some(BodyView::Auth(AuthMessageView { service_id: sid, signature: sig }))
                        } else {
                            None
                        }
                    },
                },
            }
        }
    } else if bytes[0] == 0x85 {
        if bytes[1] != 0x02 {
            None
        } else {
            match parse_hdr(bytes, 2, 0) {
                None => None,
                Some((date, l1)) => match parse_text(bytes, 2 + l1) {
                    None => None,
                    Some((sender, l2)) => match parse_text(bytes, 2 + l1 + l2) {
                        None => None,
                        Some((recipient, l3)) => match parse_text(bytes, 2 + l1 + l2 + l3) {
                            None => None,
                            Some((message, l4)) => {
                                if 2 + l1 + l2 + l3 + l4 == bytes.len() {
                                    Some(
                                        BodyView::Chat(
                                            ChatMessageView {
                                                date: date as u64,
                                                sender,
                                                recipient,
                                                message,
                                            },
                                        ),
                                    )
                                } else {
                                    None
                                }
                            },
                        },
                    },
                },
            }
        }
    } else {
        None
    }
}

/// Appends the shortest CBOR header for major type `major` and value `n`.
fn push_hdr(out: &mut Vec<u8>, major: u8, n: u64)
    requires
        major <= 5,
    ensures
        final(out)@ == old(out)@ + cbor_hdr(major, n as nat),
{
    let lead: u8 = major * 0x20;
    if n < 24 {
        out.push(lead + n as u8);
    } else if n < 0x100 {
        out.push(lead + 24);
        out.push(n as u8);
    } else if n < 0x10000 {
        out.push(lead + 25);
        out.push((n / 0x100) as u8);
        out.push((n % 0x100) as u8);
    } else if n < 0x100000000 {
        out.push(lead + 26);
        out.push((n / 0x1000000) as u8);
        out.push(((n / 0x10000) % 0x100) as u8);
        out.push(((n / 0x100) % 0x100) as u8);
        out.push((n % 0x100) as u8);
    } else {
        out.push(lead + 27);
        out.push((n / 0x100000000000000) as u8);
        out.push(((n / 0x1000000000000) % 0x100) as u8);
        out.push(((n / 0x10000000000) % 0x100) as u8);
        out.push(((n / 0x100000000) % 0x100) as u8);
        out.push(((n / 0x1000000) % 0x100) as u8);
        out.push(((n / 0x10000) % 0x100) as u8);
        out.push(((n / 0x100) % 0x100) as u8);
        out.push((n % 0x100) as u8);
    }
    proof {
        assert(out@ =~= old(out)@ + cbor_hdr(major, n as nat));
    }
}

/// Appends the CBOR text string holding `s`.
fn push_text(out: &mut Vec<u8>, s: &str)
    ensures
        final(out)@ == old(out)@ + cbor_text(s@),
{
    let bytes: Vec<u8> = s.as_bytes_vec();
    push_hdr(out, 3, bytes.len() as u64);
    let mut i: usize = 0;
    while i < bytes.len()
        invariant
            i <= bytes@.len(),
            bytes@ == encode_utf8(s@),
            out@ == old(out)@ + cbor_hdr(3, bytes@.len()) + bytes@.subrange(0, i as int),
        decreases bytes@.len() - i,
    {
        out.push(bytes[i]);
        i = i + 1;
    }
    proof {
        assert(bytes@.subrange(0, bytes@.len() as int) == bytes@);
        assert(out@ =~= old(out)@ + cbor_text(s@));
    }
}

/// Appends the CBOR byte string holding `b`.
fn push_bstr(out: &mut Vec<u8>, b: &Vec<u8>)
    ensures
        final(out)@ == old(out)@ + cbor_bstr(b@),
{
    push_hdr(out, 2, b.len() as u64);
    let mut i: usize = 0;
    while i < b.len()
        invariant
            i <= b@.len(),
            out@ == old(out)@ + cbor_hdr(2, b@.len()) + b@.subrange(0, i as int),
        decreases b@.len() - i,
    {
        out.push(b[i]);
        i = i + 1;
    }
    proof {
        assert(b@.subrange(0, b@.len() as int) == b@);
        assert(out@ =~= old(out)@ + cbor_bstr(b@));
    }
}

/// Serializes a body to its canonical wire bytes.
pub fn encode_body(body: &Body) -> (r: Vec<u8>)
    ensures
        r@ == encode_body_spec(body@),
{
    let mut out: Vec<u8> = Vec::new();
    match body {
        Body::Auth(m) => {
            out.push(0x83);
            out.push(0x00);
            let sid: String = m.service_id();
            push_text(&mut out, sid.as_str());
            push_bstr(&mut out, m.signature());
            proof {
                assert(out@ =~= encode_body_spec(body@));
            }
        },
        Body::ConnectionAuthorized => {
            out.push(0x81);
            out.push(0x01);
            proof {
                assert(out@ =~= encode_body_spec(body@));
            }
        },
        Body::Chat(m) => {
            out.push(0x85);
            out.push(0x02);
            push_hdr(&mut out, 0, m.date);
            push_text(&mut out, m.sender.as_str());
            push_text(&mut out, m.recipient.as_str());
            push_text(&mut out, m.message.as_str());
            proof {
                assert(out@ =~= encode_body_spec(body@));
            }
        },
    }
    out
}

/// Turns UTF-8 bytes into a string.
///
/// Relies on `String::from_utf8`: it succeeds exactly when the bytes are
/// valid UTF-8, and the returned string holds exactly those bytes.
#[verifier::external_body]
fn vec_to_string(bytes: Vec<u8>) -> (r: Option<String>)
    ensures
        r is Some <==> valid_utf8(bytes@),
        r matches Some(s) ==> s@ == decode_utf8(bytes@),
{
    match String::from_utf8(bytes) {
        Ok(s) => Some(s),
        Err(_) => None,
    }
}

/// Copies `bytes[start..end]` into a fresh vector.
fn copy_range(bytes: &Vec<u8>, start: usize, end: usize) -> (r: Vec<u8>)
    requires
        start <= end <= bytes@.len(),
    ensures
        r@ == bytes@.subrange(start as int, end as int),
{
    let mut r: Vec<u8> = Vec::new();
    let mut i: usize = start;
    while i < end
        invariant
            start <= i <= end <= bytes@.len(),
            r@ == bytes@.subrange(start as int, i as int),
        decreases end - i,
    {
        r.push(bytes[i]);
        i = i + 1;
    }
    r
}

/// Reads a CBOR header of major type `major` at `pos`, yielding the value
/// and the header's length.
fn read_hdr(bytes: &Vec<u8>, pos: usize, major: u8) -> (r: Option<(u64, usize)>)
    ensures
        r is Some <==> parse_hdr(bytes@, pos as int, major) is Some,
        r matches Some((v, l)) ==> parse_hdr(bytes@, pos as int, major) == Some(
            (v as nat, l as int),
        ) && pos + l <= bytes@.len(),
{
    if pos >= bytes.len() {
        return None;
    }
    let lead: u8 = bytes[pos];
    if lead / 0x20 != major {
        return None;
    }
    let ai: u8 = lead % 0x20;
    let remaining: usize = bytes.len() - pos;
    if ai < 24 {
        Some((ai as u64, 1))
    } else if ai == 24 {
        if remaining >= 2 && bytes[pos + 1] >= 24 {
            Some((bytes[pos + 1] as u64, 2))
        } else {
            None
        }
    } else if ai == 25 {
        if remaining >= 3 {
            let n: u64 = (bytes[pos + 1] as u64) * 0x100 + (bytes[pos + 2] as u64);
            if n >= 0x100 {
                Some((n, 3))
            } else {
                None
            }
        } else {
            None
        }
    } else if ai == 26 {
        if remaining >= 5 {
            let n: u64 = (bytes[pos + 1] as u64) * 0x1000000 + (bytes[pos + 2] as u64) * 0x10000 + (
            bytes[pos + 3] as u64) * 0x100 + (bytes[pos + 4] as u64);
            if n >= 0x10000 {
                Some((n, 5))
            } else {
                None
            }
        } else {
            None
        }
    } else if ai == 27 {
        if remaining >= 9 {
            let hi: u64 = (bytes[pos + 1] as u64) * 0x1000000 + (bytes[pos + 2] as u64) * 0x10000
                + (bytes[pos + 3] as u64) * 0x100 + (bytes[pos + 4] as u64);
            let lo: u64 = (bytes[pos + 5] as u64) * 0x1000000 + (bytes[pos + 6] as u64) * 0x10000
                + (bytes[pos + 7] as u64) * 0x100 + (bytes[pos + 8] as u64);
            proof {
                assert(hi * 0x100000000 + lo < 0x10000000000000000) by (nonlinear_arith)
                    requires
                        hi < 0x100000000 && lo < 0x100000000,
                ;
            }
            let n: u64 = hi * 0x100000000 + lo;
            if n >= 0x100000000 {
                Some((n, 9))
            } else {
                None
            }
        } else {
            None
        }
    } else {
        None
    }
}

/// Reads a CBOR text string at `pos`, yielding the string and the number of
/// bytes consumed.
fn read_text(bytes: &Vec<u8>, pos: usize) -> (r: Option<(String, usize)>)
    ensures
        r is Some <==> parse_text(bytes@, pos as int) is Some,
        r matches Some((s, l)) ==> parse_text(bytes@, pos as int) matches Some((sv, lv)) && s@ == sv
            && l == lv && pos + l <= bytes@.len(),
{
    let (n, hl) = read_hdr(bytes, pos, 3)?;
    let remaining: usize = bytes.len() - pos - hl;
    if n > remaining as u64 {
        return None;
    }
    let start: usize = pos + hl;
    let end: usize = start + (n as usize);
    let sub: Vec<u8> = copy_range(bytes, start, end);
    match vec_to_string(sub) {
        Some(s) => Some((s, hl + (n as usize))),
        None => None,
    }
}

/// Reads a CBOR byte string at `pos`, yielding the bytes and the number of
/// bytes consumed.
fn read_bstr(bytes: &Vec<u8>, pos: usize) -> (r: Option<(Vec<u8>, usize)>)
    ensures
        r is Some <==> parse_bstr(bytes@, pos as int) is Some,
        r matches Some((b, l)) ==> parse_bstr(bytes@, pos as int) matches Some((bv, lv)) && b@ == bv
            && l == lv && pos + l <= bytes@.len(),
{
    let (n, hl) = read_hdr(bytes, pos, 2)?;
    let remaining: usize = bytes.len() - pos - hl;
    if n > remaining as u64 {
        return None;
    }
    let start: usize = pos + hl;
    let end: usize = start + (n as usize);
    let sub: Vec<u8> = copy_range(bytes, start, end);
    Some((sub, hl + (n as usize)))
}

/// Deserializes a body from its wire bytes, rejecting anything that is not
/// the canonical encoding of some body.
pub fn decode_body(bytes: &Vec<u8>) -> (r: Result<Body, CodecError>)
    ensures
        r is Ok <==> parse_body_spec(bytes@) is Some,
        r matches Ok(b) ==> parse_body_spec(bytes@) == Some(b@) && b.wf(),
        r matches Err(e) ==> e == CodecError::Decode,
{
    if bytes.len() < 2 {
        return Err(CodecError::Decode);
    }
    let tag: u8 = bytes[0];
    if tag == 0x81 {
        if bytes[1] == 0x01 && bytes.len() == 2 {
            Ok(Body::ConnectionAuthorized)
        } else {
            Err(CodecError::Decode)
        }
    } else if tag == 0x83 {
        if bytes[1] != 0x00 {
            return Err(CodecError::Decode);
        }
        let Some((sid, l1)) = read_text(bytes, 2) else {
            return Err(CodecError::Decode);
        };
        let Some((sig, l2)) = read_bstr(bytes, 2 + l1) else {
            return Err(CodecError::Decode);
        };
        if sig.len() == 64 && 2 + l1 + l2 == bytes.len() {
            Ok(Body::Auth(AuthMessage::from_parts(sid, sig)))
        } else {
            Err(CodecError::Decode)
        }
    } else if tag == 0x85 {
        if bytes[1] != 0x02 {
            return Err(CodecError::Decode);
        }
        let Some((date, l1)) = read_hdr(bytes, 2, 0) else {
            return Err(CodecError::Decode);
        };
        let Some((sender, l2)) = read_text(bytes, 2 + l1) else {
            return Err(CodecError::Decode);
        };
        let Some((recipient, l3)) = read_text(bytes, 2 + l1 + l2) else {
            return Err(CodecError::Decode);
        };
        let Some((message, l4)) = read_text(bytes, 2 + l1 + l2 + l3) else {
            return Err(CodecError::Decode);
        };
        if 2 + l1 + l2 + l3 + l4 == bytes.len() {
            Ok(
                Body::Chat(
                    ChatMessage {
                        date,
                        sender: ServiceId::from_text(sender),
                        recipient: ServiceId::from_text(recipient),
                        message,
                    },
                ),
            )
        } else {
            Err(CodecError::Decode)
        }
    } else {
        Err(CodecError::Decode)
    }
}

/// Whether a body's content fits the wire format's size limits: every text
/// field's UTF-8 form is below `2^64` bytes.
pub open spec fn body_view_encodable(b: BodyView) -> bool {
    match b {
        BodyView::Auth(m) => encode_utf8(m.service_id).len() < 0x10000000000000000,
        BodyView::ConnectionAuthorized => true,
        BodyView::Chat(m) => encode_utf8(m.sender).len() < 0x10000000000000000 && encode_utf8(
            m.recipient,
        ).len() < 0x10000000000000000 && encode_utf8(m.message).len() < 0x10000000000000000,
    }
}

pub proof fn lemma_hdr_len(major: u8, n: nat)
    ensures
        1 <= cbor_hdr(major, n).len() <= 9,
        cbor_hdr(major, n).len() == if n < 24 {
            1int
        } else if n < 0x100 {
            2int
        } else if n < 0x10000 {
            3int
        } else if n < 0x100000000 {
            5int
        } else {
            9int
        },
{
}

/// Parsing a header out of the bytes that hold its own encoding yields the
/// encoded value back.
proof fn lemma_parse_hdr_at(bytes: Seq<u8>, pos: int, major: u8, n: nat)
    requires
        major == 0 || major == 2 || major == 3,
        n < 0x10000000000000000,
        0 <= pos,
        pos + cbor_hdr(major, n).len() <= bytes.len(),
        bytes.subrange(pos, pos + cbor_hdr(major, n).len()) == cbor_hdr(major, n),
    ensures
        parse_hdr(bytes, pos, major) == Some((n, cbor_hdr(major, n).len() as int)),
{
    let hdr = cbor_hdr(major, n);
    let hl = hdr.len() as int;
    assert forall|i: int| 0 <= i < hl implies bytes[pos + i] == hdr[i] by {
        assert(bytes.subrange(pos, pos + hl)[i] == bytes[pos + i]);
    }
    assert(bytes[pos] == hdr[0]) by {
        assert(bytes[pos] == bytes[pos + 0]);
    }
    let lead = bytes[pos];
    if n < 24 {
        assert(lead == (major * 0x20 + n) as u8);
        assert(lead / 0x20 == major && lead % 0x20 == n) by (nonlinear_arith)
            requires
                lead == major * 0x20 + n && n < 24 && major <= 3,
        ;
    } else if n < 0x100 {
        assert(lead == (major * 0x20 + 24) as u8);
        assert(lead / 0x20 == major && lead % 0x20 == 24) by (nonlinear_arith)
            requires
                lead == major * 0x20 + 24 && major <= 3,
        ;
        assert(bytes[pos + 1] == n as u8);
    } else if n < 0x10000 {
        assert(lead / 0x20 == major && lead % 0x20 == 25) by (nonlinear_arith)
            requires
                lead == major * 0x20 + 25 && major <= 3,
        ;
        let b1 = bytes[pos + 1] as nat;
        let b2 = bytes[pos + 2] as nat;
        assert(b1 * 0x100 + b2 == n) by (nonlinear_arith)
            requires
                n < 0x10000 && b1 == (n / 0x100) % 0x100 && b2 == n % 0x100,
        ;
    } else if n < 0x100000000 {
        assert(lead / 0x20 == major && lead % 0x20 == 26) by (nonlinear_arith)
            requires
                lead == major * 0x20 + 26 && major <= 3,
        ;
        let b1 = bytes[pos + 1] as nat;
        let b2 = bytes[pos + 2] as nat;
        let b3 = bytes[pos + 3] as nat;
        let b4 = bytes[pos + 4] as nat;
        assert(b1 * 0x1000000 + b2 * 0x10000 + b3 * 0x100 + b4 == n) by (nonlinear_arith)
            requires
                n < 0x100000000 && b1 == (n / 0x1000000) % 0x100 && b2 == (n / 0x10000) % 0x100
                    && b3 == (n / 0x100) % 0x100 && b4 == n % 0x100,
        ;
    } else {
        assert(lead / 0x20 == major && lead % 0x20 == 27) by (nonlinear_arith)
            requires
                lead == major * 0x20 + 27 && major <= 3,
        ;
        let b1 = bytes[pos + 1] as nat;
        let b2 = bytes[pos + 2] as nat;
        let b3 = bytes[pos + 3] as nat;
        let b4 = bytes[pos + 4] as nat;
        let b5 = bytes[pos + 5] as nat;
        let b6 = bytes[pos + 6] as nat;
        let b7 = bytes[pos + 7] as nat;
        let b8 = bytes[pos + 8] as nat;
        let m = n / 0x100000000;
        let l = n % 0x100000000;
        assert(m < 0x100000000 && l < 0x100000000 && m * 0x100000000 + l == n) by (nonlinear_arith)
            requires
                n < 0x10000000000000000 && m == n / 0x100000000 && l == n % 0x100000000,
        ;
        assert(n / 0x100000000000000 == m / 0x1000000 && n / 0x1000000000000 == m / 0x10000 && n
            / 0x10000000000 == m / 0x100 && n / 0x100000000 == m) by (nonlinear_arith)
            requires
                m == n / 0x100000000,
        ;
        assert(b1 * 0x1000000 + b2 * 0x10000 + b3 * 0x100 + b4 == m) by (nonlinear_arith)
            requires
                m < 0x100000000 && b1 == (m / 0x1000000) % 0x100 && b2 == (m / 0x10000) % 0x100
                    && b3 == (m / 0x100) % 0x100 && b4 == m % 0x100,
        ;
        assert((n / 0x1000000) % 0x100 == (l / 0x1000000) % 0x100 && (n / 0x10000) % 0x100 == (l
            / 0x10000) % 0x100 && (n / 0x100) % 0x100 == (l / 0x100) % 0x100 && n % 0x100 == l
            % 0x100) by (nonlinear_arith)
            requires
                l == n % 0x100000000,
        ;
        assert(b5 * 0x1000000 + b6 * 0x10000 + b7 * 0x100 + b8 == l) by (nonlinear_arith)
            requires
                l < 0x100000000 && b5 == (l / 0x1000000) % 0x100 && b6 == (l / 0x10000) % 0x100
                    && b7 == (l / 0x100) % 0x100 && b8 == l % 0x100,
        ;
        assert(m * 0x100000000 + l >= 0x100000000) by (nonlinear_arith)
            requires
                m >= 1 || l >= 0x100000000,
        ;
    }
}

/// Parsing a text string out of the bytes that hold its own encoding yields
/// the encoded text back.
proof fn lemma_parse_text_at(bytes: Seq<u8>, pos: int, s: Seq<char>)
    requires
        encode_utf8(s).len() < 0x10000000000000000,
        0 <= pos,
        pos + cbor_text(s).len() <= bytes.len(),
        bytes.subrange(pos, pos + cbor_text(s).len()) == cbor_text(s),
    ensures
        parse_text(bytes, pos) == Some((s, cbor_text(s).len() as int)),
{
    broadcast use vstd::utf8::encode_utf8_valid_utf8, vstd::utf8::encode_utf8_decode_utf8;

    let m = encode_utf8(s).len();
    let hdr = cbor_hdr(3, m);
    let hl = hdr.len() as int;
    let total = cbor_text(s).len() as int;
    assert(bytes.subrange(pos, pos + hl) =~= cbor_hdr(3, m)) by {
        assert forall|i: int| 0 <= i < hl implies bytes.subrange(pos, pos + hl)[i] == hdr[i] by {
            assert(bytes[pos + i] == bytes.subrange(pos, pos + total)[i]);
        }
    }
    lemma_parse_hdr_at(bytes, pos, 3, m);
    assert(bytes.subrange(pos + hl, pos + hl + m) =~= encode_utf8(s)) by {
        assert forall|i: int| 0 <= i < m implies bytes.subrange(pos + hl, pos + hl + m as int)[i]
            == encode_utf8(s)[i] by {
            assert(bytes[pos + hl + i] == bytes.subrange(pos, pos + total)[hl + i]);
        }
    }
}

/// Parsing a byte string out of the bytes that hold its own encoding yields
/// the encoded bytes back.
proof fn lemma_parse_bstr_at(bytes: Seq<u8>, pos: int, b: Seq<u8>)
    requires
        b.len() < 0x10000000000000000,
        0 <= pos,
        pos + cbor_bstr(b).len() <= bytes.len(),
        bytes.subrange(pos, pos + cbor_bstr(b).len()) == cbor_bstr(b),
    ensures
        parse_bstr(bytes, pos) == Some((b, cbor_bstr(b).len() as int)),
{
    let m = b.len();
    let hdr = cbor_hdr(2, m);
    let hl = hdr.len() as int;
    let total = cbor_bstr(b).len() as int;
    assert(bytes.subrange(pos, pos + hl) =~= cbor_hdr(2, m)) by {
        assert forall|i: int| 0 <= i < hl implies bytes.subrange(pos, pos + hl)[i] == hdr[i] by {
            assert(bytes[pos + i] == bytes.subrange(pos, pos + total)[i]);
        }
    }
    lemma_parse_hdr_at(bytes, pos, 2, m);
    assert(bytes.subrange(pos + hl, pos + hl + m) =~= b) by {
        assert forall|i: int| 0 <= i < m implies bytes.subrange(pos + hl, pos + hl + m as int)[i]
            == b[i] by {
            assert(bytes[pos + hl + i] == bytes.subrange(pos, pos + total)[hl + i]);
        }
    }
}

/// Round trip: decoding the canonical encoding of any well-formed body
/// yields that body back.
#[verifier::rlimit(60)]
pub proof fn lemma_body_round_trip(b: BodyView)
    requires
        body_view_wf(b),
        body_view_encodable(b),
    ensures
        parse_body_spec(encode_body_spec(b)) == Some(b),
{
    let bytes = encode_body_spec(b);
    match b {
        BodyView::Auth(m) => {
            let t = cbor_text(m.service_id);
            let s = cbor_bstr(m.signature);
            assert(bytes[0] == 0x83 && bytes[1] == 0x00);
            assert(bytes.subrange(2, 2 + t.len() as int) =~= t);
            lemma_parse_text_at(bytes, 2, m.service_id);
            assert(bytes.subrange(2 + t.len() as int, 2 + t.len() as int + s.len() as int) =~= s);
            lemma_parse_bstr_at(bytes, 2 + t.len() as int, m.signature);
        },
        BodyView::ConnectionAuthorized => {
            assert(bytes[0] == 0x81 && bytes[1] == 0x01 && bytes.len() == 2);
        },
        BodyView::Chat(m) => {
            let u = cbor_uint(m.date as nat);
            let t1 = cbor_text(m.sender);
            let t2 = cbor_text(m.recipient);
            let t3 = cbor_text(m.message);
            assert(bytes[0] == 0x85 && bytes[1] == 0x02);
            assert(bytes.subrange(2, 2 + u.len() as int) =~= u);
            lemma_parse_hdr_at(bytes, 2, 0, m.date as nat);
            let p1 = 2 + u.len() as int;
            assert(bytes.subrange(p1, p1 + t1.len() as int) =~= t1);
            lemma_parse_text_at(bytes, p1, m.sender);
            let p2 = p1 + t1.len() as int;
            assert(bytes.subrange(p2, p2 + t2.len() as int) =~= t2);
            lemma_parse_text_at(bytes, p2, m.recipient);
            let p3 = p2 + t2.len() as int;
            assert(bytes.subrange(p3, p3 + t3.len() as int) =~= t3);
            lemma_parse_text_at(bytes, p3, m.message);
        },
    }
}

} // verus!
