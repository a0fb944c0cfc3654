//! The per-connection state machine.
//!
//! One connection advances `Opened -> KeyAgreed -> Authenticated -> Live ->
//! Closed`; only `Live` permits chat records, and any failure before `Live`
//! drops the attempt without ever announcing a connection.  Each phase is
//! its own type, so a later step cannot be reached except through the
//! earlier ones; the surrounding runtime performs the I/O between steps and
//! feeds each step what it read.

use vstd::prelude::*;

verus! {

use vstd::utf8::encode_utf8;
use crate::cbor::{Body, BodyView, encode_body_spec, lemma_hdr_len};
use crate::chat::ChatMessage;
use crate::codec::CodecError;
use crate::crypto::{Cryptor, generate_ephemeral_keypair, generate_shared_secret,
    generate_symmetric_key, hkdf_key_of, wipe_bytes};
use crate::engine::{ConnectionDirection, ConnectionEvent, ConnectionInfo, ConnectionInfoView};
use crate::handshake::{ALGORITHM_CHACHA20POLY1305, AuthMessage, AuthMessageView, HandshakeError,
    PROTOCOL_VERSION, auth_data_of, auth_message_ok, encode_public_key_packet, generate_auth_data,
    generate_session_hash, parse_public_key_packet, session_hash_of, verify_auth_message};
use crate::identity::{ServiceId, id_valid, vk_of_id};
use crate::records::{open_record, open_record_spec, record_opens_to, seal_record};

/// An identity short enough that every record naming it fits a frame.
pub open spec fn id_fits(id: Seq<char>) -> bool {
    encode_utf8(id).len() <= 0x10000
}

/// The handshake error that stands for a record-codec failure: a record
/// that fails AEAD verification or does not decode.
pub open spec fn codec_to_handshake(e: CodecError) -> HandshakeError {
    match e {
        CodecError::Decrypt => HandshakeError::Decrypt,
        _ => HandshakeError::Decode,
    }
}

/// The ASCII uppercase of one character: a lowercase Latin letter loses
/// 0x20; everything else is unchanged.
pub open spec fn upper_char(c: char) -> char {
    if 97 <= c as u32 && c as u32 <= 122 {
        (((c as u32) - 32) as u32) as char
    } else {
        c
    }
}

/// The ASCII uppercase of a piece of text.
pub open spec fn upper_text(s: Seq<char>) -> Seq<char> {
    s.map_values(|c: char| upper_char(c))
}

/// Uppercases one ASCII character.
fn upper_char_exec(c: char) -> (r: char)
    ensures
        r == upper_char(c),
{
    proof {
        broadcast use vstd::utf8::char_u32_cast;

    }
    match c {
        'a' => 'A',
        'b' => 'B',
        'c' => 'C',
        'd' => 'D',
        'e' => 'E',
        'f' => 'F',
        'g' => 'G',
        'h' => 'H',
        'i' => 'I',
        'j' => 'J',
        'k' => 'K',
        'l' => 'L',
        'm' => 'M',
        'n' => 'N',
        'o' => 'O',
        'p' => 'P',
        'q' => 'Q',
        'r' => 'R',
        's' => 'S',
        't' => 'T',
        'u' => 'U',
        'v' => 'V',
        'w' => 'W',
        'x' => 'X',
        'y' => 'Y',
        'z' => 'Z',
        _ => c,
    }
}

/// The position of the last colon in a piece of text.
pub open spec fn last_colon(s: Seq<char>) -> Option<int>
    decreases s.len(),
{
    if s.len() == 0 {
        None
    } else if s.last() == ':' {
        Some(s.len() - 1)
    } else {
        last_colon(s.drop_last())
    }
}

/// Whether a character is an ASCII decimal digit.
pub open spec fn is_digit(c: char) -> bool {
    48 <= c as u32 && c as u32 <= 57
}

/// Whether a piece of text holds only ASCII decimal digits.
pub open spec fn all_digits(s: Seq<char>) -> bool {
    forall|i: int| 0 <= i < s.len() ==> is_digit(#[trigger] s[i])
}

/// The number the digits spell, most significant first.
pub open spec fn dec_value(s: Seq<char>) -> int
    decreases s.len(),
{
    if s.len() == 0 {
        0
    } else {
        dec_value(s.drop_last()) * 10 + (s.last() as u32 - 48)
    }
}

/// The position right after the host's first label: the first dot, or the
/// text's end.
pub open spec fn host_label_end(s: Seq<char>, i: int) -> int
    decreases s.len() - i,
{
    if i < 0 || i >= s.len() || s[i] == '.' {
        i
    } else {
        host_label_end(s, i + 1)
    }
}

/// What parsing a dial address yields: the expected peer's identity text
/// (the host's first label, ASCII-uppercased) and the port, provided the
/// text after the last colon is a number up to 65535 and the label is a
/// well-formed service identifier.
pub open spec fn parse_dial_address_spec(s: Seq<char>) -> Option<(Seq<char>, u16)> {
    match last_colon(s) {
        None => None,
        Some(ci) => {
            let port_text = s.skip(ci + 1);
            let domain = s.take(ci);
            let label = upper_text(domain.take(host_label_end(domain, 0)));
            if port_text.len() > 0 && all_digits(port_text) && dec_value(port_text) <= 65535
                && id_valid(label) {
                Some((label, dec_value(port_text) as u16))
            } else {
                None
            }
        },
    }
}

/// Splits a dial address into the expected peer's identity and the port:
/// the identity is the host's first label, ASCII-uppercased (the form the
/// identifier parser accepts), and the port is the number after the last
/// colon.
pub fn parse_dial_address(address: &str) -> (r: Option<(ServiceId, u16)>)
    ensures
        r matches Some((id, port)) ==> parse_dial_address_spec(address@) == Some((id@, port)),
        r is None ==> parse_dial_address_spec(address@) is None,
{
    let n: usize = address.unicode_len();
    // The last colon splits host from port.
    let mut colon: Option<usize> = None;
    let mut i: usize = 0;
    while i < n
        invariant
            i <= n == address@.len(),
            match colon {
                Some(c) => last_colon(address@.take(i as int)) == Some(c as int) && c < i,
                None => last_colon(address@.take(i as int)) is None,
            },
        decreases n - i,
    {
        proof {
            assert(address@.take(i + 1).drop_last() =~= address@.take(i as int));
            assert(address@.take(i + 1).last() == address@[i as int]);
        }
        if address.get_char(i) == ':' {
            colon = Some(i);
        } else {
            proof {
                lemma_last_colon_extend(address@, i as int, colon);
            }
        }
        i = i + 1;
    }
    proof {
        assert(address@.take(n as int) =~= address@);
    }
    let ci: usize = match colon {
        Some(c) => c,
        None => {
            return None;
        },
    };
    let ghost port_text = address@.skip(ci + 1);

    // The port: decimal digits spelling a number up to 65535.
    if ci + 1 == n {
        return None;
    }
    let mut acc: u32 = 0;
    let mut k: usize = ci + 1;
    while k < n
        invariant
            last_colon(address@) == Some(ci as int),
            ci + 1 <= k <= n == address@.len(),
            ci + 1 < n,
            port_text == address@.skip(ci + 1),
            all_digits(port_text.take(k - ci - 1)),
            0 <= dec_value(port_text.take(k - ci - 1)),
            dec_value(port_text.take(k - ci - 1)) <= 65535 ==> acc == dec_value(
                port_text.take(k - ci - 1),
            ),
            dec_value(port_text.take(k - ci - 1)) > 65535 ==> acc > 65535,
            acc <= 65536,
        decreases n - k,
    {
        let c: char = address.get_char(k);
        let cv: u32 = c as u32;
        proof {
            assert(port_text[k - ci - 1] == address@[k as int]);
            assert(port_text.take(k - ci).drop_last() =~= port_text.take(k - ci - 1));
            assert(port_text.take(k - ci).last() == port_text[k - ci - 1]);
            lemma_dec_value_bounds(port_text.take(k - ci - 1));
        }
        if cv < 48 || cv > 57 {
            proof {
                assert(!is_digit(port_text[k - ci - 1]));
            }
            return None;
        }
        acc = if acc > 65535 {
            65536
        } else {
            let next: u32 = acc * 10 + (cv - 48);
            if next > 65535 {
                65536
            } else {
                next
            }
        };
        k = k + 1;
    }
    proof {
        assert(port_text.take(n - ci - 1) =~= port_text);
        lemma_dec_value_bounds(port_text);
    }
    if acc > 65535 {
        return None;
    }
    let port: u16 = acc as u16;

    // The host's first label, uppercased, names the peer.
    let ghost domain = address@.take(ci as int);
    let mut j: usize = 0;
    while j < ci
        invariant
            j <= ci <= address@.len(),
            domain == address@.take(ci as int),
            host_label_end(domain, 0) == host_label_end(domain, j as int),
        ensures
            j <= ci <= address@.len(),
            host_label_end(domain, 0) == j,
        decreases ci - j,
    {
        proof {
            assert(domain[j as int] == address@[j as int]);
        }
        if address.get_char(j) == '.' {
            break ;
        }
        j = j + 1;
    }
    let mut label: String = String::new();
    let mut k2: usize = 0;
    while k2 < j
        invariant
            k2 <= j <= ci <= address@.len(),
            domain == address@.take(ci as int),
            host_label_end(domain, 0) == j,
            label@ =~= upper_text(domain.take(j as int)).take(k2 as int),
        decreases j - k2,
    {
        let c: char = address.get_char(k2);
        let up: char = upper_char_exec(c);
        crate::ui::push_char(&mut label, up);
        proof {
            assert(domain.take(j as int)[k2 as int] == address@[k2 as int]);
            assert(upper_text(domain.take(j as int))[k2 as int] == upper_char(
                domain.take(j as int)[k2 as int],
            ));
            assert(upper_text(domain.take(j as int)).take(k2 + 1) =~= upper_text(
                domain.take(j as int),
            ).take(k2 as int).push(upper_char(domain.take(j as int)[k2 as int])));
        }
        k2 = k2 + 1;
    }
    proof {
        assert(upper_text(domain.take(j as int)).take(j as int) =~= upper_text(
            domain.take(j as int),
        ));
    }
    match ServiceId::parse(label.as_str()) {
        Some(id) => Some((id, port)),
        None => None,
    }
}

/// Extending a text by a non-colon character leaves its last colon where
/// it was.
proof fn lemma_last_colon_extend(s: Seq<char>, i: int, colon: Option<usize>)
    requires
        0 <= i < s.len(),
        s[i] != ':',
        match colon {
            Some(c) => last_colon(s.take(i)) == Some(c as int) && c < i,
            None => last_colon(s.take(i)) is None,
        },
    ensures
        match colon {
            Some(c) => last_colon(s.take(i + 1)) == Some(c as int),
            None => last_colon(s.take(i + 1)) is None,
        },
{
    assert(s.take(i + 1).drop_last() =~= s.take(i));
    assert(s.take(i + 1).last() == s[i]);
}

/// A digit string's value is not negative.
proof fn lemma_dec_value_bounds(s: Seq<char>)
    requires
        all_digits(s),
    ensures
        dec_value(s) >= 0,
    decreases s.len(),
{
    if s.len() > 0 {
        assert forall|i: int| 0 <= i < s.len() - 1 implies is_digit(#[trigger] s.drop_last()[i])
            by {
            assert(s.drop_last()[i] == s[i]);
        }
        lemma_dec_value_bounds(s.drop_last());
    }
}

/// The session state both roles share once their keys are derived: who is
/// on each end, the derived cipher, and the session hash.
pub struct SessionSetup {
    local_id: ServiceId,
    peer_id: ServiceId,
    address: String,
    direction: ConnectionDirection,
    cryptor: Cryptor,
    session_hash: Vec<u8>,
    secret: Ghost<Seq<u8>>,
}

impl SessionSetup {
    /// The local identity's text.
    pub closed spec fn local(&self) -> Seq<char> {
        self.local_id@
    }

    /// The peer identity's text.
    pub closed spec fn peer(&self) -> Seq<char> {
        self.peer_id@
    }

    /// The peer's address.
    pub closed spec fn addr(&self) -> Seq<char> {
        self.address@
    }

    /// Which side dialed.
    pub closed spec fn direction(&self) -> ConnectionDirection {
        self.direction
    }

    /// The derived AEAD key.
    pub closed spec fn key(&self) -> Seq<u8> {
        self.cryptor.key()
    }

    /// The session hash.
    pub closed spec fn hash(&self) -> Seq<u8> {
        self.session_hash@
    }

    /// The Diffie-Hellman shared secret the session keys came from.
    pub closed spec fn secret(&self) -> Seq<u8> {
        self.secret@
    }

    /// The identity of the stream's dialer, whichever side we are.
    pub open spec fn client(&self) -> Seq<char> {
        if self.direction() == ConnectionDirection::Outgoing {
            self.local()
        } else {
            self.peer()
        }
    }

    /// The identity of the stream's acceptor, whichever side we are.
    pub open spec fn server(&self) -> Seq<char> {
        if self.direction() == ConnectionDirection::Outgoing {
            self.peer()
        } else {
            self.local()
        }
    }

    /// The setup's invariant: the AEAD key is the HKDF expansion of the
    /// shared secret, and the session hash binds the dialer's identity, the
    /// acceptor's identity and that same secret, in that fixed order.
    pub open spec fn wf(&self) -> bool {
        &&& self.key().len() == 32
        &&& self.hash().len() == 32
        &&& self.key() == hkdf_key_of(self.secret())
        &&& Some(self.hash()) == session_hash_of(self.client(), self.server(), self.secret())
        &&& id_fits(self.local())
    }
}

/// The auth record this side sends: its own identity under the signature
/// the oracle produced.
pub open spec fn own_auth_view(local: Seq<char>, signature: Seq<u8>) -> BodyView {
    BodyView::Auth(AuthMessageView { service_id: local, signature: signature })
}

/// An auth record body for an identity that fits a frame also fits one.
proof fn lemma_auth_body_len(local: Seq<char>, signature: Seq<u8>)
    requires
        id_fits(local),
        signature.len() == 64,
    ensures
        encode_body_spec(own_auth_view(local, signature)).len() + 100 <= u32::MAX,
{
    lemma_hdr_len(3, encode_utf8(local).len());
    lemma_hdr_len(2, 64);
}

/// A dialer that has sent its hello packet and awaits the peer's.
pub struct DialerHello {
    local_id: ServiceId,
    peer_id: ServiceId,
    address: String,
    secret: x25519_dalek::EphemeralSecret,
}

/// A dialer whose keys are derived, awaiting the oracle's signature over
/// the returned auth data.
pub struct DialerSign {
    setup: SessionSetup,
}

/// A dialer that has sent its auth record and awaits the peer's.
pub struct DialerPeerAuth {
    setup: SessionSetup,
}

/// A dialer that verified the peer and awaits the go-ahead record.
pub struct DialerAuthorized {
    setup: SessionSetup,
}

impl DialerSign {
    /// The session state carried by this phase.
    pub closed spec fn setup(&self) -> SessionSetup {
        self.setup
    }
}

impl DialerPeerAuth {
    /// The session state carried by this phase.
    pub closed spec fn setup(&self) -> SessionSetup {
        self.setup
    }
}

impl DialerAuthorized {
    /// The session state carried by this phase.
    pub closed spec fn setup(&self) -> SessionSetup {
        self.setup
    }
}

impl DialerHello {
    /// The local identity's text.
    pub closed spec fn local(&self) -> Seq<char> {
        self.local_id@
    }

    /// The expected peer identity's text, parsed from the dial address.
    pub closed spec fn peer(&self) -> Seq<char> {
        self.peer_id@
    }

    /// The peer's address.
    pub closed spec fn addr(&self) -> Seq<char> {
        self.address@
    }

    /// Opens a dial attempt: generates the ephemeral key pair and returns
    /// the 34-byte hello packet `01 00 || pk` that goes out first.
    pub fn start(local_id: ServiceId, peer_id: ServiceId, address: String) -> (r: (
        DialerHello,
        Vec<u8>,
    ))
        requires
            id_fits(local_id@),
        ensures
            r.0.local() == local_id@,
            r.0.peer() == peer_id@,
            r.0.addr() == address@,
            id_fits(r.0.local()),
            r.1@.len() == 34,
            r.1@[0] == PROTOCOL_VERSION,
            r.1@[1] == ALGORITHM_CHACHA20POLY1305,
    {
        let (secret, public_key) = generate_ephemeral_keypair();
        let hello: Vec<u8> = encode_public_key_packet(&public_key);
        (DialerHello { local_id, peer_id, address, secret }, hello)
    }

    /// Consumes the peer's hello packet: computes the shared secret,
    /// derives the AEAD key and the session hash, and hands back the bytes
    /// the oracle must sign.
    ///
    /// The step succeeds exactly when the packet is well formed and both
    /// identities yield verifying keys; any other packet is fatal, and no
    /// connection is ever announced for a failed attempt.
    pub fn on_hello(self, buffer: &Vec<u8>) -> (r: Result<(DialerSign, Vec<u8>), HandshakeError>)
        requires
            id_fits(self.local()),
        ensures
            r is Ok <==> buffer@.len() == 34 && buffer@[0] == PROTOCOL_VERSION && buffer@[1]
                == ALGORITHM_CHACHA20POLY1305 && vk_of_id(self.local()) is Some && vk_of_id(
                self.peer(),
            ) is Some,
            r matches Ok((d, data)) ==> {
                &&& d.setup().wf()
                &&& d.setup().local() == self.local()
                &&& d.setup().peer() == self.peer()
                &&& d.setup().addr() == self.addr()
                &&& d.setup().direction() == ConnectionDirection::Outgoing
                &&& data@ == auth_data_of(self.local(), d.setup().hash())
            },
            r matches Err(e) ==> match e {
                HandshakeError::EndOfStream => buffer@.len() == 0,
                HandshakeError::BadPacketLength => buffer@.len() != 0 && buffer@.len() != 34,
                HandshakeError::BadVersion => buffer@.len() == 34 && buffer@[0]
                    != PROTOCOL_VERSION,
                HandshakeError::BadAlgorithm => buffer@.len() == 34 && buffer@[0]
                    == PROTOCOL_VERSION && buffer@[1] != ALGORITHM_CHACHA20POLY1305,
                HandshakeError::UnknownKey => !(vk_of_id(self.local()) is Some && vk_of_id(
                    self.peer(),
                ) is Some),
                _ => false,
            },
    {
        let mut peer_public: Vec<u8> = match parse_public_key_packet(buffer) {
            Ok(pk) => pk,
            Err(e) => {
                return Err(e);
            },
        };
        let mut shared: Vec<u8> = generate_shared_secret(self.secret, &mut peer_public);
        let ghost secret_view = shared@;
        let key: Vec<u8> = generate_symmetric_key(&shared);
        let cryptor: Cryptor = Cryptor::new(&key);
        let session_hash: Vec<u8> = match generate_session_hash(
            &self.local_id,
            &self.peer_id,
            &shared,
        ) {
            Ok(h) => h,
            Err(e) => {
                return Err(e);
            },
        };
        wipe_bytes(&mut shared);
        let data: Vec<u8> = generate_auth_data(&self.local_id, &session_hash);
        let setup = SessionSetup {
            local_id: self.local_id,
            peer_id: self.peer_id,
            address: self.address,
            direction: ConnectionDirection::Outgoing,
            cryptor,
            session_hash,
            secret: Ghost(secret_view),
        };
        Ok((DialerSign { setup }, data))
    }
}

impl DialerSign {
    /// Wraps the oracle's signature in this side's auth record, sealed
    /// under the session key; the record goes out before the peer's auth
    /// record is awaited.
    pub fn on_signature(self, signature: &Vec<u8>) -> (r: (DialerPeerAuth, Vec<u8>))
        requires
            self.setup().wf(),
            signature@.len() == 64,
        ensures
            r.0.setup() == self.setup(),
            r.1@.len() > 4,
            record_opens_to(
                self.setup().key(),
                r.1@.skip(4),
                own_auth_view(self.setup().local(), signature@),
            ),
    {
        proof {
            lemma_auth_body_len(self.setup().local(), signature@);
        }
        let message: AuthMessage = AuthMessage::new(&self.setup.local_id, signature);
        let body = Body::Auth(message);
        let record: Vec<u8> = seal_record(&self.setup.cryptor, &body);
        (DialerPeerAuth { setup: self.setup }, record)
    }
}

impl DialerPeerAuth {
    /// Consumes the record that should carry the peer's auth message and
    /// verifies it against the identity this side expected to reach and
    /// this session's hash.
    ///
    /// `None` stands for a closed stream.  A record that fails to open, a
    /// body of any other kind, or an auth message that does not verify is
    /// fatal.
    pub fn on_auth_record(self, payload: Option<&Vec<u8>>) -> (r: Result<
        DialerAuthorized,
        HandshakeError,
    >)
        requires
            self.setup().wf(),
        ensures
            r matches Ok(d) ==> {
                &&& d.setup() == self.setup()
                &&& payload matches Some(p) && open_record_spec(self.setup().key(), p@) matches Ok(
                    b,
                ) && b matches BodyView::Auth(m) && auth_message_ok(
                    m,
                    self.setup().peer(),
                    self.setup().hash(),
                )
            },
            r matches Err(e) ==> match payload {
                None => e == HandshakeError::EndOfStream,
                Some(p) => match open_record_spec(self.setup().key(), p@) {
                    Err(c) => e == codec_to_handshake(c),
                    Ok(b) => match b {
                        BodyView::Auth(m) => !auth_message_ok(
                            m,
                            self.setup().peer(),
                            self.setup().hash(),
                        ) && (e == HandshakeError::UnknownKey || e == HandshakeError::IdMismatch
                            || e == HandshakeError::BadSignature),
                        _ => e == HandshakeError::Protocol,
                    },
                },
            },
    {
        let p: &Vec<u8> = match payload {
            Some(p) => p,
            None => {
                return Err(HandshakeError::EndOfStream);
            },
        };
        let body: Body = match open_record(&self.setup.cryptor, p) {
            Ok(b) => b,
            Err(CodecError::Decrypt) => {
                return Err(HandshakeError::Decrypt);
            },
            Err(_) => {
                return Err(HandshakeError::Decode);
            },
        };
        let message: AuthMessage = match body {
            Body::Auth(m) => m,
            _ => {
                return Err(HandshakeError::Protocol);
            },
        };
        match verify_auth_message(&message, &self.setup.peer_id, &self.setup.session_hash) {
            Ok(()) => Ok(DialerAuthorized { setup: self.setup }),
            Err(e) => Err(e),
        }
    }
}

impl DialerAuthorized {
    /// Consumes the record that should carry the acceptor's go-ahead; only
    /// then does the dialer enter the chat phase and announce the
    /// connection.
    pub fn on_authorized_record(self, payload: Option<&Vec<u8>>) -> (r: Result<
        LiveConnection,
        HandshakeError,
    >)
        requires
            self.setup().wf(),
        ensures
            r matches Ok(live) ==> {
                &&& payload matches Some(p) && open_record_spec(self.setup().key(), p@) == Ok::<
                    _,
                    CodecError,
                >(BodyView::ConnectionAuthorized)
                &&& live.wf()
                &&& live.key() == self.setup().key()
                &&& live.info_view().id == self.setup().peer()
                &&& live.info_view().address == self.setup().addr()
                &&& live.info_view().direction == ConnectionDirection::Outgoing
            },
            r matches Err(e) ==> match payload {
                None => e == HandshakeError::EndOfStream,
                Some(p) => match open_record_spec(self.setup().key(), p@) {
                    Err(c) => e == codec_to_handshake(c),
                    Ok(b) => !(b is ConnectionAuthorized) && e == HandshakeError::Protocol,
                },
            },
    {
        let p: &Vec<u8> = match payload {
            Some(p) => p,
            None => {
                return Err(HandshakeError::EndOfStream);
            },
        };
        let body: Body = match open_record(&self.setup.cryptor, p) {
            Ok(b) => b,
            Err(CodecError::Decrypt) => {
                return Err(HandshakeError::Decrypt);
            },
            Err(_) => {
                return Err(HandshakeError::Decode);
            },
        };
        match body {
            Body::ConnectionAuthorized => {},
            _ => {
                return Err(HandshakeError::Protocol);
            },
        }
        let info: ConnectionInfo = ConnectionInfo::new(
            self.setup.address,
            &self.setup.peer_id,
            ConnectionDirection::Outgoing,
        );
        // The session hash served its purpose; wipe it before the chat
        // phase, which keeps only the AEAD key.
        let mut hash: Vec<u8> = self.setup.session_hash;
        wipe_bytes(&mut hash);
        Ok(LiveConnection { cryptor: self.setup.cryptor, info })
    }
}

/// An acceptor awaiting the dialer's hello packet.
pub struct AcceptorHello {
    local_id: ServiceId,
    address: String,
}

/// An acceptor whose keys are derived, awaiting the dialer's auth record.
pub struct AcceptorPeerAuth {
    local_id: ServiceId,
    address: String,
    cryptor: Cryptor,
    shared: Vec<u8>,
}

/// An acceptor that verified the dialer, awaiting the oracle's signature
/// over the returned auth data.
pub struct AcceptorSign {
    setup: SessionSetup,
}

impl AcceptorHello {
    /// The local identity's text.
    pub closed spec fn local(&self) -> Seq<char> {
        self.local_id@
    }

    /// The peer's address.
    pub closed spec fn addr(&self) -> Seq<char> {
        self.address@
    }

    /// Opens the acceptor side for a freshly accepted stream.
    pub fn start(local_id: ServiceId, address: String) -> (r: AcceptorHello)
        requires
            id_fits(local_id@),
        ensures
            r.local() == local_id@,
            r.addr() == address@,
            id_fits(r.local()),
    {
        AcceptorHello { local_id, address }
    }

    /// Consumes the dialer's hello packet and answers with this side's own:
    /// the acceptor reads first, then sends.
    pub fn on_hello(self, buffer: &Vec<u8>) -> (r: Result<
        (AcceptorPeerAuth, Vec<u8>),
        HandshakeError,
    >)
        requires
            id_fits(self.local()),
        ensures
            r is Ok <==> buffer@.len() == 34 && buffer@[0] == PROTOCOL_VERSION && buffer@[1]
                == ALGORITHM_CHACHA20POLY1305,
            r matches Ok((a, hello)) ==> {
                &&& a.wf()
                &&& a.local() == self.local()
                &&& a.addr() == self.addr()
                &&& hello@.len() == 34
                &&& hello@[0] == PROTOCOL_VERSION
                &&& hello@[1] == ALGORITHM_CHACHA20POLY1305
            },
            r matches Err(e) ==> match e {
                HandshakeError::EndOfStream => buffer@.len() == 0,
                HandshakeError::BadPacketLength => buffer@.len() != 0 && buffer@.len() != 34,
                HandshakeError::BadVersion => buffer@.len() == 34 && buffer@[0]
                    != PROTOCOL_VERSION,
                HandshakeError::BadAlgorithm => buffer@.len() == 34 && buffer@[0]
                    == PROTOCOL_VERSION && buffer@[1] != ALGORITHM_CHACHA20POLY1305,
                _ => false,
            },
    {
        let mut peer_public: Vec<u8> = match parse_public_key_packet(buffer) {
            Ok(pk) => pk,
            Err(e) => {
                return Err(e);
            },
        };
        let (secret, public_key) = generate_ephemeral_keypair();
        let hello: Vec<u8> = encode_public_key_packet(&public_key);
        let shared: Vec<u8> = generate_shared_secret(secret, &mut peer_public);
        let key: Vec<u8> = generate_symmetric_key(&shared);
        let cryptor: Cryptor = Cryptor::new(&key);
        Ok((AcceptorPeerAuth { local_id: self.local_id, address: self.address, cryptor, shared },
        hello))
    }
}

impl AcceptorPeerAuth {
    /// The local identity's text.
    pub closed spec fn local(&self) -> Seq<char> {
        self.local_id@
    }

    /// The peer's address.
    pub closed spec fn addr(&self) -> Seq<char> {
        self.address@
    }

    /// The derived AEAD key.
    pub closed spec fn key(&self) -> Seq<u8> {
        self.cryptor.key()
    }

    /// The Diffie-Hellman shared secret.
    pub closed spec fn secret(&self) -> Seq<u8> {
        self.shared@
    }

    /// This phase's invariant.
    pub open spec fn wf(&self) -> bool {
        &&& self.key().len() == 32
        &&& self.key() == hkdf_key_of(self.secret())
        &&& id_fits(self.local())
    }

    /// Consumes the record that should carry the dialer's auth message:
    /// parses and validates the embedded identity, computes the session
    /// hash with that identity as the dialer, verifies the message, and
    /// hands back the bytes the oracle must sign for this side's reply.
    pub fn on_auth_record(self, payload: Option<&Vec<u8>>) -> (r: Result<
        (AcceptorSign, Vec<u8>),
        HandshakeError,
    >)
        requires
            self.wf(),
        ensures
            r is Ok <==> (payload matches Some(p) && (open_record_spec(self.key(), p@) matches Ok(
                b,
            ) && (b matches BodyView::Auth(m) && id_valid(m.service_id) && (session_hash_of(
                m.service_id,
                self.local(),
                self.secret(),
            ) matches Some(h) && auth_message_ok(m, m.service_id, h))))),
            r matches Ok((a, data)) ==> {
                &&& payload matches Some(p) && open_record_spec(self.key(), p@) matches Ok(b)
                    && b matches BodyView::Auth(m) && {
                    &&& id_valid(m.service_id)
                    &&& a.setup().peer() == m.service_id
                    &&& auth_message_ok(m, a.setup().peer(), a.setup().hash())
                }
                &&& a.setup().wf()
                &&& a.setup().local() == self.local()
                &&& a.setup().addr() == self.addr()
                &&& a.setup().key() == self.key()
                &&& a.setup().secret() == self.secret()
                &&& a.setup().direction() == ConnectionDirection::Incoming
                &&& data@ == auth_data_of(self.local(), a.setup().hash())
            },
            r matches Err(e) ==> match payload {
                None => e == HandshakeError::EndOfStream,
                Some(p) => match open_record_spec(self.key(), p@) {
                    Err(c) => e == codec_to_handshake(c),
                    Ok(b) => match b {
                        BodyView::Auth(m) => {
                            ||| e == HandshakeError::InvalidId && !id_valid(m.service_id)
                            ||| e == HandshakeError::UnknownKey && session_hash_of(
                                m.service_id,
                                self.local(),
                                self.secret(),
                            ) is None
                            ||| e == HandshakeError::BadSignature && (session_hash_of(
                                m.service_id,
                                self.local(),
                                self.secret(),
                            ) matches Some(h) && !auth_message_ok(m, m.service_id, h))
                        },
                        _ => e == HandshakeError::Protocol,
                    },
                },
            },
    {
        let p: &Vec<u8> = match payload {
            Some(p) => p,
            None => {
                return Err(HandshakeError::EndOfStream);
            },
        };
        let body: Body = match open_record(&self.cryptor, p) {
            Ok(b) => b,
            Err(CodecError::Decrypt) => {
                return Err(HandshakeError::Decrypt);
            },
            Err(_) => {
                return Err(HandshakeError::Decode);
            },
        };
        let message: AuthMessage = match body {
            Body::Auth(m) => m,
            _ => {
                return Err(HandshakeError::Protocol);
            },
        };
        let embedded: String = message.service_id();
        let peer_id: ServiceId = match ServiceId::parse(embedded.as_str()) {
            Some(id) => id,
            None => {
                return Err(HandshakeError::InvalidId);
            },
        };
        let ghost secret_view = self.shared@;
        let mut shared: Vec<u8> = self.shared;
        let session_hash: Vec<u8> = match generate_session_hash(
            &peer_id,
            &self.local_id,
            &shared,
        ) {
            Ok(h) => h,
            Err(e) => {
                return Err(e);
            },
        };
        wipe_bytes(&mut shared);
        match verify_auth_message(&message, &peer_id, &session_hash) {
            Ok(()) => {},
            Err(e) => {
                return Err(e);
            },
        }
        let data: Vec<u8> = generate_auth_data(&self.local_id, &session_hash);
        let setup = SessionSetup {
            local_id: self.local_id,
            peer_id,
            address: self.address,
            direction: ConnectionDirection::Incoming,
            cryptor: self.cryptor,
            session_hash,
            secret: Ghost(secret_view),
        };
        Ok((AcceptorSign { setup }, data))
    }
}

impl AcceptorSign {
    /// The session state carried by this phase.
    pub closed spec fn setup(&self) -> SessionSetup {
        self.setup
    }

    /// Wraps the oracle's signature in this side's auth record and enters
    /// the chat phase; the record goes out as the handshake's last step.
    pub fn on_signature(self, signature: &Vec<u8>) -> (r: (LiveConnection, Vec<u8>))
        requires
            self.setup().wf(),
            signature@.len() == 64,
        ensures
            r.0.wf(),
            r.0.key() == self.setup().key(),
            r.0.info_view().id == self.setup().peer(),
            r.0.info_view().address == self.setup().addr(),
            r.0.info_view().direction == ConnectionDirection::Incoming,
            r.1@.len() > 4,
            record_opens_to(
                self.setup().key(),
                r.1@.skip(4),
                own_auth_view(self.setup().local(), signature@),
            ),
    {
        proof {
            lemma_auth_body_len(self.setup().local(), signature@);
        }
        let message: AuthMessage = AuthMessage::new(&self.setup.local_id, signature);
        let body = Body::Auth(message);
        let record: Vec<u8> = seal_record(&self.setup.cryptor, &body);
        let info: ConnectionInfo = ConnectionInfo::new(
            self.setup.address,
            &self.setup.peer_id,
            ConnectionDirection::Incoming,
        );
        // The session hash served its purpose; wipe it before the chat
        // phase, which keeps only the AEAD key.
        let mut hash: Vec<u8> = self.setup.session_hash;
        wipe_bytes(&mut hash);
        (LiveConnection { cryptor: self.setup.cryptor, info }, record)
    }
}

/// A connection in the chat phase: the session cipher and the peer's
/// description.
pub struct LiveConnection {
    cryptor: Cryptor,
    info: ConnectionInfo,
}

/// What the actor does next after one input in the chat phase.
pub enum LiveStep {
    /// Forward this chat message to the engine.
    Deliver(ChatMessage),
    /// The peer closed cleanly: report the connection closed and stop.
    CloseClean,
    /// A record was fatal: report the error, report the connection closed,
    /// and stop.
    CloseError(CodecError),
    /// Write these bytes to the stream.
    Send(Vec<u8>),
    /// An outbound message was too large for one frame: report and go on.
    SendFailed,
    /// Stop without reporting: the engine asked for the close.
    Stop,
}

impl LiveConnection {
    /// The session's AEAD key.
    pub closed spec fn key(&self) -> Seq<u8> {
        self.cryptor.key()
    }

    /// The connection's description.
    pub closed spec fn info_view(&self) -> ConnectionInfoView {
        self.info@
    }

    /// The live connection's invariant.
    pub open spec fn wf(&self) -> bool {
        self.key().len() == 32
    }

    /// A copy of the connection's description.
    pub fn info(&self) -> (r: ConnectionInfo)
        ensures
            r@ == self.info_view(),
    {
        self.info.clone()
    }

    /// Ends the session: wipes the AEAD key and hands back the
    /// connection's description for the closing report.
    pub fn shutdown(self) -> (r: ConnectionInfo)
        ensures
            r@ == self.info_view(),
    {
        let mut cryptor: Cryptor = self.cryptor;
        cryptor.wipe();
        self.info
    }

    /// Decides on one inbound frame payload; `None` stands for a cleanly
    /// closed stream.
    ///
    /// A chat record is delivered; a record of any other kind, a failed
    /// decryption or a failed decode closes the connection; nothing else is
    /// ever sent or delivered.
    pub fn on_frame(&self, payload: Option<&Vec<u8>>) -> (r: LiveStep)
        requires
            self.wf(),
        ensures
            match payload {
                None => r is CloseClean,
                Some(p) => match open_record_spec(self.key(), p@) {
                    Ok(b) => match b {
                        BodyView::Chat(v) => r matches LiveStep::Deliver(m) && m@ == v,
                        _ => r == LiveStep::CloseError(CodecError::Decode),
                    },
                    Err(c) => r == LiveStep::CloseError(c),
                },
            },
    {
        let p: &Vec<u8> = match payload {
            Some(p) => p,
            None => {
                return LiveStep::CloseClean;
            },
        };
        match open_record(&self.cryptor, p) {
            Ok(Body::Chat(m)) => LiveStep::Deliver(m),
            // A record of the wrong kind in the chat phase is a protocol
            // violation; it surfaces under the codec's decode error, the
            // nearest of the three failure kinds the record codec carries.
            Ok(_) => LiveStep::CloseError(CodecError::Decode),
            Err(e) => LiveStep::CloseError(e),
        }
    }

    /// Decides on one inbox event; `None` stands for a dropped inbox and is
    /// treated as a close.
    ///
    /// A chat message that fits one frame is sealed and sent; the go-ahead
    /// mark is sealed and sent; a close stops the actor without another
    /// write; the oracle's reply has no business here and stops it too.
    pub fn on_inbox(&self, event: Option<ConnectionEvent>) -> (r: LiveStep)
        requires
            self.wf(),
        ensures
            match event {
                None => r is Stop,
                Some(ev) => match ev {
                    ConnectionEvent::CloseConnection => r is Stop,
                    ConnectionEvent::SignatureResponse(_) => r is Stop,
                    ConnectionEvent::ConnectionAuthorized => r matches LiveStep::Send(f)
                        && f@.len() > 4 && record_opens_to(
                        self.key(),
                        f@.skip(4),
                        BodyView::ConnectionAuthorized,
                    ),
                    ConnectionEvent::Message(m) => {
                        if encode_body_spec(BodyView::Chat(m@)).len() + 100 <= u32::MAX {
                            r matches LiveStep::Send(f) && f@.len() > 4 && record_opens_to(
                                self.key(),
                                f@.skip(4),
                                BodyView::Chat(m@),
                            )
                        } else {
                            r is SendFailed
                        }
                    },
                },
            },
    {
        let ev: ConnectionEvent = match event {
            Some(ev) => ev,
            None => {
                return LiveStep::Stop;
            },
        };
        match ev {
            ConnectionEvent::CloseConnection => LiveStep::Stop,
            ConnectionEvent::SignatureResponse(_) => LiveStep::Stop,
            ConnectionEvent::ConnectionAuthorized => {
                let body = Body::ConnectionAuthorized;
                LiveStep::Send(seal_record(&self.cryptor, &body))
            },
            ConnectionEvent::Message(m) => {
                let body = Body::Chat(m);
                let encoded: Vec<u8> = crate::cbor::encode_body(&body);
                if encoded.len() <= (u32::MAX - 100) as usize {
                    LiveStep::Send(seal_record(&self.cryptor, &body))
                } else {
                    LiveStep::SendFailed
                }
            },
        }
    }
}

} // verus!
