//! The pre-authentication packet schemas: the handshake, the login start
//! and the disconnect notice, with their payload decoders and encoders.
//!
//! Host names, usernames and disconnect reasons are carried as raw bytes:
//! the negotiator never looks inside them, and callers that want text
//! convert at the boundary.

use vstd::prelude::*;
use crate::codec::{
    bytes_at, bytes_enc, encode_varint, lemma_bytes_at_enc, lemma_varint_at_enc,
    lemma_varint_enc_len, p128, read_bytes, read_varint, varint_at, varint_enc,
};
use crate::error::ProtoError;

verus! {

/// The id every pre-authentication packet carries in its frame body: the
/// handshake, the login start and the disconnect notice all use id zero in
/// their respective protocol stages.
pub const HANDSHAKE_PACKET_ID: u32 = 0;

pub const LOGIN_START_PACKET_ID: u32 = 0;

pub const DISCONNECT_PACKET_ID: u32 = 0;

/// The wire tag of a declared Status intent.
pub const STATUS_TAG: u32 = 1;

/// The wire tag of a declared Login intent.
pub const LOGIN_TAG: u32 = 2;

/// The intent a peer declares in its handshake.
#[derive(Clone, Copy, Debug, PartialEq, Eq, Structural)]
pub enum State {
    Status,
    Login,
}

/// The first packet of a connection: protocol version, target host and
/// port, and the declared next intent.
pub struct Handshake {
    pub protocol_version: u32,
    pub server_address: Vec<u8>,
    pub server_port: u16,
    pub next_state: State,
}

/// The mathematical image of a `Handshake`.
pub ghost struct HandshakeView {
    pub protocol_version: u32,
    pub server_address: Seq<u8>,
    pub server_port: u16,
    pub next_state: State,
}

impl View for Handshake {
    type V = HandshakeView;

    open spec fn view(&self) -> HandshakeView {
        HandshakeView {
            protocol_version: self.protocol_version,
            server_address: self.server_address@,
            server_port: self.server_port,
            next_state: self.next_state,
        }
    }
}

/// The packet a Login-intent peer sends right after its handshake,
/// claiming an identity.
pub struct LoginStart {
    pub username: Vec<u8>,
}

/// The mathematical image of a `LoginStart`.
pub ghost struct LoginStartView {
    pub username: Seq<u8>,
}

impl View for LoginStart {
    type V = LoginStartView;

    open spec fn view(&self) -> LoginStartView {
        LoginStartView { username: self.username@ }
    }
}

/// The handshake payload that a byte sequence denotes: a varint protocol
/// version, a length-prefixed host, a two-byte big-endian port and a
/// varint intent tag, consuming the whole payload. Any other byte
/// sequence denotes nothing.
pub open spec fn spec_decode_handshake(d: Seq<u8>) -> Option<HandshakeView> {
    match varint_at(d, 0) {
        Some((pv, p1)) => match bytes_at(d, p1) {
            Some((host, p2)) => {
                if p2 + 2 <= d.len() {
                    let port = (d[p2] as int * 256 + d[p2 + 1] as int) as u16;
                    match varint_at(d, p2 + 2) {
                        Some((tag, p3)) => {
                            if p3 == d.len() && (tag == STATUS_TAG || tag == LOGIN_TAG) {
                                Some(
                                    HandshakeView {
                                        protocol_version: pv,
                                        server_address: host,
                                        server_port: port,
                                        next_state: if tag == LOGIN_TAG {
                                            State::Login
                                        } else {
                                            State::Status
                                        },
                                    },
                                )
                            } else {
                                None
                            }
                        },
                        None => None,
                    }
                } else {
                    None
                }
            },
            None => None,
        },
        None => None,
    }
}

/// The login-start payload that a byte sequence denotes: a single
/// length-prefixed username consuming the whole payload.
pub open spec fn spec_decode_login_start(d: Seq<u8>) -> Option<LoginStartView> {
    match bytes_at(d, 0) {
        Some((name, p)) => {
            if p == d.len() {
                Some(LoginStartView { username: name })
            } else {
                None
            }
        },
        None => None,
    }
}

/// Decodes a handshake payload, exactly where `spec_decode_handshake` is
/// defined; every other payload is a decode failure.
pub fn decode_handshake(data: &Vec<u8>) -> (r: Result<Handshake, ProtoError>)
    ensures
        match r {
            Ok(h) => spec_decode_handshake(data@) == Some(h@),
            Err(e) => {
                &&& spec_decode_handshake(data@) is None
                &&& e == ProtoError::Decode
            },
        },
{
    let (pv, p1) = match read_varint(data, 0) {
        Ok(v) => v,
        Err(e) => {
            return Err(e);
        },
    };
    let (host, p2) = match read_bytes(data, p1) {
        Ok(v) => v,
        Err(e) => {
            return Err(e);
        },
    };
    let len = data.len();
    if len - p2 < 2 {
        // the port field is cut short
        return Err(ProtoError::Decode);
    }
    let port = (data[p2] as u16) * 256 + (data[p2 + 1] as u16);
    let (tag, p3) = match read_varint(data, p2 + 2) {
        Ok(v) => v,
        Err(e) => {
            return Err(e);
        },
    };
    if p3 != len {
        // trailing bytes after the intent tag
        return Err(ProtoError::Decode);
    }
    let next_state = if tag == STATUS_TAG {
        State::Status
    } else if tag == LOGIN_TAG {
        State::Login
    } else {
        // an intent tag that names no known state
        return Err(ProtoError::Decode);
    };
    Ok(Handshake { protocol_version: pv, server_address: host, server_port: port, next_state })
}

/// Decodes a login-start payload, exactly where `spec_decode_login_start`
/// is defined.
pub fn decode_login_start(data: &Vec<u8>) -> (r: Result<LoginStart, ProtoError>)
    ensures
        match r {
            Ok(l) => spec_decode_login_start(data@) == Some(l@),
            Err(e) => {
                &&& spec_decode_login_start(data@) is None
                &&& e == ProtoError::Decode
            },
        },
{
    let (name, p) = match read_bytes(data, 0) {
        Ok(v) => v,
        Err(e) => {
            return Err(e);
        },
    };
    if p != data.len() {
        // trailing bytes after the username
        return Err(ProtoError::Decode);
    }
    Ok(LoginStart { username: name })
}

/// The wire tag that encodes an intent.
pub open spec fn intent_tag(s: State) -> u32 {
    match s {
        State::Status => STATUS_TAG,
        State::Login => LOGIN_TAG,
    }
}

/// The encoding of a handshake payload.
pub open spec fn spec_encode_handshake(h: HandshakeView) -> Seq<u8> {
    varint_enc(h.protocol_version as nat) + bytes_enc(h.server_address) + seq![
        (h.server_port / 256) as u8,
        (h.server_port % 256) as u8,
    ] + varint_enc(intent_tag(h.next_state) as nat)
}

/// Encodes a handshake payload.
pub fn encode_handshake(h: &Handshake) -> (r: Vec<u8>)
    requires
        h.server_address@.len() <= u32::MAX,
    ensures
        r@ == spec_encode_handshake(h@),
{
    let mut out: Vec<u8> = Vec::new();
    encode_varint(h.protocol_version, &mut out);
    encode_bytes_field(&h.server_address, &mut out);
    out.push((h.server_port / 256) as u8);
    out.push((h.server_port % 256) as u8);
    let tag: u32 = match h.next_state {
        State::Status => STATUS_TAG,
        State::Login => LOGIN_TAG,
    };
    encode_varint(tag, &mut out);
    proof {
        assert(out@ =~= spec_encode_handshake(h@));
    }
    out
}

/// The encoding of a login-start payload.
pub open spec fn spec_encode_login_start(l: LoginStartView) -> Seq<u8> {
    bytes_enc(l.username)
}

/// Encodes a login-start payload.
pub fn encode_login_start(l: &LoginStart) -> (r: Vec<u8>)
    requires
        l.username@.len() <= u32::MAX,
    ensures
        r@ == spec_encode_login_start(l@),
{
    let mut out: Vec<u8> = Vec::new();
    encode_bytes_field(&l.username, &mut out);
    out
}

/// Appends the length-prefixed encoding of `b`.
fn encode_bytes_field(b: &Vec<u8>, out: &mut Vec<u8>)
    requires
        b@.len() <= u32::MAX,
    ensures
        final(out)@ == old(out)@ + bytes_enc(b@),
{
    crate::codec::encode_bytes(b, out)
}

/// A payload schema that a lazily-decoded packet can carry: the packet id
/// it travels under and the payloads it accepts.
pub trait PacketBody: Sized + View {
    /// The frame-body packet id this schema travels under.
    spec fn packet_id() -> u32;

    /// The payloads this schema accepts, and what they denote.
    spec fn spec_decode(d: Seq<u8>) -> Option<Self::V>;

    /// The packet id, as a runtime value.
    fn id() -> (r: u32)
        ensures
            r == Self::packet_id(),
    ;

    /// Decodes a payload, exactly where `spec_decode` is defined.
    fn decode(d: &Vec<u8>) -> (r: Result<Self, ProtoError>)
        ensures
            match r {
                Ok(v) => Self::spec_decode(d@) == Some(v@),
                Err(e) => {
                    &&& Self::spec_decode(d@) is None
                    &&& e == ProtoError::Decode
                },
            },
    ;
}

impl PacketBody for Handshake {
    open spec fn packet_id() -> u32 {
        HANDSHAKE_PACKET_ID
    }

    open spec fn spec_decode(d: Seq<u8>) -> Option<HandshakeView> {
        spec_decode_handshake(d)
    }

    fn id() -> u32 {
        HANDSHAKE_PACKET_ID
    }

    fn decode(d: &Vec<u8>) -> Result<Self, ProtoError> {
        decode_handshake(d)
    }
}

impl PacketBody for LoginStart {
    open spec fn packet_id() -> u32 {
        LOGIN_START_PACKET_ID
    }

    open spec fn spec_decode(d: Seq<u8>) -> Option<LoginStartView> {
        spec_decode_login_start(d)
    }

    fn id() -> u32 {
        LOGIN_START_PACKET_ID
    }

    fn decode(d: &Vec<u8>) -> Result<Self, ProtoError> {
        decode_login_start(d)
    }
}

/// The protocol-level notice a rejected Login-intent peer receives before
/// its connection is dropped.
pub struct Disconnect {
    pub reason: Vec<u8>,
}

impl Disconnect {
    pub fn new(reason: Vec<u8>) -> (r: Self)
        ensures
            r.reason@ == reason@,
    {
        Disconnect { reason }
    }
}

/// The complete framed disconnect packet: a varint length prefix over the
/// body, which is the packet id followed by the reason as a
/// length-prefixed string.
pub open spec fn spec_disconnect_frame(reason: Seq<u8>) -> Seq<u8> {
    let body = varint_enc(DISCONNECT_PACKET_ID as nat) + bytes_enc(reason);
    varint_enc(body.len()) + body
}

/// Decoding an encoded handshake yields exactly the handshake it was built
/// from: nothing of the four fields is lost or altered on the wire.
pub proof fn lemma_handshake_round_trip(h: HandshakeView)
    requires
        h.server_address.len() <= u32::MAX,
    ensures
        spec_decode_handshake(spec_encode_handshake(h)) == Some(h),
{
    let e = spec_encode_handshake(h);
    let e1 = varint_enc(h.protocol_version as nat);
    let e2 = bytes_enc(h.server_address);
    let pb = seq![(h.server_port / 256) as u8, (h.server_port % 256) as u8];
    let e4 = varint_enc(intent_tag(h.next_state) as nat);
    let l1 = e1.len() as int;
    let l2 = e2.len() as int;
    let l4 = e4.len() as int;
    assert(e =~= e1 + e2 + pb + e4);
    assert(e.len() == l1 + l2 + 2 + l4);
    assert(e.subrange(0, l1) =~= e1);
    lemma_varint_at_enc(e, 0, h.protocol_version);
    assert forall|j: int| 0 <= j < l2 implies e.subrange(l1, l1 + l2)[j] == e2[j] by {
        assert(e[l1 + j] == (e1 + e2 + pb + e4)[l1 + j]);
    }
    assert(e.subrange(l1, l1 + l2) =~= e2);
    lemma_bytes_at_enc(e, l1, h.server_address);
    let p2 = l1 + l2;
    assert(e[p2] == (h.server_port / 256) as u8);
    assert(e[p2 + 1] == (h.server_port % 256) as u8);
    assert((e[p2] as int) * 256 + (e[p2 + 1] as int) == h.server_port);
    assert forall|j: int| 0 <= j < l4 implies e.subrange(p2 + 2, p2 + 2 + l4)[j] == e4[j] by {
        assert(e[p2 + 2 + j] == (e1 + e2 + pb + e4)[p2 + 2 + j]);
    }
    assert(e.subrange(p2 + 2, p2 + 2 + l4) =~= e4);
    lemma_varint_at_enc(e, p2 + 2, intent_tag(h.next_state));
    assert(spec_decode_handshake(e) == Some(h));
}

/// Decoding an encoded login-start yields exactly the login-start it was
/// built from: the claimed username survives the wire unchanged.
pub proof fn lemma_login_start_round_trip(l: LoginStartView)
    requires
        l.username.len() <= u32::MAX,
    ensures
        spec_decode_login_start(spec_encode_login_start(l)) == Some(l),
{
    let e = spec_encode_login_start(l);
    assert(e.subrange(0, e.len() as int) =~= e);
    lemma_bytes_at_enc(e, 0, l.username);
}

/// Encodes the framed disconnect packet carrying `d.reason`.
pub fn encode_disconnect_frame(d: &Disconnect) -> (r: Vec<u8>)
    requires
        d.reason@.len() + 6 <= u32::MAX,
    ensures
        r@ == spec_disconnect_frame(d.reason@),
{
    let mut body: Vec<u8> = Vec::new();
    encode_varint(DISCONNECT_PACKET_ID, &mut body);
    encode_bytes_field(&d.reason, &mut body);
    proof {
        assert(p128(5) == 34359738368) by {
            reveal_with_fuel(p128, 6);
        }
        lemma_varint_enc_len(d.reason@.len(), 5);
    }
    let mut out: Vec<u8> = Vec::new();
    encode_varint(body.len() as u32, &mut out);
    let ghost mid = out@;
    let len = body.len();
    let mut i: usize = 0;
    while i < len
        invariant
            i <= len,
            len == body@.len(),
            out@ =~= mid + body@.subrange(0, i as int),
        decreases len - i,
    {
        let ghost pre = out@;
        out.push(body[i]);
        proof {
            assert(pre.push(body@[i as int]) =~= mid + body@.subrange(0, i + 1));
        }
        i = i + 1;
    }
    proof {
        assert(body@.subrange(0, len as int) =~= body@);
        assert(out@ =~= spec_disconnect_frame(d.reason@));
    }
    out
}

} // verus!
