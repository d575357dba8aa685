//! The handshake negotiator: a single-shot, strictly forward-progressing
//! state machine from framed packets to a negotiated client or a
//! classified failure.
//!
//! The machine is pure: the caller reads each framed packet from its
//! stream (under whatever aggregate deadline it enforces) and feeds it in;
//! the machine answers with the next state, a completed negotiation, or a
//! rejection. A rejection or completion is terminal — the machine is
//! consumed, so no further packet can ever be fed to it.

use vstd::prelude::*;
use crate::client::{login_intent, IncomingClient, NextState};
use crate::codec::RawPacket;
use crate::error::ProtoError;
use crate::lazy::LazyPacket;
use crate::packets::{
    encode_disconnect_frame, spec_decode_handshake, spec_disconnect_frame, Disconnect, Handshake,
    LoginStart, State, HANDSHAKE_PACKET_ID, LOGIN_START_PACKET_ID,
};

verus! {

/// The negotiator's position in the packet sequence: nothing read yet, or
/// a Login-intent handshake (kept as its raw bytes) awaiting the
/// login-start packet.
pub ghost enum SpecPhase {
    AwaitHandshake,
    AwaitLoginStart { hs: Seq<u8> },
}

/// The outcome of feeding one packet to the negotiator, as spec data.
pub ghost enum SpecStep {
    /// One more framed packet must be read.
    NeedPacket { next: SpecPhase },
    /// Negotiation succeeded: the raw handshake bytes, and the raw
    /// login-start bytes exactly when intent was Login.
    Complete { hs: Seq<u8>, login: Option<Seq<u8>> },
    /// Negotiation failed with a protocol error. The raw handshake bytes
    /// stay attached to the failed attempt whenever a handshake packet was
    /// received at all, decodable or not.
    Rejected { err: ProtoError, hs: Option<Seq<u8>> },
}

/// The negotiator's single transition function. A packet under the wrong
/// id rejects the attempt; an undecodable handshake rejects it with a
/// decode error; a Status handshake completes at once; a Login handshake
/// asks for exactly one more packet, which is kept lazily — its payload is
/// not inspected here.
pub open spec fn spec_step(ph: SpecPhase, id: u32, data: Seq<u8>) -> SpecStep {
    match ph {
        SpecPhase::AwaitHandshake => {
            if id != HANDSHAKE_PACKET_ID {
                SpecStep::Rejected { err: ProtoError::UnexpectedPacket, hs: None }
            } else {
                match spec_decode_handshake(data) {
                    None => SpecStep::Rejected { err: ProtoError::Decode, hs: Some(data) },
                    Some(h) => {
                        if h.next_state is Login {
                            SpecStep::NeedPacket { next: SpecPhase::AwaitLoginStart { hs: data } }
                        } else {
                            SpecStep::Complete { hs: data, login: None }
                        }
                    },
                }
            }
        },
        SpecPhase::AwaitLoginStart { hs } => {
            if id != LOGIN_START_PACKET_ID {
                SpecStep::Rejected { err: ProtoError::UnexpectedPacket, hs: Some(hs) }
            } else {
                SpecStep::Complete { hs, login: Some(data) }
            }
        },
    }
}

/// One live negotiation: the peer address captured at accept time and the
/// machine's position.
pub struct Negotiation {
    address: String,
    phase: Phase,
}

enum Phase {
    AwaitHandshake,
    AwaitLoginStart(LazyPacket<Handshake>),
}

/// A successful negotiation's yield: everything of a client except the
/// stream, which the caller attaches with `with_stream`.
pub struct Negotiated {
    pub address: String,
    pub handshake: LazyPacket<Handshake>,
    pub next_state: NextState,
}

/// A failed negotiation attempt. The error classifies the failure; the
/// handshake, whenever one was received at all, stays attached — even
/// undecodable bytes serve diagnostics, and a successfully classified
/// Login intent still earns the peer a disconnect notice.
pub struct Rejection {
    pub error: ProtoError,
    pub address: String,
    pub handshake: Option<LazyPacket<Handshake>>,
}

/// The answer the negotiator gives for one packet.
pub enum Step {
    /// The caller must read one more framed packet and feed it back.
    NeedPacket(Negotiation),
    /// Negotiation failed; the machine is consumed and the connection
    /// should be torn down, after the best-effort notice the rejection
    /// decides.
    Rejected(Rejection),
    /// Negotiation succeeded; the machine is consumed.
    Complete(Negotiated),
}

impl Rejection {
    /// A kept handshake is soundly cached.
    pub open spec fn wf(&self) -> bool {
        self.handshake matches Some(lp) ==> lp.wf()
    }

    /// The raw handshake bytes kept with the failed attempt, if any.
    pub open spec fn handshake_raw(&self) -> Option<Seq<u8>> {
        match self.handshake {
            Some(lp) => Some(lp.raw()),
            None => None,
        }
    }

    /// The best-effort notice owed to the rejected peer: exactly one
    /// framed disconnect packet carrying `reason` when a handshake was
    /// received and decodes with Login intent, and none otherwise — a
    /// peer whose intent is unknowable gets no protocol-level explanation.
    pub fn disconnect(self, reason: Vec<u8>) -> (r: Option<Vec<u8>>)
        requires
            self.wf(),
            reason@.len() + 6 <= u32::MAX,
        ensures
            match r {
                Some(f) => {
                    &&& self.handshake_raw() matches Some(hs) && login_intent(hs)
                    &&& f@ == spec_disconnect_frame(reason@)
                },
                None => !(self.handshake_raw() matches Some(hs) && login_intent(hs)),
            },
    {
        let mut handshake = match self.handshake {
            Some(lp) => lp,
            None => {
                return None;
            },
        };
        let is_login = match handshake.data() {
            Ok(h) => matches!(h.next_state, State::Login),
            Err(_) => false,
        };
        if !is_login {
            return None;
        }
        Some(encode_disconnect_frame(&Disconnect::new(reason)))
    }
}

impl Negotiated {
    /// The invariant a completed negotiation satisfies: sound caches, and
    /// a next state that is Login exactly when the handshake declares it.
    pub open spec fn wf(&self) -> bool {
        &&& self.handshake.wf()
        &&& (self.next_state matches NextState::Login(lp) ==> lp.wf())
        &&& (self.next_state is Login <==> login_intent(self.handshake.raw()))
    }

    /// The raw login-start bytes, when intent was Login.
    pub open spec fn login_raw(&self) -> Option<Seq<u8>> {
        match self.next_state {
            NextState::Login(lp) => Some(lp.raw()),
            NextState::Status => None,
        }
    }

    /// Attaches the exclusively owned stream, yielding the client that is
    /// handed to the router or to the disconnect decision.
    pub fn with_stream<S>(self, stream: S) -> (r: IncomingClient<S>)
        ensures
            r.address == self.address,
            r.stream == stream,
            r.handshake == self.handshake,
            r.next_state == self.next_state,
    {
        IncomingClient {
            address: self.address,
            stream,
            handshake: self.handshake,
            next_state: self.next_state,
        }
    }
}

impl Negotiation {
    /// The machine's position, as spec data.
    pub closed spec fn phase_spec(&self) -> SpecPhase {
        match self.phase {
            Phase::AwaitHandshake => SpecPhase::AwaitHandshake,
            Phase::AwaitLoginStart(lp) => SpecPhase::AwaitLoginStart { hs: lp.raw() },
        }
    }

    /// The peer address the machine was started with.
    pub closed spec fn addr(&self) -> Seq<char> {
        self.address@
    }

    /// A kept handshake is soundly cached and declared Login intent.
    pub closed spec fn wf(&self) -> bool {
        match self.phase {
            Phase::AwaitHandshake => true,
            Phase::AwaitLoginStart(lp) => lp.wf() && login_intent(lp.raw()),
        }
    }

    /// Starts a negotiation for one accepted connection, capturing its
    /// peer address.
    pub fn new(address: String) -> (r: Negotiation)
        ensures
            r.phase_spec() == SpecPhase::AwaitHandshake,
            r.addr() == address@,
            r.wf(),
    {
        Negotiation { address, phase: Phase::AwaitHandshake }
    }

    /// Feeds one framed packet to the machine. The answer follows
    /// `spec_step` on the machine's position and the packet; a completed
    /// negotiation keeps the raw handshake, the address, and — for Login
    /// intent — the raw login-start packet, still undecoded.
    pub fn on_packet(self, pkt: RawPacket) -> (r: Step)
        requires
            self.wf(),
        ensures
            match spec_step(self.phase_spec(), pkt.id, pkt.data@) {
                SpecStep::NeedPacket { next } => {
                    &&& r matches Step::NeedPacket(n)
                    &&& n.phase_spec() == next
                    &&& n.addr() == self.addr()
                    &&& n.wf()
                },
                SpecStep::Complete { hs, login } => {
                    &&& r matches Step::Complete(c)
                    &&& c.address@ == self.addr()
                    &&& c.handshake.raw() == hs
                    &&& c.login_raw() == login
                    &&& c.wf()
                },
                SpecStep::Rejected { err, hs } => {
                    &&& r matches Step::Rejected(rej)
                    &&& rej.error == err
                    &&& rej.address@ == self.addr()
                    &&& rej.handshake_raw() == hs
                    &&& rej.wf()
                },
            },
    {
        let Negotiation { address, phase } = self;
        match phase {
            Phase::AwaitHandshake => {
                let mut handshake: LazyPacket<Handshake> = match LazyPacket::try_from_raw(pkt) {
                    Ok(lp) => lp,
                    Err(e) => {
                        // no handshake was received under the expected id
                        return Step::Rejected(Rejection { error: e, address, handshake: None });
                    },
                };
                // force-decode just far enough to read the declared intent
                let intent = match handshake.data() {
                    Ok(h) => h.next_state,
                    Err(e) => {
                        // the bytes stay attached for diagnostics, though
                        // the attempt as a whole failed
                        return Step::Rejected(
                            Rejection { error: e, address, handshake: Some(handshake) },
                        );
                    },
                };
                match intent {
                    State::Status => Step::Complete(
                        Negotiated { address, handshake, next_state: NextState::Status },
                    ),
                    State::Login => Step::NeedPacket(
                        Negotiation { address, phase: Phase::AwaitLoginStart(handshake) },
                    ),
                }
            },
            Phase::AwaitLoginStart(handshake) => {
                // the login-start payload is wrapped, not decoded: whoever
                // needs the username forces it later
                let login: LazyPacket<LoginStart> = match LazyPacket::try_from_raw(pkt) {
                    Ok(lp) => lp,
                    Err(e) => {
                        // the classified Login handshake stays attached
                        return Step::Rejected(
                            Rejection { error: e, address, handshake: Some(handshake) },
                        );
                    },
                };
                Step::Complete(
                    Negotiated { address, handshake, next_state: NextState::Login(login) },
                )
            },
        }
    }
}

/// A valid handshake declaring Status intent completes negotiation at
/// once: the machine asks for no second packet, and the outcome carries no
/// login-start.
pub proof fn law_status_completes(id: u32, data: Seq<u8>)
    requires
        id == HANDSHAKE_PACKET_ID,
        spec_decode_handshake(data) matches Some(h) && h.next_state is Status,
    ensures
        spec_step(SpecPhase::AwaitHandshake, id, data) == (SpecStep::Complete {
            hs: data,
            login: None,
        }),
{
}

/// A valid handshake declaring Login intent asks for exactly one more
/// packet, and a login-start packet then completes negotiation carrying
/// both packets' bytes unchanged — so forcing the login-start decode later
/// yields exactly the username the peer claimed on the wire.
pub proof fn law_login_completes(id1: u32, d1: Seq<u8>, id2: u32, d2: Seq<u8>)
    requires
        id1 == HANDSHAKE_PACKET_ID,
        id2 == LOGIN_START_PACKET_ID,
        spec_decode_handshake(d1) matches Some(h) && h.next_state is Login,
    ensures
        spec_step(SpecPhase::AwaitHandshake, id1, d1) == (SpecStep::NeedPacket {
            next: SpecPhase::AwaitLoginStart { hs: d1 },
        }),
        spec_step(SpecPhase::AwaitLoginStart { hs: d1 }, id2, d2) == (SpecStep::Complete {
            hs: d1,
            login: Some(d2),
        }),
{
}

/// A handshake that fails to decode rejects the attempt with a protocol
/// error, keeping the received bytes attached. The rejection is terminal —
/// the machine is consumed — so no login-start packet is ever requested
/// after it; and since the bytes decode to nothing, the rejected attempt's
/// disconnect decision owes the peer no notice.
pub proof fn law_bad_handshake_rejected(id: u32, data: Seq<u8>)
    requires
        id == HANDSHAKE_PACKET_ID,
        spec_decode_handshake(data) is None,
    ensures
        spec_step(SpecPhase::AwaitHandshake, id, data) == (SpecStep::Rejected {
            err: ProtoError::Decode,
            hs: Some(data),
        }),
        !login_intent(data),
{
}

} // verus!
