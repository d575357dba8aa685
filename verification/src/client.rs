//! The negotiated client and its disconnect policy.
//!
//! A client owns its stream exclusively; the stream enters as an opaque
//! value (the library never reads or writes it) and leaves through exactly
//! one consumer: a hand-off to the router, or the disconnect decision,
//! which releases the stream together with the notice to write.

use vstd::prelude::*;
use crate::error::{spec_message, HopperError};
use crate::lazy::LazyPacket;
use crate::packets::{
    encode_disconnect_frame, spec_decode_handshake, spec_disconnect_frame, Disconnect, Handshake,
    LoginStart, State,
};

verus! {

/// The classified next state of a peer: a status query, or a login
/// attempt carrying the still-lazy login-start packet.
pub enum NextState {
    Login(LazyPacket<LoginStart>),
    Status,
}

/// Whether a handshake payload decodes successfully and declares Login
/// intent. An undecodable handshake declares nothing.
pub open spec fn login_intent(hs: Seq<u8>) -> bool {
    match spec_decode_handshake(hs) {
        Some(h) => h.next_state is Login,
        None => false,
    }
}

/// One peer mid-handshake: the peer address rendered at accept time, the
/// exclusively owned stream, the lazily-decoded handshake, and the
/// classified next state.
pub struct IncomingClient<S> {
    pub address: String,
    pub stream: S,
    pub handshake: LazyPacket<Handshake>,
    pub next_state: NextState,
}

impl<S> IncomingClient<S> {
    /// The classification invariant: the decode caches are sound, and the
    /// next state is Login exactly when the handshake decodes with Login
    /// intent.
    pub open spec fn wf(&self) -> bool {
        &&& self.handshake.wf()
        &&& (self.next_state matches NextState::Login(lp) ==> lp.wf())
        &&& (self.next_state is Login <==> login_intent(self.handshake.raw()))
    }

    /// A human-readable rendering of the client for logs: its peer
    /// address.
    pub fn describe(&self) -> (r: &str)
        ensures
            r@ == self.address@,
    {
        self.address.as_str()
    }

    /// The best-effort disconnect decision. Consumes the client; returns
    /// the stream together with the notice owed to the peer: exactly one
    /// framed disconnect packet carrying `reason` when the handshake still
    /// decodes with Login intent, and none otherwise (a status peer, or a
    /// handshake whose intent is unknowable). Writing the bytes — and
    /// swallowing any write failure — is the caller's part; this decision
    /// itself cannot fail.
    pub fn disconnect(self, reason: Vec<u8>) -> (r: (S, Option<Vec<u8>>))
        requires
            self.wf(),
            reason@.len() + 6 <= u32::MAX,
        ensures
            r.0 == self.stream,
            match r.1 {
                Some(f) => {
                    &&& login_intent(self.handshake.raw())
                    &&& f@ == spec_disconnect_frame(reason@)
                },
                None => !login_intent(self.handshake.raw()),
            },
    {
        let IncomingClient { address: _, stream, mut handshake, next_state: _ } = self;
        let is_login = match handshake.data() {
            Ok(h) => matches!(h.next_state, State::Login),
            Err(_) => false,
        };
        if !is_login {
            return (stream, None);
        }
        let frame = encode_disconnect_frame(&Disconnect::new(reason));
        (stream, Some(frame))
    }

    /// Renders the error's message and forwards to `disconnect`.
    pub fn disconnect_err(self, err: &HopperError) -> (r: (S, Option<Vec<u8>>))
        requires
            self.wf(),
        ensures
            r.0 == self.stream,
            match r.1 {
                Some(f) => {
                    &&& login_intent(self.handshake.raw())
                    &&& f@ == spec_disconnect_frame(spec_message(*err))
                },
                None => !login_intent(self.handshake.raw()),
            },
    {
        let msg = err.message();
        self.disconnect(msg)
    }
}

} // verus!
