//! Handshake-negotiation core of a reverse proxy for a length-prefixed
//! binary game protocol.
//!
//! The library parses framed packets, classifies a peer's declared intent
//! (a status query or a login attempt) with a single-shot state machine,
//! and decides the best-effort disconnect notice. All I/O, and the
//! wall-clock deadline that bounds a negotiation, live outside the
//! library: callers read frames from their stream, feed them to
//! [`negotiate::Negotiation`], and write out whatever bytes
//! [`client::IncomingClient::disconnect`] hands back.

pub mod codec;
pub mod lazy;
pub mod packets;
pub mod client;
pub mod error;
pub mod negotiate;
