//! A received packet's raw bytes paired with a deferred, cached decode.
//!
//! Decoding happens once, on first access; the outcome — value or decode
//! failure — is cached for every later access, so two consumers of the
//! same field never pay for, or disagree about, a second parse.

use vstd::prelude::*;
use crate::codec::RawPacket;
use crate::error::ProtoError;
use crate::packets::PacketBody;

verus! {

/// A lazily-decoded packet of schema `T`: always holds the raw payload
/// (the bytes were read), even when they decode to nothing.
pub struct LazyPacket<T> {
    data: Vec<u8>,
    cache: Option<Result<T, ProtoError>>,
}

impl<T: PacketBody> LazyPacket<T> {
    /// The raw payload bytes.
    pub closed spec fn raw(&self) -> Seq<u8> {
        self.data@
    }

    /// Whether the decode outcome is already cached.
    pub closed spec fn is_cached(&self) -> bool {
        self.cache is Some
    }

    /// The cache, when filled, holds exactly the decode outcome of the
    /// raw payload.
    pub closed spec fn wf(&self) -> bool {
        match self.cache {
            None => true,
            Some(Ok(v)) => T::spec_decode(self.data@) == Some(v@),
            Some(Err(e)) => T::spec_decode(self.data@) is None && e == ProtoError::Decode,
        }
    }

    /// Wraps a received packet under this schema without decoding it.
    /// Fails exactly when the packet id does not match the schema's.
    pub fn try_from_raw(pkt: RawPacket) -> (r: Result<Self, ProtoError>)
        ensures
            match r {
                Ok(lp) => {
                    &&& pkt.id == T::packet_id()
                    &&& lp.raw() == pkt.data@
                    &&& !lp.is_cached()
                    &&& lp.wf()
                },
                Err(e) => {
                    &&& pkt.id != T::packet_id()
                    &&& e == ProtoError::UnexpectedPacket
                },
            },
    {
        if pkt.id == T::id() {
            Ok(LazyPacket { data: pkt.data, cache: None })
        } else {
            Err(ProtoError::UnexpectedPacket)
        }
    }

    /// The decode-on-first-use accessor: decodes and caches on a miss,
    /// and returns the cached outcome ever after. The outcome is a pure
    /// function of the raw bytes, so re-asking can never contradict an
    /// earlier answer.
    pub fn data(&mut self) -> (r: Result<&T, ProtoError>)
        requires
            old(self).wf(),
        ensures
            final(self).wf(),
            final(self).is_cached(),
            final(self).raw() == old(self).raw(),
            match r {
                Ok(v) => T::spec_decode(old(self).raw()) == Some(v@),
                Err(e) => {
                    &&& T::spec_decode(old(self).raw()) is None
                    &&& e == ProtoError::Decode
                },
            },
    {
        if self.cache.is_none() {
            self.cache = Some(T::decode(&self.data));
        }
        match &self.cache {
            Some(Ok(v)) => Ok(v),
            Some(Err(_)) => Err(ProtoError::Decode),
            None => {
                proof {
                    assert(false);
                }
                Err(ProtoError::Decode)
            },
        }
    }
}

} // verus!
