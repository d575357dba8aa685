//! Error taxonomy of the negotiation layer.

use vstd::prelude::*;

verus! {

/// A failure while reading, parsing or classifying a packet. Always fatal
/// to the negotiation attempt that raised it; never retried.
#[derive(Clone, Copy, Debug, PartialEq, Eq, Structural)]
pub enum ProtoError {
    /// A packet arrived whose id does not match the packet expected here.
    UnexpectedPacket,
    /// Bytes were received but do not form a valid frame or payload.
    Decode,
    /// The underlying byte channel failed. Produced only by callers that
    /// perform the actual reads and writes; the library itself never
    /// raises it.
    Io,
}

/// The unified outcome of a failed negotiation: a protocol-level failure,
/// or the aggregate deadline elapsing first. Callers may treat the two
/// differently, so they stay distinct.
#[derive(Clone, Copy, Debug, PartialEq, Eq, Structural)]
pub enum HopperError {
    TimeOut,
    Protocol(ProtoError),
}

/// The rendering of an error as message bytes, for a disconnect notice.
pub open spec fn spec_message(e: HopperError) -> Seq<u8> {
    match e {
        HopperError::TimeOut => seq![116u8, 105u8, 109u8, 101u8, 111u8, 117u8, 116u8],
        HopperError::Protocol(_) => seq![
            98u8, 97u8, 100u8, 32u8, 112u8, 97u8, 99u8, 107u8, 101u8, 116u8,
        ],
    }
}

impl HopperError {
    /// A short human-readable message describing the error: `timeout` for
    /// an elapsed deadline, `bad packet` for a protocol failure.
    pub fn message(&self) -> (r: Vec<u8>)
        ensures
            r@ == spec_message(*self),
    {
        let mut v: Vec<u8> = Vec::new();
        match self {
            HopperError::TimeOut => {
                v.push(116);
                v.push(105);
                v.push(109);
                v.push(101);
                v.push(111);
                v.push(117);
                v.push(116);
                assert(v@ =~= spec_message(*self));
            },
            HopperError::Protocol(_) => {
                v.push(98);
                v.push(97);
                v.push(100);
                v.push(32);
                v.push(112);
                v.push(97);
                v.push(99);
                v.push(107);
                v.push(101);
                v.push(116);
                assert(v@ =~= spec_message(*self));
            },
        }
        v
    }
}

} // verus!
