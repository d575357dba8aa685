//! The wire-level codec: base-128 variable-length integers, length-prefixed
//! byte strings, and the body of a framed packet (packet id followed by its
//! payload).
//!
//! Every reader is total over its input: it either returns the unique value
//! that the bytes encode, or reports that no valid encoding starts at the
//! given position. The spec functions `varint_at`, `bytes_at` and
//! `spec_parse_frame` are the single definition of the format; readers and
//! writers are proved against them.

use vstd::prelude::*;
use crate::error::ProtoError;

verus! {

/// 128 raised to the power `k`: the weight of the `k`-th group of a
/// variable-length integer.
pub open spec fn p128(k: nat) -> nat
    decreases k,
{
    if k == 0 {
        1
    } else {
        128 * p128((k - 1) as nat)
    }
}

/// The integer that a sequence of varint groups denotes: each byte
/// contributes its low seven bits, least-significant group first.
pub open spec fn varint_value(s: Seq<u8>) -> nat
    decreases s.len(),
{
    if s.len() == 0 {
        0
    } else {
        ((s[0] % 128) as nat) + 128 * varint_value(s.skip(1))
    }
}

/// The length of the varint starting at `pos`, if one terminates there:
/// the distance to the first byte without its continuation bit, at most
/// five bytes.
pub open spec fn varint_len_at(s: Seq<u8>, pos: int) -> Option<int> {
    if pos < s.len() && s[pos] < 128 {
        Some(1int)
    } else if pos + 1 < s.len() && s[pos + 1] < 128 {
        Some(2int)
    } else if pos + 2 < s.len() && s[pos + 2] < 128 {
        Some(3int)
    } else if pos + 3 < s.len() && s[pos + 3] < 128 {
        Some(4int)
    } else if pos + 4 < s.len() && s[pos + 4] < 128 {
        Some(5int)
    } else {
        None
    }
}

/// The varint at `pos`: its value and the position just past it, or `None`
/// where no varint terminates within five bytes or its value exceeds
/// `u32::MAX`.
pub open spec fn varint_at(s: Seq<u8>, pos: int) -> Option<(u32, int)> {
    match varint_len_at(s, pos) {
        Some(k) => {
            let v = varint_value(s.subrange(pos, pos + k));
            if v <= u32::MAX {
                Some(((v as u32), pos + k))
            } else {
                None
            }
        },
        None => None,
    }
}

/// The canonical encoding of `v` as a varint.
pub open spec fn varint_enc(v: nat) -> Seq<u8>
    decreases v,
{
    if v < 128 {
        seq![v as u8]
    } else {
        seq![(v % 128 + 128) as u8] + varint_enc(v / 128)
    }
}

/// The length-prefixed byte string at `pos`: a varint length followed by
/// that many bytes.
pub open spec fn bytes_at(s: Seq<u8>, pos: int) -> Option<(Seq<u8>, int)> {
    match varint_at(s, pos) {
        Some((n, p)) => {
            if p + n <= s.len() {
                Some((s.subrange(p, p + n), p + n))
            } else {
                None
            }
        },
        None => None,
    }
}

/// The encoding of a byte string: its length as a varint, then the bytes.
pub open spec fn bytes_enc(b: Seq<u8>) -> Seq<u8> {
    varint_enc(b.len()) + b
}

/// Appending one group multiplies its weight by the groups already read.
proof fn lemma_varint_value_push(s: Seq<u8>, b: u8)
    ensures
        varint_value(s.push(b)) == varint_value(s) + ((b % 128) as nat) * p128(s.len()),
    decreases s.len(),
{
    if s.len() == 0 {
        assert(s.push(b) =~= seq![b]);
        assert(s.push(b).skip(1) =~= Seq::<u8>::empty());
        assert(varint_value(Seq::<u8>::empty()) == 0);
        assert(varint_value(s.push(b)) == (b % 128) as nat);
        assert(p128(s.len()) == 1);
        assert(((b % 128) as nat) * 1 == (b % 128) as nat) by (nonlinear_arith);
    } else {
        let g = (b % 128) as nat;
        let rest = s.skip(1);
        assert(s.push(b).skip(1) =~= rest.push(b));
        lemma_varint_value_push(rest, b);
        assert(s.push(b)[0] == s[0]);
        assert(varint_value(s.push(b)) == ((s[0] % 128) as nat) + 128 * varint_value(
            rest.push(b),
        ));
        assert(varint_value(rest.push(b)) == varint_value(rest) + g * p128(rest.len()));
        assert(p128(s.len()) == 128 * p128((s.len() - 1) as nat));
        assert(128 * (varint_value(rest) + g * p128(rest.len())) == 128 * varint_value(rest) + 128
            * (g * p128(rest.len()))) by (nonlinear_arith);
        assert(128 * (g * p128(rest.len())) == g * (128 * p128(rest.len()))) by (nonlinear_arith);
        assert(varint_value(s) == ((s[0] % 128) as nat) + 128 * varint_value(rest));
    }
}

/// Powers of 128 are positive.
proof fn lemma_p128_pos(k: nat)
    ensures
        p128(k) >= 1,
    decreases k,
{
    if k > 0 {
        lemma_p128_pos((k - 1) as nat);
    }
}

/// Powers of 128 grow with the exponent.
proof fn lemma_p128_mono(i: nat, j: nat)
    requires
        i <= j,
    ensures
        p128(i) <= p128(j),
        p128(i) >= 1,
    decreases j,
{
    lemma_p128_pos(i);
    if i < j {
        lemma_p128_mono(i, (j - 1) as nat);
        lemma_p128_pos((j - 1) as nat);
    }
}

/// Reads the varint starting at `pos` in `data`. Returns its value and the
/// position just past it, exactly where `varint_at` is defined; any other
/// input is a decode failure.
pub fn read_varint(data: &Vec<u8>, pos: usize) -> (r: Result<(u32, usize), ProtoError>)
    requires
        pos <= data@.len(),
    ensures
        match r {
            Ok(ve) => {
                &&& varint_at(data@, pos as int) == Some((ve.0, ve.1 as int))
                &&& pos < ve.1 <= data@.len()
            },
            Err(e) => {
                &&& varint_at(data@, pos as int) is None
                &&& e == ProtoError::Decode
            },
        },
{
    let len = data.len();
    let mut k: usize = 0;
    let mut acc: u64 = 0;
    let mut mult: u64 = 1;
    while k < 5
        invariant
            k <= 5,
            pos <= len,
            pos + k <= len,
            len == data@.len(),
            mult == p128(k as nat),
            acc == varint_value(data@.subrange(pos as int, pos + k)),
            acc < mult,
            forall|j: int| pos <= j < pos + k ==> #[trigger] data@[j] >= 128,
        decreases 5 - k,
    {
        proof {
            lemma_p128_mono(k as nat, 4);
            assert(p128(4) == 268435456) by {
                reveal_with_fuel(p128, 5);
            }
        }
        if len - pos <= k {
            // the stream ended inside the varint
            return Err(ProtoError::Decode);
        }
        let b = data[pos + k];
        let g: u64 = (b % 128) as u64;
        proof {
            assert(g * mult <= 127 * 268435456) by (nonlinear_arith)
                requires
                    g <= 127,
                    mult <= 268435456,
            ;
            let pre = data@.subrange(pos as int, pos + k);
            lemma_varint_value_push(pre, b);
            assert(pre.push(b) =~= data@.subrange(pos as int, pos + k + 1));
            assert(pre.len() == k as nat);
        }
        acc = acc + g * mult;
        if b < 128 {
            if acc > 0xFFFF_FFFF {
                // a five-byte varint whose value does not fit in 32 bits
                return Err(ProtoError::Decode);
            }
            assert(varint_len_at(data@, pos as int) == Some(k + 1int));
            return Ok(((acc as u32), pos + k + 1));
        }
        proof {
            assert(g * mult <= 127 * mult) by (nonlinear_arith)
                requires
                    g <= 127,
                    mult >= 0,
            ;
        }
        mult = mult * 128;
        k = k + 1;
    }
    // five continuation bits in a row: no varint terminates here
    Err(ProtoError::Decode)
}

/// Appends the canonical varint encoding of `v`.
pub fn encode_varint(v: u32, out: &mut Vec<u8>)
    ensures
        final(out)@ == old(out)@ + varint_enc(v as nat),
{
    let ghost orig = out@;
    let ghost start = out@.len() as int;
    let mut x = v;
    while x >= 128
        invariant
            0 <= start <= out@.len(),
            start == orig.len(),
            out@.subrange(0, start) =~= orig,
            varint_enc(v as nat) =~= out@.subrange(start, out@.len() as int) + varint_enc(
                x as nat,
            ),
        decreases x,
    {
        let ghost pre = out@;
        out.push((x % 128 + 128) as u8);
        proof {
            assert(out@.subrange(0, start) =~= pre.subrange(0, start));
            assert(out@.subrange(start, out@.len() as int) =~= pre.subrange(
                start,
                pre.len() as int,
            ).push((x % 128 + 128) as u8));
            assert(varint_enc(x as nat) =~= seq![(x % 128 + 128) as u8] + varint_enc(
                (x / 128) as nat,
            ));
            assert(pre.subrange(start, pre.len() as int).push((x % 128 + 128) as u8) + varint_enc(
                (x / 128) as nat,
            ) =~= pre.subrange(start, pre.len() as int) + varint_enc(x as nat));
        }
        x = x / 128;
    }
    let ghost pre = out@;
    out.push(x as u8);
    proof {
        assert(varint_enc(x as nat) =~= seq![x as u8]);
        assert(out@.subrange(0, start) =~= pre.subrange(0, start));
        assert(out@.subrange(start, out@.len() as int) =~= pre.subrange(
            start,
            pre.len() as int,
        ).push(x as u8));
        assert(out@ =~= orig + varint_enc(v as nat));
    }
}

/// Reads the length-prefixed byte string starting at `pos`, exactly where
/// `bytes_at` is defined.
pub fn read_bytes(data: &Vec<u8>, pos: usize) -> (r: Result<(Vec<u8>, usize), ProtoError>)
    requires
        pos <= data@.len(),
    ensures
        match r {
            Ok(be) => {
                &&& bytes_at(data@, pos as int) == Some((be.0@, be.1 as int))
                &&& pos < be.1 <= data@.len()
            },
            Err(e) => {
                &&& bytes_at(data@, pos as int) is None
                &&& e == ProtoError::Decode
            },
        },
{
    let (n, p) = match read_varint(data, pos) {
        Ok(v) => v,
        Err(e) => {
            return Err(e);
        },
    };
    let len = data.len();
    if (n as usize) > len - p {
        // fewer bytes remain than the length prefix claims
        return Err(ProtoError::Decode);
    }
    let end = p + n as usize;
    let mut out: Vec<u8> = Vec::new();
    let mut i: usize = p;
    while i < end
        invariant
            p <= i <= end <= len,
            len == data@.len(),
            out@ =~= data@.subrange(p as int, i as int),
        decreases end - i,
    {
        let ghost pre = out@;
        out.push(data[i]);
        proof {
            assert(pre.push(data@[i as int]) =~= data@.subrange(p as int, i + 1));
        }
        i = i + 1;
    }
    Ok((out, end))
}

/// Appends the encoding of `b`: its length as a varint, then its bytes.
pub fn encode_bytes(b: &Vec<u8>, out: &mut Vec<u8>)
    requires
        b@.len() <= u32::MAX,
    ensures
        final(out)@ == old(out)@ + bytes_enc(b@),
{
    encode_varint(b.len() as u32, out);
    let ghost mid = out@;
    let mut i: usize = 0;
    let len = b.len();
    while i < len
        invariant
            i <= len,
            len == b@.len(),
            out@ =~= mid + b@.subrange(0, i as int),
        decreases len - i,
    {
        let ghost pre = out@;
        out.push(b[i]);
        proof {
            assert(pre.push(b@[i as int]) =~= mid + b@.subrange(0, i + 1));
        }
        i = i + 1;
    }
    proof {
        assert(b@.subrange(0, len as int) =~= b@);
        assert(out@ =~= old(out)@ + bytes_enc(b@));
    }
}

/// A canonical varint encoding never exceeds `k` bytes for values below
/// the `k`-th power of 128.
pub proof fn lemma_varint_enc_len(v: nat, k: nat)
    requires
        1 <= k,
        v < p128(k),
    ensures
        1 <= varint_enc(v).len() <= k,
    decreases k,
{
    if v < 128 {
    } else {
        assert(p128(k) == 128 * p128((k - 1) as nat));
        assert(v / 128 < p128((k - 1) as nat)) by (nonlinear_arith)
            requires
                v < 128 * p128((k - 1) as nat),
        ;
        lemma_varint_enc_len(v / 128, (k - 1) as nat);
    }
}

/// A canonical encoding has its continuation bits exactly where the format
/// asks, and denotes the value it was built from.
pub proof fn lemma_varint_enc_shape(v: nat)
    ensures
        1 <= varint_enc(v).len(),
        varint_enc(v)[varint_enc(v).len() - 1] < 128,
        forall|j: int| 0 <= j < varint_enc(v).len() - 1 ==> varint_enc(v)[j] >= 128,
        varint_value(varint_enc(v)) == v,
    decreases v,
{
    let e = varint_enc(v);
    if v < 128 {
        assert(e =~= seq![v as u8]);
        assert(e.skip(1) =~= Seq::<u8>::empty());
        assert(varint_value(Seq::<u8>::empty()) == 0);
        assert(varint_value(e) == ((v as u8) % 128) as nat);
    } else {
        let b = (v % 128 + 128) as u8;
        let rest = varint_enc(v / 128);
        lemma_varint_enc_shape(v / 128);
        assert(e =~= seq![b] + rest);
        assert(e.skip(1) =~= rest);
        assert(e[0] == b && b >= 128);
        assert forall|j: int| 0 <= j < e.len() - 1 implies e[j] >= 128 by {
            if j >= 1 {
                assert(e[j] == rest[j - 1]);
            }
        }
        assert(varint_value(e) == ((b % 128) as nat) + 128 * varint_value(rest));
        assert(((b % 128) as nat) == v % 128);
        assert(v % 128 + 128 * (v / 128) == v);
    }
}

/// Wherever a canonical encoding sits in a byte sequence, the reader finds
/// exactly the encoded value and stops exactly past it.
pub proof fn lemma_varint_at_enc(s: Seq<u8>, pos: int, v: u32)
    requires
        0 <= pos,
        pos + varint_enc(v as nat).len() <= s.len(),
        s.subrange(pos, pos + varint_enc(v as nat).len()) == varint_enc(v as nat),
    ensures
        varint_at(s, pos) == Some((v, pos + varint_enc(v as nat).len())),
{
    let e = varint_enc(v as nat);
    let l = e.len() as int;
    lemma_varint_enc_shape(v as nat);
    assert(p128(5) == 34359738368) by {
        reveal_with_fuel(p128, 6);
    }
    lemma_varint_enc_len(v as nat, 5);
    assert(s[pos] == s.subrange(pos, pos + l)[0]);
    if l > 1 {
        assert(s[pos + 1] == s.subrange(pos, pos + l)[1]);
    }
    if l > 2 {
        assert(s[pos + 2] == s.subrange(pos, pos + l)[2]);
    }
    if l > 3 {
        assert(s[pos + 3] == s.subrange(pos, pos + l)[3]);
    }
    if l > 4 {
        assert(s[pos + 4] == s.subrange(pos, pos + l)[4]);
    }
    assert(varint_len_at(s, pos) == Some(l));
    assert(varint_value(s.subrange(pos, pos + l)) == v as nat);
}

/// Wherever an encoded byte string sits in a byte sequence, the reader
/// recovers exactly that string and stops exactly past it.
pub proof fn lemma_bytes_at_enc(s: Seq<u8>, pos: int, b: Seq<u8>)
    requires
        0 <= pos,
        b.len() <= u32::MAX,
        pos + bytes_enc(b).len() <= s.len(),
        s.subrange(pos, pos + bytes_enc(b).len()) == bytes_enc(b),
    ensures
        bytes_at(s, pos) == Some((b, pos + bytes_enc(b).len())),
{
    let n = b.len() as int;
    let e = varint_enc(b.len());
    let le = e.len() as int;
    let total = bytes_enc(b).len() as int;
    assert(total == le + n);
    assert forall|j: int| 0 <= j < total implies s[pos + j] == bytes_enc(b)[j] by {
        assert(s.subrange(pos, pos + total)[j] == s[pos + j]);
    }
    assert(s.subrange(pos, pos + le) =~= varint_enc((b.len() as u32) as nat));
    lemma_varint_at_enc(s, pos, b.len() as u32);
    assert(varint_at(s, pos) == Some((b.len() as u32, pos + le)));
    assert forall|j: int| 0 <= j < n implies s.subrange(pos + le, pos + le + n)[j] == b[j] by {
        assert(s.subrange(pos, pos + total)[le + j] == s[pos + le + j]);
        assert(bytes_enc(b)[le + j] == b[j]);
    }
    assert(s.subrange(pos + le, pos + le + n) =~= b);
}

/// A framed packet as handed to the negotiator: the packet id from the
/// frame body, and the remaining bytes as the payload.
pub struct RawPacket {
    pub id: u32,
    pub data: Vec<u8>,
}

/// The id and payload that a frame body denotes: a varint id followed by
/// the payload, which runs to the end of the body.
pub open spec fn spec_parse_frame(b: Seq<u8>) -> Option<(u32, Seq<u8>)> {
    match varint_at(b, 0) {
        Some((id, p)) => Some((id, b.subrange(p, b.len() as int))),
        None => None,
    }
}

impl RawPacket {
    /// Splits a frame body (everything after the length prefix) into the
    /// packet id and its payload, exactly where `spec_parse_frame` is
    /// defined.
    pub fn parse(body: Vec<u8>) -> (r: Result<RawPacket, ProtoError>)
        ensures
            match r {
                Ok(p) => spec_parse_frame(body@) == Some((p.id, p.data@)),
                Err(e) => {
                    &&& spec_parse_frame(body@) is None
                    &&& e == ProtoError::Decode
                },
            },
    {
        let (id, p) = match read_varint(&body, 0) {
            Ok(v) => v,
            Err(e) => {
                return Err(e);
            },
        };
        let len = body.len();
        let mut data: Vec<u8> = Vec::new();
        let mut i: usize = p;
        while i < len
            invariant
                p <= i <= len,
                len == body@.len(),
                data@ =~= body@.subrange(p as int, i as int),
            decreases len - i,
        {
            let ghost pre = data@;
            data.push(body[i]);
            proof {
                assert(pre.push(body@[i as int]) =~= body@.subrange(p as int, i + 1));
            }
            i = i + 1;
        }
        Ok(RawPacket { id, data })
    }
}

} // verus!
