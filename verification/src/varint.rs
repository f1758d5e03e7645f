//! Variable-length integers: seven value bits per byte, least significant
//! group first, with the high bit of every byte but the last set as a
//! continuation marker.

use vstd::arithmetic::power2::{
    lemma2_to64, lemma2_to64_rest, lemma_pow2_adds, lemma_pow2_pos, lemma_pow2_strictly_increases,
    pow2,
};
use vstd::prelude::*;

verus! {

/// Why a varint could not be decoded: the buffer ended inside it, or it ran
/// past the ten bytes that can carry a 64-bit value.
#[derive(Clone, Copy, Debug, PartialEq, Eq, Structural)]
pub enum VarintError {
    Truncated,
    TooLong,
}

/// The minimal variable-length encoding of a non-negative integer.
pub open spec fn spec_varint(v: int) -> Seq<u8>
    decreases v when v >= 0
{
    if v < 0x80 {
        seq![v as u8]
    } else {
        seq![(0x80 + v % 0x80) as u8] + spec_varint(v / 0x80)
    }
}

/// Decoding a varint that starts at `bytes[pos]`, after `count` bytes of it
/// have already been consumed.  Returns the decoded value and the position of
/// the first byte after the varint.  At most ten bytes are accepted, and a
/// tenth byte may only contribute the 64th bit, so every decoded value fits
/// in 64 bits.
pub open spec fn spec_varint_dec_at(bytes: Seq<u8>, pos: int, count: int) -> Result<
    (int, int),
    VarintError,
>
    decreases 10 - count when count <= 10
{
    if count >= 10 {
        Err(VarintError::TooLong)
    } else if pos < 0 || pos >= bytes.len() {
        Err(VarintError::Truncated)
    } else {
        let b = bytes[pos];
        if b < 0x80 {
            if count == 9 && b > 1 {
                Err(VarintError::TooLong)
            } else {
                Ok((b as int, pos + 1))
            }
        } else {
            match spec_varint_dec_at(bytes, pos + 1, count + 1) {
                Ok((v, end)) => Ok(((b - 0x80) + 0x80 * v, end)),
                Err(e) => Err(e),
            }
        }
    }
}

/// Decoding a whole varint that starts at `bytes[pos]`.
pub open spec fn spec_varint_dec(bytes: Seq<u8>, pos: int) -> Result<(int, int), VarintError> {
    spec_varint_dec_at(bytes, pos, 0)
}

/// A decoded varint value is bounded by how many of its ten possible bytes
/// are still available, and decoding always consumes at least one byte.
pub proof fn lemma_varint_dec_bounds(bytes: Seq<u8>, pos: int, count: int)
    requires
        0 <= count <= 9,
    ensures
        spec_varint_dec_at(bytes, pos, count) matches Ok((v, end)) ==> {
            &&& 0 <= v < pow2((7 * (9 - count) + 1) as nat)
            &&& pos < end <= bytes.len()
            &&& end - pos <= 10 - count
        },
    decreases 10 - count,
{
    lemma2_to64();
    lemma2_to64_rest();
    if spec_varint_dec_at(bytes, pos, count) matches Ok((v, end)) {
        let b = bytes[pos];
        if b < 0x80 {
            if count < 9 {
                lemma_pow2_strictly_increases(7nat, (7 * (9 - count) + 1) as nat);
            }
        } else {
            lemma_varint_dec_bounds(bytes, pos + 1, count + 1);
            let rest = spec_varint_dec_at(bytes, pos + 1, count + 1)->Ok_0.0;
            let e1 = (7 * (8 - count) + 1) as nat;
            lemma_pow2_adds(e1, 7nat);
            assert(0x80 * rest + 0x80 <= 0x80 * pow2(e1)) by (nonlinear_arith)
                requires
                    rest < pow2(e1),
                    pow2(e1) > 0,
            ;
        }
    }
}

/// Decoding reads back exactly what the minimal encoding wrote: if the bytes
/// at `pos` are `spec_varint(v)`, decoding at `pos` yields `v` and stops at
/// the byte after the encoding.
pub proof fn lemma_varint_enc_dec(bytes: Seq<u8>, pos: int, v: int, count: int)
    requires
        0 <= count <= 9,
        0 <= v < pow2((7 * (9 - count) + 1) as nat),
        0 <= pos,
        pos + spec_varint(v).len() <= bytes.len(),
        bytes.subrange(pos, pos + spec_varint(v).len()) == spec_varint(v),
    ensures
        spec_varint_dec_at(bytes, pos, count) == Ok::<(int, int), VarintError>(
            (v, pos + spec_varint(v).len()),
        ),
    decreases v,
{
    lemma2_to64();
    let enc = spec_varint(v);
    assert(bytes[pos] == enc[0]);
    if v < 0x80 {
        if count == 9 {
            assert(pow2((7 * (9 - count) + 1) as nat) == 2);
        }
    } else {
        let rest = spec_varint(v / 0x80);
        assert(enc == seq![(0x80 + v % 0x80) as u8] + rest);
        assert(0 <= v % 0x80 < 0x80);
        assert(bytes[pos] == (0x80 + v % 0x80) as u8);
        assert(bytes[pos] >= 0x80);
        let e1 = (7 * (8 - count) + 1) as nat;
        lemma_pow2_adds(e1, 7nat);
        lemma_pow2_pos(e1);
        assert(v / 0x80 < pow2(e1)) by (nonlinear_arith)
            requires
                v < pow2(e1) * 0x80,
                pow2(e1) > 0,
        ;
        assert(bytes.subrange(pos + 1, pos + 1 + rest.len()) == rest) by {
            assert forall|i: int| 0 <= i < rest.len() implies bytes[pos + 1 + i] == rest[i] by {
                assert(bytes.subrange(pos, pos + enc.len())[i + 1] == enc[i + 1]);
            }
            assert(bytes.subrange(pos + 1, pos + 1 + rest.len()) =~= rest);
        }
        lemma_varint_enc_dec(bytes, pos + 1, v / 0x80, count + 1);
        assert((bytes[pos] - 0x80) + 0x80 * (v / 0x80) == v);
    }
}

/// The encoding of a value below `pow2(7 * k)` takes at most `k` bytes.
pub proof fn lemma_varint_len_bound(v: int, k: nat)
    requires
        k >= 1,
        0 <= v < pow2(7 * k),
    ensures
        1 <= spec_varint(v).len() <= k,
    decreases k,
{
    lemma2_to64();
    if v >= 0x80 {
        assert(k >= 2) by {
            if k == 1 {
                assert(pow2(7) == 0x80);
            }
        }
        lemma_pow2_adds(7 * (k - 1) as nat, 7nat);
        lemma_pow2_pos(7 * (k - 1) as nat);
        assert(v / 0x80 < pow2(7 * (k - 1) as nat)) by (nonlinear_arith)
            requires
                v < pow2(7 * (k - 1) as nat) * 0x80,
                pow2(7 * (k - 1) as nat) > 0,
        ;
        lemma_varint_len_bound(v / 0x80, (k - 1) as nat);
    }
}

/// The encoding of a 64-bit value takes at most ten bytes.
pub proof fn lemma_varint_len_u64(v: u64)
    ensures
        1 <= spec_varint(v as int).len() <= 10,
{
    lemma2_to64();
    lemma2_to64_rest();
    lemma_pow2_strictly_increases(64nat, 70nat);
    lemma_varint_len_bound(v as int, 10nat);
}

/// How many bytes the varint encoding of `v` occupies.
pub fn required_encoded_space_unsigned(v: u64) -> (r: usize)
    ensures
        r == spec_varint(v as int).len(),
{
    if v == 0 {
        return 1;
    }
    proof {
        lemma_varint_len_u64(v);
    }
    let mut logcounter: usize = 0;
    let mut n: u64 = v;
    while n > 0
        invariant
            spec_varint(v as int).len() <= 10,
            n > 0 ==> logcounter + spec_varint(n as int).len() == spec_varint(v as int).len(),
            n == 0 ==> logcounter == spec_varint(v as int).len(),
        decreases n,
    {
        logcounter = logcounter + 1;
        n = n / 0x80;
    }
    logcounter
}

/// Encode `v` as a varint.
pub fn encode_varint(v: u64) -> (r: Vec<u8>)
    ensures
        r@ == spec_varint(v as int),
{
    let mut out: Vec<u8> = Vec::new();
    let mut n: u64 = v;
    while n >= 0x80
        invariant
            spec_varint(v as int) == out@ + spec_varint(n as int),
        decreases n,
    {
        let b = (0x80 + (n % 0x80)) as u8;
        out.push(b);
        proof {
            assert(out@ + spec_varint((n / 0x80) as int) =~= spec_varint(v as int));
        }
        n = n / 0x80;
    }
    out.push(n as u8);
    proof {
        assert(out@ =~= spec_varint(v as int));
    }
    out
}

/// Decode the varint starting at `bytes[pos]`, of which `count` bytes were
/// already consumed by earlier calls.
fn varint_dec_at(bytes: &[u8], pos: usize, count: u8) -> (r: Result<(u64, usize), VarintError>)
    requires
        count <= 10,
    ensures
        match (r, spec_varint_dec_at(bytes@, pos as int, count as int)) {
            (Ok((v, end)), Ok((sv, send))) => v as int == sv && end as int == send,
            (Err(e), Err(se)) => e == se,
            _ => false,
        },
    decreases 10 - count,
{
    if count >= 10 {
        return Err(VarintError::TooLong);
    }
    if pos >= bytes.len() {
        return Err(VarintError::Truncated);
    }
    let b = bytes[pos];
    if b < 0x80 {
        if count == 9 && b > 1 {
            Err(VarintError::TooLong)
        } else {
            Ok((b as u64, pos + 1))
        }
    } else {
        match varint_dec_at(bytes, pos + 1, count + 1) {
            Ok((v, end)) => {
                proof {
                    lemma_varint_dec_bounds(bytes@, pos as int + 1, count as int + 1);
                    lemma2_to64();
                    lemma2_to64_rest();
                    let e1 = (7 * (8 - count) + 1) as nat;
                    if 8 - count < 8 {
                        lemma_pow2_strictly_increases(e1, 57nat);
                    }
                    assert(0x80 * (v as int) + 0x80 <= 0x80 * pow2(57)) by (nonlinear_arith)
                        requires
                            (v as int) < pow2(57),
                            pow2(57) > 0,
                    ;
                    lemma_pow2_adds(57nat, 7nat);
                }
                Ok(((b - 0x80) as u64 + 0x80 * v, end))
            },
            Err(e) => Err(e),
        }
    }
}

/// Decode the varint starting at `bytes[pos]`.
pub fn decode_varint(bytes: &[u8], pos: usize) -> (r: Result<(u64, usize), VarintError>)
    ensures
        r matches Ok((v, end)) ==> spec_varint_dec(bytes@, pos as int) == Ok::<
            (int, int),
            VarintError,
        >((v as int, end as int)) && pos < end <= bytes@.len(),
        r matches Err(e) ==> spec_varint_dec(bytes@, pos as int) == Err::<
            (int, int),
            VarintError,
        >(e),
{
    proof {
        lemma_varint_dec_bounds(bytes@, pos as int, 0);
    }
    varint_dec_at(bytes, pos, 0)
}

} // verus!
