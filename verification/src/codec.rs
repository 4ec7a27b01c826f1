//! Byte-level codec: little-endian field reads at fixed offsets, the wire
//! encoding of query answers, and the NUL-cut of the description field.

use vstd::prelude::*;
use vstd::bytes::*;
use vstd::slice::slice_subrange;

use crate::Round;
use crate::RoundWithDecimals;

verus! {

/// Little-endian `u32` held at `off` in `bytes`.
pub open spec fn spec_u32_at(bytes: Seq<u8>, off: int) -> u32 {
    spec_u32_from_le_bytes(bytes.subrange(off, off + 4))
}

/// Little-endian `u64` held at `off` in `bytes`.
pub open spec fn spec_u64_at(bytes: Seq<u8>, off: int) -> u64 {
    spec_u64_from_le_bytes(bytes.subrange(off, off + 8))
}

/// Little-endian two's-complement `i128` held at `off` in `bytes`.
pub open spec fn spec_i128_at(bytes: Seq<u8>, off: int) -> i128 {
    spec_u128_from_le_bytes(bytes.subrange(off, off + 16)) as i128
}

pub fn read_u32_at(data: &[u8], off: usize) -> (r: u32)
    requires
        off + 4 <= data@.len(),
    ensures
        r == spec_u32_at(data@, off as int),
{
    // Reading the length teaches the verifier that it fits in usize, so the
    // offset arithmetic below cannot overflow.
    let _len: usize = data.len();
    u32_from_le_bytes(slice_subrange(data, off, off + 4))
}

pub fn read_u64_at(data: &[u8], off: usize) -> (r: u64)
    requires
        off + 8 <= data@.len(),
    ensures
        r == spec_u64_at(data@, off as int),
{
    let _len: usize = data.len();
    u64_from_le_bytes(slice_subrange(data, off, off + 8))
}

pub fn read_i128_at(data: &[u8], off: usize) -> (r: i128)
    requires
        off + 16 <= data@.len(),
    ensures
        r == spec_i128_at(data@, off as int),
{
    let _len: usize = data.len();
    let raw: u128 = u128_from_le_bytes(slice_subrange(data, off, off + 16));
    #[verifier::truncate] (raw as i128)
}

/// Length of the logical description: the index of the first zero byte, or
/// the whole field if none.
pub open spec fn spec_nul_cut_len(s: Seq<u8>) -> int
    decreases s.len(),
{
    if s.len() == 0 {
        0
    } else if s[0] == 0 {
        0
    } else {
        1 + spec_nul_cut_len(s.drop_first())
    }
}

pub proof fn lemma_nul_cut_len(s: Seq<u8>)
    ensures
        0 <= spec_nul_cut_len(s) <= s.len(),
        forall|i: int| 0 <= i < spec_nul_cut_len(s) ==> s[i] != 0,
        spec_nul_cut_len(s) < s.len() ==> s[spec_nul_cut_len(s)] == 0,
    decreases s.len(),
{
    if s.len() > 0 && s[0] != 0 {
        lemma_nul_cut_len(s.drop_first());
        let k = spec_nul_cut_len(s);
        assert(k == 1 + spec_nul_cut_len(s.drop_first()));
        assert forall|i: int| 0 <= i < k implies s[i] != 0 by {
            if i > 0 {
                assert(s.drop_first()[i - 1] == s[i]);
            }
        }
        if k < s.len() {
            assert(s.drop_first()[k - 1] == s[k]);
        }
    }
}

/// The logical description: the bytes before the first zero byte.
pub open spec fn spec_nul_cut(s: Seq<u8>) -> Seq<u8> {
    s.take(spec_nul_cut_len(s))
}

/// Copy of `data[start..start + count]` cut at its first zero byte.
pub fn nul_cut_at(data: &[u8], start: usize, count: usize) -> (r: Vec<u8>)
    requires
        start + count <= data@.len(),
    ensures
        r@ == spec_nul_cut(data@.subrange(start as int, start + count)),
{
    let _len: usize = data.len();
    let field: &[u8] = slice_subrange(data, start, start + count);
    let ghost f = data@.subrange(start as int, start + count);
    let mut end: usize = 0;
    let mut out: Vec<u8> = Vec::new();
    while end < count && *vstd::slice::slice_index_get(field, end) != 0
        invariant
            0 <= end <= count,
            f == field@,
            f.len() == count,
            out@ == f.take(end as int),
            forall|i: int| 0 <= i < end ==> f[i] != 0,
        decreases count - end,
    {
        out.push(*vstd::slice::slice_index_get(field, end));
        proof {
            assert(out@ =~= f.take(end + 1));
        }
        end = end + 1;
    }
    proof {
        lemma_nul_cut_len(f);
        let k = spec_nul_cut_len(f);
        if k < end {
            assert(f[k] != 0);
            assert(false);
        }
        if k > end {
            assert(end < count);
            assert(f[end as int] == 0);
            assert(f[end as int] != 0);
        }
    }
    out
}

/// Wire encoding of a query answer that carries one round: each field in
/// declaration order, little-endian, with no padding.
pub open spec fn spec_round_bytes(r: Round) -> Seq<u8> {
    spec_u32_to_le_bytes(r.round_id) + spec_u64_to_le_bytes(r.slot) + spec_u32_to_le_bytes(
        r.timestamp,
    ) + spec_u128_to_le_bytes(r.answer as u128)
}

/// Wire encoding of a round together with the feed's decimals byte.
pub open spec fn spec_round_with_decimals_bytes(r: RoundWithDecimals) -> Seq<u8> {
    spec_round_bytes(r.round) + seq![r.decimals]
}

pub fn encode_round(r: &Round) -> (out: Vec<u8>)
    ensures
        out@ == spec_round_bytes(*r),
        out@.len() == 32,
{
    proof {
        lemma_auto_spec_u32_to_from_le_bytes();
        lemma_auto_spec_u64_to_from_le_bytes();
        lemma_auto_spec_u128_to_from_le_bytes();
    }
    let mut out: Vec<u8> = u32_to_le_bytes(r.round_id);
    let mut slot: Vec<u8> = u64_to_le_bytes(r.slot);
    let mut ts: Vec<u8> = u32_to_le_bytes(r.timestamp);
    let mut ans: Vec<u8> = u128_to_le_bytes(#[verifier::truncate] (r.answer as u128));
    out.append(&mut slot);
    out.append(&mut ts);
    out.append(&mut ans);
    out
}

pub fn encode_round_with_decimals(r: &RoundWithDecimals) -> (out: Vec<u8>)
    ensures
        out@ == spec_round_with_decimals_bytes(*r),
        out@.len() == 33,
{
    let mut out: Vec<u8> = encode_round(&r.round);
    out.push(r.decimals);
    proof {
        assert(out@ =~= spec_round_with_decimals_bytes(*r));
    }
    out
}

/// The round a 32-byte query answer holds.
pub open spec fn spec_decode_round(s: Seq<u8>) -> Round {
    Round {
        round_id: spec_u32_at(s, 0),
        slot: spec_u64_at(s, 4),
        timestamp: spec_u32_at(s, 12),
        answer: spec_i128_at(s, 16),
    }
}

pub fn decode_round(data: &[u8]) -> (r: Round)
    requires
        data@.len() == 32,
    ensures
        r == spec_decode_round(data@),
{
    Round {
        round_id: read_u32_at(data, 0),
        slot: read_u64_at(data, 4),
        timestamp: read_u32_at(data, 12),
        answer: read_i128_at(data, 16),
    }
}

/// The round-and-decimals pair a 33-byte query answer holds.
pub open spec fn spec_decode_round_with_decimals(s: Seq<u8>) -> RoundWithDecimals {
    RoundWithDecimals { round: spec_decode_round(s.subrange(0, 32)), decimals: s[32] }
}

pub fn decode_round_with_decimals(data: &[u8]) -> (r: RoundWithDecimals)
    requires
        data@.len() == 33,
    ensures
        r == spec_decode_round_with_decimals(data@),
{
    RoundWithDecimals {
        round: decode_round(slice_subrange(data, 0, 32)),
        decimals: *vstd::slice::slice_index_get(data, 32),
    }
}

/// Decoding a round from its own encoding gives the round back.
pub proof fn lemma_round_bytes_round_trip(r: Round)
    ensures
        spec_round_bytes(r).len() == 32,
        spec_decode_round(spec_round_bytes(r)) == r,
{
    lemma_auto_spec_u32_to_from_le_bytes();
    lemma_auto_spec_u64_to_from_le_bytes();
    lemma_auto_spec_u128_to_from_le_bytes();
    let s = spec_round_bytes(r);
    assert(s.subrange(0, 4) =~= spec_u32_to_le_bytes(r.round_id));
    assert(s.subrange(4, 12) =~= spec_u64_to_le_bytes(r.slot));
    assert(s.subrange(12, 16) =~= spec_u32_to_le_bytes(r.timestamp));
    assert(s.subrange(16, 32) =~= spec_u128_to_le_bytes(r.answer as u128));
    let a = r.answer;
    assert((a as u128) as i128 == a) by (bit_vector);
}

/// Decoding a round-and-decimals answer from its own encoding gives the
/// pair back.
pub proof fn lemma_round_with_decimals_round_trip(r: RoundWithDecimals)
    ensures
        spec_round_with_decimals_bytes(r).len() == 33,
        spec_decode_round_with_decimals(spec_round_with_decimals_bytes(r)) == r,
{
    lemma_round_bytes_round_trip(r.round);
    let s = spec_round_with_decimals_bytes(r);
    assert(s.subrange(0, 32) =~= spec_round_bytes(r.round));
    assert(s[32] == r.decimals);
}

} // verus!
