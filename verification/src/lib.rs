//! A lightweight client for querying Chainlink-style price-feed accounts.
//!
//! A feed account is a flat byte buffer holding a fixed-size header followed
//! by two ring buffers of fixed-width transmission records: a high-resolution
//! "live" ring and a downsampled "historical" ring.  This crate decodes that
//! layout, answers `fetch`/`latest` queries over the two rings, and appends
//! new rounds with `insert`, all over plain bytes; the host that owns the
//! account hands the buffer in and takes plain values back.

pub mod codec;
pub mod laws;
pub mod store;

use vstd::prelude::*;

use crate::codec::decode_round;
use crate::codec::decode_round_with_decimals;
use crate::codec::encode_round;
use crate::codec::encode_round_with_decimals;
use crate::codec::nul_cut_at;
use crate::codec::spec_nul_cut;
use crate::codec::spec_round_bytes;
use crate::codec::spec_round_with_decimals_bytes;
use crate::codec::spec_u32_at;
use crate::store::Feed;
use crate::store::spec_feed_model;
use crate::store::spec_store_err;
use crate::store::spec_store_ok;
use crate::store::with_store;
use crate::store::OFF_AGGREGATOR_END;
use crate::store::OFF_DECIMALS;
use crate::store::OFF_DESCRIPTION;
use crate::store::OFF_LATEST_ROUND_ID;
use crate::store::OFF_VERSION;
use crate::store::OFF_WRITER;
use crate::store::RING_START;

verus! {

/// Schema version of the feed header this crate understands.
pub const FEED_VERSION: u8 = 2;

/// Why a query or a decode was refused.
///
/// `IllegalOwner`, `VersionMismatch`, `BufferTooSmall` and `Malformed` are
/// fatal: the buffer is not a feed this crate can read.  `NotFound` is the
/// expected answer for a round id outside both retention windows.
/// `InvalidUtf8` reports a description field that does not decode as text.
#[derive(Clone, Copy, Debug, PartialEq, Eq, Structural)]
pub enum FeedError {
    IllegalOwner,
    VersionMismatch,
    BufferTooSmall,
    Malformed,
    NotFound,
    InvalidUtf8,
}

/// The field of a feed account a query asks for.
#[derive(Clone, Copy)]
pub enum Scope {
    Version,
    Decimals,
    Description,
    RoundData { round_id: u32 },
    LatestRoundData,
    Aggregator,
    LatestRoundDataWithDecimals,
    LatestRoundDataWithDecimals2,
}

/// A decoded round as a query answer: the id it was requested under and the
/// stored observation.
#[derive(Clone, Copy, Debug, PartialEq, Eq, Structural)]
pub struct Round {
    pub round_id: u32,
    pub slot: u64,
    pub timestamp: u32,
    pub answer: i128,
}

/// A round together with the feed's decimals byte, so a caller can scale the
/// answer without a second query.
#[derive(Clone, Copy, Debug, PartialEq, Eq, Structural)]
pub struct RoundWithDecimals {
    pub round: Round,
    pub decimals: u8,
}

/// Identity of the store program every feed account must be owned by: the
/// 32 bytes that base58 writes as
/// `HEvSKofvBgfaexv23kMabbYqxasxU3mQ4ibBMEmJWHny`.
pub open spec fn spec_program_id() -> Seq<u8> {
    seq![
        241u8, 75u8, 246u8, 90u8, 213u8, 107u8, 210u8, 186u8, 113u8, 94u8, 69u8, 116u8, 44u8,
        35u8, 31u8, 39u8, 214u8, 54u8, 33u8, 207u8, 91u8, 119u8, 143u8, 55u8, 193u8, 162u8, 72u8,
        149u8, 29u8, 23u8, 86u8, 2u8,
    ]
}

/// The 32-byte identity of the store program, as raw bytes.
pub fn chainlink_store_program() -> (r: Vec<u8>)
    ensures
        r@ == spec_program_id(),
        r@.len() == 32,
{
    let v: Vec<u8> = vec![
        241u8, 75u8, 246u8, 90u8, 213u8, 107u8, 210u8, 186u8, 113u8, 94u8, 69u8, 116u8, 44u8,
        35u8, 31u8, 39u8, 214u8, 54u8, 33u8, 207u8, 91u8, 119u8, 143u8, 55u8, 193u8, 162u8, 72u8,
        149u8, 29u8, 23u8, 86u8, 2u8,
    ];
    proof {
        assert(v@ =~= spec_program_id());
    }
    v
}

/// Whether `owner` is exactly the store program's identity.
pub fn owner_is_store_program(owner: &[u8]) -> (r: bool)
    ensures
        r <==> owner@ == spec_program_id(),
{
    let pid: Vec<u8> = chainlink_store_program();
    if owner.len() != 32 {
        return false;
    }
    let mut i: usize = 0;
    while i < 32
        invariant
            0 <= i <= 32,
            owner@.len() == 32,
            pid@ == spec_program_id(),
            forall|j: int| 0 <= j < i ==> owner@[j] == spec_program_id()[j],
        decreases 32 - i,
    {
        if *vstd::slice::slice_index_get(owner, i) != pid[i] {
            return false;
        }
        i = i + 1;
    }
    proof {
        assert(owner@ =~= spec_program_id());
    }
    true
}

/// What `query` answers, over the raw buffer, the account's owner and the
/// requested scope.  Header-only scopes need the buffer to hold the header;
/// round scopes decode the rings and refuse a buffer whose geometry or
/// cursors are corrupt as `Malformed` rather than reading out of range.
pub open spec fn spec_query(data: Seq<u8>, owner: Seq<u8>, scope: Scope) -> Result<
    Seq<u8>,
    FeedError,
> {
    if owner != spec_program_id() {
        Err(FeedError::IllegalOwner)
    } else {
        match scope {
            Scope::Version => if data.len() < RING_START {
                Err(FeedError::BufferTooSmall)
            } else {
                Ok(seq![data[OFF_VERSION as int]])
            },
            Scope::Decimals => if data.len() < RING_START {
                Err(FeedError::BufferTooSmall)
            } else {
                Ok(seq![data[OFF_DECIMALS as int]])
            },
            Scope::Description => if data.len() < RING_START {
                Err(FeedError::BufferTooSmall)
            } else {
                Ok(spec_nul_cut(data.subrange(OFF_DESCRIPTION as int, OFF_DESCRIPTION + 32)))
            },
            Scope::Aggregator => if data.len() < RING_START {
                Err(FeedError::BufferTooSmall)
            } else {
                Ok(data.subrange(OFF_WRITER as int, OFF_AGGREGATOR_END as int))
            },
            Scope::RoundData { round_id } => match spec_query_round(data, round_id as int) {
                Ok(t) => Ok(
                    spec_round_bytes(
                        Round {
                            round_id,
                            slot: t.slot,
                            timestamp: t.timestamp,
                            answer: t.answer,
                        },
                    ),
                ),
                Err(e) => Err(e),
            },
            Scope::LatestRoundData => match spec_query_latest(data) {
                Ok(r) => Ok(spec_round_bytes(r)),
                Err(e) => Err(e),
            },
            Scope::LatestRoundDataWithDecimals => match spec_query_latest(data) {
                Ok(r) => Ok(
                    spec_round_with_decimals_bytes(
                        RoundWithDecimals { round: r, decimals: data[OFF_DECIMALS as int] },
                    ),
                ),
                Err(e) => Err(e),
            },
            Scope::LatestRoundDataWithDecimals2 => match spec_query_latest(data) {
                Ok(r) => Ok(
                    spec_round_with_decimals_bytes(
                        RoundWithDecimals { round: r, decimals: data[OFF_DECIMALS as int] },
                    ),
                ),
                Err(e) => Err(e),
            },
        }
    }
}

/// The round a well-formed buffer retains under `round_id`, or the error
/// the lookup is refused with.
pub open spec fn spec_query_round(data: Seq<u8>, round_id: int) -> Result<
    crate::store::Transmission,
    FeedError,
> {
    if !spec_store_ok(data) {
        Err(spec_store_err(data))
    } else if !spec_feed_model(data).wf() {
        Err(FeedError::Malformed)
    } else {
        match spec_feed_model(data).fetch(round_id) {
            Some(t) => Ok(t),
            None => Err(FeedError::NotFound),
        }
    }
}

/// The most recent round of a well-formed buffer, under the id the header
/// records, or the error the lookup is refused with.
pub open spec fn spec_query_latest(data: Seq<u8>) -> Result<Round, FeedError> {
    if !spec_store_ok(data) {
        Err(spec_store_err(data))
    } else if !spec_feed_model(data).wf() {
        Err(FeedError::Malformed)
    } else {
        match spec_feed_model(data).latest() {
            Some(t) => Ok(
                Round {
                    round_id: spec_u32_at(data, OFF_LATEST_ROUND_ID as int),
                    slot: t.slot,
                    timestamp: t.timestamp,
                    answer: t.answer,
                },
            ),
            None => Err(FeedError::NotFound),
        }
    }
}

/// Decode the feed buffer and refuse geometry the ring arithmetic cannot
/// run on: a zero granularity, an empty ring, or a cursor outside its ring.
fn checked_store(data: &[u8]) -> (r: Result<Feed, FeedError>)
    ensures
        r matches Ok(f) ==> {
            &&& spec_store_ok(data@)
            &&& spec_feed_model(data@).wf()
            &&& f.wf()
            &&& f@ == spec_feed_model(data@)
            &&& f.header.latest_round_id == spec_u32_at(data@, OFF_LATEST_ROUND_ID as int)
            &&& f.header.decimals == data@[OFF_DECIMALS as int]
        },
        r matches Err(e) ==> {
            &&& e == (if !spec_store_ok(data@) {
                spec_store_err(data@)
            } else {
                FeedError::Malformed
            })
            &&& (spec_store_ok(data@) ==> !spec_feed_model(data@).wf())
        },
{
    let feed = match with_store(data) {
        Ok(f) => f,
        Err(e) => {
            return Err(e);
        },
    };
    if feed.header.granularity == 0 {
        return Err(FeedError::Malformed);
    }
    if feed.live.len() == 0 {
        return Err(FeedError::Malformed);
    }
    if feed.historical.len() == 0 || feed.historical.len() > (u32::MAX as usize) {
        return Err(FeedError::Malformed);
    }
    if (feed.header.live_cursor as usize) >= feed.live.len() {
        return Err(FeedError::Malformed);
    }
    if (feed.header.historical_cursor as usize) >= feed.historical.len() {
        return Err(FeedError::Malformed);
    }
    Ok(feed)
}

/// Answer one query over a feed account: `data` is the account's byte
/// buffer, `owner` the identity of the program that owns the account.
/// Answers carrying a round are encoded as [`spec_round_bytes`] lays out;
/// single-byte answers as one byte; the description as its NUL-cut bytes;
/// the aggregator as its raw 32 bytes.
pub fn query(data: &[u8], owner: &[u8], scope: Scope) -> (r: Result<Vec<u8>, FeedError>)
    ensures
        match r {
            Ok(v) => spec_query(data@, owner@, scope) == Ok::<Seq<u8>, FeedError>(v@),
            Err(e) => spec_query(data@, owner@, scope) == Err::<Seq<u8>, FeedError>(e),
        },
{
    if !owner_is_store_program(owner) {
        return Err(FeedError::IllegalOwner);
    }
    match scope {
        Scope::Version => {
            if data.len() < RING_START {
                return Err(FeedError::BufferTooSmall);
            }
            let mut v: Vec<u8> = Vec::new();
            v.push(*vstd::slice::slice_index_get(data, OFF_VERSION));
            proof {
                assert(v@ =~= seq![data@[OFF_VERSION as int]]);
            }
            Ok(v)
        },
        Scope::Decimals => {
            if data.len() < RING_START {
                return Err(FeedError::BufferTooSmall);
            }
            let mut v: Vec<u8> = Vec::new();
            v.push(*vstd::slice::slice_index_get(data, OFF_DECIMALS));
            proof {
                assert(v@ =~= seq![data@[OFF_DECIMALS as int]]);
            }
            Ok(v)
        },
        Scope::Description => {
            if data.len() < RING_START {
                return Err(FeedError::BufferTooSmall);
            }
            Ok(nul_cut_at(data, OFF_DESCRIPTION, 32))
        },
        Scope::Aggregator => {
            if data.len() < RING_START {
                return Err(FeedError::BufferTooSmall);
            }
            Ok(vstd::slice::slice_to_vec(vstd::slice::slice_subrange(
                data,
                OFF_WRITER,
                OFF_AGGREGATOR_END,
            )))
        },
        Scope::RoundData { round_id } => {
            let feed = match checked_store(data) {
                Ok(f) => f,
                Err(e) => {
                    return Err(e);
                },
            };
            match feed.fetch(round_id) {
                Some(t) => Ok(
                    encode_round(
                        &Round { round_id, slot: t.slot, timestamp: t.timestamp, answer: t.answer },
                    ),
                ),
                None => Err(FeedError::NotFound),
            }
        },
        Scope::LatestRoundData => {
            let feed = match checked_store(data) {
                Ok(f) => f,
                Err(e) => {
                    return Err(e);
                },
            };
            match feed.latest() {
                Some(t) => Ok(
                    encode_round(
                        &Round {
                            round_id: feed.header.latest_round_id,
                            slot: t.slot,
                            timestamp: t.timestamp,
                            answer: t.answer,
                        },
                    ),
                ),
                None => Err(FeedError::NotFound),
            }
        },
        Scope::LatestRoundDataWithDecimals => query_latest_with_decimals(data),
        Scope::LatestRoundDataWithDecimals2 => query_latest_with_decimals(data),
    }
}

/// What the latest-round accessors return: the most recent round under the
/// recorded id, after the owner gate.
pub open spec fn spec_latest_round_answer(data: Seq<u8>, owner: Seq<u8>) -> Result<
    Round,
    FeedError,
> {
    if owner != spec_program_id() {
        Err(FeedError::IllegalOwner)
    } else {
        spec_query_latest(data)
    }
}

/// What the decimals-carrying latest-round accessors return.
pub open spec fn spec_latest_with_decimals_answer(data: Seq<u8>, owner: Seq<u8>) -> Result<
    RoundWithDecimals,
    FeedError,
> {
    if owner != spec_program_id() {
        Err(FeedError::IllegalOwner)
    } else {
        match spec_query_latest(data) {
            Ok(round) => Ok(
                RoundWithDecimals { round, decimals: data[OFF_DECIMALS as int] },
            ),
            Err(e) => Err(e),
        }
    }
}

/// Query the feed version.
pub fn version(data: &[u8], owner: &[u8]) -> (r: Result<u8, FeedError>)
    ensures
        r == (if owner@ != spec_program_id() {
            Err::<u8, FeedError>(FeedError::IllegalOwner)
        } else if data@.len() < RING_START {
            Err::<u8, FeedError>(FeedError::BufferTooSmall)
        } else {
            Ok::<u8, FeedError>(data@[OFF_VERSION as int])
        }),
{
    match query(data, owner, Scope::Version) {
        Ok(v) => Ok(v[0]),
        Err(e) => Err(e),
    }
}

/// Returns the amount of decimal places.
pub fn decimals(data: &[u8], owner: &[u8]) -> (r: Result<u8, FeedError>)
    ensures
        r == (if owner@ != spec_program_id() {
            Err::<u8, FeedError>(FeedError::IllegalOwner)
        } else if data@.len() < RING_START {
            Err::<u8, FeedError>(FeedError::BufferTooSmall)
        } else {
            Ok::<u8, FeedError>(data@[OFF_DECIMALS as int])
        }),
{
    match query(data, owner, Scope::Decimals) {
        Ok(v) => Ok(v[0]),
        Err(e) => Err(e),
    }
}

/// Relies on `String::from_utf8`: it succeeds exactly on the byte strings
/// `vstd::utf8::valid_utf8` admits, decoding them to the characters
/// `vstd::utf8::decode_utf8` gives.
#[verifier::external_body]
fn string_from_utf8(bytes: Vec<u8>) -> (r: Option<String>)
    ensures
        r matches Some(s) ==> vstd::utf8::valid_utf8(bytes@) && s@ == vstd::utf8::decode_utf8(
            bytes@,
        ),
        r is None ==> !vstd::utf8::valid_utf8(bytes@),
{
    String::from_utf8(bytes).ok()
}

/// Returns the feed description: the NUL-cut description field as text.
pub fn description(data: &[u8], owner: &[u8]) -> (r: Result<String, FeedError>)
    ensures
        ({
            let d = spec_nul_cut(data@.subrange(OFF_DESCRIPTION as int, OFF_DESCRIPTION + 32));
            match r {
                Ok(s) => {
                    &&& owner@ == spec_program_id()
                    &&& data@.len() >= RING_START
                    &&& vstd::utf8::valid_utf8(d)
                    &&& s@ == vstd::utf8::decode_utf8(d)
                },
                Err(e) => e == (if owner@ != spec_program_id() {
                    FeedError::IllegalOwner
                } else if data@.len() < RING_START {
                    FeedError::BufferTooSmall
                } else {
                    FeedError::InvalidUtf8
                }) && (owner@ != spec_program_id() || data@.len() < RING_START
                    || !vstd::utf8::valid_utf8(d)),
            }
        }),
{
    match query(data, owner, Scope::Description) {
        Ok(bytes) => match string_from_utf8(bytes) {
            Some(s) => Ok(s),
            None => Err(FeedError::InvalidUtf8),
        },
        Err(e) => Err(e),
    }
}

/// Returns the identity of the underlying aggregator, as its raw 32 bytes.
pub fn aggregator(data: &[u8], owner: &[u8]) -> (r: Result<Vec<u8>, FeedError>)
    ensures
        match r {
            Ok(v) => {
                &&& owner@ == spec_program_id()
                &&& data@.len() >= RING_START
                &&& v@ == data@.subrange(OFF_WRITER as int, OFF_AGGREGATOR_END as int)
            },
            Err(e) => e == (if owner@ != spec_program_id() {
                FeedError::IllegalOwner
            } else {
                FeedError::BufferTooSmall
            }) && (owner@ != spec_program_id() || data@.len() < RING_START),
        },
{
    query(data, owner, Scope::Aggregator)
}

/// Returns round data for the latest round.
pub fn latest_round_data(data: &[u8], owner: &[u8]) -> (r: Result<Round, FeedError>)
    ensures
        r == spec_latest_round_answer(data@, owner@),
{
    match query(data, owner, Scope::LatestRoundData) {
        Ok(v) => {
            proof {
                crate::codec::lemma_round_bytes_round_trip(
                    spec_latest_round_answer(data@, owner@)->Ok_0,
                );
            }
            Ok(decode_round(v.as_slice()))
        },
        Err(e) => Err(e),
    }
}

/// Returns round data for the latest round, including the decimal count.
pub fn latest_round_data_with_decimals(data: &[u8], owner: &[u8]) -> (r: Result<
    RoundWithDecimals,
    FeedError,
>)
    ensures
        r == spec_latest_with_decimals_answer(data@, owner@),
{
    match query(data, owner, Scope::LatestRoundDataWithDecimals) {
        Ok(v) => {
            proof {
                crate::codec::lemma_round_with_decimals_round_trip(
                    spec_latest_with_decimals_answer(data@, owner@)->Ok_0,
                );
            }
            Ok(decode_round_with_decimals(v.as_slice()))
        },
        Err(e) => Err(e),
    }
}

/// Same answer as [`latest_round_data_with_decimals`], through the query
/// scope that reads the live ring in one pass.
pub fn latest_round_data_with_decimals2(data: &[u8], owner: &[u8]) -> (r: Result<
    RoundWithDecimals,
    FeedError,
>)
    ensures
        r == spec_latest_with_decimals_answer(data@, owner@),
{
    match query(data, owner, Scope::LatestRoundDataWithDecimals2) {
        Ok(v) => {
            proof {
                crate::codec::lemma_round_with_decimals_round_trip(
                    spec_latest_with_decimals_answer(data@, owner@)->Ok_0,
                );
            }
            Ok(decode_round_with_decimals(v.as_slice()))
        },
        Err(e) => Err(e),
    }
}

/// Shared body of the two "latest round with decimals" scopes; the second
/// scope exists for API parity and answers identically.
fn query_latest_with_decimals(data: &[u8]) -> (r: Result<Vec<u8>, FeedError>)
    ensures
        match r {
            Ok(v) => (match spec_query_latest(data@) {
                Ok(round) => Ok::<Seq<u8>, FeedError>(
                    spec_round_with_decimals_bytes(
                        RoundWithDecimals { round, decimals: data@[OFF_DECIMALS as int] },
                    ),
                ),
                Err(e) => Err::<Seq<u8>, FeedError>(e),
            }) == Ok::<Seq<u8>, FeedError>(v@),
            Err(e) => spec_query_latest(data@) is Err && spec_query_latest(data@)->Err_0 == e,
        },
{
    let feed = match checked_store(data) {
        Ok(f) => f,
        Err(e) => {
            return Err(e);
        },
    };
    match feed.latest() {
        Some(t) => Ok(
            encode_round_with_decimals(
                &RoundWithDecimals {
                    round: Round {
                        round_id: feed.header.latest_round_id,
                        slot: t.slot,
                        timestamp: t.timestamp,
                        answer: t.answer,
                    },
                    decimals: feed.header.decimals,
                },
            ),
        ),
        None => Err(FeedError::NotFound),
    }
}

} // verus!
