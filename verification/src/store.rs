//! The ring-buffer store: header and record types, the byte-layout decoder,
//! and the `insert` / `fetch` / `latest` operations over the two rings.
//!
//! A feed buffer is an 8-byte discriminator, a fixed header region of
//! [`HEADER_SIZE`] bytes, then `live_length` packed transmission records (the
//! live ring) and finally the remaining bytes as packed records (the
//! historical ring).  Round ids are 1-based and implicit: the id of a round
//! is the value `latest_round_id` had right after it was inserted; id 0 is
//! the sentinel for "no rounds yet".

use vstd::prelude::*;
use vstd::slice::slice_index_get;
use vstd::slice::slice_to_vec;
use vstd::slice::slice_subrange;

use crate::FeedError;
use crate::FEED_VERSION;
use crate::codec::spec_u32_at;
use crate::codec::spec_u64_at;
use crate::codec::spec_i128_at;
use crate::codec::read_u32_at;
use crate::codec::read_u64_at;
use crate::codec::read_i128_at;

verus! {

/// Size in bytes of the fixed header region that follows the 8-byte
/// discriminator.
pub const HEADER_SIZE: usize = 192;

/// Size in bytes of one packed transmission record.
pub const TRANSMISSION_SIZE: usize = 48;

/// Byte offset where the live ring starts: discriminator plus header.
pub const RING_START: usize = 200;

/// Offsets of the header fields, from the start of the buffer.
pub const OFF_VERSION: usize = 8;

pub const OFF_STATE: usize = 9;

pub const OFF_OWNER: usize = 10;

pub const OFF_PROPOSED_OWNER: usize = 42;

pub const OFF_WRITER: usize = 74;

pub const OFF_DESCRIPTION: usize = 106;

pub const OFF_DECIMALS: usize = 138;

pub const OFF_FLAGGING_THRESHOLD: usize = 139;

pub const OFF_LATEST_ROUND_ID: usize = 143;

pub const OFF_GRANULARITY: usize = 147;

pub const OFF_LIVE_LENGTH: usize = 148;

pub const OFF_LIVE_CURSOR: usize = 152;

pub const OFF_HISTORICAL_CURSOR: usize = 156;

/// One past the last byte of the aggregator identity (the `writer` field).
pub const OFF_AGGREGATOR_END: usize = 106;

/// One timestamped observation stored in a ring slot.
///
/// On the wire a record is 48 bytes: `slot` (8, little-endian), `timestamp`
/// (4, little-endian), 4 bytes of padding, `answer` (16, little-endian,
/// two's complement), then 16 bytes of padding.
#[derive(Clone, Copy, Debug, PartialEq, Eq, Structural)]
pub struct Transmission {
    pub slot: u64,
    pub timestamp: u32,
    pub answer: i128,
}

impl Default for Transmission {
    /// The all-zero record, as an untouched ring slot decodes.
    fn default() -> (r: Self)
        ensures
            r == (Transmission { slot: 0, timestamp: 0, answer: 0 }),
    {
        Transmission { slot: 0, timestamp: 0, answer: 0 }
    }
}

/// A round as handed in by a writer that keys time by a 64-bit timestamp.
#[derive(Clone, Copy, Debug, PartialEq, Eq, Structural)]
pub struct NewTransmission {
    pub timestamp: u64,
    pub answer: i128,
}

/// The account-level prefix of a store account: opaque identity values only.
#[derive(Clone, Debug)]
pub struct Store {
    pub discriminator: Vec<u8>,
    pub owner: Vec<u8>,
    pub proposed_owner: Vec<u8>,
    pub lowering_access_controller: Vec<u8>,
}

/// The decoded feed header.  Identity values are kept as raw 32-byte
/// strings; `description` is the raw NUL-padded 32-byte field.
#[derive(Clone, Debug)]
pub struct Transmissions {
    pub version: u8,
    pub state: u8,
    pub owner: Vec<u8>,
    pub proposed_owner: Vec<u8>,
    pub writer: Vec<u8>,
    pub description: Vec<u8>,
    pub decimals: u8,
    pub flagging_threshold: u32,
    pub latest_round_id: u32,
    pub granularity: u8,
    pub live_length: u32,
    pub live_cursor: u32,
    pub historical_cursor: u32,
}

impl Transmissions {
    /// `state` value of a feed in normal operation.
    pub const NORMAL: u8 = 0;

    /// `state` value of a flagged feed.
    pub const FLAGGED: u8 = 1;
}

/// The decoded store: the header plus the two rings as typed records.
#[derive(Debug)]
pub struct Feed {
    pub header: Transmissions,
    pub live: Vec<Transmission>,
    pub historical: Vec<Transmission>,
}

/// Mathematical state of a feed: the counters and the two rings, free of
/// any byte layout.
#[verifier::ext_equal]
pub struct FeedModel {
    pub latest_round_id: nat,
    pub granularity: nat,
    pub live_cursor: nat,
    pub historical_cursor: nat,
    pub live: Seq<Transmission>,
    pub historical: Seq<Transmission>,
}

impl View for Feed {
    type V = FeedModel;

    open spec fn view(&self) -> FeedModel {
        FeedModel {
            latest_round_id: self.header.latest_round_id as nat,
            granularity: self.header.granularity as nat,
            live_cursor: self.header.live_cursor as nat,
            historical_cursor: self.header.historical_cursor as nat,
            live: self.live@,
            historical: self.historical@,
        }
    }
}

impl FeedModel {
    /// Geometry a feed must have for the ring arithmetic to be defined:
    /// rings are non-empty, the sampling interval is at least 1, and the
    /// cursors point inside their rings.
    pub open spec fn wf(self) -> bool {
        &&& 1 <= self.granularity <= 255
        &&& 1 <= self.live.len() <= u32::MAX
        &&& 1 <= self.historical.len() <= u32::MAX
        &&& self.live_cursor < self.live.len()
        &&& self.historical_cursor < self.historical.len()
        &&& self.latest_round_id <= u32::MAX
    }

    /// Smallest round id the live ring still retains (never below 1).
    pub open spec fn live_lo(self) -> int {
        if self.latest_round_id >= self.live.len() {
            self.latest_round_id - self.live.len() + 1
        } else {
            1
        }
    }

    /// Most recent granularity-aligned round id: the newest id the
    /// historical ring can answer for.
    pub open spec fn historical_end(self) -> int {
        self.latest_round_id - self.latest_round_id % self.granularity
    }

    /// Smallest round id inside the historical window (clamped at 0).
    pub open spec fn historical_lo(self) -> int {
        let lo = self.historical_end() - self.granularity * (self.historical.len() - 1);
        if lo >= 0 {
            lo
        } else {
            0
        }
    }

    /// Live-ring slot of round `rid`: the cursor walked back by
    /// `latest_round_id - rid + 1` positions, one extra because the cursor
    /// points one past the most recent entry.
    pub open spec fn live_slot(self, rid: int) -> int {
        (self.live_cursor - (self.latest_round_id - rid + 1)) % (self.live.len() as int)
    }

    /// Historical-ring slot holding the round with aligned id `rounded`.
    pub open spec fn historical_slot(self, rounded: int) -> int {
        (self.historical_cursor - ((self.historical_end() - rounded) / (self.granularity as int)
            + 1)) % (self.historical.len() as int)
    }

    /// What `fetch` returns: an exact hit from the live window, a
    /// rounded-down hit from the historical window, or nothing.
    pub open spec fn fetch(self, rid: int) -> Option<Transmission> {
        if rid <= 0 || rid > self.latest_round_id {
            None
        } else if self.live_lo() <= rid {
            Some(self.live[self.live_slot(rid)])
        } else if self.historical_lo() <= rid <= self.historical_end() {
            let rounded = rid - rid % (self.granularity as int);
            Some(self.historical[self.historical_slot(rounded)])
        } else {
            None
        }
    }

    /// What `latest` returns: the slot just before the live cursor, or
    /// nothing while no round was ever inserted.
    pub open spec fn latest(self) -> Option<Transmission> {
        if self.latest_round_id == 0 {
            None
        } else {
            Some(self.live[(self.live_cursor - 1) % (self.live.len() as int)])
        }
    }

    /// What `insert` does: the new round gets id `latest_round_id + 1`, is
    /// written at the live cursor, and, when its id is a multiple of the
    /// granularity, at the historical cursor as well; each written cursor
    /// advances by one with wraparound.
    pub open spec fn insert(self, round: Transmission) -> FeedModel {
        let new_id = (self.latest_round_id + 1) as nat;
        let bumped = FeedModel {
            latest_round_id: new_id,
            live: self.live.update(self.live_cursor as int, round),
            live_cursor: (self.live_cursor + 1) as nat % self.live.len(),
            ..self
        };
        if new_id % self.granularity == 0 {
            FeedModel {
                historical: self.historical.update(self.historical_cursor as int, round),
                historical_cursor: (self.historical_cursor + 1) as nat % self.historical.len(),
                ..bumped
            }
        } else {
            bumped
        }
    }
}

/// Header fields that no store operation changes.
pub open spec fn spec_header_meta(h: Transmissions) -> (u8, u8, Seq<u8>, Seq<u8>, Seq<u8>, Seq<
    u8,
>, u8, u32, u8, u32) {
    (
        h.version,
        h.state,
        h.owner@,
        h.proposed_owner@,
        h.writer@,
        h.description@,
        h.decimals,
        h.flagging_threshold,
        h.granularity,
        h.live_length,
    )
}

impl Feed {
    /// A decoded feed whose geometry supports the ring arithmetic; the
    /// recorded `live_length` must agree with the live ring actually held.
    pub open spec fn wf(self) -> bool {
        &&& self@.wf()
        &&& self.header.live_length == self.live@.len()
    }
}

/// Wrapped ring index `steps_back` positions before `cursor`.
///
/// The cursor of a ring always points at the next slot to be overwritten,
/// one past the most recent entry, so reading the latest entry steps back
/// by one.
pub fn slot_back(cursor: u32, capacity: u32, steps_back: u32) -> (r: u32)
    requires
        cursor < capacity,
        1 <= steps_back <= capacity,
    ensures
        r == (cursor - steps_back) % (capacity as int),
        r < capacity,
{
    if steps_back <= cursor {
        proof {
            vstd::arithmetic::div_mod::lemma_small_mod((cursor - steps_back) as nat, capacity as nat);
        }
        cursor - steps_back
    } else {
        proof {
            vstd::arithmetic::div_mod::lemma_mod_add_multiples_vanish(
                cursor - steps_back,
                capacity as int,
            );
            vstd::arithmetic::div_mod::lemma_small_mod(
                (cursor - steps_back + capacity) as nat,
                capacity as nat,
            );
        }
        capacity - (steps_back - cursor)
    }
}

/// The record packed at byte offset `off`.
pub open spec fn spec_transmission_at(bytes: Seq<u8>, off: int) -> Transmission {
    Transmission {
        slot: spec_u64_at(bytes, off),
        timestamp: spec_u32_at(bytes, off + 8),
        answer: spec_i128_at(bytes, off + 16),
    }
}

/// `live_length` as the buffer declares it.
pub open spec fn spec_live_length(bytes: Seq<u8>) -> u32 {
    spec_u32_at(bytes, OFF_LIVE_LENGTH as int)
}

/// Whether the buffer carries the expected version and is large enough for
/// its declared live ring, with the remainder dividing into whole records.
pub open spec fn spec_store_ok(bytes: Seq<u8>) -> bool {
    &&& bytes.len() >= RING_START
    &&& bytes[OFF_VERSION as int] == FEED_VERSION
    &&& bytes.len() >= RING_START + spec_live_length(bytes) * TRANSMISSION_SIZE
    &&& (bytes.len() - RING_START - spec_live_length(bytes) * TRANSMISSION_SIZE) % (
    TRANSMISSION_SIZE as int) == 0
}

/// The error a malformed buffer is refused with, checked in this order:
/// too short for the header, wrong version, too short for the live ring,
/// trailing bytes that are no whole number of records.
pub open spec fn spec_store_err(bytes: Seq<u8>) -> FeedError {
    if bytes.len() < RING_START {
        FeedError::BufferTooSmall
    } else if bytes[OFF_VERSION as int] != FEED_VERSION {
        FeedError::VersionMismatch
    } else if bytes.len() < RING_START + spec_live_length(bytes) * TRANSMISSION_SIZE {
        FeedError::BufferTooSmall
    } else {
        FeedError::Malformed
    }
}

/// Capacity of the historical ring: whatever whole records remain after the
/// header and the live ring.
pub open spec fn spec_historical_len(bytes: Seq<u8>) -> int {
    (bytes.len() - RING_START - spec_live_length(bytes) * TRANSMISSION_SIZE) / (
    TRANSMISSION_SIZE as int)
}

/// Byte offset of the historical ring.
pub open spec fn spec_historical_start(bytes: Seq<u8>) -> int {
    RING_START + spec_live_length(bytes) * TRANSMISSION_SIZE
}

/// The mathematical state a buffer decodes to: the counters and the two
/// rings of [`spec_transmission_at`] records.
pub open spec fn spec_feed_model(bytes: Seq<u8>) -> FeedModel {
    FeedModel {
        latest_round_id: spec_u32_at(bytes, OFF_LATEST_ROUND_ID as int) as nat,
        granularity: bytes[OFF_GRANULARITY as int] as nat,
        live_cursor: spec_u32_at(bytes, OFF_LIVE_CURSOR as int) as nat,
        historical_cursor: spec_u32_at(bytes, OFF_HISTORICAL_CURSOR as int) as nat,
        live: Seq::new(
            spec_live_length(bytes) as nat,
            |i: int| spec_transmission_at(bytes, RING_START + i * TRANSMISSION_SIZE),
        ),
        historical: Seq::new(
            (if spec_historical_len(bytes) >= 0 {
                spec_historical_len(bytes)
            } else {
                0
            }) as nat,
            |i: int|
                spec_transmission_at(bytes, spec_historical_start(bytes) + i * TRANSMISSION_SIZE),
        ),
    }
}

/// Decode `count` packed records starting at byte `start`.
fn decode_ring(data: &[u8], start: usize, count: usize) -> (out: Vec<Transmission>)
    requires
        start + count * TRANSMISSION_SIZE <= data@.len(),
    ensures
        out@.len() == count,
        forall|i: int|
            0 <= i < count ==> out@[i] == spec_transmission_at(
                data@,
                start + i * TRANSMISSION_SIZE,
            ),
{
    let n_total: usize = data.len();
    let mut out: Vec<Transmission> = Vec::new();
    let mut i: usize = 0;
    while i < count
        invariant
            0 <= i <= count,
            start + count * TRANSMISSION_SIZE <= n_total,
            n_total == data@.len(),
            out@.len() == i,
            forall|j: int|
                0 <= j < i ==> out@[j] == spec_transmission_at(
                    data@,
                    start + j * TRANSMISSION_SIZE,
                ),
        decreases count - i,
    {
        proof {
            assert(TRANSMISSION_SIZE == 48);
            vstd::arithmetic::mul::lemma_mul_inequality(
                i as int,
                count as int,
                TRANSMISSION_SIZE as int,
            );
            vstd::arithmetic::mul::lemma_mul_inequality(
                i + 1,
                count as int,
                TRANSMISSION_SIZE as int,
            );
            vstd::arithmetic::mul::lemma_mul_is_distributive_add_other_way(
                TRANSMISSION_SIZE as int,
                i as int,
                1,
            );
        }
        let off: usize = start + i * TRANSMISSION_SIZE;
        let rec = Transmission {
            slot: read_u64_at(data, off),
            timestamp: read_u32_at(data, off + 8),
            answer: read_i128_at(data, off + 16),
        };
        out.push(rec);
        i = i + 1;
    }
    out
}

/// Decode the fixed header region.  Fails only on the checks the decoder
/// makes before the rings are sliced; ring geometry is checked by
/// [`with_store`].
fn decode_header(data: &[u8]) -> (h: Transmissions)
    requires
        data@.len() >= RING_START,
    ensures
        h.version == data@[OFF_VERSION as int],
        h.state == data@[OFF_STATE as int],
        h.owner@ == data@.subrange(OFF_OWNER as int, OFF_OWNER + 32),
        h.proposed_owner@ == data@.subrange(OFF_PROPOSED_OWNER as int, OFF_PROPOSED_OWNER + 32),
        h.writer@ == data@.subrange(OFF_WRITER as int, OFF_WRITER + 32),
        h.description@ == data@.subrange(OFF_DESCRIPTION as int, OFF_DESCRIPTION + 32),
        h.decimals == data@[OFF_DECIMALS as int],
        h.flagging_threshold == spec_u32_at(data@, OFF_FLAGGING_THRESHOLD as int),
        h.latest_round_id == spec_u32_at(data@, OFF_LATEST_ROUND_ID as int),
        h.granularity == data@[OFF_GRANULARITY as int],
        h.live_length == spec_live_length(data@),
        h.live_cursor == spec_u32_at(data@, OFF_LIVE_CURSOR as int),
        h.historical_cursor == spec_u32_at(data@, OFF_HISTORICAL_CURSOR as int),
{
    let n: usize = data.len();
    Transmissions {
        version: *slice_index_get(data, OFF_VERSION),
        state: *slice_index_get(data, OFF_STATE),
        owner: slice_to_vec(slice_subrange(data, OFF_OWNER, OFF_OWNER + 32)),
        proposed_owner: slice_to_vec(
            slice_subrange(data, OFF_PROPOSED_OWNER, OFF_PROPOSED_OWNER + 32),
        ),
        writer: slice_to_vec(slice_subrange(data, OFF_WRITER, OFF_WRITER + 32)),
        description: slice_to_vec(slice_subrange(data, OFF_DESCRIPTION, OFF_DESCRIPTION + 32)),
        decimals: *slice_index_get(data, OFF_DECIMALS),
        flagging_threshold: read_u32_at(data, OFF_FLAGGING_THRESHOLD),
        latest_round_id: read_u32_at(data, OFF_LATEST_ROUND_ID),
        granularity: *slice_index_get(data, OFF_GRANULARITY),
        live_length: read_u32_at(data, OFF_LIVE_LENGTH),
        live_cursor: read_u32_at(data, OFF_LIVE_CURSOR),
        historical_cursor: read_u32_at(data, OFF_HISTORICAL_CURSOR),
    }
}

/// Decode a feed buffer into a typed store.
///
/// Succeeds exactly when the buffer holds the header, carries the expected
/// schema version, is long enough for its declared live ring, and its
/// remaining bytes divide into whole records; the historical ring takes
/// whatever capacity that remainder gives.
pub fn with_store(data: &[u8]) -> (r: Result<Feed, FeedError>)
    ensures
        r is Ok <==> spec_store_ok(data@),
        r matches Err(e) ==> e == spec_store_err(data@),
        r matches Ok(f) ==> {
            &&& f.header.version == data@[OFF_VERSION as int]
            &&& f.header.state == data@[OFF_STATE as int]
            &&& f.header.owner@ == data@.subrange(OFF_OWNER as int, OFF_OWNER + 32)
            &&& f.header.proposed_owner@ == data@.subrange(
                OFF_PROPOSED_OWNER as int,
                OFF_PROPOSED_OWNER + 32,
            )
            &&& f.header.writer@ == data@.subrange(OFF_WRITER as int, OFF_WRITER + 32)
            &&& f.header.description@ == data@.subrange(
                OFF_DESCRIPTION as int,
                OFF_DESCRIPTION + 32,
            )
            &&& f.header.decimals == data@[OFF_DECIMALS as int]
            &&& f.header.flagging_threshold == spec_u32_at(data@, OFF_FLAGGING_THRESHOLD as int)
            &&& f.header.latest_round_id == spec_u32_at(data@, OFF_LATEST_ROUND_ID as int)
            &&& f.header.granularity == data@[OFF_GRANULARITY as int]
            &&& f.header.live_length == spec_live_length(data@)
            &&& f.header.live_cursor == spec_u32_at(data@, OFF_LIVE_CURSOR as int)
            &&& f.header.historical_cursor == spec_u32_at(data@, OFF_HISTORICAL_CURSOR as int)
            &&& f.live@.len() == spec_live_length(data@)
            &&& (forall|i: int|
                0 <= i < f.live@.len() ==> f.live@[i] == spec_transmission_at(
                    data@,
                    RING_START + i * TRANSMISSION_SIZE,
                ))
            &&& f.historical@.len() == spec_historical_len(data@)
            &&& (forall|i: int|
                0 <= i < f.historical@.len() ==> f.historical@[i] == spec_transmission_at(
                    data@,
                    spec_historical_start(data@) + i * TRANSMISSION_SIZE,
                ))
            &&& f@ == spec_feed_model(data@)
        },
{
    let n_total: usize = data.len();
    if n_total < RING_START {
        return Err(FeedError::BufferTooSmall);
    }
    let version: u8 = *slice_index_get(data, OFF_VERSION);
    if version != FEED_VERSION {
        return Err(FeedError::VersionMismatch);
    }
    let live_length: u32 = read_u32_at(data, OFF_LIVE_LENGTH);
    let live_bytes: u64 = (live_length as u64) * (TRANSMISSION_SIZE as u64);
    if (n_total as u64) < (RING_START as u64) + live_bytes {
        return Err(FeedError::BufferTooSmall);
    }
    let live_count: usize = live_length as usize;
    let rest: usize = n_total - RING_START - live_count * TRANSMISSION_SIZE;
    if rest % TRANSMISSION_SIZE != 0 {
        return Err(FeedError::Malformed);
    }
    let hist_count: usize = rest / TRANSMISSION_SIZE;
    let hist_start: usize = RING_START + live_count * TRANSMISSION_SIZE;
    let header = decode_header(data);
    let live = decode_ring(data, RING_START, live_count);
    let historical = decode_ring(data, hist_start, hist_count);
    let feed = Feed { header, live, historical };
    proof {
        assert(feed@ =~= spec_feed_model(data@));
    }
    Ok(feed)
}

impl Feed {
    /// Append a newly observed round.
    ///
    /// The round's id becomes the incremented `latest_round_id`; the round
    /// is written at the live cursor, and also at the historical cursor when
    /// its id is a multiple of the granularity.
    pub fn insert(&mut self, round: Transmission)
        requires
            old(self).wf(),
            old(self).header.latest_round_id < u32::MAX,
        ensures
            final(self)@ == old(self)@.insert(round),
            final(self).wf(),
            spec_header_meta(final(self).header) == spec_header_meta(old(self).header),
    {
        self.header.latest_round_id = self.header.latest_round_id + 1;

        let llen: u32 = self.live.len() as u32;
        let cursor: usize = self.header.live_cursor as usize;
        self.live[cursor] = round;
        self.header.live_cursor = (self.header.live_cursor + 1) % llen;

        if self.header.latest_round_id % (self.header.granularity as u32) == 0 {
            let hlen: u32 = self.historical.len() as u32;
            let hcursor: usize = self.header.historical_cursor as usize;
            self.historical[hcursor] = round;
            self.header.historical_cursor = (self.header.historical_cursor + 1) % hlen;
        }
        proof {
            assert(self@ =~= old(self)@.insert(round));
        }
    }

    /// The most recently inserted round, or `None` while the store is empty.
    pub fn latest(&self) -> (r: Option<Transmission>)
        requires
            self.wf(),
        ensures
            r == self@.latest(),
    {
        if self.header.latest_round_id == 0 {
            return None;
        }
        let llen: u32 = self.header.live_length;
        let i: u32 = slot_back(self.header.live_cursor, llen, 1);
        Some(self.live[i as usize])
    }

    /// The round with id `round_id`: exact from the live window, rounded
    /// down to the nearest granularity multiple from the historical window,
    /// `None` when the id is 0, not yet produced, or already evicted.
    ///
    /// The store pre-filters ids that no ring can hold, but correctness does
    /// not depend on that: the two indexers refuse out-of-range ids
    /// themselves.
    pub fn fetch(&self, round_id: u32) -> (r: Option<Transmission>)
        requires
            self.wf(),
        ensures
            r == self@.fetch(round_id as int),
    {
        let latest: u32 = self.header.latest_round_id;
        if round_id == 0 || latest < round_id {
            return None;
        }
        let llen: u32 = self.live.len() as u32;
        if let Some(index) = live_slot(self.header.live_cursor, llen, latest, round_id) {
            return Some(self.live[index as usize]);
        }

        let granularity: u32 = self.header.granularity as u32;
        proof {
            vstd::arithmetic::div_mod::lemma_mod_decreases(latest as nat, granularity as nat);
            lemma_round_down_aligned(latest as int, granularity as int);
        }
        let historical_end: u32 = latest - latest % granularity;
        let hlen: u32 = self.historical.len() as u32;
        if let Some(index) = historical_slot(
            self.header.historical_cursor,
            hlen,
            self.header.granularity,
            historical_end,
            round_id,
        ) {
            return Some(self.historical[index as usize]);
        }
        None
    }
}

/// The live-ring slot that `live_slot` answers for an id the live window
/// holds: the cursor walked back past the newer rounds.
pub open spec fn spec_live_lookup(cursor: int, capacity: int, latest_id: int, round_id: int) -> Option<int> {
    let lo = if latest_id >= capacity {
        latest_id - capacity + 1
    } else {
        1
    };
    if round_id <= 0 || round_id > latest_id || round_id < lo {
        None
    } else {
        Some((cursor - (latest_id - round_id + 1)) % capacity)
    }
}

/// The historical-ring slot that `historical_slot` answers for an id the
/// historical window holds: the cursor walked back past the newer
/// granularity-aligned rounds, after rounding the id down to a multiple.
pub open spec fn spec_historical_lookup(
    cursor: int,
    capacity: int,
    granularity: int,
    historical_end: int,
    round_id: int,
) -> Option<int> {
    let lo0 = historical_end - granularity * (capacity - 1);
    let lo = if lo0 >= 0 {
        lo0
    } else {
        0
    };
    if round_id <= 0 || round_id > historical_end || round_id < lo {
        None
    } else {
        let rounded = round_id - round_id % granularity;
        Some((cursor - ((historical_end - rounded) / granularity + 1)) % capacity)
    }
}

/// Rounding down to a multiple of `g` lands on a non-negative aligned value
/// no larger than the argument.
proof fn lemma_round_down_aligned(x: int, g: int)
    requires
        0 <= x,
        1 <= g,
    ensures
        (x - x % g) % g == 0,
        0 <= x - x % g <= x,
{
    vstd::arithmetic::div_mod::lemma_mod_bound(x, g);
    vstd::arithmetic::div_mod::lemma_mod_decreases(x as nat, g as nat);
    vstd::arithmetic::div_mod::lemma_sub_mod_noop(x, x % g, g);
    vstd::arithmetic::div_mod::lemma_mod_twice(x, g);
    vstd::arithmetic::div_mod::lemma_small_mod(0nat, g as nat);
}

/// Locate the live-ring slot of `round_id`, or `None` for an id the live
/// window does not hold (zero, in the future, or already overwritten).
pub fn live_slot(cursor: u32, capacity: u32, latest_id: u32, round_id: u32) -> (r: Option<u32>)
    requires
        1 <= capacity,
        cursor < capacity,
    ensures
        match r {
            Some(i) => spec_live_lookup(
                cursor as int,
                capacity as int,
                latest_id as int,
                round_id as int,
            ) == Some(i as int) && i < capacity,
            None => spec_live_lookup(
                cursor as int,
                capacity as int,
                latest_id as int,
                round_id as int,
            ) is None,
        },
{
    if round_id == 0 || latest_id < round_id {
        return None;
    }
    let live_start: u32 = if latest_id > capacity - 1 {
        latest_id - (capacity - 1)
    } else {
        0
    };
    if live_start <= round_id {
        let offset: u32 = latest_id - round_id + 1;
        Some(slot_back(cursor, capacity, offset))
    } else {
        None
    }
}

/// Locate the historical-ring slot answering for `round_id`, or `None` for
/// an id the historical window does not hold.  `historical_end` is the most
/// recent granularity-aligned round id, so it is a multiple of the
/// granularity by construction.
pub fn historical_slot(
    cursor: u32,
    capacity: u32,
    granularity: u8,
    historical_end: u32,
    round_id: u32,
) -> (r: Option<u32>)
    requires
        1 <= capacity,
        cursor < capacity,
        1 <= granularity,
        historical_end % (granularity as u32) == 0,
    ensures
        match r {
            Some(i) => spec_historical_lookup(
                cursor as int,
                capacity as int,
                granularity as int,
                historical_end as int,
                round_id as int,
            ) == Some(i as int) && i < capacity,
            None => spec_historical_lookup(
                cursor as int,
                capacity as int,
                granularity as int,
                historical_end as int,
                round_id as int,
            ) is None,
        },
{
    let g: u32 = granularity as u32;
    if round_id == 0 || historical_end < round_id {
        return None;
    }
    proof {
        vstd::arithmetic::mul::lemma_mul_inequality(g as int, 255, (capacity - 1) as int);
        vstd::arithmetic::mul::lemma_mul_inequality((capacity - 1) as int, u32::MAX as int, 255);
    }
    let span: u64 = (g as u64) * ((capacity - 1) as u64);
    let start: u64 = if (historical_end as u64) > span {
        (historical_end as u64) - span
    } else {
        0
    };
    if (round_id as u64) < start {
        return None;
    }
    proof {
        lemma_historical_offset_in_range(
            g as int,
            capacity as int,
            historical_end as int,
            round_id as int,
        );
    }
    let rounded: u32 = round_id - round_id % g;
    let offset: u32 = (historical_end - rounded) / g + 1;
    Some(slot_back(cursor, capacity, offset))
}

/// In the historical lookup the walk back from the cursor stays within the
/// ring: the rounded-down id is at least the window's low end, so the step
/// count is between 1 and the ring's capacity.
proof fn lemma_historical_offset_in_range(g: int, cap: int, h_end: int, rid: int)
    requires
        1 <= g,
        1 <= cap,
        0 <= h_end,
        h_end % g == 0,
        1 <= rid <= h_end,
        ({
            let lo0 = h_end - g * (cap - 1);
            rid >= (if lo0 >= 0 {
                lo0
            } else {
                0
            })
        }),
    ensures
        ({
            let rounded = rid - rid % g;
            let lo0 = h_end - g * (cap - 1);
            &&& 0 <= rounded <= rid
            &&& rounded % g == 0
            &&& (if lo0 >= 0 {
                lo0
            } else {
                0
            }) <= rounded
            &&& 1 <= (h_end - rounded) / g + 1 <= cap
        }),
{
    let rounded = rid - rid % g;
    let lo0 = h_end - g * (cap - 1);
    vstd::arithmetic::div_mod::lemma_mod_bound(rid, g);
    lemma_round_down_aligned(rid, g);
    assert(g * (cap - 1) == (cap - 1) * g) by (nonlinear_arith);
    // The window's low end is granularity-aligned, so rounding down cannot
    // cross it.
    if lo0 > 0 {
        assert(lo0 % g == 0) by {
            vstd::arithmetic::div_mod::lemma_sub_mod_noop(h_end, g * (cap - 1), g);
            vstd::arithmetic::div_mod::lemma_mod_multiples_basic(cap - 1, g);
            vstd::arithmetic::div_mod::lemma_small_mod(0nat, g as nat);
        }
        assert(lo0 <= rounded) by {
            // Both are multiples of g, and lo0 <= rid, so lo0 cannot exceed
            // rid rounded down to a multiple of g.
            vstd::arithmetic::div_mod::lemma_fundamental_div_mod(rid, g);
            vstd::arithmetic::div_mod::lemma_fundamental_div_mod(lo0, g);
            vstd::arithmetic::div_mod::lemma_div_is_ordered(lo0, rid, g);
            vstd::arithmetic::mul::lemma_mul_inequality(lo0 / g, rid / g, g);
            assert((lo0 / g) * g == g * (lo0 / g)) by (nonlinear_arith);
            assert((rid / g) * g == g * (rid / g)) by (nonlinear_arith);
        }
        assert(h_end - rounded <= g * (cap - 1));
    } else {
        assert(h_end <= g * (cap - 1));
        assert(h_end - rounded <= g * (cap - 1));
    }
    assert((h_end - rounded) / g <= cap - 1) by {
        vstd::arithmetic::div_mod::lemma_div_is_ordered(h_end - rounded, g * (cap - 1), g);
        vstd::arithmetic::div_mod::lemma_div_by_multiple(cap - 1, g);
    }
    assert((h_end - rounded) / g >= 0) by {
        vstd::arithmetic::div_mod::lemma_div_pos_is_pos(h_end - rounded, g);
    }
}

} // verus!
