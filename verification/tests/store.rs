use chainlink_feed::store::historical_slot;
use chainlink_feed::store::live_slot;
use chainlink_feed::store::with_store;
use chainlink_feed::store::slot_back;
use chainlink_feed::store::Transmission;
use chainlink_feed::store::Transmissions;
use chainlink_feed::store::HEADER_SIZE;
use chainlink_feed::store::TRANSMISSION_SIZE;
use chainlink_feed::FeedError;
use chainlink_feed::FEED_VERSION;

/// A zeroed feed buffer with the given geometry, version 2, decimals 18,
/// flagging threshold 1000 and no rounds yet.
fn feed_buffer(live_length: u32, historical_length: usize, granularity: u8) -> Vec<u8> {
    let mut data =
        vec![0u8; 8 + HEADER_SIZE + (live_length as usize + historical_length) * TRANSMISSION_SIZE];
    data[8] = FEED_VERSION;
    data[9] = Transmissions::NORMAL;
    data[138] = 18;
    data[139..143].copy_from_slice(&1000u32.to_le_bytes());
    data[147] = granularity;
    data[148..152].copy_from_slice(&live_length.to_le_bytes());
    data
}

fn round(i: u32) -> Transmission {
    Transmission { slot: u64::from(i), timestamp: i, answer: i128::from(i) }
}

#[test]
fn transmissions() {
    let live_length = 2u32;
    let historical_length = 3usize;
    let data = feed_buffer(live_length, historical_length, 5);

    let mut store = with_store(&data).unwrap();
    assert_eq!(store.header.decimals, 18);
    assert_eq!(store.header.flagging_threshold, 1000);
    for i in 1..=20 {
        store.insert(round(i));
    }

    assert_eq!(store.fetch(21), None);
    // Live range returns precise round
    assert_eq!(store.fetch(20), Some(round(20)));
    assert_eq!(store.fetch(19), Some(round(19)));
    // Historical range rounds down
    assert_eq!(store.fetch(18), Some(round(15)));
    assert_eq!(store.fetch(15), Some(round(15)));
    assert_eq!(store.fetch(14), Some(round(10)));
    assert_eq!(store.fetch(10), Some(round(10)));
    // Out of range
    assert_eq!(store.fetch(9), None);
}

#[test]
fn insert_counts_rounds() {
    let data = feed_buffer(4, 2, 3);
    let mut store = with_store(&data).unwrap();
    assert_eq!(store.header.latest_round_id, 0);
    for i in 1..=7 {
        store.insert(round(i));
        assert_eq!(store.header.latest_round_id, i);
    }
}

#[test]
fn live_window_is_exact() {
    let data = feed_buffer(3, 4, 5);
    let mut store = with_store(&data).unwrap();
    for i in 1..=20 {
        store.insert(round(i));
    }
    // live_length = 3 keeps exactly rounds 18, 19, 20
    assert_eq!(store.fetch(20), Some(round(20)));
    assert_eq!(store.fetch(19), Some(round(19)));
    assert_eq!(store.fetch(18), Some(round(18)));
    // 17 is below the live window: granularity 5 rounds it down to 15
    assert_eq!(store.fetch(17), Some(round(15)));
}

#[test]
fn eviction_is_absent() {
    let data = feed_buffer(2, 3, 5);
    let mut store = with_store(&data).unwrap();
    for i in 1..=20 {
        store.insert(round(i));
    }
    // id 0, future ids, and ids older than both windows are absent
    assert_eq!(store.fetch(0), None);
    assert_eq!(store.fetch(21), None);
    assert_eq!(store.fetch(u32::MAX), None);
    assert_eq!(store.fetch(9), None);
    assert_eq!(store.fetch(1), None);
}

#[test]
fn fetch_zero_is_absent_when_nearly_empty() {
    let data = feed_buffer(2, 3, 5);
    let mut store = with_store(&data).unwrap();
    assert_eq!(store.fetch(0), None);
    store.insert(round(1));
    assert_eq!(store.fetch(0), None);
    assert_eq!(store.fetch(1), Some(round(1)));
}

#[test]
fn reads_are_idempotent() {
    let data = feed_buffer(2, 3, 5);
    let mut store = with_store(&data).unwrap();
    for i in 1..=12 {
        store.insert(round(i));
    }
    for rid in 0..=13u32 {
        let first = store.fetch(rid);
        let second = store.fetch(rid);
        assert_eq!(first, second);
    }
    assert_eq!(store.latest(), store.latest());
    assert_eq!(store.header.latest_round_id, 12);
}

#[test]
fn latest_tracks_newest_round() {
    let data = feed_buffer(2, 3, 5);
    let mut store = with_store(&data).unwrap();
    assert_eq!(store.latest(), None);
    for i in 1..=7 {
        store.insert(round(i));
        assert_eq!(store.latest(), Some(round(i)));
    }
}

#[test]
fn slot_back_wraps_cursor() {
    assert_eq!(slot_back(5, 8, 1), 4);
    assert_eq!(slot_back(5, 8, 5), 0);
    assert_eq!(slot_back(5, 8, 6), 7);
    assert_eq!(slot_back(5, 8, 8), 5);
    assert_eq!(slot_back(0, 3, 1), 2);
    assert_eq!(slot_back(0, 1, 1), 0);
}

#[test]
fn live_slot_locates_live_window() {
    // 20 rounds into a 2-slot ring: cursor 0, ids 19 and 20 retained.
    assert_eq!(live_slot(0, 2, 20, 20), Some(1));
    assert_eq!(live_slot(0, 2, 20, 19), Some(0));
    assert_eq!(live_slot(0, 2, 20, 18), None);
    assert_eq!(live_slot(0, 2, 20, 21), None);
    assert_eq!(live_slot(0, 2, 20, 0), None);
    // One round into a 4-slot ring.
    assert_eq!(live_slot(1, 4, 1, 1), Some(0));
    assert_eq!(live_slot(1, 4, 1, 2), None);
    assert_eq!(live_slot(1, 4, 0, 1), None);
}

#[test]
fn historical_slot_rounds_down_into_window() {
    // 20 rounds at granularity 5 into a 3-slot ring: cursor 1, aligned ids
    // 10, 15, 20 retained.
    assert_eq!(historical_slot(1, 3, 5, 20, 20), Some(0));
    assert_eq!(historical_slot(1, 3, 5, 20, 18), Some(2));
    assert_eq!(historical_slot(1, 3, 5, 20, 15), Some(2));
    assert_eq!(historical_slot(1, 3, 5, 20, 14), Some(1));
    assert_eq!(historical_slot(1, 3, 5, 20, 10), Some(1));
    assert_eq!(historical_slot(1, 3, 5, 20, 9), None);
    assert_eq!(historical_slot(1, 3, 5, 20, 21), None);
    assert_eq!(historical_slot(1, 3, 5, 20, 0), None);
}

#[test]
fn with_store_refuses_short_buffer() {
    let data = vec![0u8; 40];
    assert_eq!(with_store(&data).err(), Some(FeedError::BufferTooSmall));
}

#[test]
fn with_store_refuses_wrong_version() {
    let mut data = feed_buffer(2, 3, 5);
    data[8] = 3;
    assert_eq!(with_store(&data).err(), Some(FeedError::VersionMismatch));
}

#[test]
fn with_store_refuses_truncated_live_ring() {
    let mut data = feed_buffer(2, 3, 5);
    // Claim a live ring larger than the buffer holds.
    data[148..152].copy_from_slice(&100u32.to_le_bytes());
    assert_eq!(with_store(&data).err(), Some(FeedError::BufferTooSmall));
}

#[test]
fn with_store_refuses_ragged_remainder() {
    let mut data = feed_buffer(2, 3, 5);
    // One byte beyond a whole number of historical records.
    data.push(0);
    assert_eq!(with_store(&data).err(), Some(FeedError::Malformed));
}

#[test]
fn with_store_decodes_header_fields() {
    let mut data = feed_buffer(2, 3, 5);
    data[9] = Transmissions::FLAGGED;
    data[10..42].copy_from_slice(&[7u8; 32]);
    data[42..74].copy_from_slice(&[8u8; 32]);
    data[74..106].copy_from_slice(&[9u8; 32]);
    data[106..115].copy_from_slice(b"BTC / USD");
    let store = with_store(&data).unwrap();
    assert_eq!(store.header.version, FEED_VERSION);
    assert_eq!(store.header.state, Transmissions::FLAGGED);
    assert_eq!(store.header.owner, vec![7u8; 32]);
    assert_eq!(store.header.proposed_owner, vec![8u8; 32]);
    assert_eq!(store.header.writer, vec![9u8; 32]);
    assert_eq!(&store.header.description[..9], b"BTC / USD");
    assert_eq!(store.header.granularity, 5);
    assert_eq!(store.header.live_length, 2);
}
