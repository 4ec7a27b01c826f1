use chainlink_feed::aggregator;
use chainlink_feed::chainlink_store_program;
use chainlink_feed::decimals;
use chainlink_feed::description;
use chainlink_feed::latest_round_data;
use chainlink_feed::latest_round_data_with_decimals;
use chainlink_feed::latest_round_data_with_decimals2;
use chainlink_feed::query;
use chainlink_feed::store::Transmission;
use chainlink_feed::store::HEADER_SIZE;
use chainlink_feed::store::TRANSMISSION_SIZE;
use chainlink_feed::version;
use chainlink_feed::FeedError;
use chainlink_feed::Round;
use chainlink_feed::Scope;
use chainlink_feed::FEED_VERSION;

/// A feed buffer with two live and three historical slots, granularity 5,
/// decimals 8, the description "BTC / USD", an aggregator identity of
/// 32 nines, and rounds 1..=20 inserted.
fn btc_feed() -> Vec<u8> {
    let live_length = 2u32;
    let historical_length = 3usize;
    let mut data =
        vec![0u8; 8 + HEADER_SIZE + (live_length as usize + historical_length) * TRANSMISSION_SIZE];
    data[8] = FEED_VERSION;
    data[74..106].copy_from_slice(&[9u8; 32]);
    data[106..115].copy_from_slice(b"BTC / USD");
    data[138] = 8;
    data[147] = 5;
    data[148..152].copy_from_slice(&live_length.to_le_bytes());
    // The state 20 inserts leave behind: the live ring holds rounds 19 and
    // 20 with the cursor wrapped to 0; the historical ring holds the aligned
    // rounds 20, 10 and 15 with the cursor at 1 (four aligned rounds ever,
    // the oldest overwritten).
    data[143..147].copy_from_slice(&20u32.to_le_bytes());
    data[152..156].copy_from_slice(&0u32.to_le_bytes());
    data[156..160].copy_from_slice(&1u32.to_le_bytes());
    for (i, rec) in (0..).zip([round(19), round(20)]) {
        let off = 8 + HEADER_SIZE + i * TRANSMISSION_SIZE;
        write_record(&mut data, off, rec);
    }
    for (i, rec) in (0..).zip([round(20), round(10), round(15)]) {
        let off = 8 + HEADER_SIZE + 2 * TRANSMISSION_SIZE + i * TRANSMISSION_SIZE;
        write_record(&mut data, off, rec);
    }
    data
}

fn round(i: u32) -> Transmission {
    Transmission { slot: u64::from(i), timestamp: i, answer: i128::from(i) }
}

fn write_record(data: &mut [u8], off: usize, rec: Transmission) {
    data[off..off + 8].copy_from_slice(&rec.slot.to_le_bytes());
    data[off + 8..off + 12].copy_from_slice(&rec.timestamp.to_le_bytes());
    data[off + 16..off + 32].copy_from_slice(&rec.answer.to_le_bytes());
}

fn owner() -> Vec<u8> {
    chainlink_store_program()
}

#[test]
fn query_header_scopes() {
    let data = btc_feed();
    let owner = owner();
    assert_eq!(query(&data, &owner, Scope::Version).unwrap(), vec![2u8]);
    assert_eq!(query(&data, &owner, Scope::Decimals).unwrap(), vec![8u8]);
    assert_eq!(query(&data, &owner, Scope::Description).unwrap(), b"BTC / USD".to_vec());
    assert_eq!(query(&data, &owner, Scope::Aggregator).unwrap(), vec![9u8; 32]);
}

#[test]
fn query_round_data_encodes_the_round() {
    let data = btc_feed();
    let owner = owner();
    let bytes = query(&data, &owner, Scope::RoundData { round_id: 20 }).unwrap();
    let mut expected = Vec::new();
    expected.extend_from_slice(&20u32.to_le_bytes());
    expected.extend_from_slice(&20u64.to_le_bytes());
    expected.extend_from_slice(&20u32.to_le_bytes());
    expected.extend_from_slice(&20i128.to_le_bytes());
    assert_eq!(bytes, expected);
}

#[test]
fn query_round_data_rounds_down_into_history() {
    let data = btc_feed();
    let owner = owner();
    // 18 is below the live window; granularity 5 rounds it down to 15.
    let bytes = query(&data, &owner, Scope::RoundData { round_id: 18 }).unwrap();
    let round = Round {
        round_id: u32::from_le_bytes(bytes[0..4].try_into().unwrap()),
        slot: u64::from_le_bytes(bytes[4..12].try_into().unwrap()),
        timestamp: u32::from_le_bytes(bytes[12..16].try_into().unwrap()),
        answer: i128::from_le_bytes(bytes[16..32].try_into().unwrap()),
    };
    assert_eq!(round, Round { round_id: 18, slot: 15, timestamp: 15, answer: 15 });
}

#[test]
fn query_absent_round_is_not_found() {
    let data = btc_feed();
    let owner = owner();
    assert_eq!(
        query(&data, &owner, Scope::RoundData { round_id: 9 }).err(),
        Some(FeedError::NotFound)
    );
    assert_eq!(
        query(&data, &owner, Scope::RoundData { round_id: 0 }).err(),
        Some(FeedError::NotFound)
    );
    assert_eq!(
        query(&data, &owner, Scope::RoundData { round_id: 21 }).err(),
        Some(FeedError::NotFound)
    );
}

#[test]
fn query_refuses_wrong_owner() {
    let data = btc_feed();
    let wrong = vec![1u8; 32];
    assert_eq!(query(&data, &wrong, Scope::Version).err(), Some(FeedError::IllegalOwner));
    assert_eq!(version(&data, &wrong).err(), Some(FeedError::IllegalOwner));
    assert_eq!(decimals(&data, &wrong).err(), Some(FeedError::IllegalOwner));
    assert_eq!(description(&data, &wrong).err(), Some(FeedError::IllegalOwner));
    assert_eq!(aggregator(&data, &wrong).err(), Some(FeedError::IllegalOwner));
    assert_eq!(latest_round_data(&data, &wrong).err(), Some(FeedError::IllegalOwner));
}

#[test]
fn query_refuses_zero_granularity() {
    let mut data = btc_feed();
    data[147] = 0;
    let owner = owner();
    assert_eq!(
        query(&data, &owner, Scope::RoundData { round_id: 20 }).err(),
        Some(FeedError::Malformed)
    );
    assert_eq!(query(&data, &owner, Scope::LatestRoundData).err(), Some(FeedError::Malformed));
}

#[test]
fn query_refuses_out_of_range_cursor() {
    let mut data = btc_feed();
    data[152..156].copy_from_slice(&7u32.to_le_bytes());
    let owner = owner();
    assert_eq!(query(&data, &owner, Scope::LatestRoundData).err(), Some(FeedError::Malformed));
}

#[test]
fn query_refuses_empty_rings() {
    let owner = owner();
    // A header-only buffer declares a zero-slot live ring and leaves no
    // bytes for the historical ring: header scopes answer, round scopes
    // cannot.
    let mut data = vec![0u8; 8 + HEADER_SIZE];
    data[8] = FEED_VERSION;
    data[147] = 5;
    assert_eq!(query(&data, &owner, Scope::Version).unwrap(), vec![2u8]);
    assert_eq!(
        query(&data, &owner, Scope::RoundData { round_id: 1 }).err(),
        Some(FeedError::Malformed)
    );
    // One live slot but still no historical slot.
    let mut data = vec![0u8; 8 + HEADER_SIZE + TRANSMISSION_SIZE];
    data[8] = FEED_VERSION;
    data[147] = 5;
    data[148..152].copy_from_slice(&1u32.to_le_bytes());
    assert_eq!(
        query(&data, &owner, Scope::LatestRoundData).err(),
        Some(FeedError::Malformed)
    );
}

#[test]
fn accessors_read_header_fields() {
    let data = btc_feed();
    let owner = owner();
    assert_eq!(version(&data, &owner).unwrap(), FEED_VERSION);
    assert_eq!(decimals(&data, &owner).unwrap(), 8);
    assert_eq!(description(&data, &owner).unwrap(), "BTC / USD");
    assert_eq!(aggregator(&data, &owner).unwrap(), vec![9u8; 32]);
}

#[test]
fn description_refuses_non_utf8() {
    let mut data = btc_feed();
    data[106] = 0xff;
    data[107] = 0xfe;
    let owner = owner();
    assert_eq!(description(&data, &owner).err(), Some(FeedError::InvalidUtf8));
}

#[test]
fn latest_round_data_reads_newest() {
    let data = btc_feed();
    let owner = owner();
    let latest = latest_round_data(&data, &owner).unwrap();
    assert_eq!(latest, Round { round_id: 20, slot: 20, timestamp: 20, answer: 20 });

    let with_dec = latest_round_data_with_decimals(&data, &owner).unwrap();
    assert_eq!(latest, with_dec.round);
    assert_eq!(with_dec.decimals, 8);

    let with_dec2 = latest_round_data_with_decimals2(&data, &owner).unwrap();
    assert_eq!(latest, with_dec2.round);
    assert_eq!(with_dec2.decimals, 8);
}

#[test]
fn latest_round_data_on_empty_feed_is_not_found() {
    let live_length = 2u32;
    let mut data = vec![0u8; 8 + HEADER_SIZE + 5 * TRANSMISSION_SIZE];
    data[8] = FEED_VERSION;
    data[147] = 5;
    data[148..152].copy_from_slice(&live_length.to_le_bytes());
    let owner = owner();
    assert_eq!(latest_round_data(&data, &owner).err(), Some(FeedError::NotFound));
    assert_eq!(latest_round_data_with_decimals2(&data, &owner).err(), Some(FeedError::NotFound));
}
