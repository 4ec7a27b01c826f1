use chainlink_feed::codec::decode_round;
use chainlink_feed::codec::decode_round_with_decimals;
use chainlink_feed::codec::encode_round;
use chainlink_feed::codec::encode_round_with_decimals;
use chainlink_feed::Round;
use chainlink_feed::RoundWithDecimals;

#[test]
fn round_encoding_matches_borsh() {
    // The wire encoding of a round answer is each field in declaration
    // order, little-endian: exactly how borsh serializes the same fields.
    let r = Round { round_id: 2177184, slot: 141757948, timestamp: 1657926454, answer: -12345 };
    let ours = encode_round(&r);
    let borsh_bytes = borsh::to_vec(&(r.round_id, r.slot, r.timestamp, r.answer)).unwrap();
    assert_eq!(ours, borsh_bytes);
}

#[test]
fn round_with_decimals_encoding_matches_borsh() {
    let r = RoundWithDecimals {
        round: Round { round_id: 7, slot: 9, timestamp: 11, answer: i128::MIN },
        decimals: 8,
    };
    let ours = encode_round_with_decimals(&r);
    let borsh_bytes = borsh::to_vec(&(
        r.round.round_id,
        r.round.slot,
        r.round.timestamp,
        r.round.answer,
        r.decimals,
    ))
    .unwrap();
    assert_eq!(ours, borsh_bytes);
}

#[test]
fn round_encoding_round_trips() {
    let cases = [
        Round { round_id: 0, slot: 0, timestamp: 0, answer: 0 },
        Round { round_id: 1, slot: 2, timestamp: 3, answer: 4 },
        Round { round_id: u32::MAX, slot: u64::MAX, timestamp: u32::MAX, answer: i128::MAX },
        Round { round_id: 20, slot: 20, timestamp: 20, answer: -20 },
    ];
    for r in cases {
        let bytes = encode_round(&r);
        assert_eq!(bytes.len(), 32);
        assert_eq!(decode_round(&bytes), r);
    }
    let rd = RoundWithDecimals {
        round: Round { round_id: 5, slot: 6, timestamp: 7, answer: -8 },
        decimals: 18,
    };
    let bytes = encode_round_with_decimals(&rd);
    assert_eq!(bytes.len(), 33);
    assert_eq!(decode_round_with_decimals(&bytes), rd);
}
