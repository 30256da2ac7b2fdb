use casino::address::Address;
use casino::dice::{max_bet, roll_dice, settle, setup_dice, threshold_bp, validate_bet, ErrorCode};
use sha3::{Digest, Sha3_256};

fn expected_outcome(seed: u64, timestamp: i64, entropy: &[u8]) -> u64 {
    let mut msg = Vec::new();
    msg.extend_from_slice(&seed.to_le_bytes());
    msg.extend_from_slice(&timestamp.to_le_bytes());
    msg.extend_from_slice(entropy);
    let digest = Sha3_256::digest(&msg);
    let mut first = [0u8; 8];
    first.copy_from_slice(&digest[..8]);
    u64::from_le_bytes(first)
}

fn slot_hashes_record() -> Vec<u8> {
    (0u8..40).collect()
}

#[test]
fn max_bet_example() {
    assert_eq!(max_bet(100000, 20000, 2), 25000);
}

#[test]
fn max_bet_truncates() {
    assert_eq!(max_bet(7, 30000, 1), 2);
    assert_eq!(max_bet(0, 10000, 5), 0);
}

#[test]
fn max_bet_large_balance_does_not_overflow() {
    // balance * 10000 exceeds u64 here, the quotient does not.
    assert_eq!(max_bet(u64::MAX, 20000, 1), u64::MAX / 2);
}

#[test]
fn threshold_example() {
    assert_eq!(threshold_bp(20000, 100), 4975);
}

#[test]
fn threshold_decreases_with_multiplier() {
    let mut last = threshold_bp(1, 100);
    for m in [2u64, 100, 10000, 20000, 50000, 1000000] {
        let t = threshold_bp(m, 100);
        assert!(t <= last);
        last = t;
    }
}

#[test]
fn validate_bet_boundary() {
    assert_eq!(validate_bet(25000, 25000), Ok(()));
    assert_eq!(validate_bet(25001, 25000), Err(ErrorCode::BetTooBig));
    assert_eq!(validate_bet(0, 0), Ok(()));
}

#[test]
fn setup_records_parameters() {
    let house = Address::new([7; 32]);
    let key = Address::new([9; 32]);
    let reserve = setup_dice(100, 2, house, key, 254);
    assert_eq!(reserve.edge_bp, 100);
    assert_eq!(reserve.ratio, 2);
    assert_eq!(reserve.house.bytes, [7; 32]);
    assert_eq!(reserve.reserve_key.bytes, [9; 32]);
    assert_eq!(reserve.bump, 254);
}

#[test]
fn settle_win_and_loss() {
    let win = settle(100, 20000, 1000, 3 * 10000 + 4974);
    assert!(win.won);
    assert_eq!(win.roll_bp, 4974);
    assert_eq!(win.threshold_bp, 4975);
    assert_eq!(win.payout, 2000);
    let loss = settle(100, 20000, 1000, 4975);
    assert!(!loss.won);
    assert_eq!(loss.payout, 100);
}

#[test]
fn roll_rejects_big_bet() {
    let reserve = setup_dice(100, 2, Address::new([1; 32]), Address::new([2; 32]), 0);
    let r = roll_dice(&reserve, &Address::new([1; 32]), &Address::new([2; 32]), 100890, 890, 5, 20000, 25001, 1_700_000_000, &slot_hashes_record());
    assert_eq!(r.unwrap_err(), ErrorCode::BetTooBig);
}

#[test]
fn roll_rejects_short_slot_hashes() {
    let reserve = setup_dice(100, 2, Address::new([1; 32]), Address::new([2; 32]), 0);
    let r = roll_dice(&reserve, &Address::new([1; 32]), &Address::new([2; 32]), 100890, 890, 5, 20000, 25000, 1_700_000_000, &vec![0u8; 19]);
    assert_eq!(r.unwrap_err(), ErrorCode::MismatchedSlotHashes);
}

#[test]
fn roll_settles_against_hashed_outcome() {
    let reserve = setup_dice(100, 2, Address::new([1; 32]), Address::new([2; 32]), 0);
    let data = slot_hashes_record();
    for seed in 0u64..20 {
        let roll = roll_dice(&reserve, &Address::new([1; 32]), &Address::new([2; 32]), 100890, 890, seed, 20000, 25000, 1_700_000_000, &data).unwrap();
        let p = expected_outcome(seed, 1_700_000_000, &data[12..20]) % 10000;
        assert_eq!(roll.roll_bp, p);
        assert_eq!(roll.threshold_bp, 4975);
        assert_eq!(roll.won, p < 4975);
        if roll.won {
            assert_eq!(roll.payout, 50000);
        } else {
            assert_eq!(roll.payout, 2500);
        }
    }
}

#[test]
fn roll_rejects_other_accounts() {
    let reserve = setup_dice(100, 2, Address::new([1; 32]), Address::new([2; 32]), 0);
    let data = slot_hashes_record();
    let r = roll_dice(&reserve, &Address::new([3; 32]), &Address::new([2; 32]), 100890, 890, 5, 20000, 1, 0, &data);
    assert_eq!(r.unwrap_err(), ErrorCode::MismatchedHouse);
    let mut other = [2u8; 32];
    other[31] = 0;
    let r = roll_dice(&reserve, &Address::new([1; 32]), &Address::new(other), 100890, 890, 5, 20000, 1, 0, &data);
    assert_eq!(r.unwrap_err(), ErrorCode::MismatchedReserveKey);
}
