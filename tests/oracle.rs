use casino::oracle::{derive_outcome, digest_prefix, push_le_u64, recent_entropy, timestamp_bits};
use sha3::{Digest, Sha3_256};

#[test]
fn outcome_matches_sha3_prefix() {
    let entropy = [1u8, 2, 3, 4, 5, 6, 7, 8];
    let mut msg = Vec::new();
    msg.extend_from_slice(&42u64.to_le_bytes());
    msg.extend_from_slice(&(-5i64).to_le_bytes());
    msg.extend_from_slice(&entropy);
    let digest = Sha3_256::digest(&msg);
    let mut first = [0u8; 8];
    first.copy_from_slice(&digest[..8]);
    assert_eq!(derive_outcome(42, -5, entropy), Some(u64::from_le_bytes(first)));
}

#[test]
fn outcome_is_deterministic() {
    let e = [9u8; 8];
    assert_eq!(derive_outcome(7, 1000, e), derive_outcome(7, 1000, e));
}

#[test]
fn outcome_changes_with_each_input() {
    let e = [9u8; 8];
    let base = derive_outcome(7, 1000, e);
    assert_ne!(base, derive_outcome(8, 1000, e));
    assert_ne!(base, derive_outcome(7, 1001, e));
    let mut e2 = e;
    e2[7] = 10;
    assert_ne!(base, derive_outcome(7, 1000, e2));
}

#[test]
fn digest_prefix_reads_little_endian() {
    let d: Vec<u8> = vec![1, 2, 3, 4, 5, 6, 7, 8, 9, 10];
    assert_eq!(digest_prefix(&d), Some(0x0807060504030201));
    assert_eq!(digest_prefix(&vec![0xff; 8]), Some(u64::MAX));
    assert_eq!(digest_prefix(&vec![1, 2, 3, 4, 5, 6, 7]), None);
}

#[test]
fn timestamp_bits_wraps_negative() {
    assert_eq!(timestamp_bits(-1), u64::MAX);
    assert_eq!(timestamp_bits(i64::MIN), 1u64 << 63);
    assert_eq!(timestamp_bits(12345), 12345);
}

#[test]
fn push_le_u64_appends_eight_bytes() {
    let mut v = vec![0xaa];
    push_le_u64(&mut v, 0x0102030405060708);
    assert_eq!(v, vec![0xaa, 8, 7, 6, 5, 4, 3, 2, 1]);
}

#[test]
fn recent_entropy_takes_bytes_twelve_to_twenty() {
    let data: Vec<u8> = (0u8..20).collect();
    assert_eq!(recent_entropy(&data), Some([12, 13, 14, 15, 16, 17, 18, 19]));
    assert_eq!(recent_entropy(&data[..19].to_vec()), None);
}
