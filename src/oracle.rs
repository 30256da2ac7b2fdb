//! Outcome derivation: a caller's seed, a timestamp and recent chain entropy
//! are hashed with SHA3-256, and the first eight digest bytes are read as a
//! little-endian integer.
use sha3::{Digest, Sha3_256};
use vstd::prelude::*;

verus! {

/// The low `n` bytes of `x`, least significant first.
pub open spec fn le_bytes(x: nat, n: nat) -> Seq<u8>
    decreases n,
{
    if n == 0 {
        Seq::empty()
    } else {
        seq![(x % 256) as u8] + le_bytes(x / 256, (n - 1) as nat)
    }
}

/// The number that a little-endian byte sequence encodes.
pub open spec fn le_value(s: Seq<u8>) -> nat
    decreases s.len(),
{
    if s.len() == 0 {
        0
    } else {
        s[0] as nat + 256 * le_value(s.drop_first())
    }
}

pub open spec fn pow256(n: nat) -> nat
    decreases n,
{
    if n == 0 {
        1
    } else {
        256 * pow256((n - 1) as nat)
    }
}

/// The bit pattern of a signed 64-bit value, read as unsigned.
pub open spec fn twos_complement(t: i64) -> nat {
    if t >= 0 {
        t as nat
    } else {
        (t + 0x1_0000_0000_0000_0000) as nat
    }
}

/// The bytes hashed for an outcome: seed, then timestamp, each as eight
/// little-endian bytes, then the entropy bytes.
pub open spec fn outcome_message(seed: u64, timestamp: i64, entropy: Seq<u8>) -> Seq<u8> {
    le_bytes(seed as nat, 8) + le_bytes(twos_complement(timestamp), 8) + entropy
}

/// The SHA3-256 digest of a byte sequence.
pub uninterp spec fn sha3_256_of(msg: Seq<u8>) -> Seq<u8>;

/// The first eight bytes of a digest as a little-endian integer, when the
/// digest has them.
pub open spec fn prefix_u64(digest: Seq<u8>) -> Option<u64> {
    if digest.len() >= 8 {
        Some(le_value(digest.subrange(0, 8)) as u64)
    } else {
        None
    }
}

/// The outcome drawn from a seed, a timestamp and entropy bytes.
pub open spec fn outcome_of(seed: u64, timestamp: i64, entropy: Seq<u8>) -> Option<u64> {
    prefix_u64(sha3_256_of(outcome_message(seed, timestamp, entropy)))
}

/// Relies on `sha3::Sha3_256` through `digest::Digest::digest`: the SHA3-256
/// digest of the bytes, whose output size is 32 bytes.
#[verifier::external_body]
fn sha3_256(data: &Vec<u8>) -> (r: Vec<u8>)
    ensures
        r@ == sha3_256_of(data@),
        r@.len() == 32,
{
    Sha3_256::digest(data.as_slice()).to_vec()
}

pub proof fn lemma_le_value_bound(s: Seq<u8>)
    ensures
        le_value(s) < pow256(s.len()),
    decreases s.len(),
{
    if s.len() > 0 {
        lemma_le_value_bound(s.drop_first());
    }
}

proof fn lemma_pow256_mono(a: nat, b: nat)
    requires
        a <= b,
    ensures
        pow256(a) <= pow256(b),
    decreases b,
{
    if a < b {
        lemma_pow256_mono(a, (b - 1) as nat);
    }
}

/// The bit pattern of `t` as an unsigned integer.
pub fn timestamp_bits(t: i64) -> (r: u64)
    ensures
        r as nat == twos_complement(t),
{
    if t >= 0 {
        t as u64
    } else {
        let a: i64 = (t + i64::MAX) + 1;
        (a as u64) + 0x8000_0000_0000_0000u64
    }
}

/// Appends the eight little-endian bytes of `x`.
pub fn push_le_u64(out: &mut Vec<u8>, x: u64)
    ensures
        final(out)@ == old(out)@ + le_bytes(x as nat, 8),
{
    let mut v: u64 = x;
    let mut i: usize = 0;
    while i < 8
        invariant
            0 <= i <= 8,
            out@ + le_bytes(v as nat, (8 - i) as nat) == old(out)@ + le_bytes(x as nat, 8),
        decreases 8 - i,
    {
        let ghost before = out@;
        let ghost low = (v % 256) as u8;
        let ghost rest = le_bytes((v / 256) as nat, (8 - i - 1) as nat);
        assert(le_bytes(v as nat, (8 - i) as nat) == seq![(v % 256) as u8] + rest);
        out.push((v % 256) as u8);
        v = v / 256;
        i += 1;
        assert(out@ + rest =~= before + (seq![low] + rest));
    }
    assert(out@ + le_bytes(v as nat, 0) =~= out@);
}

/// The first eight bytes of `digest` as a little-endian integer; `None`
/// when the digest is shorter than eight bytes.
pub fn digest_prefix(digest: &Vec<u8>) -> (r: Option<u64>)
    ensures
        r == prefix_u64(digest@),
{
    if digest.len() < 8 {
        return None;
    }
    let mut acc: u64 = 0;
    let mut i: usize = 8;
    while i > 0
        invariant
            0 <= i <= 8,
            digest@.len() >= 8,
            acc as nat == le_value(digest@.subrange(i as int, 8)),
        decreases i,
    {
        i -= 1;
        let ghost tail = digest@.subrange(i + 1, 8);
        let ghost s = digest@.subrange(i as int, 8);
        proof {
            assert(s.drop_first() =~= tail);
            lemma_le_value_bound(tail);
            lemma_pow256_mono(tail.len(), 7);
            reveal_with_fuel(pow256, 8);
        }
        acc = digest[i] as u64 + 256 * acc;
    }
    Some(acc)
}

/// The eight entropy bytes of the slot-hashes record: the start of the most
/// recent slot hash, at offset 12. `None` when the record is too short.
pub fn recent_entropy(slot_hashes: &Vec<u8>) -> (r: Option<[u8; 8]>)
    ensures
        r.is_some() == (slot_hashes@.len() >= 20),
        r.is_some() ==> r.unwrap()@ == slot_hashes@.subrange(12, 20),
{
    if slot_hashes.len() < 20 {
        return None;
    }
    let mut e: [u8; 8] = [0u8; 8];
    let mut i: usize = 0;
    while i < 8
        invariant
            0 <= i <= 8,
            slot_hashes@.len() >= 20,
            forall|j: int| 0 <= j < i ==> #[trigger] e@[j] == slot_hashes@[12 + j],
        decreases 8 - i,
    {
        e[i] = slot_hashes[12 + i];
        i += 1;
    }
    assert(e@ =~= slot_hashes@.subrange(12, 20));
    Some(e)
}

/// Derives the outcome of a draw: the SHA3-256 digest of the seed, the
/// timestamp and the entropy (seed and timestamp as eight little-endian bytes
/// each), whose first eight bytes are read as a little-endian integer.
pub fn derive_outcome(user_seed: u64, timestamp: i64, recent_entropy: [u8; 8]) -> (r: Option<u64>)
    ensures
        r == outcome_of(user_seed, timestamp, recent_entropy@),
        r.is_some(),
{
    let mut msg: Vec<u8> = Vec::new();
    push_le_u64(&mut msg, user_seed);
    push_le_u64(&mut msg, timestamp_bits(timestamp));
    let ghost head = msg@;
    let mut i: usize = 0;
    while i < 8
        invariant
            0 <= i <= 8,
            msg@ == head + recent_entropy@.subrange(0, i as int),
        decreases 8 - i,
    {
        msg.push(recent_entropy[i]);
        i += 1;
        assert(msg@ =~= head + recent_entropy@.subrange(0, i as int));
    }
    assert(msg@ =~= outcome_message(user_seed, timestamp, recent_entropy@));
    let digest = sha3_256(&msg);
    digest_prefix(&digest)
}

/// Two requests with the same seed, timestamp and entropy draw the same
/// outcome.
pub proof fn lemma_outcome_deterministic(
    seed1: u64,
    time1: i64,
    entropy1: Seq<u8>,
    seed2: u64,
    time2: i64,
    entropy2: Seq<u8>,
)
    requires
        seed1 == seed2,
        time1 == time2,
        entropy1 == entropy2,
    ensures
        outcome_of(seed1, time1, entropy1) == outcome_of(seed2, time2, entropy2),
{
}

proof fn lemma_pow256_positive(n: nat)
    ensures
        pow256(n) > 0,
    decreases n,
{
    if n > 0 {
        lemma_pow256_positive((n - 1) as nat);
    }
}

/// Reading back `n` little-endian bytes of `x` gives `x` modulo `256^n`.
pub proof fn lemma_le_bytes_value(x: nat, n: nat)
    ensures
        le_bytes(x, n).len() == n,
        le_value(le_bytes(x, n)) == x % pow256(n),
    decreases n,
{
    if n > 0 {
        let p = pow256((n - 1) as nat);
        lemma_le_bytes_value(x / 256, (n - 1) as nat);
        lemma_pow256_positive((n - 1) as nat);
        let s = le_bytes(x, n);
        assert(s.drop_first() =~= le_bytes(x / 256, (n - 1) as nat));
        vstd::arithmetic::div_mod::lemma_mod_breakdown(x as int, 256, p as int);
    }
}

/// Distinct seed, timestamp and entropy triples are hashed as distinct
/// messages: any change of an input changes the bytes the digest is taken of.
pub proof fn lemma_message_injective(
    seed1: u64,
    time1: i64,
    entropy1: Seq<u8>,
    seed2: u64,
    time2: i64,
    entropy2: Seq<u8>,
)
    requires
        outcome_message(seed1, time1, entropy1) == outcome_message(seed2, time2, entropy2),
    ensures
        seed1 == seed2,
        time1 == time2,
        entropy1 == entropy2,
{
    let m = outcome_message(seed1, time1, entropy1);
    lemma_le_bytes_value(seed1 as nat, 8);
    lemma_le_bytes_value(seed2 as nat, 8);
    lemma_le_bytes_value(twos_complement(time1), 8);
    lemma_le_bytes_value(twos_complement(time2), 8);
    reveal_with_fuel(pow256, 9);
    assert(pow256(8) == 0x1_0000_0000_0000_0000);
    vstd::arithmetic::div_mod::lemma_small_mod(seed1 as nat, pow256(8));
    vstd::arithmetic::div_mod::lemma_small_mod(seed2 as nat, pow256(8));
    assert(m.subrange(0, 8) =~= le_bytes(seed1 as nat, 8));
    assert(m.subrange(0, 8) =~= le_bytes(seed2 as nat, 8));
    assert(m.subrange(8, 16) =~= le_bytes(twos_complement(time1), 8));
    assert(m.subrange(8, 16) =~= le_bytes(twos_complement(time2), 8));
    assert(m.subrange(16, m.len() as int) =~= entropy1);
    assert(m.subrange(16, m.len() as int) =~= entropy2);
}

} // verus!
