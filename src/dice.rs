//! The dice game: a shared bankroll that admits bets up to a size its
//! balance can cover, and settles each bet against a derived outcome.
use crate::address::Address;
use crate::oracle::{derive_outcome, outcome_of, recent_entropy};
use vstd::prelude::*;

verus! {

/// The dice bankroll's parameters.
#[derive(Clone, Copy, Debug)]
pub struct Reserve {
    /// Divisor of the balance that bounds a single bet at 1x.
    pub ratio: u64,
    /// House edge in basis points.
    pub edge_bp: u64,
    /// Account that takes the house's cut of a lost bet.
    pub house: Address,
    /// Escrow account that holds the stakable funds.
    pub reserve_key: Address,
    pub bump: u8,
}

#[derive(Clone, Copy, Debug, PartialEq, Eq, Structural)]
pub enum ErrorCode {
    HashConversionFailed,
    BetTooBig,
    MismatchedHouse,
    MismatchedReserveKey,
    MismatchedSlotHashes,
}

/// The outcome of one bet.
#[derive(Clone, Copy, Debug)]
pub struct DiceRoll {
    /// The outcome reduced to basis points.
    pub roll_bp: u64,
    /// The win cutoff in basis points.
    pub threshold_bp: u64,
    pub won: bool,
    /// Paid from the escrow: to the player on a win, to the house on a loss.
    pub payout: u64,
}

pub open spec fn max_bet_spec(balance: u64, multiplier_bp: u64, ratio: u64) -> int {
    (balance * 10000) as int / (multiplier_bp * ratio) as int
}

pub open spec fn threshold_spec(multiplier_bp: u64, edge_bp: u64) -> int {
    100_000_000int / (multiplier_bp + edge_bp) as int
}

/// How a bet of `bet_size` at `multiplier_bp` settles against `outcome`.
pub open spec fn settlement(edge_bp: u64, multiplier_bp: u64, bet_size: u64, outcome: u64) -> DiceRoll {
    let roll = outcome % 10000;
    let threshold = threshold_spec(multiplier_bp, edge_bp);
    if roll < threshold {
        DiceRoll {
            roll_bp: roll,
            threshold_bp: threshold as u64,
            won: true,
            payout: ((bet_size * multiplier_bp) as int / 10000) as u64,
        }
    } else {
        DiceRoll { roll_bp: roll, threshold_bp: threshold as u64, won: false, payout: bet_size / 10 }
    }
}

/// Records the bankroll's parameters. Funding the escrow is the caller's
/// transfer.
pub fn setup_dice(edge_bp: u64, ratio: u64, house: Address, reserve_key: Address, bump: u8) -> (r: Reserve)
    ensures
        r.edge_bp == edge_bp,
        r.ratio == ratio,
        r.house == house,
        r.reserve_key == reserve_key,
        r.bump == bump,
{
    Reserve { ratio, edge_bp, house, reserve_key, bump }
}

/// The largest admissible bet: `balance * 10000 / (multiplier_bp * ratio)`,
/// truncated.
pub fn max_bet(balance: u64, multiplier_bp: u64, ratio: u64) -> (r: u64)
    requires
        multiplier_bp > 0,
        ratio > 0,
        max_bet_spec(balance, multiplier_bp, ratio) <= u64::MAX,
    ensures
        r == max_bet_spec(balance, multiplier_bp, ratio),
{
    proof {
        assert(balance * 10000 <= 0xffff_ffff_ffff_ffff * 10000) by (nonlinear_arith);
        assert(multiplier_bp * ratio <= 0xffff_ffff_ffff_ffff * 0xffff_ffff_ffff_ffff) by (nonlinear_arith)
            requires multiplier_bp <= 0xffff_ffff_ffff_ffff, ratio <= 0xffff_ffff_ffff_ffff;
        assert(multiplier_bp * ratio > 0) by (nonlinear_arith)
            requires multiplier_bp > 0, ratio > 0;
    }
    let num: u128 = balance as u128 * 10000;
    let den: u128 = multiplier_bp as u128 * ratio as u128;
    (num / den) as u64
}

/// Admits a bet no larger than `max_bet`.
pub fn validate_bet(bet_size: u64, max_bet: u64) -> (r: Result<(), ErrorCode>)
    ensures
        r == (if bet_size > max_bet { Err::<(), ErrorCode>(ErrorCode::BetTooBig) } else { Ok(()) }),
{
    if bet_size > max_bet {
        Err(ErrorCode::BetTooBig)
    } else {
        Ok(())
    }
}

/// The win cutoff in basis points: `10000 * 10000 / (multiplier_bp + edge_bp)`.
pub fn threshold_bp(multiplier_bp: u64, edge_bp: u64) -> (r: u64)
    requires
        multiplier_bp + edge_bp > 0,
    ensures
        r == threshold_spec(multiplier_bp, edge_bp),
{
    let den: u128 = multiplier_bp as u128 + edge_bp as u128;
    proof {
        assert(100_000_000int / (den as int) <= 100_000_000) by (nonlinear_arith)
            requires den >= 1;
    }
    (100_000_000u128 / den) as u64
}

/// Settles a bet against a drawn outcome: the bet wins when the outcome,
/// reduced to basis points, is below the threshold, and is then paid
/// `bet_size * multiplier_bp / 10000`; otherwise a tenth of it goes to the
/// house.
pub fn settle(edge_bp: u64, multiplier_bp: u64, bet_size: u64, outcome: u64) -> (r: DiceRoll)
    requires
        multiplier_bp + edge_bp > 0,
        (bet_size * multiplier_bp) as int / 10000 <= u64::MAX,
    ensures
        r == settlement(edge_bp, multiplier_bp, bet_size, outcome),
{
    let roll = outcome % 10000;
    let threshold = threshold_bp(multiplier_bp, edge_bp);
    if roll < threshold {
        proof {
            assert(bet_size * multiplier_bp <= 0xffff_ffff_ffff_ffff * 0xffff_ffff_ffff_ffff) by (nonlinear_arith)
                requires bet_size <= 0xffff_ffff_ffff_ffff, multiplier_bp <= 0xffff_ffff_ffff_ffff;
        }
        let payout: u128 = (bet_size as u128 * multiplier_bp as u128) / 10000;
        DiceRoll { roll_bp: roll, threshold_bp: threshold, won: true, payout: payout as u64 }
    } else {
        DiceRoll { roll_bp: roll, threshold_bp: threshold, won: false, payout: bet_size / 10 }
    }
}

/// An admitted bet's payout fits in the spendable balance.
proof fn lemma_admitted_payout(balance: u64, multiplier_bp: u64, ratio: u64, bet_size: u64)
    requires
        multiplier_bp > 0,
        ratio > 0,
        bet_size <= max_bet_spec(balance, multiplier_bp, ratio),
    ensures
        (bet_size * multiplier_bp) as int / 10000 <= balance,
{
    let num = (balance * 10000) as int;
    let den = (multiplier_bp * ratio) as int;
    assert(den > 0) by (nonlinear_arith)
        requires multiplier_bp > 0, ratio > 0, den == multiplier_bp * ratio;
    assert((num / den) * den <= num) by (nonlinear_arith)
        requires den > 0, num >= 0;
    assert(bet_size * den <= (num / den) * den) by (nonlinear_arith)
        requires bet_size <= num / den, den > 0;
    assert(bet_size * multiplier_bp <= bet_size * multiplier_bp * ratio) by (nonlinear_arith)
        requires ratio >= 1, bet_size >= 0, multiplier_bp >= 0;
    assert(bet_size * multiplier_bp * ratio == bet_size * den) by (nonlinear_arith)
        requires den == multiplier_bp * ratio;
    assert((bet_size * multiplier_bp) as int / 10000 <= num / 10000) by (nonlinear_arith)
        requires bet_size * multiplier_bp <= num;
    assert(num / 10000 == balance) by (nonlinear_arith)
        requires num == balance * 10000;
}

/// Places and settles one bet, with `house` and `escrow` the accounts the
/// request presents, which must be the reserve's own. The escrow holds `escrow_balance`, of which
/// `minimum_balance` must stay to keep the account alive; `slot_hashes` is
/// the recent-slot-hashes record whose newest hash supplies the entropy.
/// On success the player pays `bet_size` into the escrow, and the escrow pays
/// the returned payout to the player or to the house.
pub fn roll_dice(
    reserve: &Reserve,
    house: &Address,
    escrow: &Address,
    escrow_balance: u64,
    minimum_balance: u64,
    user_seed: u64,
    multiplier_bp: u64,
    bet_size: u64,
    timestamp: i64,
    slot_hashes: &Vec<u8>,
) -> (r: Result<DiceRoll, ErrorCode>)
    requires
        house.bytes@ == reserve.house.bytes@ && escrow.bytes@ == reserve.reserve_key.bytes@ ==> {
            &&& minimum_balance <= escrow_balance
            &&& multiplier_bp > 0
            &&& reserve.ratio > 0
            &&& max_bet_spec((escrow_balance - minimum_balance) as u64, multiplier_bp, reserve.ratio) <= u64::MAX
        },
    ensures
        r != Err::<DiceRoll, ErrorCode>(ErrorCode::HashConversionFailed),
        r == (if house.bytes@ != reserve.house.bytes@ {
            Err::<DiceRoll, ErrorCode>(ErrorCode::MismatchedHouse)
        } else if escrow.bytes@ != reserve.reserve_key.bytes@ {
            Err(ErrorCode::MismatchedReserveKey)
        } else if bet_size > max_bet_spec((escrow_balance - minimum_balance) as u64, multiplier_bp, reserve.ratio) {
            Err(ErrorCode::BetTooBig)
        } else if slot_hashes@.len() < 20 {
            Err(ErrorCode::MismatchedSlotHashes)
        } else {
            match outcome_of(user_seed, timestamp, slot_hashes@.subrange(12, 20)) {
                Some(outcome) => Ok(settlement(reserve.edge_bp, multiplier_bp, bet_size, outcome)),
                None => Err(ErrorCode::HashConversionFailed),
            }
        }),
{
    if !house.same(&reserve.house) {
        return Err(ErrorCode::MismatchedHouse);
    }
    if !escrow.same(&reserve.reserve_key) {
        return Err(ErrorCode::MismatchedReserveKey);
    }
    let spendable = escrow_balance - minimum_balance;
    let limit = max_bet(spendable, multiplier_bp, reserve.ratio);
    validate_bet(bet_size, limit)?;
    let entropy = match recent_entropy(slot_hashes) {
        Some(e) => e,
        None => {
            return Err(ErrorCode::MismatchedSlotHashes);
        },
    };
    let outcome = match derive_outcome(user_seed, timestamp, entropy) {
        Some(o) => o,
        None => {
            return Err(ErrorCode::HashConversionFailed);
        },
    };
    proof {
        lemma_admitted_payout(spendable, multiplier_bp, reserve.ratio, bet_size);
    }
    Ok(settle(reserve.edge_bp, multiplier_bp, bet_size, outcome))
}

/// The win cutoff never rises as the multiplier grows.
pub proof fn lemma_threshold_decreasing(multiplier1: u64, multiplier2: u64, edge_bp: u64)
    requires
        multiplier1 <= multiplier2,
        multiplier1 + edge_bp > 0,
    ensures
        threshold_spec(multiplier2, edge_bp) <= threshold_spec(multiplier1, edge_bp),
{
    vstd::arithmetic::div_mod::lemma_div_is_ordered_by_denominator(
        100_000_000,
        (multiplier1 + edge_bp) as int,
        (multiplier2 + edge_bp) as int,
    );
}

} // verus!
