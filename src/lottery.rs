//! The deposit-window lottery: configuration, rounds that deposits extend,
//! round closure with a drawn winning number, and claims.
use crate::address::Address;
use crate::oracle::{derive_outcome, outcome_of, recent_entropy, timestamp_bits, twos_complement};
use crate::window::{check_ticket, ticket_wins};
use vstd::prelude::*;

verus! {

/// A lottery's fixed parameters.
#[derive(Clone, Copy, Debug)]
pub struct LotteryConfig {
    pub lottery_num: u8,
    pub initial_duration: u64,
    pub duration_extension: u64,
    pub min_deposit: u64,
    pub burn_pct: u8,
    pub last_depositor_pct: u8,
    pub team_pct: u8,
    pub winner_pct: u8,
    pub burn_address: Address,
    pub burn_token: Address,
    pub team_address: Address,
}

/// One cycle of the lottery, from its first deposit to its winner.
#[derive(Clone, Copy, Debug)]
pub struct LotteryRound {
    pub lottery_num: u8,
    pub round_num: u32,
    pub tickets_bought: u64,
    pub start_time: u64,
    pub end_time: u64,
    pub winning_number: u64,
    pub previous_pot_size: u64,
    pub pot_size: u64,
    pub bump: u8,
    pub last_depositor: Address,
    pub winning_depositor: Address,
}

/// Counters over all rounds of a lottery.
#[derive(Clone, Copy, Debug)]
pub struct LotteryState {
    pub num_rounds: u32,
    pub tickets_bought: u64,
}

/// A deposit: the owner's claim on the slice `[window_start, window_end)` of
/// its round's pot.
#[derive(Clone, Copy, Debug)]
pub struct LotteryTicket {
    pub round_num: u32,
    pub user_ticket_num: u8,
    pub window_start: u64,
    pub window_end: u64,
    pub owner: Address,
    pub bump: u8,
}

#[derive(Clone, Copy, Debug, PartialEq, Eq, Structural)]
pub enum ErrorCode {
    LotteryNotEnded,
    BadPercentages,
    RoundAlreadyEnded,
    DepositTooSmall,
    NoBlockhash,
    HashConversionFailed,
    NotWinningTicket,
    RoundAlreadyClaimed,
    RoundAlreadyClosed,
}

/// The four shares add up to 90 and each is below 100.
pub open spec fn percentages_valid(burn_pct: u8, last_depositor_pct: u8, team_pct: u8, winner_pct: u8) -> bool {
    burn_pct + last_depositor_pct + team_pct + winner_pct == 90 && burn_pct < 100
        && last_depositor_pct < 100 && team_pct < 100 && winner_pct < 100
}

impl LotteryConfig {
    pub open spec fn wf(&self) -> bool {
        percentages_valid(self.burn_pct, self.last_depositor_pct, self.team_pct, self.winner_pct)
    }
}

/// A round as it is opened: no tickets, no winner, running from `start_time`
/// for `initial_duration`.
pub open spec fn opened_round(
    r: LotteryRound,
    lottery_num: u8,
    round_num: u32,
    previous_pot_size: u64,
    initial_duration: u64,
    pot_size: u64,
    start_time: u64,
    bump: u8,
) -> bool {
    &&& r.lottery_num == lottery_num
    &&& r.round_num == round_num
    &&& r.tickets_bought == 0
    &&& r.start_time == start_time
    &&& r.end_time == start_time + initial_duration
    &&& r.winning_number == 0
    &&& r.previous_pot_size == previous_pot_size
    &&& r.pot_size == pot_size
    &&& r.bump == bump
    &&& r.last_depositor.is_zero_spec()
    &&& r.winning_depositor.is_zero_spec()
}

/// How one deposit of `amount` takes the next slice of the pot: the ticket's
/// window starts where the pot stood and the pot grows by the amount.
pub open spec fn window_assigned(before: LotteryRound, after: LotteryRound, ticket: LotteryTicket, amount: u64) -> bool {
    &&& ticket.round_num == before.round_num
    &&& ticket.window_start == before.pot_size
    &&& ticket.window_end == before.pot_size + amount
    &&& after.pot_size == before.pot_size + amount
    &&& after.round_num == before.round_num
}

/// Opens a round at time `now` that runs for `initial_duration`.
pub fn initialize_round(
    lottery_num: u8,
    round_num: u32,
    previous_pot_size: u64,
    initial_duration: u64,
    pot_size: u64,
    now: i64,
    bump: u8,
) -> (r: LotteryRound)
    requires
        twos_complement(now) + initial_duration <= u64::MAX,
    ensures
        opened_round(r, lottery_num, round_num, previous_pot_size, initial_duration, pot_size, twos_complement(now) as u64, bump),
{
    let start_time = timestamp_bits(now);
    LotteryRound {
        lottery_num,
        round_num,
        tickets_bought: 0,
        start_time,
        end_time: start_time + initial_duration,
        winning_number: 0,
        previous_pot_size,
        pot_size,
        bump,
        last_depositor: Address::zero(),
        winning_depositor: Address::zero(),
    }
}

/// Whether the four shares add up to 90 with each below 100.
pub fn percentages_ok(burn_pct: u8, last_depositor_pct: u8, team_pct: u8, winner_pct: u8) -> (r: bool)
    ensures
        r == percentages_valid(burn_pct, last_depositor_pct, team_pct, winner_pct),
{
    let sum: u64 = burn_pct as u64 + team_pct as u64 + winner_pct as u64 + last_depositor_pct as u64;
    sum == 90 && burn_pct < 100 && team_pct < 100 && winner_pct < 100 && last_depositor_pct < 100
}

/// Sets up a lottery: validates the shares, starts the counters at one
/// round and no tickets, and opens the first round at `now` with an empty pot.
pub fn setup_lottery(
    lottery_num: u8,
    initial_duration: u64,
    duration_extension: u64,
    min_deposit: u64,
    burn_pct: u8,
    last_depositor_pct: u8,
    team_pct: u8,
    winner_pct: u8,
    burn_address: Address,
    burn_token: Address,
    team_address: Address,
    now: i64,
    round_bump: u8,
) -> (r: Result<(LotteryConfig, LotteryState, LotteryRound), ErrorCode>)
    requires
        percentages_valid(burn_pct, last_depositor_pct, team_pct, winner_pct) ==> twos_complement(now)
            + initial_duration <= u64::MAX,
    ensures
        !percentages_valid(burn_pct, last_depositor_pct, team_pct, winner_pct) ==> r == Err::<
            (LotteryConfig, LotteryState, LotteryRound),
            ErrorCode,
        >(ErrorCode::BadPercentages),
        percentages_valid(burn_pct, last_depositor_pct, team_pct, winner_pct) ==> r.is_ok(),
        r matches Ok((config, state, round)) ==> {
            &&& config == (LotteryConfig {
                lottery_num,
                initial_duration,
                duration_extension,
                min_deposit,
                burn_pct,
                last_depositor_pct,
                team_pct,
                winner_pct,
                burn_address,
                burn_token,
                team_address,
            })
            &&& config.wf()
            &&& state == (LotteryState { num_rounds: 1, tickets_bought: 0 })
            &&& opened_round(round, lottery_num, 1, 0, initial_duration, 0, twos_complement(now) as u64, round_bump)
        },
{
    if !percentages_ok(burn_pct, last_depositor_pct, team_pct, winner_pct) {
        return Err(ErrorCode::BadPercentages);
    }
    let config = LotteryConfig {
        lottery_num,
        initial_duration,
        duration_extension,
        min_deposit,
        burn_pct,
        last_depositor_pct,
        team_pct,
        winner_pct,
        burn_address,
        burn_token,
        team_address,
    };
    let state = LotteryState { num_rounds: 1, tickets_bought: 0 };
    let first_round = initialize_round(lottery_num, 1, 0, initial_duration, 0, now, round_bump);
    Ok((config, state, first_round))
}

/// Buys a ticket of `amount` at time `now`: the ticket's window is the next
/// `amount` of the pot, the round's end moves out by the configured
/// extension, and both ticket counters grow by one. The caller moves
/// `amount` from the owner to the round's escrow.
pub fn buy_ticket(
    round: &mut LotteryRound,
    config: &LotteryConfig,
    state: &mut LotteryState,
    owner: Address,
    amount: u64,
    user_ticket_num: u8,
    now: i64,
    ticket_bump: u8,
) -> (r: Result<LotteryTicket, ErrorCode>)
    requires
        twos_complement(now) < old(round).end_time && config.min_deposit <= amount ==> {
            &&& old(round).pot_size + amount <= u64::MAX
            &&& old(round).tickets_bought < u64::MAX
            &&& old(round).end_time + config.duration_extension <= u64::MAX
            &&& old(state).tickets_bought < u64::MAX
        },
    ensures
        twos_complement(now) >= old(round).end_time ==> r == Err::<LotteryTicket, ErrorCode>(
            ErrorCode::RoundAlreadyEnded,
        ),
        twos_complement(now) < old(round).end_time && amount < config.min_deposit ==> r == Err::<
            LotteryTicket,
            ErrorCode,
        >(ErrorCode::DepositTooSmall),
        twos_complement(now) < old(round).end_time && config.min_deposit <= amount ==> r.is_ok(),
        r.is_err() ==> *final(round) == *old(round) && *final(state) == *old(state),
        r matches Ok(ticket) ==> {
            &&& window_assigned(*old(round), *final(round), ticket, amount)
            &&& ticket.owner == owner
            &&& ticket.user_ticket_num == user_ticket_num
            &&& ticket.bump == ticket_bump
            &&& *final(round) == (LotteryRound {
                tickets_bought: (old(round).tickets_bought + 1) as u64,
                pot_size: (old(round).pot_size + amount) as u64,
                last_depositor: owner,
                end_time: (old(round).end_time + config.duration_extension) as u64,
                ..*old(round)
            })
            &&& *final(state) == (LotteryState {
                tickets_bought: (old(state).tickets_bought + 1) as u64,
                ..*old(state)
            })
        },
{
    if timestamp_bits(now) >= round.end_time {
        return Err(ErrorCode::RoundAlreadyEnded);
    }
    if amount < config.min_deposit {
        return Err(ErrorCode::DepositTooSmall);
    }
    let ticket = LotteryTicket {
        round_num: round.round_num,
        user_ticket_num,
        window_start: round.pot_size,
        window_end: round.pot_size + amount,
        owner,
        bump: ticket_bump,
    };
    state.tickets_bought = state.tickets_bought + 1;
    round.pot_size = round.pot_size + amount;
    round.tickets_bought = round.tickets_bought + 1;
    round.last_depositor = owner;
    round.end_time = round.end_time + config.duration_extension;
    Ok(ticket)
}

/// Closes a round whose end has passed and that is still the lottery's
/// newest, so that each round is closed once: draws its winning number from the
/// seed, the time and the newest slot hash, reduced modulo the round's ticket
/// count, and opens the next round with a tenth of this round's pot carried
/// over.
pub fn close_round(
    previous_round: &mut LotteryRound,
    state: &mut LotteryState,
    config: &LotteryConfig,
    user_seed: u64,
    now: i64,
    slot_hashes: &Vec<u8>,
    next_bump: u8,
) -> (r: Result<LotteryRound, ErrorCode>)
    requires
        twos_complement(now) >= old(previous_round).end_time && old(state).num_rounds == old(
            previous_round,
        ).round_num ==> {
            &&& old(previous_round).tickets_bought > 0
            &&& old(state).num_rounds < u32::MAX
            &&& twos_complement(now) + config.initial_duration <= u64::MAX
        },
    ensures
        twos_complement(now) < old(previous_round).end_time ==> r == Err::<LotteryRound, ErrorCode>(
            ErrorCode::LotteryNotEnded,
        ),
        twos_complement(now) >= old(previous_round).end_time && old(state).num_rounds != old(
            previous_round,
        ).round_num ==> r == Err::<LotteryRound, ErrorCode>(ErrorCode::RoundAlreadyClosed),
        twos_complement(now) >= old(previous_round).end_time && old(state).num_rounds == old(
            previous_round,
        ).round_num && slot_hashes@.len() < 20 ==> r == Err::<LotteryRound, ErrorCode>(
            ErrorCode::NoBlockhash,
        ),
        twos_complement(now) >= old(previous_round).end_time && old(state).num_rounds == old(
            previous_round,
        ).round_num && slot_hashes@.len() >= 20 ==> match outcome_of(
            user_seed,
            now,
            slot_hashes@.subrange(12, 20),
        ) {
            None => r == Err::<LotteryRound, ErrorCode>(ErrorCode::HashConversionFailed),
            Some(outcome) => r.is_ok() && final(previous_round).winning_number == outcome
                % old(previous_round).tickets_bought,
        },
        r.is_err() ==> *final(previous_round) == *old(previous_round) && *final(state) == *old(state),
        r matches Ok(next) ==> {
            &&& *final(previous_round) == (LotteryRound {
                winning_number: final(previous_round).winning_number,
                ..*old(previous_round)
            })
            &&& final(previous_round).winning_number < old(previous_round).tickets_bought
            &&& next.round_num == old(previous_round).round_num + 1
            &&& final(state).num_rounds == next.round_num
            &&& final(state).num_rounds != final(previous_round).round_num
            &&& *final(state) == (LotteryState {
                num_rounds: (old(state).num_rounds + 1) as u32,
                ..*old(state)
            })
            &&& opened_round(
                next,
                config.lottery_num,
                (old(state).num_rounds + 1) as u32,
                old(previous_round).pot_size,
                config.initial_duration,
                old(previous_round).pot_size / 10,
                twos_complement(now) as u64,
                next_bump,
            )
        },
{
    if timestamp_bits(now) < previous_round.end_time {
        return Err(ErrorCode::LotteryNotEnded);
    }
    if state.num_rounds != previous_round.round_num {
        return Err(ErrorCode::RoundAlreadyClosed);
    }
    let entropy = match recent_entropy(slot_hashes) {
        Some(e) => e,
        None => {
            return Err(ErrorCode::NoBlockhash);
        },
    };
    let outcome = match derive_outcome(user_seed, now, entropy) {
        Some(o) => o,
        None => {
            return Err(ErrorCode::HashConversionFailed);
        },
    };
    previous_round.winning_number = outcome % previous_round.tickets_bought;
    state.num_rounds = state.num_rounds + 1;
    let next = initialize_round(
        config.lottery_num,
        state.num_rounds,
        previous_round.pot_size,
        config.initial_duration,
        previous_round.pot_size / 10,
        now,
        next_bump,
    );
    Ok(next)
}

/// Claims a round for a ticket: the ticket must be from this round or an
/// earlier one, its window rescaled by the rounds since must hold the round's
/// winning number, and the round must not be claimed yet. On success the
/// ticket's owner becomes the round's winner.
pub fn claim_winnings(ticket: &LotteryTicket, round: &mut LotteryRound) -> (r: Result<(), ErrorCode>)
    ensures
        r == (if ticket.round_num > old(round).round_num || !ticket_wins(
            *ticket,
            old(round).winning_number,
            (old(round).round_num - ticket.round_num) as nat,
        ) {
            Err::<(), ErrorCode>(ErrorCode::NotWinningTicket)
        } else if !old(round).winning_depositor.is_zero_spec() {
            Err(ErrorCode::RoundAlreadyClaimed)
        } else {
            Ok(())
        }),
        r.is_err() ==> *final(round) == *old(round),
        r.is_ok() ==> *final(round) == (LotteryRound { winning_depositor: ticket.owner, ..*old(round) }),
{
    if ticket.round_num > round.round_num {
        return Err(ErrorCode::NotWinningTicket);
    }
    if !check_ticket(ticket, round.winning_number, round.round_num - ticket.round_num) {
        return Err(ErrorCode::NotWinningTicket);
    }
    if !round.winning_depositor.is_zero() {
        return Err(ErrorCode::RoundAlreadyClaimed);
    }
    round.winning_depositor = ticket.owner;
    Ok(())
}

/// Whether some ticket's window holds the point `x`.
pub open spec fn in_some_window(tickets: Seq<LotteryTicket>, x: int) -> bool {
    exists|i: int| 0 <= i < tickets.len() && tickets[i].window_start <= x < #[trigger] tickets[i].window_end
}

/// Pots only grow along a run of deposits.
proof fn lemma_pot_grows(rounds: Seq<LotteryRound>, tickets: Seq<LotteryTicket>, amounts: Seq<u64>, i: int, j: int)
    requires
        rounds.len() == tickets.len() + 1,
        amounts.len() == tickets.len(),
        forall|k: int| 0 <= k < tickets.len() ==> window_assigned(#[trigger] rounds[k], rounds[k + 1], tickets[k], amounts[k]),
        0 <= i <= j < rounds.len(),
    ensures
        rounds[i].pot_size <= rounds[j].pot_size,
    decreases j - i,
{
    if i < j {
        lemma_pot_grows(rounds, tickets, amounts, i, j - 1);
        assert(window_assigned(rounds[j - 1], rounds[j], tickets[j - 1], amounts[j - 1]));
    }
}

/// Every point of the pot's growth over the first `n` deposits lies in one of
/// their windows.
proof fn lemma_windows_cover(rounds: Seq<LotteryRound>, tickets: Seq<LotteryTicket>, amounts: Seq<u64>, n: int, x: int)
    requires
        rounds.len() == tickets.len() + 1,
        amounts.len() == tickets.len(),
        forall|k: int| 0 <= k < tickets.len() ==> window_assigned(#[trigger] rounds[k], rounds[k + 1], tickets[k], amounts[k]),
        0 <= n <= tickets.len(),
        rounds[0].pot_size <= x < rounds[n].pot_size,
    ensures
        exists|i: int| 0 <= i < n && tickets[i].window_start <= x < #[trigger] tickets[i].window_end,
    decreases n,
{
    assert(n > 0);
    assert(window_assigned(rounds[n - 1], rounds[n], tickets[n - 1], amounts[n - 1]));
    if x < rounds[n - 1].pot_size {
        lemma_windows_cover(rounds, tickets, amounts, n - 1, x);
        let i = choose|i: int| 0 <= i < n - 1 && tickets[i].window_start <= x < #[trigger] tickets[i].window_end;
        assert(0 <= i < n && tickets[i].window_start <= x < tickets[i].window_end);
    } else {
        assert(tickets[n - 1].window_start <= x < tickets[n - 1].window_end);
    }
}

/// Deposits made one after another in a round get windows that never
/// overlap, follow each other in deposit order without gaps, and together
/// cover exactly the pot's growth, from where the pot stood before the first
/// deposit to where it stands after the last. A round opened with an empty
/// pot is thus tiled from zero.
pub proof fn lemma_windows_tile(rounds: Seq<LotteryRound>, tickets: Seq<LotteryTicket>, amounts: Seq<u64>)
    requires
        rounds.len() == tickets.len() + 1,
        amounts.len() == tickets.len(),
        forall|k: int| 0 <= k < tickets.len() ==> window_assigned(#[trigger] rounds[k], rounds[k + 1], tickets[k], amounts[k]),
    ensures
        forall|i: int| 0 <= i < tickets.len() ==> #[trigger] tickets[i].round_num == rounds[0].round_num,
        forall|i: int, j: int|
            0 <= i < j < tickets.len() ==> #[trigger] tickets[i].window_end <= #[trigger] tickets[j].window_start,
        forall|i: int| 0 <= i < tickets.len() - 1 ==> #[trigger] tickets[i].window_end == tickets[i + 1].window_start,
        tickets.len() > 0 ==> tickets[0].window_start == rounds[0].pot_size && tickets[tickets.len() - 1].window_end
            == rounds[tickets.len() as int].pot_size,
        forall|x: int|
            rounds[0].pot_size <= x < rounds[tickets.len() as int].pot_size ==> #[trigger] in_some_window(tickets, x),
{
    let n = tickets.len() as int;
    assert forall|i: int| 0 <= i < n implies #[trigger] tickets[i].round_num == rounds[0].round_num by {
        assert forall|k: int| 0 <= k <= i implies #[trigger] rounds[k].round_num == rounds[0].round_num by {
            lemma_same_round(rounds, tickets, amounts, k);
        }
        assert(window_assigned(rounds[i], rounds[i + 1], tickets[i], amounts[i]));
    }
    assert forall|i: int, j: int| 0 <= i < j < n implies #[trigger] tickets[i].window_end
        <= #[trigger] tickets[j].window_start by {
        assert(window_assigned(rounds[i], rounds[i + 1], tickets[i], amounts[i]));
        assert(window_assigned(rounds[j], rounds[j + 1], tickets[j], amounts[j]));
        lemma_pot_grows(rounds, tickets, amounts, i + 1, j);
    }
    assert forall|i: int| 0 <= i < n - 1 implies #[trigger] tickets[i].window_end == tickets[i + 1].window_start by {
        assert(window_assigned(rounds[i], rounds[i + 1], tickets[i], amounts[i]));
        assert(window_assigned(rounds[i + 1], rounds[i + 2], tickets[i + 1], amounts[i + 1]));
    }
    if n > 0 {
        assert(window_assigned(rounds[0], rounds[1], tickets[0], amounts[0]));
        assert(window_assigned(rounds[n - 1], rounds[n], tickets[n - 1], amounts[n - 1]));
    }
    assert forall|x: int| rounds[0].pot_size <= x < rounds[n].pot_size implies #[trigger] in_some_window(tickets, x) by {
        lemma_windows_cover(rounds, tickets, amounts, n, x);
    }
}

proof fn lemma_same_round(rounds: Seq<LotteryRound>, tickets: Seq<LotteryTicket>, amounts: Seq<u64>, k: int)
    requires
        rounds.len() == tickets.len() + 1,
        amounts.len() == tickets.len(),
        forall|m: int| 0 <= m < tickets.len() ==> window_assigned(#[trigger] rounds[m], rounds[m + 1], tickets[m], amounts[m]),
        0 <= k < rounds.len(),
    ensures
        rounds[k].round_num == rounds[0].round_num,
    decreases k,
{
    if k > 0 {
        lemma_same_round(rounds, tickets, amounts, k - 1);
        assert(window_assigned(rounds[k - 1], rounds[k], tickets[k - 1], amounts[k - 1]));
    }
}

/// A ticket wins, in the round it was bought in, exactly when the winning
/// number falls within the deposit it made.
pub proof fn lemma_bought_ticket_wins(
    before: LotteryRound,
    after: LotteryRound,
    ticket: LotteryTicket,
    amount: u64,
    winning_number: u64,
)
    requires
        window_assigned(before, after, ticket, amount),
    ensures
        ticket_wins(ticket, winning_number, 0) == (before.pot_size <= winning_number < before.pot_size + amount),
{
    vstd::arithmetic::power::lemma_pow0(10);
}

} // verus!
