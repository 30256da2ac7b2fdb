//! Ticket windows: the half-open slices of a round's pot that deposits
//! claim, and the decimal rescaling that checks a ticket against a winning
//! number drawn rounds after its purchase.
use crate::lottery::LotteryTicket;
use vstd::arithmetic::div_mod::lemma_div_denominator;
use vstd::arithmetic::power::{lemma_pow1, lemma_pow_adds, lemma_pow_positive, pow};
use vstd::prelude::*;

verus! {

/// `x` scaled down by `10^rounds_past`, truncated.
pub open spec fn scaled(x: u64, rounds_past: nat) -> int {
    x as int / pow(10, rounds_past)
}

/// Whether the ticket's window, scaled down by `10^rounds_past`, holds the
/// winning number.
pub open spec fn ticket_wins(ticket: LotteryTicket, winning_number: u64, rounds_past: nat) -> bool {
    scaled(ticket.window_start, rounds_past) <= winning_number && winning_number < scaled(
        ticket.window_end,
        rounds_past,
    )
}

proof fn lemma_scaled_step(x: u64, k: nat)
    ensures
        scaled(x, k + 1) == scaled(x, k) / 10,
        scaled(x, k) >= 0,
{
    lemma_pow_positive(10, k);
    lemma_pow_adds(10, k, 1);
    lemma_pow1(10);
    lemma_div_denominator(x as int, pow(10, k), 10);
    vstd::arithmetic::div_mod::lemma_div_pos_is_pos(x as int, pow(10, k));
}

proof fn lemma_scaled_stays_zero(x: u64, k: nat, m: nat)
    requires
        k <= m,
        scaled(x, k) == 0,
    ensures
        scaled(x, m) == 0,
    decreases m - k,
{
    if k < m {
        lemma_scaled_stays_zero(x, k, (m - 1) as nat);
        lemma_scaled_step(x, (m - 1) as nat);
    }
}

/// Whether the ticket's window, scaled down by `10^rounds_past` with
/// truncation, holds `winning_number`.
pub fn check_ticket(ticket: &LotteryTicket, winning_number: u64, rounds_past: u32) -> (r: bool)
    ensures
        r == ticket_wins(*ticket, winning_number, rounds_past as nat),
{
    let mut start: u64 = ticket.window_start;
    let mut end: u64 = ticket.window_end;
    let mut k: u32 = 0;
    proof {
        reveal_with_fuel(pow, 1);
    }
    while k < rounds_past && (start > 0 || end > 0)
        invariant
            k <= rounds_past,
            start == scaled(ticket.window_start, k as nat),
            end == scaled(ticket.window_end, k as nat),
        decreases rounds_past - k,
    {
        proof {
            lemma_scaled_step(ticket.window_start, k as nat);
            lemma_scaled_step(ticket.window_end, k as nat);
        }
        start = start / 10;
        end = end / 10;
        k += 1;
    }
    proof {
        if k < rounds_past {
            lemma_scaled_stays_zero(ticket.window_start, k as nat, rounds_past as nat);
            lemma_scaled_stays_zero(ticket.window_end, k as nat, rounds_past as nat);
        }
    }
    start <= winning_number && winning_number < end
}

/// Each further round of rescaling leaves a window no wider than before, and
/// a well-formed window stays well-formed.
pub proof fn lemma_window_shrinks(ticket: LotteryTicket, rounds_past: nat)
    requires
        ticket.window_start <= ticket.window_end,
    ensures
        scaled(ticket.window_start, rounds_past) <= scaled(ticket.window_end, rounds_past),
        scaled(ticket.window_end, rounds_past + 1) - scaled(ticket.window_start, rounds_past + 1)
            <= scaled(ticket.window_end, rounds_past) - scaled(ticket.window_start, rounds_past),
{
    lemma_pow_positive(10, rounds_past);
    vstd::arithmetic::div_mod::lemma_div_is_ordered(
        ticket.window_start as int,
        ticket.window_end as int,
        pow(10, rounds_past),
    );
    lemma_scaled_step(ticket.window_start, rounds_past);
    lemma_scaled_step(ticket.window_end, rounds_past);
    let s = scaled(ticket.window_start, rounds_past);
    let e = scaled(ticket.window_end, rounds_past);
    assert(e / 10 - s / 10 <= e - s) by (nonlinear_arith)
        requires 0 <= s <= e;
}

} // verus!
