use crate::accumulator::{accrual, pending_of, StakeholderInfo, PRECISION};
use crate::direct_split::{
    floor_share, floor_shares_before, is_share_table, share_of, shares_before, Party,
};
use vstd::arithmetic::div_mod::lemma_div_multiples_vanish_quotient;
use vstd::prelude::*;

verus! {

/// The record of a stakeholder that holds `shares` basis points and settled
/// when the accumulator stood at `checkpoint`.
pub open spec fn stakeholder_at(shares: u32, checkpoint: i128) -> StakeholderInfo {
    StakeholderInfo { shares, accumulated_at_last_update: checkpoint, claimable_amount: 0 }
}

/// A deposit raises the accumulator by the amount scaled to a basis point,
/// without rounding.
pub proof fn lemma_accrual_is_exact(amount: int)
    ensures
        accrual(amount) == amount * 100_000_000,
{
    assert(amount * PRECISION == (amount * 100_000_000) * 10000) by (nonlinear_arith)
        requires
            PRECISION == 1_000_000_000_000,
    ;
    assert(((amount * 100_000_000) * 10000) / 10000 == amount * 100_000_000) by (nonlinear_arith);
}

/// After a single deposit, what has accrued to a stakeholder is the floor
/// share of the deposit that its basis points stand for: the scale of the
/// accumulator costs nothing.
pub proof fn theorem_pending_is_floor_share(shares: u32, checkpoint: i128, amount: int)
    requires
        amount >= 0,
    ensures
        pending_of(stakeholder_at(shares, checkpoint), checkpoint + accrual(amount)) == floor_share(
            amount,
            shares as int,
        ),
{
    lemma_accrual_is_exact(amount);
    let product: int = amount * shares;
    assert(product >= 0) by (nonlinear_arith)
        requires
            product == amount * shares,
            amount >= 0,
            shares >= 0,
    ;
    assert(shares * (amount * 100_000_000) == 100_000_000 * product) by (nonlinear_arith)
        requires
            product == amount * shares,
    ;
    lemma_div_multiples_vanish_quotient(100_000_000, product, 10000);
    assert(100_000_000 * 10000 == PRECISION);
    assert(100_000_000 * product >= 0);
}

/// The floor shares of a prefix fall short of the exact proportion by less
/// than one unit for each party.
pub proof fn lemma_floor_shares_lose_less_than_one_each(parties: Seq<Party>, amount: int, n: int)
    requires
        amount >= 0,
        0 <= n,
    ensures
        amount * shares_before(parties, n) - n * 10000 <= floor_shares_before(parties, amount, n)
            * 10000,
        n > 0 ==> amount * shares_before(parties, n) - n * 10000 < floor_shares_before(
            parties,
            amount,
            n,
        ) * 10000,
    decreases n,
{
    if n > 0 {
        lemma_floor_shares_lose_less_than_one_each(parties, amount, n - 1);
        let b = parties[n - 1].share_percentage as int;
        let before = shares_before(parties, n - 1);
        assert(amount * b - 10000 < ((amount * b) / 10000) * 10000) by (nonlinear_arith)
            requires
                amount >= 0,
                b >= 0,
        ;
        assert(amount * (before + b) == amount * before + amount * b) by (nonlinear_arith);
    }
}

/// Accumulator and direct split agree on a single deposit.
///
/// For a fixed set of parties and one deposit, what accrues to a stakeholder
/// under the accumulator is what the direct split credits to the party with
/// the same basis points, for every party but the last in table order. The
/// last party of the direct split also receives what rounding left of the
/// deposit: it is credited no less than what accrues under the accumulator,
/// and more by less than one unit for each party of the table.
pub proof fn theorem_single_deposit_agrees(
    parties: Seq<Party>,
    checkpoint: i128,
    amount: int,
    i: int,
)
    requires
        is_share_table(parties),
        amount >= 0,
        0 <= i < parties.len(),
    ensures
        ({
            let pending = pending_of(
                stakeholder_at(parties[i].share_percentage, checkpoint),
                checkpoint + accrual(amount),
            );
            &&& i < parties.len() - 1 ==> pending == share_of(parties, amount, i)
            &&& i == parties.len() - 1 ==> 0 <= share_of(parties, amount, i) - pending
                < parties.len()
        }),
{
    theorem_pending_is_floor_share(parties[i].share_percentage, checkpoint, amount);
    if i == parties.len() - 1 {
        let n = parties.len() as int;
        crate::direct_split::lemma_floor_shares_within_amount(parties, amount, n);
        lemma_floor_shares_lose_less_than_one_each(parties, amount, n);
        let all = floor_shares_before(parties, amount, n);
        assert(amount - all < n) by (nonlinear_arith)
            requires
                amount * 10000 - n * 10000 < all * 10000,
        ;
    }
}

} // verus!
