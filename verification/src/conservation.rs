use crate::direct_split::{
    after_deposit, claim_refusal, claimable_before, configure_check, credited, deposit_fits,
    enrolled,
    floor_share, floor_shares_before, is_share_table, lemma_claim_keeps_table,
    lemma_deposit_keeps_table, lemma_floor_shares_within_amount, received_before, settled,
    share_of, shares_paid_before, total_claimable, total_received, Party,
};
use crate::identity::Identity;
use vstd::prelude::*;

verus! {

/// A request made of a pool.
pub enum Operation {
    /// Split `amount` among the parties.
    Deposit { amount: i128 },
    /// Pay out what the party at `party_index` is owed, to `party`.
    Withdraw { party_index: u32, party: Identity },
}

/// Whether the pool accepts the request.
pub open spec fn accepted(parties: Seq<Party>, op: Operation) -> bool {
    match op {
        Operation::Deposit { amount } => amount > 0 && deposit_fits(parties, amount as int),
        Operation::Withdraw { party_index, party } => claim_refusal(
            parties,
            party_index as int,
            party,
        ) is None,
    }
}

/// The table after the request: changed as the request asks if the pool
/// accepts it, and unchanged if not.
pub open spec fn step(parties: Seq<Party>, op: Operation) -> Seq<Party> {
    if !accepted(parties, op) {
        parties
    } else {
        match op {
            Operation::Deposit { amount } => after_deposit(parties, amount as int),
            Operation::Withdraw { party_index, party } => parties.update(
                party_index as int,
                settled(parties[party_index as int]),
            ),
        }
    }
}

/// What the request brings into the pool.
pub open spec fn paid_in(parties: Seq<Party>, op: Operation) -> int {
    match op {
        Operation::Deposit { amount } => if accepted(parties, op) {
            amount as int
        } else {
            0
        },
        Operation::Withdraw { .. } => 0,
    }
}

/// What the request takes out of the pool.
pub open spec fn paid_out(parties: Seq<Party>, op: Operation) -> int {
    match op {
        Operation::Deposit { .. } => 0,
        Operation::Withdraw { party_index, .. } => if accepted(parties, op) {
            parties[party_index as int].claimable as int
        } else {
            0
        },
    }
}

/// The table after the requests, made one after the other.
pub open spec fn run(parties: Seq<Party>, ops: Seq<Operation>) -> Seq<Party>
    decreases ops.len(),
{
    if ops.len() == 0 {
        parties
    } else {
        step(run(parties, ops.drop_last()), ops.last())
    }
}

/// What the requests bring into the pool together.
pub open spec fn deposited(parties: Seq<Party>, ops: Seq<Operation>) -> int
    decreases ops.len(),
{
    if ops.len() == 0 {
        0
    } else {
        deposited(parties, ops.drop_last()) + paid_in(run(parties, ops.drop_last()), ops.last())
    }
}

/// What the requests take out of the pool together.
pub open spec fn withdrawn(parties: Seq<Party>, ops: Seq<Operation>) -> int
    decreases ops.len(),
{
    if ops.len() == 0 {
        0
    } else {
        withdrawn(parties, ops.drop_last()) + paid_out(run(parties, ops.drop_last()), ops.last())
    }
}

/// Before the last party, what the parties receive are their floor shares.
pub proof fn lemma_paid_before_last(parties: Seq<Party>, amount: int, n: int)
    requires
        0 <= n < parties.len(),
    ensures
        shares_paid_before(parties, amount, n) == floor_shares_before(parties, amount, n),
    decreases n,
{
    if n > 0 {
        lemma_paid_before_last(parties, amount, n - 1);
    }
}

/// The last party in table order receives the deposit less the floor shares
/// of all the others, so that what the parties receive adds up to the
/// deposit exactly. In a share table this is never less than its own floor
/// share.
pub proof fn theorem_last_party_receives_remainder(parties: Seq<Party>, amount: int)
    requires
        parties.len() > 0,
    ensures
        share_of(parties, amount, parties.len() - 1) == amount - shares_paid_before(
            parties,
            amount,
            parties.len() - 1,
        ),
        shares_paid_before(parties, amount, parties.len() - 1) == floor_shares_before(
            parties,
            amount,
            parties.len() - 1,
        ),
        shares_paid_before(parties, amount, parties.len() as int) == amount,
        is_share_table(parties) && amount >= 0 ==> share_of(parties, amount, parties.len() - 1)
            >= floor_share(amount, parties[parties.len() - 1].share_percentage as int),
{
    lemma_paid_before_last(parties, amount, parties.len() - 1);
    if is_share_table(parties) && amount >= 0 {
        lemma_floor_shares_within_amount(parties, amount, parties.len() as int);
    }
}

/// In a share table every party receives a non-negative part of a
/// non-negative deposit.
pub proof fn lemma_share_not_negative(parties: Seq<Party>, amount: int, i: int)
    requires
        is_share_table(parties),
        amount >= 0,
        0 <= i < parties.len(),
    ensures
        0 <= share_of(parties, amount, i),
{
    if i == parties.len() - 1 {
        lemma_floor_shares_within_amount(parties, amount, i);
    } else {
        let b = parties[i].share_percentage as int;
        assert(0 <= (amount * b) / 10000) by (nonlinear_arith)
            requires
                amount >= 0,
                b >= 0,
        ;
    }
}

/// An accepted deposit raises what the first `n` parties can claim by what
/// they receive of it.
pub proof fn lemma_deposit_raises_claimable(parties: Seq<Party>, amount: int, n: int)
    requires
        is_share_table(parties),
        amount > 0,
        deposit_fits(parties, amount),
        0 <= n <= parties.len(),
    ensures
        claimable_before(after_deposit(parties, amount), n) == claimable_before(parties, n)
            + shares_paid_before(parties, amount, n),
    decreases n,
{
    if n > 0 {
        lemma_deposit_raises_claimable(parties, amount, n - 1);
        lemma_share_not_negative(parties, amount, n - 1);
        let p = parties[n - 1];
        assert(after_deposit(parties, amount)[n - 1] == credited(p, share_of(parties, amount, n - 1)));
        assert(p.claimable + share_of(parties, amount, n - 1) <= i128::MAX);
    }
}

/// A withdrawal at `i` lowers what the first `n` parties can claim by what
/// the party at `i` could claim, if it is among them.
pub proof fn lemma_claim_lowers_claimable(parties: Seq<Party>, i: int, n: int)
    requires
        0 <= i < parties.len(),
        0 <= n <= parties.len(),
    ensures
        claimable_before(parties.update(i, settled(parties[i])), n) == claimable_before(
            parties,
            n,
        ) - if i < n {
            parties[i].claimable as int
        } else {
            0
        },
    decreases n,
{
    if n > 0 {
        lemma_claim_lowers_claimable(parties, i, n - 1);
    }
}

/// An accepted deposit raises the lifetime totals of the first `n` parties by
/// what they receive of it.
pub proof fn lemma_deposit_raises_received(parties: Seq<Party>, amount: int, n: int)
    requires
        is_share_table(parties),
        amount > 0,
        deposit_fits(parties, amount),
        0 <= n <= parties.len(),
    ensures
        received_before(after_deposit(parties, amount), n) == received_before(parties, n)
            + shares_paid_before(parties, amount, n),
    decreases n,
{
    if n > 0 {
        lemma_deposit_raises_received(parties, amount, n - 1);
        lemma_share_not_negative(parties, amount, n - 1);
        let p = parties[n - 1];
        assert(after_deposit(parties, amount)[n - 1] == credited(p, share_of(parties, amount, n - 1)));
        assert(p.total_received + share_of(parties, amount, n - 1) <= i128::MAX);
    }
}

/// A withdrawal leaves the lifetime totals of the first `n` parties as they
/// are.
pub proof fn lemma_claim_keeps_received(parties: Seq<Party>, i: int, n: int)
    requires
        0 <= i < parties.len(),
        0 <= n <= parties.len(),
    ensures
        received_before(parties.update(i, settled(parties[i])), n) == received_before(parties, n),
    decreases n,
{
    if n > 0 {
        lemma_claim_keeps_received(parties, i, n - 1);
    }
}

/// One request keeps a share table a share table, and changes what its
/// parties can claim together by exactly what it brings in less what it
/// takes out.
pub proof fn theorem_step_conserves(parties: Seq<Party>, op: Operation)
    requires
        is_share_table(parties),
    ensures
        is_share_table(step(parties, op)),
        total_claimable(step(parties, op)) == total_claimable(parties) + paid_in(parties, op)
            - paid_out(parties, op),
        total_received(step(parties, op)) == total_received(parties) + paid_in(parties, op),
        !accepted(parties, op) ==> step(parties, op) == parties,
{
    if accepted(parties, op) {
        match op {
            Operation::Deposit { amount } => {
                lemma_deposit_keeps_table(parties, amount as int);
                lemma_deposit_raises_claimable(parties, amount as int, parties.len() as int);
                lemma_deposit_raises_received(parties, amount as int, parties.len() as int);
                theorem_last_party_receives_remainder(parties, amount as int);
            },
            Operation::Withdraw { party_index, party } => {
                lemma_claim_keeps_table(parties, party_index as int);
                lemma_claim_lowers_claimable(parties, party_index as int, parties.len() as int);
                lemma_claim_keeps_received(parties, party_index as int, parties.len() as int);
            },
        }
    }
}

/// Conservation: after any sequence of deposits and withdrawals, accepted or
/// refused, what the parties can claim together and what was paid out to them
/// is what they could claim at the start and what was deposited. Nothing is
/// created and nothing is lost to rounding. Their lifetime totals grow by
/// exactly what was deposited.
pub proof fn theorem_conservation(parties: Seq<Party>, ops: Seq<Operation>)
    requires
        is_share_table(parties),
    ensures
        is_share_table(run(parties, ops)),
        total_claimable(run(parties, ops)) + withdrawn(parties, ops) == total_claimable(parties)
            + deposited(parties, ops),
        total_received(run(parties, ops)) == total_received(parties) + deposited(parties, ops),
    decreases ops.len(),
{
    if ops.len() > 0 {
        theorem_conservation(parties, ops.drop_last());
        theorem_step_conserves(run(parties, ops.drop_last()), ops.last());
    }
}

/// Parties that have just entered a pool can claim nothing.
pub proof fn lemma_enrolled_claim_nothing(parties: Seq<Party>, n: int)
    requires
        0 <= n <= parties.len(),
    ensures
        claimable_before(parties.map_values(|p: Party| enrolled(p)), n) == 0,
    decreases n,
{
    if n > 0 {
        lemma_enrolled_claim_nothing(parties, n - 1);
    }
}

/// Conservation from setup on: in a pool that was set up with `parties`, what
/// the parties can claim together and what was paid out to them is, after any
/// sequence of requests, exactly what was deposited.
pub proof fn theorem_conservation_since_setup(parties: Seq<Party>, ops: Seq<Operation>)
    requires
        is_share_table(parties),
    ensures
        ({
            let table = parties.map_values(|p: Party| enrolled(p));
            total_claimable(run(table, ops)) + withdrawn(table, ops) == deposited(table, ops)
        }),
{
    let table = parties.map_values(|p: Party| enrolled(p));
    crate::direct_split::lemma_enrolled_is_table(parties);
    lemma_enrolled_claim_nothing(parties, parties.len() as int);
    theorem_conservation(table, ops);
}

/// No party of the table has a negative balance to claim.
pub open spec fn no_debts(parties: Seq<Party>) -> bool {
    forall|i: int| 0 <= i < parties.len() ==> (#[trigger] parties[i]).claimable >= 0
}

/// One request leaves no party with a negative balance, if none had one.
pub proof fn theorem_balances_stay_non_negative(parties: Seq<Party>, op: Operation)
    requires
        is_share_table(parties),
        no_debts(parties),
    ensures
        no_debts(step(parties, op)),
{
    if accepted(parties, op) {
        match op {
            Operation::Deposit { amount } => {
                assert forall|i: int| 0 <= i < parties.len() implies (#[trigger] after_deposit(
                    parties,
                    amount as int,
                )[i]).claimable >= 0 by {
                    lemma_share_not_negative(parties, amount as int, i);
                    assert(parties[i].claimable + share_of(parties, amount as int, i) <= i128::MAX);
                }
            },
            Operation::Withdraw { party_index, party } => {},
        }
    }
}

/// Where no party can claim anything and none has a negative balance, the
/// parties of every prefix can claim nothing together.
pub proof fn lemma_nothing_owed_is_zero(parties: Seq<Party>, n: int)
    requires
        0 <= n <= parties.len(),
        no_debts(parties),
        !crate::direct_split::owes(parties),
    ensures
        claimable_before(parties, n) == 0,
    decreases n,
{
    if n > 0 {
        lemma_nothing_owed_is_zero(parties, n - 1);
        assert(parties[n - 1].claimable <= 0);
    }
}

/// Setting up a pool again discards nothing: the request is accepted only
/// where the parties of the table that it replaces can claim nothing, and
/// those of the new table enter with nothing to claim. So what the parties
/// can claim together and what was paid out to them stays what was deposited,
/// across every setup.
pub proof fn theorem_setup_discards_nothing(stored: Seq<Party>, parties: Seq<Party>)
    requires
        no_debts(stored),
        configure_check(Some(stored), parties) is Ok,
    ensures
        total_claimable(stored) == 0,
        total_claimable(parties.map_values(|p: Party| enrolled(p))) == 0,
        is_share_table(parties.map_values(|p: Party| enrolled(p))),
        no_debts(parties.map_values(|p: Party| enrolled(p))),
{
    lemma_nothing_owed_is_zero(stored, stored.len() as int);
    lemma_enrolled_claim_nothing(parties, parties.len() as int);
    crate::direct_split::lemma_enrolled_is_table(parties);
}

} // verus!
