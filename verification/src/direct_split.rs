use crate::errors::MultiPartyPaymentError;
use crate::identity::Identity;
use crate::utils::checked_share;
use vstd::prelude::*;

verus! {

/// One party of a pool: who it is, its fixed allocation, and its balances.
#[derive(Copy, Clone, Debug)]
pub struct Party {
    pub address: Identity,
    /// Allocation in basis points (10000 = 100%).
    pub share_percentage: u32,
    /// Owed and not yet withdrawn.
    pub claimable: i128,
    /// Credited over the life of the pool.
    pub total_received: i128,
}

/// Basis points held together by the first `n` parties.
pub open spec fn shares_before(parties: Seq<Party>, n: int) -> int
    decreases n,
{
    if n <= 0 {
        0
    } else {
        shares_before(parties, n - 1) + parties[n - 1].share_percentage
    }
}

/// Basis points held by all parties together.
pub open spec fn share_total(parties: Seq<Party>) -> int {
    shares_before(parties, parties.len() as int)
}

/// A share table is a non-empty list of parties whose allocations add up to
/// exactly 10000 basis points.
pub open spec fn is_share_table(parties: Seq<Party>) -> bool {
    parties.len() > 0 && share_total(parties) == 10000
}

/// What the percentage formula gives for a non-negative amount:
/// `floor(amount * basis_points / 10000)`.
pub open spec fn floor_share(amount: int, basis_points: int) -> int {
    amount * basis_points / 10000
}

/// Sum of the floor shares of the first `n` parties.
pub open spec fn floor_shares_before(parties: Seq<Party>, amount: int, n: int) -> int
    decreases n,
{
    if n <= 0 {
        0
    } else {
        floor_shares_before(parties, amount, n - 1) + floor_share(
            amount,
            parties[n - 1].share_percentage as int,
        )
    }
}

/// What party `i` receives of a deposit of `amount`: its floor share, but for
/// the last party in table order, which receives all that the others leave.
pub open spec fn share_of(parties: Seq<Party>, amount: int, i: int) -> int {
    if i == parties.len() - 1 {
        amount - floor_shares_before(parties, amount, i)
    } else {
        floor_share(amount, parties[i].share_percentage as int)
    }
}

/// Sum of what the first `n` parties receive of a deposit of `amount`.
pub open spec fn shares_paid_before(parties: Seq<Party>, amount: int, n: int) -> int
    decreases n,
{
    if n <= 0 {
        0
    } else {
        shares_paid_before(parties, amount, n - 1) + share_of(parties, amount, n - 1)
    }
}

/// The party with `share` added to both of its balances.
pub open spec fn credited(party: Party, share: int) -> Party {
    Party {
        address: party.address,
        share_percentage: party.share_percentage,
        claimable: (party.claimable + share) as i128,
        total_received: (party.total_received + share) as i128,
    }
}

/// The table after a deposit of `amount` has been split among its parties.
pub open spec fn after_deposit(parties: Seq<Party>, amount: int) -> Seq<Party> {
    Seq::new(parties.len(), |i: int| credited(parties[i], share_of(parties, amount, i)))
}

/// Whether a deposit of `amount` can be split without leaving the range of
/// the amount type: the product with each allocation but the last, and both
/// balances of each party once credited.
pub open spec fn deposit_fits(parties: Seq<Party>, amount: int) -> bool {
    &&& forall|i: int|
        0 <= i < parties.len() - 1 ==> amount * #[trigger] parties[i].share_percentage
            <= i128::MAX
    &&& forall|i: int|
        0 <= i < parties.len() ==> (#[trigger] parties[i]).claimable + share_of(parties, amount, i)
            <= i128::MAX
    &&& forall|i: int|
        0 <= i < parties.len() ==> (#[trigger] parties[i]).total_received + share_of(
            parties,
            amount,
            i,
        ) <= i128::MAX
}

/// The party with nothing left to claim.
pub open spec fn settled(party: Party) -> Party {
    Party {
        address: party.address,
        share_percentage: party.share_percentage,
        claimable: 0,
        total_received: party.total_received,
    }
}

/// The party as it enters a pool: with its allocation and empty balances.
pub open spec fn enrolled(party: Party) -> Party {
    Party {
        address: party.address,
        share_percentage: party.share_percentage,
        claimable: 0,
        total_received: 0,
    }
}

/// Sum of the claimable balances of the first `n` parties.
pub open spec fn claimable_before(parties: Seq<Party>, n: int) -> int
    decreases n,
{
    if n <= 0 {
        0
    } else {
        claimable_before(parties, n - 1) + parties[n - 1].claimable
    }
}

/// Sum of the claimable balances of all parties.
pub open spec fn total_claimable(parties: Seq<Party>) -> int {
    claimable_before(parties, parties.len() as int)
}

/// Sum of the lifetime totals of the first `n` parties.
pub open spec fn received_before(parties: Seq<Party>, n: int) -> int
    decreases n,
{
    if n <= 0 {
        0
    } else {
        received_before(parties, n - 1) + parties[n - 1].total_received
    }
}

/// Sum of the lifetime totals of all parties.
pub open spec fn total_received(parties: Seq<Party>) -> int {
    received_before(parties, parties.len() as int)
}

/// The allocations of a prefix never exceed those of a longer prefix.
pub proof fn lemma_shares_before_monotone(parties: Seq<Party>, m: int, n: int)
    requires
        0 <= m <= n,
    ensures
        0 <= shares_before(parties, m) <= shares_before(parties, n),
    decreases n,
{
    if m < n {
        lemma_shares_before_monotone(parties, m, n - 1);
    } else if n > 0 {
        lemma_shares_before_monotone(parties, m - 1, n - 1);
    }
}

/// The floor shares of a prefix are non-negative and, taken together, no more
/// than the exact proportion of the amount that the prefix holds.
pub proof fn lemma_floor_shares_bounded(parties: Seq<Party>, amount: int, n: int)
    requires
        amount >= 0,
        0 <= n,
    ensures
        0 <= floor_shares_before(parties, amount, n),
        floor_shares_before(parties, amount, n) * 10000 <= amount * shares_before(parties, n),
    decreases n,
{
    if n > 0 {
        lemma_floor_shares_bounded(parties, amount, n - 1);
        let b = parties[n - 1].share_percentage as int;
        let before = shares_before(parties, n - 1);
        assert(0 <= (amount * b) / 10000 && ((amount * b) / 10000) * 10000 <= amount * b)
            by (nonlinear_arith)
            requires
                amount >= 0,
                b >= 0,
        ;
        assert(amount * (before + b) == amount * before + amount * b) by (nonlinear_arith);
    }
}

/// In a share table no prefix of floor shares exceeds the deposit.
pub proof fn lemma_floor_shares_within_amount(parties: Seq<Party>, amount: int, n: int)
    requires
        is_share_table(parties),
        amount >= 0,
        0 <= n <= parties.len(),
    ensures
        0 <= floor_shares_before(parties, amount, n) <= amount,
{
    lemma_floor_shares_bounded(parties, amount, n);
    lemma_shares_before_monotone(parties, n, parties.len() as int);
    let f = floor_shares_before(parties, amount, n);
    let s = shares_before(parties, n);
    assert(f <= amount) by (nonlinear_arith)
        requires
            f * 10000 <= amount * s,
            0 <= s <= 10000,
            amount >= 0,
    ;
}

/// What a request to set up a pool with `parties` comes to.
///
/// An empty list is invalid input, and so is one whose basis points leave the
/// range of their counter when added up; any other list must add up to
/// exactly 10000.
pub open spec fn table_check(parties: Seq<Party>) -> Result<(), MultiPartyPaymentError> {
    if parties.len() == 0 || share_total(parties) > u32::MAX {
        Err(MultiPartyPaymentError::InvalidInput)
    } else if share_total(parties) != 10000 {
        Err(MultiPartyPaymentError::InvalidShareTotal)
    } else {
        Ok(())
    }
}

/// Checks that `parties` can serve as a share table.
pub fn validate_parties(parties: &Vec<Party>) -> (res: Result<(), MultiPartyPaymentError>)
    ensures
        res == table_check(parties@),
        res is Ok <==> is_share_table(parties@),
{
    let n: usize = parties.len();
    if n == 0 {
        return Err(MultiPartyPaymentError::InvalidInput);
    }
    let mut total: u32 = 0;
    let mut i: usize = 0;
    while i < n
        invariant
            n == parties@.len(),
            i <= n,
            total == shares_before(parties@, i as int),
        decreases n - i,
    {
        match total.checked_add(parties[i].share_percentage) {
            Some(sum) => {
                total = sum;
            },
            None => {
                proof {
                    lemma_shares_before_monotone(parties@, i + 1, n as int);
                }
                return Err(MultiPartyPaymentError::InvalidInput);
            },
        }
        i += 1;
    }
    if total != 10000 {
        return Err(MultiPartyPaymentError::InvalidShareTotal);
    }
    Ok(())
}

/// The party at position `party_index` of the table.
pub fn get_party_by_index(parties: &Vec<Party>, party_index: u32) -> (res: Result<
    Party,
    MultiPartyPaymentError,
>)
    ensures
        match res {
            Ok(party) => party_index < parties@.len() && party == parties@[party_index as int],
            Err(e) => party_index >= parties@.len()
                && e == MultiPartyPaymentError::PartyIndexOutOfBounds,
        },
{
    let idx: usize = party_index as usize;
    if idx >= parties.len() {
        return Err(MultiPartyPaymentError::PartyIndexOutOfBounds);
    }
    Ok(parties[idx])
}

/// The parties as they enter a pool: each with its identity and allocation,
/// and with empty balances whatever the caller wrote into them.
pub fn enroll_parties(parties: &Vec<Party>) -> (table: Vec<Party>)
    ensures
        table@ == parties@.map_values(|p: Party| enrolled(p)),
{
    let n: usize = parties.len();
    let mut table: Vec<Party> = Vec::new();
    let mut i: usize = 0;
    while i < n
        invariant
            n == parties@.len(),
            i <= n,
            table@.len() == i,
            forall|j: int| 0 <= j < i ==> table@[j] == enrolled(parties@[j]),
        decreases n - i,
    {
        let p: Party = parties[i];
        table.push(
            Party {
                address: p.address,
                share_percentage: p.share_percentage,
                claimable: 0,
                total_received: 0,
            },
        );
        i += 1;
    }
    assert(table@ =~= parties@.map_values(|p: Party| enrolled(p)));
    table
}

/// Whether some party of the table is still owed something.
pub open spec fn owes(parties: Seq<Party>) -> bool {
    exists|i: int| 0 <= i < parties.len() && (#[trigger] parties[i]).claimable > 0
}

/// Whether some party of the table is still owed something.
pub fn has_outstanding(parties: &Vec<Party>) -> (owing: bool)
    ensures
        owing == owes(parties@),
{
    let n: usize = parties.len();
    let mut i: usize = 0;
    while i < n
        invariant
            n == parties@.len(),
            i <= n,
            forall|j: int| 0 <= j < i ==> (#[trigger] parties@[j]).claimable <= 0,
        decreases n - i,
    {
        if parties[i].claimable > 0 {
            return true;
        }
        i += 1;
    }
    false
}

/// The table that a pool holds, if it holds one, as contracts speak of it.
pub open spec fn stored_table(stored: Option<&Vec<Party>>) -> Option<Seq<Party>> {
    match stored {
        Some(table) => Some(table@),
        None => None,
    }
}

/// What a request to set up a pool with `parties` comes to, where the pool
/// holds `stored`.
///
/// A pool that still owes something to a party is not set up again: its
/// parties withdraw first. Otherwise the request is judged by its list.
pub open spec fn configure_check(stored: Option<Seq<Party>>, parties: Seq<Party>) -> Result<
    (),
    MultiPartyPaymentError,
> {
    if stored is Some && owes(stored->Some_0) {
        Err(MultiPartyPaymentError::InvalidInput)
    } else {
        table_check(parties)
    }
}

/// Sets up a pool that holds `stored` with `parties`, and returns its new
/// share table: the parties of the list with empty balances.
///
/// The request is refused while the pool owes something to a party, so that
/// no balance is ever reset, and for a list that is no share table.
pub fn configure(stored: Option<&Vec<Party>>, parties: &Vec<Party>) -> (res: Result<
    Vec<Party>,
    MultiPartyPaymentError,
>)
    ensures
        match res {
            Ok(table) => configure_check(stored_table(stored), parties@) is Ok && table@
                == parties@.map_values(|p: Party| enrolled(p)) && is_share_table(table@),
            Err(e) => configure_check(stored_table(stored), parties@) == Err::<
                (),
                MultiPartyPaymentError,
            >(e),
        },
{
    match stored {
        Some(table) => {
            if has_outstanding(table) {
                return Err(MultiPartyPaymentError::InvalidInput);
            }
        },
        None => {},
    }
    match validate_parties(parties) {
        Ok(()) => {},
        Err(e) => {
            return Err(e);
        },
    }
    proof {
        lemma_enrolled_is_table(parties@);
    }
    Ok(enroll_parties(parties))
}

/// What a deposit of `amount` into a pool that holds `parties` comes to: the
/// amount is checked first, then the table, then the arithmetic.
pub open spec fn split_check(parties: Seq<Party>, amount: int) -> Result<
    (),
    MultiPartyPaymentError,
> {
    if amount <= 0 {
        Err(MultiPartyPaymentError::InvalidInput)
    } else if !is_share_table(parties) {
        Err(MultiPartyPaymentError::PartiesNotSetup)
    } else if !deposit_fits(parties, amount) {
        Err(MultiPartyPaymentError::InvalidInput)
    } else {
        Ok(())
    }
}

/// Splits a deposit of `amount` among the parties of a pool.
///
/// Every party but the last is credited `floor(amount * basis_points / 10000)`;
/// the last is credited what the others leave, so that the credits add up to
/// `amount` exactly. Nothing is credited unless everything fits: a
/// non-positive amount or an overflow is invalid input, and a list that is no
/// share table is a pool that was not set up.
pub fn distribute(parties: &Vec<Party>, amount: i128) -> (res: Result<
    Vec<Party>,
    MultiPartyPaymentError,
>)
    ensures
        match res {
            Ok(updated) => split_check(parties@, amount as int) is Ok && updated@ == after_deposit(
                parties@,
                amount as int,
            ),
            Err(e) => split_check(parties@, amount as int) == Err::<(), MultiPartyPaymentError>(e),
        },
{
    if amount <= 0 {
        return Err(MultiPartyPaymentError::InvalidInput);
    }
    if validate_parties(parties).is_err() {
        return Err(MultiPartyPaymentError::PartiesNotSetup);
    }
    let n: usize = parties.len();
    let last: usize = n - 1;
    let mut updated: Vec<Party> = Vec::new();
    let mut allocated: i128 = 0;
    let mut i: usize = 0;
    while i < n
        invariant
            is_share_table(parties@),
            amount > 0,
            n == parties@.len(),
            last == n - 1,
            i <= n,
            i <= last ==> allocated == floor_shares_before(parties@, amount as int, i as int),
            0 <= allocated <= amount,
            updated@.len() == i,
            forall|j: int|
                0 <= j < i ==> updated@[j] == credited(
                    parties@[j],
                    share_of(parties@, amount as int, j),
                ),
            forall|j: int|
                0 <= j < i && j < last ==> amount * #[trigger] parties@[j].share_percentage
                    <= i128::MAX,
            forall|j: int|
                0 <= j < i ==> (#[trigger] parties@[j]).claimable + share_of(
                    parties@,
                    amount as int,
                    j,
                ) <= i128::MAX,
            forall|j: int|
                0 <= j < i ==> (#[trigger] parties@[j]).total_received + share_of(
                    parties@,
                    amount as int,
                    j,
                ) <= i128::MAX,
        decreases n - i,
    {
        let p: Party = parties[i];
        let share: i128 = if i == last {
            amount - allocated
        } else {
            match checked_share(amount, p.share_percentage) {
                Some(part) => part,
                None => {
                    assert(amount * parties@[i as int].share_percentage > i128::MAX) by (nonlinear_arith)
                        requires
                            amount > 0,
                            parties@[i as int].share_percentage >= 0,
                            !(i128::MIN <= amount * parties@[i as int].share_percentage
                                <= i128::MAX),
                    ;
                    return Err(MultiPartyPaymentError::InvalidInput);
                },
            }
        };
        assert(share == share_of(parties@, amount as int, i as int));
        proof {
            lemma_floor_shares_within_amount(parties@, amount as int, i as int);
            if i < last {
                lemma_floor_shares_within_amount(parties@, amount as int, i as int + 1);
            }
        }
        assert(share >= 0);
        let claimable: i128 = match p.claimable.checked_add(share) {
            Some(sum) => sum,
            None => {
                return Err(MultiPartyPaymentError::InvalidInput);
            },
        };
        let total_received: i128 = match p.total_received.checked_add(share) {
            Some(sum) => sum,
            None => {
                return Err(MultiPartyPaymentError::InvalidInput);
            },
        };
        if i < last {
            allocated = allocated + share;
        }
        updated.push(
            Party {
                address: p.address,
                share_percentage: p.share_percentage,
                claimable,
                total_received,
            },
        );
        i += 1;
    }
    assert(updated@ =~= after_deposit(parties@, amount as int));
    Ok(updated)
}

/// Why the party at `party_index` cannot withdraw as `party`, if it cannot:
/// the index is checked first, then the identity, then the balance.
pub open spec fn claim_refusal(parties: Seq<Party>, party_index: int, party: Identity) -> Option<
    MultiPartyPaymentError,
> {
    if party_index >= parties.len() {
        Some(MultiPartyPaymentError::PartyIndexOutOfBounds)
    } else if !parties[party_index].address.same(party) {
        Some(MultiPartyPaymentError::PartyMismatch)
    } else if parties[party_index].claimable <= 0 {
        Some(MultiPartyPaymentError::NoClaimableAmount)
    } else {
        None
    }
}

/// Pays out what the party at `party_index` is owed.
///
/// Returns the table in which that party has nothing left to claim, and the
/// amount that it had. The caller must name the identity that the table
/// holds at the index.
pub fn claim(parties: &Vec<Party>, party_index: u32, party: &Identity) -> (res: Result<
    (Vec<Party>, i128),
    MultiPartyPaymentError,
>)
    ensures
        match res {
            Ok((updated, amount)) => claim_refusal(parties@, party_index as int, *party) is None
                && amount == parties@[party_index as int].claimable && updated@
                == parties@.update(party_index as int, settled(parties@[party_index as int])),
            Err(e) => claim_refusal(parties@, party_index as int, *party) == Some(e),
        },
{
    let n: usize = parties.len();
    let idx: usize = party_index as usize;
    if idx >= n {
        return Err(MultiPartyPaymentError::PartyIndexOutOfBounds);
    }
    let p: Party = parties[idx];
    if !p.address.equals(party) {
        return Err(MultiPartyPaymentError::PartyMismatch);
    }
    if p.claimable <= 0 {
        return Err(MultiPartyPaymentError::NoClaimableAmount);
    }
    let withdrawn: i128 = p.claimable;
    let mut updated: Vec<Party> = Vec::new();
    let mut i: usize = 0;
    while i < n
        invariant
            n == parties@.len(),
            idx < n,
            i <= n,
            p == parties@[idx as int],
            updated@.len() == i,
            forall|j: int|
                0 <= j < i ==> updated@[j] == if j == idx {
                    settled(p)
                } else {
                    parties@[j]
                },
        decreases n - i,
    {
        if i == idx {
            updated.push(
                Party {
                    address: p.address,
                    share_percentage: p.share_percentage,
                    claimable: 0,
                    total_received: p.total_received,
                },
            );
        } else {
            updated.push(parties[i]);
        }
        i += 1;
    }
    assert(updated@ =~= parties@.update(idx as int, settled(p)));
    Ok((updated, withdrawn))
}

/// Two lists whose parties hold the same allocations, position by position,
/// hold the same basis points in every prefix.
pub proof fn lemma_shares_depend_on_allocations(a: Seq<Party>, b: Seq<Party>, n: int)
    requires
        0 <= n <= a.len(),
        a.len() == b.len(),
        forall|i: int| 0 <= i < a.len() ==> a[i].share_percentage == b[i].share_percentage,
    ensures
        shares_before(a, n) == shares_before(b, n),
    decreases n,
{
    if n > 0 {
        lemma_shares_depend_on_allocations(a, b, n - 1);
    }
}

/// A deposit leaves a share table a share table.
pub proof fn lemma_deposit_keeps_table(parties: Seq<Party>, amount: int)
    requires
        is_share_table(parties),
    ensures
        is_share_table(after_deposit(parties, amount)),
{
    lemma_shares_depend_on_allocations(parties, after_deposit(parties, amount), parties.len() as int);
}

/// A withdrawal leaves a share table a share table.
pub proof fn lemma_claim_keeps_table(parties: Seq<Party>, i: int)
    requires
        is_share_table(parties),
        0 <= i < parties.len(),
    ensures
        is_share_table(parties.update(i, settled(parties[i]))),
{
    lemma_shares_depend_on_allocations(
        parties,
        parties.update(i, settled(parties[i])),
        parties.len() as int,
    );
}

/// Enrolling the parties of a valid list gives a share table.
pub proof fn lemma_enrolled_is_table(parties: Seq<Party>)
    requires
        is_share_table(parties),
    ensures
        is_share_table(parties.map_values(|p: Party| enrolled(p))),
{
    lemma_shares_depend_on_allocations(
        parties,
        parties.map_values(|p: Party| enrolled(p)),
        parties.len() as int,
    );
}

} // verus!
