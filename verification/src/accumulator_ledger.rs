use crate::accumulator::{
    accrual, balance, balance_fits, balance_of, deposit, has_claim, holds_claim,
    lemma_settled_has_nothing_to_claim, settle, settled_at, settlement_refusal, StakeholderInfo,
};
use crate::errors::Error;
use crate::identity::Identity;
use std::collections::HashMap;
use vstd::prelude::*;

verus! {

broadcast use vstd::std_specs::hash::group_hash_axioms;

/// Topic under which the setup of a pool is announced.
pub const PAYMENT_SETUP: &'static str = "pay_setup";

/// Topic under which a deposit is announced.
pub const PAYMENT_RECEIVED: &'static str = "pay_recv";

/// Topic under which a withdrawal is announced.
pub const PAYMENT_WITHDRAWN: &'static str = "pay_with";

/// What the ledger announces of an accepted operation.
#[derive(Copy, Clone, Debug)]
pub enum DistributionEvent {
    /// A pool was given its stakeholders and its settlement asset.
    PaymentSetup { project_id: u64 },
    /// A payer's deposit raised the accumulator of a pool.
    PaymentReceived { project_id: u64, payer: Identity, amount: i128 },
    /// A stakeholder settled and is paid `amount`.
    PaymentWithdrawn { project_id: u64, stakeholder: Identity, amount: i128 },
}

impl DistributionEvent {
    /// The topic of the event.
    pub open spec fn spec_topic(&self) -> &'static str {
        match self {
            DistributionEvent::PaymentSetup { .. } => PAYMENT_SETUP,
            DistributionEvent::PaymentReceived { .. } => PAYMENT_RECEIVED,
            DistributionEvent::PaymentWithdrawn { .. } => PAYMENT_WITHDRAWN,
        }
    }

    /// The topic of the event.
    #[verifier::when_used_as_spec(spec_topic)]
    pub fn topic(&self) -> (topic: &'static str)
        ensures
            topic == self.spec_topic(),
    {
        match self {
            DistributionEvent::PaymentSetup { .. } => PAYMENT_SETUP,
            DistributionEvent::PaymentReceived { .. } => PAYMENT_RECEIVED,
            DistributionEvent::PaymentWithdrawn { .. } => PAYMENT_WITHDRAWN,
        }
    }
}

/// A stakeholder of a pool with what the pool records of it.
#[derive(Copy, Clone, Debug)]
pub struct Stakeholder {
    pub address: Identity,
    pub info: StakeholderInfo,
}

/// Basis points allotted by the first `n` entries of a setup request.
pub open spec fn allotted_before(request: Seq<(Identity, u32)>, n: int) -> int
    decreases n,
{
    if n <= 0 {
        0
    } else {
        allotted_before(request, n - 1) + request[n - 1].1
    }
}

/// Basis points allotted by a setup request.
pub open spec fn allotted_total(request: Seq<(Identity, u32)>) -> int {
    allotted_before(request, request.len() as int)
}

/// No identity is named twice among the first `n` entries of the request.
pub open spec fn named_once_before(request: Seq<(Identity, u32)>, n: int) -> bool {
    forall|i: int, j: int| 0 <= i < j < n ==> !(#[trigger] request[i]).0.same((#[trigger] request[j]).0)
}

/// No identity is named twice in the request.
pub open spec fn named_once(request: Seq<(Identity, u32)>) -> bool {
    named_once_before(request, request.len() as int)
}

/// What a setup request comes to.
///
/// An empty request is invalid input, and so is one whose basis points leave
/// the range of their counter when added up, or that names a stakeholder
/// twice; any other request must allot exactly 10000 basis points.
pub open spec fn allocation_check(request: Seq<(Identity, u32)>) -> Result<(), Error> {
    if request.len() == 0 || allotted_total(request) > u32::MAX || !named_once(request) {
        Err(Error::InvalidInput)
    } else if allotted_total(request) != 10000 {
        Err(Error::InvalidDistribution)
    } else {
        Ok(())
    }
}

/// The basis points of a prefix never exceed those of a longer prefix.
pub proof fn lemma_allotted_before_monotone(request: Seq<(Identity, u32)>, m: int, n: int)
    requires
        0 <= m <= n,
    ensures
        0 <= allotted_before(request, m) <= allotted_before(request, n),
    decreases n,
{
    if m < n {
        lemma_allotted_before_monotone(request, m, n - 1);
    } else if n > 0 {
        lemma_allotted_before_monotone(request, m - 1, n - 1);
    }
}

/// Whether no identity is named twice in the request.
pub fn all_named_once(request: &Vec<(Identity, u32)>) -> (once: bool)
    ensures
        once == named_once(request@),
{
    let n: usize = request.len();
    let mut j: usize = 0;
    while j < n
        invariant
            n == request@.len(),
            j <= n,
            named_once_before(request@, j as int),
        decreases n - j,
    {
        let mut i: usize = 0;
        while i < j
            invariant
                n == request@.len(),
                j < n,
                i <= j,
                named_once_before(request@, j as int),
                forall|k: int| 0 <= k < i ==> !(#[trigger] request@[k]).0.same(request@[j as int].0),
            decreases j - i,
        {
            if request[i].0.equals(&request[j].0) {
                assert(request@[i as int].0.same(request@[j as int].0));
                return false;
            }
            i += 1;
        }
        j += 1;
    }
    true
}

/// Checks a setup request.
pub fn check_allocations(request: &Vec<(Identity, u32)>) -> (res: Result<(), Error>)
    ensures
        res == allocation_check(request@),
{
    let n: usize = request.len();
    if n == 0 {
        return Err(Error::InvalidInput);
    }
    let mut total: u32 = 0;
    let mut i: usize = 0;
    while i < n
        invariant
            n == request@.len(),
            i <= n,
            total == allotted_before(request@, i as int),
        decreases n - i,
    {
        match total.checked_add(request[i].1) {
            Some(sum) => {
                total = sum;
            },
            None => {
                proof {
                    lemma_allotted_before_monotone(request@, i + 1, n as int);
                }
                return Err(Error::InvalidInput);
            },
        }
        i += 1;
    }
    if !all_named_once(request) {
        return Err(Error::InvalidInput);
    }
    if total != 10000 {
        return Err(Error::InvalidDistribution);
    }
    Ok(())
}

/// The record with which a stakeholder enters a pool whose accumulator stands
/// at `accumulator`: nothing owed, nothing pending.
pub open spec fn enlisted(entry: (Identity, u32), accumulator: i128) -> Stakeholder {
    Stakeholder {
        address: entry.0,
        info: StakeholderInfo {
            shares: entry.1,
            accumulated_at_last_update: accumulator,
            claimable_amount: 0,
        },
    }
}

/// The stakeholders of a request as they enter a pool whose accumulator
/// stands at `accumulator`, in the order of the request.
pub fn enlist(request: &Vec<(Identity, u32)>, accumulator: i128) -> (list: Vec<Stakeholder>)
    ensures
        list@ == request@.map_values(|entry: (Identity, u32)| enlisted(entry, accumulator)),
{
    let n: usize = request.len();
    let mut list: Vec<Stakeholder> = Vec::new();
    let mut i: usize = 0;
    while i < n
        invariant
            n == request@.len(),
            i <= n,
            list@.len() == i,
            forall|j: int| 0 <= j < i ==> list@[j] == enlisted(request@[j], accumulator),
        decreases n - i,
    {
        let entry: (Identity, u32) = request[i];
        list.push(
            Stakeholder {
                address: entry.0,
                info: StakeholderInfo {
                    shares: entry.1,
                    accumulated_at_last_update: accumulator,
                    claimable_amount: 0,
                },
            },
        );
        i += 1;
    }
    assert(list@ =~= request@.map_values(|entry: (Identity, u32)| enlisted(entry, accumulator)));
    list
}

/// Whether some stakeholder of the list has something to claim from a pool
/// whose accumulator stands at `accumulator`.
pub open spec fn any_claim(list: Seq<Stakeholder>, accumulator: int) -> bool {
    exists|i: int| 0 <= i < list.len() && has_claim((#[trigger] list[i]).info, accumulator)
}

/// Whether some stakeholder of the list has something to claim from a pool
/// whose accumulator stands at `accumulator`.
pub fn has_outstanding(list: &Vec<Stakeholder>, accumulator: i128) -> (owing: bool)
    ensures
        owing == any_claim(list@, accumulator as int),
{
    let n: usize = list.len();
    let mut i: usize = 0;
    while i < n
        invariant
            n == list@.len(),
            i <= n,
            forall|j: int| 0 <= j < i ==> !has_claim((#[trigger] list@[j]).info, accumulator as int),
        decreases n - i,
    {
        let holder: Stakeholder = list[i];
        if holds_claim(&holder.info, accumulator) {
            return true;
        }
        i += 1;
    }
    false
}

/// What a request to set up a pool comes to, where the pool holds the
/// stakeholders `previous` (none, if it is new) and its accumulator stands at
/// `accumulator`.
///
/// The ledger must have its administrator. A pool in which a stakeholder
/// still has something to claim is not set up again: its stakeholders
/// withdraw first. Otherwise the request is judged for itself.
pub open spec fn configure_check(
    initialized: bool,
    previous: Seq<Stakeholder>,
    accumulator: int,
    request: Seq<(Identity, u32)>,
) -> Result<(), Error> {
    if !initialized {
        Err(Error::NotInitialized)
    } else if any_claim(previous, accumulator) {
        Err(Error::InvalidInput)
    } else {
        allocation_check(request)
    }
}

/// Sets up a pool that holds the stakeholders `previous` at `accumulator`
/// with those of the request, and returns its new stakeholders: each with
/// nothing owed and nothing pending, in the order of the request.
/// `initialized` says whether the ledger has its administrator.
pub fn configure(
    initialized: bool,
    previous: &Vec<Stakeholder>,
    accumulator: i128,
    request: &Vec<(Identity, u32)>,
) -> (res: Result<Vec<Stakeholder>, Error>)
    ensures
        match res {
            Ok(list) => configure_check(initialized, previous@, accumulator as int, request@) is Ok
                && list@ == request@.map_values(
                |entry: (Identity, u32)| enlisted(entry, accumulator),
            ),
            Err(e) => configure_check(initialized, previous@, accumulator as int, request@) == Err::<
                (),
                Error,
            >(e),
        },
{
    if !initialized {
        return Err(Error::NotInitialized);
    }
    if has_outstanding(previous, accumulator) {
        return Err(Error::InvalidInput);
    }
    match check_allocations(request) {
        Ok(()) => {},
        Err(e) => {
            return Err(e);
        },
    }
    Ok(enlist(request, accumulator))
}

/// Position of the first stakeholder from `from` on that is `who`, or the
/// length of the list if there is none.
pub open spec fn position_from(list: Seq<Stakeholder>, who: Identity, from: int) -> int
    decreases list.len() - from,
{
    if from >= list.len() {
        list.len() as int
    } else if list[from].address.same(who) {
        from
    } else {
        position_from(list, who, from + 1)
    }
}

/// Position of the stakeholder `who` in the list, or the length of the list
/// if it is not in it.
pub open spec fn position_of(list: Seq<Stakeholder>, who: Identity) -> int {
    position_from(list, who, 0)
}

/// From `from` on, the position lies between `from` and the list's length;
/// where it lies in the list, the stakeholder at it is the one looked for, and
/// none between `from` and it is.
pub proof fn lemma_position_from(list: Seq<Stakeholder>, who: Identity, from: int)
    requires
        0 <= from <= list.len(),
    ensures
        from <= position_from(list, who, from) <= list.len(),
        position_from(list, who, from) < list.len() ==> list[position_from(
            list,
            who,
            from,
        )].address.same(who),
        forall|j: int| from <= j < position_from(list, who, from) ==> !list[j].address.same(who),
    decreases list.len() - from,
{
    if from < list.len() && !list[from].address.same(who) {
        lemma_position_from(list, who, from + 1);
    }
}

/// The position of a stakeholder is never negative and at most the list's
/// length. Where it lies in the list, the stakeholder at it is the one looked
/// for and the first that is; where it is the list's length, the list does
/// not hold the stakeholder.
pub proof fn lemma_position_of(list: Seq<Stakeholder>, who: Identity)
    ensures
        0 <= position_of(list, who) <= list.len(),
        position_of(list, who) < list.len() ==> list[position_of(list, who)].address.same(who),
        forall|j: int| 0 <= j < position_of(list, who) ==> !list[j].address.same(who),
{
    lemma_position_from(list, who, 0);
}

/// Finds the stakeholder `who` in the list: the first position at which it
/// stands, if it stands in the list at all.
pub fn find_stakeholder(list: &Vec<Stakeholder>, who: &Identity) -> (found: Option<usize>)
    ensures
        0 <= position_of(list@, *who) <= list@.len(),
        match found {
            Some(i) => i < list@.len() && i == position_of(list@, *who) && list@[i as int].address.same(
                *who,
            ),
            None => position_of(list@, *who) == list@.len(),
        },
        forall|j: int| 0 <= j < position_of(list@, *who) ==> !list@[j].address.same(*who),
{
    let n: usize = list.len();
    let mut i: usize = 0;
    while i < n
        invariant
            n == list@.len(),
            i <= n,
            position_of(list@, *who) == position_from(list@, *who, i as int),
        decreases n - i,
    {
        if list[i].address.equals(who) {
            proof {
                lemma_position_of(list@, *who);
            }
            return Some(i);
        }
        i += 1;
    }
    proof {
        lemma_position_of(list@, *who);
    }
    None
}

/// Basis points held together by the first `n` stakeholders.
pub open spec fn staked_before(list: Seq<Stakeholder>, n: int) -> int
    decreases n,
{
    if n <= 0 {
        0
    } else {
        staked_before(list, n - 1) + list[n - 1].info.shares
    }
}

/// Basis points held by all stakeholders together.
pub open spec fn staked_total(list: Seq<Stakeholder>) -> int {
    staked_before(list, list.len() as int)
}

/// No two stakeholders of the list are the same.
pub open spec fn all_distinct(list: Seq<Stakeholder>) -> bool {
    forall|i: int, j: int|
        0 <= i < j < list.len() ==> !(#[trigger] list[i]).address.same((#[trigger] list[j]).address)
}

/// What the ledger holds of one pool.
pub struct PoolState {
    /// The asset in which the pool settles.
    pub token: Identity,
    /// Payment per basis point received so far, scaled by `PRECISION`.
    pub accumulator: i128,
    /// The stakeholders in the order of the setup request.
    pub stakeholders: Seq<Stakeholder>,
}

/// The invariant of a pool: its stakeholders are distinct and hold exactly
/// 10000 basis points together; its accumulator is not negative, and no
/// stakeholder has settled at a negative value or beyond it.
pub open spec fn pool_wf(pool: PoolState) -> bool {
    &&& pool.stakeholders.len() > 0
    &&& staked_total(pool.stakeholders) == 10000
    &&& all_distinct(pool.stakeholders)
    &&& 0 <= pool.accumulator
    &&& forall|i: int|
        0 <= i < pool.stakeholders.len() ==> 0 <= (
        #[trigger] pool.stakeholders[i]).info.accumulated_at_last_update <= pool.accumulator
}

/// Two lists whose stakeholders hold the same shares, position by position,
/// hold the same basis points in every prefix.
pub proof fn lemma_stakes_depend_on_shares(a: Seq<Stakeholder>, b: Seq<Stakeholder>, n: int)
    requires
        0 <= n <= a.len(),
        a.len() == b.len(),
        forall|i: int| 0 <= i < a.len() ==> a[i].info.shares == b[i].info.shares,
    ensures
        staked_before(a, n) == staked_before(b, n),
    decreases n,
{
    if n > 0 {
        lemma_stakes_depend_on_shares(a, b, n - 1);
    }
}

/// The stakeholders of a request hold what the request allots.
pub proof fn lemma_enlisted_stakes(request: Seq<(Identity, u32)>, accumulator: i128, n: int)
    requires
        0 <= n <= request.len(),
    ensures
        staked_before(
            request.map_values(|entry: (Identity, u32)| enlisted(entry, accumulator)),
            n,
        ) == allotted_before(request, n),
    decreases n,
{
    if n > 0 {
        lemma_enlisted_stakes(request, accumulator, n - 1);
    }
}

/// An accepted request makes a well-formed pool at any accumulator that is
/// not negative.
pub proof fn lemma_enlisted_pool_wf(request: Seq<(Identity, u32)>, token: Identity, accumulator: i128)
    requires
        allocation_check(request) is Ok,
        accumulator >= 0,
    ensures
        pool_wf(
            PoolState {
                token,
                accumulator,
                stakeholders: request.map_values(
                    |entry: (Identity, u32)| enlisted(entry, accumulator),
                ),
            },
        ),
{
    let list = request.map_values(|entry: (Identity, u32)| enlisted(entry, accumulator));
    lemma_enlisted_stakes(request, accumulator, request.len() as int);
    assert forall|i: int, j: int| 0 <= i < j < list.len() implies !(#[trigger] list[i]).address.same(
        (#[trigger] list[j]).address,
    ) by {
        assert(!request[i].0.same(request[j].0));
    }
}

/// Where a stakeholder stands in a list depends on the identities alone.
pub proof fn lemma_position_depends_on_identities(
    a: Seq<Stakeholder>,
    b: Seq<Stakeholder>,
    who: Identity,
    from: int,
)
    requires
        0 <= from,
        a.len() == b.len(),
        forall|i: int| 0 <= i < a.len() ==> a[i].address == b[i].address,
    ensures
        position_from(a, who, from) == position_from(b, who, from),
    decreases a.len() - from,
{
    if from < a.len() && !a[from].address.same(who) {
        lemma_position_depends_on_identities(a, b, who, from + 1);
    }
}

struct Pool {
    token: Identity,
    accumulator: i128,
    stakeholders: Vec<Stakeholder>,
}

/// The accumulator ledger: its administrator, for each pool its settlement
/// asset, accumulator and stakeholders, and the events announced so far,
/// oldest first.
pub struct MultiPartyPayment {
    admin: Option<Identity>,
    pools: HashMap<u64, Pool>,
    events: Vec<DistributionEvent>,
}

impl MultiPartyPayment {
    /// The administrator, once the ledger is initialized.
    pub closed spec fn admin(&self) -> Option<Identity> {
        self.admin
    }

    /// The state of each pool that has been set up.
    pub closed spec fn pools(&self) -> Map<u64, PoolState> {
        Map::new(
            |id: u64| self.pools@.contains_key(id),
            |id: u64|
                PoolState {
                    token: self.pools@[id].token,
                    accumulator: self.pools@[id].accumulator,
                    stakeholders: self.pools@[id].stakeholders@,
                },
        )
    }

    /// The events announced so far, oldest first.
    pub closed spec fn announced(&self) -> Seq<DistributionEvent> {
        self.events@
    }

    /// Every pool of the ledger keeps its invariant.
    pub open spec fn wf(&self) -> bool {
        forall|id: u64| #[trigger] self.pools().contains_key(id) ==> pool_wf(self.pools()[id])
    }

    /// The accumulator of the pool `project_id`; zero before its first setup.
    pub open spec fn accumulator_of(&self, project_id: u64) -> i128 {
        if self.pools().contains_key(project_id) {
            self.pools()[project_id].accumulator
        } else {
            0
        }
    }

    /// A ledger without administrator, pools or events.
    pub fn new() -> (ledger: MultiPartyPayment)
        ensures
            ledger.wf(),
            ledger.admin() is None,
            ledger.pools() == Map::<u64, PoolState>::empty(),
            ledger.announced() == Seq::<DistributionEvent>::empty(),
    {
        let ledger = MultiPartyPayment { admin: None, pools: HashMap::new(), events: Vec::new() };
        assert(ledger.pools() =~= Map::<u64, PoolState>::empty());
        ledger
    }

    /// Names the administrator of the ledger. This can be done once.
    pub fn initialize(&mut self, admin: Identity) -> (res: Result<(), Error>)
        requires
            old(self).wf(),
        ensures
            final(self).wf(),
            final(self).pools() == old(self).pools(),
            final(self).announced() == old(self).announced(),
            match res {
                Ok(()) => old(self).admin() is None && final(self).admin() == Some(admin),
                Err(e) => e == Error::AlreadyInitialized && old(self).admin() is Some
                    && final(self).admin() == old(self).admin(),
            },
    {
        if self.admin.is_some() {
            return Err(Error::AlreadyInitialized);
        }
        self.admin = Some(admin);
        assert(self.pools() == old(self).pools());
        Ok(())
    }

    /// The stakeholders of the pool `project_id`; none before its first setup.
    pub open spec fn stakeholders_of(&self, project_id: u64) -> Seq<Stakeholder> {
        if self.pools().contains_key(project_id) {
            self.pools()[project_id].stakeholders
        } else {
            Seq::empty()
        }
    }

    /// What a request to set up the pool `project_id` comes to: the ledger
    /// must have its administrator, no stakeholder of the pool may have
    /// anything left to claim, and the request must pass its own check.
    pub open spec fn setup_check(&self, project_id: u64, request: Seq<(Identity, u32)>) -> Result<
        (),
        Error,
    > {
        configure_check(
            self.admin() is Some,
            self.stakeholders_of(project_id),
            self.accumulator_of(project_id) as int,
            request,
        )
    }

    /// Sets up the pool `project_id`: binds its settlement asset and gives it
    /// the stakeholders of the request.
    ///
    /// The stakeholders enter with nothing owed and nothing pending: their
    /// share of later deposits only. The accumulator of the pool stays as it
    /// is. A pool that has stakeholders is set up again only when none of
    /// them has anything left to claim. A refused request changes nothing.
    pub fn setup_payment(
        &mut self,
        project_id: u64,
        token: Identity,
        stakeholders: Vec<(Identity, u32)>,
    ) -> (res: Result<(), Error>)
        requires
            old(self).wf(),
        ensures
            final(self).wf(),
            final(self).admin() == old(self).admin(),
            final(self).accumulator_of(project_id) == old(self).accumulator_of(project_id),
            res == old(self).setup_check(project_id, stakeholders@),
            res is Ok ==> final(self).pools() == old(self).pools().insert(
                project_id,
                PoolState {
                    token,
                    accumulator: old(self).accumulator_of(project_id),
                    stakeholders: stakeholders@.map_values(
                        |entry: (Identity, u32)|
                            enlisted(entry, old(self).accumulator_of(project_id)),
                    ),
                },
            ) && final(self).announced() == old(self).announced().push(
                DistributionEvent::PaymentSetup { project_id },
            ),
            res is Err ==> final(self).pools() == old(self).pools() && final(self).announced()
                == old(self).announced(),
    {
        let initialized: bool = self.admin.is_some();
        let list: Vec<Stakeholder>;
        let accumulator: i128;
        match self.pools.get(&project_id) {
            Some(pool) => {
                assert(self.pools().contains_key(project_id));
                accumulator = pool.accumulator;
                match configure(initialized, &pool.stakeholders, accumulator, &stakeholders) {
                    Ok(entered) => {
                        list = entered;
                    },
                    Err(e) => {
                        return Err(e);
                    },
                }
            },
            None => {
                accumulator = 0;
                let none: Vec<Stakeholder> = Vec::new();
                assert(none@ =~= self.stakeholders_of(project_id));
                match configure(initialized, &none, accumulator, &stakeholders) {
                    Ok(entered) => {
                        list = entered;
                    },
                    Err(e) => {
                        return Err(e);
                    },
                }
            },
        }
        proof {
            lemma_enlisted_pool_wf(stakeholders@, token, accumulator);
        }
        self.pools.insert(project_id, Pool { token, accumulator, stakeholders: list });
        self.events.push(DistributionEvent::PaymentSetup { project_id });
        assert(self.pools() =~= old(self).pools().insert(
            project_id,
            PoolState {
                token,
                accumulator,
                stakeholders: stakeholders@.map_values(
                    |entry: (Identity, u32)| enlisted(entry, accumulator),
                ),
            },
        ));
        Ok(())
    }

    /// What a deposit of `amount` into the pool `project_id` comes to: the
    /// amount is checked first, then the pool, then the arithmetic.
    pub open spec fn deposit_check(&self, project_id: u64, amount: i128) -> Result<(), Error> {
        crate::accumulator::deposit_check(
            self.pools().contains_key(project_id),
            self.accumulator_of(project_id) as int,
            amount as int,
        )
    }

    /// Takes a deposit of `amount` from `payer` into the pool `project_id`.
    ///
    /// Only the accumulator of the pool moves, by `amount * PRECISION / 10000`;
    /// no stakeholder's record is touched. A refused deposit changes nothing.
    pub fn receive_payment(&mut self, project_id: u64, payer: Identity, amount: i128) -> (res:
        Result<(), Error>)
        requires
            old(self).wf(),
        ensures
            final(self).wf(),
            final(self).admin() == old(self).admin(),
            final(self).accumulator_of(project_id) >= old(self).accumulator_of(project_id),
            res == old(self).deposit_check(project_id, amount),
            res is Ok ==> final(self).pools() == old(self).pools().insert(
                project_id,
                PoolState {
                    token: old(self).pools()[project_id].token,
                    accumulator: (old(self).pools()[project_id].accumulator + accrual(
                        amount as int,
                    )) as i128,
                    stakeholders: old(self).pools()[project_id].stakeholders,
                },
            ) && final(self).announced() == old(self).announced().push(
                DistributionEvent::PaymentReceived { project_id, payer, amount },
            ),
            res is Err ==> final(self).pools() == old(self).pools() && final(self).announced()
                == old(self).announced(),
    {
        let (configured, accumulator): (bool, i128) = match self.pools.get(&project_id) {
            None => (false, 0),
            Some(pool) => {
                assert(self.pools().contains_key(project_id));
                (true, pool.accumulator)
            },
        };
        let raised: i128 = match deposit(configured, accumulator, amount) {
            Ok(raised) => raised,
            Err(e) => {
                return Err(e);
            },
        };
        let ghost before = self.pools()[project_id];
        assert(pool_wf(before));
        match self.pools.remove(&project_id) {
            Some(pool) => {
                let mut pool = pool;
                pool.accumulator = raised;
                self.pools.insert(project_id, pool);
            },
            None => {},
        }
        self.events.push(DistributionEvent::PaymentReceived { project_id, payer, amount });
        assert(self.pools() =~= old(self).pools().insert(
            project_id,
            PoolState {
                token: before.token,
                accumulator: raised,
                stakeholders: before.stakeholders,
            },
        ));
        Ok(())
    }

    /// Why `stakeholder` cannot withdraw from the pool `project_id`, if it
    /// cannot: the pool is looked up first, then the stakeholder, then its
    /// balance is computed and must be positive.
    pub open spec fn withdrawal_refusal(&self, project_id: u64, stakeholder: Identity) -> Option<
        Error,
    > {
        if !self.pools().contains_key(project_id) {
            Some(Error::NotFound)
        } else {
            let pool = self.pools()[project_id];
            let at = position_of(pool.stakeholders, stakeholder);
            if at >= pool.stakeholders.len() {
                Some(Error::NotFound)
            } else {
                settlement_refusal(pool.stakeholders[at].info, pool.accumulator as int)
            }
        }
    }

    /// What `stakeholder` can claim from the pool `project_id`, where the pool
    /// holds it.
    pub open spec fn owed(&self, project_id: u64, stakeholder: Identity) -> int {
        let pool = self.pools()[project_id];
        balance_of(
            pool.stakeholders[position_of(pool.stakeholders, stakeholder)].info,
            pool.accumulator as int,
        )
    }

    /// Settles `stakeholder` in the pool `project_id` and returns the amount
    /// to pay out: what it was owed and what has accrued to it since it last
    /// settled. Afterwards it is owed nothing and nothing is pending. A
    /// refused withdrawal changes nothing.
    pub fn withdraw(&mut self, project_id: u64, stakeholder: Identity) -> (res: Result<i128, Error>)
        requires
            old(self).wf(),
        ensures
            final(self).wf(),
            final(self).admin() == old(self).admin(),
            final(self).accumulator_of(project_id) == old(self).accumulator_of(project_id),
            match res {
                Ok(amount) => {
                    let pool = old(self).pools()[project_id];
                    let at = position_of(pool.stakeholders, stakeholder);
                    &&& old(self).withdrawal_refusal(project_id, stakeholder) is None
                    &&& 0 <= at < pool.stakeholders.len()
                    &&& pool.stakeholders[at].address.same(stakeholder)
                    &&& amount == old(self).owed(project_id, stakeholder)
                    &&& amount > 0
                    &&& final(self).pools() == old(self).pools().insert(
                        project_id,
                        PoolState {
                            token: pool.token,
                            accumulator: pool.accumulator,
                            stakeholders: pool.stakeholders.update(
                                at,
                                Stakeholder {
                                    address: pool.stakeholders[at].address,
                                    info: settled_at(pool.stakeholders[at].info, pool.accumulator),
                                },
                            ),
                        },
                    )
                    &&& final(self).announced() == old(self).announced().push(
                        DistributionEvent::PaymentWithdrawn { project_id, stakeholder, amount },
                    )
                    &&& final(self).withdrawal_refusal(project_id, stakeholder) == Some(
                        Error::NoClaimableAmount,
                    )
                },
                Err(e) => {
                    &&& old(self).withdrawal_refusal(project_id, stakeholder) == Some(e)
                    &&& final(self).pools() == old(self).pools()
                    &&& final(self).announced() == old(self).announced()
                },
            },
    {
        let (at, record, amount): (usize, Stakeholder, i128) = match self.pools.get(&project_id) {
            None => {
                return Err(Error::NotFound);
            },
            Some(pool) => {
                assert(self.pools().contains_key(project_id));
                match find_stakeholder(&pool.stakeholders, &stakeholder) {
                    None => {
                        return Err(Error::NotFound);
                    },
                    Some(at) => {
                        let holder: Stakeholder = pool.stakeholders[at];
                        match settle(&holder.info, pool.accumulator) {
                            Ok((info, amount)) => (
                                at,
                                Stakeholder { address: holder.address, info },
                                amount,
                            ),
                            Err(e) => {
                                return Err(e);
                            },
                        }
                    },
                }
            },
        };
        let ghost before = self.pools()[project_id];
        assert(pool_wf(before));
        match self.pools.remove(&project_id) {
            Some(pool) => {
                let mut pool = pool;
                pool.stakeholders.set(at, record);
                self.pools.insert(project_id, pool);
            },
            None => {},
        }
        self.events.push(DistributionEvent::PaymentWithdrawn { project_id, stakeholder, amount });
        proof {
            let after = PoolState {
                token: before.token,
                accumulator: before.accumulator,
                stakeholders: before.stakeholders.update(at as int, record),
            };
            assert(self.pools() =~= old(self).pools().insert(project_id, after));
            lemma_stakes_depend_on_shares(
                before.stakeholders,
                after.stakeholders,
                before.stakeholders.len() as int,
            );
            assert(pool_wf(after));
            lemma_position_depends_on_identities(
                before.stakeholders,
                after.stakeholders,
                stakeholder,
                0,
            );
            lemma_settled_has_nothing_to_claim(before.stakeholders[at as int].info, before.accumulator);
        }
        Ok(amount)
    }

    /// What `stakeholder` can claim from the pool `project_id`: what it was
    /// owed at its last settlement and what has accrued to it since.
    /// Changes nothing.
    pub fn get_balance(&self, project_id: u64, stakeholder: Identity) -> (res: Result<i128, Error>)
        ensures
            match res {
                Ok(amount) => {
                    let pool = self.pools()[project_id];
                    let at = position_of(pool.stakeholders, stakeholder);
                    &&& self.pools().contains_key(project_id)
                    &&& 0 <= at < pool.stakeholders.len()
                    &&& pool.stakeholders[at].address.same(stakeholder)
                    &&& balance_fits(pool.stakeholders[at].info, pool.accumulator as int)
                    &&& amount == self.owed(project_id, stakeholder)
                },
                Err(e) => if self.pools().contains_key(project_id) && position_of(
                    self.pools()[project_id].stakeholders,
                    stakeholder,
                ) < self.pools()[project_id].stakeholders.len() {
                    e == Error::InvalidInput && !balance_fits(
                        self.pools()[project_id].stakeholders[position_of(
                            self.pools()[project_id].stakeholders,
                            stakeholder,
                        )].info,
                        self.pools()[project_id].accumulator as int,
                    )
                } else {
                    e == Error::NotFound
                },
            },
    {
        match self.pools.get(&project_id) {
            None => Err(Error::NotFound),
            Some(pool) => {
                assert(self.pools().contains_key(project_id));
                match find_stakeholder(&pool.stakeholders, &stakeholder) {
                    None => Err(Error::NotFound),
                    Some(at) => {
                        let holder: Stakeholder = pool.stakeholders[at];
                        balance(&holder.info, pool.accumulator)
                    },
                }
            },
        }
    }

    /// The record of `stakeholder` in the pool `project_id`, if the pool
    /// holds one.
    pub fn stakeholder_info(&self, project_id: u64, stakeholder: Identity) -> (res: Option<
        StakeholderInfo,
    >)
        ensures
            match res {
                Some(info) => self.pools().contains_key(project_id) && 0 <= position_of(
                    self.pools()[project_id].stakeholders,
                    stakeholder,
                ) < self.pools()[project_id].stakeholders.len() && info
                    == self.pools()[project_id].stakeholders[position_of(
                    self.pools()[project_id].stakeholders,
                    stakeholder,
                )].info,
                None => !self.pools().contains_key(project_id) || position_of(
                    self.pools()[project_id].stakeholders,
                    stakeholder,
                ) >= self.pools()[project_id].stakeholders.len(),
            },
    {
        match self.pools.get(&project_id) {
            None => None,
            Some(pool) => {
                assert(self.pools().contains_key(project_id));
                match find_stakeholder(&pool.stakeholders, &stakeholder) {
                    None => None,
                    Some(at) => {
                        let holder: Stakeholder = pool.stakeholders[at];
                        Some(holder.info)
                    },
                }
            },
        }
    }

    /// The accumulator of the pool `project_id`; zero before its first setup.
    pub fn accumulator(&self, project_id: u64) -> (value: i128)
        ensures
            value == self.accumulator_of(project_id),
    {
        match self.pools.get(&project_id) {
            None => 0,
            Some(pool) => {
                assert(self.pools().contains_key(project_id));
                pool.accumulator
            },
        }
    }

    /// The settlement asset of the pool `project_id`, if the pool is set up.
    pub fn token(&self, project_id: u64) -> (res: Option<Identity>)
        ensures
            match res {
                Some(token) => self.pools().contains_key(project_id) && token
                    == self.pools()[project_id].token,
                None => !self.pools().contains_key(project_id),
            },
    {
        match self.pools.get(&project_id) {
            None => None,
            Some(pool) => {
                assert(self.pools().contains_key(project_id));
                Some(pool.token)
            },
        }
    }

    /// The events announced so far, oldest first.
    pub fn events(&self) -> (log: &Vec<DistributionEvent>)
        ensures
            log@ == self.announced(),
    {
        &self.events
    }
}

} // verus!
