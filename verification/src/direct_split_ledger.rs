use crate::conservation::{
    no_debts, step, theorem_balances_stay_non_negative, theorem_setup_discards_nothing,
    theorem_step_conserves, Operation,
};
use crate::direct_split::{
    after_deposit, claim, claim_refusal, configure, configure_check, deposit_fits, distribute,
    enrolled, get_party_by_index, is_share_table, lemma_claim_keeps_table,
    lemma_deposit_keeps_table, settled, stored_table, total_claimable, Party,
};
use crate::errors::MultiPartyPaymentError;
use crate::identity::Identity;
use std::collections::HashMap;
use vstd::prelude::*;

verus! {

broadcast use vstd::std_specs::hash::group_hash_axioms;

/// Topic under which the setup of a pool is announced.
pub const PARTIES_SETUP: &'static str = "mp_setup";

/// Topic under which a deposit is announced.
pub const PAYMENT_RECEIVED: &'static str = "mp_pay";

/// Topic under which a withdrawal is announced.
pub const SHARE_WITHDRAWN: &'static str = "mp_with";

/// What the ledger announces of an accepted operation.
#[derive(Copy, Clone, Debug)]
pub enum PaymentEvent {
    /// A pool was given its share table.
    PartiesSetup { project_id: u64, party_count: usize },
    /// A deposit was split among the parties of a pool.
    PaymentReceived { project_id: u64, amount: i128 },
    /// A party withdrew what it was owed.
    ShareWithdrawn { project_id: u64, party_index: u32, party: Identity, amount: i128 },
}

impl PaymentEvent {
    /// The topic of the event.
    pub open spec fn spec_topic(&self) -> &'static str {
        match self {
            PaymentEvent::PartiesSetup { .. } => PARTIES_SETUP,
            PaymentEvent::PaymentReceived { .. } => PAYMENT_RECEIVED,
            PaymentEvent::ShareWithdrawn { .. } => SHARE_WITHDRAWN,
        }
    }

    /// The topic of the event.
    #[verifier::when_used_as_spec(spec_topic)]
    pub fn topic(&self) -> (topic: &'static str)
        ensures
            topic == self.spec_topic(),
    {
        match self {
            PaymentEvent::PartiesSetup { .. } => PARTIES_SETUP,
            PaymentEvent::PaymentReceived { .. } => PAYMENT_RECEIVED,
            PaymentEvent::ShareWithdrawn { .. } => SHARE_WITHDRAWN,
        }
    }
}

/// The direct-split ledger: for each pool its share table with the balances of
/// its parties, and the events announced so far, oldest first.
pub struct MultiPartyPayment {
    pools: HashMap<u64, Vec<Party>>,
    events: Vec<PaymentEvent>,
}

impl MultiPartyPayment {
    /// The share table of each pool that has one.
    pub closed spec fn pools(&self) -> Map<u64, Seq<Party>> {
        Map::new(|id: u64| self.pools@.contains_key(id), |id: u64| self.pools@[id]@)
    }

    /// The events announced so far, oldest first.
    pub closed spec fn announced(&self) -> Seq<PaymentEvent> {
        self.events@
    }

    /// Every pool of the ledger holds a share table in which no balance to
    /// claim is negative.
    pub open spec fn wf(&self) -> bool {
        forall|id: u64| #[trigger]
            self.pools().contains_key(id) ==> is_share_table(self.pools()[id]) && no_debts(
                self.pools()[id],
            )
    }

    /// A ledger without pools or events.
    pub fn new() -> (ledger: MultiPartyPayment)
        ensures
            ledger.wf(),
            ledger.pools() == Map::<u64, Seq<Party>>::empty(),
            ledger.announced() == Seq::<PaymentEvent>::empty(),
    {
        let ledger = MultiPartyPayment { pools: HashMap::new(), events: Vec::new() };
        assert(ledger.pools() =~= Map::<u64, Seq<Party>>::empty());
        ledger
    }

    /// The share table of the pool `project_id`, if it has one.
    pub open spec fn table_of(&self, project_id: u64) -> Option<Seq<Party>> {
        if self.pools().contains_key(project_id) {
            Some(self.pools()[project_id])
        } else {
            None
        }
    }

    /// Gives the pool `project_id` its share table.
    ///
    /// The parties enter with empty balances. A pool that has a table is set
    /// up again only when it owes nothing to any of its parties: while a
    /// party can claim something the request is refused. A list that is no
    /// share table is refused too. A refused request changes nothing.
    pub fn setup_parties(&mut self, project_id: u64, parties: Vec<Party>) -> (res: Result<
        (),
        MultiPartyPaymentError,
    >)
        requires
            old(self).wf(),
        ensures
            final(self).wf(),
            res == configure_check(old(self).table_of(project_id), parties@),
            res is Ok ==> final(self).pools() == old(self).pools().insert(
                project_id,
                parties@.map_values(|p: Party| enrolled(p)),
            ) && final(self).announced() == old(self).announced().push(
                PaymentEvent::PartiesSetup { project_id, party_count: parties.len() },
            ),
            res is Err ==> final(self).pools() == old(self).pools() && final(self).announced()
                == old(self).announced(),
            res is Ok && old(self).pools().contains_key(project_id) ==> total_claimable(
                old(self).pools()[project_id],
            ) == 0,
            res is Ok ==> total_claimable(final(self).pools()[project_id]) == 0,
    {
        let stored: Option<&Vec<Party>> = self.pools.get(&project_id);
        assert(stored_table(stored) == self.table_of(project_id));
        proof {
            if configure_check(self.table_of(project_id), parties@) is Ok {
                if self.pools().contains_key(project_id) {
                    theorem_setup_discards_nothing(self.pools()[project_id], parties@);
                } else {
                    theorem_setup_discards_nothing(Seq::<Party>::empty(), parties@);
                }
            }
        }
        let table: Vec<Party> = match configure(stored, &parties) {
            Ok(table) => table,
            Err(e) => {
                return Err(e);
            },
        };
        self.pools.insert(project_id, table);
        self.events.push(PaymentEvent::PartiesSetup { project_id, party_count: parties.len() });
        assert(self.pools() =~= old(self).pools().insert(
            project_id,
            parties@.map_values(|p: Party| enrolled(p)),
        ));
        Ok(())
    }

    /// What a deposit of `amount` into the pool `project_id` comes to: the
    /// amount is checked first, then the pool, then the arithmetic.
    pub open spec fn deposit_check(&self, project_id: u64, amount: i128) -> Result<
        (),
        MultiPartyPaymentError,
    > {
        if amount <= 0 {
            Err(MultiPartyPaymentError::InvalidInput)
        } else if !self.pools().contains_key(project_id) {
            Err(MultiPartyPaymentError::PartiesNotSetup)
        } else if !deposit_fits(self.pools()[project_id], amount as int) {
            Err(MultiPartyPaymentError::InvalidInput)
        } else {
            Ok(())
        }
    }

    /// Splits a deposit of `amount` among the parties of the pool `project_id`.
    ///
    /// Each party but the last is credited its floor share, the last what the
    /// others leave. A refused deposit changes nothing.
    pub fn receive_payment(&mut self, project_id: u64, amount: i128) -> (res: Result<
        (),
        MultiPartyPaymentError,
    >)
        requires
            old(self).wf(),
        ensures
            final(self).wf(),
            res == old(self).deposit_check(project_id, amount),
            res is Ok ==> final(self).pools() == old(self).pools().insert(
                project_id,
                after_deposit(old(self).pools()[project_id], amount as int),
            ) && final(self).announced() == old(self).announced().push(
                PaymentEvent::PaymentReceived { project_id, amount },
            ),
            res is Err ==> final(self).pools() == old(self).pools() && final(self).announced()
                == old(self).announced(),
            old(self).pools().contains_key(project_id) ==> final(self).pools()[project_id] == step(
                old(self).pools()[project_id],
                Operation::Deposit { amount },
            ),
            res is Ok ==> total_claimable(final(self).pools()[project_id]) == total_claimable(
                old(self).pools()[project_id],
            ) + amount,
    {
        proof {
            if self.pools().contains_key(project_id) {
                theorem_step_conserves(self.pools()[project_id], Operation::Deposit { amount });
                theorem_balances_stay_non_negative(
                    self.pools()[project_id],
                    Operation::Deposit { amount },
                );
            }
        }
        if amount <= 0 {
            return Err(MultiPartyPaymentError::InvalidInput);
        }
        let updated: Vec<Party> = match self.pools.get(&project_id) {
            None => {
                return Err(MultiPartyPaymentError::PartiesNotSetup);
            },
            Some(parties) => {
                assert(self.pools().contains_key(project_id));
                match distribute(parties, amount) {
                    Ok(updated) => updated,
                    Err(e) => {
                        return Err(e);
                    },
                }
            },
        };
        proof {
            lemma_deposit_keeps_table(self.pools()[project_id], amount as int);
        }
        self.pools.insert(project_id, updated);
        self.events.push(PaymentEvent::PaymentReceived { project_id, amount });
        assert(self.pools() =~= old(self).pools().insert(
            project_id,
            after_deposit(old(self).pools()[project_id], amount as int),
        ));
        Ok(())
    }

    /// Why `party` cannot withdraw at `party_index` of the pool `project_id`,
    /// if it cannot: the pool is checked first, then the index, the identity
    /// and the balance.
    pub open spec fn withdrawal_refusal(
        &self,
        project_id: u64,
        party_index: u32,
        party: Identity,
    ) -> Option<MultiPartyPaymentError> {
        if !self.pools().contains_key(project_id) {
            Some(MultiPartyPaymentError::PartiesNotSetup)
        } else {
            claim_refusal(self.pools()[project_id], party_index as int, party)
        }
    }

    /// Pays out what the party at `party_index` of the pool `project_id` is
    /// owed, and returns the amount. Its claimable balance is zero afterwards.
    /// A refused withdrawal changes nothing.
    pub fn withdraw_share(&mut self, project_id: u64, party_index: u32, party: Identity) -> (res:
        Result<i128, MultiPartyPaymentError>)
        requires
            old(self).wf(),
        ensures
            final(self).wf(),
            match res {
                Ok(amount) => {
                    let table = old(self).pools()[project_id];
                    &&& old(self).withdrawal_refusal(project_id, party_index, party) is None
                    &&& amount == table[party_index as int].claimable
                    &&& amount > 0
                    &&& final(self).pools() == old(self).pools().insert(
                        project_id,
                        table.update(party_index as int, settled(table[party_index as int])),
                    )
                    &&& final(self).announced() == old(self).announced().push(
                        PaymentEvent::ShareWithdrawn { project_id, party_index, party, amount },
                    )
                    &&& final(self).withdrawal_refusal(project_id, party_index, party) == Some(
                        MultiPartyPaymentError::NoClaimableAmount,
                    )
                },
                Err(e) => {
                    &&& old(self).withdrawal_refusal(project_id, party_index, party) == Some(e)
                    &&& final(self).pools() == old(self).pools()
                    &&& final(self).announced() == old(self).announced()
                },
            },
            old(self).pools().contains_key(project_id) ==> final(self).pools()[project_id] == step(
                old(self).pools()[project_id],
                Operation::Withdraw { party_index, party },
            ),
            res is Ok ==> total_claimable(final(self).pools()[project_id]) == total_claimable(
                old(self).pools()[project_id],
            ) - res.unwrap(),
    {
        proof {
            if self.pools().contains_key(project_id) {
                theorem_step_conserves(
                    self.pools()[project_id],
                    Operation::Withdraw { party_index, party },
                );
                theorem_balances_stay_non_negative(
                    self.pools()[project_id],
                    Operation::Withdraw { party_index, party },
                );
            }
        }
        let (updated, amount): (Vec<Party>, i128) = match self.pools.get(&project_id) {
            None => {
                return Err(MultiPartyPaymentError::PartiesNotSetup);
            },
            Some(parties) => {
                assert(self.pools().contains_key(project_id));
                match claim(parties, party_index, &party) {
                    Ok(paid) => paid,
                    Err(e) => {
                        return Err(e);
                    },
                }
            },
        };
        proof {
            lemma_claim_keeps_table(self.pools()[project_id], party_index as int);
        }
        self.pools.insert(project_id, updated);
        self.events.push(PaymentEvent::ShareWithdrawn { project_id, party_index, party, amount });
        assert(self.pools() =~= old(self).pools().insert(
            project_id,
            old(self).pools()[project_id].update(
                party_index as int,
                settled(old(self).pools()[project_id][party_index as int]),
            ),
        ));
        Ok(amount)
    }

    /// The party at `party_index` of the pool `project_id`, with its balances.
    pub fn get_party(&self, project_id: u64, party_index: u32) -> (res: Result<
        Party,
        MultiPartyPaymentError,
    >)
        ensures
            match res {
                Ok(party) => self.pools().contains_key(project_id) && party_index
                    < self.pools()[project_id].len() && party
                    == self.pools()[project_id][party_index as int],
                Err(e) => if self.pools().contains_key(project_id) {
                    party_index >= self.pools()[project_id].len() && e
                        == MultiPartyPaymentError::PartyIndexOutOfBounds
                } else {
                    e == MultiPartyPaymentError::PartiesNotSetup
                },
            },
    {
        match self.pools.get(&project_id) {
            None => Err(MultiPartyPaymentError::PartiesNotSetup),
            Some(parties) => {
                assert(self.pools().contains_key(project_id));
                get_party_by_index(parties, party_index)
            },
        }
    }

    /// The share table of the pool `project_id`, if it has one.
    pub fn parties(&self, project_id: u64) -> (res: Option<&Vec<Party>>)
        ensures
            match res {
                Some(table) => self.pools().contains_key(project_id) && table@
                    == self.pools()[project_id],
                None => !self.pools().contains_key(project_id),
            },
    {
        let found = self.pools.get(&project_id);
        assert(found is Some ==> self.pools().contains_key(project_id));
        found
    }

    /// The events announced so far, oldest first.
    pub fn events(&self) -> (log: &Vec<PaymentEvent>)
        ensures
            log@ == self.announced(),
    {
        &self.events
    }
}

} // verus!
