use crate::identity::Identity;
use vstd::prelude::*;

verus! {

/// What the profit-distribution contract announces.
#[derive(Copy, Clone, Debug)]
pub enum EventType {
    /// Profit of `amount` was deposited for a project: project, amount.
    ProfitDeposited(u64, i128),
    /// An investor claimed a dividend: project, investor, amount.
    DividendClaimed(u64, Identity, i128),
}

/// Announces a deposit of profit: appends the event to the log.
pub fn emit_deposit_event(log: &mut Vec<EventType>, project_id: u64, amount: i128)
    ensures
        final(log)@ == old(log)@.push(EventType::ProfitDeposited(project_id, amount)),
{
    log.push(EventType::ProfitDeposited(project_id, amount));
}

/// Announces a claimed dividend: appends the event to the log.
pub fn emit_claim_event(log: &mut Vec<EventType>, project_id: u64, investor: &Identity, amount: i128)
    ensures
        final(log)@ == old(log)@.push(EventType::DividendClaimed(project_id, *investor, amount)),
{
    log.push(EventType::DividendClaimed(project_id, *investor, amount));
}

} // verus!
