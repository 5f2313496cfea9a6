use vstd::prelude::*;

verus! {

// Project events
pub const PROJECT_CREATED: &'static str = "proj_new";

pub const PROJECT_FUNDED: &'static str = "proj_fund";

pub const PROJECT_COMPLETED: &'static str = "proj_done";

pub const PROJECT_FAILED: &'static str = "proj_fail";

// Contribution events
pub const CONTRIBUTION_MADE: &'static str = "contrib";

pub const REFUND_ISSUED: &'static str = "refund";

// Escrow events
pub const FUNDS_LOCKED: &'static str = "lock";

pub const FUNDS_RELEASED: &'static str = "release";

pub const MILESTONE_COMPLETED: &'static str = "milestone";

// Distribution events
pub const PROFIT_DISTRIBUTED: &'static str = "profit";

pub const DIVIDEND_CLAIMED: &'static str = "claim";

// Governance events
pub const PROPOSAL_CREATED: &'static str = "proposal";

pub const VOTE_CAST: &'static str = "vote";

pub const PROPOSAL_EXECUTED: &'static str = "execute";

// Reputation events
pub const USER_REGISTERED: &'static str = "user_reg";

pub const REPUTATION_UPDATED: &'static str = "rep_up";

pub const BADGE_EARNED: &'static str = "badge";

} // verus!
