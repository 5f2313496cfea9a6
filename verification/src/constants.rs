use vstd::prelude::*;

verus! {

/// Default platform fee (2.5%).
pub const DEFAULT_PLATFORM_FEE: u32 = 250;

/// Maximum platform fee (10%).
pub const MAX_PLATFORM_FEE: u32 = 1000;

/// Minimum project funding goal: 1,000 XLM (with 7 decimals).
pub const MIN_FUNDING_GOAL: i128 = 10_000_000_000;

/// Maximum project funding goal: 1,000,000 XLM.
pub const MAX_FUNDING_GOAL: i128 = 10_000_000_000_000;

/// Minimum project duration (1 day in seconds).
pub const MIN_PROJECT_DURATION: u64 = 86400;

/// Maximum project duration (180 days in seconds).
pub const MAX_PROJECT_DURATION: u64 = 15552000;

/// Minimum contribution amount: 10 XLM.
pub const MIN_CONTRIBUTION: i128 = 100_000_000;

/// Voting threshold for milestone approval (60%).
pub const MILESTONE_APPROVAL_THRESHOLD: u32 = 6000;

/// Minimum validators required.
pub const MIN_VALIDATORS: u32 = 3;

/// Lowest reputation score.
pub const REPUTATION_MIN: i128 = 0;

/// Highest reputation score.
pub const REPUTATION_MAX: i128 = 10000;

/// Reputation score of a new user.
pub const REPUTATION_START: i128 = 100;

/// Governance quorum (20%).
pub const GOVERNANCE_QUORUM: u32 = 2000;

/// Voting period duration (7 days in seconds).
pub const VOTING_PERIOD: u64 = 604800;

/// Topics of the escrow's announcements.
pub const ESCROW_INITIALIZED: &'static str = "esc_init";

pub const FUNDS_LOCKED: &'static str = "f_lock";

pub const MILESTONE_CREATED: &'static str = "mile_cr";

pub const MILESTONE_SUBMITTED: &'static str = "mile_sub";

pub const MILESTONE_APPROVED: &'static str = "mile_apr";

pub const MILESTONE_REJECTED: &'static str = "mile_rej";

pub const FUNDS_RELEASED: &'static str = "fund_rel";

} // verus!
