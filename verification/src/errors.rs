use vstd::prelude::*;

verus! {

/// Failures shared by the platform's contracts, grouped by area.
#[derive(Copy, Clone, Debug, PartialEq, Eq, Structural)]
pub enum Error {
    // General errors
    NotInitialized,
    AlreadyInitialized,
    Unauthorized,
    InvalidInput,
    NotFound,
    // Project errors
    ProjectNotActive,
    ProjectAlreadyExists,
    FundingGoalNotReached,
    DeadlinePassed,
    InvalidProjectStatus,
    // Escrow errors
    InsufficientEscrowBalance,
    MilestoneNotApproved,
    InvalidMilestoneStatus,
    NotAValidator,
    AlreadyVoted,
    // Distribution errors
    InsufficientFunds,
    InvalidDistribution,
    NoClaimableAmount,
    DistributionFailed,
    // Subscription errors
    SubscriptionNotActive,
    InvalidSubscriptionPeriod,
    SubscriptionExists,
    WithdrawalLocked,
    // Reputation errors
    ReputationTooLow,
    InvalidReputationScore,
    BadgeNotEarned,
    UserAlreadyRegistered,
    BadgeAlreadyAwarded,
    UserNotRegistered,
    // Governance errors
    ProposalNotActive,
    InsufficientVotingPower,
    ProposalAlreadyExecuted,
    QuorumNotReached,
}

impl Error {
    /// The number under which the failure is reported on the ledger.
    pub open spec fn spec_code(self) -> u32 {
        match self {
            Error::NotInitialized => 1,
            Error::AlreadyInitialized => 2,
            Error::Unauthorized => 3,
            Error::InvalidInput => 4,
            Error::NotFound => 5,
            Error::ProjectNotActive => 100,
            Error::ProjectAlreadyExists => 101,
            Error::FundingGoalNotReached => 102,
            Error::DeadlinePassed => 103,
            Error::InvalidProjectStatus => 104,
            Error::InsufficientEscrowBalance => 200,
            Error::MilestoneNotApproved => 201,
            Error::InvalidMilestoneStatus => 202,
            Error::NotAValidator => 203,
            Error::AlreadyVoted => 204,
            Error::InsufficientFunds => 300,
            Error::InvalidDistribution => 301,
            Error::NoClaimableAmount => 302,
            Error::DistributionFailed => 303,
            Error::SubscriptionNotActive => 400,
            Error::InvalidSubscriptionPeriod => 401,
            Error::SubscriptionExists => 402,
            Error::WithdrawalLocked => 403,
            Error::ReputationTooLow => 500,
            Error::InvalidReputationScore => 501,
            Error::BadgeNotEarned => 502,
            Error::UserAlreadyRegistered => 503,
            Error::BadgeAlreadyAwarded => 504,
            Error::UserNotRegistered => 505,
            Error::ProposalNotActive => 600,
            Error::InsufficientVotingPower => 601,
            Error::ProposalAlreadyExecuted => 602,
            Error::QuorumNotReached => 603,
        }
    }

    /// The number under which the failure is reported on the ledger.
    #[verifier::when_used_as_spec(spec_code)]
    pub fn code(self) -> (code: u32)
        ensures
            code == self.spec_code(),
    {
        match self {
            Error::NotInitialized => 1,
            Error::AlreadyInitialized => 2,
            Error::Unauthorized => 3,
            Error::InvalidInput => 4,
            Error::NotFound => 5,
            Error::ProjectNotActive => 100,
            Error::ProjectAlreadyExists => 101,
            Error::FundingGoalNotReached => 102,
            Error::DeadlinePassed => 103,
            Error::InvalidProjectStatus => 104,
            Error::InsufficientEscrowBalance => 200,
            Error::MilestoneNotApproved => 201,
            Error::InvalidMilestoneStatus => 202,
            Error::NotAValidator => 203,
            Error::AlreadyVoted => 204,
            Error::InsufficientFunds => 300,
            Error::InvalidDistribution => 301,
            Error::NoClaimableAmount => 302,
            Error::DistributionFailed => 303,
            Error::SubscriptionNotActive => 400,
            Error::InvalidSubscriptionPeriod => 401,
            Error::SubscriptionExists => 402,
            Error::WithdrawalLocked => 403,
            Error::ReputationTooLow => 500,
            Error::InvalidReputationScore => 501,
            Error::BadgeNotEarned => 502,
            Error::UserAlreadyRegistered => 503,
            Error::BadgeAlreadyAwarded => 504,
            Error::UserNotRegistered => 505,
            Error::ProposalNotActive => 600,
            Error::InsufficientVotingPower => 601,
            Error::ProposalAlreadyExecuted => 602,
            Error::QuorumNotReached => 603,
        }
    }
}

/// Failures of the direct-split payment ledger.
#[derive(Copy, Clone, Debug, PartialEq, Eq, Structural)]
pub enum MultiPartyPaymentError {
    /// A non-positive amount, an empty party list, or an arithmetic overflow.
    InvalidInput,
    /// The basis points of the parties do not add up to 10000.
    InvalidShareTotal,
    /// The index names no position of the share table.
    PartyIndexOutOfBounds,
    /// The pool has no share table.
    PartiesNotSetup,
    /// The party at the index is not the one that asks.
    PartyMismatch,
    /// The party is owed nothing.
    NoClaimableAmount,
}

impl MultiPartyPaymentError {
    /// The number under which the failure is reported on the ledger.
    pub open spec fn spec_code(self) -> u32 {
        match self {
            MultiPartyPaymentError::InvalidInput => 1000,
            MultiPartyPaymentError::InvalidShareTotal => 1001,
            MultiPartyPaymentError::PartyIndexOutOfBounds => 1002,
            MultiPartyPaymentError::PartiesNotSetup => 1003,
            MultiPartyPaymentError::PartyMismatch => 1004,
            MultiPartyPaymentError::NoClaimableAmount => 1005,
        }
    }

    /// The number under which the failure is reported on the ledger.
    #[verifier::when_used_as_spec(spec_code)]
    pub fn code(self) -> (code: u32)
        ensures
            code == self.spec_code(),
    {
        match self {
            MultiPartyPaymentError::InvalidInput => 1000,
            MultiPartyPaymentError::InvalidShareTotal => 1001,
            MultiPartyPaymentError::PartyIndexOutOfBounds => 1002,
            MultiPartyPaymentError::PartiesNotSetup => 1003,
            MultiPartyPaymentError::PartyMismatch => 1004,
            MultiPartyPaymentError::NoClaimableAmount => 1005,
        }
    }
}

/// Failures of the profit-distribution contract.
#[derive(Copy, Clone, Debug, PartialEq, Eq, Structural)]
pub enum ContractError {
    AlreadyInitialized,
    NotInitialized,
    InvalidSharePercentage,
    TotalSharesNot100,
    InsufficientBalance,
    NothingToClaim,
    AlreadyClaimed,
    Unauthorized,
    InvalidAmount,
}

impl ContractError {
    /// The number under which the failure is reported on the ledger.
    pub open spec fn spec_code(self) -> u32 {
        match self {
            ContractError::AlreadyInitialized => 1,
            ContractError::NotInitialized => 2,
            ContractError::InvalidSharePercentage => 3,
            ContractError::TotalSharesNot100 => 4,
            ContractError::InsufficientBalance => 5,
            ContractError::NothingToClaim => 6,
            ContractError::AlreadyClaimed => 7,
            ContractError::Unauthorized => 8,
            ContractError::InvalidAmount => 9,
        }
    }

    /// The number under which the failure is reported on the ledger.
    #[verifier::when_used_as_spec(spec_code)]
    pub fn code(self) -> (code: u32)
        ensures
            code == self.spec_code(),
    {
        match self {
            ContractError::AlreadyInitialized => 1,
            ContractError::NotInitialized => 2,
            ContractError::InvalidSharePercentage => 3,
            ContractError::TotalSharesNot100 => 4,
            ContractError::InsufficientBalance => 5,
            ContractError::NothingToClaim => 6,
            ContractError::AlreadyClaimed => 7,
            ContractError::Unauthorized => 8,
            ContractError::InvalidAmount => 9,
        }
    }
}

} // verus!
