use multi_party_payment::calculate_percentage;
use multi_party_payment::constants::{
    DEFAULT_PLATFORM_FEE, GOVERNANCE_QUORUM, MAX_FUNDING_GOAL, MAX_PLATFORM_FEE,
    MAX_PROJECT_DURATION, MILESTONE_APPROVAL_THRESHOLD, MIN_CONTRIBUTION, MIN_FUNDING_GOAL,
    MIN_PROJECT_DURATION, MIN_VALIDATORS, REPUTATION_MAX, REPUTATION_MIN, REPUTATION_START,
    VOTING_PERIOD,
};
use multi_party_payment::errors::{ContractError, Error};
use multi_party_payment::escrow::{validate_validator, EscrowInfo};
use multi_party_payment::events::{DIVIDEND_CLAIMED, PROPOSAL_CREATED, VOTE_CAST};
use multi_party_payment::identity::Identity;
use multi_party_payment::profit_distribution::{emit_claim_event, emit_deposit_event, EventType};

#[test]
fn percentage_of_a_whole() {
    assert_eq!(calculate_percentage(1000, 25, 100), 250);
    assert_eq!(calculate_percentage(1000, 2500, 10000), 250);
    assert_eq!(calculate_percentage(100, 1, 3), 33);
    assert_eq!(calculate_percentage(-100, 1, 3), -33);
    assert_eq!(calculate_percentage(7, 0, 1), 0);
    assert_eq!(calculate_percentage(0, 5, 7), 0);
    assert_eq!(calculate_percentage(i128::MAX, 1, 1), i128::MAX);
}

#[test]
fn identities_are_compared_by_kind_and_key() {
    let a = Identity::account([1; 32]);
    let b = Identity::account([1; 32]);
    let c = Identity::of_contract([1; 32]);
    let mut key = [1u8; 32];
    key[31] = 2;
    let d = Identity::account(key);
    let mut key = [1u8; 32];
    key[0] = 0;
    let e = Identity::account(key);
    assert!(a.equals(&b));
    assert!(a.equals(&a));
    assert!(!a.equals(&c));
    assert!(!a.equals(&d));
    assert!(!a.equals(&e));
    assert!(!c.contract == false);
    assert!(!a.contract);
    assert_eq!(d.key[31], 2);
}

#[test]
fn validators_are_recognised() {
    let v1 = Identity::account([1; 32]);
    let v2 = Identity::account([2; 32]);
    let stranger = Identity::account([3; 32]);
    let escrow = EscrowInfo { validators: vec![v1, v2] };
    assert_eq!(validate_validator(&escrow, &v1), Ok(()));
    assert_eq!(validate_validator(&escrow, &v2), Ok(()));
    assert_eq!(validate_validator(&escrow, &stranger), Err(Error::NotAValidator));
    assert_eq!(
        validate_validator(&escrow, &Identity::of_contract([1; 32])),
        Err(Error::NotAValidator)
    );
    let empty = EscrowInfo { validators: Vec::new() };
    assert_eq!(validate_validator(&empty, &v1), Err(Error::NotAValidator));
}

#[test]
fn profit_events_are_appended() {
    let investor = Identity::account([4; 32]);
    let mut log: Vec<EventType> = Vec::new();
    emit_deposit_event(&mut log, 7, 1000);
    emit_claim_event(&mut log, 7, &investor, 250);
    assert_eq!(log.len(), 2);
    match log[0] {
        EventType::ProfitDeposited(project_id, amount) => {
            assert_eq!(project_id, 7);
            assert_eq!(amount, 1000);
        }
        _ => panic!("the first event is the deposit"),
    }
    match log[1] {
        EventType::DividendClaimed(project_id, who, amount) => {
            assert_eq!(project_id, 7);
            assert!(who.equals(&investor));
            assert_eq!(amount, 250);
        }
        _ => panic!("the second event is the claim"),
    }
}

#[test]
fn contract_error_codes() {
    assert_eq!(ContractError::AlreadyInitialized.code(), 1);
    assert_eq!(ContractError::NotInitialized.code(), 2);
    assert_eq!(ContractError::InvalidSharePercentage.code(), 3);
    assert_eq!(ContractError::TotalSharesNot100.code(), 4);
    assert_eq!(ContractError::InsufficientBalance.code(), 5);
    assert_eq!(ContractError::NothingToClaim.code(), 6);
    assert_eq!(ContractError::AlreadyClaimed.code(), 7);
    assert_eq!(ContractError::Unauthorized.code(), 8);
    assert_eq!(ContractError::InvalidAmount.code(), 9);
}

#[test]
fn platform_constants() {
    assert_eq!(DEFAULT_PLATFORM_FEE, 250);
    assert_eq!(MAX_PLATFORM_FEE, 1000);
    assert_eq!(MIN_FUNDING_GOAL, 1_000 * 10_000_000);
    assert_eq!(MAX_FUNDING_GOAL, 1_000_000 * 10_000_000);
    assert_eq!(MIN_PROJECT_DURATION, 24 * 60 * 60);
    assert_eq!(MAX_PROJECT_DURATION, 180 * 24 * 60 * 60);
    assert_eq!(MIN_CONTRIBUTION, 10 * 10_000_000);
    assert_eq!(MILESTONE_APPROVAL_THRESHOLD, 6000);
    assert_eq!(MIN_VALIDATORS, 3);
    assert_eq!(REPUTATION_MIN, 0);
    assert_eq!(REPUTATION_MAX, 10000);
    assert_eq!(REPUTATION_START, 100);
    assert_eq!(GOVERNANCE_QUORUM, 2000);
    assert_eq!(VOTING_PERIOD, 7 * 24 * 60 * 60);
    assert_eq!(PROPOSAL_CREATED, "proposal");
    assert_eq!(VOTE_CAST, "vote");
    assert_eq!(DIVIDEND_CLAIMED, "claim");
}
