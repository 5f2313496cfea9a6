use multi_party_payment::utils::{
    calculate_fee, calculate_percentage, calculate_share, checked_share, validate_basis_points,
    verify_future_timestamp, verify_past_timestamp,
};

#[test]
fn test_calculate_percentage() {
    // 25% of 1000
    assert_eq!(calculate_percentage(1000, 2500), 250);

    // 100% of 1000
    assert_eq!(calculate_percentage(1000, 10000), 1000);

    // 1% of 1000
    assert_eq!(calculate_percentage(1000, 100), 10);
}

#[test]
fn test_validate_basis_points() {
    assert!(validate_basis_points(0));
    assert!(validate_basis_points(5000));
    assert!(validate_basis_points(10000));
    assert!(!validate_basis_points(10001));
}

#[test]
fn percentage_rounds_toward_zero() {
    assert_eq!(calculate_percentage(100, 3333), 33);
    assert_eq!(calculate_percentage(-100, 3333), -33);
    assert_eq!(calculate_percentage(0, 10000), 0);
    assert_eq!(calculate_percentage(1, 9999), 0);
}

#[test]
fn fee_and_share_follow_the_percentage() {
    assert_eq!(calculate_fee(1000, 250), 25);
    assert_eq!(calculate_share(100, 3334), 33);
    assert_eq!(calculate_share(10, 5000), 5);
}

#[test]
fn checked_share_reports_overflow() {
    assert_eq!(checked_share(100, 3333), Some(33));
    assert_eq!(checked_share(i128::MAX, 2), None);
    assert_eq!(checked_share(i128::MIN, 2), None);
    assert_eq!(checked_share(i128::MAX, 1), Some(i128::MAX / 10000));
    assert_eq!(checked_share(i128::MAX, 0), Some(0));
}

#[test]
fn timestamps_are_compared_with_now() {
    assert!(verify_future_timestamp(100, 101));
    assert!(!verify_future_timestamp(100, 100));
    assert!(!verify_future_timestamp(100, 99));
    assert!(verify_past_timestamp(100, 100));
    assert!(verify_past_timestamp(100, 99));
    assert!(!verify_past_timestamp(100, 101));
}
