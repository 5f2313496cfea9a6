use multi_party_payment::direct_split::{
    claim, configure, distribute, enroll_parties, get_party_by_index, has_outstanding,
    validate_parties, Party,
};
use multi_party_payment::direct_split_ledger::{
    MultiPartyPayment, PaymentEvent, PARTIES_SETUP, PAYMENT_RECEIVED, SHARE_WITHDRAWN,
};
use multi_party_payment::errors::MultiPartyPaymentError;
use multi_party_payment::identity::Identity;

fn address(seed: u8) -> Identity {
    Identity::account([seed; 32])
}

fn party(address: Identity, share_percentage: u32) -> Party {
    Party { address, share_percentage, claimable: 0, total_received: 0 }
}

fn claimables(table: &Vec<Party>) -> Vec<i128> {
    table.iter().map(|p| p.claimable).collect()
}

#[test]
fn test_setup_fails_if_share_total_not_10000() {
    let mut client = MultiPartyPayment::new();

    let p1 = party(address(1), 5000);
    let p2 = party(address(2), 4000);
    let parties = vec![p1, p2];

    let res = client.setup_parties(1u64, parties);
    assert!(res.is_err());
    assert_eq!(res, Err(MultiPartyPaymentError::InvalidShareTotal));
    assert!(client.parties(1).is_none());
    assert!(client.events().is_empty());
}

#[test]
fn test_receive_payment_distributes_correctly_with_remainder() {
    let mut client = MultiPartyPayment::new();

    let p1_addr = address(1);
    let p2_addr = address(2);
    let p3_addr = address(3);

    let parties = vec![party(p1_addr, 3333), party(p2_addr, 3333), party(p3_addr, 3334)];

    client.setup_parties(1u64, parties).unwrap();
    client.receive_payment(1u64, 100i128).unwrap();

    let p0 = client.get_party(1u64, 0u32).unwrap();
    let p1 = client.get_party(1u64, 1u32).unwrap();
    let p2 = client.get_party(1u64, 2u32).unwrap();

    assert_eq!(p0.claimable, 33);
    assert_eq!(p1.claimable, 33);
    assert_eq!(p2.claimable, 34);
}

#[test]
fn test_withdraw_cannot_exceed_claimable_and_index_safe() {
    let mut client = MultiPartyPayment::new();

    let p1_addr = address(1);
    let p2_addr = address(2);
    let parties = vec![party(p1_addr, 5000), party(p2_addr, 5000)];

    client.setup_parties(7u64, parties).unwrap();
    client.receive_payment(7u64, 10i128).unwrap();

    let withdrawn = client.withdraw_share(7u64, 0u32, p1_addr).unwrap();
    assert_eq!(withdrawn, 5);

    let res = client.withdraw_share(7u64, 0u32, p1_addr);
    assert!(res.is_err());
    assert_eq!(res, Err(MultiPartyPaymentError::NoClaimableAmount));

    let res = client.get_party(7u64, 99u32);
    assert!(res.is_err());
    assert_eq!(res.unwrap_err(), MultiPartyPaymentError::PartyIndexOutOfBounds);
}

#[test]
fn test_events_emitted() {
    let mut client = MultiPartyPayment::new();

    let p1_addr = address(1);
    let p2_addr = address(2);
    let parties = vec![party(p1_addr, 5000), party(p2_addr, 5000)];

    client.setup_parties(1u64, parties).unwrap();
    client.receive_payment(1u64, 10i128).unwrap();
    client.withdraw_share(1u64, 0u32, p1_addr).unwrap();

    let events = client.events();
    assert_eq!(events.len(), 3);

    let setup_topic = events[0].topic();
    assert_eq!(setup_topic, PARTIES_SETUP);
    assert_eq!(setup_topic, "mp_setup");

    let pay_topic = events[1].topic();
    assert_eq!(pay_topic, PAYMENT_RECEIVED);
    assert_eq!(pay_topic, "mp_pay");

    let wd_topic = events[2].topic();
    assert_eq!(wd_topic, SHARE_WITHDRAWN);
    assert_eq!(wd_topic, "mp_with");
}

#[test]
fn events_carry_their_payload() {
    let mut client = MultiPartyPayment::new();
    let p1_addr = address(1);
    client.setup_parties(4, vec![party(p1_addr, 5000), party(address(2), 5000)]).unwrap();
    client.receive_payment(4, 10).unwrap();
    client.withdraw_share(4, 0, p1_addr).unwrap();

    let events = client.events();
    match events[0] {
        PaymentEvent::PartiesSetup { project_id, party_count } => {
            assert_eq!(project_id, 4);
            assert_eq!(party_count, 2);
        }
        _ => panic!("the first event announces the setup"),
    }
    match events[1] {
        PaymentEvent::PaymentReceived { project_id, amount } => {
            assert_eq!(project_id, 4);
            assert_eq!(amount, 10);
        }
        _ => panic!("the second event announces the deposit"),
    }
    match events[2] {
        PaymentEvent::ShareWithdrawn { project_id, party_index, party, amount } => {
            assert_eq!(project_id, 4);
            assert_eq!(party_index, 0);
            assert!(party.equals(&p1_addr));
            assert_eq!(amount, 5);
        }
        _ => panic!("the third event announces the withdrawal"),
    }
}

#[test]
fn share_sum_must_be_exactly_10000() {
    let nine = vec![party(address(1), 5000), party(address(2), 4000)];
    assert_eq!(validate_parties(&nine), Err(MultiPartyPaymentError::InvalidShareTotal));

    let eleven = vec![party(address(1), 5000), party(address(2), 6000)];
    assert_eq!(validate_parties(&eleven), Err(MultiPartyPaymentError::InvalidShareTotal));

    let ten = vec![party(address(1), 5000), party(address(2), 5000)];
    assert_eq!(validate_parties(&ten), Ok(()));

    let one = vec![party(address(1), 10000)];
    assert_eq!(validate_parties(&one), Ok(()));

    let with_idle = vec![party(address(1), 10000), party(address(2), 0)];
    assert_eq!(validate_parties(&with_idle), Ok(()));
}

#[test]
fn setup_with_11000_is_rejected_by_the_ledger() {
    let mut client = MultiPartyPayment::new();
    let res = client.setup_parties(1, vec![party(address(1), 5000), party(address(2), 6000)]);
    assert_eq!(res, Err(MultiPartyPaymentError::InvalidShareTotal));
    assert_eq!(client.get_party(1, 0).unwrap_err(), MultiPartyPaymentError::PartiesNotSetup);
}

#[test]
fn empty_party_list_is_invalid_input() {
    let none: Vec<Party> = Vec::new();
    assert_eq!(validate_parties(&none), Err(MultiPartyPaymentError::InvalidInput));

    let mut client = MultiPartyPayment::new();
    assert_eq!(client.setup_parties(1, Vec::new()), Err(MultiPartyPaymentError::InvalidInput));
}

#[test]
fn share_sum_overflow_is_invalid_input() {
    let parties = vec![party(address(1), u32::MAX), party(address(2), 1)];
    assert_eq!(validate_parties(&parties), Err(MultiPartyPaymentError::InvalidInput));

    // The counter overflows before the sum could come back to anything.
    let wrapping = vec![party(address(1), u32::MAX), party(address(2), 10001)];
    assert_eq!(validate_parties(&wrapping), Err(MultiPartyPaymentError::InvalidInput));

    let large = vec![party(address(1), u32::MAX)];
    assert_eq!(validate_parties(&large), Err(MultiPartyPaymentError::InvalidShareTotal));
}

#[test]
fn setup_enters_parties_with_empty_balances() {
    let mut client = MultiPartyPayment::new();
    let a = address(1);

    let preloaded = Party { address: a, share_percentage: 10000, claimable: 77, total_received: 99 };
    client.setup_parties(1, vec![preloaded]).unwrap();
    let p = client.get_party(1, 0).unwrap();
    assert_eq!(p.claimable, 0);
    assert_eq!(p.total_received, 0);
    assert_eq!(p.share_percentage, 10000);
    assert!(p.address.equals(&a));
}

#[test]
fn setup_is_refused_while_a_party_is_owed() {
    let mut client = MultiPartyPayment::new();
    let a = address(1);
    let b = address(2);
    let c = address(3);

    client.setup_parties(1, vec![party(a, 4000), party(b, 6000)]).unwrap();
    client.receive_payment(1, 50).unwrap();
    assert_eq!(claimables(client.parties(1).unwrap()), vec![20, 30]);
    let events = client.events().len();

    // A valid list does not take the place of a table that still owes.
    let res = client.setup_parties(1, vec![party(b, 2500), party(c, 7500)]);
    assert_eq!(res, Err(MultiPartyPaymentError::InvalidInput));
    let table = client.parties(1).unwrap();
    assert_eq!(table.len(), 2);
    assert!(table[0].address.equals(&a));
    assert!(table[1].address.equals(&b));
    assert_eq!(table[0].share_percentage, 4000);
    assert_eq!(claimables(table), vec![20, 30]);
    assert_eq!(table[0].total_received, 20);
    assert_eq!(client.events().len(), events);

    // Nor does an invalid one: what is owed is looked at first.
    let res = client.setup_parties(1, vec![party(b, 2500)]);
    assert_eq!(res, Err(MultiPartyPaymentError::InvalidInput));

    // One party withdraws: the other is still owed.
    assert_eq!(client.withdraw_share(1, 0, a), Ok(20));
    let res = client.setup_parties(1, vec![party(b, 2500), party(c, 7500)]);
    assert_eq!(res, Err(MultiPartyPaymentError::InvalidInput));
    assert_eq!(claimables(client.parties(1).unwrap()), vec![0, 30]);

    // Another pool is set up whatever this one owes.
    assert_eq!(client.setup_parties(2, vec![party(c, 10000)]), Ok(()));

    // Once all have withdrawn the pool is set up again, and the list is
    // judged for itself.
    assert_eq!(client.withdraw_share(1, 1, b), Ok(30));
    let res = client.setup_parties(1, vec![party(b, 2500)]);
    assert_eq!(res, Err(MultiPartyPaymentError::InvalidShareTotal));
    assert_eq!(client.setup_parties(1, vec![party(b, 2500), party(c, 7500)]), Ok(()));
    let table = client.parties(1).unwrap();
    assert_eq!(table.len(), 2);
    assert!(table[0].address.equals(&b));
    assert!(table[1].address.equals(&c));
    assert_eq!(claimables(table), vec![0, 0]);
    assert_eq!(table[0].total_received, 0);
}

#[test]
fn configure_decides_over_the_stored_table_and_the_list() {
    let a = address(1);
    let b = address(2);
    let list = vec![party(a, 2500), party(b, 7500)];

    // A new pool.
    let table = configure(None, &list).unwrap();
    assert_eq!(table.len(), 2);
    assert_eq!(table[1].share_percentage, 7500);
    assert_eq!(configure(None, &Vec::new()).unwrap_err(), MultiPartyPaymentError::InvalidInput);

    // A pool that owes nothing.
    let settled = vec![
        Party { address: a, share_percentage: 10000, claimable: 0, total_received: 40 },
    ];
    assert!(!has_outstanding(&settled));
    let table = configure(Some(&settled), &list).unwrap();
    assert_eq!(claimables(&table), vec![0, 0]);
    assert_eq!(
        configure(Some(&settled), &vec![party(a, 9000)]).unwrap_err(),
        MultiPartyPaymentError::InvalidShareTotal
    );

    // A pool that owes one unit to its last party.
    let owing = vec![
        Party { address: a, share_percentage: 5000, claimable: 0, total_received: 40 },
        Party { address: b, share_percentage: 5000, claimable: 1, total_received: 40 },
    ];
    assert!(has_outstanding(&owing));
    assert_eq!(configure(Some(&owing), &list).unwrap_err(), MultiPartyPaymentError::InvalidInput);

    // A negative balance is no claim.
    let negative = vec![
        Party { address: a, share_percentage: 10000, claimable: -1, total_received: 0 },
    ];
    assert!(!has_outstanding(&negative));
    assert!(!has_outstanding(&Vec::new()));
    assert!(configure(Some(&negative), &list).is_ok());
}

#[test]
fn enroll_keeps_identity_and_allocation() {
    let a = address(9);
    let input = vec![
        Party { address: a, share_percentage: 1234, claimable: -5, total_received: 8 },
        Party { address: address(8), share_percentage: 1, claimable: 5, total_received: -8 },
    ];
    let table = enroll_parties(&input);
    assert_eq!(table.len(), 2);
    assert!(table[0].address.equals(&a));
    assert_eq!(table[0].share_percentage, 1234);
    assert_eq!(table[0].claimable, 0);
    assert_eq!(table[0].total_received, 0);
    assert_eq!(table[1].share_percentage, 1);
    assert_eq!(table[1].claimable, 0);
    assert_eq!(table[1].total_received, 0);
}

#[test]
fn last_party_receives_the_remainder() {
    // Floor shares: 1 * 3333 / 10000 = 0 for each of the first two.
    let table = vec![party(address(1), 3333), party(address(2), 3333), party(address(3), 3334)];
    let after = distribute(&table, 1).unwrap();
    assert_eq!(claimables(&after), vec![0, 0, 1]);

    // The last party holds no allocation and still receives what is left.
    let table = vec![party(address(1), 3333), party(address(2), 6667), party(address(3), 0)];
    let after = distribute(&table, 100).unwrap();
    assert_eq!(claimables(&after), vec![33, 66, 1]);

    // A single party receives everything.
    let table = vec![party(address(1), 10000)];
    let after = distribute(&table, 12345).unwrap();
    assert_eq!(claimables(&after), vec![12345]);

    let table = vec![party(address(1), 1), party(address(2), 9999)];
    let after = distribute(&table, 9999).unwrap();
    assert_eq!(claimables(&after), vec![0, 9999]);
}

#[test]
fn deposit_credits_both_balances() {
    let table = vec![
        Party { address: address(1), share_percentage: 2500, claimable: 10, total_received: 100 },
        Party { address: address(2), share_percentage: 7500, claimable: 0, total_received: 40 },
    ];
    let after = distribute(&table, 1000).unwrap();
    assert_eq!(after[0].claimable, 260);
    assert_eq!(after[0].total_received, 350);
    assert_eq!(after[1].claimable, 750);
    assert_eq!(after[1].total_received, 790);
    assert_eq!(after[0].share_percentage, 2500);
    assert_eq!(after[1].share_percentage, 7500);
    assert!(after[0].address.equals(&address(1)));
    assert!(after[1].address.equals(&address(2)));
}

#[test]
fn zero_and_negative_deposits_are_rejected() {
    let mut client = MultiPartyPayment::new();
    client.setup_parties(1, vec![party(address(1), 5000), party(address(2), 5000)]).unwrap();
    client.receive_payment(1, 10).unwrap();

    assert_eq!(client.receive_payment(1, 0), Err(MultiPartyPaymentError::InvalidInput));
    assert_eq!(client.receive_payment(1, -1), Err(MultiPartyPaymentError::InvalidInput));
    assert_eq!(client.receive_payment(1, i128::MIN), Err(MultiPartyPaymentError::InvalidInput));

    assert_eq!(claimables(client.parties(1).unwrap()), vec![5, 5]);
    assert_eq!(client.events().len(), 2);

    // The amount is looked at before the pool.
    assert_eq!(client.receive_payment(2, 0), Err(MultiPartyPaymentError::InvalidInput));
    let table = vec![party(address(1), 10000)];
    assert_eq!(distribute(&table, 0).unwrap_err(), MultiPartyPaymentError::InvalidInput);
    assert_eq!(distribute(&table, -7).unwrap_err(), MultiPartyPaymentError::InvalidInput);
}

#[test]
fn deposit_into_unknown_pool_is_not_set_up() {
    let mut client = MultiPartyPayment::new();
    assert_eq!(client.receive_payment(5, 10), Err(MultiPartyPaymentError::PartiesNotSetup));
    assert_eq!(
        client.withdraw_share(5, 0, address(1)),
        Err(MultiPartyPaymentError::PartiesNotSetup)
    );
    assert_eq!(client.get_party(5, 0).unwrap_err(), MultiPartyPaymentError::PartiesNotSetup);
    assert!(client.parties(5).is_none());
    assert!(client.events().is_empty());
}

#[test]
fn overflow_aborts_the_whole_deposit() {
    // The product with the first allocation leaves the range.
    let table = vec![party(address(1), 5000), party(address(2), 5000)];
    assert_eq!(distribute(&table, i128::MAX).unwrap_err(), MultiPartyPaymentError::InvalidInput);

    // The last party is not multiplied: with nothing allotted before it,
    // the largest amount goes through.
    let table = vec![party(address(1), 0), party(address(2), 10000)];
    let after = distribute(&table, i128::MAX).unwrap();
    assert_eq!(claimables(&after), vec![0, i128::MAX]);

    // A balance would overflow: nothing is credited, not even to the first.
    let mut client = MultiPartyPayment::new();
    client.setup_parties(1, vec![party(address(1), 5000), party(address(2), 5000)]).unwrap();
    let big = i128::MAX / 10000;
    client.receive_payment(1, big).unwrap();
    client.receive_payment(1, big).unwrap();
    client.withdraw_share(1, 0, address(1)).unwrap();
    // Party 0 can take more; party 1 holds `big` and total_received `big`.
    let before = claimables(client.parties(1).unwrap());
    let table = vec![
        Party { address: address(1), share_percentage: 5000, claimable: 0, total_received: 0 },
        Party {
            address: address(2),
            share_percentage: 5000,
            claimable: i128::MAX - 4,
            total_received: 0,
        },
    ];
    assert_eq!(distribute(&table, 10).unwrap_err(), MultiPartyPaymentError::InvalidInput);
    let table = vec![
        Party { address: address(1), share_percentage: 5000, claimable: 0, total_received: 0 },
        Party {
            address: address(2),
            share_percentage: 5000,
            claimable: 0,
            total_received: i128::MAX - 4,
        },
    ];
    assert_eq!(distribute(&table, 10).unwrap_err(), MultiPartyPaymentError::InvalidInput);
    let table = vec![
        Party { address: address(1), share_percentage: 5000, claimable: 0, total_received: 0 },
        Party {
            address: address(2),
            share_percentage: 5000,
            claimable: i128::MAX - 5,
            total_received: i128::MAX - 5,
        },
    ];
    let after = distribute(&table, 10).unwrap();
    assert_eq!(claimables(&after), vec![5, i128::MAX]);
    assert_eq!(claimables(client.parties(1).unwrap()), before);
}

#[test]
fn withdraw_guards_index_and_identity() {
    let mut client = MultiPartyPayment::new();
    let a = address(1);
    let b = address(2);
    client.setup_parties(1, vec![party(a, 5000), party(b, 5000)]).unwrap();
    client.receive_payment(1, 10).unwrap();

    assert_eq!(
        client.withdraw_share(1, 2, a),
        Err(MultiPartyPaymentError::PartyIndexOutOfBounds)
    );
    assert_eq!(
        client.withdraw_share(1, u32::MAX, a),
        Err(MultiPartyPaymentError::PartyIndexOutOfBounds)
    );
    assert_eq!(client.withdraw_share(1, 1, a), Err(MultiPartyPaymentError::PartyMismatch));
    assert_eq!(client.withdraw_share(1, 0, b), Err(MultiPartyPaymentError::PartyMismatch));
    // An account and a contract with one key are not the same party.
    assert_eq!(
        client.withdraw_share(1, 0, Identity::of_contract([1; 32])),
        Err(MultiPartyPaymentError::PartyMismatch)
    );
    // Nothing moved.
    assert_eq!(claimables(client.parties(1).unwrap()), vec![5, 5]);
    assert_eq!(client.events().len(), 2);

    assert_eq!(client.withdraw_share(1, 1, b), Ok(5));
    assert_eq!(claimables(client.parties(1).unwrap()), vec![5, 0]);
    assert_eq!(client.get_party(1, 1).unwrap().total_received, 5);
}

#[test]
fn withdraw_with_nothing_owed_is_refused() {
    let mut client = MultiPartyPayment::new();
    let a = address(1);
    client.setup_parties(1, vec![party(a, 10000)]).unwrap();
    assert_eq!(client.withdraw_share(1, 0, a), Err(MultiPartyPaymentError::NoClaimableAmount));

    let table = vec![Party { address: a, share_percentage: 10000, claimable: -3, total_received: 0 }];
    assert_eq!(claim(&table, 0, &a).unwrap_err(), MultiPartyPaymentError::NoClaimableAmount);
}

#[test]
fn claim_zeroes_only_the_claimable_of_one_party() {
    let a = address(1);
    let b = address(2);
    let table = vec![
        Party { address: a, share_percentage: 4000, claimable: 12, total_received: 20 },
        Party { address: b, share_percentage: 6000, claimable: 18, total_received: 30 },
    ];
    let (after, paid) = claim(&table, 1, &b).unwrap();
    assert_eq!(paid, 18);
    assert_eq!(after.len(), 2);
    assert_eq!(after[0].claimable, 12);
    assert_eq!(after[0].total_received, 20);
    assert_eq!(after[1].claimable, 0);
    assert_eq!(after[1].total_received, 30);
    assert_eq!(after[1].share_percentage, 6000);
    assert!(after[1].address.equals(&b));
    // The table handed in is as it was.
    assert_eq!(claimables(&table), vec![12, 18]);
}

#[test]
fn party_lookup_by_index() {
    let table = vec![party(address(1), 4000), party(address(2), 6000)];
    assert_eq!(get_party_by_index(&table, 0).unwrap().share_percentage, 4000);
    assert_eq!(get_party_by_index(&table, 1).unwrap().share_percentage, 6000);
    assert_eq!(
        get_party_by_index(&table, 2).unwrap_err(),
        MultiPartyPaymentError::PartyIndexOutOfBounds
    );
    let none: Vec<Party> = Vec::new();
    assert_eq!(
        get_party_by_index(&none, 0).unwrap_err(),
        MultiPartyPaymentError::PartyIndexOutOfBounds
    );
}

#[test]
fn claimable_and_withdrawn_add_up_to_deposits() {
    let mut client = MultiPartyPayment::new();
    let ids = [address(1), address(2), address(3)];
    client
        .setup_parties(1, vec![party(ids[0], 3333), party(ids[1], 3333), party(ids[2], 3334)])
        .unwrap();

    let mut deposited: i128 = 0;
    let mut withdrawn: i128 = 0;
    let amounts: [i128; 6] = [100, 1, 7, 9999, 3, 123456789];
    for (round, amount) in amounts.iter().enumerate() {
        client.receive_payment(1, *amount).unwrap();
        deposited += *amount;
        let total: i128 = claimables(client.parties(1).unwrap()).iter().sum();
        assert_eq!(total + withdrawn, deposited);

        let index = round % 3;
        if let Ok(paid) = client.withdraw_share(1, index as u32, ids[index]) {
            withdrawn += paid;
        }
        // A refused request in between changes nothing.
        assert!(client.receive_payment(1, 0).is_err());
        assert!(client.withdraw_share(1, 3, ids[0]).is_err());
        let total: i128 = claimables(client.parties(1).unwrap()).iter().sum();
        assert_eq!(total + withdrawn, deposited);
    }
    let received: i128 = client.parties(1).unwrap().iter().map(|p| p.total_received).sum();
    assert_eq!(received, deposited);
}

#[test]
fn pools_do_not_interact() {
    let mut client = MultiPartyPayment::new();
    let a = address(1);
    let b = address(2);
    client.setup_parties(1, vec![party(a, 10000)]).unwrap();
    client.setup_parties(2, vec![party(a, 2000), party(b, 8000)]).unwrap();
    client.receive_payment(2, 10).unwrap();
    assert_eq!(claimables(client.parties(1).unwrap()), vec![0]);
    assert_eq!(claimables(client.parties(2).unwrap()), vec![2, 8]);
    client.receive_payment(1, 3).unwrap();
    client.withdraw_share(2, 1, b).unwrap();
    assert_eq!(claimables(client.parties(1).unwrap()), vec![3]);
    assert_eq!(claimables(client.parties(2).unwrap()), vec![2, 0]);
}

#[test]
fn error_codes_of_the_direct_split_ledger() {
    assert_eq!(MultiPartyPaymentError::InvalidInput.code(), 1000);
    assert_eq!(MultiPartyPaymentError::InvalidShareTotal.code(), 1001);
    assert_eq!(MultiPartyPaymentError::PartyIndexOutOfBounds.code(), 1002);
    assert_eq!(MultiPartyPaymentError::PartiesNotSetup.code(), 1003);
    assert_eq!(MultiPartyPaymentError::PartyMismatch.code(), 1004);
    assert_eq!(MultiPartyPaymentError::NoClaimableAmount.code(), 1005);
}

#[test]
fn deposit_into_a_list_that_is_no_share_table() {
    let none: Vec<Party> = Vec::new();
    assert_eq!(distribute(&none, 10).unwrap_err(), MultiPartyPaymentError::PartiesNotSetup);
    let short = vec![party(address(1), 5000), party(address(2), 4000)];
    assert_eq!(distribute(&short, 10).unwrap_err(), MultiPartyPaymentError::PartiesNotSetup);
    // The amount is looked at first.
    assert_eq!(distribute(&none, 0).unwrap_err(), MultiPartyPaymentError::InvalidInput);
    assert_eq!(distribute(&short, -1).unwrap_err(), MultiPartyPaymentError::InvalidInput);
}
