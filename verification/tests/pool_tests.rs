use donation_pool::errors::Error;
use donation_pool::events::Event;
use donation_pool::pool::DonationPool;

const ADMIN: u64 = 1;
const DONOR: u64 = 100;
const A: u64 = 11;
const B: u64 = 12;
const C: u64 = 13;

fn fresh_pool() -> DonationPool {
    let mut pool = DonationPool::new();
    pool.init(ADMIN).unwrap();
    pool
}

fn info(pool: &DonationPool, id: u64) -> (String, u64, u64, bool) {
    pool.get_shelter_info(id).unwrap()
}

#[test]
fn register_requires_admin() {
    let mut pool = fresh_pool();
    assert!(matches!(pool.add_shelter(DONOR, A, String::from("alpha")), Err(Error::NotAuthorized)));
    assert!(pool.add_shelter(ADMIN, A, String::from("alpha")).is_ok());
}

#[test]
fn register_rejects_zero_identity() {
    let mut pool = fresh_pool();
    assert!(matches!(pool.add_shelter(ADMIN, 0, String::from("zero")), Err(Error::InvalidIdentity)));
}

#[test]
fn register_reports_the_addition() {
    let mut pool = fresh_pool();
    match pool.add_shelter(ADMIN, A, String::from("alpha")).unwrap() {
        Event::ShelterAdded { shelter, name } => {
            assert_eq!(shelter, A);
            assert_eq!(name, "alpha");
        }
        other => panic!("unexpected event {:?}", other),
    }
    let (name, balance, received, active) = info(&pool, A);
    assert_eq!(name, "alpha");
    assert_eq!(balance, 0);
    assert_eq!(received, 0);
    assert!(active);
}

#[test]
fn unknown_identity_reports_empty_defaults() {
    let pool = fresh_pool();
    assert_eq!(info(&pool, 999), (String::new(), 0, 0, false));
}

#[test]
fn double_registration_fails_then_reregistration_resets_total_only() {
    let mut pool = fresh_pool();
    pool.add_shelter(ADMIN, A, String::from("alpha")).unwrap();
    // Registering again while still active is refused.
    assert!(matches!(pool.add_shelter(ADMIN, A, String::from("alpha2")), Err(Error::AlreadyActive)));
    // Give the shelter a balance, then deactivate it.
    pool.donate_to_shelter(DONOR, A, 10000).unwrap();
    pool.remove_shelter(ADMIN, A).unwrap();
    // A later registration succeeds and starts the record afresh ...
    pool.add_shelter(ADMIN, A, String::from("alpha3")).unwrap();
    let (name, balance, received, active) = info(&pool, A);
    assert_eq!(name, "alpha3");
    assert_eq!(received, 0, "total_received resets at re-registration");
    assert!(active);
    // ... but the balance-ledger entry is not reset: it carries over.
    assert_eq!(balance, 9750);
}

#[test]
fn remove_unknown_or_inactive_fails_with_not_found() {
    let mut pool = fresh_pool();
    assert!(matches!(pool.remove_shelter(ADMIN, A), Err(Error::NotFound)));
    pool.add_shelter(ADMIN, A, String::from("alpha")).unwrap();
    assert!(matches!(pool.remove_shelter(DONOR, A), Err(Error::NotAuthorized)));
    pool.remove_shelter(ADMIN, A).unwrap();
    assert!(matches!(pool.remove_shelter(ADMIN, A), Err(Error::NotFound)));
}

#[test]
fn earmarked_donation_takes_the_fee_exactly() {
    let mut pool = fresh_pool();
    pool.add_shelter(ADMIN, A, String::from("alpha")).unwrap();
    match pool.donate_to_shelter(DONOR, A, 10000).unwrap() {
        Event::DonationMade { donor, shelter, amount } => {
            assert_eq!(donor, DONOR);
            assert_eq!(shelter, A);
            assert_eq!(amount, 9750, "net of the 2.5% fee");
        }
        other => panic!("unexpected event {:?}", other),
    }
    let (_, balance, received, _) = info(&pool, A);
    assert_eq!(balance, 9750);
    assert_eq!(received, 9750);
    let (total, actives, custody) = pool.get_pool_stats(10000);
    assert_eq!(total, 10000, "the grand total counts the gross amount");
    assert_eq!(actives, 1);
    assert_eq!(custody, 10000);
}

#[test]
fn donation_rejects_zero_and_inactive_targets() {
    let mut pool = fresh_pool();
    pool.add_shelter(ADMIN, A, String::from("alpha")).unwrap();
    assert!(matches!(pool.donate_to_shelter(DONOR, A, 0), Err(Error::InvalidAmount)));
    assert!(matches!(pool.donate_to_shelter(DONOR, B, 500), Err(Error::ShelterInactive)));
    pool.remove_shelter(ADMIN, A).unwrap();
    assert!(matches!(pool.donate_to_shelter(DONOR, A, 500), Err(Error::ShelterInactive)));
    let (total, _, _) = pool.get_pool_stats(0);
    assert_eq!(total, 0, "failed donations leave the grand total untouched");
}

#[test]
fn pooled_donation_splits_equally_in_list_order() {
    let mut pool = fresh_pool();
    pool.add_shelter(ADMIN, A, String::from("alpha")).unwrap();
    pool.add_shelter(ADMIN, B, String::from("beta")).unwrap();
    pool.add_shelter(ADMIN, C, String::from("gamma")).unwrap();
    let events = pool.donate_to_pool(DONOR, 10000).unwrap();
    // fee = 250, net = 9750, per shelter = 9750 / 3 = 3250, remainder 0.
    assert_eq!(events.len(), 3);
    let expected = [A, B, C];
    for (event, want) in events.iter().zip(expected.iter()) {
        match event {
            Event::DonationMade { donor, shelter, amount } => {
                assert_eq!(*donor, DONOR);
                assert_eq!(*shelter, *want);
                assert_eq!(*amount, 3250);
            }
            other => panic!("unexpected event {:?}", other),
        }
    }
    for id in [A, B, C] {
        let (_, balance, received, _) = info(&pool, id);
        assert_eq!(balance, 3250);
        assert_eq!(received, 3250);
    }
    let (total, actives, _) = pool.get_pool_stats(0);
    assert_eq!(total, 10000);
    assert_eq!(actives, 3);
}

#[test]
fn pooled_donation_remainder_stays_in_custody() {
    let mut pool = fresh_pool();
    pool.add_shelter(ADMIN, A, String::from("alpha")).unwrap();
    pool.add_shelter(ADMIN, B, String::from("beta")).unwrap();
    pool.add_shelter(ADMIN, C, String::from("gamma")).unwrap();
    pool.donate_to_pool(DONOR, 10001).unwrap();
    // fee = floor(10001 * 250 / 10000) = 250, net = 9751,
    // per shelter = floor(9751 / 3) = 3250, remainder 1 credited to nobody.
    let mut credited = 0;
    for id in [A, B, C] {
        let (_, balance, _, _) = info(&pool, id);
        assert_eq!(balance, 3250);
        credited += balance;
    }
    assert_eq!(credited, 9750);
    let (total, _, _) = pool.get_pool_stats(10001);
    assert_eq!(total, 10001);
    // One unit of the net amount (and the whole fee) stays in custody.
    assert_eq!(10001 - credited, 251);
}

#[test]
fn pooled_donation_needs_an_active_shelter() {
    let mut pool = fresh_pool();
    assert!(matches!(pool.donate_to_pool(DONOR, 0), Err(Error::InvalidAmount)));
    assert!(matches!(pool.donate_to_pool(DONOR, 10000), Err(Error::NoActiveShelters)));
    pool.add_shelter(ADMIN, A, String::from("alpha")).unwrap();
    pool.remove_shelter(ADMIN, A).unwrap();
    assert!(matches!(pool.donate_to_pool(DONOR, 10000), Err(Error::NoActiveShelters)));
}

#[test]
fn swap_remove_reorders_enumeration() {
    let mut pool = fresh_pool();
    pool.add_shelter(ADMIN, A, String::from("alpha")).unwrap();
    pool.add_shelter(ADMIN, B, String::from("beta")).unwrap();
    pool.add_shelter(ADMIN, C, String::from("gamma")).unwrap();
    assert_eq!(pool.get_active_shelters(), vec![A, B, C]);
    // Removing the first entry moves the last into its slot.
    match pool.remove_shelter(ADMIN, A).unwrap() {
        Event::ShelterRemoved { shelter } => assert_eq!(shelter, A),
        other => panic!("unexpected event {:?}", other),
    }
    assert_eq!(pool.get_active_shelters(), vec![C, B]);
    assert!(!pool.get_active_shelters().contains(&A));
    assert_eq!(pool.get_active_shelter_count(), 2);
}

#[test]
fn withdraw_pays_out_and_zeroes_the_balance() {
    let mut pool = fresh_pool();
    pool.add_shelter(ADMIN, A, String::from("alpha")).unwrap();
    pool.donate_to_shelter(DONOR, A, 10000).unwrap();
    assert_eq!(pool.withdraw_funds(A), Ok(9750));
    let (_, balance, received, _) = info(&pool, A);
    assert_eq!(balance, 0);
    assert_eq!(received, 9750, "the lifetime total is untouched by withdrawal");
    assert_eq!(pool.withdraw_funds(A), Err(Error::NothingToWithdraw));
}

#[test]
fn withdraw_by_inactive_shelter_fails_until_reregistered() {
    let mut pool = fresh_pool();
    pool.add_shelter(ADMIN, A, String::from("alpha")).unwrap();
    pool.donate_to_shelter(DONOR, A, 10000).unwrap();
    pool.remove_shelter(ADMIN, A).unwrap();
    // The stored balance is nonzero but provably inaccessible.
    let (_, balance, _, active) = info(&pool, A);
    assert_eq!(balance, 9750);
    assert!(!active);
    assert_eq!(pool.withdraw_funds(A), Err(Error::ShelterInactive));
    // Re-registration restores access: the stale balance pays out.
    pool.add_shelter(ADMIN, A, String::from("alpha")).unwrap();
    assert_eq!(pool.withdraw_funds(A), Ok(9750));
    assert_eq!(info(&pool, A).1, 0);
}

#[test]
fn admin_fee_withdrawal_checks() {
    let mut pool = fresh_pool();
    pool.add_shelter(ADMIN, A, String::from("alpha")).unwrap();
    pool.donate_to_shelter(DONOR, A, 10000).unwrap();
    assert_eq!(pool.withdraw_fees(DONOR, 10000), Err(Error::NotAuthorized));
    assert_eq!(pool.withdraw_fees(ADMIN, 0), Err(Error::NothingToWithdraw));
    assert_eq!(pool.withdraw_fees(ADMIN, 10000), Ok(10000));
}

#[test]
fn admin_fee_withdrawal_drains_funds_owed_to_shelters() {
    // The admin path pays out the whole custody balance, not a separate
    // fee accumulator: afterwards the host no longer holds what the
    // ledger still owes the shelters, and their withdrawals bounce.
    let mut pool = fresh_pool();
    pool.add_shelter(ADMIN, A, String::from("alpha")).unwrap();
    pool.donate_to_shelter(DONOR, A, 10000).unwrap();
    // The host's custody holds the whole gross amount so far.
    let mut custody: u64 = 10000;
    let drained = pool.withdraw_fees(ADMIN, custody).unwrap();
    assert_eq!(drained, 10000, "the entire custody, shelter balances included");
    custody -= drained;
    // The ledger still records the shelter's claim ...
    let snapshot = pool.clone();
    let owed = pool.withdraw_funds(A).unwrap();
    assert_eq!(owed, 9750);
    // ... but the host cannot honour the transfer, so it reports the
    // failure and rolls the call back to the pre-call state.
    let host_result: Result<u64, Error> = if owed <= custody {
        Ok(owed)
    } else {
        Err(Error::TransferFailed)
    };
    assert_eq!(host_result, Err(Error::TransferFailed), "host-level insufficient funds");
    let pool = snapshot;
    assert_eq!(info(&pool, A).1, 9750, "rolled back: the claim is still recorded");
}

#[test]
fn overflow_is_rejected_and_state_kept() {
    let mut pool = fresh_pool();
    pool.add_shelter(ADMIN, A, String::from("alpha")).unwrap();
    let big: u64 = 10_000_000_000_000_000_000;
    pool.donate_to_shelter(DONOR, A, big).unwrap();
    let (_, balance_before, received_before, _) = info(&pool, A);
    // A second huge donation would push the grand total past u64::MAX.
    assert!(matches!(pool.donate_to_shelter(DONOR, A, big), Err(Error::Overflow)));
    assert!(matches!(pool.donate_to_pool(DONOR, big), Err(Error::Overflow)));
    let (_, balance_after, received_after, _) = info(&pool, A);
    assert_eq!(balance_after, balance_before);
    assert_eq!(received_after, received_before);
    let (total, _, _) = pool.get_pool_stats(0);
    assert_eq!(total, big);
}

#[test]
fn total_donations_sums_every_accepted_gross_amount() {
    let mut pool = fresh_pool();
    pool.add_shelter(ADMIN, A, String::from("alpha")).unwrap();
    pool.add_shelter(ADMIN, B, String::from("beta")).unwrap();
    pool.donate_to_shelter(DONOR, A, 10000).unwrap();
    pool.donate_to_pool(DONOR, 5000).unwrap();
    assert!(matches!(pool.donate_to_shelter(DONOR, A, 0), Err(Error::InvalidAmount)));
    assert!(matches!(pool.donate_to_shelter(DONOR, C, 777), Err(Error::ShelterInactive)));
    pool.donate_to_shelter(DONOR, B, 40).unwrap();
    let (total, _, _) = pool.get_pool_stats(0);
    assert_eq!(total, 10000 + 5000 + 40, "only accepted gross amounts count");
}

#[test]
fn balance_never_exceeds_received_without_reregistration() {
    let mut pool = fresh_pool();
    pool.add_shelter(ADMIN, A, String::from("alpha")).unwrap();
    pool.add_shelter(ADMIN, B, String::from("beta")).unwrap();
    pool.donate_to_shelter(DONOR, A, 10000).unwrap();
    pool.donate_to_pool(DONOR, 999).unwrap();
    pool.withdraw_funds(A).unwrap();
    pool.donate_to_shelter(DONOR, A, 40).unwrap();
    for id in [A, B] {
        let (_, balance, received, _) = info(&pool, id);
        assert!(balance <= received);
    }
}

#[test]
fn init_records_the_admin() {
    let mut pool = DonationPool::new();
    pool.init(ADMIN).unwrap();
    assert!(matches!(pool.add_shelter(DONOR, A, String::from("a")), Err(Error::NotAuthorized)));
    // A repeated call overwrites the admin; the design has no idempotence
    // check, so the previous admin loses the privilege.
    pool.init(DONOR).unwrap();
    assert!(pool.add_shelter(DONOR, A, String::from("a")).is_ok());
    assert!(matches!(pool.add_shelter(ADMIN, B, String::from("b")), Err(Error::NotAuthorized)));
}

#[test]
fn empty_and_long_names_are_kept_verbatim() {
    let mut pool = fresh_pool();
    pool.add_shelter(ADMIN, A, String::new()).unwrap();
    assert_eq!(info(&pool, A).0, "");
    let long = "shelter ".repeat(100);
    pool.add_shelter(ADMIN, B, long.clone()).unwrap();
    assert_eq!(info(&pool, B).0, long);
}
