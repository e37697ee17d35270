use donation::contract::{Contract, PromiseFailure};
use donation::error::DonationError;
use donation::ledger::STORAGE_COST;

const FEE: u128 = STORAGE_COST;

fn s(x: &str) -> String {
    x.to_string()
}

fn payout(c: &mut Contract, caller: &str) -> Result<u128, DonationError> {
    let me = s("donation.testnet");
    let amount = c.withdrawal(&s(caller))?;
    assert_eq!(c.withdrawal_callback(&me, &me, true), Ok(amount));
    Ok(amount)
}

fn setup() -> Contract {
    Contract::init(s("owner.testnet"), s("ben.testnet"), s("nft.testnet"), s("0"))
}

#[test]
fn init_sets_privileged_account_to_predecessor() {
    let c = setup();
    assert_eq!(c.get_privileged_account(), "owner.testnet");
    assert_eq!(c.get_beneficiary(), "ben.testnet");
    assert_eq!(c.get_nft_deployed_account(), "nft.testnet");
    assert_eq!(c.get_token_id(), "0");
    assert_eq!(c.number_of_donors(), 0);
}

#[test]
fn first_donation_of_twice_the_fee_is_recorded_in_full() {
    let mut c = setup();
    assert_eq!(c.donate(s("a.testnet"), 2 * FEE), Ok(2 * FEE));
    let d = c.get_donation_for_account(s("a.testnet"));
    assert_eq!(d.account_id, "a.testnet");
    assert_eq!(d.total_amount, 2 * FEE);
}

#[test]
fn donations_accumulate_to_the_sum_of_deposits() {
    let mut c = setup();
    assert_eq!(c.donate(s("a"), FEE + 1), Ok(FEE + 1));
    assert_eq!(c.donate(s("a"), 5), Ok(FEE + 6));
    assert_eq!(c.donate(s("b"), FEE + 10), Ok(FEE + 10));
    assert_eq!(c.donate(s("a"), 7), Ok(FEE + 13));
    assert_eq!(c.get_donation_for_account(s("a")).total_amount, FEE + 13);
    assert_eq!(c.get_donation_for_account(s("b")).total_amount, FEE + 10);
    assert_eq!(c.number_of_donors(), 2);
}

#[test]
fn later_donations_below_the_fee_are_accepted() {
    let mut c = setup();
    c.donate(s("a"), FEE + 1).unwrap();
    assert_eq!(c.donate(s("a"), 1), Ok(FEE + 2));
}

#[test]
fn first_donation_at_or_below_fee_is_rejected() {
    let mut c = setup();
    assert_eq!(c.donate(s("a"), FEE), Err(DonationError::ValidationError));
    assert_eq!(c.donate(s("a"), 0), Err(DonationError::ValidationError));
    assert_eq!(c.number_of_donors(), 0);
    assert_eq!(c.get_donation_for_account(s("a")).total_amount, 0);
}

#[test]
fn donation_past_u128_max_is_rejected() {
    let mut c = setup();
    c.donate(s("a"), u128::MAX - 5).unwrap();
    assert_eq!(c.donate(s("b"), FEE + 1), Err(DonationError::AmountOverflow));
    assert_eq!(c.donate(s("a"), 6), Err(DonationError::AmountOverflow));
    assert_eq!(c.donate(s("a"), 5), Ok(u128::MAX));
    assert_eq!(c.number_of_donors(), 1);
}

#[test]
fn unknown_account_reads_zero() {
    let c = setup();
    let d = c.get_donation_for_account(s("nobody"));
    assert_eq!(d.account_id, "nobody");
    assert_eq!(d.total_amount, 0);
}

#[test]
fn withdrawal_denied_to_non_privileged_caller() {
    let mut c = setup();
    c.donate(s("a"), 10 * FEE).unwrap();
    assert_eq!(c.withdrawal(&s("ben.testnet")), Err(DonationError::AccessDenied));
    assert_eq!(c.withdrawal(&s("a")), Err(DonationError::AccessDenied));
    let mut empty = setup();
    assert_eq!(empty.withdrawal(&s("a")), Err(DonationError::AccessDenied));
    assert_eq!(c.number_of_donors(), 1);
}

#[test]
fn withdrawal_denied_when_privileged_caller_is_not_beneficiary() {
    let mut c = setup();
    c.donate(s("a"), 10 * FEE).unwrap();
    assert_eq!(c.withdrawal(&s("owner.testnet")), Err(DonationError::AccessDenied));
}

#[test]
fn withdrawal_needs_more_than_the_fee() {
    let mut c = Contract::init(s("ben"), s("ben"), s("nft"), s("0"));
    assert_eq!(c.withdrawal(&s("ben")), Err(DonationError::InsufficientFunds));
}

#[test]
fn withdrawal_pays_out_total_and_clears_ledger() {
    let mut c = Contract::init(s("ben"), s("ben"), s("nft"), s("0"));
    c.donate(s("a"), 2 * FEE).unwrap();
    c.donate(s("b"), FEE + 3).unwrap();
    c.donate(s("a"), 4).unwrap();
    assert_eq!(payout(&mut c, "ben"), Ok(3 * FEE + 7));
    assert_eq!(c.number_of_donors(), 0);
    assert_eq!(c.get_donation_for_account(s("a")).total_amount, 0);
    assert_eq!(c.get_donation_for_account(s("b")).total_amount, 0);
    assert!(c.get_donations(None, None).is_empty());
    assert_eq!(c.withdrawal(&s("ben")), Err(DonationError::InsufficientFunds));
    // After a reset a returning donor pays the fee again.
    assert_eq!(c.donate(s("a"), 1), Err(DonationError::ValidationError));
    assert_eq!(c.donate(s("a"), FEE + 1), Ok(FEE + 1));
}

#[test]
fn registry_answer_becomes_privileged_account() {
    let mut c = setup();
    let q = c.privilege_check().unwrap();
    assert_eq!(q.registry, "nft.testnet");
    assert_eq!(q.token_id, "0");
    assert_eq!(c.get_privileged_account(), "owner.testnet");
    let me = s("donation.testnet");
    assert_eq!(c.privilege_check_callback(&me, &me, q.request_id, Ok(s("holder"))), Ok(()));
    assert_eq!(c.get_privileged_account(), "holder");
}

#[test]
fn callbacks_in_reverse_order_leave_the_last_answer() {
    let mut c = setup();
    let me = s("donation.testnet");
    let q1 = c.privilege_check().unwrap();
    let q2 = c.privilege_check().unwrap();
    assert_ne!(q1.request_id, q2.request_id);
    assert_eq!(c.privilege_check_callback(&me, &me, q2.request_id, Ok(s("second"))), Ok(()));
    assert_eq!(c.get_privileged_account(), "second");
    assert_eq!(c.privilege_check_callback(&me, &me, q1.request_id, Ok(s("first"))), Ok(()));
    assert_eq!(c.get_privileged_account(), "first");
}

#[test]
fn failed_query_leaves_privileged_account() {
    let mut c = setup();
    let me = s("donation.testnet");
    let q = c.privilege_check().unwrap();
    assert_eq!(
        c.privilege_check_callback(&me, &me, q.request_id, Err(PromiseFailure::Failed)),
        Err(DonationError::ExternalQueryError)
    );
    assert_eq!(c.get_privileged_account(), "owner.testnet");
    // The query is closed: its callback cannot run again.
    assert_eq!(
        c.privilege_check_callback(&me, &me, q.request_id, Ok(s("late"))),
        Err(DonationError::UnknownRequest)
    );
    assert_eq!(c.get_privileged_account(), "owner.testnet");
}

#[test]
fn callback_only_from_the_contract_itself() {
    let mut c = setup();
    let me = s("donation.testnet");
    let q = c.privilege_check().unwrap();
    assert_eq!(
        c.privilege_check_callback(&s("mallory"), &me, q.request_id, Ok(s("mallory"))),
        Err(DonationError::AccessDenied)
    );
    assert_eq!(c.get_privileged_account(), "owner.testnet");
    assert_eq!(
        c.privilege_check_callback(&me, &me, q.request_id + 1, Ok(s("x"))),
        Err(DonationError::UnknownRequest)
    );
    assert_eq!(c.privilege_check_callback(&me, &me, q.request_id, Ok(s("holder"))), Ok(()));
    assert_eq!(c.get_privileged_account(), "holder");
}

#[test]
fn verified_owner_who_is_beneficiary_can_withdraw() {
    let mut c = setup();
    let me = s("donation.testnet");
    c.donate(s("a"), 3 * FEE).unwrap();
    let q = c.privilege_check().unwrap();
    c.privilege_check_callback(&me, &me, q.request_id, Ok(s("ben.testnet"))).unwrap();
    assert_eq!(payout(&mut c, "ben.testnet"), Ok(3 * FEE));
    assert_eq!(c.number_of_donors(), 0);
}

#[test]
fn change_beneficiary_only_by_privileged_account() {
    let mut c = setup();
    assert_eq!(c.change_beneficiary(&s("a"), s("a")), Err(DonationError::AccessDenied));
    assert_eq!(c.get_beneficiary(), "ben.testnet");
    assert_eq!(c.change_beneficiary(&s("owner.testnet"), s("new.testnet")), Ok(()));
    assert_eq!(c.get_beneficiary(), "new.testnet");
}

#[test]
fn donations_are_paged_in_insertion_order() {
    let mut c = setup();
    for i in 0..60u32 {
        c.donate(format!("d{}", i), FEE + 1 + i as u128).unwrap();
    }
    let all = c.get_donations(None, None);
    assert_eq!(all.len(), 50);
    assert_eq!(all[0].account_id, "d0");
    assert_eq!(all[49].account_id, "d49");
    let page = c.get_donations(Some(55), Some(10));
    assert_eq!(page.len(), 5);
    assert_eq!(page[0].account_id, "d55");
    assert_eq!(page[0].total_amount, FEE + 56);
    let mid = c.get_donations(Some(10), Some(3));
    let names: Vec<&str> = mid.iter().map(|d| d.account_id.as_str()).collect();
    assert_eq!(names, vec!["d10", "d11", "d12"]);
    assert!(c.get_donations(Some(60), None).is_empty());
    assert!(c.get_donations(Some(u128::MAX), Some(u64::MAX)).is_empty());
    assert!(c.get_donations(Some(0), Some(0)).is_empty());
    assert_eq!(c.get_donations(Some(0), Some(u64::MAX)).len(), 60);
}

#[test]
fn ledger_is_kept_until_the_transfer_is_confirmed() {
    let me = s("self");
    let mut c = Contract::init(s("ben"), s("ben"), s("nft"), s("0"));
    c.donate(s("a"), 2 * FEE).unwrap();
    assert_eq!(c.withdrawal(&s("ben")), Ok(2 * FEE));
    assert_eq!(c.withdrawal_in_flight(), Some(2 * FEE));
    assert_eq!(c.number_of_donors(), 1);
    assert_eq!(c.get_donation_for_account(s("a")).total_amount, 2 * FEE);
    assert_eq!(c.donate(s("b"), 2 * FEE), Err(DonationError::WithdrawalPending));
    assert_eq!(c.withdrawal(&s("ben")), Err(DonationError::WithdrawalPending));
    assert_eq!(c.withdrawal_callback(&me, &me, true), Ok(2 * FEE));
    assert_eq!(c.withdrawal_in_flight(), None);
    assert_eq!(c.number_of_donors(), 0);
}

#[test]
fn failed_transfer_leaves_ledger_as_it_was() {
    let me = s("self");
    let mut c = Contract::init(s("ben"), s("ben"), s("nft"), s("0"));
    c.donate(s("a"), 2 * FEE).unwrap();
    c.donate(s("b"), FEE + 5).unwrap();
    c.withdrawal(&s("ben")).unwrap();
    assert_eq!(c.withdrawal_callback(&me, &me, false), Err(DonationError::TransferFailed));
    assert_eq!(c.withdrawal_in_flight(), None);
    assert_eq!(c.number_of_donors(), 2);
    assert_eq!(c.get_donation_for_account(s("a")).total_amount, 2 * FEE);
    assert_eq!(c.get_donation_for_account(s("b")).total_amount, FEE + 5);
    assert_eq!(c.ledger_generation(), 0);
    // Donations are taken again, and a new payout can start.
    assert_eq!(c.donate(s("a"), 1), Ok(2 * FEE + 1));
    assert_eq!(payout(&mut c, "ben"), Ok(3 * FEE + 6));
}

#[test]
fn withdrawal_callback_only_from_the_contract_with_a_payout_waiting() {
    let me = s("self");
    let mut c = Contract::init(s("ben"), s("ben"), s("nft"), s("0"));
    assert_eq!(c.withdrawal_callback(&me, &me, true), Err(DonationError::UnknownRequest));
    c.donate(s("a"), 2 * FEE).unwrap();
    c.withdrawal(&s("ben")).unwrap();
    assert_eq!(c.withdrawal_callback(&s("ben"), &me, true), Err(DonationError::AccessDenied));
    assert_eq!(c.withdrawal_in_flight(), Some(2 * FEE));
    assert_eq!(c.number_of_donors(), 1);
}
