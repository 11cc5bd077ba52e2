use casper_types::{PublicKey, SecretKey};
use recovery_registry::registry::{
    approval_count, approve, finalize, get_guardians, get_protected_accounts,
    get_recoveries_for_guardian, has_guardians, init_guardians, init_storage, is_approved,
    is_finalized, last_id, proposal, start_recovery,
};
use recovery_registry::types::{AccountId, RecoveryError};

fn id(n: u8) -> AccountId {
    AccountId::new([n; 32])
}

fn key(n: u8) -> PublicKey {
    PublicKey::from(&SecretKey::ed25519_from_bytes([n; 32]).unwrap())
}

const A: u8 = 1;
const B: u8 = 2;
const G1: u8 = 11;
const G2: u8 = 12;
const G3: u8 = 13;
const STRANGER: u8 = 99;

#[test]
fn fresh_registry_is_empty() {
    let reg = init_storage();
    assert!(!has_guardians(&reg, &id(A)));
    assert_eq!(get_guardians(&reg, &id(A)), Err(RecoveryError::NotInit));
    assert_eq!(get_protected_accounts(&reg, &id(G1)), Vec::<AccountId>::new());
    assert_eq!(get_recoveries_for_guardian(&reg, &id(G1)), Vec::<u64>::new());
    assert!(!is_approved(&reg, 1));
    assert!(!is_approved(&reg, 0));
    assert_eq!(last_id(&reg), 0);
}

#[test]
fn init_rejects_caller_who_is_not_the_account() {
    let mut reg = init_storage();
    let r = init_guardians(&mut reg, &id(STRANGER), &id(A), vec![id(G1), id(G2)], 1);
    assert_eq!(r, Err(RecoveryError::NotOwner));
    assert!(!has_guardians(&reg, &id(A)));
}

#[test]
fn init_rejects_short_guardian_lists() {
    let mut reg = init_storage();
    assert_eq!(
        init_guardians(&mut reg, &id(A), &id(A), Vec::new(), 1),
        Err(RecoveryError::BadGuardians)
    );
    assert_eq!(
        init_guardians(&mut reg, &id(A), &id(A), vec![id(G1)], 1),
        Err(RecoveryError::BadGuardians)
    );
    assert_eq!(
        init_guardians(&mut reg, &id(A), &id(A), vec![id(G1)], 0),
        Err(RecoveryError::BadGuardians)
    );
    assert!(!has_guardians(&reg, &id(A)));
    assert_eq!(get_protected_accounts(&reg, &id(G1)), Vec::<AccountId>::new());
}

#[test]
fn init_rejects_thresholds_out_of_range() {
    let mut reg = init_storage();
    assert_eq!(
        init_guardians(&mut reg, &id(A), &id(A), vec![id(G1), id(G2)], 0),
        Err(RecoveryError::BadThreshold)
    );
    assert_eq!(
        init_guardians(&mut reg, &id(A), &id(A), vec![id(G1), id(G2)], 3),
        Err(RecoveryError::BadThreshold)
    );
    assert_eq!(
        init_guardians(&mut reg, &id(A), &id(A), vec![id(G1), id(G2)], 255),
        Err(RecoveryError::BadThreshold)
    );
    assert!(!has_guardians(&reg, &id(A)));
    assert_eq!(init_guardians(&mut reg, &id(A), &id(A), vec![id(G1), id(G2)], 2), Ok(()));
    assert_eq!(init_guardians(&mut reg, &id(B), &id(B), vec![id(G1), id(G2)], 1), Ok(()));
}

#[test]
fn init_checks_come_in_order() {
    let mut reg = init_storage();
    // not the owner, and everything else is wrong too
    assert_eq!(
        init_guardians(&mut reg, &id(STRANGER), &id(A), Vec::new(), 0),
        Err(RecoveryError::NotOwner)
    );
    // too few guardians wins over a bad threshold
    assert_eq!(
        init_guardians(&mut reg, &id(A), &id(A), vec![id(G1)], 9),
        Err(RecoveryError::BadGuardians)
    );
    assert_eq!(init_guardians(&mut reg, &id(A), &id(A), vec![id(G1), id(G2)], 1), Ok(()));
    // on a registered account the other checks still come first
    assert_eq!(
        init_guardians(&mut reg, &id(STRANGER), &id(A), vec![id(G1), id(G2)], 1),
        Err(RecoveryError::NotOwner)
    );
    assert_eq!(
        init_guardians(&mut reg, &id(A), &id(A), vec![id(G1)], 1),
        Err(RecoveryError::BadGuardians)
    );
    assert_eq!(
        init_guardians(&mut reg, &id(A), &id(A), vec![id(G1), id(G2)], 3),
        Err(RecoveryError::BadThreshold)
    );
}

#[test]
fn init_twice_fails_and_keeps_the_first_state() {
    let mut reg = init_storage();
    assert_eq!(init_guardians(&mut reg, &id(A), &id(A), vec![id(G1), id(G2)], 2), Ok(()));
    assert_eq!(
        init_guardians(&mut reg, &id(A), &id(A), vec![id(G2), id(G3), id(STRANGER)], 1),
        Err(RecoveryError::AlreadyInit)
    );
    assert_eq!(get_guardians(&reg, &id(A)), Ok(vec![id(G1), id(G2)]));
    assert_eq!(get_protected_accounts(&reg, &id(G1)), vec![id(A)]);
    assert_eq!(get_protected_accounts(&reg, &id(G2)), vec![id(A)]);
    assert_eq!(get_protected_accounts(&reg, &id(G3)), Vec::<AccountId>::new());
    assert_eq!(get_protected_accounts(&reg, &id(STRANGER)), Vec::<AccountId>::new());
    // the threshold is still 2: one approval is not enough
    assert_eq!(start_recovery(&mut reg, &id(A), key(1)), Ok(1));
    assert_eq!(approve(&mut reg, &id(G1), 1), Ok(()));
    assert!(!is_approved(&reg, 1));
}

#[test]
fn init_fills_the_reverse_index() {
    let mut reg = init_storage();
    assert_eq!(init_guardians(&mut reg, &id(A), &id(A), vec![id(G1), id(G2), id(G3)], 2), Ok(()));
    assert!(get_protected_accounts(&reg, &id(G1)).contains(&id(A)));
    assert!(has_guardians(&reg, &id(A)));
    assert_eq!(get_guardians(&reg, &id(A)), Ok(vec![id(G1), id(G2), id(G3)]));
    assert_eq!(get_protected_accounts(&reg, &id(G2)), vec![id(A)]);
    assert_eq!(get_protected_accounts(&reg, &id(G3)), vec![id(A)]);
    assert_eq!(get_protected_accounts(&reg, &id(A)), Vec::<AccountId>::new());
    assert!(!has_guardians(&reg, &id(G1)));
}

#[test]
fn guardian_of_two_accounts_protects_both() {
    let mut reg = init_storage();
    assert_eq!(init_guardians(&mut reg, &id(A), &id(A), vec![id(G1), id(G2)], 1), Ok(()));
    assert_eq!(init_guardians(&mut reg, &id(B), &id(B), vec![id(G2), id(G3)], 2), Ok(()));
    assert_eq!(get_protected_accounts(&reg, &id(G1)), vec![id(A)]);
    assert_eq!(get_protected_accounts(&reg, &id(G2)), vec![id(A), id(B)]);
    assert_eq!(get_protected_accounts(&reg, &id(G3)), vec![id(B)]);
}

#[test]
fn guardian_listed_twice_is_indexed_once_and_votes_once() {
    let mut reg = init_storage();
    assert_eq!(init_guardians(&mut reg, &id(A), &id(A), vec![id(G1), id(G1)], 2), Ok(()));
    assert_eq!(get_guardians(&reg, &id(A)), Ok(vec![id(G1), id(G1)]));
    assert_eq!(get_protected_accounts(&reg, &id(G1)), vec![id(A)]);
    assert_eq!(start_recovery(&mut reg, &id(A), key(1)), Ok(1));
    assert_eq!(get_recoveries_for_guardian(&reg, &id(G1)), vec![1]);
    assert_eq!(approve(&mut reg, &id(G1), 1), Ok(()));
    assert_eq!(approve(&mut reg, &id(G1), 1), Err(RecoveryError::AlreadyApproved));
    assert_eq!(approval_count(&reg, 1), 1);
    assert!(!is_approved(&reg, 1));
    assert_eq!(finalize(&mut reg, 1), Err(RecoveryError::NotApproved));
}

#[test]
fn start_recovery_needs_guardians() {
    let mut reg = init_storage();
    assert_eq!(start_recovery(&mut reg, &id(A), key(1)), Err(RecoveryError::NotInit));
    assert_eq!(last_id(&reg), 0);
    assert!(proposal(&reg, 1).is_none());
}

#[test]
fn start_recovery_refuses_a_second_request() {
    let mut reg = init_storage();
    assert_eq!(init_guardians(&mut reg, &id(A), &id(A), vec![id(G1), id(G2)], 1), Ok(()));
    assert_eq!(start_recovery(&mut reg, &id(A), key(1)), Ok(1));
    assert_eq!(start_recovery(&mut reg, &id(A), key(2)), Err(RecoveryError::RecoveryExists));
    assert_eq!(last_id(&reg), 1);
    assert_eq!(get_recoveries_for_guardian(&reg, &id(G1)), vec![1]);
    assert_eq!(proposal(&reg, 1), Some((id(A), &key(1))));
    assert!(proposal(&reg, 2).is_none());
}

#[test]
fn start_recovery_records_the_request() {
    let mut reg = init_storage();
    assert_eq!(init_guardians(&mut reg, &id(A), &id(A), vec![id(G1), id(G2), id(G3)], 2), Ok(()));
    assert_eq!(start_recovery(&mut reg, &id(A), PublicKey::System), Ok(1));
    assert_eq!(proposal(&reg, 1), Some((id(A), &PublicKey::System)));
    assert!(proposal(&reg, 0).is_none());
    assert_eq!(approval_count(&reg, 1), 0);
    assert!(!is_approved(&reg, 1));
    assert!(!is_finalized(&reg, 1));
    assert_eq!(get_recoveries_for_guardian(&reg, &id(G1)), vec![1]);
    assert_eq!(get_recoveries_for_guardian(&reg, &id(G2)), vec![1]);
    assert_eq!(get_recoveries_for_guardian(&reg, &id(G3)), vec![1]);
    assert_eq!(get_recoveries_for_guardian(&reg, &id(A)), Vec::<u64>::new());
    // registering and opening change nothing of the guardians themselves
    assert_eq!(get_guardians(&reg, &id(A)), Ok(vec![id(G1), id(G2), id(G3)]));
    assert_eq!(get_protected_accounts(&reg, &id(G1)), vec![id(A)]);
}

#[test]
fn threshold_two_of_three() {
    let mut reg = init_storage();
    assert_eq!(init_guardians(&mut reg, &id(A), &id(A), vec![id(G1), id(G2), id(G3)], 2), Ok(()));
    let rid = start_recovery(&mut reg, &id(A), key(5)).unwrap();
    assert_eq!(approve(&mut reg, &id(G1), rid), Ok(()));
    assert!(!is_approved(&reg, rid));
    assert_eq!(approval_count(&reg, rid), 1);
    assert_eq!(approve(&mut reg, &id(G2), rid), Ok(()));
    assert!(is_approved(&reg, rid));
    assert_eq!(approval_count(&reg, rid), 2);
    assert_eq!(approve(&mut reg, &id(G3), rid), Ok(()));
    assert!(is_approved(&reg, rid));
    assert_eq!(approval_count(&reg, rid), 3);
}

#[test]
fn approving_twice_fails_and_keeps_the_count() {
    let mut reg = init_storage();
    assert_eq!(init_guardians(&mut reg, &id(A), &id(A), vec![id(G1), id(G2), id(G3)], 3), Ok(()));
    assert_eq!(start_recovery(&mut reg, &id(A), key(5)), Ok(1));
    assert_eq!(approve(&mut reg, &id(G2), 1), Ok(()));
    assert_eq!(approval_count(&reg, 1), 1);
    assert_eq!(approve(&mut reg, &id(G2), 1), Err(RecoveryError::AlreadyApproved));
    assert_eq!(approval_count(&reg, 1), 1);
    assert!(!is_approved(&reg, 1));
    assert_eq!(approve(&mut reg, &id(G1), 1), Ok(()));
    assert_eq!(approve(&mut reg, &id(G1), 1), Err(RecoveryError::AlreadyApproved));
    assert_eq!(approval_count(&reg, 1), 2);
    assert!(!is_approved(&reg, 1));
}

#[test]
fn approve_rejects_strangers_and_unknown_ids() {
    let mut reg = init_storage();
    assert_eq!(approve(&mut reg, &id(G1), 1), Err(RecoveryError::NotFound));
    assert_eq!(init_guardians(&mut reg, &id(A), &id(A), vec![id(G1), id(G2)], 1), Ok(()));
    assert_eq!(init_guardians(&mut reg, &id(B), &id(B), vec![id(G2), id(G3)], 1), Ok(()));
    assert_eq!(approve(&mut reg, &id(G1), 1), Err(RecoveryError::NotFound));
    assert_eq!(start_recovery(&mut reg, &id(A), key(5)), Ok(1));
    assert_eq!(approve(&mut reg, &id(G1), 0), Err(RecoveryError::NotFound));
    assert_eq!(approve(&mut reg, &id(G1), 2), Err(RecoveryError::NotFound));
    assert_eq!(approve(&mut reg, &id(G1), u64::MAX), Err(RecoveryError::NotFound));
    assert_eq!(approve(&mut reg, &id(STRANGER), 1), Err(RecoveryError::NotGuardian));
    // the owner is no guardian of its own account, nor is a guardian of another
    assert_eq!(approve(&mut reg, &id(A), 1), Err(RecoveryError::NotGuardian));
    assert_eq!(approve(&mut reg, &id(G3), 1), Err(RecoveryError::NotGuardian));
    assert_eq!(approval_count(&reg, 1), 0);
    assert!(!is_approved(&reg, 1));
}

#[test]
fn finalize_waits_for_the_threshold() {
    let mut reg = init_storage();
    assert_eq!(finalize(&mut reg, 1), Err(RecoveryError::NotApproved));
    assert_eq!(init_guardians(&mut reg, &id(A), &id(A), vec![id(G1), id(G2), id(G3)], 2), Ok(()));
    assert_eq!(start_recovery(&mut reg, &id(A), key(5)), Ok(1));
    assert_eq!(finalize(&mut reg, 1), Err(RecoveryError::NotApproved));
    assert_eq!(approve(&mut reg, &id(G3), 1), Ok(()));
    assert_eq!(finalize(&mut reg, 1), Err(RecoveryError::NotApproved));
    assert!(!is_finalized(&reg, 1));
    assert_eq!(get_recoveries_for_guardian(&reg, &id(G1)), vec![1]);
    assert_eq!(approve(&mut reg, &id(G1), 1), Ok(()));
    assert_eq!(finalize(&mut reg, 1), Ok(()));
    assert!(is_finalized(&reg, 1));
    assert_eq!(get_recoveries_for_guardian(&reg, &id(G1)), Vec::<u64>::new());
    assert_eq!(get_recoveries_for_guardian(&reg, &id(G2)), Vec::<u64>::new());
    assert_eq!(get_recoveries_for_guardian(&reg, &id(G3)), Vec::<u64>::new());
    assert!(is_approved(&reg, 1));
    assert_eq!(finalize(&mut reg, 2), Err(RecoveryError::NotApproved));
    assert_eq!(finalize(&mut reg, 0), Err(RecoveryError::NotApproved));
}

#[test]
fn finalize_leaves_other_requests_in_the_index() {
    let mut reg = init_storage();
    assert_eq!(init_guardians(&mut reg, &id(A), &id(A), vec![id(G1), id(G2)], 1), Ok(()));
    assert_eq!(init_guardians(&mut reg, &id(B), &id(B), vec![id(G2), id(G3)], 1), Ok(()));
    assert_eq!(start_recovery(&mut reg, &id(A), key(5)), Ok(1));
    assert_eq!(start_recovery(&mut reg, &id(B), key(6)), Ok(2));
    assert_eq!(get_recoveries_for_guardian(&reg, &id(G1)), vec![1]);
    assert_eq!(get_recoveries_for_guardian(&reg, &id(G2)), vec![1, 2]);
    assert_eq!(get_recoveries_for_guardian(&reg, &id(G3)), vec![2]);
    assert_eq!(approve(&mut reg, &id(G2), 1), Ok(()));
    assert!(is_approved(&reg, 1));
    assert!(!is_approved(&reg, 2));
    assert_eq!(finalize(&mut reg, 1), Ok(()));
    assert_eq!(get_recoveries_for_guardian(&reg, &id(G1)), Vec::<u64>::new());
    assert_eq!(get_recoveries_for_guardian(&reg, &id(G2)), vec![2]);
    assert_eq!(get_recoveries_for_guardian(&reg, &id(G3)), vec![2]);
    assert!(!is_finalized(&reg, 2));
}

#[test]
fn finalize_may_be_repeated() {
    let mut reg = init_storage();
    assert_eq!(init_guardians(&mut reg, &id(A), &id(A), vec![id(G1), id(G2)], 1), Ok(()));
    assert_eq!(start_recovery(&mut reg, &id(A), key(5)), Ok(1));
    assert_eq!(approve(&mut reg, &id(G1), 1), Ok(()));
    assert_eq!(finalize(&mut reg, 1), Ok(()));
    assert_eq!(finalize(&mut reg, 1), Ok(()));
    assert!(is_finalized(&reg, 1));
    assert_eq!(get_recoveries_for_guardian(&reg, &id(G1)), Vec::<u64>::new());
    // a guardian may still approve a finalized request
    assert_eq!(approve(&mut reg, &id(G2), 1), Ok(()));
    assert_eq!(approval_count(&reg, 1), 2);
    assert_eq!(get_recoveries_for_guardian(&reg, &id(G2)), Vec::<u64>::new());
}

#[test]
fn ids_increase_across_accounts() {
    let mut reg = init_storage();
    assert_eq!(init_guardians(&mut reg, &id(A), &id(A), vec![id(G1), id(G2)], 1), Ok(()));
    assert_eq!(init_guardians(&mut reg, &id(B), &id(B), vec![id(G1), id(G3)], 1), Ok(()));
    assert_eq!(init_guardians(&mut reg, &id(G1), &id(G1), vec![id(A), id(B)], 2), Ok(()));
    let first = start_recovery(&mut reg, &id(A), key(1)).unwrap();
    assert_eq!(approve(&mut reg, &id(G1), first), Ok(()));
    let second = start_recovery(&mut reg, &id(B), key(2)).unwrap();
    assert_eq!(start_recovery(&mut reg, &id(A), key(3)), Err(RecoveryError::RecoveryExists));
    let third = start_recovery(&mut reg, &id(G1), key(3)).unwrap();
    assert_eq!((first, second, third), (1, 2, 3));
    assert!(first < second && second < third);
    assert_eq!(last_id(&reg), 3);
    assert_eq!(proposal(&reg, 2), Some((id(B), &key(2))));
    assert_eq!(get_recoveries_for_guardian(&reg, &id(G1)), vec![1, 2]);
    assert_eq!(get_recoveries_for_guardian(&reg, &id(A)), vec![3]);
}

#[test]
fn end_to_end() {
    let mut reg = init_storage();
    assert_eq!(init_guardians(&mut reg, &id(A), &id(A), vec![id(G1), id(G2)], 1), Ok(()));
    assert_eq!(start_recovery(&mut reg, &id(A), key(7)), Ok(1));
    assert_eq!(approve(&mut reg, &id(G1), 1), Ok(()));
    assert!(is_approved(&reg, 1));
    assert_eq!(finalize(&mut reg, 1), Ok(()));
    assert!(!get_recoveries_for_guardian(&reg, &id(G1)).contains(&1));
}

#[test]
fn account_stays_closed_after_finalize() {
    let mut reg = init_storage();
    assert_eq!(init_guardians(&mut reg, &id(A), &id(A), vec![id(G1), id(G2)], 1), Ok(()));
    assert_eq!(start_recovery(&mut reg, &id(A), key(7)), Ok(1));
    assert_eq!(approve(&mut reg, &id(G1), 1), Ok(()));
    assert_eq!(finalize(&mut reg, 1), Ok(()));
    assert_eq!(start_recovery(&mut reg, &id(A), key(8)), Err(RecoveryError::RecoveryExists));
    assert_eq!(last_id(&reg), 1);
}

#[test]
fn threshold_equal_to_the_number_of_guardians() {
    let mut reg = init_storage();
    assert_eq!(init_guardians(&mut reg, &id(A), &id(A), vec![id(G1), id(G2), id(G3)], 3), Ok(()));
    assert_eq!(start_recovery(&mut reg, &id(A), key(7)), Ok(1));
    assert_eq!(approve(&mut reg, &id(G3), 1), Ok(()));
    assert_eq!(approve(&mut reg, &id(G2), 1), Ok(()));
    assert!(!is_approved(&reg, 1));
    assert_eq!(approve(&mut reg, &id(G1), 1), Ok(()));
    assert!(is_approved(&reg, 1));
}
