use account_recovery::error::{ErrorKind, RecoveryError};
use account_recovery::model::{RequestState, UpdateResult, RECOVERY_PERIOD_NANOS};
use account_recovery::recovery::{threshold_for, AccountRecovery};
use account_recovery::request_id::{decimal_string, hex_encode, recovery_id, recovery_preimage};

const DAY: u64 = 24 * 60 * 60 * 1_000_000_000;
const OWN: &str = "recovery.near";

fn s(x: &str) -> String {
    x.to_string()
}

fn with_guardians() -> AccountRecovery {
    let mut c = AccountRecovery::new();
    c.set_guardians(s("a.near"), vec![s("b.near"), s("c.near"), s("d.near")]).unwrap();
    c
}

#[test]
fn set_guardians_then_get_returns_them() {
    let mut c = AccountRecovery::new();
    assert_eq!(c.set_guardians(s("a.near"), vec![s("b.near"), s("c.near")]), Ok(()));
    assert_eq!(c.get_guardians(s("a.near")), Some(vec![s("b.near"), s("c.near")]));
    assert!(c.has_guardians(&s("a.near")));
    assert!(!c.has_guardians(&s("b.near")));
    assert_eq!(c.get_guardians(s("b.near")), None);
}

#[test]
fn set_guardians_drops_repeats() {
    let mut c = AccountRecovery::new();
    let r = c.set_guardians(s("a.near"), vec![s("b.near"), s("c.near"), s("b.near")]);
    assert_eq!(r, Ok(()));
    assert_eq!(c.get_guardians(s("a.near")), Some(vec![s("b.near"), s("c.near")]));
}

#[test]
fn set_guardians_replaces_whole_set() {
    let mut c = with_guardians();
    c.set_guardians(s("a.near"), vec![s("e.near"), s("f.near")]).unwrap();
    assert_eq!(c.get_guardians(s("a.near")), Some(vec![s("e.near"), s("f.near")]));
}

#[test]
fn set_guardians_too_few_keeps_prior_set() {
    let mut c = with_guardians();
    let r = c.set_guardians(s("a.near"), vec![s("e.near")]);
    assert_eq!(r, Err(RecoveryError::TooFewGuardians));
    assert_eq!(r.unwrap_err().kind(), ErrorKind::Validation);
    let r = c.set_guardians(s("a.near"), vec![]);
    assert_eq!(r, Err(RecoveryError::TooFewGuardians));
    assert_eq!(
        c.get_guardians(s("a.near")),
        Some(vec![s("b.near"), s("c.near"), s("d.near")])
    );
}

#[test]
fn set_guardians_with_self_keeps_prior_set() {
    let mut c = with_guardians();
    let r = c.set_guardians(s("a.near"), vec![s("e.near"), s("a.near")]);
    assert_eq!(r, Err(RecoveryError::SelfAsGuardian));
    assert_eq!(r.unwrap_err().kind(), ErrorKind::Validation);
    assert_eq!(
        c.get_guardians(s("a.near")),
        Some(vec![s("b.near"), s("c.near"), s("d.near")])
    );
}

#[test]
fn initiate_without_guardians_fails() {
    let mut c = AccountRecovery::new();
    let r = c.initiate_recovery(s("a.near"), s("cred-1"), 5);
    assert_eq!(r, Err(RecoveryError::NoGuardians));
    assert_eq!(r.unwrap_err().kind(), ErrorKind::NotFound);
    let id = recovery_id(&s("a.near"), &s("cred-1"), 5);
    assert!(c.get_recovery_request(id).is_none());
}

#[test]
fn threshold_is_strict_majority() {
    assert_eq!(threshold_for(2), 2);
    assert_eq!(threshold_for(3), 2);
    assert_eq!(threshold_for(5), 3);
    assert_eq!(threshold_for(0), 1);
    assert_eq!(threshold_for(4), 3);
}

#[test]
fn threshold_is_taken_from_guardian_count() {
    let mut c = AccountRecovery::new();
    c.set_guardians(s("x.near"), vec![s("b.near"), s("c.near")]).unwrap();
    let id = c.initiate_recovery(s("x.near"), s("k"), 1).unwrap();
    assert_eq!(c.get_recovery_request(id).unwrap().threshold, 2);
    let names: Vec<String> = (0..5).map(|i| format!("g{}.near", i)).collect();
    c.set_guardians(s("y.near"), names).unwrap();
    let id = c.initiate_recovery(s("y.near"), s("k"), 1).unwrap();
    assert_eq!(c.get_recovery_request(id).unwrap().threshold, 3);
}

#[test]
fn threshold_stays_when_guardians_change() {
    let mut c = with_guardians();
    let id = c.initiate_recovery(s("a.near"), s("cred-1"), 10).unwrap();
    c.set_guardians(s("a.near"), vec![s("e.near"), s("f.near")]).unwrap();
    assert_eq!(c.get_recovery_request(id.clone()).unwrap().threshold, 2);
    // eligibility follows the current guardians
    assert_eq!(c.approve_recovery(s("b.near"), id.clone()), Err(RecoveryError::NotAGuardian));
    assert_eq!(c.approve_recovery(s("e.near"), id.clone()), Ok(()));
    assert_eq!(c.get_recovery_approvals_count(id), 1);
}

#[test]
fn approve_by_non_guardian_fails() {
    let mut c = with_guardians();
    let id = c.initiate_recovery(s("a.near"), s("cred-1"), 10).unwrap();
    let r = c.approve_recovery(s("z.near"), id.clone());
    assert_eq!(r, Err(RecoveryError::NotAGuardian));
    assert_eq!(r.unwrap_err().kind(), ErrorKind::Unauthorized);
    let r = c.approve_recovery(s("a.near"), id.clone());
    assert_eq!(r, Err(RecoveryError::NotAGuardian));
    assert_eq!(c.get_recovery_approvals_count(id), 0);
}

#[test]
fn approve_twice_fails() {
    let mut c = with_guardians();
    let id = c.initiate_recovery(s("a.near"), s("cred-1"), 10).unwrap();
    assert_eq!(c.approve_recovery(s("b.near"), id.clone()), Ok(()));
    let r = c.approve_recovery(s("b.near"), id.clone());
    assert_eq!(r, Err(RecoveryError::AlreadyApproved));
    assert_eq!(r.unwrap_err().kind(), ErrorKind::Conflict);
    assert_eq!(c.get_recovery_approvals_count(id.clone()), 1);
    assert_eq!(c.get_recovery_request(id).unwrap().approvals, vec![s("b.near")]);
}

#[test]
fn approve_unknown_request_fails() {
    let mut c = with_guardians();
    let r = c.approve_recovery(s("b.near"), s("nope"));
    assert_eq!(r, Err(RecoveryError::RequestNotFound));
    assert_eq!(r.unwrap_err().kind(), ErrorKind::NotFound);
    assert_eq!(c.get_recovery_approvals_count(s("nope")), 0);
}

#[test]
fn execute_needs_enough_approvals() {
    let mut c = with_guardians();
    let id = c.initiate_recovery(s("a.near"), s("cred-1"), 10).unwrap();
    c.approve_recovery(s("b.near"), id.clone()).unwrap();
    let r = c.execute_recovery(id.clone(), 10 + 30 * DAY);
    assert!(matches!(r, Err(RecoveryError::NotEnoughApprovals)));
    assert_eq!(RecoveryError::NotEnoughApprovals.kind(), ErrorKind::PolicyViolation);
    assert_eq!(c.request_state(id.clone(), 10 + 30 * DAY), Some(RequestState::Active));
    assert_eq!(c.get_recovery_request(id).unwrap().state, RequestState::Active);
}

#[test]
fn execute_needs_time_lock() {
    let mut c = with_guardians();
    let id = c.initiate_recovery(s("a.near"), s("cred-1"), 10).unwrap();
    c.approve_recovery(s("b.near"), id.clone()).unwrap();
    c.approve_recovery(s("c.near"), id.clone()).unwrap();
    let r = c.execute_recovery(id.clone(), 10 + RECOVERY_PERIOD_NANOS - 1);
    assert!(matches!(r, Err(RecoveryError::RecoveryPeriodPending)));
    assert_eq!(RecoveryError::RecoveryPeriodPending.kind(), ErrorKind::PolicyViolation);
    // a clock behind the request's creation never opens the lock
    assert!(matches!(c.execute_recovery(id.clone(), 5), Err(RecoveryError::RecoveryPeriodPending)));
    assert_eq!(c.get_recovery_request(id).unwrap().state, RequestState::Active);
}

#[test]
fn execute_unknown_request_fails() {
    let mut c = with_guardians();
    assert!(matches!(c.execute_recovery(s("nope"), DAY), Err(RecoveryError::RequestNotFound)));
}

#[test]
fn recovery_period_is_seven_days() {
    assert_eq!(RECOVERY_PERIOD_NANOS, 7 * DAY);
    assert_eq!(AccountRecovery::new().recovery_period(), 7 * DAY);
    assert_eq!(AccountRecovery::with_recovery_period(60).recovery_period(), 60);
}

#[test]
fn scenario_success_completes_request() {
    let mut c = with_guardians();
    let t0 = 1_700_000_000_000_000_000u64;
    let id = c.initiate_recovery(s("x.near"), s("cred-1"), t0);
    assert_eq!(id, Err(RecoveryError::NoGuardians));
    let id = c.initiate_recovery(s("a.near"), s("cred-1"), t0).unwrap();
    let v = c.get_recovery_request(id.clone()).unwrap();
    assert_eq!(v.account_to_recover, "a.near");
    assert_eq!(v.new_public_key, "cred-1");
    assert_eq!(v.initiated_timestamp, t0);
    assert_eq!(v.threshold, 2);
    assert!(v.approvals.is_empty());
    assert_eq!(v.state, RequestState::Active);
    assert_eq!(c.get_recovery_approvals_count(id.clone()), 0);

    c.approve_recovery(s("b.near"), id.clone()).unwrap();
    assert_eq!(c.get_recovery_approvals_count(id.clone()), 1);
    assert_eq!(c.request_state(id.clone(), t0 + 8 * DAY), Some(RequestState::Active));

    c.approve_recovery(s("c.near"), id.clone()).unwrap();
    assert_eq!(c.get_recovery_approvals_count(id.clone()), 2);
    assert_eq!(c.request_state(id.clone(), t0 + DAY), Some(RequestState::Active));
    let later = t0 + RECOVERY_PERIOD_NANOS;
    assert_eq!(c.request_state(id.clone(), later), Some(RequestState::ReadyForExecution));

    let update = c.execute_recovery(id.clone(), later).unwrap();
    assert_eq!(update.account_to_recover, "a.near");
    assert_eq!(update.new_public_key, "cred-1");
    assert_eq!(update.recovery_id, id);
    assert_eq!(c.get_recovery_request(id.clone()).unwrap().state, RequestState::Executing);
    assert_eq!(c.request_state(id.clone(), later), Some(RequestState::Executing));

    let r = c.recovery_callback(s(OWN), s(OWN), id.clone(), UpdateResult::Success);
    assert_eq!(r, Ok(RequestState::Completed));
    assert!(c.get_recovery_request(id.clone()).is_none());
    assert_eq!(c.request_state(id.clone(), later), None);
    assert_eq!(c.get_recovery_approvals_count(id), 0);
}

#[test]
fn scenario_failure_allows_retry() {
    let mut c = with_guardians();
    let t0 = 1_000u64;
    let id = c.initiate_recovery(s("a.near"), s("cred-1"), t0).unwrap();
    c.approve_recovery(s("b.near"), id.clone()).unwrap();
    c.approve_recovery(s("c.near"), id.clone()).unwrap();
    let later = t0 + RECOVERY_PERIOD_NANOS;
    c.execute_recovery(id.clone(), later).unwrap();

    // a second hand-off while the first is pending is refused
    let r = c.execute_recovery(id.clone(), later);
    assert!(matches!(r, Err(RecoveryError::AlreadyExecuting)));
    assert_eq!(RecoveryError::AlreadyExecuting.kind(), ErrorKind::Conflict);
    // no approvals while executing
    assert_eq!(c.approve_recovery(s("d.near"), id.clone()), Err(RecoveryError::NotActive));

    let r = c.recovery_callback(s(OWN), s(OWN), id.clone(), UpdateResult::Failure);
    assert_eq!(r, Ok(RequestState::FailedRetryable));
    let v = c.get_recovery_request(id.clone()).unwrap();
    assert_eq!(v.state, RequestState::FailedRetryable);
    assert_eq!(v.approvals, vec![s("b.near"), s("c.near")]);

    let update = c.execute_recovery(id.clone(), later + 1).unwrap();
    assert_eq!(update.account_to_recover, "a.near");
    assert_eq!(update.new_public_key, "cred-1");
    assert_eq!(c.get_recovery_request(id.clone()).unwrap().state, RequestState::Executing);
    assert_eq!(
        c.recovery_callback(s(OWN), s(OWN), id.clone(), UpdateResult::Success),
        Ok(RequestState::Completed)
    );
    assert!(c.get_recovery_request(id).is_none());
}

#[test]
fn same_inputs_give_same_id_and_conflict() {
    let mut c = with_guardians();
    let first = c.initiate_recovery(s("a.near"), s("cred-1"), 42).unwrap();
    c.approve_recovery(s("b.near"), first.clone()).unwrap();
    assert_eq!(first, recovery_id(&s("a.near"), &s("cred-1"), 42));
    let r = c.initiate_recovery(s("a.near"), s("cred-1"), 42);
    assert_eq!(r, Err(RecoveryError::IdCollision));
    assert_eq!(r.unwrap_err().kind(), ErrorKind::Conflict);
    // the first request is untouched
    assert_eq!(c.get_recovery_approvals_count(first.clone()), 1);
    // another time gives another identifier
    let other = c.initiate_recovery(s("a.near"), s("cred-1"), 43).unwrap();
    assert_ne!(other, first);
}

#[test]
fn initiate_with_given_id_conflicts_on_tracked_id() {
    let mut c = with_guardians();
    let r = c.initiate_recovery_with_id(s("a.near"), s("k"), 1, s("id-1"));
    assert_eq!(r, Ok(s("id-1")));
    let r = c.initiate_recovery_with_id(s("a.near"), s("other"), 2, s("id-1"));
    assert_eq!(r, Err(RecoveryError::IdCollision));
    assert_eq!(c.get_recovery_request(s("id-1")).unwrap().new_public_key, "k");
    let r = c.initiate_recovery_with_id(s("q.near"), s("k"), 1, s("id-2"));
    assert_eq!(r, Err(RecoveryError::NoGuardians));
}

#[test]
fn callback_from_other_account_is_refused() {
    let mut c = with_guardians();
    let id = c.initiate_recovery(s("a.near"), s("cred-1"), 0).unwrap();
    c.approve_recovery(s("b.near"), id.clone()).unwrap();
    c.approve_recovery(s("d.near"), id.clone()).unwrap();
    c.execute_recovery(id.clone(), RECOVERY_PERIOD_NANOS).unwrap();
    let r = c.recovery_callback(s("b.near"), s(OWN), id.clone(), UpdateResult::Success);
    assert_eq!(r, Err(RecoveryError::NotSelf));
    assert_eq!(r.unwrap_err().kind(), ErrorKind::Unauthorized);
    assert_eq!(c.get_recovery_request(id).unwrap().state, RequestState::Executing);
}

#[test]
fn callback_needs_executing_request() {
    let mut c = with_guardians();
    let id = c.initiate_recovery(s("a.near"), s("cred-1"), 0).unwrap();
    let r = c.recovery_callback(s(OWN), s(OWN), id.clone(), UpdateResult::Success);
    assert_eq!(r, Err(RecoveryError::NotExecuting));
    assert_eq!(r.unwrap_err().kind(), ErrorKind::Conflict);
    let r = c.recovery_callback(s(OWN), s(OWN), s("nope"), UpdateResult::Failure);
    assert_eq!(r, Err(RecoveryError::RequestNotFound));
    assert_eq!(c.get_recovery_request(id).unwrap().state, RequestState::Active);
}

#[test]
fn short_recovery_period() {
    let mut c = AccountRecovery::with_recovery_period(100);
    c.set_guardians(s("a.near"), vec![s("b.near"), s("c.near")]).unwrap();
    let id = c.initiate_recovery(s("a.near"), s("k"), 1_000).unwrap();
    c.approve_recovery(s("b.near"), id.clone()).unwrap();
    c.approve_recovery(s("c.near"), id.clone()).unwrap();
    assert!(matches!(c.execute_recovery(id.clone(), 1_099), Err(RecoveryError::RecoveryPeriodPending)));
    assert!(c.execute_recovery(id, 1_100).is_ok());
}

#[test]
fn decimal_and_hex_encoding() {
    assert_eq!(decimal_string(0), "0");
    assert_eq!(decimal_string(7), "7");
    assert_eq!(decimal_string(1234567890), "1234567890");
    assert_eq!(decimal_string(u64::MAX), "18446744073709551615");
    assert_eq!(hex_encode(&[]), "");
    assert_eq!(hex_encode(&[0x00, 0x0f, 0xa5, 0xff]), "000fa5ff");
    assert_eq!(recovery_preimage(&s("a.near"), &s("cred-1"), 42), "6:a.near6:cred-142");
    assert_eq!(recovery_preimage(&s(""), &s("k"), 0), "0:1:k0");
}

#[test]
fn recovery_id_is_hex_sha256_of_preimage() {
    let id = recovery_id(&s("a.near"), &s("cred-1"), 42);
    let digest = near_sdk::env::sha256_array(b"6:a.near6:cred-142");
    let expected: String = digest.iter().map(|b| format!("{:02x}", b)).collect();
    assert_eq!(id, expected);
    assert_eq!(id.len(), 64);
    assert!(id.chars().all(|c| c.is_ascii_digit() || ('a'..='f').contains(&c)));
    assert_ne!(id, hex_encode(b"6:a.near6:cred-142"));
}

#[test]
fn sha256_of_known_text() {
    let digest = near_sdk::env::sha256_array(b"abc");
    assert_eq!(
        hex_encode(&digest),
        "ba7816bf8f01cfea414140de5dae2223b00361a396177a9cb410ff61f20015ad"
    );
}

#[test]
fn error_messages() {
    assert_eq!(RecoveryError::TooFewGuardians.message(), "Must provide at least 2 guardians.");
    assert_eq!(RecoveryError::NotSelf.kind(), ErrorKind::Unauthorized);
}

#[test]
fn run_together_fields_get_distinct_ids() {
    let first = recovery_id(&s("t.near"), &s("k1"), 23);
    let second = recovery_id(&s("t.near"), &s("k"), 123);
    assert_ne!(first, second);
    assert_ne!(recovery_id(&s("ab"), &s("c"), 1), recovery_id(&s("a"), &s("bc"), 1));
    let mut c = AccountRecovery::new();
    c.set_guardians(s("t.near"), vec![s("b.near"), s("c.near")]).unwrap();
    assert_eq!(c.initiate_recovery(s("t.near"), s("k1"), 23), Ok(first));
    assert_eq!(c.initiate_recovery(s("t.near"), s("k"), 123), Ok(second));
}

#[test]
fn execute_checks_policy_before_pending_state() {
    let mut c = with_guardians();
    let id = c.initiate_recovery(s("a.near"), s("cred-1"), 1_000).unwrap();
    c.approve_recovery(s("b.near"), id.clone()).unwrap();
    c.approve_recovery(s("c.near"), id.clone()).unwrap();
    c.execute_recovery(id.clone(), 1_000 + RECOVERY_PERIOD_NANOS).unwrap();
    // a clock that reads before the time lock ran out is refused by the lock
    let r = c.execute_recovery(id.clone(), 1_000);
    assert!(matches!(r, Err(RecoveryError::RecoveryPeriodPending)));
    assert_eq!(c.get_recovery_request(id).unwrap().state, RequestState::Executing);
}
