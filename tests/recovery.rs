use guardian_recovery::{Account, GuardianError, GuardianRegistry};

fn acct(n: u128) -> Account {
    Account { high: 0, low: n }
}

const A: u128 = 1;
const G1: u128 = 11;
const G2: u128 = 12;
const G3: u128 = 13;

fn registered() -> GuardianRegistry {
    let mut reg = GuardianRegistry::new();
    reg.register(acct(A), acct(A), vec![acct(G1), acct(G2), acct(G3)], 2).unwrap();
    reg
}

#[test]
fn scenario_full_recovery() {
    let mut reg = GuardianRegistry::new();
    assert_eq!(reg.register(acct(A), acct(A), vec![acct(G1), acct(G2), acct(G3)], 2), Ok(()));
    assert_eq!(reg.initiate(acct(A), vec![0xaa, 0xbb]), Ok(1));
    assert_eq!(reg.approve(1, acct(G1)), Ok(()));
    assert_eq!(reg.get_session_info(1), Ok((acct(A), 1, false)));
    assert_eq!(reg.approve(1, acct(G1)), Err(GuardianError::AlreadyApproved));
    assert_eq!(reg.get_session_info(1), Ok((acct(A), 1, false)));
    assert_eq!(reg.approve(1, acct(G2)), Ok(()));
    assert_eq!(reg.get_session_info(1), Ok((acct(A), 2, true)));
    assert_eq!(reg.is_approved(1), Ok(true));
    assert_eq!(reg.active_session(acct(A)), Some(1));
    assert_eq!(reg.finalize(1), Ok(()));
    assert_eq!(reg.active_session(acct(A)), None);
    assert_eq!(reg.initiate(acct(A), vec![0xcc]), Ok(2));
    assert_eq!(reg.get_session_info(2), Ok((acct(A), 0, false)));
    assert_eq!(reg.get_session_info(1), Ok((acct(A), 2, true)));
    assert_eq!(reg.get_proposed_key(1), Ok(vec![0xaa, 0xbb]));
    assert_eq!(reg.get_proposed_key(2), Ok(vec![0xcc]));
}

#[test]
fn register_by_non_owner() {
    let mut reg = GuardianRegistry::new();
    assert_eq!(
        reg.register(acct(G1), acct(A), vec![acct(G1), acct(G2)], 1),
        Err(GuardianError::NotOwner)
    );
    assert!(!reg.has_guardians(acct(A)));
}

#[test]
fn register_too_few_guardians() {
    let mut reg = GuardianRegistry::new();
    assert_eq!(reg.register(acct(A), acct(A), vec![], 1), Err(GuardianError::InvalidGuardianSet));
    assert_eq!(reg.register(acct(A), acct(A), vec![acct(G1)], 1), Err(GuardianError::InvalidGuardianSet));
    assert!(!reg.has_guardians(acct(A)));
}

#[test]
fn register_duplicate_guardians() {
    let mut reg = GuardianRegistry::new();
    assert_eq!(
        reg.register(acct(A), acct(A), vec![acct(G1), acct(G2), acct(G1)], 2),
        Err(GuardianError::InvalidGuardianSet)
    );
    assert!(!reg.has_guardians(acct(A)));
}

#[test]
fn register_threshold_out_of_range() {
    let mut reg = GuardianRegistry::new();
    let gs = vec![acct(G1), acct(G2), acct(G3)];
    assert_eq!(reg.register(acct(A), acct(A), gs.clone(), 0), Err(GuardianError::InvalidThreshold));
    assert_eq!(reg.register(acct(A), acct(A), gs.clone(), 4), Err(GuardianError::InvalidThreshold));
    assert_eq!(reg.register(acct(A), acct(A), gs.clone(), 255), Err(GuardianError::InvalidThreshold));
    assert!(!reg.has_guardians(acct(A)));
    assert_eq!(reg.register(acct(A), acct(A), gs, 3), Ok(()));
    assert_eq!(reg.get_threshold(acct(A)), Ok(3));
}

#[test]
fn register_twice() {
    let mut reg = registered();
    assert_eq!(
        reg.register(acct(A), acct(A), vec![acct(G1), acct(G2)], 1),
        Err(GuardianError::AlreadyInitialized)
    );
    assert_eq!(reg.get_guardians(acct(A)), Ok(vec![acct(G1), acct(G2), acct(G3)]));
    assert_eq!(reg.get_threshold(acct(A)), Ok(2));
    assert!(reg.has_guardians(acct(A)));
}

#[test]
fn queries_on_unknown_account() {
    let reg = registered();
    assert_eq!(reg.get_guardians(acct(99)), Err(GuardianError::NotInitialized));
    assert_eq!(reg.get_threshold(acct(99)), Err(GuardianError::NotInitialized));
    assert!(!reg.has_guardians(acct(99)));
    assert_eq!(reg.active_session(acct(99)), None);
}

#[test]
fn accounts_are_independent() {
    let mut reg = registered();
    let b = Account { high: 7, low: A };
    assert_eq!(reg.register(b, b, vec![acct(G2), acct(G3)], 2), Ok(()));
    assert_eq!(reg.initiate(acct(A), vec![1]), Ok(1));
    assert_eq!(reg.initiate(b, vec![2]), Ok(2));
    assert_eq!(reg.approve(2, acct(G1)), Err(GuardianError::NotGuardian));
    assert_eq!(reg.approve(1, acct(G1)), Ok(()));
    assert_eq!(reg.approve(2, acct(G2)), Ok(()));
    assert_eq!(reg.is_approved(1), Ok(false));
    assert_eq!(reg.is_approved(2), Ok(false));
    assert_eq!(reg.get_session_info(2), Ok((b, 1, false)));
}

#[test]
fn initiate_uninitialized() {
    let mut reg = registered();
    assert_eq!(reg.initiate(acct(99), vec![1]), Err(GuardianError::NotInitialized));
    assert_eq!(reg.session_count(), 0);
}

#[test]
fn initiate_while_active() {
    let mut reg = registered();
    assert_eq!(reg.initiate(acct(A), vec![1]), Ok(1));
    assert_eq!(reg.initiate(acct(A), vec![2]), Err(GuardianError::RecoveryAlreadyActive));
    assert_eq!(reg.session_count(), 1);
    assert_eq!(reg.active_session(acct(A)), Some(1));
}

#[test]
fn initiate_after_finalize() {
    let mut reg = registered();
    assert_eq!(reg.initiate(acct(A), vec![1]), Ok(1));
    assert_eq!(reg.approve(1, acct(G2)), Ok(()));
    assert_eq!(reg.approve(1, acct(G3)), Ok(()));
    assert_eq!(reg.finalize(1), Ok(()));
    assert_eq!(reg.initiate(acct(A), vec![2]), Ok(2));
    assert_eq!(reg.active_session(acct(A)), Some(2));
}

#[test]
fn approve_by_non_guardian() {
    let mut reg = registered();
    reg.initiate(acct(A), vec![1]).unwrap();
    assert_eq!(reg.approve(1, acct(G1)), Ok(()));
    assert_eq!(reg.approve(1, acct(A)), Err(GuardianError::NotGuardian));
    assert_eq!(reg.approve(1, acct(99)), Err(GuardianError::NotGuardian));
    assert_eq!(reg.get_session_info(1), Ok((acct(A), 1, false)));
}

#[test]
fn approve_unknown_session() {
    let mut reg = registered();
    assert_eq!(reg.approve(0, acct(G1)), Err(GuardianError::SessionNotFound));
    assert_eq!(reg.approve(1, acct(G1)), Err(GuardianError::SessionNotFound));
    reg.initiate(acct(A), vec![1]).unwrap();
    assert_eq!(reg.approve(2, acct(G1)), Err(GuardianError::SessionNotFound));
    assert_eq!(reg.approve(u64::MAX, acct(G1)), Err(GuardianError::SessionNotFound));
}

#[test]
fn approve_twice_same_guardian() {
    let mut reg = registered();
    reg.initiate(acct(A), vec![1]).unwrap();
    assert_eq!(reg.approve(1, acct(G3)), Ok(()));
    assert_eq!(reg.approve(1, acct(G3)), Err(GuardianError::AlreadyApproved));
    assert_eq!(reg.get_session_info(1), Ok((acct(A), 1, false)));
}

#[test]
fn approvals_past_threshold_are_recorded() {
    let mut reg = registered();
    reg.initiate(acct(A), vec![1]).unwrap();
    assert_eq!(reg.approve(1, acct(G1)), Ok(()));
    assert_eq!(reg.approve(1, acct(G2)), Ok(()));
    assert_eq!(reg.approve(1, acct(G3)), Ok(()));
    assert_eq!(reg.get_session_info(1), Ok((acct(A), 3, true)));
    assert_eq!(reg.approve(1, acct(G2)), Err(GuardianError::AlreadyApproved));
    assert_eq!(reg.is_approved(1), Ok(true));
}

#[test]
fn threshold_of_one() {
    let mut reg = GuardianRegistry::new();
    reg.register(acct(A), acct(A), vec![acct(G1), acct(G2)], 1).unwrap();
    reg.initiate(acct(A), vec![1]).unwrap();
    assert_eq!(reg.is_approved(1), Ok(false));
    assert_eq!(reg.approve(1, acct(G2)), Ok(()));
    assert_eq!(reg.is_approved(1), Ok(true));
}

#[test]
fn read_only_queries_repeat() {
    let mut reg = registered();
    reg.initiate(acct(A), vec![1]).unwrap();
    reg.approve(1, acct(G1)).unwrap();
    for _ in 0..3 {
        assert_eq!(reg.is_approved(1), Ok(false));
        assert_eq!(reg.get_session_info(1), Ok((acct(A), 1, false)));
    }
    let b = acct(50);
    reg.register(b, b, vec![acct(G1), acct(G2)], 1).unwrap();
    reg.initiate(b, vec![9]).unwrap();
    assert_eq!(reg.is_approved(1), Ok(false));
    assert_eq!(reg.get_session_info(1), Ok((acct(A), 1, false)));
    assert_eq!(reg.is_approved(3), Err(GuardianError::SessionNotFound));
    assert_eq!(reg.get_session_info(0), Err(GuardianError::SessionNotFound));
    assert_eq!(reg.get_proposed_key(3), Err(GuardianError::SessionNotFound));
}

#[test]
fn finalize_before_threshold() {
    let mut reg = registered();
    reg.initiate(acct(A), vec![1]).unwrap();
    assert_eq!(reg.finalize(1), Err(GuardianError::ThresholdNotMet));
    reg.approve(1, acct(G1)).unwrap();
    assert_eq!(reg.finalize(1), Err(GuardianError::ThresholdNotMet));
    assert_eq!(reg.active_session(acct(A)), Some(1));
    assert_eq!(reg.initiate(acct(A), vec![2]), Err(GuardianError::RecoveryAlreadyActive));
}

#[test]
fn finalize_unknown_session() {
    let mut reg = registered();
    assert_eq!(reg.finalize(1), Err(GuardianError::SessionNotFound));
    assert_eq!(reg.finalize(0), Err(GuardianError::SessionNotFound));
}

#[test]
fn finalize_old_session_keeps_newer_marker() {
    let mut reg = registered();
    reg.initiate(acct(A), vec![1]).unwrap();
    reg.approve(1, acct(G1)).unwrap();
    reg.approve(1, acct(G2)).unwrap();
    assert_eq!(reg.finalize(1), Ok(()));
    assert_eq!(reg.initiate(acct(A), vec![2]), Ok(2));
    assert_eq!(reg.finalize(1), Ok(()));
    assert_eq!(reg.active_session(acct(A)), Some(2));
    assert_eq!(reg.initiate(acct(A), vec![3]), Err(GuardianError::RecoveryAlreadyActive));
}

#[test]
fn error_codes() {
    let all = [
        (GuardianError::NotOwner, 1),
        (GuardianError::AlreadyInitialized, 2),
        (GuardianError::InvalidGuardianSet, 3),
        (GuardianError::InvalidThreshold, 4),
        (GuardianError::NotGuardian, 5),
        (GuardianError::RecoveryAlreadyActive, 6),
        (GuardianError::SessionNotFound, 7),
        (GuardianError::AlreadyApproved, 8),
        (GuardianError::ThresholdNotMet, 9),
        (GuardianError::NotInitialized, 10),
        (GuardianError::SessionIdsExhausted, 12),
    ];
    for (e, code) in all {
        assert_eq!(e.code(), code);
    }
}
