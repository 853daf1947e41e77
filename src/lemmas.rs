//! Facts about sequences of operations, proved over the abstract state.

use vstd::prelude::*;

use crate::errors::GuardianError;
use crate::model::{guardian_set_error, Account, RegistryView};

verus! {

/// An owner who offers fewer than two guardians is refused with
/// `InvalidGuardianSet`, and the registry is unchanged.
pub proof fn lemma_register_too_few_guardians(v: RegistryView, account: Account, guardians: Seq<Account>, threshold: nat)
    requires
        guardians.len() < 2,
    ensures
        v.register(account, account, guardians, threshold) == (Err::<(), GuardianError>(GuardianError::InvalidGuardianSet), v),
{
}

/// An owner who offers a valid guardian list with a threshold of zero, or
/// above the number of guardians, is refused with `InvalidThreshold`.
pub proof fn lemma_register_threshold_out_of_range(
    v: RegistryView,
    account: Account,
    guardians: Seq<Account>,
    threshold: nat,
)
    requires
        guardians.len() >= 2,
        guardians.no_duplicates(),
        threshold < 1 || threshold > guardians.len(),
    ensures
        v.register(account, account, guardians, threshold) == (Err::<(), GuardianError>(GuardianError::InvalidThreshold), v),
{
}

/// Once an account has registered, a second registration of valid guardians
/// for it is refused with `AlreadyInitialized`, and the state stays the one
/// that the first registration left.
pub proof fn lemma_register_once(
    v: RegistryView,
    account: Account,
    guardians: Seq<Account>,
    threshold: nat,
    guardians2: Seq<Account>,
    threshold2: nat,
)
    requires
        v.register(account, account, guardians, threshold).0 is Ok,
        guardian_set_error(guardians2, threshold2) is None,
    ensures
        ({
            let v1 = v.register(account, account, guardians, threshold).1;
            v1.register(account, account, guardians2, threshold2) == (Err::<(), GuardianError>(GuardianError::AlreadyInitialized), v1)
        }),
{
}

/// A recovery of an account without guardians is refused with
/// `NotInitialized`.
pub proof fn lemma_initiate_uninitialized(v: RegistryView, account: Account, proposed_key: Seq<u8>)
    requires
        !v.guardian_sets.contains_key(account),
    ensures
        v.initiate(account, proposed_key) == (Err::<u64, GuardianError>(GuardianError::NotInitialized), v),
{
}

/// While an account has an open session, a second recovery of it is refused
/// with `RecoveryAlreadyActive`.
pub proof fn lemma_initiate_while_active(v: RegistryView, account: Account, proposed_key: Seq<u8>)
    requires
        v.inv(),
        v.active.contains_key(account),
    ensures
        v.initiate(account, proposed_key) == (Err::<u64, GuardianError>(GuardianError::RecoveryAlreadyActive), v),
{
}

/// An approval by someone outside the session's guardian set is refused with
/// `NotGuardian`, and no approval count changes.
pub proof fn lemma_approve_by_outsider(v: RegistryView, id: u64, caller: Account)
    requires
        v.has_session(id),
        !v.guardian_sets[v.session(id).account].guardians.contains(caller),
    ensures
        v.approve(id, caller) == (Err::<(), GuardianError>(GuardianError::NotGuardian), v),
{
}

/// A guardian's second approval of the same session is refused with
/// `AlreadyApproved`, and leaves the state, approval count included, as the
/// first approval left it.
pub proof fn lemma_approve_twice(v: RegistryView, id: u64, guardian: Account)
    requires
        v.approve(id, guardian).0 is Ok,
    ensures
        ({
            let v1 = v.approve(id, guardian).1;
            &&& v1.approve(id, guardian) == (Err::<(), GuardianError>(GuardianError::AlreadyApproved), v1)
            &&& v1.session(id).approval_count() == v.session(id).approval_count() + 1
        }),
{
    let v1 = v.approve(id, guardian).1;
    assert(v1.session(id).approvers.contains(guardian)) by {
        let n = v.session(id).approvers.len() as int;
        assert(v1.session(id).approvers[n] == guardian);
    }
}

/// The answers to `is_approved` and `session_info` depend on the state
/// alone, and a registration changes neither of them.
pub proof fn lemma_queries_unchanged_by_register(
    v: RegistryView,
    id: u64,
    caller: Account,
    account: Account,
    guardians: Seq<Account>,
    threshold: nat,
)
    ensures
        ({
            let v1 = v.register(caller, account, guardians, threshold).1;
            &&& v1.is_approved(id) == v.is_approved(id)
            &&& v1.session_info(id) == v.session_info(id)
        }),
{
}

/// Opening a session changes neither `is_approved` nor `session_info` for
/// any session that existed before.
pub proof fn lemma_queries_unchanged_by_initiate(v: RegistryView, id: u64, account: Account, proposed_key: Seq<u8>)
    requires
        id <= v.sessions.len(),
    ensures
        ({
            let v1 = v.initiate(account, proposed_key).1;
            &&& v1.is_approved(id) == v.is_approved(id)
            &&& v1.session_info(id) == v.session_info(id)
        }),
{
    let v1 = v.initiate(account, proposed_key).1;
    if v.has_session(id) && v1 != v {
        assert(v1.sessions[id - 1] == v.sessions[id - 1]);
    }
}

/// Closing a session before it is approved is refused with
/// `ThresholdNotMet`, and the account's active-session marker stays.
pub proof fn lemma_finalize_unapproved(v: RegistryView, id: u64)
    requires
        v.has_session(id),
        !v.session(id).approved,
    ensures
        v.finalize(id) == (Err::<(), GuardianError>(GuardianError::ThresholdNotMet), v),
{
}

/// Closing an approved session that is its account's open one (or whose
/// account has none open) succeeds and clears the account's marker; a new
/// recovery of that account is then accepted, under an identifier other
/// than the closed session's.
pub proof fn lemma_finalize_then_initiate(v: RegistryView, id: u64, proposed_key: Seq<u8>)
    requires
        v.inv(),
        v.has_session(id),
        v.session(id).approved,
        v.active.contains_key(v.session(id).account) ==> v.active[v.session(id).account] == id,
        v.sessions.len() < u64::MAX,
    ensures
        ({
            let account = v.session(id).account;
            let (r1, v1) = v.finalize(id);
            let (r2, v2) = v1.initiate(account, proposed_key);
            &&& r1 is Ok
            &&& !v1.active.contains_key(account)
            &&& r2 is Ok
            &&& r2->Ok_0 != id
            &&& v2.active[account] == r2->Ok_0
        }),
{
    let account = v.session(id).account;
    assert(v.session_ok(v.sessions[id - 1]));
    assert(v.guardian_sets.contains_key(account));
}

/// Approvals only accumulate: an approval never withdraws another session's
/// approval, nor lowers any session's approval count.
pub proof fn lemma_approve_monotone(v: RegistryView, id: u64, caller: Account, other: u64)
    requires
        v.has_session(other),
    ensures
        ({
            let v1 = v.approve(id, caller).1;
            &&& v1.has_session(other)
            &&& v.session(other).approved ==> v1.session(other).approved
            &&& v1.session(other).approval_count() >= v.session(other).approval_count()
        }),
{
}

/// A refused operation changes nothing: whenever `register`, `initiate`,
/// `approve` or `finalize` fails, the state after it is the state before.
pub proof fn lemma_refusal_changes_nothing(
    v: RegistryView,
    caller: Account,
    account: Account,
    guardians: Seq<Account>,
    threshold: nat,
    proposed_key: Seq<u8>,
    id: u64,
)
    ensures
        v.register(caller, account, guardians, threshold).0 is Err ==> v.register(caller, account, guardians, threshold).1 == v,
        v.initiate(account, proposed_key).0 is Err ==> v.initiate(account, proposed_key).1 == v,
        v.approve(id, caller).0 is Err ==> v.approve(id, caller).1 == v,
        v.finalize(id).0 is Err ==> v.finalize(id).1 == v,
{
}

} // verus!
