//! The abstract state of the registry and the effect of each operation on it.
//!
//! Every operation of [`crate::registry::GuardianRegistry`] is specified as a
//! function from the abstract state before the call to the pair (result,
//! abstract state after the call).

use vstd::prelude::*;

use crate::errors::GuardianError;

verus! {

/// The identity of an account: a 32-byte account hash, held as its
/// high and low 16 bytes.
#[derive(Debug, Clone, Copy, PartialEq, Eq, Structural)]
pub struct Account {
    pub high: u128,
    pub low: u128,
}

/// The fewest guardians an account may register.
pub const MIN_GUARDIANS: usize = 2;

/// The guardians of one account and how many of them must approve a recovery.
pub struct GuardianSetView {
    pub guardians: Seq<Account>,
    pub threshold: nat,
}

/// One recovery session.
pub struct SessionView {
    /// The account under recovery.
    pub account: Account,
    /// The credential that the guardians vote to install.
    pub proposed_key: Seq<u8>,
    /// The guardians that approved, in the order in which they approved.
    pub approvers: Seq<Account>,
    /// Whether the approvals have reached the account's threshold.
    pub approved: bool,
}

/// The whole state of the registry.
pub struct RegistryView {
    /// The guardian set of each initialized account.
    pub guardian_sets: Map<Account, GuardianSetView>,
    /// The open session of each account that has one.
    pub active: Map<Account, u64>,
    /// Every session ever opened: the session with identifier `k` is
    /// `sessions[k - 1]`, so the last identifier issued is `sessions.len()`.
    pub sessions: Seq<SessionView>,
}

impl GuardianSetView {
    /// At least two guardians, none listed twice, and a threshold between one
    /// and the number of guardians.
    pub open spec fn valid(self) -> bool {
        &&& self.guardians.len() >= MIN_GUARDIANS
        &&& self.guardians.no_duplicates()
        &&& 1 <= self.threshold <= self.guardians.len()
    }
}

impl SessionView {
    /// The number of approvals the session has gathered.
    pub open spec fn approval_count(self) -> nat {
        self.approvers.len()
    }
}

/// Whether `guardians` and `threshold` may be registered.
pub open spec fn guardian_set_error(guardians: Seq<Account>, threshold: nat) -> Option<GuardianError> {
    if guardians.len() < MIN_GUARDIANS || !guardians.no_duplicates() {
        Some(GuardianError::InvalidGuardianSet)
    } else if threshold < 1 || threshold > guardians.len() {
        Some(GuardianError::InvalidThreshold)
    } else {
        None
    }
}

impl RegistryView {
    /// The registry holding nothing.
    pub open spec fn empty() -> RegistryView {
        RegistryView { guardian_sets: Map::empty(), active: Map::empty(), sessions: Seq::empty() }
    }

    pub open spec fn has_session(self, id: u64) -> bool {
        1 <= id <= self.sessions.len()
    }

    pub open spec fn session(self, id: u64) -> SessionView {
        self.sessions[id - 1]
    }

    /// The threshold that governs a session.
    pub open spec fn session_threshold(self, id: u64) -> nat {
        self.guardian_sets[self.session(id).account].threshold
    }

    /// What holds of every state that the operations reach from the empty one.
    pub open spec fn inv(self) -> bool {
        &&& self.sessions.len() <= u64::MAX
        &&& forall|a: Account| #[trigger] self.guardian_sets.contains_key(a) ==> self.guardian_sets[a].valid()
        &&& forall|a: Account| #[trigger] self.active.contains_key(a) ==> {
            &&& self.guardian_sets.contains_key(a)
            &&& self.has_session(self.active[a])
            &&& self.session(self.active[a]).account == a
        }
        &&& forall|k: int| 0 <= k < self.sessions.len() ==> self.session_ok(#[trigger] self.sessions[k])
    }

    /// A session belongs to an initialized account, was approved only by
    /// distinct guardians of that account, and is approved exactly when its
    /// approvals reach the threshold.
    pub open spec fn session_ok(self, s: SessionView) -> bool {
        &&& self.guardian_sets.contains_key(s.account)
        &&& s.approvers.no_duplicates()
        &&& forall|j: int| 0 <= j < s.approvers.len()
            ==> self.guardian_sets[s.account].guardians.contains(#[trigger] s.approvers[j])
        &&& s.approved == (s.approval_count() >= self.guardian_sets[s.account].threshold)
    }

    /// `caller` registers `guardians` with `threshold` for `account`.
    pub open spec fn register(self, caller: Account, account: Account, guardians: Seq<Account>, threshold: nat)
        -> (Result<(), GuardianError>, RegistryView)
    {
        if caller != account {
            (Err(GuardianError::NotOwner), self)
        } else if guardian_set_error(guardians, threshold) is Some {
            (Err(guardian_set_error(guardians, threshold)->Some_0), self)
        } else if self.guardian_sets.contains_key(account) {
            (Err(GuardianError::AlreadyInitialized), self)
        } else {
            let set = GuardianSetView { guardians, threshold };
            (Ok(()), RegistryView { guardian_sets: self.guardian_sets.insert(account, set), ..self })
        }
    }

    /// A recovery of `account` towards `proposed_key` is opened.
    pub open spec fn initiate(self, account: Account, proposed_key: Seq<u8>) -> (Result<u64, GuardianError>, RegistryView) {
        if !self.guardian_sets.contains_key(account) {
            (Err(GuardianError::NotInitialized), self)
        } else if self.active.contains_key(account) {
            (Err(GuardianError::RecoveryAlreadyActive), self)
        } else if self.sessions.len() >= u64::MAX {
            (Err(GuardianError::SessionIdsExhausted), self)
        } else {
            let id = (self.sessions.len() + 1) as u64;
            let s = SessionView { account, proposed_key, approvers: Seq::empty(), approved: false };
            (Ok(id), RegistryView { active: self.active.insert(account, id), sessions: self.sessions.push(s), ..self })
        }
    }

    /// `caller` approves session `id`.
    pub open spec fn approve(self, id: u64, caller: Account) -> (Result<(), GuardianError>, RegistryView) {
        if !self.has_session(id) {
            (Err(GuardianError::SessionNotFound), self)
        } else {
            let s = self.session(id);
            if !self.guardian_sets[s.account].guardians.contains(caller) {
                (Err(GuardianError::NotGuardian), self)
            } else if s.approvers.contains(caller) {
                (Err(GuardianError::AlreadyApproved), self)
            } else {
                let approvers = s.approvers.push(caller);
                let approved = s.approved || approvers.len() >= self.session_threshold(id);
                let s2 = SessionView { approvers, approved, ..s };
                (Ok(()), RegistryView { sessions: self.sessions.update(id - 1, s2), ..self })
            }
        }
    }

    /// Session `id` is closed. The account's active-session marker is
    /// cleared when it names this session.
    pub open spec fn finalize(self, id: u64) -> (Result<(), GuardianError>, RegistryView) {
        if !self.has_session(id) {
            (Err(GuardianError::SessionNotFound), self)
        } else if !self.session(id).approved {
            (Err(GuardianError::ThresholdNotMet), self)
        } else {
            let a = self.session(id).account;
            if self.active.contains_key(a) && self.active[a] == id {
                (Ok(()), RegistryView { active: self.active.remove(a), ..self })
            } else {
                (Ok(()), self)
            }
        }
    }

    /// Whether session `id` is approved.
    pub open spec fn is_approved(self, id: u64) -> Result<bool, GuardianError> {
        if !self.has_session(id) {
            Err(GuardianError::SessionNotFound)
        } else {
            Ok(self.session(id).approved)
        }
    }

    /// The account, approval count and approval of session `id`.
    pub open spec fn session_info(self, id: u64) -> Result<(Account, nat, bool), GuardianError> {
        if !self.has_session(id) {
            Err(GuardianError::SessionNotFound)
        } else {
            let s = self.session(id);
            Ok((s.account, s.approval_count(), s.approved))
        }
    }
}

} // verus!
