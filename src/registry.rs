//! The guardian registry and the recovery sessions it governs.

use vstd::prelude::*;

use crate::errors::GuardianError;
use crate::model::{Account, GuardianSetView, RegistryView, SessionView, MIN_GUARDIANS};
use crate::seq_util::{contains_account, copy_vec, has_no_duplicates};

verus! {

/// What is stored for one initialized account.
struct AccountRecord {
    account: Account,
    guardians: Vec<Account>,
    threshold: u8,
    /// The account's open session, if any.
    active: Option<u64>,
}

/// What is stored for one session.
struct SessionRecord {
    account: Account,
    proposed_key: Vec<u8>,
    approvers: Vec<Account>,
    approved: bool,
}

impl AccountRecord {
    closed spec fn set_view(&self) -> GuardianSetView {
        GuardianSetView { guardians: self.guardians@, threshold: self.threshold as nat }
    }
}

impl View for SessionRecord {
    type V = SessionView;

    closed spec fn view(&self) -> SessionView {
        SessionView {
            account: self.account,
            proposed_key: self.proposed_key@,
            approvers: self.approvers@,
            approved: self.approved,
        }
    }
}

/// Guardian sets of accounts, and recovery sessions with their approvals.
///
/// Every operation either succeeds with the effect that its contract states,
/// or fails and leaves the registry unchanged.
pub struct GuardianRegistry {
    accounts: Vec<AccountRecord>,
    sessions: Vec<SessionRecord>,
    /// Where in `accounts` the record of each initialized account stands.
    index: Ghost<Map<Account, int>>,
}

impl View for GuardianRegistry {
    type V = RegistryView;

    closed spec fn view(&self) -> RegistryView {
        RegistryView {
            guardian_sets: Map::new(
                |a: Account| self.index@.contains_key(a),
                |a: Account| self.accounts@[self.index@[a]].set_view(),
            ),
            active: Map::new(
                |a: Account| self.index@.contains_key(a) && self.accounts@[self.index@[a]].active is Some,
                |a: Account| self.accounts@[self.index@[a]].active->Some_0,
            ),
            sessions: self.sessions@.map_values(|s: SessionRecord| s@),
        }
    }
}

impl GuardianRegistry {
    /// The records and the index agree, and the abstract state meets its
    /// invariant.
    pub closed spec fn wf(&self) -> bool {
        &&& forall|a: Account| #[trigger] self.index@.contains_key(a) ==> {
            &&& 0 <= self.index@[a] < self.accounts@.len()
            &&& self.accounts@[self.index@[a]].account == a
        }
        &&& forall|i: int| 0 <= i < self.accounts@.len() ==> {
            &&& self.index@.contains_key(#[trigger] self.accounts@[i].account)
            &&& self.index@[self.accounts@[i].account] == i
        }
        &&& self@.inv()
    }

    /// A well-formed registry's abstract state meets the invariant.
    pub proof fn lemma_wf_inv(&self)
        requires
            self.wf(),
        ensures
            self@.inv(),
    {
    }

    /// An empty registry.
    pub fn new() -> (r: GuardianRegistry)
        ensures
            r.wf(),
            r@ == RegistryView::empty(),
    {
        let r = GuardianRegistry { accounts: Vec::new(), sessions: Vec::new(), index: Ghost(Map::empty()) };
        assert(r@.guardian_sets =~= Map::empty());
        assert(r@.active =~= Map::empty());
        assert(r@.sessions =~= Seq::empty());
        r
    }

    /// Where the record of `account` stands, if it is initialized.
    fn find_account(&self, account: Account) -> (r: Option<usize>)
        requires
            self.wf(),
        ensures
            match r {
                Some(i) => self.index@.contains_key(account) && self.index@[account] == i,
                None => !self.index@.contains_key(account),
            },
    {
        let mut i: usize = 0;
        while i < self.accounts.len()
            invariant
                self.wf(),
                i <= self.accounts@.len(),
                forall|j: int| 0 <= j < i ==> (#[trigger] self.accounts@[j]).account != account,
            decreases self.accounts@.len() - i,
        {
            if self.accounts[i].account == account {
                assert(self.index@.contains_key(self.accounts@[i as int].account));
                return Some(i);
            }
            i = i + 1;
        }
        proof {
            if self.index@.contains_key(account) {
                assert(self.accounts@[self.index@[account]].account == account);
            }
        }
        None
    }

    /// The owner `caller` registers `guardians` and `threshold` for
    /// `account`, once.
    pub fn register(&mut self, caller: Account, account: Account, guardians: Vec<Account>, threshold: u8)
        -> (r: Result<(), GuardianError>)
        requires
            old(self).wf(),
        ensures
            final(self).wf(),
            (r, final(self)@) == old(self)@.register(caller, account, guardians@, threshold as nat),
    {
        if caller != account {
            return Err(GuardianError::NotOwner);
        }
        if guardians.len() < MIN_GUARDIANS || !has_no_duplicates(&guardians) {
            return Err(GuardianError::InvalidGuardianSet);
        }
        if threshold == 0 || threshold as usize > guardians.len() {
            return Err(GuardianError::InvalidThreshold);
        }
        if self.find_account(account).is_some() {
            return Err(GuardianError::AlreadyInitialized);
        }
        let ghost v0 = self@;
        let ghost set = GuardianSetView { guardians: guardians@, threshold: threshold as nat };
        let i = self.accounts.len();
        self.accounts.push(AccountRecord { account, guardians, threshold, active: None });
        self.index = Ghost(self.index@.insert(account, i as int));
        assert(self@.guardian_sets =~= v0.guardian_sets.insert(account, set));
        assert(self@.active =~= v0.active);
        assert(self@.sessions =~= v0.sessions);
        assert forall|k: int| 0 <= k < self@.sessions.len() implies self@.session_ok(#[trigger] self@.sessions[k]) by {
            assert(v0.session_ok(v0.sessions[k]));
        }
        Ok(())
    }

    /// Opens a recovery of `account` towards `proposed_key` and returns the
    /// new session's identifier.
    pub fn initiate(&mut self, account: Account, proposed_key: Vec<u8>) -> (r: Result<u64, GuardianError>)
        requires
            old(self).wf(),
        ensures
            final(self).wf(),
            (r, final(self)@) == old(self)@.initiate(account, proposed_key@),
    {
        let i = match self.find_account(account) {
            Some(i) => i,
            None => {
                return Err(GuardianError::NotInitialized);
            },
        };
        if self.accounts[i].active.is_some() {
            return Err(GuardianError::RecoveryAlreadyActive);
        }
        if self.sessions.len() as u64 >= u64::MAX {
            return Err(GuardianError::SessionIdsExhausted);
        }
        let ghost v0 = self@;
        let id = self.sessions.len() as u64 + 1;
        let ghost s = SessionView { account, proposed_key: proposed_key@, approvers: Seq::empty(), approved: false };
        self.sessions.push(SessionRecord { account, proposed_key, approvers: Vec::new(), approved: false });
        self.accounts[i].active = Some(id);
        assert(self@.guardian_sets =~= v0.guardian_sets);
        assert(self@.active =~= v0.active.insert(account, id));
        assert(self@.sessions =~= v0.sessions.push(s));
        assert forall|k: int| 0 <= k < self@.sessions.len() implies self@.session_ok(#[trigger] self@.sessions[k]) by {
            if k < v0.sessions.len() {
                assert(v0.session_ok(v0.sessions[k]));
            } else {
                assert(v0.guardian_sets.contains_key(account));
                assert(v0.guardian_sets[account].valid());
                assert(self@.sessions[k] == s);
                assert(s.approvers.no_duplicates());
            }
        }
        assert forall|a: Account| #[trigger] self@.active.contains_key(a) implies {
            &&& self@.guardian_sets.contains_key(a)
            &&& self@.has_session(self@.active[a])
            &&& self@.session(self@.active[a]).account == a
        } by {
            if a != account {
                assert(v0.active.contains_key(a));
            }
        }
        Ok(id)
    }

    /// The guardian `caller` approves session `id`.
    pub fn approve(&mut self, id: u64, caller: Account) -> (r: Result<(), GuardianError>)
        requires
            old(self).wf(),
        ensures
            final(self).wf(),
            (r, final(self)@) == old(self)@.approve(id, caller),
    {
        if id == 0 || id > self.sessions.len() as u64 {
            return Err(GuardianError::SessionNotFound);
        }
        let k = (id - 1) as usize;
        let ghost v0 = self@;
        assert(v0.session_ok(v0.sessions[k as int]));
        let account = self.sessions[k].account;
        let i = match self.find_account(account) {
            Some(i) => i,
            None => {
                return Err(GuardianError::NotGuardian);
            },
        };
        if !contains_account(&self.accounts[i].guardians, caller) {
            return Err(GuardianError::NotGuardian);
        }
        if contains_account(&self.sessions[k].approvers, caller) {
            return Err(GuardianError::AlreadyApproved);
        }
        self.sessions[k].approvers.push(caller);
        if self.sessions[k].approvers.len() >= self.accounts[i].threshold as usize {
            self.sessions[k].approved = true;
        }
        let ghost s = v0.sessions[k as int];
        let ghost approvers = s.approvers.push(caller);
        let ghost s2 = SessionView {
            approvers,
            approved: s.approved || approvers.len() >= v0.session_threshold(id),
            ..s
        };
        assert(self@.guardian_sets =~= v0.guardian_sets);
        assert(self@.active =~= v0.active);
        assert(self@.sessions =~= v0.sessions.update(k as int, s2));
        assert(self@.session_ok(s2)) by {
            assert forall|j: int| 0 <= j < approvers.len()
                implies self@.guardian_sets[account].guardians.contains(#[trigger] approvers[j]) by {
                if j < s.approvers.len() {
                    assert(approvers[j] == s.approvers[j]);
                }
            }
        }
        assert forall|k2: int| 0 <= k2 < self@.sessions.len() implies self@.session_ok(#[trigger] self@.sessions[k2]) by {
            if k2 != k {
                assert(v0.session_ok(v0.sessions[k2]));
            }
        }
        Ok(())
    }

    /// Closes the approved session `id`, releasing its account for a later
    /// recovery. The account's active-session marker is cleared only while
    /// it names this session, so closing an old session again cannot release
    /// a newer one.
    pub fn finalize(&mut self, id: u64) -> (r: Result<(), GuardianError>)
        requires
            old(self).wf(),
        ensures
            final(self).wf(),
            (r, final(self)@) == old(self)@.finalize(id),
    {
        if id == 0 || id > self.sessions.len() as u64 {
            return Err(GuardianError::SessionNotFound);
        }
        let k = (id - 1) as usize;
        let ghost v0 = self@;
        assert(v0.session_ok(v0.sessions[k as int]));
        if !self.sessions[k].approved {
            return Err(GuardianError::ThresholdNotMet);
        }
        let account = self.sessions[k].account;
        let i = match self.find_account(account) {
            Some(i) => i,
            None => {
                return Err(GuardianError::SessionNotFound);
            },
        };
        let names_this = match self.accounts[i].active {
            Some(open_id) => open_id == id,
            None => false,
        };
        if names_this {
            self.accounts[i].active = None;
            assert(self@.guardian_sets =~= v0.guardian_sets);
            assert(self@.active =~= v0.active.remove(account));
            assert(self@.sessions =~= v0.sessions);
            assert forall|k2: int| 0 <= k2 < self@.sessions.len() implies self@.session_ok(#[trigger] self@.sessions[k2]) by {
                assert(v0.session_ok(v0.sessions[k2]));
            }
            assert forall|a: Account| #[trigger] self@.active.contains_key(a) implies {
                &&& self@.guardian_sets.contains_key(a)
                &&& self@.has_session(self@.active[a])
                &&& self@.session(self@.active[a]).account == a
            } by {
                assert(v0.active.contains_key(a));
            }
        }
        Ok(())
    }

    /// Whether session `id` has reached its threshold.
    pub fn is_approved(&self, id: u64) -> (r: Result<bool, GuardianError>)
        requires
            self.wf(),
        ensures
            r == self@.is_approved(id),
    {
        if id == 0 || id > self.sessions.len() as u64 {
            return Err(GuardianError::SessionNotFound);
        }
        Ok(self.sessions[(id - 1) as usize].approved)
    }

    /// The account, approval count and approval state of session `id`.
    pub fn get_session_info(&self, id: u64) -> (r: Result<(Account, usize, bool), GuardianError>)
        requires
            self.wf(),
        ensures
            match self@.session_info(id) {
                Ok((account, count, approved)) => r == Ok::<(Account, usize, bool), GuardianError>(
                    (account, count as usize, approved),
                ) && count == r->Ok_0.1 as nat,
                Err(e) => r == Err::<(Account, usize, bool), GuardianError>(e),
            },
    {
        if id == 0 || id > self.sessions.len() as u64 {
            return Err(GuardianError::SessionNotFound);
        }
        let s = &self.sessions[(id - 1) as usize];
        Ok((s.account, s.approvers.len(), s.approved))
    }

    /// The credential that session `id` proposes to install.
    pub fn get_proposed_key(&self, id: u64) -> (r: Result<Vec<u8>, GuardianError>)
        requires
            self.wf(),
        ensures
            self@.has_session(id) ==> r is Ok && r->Ok_0@ == self@.session(id).proposed_key,
            !self@.has_session(id) ==> r == Err::<Vec<u8>, GuardianError>(GuardianError::SessionNotFound),
    {
        if id == 0 || id > self.sessions.len() as u64 {
            return Err(GuardianError::SessionNotFound);
        }
        Ok(copy_vec(&self.sessions[(id - 1) as usize].proposed_key))
    }

    /// The guardians of `account`, in the order in which they were registered.
    pub fn get_guardians(&self, account: Account) -> (r: Result<Vec<Account>, GuardianError>)
        requires
            self.wf(),
        ensures
            self@.guardian_sets.contains_key(account)
                ==> r is Ok && r->Ok_0@ == self@.guardian_sets[account].guardians,
            !self@.guardian_sets.contains_key(account)
                ==> r == Err::<Vec<Account>, GuardianError>(GuardianError::NotInitialized),
    {
        match self.find_account(account) {
            Some(i) => Ok(copy_vec(&self.accounts[i].guardians)),
            None => Err(GuardianError::NotInitialized),
        }
    }

    /// The approval threshold of `account`.
    pub fn get_threshold(&self, account: Account) -> (r: Result<u8, GuardianError>)
        requires
            self.wf(),
        ensures
            self@.guardian_sets.contains_key(account)
                ==> r is Ok && r->Ok_0 as nat == self@.guardian_sets[account].threshold,
            !self@.guardian_sets.contains_key(account)
                ==> r == Err::<u8, GuardianError>(GuardianError::NotInitialized),
    {
        match self.find_account(account) {
            Some(i) => Ok(self.accounts[i].threshold),
            None => Err(GuardianError::NotInitialized),
        }
    }

    /// Whether `account` has registered its guardians.
    pub fn has_guardians(&self, account: Account) -> (r: bool)
        requires
            self.wf(),
        ensures
            r == self@.guardian_sets.contains_key(account),
    {
        self.find_account(account).is_some()
    }

    /// The open session of `account`, if any.
    pub fn active_session(&self, account: Account) -> (r: Option<u64>)
        requires
            self.wf(),
        ensures
            r == (if self@.active.contains_key(account) { Some(self@.active[account]) } else { None }),
    {
        match self.find_account(account) {
            Some(i) => self.accounts[i].active,
            None => None,
        }
    }

    /// The identifier most recently issued, zero before the first session.
    pub fn session_count(&self) -> (r: u64)
        requires
            self.wf(),
        ensures
            r as nat == self@.sessions.len(),
    {
        self.sessions.len() as u64
    }
}

} // verus!
