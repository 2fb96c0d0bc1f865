//! The recovery coordinator: guardian registration, approval, the time lock,
//! and the hand-off to the account manager with its callback.
use vstd::prelude::*;

use crate::error::RecoveryError;
use crate::model::{
    approve_step, callback_step, dedup, execute_step, initiate_step, inv, lemma_dedup,
    open_request_step, set_guardians_step, state_at, threshold_of, RecoveryModel, RequestModel,
    RequestState, UpdateResult, MIN_GUARDIANS, RECOVERY_PERIOD_NANOS,
};
use crate::request_id::{is_lower_hex, recovery_id};
use crate::store::KeyedStore;

verus! {

/// The character sequences of a list of strings.
pub open spec fn strs(v: Seq<String>) -> Seq<Seq<char>> {
    v.map_values(|s: String| s@)
}

/// A tracked recovery request.
pub struct RecoveryRequest {
    pub account_to_recover: String,
    pub new_public_key: String,
    pub initiated_timestamp: u64,
    pub approvals: Vec<String>,
    pub threshold: usize,
    pub state: RequestState,
}

impl View for RecoveryRequest {
    type V = RequestModel;

    open spec fn view(&self) -> RequestModel {
        RequestModel {
            account_to_recover: self.account_to_recover@,
            new_public_key: self.new_public_key@,
            initiated_timestamp: self.initiated_timestamp,
            approvals: strs(self.approvals@),
            threshold: self.threshold as nat,
            state: self.state,
        }
    }
}

/// A copy of a tracked request, as the read operations hand it out.
pub struct RecoveryRequestView {
    pub account_to_recover: String,
    pub new_public_key: String,
    pub initiated_timestamp: u64,
    pub approvals: Vec<String>,
    pub threshold: usize,
    pub state: RequestState,
}

impl View for RecoveryRequestView {
    type V = RequestModel;

    open spec fn view(&self) -> RequestModel {
        RequestModel {
            account_to_recover: self.account_to_recover@,
            new_public_key: self.new_public_key@,
            initiated_timestamp: self.initiated_timestamp,
            approvals: strs(self.approvals@),
            threshold: self.threshold as nat,
            state: self.state,
        }
    }
}

/// What the account manager is asked to do: give `account_to_recover` the key
/// `new_public_key`, then answer on the request `recovery_id`.
pub struct KeyUpdate {
    pub account_to_recover: String,
    pub new_public_key: String,
    pub recovery_id: String,
}

/// An identifier handed back, or the error, with the identifier as characters.
pub open spec fn id_result(r: Result<String, RecoveryError>) -> Result<Seq<char>, RecoveryError> {
    match r {
        Ok(id) => Ok(id@),
        Err(e) => Err(e),
    }
}

/// Whether an operation succeeded, or the error.
pub open spec fn unit_result<T>(r: Result<T, RecoveryError>) -> Result<(), RecoveryError> {
    match r {
        Ok(_) => Ok(()),
        Err(e) => Err(e),
    }
}

/// A copy of a list of strings.
fn clone_strings(v: &Vec<String>) -> (r: Vec<String>)
    ensures
        strs(r@) == strs(v@),
{
    let mut r: Vec<String> = Vec::new();
    let mut i: usize = 0;
    while i < v.len()
        invariant
            i <= v@.len(),
            strs(r@) == strs(v@.subrange(0, i as int)),
        decreases v@.len() - i,
    {
        let ghost before = r@;
        let c = v[i].clone();
        r.push(c);
        proof {
            assert(v@.subrange(0, i + 1) =~= v@.subrange(0, i as int).push(v@[i as int]));
            assert(strs(r@) =~= strs(before).push(v@[i as int]@));
            assert(strs(v@.subrange(0, i + 1)) =~= strs(v@.subrange(0, i as int)).push(
                v@[i as int]@,
            ));
        }
        i = i + 1;
    }
    assert(v@.subrange(0, v@.len() as int) =~= v@);
    r
}

/// Whether `s` is one of the strings of `v`.
fn contains_string(v: &Vec<String>, s: &String) -> (r: bool)
    ensures
        r == strs(v@).contains(s@),
{
    let mut i: usize = 0;
    while i < v.len()
        invariant
            i <= v@.len(),
            forall|j: int| 0 <= j < i ==> v@[j]@ != s@,
        decreases v@.len() - i,
    {
        if v[i] == *s {
            assert(strs(v@)[i as int] == s@);
            return true;
        }
        i = i + 1;
    }
    assert forall|j: int| 0 <= j < strs(v@).len() implies strs(v@)[j] != s@ by {
        assert(strs(v@)[j] == v@[j]@);
    }
    false
}

/// The number of approvals needed where the account has `n` guardians: more
/// than half of them.
pub fn threshold_for(n: usize) -> (r: usize)
    ensures
        r == threshold_of(n as nat),
{
    n / 2 + 1
}

/// The recovery service: each account's guardians and the tracked requests.
pub struct AccountRecovery {
    user_guardians: KeyedStore<Vec<String>>,
    active_recovery_requests: KeyedStore<RecoveryRequest>,
    recovery_period: u64,
}

impl View for AccountRecovery {
    type V = RecoveryModel;

    closed spec fn view(&self) -> RecoveryModel {
        RecoveryModel {
            guardians: self.user_guardians@.map_values(|v: Vec<String>| strs(v@)),
            requests: self.active_recovery_requests@.map_values(|r: RecoveryRequest| r@),
            recovery_period: self.recovery_period,
        }
    }
}

impl AccountRecovery {
    /// The stores keep their keys unique and the state keeps its invariant.
    pub closed spec fn wf(&self) -> bool {
        &&& self.user_guardians.wf()
        &&& self.active_recovery_requests.wf()
        &&& inv(self@)
    }

    /// A service with no guardians and no requests, and the default recovery
    /// period of seven days.
    pub fn new() -> (r: Self)
        ensures
            r.wf(),
            r@.guardians == Map::<Seq<char>, Seq<Seq<char>>>::empty(),
            r@.requests == Map::<Seq<char>, RequestModel>::empty(),
            r@.recovery_period == RECOVERY_PERIOD_NANOS,
    {
        Self::with_recovery_period(RECOVERY_PERIOD_NANOS)
    }

    /// A service with no guardians and no requests, whose requests may be
    /// executed `recovery_period` nanoseconds after they were made.
    pub fn with_recovery_period(recovery_period: u64) -> (r: Self)
        ensures
            r.wf(),
            r@.guardians == Map::<Seq<char>, Seq<Seq<char>>>::empty(),
            r@.requests == Map::<Seq<char>, RequestModel>::empty(),
            r@.recovery_period == recovery_period,
    {
        let r = AccountRecovery {
            user_guardians: KeyedStore::new(),
            active_recovery_requests: KeyedStore::new(),
            recovery_period,
        };
        assert(r@.guardians =~= Map::<Seq<char>, Seq<Seq<char>>>::empty());
        assert(r@.requests =~= Map::<Seq<char>, RequestModel>::empty());
        r
    }

    /// The recovery period, in nanoseconds.
    pub fn recovery_period(&self) -> (r: u64)
        ensures
            r == self@.recovery_period,
    {
        self.recovery_period
    }

    /// `caller` replaces its guardians with `guardians`, repeats dropped. At
    /// least two must be given, and `caller` may not be among them.
    pub fn set_guardians(&mut self, caller: String, guardians: Vec<String>) -> (r: Result<(), RecoveryError>)
        requires
            old(self).wf(),
        ensures
            final(self).wf(),
            (final(self)@, r) == set_guardians_step(old(self)@, caller@, strs(guardians@)),
    {
        if guardians.len() < MIN_GUARDIANS {
            return Err(RecoveryError::TooFewGuardians);
        }
        if contains_string(&guardians, &caller) {
            return Err(RecoveryError::SelfAsGuardian);
        }
        let ghost gs = strs(guardians@);
        let mut guardian_set: Vec<String> = Vec::new();
        let mut i: usize = 0;
        while i < guardians.len()
            invariant
                i <= guardians@.len(),
                gs == strs(guardians@),
                strs(guardian_set@) == dedup(gs.subrange(0, i as int)),
            decreases guardians@.len() - i,
        {
            let ghost prefix = gs.subrange(0, i as int);
            assert(gs.subrange(0, i + 1).drop_last() =~= prefix);
            assert(gs.subrange(0, i + 1).last() == guardians@[i as int]@);
            if !contains_string(&guardian_set, &guardians[i]) {
                guardian_set.push(guardians[i].clone());
                assert(strs(guardian_set@) =~= dedup(prefix).push(guardians@[i as int]@));
            }
            i = i + 1;
        }
        assert(gs.subrange(0, gs.len() as int) =~= gs);
        proof {
            lemma_dedup(gs);
        }
        let ghost old_model = self@;
        self.user_guardians.insert(caller, guardian_set);
        proof {
            let expected = set_guardians_step(old_model, caller@, gs).0;
            assert(self@.guardians =~= expected.guardians);
            assert(self@.requests =~= expected.requests);
        }
        Ok(())
    }

    /// The guardians of `account`, if it has named any.
    pub fn get_guardians(&self, account: String) -> (r: Option<Vec<String>>)
        requires
            self.wf(),
        ensures
            match r {
                Some(v) => self@.guardians.contains_key(account@) && strs(v@)
                    == self@.guardians[account@] && strs(v@).no_duplicates(),
                None => !self@.guardians.contains_key(account@),
            },
    {
        match self.user_guardians.get(&account) {
            Some(v) => {
                assert(self@.guardians.contains_key(account@));
                Some(clone_strings(v))
            },
            None => None,
        }
    }

    /// Whether `account` has named guardians.
    pub fn has_guardians(&self, account: &String) -> (r: bool)
        requires
            self.wf(),
        ensures
            r == self@.guardians.contains_key(account@),
    {
        self.user_guardians.contains_key(account)
    }
    /// Opens a request, under the identifier `recovery_id`, to give
    /// `account_to_recover` the key `new_public_key` at time `now`. The
    /// account must have guardians, and no request may be tracked under the
    /// identifier yet. The threshold is a majority of the account's guardians
    /// at this moment.
    pub fn initiate_recovery_with_id(
        &mut self,
        account_to_recover: String,
        new_public_key: String,
        now: u64,
        recovery_id: String,
    ) -> (r: Result<String, RecoveryError>)
        requires
            old(self).wf(),
        ensures
            final(self).wf(),
            (final(self)@, id_result(r)) == open_request_step(
                old(self)@,
                account_to_recover@,
                new_public_key@,
                now,
                recovery_id@,
            ),
    {
        let n = match self.user_guardians.get(&account_to_recover) {
            Some(gs) => gs.len(),
            None => {
                return Err(RecoveryError::NoGuardians);
            },
        };
        if self.active_recovery_requests.contains_key(&recovery_id) {
            return Err(RecoveryError::IdCollision);
        }
        let request = RecoveryRequest {
            account_to_recover,
            new_public_key,
            initiated_timestamp: now,
            approvals: Vec::new(),
            threshold: threshold_for(n),
            state: RequestState::Active,
        };
        assert(strs(request.approvals@) =~= Seq::<Seq<char>>::empty());
        let ghost old_model = self@;
        self.active_recovery_requests.insert(recovery_id.clone(), request);
        proof {
            let expected = open_request_step(
                old_model,
                request.account_to_recover@,
                request.new_public_key@,
                now,
                recovery_id@,
            ).0;
            assert(self@.guardians =~= expected.guardians);
            assert(self@.requests =~= expected.requests);
        }
        Ok(recovery_id)
    }

    /// Opens a request to give `account_to_recover` the key `new_public_key`
    /// at time `now`, under the hex digest of the three, and returns that
    /// identifier.
    pub fn initiate_recovery(
        &mut self,
        account_to_recover: String,
        new_public_key: String,
        now: u64,
    ) -> (r: Result<String, RecoveryError>)
        requires
            old(self).wf(),
        ensures
            final(self).wf(),
            (final(self)@, id_result(r)) == initiate_step(
                old(self)@,
                account_to_recover@,
                new_public_key@,
                now,
            ),
            r matches Ok(id) ==> id@.len() == 64 && forall|i: int|
                0 <= i < id@.len() ==> is_lower_hex(#[trigger] id@[i]),
    {
        let id = recovery_id(&account_to_recover, &new_public_key, now);
        self.initiate_recovery_with_id(account_to_recover, new_public_key, now, id)
    }

    /// `caller` approves the request `recovery_id`. The request must be
    /// collecting approvals, `caller` must now be a guardian of the account,
    /// and may approve once.
    pub fn approve_recovery(&mut self, caller: String, recovery_id: String) -> (r: Result<(), RecoveryError>)
        requires
            old(self).wf(),
        ensures
            final(self).wf(),
            (final(self)@, r) == approve_step(old(self)@, caller@, recovery_id@),
    {
        let ghost old_model = self@;
        match self.active_recovery_requests.get(&recovery_id) {
            None => {
                return Err(RecoveryError::RequestNotFound);
            },
            Some(request) => {
                if request.state != RequestState::Active {
                    return Err(RecoveryError::NotActive);
                }
                let is_guardian = match self.user_guardians.get(&request.account_to_recover) {
                    Some(gs) => contains_string(gs, &caller),
                    None => false,
                };
                if !is_guardian {
                    return Err(RecoveryError::NotAGuardian);
                }
                if contains_string(&request.approvals, &caller) {
                    return Err(RecoveryError::AlreadyApproved);
                }
            },
        }
        match self.active_recovery_requests.remove(&recovery_id) {
            Some(request) => {
                let mut request = request;
                let ghost before = request@;
                request.approvals.push(caller);
                assert(request@.approvals =~= before.approvals.push(caller@));
                self.active_recovery_requests.insert(recovery_id, request);
                proof {
                    let expected = approve_step(old_model, caller@, recovery_id@).0;
                    assert(self@.guardians =~= expected.guardians);
                    assert(self@.requests =~= expected.requests);
                    assert forall|id: Seq<char>| #[trigger]
                        self@.requests.contains_key(id) implies self@.requests[id].approvals.no_duplicates()
                    by {
                        if id != recovery_id@ {
                            assert(old_model.requests.contains_key(id));
                        }
                    }
                }
                Ok(())
            },
            None => Err(RecoveryError::RequestNotFound),
        }
    }

    /// Hands the request `recovery_id` to the account manager at time `now`:
    /// it must have at least its threshold of approvals, the recovery period
    /// must have passed since it was made, and it may not be waiting already
    /// (checked in that order).
    /// The request stays tracked, as `Executing`, until the answer comes.
    pub fn execute_recovery(&mut self, recovery_id: String, now: u64) -> (r: Result<KeyUpdate, RecoveryError>)
        requires
            old(self).wf(),
        ensures
            final(self).wf(),
            (final(self)@, unit_result(r)) == execute_step(old(self)@, recovery_id@, now),
            r matches Ok(u) ==> {
                &&& u.account_to_recover@ == old(self)@.requests[recovery_id@].account_to_recover
                &&& u.new_public_key@ == old(self)@.requests[recovery_id@].new_public_key
                &&& u.recovery_id@ == recovery_id@
            },
    {
        let ghost old_model = self@;
        match self.active_recovery_requests.get(&recovery_id) {
            None => {
                return Err(RecoveryError::RequestNotFound);
            },
            Some(request) => {
                if request.approvals.len() < request.threshold {
                    return Err(RecoveryError::NotEnoughApprovals);
                }
                if now < request.initiated_timestamp || now - request.initiated_timestamp
                    < self.recovery_period {
                    return Err(RecoveryError::RecoveryPeriodPending);
                }
                if request.state == RequestState::Executing {
                    return Err(RecoveryError::AlreadyExecuting);
                }
            },
        }
        match self.active_recovery_requests.remove(&recovery_id) {
            Some(request) => {
                let mut request = request;
                request.state = RequestState::Executing;
                let update = KeyUpdate {
                    account_to_recover: request.account_to_recover.clone(),
                    new_public_key: request.new_public_key.clone(),
                    recovery_id: recovery_id.clone(),
                };
                self.active_recovery_requests.insert(recovery_id, request);
                proof {
                    let expected = execute_step(old_model, update.recovery_id@, now).0;
                    assert(self@.guardians =~= expected.guardians);
                    assert(self@.requests =~= expected.requests);
                    assert forall|id: Seq<char>| #[trigger]
                        self@.requests.contains_key(id) implies self@.requests[id].approvals.no_duplicates()
                    by {
                        assert(old_model.requests.contains_key(id));
                    }
                }
                Ok(update)
            },
            None => Err(RecoveryError::RequestNotFound),
        }
    }

    /// The account manager's answer `result` on the request `recovery_id`,
    /// delivered by `invoker` to the service running as `own_account`. Only
    /// the service itself may deliver it, and only for a request that waits
    /// for it. On success the request is completed and no longer tracked; on
    /// failure it stays tracked as `FailedRetryable`, and may be executed
    /// again without new approvals.
    pub fn recovery_callback(
        &mut self,
        invoker: String,
        own_account: String,
        recovery_id: String,
        result: UpdateResult,
    ) -> (r: Result<RequestState, RecoveryError>)
        requires
            old(self).wf(),
        ensures
            final(self).wf(),
            (final(self)@, r) == callback_step(
                old(self)@,
                invoker@,
                own_account@,
                recovery_id@,
                result,
            ),
    {
        let ghost old_model = self@;
        if invoker != own_account {
            return Err(RecoveryError::NotSelf);
        }
        match self.active_recovery_requests.get(&recovery_id) {
            None => {
                return Err(RecoveryError::RequestNotFound);
            },
            Some(request) => {
                if request.state != RequestState::Executing {
                    return Err(RecoveryError::NotExecuting);
                }
            },
        }
        match self.active_recovery_requests.remove(&recovery_id) {
            Some(request) => {
                match result {
                    UpdateResult::Success => {
                        proof {
                            let expected = callback_step(
                                old_model,
                                invoker@,
                                own_account@,
                                recovery_id@,
                                result,
                            ).0;
                            assert(self@.guardians =~= expected.guardians);
                            assert(self@.requests =~= expected.requests);
                            assert forall|id: Seq<char>| #[trigger]
                                self@.requests.contains_key(id)
                                implies self@.requests[id].approvals.no_duplicates()
                            by {
                                assert(old_model.requests.contains_key(id));
                            }
                        }
                        Ok(RequestState::Completed)
                    },
                    UpdateResult::Failure => {
                        let mut request = request;
                        request.state = RequestState::FailedRetryable;
                        self.active_recovery_requests.insert(recovery_id, request);
                        proof {
                            let expected = callback_step(
                                old_model,
                                invoker@,
                                own_account@,
                                recovery_id@,
                                result,
                            ).0;
                            assert(self@.guardians =~= expected.guardians);
                            assert(self@.requests =~= expected.requests);
                            assert forall|id: Seq<char>| #[trigger]
                                self@.requests.contains_key(id)
                                implies self@.requests[id].approvals.no_duplicates()
                            by {
                                assert(old_model.requests.contains_key(id));
                            }
                        }
                        Ok(RequestState::FailedRetryable)
                    },
                }
            },
            None => Err(RecoveryError::RequestNotFound),
        }
    }

    /// A copy of the request `recovery_id`, if it is tracked.
    pub fn get_recovery_request(&self, recovery_id: String) -> (r: Option<RecoveryRequestView>)
        requires
            self.wf(),
        ensures
            match r {
                Some(v) => self@.requests.contains_key(recovery_id@) && v@
                    == self@.requests[recovery_id@] && strs(v.approvals@).no_duplicates(),
                None => !self@.requests.contains_key(recovery_id@),
            },
    {
        match self.active_recovery_requests.get(&recovery_id) {
            Some(request) => {
                assert(self@.requests.contains_key(recovery_id@));
                Some(
                    RecoveryRequestView {
                        account_to_recover: request.account_to_recover.clone(),
                        new_public_key: request.new_public_key.clone(),
                        initiated_timestamp: request.initiated_timestamp,
                        approvals: clone_strings(&request.approvals),
                        threshold: request.threshold,
                        state: request.state,
                    },
                )
            },
            None => None,
        }
    }

    /// The number of approvals of the request `recovery_id`; 0 if it is not
    /// tracked.
    pub fn get_recovery_approvals_count(&self, recovery_id: String) -> (r: usize)
        requires
            self.wf(),
        ensures
            r == if self@.requests.contains_key(recovery_id@) {
                self@.requests[recovery_id@].approvals.len()
            } else {
                0
            },
    {
        match self.active_recovery_requests.get(&recovery_id) {
            Some(request) => request.approvals.len(),
            None => 0,
        }
    }

    /// Where the request `recovery_id` stands at time `now`, if it is tracked:
    /// a request that collects approvals is `ReadyForExecution` once it may be
    /// executed.
    pub fn request_state(&self, recovery_id: String, now: u64) -> (r: Option<RequestState>)
        requires
            self.wf(),
        ensures
            r == state_at(self@, recovery_id@, now),
    {
        match self.active_recovery_requests.get(&recovery_id) {
            Some(request) => {
                if request.state == RequestState::Active && request.approvals.len()
                    >= request.threshold && now >= request.initiated_timestamp && now
                    - request.initiated_timestamp >= self.recovery_period {
                    Some(RequestState::ReadyForExecution)
                } else {
                    Some(request.state)
                }
            },
            None => None,
        }
    }
}

} // verus!
