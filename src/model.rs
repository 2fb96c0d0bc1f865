//! The abstract state of the recovery service and the effect of each
//! operation on it.
use vstd::prelude::*;

use crate::error::RecoveryError;
use crate::request_id::request_id_of;

verus! {

/// The fewest guardians an account may name.
pub const MIN_GUARDIANS: usize = 2;

/// The default recovery period: seven days, in nanoseconds.
pub const RECOVERY_PERIOD_NANOS: u64 = 604_800_000_000_000;

/// Where a recovery request stands.
#[derive(Clone, Copy, Debug, PartialEq, Eq, Structural)]
pub enum RequestState {
    /// Collecting approvals.
    Active,
    /// Collecting approvals, with enough of them and the time lock run out.
    ReadyForExecution,
    /// Handed to the account manager, waiting for its answer.
    Executing,
    /// The key was replaced; the request is no longer tracked.
    Completed,
    /// The account manager failed; execution may be tried again.
    FailedRetryable,
}

/// What the account manager answered.
#[derive(Clone, Copy, Debug, PartialEq, Eq, Structural)]
pub enum UpdateResult {
    Success,
    Failure,
}

/// A recovery request as the service sees it.
pub struct RequestModel {
    pub account_to_recover: Seq<char>,
    pub new_public_key: Seq<char>,
    pub initiated_timestamp: u64,
    pub approvals: Seq<Seq<char>>,
    pub threshold: nat,
    pub state: RequestState,
}

/// The whole service: each account's guardians, the tracked requests, and
/// the recovery period.
pub struct RecoveryModel {
    pub guardians: Map<Seq<char>, Seq<Seq<char>>>,
    pub requests: Map<Seq<char>, RequestModel>,
    pub recovery_period: u64,
}

/// The list `s` without repeats, each element kept where it first occurs.
pub open spec fn dedup(s: Seq<Seq<char>>) -> Seq<Seq<char>>
    decreases s.len(),
{
    if s.len() == 0 {
        Seq::empty()
    } else {
        let rest = dedup(s.drop_last());
        if rest.contains(s.last()) {
            rest
        } else {
            rest.push(s.last())
        }
    }
}

/// The number of approvals a request needs when the account has `n` guardians:
/// a strict majority.
pub open spec fn threshold_of(n: nat) -> nat {
    n / 2 + 1
}

/// Guardian lists hold no repeats, nor do approval lists.
pub open spec fn inv(m: RecoveryModel) -> bool {
    &&& forall|a: Seq<char>| #[trigger]
        m.guardians.contains_key(a) ==> m.guardians[a].no_duplicates()
    &&& forall|id: Seq<char>| #[trigger]
        m.requests.contains_key(id) ==> m.requests[id].approvals.no_duplicates()
}

/// `caller` replaces its guardians with `guardians`.
pub open spec fn set_guardians_step(m: RecoveryModel, caller: Seq<char>, guardians: Seq<Seq<char>>) -> (
    RecoveryModel,
    Result<(), RecoveryError>,
) {
    if guardians.len() < MIN_GUARDIANS {
        (m, Err(RecoveryError::TooFewGuardians))
    } else if guardians.contains(caller) {
        (m, Err(RecoveryError::SelfAsGuardian))
    } else {
        (RecoveryModel { guardians: m.guardians.insert(caller, dedup(guardians)), ..m }, Ok(()))
    }
}

/// A request to give `account` the key `new_public_key` is opened at time
/// `now` under the identifier `id`.
pub open spec fn open_request_step(
    m: RecoveryModel,
    account: Seq<char>,
    new_public_key: Seq<char>,
    now: u64,
    id: Seq<char>,
) -> (RecoveryModel, Result<Seq<char>, RecoveryError>) {
    if !m.guardians.contains_key(account) {
        (m, Err(RecoveryError::NoGuardians))
    } else if m.requests.contains_key(id) {
        (m, Err(RecoveryError::IdCollision))
    } else {
        let request = RequestModel {
            account_to_recover: account,
            new_public_key,
            initiated_timestamp: now,
            approvals: Seq::empty(),
            threshold: threshold_of(m.guardians[account].len()),
            state: RequestState::Active,
        };
        (RecoveryModel { requests: m.requests.insert(id, request), ..m }, Ok(id))
    }
}

/// A request to give `account` the key `new_public_key` is opened at time
/// `now`, under the identifier derived from the three.
pub open spec fn initiate_step(m: RecoveryModel, account: Seq<char>, new_public_key: Seq<char>, now: u64) -> (
    RecoveryModel,
    Result<Seq<char>, RecoveryError>,
) {
    open_request_step(m, account, new_public_key, now, request_id_of(account, new_public_key, now))
}

/// Whether `caller` is now a guardian of `account`.
pub open spec fn is_guardian(m: RecoveryModel, account: Seq<char>, caller: Seq<char>) -> bool {
    m.guardians.contains_key(account) && m.guardians[account].contains(caller)
}

/// `caller` approves the request `id`.
pub open spec fn approve_step(m: RecoveryModel, caller: Seq<char>, id: Seq<char>) -> (
    RecoveryModel,
    Result<(), RecoveryError>,
) {
    if !m.requests.contains_key(id) {
        (m, Err(RecoveryError::RequestNotFound))
    } else {
        let r = m.requests[id];
        if r.state != RequestState::Active {
            (m, Err(RecoveryError::NotActive))
        } else if !is_guardian(m, r.account_to_recover, caller) {
            (m, Err(RecoveryError::NotAGuardian))
        } else if r.approvals.contains(caller) {
            (m, Err(RecoveryError::AlreadyApproved))
        } else {
            let approved = RequestModel { approvals: r.approvals.push(caller), ..r };
            (RecoveryModel { requests: m.requests.insert(id, approved), ..m }, Ok(()))
        }
    }
}

/// Whether the recovery period has passed at `now` since the request was made.
pub open spec fn period_elapsed(m: RecoveryModel, r: RequestModel, now: u64) -> bool {
    now - r.initiated_timestamp >= m.recovery_period
}

/// Whether the request may be handed to the account manager at `now`.
pub open spec fn may_execute(m: RecoveryModel, r: RequestModel, now: u64) -> bool {
    r.state != RequestState::Executing && r.approvals.len() >= r.threshold && period_elapsed(m, r, now)
}

/// The request `id` is handed to the account manager at time `now`.
pub open spec fn execute_step(m: RecoveryModel, id: Seq<char>, now: u64) -> (
    RecoveryModel,
    Result<(), RecoveryError>,
) {
    if !m.requests.contains_key(id) {
        (m, Err(RecoveryError::RequestNotFound))
    } else {
        let r = m.requests[id];
        if r.approvals.len() < r.threshold {
            (m, Err(RecoveryError::NotEnoughApprovals))
        } else if !period_elapsed(m, r, now) {
            (m, Err(RecoveryError::RecoveryPeriodPending))
        } else if r.state == RequestState::Executing {
            (m, Err(RecoveryError::AlreadyExecuting))
        } else {
            let executing = RequestModel { state: RequestState::Executing, ..r };
            (RecoveryModel { requests: m.requests.insert(id, executing), ..m }, Ok(()))
        }
    }
}

/// The account manager's answer `result` on the request `id` arrives, sent
/// by `invoker` to the service that runs as `own_account`.
pub open spec fn callback_step(
    m: RecoveryModel,
    invoker: Seq<char>,
    own_account: Seq<char>,
    id: Seq<char>,
    result: UpdateResult,
) -> (RecoveryModel, Result<RequestState, RecoveryError>) {
    if invoker != own_account {
        (m, Err(RecoveryError::NotSelf))
    } else if !m.requests.contains_key(id) {
        (m, Err(RecoveryError::RequestNotFound))
    } else {
        let r = m.requests[id];
        if r.state != RequestState::Executing {
            (m, Err(RecoveryError::NotExecuting))
        } else {
            match result {
                UpdateResult::Success => (
                    RecoveryModel { requests: m.requests.remove(id), ..m },
                    Ok(RequestState::Completed),
                ),
                UpdateResult::Failure => {
                    let failed = RequestModel { state: RequestState::FailedRetryable, ..r };
                    (
                        RecoveryModel { requests: m.requests.insert(id, failed), ..m },
                        Ok(RequestState::FailedRetryable),
                    )
                },
            }
        }
    }
}

/// Where the request `id` stands at time `now`, if it is tracked.
pub open spec fn state_at(m: RecoveryModel, id: Seq<char>, now: u64) -> Option<RequestState> {
    if !m.requests.contains_key(id) {
        None
    } else {
        let r = m.requests[id];
        if r.state == RequestState::Active && may_execute(m, r, now) {
            Some(RequestState::ReadyForExecution)
        } else {
            Some(r.state)
        }
    }
}

/// A list without repeats keeps none after removing repeats, and holds the
/// same elements as before.
pub proof fn lemma_dedup(s: Seq<Seq<char>>)
    ensures
        dedup(s).no_duplicates(),
        dedup(s).len() <= s.len(),
        forall|x: Seq<char>| #[trigger] dedup(s).contains(x) <==> s.contains(x),
    decreases s.len(),
{
    if s.len() > 0 {
        let init = s.drop_last();
        lemma_dedup(init);
        let rest = dedup(init);
        assert forall|x: Seq<char>| #[trigger] s.contains(x) <==> init.contains(x) || x == s.last() by {
            if s.contains(x) {
                let i = choose|i: int| 0 <= i < s.len() && s[i] == x;
                if i < s.len() - 1 {
                    assert(init[i] == x);
                }
            }
            if init.contains(x) {
                let i = choose|i: int| 0 <= i < init.len() && init[i] == x;
                assert(s[i] == x);
            }
            if x == s.last() {
                assert(s[s.len() - 1] == x);
            }
        }
        if !rest.contains(s.last()) {
            let d = rest.push(s.last());
            assert forall|x: Seq<char>| #[trigger] d.contains(x) <==> rest.contains(x) || x == s.last() by {
                if d.contains(x) {
                    let i = choose|i: int| 0 <= i < d.len() && d[i] == x;
                    if i < rest.len() {
                        assert(rest[i] == x);
                    }
                }
                if rest.contains(x) {
                    let i = choose|i: int| 0 <= i < rest.len() && rest[i] == x;
                    assert(d[i] == x);
                }
                if x == s.last() {
                    assert(d[d.len() - 1] == x);
                }
            }
        }
    }
}

} // verus!
