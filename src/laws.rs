//! Properties of the recovery protocol, stated over the effect of each
//! operation on the service's state.
use vstd::prelude::*;

use crate::error::{kind_of, ErrorKind, RecoveryError};
use crate::model::{
    approve_step, callback_step, dedup, execute_step, initiate_step, is_guardian, lemma_dedup,
    open_request_step, period_elapsed, set_guardians_step, threshold_of, RecoveryModel,
    RequestState, UpdateResult, MIN_GUARDIANS,
};
use crate::request_id::{lemma_preimage_injective, preimage_of, request_id_of};
use vstd::utf8::{encode_utf8, encode_utf8_decode_utf8};

verus! {

/// Naming at least two guardians, none of them the caller, succeeds, and the
/// caller's guardians are then exactly the ones named, each once.
pub proof fn law_set_guardians_accepts(m: RecoveryModel, caller: Seq<char>, guardians: Seq<Seq<char>>)
    requires
        guardians.len() >= MIN_GUARDIANS,
        !guardians.contains(caller),
    ensures
        ({
            let (m2, r) = set_guardians_step(m, caller, guardians);
            &&& r == Ok::<(), RecoveryError>(())
            &&& m2.guardians.contains_key(caller)
            &&& m2.guardians[caller].to_set() == guardians.to_set()
            &&& m2.guardians[caller].no_duplicates()
            &&& m2.requests == m.requests
            &&& forall|a: Seq<char>| a != caller ==> #[trigger] m2.guardians.contains_key(a)
                == m.guardians.contains_key(a) && m2.guardians[a] == m.guardians[a]
        }),
{
    lemma_dedup(guardians);
    assert(dedup(guardians).to_set() =~= guardians.to_set());
}

/// Naming fewer than two guardians, or naming oneself, fails as a validation
/// error and leaves every guardian list as it was.
pub proof fn law_set_guardians_rejects(m: RecoveryModel, caller: Seq<char>, guardians: Seq<Seq<char>>)
    requires
        guardians.len() < MIN_GUARDIANS || guardians.contains(caller),
    ensures
        ({
            let (m2, r) = set_guardians_step(m, caller, guardians);
            &&& r is Err
            &&& kind_of(r->Err_0) == ErrorKind::Validation
            &&& m2 == m
        }),
{
}

/// No request can be opened for an account without guardians, whatever its
/// identifier: it fails as not found and changes nothing.
pub proof fn law_initiate_needs_guardians(
    m: RecoveryModel,
    account: Seq<char>,
    new_public_key: Seq<char>,
    now: u64,
    id: Seq<char>,
)
    requires
        !m.guardians.contains_key(account),
    ensures
        open_request_step(m, account, new_public_key, now, id) == (
            m,
            Err::<Seq<char>, RecoveryError>(RecoveryError::NoGuardians),
        ),
        initiate_step(m, account, new_public_key, now) == (
            m,
            Err::<Seq<char>, RecoveryError>(RecoveryError::NoGuardians),
        ),
        kind_of(RecoveryError::NoGuardians) == ErrorKind::NotFound,
{
}

/// A request that is opened collects approvals, has none yet, and needs a
/// majority of the guardians the account has at that moment: `n / 2 + 1` of
/// `n`.
pub proof fn law_initiate_threshold(m: RecoveryModel, account: Seq<char>, new_public_key: Seq<char>, now: u64)
    requires
        m.guardians.contains_key(account),
        !m.requests.contains_key(request_id_of(account, new_public_key, now)),
    ensures
        ({
            let id = request_id_of(account, new_public_key, now);
            let (m2, r) = initiate_step(m, account, new_public_key, now);
            &&& r == Ok::<Seq<char>, RecoveryError>(id)
            &&& m2.requests.contains_key(id)
            &&& m2.requests[id].threshold == m.guardians[account].len() / 2 + 1
            &&& m2.requests[id].threshold == threshold_of(m.guardians[account].len())
            &&& m2.requests[id].approvals.len() == 0
            &&& m2.requests[id].state == RequestState::Active
            &&& m2.requests[id].account_to_recover == account
            &&& m2.requests[id].new_public_key == new_public_key
            &&& m2.requests[id].initiated_timestamp == now
        }),
{
}

/// Opening the same request twice (same account, same key, same time) names
/// the same identifier both times, and the second attempt fails as a conflict
/// without touching the first request.
pub proof fn law_initiate_twice_conflicts(
    m: RecoveryModel,
    account: Seq<char>,
    new_public_key: Seq<char>,
    now: u64,
)
    requires
        initiate_step(m, account, new_public_key, now).1 is Ok,
    ensures
        ({
            let (m1, r1) = initiate_step(m, account, new_public_key, now);
            let (m2, r2) = initiate_step(m1, account, new_public_key, now);
            &&& r1 == Ok::<Seq<char>, RecoveryError>(request_id_of(account, new_public_key, now))
            &&& r2 == Err::<Seq<char>, RecoveryError>(RecoveryError::IdCollision)
            &&& kind_of(RecoveryError::IdCollision) == ErrorKind::Conflict
            &&& m2 == m1
        }),
{
}

/// Only a current guardian of the account may approve its request: anyone
/// else fails and changes nothing.
pub proof fn law_approve_needs_guardian(m: RecoveryModel, caller: Seq<char>, id: Seq<char>)
    requires
        m.requests.contains_key(id),
        !is_guardian(m, m.requests[id].account_to_recover, caller),
    ensures
        ({
            let (m2, r) = approve_step(m, caller, id);
            &&& r is Err
            &&& m2 == m
        }),
{
}

/// A guardian approves a request at most once: right after an approval, the
/// same approval fails as a conflict and changes nothing.
pub proof fn law_approve_twice_conflicts(m: RecoveryModel, caller: Seq<char>, id: Seq<char>)
    requires
        approve_step(m, caller, id).1 is Ok,
    ensures
        ({
            let (m1, r1) = approve_step(m, caller, id);
            let (m2, r2) = approve_step(m1, caller, id);
            &&& m1.requests[id].approvals.len() == m.requests[id].approvals.len() + 1
            &&& r2 == Err::<(), RecoveryError>(RecoveryError::AlreadyApproved)
            &&& kind_of(RecoveryError::AlreadyApproved) == ErrorKind::Conflict
            &&& m2 == m1
        }),
{
    let (m1, r1) = approve_step(m, caller, id);
    let approvals = m1.requests[id].approvals;
    assert(approvals[approvals.len() - 1] == caller);
}

/// A request with fewer approvals than its threshold cannot be executed, even
/// when its recovery period has passed: it fails as a policy violation and
/// changes nothing.
pub proof fn law_execute_needs_approvals(m: RecoveryModel, id: Seq<char>, now: u64)
    requires
        m.requests.contains_key(id),
        m.requests[id].approvals.len() < m.requests[id].threshold,
    ensures
        execute_step(m, id, now) == (m, Err::<(), RecoveryError>(RecoveryError::NotEnoughApprovals)),
        kind_of(RecoveryError::NotEnoughApprovals) == ErrorKind::PolicyViolation,
{
}

/// A request cannot be executed before its recovery period has passed, even
/// with enough approvals: it fails as a policy violation and changes nothing.
pub proof fn law_execute_needs_time_lock(m: RecoveryModel, id: Seq<char>, now: u64)
    requires
        m.requests.contains_key(id),
        m.requests[id].approvals.len() >= m.requests[id].threshold,
        !period_elapsed(m, m.requests[id], now),
    ensures
        execute_step(m, id, now) == (
            m,
            Err::<(), RecoveryError>(RecoveryError::RecoveryPeriodPending),
        ),
        kind_of(RecoveryError::RecoveryPeriodPending) == ErrorKind::PolicyViolation,
{
}

/// A request that was handed to the account manager and failed can be handed
/// over again, at the same time or later, without new approvals; the retry
/// asks for the same account and key.
pub proof fn law_retry_after_failure(
    m: RecoveryModel,
    id: Seq<char>,
    now: u64,
    own_account: Seq<char>,
    later: u64,
)
    requires
        execute_step(m, id, now).1 is Ok,
        now <= later,
    ensures
        ({
            let (m1, r1) = execute_step(m, id, now);
            let (m2, r2) = callback_step(m1, own_account, own_account, id, UpdateResult::Failure);
            let (m3, r3) = execute_step(m2, id, later);
            &&& m1.requests[id].state == RequestState::Executing
            &&& r2 == Ok::<RequestState, RecoveryError>(RequestState::FailedRetryable)
            &&& m2.requests.contains_key(id)
            &&& m2.requests[id].state == RequestState::FailedRetryable
            &&& r3 == Ok::<(), RecoveryError>(())
            &&& m3.requests[id].state == RequestState::Executing
            &&& m3.requests[id].approvals == m.requests[id].approvals
            &&& m3.requests[id].account_to_recover == m.requests[id].account_to_recover
            &&& m3.requests[id].new_public_key == m.requests[id].new_public_key
        }),
{
}

/// A request that the account manager carried out is completed and no longer
/// tracked; the other requests stay as they were.
pub proof fn law_success_completes(m: RecoveryModel, id: Seq<char>, now: u64, own_account: Seq<char>)
    requires
        execute_step(m, id, now).1 is Ok,
    ensures
        ({
            let (m1, r1) = execute_step(m, id, now);
            let (m2, r2) = callback_step(m1, own_account, own_account, id, UpdateResult::Success);
            &&& r2 == Ok::<RequestState, RecoveryError>(RequestState::Completed)
            &&& !m2.requests.contains_key(id)
            &&& forall|other: Seq<char>| other != id ==> #[trigger] m2.requests.contains_key(other)
                == m.requests.contains_key(other)
        }),
{
}

/// Only the service itself may deliver the account manager's answer: from
/// anyone else it fails and changes nothing.
pub proof fn law_callback_only_from_self(
    m: RecoveryModel,
    invoker: Seq<char>,
    own_account: Seq<char>,
    id: Seq<char>,
    result: UpdateResult,
)
    requires
        invoker != own_account,
    ensures
        callback_step(m, invoker, own_account, id, result) == (
            m,
            Err::<RequestState, RecoveryError>(RecoveryError::NotSelf),
        ),
{
}

/// Distinct requests (account, key, creation time) hash distinct byte
/// strings, so their identifiers differ unless SHA-256 itself collides.
pub proof fn law_distinct_requests_distinct_digest_inputs(
    a1: Seq<char>,
    k1: Seq<char>,
    t1: u64,
    a2: Seq<char>,
    k2: Seq<char>,
    t2: u64,
)
    requires
        a1 != a2 || k1 != k2 || t1 != t2,
    ensures
        encode_utf8(preimage_of(a1, k1, t1)) != encode_utf8(preimage_of(a2, k2, t2)),
{
    encode_utf8_decode_utf8(preimage_of(a1, k1, t1));
    encode_utf8_decode_utf8(preimage_of(a2, k2, t2));
    if preimage_of(a1, k1, t1) == preimage_of(a2, k2, t2) {
        lemma_preimage_injective(a1, k1, t1, a2, k2, t2);
    }
}

} // verus!
