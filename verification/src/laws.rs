use vstd::prelude::*;
use crate::lists::{lemma_with_item, lemma_without_id, with_item, without_id};
use crate::rules::reaches;
use crate::state::{Call, RegistryState, Reply};
use crate::types::{AccountId, RecoveryError};

verus! {

/// The registry without any account or request is valid.
pub proof fn empty_is_valid()
    ensures
        RegistryState::empty().valid(),
{
    let s = RegistryState::empty();
    assert forall|g: AccountId| #[trigger] s.duty_valid(g) by {
        let duty = s.duties[g];
        assert forall|a: AccountId| #[trigger]
            duty.protected.contains(a) <==> s.guardians_of(a).contains(g) by {}
        assert forall|id: u64| #[trigger]
            duty.recoveries.contains(id) <==> (s.is_guardian_for(id, g) && !s.request(
                id,
            ).finalized) by {}
    }
}

/// An accepted registration leaves the registry valid.
pub proof fn init_guardians_keeps_valid(
    s: RegistryState,
    caller: AccountId,
    account: AccountId,
    guardians: Seq<AccountId>,
    threshold: u8,
)
    requires
        s.valid(),
        s.init_guardians_outcome(caller, account, guardians, threshold) is Ok,
    ensures
        s.after_init_guardians(account, guardians, threshold).valid(),
{
    let t = s.after_init_guardians(account, guardians, threshold);
    assert(!s.initialized(account));
    assert forall|a: AccountId| #[trigger] t.initialized(a) implies RegistryState::config_valid(
        t.accounts[a],
    ) && t.marker_valid(a) by {
        if a != account {
            assert(s.initialized(a));
            assert(s.marker_valid(a));
        }
    }
    assert forall|id: u64| #[trigger] t.has_request(id) implies t.request_valid(id) by {
        assert(s.has_request(id));
        assert(s.request_valid(id));
    }
    assert forall|g: AccountId| #[trigger] t.duty_valid(g) by {
        assert(s.duty_valid(g));
        let d = s.duties[g];
        let e = t.duties[g];
        lemma_with_item(d.protected, account);
        assert forall|a: AccountId| #[trigger]
            e.protected.contains(a) <==> t.guardians_of(a).contains(g) by {
            assert(d.protected.contains(a) <==> s.guardians_of(a).contains(g));
            if guardians.contains(g) {
                assert(e.protected == with_item(d.protected, account));
            } else {
                assert(e.protected == d.protected);
            }
        }
        assert forall|id: u64| #[trigger]
            e.recoveries.contains(id) <==> (t.is_guardian_for(id, g) && !t.request(
                id,
            ).finalized) by {
            assert(e.recoveries == d.recoveries);
            assert(d.recoveries.contains(id) <==> (s.is_guardian_for(id, g) && !s.request(
                id,
            ).finalized));
            if s.has_request(id) {
                assert(s.request_valid(id));
            }
        }
    }
}

/// An accepted opening of a recovery leaves the registry valid, as long as
/// the new id fits in 64 bits.
pub proof fn start_recovery_keeps_valid(
    s: RegistryState,
    account: AccountId,
    credential: casper_types::PublicKey,
)
    requires
        s.valid(),
        s.counter() < u64::MAX,
        s.start_recovery_outcome(account) is Ok,
    ensures
        s.after_start_recovery(account, credential).valid(),
{
    let t = s.after_start_recovery(account, credential);
    let new_id = s.next_id();
    let guardians = s.guardians_of(account);
    assert(s.initialized(account) && !s.has_open(account));
    assert(t.has_request(new_id));
    assert(!s.has_request(new_id));
    assert forall|a: AccountId| #[trigger] t.initialized(a) implies RegistryState::config_valid(
        t.accounts[a],
    ) && t.marker_valid(a) by {
        assert(s.initialized(a));
        assert(s.marker_valid(a));
    }
    assert forall|id: u64| #[trigger] t.has_request(id) implies t.request_valid(id) by {
        if id != new_id {
            assert(s.has_request(id));
            assert(s.request_valid(id));
            assert(t.request(id) == s.request(id));
        } else {
            assert(t.request(id).approvers =~= Seq::<AccountId>::empty());
        }
    }
    assert forall|g: AccountId| #[trigger] t.duty_valid(g) by {
        assert(s.duty_valid(g));
        let d = s.duties[g];
        let e = t.duties[g];
        lemma_with_item(d.recoveries, new_id);
        assert forall|a: AccountId| #[trigger]
            e.protected.contains(a) <==> t.guardians_of(a).contains(g) by {
            assert(e.protected == d.protected);
            assert(d.protected.contains(a) <==> s.guardians_of(a).contains(g));
        }
        assert forall|id: u64| #[trigger]
            e.recoveries.contains(id) <==> (t.is_guardian_for(id, g) && !t.request(
                id,
            ).finalized) by {
            assert(d.recoveries.contains(id) <==> (s.is_guardian_for(id, g) && !s.request(
                id,
            ).finalized));
            if guardians.contains(g) {
                assert(e.recoveries == with_item(d.recoveries, new_id));
            } else {
                assert(e.recoveries == d.recoveries);
            }
            if id != new_id && s.has_request(id) {
                assert(t.request(id) == s.request(id));
                assert(s.request_valid(id));
            }
        }
    }
}

/// An accepted approval leaves the registry valid.
pub proof fn approve_keeps_valid(s: RegistryState, caller: AccountId, id: u64)
    requires
        s.valid(),
        s.approve_outcome(caller, id) is Ok,
    ensures
        s.after_approve(caller, id).valid(),
{
    let t = s.after_approve(caller, id);
    assert(s.has_request(id));
    assert(s.request_valid(id));
    let r = s.request(id);
    assert(s.initialized(r.target));
    assert forall|a: AccountId| #[trigger] t.initialized(a) implies RegistryState::config_valid(
        t.accounts[a],
    ) && t.marker_valid(a) by {
        assert(s.initialized(a));
        assert(s.marker_valid(a));
    }
    assert forall|other: u64| #[trigger] t.has_request(other) implies t.request_valid(other) by {
        assert(s.has_request(other));
        assert(s.request_valid(other));
        if other == id {
            let q = t.request(id);
            assert forall|g: AccountId| #[trigger] q.approvers.contains(g) implies t.accounts[q.target].guardians.contains(
                g,
            ) by {
                let i = choose|i: int| 0 <= i < q.approvers.len() && q.approvers[i] == g;
                if i < r.approvers.len() {
                    assert(r.approvers[i] == g);
                    assert(r.approvers.contains(g));
                }
            }
        } else {
            assert(t.request(other) == s.request(other));
        }
    }
    assert forall|g: AccountId| #[trigger] t.duty_valid(g) by {
        assert(s.duty_valid(g));
        let d = s.duties[g];
        assert forall|a: AccountId| #[trigger]
            d.protected.contains(a) <==> t.guardians_of(a).contains(g) by {
            assert(d.protected.contains(a) <==> s.guardians_of(a).contains(g));
        }
        assert forall|other: u64| #[trigger]
            d.recoveries.contains(other) <==> (t.is_guardian_for(other, g) && !t.request(
                other,
            ).finalized) by {
            assert(d.recoveries.contains(other) <==> (s.is_guardian_for(other, g) && !s.request(
                other,
            ).finalized));
        }
    }
}

/// An accepted finalization leaves the registry valid.
pub proof fn finalize_keeps_valid(s: RegistryState, id: u64)
    requires
        s.valid(),
        s.finalize_outcome(id) is Ok,
    ensures
        s.after_finalize(id).valid(),
{
    let t = s.after_finalize(id);
    assert(s.has_request(id));
    assert(s.request_valid(id));
    let r = s.request(id);
    let guardians = s.guardians_of(r.target);
    assert forall|a: AccountId| #[trigger] t.initialized(a) implies RegistryState::config_valid(
        t.accounts[a],
    ) && t.marker_valid(a) by {
        assert(s.initialized(a));
        assert(s.marker_valid(a));
    }
    assert forall|other: u64| #[trigger] t.has_request(other) implies t.request_valid(other) by {
        assert(s.has_request(other));
        assert(s.request_valid(other));
        if other != id {
            assert(t.request(other) == s.request(other));
        }
    }
    assert forall|g: AccountId| #[trigger] t.duty_valid(g) by {
        assert(s.duty_valid(g));
        let d = s.duties[g];
        let e = t.duties[g];
        lemma_without_id(d.recoveries, id);
        assert forall|a: AccountId| #[trigger]
            e.protected.contains(a) <==> t.guardians_of(a).contains(g) by {
            assert(e.protected == d.protected);
            assert(d.protected.contains(a) <==> s.guardians_of(a).contains(g));
        }
        assert forall|other: u64| #[trigger]
            e.recoveries.contains(other) <==> (t.is_guardian_for(other, g) && !t.request(
                other,
            ).finalized) by {
            assert(d.recoveries.contains(other) <==> (s.is_guardian_for(other, g) && !s.request(
                other,
            ).finalized));
            if guardians.contains(g) {
                assert(e.recoveries == without_id(d.recoveries, id));
            } else {
                assert(e.recoveries == d.recoveries);
            }
            if other != id && s.has_request(other) {
                assert(t.request(other) == s.request(other));
            }
        }
    }
}

/// A call leaves a valid registry valid, as long as the number of requests
/// still fits in 64 bits afterwards.
pub proof fn step_keeps_valid(s: RegistryState, call: Call)
    requires
        s.valid(),
        s.step(call).counter() <= u64::MAX,
    ensures
        s.step(call).valid(),
{
    if !(s.reply(call) is Refused) {
        match call {
            Call::InitGuardians { caller, account, guardians, threshold } => {
                init_guardians_keeps_valid(s, caller, account, guardians, threshold);
            },
            Call::StartRecovery { account, credential } => {
                start_recovery_keeps_valid(s, account, credential);
            },
            Call::Approve { caller, id } => {
                approve_keeps_valid(s, caller, id);
            },
            Call::Finalize { id } => {
                finalize_keeps_valid(s, id);
            },
        }
    }
}

/// No call lowers the counter of request ids; a call that opens a recovery
/// raises it by one, and no other call changes it.
pub proof fn counter_never_falls(s: RegistryState, call: Call)
    ensures
        s.step(call).counter() == if call is StartRecovery && !(s.reply(call) is Refused) {
            s.counter() + 1
        } else {
            s.counter()
        },
{
}

/// The counter after a longer prefix of a sequence of calls is at least the
/// counter after a shorter one.
pub proof fn counter_grows_along(s: RegistryState, calls: Seq<Call>, i: int, j: int)
    requires
        0 <= i <= j <= calls.len(),
    ensures
        s.run(calls.take(i)).counter() <= s.run(calls.take(j)).counter(),
    decreases j - i,
{
    if i < j {
        counter_grows_along(s, calls, i, j - 1);
        assert(calls.take(j).drop_last() =~= calls.take(j - 1));
        counter_never_falls(s.run(calls.take(j - 1)), calls[j - 1]);
    }
}

/// A sequence of calls leaves a valid registry valid, as long as the number
/// of requests still fits in 64 bits at the end.
pub proof fn run_keeps_valid(s: RegistryState, calls: Seq<Call>)
    requires
        s.valid(),
        s.run(calls).counter() <= u64::MAX,
    ensures
        s.run(calls).valid(),
    decreases calls.len(),
{
    if calls.len() > 0 {
        let before = s.run(calls.drop_last());
        counter_never_falls(before, calls.last());
        run_keeps_valid(s, calls.drop_last());
        step_keeps_valid(before, calls.last());
    }
}

/// Recovery ids are handed out in strictly increasing order, whatever the
/// accounts and whatever happens in between: of two calls in a sequence that
/// both open a recovery, the later one gets the larger id.
pub proof fn ids_strictly_increase(s: RegistryState, calls: Seq<Call>, i: int, j: int)
    requires
        0 <= i < j < calls.len(),
        s.run(calls.take(j)).counter() < u64::MAX,
        s.run(calls.take(i)).reply(calls[i]) is Started,
        s.run(calls.take(j)).reply(calls[j]) is Started,
    ensures
        s.run(calls.take(i)).reply(calls[i])->Started_0 < s.run(calls.take(j)).reply(
            calls[j],
        )->Started_0,
{
    let at_i = s.run(calls.take(i));
    assert(calls.take(i + 1).drop_last() =~= calls.take(i));
    assert(s.run(calls.take(i + 1)) == at_i.step(calls[i]));
    counter_never_falls(at_i, calls[i]);
    counter_grows_along(s, calls, i + 1, j);
}

/// The id of a newly opened recovery is one more than the number of
/// recoveries opened before, so the first is 1 and no id is used twice.
pub proof fn new_id_is_fresh(s: RegistryState, account: AccountId)
    requires
        s.counter() < u64::MAX,
        s.start_recovery_outcome(account) is Ok,
    ensures
        s.start_recovery_outcome(account)->Ok_0 == s.counter() + 1,
        !s.has_request(s.start_recovery_outcome(account)->Ok_0),
{
}

/// A list of fewer than two guardians is refused as `BadGuardians`, when it
/// is the owner who registers.
pub proof fn too_few_guardians_are_refused(
    s: RegistryState,
    account: AccountId,
    guardians: Seq<AccountId>,
    threshold: u8,
)
    requires
        guardians.len() < 2,
    ensures
        s.init_guardians_outcome(account, account, guardians, threshold) == Err::<
            (),
            RecoveryError,
        >(RecoveryError::BadGuardians),
{
}

/// A threshold of zero, or above the number of guardians, is refused as
/// `BadThreshold`, when the owner registers two guardians or more.
pub proof fn threshold_out_of_range_is_refused(
    s: RegistryState,
    account: AccountId,
    guardians: Seq<AccountId>,
    threshold: u8,
)
    requires
        guardians.len() >= 2,
        threshold < 1 || threshold > guardians.len(),
    ensures
        s.init_guardians_outcome(account, account, guardians, threshold) == Err::<
            (),
            RecoveryError,
        >(RecoveryError::BadThreshold),
{
}

/// Registering guardians for an account a second time is refused, whoever
/// calls and whatever the arguments, and leaves the first registration as it
/// was; the reason is `AlreadyInit` when nothing else is wrong with the call.
pub proof fn second_registration_is_refused(
    s: RegistryState,
    account: AccountId,
    guardians: Seq<AccountId>,
    threshold: u8,
    second_caller: AccountId,
    second_guardians: Seq<AccountId>,
    second_threshold: u8,
)
    requires
        s.init_guardians_outcome(account, account, guardians, threshold) is Ok,
    ensures
        ({
            let after = s.after_init_guardians(account, guardians, threshold);
            let again = Call::InitGuardians {
                caller: second_caller,
                account,
                guardians: second_guardians,
                threshold: second_threshold,
            };
            &&& after.reply(again) is Refused
            &&& after.step(again) == after
            &&& after.guardians_of(account) == guardians
            &&& (second_caller == account && second_guardians.len() >= 2 && 1 <= second_threshold
                <= second_guardians.len()) ==> after.reply(again) == Reply::Refused(
                RecoveryError::AlreadyInit,
            )
        }),
{
}

/// After an accepted registration the account has guardians, namely the
/// ones given, and each of them protects the account.
pub proof fn registration_reaches_every_guardian(
    s: RegistryState,
    caller: AccountId,
    account: AccountId,
    guardians: Seq<AccountId>,
    threshold: u8,
    g: AccountId,
)
    requires
        s.init_guardians_outcome(caller, account, guardians, threshold) is Ok,
        guardians.contains(g),
    ensures
        ({
            let after = s.after_init_guardians(account, guardians, threshold);
            &&& after.initialized(account)
            &&& after.guardians_of(account) == guardians
            &&& after.duties[g].protected.contains(account)
        }),
{
    lemma_with_item(s.duties[g].protected, account);
}

/// A recovery cannot be opened for an account without guardians
/// (`NotInit`), nor for one that has had a recovery opened before
/// (`RecoveryExists`).
pub proof fn opening_is_refused(s: RegistryState, account: AccountId)
    ensures
        !s.initialized(account) ==> s.start_recovery_outcome(account) == Err::<u64, RecoveryError>(
            RecoveryError::NotInit,
        ),
        s.has_open(account) ==> s.start_recovery_outcome(account) == Err::<u64, RecoveryError>(
            RecoveryError::RecoveryExists,
        ),
{
}

/// Once a recovery has been opened for an account, no call closes the
/// account's marker again: not an approval, not finalizing. So a second
/// recovery for the account is refused as `RecoveryExists` ever after.
pub proof fn marker_is_never_cleared(s: RegistryState, account: AccountId, calls: Seq<Call>)
    requires
        s.has_open(account),
    ensures
        s.run(calls).has_open(account),
        s.run(calls).start_recovery_outcome(account) == Err::<u64, RecoveryError>(
            RecoveryError::RecoveryExists,
        ),
    decreases calls.len(),
{
    if calls.len() > 0 {
        marker_is_never_cleared(s, account, calls.drop_last());
    }
}

/// An approval that is accepted adds the caller to the approvers and one to
/// the count. The request is approved afterwards exactly if it was before or
/// the new count reaches the threshold: so an approved request stays
/// approved, also when further guardians approve.
pub proof fn approval_counts_once(s: RegistryState, caller: AccountId, id: u64)
    requires
        s.approve_outcome(caller, id) is Ok,
    ensures
        ({
            let before = s.request(id);
            let after = s.after_approve(caller, id).request(id);
            &&& after.approvers == before.approvers.push(caller)
            &&& after.approval_count == before.approval_count + 1
            &&& after.approved == (before.approved || reaches(
                after.approval_count,
                s.accounts[before.target].threshold,
            ))
            &&& s.after_approve(caller, id).has_approved(id, caller)
        }),
{
    let before = s.request(id);
    assert(before.approvers.push(caller)[before.approvers.len() as int] == caller);
}

/// In a valid registry a request is approved exactly if as many distinct
/// guardians have approved it as the threshold of its account asks for.
pub proof fn approved_means_threshold_reached(s: RegistryState, id: u64)
    requires
        s.valid(),
        s.has_request(id),
    ensures
        ({
            let r = s.request(id);
            &&& r.approvers.no_duplicates()
            &&& r.approval_count == r.approvers.len()
            &&& s.initialized(r.target)
            &&& s.is_approved(id) == (r.approvers.len() >= s.accounts[r.target].threshold)
        }),
{
    assert(s.request_valid(id));
}

/// A guardian who approves the same request a second time is refused as
/// `AlreadyApproved`, and the request keeps the count it had.
pub proof fn second_approval_is_refused(s: RegistryState, caller: AccountId, id: u64)
    requires
        s.approve_outcome(caller, id) is Ok,
    ensures
        ({
            let once = s.step(Call::Approve { caller, id });
            let twice = once.step(Call::Approve { caller, id });
            &&& once.reply(Call::Approve { caller, id }) == Reply::Refused(
                RecoveryError::AlreadyApproved,
            )
            &&& twice == once
            &&& twice.request(id).approval_count == s.request(id).approval_count + 1
        }),
{
    approval_counts_once(s, caller, id);
}

/// An approval for an id that no request has is refused as `NotFound`; one
/// for an existing request by someone who is no guardian of its account, as
/// `NotGuardian`.
pub proof fn approval_is_refused(s: RegistryState, caller: AccountId, id: u64)
    ensures
        !s.has_request(id) ==> s.approve_outcome(caller, id) == Err::<(), RecoveryError>(
            RecoveryError::NotFound,
        ),
        s.has_request(id) && !s.guardians_of(s.request(id).target).contains(caller)
            ==> s.approve_outcome(caller, id) == Err::<(), RecoveryError>(
            RecoveryError::NotGuardian,
        ),
{
}

/// Finalizing is refused as `NotApproved` until the request is approved,
/// which in a valid registry means: until the threshold is reached. From
/// then on it is accepted.
pub proof fn finalize_waits_for_threshold(s: RegistryState, id: u64)
    requires
        s.valid(),
        s.has_request(id),
    ensures
        s.request(id).approvers.len() < s.accounts[s.request(id).target].threshold
            ==> s.finalize_outcome(id) == Err::<(), RecoveryError>(RecoveryError::NotApproved),
        s.request(id).approvers.len() >= s.accounts[s.request(id).target].threshold
            ==> s.finalize_outcome(id) == Ok::<(), RecoveryError>(()),
{
    approved_means_threshold_reached(s, id);
}

/// After an accepted finalization the request awaits no one: no identity
/// has its id among its recoveries.
pub proof fn finalized_request_awaits_no_one(s: RegistryState, id: u64, g: AccountId)
    requires
        s.valid(),
        s.finalize_outcome(id) is Ok,
    ensures
        !s.after_finalize(id).duties[g].recoveries.contains(id),
        s.after_finalize(id).request(id).finalized,
{
    finalize_keeps_valid(s, id);
    let t = s.after_finalize(id);
    assert(t.duty_valid(g));
    assert(t.duties[g].recoveries.contains(id) <==> (t.is_guardian_for(id, g) && !t.request(
        id,
    ).finalized));
}

/// In a valid registry a request that has not been finalized awaits every
/// guardian of its account, and each guardian protects the account.
pub proof fn open_request_awaits_every_guardian(s: RegistryState, id: u64, g: AccountId)
    requires
        s.valid(),
        s.has_request(id),
        s.guardians_of(s.request(id).target).contains(g),
    ensures
        s.duties[g].protected.contains(s.request(id).target),
        !s.request(id).finalized ==> s.duties[g].recoveries.contains(id),
{
    assert(s.duty_valid(g));
    let duty = s.duties[g];
    assert(duty.protected.contains(s.request(id).target) <==> s.guardians_of(
        s.request(id).target,
    ).contains(g));
    assert(duty.recoveries.contains(id) <==> (s.is_guardian_for(id, g) && !s.request(
        id,
    ).finalized));
}

} // verus!
