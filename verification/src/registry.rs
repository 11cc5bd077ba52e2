use vstd::prelude::*;
use crate::laws::{
    approve_keeps_valid,
    empty_is_valid,
    finalize_keeps_valid,
    init_guardians_keeps_valid,
    start_recovery_keeps_valid,
};
use crate::lists::{
    contains_account,
    insert_account,
    insert_id,
    lemma_take_next,
    lemma_with_item_twice,
    lemma_without_id_twice,
    remove_id,
};
use crate::rules::{
    check_approval,
    check_finalizing,
    check_opening,
    check_registration,
    next_id,
    record_approval,
};
use crate::state::{AccountState, Call, DutyState, IndexEdit, RegistryState, RequestState};
use crate::table::Table;
use crate::types::{AccountId, RecoveryError};

verus! {

/// The record of a registered account.
struct Account {
    guardians: Vec<AccountId>,
    threshold: u8,
    open: Option<u64>,
}

impl View for Account {
    type V = AccountState;

    closed spec fn view(&self) -> AccountState {
        AccountState { guardians: self.guardians@, threshold: self.threshold, open: self.open }
    }
}

/// The record of a recovery request.
struct Request {
    target: AccountId,
    credential: casper_types::PublicKey,
    approvers: Vec<AccountId>,
    approval_count: u64,
    approved: bool,
    finalized: bool,
}

impl View for Request {
    type V = RequestState;

    closed spec fn view(&self) -> RequestState {
        RequestState {
            target: self.target,
            credential: self.credential,
            approvers: self.approvers@,
            approval_count: self.approval_count as nat,
            approved: self.approved,
            finalized: self.finalized,
        }
    }
}

/// The record of what a guardian is in charge of.
struct Duty {
    protected: Vec<AccountId>,
    recoveries: Vec<u64>,
}

impl View for Duty {
    type V = DutyState;

    closed spec fn view(&self) -> DutyState {
        DutyState { protected: self.protected@, recoveries: self.recoveries@ }
    }
}

impl Duty {
    fn new() -> (duty: Duty)
        ensures
            duty@ == DutyState::none(),
    {
        Duty { protected: Vec::new(), recoveries: Vec::new() }
    }

    fn edit(&mut self, edit: IndexEdit)
        ensures
            final(self)@ == old(self)@.edited(edit),
    {
        match edit {
            IndexEdit::Protect(account) => {
                insert_account(&mut self.protected, account);
            },
            IndexEdit::Track(id) => {
                insert_id(&mut self.recoveries, id);
            },
            IndexEdit::Untrack(id) => {
                remove_id(&mut self.recoveries, id);
            },
        }
    }
}

/// What the table says of a guardian; nothing for one it does not know.
spec fn duty_at(duties: Map<AccountId, Duty>, g: AccountId) -> DutyState {
    if duties.contains_key(g) {
        duties[g]@
    } else {
        DutyState::none()
    }
}

proof fn lemma_edit_twice(duty: DutyState, edit: IndexEdit)
    ensures
        duty.edited(edit).edited(edit) == duty.edited(edit),
{
    match edit {
        IndexEdit::Protect(account) => lemma_with_item_twice(duty.protected, account),
        IndexEdit::Track(id) => lemma_with_item_twice(duty.recoveries, id),
        IndexEdit::Untrack(id) => lemma_without_id_twice(duty.recoveries, id),
    }
}

/// Applies `edit` to the duties of each of `guardians`, one after the other.
/// A guardian that is listed twice is edited twice, which is as good as once.
fn apply_edit(duties: &mut Table<Duty>, guardians: &Vec<AccountId>, edit: IndexEdit)
    requires
        old(duties).wf(),
    ensures
        final(duties).wf(),
        forall|g: AccountId| #[trigger]
            duty_at(final(duties)@, g) == if guardians@.contains(g) {
                duty_at(old(duties)@, g).edited(edit)
            } else {
                duty_at(old(duties)@, g)
            },
{
    let mut i: usize = 0;
    while i < guardians.len()
        invariant
            i <= guardians.len(),
            duties.wf(),
            forall|g: AccountId| #[trigger]
                duty_at(duties@, g) == if guardians@.take(i as int).contains(g) {
                    duty_at(old(duties)@, g).edited(edit)
                } else {
                    duty_at(old(duties)@, g)
                },
        decreases guardians.len() - i,
    {
        let guardian = guardians[i];
        let ghost before = duties@;
        let mut duty = match duties.take(&guardian) {
            Some(known) => known,
            None => Duty::new(),
        };
        assert(duty@ == duty_at(before, guardian));
        duty.edit(edit);
        duties.set(guardian, duty);
        proof {
            lemma_edit_twice(duty_at(old(duties)@, guardian), edit);
            assert forall|g: AccountId| #[trigger]
                duty_at(duties@, g) == if guardians@.take(i + 1).contains(g) {
                    duty_at(old(duties)@, g).edited(edit)
                } else {
                    duty_at(old(duties)@, g)
                } by {
                lemma_take_next(guardians@, i as int, g);
                if g != guardian {
                    assert(duty_at(duties@, g) == duty_at(before, g));
                }
            }
        }
        i += 1;
    }
    assert(guardians@.take(guardians.len() as int) =~= guardians@);
}

/// The registry: accounts with their guardians, the recovery requests in the
/// order in which they were opened, and for each guardian what it is in
/// charge of.
pub struct Registry {
    accounts: Table<Account>,
    duties: Table<Duty>,
    requests: Vec<Request>,
}

impl View for Registry {
    type V = RegistryState;

    closed spec fn view(&self) -> RegistryState {
        RegistryState {
            accounts: Map::new(
                |a: AccountId| self.accounts@.contains_key(a),
                |a: AccountId| self.accounts@[a]@,
            ),
            requests: Seq::new(self.requests.len() as nat, |i: int| self.requests[i]@),
            duties: Map::total(|g: AccountId| duty_at(self.duties@, g)),
        }
    }
}

impl Registry {
    /// The two tables are in order.
    pub closed spec fn structural(&self) -> bool {
        self.accounts.wf() && self.duties.wf()
    }

    /// The registry is in order, and what it holds is valid.
    pub open spec fn wf(&self) -> bool {
        self.structural() && self@.valid()
    }

    /// The place of the request with this id, if there is one.
    fn slot(&self, id: u64) -> (r: Option<usize>)
        ensures
            r is Some == self@.has_request(id),
            r is Some ==> r->0 == id - 1,
    {
        if id >= 1 && id <= self.requests.len() as u64 {
            Some((id - 1) as usize)
        } else {
            None
        }
    }
}

/// A registry without accounts or requests.
pub fn init_storage() -> (reg: Registry)
    ensures
        reg.wf(),
        reg@ == RegistryState::empty(),
{
    let reg = Registry { accounts: Table::new(), duties: Table::new(), requests: Vec::new() };
    proof {
        empty_is_valid();
        assert(reg@.accounts =~= RegistryState::empty().accounts);
        assert(reg@.requests =~= RegistryState::empty().requests);
        assert(reg@.duties =~= RegistryState::empty().duties);
    }
    reg
}

/// Registers `guardians` and `threshold` for `account`, on behalf of `caller`,
/// and notes for each guardian that it protects the account.
pub fn init_guardians(
    reg: &mut Registry,
    caller: &AccountId,
    account: &AccountId,
    guardians: Vec<AccountId>,
    threshold: u8,
) -> (res: Result<(), RecoveryError>)
    requires
        old(reg).wf(),
    ensures
        final(reg).wf(),
        res == old(reg)@.init_guardians_outcome(*caller, *account, guardians@, threshold),
        final(reg)@ == old(reg)@.step(
            Call::InitGuardians {
                caller: *caller,
                account: *account,
                guardians: guardians@,
                threshold,
            },
        ),
{
    let initialized = reg.accounts.contains(account);
    match check_registration(caller.same(account), guardians.len(), threshold, initialized) {
        Err(e) => {
            return Err(e);
        },
        Ok(()) => {},
    }
    let ghost list = guardians@;
    apply_edit(&mut reg.duties, &guardians, IndexEdit::Protect(*account));
    reg.accounts.set(*account, Account { guardians, threshold, open: None });
    proof {
        let goal = old(reg)@.after_init_guardians(*account, list, threshold);
        assert(reg@.accounts =~= goal.accounts);
        assert(reg@.requests =~= goal.requests);
        assert(reg@.duties =~= goal.duties);
        init_guardians_keeps_valid(old(reg)@, *caller, *account, list, threshold);
    }
    Ok(())
}

/// Opens a recovery for `account` that proposes `new_key`, and lets each of
/// the account's guardians know. Returns the id of the request.
pub fn start_recovery(reg: &mut Registry, account: &AccountId, new_key: casper_types::PublicKey) -> (res:
    Result<u64, RecoveryError>)
    requires
        old(reg).wf(),
    ensures
        final(reg).wf(),
        res == old(reg)@.start_recovery_outcome(*account),
        res is Ok ==> res->Ok_0 == old(reg)@.counter() + 1,
        final(reg)@ == old(reg)@.step(Call::StartRecovery { account: *account, credential: new_key }),
{
    let (initialized, has_open) = match reg.accounts.get(account) {
        Some(record) => (true, record.open.is_some()),
        None => (false, false),
    };
    match check_opening(initialized, has_open) {
        Err(e) => {
            return Err(e);
        },
        Ok(()) => {},
    }
    let mut record = reg.accounts.take(account).unwrap();
    let last: u64 = reg.requests.len() as u64;
    reg.requests.push(
        Request {
            target: *account,
            credential: new_key,
            approvers: Vec::new(),
            approval_count: 0,
            approved: false,
            finalized: false,
        },
    );
    assert(reg.requests.len() == last + 1);
    let id: u64 = next_id(last);
    record.open = Some(id);
    apply_edit(&mut reg.duties, &record.guardians, IndexEdit::Track(id));
    reg.accounts.set(*account, record);
    proof {
        let goal = old(reg)@.after_start_recovery(*account, new_key);
        assert(id == old(reg)@.next_id());
        assert(reg@.accounts =~= goal.accounts);
        assert(reg@.requests =~= goal.requests);
        assert(reg@.duties =~= goal.duties);
        start_recovery_keeps_valid(old(reg)@, *account, new_key);
    }
    Ok(id)
}

/// Counts the approval of `caller` for the request `id`, and marks the
/// request approved once the threshold of its account is reached.
pub fn approve(reg: &mut Registry, caller: &AccountId, id: u64) -> (res: Result<(), RecoveryError>)
    requires
        old(reg).wf(),
    ensures
        final(reg).wf(),
        res == old(reg)@.approve_outcome(*caller, id),
        final(reg)@ == old(reg)@.step(Call::Approve { caller: *caller, id }),
{
    let slot = reg.slot(id);
    let (threshold, is_guardian, already) = match slot {
        Some(i) => {
            let request = &reg.requests[i];
            let voted = contains_account(&request.approvers, caller);
            match reg.accounts.get(&request.target) {
                Some(record) => (
                    record.threshold,
                    contains_account(&record.guardians, caller),
                    voted,
                ),
                None => (0, false, voted),
            }
        },
        None => (0, false, false),
    };
    match check_approval(slot.is_some(), is_guardian, already) {
        Err(e) => {
            return Err(e);
        },
        Ok(()) => {},
    }
    let i: usize = slot.unwrap();
    proof {
        assert(old(reg)@.request_valid(id));
        assert(old(reg)@.request(id) == reg.requests[i as int]@);
        assert(reg.requests[i as int].approval_count == reg.requests[i as int].approvers.len());
    }
    reg.requests[i].approvers.push(*caller);
    assert(reg.requests[i as int].approval_count < reg.requests[i as int].approvers.len());
    let (count, met) = record_approval(reg.requests[i].approval_count, threshold);
    reg.requests[i].approval_count = count;
    if met {
        reg.requests[i].approved = true;
    }
    proof {
        let goal = old(reg)@.after_approve(*caller, id);
        assert(reg@.accounts =~= goal.accounts);
        assert(reg@.requests =~= goal.requests);
        assert(reg@.duties =~= goal.duties);
        approve_keeps_valid(old(reg)@, *caller, id);
    }
    Ok(())
}

/// Whether the request `id` exists and has gathered enough approvals.
pub fn is_approved(reg: &Registry, id: u64) -> (r: bool)
    requires
        reg.wf(),
    ensures
        r == reg@.is_approved(id),
{
    match reg.slot(id) {
        Some(i) => reg.requests[i].approved,
        None => false,
    }
}

/// Finalizes the approved request `id`: it no longer awaits any guardian of
/// its account. The account's recovery marker stays, so no second recovery
/// can be opened for the account.
pub fn finalize(reg: &mut Registry, id: u64) -> (res: Result<(), RecoveryError>)
    requires
        old(reg).wf(),
    ensures
        final(reg).wf(),
        res == old(reg)@.finalize_outcome(id),
        final(reg)@ == old(reg)@.step(Call::Finalize { id }),
{
    match check_finalizing(is_approved(reg, id)) {
        Err(e) => {
            return Err(e);
        },
        Ok(()) => {},
    }
    let i: usize = reg.slot(id).unwrap();
    let target = reg.requests[i].target;
    match reg.accounts.get(&target) {
        Some(record) => {
            apply_edit(&mut reg.duties, &record.guardians, IndexEdit::Untrack(id));
        },
        None => {},
    }
    reg.requests[i].finalized = true;
    proof {
        let goal = old(reg)@.after_finalize(id);
        assert(reg@.accounts =~= goal.accounts);
        assert(reg@.requests =~= goal.requests);
        assert(reg@.duties =~= goal.duties);
        finalize_keeps_valid(old(reg)@, id);
    }
    Ok(())
}

/// How many guardians have approved the request `id`; 0 if there is no such
/// request.
pub fn approval_count(reg: &Registry, id: u64) -> (count: u64)
    requires
        reg.wf(),
    ensures
        count == if reg@.has_request(id) {
            reg@.request(id).approval_count
        } else {
            0
        },
{
    match reg.slot(id) {
        Some(i) => reg.requests[i].approval_count,
        None => 0,
    }
}

/// Whether the request `id` exists and has been finalized.
pub fn is_finalized(reg: &Registry, id: u64) -> (r: bool)
    requires
        reg.wf(),
    ensures
        r == (reg@.has_request(id) && reg@.request(id).finalized),
{
    match reg.slot(id) {
        Some(i) => reg.requests[i].finalized,
        None => false,
    }
}

/// The credential that the request `id` proposes, and the account it
/// proposes it for.
pub fn proposal(reg: &Registry, id: u64) -> (r: Option<(AccountId, &casper_types::PublicKey)>)
    requires
        reg.wf(),
    ensures
        match r {
            Some((target, credential)) => reg@.has_request(id) && target == reg@.request(
                id,
            ).target && *credential == reg@.request(id).credential,
            None => !reg@.has_request(id),
        },
{
    match reg.slot(id) {
        Some(i) => Some((reg.requests[i].target, &reg.requests[i].credential)),
        None => None,
    }
}

/// The id handed out last: the number of recoveries opened so far.
pub fn last_id(reg: &Registry) -> (id: u64)
    requires
        reg.wf(),
    ensures
        id == reg@.counter(),
{
    reg.requests.len() as u64
}

/// The guardians registered for `account`.
pub fn get_guardians(reg: &Registry, account: &AccountId) -> (res: Result<
    Vec<AccountId>,
    RecoveryError,
>)
    requires
        reg.wf(),
    ensures
        match res {
            Ok(list) => reg@.initialized(*account) && list@ == reg@.guardians_of(*account),
            Err(e) => !reg@.initialized(*account) && e == RecoveryError::NotInit,
        },
{
    match reg.accounts.get(account) {
        Some(record) => Ok(record.guardians.clone()),
        None => Err(RecoveryError::NotInit),
    }
}

/// Whether `account` has registered guardians.
pub fn has_guardians(reg: &Registry, account: &AccountId) -> (r: bool)
    requires
        reg.wf(),
    ensures
        r == reg@.initialized(*account),
{
    reg.accounts.contains(account)
}

/// The ids of the requests that await `guardian`, in the order in which they
/// were opened; none for an identity that is no guardian.
pub fn get_recoveries_for_guardian(reg: &Registry, guardian: &AccountId) -> (ids: Vec<u64>)
    requires
        reg.wf(),
    ensures
        ids@ == reg@.duties[*guardian].recoveries,
{
    match reg.duties.get(guardian) {
        Some(duty) => duty.recoveries.clone(),
        None => Vec::new(),
    }
}

/// The accounts that `guardian` protects, in the order in which they
/// registered; none for an identity that is no guardian.
pub fn get_protected_accounts(reg: &Registry, guardian: &AccountId) -> (accounts: Vec<AccountId>)
    requires
        reg.wf(),
    ensures
        accounts@ == reg@.duties[*guardian].protected,
{
    match reg.duties.get(guardian) {
        Some(duty) => duty.protected.clone(),
        None => Vec::new(),
    }
}

} // verus!
