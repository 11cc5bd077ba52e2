use vstd::prelude::*;
use crate::lists::{with_item, without_id};
use crate::rules::{
    approval_outcome,
    finalizing_outcome,
    opening_outcome,
    reaches,
    registration_outcome,
};
use crate::types::{AccountId, RecoveryError};

verus! {

/// What is registered for an account: its guardians, how many of them must
/// approve a recovery, and the id of the recovery opened for it, if any.
pub struct AccountState {
    pub guardians: Seq<AccountId>,
    pub threshold: u8,
    pub open: Option<u64>,
}

/// A recovery request: the account it is for, the credential it proposes,
/// who has approved it so far, and how far it has come.
pub struct RequestState {
    pub target: AccountId,
    pub credential: casper_types::PublicKey,
    pub approvers: Seq<AccountId>,
    pub approval_count: nat,
    pub approved: bool,
    pub finalized: bool,
}

/// What a guardian is in charge of: the accounts it protects, and the
/// recovery requests that await it.
pub struct DutyState {
    pub protected: Seq<AccountId>,
    pub recoveries: Seq<u64>,
}

/// A change to what one guardian is in charge of.
#[derive(Clone, Copy)]
pub enum IndexEdit {
    /// The guardian now protects this account.
    Protect(AccountId),
    /// This request now awaits the guardian.
    Track(u64),
    /// This request no longer awaits the guardian.
    Untrack(u64),
}

impl DutyState {
    pub open spec fn none() -> DutyState {
        DutyState { protected: Seq::empty(), recoveries: Seq::empty() }
    }

    pub open spec fn edited(self, edit: IndexEdit) -> DutyState {
        match edit {
            IndexEdit::Protect(account) => DutyState {
                protected: with_item(self.protected, account),
                ..self
            },
            IndexEdit::Track(id) => DutyState { recoveries: with_item(self.recoveries, id), ..self },
            IndexEdit::Untrack(id) => DutyState {
                recoveries: without_id(self.recoveries, id),
                ..self
            },
        }
    }
}

/// One call of an operation that changes the registry, with its arguments.
pub enum Call {
    InitGuardians { caller: AccountId, account: AccountId, guardians: Seq<AccountId>, threshold: u8 },
    StartRecovery { account: AccountId, credential: casper_types::PublicKey },
    Approve { caller: AccountId, id: u64 },
    Finalize { id: u64 },
}

/// What a call answers.
pub enum Reply {
    /// The call was carried out.
    Done,
    /// A recovery was opened under this id.
    Started(u64),
    /// The call was refused, and changed nothing.
    Refused(RecoveryError),
}

/// The whole registry. A request's id is its place in `requests`, counted
/// from 1, so the number of requests is the id handed out last. `duties` is
/// read at every identity: one that is no guardian has empty lists there.
pub struct RegistryState {
    pub accounts: Map<AccountId, AccountState>,
    pub requests: Seq<RequestState>,
    pub duties: Map<AccountId, DutyState>,
}

impl RegistryState {
    pub open spec fn empty() -> RegistryState {
        RegistryState {
            accounts: Map::empty(),
            requests: Seq::empty(),
            duties: Map::total(|g: AccountId| DutyState::none()),
        }
    }

    pub open spec fn initialized(self, account: AccountId) -> bool {
        self.accounts.contains_key(account)
    }

    /// The guardians of an account; none for an account that has not
    /// registered any.
    pub open spec fn guardians_of(self, account: AccountId) -> Seq<AccountId> {
        if self.initialized(account) {
            self.accounts[account].guardians
        } else {
            Seq::empty()
        }
    }

    pub open spec fn has_open(self, account: AccountId) -> bool {
        self.initialized(account) && self.accounts[account].open is Some
    }

    /// The id handed out last; 0 before the first.
    pub open spec fn counter(self) -> nat {
        self.requests.len()
    }

    pub open spec fn has_request(self, id: u64) -> bool {
        1 <= id <= self.requests.len()
    }

    pub open spec fn request(self, id: u64) -> RequestState {
        self.requests[id - 1]
    }

    pub open spec fn is_approved(self, id: u64) -> bool {
        self.has_request(id) && self.request(id).approved
    }

    pub open spec fn is_guardian_for(self, id: u64, who: AccountId) -> bool {
        self.has_request(id) && self.guardians_of(self.request(id).target).contains(who)
    }

    pub open spec fn has_approved(self, id: u64, who: AccountId) -> bool {
        self.has_request(id) && self.request(id).approvers.contains(who)
    }

    /// The duties after `edit` has been applied for each of `guardians`.
    pub open spec fn duties_after(self, guardians: Seq<AccountId>, edit: IndexEdit) -> Map<
        AccountId,
        DutyState,
    > {
        Map::total(
            |g: AccountId|
                if guardians.contains(g) {
                    self.duties[g].edited(edit)
                } else {
                    self.duties[g]
                },
        )
    }

    // Registering guardians

    pub open spec fn init_guardians_outcome(
        self,
        caller: AccountId,
        account: AccountId,
        guardians: Seq<AccountId>,
        threshold: u8,
    ) -> Result<(), RecoveryError> {
        registration_outcome(
            caller == account,
            guardians.len(),
            threshold,
            self.initialized(account),
        )
    }

    pub open spec fn after_init_guardians(
        self,
        account: AccountId,
        guardians: Seq<AccountId>,
        threshold: u8,
    ) -> RegistryState {
        RegistryState {
            accounts: self.accounts.insert(
                account,
                AccountState { guardians, threshold, open: None },
            ),
            duties: self.duties_after(guardians, IndexEdit::Protect(account)),
            ..self
        }
    }

    // Opening a recovery

    pub open spec fn next_id(self) -> u64 {
        (self.requests.len() + 1) as u64
    }

    pub open spec fn start_recovery_outcome(self, account: AccountId) -> Result<
        u64,
        RecoveryError,
    > {
        match opening_outcome(self.initialized(account), self.has_open(account)) {
            Ok(()) => Ok(self.next_id()),
            Err(e) => Err(e),
        }
    }

    pub open spec fn after_start_recovery(
        self,
        account: AccountId,
        credential: casper_types::PublicKey,
    ) -> RegistryState {
        RegistryState {
            accounts: self.accounts.insert(
                account,
                AccountState { open: Some(self.next_id()), ..self.accounts[account] },
            ),
            requests: self.requests.push(
                RequestState {
                    target: account,
                    credential,
                    approvers: Seq::empty(),
                    approval_count: 0,
                    approved: false,
                    finalized: false,
                },
            ),
            duties: self.duties_after(self.guardians_of(account), IndexEdit::Track(self.next_id())),
        }
    }

    // Approving

    pub open spec fn approve_outcome(self, caller: AccountId, id: u64) -> Result<
        (),
        RecoveryError,
    > {
        approval_outcome(
            self.has_request(id),
            self.is_guardian_for(id, caller),
            self.has_approved(id, caller),
        )
    }

    pub open spec fn after_approve(self, caller: AccountId, id: u64) -> RegistryState {
        let r = self.request(id);
        let count = r.approval_count + 1;
        RegistryState {
            requests: self.requests.update(
                id - 1,
                RequestState {
                    approvers: r.approvers.push(caller),
                    approval_count: count,
                    approved: r.approved || reaches(count, self.accounts[r.target].threshold),
                    ..r
                },
            ),
            ..self
        }
    }

    // Finalizing

    pub open spec fn finalize_outcome(self, id: u64) -> Result<(), RecoveryError> {
        finalizing_outcome(self.is_approved(id))
    }

    pub open spec fn after_finalize(self, id: u64) -> RegistryState {
        let r = self.request(id);
        RegistryState {
            requests: self.requests.update(id - 1, RequestState { finalized: true, ..r }),
            duties: self.duties_after(self.guardians_of(r.target), IndexEdit::Untrack(id)),
            ..self
        }
    }

    // Calls, one by one and in sequence

    pub open spec fn reply(self, call: Call) -> Reply {
        match call {
            Call::InitGuardians { caller, account, guardians, threshold } => {
                match self.init_guardians_outcome(caller, account, guardians, threshold) {
                    Ok(()) => Reply::Done,
                    Err(e) => Reply::Refused(e),
                }
            },
            Call::StartRecovery { account, credential } => {
                match self.start_recovery_outcome(account) {
                    Ok(id) => Reply::Started(id),
                    Err(e) => Reply::Refused(e),
                }
            },
            Call::Approve { caller, id } => {
                match self.approve_outcome(caller, id) {
                    Ok(()) => Reply::Done,
                    Err(e) => Reply::Refused(e),
                }
            },
            Call::Finalize { id } => {
                match self.finalize_outcome(id) {
                    Ok(()) => Reply::Done,
                    Err(e) => Reply::Refused(e),
                }
            },
        }
    }

    /// The registry after `call`: as before if the call is refused.
    pub open spec fn step(self, call: Call) -> RegistryState {
        if self.reply(call) is Refused {
            self
        } else {
            match call {
                Call::InitGuardians { caller, account, guardians, threshold } => {
                    self.after_init_guardians(account, guardians, threshold)
                },
                Call::StartRecovery { account, credential } => {
                    self.after_start_recovery(account, credential)
                },
                Call::Approve { caller, id } => self.after_approve(caller, id),
                Call::Finalize { id } => self.after_finalize(id),
            }
        }
    }

    /// The registry after `calls`, made in order.
    pub open spec fn run(self, calls: Seq<Call>) -> RegistryState
        decreases calls.len(),
    {
        if calls.len() == 0 {
            self
        } else {
            self.run(calls.drop_last()).step(calls.last())
        }
    }

    // What holds of every registry

    pub open spec fn config_valid(config: AccountState) -> bool {
        &&& config.guardians.len() >= 2
        &&& 1 <= config.threshold <= config.guardians.len()
    }

    /// The open marker of an account names a request for that account.
    pub open spec fn marker_valid(self, account: AccountId) -> bool {
        self.has_open(account) ==> {
            let id = self.accounts[account].open->0;
            self.has_request(id) && self.request(id).target == account
        }
    }

    /// A request is for a registered account that names it as its recovery;
    /// its approvers are distinct guardians of that account, and are as many
    /// as its count says; it is approved exactly if the count reaches the
    /// account's threshold; it has been finalized only if approved.
    pub open spec fn request_valid(self, id: u64) -> bool {
        let r = self.request(id);
        &&& self.initialized(r.target)
        &&& self.accounts[r.target].open == Some(id)
        &&& r.approvers.no_duplicates()
        &&& forall|g: AccountId| #[trigger]
            r.approvers.contains(g) ==> self.accounts[r.target].guardians.contains(g)
        &&& r.approval_count == r.approvers.len()
        &&& r.approved == reaches(r.approval_count, self.accounts[r.target].threshold)
        &&& r.finalized ==> r.approved
    }

    /// A guardian's lists hold nothing twice; it protects exactly the accounts
    /// that name it as a guardian, and is awaited by exactly the requests for
    /// those accounts that have not been finalized.
    pub open spec fn duty_valid(self, g: AccountId) -> bool {
        let duty = self.duties[g];
        &&& duty.protected.no_duplicates()
        &&& duty.recoveries.no_duplicates()
        &&& forall|a: AccountId| #[trigger]
            duty.protected.contains(a) <==> self.guardians_of(a).contains(g)
        &&& forall|id: u64| #[trigger]
            duty.recoveries.contains(id) <==> (self.is_guardian_for(id, g) && !self.request(
                id,
            ).finalized)
    }

    pub open spec fn valid(self) -> bool {
        &&& self.requests.len() <= u64::MAX
        &&& forall|a: AccountId| #[trigger]
            self.initialized(a) ==> Self::config_valid(self.accounts[a]) && self.marker_valid(a)
        &&& forall|id: u64| #[trigger] self.has_request(id) ==> self.request_valid(id)
        &&& forall|g: AccountId| #[trigger] self.duty_valid(g)
    }
}

} // verus!
