use vstd::prelude::*;
use crate::types::RecoveryError;

verus! {

/// The fewest guardians an account may register.
pub const MIN_GUARDIANS: usize = 2;

/// The threshold assumed for an account whose threshold cannot be read.
pub const DEFAULT_THRESHOLD: u8 = 2;

/// Whether the registry can be used at all: only once its store has been
/// created.
pub open spec fn store_outcome(created: bool) -> Result<(), RecoveryError> {
    if created {
        Ok(())
    } else {
        Err(RecoveryError::MissingStore)
    }
}

pub fn check_store(created: bool) -> (r: Result<(), RecoveryError>)
    ensures
        r == store_outcome(created),
{
    if created {
        Ok(())
    } else {
        Err(RecoveryError::MissingStore)
    }
}

/// Whether a registration is accepted, and if not, why. The checks are made
/// in this order: ownership, number of guardians, threshold, first use.
pub open spec fn registration_outcome(
    is_owner: bool,
    guardian_count: nat,
    threshold: u8,
    initialized: bool,
) -> Result<(), RecoveryError> {
    if !is_owner {
        Err(RecoveryError::NotOwner)
    } else if guardian_count < 2 {
        Err(RecoveryError::BadGuardians)
    } else if threshold == 0 || threshold > guardian_count {
        Err(RecoveryError::BadThreshold)
    } else if initialized {
        Err(RecoveryError::AlreadyInit)
    } else {
        Ok(())
    }
}

pub fn check_registration(
    is_owner: bool,
    guardian_count: usize,
    threshold: u8,
    initialized: bool,
) -> (r: Result<(), RecoveryError>)
    ensures
        r == registration_outcome(is_owner, guardian_count as nat, threshold, initialized),
{
    if !is_owner {
        Err(RecoveryError::NotOwner)
    } else if guardian_count < MIN_GUARDIANS {
        Err(RecoveryError::BadGuardians)
    } else if threshold == 0 || threshold as usize > guardian_count {
        Err(RecoveryError::BadThreshold)
    } else if initialized {
        Err(RecoveryError::AlreadyInit)
    } else {
        Ok(())
    }
}

/// Whether a recovery may be opened for an account: it must have guardians,
/// and no recovery may have been opened for it before.
pub open spec fn opening_outcome(initialized: bool, has_open: bool) -> Result<(), RecoveryError> {
    if !initialized {
        Err(RecoveryError::NotInit)
    } else if has_open {
        Err(RecoveryError::RecoveryExists)
    } else {
        Ok(())
    }
}

pub fn check_opening(initialized: bool, has_open: bool) -> (r: Result<(), RecoveryError>)
    ensures
        r == opening_outcome(initialized, has_open),
{
    if !initialized {
        Err(RecoveryError::NotInit)
    } else if has_open {
        Err(RecoveryError::RecoveryExists)
    } else {
        Ok(())
    }
}

/// The id for the next recovery: one more than the id handed out last, so
/// the first is 1.
pub fn next_id(last: u64) -> (id: u64)
    requires
        last < u64::MAX,
    ensures
        id == last + 1,
{
    last + 1
}

/// Whether an approval is accepted: the request must exist, the caller must
/// be a guardian of its account, and must not have approved it before.
pub open spec fn approval_outcome(found: bool, is_guardian: bool, already_approved: bool) -> Result<
    (),
    RecoveryError,
> {
    if !found {
        Err(RecoveryError::NotFound)
    } else if !is_guardian {
        Err(RecoveryError::NotGuardian)
    } else if already_approved {
        Err(RecoveryError::AlreadyApproved)
    } else {
        Ok(())
    }
}

pub fn check_approval(found: bool, is_guardian: bool, already_approved: bool) -> (r: Result<
    (),
    RecoveryError,
>)
    ensures
        r == approval_outcome(found, is_guardian, already_approved),
{
    if !found {
        Err(RecoveryError::NotFound)
    } else if !is_guardian {
        Err(RecoveryError::NotGuardian)
    } else if already_approved {
        Err(RecoveryError::AlreadyApproved)
    } else {
        Ok(())
    }
}

/// Whether `count` approvals reach `threshold`.
pub open spec fn reaches(count: nat, threshold: u8) -> bool {
    count >= threshold
}

/// Counts one more approval: gives the new count and whether it reaches the
/// threshold.
pub fn record_approval(count: u64, threshold: u8) -> (r: (u64, bool))
    requires
        count < u64::MAX,
    ensures
        r.0 == count + 1,
        r.1 == reaches((count + 1) as nat, threshold),
{
    let next: u64 = count + 1;
    (next, next >= threshold as u64)
}

/// Whether a request may be finalized: only once it is approved.
pub open spec fn finalizing_outcome(approved: bool) -> Result<(), RecoveryError> {
    if approved {
        Ok(())
    } else {
        Err(RecoveryError::NotApproved)
    }
}

pub fn check_finalizing(approved: bool) -> (r: Result<(), RecoveryError>)
    ensures
        r == finalizing_outcome(approved),
{
    if approved {
        Ok(())
    } else {
        Err(RecoveryError::NotApproved)
    }
}

} // verus!
