use vstd::prelude::*;

verus! {

/// The identity of an account owner or of a guardian: a 32-byte account hash.
#[derive(Clone, Copy, Debug, PartialEq, Eq, Hash)]
pub struct AccountId {
    pub bytes: [u8; 32],
}

impl AccountId {
    pub fn new(bytes: [u8; 32]) -> (id: AccountId)
        ensures
            id.bytes == bytes,
    {
        AccountId { bytes }
    }

    /// Whether two identities are the same, byte for byte.
    pub fn same(&self, other: &AccountId) -> (r: bool)
        ensures
            r == (*self == *other),
    {
        let mut i: usize = 0;
        while i < 32
            invariant
                i <= 32,
                forall|j: int| 0 <= j < i ==> self.bytes[j] == other.bytes[j],
            decreases 32 - i,
        {
            if self.bytes[i] != other.bytes[i] {
                return false;
            }
            i += 1;
        }
        assert(self.bytes =~= other.bytes);
        true
    }
}

/// `casper_types::PublicKey`, the credential that a recovery proposes for an
/// account. To the registry it is opaque: a request keeps the key it was
/// opened with and hands it back, and nothing is claimed of what is inside.
#[verifier::external_type_specification]
#[verifier::external_body]
pub struct ExPublicKey(casper_types::PublicKey);

/// Why an operation was refused. A refused operation changes nothing.
#[derive(Clone, Copy, Debug, PartialEq, Eq, Structural)]
pub enum RecoveryError {
    /// The caller is not the account whose guardians are being registered.
    NotOwner,
    /// The account already has guardians.
    AlreadyInit,
    /// Fewer than two guardians were given.
    BadGuardians,
    /// The threshold is zero or exceeds the number of guardians.
    BadThreshold,
    /// The caller is not a guardian of the account under recovery.
    NotGuardian,
    /// The account already has a recovery request.
    RecoveryExists,
    /// No recovery request has this id.
    NotFound,
    /// The caller has approved this request before.
    AlreadyApproved,
    /// The request has not gathered enough approvals.
    NotApproved,
    /// The account has no guardians.
    NotInit,
    /// The backing store has not been created.
    MissingStore,
}

impl RecoveryError {
    /// The stable numeric code of each error.
    pub open spec fn code_of(self) -> u16 {
        match self {
            RecoveryError::NotOwner => 1,
            RecoveryError::AlreadyInit => 2,
            RecoveryError::BadGuardians => 3,
            RecoveryError::BadThreshold => 4,
            RecoveryError::NotGuardian => 5,
            RecoveryError::RecoveryExists => 6,
            RecoveryError::NotFound => 7,
            RecoveryError::AlreadyApproved => 8,
            RecoveryError::NotApproved => 9,
            RecoveryError::NotInit => 10,
            RecoveryError::MissingStore => 11,
        }
    }

    pub fn code(&self) -> (c: u16)
        ensures
            c == self.code_of(),
    {
        match self {
            RecoveryError::NotOwner => 1,
            RecoveryError::AlreadyInit => 2,
            RecoveryError::BadGuardians => 3,
            RecoveryError::BadThreshold => 4,
            RecoveryError::NotGuardian => 5,
            RecoveryError::RecoveryExists => 6,
            RecoveryError::NotFound => 7,
            RecoveryError::AlreadyApproved => 8,
            RecoveryError::NotApproved => 9,
            RecoveryError::NotInit => 10,
            RecoveryError::MissingStore => 11,
        }
    }

    /// The error with the given code, if there is one.
    pub fn from_code(code: u16) -> (e: Option<RecoveryError>)
        ensures
            match e {
                Some(err) => err.code_of() == code,
                None => forall|err: RecoveryError| err.code_of() != code,
            },
    {
        match code {
            1 => Some(RecoveryError::NotOwner),
            2 => Some(RecoveryError::AlreadyInit),
            3 => Some(RecoveryError::BadGuardians),
            4 => Some(RecoveryError::BadThreshold),
            5 => Some(RecoveryError::NotGuardian),
            6 => Some(RecoveryError::RecoveryExists),
            7 => Some(RecoveryError::NotFound),
            8 => Some(RecoveryError::AlreadyApproved),
            9 => Some(RecoveryError::NotApproved),
            10 => Some(RecoveryError::NotInit),
            11 => Some(RecoveryError::MissingStore),
            _ => None,
        }
    }
}

} // verus!
