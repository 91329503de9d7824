//! The errors that the engine reports, and their coarse classification.

use vstd::prelude::*;

verus! {

/// Why an operation was rejected. A rejected operation leaves the store as it
/// was.
#[derive(Clone, Copy, Debug, PartialEq, Eq, Structural)]
pub enum EngineError {
    /// No account has the given id.
    AccountNotFound,
    /// No catalog item has the given id or name.
    ItemNotFound,
    /// No ownership record has the given id.
    RecordNotFound,
    /// The handle is already registered.
    HandleTaken,
    /// The balance does not cover the amount to debit.
    InsufficientFunds,
    /// A credit would push the balance past the largest representable amount.
    BalanceOverflow,
    /// The table's largest id is the largest representable id.
    IdSpaceExhausted,
    /// A case was opened on an empty catalog.
    EmptyCatalog,
    /// The weighted selector was given nothing to choose from.
    EmptyCandidateSet,
    /// A trade-up was given a number of records other than ten.
    InvalidInputCount,
    /// The record with this id does not exist or belongs to another account.
    NotOwned(i64),
    /// The record with this id refers to a catalog item that does not exist.
    DanglingItem(i64),
    /// The ten records do not all classify to one tier.
    MixedTiers,
    /// The records' tier has no place in the progression.
    UnsupportedTier,
    /// The records' tier is the top of the progression.
    NoHigherTier,
    /// The catalog holds no eligible item of the next tier.
    NoCandidates,
    /// A record could not be consumed; everything was rolled back.
    ConsumptionFailed(i64),
}

/// The coarse classes of errors.
#[derive(Clone, Copy, Debug, PartialEq, Eq, Structural)]
pub enum ErrorKind {
    NotFound,
    Conflict,
    InvalidInput,
    InsufficientFunds,
    InconsistentState,
    CapacityExceeded,
}

impl EngineError {
    /// The class that an error falls into.
    pub open spec fn spec_kind(self) -> ErrorKind {
        match self {
            EngineError::AccountNotFound => ErrorKind::NotFound,
            EngineError::ItemNotFound => ErrorKind::NotFound,
            EngineError::RecordNotFound => ErrorKind::NotFound,
            EngineError::NotOwned(_) => ErrorKind::NotFound,
            EngineError::DanglingItem(_) => ErrorKind::NotFound,
            EngineError::EmptyCatalog => ErrorKind::NotFound,
            EngineError::NoCandidates => ErrorKind::NotFound,
            EngineError::HandleTaken => ErrorKind::Conflict,
            EngineError::EmptyCandidateSet => ErrorKind::InvalidInput,
            EngineError::InvalidInputCount => ErrorKind::InvalidInput,
            EngineError::MixedTiers => ErrorKind::InvalidInput,
            EngineError::UnsupportedTier => ErrorKind::InvalidInput,
            EngineError::NoHigherTier => ErrorKind::InvalidInput,
            EngineError::InsufficientFunds => ErrorKind::InsufficientFunds,
            EngineError::ConsumptionFailed(_) => ErrorKind::InconsistentState,
            EngineError::BalanceOverflow => ErrorKind::CapacityExceeded,
            EngineError::IdSpaceExhausted => ErrorKind::CapacityExceeded,
        }
    }

    /// The class of this error.
    #[verifier::when_used_as_spec(spec_kind)]
    pub fn kind(self) -> (k: ErrorKind)
        ensures
            k == self.spec_kind(),
    {
        match self {
            EngineError::AccountNotFound
            | EngineError::ItemNotFound
            | EngineError::RecordNotFound
            | EngineError::NotOwned(_)
            | EngineError::DanglingItem(_)
            | EngineError::EmptyCatalog
            | EngineError::NoCandidates => ErrorKind::NotFound,
            EngineError::HandleTaken => ErrorKind::Conflict,
            EngineError::EmptyCandidateSet
            | EngineError::InvalidInputCount
            | EngineError::MixedTiers
            | EngineError::UnsupportedTier
            | EngineError::NoHigherTier => ErrorKind::InvalidInput,
            EngineError::InsufficientFunds => ErrorKind::InsufficientFunds,
            EngineError::ConsumptionFailed(_) => ErrorKind::InconsistentState,
            EngineError::BalanceOverflow | EngineError::IdSpaceExhausted => ErrorKind::CapacityExceeded,
        }
    }
}

} // verus!
