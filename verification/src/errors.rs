use vstd::prelude::*;

verus! {

/// The error taxonomy shared by every component of the runtime.
///
/// `RateLimited` and `NoResourcesAvailable` are transient (a caller may
/// retry); `NotFound`, `Expired` and `ExecutionFailed` are permanent.
#[derive(Debug, Clone, PartialEq, Eq, Structural)]
pub enum ApiError {
    /// Unknown episode or resource identity.
    NotFound,
    /// The episode is past its time-to-live.
    Expired,
    /// Admission control denied the operation.
    RateLimited,
    /// The ledger holds no unspent resource.
    NoResourcesAvailable,
    /// A command could not be encoded into the wire format.
    EncodingFailed,
    /// Signing key material was rejected.
    SigningFailed,
    /// The network collaborator refused the transaction.
    SubmissionFailed,
    /// The inner execution capability rejected a command.
    ExecutionFailed,
    /// The persistence collaborator failed.
    StorageFailure,
    /// An episode could not be created.
    CreationDenied,
}

impl ApiError {
    /// Whether a caller may usefully retry the failed operation.
    pub fn is_transient(&self) -> (r: bool)
        ensures
            r == (self is RateLimited || self is NoResourcesAvailable),
    {
        match self {
            ApiError::RateLimited => true,
            ApiError::NoResourcesAvailable => true,
            _ => false,
        }
    }
}

} // verus!
