use vstd::prelude::*;

verus! {

/// Failure of the underlying store: data that breaks the store's own structure.
#[derive(Clone, Copy, Debug, PartialEq, Eq, Structural)]
pub enum StorageError {
    /// A stored key or value does not have the shape the store expects.
    StorageInconsistentState,
    /// A value that a handle points to is no longer in the store.
    MissingTrieValue,
}

/// Failure reported by the epoch-information provider.
#[derive(Clone, Debug)]
pub struct EpochError {
    pub reason: String,
}

/// Internal failure, with its cause kept for the host's diagnostics.
#[derive(Clone, Debug)]
pub enum ExternalError {
    /// Unexpected error, typically related to storage corruption; the input
    /// state may be invalid or malicious.
    StorageError(StorageError),
    /// Error when accessing validator information.
    ValidatorError(EpochError),
}

/// The single failure kind that contract code observes.
///
/// Its cause is private: contract code can only see that an operation failed.
#[derive(Clone, Debug)]
pub struct VMLogicError {
    cause: ExternalError,
}

impl VMLogicError {
    pub closed spec fn spec_cause(&self) -> ExternalError {
        self.cause
    }

    /// Erases an internal failure into the opaque kind.
    pub fn from_external(cause: ExternalError) -> (r: VMLogicError)
        ensures
            r.spec_cause() == cause,
    {
        VMLogicError { cause }
    }

    /// The internal cause, for host-side diagnostics only.
    pub fn host_cause(&self) -> (r: &ExternalError)
        ensures
            *r == self.spec_cause(),
    {
        &self.cause
    }
}

impl From<ExternalError> for VMLogicError {
    fn from(err: ExternalError) -> (r: VMLogicError) {
        VMLogicError::from_external(err)
    }
}

impl vstd::std_specs::convert::FromSpecImpl<ExternalError> for VMLogicError {
    open spec fn obeys_from_spec() -> bool {
        true
    }

    closed spec fn from_spec(v: ExternalError) -> VMLogicError {
        VMLogicError { cause: v }
    }
}

/// Converting an internal failure keeps it as the cause.
pub proof fn lemma_from_keeps_cause(v: ExternalError)
    ensures
        <VMLogicError as vstd::std_specs::convert::FromSpec<ExternalError>>::from_spec(v).spec_cause()
            == v,
{
}

/// Wraps a storage failure at the boundary.
pub fn wrap_storage_error(error: StorageError) -> (r: VMLogicError)
    ensures
        r.spec_cause() == ExternalError::StorageError(error),
{
    VMLogicError::from(ExternalError::StorageError(error))
}

/// Wraps a validator failure at the boundary.
pub fn wrap_validator_error(error: EpochError) -> (r: VMLogicError)
    ensures
        r.spec_cause() == ExternalError::ValidatorError(error),
{
    VMLogicError::from(ExternalError::ValidatorError(error))
}

} // verus!
