//! Error taxonomy of the pipeline.

use vstd::prelude::*;

verus! {

/// Errors arising from chain interactions.
#[derive(Clone, Debug, PartialEq, Eq)]
pub enum StarknetError {
    /// The chain answered with an unexpected or empty response.
    InvalidResponse(String),
    /// A contract call could not be made, for instance because the function
    /// selector could not be resolved.
    ContractCallFailed(String),
    /// A state-changing transaction failed to submit or execute.
    TransactionFailed(String),
    /// Data returned by the chain could not be parsed.
    InvalidDataFormat(String),
    /// The underlying node or transport failed.
    ProviderError(String),
}

/// Errors from the deposit store.
#[derive(Clone, Copy, Debug, PartialEq, Eq, Structural)]
pub enum StoreError {
    /// A record with the same deposit identifier already exists.
    Conflict,
    /// No record carries the given deposit identifier.
    NotFound,
    /// The requested status change would move a deposit backwards.
    InvalidTransition,
    /// The transaction hash does not fit the requested status: settling
    /// requires a non-empty hash, and no other status may carry one.
    MissingTxHash,
}

/// Errors surfaced by the deposit registrar.
#[derive(Clone, Debug, PartialEq, Eq)]
pub enum DepositError {
    /// The request was malformed: a non-positive amount or an address that
    /// does not parse as a chain address.
    ValidationError(String),
    /// The chain gateway failed while predicting the deposit address.
    UpstreamError(String),
    /// The deposit store refused the record.
    StorageError(StoreError),
    /// The amount does not fit the on-chain numeric width.
    EncodingError,
}

} // verus!
