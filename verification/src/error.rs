//! Error taxonomy of the client.
//!
//! `Error` is what callers of the client see; `ExtrinsicError` is the
//! transaction-level failure that submission tracking produces, folded
//! into `Error` through `From`.

use vstd::prelude::*;

verus! {

/// Top-level failure of a client operation.
#[derive(Debug, PartialEq, Eq)]
pub enum Error {
    /// The client could not be built or a request could not be issued.
    ClientError(String),
    /// The RPC layer failed mid-operation (for instance, a status
    /// subscription ended without a terminal event).
    RpcError(String),
    /// A tracked transaction reached a failure outcome.
    TransactionError(ExtrinsicError),
}

/// Failure of one tracked transaction.
#[derive(Debug, PartialEq, Eq)]
pub enum ExtrinsicError {
    /// The node gave up waiting for finality.
    FinalityTimeout,
    /// Any other transaction-level failure, with its detail.
    Custom(String),
}

impl From<ExtrinsicError> for Error {
    fn from(e: ExtrinsicError) -> (r: Self) {
        Error::TransactionError(e)
    }
}

impl vstd::std_specs::convert::FromSpecImpl<ExtrinsicError> for Error {
    open spec fn obeys_from_spec() -> bool {
        true
    }

    open spec fn from_spec(e: ExtrinsicError) -> Self {
        Error::TransactionError(e)
    }
}

} // verus!
