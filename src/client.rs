use vstd::prelude::*;

use crate::event::{LogDestination, LogEvent};

verus! {

#[verifier::external_type_specification]
#[verifier::external_body]
pub struct ExAnyhowError(anyhow::Error);

/// Why a backend could not take a batch.
#[derive(Debug)]
pub enum PutLogsError {
    /// The destination does not exist; a lasting condition for this exporter.
    LogDestinationNotFound { message: String },
    /// Any other failure (network, throttling, ...), carried opaquely.
    Other(anyhow::Error),
}

impl PutLogsError {
    pub fn is_destination_not_found(&self) -> (r: bool)
        ensures
            r == (self is LogDestinationNotFound),
    {
        match self {
            PutLogsError::LogDestinationNotFound { .. } => true,
            PutLogsError::Other(_) => false,
        }
    }
}

impl From<anyhow::Error> for PutLogsError {
    fn from(cause: anyhow::Error) -> (r: PutLogsError)
        ensures
            r == PutLogsError::Other(cause),
    {
        PutLogsError::Other(cause)
    }
}

impl vstd::std_specs::convert::FromSpecImpl<anyhow::Error> for PutLogsError {
    open spec fn obeys_from_spec() -> bool {
        true
    }

    open spec fn from_spec(cause: anyhow::Error) -> PutLogsError {
        PutLogsError::Other(cause)
    }
}

/// A backend that accepts every batch and discards it.
pub struct NoopClient {}

impl NoopClient {
    pub fn new() -> (r: NoopClient) {
        NoopClient {  }
    }

    /// Takes the batch and drops it; never fails.
    pub fn put_logs(&self, destination: &LogDestination, logs: &Vec<LogEvent>) -> (r: Result<
        (),
        PutLogsError,
    >)
        ensures
            r is Ok,
    {
        Ok(())
    }
}

} // verus!
