//! The controls of one retrieval.

use crate::accounting::ServiceCallOptions;
use crate::model::IndexConsistency;
use tokio_util::sync::CancellationToken;
use vstd::prelude::*;

verus! {

/// The controls of one retrieval against the latest published generation.
pub struct RetrievalExecution {
    pub consistency: Option<IndexConsistency>,
    pub options: ServiceCallOptions,
    pub cancellation: CancellationToken,
}

impl RetrievalExecution {
    /// A retrieval that takes the index as it is.
    pub fn direct(options: ServiceCallOptions, cancellation: CancellationToken) -> (r:
        RetrievalExecution)
        ensures
            r.consistency is None,
            r.options == options,
            r.cancellation == cancellation,
    {
        RetrievalExecution { consistency: None, options, cancellation }
    }

    /// A retrieval that asks for a state of the repository.
    pub fn consistent(
        consistency: IndexConsistency,
        options: ServiceCallOptions,
        cancellation: CancellationToken,
    ) -> (r: RetrievalExecution)
        ensures
            r.consistency == Some(consistency),
            r.options == options,
            r.cancellation == cancellation,
    {
        RetrievalExecution { consistency: Some(consistency), options, cancellation }
    }
}

} // verus!
