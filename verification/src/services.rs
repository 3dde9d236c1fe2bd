//! The operations of the retrieval service that decide over plain values.

use vstd::prelude::*;

verus! {

/// The retrieval service.
#[derive(Debug, Clone, Copy, PartialEq, Eq, Structural)]
pub struct Services;

} // verus!
