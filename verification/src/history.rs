//! Symbol-aware evidence from immutable revisions.

pub mod batch;
pub mod compare;
pub mod diff;
pub mod execution;
pub mod fit;
pub mod fit_diff;
pub mod paging;
pub mod request;
pub mod revision;
pub mod types;
