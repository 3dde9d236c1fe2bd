//! Task-shaped context: what to look for, what to keep and what to say of it.

pub mod candidates;
pub mod delivery;
pub mod diagnostics;
pub mod diff_evidence;
pub mod execution;
pub mod facets;
pub mod finalize;
pub mod gathering;
pub mod path_score;
pub mod pipeline;
pub mod plan;
pub mod policy;
pub mod response;
pub mod scope;
pub mod scope_helpers;
pub mod validation;
