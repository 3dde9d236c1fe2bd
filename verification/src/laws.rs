//! What the operations promise, stated over what they are given and what they
//! return.

pub mod answers;
pub mod assembly;
pub mod budgets;
pub mod candidates;
pub mod changes;
pub mod comparison;
pub mod constraints;
pub mod coverage;
pub mod delivery;
pub mod details;
pub mod documents;
pub mod evidence;
pub mod extensions;
pub mod focus;
pub mod handover;
pub mod histories;
pub mod inputs;
pub mod languages;
pub mod listing;
pub mod matches;
pub mod outcomes;
pub mod pages;
pub mod phrases;
pub mod profiles;
pub mod queries;
pub mod receipts;
pub mod requests;
pub mod revisions;
pub mod routing;
pub mod scans;
pub mod scope;
pub mod semantics;
pub mod shapes;
pub mod types;
pub mod wording;
