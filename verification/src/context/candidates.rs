//! Gathering the candidates of a context request.

pub mod constraints;
pub mod draft;
pub mod focus;
pub mod graph;
pub mod lexical;
pub mod query;
pub mod ranked;
pub mod required;
pub mod retain;
pub mod workflow;
