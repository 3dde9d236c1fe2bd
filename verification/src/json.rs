//! Queries, summaries and comparisons of JSON documents.

pub mod collapsed;
pub mod compare;
pub mod completeness;
pub mod cursor;
pub mod dispatch;
pub mod execution;
pub mod fit;
pub mod infer;
pub mod jmespath;
pub mod key_page;
pub mod keys;
pub mod numeric;
pub mod options;
pub mod pointer;
pub mod project;
pub mod projection;
pub mod request;
pub mod response;
pub mod schema;
pub mod schema_page;
pub mod selection;
pub mod source;
pub mod value;
pub mod view;
