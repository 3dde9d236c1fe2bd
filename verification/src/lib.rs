//! Request parsing, paging, budgeting and change classification for a
//! repository retrieval service.

pub mod accounting;
pub mod cancellation;
pub mod candidate_scan;
pub mod change_receipt;
pub mod context;
pub mod coverage;
pub mod cursor;
pub mod error;
pub mod execution_options;
pub mod executor;
pub mod files;
pub mod files_answer;
pub mod files_page;
pub mod files_paging;
pub mod fitting;
pub mod handoff;
pub mod history;
pub mod json;
pub mod laws;
pub mod lists;
pub mod model;
pub mod ordered;
pub mod profile;
pub mod receipt_resource;
pub mod response;
pub mod services;
pub mod text;
pub mod validation;
