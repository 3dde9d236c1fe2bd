//! The error values that the library's operations return.

use vstd::prelude::*;

verus! {

/// One request option that breaks a declared constraint.
#[derive(Debug)]
pub struct InputViolation {
    pub field: &'static str,
    pub reason: &'static str,
}

/// Token cost of a response that did not fit, split by part.
#[derive(Debug, Clone, Copy, PartialEq, Eq, Structural)]
pub struct ResponseBudgetBreakdown {
    pub mandatory_response_tokens: usize,
    pub source_tokens: usize,
    pub protocol_tokens: usize,
    pub path_and_metadata_tokens: usize,
    pub receipt_reserve_tokens: usize,
}

/// What an operation reports when it cannot answer.
#[derive(Debug)]
pub enum Error {
    InvalidInput { field: &'static str, reason: &'static str },
    RequestLimitExceeded { field: &'static str, requested: usize, limit: usize },
    InvalidInputConstraints { violations: Vec<InputViolation> },
    InputTooLong { field: &'static str, max_bytes: usize },
    LimitExceeded,
    OperationFailure(String),
    InvalidConfiguration(String),
    StaleCursor,
    Cancelled,
    RetrievalOverloaded,
    RetrievalQueueTimeout,
    AmbiguousSymbol { path: String, symbol: String },
    SymbolNotFound { path: String, symbol: String },
    InvalidJsonSelector {
        stage: &'static str,
        offset: usize,
        line: usize,
        column: usize,
        detail: String,
    },
    InvalidJson {
        syntax_category: &'static str,
        byte_offset: usize,
        line: usize,
        column: usize,
        reason: String,
    },
    ResponseBudgetExceeded {
        provided_max_response_tokens: usize,
        minimum_required_response_tokens: usize,
        retry_with_at_least: usize,
        breakdown: ResponseBudgetBreakdown,
    },
    ResponseAccountingInvariant(String),
}

/// What an [`InputViolation`] says.
pub struct ViolationView {
    pub field: Seq<char>,
    pub reason: Seq<char>,
}

/// What an [`Error`] says, with texts as sequences of characters.
pub enum Fault {
    InvalidInput { field: Seq<char>, reason: Seq<char> },
    RequestLimitExceeded { field: Seq<char>, requested: usize, limit: usize },
    InvalidInputConstraints { violations: Seq<ViolationView> },
    InputTooLong { field: Seq<char>, max_bytes: usize },
    LimitExceeded,
    OperationFailure(Seq<char>),
    InvalidConfiguration(Seq<char>),
    StaleCursor,
    Cancelled,
    RetrievalOverloaded,
    RetrievalQueueTimeout,
    AmbiguousSymbol { path: Seq<char>, symbol: Seq<char> },
    SymbolNotFound { path: Seq<char>, symbol: Seq<char> },
    InvalidJsonSelector {
        stage: Seq<char>,
        offset: usize,
        line: usize,
        column: usize,
        detail: Seq<char>,
    },
    InvalidJson {
        syntax_category: Seq<char>,
        byte_offset: usize,
        line: usize,
        column: usize,
        reason: Seq<char>,
    },
    ResponseBudgetExceeded {
        provided_max_response_tokens: usize,
        minimum_required_response_tokens: usize,
        retry_with_at_least: usize,
        breakdown: ResponseBudgetBreakdown,
    },
    ResponseAccountingInvariant(Seq<char>),
}

impl View for InputViolation {
    type V = ViolationView;

    open spec fn view(&self) -> ViolationView {
        ViolationView { field: self.field@, reason: self.reason@ }
    }
}

/// What a list of violations says.
pub open spec fn violation_views(list: Seq<InputViolation>) -> Seq<ViolationView> {
    Seq::new(list.len(), |i: int| list[i]@)
}

impl View for Error {
    type V = Fault;

    open spec fn view(&self) -> Fault {
        match *self {
            Error::InvalidInput { field, reason } => Fault::InvalidInput {
                field: field@,
                reason: reason@,
            },
            Error::RequestLimitExceeded {
                field,
                requested,
                limit,
            } => Fault::RequestLimitExceeded { field: field@, requested, limit },
            Error::InvalidInputConstraints { violations } => Fault::InvalidInputConstraints {
                violations: violation_views(violations@),
            },
            Error::InputTooLong { field, max_bytes } => Fault::InputTooLong {
                field: field@,
                max_bytes,
            },
            Error::LimitExceeded => Fault::LimitExceeded,
            Error::OperationFailure(message) => Fault::OperationFailure(message@),
            Error::InvalidConfiguration(message) => Fault::InvalidConfiguration(message@),
            Error::StaleCursor => Fault::StaleCursor,
            Error::Cancelled => Fault::Cancelled,
            Error::RetrievalOverloaded => Fault::RetrievalOverloaded,
            Error::RetrievalQueueTimeout => Fault::RetrievalQueueTimeout,
            Error::AmbiguousSymbol { path, symbol } => Fault::AmbiguousSymbol {
                path: path@,
                symbol: symbol@,
            },
            Error::SymbolNotFound { path, symbol } => Fault::SymbolNotFound {
                path: path@,
                symbol: symbol@,
            },
            Error::InvalidJsonSelector {
                stage,
                offset,
                line,
                column,
                detail,
            } => Fault::InvalidJsonSelector { stage: stage@, offset, line, column, detail: detail@ },
            Error::InvalidJson { syntax_category, byte_offset, line, column, reason } => {
                Fault::InvalidJson {
                    syntax_category: syntax_category@,
                    byte_offset,
                    line,
                    column,
                    reason: reason@,
                }
            },
            Error::ResponseBudgetExceeded {
                provided_max_response_tokens,
                minimum_required_response_tokens,
                retry_with_at_least,
                breakdown,
            } => Fault::ResponseBudgetExceeded {
                provided_max_response_tokens,
                minimum_required_response_tokens,
                retry_with_at_least,
                breakdown,
            },
            Error::ResponseAccountingInvariant(message) => Fault::ResponseAccountingInvariant(
                message@,
            ),
        }
    }
}

/// The first of two faults, where there is one.
pub open spec fn first_fault(a: Option<Fault>, b: Option<Fault>) -> Option<Fault> {
    if a is Some {
        a
    } else {
        b
    }
}

/// Whether a result is an error exactly when a fault is due, and that fault.
pub open spec fn reports<T>(r: Result<T, Error>, due: Option<Fault>) -> bool {
    match r {
        Ok(_) => due is None,
        Err(e) => due == Some(e@),
    }
}

} // verus!
