//! How keys are ordered and how deep they are read.

use vstd::prelude::*;

verus! {

/// The deepest that keys can be asked for.
pub const MAX_JSON_DEPTH: usize = 64;

/// The order of listed keys.
#[derive(Debug, Clone, Copy, PartialEq, Eq, Structural)]
pub enum JsonKeyOrder {
    Pointer,
    DepthThenPointer,
}

/// How a request is carried out.
#[derive(Debug, Clone, Copy, PartialEq, Eq, Structural)]
pub struct JsonExecutionOptions {
    pub depth: Option<usize>,
    pub key_order: JsonKeyOrder,
}

impl JsonExecutionOptions {
    /// Keys at every depth, by pointer.
    pub fn standard() -> (r: JsonExecutionOptions)
        ensures
            r == (JsonExecutionOptions { depth: None, key_order: JsonKeyOrder::Pointer }),
    {
        JsonExecutionOptions { depth: None, key_order: JsonKeyOrder::Pointer }
    }

    /// Keys down to a depth, the shallow ones first.
    pub fn mcp(depth: Option<usize>) -> (r: JsonExecutionOptions)
        ensures
            r == (JsonExecutionOptions { depth, key_order: JsonKeyOrder::DepthThenPointer }),
    {
        JsonExecutionOptions { depth, key_order: JsonKeyOrder::DepthThenPointer }
    }

    /// How deep keys are read.
    pub fn depth(self) -> (r: Option<usize>)
        ensures
            r == self.depth,
    {
        self.depth
    }

    /// How keys are ordered.
    pub fn key_order(self) -> (r: JsonKeyOrder)
        ensures
            r == self.key_order,
    {
        self.key_order
    }
}

} // verus!
