//! Checks that every request text passes before an operation starts.

use crate::error::{first_fault, reports, Error, Fault};
use crate::text::{byte_len, chars_of, trim_bounds, trimmed};
use vstd::prelude::*;

verus! {

/// The limits that a deployment puts on request texts.
#[derive(Debug, Clone, Copy, PartialEq, Eq, Structural)]
pub struct InputLimits {
    pub max_path_bytes: usize,
    pub max_pattern_bytes: usize,
    pub max_query_bytes: usize,
    pub max_input_items: usize,
}

/// The fault of a text that is longer than its field takes.
pub open spec fn too_long(value: Seq<char>, field: Seq<char>, max_bytes: usize) -> Option<Fault> {
    if byte_len(value) > max_bytes {
        Some(Fault::InputTooLong { field, max_bytes })
    } else {
        None
    }
}

/// Whether a text holds nothing but white space.
pub open spec fn is_blank(value: Seq<char>) -> bool {
    trimmed(value).len() == 0
}

/// The fault of a text that holds nothing but white space.
pub open spec fn blank_fault(value: Seq<char>, field: Seq<char>, reason: Seq<char>) -> Option<
    Fault,
> {
    if is_blank(value) {
        Some(Fault::InvalidInput { field, reason })
    } else {
        None
    }
}

/// The fault of a list that is longer than its field takes.
pub open spec fn too_many(count: nat, field: Seq<char>, limit: usize) -> Option<Fault> {
    if count > limit {
        Some(Fault::RequestLimitExceeded { field, requested: count as usize, limit })
    } else {
        None
    }
}

/// The fault of the first item, from a position on, that has one.
pub open spec fn first_in<A>(items: Seq<A>, check: spec_fn(A) -> Option<Fault>, from: int) -> Option<
    Fault,
>
    decreases items.len() - from,
{
    if from < 0 || from >= items.len() {
        None
    } else {
        first_fault(check(items[from]), first_in(items, check, from + 1))
    }
}

/// The number of bytes of a text in UTF-8.
pub fn byte_size(value: &str) -> (r: usize)
    ensures
        r == byte_len(value@),
{
    value.as_bytes().len()
}

/// Whether a text holds nothing but white space.
pub fn blank(value: &str) -> (r: bool)
    ensures
        r == is_blank(value@),
{
    let chars = chars_of(value);
    let (from, to) = trim_bounds(&chars);
    from == to
}

/// Refuses a text that is longer than its field takes.
pub fn validate_input(value: &str, field: &'static str, max_bytes: usize) -> (r: Result<(), Error>)
    ensures
        reports(r, too_long(value@, field@, max_bytes)),
{
    if byte_size(value) > max_bytes {
        Err(Error::InputTooLong { field, max_bytes })
    } else {
        Ok(())
    }
}

/// Refuses a text that is there and longer than its field takes.
pub fn validate_optional_input(
    value: &Option<String>,
    field: &'static str,
    max_bytes: usize,
) -> (r: Result<(), Error>)
    ensures
        reports(
            r,
            match value {
                Some(text) => too_long(text@, field@, max_bytes),
                None => None,
            },
        ),
{
    match value {
        Some(text) => validate_input(text.as_str(), field, max_bytes),
        None => Ok(()),
    }
}

/// The first item of a list that was found bad elsewhere, and what is wrong
/// with it.
#[derive(Debug)]
pub struct BadItem {
    pub position: usize,
    pub error: Error,
}

/// The fault of a verdict.
pub open spec fn verdict_fault(verdict: Result<(), Error>) -> Option<Fault> {
    match verdict {
        Ok(_) => None,
        Err(e) => Some(e@),
    }
}

/// The fault of an item at a position.
pub open spec fn item_fault(bad: Option<BadItem>, position: int) -> Option<Fault> {
    match bad {
        Some(item) => if item.position == position {
            Some(item.error@)
        } else {
            None
        },
        None => None,
    }
}

/// Whether an item was found bad.
pub fn is_bad(bad: &Option<BadItem>, position: usize) -> (r: bool)
    ensures
        r == (item_fault(*bad, position as int) is Some),
{
    match bad {
        Some(item) => item.position == position,
        None => false,
    }
}

/// A sum that stops at the largest number.
pub open spec fn saturated(a: usize, b: nat) -> usize {
    if a + b > usize::MAX {
        usize::MAX
    } else {
        (a + b) as usize
    }
}

/// The bytes of the first `upto` texts, on top of some.
pub open spec fn total_bytes(start: usize, list: Seq<Seq<char>>, upto: int) -> usize
    decreases upto,
{
    if upto <= 0 || upto > list.len() {
        start
    } else {
        saturated(total_bytes(start, list, upto - 1), byte_len(list[upto - 1]))
    }
}

/// The fault of a number above its limit.
pub open spec fn above_limit(field: Seq<char>, requested: usize, limit: usize) -> Option<Fault> {
    if requested > limit {
        Some(Fault::RequestLimitExceeded { field, requested, limit })
    } else {
        None
    }
}

/// The fault of a number that is zero or above its limit.
pub open spec fn outside_limit(field: Seq<char>, requested: usize, limit: usize) -> Option<Fault> {
    if requested == 0 {
        Some(Fault::InvalidInput { field, reason: "must be greater than zero"@ })
    } else {
        above_limit(field, requested, limit)
    }
}

/// Refuses a number above its limit.
pub fn validate_request_limit(field: &'static str, requested: usize, limit: usize) -> (r: Result<
    (),
    Error,
>)
    ensures
        reports(r, above_limit(field@, requested, limit)),
{
    if requested > limit {
        Err(Error::RequestLimitExceeded { field, requested, limit })
    } else {
        Ok(())
    }
}

/// Refuses a number that is zero or above its limit.
pub fn validate_positive_request_limit(field: &'static str, requested: usize, limit: usize) -> (r:
    Result<(), Error>)
    ensures
        reports(r, outside_limit(field@, requested, limit)),
{
    if requested == 0 {
        Err(Error::InvalidInput { field, reason: "must be greater than zero" })
    } else {
        validate_request_limit(field, requested, limit)
    }
}

} // verus!
