//! Sizing whole responses against the ceiling of a call.

use crate::accounting::{
    accounting_failure, budget_fault, counts, finalized, lemma_settles_alike, said_by, with_counts,
    Measurement, ReceiptResourceDecoration, ResponseAccountant, Sizing,
};
use crate::context::finalize::exceeded_error;
use crate::error::Error;
use crate::model::ResponseMeta;
use vstd::prelude::*;

verus! {

/// Whether a text may be said to have a number of tokens.
pub open spec fn counted_as<C: Fn(&str) -> usize>(count: C, text: Seq<char>, tokens: usize) -> bool {
    exists|part: &str| (#[trigger] call_ensures(count, (part,), tokens)) && part@ == text
}

/// Whether the tokens of every text can be counted.
pub open spec fn counts_all<C: Fn(&str) -> usize>(count: C) -> bool {
    forall|part: &str| call_requires(count, (part,))
}

/// Counts the tokens of a text.
pub(crate) fn count_tokens<C: Fn(&str) -> usize>(count: &C, text: &str) -> (r: usize)
    requires
        counts_all(*count),
    ensures
        counted_as(*count, text@, r),
{
    count(text)
}

/// A response that holds metadata with its token counts.
pub trait Metered: Sized {
    /// The metadata.
    spec fn held_meta(&self) -> ResponseMeta;

    /// The metadata.
    fn meta_ref(&self) -> (r: &ResponseMeta)
        ensures
            *r == self.held_meta(),
    ;
}

/// What `measure` may say of the size of a response with other metadata.
pub open spec fn sizing_of<R, S: Fn(&R, &ResponseMeta, ReceiptResourceDecoration) -> Measurement>(
    measure: S,
    response: R,
) -> Sizing {
    |meta: ResponseMeta, decoration: ReceiptResourceDecoration, outcome: Measurement|
        call_ensures(measure, (&response, &meta, decoration), outcome)
}

/// Whether settling the counts of a response may give `outcome`: its own
/// metadata with the counts that measuring reaches, or why there are none.
pub open spec fn settles_at<
    R: Metered,
    S: Fn(&R, &ResponseMeta, ReceiptResourceDecoration) -> Measurement,
>(
    measure: S,
    response: R,
    decoration: ReceiptResourceDecoration,
    outcome: Result<ResponseMeta, Error>,
) -> bool {
    match outcome {
        Ok(meta) => finalized(
            sizing_of(measure, response),
            response.held_meta(),
            decoration,
            meta,
        ),
        Err(e) => accounting_failure(
            sizing_of(measure, response),
            response.held_meta(),
            decoration,
            e,
        ),
    }
}

/// Whether settling the counts of a response that names no receipt may give
/// `outcome`.
pub open spec fn settle_says<
    R: Metered,
    S: Fn(&R, &ResponseMeta, ReceiptResourceDecoration) -> Measurement,
>(measure: S, response: R, outcome: Result<ResponseMeta, Error>) -> bool {
    settles_at(measure, response, ReceiptResourceDecoration::Omit, outcome)
}

/// Whether `outcome` may come of settling a response that reads as `view`.
pub open spec fn settled_as<
    R: View + Metered,
    S: Fn(&R, &ResponseMeta, ReceiptResourceDecoration) -> Measurement,
>(measure: S, view: R::V, outcome: Result<ResponseMeta, Error>) -> bool {
    exists|response: R|
        #[trigger] settle_says(measure, response, outcome) && response@ == view
}

/// Whether every response can be measured.
pub open spec fn settles_all<R, S: Fn(&R, &ResponseMeta, ReceiptResourceDecoration) -> Measurement>(
    measure: S,
) -> bool {
    forall|response: &R, meta: &ResponseMeta, decoration: ReceiptResourceDecoration|
        call_requires(measure, (response, meta, decoration))
}

spec fn can_measure<R, S: Fn(&R, &ResponseMeta, ReceiptResourceDecoration) -> Measurement>(
    measure: &S,
) -> bool {
    settles_all::<R, S>(*measure)
}

spec fn size_told<R, S: Fn(&R, &ResponseMeta, ReceiptResourceDecoration) -> Measurement>(
    measure: &S,
    response: &R,
    meta: &ResponseMeta,
    decoration: ReceiptResourceDecoration,
    said: Measurement,
) -> bool {
    call_ensures(*measure, (response, meta, decoration), said)
}

/// The metadata of a response with settled counts.
pub fn settle_meta_for<
    R: Metered,
    S: Fn(&R, &ResponseMeta, ReceiptResourceDecoration) -> Measurement,
>(response: &R, decoration: ReceiptResourceDecoration, measure: &S) -> (r: Result<
    ResponseMeta,
    Error,
>)
    requires
        settles_all::<R, S>(*measure),
    ensures
        settles_at(*measure, *response, decoration, r),
{
    let sizing = |meta: &ResponseMeta, naming: ReceiptResourceDecoration| -> (said: Measurement)
        requires
            can_measure::<R, S>(measure),
        ensures
            size_told(measure, response, meta, naming, said),
        { measure(response, meta, naming) };
    let accountant = ResponseAccountant::new(sizing);
    let mut meta = response.meta_ref().duplicate();
    proof {
        lemma_settles_alike(
            said_by(accountant.measure),
            sizing_of(*measure, *response),
            meta,
            decoration,
        );
    }
    match accountant.finalize_accounting(&mut meta, decoration) {
        Ok(_) => Ok(meta),
        Err(e) => Err(e),
    }
}

/// The metadata of a response that names no receipt, with settled counts.
pub fn settle_meta<
    R: Metered,
    S: Fn(&R, &ResponseMeta, ReceiptResourceDecoration) -> Measurement,
>(response: &R, measure: &S) -> (r: Result<ResponseMeta, Error>)
    requires
        settles_all::<R, S>(*measure),
    ensures
        settle_says(*measure, *response, r),
{
    settle_meta_for(response, ReceiptResourceDecoration::Omit, measure)
}

/// Whether a response may be said to take a number of tokens, or measuring it to
/// fail.
pub open spec fn takes_tokens<
    R: View + Metered,
    S: Fn(&R, &ResponseMeta, ReceiptResourceDecoration) -> Measurement,
>(
    measure: S,
    view: R::V,
    outcome: Result<usize, Error>,
) -> bool {
    match outcome {
        Ok(tokens) => exists|meta: ResponseMeta|
            #[trigger] settled_as::<R, S>(measure, view, Ok(meta)) && tokens
                == meta.total_response_tokens,
        Err(e) => settled_as::<R, S>(measure, view, Err(e)),
    }
}

/// Whether a response may be said to fit a ceiling.
pub open spec fn fits_ceiling<
    R: View + Metered,
    S: Fn(&R, &ResponseMeta, ReceiptResourceDecoration) -> Measurement,
>(
    measure: S,
    view: R::V,
    max: usize,
) -> bool {
    exists|tokens: usize| tokens <= max && #[trigger] takes_tokens::<R, S>(measure, view, Ok(tokens))
}

/// Whether a response may be said to be above a ceiling.
pub open spec fn above_ceiling<
    R: View + Metered,
    S: Fn(&R, &ResponseMeta, ReceiptResourceDecoration) -> Measurement,
>(
    measure: S,
    view: R::V,
    max: usize,
) -> bool {
    exists|tokens: usize| tokens > max && #[trigger] takes_tokens::<R, S>(measure, view, Ok(tokens))
}

/// Whether an error tells what a response would have needed.
pub open spec fn told_needs<
    R: View + Metered,
    S: Fn(&R, &ResponseMeta, ReceiptResourceDecoration) -> Measurement,
>(
    measure: S,
    view: R::V,
    max: usize,
    error: Error,
) -> bool {
    exists|meta: ResponseMeta|
        #[trigger] settled_as::<R, S>(measure, view, Ok(meta)) && error@ == budget_fault(
            meta,
            max,
            meta.total_response_tokens,
        )
}

/// The tokens of a response.
pub fn response_tokens<
    R: View + Metered,
    S: Fn(&R, &ResponseMeta, ReceiptResourceDecoration) -> Measurement,
>(
    response: &R,
    measure: &S,
) -> (r: Result<usize, Error>)
    requires
        settles_all::<R, S>(*measure),
    ensures
        takes_tokens::<R, S>(*measure, response@, r),
{
    match settle_meta(response, measure) {
        Ok(meta) => {
            assert(settled_as::<R, S>(*measure, response@, Ok(meta)));
            Ok(meta.total_response_tokens)
        },
        Err(e) => Err(e),
    }
}

/// Whether a response fits the ceiling of a call. Without one everything fits.
pub fn response_fits<
    R: View + Metered,
    S: Fn(&R, &ResponseMeta, ReceiptResourceDecoration) -> Measurement,
>(
    response: &R,
    max: Option<usize>,
    measure: &S,
) -> (r: Result<bool, Error>)
    requires
        settles_all::<R, S>(*measure),
    ensures
        match (max, r) {
            (None, Ok(answer)) => answer,
            (None, Err(_)) => false,
            (Some(limit), Ok(answer)) => if answer {
                fits_ceiling::<R, S>(*measure, response@, limit)
            } else {
                above_ceiling::<R, S>(*measure, response@, limit)
            },
            (Some(_), Err(e)) => settled_as::<R, S>(*measure, response@, Err(e)),
        },
{
    match max {
        None => Ok(true),
        Some(limit) => match response_tokens(response, measure) {
            Ok(tokens) => Ok(tokens <= limit),
            Err(e) => Err(e),
        },
    }
}

/// The error of a response that does not fit.
pub fn response_budget_error<
    R: View + Metered,
    S: Fn(&R, &ResponseMeta, ReceiptResourceDecoration) -> Measurement,
>(
    response: &R,
    max: usize,
    measure: &S,
) -> (r: Result<Error, Error>)
    requires
        settles_all::<R, S>(*measure),
    ensures
        match r {
            Ok(error) => told_needs::<R, S>(*measure, response@, max, error),
            Err(e) => settled_as::<R, S>(*measure, response@, Err(e)),
        },
{
    match settle_meta(response, measure) {
        Ok(meta) => {
            assert(settled_as::<R, S>(*measure, response@, Ok(meta)));
            let minimum: usize = meta.total_response_tokens;
            Ok(exceeded_error(&meta, max, minimum))
        },
        Err(e) => Err(e),
    }
}

/// Whether `error` is why a response has no answer within a ceiling: measuring
/// failed, or it is above the ceiling and that is told.
pub open spec fn unanswered<
    R: View + Metered,
    S: Fn(&R, &ResponseMeta, ReceiptResourceDecoration) -> Measurement,
>(
    measure: S,
    view: R::V,
    max: Option<usize>,
    error: Error,
) -> bool {
    ||| settled_as::<R, S>(measure, view, Err(error))
    ||| {
        &&& max is Some
        &&& exists|meta: ResponseMeta|
            #[trigger] settled_as::<R, S>(measure, view, Ok(meta)) && meta.total_response_tokens
                > max->0 && error@ == budget_fault(meta, max->0, meta.total_response_tokens)
    }
}

/// The metadata of a response with settled counts, where they are within the
/// ceiling of the call.
pub fn bounded_meta<
    R: View + Metered,
    S: Fn(&R, &ResponseMeta, ReceiptResourceDecoration) -> Measurement,
>(
    response: &R,
    max: Option<usize>,
    measure: &S,
) -> (r: Result<ResponseMeta, Error>)
    requires
        settles_all::<R, S>(*measure),
    ensures
        match r {
            Ok(meta) => settled_as::<R, S>(*measure, response@, Ok(meta)) && meta == with_counts(
                response.held_meta(),
                counts(meta),
            ) && (max matches Some(limit) ==> meta.total_response_tokens <= limit),
            Err(e) => unanswered::<R, S>(*measure, response@, max, e),
        },
{
    match settle_meta(response, measure) {
        Ok(meta) => {
            assert(settled_as::<R, S>(*measure, response@, Ok(meta)));
            if let Some(limit) = max {
                if meta.total_response_tokens > limit {
                    let minimum: usize = meta.total_response_tokens;
                    return Err(exceeded_error(&meta, limit, minimum));
                }
            }
            Ok(meta)
        },
        Err(e) => Err(e),
    }
}

} // verus!
