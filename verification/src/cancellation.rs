//! Cooperative cancellation of a running operation.

use crate::error::Error;
use tokio_util::sync::CancellationToken;
use vstd::prelude::*;

verus! {

/// The cancellation token of `tokio_util`, carried through unread.
#[verifier::external_type_specification]
#[verifier::external_body]
pub struct ExCancellationToken(CancellationToken);

/// `CancellationToken::is_cancelled` tells whether the token was cancelled by
/// the moment of the call. Another thread may cancel it at any time, so
/// nothing is claimed of the answer.
pub assume_specification[ CancellationToken::is_cancelled ](token: &CancellationToken) -> bool
;

/// Whether a token, asked whether it was cancelled, may have given an answer.
pub open spec fn answered(token: CancellationToken, cancelled: bool) -> bool {
    call_ensures(CancellationToken::is_cancelled, (&token,), cancelled)
}

/// Whether an error says that an operation was stopped, on the word of its token.
pub open spec fn stopped(e: Error, token: CancellationToken) -> bool {
    e is Cancelled && answered(token, true)
}

/// Whether a result may come of an operation that asks its token before anything else:
/// either it was stopped, or the token said that it was not cancelled.
pub open spec fn asked_first<T>(r: Result<T, Error>, token: CancellationToken) -> bool {
    answered(token, false) || (r is Err && stopped(r->Err_0, token))
}

fn ask<F: Fn(&CancellationToken) -> bool>(cancelled: F, token: &CancellationToken) -> (r: bool)
    requires
        call_requires(cancelled, (token,)),
    ensures
        call_ensures(cancelled, (token,), r),
{
    cancelled(token)
}

/// Stops an operation whose token has been cancelled.
pub fn check_cancelled(cancellation: &CancellationToken) -> (r: Result<(), Error>)
    ensures
        match r {
            Ok(_) => answered(*cancellation, false),
            Err(e) => stopped(e, *cancellation),
        },
{
    cancelled_outcome(ask(CancellationToken::is_cancelled, cancellation))
}

/// What an operation does on learning whether its token was cancelled.
pub fn cancelled_outcome(cancelled: bool) -> (r: Result<(), Error>)
    ensures
        r is Err <==> cancelled,
        r matches Err(e) ==> e is Cancelled,
{
    if cancelled {
        Err(Error::Cancelled)
    } else {
        Ok(())
    }
}

} // verus!
