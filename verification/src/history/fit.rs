//! Fitting the answer to a history request to the ceiling of a call.

use crate::accounting::{
    Measurement, PrefixSizing, ReceiptResourceDecoration, ResponseBudget, ServiceCallOptions,
};
use crate::error::{Error, Fault};
use crate::fitting::{
    above_ceiling, count_tokens, counted_as, counts_all, fits_ceiling, response_budget_error,
    response_fits, response_tokens, settled_as, settles_all, takes_tokens, told_needs,
};
use crate::history::diff::{
    bounds_of, char_boundaries, end_line, prefix_at, returned_end_line, HistoryText,
};
use crate::history::types::{HistoricalView, HistoryResponse, HistoryView};
use crate::model::ResponseMeta;
use crate::ordered::{first_of, views};
use crate::services::Services;
use crate::text::copy_text;
use vstd::prelude::*;

verus! {

/// A response with a shorter text.
pub open spec fn prefixed(view: HistoryView, symbolic: bool, prefix: Seq<char>, tokens: usize) ->
    HistoryView {
    let shorter = HistoryView {
        result_complete: false,
        meta: ResponseMeta { source_tokens: tokens, ..view.meta },
        ..view
    };
    if symbolic {
        HistoryView {
            symbol: match view.symbol {
                Some(symbol) => Some(
                    HistoricalView {
                        content: Some(prefix),
                        returned_end_line: end_line(symbol.target_start_line, prefix),
                        truncated: true,
                        ..symbol
                    },
                ),
                None => None,
            },
            ..shorter
        }
    } else {
        HistoryView { diff: Some(prefix), diff_truncated: true, ..shorter }
    }
}

/// Whether `out` is a response with the first `keep` characters of a text.
pub open spec fn text_kept<C: Fn(&str) -> usize>(
    count: C,
    view: HistoryView,
    symbolic: bool,
    text: Seq<char>,
    keep: int,
    out: HistoryView,
) -> bool {
    exists|tokens: usize|
        #[trigger] counted_as(count, text.take(keep), tokens) && out == prefixed(
            view,
            symbolic,
            text.take(keep),
            tokens,
        )
}

/// Whether a response with the first `keep` characters of a text may be said to
/// take a number of tokens, or measuring it to fail.
pub open spec fn text_takes<
    C: Fn(&str) -> usize,
    S: Fn(&HistoryResponse, &ResponseMeta, ReceiptResourceDecoration) -> Measurement,
>(
    count: C,
    measure: S,
    view: HistoryView,
    symbolic: bool,
    text: Seq<char>,
    keep: int,
    outcome: Result<usize, Error>,
) -> bool {
    exists|out: HistoryView|
        #[trigger] text_kept(count, view, symbolic, text, keep, out) && takes_tokens::<
            HistoryResponse,
            S,
        >(measure, out, outcome)
}

/// Whether a response with the first `keep` characters of a text may be said to
/// fit.
pub open spec fn text_fits<
    C: Fn(&str) -> usize,
    S: Fn(&HistoryResponse, &ResponseMeta, ReceiptResourceDecoration) -> Measurement,
>(
    count: C,
    measure: S,
    view: HistoryView,
    symbolic: bool,
    text: Seq<char>,
    keep: int,
    max: usize,
) -> bool {
    exists|tokens: usize|
        tokens <= max && #[trigger] text_takes(
            count,
            measure,
            view,
            symbolic,
            text,
            keep,
            Ok(tokens),
        )
}

/// Whether a response with the first `keep` characters of a text may be said not
/// to fit.
pub open spec fn text_exceeds<
    C: Fn(&str) -> usize,
    S: Fn(&HistoryResponse, &ResponseMeta, ReceiptResourceDecoration) -> Measurement,
>(
    count: C,
    measure: S,
    view: HistoryView,
    symbolic: bool,
    text: Seq<char>,
    keep: int,
    max: usize,
) -> bool {
    exists|tokens: usize|
        tokens > max && #[trigger] text_takes(
            count,
            measure,
            view,
            symbolic,
            text,
            keep,
            Ok(tokens),
        )
}

/// Whether a number of characters of a text is one that fits where one more does
/// not.
pub open spec fn text_chosen<
    C: Fn(&str) -> usize,
    S: Fn(&HistoryResponse, &ResponseMeta, ReceiptResourceDecoration) -> Measurement,
>(
    count: C,
    measure: S,
    view: HistoryView,
    symbolic: bool,
    text: Seq<char>,
    keep: int,
    max: usize,
) -> bool {
    &&& 0 <= keep <= text.len()
    &&& text_fits(count, measure, view, symbolic, text, keep, max)
    &&& keep < text.len() ==> text_exceeds(
        count,
        measure,
        view,
        symbolic,
        text,
        keep + 1,
        max,
    )
}

/// Whether no character of a text fits.
pub open spec fn no_text_fits<
    C: Fn(&str) -> usize,
    S: Fn(&HistoryResponse, &ResponseMeta, ReceiptResourceDecoration) -> Measurement,
>(
    count: C,
    measure: S,
    view: HistoryView,
    symbolic: bool,
    text: Seq<char>,
    max: usize,
) -> bool {
    ||| text_exceeds(count, measure, view, symbolic, text, 0, max)
    ||| text_chosen(count, measure, view, symbolic, text, 0, max)
}

/// Whether measuring a response with fewer characters failed.
pub open spec fn text_failed<
    C: Fn(&str) -> usize,
    S: Fn(&HistoryResponse, &ResponseMeta, ReceiptResourceDecoration) -> Measurement,
>(
    count: C,
    measure: S,
    view: HistoryView,
    symbolic: bool,
    text: Seq<char>,
    error: Error,
) -> bool {
    exists|keep: int|
        0 <= keep <= text.len() && #[trigger] text_takes(
            count,
            measure,
            view,
            symbolic,
            text,
            keep,
            Err(error),
        )
}

struct TextSizing<
    'a,
    C: Fn(&str) -> usize,
    S: Fn(&HistoryResponse, &ResponseMeta, ReceiptResourceDecoration) -> Measurement,
> {
    response: &'a HistoryResponse,
    text: HistoryText<'a>,
    boundaries: &'a Vec<usize>,
    count: &'a C,
    measure: &'a S,
}

impl<
    'a,
    C: Fn(&str) -> usize,
    S: Fn(&HistoryResponse, &ResponseMeta, ReceiptResourceDecoration) -> Measurement,
> PrefixSizing for TextSizing<'a, C, S> {
    closed spec fn ready(&self) -> bool {
        &&& counts_all(*self.count)
        &&& settles_all::<HistoryResponse, S>(*self.measure)
        &&& bounds_of(self.text.text(), self.boundaries@)
    }

    closed spec fn says(&self, keep: usize, outcome: Result<usize, Error>) -> bool {
        keep < self.boundaries@.len() ==> text_takes(
            *self.count,
            *self.measure,
            self.response@,
            self.text is Symbol,
            self.text.text(),
            keep as int,
            outcome,
        )
    }

    fn tokens(&self, keep: usize) -> (r: Result<usize, Error>) {
        if keep >= self.boundaries.len() {
            return Ok(0);
        }
        let candidate = Services::history_text_prefix_candidate(
            self.response,
            self.text,
            self.boundaries,
            keep,
            self.count,
        );
        response_tokens(&candidate, self.measure)
    }
}

/// A response with its first commits.
pub open spec fn commits_cut(view: HistoryView, keep: int) -> HistoryView {
    HistoryView { commits: first_of(view.commits, keep), result_complete: false, ..view }
}

struct CommitSizing<'a, S: Fn(&HistoryResponse, &ResponseMeta, ReceiptResourceDecoration) -> Measurement> {
    original: &'a HistoryResponse,
    measure: &'a S,
}

impl<
    'a,
    S: Fn(&HistoryResponse, &ResponseMeta, ReceiptResourceDecoration) -> Measurement,
> PrefixSizing for CommitSizing<
    'a,
    S,
> {
    closed spec fn ready(&self) -> bool {
        settles_all::<HistoryResponse, S>(*self.measure)
    }

    closed spec fn says(&self, keep: usize, outcome: Result<usize, Error>) -> bool {
        takes_tokens::<HistoryResponse, S>(
            *self.measure,
            commits_cut(self.original@, keep as int),
            outcome,
        )
    }

    fn tokens(&self, keep: usize) -> (r: Result<usize, Error>) {
        let mut candidate = self.original.duplicate();
        keep_commits(&mut candidate, keep);
        response_tokens(&candidate, self.measure)
    }
}

fn keep_commits(response: &mut HistoryResponse, keep: usize)
    ensures
        final(response)@ == commits_cut(old(response)@, keep as int),
{
    let ghost all = views(response.commits@);
    assert(all.len() == response.commits@.len());
    response.commits.truncate(keep);
    response.result_complete = false;
    assert(views(response.commits@) =~= first_of(all, keep as int));
}

/// Whether `out` is a response with as much of its text as fits.
pub open spec fn text_fitted<
    C: Fn(&str) -> usize,
    S: Fn(&HistoryResponse, &ResponseMeta, ReceiptResourceDecoration) -> Measurement,
>(
    count: C,
    measure: S,
    view: HistoryView,
    symbolic: bool,
    text: Seq<char>,
    max: usize,
    out: HistoryView,
) -> bool {
    exists|keep: int|
        {
            &&& keep > 0
            &&& text_chosen(count, measure, view, symbolic, text, keep, max)
            &&& #[trigger] text_kept(count, view, symbolic, text, keep, out)
        }
}

/// Whether `out` is a response with as many commits as fit.
pub open spec fn commits_fitted<
    S: Fn(&HistoryResponse, &ResponseMeta, ReceiptResourceDecoration) -> Measurement,
>(
    measure: S,
    view: HistoryView,
    max: usize,
    out: HistoryView,
) -> bool {
    exists|keep: int|
        {
            &&& 0 < keep <= view.commits.len()
            &&& out == #[trigger] commits_cut(view, keep)
            &&& fits_ceiling::<HistoryResponse, S>(measure, commits_cut(view, keep), max)
            &&& keep < view.commits.len() ==> above_ceiling::<HistoryResponse, S>(
                measure,
                commits_cut(view, keep + 1),
                max,
            )
        }
}

/// The text of a response that may be cut, and whether it is that of a symbol.
pub open spec fn cut_text(view: HistoryView) -> Option<(bool, Seq<char>)> {
    match view.symbol {
        Some(symbol) => match symbol.content {
            Some(content) => Some((true, content)),
            None => match view.diff {
                Some(diff) => Some((false, diff)),
                None => None,
            },
        },
        None => match view.diff {
            Some(diff) => Some((false, diff)),
            None => None,
        },
    }
}

/// Whether `out` is a response fitted to a ceiling: the response itself where it
/// fits, else with as much of its text, or as many of its commits, as fit.
pub open spec fn history_fitted<
    C: Fn(&str) -> usize,
    S: Fn(&HistoryResponse, &ResponseMeta, ReceiptResourceDecoration) -> Measurement,
>(count: C, measure: S, view: HistoryView, max: Option<usize>, out: HistoryView) -> bool {
    match max {
        None => out == view,
        Some(max) => {
            ||| out == view && fits_ceiling::<HistoryResponse, S>(measure, view, max)
            ||| {
                &&& above_ceiling::<HistoryResponse, S>(measure, view, max)
                &&& match cut_text(view) {
                    Some((symbolic, text)) => text_fitted(
                        count,
                        measure,
                        view,
                        symbolic,
                        text,
                        max,
                        out,
                    ),
                    None => commits_fitted(measure, view, max, out),
                }
            }
        },
    }
}

/// The least of a text that is told: its first character, where it has one.
pub open spec fn least_text(text: Seq<char>) -> int {
    if text.len() > 0 {
        1
    } else {
        0
    }
}

/// Whether an error tells what a response with one character of its text would
/// have needed.
pub open spec fn text_needs_told<
    C: Fn(&str) -> usize,
    S: Fn(&HistoryResponse, &ResponseMeta, ReceiptResourceDecoration) -> Measurement,
>(
    count: C,
    measure: S,
    view: HistoryView,
    symbolic: bool,
    text: Seq<char>,
    max: usize,
    error: Error,
) -> bool {
    exists|minimum: HistoryView|
        #[trigger] text_kept(count, view, symbolic, text, least_text(text), minimum) && (told_needs::<
            HistoryResponse,
            S,
        >(measure, minimum, max, error) || settled_as::<HistoryResponse, S>(
            measure,
            minimum,
            Err(error),
        ))
}

/// The least that is told of a response with commits.
pub open spec fn least_commits(view: HistoryView) -> HistoryView {
    HistoryView {
        commits: first_of(view.commits, 1),
        result_complete: if view.commits.len() > 1 {
            false
        } else {
            view.result_complete
        },
        ..view
    }
}

/// Whether `error` is why a response that is above a ceiling was not fitted: it
/// could not be measured, or not even its least form fits.
pub open spec fn history_unfitted<
    C: Fn(&str) -> usize,
    S: Fn(&HistoryResponse, &ResponseMeta, ReceiptResourceDecoration) -> Measurement,
>(count: C, measure: S, view: HistoryView, max: usize, error: Error) -> bool {
    ||| settled_as::<HistoryResponse, S>(measure, view, Err(error))
    ||| {
        &&& above_ceiling::<HistoryResponse, S>(measure, view, max)
        &&& match cut_text(view) {
            Some((symbolic, text)) => {
                ||| text_failed(count, measure, view, symbolic, text, error)
                ||| {
                    &&& no_text_fits(count, measure, view, symbolic, text, max)
                    &&& text_needs_told(count, measure, view, symbolic, text, max, error)
                }
            },
            None => if view.commits.len() > 0 {
                commits_unfitted(measure, view, max, error)
            } else {
                told_needs::<HistoryResponse, S>(measure, view, max, error)
            },
        }
    }
}

fn largest_commits<
    S: Fn(&HistoryResponse, &ResponseMeta, ReceiptResourceDecoration) -> Measurement,
>(
    original: &HistoryResponse,
    total: usize,
    max: usize,
    measure: &S,
) -> (r: Result<Option<usize>, Error>)
    requires
        settles_all::<HistoryResponse, S>(*measure),
    ensures
        match r {
            Ok(Some(keep)) => {
                &&& keep <= total
                &&& fits_ceiling::<HistoryResponse, S>(
                    *measure,
                    commits_cut(original@, keep as int),
                    max,
                )
                &&& keep < total ==> above_ceiling::<HistoryResponse, S>(
                    *measure,
                    commits_cut(original@, keep + 1),
                    max,
                )
            },
            Ok(None) => above_ceiling::<HistoryResponse, S>(
                *measure,
                commits_cut(original@, 0),
                max,
            ),
            Err(e) => exists|keep: int|
                0 <= keep <= total && takes_tokens::<HistoryResponse, S>(
                    *measure,
                    #[trigger] commits_cut(original@, keep),
                    Err(e),
                ),
        },
{
    let sizing = CommitSizing { original, measure };
    let kept = ResponseBudget::new(max).largest_fitting_prefix(total, &sizing);
    let ghost view = original@;
    proof {
        if kept is Err {
            let e = kept->Err_0;
            let keep = choose|keep: usize|
                keep <= total && #[trigger] sizing.says(keep, Err::<usize, Error>(e));
            assert(takes_tokens::<HistoryResponse, S>(
                *measure,
                commits_cut(view, keep as int),
                Err(e),
            ));
        } else if let Ok(Some(keep)) = kept {
            let tokens = choose|tokens: usize|
                tokens <= max && #[trigger] sizing.says(keep, Ok(tokens));
            assert(takes_tokens::<HistoryResponse, S>(
                *measure,
                commits_cut(view, keep as int),
                Ok(tokens),
            ));
            if keep < total {
                let more = choose|more: usize|
                    more > max && #[trigger] sizing.says((keep + 1) as usize, Ok(more));
                assert(takes_tokens::<HistoryResponse, S>(
                    *measure,
                    commits_cut(view, keep + 1),
                    Ok(more),
                ));
            }
        } else {
            let tokens = choose|tokens: usize| tokens > max && #[trigger] sizing.says(0, Ok(tokens));
            assert(takes_tokens::<HistoryResponse, S>(*measure, commits_cut(view, 0), Ok(tokens)));
        }
    }
    kept
}

/// Whether `error` is why not even one commit of a response fits.
pub open spec fn commits_unfitted<
    S: Fn(&HistoryResponse, &ResponseMeta, ReceiptResourceDecoration) -> Measurement,
>(
    measure: S,
    view: HistoryView,
    max: usize,
    error: Error,
) -> bool {
    ||| exists|keep: int|
        0 <= keep <= view.commits.len() && takes_tokens::<HistoryResponse, S>(
            measure,
            #[trigger] commits_cut(view, keep),
            Err(error),
        )
    ||| {
        &&& above_ceiling::<HistoryResponse, S>(measure, commits_cut(view, 0), max)
            || above_ceiling::<HistoryResponse, S>(measure, commits_cut(view, 1), max)
        &&& told_needs::<HistoryResponse, S>(measure, least_commits(view), max, error)
            || settled_as::<HistoryResponse, S>(measure, least_commits(view), Err(error))
    }
}

fn fit_commits<S: Fn(&HistoryResponse, &ResponseMeta, ReceiptResourceDecoration) -> Measurement>(
    response: &mut HistoryResponse,
    max: usize,
    measure: &S,
) -> (r: Result<(), Error>)
    requires
        settles_all::<HistoryResponse, S>(*measure),
        old(response)@.commits.len() > 0,
    ensures
        match r {
            Ok(_) => commits_fitted(*measure, old(response)@, max, final(response)@),
            Err(error) => *final(response) == *old(response) && commits_unfitted(
                *measure,
                old(response)@,
                max,
                error,
            ),
        },
{
    let ghost view = response@;
    let total: usize = response.commits.len();
    assert(view.commits.len() == total);
    let kept = match largest_commits(&*response, total, max, measure) {
        Ok(kept) => kept,
        Err(e) => {
            return Err(e);
        },
    };
    if let Some(keep) = kept {
        if keep > 0 {
            keep_commits(response, keep);
            assert(response@ == commits_cut(view, keep as int));
            return Ok(());
        }
    }
    let mut least = response.duplicate();
    let complete = least.result_complete;
    keep_commits(&mut least, 1);
    if total <= 1 {
        least.result_complete = complete;
    }
    assert(least@ == least_commits(view));
    match response_budget_error(&least, max, measure) {
        Ok(error) => Err(error),
        Err(e) => Err(e),
    }
}

fn fit_text<
    C: Fn(&str) -> usize,
    S: Fn(&HistoryResponse, &ResponseMeta, ReceiptResourceDecoration) -> Measurement,
>(
    response: &mut HistoryResponse,
    text: HistoryText<'_>,
    options: ServiceCallOptions,
    max: usize,
    count: &C,
    measure: &S,
) -> (r: Result<(), Error>)
    requires
        counts_all(*count),
        settles_all::<HistoryResponse, S>(*measure),
        options.max_response_tokens == Some(max),
    ensures
        match r {
            Ok(_) => text_fitted(
                *count,
                *measure,
                old(response)@,
                text is Symbol,
                text.text(),
                max,
                final(response)@,
            ),
            Err(error) => {
                &&& *final(response) == *old(response)
                &&& {
                    ||| text_failed(
                        *count,
                        *measure,
                        old(response)@,
                        text is Symbol,
                        text.text(),
                        error,
                    )
                    ||| {
                        &&& no_text_fits(
                            *count,
                            *measure,
                            old(response)@,
                            text is Symbol,
                            text.text(),
                            max,
                        )
                        &&& text_needs_told(
                            *count,
                            *measure,
                            old(response)@,
                            text is Symbol,
                            text.text(),
                            max,
                            error,
                        )
                    }
                }
            },
        },
{
    let boundaries = char_boundaries(text.content());
    let least: usize = if boundaries.len() > 1 {
        1
    } else {
        0
    };
    let minimum = Services::history_text_prefix_candidate(
        &*response,
        text,
        &boundaries,
        least,
        count,
    );
    assert(least == least_text(text.text()));
    match Services::fit_history_text_prefix(&*response, text, &boundaries, options, count, measure) {
        Ok(Some(candidate)) => {
            *response = candidate;
            return Ok(());
        },
        Ok(None) => {},
        Err(e) => {
            return Err(e);
        },
    }
    match response_budget_error(&minimum, max, measure) {
        Ok(error) => Err(error),
        Err(e) => Err(e),
    }
}

impl Services {
    /// A response with the first `keep` characters of a text.
    pub fn history_text_prefix_candidate<C: Fn(&str) -> usize>(
        response: &HistoryResponse,
        text: HistoryText<'_>,
        boundaries: &Vec<usize>,
        keep: usize,
        count: &C,
    ) -> (r: HistoryResponse)
        requires
            counts_all(*count),
            bounds_of(text.text(), boundaries@),
            keep < boundaries.len(),
        ensures
            text_kept(*count, response@, text is Symbol, text.text(), keep as int, r@),
    {
        let prefix = prefix_at(text.content(), boundaries, keep);
        let mut candidate = response.duplicate();
        let source_tokens: usize = count_tokens(count, prefix.as_str());
        candidate.meta.source_tokens = source_tokens;
        candidate.result_complete = false;
        match text {
            HistoryText::Diff(_) => {
                candidate.diff = Some(prefix);
                candidate.diff_truncated = true;
            },
            HistoryText::Symbol(_) => {
                let mut symbol = None;
                std::mem::swap(&mut symbol, &mut candidate.symbol);
                if let Some(mut symbol) = symbol {
                    symbol.returned_end_line = returned_end_line(
                        symbol.target_start_line,
                        prefix.as_str(),
                    );
                    symbol.content = Some(prefix);
                    symbol.truncated = true;
                    candidate.symbol = Some(symbol);
                }
            },
        }
        assert(candidate@ == prefixed(
            response@,
            text is Symbol,
            text.text().take(keep as int),
            source_tokens,
        ));
        candidate
    }

    /// A response with as much of a text as fits, where a character of it does.
    pub fn fit_history_text_prefix<
        C: Fn(&str) -> usize,
        S: Fn(&HistoryResponse, &ResponseMeta, ReceiptResourceDecoration) -> Measurement,
    >(
        response: &HistoryResponse,
        text: HistoryText<'_>,
        boundaries: &Vec<usize>,
        options: ServiceCallOptions,
        count: &C,
        measure: &S,
    ) -> (r: Result<Option<HistoryResponse>, Error>)
        requires
            counts_all(*count),
            settles_all::<HistoryResponse, S>(*measure),
            bounds_of(text.text(), boundaries@),
        ensures
            match (options.max_response_tokens, r) {
                (None, Err(e)) => e@ == Fault::InvalidConfiguration(
                    "fitting requires a response token limit"@,
                ),
                (None, Ok(_)) => false,
                (Some(max), Ok(Some(out))) => text_fitted(
                    *count,
                    *measure,
                    response@,
                    text is Symbol,
                    text.text(),
                    max,
                    out@,
                ),
                (Some(max), Ok(None)) => no_text_fits(
                    *count,
                    *measure,
                    response@,
                    text is Symbol,
                    text.text(),
                    max,
                ),
                (Some(_), Err(e)) => text_failed(
                    *count,
                    *measure,
                    response@,
                    text is Symbol,
                    text.text(),
                    e,
                ),
            },
    {
        let max = match options.max_response_tokens {
            Some(max) => max,
            None => {
                return Err(
                    Error::InvalidConfiguration(
                        copy_text("fitting requires a response token limit"),
                    ),
                );
            },
        };
        let sizing = TextSizing { response, text, boundaries, count, measure };
        let items: usize = boundaries.len() - 1;
        let kept = ResponseBudget::new(max).largest_fitting_prefix(items, &sizing);
        let ghost view = response@;
        let ghost symbolic = text is Symbol;
        let ghost whole = text.text();
        proof {
            if let Ok(Some(keep)) = kept {
                let tokens = choose|tokens: usize|
                    tokens <= max && #[trigger] sizing.says(keep, Ok(tokens));
                assert(text_takes(
                    *count,
                    *measure,
                    view,
                    symbolic,
                    whole,
                    keep as int,
                    Ok(tokens),
                ));
                if keep < items {
                    let more = choose|more: usize|
                        more > max && #[trigger] sizing.says((keep + 1) as usize, Ok(more));
                    assert(text_takes(
                        *count,
                        *measure,
                        view,
                        symbolic,
                        whole,
                        keep + 1,
                        Ok(more),
                    ));
                }
                assert(text_chosen(*count, *measure, view, symbolic, whole, keep as int, max));
            }
            if let Ok(None) = kept {
                let tokens = choose|tokens: usize|
                    tokens > max && #[trigger] sizing.says(0, Ok(tokens));
                assert(text_takes(*count, *measure, view, symbolic, whole, 0, Ok(tokens)));
            }
            if kept is Err {
                let e = kept->Err_0;
                let keep = choose|keep: usize|
                    keep <= items && #[trigger] sizing.says(keep, Err::<usize, Error>(e));
                assert(text_takes(
                    *count,
                    *measure,
                    view,
                    symbolic,
                    whole,
                    keep as int,
                    Err(e),
                ));
            }
        }
        match kept {
            Ok(Some(keep)) => {
                if keep > 0 {
                    let out = Services::history_text_prefix_candidate(
                        response,
                        text,
                        boundaries,
                        keep,
                        count,
                    );
                    assert(text_kept(*count, view, symbolic, whole, keep as int, out@));
                    Ok(Some(out))
                } else {
                    Ok(None)
                }
            },
            Ok(None) => Ok(None),
            Err(e) => Err(e),
        }
    }

    /// Fits a response to the ceiling of the call.
    pub fn fit_history_response<
        C: Fn(&str) -> usize,
        S: Fn(&HistoryResponse, &ResponseMeta, ReceiptResourceDecoration) -> Measurement,
    >(
        response: &mut HistoryResponse,
        options: ServiceCallOptions,
        count: &C,
        measure: &S,
    ) -> (r: Result<(), Error>)
        requires
            counts_all(*count),
            settles_all::<HistoryResponse, S>(*measure),
        ensures
            match r {
                Ok(_) => history_fitted(
                    *count,
                    *measure,
                    old(response)@,
                    options.max_response_tokens,
                    final(response)@,
                ),
                Err(e) => *final(response) == *old(response) && options.max_response_tokens is Some
                    && history_unfitted(
                    *count,
                    *measure,
                    old(response)@,
                    options.max_response_tokens->0,
                    e,
                ),
            },
    {
        match response_fits(&*response, options.max_response_tokens, measure) {
            Ok(true) => {
                return Ok(());
            },
            Ok(false) => {},
            Err(e) => {
                return Err(e);
            },
        }
        let max = match options.max_response_tokens {
            Some(max) => max,
            None => {
                return Ok(());
            },
        };
        let content = match &response.symbol {
            Some(symbol) => match &symbol.content {
                Some(content) => Some(content.clone()),
                None => None,
            },
            None => None,
        };
        if let Some(content) = content {
            return fit_text(
                response,
                HistoryText::Symbol(content.as_str()),
                options,
                max,
                count,
                measure,
            );
        }
        let diff = match &response.diff {
            Some(diff) => Some(diff.clone()),
            None => None,
        };
        if let Some(diff) = diff {
            return fit_text(
                response,
                HistoryText::Diff(diff.as_str()),
                options,
                max,
                count,
                measure,
            );
        }
        assert(response@.commits.len() == response.commits@.len());
        if response.commits.len() > 0 {
            return fit_commits(response, max, measure);
        }
        match response_budget_error(&*response, max, measure) {
            Ok(error) => Err(error),
            Err(e) => Err(e),
        }
    }
}

} // verus!
