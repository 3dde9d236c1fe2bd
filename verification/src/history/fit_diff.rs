//! Fitting the answer to a comparison of symbols to the ceiling of a call.

use crate::accounting::{
    Measurement, PrefixSizing, ReceiptResourceDecoration, ResponseBudget, ServiceCallOptions,
};
use crate::cursor::{carries, StreamId};
use crate::error::Error;
use crate::fitting::{
    above_ceiling, count_tokens, counted_as, counts_all, fits_ceiling, response_budget_error,
    response_fits, response_tokens, settled_as, settles_all, takes_tokens, told_needs,
};
use crate::history::compare::plus;
use crate::history::diff::{bounds_of, char_boundaries, prefix_at};
use crate::history::paging::{make_diff_symbols_cursor, page_envelope};
use crate::history::request::ParsedDiffSymbolsRequest;
use crate::history::types::{
    DiffSymbolsDiagnostics, DiffSymbolsIncompleteReason, DiffSymbolsResponse, DiffSymbolsResult,
    DiffSymbolsStatus, DiffSymbolsView, ResultView,
};
use crate::lists::{filter_map, filter_map_push};
use crate::model::ResponseMeta;
use crate::ordered::{first_of, views};
use crate::services::Services;
use crate::text::{copy_optional_text, copy_text};
use crate::validation::{byte_size, total_bytes};
use vstd::prelude::*;

verus! {

/// The difference of a result.
pub open spec fn diff_of() -> spec_fn(ResultView) -> Option<Seq<char>> {
    |result: ResultView| result.diff
}

/// The differences of results.
pub open spec fn diffs(results: Seq<ResultView>) -> Seq<Seq<char>> {
    filter_map(results, diff_of())
}

/// A sum of numbers that stops at the largest one.
pub open spec fn sum_of(numbers: Seq<usize>) -> usize
    decreases numbers.len(),
{
    if numbers.len() == 0 {
        0
    } else {
        plus(sum_of(numbers.drop_last()), numbers.last() as nat)
    }
}

/// Whether texts may be said to have these numbers of tokens.
pub open spec fn all_counted<C: Fn(&str) -> usize>(
    count: C,
    list: Seq<Seq<char>>,
    numbers: Seq<usize>,
) -> bool {
    &&& numbers.len() == list.len()
    &&& forall|i: int|
        0 <= i < list.len() ==> #[trigger] counted_as(count, list[i], numbers[i])
}

/// A response with other counts of its differences.
pub open spec fn with_source(view: DiffSymbolsView, tokens: usize) -> DiffSymbolsView {
    let list = diffs(view.results);
    DiffSymbolsView {
        diagnostics: DiffSymbolsDiagnostics {
            retained_diff_bytes: total_bytes(0, list, list.len() as int),
            ..view.diagnostics
        },
        meta: ResponseMeta { source_tokens: tokens, ..view.meta },
        ..view
    }
}

/// Whether `out` is a response that accounts for the differences it holds.
pub open spec fn accounted<C: Fn(&str) -> usize>(
    count: C,
    view: DiffSymbolsView,
    out: DiffSymbolsView,
) -> bool {
    exists|numbers: Seq<usize>|
        #[trigger] all_counted(count, diffs(view.results), numbers) && out == with_source(
            view,
            sum_of(numbers),
        )
}

/// Lets a response account for the differences it holds.
pub fn refresh_diff_symbols_accounting<C: Fn(&str) -> usize>(
    count: &C,
    response: &mut DiffSymbolsResponse,
)
    requires
        counts_all(*count),
    ensures
        accounted(*count, old(response)@, final(response)@),
{
    let ghost view = response@;
    let ghost all = views(response.results@);
    let ghost mut numbers: Seq<usize> = Seq::empty();
    let mut source_tokens: usize = 0;
    let mut retained: usize = 0;
    let mut i: usize = 0;
    assert(all.len() == response.results@.len());
    assert(all.take(0) =~= Seq::<ResultView>::empty());
    while i < response.results.len()
        invariant
            i <= response.results.len(),
            all == views(response.results@),
            counts_all(*count),
            response@ == view,
            view.results == all,
            all_counted(*count, diffs(all.take(i as int)), numbers),
            source_tokens == sum_of(numbers),
            retained == total_bytes(
                0,
                diffs(all.take(i as int)),
                diffs(all.take(i as int)).len() as int,
            ),
        decreases response.results.len() - i,
    {
        let ghost before = diffs(all.take(i as int));
        proof {
            filter_map_push(all, diff_of(), i as int);
            assert(all[i as int] == response.results@[i as int]@);
        }
        if let Some(diff) = &response.results[i].diff {
            let tokens: usize = count_tokens(count, diff.as_str());
            source_tokens = source_tokens.saturating_add(tokens);
            retained = retained.saturating_add(byte_size(diff.as_str()));
            let ghost earlier = numbers;
            proof {
                numbers = numbers.push(tokens);
                let now = diffs(all.take(i + 1));
                assert(now =~= before.push(diff@));
                assert(numbers.drop_last() =~= earlier);
                assert forall|k: int| 0 <= k < now.len() implies #[trigger] counted_as(
                    *count,
                    now[k],
                    numbers[k],
                ) by {
                    if k < before.len() {
                        assert(counted_as(*count, before[k], earlier[k]));
                    }
                }
                total_bytes_of_prefix(before, now, before.len() as int);
            }
        } else {
            assert(diffs(all.take(i + 1)) =~= before);
        }
        i += 1;
    }
    assert(all.take(all.len() as int) =~= all);
    response.meta.source_tokens = source_tokens;
    response.diagnostics.retained_diff_bytes = retained;
    assert(response@ == with_source(view, source_tokens));
}

proof fn total_bytes_of_prefix(list: Seq<Seq<char>>, more: Seq<Seq<char>>, upto: int)
    requires
        0 <= upto <= list.len() <= more.len(),
        forall|i: int| 0 <= i < list.len() ==> more[i] == #[trigger] list[i],
    ensures
        total_bytes(0, more, upto) == total_bytes(0, list, upto),
    decreases upto,
{
    if upto > 0 {
        total_bytes_of_prefix(list, more, upto - 1);
        assert(more[upto - 1] == list[upto - 1]);
    }
}

/// A result without its difference.
pub open spec fn bare_result(result: ResultView) -> ResultView {
    if result.diff is Some {
        ResultView {
            diff: None,
            diff_truncated: true,
            reason: Some("diff_truncated"@),
            incomplete_reason: Some(DiffSymbolsIncompleteReason::MaxResponseTokens),
            ..result
        }
    } else {
        result
    }
}

/// A response without any difference.
pub open spec fn skeleton(view: DiffSymbolsView) -> DiffSymbolsView {
    DiffSymbolsView {
        results: Seq::new(view.results.len(), |i: int| bare_result(view.results[i])),
        ..view
    }
}

/// Whether a cursor continues a comparison at an offset, where there is more.
pub open spec fn continues_at(
    cursor: Option<String>,
    stream: Seq<u8>,
    offset: usize,
    targets: nat,
) -> bool {
    if offset < targets {
        cursor is Some && carries(cursor->0@, page_envelope(stream, offset))
    } else {
        cursor is None
    }
}

/// The offset behind the first results of a page.
pub open spec fn offset_behind(page_start: usize, keep: usize) -> usize {
    plus(page_start, keep as nat)
}

/// A response with its first results and a cursor behind them.
pub open spec fn page_cut(view: DiffSymbolsView, keep: usize, cursor: Option<String>) ->
    DiffSymbolsView {
    DiffSymbolsView {
        results: first_of(view.results, keep as int),
        result_complete: false,
        meta: ResponseMeta { next_cursor: cursor, ..view.meta },
        ..view
    }
}

/// Whether `out` is a response with its first results, which accounts for them
/// and goes on behind them.
pub open spec fn page_kept<C: Fn(&str) -> usize>(
    count: C,
    view: DiffSymbolsView,
    keep: usize,
    page_start: usize,
    targets: nat,
    stream: Seq<u8>,
    out: DiffSymbolsView,
) -> bool {
    exists|cursor: Option<String>|
        {
            &&& #[trigger] continues_at(cursor, stream, offset_behind(page_start, keep), targets)
            &&& accounted(count, page_cut(view, keep, cursor), out)
        }
}

/// Whether a response with its first results may be said to take a number of
/// tokens, or measuring it to fail.
pub open spec fn page_takes<
    C: Fn(&str) -> usize,
    S: Fn(&DiffSymbolsResponse, &ResponseMeta, ReceiptResourceDecoration) -> Measurement,
>(
    count: C,
    measure: S,
    view: DiffSymbolsView,
    keep: usize,
    page_start: usize,
    targets: nat,
    stream: Seq<u8>,
    outcome: Result<usize, Error>,
) -> bool {
    exists|out: DiffSymbolsView|
        #[trigger] page_kept(count, view, keep, page_start, targets, stream, out) && takes_tokens::<
            DiffSymbolsResponse,
            S,
        >(measure, out, outcome)
}

/// Whether a response with its first results may be said to fit.
pub open spec fn page_fits<
    C: Fn(&str) -> usize,
    S: Fn(&DiffSymbolsResponse, &ResponseMeta, ReceiptResourceDecoration) -> Measurement,
>(
    count: C,
    measure: S,
    view: DiffSymbolsView,
    keep: usize,
    page_start: usize,
    targets: nat,
    stream: Seq<u8>,
    max: usize,
) -> bool {
    exists|tokens: usize|
        tokens <= max && #[trigger] page_takes(
            count,
            measure,
            view,
            keep,
            page_start,
            targets,
            stream,
            Ok(tokens),
        )
}

/// Whether a response with its first results may be said not to fit.
pub open spec fn page_exceeds<
    C: Fn(&str) -> usize,
    S: Fn(&DiffSymbolsResponse, &ResponseMeta, ReceiptResourceDecoration) -> Measurement,
>(
    count: C,
    measure: S,
    view: DiffSymbolsView,
    keep: usize,
    page_start: usize,
    targets: nat,
    stream: Seq<u8>,
    max: usize,
) -> bool {
    exists|tokens: usize|
        tokens > max && #[trigger] page_takes(
            count,
            measure,
            view,
            keep,
            page_start,
            targets,
            stream,
            Ok(tokens),
        )
}

fn cut_page<C: Fn(&str) -> usize>(
    count: &C,
    view: &DiffSymbolsResponse,
    keep: usize,
    page_start: usize,
    targets: usize,
    stream_id: StreamId,
) -> (r: Result<DiffSymbolsResponse, Error>)
    requires
        counts_all(*count),
    ensures
        r is Ok,
        page_kept(*count, view@, keep, page_start, targets as nat, stream_id@, r->Ok_0@),
{
    let mut candidate = view.duplicate();
    let ghost all = views(candidate.results@);
    assert(all.len() == candidate.results@.len());
    candidate.results.truncate(keep);
    assert(views(candidate.results@) =~= first_of(all, keep as int));
    candidate.result_complete = false;
    let next_offset: usize = page_start.saturating_add(keep);
    let next_cursor = if next_offset < targets {
        match make_diff_symbols_cursor(stream_id, next_offset) {
            Ok(text) => Some(text),
            Err(e) => {
                return Err(e);
            },
        }
    } else {
        None
    };
    assert(continues_at(
        next_cursor,
        stream_id@,
        offset_behind(page_start, keep),
        targets as nat,
    ));
    let ghost cursor = next_cursor;
    candidate.meta.next_cursor = next_cursor;
    assert(candidate@ == page_cut(view@, keep, cursor));
    refresh_diff_symbols_accounting(count, &mut candidate);
    Ok(candidate)
}

struct PageSizing<
    'a,
    C: Fn(&str) -> usize,
    S: Fn(&DiffSymbolsResponse, &ResponseMeta, ReceiptResourceDecoration) -> Measurement,
> {
    skeleton: &'a DiffSymbolsResponse,
    page_start: usize,
    targets: usize,
    stream_id: StreamId,
    count: &'a C,
    measure: &'a S,
}

impl<
    'a,
    C: Fn(&str) -> usize,
    S: Fn(&DiffSymbolsResponse, &ResponseMeta, ReceiptResourceDecoration) -> Measurement,
> PrefixSizing for PageSizing<'a, C, S> {
    closed spec fn ready(&self) -> bool {
        counts_all(*self.count) && settles_all::<DiffSymbolsResponse, S>(*self.measure)
    }

    closed spec fn says(&self, keep: usize, outcome: Result<usize, Error>) -> bool {
        page_takes(
            *self.count,
            *self.measure,
            self.skeleton@,
            keep,
            self.page_start,
            self.targets as nat,
            self.stream_id@,
            outcome,
        )
    }

    fn tokens(&self, keep: usize) -> (r: Result<usize, Error>) {
        match cut_page(
            self.count,
            self.skeleton,
            keep,
            self.page_start,
            self.targets,
            self.stream_id,
        ) {
            Ok(candidate) => response_tokens(&candidate, self.measure),
            Err(e) => Err(e),
        }
    }
}

/// A result with the first characters of a difference; with all of them it is
/// what it was before differences were left out.
pub open spec fn restored_result(result: ResultView, original: ResultView, keep: int) -> ResultView {
    let diff = original.diff->0;
    let shown = ResultView {
        diff: if keep <= 0 {
            None
        } else {
            Some(diff.take(keep))
        },
        ..result
    };
    if keep == diff.len() {
        ResultView {
            diff_truncated: original.diff_truncated,
            reason: original.reason,
            incomplete_reason: original.incomplete_reason,
            ..shown
        }
    } else {
        shown
    }
}

/// A response with the first characters of one difference.
pub open spec fn restored(view: DiffSymbolsView, at: int, original: ResultView, keep: int) ->
    DiffSymbolsView {
    DiffSymbolsView {
        results: view.results.update(at, restored_result(view.results[at], original, keep)),
        ..view
    }
}

/// Whether a response with the first characters of one difference may be said to
/// take a number of tokens, or measuring it to fail.
pub open spec fn restored_takes<
    C: Fn(&str) -> usize,
    S: Fn(&DiffSymbolsResponse, &ResponseMeta, ReceiptResourceDecoration) -> Measurement,
>(
    count: C,
    measure: S,
    view: DiffSymbolsView,
    at: int,
    original: ResultView,
    keep: int,
    outcome: Result<usize, Error>,
) -> bool {
    exists|out: DiffSymbolsView|
        #[trigger] accounted(count, restored(view, at, original, keep), out) && takes_tokens::<
            DiffSymbolsResponse,
            S,
        >(measure, out, outcome)
}

/// Whether a response with the first characters of one difference may be said to
/// fit.
pub open spec fn restored_fits<
    C: Fn(&str) -> usize,
    S: Fn(&DiffSymbolsResponse, &ResponseMeta, ReceiptResourceDecoration) -> Measurement,
>(
    count: C,
    measure: S,
    view: DiffSymbolsView,
    at: int,
    original: ResultView,
    keep: int,
    max: usize,
) -> bool {
    exists|tokens: usize|
        tokens <= max && #[trigger] restored_takes(
            count,
            measure,
            view,
            at,
            original,
            keep,
            Ok(tokens),
        )
}

/// Whether a response with the first characters of one difference may be said
/// not to fit.
pub open spec fn restored_exceeds<
    C: Fn(&str) -> usize,
    S: Fn(&DiffSymbolsResponse, &ResponseMeta, ReceiptResourceDecoration) -> Measurement,
>(
    count: C,
    measure: S,
    view: DiffSymbolsView,
    at: int,
    original: ResultView,
    keep: int,
    max: usize,
) -> bool {
    exists|tokens: usize|
        tokens > max && #[trigger] restored_takes(
            count,
            measure,
            view,
            at,
            original,
            keep,
            Ok(tokens),
        )
}

struct DiffSizing<
    'a,
    C: Fn(&str) -> usize,
    S: Fn(&DiffSymbolsResponse, &ResponseMeta, ReceiptResourceDecoration) -> Measurement,
> {
    fitted: &'a DiffSymbolsResponse,
    at: usize,
    original: &'a DiffSymbolsResult,
    diff: &'a String,
    boundaries: &'a Vec<usize>,
    count: &'a C,
    measure: &'a S,
}

impl<
    'a,
    C: Fn(&str) -> usize,
    S: Fn(&DiffSymbolsResponse, &ResponseMeta, ReceiptResourceDecoration) -> Measurement,
> PrefixSizing for DiffSizing<'a, C, S> {
    closed spec fn ready(&self) -> bool {
        &&& counts_all(*self.count)
        &&& settles_all::<DiffSymbolsResponse, S>(*self.measure)
        &&& bounds_of(self.diff@, self.boundaries@)
        &&& self.original@.diff == Some(self.diff@)
        &&& self.at < self.fitted.results@.len()
    }

    closed spec fn says(&self, keep: usize, outcome: Result<usize, Error>) -> bool {
        keep < self.boundaries@.len() ==> restored_takes(
            *self.count,
            *self.measure,
            self.fitted@,
            self.at as int,
            self.original@,
            keep as int,
            outcome,
        )
    }

    fn tokens(&self, keep: usize) -> (r: Result<usize, Error>) {
        if keep >= self.boundaries.len() {
            return Ok(0);
        }
        let copy = self.fitted.duplicate();
        assert(copy@.results.len() == copy.results@.len());
        assert(self.fitted@.results.len() == self.fitted.results@.len());
        let candidate = restore_diff(
            copy,
            self.at,
            self.original,
            self.diff,
            self.boundaries,
            keep,
            self.count,
        );
        response_tokens(&candidate, self.measure)
    }
}

fn restore_diff<C: Fn(&str) -> usize>(
    response: DiffSymbolsResponse,
    at: usize,
    original: &DiffSymbolsResult,
    diff: &String,
    boundaries: &Vec<usize>,
    keep: usize,
    count: &C,
) -> (r: DiffSymbolsResponse)
    requires
        counts_all(*count),
        at < response.results@.len(),
        original@.diff == Some(diff@),
        bounds_of(diff@, boundaries@),
        keep < boundaries@.len(),
    ensures
        accounted(*count, restored(response@, at as int, original@, keep as int), r@),
        r@.results.len() == response@.results.len(),
{
    let ghost view = response@;
    let mut response = response;
    let ghost all = response.results@;
    let ghost listed = views(all);
    let mut result = response.results.remove(at);
    let ghost shown = result@;
    let prefix = prefix_at(diff.as_str(), boundaries, keep);
    result.diff = if keep == 0 {
        None
    } else {
        Some(prefix)
    };
    if keep == boundaries.len() - 1 {
        result.diff_truncated = original.diff_truncated;
        result.reason = copy_optional_text(&original.reason);
        result.incomplete_reason = original.incomplete_reason;
    }
    let ghost done = result@;
    assert(done == restored_result(shown, original@, keep as int));
    response.results.insert(at, result);
    proof {
        assert(listed.len() == all.len());
        assert(listed[at as int] == shown);
        assert(views(response.results@) =~= listed.update(at as int, done));
    }
    assert(response@ == restored(view, at as int, original@, keep as int));
    refresh_diff_symbols_accounting(count, &mut response);
    response
}

/// Whether `out` is a response after one of its differences was brought back as
/// far as it fits.
pub open spec fn restores<
    C: Fn(&str) -> usize,
    S: Fn(&DiffSymbolsResponse, &ResponseMeta, ReceiptResourceDecoration) -> Measurement,
>(
    count: C,
    measure: S,
    view: DiffSymbolsView,
    at: int,
    original: ResultView,
    max: usize,
    out: DiffSymbolsView,
) -> bool {
    match original.diff {
        None => out == view,
        Some(diff) => {
            ||| out == view && restored_exceeds(count, measure, view, at, original, 0, max)
            ||| exists|keep: int|
                {
                    &&& 0 <= keep <= diff.len()
                    &&& #[trigger] restored_fits(count, measure, view, at, original, keep, max)
                    &&& keep < diff.len() ==> restored_exceeds(
                        count,
                        measure,
                        view,
                        at,
                        original,
                        keep + 1,
                        max,
                    )
                    &&& accounted(count, restored(view, at, original, keep), out)
                }
        },
    }
}

/// Whether measuring a response with a difference failed.
pub open spec fn restore_failed<
    C: Fn(&str) -> usize,
    S: Fn(&DiffSymbolsResponse, &ResponseMeta, ReceiptResourceDecoration) -> Measurement,
>(
    count: C,
    measure: S,
    view: DiffSymbolsView,
    at: int,
    original: ResultView,
    error: Error,
) -> bool {
    exists|keep: int|
        #[trigger] restored_takes(count, measure, view, at, original, keep, Err(error))
}

fn restore_one<
    C: Fn(&str) -> usize,
    S: Fn(&DiffSymbolsResponse, &ResponseMeta, ReceiptResourceDecoration) -> Measurement,
>(
    fitted: DiffSymbolsResponse,
    at: usize,
    original: &DiffSymbolsResult,
    max: usize,
    count: &C,
    measure: &S,
) -> (r: Result<DiffSymbolsResponse, Error>)
    requires
        counts_all(*count),
        settles_all::<DiffSymbolsResponse, S>(*measure),
        at < fitted.results@.len(),
    ensures
        match r {
            Ok(out) => {
                &&& restores(*count, *measure, fitted@, at as int, original@, max, out@)
                &&& out@.results.len() == fitted@.results.len()
            },
            Err(e) => restore_failed(*count, *measure, fitted@, at as int, original@, e),
        },
{
    let diff = match &original.diff {
        Some(diff) => diff,
        None => {
            return Ok(fitted);
        },
    };
    let boundaries = char_boundaries(diff.as_str());
    let full_length: usize = boundaries.len() - 1;
    let ghost view = fitted@;
    let ghost was = original@;
    let sizing = DiffSizing {
        fitted: &fitted,
        at,
        original,
        diff,
        boundaries: &boundaries,
        count,
        measure,
    };
    let kept = ResponseBudget::new(max).largest_fitting_prefix(full_length, &sizing);
    proof {
        if kept is Err {
            let e = kept->Err_0;
            let keep = choose|keep: usize|
                keep <= full_length && #[trigger] sizing.says(keep, Err::<usize, Error>(e));
            assert(restored_takes(*count, *measure, view, at as int, was, keep as int, Err(e)));
        } else if let Ok(Some(keep)) = kept {
            let tokens = choose|tokens: usize|
                tokens <= max && #[trigger] sizing.says(keep, Ok(tokens));
            assert(restored_takes(*count, *measure, view, at as int, was, keep as int, Ok(tokens)));
            assert(restored_fits(*count, *measure, view, at as int, was, keep as int, max));
            if keep < full_length {
                let more = choose|more: usize|
                    more > max && #[trigger] sizing.says((keep + 1) as usize, Ok(more));
                assert(restored_takes(*count, *measure, view, at as int, was, keep + 1, Ok(more)));
            }
        } else {
            let tokens = choose|tokens: usize| tokens > max && #[trigger] sizing.says(0, Ok(tokens));
            assert(restored_takes(*count, *measure, view, at as int, was, 0, Ok(tokens)));
        }
    }
    match kept {
        Ok(Some(keep)) => Ok(
            restore_diff(fitted, at, original, diff, &boundaries, keep, count),
        ),
        Ok(None) => Ok(fitted),
        Err(e) => Err(e),
    }
}

/// Whether a response says everything of the results it holds.
pub open spec fn tells_all(results: Seq<ResultView>) -> bool {
    forall|i: int|
        0 <= i < results.len() ==> !(#[trigger] results[i]).diff_truncated
            && results[i].status != DiffSymbolsStatus::Unavailable
}

/// A response that says whether it is complete.
pub open spec fn with_completeness(view: DiffSymbolsView) -> DiffSymbolsView {
    DiffSymbolsView {
        result_complete: view.meta.next_cursor is None && tells_all(view.results),
        ..view
    }
}

/// Whether responses came one of another by bringing differences back.
pub open spec fn restored_chain<
    C: Fn(&str) -> usize,
    S: Fn(&DiffSymbolsResponse, &ResponseMeta, ReceiptResourceDecoration) -> Measurement,
>(
    count: C,
    measure: S,
    original: DiffSymbolsView,
    max: usize,
    chain: Seq<DiffSymbolsView>,
) -> bool {
    forall|i: int|
        #![trigger chain[i]]
        0 <= i && i + 1 < chain.len() ==> restores(
            count,
            measure,
            chain[i],
            i,
            original.results[i],
            max,
            chain[i + 1],
        )
}

/// Whether `out` is a response above a ceiling with as many of its results as
/// fit without their differences, and as much of the differences as fits then.
pub open spec fn results_fitted<
    C: Fn(&str) -> usize,
    S: Fn(&DiffSymbolsResponse, &ResponseMeta, ReceiptResourceDecoration) -> Measurement,
>(
    count: C,
    measure: S,
    view: DiffSymbolsView,
    keep: usize,
    page_start: usize,
    targets: nat,
    stream: Seq<u8>,
    max: usize,
    out: DiffSymbolsView,
) -> bool {
    let bare = skeleton(view);
    &&& 0 < keep <= view.results.len()
    &&& page_fits(count, measure, bare, keep, page_start, targets, stream, max)
    &&& keep < view.results.len() ==> page_exceeds(
        count,
        measure,
        bare,
        (keep + 1) as usize,
        page_start,
        targets,
        stream,
        max,
    )
    &&& exists|chain: Seq<DiffSymbolsView>|
        {
            &&& chain.len() == keep + 1
            &&& page_kept(count, bare, keep, page_start, targets, stream, chain[0])
            &&& #[trigger] restored_chain(count, measure, view, max, chain)
            &&& accounted(count, with_completeness(chain.last()), out)
        }
}

/// Whether `out` is a response fitted to a ceiling.
pub open spec fn comparison_fitted<
    C: Fn(&str) -> usize,
    S: Fn(&DiffSymbolsResponse, &ResponseMeta, ReceiptResourceDecoration) -> Measurement,
>(
    count: C,
    measure: S,
    view: DiffSymbolsView,
    page_start: usize,
    targets: nat,
    stream: Seq<u8>,
    max: Option<usize>,
    out: DiffSymbolsView,
) -> bool {
    match max {
        None => out == view,
        Some(max) => {
            ||| out == view && fits_ceiling::<DiffSymbolsResponse, S>(measure, view, max)
            ||| {
                &&& above_ceiling::<DiffSymbolsResponse, S>(measure, view, max)
                &&& exists|keep: usize|
                    #[trigger] results_fitted(
                        count,
                        measure,
                        view,
                        keep,
                        page_start,
                        targets,
                        stream,
                        max,
                        out,
                    )
            }
        },
    }
}

/// Whether no result of a response fits.
pub open spec fn no_result_fits<
    C: Fn(&str) -> usize,
    S: Fn(&DiffSymbolsResponse, &ResponseMeta, ReceiptResourceDecoration) -> Measurement,
>(
    count: C,
    measure: S,
    view: DiffSymbolsView,
    page_start: usize,
    targets: nat,
    stream: Seq<u8>,
    max: usize,
) -> bool {
    ||| page_exceeds(count, measure, skeleton(view), 0, page_start, targets, stream, max)
    ||| page_exceeds(count, measure, skeleton(view), 1, page_start, targets, stream, max)
    ||| view.results.len() == 0
}

/// Whether `error` is why not even one result fits.
pub open spec fn results_unfitted<
    C: Fn(&str) -> usize,
    S: Fn(&DiffSymbolsResponse, &ResponseMeta, ReceiptResourceDecoration) -> Measurement,
>(
    count: C,
    measure: S,
    view: DiffSymbolsView,
    page_start: usize,
    targets: nat,
    stream: Seq<u8>,
    max: usize,
    error: Error,
) -> bool {
    let bare = skeleton(view);
    &&& no_result_fits(count, measure, view, page_start, targets, stream, max)
    &&& exists|minimum: DiffSymbolsView|
        #[trigger] page_kept(count, bare, 1, page_start, targets, stream, minimum) && (told_needs::<
            DiffSymbolsResponse,
            S,
        >(measure, minimum, max, error) || settled_as::<DiffSymbolsResponse, S>(
            measure,
            minimum,
            Err(error),
        ))
}

/// Whether measuring a response failed while its differences were brought back.
pub open spec fn restoring_failed<
    C: Fn(&str) -> usize,
    S: Fn(&DiffSymbolsResponse, &ResponseMeta, ReceiptResourceDecoration) -> Measurement,
>(count: C, measure: S, view: DiffSymbolsView, max: usize, error: Error) -> bool {
    exists|chain: Seq<DiffSymbolsView>|
        {
            &&& 0 < chain.len() <= view.results.len()
            &&& #[trigger] restored_chain(count, measure, view, max, chain)
            &&& restore_failed(
                count,
                measure,
                chain.last(),
                chain.len() - 1,
                view.results[chain.len() - 1],
                error,
            )
        }
}

/// Whether `error` is why a response above a ceiling was not fitted.
pub open spec fn comparison_unfitted<
    C: Fn(&str) -> usize,
    S: Fn(&DiffSymbolsResponse, &ResponseMeta, ReceiptResourceDecoration) -> Measurement,
>(
    count: C,
    measure: S,
    view: DiffSymbolsView,
    page_start: usize,
    targets: nat,
    stream: Seq<u8>,
    max: usize,
    error: Error,
) -> bool {
    ||| settled_as::<DiffSymbolsResponse, S>(measure, view, Err(error))
    ||| {
        &&& above_ceiling::<DiffSymbolsResponse, S>(measure, view, max)
        &&& {
            ||| exists|keep: usize|
                #[trigger] page_takes(
                    count,
                    measure,
                    skeleton(view),
                    keep,
                    page_start,
                    targets,
                    stream,
                    Err(error),
                )
            ||| results_unfitted(count, measure, view, page_start, targets, stream, max, error)
            ||| restoring_failed(count, measure, view, max, error)
        }
    }
}

fn strip_diffs(list: &Vec<DiffSymbolsResult>) -> (r: Vec<DiffSymbolsResult>)
    ensures
        views(r@) == Seq::new(list@.len(), |i: int| bare_result(views(list@)[i])),
        r@.len() == list@.len(),
{
    let ghost all = Seq::new(list@.len(), |i: int| bare_result(views(list@)[i]));
    let mut out: Vec<DiffSymbolsResult> = Vec::new();
    let mut i: usize = 0;
    while i < list.len()
        invariant
            i <= list.len(),
            all == Seq::new(list@.len(), |i: int| bare_result(views(list@)[i])),
            views(out@) == all.take(i as int),
            out@.len() == i,
        decreases list.len() - i,
    {
        let ghost before = views(out@);
        let mut result = list[i].duplicate();
        if result.diff.is_some() {
            result.diff = None;
            result.diff_truncated = true;
            result.reason = Some(copy_text("diff_truncated"));
            result.incomplete_reason = Some(DiffSymbolsIncompleteReason::MaxResponseTokens);
        }
        let ghost added = result@;
        assert(added == all[i as int]);
        out.push(result);
        assert(views(out@) =~= before.push(added));
        assert(views(out@) =~= all.take(i + 1));
        i += 1;
    }
    assert(all.take(all.len() as int) =~= all);
    out
}

/// Whether everything is said of results.
pub(crate) fn says_all(list: &Vec<DiffSymbolsResult>) -> (r: bool)
    ensures
        r == tells_all(views(list@)),
{
    let mut i: usize = 0;
    while i < list.len()
        invariant
            i <= list.len(),
            forall|k: int|
                0 <= k < i ==> !(#[trigger] views(list@)[k]).diff_truncated && views(
                    list@,
                )[k].status != DiffSymbolsStatus::Unavailable,
        decreases list.len() - i,
    {
        if list[i].diff_truncated || list[i].status == DiffSymbolsStatus::Unavailable {
            assert(views(list@)[i as int] == list@[i as int]@);
            return false;
        }
        i += 1;
    }
    true
}

fn largest_page<
    C: Fn(&str) -> usize,
    S: Fn(&DiffSymbolsResponse, &ResponseMeta, ReceiptResourceDecoration) -> Measurement,
>(
    bare: &DiffSymbolsResponse,
    total: usize,
    page_start: usize,
    targets: usize,
    stream_id: StreamId,
    max: usize,
    count: &C,
    measure: &S,
) -> (r: Result<Option<usize>, Error>)
    requires
        counts_all(*count),
        settles_all::<DiffSymbolsResponse, S>(*measure),
    ensures
        match r {
            Ok(Some(keep)) => {
                &&& keep <= total
                &&& page_fits(
                    *count,
                    *measure,
                    bare@,
                    keep,
                    page_start,
                    targets as nat,
                    stream_id@,
                    max,
                )
                &&& keep < total ==> page_exceeds(
                    *count,
                    *measure,
                    bare@,
                    (keep + 1) as usize,
                    page_start,
                    targets as nat,
                    stream_id@,
                    max,
                )
            },
            Ok(None) => page_exceeds(
                *count,
                *measure,
                bare@,
                0,
                page_start,
                targets as nat,
                stream_id@,
                max,
            ),
            Err(e) => exists|keep: usize|
                #[trigger] page_takes(
                    *count,
                    *measure,
                    bare@,
                    keep,
                    page_start,
                    targets as nat,
                    stream_id@,
                    Err(e),
                ),
        },
{
    let sizing = PageSizing { skeleton: bare, page_start, targets, stream_id, count, measure };
    let kept = ResponseBudget::new(max).largest_fitting_prefix(total, &sizing);
    let ghost view = bare@;
    let ghost whole = targets as nat;
    let ghost stream = stream_id@;
    proof {
        if kept is Err {
            let e = kept->Err_0;
            let keep = choose|keep: usize|
                keep <= total && #[trigger] sizing.says(keep, Err::<usize, Error>(e));
            assert(page_takes(*count, *measure, view, keep, page_start, whole, stream, Err(e)));
        } else if let Ok(Some(keep)) = kept {
            let tokens = choose|tokens: usize|
                tokens <= max && #[trigger] sizing.says(keep, Ok(tokens));
            assert(page_takes(*count, *measure, view, keep, page_start, whole, stream, Ok(tokens)));
            if keep < total {
                let next = (keep + 1) as usize;
                let more = choose|more: usize| more > max && #[trigger] sizing.says(next, Ok(more));
                assert(page_takes(
                    *count,
                    *measure,
                    view,
                    next,
                    page_start,
                    whole,
                    stream,
                    Ok(more),
                ));
            }
        } else {
            let tokens = choose|tokens: usize| tokens > max && #[trigger] sizing.says(0, Ok(tokens));
            assert(page_takes(*count, *measure, view, 0, page_start, whole, stream, Ok(tokens)));
        }
    }
    kept
}

fn restore_all<
    C: Fn(&str) -> usize,
    S: Fn(&DiffSymbolsResponse, &ResponseMeta, ReceiptResourceDecoration) -> Measurement,
>(
    fitted: DiffSymbolsResponse,
    original: &DiffSymbolsResponse,
    keep: usize,
    max: usize,
    count: &C,
    measure: &S,
) -> (r: Result<DiffSymbolsResponse, Error>)
    requires
        counts_all(*count),
        settles_all::<DiffSymbolsResponse, S>(*measure),
        fitted.results@.len() == keep,
        keep <= original.results@.len(),
    ensures
        match r {
            Ok(out) => exists|chain: Seq<DiffSymbolsView>|
                {
                    &&& chain.len() == keep + 1
                    &&& chain[0] == fitted@
                    &&& #[trigger] restored_chain(*count, *measure, original@, max, chain)
                    &&& out@ == chain.last()
                },
            Err(e) => restoring_failed(*count, *measure, original@, max, e),
        },
{
    let ghost start = fitted@;
    let ghost mut chain: Seq<DiffSymbolsView> = seq![start];
    let mut fitted = fitted;
    let mut at: usize = 0;
    assert(fitted@.results.len() == fitted.results@.len());
    while at < keep
        invariant
            at <= keep,
            keep <= original.results@.len(),
            counts_all(*count),
            settles_all::<DiffSymbolsResponse, S>(*measure),
            fitted.results@.len() == keep,
            chain.len() == at + 1,
            chain[0] == start,
            chain.last() == fitted@,
            restored_chain(*count, *measure, original@, max, chain),
        decreases keep - at,
    {
        let ghost before = fitted@;
        assert(original@.results[at as int] == original.results@[at as int]@);
        assert(original@.results.len() == original.results@.len());
        match restore_one(fitted, at, &original.results[at], max, count, measure) {
            Ok(out) => {
                fitted = out;
                let ghost earlier = chain;
                proof {
                    chain = chain.push(fitted@);
                    assert forall|i: int| #![trigger chain[i]] 0 <= i && i + 1
                        < chain.len() implies restores(
                        *count,
                        *measure,
                        chain[i],
                        i,
                        original@.results[i],
                        max,
                        chain[i + 1],
                    ) by {
                        if i + 1 < earlier.len() {
                            assert(chain[i] == earlier[i]);
                            assert(chain[i + 1] == earlier[i + 1]);
                        }
                    }
                }
                assert(fitted@.results.len() == fitted.results@.len());
            },
            Err(e) => {
                return Err(e);
            },
        }
        at += 1;
    }
    Ok(fitted)
}

/// Whether two responses hold results of the same targets and go on at the same
/// place.
pub open spec fn same_targets(first: DiffSymbolsView, second: DiffSymbolsView) -> bool {
    &&& first.meta.next_cursor == second.meta.next_cursor
    &&& first.results.len() == second.results.len()
    &&& forall|i: int|
        0 <= i < first.results.len() ==> (#[trigger] first.results[i]).request_index
            == second.results[i].request_index && first.results[i].target
            == second.results[i].target
}

proof fn lemma_chain_keeps_targets<
    C: Fn(&str) -> usize,
    S: Fn(&DiffSymbolsResponse, &ResponseMeta, ReceiptResourceDecoration) -> Measurement,
>(
    count: C,
    measure: S,
    original: DiffSymbolsView,
    max: usize,
    chain: Seq<DiffSymbolsView>,
    n: int,
)
    requires
        restored_chain(count, measure, original, max, chain),
        0 <= n < chain.len(),
        chain.len() == chain[0].results.len() + 1,
    ensures
        same_targets(chain[0], chain[n]),
    decreases n,
{
    if n > 0 {
        lemma_chain_keeps_targets(count, measure, original, max, chain, n - 1);
        assert(restores(
            count,
            measure,
            chain[n - 1],
            n - 1,
            original.results[n - 1],
            max,
            chain[n],
        ));
        assert(same_targets(chain[n - 1], chain[n]));
    }
}

proof fn lemma_fitted_chain<
    C: Fn(&str) -> usize,
    S: Fn(&DiffSymbolsResponse, &ResponseMeta, ReceiptResourceDecoration) -> Measurement,
>(
    count: C,
    measure: S,
    view: DiffSymbolsView,
    keep: usize,
    page_start: usize,
    targets: nat,
    stream: Seq<u8>,
    max: usize,
    chain: Seq<DiffSymbolsView>,
    out: DiffSymbolsView,
)
    requires
        0 < keep <= view.results.len(),
        chain.len() == keep + 1,
        page_kept(count, skeleton(view), keep, page_start, targets, stream, chain[0]),
        restored_chain(count, measure, view, max, chain),
        accounted(count, with_completeness(chain.last()), out),
    ensures
        out.results.len() == keep,
        forall|i: int|
            0 <= i < out.results.len() ==> (#[trigger] out.results[i]).request_index
                == view.results[i].request_index && out.results[i].target
                == view.results[i].target,
        continues_at(
            out.meta.next_cursor,
            stream,
            offset_behind(page_start, keep),
            targets,
        ),
        out.result_complete == (out.meta.next_cursor is None && tells_all(out.results)),
{
    let bare = skeleton(view);
    assert(chain[0].results == first_of(bare.results, keep as int));
    assert(chain[0].results.len() == keep);
    lemma_chain_keeps_targets(count, measure, view, max, chain, keep as int);
    assert(same_targets(chain[0], chain.last()));
    assert(out.results == chain.last().results);
    assert forall|i: int| 0 <= i < out.results.len() implies (
    #[trigger] out.results[i]).request_index == view.results[i].request_index
        && out.results[i].target == view.results[i].target by {
        assert(chain[0].results[i].request_index == chain.last().results[i].request_index);
        assert(chain[0].results[i] == bare_result(view.results[i]));
    }
}

/// A response fitted to a ceiling holds its first results, each still of its
/// target, and says whether it is complete of what it then holds. It goes on
/// behind the last of them where it was cut, and where it was going on before
/// where it was not.
pub proof fn a_fitted_comparison_goes_on_behind_its_results<
    C: Fn(&str) -> usize,
    S: Fn(&DiffSymbolsResponse, &ResponseMeta, ReceiptResourceDecoration) -> Measurement,
>(
    count: C,
    measure: S,
    view: DiffSymbolsView,
    page_start: usize,
    targets: nat,
    stream: Seq<u8>,
    max: Option<usize>,
    out: DiffSymbolsView,
)
    requires
        comparison_fitted(count, measure, view, page_start, targets, stream, max, out),
    ensures
        out.results.len() <= view.results.len(),
        max is None ==> out == view,
        forall|i: int|
            0 <= i < out.results.len() ==> (#[trigger] out.results[i]).request_index
                == view.results[i].request_index && out.results[i].target
                == view.results[i].target,
        out == view || (continues_at(
            out.meta.next_cursor,
            stream,
            offset_behind(page_start, out.results.len() as usize),
            targets,
        ) && out.result_complete == (out.meta.next_cursor is None && tells_all(out.results))),
{
    if out != view {
        let max = max->0;
        let keep = choose|keep: usize|
            #[trigger] results_fitted(
                count,
                measure,
                view,
                keep,
                page_start,
                targets,
                stream,
                max,
                out,
            );
        let bare = skeleton(view);
        let chain = choose|chain: Seq<DiffSymbolsView>|
            {
                &&& chain.len() == keep + 1
                &&& page_kept(count, bare, keep, page_start, targets, stream, chain[0])
                &&& #[trigger] restored_chain(count, measure, view, max, chain)
                &&& accounted(count, with_completeness(chain.last()), out)
            };
        lemma_fitted_chain(
            count,
            measure,
            view,
            keep,
            page_start,
            targets,
            stream,
            max,
            chain,
            out,
        );
    }
}

impl Services {
    /// Fits a comparison to the ceiling of the call: as many results as fit
    /// without their differences, then of the differences as much as fits.
    #[verifier::rlimit(40)]
    pub fn fit_diff_symbols_response<
        C: Fn(&str) -> usize,
        S: Fn(&DiffSymbolsResponse, &ResponseMeta, ReceiptResourceDecoration) -> Measurement,
    >(
        response: &mut DiffSymbolsResponse,
        request: &ParsedDiffSymbolsRequest,
        page_start: usize,
        stream_id: StreamId,
        options: ServiceCallOptions,
        count: &C,
        measure: &S,
    ) -> (r: Result<(), Error>)
        requires
            counts_all(*count),
            settles_all::<DiffSymbolsResponse, S>(*measure),
        ensures
            match r {
                Ok(_) => comparison_fitted(
                    *count,
                    *measure,
                    old(response)@,
                    page_start,
                    request.targets@.len(),
                    stream_id@,
                    options.max_response_tokens,
                    final(response)@,
                ),
                Err(e) => *final(response) == *old(response) && options.max_response_tokens is Some
                    && comparison_unfitted(
                    *count,
                    *measure,
                    old(response)@,
                    page_start,
                    request.targets@.len(),
                    stream_id@,
                    options.max_response_tokens->0,
                    e,
                ),
            },
    {
        match response_fits(&*response, options.max_response_tokens, measure) {
            Ok(true) => {
                return Ok(());
            },
            Ok(false) => {},
            Err(e) => {
                return Err(e);
            },
        }
        let max = match options.max_response_tokens {
            Some(max) => max,
            None => {
                return Ok(());
            },
        };
        let ghost view = response@;
        let targets: usize = request.targets.len();
        let total: usize = response.results.len();
        assert(view.results.len() == total);
        let mut bare = response.duplicate();
        bare.results = strip_diffs(&response.results);
        assert(bare@.results =~= skeleton(view).results);
        assert(bare@ == skeleton(view));
        let kept = match largest_page(
            &bare,
            total,
            page_start,
            targets,
            stream_id,
            max,
            count,
            measure,
        ) {
            Ok(kept) => kept,
            Err(e) => {
                return Err(e);
            },
        };
        let keep: usize = match kept {
            Some(keep) => keep,
            None => 0,
        };
        if keep == 0 {
            let minimum = match cut_page(count, &bare, 1, page_start, targets, stream_id) {
                Ok(minimum) => minimum,
                Err(e) => {
                    return Err(e);
                },
            };
            assert(no_result_fits(
                *count,
                *measure,
                view,
                page_start,
                targets as nat,
                stream_id@,
                max,
            ));
            return match response_budget_error(&minimum, max, measure) {
                Ok(error) => Err(error),
                Err(e) => Err(e),
            };
        }
        let fitted = match cut_page(count, &bare, keep, page_start, targets, stream_id) {
            Ok(fitted) => fitted,
            Err(e) => {
                return Err(e);
            },
        };
        let ghost first = fitted@;
        assert(first.results.len() == keep);
        assert(fitted@.results.len() == fitted.results@.len());
        let mut fitted = match restore_all(fitted, &*response, keep, max, count, measure) {
            Ok(fitted) => fitted,
            Err(e) => {
                return Err(e);
            },
        };
        let ghost last = fitted@;
        fitted.result_complete = fitted.meta.next_cursor.is_none() && says_all(&fitted.results);
        assert(fitted@ == with_completeness(last));
        refresh_diff_symbols_accounting(count, &mut fitted);
        assert(results_fitted(
            *count,
            *measure,
            view,
            keep,
            page_start,
            targets as nat,
            stream_id@,
            max,
            fitted@,
        ));
        *response = fitted;
        Ok(())
    }
}

} // verus!
