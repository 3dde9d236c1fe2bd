//! Fitting the answer to a JSON request to the ceiling of a call.

use crate::accounting::{
    Measurement, PrefixSizing, ReceiptResourceDecoration, ResponseBudget, ServiceCallOptions,
};
use crate::cursor::{carries, EnvelopeView, StreamId};
use crate::error::{Error, Fault};
use crate::fitting::{
    above_ceiling, counted_as, counts_all, fits_ceiling, response_budget_error, response_fits,
    response_tokens, settled_as, settles_all, takes_tokens, told_needs,
};
use crate::json::cursor::{
    fingerprint_like, keys_continue_at_their_offset, make_json_cursor, offset_held,
};
use crate::json::key_page::{keys_continued, JsonIncompleteReason};
use crate::json::projection::total;
use crate::json::response::{JsonResponse, JsonResponseView};
use crate::json::source::json_tokens;
use crate::json::value::JsonValue;
use crate::json::view::{
    item_views, item_views_are, item_views_push, json_text, json_view, JsonView,
};
use crate::model::ResponseMeta;
use crate::services::Services;
use crate::text::optional_text;
use vstd::prelude::*;

verus! {

/// Where a page of listed keys comes from, so that it can be cut.
#[derive(Debug)]
pub struct KeyResponseFit {
    pub source_hash: String,
    pub stream_id: StreamId,
    pub offset: usize,
}

/// What a [`KeyResponseFit`] says.
pub struct KeyFitView {
    pub source_hash: Seq<char>,
    pub stream: Seq<u8>,
    pub offset: usize,
}

impl View for KeyResponseFit {
    type V = KeyFitView;

    open spec fn view(&self) -> KeyFitView {
        KeyFitView {
            source_hash: self.source_hash@,
            stream: self.stream_id@,
            offset: self.offset,
        }
    }
}

/// How many keys remain behind a page with its first `keep` keys.
pub open spec fn remaining_after(total_items: Option<usize>, consumed: usize) -> usize {
    match total_items {
        Some(items) => if items > consumed {
            (items - consumed) as usize
        } else {
            0
        },
        None => 0,
    }
}

/// A page with its first `keep` keys, with other metadata.
pub open spec fn shorter_page(
    view: JsonResponseView,
    entries: Seq<JsonView>,
    keep: usize,
    offset: usize,
    meta: ResponseMeta,
) -> JsonResponseView {
    let remaining = remaining_after(view.total_items, total(offset, keep));
    JsonResponseView {
        value: Some(JsonView::Array(entries.take(keep as int))),
        returned_items: Some(keep),
        remaining_items: Some(remaining),
        result_complete: remaining == 0,
        incomplete_reason: if remaining > 0 {
            Some(JsonIncompleteReason::MaxTokens)
        } else {
            None
        },
        meta,
        ..view
    }
}

/// Whether `out` is a page with its first `keep` keys: their tokens are counted,
/// and where keys remain it has a cursor that goes on behind them.
pub open spec fn page_cut<C: Fn(&str) -> usize>(
    count: C,
    view: JsonResponseView,
    entries: Seq<JsonView>,
    keep: usize,
    context: KeyFitView,
    out: JsonResponseView,
) -> bool {
    let consumed = total(context.offset, keep);
    &&& out == shorter_page(
        view,
        entries,
        keep,
        context.offset,
        ResponseMeta {
            source_tokens: out.meta.source_tokens,
            next_cursor: out.meta.next_cursor,
            ..view.meta
        },
    )
    &&& counted_as(
        count,
        json_text(JsonView::Array(entries.take(keep as int))),
        out.meta.source_tokens,
    )
    &&& keys_continued(
        optional_text(out.meta.next_cursor),
        context.stream,
        context.source_hash,
        consumed,
        remaining_after(view.total_items, consumed),
    )
}

/// Whether cutting a page to its first `keep` keys fails.
pub open spec fn page_uncut(
    view: JsonResponseView,
    keep: usize,
    context: KeyFitView,
    fault: Fault,
) -> bool {
    let consumed = total(context.offset, keep);
    &&& remaining_after(view.total_items, consumed) > 0
    &&& !fingerprint_like(context.source_hash) || consumed == 0
    &&& fault == Fault::OperationFailure("invalid JSON continuation state"@)
}

/// Whether a page with its first `keep` keys may be said to take a number of
/// tokens, or measuring it to fail.
pub open spec fn page_takes<
    C: Fn(&str) -> usize,
    S: Fn(&JsonResponse, &ResponseMeta, ReceiptResourceDecoration) -> Measurement,
>(
    count: C,
    measure: S,
    view: JsonResponseView,
    entries: Seq<JsonView>,
    keep: usize,
    context: KeyFitView,
    outcome: Result<usize, Error>,
) -> bool {
    ||| exists|cut: JsonResponseView| #[trigger]
        page_cut(count, view, entries, keep, context, cut) && takes_tokens::<JsonResponse, S>(
            measure,
            cut,
            outcome,
        )
    ||| outcome is Err && page_uncut(view, keep, context, outcome->Err_0@)
}

/// Whether a page with its first `keep` keys may be said to fit.
pub open spec fn page_fits<
    C: Fn(&str) -> usize,
    S: Fn(&JsonResponse, &ResponseMeta, ReceiptResourceDecoration) -> Measurement,
>(
    count: C,
    measure: S,
    view: JsonResponseView,
    entries: Seq<JsonView>,
    keep: usize,
    context: KeyFitView,
    max: usize,
) -> bool {
    exists|tokens: usize|
        tokens <= max && #[trigger] page_takes(
            count,
            measure,
            view,
            entries,
            keep,
            context,
            Ok(tokens),
        )
}

/// Whether a page with its first `keep` keys may be said not to fit.
pub open spec fn page_exceeds<
    C: Fn(&str) -> usize,
    S: Fn(&JsonResponse, &ResponseMeta, ReceiptResourceDecoration) -> Measurement,
>(
    count: C,
    measure: S,
    view: JsonResponseView,
    entries: Seq<JsonView>,
    keep: usize,
    context: KeyFitView,
    max: usize,
) -> bool {
    exists|tokens: usize|
        tokens > max && #[trigger] page_takes(
            count,
            measure,
            view,
            entries,
            keep,
            context,
            Ok(tokens),
        )
}

fn first_entries(entries: &Vec<JsonValue>, keep: usize) -> (r: JsonValue)
    requires
        keep <= entries.len(),
    ensures
        r@ == JsonView::Array(item_views(entries@).take(keep as int)),
{
    let ghost all = item_views(entries@);
    proof {
        item_views_are(entries@);
    }
    let mut out: Vec<JsonValue> = Vec::new();
    let mut i: usize = 0;
    assert(item_views(out@) =~= all.take(0));
    while i < keep
        invariant
            i <= keep <= entries.len(),
            all == item_views(entries@),
            all.len() == entries@.len(),
            forall|k: int| 0 <= k < all.len() ==> #[trigger] all[k] == json_view(entries@[k]),
            item_views(out@) == all.take(i as int),
        decreases keep - i,
    {
        let ghost before = out@;
        let copy = entries[i].duplicate();
        let ghost added = copy;
        out.push(copy);
        proof {
            item_views_push(before, added);
            assert(all[i as int] == json_view(entries@[i as int]));
            assert(all.take(i + 1) =~= all.take(i as int).push(all[i as int]));
        }
        i += 1;
    }
    JsonValue::Array(out)
}

fn cut_page<C: Fn(&str) -> usize>(
    count: &C,
    response: &JsonResponse,
    entries: &Vec<JsonValue>,
    keep: usize,
    context: &KeyResponseFit,
) -> (r: Result<JsonResponse, Error>)
    requires
        counts_all(*count),
        keep <= entries.len(),
    ensures
        match r {
            Ok(out) => page_cut(
                *count,
                response@,
                item_views(entries@),
                keep,
                context@,
                out@,
            ),
            Err(e) => page_uncut(response@, keep, context@, e@),
        },
{
    let consumed: usize = context.offset.saturating_add(keep);
    let all: usize = match response.total_items {
        Some(items) => items,
        None => consumed,
    };
    let remaining: usize = all.saturating_sub(consumed);
    assert(remaining == remaining_after(response@.total_items, consumed));
    let next_cursor = if remaining > 0 {
        match make_json_cursor(context.stream_id, context.source_hash.as_str(), consumed) {
            Ok(text) => Some(text),
            Err(e) => {
                return Err(e);
            },
        }
    } else {
        None
    };
    let value = first_entries(entries, keep);
    let source_tokens: usize = json_tokens(count, &value);
    let mut out = response.duplicate();
    let ghost was = out@;
    out.value = Some(value);
    out.returned_items = Some(keep);
    out.remaining_items = Some(remaining);
    out.result_complete = remaining == 0;
    out.incomplete_reason = if remaining > 0 {
        Some(JsonIncompleteReason::MaxTokens)
    } else {
        None
    };
    out.meta.next_cursor = next_cursor;
    out.meta.source_tokens = source_tokens;
    assert(out@ == shorter_page(
        response@,
        item_views(entries@),
        keep,
        context.offset,
        ResponseMeta {
            source_tokens: out@.meta.source_tokens,
            next_cursor: out@.meta.next_cursor,
            ..response@.meta
        },
    ));
    Ok(out)
}

struct KeySizing<
    'a,
    C: Fn(&str) -> usize,
    S: Fn(&JsonResponse, &ResponseMeta, ReceiptResourceDecoration) -> Measurement,
> {
    response: &'a JsonResponse,
    entries: &'a Vec<JsonValue>,
    context: &'a KeyResponseFit,
    count: &'a C,
    measure: &'a S,
}

impl<
    'a,
    C: Fn(&str) -> usize,
    S: Fn(&JsonResponse, &ResponseMeta, ReceiptResourceDecoration) -> Measurement,
> PrefixSizing for KeySizing<'a, C, S> {
    closed spec fn ready(&self) -> bool {
        counts_all(*self.count) && settles_all::<JsonResponse, S>(*self.measure)
    }

    closed spec fn says(&self, keep: usize, outcome: Result<usize, Error>) -> bool {
        if 0 < keep <= self.entries@.len() {
            page_takes(
                *self.count,
                *self.measure,
                self.response@,
                item_views(self.entries@),
                keep,
                self.context@,
                outcome,
            )
        } else {
            outcome is Ok && outcome->Ok_0 == 0
        }
    }

    fn tokens(&self, keep: usize) -> (r: Result<usize, Error>) {
        if keep == 0 || keep > self.entries.len() {
            return Ok(0);
        }
        match cut_page(self.count, self.response, self.entries, keep, self.context) {
            Ok(candidate) => {
                assert(page_cut(
                    *self.count,
                    self.response@,
                    item_views(self.entries@),
                    keep,
                    self.context@,
                    candidate@,
                ));
                response_tokens(&candidate, self.measure)
            },
            Err(e) => Err(e),
        }
    }
}

/// How many keys of a page fit: none where not even one does.
fn keys_that_fit<C: Fn(&str) -> usize, S: Fn(&JsonResponse, &ResponseMeta, ReceiptResourceDecoration) -> Measurement>(
    response: &JsonResponse,
    entries: &Vec<JsonValue>,
    context: &KeyResponseFit,
    max: usize,
    count: &C,
    measure: &S,
) -> (r: Result<usize, Error>)
    requires
        counts_all(*count),
        settles_all::<JsonResponse, S>(*measure),
    ensures
        ({
            let all = item_views(entries@);
            match r {
                Ok(keep) => {
                    &&& keep <= entries@.len()
                    &&& keep > 0 ==> page_fits(
                        *count,
                        *measure,
                        response@,
                        all,
                        keep,
                        context@,
                        max,
                    )
                    &&& keep < entries@.len() ==> page_exceeds(
                        *count,
                        *measure,
                        response@,
                        all,
                        (keep + 1) as usize,
                        context@,
                        max,
                    )
                },
                Err(e) => exists|keep: usize|
                    0 < keep <= entries@.len() && #[trigger] page_takes(
                        *count,
                        *measure,
                        response@,
                        all,
                        keep,
                        context@,
                        Err(e),
                    ),
            }
        }),
{
    let sizing = KeySizing { response, entries, context, count, measure };
    let items: usize = entries.len();
    let kept = ResponseBudget::new(max).largest_fitting_prefix(items, &sizing);
    let ghost all = item_views(entries@);
    let ghost view = response@;
    let ghost origin = context@;
    proof {
        if kept is Err {
            let e = kept->Err_0;
            let keep = choose|keep: usize|
                keep <= items && #[trigger] sizing.says(keep, Err::<usize, Error>(e));
            assert(sizing.says(keep, Err::<usize, Error>(e)));
            assert(page_takes(*count, *measure, view, all, keep, origin, Err(e)));
        } else if let Ok(Some(keep)) = kept {
            if keep > 0 {
                let tokens = choose|tokens: usize|
                    tokens <= max && #[trigger] sizing.says(keep, Ok(tokens));
                assert(page_takes(*count, *measure, view, all, keep, origin, Ok(tokens)));
            }
            if keep < items {
                let next = (keep + 1) as usize;
                let more = choose|more: usize| more > max && #[trigger] sizing.says(next, Ok(more));
                assert(page_takes(*count, *measure, view, all, next, origin, Ok(more)));
            }
        } else {
            let tokens = choose|tokens: usize| tokens > max && #[trigger] sizing.says(0, Ok(tokens));
            assert(sizing.says(0, Ok(tokens)));
            assert(false);
        }
    }
    match kept {
        Ok(Some(keep)) => Ok(keep),
        Ok(None) => Ok(0),
        Err(e) => Err(e),
    }
}

/// The listed keys of an answer, where it lists keys that can be cut.
pub open spec fn cut_entries(view: JsonResponseView, context: Option<KeyFitView>) -> Option<
    Seq<JsonView>,
> {
    match (context, view.value) {
        (Some(_), Some(JsonView::Array(entries))) => Some(entries),
        _ => None,
    }
}

/// Whether `out` is a page with as many keys as fit.
pub open spec fn keys_fitted<
    C: Fn(&str) -> usize,
    S: Fn(&JsonResponse, &ResponseMeta, ReceiptResourceDecoration) -> Measurement,
>(
    count: C,
    measure: S,
    view: JsonResponseView,
    entries: Seq<JsonView>,
    keep: usize,
    context: KeyFitView,
    max: usize,
    out: JsonResponseView,
) -> bool {
    &&& 0 < keep <= entries.len()
    &&& page_cut(count, view, entries, keep, context, out)
    &&& page_fits(count, measure, view, entries, keep, context, max)
    &&& keep < entries.len() ==> page_exceeds(
        count,
        measure,
        view,
        entries,
        (keep + 1) as usize,
        context,
        max,
    )
}

/// Whether `out` is a page with as many keys as fit, whatever their number.
pub open spec fn some_keys_fitted<
    C: Fn(&str) -> usize,
    S: Fn(&JsonResponse, &ResponseMeta, ReceiptResourceDecoration) -> Measurement,
>(
    count: C,
    measure: S,
    view: JsonResponseView,
    entries: Seq<JsonView>,
    context: KeyFitView,
    max: usize,
    out: JsonResponseView,
) -> bool {
    exists|keep: usize| #[trigger]
        keys_fitted(count, measure, view, entries, keep, context, max, out)
}

/// Whether an answer may be fitted to a ceiling as `out`: as it is, or as the page
/// with as many of its keys as fit.
pub open spec fn json_fitted<
    C: Fn(&str) -> usize,
    S: Fn(&JsonResponse, &ResponseMeta, ReceiptResourceDecoration) -> Measurement,
>(
    count: C,
    measure: S,
    view: JsonResponseView,
    context: Option<KeyFitView>,
    max: Option<usize>,
    out: JsonResponseView,
) -> bool {
    match max {
        None => out == view,
        Some(limit) => {
            ||| fits_ceiling::<JsonResponse, S>(measure, view, limit) && out == view
            ||| {
                &&& above_ceiling::<JsonResponse, S>(measure, view, limit)
                &&& cut_entries(view, context) is Some
                &&& some_keys_fitted(
                    count,
                    measure,
                    view,
                    cut_entries(view, context)->0,
                    context->0,
                    limit,
                    out,
                )
            }
        },
    }
}

/// Whether an answer may be told to need more, or measuring it to fail.
pub open spec fn needs_told<
    S: Fn(&JsonResponse, &ResponseMeta, ReceiptResourceDecoration) -> Measurement,
>(
    measure: S,
    view: JsonResponseView,
    max: usize,
    error: Error,
) -> bool {
    told_needs::<JsonResponse, S>(measure, view, max, error) || settled_as::<JsonResponse, S>(
        measure,
        view,
        Err(error),
    )
}

/// Whether a page may be told to need more where not even its first key fits.
pub open spec fn first_key_told<
    C: Fn(&str) -> usize,
    S: Fn(&JsonResponse, &ResponseMeta, ReceiptResourceDecoration) -> Measurement,
>(
    count: C,
    measure: S,
    view: JsonResponseView,
    entries: Seq<JsonView>,
    context: KeyFitView,
    max: usize,
    error: Error,
) -> bool {
    &&& page_exceeds(count, measure, view, entries, 1, context, max)
    &&& exists|minimum: JsonResponseView| #[trigger]
        page_cut(count, view, entries, 1, context, minimum) && needs_told(
            measure,
            minimum,
            max,
            error,
        )
}

/// Whether measuring a page with some of its keys may fail.
pub open spec fn keys_unmeasured<
    C: Fn(&str) -> usize,
    S: Fn(&JsonResponse, &ResponseMeta, ReceiptResourceDecoration) -> Measurement,
>(
    count: C,
    measure: S,
    view: JsonResponseView,
    entries: Seq<JsonView>,
    context: KeyFitView,
    error: Error,
) -> bool {
    exists|keep: usize|
        0 < keep <= entries.len() && #[trigger] page_takes(
            count,
            measure,
            view,
            entries,
            keep,
            context,
            Err(error),
        )
}

/// Whether fitting an answer to a ceiling may fail with an error: measuring it
/// failed, or neither it nor a page with one of its keys fits, and that is told.
pub open spec fn json_unfitted<
    C: Fn(&str) -> usize,
    S: Fn(&JsonResponse, &ResponseMeta, ReceiptResourceDecoration) -> Measurement,
>(
    count: C,
    measure: S,
    view: JsonResponseView,
    context: Option<KeyFitView>,
    max: Option<usize>,
    error: Error,
) -> bool {
    match max {
        None => false,
        Some(limit) => {
            ||| settled_as::<JsonResponse, S>(measure, view, Err(error))
            ||| {
                &&& above_ceiling::<JsonResponse, S>(measure, view, limit)
                &&& match cut_entries(view, context) {
                    Some(entries) if entries.len() > 0 => {
                        ||| keys_unmeasured(count, measure, view, entries, context->0, error)
                        ||| first_key_told(
                            count,
                            measure,
                            view,
                            entries,
                            context->0,
                            limit,
                            error,
                        )
                    },
                    _ => needs_told(measure, view, limit, error),
                }
            }
        },
    }
}

fn tell_needs<S: Fn(&JsonResponse, &ResponseMeta, ReceiptResourceDecoration) -> Measurement>(
    response: &JsonResponse,
    max: usize,
    measure: &S,
) -> (r: Error)
    requires
        settles_all::<JsonResponse, S>(*measure),
    ensures
        needs_told(*measure, response@, max, r),
{
    match response_budget_error(response, max, measure) {
        Ok(error) => error,
        Err(e) => e,
    }
}

fn fit_keys<C: Fn(&str) -> usize, S: Fn(&JsonResponse, &ResponseMeta, ReceiptResourceDecoration) -> Measurement>(
    response: &JsonResponse,
    entries: &Vec<JsonValue>,
    context: &KeyResponseFit,
    max: usize,
    count: &C,
    measure: &S,
) -> (r: Result<JsonResponse, Error>)
    requires
        counts_all(*count),
        settles_all::<JsonResponse, S>(*measure),
        entries.len() > 0,
    ensures
        ({
            let all = item_views(entries@);
            match r {
                Ok(out) => some_keys_fitted(
                    *count,
                    *measure,
                    response@,
                    all,
                    context@,
                    max,
                    out@,
                ),
                Err(e) => keys_unmeasured(*count, *measure, response@, all, context@, e)
                    || first_key_told(*count, *measure, response@, all, context@, max, e),
            }
        }),
{
    let ghost all = item_views(entries@);
    proof {
        item_views_are(entries@);
    }
    let keep: usize = match keys_that_fit(response, entries, context, max, count, measure) {
        Ok(keep) => keep,
        Err(e) => {
            return Err(e);
        },
    };
    if keep > 0 {
        match cut_page(count, response, entries, keep, context) {
            Ok(out) => {
                assert(keys_fitted(
                    *count,
                    *measure,
                    response@,
                    all,
                    keep,
                    context@,
                    max,
                    out@,
                ));
                return Ok(out);
            },
            Err(e) => {
                assert(page_takes(*count, *measure, response@, all, keep, context@, Err(e)));
                return Err(e);
            },
        }
    }
    match cut_page(count, response, entries, 1, context) {
        Ok(minimum) => {
            let e = tell_needs(&minimum, max, measure);
            assert(page_cut(*count, response@, all, 1, context@, minimum@));
            Err(e)
        },
        Err(e) => {
            assert(page_takes(*count, *measure, response@, all, 1, context@, Err(e)));
            Err(e)
        },
    }
}

impl Services {
    /// Fits an answer to the ceiling of a call. Of listed keys as many are kept as
    /// fit; everything else fits as it is or not at all.
    pub fn fit_json_response<
        C: Fn(&str) -> usize,
        S: Fn(&JsonResponse, &ResponseMeta, ReceiptResourceDecoration) -> Measurement,
    >(
        response: JsonResponse,
        key_page_context: Option<&KeyResponseFit>,
        options: ServiceCallOptions,
        count: &C,
        measure: &S,
    ) -> (r: Result<JsonResponse, Error>)
        requires
            counts_all(*count),
            settles_all::<JsonResponse, S>(*measure),
        ensures
            ({
                let context = match key_page_context {
                    Some(inner) => Some(inner@),
                    None => None,
                };
                match r {
                    Ok(out) => json_fitted(
                        *count,
                        *measure,
                        response@,
                        context,
                        options.max_response_tokens,
                        out@,
                    ),
                    Err(e) => json_unfitted(
                        *count,
                        *measure,
                        response@,
                        context,
                        options.max_response_tokens,
                        e,
                    ),
                }
            }),
    {
        let max = match options.max_response_tokens {
            Some(max) => max,
            None => {
                return Ok(response);
            },
        };
        match response_fits(&response, Some(max), measure) {
            Ok(fits) => {
                if fits {
                    return Ok(response);
                }
            },
            Err(e) => {
                return Err(e);
            },
        }
        if let Some(context) = key_page_context {
            if let Some(JsonValue::Array(entries)) = &response.value {
                proof {
                    item_views_are(entries@);
                    assert(response@.value == Some(JsonView::Array(item_views(entries@))));
                }
                if entries.len() > 0 {
                    let fitted = fit_keys(&response, entries, context, max, count, measure);
                    assert(cut_entries(response@, Some(context@)) == Some(item_views(entries@)));
                    return fitted;
                }
            }
        }
        Err(tell_needs(&response, max, measure))
    }
}

/// A page that is cut accounts for every key all the same, and what is read of
/// its cursor goes on behind the last key that was kept.
pub proof fn a_cut_page_goes_on_where_it_ends<C: Fn(&str) -> usize>(
    count: C,
    view: JsonResponseView,
    entries: Seq<JsonView>,
    keep: usize,
    context: KeyFitView,
    items: usize,
    out: JsonResponseView,
    read: EnvelopeView,
)
    requires
        page_cut(count, view, entries, keep, context, out),
        view.total_items == Some(items),
        0 < keep <= entries.len(),
        context.offset + keep <= items,
        fingerprint_like(context.source_hash),
        out.meta.next_cursor matches Some(text) ==> carries(text@, read),
    ensures
        out.value == Some(JsonView::Array(entries.take(keep as int))),
        out.returned_items == Some(keep),
        out.remaining_items == Some((items - context.offset - keep) as usize),
        out.result_complete <==> out.meta.next_cursor is None,
        out.meta.next_cursor is Some ==> offset_held(read, context.source_hash, context.stream)
            == Some((context.offset + keep) as usize),
{
    if let Some(text) = out.meta.next_cursor {
        keys_continue_at_their_offset(
            text@,
            read,
            context.stream,
            context.source_hash,
            (context.offset + keep) as usize,
        );
    }
}

} // verus!
