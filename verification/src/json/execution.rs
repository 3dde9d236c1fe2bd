//! Queries and summaries of JSON files.

use crate::cursor::{EnvelopeView, StreamId};
use crate::error::{Error, Fault};
use crate::fitting::{counted_as, counts_all};
use crate::json::cursor::JsonCursor;
use crate::json::fit::{KeyFitView, KeyResponseFit};
use crate::json::jmespath::SelectorFailure;
use crate::json::key_page::{
    key_page_outcome, key_page_result, project_key_page, start_of, JsonIncompleteReason,
    KeyProjectionContext, KeyProjectionPage,
};
use crate::json::keys::listed_keys;
use crate::json::numeric::{
    collect_numbers, numbers_of, ranks_of, summary_ranks, NumbersView, SummaryRanks,
};
use crate::json::options::JsonExecutionOptions;
use crate::json::project::{project_json, projected, projected_count, projection_item_count};
use crate::json::projection::{JsonProjection, ProjectionState};
use crate::json::response::{
    query_response, query_view, Completeness, FieldDiffView, JsonFieldDiff, JsonNumericSummary,
    JsonResponse, JsonResponseView, NumericFigures,
};
use crate::json::schema_page::{
    project_schema_page, schema_outcome, schema_result, SchemaProjection,
};
use crate::json::selection::{
    finds_all, nothing_selected, reads_all, select_json, selected_result, selector_view, selects,
    ParsedJsonSelector, SelectedJson, SelectorView,
};
use crate::json::source::{json_tokens, JsonMeasurementCache, JsonSource, LoadedJson, SourceView};
use crate::json::value::JsonValue;
use crate::json::view::{json_text, JsonView};
use crate::model::ResponseMeta;
use crate::ordered::views;
use crate::services::Services;
use crate::text::{copy_text, texts};
use vstd::prelude::*;

verus! {

/// What answers a JSON request: `load` reads a file, `count` counts the tokens of
/// a text, `measure` counts those of a serialized answer, `search` evaluates the
/// expressions that are not plain, `read` reads a text as JSON, and `summarize`
/// says which numbers stand at ranks.
pub struct JsonPorts<L, C, S, Q, R, N> {
    pub load: L,
    pub count: C,
    pub measure: S,
    pub search: Q,
    pub read: R,
    pub summarize: N,
}

/// How much a request may take.
#[derive(Debug, Clone, Copy, PartialEq, Eq, Structural)]
pub struct JsonLimits {
    pub max_tokens: usize,
    pub max_items: usize,
    pub array_sample_size: usize,
}

/// Whether loading a file may say `said`.
pub open spec fn load_said<L: Fn(&str) -> Result<LoadedJson, Error>>(
    load: L,
    path: Seq<char>,
    said: Result<LoadedJson, Error>,
) -> bool {
    exists|text: &str| (#[trigger] call_ensures(load, (text,), said)) && text@ == path
}

/// Whether every file can be asked for.
pub open spec fn loads_all<L: Fn(&str) -> Result<LoadedJson, Error>>(load: L) -> bool {
    forall|text: &str| call_requires(load, (text,))
}

/// Loads a file.
pub(crate) fn load_file<L: Fn(&str) -> Result<LoadedJson, Error>>(load: &L, path: &str) -> (r:
    Result<LoadedJson, Error>)
    requires
        loads_all(*load),
    ensures
        load_said(*load, path@, r),
{
    load(path)
}

/// An answer before it is fitted.
#[derive(Debug)]
pub struct JsonOperationResult {
    pub response: JsonResponse,
    pub baseline_source_tokens: usize,
    pub projected_tokens: usize,
    pub key_response_fit: Option<KeyResponseFit>,
}

/// What a [`JsonOperationResult`] says.
#[verifier::ext_equal]
pub struct OperationResultView {
    pub response: JsonResponseView,
    pub baseline_source_tokens: usize,
    pub projected_tokens: usize,
    pub key_response_fit: Option<KeyFitView>,
}

impl View for JsonOperationResult {
    type V = OperationResultView;

    open spec fn view(&self) -> OperationResultView {
        OperationResultView {
            response: self.response@,
            baseline_source_tokens: self.baseline_source_tokens,
            projected_tokens: self.projected_tokens,
            key_response_fit: match self.key_response_fit {
                Some(fit) => Some(fit@),
                None => None,
            },
        }
    }
}

/// A result, as what it says.
pub open spec fn operation_result(r: Result<JsonOperationResult, Error>) -> Result<
    OperationResultView,
    Fault,
> {
    match r {
        Ok(out) => Ok(out@),
        Err(e) => Err(e@),
    }
}

/// Whether a page of keys may be said to be `page`.
pub open spec fn key_page_said<C: Fn(&str) -> usize>(
    count: C,
    entries: Seq<JsonView>,
    offset: usize,
    limits: JsonLimits,
    stream: Seq<u8>,
    source_hash: Seq<char>,
    page: Result<KeyProjectionPage, Error>,
) -> bool {
    key_page_outcome(
        count,
        entries,
        offset,
        limits.max_items,
        limits.max_tokens,
        stream,
        source_hash,
        key_page_result(page),
    )
}

/// The answer that lists a page of keys.
pub open spec fn keys_outcome(
    page: Result<KeyProjectionPage, Error>,
    source: SourceView,
    source_tokens: usize,
    stream: Seq<u8>,
    offset: usize,
    meta: ResponseMeta,
) -> Result<OperationResultView, Fault> {
    match page {
        Ok(page) => Ok(
            OperationResultView {
                response: query_view(
                    source,
                    page.value@,
                    Some(
                        Completeness {
                            total: page.total_items,
                            returned: page.returned_items,
                            remaining: page.remaining_items,
                            reason: page.incomplete_reason,
                        },
                    ),
                    ResponseMeta { next_cursor: page.next_cursor, ..meta },
                ),
                baseline_source_tokens: source_tokens,
                projected_tokens: page.projected_tokens,
                key_response_fit: Some(
                    KeyFitView { source_hash: source.content_hash, stream, offset },
                ),
            },
        ),
        Err(e) => Err(e@),
    }
}

/// Whether listing a page of keys may be answered so.
pub open spec fn keys_answered<C: Fn(&str) -> usize>(
    count: C,
    entries: Seq<JsonView>,
    start: Option<usize>,
    limits: JsonLimits,
    stream: Seq<u8>,
    source: SourceView,
    source_tokens: usize,
    meta: ResponseMeta,
    outcome: Result<OperationResultView, Fault>,
) -> bool {
    match start {
        None => outcome == Err::<OperationResultView, Fault>(Fault::StaleCursor),
        Some(offset) => exists|page: Result<KeyProjectionPage, Error>| #[trigger]
            key_page_said(count, entries, offset, limits, stream, source.content_hash, page)
                && outcome == keys_outcome(page, source, source_tokens, stream, offset, meta),
    }
}

/// Whether a shape within limits may be said to be `page`.
pub open spec fn schema_said<C: Fn(&str) -> usize>(
    count: C,
    value: JsonView,
    max_items: usize,
    max_tokens: usize,
    page: Result<SchemaProjection, Error>,
) -> bool {
    schema_outcome(count, value, max_items, max_tokens, schema_result(page))
}

/// The answer that shows a shape. Numbers of items are told where some remain.
pub open spec fn shape_outcome(
    page: Result<SchemaProjection, Error>,
    source: SourceView,
    source_tokens: usize,
    meta: ResponseMeta,
) -> Result<OperationResultView, Fault> {
    match page {
        Ok(page) => Ok(
            OperationResultView {
                response: query_view(
                    source,
                    page.value@,
                    if page.remaining_items > 0 {
                        Some(
                            Completeness {
                                total: page.total_items,
                                returned: page.returned_items,
                                remaining: page.remaining_items,
                                reason: page.incomplete_reason,
                            },
                        )
                    } else {
                        None
                    },
                    ResponseMeta { next_cursor: None, ..meta },
                ),
                baseline_source_tokens: source_tokens,
                projected_tokens: page.projected_tokens,
                key_response_fit: None,
            },
        ),
        Err(e) => Err(e@),
    }
}

/// Whether showing a shape may be answered so.
pub open spec fn shape_answered<C: Fn(&str) -> usize>(
    count: C,
    value: JsonView,
    limits: JsonLimits,
    source: SourceView,
    source_tokens: usize,
    meta: ResponseMeta,
    outcome: Result<OperationResultView, Fault>,
) -> bool {
    exists|page: Result<SchemaProjection, Error>| #[trigger]
        schema_said(count, value, limits.max_items, limits.max_tokens, page) && outcome
            == shape_outcome(page, source, source_tokens, meta)
}

/// The smaller of two numbers.
pub open spec fn smaller(a: usize, b: usize) -> usize {
    if a < b {
        a
    } else {
        b
    }
}

/// Whether showing a value, whole or collapsed, may be answered so. Numbers of
/// items are told where something was left out.
pub open spec fn value_answered<C: Fn(&str) -> usize>(
    count: C,
    value: JsonView,
    projection: JsonProjection,
    limits: JsonLimits,
    source: SourceView,
    source_tokens: usize,
    meta: ResponseMeta,
    outcome: Result<OperationResultView, Fault>,
) -> bool {
    let all = projected_count(value, projection, limits.array_sample_size) as usize;
    let shown = projected(
        value,
        projection,
        ProjectionState {
            remaining: limits.max_items,
            array_sample_size: limits.array_sample_size,
            complete: true,
        },
    );
    match shown.0 {
        Err(fault) => outcome == Err::<OperationResultView, Fault>(fault),
        Ok(view) => exists|tokens: usize| #[trigger]
            counted_as(count, json_text(view), tokens) && outcome == Ok::<
                OperationResultView,
                Fault,
            >(
                OperationResultView {
                    response: query_view(
                        source,
                        view,
                        if !shown.1.complete {
                            Some(
                                Completeness {
                                    total: all,
                                    returned: smaller(all, limits.max_items),
                                    remaining: (all - smaller(all, limits.max_items)) as usize,
                                    reason: Some(JsonIncompleteReason::MaxItems),
                                },
                            )
                        } else {
                            None
                        },
                        ResponseMeta { next_cursor: None, ..meta },
                    ),
                    baseline_source_tokens: source_tokens,
                    projected_tokens: tokens,
                    key_response_fit: None,
                },
            ),
    }
}

/// What a query asks of the value that it selects.
pub struct QueryTerms {
    pub projection: JsonProjection,
    pub limits: JsonLimits,
    pub cursor: Option<EnvelopeView>,
    pub stream: Seq<u8>,
    pub execution: JsonExecutionOptions,
}

/// Whether a query may be answered so of the value that it selected.
pub open spec fn selected_answered<C: Fn(&str) -> usize>(
    count: C,
    value: JsonView,
    source: SourceView,
    source_tokens: usize,
    terms: QueryTerms,
    meta: ResponseMeta,
    outcome: Result<OperationResultView, Fault>,
) -> bool {
    match terms.projection {
        JsonProjection::Keys => keys_answered(
            count,
            listed_keys(value, terms.execution.depth, terms.execution.key_order),
            start_of(terms.cursor, source.content_hash, terms.stream),
            terms.limits,
            terms.stream,
            source,
            source_tokens,
            meta,
            outcome,
        ),
        JsonProjection::Schema => shape_answered(
            count,
            value,
            terms.limits,
            source,
            source_tokens,
            meta,
            outcome,
        ),
        _ => value_answered(
            count,
            value,
            terms.projection,
            terms.limits,
            source,
            source_tokens,
            meta,
            outcome,
        ),
    }
}

/// Whether selecting of a value may say `said`.
pub open spec fn select_said<
    Q: Fn(&str, &str) -> Result<String, SelectorFailure>,
    R: Fn(&str) -> Result<JsonValue, Error>,
>(
    value: JsonView,
    selector: Option<SelectorView>,
    search: Q,
    read: R,
    said: Result<SelectedJson, Error>,
) -> bool {
    selects(value, selector, search, read, selected_result(said))
}

/// Whether a query may be answered so of a file.
pub open spec fn query_of<
    C: Fn(&str) -> usize,
    Q: Fn(&str, &str) -> Result<String, SelectorFailure>,
    R: Fn(&str) -> Result<JsonValue, Error>,
>(
    count: C,
    search: Q,
    read: R,
    value: JsonView,
    source: SourceView,
    source_tokens: usize,
    selector: Option<SelectorView>,
    terms: QueryTerms,
    meta: ResponseMeta,
    outcome: Result<OperationResultView, Fault>,
) -> bool {
    exists|said: Result<SelectedJson, Error>| #[trigger]
        select_said(value, selector, search, read, said) && match selected_result(said) {
            Err(fault) => outcome == Err::<OperationResultView, Fault>(fault),
            Ok(None) => outcome == Err::<OperationResultView, Fault>(nothing_selected()),
            Ok(Some(inner)) => selected_answered(
                count,
                inner,
                source,
                source_tokens,
                terms,
                meta,
                outcome,
            ),
        }
}

/// Whether a query may be answered so.
pub open spec fn query_answered<
    L: Fn(&str) -> Result<LoadedJson, Error>,
    C: Fn(&str) -> usize,
    S,
    Q: Fn(&str, &str) -> Result<String, SelectorFailure>,
    R: Fn(&str) -> Result<JsonValue, Error>,
    N,
>(
    ports: JsonPorts<L, C, S, Q, R, N>,
    path: Seq<char>,
    selector: Option<SelectorView>,
    terms: QueryTerms,
    meta: ResponseMeta,
    outcome: Result<OperationResultView, Fault>,
) -> bool {
    exists|loaded: Result<LoadedJson, Error>| #[trigger]
        load_said(ports.load, path, loaded) && match loaded {
            Err(e) => outcome == Err::<OperationResultView, Fault>(e@),
            Ok(file) => query_of(
                ports.count,
                ports.search,
                ports.read,
                file@.value,
                file@.source,
                file@.source_tokens,
                selector,
                terms,
                meta,
                outcome,
            ),
        }
}

fn answer_keys<C: Fn(&str) -> usize>(
    count: &C,
    value: &JsonValue,
    source: JsonSource,
    source_tokens: usize,
    limits: JsonLimits,
    cursor: Option<&JsonCursor>,
    stream_id: StreamId,
    execution: JsonExecutionOptions,
    meta: ResponseMeta,
    measurements: &mut JsonMeasurementCache,
) -> (r: Result<JsonOperationResult, Error>)
    requires
        counts_all(*count),
        old(measurements).valid(*count),
    ensures
        final(measurements).valid(*count),
        keys_answered(
            *count,
            listed_keys(value@, execution.depth, execution.key_order),
            start_of(
                match cursor {
                    Some(inner) => Some(inner.envelope@),
                    None => None,
                },
                source@.content_hash,
                stream_id@,
            ),
            limits,
            stream_id@,
            source@,
            source_tokens,
            meta,
            operation_result(r),
        ),
{
    let source_hash = source.content_hash.clone();
    let offset: usize = match cursor {
        Some(cursor) => match cursor.offset_for(source_hash.as_str(), stream_id) {
            Ok(offset) => offset,
            Err(e) => {
                return Err(e);
            },
        },
        None => 0,
    };
    let context = KeyProjectionContext::new(cursor, source_hash.as_str(), stream_id, execution);
    let page = project_key_page(
        count,
        value,
        limits.max_items,
        limits.max_tokens,
        context,
        measurements,
    );
    let ghost entries = listed_keys(value@, execution.depth, execution.key_order);
    let ghost told = page;
    assert(key_page_said(
        *count,
        entries,
        offset,
        limits,
        stream_id@,
        source@.content_hash,
        told,
    ));
    let ghost from = source@;
    let ghost given = meta;
    match page {
        Ok(page) => {
            let mut meta = meta;
            let completeness = Completeness {
                total: page.total_items,
                returned: page.returned_items,
                remaining: page.remaining_items,
                reason: page.incomplete_reason,
            };
            meta.next_cursor = page.next_cursor;
            let projected_tokens: usize = page.projected_tokens;
            let response = query_response(source, page.value, Some(completeness), meta);
            let out = JsonOperationResult {
                response,
                baseline_source_tokens: source_tokens,
                projected_tokens,
                key_response_fit: Some(KeyResponseFit { source_hash, stream_id, offset }),
            };
            assert(Ok::<OperationResultView, Fault>(out@) == keys_outcome(
                told,
                from,
                source_tokens,
                stream_id@,
                offset,
                given,
            ));
            Ok(out)
        },
        Err(e) => {
            assert(Err::<OperationResultView, Fault>(e@) == keys_outcome(
                told,
                from,
                source_tokens,
                stream_id@,
                offset,
                given,
            ));
            Err(e)
        },
    }
}

fn answer_shape<C: Fn(&str) -> usize>(
    count: &C,
    value: &JsonValue,
    source: JsonSource,
    source_tokens: usize,
    limits: JsonLimits,
    meta: ResponseMeta,
) -> (r: Result<JsonOperationResult, Error>)
    requires
        counts_all(*count),
    ensures
        shape_answered(
            *count,
            value@,
            limits,
            source@,
            source_tokens,
            meta,
            operation_result(r),
        ),
{
    let page = project_schema_page(count, value, limits.max_items, limits.max_tokens);
    let ghost told = page;
    assert(schema_said(*count, value@, limits.max_items, limits.max_tokens, told));
    let ghost from = source@;
    let ghost given = meta;
    match page {
        Ok(page) => {
            let mut meta = meta;
            meta.next_cursor = None;
            let completeness = if page.remaining_items > 0 {
                Some(
                    Completeness {
                        total: page.total_items,
                        returned: page.returned_items,
                        remaining: page.remaining_items,
                        reason: page.incomplete_reason,
                    },
                )
            } else {
                None
            };
            let projected_tokens: usize = page.projected_tokens;
            let out = JsonOperationResult {
                response: query_response(source, page.value, completeness, meta),
                baseline_source_tokens: source_tokens,
                projected_tokens,
                key_response_fit: None,
            };
            assert(Ok::<OperationResultView, Fault>(out@) == shape_outcome(
                told,
                from,
                source_tokens,
                given,
            ));
            Ok(out)
        },
        Err(e) => {
            assert(Err::<OperationResultView, Fault>(e@) == shape_outcome(
                told,
                from,
                source_tokens,
                given,
            ));
            Err(e)
        },
    }
}

fn answer_value<C: Fn(&str) -> usize>(
    count: &C,
    value: &JsonValue,
    projection: JsonProjection,
    source: JsonSource,
    source_tokens: usize,
    limits: JsonLimits,
    meta: ResponseMeta,
) -> (r: Result<JsonOperationResult, Error>)
    requires
        counts_all(*count),
    ensures
        value_answered(
            *count,
            value@,
            projection,
            limits,
            source@,
            source_tokens,
            meta,
            operation_result(r),
        ),
{
    let all: usize = projection_item_count(value, projection, limits.array_sample_size);
    let mut state = ProjectionState::new(limits.max_items, limits.array_sample_size);
    let shown = match project_json(value, projection, &mut state) {
        Ok(shown) => shown,
        Err(e) => {
            return Err(e);
        },
    };
    let tokens: usize = json_tokens(count, &shown);
    assert(counted_as(*count, json_text(shown@), tokens));
    let returned: usize = if all < limits.max_items {
        all
    } else {
        limits.max_items
    };
    let completeness = if !state.is_complete() {
        Some(
            Completeness {
                total: all,
                returned,
                remaining: all - returned,
                reason: Some(JsonIncompleteReason::MaxItems),
            },
        )
    } else {
        None
    };
    let mut meta = meta;
    meta.next_cursor = None;
    let response = query_response(source, shown, completeness, meta);
    Ok(
        JsonOperationResult {
            response,
            baseline_source_tokens: source_tokens,
            projected_tokens: tokens,
            key_response_fit: None,
        },
    )
}

/// What is selected of a value, which must be something.
fn required_value<
    Q: Fn(&str, &str) -> Result<String, SelectorFailure>,
    R: Fn(&str) -> Result<JsonValue, Error>,
>(value: &JsonValue, selector: &Option<ParsedJsonSelector>, search: &Q, read: &R) -> (r: (
    Result<JsonValue, Error>,
    Ghost<Result<SelectedJson, Error>>,
))
    requires
        finds_all(*search),
        reads_all(*read),
    ensures
        select_said(value@, selector_view(*selector), *search, *read, r.1@),
        match selected_result(r.1@) {
            Err(fault) => r.0 is Err && r.0->Err_0@ == fault,
            Ok(None) => r.0 is Err && r.0->Err_0@ == nothing_selected(),
            Ok(Some(inner)) => r.0 is Ok && r.0->Ok_0@ == inner,
        },
{
    let said = match selector {
        Some(inner) => select_json(value, Some(inner), search, read),
        None => select_json(value, None, search, read),
    };
    let ghost told = said;
    assert(select_said(value@, selector_view(*selector), *search, *read, told));
    match said {
        Ok(selected) => (selected.into_required_value(), Ghost(told)),
        Err(e) => (Err(e), Ghost(told)),
    }
}

impl Services {
    /// Answers a query of a file.
    pub fn execute_json_query<
        L: Fn(&str) -> Result<LoadedJson, Error>,
        C: Fn(&str) -> usize,
        S,
        Q: Fn(&str, &str) -> Result<String, SelectorFailure>,
        R: Fn(&str) -> Result<JsonValue, Error>,
        N,
    >(
        ports: &JsonPorts<L, C, S, Q, R, N>,
        path: &str,
        selector: &Option<ParsedJsonSelector>,
        projection: JsonProjection,
        limits: JsonLimits,
        cursor: Option<&JsonCursor>,
        stream_id: StreamId,
        execution: JsonExecutionOptions,
        meta: ResponseMeta,
        measurements: &mut JsonMeasurementCache,
    ) -> (r: Result<JsonOperationResult, Error>)
        requires
            loads_all(ports.load),
            counts_all(ports.count),
            finds_all(ports.search),
            reads_all(ports.read),
            old(measurements).valid(ports.count),
        ensures
            final(measurements).valid(ports.count),
            query_answered(
                *ports,
                path@,
                selector_view(*selector),
                QueryTerms {
                    projection,
                    limits,
                    cursor: match cursor {
                        Some(inner) => Some(inner.envelope@),
                        None => None,
                    },
                    stream: stream_id@,
                    execution,
                },
                meta,
                operation_result(r),
            ),
    {
        let loaded = load_file(&ports.load, path);
        let ghost file = loaded;
        assert(load_said(ports.load, path@, file));
        let loaded = match loaded {
            Ok(loaded) => loaded,
            Err(e) => {
                return Err(e);
            },
        };
        let source_tokens: usize = loaded.source_tokens();
        let (value, Ghost(told)) = required_value(
            loaded.value(),
            selector,
            &ports.search,
            &ports.read,
        );
        assert(select_said(
            file->Ok_0@.value,
            selector_view(*selector),
            ports.search,
            ports.read,
            told,
        ));
        let ghost terms = QueryTerms {
            projection,
            limits,
            cursor: match cursor {
                Some(inner) => Some(inner.envelope@),
                None => None,
            },
            stream: stream_id@,
            execution,
        };
        let ghost from = file->Ok_0@;
        let ghost given = meta;
        let r = match value {
            Ok(value) => match projection {
                JsonProjection::Keys => answer_keys(
                    &ports.count,
                    &value,
                    loaded.into_source(),
                    source_tokens,
                    limits,
                    cursor,
                    stream_id,
                    execution,
                    meta,
                    measurements,
                ),
                JsonProjection::Schema => answer_shape(
                    &ports.count,
                    &value,
                    loaded.into_source(),
                    source_tokens,
                    limits,
                    meta,
                ),
                _ => answer_value(
                    &ports.count,
                    &value,
                    projection,
                    loaded.into_source(),
                    source_tokens,
                    limits,
                    meta,
                ),
            },
            Err(e) => Err(e),
        };
        assert(query_of(
            ports.count,
            ports.search,
            ports.read,
            from.value,
            from.source,
            from.source_tokens,
            selector_view(*selector),
            terms,
            given,
            operation_result(r),
        ));
        r
    }
}

/// Whether the numbers at ranks may be said to be `figures`.
pub open spec fn figures_said<N: Fn(&Vec<String>, Option<SummaryRanks>) -> NumericFigures>(
    summarize: N,
    numbers: Seq<Seq<char>>,
    ranks: Option<SummaryRanks>,
    figures: NumericFigures,
) -> bool {
    exists|list: &Vec<String>|
        (#[trigger] call_ensures(summarize, (list, ranks), figures)) && texts(list@) == numbers
}

/// Whether numbers can always be asked for.
pub open spec fn summarizes_all<N: Fn(&Vec<String>, Option<SummaryRanks>) -> NumericFigures>(
    summarize: N,
) -> bool {
    forall|list: &Vec<String>, ranks: Option<SummaryRanks>| call_requires(summarize, (list, ranks))
}

/// The numbers of a value.
pub open spec fn value_numbers(value: JsonView) -> NumbersView {
    numbers_of(value, NumbersView { numbers: Seq::empty(), others: 0 })
}

/// Whether a value may be summarized so.
pub open spec fn summary_said<N: Fn(&Vec<String>, Option<SummaryRanks>) -> NumericFigures>(
    summarize: N,
    value: JsonView,
    summary: JsonNumericSummary,
) -> bool {
    let found = value_numbers(value);
    &&& summary.count == found.numbers.len()
    &&& summary.non_numeric_count == found.others
    &&& figures_said(summarize, found.numbers, ranks_of(summary.count), summary.figures)
}

/// Summarizes the numbers of a value: how many there are, how many other values,
/// and what stands at the ranks that a summary names.
pub fn numeric_summary<N: Fn(&Vec<String>, Option<SummaryRanks>) -> NumericFigures>(
    value: &JsonValue,
    summarize: &N,
) -> (r: JsonNumericSummary)
    requires
        summarizes_all(*summarize),
    ensures
        summary_said(*summarize, value@, r),
{
    let mut values: Vec<String> = Vec::new();
    let mut non_numeric_count: usize = 0;
    assert(texts(values@) =~= Seq::<Seq<char>>::empty());
    collect_numbers(value, &mut values, &mut non_numeric_count);
    let count: usize = values.len();
    let ranks = summary_ranks(count);
    let figures = summarize(&values, ranks);
    assert(figures_said(*summarize, texts(values@), ranks, figures));
    JsonNumericSummary { count, non_numeric_count, figures }
}

/// The answer that summarizes numbers.
pub open spec fn summary_view(
    source: SourceView,
    summary: JsonNumericSummary,
    meta: ResponseMeta,
) -> JsonResponseView {
    JsonResponseView {
        kind: "numeric_summary"@,
        value: None,
        numeric_summary: Some(summary),
        differences: Seq::empty(),
        sources: seq![source],
        result_complete: true,
        total_items: None,
        returned_items: None,
        remaining_items: None,
        incomplete_reason: None,
        meta: ResponseMeta { next_cursor: None, ..meta },
    }
}

/// Whether a summary may be answered so of the value that was selected.
pub open spec fn summary_answered<N: Fn(&Vec<String>, Option<SummaryRanks>) -> NumericFigures>(
    summarize: N,
    value: JsonView,
    source: SourceView,
    source_tokens: usize,
    meta: ResponseMeta,
    outcome: Result<OperationResultView, Fault>,
) -> bool {
    exists|summary: JsonNumericSummary| #[trigger]
        summary_said(summarize, value, summary) && outcome == Ok::<OperationResultView, Fault>(
            OperationResultView {
                response: summary_view(source, summary, meta),
                baseline_source_tokens: source_tokens,
                projected_tokens: 0,
                key_response_fit: None,
            },
        )
}

/// Whether a summary may be answered so of a file.
pub open spec fn summary_of<
    Q: Fn(&str, &str) -> Result<String, SelectorFailure>,
    R: Fn(&str) -> Result<JsonValue, Error>,
    N: Fn(&Vec<String>, Option<SummaryRanks>) -> NumericFigures,
>(
    search: Q,
    read: R,
    summarize: N,
    value: JsonView,
    source: SourceView,
    source_tokens: usize,
    selector: Option<SelectorView>,
    meta: ResponseMeta,
    outcome: Result<OperationResultView, Fault>,
) -> bool {
    exists|said: Result<SelectedJson, Error>| #[trigger]
        select_said(value, selector, search, read, said) && match selected_result(said) {
            Err(fault) => outcome == Err::<OperationResultView, Fault>(fault),
            Ok(None) => outcome == Err::<OperationResultView, Fault>(nothing_selected()),
            Ok(Some(inner)) => summary_answered(
                summarize,
                inner,
                source,
                source_tokens,
                meta,
                outcome,
            ),
        }
}

/// Whether a summary may be answered so.
pub open spec fn summary_asked<
    L: Fn(&str) -> Result<LoadedJson, Error>,
    C,
    S,
    Q: Fn(&str, &str) -> Result<String, SelectorFailure>,
    R: Fn(&str) -> Result<JsonValue, Error>,
    N: Fn(&Vec<String>, Option<SummaryRanks>) -> NumericFigures,
>(
    ports: JsonPorts<L, C, S, Q, R, N>,
    path: Seq<char>,
    selector: Option<SelectorView>,
    meta: ResponseMeta,
    outcome: Result<OperationResultView, Fault>,
) -> bool {
    exists|loaded: Result<LoadedJson, Error>| #[trigger]
        load_said(ports.load, path, loaded) && match loaded {
            Err(e) => outcome == Err::<OperationResultView, Fault>(e@),
            Ok(file) => summary_of(
                ports.search,
                ports.read,
                ports.summarize,
                file@.value,
                file@.source,
                file@.source_tokens,
                selector,
                meta,
                outcome,
            ),
        }
}

fn answer_summary<N: Fn(&Vec<String>, Option<SummaryRanks>) -> NumericFigures>(
    summarize: &N,
    value: &JsonValue,
    source: JsonSource,
    source_tokens: usize,
    meta: ResponseMeta,
) -> (r: JsonOperationResult)
    requires
        summarizes_all(*summarize),
    ensures
        summary_answered(*summarize, value@, source@, source_tokens, meta, Ok(r@)),
{
    let summary = numeric_summary(value, summarize);
    let ghost told = summary;
    assert(summary_said(*summarize, value@, told));
    let ghost from = source@;
    let ghost given = meta;
    let mut sources: Vec<JsonSource> = Vec::new();
    sources.push(source);
    assert(views(sources@) =~= seq![from]);
    let differences: Vec<JsonFieldDiff> = Vec::new();
    assert(views(differences@) =~= Seq::<FieldDiffView>::empty());
    let mut meta = meta;
    meta.next_cursor = None;
    let out = JsonOperationResult {
        response: JsonResponse {
            kind: copy_text("numeric_summary"),
            value: None,
            numeric_summary: Some(summary),
            differences,
            sources,
            result_complete: true,
            total_items: None,
            returned_items: None,
            remaining_items: None,
            incomplete_reason: None,
            meta,
        },
        baseline_source_tokens: source_tokens,
        projected_tokens: 0,
        key_response_fit: None,
    };
    assert(out@.response == summary_view(from, told, given));
    out
}

impl Services {
    /// Summarizes the numbers of a file.
    pub fn execute_json_numeric_summary<
        L: Fn(&str) -> Result<LoadedJson, Error>,
        C,
        S,
        Q: Fn(&str, &str) -> Result<String, SelectorFailure>,
        R: Fn(&str) -> Result<JsonValue, Error>,
        N: Fn(&Vec<String>, Option<SummaryRanks>) -> NumericFigures,
    >(
        ports: &JsonPorts<L, C, S, Q, R, N>,
        path: &str,
        selector: &Option<ParsedJsonSelector>,
        meta: ResponseMeta,
    ) -> (r: Result<JsonOperationResult, Error>)
        requires
            loads_all(ports.load),
            finds_all(ports.search),
            reads_all(ports.read),
            summarizes_all(ports.summarize),
        ensures
            summary_asked(*ports, path@, selector_view(*selector), meta, operation_result(r)),
    {
        let loaded = load_file(&ports.load, path);
        let ghost file = loaded;
        assert(load_said(ports.load, path@, file));
        let loaded = match loaded {
            Ok(loaded) => loaded,
            Err(e) => {
                return Err(e);
            },
        };
        let source_tokens: usize = loaded.source_tokens();
        let (value, Ghost(told)) = required_value(
            loaded.value(),
            selector,
            &ports.search,
            &ports.read,
        );
        let ghost from = file->Ok_0@;
        let ghost given = meta;
        assert(select_said(
            from.value,
            selector_view(*selector),
            ports.search,
            ports.read,
            told,
        ));
        let r = match value {
            Ok(value) => Ok(
                answer_summary(
                    &ports.summarize,
                    &value,
                    loaded.into_source(),
                    source_tokens,
                    meta,
                ),
            ),
            Err(e) => Err(e),
        };
        assert(summary_of(
            ports.search,
            ports.read,
            ports.summarize,
            from.value,
            from.source,
            from.source_tokens,
            selector_view(*selector),
            given,
            operation_result(r),
        ));
        r
    }
}

} // verus!
