//! Answering JSON requests.

use crate::accounting::{
    counts, with_counts, Measurement, ReceiptResourceDecoration, ServiceCallOptions,
};
use crate::cancellation::{answered, asked_first, check_cancelled, stopped};
use crate::cursor::{EnvelopeView, ServiceIdentity};
use crate::error::{Error, Fault};
use crate::fitting::{bounded_meta, counts_all, settled_as, settles_all, unanswered};
use crate::json::compare::comparison_answered;
use crate::json::cursor::{json_stream_id, keys_stream};
use crate::json::execution::{
    loads_all, operation_result, query_answered, summarizes_all, summary_asked, JsonLimits,
    JsonOperationResult, JsonPorts, OperationResultView, QueryTerms,
};
use crate::json::fit::{json_fitted, json_unfitted};
use crate::json::jmespath::SelectorFailure;
use crate::json::numeric::SummaryRanks;
use crate::json::options::JsonExecutionOptions;
use crate::json::request::{
    ParsedJsonOperation, ParsedJsonRequest, DEFAULT_ARRAY_SAMPLE_SIZE, DEFAULT_JSON_ITEMS,
};
use crate::json::response::{JsonResponse, JsonResponseView, NumericFigures};
use crate::json::selection::{finds_all, reads_all, selector_view};
use crate::json::source::{JsonMeasurementCache, LoadedJson};
use crate::json::value::JsonValue;
use crate::model::ResponseMeta;
use crate::ordered::views;
use crate::services::Services;
use tokio_util::sync::CancellationToken;
use vstd::prelude::*;

verus! {

/// An answer, and the tokens of the files that it stands for.
#[derive(Debug)]
pub struct JsonAnswer {
    pub response: JsonResponse,
    pub baseline_source_tokens: usize,
}

/// How much a request may take. What it does not say is at its default.
pub open spec fn limits_of(request: ParsedJsonRequest, max_tokens: usize) -> JsonLimits {
    JsonLimits {
        max_tokens,
        max_items: match request.max_items {
            Some(items) => items,
            None => DEFAULT_JSON_ITEMS,
        },
        array_sample_size: match request.array_sample_size {
            Some(size) => size,
            None => DEFAULT_ARRAY_SAMPLE_SIZE,
        },
    }
}

/// Whether everything can be asked for.
pub open spec fn answers_json<
    L: Fn(&str) -> Result<LoadedJson, Error>,
    C: Fn(&str) -> usize,
    S: Fn(&JsonResponse, &ResponseMeta, ReceiptResourceDecoration) -> Measurement,
    Q: Fn(&str, &str) -> Result<String, SelectorFailure>,
    R: Fn(&str) -> Result<JsonValue, Error>,
    N: Fn(&Vec<String>, Option<SummaryRanks>) -> NumericFigures,
>(ports: JsonPorts<L, C, S, Q, R, N>) -> bool {
    &&& loads_all(ports.load)
    &&& counts_all(ports.count)
    &&& settles_all::<JsonResponse, S>(ports.measure)
    &&& finds_all(ports.search)
    &&& reads_all(ports.read)
    &&& summarizes_all(ports.summarize)
}

/// What a cursor that was read holds.
pub open spec fn cursor_content(operation: ParsedJsonOperation) -> Option<EnvelopeView> {
    match operation {
        ParsedJsonOperation::Query { cursor: Some(cursor), .. } => Some(cursor.envelope@),
        _ => None,
    }
}

/// Whether what is asked may be answered so before it is fitted.
pub open spec fn json_built<
    L: Fn(&str) -> Result<LoadedJson, Error>,
    C: Fn(&str) -> usize,
    S: Fn(&JsonResponse, &ResponseMeta, ReceiptResourceDecoration) -> Measurement,
    Q: Fn(&str, &str) -> Result<String, SelectorFailure>,
    R: Fn(&str) -> Result<JsonValue, Error>,
    N: Fn(&Vec<String>, Option<SummaryRanks>) -> NumericFigures,
>(
    ports: JsonPorts<L, C, S, Q, R, N>,
    service: ServiceIdentity,
    operation: ParsedJsonOperation,
    limits: JsonLimits,
    execution: JsonExecutionOptions,
    meta: ResponseMeta,
    outcome: Result<OperationResultView, Fault>,
) -> bool {
    match operation {
        ParsedJsonOperation::Query { path, selector, projection, cursor, query_hash } => {
            query_answered(
                ports,
                path@,
                selector_view(selector),
                QueryTerms {
                    projection,
                    limits,
                    cursor: cursor_content(operation),
                    stream: keys_stream(service, query_hash@),
                    execution,
                },
                meta,
                outcome,
            )
        },
        ParsedJsonOperation::NumericSummary { path, selector } => summary_asked(
            ports,
            path@,
            selector_view(selector),
            meta,
            outcome,
        ),
        ParsedJsonOperation::DiffFields { base_path, head_path, selectors, projection } => {
            comparison_answered(
                ports,
                base_path@,
                head_path@,
                views(selectors@),
                projection,
                limits,
                meta,
                outcome,
            )
        },
    }
}

/// An answer that tells the tokens of what it shows.
pub open spec fn told_tokens(built: OperationResultView) -> JsonResponseView {
    JsonResponseView {
        meta: ResponseMeta {
            source_tokens: built.projected_tokens,
            ..built.response.meta
        },
        ..built.response
    }
}

/// Whether an answer that was fitted may go out so.
pub open spec fn sent_as<
    S: Fn(&JsonResponse, &ResponseMeta, ReceiptResourceDecoration) -> Measurement,
>(
    measure: S,
    fitted: JsonResponseView,
    max: Option<usize>,
    out: JsonResponseView,
) -> bool {
    &&& settled_as::<JsonResponse, S>(measure, fitted, Ok(out.meta))
    &&& out.meta == with_counts(fitted.meta, counts(out.meta))
    &&& max matches Some(limit) ==> out.meta.total_response_tokens <= limit
    &&& out == (JsonResponseView { meta: out.meta, ..fitted })
}

/// Whether an answer may go out as `out`.
pub open spec fn json_sent<
    C: Fn(&str) -> usize,
    S: Fn(&JsonResponse, &ResponseMeta, ReceiptResourceDecoration) -> Measurement,
>(
    count: C,
    measure: S,
    built: OperationResultView,
    max_tokens: usize,
    max: Option<usize>,
    out: JsonResponseView,
) -> bool {
    &&& built.projected_tokens <= max_tokens
    &&& exists|fitted: JsonResponseView| #[trigger]
        json_fitted(count, measure, told_tokens(built), built.key_response_fit, max, fitted)
            && sent_as(measure, fitted, max, out)
}

/// Whether an answer may be refused with an error.
pub open spec fn json_unsent<
    C: Fn(&str) -> usize,
    S: Fn(&JsonResponse, &ResponseMeta, ReceiptResourceDecoration) -> Measurement,
>(
    count: C,
    measure: S,
    built: OperationResultView,
    max_tokens: usize,
    max: Option<usize>,
    error: Error,
) -> bool {
    if built.projected_tokens > max_tokens {
        error@ == (Fault::RequestLimitExceeded {
            field: "projected JSON tokens"@,
            requested: built.projected_tokens,
            limit: max_tokens,
        })
    } else {
        ||| json_unfitted(
            count,
            measure,
            told_tokens(built),
            built.key_response_fit,
            max,
            error,
        )
        ||| exists|fitted: JsonResponseView| #[trigger]
            json_fitted(count, measure, told_tokens(built), built.key_response_fit, max, fitted)
                && unanswered::<JsonResponse, S>(measure, fitted, max, error)
    }
}

/// Sends an answer: what it shows is within the tokens of the request, and it is
/// fitted to the ceiling of the call.
pub fn send_json<C: Fn(&str) -> usize, S: Fn(&JsonResponse, &ResponseMeta, ReceiptResourceDecoration) -> Measurement>(
    built: JsonOperationResult,
    max_tokens: usize,
    options: ServiceCallOptions,
    count: &C,
    measure: &S,
) -> (r: Result<JsonResponse, Error>)
    requires
        counts_all(*count),
        settles_all::<JsonResponse, S>(*measure),
    ensures
        match r {
            Ok(out) => json_sent(
                *count,
                *measure,
                built@,
                max_tokens,
                options.max_response_tokens,
                out@,
            ),
            Err(e) => json_unsent(
                *count,
                *measure,
                built@,
                max_tokens,
                options.max_response_tokens,
                e,
            ),
        },
{
    let ghost given = built@;
    let JsonOperationResult { mut response, projected_tokens, key_response_fit, .. } = built;
    if projected_tokens > max_tokens {
        return Err(
            Error::RequestLimitExceeded {
                field: "projected JSON tokens",
                requested: projected_tokens,
                limit: max_tokens,
            },
        );
    }
    response.meta.source_tokens = projected_tokens;
    assert(response@ == told_tokens(given));
    let fitted = match &key_response_fit {
        Some(context) => Services::fit_json_response(
            response,
            Some(context),
            options,
            count,
            measure,
        ),
        None => Services::fit_json_response(response, None, options, count, measure),
    };
    let mut fitted = match fitted {
        Ok(fitted) => fitted,
        Err(e) => {
            return Err(e);
        },
    };
    let ghost shown = fitted@;
    assert(json_fitted(
        *count,
        *measure,
        told_tokens(given),
        given.key_response_fit,
        options.max_response_tokens,
        shown,
    ));
    match bounded_meta(&fitted, options.max_response_tokens, measure) {
        Ok(meta) => {
            fitted.meta = meta;
            assert(sent_as(*measure, shown, options.max_response_tokens, fitted@));
            Ok(fitted)
        },
        Err(e) => Err(e),
    }
}

fn build_json<
    L: Fn(&str) -> Result<LoadedJson, Error>,
    C: Fn(&str) -> usize,
    S: Fn(&JsonResponse, &ResponseMeta, ReceiptResourceDecoration) -> Measurement,
    Q: Fn(&str, &str) -> Result<String, SelectorFailure>,
    R: Fn(&str) -> Result<JsonValue, Error>,
    N: Fn(&Vec<String>, Option<SummaryRanks>) -> NumericFigures,
>(
    ports: &JsonPorts<L, C, S, Q, R, N>,
    service: &ServiceIdentity,
    operation: ParsedJsonOperation,
    limits: JsonLimits,
    execution: JsonExecutionOptions,
    meta: ResponseMeta,
    cancellation: &CancellationToken,
) -> (r: Result<JsonOperationResult, Error>)
    requires
        answers_json(*ports),
    ensures
        (r is Err && stopped(r->Err_0, *cancellation)) || json_built(
            *ports,
            *service,
            operation,
            limits,
            execution,
            meta,
            operation_result(r),
        ),
{
    match operation {
        ParsedJsonOperation::Query { path, selector, projection, cursor, query_hash } => {
            let stream_id = json_stream_id(service, query_hash.as_str());
            let mut measurements = JsonMeasurementCache::new();
            match &cursor {
                Some(cursor) => Services::execute_json_query(
                    ports,
                    path.as_str(),
                    &selector,
                    projection,
                    limits,
                    Some(cursor),
                    stream_id,
                    execution,
                    meta,
                    &mut measurements,
                ),
                None => Services::execute_json_query(
                    ports,
                    path.as_str(),
                    &selector,
                    projection,
                    limits,
                    None,
                    stream_id,
                    execution,
                    meta,
                    &mut measurements,
                ),
            }
        },
        ParsedJsonOperation::NumericSummary { path, selector } => {
            Services::execute_json_numeric_summary(ports, path.as_str(), &selector, meta)
        },
        ParsedJsonOperation::DiffFields { base_path, head_path, selectors, projection } => {
            Services::execute_json_diff(
                ports,
                base_path.as_str(),
                head_path.as_str(),
                selectors,
                projection,
                limits,
                meta,
                cancellation,
            )
        },
    }
}

/// Whether a request may be answered so, or refused.
pub open spec fn json_answered<
    L: Fn(&str) -> Result<LoadedJson, Error>,
    C: Fn(&str) -> usize,
    S: Fn(&JsonResponse, &ResponseMeta, ReceiptResourceDecoration) -> Measurement,
    Q: Fn(&str, &str) -> Result<String, SelectorFailure>,
    R: Fn(&str) -> Result<JsonValue, Error>,
    N: Fn(&Vec<String>, Option<SummaryRanks>) -> NumericFigures,
>(
    ports: JsonPorts<L, C, S, Q, R, N>,
    service: ServiceIdentity,
    operation: ParsedJsonOperation,
    limits: JsonLimits,
    execution: JsonExecutionOptions,
    meta: ResponseMeta,
    max: Option<usize>,
    cancellation: CancellationToken,
    r: Result<JsonAnswer, Error>,
) -> bool {
    match r {
        Ok(answer) => exists|built: OperationResultView| #[trigger]
            json_built(ports, service, operation, limits, execution, meta, Ok(built)) && json_sent(
                ports.count,
                ports.measure,
                built,
                limits.max_tokens,
                max,
                answer.response@,
            ) && answer.baseline_source_tokens == built.baseline_source_tokens,
        Err(e) => {
            ||| stopped(e, cancellation)
            ||| json_built(ports, service, operation, limits, execution, meta, Err(e@))
            ||| exists|built: OperationResultView| #[trigger]
                json_built(ports, service, operation, limits, execution, meta, Ok(built))
                    && json_unsent(
                    ports.count,
                    ports.measure,
                    built,
                    limits.max_tokens,
                    max,
                    e,
                )
        },
    }
}

impl Services {
    /// Answers a JSON request: a query, a summary of numbers or a comparison, within
    /// the tokens of the request and the ceiling of the call.
    pub fn json_sync<
        L: Fn(&str) -> Result<LoadedJson, Error>,
        C: Fn(&str) -> usize,
        S: Fn(&JsonResponse, &ResponseMeta, ReceiptResourceDecoration) -> Measurement,
        Q: Fn(&str, &str) -> Result<String, SelectorFailure>,
        R: Fn(&str) -> Result<JsonValue, Error>,
        N: Fn(&Vec<String>, Option<SummaryRanks>) -> NumericFigures,
    >(
        request: ParsedJsonRequest,
        service: &ServiceIdentity,
        max_tokens: Result<usize, Error>,
        meta: Result<ResponseMeta, Error>,
        ports: &JsonPorts<L, C, S, Q, R, N>,
        options: ServiceCallOptions,
        execution: JsonExecutionOptions,
        cancellation: &CancellationToken,
    ) -> (r: Result<JsonAnswer, Error>)
        requires
            answers_json(*ports),
        ensures
            asked_first(r, *cancellation),
            match (max_tokens, meta) {
                (Err(refused), _) => r is Err && (stopped(r->Err_0, *cancellation) || r->Err_0@
                    == refused@),
                (Ok(_), Err(refused)) => r is Err && (stopped(r->Err_0, *cancellation) || r->Err_0@
                    == refused@),
                (Ok(max_tokens), Ok(meta)) => json_answered(
                    *ports,
                    *service,
                    request.operation,
                    limits_of(request, max_tokens),
                    execution,
                    meta,
                    options.max_response_tokens,
                    *cancellation,
                    r,
                ),
            },
    {
        if let Err(e) = check_cancelled(cancellation) {
            return Err(e);
        }
        let max_tokens: usize = match max_tokens {
            Ok(max_tokens) => max_tokens,
            Err(e) => {
                return Err(e);
            },
        };
        let meta = match meta {
            Ok(meta) => meta,
            Err(e) => {
                return Err(e);
            },
        };
        let limits = JsonLimits {
            max_tokens,
            max_items: match request.max_items {
                Some(items) => items,
                None => DEFAULT_JSON_ITEMS,
            },
            array_sample_size: match request.array_sample_size {
                Some(size) => size,
                None => DEFAULT_ARRAY_SAMPLE_SIZE,
            },
        };
        let ghost given = meta;
        let ghost asked = request.operation;
        let built = build_json(
            ports,
            service,
            request.operation,
            limits,
            execution,
            meta,
            cancellation,
        );
        let built = match built {
            Ok(built) => built,
            Err(e) => {
                return Err(e);
            },
        };
        let ghost view = built@;
        assert(json_built(*ports, *service, asked, limits, execution, given, Ok(view)));
        let baseline_source_tokens: usize = built.baseline_source_tokens;
        match send_json(built, max_tokens, options, &ports.count, &ports.measure) {
            Ok(response) => Ok(JsonAnswer { response, baseline_source_tokens }),
            Err(e) => Err(e),
        }
    }
}

} // verus!
