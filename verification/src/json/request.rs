//! JSON requests, and when they are taken.

use crate::cursor::{carries, EnvelopeView};
use crate::error::{first_fault, reports, Error, Fault};
use crate::json::cursor::{decode_json_cursor, JsonCursor, MAX_JSON_CURSOR_BYTES};
use crate::json::jmespath::SelectorFailure;
use crate::json::options::{JsonExecutionOptions, MAX_JSON_DEPTH};
use crate::json::projection::JsonProjection;
use crate::json::selection::{
    compiles_all, selector_reads, selector_view, validate_selector, JsonSelector,
    ParsedJsonSelector, SelectorView,
};
use crate::ordered::views;
use crate::text::{byte_len, optional_text};
use crate::validation::{
    above_limit, outside_limit, too_long, validate_input, validate_positive_request_limit,
    validate_request_limit, verdict_fault, InputLimits,
};
use vstd::prelude::*;

verus! {

/// How many items are returned where a request does not say.
pub const DEFAULT_JSON_ITEMS: usize = 1000;

/// How many items a request can ask for.
pub const MAX_JSON_ITEMS: usize = 10000;

/// How many items of an array are shown where a request does not say.
pub const DEFAULT_ARRAY_SAMPLE_SIZE: usize = 3;

/// How many items of an array a request can ask for.
pub const MAX_ARRAY_SAMPLE_SIZE: usize = 20;

/// How many selectors a comparison can have.
pub const MAX_JSON_SELECTORS: usize = 100;

/// What is asked of JSON files.
#[derive(Debug)]
pub enum JsonOperation {
    Query { path: String, selector: Option<JsonSelector>, projection: JsonProjection },
    NumericSummary { path: String, selector: Option<JsonSelector> },
    DiffFields {
        base_path: String,
        head_path: String,
        selectors: Vec<JsonSelector>,
        projection: JsonProjection,
    },
}

/// What a [`JsonOperation`] or a [`ParsedJsonOperation`] says.
pub enum OperationView {
    Query { path: Seq<char>, selector: Option<SelectorView>, projection: JsonProjection },
    NumericSummary { path: Seq<char>, selector: Option<SelectorView> },
    DiffFields {
        base_path: Seq<char>,
        head_path: Seq<char>,
        selectors: Seq<SelectorView>,
        projection: JsonProjection,
    },
}

/// The selector that an option holds, as what it says.
pub open spec fn asked_selector(selector: Option<JsonSelector>) -> Option<SelectorView> {
    match selector {
        Some(inner) => Some(inner@),
        None => None,
    }
}

impl View for JsonOperation {
    type V = OperationView;

    open spec fn view(&self) -> OperationView {
        match *self {
            JsonOperation::Query { path, selector, projection } => OperationView::Query {
                path: path@,
                selector: asked_selector(selector),
                projection,
            },
            JsonOperation::NumericSummary { path, selector } => OperationView::NumericSummary {
                path: path@,
                selector: asked_selector(selector),
            },
            JsonOperation::DiffFields { base_path, head_path, selectors, projection } => {
                OperationView::DiffFields {
                    base_path: base_path@,
                    head_path: head_path@,
                    selectors: views(selectors@),
                    projection,
                }
            },
        }
    }
}

/// A JSON request.
#[derive(Debug)]
pub struct JsonRequest {
    pub operation: JsonOperation,
    pub cursor: Option<String>,
    pub max_tokens: Option<usize>,
    pub max_items: Option<usize>,
    pub array_sample_size: Option<usize>,
}

/// What is asked, found to be usable.
#[derive(Debug)]
pub enum ParsedJsonOperation {
    Query {
        path: String,
        selector: Option<ParsedJsonSelector>,
        projection: JsonProjection,
        cursor: Option<JsonCursor>,
        query_hash: String,
    },
    NumericSummary { path: String, selector: Option<ParsedJsonSelector> },
    DiffFields {
        base_path: String,
        head_path: String,
        selectors: Vec<ParsedJsonSelector>,
        projection: JsonProjection,
    },
}

impl View for ParsedJsonOperation {
    type V = OperationView;

    open spec fn view(&self) -> OperationView {
        match *self {
            ParsedJsonOperation::Query { path, selector, projection, .. } => OperationView::Query {
                path: path@,
                selector: selector_view(selector),
                projection,
            },
            ParsedJsonOperation::NumericSummary { path, selector } => {
                OperationView::NumericSummary {
                    path: path@,
                    selector: selector_view(selector),
                }
            },
            ParsedJsonOperation::DiffFields { base_path, head_path, selectors, projection } => {
                OperationView::DiffFields {
                    base_path: base_path@,
                    head_path: head_path@,
                    selectors: views(selectors@),
                    projection,
                }
            },
        }
    }
}

/// A JSON request that was found to be usable.
#[derive(Debug)]
pub struct ParsedJsonRequest {
    pub operation: ParsedJsonOperation,
    pub max_tokens: Option<usize>,
    pub max_items: Option<usize>,
    pub array_sample_size: Option<usize>,
}

/// What the rules for paths say of the paths of a request: of its only one, or of
/// the base, and of the head.
#[derive(Debug)]
pub struct PathVerdicts {
    pub path: Result<(), Error>,
    pub head: Result<(), Error>,
}

/// Whether a text can be read as a cursor of listed keys.
pub open spec fn cursor_readable(cursor: Seq<char>) -> bool {
    0 < byte_len(cursor) <= MAX_JSON_CURSOR_BYTES && exists|content: EnvelopeView|
        carries(cursor, content)
}

/// The fault of what only listed keys have.
pub open spec fn keys_only(field: Seq<char>) -> Fault {
    Fault::InvalidInput {
        field,
        reason: "is supported only for query operations with the keys projection"@,
    }
}

/// What is wrong with the numbers of a request.
pub open spec fn numbers_fault(
    max_items: Option<usize>,
    array_sample_size: Option<usize>,
) -> Option<Fault> {
    first_fault(
        match max_items {
            Some(items) => outside_limit("max_items"@, items, MAX_JSON_ITEMS),
            None => None,
        },
        match array_sample_size {
            Some(size) => above_limit("array_sample_size"@, size, MAX_ARRAY_SAMPLE_SIZE),
            None => None,
        },
    )
}

/// What is wrong with a depth.
pub open spec fn depth_fault(depth: Option<usize>) -> Option<Fault> {
    match depth {
        Some(depth) => above_limit("depth"@, depth, MAX_JSON_DEPTH),
        None => None,
    }
}

/// What is wrong with a depth where keys are not listed.
pub open spec fn depth_misplaced(depth: Option<usize>) -> Option<Fault> {
    if depth is Some {
        Some(keys_only("depth"@))
    } else {
        None
    }
}

/// What is wrong with a cursor where keys are not listed.
pub open spec fn cursor_misplaced(cursor: Option<Seq<char>>) -> Option<Fault> {
    if cursor is Some {
        Some(keys_only("cursor"@))
    } else {
        None
    }
}

/// What is wrong with a cursor of a query.
pub open spec fn query_cursor_fault(
    cursor: Option<Seq<char>>,
    projection: JsonProjection,
) -> Option<Fault> {
    match cursor {
        Some(text) => if !cursor_readable(text) {
            Some(Fault::StaleCursor)
        } else if projection != JsonProjection::Keys {
            Some(keys_only("cursor"@))
        } else {
            None
        },
        None => None,
    }
}

/// What is wrong with what is asked, apart from its selectors.
pub open spec fn operation_fault(
    operation: OperationView,
    cursor: Option<Seq<char>>,
    depth: Option<usize>,
    max_path_bytes: usize,
    verdicts: PathVerdicts,
) -> Option<Fault> {
    match operation {
        OperationView::Query { path, projection, .. } => first_fault(
            too_long(path, "path"@, max_path_bytes),
            first_fault(
                verdict_fault(verdicts.path),
                first_fault(
                    if projection != JsonProjection::Keys {
                        depth_misplaced(depth)
                    } else {
                        None
                    },
                    query_cursor_fault(cursor, projection),
                ),
            ),
        ),
        OperationView::NumericSummary { path, .. } => first_fault(
            too_long(path, "path"@, max_path_bytes),
            first_fault(
                verdict_fault(verdicts.path),
                first_fault(depth_misplaced(depth), cursor_misplaced(cursor)),
            ),
        ),
        OperationView::DiffFields { base_path, head_path, selectors, .. } => first_fault(
            too_long(base_path, "base path"@, max_path_bytes),
            first_fault(
                too_long(head_path, "head path"@, max_path_bytes),
                first_fault(
                    verdict_fault(verdicts.path),
                    first_fault(
                        verdict_fault(verdicts.head),
                        first_fault(
                            outside_limit(
                                "selectors"@,
                                selectors.len() as usize,
                                MAX_JSON_SELECTORS,
                            ),
                            first_fault(depth_misplaced(depth), cursor_misplaced(cursor)),
                        ),
                    ),
                ),
            ),
        ),
    }
}

/// What is wrong with a request, apart from its selectors.
pub open spec fn request_fault(
    request: JsonRequest,
    execution: JsonExecutionOptions,
    max_path_bytes: usize,
    query_hash: Result<String, Error>,
    verdicts: PathVerdicts,
) -> Option<Fault> {
    first_fault(
        numbers_fault(request.max_items, request.array_sample_size),
        first_fault(
            depth_fault(execution.depth),
            first_fault(
                match query_hash {
                    Ok(_) => None,
                    Err(e) => Some(e@),
                },
                operation_fault(
                    request.operation@,
                    optional_text(request.cursor),
                    execution.depth,
                    max_path_bytes,
                    verdicts,
                ),
            ),
        ),
    )
}

/// The selectors of what is asked.
pub open spec fn selectors_of(operation: OperationView) -> Seq<SelectorView> {
    match operation {
        OperationView::Query { selector, .. } => match selector {
            Some(inner) => seq![inner],
            None => Seq::empty(),
        },
        OperationView::NumericSummary { selector, .. } => match selector {
            Some(inner) => seq![inner],
            None => Seq::empty(),
        },
        OperationView::DiffFields { selectors, .. } => selectors,
    }
}

/// Whether the first `upto` selectors may be taken.
pub open spec fn selectors_read<K: Fn(&str) -> Result<(), SelectorFailure>>(
    selectors: Seq<SelectorView>,
    upto: int,
    max_bytes: usize,
    compile: K,
) -> bool {
    forall|i: int|
        0 <= i < upto ==> selector_reads(#[trigger] selectors[i], max_bytes, compile, None)
}

/// Whether a selector may be refused with a fault, where those before it are taken.
pub open spec fn selector_refused<K: Fn(&str) -> Result<(), SelectorFailure>>(
    selectors: Seq<SelectorView>,
    at: int,
    max_bytes: usize,
    compile: K,
    fault: Fault,
) -> bool {
    &&& 0 <= at < selectors.len()
    &&& selectors_read(selectors, at, max_bytes, compile)
    &&& selector_reads(selectors[at], max_bytes, compile, Some(fault))
}

/// Whether one of the selectors may be refused with a fault.
pub open spec fn selectors_refused<K: Fn(&str) -> Result<(), SelectorFailure>>(
    selectors: Seq<SelectorView>,
    max_bytes: usize,
    compile: K,
    fault: Fault,
) -> bool {
    exists|at: int| #[trigger] selector_refused(selectors, at, max_bytes, compile, fault)
}

/// What a query keeps of its cursor and its hash.
pub open spec fn query_kept(
    operation: ParsedJsonOperation,
    cursor: Option<Seq<char>>,
    query_hash: Result<String, Error>,
) -> bool {
    match operation {
        ParsedJsonOperation::Query { cursor: kept, query_hash: hash, .. } => {
            &&& query_hash is Ok && hash@ == query_hash->Ok_0@
            &&& match (cursor, kept) {
                (Some(text), Some(read)) => carries(text, read.envelope@),
                (None, None) => true,
                _ => false,
            }
        },
        _ => true,
    }
}

/// Whether `r` may come of reading a request.
pub open spec fn request_reads<K: Fn(&str) -> Result<(), SelectorFailure>>(
    request: JsonRequest,
    due: Option<Fault>,
    query_hash: Result<String, Error>,
    max_pattern_bytes: usize,
    compile: K,
    r: Result<ParsedJsonRequest, Error>,
) -> bool {
    let selectors = selectors_of(request.operation@);
    match r {
        Ok(parsed) => {
            &&& due is None
            &&& selectors_read(selectors, selectors.len() as int, max_pattern_bytes, compile)
            &&& parsed.operation@ == request.operation@
            &&& query_kept(parsed.operation, optional_text(request.cursor), query_hash)
            &&& parsed.max_tokens == request.max_tokens
            &&& parsed.max_items == request.max_items
            &&& parsed.array_sample_size == request.array_sample_size
        },
        Err(e) => match due {
            Some(fault) => e@ == fault,
            None => selectors_refused(selectors, max_pattern_bytes, compile, e@),
        },
    }
}

fn check_numbers(max_items: Option<usize>, array_sample_size: Option<usize>) -> (r: Result<
    (),
    Error,
>)
    ensures
        reports(r, numbers_fault(max_items, array_sample_size)),
{
    if let Some(items) = max_items {
        match validate_positive_request_limit("max_items", items, MAX_JSON_ITEMS) {
            Ok(_) => {},
            Err(e) => {
                return Err(e);
            },
        }
    }
    if let Some(size) = array_sample_size {
        match validate_request_limit("array_sample_size", size, MAX_ARRAY_SAMPLE_SIZE) {
            Ok(_) => {},
            Err(e) => {
                return Err(e);
            },
        }
    }
    Ok(())
}

fn check_misplaced(depth: Option<usize>, cursor: &Option<String>) -> (r: Result<(), Error>)
    ensures
        reports(r, first_fault(depth_misplaced(depth), cursor_misplaced(optional_text(*cursor)))),
{
    if depth.is_some() {
        return Err(
            Error::InvalidInput {
                field: "depth",
                reason: "is supported only for query operations with the keys projection",
            },
        );
    }
    if cursor.is_some() {
        return Err(
            Error::InvalidInput {
                field: "cursor",
                reason: "is supported only for query operations with the keys projection",
            },
        );
    }
    Ok(())
}

fn read_query_cursor(cursor: &Option<String>, projection: JsonProjection) -> (r: Result<
    Option<JsonCursor>,
    Error,
>)
    ensures
        reports(r, query_cursor_fault(optional_text(*cursor), projection)),
        match r {
            Ok(kept) => match (optional_text(*cursor), kept) {
                (Some(text), Some(read)) => carries(text, read.envelope@),
                (None, None) => true,
                _ => false,
            },
            Err(_) => true,
        },
{
    match cursor {
        Some(text) => match decode_json_cursor(text.as_str()) {
            Ok(read) => {
                assert(carries(text@, read.envelope@));
                assert(cursor_readable(text@));
                if projection != JsonProjection::Keys {
                    return Err(
                        Error::InvalidInput {
                            field: "cursor",
                            reason: "is supported only for query operations with the keys projection",
                        },
                    );
                }
                Ok(Some(read))
            },
            Err(e) => {
                assert(!cursor_readable(text@));
                Err(e)
            },
        },
        None => Ok(None),
    }
}

fn read_selector<K: Fn(&str) -> Result<(), SelectorFailure>>(
    selector: Option<JsonSelector>,
    max_bytes: usize,
    compile: &K,
) -> (r: Result<Option<ParsedJsonSelector>, Error>)
    requires
        compiles_all(*compile),
    ensures
        match r {
            Ok(parsed) => {
                &&& selector_view(parsed) == asked_selector(selector)
                &&& selector is Some ==> selector_reads(selector->0@, max_bytes, *compile, None)
            },
            Err(e) => selector is Some && selector_reads(
                selector->0@,
                max_bytes,
                *compile,
                Some(e@),
            ),
        },
{
    match selector {
        Some(inner) => match ParsedJsonSelector::parse(inner, max_bytes, compile) {
            Ok(parsed) => Ok(Some(parsed)),
            Err(e) => Err(e),
        },
        None => Ok(None),
    }
}

fn read_selectors<K: Fn(&str) -> Result<(), SelectorFailure>>(
    selectors: Vec<JsonSelector>,
    max_bytes: usize,
    compile: &K,
) -> (r: Result<Vec<ParsedJsonSelector>, Error>)
    requires
        compiles_all(*compile),
    ensures
        match r {
            Ok(parsed) => {
                &&& views(parsed@) == views(selectors@)
                &&& selectors_read(
                    views(selectors@),
                    selectors@.len() as int,
                    max_bytes,
                    *compile,
                )
            },
            Err(e) => selectors_refused(views(selectors@), max_bytes, *compile, e@),
        },
{
    let ghost all = selectors@;
    let mut rest = selectors;
    let mut out: Vec<ParsedJsonSelector> = Vec::new();
    let total: usize = rest.len();
    let mut i: usize = 0;
    assert(rest@ =~= all.subrange(0, all.len() as int));
    assert(views(out@) =~= views(all).take(0));
    while i < total
        invariant
            compiles_all(*compile),
            i <= total,
            total == all.len(),
            all == selectors@,
            rest@ == all.subrange(i as int, all.len() as int),
            views(out@) == views(all).take(i as int),
            selectors_read(views(all), i as int, max_bytes, *compile),
        decreases total - i,
    {
        let selector = rest.remove(0);
        assert(selector == all[i as int]);
        assert(views(all)[i as int] == selector@);
        match ParsedJsonSelector::parse(selector, max_bytes, compile) {
            Ok(parsed) => {
                let ghost before = out@;
                let ghost added = parsed;
                out.push(parsed);
                assert(views(out@) =~= views(before).push(added@));
            },
            Err(e) => {
                assert(selector_refused(views(all), i as int, max_bytes, *compile, e@));
                return Err(e);
            },
        }
        assert(rest@ =~= all.subrange(i + 1, all.len() as int));
        assert(views(out@) =~= views(all).take(i + 1));
        i += 1;
    }
    assert(views(all).take(all.len() as int) =~= views(all));
    Ok(out)
}

/// Whether `r` may come of reading what is asked.
pub open spec fn operation_reads<K: Fn(&str) -> Result<(), SelectorFailure>>(
    operation: OperationView,
    cursor: Option<Seq<char>>,
    due: Option<Fault>,
    query_hash: Result<String, Error>,
    max_pattern_bytes: usize,
    compile: K,
    r: Result<ParsedJsonOperation, Error>,
) -> bool {
    let selectors = selectors_of(operation);
    match r {
        Ok(parsed) => {
            &&& due is None
            &&& selectors_read(selectors, selectors.len() as int, max_pattern_bytes, compile)
            &&& parsed@ == operation
            &&& query_kept(parsed, cursor, query_hash)
        },
        Err(e) => match due {
            Some(fault) => e@ == fault,
            None => selectors_refused(selectors, max_pattern_bytes, compile, e@),
        },
    }
}

fn read_query<K: Fn(&str) -> Result<(), SelectorFailure>>(
    path: String,
    selector: Option<JsonSelector>,
    projection: JsonProjection,
    cursor: &Option<String>,
    depth: Option<usize>,
    limits: InputLimits,
    query_hash: String,
    verdicts: PathVerdicts,
    compile: &K,
) -> (r: Result<ParsedJsonOperation, Error>)
    requires
        compiles_all(*compile),
    ensures
        operation_reads(
            OperationView::Query { path: path@, selector: asked_selector(selector), projection },
            optional_text(*cursor),
            operation_fault(
                OperationView::Query {
                    path: path@,
                    selector: asked_selector(selector),
                    projection,
                },
                optional_text(*cursor),
                depth,
                limits.max_path_bytes,
                verdicts,
            ),
            Ok(query_hash),
            limits.max_pattern_bytes,
            *compile,
            r,
        ),
{
    match validate_input(path.as_str(), "path", limits.max_path_bytes) {
        Ok(_) => {},
        Err(e) => {
            return Err(e);
        },
    }
    match verdicts.path {
        Ok(_) => {},
        Err(e) => {
            return Err(e);
        },
    }
    if depth.is_some() && projection != JsonProjection::Keys {
        return Err(
            Error::InvalidInput {
                field: "depth",
                reason: "is supported only for query operations with the keys projection",
            },
        );
    }
    let cursor = match read_query_cursor(cursor, projection) {
        Ok(cursor) => cursor,
        Err(e) => {
            return Err(e);
        },
    };
    let ghost asked = asked_selector(selector);
    match read_selector(selector, limits.max_pattern_bytes, compile) {
        Ok(selector) => Ok(
            ParsedJsonOperation::Query { path, selector, projection, cursor, query_hash },
        ),
        Err(e) => {
            assert(selector_refused(
                seq![asked->0],
                0,
                limits.max_pattern_bytes,
                *compile,
                e@,
            ));
            Err(e)
        },
    }
}

fn read_summary<K: Fn(&str) -> Result<(), SelectorFailure>>(
    path: String,
    selector: Option<JsonSelector>,
    cursor: &Option<String>,
    depth: Option<usize>,
    limits: InputLimits,
    verdicts: PathVerdicts,
    compile: &K,
) -> (r: Result<ParsedJsonOperation, Error>)
    requires
        compiles_all(*compile),
    ensures
        forall|query_hash: Result<String, Error>| #[trigger]
            operation_reads(
                OperationView::NumericSummary { path: path@, selector: asked_selector(selector) },
                optional_text(*cursor),
                operation_fault(
                    OperationView::NumericSummary {
                        path: path@,
                        selector: asked_selector(selector),
                    },
                    optional_text(*cursor),
                    depth,
                    limits.max_path_bytes,
                    verdicts,
                ),
                query_hash,
                limits.max_pattern_bytes,
                *compile,
                r,
            ),
{
    match validate_input(path.as_str(), "path", limits.max_path_bytes) {
        Ok(_) => {},
        Err(e) => {
            return Err(e);
        },
    }
    match verdicts.path {
        Ok(_) => {},
        Err(e) => {
            return Err(e);
        },
    }
    match check_misplaced(depth, cursor) {
        Ok(_) => {},
        Err(e) => {
            return Err(e);
        },
    }
    let ghost asked = asked_selector(selector);
    match read_selector(selector, limits.max_pattern_bytes, compile) {
        Ok(selector) => Ok(ParsedJsonOperation::NumericSummary { path, selector }),
        Err(e) => {
            assert(selector_refused(
                seq![asked->0],
                0,
                limits.max_pattern_bytes,
                *compile,
                e@,
            ));
            Err(e)
        },
    }
}

fn read_comparison<K: Fn(&str) -> Result<(), SelectorFailure>>(
    base_path: String,
    head_path: String,
    selectors: Vec<JsonSelector>,
    projection: JsonProjection,
    cursor: &Option<String>,
    depth: Option<usize>,
    limits: InputLimits,
    verdicts: PathVerdicts,
    compile: &K,
) -> (r: Result<ParsedJsonOperation, Error>)
    requires
        compiles_all(*compile),
    ensures
        forall|query_hash: Result<String, Error>| #[trigger]
            operation_reads(
                OperationView::DiffFields {
                    base_path: base_path@,
                    head_path: head_path@,
                    selectors: views(selectors@),
                    projection,
                },
                optional_text(*cursor),
                operation_fault(
                    OperationView::DiffFields {
                        base_path: base_path@,
                        head_path: head_path@,
                        selectors: views(selectors@),
                        projection,
                    },
                    optional_text(*cursor),
                    depth,
                    limits.max_path_bytes,
                    verdicts,
                ),
                query_hash,
                limits.max_pattern_bytes,
                *compile,
                r,
            ),
{
    match validate_input(base_path.as_str(), "base path", limits.max_path_bytes) {
        Ok(_) => {},
        Err(e) => {
            return Err(e);
        },
    }
    match validate_input(head_path.as_str(), "head path", limits.max_path_bytes) {
        Ok(_) => {},
        Err(e) => {
            return Err(e);
        },
    }
    match verdicts.path {
        Ok(_) => {},
        Err(e) => {
            return Err(e);
        },
    }
    match verdicts.head {
        Ok(_) => {},
        Err(e) => {
            return Err(e);
        },
    }
    let asked: usize = selectors.len();
    assert(views(selectors@).len() as usize == asked);
    match validate_positive_request_limit("selectors", asked, MAX_JSON_SELECTORS) {
        Ok(_) => {},
        Err(e) => {
            return Err(e);
        },
    }
    match check_misplaced(depth, cursor) {
        Ok(_) => {},
        Err(e) => {
            return Err(e);
        },
    }
    match read_selectors(selectors, limits.max_pattern_bytes, compile) {
        Ok(selectors) => Ok(
            ParsedJsonOperation::DiffFields { base_path, head_path, selectors, projection },
        ),
        Err(e) => Err(e),
    }
}

fn read_operation<K: Fn(&str) -> Result<(), SelectorFailure>>(
    operation: JsonOperation,
    cursor: &Option<String>,
    depth: Option<usize>,
    limits: InputLimits,
    query_hash: String,
    verdicts: PathVerdicts,
    compile: &K,
) -> (r: Result<ParsedJsonOperation, Error>)
    requires
        compiles_all(*compile),
    ensures
        operation_reads(
            operation@,
            optional_text(*cursor),
            operation_fault(
                operation@,
                optional_text(*cursor),
                depth,
                limits.max_path_bytes,
                verdicts,
            ),
            Ok(query_hash),
            limits.max_pattern_bytes,
            *compile,
            r,
        ),
{
    match operation {
        JsonOperation::Query { path, selector, projection } => read_query(
            path,
            selector,
            projection,
            cursor,
            depth,
            limits,
            query_hash,
            verdicts,
            compile,
        ),
        JsonOperation::NumericSummary { path, selector } => read_summary(
            path,
            selector,
            cursor,
            depth,
            limits,
            verdicts,
            compile,
        ),
        JsonOperation::DiffFields { base_path, head_path, selectors, projection } => {
            read_comparison(
                base_path,
                head_path,
                selectors,
                projection,
                cursor,
                depth,
                limits,
                verdicts,
                compile,
            )
        },
    }
}

/// Takes a request that can be carried out.
pub fn parse_json_request<K: Fn(&str) -> Result<(), SelectorFailure>>(
    request: JsonRequest,
    execution: JsonExecutionOptions,
    limits: InputLimits,
    query_hash: Result<String, Error>,
    verdicts: PathVerdicts,
    compile: &K,
) -> (r: Result<ParsedJsonRequest, Error>)
    requires
        compiles_all(*compile),
    ensures
        request_reads(
            request,
            request_fault(request, execution, limits.max_path_bytes, query_hash, verdicts),
            query_hash,
            limits.max_pattern_bytes,
            *compile,
            r,
        ),
{
    match check_numbers(request.max_items, request.array_sample_size) {
        Ok(_) => {},
        Err(e) => {
            return Err(e);
        },
    }
    if let Some(depth) = execution.depth {
        match validate_request_limit("depth", depth, MAX_JSON_DEPTH) {
            Ok(_) => {},
            Err(e) => {
                return Err(e);
            },
        }
    }
    let hash = match query_hash {
        Ok(hash) => hash,
        Err(e) => {
            return Err(e);
        },
    };
    let JsonRequest { operation, cursor, max_tokens, max_items, array_sample_size } = request;
    match read_operation(operation, &cursor, execution.depth, limits, hash, verdicts, compile) {
        Ok(operation) => Ok(
            ParsedJsonRequest { operation, max_tokens, max_items, array_sample_size },
        ),
        Err(e) => Err(e),
    }
}

/// What is wrong with the paths of what is asked, and the number of its selectors.
pub open spec fn paths_fault(operation: OperationView, max_path_bytes: usize) -> Option<Fault> {
    match operation {
        OperationView::Query { path, .. } => too_long(path, "path"@, max_path_bytes),
        OperationView::NumericSummary { path, .. } => too_long(path, "path"@, max_path_bytes),
        OperationView::DiffFields { base_path, head_path, selectors, .. } => first_fault(
            too_long(base_path, "base path"@, max_path_bytes),
            first_fault(
                too_long(head_path, "head path"@, max_path_bytes),
                outside_limit("selectors"@, selectors.len() as usize, MAX_JSON_SELECTORS),
            ),
        ),
    }
}

/// What is wrong with a cursor, by what is asked.
pub open spec fn cursor_fault(operation: OperationView, cursor: Option<Seq<char>>) -> Option<Fault> {
    query_cursor_fault(
        cursor,
        match operation {
            OperationView::Query { projection, .. } => projection,
            _ => JsonProjection::Value,
        },
    )
}

/// Whether `r` may come of checking a request.
pub open spec fn request_checks<K: Fn(&str) -> Result<(), SelectorFailure>>(
    request: JsonRequest,
    limits: InputLimits,
    compile: K,
    r: Result<(), Error>,
) -> bool {
    let selectors = selectors_of(request.operation@);
    let early = paths_fault(request.operation@, limits.max_path_bytes);
    let late = first_fault(
        numbers_fault(request.max_items, request.array_sample_size),
        cursor_fault(request.operation@, optional_text(request.cursor)),
    );
    let all_read = selectors_read(
        selectors,
        selectors.len() as int,
        limits.max_pattern_bytes,
        compile,
    );
    match r {
        Ok(_) => early is None && all_read && late is None,
        Err(e) => match early {
            Some(fault) => e@ == fault,
            None => selectors_refused(selectors, limits.max_pattern_bytes, compile, e@) || (all_read
                && late == Some(e@)),
        },
    }
}

fn check_selector<K: Fn(&str) -> Result<(), SelectorFailure>>(
    path: &str,
    selector: &Option<JsonSelector>,
    limits: InputLimits,
    compile: &K,
) -> (r: Result<(), Error>)
    requires
        compiles_all(*compile),
    ensures
        match r {
            Ok(_) => {
                &&& too_long(path@, "path"@, limits.max_path_bytes) is None
                &&& selector is Some ==> selector_reads(
                    selector->0@,
                    limits.max_pattern_bytes,
                    *compile,
                    None,
                )
            },
            Err(e) => match too_long(path@, "path"@, limits.max_path_bytes) {
                Some(fault) => e@ == fault,
                None => selector is Some && selector_refused(
                    seq![selector->0@],
                    0,
                    limits.max_pattern_bytes,
                    *compile,
                    e@,
                ),
            },
        },
{
    match validate_input(path, "path", limits.max_path_bytes) {
        Ok(_) => {},
        Err(e) => {
            return Err(e);
        },
    }
    match selector {
        Some(inner) => validate_selector(inner, limits.max_pattern_bytes, compile),
        None => Ok(()),
    }
}

fn check_comparison<K: Fn(&str) -> Result<(), SelectorFailure>>(
    base_path: &str,
    head_path: &str,
    selectors: &Vec<JsonSelector>,
    limits: InputLimits,
    compile: &K,
) -> (r: Result<(), Error>)
    requires
        compiles_all(*compile),
    ensures
        ({
            let due = first_fault(
                too_long(base_path@, "base path"@, limits.max_path_bytes),
                first_fault(
                    too_long(head_path@, "head path"@, limits.max_path_bytes),
                    outside_limit(
                        "selectors"@,
                        views(selectors@).len() as usize,
                        MAX_JSON_SELECTORS,
                    ),
                ),
            );
            match r {
                Ok(_) => due is None && selectors_read(
                    views(selectors@),
                    selectors@.len() as int,
                    limits.max_pattern_bytes,
                    *compile,
                ),
                Err(e) => match due {
                    Some(fault) => e@ == fault,
                    None => selectors_refused(
                        views(selectors@),
                        limits.max_pattern_bytes,
                        *compile,
                        e@,
                    ),
                },
            }
        }),
{
    match validate_input(base_path, "base path", limits.max_path_bytes) {
        Ok(_) => {},
        Err(e) => {
            return Err(e);
        },
    }
    match validate_input(head_path, "head path", limits.max_path_bytes) {
        Ok(_) => {},
        Err(e) => {
            return Err(e);
        },
    }
    let asked: usize = selectors.len();
    let ghost all = views(selectors@);
    assert(all.len() as usize == asked);
    match validate_positive_request_limit("selectors", asked, MAX_JSON_SELECTORS) {
        Ok(_) => {},
        Err(e) => {
            return Err(e);
        },
    }
    let ghost due = first_fault(
        too_long(base_path@, "base path"@, limits.max_path_bytes),
        first_fault(
            too_long(head_path@, "head path"@, limits.max_path_bytes),
            outside_limit("selectors"@, all.len() as usize, MAX_JSON_SELECTORS),
        ),
    );
    let mut i: usize = 0;
    while i < selectors.len()
        invariant
            compiles_all(*compile),
            i <= selectors.len(),
            all == views(selectors@),
            due is None,
            due == first_fault(
                too_long(base_path@, "base path"@, limits.max_path_bytes),
                first_fault(
                    too_long(head_path@, "head path"@, limits.max_path_bytes),
                    outside_limit("selectors"@, all.len() as usize, MAX_JSON_SELECTORS),
                ),
            ),
            selectors_read(all, i as int, limits.max_pattern_bytes, *compile),
        decreases selectors.len() - i,
    {
        assert(all[i as int] == selectors@[i as int]@);
        match validate_selector(&selectors[i], limits.max_pattern_bytes, compile) {
            Ok(_) => {},
            Err(e) => {
                assert(selector_refused(
                    all,
                    i as int,
                    limits.max_pattern_bytes,
                    *compile,
                    e@,
                ));
                return Err(e);
            },
        }
        i += 1;
    }
    Ok(())
}

fn check_cursor(operation: &JsonOperation, cursor: &Option<String>) -> (r: Result<(), Error>)
    ensures
        reports(r, cursor_fault(operation@, optional_text(*cursor))),
{
    let projection = match operation {
        JsonOperation::Query { projection, .. } => *projection,
        _ => JsonProjection::Value,
    };
    match read_query_cursor(cursor, projection) {
        Ok(_) => Ok(()),
        Err(e) => Err(e),
    }
}

/// Refuses a request with a path that is too long, selectors that cannot be used,
/// numbers outside their limits, or a cursor where keys are not listed.
pub fn validate_json_request<K: Fn(&str) -> Result<(), SelectorFailure>>(
    request: &JsonRequest,
    limits: InputLimits,
    compile: &K,
) -> (r: Result<(), Error>)
    requires
        compiles_all(*compile),
    ensures
        request_checks(*request, limits, *compile, r),
{
    let asked = match &request.operation {
        JsonOperation::Query { path, selector, .. } => check_selector(
            path.as_str(),
            selector,
            limits,
            compile,
        ),
        JsonOperation::NumericSummary { path, selector } => check_selector(
            path.as_str(),
            selector,
            limits,
            compile,
        ),
        JsonOperation::DiffFields { base_path, head_path, selectors, .. } => check_comparison(
            base_path.as_str(),
            head_path.as_str(),
            selectors,
            limits,
            compile,
        ),
    };
    match asked {
        Ok(_) => {},
        Err(e) => {
            return Err(e);
        },
    }
    match check_numbers(request.max_items, request.array_sample_size) {
        Ok(_) => {},
        Err(e) => {
            return Err(e);
        },
    }
    check_cursor(&request.operation, &request.cursor)
}

} // verus!
