//! JSON requests.

use leantoken::accounting::{
    Measurement, ReceiptResourceDecoration, ResponseTokenAccounting, ServiceCallOptions,
};
use leantoken::change_receipt::fingerprint_text;
use leantoken::cursor::{CursorKind, ServiceIdentity, StreamId, StreamIdentityBuilder};
use leantoken::error::Error;
use leantoken::json::collapsed::collapse_json;
use leantoken::json::cursor::{decode_json_cursor, json_query_hash, make_json_cursor};
use leantoken::json::dispatch::JsonAnswer;
use leantoken::json::execution::{numeric_summary, JsonPorts};
use leantoken::json::infer::infer_schema;
use leantoken::json::jmespath::{compile_jmespath, search_jmespath, SelectorFailure};
use leantoken::json::key_page::JsonIncompleteReason;
use leantoken::json::keys::key_entries;
use leantoken::json::numeric::{collect_numbers, summary_ranks, SummaryRanks};
use leantoken::json::options::{JsonExecutionOptions, JsonKeyOrder, MAX_JSON_DEPTH};
use leantoken::json::pointer::{escape_pointer, find_pointer, unescape_pointer};
use leantoken::json::project::project_json;
use leantoken::json::projection::{count_nodes, JsonProjection, ProjectionState};
use leantoken::json::request::{
    parse_json_request, validate_json_request, JsonOperation, JsonRequest, PathVerdicts,
};
use leantoken::json::response::{JsonResponse, NumericFigures};
use leantoken::json::schema::build_schema_breadth_first;
use leantoken::json::schema_page::project_schema_page;
use leantoken::json::selection::{select_json, JsonSelector, ParsedJsonSelector};
use leantoken::json::source::{
    JsonFile, JsonMeasurementCache, JsonSource, JsonSyntaxError, LoadedJson,
};
use leantoken::json::value::JsonValue;
use leantoken::json::view::write_json;
use leantoken::model::{Freshness, ResponseMeta};
use leantoken::receipt_resource::decorate_receipt;
use leantoken::services::Services;
use leantoken::validation::InputLimits;
use tokio_util::sync::CancellationToken;

fn from_serde(value: &serde_json::Value) -> JsonValue {
    match value {
        serde_json::Value::Null => JsonValue::Null,
        serde_json::Value::Bool(b) => JsonValue::Bool(*b),
        serde_json::Value::Number(n) => JsonValue::Number(n.to_string()),
        serde_json::Value::String(s) => JsonValue::Text(s.clone()),
        serde_json::Value::Array(items) => JsonValue::Array(items.iter().map(from_serde).collect()),
        serde_json::Value::Object(members) => JsonValue::Object(
            members.iter().map(|(key, value)| (key.clone(), from_serde(value))).collect(),
        ),
    }
}

fn json(text: &str) -> JsonValue {
    from_serde(&serde_json::from_str(text).expect("fixture"))
}

fn at<'a>(value: &'a JsonValue, pointer: &str) -> &'a JsonValue {
    find_pointer(value, pointer).expect("member")
}

fn items(value: &JsonValue) -> &Vec<JsonValue> {
    match value {
        JsonValue::Array(items) => items,
        _ => panic!("expected an array"),
    }
}

fn text(value: &JsonValue) -> &str {
    match value {
        JsonValue::Text(text) => text,
        _ => panic!("expected a text"),
    }
}

fn limits() -> InputLimits {
    InputLimits {
        max_path_bytes: 4_096,
        max_pattern_bytes: 16_384,
        max_query_bytes: 16_384,
        max_input_items: 100,
    }
}

fn refuses(_: &str) -> Result<(), SelectorFailure> {
    Err(SelectorFailure { offset: 3, line: 0, column: 3, reason: "unsupported".into() })
}

fn no_search(_: &str, _: &str) -> Result<String, SelectorFailure> {
    Err(SelectorFailure { offset: 0, line: 1, column: 2, reason: "unsupported".into() })
}

fn read(text: &str) -> Result<JsonValue, Error> {
    serde_json::from_str(text)
        .map(|value| from_serde(&value))
        .map_err(|error| Error::OperationFailure(error.to_string()))
}

fn verdicts() -> PathVerdicts {
    PathVerdicts { path: Ok(()), head: Ok(()) }
}

fn query(projection: JsonProjection) -> JsonRequest {
    JsonRequest {
        operation: JsonOperation::Query {
            path: "report.json".into(),
            selector: None,
            projection,
        },
        cursor: None,
        max_tokens: None,
        max_items: None,
        array_sample_size: None,
    }
}

#[test]
fn json_keys_projection_deduplicates_homogeneous_array_paths_before_item_caps() {
    let value = json(
        r#"[{"score": 1, "name": "a"}, {"score": 2, "name": "b"}, {"score": 3, "name": "c"}]"#,
    );
    let mut state = ProjectionState { remaining: 4, array_sample_size: 3, complete: true };
    let projected =
        project_json(&value, JsonProjection::Keys, &mut state).expect("keys projection");

    assert!(state.complete);
    assert_eq!(items(&projected).len(), 4);
}

#[test]
fn json_keys_projection_detects_late_heterogeneous_paths_after_the_item_cap() {
    let value = json(r#"[{"first": 1}, {"second": 2}]"#);
    let mut state = ProjectionState { remaining: 3, array_sample_size: 3, complete: true };
    let projected =
        project_json(&value, JsonProjection::Keys, &mut state).expect("keys projection");

    assert!(!state.complete);
    assert_eq!(items(&projected).len(), 3);
    assert_eq!(key_entries(&value, None, JsonKeyOrder::Pointer).len(), 4);
}

#[test]
fn json_collapsed_projection_reports_actual_bounded_sample() {
    let value = json("[1, 2, 3, 4]");
    let mut state = ProjectionState { remaining: 2, array_sample_size: 3, complete: true };
    let projected = collapse_json(&value, &mut state);

    assert!(!state.complete);
    assert_eq!(items(at(&projected, "/$array/sample")).len(), 1);
    assert_eq!(at(&projected, "/$array/omitted"), &JsonValue::Number("3".into()));
}

#[test]
fn tests_keys_projection_deduplicates_homogeneous_array_paths_before_item_caps() {
    let value = json(
        r#"[{"score": 1, "name": "a"}, {"score": 2, "name": "b"}, {"score": 3, "name": "c"}]"#,
    );
    let mut state = ProjectionState::new(4, 3);
    let projected =
        project_json(&value, JsonProjection::Keys, &mut state).expect("keys projection");

    assert!(state.is_complete());
    assert_eq!(items(&projected).len(), 4);
}

#[test]
fn tests_keys_projection_detects_late_heterogeneous_paths_after_the_item_cap() {
    let value = json(r#"[{"first": 1}, {"second": 2}]"#);
    let mut state = ProjectionState::new(3, 3);
    let projected =
        project_json(&value, JsonProjection::Keys, &mut state).expect("keys projection");

    assert!(!state.is_complete());
    assert_eq!(items(&projected).len(), 3);
    assert_eq!(key_entries(&value, None, JsonKeyOrder::Pointer).len(), 4);
}

#[test]
fn tests_collapsed_projection_reports_actual_bounded_sample() {
    let value = json("[1, 2, 3, 4]");
    let mut state = ProjectionState::new(2, 3);
    let projected = collapse_json(&value, &mut state);

    assert!(!state.is_complete());
    assert_eq!(items(at(&projected, "/$array/sample")).len(), 1);
    assert_eq!(at(&projected, "/$array/omitted"), &JsonValue::Number("3".into()));
}

#[test]
fn shallow_keys_are_depth_ordered_and_preserve_pointer_escaping() {
    let value = json(
        r#"{"a/deep": {"buried": {"value": 1}}, "array": [{"left": 1}, {"right": 2}], "β~eta": {}}"#,
    );

    let shallow = key_entries(&value, Some(1), JsonKeyOrder::DepthThenPointer);
    let shallow_pointers =
        shallow.iter().map(|entry| text(at(entry, "/pointer"))).collect::<Vec<_>>();
    assert_eq!(shallow_pointers, ["", "/array", "/a~1deep", "/β~0eta"]);
    assert_eq!(
        key_entries(&value, Some(0), JsonKeyOrder::DepthThenPointer),
        vec![json(r#"{"pointer": "", "type": "object"}"#)]
    );

    let complete = key_entries(&value, None, JsonKeyOrder::DepthThenPointer);
    let complete_pointers =
        complete.iter().map(|entry| text(at(entry, "/pointer"))).collect::<Vec<_>>();
    assert_eq!(
        &complete_pointers[..6],
        ["", "/array", "/a~1deep", "/β~0eta", "/array/*", "/a~1deep/buried"]
    );
    assert!(complete_pointers.contains(&"/array/*/left"));
    assert!(complete_pointers.contains(&"/array/*/right"));
}

fn keys_stream(query_hash: &str) -> StreamId {
    let mut stream = StreamIdentityBuilder::new(CursorKind::JsonKeys);
    stream.field_str("query_hash", query_hash);
    stream.finish()
}

#[test]
fn key_cursors_bind_depth_and_reject_another_ordering() {
    let written = r#"{"kind":"query","path":"report.json","projection":"keys"}"#;
    let hash = |depth: usize| {
        json_query_hash(written, json(written), JsonExecutionOptions::mcp(Some(depth)))
    };
    let shallow = hash(1);
    let deep = hash(2);
    assert_ne!(shallow, deep);

    let source = fingerprint_text("source");
    let cursor = make_json_cursor(keys_stream(&shallow), &source, 1).expect("cursor");
    let decoded = decode_json_cursor(&cursor).expect("decode cursor");
    assert_eq!(
        decoded.offset_for(&source, keys_stream(&shallow)).expect("matching stream"),
        1
    );
    assert!(matches!(
        decoded.offset_for(&source, keys_stream(&deep)),
        Err(Error::StaleCursor)
    ));
}

#[test]
fn mcp_depth_is_bounded_and_keys_only() {
    assert!(matches!(
        parse_json_request(
            query(JsonProjection::Keys),
            JsonExecutionOptions::mcp(Some(MAX_JSON_DEPTH + 1)),
            limits(),
            Ok("hash".into()),
            verdicts(),
            &refuses,
        ),
        Err(Error::RequestLimitExceeded { field: "depth", .. })
    ));
    assert!(matches!(
        parse_json_request(
            query(JsonProjection::Value),
            JsonExecutionOptions::mcp(Some(1)),
            limits(),
            Ok("hash".into()),
            verdicts(),
            &refuses,
        ),
        Err(Error::InvalidInput { field: "depth", .. })
    ));
}

#[test]
fn breadth_first_schema_preserves_complete_shape_and_shallow_siblings() {
    let value = json(r#"{"a": {"deep": {"value": 1}}, "b": true, "c": []}"#);
    let total = count_nodes(&value);
    let complete = build_schema_breadth_first(&value, total);
    assert_eq!(text(at(&complete, "/properties/a/properties/deep/type")), "object");

    let shallow = build_schema_breadth_first(&value, 4);
    match at(&shallow, "/properties") {
        JsonValue::Object(properties) => assert_eq!(properties.len(), 3),
        _ => panic!("shallow properties"),
    }
    assert_eq!(at(&shallow, "/properties/a/properties"), &json("{}"));
    assert_eq!(
        at(&shallow, "/x-leantoken-incomplete/omitted_subtree_count"),
        &json("1")
    );
    assert_eq!(
        at(&shallow, "/x-leantoken-incomplete/omitted_subtree_pointers"),
        &json(r#"["/a"]"#)
    );
}

fn count(text: &str) -> usize {
    text.len()
}

#[test]
fn json_measurement_cache_preserves_exact_tokens_for_distinct_values() {
    let value = json(r#"[{"pointer": "/src/lib.rs", "type": "file"}]"#);
    let mut cache = JsonMeasurementCache::new();
    let first = cache.measure(&count, 1, &value);
    let second = cache.measure(&count, 1, &value);
    assert_eq!(first, second);
    assert_eq!(first, count(&write_json(&value)));
    assert_eq!(cache.counters.cache_hits, 1);
    let mut different = json(r#"[{"pointer": "/src/main.rs", "type": "file"}]"#);
    if let JsonValue::Array(list) = &mut different {
        list.push(JsonValue::Text("bounded response accounting ".repeat(64)));
    }
    let different_tokens = cache.measure(&count, 1, &different);
    assert_eq!(different_tokens, count(&write_json(&different)));
    assert!(different_tokens > first);
}

#[test]
fn pointers_escape_and_come_back() {
    assert_eq!(escape_pointer("a/b~c"), "a~1b~0c");
    assert_eq!(unescape_pointer("a~1b~0c"), "a/b~c");
    assert_eq!(unescape_pointer("~01"), "~1");
    let value = json(r#"{"a/b": [10, {"~": true}], "": 1}"#);
    assert_eq!(find_pointer(&value, ""), Some(&value));
    assert_eq!(find_pointer(&value, "/"), Some(&json("1")));
    assert_eq!(find_pointer(&value, "/a~1b/0"), Some(&json("10")));
    assert_eq!(find_pointer(&value, "/a~1b/1/~0"), Some(&json("true")));
    for missing in ["a", "/a", "/a~1b/00", "/a~1b/+1", "/a~1b/2", "/a~1b/0/x"] {
        assert_eq!(find_pointer(&value, missing), None, "{missing}");
    }
}

#[test]
fn pointers_agree_with_the_document_library() {
    let document = r#"{"a": {"b": [1, 2, {"c~d": "e"}]}, "x/y": null}"#;
    let parsed: serde_json::Value = serde_json::from_str(document).expect("fixture");
    let value = json(document);
    for pointer in ["", "/a", "/a/b/2/c~0d", "/x~1y", "/a/b/01", "/a/b/-1", "b", "/a/b/3"] {
        assert_eq!(
            find_pointer(&value, pointer).map(write_json),
            parsed.pointer(pointer).map(|inner| inner.to_string()),
            "{pointer}"
        );
    }
}

#[test]
fn expressions_are_compiled_and_evaluated() {
    assert!(matches!(compile_jmespath("foo.bar"), Some(Ok(()))));
    let failure = match compile_jmespath("foo.") {
        Some(Err(failure)) => failure,
        other => panic!("expected a failure: {other:?}"),
    };
    assert!(!failure.reason.is_empty());
    assert!(compile_jmespath("foo[99999999999]").is_none());
    assert!(matches!(compile_jmespath(&"a".repeat(5_000)), Some(Ok(()))));
    assert!(matches!(compile_jmespath(&format!("a{}", ".b".repeat(64))), Some(Ok(()))));
    assert!(compile_jmespath(&format!("a{}", ".b".repeat(65))).is_none());
    let quoted = format!("\"99999999999{}\"", ".".repeat(600));
    assert!(matches!(compile_jmespath(&quoted), Some(Ok(()))));
    assert!(matches!(compile_jmespath("a99999999999[?b=='99999999999']"), Some(Ok(()))));
    assert!(matches!(compile_jmespath("'\\'99999999999'"), Some(Ok(()))));
    assert!(matches!(compile_jmespath("a[-1]"), Some(Ok(()))));
    assert!(compile_jmespath("a[-\u{b9}]").is_none());
    assert!(compile_jmespath("a[1234567890]").is_none());
    for nested in [
        format!("a{}", ".b".repeat(64)),
        format!("{}a", "!".repeat(64)),
        format!("{}a{}", "(".repeat(32), ")".repeat(32)),
        format!("a{}", "|a".repeat(64)),
        format!("a{}", "[]".repeat(32)),
        format!("{}a{}", "[".repeat(32), "]".repeat(32)),
    ] {
        assert!(matches!(search_jmespath(&nested, "{}"), Some(Ok(_))));
    }

    let found = search_jmespath("a[1:].b", r#"{"a": [{"b": 1}, {"b": 2}, {"b": 3}]}"#);
    assert!(matches!(found, Some(Ok(text)) if text == "[2,3]"));
    assert!(matches!(search_jmespath("missing", "{}"), Some(Ok(text)) if text == "null"));
    assert!(matches!(search_jmespath("a", "{"), Some(Err(_))));
}

#[test]
fn selectors_are_checked_before_they_are_used() {
    let parse = |selector: JsonSelector, max: usize| {
        ParsedJsonSelector::parse(selector, max, &refuses)
    };
    assert!(matches!(
        parse(JsonSelector::Pointer { pointer: "a".into() }, 100),
        Err(Error::InvalidInput { field: "JSON Pointer", reason: "must be empty or start with a slash" })
    ));
    assert!(matches!(
        parse(JsonSelector::Pointer { pointer: "/abc".into() }, 3),
        Err(Error::InputTooLong { field: "JSON Pointer", max_bytes: 3 })
    ));
    assert!(matches!(
        parse(JsonSelector::Jmespath { expression: " ".into() }, 100),
        Err(Error::InvalidInput { field: "JMESPath expression", reason: "must not be empty" })
    ));
    assert!(matches!(
        parse(JsonSelector::Jmespath { expression: "foo.".into() }, 100),
        Err(Error::InvalidJsonSelector { stage: "compile", .. })
    ));
    assert!(matches!(
        parse(JsonSelector::Jmespath { expression: "a[99999999999]".into() }, 100),
        Err(Error::InvalidJsonSelector { stage: "compile", offset: 3, line: 1, column: 4, .. })
    ));
    let kept = parse(JsonSelector::Pointer { pointer: "/abc".into() }, 4).expect("pointer");
    assert!(matches!(kept.into_wire(), JsonSelector::Pointer { pointer } if pointer == "/abc"));
}

#[test]
fn values_are_selected_by_pointers_and_expressions() {
    let value = json(r#"{"a": {"b": [1, 2]}}"#);
    let whole = select_json(&value, None, &no_search, &read).expect("whole");
    assert_eq!(whole.value(), Some(&value));
    let pointer = ParsedJsonSelector::Pointer("/a/b/1".into());
    let selected = select_json(&value, Some(&pointer), &no_search, &read).expect("pointer");
    assert_eq!(selected.into_required_value().expect("value"), json("2"));
    let missing = ParsedJsonSelector::Pointer("/c".into());
    let selected = select_json(&value, Some(&missing), &no_search, &read).expect("pointer");
    assert!(!selected.is_present());
    assert!(matches!(
        selected.into_required_value(),
        Err(Error::InvalidInput { field: "selector", .. })
    ));
    let expression = ParsedJsonSelector::Jmespath { expression: "a.b | length(@)".into() };
    let selected = select_json(&value, Some(&expression), &no_search, &read).expect("expression");
    assert_eq!(selected.value(), Some(&json("2")));
    let refused = ParsedJsonSelector::Jmespath { expression: "a[99999999999]".into() };
    assert!(matches!(
        select_json(&value, Some(&refused), &no_search, &read),
        Err(Error::InvalidJsonSelector { stage: "evaluate", line: 2, column: 3, .. })
    ));
}

#[test]
fn texts_are_written_as_json() {
    let value = json(r#"{"a": ["x\ny", null, true, 1.5, {}], "b": []}"#);
    assert_eq!(write_json(&value), r#"{"a":["x\ny",null,true,1.5,{}],"b":[]}"#);
}

#[test]
fn requests_are_checked() {
    let mut request = query(JsonProjection::Keys);
    request.max_items = Some(0);
    assert!(matches!(
        validate_json_request(&request, limits(), &refuses),
        Err(Error::InvalidInput { field: "max_items", .. })
    ));
    request.max_items = Some(10_001);
    assert!(matches!(
        validate_json_request(&request, limits(), &refuses),
        Err(Error::RequestLimitExceeded { field: "max_items", requested: 10_001, limit: 10_000 })
    ));
    request.max_items = Some(1);
    request.array_sample_size = Some(21);
    assert!(matches!(
        validate_json_request(&request, limits(), &refuses),
        Err(Error::RequestLimitExceeded { field: "array_sample_size", .. })
    ));
    request.array_sample_size = None;
    request.cursor = Some("not a cursor".into());
    assert!(matches!(
        validate_json_request(&request, limits(), &refuses),
        Err(Error::StaleCursor)
    ));
    request.cursor = None;
    assert!(validate_json_request(&request, limits(), &refuses).is_ok());
    let comparison = JsonRequest {
        operation: JsonOperation::DiffFields {
            base_path: "a".into(),
            head_path: "b".into(),
            selectors: Vec::new(),
            projection: JsonProjection::Value,
        },
        cursor: None,
        max_tokens: None,
        max_items: None,
        array_sample_size: None,
    };
    assert!(matches!(
        validate_json_request(&comparison, limits(), &refuses),
        Err(Error::InvalidInput { field: "selectors", .. })
    ));
}

#[test]
fn summaries_name_ranks() {
    assert_eq!(summary_ranks(0), None);
    assert_eq!(summary_ranks(1), Some(SummaryRanks { lower_median: 0, upper_median: 0, p95: 0 }));
    assert_eq!(summary_ranks(4), Some(SummaryRanks { lower_median: 1, upper_median: 2, p95: 3 }));
    assert_eq!(
        summary_ranks(100),
        Some(SummaryRanks { lower_median: 49, upper_median: 50, p95: 94 })
    );
    let mut numbers = Vec::new();
    let mut others = 0;
    collect_numbers(&json(r#"{"a": [1, "x", 2.5], "b": null}"#), &mut numbers, &mut others);
    assert_eq!(numbers, ["1", "2.5"]);
    assert_eq!(others, 2);
}

fn meta() -> ResponseMeta {
    ResponseMeta {
        repository_id: "repository".into(),
        repository_generation: 7,
        freshness: Freshness::Stale,
        source_tokens: 0,
        protocol_tokens: 0,
        path_and_metadata_tokens: 0,
        total_response_tokens: 0,
        next_cursor: None,
        receipt_id: None,
        receipt_suppressed_exact: 0,
        receipt_suppressed_overlap: 0,
        receipt_near_duplicates: 0,
    }
}

fn service() -> ServiceIdentity {
    ServiceIdentity {
        repository_id: "repository".into(),
        index_scope_digest: Some("scope".into()),
        implementation_version: "1".into(),
        tokenizer: "bytes".into(),
    }
}

fn load(path: &str) -> Result<LoadedJson, Error> {
    let document = match path {
        "base.json" => {
            r#"{"alpha": {"deep": {"nested": {"value": 1}}}, "beta": {"deep": {"nested": {"value": 2}}}}"#
        }
        "head.json" => {
            r#"{"alpha": {"deep": {"nested": {"value": 3}}}, "beta": {"deep": {"nested": {"value": 4}}}}"#
        }
        "report.json" => r#"{"alpha": {"deep": 1}, "array": [{"nested": 1}], "empty": {}, "βeta": 2}"#,
        "numbers.json" => "[3, 1, 2, 10]",
        _ => return Err(Error::InvalidInput { field: "path", reason: "does not exist" }),
    };
    Ok(LoadedJson {
        source: JsonSource {
            path: path.to_owned(),
            content_hash: fingerprint_text(document),
            bytes: document.len(),
        },
        value: json(document),
        source_tokens: count(document),
    })
}

fn measure(
    response: &JsonResponse,
    _: &ResponseMeta,
    _: ReceiptResourceDecoration,
) -> Measurement {
    let shown = response.value.as_ref().map(write_json).unwrap_or_default();
    Ok(ResponseTokenAccounting {
        protocol_tokens: 0,
        path_and_metadata_tokens: 0,
        total_response_tokens: 10 + shown.len(),
    })
}

fn summarize(numbers: &Vec<String>, ranks: Option<SummaryRanks>) -> NumericFigures {
    let mut sorted = numbers.iter().map(|n| n.parse::<f64>().expect("number")).collect::<Vec<_>>();
    sorted.sort_by(f64::total_cmp);
    NumericFigures {
        min: sorted.first().map(|n| n.to_string()),
        median: ranks.map(|ranks| {
            sorted[ranks.lower_median].midpoint(sorted[ranks.upper_median]).to_string()
        }),
        p95: ranks.map(|ranks| sorted[ranks.p95].to_string()),
        max: sorted.last().map(|n| n.to_string()),
    }
}

fn answer_within(
    request: JsonRequest,
    execution: JsonExecutionOptions,
    max_tokens: usize,
    max_response_tokens: Option<usize>,
) -> Result<JsonAnswer, Error> {
    let hash = fingerprint_text(&format!("{:?}{execution:?}", request.operation));
    let request =
        parse_json_request(request, execution, limits(), Ok(hash), verdicts(), &refuses)?;
    let ports = JsonPorts { load, count, measure, search: no_search, read, summarize };
    let options = ServiceCallOptions {
        max_response_tokens,
        context_response_profile: None,
        mcp_response_shape: false,
    };
    Services::json_sync(
        request,
        &service(),
        Ok(max_tokens),
        Ok(meta()),
        &ports,
        options,
        execution,
        &CancellationToken::new(),
    )
}

fn answer(request: JsonRequest) -> Result<JsonAnswer, Error> {
    answer_within(request, JsonExecutionOptions::standard(), 10_000, None)
}

#[test]
fn mcp_key_pages_preserve_shallow_parity_and_stale_cursor_boundaries() {
    let mut cursor = None;
    let mut pointers: Vec<String> = Vec::new();
    let mut pages = 0;
    loop {
        let mut request = query(JsonProjection::Keys);
        request.max_items = Some(2);
        request.cursor = cursor.clone();
        let page = answer_within(request, JsonExecutionOptions::mcp(Some(1)), 10_000, None)
            .expect("shallow keys page");
        pages += 1;
        for entry in items(page.response.value.as_ref().expect("keys")) {
            pointers.push(text(at(entry, "/pointer")).to_owned());
        }
        match page.response.meta.next_cursor {
            Some(next) => cursor = Some(next),
            None => {
                assert!(page.response.result_complete);
                break;
            }
        }
    }
    assert_eq!(pages, 3);
    assert_eq!(pointers, ["", "/alpha", "/array", "/empty", "/βeta"]);

    let mut stale = query(JsonProjection::Keys);
    stale.max_items = Some(2);
    stale.cursor = cursor;
    assert!(matches!(
        answer_within(stale, JsonExecutionOptions::mcp(Some(2)), 10_000, None),
        Err(Error::StaleCursor)
    ));
}

#[test]
fn schema_diff_does_not_bypass_max_items_when_budget_is_exhausted() {
    let answer = answer(JsonRequest {
        operation: JsonOperation::DiffFields {
            base_path: "base.json".into(),
            head_path: "head.json".into(),
            selectors: vec![
                JsonSelector::Pointer { pointer: "/alpha".into() },
                JsonSelector::Pointer { pointer: "/beta".into() },
            ],
            projection: JsonProjection::Schema,
        },
        max_tokens: Some(10_000),
        max_items: Some(3),
        array_sample_size: None,
        cursor: None,
    })
    .expect("schema diff");
    let response = answer.response;
    assert!(response.differences.len() == 2);
    let second_before = response.differences[1].before.as_ref();
    let second_after = response.differences[1].after.as_ref();
    assert!(
        second_before.is_none() || second_after.is_none(),
        "second selector should not get schema projections when budget is exhausted"
    );
    assert!(!response.result_complete);
}

#[test]
fn comparisons_tell_what_changed() {
    let answer = answer(JsonRequest {
        operation: JsonOperation::DiffFields {
            base_path: "base.json".into(),
            head_path: "head.json".into(),
            selectors: vec![
                JsonSelector::Pointer { pointer: "/alpha/deep/nested/value".into() },
                JsonSelector::Pointer { pointer: "/gamma".into() },
                JsonSelector::Jmespath { expression: "length(keys(@))".into() },
            ],
            projection: JsonProjection::Value,
        },
        max_tokens: None,
        max_items: None,
        array_sample_size: None,
        cursor: None,
    })
    .expect("comparison");
    let differences = &answer.response.differences;
    assert!(differences[0].changed);
    assert_eq!(differences[0].before, Some(json("1")));
    assert_eq!(differences[0].after, Some(json("3")));
    assert!(!differences[1].changed && !differences[1].before_present);
    assert!(!differences[2].changed && differences[2].after_present);
    assert_eq!(answer.response.sources.len(), 2);
    assert!(answer.response.result_complete);
}

#[test]
fn even_median_stays_finite_for_large_json_numbers() {
    for (numbers, expected) in [
        (vec!["1e308", "1e308"], 1e308),
        (vec!["-1e308", "1e308"], 0.0),
        (vec!["5e-324", "5e-324"], f64::from_bits(1)),
    ] {
        let values =
            JsonValue::Array(numbers.iter().map(|n| JsonValue::Number(n.to_string())).collect());
        let summary = numeric_summary(&values, &summarize);
        assert_eq!((summary.count, summary.non_numeric_count), (2, 0));
        let median = summary.figures.median.expect("median");
        assert_eq!(median.parse::<f64>().expect("finite"), expected);
        assert!(matches!(json(&median), JsonValue::Number(_)), "a median is written as a number");
    }
}

#[test]
fn numbers_are_summarized() {
    let answer = answer(JsonRequest {
        operation: JsonOperation::NumericSummary { path: "numbers.json".into(), selector: None },
        cursor: None,
        max_tokens: None,
        max_items: None,
        array_sample_size: None,
    })
    .expect("summary");
    let summary = answer.response.numeric_summary.expect("figures");
    assert_eq!(summary.count, 4);
    assert_eq!(summary.non_numeric_count, 0);
    assert_eq!(summary.figures.min.as_deref(), Some("1"));
    assert_eq!(summary.figures.median.as_deref(), Some("2.5"));
    assert_eq!(summary.figures.p95.as_deref(), Some("10"));
    assert_eq!(answer.baseline_source_tokens, count("[3, 1, 2, 10]"));
}

#[test]
fn answers_stay_within_tokens_and_ceilings() {
    let mut request = query(JsonProjection::Value);
    request.max_tokens = Some(1);
    assert!(matches!(
        answer_within(request, JsonExecutionOptions::standard(), 1, None),
        Err(Error::RequestLimitExceeded { field: "projected JSON tokens", limit: 1, .. })
    ));
    let fitted = answer_within(
        query(JsonProjection::Keys),
        JsonExecutionOptions::standard(),
        10_000,
        Some(100),
    )
    .expect("a page that fits");
    let kept = items(fitted.response.value.as_ref().expect("keys")).len();
    assert!(kept > 0 && fitted.response.meta.total_response_tokens <= 100);
    assert_eq!(fitted.response.returned_items, Some(kept));
    assert!(fitted.response.meta.next_cursor.is_some());
    assert!(matches!(
        answer_within(
            query(JsonProjection::Keys),
            JsonExecutionOptions::standard(),
            10_000,
            Some(12),
        ),
        Err(Error::ResponseBudgetExceeded { provided_max_response_tokens: 12, .. })
    ));
    let mut limited = query(JsonProjection::Value);
    limited.max_items = Some(2);
    assert!(matches!(
        answer(limited),
        Err(Error::RequestLimitExceeded { field: "selected JSON items", limit: 2, .. })
    ));
    let mut missing = query(JsonProjection::Value);
    missing.operation = JsonOperation::Query {
        path: "absent.json".into(),
        selector: None,
        projection: JsonProjection::Value,
    };
    assert!(matches!(answer(missing), Err(Error::InvalidInput { field: "path", .. })));
}

#[test]
fn schema_projection_plan_preserves_byte_for_byte_output_across_token_budgets() {
    let mut deep = JsonValue::Bool(true);
    for index in (0..40).rev() {
        deep = JsonValue::Object(vec![(format!("level_{index:02}"), deep)]);
    }
    let mut fixture = vec![
        ("deep".to_owned(), deep),
        ("empty_array".to_owned(), JsonValue::Array(Vec::new())),
        ("gate".to_owned(), json(r#"{"enabled": true, "mode": "strict"}"#)),
    ];
    for index in 0..10 {
        fixture.push((format!("top_{index:02}"), JsonValue::Number(index.to_string())));
    }
    let value = JsonValue::Object(fixture);
    let tokens = |text: &str| text.len().div_ceil(4);

    let full = project_schema_page(&tokens, &value, 10_000, 32_000).expect("full schema");
    assert_eq!(full.returned_items, full.total_items);
    assert_eq!(full.remaining_items, 0);
    assert!(full.incomplete_reason.is_none());
    let full_serialized = write_json(&full.value);

    let partial = project_schema_page(&tokens, &value, 10_000, 200).expect("partial schema");
    assert_eq!(partial.total_items, full.total_items);
    assert!(partial.returned_items < partial.total_items);
    assert!(partial.remaining_items > 0);
    assert_eq!(partial.incomplete_reason, Some(JsonIncompleteReason::MaxTokens));
    assert!(partial.projected_tokens <= 200);
    let partial_serialized = write_json(&partial.value);
    let JsonValue::Number(omitted) =
        at(&partial.value, "/x-leantoken-incomplete/omitted_subtree_count")
    else {
        panic!("expected a number");
    };
    assert!(omitted.parse::<u64>().expect("count") > 0);

    let repeat = project_schema_page(&tokens, &value, 10_000, 200).expect("repeat partial");
    assert_eq!(partial_serialized, write_json(&repeat.value));
    assert_eq!(partial.projected_tokens, repeat.projected_tokens);
    assert_ne!(full_serialized, partial_serialized);
}

#[test]
fn enough_room_leaves_nothing_out() {
    let value = json(r#"{"a": [1, 2, 3], "b": {"c": null, "d": "text"}}"#);
    let nodes = count_nodes(&value);
    assert_eq!(nodes, 8);
    let mut state = ProjectionState::new(nodes, 3);
    assert!(write_json(&collapse_json(&value, &mut state)).contains("[1,2,3]"));
    assert!(state.is_complete());
    let mut state = ProjectionState::new(nodes - 1, 3);
    collapse_json(&value, &mut state);
    assert!(!state.is_complete());
    let count_all = |text: &str| text.len();
    let shape = project_schema_page(&count_all, &value, nodes, 10_000).expect("schema");
    assert_eq!((shape.returned_items, shape.remaining_items), (nodes, 0));
    assert!(shape.incomplete_reason.is_none());
}

fn parse_text(text: &str) -> Result<JsonValue, JsonSyntaxError> {
    serde_json::from_str(text).map(|value| from_serde(&value)).map_err(|e| JsonSyntaxError {
        category: "syntax",
        line: e.line(),
        column: e.column(),
        reason: e.to_string(),
    })
}

fn loaded(bytes: &[u8], max_bytes: usize) -> Result<LoadedJson, Error> {
    let file = JsonFile { metadata_bytes: bytes.len(), bytes: bytes.to_vec() };
    Services::load_json(Ok("a.json".into()), Ok(file), max_bytes, &parse_text, &count)
}

#[test]
fn files_are_loaded_within_a_size_and_as_text() {
    let found = loaded("{\"k\": \"größe\"}".as_bytes(), 100).expect("document");
    assert_eq!(found.value, json(r#"{"k": "größe"}"#));
    assert_eq!(found.source.path, "a.json");
    assert_eq!(found.source.bytes, 16);
    assert_eq!(found.source.content_hash, fingerprint_text("{\"k\": \"größe\"}"));
    assert!(matches!(
        loaded(b"[1, 2]", 3),
        Err(Error::RequestLimitExceeded { field: "JSON file bytes", requested: 6, limit: 3 })
    ));
    assert!(matches!(
        loaded(&[b'"', 0xff, b'"'], 100),
        Err(Error::InvalidInput { field: "path", reason: "JSON file is not valid UTF-8" })
    ));
    assert!(matches!(
        loaded(b"[1,\n ]", 100),
        Err(Error::InvalidJson { line: 2, column: 2, byte_offset: 5, .. })
    ));
}

#[test]
fn queries_are_known_by_operation_and_depth() {
    let written = r#"{"kind":"query","path":"a.json"}"#;
    let standard = JsonExecutionOptions::standard();
    assert_eq!(json_query_hash(written, json(written), standard), fingerprint_text(written));
    assert_eq!(
        json_query_hash(written, json(written), JsonExecutionOptions::mcp(Some(2))),
        fingerprint_text(
            r#"{"depth":2,"operation":{"kind":"query","path":"a.json"},"order":"depth_then_pointer"}"#
        )
    );
    assert_eq!(
        json_query_hash(written, json(written), JsonExecutionOptions::mcp(None)),
        fingerprint_text(
            r#"{"depth":null,"operation":{"kind":"query","path":"a.json"},"order":"depth_then_pointer"}"#
        )
    );
}

#[test]
fn shapes_are_inferred_as_far_as_items_are_left() {
    let value = json(r#"{"a": [1, "x", 2], "b": {"c": null}}"#);
    let mut state = ProjectionState::new(100, 3);
    let shape = infer_schema(&value, &mut state);
    assert!(state.is_complete());
    assert_eq!(
        write_json(&shape),
        concat_text(&[
            r#"{"properties":{"a":{"count":3,"items":{"anyOf":[{"type":"number"},"#,
            r#"{"type":"string"}]},"type":"array"},"b":{"properties":{"c":{"type":"null"}},"#,
            r#""type":"object"}},"type":"object"}"#,
        ])
    );
    let mut state = ProjectionState::new(3, 3);
    let shape = infer_schema(&value, &mut state);
    assert!(!state.is_complete());
    assert_eq!(
        write_json(&shape),
        r#"{"properties":{"a":{"count":3,"items":{"type":"number"},"type":"array"}},"type":"object"}"#
    );
    let mut state = ProjectionState::new(0, 3);
    assert_eq!(write_json(&infer_schema(&value, &mut state)), r#"{"type":"unknown"}"#);
}

fn concat_text(parts: &[&str]) -> String {
    parts.concat()
}

#[test]
fn receipts_are_named_as_resources() {
    let answer = json(r#"{"kind": "query", "meta": {"receipt_id": "rcpt_1"}, "value": 1}"#);
    assert_eq!(
        write_json(&decorate_receipt(&answer)),
        concat_text(&[
            r#"{"kind":"query","meta":{"receipt_id":"rcpt_1"},"receipt_resource":{"id":"rcpt_1","#,
            r#""kind":"retrieval_receipt","uri":"leantoken://receipt/v1/rcpt_1"},"value":1}"#,
        ])
    );
    let plain = json(r#"{"meta": {"receipt_id": null}}"#);
    assert_eq!(decorate_receipt(&plain), plain);
}
