//! Receipts, cursors, files, handoffs and scans.

use leantoken::candidate_scan::collect_ranked_candidates;
use leantoken::change_receipt::{
    classify_symbols, explicitly_public, symbol_body_fingerprint, ParsedSymbol,
};
use leantoken::cursor::{
    ContinuationCursor, CursorKind, StreamId, StreamIdentityBuilder, ENCODED_CURSOR_BYTES,
};
use leantoken::error::Error;
use leantoken::files::sql_glob_patterns;
use leantoken::handoff::{
    is_likely_test_path, parse_request, truncate_gaps, truncate_utf8, MAX_GAPS, MAX_HOST_ITEMS,
    MAX_SUMMARY_BYTES,
};
use leantoken::json::value::{json_fingerprint, JsonValue};
use leantoken::model::{DiffSymbolChangeKind, DiffSymbolEvidence, HandoffManifestRequest};
use tokio_util::sync::CancellationToken;

#[test]
fn rejected_candidates_do_not_consume_the_result_limit() {
    let source = (0..80).collect::<Vec<i32>>();
    let result = collect_ranked_candidates(
        3,
        &CancellationToken::new(),
        |offset, limit| Ok(source.iter().skip(offset).take(limit).copied().collect()),
        |value: &i32| *value >= 60,
    )
    .expect("ranked scan");
    assert_eq!(result.hits, [60, 61, 62]);
    assert!(!result.scan_limited);
}

#[test]
fn scan_exhaustion_is_explicit_and_cancellation_propagates() {
    let result = collect_ranked_candidates(
        1,
        &CancellationToken::new(),
        |offset, limit| Ok((offset..offset + limit).collect()),
        |_: &usize| false,
    )
    .expect("bounded scan");
    assert!(result.hits.is_empty());
    assert!(result.scan_limited);
    let cancellation = CancellationToken::new();
    cancellation.cancel();
    assert!(matches!(
        collect_ranked_candidates(1, &cancellation, |_, _| Ok(vec![1]), |_: &i32| true),
        Err(Error::Cancelled)
    ));
}

fn parsed(name: &str, body_fingerprint: &str) -> ParsedSymbol {
    ParsedSymbol {
        evidence: DiffSymbolEvidence {
            path: "src/lib.rs".into(),
            name: name.into(),
            kind: "function".into(),
            start_line: 1,
            end_line: 1,
        },
        parent: None,
        signature: Some(format!("fn {name}()")),
        content: format!("fn {name}() {{ 1 }}"),
        body_fingerprint: Some(body_fingerprint.into()),
        explicitly_public: false,
    }
}

#[test]
fn test_ambiguous_body_fingerprint_does_not_claim_rename() {
    let before = vec![parsed("old_one", "same"), parsed("old_two", "same")];
    let after = vec![parsed("new_one", "same"), parsed("new_two", "same")];
    let mut gaps = Vec::new();
    let changes = classify_symbols(&before, &after, &mut gaps);
    assert!(changes.iter().all(|change| change.kind != DiffSymbolChangeKind::Renamed));
    assert!(gaps.contains(&"ambiguous_symbol_rename_fingerprint".into()));
}

#[test]
fn test_declarations_without_bodies_do_not_claim_rename() {
    let mut before = parsed("old_name", "unused");
    before.body_fingerprint = None;
    let mut after = parsed("new_name", "unused");
    after.body_fingerprint = None;
    let mut gaps = Vec::new();
    let changes = classify_symbols(&vec![before], &vec![after], &mut gaps);
    assert!(changes.iter().all(|change| change.kind != DiffSymbolChangeKind::Renamed));
}

#[test]
fn a_single_moved_body_is_a_rename() {
    let mut gaps = Vec::new();
    let changes = classify_symbols(
        &vec![parsed("old_name", "same")],
        &vec![parsed("new_name", "same")],
        &mut gaps,
    );
    assert_eq!(changes.len(), 1);
    assert_eq!(changes[0].kind, DiffSymbolChangeKind::Renamed);
    assert!(gaps.is_empty());
}

fn number(n: u32) -> JsonValue {
    JsonValue::Number(n.to_string())
}

#[test]
fn test_json_fingerprint_ignores_object_key_order() {
    let left = JsonValue::Object(vec![("one".into(), number(1)), ("two".into(), number(2))]);
    let right = JsonValue::Object(vec![("two".into(), number(2)), ("one".into(), number(1))]);
    assert_eq!(json_fingerprint(&left), json_fingerprint(&right));
}

#[test]
fn fingerprints_tell_values_apart() {
    let left = JsonValue::Object(vec![("one".into(), number(1))]);
    let right = JsonValue::Object(vec![("one".into(), number(2))]);
    assert_ne!(json_fingerprint(&left), json_fingerprint(&right));
    assert_eq!(json_fingerprint(&left).len(), 64);
}

#[test]
fn test_explicit_public_detection_is_conservative() {
    assert!(explicitly_public(&Some("pub fn visible()".into())));
    assert!(explicitly_public(&Some("export const visible =".into())));
    assert!(!explicitly_public(&Some("fn publicize()".into())));
    assert!(!explicitly_public(&Some("fn private()".into())));
}

fn stream(value: &str) -> StreamId {
    let mut builder = StreamIdentityBuilder::new(CursorKind::Search);
    builder.field_str("query", value);
    builder.finish()
}

#[test]
fn cursor_round_trip_preserves_its_typed_identity() {
    for position in [0, 1, 42, usize::MAX] {
        let encoded = ContinuationCursor::at(CursorKind::Search, 7, stream("needle"), position)
            .expect("bounded cursor")
            .encode();
        assert_eq!(encoded.len(), ENCODED_CURSOR_BYTES);
        let decoded = ContinuationCursor::parse(&encoded).expect("parse cursor");
        assert_eq!(
            decoded
                .position_for(CursorKind::Search, 7, stream("needle"))
                .expect("resume cursor"),
            position
        );
    }
}

#[test]
fn cursor_rejects_generation_stream_and_integrity_mismatches() {
    let encoded = ContinuationCursor::at(CursorKind::Search, 7, stream("needle"), 42)
        .expect("bounded cursor")
        .encode();
    let decoded = ContinuationCursor::parse(&encoded).expect("parse cursor");
    assert!(decoded.position_for(CursorKind::Search, 8, stream("needle")).is_err());
    assert!(decoded.position_for(CursorKind::Search, 7, stream("other")).is_err());

    let mut corrupted = encoded.into_bytes();
    corrupted[12] = if corrupted[12] == b'A' { b'B' } else { b'A' };
    let corrupted = String::from_utf8(corrupted).expect("base64 text");
    assert!(ContinuationCursor::parse(&corrupted).is_err());
}

#[test]
fn stream_fields_are_length_delimited_and_named() {
    let mut combined = StreamIdentityBuilder::new(CursorKind::Search);
    combined.field_str("left", "ab");
    combined.field_str("right", "c");

    let mut split = StreamIdentityBuilder::new(CursorKind::Search);
    split.field_str("left", "a");
    split.field_str("right", "bc");

    let mut renamed = StreamIdentityBuilder::new(CursorKind::Search);
    renamed.field_str("first", "ab");
    renamed.field_str("right", "c");

    assert!(!combined.finish().same(&split.finish()));
    assert!(!stream("ab").same(&renamed.finish()));
}

#[test]
fn malformed_and_legacy_cursors_fail_at_the_boundary() {
    for cursor in ["", "7:1", "not-base64", &"A".repeat(ENCODED_CURSOR_BYTES)] {
        assert!(ContinuationCursor::parse(cursor).is_err(), "{cursor}");
    }
}

#[test]
fn sql_glob_patterns_map_common_double_star_forms() {
    assert_eq!(sql_glob_patterns("*.rs"), Some(("*.rs".into(), None)));
    assert_eq!(sql_glob_patterns("**/*.rs"), Some(("*.rs".into(), None)));
    assert_eq!(sql_glob_patterns("src/**/*.rs"), Some(("src/*.rs".into(), None)));
    assert_eq!(sql_glob_patterns("src/**"), Some(("src/*".into(), None)));
    assert_eq!(
        sql_glob_patterns("**/lib.rs"),
        Some(("lib.rs".into(), Some("*/lib.rs".into())))
    );
    assert_eq!(
        sql_glob_patterns("src/**/lib.rs"),
        Some(("src/lib.rs".into(), Some("src/*/lib.rs".into())))
    );
}

#[test]
fn sql_glob_patterns_fall_back_for_unexpressible_forms() {
    assert_eq!(sql_glob_patterns("{a,b}.rs"), None);
    assert_eq!(sql_glob_patterns("a/**/b/**/c"), None);
    assert_eq!(sql_glob_patterns("**"), None);
}

#[test]
fn truncate_utf8_keeps_valid_boundaries() {
    let value = "a".repeat(MAX_SUMMARY_BYTES - 1) + "界";
    let (truncated, was_truncated) = truncate_utf8(&value, MAX_SUMMARY_BYTES);
    assert!(was_truncated);
    assert_eq!(truncated.len(), MAX_SUMMARY_BYTES - 1);
    assert!(truncated.is_char_boundary(truncated.len()));
}

#[test]
fn likely_test_path_requires_test_shaped_components() {
    assert!(is_likely_test_path("tests/services.rs"));
    assert!(is_likely_test_path("src/parser.test.ts"));
    assert!(!is_likely_test_path("src/latest.rs"));
}

#[test]
fn host_item_limits_return_the_named_request_boundary() {
    let request = HandoffManifestRequest {
        summary: None,
        assumptions: vec!["bounded".into(); MAX_HOST_ITEMS + 1],
        open_questions: Vec::new(),
        negative_evidence: Vec::new(),
        avoid_rules: Vec::new(),
        validations: Vec::new(),
    };
    assert!(matches!(
        parse_request(request),
        Err(Error::RequestLimitExceeded {
            field: "handoff.assumptions",
            requested,
            limit: MAX_HOST_ITEMS,
        }) if requested == MAX_HOST_ITEMS + 1
    ));
}

#[test]
fn gap_limit_retains_an_explicit_truncation_diagnostic() {
    let mut gaps = (0..MAX_GAPS + 4)
        .map(|index| format!("gap {index}"))
        .collect::<Vec<_>>();
    truncate_gaps(&mut gaps);
    assert_eq!(gaps.len(), MAX_GAPS);
    assert_eq!(
        gaps.last().map(String::as_str),
        Some("manifest gaps truncated; 5 additional items omitted")
    );
}

#[test]
fn cursor_wrong_kind_rejected() {
    let encoded = ContinuationCursor::at(CursorKind::Search, 7, stream("needle"), 42)
        .expect("bounded cursor")
        .encode();
    let decoded = ContinuationCursor::parse(&encoded).expect("parse cursor");
    for kind in [CursorKind::Files, CursorKind::Outline, CursorKind::JsonKeys] {
        assert!(matches!(
            decoded.position_for(kind, 7, stream("needle")),
            Err(Error::StaleCursor)
        ));
    }
}

#[test]
fn cursor_truncated_rejected() {
    let encoded = ContinuationCursor::at(CursorKind::Search, 7, stream("needle"), 42)
        .expect("bounded cursor")
        .encode();
    for length in 0..encoded.len() {
        assert!(ContinuationCursor::parse(&encoded[..length]).is_err());
    }
}

#[test]
fn a_revision_has_no_changes_against_itself() {
    let symbols = || vec![parsed("one", "a"), parsed("two", "b"), parsed("two", "c")];
    let mut gaps: Vec<String> = vec!["earlier".into()];
    assert!(classify_symbols(&symbols(), &symbols(), &mut gaps).is_empty());
    assert_eq!(gaps, ["earlier", "src/lib.rs:two:ambiguous_symbol_identity"]);
}

#[test]
fn fingerprints_are_of_bodies_alone() {
    let signed = |text: &str| Some(text.to_string());
    let first = symbol_body_fingerprint("fn old()  {\n    1\n}", &signed("fn old()"));
    let second = symbol_body_fingerprint("fn new() { 1 }", &signed("fn  new()"));
    assert!(first.is_some());
    assert_eq!(first, second);
    assert_ne!(first, symbol_body_fingerprint("fn new() { 2 }", &signed("fn new()")));
    assert!(symbol_body_fingerprint("fn bare()", &signed(" fn  bare() ")).is_none());
    assert!(symbol_body_fingerprint(" \n ", &None).is_none());
    assert!(symbol_body_fingerprint("fn bare()", &None).is_some());
}
