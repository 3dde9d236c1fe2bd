//! History requests.

use leantoken::accounting::{
    Measurement, ReceiptResourceDecoration, ResponseAccountant, ResponseTokenAccounting,
    ServiceCallOptions,
};
use leantoken::change_receipt::{GitBlobBatch, ParserSymbol};
use leantoken::cursor::ServiceIdentity;
use leantoken::error::Error;
use leantoken::history::batch::{CommitPair, ComparisonPorts};
use leantoken::history::execution::{HistoryPorts, ResolvedRevisions};
use leantoken::history::request::{
    parse_diff_symbols_request, parse_history_request, HistoricalHeadTarget,
    ParsedHistoryOperation, MAX_DIFF_SYMBOL_TARGETS,
};
use leantoken::history::revision::{
    GitBlob, GitCommitMetadata, HistoricalBlob, HistoricalBlobs, ResolvedHistoricalSymbol,
};
use leantoken::history::types::{
    DiffSymbolsRequest, DiffSymbolsResponse, DiffSymbolsStatus, DiffSymbolsTarget,
    HistoryOperation, HistoryRequest, HistoryResponse, SymbolHistoryCommit,
};
use leantoken::model::{
    DiffSymbolChange, DiffSymbolChangeKind, DiffSymbolModification, Freshness, ResponseMeta,
};
use leantoken::services::Services;
use leantoken::validation::InputLimits;
use tokio_util::sync::CancellationToken;

const MAX_HISTORY_RESULTS: usize = 100;
const MAX_PATTERN_BYTES: usize = 16_384;

fn limits() -> InputLimits {
    InputLimits {
        max_path_bytes: 4_096,
        max_pattern_bytes: MAX_PATTERN_BYTES,
        max_query_bytes: 16_384,
        max_input_items: 100,
    }
}

fn unchanged(path: &str) -> Result<String, Error> {
    Ok(path.to_owned())
}

#[test]
fn history_normalization_trims_symbols_and_revisions_before_resolution() {
    let request = parse_history_request(
        HistoryRequest {
            operation: HistoryOperation::ReadSymbol {
                path: "lib.rs".into(),
                symbol: "  Services.handle_request ".into(),
                revision: " HEAD\n".into(),
            },
            max_results: None,
            max_tokens: None,
        },
        MAX_HISTORY_RESULTS,
        limits(),
        &unchanged,
    )
    .expect("normalized history request");

    let ParsedHistoryOperation::ReadSymbol { symbol, revision, .. } = request.operation else {
        panic!("expected read symbol operation");
    };
    assert_eq!(symbol, "Services.handle_request");
    assert_eq!(revision, "HEAD");
}

#[test]
fn history_normalization_rejects_whitespace_only_symbols_and_revisions() {
    let error = parse_history_request(
        HistoryRequest {
            operation: HistoryOperation::ReadSymbol {
                path: "lib.rs".into(),
                symbol: " \t".into(),
                revision: "HEAD".into(),
            },
            max_results: None,
            max_tokens: None,
        },
        MAX_HISTORY_RESULTS,
        limits(),
        &unchanged,
    )
    .expect_err("whitespace-only symbol");
    assert!(matches!(
        error,
        Error::InvalidInput {
            field: "symbol",
            reason: "must not be empty"
        }
    ));

    let error = parse_history_request(
        HistoryRequest {
            operation: HistoryOperation::ReadSymbol {
                path: "lib.rs".into(),
                symbol: "handle_request".into(),
                revision: " \n".into(),
            },
            max_results: None,
            max_tokens: None,
        },
        MAX_HISTORY_RESULTS,
        limits(),
        &unchanged,
    )
    .expect_err("whitespace-only revision");
    assert!(matches!(
        error,
        Error::InvalidInput {
            field: "revision",
            reason: "must not be empty"
        }
    ));
}

#[test]
fn batch_history_normalization_refines_endpoint_values() {
    let request = parse_diff_symbols_request(
        DiffSymbolsRequest {
            targets: vec![DiffSymbolsTarget {
                path: "lib.rs".into(),
                symbol: "  handle_request ".into(),
                head_path: Some("lib.rs".into()),
                head_symbol: Some(" handle_request ".into()),
            }],
            base_revision: " HEAD~1 ".into(),
            head_revision: " HEAD ".into(),
            max_results: None,
            max_tokens: None,
            cursor: None,
        },
        MAX_HISTORY_RESULTS,
        limits(),
        &unchanged,
    )
    .expect("normalized batch history request");

    assert_eq!(request.base_revision, "HEAD~1");
    assert_eq!(request.head_revision, "HEAD");
    assert_eq!(request.targets[0].base.symbol, "handle_request");
    let HistoricalHeadTarget::Override(head) = &request.targets[0].head else {
        panic!("expected an explicit head target");
    };
    assert_eq!(head.symbol, "handle_request");
}

#[test]
fn raw_history_symbol_bytes_are_bounded_before_normalization() {
    let request = HistoryRequest {
        operation: HistoryOperation::ReadSymbol {
            path: "lib.rs".into(),
            symbol: format!("{}symbol", " ".repeat(MAX_PATTERN_BYTES + 1)),
            revision: "HEAD".into(),
        },
        max_results: None,
        max_tokens: None,
    };

    assert!(matches!(
        parse_history_request(request, MAX_HISTORY_RESULTS, limits(), &unchanged),
        Err(Error::InputTooLong {
            field: "symbol",
            max_bytes: MAX_PATTERN_BYTES,
        })
    ));
}

#[test]
fn raw_diff_symbol_target_count_is_bounded_before_normalization() {
    let targets = (0..MAX_DIFF_SYMBOL_TARGETS + 1)
        .map(|_| DiffSymbolsTarget {
            path: "lib.rs".into(),
            symbol: "answer".into(),
            head_path: None,
            head_symbol: None,
        })
        .collect::<Vec<_>>();
    let request = DiffSymbolsRequest {
        targets,
        base_revision: "HEAD~1".into(),
        head_revision: "HEAD".into(),
        max_results: None,
        max_tokens: None,
        cursor: None,
    };

    let error = parse_diff_symbols_request(request, MAX_HISTORY_RESULTS, limits(), &unchanged)
        .expect_err("target count limit");
    assert!(matches!(
        error,
        Error::RequestLimitExceeded {
            field: "targets",
            requested,
            limit,
        } if requested == MAX_DIFF_SYMBOL_TARGETS + 1 && limit == MAX_DIFF_SYMBOL_TARGETS
    ));
}

#[test]
fn configured_history_result_limit_is_checked_before_git_work() {
    let request = HistoryRequest {
        operation: HistoryOperation::SymbolLog {
            path: "lib.rs".into(),
            symbol: "answer".into(),
            revision: None,
        },
        max_results: Some(3),
        max_tokens: None,
    };

    assert!(matches!(
        parse_history_request(request, 2, limits(), &unchanged),
        Err(Error::RequestLimitExceeded {
            field: "max_results",
            requested: 3,
            limit: 2,
        })
    ));
}

const BASE: &str = "fn first() {\n    1\n}\nfn second() {\n    2\n}\n";
const HEAD: &str = "fn first() {\n    10\n}\nfn second() {\n    2\n}\n";

fn parse(content: &str) -> Vec<ParserSymbol> {
    let mut symbols: Vec<ParserSymbol> = Vec::new();
    let mut from = 0;
    let mut line = 1;
    while let Some(at) = content[from..].find("}\n") {
        let to = from + at + 1;
        let name = content[from + 3..].split('(').next().expect("name");
        symbols.push(ParserSymbol {
            name: name.into(),
            kind: "function".into(),
            start_byte: from,
            end_byte: to,
            start_line: line,
            end_line: line + 2,
            parent: None,
            signature: Some(format!("fn {name}()")),
        });
        from = to + 1;
        line += 3;
    }
    symbols
}

fn content_at(revision: &str) -> &'static str {
    if revision == "aaa" {
        BASE
    } else {
        HEAD
    }
}

fn blob_at(revision: &str, path: &str, symbol: &str) -> Result<GitBlob, Error> {
    if path != "lib.rs" {
        return Err(Error::InvalidInput {
            field: "path",
            reason: "file does not exist at revision",
        });
    }
    let content = content_at(revision);
    let symbols = parse(content);
    let matches = symbols.iter().map(|found| found.name == symbol).collect();
    Ok(GitBlob {
        revision: revision.into(),
        content: content.into(),
        parsed: Ok(symbols),
        matches,
    })
}

fn identity(_base: &str, _head: &str) -> Result<ResolvedRevisions, Error> {
    Ok(ResolvedRevisions { base_revision: "aaa".into(), head_revision: "bbb".into() })
}

fn line_history(
    _revision: &str,
    _path: &str,
    _from: usize,
    _to: usize,
    limit: usize,
) -> Result<Vec<SymbolHistoryCommit>, Error> {
    Ok((0..limit)
        .map(|index| SymbolHistoryCommit {
            commit: format!("commit-{index}"),
            authored_at: "today".into(),
            subject: "change".into(),
        })
        .collect())
}

fn classify(
    _base_path: &str,
    _head_path: &str,
    before: &Option<ResolvedHistoricalSymbol>,
    after: &Option<ResolvedHistoricalSymbol>,
    _renamed: bool,
) -> Option<DiffSymbolChange> {
    assert!(before.is_some() || after.is_some());
    None
}

fn count(text: &str) -> usize {
    text.len()
}

fn truncate(text: &str, max_tokens: usize) -> (usize, usize) {
    let bytes = text.len().min(max_tokens);
    (bytes, bytes)
}

fn sized(total: usize) -> Measurement {
    Ok(ResponseTokenAccounting {
        protocol_tokens: 1,
        path_and_metadata_tokens: 2,
        total_response_tokens: total,
    })
}

fn measure_history(
    response: &HistoryResponse,
    _: &ResponseMeta,
    _: ReceiptResourceDecoration,
) -> Measurement {
    sized(response.kind.len())
}

fn measure_comparison(
    response: &DiffSymbolsResponse,
    _: &ResponseMeta,
    _: ReceiptResourceDecoration,
) -> Measurement {
    sized(10 * response.results.len())
}

fn meta() -> ResponseMeta {
    ResponseMeta {
        repository_id: "repository".into(),
        repository_generation: 7,
        freshness: Freshness::Stale,
        source_tokens: 0,
        protocol_tokens: 0,
        path_and_metadata_tokens: 0,
        total_response_tokens: 0,
        next_cursor: None,
        receipt_id: None,
        receipt_suppressed_exact: 0,
        receipt_suppressed_overlap: 0,
        receipt_near_duplicates: 0,
    }
}

fn options() -> ServiceCallOptions {
    ServiceCallOptions {
        max_response_tokens: None,
        context_response_profile: None,
        mcp_response_shape: false,
    }
}

fn answer(operation: HistoryOperation, max_tokens: usize) -> Result<HistoryResponse, Error> {
    let request = parse_history_request(
        HistoryRequest { operation, max_results: Some(2), max_tokens: None },
        MAX_HISTORY_RESULTS,
        limits(),
        &unchanged,
    )?;
    let ports = HistoryPorts {
        blob_at,
        identity,
        line_history,
        classify,
        count,
        truncate,
        measure: measure_history,
    };
    Services::history_sync(
        &request,
        10,
        Ok(max_tokens),
        Ok(meta()),
        &ports,
        options(),
        &CancellationToken::new(),
    )
}

#[test]
fn a_symbol_is_read_at_a_revision() {
    let read = answer(
        HistoryOperation::ReadSymbol {
            path: "lib.rs".into(),
            symbol: "second".into(),
            revision: "aaa".into(),
        },
        1_000,
    )
    .expect("symbol");
    let symbol = read.symbol.expect("symbol");
    assert_eq!(symbol.content.as_deref(), Some("fn second() {\n    2\n}"));
    assert_eq!((symbol.target_start_line, symbol.returned_end_line), (4, 6));
    assert!(read.result_complete);
    let missing = answer(
        HistoryOperation::ReadSymbol {
            path: "lib.rs".into(),
            symbol: "third".into(),
            revision: "aaa".into(),
        },
        1_000,
    );
    assert!(matches!(
        missing,
        Err(Error::SymbolNotFound { path, symbol }) if path == "lib.rs@aaa" && symbol == "third"
    ));
}

#[test]
fn a_symbol_is_compared_line_by_line() {
    let operation = || HistoryOperation::DiffSymbol {
        path: "lib.rs".into(),
        symbol: "first".into(),
        base_revision: "HEAD~1".into(),
        head_revision: "HEAD".into(),
    };
    let whole = answer(operation(), 1_000).expect("difference");
    let expected = "--- aaa:lib.rs\n+++ bbb:lib.rs\n@@ -1,3 +1,3 @@\n fn first() {\n-    1\n+    10\n }\n";
    assert_eq!(whole.diff.as_deref(), Some(expected));
    assert!(!whole.diff_truncated && whole.result_complete);
    assert_eq!(whole.meta.source_tokens, expected.len());
    let cut = answer(operation(), 20).expect("difference");
    assert_eq!(cut.diff.as_deref(), Some(&expected[..20]));
    assert!(cut.diff_truncated && !cut.result_complete);
}

#[test]
fn the_commits_of_a_symbol_are_listed() {
    let log = answer(
        HistoryOperation::SymbolLog {
            path: "lib.rs".into(),
            symbol: "first".into(),
            revision: None,
        },
        1_000,
    )
    .expect("log");
    assert_eq!(log.commits.len(), 2);
    assert!(!log.result_complete);
}

fn commits(base: &str, head: &str) -> Result<CommitPair, Error> {
    let commit = |revision: &str| GitCommitMetadata {
        revision: revision.into(),
        authored_at: "today".into(),
        subject: "change".into(),
    };
    Ok(CommitPair { base: Some(commit(base)), head: Some(commit(head)) })
}

fn blobs_at(revision: &str, paths: &Vec<String>) -> Result<HistoricalBlobs, Error> {
    let content = content_at(revision);
    Ok(HistoricalBlobs {
        revision: revision.into(),
        blobs: paths
            .iter()
            .map(|path| HistoricalBlob {
                path: path.clone(),
                content: content.into(),
                parsed: Ok(parse(content)),
            })
            .collect(),
        skipped: GitBlobBatch {
            oversized_paths: Vec::new(),
            total_limit_paths: Vec::new(),
            invalid_utf8_paths: Vec::new(),
            unsupported_paths: Vec::new(),
        },
    })
}

fn matches(name: &str, symbols: &Vec<ParserSymbol>) -> Vec<bool> {
    symbols.iter().map(|symbol| symbol.name == name).collect()
}

fn changed(
    before: &Option<ResolvedHistoricalSymbol>,
    after: &Option<ResolvedHistoricalSymbol>,
) -> Option<DiffSymbolChange> {
    let (Some(before), Some(after)) = (before, after) else {
        return None;
    };
    if before.content == after.content {
        return None;
    }
    Some(DiffSymbolChange {
        kind: DiffSymbolChangeKind::Modified,
        before: None,
        after: None,
        modification: Some(DiffSymbolModification::BodyOnly),
        public_contract_changed: false,
    })
}

fn compared(cursor: Option<String>) -> Result<DiffSymbolsResponse, Error> {
    compared_within(cursor, None)
}

fn compared_within(
    cursor: Option<String>,
    max_response_tokens: Option<usize>,
) -> Result<DiffSymbolsResponse, Error> {
    let target = |symbol: &str| DiffSymbolsTarget {
        path: "lib.rs".into(),
        symbol: symbol.into(),
        head_path: None,
        head_symbol: None,
    };
    let request = parse_diff_symbols_request(
        DiffSymbolsRequest {
            targets: vec![target("first"), target("second"), target("third")],
            base_revision: "HEAD~1".into(),
            head_revision: "HEAD".into(),
            max_results: Some(2),
            max_tokens: None,
            cursor,
        },
        MAX_HISTORY_RESULTS,
        limits(),
        &unchanged,
    )?;
    let service = ServiceIdentity {
        repository_id: "repository".into(),
        index_scope_digest: None,
        implementation_version: "1".into(),
        tokenizer: "bytes".into(),
    };
    let ports = ComparisonPorts {
        identity,
        commits,
        blobs_at,
        matches,
        classify: |_: &str,
                   _: &str,
                   before: &Option<ResolvedHistoricalSymbol>,
                   after: &Option<ResolvedHistoricalSymbol>,
                   _: bool| changed(before, after),
        count,
        truncate,
        measure: measure_comparison,
    };
    Services::history_diff_symbols_sync(
        &service,
        &request,
        10,
        Ok(1_000),
        Ok(meta()),
        &ports,
        ServiceCallOptions { max_response_tokens, ..options() },
        &CancellationToken::new(),
    )
}

#[test]
fn compared_symbols_come_in_pages() {
    let page = compared(None).expect("page");
    assert_eq!(page.results.len(), 2);
    assert_eq!(page.results[0].status, DiffSymbolsStatus::Modified);
    assert!(page.results[0].diff.as_deref().is_some_and(|diff| diff.contains("\n-    1\n+    10\n")));
    assert_eq!(page.results[1].status, DiffSymbolsStatus::Unchanged);
    assert!(page.results[1].diff.is_none());
    assert!(!page.result_complete);
    let rest = compared(page.meta.next_cursor).expect("rest");
    assert_eq!(rest.results.len(), 1);
    assert_eq!(rest.results[0].request_index, 2);
    assert_eq!(rest.results[0].status, DiffSymbolsStatus::NotFound);
    assert!(rest.meta.next_cursor.is_none());
    assert!(compared(Some("not a cursor".into())).is_err());
}

#[test]
fn settling_an_answer_changes_its_counts_alone() {
    let page = compared(None).expect("page");
    assert_eq!(page.meta.total_response_tokens, 20);
    assert_eq!(page.meta.protocol_tokens, 1);
    assert_eq!(page.meta.path_and_metadata_tokens, 2);
    assert_eq!(page.meta.repository_generation, meta().repository_generation);
    assert!(page.meta.next_cursor.is_some());
    for (index, result) in page.results.iter().enumerate() {
        assert_eq!(result.request_index, index);
    }
}

fn accountant(
    rule: fn(&ResponseMeta) -> Measurement,
) -> ResponseAccountant<impl Fn(&ResponseMeta, ReceiptResourceDecoration) -> Measurement> {
    ResponseAccountant::new(move |meta: &ResponseMeta, _: ReceiptResourceDecoration| rule(meta))
}

#[test]
fn counts_settle_from_nothing_whatever_they_were() {
    let growing = accountant(|meta| {
        sized(if meta.total_response_tokens < 10 { 10 } else { 12 })
    });
    let mut first = meta();
    first.total_response_tokens = 400;
    growing.finalize(&mut first).expect("settled");
    assert_eq!(first.total_response_tokens, 12);
    let mut again = first.duplicate();
    growing.finalize(&mut again).expect("settled");
    assert_eq!(again.total_response_tokens, 12);
    let swinging = accountant(|meta| {
        sized(if meta.total_response_tokens == 11 { 10 } else { 11 })
    });
    let mut cycled = meta();
    swinging.finalize(&mut cycled).expect("settled");
    assert_eq!(cycled.total_response_tokens, 11);
    let endless = accountant(|meta| sized(meta.total_response_tokens + 1));
    let mut left = meta();
    left.next_cursor = Some("next".into());
    let refused = endless.finalize(&mut left);
    assert!(matches!(refused, Err(Error::ResponseAccountingInvariant(_))));
    assert_eq!(left.next_cursor.as_deref(), Some("next"));
    let failing = accountant(|_| Err(Error::LimitExceeded));
    assert!(matches!(failing.finalize(&mut left), Err(Error::LimitExceeded)));
    assert_eq!(left.next_cursor.as_deref(), Some("next"));
}

#[test]
fn cut_pages_go_on_behind_their_results() {
    let first = compared_within(None, Some(15)).expect("one result");
    assert_eq!(first.results.len(), 1);
    assert_eq!(first.results[0].request_index, 0);
    assert_eq!(first.meta.total_response_tokens, 10);
    assert!(!first.result_complete);
    let second = compared_within(first.meta.next_cursor, Some(15)).expect("next result");
    assert_eq!(second.results.len(), 1);
    assert_eq!(second.results[0].request_index, 1);
    let third = compared_within(second.meta.next_cursor, Some(15)).expect("last result");
    assert_eq!(third.results[0].request_index, 2);
    assert!(third.meta.next_cursor.is_none());
    assert!(matches!(
        compared_within(None, Some(5)),
        Err(Error::ResponseBudgetExceeded {
            provided_max_response_tokens: 5,
            minimum_required_response_tokens: 10,
            ..
        })
    ));
}
