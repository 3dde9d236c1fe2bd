//! Gathering the candidates of a request, and putting its response together.

use std::cell::{Cell, RefCell};

use leantoken::accounting::{
    Measurement, ReceiptResourceDecoration, ResponseTokenAccounting, ServiceCallOptions,
};
use leantoken::context::candidates::constraints::ExactHit;
use leantoken::context::candidates::draft::{Candidate, ImportSymbol, LineRange};
use leantoken::context::candidates::graph::ImportTarget;
use leantoken::context::candidates::lexical::{
    ChunkHit, LexicalSearch, ReferenceHit, StoredExcerpt, SymbolHit,
};
use leantoken::context::candidates::query::QueryPorts;
use leantoken::context::candidates::ranked::{FoldedTerm, FullScan};
use leantoken::context::candidates::workflow::IndexedFile;
use leantoken::context::delivery::{ReceiptDecision, ReceiptEvaluation, ReceiptEvidence};
use leantoken::context::diagnostics::{
    AdaptiveExcerptRequest, CandidateDiagnostics, ContextPhaseTracker, FileLine,
    StoredExcerptRequest,
};
use leantoken::context::diff_evidence::{DiffEvidenceMode, DiffFacts};
use leantoken::context::execution::PreparedContext;
use leantoken::context::facets::{ContextQuery, Vocabulary, VocabularyEntry};
use leantoken::context::gathering::{
    ConstraintLookups, ContextGathering, ContextPorts, FocusContent, QuerySearch,
};
use leantoken::context::pipeline::{
    ContextEvaluation, ContextFinalization, RepositorySnapshot, ScopeFacts,
};
use leantoken::context::policy::{
    ContextDelivery, ContextFocusPolicy, ContextPolicy, ContextSignals, WorkingTreeObservation,
};
use leantoken::error::Error;
use leantoken::model::{
    ContextRequest, ContextResponseProfile, ContextWorkflow, Freshness, ResponseMeta,
    WorkflowEvidence,
};
use leantoken::response::{
    ContextCoverageReceipt, ContextFragment, ContextOmissionSummary, ContextReceipt,
    ContextResponse,
};
use leantoken::services::Services;
use tokio_util::sync::CancellationToken;

const TASK: &str = "investigate cache eviction and parser retries";

fn request() -> ContextRequest {
    ContextRequest {
        task: TASK.into(),
        token_budget: 4_000,
        max_fragments: None,
        minimum_fragments_per_focus_path: None,
        strict_focus_paths: false,
        strict_changed_paths: false,
        plan_only: false,
        explain_diagnostics: false,
        receipt_id: None,
        include_paths: Vec::new(),
        must_include_paths: Vec::new(),
        focus_paths: Vec::new(),
        exclude_paths: Vec::new(),
        focus_symbols: Vec::new(),
        must_include_symbols: vec!["evict".into()],
        required_evidence: Vec::new(),
        known_hashes: Vec::new(),
        changed_paths: vec!["src/cache.rs".into()],
        base_revision: None,
        prior_repository_generation: None,
    }
}

fn policy() -> ContextPolicy {
    ContextPolicy {
        delivery: ContextDelivery::Fragments { receipt_id: None, handoff: None },
        focus: ContextFocusPolicy { strict: false, minimum: None },
    }
}

fn prepared(strict: bool) -> PreparedContext {
    let asked = || ContextRequest { strict_changed_paths: strict, ..request() };
    PreparedContext {
        request: asked(),
        scoped_request: asked(),
        policy: policy(),
        workflow: ContextWorkflow::Contribution,
        workflow_evidence: WorkflowEvidence::default(),
        response_profile: ContextResponseProfile::Balanced,
        diff_evidence_mode: DiffEvidenceMode::WorkingTree,
        diff_scope: None,
        changed_paths: Vec::new(),
        working_tree: WorkingTreeObservation::Clean,
        working_tree_paths: Vec::new(),
    }
}

fn vocabulary() -> Vocabulary {
    let entry = |term: &str| VocabularyEntry {
        term: term.into(),
        terms: vec![term.into()],
        words: vec![term.into()],
        identifier: vec![term.into()],
    };
    Vocabulary { entries: TASK.split(' ').map(entry).collect() }
}

fn compiles(_: &str) -> Result<(), Error> {
    Ok(())
}

fn symbols(offset: usize, _: usize) -> Result<Vec<SymbolHit>, Error> {
    let hit = |path: &str, line: usize| SymbolHit {
        path: path.into(),
        generation: 1,
        file_id: 7,
        name: "evict".into(),
        parent: None,
        signature: None,
        start_line: line,
        end_line: line + 4,
        exact: true,
    };
    Ok(if offset == 0 { vec![hit("src/cache.rs", 10), hit("src/parser.rs", 20)] } else { vec![] })
}

fn references(_: usize, _: usize) -> Result<Vec<ReferenceHit>, Error> {
    Ok(Vec::new())
}

fn texts(
    _: LexicalSearch,
    _: &str,
    _: usize,
    _: usize,
) -> Result<Vec<ChunkHit>, Error> {
    Ok(Vec::new())
}

fn scan() -> Result<FullScan, Error> {
    Ok(FullScan { hits: Vec::new(), limitation: None })
}

fn allows(_: &str) -> bool {
    true
}

fn record(_: &Vec<String>, error: Error) -> Result<Vec<String>, Error> {
    Err(error)
}

fn enclosing(places: &Vec<FileLine>) -> Result<Vec<Option<LineRange>>, Error> {
    Ok(places.iter().map(|_| None).collect())
}

fn declared(
    requests: &Vec<AdaptiveExcerptRequest>,
) -> Result<Vec<Option<StoredExcerpt>>, Error> {
    Ok(requests
        .iter()
        .map(|request| {
            assert_eq!(request.selection_budget, Some(4_000));
            Some(excerpt("declared", request.matched_line))
        })
        .collect())
}

fn stored(requests: &Vec<StoredExcerptRequest>) -> Result<Vec<Option<StoredExcerpt>>, Error> {
    Ok(requests.iter().map(|_| Some(excerpt("stored", 1))).collect())
}

fn fit(given: &StoredExcerpt, line: usize, _: usize, _: usize) -> Option<StoredExcerpt> {
    Some(excerpt(&given.content, line))
}

fn excerpt(content: &str, line: usize) -> StoredExcerpt {
    StoredExcerpt { content: content.into(), start_line: line, end_line: line + 1 }
}

/// What was asked of the index, in order.
#[derive(Default)]
struct Asked {
    queries: RefCell<Vec<String>>,
    adaptive: RefCell<Vec<Vec<AdaptiveExcerptRequest>>>,
    stored: RefCell<Vec<Vec<StoredExcerptRequest>>>,
    imports: RefCell<Vec<Vec<String>>>,
    importers: RefCell<Vec<Vec<String>>>,
}

fn gathered(
    asked: &Asked,
    strict: bool,
    broken: &str,
    phases: &mut ContextPhaseTracker,
    cancellation: &CancellationToken,
) -> Result<ContextGathering, Error> {
    let fails = |part: &str| {
        if broken == part { Err(Error::OperationFailure(part.to_owned())) } else { Ok(()) }
    };
    let ports = ContextPorts {
        queries: |query: &ContextQuery| {
            asked.queries.borrow_mut().push(query.value.clone());
            QuerySearch {
                ports: QueryPorts {
                    compile: compiles,
                    symbols,
                    references,
                    search: texts,
                    scan,
                    allows,
                    record,
                    enclosing,
                    adaptive: declared,
                    stored,
                    fit,
                },
                quoted: format!("\"{}\"", query.value),
                folded: Some(FoldedTerm { expanded: false, expression: String::new() }),
            }
        },
        constraints: |request: &ContextRequest| {
            fails("constraints")?;
            assert_eq!(request.task, TASK);
            Ok(ConstraintLookups {
                files: Vec::new(),
                required_chunks: Vec::new(),
                beginnings: Vec::new(),
                exact_hits: vec![vec![ExactHit {
                    path: "src/cache.rs".into(),
                    file_id: 7,
                    name: "evict".into(),
                    start_line: 10,
                    end_line: 14,
                    allowed: true,
                }]],
                evidence_chunks: Vec::new(),
                evidence_excerpts: Vec::new(),
            })
        },
        adaptive: |requests: &Vec<AdaptiveExcerptRequest>| {
            fails("adaptive")?;
            asked.adaptive.borrow_mut().push(requests.clone());
            let shown = |request: &AdaptiveExcerptRequest| {
                Some(excerpt("required", request.matched_line))
            };
            Ok(requests.iter().map(shown).collect::<Vec<_>>())
        },
        stored: |requests: &Vec<StoredExcerptRequest>| {
            fails("stored")?;
            asked.stored.borrow_mut().push(requests.clone());
            Ok(requests.iter().map(|_| Some(excerpt("guide", 1))).collect::<Vec<_>>())
        },
        focus: |_: &Vec<_>| -> Result<Vec<Vec<FocusContent>>, Error> {
            fails("focus")?;
            Ok(Vec::new())
        },
        workflow: |_: &ContextRequest| {
            fails("workflow")?;
            Ok((vec![IndexedFile { id: 3, path: "CONTRIBUTING.md".into() }], vec![true]))
        },
        scores: |candidates: &Vec<Candidate>| vec![100; candidates.len()],
        imports: |paths: &Vec<String>| {
            fails("imports")?;
            asked.imports.borrow_mut().push(paths.clone());
            Ok(vec![ImportTarget {
                seed_index: 0,
                path: "src/eviction.rs".into(),
                file_id: 9,
                generation: 1,
                allowed: true,
                symbols: vec![ImportSymbol {
                    name: "eviction".into(),
                    parent: None,
                    signature: None,
                    start_line: 5,
                    end_line: 6,
                }],
            }])
        },
        importers: |paths: &Vec<String>| {
            fails("importers")?;
            asked.importers.borrow_mut().push(paths.clone());
            Ok(vec!["src/parser.rs".to_owned()])
        },
    };
    let ticks = Cell::new(0u64);
    let clock = || {
        ticks.set(ticks.get() + 10);
        ticks.get()
    };
    Services::context_sync(
        &prepared(strict),
        &vocabulary(),
        &ports,
        ContextSignals { import_neighbor: true, reverse_dependency: true, caller: false },
        &clock,
        phases,
        cancellation,
    )
}

fn tracker() -> ContextPhaseTracker {
    ContextPhaseTracker::new(CandidateDiagnostics::Collect, 1, 0)
}

#[test]
fn a_request_is_gathered_from_what_the_index_answers() {
    let asked = Asked::default();
    let mut phases = tracker();
    let batch = gathered(&asked, false, "", &mut phases, &CancellationToken::new())
        .expect("gathered");
    let queries = asked.queries.borrow();
    assert!(!queries.is_empty());
    assert_eq!(phases.counters.queries_executed, queries.len());
    let adaptive = asked.adaptive.borrow();
    assert_eq!(adaptive[0].len(), 1);
    assert_eq!((adaptive[0][0].file_id, adaptive[0][0].declaration_start), (7, 10));
    assert_eq!(adaptive[0][0].selection_budget, None);
    let lines = asked.stored.borrow();
    assert_eq!(lines.len(), 1);
    assert_eq!((lines[0][0].file_id, lines[0][0].desired_end_line), (3, 80));
    assert!(asked.imports.borrow()[0].iter().any(|path| path == "src/cache.rs"));
    assert!(asked.importers.borrow()[0].iter().any(|path| path == "src/cache.rs"));
    let has = |path: &str, kind: &str| {
        batch.candidates.iter().any(|candidate| {
            candidate.path == path && candidate.match_kinds.iter().any(|held| held == kind)
        })
    };
    assert!(has("src/cache.rs", "symbol"));
    assert!(has("src/parser.rs", "reverse-import"));
    assert!(!has("src/cache.rs", "reverse-import"));
    assert!(batch.candidates.iter().any(|candidate| candidate.path == "CONTRIBUTING.md"));
    assert!(batch.candidates.iter().any(|candidate| candidate.content == "required"));
    assert_eq!(batch.workflow, ContextWorkflow::Contribution);
    assert!(batch.workflow_receipt.is_some());
    assert_eq!(phases.timings.workflow_generation, 10);
    assert_eq!(phases.timings.candidate_generation, 30);
}

#[test]
fn a_strict_request_keeps_changed_paths_only() {
    let asked = Asked::default();
    let batch = gathered(&asked, true, "", &mut tracker(), &CancellationToken::new())
        .expect("gathered");
    assert!(!batch.candidates.is_empty());
    assert!(batch.candidates.iter().all(|candidate| candidate.path == "src/cache.rs"));
}

#[test]
fn a_request_is_not_gathered_where_the_index_fails() {
    let token = CancellationToken::new();
    for part in
        ["constraints", "adaptive", "focus", "workflow", "stored", "imports", "importers"]
    {
        let failed = gathered(&Asked::default(), false, part, &mut tracker(), &token);
        assert!(matches!(failed, Err(Error::OperationFailure(reason)) if reason == part));
    }
    token.cancel();
    let asked = Asked::default();
    let stopped = gathered(&asked, false, "", &mut tracker(), &token);
    assert!(matches!(stopped, Err(Error::Cancelled)));
    assert!(asked.queries.borrow().is_empty());
}

fn meta() -> ResponseMeta {
    ResponseMeta {
        repository_id: String::new(),
        repository_generation: 7,
        freshness: Freshness::Stale,
        source_tokens: 8,
        protocol_tokens: 0,
        path_and_metadata_tokens: 0,
        total_response_tokens: 0,
        next_cursor: None,
        receipt_id: None,
        receipt_suppressed_exact: 0,
        receipt_suppressed_overlap: 0,
        receipt_near_duplicates: 0,
    }
}

fn fragment(path: &str) -> ContextFragment {
    ContextFragment {
        path: path.into(),
        start_line: 1,
        end_line: 2,
        target_start_line: None,
        target_end_line: None,
        truncated: false,
        representation: "source".into(),
        content: "content".into(),
        content_hash: format!("hash of {path}"),
        score: 10,
        reason: "symbol".into(),
        token_count: 4,
    }
}

fn no_coverage() -> ContextCoverageReceipt {
    ContextCoverageReceipt {
        covered_must_include_paths: Vec::new(),
        covered_must_include_symbols: Vec::new(),
        partial_must_include_symbols: Vec::new(),
        uncovered_must_include_paths: Vec::new(),
        uncovered_must_include_symbols: Vec::new(),
        unmatched_must_include_paths: Vec::new(),
        unmatched_must_include_symbols: Vec::new(),
        unmatched_focus_paths: Vec::new(),
        unmatched_focus_symbols: Vec::new(),
        unmatched_include_paths: Vec::new(),
        required_evidence: Vec::new(),
        evidence_scope_satisfied: None,
        focus_path_coverage: Vec::new(),
        changed_path_coverage: None,
        path_scope_satisfied: None,
    }
}

fn selection() -> ContextResponse {
    ContextResponse {
        meta: meta(),
        fragments: vec![fragment("src/parser.rs"), fragment("src/cache.rs")],
        plan: None,
        omitted: Vec::new(),
        omission_summary: ContextOmissionSummary {
            path_excluded: 0,
            known_hash: 0,
            budget_or_result_limit: 0,
            by_path: Vec::new(),
            by_language_or_file_type: Vec::new(),
            by_reason: Vec::new(),
            by_score_band: Vec::new(),
        },
        receipt: ContextReceipt {
            task_fingerprint: "task".into(),
            fragment_hashes: vec!["hash of src/parser.rs".into(), "hash of src/cache.rs".into()],
        },
        coverage: no_coverage(),
        warnings: Vec::new(),
        workflow: ContextWorkflow::Auto,
        workflow_receipt: None,
        provenance: None,
        diff_scope: None,
        routing: None,
        handoff_manifest: None,
        effective_response_profile: ContextResponseProfile::Balanced,
    }
}

fn finalized(
    diagnostics: CandidateDiagnostics,
    max_response_tokens: Option<usize>,
) -> Result<(ContextEvaluation, Option<Vec<String>>), Error> {
    let snapshot = RepositorySnapshot {
        repository_id: "repository".into(),
        generation: 7,
        freshness: Freshness::Current,
        working_tree: WorkingTreeObservation::Clean,
        working_tree_paths: Vec::new(),
        working_tree_paths_complete: true,
        working_tree_paths_limit: None,
        commit_revision: Some("abc".into()),
        branch: Some("main".into()),
    };
    let facts = ScopeFacts {
        focus_matches: Vec::new(),
        changed_indexed: Vec::new(),
        scope_indexed: Vec::new(),
    };
    let diff_facts = DiffFacts {
        hunks: Vec::new(),
        files: Vec::new(),
        indexed_paths: Vec::new(),
        base_blobs: None,
        head_blobs: None,
        revisions: Vec::new(),
    };
    let asked = ContextRequest { must_include_symbols: Vec::new(), ..request() };
    let finalization = ContextFinalization {
        request: &asked,
        scoped_request: &asked,
        policy: &policy(),
        options: ServiceCallOptions {
            max_response_tokens,
            context_response_profile: None,
            mcp_response_shape: false,
        },
        response_profile: ContextResponseProfile::Balanced,
        diagnostics,
        diff_evidence_mode: DiffEvidenceMode::WorkingTree,
        resolved_workflow: ContextWorkflow::Implementation,
        snapshot: &snapshot,
        facts: &facts,
        diff_facts: &diff_facts,
    };
    let batch = ContextGathering {
        candidates: vec![
            Candidate::new("src/parser.rs", 1, 2, "content").match_kind("symbol"),
            Candidate::new("src/cache.rs", 1, 2, ""),
            Candidate::new("src/cache.rs", 8, 9, "more").match_kind("text"),
        ],
        path_excluded: Vec::new(),
        coverage: no_coverage(),
        warnings: vec!["a focus path holds nothing".into()],
        workflow: ContextWorkflow::Implementation,
        workflow_receipt: None,
    };
    let evaluate = |asked: &Vec<ReceiptEvidence>| {
        Ok(ReceiptEvaluation {
            decisions: asked.iter().map(|_| ReceiptDecision::Return).collect(),
            source_tokens: asked.iter().map(|_| 4).collect(),
            receipt_id: None,
            suppressed_exact: 0,
            suppressed_overlap: 0,
            near_duplicates: 0,
        })
    };
    let measure = |response: &ContextResponse,
                   _: &ResponseMeta,
                   _: ReceiptResourceDecoration|
     -> Measurement {
        Ok(ResponseTokenAccounting {
            protocol_tokens: 1,
            path_and_metadata_tokens: 2,
            total_response_tokens: 10 * response.fragments.len(),
        })
    };
    let ticks = Cell::new(100u64);
    let clock = || {
        ticks.set(ticks.get() + 5);
        ticks.get()
    };
    Services::finalize_context_pipeline(
        selection(),
        &finalization,
        batch,
        None,
        ContextPhaseTracker::new(diagnostics, 7, 100),
        &evaluate,
        &|candidate: &Candidate| candidate.content.len(),
        &clock,
        &measure,
    )
}

#[test]
fn a_response_is_handed_over_with_what_was_generated() {
    let (whole, paths) = finalized(CandidateDiagnostics::Collect, None).expect("response");
    assert_eq!(paths, Some(vec!["src/cache.rs".to_owned(), "src/parser.rs".to_owned()]));
    assert_eq!(whole.generated_candidate_paths, ["src/cache.rs", "src/parser.rs"]);
    let told = whole
        .generated_candidates
        .iter()
        .map(|item| (item.path.as_str(), item.start_line, item.token_count))
        .collect::<Vec<_>>();
    assert_eq!(told, [("src/parser.rs", 1, 7), ("src/cache.rs", 1, 1), ("src/cache.rs", 8, 4)]);
    assert_eq!(whole.generated_candidates[2].match_kinds, ["text"]);
    assert_eq!(whole.phases.generated_candidates, 3);
    assert_eq!(whole.timings.ranking_finalize, 5);
    assert_eq!(whole.timings.total, 15);
    assert_eq!(whole.response.meta.total_response_tokens, 20);
    assert_eq!(whole.response.meta.repository_id, "repository");
    assert!(whole.response.warnings.iter().any(|said| said == "a focus path holds nothing"));
    assert!(whole.response.provenance.is_some());
}

#[test]
fn nothing_is_told_of_candidates_where_no_work_is_counted() {
    let (whole, _) = finalized(CandidateDiagnostics::Omit, Some(20)).expect("response");
    assert!(whole.generated_candidate_paths.is_empty());
    assert!(whole.generated_candidates.is_empty());
    assert_eq!(whole.timings.ranking_finalize, 0);
    assert_eq!(whole.phases.generated_candidates, 0);
    assert!(matches!(
        finalized(CandidateDiagnostics::Omit, Some(0)),
        Err(Error::ResponseBudgetExceeded { .. }) | Err(Error::ResponseAccountingInvariant(_))
    ));
}
