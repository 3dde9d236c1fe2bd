//! Scopes, scores, candidates and routing of context requests.

use leantoken::context::candidates::draft::{
    annotate_candidate, apply_query_fusion, corroborated_import_symbol, low_cardinality_exact_query,
    qualified_symbol_match, record_query_hit, Candidate, FusionHit, ImportSymbol, LineRange,
};
use leantoken::context::candidates::lexical::{
    analyze_chunks, analyze_lexical_match, ChunkHit, Gathered, LexicalSearch, QueryExpansion,
    ReferenceHit, StoredExcerpt, SymbolHit, LEXICAL_OCCURRENCE_SATURATION,
};
use leantoken::context::candidates::query::QueryPorts;
use leantoken::context::candidates::ranked::{context_ranked_hits, FoldedTerm, FullScan};
use leantoken::context::diagnostics::{
    AdaptiveExcerptRequest, CandidateDiagnostics, ContextPhaseTracker, FileLine,
    StoredExcerptRequest,
};
use leantoken::context::facets::{technical_atoms, ContextQuery, Vocabulary, VocabularyEntry};
use leantoken::context::path_score::{context_path_score, ContextPathScorer};
use leantoken::context::plan::plan;
use leantoken::context::scope_helpers::{
    build_context_routing, context_path_group, owner_test_changed_path, parse_revision_range,
    resolve_context_workflow, task_mentions_language, workflow_path_role,
};
use leantoken::context::validation::{ContextVerdicts, MAX_CONTEXT_QUERIES};
use leantoken::error::Error;
use leantoken::model::{ContextRequest, ContextWorkflow, DiffScopeReceipt};
use leantoken::services::Services;
use leantoken::validation::InputLimits;
use tokio_util::sync::CancellationToken;

fn parts_of(term: &str) -> Vec<String> {
    let mut parts: Vec<String> = Vec::new();
    let mut current = String::new();
    let mut previous_lower = false;
    for c in term.chars() {
        if !c.is_alphanumeric() {
            if !current.is_empty() {
                parts.push(current.clone());
                current.clear();
            }
            previous_lower = false;
            continue;
        }
        if c.is_uppercase() && previous_lower {
            parts.push(current.clone());
            current.clear();
        }
        previous_lower = c.is_lowercase() || c.is_numeric();
        current.push(c);
    }
    if !current.is_empty() {
        parts.push(current);
    }
    parts
}

fn vocabulary(text: &str) -> Vocabulary {
    let mut known: Vec<String> = technical_atoms(text);
    for word in text.split_whitespace() {
        known.push(word.to_owned());
        known.push(word.trim_matches(|c: char| !c.is_alphanumeric() && c != '_').to_owned());
    }
    let mut members: Vec<String> = Vec::new();
    for term in &known {
        for part in term.split(['.', ':', '/', '-', '_', '(', ')']) {
            members.push(part.to_owned());
        }
    }
    known.extend(members);
    let mut entries: Vec<VocabularyEntry> = Vec::new();
    for term in known {
        if !term.is_empty() && !entries.iter().any(|entry| entry.term == term) {
            let words = parts_of(&term);
            let terms = if words.len() > 1 { words.clone() } else { vec![term.clone()] };
            entries.push(VocabularyEntry {
                term,
                terms: terms.clone(),
                words,
                identifier: terms,
            });
        }
    }
    Vocabulary { entries }
}

fn context_queries(task: &str, limit: usize) -> Vec<ContextQuery> {
    plan(task, limit, &vocabulary(task)).queries
}

fn request(task: &str, token_budget: usize) -> ContextRequest {
    ContextRequest {
        task: task.into(),
        token_budget,
        max_fragments: None,
        minimum_fragments_per_focus_path: None,
        strict_focus_paths: false,
        strict_changed_paths: false,
        plan_only: false,
        explain_diagnostics: false,
        receipt_id: None,
        include_paths: Vec::new(),
        must_include_paths: Vec::new(),
        focus_paths: Vec::new(),
        exclude_paths: Vec::new(),
        focus_symbols: Vec::new(),
        must_include_symbols: Vec::new(),
        required_evidence: Vec::new(),
        known_hashes: Vec::new(),
        changed_paths: Vec::new(),
        base_revision: None,
        prior_repository_generation: None,
    }
}

fn score(path: &str, task: &str) -> u64 {
    context_path_score(path, &Vec::new(), task, &vocabulary(task))
}

#[test]
fn lexical_match_facts_share_first_match_and_saturate_frequency_count() {
    let content = (0..100)
        .map(|index| format!("needle_{index}"))
        .collect::<Vec<_>>()
        .join("\n");
    let hit = ChunkHit {
        path: "src/lib.rs".into(),
        generation: 1,
        file_id: 1,
        content,
        start_line: 10,
        score: 0,
    };

    let facts = analyze_lexical_match(&hit, "needle", 2).expect("search").expect("match facts");

    assert_eq!(facts.matched_line, 10);
    assert_eq!(facts.excerpt.start_line, 10);
    assert_eq!(facts.occurrences, LEXICAL_OCCURRENCE_SATURATION);
}

#[test]
fn revision_ranges_require_two_explicit_endpoints() {
    assert_eq!(
        parse_revision_range("main~1..main").expect("valid range"),
        Some(("main~1".to_owned(), "main".to_owned()))
    );
    assert_eq!(
        parse_revision_range("origin/main").expect("single revision"),
        None
    );
    for invalid in ["..main", "main..", "main...head"] {
        assert!(parse_revision_range(invalid).is_err(), "{invalid}");
    }
}

#[test]
fn workflow_auto_detection_requires_high_confidence_language() {
    assert_eq!(
        resolve_context_workflow(ContextWorkflow::Auto, "prepare this pull request"),
        ContextWorkflow::Contribution
    );
    assert_eq!(
        resolve_context_workflow(ContextWorkflow::Auto, "review this parser change"),
        ContextWorkflow::Review
    );
    assert_eq!(
        resolve_context_workflow(ContextWorkflow::Auto, "implement parser review comments"),
        ContextWorkflow::Implementation
    );
}

#[test]
fn language_scope_does_not_treat_lowercase_go_as_golang() {
    assert!(!task_mentions_language("go fix the parser", "go"));
    assert!(task_mentions_language("fix the Go parser", "go"));
    assert!(task_mentions_language("fix the golang parser", "go"));
    assert!(task_mentions_language("fix TypeScript parsing", "typescript"));
}

#[test]
fn language_scope_boosts_common_source_file_extensions() {
    assert_eq!(score("src/main.rs", "Fix this Rust bug"), 12);
    assert_eq!(score("lib/parser.py", "Fix this Python parser"), 12);
    assert_eq!(score("src/main.rs", "Fix this Python parser"), 0);
}

#[test]
fn mcp_repository_questions_prioritize_mcp_implementation_paths() {
    for (task, preferred, distractor) in [
        (
            "Where is MCP tool registration and catalog schema defined?",
            "src/mcp/tools.rs",
            "src/watcher/tests/support.rs",
        ),
        (
            "Which repository file defines the MCP server catalog and tool schemas?",
            "src/mcp.rs",
            "benchmarks/reports/mcp-profile.md",
        ),
        (
            "Which test suite verifies the MCP server catalog and tool schemas?",
            "crates/test-suite/src/domains/protocol.rs",
            "tests/services/search.rs",
        ),
    ] {
        assert!(
            score(preferred, task) > score(distractor, task),
            "routing regression for {task:?}"
        );
    }
}

#[test]
fn owner_test_matching_requires_filename_token_boundaries() {
    let mut request = request("fix core", 100);
    request.changed_paths = vec!["src/core.rs".into()];

    assert_eq!(
        owner_test_changed_path("tests/core_tests.rs", &request),
        Some("src/core.rs".into())
    );
    assert_eq!(
        owner_test_changed_path("tests/hardcore_tests.rs", &request),
        None
    );
    assert_eq!(
        owner_test_changed_path("tests/core/unrelated_tests.rs", &request),
        None
    );
    request.changed_paths = vec!["src/my_core.rs".into()];
    assert_eq!(
        owner_test_changed_path("tests/my_core_spec.rs", &request),
        Some("src/my_core.rs".into())
    );
}

#[test]
fn oversized_diff_routing_is_bounded_deterministic_and_preserves_retry_inputs() {
    assert_eq!(context_path_group("README.md"), "<root>");
    let mut request = request("review the changed implementation", 4_000);
    request.known_hashes = vec!["held".into()];
    request.base_revision = Some("origin/main".into());
    let changed_paths = (0..12)
        .flat_map(|index| {
            [
                format!("src/browser/file_{index}.rs"),
                format!("src/runtime/file_{index}.rs"),
                format!("tests/scenario_{index}.rs"),
            ]
        })
        .collect::<Vec<_>>();
    let scope = DiffScopeReceipt {
        base_revision: Some("base".into()),
        head_revision: Some("head".into()),
        changed_paths,
        changed_paths_complete: true,
        changed_paths_limit: None,
        indexed_changed_paths: 36,
        evidence: None,
    };
    let selected_paths = vec![
        "src/browser/file_0.rs".to_owned(),
        "src/runtime/file_0.rs".to_owned(),
    ];

    let routing =
        build_context_routing(&request, &scope, 24, &selected_paths).expect("oversized routing");

    assert_eq!(routing.changed_paths, 36);
    assert_eq!(routing.path_groups_total, 3);
    assert!(routing.weakly_concentrated);
    assert_eq!(
        routing
            .path_groups
            .iter()
            .map(|group| group.prefix.as_str())
            .collect::<Vec<_>>(),
        vec!["src/browser", "src/runtime", "tests"]
    );
    assert_eq!(routing.suggestions.len(), 3);
    assert_eq!(routing.suggestions[0].include_paths, vec!["src/browser/**"]);
    assert_eq!(routing.base_revision.as_deref(), Some("origin/main"));
    assert_eq!(routing.known_hashes, vec!["held"]);
}

#[test]
fn candidate_diagnostics_retain_facet_and_ranked_channel_provenance() {
    let query = context_queries("Fix Rack::Deflater behavior", 12)
        .into_iter()
        .find(|query| query.value == "Rack::Deflater")
        .expect("exact technical query");
    let candidate = annotate_candidate(
        Candidate::new("src/lib.rs", 1, 1, "target").match_kind("symbol"),
        &query,
        "symbol",
        2,
    );

    assert!(candidate
        .facets
        .iter()
        .any(|mark| mark.name == "exact_atom" && mark.key == "rack::deflater"));
    assert!(candidate
        .channels
        .iter()
        .any(|mark| mark.name == "symbol" && mark.rank == 2));
    assert_eq!(candidate.match_kinds, vec!["symbol"]);
}

#[test]
fn low_cardinality_exact_query_disables_neighbor_expansion() {
    let exact = context_queries("Fix Rack::Deflater", 12);
    let multi = context_queries("Fix Rack::Deflater and Compression::Writer", 12);

    assert!(low_cardinality_exact_query(&exact));
    assert!(!low_cardinality_exact_query(&multi));
}

#[test]
fn import_symbol_requires_the_same_seed_and_target_concept() {
    let task = "Fix Rack::Deflater and Compression::Writer";
    let known = vocabulary("Fix Rack::Deflater and Compression::Writer class rack deflater");
    let queries = context_queries(task, 12);
    let deflater_query = queries
        .iter()
        .find(|query| query.fusion_key == "rack::deflater")
        .expect("deflater query");
    let symbols = vec![ImportSymbol {
        name: "Deflater".into(),
        parent: Some("Rack".into()),
        signature: Some("class Rack::Deflater".into()),
        start_line: 10,
        end_line: 20,
    }];

    assert!(corroborated_import_symbol(&symbols, &queries, &Vec::new(), &known).is_none());
    let matched = corroborated_import_symbol(
        &symbols,
        &queries,
        &vec![deflater_query.fusion_key.clone()],
        &known,
    )
    .expect("same-concept import symbol");
    assert_eq!(symbols[matched.symbol].name, "Deflater");
    assert_eq!(queries[matched.query].fusion_key, "rack::deflater");
    assert!(matched.evidence > 0);
}

#[test]
fn qualified_symbol_match_requires_all_owner_and_name_parts() {
    let known = vocabulary(
        "render.AsciiJSON Render func (r AsciiJSON) Render() error type AsciiJSON Flask.run run Flask def run()",
    );
    assert!(qualified_symbol_match(
        "render.AsciiJSON",
        "Render",
        &None,
        &Some("func (r AsciiJSON) Render() error".into()),
        &known,
    ));
    assert!(!qualified_symbol_match(
        "render.AsciiJSON",
        "AsciiJSON",
        &None,
        &Some("type AsciiJSON".into()),
        &known,
    ));
    assert!(qualified_symbol_match(
        "Flask.run",
        "run",
        &Some("Flask".into()),
        &Some("def run()".into()),
        &known,
    ));
}

#[test]
fn qualified_path_evidence_excludes_dynamic_lowercase_receivers() {
    assert_eq!(score("test/app.render.js", "Fix app.render for a trailing dot"), 0);
    assert!(score("render/json.go", "Fix render.AsciiJSON escaping") > 0);
    assert!(score("tokio/src/fs/file.rs", "Fix tokio::fs::File poll_write") > 0);
}

#[test]
fn fusion_requires_two_independent_query_concepts() {
    let mut fusion: Vec<FusionHit> = Vec::new();
    record_query_hit(&mut fusion, "one.rs", "globset::matches_all", 100, 0);
    record_query_hit(&mut fusion, "one.rs", "globset::matches_all", 95, 1);
    record_query_hit(&mut fusion, "two.rs", "content-length", 100, 0);
    record_query_hit(&mut fusion, "two.rs", "transfer-encoding", 100, 1);
    let candidates = vec![
        Candidate::new("one.rs", 1, 1, "one"),
        Candidate::new("two.rs", 1, 1, "two"),
    ];

    let candidates = apply_query_fusion(candidates, &fusion);

    assert!(candidates[0].fused.is_empty());
    assert!(!candidates[0].match_kinds.iter().any(|kind| kind == "multi-query"));
    assert_eq!(candidates[1].fused.len(), 2);
    assert!(candidates[1].match_kinds.iter().any(|kind| kind == "multi-query"));
}

#[test]
fn workflow_files_are_known_by_their_paths_in_any_case() {
    let request = request("prepare a release", 1_000);
    assert!(workflow_path_role("docs/agents.MD", &request).is_some());
    assert_eq!(workflow_path_role("cargo.toml", &request), Some((300, "validation")));
    assert_eq!(workflow_path_role("go.mod", &request), Some((300, "validation")));
    assert_eq!(
        workflow_path_role(".github\\workflows\\ci.yml", &request),
        Some((300, "validation"))
    );
    assert_eq!(workflow_path_role("sub/cargo.toml", &request), None);
    assert_eq!(workflow_path_role("src/main.rs", &request), None);
}

#[test]
fn terms_are_taken_literally_and_in_any_case() {
    let hit = ChunkHit {
        path: "src/lib.rs".into(),
        generation: 1,
        file_id: 1,
        content: "let a = b.c;\nlet x = B.C + bxc;".into(),
        start_line: 10,
        score: 0,
    };
    let facts = analyze_lexical_match(&hit, "b.c", 0).expect("search").expect("match facts");
    assert_eq!(facts.occurrences, 2);
    assert_eq!(facts.matched_line, 10);
    assert!(analyze_lexical_match(&hit, "b+c", 0).expect("search").is_none());
    let facts = analyze_chunks(&vec![hit], "X =").expect("search");
    assert_eq!(facts[0].as_ref().expect("match facts").matched_line, 11);
}

fn chunk_at(path: &str) -> ChunkHit {
    ChunkHit {
        path: path.into(),
        generation: 1,
        file_id: 1,
        content: "text".into(),
        start_line: 1,
        score: 0,
    }
}

fn in_source(path: &str) -> bool {
    path.starts_with("src/")
}

fn as_warning(warnings: &Vec<String>, error: Error) -> Result<Vec<String>, Error> {
    match error {
        Error::LimitExceeded => {
            let mut warnings = warnings.clone();
            warnings.push("scan limited".into());
            Ok(warnings)
        }
        error => Err(error),
    }
}

#[test]
fn ranked_hits_stay_in_scope_and_note_what_they_pass_over() {
    let all = ["docs/a.md", "src/a.rs", "docs/b.md", "src/b.rs", "docs/c.md", "src/c.rs"];
    for at_once in [false, true] {
        let mut warnings: Vec<String> = Vec::new();
        let mut excluded: Vec<String> = Vec::new();
        let hits = context_ranked_hits(
            at_once,
            2,
            &|offset: usize, limit: usize| {
                Ok(all.iter().skip(offset).take(limit).map(|path| chunk_at(path)).collect())
            },
            &in_source,
            &as_warning,
            &CancellationToken::new(),
            &mut warnings,
            &mut excluded,
        )
        .expect("hits");
        let paths = hits.iter().map(|hit| hit.path.as_str()).collect::<Vec<_>>();
        assert_eq!(paths, ["src/a.rs", "src/b.rs"]);
        assert_eq!(excluded, ["docs/a.md", "docs/b.md"]);
        assert!(warnings.is_empty());
    }
    let mut warnings: Vec<String> = Vec::new();
    let mut excluded: Vec<String> = Vec::new();
    let hits = context_ranked_hits(
        true,
        2,
        &|_: usize, _: usize| Err::<Vec<ChunkHit>, Error>(Error::LimitExceeded),
        &in_source,
        &as_warning,
        &CancellationToken::new(),
        &mut warnings,
        &mut excluded,
    )
    .expect("a limit is told as a warning");
    assert!(hits.is_empty() && excluded.is_empty());
    assert_eq!(warnings, ["scan limited"]);
    let refused = context_ranked_hits(
        true,
        2,
        &|_: usize, _: usize| Err::<Vec<ChunkHit>, Error>(Error::StaleCursor),
        &in_source,
        &as_warning,
        &CancellationToken::new(),
        &mut warnings,
        &mut excluded,
    );
    assert!(matches!(refused, Err(Error::StaleCursor)));
}

fn searched(term: &str, folded: Option<FoldedTerm>) -> (String, LexicalSearch, Vec<String>) {
    let mut warnings: Vec<String> = Vec::new();
    let mut excluded: Vec<String> = Vec::new();
    let (hits, kind) = Services::context_lexical_hits(
        term,
        "quoted",
        &folded,
        &|_: LexicalSearch, query: &str, offset: usize, _: usize| {
            let mut hits: Vec<ChunkHit> = Vec::new();
            if offset == 0 {
                hits.push(chunk_at(&["src/", query].concat()));
            }
            Ok(hits)
        },
        &|| {
            Ok(FullScan {
                hits: vec![chunk_at("src/scan")],
                limitation: Some(Error::LimitExceeded),
            })
        },
        &in_source,
        &as_warning,
        &CancellationToken::new(),
        &mut warnings,
        &mut excluded,
    )
    .expect("hits");
    assert_eq!(hits.len(), 1);
    (hits[0].path.clone(), kind, warnings)
}

#[test]
fn text_is_searched_as_the_term_calls_for() {
    let folded = |expanded: bool| Some(FoldedTerm { expanded, expression: "any".into() });
    let (path, kind, warnings) = searched("ab", folded(false));
    assert_eq!((path.as_str(), kind), ("src/quoted", LexicalSearch::Word));
    assert!(warnings.is_empty());
    let (path, kind, _) = searched("ab", folded(true));
    assert_eq!((path.as_str(), kind), ("src/any", LexicalSearch::FoldedWord));
    let (path, kind, _) = searched("abc", folded(false));
    assert_eq!((path.as_str(), kind), ("src/abc", LexicalSearch::Trigram));
    let (path, kind, _) = searched("abc", folded(true));
    assert_eq!((path.as_str(), kind), ("src/any", LexicalSearch::FoldedTrigram));
    let (path, kind, warnings) = searched("abc", None);
    assert_eq!((path.as_str(), kind), ("src/scan", LexicalSearch::FullScan));
    assert_eq!(warnings, ["scan limited"]);
}

fn symbol_at(path: &str) -> SymbolHit {
    SymbolHit {
        path: path.into(),
        generation: 1,
        file_id: 1,
        name: "needle".into(),
        parent: None,
        signature: None,
        start_line: 1,
        end_line: 2,
        exact: true,
    }
}

fn reference_at(path: &str) -> ReferenceHit {
    ReferenceHit {
        path: path.into(),
        generation: 1,
        file_id: 1,
        name: "needle".into(),
        start_line: 3,
        end_line: 3,
    }
}

fn excerpt(content: &str) -> StoredExcerpt {
    StoredExcerpt { content: content.into(), start_line: 1, end_line: 2 }
}

fn paged<T>(offset: usize, paths: &[&str], hit: fn(&str) -> T) -> Result<Vec<T>, Error> {
    Ok(if offset == 0 { paths.iter().map(|path| hit(path)).collect() } else { Vec::new() })
}

fn needle_at(path: &str) -> ChunkHit {
    ChunkHit { content: "a needle".into(), ..chunk_at(path) }
}

fn appended(caller: bool, strict: Option<Vec<String>>) -> (Gathered, Result<(), Error>) {
    let request = request("find the needle", 400);
    let vocabulary = vocabulary("find the needle");
    let queries = context_queries("needle", 1);
    let scorer = ContextPathScorer::new(&Vec::new(), "find the needle", &vocabulary);
    let changed: Vec<String> = Vec::new();
    let expansion = QueryExpansion {
        request: &request,
        query: &queries[0],
        changed_paths: &changed,
        path_scorer: &scorer,
        vocabulary: &vocabulary,
        caller,
    };
    let paths = ["docs/a.md", "src/a.rs", "src/b.rs"];
    let ports = QueryPorts {
        compile: |term: &str| {
            if term == "needle" { Ok(()) } else { Err(Error::LimitExceeded) }
        },
        symbols: |offset: usize, _: usize| paged(offset, &paths, symbol_at),
        references: |offset: usize, _: usize| paged(offset, &paths, reference_at),
        search: |_: LexicalSearch, _: &str, offset: usize, _: usize| {
            paged(offset, &paths, needle_at)
        },
        scan: || Ok(FullScan { hits: Vec::new(), limitation: None }),
        allows: in_source,
        record: as_warning,
        enclosing: |places: &Vec<FileLine>| {
            Ok(places.iter().map(|_| None).collect::<Vec<Option<LineRange>>>())
        },
        adaptive: |requests: &Vec<AdaptiveExcerptRequest>| {
            Ok(requests.iter().map(|_| Some(excerpt("declared"))).collect::<Vec<_>>())
        },
        stored: |requests: &Vec<StoredExcerptRequest>| {
            Ok(requests.iter().map(|_| Some(excerpt("stored"))).collect::<Vec<_>>())
        },
        fit: |given: &StoredExcerpt, line: usize, _: usize, _: usize| {
            Some(StoredExcerpt {
                content: format!("{} round {line}", given.content),
                start_line: line,
                end_line: line,
            })
        },
    };
    let mut gathered =
        Gathered { candidates: Vec::new(), fusion: Vec::new(), path_excluded: Vec::new() };
    let mut warnings: Vec<String> = Vec::new();
    let mut phases = ContextPhaseTracker::new(CandidateDiagnostics::Collect, 1, 0);
    let folded = Some(FoldedTerm { expanded: false, expression: String::new() });
    let done = Services::append_query_candidates(
        &expansion,
        &strict,
        "needle",
        &folded,
        &ports,
        &mut gathered,
        &mut warnings,
        &mut phases,
        &CancellationToken::new(),
    );
    (gathered, done)
}

fn kinds(gathered: &Gathered) -> Vec<(String, String, String)> {
    let shown = |candidate: &Candidate| {
        (candidate.path.clone(), candidate.match_kinds.join(","), candidate.content.clone())
    };
    gathered.candidates.iter().map(shown).collect()
}

#[test]
fn a_query_brings_candidates_in_scope() {
    let triple = |a: &str, b: &str, c: &str| (a.to_string(), b.to_string(), c.to_string());
    let (gathered, done) = appended(true, None);
    assert!(done.is_ok());
    assert_eq!(
        kinds(&gathered),
        [
            triple("src/a.rs", "symbol", "declared"),
            triple("src/b.rs", "symbol", "declared"),
            triple("src/a.rs", "reference", "stored round 3"),
            triple("src/b.rs", "reference", "stored round 3"),
            triple("src/a.rs", "text", "a needle round 1"),
            triple("src/b.rs", "text", "a needle round 1"),
        ]
    );
    assert_eq!(gathered.path_excluded, ["docs/a.md", "docs/a.md", "docs/a.md"]);
    let (gathered, done) = appended(false, Some(vec!["src/b.rs".into(), "docs/a.md".into()]));
    assert!(done.is_ok());
    assert_eq!(
        kinds(&gathered),
        [
            triple("src/b.rs", "symbol", "declared"),
            triple("src/b.rs", "text", "a needle round 1"),
        ]
    );
}

fn no_verdicts() -> ContextVerdicts {
    ContextVerdicts {
        token_budget: Ok(()),
        max_fragments: Ok(()),
        minimum_fragments: Ok(()),
        include_patterns: Ok(()),
        must_include_patterns: Ok(()),
        focus_patterns: Ok(()),
        exclude_patterns: Ok(()),
        evidence_patterns: None,
        changed_paths: None,
    }
}

#[test]
fn every_query_that_is_searched_for_has_to_compile() {
    let task = "Cover parser errors with a regression test";
    let limits = InputLimits {
        max_path_bytes: 4_096,
        max_pattern_bytes: 4_096,
        max_query_bytes: 4_096,
        max_input_items: 64,
    };
    let searched = context_queries(task, MAX_CONTEXT_QUERIES)
        .into_iter()
        .filter(|query| !query.is_generic_test_path_prior())
        .map(|query| query.value)
        .collect::<Vec<_>>();
    assert!(!searched.iter().any(|value| value == "test"));
    let whole = plan(task, MAX_CONTEXT_QUERIES, &vocabulary(task));
    assert!(whole.queries.iter().any(|query| query.is_generic_test_path_prior()));
    let validate = |compile: &dyn Fn(&str) -> Result<(), Error>| {
        Services::validate_context_request(
            &request(task, 400),
            None,
            no_verdicts(),
            limits,
            &vocabulary(task),
            &|term: &str| compile(term),
        )
    };
    assert!(validate(&|term: &str| {
        assert_ne!(term, "test");
        Ok(())
    })
    .is_ok());
    for value in &searched {
        let refuses = |term: &str| {
            if term == value { Err(Error::LimitExceeded) } else { Ok(()) }
        };
        assert!(matches!(validate(&refuses), Err(Error::LimitExceeded)));
    }
}
