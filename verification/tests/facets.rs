//! Queries of tasks.

use leantoken::context::facets::{
    classify_atom, phrase_variants, primary_task_text, push_facet, quoted_phrases, technical_atoms,
    technical_variants, FacetKind, TaskFacet, Vocabulary, VocabularyEntry, MAX_FACET_VARIANTS,
};
use leantoken::context::plan::{plan, plan_with_workflow_evidence};
use leantoken::model::WorkflowEvidence;

fn parts_of(term: &str) -> Vec<String> {
    let mut parts: Vec<String> = Vec::new();
    let mut current = String::new();
    let mut previous_lower = false;
    for c in term.chars() {
        if !c.is_alphanumeric() {
            if !current.is_empty() {
                parts.push(current.clone());
                current.clear();
            }
            previous_lower = false;
            continue;
        }
        if c.is_uppercase() && previous_lower {
            parts.push(current.clone());
            current.clear();
        }
        previous_lower = c.is_lowercase() || c.is_numeric();
        current.push(c);
    }
    if !current.is_empty() {
        parts.push(current);
    }
    parts
}

fn entry(term: &str) -> VocabularyEntry {
    let words = parts_of(term);
    let terms = if words.len() > 1 { words.clone() } else { vec![term.to_owned()] };
    VocabularyEntry {
        term: term.to_owned(),
        terms: terms.clone(),
        words,
        identifier: terms,
    }
}

fn vocabulary(task: &str) -> Vocabulary {
    let mut known: Vec<String> = technical_atoms(task);
    for word in task.split_whitespace() {
        known.push(word.to_owned());
        known.push(word.trim_matches(|c: char| !c.is_alphanumeric() && c != '_').to_owned());
    }
    let mut members: Vec<String> = Vec::new();
    for term in &known {
        for part in term.split(['.', ':', '/', '-', '_']) {
            members.push(part.to_owned());
        }
    }
    known.extend(members);
    let mut entries: Vec<VocabularyEntry> = Vec::new();
    for term in known {
        if !term.is_empty() && !entries.iter().any(|entry| entry.term == term) {
            entries.push(entry(&term));
        }
    }
    Vocabulary { entries }
}

fn values(task: &str, limit: usize) -> Vec<String> {
    plan(task, limit, &vocabulary(task)).queries.into_iter().map(|query| query.value).collect()
}

fn facet(kind: FacetKind, original: &str, variants: Vec<String>) -> TaskFacet {
    let mut facets = Vec::new();
    push_facet(&mut facets, kind, original, variants, 100);
    facets.pop().expect("non-empty facet")
}

#[test]
fn extracts_required_technical_atoms_without_stripping_exact_forms() {
    let task = "Fix Rack::Deflater, _.cloneDeep, res.send, #[serde(untagged)], \
        _pytest.monkeypatch.notset, renameTable, WithRequiredStructEnabled, \
        src/services/context.rs, snake_case, kebab-case, camelCase, PascalCase, \
        ERR_INVALID_CONFIG, and Result<Option<T>,Error>.";
    let atoms = technical_atoms(task);
    for expected in [
        "Rack::Deflater",
        "_.cloneDeep",
        "res.send",
        "#[serde(untagged)]",
        "_pytest.monkeypatch.notset",
        "renameTable",
        "WithRequiredStructEnabled",
        "src/services/context.rs",
        "snake_case",
        "kebab-case",
        "camelCase",
        "PascalCase",
        "ERR_INVALID_CONFIG",
        "Result<Option<T>,Error>",
    ] {
        assert!(
            atoms.iter().any(|atom| atom == expected),
            "missing {expected}: {atoms:?}"
        );
    }
}

#[test]
fn exact_atom_is_the_first_variant_even_when_not_scheduled_as_a_query() {
    for atom in ["CONFIG", "#[serde(untagged)]"] {
        let facet = facet(FacetKind::ExactAtom, atom, vec![atom.to_owned()]);
        assert_eq!(facet.variants.first(), Some(&facet.original));
    }
}

#[test]
fn punctuation_adjacent_calls_and_generic_signatures_keep_atom_boundaries() {
    let atoms =
        technical_atoms("Fix (res.send(payload)), `Rack::Deflater`, and Result<Option<T>,Error>.");

    assert!(atoms.iter().any(|atom| atom == "res.send"));
    assert!(atoms.iter().any(|atom| atom == "Rack::Deflater"));
    assert!(atoms.iter().any(|atom| atom == "Result<Option<T>,Error>"));
}

#[test]
fn quoted_error_text_and_annotations_create_bounded_queries() {
    let task = "Handle @retry and report \"Failed to lookup view\" without changing behavior.";
    let known = vocabulary(task);
    let plan = plan(task, 12, &known);
    let annotation = technical_atoms(task)
        .into_iter()
        .find(|atom| atom == "@retry")
        .expect("configuration annotation");
    assert_eq!(classify_atom(&annotation), FacetKind::Configuration);
    let phrase = quoted_phrases(task)
        .into_iter()
        .find(|phrase| phrase == "Failed to lookup view")
        .expect("quoted behavior");
    let annotation = facet(
        FacetKind::Configuration,
        &annotation,
        technical_variants(&annotation, &known),
    );
    let phrase = facet(FacetKind::Behavior, &phrase, phrase_variants(&phrase));
    assert!(plan.queries.len() <= 12);
    assert!(annotation.variants.len() <= MAX_FACET_VARIANTS);
    assert!(phrase.variants.len() <= MAX_FACET_VARIANTS);
}

#[test]
fn expansion_is_deterministic_and_strictly_bounded() {
    let task = "Fix Rack::Deflater and WithRequiredStructEnabled with regression coverage";
    let first = values(task, 8);
    let second = values(task, 8);
    assert_eq!(first, second);
    assert!(first.len() <= 8);
    assert!(first.len() > 3, "{first:?}");
    assert_eq!(first.last().map(|value| value.as_str()), Some("test"));
}

#[test]
fn technical_tasks_keep_exact_and_bounded_natural_query_lanes() {
    let task = "Trace render.AsciiJSON while snapshot consistency protects concurrent readers";
    let plan = plan(task, 8, &vocabulary(task));

    assert!(plan
        .queries
        .iter()
        .any(|query| query.value == "render.AsciiJSON" && query.exact_variant));
    assert!(plan.queries.iter().any(|query| {
        query.value == "snapshot consistency" || query.value == "concurrent readers"
    }));
}

#[test]
fn natural_language_terms_are_selected_across_the_complete_task() {
    let queries = values(
        "Ensure ordinary behavior before bounded candidate generation and deterministic selection",
        12,
    );

    assert!(queries.iter().any(|value| value == "candidate generation"));
    assert!(queries.iter().any(|value| value == "deterministic selection"));
    assert!(queries.len() <= 12);
}

#[test]
fn qualified_atoms_keep_exact_owner_and_bounded_symbol_expansions() {
    let task =
        "Fix render.AsciiJSON for non-BMP JSON with UTF-16 while preserving BMP and ASCII behavior";
    let known = vocabulary(task);
    let plan = plan(task, 10, &known);
    let facet = facet(
        FacetKind::Symbol,
        "render.AsciiJSON",
        technical_variants("render.AsciiJSON", &known),
    );

    assert_eq!(
        facet.variants.first().map(String::as_str),
        Some("render.AsciiJSON")
    );
    assert!(facet.variants.len() <= MAX_FACET_VARIANTS);
    assert!(plan.queries.iter().any(|query| {
        query.value == "render.AsciiJSON"
            && query.exact_variant
            && query.has_facet(FacetKind::ExactAtom)
    }));
}

#[test]
fn kebab_case_error_atoms_retain_a_bounded_phrase_variant() {
    let task = "Report the failed-to-lookup-view error through the callback";
    let known = vocabulary(task);
    let plan = plan(task, 8, &known);
    let facet = facet(
        FacetKind::Symbol,
        "failed-to-lookup-view",
        technical_variants("failed-to-lookup-view", &known),
    );

    assert!(facet.variants.iter().any(|value| value == "failed to lookup view"));
    assert!(facet.variants.len() <= MAX_FACET_VARIANTS);
    assert!(plan.queries.len() <= 8);
}

#[test]
fn workflow_evidence_reserves_deterministic_typed_query_lanes() {
    let evidence = WorkflowEvidence {
        failure_traces: vec!["error: default_values_if is missing".to_owned()],
        symbols: vec!["default_values_if".to_owned()],
        paths: vec!["tests/builder/default_vals.rs".to_owned()],
        test_intents: vec!["default values regression".to_owned()],
    };
    let known = vocabulary(
        "cargo test failed error: default_values_if is missing tests/builder/default_vals.rs \
         default values regression",
    );

    let first = plan_with_workflow_evidence("cargo test failed", &evidence, 12, &known);
    let second = plan_with_workflow_evidence("cargo test failed", &evidence, 12, &known);

    assert_eq!(format!("{:?}", first.queries), format!("{:?}", second.queries));
    assert!(first.queries.len() <= 12);
    for kind in [
        FacetKind::FailureTrace,
        FacetKind::Symbol,
        FacetKind::Path,
        FacetKind::TestIntent,
    ] {
        assert!(
            first.queries.iter().any(|query| query.has_facet(kind)),
            "missing {kind:?}: {:?}",
            first.queries
        );
    }
    assert_eq!(
        first.queries.first().map(|query| query.value.as_str()),
        Some("default_values_if")
    );
}

#[test]
fn empty_workflow_evidence_preserves_the_existing_plan() {
    let task = "fix Parser::parse for src/parser.rs";
    let known = vocabulary(task);
    let shown = |queries: &Vec<leantoken::context::facets::ContextQuery>| format!("{queries:?}");

    assert_eq!(
        shown(&plan(task, 12, &known).queries),
        shown(
            &plan_with_workflow_evidence(task, &WorkflowEvidence::default(), 12, &known).queries
        )
    );
}

#[test]
fn task_roles_separate_primary_preserve_and_test_queries() {
    let task = "Fix direct context initialization instead of index_not_ready. Preserve MCP startup \
         and snapshot consistency. Add a regression test.";
    let facet_plan = plan(task, 16, &vocabulary(task));

    assert!(facet_plan.queries.iter().any(|query| {
        query.has_facet(FacetKind::PrimaryChange)
            && (query.value == "context" || query.value == "initialization")
    }));
    assert!(facet_plan.queries.iter().any(|query| {
        query.has_facet(FacetKind::FailureTrace) && query.value.contains("index_not_ready")
    }));
    assert!(facet_plan
        .queries
        .iter()
        .any(|query| query.has_facet(FacetKind::PreserveConstraint)));
    assert!(facet_plan.queries.iter().any(|query| query.has_facet(FacetKind::TestIntent)));
    assert_eq!(
        primary_task_text("Which test suite verifies the MCP tool schemas?"),
        "Which test suite verifies the MCP tool schemas?"
    );
    let direct = "Test direct context initialization";
    assert!(plan(direct, 8, &vocabulary(direct))
        .queries
        .iter()
        .any(|query| query.has_facet(FacetKind::TestIntent)));

    let compact = "Add SearchCompactResponse compact output while preserving full ranking and regression tests";
    let mixed = plan(compact, 16, &vocabulary(compact));
    let exact = mixed
        .queries
        .iter()
        .find(|query| query.value == "SearchCompactResponse")
        .expect("exact implementation query");
    assert!(exact.has_facet(FacetKind::PrimaryChange));
    assert!(!exact.has_facet(FacetKind::TestIntent));
    assert!(mixed.queries.iter().any(|query| {
        query.has_facet(FacetKind::PreserveConstraint) && !query.has_facet(FacetKind::TestIntent)
    }));
    let primary_phrase = ["search", "projection"].join(" ");
    let natural_task = format!(
        "Add a source-free compact {primary_phrase} to CLI and MCP while preserving full ranking"
    );
    let natural = plan(&natural_task, 16, &vocabulary(&natural_task));
    assert!(natural.queries.iter().any(|query| {
        query.value == primary_phrase && query.has_facet(FacetKind::PrimaryChange)
    }));
    assert_eq!(
        primary_task_text("Add SearchCompactResponse compact output while preserving full ranking"),
        "Add SearchCompactResponse compact output"
    );
}

#[test]
fn context_queries_keep_identifiers_and_late_test_signals() {
    let terms = values(
        "copy_current_request_context reuses one copied request context so calling the decorated function concurrently can corrupt state; add a regression test",
        12,
    );

    assert!(terms.iter().any(|term| term == "copy_current_request_context"));
    assert!(terms.iter().any(|term| term == "test"));
    assert!(!terms.iter().any(|term| term == "one"));
}

#[test]
fn context_queries_preserve_dotted_and_header_tokens() {
    let terms = values(
        "Fix res.send adding Content-Length when Transfer-Encoding is present and add coverage",
        12,
    );

    assert!(terms.iter().any(|term| term == "res.send"));
    assert!(terms.iter().any(|term| term == "Content-Length"));
    assert!(terms.iter().any(|term| term == "Transfer-Encoding"));
    assert_eq!(terms.last().map(|term| term.as_str()), Some("test"));
}

#[test]
fn context_queries_keep_early_domain_nouns_over_later_long_words() {
    let terms = values(
        "Fix app.render and res.render for a view name ending in a dot. The callback must report the normal lookup error.",
        12,
    );

    assert!(terms.iter().any(|term| term == "view"));
    assert!(terms.iter().any(|term| term == "name"));
    assert!(terms.iter().any(|term| term == "ending"));
    assert!(terms.iter().any(|term| term == "dot"));
    assert!(!terms.iter().any(|term| term == "callback"));
}

#[test]
fn context_queries_cover_early_domain_tail_intent_and_natural_phrases() {
    let terms = values(
        "Trace how index generations are published atomically and how request snapshot consistency is preserved for concurrent readers",
        12,
    );

    assert!(terms.len() <= 10);
    assert!(terms.iter().any(|term| term == "index"));
    assert!(terms.iter().any(|term| term == "snapshot"));
    assert!(terms.iter().any(|term| term == "concurrent"));
    assert!(terms.iter().any(|term| term == "snapshot consistency"));
    assert!(terms.iter().any(|term| term == "published atomically"));
    assert!(!terms.iter().any(|term| term == "Trace"));
    assert!(!terms.iter().any(|term| term == "how"));
}

#[test]
fn context_queries_reserve_space_for_task_intent() {
    let terms = values(
        "Fix Alpha::first_long_identifier Beta::second_long_identifier while preserving idempotency",
        12,
    );

    assert!(terms.iter().any(|term| term == "Alpha::first_long_identifier"));
    assert!(terms.iter().any(|term| term == "Beta::second_long_identifier"));
    assert!(terms.iter().any(|term| term == "idempotency"));
}

#[test]
fn context_query_expansions_share_one_fusion_concept() {
    let task = "Fix GlobSet::matches_all when one compiled strategy matches";
    let terms = plan(task, 12, &vocabulary(task)).queries;
    let qualified = terms
        .iter()
        .find(|term| term.value == "GlobSet::matches_all")
        .expect("qualified query");
    let expansion = terms
        .iter()
        .find(|term| term.value != qualified.value && term.fusion_key == qualified.fusion_key)
        .expect("expanded query");

    assert_eq!(qualified.fusion_key, expansion.fusion_key);
    assert!(!qualified.fusion_key.is_empty());
}

#[test]
fn plans_look_for_each_text_once_and_for_tests_where_asked() {
    let task = "Fix Parser parser PARSER errors and add regression coverage for parser.rs";
    for limit in 1..12 {
        let queries = plan(task, limit, &vocabulary(task)).queries;
        assert!(queries.len() <= limit);
        let mut values = queries.iter().map(|q| q.value.to_lowercase()).collect::<Vec<_>>();
        values.sort();
        let count = values.len();
        values.dedup();
        assert_eq!(values.len(), count);
        assert!(queries.iter().any(|query| query.value.eq_ignore_ascii_case("test")
            && query.has_facet(FacetKind::TestIntent)));
    }
}
