//! Gathering the candidates of a request.

use crate::cancellation::{answered, asked_first, check_cancelled, stopped};
use crate::context::candidates::constraints::{
    after_constraints, constraint_coverage, exact_names, focus_scans,
    required_symbol_excerpt_requests, required_symbol_requests, required_symbols, ConstraintFacts,
    ExactHit, FocusScan, FocusScanView, JudgedFile,
};
use crate::context::candidates::draft::{
    apply_query_fusion, import_seed_paths, seed_list, with_fusion, Candidate, CandidateView,
    FusionView, LineRange,
};
use crate::context::candidates::focus::{
    focus_outcome, ChunkView, FileChunk, FocusExpansion, FocusFile, FocusFileView, FocusOutcome,
    FocusPathResolution, FocusSymbol, FocusSymbolView, ResolutionView,
};
use crate::context::candidates::graph::{
    import_excerpt_requests, import_requested_paths, import_requests, pending_import_symbols,
    pending_imports, requested_paths, with_importer, with_imports, ImportExpansion, ImportTarget,
};
use crate::context::candidates::lexical::{
    after_reference_search, after_symbol_search, after_text_search, excerpts, with_query, ChunkHit,
    Gathered, GatheredView, LexicalSearch, QueryEvidence, QueryExpansion, ReferenceHit,
    StoredExcerpt, SymbolHit,
};
use crate::context::candidates::query::{
    adaptive_said, changes, evidence_found, evidence_lost, query_answers, stored_said, QueryPorts,
};
use crate::context::candidates::ranked::{FoldedTerm, FullScan};
use crate::context::candidates::required::{ConstraintExpansion, EvidenceOutcome};
use crate::context::candidates::workflow::{
    asks_for_files, barred, scanned, with_workflow, workflow_excerpt_requests, workflow_lines,
    workflow_shown, workflow_tally, IndexedFile, MAX_WORKFLOW_SCAN_FILES,
};
use crate::context::delivery::decided;
use crate::context::diagnostics::{
    span, AdaptiveExcerptRequest, ContextPhaseCounters, ContextPhaseTimings, ContextPhaseTracker,
    FileLine, StoredExcerptRequest, TrackerView,
};
use crate::context::execution::PreparedContext;
use crate::context::facets::{ContextQuery, FacetPlan, QueryView, Vocabulary};
use crate::context::path_score::{scorer_of, ContextPathScorer};
use crate::context::plan::{plan_with_workflow_evidence, planned_with_evidence};
use crate::context::policy::ContextSignals;
use crate::context::scope_helpers::{resolve_context_workflow, resolved_workflow};
use crate::context::validation::MAX_CONTEXT_QUERIES;
use crate::error::Error;
use crate::lists::{tally, tally_push};
use crate::model::{ContextRequest, ContextWorkflow};
use crate::ordered::{first_of, views};
use crate::response::{optional_view, ContextCoverageReceipt, WorkflowReceipt};
use crate::services::Services;
use crate::text::{copy_texts, list_has, texts};
use tokio_util::sync::CancellationToken;
use vstd::prelude::*;

verus! {

/// What a file that a focus pattern matches holds.
#[derive(Debug)]
pub struct FocusContent {
    pub chunks: Vec<FileChunk>,
    pub symbols: Vec<FocusSymbol>,
}

/// What a file holds, or nothing where it is missing.
pub open spec fn content_at(lists: Seq<FocusContent>, j: int) -> (Seq<ChunkView>, Seq<
    FocusSymbolView,
>) {
    if 0 <= j < lists.len() {
        (views(lists[j].chunks@), views(lists[j].symbols@))
    } else {
        (Seq::empty(), Seq::empty())
    }
}

/// What the files of a pattern hold, or nothing where it is missing.
pub open spec fn contents_at(lists: Seq<Vec<FocusContent>>, i: int) -> Seq<FocusContent> {
    if 0 <= i < lists.len() {
        lists[i]@
    } else {
        Seq::empty()
    }
}

/// The files of a focus pattern with what they hold.
pub open spec fn resolved_files(scan: FocusScanView, contents: Seq<FocusContent>) -> Seq<
    FocusFileView,
> {
    Seq::new(
        scan.files.len(),
        |j: int|
            FocusFileView {
                id: scan.files[j].id,
                path: scan.files[j].path,
                chunks: content_at(contents, j).0,
                symbols: content_at(contents, j).1,
            },
    )
}

/// What the focus patterns match, with what the files hold.
pub open spec fn resolutions_of(scans: Seq<FocusScanView>, contents: Seq<Vec<FocusContent>>) -> Seq<
    ResolutionView,
> {
    Seq::new(
        scans.len(),
        |i: int|
            ResolutionView {
                files: resolved_files(scans[i], contents_at(contents, i)),
                indexed_paths: scans[i].indexed_paths,
                eligible_paths: scans[i].eligible_paths,
            },
    )
}

fn resolve_files(scan: &FocusScan, contents: Vec<FocusContent>) -> (r: Vec<FocusFile>)
    ensures
        views(r@) == resolved_files(scan@, contents@),
{
    let ghost all = resolved_files(scan@, contents@);
    let ghost given = contents@;
    let mut rest = contents;
    let mut out: Vec<FocusFile> = Vec::new();
    let mut j: usize = 0;
    proof {
        assert(views(out@) =~= all.take(0));
        assert(rest@ =~= crate::context::candidates::constraints::left_of(given, 0));
    }
    while j < scan.files.len()
        invariant
            j <= scan.files.len(),
            all == resolved_files(scan@, given),
            rest@ == crate::context::candidates::constraints::left_of(given, j as int),
            views(out@) == all.take(j as int),
        decreases scan.files.len() - j,
    {
        let ghost before = views(out@);
        let ghost left = rest@;
        let mine = if rest.len() > 0 {
            rest.remove(0)
        } else {
            FocusContent { chunks: Vec::new(), symbols: Vec::new() }
        };
        proof {
            if j < given.len() {
                assert(left[0] == given[j as int]);
            }
            assert(views(mine.chunks@) =~= content_at(given, j as int).0);
            assert(views(mine.symbols@) =~= content_at(given, j as int).1);
            assert(scan@.files[j as int] == scan.files@[j as int]@);
        }
        let item = FocusFile {
            id: scan.files[j].id,
            path: scan.files[j].path.clone(),
            chunks: mine.chunks,
            symbols: mine.symbols,
        };
        let ghost added = item@;
        out.push(item);
        proof {
            assert(rest@ =~= crate::context::candidates::constraints::left_of(given, j + 1));
            assert(added == all[j as int]);
            assert(views(out@) =~= before.push(added));
            assert(views(out@) =~= all.take(j + 1));
        }
        j += 1;
    }
    assert(all.take(all.len() as int) =~= all);
    out
}

fn resolve_patterns(scans: &Vec<FocusScan>, contents: Vec<Vec<FocusContent>>) -> (r: Vec<
    FocusPathResolution,
>)
    ensures
        views(r@) == resolutions_of(views(scans@), contents@),
{
    let ghost all = resolutions_of(views(scans@), contents@);
    let ghost given = contents@;
    let mut rest = contents;
    let mut out: Vec<FocusPathResolution> = Vec::new();
    let mut i: usize = 0;
    proof {
        assert(views(out@) =~= all.take(0));
        assert(rest@ =~= crate::context::candidates::constraints::left_of(given, 0));
    }
    while i < scans.len()
        invariant
            i <= scans.len(),
            all == resolutions_of(views(scans@), given),
            rest@ == crate::context::candidates::constraints::left_of(given, i as int),
            views(out@) == all.take(i as int),
        decreases scans.len() - i,
    {
        let ghost before = views(out@);
        let ghost left = rest@;
        let mine: Vec<FocusContent> = if rest.len() > 0 {
            rest.remove(0)
        } else {
            Vec::new()
        };
        proof {
            if i < given.len() {
                assert(left[0] == given[i as int]);
            }
            assert(mine@ =~= contents_at(given, i as int));
            assert(views(scans@)[i as int] == scans@[i as int]@);
        }
        let item = FocusPathResolution {
            files: resolve_files(&scans[i], mine),
            indexed_paths: scans[i].indexed_paths,
            eligible_paths: scans[i].eligible_paths,
        };
        let ghost added = item@;
        out.push(item);
        proof {
            assert(rest@ =~= crate::context::candidates::constraints::left_of(given, i + 1));
            assert(added == all[i as int]);
            assert(views(out@) =~= before.push(added));
            assert(views(out@) =~= all.take(i + 1));
        }
        i += 1;
    }
    assert(all.take(all.len() as int) =~= all);
    out
}

/// What the constraints of a request are answered with, but for the excerpts of
/// required symbols.
#[derive(Debug)]
pub struct ConstraintLookups {
    pub files: Vec<JudgedFile>,
    pub required_chunks: Vec<Vec<FileChunk>>,
    pub beginnings: Vec<Option<StoredExcerpt>>,
    pub exact_hits: Vec<Vec<ExactHit>>,
    pub evidence_chunks: Vec<Vec<Vec<FileChunk>>>,
    pub evidence_excerpts: Vec<Vec<Option<StoredExcerpt>>>,
}

/// What constraints are answered with, together with excerpts of required symbols.
pub open spec fn constraint_facts(
    lookups: ConstraintLookups,
    symbol_excerpts: Vec<Option<StoredExcerpt>>,
) -> ConstraintFacts {
    ConstraintFacts {
        files: lookups.files,
        required_chunks: lookups.required_chunks,
        beginnings: lookups.beginnings,
        exact_hits: lookups.exact_hits,
        symbol_excerpts,
        evidence_chunks: lookups.evidence_chunks,
        evidence_excerpts: lookups.evidence_excerpts,
    }
}

/// What the index answered once the searches of a request were done: to its workflow,
/// and on imports.
#[derive(Debug)]
pub struct FollowFacts {
    pub workflow_files: Vec<IndexedFile>,
    pub workflow_allowed: Vec<bool>,
    pub workflow_excerpts: Vec<Option<StoredExcerpt>>,
    pub import_scores: Vec<u64>,
    pub import_targets: Vec<ImportTarget>,
    pub import_excerpts: Vec<Option<StoredExcerpt>>,
    pub importer_scores: Vec<u64>,
    pub importers: Vec<String>,
}

/// What the index answered while a request was gathered: to its constraints and focus
/// patterns, to each query that is searched for, and to what followed.
pub struct ContextFacts {
    pub constraints: ConstraintFacts,
    pub focus_contents: Vec<Vec<FocusContent>>,
    pub queries: Seq<QueryEvidence>,
    pub followed: FollowFacts,
}

/// What was gathered for a request before anything is selected.
pub struct ContextGathering {
    pub candidates: Vec<Candidate>,
    pub path_excluded: Vec<String>,
    pub coverage: ContextCoverageReceipt,
    pub warnings: Vec<String>,
    pub workflow: ContextWorkflow,
    pub workflow_receipt: Option<WorkflowReceipt>,
}

/// The texts of queries.
pub open spec fn query_terms(queries: Seq<ContextQuery>) -> Seq<Seq<char>> {
    Seq::new(queries.len(), |i: int| queries[i].value@)
}

/// Whether a query is searched for.
pub open spec fn searched() -> spec_fn(QueryView) -> bool {
    |query: QueryView| !query.facets.test_intent
}

/// What the searches for queries have brought.
pub struct SearchView {
    pub gathered: GatheredView,
    pub tracker: TrackerView,
}

/// What the searches for the first `upto` queries bring, on the evidence of each.
/// Queries that only say that tests are wanted are not searched for.
pub open spec fn after_queries(
    start: SearchView,
    prepared: PreparedContext,
    queries: Seq<ContextQuery>,
    evidence: Seq<QueryEvidence>,
    scorer: ContextPathScorer,
    vocabulary: Vocabulary,
    caller: bool,
    upto: int,
) -> SearchView
    decreases upto,
{
    if upto <= 0 || upto > queries.len() {
        start
    } else {
        let before = after_queries(
            start,
            prepared,
            queries,
            evidence,
            scorer,
            vocabulary,
            caller,
            upto - 1,
        );
        let query = queries[upto - 1];
        let expansion = QueryExpansion {
            request: &prepared.request,
            query: &query,
            changed_paths: &prepared.changed_paths,
            path_scorer: &scorer,
            vocabulary: &vocabulary,
            caller,
        };
        if query.facets.test_intent {
            before
        } else {
            let found = evidence[upto - 1];
            SearchView {
                gathered: with_query(before.gathered, expansion, found),
                tracker: after_text_search(
                    after_reference_search(
                        after_symbol_search(before.tracker, expansion, found),
                        expansion,
                        found,
                    ),
                    expansion,
                    found,
                ),
            }
        }
    }
}

/// How a query is searched for: where its searches read, the term as a quoted word, and
/// its variants.
pub struct QuerySearch<V, Y, Z, Q, G, A, K, N, E, D, F> {
    pub ports: QueryPorts<V, Y, Z, Q, G, A, K, N, E, D, F>,
    pub quoted: String,
    pub folded: Option<FoldedTerm>,
}

/// Whether every query can be searched for.
pub open spec fn searches_all<
    V: Fn(&str) -> Result<(), Error>,
    Y: Fn(usize, usize) -> Result<Vec<SymbolHit>, Error>,
    Z: Fn(usize, usize) -> Result<Vec<ReferenceHit>, Error>,
    Q: Fn(LexicalSearch, &str, usize, usize) -> Result<Vec<ChunkHit>, Error>,
    G: Fn() -> Result<FullScan, Error>,
    A: Fn(&str) -> bool,
    K: Fn(&Vec<String>, Error) -> Result<Vec<String>, Error>,
    N: Fn(&Vec<FileLine>) -> Result<Vec<Option<LineRange>>, Error>,
    E: Fn(&Vec<AdaptiveExcerptRequest>) -> Result<Vec<Option<StoredExcerpt>>, Error>,
    D: Fn(&Vec<StoredExcerptRequest>) -> Result<Vec<Option<StoredExcerpt>>, Error>,
    F: Fn(&StoredExcerpt, usize, usize, usize) -> Option<StoredExcerpt>,
    P: Fn(&ContextQuery) -> QuerySearch<V, Y, Z, Q, G, A, K, N, E, D, F>,
>(ask: P) -> bool {
    &&& forall|query: &ContextQuery| call_requires(ask, (query,))
    &&& forall|query: &ContextQuery, search: QuerySearch<V, Y, Z, Q, G, A, K, N, E, D, F>|
        #[trigger] call_ensures(ask, (query,), search) ==> query_answers(search.ports)
}

/// Whether the search for a query may bring this evidence, on top of warnings.
pub open spec fn query_told<
    V: Fn(&str) -> Result<(), Error>,
    Y: Fn(usize, usize) -> Result<Vec<SymbolHit>, Error>,
    Z: Fn(usize, usize) -> Result<Vec<ReferenceHit>, Error>,
    Q: Fn(LexicalSearch, &str, usize, usize) -> Result<Vec<ChunkHit>, Error>,
    G: Fn() -> Result<FullScan, Error>,
    A: Fn(&str) -> bool,
    K: Fn(&Vec<String>, Error) -> Result<Vec<String>, Error>,
    N: Fn(&Vec<FileLine>) -> Result<Vec<Option<LineRange>>, Error>,
    E: Fn(&Vec<AdaptiveExcerptRequest>) -> Result<Vec<Option<StoredExcerpt>>, Error>,
    D: Fn(&Vec<StoredExcerptRequest>) -> Result<Vec<Option<StoredExcerpt>>, Error>,
    F: Fn(&StoredExcerpt, usize, usize, usize) -> Option<StoredExcerpt>,
    P: Fn(&ContextQuery) -> QuerySearch<V, Y, Z, Q, G, A, K, N, E, D, F>,
>(
    ask: P,
    expansion: QueryExpansion<'_>,
    strict: Option<Vec<String>>,
    warnings: Seq<Seq<char>>,
    evidence: QueryEvidence,
    warned: Seq<Seq<char>>,
) -> bool {
    exists|search: QuerySearch<V, Y, Z, Q, G, A, K, N, E, D, F>|
        {
            &&& #[trigger] call_ensures(ask, (expansion.query,), search)
            &&& evidence_found(
                search.ports,
                expansion,
                strict,
                search.quoted@,
                search.folded,
                warnings,
                evidence,
                warned,
            )
        }
}

/// Whether a query that is searched for may bring this evidence. Nothing is asked of
/// another query.
pub open spec fn step_told<
    V: Fn(&str) -> Result<(), Error>,
    Y: Fn(usize, usize) -> Result<Vec<SymbolHit>, Error>,
    Z: Fn(usize, usize) -> Result<Vec<ReferenceHit>, Error>,
    Q: Fn(LexicalSearch, &str, usize, usize) -> Result<Vec<ChunkHit>, Error>,
    G: Fn() -> Result<FullScan, Error>,
    A: Fn(&str) -> bool,
    K: Fn(&Vec<String>, Error) -> Result<Vec<String>, Error>,
    N: Fn(&Vec<FileLine>) -> Result<Vec<Option<LineRange>>, Error>,
    E: Fn(&Vec<AdaptiveExcerptRequest>) -> Result<Vec<Option<StoredExcerpt>>, Error>,
    D: Fn(&Vec<StoredExcerptRequest>) -> Result<Vec<Option<StoredExcerpt>>, Error>,
    F: Fn(&StoredExcerpt, usize, usize, usize) -> Option<StoredExcerpt>,
    P: Fn(&ContextQuery) -> QuerySearch<V, Y, Z, Q, G, A, K, N, E, D, F>,
>(
    ask: P,
    prepared: PreparedContext,
    query: ContextQuery,
    strict: Option<Vec<String>>,
    scorer: ContextPathScorer,
    vocabulary: Vocabulary,
    caller: bool,
    warnings: Seq<Seq<char>>,
    evidence: QueryEvidence,
    warned: Seq<Seq<char>>,
) -> bool {
    if query.facets.test_intent {
        warned == warnings
    } else {
        query_told(
            ask,
            QueryExpansion {
                request: &prepared.request,
                query: &query,
                changed_paths: &prepared.changed_paths,
                path_scorer: &scorer,
                vocabulary: &vocabulary,
                caller,
            },
            strict,
            warnings,
            evidence,
            warned,
        )
    }
}

/// Whether the searches for queries, one after another, may bring this evidence and
/// leave these warnings behind each.
pub open spec fn queries_told<
    V: Fn(&str) -> Result<(), Error>,
    Y: Fn(usize, usize) -> Result<Vec<SymbolHit>, Error>,
    Z: Fn(usize, usize) -> Result<Vec<ReferenceHit>, Error>,
    Q: Fn(LexicalSearch, &str, usize, usize) -> Result<Vec<ChunkHit>, Error>,
    G: Fn() -> Result<FullScan, Error>,
    A: Fn(&str) -> bool,
    K: Fn(&Vec<String>, Error) -> Result<Vec<String>, Error>,
    N: Fn(&Vec<FileLine>) -> Result<Vec<Option<LineRange>>, Error>,
    E: Fn(&Vec<AdaptiveExcerptRequest>) -> Result<Vec<Option<StoredExcerpt>>, Error>,
    D: Fn(&Vec<StoredExcerptRequest>) -> Result<Vec<Option<StoredExcerpt>>, Error>,
    F: Fn(&StoredExcerpt, usize, usize, usize) -> Option<StoredExcerpt>,
    P: Fn(&ContextQuery) -> QuerySearch<V, Y, Z, Q, G, A, K, N, E, D, F>,
>(
    ask: P,
    prepared: PreparedContext,
    queries: Seq<ContextQuery>,
    strict: Option<Vec<String>>,
    scorer: ContextPathScorer,
    vocabulary: Vocabulary,
    caller: bool,
    evidence: Seq<QueryEvidence>,
    warned: Seq<Seq<Seq<char>>>,
) -> bool {
    &&& evidence.len() == queries.len()
    &&& warned.len() == queries.len() + 1
    &&& forall|i: int|
        0 <= i < queries.len() ==> #[trigger] step_told(
            ask,
            prepared,
            queries[i],
            strict,
            scorer,
            vocabulary,
            caller,
            warned[i],
            evidence[i],
            warned[i + 1],
        )
}

/// Whether the search for one of some queries may fail so.
pub open spec fn query_lost<
    V: Fn(&str) -> Result<(), Error>,
    Y: Fn(usize, usize) -> Result<Vec<SymbolHit>, Error>,
    Z: Fn(usize, usize) -> Result<Vec<ReferenceHit>, Error>,
    Q: Fn(LexicalSearch, &str, usize, usize) -> Result<Vec<ChunkHit>, Error>,
    G: Fn() -> Result<FullScan, Error>,
    A: Fn(&str) -> bool,
    K: Fn(&Vec<String>, Error) -> Result<Vec<String>, Error>,
    N: Fn(&Vec<FileLine>) -> Result<Vec<Option<LineRange>>, Error>,
    E: Fn(&Vec<AdaptiveExcerptRequest>) -> Result<Vec<Option<StoredExcerpt>>, Error>,
    D: Fn(&Vec<StoredExcerptRequest>) -> Result<Vec<Option<StoredExcerpt>>, Error>,
    F: Fn(&StoredExcerpt, usize, usize, usize) -> Option<StoredExcerpt>,
    P: Fn(&ContextQuery) -> QuerySearch<V, Y, Z, Q, G, A, K, N, E, D, F>,
>(
    ask: P,
    prepared: PreparedContext,
    queries: Seq<ContextQuery>,
    scorer: ContextPathScorer,
    vocabulary: Vocabulary,
    caller: bool,
    cancellation: CancellationToken,
    error: Error,
) -> bool {
    exists|i: int, search: QuerySearch<V, Y, Z, Q, G, A, K, N, E, D, F>|
        {
            let expansion = QueryExpansion {
                request: &prepared.request,
                query: &queries[i],
                changed_paths: &prepared.changed_paths,
                path_scorer: &scorer,
                vocabulary: &vocabulary,
                caller,
            };
            &&& 0 <= i < queries.len()
            &&& !queries[i].facets.test_intent
            &&& #[trigger] call_ensures(ask, (&queries[i],), search)
            &&& evidence_lost(
                search.ports,
                expansion,
                search.quoted@,
                search.folded,
                cancellation,
                error,
            )
        }
}

proof fn evidence_prefix(
    start: SearchView,
    prepared: PreparedContext,
    queries: Seq<ContextQuery>,
    shorter: Seq<QueryEvidence>,
    longer: Seq<QueryEvidence>,
    scorer: ContextPathScorer,
    vocabulary: Vocabulary,
    caller: bool,
    upto: int,
)
    requires
        forall|k: int| 0 <= k < upto ==> shorter[k] == #[trigger] longer[k],
    ensures
        after_queries(start, prepared, queries, shorter, scorer, vocabulary, caller, upto)
            == after_queries(start, prepared, queries, longer, scorer, vocabulary, caller, upto),
    decreases upto,
{
    if upto > 0 && upto <= queries.len() {
        evidence_prefix(
            start,
            prepared,
            queries,
            shorter,
            longer,
            scorer,
            vocabulary,
            caller,
            upto - 1,
        );
        assert(shorter[upto - 1] == longer[upto - 1]);
    }
}

#[verifier::rlimit(60)]
fn run_queries<
    V: Fn(&str) -> Result<(), Error>,
    Y: Fn(usize, usize) -> Result<Vec<SymbolHit>, Error>,
    Z: Fn(usize, usize) -> Result<Vec<ReferenceHit>, Error>,
    Q: Fn(LexicalSearch, &str, usize, usize) -> Result<Vec<ChunkHit>, Error>,
    G: Fn() -> Result<FullScan, Error>,
    A: Fn(&str) -> bool,
    K: Fn(&Vec<String>, Error) -> Result<Vec<String>, Error>,
    N: Fn(&Vec<FileLine>) -> Result<Vec<Option<LineRange>>, Error>,
    E: Fn(&Vec<AdaptiveExcerptRequest>) -> Result<Vec<Option<StoredExcerpt>>, Error>,
    D: Fn(&Vec<StoredExcerptRequest>) -> Result<Vec<Option<StoredExcerpt>>, Error>,
    F: Fn(&StoredExcerpt, usize, usize, usize) -> Option<StoredExcerpt>,
    P: Fn(&ContextQuery) -> QuerySearch<V, Y, Z, Q, G, A, K, N, E, D, F>,
>(
    prepared: &PreparedContext,
    queries: &Vec<ContextQuery>,
    ask: &P,
    strict: &Option<Vec<String>>,
    scorer: &ContextPathScorer,
    vocabulary: &Vocabulary,
    caller: bool,
    gathered: &mut Gathered,
    warnings: &mut Vec<String>,
    phases: &mut ContextPhaseTracker,
    cancellation: &CancellationToken,
) -> (r: (Result<(), Error>, Ghost<Seq<QueryEvidence>>, Ghost<Seq<Seq<Seq<char>>>>))
    requires
        searches_all(*ask),
    ensures
        match r.0 {
            Ok(_) => {
                &&& queries_told(
                    *ask,
                    *prepared,
                    queries@,
                    *strict,
                    *scorer,
                    *vocabulary,
                    caller,
                    r.1@,
                    r.2@,
                )
                &&& r.2@[0] == texts(old(warnings)@)
                &&& r.2@.last() == texts(final(warnings)@)
                &&& after_queries(
                    SearchView { gathered: old(gathered)@, tracker: old(phases)@ },
                    *prepared,
                    queries@,
                    r.1@,
                    *scorer,
                    *vocabulary,
                    caller,
                    queries@.len() as int,
                ) == (SearchView { gathered: final(gathered)@, tracker: final(phases)@ })
            },
            Err(e) => query_lost(
                *ask,
                *prepared,
                queries@,
                *scorer,
                *vocabulary,
                caller,
                *cancellation,
                e,
            ),
        },
{
    let ghost start = SearchView { gathered: gathered@, tracker: phases@ };
    let ghost mut evidence: Seq<QueryEvidence> = Seq::empty();
    let ghost mut warned: Seq<Seq<Seq<char>>> = seq![texts(warnings@)];
    let mut i: usize = 0;
    while i < queries.len()
        invariant
            i <= queries.len(),
            searches_all(*ask),
            evidence.len() == i,
            warned.len() == i + 1,
            warned[0] == texts(old(warnings)@),
            warned[i as int] == texts(warnings@),
            start == (SearchView { gathered: old(gathered)@, tracker: old(phases)@ }),
            forall|k: int|
                0 <= k < i ==> #[trigger] step_told(
                    *ask,
                    *prepared,
                    queries@[k],
                    *strict,
                    *scorer,
                    *vocabulary,
                    caller,
                    warned[k],
                    evidence[k],
                    warned[k + 1],
                ),
            after_queries(
                start,
                *prepared,
                queries@,
                evidence,
                *scorer,
                *vocabulary,
                caller,
                i as int,
            ) == (SearchView { gathered: gathered@, tracker: phases@ }),
        decreases queries.len() - i,
    {
        let query = &queries[i];
        let ghost known = evidence;
        let ghost said = warned;
        let ghost before = gathered@;
        let ghost tracked_as = phases@;
        let ghost mut found: QueryEvidence = vstd::pervasive::arbitrary();
        if !query.is_generic_test_path_prior() {
            let expansion = QueryExpansion {
                request: &prepared.request,
                query,
                changed_paths: &prepared.changed_paths,
                path_scorer: scorer,
                vocabulary,
                caller,
            };
            let search = ask(query);
            let appended = Services::append_query_candidates(
                &expansion,
                strict,
                search.quoted.as_str(),
                &search.folded,
                &search.ports,
                gathered,
                warnings,
                phases,
                cancellation,
            );
            if let Err(e) = appended {
                assert(call_ensures(*ask, (&queries@[i as int],), search));
                return (Err(e), Ghost(evidence), Ghost(warned));
            }
            proof {
                found = choose|one: QueryEvidence|
                    {
                        &&& #[trigger] evidence_found(
                            search.ports,
                            expansion,
                            *strict,
                            search.quoted@,
                            search.folded,
                            said[i as int],
                            one,
                            texts(warnings@),
                        )
                        &&& gathered@ == with_query(before, expansion, one)
                        &&& phases@ == after_text_search(
                            after_reference_search(
                                after_symbol_search(tracked_as, expansion, one),
                                expansion,
                                one,
                            ),
                            expansion,
                            one,
                        )
                    };
                assert(query_told(
                    *ask,
                    expansion,
                    *strict,
                    said[i as int],
                    found,
                    texts(warnings@),
                ));
            }
        }
        proof {
            evidence = evidence.push(found);
            warned = warned.push(texts(warnings@));
            evidence_prefix(
                start,
                *prepared,
                queries@,
                known,
                evidence,
                *scorer,
                *vocabulary,
                caller,
                i as int,
            );
            assert forall|k: int| 0 <= k < i + 1 implies #[trigger] step_told(
                *ask,
                *prepared,
                queries@[k],
                *strict,
                *scorer,
                *vocabulary,
                caller,
                warned[k],
                evidence[k],
                warned[k + 1],
            ) by {
                if k < i {
                    assert(step_told(
                        *ask,
                        *prepared,
                        queries@[k],
                        *strict,
                        *scorer,
                        *vocabulary,
                        caller,
                        said[k],
                        known[k],
                        said[k + 1],
                    ));
                }
            }
        }
        i += 1;
    }
    (Ok(()), Ghost(evidence), Ghost(warned))
}

/// Whether a path is within the changed paths of a request.
pub open spec fn kept_in_scope(request: ContextRequest, path: Seq<char>) -> bool {
    !request.strict_changed_paths || texts(request.changed_paths@).contains(path)
}

/// The candidates among the first `upto` whose paths are in scope.
pub open spec fn scoped_candidates(
    request: ContextRequest,
    list: Seq<CandidateView>,
    upto: int,
) -> Seq<CandidateView>
    decreases upto,
{
    if upto <= 0 || upto > list.len() {
        Seq::empty()
    } else {
        let before = scoped_candidates(request, list, upto - 1);
        if kept_in_scope(request, list[upto - 1].path) {
            before.push(list[upto - 1])
        } else {
            before
        }
    }
}

/// The paths among the first `upto` that are in scope.
pub open spec fn scoped_paths(
    request: ContextRequest,
    list: Seq<Seq<char>>,
    upto: int,
) -> Seq<Seq<char>>
    decreases upto,
{
    if upto <= 0 || upto > list.len() {
        Seq::empty()
    } else {
        let before = scoped_paths(request, list, upto - 1);
        if kept_in_scope(request, list[upto - 1]) {
            before.push(list[upto - 1])
        } else {
            before
        }
    }
}

fn keeps(request: &ContextRequest, path: &str) -> (r: bool)
    ensures
        r == kept_in_scope(*request, path@),
{
    !request.strict_changed_paths || list_has(&request.changed_paths, path)
}

fn keep_candidates(request: &ContextRequest, list: Vec<Candidate>) -> (r: Vec<Candidate>)
    ensures
        views(r@) == scoped_candidates(*request, views(list@), list@.len() as int),
{
    let ghost all = views(list@);
    let mut out: Vec<Candidate> = Vec::new();
    assert(views(out@) =~= Seq::<CandidateView>::empty());
    for item in it: list
        invariant
            it.seq() == list@,
            all == views(list@),
            all.len() == list@.len(),
            views(out@) == scoped_candidates(*request, all, it.index() as int),
    {
        let ghost before = views(out@);
        assert(all[it.index() as int] == item@);
        if keeps(request, item.path.as_str()) {
            let ghost added = item@;
            out.push(item);
            assert(views(out@) =~= before.push(added));
        }
    }
    out
}

fn keep_paths(request: &ContextRequest, list: Vec<String>) -> (r: Vec<String>)
    ensures
        texts(r@) == scoped_paths(*request, texts(list@), list@.len() as int),
{
    let ghost all = texts(list@);
    let mut out: Vec<String> = Vec::new();
    assert(texts(out@) =~= Seq::<Seq<char>>::empty());
    for item in it: list
        invariant
            it.seq() == list@,
            all == texts(list@),
            all.len() == list@.len(),
            texts(out@) == scoped_paths(*request, all, it.index() as int),
    {
        let ghost before = texts(out@);
        assert(all[it.index() as int] == item@);
        if keeps(request, item.as_str()) {
            let ghost added = item@;
            out.push(item);
            assert(texts(out@) =~= before.push(added));
        }
    }
    out
}

/// A tracker that has counted the queries of a request.
pub open spec fn counted_queries(tracker: TrackerView, queries: Seq<ContextQuery>) -> TrackerView {
    TrackerView {
        counters: ContextPhaseCounters {
            queries_planned: queries.len() as usize,
            queries_executed: tally(views(queries), searched()) as usize,
            ..tracker.counters
        },
        ..tracker
    }
}

fn count_searched(queries: &Vec<ContextQuery>) -> (r: usize)
    ensures
        r == tally(views(queries@), searched()),
{
    let ghost all = views(queries@);
    let mut count: usize = 0;
    let mut i: usize = 0;
    while i < queries.len()
        invariant
            i <= queries.len(),
            all == views(queries@),
            count <= i,
            count == tally(all.take(i as int), searched()),
        decreases queries.len() - i,
    {
        proof {
            tally_push(all, searched(), i as int);
            assert(all[i as int] == queries@[i as int]@);
        }
        if !queries[i].is_generic_test_path_prior() {
            count += 1;
        }
        i += 1;
    }
    assert(all.take(all.len() as int) =~= all);
    count
}

fn terms_of(queries: &Vec<ContextQuery>) -> (r: Vec<String>)
    ensures
        texts(r@) == query_terms(queries@),
{
    let ghost all = query_terms(queries@);
    let mut out: Vec<String> = Vec::new();
    let mut i: usize = 0;
    assert(texts(out@) =~= all.take(0));
    while i < queries.len()
        invariant
            i <= queries.len(),
            all == query_terms(queries@),
            texts(out@) == all.take(i as int),
        decreases queries.len() - i,
    {
        let ghost before = texts(out@);
        out.push(queries[i].value.clone());
        assert(texts(out@) =~= before.push(queries@[i as int].value@));
        assert(texts(out@) =~= all.take(i + 1));
        i += 1;
    }
    assert(all.take(all.len() as int) =~= all);
    out
}

/// The candidates that constraints and focus patterns bring, with what is to be
/// warned of.
pub open spec fn constrained(
    tracker: TrackerView,
    prepared: PreparedContext,
    plan: FacetPlan,
    constraints: ConstraintFacts,
    scorer: ContextPathScorer,
    resolutions: Vec<FocusPathResolution>,
) -> FocusOutcome {
    let request = prepared.scoped_request;
    let first = after_constraints(
        EvidenceOutcome {
            candidates: Seq::empty(),
            tracker: counted_queries(tracker, plan.queries@),
        },
        ConstraintExpansion { request: &request, queries: &plan.queries, path_scorer: &scorer },
        constraints,
    );
    let start = FocusOutcome {
        candidates: first.candidates,
        warnings: Seq::empty(),
        tracker: first.tracker,
    };
    if request.strict_focus_paths || request.minimum_fragments_per_focus_path is Some {
        focus_outcome(
            start,
            FocusExpansion {
                request: &request,
                queries: &plan.queries,
                path_scorer: &scorer,
                resolutions: &resolutions,
            },
            decided(request.focus_paths@.len(), resolutions@.len()) as int,
        )
    } else {
        start
    }
}

/// What the searches for the queries of a request bring.
pub open spec fn searched_for(
    tracker: TrackerView,
    prepared: PreparedContext,
    plan: FacetPlan,
    vocabulary: Vocabulary,
    constraints: ConstraintFacts,
    evidence: Seq<QueryEvidence>,
    caller: bool,
    scorer: ContextPathScorer,
    resolutions: Vec<FocusPathResolution>,
) -> SearchView {
    let first = constrained(tracker, prepared, plan, constraints, scorer, resolutions);
    after_queries(
        SearchView {
            gathered: GatheredView {
                candidates: first.candidates,
                fusion: Seq::empty(),
                path_excluded: Seq::empty(),
            },
            tracker: first.tracker,
        },
        prepared,
        plan.queries@,
        evidence,
        scorer,
        vocabulary,
        caller,
        plan.queries@.len() as int,
    )
}

/// The candidates that the queries of a request agree on.
pub open spec fn fused(found: GatheredView) -> Seq<CandidateView> {
    Seq::new(found.candidates.len(), |i: int| with_fusion(found.candidates[i], found.fusion))
}

/// The candidates with those of the workflow.
pub open spec fn worked(
    candidates: Seq<CandidateView>,
    prepared: PreparedContext,
    facts: FollowFacts,
) -> Seq<CandidateView> {
    let workflow = resolved_workflow(prepared.workflow, prepared.request.task@);
    let shown = workflow_shown(
        scanned(
            prepared.scoped_request,
            views(facts.workflow_files@),
            facts.workflow_allowed@,
        ),
    );
    if asks_for_files(workflow) {
        with_workflow(
            candidates,
            shown,
            excerpts(facts.workflow_excerpts@),
            shown.len() as int,
        )
    } else {
        candidates
    }
}

/// The candidates with those that imports lead to, where the signal is on.
pub open spec fn imported(
    candidates: Seq<CandidateView>,
    expansion: ImportExpansion<'_>,
    facts: FollowFacts,
    signals: ContextSignals,
) -> Seq<CandidateView> {
    let pending = pending_imports(
        expansion,
        seed_list(candidates, views(expansion.queries@), facts.import_scores@),
        views(facts.import_targets@),
        facts.import_targets@.len() as int,
    );
    if signals.import_neighbor {
        with_imports(
            candidates,
            expansion,
            views(facts.import_targets@),
            pending,
            excerpts(facts.import_excerpts@),
            pending.len() as int,
        ).candidates
    } else {
        candidates
    }
}

/// The candidates with the marks of importing files, where the signal is on.
pub open spec fn marked(
    candidates: Seq<CandidateView>,
    importers: Seq<Seq<char>>,
    signals: ContextSignals,
) -> Seq<CandidateView> {
    if signals.reverse_dependency {
        Seq::new(candidates.len(), |i: int| with_importer(candidates[i], importers))
    } else {
        candidates
    }
}

/// Where a request is gathered from: `queries` tells how a query is searched for,
/// `constraints` reads what constraints look up, `adaptive` and `stored` excerpts,
/// `focus` what the files of focus patterns hold, `workflow` the indexed files and
/// whether the path rules of a request let each in, `imports` what followed paths
/// import, and `importers` what imports them. `scores` ranks candidates.
pub struct ContextPorts<P, C, X, T, O, W, L, I, H> {
    pub queries: P,
    pub constraints: C,
    pub adaptive: X,
    pub stored: T,
    pub focus: O,
    pub workflow: W,
    pub scores: L,
    pub imports: I,
    pub importers: H,
}

/// Whether everything can be asked.
pub open spec fn context_answers<
    V: Fn(&str) -> Result<(), Error>,
    Y: Fn(usize, usize) -> Result<Vec<SymbolHit>, Error>,
    Z: Fn(usize, usize) -> Result<Vec<ReferenceHit>, Error>,
    Q: Fn(LexicalSearch, &str, usize, usize) -> Result<Vec<ChunkHit>, Error>,
    G: Fn() -> Result<FullScan, Error>,
    A: Fn(&str) -> bool,
    K: Fn(&Vec<String>, Error) -> Result<Vec<String>, Error>,
    N: Fn(&Vec<FileLine>) -> Result<Vec<Option<LineRange>>, Error>,
    E: Fn(&Vec<AdaptiveExcerptRequest>) -> Result<Vec<Option<StoredExcerpt>>, Error>,
    D: Fn(&Vec<StoredExcerptRequest>) -> Result<Vec<Option<StoredExcerpt>>, Error>,
    F: Fn(&StoredExcerpt, usize, usize, usize) -> Option<StoredExcerpt>,
    P: Fn(&ContextQuery) -> QuerySearch<V, Y, Z, Q, G, A, K, N, E, D, F>,
    C: Fn(&ContextRequest) -> Result<ConstraintLookups, Error>,
    X: Fn(&Vec<AdaptiveExcerptRequest>) -> Result<Vec<Option<StoredExcerpt>>, Error>,
    T: Fn(&Vec<StoredExcerptRequest>) -> Result<Vec<Option<StoredExcerpt>>, Error>,
    O: Fn(&Vec<FocusScan>) -> Result<Vec<Vec<FocusContent>>, Error>,
    W: Fn(&ContextRequest) -> Result<(Vec<IndexedFile>, Vec<bool>), Error>,
    L: Fn(&Vec<Candidate>) -> Vec<u64>,
    I: Fn(&Vec<String>) -> Result<Vec<ImportTarget>, Error>,
    H: Fn(&Vec<String>) -> Result<Vec<String>, Error>,
>(ports: ContextPorts<P, C, X, T, O, W, L, I, H>) -> bool {
    &&& searches_all(ports.queries)
    &&& forall|request: &ContextRequest| call_requires(ports.constraints, (request,))
    &&& forall|list: &Vec<AdaptiveExcerptRequest>| call_requires(ports.adaptive, (list,))
    &&& forall|list: &Vec<StoredExcerptRequest>| call_requires(ports.stored, (list,))
    &&& forall|list: &Vec<FocusScan>| call_requires(ports.focus, (list,))
    &&& forall|request: &ContextRequest| call_requires(ports.workflow, (request,))
    &&& forall|list: &Vec<Candidate>| call_requires(ports.scores, (list,))
    &&& forall|list: &Vec<String>| call_requires(ports.imports, (list,))
    &&& forall|list: &Vec<String>| call_requires(ports.importers, (list,))
}

/// Whether these may be what the files of focus patterns hold.
pub open spec fn focus_said<
    O: Fn(&Vec<FocusScan>) -> Result<Vec<Vec<FocusContent>>, Error>,
>(focus: O, scans: Seq<FocusScanView>, said: Result<Vec<Vec<FocusContent>>, Error>) -> bool {
    exists|list: &Vec<FocusScan>|
        (#[trigger] call_ensures(focus, (list,), said)) && views(list@) == scans
}

/// Whether candidates may be ranked so.
pub open spec fn scores_said<
    L: Fn(&Vec<Candidate>) -> Vec<u64>,
>(scores: L, candidates: Seq<CandidateView>, said: Vec<u64>) -> bool {
    exists|list: &Vec<Candidate>|
        (#[trigger] call_ensures(scores, (list,), said)) && views(list@) == candidates
}

/// Whether these may be what paths import.
pub open spec fn imports_said<
    I: Fn(&Vec<String>) -> Result<Vec<ImportTarget>, Error>,
>(imports: I, paths: Seq<Seq<char>>, said: Result<Vec<ImportTarget>, Error>) -> bool {
    exists|list: &Vec<String>|
        (#[trigger] call_ensures(imports, (list,), said)) && texts(list@) == paths
}

/// Whether these may be what imports paths.
pub open spec fn importers_said<
    H: Fn(&Vec<String>) -> Result<Vec<String>, Error>,
>(importers: H, paths: Seq<Seq<char>>, said: Result<Vec<String>, Error>) -> bool {
    exists|list: &Vec<String>|
        (#[trigger] call_ensures(importers, (list,), said)) && texts(list@) == paths
}

/// The excerpts of required symbols that are asked for.
pub open spec fn symbols_asked(
    request: ContextRequest,
    hits: Seq<Vec<ExactHit>>,
) -> Seq<AdaptiveExcerptRequest> {
    required_symbol_requests(
        required_symbols(
            texts(request.must_include_symbols@),
            exact_names(request),
            hits,
            request.must_include_symbols@.len() as int,
        ),
        request.token_budget,
    )
}

/// Whether the constraints of a request may be answered so: the excerpts are those of
/// the symbols that were found.
pub open spec fn constraints_told<
    C: Fn(&ContextRequest) -> Result<ConstraintLookups, Error>,
    X: Fn(&Vec<AdaptiveExcerptRequest>) -> Result<Vec<Option<StoredExcerpt>>, Error>,
>(constraints: C, adaptive: X, request: ContextRequest, facts: ConstraintFacts) -> bool {
    exists|lookups: ConstraintLookups|
        {
            &&& #[trigger] call_ensures(
                constraints,
                (&request,),
                Ok::<ConstraintLookups, Error>(lookups),
            )
            &&& facts == constraint_facts(lookups, facts.symbol_excerpts)
            &&& adaptive_said(
                adaptive,
                symbols_asked(request, lookups.exact_hits@),
                Ok(facts.symbol_excerpts),
            )
        }
}

/// Whether the constraints of a request may fail to be answered so.
pub open spec fn constraints_lost<
    C: Fn(&ContextRequest) -> Result<ConstraintLookups, Error>,
    X: Fn(&Vec<AdaptiveExcerptRequest>) -> Result<Vec<Option<StoredExcerpt>>, Error>,
>(constraints: C, adaptive: X, request: ContextRequest, error: Error) -> bool {
    ||| call_ensures(constraints, (&request,), Err::<ConstraintLookups, Error>(error))
    ||| exists|lookups: ConstraintLookups|
        {
            &&& #[trigger] call_ensures(
                constraints,
                (&request,),
                Ok::<ConstraintLookups, Error>(lookups),
            )
            &&& adaptive_said(
                adaptive,
                symbols_asked(request, lookups.exact_hits@),
                Err(error),
            )
        }
}

fn read_constraints<
    C: Fn(&ContextRequest) -> Result<ConstraintLookups, Error>,
    X: Fn(&Vec<AdaptiveExcerptRequest>) -> Result<Vec<Option<StoredExcerpt>>, Error>,
>(constraints: &C, adaptive: &X, request: &ContextRequest) -> (r: Result<ConstraintFacts, Error>)
    requires
        forall|asked: &ContextRequest| call_requires(*constraints, (asked,)),
        forall|list: &Vec<AdaptiveExcerptRequest>| call_requires(*adaptive, (list,)),
    ensures
        match r {
            Ok(facts) => constraints_told(*constraints, *adaptive, *request, facts),
            Err(e) => constraints_lost(*constraints, *adaptive, *request, e),
        },
{
    let lookups = match constraints(request) {
        Ok(lookups) => lookups,
        Err(e) => {
            return Err(e);
        },
    };
    let ghost found = lookups;
    assert(call_ensures(*constraints, (request,), Ok::<ConstraintLookups, Error>(found)));
    let requests = required_symbol_excerpt_requests(request, &lookups.exact_hits);
    let shown = match adaptive(&requests) {
        Ok(shown) => shown,
        Err(e) => {
            assert(adaptive_said(*adaptive, requests@, Err(e)));
            return Err(e);
        },
    };
    assert(adaptive_said(*adaptive, requests@, Ok(shown)));
    let facts = ConstraintFacts {
        files: lookups.files,
        required_chunks: lookups.required_chunks,
        beginnings: lookups.beginnings,
        exact_hits: lookups.exact_hits,
        symbol_excerpts: shown,
        evidence_chunks: lookups.evidence_chunks,
        evidence_excerpts: lookups.evidence_excerpts,
    };
    assert(facts == constraint_facts(found, facts.symbol_excerpts));
    Ok(facts)
}

/// What was gathered of constraints, focus patterns and queries.
struct SearchedContext {
    gathered: Gathered,
    coverage: ContextCoverageReceipt,
    warnings: Vec<String>,
    resolutions: Vec<FocusPathResolution>,
    contents: Ghost<Vec<Vec<FocusContent>>>,
    evidence: Ghost<Seq<QueryEvidence>>,
    warned: Ghost<Seq<Seq<Seq<char>>>>,
}

/// Gathers what constraints, focus patterns and queries bring.
#[verifier::rlimit(60)]
fn gather_queries<
    V: Fn(&str) -> Result<(), Error>,
    Y: Fn(usize, usize) -> Result<Vec<SymbolHit>, Error>,
    Z: Fn(usize, usize) -> Result<Vec<ReferenceHit>, Error>,
    Q: Fn(LexicalSearch, &str, usize, usize) -> Result<Vec<ChunkHit>, Error>,
    G: Fn() -> Result<FullScan, Error>,
    A: Fn(&str) -> bool,
    K: Fn(&Vec<String>, Error) -> Result<Vec<String>, Error>,
    N: Fn(&Vec<FileLine>) -> Result<Vec<Option<LineRange>>, Error>,
    E: Fn(&Vec<AdaptiveExcerptRequest>) -> Result<Vec<Option<StoredExcerpt>>, Error>,
    D: Fn(&Vec<StoredExcerptRequest>) -> Result<Vec<Option<StoredExcerpt>>, Error>,
    F: Fn(&StoredExcerpt, usize, usize, usize) -> Option<StoredExcerpt>,
    P: Fn(&ContextQuery) -> QuerySearch<V, Y, Z, Q, G, A, K, N, E, D, F>,
    O: Fn(&Vec<FocusScan>) -> Result<Vec<Vec<FocusContent>>, Error>,
>(
    prepared: &PreparedContext,
    plan: &FacetPlan,
    vocabulary: &Vocabulary,
    constraints: ConstraintFacts,
    focus: &O,
    ask: &P,
    strict: &Option<Vec<String>>,
    caller: bool,
    scorer: &ContextPathScorer,
    phases: &mut ContextPhaseTracker,
    cancellation: &CancellationToken,
) -> (r: Result<SearchedContext, Error>)
    requires
        searches_all(*ask),
        forall|list: &Vec<FocusScan>| call_requires(*focus, (list,)),
    ensures
        match r {
            Ok(done) => {
                let found = searched_for(
                    old(phases)@,
                    *prepared,
                    *plan,
                    *vocabulary,
                    constraints,
                    done.evidence@,
                    caller,
                    *scorer,
                    done.resolutions,
                );
                let scans = focus_scans(prepared.scoped_request, views(constraints.files@));
                &&& done.gathered@ == found.gathered
                &&& final(phases)@ == found.tracker
                &&& done.coverage@ == constraint_coverage(prepared.scoped_request, constraints)
                &&& focus_said(*focus, scans, Ok(done.contents@))
                &&& views(done.resolutions@) == resolutions_of(scans, done.contents@@)
                &&& queries_told(
                    *ask,
                    *prepared,
                    plan.queries@,
                    *strict,
                    *scorer,
                    *vocabulary,
                    caller,
                    done.evidence@,
                    done.warned@,
                )
                &&& done.warned@[0] == constrained(
                    old(phases)@,
                    *prepared,
                    *plan,
                    constraints,
                    *scorer,
                    done.resolutions,
                ).warnings
                &&& done.warned@.last() == texts(done.warnings@)
            },
            Err(e) => {
                ||| focus_said(
                    *focus,
                    focus_scans(prepared.scoped_request, views(constraints.files@)),
                    Err(e),
                )
                ||| query_lost(
                    *ask,
                    *prepared,
                    plan.queries@,
                    *scorer,
                    *vocabulary,
                    caller,
                    *cancellation,
                    e,
                )
            },
        },
{
    phases.counters.queries_planned = plan.queries.len();
    phases.counters.queries_executed = count_searched(&plan.queries);
    let mut candidates: Vec<Candidate> = Vec::new();
    assert(views(candidates@) =~= Seq::<CandidateView>::empty());
    let request = &prepared.scoped_request;
    let expansion = ConstraintExpansion { request, queries: &plan.queries, path_scorer: scorer };
    let (coverage, scans) = Services::append_constraint_candidates(
        &expansion,
        constraints,
        &mut candidates,
        phases,
    );
    let contents = match focus(&scans) {
        Ok(contents) => contents,
        Err(e) => {
            assert(focus_said(*focus, views(scans@), Err(e)));
            return Err(e);
        },
    };
    let ghost held = contents;
    assert(focus_said(*focus, views(scans@), Ok(held)));
    let resolutions = resolve_patterns(&scans, contents);
    let expansion = FocusExpansion {
        request,
        queries: &plan.queries,
        path_scorer: scorer,
        resolutions: &resolutions,
    };
    let mut warnings = Services::append_focus_candidates(&expansion, &mut candidates, phases);
    let mut gathered = Gathered { candidates, fusion: Vec::new(), path_excluded: Vec::new() };
    proof {
        assert(gathered@.fusion =~= Seq::<FusionView>::empty());
        assert(gathered@.path_excluded =~= Seq::<Seq<char>>::empty());
    }
    let (searched, evidence, warned) = run_queries(
        prepared,
        &plan.queries,
        ask,
        strict,
        scorer,
        vocabulary,
        caller,
        &mut gathered,
        &mut warnings,
        phases,
        cancellation,
    );
    match searched {
        Ok(_) => Ok(
            SearchedContext {
                gathered,
                coverage,
                warnings,
                resolutions,
                contents: Ghost(held),
                evidence,
                warned,
            },
        ),
        Err(e) => Err(e),
    }
}

/// Whether the files of a workflow, and the lines that are shown of them, may be
/// answered so.
pub open spec fn workflow_told<
    W: Fn(&ContextRequest) -> Result<(Vec<IndexedFile>, Vec<bool>), Error>,
    T: Fn(&Vec<StoredExcerptRequest>) -> Result<Vec<Option<StoredExcerpt>>, Error>,
>(
    workflow: W,
    stored: T,
    request: ContextRequest,
    files: Vec<IndexedFile>,
    allowed: Vec<bool>,
    shown: Vec<Option<StoredExcerpt>>,
) -> bool {
    &&& call_ensures(
        workflow,
        (&request,),
        Ok::<(Vec<IndexedFile>, Vec<bool>), Error>((files, allowed)),
    )
    &&& stored_said(
        stored,
        workflow_lines(workflow_shown(scanned(request, views(files@), allowed@))),
        Ok(shown),
    )
}

/// Whether the files of a workflow may fail to be answered so.
pub open spec fn workflow_lost<
    W: Fn(&ContextRequest) -> Result<(Vec<IndexedFile>, Vec<bool>), Error>,
    T: Fn(&Vec<StoredExcerptRequest>) -> Result<Vec<Option<StoredExcerpt>>, Error>,
>(workflow: W, stored: T, request: ContextRequest, error: Error) -> bool {
    ||| call_ensures(
        workflow,
        (&request,),
        Err::<(Vec<IndexedFile>, Vec<bool>), Error>(error),
    )
    ||| exists|files: Vec<IndexedFile>, allowed: Vec<bool>|
        {
            &&& #[trigger] call_ensures(
                workflow,
                (&request,),
                Ok::<(Vec<IndexedFile>, Vec<bool>), Error>((files, allowed)),
            )
            &&& stored_said(
                stored,
                workflow_lines(workflow_shown(scanned(request, views(files@), allowed@))),
                Err(error),
            )
        }
}

/// The files of a workflow, whether each is let in, and the lines that are shown.
struct WorkflowFacts {
    files: Vec<IndexedFile>,
    allowed: Vec<bool>,
    shown: Vec<Option<StoredExcerpt>>,
}

fn read_workflow<
    W: Fn(&ContextRequest) -> Result<(Vec<IndexedFile>, Vec<bool>), Error>,
    T: Fn(&Vec<StoredExcerptRequest>) -> Result<Vec<Option<StoredExcerpt>>, Error>,
>(workflow: &W, stored: &T, request: &ContextRequest) -> (r: Result<WorkflowFacts, Error>)
    requires
        forall|asked: &ContextRequest| call_requires(*workflow, (asked,)),
        forall|list: &Vec<StoredExcerptRequest>| call_requires(*stored, (list,)),
    ensures
        match r {
            Ok(facts) => workflow_told(
                *workflow,
                *stored,
                *request,
                facts.files,
                facts.allowed,
                facts.shown,
            ),
            Err(e) => workflow_lost(*workflow, *stored, *request, e),
        },
{
    let (files, allowed) = match workflow(request) {
        Ok(found) => found,
        Err(e) => {
            return Err(e);
        },
    };
    assert(call_ensures(
        *workflow,
        (request,),
        Ok::<(Vec<IndexedFile>, Vec<bool>), Error>((files, allowed)),
    ));
    let requests = workflow_excerpt_requests(request, &files, &allowed);
    match stored(&requests) {
        Ok(shown) => {
            assert(stored_said(*stored, requests@, Ok(shown)));
            Ok(WorkflowFacts { files, allowed, shown })
        },
        Err(e) => {
            assert(stored_said(*stored, requests@, Err(e)));
            Err(e)
        },
    }
}

/// Whether what followed paths import, and the excerpts that are shown of it, may be
/// answered so.
pub open spec fn imports_told<
    L: Fn(&Vec<Candidate>) -> Vec<u64>,
    I: Fn(&Vec<String>) -> Result<Vec<ImportTarget>, Error>,
    X: Fn(&Vec<AdaptiveExcerptRequest>) -> Result<Vec<Option<StoredExcerpt>>, Error>,
>(
    scores: L,
    imports: I,
    adaptive: X,
    expansion: ImportExpansion<'_>,
    candidates: Seq<CandidateView>,
    ranks: Vec<u64>,
    targets: Vec<ImportTarget>,
    shown: Vec<Option<StoredExcerpt>>,
) -> bool {
    let seeds = seed_list(candidates, views(expansion.queries@), ranks@);
    let pending = pending_imports(
        expansion,
        seeds,
        views(targets@),
        targets@.len() as int,
    );
    &&& scores_said(scores, candidates, ranks)
    &&& imports_said(imports, requested_paths(seeds), Ok(targets))
    &&& adaptive_said(
        adaptive,
        import_requests(views(targets@), pending, expansion.request.token_budget),
        Ok(shown),
    )
}

/// Whether what followed paths import may fail to be answered so.
pub open spec fn imports_lost<
    L: Fn(&Vec<Candidate>) -> Vec<u64>,
    I: Fn(&Vec<String>) -> Result<Vec<ImportTarget>, Error>,
    X: Fn(&Vec<AdaptiveExcerptRequest>) -> Result<Vec<Option<StoredExcerpt>>, Error>,
>(
    scores: L,
    imports: I,
    adaptive: X,
    expansion: ImportExpansion<'_>,
    candidates: Seq<CandidateView>,
    error: Error,
) -> bool {
    exists|ranks: Vec<u64>|
        {
            let seeds = seed_list(candidates, views(expansion.queries@), ranks@);
            &&& #[trigger] scores_said(scores, candidates, ranks)
            &&& {
                ||| imports_said(imports, requested_paths(seeds), Err(error))
                ||| exists|targets: Vec<ImportTarget>|
                    {
                        &&& #[trigger] imports_said(imports, requested_paths(seeds), Ok(targets))
                        &&& adaptive_said(
                            adaptive,
                            import_requests(
                                views(targets@),
                                pending_imports(
                                    expansion,
                                    seeds,
                                    views(targets@),
                                    targets@.len() as int,
                                ),
                                expansion.request.token_budget,
                            ),
                            Err(error),
                        )
                    }
            }
        }
}

/// The scores of candidates, what they import and the excerpts that are shown.
struct ImportFacts {
    ranks: Vec<u64>,
    targets: Vec<ImportTarget>,
    shown: Vec<Option<StoredExcerpt>>,
}

fn read_imports<
    L: Fn(&Vec<Candidate>) -> Vec<u64>,
    I: Fn(&Vec<String>) -> Result<Vec<ImportTarget>, Error>,
    X: Fn(&Vec<AdaptiveExcerptRequest>) -> Result<Vec<Option<StoredExcerpt>>, Error>,
>(
    scores: &L,
    imports: &I,
    adaptive: &X,
    expansion: &ImportExpansion<'_>,
    candidates: &Vec<Candidate>,
) -> (r: Result<ImportFacts, Error>)
    requires
        forall|list: &Vec<Candidate>| call_requires(*scores, (list,)),
        forall|list: &Vec<String>| call_requires(*imports, (list,)),
        forall|list: &Vec<AdaptiveExcerptRequest>| call_requires(*adaptive, (list,)),
    ensures
        match r {
            Ok(facts) => imports_told(
                *scores,
                *imports,
                *adaptive,
                *expansion,
                views(candidates@),
                facts.ranks,
                facts.targets,
                facts.shown,
            ),
            Err(e) => imports_lost(
                *scores,
                *imports,
                *adaptive,
                *expansion,
                views(candidates@),
                e,
            ),
        },
{
    let ranks = scores(candidates);
    assert(scores_said(*scores, views(candidates@), ranks));
    let seeds = import_seed_paths(candidates, expansion.queries, &ranks);
    let paths = import_requested_paths(&seeds);
    let targets = match imports(&paths) {
        Ok(targets) => targets,
        Err(e) => {
            assert(imports_said(*imports, texts(paths@), Err(e)));
            return Err(e);
        },
    };
    assert(imports_said(*imports, texts(paths@), Ok(targets)));
    let pending = pending_import_symbols(expansion, &seeds, &targets);
    let requests = import_excerpt_requests(expansion, &targets, &pending);
    match adaptive(&requests) {
        Ok(shown) => {
            assert(adaptive_said(*adaptive, requests@, Ok(shown)));
            Ok(ImportFacts { ranks, targets, shown })
        },
        Err(e) => {
            assert(adaptive_said(*adaptive, requests@, Err(e)));
            Err(e)
        },
    }
}

/// Whether what imports the paths of candidates may be answered so.
pub open spec fn importers_told<
    L: Fn(&Vec<Candidate>) -> Vec<u64>,
    H: Fn(&Vec<String>) -> Result<Vec<String>, Error>,
>(
    scores: L,
    importers: H,
    queries: Seq<QueryView>,
    candidates: Seq<CandidateView>,
    ranks: Vec<u64>,
    said: Result<Vec<String>, Error>,
) -> bool {
    &&& scores_said(scores, candidates, ranks)
    &&& importers_said(importers, requested_paths(seed_list(candidates, queries, ranks@)), said)
}

fn read_importers<
    L: Fn(&Vec<Candidate>) -> Vec<u64>,
    H: Fn(&Vec<String>) -> Result<Vec<String>, Error>,
>(
    scores: &L,
    importers: &H,
    queries: &Vec<ContextQuery>,
    candidates: &Vec<Candidate>,
) -> (r: (Result<Vec<String>, Error>, Vec<u64>))
    requires
        forall|list: &Vec<Candidate>| call_requires(*scores, (list,)),
        forall|list: &Vec<String>| call_requires(*importers, (list,)),
    ensures
        importers_told(
            *scores,
            *importers,
            views(queries@),
            views(candidates@),
            r.1,
            r.0,
        ),
{
    let ranks = scores(candidates);
    assert(scores_said(*scores, views(candidates@), ranks));
    let seeds = import_seed_paths(candidates, queries, &ranks);
    let paths = import_requested_paths(&seeds);
    let said = importers(&paths);
    assert(importers_said(*importers, texts(paths@), said));
    (said, ranks)
}

/// Whether the index may answer so to what the searches of a request led to: `first`
/// are its candidates with those of its workflow, `second` also with those of imports.
pub open spec fn follow_told<
    W: Fn(&ContextRequest) -> Result<(Vec<IndexedFile>, Vec<bool>), Error>,
    T: Fn(&Vec<StoredExcerptRequest>) -> Result<Vec<Option<StoredExcerpt>>, Error>,
    L: Fn(&Vec<Candidate>) -> Vec<u64>,
    I: Fn(&Vec<String>) -> Result<Vec<ImportTarget>, Error>,
    X: Fn(&Vec<AdaptiveExcerptRequest>) -> Result<Vec<Option<StoredExcerpt>>, Error>,
    H: Fn(&Vec<String>) -> Result<Vec<String>, Error>,
>(
    workflow: W,
    stored: T,
    scores: L,
    imports: I,
    adaptive: X,
    importers: H,
    prepared: PreparedContext,
    expansion: ImportExpansion<'_>,
    signals: ContextSignals,
    first: Seq<CandidateView>,
    second: Seq<CandidateView>,
    facts: FollowFacts,
) -> bool {
    &&& asks_for_files(resolved_workflow(prepared.workflow, prepared.request.task@))
        ==> workflow_told(
        workflow,
        stored,
        prepared.scoped_request,
        facts.workflow_files,
        facts.workflow_allowed,
        facts.workflow_excerpts,
    )
    &&& signals.import_neighbor ==> imports_told(
        scores,
        imports,
        adaptive,
        expansion,
        first,
        facts.import_scores,
        facts.import_targets,
        facts.import_excerpts,
    )
    &&& signals.reverse_dependency ==> importers_told(
        scores,
        importers,
        views(expansion.queries@),
        second,
        facts.importer_scores,
        Ok(facts.importers),
    )
}

/// Whether the index may fail to answer to what the searches of a request led to:
/// `facts` are the answers before.
pub open spec fn follow_lost<
    W: Fn(&ContextRequest) -> Result<(Vec<IndexedFile>, Vec<bool>), Error>,
    T: Fn(&Vec<StoredExcerptRequest>) -> Result<Vec<Option<StoredExcerpt>>, Error>,
    L: Fn(&Vec<Candidate>) -> Vec<u64>,
    I: Fn(&Vec<String>) -> Result<Vec<ImportTarget>, Error>,
    X: Fn(&Vec<AdaptiveExcerptRequest>) -> Result<Vec<Option<StoredExcerpt>>, Error>,
    H: Fn(&Vec<String>) -> Result<Vec<String>, Error>,
>(
    workflow: W,
    stored: T,
    scores: L,
    imports: I,
    adaptive: X,
    importers: H,
    prepared: PreparedContext,
    expansion: ImportExpansion<'_>,
    signals: ContextSignals,
    found: GatheredView,
    facts: FollowFacts,
    error: Error,
) -> bool {
    let asks = asks_for_files(resolved_workflow(prepared.workflow, prepared.request.task@));
    let first = worked(fused(found), prepared, facts);
    ||| asks && workflow_lost(workflow, stored, prepared.scoped_request, error)
    ||| {
        &&& asks ==> workflow_told(
            workflow,
            stored,
            prepared.scoped_request,
            facts.workflow_files,
            facts.workflow_allowed,
            facts.workflow_excerpts,
        )
        &&& {
            ||| signals.import_neighbor && imports_lost(
                scores,
                imports,
                adaptive,
                expansion,
                first,
                error,
            )
            ||| {
                &&& signals.reverse_dependency
                &&& signals.import_neighbor ==> imports_told(
                    scores,
                    imports,
                    adaptive,
                    expansion,
                    first,
                    facts.import_scores,
                    facts.import_targets,
                    facts.import_excerpts,
                )
                &&& importers_told(
                    scores,
                    importers,
                    views(expansion.queries@),
                    imported(first, expansion, facts, signals),
                    facts.importer_scores,
                    Err(error),
                )
            }
        }
    }
}

/// What was gathered once the searches of a request were done.
struct FollowedContext {
    candidates: Vec<Candidate>,
    path_excluded: Vec<String>,
    workflow: ContextWorkflow,
    workflow_receipt: Option<WorkflowReceipt>,
    facts: FollowFacts,
}

/// Adds what a workflow and imports bring to what the searches of a request found.
#[verifier::rlimit(60)]
fn follow_request<
    W: Fn(&ContextRequest) -> Result<(Vec<IndexedFile>, Vec<bool>), Error>,
    T: Fn(&Vec<StoredExcerptRequest>) -> Result<Vec<Option<StoredExcerpt>>, Error>,
    L: Fn(&Vec<Candidate>) -> Vec<u64>,
    I: Fn(&Vec<String>) -> Result<Vec<ImportTarget>, Error>,
    X: Fn(&Vec<AdaptiveExcerptRequest>) -> Result<Vec<Option<StoredExcerpt>>, Error>,
    H: Fn(&Vec<String>) -> Result<Vec<String>, Error>,
>(
    workflow_files: &W,
    stored: &T,
    scores: &L,
    imports: &I,
    adaptive: &X,
    importing: &H,
    prepared: &PreparedContext,
    expansion: &ImportExpansion<'_>,
    signals: ContextSignals,
    gathered: Gathered,
) -> (r: Result<FollowedContext, Error>)
    requires
        forall|asked: &ContextRequest| call_requires(*workflow_files, (asked,)),
        forall|list: &Vec<StoredExcerptRequest>| call_requires(*stored, (list,)),
        forall|list: &Vec<Candidate>| call_requires(*scores, (list,)),
        forall|list: &Vec<String>| call_requires(*imports, (list,)),
        forall|list: &Vec<AdaptiveExcerptRequest>| call_requires(*adaptive, (list,)),
        forall|list: &Vec<String>| call_requires(*importing, (list,)),
        expansion.request == &prepared.request,
        expansion.changed_paths == &prepared.changed_paths,
    ensures
        match r {
            Ok(done) => {
                let workflow = resolved_workflow(prepared.workflow, prepared.request.task@);
                let files = first_of(
                    views(done.facts.workflow_files@),
                    MAX_WORKFLOW_SCAN_FILES as int,
                );
                let first = worked(fused(gathered@), *prepared, done.facts);
                let second = imported(first, *expansion, done.facts, signals);
                &&& follow_told(
                    *workflow_files,
                    *stored,
                    *scores,
                    *imports,
                    *adaptive,
                    *importing,
                    *prepared,
                    *expansion,
                    signals,
                    first,
                    second,
                    done.facts,
                )
                &&& views(done.candidates@) == marked(
                    second,
                    texts(done.facts.importers@),
                    signals,
                )
                &&& texts(done.path_excluded@) == gathered@.path_excluded + if asks_for_files(
                    workflow,
                ) {
                    barred(
                        prepared.scoped_request,
                        files,
                        done.facts.workflow_allowed@,
                        files.len() as int,
                    )
                } else {
                    Seq::empty()
                }
                &&& done.workflow == workflow
                &&& optional_view(done.workflow_receipt) == if asks_for_files(workflow) {
                    Some(
                        workflow_tally(
                            scanned(
                                prepared.scoped_request,
                                views(done.facts.workflow_files@),
                                done.facts.workflow_allowed@,
                            ),
                            done.facts.workflow_files@.len() > MAX_WORKFLOW_SCAN_FILES,
                        ),
                    )
                } else {
                    None
                }
            },
            Err(e) => exists|facts: FollowFacts|
                #[trigger] follow_lost(
                    *workflow_files,
                    *stored,
                    *scores,
                    *imports,
                    *adaptive,
                    *importing,
                    *prepared,
                    *expansion,
                    signals,
                    gathered@,
                    facts,
                    e,
                ),
        },
{
    let ghost found = gathered@;
    let mut candidates = apply_query_fusion(gathered.candidates, &gathered.fusion);
    assert(views(candidates@) =~= fused(found));
    let mut path_excluded = gathered.path_excluded;
    let ghost known = texts(path_excluded@);
    let workflow = resolve_context_workflow(prepared.workflow, prepared.request.task.as_str());
    let asks = match workflow {
        ContextWorkflow::Contribution => true,
        ContextWorkflow::Review => true,
        _ => false,
    };
    let files = if asks {
        match read_workflow(workflow_files, stored, &prepared.scoped_request) {
            Ok(facts) => facts,
            Err(e) => {
                let ghost known_facts: FollowFacts = vstd::pervasive::arbitrary();
                assert(follow_lost(
                    *workflow_files,
                    *stored,
                    *scores,
                    *imports,
                    *adaptive,
                    *importing,
                    *prepared,
                    *expansion,
                    signals,
                    found,
                    known_facts,
                    e,
                ));
                return Err(e);
            },
        }
    } else {
        WorkflowFacts { files: Vec::new(), allowed: Vec::new(), shown: Vec::new() }
    };
    let (workflow_receipt, mut barred_paths) = Services::append_workflow_candidates(
        &prepared.scoped_request,
        workflow,
        &files.files,
        &files.allowed,
        &files.shown,
        &mut candidates,
    );
    let ghost first = views(candidates@);
    let ghost more = texts(barred_paths@);
    path_excluded.append(&mut barred_paths);
    assert(texts(path_excluded@) =~= known + more);
    assert(!asks ==> more =~= Seq::<Seq<char>>::empty());
    let followed = if signals.import_neighbor {
        match read_imports(scores, imports, adaptive, expansion, &candidates) {
            Ok(facts) => facts,
            Err(e) => {
                let ghost any: FollowFacts = vstd::pervasive::arbitrary();
                let ghost known_facts = FollowFacts {
                    workflow_files: files.files,
                    workflow_allowed: files.allowed,
                    workflow_excerpts: files.shown,
                    ..any
                };
                assert(first == worked(fused(found), *prepared, known_facts));
                assert(imports_lost(*scores, *imports, *adaptive, *expansion, first, e));
                assert(follow_lost(
                    *workflow_files,
                    *stored,
                    *scores,
                    *imports,
                    *adaptive,
                    *importing,
                    *prepared,
                    *expansion,
                    signals,
                    found,
                    known_facts,
                    e,
                ));
                return Err(e);
            },
        }
    } else {
        ImportFacts { ranks: Vec::new(), targets: Vec::new(), shown: Vec::new() }
    };
    if signals.import_neighbor {
        Services::append_import_symbol_candidates(
            expansion,
            &followed.ranks,
            &followed.targets,
            &followed.shown,
            &mut candidates,
        );
    }
    let ghost second = views(candidates@);
    let (importers, importer_scores) = if signals.reverse_dependency {
        let (said, ranks) = read_importers(scores, importing, expansion.queries, &candidates);
        match said {
            Ok(list) => (list, ranks),
            Err(e) => {
                let ghost any: FollowFacts = vstd::pervasive::arbitrary();
                let ghost known_facts = FollowFacts {
                    workflow_files: files.files,
                    workflow_allowed: files.allowed,
                    workflow_excerpts: files.shown,
                    import_scores: followed.ranks,
                    import_targets: followed.targets,
                    import_excerpts: followed.shown,
                    importer_scores: ranks,
                    ..any
                };
                assert(first == worked(fused(found), *prepared, known_facts));
                assert(second == imported(first, *expansion, known_facts, signals));
                assert(follow_lost(
                    *workflow_files,
                    *stored,
                    *scores,
                    *imports,
                    *adaptive,
                    *importing,
                    *prepared,
                    *expansion,
                    signals,
                    found,
                    known_facts,
                    e,
                ));
                return Err(e);
            },
        }
    } else {
        (Vec::new(), Vec::new())
    };
    let candidates = if signals.reverse_dependency {
        Services::apply_reverse_dependency_boost(candidates, &importers)
    } else {
        candidates
    };
    assert(views(candidates@) =~= marked(second, texts(importers@), signals));
    let facts = FollowFacts {
        workflow_files: files.files,
        workflow_allowed: files.allowed,
        workflow_excerpts: files.shown,
        import_scores: followed.ranks,
        import_targets: followed.targets,
        import_excerpts: followed.shown,
        importer_scores,
        importers,
    };
    assert(first == worked(fused(found), *prepared, facts));
    assert(second == imported(first, *expansion, facts, signals));
    Ok(FollowedContext { candidates, path_excluded, workflow, workflow_receipt, facts })
}

/// The work of gathering a request: its plan, the scorer of paths, the terms of its
/// queries, what its focus patterns come to, the changed paths that it is held to, and
/// the warnings behind each query.
pub struct GatheringWork {
    pub plan: FacetPlan,
    pub scorer: ContextPathScorer,
    pub terms: Vec<String>,
    pub resolutions: Vec<FocusPathResolution>,
    pub strict: Option<Vec<String>>,
    pub warned: Seq<Seq<Seq<char>>>,
}

/// Whether the work on a request begins so.
pub open spec fn work_begins(
    prepared: PreparedContext,
    vocabulary: Vocabulary,
    work: GatheringWork,
) -> bool {
    &&& views(work.plan.queries@) == planned_with_evidence(
        prepared.request.task@,
        prepared.workflow_evidence,
        MAX_CONTEXT_QUERIES,
        vocabulary,
    )
    &&& texts(work.terms@) == query_terms(work.plan.queries@)
    &&& work.scorer@ == scorer_of(
        query_terms(work.plan.queries@),
        prepared.request.task@,
        vocabulary,
    )
    &&& changes(work.strict) == if prepared.request.strict_changed_paths {
        Some(texts(prepared.scoped_request.changed_paths@))
    } else {
        None
    }
}

/// What the searches of a request bring.
pub open spec fn work_searched(
    tracker: TrackerView,
    prepared: PreparedContext,
    vocabulary: Vocabulary,
    signals: ContextSignals,
    work: GatheringWork,
    facts: ContextFacts,
) -> SearchView {
    searched_for(
        tracker,
        prepared,
        work.plan,
        vocabulary,
        facts.constraints,
        facts.queries,
        signals.caller,
        work.scorer,
        work.resolutions,
    )
}

/// Whether the index may answer so to the constraints, focus patterns and queries of a
/// request.
pub open spec fn search_told<
    V: Fn(&str) -> Result<(), Error>,
    Y: Fn(usize, usize) -> Result<Vec<SymbolHit>, Error>,
    Z: Fn(usize, usize) -> Result<Vec<ReferenceHit>, Error>,
    Q: Fn(LexicalSearch, &str, usize, usize) -> Result<Vec<ChunkHit>, Error>,
    G: Fn() -> Result<FullScan, Error>,
    A: Fn(&str) -> bool,
    K: Fn(&Vec<String>, Error) -> Result<Vec<String>, Error>,
    N: Fn(&Vec<FileLine>) -> Result<Vec<Option<LineRange>>, Error>,
    E: Fn(&Vec<AdaptiveExcerptRequest>) -> Result<Vec<Option<StoredExcerpt>>, Error>,
    D: Fn(&Vec<StoredExcerptRequest>) -> Result<Vec<Option<StoredExcerpt>>, Error>,
    F: Fn(&StoredExcerpt, usize, usize, usize) -> Option<StoredExcerpt>,
    P: Fn(&ContextQuery) -> QuerySearch<V, Y, Z, Q, G, A, K, N, E, D, F>,
    C: Fn(&ContextRequest) -> Result<ConstraintLookups, Error>,
    X: Fn(&Vec<AdaptiveExcerptRequest>) -> Result<Vec<Option<StoredExcerpt>>, Error>,
    T: Fn(&Vec<StoredExcerptRequest>) -> Result<Vec<Option<StoredExcerpt>>, Error>,
    O: Fn(&Vec<FocusScan>) -> Result<Vec<Vec<FocusContent>>, Error>,
    W: Fn(&ContextRequest) -> Result<(Vec<IndexedFile>, Vec<bool>), Error>,
    L: Fn(&Vec<Candidate>) -> Vec<u64>,
    I: Fn(&Vec<String>) -> Result<Vec<ImportTarget>, Error>,
    H: Fn(&Vec<String>) -> Result<Vec<String>, Error>,
>(
    ports: ContextPorts<P, C, X, T, O, W, L, I, H>,
    tracker: TrackerView,
    prepared: PreparedContext,
    vocabulary: Vocabulary,
    signals: ContextSignals,
    work: GatheringWork,
    facts: ContextFacts,
) -> bool {
    let request = prepared.scoped_request;
    let scans = focus_scans(request, views(facts.constraints.files@));
    &&& constraints_told(ports.constraints, ports.adaptive, request, facts.constraints)
    &&& focus_said(ports.focus, scans, Ok(facts.focus_contents))
    &&& views(work.resolutions@) == resolutions_of(scans, facts.focus_contents@)
    &&& queries_told(
        ports.queries,
        prepared,
        work.plan.queries@,
        work.strict,
        work.scorer,
        vocabulary,
        signals.caller,
        facts.queries,
        work.warned,
    )
    &&& work.warned[0] == constrained(
        tracker,
        prepared,
        work.plan,
        facts.constraints,
        work.scorer,
        work.resolutions,
    ).warnings
}

/// Whether the index may answer so while a request is gathered: each answer is one to
/// what the answers before it led to.
pub open spec fn facts_told<
    V: Fn(&str) -> Result<(), Error>,
    Y: Fn(usize, usize) -> Result<Vec<SymbolHit>, Error>,
    Z: Fn(usize, usize) -> Result<Vec<ReferenceHit>, Error>,
    Q: Fn(LexicalSearch, &str, usize, usize) -> Result<Vec<ChunkHit>, Error>,
    G: Fn() -> Result<FullScan, Error>,
    A: Fn(&str) -> bool,
    K: Fn(&Vec<String>, Error) -> Result<Vec<String>, Error>,
    N: Fn(&Vec<FileLine>) -> Result<Vec<Option<LineRange>>, Error>,
    E: Fn(&Vec<AdaptiveExcerptRequest>) -> Result<Vec<Option<StoredExcerpt>>, Error>,
    D: Fn(&Vec<StoredExcerptRequest>) -> Result<Vec<Option<StoredExcerpt>>, Error>,
    F: Fn(&StoredExcerpt, usize, usize, usize) -> Option<StoredExcerpt>,
    P: Fn(&ContextQuery) -> QuerySearch<V, Y, Z, Q, G, A, K, N, E, D, F>,
    C: Fn(&ContextRequest) -> Result<ConstraintLookups, Error>,
    X: Fn(&Vec<AdaptiveExcerptRequest>) -> Result<Vec<Option<StoredExcerpt>>, Error>,
    T: Fn(&Vec<StoredExcerptRequest>) -> Result<Vec<Option<StoredExcerpt>>, Error>,
    O: Fn(&Vec<FocusScan>) -> Result<Vec<Vec<FocusContent>>, Error>,
    W: Fn(&ContextRequest) -> Result<(Vec<IndexedFile>, Vec<bool>), Error>,
    L: Fn(&Vec<Candidate>) -> Vec<u64>,
    I: Fn(&Vec<String>) -> Result<Vec<ImportTarget>, Error>,
    H: Fn(&Vec<String>) -> Result<Vec<String>, Error>,
>(
    ports: ContextPorts<P, C, X, T, O, W, L, I, H>,
    tracker: TrackerView,
    prepared: PreparedContext,
    vocabulary: Vocabulary,
    signals: ContextSignals,
    work: GatheringWork,
    facts: ContextFacts,
) -> bool {
    let expansion = ImportExpansion {
        request: &prepared.request,
        queries: &work.plan.queries,
        terms: &work.terms,
        changed_paths: &prepared.changed_paths,
        vocabulary: &vocabulary,
    };
    let found = work_searched(tracker, prepared, vocabulary, signals, work, facts);
    let first = worked(fused(found.gathered), prepared, facts.followed);
    &&& search_told(ports, tracker, prepared, vocabulary, signals, work, facts)
    &&& follow_told(
        ports.workflow,
        ports.stored,
        ports.scores,
        ports.imports,
        ports.adaptive,
        ports.importers,
        prepared,
        expansion,
        signals,
        first,
        imported(first, expansion, facts.followed, signals),
        facts.followed,
    )
}

/// Whether a tracker of work is one that also tells how long the work took, where
/// times are collected.
pub open spec fn work_timed<J: Fn() -> u64>(
    clock: J,
    tracker: TrackerView,
    end: TrackerView,
) -> bool {
    if tracker.enabled {
        exists|first: u64, second: u64, third: u64, fourth: u64|
            {
                &&& #[trigger] call_ensures(clock, (), first)
                &&& #[trigger] call_ensures(clock, (), second)
                &&& #[trigger] call_ensures(clock, (), third)
                &&& #[trigger] call_ensures(clock, (), fourth)
                &&& end == (TrackerView {
                    timings: ContextPhaseTimings {
                        workflow_generation: span(second, third),
                        candidate_generation: span(first, fourth),
                        ..tracker.timings
                    },
                    ..tracker
                })
            }
    } else {
        end == tracker
    }
}

/// Whether `out` is what is gathered for a request, by the answers of the index.
pub open spec fn gathers(
    tracker: TrackerView,
    prepared: PreparedContext,
    vocabulary: Vocabulary,
    signals: ContextSignals,
    work: GatheringWork,
    facts: ContextFacts,
    out: ContextGathering,
) -> bool {
    let request = prepared.scoped_request;
    let found = work_searched(tracker, prepared, vocabulary, signals, work, facts);
    let workflow = resolved_workflow(prepared.workflow, prepared.request.task@);
    let followed = facts.followed;
    let files = first_of(views(followed.workflow_files@), MAX_WORKFLOW_SCAN_FILES as int);
    let expansion = ImportExpansion {
        request: &prepared.request,
        queries: &work.plan.queries,
        terms: &work.terms,
        changed_paths: &prepared.changed_paths,
        vocabulary: &vocabulary,
    };
    let candidates = marked(
        imported(
            worked(fused(found.gathered), prepared, followed),
            expansion,
            followed,
            signals,
        ),
        texts(followed.importers@),
        signals,
    );
    let excluded = found.gathered.path_excluded + if asks_for_files(workflow) {
        barred(request, files, followed.workflow_allowed@, files.len() as int)
    } else {
        Seq::empty()
    };
    &&& out.coverage@ == constraint_coverage(request, facts.constraints)
    &&& texts(out.warnings@) == work.warned.last()
    &&& out.workflow == workflow
    &&& optional_view(out.workflow_receipt) == if asks_for_files(workflow) {
        Some(
            workflow_tally(
                scanned(request, views(followed.workflow_files@), followed.workflow_allowed@),
                followed.workflow_files@.len() > MAX_WORKFLOW_SCAN_FILES,
            ),
        )
    } else {
        None
    }
    &&& views(out.candidates@) == scoped_candidates(request, candidates, candidates.len() as int)
    &&& texts(out.path_excluded@) == scoped_paths(request, excluded, excluded.len() as int)
}

/// Whether the gathering of a request may fail so.
pub open spec fn gathering_lost<
    V: Fn(&str) -> Result<(), Error>,
    Y: Fn(usize, usize) -> Result<Vec<SymbolHit>, Error>,
    Z: Fn(usize, usize) -> Result<Vec<ReferenceHit>, Error>,
    Q: Fn(LexicalSearch, &str, usize, usize) -> Result<Vec<ChunkHit>, Error>,
    G: Fn() -> Result<FullScan, Error>,
    A: Fn(&str) -> bool,
    K: Fn(&Vec<String>, Error) -> Result<Vec<String>, Error>,
    N: Fn(&Vec<FileLine>) -> Result<Vec<Option<LineRange>>, Error>,
    E: Fn(&Vec<AdaptiveExcerptRequest>) -> Result<Vec<Option<StoredExcerpt>>, Error>,
    D: Fn(&Vec<StoredExcerptRequest>) -> Result<Vec<Option<StoredExcerpt>>, Error>,
    F: Fn(&StoredExcerpt, usize, usize, usize) -> Option<StoredExcerpt>,
    P: Fn(&ContextQuery) -> QuerySearch<V, Y, Z, Q, G, A, K, N, E, D, F>,
    C: Fn(&ContextRequest) -> Result<ConstraintLookups, Error>,
    X: Fn(&Vec<AdaptiveExcerptRequest>) -> Result<Vec<Option<StoredExcerpt>>, Error>,
    T: Fn(&Vec<StoredExcerptRequest>) -> Result<Vec<Option<StoredExcerpt>>, Error>,
    O: Fn(&Vec<FocusScan>) -> Result<Vec<Vec<FocusContent>>, Error>,
    W: Fn(&ContextRequest) -> Result<(Vec<IndexedFile>, Vec<bool>), Error>,
    L: Fn(&Vec<Candidate>) -> Vec<u64>,
    I: Fn(&Vec<String>) -> Result<Vec<ImportTarget>, Error>,
    H: Fn(&Vec<String>) -> Result<Vec<String>, Error>,
>(
    ports: ContextPorts<P, C, X, T, O, W, L, I, H>,
    tracker: TrackerView,
    prepared: PreparedContext,
    vocabulary: Vocabulary,
    signals: ContextSignals,
    work: GatheringWork,
    cancellation: CancellationToken,
    error: Error,
) -> bool {
    let request = prepared.scoped_request;
    ||| stopped(error, cancellation)
    ||| constraints_lost(ports.constraints, ports.adaptive, request, error)
    ||| exists|facts: ConstraintFacts|
        #[trigger] constraints_told(ports.constraints, ports.adaptive, request, facts)
            && focus_said(ports.focus, focus_scans(request, views(facts.files@)), Err(error))
    ||| query_lost(
        ports.queries,
        prepared,
        work.plan.queries@,
        work.scorer,
        vocabulary,
        signals.caller,
        cancellation,
        error,
    )
    ||| exists|facts: ContextFacts|
        {
            &&& #[trigger] search_told(
                ports,
                tracker,
                prepared,
                vocabulary,
                signals,
                work,
                facts,
            )
            &&& follow_lost(
                ports.workflow,
                ports.stored,
                ports.scores,
                ports.imports,
                ports.adaptive,
                ports.importers,
                prepared,
                ImportExpansion {
                    request: &prepared.request,
                    queries: &work.plan.queries,
                    terms: &work.terms,
                    changed_paths: &prepared.changed_paths,
                    vocabulary: &vocabulary,
                },
                signals,
                work_searched(tracker, prepared, vocabulary, signals, work, facts).gathered,
                facts.followed,
                error,
            )
        }
}

impl Services {
    /// Gathers the candidates of a request: of its constraints and focus patterns,
    /// of each query that is searched for, of its workflow and of imports. Under a
    /// strict scope only changed paths stay.
    #[verifier::rlimit(100)]
    pub fn context_sync<
        V: Fn(&str) -> Result<(), Error>,
        Y: Fn(usize, usize) -> Result<Vec<SymbolHit>, Error>,
        Z: Fn(usize, usize) -> Result<Vec<ReferenceHit>, Error>,
        Q: Fn(LexicalSearch, &str, usize, usize) -> Result<Vec<ChunkHit>, Error>,
        G: Fn() -> Result<FullScan, Error>,
        A: Fn(&str) -> bool,
        K: Fn(&Vec<String>, Error) -> Result<Vec<String>, Error>,
        N: Fn(&Vec<FileLine>) -> Result<Vec<Option<LineRange>>, Error>,
        E: Fn(&Vec<AdaptiveExcerptRequest>) -> Result<Vec<Option<StoredExcerpt>>, Error>,
        D: Fn(&Vec<StoredExcerptRequest>) -> Result<Vec<Option<StoredExcerpt>>, Error>,
        F: Fn(&StoredExcerpt, usize, usize, usize) -> Option<StoredExcerpt>,
        P: Fn(&ContextQuery) -> QuerySearch<V, Y, Z, Q, G, A, K, N, E, D, F>,
        C: Fn(&ContextRequest) -> Result<ConstraintLookups, Error>,
        X: Fn(&Vec<AdaptiveExcerptRequest>) -> Result<Vec<Option<StoredExcerpt>>, Error>,
        T: Fn(&Vec<StoredExcerptRequest>) -> Result<Vec<Option<StoredExcerpt>>, Error>,
        O: Fn(&Vec<FocusScan>) -> Result<Vec<Vec<FocusContent>>, Error>,
        W: Fn(&ContextRequest) -> Result<(Vec<IndexedFile>, Vec<bool>), Error>,
        L: Fn(&Vec<Candidate>) -> Vec<u64>,
        I: Fn(&Vec<String>) -> Result<Vec<ImportTarget>, Error>,
        H: Fn(&Vec<String>) -> Result<Vec<String>, Error>,
        J: Fn() -> u64,
    >(
        prepared: &PreparedContext,
        vocabulary: &Vocabulary,
        ports: &ContextPorts<P, C, X, T, O, W, L, I, H>,
        signals: ContextSignals,
        clock: &J,
        phases: &mut ContextPhaseTracker,
        cancellation: &CancellationToken,
    ) -> (r: Result<ContextGathering, Error>)
        requires
            context_answers(*ports),
            call_requires(*clock, ()),
        ensures
            asked_first(r, *cancellation),
            exists|work: GatheringWork|
                #[trigger] work_begins(*prepared, *vocabulary, work) && match r {
                    Ok(out) => exists|facts: ContextFacts|
                        {
                            &&& #[trigger] facts_told(
                                *ports,
                                old(phases)@,
                                *prepared,
                                *vocabulary,
                                signals,
                                work,
                                facts,
                            )
                            &&& gathers(
                                old(phases)@,
                                *prepared,
                                *vocabulary,
                                signals,
                                work,
                                facts,
                                out,
                            )
                            &&& work_timed(
                                *clock,
                                work_searched(
                                    old(phases)@,
                                    *prepared,
                                    *vocabulary,
                                    signals,
                                    work,
                                    facts,
                                ).tracker,
                                final(phases)@,
                            )
                        },
                    Err(e) => gathering_lost(
                        *ports,
                        old(phases)@,
                        *prepared,
                        *vocabulary,
                        signals,
                        work,
                        *cancellation,
                        e,
                    ),
                },
    {
        let ghost tracker = phases@;
        let first_started: u64 = clock();
        let plan = plan_with_workflow_evidence(
            prepared.request.task.as_str(),
            &prepared.workflow_evidence,
            MAX_CONTEXT_QUERIES,
            vocabulary,
        );
        let terms = terms_of(&plan.queries);
        let scorer = ContextPathScorer::new(&terms, prepared.request.task.as_str(), vocabulary);
        let strict = if prepared.request.strict_changed_paths {
            Some(copy_texts(&prepared.scoped_request.changed_paths))
        } else {
            None
        };
        let ghost begun = GatheringWork {
            plan,
            scorer,
            terms,
            resolutions: vstd::pervasive::arbitrary(),
            strict,
            warned: Seq::empty(),
        };
        assert(work_begins(*prepared, *vocabulary, begun));
        match check_cancelled(cancellation) {
            Ok(_) => {},
            Err(e) => {
                return Err(e);
            },
        }
        let constraints = match read_constraints(
            &ports.constraints,
            &ports.adaptive,
            &prepared.scoped_request,
        ) {
            Ok(constraints) => constraints,
            Err(e) => {
                return Err(e);
            },
        };
        let ghost held = constraints;
        let searched = match gather_queries(
            prepared,
            &plan,
            vocabulary,
            constraints,
            &ports.focus,
            &ports.queries,
            &strict,
            signals.caller,
            &scorer,
            phases,
            cancellation,
        ) {
            Ok(searched) => searched,
            Err(e) => {
                return Err(e);
            },
        };
        let ghost work = GatheringWork {
            resolutions: searched.resolutions,
            warned: searched.warned@,
            ..begun
        };
        let ghost contents = searched.contents@;
        let ghost evidence = searched.evidence@;
        assert(work_begins(*prepared, *vocabulary, work));
        let SearchedContext { gathered, coverage, warnings, .. } = searched;
        let ghost found = gathered@;
        let then_started: u64 = clock();
        let expansion = ImportExpansion {
            request: &prepared.request,
            queries: &plan.queries,
            terms: &terms,
            changed_paths: &prepared.changed_paths,
            vocabulary,
        };
        let followed = match follow_request(
            &ports.workflow,
            &ports.stored,
            &ports.scores,
            &ports.imports,
            &ports.adaptive,
            &ports.importers,
            prepared,
            &expansion,
            signals,
            gathered,
        ) {
            Ok(followed) => followed,
            Err(e) => {
                proof {
                    let known = choose|known: FollowFacts|
                        #[trigger] follow_lost(
                            ports.workflow,
                            ports.stored,
                            ports.scores,
                            ports.imports,
                            ports.adaptive,
                            ports.importers,
                            *prepared,
                            expansion,
                            signals,
                            found,
                            known,
                            e,
                        );
                    let facts = ContextFacts {
                        constraints: held,
                        focus_contents: contents,
                        queries: evidence,
                        followed: known,
                    };
                    assert(search_told(
                        *ports,
                        tracker,
                        *prepared,
                        *vocabulary,
                        signals,
                        work,
                        facts,
                    ));
                    assert(work_searched(
                        tracker,
                        *prepared,
                        *vocabulary,
                        signals,
                        work,
                        facts,
                    ).gathered == found);
                    assert(gathering_lost(
                        *ports,
                        tracker,
                        *prepared,
                        *vocabulary,
                        signals,
                        work,
                        *cancellation,
                        e,
                    ));
                }
                return Err(e);
            },
        };
        let ghost facts = ContextFacts {
            constraints: held,
            focus_contents: contents,
            queries: evidence,
            followed: followed.facts,
        };
        let ghost told = phases@;
        proof {
            let seen = work_searched(tracker, *prepared, *vocabulary, signals, work, facts);
            assert(seen.gathered == found && seen.tracker == told);
            assert(facts_told(*ports, tracker, *prepared, *vocabulary, signals, work, facts));
        }
        let FollowedContext { candidates, path_excluded, workflow, workflow_receipt, .. } =
            followed;
        assert(views(candidates@).len() == candidates@.len());
        assert(texts(path_excluded@).len() == path_excluded@.len());
        let r = ContextGathering {
            candidates: keep_candidates(&prepared.scoped_request, candidates),
            path_excluded: keep_paths(&prepared.scoped_request, path_excluded),
            coverage,
            warnings,
            workflow,
            workflow_receipt,
        };
        assert(gathers(
            tracker,
            *prepared,
            *vocabulary,
            signals,
            work,
            facts,
            r,
        ));
        if phases.enabled {
            let then_ended: u64 = clock();
            phases.timings.workflow_generation = then_ended.saturating_sub(then_started);
            let first_ended: u64 = clock();
            phases.timings.candidate_generation = first_ended.saturating_sub(first_started);
            assert(call_ensures(*clock, (), first_started) && call_ensures(
                *clock,
                (),
                then_started,
            ) && call_ensures(*clock, (), then_ended) && call_ensures(*clock, (), first_ended));
        }
        assert(work_timed(*clock, told, phases@));
        Ok(r)
    }
}

} // verus!
