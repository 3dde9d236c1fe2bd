//! The candidates that imports lead to.

use crate::context::candidates::draft::{
    annotate_candidate, annotated, corroborated, corroborated_import_symbol, import_seed_paths,
    plain, seed_list, Candidate, CandidateView, ImportSymbol, ImportSymbolView, SeedPath, SeedView,
};
use crate::context::candidates::lexical::{answer_at, excerpts, ExcerptView, StoredExcerpt};
use crate::context::diagnostics::AdaptiveExcerptRequest;
use crate::context::facets::{ContextQuery, QueryView, Vocabulary};
use crate::context::path_score::{context_path_score, path_points, scorer_of};
use crate::context::scope_helpers::{excerpt_budget, excerpt_tokens, ContextExcerptKind};
use crate::model::ContextRequest;
use crate::ordered::{first_of, views};
use crate::response::optional_view;
use crate::services::Services;
use crate::text::{list_has, same_text, texts};
use vstd::prelude::*;

verus! {

/// The boost, in hundredths, of a file that is newer than a generation or among
/// the changed paths.
pub open spec fn change_points(
    file_generation: Option<u64>,
    path: Seq<char>,
    changed_paths: Seq<Seq<char>>,
    prior_generation: Option<u64>,
) -> u32 {
    ((if prior_generation is Some && file_generation is Some && file_generation->0
        > prior_generation->0 {
        100int
    } else {
        0
    }) + (if changed_paths.contains(path) {
        100int
    } else {
        0
    })) as u32
}

impl Services {
    /// The boost, in hundredths, of a file that is newer than a generation or
    /// among the changed paths.
    pub fn file_change_boost(
        file_generation: Option<u64>,
        path: &str,
        changed_paths: &Vec<String>,
        prior_generation: Option<u64>,
    ) -> (r: u32)
        ensures
            r == change_points(file_generation, path@, texts(changed_paths@), prior_generation),
    {
        let mut boost: u32 = 0;
        if let Some(prior) = prior_generation {
            if let Some(generation) = file_generation {
                if generation > prior {
                    boost = boost + 100;
                }
            }
        }
        if list_has(changed_paths, path) {
            boost = boost + 100;
        }
        boost
    }
}

/// The most paths whose imports are followed, and the most candidates that they
/// bring.
pub const MAX_IMPORT_NEIGHBORS: usize = 24;

/// A file that a followed path imports. `allowed` says that the request's path
/// rules let it in.
#[derive(Debug)]
pub struct ImportTarget {
    pub seed_index: usize,
    pub path: String,
    pub file_id: i64,
    pub generation: u64,
    pub allowed: bool,
    pub symbols: Vec<ImportSymbol>,
}

/// What a [`ImportTarget`] says.
pub struct ImportTargetView {
    pub seed_index: usize,
    pub path: Seq<char>,
    pub file_id: i64,
    pub generation: u64,
    pub allowed: bool,
    pub symbols: Seq<ImportSymbolView>,
}

impl View for ImportTarget {
    type V = ImportTargetView;

    open spec fn view(&self) -> ImportTargetView {
        ImportTargetView {
            seed_index: self.seed_index,
            path: self.path@,
            file_id: self.file_id,
            generation: self.generation,
            allowed: self.allowed,
            symbols: views(self.symbols@),
        }
    }
}

/// A symbol of an imported file that answers a query.
#[derive(Debug, Clone, Copy, PartialEq, Eq, Structural)]
pub struct PendingImport {
    pub target: usize,
    pub symbol: usize,
    pub query: usize,
    pub evidence: u32,
}

/// What imports are expanded with.
pub struct ImportExpansion<'a> {
    pub request: &'a ContextRequest,
    pub queries: &'a Vec<ContextQuery>,
    pub terms: &'a Vec<String>,
    pub changed_paths: &'a Vec<String>,
    pub vocabulary: &'a Vocabulary,
}

/// The paths whose imports are asked for.
pub open spec fn requested_paths(seeds: Seq<SeedView>) -> Seq<Seq<char>> {
    let first = first_of(seeds, MAX_IMPORT_NEIGHBORS as int);
    Seq::new(first.len(), |i: int| first[i].path)
}

/// The paths whose imports are asked for.
pub fn import_requested_paths(seeds: &Vec<SeedPath>) -> (r: Vec<String>)
    ensures
        texts(r@) == requested_paths(views(seeds@)),
{
    let ghost all = requested_paths(views(seeds@));
    let mut out: Vec<String> = Vec::new();
    let mut i: usize = 0;
    assert(texts(out@) =~= all.take(0));
    while i < seeds.len() && i < MAX_IMPORT_NEIGHBORS
        invariant
            i <= seeds.len(),
            i <= MAX_IMPORT_NEIGHBORS,
            all == requested_paths(views(seeds@)),
            texts(out@) == all.take(i as int),
        decreases seeds.len() - i,
    {
        let ghost before = texts(out@);
        out.push(seeds[i].path.clone());
        assert(views(seeds@)[i as int] == seeds@[i as int]@);
        assert(texts(out@) =~= before.push(seeds@[i as int].path@));
        assert(texts(out@) =~= all.take(i + 1));
        i += 1;
    }
    assert(all.take(all.len() as int) =~= all);
    out
}

/// The symbols of the first `upto` imported files that answer a query.
pub open spec fn pending_imports(
    expansion: ImportExpansion<'_>,
    seeds: Seq<SeedView>,
    targets: Seq<ImportTargetView>,
    upto: int,
) -> Seq<PendingImport>
    decreases upto,
{
    if upto <= 0 || upto > targets.len() {
        Seq::empty()
    } else {
        let before = pending_imports(expansion, seeds, targets, upto - 1);
        let target = targets[upto - 1];
        if target.seed_index >= seeds.len() || !target.allowed {
            before
        } else {
            match corroborated(
                target.symbols,
                views(expansion.queries@),
                seeds[target.seed_index as int].concepts,
                *expansion.vocabulary,
            ) {
                Some(found) => before.push(
                    PendingImport {
                        target: (upto - 1) as usize,
                        symbol: found.symbol,
                        query: found.query,
                        evidence: found.evidence,
                    },
                ),
                None => before,
            }
        }
    }
}

/// Whether a symbol of an imported file, and the query that it answers, are
/// there.
pub open spec fn pending_is_there(
    expansion: ImportExpansion<'_>,
    targets: Seq<ImportTargetView>,
    pending: PendingImport,
) -> bool {
    &&& pending.target < targets.len()
    &&& pending.symbol < targets[pending.target as int].symbols.len()
    &&& pending.query < expansion.queries@.len()
}

/// The symbols of imported files that answer a query.
pub fn pending_import_symbols(
    expansion: &ImportExpansion<'_>,
    seeds: &Vec<SeedPath>,
    targets: &Vec<ImportTarget>,
) -> (r: Vec<PendingImport>)
    ensures
        r@ == pending_imports(
            *expansion,
            views(seeds@),
            views(targets@),
            targets@.len() as int,
        ),
        forall|i: int|
            0 <= i < r@.len() ==> pending_is_there(*expansion, views(targets@), #[trigger] r@[i]),
{
    let ghost known = views(seeds@);
    let ghost all = views(targets@);
    let mut out: Vec<PendingImport> = Vec::new();
    let mut i: usize = 0;
    while i < targets.len()
        invariant
            i <= targets.len(),
            known == views(seeds@),
            known.len() == seeds@.len(),
            all == views(targets@),
            all.len() == targets@.len(),
            out@ == pending_imports(*expansion, known, all, i as int),
            forall|k: int|
                0 <= k < out@.len() ==> pending_is_there(*expansion, all, #[trigger] out@[k]),
        decreases targets.len() - i,
    {
        let target = &targets[i];
        assert(all[i as int] == target@);
        if target.seed_index < seeds.len() && target.allowed {
            assert(known[target.seed_index as int] == seeds@[target.seed_index as int]@);
            if let Some(found) = corroborated_import_symbol(
                &target.symbols,
                expansion.queries,
                &seeds[target.seed_index].concepts,
                expansion.vocabulary,
            ) {
                assert(views(expansion.queries@).len() == expansion.queries@.len());
                out.push(
                    PendingImport {
                        target: i,
                        symbol: found.symbol,
                        query: found.query,
                        evidence: found.evidence,
                    },
                );
            }
        }
        i += 1;
    }
    out
}

/// The excerpts that are asked for of symbols of imported files.
pub open spec fn import_requests(
    targets: Seq<ImportTargetView>,
    pending: Seq<PendingImport>,
    token_budget: usize,
) -> Seq<AdaptiveExcerptRequest> {
    Seq::new(
        pending.len(),
        |i: int|
            {
                let target = targets[pending[i].target as int];
                let symbol = target.symbols[pending[i].symbol as int];
                AdaptiveExcerptRequest {
                    file_id: target.file_id,
                    declaration_start: symbol.start_line,
                    declaration_end: symbol.end_line,
                    matched_line: symbol.start_line,
                    token_budget: excerpt_tokens(token_budget, ContextExcerptKind::ImportSymbol),
                    selection_budget: None,
                }
            },
    )
}

/// The excerpts that are asked for of symbols of imported files.
pub fn import_excerpt_requests(
    expansion: &ImportExpansion<'_>,
    targets: &Vec<ImportTarget>,
    pending: &Vec<PendingImport>,
) -> (r: Vec<AdaptiveExcerptRequest>)
    requires
        forall|i: int|
            0 <= i < pending@.len() ==> pending_is_there(
                *expansion,
                views(targets@),
                #[trigger] pending@[i],
            ),
    ensures
        r@ == import_requests(views(targets@), pending@, expansion.request.token_budget),
{
    let ghost all = import_requests(views(targets@), pending@, expansion.request.token_budget);
    let mut out: Vec<AdaptiveExcerptRequest> = Vec::new();
    let mut i: usize = 0;
    assert(out@ =~= all.take(0));
    while i < pending.len()
        invariant
            i <= pending.len(),
            forall|i: int|
                0 <= i < pending@.len() ==> pending_is_there(
                    *expansion,
                    views(targets@),
                    #[trigger] pending@[i],
                ),
            all == import_requests(views(targets@), pending@, expansion.request.token_budget),
            out@ == all.take(i as int),
        decreases pending.len() - i,
    {
        let item = pending[i];
        assert(pending_is_there(*expansion, views(targets@), pending@[i as int]));
        assert(views(targets@)[item.target as int] == targets@[item.target as int]@);
        let target = &targets[item.target];
        assert(target@.symbols.len() == target.symbols@.len());
        assert(target@.symbols[item.symbol as int] == target.symbols@[item.symbol as int]@);
        out.push(
            AdaptiveExcerptRequest {
                file_id: target.file_id,
                declaration_start: target.symbols[item.symbol].start_line,
                declaration_end: target.symbols[item.symbol].end_line,
                matched_line: target.symbols[item.symbol].start_line,
                token_budget: excerpt_budget(
                    expansion.request.token_budget,
                    ContextExcerptKind::ImportSymbol,
                ),
                selection_budget: None,
            },
        );
        assert(out@ =~= all.take(i + 1));
        i += 1;
    }
    assert(all.take(all.len() as int) =~= all);
    out
}

/// Lines of a path.
pub struct PlaceRange {
    pub path: Seq<char>,
    pub start_line: usize,
    pub end_line: usize,
}

/// What following imports has brought.
pub struct NeighborsView {
    pub candidates: Seq<CandidateView>,
    pub places: Seq<PlaceRange>,
}

/// A symbol of an imported file as a candidate.
pub open spec fn import_candidate(
    expansion: ImportExpansion<'_>,
    target: ImportTargetView,
    symbol: ImportSymbolView,
    query: QueryView,
    evidence: u32,
    excerpt: ExcerptView,
) -> CandidateView {
    CandidateView {
        symbol_name: Some(symbol.name),
        exact: evidence,
        symbol: 100,
        path_score: path_points(
            scorer_of(texts(expansion.terms@), expansion.request.task@, *expansion.vocabulary),
            target.path,
        ),
        import_boost: 100,
        change_boost: change_points(
            Some(target.generation),
            target.path,
            texts(expansion.changed_paths@),
            expansion.request.prior_repository_generation,
        ),
        ..plain(target.path, excerpt.start_line, excerpt.end_line, excerpt.content).found_as(
            "import"@,
        ).found_as("symbol"@).about(query.fusion_key, query.concept_weight).shown_as(
            "import_symbol"@,
        )
    }
}

/// The candidates with those that the first `upto` symbols of imported files
/// bring: each place once, and no more than a bound.
pub open spec fn with_imports(
    candidates: Seq<CandidateView>,
    expansion: ImportExpansion<'_>,
    targets: Seq<ImportTargetView>,
    pending: Seq<PendingImport>,
    shown: Seq<Option<ExcerptView>>,
    upto: int,
) -> NeighborsView
    decreases upto,
{
    if upto <= 0 || upto > pending.len() {
        NeighborsView { candidates, places: Seq::empty() }
    } else {
        let before = with_imports(candidates, expansion, targets, pending, shown, upto - 1);
        let item = pending[upto - 1];
        let target = targets[item.target as int];
        let query = views(expansion.queries@)[item.query as int];
        match answer_at(shown, upto - 1) {
            Some(excerpt) => {
                let place = PlaceRange {
                    path: target.path,
                    start_line: excerpt.start_line,
                    end_line: excerpt.end_line,
                };
                if before.places.len() >= MAX_IMPORT_NEIGHBORS || before.places.contains(place) {
                    before
                } else {
                    NeighborsView {
                        candidates: before.candidates.push(
                            annotated(
                                import_candidate(
                                    expansion,
                                    target,
                                    target.symbols[item.symbol as int],
                                    query,
                                    item.evidence,
                                    excerpt,
                                ),
                                query,
                                "import_symbol"@,
                                before.places.len() as usize,
                            ),
                        ),
                        places: before.places.push(place),
                    }
                }
            },
            None => before,
        }
    }
}

/// Following imports brings no more candidates than its bound.
pub proof fn imports_are_bounded(
    candidates: Seq<CandidateView>,
    expansion: ImportExpansion<'_>,
    targets: Seq<ImportTargetView>,
    pending: Seq<PendingImport>,
    shown: Seq<Option<ExcerptView>>,
    upto: int,
)
    ensures
        ({
            let found = with_imports(candidates, expansion, targets, pending, shown, upto);
            &&& found.places.len() <= MAX_IMPORT_NEIGHBORS
            &&& found.candidates.len() == candidates.len() + found.places.len()
        }),
    decreases upto,
{
    if 0 < upto <= pending.len() {
        imports_are_bounded(candidates, expansion, targets, pending, shown, upto - 1);
    }
}

/// The place of a candidate that an import led to.
struct Neighbor {
    path: String,
    start_line: usize,
    end_line: usize,
}

impl View for Neighbor {
    type V = PlaceRange;

    closed spec fn view(&self) -> PlaceRange {
        PlaceRange { path: self.path@, start_line: self.start_line, end_line: self.end_line }
    }
}

fn has_place(list: &Vec<Neighbor>, path: &str, start_line: usize, end_line: usize) -> (r: bool)
    ensures
        r == views(list@).contains(PlaceRange { path: path@, start_line, end_line }),
{
    let ghost all = views(list@);
    let ghost place = PlaceRange { path: path@, start_line, end_line };
    let mut i: usize = 0;
    while i < list.len()
        invariant
            i <= list.len(),
            all == views(list@),
            place == (PlaceRange { path: path@, start_line, end_line }),
            forall|k: int| 0 <= k < i ==> all[k] != place,
        decreases list.len() - i,
    {
        assert(all[i as int] == list@[i as int]@);
        if list[i].start_line == start_line && list[i].end_line == end_line && same_text(
            list[i].path.as_str(),
            path,
        ) {
            assert(all[i as int] == place);
            return true;
        }
        i += 1;
    }
    assert(all.len() == list@.len());
    false
}

fn make_import_candidate(
    expansion: &ImportExpansion<'_>,
    target: &ImportTarget,
    symbol: &ImportSymbol,
    query: &ContextQuery,
    evidence: u32,
    excerpt: &StoredExcerpt,
) -> (r: Candidate)
    ensures
        r@ == import_candidate(*expansion, target@, symbol@, query@, evidence, excerpt@),
{
    let mut candidate = Candidate::new(
        target.path.as_str(),
        excerpt.start_line,
        excerpt.end_line,
        excerpt.content.as_str(),
    ).match_kind("import").match_kind("symbol").concept(
        query.fusion_key.as_str(),
        query.concept_weight,
    ).representation("import_symbol");
    candidate.symbol_name = Some(symbol.name.clone());
    candidate.exact = evidence;
    candidate.symbol = 100;
    candidate.path_score = context_path_score(
        target.path.as_str(),
        expansion.terms,
        expansion.request.task.as_str(),
        expansion.vocabulary,
    );
    candidate.import_boost = 100;
    candidate.change_boost = Services::file_change_boost(
        Some(target.generation),
        target.path.as_str(),
        expansion.changed_paths,
        expansion.request.prior_repository_generation,
    );
    candidate
}

/// A candidate, with the mark of a file that imports a followed path.
pub open spec fn with_importer(candidate: CandidateView, importers: Seq<Seq<char>>) ->
    CandidateView {
    if importers.contains(candidate.path) {
        CandidateView {
            match_kinds: if candidate.match_kinds.contains("reverse-import"@) {
                candidate.match_kinds
            } else {
                candidate.match_kinds.push("reverse-import"@)
            },
            import_boost: if candidate.import_boost > 100 {
                candidate.import_boost
            } else {
                100
            },
            ..candidate
        }
    } else {
        candidate
    }
}

fn mark_importer(candidate: Candidate, importers: &Vec<String>) -> (r: Candidate)
    ensures
        r@ == with_importer(candidate@, texts(importers@)),
{
    if !list_has(importers, candidate.path.as_str()) {
        return candidate;
    }
    let mut out = candidate;
    if !list_has(&out.match_kinds, "reverse-import") {
        out = out.match_kind("reverse-import");
    }
    if out.import_boost < 100 {
        out.import_boost = 100;
    }
    out
}

impl Services {
    /// Adds the candidates that imports of followed paths lead to. `targets` are
    /// the files that those paths import, and `shown` the excerpts that were
    /// asked for.
    #[verifier::rlimit(40)]
    pub fn append_import_symbol_candidates(
        expansion: &ImportExpansion<'_>,
        scores: &Vec<u64>,
        targets: &Vec<ImportTarget>,
        shown: &Vec<Option<StoredExcerpt>>,
        candidates: &mut Vec<Candidate>,
    )
        ensures
            ({
                let seeds = seed_list(
                    views(old(candidates)@),
                    views(expansion.queries@),
                    scores@,
                );
                let pending = pending_imports(
                    *expansion,
                    seeds,
                    views(targets@),
                    targets@.len() as int,
                );
                views(final(candidates)@) == with_imports(
                    views(old(candidates)@),
                    *expansion,
                    views(targets@),
                    pending,
                    excerpts(shown@),
                    pending.len() as int,
                ).candidates
            }),
    {
        let seeds = import_seed_paths(candidates, expansion.queries, scores);
        let pending = pending_import_symbols(expansion, &seeds, targets);
        let ghost start = views(candidates@);
        let ghost all = views(targets@);
        let mut neighbors: Vec<Neighbor> = Vec::new();
        let mut i: usize = 0;
        assert(views(neighbors@) =~= Seq::<PlaceRange>::empty());
        while i < pending.len()
            invariant
                i <= pending.len(),
                all == views(targets@),
                all.len() == targets@.len(),
                forall|k: int|
                    0 <= k < pending@.len() ==> pending_is_there(
                        *expansion,
                        all,
                        #[trigger] pending@[k],
                    ),
                views(candidates@) == with_imports(
                    start,
                    *expansion,
                    all,
                    pending@,
                    excerpts(shown@),
                    i as int,
                ).candidates,
                views(neighbors@) == with_imports(
                    start,
                    *expansion,
                    all,
                    pending@,
                    excerpts(shown@),
                    i as int,
                ).places,
            decreases pending.len() - i,
        {
            let item = pending[i];
            assert(pending_is_there(*expansion, all, pending@[i as int]));
            assert(all[item.target as int] == targets@[item.target as int]@);
            let target = &targets[item.target];
            let query = &expansion.queries[item.query];
            assert(views(expansion.queries@)[item.query as int] == query@);
            assert(target@.symbols.len() == target.symbols@.len());
            assert(target@.symbols[item.symbol as int] == target.symbols@[item.symbol as int]@);
            assert(views(neighbors@).len() == neighbors@.len());
            if i < shown.len() {
                assert(excerpts(shown@)[i as int] == optional_view(shown@[i as int]));
                if let Some(excerpt) = &shown[i] {
                    if neighbors.len() < MAX_IMPORT_NEIGHBORS && !has_place(
                        &neighbors,
                        target.path.as_str(),
                        excerpt.start_line,
                        excerpt.end_line,
                    ) {
                        let ghost before = views(candidates@);
                        let ghost places = views(neighbors@);
                        let made = make_import_candidate(
                            expansion,
                            target,
                            &target.symbols[item.symbol],
                            query,
                            item.evidence,
                            excerpt,
                        );
                        let marked = annotate_candidate(
                            made,
                            query,
                            "import_symbol",
                            neighbors.len(),
                        );
                        let ghost added = marked@;
                        candidates.push(marked);
                        assert(views(candidates@) =~= before.push(added));
                        let place = Neighbor {
                            path: target.path.clone(),
                            start_line: excerpt.start_line,
                            end_line: excerpt.end_line,
                        };
                        let ghost here = place@;
                        neighbors.push(place);
                        assert(views(neighbors@) =~= places.push(here));
                    }
                }
            }
            i += 1;
        }
    }

    /// Marks the candidates whose files import a followed path.
    pub fn apply_reverse_dependency_boost(
        candidates: Vec<Candidate>,
        importers: &Vec<String>,
    ) -> (r: Vec<Candidate>)
        ensures
            views(r@) == Seq::new(
                candidates@.len(),
                |i: int| with_importer(candidates@[i]@, texts(importers@)),
            ),
    {
        let ghost all = Seq::new(
            candidates@.len(),
            |i: int| with_importer(candidates@[i]@, texts(importers@)),
        );
        let mut out: Vec<Candidate> = Vec::new();
        assert(views(out@) =~= all.take(0));
        for candidate in it: candidates
            invariant
                it.seq() == candidates@,
                all == Seq::new(
                    candidates@.len(),
                    |i: int| with_importer(candidates@[i]@, texts(importers@)),
                ),
                views(out@) == all.take(it.index() as int),
        {
            let ghost before = views(out@);
            let item = mark_importer(candidate, importers);
            let ghost added = item@;
            out.push(item);
            assert(views(out@) =~= before.push(added));
            assert(views(out@) =~= all.take(it.index() as int + 1));
        }
        assert(all.take(all.len() as int) =~= all);
        out
    }
}

} // verus!
