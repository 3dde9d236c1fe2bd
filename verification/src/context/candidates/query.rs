//! The searches for one query, and the candidates that they bring.

use crate::cancellation::{answered, check_cancelled, stopped};
use crate::candidate_scan::rows;
use crate::context::candidates::draft::{annotated, under_names, CandidateView, LineRange};
use crate::context::candidates::lexical::{
    after_reference_search, after_symbol_search, after_text_search, analyze_chunks, answer_at,
    chunks_analyzed, enclosed, excerpts, excluded_chunks, fallback_requests, keep_matches,
    mark_enclosed, mark_missing, match_excerpt_requests, match_places, match_places_of,
    match_requests, matched_chunks, matches_of, missing, places_of, reference_candidate,
    reference_excerpt_requests, reference_fallback_requests, reference_places, reference_requests,
    reference_shown, references_of, scatter, scattered, symbol_candidate, symbol_excerpt_requests,
    symbol_requests, text_candidate, texts_shown, too_large, with_query, with_references,
    with_symbols, with_texts, ChunkHit, ChunkHitView, ExcerptView, Gathered, GatheredView,
    LexicalMatch, LexicalMatchFacts, LexicalMatchView, LexicalSearch, QueryEvidence, QueryExpansion,
    ReferenceHit, ReferenceHitView, StoredExcerpt, SymbolHit, SymbolHitView,
    MAX_CONTEXT_HITS_PER_SOURCE,
};
use crate::context::candidates::ranked;
use crate::context::candidates::ranked::{
    allowed_by, chunks_found, context_ranked_hits, hits_found, lemma_hits_in_scope,
    lemma_wider_chunks, lemma_wider_scope, lexical_route, noted, page_failed, path_judged,
    scan_failed, scan_taken, search_failed, search_told, searched_text, FoldedTerm, FullScan,
    Located, Notes, Scope,
};
use crate::context::delivery::flag_at;
use crate::context::diagnostics::{
    AdaptiveExcerptRequest, ContextPhaseTracker, FileLine, StoredExcerptRequest, TrackerView,
};
use crate::context::facets::{kind_names, QueryView};
use crate::context::scope_helpers::{excerpt_budget, excerpt_tokens, ContextExcerptKind};
use crate::error::Error;
use crate::ordered::views;
use crate::response::optional_view;
use crate::services::Services;
use crate::text::{list_has, texts};
use tokio_util::sync::CancellationToken;
use vstd::prelude::*;

verus! {

/// What the searches for one query are made with. `compile` compiles its term,
/// `symbols`, `references` and `search` read pages of hits, `scan` reads all text,
/// `allows` tells whether a path is one of the request, `record` turns a search
/// that is too large into a warning, `enclosing` finds declarations round lines,
/// `adaptive` and `stored` read excerpts, and `fit` cuts one to its budget.
pub struct QueryPorts<V, Y, Z, Q, G, A, K, N, E, D, F> {
    pub compile: V,
    pub symbols: Y,
    pub references: Z,
    pub search: Q,
    pub scan: G,
    pub allows: A,
    pub record: K,
    pub enclosing: N,
    pub adaptive: E,
    pub stored: D,
    pub fit: F,
}

/// Whether everything can be asked.
pub open spec fn query_answers<
    V: Fn(&str) -> Result<(), Error>,
    Y: Fn(usize, usize) -> Result<Vec<SymbolHit>, Error>,
    Z: Fn(usize, usize) -> Result<Vec<ReferenceHit>, Error>,
    Q: Fn(LexicalSearch, &str, usize, usize) -> Result<Vec<ChunkHit>, Error>,
    G: Fn() -> Result<FullScan, Error>,
    A: Fn(&str) -> bool,
    K: Fn(&Vec<String>, Error) -> Result<Vec<String>, Error>,
    N: Fn(&Vec<FileLine>) -> Result<Vec<Option<LineRange>>, Error>,
    E: Fn(&Vec<AdaptiveExcerptRequest>) -> Result<Vec<Option<StoredExcerpt>>, Error>,
    D: Fn(&Vec<StoredExcerptRequest>) -> Result<Vec<Option<StoredExcerpt>>, Error>,
    F: Fn(&StoredExcerpt, usize, usize, usize) -> Option<StoredExcerpt>,
>(ports: QueryPorts<V, Y, Z, Q, G, A, K, N, E, D, F>) -> bool {
    &&& forall|term: &str| call_requires(ports.compile, (term,))
    &&& forall|offset: usize, limit: usize| call_requires(ports.symbols, (offset, limit))
    &&& forall|offset: usize, limit: usize| call_requires(ports.references, (offset, limit))
    &&& forall|kind: LexicalSearch, query: &str, offset: usize, limit: usize|
        call_requires(ports.search, (kind, query, offset, limit))
    &&& call_requires(ports.scan, ())
    &&& forall|path: &str| call_requires(ports.allows, (path,))
    &&& forall|list: &Vec<String>, error: Error| call_requires(ports.record, (list, error))
    &&& forall|list: &Vec<FileLine>| call_requires(ports.enclosing, (list,))
    &&& forall|list: &Vec<AdaptiveExcerptRequest>| call_requires(ports.adaptive, (list,))
    &&& forall|list: &Vec<StoredExcerptRequest>| call_requires(ports.stored, (list,))
    &&& forall|given: &StoredExcerpt, line: usize, tokens: usize, selection: usize|
        call_requires(ports.fit, (given, line, tokens, selection))
}

/// Whether a path is within the changed paths that a request is held to.
pub open spec fn in_changes(changed: Option<Seq<Seq<char>>>, path: Seq<char>) -> bool {
    changed matches Some(list) ==> list.contains(path)
}

/// The changed paths that a request is held to, as texts.
pub open spec fn changes(strict: Option<Vec<String>>) -> Option<Seq<Seq<char>>> {
    match strict {
        Some(list) => Some(texts(list@)),
        None => None,
    }
}

/// What may be said of paths: that they are of the request, and within its changes.
pub open spec fn scope_of<A: Fn(&str) -> bool>(allows: A, strict: Option<Vec<String>>) -> Scope {
    |path: Seq<char>, verdict: bool|
        exists|said: bool| #[trigger]
            path_judged(allows, path, said) && verdict == (said && in_changes(
                changes(strict),
                path,
            ))
}

/// Whether `allows` may say of a path that it is of the request, and it is within the
/// changed paths that the request is held to.
pub open spec fn in_scope<A: Fn(&str) -> bool>(
    allows: A,
    strict: Option<Vec<String>>,
    path: Seq<char>,
) -> bool {
    path_judged(allows, path, true) && in_changes(changes(strict), path)
}

spec fn scope_told<A: Fn(&str) -> bool>(
    allows: &A,
    strict: &Option<Vec<String>>,
    path: Seq<char>,
    verdict: bool,
) -> bool {
    scope_of(*allows, *strict)(path, verdict)
}

spec fn can_judge<A: Fn(&str) -> bool>(allows: &A) -> bool {
    forall|path: &str| call_requires(*allows, (path,))
}

fn judge<A: Fn(&str) -> bool>(allows: &A, strict: &Option<Vec<String>>, path: &str) -> (r: bool)
    requires
        can_judge(allows),
    ensures
        scope_told(allows, strict, path@, r),
{
    let said = allows(path);
    assert(path_judged(*allows, path@, said));
    said && match strict {
        Some(list) => list_has(list, path),
        None => true,
    }
}

/// Whether excerpts may be said to answer requests for declarations.
pub open spec fn adaptive_said<
    E: Fn(&Vec<AdaptiveExcerptRequest>) -> Result<Vec<Option<StoredExcerpt>>, Error>,
>(
    adaptive: E,
    requests: Seq<AdaptiveExcerptRequest>,
    said: Result<Vec<Option<StoredExcerpt>>, Error>,
) -> bool {
    exists|list: &Vec<AdaptiveExcerptRequest>|
        (#[trigger] call_ensures(adaptive, (list,), said)) && list@ == requests
}

/// Whether excerpts may be said to answer requests for lines.
pub open spec fn stored_said<
    D: Fn(&Vec<StoredExcerptRequest>) -> Result<Vec<Option<StoredExcerpt>>, Error>,
>(
    stored: D,
    requests: Seq<StoredExcerptRequest>,
    said: Result<Vec<Option<StoredExcerpt>>, Error>,
) -> bool {
    exists|list: &Vec<StoredExcerptRequest>|
        (#[trigger] call_ensures(stored, (list,), said)) && list@ == requests
}

/// Whether declarations may be said to enclose places.
pub open spec fn enclosing_said<
    N: Fn(&Vec<FileLine>) -> Result<Vec<Option<LineRange>>, Error>,
>(enclosing: N, places: Seq<FileLine>, said: Result<Vec<Option<LineRange>>, Error>) -> bool {
    exists|list: &Vec<FileLine>|
        (#[trigger] call_ensures(enclosing, (list,), said)) && list@ == places
}

/// Whether a term may be said to compile, or not.
pub open spec fn term_said<V: Fn(&str) -> Result<(), Error>>(
    compile: V,
    term: Seq<char>,
    said: Result<(), Error>,
) -> bool {
    exists|text: &str| (#[trigger] call_ensures(compile, (text,), said)) && text@ == term
}

/// Whether an excerpt may be said to be cut so.
pub open spec fn fit_said<F: Fn(&StoredExcerpt, usize, usize, usize) -> Option<StoredExcerpt>>(
    fit: F,
    excerpt: ExcerptView,
    line: usize,
    tokens: usize,
    selection: usize,
    said: Option<ExcerptView>,
) -> bool {
    exists|given: &StoredExcerpt, answer: Option<StoredExcerpt>|
        {
            &&& #[trigger] call_ensures(fit, (given, line, tokens, selection), answer)
            &&& given@ == excerpt
            &&& optional_view(answer) == said
        }
}

/// Whether excerpts may be said to be cut so, each round its line. Where there is
/// none there is none.
pub open spec fn all_fitted<F: Fn(&StoredExcerpt, usize, usize, usize) -> Option<StoredExcerpt>>(
    fit: F,
    given: Seq<Option<ExcerptView>>,
    lines: Seq<usize>,
    tokens: usize,
    selection: usize,
    out: Seq<Option<ExcerptView>>,
) -> bool {
    &&& out.len() == if given.len() < lines.len() {
        given.len()
    } else {
        lines.len()
    }
    &&& forall|i: int|
        0 <= i < out.len() ==> match given[i] {
            Some(excerpt) => fit_said(
                fit,
                excerpt,
                lines[i],
                tokens,
                selection,
                #[trigger] out[i],
            ),
            None => out[i] is None,
        }
}

fn fit_all<F: Fn(&StoredExcerpt, usize, usize, usize) -> Option<StoredExcerpt>>(
    fit: &F,
    given: &Vec<Option<StoredExcerpt>>,
    lines: &Vec<usize>,
    tokens: usize,
    selection: usize,
) -> (r: Vec<Option<StoredExcerpt>>)
    requires
        forall|given: &StoredExcerpt, line: usize, tokens: usize, selection: usize|
            call_requires(*fit, (given, line, tokens, selection)),
    ensures
        all_fitted(*fit, excerpts(given@), lines@, tokens, selection, excerpts(r@)),
{
    let mut out: Vec<Option<StoredExcerpt>> = Vec::new();
    let mut i: usize = 0;
    while i < given.len() && i < lines.len()
        invariant
            i <= given.len(),
            i <= lines.len(),
            out@.len() == i,
            forall|given: &StoredExcerpt, line: usize, tokens: usize, selection: usize|
                call_requires(*fit, (given, line, tokens, selection)),
            forall|k: int|
                0 <= k < i ==> match excerpts(given@)[k] {
                    Some(excerpt) => fit_said(
                        *fit,
                        excerpt,
                        lines@[k],
                        tokens,
                        selection,
                        optional_view(#[trigger] out@[k]),
                    ),
                    None => out@[k] is None,
                },
        decreases given.len() - i,
    {
        assert(excerpts(given@)[i as int] == optional_view(given@[i as int]));
        let answer = match &given[i] {
            Some(excerpt) => {
                let answer = fit(excerpt, lines[i], tokens, selection);
                assert(fit_said(
                    *fit,
                    excerpt@,
                    lines@[i as int],
                    tokens,
                    selection,
                    optional_view(answer),
                ));
                answer
            },
            None => None,
        };
        out.push(answer);
        i += 1;
    }
    proof {
        let list = excerpts(out@);
        assert forall|k: int| 0 <= k < list.len() implies match excerpts(given@)[k] {
            Some(excerpt) => fit_said(
                *fit,
                excerpt,
                lines@[k],
                tokens,
                selection,
                #[trigger] list[k],
            ),
            None => list[k] is None,
        } by {
            assert(list[k] == optional_view(out@[k]));
        }
    }
    out
}

/// The items among the first `upto` that are marked.
pub open spec fn marked<T>(list: Seq<T>, marks: Seq<bool>, upto: int) -> Seq<T>
    decreases upto,
{
    if upto <= 0 || upto > list.len() {
        Seq::empty()
    } else if flag_at(marks, upto - 1) {
        marked(list, marks, upto - 1).push(list[upto - 1])
    } else {
        marked(list, marks, upto - 1)
    }
}

/// The lines of references.
pub open spec fn reference_rows(hits: Seq<ReferenceHitView>) -> Seq<usize> {
    Seq::new(hits.len(), |i: int| hits[i].start_line)
}

/// The lines of matches.
pub open spec fn match_rows(list: Seq<LexicalMatchView>) -> Seq<usize> {
    Seq::new(list.len(), |i: int| list[i].matched_line)
}

/// The lines that a search shows of a chunk.
pub open spec fn facts_at(facts: Seq<Option<LexicalMatchFacts>>, at: int) -> Option<ExcerptView> {
    if 0 <= at < facts.len() {
        match facts[at] {
            Some(found) => Some(found.excerpt@),
            None => None,
        }
    } else {
        None
    }
}

/// The lines that a search shows of matches.
pub open spec fn match_excerpts(
    list: Seq<LexicalMatchView>,
    facts: Seq<Option<LexicalMatchFacts>>,
) -> Seq<Option<ExcerptView>> {
    Seq::new(list.len(), |i: int| facts_at(facts, list[i].rank as int))
}

fn marked_reference_rows(hits: &Vec<ReferenceHit>, marks: &Vec<bool>) -> (r: Vec<usize>)
    ensures
        r@ == marked(reference_rows(views(hits@)), marks@, hits@.len() as int),
{
    let ghost all = reference_rows(views(hits@));
    let mut out: Vec<usize> = Vec::new();
    let mut i: usize = 0;
    while i < hits.len()
        invariant
            i <= hits.len(),
            all == reference_rows(views(hits@)),
            all.len() == hits@.len(),
            out@ == marked(all, marks@, i as int),
        decreases hits.len() - i,
    {
        assert(views(hits@)[i as int] == hits@[i as int]@);
        if i < marks.len() && marks[i] {
            out.push(hits[i].start_line);
        }
        i += 1;
    }
    out
}

fn marked_match_rows(list: &Vec<LexicalMatch>, marks: &Vec<bool>) -> (r: Vec<usize>)
    ensures
        r@ == marked(match_rows(views(list@)), marks@, list@.len() as int),
{
    let ghost all = match_rows(views(list@));
    let mut out: Vec<usize> = Vec::new();
    let mut i: usize = 0;
    while i < list.len()
        invariant
            i <= list.len(),
            all == match_rows(views(list@)),
            all.len() == list@.len(),
            out@ == marked(all, marks@, i as int),
        decreases list.len() - i,
    {
        assert(views(list@)[i as int] == list@[i as int]@);
        if i < marks.len() && marks[i] {
            out.push(list[i].matched_line);
        }
        i += 1;
    }
    out
}

fn copy_facts(facts: &Vec<Option<LexicalMatchFacts>>, at: usize) -> (r: Option<StoredExcerpt>)
    ensures
        optional_view(r) == facts_at(facts@, at as int),
{
    if at < facts.len() {
        if let Some(found) = &facts[at] {
            return Some(
                StoredExcerpt {
                    content: found.excerpt.content.clone(),
                    start_line: found.excerpt.start_line,
                    end_line: found.excerpt.end_line,
                },
            );
        }
    }
    None
}

fn marked_match_excerpts(
    list: &Vec<LexicalMatch>,
    facts: &Vec<Option<LexicalMatchFacts>>,
    marks: &Vec<bool>,
) -> (r: Vec<Option<StoredExcerpt>>)
    ensures
        excerpts(r@) == marked(
            match_excerpts(views(list@), facts@),
            marks@,
            list@.len() as int,
        ),
{
    let ghost all = match_excerpts(views(list@), facts@);
    let mut out: Vec<Option<StoredExcerpt>> = Vec::new();
    let mut i: usize = 0;
    assert(excerpts(out@) =~= Seq::<Option<ExcerptView>>::empty());
    while i < list.len()
        invariant
            i <= list.len(),
            all == match_excerpts(views(list@), facts@),
            all.len() == list@.len(),
            excerpts(out@) == marked(all, marks@, i as int),
        decreases list.len() - i,
    {
        assert(views(list@)[i as int] == list@[i as int]@);
        if i < marks.len() && marks[i] {
            let ghost before = excerpts(out@);
            let found = copy_facts(facts, list[i].rank);
            let ghost shown = optional_view(found);
            out.push(found);
            assert(excerpts(out@) =~= before.push(shown));
        }
        i += 1;
    }
    out
}

/// Whether a search for hits that are in scope may fail so.
pub open spec fn hits_lost<
    T,
    F: Fn(usize, usize) -> Result<Vec<T>, Error>,
    K: Fn(&Vec<String>, Error) -> Result<Vec<String>, Error>,
>(at_once: bool, fetch: F, record: K, error: Error) -> bool {
    if at_once {
        exists|warnings: Seq<Seq<char>>| #[trigger]
            search_told::<T, F, K>(fetch, record, warnings, Err(error@))
    } else {
        page_failed(fetch, error)
    }
}

fn hits_in_scope<
    T: Located,
    F: Fn(usize, usize) -> Result<Vec<T>, Error>,
    A: Fn(&str) -> bool,
    K: Fn(&Vec<String>, Error) -> Result<Vec<String>, Error>,
>(
    at_once: bool,
    fetch: &F,
    allows: &A,
    strict: &Option<Vec<String>>,
    record: &K,
    cancellation: &CancellationToken,
    warnings: &mut Vec<String>,
    path_excluded: &mut Vec<String>,
) -> (r: Result<Vec<T>, Error>)
    requires
        forall|offset: usize, limit: usize| call_requires(*fetch, (offset, limit)),
        can_judge(allows),
        forall|list: &Vec<String>, error: Error| call_requires(*record, (list, error)),
    ensures
        match r {
            Ok(hits) => hits_found(
                at_once,
                *fetch,
                scope_of(*allows, *strict),
                *record,
                MAX_CONTEXT_HITS_PER_SOURCE,
                Notes { warnings: texts(old(warnings)@), excluded: texts(old(path_excluded)@) },
                hits@,
                Notes {
                    warnings: texts(final(warnings)@),
                    excluded: texts(final(path_excluded)@),
                },
            ),
            Err(e) => {
                &&& *final(warnings) == *old(warnings)
                &&& *final(path_excluded) == *old(path_excluded)
                &&& stopped(e, *cancellation) || hits_lost(at_once, *fetch, *record, e)
            },
        },
{
    let scope = |path: &str| -> (verdict: bool)
        requires
            can_judge(allows),
        ensures
            scope_told(allows, strict, path@, verdict),
        { judge(allows, strict, path) };
    let ghost before = Notes { warnings: texts(warnings@), excluded: texts(path_excluded@) };
    let found = context_ranked_hits(
        at_once,
        MAX_CONTEXT_HITS_PER_SOURCE,
        fetch,
        &scope,
        record,
        cancellation,
        warnings,
        path_excluded,
    );
    proof {
        if found is Ok {
            lemma_wider_scope(
                at_once,
                *fetch,
                allowed_by(scope),
                scope_of(*allows, *strict),
                *record,
                MAX_CONTEXT_HITS_PER_SOURCE,
                before,
                (found->Ok_0)@,
                Notes { warnings: texts(warnings@), excluded: texts(path_excluded@) },
            );
        }
    }
    found
}

/// Whether the search for the symbols of a query may bring this evidence.
pub open spec fn symbols_found<
    Y: Fn(usize, usize) -> Result<Vec<SymbolHit>, Error>,
    K: Fn(&Vec<String>, Error) -> Result<Vec<String>, Error>,
    E: Fn(&Vec<AdaptiveExcerptRequest>) -> Result<Vec<Option<StoredExcerpt>>, Error>,
>(
    symbols: Y,
    scope: Scope,
    record: K,
    adaptive: E,
    at_once: bool,
    budget: usize,
    before: Notes,
    hits: Vec<SymbolHit>,
    shown: Vec<Option<StoredExcerpt>>,
    after: Notes,
) -> bool {
    &&& hits_found(
        at_once,
        symbols,
        scope,
        record,
        MAX_CONTEXT_HITS_PER_SOURCE,
        before,
        hits@,
        after,
    )
    &&& adaptive_said(adaptive, symbol_requests(views(hits@), budget), Ok(shown))
}

/// The references that a search brings and the excerpts that show them.
pub struct ReferenceEvidence {
    pub references: Vec<ReferenceHit>,
    pub enclosing: Vec<Option<LineRange>>,
    pub excerpts: Vec<Option<StoredExcerpt>>,
    pub fallbacks: Vec<Option<StoredExcerpt>>,
}

impl ReferenceEvidence {
    /// The excerpts of declarations round the references.
    pub open spec fn declared(self) -> Seq<Option<ExcerptView>> {
        scattered(
            enclosed(self.enclosing@, self.references@.len()),
            excerpts(self.excerpts@),
        )
    }
}

/// Whether the search for the references of a query may bring this evidence. They
/// are searched for only where callers count.
pub open spec fn references_found<
    Z: Fn(usize, usize) -> Result<Vec<ReferenceHit>, Error>,
    K: Fn(&Vec<String>, Error) -> Result<Vec<String>, Error>,
    N: Fn(&Vec<FileLine>) -> Result<Vec<Option<LineRange>>, Error>,
    E: Fn(&Vec<AdaptiveExcerptRequest>) -> Result<Vec<Option<StoredExcerpt>>, Error>,
    D: Fn(&Vec<StoredExcerptRequest>) -> Result<Vec<Option<StoredExcerpt>>, Error>,
    F: Fn(&StoredExcerpt, usize, usize, usize) -> Option<StoredExcerpt>,
>(
    references: Z,
    scope: Scope,
    record: K,
    enclosing: N,
    adaptive: E,
    stored: D,
    fit: F,
    caller: bool,
    at_once: bool,
    budget: usize,
    before: Notes,
    found: ReferenceEvidence,
    after: Notes,
) -> bool {
    let hits = views(found.references@);
    &&& if caller {
        hits_found(
            at_once,
            references,
            scope,
            record,
            MAX_CONTEXT_HITS_PER_SOURCE,
            before,
            found.references@,
            after,
        )
    } else {
        found.references@.len() == 0 && after == before
    }
    &&& enclosing_said(enclosing, reference_places(hits), Ok(found.enclosing))
    &&& adaptive_said(
        adaptive,
        reference_requests(hits, found.enclosing@, budget, hits.len() as int),
        Ok(found.excerpts),
    )
    &&& exists|rows: Vec<Option<StoredExcerpt>>|
        {
            &&& #[trigger] stored_said(
                stored,
                fallback_requests(hits, missing(found.declared()), hits.len() as int),
                Ok(rows),
            )
            &&& all_fitted(
                fit,
                excerpts(rows@),
                marked(reference_rows(hits), missing(found.declared()), hits.len() as int),
                excerpt_tokens(budget, ContextExcerptKind::Reference),
                budget,
                excerpts(found.fallbacks@),
            )
        }
}

/// Whether some batch of requests could not be answered.
pub open spec fn batch_failed<
    N: Fn(&Vec<FileLine>) -> Result<Vec<Option<LineRange>>, Error>,
    E: Fn(&Vec<AdaptiveExcerptRequest>) -> Result<Vec<Option<StoredExcerpt>>, Error>,
    D: Fn(&Vec<StoredExcerptRequest>) -> Result<Vec<Option<StoredExcerpt>>, Error>,
>(enclosing: N, adaptive: E, stored: D, error: Error) -> bool {
    ||| exists|places: Seq<FileLine>| #[trigger] enclosing_said(enclosing, places, Err(error))
    ||| exists|requests: Seq<AdaptiveExcerptRequest>| #[trigger]
        adaptive_said(adaptive, requests, Err(error))
    ||| exists|requests: Seq<StoredExcerptRequest>| #[trigger]
        stored_said(stored, requests, Err(error))
}

fn find_references<
    Z: Fn(usize, usize) -> Result<Vec<ReferenceHit>, Error>,
    A: Fn(&str) -> bool,
    K: Fn(&Vec<String>, Error) -> Result<Vec<String>, Error>,
    N: Fn(&Vec<FileLine>) -> Result<Vec<Option<LineRange>>, Error>,
    E: Fn(&Vec<AdaptiveExcerptRequest>) -> Result<Vec<Option<StoredExcerpt>>, Error>,
    D: Fn(&Vec<StoredExcerptRequest>) -> Result<Vec<Option<StoredExcerpt>>, Error>,
    F: Fn(&StoredExcerpt, usize, usize, usize) -> Option<StoredExcerpt>,
>(
    references: &Z,
    allows: &A,
    strict: &Option<Vec<String>>,
    record: &K,
    enclosing: &N,
    adaptive: &E,
    stored: &D,
    fit: &F,
    caller: bool,
    at_once: bool,
    budget: usize,
    cancellation: &CancellationToken,
    warnings: &mut Vec<String>,
    path_excluded: &mut Vec<String>,
) -> (r: Result<ReferenceEvidence, Error>)
    requires
        forall|offset: usize, limit: usize| call_requires(*references, (offset, limit)),
        can_judge(allows),
        forall|list: &Vec<String>, error: Error| call_requires(*record, (list, error)),
        forall|list: &Vec<FileLine>| call_requires(*enclosing, (list,)),
        forall|list: &Vec<AdaptiveExcerptRequest>| call_requires(*adaptive, (list,)),
        forall|list: &Vec<StoredExcerptRequest>| call_requires(*stored, (list,)),
        forall|given: &StoredExcerpt, line: usize, tokens: usize, selection: usize|
            call_requires(*fit, (given, line, tokens, selection)),
    ensures
        match r {
            Ok(found) => references_found(
                *references,
                scope_of(*allows, *strict),
                *record,
                *enclosing,
                *adaptive,
                *stored,
                *fit,
                caller,
                at_once,
                budget,
                Notes { warnings: texts(old(warnings)@), excluded: texts(old(path_excluded)@) },
                found,
                Notes {
                    warnings: texts(final(warnings)@),
                    excluded: texts(final(path_excluded)@),
                },
            ),
            Err(e) => {
                ||| stopped(e, *cancellation)
                ||| caller && hits_lost(at_once, *references, *record, e)
                ||| batch_failed(*enclosing, *adaptive, *stored, e)
            },
        },
{
    let hits: Vec<ReferenceHit> = if caller {
        match hits_in_scope(
            at_once,
            references,
            allows,
            strict,
            record,
            cancellation,
            warnings,
            path_excluded,
        ) {
            Ok(hits) => hits,
            Err(e) => {
                return Err(e);
            },
        }
    } else {
        Vec::new()
    };
    assert(views(hits@).len() == hits@.len());
    let places = places_of(&hits);
    let around = match enclosing(&places) {
        Ok(around) => around,
        Err(e) => {
            assert(enclosing_said(*enclosing, places@, Err(e)));
            return Err(e);
        },
    };
    assert(enclosing_said(*enclosing, reference_places(views(hits@)), Ok(around)));
    let requests = reference_excerpt_requests(&hits, &around, budget);
    let shown = match adaptive(&requests) {
        Ok(shown) => shown,
        Err(e) => {
            assert(adaptive_said(*adaptive, requests@, Err(e)));
            return Err(e);
        },
    };
    assert(adaptive_said(*adaptive, requests@, Ok(shown)));
    let declared = scatter(&mark_enclosed(&around, hits.len()), &shown);
    let asked = mark_missing(&declared);
    let wanted = reference_fallback_requests(&hits, &asked);
    let rows = match stored(&wanted) {
        Ok(rows) => rows,
        Err(e) => {
            assert(stored_said(*stored, wanted@, Err(e)));
            return Err(e);
        },
    };
    assert(stored_said(*stored, wanted@, Ok(rows)));
    let lines = marked_reference_rows(&hits, &asked);
    let fallbacks = fit_all(
        fit,
        &rows,
        &lines,
        excerpt_budget(budget, ContextExcerptKind::Reference),
        budget,
    );
    let ghost rows_told = rows;
    let found = ReferenceEvidence {
        references: hits,
        enclosing: around,
        excerpts: shown,
        fallbacks,
    };
    proof {
        let all = views(found.references@);
        assert(found.declared() == excerpts(declared@));
        assert(asked@ == missing(found.declared()));
        assert(stored_said(
            *stored,
            fallback_requests(all, missing(found.declared()), all.len() as int),
            Ok(rows_told),
        ));
        assert(all_fitted(
            *fit,
            excerpts(rows_told@),
            marked(reference_rows(all), missing(found.declared()), all.len() as int),
            excerpt_tokens(budget, ContextExcerptKind::Reference),
            budget,
            excerpts(found.fallbacks@),
        ));
    }
    Ok(found)
}

/// The text that a search brings and the excerpts that show it.
pub struct TextEvidence {
    pub kind: LexicalSearch,
    pub chunks: Vec<ChunkHit>,
    pub allowed: Vec<bool>,
    pub facts: Vec<Option<LexicalMatchFacts>>,
    pub enclosing: Vec<Option<LineRange>>,
    pub excerpts: Vec<Option<StoredExcerpt>>,
    pub fallbacks: Vec<Option<StoredExcerpt>>,
}

impl TextEvidence {
    /// The chunks in scope in which the term occurs.
    pub open spec fn matches(self) -> Seq<LexicalMatchView> {
        matched_chunks(
            views(self.chunks@),
            self.allowed@,
            self.facts@,
            self.chunks@.len() as int,
        )
    }

    /// The excerpts of declarations round the matches.
    pub open spec fn declared(self) -> Seq<Option<ExcerptView>> {
        scattered(enclosed(self.enclosing@, self.matches().len()), excerpts(self.excerpts@))
    }
}

/// Whether `verdicts` may be said of the paths of chunks.
pub open spec fn chunks_judged(
    scope: Scope,
    chunks: Seq<ChunkHitView>,
    verdicts: Seq<bool>,
) -> bool {
    &&& verdicts.len() == chunks.len()
    &&& forall|i: int| 0 <= i < chunks.len() ==> scope(chunks[i].path, #[trigger] verdicts[i])
}

fn judge_chunks<A: Fn(&str) -> bool>(
    allows: &A,
    strict: &Option<Vec<String>>,
    chunks: &Vec<ChunkHit>,
) -> (r: Vec<bool>)
    requires
        can_judge(allows),
    ensures
        chunks_judged(scope_of(*allows, *strict), views(chunks@), r@),
{
    let ghost scope = scope_of(*allows, *strict);
    let mut out: Vec<bool> = Vec::new();
    let mut i: usize = 0;
    while i < chunks.len()
        invariant
            i <= chunks.len(),
            out@.len() == i,
            can_judge(allows),
            scope == scope_of(*allows, *strict),
            forall|k: int| 0 <= k < i ==> scope(views(chunks@)[k].path, #[trigger] out@[k]),
        decreases chunks.len() - i,
    {
        let verdict = judge(allows, strict, chunks[i].path.as_str());
        assert(views(chunks@)[i as int] == chunks@[i as int]@);
        assert(scope(views(chunks@)[i as int].path, verdict));
        out.push(verdict);
        i += 1;
    }
    assert(views(chunks@).len() == chunks@.len());
    out
}

/// Whether the search of text for a query may bring this evidence.
pub open spec fn texts_found<
    Q: Fn(LexicalSearch, &str, usize, usize) -> Result<Vec<ChunkHit>, Error>,
    G: Fn() -> Result<FullScan, Error>,
    K: Fn(&Vec<String>, Error) -> Result<Vec<String>, Error>,
    N: Fn(&Vec<FileLine>) -> Result<Vec<Option<LineRange>>, Error>,
    E: Fn(&Vec<AdaptiveExcerptRequest>) -> Result<Vec<Option<StoredExcerpt>>, Error>,
    F: Fn(&StoredExcerpt, usize, usize, usize) -> Option<StoredExcerpt>,
>(
    search: Q,
    scan: G,
    scope: Scope,
    record: K,
    enclosing: N,
    adaptive: E,
    fit: F,
    term: Seq<char>,
    quoted: Seq<char>,
    folded: Option<FoldedTerm>,
    budget: usize,
    before: Notes,
    found: TextEvidence,
    after: Notes,
) -> bool {
    let list = found.matches();
    let absent = missing(found.declared());
    &&& found.kind == lexical_route(term, ranked::expansion(folded))
    &&& if found.kind == LexicalSearch::FullScan {
        after.excluded == before.excluded && scan_taken(
            scan,
            record,
            before.warnings,
            found.chunks@,
            after.warnings,
        )
    } else {
        chunks_found(
            search,
            scope,
            found.kind,
            searched_text(term, quoted, folded),
            before,
            found.chunks@,
            after,
        )
    }
    &&& chunks_judged(scope, views(found.chunks@), found.allowed@)
    &&& chunks_analyzed(views(found.chunks@), term, found.facts@)
    &&& enclosing_said(enclosing, match_places(list), Ok(found.enclosing))
    &&& adaptive_said(
        adaptive,
        match_requests(list, found.enclosing@, budget, list.len() as int),
        Ok(found.excerpts),
    )
    &&& all_fitted(
        fit,
        marked(match_excerpts(list, found.facts@), absent, list.len() as int),
        marked(match_rows(list), absent, list.len() as int),
        excerpt_tokens(budget, ContextExcerptKind::Text),
        budget,
        excerpts(found.fallbacks@),
    )
}

/// Whether the search of text for a query may fail so.
pub open spec fn texts_lost<
    Q: Fn(LexicalSearch, &str, usize, usize) -> Result<Vec<ChunkHit>, Error>,
    G: Fn() -> Result<FullScan, Error>,
    K: Fn(&Vec<String>, Error) -> Result<Vec<String>, Error>,
>(
    search: Q,
    scan: G,
    record: K,
    term: Seq<char>,
    quoted: Seq<char>,
    folded: Option<FoldedTerm>,
    error: Error,
) -> bool {
    let kind = lexical_route(term, ranked::expansion(folded));
    ||| too_large(error)
    ||| if kind == LexicalSearch::FullScan {
        exists|warnings: Seq<Seq<char>>| #[trigger] scan_failed(scan, record, warnings, error)
    } else {
        search_failed(search, kind, searched_text(term, quoted, folded), error)
    }
}

fn find_texts<
    Q: Fn(LexicalSearch, &str, usize, usize) -> Result<Vec<ChunkHit>, Error>,
    G: Fn() -> Result<FullScan, Error>,
    A: Fn(&str) -> bool,
    K: Fn(&Vec<String>, Error) -> Result<Vec<String>, Error>,
    N: Fn(&Vec<FileLine>) -> Result<Vec<Option<LineRange>>, Error>,
    E: Fn(&Vec<AdaptiveExcerptRequest>) -> Result<Vec<Option<StoredExcerpt>>, Error>,
    F: Fn(&StoredExcerpt, usize, usize, usize) -> Option<StoredExcerpt>,
>(
    search: &Q,
    scan: &G,
    allows: &A,
    strict: &Option<Vec<String>>,
    record: &K,
    enclosing: &N,
    adaptive: &E,
    fit: &F,
    term: &str,
    quoted: &str,
    folded: &Option<FoldedTerm>,
    budget: usize,
    cancellation: &CancellationToken,
    warnings: &mut Vec<String>,
    path_excluded: &mut Vec<String>,
) -> (r: Result<TextEvidence, Error>)
    requires
        forall|kind: LexicalSearch, query: &str, offset: usize, limit: usize|
            call_requires(*search, (kind, query, offset, limit)),
        call_requires(*scan, ()),
        can_judge(allows),
        forall|list: &Vec<String>, error: Error| call_requires(*record, (list, error)),
        forall|list: &Vec<FileLine>| call_requires(*enclosing, (list,)),
        forall|list: &Vec<AdaptiveExcerptRequest>| call_requires(*adaptive, (list,)),
        forall|given: &StoredExcerpt, line: usize, tokens: usize, selection: usize|
            call_requires(*fit, (given, line, tokens, selection)),
    ensures
        match r {
            Ok(found) => texts_found(
                *search,
                *scan,
                scope_of(*allows, *strict),
                *record,
                *enclosing,
                *adaptive,
                *fit,
                term@,
                quoted@,
                *folded,
                budget,
                Notes { warnings: texts(old(warnings)@), excluded: texts(old(path_excluded)@) },
                found,
                Notes {
                    warnings: texts(final(warnings)@),
                    excluded: texts(final(path_excluded)@),
                },
            ),
            Err(e) => {
                ||| stopped(e, *cancellation)
                ||| texts_lost(*search, *scan, *record, term@, quoted@, *folded, e)
                ||| exists|places: Seq<FileLine>| #[trigger]
                    enclosing_said(*enclosing, places, Err(e))
                ||| exists|requests: Seq<AdaptiveExcerptRequest>| #[trigger]
                    adaptive_said(*adaptive, requests, Err(e))
            },
        },
{
    let scope = |path: &str| -> (verdict: bool)
        requires
            can_judge(allows),
        ensures
            scope_told(allows, strict, path@, verdict),
        { judge(allows, strict, path) };
    let ghost before = Notes { warnings: texts(warnings@), excluded: texts(path_excluded@) };
    let (chunks, kind) = match Services::context_lexical_hits(
        term,
        quoted,
        folded,
        search,
        scan,
        &scope,
        record,
        cancellation,
        warnings,
        path_excluded,
    ) {
        Ok(found) => found,
        Err(e) => {
            return Err(e);
        },
    };
    let ghost after = Notes { warnings: texts(warnings@), excluded: texts(path_excluded@) };
    proof {
        if kind != LexicalSearch::FullScan {
            lemma_wider_chunks(
                *search,
                allowed_by(scope),
                scope_of(*allows, *strict),
                kind,
                searched_text(term@, quoted@, *folded),
                before,
                chunks@,
                after,
            );
        }
    }
    let allowed = judge_chunks(allows, strict, &chunks);
    let facts = match analyze_chunks(&chunks, term) {
        Ok(facts) => facts,
        Err(e) => {
            return Err(e);
        },
    };
    let mut passed: Vec<String> = Vec::new();
    let (list, _) = keep_matches(&chunks, &allowed, &facts, &mut passed);
    let ghost all = views(list@);
    assert(all.len() == list@.len());
    let places = match_places_of(&list);
    let around = match enclosing(&places) {
        Ok(around) => around,
        Err(e) => {
            assert(enclosing_said(*enclosing, places@, Err(e)));
            return Err(e);
        },
    };
    assert(enclosing_said(*enclosing, match_places(all), Ok(around)));
    let requests = match_excerpt_requests(&list, &around, budget);
    let shown = match adaptive(&requests) {
        Ok(shown) => shown,
        Err(e) => {
            assert(adaptive_said(*adaptive, requests@, Err(e)));
            return Err(e);
        },
    };
    assert(adaptive_said(*adaptive, requests@, Ok(shown)));
    let declared = scatter(&mark_enclosed(&around, list.len()), &shown);
    let asked = mark_missing(&declared);
    let given = marked_match_excerpts(&list, &facts, &asked);
    let lines = marked_match_rows(&list, &asked);
    let fallbacks = fit_all(
        fit,
        &given,
        &lines,
        excerpt_budget(budget, ContextExcerptKind::Text),
        budget,
    );
    let found = TextEvidence {
        kind,
        chunks,
        allowed,
        facts,
        enclosing: around,
        excerpts: shown,
        fallbacks,
    };
    proof {
        assert(found.matches() == all);
        assert(found.declared() == excerpts(declared@));
        assert(asked@ == missing(found.declared()));
    }
    Ok(found)
}

/// The references of the evidence of a query.
pub open spec fn reference_part(evidence: QueryEvidence) -> ReferenceEvidence {
    ReferenceEvidence {
        references: evidence.references,
        enclosing: evidence.enclosing,
        excerpts: evidence.reference_excerpts,
        fallbacks: evidence.reference_fallbacks,
    }
}

/// The text of the evidence of a query.
pub open spec fn text_part(evidence: QueryEvidence) -> TextEvidence {
    TextEvidence {
        kind: evidence.lexical_kind,
        chunks: evidence.chunks,
        allowed: evidence.allowed,
        facts: evidence.lexical_facts,
        enclosing: evidence.lexical_enclosing,
        excerpts: evidence.lexical_excerpts,
        fallbacks: evidence.lexical_fallbacks,
    }
}

/// Whether the searches for a query may bring this evidence and leave these
/// warnings.
pub open spec fn evidence_found<
    V: Fn(&str) -> Result<(), Error>,
    Y: Fn(usize, usize) -> Result<Vec<SymbolHit>, Error>,
    Z: Fn(usize, usize) -> Result<Vec<ReferenceHit>, Error>,
    Q: Fn(LexicalSearch, &str, usize, usize) -> Result<Vec<ChunkHit>, Error>,
    G: Fn() -> Result<FullScan, Error>,
    A: Fn(&str) -> bool,
    K: Fn(&Vec<String>, Error) -> Result<Vec<String>, Error>,
    N: Fn(&Vec<FileLine>) -> Result<Vec<Option<LineRange>>, Error>,
    E: Fn(&Vec<AdaptiveExcerptRequest>) -> Result<Vec<Option<StoredExcerpt>>, Error>,
    D: Fn(&Vec<StoredExcerptRequest>) -> Result<Vec<Option<StoredExcerpt>>, Error>,
    F: Fn(&StoredExcerpt, usize, usize, usize) -> Option<StoredExcerpt>,
>(
    ports: QueryPorts<V, Y, Z, Q, G, A, K, N, E, D, F>,
    expansion: QueryExpansion<'_>,
    strict: Option<Vec<String>>,
    quoted: Seq<char>,
    folded: Option<FoldedTerm>,
    warnings: Seq<Seq<char>>,
    evidence: QueryEvidence,
    warned: Seq<Seq<char>>,
) -> bool {
    let scope = scope_of(ports.allows, strict);
    let budget = expansion.request.token_budget;
    let before = Notes { warnings, excluded: Seq::empty() };
    let after = Notes { warnings: warned, excluded: texts(evidence.passed_over@) };
    &&& term_said(ports.compile, expansion.query.value@, Ok(()))
    &&& exists|first: Notes, second: Notes|
        {
            &&& #[trigger] symbols_found(
                ports.symbols,
                scope,
                ports.record,
                ports.adaptive,
                folded is None,
                budget,
                before,
                evidence.symbols,
                evidence.symbol_excerpts,
                first,
            )
            &&& #[trigger] references_found(
                ports.references,
                scope,
                ports.record,
                ports.enclosing,
                ports.adaptive,
                ports.stored,
                ports.fit,
                expansion.caller,
                folded is None,
                budget,
                first,
                reference_part(evidence),
                second,
            )
            &&& texts_found(
                ports.search,
                ports.scan,
                scope,
                ports.record,
                ports.enclosing,
                ports.adaptive,
                ports.fit,
                expansion.query.value@,
                quoted,
                folded,
                budget,
                second,
                text_part(evidence),
                after,
            )
        }
}

/// Whether the searches for a query may fail so.
pub open spec fn evidence_lost<
    V: Fn(&str) -> Result<(), Error>,
    Y: Fn(usize, usize) -> Result<Vec<SymbolHit>, Error>,
    Z: Fn(usize, usize) -> Result<Vec<ReferenceHit>, Error>,
    Q: Fn(LexicalSearch, &str, usize, usize) -> Result<Vec<ChunkHit>, Error>,
    G: Fn() -> Result<FullScan, Error>,
    A: Fn(&str) -> bool,
    K: Fn(&Vec<String>, Error) -> Result<Vec<String>, Error>,
    N: Fn(&Vec<FileLine>) -> Result<Vec<Option<LineRange>>, Error>,
    E: Fn(&Vec<AdaptiveExcerptRequest>) -> Result<Vec<Option<StoredExcerpt>>, Error>,
    D: Fn(&Vec<StoredExcerptRequest>) -> Result<Vec<Option<StoredExcerpt>>, Error>,
    F: Fn(&StoredExcerpt, usize, usize, usize) -> Option<StoredExcerpt>,
>(
    ports: QueryPorts<V, Y, Z, Q, G, A, K, N, E, D, F>,
    expansion: QueryExpansion<'_>,
    quoted: Seq<char>,
    folded: Option<FoldedTerm>,
    cancellation: CancellationToken,
    error: Error,
) -> bool {
    let term = expansion.query.value@;
    ||| stopped(error, cancellation)
    ||| term_said(ports.compile, term, Err(error))
    ||| answered(cancellation, false) && {
        ||| hits_lost(folded is None, ports.symbols, ports.record, error)
        ||| expansion.caller && hits_lost(folded is None, ports.references, ports.record, error)
        ||| texts_lost(ports.search, ports.scan, ports.record, term, quoted, folded, error)
        ||| batch_failed(ports.enclosing, ports.adaptive, ports.stored, error)
    }
}

impl Services {
    /// Searches for a query: for symbols, for references where callers count, and in
    /// text. `strict` holds the changed paths that the request is held to, `quoted` is
    /// the term as a quoted word and `folded` its variants. A term that does not
    /// compile is an error.
    #[verifier::rlimit(40)]
    pub fn query_evidence<
        V: Fn(&str) -> Result<(), Error>,
        Y: Fn(usize, usize) -> Result<Vec<SymbolHit>, Error>,
        Z: Fn(usize, usize) -> Result<Vec<ReferenceHit>, Error>,
        Q: Fn(LexicalSearch, &str, usize, usize) -> Result<Vec<ChunkHit>, Error>,
        G: Fn() -> Result<FullScan, Error>,
        A: Fn(&str) -> bool,
        K: Fn(&Vec<String>, Error) -> Result<Vec<String>, Error>,
        N: Fn(&Vec<FileLine>) -> Result<Vec<Option<LineRange>>, Error>,
        E: Fn(&Vec<AdaptiveExcerptRequest>) -> Result<Vec<Option<StoredExcerpt>>, Error>,
        D: Fn(&Vec<StoredExcerptRequest>) -> Result<Vec<Option<StoredExcerpt>>, Error>,
        F: Fn(&StoredExcerpt, usize, usize, usize) -> Option<StoredExcerpt>,
    >(
        expansion: &QueryExpansion<'_>,
        strict: &Option<Vec<String>>,
        quoted: &str,
        folded: &Option<FoldedTerm>,
        ports: &QueryPorts<V, Y, Z, Q, G, A, K, N, E, D, F>,
        cancellation: &CancellationToken,
        warnings: &mut Vec<String>,
    ) -> (r: Result<QueryEvidence, Error>)
        requires
            query_answers(*ports),
        ensures
            r is Ok ==> answered(*cancellation, false),
            match r {
                Ok(evidence) => evidence_found(
                    *ports,
                    *expansion,
                    *strict,
                    quoted@,
                    *folded,
                    texts(old(warnings)@),
                    evidence,
                    texts(final(warnings)@),
                ),
                Err(e) => evidence_lost(*ports, *expansion, quoted@, *folded, *cancellation, e),
            },
    {
        let term = expansion.query.value.as_str();
        let budget: usize = expansion.request.token_budget;
        let at_once = folded.is_none();
        let mut passed_over: Vec<String> = Vec::new();
        let ghost before = Notes { warnings: texts(warnings@), excluded: texts(passed_over@) };
        assert(before.excluded =~= Seq::<Seq<char>>::empty());
        assert(can_judge(&ports.allows));
        let compiled = (ports.compile)(term);
        assert(term_said(ports.compile, term@, compiled));
        match compiled {
            Ok(nothing) => {
                assert(nothing == ());
                assert(term_said(ports.compile, term@, Ok(())));
            },
            Err(e) => {
                return Err(e);
            },
        }
        match check_cancelled(cancellation) {
            Ok(_) => {},
            Err(e) => {
                return Err(e);
            },
        }
        let symbols = match hits_in_scope(
            at_once,
            &ports.symbols,
            &ports.allows,
            strict,
            &ports.record,
            cancellation,
            warnings,
            &mut passed_over,
        ) {
            Ok(symbols) => symbols,
            Err(e) => {
                return Err(e);
            },
        };
        let ghost first = Notes { warnings: texts(warnings@), excluded: texts(passed_over@) };
        let requests = symbol_excerpt_requests(&symbols, budget);
        let symbol_excerpts = match (ports.adaptive)(&requests) {
            Ok(shown) => shown,
            Err(e) => {
                assert(adaptive_said(ports.adaptive, requests@, Err(e)));
                return Err(e);
            },
        };
        assert(adaptive_said(ports.adaptive, requests@, Ok(symbol_excerpts)));
        assert(symbols_found(
            ports.symbols,
            scope_of(ports.allows, *strict),
            ports.record,
            ports.adaptive,
            at_once,
            budget,
            before,
            symbols,
            symbol_excerpts,
            first,
        ));
        let references = match find_references(
            &ports.references,
            &ports.allows,
            strict,
            &ports.record,
            &ports.enclosing,
            &ports.adaptive,
            &ports.stored,
            &ports.fit,
            expansion.caller,
            at_once,
            budget,
            cancellation,
            warnings,
            &mut passed_over,
        ) {
            Ok(found) => found,
            Err(e) => {
                return Err(e);
            },
        };
        let ghost second = Notes { warnings: texts(warnings@), excluded: texts(passed_over@) };
        let found = match find_texts(
            &ports.search,
            &ports.scan,
            &ports.allows,
            strict,
            &ports.record,
            &ports.enclosing,
            &ports.adaptive,
            &ports.fit,
            term,
            quoted,
            folded,
            budget,
            cancellation,
            warnings,
            &mut passed_over,
        ) {
            Ok(found) => found,
            Err(e) => {
                return Err(e);
            },
        };
        let ghost told = (references, found);
        let evidence = QueryEvidence {
            symbols,
            symbol_excerpts,
            references: references.references,
            enclosing: references.enclosing,
            reference_excerpts: references.excerpts,
            reference_fallbacks: references.fallbacks,
            lexical_kind: found.kind,
            passed_over,
            chunks: found.chunks,
            allowed: found.allowed,
            lexical_facts: found.facts,
            lexical_enclosing: found.enclosing,
            lexical_excerpts: found.excerpts,
            lexical_fallbacks: found.fallbacks,
        };
        proof {
            let scope = scope_of(ports.allows, *strict);
            let after = Notes {
                warnings: texts(warnings@),
                excluded: texts(evidence.passed_over@),
            };
            assert(reference_part(evidence) == told.0);
            assert(text_part(evidence) == told.1);
            assert(symbols_found(
                ports.symbols,
                scope,
                ports.record,
                ports.adaptive,
                at_once,
                budget,
                before,
                evidence.symbols,
                evidence.symbol_excerpts,
                first,
            ));
            assert(references_found(
                ports.references,
                scope,
                ports.record,
                ports.enclosing,
                ports.adaptive,
                ports.stored,
                ports.fit,
                expansion.caller,
                at_once,
                budget,
                first,
                reference_part(evidence),
                second,
            ));
            assert(texts_found(
                ports.search,
                ports.scan,
                scope,
                ports.record,
                ports.enclosing,
                ports.adaptive,
                ports.fit,
                term@,
                quoted@,
                *folded,
                budget,
                second,
                text_part(evidence),
                after,
            ));
        }
        Ok(evidence)
    }
}

/// Whether what was gathered only grew, by candidates that are in scope, of which
/// none is a reference unless callers count.
pub open spec fn grows_in_scope(
    before: GatheredView,
    after: GatheredView,
    scope: Scope,
    caller: bool,
) -> bool {
    &&& before.candidates.is_prefix_of(after.candidates)
    &&& before.path_excluded.is_prefix_of(after.path_excluded)
    &&& forall|i: int|
        before.candidates.len() <= i < after.candidates.len() ==> scope(
            (#[trigger] after.candidates[i]).path,
            true,
        ) && (!caller ==> !after.candidates[i].match_kinds.contains("reference"@))
}

proof fn lemma_names_keep_kinds(
    candidate: CandidateView,
    names: Seq<Seq<char>>,
    concept: Seq<char>,
    upto: int,
)
    ensures
        under_names(candidate, names, concept, upto).path == candidate.path,
        under_names(candidate, names, concept, upto).match_kinds == candidate.match_kinds,
    decreases upto,
{
    if upto > 0 {
        lemma_names_keep_kinds(candidate, names, concept, upto - 1);
    }
}

proof fn lemma_annotated_keeps_kinds(
    candidate: CandidateView,
    query: QueryView,
    channel: Seq<char>,
    rank: usize,
)
    ensures
        annotated(candidate, query, channel, rank).path == candidate.path,
        annotated(candidate, query, channel, rank).match_kinds == candidate.match_kinds,
{
    let names = kind_names(query.facets);
    lemma_names_keep_kinds(candidate, names, query.fusion_key, names.len() as int);
}

proof fn lemma_symbols_grow(
    gathered: GatheredView,
    expansion: QueryExpansion<'_>,
    hits: Seq<SymbolHitView>,
    shown: Seq<Option<ExcerptView>>,
    upto: int,
    scope: Scope,
)
    requires
        upto <= hits.len(),
        forall|i: int| 0 <= i < hits.len() ==> scope((#[trigger] hits[i]).path, true),
    ensures
        grows_in_scope(
            gathered,
            with_symbols(gathered, expansion, hits, shown, upto),
            scope,
            expansion.caller,
        ),
    decreases upto,
{
    reveal_strlit("symbol");
    reveal_strlit("reference");
    if upto > 0 {
        lemma_symbols_grow(gathered, expansion, hits, shown, upto - 1, scope);
        assert("symbol"@.len() != "reference"@.len());
        assert(scope(hits[upto - 1].path, true));
        if let Some(excerpt) = answer_at(shown, upto - 1) {
            let candidate = symbol_candidate(expansion, hits[upto - 1], excerpt);
            lemma_annotated_keeps_kinds(
                candidate,
                expansion.query@,
                "symbol"@,
                (upto - 1) as usize,
            );
            assert(candidate.match_kinds =~= seq!["symbol"@]);
        }
    }
}

proof fn lemma_references_grow(
    gathered: GatheredView,
    expansion: QueryExpansion<'_>,
    hits: Seq<ReferenceHitView>,
    shown: Seq<Option<ExcerptView>>,
    upto: int,
    scope: Scope,
)
    requires
        upto <= hits.len(),
        forall|i: int| 0 <= i < hits.len() ==> scope((#[trigger] hits[i]).path, true),
        hits.len() > 0 ==> expansion.caller,
    ensures
        grows_in_scope(
            gathered,
            with_references(gathered, expansion, hits, shown, upto),
            scope,
            expansion.caller,
        ),
    decreases upto,
{
    if upto > 0 {
        lemma_references_grow(gathered, expansion, hits, shown, upto - 1, scope);
        assert(scope(hits[upto - 1].path, true));
        if let Some(excerpt) = answer_at(shown, upto - 1) {
            lemma_annotated_keeps_kinds(
                reference_candidate(expansion, hits[upto - 1], excerpt),
                expansion.query@,
                "reference"@,
                (upto - 1) as usize,
            );
        }
    }
}

proof fn lemma_matches_in_scope(
    chunks: Seq<ChunkHitView>,
    allowed: Seq<bool>,
    facts: Seq<Option<LexicalMatchFacts>>,
    upto: int,
    scope: Scope,
)
    requires
        upto <= chunks.len(),
        chunks_judged(scope, chunks, allowed),
    ensures
        forall|i: int|
            0 <= i < matched_chunks(chunks, allowed, facts, upto).len() ==> scope(
                (#[trigger] matched_chunks(chunks, allowed, facts, upto)[i]).path,
                true,
            ),
    decreases upto,
{
    if upto > 0 {
        lemma_matches_in_scope(chunks, allowed, facts, upto - 1, scope);
        let before = matched_chunks(chunks, allowed, facts, upto - 1);
        let all = matched_chunks(chunks, allowed, facts, upto);
        assert(scope(chunks[upto - 1].path, allowed[upto - 1]));
        assert forall|i: int| 0 <= i < all.len() implies scope((#[trigger] all[i]).path, true) by {
            if i < before.len() {
                assert(all[i] == before[i]);
            }
        }
    }
}

proof fn lemma_texts_grow(
    gathered: GatheredView,
    expansion: QueryExpansion<'_>,
    list: Seq<LexicalMatchView>,
    shown: Seq<Option<ExcerptView>>,
    upto: int,
    scope: Scope,
)
    requires
        upto <= list.len(),
        forall|i: int| 0 <= i < list.len() ==> scope((#[trigger] list[i]).path, true),
    ensures
        grows_in_scope(
            gathered,
            with_texts(gathered, expansion, list, shown, upto),
            scope,
            expansion.caller,
        ),
    decreases upto,
{
    reveal_strlit("text");
    reveal_strlit("reference");
    if upto > 0 {
        lemma_texts_grow(gathered, expansion, list, shown, upto - 1, scope);
        assert("text"@.len() != "reference"@.len());
        assert(scope(list[upto - 1].path, true));
        if let Some(excerpt) = answer_at(shown, upto - 1) {
            let candidate = text_candidate(expansion, list[upto - 1], excerpt);
            lemma_annotated_keeps_kinds(
                candidate,
                expansion.query@,
                "text"@,
                list[upto - 1].rank,
            );
            assert(candidate.match_kinds =~= seq!["text"@]);
        }
    }
}

proof fn lemma_growth_adds_up(
    first: GatheredView,
    second: GatheredView,
    third: GatheredView,
    scope: Scope,
    caller: bool,
)
    requires
        grows_in_scope(first, second, scope, caller),
        grows_in_scope(second, third, scope, caller),
    ensures
        grows_in_scope(first, third, scope, caller),
{
    assert(first.candidates =~= third.candidates.take(first.candidates.len() as int));
    assert forall|i: int| first.candidates.len() <= i < third.candidates.len() implies scope(
        (#[trigger] third.candidates[i]).path,
        true,
    ) && (!caller ==> !third.candidates[i].match_kinds.contains("reference"@)) by {
        if i < second.candidates.len() {
            assert(second.candidates[i] == third.candidates[i]);
        }
    }
}

/// The searches for a query bring only candidates that are in scope.
pub proof fn evidence_stays_in_scope<
    V: Fn(&str) -> Result<(), Error>,
    Y: Fn(usize, usize) -> Result<Vec<SymbolHit>, Error>,
    Z: Fn(usize, usize) -> Result<Vec<ReferenceHit>, Error>,
    Q: Fn(LexicalSearch, &str, usize, usize) -> Result<Vec<ChunkHit>, Error>,
    G: Fn() -> Result<FullScan, Error>,
    A: Fn(&str) -> bool,
    K: Fn(&Vec<String>, Error) -> Result<Vec<String>, Error>,
    N: Fn(&Vec<FileLine>) -> Result<Vec<Option<LineRange>>, Error>,
    E: Fn(&Vec<AdaptiveExcerptRequest>) -> Result<Vec<Option<StoredExcerpt>>, Error>,
    D: Fn(&Vec<StoredExcerptRequest>) -> Result<Vec<Option<StoredExcerpt>>, Error>,
    F: Fn(&StoredExcerpt, usize, usize, usize) -> Option<StoredExcerpt>,
>(
    ports: QueryPorts<V, Y, Z, Q, G, A, K, N, E, D, F>,
    expansion: QueryExpansion<'_>,
    strict: Option<Vec<String>>,
    quoted: Seq<char>,
    folded: Option<FoldedTerm>,
    warnings: Seq<Seq<char>>,
    evidence: QueryEvidence,
    warned: Seq<Seq<char>>,
    gathered: GatheredView,
)
    requires
        evidence_found(ports, expansion, strict, quoted, folded, warnings, evidence, warned),
    ensures
        grows_in_scope(
            gathered,
            with_query(gathered, expansion, evidence),
            scope_of(ports.allows, strict),
            expansion.caller,
        ),
{
    let scope = scope_of(ports.allows, strict);
    let budget = expansion.request.token_budget;
    let before = Notes { warnings, excluded: Seq::empty() };
    let after = Notes { warnings: warned, excluded: texts(evidence.passed_over@) };
    let (first, second) = choose|first: Notes, second: Notes|
        {
            &&& #[trigger] symbols_found(
                ports.symbols,
                scope,
                ports.record,
                ports.adaptive,
                folded is None,
                budget,
                before,
                evidence.symbols,
                evidence.symbol_excerpts,
                first,
            )
            &&& #[trigger] references_found(
                ports.references,
                scope,
                ports.record,
                ports.enclosing,
                ports.adaptive,
                ports.stored,
                ports.fit,
                expansion.caller,
                folded is None,
                budget,
                first,
                reference_part(evidence),
                second,
            )
            &&& texts_found(
                ports.search,
                ports.scan,
                scope,
                ports.record,
                ports.enclosing,
                ports.adaptive,
                ports.fit,
                expansion.query.value@,
                quoted,
                folded,
                budget,
                second,
                text_part(evidence),
                after,
            )
        };
    lemma_hits_in_scope(
        folded is None,
        ports.symbols,
        scope,
        ports.record,
        MAX_CONTEXT_HITS_PER_SOURCE,
        before,
        evidence.symbols@,
        first,
    );
    let symbols = views(evidence.symbols@);
    assert forall|i: int| 0 <= i < symbols.len() implies scope((#[trigger] symbols[i]).path, true) by {
        assert(scope(evidence.symbols@[i].place(), true));
    }
    let shown = excerpts(evidence.symbol_excerpts@);
    lemma_symbols_grow(gathered, expansion, symbols, shown, symbols.len() as int, scope);
    let one = with_symbols(gathered, expansion, symbols, shown, symbols.len() as int);
    let references = references_of(expansion, evidence);
    if expansion.caller {
        lemma_hits_in_scope(
            folded is None,
            ports.references,
            scope,
            ports.record,
            MAX_CONTEXT_HITS_PER_SOURCE,
            first,
            evidence.references@,
            second,
        );
        assert forall|i: int| 0 <= i < references.len() implies scope(
            (#[trigger] references[i]).path,
            true,
        ) by {
            assert(scope(evidence.references@[i].place(), true));
        }
    }
    let around = reference_shown(expansion, evidence);
    lemma_references_grow(one, expansion, references, around, references.len() as int, scope);
    let two = with_references(one, expansion, references, around, references.len() as int);
    lemma_growth_adds_up(gathered, one, two, scope, expansion.caller);
    let noted = GatheredView {
        path_excluded: two.path_excluded + texts(evidence.passed_over@) + excluded_chunks(
            views(evidence.chunks@),
            evidence.allowed@,
            evidence.chunks@.len() as int,
        ),
        ..two
    };
    assert(grows_in_scope(two, noted, scope, expansion.caller));
    lemma_growth_adds_up(gathered, two, noted, scope, expansion.caller);
    let list = matches_of(evidence);
    assert(views(evidence.chunks@).len() == evidence.chunks@.len());
    lemma_matches_in_scope(
        views(evidence.chunks@),
        evidence.allowed@,
        evidence.lexical_facts@,
        evidence.chunks@.len() as int,
        scope,
    );
    lemma_texts_grow(noted, expansion, list, texts_shown(evidence), list.len() as int, scope);
    lemma_growth_adds_up(
        gathered,
        noted,
        with_query(gathered, expansion, evidence),
        scope,
        expansion.caller,
    );
}

/// Whether `after` is what was gathered with what a query brought, on evidence that
/// its searches may have found.
pub open spec fn query_gathered<
    V: Fn(&str) -> Result<(), Error>,
    Y: Fn(usize, usize) -> Result<Vec<SymbolHit>, Error>,
    Z: Fn(usize, usize) -> Result<Vec<ReferenceHit>, Error>,
    Q: Fn(LexicalSearch, &str, usize, usize) -> Result<Vec<ChunkHit>, Error>,
    G: Fn() -> Result<FullScan, Error>,
    A: Fn(&str) -> bool,
    K: Fn(&Vec<String>, Error) -> Result<Vec<String>, Error>,
    N: Fn(&Vec<FileLine>) -> Result<Vec<Option<LineRange>>, Error>,
    E: Fn(&Vec<AdaptiveExcerptRequest>) -> Result<Vec<Option<StoredExcerpt>>, Error>,
    D: Fn(&Vec<StoredExcerptRequest>) -> Result<Vec<Option<StoredExcerpt>>, Error>,
    F: Fn(&StoredExcerpt, usize, usize, usize) -> Option<StoredExcerpt>,
>(
    ports: QueryPorts<V, Y, Z, Q, G, A, K, N, E, D, F>,
    expansion: QueryExpansion<'_>,
    strict: Option<Vec<String>>,
    quoted: Seq<char>,
    folded: Option<FoldedTerm>,
    warnings: Seq<Seq<char>>,
    before: GatheredView,
    tracker: TrackerView,
    warned: Seq<Seq<char>>,
    after: GatheredView,
    tracked_as: TrackerView,
) -> bool {
    exists|evidence: QueryEvidence|
        {
            &&& #[trigger] evidence_found(
                ports,
                expansion,
                strict,
                quoted,
                folded,
                warnings,
                evidence,
                warned,
            )
            &&& after == with_query(before, expansion, evidence)
            &&& tracked_as == after_text_search(
                after_reference_search(
                    after_symbol_search(tracker, expansion, evidence),
                    expansion,
                    evidence,
                ),
                expansion,
                evidence,
            )
        }
}

impl Services {
    /// Adds the candidates that a query brings, and counts the work. All of them are
    /// in scope: `allows` said so of their paths, and they are within `strict`, the
    /// changed paths that the request is held to.
    pub fn append_query_candidates<
        V: Fn(&str) -> Result<(), Error>,
        Y: Fn(usize, usize) -> Result<Vec<SymbolHit>, Error>,
        Z: Fn(usize, usize) -> Result<Vec<ReferenceHit>, Error>,
        Q: Fn(LexicalSearch, &str, usize, usize) -> Result<Vec<ChunkHit>, Error>,
        G: Fn() -> Result<FullScan, Error>,
        A: Fn(&str) -> bool,
        K: Fn(&Vec<String>, Error) -> Result<Vec<String>, Error>,
        N: Fn(&Vec<FileLine>) -> Result<Vec<Option<LineRange>>, Error>,
        E: Fn(&Vec<AdaptiveExcerptRequest>) -> Result<Vec<Option<StoredExcerpt>>, Error>,
        D: Fn(&Vec<StoredExcerptRequest>) -> Result<Vec<Option<StoredExcerpt>>, Error>,
        F: Fn(&StoredExcerpt, usize, usize, usize) -> Option<StoredExcerpt>,
    >(
        expansion: &QueryExpansion<'_>,
        strict: &Option<Vec<String>>,
        quoted: &str,
        folded: &Option<FoldedTerm>,
        ports: &QueryPorts<V, Y, Z, Q, G, A, K, N, E, D, F>,
        gathered: &mut Gathered,
        warnings: &mut Vec<String>,
        phases: &mut ContextPhaseTracker,
        cancellation: &CancellationToken,
    ) -> (r: Result<(), Error>)
        requires
            query_answers(*ports),
        ensures
            r is Ok ==> answered(*cancellation, false),
            grows_in_scope(
                old(gathered)@,
                final(gathered)@,
                scope_of(ports.allows, *strict),
                expansion.caller,
            ),
            forall|i: int|
                old(gathered)@.candidates.len() <= i < final(gathered)@.candidates.len()
                    ==> in_scope(
                    ports.allows,
                    *strict,
                    (#[trigger] final(gathered)@.candidates[i]).path,
                ),
            match r {
                Ok(_) => query_gathered(
                    *ports,
                    *expansion,
                    *strict,
                    quoted@,
                    *folded,
                    texts(old(warnings)@),
                    old(gathered)@,
                    old(phases)@,
                    texts(final(warnings)@),
                    final(gathered)@,
                    final(phases)@,
                ),
                Err(e) => {
                    &&& evidence_lost(*ports, *expansion, quoted@, *folded, *cancellation, e)
                    &&& *final(gathered) == *old(gathered)
                    &&& *final(phases) == *old(phases)
                },
            },
    {
        let ghost start = gathered@;
        let ghost told = texts(warnings@);
        let evidence = match Self::query_evidence(
            expansion,
            strict,
            quoted,
            folded,
            ports,
            cancellation,
            warnings,
        ) {
            Ok(evidence) => evidence,
            Err(e) => {
                return Err(e);
            },
        };
        Self::append_query_evidence(expansion, &evidence, gathered, phases);
        proof {
            evidence_stays_in_scope(
                *ports,
                *expansion,
                *strict,
                quoted@,
                *folded,
                told,
                evidence,
                texts(warnings@),
                start,
            );
            assert forall|i: int|
                start.candidates.len() <= i < gathered@.candidates.len() implies in_scope(
                ports.allows,
                *strict,
                (#[trigger] gathered@.candidates[i]).path,
            ) by {
                assert(scope_of(ports.allows, *strict)(gathered@.candidates[i].path, true));
            }
        }
        Ok(())
    }
}

} // verus!
