//! Ranked searches whose hits are held to the scope of a request.

use crate::cancellation::{answered, stopped};
use crate::candidate_scan::{
    collect_ranked_rows, fetched, judged, kept, list_scanned, page_limit, refused, rows,
    scan_ranked_list, scan_result, RankedCandidates, MAX_FILTER_SCAN_ROWS,
};
use crate::context::candidates::lexical::{
    lexical_search, ChunkHit, LexicalSearch, ReferenceHit, SymbolHit, MAX_CONTEXT_LEXICAL_HITS,
};
use crate::error::{Error, Fault};
use crate::handoff::note;
use crate::ordered::first_of;
use crate::services::Services;
use crate::text::{appended, copy_text, decimal, decimal_text, list_has, texts};
use tokio_util::sync::CancellationToken;
use vstd::prelude::*;

verus! {

/// What a search finds in a file.
pub trait Located {
    /// The path of the file.
    spec fn place(&self) -> Seq<char>;

    /// The path of the file.
    fn path_text(&self) -> (r: &str)
        ensures
            r@ == self.place(),
    ;
}

impl Located for SymbolHit {
    open spec fn place(&self) -> Seq<char> {
        self.path@
    }

    fn path_text(&self) -> (r: &str) {
        self.path.as_str()
    }
}

impl Located for ReferenceHit {
    open spec fn place(&self) -> Seq<char> {
        self.path@
    }

    fn path_text(&self) -> (r: &str) {
        self.path.as_str()
    }
}

impl Located for ChunkHit {
    open spec fn place(&self) -> Seq<char> {
        self.path@
    }

    fn path_text(&self) -> (r: &str) {
        self.path.as_str()
    }
}

/// The paths of what a search found.
pub open spec fn places<T: Located>(found: Seq<T>) -> Seq<Seq<char>> {
    Seq::new(found.len(), |i: int| found[i].place())
}

fn copy_places<T: Located>(found: &Vec<T>) -> (r: Vec<String>)
    ensures
        texts(r@) == places(found@),
{
    let mut out: Vec<String> = Vec::new();
    let mut i: usize = 0;
    while i < found.len()
        invariant
            i <= found.len(),
            texts(out@) == places(found@).take(i as int),
        decreases found.len() - i,
    {
        let ghost before = texts(out@);
        out.push(copy_text(found[i].path_text()));
        assert(texts(out@) =~= before.push(found@[i as int].place()));
        assert(texts(out@) =~= places(found@).take(i + 1));
        i += 1;
    }
    assert(places(found@).take(found@.len() as int) =~= places(found@));
    out
}

/// The warning of a scan that stopped early.
pub open spec fn scan_warning() -> Seq<char> {
    "candidate generation incomplete: ranked scan reached "@ + decimal_text(
        MAX_FILTER_SCAN_ROWS as nat,
    ) + " rows; narrow include_paths"@
}

fn note_ranked_hits<T>(
    result: RankedCandidates<T>,
    rejected: &Vec<String>,
    limit: usize,
    warnings: &mut Vec<String>,
    path_excluded: &mut Vec<String>,
) -> (r: Vec<T>)
    ensures
        r@ == result.hits@,
        texts(final(path_excluded)@) == texts(old(path_excluded)@) + first_of(
            texts(rejected@),
            limit as int,
        ),
        texts(final(warnings)@) == texts(old(warnings)@) + note(
            result.scan_limited && !texts(old(warnings)@).contains(scan_warning()),
            scan_warning(),
        ),
{
    let ghost start = texts(path_excluded@);
    let ghost all = first_of(texts(rejected@), limit as int);
    let mut i: usize = 0;
    assert(texts(path_excluded@) =~= start + all.take(0));
    while i < rejected.len() && i < limit
        invariant
            i <= rejected.len(),
            i <= limit,
            all == first_of(texts(rejected@), limit as int),
            texts(path_excluded@) == start + all.take(i as int),
        decreases rejected.len() - i,
    {
        let ghost before = texts(path_excluded@);
        path_excluded.push(rejected[i].clone());
        assert(texts(path_excluded@) =~= before.push(rejected@[i as int]@));
        assert(texts(path_excluded@) =~= start + all.take(i + 1));
        i += 1;
    }
    assert(all.take(all.len() as int) =~= all);
    let ghost told = texts(warnings@);
    let warning = appended(
        appended(
            copy_text("candidate generation incomplete: ranked scan reached "),
            decimal(MAX_FILTER_SCAN_ROWS as u64).as_str(),
        ),
        " rows; narrow include_paths",
    );
    if result.scan_limited && !list_has(warnings, warning.as_str()) {
        warnings.push(warning);
        assert(texts(warnings@) =~= told + seq![scan_warning()]);
    } else {
        assert(texts(warnings@) =~= told + Seq::<Seq<char>>::empty());
    }
    result.hits
}

/// Whether a path may be said to be in scope, or not.
pub open spec fn path_judged<A: Fn(&str) -> bool>(
    allows: A,
    path: Seq<char>,
    verdict: bool,
) -> bool {
    exists|text: &str| (#[trigger] call_ensures(allows, (text,), verdict)) && text@ == path
}

/// What may be said of paths: that they are in scope, or not.
pub type Scope = spec_fn(Seq<char>, bool) -> bool;

/// What `allows` may say of paths.
pub open spec fn allowed_by<A: Fn(&str) -> bool>(allows: A) -> Scope {
    |path: Seq<char>, verdict: bool| path_judged(allows, path, verdict)
}

/// Whether `verdicts` may be said of the paths of the first rows.
pub open spec fn paths_judged<T: Located>(
    scope: Scope,
    source: Seq<T>,
    verdicts: Seq<bool>,
) -> bool {
    &&& verdicts.len() <= source.len()
    &&& forall|i: int|
        0 <= i < verdicts.len() ==> scope(source[i].place(), #[trigger] verdicts[i])
}

/// Whether a scan page by page may keep and reject these.
pub open spec fn pages_ranked<
    T: Located,
    F: Fn(usize, usize) -> Result<Vec<T>, Error>,
>(fetch: F, scope: Scope, limit: usize, result: RankedCandidates<T>, rejected: Seq<T>) -> bool {
    exists|pages: Seq<Vec<T>>, verdicts: Seq<bool>|
        {
            &&& #[trigger] fetched(fetch, limit, pages)
            &&& #[trigger] paths_judged(scope, rows(pages), verdicts)
            &&& scan_result(limit, pages, verdicts, result)
            &&& rejected == refused(rows(pages).take(verdicts.len() as int), verdicts)
        }
}

/// Whether a scan of what is read at once may keep and reject these.
pub open spec fn list_ranked<
    T: Located,
    F: Fn(usize, usize) -> Result<Vec<T>, Error>,
>(fetch: F, scope: Scope, limit: usize, result: RankedCandidates<T>, rejected: Seq<T>) -> bool {
    exists|source: Vec<T>, verdicts: Seq<bool>|
        {
            &&& call_ensures(fetch, (0usize, MAX_FILTER_SCAN_ROWS), Ok::<Vec<T>, Error>(source))
            &&& #[trigger] paths_judged(scope, source@, verdicts)
            &&& list_scanned(limit, source@, verdicts, result, rejected)
        }
}

/// Whether a search may keep and reject these.
pub open spec fn ranked<
    T: Located,
    F: Fn(usize, usize) -> Result<Vec<T>, Error>,
>(
    at_once: bool,
    fetch: F,
    scope: Scope,
    limit: usize,
    result: RankedCandidates<T>,
    rejected: Seq<T>,
) -> bool {
    if at_once {
        list_ranked(fetch, scope, limit, result, rejected)
    } else {
        pages_ranked(fetch, scope, limit, result, rejected)
    }
}

/// What a search leaves behind: its warnings and the paths that it passed over.
pub struct Notes {
    pub warnings: Seq<Seq<char>>,
    pub excluded: Seq<Seq<char>>,
}

/// What is noted of a search: the first paths that were rejected, as many as hits
/// were asked for, and once that it stopped early.
pub open spec fn noted<T: Located>(
    before: Notes,
    limit: usize,
    scan_limited: bool,
    rejected: Seq<T>,
) -> Notes {
    Notes {
        warnings: before.warnings + note(
            scan_limited && !before.warnings.contains(scan_warning()),
            scan_warning(),
        ),
        excluded: before.excluded + first_of(places(rejected), limit as int),
    }
}

/// Whether a failed search may be told as warnings, or as a failure.
pub open spec fn limit_told<K: Fn(&Vec<String>, Error) -> Result<Vec<String>, Error>>(
    record: K,
    before: Seq<Seq<char>>,
    error: Error,
    told: Result<Seq<Seq<char>>, Fault>,
) -> bool {
    exists|list: &Vec<String>, said: Result<Vec<String>, Error>|
        {
            &&& #[trigger] call_ensures(record, (list, error), said)
            &&& texts(list@) == before
            &&& told == match said {
                Ok(after) => Ok::<Seq<Seq<char>>, Fault>(texts(after@)),
                Err(e) => Err(e@),
            }
        }
}

/// Whether a search that fails at once may be told so.
pub open spec fn search_told<
    T,
    F: Fn(usize, usize) -> Result<Vec<T>, Error>,
    K: Fn(&Vec<String>, Error) -> Result<Vec<String>, Error>,
>(fetch: F, record: K, before: Seq<Seq<char>>, told: Result<Seq<Seq<char>>, Fault>) -> bool {
    exists|error: Error|
        {
            &&& call_ensures(fetch, (0usize, MAX_FILTER_SCAN_ROWS), Err::<Vec<T>, Error>(error))
            &&& #[trigger] limit_told(record, before, error, told)
        }
}

/// Whether some page could not be read.
pub open spec fn page_failed<T, F: Fn(usize, usize) -> Result<Vec<T>, Error>>(
    fetch: F,
    error: Error,
) -> bool {
    exists|offset: usize, limit: usize|
        call_ensures(fetch, (offset, limit), Err::<Vec<T>, Error>(error))
}

/// Whether a search may leave these hits and notes.
pub open spec fn hits_found<
    T: Located,
    F: Fn(usize, usize) -> Result<Vec<T>, Error>,
    K: Fn(&Vec<String>, Error) -> Result<Vec<String>, Error>,
>(
    at_once: bool,
    fetch: F,
    scope: Scope,
    record: K,
    limit: usize,
    before: Notes,
    hits: Seq<T>,
    after: Notes,
) -> bool {
    ||| exists|result: RankedCandidates<T>, rejected: Seq<T>|
        {
            &&& #[trigger] ranked(at_once, fetch, scope, limit, result, rejected)
            &&& hits == result.hits@
            &&& after == noted(before, limit, result.scan_limited, rejected)
        }
    ||| {
        &&& at_once
        &&& hits.len() == 0
        &&& after.excluded == before.excluded
        &&& search_told::<T, F, K>(fetch, record, before.warnings, Ok(after.warnings))
    }
}

/// What is kept was judged to be in scope.
pub proof fn lemma_kept_in_scope<T: Located>(scope: Scope, source: Seq<T>, verdicts: Seq<bool>)
    requires
        paths_judged(scope, source, verdicts),
    ensures
        forall|i: int|
            0 <= i < kept(source.take(verdicts.len() as int), verdicts).len() ==> scope(
                (#[trigger] kept(source.take(verdicts.len() as int), verdicts)[i]).place(),
                true,
            ),
    decreases verdicts.len(),
{
    let examined = source.take(verdicts.len() as int);
    if verdicts.len() > 0 {
        let fewer = verdicts.drop_last();
        assert(paths_judged(scope, source, fewer)) by {
            assert forall|i: int| 0 <= i < fewer.len() implies scope(
                source[i].place(),
                #[trigger] fewer[i],
            ) by {
                assert(fewer[i] == verdicts[i]);
            }
        }
        lemma_kept_in_scope(scope, source, fewer);
        assert(examined.drop_last() =~= source.take(fewer.len() as int));
        assert(scope(source[verdicts.len() - 1].place(), verdicts[verdicts.len() - 1]));
        let before = kept(source.take(fewer.len() as int), fewer);
        let all = kept(examined, verdicts);
        assert forall|i: int| 0 <= i < all.len() implies scope((#[trigger] all[i]).place(), true) by {
            if i < before.len() {
                assert(all[i] == before[i]);
            }
        }
    }
}

/// What a search finds is in scope.
pub proof fn lemma_hits_in_scope<
    T: Located,
    F: Fn(usize, usize) -> Result<Vec<T>, Error>,
    K: Fn(&Vec<String>, Error) -> Result<Vec<String>, Error>,
>(
    at_once: bool,
    fetch: F,
    scope: Scope,
    record: K,
    limit: usize,
    before: Notes,
    hits: Seq<T>,
    after: Notes,
)
    requires
        hits_found(at_once, fetch, scope, record, limit, before, hits, after),
    ensures
        forall|i: int| 0 <= i < hits.len() ==> scope((#[trigger] hits[i]).place(), true),
{
    if exists|result: RankedCandidates<T>, rejected: Seq<T>|
        {
            &&& #[trigger] ranked(at_once, fetch, scope, limit, result, rejected)
            &&& hits == result.hits@
            &&& after == noted(before, limit, result.scan_limited, rejected)
        } {
        let (result, rejected) = choose|result: RankedCandidates<T>, rejected: Seq<T>|
            {
                &&& #[trigger] ranked(at_once, fetch, scope, limit, result, rejected)
                &&& hits == result.hits@
                &&& after == noted(before, limit, result.scan_limited, rejected)
            };
        if at_once {
            let (source, verdicts) = choose|source: Vec<T>, verdicts: Seq<bool>|
                {
                    &&& call_ensures(
                        fetch,
                        (0usize, MAX_FILTER_SCAN_ROWS),
                        Ok::<Vec<T>, Error>(source),
                    )
                    &&& #[trigger] paths_judged(scope, source@, verdicts)
                    &&& list_scanned(limit, source@, verdicts, result, rejected)
                };
            lemma_kept_in_scope(scope, source@, verdicts);
        } else {
            let (pages, verdicts) = choose|pages: Seq<Vec<T>>, verdicts: Seq<bool>|
                {
                    &&& #[trigger] fetched(fetch, limit, pages)
                    &&& #[trigger] paths_judged(scope, rows(pages), verdicts)
                    &&& scan_result(limit, pages, verdicts, result)
                    &&& rejected == refused(rows(pages).take(verdicts.len() as int), verdicts)
                };
            lemma_kept_in_scope(scope, rows(pages), verdicts);
        }
    }
}

/// What a search finds within one scope it may find within a wider one.
pub proof fn lemma_wider_scope<
    T: Located,
    F: Fn(usize, usize) -> Result<Vec<T>, Error>,
    K: Fn(&Vec<String>, Error) -> Result<Vec<String>, Error>,
>(
    at_once: bool,
    fetch: F,
    scope: Scope,
    wider: Scope,
    record: K,
    limit: usize,
    before: Notes,
    hits: Seq<T>,
    after: Notes,
)
    requires
        hits_found(at_once, fetch, scope, record, limit, before, hits, after),
        forall|path: Seq<char>, verdict: bool| #[trigger]
            scope(path, verdict) ==> wider(path, verdict),
    ensures
        hits_found(at_once, fetch, wider, record, limit, before, hits, after),
{
    assert forall|result: RankedCandidates<T>, rejected: Seq<T>| #[trigger]
        ranked(at_once, fetch, scope, limit, result, rejected) implies ranked(
        at_once,
        fetch,
        wider,
        limit,
        result,
        rejected,
    ) by {
        if at_once {
            let (source, verdicts) = choose|source: Vec<T>, verdicts: Seq<bool>|
                {
                    &&& call_ensures(
                        fetch,
                        (0usize, MAX_FILTER_SCAN_ROWS),
                        Ok::<Vec<T>, Error>(source),
                    )
                    &&& #[trigger] paths_judged(scope, source@, verdicts)
                    &&& list_scanned(limit, source@, verdicts, result, rejected)
                };
            assert(paths_judged(wider, source@, verdicts));
        } else {
            let (pages, verdicts) = choose|pages: Seq<Vec<T>>, verdicts: Seq<bool>|
                {
                    &&& #[trigger] fetched(fetch, limit, pages)
                    &&& #[trigger] paths_judged(scope, rows(pages), verdicts)
                    &&& scan_result(limit, pages, verdicts, result)
                    &&& rejected == refused(rows(pages).take(verdicts.len() as int), verdicts)
                };
            assert(paths_judged(wider, rows(pages), verdicts));
        }
    }
}

/// Searches for hits in scope. Where the variants of a term cannot be listed the
/// hits are read `at_once`, and `record` turns a search that is too large into a
/// warning.
pub fn context_ranked_hits<
    T: Located,
    F: Fn(usize, usize) -> Result<Vec<T>, Error>,
    A: Fn(&str) -> bool,
    K: Fn(&Vec<String>, Error) -> Result<Vec<String>, Error>,
>(
    at_once: bool,
    limit: usize,
    fetch: &F,
    allows: &A,
    record: &K,
    cancellation: &CancellationToken,
    warnings: &mut Vec<String>,
    path_excluded: &mut Vec<String>,
) -> (r: Result<Vec<T>, Error>)
    requires
        forall|offset: usize, limit: usize| call_requires(*fetch, (offset, limit)),
        forall|path: &str| call_requires(*allows, (path,)),
        forall|list: &Vec<String>, error: Error| call_requires(*record, (list, error)),
    ensures
        r is Ok && limit > 0 && !at_once ==> answered(*cancellation, false),
        match r {
            Ok(hits) => hits_found(
                at_once,
                *fetch,
                allowed_by(*allows),
                *record,
                limit,
                Notes { warnings: texts(old(warnings)@), excluded: texts(old(path_excluded)@) },
                hits@,
                Notes {
                    warnings: texts(final(warnings)@),
                    excluded: texts(final(path_excluded)@),
                },
            ),
            Err(e) => {
                &&& *final(warnings) == *old(warnings)
                &&& *final(path_excluded) == *old(path_excluded)
                &&& stopped(e, *cancellation) || if at_once {
                    search_told::<T, F, K>(*fetch, *record, texts(old(warnings)@), Err(e@))
                } else {
                    page_failed(*fetch, e)
                }
            },
        },
{
    let judge = |row: &T| -> (verdict: bool)
        ensures
            path_judged(*allows, row.place(), verdict),
        { allows(row.path_text()) };
    let (result, rejected) = if at_once {
        let said = fetch(0, MAX_FILTER_SCAN_ROWS);
        let source = match said {
            Ok(source) => source,
            Err(error) => {
                let ghost failed = error;
                let ghost before = texts(warnings@);
                let told = record(&*warnings, error);
                match told {
                    Ok(after) => {
                        assert(limit_told(*record, before, failed, Ok(texts(after@))));
                        *warnings = after;
                        let none: Vec<T> = Vec::new();
                        return Ok(none);
                    },
                    Err(e) => {
                        assert(limit_told(*record, before, failed, Err(e@)));
                        return Err(e);
                    },
                }
            },
        };
        let ghost all = source;
        match scan_ranked_list(limit, cancellation, source, judge) {
            Ok(found) => {
                proof {
                    let verdicts = choose|verdicts: Seq<bool>|
                        {
                            &&& #[trigger] judged(judge, all@, verdicts)
                            &&& list_scanned(limit, all@, verdicts, found.0, found.1@)
                        };
                    assert(paths_judged(allowed_by(*allows), all@, verdicts));
                    assert(list_ranked(*fetch, allowed_by(*allows), limit, found.0, found.1@));
                }
                found
            },
            Err(e) => {
                return Err(e);
            },
        }
    } else {
        match collect_ranked_rows(limit, cancellation, fetch, judge) {
            Ok(found) => {
                proof {
                    let (pages, verdicts) = choose|pages: Seq<Vec<T>>, verdicts: Seq<bool>|
                        {
                            &&& #[trigger] fetched(*fetch, limit, pages)
                            &&& #[trigger] judged(judge, rows(pages), verdicts)
                            &&& scan_result(limit, pages, verdicts, found.0)
                            &&& found.1@ == refused(
                                rows(pages).take(verdicts.len() as int),
                                verdicts,
                            )
                        };
                    assert(paths_judged(allowed_by(*allows), rows(pages), verdicts));
                    assert(pages_ranked(*fetch, allowed_by(*allows), limit, found.0, found.1@));
                }
                found
            },
            Err(e) => {
                return Err(e);
            },
        }
    };
    let places = copy_places(&rejected);
    assert(ranked(at_once, *fetch, allowed_by(*allows), limit, result, rejected@));
    Ok(note_ranked_hits(result, &places, limit, warnings, path_excluded))
}

/// The variants that letter case gives a term: whether there are more than the term
/// itself, and the expression that finds them all.
#[derive(Debug)]
pub struct FoldedTerm {
    pub expanded: bool,
    pub expression: String,
}

/// What reading all text found, and why it may have stopped early.
#[derive(Debug)]
pub struct FullScan {
    pub hits: Vec<ChunkHit>,
    pub limitation: Option<Error>,
}

/// Whether letter case gives a term more variants, where they can be listed.
pub open spec fn expansion(folded: Option<FoldedTerm>) -> Option<bool> {
    match folded {
        Some(folded) => Some(folded.expanded),
        None => None,
    }
}

/// How text is searched for a term.
pub open spec fn lexical_route(term: Seq<char>, folded: Option<bool>) -> LexicalSearch {
    match folded {
        None => LexicalSearch::FullScan,
        Some(expanded) => if term.len() < 3 {
            if expanded {
                LexicalSearch::FoldedWord
            } else {
                LexicalSearch::Word
            }
        } else if expanded {
            LexicalSearch::FoldedTrigram
        } else {
            LexicalSearch::Trigram
        },
    }
}

/// What is searched for: the expression that finds all variants, the term in quotes
/// where it is searched for as a word, or the term itself.
pub open spec fn searched_text(
    term: Seq<char>,
    quoted: Seq<char>,
    folded: Option<FoldedTerm>,
) -> Seq<char> {
    match folded {
        Some(folded) => if folded.expanded {
            folded.expression@
        } else if term.len() < 3 {
            quoted
        } else {
            term
        },
        None => term,
    }
}

/// Whether a page of a search may be this, or why there is none.
pub open spec fn page_said<
    Q: Fn(LexicalSearch, &str, usize, usize) -> Result<Vec<ChunkHit>, Error>,
>(
    search: Q,
    kind: LexicalSearch,
    text: Seq<char>,
    offset: usize,
    limit: usize,
    said: Result<Vec<ChunkHit>, Error>,
) -> bool {
    exists|query: &str|
        {
            &&& #[trigger] call_ensures(search, (kind, query, offset, limit), said)
            &&& query@ == text
        }
}

/// Whether a page could not be read.
pub open spec fn search_failed<
    Q: Fn(LexicalSearch, &str, usize, usize) -> Result<Vec<ChunkHit>, Error>,
>(search: Q, kind: LexicalSearch, text: Seq<char>, error: Error) -> bool {
    exists|offset: usize, limit: usize| #[trigger]
        page_said(search, kind, text, offset, limit, Err(error))
}

/// Whether `pages` may be what a search returned, each behind all earlier ones.
pub open spec fn pages_said<
    Q: Fn(LexicalSearch, &str, usize, usize) -> Result<Vec<ChunkHit>, Error>,
>(search: Q, kind: LexicalSearch, text: Seq<char>, pages: Seq<Vec<ChunkHit>>) -> bool {
    forall|k: int|
        0 <= k < pages.len() ==> {
            let offset = rows(#[trigger] pages.take(k)).len();
            let limit = page_limit(offset as int, MAX_CONTEXT_LEXICAL_HITS as int);
            &&& offset < MAX_FILTER_SCAN_ROWS
            &&& page_said(search, kind, text, offset as usize, limit as usize, Ok(pages[k]))
            &&& k + 1 < pages.len() ==> pages[k].len() >= limit
        }
}

/// Whether a search page by page may keep and reject these.
pub open spec fn chunks_ranked<
    Q: Fn(LexicalSearch, &str, usize, usize) -> Result<Vec<ChunkHit>, Error>,
>(
    search: Q,
    scope: Scope,
    kind: LexicalSearch,
    text: Seq<char>,
    result: RankedCandidates<ChunkHit>,
    rejected: Seq<ChunkHit>,
) -> bool {
    exists|pages: Seq<Vec<ChunkHit>>, verdicts: Seq<bool>|
        {
            &&& #[trigger] pages_said(search, kind, text, pages)
            &&& #[trigger] paths_judged(scope, rows(pages), verdicts)
            &&& scan_result(MAX_CONTEXT_LEXICAL_HITS, pages, verdicts, result)
            &&& rejected == refused(rows(pages).take(verdicts.len() as int), verdicts)
        }
}

/// Whether a search page by page may leave these hits and notes.
pub open spec fn chunks_found<
    Q: Fn(LexicalSearch, &str, usize, usize) -> Result<Vec<ChunkHit>, Error>,
>(
    search: Q,
    scope: Scope,
    kind: LexicalSearch,
    text: Seq<char>,
    before: Notes,
    hits: Seq<ChunkHit>,
    after: Notes,
) -> bool {
    exists|result: RankedCandidates<ChunkHit>, rejected: Seq<ChunkHit>|
        {
            &&& #[trigger] chunks_ranked(search, scope, kind, text, result, rejected)
            &&& hits == result.hits@
            &&& after == noted(before, MAX_CONTEXT_LEXICAL_HITS, result.scan_limited, rejected)
        }
}

/// What a search of text finds within one scope it may find within a wider one.
pub proof fn lemma_wider_chunks<
    Q: Fn(LexicalSearch, &str, usize, usize) -> Result<Vec<ChunkHit>, Error>,
>(
    search: Q,
    scope: Scope,
    wider: Scope,
    kind: LexicalSearch,
    text: Seq<char>,
    before: Notes,
    hits: Seq<ChunkHit>,
    after: Notes,
)
    requires
        chunks_found(search, scope, kind, text, before, hits, after),
        forall|path: Seq<char>, verdict: bool| #[trigger]
            scope(path, verdict) ==> wider(path, verdict),
    ensures
        chunks_found(search, wider, kind, text, before, hits, after),
{
    let (result, rejected) = choose|result: RankedCandidates<ChunkHit>, rejected: Seq<ChunkHit>|
        {
            &&& #[trigger] chunks_ranked(search, scope, kind, text, result, rejected)
            &&& hits == result.hits@
            &&& after == noted(before, MAX_CONTEXT_LEXICAL_HITS, result.scan_limited, rejected)
        };
    let (pages, verdicts) = choose|pages: Seq<Vec<ChunkHit>>, verdicts: Seq<bool>|
        {
            &&& #[trigger] pages_said(search, kind, text, pages)
            &&& #[trigger] paths_judged(scope, rows(pages), verdicts)
            &&& scan_result(MAX_CONTEXT_LEXICAL_HITS, pages, verdicts, result)
            &&& rejected == refused(rows(pages).take(verdicts.len() as int), verdicts)
        };
    assert(paths_judged(wider, rows(pages), verdicts));
    assert(chunks_ranked(search, wider, kind, text, result, rejected));
}

/// Whether reading all text may leave these hits and warnings.
pub open spec fn scan_taken<
    G: Fn() -> Result<FullScan, Error>,
    K: Fn(&Vec<String>, Error) -> Result<Vec<String>, Error>,
>(
    scan: G,
    record: K,
    before: Seq<Seq<char>>,
    hits: Seq<ChunkHit>,
    after: Seq<Seq<char>>,
) -> bool {
    exists|found: FullScan|
        {
            &&& #[trigger] call_ensures(scan, (), Ok::<FullScan, Error>(found))
            &&& hits == found.hits@
            &&& match found.limitation {
                None => after == before,
                Some(error) => limit_told(record, before, error, Ok(after)),
            }
        }
}

/// Whether reading all text may fail.
pub open spec fn scan_failed<
    G: Fn() -> Result<FullScan, Error>,
    K: Fn(&Vec<String>, Error) -> Result<Vec<String>, Error>,
>(scan: G, record: K, before: Seq<Seq<char>>, error: Error) -> bool {
    ||| call_ensures(scan, (), Err::<FullScan, Error>(error))
    ||| exists|found: FullScan|
        {
            &&& #[trigger] call_ensures(scan, (), Ok::<FullScan, Error>(found))
            &&& found.limitation is Some
            &&& limit_told(record, before, found.limitation->0, Err(error@))
        }
}

fn take_scan<
    G: Fn() -> Result<FullScan, Error>,
    K: Fn(&Vec<String>, Error) -> Result<Vec<String>, Error>,
>(scan: &G, record: &K, warnings: &mut Vec<String>) -> (r: Result<Vec<ChunkHit>, Error>)
    requires
        call_requires(*scan, ()),
        forall|list: &Vec<String>, error: Error| call_requires(*record, (list, error)),
    ensures
        match r {
            Ok(hits) => scan_taken(
                *scan,
                *record,
                texts(old(warnings)@),
                hits@,
                texts(final(warnings)@),
            ),
            Err(e) => *final(warnings) == *old(warnings) && scan_failed(
                *scan,
                *record,
                texts(old(warnings)@),
                e,
            ),
        },
{
    let found = match scan() {
        Ok(found) => found,
        Err(e) => {
            return Err(e);
        },
    };
    let ghost told = found;
    let ghost before = texts(warnings@);
    assert(call_ensures(*scan, (), Ok::<FullScan, Error>(told)));
    if let Some(error) = found.limitation {
        match record(&*warnings, error) {
            Ok(after) => {
                assert(limit_told(*record, before, told.limitation->0, Ok(texts(after@))));
                *warnings = after;
            },
            Err(e) => {
                assert(limit_told(*record, before, told.limitation->0, Err(e@)));
                return Err(e);
            },
        }
    }
    Ok(found.hits)
}

impl Services {
    /// Searches text for a term, as its letters and its length call for. `quoted` is
    /// the term as a quoted word, `search` reads a page of a search, and `scan` reads
    /// all text.
    pub fn context_lexical_hits<
        Q: Fn(LexicalSearch, &str, usize, usize) -> Result<Vec<ChunkHit>, Error>,
        G: Fn() -> Result<FullScan, Error>,
        A: Fn(&str) -> bool,
        K: Fn(&Vec<String>, Error) -> Result<Vec<String>, Error>,
    >(
        term: &str,
        quoted: &str,
        folded: &Option<FoldedTerm>,
        search: &Q,
        scan: &G,
        allows: &A,
        record: &K,
        cancellation: &CancellationToken,
        warnings: &mut Vec<String>,
        path_excluded: &mut Vec<String>,
    ) -> (r: Result<(Vec<ChunkHit>, LexicalSearch), Error>)
        requires
            forall|kind: LexicalSearch, query: &str, offset: usize, limit: usize|
                call_requires(*search, (kind, query, offset, limit)),
            call_requires(*scan, ()),
            forall|path: &str| call_requires(*allows, (path,)),
            forall|list: &Vec<String>, error: Error| call_requires(*record, (list, error)),
        ensures
            r is Ok && expansion(*folded) is Some ==> answered(*cancellation, false),
            ({
                let kind = lexical_route(term@, expansion(*folded));
                let text = searched_text(term@, quoted@, *folded);
                let before = Notes {
                    warnings: texts(old(warnings)@),
                    excluded: texts(old(path_excluded)@),
                };
                let after = Notes {
                    warnings: texts(final(warnings)@),
                    excluded: texts(final(path_excluded)@),
                };
                match r {
                    Ok(found) => {
                        &&& found.1 == kind
                        &&& if kind == LexicalSearch::FullScan {
                            &&& after.excluded == before.excluded
                            &&& scan_taken(
                                *scan,
                                *record,
                                before.warnings,
                                found.0@,
                                after.warnings,
                            )
                        } else {
                            chunks_found(*search, allowed_by(*allows), kind, text, before, found.0@, after)
                        }
                    },
                    Err(e) => {
                        &&& *final(warnings) == *old(warnings)
                        &&& *final(path_excluded) == *old(path_excluded)
                        &&& stopped(e, *cancellation) || if kind == LexicalSearch::FullScan {
                            scan_failed(*scan, *record, before.warnings, e)
                        } else {
                            search_failed(*search, kind, text, e)
                        }
                    },
                }
            }),
    {
        let (kind, text) = match folded {
            None => {
                return match take_scan(scan, record, warnings) {
                    Ok(hits) => Ok((hits, LexicalSearch::FullScan)),
                    Err(e) => Err(e),
                };
            },
            Some(variants) => {
                let kind = lexical_search(term, Some(variants.expanded));
                let text: &str = if variants.expanded {
                    variants.expression.as_str()
                } else if kind == LexicalSearch::Word {
                    quoted
                } else {
                    term
                };
                (kind, text)
            },
        };
        assert(kind == lexical_route(term@, expansion(*folded)));
        assert(text@ == searched_text(term@, quoted@, *folded));
        let fetch = |offset: usize, limit: usize| -> (said: Result<Vec<ChunkHit>, Error>)
            ensures
                page_said(*search, kind, text@, offset, limit, said),
            { search(kind, text, offset, limit) };
        let ghost before = Notes {
            warnings: texts(warnings@),
            excluded: texts(path_excluded@),
        };
        match context_ranked_hits(
            false,
            MAX_CONTEXT_LEXICAL_HITS,
            &fetch,
            allows,
            record,
            cancellation,
            warnings,
            path_excluded,
        ) {
            Ok(hits) => {
                proof {
                    let after = Notes {
                        warnings: texts(warnings@),
                        excluded: texts(path_excluded@),
                    };
                    let limit = MAX_CONTEXT_LEXICAL_HITS;
                    let (result, rejected) = choose|
                        result: RankedCandidates<ChunkHit>,
                        rejected: Seq<ChunkHit>,
                    |
                        {
                            &&& #[trigger] ranked(false, fetch, allowed_by(*allows), limit, result, rejected)
                            &&& hits@ == result.hits@
                            &&& after == noted(before, limit, result.scan_limited, rejected)
                        };
                    let (pages, verdicts) = choose|
                        pages: Seq<Vec<ChunkHit>>,
                        verdicts: Seq<bool>,
                    |
                        {
                            &&& #[trigger] fetched(fetch, limit, pages)
                            &&& #[trigger] paths_judged(allowed_by(*allows), rows(pages), verdicts)
                            &&& scan_result(limit, pages, verdicts, result)
                            &&& rejected == refused(
                                rows(pages).take(verdicts.len() as int),
                                verdicts,
                            )
                        };
                    assert(pages_said(*search, kind, text@, pages));
                    assert(chunks_ranked(*search, allowed_by(*allows), kind, text@, result, rejected));
                }
                Ok((hits, kind))
            },
            Err(e) => {
                proof {
                    if !(stopped(e, *cancellation)) {
                        let (offset, limit) = choose|offset: usize, limit: usize|
                            call_ensures(
                                fetch,
                                (offset, limit),
                                Err::<Vec<ChunkHit>, Error>(e),
                            );
                        assert(page_said(*search, kind, text@, offset, limit, Err(e)));
                    }
                }
                Err(e)
            },
        }
    }
}

} // verus!
