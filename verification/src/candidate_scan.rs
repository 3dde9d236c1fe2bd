//! Bounded ranked candidate collection shared by search and context.

use crate::cancellation::{answered, asked_first, check_cancelled, stopped};
use crate::error::Error;
use tokio_util::sync::CancellationToken;
use vstd::prelude::*;

verus! {

/// The most rows that one filtered scan reads.
pub const MAX_FILTER_SCAN_ROWS: usize = 10_000;

/// The most rows that one page of a filtered scan holds.
pub const FILTER_SCAN_PAGE_SIZE: usize = 256;

/// The candidates that a scan kept.
pub struct RankedCandidates<T> {
    pub hits: Vec<T>,
    /// The scan stopped before filling the requested candidate set or reaching
    /// the end of the source.
    pub scan_limited: bool,
}

/// The number of rows asked for at an offset.
pub open spec fn page_limit(offset: int, max_candidates: int) -> int {
    let wanted = if offset == 0 && max_candidates < FILTER_SCAN_PAGE_SIZE {
        max_candidates
    } else {
        FILTER_SCAN_PAGE_SIZE as int
    };
    if wanted < MAX_FILTER_SCAN_ROWS - offset {
        wanted
    } else {
        MAX_FILTER_SCAN_ROWS - offset
    }
}

/// The rows of successive pages, one after another.
pub open spec fn rows<T>(pages: Seq<Vec<T>>) -> Seq<T>
    decreases pages.len(),
{
    if pages.len() == 0 {
        Seq::empty()
    } else {
        rows(pages.drop_last()) + pages.last()@
    }
}

/// The rows on which the filter said yes.
pub open spec fn kept<T>(examined: Seq<T>, verdicts: Seq<bool>) -> Seq<T>
    decreases examined.len(),
{
    if examined.len() == 0 {
        Seq::empty()
    } else {
        let before = kept(examined.drop_last(), verdicts.drop_last());
        if verdicts.last() {
            before.push(examined.last())
        } else {
            before
        }
    }
}

/// The rows on which the filter said no.
pub open spec fn refused<T>(examined: Seq<T>, verdicts: Seq<bool>) -> Seq<T>
    decreases examined.len(),
{
    if examined.len() == 0 {
        Seq::empty()
    } else {
        let before = refused(examined.drop_last(), verdicts.drop_last());
        if verdicts.last() {
            before
        } else {
            before.push(examined.last())
        }
    }
}

/// Whether `pages` are what the source returned to the requests of a scan:
/// each asks for the rows behind all earlier ones, and every page but the last
/// is as long as was asked for, or longer.
pub open spec fn fetched<T, F: Fn(usize, usize) -> Result<Vec<T>, Error>>(
    fetch_page: F,
    max_candidates: usize,
    pages: Seq<Vec<T>>,
) -> bool {
    forall|k: int|
        0 <= k < pages.len() ==> {
            let offset = rows(#[trigger] pages.take(k)).len();
            let limit = page_limit(offset as int, max_candidates as int);
            &&& offset < MAX_FILTER_SCAN_ROWS
            &&& call_ensures(fetch_page, (offset as usize, limit as usize), Ok(pages[k]))
            &&& k + 1 < pages.len() ==> pages[k].len() >= limit
        }
}

/// Whether `verdicts` are what the filter said of the first rows.
pub open spec fn judged<T, A: Fn(&T) -> bool>(
    allows: A,
    source: Seq<T>,
    verdicts: Seq<bool>,
) -> bool {
    &&& verdicts.len() <= source.len()
    &&& forall|i: int|
        0 <= i < verdicts.len() ==> call_ensures(allows, (&source[i],), #[trigger] verdicts[i])
}

/// Whether the source ran out: the last page fell short of what was asked for.
pub open spec fn ran_out<T>(max_candidates: usize, pages: Seq<Vec<T>>) -> bool {
    &&& pages.len() > 0
    &&& pages.last().len() < page_limit(
        rows(pages.drop_last()).len() as int,
        max_candidates as int,
    )
}

/// Whether a scan that read `pages` and heard `verdicts` gives `result`.
pub open spec fn scan_result<T>(
    max_candidates: usize,
    pages: Seq<Vec<T>>,
    verdicts: Seq<bool>,
    result: RankedCandidates<T>,
) -> bool {
    let source = rows(pages);
    &&& result.hits@ == kept(source.take(verdicts.len() as int), verdicts)
    &&& result.hits.len() <= max_candidates
    &&& result.hits.len() < max_candidates ==> verdicts.len() == source.len() && (ran_out(
        max_candidates,
        pages,
    ) || source.len() >= MAX_FILTER_SCAN_ROWS)
    &&& result.scan_limited <==> result.hits.len() < max_candidates && !ran_out(
        max_candidates,
        pages,
    ) && source.len() == MAX_FILTER_SCAN_ROWS
}

proof fn lemma_kept_push<T>(source: Seq<T>, verdicts: Seq<bool>, verdict: bool)
    requires
        verdicts.len() < source.len(),
    ensures
        kept(source.take((verdicts.len() + 1) as int), verdicts.push(verdict)) == if verdict {
            kept(source.take(verdicts.len() as int), verdicts).push(source[verdicts.len() as int])
        } else {
            kept(source.take(verdicts.len() as int), verdicts)
        },
        refused(source.take((verdicts.len() + 1) as int), verdicts.push(verdict)) == if verdict {
            refused(source.take(verdicts.len() as int), verdicts)
        } else {
            refused(source.take(verdicts.len() as int), verdicts).push(
                source[verdicts.len() as int],
            )
        },
{
    assert(source.take((verdicts.len() + 1) as int).drop_last() == source.take(verdicts.len() as int));
    assert(verdicts.push(verdict).drop_last() == verdicts);
}

/// Reads a ranked source page by page until enough candidates pass the filter, and
/// keeps what the filter rejects apart.
///
/// Rows that the filter rejects do not count toward `max_candidates`.
#[verifier::rlimit(40)]
pub fn collect_ranked_rows<
    T,
    F: Fn(usize, usize) -> Result<Vec<T>, Error>,
    A: Fn(&T) -> bool,
>(
    max_candidates: usize,
    cancellation: &CancellationToken,
    fetch_page: &F,
    allows: A,
) -> (r: Result<(RankedCandidates<T>, Vec<T>), Error>)
    requires
        forall|offset: usize, limit: usize| call_requires(*fetch_page, (offset, limit)),
        forall|row: &T| call_requires(allows, (row,)),
    ensures
        max_candidates > 0 ==> asked_first(r, *cancellation),
        match r {
            Ok(result) => exists|pages: Seq<Vec<T>>, verdicts: Seq<bool>|
                {
                    &&& #[trigger] fetched(*fetch_page, max_candidates, pages)
                    &&& #[trigger] judged(allows, rows(pages), verdicts)
                    &&& scan_result(max_candidates, pages, verdicts, result.0)
                    &&& result.1@ == refused(rows(pages).take(verdicts.len() as int), verdicts)
                },
            Err(e) => stopped(e, *cancellation) || exists|offset: usize, limit: usize|
                call_ensures(*fetch_page, (offset, limit), Err::<Vec<T>, Error>(e)),
        },
{
    let mut hits: Vec<T> = Vec::new();
    let mut rejected: Vec<T> = Vec::new();
    let mut offset: usize = 0;
    let ghost mut pages: Seq<Vec<T>> = Seq::empty();
    let ghost mut verdicts: Seq<bool> = Seq::empty();
    proof {
        assert(rows(pages) =~= Seq::<T>::empty());
    }
    while hits.len() < max_candidates && offset < MAX_FILTER_SCAN_ROWS
        invariant
            forall|o: usize, l: usize| call_requires(*fetch_page, (o, l)),
            forall|row: &T| call_requires(allows, (row,)),
            fetched(*fetch_page, max_candidates, pages),
            judged(allows, rows(pages), verdicts),
            hits@ == kept(rows(pages).take(verdicts.len() as int), verdicts),
            rejected@ == refused(rows(pages).take(verdicts.len() as int), verdicts),
            pages.len() > 0 ==> answered(*cancellation, false),
            hits.len() > 0 ==> pages.len() > 0,
            hits.len() <= max_candidates,
            hits.len() < max_candidates ==> verdicts.len() == rows(pages).len(),
            offset == rows(pages).len() || (offset == usize::MAX && rows(pages).len()
                > usize::MAX),
            forall|k: int|
                0 <= k < pages.len() ==> (#[trigger] pages[k]).len() >= page_limit(
                    rows(pages.take(k)).len() as int,
                    max_candidates as int,
                ),
        decreases
            if offset < MAX_FILTER_SCAN_ROWS {
                MAX_FILTER_SCAN_ROWS - offset
            } else {
                0
            },
    {
        match check_cancelled(cancellation) {
            Ok(_) => {},
            Err(e) => {
                return Err(e);
            },
        }
        let mut limit: usize = if offset == 0 && max_candidates < FILTER_SCAN_PAGE_SIZE {
            max_candidates
        } else {
            FILTER_SCAN_PAGE_SIZE
        };
        if limit > MAX_FILTER_SCAN_ROWS - offset {
            limit = MAX_FILTER_SCAN_ROWS - offset;
        }
        let page = match fetch_page(offset, limit) {
            Ok(page) => page,
            Err(e) => {
                return Err(e);
            },
        };
        let page_len: usize = page.len();
        let ghost before = pages;
        proof {
            pages = pages.push(page);
            assert(pages.drop_last() =~= before);
            assert forall|k: int| 0 <= k < pages.len() implies #[trigger] pages.take(k)
                =~= before.take(k) by {
            }
            assert(before.take(before.len() as int) =~= before);
            assert(rows(pages) =~= rows(before) + page@);
            assert forall|k: int| 0 <= k < before.len() implies pages[k].len() >= page_limit(
                rows(#[trigger] pages.take(k)).len() as int,
                max_candidates as int,
            ) by {
                assert(before[k].len() >= page_limit(
                    rows(before.take(k)).len() as int,
                    max_candidates as int,
                ));
            }
            assert(fetched(*fetch_page, max_candidates, pages));
            assert(rows(pages).take(verdicts.len() as int) =~= rows(before).take(
                verdicts.len() as int,
            ));
        }
        for hit in it: page
            invariant
                it.seq() == page@,
                answered(*cancellation, false),
                forall|row: &T| call_requires(allows, (row,)),
                judged(allows, rows(pages), verdicts),
                rows(pages) == rows(before) + page@,
                hits@ == kept(rows(pages).take(verdicts.len() as int), verdicts),
                rejected@ == refused(rows(pages).take(verdicts.len() as int), verdicts),
                hits.len() <= max_candidates,
                hits.len() < max_candidates ==> verdicts.len() == rows(before).len() + it.index(),
                verdicts.len() <= rows(before).len() + it.index(),
        {
            if hits.len() < max_candidates {
                match check_cancelled(cancellation) {
                    Ok(_) => {},
                    Err(e) => {
                        return Err(e);
                    },
                }
                let verdict = allows(&hit);
                proof {
                    assert(rows(pages)[verdicts.len() as int] == hit);
                    lemma_kept_push(rows(pages), verdicts, verdict);
                    verdicts = verdicts.push(verdict);
                }
                if verdict {
                    hits.push(hit);
                } else {
                    rejected.push(hit);
                }
            }
        }
        offset = offset.saturating_add(page_len);
        if page_len < limit {
            let result = RankedCandidates { hits, scan_limited: false };
            proof {
                assert(ran_out(max_candidates, pages));
                assert(scan_result(max_candidates, pages, verdicts, result));
            }
            return Ok((result, rejected));
        }
    }
    let scan_limited = hits.len() < max_candidates && offset == MAX_FILTER_SCAN_ROWS;
    let result = RankedCandidates { hits, scan_limited };
    proof {
        if ran_out(max_candidates, pages) {
            let k = pages.len() - 1;
            assert(pages.take(k) =~= pages.drop_last());
            assert(pages[k].len() >= page_limit(
                rows(pages.take(k)).len() as int,
                max_candidates as int,
            ));
        }
        assert(scan_result(max_candidates, pages, verdicts, result));
    }
    Ok((result, rejected))
}

/// Reads a ranked source page by page until enough candidates pass the filter.
///
/// Rows that the filter rejects do not count toward `max_candidates`.
pub fn collect_ranked_candidates<
    T,
    F: Fn(usize, usize) -> Result<Vec<T>, Error>,
    A: Fn(&T) -> bool,
>(
    max_candidates: usize,
    cancellation: &CancellationToken,
    fetch_page: F,
    allows: A,
) -> (r: Result<RankedCandidates<T>, Error>)
    requires
        forall|offset: usize, limit: usize| call_requires(fetch_page, (offset, limit)),
        forall|row: &T| call_requires(allows, (row,)),
    ensures
        max_candidates > 0 ==> asked_first(r, *cancellation),
        match r {
            Ok(result) => exists|pages: Seq<Vec<T>>, verdicts: Seq<bool>|
                {
                    &&& #[trigger] fetched(fetch_page, max_candidates, pages)
                    &&& #[trigger] judged(allows, rows(pages), verdicts)
                    &&& scan_result(max_candidates, pages, verdicts, result)
                },
            Err(e) => stopped(e, *cancellation) || exists|offset: usize, limit: usize|
                call_ensures(fetch_page, (offset, limit), Err::<Vec<T>, Error>(e)),
        },
{
    match collect_ranked_rows(max_candidates, cancellation, &fetch_page, allows) {
        Ok((result, _)) => Ok(result),
        Err(e) => Err(e),
    }
}

/// Whether a scan of rows that were read at once, and that heard `verdicts`, gives
/// `result` and rejects `rejected`.
pub open spec fn list_scanned<T>(
    max_candidates: usize,
    source: Seq<T>,
    verdicts: Seq<bool>,
    result: RankedCandidates<T>,
    rejected: Seq<T>,
) -> bool {
    let examined = source.take(verdicts.len() as int);
    &&& verdicts.len() <= source.len()
    &&& verdicts.len() <= MAX_FILTER_SCAN_ROWS
    &&& result.hits@ == kept(examined, verdicts)
    &&& rejected == refused(examined, verdicts)
    &&& result.hits.len() <= max_candidates
    &&& result.hits.len() < max_candidates ==> verdicts.len() == source.len() || verdicts.len()
        == MAX_FILTER_SCAN_ROWS
    &&& result.scan_limited <==> result.hits.len() < max_candidates && source.len()
        >= MAX_FILTER_SCAN_ROWS
}

/// Takes rows that were read at once until enough candidates pass the filter, and
/// keeps what the filter rejects apart.
pub fn scan_ranked_list<T, A: Fn(&T) -> bool>(
    max_candidates: usize,
    cancellation: &CancellationToken,
    source: Vec<T>,
    allows: A,
) -> (r: Result<(RankedCandidates<T>, Vec<T>), Error>)
    requires
        forall|row: &T| call_requires(allows, (row,)),
    ensures
        r is Ok && max_candidates > 0 && source@.len() > 0 ==> answered(*cancellation, false),
        match r {
            Ok(result) => exists|verdicts: Seq<bool>|
                {
                    &&& #[trigger] judged(allows, source@, verdicts)
                    &&& list_scanned(max_candidates, source@, verdicts, result.0, result.1@)
                },
            Err(e) => stopped(e, *cancellation),
        },
{
    let mut hits: Vec<T> = Vec::new();
    let mut rejected: Vec<T> = Vec::new();
    let ghost all = source@;
    let ghost mut verdicts: Seq<bool> = Seq::empty();
    let many = source.len() >= MAX_FILTER_SCAN_ROWS;
    let mut seen: usize = 0;
    for hit in it: source
        invariant
            it.seq() == all,
            it.index() > 0 && max_candidates > 0 ==> answered(*cancellation, false),
            hits.len() > 0 || seen > 0 ==> answered(*cancellation, false),
            forall|row: &T| call_requires(allows, (row,)),
            judged(allows, all, verdicts),
            seen == verdicts.len(),
            seen <= MAX_FILTER_SCAN_ROWS,
            seen <= it.index(),
            hits.len() < max_candidates && seen < MAX_FILTER_SCAN_ROWS ==> seen == it.index(),
            hits@ == kept(all.take(verdicts.len() as int), verdicts),
            rejected@ == refused(all.take(verdicts.len() as int), verdicts),
            hits.len() <= max_candidates,
    {
        if hits.len() < max_candidates && seen < MAX_FILTER_SCAN_ROWS {
            match check_cancelled(cancellation) {
                Ok(_) => {},
                Err(e) => {
                    return Err(e);
                },
            }
            let verdict = allows(&hit);
            proof {
                assert(all[verdicts.len() as int] == hit);
                lemma_kept_push(all, verdicts, verdict);
                verdicts = verdicts.push(verdict);
            }
            seen += 1;
            if verdict {
                hits.push(hit);
            } else {
                rejected.push(hit);
            }
        }
    }
    let scan_limited = hits.len() < max_candidates && many;
    let result = RankedCandidates { hits, scan_limited };
    assert(list_scanned(max_candidates, all, verdicts, result, rejected@));
    Ok((result, rejected))
}

} // verus!
