//! Answering comparisons of many symbols across one range of revisions.

use crate::accounting::{
    counts, with_counts, Measurement, ReceiptResourceDecoration, ServiceCallOptions,
};
use crate::cancellation::{answered, asked_first, check_cancelled, stopped};
use crate::change_receipt::ParserSymbol;
use crate::cursor::{ServiceIdentity, StreamId};
use crate::error::{Error, Fault};
use crate::fitting::{bounded_meta, counts_all, settled_as, settles_all, unanswered};
use crate::history::compare::{
    compare_page, page_compared, page_failed, plus, target_compared, DiffBudget,
    MAX_DIFF_SYMBOL_BYTES,
};
use crate::history::execution::{
    classifies_all, cuts_all, identity_said, results_asked, ResolvedRevisions,
};
use crate::history::fit_diff::{
    a_fitted_comparison_goes_on_behind_its_results, comparison_fitted, comparison_unfitted,
    continues_at, says_all, tells_all,
};
use crate::history::paging::{
    comparison_id, diff_symbols_stream_id, make_diff_symbols_cursor, page_offset,
    parse_diff_symbols_cursor,
};
use crate::history::request::{
    base_paths, head_paths, list_base_paths, list_head_paths, PairView, ParsedDiffSymbolsRequest,
    MAX_DIFF_SYMBOL_RESULTS,
};
use crate::history::revision::{
    a_parsed_batch_is_small, history_revision_metadata, parse_historical_batch, parsed_batch,
    small_blobs, BatchView, GitCommitMetadata, HistoricalBlobs, ResolvedHistoricalSymbol,
};
use crate::history::types::{
    DiffSymbolsDiagnostics, DiffSymbolsResponse, DiffSymbolsView, HistoryRevisionMetadata,
    ResultView, RevisionView,
};
use crate::model::{DiffSymbolChange, ResponseMeta};
use crate::ordered::{sort_unique_texts, sorted_unique, views};
use crate::services::Services;
use crate::text::{copy_text, same_text, texts};
use tokio_util::sync::CancellationToken;
use vstd::prelude::*;

verus! {

/// What the commits of two revisions say, where they were found.
#[derive(Debug)]
pub struct CommitPair {
    pub base: Option<GitCommitMetadata>,
    pub head: Option<GitCommitMetadata>,
}

/// What answers a comparison: `identity` resolves two revisions, `commits` tells
/// what their commits say, `blobs_at` reads files of a revision with the symbols
/// in them, `matches` tells which symbols of a file a name stands for; the rest
/// is as for a single symbol.
pub struct ComparisonPorts<I, G, B, M, K, C, T, S> {
    pub identity: I,
    pub commits: G,
    pub blobs_at: B,
    pub matches: M,
    pub classify: K,
    pub count: C,
    pub truncate: T,
    pub measure: S,
}

/// Whether the commits of two revisions may be said to be these.
pub open spec fn commits_said<G: Fn(&str, &str) -> Result<CommitPair, Error>>(
    commits: G,
    base: Seq<char>,
    head: Seq<char>,
    said: Result<CommitPair, Error>,
) -> bool {
    exists|a: &str, b: &str|
        {
            &&& #[trigger] call_ensures(commits, (a, b), said)
            &&& a@ == base
            &&& b@ == head
        }
}

/// Whether the files of a revision may be said to be these.
pub open spec fn blobs_said<B: Fn(&str, &Vec<String>) -> Result<HistoricalBlobs, Error>>(
    blobs_at: B,
    revision: Seq<char>,
    paths: Seq<Seq<char>>,
    said: Result<HistoricalBlobs, Error>,
) -> bool {
    exists|a: &str, list: &Vec<String>|
        {
            &&& #[trigger] call_ensures(blobs_at, (a, list), said)
            &&& a@ == revision
            &&& texts(list@) == paths
        }
}

/// Whether all that is read of a revision is small enough to be compared.
pub open spec fn reads_small_blobs<B: Fn(&str, &Vec<String>) -> Result<HistoricalBlobs, Error>>(
    blobs_at: B,
) -> bool {
    forall|a: &str, list: &Vec<String>, said: Result<HistoricalBlobs, Error>| #[trigger]
        call_ensures(blobs_at, (a, list), said) ==> (said matches Ok(blobs) ==> small_blobs(blobs))
}

/// Whether everything can be asked.
pub open spec fn comparison_answers<
    I: Fn(&str, &str) -> Result<ResolvedRevisions, Error>,
    G: Fn(&str, &str) -> Result<CommitPair, Error>,
    B: Fn(&str, &Vec<String>) -> Result<HistoricalBlobs, Error>,
    M: Fn(&str, &Vec<ParserSymbol>) -> Vec<bool>,
    K: Fn(
        &str,
        &str,
        &Option<ResolvedHistoricalSymbol>,
        &Option<ResolvedHistoricalSymbol>,
        bool,
    ) -> Option<DiffSymbolChange>,
    C: Fn(&str) -> usize,
    T: Fn(&str, usize) -> (usize, usize),
    S: Fn(&DiffSymbolsResponse, &ResponseMeta, ReceiptResourceDecoration) -> Measurement,
>(ports: ComparisonPorts<I, G, B, M, K, C, T, S>) -> bool {
    &&& forall|a: &str, b: &str| call_requires(ports.identity, (a, b))
    &&& forall|a: &str, b: &str| call_requires(ports.commits, (a, b))
    &&& forall|a: &str, list: &Vec<String>| call_requires(ports.blobs_at, (a, list))
    &&& reads_small_blobs(ports.blobs_at)
    &&& forall|text: &str, list: &Vec<ParserSymbol>| call_requires(ports.matches, (text, list))
    &&& classifies_all(ports.classify)
    &&& counts_all(ports.count)
    &&& cuts_all(ports.truncate)
    &&& settles_all::<DiffSymbolsResponse, S>(ports.measure)
}

/// What a commit says.
pub open spec fn commit_view(metadata: GitCommitMetadata) -> RevisionView {
    RevisionView {
        revision: metadata.revision@,
        authored_at: metadata.authored_at@,
        subject: metadata.subject@,
    }
}

/// What the commits of two revisions say. One commit may stand for both.
pub open spec fn ends_told(pair: CommitPair, revisions: ResolvedRevisions) -> Result<
    (RevisionView, RevisionView),
    Fault,
> {
    match pair.base {
        None => Err(Fault::OperationFailure("missing base commit metadata"@)),
        Some(base) => match pair.head {
            Some(head) => Ok((commit_view(base), commit_view(head))),
            None => if revisions.base_revision@ == revisions.head_revision@ {
                Ok((commit_view(base), commit_view(base)))
            } else {
                Err(Fault::OperationFailure("missing head commit metadata"@))
            },
        },
    }
}

/// What is fixed of a page once its revisions are resolved.
pub struct PageView {
    pub targets: Seq<PairView>,
    pub from: usize,
    pub to: usize,
    pub stream: Seq<u8>,
    pub revisions: ResolvedRevisions,
    pub max_tokens: usize,
    pub meta: ResponseMeta,
}

impl PageView {
    /// The paths of the earlier revision, in order and each once.
    pub open spec fn base_paths(self) -> Seq<Seq<char>> {
        sorted_unique(base_paths(self.targets).subrange(self.from as int, self.to as int))
    }

    /// The paths of the later revision, in order and each once.
    pub open spec fn head_paths(self) -> Seq<Seq<char>> {
        sorted_unique(head_paths(self.targets).subrange(self.from as int, self.to as int))
    }

    /// The budgets that the page starts with.
    pub open spec fn budget(self) -> DiffBudget {
        DiffBudget {
            remaining_tokens: self.max_tokens,
            remaining_bytes: MAX_DIFF_SYMBOL_BYTES,
            retained_bytes: 0,
            emitted_tokens: 0,
        }
    }
}

/// Whether the blobs of a revision were read by a command of their own.
pub open spec fn blob_command(blobs: HistoricalBlobs) -> int {
    if blobs.blobs@.len() > 0 {
        1
    } else {
        0
    }
}

/// What a page cost. Two revisions are resolved, their commits are read by one
/// command and the tree of each by one more.
pub open spec fn page_diagnostics(
    page: PageView,
    first: HistoricalBlobs,
    second: HistoricalBlobs,
    base: BatchView,
    head: BatchView,
    spent: DiffBudget,
) -> DiffSymbolsDiagnostics {
    DiffSymbolsDiagnostics {
        git_subprocesses: (5 + blob_command(first) + blob_command(second)) as usize,
        base_paths_requested: page.base_paths().len() as usize,
        head_paths_requested: page.head_paths().len() as usize,
        base_blob_bytes: base.blob_bytes,
        head_blob_bytes: head.blob_bytes,
        parsed_symbols: plus(base.parsed_symbols, head.parsed_symbols as nat),
        retained_diff_bytes: spent.retained_bytes,
    }
}

/// Whether `out` is the answer to a page with these results.
pub open spec fn page_view(
    page: PageView,
    ends: (RevisionView, RevisionView),
    results: Seq<ResultView>,
    diagnostics: DiffSymbolsDiagnostics,
    spent: DiffBudget,
    out: DiffSymbolsView,
) -> bool {
    &&& continues_at(out.meta.next_cursor, page.stream, page.to, page.targets.len())
    &&& out == (DiffSymbolsView {
        kind: "diff_symbols"@,
        base: ends.0,
        head: ends.1,
        results,
        result_complete: page.to == page.targets.len() && tells_all(results),
        diagnostics,
        meta: ResponseMeta {
            source_tokens: spent.emitted_tokens,
            next_cursor: out.meta.next_cursor,
            ..page.meta
        },
    })
}

/// Whether `outcome` may come of a page whose revisions were parsed.
pub open spec fn results_built<
    M: Fn(&str, &Vec<ParserSymbol>) -> Vec<bool>,
    K: Fn(
        &str,
        &str,
        &Option<ResolvedHistoricalSymbol>,
        &Option<ResolvedHistoricalSymbol>,
        bool,
    ) -> Option<DiffSymbolChange>,
    T: Fn(&str, usize) -> (usize, usize),
>(
    matches: M,
    classify: K,
    truncate: T,
    page: PageView,
    ends: (RevisionView, RevisionView),
    first: HistoricalBlobs,
    second: HistoricalBlobs,
    base: BatchView,
    head: BatchView,
    outcome: Result<DiffSymbolsView, Fault>,
) -> bool {
    match outcome {
        Err(fault) => page_failed(
            matches,
            classify,
            truncate,
            base,
            head,
            page.targets,
            page.from,
            page.to,
            page.budget(),
            fault,
        ),
        Ok(out) => exists|results: Seq<ResultView>, budgets: Seq<DiffBudget>|
            {
                &&& #[trigger] page_compared(
                    matches,
                    classify,
                    truncate,
                    base,
                    head,
                    page.targets,
                    page.from,
                    page.budget(),
                    results,
                    budgets,
                )
                &&& results.len() == page.to - page.from
                &&& page_view(
                    page,
                    ends,
                    results,
                    page_diagnostics(page, first, second, base, head, budgets.last()),
                    budgets.last(),
                    out,
                )
            },
    }
}

/// Whether `outcome` may come of a page whose files were read.
pub open spec fn files_built<
    M: Fn(&str, &Vec<ParserSymbol>) -> Vec<bool>,
    K: Fn(
        &str,
        &str,
        &Option<ResolvedHistoricalSymbol>,
        &Option<ResolvedHistoricalSymbol>,
        bool,
    ) -> Option<DiffSymbolChange>,
    T: Fn(&str, usize) -> (usize, usize),
>(
    matches: M,
    classify: K,
    truncate: T,
    page: PageView,
    ends: (RevisionView, RevisionView),
    first: HistoricalBlobs,
    second: HistoricalBlobs,
    outcome: Result<DiffSymbolsView, Fault>,
) -> bool {
    match (parsed_batch(first, "base"@), parsed_batch(second, "head"@)) {
        (Err(fault), _) => outcome == Err::<DiffSymbolsView, Fault>(fault),
        (Ok(_), Err(fault)) => outcome == Err::<DiffSymbolsView, Fault>(fault),
        (Ok(base), Ok(head)) => results_built(
            matches,
            classify,
            truncate,
            page,
            ends,
            first,
            second,
            base,
            head,
            outcome,
        ),
    }
}

/// Whether `outcome` may come of a page whose commits are known.
pub open spec fn revisions_built<
    B: Fn(&str, &Vec<String>) -> Result<HistoricalBlobs, Error>,
    M: Fn(&str, &Vec<ParserSymbol>) -> Vec<bool>,
    K: Fn(
        &str,
        &str,
        &Option<ResolvedHistoricalSymbol>,
        &Option<ResolvedHistoricalSymbol>,
        bool,
    ) -> Option<DiffSymbolChange>,
    T: Fn(&str, usize) -> (usize, usize),
>(
    blobs_at: B,
    matches: M,
    classify: K,
    truncate: T,
    page: PageView,
    ends: (RevisionView, RevisionView),
    outcome: Result<DiffSymbolsView, Fault>,
) -> bool {
    exists|first: Result<HistoricalBlobs, Error>|
        #[trigger] blobs_said(
            blobs_at,
            page.revisions.base_revision@,
            page.base_paths(),
            first,
        ) && match first {
            Err(e) => outcome == Err::<DiffSymbolsView, Fault>(e@),
            Ok(first) => exists|second: Result<HistoricalBlobs, Error>|
                #[trigger] blobs_said(
                    blobs_at,
                    page.revisions.head_revision@,
                    page.head_paths(),
                    second,
                ) && match second {
                    Err(e) => outcome == Err::<DiffSymbolsView, Fault>(e@),
                    Ok(second) => files_built(
                        matches,
                        classify,
                        truncate,
                        page,
                        ends,
                        first,
                        second,
                        outcome,
                    ),
                },
        }
}

/// Whether `outcome` may come of a page.
pub open spec fn page_built<
    G: Fn(&str, &str) -> Result<CommitPair, Error>,
    B: Fn(&str, &Vec<String>) -> Result<HistoricalBlobs, Error>,
    M: Fn(&str, &Vec<ParserSymbol>) -> Vec<bool>,
    K: Fn(
        &str,
        &str,
        &Option<ResolvedHistoricalSymbol>,
        &Option<ResolvedHistoricalSymbol>,
        bool,
    ) -> Option<DiffSymbolChange>,
    T: Fn(&str, usize) -> (usize, usize),
>(
    commits: G,
    blobs_at: B,
    matches: M,
    classify: K,
    truncate: T,
    page: PageView,
    outcome: Result<DiffSymbolsView, Fault>,
) -> bool {
    exists|said: Result<CommitPair, Error>|
        #[trigger] commits_said(
            commits,
            page.revisions.base_revision@,
            page.revisions.head_revision@,
            said,
        ) && match said {
            Err(e) => outcome == Err::<DiffSymbolsView, Fault>(e@),
            Ok(pair) => match ends_told(pair, page.revisions) {
                Err(fault) => outcome == Err::<DiffSymbolsView, Fault>(fault),
                Ok(ends) => revisions_built(
                    blobs_at,
                    matches,
                    classify,
                    truncate,
                    page,
                    ends,
                    outcome,
                ),
            },
        }
}

/// The most results of a page.
pub open spec fn page_size(asked: Option<usize>, default_results: usize) -> usize {
    let wanted = results_asked(asked, default_results);
    if wanted < MAX_DIFF_SYMBOL_RESULTS {
        wanted
    } else {
        MAX_DIFF_SYMBOL_RESULTS
    }
}

/// Where a page ends.
pub open spec fn page_end(from: usize, size: usize, targets: nat) -> usize {
    if from + size < targets {
        (from + size) as usize
    } else {
        targets as usize
    }
}

/// A page that starts before the last target ends behind its start, within the
/// targets and no further than its size, so following pages reach every target
/// once.
pub proof fn pages_follow_one_another(from: usize, size: usize, targets: nat)
    requires
        0 < size,
        from < targets <= usize::MAX,
    ensures
        from < page_end(from, size, targets) <= targets,
        page_end(from, size, targets) - from <= size,
        page_end(from, size, targets) < targets ==> page_end(from, size, targets) - from == size,
{
}

/// The page of a comparison between resolved revisions that starts at a target.
pub open spec fn page_at(
    service: ServiceIdentity,
    request: ParsedDiffSymbolsRequest,
    size: usize,
    max_tokens: usize,
    meta: ResponseMeta,
    revisions: ResolvedRevisions,
    from: usize,
) -> PageView {
    let targets = views(request.targets@);
    PageView {
        targets,
        from,
        to: page_end(from, size, targets.len()),
        stream: comparison_id(
            service,
            targets,
            revisions.base_revision@,
            revisions.head_revision@,
        ),
        revisions,
        max_tokens,
        meta,
    }
}

/// A result, as what it says.
pub open spec fn comparison_result(r: Result<DiffSymbolsResponse, Error>) -> Result<
    DiffSymbolsView,
    Fault,
> {
    match r {
        Ok(response) => Ok(response@),
        Err(e) => Err(e@),
    }
}

/// Whether a result is one, or the operation was cancelled.
pub open spec fn or_stopped(
    r: Result<DiffSymbolsResponse, Error>,
    cancellation: CancellationToken,
    due: bool,
) -> bool {
    (r is Err && stopped(r->Err_0, cancellation)) || due
}

fn copy_metadata(metadata: &GitCommitMetadata) -> (r: GitCommitMetadata)
    ensures
        commit_view(r) == commit_view(*metadata),
{
    GitCommitMetadata {
        revision: metadata.revision.clone(),
        authored_at: metadata.authored_at.clone(),
        subject: metadata.subject.clone(),
    }
}

fn tell_ends(pair: CommitPair, revisions: &ResolvedRevisions) -> (r: Result<
    (HistoryRevisionMetadata, HistoryRevisionMetadata),
    Error,
>)
    ensures
        match r {
            Ok(ends) => ends_told(pair, *revisions) == Ok::<(RevisionView, RevisionView), Fault>(
                (ends.0@, ends.1@),
            ),
            Err(e) => ends_told(pair, *revisions) == Err::<(RevisionView, RevisionView), Fault>(e@),
        },
{
    let base = match pair.base {
        Some(base) => base,
        None => {
            return Err(Error::OperationFailure(copy_text("missing base commit metadata")));
        },
    };
    let head = match pair.head {
        Some(head) => head,
        None => {
            if same_text(
                revisions.base_revision.as_str(),
                revisions.head_revision.as_str(),
            ) {
                copy_metadata(&base)
            } else {
                return Err(Error::OperationFailure(copy_text("missing head commit metadata")));
            }
        },
    };
    Ok((history_revision_metadata(base), history_revision_metadata(head)))
}

struct PageStart<'a> {
    targets: &'a ParsedDiffSymbolsRequest,
    from: usize,
    to: usize,
    stream_id: StreamId,
    revisions: &'a ResolvedRevisions,
    max_tokens: usize,
    base_paths: Vec<String>,
    head_paths: Vec<String>,
}

impl<'a> PageStart<'a> {
    spec fn page(self, meta: ResponseMeta) -> PageView {
        PageView {
            targets: views(self.targets.targets@),
            from: self.from,
            to: self.to,
            stream: self.stream_id@,
            revisions: *self.revisions,
            max_tokens: self.max_tokens,
            meta,
        }
    }

    spec fn valid(self, meta: ResponseMeta) -> bool {
        &&& self.from <= self.to <= self.targets.targets@.len()
        &&& texts(self.base_paths@) == self.page(meta).base_paths()
        &&& texts(self.head_paths@) == self.page(meta).head_paths()
    }
}

fn answer_page<
    M: Fn(&str, &Vec<ParserSymbol>) -> Vec<bool>,
    K: Fn(
        &str,
        &str,
        &Option<ResolvedHistoricalSymbol>,
        &Option<ResolvedHistoricalSymbol>,
        bool,
    ) -> Option<DiffSymbolChange>,
    T: Fn(&str, usize) -> (usize, usize),
>(
    matches: &M,
    classify: &K,
    truncate: &T,
    start: &PageStart<'_>,
    ends: (HistoryRevisionMetadata, HistoryRevisionMetadata),
    first: HistoricalBlobs,
    second: HistoricalBlobs,
    meta: ResponseMeta,
    cancellation: &CancellationToken,
) -> (r: Result<DiffSymbolsResponse, Error>)
    requires
        forall|text: &str, list: &Vec<ParserSymbol>| call_requires(*matches, (text, list)),
        classifies_all(*classify),
        cuts_all(*truncate),
        start.valid(meta),
        small_blobs(first),
        small_blobs(second),
    ensures
        or_stopped(
            r,
            *cancellation,
            files_built(
                *matches,
                *classify,
                *truncate,
                start.page(meta),
                (ends.0@, ends.1@),
                first,
                second,
                comparison_result(r),
            ),
        ),
{
    let ghost page = start.page(meta);
    let ghost told = (ends.0@, ends.1@);
    let base_command: usize = if first.blobs.len() > 0 {
        1
    } else {
        0
    };
    let head_command: usize = if second.blobs.len() > 0 {
        1
    } else {
        0
    };
    proof {
        a_parsed_batch_is_small(first, "base"@);
        a_parsed_batch_is_small(second, "head"@);
    }
    let base = match parse_historical_batch(first, "base") {
        Ok(base) => base,
        Err(e) => {
            return Err(e);
        },
    };
    let head = match parse_historical_batch(second, "head") {
        Ok(head) => head,
        Err(e) => {
            return Err(e);
        },
    };
    let budget = DiffBudget {
        remaining_tokens: start.max_tokens,
        remaining_bytes: MAX_DIFF_SYMBOL_BYTES,
        retained_bytes: 0,
        emitted_tokens: 0,
    };
    assert(budget == page.budget());
    let (results, spent) = match compare_page(
        matches,
        classify,
        truncate,
        &base,
        &head,
        &start.targets.targets,
        start.from,
        start.to,
        budget,
        cancellation,
    ) {
        Ok(done) => done,
        Err(e) => {
            assert(stopped(e, *cancellation) || results_built(
                *matches,
                *classify,
                *truncate,
                page,
                told,
                first,
                second,
                base@,
                head@,
                Err(e@),
            ));
            return Err(e);
        },
    };
    let page_complete = start.to == start.targets.targets.len();
    let result_complete = page_complete && says_all(&results);
    let next_cursor = if page_complete {
        None
    } else {
        match make_diff_symbols_cursor(start.stream_id, start.to) {
            Ok(text) => Some(text),
            Err(e) => {
                return Err(e);
            },
        }
    };
    let diagnostics = DiffSymbolsDiagnostics {
        git_subprocesses: 5 + base_command + head_command,
        base_paths_requested: start.base_paths.len(),
        head_paths_requested: start.head_paths.len(),
        base_blob_bytes: base.blob_bytes,
        head_blob_bytes: head.blob_bytes,
        parsed_symbols: base.parsed_symbols.saturating_add(head.parsed_symbols),
        retained_diff_bytes: spent.retained_bytes,
    };
    proof {
        assert(texts(start.base_paths@).len() == start.base_paths@.len());
        assert(texts(start.head_paths@).len() == start.head_paths@.len());
    }
    assert(diagnostics == page_diagnostics(page, first, second, base@, head@, spent));
    let ghost found = views(results@);
    assert(found.len() == results@.len());
    let mut meta = meta;
    meta.source_tokens = spent.emitted_tokens;
    meta.next_cursor = next_cursor;
    let out = DiffSymbolsResponse {
        kind: copy_text("diff_symbols"),
        base: ends.0,
        head: ends.1,
        results,
        result_complete,
        diagnostics,
        meta,
    };
    assert(page.targets.len() == start.targets.targets@.len());
    assert(page_view(page, told, found, diagnostics, spent, out@));
    assert(results_built(
        *matches,
        *classify,
        *truncate,
        page,
        told,
        first,
        second,
        base@,
        head@,
        Ok(out@),
    ));
    Ok(out)
}

fn read_page<
    I,
    G: Fn(&str, &str) -> Result<CommitPair, Error>,
    B: Fn(&str, &Vec<String>) -> Result<HistoricalBlobs, Error>,
    M: Fn(&str, &Vec<ParserSymbol>) -> Vec<bool>,
    K: Fn(
        &str,
        &str,
        &Option<ResolvedHistoricalSymbol>,
        &Option<ResolvedHistoricalSymbol>,
        bool,
    ) -> Option<DiffSymbolChange>,
    C,
    T: Fn(&str, usize) -> (usize, usize),
    S,
>(
    ports: &ComparisonPorts<I, G, B, M, K, C, T, S>,
    start: &PageStart<'_>,
    meta: ResponseMeta,
    cancellation: &CancellationToken,
) -> (r: Result<DiffSymbolsResponse, Error>)
    requires
        forall|a: &str, b: &str| call_requires(ports.commits, (a, b)),
        forall|a: &str, list: &Vec<String>| call_requires(ports.blobs_at, (a, list)),
        reads_small_blobs(ports.blobs_at),
        forall|text: &str, list: &Vec<ParserSymbol>| call_requires(ports.matches, (text, list)),
        classifies_all(ports.classify),
        cuts_all(ports.truncate),
        start.valid(meta),
    ensures
        r is Ok ==> answered(*cancellation, false),
        or_stopped(
            r,
            *cancellation,
            page_built(
                ports.commits,
                ports.blobs_at,
                ports.matches,
                ports.classify,
                ports.truncate,
                start.page(meta),
                comparison_result(r),
            ),
        ),
{
    let ghost page = start.page(meta);
    match check_cancelled(cancellation) {
        Ok(_) => {},
        Err(e) => {
            return Err(e);
        },
    }
    let base_revision = start.revisions.base_revision.as_str();
    let head_revision = start.revisions.head_revision.as_str();
    let said = (ports.commits)(base_revision, head_revision);
    let ghost pair = said;
    assert(commits_said(ports.commits, base_revision@, head_revision@, pair));
    let ends = match said {
        Ok(commits) => match tell_ends(commits, start.revisions) {
            Ok(ends) => ends,
            Err(e) => {
                return Err(e);
            },
        },
        Err(e) => {
            return Err(e);
        },
    };
    let ghost told = (ends.0@, ends.1@);
    match check_cancelled(cancellation) {
        Ok(_) => {},
        Err(e) => {
            return Err(e);
        },
    }
    let read = (ports.blobs_at)(base_revision, &start.base_paths);
    let ghost one = read;
    assert(blobs_said(ports.blobs_at, base_revision@, page.base_paths(), one));
    let first = match read {
        Ok(first) => first,
        Err(e) => {
            assert(revisions_built(
                ports.blobs_at,
                ports.matches,
                ports.classify,
                ports.truncate,
                page,
                told,
                Err(e@),
            ));
            return Err(e);
        },
    };
    match check_cancelled(cancellation) {
        Ok(_) => {},
        Err(e) => {
            return Err(e);
        },
    }
    let read = (ports.blobs_at)(head_revision, &start.head_paths);
    let ghost two = read;
    assert(blobs_said(ports.blobs_at, head_revision@, page.head_paths(), two));
    let second = match read {
        Ok(second) => second,
        Err(e) => {
            assert(revisions_built(
                ports.blobs_at,
                ports.matches,
                ports.classify,
                ports.truncate,
                page,
                told,
                Err(e@),
            ));
            return Err(e);
        },
    };
    let r = answer_page(
        &ports.matches,
        &ports.classify,
        &ports.truncate,
        start,
        ends,
        first,
        second,
        meta,
        cancellation,
    );
    assert(or_stopped(
        r,
        *cancellation,
        revisions_built(
            ports.blobs_at,
            ports.matches,
            ports.classify,
            ports.truncate,
            page,
            told,
            comparison_result(r),
        ),
    ));
    r
}

/// Whether `out` is an answer fitted to the ceiling of a call, with settled
/// counts that are within it.
pub open spec fn comparison_answered<
    C: Fn(&str) -> usize,
    S: Fn(&DiffSymbolsResponse, &ResponseMeta, ReceiptResourceDecoration) -> Measurement,
>(
    count: C,
    measure: S,
    page: PageView,
    view: DiffSymbolsView,
    max: Option<usize>,
    out: DiffSymbolsView,
) -> bool {
    exists|fitted: DiffSymbolsView|
        {
            &&& #[trigger] comparison_fitted(
                count,
                measure,
                view,
                page.from,
                page.targets.len(),
                page.stream,
                max,
                fitted,
            )
            &&& settled_as::<DiffSymbolsResponse, S>(measure, fitted, Ok(out.meta))
            &&& out.meta == with_counts(fitted.meta, counts(out.meta))
            &&& out == (DiffSymbolsView { meta: out.meta, ..fitted })
            &&& max matches Some(limit) ==> out.meta.total_response_tokens <= limit
        }
}

/// Whether `error` is why an answer did not get within the ceiling of a call.
pub open spec fn comparison_unanswered<
    C: Fn(&str) -> usize,
    S: Fn(&DiffSymbolsResponse, &ResponseMeta, ReceiptResourceDecoration) -> Measurement,
>(
    count: C,
    measure: S,
    page: PageView,
    view: DiffSymbolsView,
    max: Option<usize>,
    error: Error,
) -> bool {
    ||| max is Some && comparison_unfitted(
        count,
        measure,
        view,
        page.from,
        page.targets.len(),
        page.stream,
        max->0,
        error,
    )
    ||| exists|fitted: DiffSymbolsView|
        #[trigger] comparison_fitted(
            count,
            measure,
            view,
            page.from,
            page.targets.len(),
            page.stream,
            max,
            fitted,
        ) && unanswered::<DiffSymbolsResponse, S>(measure, fitted, max, error)
}

fn bound_comparison<
    C: Fn(&str) -> usize,
    S: Fn(&DiffSymbolsResponse, &ResponseMeta, ReceiptResourceDecoration) -> Measurement,
>(
    response: DiffSymbolsResponse,
    start: &PageStart<'_>,
    options: ServiceCallOptions,
    count: &C,
    measure: &S,
    meta: Ghost<ResponseMeta>,
) -> (r: Result<DiffSymbolsResponse, Error>)
    requires
        counts_all(*count),
        settles_all::<DiffSymbolsResponse, S>(*measure),
    ensures
        match r {
            Ok(out) => comparison_answered(
                *count,
                *measure,
                start.page(meta@),
                response@,
                options.max_response_tokens,
                out@,
            ),
            Err(e) => comparison_unanswered(
                *count,
                *measure,
                start.page(meta@),
                response@,
                options.max_response_tokens,
                e,
            ),
        },
{
    let ghost view = response@;
    let ghost page = start.page(meta@);
    assert(page.targets.len() == start.targets.targets@.len());
    let mut response = response;
    match Services::fit_diff_symbols_response(
        &mut response,
        start.targets,
        start.from,
        start.stream_id,
        options,
        count,
        measure,
    ) {
        Ok(_) => {},
        Err(e) => {
            return Err(e);
        },
    }
    let ghost fitted = response@;
    assert(comparison_fitted(
        *count,
        *measure,
        view,
        page.from,
        page.targets.len(),
        page.stream,
        options.max_response_tokens,
        fitted,
    ));
    match bounded_meta(&response, options.max_response_tokens, measure) {
        Ok(meta) => {
            response.meta = meta;
            assert(response@ == (DiffSymbolsView { meta, ..fitted }));
            Ok(response)
        },
        Err(e) => Err(e),
    }
}

/// Whether a result is what comes of a page: its answer within the ceiling of
/// the call, or why there is none.
pub open spec fn page_answered<
    I: Fn(&str, &str) -> Result<ResolvedRevisions, Error>,
    G: Fn(&str, &str) -> Result<CommitPair, Error>,
    B: Fn(&str, &Vec<String>) -> Result<HistoricalBlobs, Error>,
    M: Fn(&str, &Vec<ParserSymbol>) -> Vec<bool>,
    K: Fn(
        &str,
        &str,
        &Option<ResolvedHistoricalSymbol>,
        &Option<ResolvedHistoricalSymbol>,
        bool,
    ) -> Option<DiffSymbolChange>,
    C: Fn(&str) -> usize,
    T: Fn(&str, usize) -> (usize, usize),
    S: Fn(&DiffSymbolsResponse, &ResponseMeta, ReceiptResourceDecoration) -> Measurement,
>(
    ports: ComparisonPorts<I, G, B, M, K, C, T, S>,
    page: PageView,
    max: Option<usize>,
    r: Result<DiffSymbolsResponse, Error>,
) -> bool {
    match r {
        Ok(out) => exists|built: DiffSymbolsView|
            #[trigger] page_built(
                ports.commits,
                ports.blobs_at,
                ports.matches,
                ports.classify,
                ports.truncate,
                page,
                Ok(built),
            ) && comparison_answered(ports.count, ports.measure, page, built, max, out@),
        Err(e) => {
            ||| page_built(
                ports.commits,
                ports.blobs_at,
                ports.matches,
                ports.classify,
                ports.truncate,
                page,
                Err(e@),
            )
            ||| exists|built: DiffSymbolsView|
                #[trigger] page_built(
                    ports.commits,
                    ports.blobs_at,
                    ports.matches,
                    ports.classify,
                    ports.truncate,
                    page,
                    Ok(built),
                ) && comparison_unanswered(ports.count, ports.measure, page, built, max, e)
        },
    }
}

/// Whether `out` answers the targets of a comparison from one on: each result is
/// of its target, the answer goes on where its results end and ends where the
/// targets do, and it is complete where nothing is left out.
pub open spec fn answers_from(
    targets: Seq<PairView>,
    stream: Seq<u8>,
    from: usize,
    out: DiffSymbolsView,
) -> bool {
    &&& from + out.results.len() <= targets.len()
    &&& forall|i: int|
        0 <= i < out.results.len() ==> (#[trigger] out.results[i]).request_index == from + i
            && out.results[i].target == targets[from + i].response_target()
    &&& continues_at(
        out.meta.next_cursor,
        stream,
        (from + out.results.len()) as usize,
        targets.len(),
    )
    &&& out.meta.next_cursor is None <==> from + out.results.len() == targets.len()
    &&& out.result_complete <==> out.meta.next_cursor is None && tells_all(out.results)
}

proof fn lemma_built_answers<
    G: Fn(&str, &str) -> Result<CommitPair, Error>,
    B: Fn(&str, &Vec<String>) -> Result<HistoricalBlobs, Error>,
    M: Fn(&str, &Vec<ParserSymbol>) -> Vec<bool>,
    K: Fn(
        &str,
        &str,
        &Option<ResolvedHistoricalSymbol>,
        &Option<ResolvedHistoricalSymbol>,
        bool,
    ) -> Option<DiffSymbolChange>,
    T: Fn(&str, usize) -> (usize, usize),
>(
    commits: G,
    blobs_at: B,
    matches: M,
    classify: K,
    truncate: T,
    page: PageView,
    out: DiffSymbolsView,
)
    requires
        page_built(commits, blobs_at, matches, classify, truncate, page, Ok(out)),
        page.targets.len() <= usize::MAX,
    ensures
        answers_from(page.targets, page.stream, page.from, out),
        out.results.len() == page.to - page.from,
{
    let (first, second, base, head, ends) = choose|
        first: HistoricalBlobs,
        second: HistoricalBlobs,
        base: BatchView,
        head: BatchView,
        ends: (RevisionView, RevisionView),
    |
        #[trigger] results_built(
            matches,
            classify,
            truncate,
            page,
            ends,
            first,
            second,
            base,
            head,
            Ok(out),
        );
    let (results, budgets) = choose|results: Seq<ResultView>, budgets: Seq<DiffBudget>|
        {
            &&& #[trigger] page_compared(
                matches,
                classify,
                truncate,
                base,
                head,
                page.targets,
                page.from,
                page.budget(),
                results,
                budgets,
            )
            &&& results.len() == page.to - page.from
            &&& page_view(
                page,
                ends,
                results,
                page_diagnostics(page, first, second, base, head, budgets.last()),
                budgets.last(),
                out,
            )
        };
    assert(out.results == results);
    assert forall|i: int| 0 <= i < out.results.len() implies (
    #[trigger] out.results[i]).request_index == page.from + i && out.results[i].target
        == page.targets[page.from + i].response_target() by {
        assert(target_compared(
            matches,
            classify,
            truncate,
            base,
            head,
            page.targets[page.from + i],
            (page.from + i) as usize,
            budgets[i],
            Ok((results[i], budgets[i + 1])),
        ));
    }
}

/// Every answer to a page answers its targets in order, whatever the ceiling of
/// the call, and tells where the next page begins. Without a ceiling it answers
/// all targets of the page.
pub proof fn a_page_answers_its_targets<
    I: Fn(&str, &str) -> Result<ResolvedRevisions, Error>,
    G: Fn(&str, &str) -> Result<CommitPair, Error>,
    B: Fn(&str, &Vec<String>) -> Result<HistoricalBlobs, Error>,
    M: Fn(&str, &Vec<ParserSymbol>) -> Vec<bool>,
    K: Fn(
        &str,
        &str,
        &Option<ResolvedHistoricalSymbol>,
        &Option<ResolvedHistoricalSymbol>,
        bool,
    ) -> Option<DiffSymbolChange>,
    C: Fn(&str) -> usize,
    T: Fn(&str, usize) -> (usize, usize),
    S: Fn(&DiffSymbolsResponse, &ResponseMeta, ReceiptResourceDecoration) -> Measurement,
>(
    ports: ComparisonPorts<I, G, B, M, K, C, T, S>,
    page: PageView,
    max: Option<usize>,
    out: DiffSymbolsResponse,
)
    requires
        page_answered(ports, page, max, Ok(out)),
        page.targets.len() <= usize::MAX,
    ensures
        answers_from(page.targets, page.stream, page.from, out@),
        out@.results.len() <= page.to - page.from,
        max is None ==> out@.results.len() == page.to - page.from,
{
    let built = choose|built: DiffSymbolsView|
        #[trigger] page_built(
            ports.commits,
            ports.blobs_at,
            ports.matches,
            ports.classify,
            ports.truncate,
            page,
            Ok(built),
        ) && comparison_answered(ports.count, ports.measure, page, built, max, out@);
    lemma_built_answers(
        ports.commits,
        ports.blobs_at,
        ports.matches,
        ports.classify,
        ports.truncate,
        page,
        built,
    );
    let fitted = choose|fitted: DiffSymbolsView|
        {
            &&& #[trigger] comparison_fitted(
                ports.count,
                ports.measure,
                built,
                page.from,
                page.targets.len(),
                page.stream,
                max,
                fitted,
            )
            &&& settled_as::<DiffSymbolsResponse, S>(ports.measure, fitted, Ok(out@.meta))
            &&& out@.meta == with_counts(fitted.meta, counts(out@.meta))
            &&& out@ == (DiffSymbolsView { meta: out@.meta, ..fitted })
            &&& max matches Some(limit) ==> out@.meta.total_response_tokens <= limit
        };
    a_fitted_comparison_goes_on_behind_its_results(
        ports.count,
        ports.measure,
        built,
        page.from,
        page.targets.len(),
        page.stream,
        max,
        fitted,
    );
    assert forall|i: int| 0 <= i < out@.results.len() implies (
    #[trigger] out@.results[i]).request_index == page.from + i && out@.results[i].target
        == page.targets[page.from + i].response_target() by {
        assert(fitted.results[i].request_index == built.results[i].request_index);
    }
}

/// Whether an answer to a request holds one page of its targets, from the first
/// on or from where its cursor goes on, and all of the page where the call has no
/// ceiling.
pub open spec fn page_read(
    request: ParsedDiffSymbolsRequest,
    size: usize,
    max: Option<usize>,
    out: DiffSymbolsView,
) -> bool {
    let targets = views(request.targets@);
    exists|stream: Seq<u8>, from: usize|
        {
            &&& #[trigger] answers_from(targets, stream, from, out)
            &&& out.results.len() <= size
            &&& max is None ==> out.results.len() == page_end(from, size, targets.len()) - from
            &&& from == match request.cursor {
                None => 0,
                Some(cursor) => cursor.place(),
            }
        }
}

/// Whether a result is what comes of a comparison.
pub open spec fn comparison_done<
    I: Fn(&str, &str) -> Result<ResolvedRevisions, Error>,
    G: Fn(&str, &str) -> Result<CommitPair, Error>,
    B: Fn(&str, &Vec<String>) -> Result<HistoricalBlobs, Error>,
    M: Fn(&str, &Vec<ParserSymbol>) -> Vec<bool>,
    K: Fn(
        &str,
        &str,
        &Option<ResolvedHistoricalSymbol>,
        &Option<ResolvedHistoricalSymbol>,
        bool,
    ) -> Option<DiffSymbolChange>,
    C: Fn(&str) -> usize,
    T: Fn(&str, usize) -> (usize, usize),
    S: Fn(&DiffSymbolsResponse, &ResponseMeta, ReceiptResourceDecoration) -> Measurement,
>(
    ports: ComparisonPorts<I, G, B, M, K, C, T, S>,
    service: ServiceIdentity,
    request: ParsedDiffSymbolsRequest,
    size: usize,
    max_tokens: usize,
    meta: ResponseMeta,
    max: Option<usize>,
    r: Result<DiffSymbolsResponse, Error>,
) -> bool {
    exists|said: Result<ResolvedRevisions, Error>|
        #[trigger] identity_said(
            ports.identity,
            request.base_revision@,
            request.head_revision@,
            said,
        ) && match said {
            Err(e) => r is Err && r->Err_0@ == e@,
            Ok(revisions) => match page_offset(
                request.cursor,
                request.targets@.len(),
                comparison_id(
                    service,
                    views(request.targets@),
                    revisions.base_revision@,
                    revisions.head_revision@,
                ),
            ) {
                Err(fault) => r is Err && r->Err_0@ == fault,
                Ok(from) => page_answered(
                    ports,
                    page_at(service, request, size, max_tokens, meta, revisions, from),
                    max,
                    r,
                ),
            },
        }
}

impl Services {
    /// Answers a comparison of symbols: one page of it, within the budgets of a
    /// page and the ceiling of the call.
    #[verifier::rlimit(40)]
    pub fn history_diff_symbols_sync<
        I: Fn(&str, &str) -> Result<ResolvedRevisions, Error>,
        G: Fn(&str, &str) -> Result<CommitPair, Error>,
        B: Fn(&str, &Vec<String>) -> Result<HistoricalBlobs, Error>,
        M: Fn(&str, &Vec<ParserSymbol>) -> Vec<bool>,
        K: Fn(
            &str,
            &str,
            &Option<ResolvedHistoricalSymbol>,
            &Option<ResolvedHistoricalSymbol>,
            bool,
        ) -> Option<DiffSymbolChange>,
        C: Fn(&str) -> usize,
        T: Fn(&str, usize) -> (usize, usize),
        S: Fn(&DiffSymbolsResponse, &ResponseMeta, ReceiptResourceDecoration) -> Measurement,
    >(
        service: &ServiceIdentity,
        request: &ParsedDiffSymbolsRequest,
        default_results: usize,
        max_tokens: Result<usize, Error>,
        meta: Result<ResponseMeta, Error>,
        ports: &ComparisonPorts<I, G, B, M, K, C, T, S>,
        options: ServiceCallOptions,
        cancellation: &CancellationToken,
    ) -> (r: Result<DiffSymbolsResponse, Error>)
        requires
            comparison_answers(*ports),
        ensures
            asked_first(r, *cancellation),
            or_stopped(
                r,
                *cancellation,
                match (max_tokens, meta) {
                    (Err(refused), _) => r is Err && r->Err_0@ == refused@,
                    (Ok(_), Err(refused)) => r is Err && r->Err_0@ == refused@,
                    (Ok(max_tokens), Ok(meta)) => comparison_done(
                        *ports,
                        *service,
                        *request,
                        page_size(request.max_results, default_results),
                        max_tokens,
                        meta,
                        options.max_response_tokens,
                        r,
                    ),
                },
            ),
            r matches Ok(out) ==> page_read(
                *request,
                page_size(request.max_results, default_results),
                options.max_response_tokens,
                out@,
            ),
    {
        match check_cancelled(cancellation) {
            Ok(_) => {},
            Err(e) => {
                return Err(e);
            },
        }
        let wanted: usize = match request.max_results {
            Some(asked) => asked,
            None => default_results,
        };
        let size: usize = if wanted < MAX_DIFF_SYMBOL_RESULTS {
            wanted
        } else {
            MAX_DIFF_SYMBOL_RESULTS
        };
        assert(size == page_size(request.max_results, default_results));
        let max_tokens: usize = match max_tokens {
            Ok(max_tokens) => max_tokens,
            Err(e) => {
                return Err(e);
            },
        };
        let meta = match meta {
            Ok(meta) => meta,
            Err(e) => {
                return Err(e);
            },
        };
        let ghost given = meta;
        let said = (ports.identity)(request.base_revision.as_str(), request.head_revision.as_str());
        let ghost resolved = said;
        assert(identity_said(
            ports.identity,
            request.base_revision@,
            request.head_revision@,
            resolved,
        ));
        let revisions = match said {
            Ok(revisions) => revisions,
            Err(e) => {
                return Err(e);
            },
        };
        let stream_id = diff_symbols_stream_id(
            service,
            request,
            revisions.base_revision.as_str(),
            revisions.head_revision.as_str(),
        );
        let from: usize = match parse_diff_symbols_cursor(request, stream_id) {
            Ok(from) => from,
            Err(e) => {
                return Err(e);
            },
        };
        let total: usize = request.targets.len();
        let reach: usize = from.saturating_add(size);
        let to: usize = if reach < total {
            reach
        } else {
            total
        };
        let base_paths = sort_unique_texts(list_base_paths(&request.targets, from, to));
        let head_paths = sort_unique_texts(list_head_paths(&request.targets, from, to));
        let start = PageStart {
            targets: request,
            from,
            to,
            stream_id,
            revisions: &revisions,
            max_tokens,
            base_paths,
            head_paths,
        };
        assert(views(request.targets@).len() == total);
        assert(start.page(given) == page_at(
            *service,
            *request,
            size,
            max_tokens,
            given,
            revisions,
            from,
        ));
        match read_page(ports, &start, meta, cancellation) {
            Ok(built) => {
                assert(page_built(
                    ports.commits,
                    ports.blobs_at,
                    ports.matches,
                    ports.classify,
                    ports.truncate,
                    start.page(given),
                    Ok(built@),
                ));
                let r = bound_comparison(
                    built,
                    &start,
                    options,
                    &ports.count,
                    &ports.measure,
                    Ghost(given),
                );
                assert(page_answered(
                    *ports,
                    start.page(given),
                    options.max_response_tokens,
                    r,
                ));
                proof {
                    if r is Ok {
                        let out = r->Ok_0;
                        a_page_answers_its_targets(
                            *ports,
                            start.page(given),
                            options.max_response_tokens,
                            out,
                        );
                        assert(answers_from(
                            views(request.targets@),
                            start.page(given).stream,
                            from,
                            out@,
                        ));
                    }
                }
                r
            },
            Err(e) => {
                let r: Result<DiffSymbolsResponse, Error> = Err(e);
                assert(stopped(e, *cancellation) || page_answered(
                    *ports,
                    start.page(given),
                    options.max_response_tokens,
                    r,
                ));
                r
            },
        }
    }
}

} // verus!
