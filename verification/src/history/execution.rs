//! Answering history requests.

use crate::accounting::{
    counts, with_counts, Measurement, ReceiptResourceDecoration, ServiceCallOptions,
};
use crate::cancellation::{asked_first, check_cancelled, stopped};
use crate::error::{Error, Fault};
use crate::fitting::{
    bounded_meta, count_tokens, counted_as, counts_all, settled_as, settles_all, unanswered,
};
use crate::history::diff::{
    end_line, ended_line, ended_line_bytes, longest_within, returned_end_line, symbol_diff_buffer,
    unified_diff, unified_diff_text, utf8_prefix,
};
use crate::history::fit::{history_fitted, history_unfitted};
use crate::history::request::{OperationView, ParsedHistoryOperation, ParsedHistoryRequest};
use crate::history::revision::{
    a_symbol_is_small, historical_metadata, optional_outcome, required_outcome, small_end,
    without_text, FileView, GitBlob, ResolvedHistoricalSymbol, ResolvedView, MAX_COMPARED_BYTES,
};
use crate::history::types::{
    CommitView, HistoricalSymbol, HistoricalView, HistoryResponse, HistoryView,
    SymbolHistoryCommit,
};
use crate::model::{ChangeView, DiffSymbolChange, ResponseMeta};
use crate::ordered::{first_of, views};
use crate::response::optional_view;
use crate::services::Services;
use crate::text::{appended, byte_len, copy_text, optional_text};
use crate::validation::byte_size;
use tokio_util::sync::CancellationToken;
use vstd::prelude::*;

verus! {

/// The lines of context around a change.
pub const DIFF_CONTEXT_LINES: usize = 3;

/// Two revisions, resolved to commits.
#[derive(Debug)]
pub struct ResolvedRevisions {
    pub base_revision: String,
    pub head_revision: String,
}

/// What answers a history request: `blob_at` reads a file of a revision, with
/// the symbols in it and those that a name stands for; `identity` resolves two
/// revisions; `line_history` lists the commits that touched lines of a file;
/// `classify` says what changed in a symbol; `count` counts the tokens of a
/// text, `truncate` tells how many bytes of a text are within a number of
/// tokens, and how many tokens they are; `measure` counts those of a
/// serialized response.
pub struct HistoryPorts<B, I, L, K, C, T, S> {
    pub blob_at: B,
    pub identity: I,
    pub line_history: L,
    pub classify: K,
    pub count: C,
    pub truncate: T,
    pub measure: S,
}

/// Whether a file of a revision may be said to be `blob`.
pub open spec fn blob_said<B: Fn(&str, &str, &str) -> Result<GitBlob, Error>>(
    blob_at: B,
    revision: Seq<char>,
    path: Seq<char>,
    symbol: Seq<char>,
    blob: Result<GitBlob, Error>,
) -> bool {
    exists|a: &str, b: &str, c: &str|
        {
            &&& #[trigger] call_ensures(blob_at, (a, b, c), blob)
            &&& a@ == revision
            &&& b@ == path
            &&& c@ == symbol
        }
}

/// Whether two revisions may be said to resolve so.
pub open spec fn identity_said<I: Fn(&str, &str) -> Result<ResolvedRevisions, Error>>(
    identity: I,
    base: Seq<char>,
    head: Seq<char>,
    said: Result<ResolvedRevisions, Error>,
) -> bool {
    exists|a: &str, b: &str|
        {
            &&& #[trigger] call_ensures(identity, (a, b), said)
            &&& a@ == base
            &&& b@ == head
        }
}

/// Whether the commits that touched lines of a file may be said to be these.
pub open spec fn lines_said<
    L: Fn(&str, &str, usize, usize, usize) -> Result<Vec<SymbolHistoryCommit>, Error>,
>(
    line_history: L,
    revision: Seq<char>,
    path: Seq<char>,
    start_line: usize,
    end_line: usize,
    limit: usize,
    said: Result<Vec<SymbolHistoryCommit>, Error>,
) -> bool {
    exists|a: &str, b: &str|
        {
            &&& #[trigger] call_ensures(line_history, (a, b, start_line, end_line, limit), said)
            &&& a@ == revision
            &&& b@ == path
        }
}

/// Whether `change` may be said of a symbol at two ends.
pub open spec fn change_said<
    K: Fn(
        &str,
        &str,
        &Option<ResolvedHistoricalSymbol>,
        &Option<ResolvedHistoricalSymbol>,
        bool,
    ) -> Option<DiffSymbolChange>,
>(
    classify: K,
    base_path: Seq<char>,
    head_path: Seq<char>,
    before: Option<ResolvedView>,
    after: Option<ResolvedView>,
    renamed: bool,
    change: Option<ChangeView>,
) -> bool {
    exists|
        a: &str,
        b: &str,
        old_end: &Option<ResolvedHistoricalSymbol>,
        new_end: &Option<ResolvedHistoricalSymbol>,
        said: Option<DiffSymbolChange>,
    |
        {
            &&& #[trigger] call_ensures(classify, (a, b, old_end, new_end, renamed), said)
            &&& a@ == base_path
            &&& b@ == head_path
            &&& optional_view(*old_end) == before
            &&& optional_view(*new_end) == after
            &&& optional_view(said) == change
        }
}

/// Whether `bytes` of a text may be said to be within a number of tokens, and to
/// be `tokens` of them.
pub open spec fn cut_said<T: Fn(&str, usize) -> (usize, usize)>(
    truncate: T,
    text: Seq<char>,
    max_tokens: usize,
    cut: (usize, usize),
) -> bool {
    exists|part: &str| (#[trigger] call_ensures(truncate, (part, max_tokens), cut)) && part@ == text
}

/// Whether everything can be asked.
pub open spec fn answers<
    B: Fn(&str, &str, &str) -> Result<GitBlob, Error>,
    I: Fn(&str, &str) -> Result<ResolvedRevisions, Error>,
    L: Fn(&str, &str, usize, usize, usize) -> Result<Vec<SymbolHistoryCommit>, Error>,
    K: Fn(
        &str,
        &str,
        &Option<ResolvedHistoricalSymbol>,
        &Option<ResolvedHistoricalSymbol>,
        bool,
    ) -> Option<DiffSymbolChange>,
    C: Fn(&str) -> usize,
    T: Fn(&str, usize) -> (usize, usize),
    S: Fn(&HistoryResponse, &ResponseMeta, ReceiptResourceDecoration) -> Measurement,
>(ports: HistoryPorts<B, I, L, K, C, T, S>) -> bool {
    &&& forall|a: &str, b: &str, c: &str| call_requires(ports.blob_at, (a, b, c))
    &&& reads_small_files(ports.blob_at)
    &&& forall|a: &str, b: &str| call_requires(ports.identity, (a, b))
    &&& forall|a: &str, b: &str, from: usize, to: usize, limit: usize|
        call_requires(ports.line_history, (a, b, from, to, limit))
    &&& classifies_all(ports.classify)
    &&& counts_all(ports.count)
    &&& cuts_all(ports.truncate)
    &&& settles_all::<HistoryResponse, S>(ports.measure)
}

/// Whether every file that is read is small enough to be compared.
pub open spec fn reads_small_files<B: Fn(&str, &str, &str) -> Result<GitBlob, Error>>(
    blob_at: B,
) -> bool {
    forall|a: &str, b: &str, c: &str, said: Result<GitBlob, Error>| #[trigger]
        call_ensures(blob_at, (a, b, c), said) ==> (said matches Ok(blob) ==> byte_len(
            blob.content@,
        ) <= MAX_COMPARED_BYTES)
}

proof fn a_read_end_is_small<B: Fn(&str, &str, &str) -> Result<GitBlob, Error>>(
    blob_at: B,
    revision: Seq<char>,
    path: Seq<char>,
    name: Seq<char>,
    said: Result<GitBlob, Error>,
)
    requires
        reads_small_files(blob_at),
        blob_said(blob_at, revision, path, name, said),
    ensures
        optional_outcome(path, name, said) matches Ok(end) ==> small_end(end),
{
    if let Ok(blob) = said {
        if let Ok(symbols) = blob.parsed {
            a_symbol_is_small(
                blob.revision@,
                path,
                name,
                FileView { content: blob.content@, symbols: symbols@ },
                blob.matches@,
            );
        }
    }
}

/// Whether every change can be classified.
pub open spec fn classifies_all<
    K: Fn(
        &str,
        &str,
        &Option<ResolvedHistoricalSymbol>,
        &Option<ResolvedHistoricalSymbol>,
        bool,
    ) -> Option<DiffSymbolChange>,
>(classify: K) -> bool {
    forall|
        a: &str,
        b: &str,
        before: &Option<ResolvedHistoricalSymbol>,
        after: &Option<ResolvedHistoricalSymbol>,
        renamed: bool,
    | call_requires(classify, (a, b, before, after, renamed))
}

/// Whether every text can be cut.
pub open spec fn cuts_all<T: Fn(&str, usize) -> (usize, usize)>(truncate: T) -> bool {
    forall|text: &str, max: usize| call_requires(truncate, (text, max))
}

/// A response before its kind of answer is filled in.
pub open spec fn blank_answer(kind: Seq<char>, meta: ResponseMeta, tokens: usize) -> HistoryView {
    HistoryView {
        kind,
        symbol: None,
        before: None,
        after: None,
        diff: None,
        diff_truncated: false,
        semantic_change: None,
        commits: Seq::empty(),
        result_complete: true,
        meta: ResponseMeta { source_tokens: tokens, ..meta },
    }
}

/// The answer with the text of a symbol.
pub open spec fn read_view(
    resolved: ResolvedView,
    kept: Seq<char>,
    tokens: usize,
    meta: ResponseMeta,
) -> HistoryView {
    let truncated = kept.len() < resolved.content.len();
    HistoryView {
        symbol: Some(
            HistoricalView {
                returned_end_line: end_line(resolved.symbol.target_start_line, kept),
                truncated,
                content: Some(kept),
                ..resolved.symbol
            },
        ),
        result_complete: !truncated,
        ..blank_answer("read_symbol"@, meta, tokens)
    }
}

/// Whether `outcome` may come of reading a symbol.
pub open spec fn read_built<
    B: Fn(&str, &str, &str) -> Result<GitBlob, Error>,
    T: Fn(&str, usize) -> (usize, usize),
>(
    blob_at: B,
    truncate: T,
    path: Seq<char>,
    symbol: Seq<char>,
    revision: Seq<char>,
    max_tokens: usize,
    meta: ResponseMeta,
    outcome: Result<HistoryView, Fault>,
) -> bool {
    exists|blob: Result<GitBlob, Error>|
        #[trigger] blob_said(blob_at, revision, path, symbol, blob) && match required_outcome(
            path,
            symbol,
            blob,
        ) {
            Err(fault) => outcome == Err::<HistoryView, Fault>(fault),
            Ok(resolved) => exists|cut: (usize, usize)|
                #[trigger] cut_said(truncate, resolved.content, max_tokens, cut) && outcome == Ok::<
                    HistoryView,
                    Fault,
                >(
                    read_view(
                        resolved,
                        longest_within(resolved.content, cut.0 as nat),
                        cut.1,
                        meta,
                    ),
                ),
        }
}

/// The text of an end of a comparison, empty where it is missing.
pub open spec fn end_text(end: Option<ResolvedView>) -> Seq<char> {
    match end {
        Some(resolved) => resolved.content,
        None => Seq::empty(),
    }
}

/// The difference between two ends.
pub open spec fn difference(
    before: Option<ResolvedView>,
    after: Option<ResolvedView>,
    base: Seq<char>,
    base_path: Seq<char>,
    head: Seq<char>,
    head_path: Seq<char>,
) -> Seq<char> {
    unified_diff(
        ended_line(end_text(before)),
        ended_line(end_text(after)),
        DIFF_CONTEXT_LINES,
        base + ":"@ + base_path,
        head + ":"@ + head_path,
    )
}

/// An end of a comparison, without its text.
pub open spec fn end_metadata(end: Option<ResolvedView>) -> Option<HistoricalView> {
    match end {
        Some(resolved) => Some(without_text(resolved.symbol)),
        None => None,
    }
}

/// The answer with the difference of a symbol.
pub open spec fn diff_view(
    before: Option<ResolvedView>,
    after: Option<ResolvedView>,
    diff: Seq<char>,
    total_tokens: usize,
    tokens: usize,
    change: Option<ChangeView>,
    meta: ResponseMeta,
) -> HistoryView {
    HistoryView {
        before: end_metadata(before),
        after: end_metadata(after),
        diff: Some(diff),
        diff_truncated: tokens < total_tokens,
        semantic_change: change,
        result_complete: tokens >= total_tokens,
        ..blank_answer("diff_symbol"@, meta, tokens)
    }
}

/// Whether `out` may come of comparing the two ends of a symbol.
pub open spec fn diff_built_from<
    K: Fn(
        &str,
        &str,
        &Option<ResolvedHistoricalSymbol>,
        &Option<ResolvedHistoricalSymbol>,
        bool,
    ) -> Option<DiffSymbolChange>,
    C: Fn(&str) -> usize,
    T: Fn(&str, usize) -> (usize, usize),
>(
    classify: K,
    count: C,
    truncate: T,
    path: Seq<char>,
    revisions: ResolvedRevisions,
    before: Option<ResolvedView>,
    after: Option<ResolvedView>,
    max_tokens: usize,
    meta: ResponseMeta,
    out: HistoryView,
) -> bool {
    let full = difference(
        before,
        after,
        revisions.base_revision@,
        path,
        revisions.head_revision@,
        path,
    );
    exists|total: usize, cut: (usize, usize), change: Option<ChangeView>|
        {
            &&& #[trigger] counted_as(count, full, total)
            &&& #[trigger] cut_said(truncate, full, max_tokens, cut)
            &&& #[trigger] change_said(classify, path, path, before, after, false, change)
            &&& out == diff_view(
                before,
                after,
                longest_within(full, cut.0 as nat),
                total,
                cut.1,
                change,
                meta,
            )
        }
}

/// Whether `outcome` may come of comparing a symbol in two revisions.
pub open spec fn diff_built<
    B: Fn(&str, &str, &str) -> Result<GitBlob, Error>,
    I: Fn(&str, &str) -> Result<ResolvedRevisions, Error>,
    K: Fn(
        &str,
        &str,
        &Option<ResolvedHistoricalSymbol>,
        &Option<ResolvedHistoricalSymbol>,
        bool,
    ) -> Option<DiffSymbolChange>,
    C: Fn(&str) -> usize,
    T: Fn(&str, usize) -> (usize, usize),
>(
    blob_at: B,
    identity: I,
    classify: K,
    count: C,
    truncate: T,
    path: Seq<char>,
    symbol: Seq<char>,
    base_revision: Seq<char>,
    head_revision: Seq<char>,
    max_tokens: usize,
    meta: ResponseMeta,
    outcome: Result<HistoryView, Fault>,
) -> bool {
    exists|said: Result<ResolvedRevisions, Error>|
        #[trigger] identity_said(identity, base_revision, head_revision, said) && match said {
            Err(e) => outcome == Err::<HistoryView, Fault>(e@),
            Ok(revisions) => ends_built(
                blob_at,
                classify,
                count,
                truncate,
                path,
                symbol,
                revisions,
                max_tokens,
                meta,
                outcome,
            ),
        }
}

/// Whether `outcome` may come of comparing a symbol in two resolved revisions.
pub open spec fn ends_built<
    B: Fn(&str, &str, &str) -> Result<GitBlob, Error>,
    K: Fn(
        &str,
        &str,
        &Option<ResolvedHistoricalSymbol>,
        &Option<ResolvedHistoricalSymbol>,
        bool,
    ) -> Option<DiffSymbolChange>,
    C: Fn(&str) -> usize,
    T: Fn(&str, usize) -> (usize, usize),
>(
    blob_at: B,
    classify: K,
    count: C,
    truncate: T,
    path: Seq<char>,
    symbol: Seq<char>,
    revisions: ResolvedRevisions,
    max_tokens: usize,
    meta: ResponseMeta,
    outcome: Result<HistoryView, Fault>,
) -> bool {
    exists|first: Result<GitBlob, Error>|
        #[trigger] blob_said(blob_at, revisions.base_revision@, path, symbol, first)
            && match optional_outcome(path, symbol, first) {
            Err(fault) => outcome == Err::<HistoryView, Fault>(fault),
            Ok(before) => later_built(
                blob_at,
                classify,
                count,
                truncate,
                path,
                symbol,
                revisions,
                before,
                max_tokens,
                meta,
                outcome,
            ),
        }
}

/// Whether `outcome` may come of comparing a symbol of an earlier revision with a
/// later one.
pub open spec fn later_built<
    B: Fn(&str, &str, &str) -> Result<GitBlob, Error>,
    K: Fn(
        &str,
        &str,
        &Option<ResolvedHistoricalSymbol>,
        &Option<ResolvedHistoricalSymbol>,
        bool,
    ) -> Option<DiffSymbolChange>,
    C: Fn(&str) -> usize,
    T: Fn(&str, usize) -> (usize, usize),
>(
    blob_at: B,
    classify: K,
    count: C,
    truncate: T,
    path: Seq<char>,
    symbol: Seq<char>,
    revisions: ResolvedRevisions,
    before: Option<ResolvedView>,
    max_tokens: usize,
    meta: ResponseMeta,
    outcome: Result<HistoryView, Fault>,
) -> bool {
    exists|second: Result<GitBlob, Error>|
        #[trigger] blob_said(blob_at, revisions.head_revision@, path, symbol, second)
            && match optional_outcome(path, symbol, second) {
            Err(fault) => outcome == Err::<HistoryView, Fault>(fault),
            Ok(after) => if before is None && after is None {
                outcome == Err::<HistoryView, Fault>(
                    Fault::SymbolNotFound {
                        path: path + "@"@ + revisions.base_revision@ + ".."@
                            + revisions.head_revision@,
                        symbol,
                    },
                )
            } else {
                outcome is Ok && diff_built_from(
                    classify,
                    count,
                    truncate,
                    path,
                    revisions,
                    before,
                    after,
                    max_tokens,
                    meta,
                    outcome->Ok_0,
                )
            },
        }
}

/// The revision that a log starts from.
pub open spec fn log_revision(revision: Option<Seq<char>>) -> Seq<char> {
    match revision {
        Some(revision) => revision,
        None => "HEAD"@,
    }
}

/// One more than a number of results, so that a further one shows.
pub open spec fn one_more(max_results: usize) -> usize {
    if max_results == usize::MAX {
        usize::MAX
    } else {
        (max_results + 1) as usize
    }
}

/// The answer with the commits that touched a symbol.
pub open spec fn log_view(
    resolved: ResolvedView,
    commits: Seq<CommitView>,
    max_results: usize,
    meta: ResponseMeta,
) -> HistoryView {
    HistoryView {
        symbol: Some(without_text(resolved.symbol)),
        commits: first_of(commits, max_results as int),
        result_complete: commits.len() <= max_results,
        ..blank_answer("symbol_log"@, meta, 0)
    }
}

/// Whether `outcome` may come of listing the commits that touched a symbol.
pub open spec fn log_built<
    B: Fn(&str, &str, &str) -> Result<GitBlob, Error>,
    L: Fn(&str, &str, usize, usize, usize) -> Result<Vec<SymbolHistoryCommit>, Error>,
>(
    blob_at: B,
    line_history: L,
    path: Seq<char>,
    symbol: Seq<char>,
    revision: Option<Seq<char>>,
    max_results: usize,
    meta: ResponseMeta,
    outcome: Result<HistoryView, Fault>,
) -> bool {
    exists|blob: Result<GitBlob, Error>|
        #[trigger] blob_said(blob_at, log_revision(revision), path, symbol, blob)
            && match required_outcome(path, symbol, blob) {
            Err(fault) => outcome == Err::<HistoryView, Fault>(fault),
            Ok(resolved) => exists|said: Result<Vec<SymbolHistoryCommit>, Error>|
                #[trigger] lines_said(
                    line_history,
                    log_revision(revision),
                    path,
                    resolved.symbol.target_start_line,
                    resolved.symbol.target_end_line,
                    one_more(max_results),
                    said,
                ) && outcome == match said {
                    Err(e) => Err::<HistoryView, Fault>(e@),
                    Ok(commits) => Ok::<HistoryView, Fault>(
                        log_view(resolved, views(commits@), max_results, meta),
                    ),
                },
        }
}

/// A result, as what it says.
pub open spec fn view_result(r: Result<HistoryResponse, Error>) -> Result<HistoryView, Fault> {
    match r {
        Ok(response) => Ok(response@),
        Err(e) => Err(e@),
    }
}

/// Whether a result is one, or the operation was cancelled.
pub open spec fn or_cancelled(
    r: Result<HistoryResponse, Error>,
    cancellation: CancellationToken,
    due: bool,
) -> bool {
    (r is Err && stopped(r->Err_0, cancellation)) || due
}

fn blank_response(kind: &str, meta: ResponseMeta, tokens: usize) -> (r: HistoryResponse)
    ensures
        r@ == blank_answer(kind@, meta, tokens),
{
    let mut meta = meta;
    meta.source_tokens = tokens;
    let r = HistoryResponse {
        kind: copy_text(kind),
        symbol: None,
        before: None,
        after: None,
        diff: None,
        diff_truncated: false,
        semantic_change: None,
        commits: Vec::new(),
        result_complete: true,
        meta,
    };
    assert(views(r.commits@) =~= Seq::<CommitView>::empty());
    r
}

proof fn shorter_prefix(text: Seq<char>, max_bytes: nat)
    ensures
        longest_within(text, max_bytes).len() <= text.len(),
        (crate::text::byte_len(longest_within(text, max_bytes)) < crate::text::byte_len(text)) == (
        longest_within(text, max_bytes).len() < text.len()),
{
    crate::history::diff::the_longest_prefix_is_cut_once(text, max_bytes);
    let kept = longest_within(text, max_bytes);
    assert(kept =~= text.take(kept.len() as int));
    assert(text.take(text.len() as int) =~= text);
    if kept.len() < text.len() {
        crate::text::byte_len_grows(text, kept.len() as int, text.len() as int);
    }
}

fn read_symbol<
    B: Fn(&str, &str, &str) -> Result<GitBlob, Error>,
    T: Fn(&str, usize) -> (usize, usize),
>(
    blob_at: &B,
    truncate: &T,
    path: &str,
    symbol: &str,
    revision: &str,
    max_tokens: usize,
    meta: ResponseMeta,
) -> (r: Result<HistoryResponse, Error>)
    requires
        forall|a: &str, b: &str, c: &str| call_requires(*blob_at, (a, b, c)),
        cuts_all(*truncate),
    ensures
        read_built(
            *blob_at,
            *truncate,
            path@,
            symbol@,
            revision@,
            max_tokens,
            meta,
            view_result(r),
        ),
{
    let blob = blob_at(revision, path, symbol);
    let ghost read = blob;
    assert(blob_said(*blob_at, revision@, path@, symbol@, read));
    let resolved = match Services::historical_symbol(path, symbol, blob) {
        Ok(resolved) => resolved,
        Err(e) => {
            return Err(e);
        },
    };
    let ghost found = resolved@;
    let cut = truncate(resolved.content.as_str(), max_tokens);
    assert(cut_said(*truncate, found.content, max_tokens, cut));
    let kept = utf8_prefix(resolved.content.as_str(), cut.0);
    proof {
        shorter_prefix(found.content, cut.0 as nat);
    }
    let truncated = byte_size(kept.as_str()) < byte_size(resolved.content.as_str());
    let mut symbol = resolved.symbol;
    symbol.returned_end_line = returned_end_line(symbol.target_start_line, kept.as_str());
    symbol.truncated = truncated;
    symbol.content = Some(kept);
    let mut response = blank_response("read_symbol", meta, cut.1);
    response.symbol = Some(symbol);
    response.result_complete = !truncated;
    assert(response@ == read_view(
        found,
        longest_within(found.content, cut.0 as nat),
        cut.1,
        meta,
    ));
    Ok(response)
}

fn named_path(revision: &str, path: &str) -> (r: String)
    ensures
        r@ == revision@ + ":"@ + path@,
{
    appended(appended(copy_text(revision), ":"), path)
}

/// The text of an end of a comparison.
pub(crate) fn text_of_end(end: &Option<ResolvedHistoricalSymbol>) -> (r: String)
    ensures
        r@ == end_text(optional_view(*end)),
{
    match end {
        Some(resolved) => resolved.content.clone(),
        None => {
            let empty = String::new();
            assert(empty@ =~= Seq::<char>::empty());
            empty
        },
    }
}

/// The difference between two ends.
pub(crate) fn difference_text(
    before: &Option<ResolvedHistoricalSymbol>,
    after: &Option<ResolvedHistoricalSymbol>,
    base: &str,
    base_path: &str,
    head: &str,
    head_path: &str,
) -> (r: String)
    requires
        small_end(optional_view(*before)),
        small_end(optional_view(*after)),
    ensures
        r@ == difference(
            optional_view(*before),
            optional_view(*after),
            base@,
            base_path@,
            head@,
            head_path@,
        ),
{
    let before_text = text_of_end(before);
    let after_text = text_of_end(after);
    let before_diff = symbol_diff_buffer(before_text.as_str());
    let after_diff = symbol_diff_buffer(after_text.as_str());
    proof {
        ended_line_bytes(before_text@);
        ended_line_bytes(after_text@);
        assert(byte_len(Seq::<char>::empty()) == 0);
    }
    unified_diff_text(
        before_diff.as_str(),
        after_diff.as_str(),
        DIFF_CONTEXT_LINES,
        named_path(base, base_path).as_str(),
        named_path(head, head_path).as_str(),
    )
}

/// An end of a comparison, without its text.
pub(crate) fn metadata_of_end(end: Option<ResolvedHistoricalSymbol>) -> (r: Option<
    HistoricalSymbol,
>)
    ensures
        optional_view(r) == end_metadata(optional_view(end)),
{
    match end {
        Some(resolved) => Some(historical_metadata(resolved)),
        None => None,
    }
}

fn diff_symbol<
    K: Fn(
        &str,
        &str,
        &Option<ResolvedHistoricalSymbol>,
        &Option<ResolvedHistoricalSymbol>,
        bool,
    ) -> Option<DiffSymbolChange>,
    C: Fn(&str) -> usize,
    T: Fn(&str, usize) -> (usize, usize),
>(
    classify: &K,
    count: &C,
    truncate: &T,
    path: &str,
    revisions: &ResolvedRevisions,
    before: Option<ResolvedHistoricalSymbol>,
    after: Option<ResolvedHistoricalSymbol>,
    max_tokens: usize,
    meta: ResponseMeta,
) -> (r: HistoryResponse)
    requires
        classifies_all(*classify),
        counts_all(*count),
        cuts_all(*truncate),
        small_end(optional_view(before)),
        small_end(optional_view(after)),
    ensures
        diff_built_from(
            *classify,
            *count,
            *truncate,
            path@,
            *revisions,
            optional_view(before),
            optional_view(after),
            max_tokens,
            meta,
            r@,
        ),
{
    let full = difference_text(
        &before,
        &after,
        revisions.base_revision.as_str(),
        path,
        revisions.head_revision.as_str(),
        path,
    );
    let total: usize = count_tokens(count, full.as_str());
    let cut = truncate(full.as_str(), max_tokens);
    assert(cut_said(*truncate, full@, max_tokens, cut));
    let diff = utf8_prefix(full.as_str(), cut.0);
    let change = classify(path, path, &before, &after, false);
    let ghost said = optional_view(change);
    assert(change_said(
        *classify,
        path@,
        path@,
        optional_view(before),
        optional_view(after),
        false,
        said,
    ));
    let diff_truncated = cut.1 < total;
    let ghost old_end = optional_view(before);
    let ghost new_end = optional_view(after);
    let mut response = blank_response("diff_symbol", meta, cut.1);
    response.before = metadata_of_end(before);
    response.after = metadata_of_end(after);
    response.diff = Some(diff);
    response.diff_truncated = diff_truncated;
    response.semantic_change = change;
    response.result_complete = !diff_truncated;
    assert(response@ == diff_view(
        old_end,
        new_end,
        longest_within(full@, cut.0 as nat),
        total,
        cut.1,
        said,
        meta,
    ));
    response
}

fn compare_symbol<
    B: Fn(&str, &str, &str) -> Result<GitBlob, Error>,
    I: Fn(&str, &str) -> Result<ResolvedRevisions, Error>,
    L,
    K: Fn(
        &str,
        &str,
        &Option<ResolvedHistoricalSymbol>,
        &Option<ResolvedHistoricalSymbol>,
        bool,
    ) -> Option<DiffSymbolChange>,
    C: Fn(&str) -> usize,
    T: Fn(&str, usize) -> (usize, usize),
    S,
>(
    ports: &HistoryPorts<B, I, L, K, C, T, S>,
    path: &str,
    symbol: &str,
    base_revision: &str,
    head_revision: &str,
    max_tokens: usize,
    meta: ResponseMeta,
    cancellation: &CancellationToken,
) -> (r: Result<HistoryResponse, Error>)
    requires
        forall|a: &str, b: &str, c: &str| call_requires(ports.blob_at, (a, b, c)),
        reads_small_files(ports.blob_at),
        forall|a: &str, b: &str| call_requires(ports.identity, (a, b)),
        classifies_all(ports.classify),
        counts_all(ports.count),
        cuts_all(ports.truncate),
    ensures
        or_cancelled(
            r,
            *cancellation,
            diff_built(
                ports.blob_at,
                ports.identity,
                ports.classify,
                ports.count,
                ports.truncate,
                path@,
                symbol@,
                base_revision@,
                head_revision@,
                max_tokens,
                meta,
                view_result(r),
            ),
        ),
{
    let said = (ports.identity)(base_revision, head_revision);
    let ghost resolved = said;
    assert(identity_said(ports.identity, base_revision@, head_revision@, resolved));
    let revisions = match said {
        Ok(revisions) => revisions,
        Err(e) => {
            return Err(e);
        },
    };
    match check_cancelled(cancellation) {
        Ok(_) => {},
        Err(e) => {
            return Err(e);
        },
    }
    let first = (ports.blob_at)(revisions.base_revision.as_str(), path, symbol);
    let ghost one = first;
    assert(blob_said(ports.blob_at, revisions.base_revision@, path@, symbol@, one));
    let before = match Services::historical_symbol_optional(path, symbol, first) {
        Ok(before) => before,
        Err(e) => {
            return Err(e);
        },
    };
    match check_cancelled(cancellation) {
        Ok(_) => {},
        Err(e) => {
            return Err(e);
        },
    }
    let second = (ports.blob_at)(revisions.head_revision.as_str(), path, symbol);
    let ghost two = second;
    assert(blob_said(ports.blob_at, revisions.head_revision@, path@, symbol@, two));
    let after = match Services::historical_symbol_optional(path, symbol, second) {
        Ok(after) => after,
        Err(e) => {
            return Err(e);
        },
    };
    proof {
        a_read_end_is_small(ports.blob_at, revisions.base_revision@, path@, symbol@, one);
        a_read_end_is_small(ports.blob_at, revisions.head_revision@, path@, symbol@, two);
    }
    if before.is_none() && after.is_none() {
        return Err(
            Error::SymbolNotFound {
                path: appended(
                    appended(
                        appended(
                            appended(copy_text(path), "@"),
                            revisions.base_revision.as_str(),
                        ),
                        "..",
                    ),
                    revisions.head_revision.as_str(),
                ),
                symbol: copy_text(symbol),
            },
        );
    }
    Ok(
        diff_symbol(
            &ports.classify,
            &ports.count,
            &ports.truncate,
            path,
            &revisions,
            before,
            after,
            max_tokens,
            meta,
        ),
    )
}

fn list_commits<
    B: Fn(&str, &str, &str) -> Result<GitBlob, Error>,
    L: Fn(&str, &str, usize, usize, usize) -> Result<Vec<SymbolHistoryCommit>, Error>,
>(
    blob_at: &B,
    line_history: &L,
    path: &str,
    symbol: &str,
    revision: &Option<String>,
    max_results: usize,
    meta: ResponseMeta,
    cancellation: &CancellationToken,
) -> (r: Result<HistoryResponse, Error>)
    requires
        forall|a: &str, b: &str, c: &str| call_requires(*blob_at, (a, b, c)),
        forall|a: &str, b: &str, from: usize, to: usize, limit: usize|
            call_requires(*line_history, (a, b, from, to, limit)),
    ensures
        or_cancelled(
            r,
            *cancellation,
            log_built(
                *blob_at,
                *line_history,
                path@,
                symbol@,
                optional_text(*revision),
                max_results,
                meta,
                view_result(r),
            ),
        ),
{
    let from = match revision {
        Some(text) => text.as_str(),
        None => "HEAD",
    };
    assert(from@ == log_revision(optional_text(*revision)));
    let blob = blob_at(from, path, symbol);
    let ghost read = blob;
    assert(blob_said(*blob_at, from@, path@, symbol@, read));
    let resolved = match Services::historical_symbol(path, symbol, blob) {
        Ok(resolved) => resolved,
        Err(e) => {
            return Err(e);
        },
    };
    let ghost found = resolved@;
    match check_cancelled(cancellation) {
        Ok(_) => {},
        Err(e) => {
            return Err(e);
        },
    }
    let said = line_history(
        from,
        path,
        resolved.symbol.target_start_line,
        resolved.symbol.target_end_line,
        max_results.saturating_add(1),
    );
    let ghost told = said;
    assert(lines_said(
        *line_history,
        from@,
        path@,
        found.symbol.target_start_line,
        found.symbol.target_end_line,
        one_more(max_results),
        told,
    ));
    let mut commits = match said {
        Ok(commits) => commits,
        Err(e) => {
            return Err(e);
        },
    };
    let ghost all = views(commits@);
    assert(all.len() == commits@.len());
    let result_complete = commits.len() <= max_results;
    commits.truncate(max_results);
    assert(views(commits@) =~= first_of(all, max_results as int));
    let mut response = blank_response("symbol_log", meta, 0);
    response.symbol = Some(historical_metadata(resolved));
    response.commits = commits;
    response.result_complete = result_complete;
    assert(response@ == log_view(found, all, max_results, meta));
    Ok(response)
}

/// Whether `outcome` may come of carrying out an operation.
pub open spec fn history_built<
    B: Fn(&str, &str, &str) -> Result<GitBlob, Error>,
    I: Fn(&str, &str) -> Result<ResolvedRevisions, Error>,
    L: Fn(&str, &str, usize, usize, usize) -> Result<Vec<SymbolHistoryCommit>, Error>,
    K: Fn(
        &str,
        &str,
        &Option<ResolvedHistoricalSymbol>,
        &Option<ResolvedHistoricalSymbol>,
        bool,
    ) -> Option<DiffSymbolChange>,
    C: Fn(&str) -> usize,
    T: Fn(&str, usize) -> (usize, usize),
    S: Fn(&HistoryResponse, &ResponseMeta, ReceiptResourceDecoration) -> Measurement,
>(
    ports: HistoryPorts<B, I, L, K, C, T, S>,
    operation: OperationView,
    max_results: usize,
    max_tokens: usize,
    meta: ResponseMeta,
    outcome: Result<HistoryView, Fault>,
) -> bool {
    match operation {
        OperationView::ReadSymbol { path, symbol, revision } => read_built(
            ports.blob_at,
            ports.truncate,
            path,
            symbol,
            revision,
            max_tokens,
            meta,
            outcome,
        ),
        OperationView::DiffSymbol { path, symbol, base_revision, head_revision } => diff_built(
            ports.blob_at,
            ports.identity,
            ports.classify,
            ports.count,
            ports.truncate,
            path,
            symbol,
            base_revision,
            head_revision,
            max_tokens,
            meta,
            outcome,
        ),
        OperationView::SymbolLog { path, symbol, revision } => log_built(
            ports.blob_at,
            ports.line_history,
            path,
            symbol,
            revision,
            max_results,
            meta,
            outcome,
        ),
    }
}

/// The number of results that a request asks for, or the default.
pub open spec fn results_asked(asked: Option<usize>, default_results: usize) -> usize {
    match asked {
        Some(results) => results,
        None => default_results,
    }
}

/// Whether `out` is an answer fitted to the ceiling of a call, with settled
/// counts that are within it.
pub open spec fn history_answered<
    C: Fn(&str) -> usize,
    S: Fn(&HistoryResponse, &ResponseMeta, ReceiptResourceDecoration) -> Measurement,
>(count: C, measure: S, view: HistoryView, max: Option<usize>, out: HistoryView) -> bool {
    exists|fitted: HistoryView|
        {
            &&& #[trigger] history_fitted(count, measure, view, max, fitted)
            &&& settled_as::<HistoryResponse, S>(measure, fitted, Ok(out.meta))
            &&& out.meta == with_counts(fitted.meta, counts(out.meta))
            &&& out == (HistoryView { meta: out.meta, ..fitted })
            &&& max matches Some(limit) ==> out.meta.total_response_tokens <= limit
        }
}

/// Whether `error` is why an answer did not get within the ceiling of a call.
pub open spec fn history_unanswered<
    C: Fn(&str) -> usize,
    S: Fn(&HistoryResponse, &ResponseMeta, ReceiptResourceDecoration) -> Measurement,
>(count: C, measure: S, view: HistoryView, max: Option<usize>, error: Error) -> bool {
    ||| max is Some && history_unfitted(count, measure, view, max->0, error)
    ||| exists|fitted: HistoryView|
        #[trigger] history_fitted(count, measure, view, max, fitted) && unanswered::<
            HistoryResponse,
            S,
        >(measure, fitted, max, error)
}

fn bound_history<
    C: Fn(&str) -> usize,
    S: Fn(&HistoryResponse, &ResponseMeta, ReceiptResourceDecoration) -> Measurement,
>(
    response: HistoryResponse,
    options: ServiceCallOptions,
    count: &C,
    measure: &S,
) -> (r: Result<HistoryResponse, Error>)
    requires
        counts_all(*count),
        settles_all::<HistoryResponse, S>(*measure),
    ensures
        match r {
            Ok(out) => history_answered(
                *count,
                *measure,
                response@,
                options.max_response_tokens,
                out@,
            ),
            Err(e) => history_unanswered(
                *count,
                *measure,
                response@,
                options.max_response_tokens,
                e,
            ),
        },
{
    let ghost view = response@;
    let mut response = response;
    match Services::fit_history_response(&mut response, options, count, measure) {
        Ok(_) => {},
        Err(e) => {
            return Err(e);
        },
    }
    let ghost fitted = response@;
    assert(history_fitted(*count, *measure, view, options.max_response_tokens, fitted));
    match bounded_meta(&response, options.max_response_tokens, measure) {
        Ok(meta) => {
            response.meta = meta;
            assert(response@ == (HistoryView { meta, ..fitted }));
            Ok(response)
        },
        Err(e) => Err(e),
    }
}

impl Services {
    /// Answers a history request: what one revision holds of a symbol, how it
    /// differs between two, or which commits touched it. `max_tokens` is the
    /// ceiling on source tokens and `meta` the metadata of the call, or why there
    /// is none.
    pub fn history_sync<
        B: Fn(&str, &str, &str) -> Result<GitBlob, Error>,
        I: Fn(&str, &str) -> Result<ResolvedRevisions, Error>,
        L: Fn(&str, &str, usize, usize, usize) -> Result<Vec<SymbolHistoryCommit>, Error>,
        K: Fn(
            &str,
            &str,
            &Option<ResolvedHistoricalSymbol>,
            &Option<ResolvedHistoricalSymbol>,
            bool,
        ) -> Option<DiffSymbolChange>,
        C: Fn(&str) -> usize,
        T: Fn(&str, usize) -> (usize, usize),
        S: Fn(&HistoryResponse, &ResponseMeta, ReceiptResourceDecoration) -> Measurement,
    >(
        request: &ParsedHistoryRequest,
        default_results: usize,
        max_tokens: Result<usize, Error>,
        meta: Result<ResponseMeta, Error>,
        ports: &HistoryPorts<B, I, L, K, C, T, S>,
        options: ServiceCallOptions,
        cancellation: &CancellationToken,
    ) -> (r: Result<HistoryResponse, Error>)
        requires
            answers(*ports),
        ensures
            asked_first(r, *cancellation),
            match (max_tokens, meta) {
                (Err(refused), _) => r is Err && (stopped(r->Err_0, *cancellation) || r->Err_0@ == refused@),
                (Ok(_), Err(refused)) => r is Err && (stopped(r->Err_0, *cancellation) || r->Err_0@
                    == refused@),
                (Ok(max_tokens), Ok(meta)) => {
                    let max = options.max_response_tokens;
                    match r {
                        Ok(out) => exists|built: HistoryView|
                            #[trigger] history_built(
                                *ports,
                                request.operation@,
                                results_asked(request.max_results, default_results),
                                max_tokens,
                                meta,
                                Ok(built),
                            ) && history_answered(ports.count, ports.measure, built, max, out@),
                        Err(e) => {
                            ||| stopped(e, *cancellation)
                            ||| history_built(
                                *ports,
                                request.operation@,
                                results_asked(request.max_results, default_results),
                                max_tokens,
                                meta,
                                Err(e@),
                            )
                            ||| exists|built: HistoryView|
                                #[trigger] history_built(
                                    *ports,
                                    request.operation@,
                                    results_asked(request.max_results, default_results),
                                    max_tokens,
                                    meta,
                                    Ok(built),
                                ) && history_unanswered(ports.count, ports.measure, built, max, e)
                        },
                    }
                },
            },
    {
        match check_cancelled(cancellation) {
            Ok(_) => {},
            Err(e) => {
                return Err(e);
            },
        }
        let max_results: usize = match request.max_results {
            Some(asked) => asked,
            None => default_results,
        };
        let max_tokens: usize = match max_tokens {
            Ok(max_tokens) => max_tokens,
            Err(e) => {
                return Err(e);
            },
        };
        let meta = match meta {
            Ok(meta) => meta,
            Err(e) => {
                return Err(e);
            },
        };
        let ghost given = meta;
        assert(max_results == results_asked(request.max_results, default_results));
        let built = match &request.operation {
            ParsedHistoryOperation::ReadSymbol { path, symbol, revision } => read_symbol(
                &ports.blob_at,
                &ports.truncate,
                path.as_str(),
                symbol.as_str(),
                revision.as_str(),
                max_tokens,
                meta,
            ),
            ParsedHistoryOperation::DiffSymbol { path, symbol, base_revision, head_revision } => {
                compare_symbol(
                    ports,
                    path.as_str(),
                    symbol.as_str(),
                    base_revision.as_str(),
                    head_revision.as_str(),
                    max_tokens,
                    meta,
                    cancellation,
                )
            },
            ParsedHistoryOperation::SymbolLog { path, symbol, revision } => list_commits(
                &ports.blob_at,
                &ports.line_history,
                path.as_str(),
                symbol.as_str(),
                revision,
                max_results,
                meta,
                cancellation,
            ),
        };
        assert(or_cancelled(
            built,
            *cancellation,
            history_built(
                *ports,
                request.operation@,
                max_results,
                max_tokens,
                given,
                view_result(built),
            ),
        ));
        match built {
            Ok(response) => {
                assert(history_built(
                    *ports,
                    request.operation@,
                    max_results,
                    max_tokens,
                    given,
                    Ok(response@),
                ));
                bound_history(response, options, &ports.count, &ports.measure)
            },
            Err(e) => {
                assert(stopped(e, *cancellation) || history_built(
                    *ports,
                    request.operation@,
                    max_results,
                    max_tokens,
                    given,
                    Err(e@),
                ));
                Err(e)
            },
        }
    }
}

} // verus!
