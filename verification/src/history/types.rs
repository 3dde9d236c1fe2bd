//! Requests for what revisions hold of symbols, and their answers.

use crate::fitting::Metered;
use crate::model::{ChangeView, DiffSymbolChange, ResponseMeta};
use crate::ordered::views;
use crate::response::optional_view;
use crate::text::{copy_optional_text, optional_text};
use vstd::prelude::*;

verus! {

/// What a history request asks for.
#[derive(Debug)]
pub enum HistoryOperation {
    ReadSymbol { path: String, symbol: String, revision: String },
    DiffSymbol { path: String, symbol: String, base_revision: String, head_revision: String },
    SymbolLog { path: String, symbol: String, revision: Option<String> },
}

/// A request for symbol-aware evidence from immutable revisions.
#[derive(Debug)]
pub struct HistoryRequest {
    pub operation: HistoryOperation,
    pub max_results: Option<usize>,
    pub max_tokens: Option<usize>,
}

/// How a compared symbol fared.
#[derive(Debug, Clone, Copy, PartialEq, Eq, Structural)]
pub enum DiffSymbolsStatus {
    Unchanged,
    Modified,
    Added,
    Removed,
    Renamed,
    NotFound,
    Unavailable,
}

/// Why a difference was cut short.
#[derive(Debug, Clone, Copy, PartialEq, Eq, Structural)]
pub enum DiffSymbolsIncompleteReason {
    MaxDiffBytes,
    MaxTokens,
    MaxResponseTokens,
}

/// A symbol to compare, under its name in both revisions.
#[derive(Debug)]
pub struct DiffSymbolsTarget {
    pub path: String,
    pub symbol: String,
    pub head_path: Option<String>,
    pub head_symbol: Option<String>,
}

/// What a [`DiffSymbolsTarget`] says.
pub struct TargetView {
    pub path: Seq<char>,
    pub symbol: Seq<char>,
    pub head_path: Option<Seq<char>>,
    pub head_symbol: Option<Seq<char>>,
}

impl View for DiffSymbolsTarget {
    type V = TargetView;

    open spec fn view(&self) -> TargetView {
        TargetView {
            path: self.path@,
            symbol: self.symbol@,
            head_path: optional_text(self.head_path),
            head_symbol: optional_text(self.head_symbol),
        }
    }
}

impl DiffSymbolsTarget {
    /// A copy.
    pub fn duplicate(&self) -> (r: DiffSymbolsTarget)
        ensures
            r@ == self@,
    {
        DiffSymbolsTarget {
            path: self.path.clone(),
            symbol: self.symbol.clone(),
            head_path: copy_optional_text(&self.head_path),
            head_symbol: copy_optional_text(&self.head_symbol),
        }
    }
}

/// A request to compare symbols across one range of revisions.
#[derive(Debug)]
pub struct DiffSymbolsRequest {
    pub targets: Vec<DiffSymbolsTarget>,
    pub base_revision: String,
    pub head_revision: String,
    pub max_results: Option<usize>,
    pub max_tokens: Option<usize>,
    pub cursor: Option<String>,
}

/// A symbol as it stands in a revision.
#[derive(Debug)]
pub struct HistoricalSymbol {
    pub revision: String,
    pub path: String,
    pub name: String,
    pub kind: String,
    pub parent: Option<String>,
    pub target_start_line: usize,
    pub target_end_line: usize,
    pub returned_end_line: usize,
    pub truncated: bool,
    pub content: Option<String>,
    pub content_hash: String,
}

/// What a [`HistoricalSymbol`] says.
pub struct HistoricalView {
    pub revision: Seq<char>,
    pub path: Seq<char>,
    pub name: Seq<char>,
    pub kind: Seq<char>,
    pub parent: Option<Seq<char>>,
    pub target_start_line: usize,
    pub target_end_line: usize,
    pub returned_end_line: usize,
    pub truncated: bool,
    pub content: Option<Seq<char>>,
    pub content_hash: Seq<char>,
}

impl View for HistoricalSymbol {
    type V = HistoricalView;

    open spec fn view(&self) -> HistoricalView {
        HistoricalView {
            revision: self.revision@,
            path: self.path@,
            name: self.name@,
            kind: self.kind@,
            parent: optional_text(self.parent),
            target_start_line: self.target_start_line,
            target_end_line: self.target_end_line,
            returned_end_line: self.returned_end_line,
            truncated: self.truncated,
            content: optional_text(self.content),
            content_hash: self.content_hash@,
        }
    }
}

impl HistoricalSymbol {
    /// A copy.
    pub fn duplicate(&self) -> (r: HistoricalSymbol)
        ensures
            r@ == self@,
    {
        HistoricalSymbol {
            revision: self.revision.clone(),
            path: self.path.clone(),
            name: self.name.clone(),
            kind: self.kind.clone(),
            parent: copy_optional_text(&self.parent),
            target_start_line: self.target_start_line,
            target_end_line: self.target_end_line,
            returned_end_line: self.returned_end_line,
            truncated: self.truncated,
            content: copy_optional_text(&self.content),
            content_hash: self.content_hash.clone(),
        }
    }
}

/// A commit that touched a symbol.
#[derive(Debug)]
pub struct SymbolHistoryCommit {
    pub commit: String,
    pub authored_at: String,
    pub subject: String,
}

/// What a [`SymbolHistoryCommit`] says.
pub struct CommitView {
    pub commit: Seq<char>,
    pub authored_at: Seq<char>,
    pub subject: Seq<char>,
}

impl View for SymbolHistoryCommit {
    type V = CommitView;

    open spec fn view(&self) -> CommitView {
        CommitView {
            commit: self.commit@,
            authored_at: self.authored_at@,
            subject: self.subject@,
        }
    }
}

impl SymbolHistoryCommit {
    /// A copy.
    pub fn duplicate(&self) -> (r: SymbolHistoryCommit)
        ensures
            r@ == self@,
    {
        SymbolHistoryCommit {
            commit: self.commit.clone(),
            authored_at: self.authored_at.clone(),
            subject: self.subject.clone(),
        }
    }
}

/// What a commit says of itself.
#[derive(Debug)]
pub struct HistoryRevisionMetadata {
    pub revision: String,
    pub authored_at: String,
    pub subject: String,
}

/// What a [`HistoryRevisionMetadata`] says.
pub struct RevisionView {
    pub revision: Seq<char>,
    pub authored_at: Seq<char>,
    pub subject: Seq<char>,
}

impl View for HistoryRevisionMetadata {
    type V = RevisionView;

    open spec fn view(&self) -> RevisionView {
        RevisionView {
            revision: self.revision@,
            authored_at: self.authored_at@,
            subject: self.subject@,
        }
    }
}

impl HistoryRevisionMetadata {
    /// A copy.
    pub fn duplicate(&self) -> (r: HistoryRevisionMetadata)
        ensures
            r@ == self@,
    {
        HistoryRevisionMetadata {
            revision: self.revision.clone(),
            authored_at: self.authored_at.clone(),
            subject: self.subject.clone(),
        }
    }
}

/// The answer to a history request.
#[derive(Debug)]
pub struct HistoryResponse {
    pub kind: String,
    pub symbol: Option<HistoricalSymbol>,
    pub before: Option<HistoricalSymbol>,
    pub after: Option<HistoricalSymbol>,
    pub diff: Option<String>,
    pub diff_truncated: bool,
    pub semantic_change: Option<DiffSymbolChange>,
    pub commits: Vec<SymbolHistoryCommit>,
    pub result_complete: bool,
    pub meta: ResponseMeta,
}

impl Metered for HistoryResponse {
    open spec fn held_meta(&self) -> ResponseMeta {
        self.meta
    }

    fn meta_ref(&self) -> (r: &ResponseMeta) {
        &self.meta
    }
}

/// What a [`HistoryResponse`] says.
pub struct HistoryView {
    pub kind: Seq<char>,
    pub symbol: Option<HistoricalView>,
    pub before: Option<HistoricalView>,
    pub after: Option<HistoricalView>,
    pub diff: Option<Seq<char>>,
    pub diff_truncated: bool,
    pub semantic_change: Option<ChangeView>,
    pub commits: Seq<CommitView>,
    pub result_complete: bool,
    pub meta: ResponseMeta,
}

impl View for HistoryResponse {
    type V = HistoryView;

    open spec fn view(&self) -> HistoryView {
        HistoryView {
            kind: self.kind@,
            symbol: optional_view(self.symbol),
            before: optional_view(self.before),
            after: optional_view(self.after),
            diff: optional_text(self.diff),
            diff_truncated: self.diff_truncated,
            semantic_change: optional_view(self.semantic_change),
            commits: views(self.commits@),
            result_complete: self.result_complete,
            meta: self.meta,
        }
    }
}

impl HistoryResponse {
    /// A copy.
    pub fn duplicate(&self) -> (r: HistoryResponse)
        ensures
            r@ == self@,
    {
        HistoryResponse {
            kind: self.kind.clone(),
            symbol: match &self.symbol {
                Some(value) => Some(value.duplicate()),
                None => None,
            },
            before: match &self.before {
                Some(value) => Some(value.duplicate()),
                None => None,
            },
            after: match &self.after {
                Some(value) => Some(value.duplicate()),
                None => None,
            },
            diff: copy_optional_text(&self.diff),
            diff_truncated: self.diff_truncated,
            semantic_change: match &self.semantic_change {
                Some(value) => Some(value.duplicate()),
                None => None,
            },
            commits: copy_symbol_history_commits(&self.commits),
            result_complete: self.result_complete,
            meta: self.meta.duplicate(),
        }
    }
}

/// What was found of one compared symbol.
#[derive(Debug)]
pub struct DiffSymbolsResult {
    pub request_index: usize,
    pub target: DiffSymbolsTarget,
    pub status: DiffSymbolsStatus,
    pub before: Option<HistoricalSymbol>,
    pub after: Option<HistoricalSymbol>,
    pub diff: Option<String>,
    pub diff_truncated: bool,
    pub semantic_change: Option<DiffSymbolChange>,
    pub reason: Option<String>,
    pub incomplete_reason: Option<DiffSymbolsIncompleteReason>,
}

/// What a [`DiffSymbolsResult`] says.
pub struct ResultView {
    pub request_index: usize,
    pub target: TargetView,
    pub status: DiffSymbolsStatus,
    pub before: Option<HistoricalView>,
    pub after: Option<HistoricalView>,
    pub diff: Option<Seq<char>>,
    pub diff_truncated: bool,
    pub semantic_change: Option<ChangeView>,
    pub reason: Option<Seq<char>>,
    pub incomplete_reason: Option<DiffSymbolsIncompleteReason>,
}

impl View for DiffSymbolsResult {
    type V = ResultView;

    open spec fn view(&self) -> ResultView {
        ResultView {
            request_index: self.request_index,
            target: self.target@,
            status: self.status,
            before: optional_view(self.before),
            after: optional_view(self.after),
            diff: optional_text(self.diff),
            diff_truncated: self.diff_truncated,
            semantic_change: optional_view(self.semantic_change),
            reason: optional_text(self.reason),
            incomplete_reason: self.incomplete_reason,
        }
    }
}

impl DiffSymbolsResult {
    /// A copy.
    pub fn duplicate(&self) -> (r: DiffSymbolsResult)
        ensures
            r@ == self@,
    {
        DiffSymbolsResult {
            request_index: self.request_index,
            target: self.target.duplicate(),
            status: self.status,
            before: match &self.before {
                Some(value) => Some(value.duplicate()),
                None => None,
            },
            after: match &self.after {
                Some(value) => Some(value.duplicate()),
                None => None,
            },
            diff: copy_optional_text(&self.diff),
            diff_truncated: self.diff_truncated,
            semantic_change: match &self.semantic_change {
                Some(value) => Some(value.duplicate()),
                None => None,
            },
            reason: copy_optional_text(&self.reason),
            incomplete_reason: self.incomplete_reason,
        }
    }
}

/// What a comparison cost.
#[derive(Debug, Clone, Copy, PartialEq, Eq, Structural)]
pub struct DiffSymbolsDiagnostics {
    pub git_subprocesses: usize,
    pub base_paths_requested: usize,
    pub head_paths_requested: usize,
    pub base_blob_bytes: usize,
    pub head_blob_bytes: usize,
    pub parsed_symbols: usize,
    pub retained_diff_bytes: usize,
}

/// The answer to a comparison of symbols.
#[derive(Debug)]
pub struct DiffSymbolsResponse {
    pub kind: String,
    pub base: HistoryRevisionMetadata,
    pub head: HistoryRevisionMetadata,
    pub results: Vec<DiffSymbolsResult>,
    pub result_complete: bool,
    pub diagnostics: DiffSymbolsDiagnostics,
    pub meta: ResponseMeta,
}

impl Metered for DiffSymbolsResponse {
    open spec fn held_meta(&self) -> ResponseMeta {
        self.meta
    }

    fn meta_ref(&self) -> (r: &ResponseMeta) {
        &self.meta
    }
}

/// What a [`DiffSymbolsResponse`] says.
pub struct DiffSymbolsView {
    pub kind: Seq<char>,
    pub base: RevisionView,
    pub head: RevisionView,
    pub results: Seq<ResultView>,
    pub result_complete: bool,
    pub diagnostics: DiffSymbolsDiagnostics,
    pub meta: ResponseMeta,
}

impl View for DiffSymbolsResponse {
    type V = DiffSymbolsView;

    open spec fn view(&self) -> DiffSymbolsView {
        DiffSymbolsView {
            kind: self.kind@,
            base: self.base@,
            head: self.head@,
            results: views(self.results@),
            result_complete: self.result_complete,
            diagnostics: self.diagnostics,
            meta: self.meta,
        }
    }
}

impl DiffSymbolsResponse {
    /// A copy.
    pub fn duplicate(&self) -> (r: DiffSymbolsResponse)
        ensures
            r@ == self@,
    {
        DiffSymbolsResponse {
            kind: self.kind.clone(),
            base: self.base.duplicate(),
            head: self.head.duplicate(),
            results: copy_diff_symbols_results(&self.results),
            result_complete: self.result_complete,
            diagnostics: self.diagnostics,
            meta: self.meta.duplicate(),
        }
    }
}

/// A copy of a list.
pub fn copy_symbol_history_commits(list: &Vec<SymbolHistoryCommit>) -> (r: Vec<SymbolHistoryCommit>)
    ensures
        views(r@) == views(list@),
{
    let mut out: Vec<SymbolHistoryCommit> = Vec::new();
    let mut i: usize = 0;
    while i < list.len()
        invariant
            i <= list.len(),
            views(out@) == views(list@).take(i as int),
        decreases list.len() - i,
    {
        let ghost before = views(out@);
        let copy = list[i].duplicate();
        let ghost added = copy@;
        out.push(copy);
        assert(views(out@) =~= before.push(added));
        assert(views(out@) =~= views(list@).take(i + 1));
        i += 1;
    }
    assert(views(out@) =~= views(list@));
    out
}

/// A copy of a list.
pub fn copy_diff_symbols_results(list: &Vec<DiffSymbolsResult>) -> (r: Vec<DiffSymbolsResult>)
    ensures
        views(r@) == views(list@),
{
    let mut out: Vec<DiffSymbolsResult> = Vec::new();
    let mut i: usize = 0;
    while i < list.len()
        invariant
            i <= list.len(),
            views(out@) == views(list@).take(i as int),
        decreases list.len() - i,
    {
        let ghost before = views(out@);
        let copy = list[i].duplicate();
        let ghost added = copy@;
        out.push(copy);
        assert(views(out@) =~= before.push(added));
        assert(views(out@) =~= views(list@).take(i + 1));
        i += 1;
    }
    assert(views(out@) =~= views(list@));
    out
}

} // verus!
