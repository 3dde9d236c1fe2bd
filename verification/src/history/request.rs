//! Reading history requests into values that later steps can rely on.

use crate::cursor::{carries, ContinuationCursor, EnvelopeView, ENCODED_CURSOR_BYTES};
use crate::error::{Error, Fault};
use crate::history::types::{
    DiffSymbolsRequest, DiffSymbolsTarget, HistoryOperation, HistoryRequest, TargetView,
};
use crate::ordered::views;
use crate::text::{
    byte_len, distinct, distinct_texts, optional_text, same_text, texts, trim_text, trimmed,
};
use crate::validation::{
    blank, is_blank, outside_limit, too_long, validate_input, validate_positive_request_limit,
    InputLimits,
};
use vstd::prelude::*;

verus! {

/// The most symbols that one request compares.
pub const MAX_DIFF_SYMBOL_TARGETS: usize = 64;

/// The most results of one page of a comparison.
pub const MAX_DIFF_SYMBOL_RESULTS: usize = 32;

/// The most paths of one revision that a comparison reads.
pub const MAX_DIFF_SYMBOL_PATHS_PER_ENDPOINT: usize = 32;

/// What a read history request asks for.
#[derive(Debug)]
pub enum ParsedHistoryOperation {
    ReadSymbol { path: String, symbol: String, revision: String },
    DiffSymbol { path: String, symbol: String, base_revision: String, head_revision: String },
    SymbolLog { path: String, symbol: String, revision: Option<String> },
}

/// What a [`ParsedHistoryOperation`] says.
pub enum OperationView {
    ReadSymbol { path: Seq<char>, symbol: Seq<char>, revision: Seq<char> },
    DiffSymbol {
        path: Seq<char>,
        symbol: Seq<char>,
        base_revision: Seq<char>,
        head_revision: Seq<char>,
    },
    SymbolLog { path: Seq<char>, symbol: Seq<char>, revision: Option<Seq<char>> },
}

impl View for ParsedHistoryOperation {
    type V = OperationView;

    open spec fn view(&self) -> OperationView {
        match self {
            ParsedHistoryOperation::ReadSymbol { path, symbol, revision } => {
                OperationView::ReadSymbol { path: path@, symbol: symbol@, revision: revision@ }
            },
            ParsedHistoryOperation::DiffSymbol { path, symbol, base_revision, head_revision } => {
                OperationView::DiffSymbol {
                    path: path@,
                    symbol: symbol@,
                    base_revision: base_revision@,
                    head_revision: head_revision@,
                }
            },
            ParsedHistoryOperation::SymbolLog { path, symbol, revision } => {
                OperationView::SymbolLog {
                    path: path@,
                    symbol: symbol@,
                    revision: optional_text(*revision),
                }
            },
        }
    }
}

/// A history request that was read.
#[derive(Debug)]
pub struct ParsedHistoryRequest {
    pub operation: ParsedHistoryOperation,
    pub max_results: Option<usize>,
    pub max_tokens: Option<usize>,
}

/// A symbol at one end of a comparison.
#[derive(Debug)]
pub struct HistoricalSymbolTarget {
    pub path: String,
    pub symbol: String,
}

/// What a [`HistoricalSymbolTarget`] says.
pub struct EndView {
    pub path: Seq<char>,
    pub symbol: Seq<char>,
}

impl View for HistoricalSymbolTarget {
    type V = EndView;

    open spec fn view(&self) -> EndView {
        EndView { path: self.path@, symbol: self.symbol@ }
    }
}

impl HistoricalSymbolTarget {
    /// Whether two ends name the same symbol of the same file.
    pub fn same(&self, other: &HistoricalSymbolTarget) -> (r: bool)
        ensures
            r == (self@ == other@),
    {
        same_text(self.path.as_str(), other.path.as_str()) && same_text(
            self.symbol.as_str(),
            other.symbol.as_str(),
        )
    }
}

/// Where a compared symbol stands in the later revision.
#[derive(Debug)]
pub enum HistoricalHeadTarget {
    SameAsBase,
    Override(HistoricalSymbolTarget),
}

/// A symbol to compare.
#[derive(Debug)]
pub struct ParsedDiffSymbolsTarget {
    pub base: HistoricalSymbolTarget,
    pub head: HistoricalHeadTarget,
}

/// What a [`ParsedDiffSymbolsTarget`] says: the later end where it was given.
pub struct PairView {
    pub base: EndView,
    pub given: Option<EndView>,
}

impl PairView {
    /// The symbol in the later revision.
    pub open spec fn head(self) -> EndView {
        match self.given {
            Some(end) => end,
            None => self.base,
        }
    }

    /// Whether the symbol has another name or stands in another file.
    pub open spec fn renamed(self) -> bool {
        self.base != self.head()
    }

    /// The target as a response repeats it.
    pub open spec fn response_target(self) -> TargetView {
        TargetView {
            path: self.base.path,
            symbol: self.base.symbol,
            head_path: match self.given {
                Some(end) => Some(end.path),
                None => None,
            },
            head_symbol: match self.given {
                Some(end) => Some(end.symbol),
                None => None,
            },
        }
    }
}

impl View for ParsedDiffSymbolsTarget {
    type V = PairView;

    open spec fn view(&self) -> PairView {
        PairView {
            base: self.base@,
            given: match self.head {
                HistoricalHeadTarget::SameAsBase => None,
                HistoricalHeadTarget::Override(end) => Some(end@),
            },
        }
    }
}

impl ParsedDiffSymbolsTarget {
    /// The symbol in the later revision.
    pub fn head(&self) -> (r: &HistoricalSymbolTarget)
        ensures
            r@ == self@.head(),
    {
        match &self.head {
            HistoricalHeadTarget::SameAsBase => &self.base,
            HistoricalHeadTarget::Override(target) => target,
        }
    }

    /// Whether the symbol has another name or stands in another file.
    pub fn identity_changed(&self) -> (r: bool)
        ensures
            r == self@.renamed(),
    {
        !self.base.same(self.head())
    }

    /// The target as a response repeats it.
    pub fn response_target(&self) -> (r: DiffSymbolsTarget)
        ensures
            r@ == self@.response_target(),
    {
        let (head_path, head_symbol) = match &self.head {
            HistoricalHeadTarget::SameAsBase => (None, None),
            HistoricalHeadTarget::Override(target) => {
                (Some(target.path.clone()), Some(target.symbol.clone()))
            },
        };
        DiffSymbolsTarget {
            path: self.base.path.clone(),
            symbol: self.base.symbol.clone(),
            head_path,
            head_symbol,
        }
    }
}

/// A comparison that was read.
#[derive(Debug)]
pub struct ParsedDiffSymbolsRequest {
    pub targets: Vec<ParsedDiffSymbolsTarget>,
    pub base_revision: String,
    pub head_revision: String,
    pub max_results: Option<usize>,
    pub max_tokens: Option<usize>,
    pub cursor: Option<ContinuationCursor>,
}

/// A result, its error as what it says.
pub open spec fn text_result(r: Result<String, Error>) -> Result<Seq<char>, Fault> {
    match r {
        Ok(text) => Ok(text@),
        Err(e) => Err(e@),
    }
}

/// Whether `outcome` may come of reading a path.
pub open spec fn path_reads<N: Fn(&str) -> Result<String, Error>>(
    normalize: N,
    value: Seq<char>,
    field: Seq<char>,
    max_bytes: usize,
    outcome: Result<Seq<char>, Fault>,
) -> bool {
    match too_long(value, field, max_bytes) {
        Some(fault) => outcome == Err::<Seq<char>, Fault>(fault),
        None => exists|text: &str, said: Result<String, Error>|
            {
                &&& #[trigger] call_ensures(normalize, (text,), said)
                &&& text@ == value
                &&& outcome == text_result(said)
            },
    }
}

/// What comes of reading a text that may not be empty.
pub open spec fn text_reads(value: Seq<char>, field: Seq<char>, max_bytes: usize) -> Result<
    Seq<char>,
    Fault,
> {
    match too_long(value, field, max_bytes) {
        Some(fault) => Err(fault),
        None => if is_blank(value) {
            Err(Fault::InvalidInput { field, reason: "must not be empty"@ })
        } else {
            Ok(trimmed(value))
        },
    }
}

/// What comes of reading a text that may be missing.
pub open spec fn optional_reads(
    value: Option<Seq<char>>,
    field: Seq<char>,
    max_bytes: usize,
) -> Result<Option<Seq<char>>, Fault> {
    match value {
        None => Ok(None),
        Some(text) => match text_reads(text, field, max_bytes) {
            Ok(read) => Ok(Some(read)),
            Err(fault) => Err(fault),
        },
    }
}

/// The path of an operation.
pub open spec fn operation_path(operation: HistoryOperation) -> Seq<char> {
    match operation {
        HistoryOperation::ReadSymbol { path, .. } => path@,
        HistoryOperation::DiffSymbol { path, .. } => path@,
        HistoryOperation::SymbolLog { path, .. } => path@,
    }
}

/// What comes of reading an operation, after its path.
pub open spec fn operation_reads(
    operation: HistoryOperation,
    path: Result<Seq<char>, Fault>,
    max_bytes: usize,
) -> Result<OperationView, Fault> {
    match path {
        Err(fault) => Err(fault),
        Ok(path) => match operation {
            HistoryOperation::ReadSymbol { symbol, revision, .. } => {
                match text_reads(symbol@, "symbol"@, max_bytes) {
                    Err(fault) => Err(fault),
                    Ok(symbol) => match text_reads(revision@, "revision"@, max_bytes) {
                        Err(fault) => Err(fault),
                        Ok(revision) => Ok(OperationView::ReadSymbol { path, symbol, revision }),
                    },
                }
            },
            HistoryOperation::SymbolLog { symbol, revision, .. } => {
                match text_reads(symbol@, "symbol"@, max_bytes) {
                    Err(fault) => Err(fault),
                    Ok(symbol) => match optional_reads(
                        optional_text(revision),
                        "revision"@,
                        max_bytes,
                    ) {
                        Err(fault) => Err(fault),
                        Ok(revision) => Ok(OperationView::SymbolLog { path, symbol, revision }),
                    },
                }
            },
            HistoryOperation::DiffSymbol { symbol, base_revision, head_revision, .. } => {
                match text_reads(symbol@, "symbol"@, max_bytes) {
                    Err(fault) => Err(fault),
                    Ok(symbol) => match text_reads(base_revision@, "base revision"@, max_bytes) {
                        Err(fault) => Err(fault),
                        Ok(base) => match text_reads(head_revision@, "head revision"@, max_bytes) {
                            Err(fault) => Err(fault),
                            Ok(head) => Ok(
                                OperationView::DiffSymbol {
                                    path,
                                    symbol,
                                    base_revision: base,
                                    head_revision: head,
                                },
                            ),
                        },
                    },
                }
            },
        },
    }
}

/// Whether a result is a read request, or why it was refused.
pub open spec fn is_read(
    r: Result<ParsedHistoryRequest, Error>,
    request: HistoryRequest,
    outcome: Result<OperationView, Fault>,
) -> bool {
    match (r, outcome) {
        (Ok(parsed), Ok(operation)) => {
            &&& parsed.operation@ == operation
            &&& parsed.max_results == request.max_results
            &&& parsed.max_tokens == request.max_tokens
        },
        (Err(e), Err(fault)) => e@ == fault,
        _ => false,
    }
}

/// The fault of a number of results.
pub open spec fn results_fault(max_results: Option<usize>, limit: usize) -> Option<Fault> {
    match max_results {
        Some(requested) => outside_limit("max_results"@, requested, limit),
        None => None,
    }
}

/// Whether every path can be normalized.
pub open spec fn normalizes<N: Fn(&str) -> Result<String, Error>>(normalize: N) -> bool {
    forall|text: &str| call_requires(normalize, (text,))
}

fn parse_path<N: Fn(&str) -> Result<String, Error>>(
    value: &str,
    field: &'static str,
    max_bytes: usize,
    normalize: &N,
) -> (r: Result<String, Error>)
    requires
        normalizes(*normalize),
    ensures
        path_reads(*normalize, value@, field@, max_bytes, text_result(r)),
{
    match validate_input(value, field, max_bytes) {
        Ok(_) => {},
        Err(e) => {
            return Err(e);
        },
    }
    normalize(value)
}

fn parse_non_empty(value: &str, field: &'static str, max_bytes: usize) -> (r: Result<String, Error>)
    ensures
        text_result(r) == text_reads(value@, field@, max_bytes),
{
    match validate_input(value, field, max_bytes) {
        Ok(_) => {},
        Err(e) => {
            return Err(e);
        },
    }
    if blank(value) {
        return Err(Error::InvalidInput { field, reason: "must not be empty" });
    }
    Ok(trim_text(value))
}

/// A result, as what it says.
pub open spec fn operation_result(r: Result<ParsedHistoryOperation, Error>) -> Result<
    OperationView,
    Fault,
> {
    match r {
        Ok(operation) => Ok(operation@),
        Err(e) => Err(e@),
    }
}

fn parse_read(path: String, symbol: &str, revision: &str, max_bytes: usize) -> (r: Result<
    ParsedHistoryOperation,
    Error,
>)
    ensures
        operation_result(r) == match text_reads(symbol@, "symbol"@, max_bytes) {
            Err(fault) => Err(fault),
            Ok(symbol) => match text_reads(revision@, "revision"@, max_bytes) {
                Err(fault) => Err(fault),
                Ok(revision) => Ok(OperationView::ReadSymbol { path: path@, symbol, revision }),
            },
        },
{
    let symbol = match parse_non_empty(symbol, "symbol", max_bytes) {
        Ok(text) => text,
        Err(e) => {
            return Err(e);
        },
    };
    match parse_non_empty(revision, "revision", max_bytes) {
        Ok(revision) => Ok(ParsedHistoryOperation::ReadSymbol { path, symbol, revision }),
        Err(e) => Err(e),
    }
}

fn parse_log(path: String, symbol: &str, revision: &Option<String>, max_bytes: usize) -> (r: Result<
    ParsedHistoryOperation,
    Error,
>)
    ensures
        operation_result(r) == match text_reads(symbol@, "symbol"@, max_bytes) {
            Err(fault) => Err(fault),
            Ok(symbol) => match optional_reads(optional_text(*revision), "revision"@, max_bytes) {
                Err(fault) => Err(fault),
                Ok(revision) => Ok(OperationView::SymbolLog { path: path@, symbol, revision }),
            },
        },
{
    let symbol = match parse_non_empty(symbol, "symbol", max_bytes) {
        Ok(text) => text,
        Err(e) => {
            return Err(e);
        },
    };
    match revision {
        None => Ok(ParsedHistoryOperation::SymbolLog { path, symbol, revision: None }),
        Some(text) => match parse_non_empty(text.as_str(), "revision", max_bytes) {
            Ok(read) => Ok(
                ParsedHistoryOperation::SymbolLog { path, symbol, revision: Some(read) },
            ),
            Err(e) => Err(e),
        },
    }
}

fn parse_diff(path: String, symbol: &str, base: &str, head: &str, max_bytes: usize) -> (r: Result<
    ParsedHistoryOperation,
    Error,
>)
    ensures
        operation_result(r) == match text_reads(symbol@, "symbol"@, max_bytes) {
            Err(fault) => Err(fault),
            Ok(symbol) => match text_reads(base@, "base revision"@, max_bytes) {
                Err(fault) => Err(fault),
                Ok(base) => match text_reads(head@, "head revision"@, max_bytes) {
                    Err(fault) => Err(fault),
                    Ok(head) => Ok(
                        OperationView::DiffSymbol {
                            path: path@,
                            symbol,
                            base_revision: base,
                            head_revision: head,
                        },
                    ),
                },
            },
        },
{
    let symbol = match parse_non_empty(symbol, "symbol", max_bytes) {
        Ok(text) => text,
        Err(e) => {
            return Err(e);
        },
    };
    let base_revision = match parse_non_empty(base, "base revision", max_bytes) {
        Ok(text) => text,
        Err(e) => {
            return Err(e);
        },
    };
    match parse_non_empty(head, "head revision", max_bytes) {
        Ok(head_revision) => Ok(
            ParsedHistoryOperation::DiffSymbol { path, symbol, base_revision, head_revision },
        ),
        Err(e) => Err(e),
    }
}

/// Reads a history request: the raw texts are bounded before they are trimmed,
/// and `normalize` says how a path is written in full.
pub fn parse_history_request<N: Fn(&str) -> Result<String, Error>>(
    request: HistoryRequest,
    max_results_limit: usize,
    limits: InputLimits,
    normalize: &N,
) -> (r: Result<ParsedHistoryRequest, Error>)
    requires
        normalizes(*normalize),
    ensures
        match results_fault(request.max_results, max_results_limit) {
            Some(fault) => is_read(r, request, Err(fault)),
            None => exists|path: Result<Seq<char>, Fault>|
                {
                    &&& #[trigger] path_reads(
                        *normalize,
                        operation_path(request.operation),
                        "path"@,
                        limits.max_path_bytes,
                        path,
                    )
                    &&& is_read(
                        r,
                        request,
                        operation_reads(request.operation, path, limits.max_pattern_bytes),
                    )
                },
        },
{
    if let Some(max_results) = request.max_results {
        match validate_positive_request_limit("max_results", max_results, max_results_limit) {
            Ok(_) => {},
            Err(e) => {
                return Err(e);
            },
        }
    }
    let raw = match &request.operation {
        HistoryOperation::ReadSymbol { path, .. } => path,
        HistoryOperation::DiffSymbol { path, .. } => path,
        HistoryOperation::SymbolLog { path, .. } => path,
    };
    let read = parse_path(raw.as_str(), "path", limits.max_path_bytes, normalize);
    let ghost outcome = text_result(read);
    assert(path_reads(
        *normalize,
        operation_path(request.operation),
        "path"@,
        limits.max_path_bytes,
        outcome,
    ));
    let path = match read {
        Ok(path) => path,
        Err(e) => {
            return Err(e);
        },
    };
    let max_bytes: usize = limits.max_pattern_bytes;
    let read = match &request.operation {
        HistoryOperation::ReadSymbol { symbol, revision, .. } => parse_read(
            path,
            symbol.as_str(),
            revision.as_str(),
            max_bytes,
        ),
        HistoryOperation::SymbolLog { symbol, revision, .. } => parse_log(
            path,
            symbol.as_str(),
            revision,
            max_bytes,
        ),
        HistoryOperation::DiffSymbol { symbol, base_revision, head_revision, .. } => parse_diff(
            path,
            symbol.as_str(),
            base_revision.as_str(),
            head_revision.as_str(),
            max_bytes,
        ),
    };
    assert(operation_result(read) == operation_reads(request.operation, outcome, max_bytes));
    match read {
        Ok(operation) => Ok(
            ParsedHistoryRequest {
                operation,
                max_results: request.max_results,
                max_tokens: request.max_tokens,
            },
        ),
        Err(e) => Err(e),
    }
}

/// What came of reading the paths of a target.
pub struct PathReads {
    pub base: Result<Seq<char>, Fault>,
    pub head: Result<Seq<char>, Fault>,
}

/// Whether a target is in order up to a later end that it gives in full.
pub open spec fn reaches_head(
    target: TargetView,
    base: Result<Seq<char>, Fault>,
    max_bytes: usize,
) -> bool {
    &&& base is Ok
    &&& text_reads(target.symbol, "symbol"@, max_bytes) is Ok
    &&& target.head_path is Some
    &&& target.head_symbol is Some
}

/// Whether `paths` may come of reading the paths of a target.
pub open spec fn paths_read<N: Fn(&str) -> Result<String, Error>>(
    normalize: N,
    target: TargetView,
    limits: InputLimits,
    paths: PathReads,
) -> bool {
    &&& path_reads(normalize, target.path, "path"@, limits.max_path_bytes, paths.base)
    &&& reaches_head(target, paths.base, limits.max_pattern_bytes) ==> path_reads(
        normalize,
        target.head_path->0,
        "head path"@,
        limits.max_path_bytes,
        paths.head,
    )
}

/// What comes of reading a target, after its paths.
pub open spec fn target_reads(target: TargetView, paths: PathReads, max_bytes: usize) -> Result<
    PairView,
    Fault,
> {
    match (paths.base, text_reads(target.symbol, "symbol"@, max_bytes)) {
        (Err(fault), _) => Err(fault),
        (Ok(_), Err(fault)) => Err(fault),
        (Ok(path), Ok(symbol)) => match (target.head_path, target.head_symbol) {
            (None, None) => Ok(PairView { base: EndView { path, symbol }, given: None }),
            (Some(_), Some(head_symbol)) => {
                match (paths.head, text_reads(head_symbol, "head symbol"@, max_bytes)) {
                    (Err(fault), _) => Err(fault),
                    (Ok(_), Err(fault)) => Err(fault),
                    (Ok(head_path), Ok(head_symbol)) => Ok(
                        PairView {
                            base: EndView { path, symbol },
                            given: Some(EndView { path: head_path, symbol: head_symbol }),
                        },
                    ),
                }
            },
            _ => Err(
                Fault::InvalidInput {
                    field: "targets"@,
                    reason: "head_path and head_symbol must be supplied together"@,
                },
            ),
        },
    }
}

/// Whether two targets compare the same symbols.
pub open spec fn same_pairing(a: PairView, b: PairView) -> bool {
    a.base == b.base && a.head() == b.head()
}

/// Whether a list already compares the symbols of a target.
pub open spec fn pairing_known(list: Seq<PairView>, pair: PairView) -> bool {
    exists|i: int| 0 <= i < list.len() && same_pairing(#[trigger] list[i], pair)
}

/// What comes of reading the first `upto` targets.
pub open spec fn targets_read(
    targets: Seq<TargetView>,
    paths: Seq<PathReads>,
    max_bytes: usize,
    upto: int,
) -> Result<Seq<PairView>, Fault>
    decreases upto,
{
    if upto <= 0 || upto > targets.len() {
        Ok(Seq::empty())
    } else {
        match targets_read(targets, paths, max_bytes, upto - 1) {
            Err(fault) => Err(fault),
            Ok(list) => match target_reads(targets[upto - 1], paths[upto - 1], max_bytes) {
                Err(fault) => Err(fault),
                Ok(pair) => if pairing_known(list, pair) {
                    Err(
                        Fault::InvalidInput {
                            field: "targets"@,
                            reason: "must not contain duplicate symbol pairings"@,
                        },
                    )
                } else {
                    Ok(list.push(pair))
                },
            },
        }
    }
}

proof fn a_refused_target_refuses_all(
    targets: Seq<TargetView>,
    paths: Seq<PathReads>,
    max_bytes: usize,
    from: int,
    upto: int,
)
    requires
        0 <= from <= upto <= targets.len(),
        targets_read(targets, paths, max_bytes, from) is Err,
    ensures
        targets_read(targets, paths, max_bytes, upto) == targets_read(
            targets,
            paths,
            max_bytes,
            from,
        ),
    decreases upto,
{
    if upto > from {
        a_refused_target_refuses_all(targets, paths, max_bytes, from, upto - 1);
    }
}

proof fn targets_read_prefix(
    targets: Seq<TargetView>,
    paths: Seq<PathReads>,
    more: Seq<PathReads>,
    max_bytes: usize,
    upto: int,
)
    requires
        0 <= upto <= targets.len(),
        upto <= paths.len() <= more.len(),
        forall|i: int| 0 <= i < upto ==> more[i] == #[trigger] paths[i],
    ensures
        targets_read(targets, more, max_bytes, upto) == targets_read(
            targets,
            paths,
            max_bytes,
            upto,
        ),
    decreases upto,
{
    if upto > 0 {
        targets_read_prefix(targets, paths, more, max_bytes, upto - 1);
        assert(more[upto - 1] == paths[upto - 1]);
    }
}

/// No two targets of a read comparison compare the same symbols.
pub proof fn read_targets_are_distinct(
    targets: Seq<TargetView>,
    paths: Seq<PathReads>,
    max_bytes: usize,
    upto: int,
)
    requires
        0 <= upto <= targets.len(),
        targets_read(targets, paths, max_bytes, upto) is Ok,
    ensures
        targets_read(targets, paths, max_bytes, upto)->Ok_0.len() == upto,
        forall|i: int, j: int|
            0 <= i < j < upto ==> !same_pairing(
                #[trigger] targets_read(targets, paths, max_bytes, upto)->Ok_0[i],
                #[trigger] targets_read(targets, paths, max_bytes, upto)->Ok_0[j],
            ),
    decreases upto,
{
    if upto > 0 {
        read_targets_are_distinct(targets, paths, max_bytes, upto - 1);
        let list = targets_read(targets, paths, max_bytes, upto - 1)->Ok_0;
        let pair = target_reads(targets[upto - 1], paths[upto - 1], max_bytes)->Ok_0;
        assert(targets_read(targets, paths, max_bytes, upto)->Ok_0 == list.push(pair));
        assert forall|i: int, j: int| 0 <= i < j < upto implies !same_pairing(
            #[trigger] list.push(pair)[i],
            #[trigger] list.push(pair)[j],
        ) by {
            if j == upto - 1 {
                assert(same_pairing(list[i], pair) ==> pairing_known(list, pair));
            } else {
                assert(!same_pairing(list[i], list[j]));
            }
        }
    }
}

/// The paths of the earlier revision.
pub open spec fn base_paths(list: Seq<PairView>) -> Seq<Seq<char>> {
    Seq::new(list.len(), |i: int| list[i].base.path)
}

/// The paths of the later revision.
pub open spec fn head_paths(list: Seq<PairView>) -> Seq<Seq<char>> {
    Seq::new(list.len(), |i: int| list[i].head().path)
}

/// The fault of too many different paths.
pub open spec fn paths_fault(paths: Seq<Seq<char>>, field: Seq<char>) -> Option<Fault> {
    if distinct(paths).len() > MAX_DIFF_SYMBOL_PATHS_PER_ENDPOINT {
        Some(
            Fault::RequestLimitExceeded {
                field,
                requested: distinct(paths).len() as usize,
                limit: MAX_DIFF_SYMBOL_PATHS_PER_ENDPOINT,
            },
        )
    } else {
        None
    }
}

/// Whether `outcome` may come of reading a cursor.
pub open spec fn cursor_reads(
    encoded: Option<Seq<char>>,
    outcome: Result<Option<ContinuationCursor>, Fault>,
) -> bool {
    match (encoded, outcome) {
        (None, Ok(cursor)) => cursor is None,
        (Some(text), Ok(Some(cursor))) => byte_len(text) == ENCODED_CURSOR_BYTES && carries(
            text,
            cursor@,
        ),
        (Some(text), Err(fault)) => fault is StaleCursor && (byte_len(text) == ENCODED_CURSOR_BYTES
            ==> forall|content: EnvelopeView|
            content.payload.len() == 8 ==> !carries(text, content)),
        _ => false,
    }
}

/// A result, its error as what it says.
pub open spec fn cursor_result(r: Result<Option<ContinuationCursor>, Error>) -> Result<
    Option<ContinuationCursor>,
    Fault,
> {
    match r {
        Ok(cursor) => Ok(cursor),
        Err(e) => Err(e@),
    }
}

/// The most results of a page, by the limit of a deployment.
pub open spec fn page_limit(limit: usize) -> usize {
    if limit < MAX_DIFF_SYMBOL_RESULTS {
        limit
    } else {
        MAX_DIFF_SYMBOL_RESULTS
    }
}

/// Whether a result is a read comparison with these parts.
pub open spec fn is_read_comparison(
    r: Result<ParsedDiffSymbolsRequest, Error>,
    request: DiffSymbolsRequest,
    cursor: Option<ContinuationCursor>,
    base_revision: Seq<char>,
    head_revision: Seq<char>,
    targets: Result<Seq<PairView>, Fault>,
) -> bool {
    match (r, targets) {
        (Err(e), Err(fault)) => e@ == fault,
        (Err(e), Ok(list)) => Some(e@) == crate::error::first_fault(
            paths_fault(base_paths(list), "base paths"@),
            paths_fault(head_paths(list), "head paths"@),
        ),
        (Ok(parsed), Ok(list)) => {
            &&& paths_fault(base_paths(list), "base paths"@) is None
            &&& paths_fault(head_paths(list), "head paths"@) is None
            &&& views(parsed.targets@) == list
            &&& parsed.base_revision@ == base_revision
            &&& parsed.head_revision@ == head_revision
            &&& parsed.max_results == request.max_results
            &&& parsed.max_tokens == request.max_tokens
            &&& parsed.cursor == cursor
        },
        (Ok(_), Err(_)) => false,
    }
}

/// Whether `paths` may come of reading the paths of the first targets.
pub open spec fn all_paths_read<N: Fn(&str) -> Result<String, Error>>(
    normalize: N,
    targets: Seq<TargetView>,
    limits: InputLimits,
    paths: Seq<PathReads>,
) -> bool {
    &&& paths.len() <= targets.len()
    &&& forall|i: int|
        0 <= i < paths.len() ==> #[trigger] paths_read(normalize, targets[i], limits, paths[i])
}

/// Whether the targets whose paths were read are all of them, or one of these refuses
/// the comparison.
pub open spec fn reads_suffice(
    targets: Seq<TargetView>,
    paths: Seq<PathReads>,
    max_bytes: usize,
) -> bool {
    ||| paths.len() == targets.len()
    ||| paths.len() < targets.len() && targets_read(
        targets,
        paths,
        max_bytes,
        paths.len() as int,
    ) is Err
}

/// Whether a result is what comes of reading a comparison whose sizes are in
/// order and whose cursor was read.
pub open spec fn comparison_reads<N: Fn(&str) -> Result<String, Error>>(
    r: Result<ParsedDiffSymbolsRequest, Error>,
    normalize: N,
    request: DiffSymbolsRequest,
    limits: InputLimits,
    cursor: Result<Option<ContinuationCursor>, Fault>,
) -> bool {
    match cursor {
        Err(fault) => r is Err && r->Err_0@ == fault,
        Ok(cursor) => match (
            text_reads(request.base_revision@, "base revision"@, limits.max_pattern_bytes),
            text_reads(request.head_revision@, "head revision"@, limits.max_pattern_bytes),
        ) {
            (Err(fault), _) => r is Err && r->Err_0@ == fault,
            (Ok(_), Err(fault)) => r is Err && r->Err_0@ == fault,
            (Ok(base), Ok(head)) => exists|paths: Seq<PathReads>|
                {
                    &&& #[trigger] all_paths_read(
                        normalize,
                        views(request.targets@),
                        limits,
                        paths,
                    )
                    &&& reads_suffice(views(request.targets@), paths, limits.max_pattern_bytes)
                    &&& r is Ok ==> paths.len() == request.targets@.len()
                    &&& is_read_comparison(
                        r,
                        request,
                        cursor,
                        base,
                        head,
                        targets_read(
                            views(request.targets@),
                            paths,
                            limits.max_pattern_bytes,
                            request.targets@.len() as int,
                        ),
                    )
                },
        },
    }
}

/// A result, as what it says.
pub open spec fn pair_result(r: Result<ParsedDiffSymbolsTarget, Error>) -> Result<PairView, Fault> {
    match r {
        Ok(target) => Ok(target@),
        Err(e) => Err(e@),
    }
}

fn parse_target<N: Fn(&str) -> Result<String, Error>>(
    target: &DiffSymbolsTarget,
    limits: InputLimits,
    normalize: &N,
) -> (r: (Result<ParsedDiffSymbolsTarget, Error>, Ghost<PathReads>))
    requires
        normalizes(*normalize),
    ensures
        paths_read(*normalize, target@, limits, r.1@),
        pair_result(r.0) == target_reads(target@, r.1@, limits.max_pattern_bytes),
{
    let max_bytes: usize = limits.max_pattern_bytes;
    let base = parse_path(target.path.as_str(), "path", limits.max_path_bytes, normalize);
    let ghost base_read = text_result(base);
    let ghost early = PathReads { base: base_read, head: base_read };
    let path = match base {
        Ok(path) => path,
        Err(e) => {
            return (Err(e), Ghost(early));
        },
    };
    let symbol = match parse_non_empty(target.symbol.as_str(), "symbol", max_bytes) {
        Ok(symbol) => symbol,
        Err(e) => {
            return (Err(e), Ghost(early));
        },
    };
    let base = HistoricalSymbolTarget { path, symbol };
    match (&target.head_path, &target.head_symbol) {
        (None, None) => (
            Ok(ParsedDiffSymbolsTarget { base, head: HistoricalHeadTarget::SameAsBase }),
            Ghost(early),
        ),
        (Some(head_path), Some(head_symbol)) => {
            let head = parse_path(
                head_path.as_str(),
                "head path",
                limits.max_path_bytes,
                normalize,
            );
            let ghost late = PathReads { base: base_read, head: text_result(head) };
            let path = match head {
                Ok(path) => path,
                Err(e) => {
                    return (Err(e), Ghost(late));
                },
            };
            match parse_non_empty(head_symbol.as_str(), "head symbol", max_bytes) {
                Ok(symbol) => (
                    Ok(
                        ParsedDiffSymbolsTarget {
                            base,
                            head: HistoricalHeadTarget::Override(
                                HistoricalSymbolTarget { path, symbol },
                            ),
                        },
                    ),
                    Ghost(late),
                ),
                Err(e) => (Err(e), Ghost(late)),
            }
        },
        _ => (
            Err(
                Error::InvalidInput {
                    field: "targets",
                    reason: "head_path and head_symbol must be supplied together",
                },
            ),
            Ghost(early),
        ),
    }
}

fn knows_pairing(list: &Vec<ParsedDiffSymbolsTarget>, pair: &ParsedDiffSymbolsTarget) -> (r: bool)
    ensures
        r == pairing_known(views(list@), pair@),
{
    let mut i: usize = 0;
    while i < list.len()
        invariant
            i <= list.len(),
            forall|k: int| 0 <= k < i ==> !same_pairing(#[trigger] views(list@)[k], pair@),
        decreases list.len() - i,
    {
        if list[i].base.same(&pair.base) && list[i].head().same(pair.head()) {
            assert(same_pairing(views(list@)[i as int], pair@));
            return true;
        }
        i += 1;
    }
    false
}

/// Whether a result is what comes of reading all targets.
pub open spec fn targets_result(r: Result<Vec<ParsedDiffSymbolsTarget>, Error>) -> Result<
    Seq<PairView>,
    Fault,
> {
    match r {
        Ok(list) => Ok(views(list@)),
        Err(e) => Err(e@),
    }
}

fn parse_targets<N: Fn(&str) -> Result<String, Error>>(
    targets: &Vec<DiffSymbolsTarget>,
    limits: InputLimits,
    normalize: &N,
) -> (r: (Result<Vec<ParsedDiffSymbolsTarget>, Error>, Ghost<Seq<PathReads>>))
    requires
        normalizes(*normalize),
    ensures
        all_paths_read(*normalize, views(targets@), limits, r.1@),
        reads_suffice(views(targets@), r.1@, limits.max_pattern_bytes),
        r.0 is Ok ==> r.1@.len() == targets@.len(),
        targets_result(r.0) == targets_read(
            views(targets@),
            r.1@,
            limits.max_pattern_bytes,
            targets@.len() as int,
        ),
{
    let ghost all = views(targets@);
    let ghost max = limits.max_pattern_bytes;
    let ghost mut paths: Seq<PathReads> = Seq::empty();
    let mut out: Vec<ParsedDiffSymbolsTarget> = Vec::new();
    let mut i: usize = 0;
    assert(views(out@) =~= Seq::<PairView>::empty());
    while i < targets.len()
        invariant
            i <= targets.len(),
            normalizes(*normalize),
            all == views(targets@),
            max == limits.max_pattern_bytes,
            paths.len() == i,
            all_paths_read(*normalize, all, limits, paths),
            targets_read(all, paths, max, i as int) == Ok::<Seq<PairView>, Fault>(views(out@)),
        decreases targets.len() - i,
    {
        let (read, found) = parse_target(&targets[i], limits, normalize);
        let ghost earlier = paths;
        proof {
            paths = paths.push(found@);
            assert(all[i as int] == targets@[i as int]@);
            assert forall|k: int| 0 <= k < paths.len() implies #[trigger] paths_read(
                *normalize,
                all[k],
                limits,
                paths[k],
            ) by {
                if k < i {
                    assert(paths_read(*normalize, all[k], limits, earlier[k]));
                }
            }
            targets_read_prefix(all, earlier, paths, max, i as int);
        }
        match read {
            Ok(pair) => {
                if knows_pairing(&out, &pair) {
                    let e = Error::InvalidInput {
                        field: "targets",
                        reason: "must not contain duplicate symbol pairings",
                    };
                    proof {
                        assert(targets_read(all, paths, max, i + 1) is Err);
                        a_refused_target_refuses_all(
                            all,
                            paths,
                            max,
                            i + 1,
                            targets@.len() as int,
                        );
                    }
                    return (Err(e), Ghost(paths));
                }
                let ghost before = views(out@);
                let ghost added = pair@;
                out.push(pair);
                assert(views(out@) =~= before.push(added));
            },
            Err(e) => {
                proof {
                    assert(targets_read(all, paths, max, i + 1) is Err);
                    a_refused_target_refuses_all(all, paths, max, i + 1, targets@.len() as int);
                }
                return (Err(e), Ghost(paths));
            },
        }
        i += 1;
    }
    (Ok(out), Ghost(paths))
}

/// The paths of the earlier revision.
pub fn list_base_paths(list: &Vec<ParsedDiffSymbolsTarget>, from: usize, to: usize) -> (r: Vec<
    String,
>)
    requires
        from <= to <= list.len(),
    ensures
        texts(r@) == base_paths(views(list@)).subrange(from as int, to as int),
{
    let ghost all = base_paths(views(list@)).subrange(from as int, to as int);
    let mut out: Vec<String> = Vec::new();
    let mut i: usize = from;
    assert(texts(out@) =~= all.take(0));
    while i < to
        invariant
            from <= i <= to <= list.len(),
            all == base_paths(views(list@)).subrange(from as int, to as int),
            texts(out@) == all.take(i - from),
        decreases to - i,
    {
        let ghost before = texts(out@);
        out.push(list[i].base.path.clone());
        assert(texts(out@) =~= before.push(list@[i as int]@.base.path));
        assert(texts(out@) =~= all.take(i - from + 1));
        i += 1;
    }
    assert(all.take(to - from) =~= all);
    out
}

/// The paths of the later revision.
pub fn list_head_paths(list: &Vec<ParsedDiffSymbolsTarget>, from: usize, to: usize) -> (r: Vec<
    String,
>)
    requires
        from <= to <= list.len(),
    ensures
        texts(r@) == head_paths(views(list@)).subrange(from as int, to as int),
{
    let ghost all = head_paths(views(list@)).subrange(from as int, to as int);
    let mut out: Vec<String> = Vec::new();
    let mut i: usize = from;
    assert(texts(out@) =~= all.take(0));
    while i < to
        invariant
            from <= i <= to <= list.len(),
            all == head_paths(views(list@)).subrange(from as int, to as int),
            texts(out@) == all.take(i - from),
        decreases to - i,
    {
        let ghost before = texts(out@);
        out.push(list[i].head().path.clone());
        assert(texts(out@) =~= before.push(list@[i as int]@.head().path));
        assert(texts(out@) =~= all.take(i - from + 1));
        i += 1;
    }
    assert(all.take(to - from) =~= all);
    out
}

fn check_paths(paths: &Vec<String>, field: &'static str) -> (r: Result<(), Error>)
    ensures
        crate::error::reports(r, paths_fault(texts(paths@), field@)),
{
    let unique = distinct_texts(paths);
    assert(texts(unique@).len() == unique@.len());
    if unique.len() > MAX_DIFF_SYMBOL_PATHS_PER_ENDPOINT {
        return Err(
            Error::RequestLimitExceeded {
                field,
                requested: unique.len(),
                limit: MAX_DIFF_SYMBOL_PATHS_PER_ENDPOINT,
            },
        );
    }
    Ok(())
}

fn finish_comparison(
    request: DiffSymbolsRequest,
    cursor: Option<ContinuationCursor>,
    base_revision: String,
    head_revision: String,
    targets: Vec<ParsedDiffSymbolsTarget>,
) -> (r: Result<ParsedDiffSymbolsRequest, Error>)
    ensures
        is_read_comparison(
            r,
            request,
            cursor,
            base_revision@,
            head_revision@,
            Ok(views(targets@)),
        ),
{
    let total: usize = targets.len();
    let base = list_base_paths(&targets, 0, total);
    let head = list_head_paths(&targets, 0, total);
    proof {
        let list = views(targets@);
        assert(base_paths(list).subrange(0, total as int) =~= base_paths(list));
        assert(head_paths(list).subrange(0, total as int) =~= head_paths(list));
    }
    match check_paths(&base, "base paths") {
        Ok(_) => {},
        Err(e) => {
            return Err(e);
        },
    }
    match check_paths(&head, "head paths") {
        Ok(_) => {},
        Err(e) => {
            return Err(e);
        },
    }
    Ok(
        ParsedDiffSymbolsRequest {
            targets,
            base_revision,
            head_revision,
            max_results: request.max_results,
            max_tokens: request.max_tokens,
            cursor,
        },
    )
}

/// Reads a comparison of symbols: the number of targets is bounded before any
/// of them is read, and no two targets compare the same symbols.
pub fn parse_diff_symbols_request<N: Fn(&str) -> Result<String, Error>>(
    request: DiffSymbolsRequest,
    max_results_limit: usize,
    limits: InputLimits,
    normalize: &N,
) -> (r: Result<ParsedDiffSymbolsRequest, Error>)
    requires
        normalizes(*normalize),
    ensures
        match crate::error::first_fault(
            outside_limit("targets"@, request.targets@.len() as usize, MAX_DIFF_SYMBOL_TARGETS),
            results_fault(request.max_results, page_limit(max_results_limit)),
        ) {
            Some(fault) => r is Err && r->Err_0@ == fault,
            None => exists|cursor: Result<Option<ContinuationCursor>, Fault>|
                #[trigger] cursor_reads(optional_text(request.cursor), cursor)
                    && comparison_reads(r, *normalize, request, limits, cursor),
        },
{
    match validate_positive_request_limit(
        "targets",
        request.targets.len(),
        MAX_DIFF_SYMBOL_TARGETS,
    ) {
        Ok(_) => {},
        Err(e) => {
            return Err(e);
        },
    }
    if let Some(max_results) = request.max_results {
        let limit: usize = if max_results_limit < MAX_DIFF_SYMBOL_RESULTS {
            max_results_limit
        } else {
            MAX_DIFF_SYMBOL_RESULTS
        };
        match validate_positive_request_limit("max_results", max_results, limit) {
            Ok(_) => {},
            Err(e) => {
                return Err(e);
            },
        }
    }
    let encoded = match &request.cursor {
        Some(text) => Some(text.as_str()),
        None => None,
    };
    let read = ContinuationCursor::parse_optional(encoded);
    let ghost known = cursor_result(read);
    assert(cursor_reads(optional_text(request.cursor), known));
    let cursor = match read {
        Ok(cursor) => cursor,
        Err(e) => {
            return Err(e);
        },
    };
    let max_bytes: usize = limits.max_pattern_bytes;
    let base_revision = match parse_non_empty(
        request.base_revision.as_str(),
        "base revision",
        max_bytes,
    ) {
        Ok(text) => text,
        Err(e) => {
            assert(comparison_reads(Err(e), *normalize, request, limits, known));
            return Err(e);
        },
    };
    let head_revision = match parse_non_empty(
        request.head_revision.as_str(),
        "head revision",
        max_bytes,
    ) {
        Ok(text) => text,
        Err(e) => {
            assert(comparison_reads(Err(e), *normalize, request, limits, known));
            return Err(e);
        },
    };
    let (targets, paths) = parse_targets(&request.targets, limits, normalize);
    assert(all_paths_read(*normalize, views(request.targets@), limits, paths@));
    let ghost given = request;
    match targets {
        Ok(targets) => {
            let done = finish_comparison(request, cursor, base_revision, head_revision, targets);
            assert(comparison_reads(done, *normalize, given, limits, known));
            done
        },
        Err(e) => {
            assert(comparison_reads(Err(e), *normalize, given, limits, known));
            Err(e)
        },
    }
}

} // verus!
