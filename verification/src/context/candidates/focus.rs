//! The candidates that the focus patterns of a request ask for.

use crate::context::candidates::draft::{plain, Candidate, CandidateView, LineRange};
use crate::context::candidates::retain::{
    focus_precedes, focus_text_relevance, more_relevant, ranked, retain_ranked_focus_candidate,
    same_lines, text_relevance, FocusCandidate, FocusView,
};
use crate::context::diagnostics::{noted, signed, signed_text, ContextPhaseTracker, TrackerView};
use crate::context::facets::ContextQuery;
use crate::context::finalize::capped;
use crate::context::path_score::{path_points, ContextPathScorer};
use crate::context::validation::{
    MAX_CONTEXT_FOCUS_CANDIDATES_PER_PATTERN, MAX_CONTEXT_FOCUS_FILES_PER_PATTERN,
};
use crate::handoff::note;
use crate::lists::{first_where, first_where_is};
use crate::model::ContextRequest;
use crate::ordered::{sort_by, sorted_by, views};
use crate::services::Services;
use crate::text::{
    appended, copy_text, decimal, decimal_text, join_texts, joined_by, lines_of, list_has,
    optional_text, same_text, text_lines, texts,
};
use vstd::prelude::*;

verus! {

/// The most chunks of one file that are looked into.
pub const MAX_CONTEXT_FOCUS_CHUNKS_PER_FILE: usize = 256;

/// The most symbols of one file that are looked at.
pub const MAX_CONTEXT_FOCUS_SYMBOLS_PER_FILE: usize = 128;

/// Stored lines of a file.
#[derive(Debug)]
pub struct FileChunk {
    pub start_line: usize,
    pub end_line: usize,
    pub content: String,
}

/// What a [`FileChunk`] says.
pub struct ChunkView {
    pub start_line: usize,
    pub end_line: usize,
    pub content: Seq<char>,
}

impl View for FileChunk {
    type V = ChunkView;

    open spec fn view(&self) -> ChunkView {
        ChunkView {
            start_line: self.start_line,
            end_line: self.end_line,
            content: self.content@,
        }
    }
}

/// A symbol of a file that a focus pattern matches.
#[derive(Debug)]
pub struct FocusSymbol {
    pub name: String,
    pub kind: String,
    pub parent: Option<String>,
    pub signature: Option<String>,
    pub start_line: usize,
    pub end_line: usize,
}

/// What a [`FocusSymbol`] says.
pub struct FocusSymbolView {
    pub name: Seq<char>,
    pub kind: Seq<char>,
    pub parent: Option<Seq<char>>,
    pub signature: Option<Seq<char>>,
    pub start_line: usize,
    pub end_line: usize,
}

impl View for FocusSymbol {
    type V = FocusSymbolView;

    open spec fn view(&self) -> FocusSymbolView {
        FocusSymbolView {
            name: self.name@,
            kind: self.kind@,
            parent: optional_text(self.parent),
            signature: optional_text(self.signature),
            start_line: self.start_line,
            end_line: self.end_line,
        }
    }
}

/// A file that a focus pattern matches, with its chunks and symbols.
#[derive(Debug)]
pub struct FocusFile {
    pub id: i64,
    pub path: String,
    pub chunks: Vec<FileChunk>,
    pub symbols: Vec<FocusSymbol>,
}

/// What a [`FocusFile`] says.
pub struct FocusFileView {
    pub id: i64,
    pub path: Seq<char>,
    pub chunks: Seq<ChunkView>,
    pub symbols: Seq<FocusSymbolView>,
}

impl View for FocusFile {
    type V = FocusFileView;

    open spec fn view(&self) -> FocusFileView {
        FocusFileView {
            id: self.id,
            path: self.path@,
            chunks: views(self.chunks@),
            symbols: views(self.symbols@),
        }
    }
}

/// What a focus pattern matches: the files that are looked into, and how many are
/// indexed and eligible.
#[derive(Debug)]
pub struct FocusPathResolution {
    pub files: Vec<FocusFile>,
    pub indexed_paths: usize,
    pub eligible_paths: usize,
}

/// What a [`FocusPathResolution`] says.
pub struct ResolutionView {
    pub files: Seq<FocusFileView>,
    pub indexed_paths: usize,
    pub eligible_paths: usize,
}

impl View for FocusPathResolution {
    type V = ResolutionView;

    open spec fn view(&self) -> ResolutionView {
        ResolutionView {
            files: views(self.files@),
            indexed_paths: self.indexed_paths,
            eligible_paths: self.eligible_paths,
        }
    }
}

/// What focus patterns are expanded with.
pub struct FocusExpansion<'a> {
    pub request: &'a ContextRequest,
    pub queries: &'a Vec<ContextQuery>,
    pub path_scorer: &'a ContextPathScorer,
    pub resolutions: &'a Vec<FocusPathResolution>,
}

/// Whether a chunk holds a line.
pub open spec fn holds_line(line: usize) -> spec_fn(ChunkView) -> bool {
    |chunk: ChunkView| chunk.start_line <= line && chunk.end_line >= line
}

/// The difference of two numbers, or zero.
pub open spec fn behind(a: usize, b: usize) -> usize {
    if a > b {
        (a - b) as usize
    } else {
        0
    }
}

/// How many lines of a chunk a symbol takes.
pub open spec fn symbol_line_count(symbol: FocusSymbolView, chunk: ChunkView) -> usize {
    let end = if symbol.end_line < chunk.end_line {
        symbol.end_line
    } else {
        chunk.end_line
    };
    capped(behind(end, symbol.start_line), 1)
}

/// At most `count` of a list, from a position on.
pub open spec fn portion<A>(list: Seq<A>, from: usize, count: usize) -> Seq<A> {
    if from >= list.len() {
        Seq::empty()
    } else if count < list.len() - from {
        list.subrange(from as int, from + count)
    } else {
        list.subrange(from as int, list.len() as int)
    }
}

/// The lines of a symbol in a chunk.
pub open spec fn symbol_lines(symbol: FocusSymbolView, chunk: ChunkView) -> Seq<char> {
    joined_by(
        portion(
            text_lines(chunk.content),
            behind(symbol.start_line, chunk.start_line),
            symbol_line_count(symbol, chunk),
        ),
        "\n"@,
    )
}

/// A text that may be missing, or nothing.
pub open spec fn text_or_nothing(text: Option<Seq<char>>) -> Seq<char> {
    match text {
        Some(value) => value,
        None => Seq::empty(),
    }
}

/// What is searched of a symbol.
pub open spec fn searchable(symbol: FocusSymbolView, chunk: ChunkView) -> Seq<char> {
    symbol.name + " "@ + symbol.kind + " "@ + text_or_nothing(symbol.parent) + " "@
        + text_or_nothing(symbol.signature) + " "@ + symbol_lines(symbol, chunk)
}

/// A relevance as points, at most four hundred.
pub open spec fn points_of(relevance: usize) -> u32 {
    if relevance > 400 {
        400
    } else {
        relevance as u32
    }
}

/// A candidate for a focus pattern, as far as the pattern alone decides.
pub open spec fn focused(
    expansion: FocusExpansion<'_>,
    pattern: Seq<char>,
    path: Seq<char>,
    chunk: ChunkView,
    kind: Seq<char>,
    exact: u32,
) -> CandidateView {
    CandidateView {
        exact,
        path_score: path_points(expansion.path_scorer@, path),
        focus_boost: 200,
        ..plain(path, chunk.start_line, chunk.end_line, chunk.content).found_as(kind).about(
            "focus:path:"@ + pattern,
            200,
        ).shown_as(kind)
    }
}

/// A symbol as a candidate for a focus pattern, where a chunk holds it and the
/// request asks for it or speaks of it.
pub open spec fn symbol_focus(
    expansion: FocusExpansion<'_>,
    pattern: Seq<char>,
    file: FocusFileView,
    symbol: FocusSymbolView,
) -> Option<FocusView> {
    let at = first_where(file.chunks, holds_line(symbol.start_line));
    let chunk = file.chunks[at];
    let found = text_relevance(searchable(symbol, chunk), views(expansion.queries@));
    let named = texts(expansion.request.focus_symbols@).contains(symbol.name);
    if at == file.chunks.len() || found == 0 && !named {
        None
    } else {
        Some(
            FocusView {
                relevance: capped(
                    found,
                    if named {
                        500
                    } else {
                        100
                    },
                ),
                candidate: CandidateView {
                    symbol_name: Some(symbol.name),
                    target: Some(LineRange { start: symbol.start_line, end: symbol.end_line }),
                    symbol: if named {
                        200
                    } else {
                        100
                    },
                    ..focused(
                        expansion,
                        pattern,
                        file.path,
                        chunk,
                        "focus_symbol"@,
                        if named {
                            400
                        } else {
                            points_of(found)
                        },
                    )
                },
            },
        )
    }
}

/// A chunk as a candidate for a focus pattern.
pub open spec fn chunk_focus(
    expansion: FocusExpansion<'_>,
    pattern: Seq<char>,
    file: FocusFileView,
    chunk: ChunkView,
) -> FocusView {
    let found = text_relevance(chunk.content, views(expansion.queries@));
    FocusView {
        relevance: found,
        candidate: focused(
            expansion,
            pattern,
            file.path,
            chunk,
            if found > 0 {
                "focus_text"@
            } else {
                "focus_fallback"@
            },
            points_of(found),
        ),
    }
}

/// The best candidates, with the first `upto` symbols of a file.
pub open spec fn with_focus_symbols(
    list: Seq<FocusView>,
    expansion: FocusExpansion<'_>,
    pattern: Seq<char>,
    file: FocusFileView,
    upto: int,
) -> Seq<FocusView>
    decreases upto,
{
    if upto <= 0 || upto > file.symbols.len() {
        list
    } else {
        let before = with_focus_symbols(list, expansion, pattern, file, upto - 1);
        match symbol_focus(expansion, pattern, file, file.symbols[upto - 1]) {
            Some(candidate) => ranked(before, candidate),
            None => before,
        }
    }
}

/// The best candidates, with those of the first `upto` chunks of a file that are
/// relevant.
pub open spec fn with_focus_chunks(
    list: Seq<FocusView>,
    expansion: FocusExpansion<'_>,
    pattern: Seq<char>,
    file: FocusFileView,
    upto: int,
) -> Seq<FocusView>
    decreases upto,
{
    if upto <= 0 || upto > file.chunks.len() {
        list
    } else {
        let before = with_focus_chunks(list, expansion, pattern, file, upto - 1);
        let candidate = chunk_focus(expansion, pattern, file, file.chunks[upto - 1]);
        if candidate.relevance > 0 {
            ranked(before, candidate)
        } else {
            before
        }
    }
}

/// The first, by line, of the first `upto` chunks of a file that are not relevant.
pub open spec fn focus_fallback(
    expansion: FocusExpansion<'_>,
    pattern: Seq<char>,
    file: FocusFileView,
    upto: int,
) -> Option<FocusView>
    decreases upto,
{
    if upto <= 0 || upto > file.chunks.len() {
        None
    } else {
        let before = focus_fallback(expansion, pattern, file, upto - 1);
        let candidate = chunk_focus(expansion, pattern, file, file.chunks[upto - 1]);
        if candidate.relevance == 0 && (before is None || candidate.candidate.start_line
            < before->0.candidate.start_line) {
            Some(candidate)
        } else {
            before
        }
    }
}

/// What was found for a focus pattern.
pub struct FocusFound {
    pub semantic: Seq<FocusView>,
    pub fallback: Seq<FocusView>,
}

/// What is found for a focus pattern in the first `upto` files.
pub open spec fn focus_found(
    expansion: FocusExpansion<'_>,
    pattern: Seq<char>,
    files: Seq<FocusFileView>,
    upto: int,
) -> FocusFound
    decreases upto,
{
    if upto <= 0 || upto > files.len() {
        FocusFound { semantic: Seq::empty(), fallback: Seq::empty() }
    } else {
        let before = focus_found(expansion, pattern, files, upto - 1);
        let file = files[upto - 1];
        FocusFound {
            semantic: with_focus_chunks(
                with_focus_symbols(
                    before.semantic,
                    expansion,
                    pattern,
                    file,
                    file.symbols.len() as int,
                ),
                expansion,
                pattern,
                file,
                file.chunks.len() as int,
            ),
            fallback: match focus_fallback(expansion, pattern, file, file.chunks.len() as int) {
                Some(candidate) => before.fallback.push(candidate),
                None => before.fallback,
            },
        }
    }
}

/// The candidates of a focus pattern in order: the relevant ones, or where there
/// are none one of each file.
pub open spec fn focus_selected(found: FocusFound) -> Seq<FocusView> {
    sorted_by(
        if found.semantic.len() == 0 {
            found.fallback
        } else {
            found.semantic
        },
        more_relevant(),
    )
}

/// Whether lines are already shown.
pub open spec fn lines_shown(list: Seq<CandidateView>, candidate: CandidateView) -> bool {
    exists|i: int| 0 <= i < list.len() && same_lines(#[trigger] list[i], candidate)
}

/// The rank of a candidate of a focus pattern.
pub open spec fn focus_rank(pattern_index: usize, retained: nat) -> usize {
    let base = if pattern_index * MAX_CONTEXT_FOCUS_CANDIDATES_PER_PATTERN > usize::MAX {
        usize::MAX
    } else {
        (pattern_index * MAX_CONTEXT_FOCUS_CANDIDATES_PER_PATTERN) as usize
    };
    capped(base, retained as usize)
}

/// The first `upto` candidates of a focus pattern that are handed on: each lines
/// once, and no more than a bound.
pub open spec fn focus_retained(
    selected: Seq<FocusView>,
    pattern_index: usize,
    upto: int,
) -> Seq<CandidateView>
    decreases upto,
{
    if upto <= 0 || upto > selected.len() {
        Seq::empty()
    } else {
        let before = focus_retained(selected, pattern_index, upto - 1);
        let candidate = selected[upto - 1].candidate;
        if before.len() >= MAX_CONTEXT_FOCUS_CANDIDATES_PER_PATTERN || lines_shown(
            before,
            candidate,
        ) {
            before
        } else {
            before.push(
                candidate.through("focus_local"@, focus_rank(pattern_index, before.len())),
            )
        }
    }
}

/// A focus pattern hands on no more candidates than its bound.
pub proof fn focus_is_bounded(selected: Seq<FocusView>, pattern_index: usize, upto: int)
    ensures
        focus_retained(selected, pattern_index, upto).len()
            <= MAX_CONTEXT_FOCUS_CANDIDATES_PER_PATTERN,
    decreases upto,
{
    if 0 < upto <= selected.len() {
        focus_is_bounded(selected, pattern_index, upto - 1);
    }
}

/// How many candidates a focus pattern is meant to bring.
pub open spec fn requested_minimum(request: ContextRequest) -> usize {
    match request.minimum_fragments_per_focus_path {
        Some(minimum) => minimum,
        None => if request.strict_focus_paths {
            1
        } else {
            0
        },
    }
}

/// What a warning of a focus pattern begins with.
pub open spec fn pattern_said(pattern: Seq<char>) -> Seq<char> {
    "focus pattern `"@ + pattern
}

/// The warning of a pattern that matches more files than are looked into.
pub open spec fn wide_warning(pattern: Seq<char>, eligible: usize) -> Seq<char> {
    pattern_said(pattern) + "` matched "@ + decimal_text(eligible as nat)
        + " eligible indexed paths; candidate generation inspected the first "@ + decimal_text(
        MAX_CONTEXT_FOCUS_FILES_PER_PATTERN as nat,
    ) + " paths"@
}

/// The warning of a pattern none of whose files is eligible.
pub open spec fn barred_warning(pattern: Seq<char>) -> Seq<char> {
    pattern_said(pattern)
        + "` has no candidate-eligible indexed path after include, exclude, generated-artifact, and strict changed-scope policy"@
}

/// The warning of a pattern whose files hold nothing.
pub open spec fn empty_warning(pattern: Seq<char>) -> Seq<char> {
    pattern_said(pattern) + "` matched indexed files without bounded chunk evidence"@
}

/// The warning of a pattern that brings too little.
pub open spec fn few_warning(pattern: Seq<char>, retained: nat, minimum: usize) -> Seq<char> {
    pattern_said(pattern) + "` generated "@ + decimal_text(retained)
        + " distinct bounded candidates for requested minimum "@ + decimal_text(minimum as nat)
}

/// What the focus patterns of a request bring.
pub struct FocusOutcome {
    pub candidates: Seq<CandidateView>,
    pub warnings: Seq<Seq<char>>,
    pub tracker: TrackerView,
}

/// The inputs of a lookup of what a file holds.
pub open spec fn file_inputs(id: i64, limit: usize) -> Seq<char> {
    "file_id:"@ + signed_text(id) + ":limit:"@ + decimal_text(limit as nat)
}

/// What is noted of looking into the first `upto` files.
pub open spec fn after_files(tracker: TrackerView, files: Seq<FocusFileView>, upto: int) ->
    TrackerView
    decreases upto,
{
    if upto <= 0 || upto > files.len() {
        tracker
    } else {
        let id = files[upto - 1].id;
        noted(
            noted(
                after_files(tracker, files, upto - 1),
                "focus_file_chunks"@,
                file_inputs(id, MAX_CONTEXT_FOCUS_CHUNKS_PER_FILE),
            ),
            "focus_file_symbols"@,
            file_inputs(id, MAX_CONTEXT_FOCUS_SYMBOLS_PER_FILE),
        )
    }
}

/// What the first `upto` focus patterns bring.
pub open spec fn focus_outcome(
    start: FocusOutcome,
    expansion: FocusExpansion<'_>,
    upto: int,
) -> FocusOutcome
    decreases upto,
{
    let patterns = texts(expansion.request.focus_paths@);
    let resolutions = views(expansion.resolutions@);
    if upto <= 0 || upto > patterns.len() || upto > resolutions.len() {
        start
    } else {
        let before = focus_outcome(start, expansion, upto - 1);
        let pattern = patterns[upto - 1];
        let resolution = resolutions[upto - 1];
        let wide = note(
            resolution.eligible_paths > MAX_CONTEXT_FOCUS_FILES_PER_PATTERN,
            wide_warning(pattern, resolution.eligible_paths),
        );
        if resolution.files.len() == 0 {
            FocusOutcome {
                warnings: before.warnings + wide + note(
                    resolution.indexed_paths > 0,
                    barred_warning(pattern),
                ),
                ..before
            }
        } else {
            let selected = focus_selected(
                focus_found(expansion, pattern, resolution.files, resolution.files.len() as int),
            );
            let retained = focus_retained(selected, (upto - 1) as usize, selected.len() as int);
            let minimum = requested_minimum(*expansion.request);
            FocusOutcome {
                candidates: before.candidates + retained,
                warnings: before.warnings + wide + note(
                    retained.len() == 0,
                    empty_warning(pattern),
                ) + note(
                    0 < retained.len() < minimum,
                    few_warning(pattern, retained.len(), minimum),
                ),
                tracker: after_files(
                    before.tracker,
                    resolution.files,
                    resolution.files.len() as int,
                ),
            }
        }
    }
}

fn chunk_at(chunks: &Vec<FileChunk>, line: usize) -> (r: usize)
    ensures
        r == first_where(views(chunks@), holds_line(line)),
        r <= chunks@.len(),
{
    let ghost all = views(chunks@);
    let p = Ghost(holds_line(line));
    let mut at: usize = 0;
    while at < chunks.len() && !(chunks[at].start_line <= line && chunks[at].end_line >= line)
        invariant
            at <= chunks.len(),
            all == views(chunks@),
            p@ == holds_line(line),
            forall|k: int| 0 <= k < at ==> !p@(#[trigger] all[k]),
        decreases chunks.len() - at,
    {
        assert(all[at as int] == chunks@[at as int]@);
        at += 1;
    }
    proof {
        if at < chunks.len() {
            assert(all[at as int] == chunks@[at as int]@);
        }
        first_where_is(all, p@, at as int);
    }
    at
}

fn take_portion(list: &Vec<String>, from: usize, count: usize) -> (r: Vec<String>)
    ensures
        texts(r@) == portion(texts(list@), from, count),
{
    let ghost all = portion(texts(list@), from, count);
    let mut out: Vec<String> = Vec::new();
    let mut i: usize = 0;
    assert(texts(out@) =~= all.take(0));
    while i < count && from < list.len() && i < list.len() - from
        invariant
            i <= count,
            from < list.len() ==> i <= list.len() - from,
            from >= list.len() ==> i == 0,
            all == portion(texts(list@), from, count),
            texts(out@) == all.take(i as int),
        decreases count - i,
    {
        let ghost before = texts(out@);
        out.push(list[from + i].clone());
        assert(texts(out@) =~= before.push(list@[from + i]@));
        assert(texts(out@) =~= all.take(i + 1));
        i += 1;
    }
    assert(texts(list@).len() == list@.len());
    assert(all.take(all.len() as int) =~= all);
    out
}

fn lines_of_symbol(symbol: &FocusSymbol, chunk: &FileChunk) -> (r: String)
    ensures
        r@ == symbol_lines(symbol@, chunk@),
{
    let from: usize = symbol.start_line.saturating_sub(chunk.start_line);
    let end: usize = if symbol.end_line < chunk.end_line {
        symbol.end_line
    } else {
        chunk.end_line
    };
    let count: usize = end.saturating_sub(symbol.start_line).saturating_add(1);
    let lines = lines_of(chunk.content.as_str());
    let part = take_portion(&lines, from, count);
    join_texts(&part, "\n")
}

fn append_optional(start: String, text: &Option<String>) -> (r: String)
    ensures
        r@ == start@ + text_or_nothing(optional_text(*text)),
{
    match text {
        Some(value) => appended(start, value.as_str()),
        None => {
            assert(start@ =~= start@ + Seq::<char>::empty());
            start
        },
    }
}

fn searchable_text(symbol: &FocusSymbol, chunk: &FileChunk) -> (r: String)
    ensures
        r@ == searchable(symbol@, chunk@),
{
    let named = appended(
        appended(appended(symbol.name.clone(), " "), symbol.kind.as_str()),
        " ",
    );
    let with_parent = appended(append_optional(named, &symbol.parent), " ");
    let with_signature = appended(append_optional(with_parent, &symbol.signature), " ");
    appended(with_signature, lines_of_symbol(symbol, chunk).as_str())
}

pub(crate) fn to_points(relevance: usize) -> (r: u32)
    ensures
        r == points_of(relevance),
{
    if relevance > 400 {
        400
    } else {
        relevance as u32
    }
}

fn make_focused(
    expansion: &FocusExpansion<'_>,
    pattern: &str,
    path: &str,
    chunk: &FileChunk,
    kind: &str,
    exact: u32,
) -> (r: Candidate)
    ensures
        r@ == focused(*expansion, pattern@, path@, chunk@, kind@, exact),
{
    let concept = appended(copy_text("focus:path:"), pattern);
    let mut candidate = Candidate::new(
        path,
        chunk.start_line,
        chunk.end_line,
        chunk.content.as_str(),
    ).match_kind(kind).concept(concept.as_str(), 200).representation(kind);
    candidate.exact = exact;
    candidate.path_score = expansion.path_scorer.score(path);
    candidate.focus_boost = 200;
    candidate
}

fn focus_symbol(
    expansion: &FocusExpansion<'_>,
    pattern: &str,
    file: &FocusFile,
    symbol: &FocusSymbol,
) -> (r: Option<FocusCandidate>)
    ensures
        crate::response::optional_view(r) == symbol_focus(*expansion, pattern@, file@, symbol@),
{
    let at: usize = chunk_at(&file.chunks, symbol.start_line);
    assert(views(file.chunks@).len() == file.chunks@.len());
    if at == file.chunks.len() {
        return None;
    }
    let chunk = &file.chunks[at];
    assert(file@.chunks[at as int] == chunk@);
    let text = searchable_text(symbol, chunk);
    let found: usize = focus_text_relevance(text.as_str(), expansion.queries);
    let named = list_has(&expansion.request.focus_symbols, symbol.name.as_str());
    if found == 0 && !named {
        return None;
    }
    let exact: u32 = if named {
        400
    } else {
        to_points(found)
    };
    let mut candidate = make_focused(
        expansion,
        pattern,
        file.path.as_str(),
        chunk,
        "focus_symbol",
        exact,
    );
    candidate.symbol_name = Some(symbol.name.clone());
    candidate.target = Some(LineRange { start: symbol.start_line, end: symbol.end_line });
    candidate.symbol = if named {
        200
    } else {
        100
    };
    let bonus: usize = if named {
        500
    } else {
        100
    };
    Some(FocusCandidate { relevance: found.saturating_add(bonus), candidate })
}

fn focus_chunk(
    expansion: &FocusExpansion<'_>,
    pattern: &str,
    file: &FocusFile,
    chunk: &FileChunk,
) -> (r: FocusCandidate)
    ensures
        r@ == chunk_focus(*expansion, pattern@, file@, chunk@),
{
    let found: usize = focus_text_relevance(chunk.content.as_str(), expansion.queries);
    let kind = if found > 0 {
        copy_text("focus_text")
    } else {
        copy_text("focus_fallback")
    };
    let candidate = make_focused(
        expansion,
        pattern,
        file.path.as_str(),
        chunk,
        kind.as_str(),
        to_points(found),
    );
    FocusCandidate { relevance: found, candidate }
}

fn add_symbols(
    list: &mut Vec<FocusCandidate>,
    expansion: &FocusExpansion<'_>,
    pattern: &str,
    file: &FocusFile,
)
    ensures
        views(final(list)@) == with_focus_symbols(
            views(old(list)@),
            *expansion,
            pattern@,
            file@,
            file@.symbols.len() as int,
        ),
{
    let ghost start = views(list@);
    assert(file@.symbols.len() == file.symbols@.len());
    let mut i: usize = 0;
    while i < file.symbols.len()
        invariant
            i <= file.symbols.len(),
            file@.symbols.len() == file.symbols@.len(),
            views(list@) == with_focus_symbols(start, *expansion, pattern@, file@, i as int),
        decreases file.symbols.len() - i,
    {
        assert(file@.symbols[i as int] == file.symbols@[i as int]@);
        if let Some(candidate) = focus_symbol(expansion, pattern, file, &file.symbols[i]) {
            retain_ranked_focus_candidate(list, candidate);
        }
        i += 1;
    }
}

fn add_chunks(
    list: &mut Vec<FocusCandidate>,
    expansion: &FocusExpansion<'_>,
    pattern: &str,
    file: &FocusFile,
) -> (r: Option<FocusCandidate>)
    ensures
        views(final(list)@) == with_focus_chunks(
            views(old(list)@),
            *expansion,
            pattern@,
            file@,
            file@.chunks.len() as int,
        ),
        crate::response::optional_view(r) == focus_fallback(
            *expansion,
            pattern@,
            file@,
            file@.chunks.len() as int,
        ),
{
    let ghost start = views(list@);
    assert(file@.chunks.len() == file.chunks@.len());
    let mut fallback: Option<FocusCandidate> = None;
    let mut i: usize = 0;
    while i < file.chunks.len()
        invariant
            i <= file.chunks.len(),
            file@.chunks.len() == file.chunks@.len(),
            views(list@) == with_focus_chunks(start, *expansion, pattern@, file@, i as int),
            crate::response::optional_view(fallback) == focus_fallback(
                *expansion,
                pattern@,
                file@,
                i as int,
            ),
        decreases file.chunks.len() - i,
    {
        assert(file@.chunks[i as int] == file.chunks@[i as int]@);
        let candidate = focus_chunk(expansion, pattern, file, &file.chunks[i]);
        if candidate.relevance > 0 {
            retain_ranked_focus_candidate(list, candidate);
        } else {
            let first = match &fallback {
                None => true,
                Some(best) => candidate.candidate.start_line < best.candidate.start_line,
            };
            if first {
                fallback = Some(candidate);
            }
        }
        i += 1;
    }
    fallback
}

pub(crate) fn file_key(id: i64, limit: usize) -> (r: String)
    ensures
        r@ == file_inputs(id, limit),
{
    let named = appended(copy_text("file_id:"), signed(id).as_str());
    appended(appended(named, ":limit:"), decimal(limit as u64).as_str())
}

fn find_focus(
    expansion: &FocusExpansion<'_>,
    pattern: &str,
    files: &Vec<FocusFile>,
    phases: &mut ContextPhaseTracker,
) -> (r: (Vec<FocusCandidate>, Vec<FocusCandidate>))
    ensures
        views(r.0@) == focus_found(
            *expansion,
            pattern@,
            views(files@),
            files@.len() as int,
        ).semantic,
        views(r.1@) == focus_found(
            *expansion,
            pattern@,
            views(files@),
            files@.len() as int,
        ).fallback,
        final(phases)@ == after_files(old(phases)@, views(files@), files@.len() as int),
{
    let ghost all = views(files@);
    let ghost start = phases@;
    let mut semantic: Vec<FocusCandidate> = Vec::new();
    let mut fallback: Vec<FocusCandidate> = Vec::new();
    let mut i: usize = 0;
    proof {
        assert(views(semantic@) =~= Seq::<FocusView>::empty());
        assert(views(fallback@) =~= Seq::<FocusView>::empty());
    }
    while i < files.len()
        invariant
            i <= files.len(),
            all == views(files@),
            all.len() == files@.len(),
            views(semantic@) == focus_found(*expansion, pattern@, all, i as int).semantic,
            views(fallback@) == focus_found(*expansion, pattern@, all, i as int).fallback,
            phases@ == after_files(start, all, i as int),
        decreases files.len() - i,
    {
        let file = &files[i];
        assert(all[i as int] == file@);
        phases.record_primitive(
            "focus_file_chunks",
            file_key(file.id, MAX_CONTEXT_FOCUS_CHUNKS_PER_FILE),
        );
        phases.record_primitive(
            "focus_file_symbols",
            file_key(file.id, MAX_CONTEXT_FOCUS_SYMBOLS_PER_FILE),
        );
        add_symbols(&mut semantic, expansion, pattern, file);
        let ghost before = views(fallback@);
        if let Some(candidate) = add_chunks(&mut semantic, expansion, pattern, file) {
            let ghost added = candidate@;
            fallback.push(candidate);
            assert(views(fallback@) =~= before.push(added));
        }
        i += 1;
    }
    (semantic, fallback)
}

fn is_shown(list: &Vec<Candidate>, candidate: &Candidate) -> (r: bool)
    ensures
        r == lines_shown(views(list@), candidate@),
{
    let ghost all = views(list@);
    let mut i: usize = 0;
    while i < list.len()
        invariant
            i <= list.len(),
            all == views(list@),
            forall|k: int| 0 <= k < i ==> !same_lines(#[trigger] all[k], candidate@),
        decreases list.len() - i,
    {
        assert(all[i as int] == list@[i as int]@);
        if list[i].start_line == candidate.start_line && list[i].end_line == candidate.end_line
            && same_text(list[i].path.as_str(), candidate.path.as_str()) {
            assert(same_lines(all[i as int], candidate@));
            return true;
        }
        i += 1;
    }
    assert(all.len() == list@.len());
    false
}

fn rank_of(pattern_index: usize, retained: usize) -> (r: usize)
    ensures
        r == focus_rank(pattern_index, retained as nat),
{
    let base: usize = if pattern_index > usize::MAX / MAX_CONTEXT_FOCUS_CANDIDATES_PER_PATTERN {
        usize::MAX
    } else {
        pattern_index * MAX_CONTEXT_FOCUS_CANDIDATES_PER_PATTERN
    };
    base.saturating_add(retained)
}

fn retain_selected(selected: Vec<FocusCandidate>, pattern_index: usize) -> (r: Vec<Candidate>)
    ensures
        views(r@) == focus_retained(
            views(selected@),
            pattern_index,
            selected@.len() as int,
        ),
{
    let ghost all = views(selected@);
    let mut out: Vec<Candidate> = Vec::new();
    assert(views(out@) =~= Seq::<CandidateView>::empty());
    for item in it: selected
        invariant
            it.seq() == selected@,
            all == views(selected@),
            all.len() == selected@.len(),
            views(out@) == focus_retained(all, pattern_index, it.index() as int),
    {
        let ghost before = views(out@);
        assert(all[it.index() as int] == item@);
        assert(before.len() == out@.len());
        let candidate = item.candidate;
        if out.len() < MAX_CONTEXT_FOCUS_CANDIDATES_PER_PATTERN && !is_shown(&out, &candidate) {
            let rank: usize = rank_of(pattern_index, out.len());
            let marked = candidate.channel("focus_local", rank);
            let ghost added = marked@;
            out.push(marked);
            assert(views(out@) =~= before.push(added));
        }
    }
    out
}

fn push_said(warnings: &mut Vec<String>, said: bool, text: String)
    ensures
        texts(final(warnings)@) == texts(old(warnings)@) + note(said, text@),
{
    let ghost start = texts(warnings@);
    let ghost told = text@;
    if said {
        warnings.push(text);
    }
    assert(texts(warnings@) =~= start + note(said, told));
}

fn pattern_text(pattern: &str) -> (r: String)
    ensures
        r@ == pattern_said(pattern@),
{
    appended(copy_text("focus pattern `"), pattern)
}

fn wide_text(pattern: &str, eligible: usize) -> (r: String)
    ensures
        r@ == wide_warning(pattern@, eligible),
{
    let matched = appended(
        appended(pattern_text(pattern), "` matched "),
        decimal(eligible as u64).as_str(),
    );
    let inspected = appended(
        appended(matched, " eligible indexed paths; candidate generation inspected the first "),
        decimal(MAX_CONTEXT_FOCUS_FILES_PER_PATTERN as u64).as_str(),
    );
    appended(inspected, " paths")
}

fn few_text(pattern: &str, retained: usize, minimum: usize) -> (r: String)
    ensures
        r@ == few_warning(pattern@, retained as nat, minimum),
{
    let made = appended(
        appended(pattern_text(pattern), "` generated "),
        decimal(retained as u64).as_str(),
    );
    appended(
        appended(made, " distinct bounded candidates for requested minimum "),
        decimal(minimum as u64).as_str(),
    )
}

fn minimum_of(request: &ContextRequest) -> (r: usize)
    ensures
        r == requested_minimum(*request),
{
    match request.minimum_fragments_per_focus_path {
        Some(minimum) => minimum,
        None => if request.strict_focus_paths {
            1
        } else {
            0
        },
    }
}

/// Adds what one focus pattern brings.
#[verifier::rlimit(40)]
fn expand_pattern(
    expansion: &FocusExpansion<'_>,
    index: usize,
    candidates: &mut Vec<Candidate>,
    warnings: &mut Vec<String>,
    phases: &mut ContextPhaseTracker,
)
    requires
        index < expansion.request.focus_paths@.len(),
        index < expansion.resolutions@.len(),
    ensures
        forall|start: FocusOutcome|
            #![trigger focus_outcome(start, *expansion, index as int)]
            focus_outcome(start, *expansion, index as int) == (FocusOutcome {
                candidates: views(old(candidates)@),
                warnings: texts(old(warnings)@),
                tracker: old(phases)@,
            }) ==> focus_outcome(start, *expansion, index + 1) == (FocusOutcome {
                candidates: views(final(candidates)@),
                warnings: texts(final(warnings)@),
                tracker: final(phases)@,
            }),
{
    let ghost given = views(candidates@);
    let ghost told = texts(warnings@);
    let pattern = expansion.request.focus_paths[index].as_str();
    let resolution = &expansion.resolutions[index];
    proof {
        assert(texts(expansion.request.focus_paths@)[index as int] == pattern@);
        assert(views(expansion.resolutions@)[index as int] == resolution@);
        assert(resolution@.files.len() == resolution.files@.len());
    }
    push_said(
        warnings,
        resolution.eligible_paths > MAX_CONTEXT_FOCUS_FILES_PER_PATTERN,
        wide_text(pattern, resolution.eligible_paths),
    );
    if resolution.files.len() == 0 {
        let text = appended(
            pattern_text(pattern),
            "` has no candidate-eligible indexed path after include, exclude, generated-artifact, and strict changed-scope policy",
        );
        push_said(warnings, resolution.indexed_paths > 0, text);
        return;
    }
    let (semantic, fallback) = find_focus(expansion, pattern, &resolution.files, phases);
    assert(views(semantic@).len() == semantic@.len());
    let chosen = if semantic.len() == 0 {
        fallback
    } else {
        semantic
    };
    let selected = sort_by(chosen, focus_precedes, Ghost(more_relevant()));
    assert(views(selected@).len() == selected@.len());
    let mut retained = retain_selected(selected, index);
    let ghost more = views(retained@);
    assert(more.len() == retained@.len());
    let count: usize = retained.len();
    candidates.append(&mut retained);
    assert(views(candidates@) =~= given + more);
    let minimum: usize = minimum_of(expansion.request);
    push_said(
        warnings,
        count == 0,
        appended(
            pattern_text(pattern),
            "` matched indexed files without bounded chunk evidence",
        ),
    );
    push_said(warnings, 0 < count && count < minimum, few_text(pattern, count, minimum));
}

impl Services {
    /// Adds the candidates that the focus patterns of a request ask for, where it
    /// holds the selection to them. Tells what is to be warned of.
    pub fn append_focus_candidates(
        expansion: &FocusExpansion<'_>,
        candidates: &mut Vec<Candidate>,
        phases: &mut ContextPhaseTracker,
    ) -> (r: Vec<String>)
        ensures
            ({
                let request = *expansion.request;
                let asked = request.strict_focus_paths
                    || request.minimum_fragments_per_focus_path is Some;
                let count = crate::context::delivery::decided(
                    request.focus_paths@.len(),
                    expansion.resolutions@.len(),
                ) as int;
                let start = FocusOutcome {
                    candidates: views(old(candidates)@),
                    warnings: Seq::empty(),
                    tracker: old(phases)@,
                };
                (FocusOutcome {
                    candidates: views(final(candidates)@),
                    warnings: texts(r@),
                    tracker: final(phases)@,
                }) == if asked {
                    focus_outcome(start, *expansion, count)
                } else {
                    start
                }
            }),
    {
        let mut warnings: Vec<String> = Vec::new();
        assert(texts(warnings@) =~= Seq::<Seq<char>>::empty());
        let request = expansion.request;
        if !request.strict_focus_paths && request.minimum_fragments_per_focus_path.is_none() {
            return warnings;
        }
        let ghost start = FocusOutcome {
            candidates: views(candidates@),
            warnings: Seq::empty(),
            tracker: phases@,
        };
        let mut i: usize = 0;
        while i < request.focus_paths.len() && i < expansion.resolutions.len()
            invariant
                i <= request.focus_paths.len(),
                i <= expansion.resolutions.len(),
                request == expansion.request,
                focus_outcome(start, *expansion, i as int) == (FocusOutcome {
                    candidates: views(candidates@),
                    warnings: texts(warnings@),
                    tracker: phases@,
                }),
            decreases request.focus_paths.len() - i,
        {
            expand_pattern(expansion, i, candidates, &mut warnings, phases);
            i += 1;
        }
        warnings
    }
}

} // verus!
