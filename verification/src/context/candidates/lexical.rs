//! The candidates that the search for one query finds.

use crate::context::candidates::graph::change_points;
use crate::context::candidates::draft::{
    annotate_candidate, annotated, plain, qualified_symbol_match, qualifies, record_query_hit,
    with_hit, Candidate, CandidateView, FusionHit, FusionView, LexicalSignal, LineRange,
};
use crate::context::delivery::{flag_at, flags_set};
use crate::context::diagnostics::{
    after_adaptive, after_locations, after_stored, counted, AdaptiveExcerptRequest,
    noted, ContextPhaseCounters, ContextPhaseTracker, FileLine, StoredExcerptRequest,
    TrackerView,
};
use crate::context::facets::{ContextQuery, Vocabulary};
use crate::context::path_score::{path_points, ContextPathScorer};
use crate::context::scope_helpers::{excerpt_budget, excerpt_tokens, ContextExcerptKind};
use crate::error::{Error, Fault};
use crate::model::ContextRequest;
use crate::ordered::views;
use crate::response::optional_view;
use crate::services::Services;
use crate::text::{
    appended, byte_len, byte_len_push, byte_len_take, char_bytes, char_count, chars_of, copy_text,
    decimal, decimal_text, join_texts, joined_by, only, optional_text, pieces, pieces_exist,
    split_on, texts,
};
use vstd::prelude::*;

verus! {

/// The most symbols, and references, that one query brings.
pub const MAX_CONTEXT_HITS_PER_SOURCE: usize = 20;

/// The most text chunks that one query brings.
pub const MAX_CONTEXT_LEXICAL_HITS: usize = 30;

/// The number of occurrences at which counting stops.
pub const LEXICAL_OCCURRENCE_SATURATION: usize = 25;

/// A symbol that a search found. `exact` says that the query names it.
#[derive(Debug)]
pub struct SymbolHit {
    pub path: String,
    pub generation: u64,
    pub file_id: i64,
    pub name: String,
    pub parent: Option<String>,
    pub signature: Option<String>,
    pub start_line: usize,
    pub end_line: usize,
    pub exact: bool,
}

/// What a [`SymbolHit`] says.
pub struct SymbolHitView {
    pub path: Seq<char>,
    pub generation: u64,
    pub file_id: i64,
    pub name: Seq<char>,
    pub parent: Option<Seq<char>>,
    pub signature: Option<Seq<char>>,
    pub start_line: usize,
    pub end_line: usize,
    pub exact: bool,
}

impl View for SymbolHit {
    type V = SymbolHitView;

    open spec fn view(&self) -> SymbolHitView {
        SymbolHitView {
            path: self.path@,
            generation: self.generation,
            file_id: self.file_id,
            name: self.name@,
            parent: optional_text(self.parent),
            signature: optional_text(self.signature),
            start_line: self.start_line,
            end_line: self.end_line,
            exact: self.exact,
        }
    }
}

/// A reference that a search found.
#[derive(Debug)]
pub struct ReferenceHit {
    pub path: String,
    pub generation: u64,
    pub file_id: i64,
    pub name: String,
    pub start_line: usize,
    pub end_line: usize,
}

/// What a [`ReferenceHit`] says.
pub struct ReferenceHitView {
    pub path: Seq<char>,
    pub generation: u64,
    pub file_id: i64,
    pub name: Seq<char>,
    pub start_line: usize,
    pub end_line: usize,
}

impl View for ReferenceHit {
    type V = ReferenceHitView;

    open spec fn view(&self) -> ReferenceHitView {
        ReferenceHitView {
            path: self.path@,
            generation: self.generation,
            file_id: self.file_id,
            name: self.name@,
            start_line: self.start_line,
            end_line: self.end_line,
        }
    }
}

/// A chunk of text that a search found, with its score in millionths.
#[derive(Debug)]
pub struct ChunkHit {
    pub path: String,
    pub generation: u64,
    pub file_id: i64,
    pub content: String,
    pub start_line: usize,
    pub score: u64,
}

/// What a [`ChunkHit`] says.
pub struct ChunkHitView {
    pub path: Seq<char>,
    pub generation: u64,
    pub file_id: i64,
    pub content: Seq<char>,
    pub start_line: usize,
    pub score: u64,
}

impl View for ChunkHit {
    type V = ChunkHitView;

    open spec fn view(&self) -> ChunkHitView {
        ChunkHitView {
            path: self.path@,
            generation: self.generation,
            file_id: self.file_id,
            content: self.content@,
            start_line: self.start_line,
            score: self.score,
        }
    }
}

/// Lines of a file with their text.
#[derive(Debug)]
pub struct StoredExcerpt {
    pub content: String,
    pub start_line: usize,
    pub end_line: usize,
}

/// What a [`StoredExcerpt`] says.
pub struct ExcerptView {
    pub content: Seq<char>,
    pub start_line: usize,
    pub end_line: usize,
}

impl View for StoredExcerpt {
    type V = ExcerptView;

    open spec fn view(&self) -> ExcerptView {
        ExcerptView {
            content: self.content@,
            start_line: self.start_line,
            end_line: self.end_line,
        }
    }
}

impl StoredExcerpt {
    /// A copy.
    pub fn duplicate(&self) -> (r: StoredExcerpt)
        ensures
            r@ == self@,
    {
        StoredExcerpt {
            content: self.content.clone(),
            start_line: self.start_line,
            end_line: self.end_line,
        }
    }
}

/// What answers to requests for excerpts say.
pub open spec fn excerpts(list: Seq<Option<StoredExcerpt>>) -> Seq<Option<ExcerptView>> {
    Seq::new(list.len(), |i: int| optional_view(list[i]))
}

/// An answer, or none where it is missing.
pub open spec fn answer_at(answers: Seq<Option<ExcerptView>>, i: int) -> Option<ExcerptView> {
    if 0 <= i < answers.len() {
        answers[i]
    } else {
        None
    }
}

/// The answers to what was asked about the marked ones of a list, each in the
/// place of what it was asked about.
pub open spec fn scattered(asked: Seq<bool>, answers: Seq<Option<ExcerptView>>) -> Seq<
    Option<ExcerptView>,
> {
    Seq::new(
        asked.len(),
        |i: int|
            if asked[i] {
                answer_at(answers, flags_set(asked, i) as int)
            } else {
                None
            },
    )
}

fn copy_answer(answers: &Vec<Option<StoredExcerpt>>, i: usize) -> (r: Option<StoredExcerpt>)
    ensures
        optional_view(r) == answer_at(excerpts(answers@), i as int),
{
    if i < answers.len() {
        match &answers[i] {
            Some(excerpt) => Some(excerpt.duplicate()),
            None => None,
        }
    } else {
        None
    }
}

/// Puts answers in the places of what they were asked about.
pub fn scatter(asked: &Vec<bool>, answers: &Vec<Option<StoredExcerpt>>) -> (r: Vec<
    Option<StoredExcerpt>,
>)
    ensures
        excerpts(r@) == scattered(asked@, excerpts(answers@)),
{
    let ghost all = scattered(asked@, excerpts(answers@));
    let mut out: Vec<Option<StoredExcerpt>> = Vec::new();
    let mut next: usize = 0;
    let mut i: usize = 0;
    assert(excerpts(out@) =~= all.take(0));
    while i < asked.len()
        invariant
            i <= asked.len(),
            next <= i,
            next == flags_set(asked@, i as int),
            all == scattered(asked@, excerpts(answers@)),
            excerpts(out@) == all.take(i as int),
        decreases asked.len() - i,
    {
        let ghost before = excerpts(out@);
        let item = if asked[i] {
            copy_answer(answers, next)
        } else {
            None
        };
        let ghost added = optional_view(item);
        out.push(item);
        assert(excerpts(out@) =~= before.push(added));
        assert(added == all[i as int]);
        assert(excerpts(out@) =~= all.take(i + 1));
        if asked[i] {
            next += 1;
        }
        i += 1;
    }
    assert(all.take(all.len() as int) =~= all);
    out
}

/// The byte ranges, in ascending order, at which a text occurs in another with
/// letter case aside.
pub uninterp spec fn literal_matches(pattern: Seq<char>, content: Seq<char>) -> Seq<(usize, usize)>;

/// The most characters of a text that is surely searched for.
pub const MAX_LITERAL_CHARS: usize = 1024;

/// `Regex::find_iter` of a pattern that `regex::escape` quotes and that ignores
/// letter case gives the byte ranges at which the text occurs. A pattern whose
/// compiled form outgrows ten megabytes is refused, which takes far more than
/// `MAX_LITERAL_CHARS`; how much more is not said.
#[verifier::external_body]
fn find_literal(pattern: &str, content: &str) -> (r: Option<Vec<(usize, usize)>>)
    ensures
        pattern@.len() <= MAX_LITERAL_CHARS ==> r is Some,
        r matches Some(list) ==> list@ == literal_matches(pattern@, content@),
{
    let quoted = regex::escape(pattern);
    let matcher = match regex::RegexBuilder::new(&quoted).case_insensitive(true).build() {
        Ok(matcher) => matcher,
        Err(_) => return None,
    };
    Some(matcher.find_iter(content).map(|found| (found.start(), found.end())).collect())
}

/// The number of line feeds of a text that begin before a byte.
pub open spec fn line_of(content: Seq<char>, offset: usize) -> nat
    decreases content.len(),
{
    if content.len() == 0 {
        0
    } else {
        line_of(content.drop_last(), offset) + if content.last() == '\n' && byte_len(
            content.drop_last(),
        ) < offset {
            1nat
        } else {
            0
        }
    }
}

/// The lesser of two numbers.
pub open spec fn lesser(a: int, b: int) -> int {
    if a < b {
        a
    } else {
        b
    }
}

proof fn lines_hold_feeds(content: Seq<char>, a: usize, b: usize)
    requires
        a <= b,
    ensures
        line_of(content, a) <= line_of(content, b),
        line_of(content, b) < pieces(content, only('\n')).len(),
    decreases content.len(),
{
    if content.len() > 0 {
        lines_hold_feeds(content.drop_last(), a, b);
    }
}

proof fn no_more_feeds(content: Seq<char>, offset: usize, i: int)
    requires
        0 <= i <= content.len(),
        byte_len(content.take(i)) >= offset,
    ensures
        line_of(content, offset) == line_of(content.take(i), offset),
    decreases content.len(),
{
    if i < content.len() {
        let front = content.drop_last();
        assert(front.take(i) =~= content.take(i));
        no_more_feeds(front, offset, i);
        assert(content.take(content.len() - 1) =~= front);
        byte_len_take(content, i, content.len() - 1);
    } else {
        assert(content.take(i) =~= content);
    }
}

fn count_feeds(content: &str, offset: usize) -> (r: usize)
    ensures
        r == line_of(content@, offset),
{
    let chars = chars_of(content);
    let mut bytes: usize = 0;
    let mut count: usize = 0;
    let mut i: usize = 0;
    assert(chars@.take(0) =~= Seq::<char>::empty());
    while i < chars.len() && bytes < offset
        invariant
            i <= chars.len(),
            chars@ == content@,
            bytes < offset ==> bytes == byte_len(chars@.take(i as int)),
            bytes >= offset ==> byte_len(chars@.take(i as int)) >= offset,
            count == line_of(chars@.take(i as int), offset),
            count <= i,
        decreases chars.len() - i,
    {
        proof {
            assert(chars@.take(i + 1).drop_last() =~= chars@.take(i as int));
            assert(chars@.take(i + 1) =~= chars@.take(i as int).push(chars@[i as int]));
            byte_len_push(chars@.take(i as int), chars@[i as int]);
        }
        if chars[i] == '\n' {
            count += 1;
        }
        bytes = bytes.saturating_add(char_bytes(chars[i]));
        i += 1;
    }
    proof {
        if i < chars.len() {
            no_more_feeds(chars@, offset, i as int);
        } else {
            assert(chars@.take(i as int) =~= chars@);
        }
    }
    count
}

/// What a search says of a chunk: how often a query occurs, where first, and the
/// lines round that place.
#[derive(Debug)]
pub struct LexicalMatchFacts {
    pub excerpt: StoredExcerpt,
    pub matched_line: usize,
    pub occurrences: usize,
}

/// What a [`LexicalMatchFacts`] says.
pub struct FactsView {
    pub excerpt: ExcerptView,
    pub matched_line: usize,
    pub occurrences: usize,
}

impl View for LexicalMatchFacts {
    type V = FactsView;

    open spec fn view(&self) -> FactsView {
        FactsView {
            excerpt: self.excerpt@,
            matched_line: self.matched_line,
            occurrences: self.occurrences,
        }
    }
}

/// A line number, at most the largest number.
pub open spec fn line_number(start: usize, more: nat) -> usize {
    if start + more > usize::MAX {
        usize::MAX
    } else {
        (start + more) as usize
    }
}

/// The first of the lines that are shown round a line.
pub open spec fn lines_from(first: nat, context: usize) -> nat {
    if first > context {
        (first - context) as nat
    } else {
        0
    }
}

/// The last of the lines that are shown round a line.
pub open spec fn lines_to(last: nat, context: usize, lines: nat) -> nat {
    lesser(last + context, lines - 1) as nat
}

/// What a search says of a chunk with matches. This is how this library defines it: the
/// line of the first match, the lines round it, and the number of matches.
pub open spec fn facts_of(
    hit: ChunkHitView,
    matches: Seq<(usize, usize)>,
    context_lines: usize,
) -> FactsView {
    let lines = pieces(hit.content, only('\n'));
    let first = line_of(hit.content, matches[0].0);
    let end = if matches[0].1 > matches[0].0 {
        (matches[0].1 - 1) as usize
    } else {
        matches[0].0
    };
    let from = lines_from(first, context_lines);
    let to = lines_to(line_of(hit.content, end), context_lines, lines.len());
    FactsView {
        excerpt: ExcerptView {
            content: joined_by(lines.subrange(from as int, (to + 1) as int), "\n"@),
            start_line: line_number(hit.start_line, from),
            end_line: line_number(hit.start_line, to),
        },
        matched_line: line_number(hit.start_line, first),
        occurrences: lesser(matches.len() as int, LEXICAL_OCCURRENCE_SATURATION as int) as usize,
    }
}

/// What a search for a term says of a chunk, where the term occurs.
pub open spec fn lexical_facts(hit: ChunkHitView, term: Seq<char>, context_lines: usize) -> Option<
    FactsView,
> {
    let matches = literal_matches(term, hit.content);
    if matches.len() == 0 {
        None
    } else {
        Some(facts_of(hit, matches, context_lines))
    }
}

fn copy_lines(lines: &Vec<String>, from: usize, to: usize) -> (r: Vec<String>)
    requires
        from <= to < lines@.len(),
    ensures
        texts(r@) == texts(lines@).subrange(from as int, to + 1),
{
    let ghost all = texts(lines@);
    let mut out: Vec<String> = Vec::new();
    let mut i: usize = from;
    assert(texts(out@) =~= all.subrange(from as int, from as int));
    while i <= to
        invariant
            from <= i <= to + 1,
            to < lines.len(),
            all == texts(lines@),
            texts(out@) == all.subrange(from as int, i as int),
        decreases to + 1 - i,
    {
        let ghost before = texts(out@);
        out.push(lines[i].clone());
        assert(texts(out@) =~= before.push(lines@[i as int]@));
        assert(texts(out@) =~= all.subrange(from as int, i + 1));
        i += 1;
    }
    out
}

/// Tells how often a query occurs in a chunk, given the byte ranges of its
/// occurrences, and shows the lines round the first one.
pub fn match_facts(hit: &ChunkHit, matches: &Vec<(usize, usize)>, context_lines: usize) -> (r:
    Option<LexicalMatchFacts>)
    ensures
        optional_view(r) == if matches@.len() == 0 {
            None
        } else {
            Some(facts_of(hit@, matches@, context_lines))
        },
{
    if matches.len() == 0 {
        return None;
    }
    let lines = split_on(hit.content.as_str(), '\n');
    let ghost all = pieces(hit.content@, only('\n'));
    proof {
        pieces_exist(hit.content@, only('\n'));
        assert(texts(lines@).len() == lines@.len());
    }
    let (start, stop) = matches[0];
    let end: usize = if stop > start {
        stop - 1
    } else {
        start
    };
    let first: usize = count_feeds(hit.content.as_str(), start);
    let last: usize = count_feeds(hit.content.as_str(), end);
    let final_line: usize = lines.len() - 1;
    let wide: usize = last.saturating_add(context_lines);
    let to: usize = if wide < final_line {
        wide
    } else {
        final_line
    };
    let from: usize = first.saturating_sub(context_lines);
    proof {
        lines_hold_feeds(hit.content@, start, end);
        assert(first <= last);
        assert(to == lines_to(last as nat, context_lines, all.len()));
    }
    let shown = copy_lines(&lines, from, to);
    Some(
        LexicalMatchFacts {
            excerpt: StoredExcerpt {
                content: join_texts(&shown, "\n"),
                start_line: hit.start_line.saturating_add(from),
                end_line: hit.start_line.saturating_add(to),
            },
            matched_line: hit.start_line.saturating_add(first),
            occurrences: if matches.len() < LEXICAL_OCCURRENCE_SATURATION {
                matches.len()
            } else {
                LEXICAL_OCCURRENCE_SATURATION
            },
        },
    )
}

/// What is reported of a term that is too large to be searched for.
pub open spec fn too_large(e: Error) -> bool {
    e@ == Fault::OperationFailure("search expression does not compile"@)
}

/// Tells how often a term occurs in a chunk and shows the lines round the first
/// occurrence. A term that is too large to be searched for is an error.
pub fn analyze_lexical_match(hit: &ChunkHit, term: &str, context_lines: usize) -> (r: Result<
    Option<LexicalMatchFacts>,
    Error,
>)
    ensures
        term@.len() <= MAX_LITERAL_CHARS ==> r is Ok,
        match r {
            Ok(facts) => optional_view(facts) == lexical_facts(hit@, term@, context_lines),
            Err(e) => too_large(e),
        },
{
    match find_literal(term, hit.content.as_str()) {
        Some(matches) => Ok(match_facts(hit, &matches, context_lines)),
        None => Err(Error::OperationFailure(copy_text("search expression does not compile"))),
    }
}

/// The lines that are shown round a match.
pub const LEXICAL_CONTEXT_LINES: usize = 2;

/// Whether `facts` are what a search for a term says of chunks.
pub open spec fn chunks_analyzed(
    chunks: Seq<ChunkHitView>,
    term: Seq<char>,
    facts: Seq<Option<LexicalMatchFacts>>,
) -> bool {
    &&& facts.len() == chunks.len()
    &&& forall|i: int|
        0 <= i < chunks.len() ==> optional_view(#[trigger] facts[i]) == lexical_facts(
            chunks[i],
            term,
            LEXICAL_CONTEXT_LINES,
        )
}

/// Tells of each chunk how often a term occurs in it and which lines show it.
pub fn analyze_chunks(chunks: &Vec<ChunkHit>, term: &str) -> (r: Result<
    Vec<Option<LexicalMatchFacts>>,
    Error,
>)
    ensures
        term@.len() <= MAX_LITERAL_CHARS ==> r is Ok,
        match r {
            Ok(facts) => chunks_analyzed(views(chunks@), term@, facts@),
            Err(e) => too_large(e),
        },
{
    let mut out: Vec<Option<LexicalMatchFacts>> = Vec::new();
    let mut i: usize = 0;
    while i < chunks.len()
        invariant
            i <= chunks.len(),
            out@.len() == i,
            forall|k: int|
                0 <= k < i ==> optional_view(#[trigger] out@[k]) == lexical_facts(
                    views(chunks@)[k],
                    term@,
                    LEXICAL_CONTEXT_LINES,
                ),
        decreases chunks.len() - i,
    {
        match analyze_lexical_match(&chunks[i], term, LEXICAL_CONTEXT_LINES) {
            Ok(facts) => {
                assert(views(chunks@)[i as int] == chunks@[i as int]@);
                out.push(facts);
            },
            Err(e) => {
                return Err(e);
            },
        }
        i += 1;
    }
    Ok(out)
}

/// What the searches for one query brought. Requests for excerpts are answered in
/// their order; `passed_over` are the paths that the searches met out of scope, and
/// `allowed` and `lexical_facts` go with the chunks, the latter as
/// [`analyze_chunks`] tells them.
#[derive(Debug)]
pub struct QueryEvidence {
    pub symbols: Vec<SymbolHit>,
    pub symbol_excerpts: Vec<Option<StoredExcerpt>>,
    pub references: Vec<ReferenceHit>,
    pub enclosing: Vec<Option<LineRange>>,
    pub reference_excerpts: Vec<Option<StoredExcerpt>>,
    pub reference_fallbacks: Vec<Option<StoredExcerpt>>,
    pub lexical_kind: LexicalSearch,
    pub passed_over: Vec<String>,
    pub chunks: Vec<ChunkHit>,
    pub allowed: Vec<bool>,
    pub lexical_facts: Vec<Option<LexicalMatchFacts>>,
    pub lexical_enclosing: Vec<Option<LineRange>>,
    pub lexical_excerpts: Vec<Option<StoredExcerpt>>,
    pub lexical_fallbacks: Vec<Option<StoredExcerpt>>,
}

/// How text chunks are searched for.
#[derive(Debug, Clone, Copy, PartialEq, Eq, Structural)]
pub enum LexicalSearch {
    FullScan,
    Word,
    FoldedWord,
    Trigram,
    FoldedTrigram,
}

impl LexicalSearch {
    /// The name of the search.
    pub open spec fn label(self) -> Seq<char> {
        match self {
            LexicalSearch::FullScan => "unicode_case_fold_full_scan"@,
            LexicalSearch::Word => "word"@,
            LexicalSearch::FoldedWord => "unicode_case_fold_word"@,
            LexicalSearch::Trigram => "trigram"@,
            LexicalSearch::FoldedTrigram => "unicode_case_fold_trigram"@,
        }
    }

    /// The name of the search.
    pub fn name(self) -> (r: String)
        ensures
            r@ == self.label(),
    {
        match self {
            LexicalSearch::FullScan => copy_text("unicode_case_fold_full_scan"),
            LexicalSearch::Word => copy_text("word"),
            LexicalSearch::FoldedWord => copy_text("unicode_case_fold_word"),
            LexicalSearch::Trigram => copy_text("trigram"),
            LexicalSearch::FoldedTrigram => copy_text("unicode_case_fold_trigram"),
        }
    }
}

/// How text chunks are searched for a term. `folded` tells whether letter case
/// gives the term further variants, and is missing where they cannot be listed.
pub fn lexical_search(term: &str, folded: Option<bool>) -> (r: LexicalSearch)
    ensures
        r == match folded {
            None => LexicalSearch::FullScan,
            Some(expanded) => if term@.len() < 3 {
                if expanded {
                    LexicalSearch::FoldedWord
                } else {
                    LexicalSearch::Word
                }
            } else if expanded {
                LexicalSearch::FoldedTrigram
            } else {
                LexicalSearch::Trigram
            },
        },
{
    let expanded = match folded {
        Some(expanded) => expanded,
        None => {
            return LexicalSearch::FullScan;
        },
    };
    if char_count(term) < 3 {
        if expanded {
            LexicalSearch::FoldedWord
        } else {
            LexicalSearch::Word
        }
    } else if expanded {
        LexicalSearch::FoldedTrigram
    } else {
        LexicalSearch::Trigram
    }
}

/// What a query is expanded with.
pub struct QueryExpansion<'a> {
    pub request: &'a ContextRequest,
    pub query: &'a ContextQuery,
    pub changed_paths: &'a Vec<String>,
    pub path_scorer: &'a ContextPathScorer,
    pub vocabulary: &'a Vocabulary,
    pub caller: bool,
}

/// What was gathered for a request.
#[derive(Debug)]
pub struct Gathered {
    pub candidates: Vec<Candidate>,
    pub fusion: Vec<FusionHit>,
    pub path_excluded: Vec<String>,
}

/// What a [`Gathered`] says.
pub struct GatheredView {
    pub candidates: Seq<CandidateView>,
    pub fusion: Seq<FusionView>,
    pub path_excluded: Seq<Seq<char>>,
}

impl View for Gathered {
    type V = GatheredView;

    open spec fn view(&self) -> GatheredView {
        GatheredView {
            candidates: views(self.candidates@),
            fusion: views(self.fusion@),
            path_excluded: texts(self.path_excluded@),
        }
    }
}

/// What was gathered, with one more candidate on a path of a query.
pub open spec fn with_candidate(
    gathered: GatheredView,
    expansion: QueryExpansion<'_>,
    path: Seq<char>,
    rank: usize,
    candidate: CandidateView,
    channel: Seq<char>,
) -> GatheredView {
    GatheredView {
        candidates: gathered.candidates.push(
            annotated(candidate, expansion.query@, channel, rank),
        ),
        fusion: if expansion.query.fuse {
            with_hit(
                gathered.fusion,
                path,
                expansion.query.fusion_key@,
                expansion.query.weight,
                rank,
            )
        } else {
            gathered.fusion
        },
        ..gathered
    }
}

fn add_candidate(
    gathered: &mut Gathered,
    expansion: &QueryExpansion<'_>,
    path: &str,
    rank: usize,
    candidate: Candidate,
    channel: &str,
)
    ensures
        final(gathered)@ == with_candidate(
            old(gathered)@,
            *expansion,
            path@,
            rank,
            candidate@,
            channel@,
        ),
{
    if expansion.query.fuse {
        record_query_hit(
            &mut gathered.fusion,
            path,
            expansion.query.fusion_key.as_str(),
            expansion.query.weight,
            rank,
        );
    }
    let ghost before = views(gathered.candidates@);
    let item = annotate_candidate(candidate, expansion.query, channel, rank);
    let ghost added = item@;
    gathered.candidates.push(item);
    assert(views(gathered.candidates@) =~= before.push(added));
}

/// The boost of a file that changed.
pub open spec fn boost_of(expansion: QueryExpansion<'_>, generation: u64, path: Seq<char>) -> u32 {
    change_points(
        Some(generation),
        path,
        texts(expansion.changed_paths@),
        expansion.request.prior_repository_generation,
    )
}

/// The excerpts that are asked for of symbols.
pub open spec fn symbol_requests(hits: Seq<SymbolHitView>, token_budget: usize) -> Seq<
    AdaptiveExcerptRequest,
> {
    Seq::new(
        hits.len(),
        |i: int|
            AdaptiveExcerptRequest {
                file_id: hits[i].file_id,
                declaration_start: hits[i].start_line,
                declaration_end: hits[i].end_line,
                matched_line: hits[i].start_line,
                token_budget: excerpt_tokens(token_budget, ContextExcerptKind::Symbol),
                selection_budget: Some(token_budget),
            },
    )
}

/// The excerpts that are asked for of symbols.
pub fn symbol_excerpt_requests(hits: &Vec<SymbolHit>, token_budget: usize) -> (r: Vec<
    AdaptiveExcerptRequest,
>)
    ensures
        r@ == symbol_requests(views(hits@), token_budget),
{
    let ghost all = symbol_requests(views(hits@), token_budget);
    let mut out: Vec<AdaptiveExcerptRequest> = Vec::new();
    let mut i: usize = 0;
    assert(out@ =~= all.take(0));
    while i < hits.len()
        invariant
            i <= hits.len(),
            all == symbol_requests(views(hits@), token_budget),
            out@ == all.take(i as int),
        decreases hits.len() - i,
    {
        out.push(
            AdaptiveExcerptRequest {
                file_id: hits[i].file_id,
                declaration_start: hits[i].start_line,
                declaration_end: hits[i].end_line,
                matched_line: hits[i].start_line,
                token_budget: excerpt_budget(token_budget, ContextExcerptKind::Symbol),
                selection_budget: Some(token_budget),
            },
        );
        assert(views(hits@)[i as int] == hits@[i as int]@);
        assert(out@ =~= all.take(i + 1));
        i += 1;
    }
    assert(all.take(all.len() as int) =~= all);
    out
}

/// The lines of a symbol as a candidate.
pub open spec fn symbol_candidate(
    expansion: QueryExpansion<'_>,
    hit: SymbolHitView,
    excerpt: ExcerptView,
) -> CandidateView {
    let concept = expansion.query.fusion_key@;
    let qualified = qualifies(concept, hit.name, hit.parent, hit.signature, *expansion.vocabulary);
    CandidateView {
        symbol_name: Some(hit.name),
        exact: ((if hit.exact {
            100int
        } else {
            0
        }) + (if qualified {
            150int
        } else {
            0
        })) as u32,
        symbol: 100,
        path_score: path_points(expansion.path_scorer@, hit.path),
        change_boost: boost_of(expansion, hit.generation, hit.path),
        ..plain(hit.path, excerpt.start_line, excerpt.end_line, excerpt.content).found_as(
            "symbol"@,
        ).about(concept, expansion.query.concept_weight).shown_as("symbol"@)
    }
}

/// What was gathered, with the first `upto` symbols of a query that have an
/// excerpt.
pub open spec fn with_symbols(
    gathered: GatheredView,
    expansion: QueryExpansion<'_>,
    hits: Seq<SymbolHitView>,
    shown: Seq<Option<ExcerptView>>,
    upto: int,
) -> GatheredView
    decreases upto,
{
    if upto <= 0 || upto > hits.len() {
        gathered
    } else {
        let before = with_symbols(gathered, expansion, hits, shown, upto - 1);
        let hit = hits[upto - 1];
        match answer_at(shown, upto - 1) {
            Some(excerpt) => with_candidate(
                before,
                expansion,
                hit.path,
                (upto - 1) as usize,
                symbol_candidate(expansion, hit, excerpt),
                "symbol"@,
            ),
            None => before,
        }
    }
}

fn points(exact: bool, qualified: bool) -> (r: u32)
    ensures
        r == (if exact {
            100int
        } else {
            0
        }) + (if qualified {
            150int
        } else {
            0
        }),
{
    if exact && qualified {
        250
    } else if qualified {
        150
    } else if exact {
        100
    } else {
        0
    }
}

fn make_symbol_candidate(
    expansion: &QueryExpansion<'_>,
    hit: &SymbolHit,
    excerpt: &StoredExcerpt,
) -> (r: Candidate)
    ensures
        r@ == symbol_candidate(*expansion, hit@, excerpt@),
{
    let qualified = qualified_symbol_match(
        expansion.query.fusion_key.as_str(),
        hit.name.as_str(),
        &hit.parent,
        &hit.signature,
        expansion.vocabulary,
    );
    let mut candidate = Candidate::new(
        hit.path.as_str(),
        excerpt.start_line,
        excerpt.end_line,
        excerpt.content.as_str(),
    ).match_kind("symbol").concept(
        expansion.query.fusion_key.as_str(),
        expansion.query.concept_weight,
    ).representation("symbol");
    candidate.symbol_name = Some(hit.name.clone());
    candidate.exact = points(hit.exact, qualified);
    candidate.symbol = 100;
    candidate.path_score = expansion.path_scorer.score(hit.path.as_str());
    candidate.change_boost = Services::file_change_boost(
        Some(hit.generation),
        hit.path.as_str(),
        expansion.changed_paths,
        expansion.request.prior_repository_generation,
    );
    candidate
}

fn append_symbols(
    gathered: &mut Gathered,
    expansion: &QueryExpansion<'_>,
    hits: &Vec<SymbolHit>,
    shown: &Vec<Option<StoredExcerpt>>,
)
    ensures
        final(gathered)@ == with_symbols(
            old(gathered)@,
            *expansion,
            views(hits@),
            excerpts(shown@),
            hits@.len() as int,
        ),
{
    let ghost start = gathered@;
    let ghost all = views(hits@);
    let mut i: usize = 0;
    while i < hits.len()
        invariant
            i <= hits.len(),
            all == views(hits@),
            all.len() == hits@.len(),
            gathered@ == with_symbols(start, *expansion, all, excerpts(shown@), i as int),
        decreases hits.len() - i,
    {
        assert(all[i as int] == hits@[i as int]@);
        if i < shown.len() {
            assert(excerpts(shown@)[i as int] == optional_view(shown@[i as int]));
            if let Some(excerpt) = &shown[i] {
                let candidate = make_symbol_candidate(expansion, &hits[i], excerpt);
                add_candidate(gathered, expansion, hits[i].path.as_str(), i, candidate, "symbol");
            }
        }
        i += 1;
    }
}

/// Which of the first `count` places have an enclosing symbol.
pub open spec fn enclosed(enclosing: Seq<Option<LineRange>>, count: nat) -> Seq<bool> {
    Seq::new(count, |i: int| i < enclosing.len() && enclosing[i] is Some)
}

/// Which answers are missing.
pub open spec fn missing(answers: Seq<Option<ExcerptView>>) -> Seq<bool> {
    Seq::new(answers.len(), |i: int| answers[i] is None)
}

/// Answers, and in the place of missing ones others.
pub open spec fn completed(
    answers: Seq<Option<ExcerptView>>,
    others: Seq<Option<ExcerptView>>,
) -> Seq<Option<ExcerptView>> {
    Seq::new(
        answers.len(),
        |i: int|
            if answers[i] is Some {
                answers[i]
            } else {
                answer_at(others, i)
            },
    )
}

pub(crate) fn mark_enclosed(enclosing: &Vec<Option<LineRange>>, count: usize) -> (r: Vec<bool>)
    ensures
        r@ == enclosed(enclosing@, count as nat),
{
    let ghost all = enclosed(enclosing@, count as nat);
    let mut out: Vec<bool> = Vec::new();
    let mut i: usize = 0;
    assert(out@ =~= all.take(0));
    while i < count
        invariant
            i <= count,
            all == enclosed(enclosing@, count as nat),
            out@ == all.take(i as int),
        decreases count - i,
    {
        out.push(i < enclosing.len() && enclosing[i].is_some());
        assert(out@ =~= all.take(i + 1));
        i += 1;
    }
    assert(all.take(all.len() as int) =~= all);
    out
}

pub(crate) fn mark_missing(answers: &Vec<Option<StoredExcerpt>>) -> (r: Vec<bool>)
    ensures
        r@ == missing(excerpts(answers@)),
{
    let ghost all = missing(excerpts(answers@));
    let mut out: Vec<bool> = Vec::new();
    let mut i: usize = 0;
    assert(out@ =~= all.take(0));
    while i < answers.len()
        invariant
            i <= answers.len(),
            all == missing(excerpts(answers@)),
            out@ == all.take(i as int),
        decreases answers.len() - i,
    {
        out.push(answers[i].is_none());
        assert(excerpts(answers@)[i as int] == optional_view(answers@[i as int]));
        assert(out@ =~= all.take(i + 1));
        i += 1;
    }
    assert(all.take(all.len() as int) =~= all);
    out
}

pub(crate) fn complete(answers: &Vec<Option<StoredExcerpt>>, others: &Vec<Option<StoredExcerpt>>) -> (r: Vec<
    Option<StoredExcerpt>,
>)
    ensures
        excerpts(r@) == completed(excerpts(answers@), excerpts(others@)),
{
    let ghost all = completed(excerpts(answers@), excerpts(others@));
    let mut out: Vec<Option<StoredExcerpt>> = Vec::new();
    let mut i: usize = 0;
    assert(excerpts(out@) =~= all.take(0));
    while i < answers.len()
        invariant
            i <= answers.len(),
            all == completed(excerpts(answers@), excerpts(others@)),
            excerpts(out@) == all.take(i as int),
        decreases answers.len() - i,
    {
        let ghost before = excerpts(out@);
        assert(excerpts(answers@)[i as int] == optional_view(answers@[i as int]));
        let item = match &answers[i] {
            Some(excerpt) => Some(excerpt.duplicate()),
            None => copy_answer(others, i),
        };
        let ghost added = optional_view(item);
        assert(added == all[i as int]);
        out.push(item);
        assert(excerpts(out@) =~= before.push(added));
        assert(excerpts(out@) =~= all.take(i + 1));
        i += 1;
    }
    assert(all.take(all.len() as int) =~= all);
    out
}

/// The places of references.
pub open spec fn reference_places(hits: Seq<ReferenceHitView>) -> Seq<FileLine> {
    Seq::new(hits.len(), |i: int| FileLine { file_id: hits[i].file_id, line: hits[i].start_line })
}

/// The excerpts that are asked for of the declarations round the first `upto`
/// references.
pub open spec fn reference_requests(
    hits: Seq<ReferenceHitView>,
    enclosing: Seq<Option<LineRange>>,
    token_budget: usize,
    upto: int,
) -> Seq<AdaptiveExcerptRequest>
    decreases upto,
{
    if upto <= 0 || upto > hits.len() {
        Seq::empty()
    } else {
        let before = reference_requests(hits, enclosing, token_budget, upto - 1);
        if upto <= enclosing.len() && enclosing[upto - 1] is Some {
            before.push(
                AdaptiveExcerptRequest {
                    file_id: hits[upto - 1].file_id,
                    declaration_start: (enclosing[upto - 1]->0).start,
                    declaration_end: (enclosing[upto - 1]->0).end,
                    matched_line: hits[upto - 1].start_line,
                    token_budget: excerpt_tokens(token_budget, ContextExcerptKind::Reference),
                    selection_budget: Some(token_budget),
                },
            )
        } else {
            before
        }
    }
}

/// A line some lines further up, at least the first one.
pub open spec fn lines_above(line: usize, count: usize) -> usize {
    if line > count + 1 {
        (line - count) as usize
    } else {
        1
    }
}

/// The lines that are asked for round a reference.
pub open spec fn reference_lines(hit: ReferenceHitView) -> StoredExcerptRequest {
    StoredExcerptRequest {
        file_id: hit.file_id,
        desired_start_line: lines_above(hit.start_line, 2),
        desired_end_line: line_number(hit.end_line, 2),
        required_start_line: hit.start_line,
        required_end_line: hit.end_line,
        max_lines: 12,
    }
}

/// The lines that are asked for round the first `upto` references without an
/// excerpt.
pub open spec fn fallback_requests(
    hits: Seq<ReferenceHitView>,
    asked: Seq<bool>,
    upto: int,
) -> Seq<StoredExcerptRequest>
    decreases upto,
{
    if upto <= 0 || upto > hits.len() {
        Seq::empty()
    } else {
        let before = fallback_requests(hits, asked, upto - 1);
        if flag_at(asked, upto - 1) {
            before.push(reference_lines(hits[upto - 1]))
        } else {
            before
        }
    }
}

/// The excerpts that are asked for of the declarations round references.
pub fn reference_excerpt_requests(
    hits: &Vec<ReferenceHit>,
    enclosing: &Vec<Option<LineRange>>,
    token_budget: usize,
) -> (r: Vec<AdaptiveExcerptRequest>)
    ensures
        r@ == reference_requests(views(hits@), enclosing@, token_budget, hits@.len() as int),
{
    let ghost all = views(hits@);
    let mut out: Vec<AdaptiveExcerptRequest> = Vec::new();
    let mut i: usize = 0;
    while i < hits.len()
        invariant
            i <= hits.len(),
            all == views(hits@),
            all.len() == hits@.len(),
            out@ == reference_requests(all, enclosing@, token_budget, i as int),
        decreases hits.len() - i,
    {
        assert(all[i as int] == hits@[i as int]@);
        if i < enclosing.len() {
            if let Some(symbol) = &enclosing[i] {
                out.push(
                    AdaptiveExcerptRequest {
                        file_id: hits[i].file_id,
                        declaration_start: symbol.start,
                        declaration_end: symbol.end,
                        matched_line: hits[i].start_line,
                        token_budget: excerpt_budget(token_budget, ContextExcerptKind::Reference),
                        selection_budget: Some(token_budget),
                    },
                );
            }
        }
        i += 1;
    }
    out
}

/// The lines that are asked for round references without an excerpt.
pub fn reference_fallback_requests(hits: &Vec<ReferenceHit>, asked: &Vec<bool>) -> (r: Vec<
    StoredExcerptRequest,
>)
    ensures
        r@ == fallback_requests(views(hits@), asked@, hits@.len() as int),
{
    let ghost all = views(hits@);
    let mut out: Vec<StoredExcerptRequest> = Vec::new();
    let mut i: usize = 0;
    while i < hits.len()
        invariant
            i <= hits.len(),
            all == views(hits@),
            all.len() == hits@.len(),
            out@ == fallback_requests(all, asked@, i as int),
        decreases hits.len() - i,
    {
        assert(all[i as int] == hits@[i as int]@);
        if i < asked.len() && asked[i] {
            let above: usize = hits[i].start_line.saturating_sub(2);
            out.push(
                StoredExcerptRequest {
                    file_id: hits[i].file_id,
                    desired_start_line: if above < 1 {
                        1
                    } else {
                        above
                    },
                    desired_end_line: hits[i].end_line.saturating_add(2),
                    required_start_line: hits[i].start_line,
                    required_end_line: hits[i].end_line,
                    max_lines: 12,
                },
            );
        }
        i += 1;
    }
    out
}

pub(crate) fn places_of(hits: &Vec<ReferenceHit>) -> (r: Vec<FileLine>)
    ensures
        r@ == reference_places(views(hits@)),
{
    let ghost all = reference_places(views(hits@));
    let mut out: Vec<FileLine> = Vec::new();
    let mut i: usize = 0;
    assert(out@ =~= all.take(0));
    while i < hits.len()
        invariant
            i <= hits.len(),
            all == reference_places(views(hits@)),
            out@ == all.take(i as int),
        decreases hits.len() - i,
    {
        out.push(FileLine { file_id: hits[i].file_id, line: hits[i].start_line });
        assert(views(hits@)[i as int] == hits@[i as int]@);
        assert(out@ =~= all.take(i + 1));
        i += 1;
    }
    assert(all.take(all.len() as int) =~= all);
    out
}

/// The lines round a reference as a candidate.
pub open spec fn reference_candidate(
    expansion: QueryExpansion<'_>,
    hit: ReferenceHitView,
    excerpt: ExcerptView,
) -> CandidateView {
    CandidateView {
        symbol_name: Some(hit.name),
        reference: 100,
        path_score: path_points(expansion.path_scorer@, hit.path),
        change_boost: boost_of(expansion, hit.generation, hit.path),
        ..plain(hit.path, excerpt.start_line, excerpt.end_line, excerpt.content).found_as(
            "reference"@,
        ).about(expansion.query.fusion_key@, expansion.query.concept_weight)
    }
}

/// What was gathered, with the first `upto` references of a query that have an
/// excerpt.
pub open spec fn with_references(
    gathered: GatheredView,
    expansion: QueryExpansion<'_>,
    hits: Seq<ReferenceHitView>,
    shown: Seq<Option<ExcerptView>>,
    upto: int,
) -> GatheredView
    decreases upto,
{
    if upto <= 0 || upto > hits.len() {
        gathered
    } else {
        let before = with_references(gathered, expansion, hits, shown, upto - 1);
        let hit = hits[upto - 1];
        match answer_at(shown, upto - 1) {
            Some(excerpt) => with_candidate(
                before,
                expansion,
                hit.path,
                (upto - 1) as usize,
                reference_candidate(expansion, hit, excerpt),
                "reference"@,
            ),
            None => before,
        }
    }
}

fn make_reference_candidate(
    expansion: &QueryExpansion<'_>,
    hit: &ReferenceHit,
    excerpt: &StoredExcerpt,
) -> (r: Candidate)
    ensures
        r@ == reference_candidate(*expansion, hit@, excerpt@),
{
    let mut candidate = Candidate::new(
        hit.path.as_str(),
        excerpt.start_line,
        excerpt.end_line,
        excerpt.content.as_str(),
    ).match_kind("reference").concept(
        expansion.query.fusion_key.as_str(),
        expansion.query.concept_weight,
    );
    candidate.symbol_name = Some(hit.name.clone());
    candidate.reference = 100;
    candidate.path_score = expansion.path_scorer.score(hit.path.as_str());
    candidate.change_boost = Services::file_change_boost(
        Some(hit.generation),
        hit.path.as_str(),
        expansion.changed_paths,
        expansion.request.prior_repository_generation,
    );
    candidate
}

fn append_references(
    gathered: &mut Gathered,
    expansion: &QueryExpansion<'_>,
    hits: &Vec<ReferenceHit>,
    shown: &Vec<Option<StoredExcerpt>>,
)
    ensures
        final(gathered)@ == with_references(
            old(gathered)@,
            *expansion,
            views(hits@),
            excerpts(shown@),
            hits@.len() as int,
        ),
{
    let ghost start = gathered@;
    let ghost all = views(hits@);
    let mut i: usize = 0;
    while i < hits.len()
        invariant
            i <= hits.len(),
            all == views(hits@),
            all.len() == hits@.len(),
            gathered@ == with_references(start, *expansion, all, excerpts(shown@), i as int),
        decreases hits.len() - i,
    {
        assert(all[i as int] == hits@[i as int]@);
        if i < shown.len() {
            assert(excerpts(shown@)[i as int] == optional_view(shown@[i as int]));
            if let Some(excerpt) = &shown[i] {
                let candidate = make_reference_candidate(expansion, &hits[i], excerpt);
                add_candidate(
                    gathered,
                    expansion,
                    hits[i].path.as_str(),
                    i,
                    candidate,
                    "reference",
                );
            }
        }
        i += 1;
    }
}

/// A chunk in which a query occurs, with its rank.
#[derive(Debug)]
pub struct LexicalMatch {
    pub rank: usize,
    pub path: String,
    pub generation: u64,
    pub file_id: i64,
    pub score: u64,
    pub matched_line: usize,
    pub occurrences: usize,
}

/// What a [`LexicalMatch`] says.
pub struct LexicalMatchView {
    pub rank: usize,
    pub path: Seq<char>,
    pub generation: u64,
    pub file_id: i64,
    pub score: u64,
    pub matched_line: usize,
    pub occurrences: usize,
}

impl View for LexicalMatch {
    type V = LexicalMatchView;

    open spec fn view(&self) -> LexicalMatchView {
        LexicalMatchView {
            rank: self.rank,
            path: self.path@,
            generation: self.generation,
            file_id: self.file_id,
            score: self.score,
            matched_line: self.matched_line,
            occurrences: self.occurrences,
        }
    }
}

/// The chunks among the first `upto` that are allowed and in which a query
/// occurs.
pub open spec fn matched_chunks(
    chunks: Seq<ChunkHitView>,
    allowed: Seq<bool>,
    facts: Seq<Option<LexicalMatchFacts>>,
    upto: int,
) -> Seq<LexicalMatchView>
    decreases upto,
{
    if upto <= 0 || upto > chunks.len() {
        Seq::empty()
    } else {
        let before = matched_chunks(chunks, allowed, facts, upto - 1);
        let chunk = chunks[upto - 1];
        if flag_at(allowed, upto - 1) && upto <= facts.len() && facts[upto - 1] is Some {
            before.push(
                LexicalMatchView {
                    rank: (upto - 1) as usize,
                    path: chunk.path,
                    generation: chunk.generation,
                    file_id: chunk.file_id,
                    score: chunk.score,
                    matched_line: (facts[upto - 1]->0).matched_line,
                    occurrences: (facts[upto - 1]->0).occurrences,
                },
            )
        } else {
            before
        }
    }
}

/// The paths of the chunks among the first `upto` that are not allowed.
pub open spec fn excluded_chunks(
    chunks: Seq<ChunkHitView>,
    allowed: Seq<bool>,
    upto: int,
) -> Seq<Seq<char>>
    decreases upto,
{
    if upto <= 0 || upto > chunks.len() {
        Seq::empty()
    } else {
        let before = excluded_chunks(chunks, allowed, upto - 1);
        if flag_at(allowed, upto - 1) {
            before
        } else {
            before.push(chunks[upto - 1].path)
        }
    }
}

/// The places of matched chunks.
pub open spec fn match_places(list: Seq<LexicalMatchView>) -> Seq<FileLine> {
    Seq::new(
        list.len(),
        |i: int| FileLine { file_id: list[i].file_id, line: list[i].matched_line },
    )
}

/// The excerpts that are asked for of the declarations round the first `upto`
/// matches.
pub open spec fn match_requests(
    list: Seq<LexicalMatchView>,
    enclosing: Seq<Option<LineRange>>,
    token_budget: usize,
    upto: int,
) -> Seq<AdaptiveExcerptRequest>
    decreases upto,
{
    if upto <= 0 || upto > list.len() {
        Seq::empty()
    } else {
        let before = match_requests(list, enclosing, token_budget, upto - 1);
        if upto <= enclosing.len() && enclosing[upto - 1] is Some {
            before.push(
                AdaptiveExcerptRequest {
                    file_id: list[upto - 1].file_id,
                    declaration_start: (enclosing[upto - 1]->0).start,
                    declaration_end: (enclosing[upto - 1]->0).end,
                    matched_line: list[upto - 1].matched_line,
                    token_budget: excerpt_tokens(token_budget, ContextExcerptKind::Text),
                    selection_budget: Some(token_budget),
                },
            )
        } else {
            before
        }
    }
}

/// The chunks that are allowed and in which a query occurs. The paths of the
/// others that are not allowed are noted.
pub fn keep_matches(
    chunks: &Vec<ChunkHit>,
    allowed: &Vec<bool>,
    facts: &Vec<Option<LexicalMatchFacts>>,
    path_excluded: &mut Vec<String>,
) -> (r: (Vec<LexicalMatch>, usize))
    ensures
        views(r.0@) == matched_chunks(views(chunks@), allowed@, facts@, chunks@.len() as int),
        r.1 == flags_set(allowed@, chunks@.len() as int),
        texts(final(path_excluded)@) == texts(old(path_excluded)@) + excluded_chunks(
            views(chunks@),
            allowed@,
            chunks@.len() as int,
        ),
{
    let ghost all = views(chunks@);
    let ghost start = texts(path_excluded@);
    let mut out: Vec<LexicalMatch> = Vec::new();
    let mut verified: usize = 0;
    let mut i: usize = 0;
    proof {
        assert(views(out@) =~= Seq::<LexicalMatchView>::empty());
        assert(texts(path_excluded@) =~= start + excluded_chunks(all, allowed@, 0));
    }
    while i < chunks.len()
        invariant
            i <= chunks.len(),
            all == views(chunks@),
            all.len() == chunks@.len(),
            verified <= i,
            verified == flags_set(allowed@, i as int),
            views(out@) == matched_chunks(all, allowed@, facts@, i as int),
            texts(path_excluded@) == start + excluded_chunks(all, allowed@, i as int),
        decreases chunks.len() - i,
    {
        let ghost before = views(out@);
        let ghost noted = texts(path_excluded@);
        let chunk = &chunks[i];
        assert(all[i as int] == chunk@);
        if i < allowed.len() && allowed[i] {
            verified += 1;
            if i < facts.len() {
                if let Some(found) = &facts[i] {
                    let item = LexicalMatch {
                        rank: i,
                        path: chunk.path.clone(),
                        generation: chunk.generation,
                        file_id: chunk.file_id,
                        score: chunk.score,
                        matched_line: found.matched_line,
                        occurrences: found.occurrences,
                    };
                    let ghost added = item@;
                    out.push(item);
                    assert(views(out@) =~= before.push(added));
                }
            }
        } else {
            path_excluded.push(chunk.path.clone());
            assert(texts(path_excluded@) =~= noted.push(chunk.path@));
            assert(noted.push(chunk.path@) =~= start + excluded_chunks(
                all,
                allowed@,
                i as int,
            ).push(chunk.path@));
        }
        i += 1;
    }
    (out, verified)
}

/// The excerpts that are asked for of the declarations round matches.
pub fn match_excerpt_requests(
    list: &Vec<LexicalMatch>,
    enclosing: &Vec<Option<LineRange>>,
    token_budget: usize,
) -> (r: Vec<AdaptiveExcerptRequest>)
    ensures
        r@ == match_requests(views(list@), enclosing@, token_budget, list@.len() as int),
{
    let ghost all = views(list@);
    let mut out: Vec<AdaptiveExcerptRequest> = Vec::new();
    let mut i: usize = 0;
    while i < list.len()
        invariant
            i <= list.len(),
            all == views(list@),
            all.len() == list@.len(),
            out@ == match_requests(all, enclosing@, token_budget, i as int),
        decreases list.len() - i,
    {
        assert(all[i as int] == list@[i as int]@);
        if i < enclosing.len() {
            if let Some(symbol) = &enclosing[i] {
                out.push(
                    AdaptiveExcerptRequest {
                        file_id: list[i].file_id,
                        declaration_start: symbol.start,
                        declaration_end: symbol.end,
                        matched_line: list[i].matched_line,
                        token_budget: excerpt_budget(token_budget, ContextExcerptKind::Text),
                        selection_budget: Some(token_budget),
                    },
                );
            }
        }
        i += 1;
    }
    out
}

pub(crate) fn match_places_of(list: &Vec<LexicalMatch>) -> (r: Vec<FileLine>)
    ensures
        r@ == match_places(views(list@)),
{
    let ghost all = match_places(views(list@));
    let mut out: Vec<FileLine> = Vec::new();
    let mut i: usize = 0;
    assert(out@ =~= all.take(0));
    while i < list.len()
        invariant
            i <= list.len(),
            all == match_places(views(list@)),
            out@ == all.take(i as int),
        decreases list.len() - i,
    {
        out.push(FileLine { file_id: list[i].file_id, line: list[i].matched_line });
        assert(views(list@)[i as int] == list@[i as int]@);
        assert(out@ =~= all.take(i + 1));
        i += 1;
    }
    assert(all.take(all.len() as int) =~= all);
    out
}

/// The lines round a match as a candidate.
pub open spec fn text_candidate(
    expansion: QueryExpansion<'_>,
    found: LexicalMatchView,
    excerpt: ExcerptView,
) -> CandidateView {
    CandidateView {
        exact: expansion.query.weight,
        lexical: Some(LexicalSignal { score: found.score, occurrences: found.occurrences }),
        path_score: path_points(expansion.path_scorer@, found.path),
        change_boost: boost_of(expansion, found.generation, found.path),
        ..plain(found.path, excerpt.start_line, excerpt.end_line, excerpt.content).found_as(
            "text"@,
        ).about(expansion.query.fusion_key@, expansion.query.concept_weight)
    }
}

/// What was gathered, with the first `upto` matches of a query that have an
/// excerpt.
pub open spec fn with_texts(
    gathered: GatheredView,
    expansion: QueryExpansion<'_>,
    list: Seq<LexicalMatchView>,
    shown: Seq<Option<ExcerptView>>,
    upto: int,
) -> GatheredView
    decreases upto,
{
    if upto <= 0 || upto > list.len() {
        gathered
    } else {
        let before = with_texts(gathered, expansion, list, shown, upto - 1);
        let found = list[upto - 1];
        match answer_at(shown, upto - 1) {
            Some(excerpt) => with_candidate(
                before,
                expansion,
                found.path,
                found.rank,
                text_candidate(expansion, found, excerpt),
                "text"@,
            ),
            None => before,
        }
    }
}

fn make_text_candidate(
    expansion: &QueryExpansion<'_>,
    found: &LexicalMatch,
    excerpt: &StoredExcerpt,
) -> (r: Candidate)
    ensures
        r@ == text_candidate(*expansion, found@, excerpt@),
{
    let mut candidate = Candidate::new(
        found.path.as_str(),
        excerpt.start_line,
        excerpt.end_line,
        excerpt.content.as_str(),
    ).match_kind("text").concept(
        expansion.query.fusion_key.as_str(),
        expansion.query.concept_weight,
    );
    candidate.exact = expansion.query.weight;
    candidate.lexical =
    Some(LexicalSignal { score: found.score, occurrences: found.occurrences });
    candidate.path_score = expansion.path_scorer.score(found.path.as_str());
    candidate.change_boost = Services::file_change_boost(
        Some(found.generation),
        found.path.as_str(),
        expansion.changed_paths,
        expansion.request.prior_repository_generation,
    );
    candidate
}

fn append_texts(
    gathered: &mut Gathered,
    expansion: &QueryExpansion<'_>,
    list: &Vec<LexicalMatch>,
    shown: &Vec<Option<StoredExcerpt>>,
)
    ensures
        final(gathered)@ == with_texts(
            old(gathered)@,
            *expansion,
            views(list@),
            excerpts(shown@),
            list@.len() as int,
        ),
{
    let ghost start = gathered@;
    let ghost all = views(list@);
    let mut i: usize = 0;
    while i < list.len()
        invariant
            i <= list.len(),
            all == views(list@),
            all.len() == list@.len(),
            gathered@ == with_texts(start, *expansion, all, excerpts(shown@), i as int),
        decreases list.len() - i,
    {
        assert(all[i as int] == list@[i as int]@);
        if i < shown.len() {
            assert(excerpts(shown@)[i as int] == optional_view(shown@[i as int]));
            if let Some(excerpt) = &shown[i] {
                let candidate = make_text_candidate(expansion, &list[i], excerpt);
                add_candidate(
                    gathered,
                    expansion,
                    list[i].path.as_str(),
                    list[i].rank,
                    candidate,
                    "text",
                );
            }
        }
        i += 1;
    }
}

/// The inputs of a search for symbols or references.
pub open spec fn search_inputs(term: Seq<char>) -> Seq<char> {
    "case_sensitive:false:limit:"@ + decimal_text(MAX_CONTEXT_HITS_PER_SOURCE as nat) + ":query:"@
        + term
}

/// The inputs of a search for text chunks.
pub open spec fn lexical_inputs(term: Seq<char>) -> Seq<char> {
    "limit:"@ + decimal_text(MAX_CONTEXT_LEXICAL_HITS as nat) + ":query:"@ + term
}

fn search_key(term: &str) -> (r: String)
    ensures
        r@ == search_inputs(term@),
{
    let limit = appended(
        copy_text("case_sensitive:false:limit:"),
        decimal(MAX_CONTEXT_HITS_PER_SOURCE as u64).as_str(),
    );
    appended(appended(limit, ":query:"), term)
}

fn lexical_key(term: &str) -> (r: String)
    ensures
        r@ == lexical_inputs(term@),
{
    let limit = appended(
        copy_text("limit:"),
        decimal(MAX_CONTEXT_LEXICAL_HITS as u64).as_str(),
    );
    appended(appended(limit, ":query:"), term)
}

/// The references of a query, which are asked for only where callers count.
pub open spec fn references_of(
    expansion: QueryExpansion<'_>,
    evidence: QueryEvidence,
) -> Seq<ReferenceHitView> {
    if expansion.caller {
        views(evidence.references@)
    } else {
        Seq::empty()
    }
}

/// The excerpts of declarations round the references of a query.
pub open spec fn reference_declarations(
    expansion: QueryExpansion<'_>,
    evidence: QueryEvidence,
) -> Seq<Option<ExcerptView>> {
    scattered(
        enclosed(evidence.enclosing@, references_of(expansion, evidence).len()),
        excerpts(evidence.reference_excerpts@),
    )
}

/// The excerpts of the references of a query.
pub open spec fn reference_shown(expansion: QueryExpansion<'_>, evidence: QueryEvidence) -> Seq<
    Option<ExcerptView>,
> {
    let declared = reference_declarations(expansion, evidence);
    completed(declared, scattered(missing(declared), excerpts(evidence.reference_fallbacks@)))
}

/// The chunks in which a query occurs.
pub open spec fn matches_of(evidence: QueryEvidence) -> Seq<LexicalMatchView> {
    matched_chunks(
        views(evidence.chunks@),
        evidence.allowed@,
        evidence.lexical_facts@,
        evidence.chunks@.len() as int,
    )
}

/// The excerpts of the chunks in which a query occurs.
pub open spec fn texts_shown(evidence: QueryEvidence) -> Seq<Option<ExcerptView>> {
    let declared = scattered(
        enclosed(evidence.lexical_enclosing@, matches_of(evidence).len()),
        excerpts(evidence.lexical_excerpts@),
    );
    completed(declared, scattered(missing(declared), excerpts(evidence.lexical_fallbacks@)))
}

/// What was gathered, with all that a query brings: symbols, references and
/// text.
pub open spec fn with_query(
    gathered: GatheredView,
    expansion: QueryExpansion<'_>,
    evidence: QueryEvidence,
) -> GatheredView {
    let symbols = with_symbols(
        gathered,
        expansion,
        views(evidence.symbols@),
        excerpts(evidence.symbol_excerpts@),
        evidence.symbols@.len() as int,
    );
    let references = with_references(
        symbols,
        expansion,
        references_of(expansion, evidence),
        reference_shown(expansion, evidence),
        references_of(expansion, evidence).len() as int,
    );
    let noted = GatheredView {
        path_excluded: references.path_excluded + texts(evidence.passed_over@) + excluded_chunks(
            views(evidence.chunks@),
            evidence.allowed@,
            evidence.chunks@.len() as int,
        ),
        ..references
    };
    with_texts(
        noted,
        expansion,
        matches_of(evidence),
        texts_shown(evidence),
        matches_of(evidence).len() as int,
    )
}

/// What is counted of the search for symbols.
pub open spec fn after_symbol_search(
    tracker: TrackerView,
    expansion: QueryExpansion<'_>,
    evidence: QueryEvidence,
) -> TrackerView {
    let searched = noted(tracker, "symbol_search"@, search_inputs(expansion.query.value@));
    after_adaptive(
        TrackerView {
            counters: ContextPhaseCounters {
                symbol_candidates: counted(
                    searched.counters.symbol_candidates,
                    evidence.symbols@.len(),
                ),
                ..searched.counters
            },
            ..searched
        },
        symbol_requests(views(evidence.symbols@), expansion.request.token_budget),
    )
}

/// What is counted of the search for references.
pub open spec fn after_reference_search(
    tracker: TrackerView,
    expansion: QueryExpansion<'_>,
    evidence: QueryEvidence,
) -> TrackerView {
    let hits = references_of(expansion, evidence);
    let searched = if expansion.caller {
        noted(tracker, "reference_search"@, search_inputs(expansion.query.value@))
    } else {
        tracker
    };
    let placed = after_locations(
        TrackerView {
            counters: ContextPhaseCounters {
                reference_candidates: counted(searched.counters.reference_candidates, hits.len()),
                ..searched.counters
            },
            ..searched
        },
        reference_places(hits),
    );
    after_stored(
        after_adaptive(
            placed,
            reference_requests(
                hits,
                evidence.enclosing@,
                expansion.request.token_budget,
                hits.len() as int,
            ),
        ),
        fallback_requests(
            hits,
            missing(reference_declarations(expansion, evidence)),
            hits.len() as int,
        ),
    )
}

/// What is counted of the search for text.
pub open spec fn after_text_search(
    tracker: TrackerView,
    expansion: QueryExpansion<'_>,
    evidence: QueryEvidence,
) -> TrackerView {
    let list = matches_of(evidence);
    let searched = noted(
        tracker,
        evidence.lexical_kind.label(),
        lexical_inputs(expansion.query.value@),
    );
    after_adaptive(
        after_locations(
            TrackerView {
                counters: ContextPhaseCounters {
                    lexical_candidate_chunks: counted(
                        searched.counters.lexical_candidate_chunks,
                        evidence.chunks@.len(),
                    ),
                    lexical_chunks_verified: counted(
                        searched.counters.lexical_chunks_verified,
                        flags_set(evidence.allowed@, evidence.chunks@.len() as int),
                    ),
                    lexical_matches: counted(searched.counters.lexical_matches, list.len()),
                    ..searched.counters
                },
                ..searched
            },
            match_places(list),
        ),
        match_requests(
            list,
            evidence.lexical_enclosing@,
            expansion.request.token_budget,
            list.len() as int,
        ),
    )
}

fn append_query_symbols(
    expansion: &QueryExpansion<'_>,
    evidence: &QueryEvidence,
    gathered: &mut Gathered,
    phases: &mut ContextPhaseTracker,
)
    ensures
        final(gathered)@ == with_symbols(
            old(gathered)@,
            *expansion,
            views(evidence.symbols@),
            excerpts(evidence.symbol_excerpts@),
            evidence.symbols@.len() as int,
        ),
        final(phases)@ == after_symbol_search(old(phases)@, *expansion, *evidence),
{
    phases.record_primitive("symbol_search", search_key(expansion.query.value.as_str()));
    phases.counters.symbol_candidates =
    phases.counters.symbol_candidates.saturating_add(evidence.symbols.len());
    let requests = symbol_excerpt_requests(&evidence.symbols, expansion.request.token_budget);
    phases.record_adaptive_excerpts(&requests);
    append_symbols(gathered, expansion, &evidence.symbols, &evidence.symbol_excerpts);
}

fn append_query_references(
    expansion: &QueryExpansion<'_>,
    evidence: &QueryEvidence,
    gathered: &mut Gathered,
    phases: &mut ContextPhaseTracker,
)
    ensures
        final(gathered)@ == with_references(
            old(gathered)@,
            *expansion,
            references_of(*expansion, *evidence),
            reference_shown(*expansion, *evidence),
            references_of(*expansion, *evidence).len() as int,
        ),
        final(phases)@ == after_reference_search(old(phases)@, *expansion, *evidence),
{
    let none: Vec<ReferenceHit> = Vec::new();
    assert(views(none@) =~= Seq::<ReferenceHitView>::empty());
    let hits = if expansion.caller {
        &evidence.references
    } else {
        &none
    };
    assert(views(hits@) == references_of(*expansion, *evidence));
    assert(views(hits@).len() == hits@.len());
    if expansion.caller {
        phases.record_primitive("reference_search", search_key(expansion.query.value.as_str()));
    }
    phases.counters.reference_candidates =
    phases.counters.reference_candidates.saturating_add(hits.len());
    phases.record_enclosing_locations(&places_of(hits));
    let requests = reference_excerpt_requests(
        hits,
        &evidence.enclosing,
        expansion.request.token_budget,
    );
    phases.record_adaptive_excerpts(&requests);
    let marked = mark_enclosed(&evidence.enclosing, hits.len());
    let declared = scatter(&marked, &evidence.reference_excerpts);
    assert(excerpts(declared@) == reference_declarations(*expansion, *evidence));
    let asked = mark_missing(&declared);
    phases.record_stored_excerpts(&reference_fallback_requests(hits, &asked));
    let fallback = scatter(&asked, &evidence.reference_fallbacks);
    let shown = complete(&declared, &fallback);
    append_references(gathered, expansion, hits, &shown);
}

fn note_passed(path_excluded: &mut Vec<String>, passed: &Vec<String>)
    ensures
        texts(final(path_excluded)@) == texts(old(path_excluded)@) + texts(passed@),
{
    let ghost start = texts(path_excluded@);
    let ghost all = texts(passed@);
    let mut i: usize = 0;
    assert(texts(path_excluded@) =~= start + all.take(0));
    while i < passed.len()
        invariant
            i <= passed.len(),
            all == texts(passed@),
            texts(path_excluded@) == start + all.take(i as int),
        decreases passed.len() - i,
    {
        let ghost before = texts(path_excluded@);
        path_excluded.push(passed[i].clone());
        assert(texts(path_excluded@) =~= before.push(passed@[i as int]@));
        assert(texts(path_excluded@) =~= start + all.take(i + 1));
        i += 1;
    }
    assert(all.take(all.len() as int) =~= all);
}

fn append_query_texts(
    expansion: &QueryExpansion<'_>,
    evidence: &QueryEvidence,
    gathered: &mut Gathered,
    phases: &mut ContextPhaseTracker,
)
    ensures
        final(gathered)@ == with_texts(
            GatheredView {
                path_excluded: old(gathered)@.path_excluded + texts(evidence.passed_over@)
                    + excluded_chunks(
                    views(evidence.chunks@),
                    evidence.allowed@,
                    evidence.chunks@.len() as int,
                ),
                ..old(gathered)@
            },
            *expansion,
            matches_of(*evidence),
            texts_shown(*evidence),
            matches_of(*evidence).len() as int,
        ),
        final(phases)@ == after_text_search(old(phases)@, *expansion, *evidence),
{
    phases.record_primitive(
        evidence.lexical_kind.name().as_str(),
        lexical_key(expansion.query.value.as_str()),
    );
    phases.counters.lexical_candidate_chunks =
    phases.counters.lexical_candidate_chunks.saturating_add(evidence.chunks.len());
    note_passed(&mut gathered.path_excluded, &evidence.passed_over);
    let (list, verified) = keep_matches(
        &evidence.chunks,
        &evidence.allowed,
        &evidence.lexical_facts,
        &mut gathered.path_excluded,
    );
    assert(views(list@).len() == list@.len());
    phases.counters.lexical_chunks_verified =
    phases.counters.lexical_chunks_verified.saturating_add(verified);
    phases.counters.lexical_matches = phases.counters.lexical_matches.saturating_add(list.len());
    phases.record_enclosing_locations(&match_places_of(&list));
    let requests = match_excerpt_requests(
        &list,
        &evidence.lexical_enclosing,
        expansion.request.token_budget,
    );
    phases.record_adaptive_excerpts(&requests);
    let marked = mark_enclosed(&evidence.lexical_enclosing, list.len());
    let declared = scatter(&marked, &evidence.lexical_excerpts);
    let asked = mark_missing(&declared);
    let fallback = scatter(&asked, &evidence.lexical_fallbacks);
    let shown = complete(&declared, &fallback);
    append_texts(gathered, expansion, &list, &shown);
}

impl Services {
    /// Adds the candidates that the evidence of a query brings, and counts the work.
    pub fn append_query_evidence(
        expansion: &QueryExpansion<'_>,
        evidence: &QueryEvidence,
        gathered: &mut Gathered,
        phases: &mut ContextPhaseTracker,
    )
        ensures
            final(gathered)@ == with_query(old(gathered)@, *expansion, *evidence),
            final(phases)@ == after_text_search(
                after_reference_search(
                    after_symbol_search(old(phases)@, *expansion, *evidence),
                    *expansion,
                    *evidence,
                ),
                *expansion,
                *evidence,
            ),
    {
        append_query_symbols(expansion, evidence, gathered, phases);
        append_query_references(expansion, evidence, gathered, phases);
        append_query_texts(expansion, evidence, gathered, phases);
    }
}

} // verus!
