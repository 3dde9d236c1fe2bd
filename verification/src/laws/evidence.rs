//! The evidence that a request focuses on or insists on.

use crate::context::candidates::constraints::{
    batch_count, eligible, focus_uncovered, hits_of, in_scope, let_in, required_symbols,
    symbol_share, unfound, unmarked, ExactHit, FocusScanView, JudgedView,
};
use crate::context::candidates::focus::{
    chunk_focus, focus_retained, focus_selected, holds_line, requested_minimum, symbol_focus,
    ChunkView, FocusExpansion, FocusFileView, FocusFound, FocusSymbolView,
};
use crate::context::candidates::lexical::{
    completed, facts_of, line_of, matched_chunks, ChunkHitView, ExcerptView, LexicalMatchFacts,
};
use crate::context::candidates::required::{
    best_chunk, best_of, evidence_candidate, evidence_requests, path_fallbacks, ConstraintExpansion,
    RequiredFileView,
};
use crate::context::candidates::retain::{text_relevance, EvidencePlanView, FocusView};
use crate::context::facets::QueryView;
use crate::lists::{first_where, tally_bounds};
use crate::model::ContextRequest;
use crate::ordered::views;
use crate::text::{only, pieces, pieces_exist, texts};
use vstd::prelude::*;

verus! {

/// A strict request reaches the changed paths that it names and no others; any other
/// request reaches all.
pub proof fn a_strict_request_keeps_to_its_changes(request: ContextRequest, path: Seq<char>)
    ensures
        request.strict_changed_paths ==> (in_scope(request, path) <==> texts(
            request.changed_paths@,
        ).contains(path)),
        !request.strict_changed_paths ==> in_scope(request, path),
{
}

/// A file that its path bars, that a strict request does not reach, or that is set
/// aside and not asked for by any pattern, is no candidate.
pub proof fn barred_files_are_not_eligible(request: ContextRequest, file: JudgedView)
    ensures
        !file.verdicts.allowed ==> !eligible(request, file),
        request.strict_changed_paths && !texts(request.changed_paths@).contains(file.file.path)
            ==> !eligible(request, file),
        file.verdicts.allowed && !request.strict_changed_paths && !file.verdicts.set_aside
            ==> eligible(request, file),
        file.verdicts.set_aside && file.verdicts.included.len() == 0 ==> !eligible(request, file),
{
    if file.verdicts.included.len() == 0 {
        no_flags(file.verdicts.included, request.include_paths@.len() as int);
    }
}

proof fn no_flags(flags: Seq<bool>, upto: int)
    requires
        flags.len() == 0,
    ensures
        crate::context::delivery::flags_set(flags, upto) == 0,
    decreases upto,
{
    if upto > 0 {
        no_flags(flags, upto - 1);
    }
}

/// The first required symbols that are let in: each symbol with its first hit that is
/// allowed; a symbol of which no hit is allowed is left out.
pub proof fn a_required_symbol_takes_its_first_allowed_hit(
    symbols: Seq<Seq<char>>,
    names: Seq<Seq<char>>,
    hits: Seq<Vec<ExactHit>>,
    upto: int,
)
    requires
        0 < upto <= symbols.len(),
    ensures
        ({
            let before = required_symbols(symbols, names, hits, upto - 1);
            let after = required_symbols(symbols, names, hits, upto);
            let found = hits_of(names, hits, symbols[upto - 1]);
            &&& (forall|k: int| 0 <= k < found.len() ==> !(#[trigger] found[k]).allowed) ==> after
                == before
            &&& (exists|k: int| 0 <= k < found.len() && (#[trigger] found[k]).allowed) ==> {
                &&& after.len() == before.len() + 1
                &&& after.last().symbol == symbols[upto - 1]
                &&& after.last().hit.allowed
                &&& exists|k: int|
                    {
                        &&& 0 <= k < found.len()
                        &&& #[trigger] found[k] == after.last().hit
                        &&& forall|m: int| 0 <= m < k ==> !(#[trigger] found[m]).allowed
                    }
            }
        }),
{
    let found = hits_of(names, hits, symbols[upto - 1]);
    let p = let_in();
    tally_bounds(found, p);
    let at = first_where(found, p);
    if exists|k: int| 0 <= k < found.len() && (#[trigger] found[k]).allowed {
        let k = choose|k: int| 0 <= k < found.len() && (#[trigger] found[k]).allowed;
        assert(p(found[k]));
        assert(at <= k);
        assert(p(found[at]));
        assert(found[at] == required_symbols(symbols, names, hits, upto).last().hit);
        assert forall|m: int| 0 <= m < at implies !(#[trigger] found[m]).allowed by {
            assert(!p(found[m]));
        }
    } else {
        if at < found.len() {
            assert(p(found[at]));
        }
    }
}

/// A symbol is told as unfound exactly where it has no hit, in the order asked for.
pub proof fn unfound_symbols_have_no_hit(
    symbols: Seq<Seq<char>>,
    names: Seq<Seq<char>>,
    hits: Seq<Vec<ExactHit>>,
    upto: int,
)
    requires
        0 < upto <= symbols.len(),
    ensures
        hits_of(names, hits, symbols[upto - 1]).len() == 0 ==> unfound(symbols, names, hits, upto)
            == unfound(symbols, names, hits, upto - 1).push(symbols[upto - 1]),
        hits_of(names, hits, symbols[upto - 1]).len() > 0 ==> unfound(symbols, names, hits, upto)
            == unfound(symbols, names, hits, upto - 1),
        unfound(symbols, names, hits, 0).len() == 0,
{
}

/// What is not marked is listed, in order, and nothing else.
pub proof fn what_is_unmarked_is_listed(list: Seq<Seq<char>>, marks: Seq<bool>, upto: int)
    requires
        0 <= upto <= list.len(),
        marks.len() == list.len(),
    ensures
        forall|i: int|
            0 <= i < upto && !marks[i] ==> unmarked(list, marks, upto).contains(#[trigger] list[i]),
        (forall|i: int| 0 <= i < upto ==> #[trigger] marks[i]) ==> unmarked(
            list,
            marks,
            upto,
        ).len() == 0,
        (forall|i: int| 0 <= i < upto ==> !#[trigger] marks[i]) ==> unmarked(list, marks, upto)
            == list.take(upto),
        unmarked(list, marks, upto).len() <= upto,
    decreases upto,
{
    if upto > 0 {
        what_is_unmarked_is_listed(list, marks, upto - 1);
        let before = unmarked(list, marks, upto - 1);
        let out = unmarked(list, marks, upto);
        assert forall|i: int| 0 <= i < upto && !marks[i] implies out.contains(
            #[trigger] list[i],
        ) by {
            if i < upto - 1 {
                assert(before.contains(list[i]));
                let k = choose|k: int| 0 <= k < before.len() && before[k] == list[i];
                assert(out[k] == list[i]);
            } else {
                assert(out[before.len() as int] == list[i]);
            }
        }
        if forall|i: int| 0 <= i < upto ==> !#[trigger] marks[i] {
            assert(!marks[upto - 1]);
            assert(out =~= list.take(upto));
        }
        if forall|i: int| 0 <= i < upto ==> #[trigger] marks[i] {
            assert(marks[upto - 1]);
        }
    }
}

/// Required symbols share a budget evenly: together they take no more than it, unless
/// each takes its least share of one, and they leave less than one each.
pub proof fn required_symbols_share_the_budget(budget: usize, count: nat)
    ensures
        symbol_share(budget, count) >= 1,
        count > 0 && budget >= count ==> symbol_share(budget, count) * count <= budget,
        count > 0 && budget >= count ==> budget < (symbol_share(budget, count) + 1) * count,
        count > 0 && budget < count ==> symbol_share(budget, count) == 1,
        count == 0 && budget >= 1 ==> symbol_share(budget, count) == budget,
{
    if count > 0 {
        let share = budget as nat / count;
        assert(share * count <= budget && budget < (share + 1) * count && (budget >= count ==> share
            >= 1) && (budget < count ==> share == 0)) by (nonlinear_arith)
            requires
                count > 0,
                share == budget as nat / count,
        ;
        assert(share <= budget) by (nonlinear_arith)
            requires
                count > 0,
                share * count <= budget,
        ;
    }
}

/// Names are looked up in the fewest batches of up to thirty-two.
pub proof fn names_are_looked_up_in_few_batches(names: nat)
    ensures
        batch_count(names) * 32 >= names,
        names > 0 ==> (batch_count(names) - 1) * 32 < names,
        names == 0 ==> batch_count(names) == 0,
{
}

/// Before anything is selected a focus path is not covered; it asks for the fragments
/// that the request asks for, or for one.
pub proof fn an_unselected_focus_path_is_uncovered(
    request: ContextRequest,
    scan: FocusScanView,
    pattern: String,
)
    ensures
        ({
            let out = focus_uncovered(request, scan, pattern);
            &&& !out.satisfied
            &&& out.selected_fragments == 0
            &&& out.indexed_paths == scan.indexed_paths
            &&& out.pattern == pattern
            &&& request.minimum_fragments_per_focus_path is Some ==> out.minimum_fragments
                == request.minimum_fragments_per_focus_path->0
            &&& request.minimum_fragments_per_focus_path is None ==> out.minimum_fragments == 1
            &&& out.diagnostics is Some <==> request.explain_diagnostics
            &&& out.diagnostics is Some ==> (out.diagnostics->0).eligible_paths
                == scan.eligible_paths && (out.diagnostics->0).generated_fragments == 0
        }),
{
}

/// A request asks for the minimum that it names; a strict one for at least one
/// fragment, and any other for none.
pub proof fn a_minimum_is_named_or_follows_from_strictness(request: ContextRequest)
    ensures
        request.minimum_fragments_per_focus_path is Some ==> requested_minimum(request)
            == request.minimum_fragments_per_focus_path->0,
        request.minimum_fragments_per_focus_path is None && request.strict_focus_paths
            ==> requested_minimum(request) == 1,
        request.minimum_fragments_per_focus_path is None && !request.strict_focus_paths
            ==> requested_minimum(request) == 0,
{
}

/// The chunk that is shown of a required file is the most relevant, and the earliest of
/// equally relevant ones; none is shown where none is relevant.
pub proof fn the_most_relevant_chunk_is_shown(
    chunks: Seq<ChunkView>,
    queries: Seq<QueryView>,
    upto: int,
)
    requires
        0 <= upto <= chunks.len(),
    ensures
        best_chunk(chunks, queries, upto) is None <==> forall|i: int|
            0 <= i < upto ==> text_relevance((#[trigger] chunks[i]).content, queries) == 0,
        best_chunk(chunks, queries, upto) is Some ==> {
            let at = best_chunk(chunks, queries, upto)->0;
            &&& 0 <= at < upto
            &&& text_relevance(chunks[at].content, queries) > 0
            &&& forall|i: int|
                0 <= i < upto ==> text_relevance((#[trigger] chunks[i]).content, queries)
                    <= text_relevance(chunks[at].content, queries)
            &&& forall|i: int|
                0 <= i < upto && text_relevance((#[trigger] chunks[i]).content, queries)
                    == text_relevance(chunks[at].content, queries) ==> chunks[at].start_line
                    <= chunks[i].start_line
        },
    decreases upto,
{
    if upto > 0 {
        the_most_relevant_chunk_is_shown(chunks, queries, upto - 1);
        if best_chunk(chunks, queries, upto - 1) is None {
            assert forall|i: int| 0 <= i < upto - 1 implies text_relevance(
                (#[trigger] chunks[i]).content,
                queries,
            ) == 0 by {}
        }
        if best_chunk(chunks, queries, upto) is None {
            assert(text_relevance(chunks[upto - 1].content, queries) == 0);
        } else {
            let at = best_chunk(chunks, queries, upto)->0;
            assert(text_relevance(chunks[at].content, queries) > 0);
        }
    }
}

/// A required file falls back on its beginning exactly where no chunk of it is relevant.
pub proof fn files_without_relevant_chunks_fall_back(
    expansion: ConstraintExpansion<'_>,
    entries: Seq<RequiredFileView>,
    upto: int,
)
    requires
        0 < upto <= entries.len(),
    ensures
        ({
            let entry = entries[upto - 1];
            let before = path_fallbacks(expansion, entries, upto - 1);
            let after = path_fallbacks(expansion, entries, upto);
            let relevant = exists|i: int|
                0 <= i < entry.chunks.len() && text_relevance(
                    (#[trigger] entry.chunks[i]).content,
                    views(expansion.queries@),
                ) > 0;
            &&& relevant ==> after == before
            &&& !relevant ==> after == before.push(entry)
        }),
{
    let entry = entries[upto - 1];
    the_most_relevant_chunk_is_shown(
        entry.chunks,
        views(expansion.queries@),
        entry.chunks.len() as int,
    );
    if best_of(expansion, entry) is Some {
        let at = best_of(expansion, entry)->0;
        assert(text_relevance(entry.chunks[at].content, views(expansion.queries@)) > 0);
    }
}

/// A line of required evidence is shown with up to nineteen lines above it and twenty
/// below, and never left out of its excerpt.
pub proof fn a_line_of_evidence_is_shown_with_its_surroundings(
    plans: Seq<EvidencePlanView>,
    i: int,
)
    requires
        0 <= i < plans.len(),
        0 < plans[i].matched_line < usize::MAX - 20,
    ensures
        ({
            let asked = evidence_requests(plans)[i];
            let line = plans[i].matched_line;
            &&& asked.file_id == plans[i].file_id
            &&& asked.required_start_line == line
            &&& asked.required_end_line == line
            &&& 1 <= asked.desired_start_line <= line
            &&& line > 20 ==> asked.desired_start_line == line - 19
            &&& line <= 20 ==> asked.desired_start_line == 1
            &&& asked.desired_end_line == line + 20
            &&& asked.max_lines == 40
        }),
{
}

/// Required evidence counts a hundred for each query that its excerpt answers, up to
/// four, and names the requirement and the queries that it answers.
pub proof fn evidence_counts_its_queries(
    expansion: ConstraintExpansion<'_>,
    requirement: usize,
    plan: EvidencePlanView,
    excerpt: ExcerptView,
    positions: Seq<usize>,
    rank: usize,
)
    ensures
        ({
            let out = evidence_candidate(expansion, requirement, plan, excerpt, positions, rank);
            &&& out.path == plan.path
            &&& out.start_line == excerpt.start_line
            &&& out.end_line == excerpt.end_line
            &&& out.content == excerpt.content
            &&& positions.len() <= 4 ==> out.exact == 100 * positions.len()
            &&& positions.len() > 4 ==> out.exact == 400
            &&& out.evidence.len() == positions.len()
            &&& forall|k: int|
                0 <= k < positions.len() ==> (#[trigger] out.evidence[k]).query == positions[k]
                    && out.evidence[k].requirement == requirement
            &&& out.focus_boost == 200
        }),
{
}

/// A chunk of a focused file is found by its text where it is relevant and else falls
/// back; it counts its relevance, up to four hundred.
pub proof fn a_focused_chunk_counts_its_relevance(
    expansion: FocusExpansion<'_>,
    pattern: Seq<char>,
    file: FocusFileView,
    chunk: ChunkView,
)
    ensures
        ({
            let found = text_relevance(chunk.content, views(expansion.queries@));
            let out = chunk_focus(expansion, pattern, file, chunk);
            &&& out.relevance == found
            &&& found > 0 ==> out.candidate.match_kinds == seq!["focus_text"@]
            &&& found == 0 ==> out.candidate.match_kinds == seq!["focus_fallback"@]
            &&& found <= 400 ==> out.candidate.exact == found
            &&& found > 400 ==> out.candidate.exact == 400
            &&& out.candidate.path == file.path
            &&& out.candidate.start_line == chunk.start_line
            &&& out.candidate.end_line == chunk.end_line
            &&& out.candidate.content == chunk.content
            &&& out.candidate.focus_boost == 200
        }),
{
    let out = chunk_focus(expansion, pattern, file, chunk);
    let found = text_relevance(chunk.content, views(expansion.queries@));
    if found > 0 {
        assert(out.candidate.match_kinds =~= seq!["focus_text"@]);
    } else {
        assert(out.candidate.match_kinds =~= seq!["focus_fallback"@]);
    }
}

/// A symbol of a focused file is shown by the chunk that holds its first line. It counts
/// for more where the request names it; one that is neither named nor relevant, or that
/// no chunk holds, is not shown.
pub proof fn a_focused_symbol_is_shown_by_its_chunk(
    expansion: FocusExpansion<'_>,
    pattern: Seq<char>,
    file: FocusFileView,
    symbol: FocusSymbolView,
)
    ensures
        ({
            let out = symbol_focus(expansion, pattern, file, symbol);
            let named = texts(expansion.request.focus_symbols@).contains(symbol.name);
            let held = exists|i: int|
                0 <= i < file.chunks.len() && (#[trigger] file.chunks[i]).start_line
                    <= symbol.start_line <= file.chunks[i].end_line;
            &&& out is Some ==> held
            &&& named && held ==> out is Some
            &&& out is Some ==> {
                let shown = (out->0).candidate;
                &&& shown.path == file.path
                &&& shown.start_line <= symbol.start_line <= shown.end_line
                &&& shown.symbol_name == Some(symbol.name)
                &&& shown.target is Some
                &&& (shown.target->0).start == symbol.start_line
                &&& (shown.target->0).end == symbol.end_line
                &&& named ==> shown.symbol == 200 && shown.exact == 400 && (out->0).relevance >= 500
                &&& !named ==> shown.symbol == 100 && (out->0).relevance >= 100
            }
        }),
{
    let p = holds_line(symbol.start_line);
    tally_bounds(file.chunks, p);
    let at = first_where(file.chunks, p);
    if at < file.chunks.len() {
        assert(p(file.chunks[at]));
        assert(file.chunks[at].start_line <= symbol.start_line <= file.chunks[at].end_line);
    } else {
        assert forall|i: int| 0 <= i < file.chunks.len() implies !((
        #[trigger] file.chunks[i]).start_line <= symbol.start_line <= file.chunks[i].end_line) by {
            assert(!p(file.chunks[i]));
        }
    }
}

/// What falls back is shown only where nothing relevant was found.
pub proof fn fallbacks_are_shown_last(found: FocusFound)
    ensures
        found.semantic.len() > 0 ==> focus_selected(found).to_multiset()
            == found.semantic.to_multiset(),
        found.semantic.len() == 0 ==> focus_selected(found).to_multiset()
            == found.fallback.to_multiset(),
{
    crate::ordered::sorting_keeps_elements(
        found.semantic,
        crate::context::candidates::retain::more_relevant(),
    );
    crate::ordered::sorting_keeps_elements(
        found.fallback,
        crate::context::candidates::retain::more_relevant(),
    );
}

/// For a pattern at most eight candidates are retained, and no lines twice.
pub proof fn no_lines_are_retained_twice(
    selected: Seq<FocusView>,
    pattern_index: usize,
    upto: int,
)
    requires
        0 <= upto <= selected.len(),
    ensures
        focus_retained(selected, pattern_index, upto).len() <= 8,
        forall|i: int, j: int|
            0 <= i < j < focus_retained(selected, pattern_index, upto).len() ==> {
                let a = #[trigger] focus_retained(selected, pattern_index, upto)[i];
                let b = #[trigger] focus_retained(selected, pattern_index, upto)[j];
                a.path != b.path || a.start_line != b.start_line || a.end_line != b.end_line
            },
        upto > 0 ==> focus_retained(selected, pattern_index, upto).len() > 0,
    decreases upto,
{
    if upto > 0 {
        no_lines_are_retained_twice(selected, pattern_index, upto - 1);
        let before = focus_retained(selected, pattern_index, upto - 1);
        let out = focus_retained(selected, pattern_index, upto);
        assert forall|i: int, j: int| 0 <= i < j < out.len() implies {
            let a = #[trigger] out[i];
            let b = #[trigger] out[j];
            a.path != b.path || a.start_line != b.start_line || a.end_line != b.end_line
        } by {
            assert(out[i] == before[i]);
            if j < before.len() {
                assert(out[j] == before[j]);
            }
        }
    }
}

/// The lines that are shown of a match hold the matched line, and up to the given
/// number of lines around it; no more occurrences are counted than twenty-five.
pub proof fn a_match_is_shown_with_its_surroundings(
    hit: ChunkHitView,
    matches: Seq<(usize, usize)>,
    context_lines: usize,
)
    requires
        matches.len() > 0,
        matches[0].0 <= matches[0].1,
        hit.start_line + pieces(hit.content, only('\n')).len() <= usize::MAX,
    ensures
        ({
            let out = facts_of(hit, matches, context_lines);
            &&& out.excerpt.start_line <= out.matched_line
            &&& out.matched_line - out.excerpt.start_line <= context_lines
            &&& hit.start_line <= out.excerpt.start_line
            &&& out.matched_line <= out.excerpt.end_line
            &&& out.excerpt.end_line < hit.start_line + pieces(hit.content, only('\n')).len()
            &&& out.occurrences <= 25
            &&& out.occurrences <= matches.len()
            &&& matches.len() <= 25 ==> out.occurrences == matches.len()
        }),
{
    let first = matches[0].0;
    let end = if matches[0].1 > matches[0].0 {
        (matches[0].1 - 1) as usize
    } else {
        matches[0].0
    };
    later_offsets_stand_no_earlier(hit.content, first, end);
}

proof fn later_offsets_stand_no_earlier(content: Seq<char>, a: usize, b: usize)
    requires
        a <= b,
    ensures
        line_of(content, a) <= line_of(content, b),
        line_of(content, b) < pieces(content, only('\n')).len(),
    decreases content.len(),
{
    pieces_exist(content, only('\n'));
    if content.len() > 0 {
        later_offsets_stand_no_earlier(content.drop_last(), a, b);
        pieces_exist(content.drop_last(), only('\n'));
    }
}

/// What has no answer of its own takes the answer of the fallback, and what has one
/// keeps it.
pub proof fn fallbacks_answer_what_is_missing(
    answers: Seq<Option<ExcerptView>>,
    others: Seq<Option<ExcerptView>>,
    i: int,
)
    requires
        0 <= i < answers.len(),
        others.len() == answers.len(),
    ensures
        completed(answers, others).len() == answers.len(),
        answers[i] is Some ==> completed(answers, others)[i] == answers[i],
        answers[i] is None ==> completed(answers, others)[i] == others[i],
{
}

/// A chunk that is not allowed, or in which the term was not found, is no match; a match
/// tells of its own chunk.
pub proof fn matches_are_allowed_chunks(
    chunks: Seq<ChunkHitView>,
    allowed: Seq<bool>,
    facts: Seq<Option<LexicalMatchFacts>>,
    upto: int,
)
    requires
        0 <= upto <= chunks.len() <= usize::MAX,
        allowed.len() == chunks.len(),
        facts.len() == chunks.len(),
    ensures
        forall|j: int|
            0 <= j < matched_chunks(chunks, allowed, facts, upto).len() ==> {
                let found = #[trigger] matched_chunks(chunks, allowed, facts, upto)[j];
                &&& found.rank < upto
                &&& allowed[found.rank as int]
                &&& facts[found.rank as int] is Some
                &&& found.path == chunks[found.rank as int].path
                &&& found.file_id == chunks[found.rank as int].file_id
                &&& found.score == chunks[found.rank as int].score
                &&& found.matched_line == (facts[found.rank as int]->0).matched_line
                &&& found.occurrences == (facts[found.rank as int]->0).occurrences
            },
        forall|i: int, j: int|
            0 <= i < j < matched_chunks(chunks, allowed, facts, upto).len() ==> (
            #[trigger] matched_chunks(chunks, allowed, facts, upto)[i]).rank < (
            #[trigger] matched_chunks(chunks, allowed, facts, upto)[j]).rank,
    decreases upto,
{
    if upto > 0 {
        matches_are_allowed_chunks(chunks, allowed, facts, upto - 1);
        let before = matched_chunks(chunks, allowed, facts, upto - 1);
        let out = matched_chunks(chunks, allowed, facts, upto);
        assert forall|j: int| 0 <= j < out.len() implies {
            let found = #[trigger] out[j];
            &&& found.rank < upto
            &&& allowed[found.rank as int]
            &&& facts[found.rank as int] is Some
            &&& found.path == chunks[found.rank as int].path
            &&& found.file_id == chunks[found.rank as int].file_id
            &&& found.score == chunks[found.rank as int].score
            &&& found.matched_line == (facts[found.rank as int]->0).matched_line
            &&& found.occurrences == (facts[found.rank as int]->0).occurrences
        } by {
            if j < before.len() {
                assert(out[j] == before[j]);
            }
        }
        assert forall|i: int, j: int| 0 <= i < j < out.len() implies (#[trigger] out[i]).rank < (
        #[trigger] out[j]).rank by {
            assert(out[i] == before[i]);
            if j < before.len() {
                assert(out[j] == before[j]);
            }
        }
    }
}

} // verus!
