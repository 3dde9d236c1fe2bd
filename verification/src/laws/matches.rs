//! What a query finds.

use crate::context::candidates::draft::{annotated, under_names, CandidateView, LineRange};
use crate::context::candidates::lexical::{
    excluded_chunks, reference_candidate, reference_lines,
    reference_requests, references_of, scattered, symbol_candidate, symbol_requests,
    text_candidate, with_references, with_symbols, with_texts, ChunkHitView, ExcerptView,
    GatheredView, LexicalMatchView, QueryEvidence, QueryExpansion, ReferenceHitView, SymbolHitView,
};
use crate::context::delivery::flags_set;
use crate::context::facets::{kind_names, QueryView};
use vstd::prelude::*;

verus! {

/// A symbol counts a hundred as a symbol and nothing as a reference or a text, and a
/// reference the other way round. A symbol found by its exact name counts a hundred
/// more than one that is not, whatever else is said of it.
pub proof fn finds_count_by_how_they_were_found(
    expansion: QueryExpansion<'_>,
    symbol: SymbolHitView,
    reference: ReferenceHitView,
    found: LexicalMatchView,
    excerpt: ExcerptView,
)
    ensures
        ({
            let a = symbol_candidate(expansion, symbol, excerpt);
            let b = reference_candidate(expansion, reference, excerpt);
            let c = text_candidate(expansion, found, excerpt);
            &&& a.symbol == 100 && a.reference == 0 && a.lexical is None
            &&& b.symbol == 0 && b.reference == 100 && b.lexical is None && b.exact == 0
            &&& c.symbol == 0 && c.reference == 0 && c.exact == expansion.query.weight
            &&& c.lexical matches Some(signal) && signal.score == found.score
                && signal.occurrences == found.occurrences
            &&& a.path == symbol.path && b.path == reference.path && c.path == found.path
            &&& a.symbol_name == Some(symbol.name) && b.symbol_name == Some(reference.name)
                && c.symbol_name is None
            &&& a.match_kinds == seq!["symbol"@]
            &&& b.match_kinds == seq!["reference"@]
            &&& c.match_kinds == seq!["text"@]
            &&& a.content == excerpt.content && b.content == excerpt.content && c.content
                == excerpt.content
            &&& a.start_line == excerpt.start_line && a.end_line == excerpt.end_line
            &&& b.start_line == excerpt.start_line && b.end_line == excerpt.end_line
            &&& c.start_line == excerpt.start_line && c.end_line == excerpt.end_line
            &&& symbol.exact ==> a.exact == symbol_candidate(
                expansion,
                SymbolHitView { exact: false, ..symbol },
                excerpt,
            ).exact + 100
            &&& !symbol.exact ==> a.exact == 0 || a.exact == 150
            &&& a.concept_weight == expansion.query.concept_weight
            &&& b.concept_weight == expansion.query.concept_weight
            &&& c.concept_weight == expansion.query.concept_weight
        }),
{
}

/// A candidate names the kinds of its query under the key of the query, one for each, and
/// the source that found it with its rank; what it shows and what it counts stays.
pub proof fn a_candidate_names_its_query(
    candidate: CandidateView,
    query: QueryView,
    channel: Seq<char>,
    rank: usize,
)
    ensures
        ({
            let out = annotated(candidate, query, channel, rank);
            &&& out == (CandidateView { facets: out.facets, channels: out.channels, ..candidate })
            &&& out.facets.len() == candidate.facets.len() + kind_names(query.facets).len()
            &&& forall|i: int|
                0 <= i < kind_names(query.facets).len() ==> (
                #[trigger] out.facets[candidate.facets.len() + i]).name == kind_names(
                    query.facets,
                )[i] && out.facets[candidate.facets.len() + i].key == query.fusion_key
            &&& out.channels.len() == candidate.channels.len() + 1
            &&& out.channels.last().name == channel
            &&& out.channels.last().rank == rank
        }),
{
    let names = kind_names(query.facets);
    names_are_put_under_their_key(candidate, names, query.fusion_key, names.len() as int);
}

proof fn names_are_put_under_their_key(
    candidate: CandidateView,
    names: Seq<Seq<char>>,
    key: Seq<char>,
    upto: int,
)
    requires
        0 <= upto <= names.len(),
    ensures
        ({
            let out = under_names(candidate, names, key, upto);
            &&& out == (CandidateView { facets: out.facets, ..candidate })
            &&& out.facets.len() == candidate.facets.len() + upto
            &&& forall|i: int|
                0 <= i < upto ==> (#[trigger] out.facets[candidate.facets.len() + i]).name
                    == names[i] && out.facets[candidate.facets.len() + i].key == key
        }),
    decreases upto,
{
    if upto > 0 {
        names_are_put_under_their_key(candidate, names, key, upto - 1);
        let before = under_names(candidate, names, key, upto - 1);
        let out = under_names(candidate, names, key, upto);
        assert forall|i: int| 0 <= i < upto implies (
        #[trigger] out.facets[candidate.facets.len() + i]).name == names[i]
            && out.facets[candidate.facets.len() + i].key == key by {
            if i < upto - 1 {
                assert(out.facets[candidate.facets.len() + i]
                    == before.facets[candidate.facets.len() + i]);
            }
        }
    }
}

/// A symbol that can be shown is a candidate, and one that cannot is none; what was
/// gathered before stays in its place.
pub proof fn shown_symbols_are_candidates(
    gathered: GatheredView,
    expansion: QueryExpansion<'_>,
    hits: Seq<SymbolHitView>,
    shown: Seq<Option<ExcerptView>>,
    upto: int,
    i: int,
)
    requires
        0 <= i < upto <= hits.len(),
        upto <= shown.len(),
    ensures
        ({
            let out = with_symbols(gathered, expansion, hits, shown, upto).candidates;
            &&& gathered.candidates.is_prefix_of(out)
            &&& out.len() <= gathered.candidates.len() + upto
            &&& shown[i] is Some ==> exists|k: int|
                gathered.candidates.len() <= k < out.len() && (#[trigger] out[k]).path
                    == hits[i].path && out[k].content == (shown[i]->0).content && out[k].symbol
                    == 100
            &&& shown[i] is None && upto == 1 ==> out == gathered.candidates
        }),
    decreases upto,
{
    let out = with_symbols(gathered, expansion, hits, shown, upto).candidates;
    let before = with_symbols(gathered, expansion, hits, shown, upto - 1).candidates;
    if shown[upto - 1] is Some {
        a_candidate_names_its_query(
            symbol_candidate(expansion, hits[upto - 1], shown[upto - 1]->0),
            expansion.query@,
            "symbol"@,
            (upto - 1) as usize,
        );
    }
    if i < upto - 1 {
        shown_symbols_are_candidates(gathered, expansion, hits, shown, upto - 1, i);
        if shown[i] is Some {
            let k = choose|k: int|
                gathered.candidates.len() <= k < before.len() && (#[trigger] before[k]).path
                    == hits[i].path && before[k].content == (shown[i]->0).content
                    && before[k].symbol == 100;
            assert(out[k] == before[k]);
        }
    } else {
        if upto > 1 {
            shown_symbols_are_candidates(gathered, expansion, hits, shown, upto - 1, 0);
        } else {
            assert(before == gathered.candidates);
        }
        if shown[i] is Some {
            let k = before.len() as int;
            assert(out[k].path == hits[i].path);
        }
    }
}

/// A reference that can be shown is a candidate; what was gathered before stays in its
/// place.
pub proof fn shown_references_are_candidates(
    gathered: GatheredView,
    expansion: QueryExpansion<'_>,
    hits: Seq<ReferenceHitView>,
    shown: Seq<Option<ExcerptView>>,
    upto: int,
    i: int,
)
    requires
        0 <= i < upto <= hits.len(),
        upto <= shown.len(),
    ensures
        ({
            let out = with_references(gathered, expansion, hits, shown, upto).candidates;
            &&& gathered.candidates.is_prefix_of(out)
            &&& out.len() <= gathered.candidates.len() + upto
            &&& shown[i] is Some ==> exists|k: int|
                gathered.candidates.len() <= k < out.len() && (#[trigger] out[k]).path
                    == hits[i].path && out[k].content == (shown[i]->0).content
                    && out[k].reference == 100
        }),
    decreases upto,
{
    let out = with_references(gathered, expansion, hits, shown, upto).candidates;
    let before = with_references(gathered, expansion, hits, shown, upto - 1).candidates;
    if shown[upto - 1] is Some {
        a_candidate_names_its_query(
            reference_candidate(expansion, hits[upto - 1], shown[upto - 1]->0),
            expansion.query@,
            "reference"@,
            (upto - 1) as usize,
        );
    }
    if i < upto - 1 {
        shown_references_are_candidates(gathered, expansion, hits, shown, upto - 1, i);
        if shown[i] is Some {
            let k = choose|k: int|
                gathered.candidates.len() <= k < before.len() && (#[trigger] before[k]).path
                    == hits[i].path && before[k].content == (shown[i]->0).content
                    && before[k].reference == 100;
            assert(out[k] == before[k]);
        }
    } else {
        if upto > 1 {
            shown_references_are_candidates(gathered, expansion, hits, shown, upto - 1, 0);
        } else {
            assert(before == gathered.candidates);
        }
        if shown[i] is Some {
            let k = before.len() as int;
            assert(out[k].path == hits[i].path);
        }
    }
}

/// A text that can be shown is a candidate; what was gathered before stays in its place.
pub proof fn shown_texts_are_candidates(
    gathered: GatheredView,
    expansion: QueryExpansion<'_>,
    list: Seq<LexicalMatchView>,
    shown: Seq<Option<ExcerptView>>,
    upto: int,
    i: int,
)
    requires
        0 <= i < upto <= list.len(),
        upto <= shown.len(),
    ensures
        ({
            let out = with_texts(gathered, expansion, list, shown, upto).candidates;
            &&& gathered.candidates.is_prefix_of(out)
            &&& out.len() <= gathered.candidates.len() + upto
            &&& shown[i] is Some ==> exists|k: int|
                gathered.candidates.len() <= k < out.len() && (#[trigger] out[k]).path
                    == list[i].path && out[k].content == (shown[i]->0).content
                    && out[k].lexical is Some
        }),
    decreases upto,
{
    let out = with_texts(gathered, expansion, list, shown, upto).candidates;
    let before = with_texts(gathered, expansion, list, shown, upto - 1).candidates;
    if shown[upto - 1] is Some {
        a_candidate_names_its_query(
            text_candidate(expansion, list[upto - 1], shown[upto - 1]->0),
            expansion.query@,
            "text"@,
            list[upto - 1].rank,
        );
    }
    if i < upto - 1 {
        shown_texts_are_candidates(gathered, expansion, list, shown, upto - 1, i);
        if shown[i] is Some {
            let k = choose|k: int|
                gathered.candidates.len() <= k < before.len() && (#[trigger] before[k]).path
                    == list[i].path && before[k].content == (shown[i]->0).content
                    && before[k].lexical is Some;
            assert(out[k] == before[k]);
        }
    } else {
        if upto > 1 {
            shown_texts_are_candidates(gathered, expansion, list, shown, upto - 1, 0);
        } else {
            assert(before == gathered.candidates);
        }
        if shown[i] is Some {
            let k = before.len() as int;
            assert(out[k].path == list[i].path);
        }
    }
}

/// A query that asks for no callers has no references.
pub proof fn callers_have_to_be_asked_for(expansion: QueryExpansion<'_>, evidence: QueryEvidence)
    ensures
        !expansion.caller ==> references_of(expansion, evidence).len() == 0,
        expansion.caller ==> references_of(expansion, evidence).len() == evidence.references@.len(),
{
}

/// A reference without a declaration around it is shown by itself with up to two lines
/// above and two below, in no more than twelve lines.
pub proof fn a_reference_is_shown_with_two_lines_around(hit: ReferenceHitView)
    requires
        1 <= hit.start_line <= hit.end_line,
        hit.end_line + 2 <= usize::MAX,
    ensures
        ({
            let asked = reference_lines(hit);
            &&& asked.file_id == hit.file_id
            &&& asked.required_start_line == hit.start_line
            &&& asked.required_end_line == hit.end_line
            &&& 1 <= asked.desired_start_line <= hit.start_line <= asked.desired_start_line + 2
            &&& asked.desired_end_line == hit.end_line + 2
            &&& asked.max_lines == 12
        }),
{
}

/// A symbol is asked for by its own lines, a reference by those of the declaration around
/// it, and each within the budget of the whole request.
pub proof fn excerpts_are_asked_for_by_their_lines(
    symbols: Seq<SymbolHitView>,
    references: Seq<ReferenceHitView>,
    enclosing: Seq<Option<LineRange>>,
    token_budget: usize,
    i: int,
)
    requires
        0 <= i < symbols.len(),
        references.len() == 1,
        enclosing.len() == 1,
    ensures
        symbol_requests(symbols, token_budget).len() == symbols.len(),
        symbol_requests(symbols, token_budget)[i].file_id == symbols[i].file_id,
        symbol_requests(symbols, token_budget)[i].declaration_start == symbols[i].start_line,
        symbol_requests(symbols, token_budget)[i].declaration_end == symbols[i].end_line,
        symbol_requests(symbols, token_budget)[i].matched_line == symbols[i].start_line,
        symbol_requests(symbols, token_budget)[i].selection_budget == Some(token_budget),
        enclosing[0] is None ==> reference_requests(references, enclosing, token_budget, 1).len()
            == 0,
        enclosing[0] is Some ==> {
            let asked = reference_requests(references, enclosing, token_budget, 1);
            &&& asked.len() == 1
            &&& asked[0].file_id == references[0].file_id
            &&& asked[0].declaration_start == (enclosing[0]->0).start
            &&& asked[0].declaration_end == (enclosing[0]->0).end
            &&& asked[0].matched_line == references[0].start_line
        },
{
    reveal_with_fuel(reference_requests, 2);
}

/// Answers stand with what asked for them: the first that asked has the first answer, and
/// what did not ask has none.
pub proof fn answers_stand_with_their_questions(
    asked: Seq<bool>,
    answers: Seq<Option<ExcerptView>>,
    i: int,
)
    requires
        0 <= i < asked.len(),
    ensures
        scattered(asked, answers).len() == asked.len(),
        !asked[i] ==> scattered(asked, answers)[i] is None,
        asked[i] && (forall|k: int| 0 <= k < i ==> !asked[k]) && answers.len() > 0 ==> scattered(
            asked,
            answers,
        )[i] == answers[0],
        asked[i] && (forall|k: int| 0 <= k < i ==> #[trigger] asked[k]) && i < answers.len()
            ==> scattered(asked, answers)[i] == answers[i],
{
    if forall|k: int| 0 <= k < i ==> !asked[k] {
        counts_set(asked, i, false);
    }
    if forall|k: int| 0 <= k < i ==> #[trigger] asked[k] {
        counts_set(asked, i, true);
    }
}

proof fn counts_set(flags: Seq<bool>, upto: int, set: bool)
    requires
        0 <= upto <= flags.len(),
        forall|k: int| 0 <= k < upto ==> flags[k] == set,
    ensures
        flags_set(flags, upto) == if set {
            upto
        } else {
            0
        },
    decreases upto,
{
    if upto > 0 {
        counts_set(flags, upto - 1, set);
    }
}

/// The paths of chunks that are not allowed are told as passed over, and no others.
pub proof fn barred_chunks_are_passed_over(
    chunks: Seq<ChunkHitView>,
    allowed: Seq<bool>,
    upto: int,
)
    requires
        0 <= upto <= chunks.len(),
        chunks.len() == allowed.len(),
    ensures
        forall|i: int|
            0 <= i < upto && !allowed[i] ==> excluded_chunks(chunks, allowed, upto).contains(
                (#[trigger] chunks[i]).path,
            ),
        excluded_chunks(chunks, allowed, upto).len() + flags_set(allowed, upto) == upto,
    decreases upto,
{
    if upto > 0 {
        barred_chunks_are_passed_over(chunks, allowed, upto - 1);
        let before = excluded_chunks(chunks, allowed, upto - 1);
        let out = excluded_chunks(chunks, allowed, upto);
        assert forall|i: int| 0 <= i < upto && !allowed[i] implies out.contains(
            (#[trigger] chunks[i]).path,
        ) by {
            if i < upto - 1 {
                let n = choose|n: int| 0 <= n < before.len() && before[n] == chunks[i].path;
                assert(out[n] == chunks[i].path);
            } else {
                assert(out[before.len() as int] == chunks[i].path);
            }
        }
    }
}

} // verus!
