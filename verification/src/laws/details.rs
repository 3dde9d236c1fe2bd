//! What weighs how much, and what is told where it is missing.

use crate::change_receipt::{
    ambiguity_gap, identity_of, owner_gap, owner_match, test_like, with_identity, IdentityView,
    SymbolView,
};
use crate::context::candidates::constraints::{evidence_files, in_scope, JudgedView};
use crate::context::candidates::focus::{
    chunk_focus, focus_fallback, FocusExpansion, FocusFileView,
};
use crate::context::delivery::flag_at;
use crate::context::diagnostics::{no_counters, no_timings};
use crate::context::facets::{spaced, word_weight, FacetView, Vocabulary};
use crate::context::finalize::omission_warning;
use crate::context::plan::{atom_facets, phrase_facets, term_facets};
use crate::context::response::{paths_selected, with_diagnostics};
use crate::history::fit_diff::with_source;
use crate::history::types::DiffSymbolsView;
use crate::lists::{filter_map, tally};
use crate::model::{ContextRequest, RelatedView};
use crate::response::{ContextFocusPathCoverage, ContextView};
use crate::text::{decimal_round_trip, decimal_text, number_of, stripped_end};
use vstd::prelude::*;

verus! {

/// An atom weighs a hundred as what it is, ninety as configuration and ninety-five as
/// anything else; what was there before stays.
pub proof fn atoms_weigh_by_their_kind(
    facets: Seq<FacetView>,
    atoms: Seq<Seq<char>>,
    vocabulary: Vocabulary,
    upto: int,
)
    requires
        0 <= upto <= atoms.len(),
    ensures
        ({
            let out = atom_facets(facets, atoms, vocabulary, upto);
            &&& facets.is_prefix_of(out)
            &&& forall|i: int|
                facets.len() <= i < out.len() ==> (#[trigger] out[i]).weight == if
                out[i].kind is ExactAtom {
                    100u32
                } else if out[i].kind is Configuration {
                    90
                } else {
                    95
                }
        }),
    decreases upto,
{
    if upto > 0 {
        atoms_weigh_by_their_kind(facets, atoms, vocabulary, upto - 1);
    }
}

/// A phrase is about behavior and weighs eighty-five; what was there before stays.
pub proof fn phrases_are_about_behavior(
    facets: Seq<FacetView>,
    phrases: Seq<Seq<char>>,
    upto: int,
)
    requires
        0 <= upto <= phrases.len(),
    ensures
        ({
            let out = phrase_facets(facets, phrases, upto);
            &&& facets.is_prefix_of(out)
            &&& forall|i: int|
                facets.len() <= i < out.len() ==> (#[trigger] out[i]).weight == 85
                    && out[i].kind is Behavior && phrases.contains(out[i].original)
        }),
    decreases upto,
{
    if upto > 0 {
        phrases_are_about_behavior(facets, phrases, upto - 1);
        assert(phrases.contains(phrases[upto - 1]));
    }
}

/// A term weighs by its length and is about behavior or about configuration; what was
/// there before stays.
pub proof fn terms_weigh_by_their_length(facets: Seq<FacetView>, terms: Seq<Seq<char>>, upto: int)
    requires
        0 <= upto <= terms.len(),
    ensures
        ({
            let out = term_facets(facets, terms, upto);
            &&& facets.is_prefix_of(out)
            &&& forall|i: int|
                facets.len() <= i < out.len() ==> (#[trigger] out[i]).weight == word_weight(
                    out[i].original,
                ) && (out[i].kind is Behavior || out[i].kind is Configuration) && terms.contains(
                    out[i].original,
                )
        }),
    decreases upto,
{
    if upto > 0 {
        terms_weigh_by_their_length(facets, terms, upto - 1);
        assert(terms.contains(terms[upto - 1]));
    }
}

/// A hyphenated text is also looked for with blanks for its hyphens and all else as it is.
pub proof fn hyphens_become_blanks(s: Seq<char>, i: int)
    requires
        0 <= i < s.len(),
    ensures
        spaced(s).len() == s.len(),
        s[i] == '-' ==> spaced(s)[i] == ' ',
        s[i] != '-' ==> spaced(s)[i] == s[i],
{
}

/// A symbol that a revision has more than once under one identity is told as ambiguous,
/// and no other.
pub proof fn ambiguous_symbols_are_told(
    before: Seq<SymbolView>,
    after: Seq<SymbolView>,
    id: IdentityView,
)
    ensures
        ambiguity_gap(before, after)(id) is Some <==> tally(
            before,
            |symbol: SymbolView| identity_of(symbol) == id,
        ) >= 2 || tally(after, |symbol: SymbolView| identity_of(symbol) == id) >= 2,
        ambiguity_gap(before, after)(id) matches Some(gap) ==> gap == id.path + ":"@ + id.name
            + ":ambiguous_symbol_identity"@,
{
    assert(with_identity(id) =~= |symbol: SymbolView| identity_of(symbol) == id);
}

/// A changed path is told to have owner tests left out exactly where it is no test and
/// more than eight tests are named after it.
pub proof fn left_out_owner_tests_are_told(relationships: Seq<RelatedView>, changed: Seq<char>)
    ensures
        owner_gap(relationships)(changed) is Some <==> !test_like(changed) && filter_map(
            relationships,
            owner_match(changed),
        ).len() > 8,
        owner_gap(relationships)(changed) matches Some(gap) ==> gap == changed
            + ":owner_test_paths_truncated"@,
{
}

/// A file is kept for required evidence only where its pattern matches it and the request
/// allows it; a file that is not allowed changes nothing.
pub proof fn evidence_is_taken_from_allowed_files(
    request: ContextRequest,
    files: Seq<JudgedView>,
    upto: int,
    i: int,
)
    requires
        0 < upto <= files.len(),
        0 <= i < request.required_evidence@.len(),
    ensures
        ({
            let before = evidence_files(request, files, upto - 1);
            let after = evidence_files(request, files, upto);
            let file = files[upto - 1];
            &&& after.len() == request.required_evidence@.len()
            &&& !file.verdicts.allowed || !in_scope(request, file.file.path) || !flag_at(
                file.verdicts.evidence,
                i,
            ) ==> after[i] == before[i]
        }),
    decreases upto,
{
    if upto > 1 {
        evidence_is_taken_from_allowed_files(request, files, upto - 1, i);
    } else {
        assert(evidence_files(request, files, 0).len() == request.required_evidence@.len());
    }
}

/// A file of a focus path without relevant chunks falls back on the one of them that
/// begins first, and on none exactly where every chunk is relevant.
pub proof fn a_focus_file_falls_back_on_its_first_chunk(
    expansion: FocusExpansion<'_>,
    pattern: Seq<char>,
    file: FocusFileView,
    upto: int,
    i: int,
)
    requires
        0 <= i < upto <= file.chunks.len(),
    ensures
        ({
            let out = focus_fallback(expansion, pattern, file, upto);
            let chunk = chunk_focus(expansion, pattern, file, file.chunks[i]);
            &&& chunk.relevance == 0 ==> out is Some && (out->0).candidate.start_line
                <= chunk.candidate.start_line
            &&& out matches Some(found) ==> found.relevance == 0
        }),
    decreases upto,
{
    if i < upto - 1 {
        a_focus_file_falls_back_on_its_first_chunk(expansion, pattern, file, upto - 1, i);
    } else if upto > 1 {
        a_focus_file_falls_back_on_its_first_chunk(expansion, pattern, file, upto - 1, 0);
    } else {
        assert(focus_fallback(expansion, pattern, file, 0) is None);
    }
}

/// A warning tells of an omission exactly where it is a number with the word behind it.
pub proof fn an_omission_is_told_by_a_number(count: usize, warning: Seq<char>)
    ensures
        omission_warning(decimal_text(count as nat) + " omitted"@),
        stripped_end(warning, " omitted"@) is None ==> !omission_warning(warning),
        omission_warning(warning) ==> stripped_end(warning, " omitted"@) is Some && number_of(
            stripped_end(warning, " omitted"@)->0,
            usize::MAX as nat,
        ) is Some,
{
    let number = decimal_text(count as nat);
    let text = number + " omitted"@;
    let n = number.len() as int;
    assert(text.subrange(n, text.len() as int) =~= " omitted"@);
    assert(text.take(n) =~= number);
    assert(text.subrange(0, n) =~= number);
    decimal_round_trip(count as nat, usize::MAX as nat);
}

/// Coverage of a focus path takes its diagnostics from what was selected and keeps its own
/// number of eligible paths, none where it has none.
pub proof fn diagnostics_come_from_what_was_selected(
    target: ContextFocusPathCoverage,
    selected: ContextFocusPathCoverage,
)
    ensures
        selected.diagnostics is None ==> with_diagnostics(target, selected) == target,
        selected.diagnostics matches Some(told) ==> (with_diagnostics(
            target,
            selected,
        ).diagnostics matches Some(kept) && kept.generated_fragments == told.generated_fragments
            && kept.capacity_blocker == told.capacity_blocker && kept.eligible_paths == (
        if target.diagnostics is Some {
            (target.diagnostics->0).eligible_paths
        } else {
            0
        })),
        with_diagnostics(target, selected).indexed_paths == target.indexed_paths,
        with_diagnostics(target, selected).minimum_fragments == target.minimum_fragments,
{
}

/// What a response selected are the paths of its plan where it has one, else those of its
/// fragments.
pub proof fn selected_paths_are_those_of_the_plan_or_the_fragments(view: ContextView, i: int)
    ensures
        view.plan matches Some(plan) ==> paths_selected(view).len() == plan.candidates.len() && (
        0 <= i < plan.candidates.len() ==> paths_selected(view)[i] == plan.candidates[i].path),
        view.plan is None ==> paths_selected(view).len() == view.fragments.len() && (0 <= i
            < view.fragments.len() ==> paths_selected(view)[i] == view.fragments[i].path@),
{
}

/// A tracker begins with nothing counted and no time spent.
pub proof fn a_tracker_begins_with_nothing()
    ensures
        ({
            let c = no_counters();
            &&& c.queries_planned == 0 && c.queries_executed == 0 && c.exact_symbol_names == 0
            &&& c.exact_symbol_batches == 0 && c.exact_symbol_hits == 0 && c.symbol_candidates
                == 0
            &&& c.reference_candidates == 0 && c.lexical_candidate_chunks == 0
            &&& c.lexical_chunks_verified == 0 && c.lexical_matches == 0
            &&& c.enclosing_location_batches == 0 && c.enclosing_location_requests == 0
            &&& c.unique_enclosing_locations == 0 && c.adaptive_excerpt_batches == 0
            &&& c.adaptive_excerpt_requests == 0 && c.unique_adaptive_excerpt_requests == 0
            &&& c.stored_excerpt_batches == 0 && c.stored_excerpt_requests == 0
            &&& c.unique_stored_excerpt_requests == 0 && c.generated_candidates == 0
            &&& no_timings().total == 0 && no_timings().symbol_search == 0
            &&& no_timings().lexical_search == 0 && no_timings().ranking_finalize == 0
            &&& no_timings().candidate_generation == 0 && no_timings().workflow_generation == 0
        }),
{
}

/// A comparison that is counted again keeps its results, and without a difference it
/// retains no bytes.
pub proof fn without_differences_no_bytes_are_retained(view: DiffSymbolsView, tokens: usize)
    ensures
        with_source(view, tokens).results == view.results,
        with_source(view, tokens).meta.source_tokens == tokens,
        view.results.len() == 0 ==> with_source(view, tokens).diagnostics.retained_diff_bytes == 0,
        with_source(view, tokens).diagnostics.git_subprocesses
            == view.diagnostics.git_subprocesses,
{
}

} // verus!
