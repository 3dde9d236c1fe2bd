//! What a response delivers, and what it says of how far a request is covered.

use crate::accounting::{Measurement, ReceiptResourceDecoration, ServiceCallOptions};
use crate::context::delivery::{
    decided, delivered, focus_counted, kept_fragments, kept_tokens, receipt_applied, scope_covered,
    ReceiptDecision, ReceiptEvaluation, ReceiptEvidence,
};
use crate::context::finalize::{
    bare_fragments, context_fitted, fitted_bare, fitted_from, less, omission_warning, other_warning,
    refreshed, removed_tokens, resettled, trimmed_selection, without_reasons,
};
use crate::context::policy::ContextPolicy;
use crate::context::response::{merged_coverage, not_in};
use crate::error::Error;
use crate::lists::{filter_map, filter_map_members};
use crate::model::{ContextRequest, ResponseMeta};
use crate::response::{
    ContextFocusCapacityBlocker, ContextFocusPathCoverage, ContextFragment, ContextResponse,
    ContextView, CoverageView,
};
use crate::text::{decimal_text, optional_text};
use vstd::prelude::*;

verus! {

/// Whether a receipt lets a fragment through.
pub open spec fn lets_through(decision: ReceiptDecision) -> bool {
    !(decision is SuppressExact) && !(decision is SuppressOverlap)
}

/// Whether a fragment is one that was let through.
pub open spec fn was_let_through(
    fragments: Seq<ContextFragment>,
    decisions: Seq<ReceiptDecision>,
    fragment: ContextFragment,
) -> bool {
    exists|i: int|
        0 <= i < fragments.len() && lets_through(decisions[i]) && #[trigger] fragments[i]
            == fragment
}

proof fn what_is_let_through_is_kept(
    fragments: Seq<ContextFragment>,
    decisions: Seq<ReceiptDecision>,
    upto: int,
)
    requires
        0 <= upto <= fragments.len(),
        upto <= decisions.len(),
    ensures
        forall|i: int|
            0 <= i < upto && lets_through(decisions[i]) ==> kept_fragments(
                fragments,
                decisions,
                upto,
            ).contains(#[trigger] fragments[i]),
        forall|j: int|
            0 <= j < kept_fragments(fragments, decisions, upto).len() ==> exists|i: int|
                0 <= i < upto && lets_through(decisions[i]) && #[trigger] fragments[i] == (
                #[trigger] kept_fragments(fragments, decisions, upto)[j]),
        kept_fragments(fragments, decisions, upto).len() <= upto,
        (forall|i: int| 0 <= i < upto ==> lets_through(#[trigger] decisions[i]))
            ==> kept_fragments(fragments, decisions, upto) == fragments.take(upto),
    decreases upto,
{
    if upto > 0 {
        what_is_let_through_is_kept(fragments, decisions, upto - 1);
        let before = kept_fragments(fragments, decisions, upto - 1);
        let out = kept_fragments(fragments, decisions, upto);
        assert forall|i: int| 0 <= i < upto && lets_through(decisions[i]) implies out.contains(
            #[trigger] fragments[i],
        ) by {
            if i < upto - 1 {
                assert(before.contains(fragments[i]));
                let j = choose|j: int| 0 <= j < before.len() && before[j] == fragments[i];
                assert(out[j] == fragments[i]);
            } else {
                assert(out[before.len() as int] == fragments[i]);
            }
        }
        assert forall|j: int| 0 <= j < out.len() implies exists|i: int|
            0 <= i < upto && lets_through(decisions[i]) && #[trigger] fragments[i] == (
            #[trigger] out[j]) by {
            if j < before.len() {
                assert(out[j] == before[j]);
                let i = choose|i: int|
                    0 <= i < upto - 1 && lets_through(decisions[i]) && #[trigger] fragments[i]
                        == before[j];
                assert(fragments[i] == out[j]);
            } else {
                assert(fragments[upto - 1] == out[j]);
            }
        }
        if forall|i: int| 0 <= i < upto ==> lets_through(#[trigger] decisions[i]) {
            assert(lets_through(decisions[upto - 1]));
            assert(out =~= fragments.take(upto));
        }
    }
}

/// A receipt holds back what it covers already and nothing else: a fragment is
/// delivered exactly where the receipt does not suppress it. The response names the
/// hashes of what it delivers, in the same order, and repeats what the receipt counted.
pub proof fn a_receipt_holds_back_what_it_covers(
    view: ContextView,
    evaluation: ReceiptEvaluation,
    out: ContextView,
)
    requires
        receipt_applied(view, evaluation, out),
        evaluation.decisions@.len() == view.fragments.len(),
    ensures
        forall|i: int|
            0 <= i < view.fragments.len() && lets_through(evaluation.decisions@[i])
                ==> out.fragments.contains(#[trigger] view.fragments[i]),
        forall|j: int|
            0 <= j < out.fragments.len() ==> was_let_through(
                view.fragments,
                evaluation.decisions@,
                #[trigger] out.fragments[j],
            ),
        out.receipt.fragment_hashes.len() == out.fragments.len(),
        forall|j: int|
            0 <= j < out.fragments.len() ==> #[trigger] out.receipt.fragment_hashes[j]
                == out.fragments[j].content_hash@,
        out.meta.receipt_suppressed_exact == evaluation.suppressed_exact,
        out.meta.receipt_suppressed_overlap == evaluation.suppressed_overlap,
        out.meta.receipt_near_duplicates == evaluation.near_duplicates,
        optional_text(out.meta.receipt_id) == optional_text(evaluation.receipt_id),
        out.warnings.len() >= view.warnings.len(),
        out.warnings.take(view.warnings.len() as int) == view.warnings,
        evaluation.near_duplicates == 0 && out.fragments.len() > 0 ==> out.warnings
            == view.warnings,
        evaluation.near_duplicates > 0 ==> out.warnings.len() > view.warnings.len()
            && out.warnings[view.warnings.len() as int] == decimal_text(
            evaluation.near_duplicates as nat,
        ) + " returned fragments are semantic near-duplicates of prior receipt evidence"@,
        out.fragments.len() == 0 && (evaluation.suppressed_exact > 0
            || evaluation.suppressed_overlap > 0) ==> out.warnings.last()
            == "all selected evidence was already covered by the receipt"@,
        out.fragments.len() == 0 && evaluation.suppressed_exact == 0
            && evaluation.suppressed_overlap == 0 && view.omission_summary.budget_or_result_limit
            == 0 ==> out.warnings.last() == "no relevant indexed evidence found"@,
{
    let upto = view.fragments.len() as int;
    what_is_let_through_is_kept(view.fragments, evaluation.decisions@, upto);
    assert(decided(view.fragments.len(), evaluation.decisions@.len()) == upto);
    let kept = kept_fragments(view.fragments, evaluation.decisions@, upto);
    assert(out.fragments == kept);
    assert forall|j: int| 0 <= j < out.fragments.len() implies was_let_through(
        view.fragments,
        evaluation.decisions@,
        #[trigger] out.fragments[j],
    ) by {
        let i = choose|i: int|
            0 <= i < upto && lets_through(evaluation.decisions@[i]) && #[trigger] view.fragments[i]
                == kept[j];
        assert(view.fragments[i] == out.fragments[j]);
    }
    assert(out.warnings.take(view.warnings.len() as int) =~= view.warnings);
    if evaluation.near_duplicates == 0 && out.fragments.len() > 0 {
        assert(out.warnings =~= view.warnings);
    }
}

/// The source tokens of a delivery are those of what it delivers: a fragment that is
/// let through adds its own, up to the largest number, and one that is held back adds
/// none.
pub proof fn tokens_count_what_is_delivered(
    decisions: Seq<ReceiptDecision>,
    sizes: Seq<usize>,
    i: int,
)
    requires
        0 <= i < decisions.len(),
        decisions.len() == sizes.len(),
    ensures
        kept_tokens(decisions, sizes, 0) == 0,
        !lets_through(decisions[i]) ==> kept_tokens(decisions, sizes, i + 1) == kept_tokens(
            decisions,
            sizes,
            i,
        ),
        lets_through(decisions[i]) && kept_tokens(decisions, sizes, i) + sizes[i] <= usize::MAX
            ==> kept_tokens(decisions, sizes, i + 1) == kept_tokens(decisions, sizes, i) + sizes[i],
{
}

/// A response that is delivered within a ceiling takes no more tokens than that.
pub proof fn a_delivered_response_stays_within_its_ceiling<
    S: Fn(&ContextResponse, &ResponseMeta, ReceiptResourceDecoration) -> Measurement,
    E: Fn(&Vec<ReceiptEvidence>) -> Result<ReceiptEvaluation, Error>,
>(
    measure: S,
    evaluate: E,
    view: ContextView,
    request: ContextRequest,
    policy: ContextPolicy,
    options: ServiceCallOptions,
    out: ContextView,
)
    requires
        delivered(measure, evaluate, view, request, policy, options, out),
        options.max_response_tokens is Some,
    ensures
        out.meta.total_response_tokens <= options.max_response_tokens->0,
{
}

/// A focus path is covered exactly where an indexed path matches it and at least its
/// minimum of fragments was selected. Where it is told why not, that is: no indexed
/// path, then no path that the policy admits, then too many files for too few
/// candidates, then what held it back before, and else that nothing was generated.
pub proof fn a_focus_path_is_covered_by_its_minimum(
    focus: ContextFocusPathCoverage,
    selected: usize,
)
    ensures
        ({
            let out = focus_counted(focus, selected);
            &&& out.satisfied <==> focus.indexed_paths > 0 && selected >= focus.minimum_fragments
            &&& out.selected_fragments == selected
            &&& out.pattern == focus.pattern
            &&& out.indexed_paths == focus.indexed_paths
            &&& out.minimum_fragments == focus.minimum_fragments
            &&& out.diagnostics is Some <==> focus.diagnostics is Some
            &&& out.diagnostics is Some ==> {
                let told = (out.diagnostics->0).capacity_blocker;
                let known = focus.diagnostics->0;
                &&& told is None <==> out.satisfied
                &&& told == Some(ContextFocusCapacityBlocker::NoIndexedPaths) <== !out.satisfied
                    && focus.indexed_paths == 0
                &&& !out.satisfied && focus.indexed_paths > 0 && known.eligible_paths == 0
                    ==> told == Some(ContextFocusCapacityBlocker::PathPolicy)
                &&& !out.satisfied && focus.indexed_paths > 0 && known.eligible_paths > 4
                    && known.generated_fragments < focus.minimum_fragments ==> told == Some(
                    ContextFocusCapacityBlocker::CandidateFanoutLimit,
                )
                &&& !out.satisfied && focus.indexed_paths > 0 && 0 < known.eligible_paths <= 4
                    && known.capacity_blocker is None ==> told == Some(
                    ContextFocusCapacityBlocker::CandidateGeneration,
                )
                &&& !out.satisfied && focus.indexed_paths > 0 && 0 < known.eligible_paths <= 4
                    && known.capacity_blocker is Some ==> told == known.capacity_blocker
            }
        }),
{
}

/// The paths of a request are satisfied exactly where every focus path is covered, if
/// it constrains them, and, if it keeps strictly to changed paths, an indexed changed
/// path was selected. A request that asks for neither keeps what was told before.
pub proof fn a_path_scope_is_satisfied_by_all_its_parts(
    coverage: CoverageView,
    request: ContextRequest,
    selected: Seq<Seq<char>>,
    matched: Seq<Vec<bool>>,
    indexed: Seq<bool>,
)
    requires
        !request.strict_changed_paths ==> coverage.changed_path_coverage is None,
    ensures
        ({
            let out = scope_covered(coverage, request, selected, matched, indexed);
            let focused = request.strict_focus_paths || request.minimum_fragments_per_focus_path
                is Some;
            &&& !focused && !request.strict_changed_paths ==> out.path_scope_satisfied
                == coverage.path_scope_satisfied
            &&& focused || request.strict_changed_paths ==> (out.path_scope_satisfied == Some(true)
                <==> (focused ==> forall|i: int|
                0 <= i < out.focus_path_coverage.len() ==> (
                #[trigger] out.focus_path_coverage[i]).satisfied) && (request.strict_changed_paths
                ==> (out.changed_path_coverage->0).satisfied))
            &&& out.focus_path_coverage.len() == coverage.focus_path_coverage.len()
            &&& request.strict_changed_paths ==> out.changed_path_coverage is Some && {
                let changed = out.changed_path_coverage->0;
                &&& changed.satisfied <==> request.changed_paths@.len() > 0 && changed.indexed_paths
                    > 0 && changed.selected_fragments > 0
            }
            &&& out.required_evidence == coverage.required_evidence
            &&& out.covered_must_include_paths == coverage.covered_must_include_paths
        }),
{
}

/// What is told of required evidence joins what was looked for with what was selected:
/// it is satisfied only where an indexed path matches and the selection satisfies it;
/// the whole is satisfied exactly where each piece is. Nothing that no indexed evidence
/// matches counts as merely not selected.
pub proof fn coverage_joins_what_was_found_and_selected(
    found: CoverageView,
    selected: CoverageView,
)
    requires
        found.required_evidence.len() == selected.required_evidence.len(),
    ensures
        ({
            let out = merged_coverage(found, selected);
            &&& out.required_evidence.len() == found.required_evidence.len()
            &&& forall|i: int|
                0 <= i < out.required_evidence.len() ==> {
                    &&& (#[trigger] out.required_evidence[i]).path == found.required_evidence[i].path
                    &&& out.required_evidence[i].indexed_paths
                        == found.required_evidence[i].indexed_paths
                    &&& out.required_evidence[i].selected_fragments
                        == selected.required_evidence[i].selected_fragments
                    &&& out.required_evidence[i].matched_queries
                        == selected.required_evidence[i].matched_queries
                    &&& out.required_evidence[i].satisfied <==> found.required_evidence[i].indexed_paths
                        > 0 && selected.required_evidence[i].satisfied
                }
            &&& out.required_evidence.len() > 0 ==> (out.evidence_scope_satisfied == Some(true)
                <==> forall|i: int|
                0 <= i < out.required_evidence.len() ==> (
                #[trigger] out.required_evidence[i]).satisfied)
            &&& out.required_evidence.len() == 0 ==> out.evidence_scope_satisfied
                == found.evidence_scope_satisfied
            &&& out.covered_must_include_paths == selected.covered_must_include_paths
            &&& out.unmatched_must_include_paths == found.unmatched_must_include_paths
            &&& forall|i: int|
                0 <= i < out.uncovered_must_include_paths.len() ==> {
                    &&& selected.uncovered_must_include_paths.contains(
                        #[trigger] out.uncovered_must_include_paths[i],
                    )
                    &&& !found.unmatched_must_include_paths.contains(
                        out.uncovered_must_include_paths[i],
                    )
                }
            &&& forall|k: int|
                0 <= k < selected.uncovered_must_include_paths.len()
                    && !found.unmatched_must_include_paths.contains(
                    #[trigger] selected.uncovered_must_include_paths[k],
                ) ==> out.uncovered_must_include_paths.contains(
                    selected.uncovered_must_include_paths[k],
                )
            &&& forall|i: int|
                0 <= i < out.uncovered_must_include_symbols.len() ==> {
                    &&& selected.uncovered_must_include_symbols.contains(
                        #[trigger] out.uncovered_must_include_symbols[i],
                    )
                    &&& !found.unmatched_must_include_symbols.contains(
                        out.uncovered_must_include_symbols[i],
                    )
                }
        }),
{
    let out = merged_coverage(found, selected);
    filter_map_members(
        selected.uncovered_must_include_paths,
        not_in(found.unmatched_must_include_paths),
    );
    filter_map_members(
        selected.uncovered_must_include_symbols,
        not_in(found.unmatched_must_include_symbols),
    );
    assert forall|k: int|
        0 <= k < selected.uncovered_must_include_paths.len()
            && !found.unmatched_must_include_paths.contains(
            #[trigger] selected.uncovered_must_include_paths[k],
        ) implies out.uncovered_must_include_paths.contains(
        selected.uncovered_must_include_paths[k],
    ) by {
        let f = not_in(found.unmatched_must_include_paths);
        assert(f(selected.uncovered_must_include_paths[k]) is Some);
    }
}

/// A selection is cut from its end: the first fragments stay as they were, with their
/// hashes, and every fragment that goes is counted as omitted for the budget.
pub proof fn a_selection_is_cut_from_its_end(view: ContextView, keep: usize)
    requires
        view.plan is None,
        view.omission_summary.budget_or_result_limit + view.fragments.len() <= usize::MAX,
    ensures
        ({
            let out = trimmed_selection(view, keep);
            let kept = if keep < view.fragments.len() {
                keep as int
            } else {
                view.fragments.len() as int
            };
            &&& out.fragments == view.fragments.take(kept)
            &&& out.omission_summary.budget_or_result_limit
                == view.omission_summary.budget_or_result_limit + (view.fragments.len() - kept)
            &&& view.receipt.fragment_hashes.len() == view.fragments.len()
                ==> out.receipt.fragment_hashes == view.receipt.fragment_hashes.take(kept)
            &&& out.meta.source_tokens <= view.meta.source_tokens
            &&& kept == view.fragments.len() ==> out.meta.source_tokens == view.meta.source_tokens
        }),
{
    let tokens = removed_tokens(view, keep);
    less_is_no_more(view.meta.source_tokens, tokens, tokens.len() as int);
    let out = trimmed_selection(view, keep);
    if keep >= view.fragments.len() {
        assert(out.fragments =~= view.fragments.take(view.fragments.len() as int));
        assert(view.receipt.fragment_hashes =~= view.receipt.fragment_hashes.take(
            view.receipt.fragment_hashes.len() as int,
        ));
    }
}

proof fn less_is_no_more(start: usize, amounts: Seq<usize>, upto: int)
    ensures
        less(start, amounts, upto) <= start,
    decreases upto,
{
    if 0 < upto <= amounts.len() {
        less_is_no_more(start, amounts, upto - 1);
    }
}

/// A plan is cut from its end likewise, and is complete no more where anything goes.
pub proof fn a_plan_is_cut_from_its_end(view: ContextView, keep: usize)
    requires
        view.plan is Some,
    ensures
        ({
            let out = trimmed_selection(view, keep);
            let all = (view.plan->0).candidates;
            let kept = if keep < all.len() {
                keep as int
            } else {
                all.len() as int
            };
            &&& out.plan is Some
            &&& (out.plan->0).candidates == all.take(kept)
            &&& (out.plan->0).result_complete <==> (view.plan->0).result_complete && kept
                == all.len()
            &&& (out.plan->0).estimated_source_tokens <= (view.plan->0).estimated_source_tokens
        }),
{
    let all = (view.plan->0).candidates;
    let tokens = removed_tokens(view, keep);
    less_is_no_more((view.plan->0).estimated_source_tokens, tokens, tokens.len() as int);
    if keep >= all.len() {
        assert(all.take(all.len() as int) =~= all);
    }
}

/// The warnings of a response begin with how much was omitted, exactly where something
/// was, and then hold every other warning that there was, and no stale count.
pub proof fn warnings_begin_with_what_was_omitted(view: ContextView)
    requires
        view.omission_summary.path_excluded + view.omission_summary.known_hash
            + view.omission_summary.budget_or_result_limit <= usize::MAX,
    ensures
        ({
            let out = refreshed(view);
            let omitted = view.omission_summary.path_excluded + view.omission_summary.known_hash
                + view.omission_summary.budget_or_result_limit;
            &&& omitted > 0 ==> out.warnings.len() > 0 && out.warnings[0] == decimal_text(
                omitted as nat,
            ) + " omitted"@
            &&& forall|i: int|
                (if omitted > 0 {
                    1int
                } else {
                    0
                }) <= i < out.warnings.len() ==> {
                    &&& !omission_warning(#[trigger] out.warnings[i])
                    &&& view.warnings.contains(out.warnings[i])
                }
            &&& forall|k: int|
                0 <= k < view.warnings.len() && !omission_warning(#[trigger] view.warnings[k])
                    ==> out.warnings.contains(view.warnings[k])
            &&& out.fragments == view.fragments
            &&& out.omission_summary == view.omission_summary
        }),
{
    let out = refreshed(view);
    let rest = filter_map(view.warnings, other_warning());
    let omitted = view.omission_summary.path_excluded + view.omission_summary.known_hash
        + view.omission_summary.budget_or_result_limit;
    let start: int = if omitted > 0 {
        1
    } else {
        0
    };
    filter_map_members(view.warnings, other_warning());
    assert forall|i: int| start <= i < out.warnings.len() implies {
        &&& !omission_warning(#[trigger] out.warnings[i])
        &&& view.warnings.contains(out.warnings[i])
    } by {
        assert(out.warnings[i] == rest[i - start]);
        let k = choose|k: int|
            0 <= k < view.warnings.len() && other_warning()(#[trigger] view.warnings[k]) == Some(
                rest[i - start],
            );
        assert(view.warnings[k] == out.warnings[i]);
    }
    assert forall|k: int|
        0 <= k < view.warnings.len() && !omission_warning(
            #[trigger] view.warnings[k],
        ) implies out.warnings.contains(view.warnings[k]) by {
        assert(other_warning()(view.warnings[k]) is Some);
        assert(rest.contains(view.warnings[k]));
        let j = choose|j: int| 0 <= j < rest.len() && rest[j] == view.warnings[k];
        assert(out.warnings[j + start] == view.warnings[k]);
    }
}

/// A request that insists on paths, symbols, evidence, focus or a changed scope keeps
/// every selected fragment when its response is fitted: only reasons, listings and
/// receipts are left out, never a fragment's path, lines or content.
pub proof fn what_a_request_insists_on_is_not_cut<
    S: Fn(&ContextResponse, &ResponseMeta, ReceiptResourceDecoration) -> Measurement,
>(
    measure: S,
    view: ContextView,
    request: ContextRequest,
    policy: ContextPolicy,
    shaped: bool,
    max: usize,
    out: ContextView,
)
    requires
        context_fitted(measure, view, request, policy, shaped, max, out),
        request.include_paths@.len() > 0 || request.must_include_paths@.len() > 0
            || request.must_include_symbols@.len() > 0 || request.required_evidence@.len() > 0
            || request.focus_paths@.len() > 0 || request.focus_symbols@.len() > 0
            || request.changed_paths@.len() > 0 || request.strict_changed_paths
            || request.base_revision is Some || policy.focus.minimum is Some
            || view.handoff_manifest is Some,
    ensures
        out.fragments.len() == view.fragments.len(),
        forall|i: int|
            0 <= i < out.fragments.len() ==> {
                &&& (#[trigger] out.fragments[i]).path == view.fragments[i].path
                &&& out.fragments[i].start_line == view.fragments[i].start_line
                &&& out.fragments[i].end_line == view.fragments[i].end_line
                &&& out.fragments[i].content == view.fragments[i].content
                &&& out.fragments[i].content_hash == view.fragments[i].content_hash
            },
{
    let settled = choose|settled: ContextView|
        #[trigger] resettled(measure, view, settled) && fitted_from(
            measure,
            settled,
            request,
            policy,
            shaped,
            max,
            out,
        );
    assert(settled.fragments == view.fragments);
    let listed = crate::context::finalize::without_omissions(settled);
    let plain = crate::context::finalize::without_evidence(listed);
    let bare = crate::context::finalize::without_routing(plain);
    assert(bare.fragments == view.fragments);
    if fitted_bare(measure, bare, request, policy, shaped, max, out) && out.fragments
        != view.fragments {
        let silent = choose|silent: ContextView|
            #[trigger] without_reasons(bare, silent) && {
                ||| crate::context::finalize::fits_within(measure, silent, policy, shaped, max)
                    && resettled(measure, silent, out)
                ||| {
                    &&& crate::context::finalize::exceeds(measure, silent, policy, shaped, max)
                    &&& crate::context::finalize::can_reduce(request, policy, silent)
                    &&& crate::context::finalize::fits_within(measure, out, policy, shaped, max)
                    &&& exists|keep: usize| #[trigger]
                        crate::context::finalize::reduced(
                            measure,
                            silent,
                            policy,
                            shaped,
                            max,
                            keep,
                            out,
                        )
                }
            };
        assert(silent.handoff_manifest == view.handoff_manifest);
        assert(!crate::context::finalize::can_reduce(request, policy, silent));
        assert(resettled(measure, silent, out));
        assert(out.fragments == silent.fragments);
        assert(bare_fragments(bare.fragments, silent.fragments));
    }
}

} // verus!
