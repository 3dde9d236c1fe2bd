//! Fitting a context response to its ceiling, and settling its counts.

use crate::accounting::{
    budget_fault, counts, with_counts, Measurement, PrefixSizing, ReceiptResourceDecoration,
    ResponseBudget, RECEIPT_ID_RESPONSE_RESERVE,
};
use crate::context::policy::ContextPolicy;
use crate::error::{Error, Fault, ResponseBudgetBreakdown};
use crate::fitting::{settle_meta, settle_meta_for, settles_all, settles_at};
use crate::handoff::note;
use crate::lists::{filter_map, filter_map_push};
use crate::model::{ContextRequest, IndexConsistency, ResponseMeta};
use crate::ordered::{first_of, views};
use crate::response::{
    ContextFragment, ContextPlan, ContextPlanCandidate, ContextResponse, ContextView, ManifestView,
    OmissionView, PlanCandidateView, PlanView, ReceiptView, RoutingView, ScopeView,
};
use crate::services::Services;
use crate::text::{
    appended, copy_text, decimal, decimal_text, number_of, optional_text, parse_number,
    strip_end_text, stripped_end, texts,
};
use vstd::prelude::*;

verus! {

/// Whether `outcome` may come of settling a response that reads as `view`.
pub open spec fn measures<
    S: Fn(&ContextResponse, &ResponseMeta, ReceiptResourceDecoration) -> Measurement,
>(
    measure: S,
    view: ContextView,
    decoration: ReceiptResourceDecoration,
    outcome: Result<ResponseMeta, Error>,
) -> bool {
    &&& exists|response: ContextResponse|
        response@ == view && #[trigger] settles_at(measure, response, decoration, outcome)
    &&& outcome matches Ok(meta) ==> meta == with_counts(view.meta, counts(meta))
}

/// Whether every response can be measured.
pub open spec fn settles<
    S: Fn(&ContextResponse, &ResponseMeta, ReceiptResourceDecoration) -> Measurement,
>(measure: S) -> bool {
    settles_all::<ContextResponse, S>(measure)
}

/// A response with other metadata.
pub open spec fn with_meta(view: ContextView, meta: ResponseMeta) -> ContextView {
    ContextView { meta, ..view }
}

/// A response whose routing answers for a state of the repository.
pub open spec fn with_consistency(view: ContextView, consistency: IndexConsistency) -> ContextView {
    ContextView {
        routing: match view.routing {
            Some(routing) => Some(RoutingView { consistency, ..routing }),
            None => None,
        },
        ..view
    }
}

/// Lets the routing of a response answer for a state of the repository.
pub fn set_routing_consistency(response: &mut ContextResponse, consistency: IndexConsistency)
    ensures
        final(response)@ == with_consistency(old(response)@, consistency),
{
    let mut routing = None;
    std::mem::swap(&mut routing, &mut response.routing);
    if let Some(mut value) = routing {
        value.consistency = consistency;
        response.routing = Some(value);
    }
}

/// What stands for the receipt of a response that has none yet.
pub open spec fn reserve_id(policy: ContextPolicy) -> Seq<char> {
    match policy.receipt() {
        Some(id) => id,
        None => RECEIPT_ID_RESPONSE_RESERVE@,
    }
}

/// The warning of fragments that resemble earlier ones.
pub open spec fn near_duplicate_warning(count: nat) -> Seq<char> {
    decimal_text(count)
        + " returned fragments are semantic near-duplicates of prior receipt evidence"@
}

/// A manifest that names a receipt.
pub open spec fn with_receipt(manifest: Option<ManifestView>, id: Option<Seq<char>>) -> Option<
    ManifestView,
> {
    match manifest {
        Some(value) => Some(ManifestView { receipt_id: id, ..value }),
        None => None,
    }
}

/// Whether `sized` is a response with all that a receipt may add to it.
pub open spec fn reserves_for(view: ContextView, policy: ContextPolicy, sized: ContextView) -> bool {
    let routed = with_consistency(view, IndexConsistency::ReconcileWorkingTree);
    let count = view.fragments.len() as usize;
    if policy.delivery is Plan {
        sized == routed
    } else {
        &&& sized == (ContextView {
            meta: sized.meta,
            warnings: view.warnings.push(near_duplicate_warning(view.fragments.len())).push(
                "all selected evidence was already covered by the receipt"@,
            ),
            handoff_manifest: with_receipt(view.handoff_manifest, Some(reserve_id(policy))),
            ..routed
        })
        &&& sized.meta == (ResponseMeta {
            receipt_id: sized.meta.receipt_id,
            receipt_suppressed_exact: count,
            receipt_suppressed_overlap: count,
            receipt_near_duplicates: count,
            ..view.meta
        })
        &&& optional_text(sized.meta.receipt_id) == Some(reserve_id(policy))
    }
}

/// Whether a measured payload names its receipt.
pub open spec fn decoration_of(shaped: bool, meta: ResponseMeta) -> ReceiptResourceDecoration {
    if shaped && meta.receipt_id is Some {
        ReceiptResourceDecoration::Include
    } else {
        ReceiptResourceDecoration::Omit
    }
}

/// Whether `outcome` may be said of a response with room for a receipt.
pub open spec fn reserve_measures<
    S: Fn(&ContextResponse, &ResponseMeta, ReceiptResourceDecoration) -> Measurement,
>(
    measure: S,
    view: ContextView,
    policy: ContextPolicy,
    shaped: bool,
    outcome: Result<ResponseMeta, Error>,
) -> bool {
    exists|sized: ContextView|
        #[trigger] reserves_for(view, policy, sized) && measures(
            measure,
            sized,
            decoration_of(shaped, sized.meta),
            outcome,
        )
}

/// Whether a response may be said to take a number of tokens with room for a
/// receipt, or measuring it to fail.
pub open spec fn takes<
    S: Fn(&ContextResponse, &ResponseMeta, ReceiptResourceDecoration) -> Measurement,
>(
    measure: S,
    view: ContextView,
    policy: ContextPolicy,
    shaped: bool,
    outcome: Result<usize, Error>,
) -> bool {
    match outcome {
        Ok(tokens) => exists|meta: ResponseMeta|
            #[trigger] reserve_measures(measure, view, policy, shaped, Ok(meta)) && tokens
                == meta.total_response_tokens,
        Err(e) => reserve_measures(measure, view, policy, shaped, Err(e)),
    }
}

/// Whether a response may be said to fit.
pub open spec fn fits_within<
    S: Fn(&ContextResponse, &ResponseMeta, ReceiptResourceDecoration) -> Measurement,
>(measure: S, view: ContextView, policy: ContextPolicy, shaped: bool, max: usize) -> bool {
    exists|tokens: usize|
        tokens <= max && #[trigger] takes(measure, view, policy, shaped, Ok(tokens))
}

/// Whether a response may be said not to fit.
pub open spec fn exceeds<
    S: Fn(&ContextResponse, &ResponseMeta, ReceiptResourceDecoration) -> Measurement,
>(measure: S, view: ContextView, policy: ContextPolicy, shaped: bool, max: usize) -> bool {
    exists|tokens: usize|
        tokens > max && #[trigger] takes(measure, view, policy, shaped, Ok(tokens))
}

/// Whether a warning says how much was left out.
pub open spec fn omission_warning(warning: Seq<char>) -> bool {
    match stripped_end(warning, " omitted"@) {
        Some(count) => number_of(count, usize::MAX as nat) is Some,
        None => false,
    }
}

/// A warning, where it does not say how much was left out.
pub open spec fn other_warning() -> spec_fn(Seq<char>) -> Option<Seq<char>> {
    |warning: Seq<char>|
        if omission_warning(warning) {
            None
        } else {
            Some(warning)
        }
}

/// A sum that stops at the largest number.
pub open spec fn capped(a: usize, b: usize) -> usize {
    if a + b > usize::MAX {
        usize::MAX
    } else {
        (a + b) as usize
    }
}

/// How much was left out.
pub open spec fn omitted_count(summary: OmissionView) -> usize {
    capped(
        capped(summary.path_excluded, summary.known_hash),
        summary.budget_or_result_limit,
    )
}

/// A response that says first how much was left out.
pub open spec fn refreshed(view: ContextView) -> ContextView {
    ContextView {
        warnings: note(
            omitted_count(view.omission_summary) > 0,
            decimal_text(omitted_count(view.omission_summary) as nat) + " omitted"@,
        ) + filter_map(view.warnings, other_warning()),
        ..view
    }
}

/// A number without the first `upto` amounts, never below zero.
pub open spec fn less(start: usize, amounts: Seq<usize>, upto: int) -> usize
    decreases upto,
{
    if upto <= 0 || upto > amounts.len() {
        start
    } else {
        let before = less(start, amounts, upto - 1);
        if amounts[upto - 1] > before {
            0
        } else {
            (before - amounts[upto - 1]) as usize
        }
    }
}

/// What of a list stands behind the first `keep`.
pub open spec fn beyond<A>(list: Seq<A>, keep: usize) -> Seq<A> {
    if keep < list.len() {
        list.subrange(keep as int, list.len() as int)
    } else {
        Seq::empty()
    }
}

/// The tokens of candidates.
pub open spec fn candidate_tokens(list: Seq<PlanCandidateView>) -> Seq<usize> {
    Seq::new(list.len(), |i: int| list[i].estimated_tokens)
}

/// The tokens of fragments.
pub open spec fn fragment_tokens(list: Seq<ContextFragment>) -> Seq<usize> {
    Seq::new(list.len(), |i: int| list[i].token_count)
}

/// The tokens of what is not among the first `keep` of the selection.
pub open spec fn removed_tokens(view: ContextView, keep: usize) -> Seq<usize> {
    match view.plan {
        Some(plan) => candidate_tokens(beyond(plan.candidates, keep)),
        None => fragment_tokens(beyond(view.fragments, keep)),
    }
}

/// A response with only the first `keep` of its selection.
pub open spec fn trimmed_selection(view: ContextView, keep: usize) -> ContextView {
    let tokens = removed_tokens(view, keep);
    let meta = ResponseMeta {
        source_tokens: less(view.meta.source_tokens, tokens, tokens.len() as int),
        ..view.meta
    };
    let summary = OmissionView {
        budget_or_result_limit: capped(
            view.omission_summary.budget_or_result_limit,
            tokens.len() as usize,
        ),
        ..view.omission_summary
    };
    refreshed(
        match view.plan {
            Some(plan) => ContextView {
                meta,
                omission_summary: summary,
                plan: Some(
                    PlanView {
                        candidates: first_of(plan.candidates, keep as int),
                        estimated_source_tokens: less(
                            plan.estimated_source_tokens,
                            tokens,
                            tokens.len() as int,
                        ),
                        result_complete: plan.result_complete && tokens.len() == 0,
                    },
                ),
                ..view
            },
            None => ContextView {
                meta,
                omission_summary: summary,
                fragments: first_of(view.fragments, keep as int),
                receipt: ReceiptView {
                    fragment_hashes: first_of(view.receipt.fragment_hashes, keep as int),
                    ..view.receipt
                },
                ..view
            },
        },
    )
}

/// A response without the lists of what was left out.
pub open spec fn without_omissions(view: ContextView) -> ContextView {
    ContextView {
        omitted: Seq::empty(),
        omission_summary: OmissionView {
            by_path: Seq::empty(),
            by_language_or_file_type: Seq::empty(),
            by_reason: Seq::empty(),
            by_score_band: Seq::empty(),
            ..view.omission_summary
        },
        ..view
    }
}

/// A response without the evidence of its changed scope.
pub open spec fn without_evidence(view: ContextView) -> ContextView {
    ContextView {
        diff_scope: match view.diff_scope {
            Some(scope) => Some(ScopeView { evidence: None, ..scope }),
            None => None,
        },
        ..view
    }
}

/// A response without routing.
pub open spec fn without_routing(view: ContextView) -> ContextView {
    ContextView { routing: None, ..view }
}

/// Candidates without reasons.
pub open spec fn unreasoned(list: Seq<PlanCandidateView>) -> Seq<PlanCandidateView> {
    Seq::new(list.len(), |i: int| PlanCandidateView { reasons: Seq::empty(), ..list[i] })
}

/// Whether fragments are others but for their reasons, which are empty.
pub open spec fn bare_fragments(list: Seq<ContextFragment>, out: Seq<ContextFragment>) -> bool {
    &&& out.len() == list.len()
    &&& forall|i: int|
        0 <= i < list.len() ==> (#[trigger] out[i]) == (ContextFragment {
            reason: out[i].reason,
            ..list[i]
        }) && out[i].reason@.len() == 0
}

/// Whether `out` is a response without the reasons of its selection.
pub open spec fn without_reasons(view: ContextView, out: ContextView) -> bool {
    &&& bare_fragments(view.fragments, out.fragments)
    &&& out == (ContextView {
        fragments: out.fragments,
        plan: match view.plan {
            Some(plan) => Some(PlanView { candidates: unreasoned(plan.candidates), ..plan }),
            None => None,
        },
        ..view
    })
}

/// Whether nothing in a request holds its selection in place.
pub open spec fn can_reduce(
    request: ContextRequest,
    policy: ContextPolicy,
    view: ContextView,
) -> bool {
    &&& request.include_paths@.len() == 0
    &&& request.must_include_paths@.len() == 0
    &&& request.must_include_symbols@.len() == 0
    &&& request.required_evidence@.len() == 0
    &&& request.focus_paths@.len() == 0
    &&& request.focus_symbols@.len() == 0
    &&& policy.focus.minimum is None
    &&& request.base_revision is None
    &&& request.changed_paths@.len() == 0
    &&& !request.strict_changed_paths
    &&& view.handoff_manifest is None
}

/// The size of a selection.
pub open spec fn selection_len(view: ContextView) -> nat {
    match view.plan {
        Some(plan) => plan.candidates.len(),
        None => view.fragments.len(),
    }
}

/// A response with the first `keep` of its selection, sized as if all of it had
/// been left out.
pub open spec fn sized_selection(view: ContextView, keep: usize, reserve: usize) -> ContextView {
    let trimmed = trimmed_selection(view, keep);
    refreshed(
        ContextView {
            omission_summary: OmissionView {
                budget_or_result_limit: reserve,
                ..trimmed.omission_summary
            },
            ..trimmed
        },
    )
}

fn subtract_all(start: usize, amounts: &Vec<usize>) -> (r: usize)
    ensures
        r == less(start, amounts@, amounts@.len() as int),
{
    let mut left: usize = start;
    let mut i: usize = 0;
    while i < amounts.len()
        invariant
            i <= amounts.len(),
            left == less(start, amounts@, i as int),
        decreases amounts.len() - i,
    {
        left = left.saturating_sub(amounts[i]);
        i += 1;
    }
    left
}

fn tokens_beyond_candidates(list: &Vec<ContextPlanCandidate>, keep: usize) -> (r: Vec<usize>)
    ensures
        r@ == candidate_tokens(beyond(views(list@), keep)),
{
    let ghost all = candidate_tokens(beyond(views(list@), keep));
    let mut out: Vec<usize> = Vec::new();
    let mut i: usize = keep;
    while i < list.len()
        invariant
            keep <= i,
            i <= list.len() || i == keep,
            all == candidate_tokens(beyond(views(list@), keep)),
            out@ == all.take(i - keep),
        decreases list.len() - i,
    {
        out.push(list[i].estimated_tokens);
        assert(out@ =~= all.take(i - keep + 1));
        i += 1;
    }
    assert(out@ =~= all);
    out
}

fn tokens_beyond_fragments(list: &Vec<ContextFragment>, keep: usize) -> (r: Vec<usize>)
    ensures
        r@ == fragment_tokens(beyond(list@, keep)),
{
    let ghost all = fragment_tokens(beyond(list@, keep));
    let mut out: Vec<usize> = Vec::new();
    let mut i: usize = keep;
    while i < list.len()
        invariant
            keep <= i,
            i <= list.len() || i == keep,
            all == fragment_tokens(beyond(list@, keep)),
            out@ == all.take(i - keep),
        decreases list.len() - i,
    {
        out.push(list[i].token_count);
        assert(out@ =~= all.take(i - keep + 1));
        i += 1;
    }
    assert(out@ =~= all);
    out
}

fn is_omission_warning(warning: &str) -> (r: bool)
    ensures
        r == omission_warning(warning@),
{
    match strip_end_text(warning, " omitted") {
        Some(count) => parse_number(count.as_str(), usize::MAX as u64).is_some(),
        None => false,
    }
}

/// The error of a response that does not fit with room for a receipt.
pub(crate) fn exceeded_error(meta: &ResponseMeta, provided: usize, minimum: usize) -> (r: Error)
    ensures
        r@ == budget_fault(*meta, provided, minimum),
{
    Error::ResponseBudgetExceeded {
        provided_max_response_tokens: provided,
        minimum_required_response_tokens: minimum,
        retry_with_at_least: minimum,
        breakdown: ResponseBudgetBreakdown {
            mandatory_response_tokens: meta.total_response_tokens,
            source_tokens: meta.source_tokens,
            protocol_tokens: meta.protocol_tokens,
            path_and_metadata_tokens: meta.path_and_metadata_tokens,
            receipt_reserve_tokens: minimum.saturating_sub(meta.total_response_tokens),
        },
    }
}

fn clear_reasons(list: Vec<ContextPlanCandidate>) -> (r: Vec<ContextPlanCandidate>)
    ensures
        views(r@) == unreasoned(views(list@)),
{
    let ghost all = unreasoned(views(list@));
    let mut out: Vec<ContextPlanCandidate> = Vec::new();
    let mut i: usize = 0;
    while i < list.len()
        invariant
            i <= list.len(),
            all == unreasoned(views(list@)),
            views(out@) == all.take(i as int),
        decreases list.len() - i,
    {
        let ghost before = views(out@);
        let mut bare = list[i].duplicate();
        bare.reasons = Vec::new();
        assert(bare@.reasons =~= Seq::<Seq<char>>::empty());
        let ghost added = bare@;
        out.push(bare);
        assert(views(out@) =~= before.push(added));
        assert(views(out@) =~= all.take(i + 1));
        i += 1;
    }
    assert(views(out@) =~= all);
    out
}

fn clear_fragment_reasons(list: Vec<ContextFragment>) -> (r: Vec<ContextFragment>)
    ensures
        bare_fragments(list@, r@),
{
    let mut out: Vec<ContextFragment> = Vec::new();
    let mut i: usize = 0;
    while i < list.len()
        invariant
            i <= list.len(),
            bare_fragments(list@.take(i as int), out@),
        decreases list.len() - i,
    {
        let ghost before = out@;
        let mut bare = list[i].duplicate();
        bare.reason = String::new();
        out.push(bare);
        proof {
            let given = list@.take(i + 1);
            assert forall|k: int| 0 <= k < given.len() implies (#[trigger] out@[k]) == (
            ContextFragment { reason: out@[k].reason, ..given[k] }) && out@[k].reason@.len()
                == 0 by {
                if k < i {
                    assert(out@[k] == before[k]);
                    assert(given[k] == list@.take(i as int)[k]);
                }
            }
        }
        i += 1;
    }
    assert(list@.take(list@.len() as int) =~= list@);
    out
}

/// Whether `out` is a response whose counts were settled.
pub open spec fn resettled<
    S: Fn(&ContextResponse, &ResponseMeta, ReceiptResourceDecoration) -> Measurement,
>(measure: S, view: ContextView, out: ContextView) -> bool {
    exists|meta: ResponseMeta|
        #[trigger] measures(measure, view, ReceiptResourceDecoration::Omit, Ok(meta)) && out
            == with_meta(view, meta)
}

/// How much may have been left out of a response at most.
pub open spec fn omission_reserve(view: ContextView) -> usize {
    capped(view.omission_summary.budget_or_result_limit, selection_len(view) as usize)
}

/// Whether `keep` may be how much of a selection fits.
pub open spec fn prefix_kept<
    S: Fn(&ContextResponse, &ResponseMeta, ReceiptResourceDecoration) -> Measurement,
>(
    measure: S,
    view: ContextView,
    policy: ContextPolicy,
    shaped: bool,
    max: usize,
    keep: usize,
) -> bool {
    let reserve = omission_reserve(view);
    &&& keep <= selection_len(view)
    &&& fits_within(measure, sized_selection(view, keep, reserve), policy, shaped, max)
    &&& keep < selection_len(view) ==> exceeds(
        measure,
        sized_selection(view, (keep + 1) as usize, reserve),
        policy,
        shaped,
        max,
    )
}

/// Whether `out` is a response with as much of its selection as fits.
pub open spec fn reduced<
    S: Fn(&ContextResponse, &ResponseMeta, ReceiptResourceDecoration) -> Measurement,
>(
    measure: S,
    view: ContextView,
    policy: ContextPolicy,
    shaped: bool,
    max: usize,
    keep: usize,
    out: ContextView,
) -> bool {
    &&& prefix_kept(measure, view, policy, shaped, max, keep)
    &&& resettled(measure, trimmed_selection(view, keep), out)
}

/// Whether `out` is a settled response fitted to a ceiling: the first of its
/// leaner forms that fits.
pub open spec fn fitted_from<
    S: Fn(&ContextResponse, &ResponseMeta, ReceiptResourceDecoration) -> Measurement,
>(
    measure: S,
    view: ContextView,
    request: ContextRequest,
    policy: ContextPolicy,
    shaped: bool,
    max: usize,
    out: ContextView,
) -> bool {
    let listed = without_omissions(view);
    let plain = without_evidence(listed);
    let bare = without_routing(plain);
    if out == view && fits_within(measure, view, policy, shaped, max) {
        true
    } else {
        &&& exceeds(measure, view, policy, shaped, max)
        &&& {
            ||| fits_within(measure, listed, policy, shaped, max) && resettled(measure, listed, out)
            ||| {
                &&& exceeds(measure, listed, policy, shaped, max)
                &&& {
                    ||| fits_within(measure, plain, policy, shaped, max) && resettled(
                        measure,
                        plain,
                        out,
                    )
                    ||| {
                        &&& exceeds(measure, plain, policy, shaped, max)
                        &&& {
                            ||| fits_within(measure, bare, policy, shaped, max) && resettled(
                                measure,
                                bare,
                                out,
                            )
                            ||| exceeds(measure, bare, policy, shaped, max) && fitted_bare(
                                measure,
                                bare,
                                request,
                                policy,
                                shaped,
                                max,
                                out,
                            )
                        }
                    }
                }
            }
        }
    }
}

/// Whether `out` is a response without reasons, or with less of its selection.
pub open spec fn fitted_bare<
    S: Fn(&ContextResponse, &ResponseMeta, ReceiptResourceDecoration) -> Measurement,
>(
    measure: S,
    view: ContextView,
    request: ContextRequest,
    policy: ContextPolicy,
    shaped: bool,
    max: usize,
    out: ContextView,
) -> bool {
    exists|silent: ContextView|
        #[trigger] without_reasons(view, silent) && {
            ||| fits_within(measure, silent, policy, shaped, max) && resettled(measure, silent, out)
            ||| {
                &&& exceeds(measure, silent, policy, shaped, max)
                &&& can_reduce(request, policy, silent)
                &&& fits_within(measure, out, policy, shaped, max)
                &&& exists|keep: usize|
                    #[trigger] reduced(measure, silent, policy, shaped, max, keep, out)
            }
        }
}

/// Whether `out` is a response fitted to a ceiling.
pub open spec fn context_fitted<
    S: Fn(&ContextResponse, &ResponseMeta, ReceiptResourceDecoration) -> Measurement,
>(
    measure: S,
    view: ContextView,
    request: ContextRequest,
    policy: ContextPolicy,
    shaped: bool,
    max: usize,
    out: ContextView,
) -> bool {
    exists|settled: ContextView|
        #[trigger] resettled(measure, view, settled) && fitted_from(
            measure,
            settled,
            request,
            policy,
            shaped,
            max,
            out,
        )
}

/// Whether an error tells what a response would have needed.
pub open spec fn budget_told<
    S: Fn(&ContextResponse, &ResponseMeta, ReceiptResourceDecoration) -> Measurement,
>(
    measure: S,
    view: ContextView,
    policy: ContextPolicy,
    shaped: bool,
    max: usize,
    error: Error,
) -> bool {
    exists|minimum: usize, meta: ResponseMeta|
        {
            &&& #[trigger] takes(measure, view, policy, shaped, Ok(minimum))
            &&& #[trigger] measures(
                measure,
                with_consistency(view, IndexConsistency::ReconcileWorkingTree),
                ReceiptResourceDecoration::Omit,
                Ok(meta),
            )
            &&& error@ == budget_fault(meta, max, minimum)
        }
}

/// Whether `error` is why it could not be told what a response would have needed.
pub open spec fn budget_untold<
    S: Fn(&ContextResponse, &ResponseMeta, ReceiptResourceDecoration) -> Measurement,
>(measure: S, view: ContextView, policy: ContextPolicy, shaped: bool, error: Error) -> bool {
    ||| takes(measure, view, policy, shaped, Err(error))
    ||| measures(
        measure,
        with_consistency(view, IndexConsistency::ReconcileWorkingTree),
        ReceiptResourceDecoration::Omit,
        Err(error),
    )
}

/// Whether `error` is why a form of a response could not be measured: with room for a
/// receipt, or, where it fits, as it is.
pub open spec fn form_failed<
    S: Fn(&ContextResponse, &ResponseMeta, ReceiptResourceDecoration) -> Measurement,
>(
    measure: S,
    form: ContextView,
    policy: ContextPolicy,
    shaped: bool,
    max: usize,
    error: Error,
) -> bool {
    ||| takes(measure, form, policy, shaped, Err(error))
    ||| {
        &&& fits_within(measure, form, policy, shaped, max)
        &&& measures(measure, form, ReceiptResourceDecoration::Omit, Err(error))
    }
}

/// Whether `error` is why no part of a selection was kept.
pub open spec fn selection_unfitted<
    S: Fn(&ContextResponse, &ResponseMeta, ReceiptResourceDecoration) -> Measurement,
>(
    measure: S,
    silent: ContextView,
    policy: ContextPolicy,
    shaped: bool,
    max: usize,
    error: Error,
) -> bool {
    ||| exists|keep: usize|
        keep <= selection_len(silent) && #[trigger] takes(
            measure,
            sized_selection(silent, keep, omission_reserve(silent)),
            policy,
            shaped,
            Err(error),
        )
    ||| exists|keep: usize|
        #[trigger] prefix_kept(measure, silent, policy, shaped, max, keep) && measures(
            measure,
            trimmed_selection(silent, keep),
            ReceiptResourceDecoration::Omit,
            Err(error),
        )
    ||| exists|keep: usize, out: ContextView|
        #[trigger] reduced(measure, silent, policy, shaped, max, keep, out) && {
            ||| takes(measure, out, policy, shaped, Err(error))
            ||| {
                &&& exceeds(measure, out, policy, shaped, max)
                &&& error@ == Fault::ResponseAccountingInvariant(
                    "context prefix fitting violated its monotonic sizing reserve"@,
                )
            }
        }
    ||| {
        let none = trimmed_selection(silent, 0);
        &&& exceeds(
            measure,
            sized_selection(silent, 0, omission_reserve(silent)),
            policy,
            shaped,
            max,
        )
        &&& budget_told(measure, none, policy, shaped, max, error) || budget_untold(
            measure,
            none,
            policy,
            shaped,
            error,
        )
    }
}

/// Whether `error` is why a response in its leanest form was not fitted.
pub open spec fn unfitted_bare<
    S: Fn(&ContextResponse, &ResponseMeta, ReceiptResourceDecoration) -> Measurement,
>(
    measure: S,
    silent: ContextView,
    request: ContextRequest,
    policy: ContextPolicy,
    shaped: bool,
    max: usize,
    error: Error,
) -> bool {
    &&& exceeds(measure, silent, policy, shaped, max)
    &&& if can_reduce(request, policy, silent) {
        selection_unfitted(measure, silent, policy, shaped, max, error)
    } else {
        budget_told(measure, silent, policy, shaped, max, error) || budget_untold(
            measure,
            silent,
            policy,
            shaped,
            error,
        )
    }
}

/// Whether `error` is why a response whose counts are settled was not fitted: the
/// first of its leaner forms that could not be measured says so, or none fits.
pub open spec fn unfitted_from<
    S: Fn(&ContextResponse, &ResponseMeta, ReceiptResourceDecoration) -> Measurement,
>(
    measure: S,
    view: ContextView,
    request: ContextRequest,
    policy: ContextPolicy,
    shaped: bool,
    max: usize,
    error: Error,
) -> bool {
    let listed = without_omissions(view);
    let plain = without_evidence(listed);
    let bare = without_routing(plain);
    ||| takes(measure, view, policy, shaped, Err(error))
    ||| exceeds(measure, view, policy, shaped, max) && {
        ||| form_failed(measure, listed, policy, shaped, max, error)
        ||| exceeds(measure, listed, policy, shaped, max) && {
            ||| form_failed(measure, plain, policy, shaped, max, error)
            ||| exceeds(measure, plain, policy, shaped, max) && {
                ||| form_failed(measure, bare, policy, shaped, max, error)
                ||| exceeds(measure, bare, policy, shaped, max) && exists|silent: ContextView|
                    #[trigger] without_reasons(bare, silent) && {
                        ||| form_failed(measure, silent, policy, shaped, max, error)
                        ||| unfitted_bare(measure, silent, request, policy, shaped, max, error)
                    }
            }
        }
    }
}

/// Whether `error` is why a response was not fitted: a form of it could not be
/// measured, or none fits.
pub open spec fn context_unfitted<
    S: Fn(&ContextResponse, &ResponseMeta, ReceiptResourceDecoration) -> Measurement,
>(
    measure: S,
    view: ContextView,
    request: ContextRequest,
    policy: ContextPolicy,
    shaped: bool,
    max: usize,
    error: Error,
) -> bool {
    ||| measures(measure, view, ReceiptResourceDecoration::Omit, Err(error))
    ||| exists|settled: ContextView|
        #[trigger] resettled(measure, view, settled) && unfitted_from(
            measure,
            settled,
            request,
            policy,
            shaped,
            max,
            error,
        )
}

/// A fitted response fits its ceiling with room for a receipt, up to the counts
/// that were settled last.
pub proof fn a_fitted_response_fits<
    S: Fn(&ContextResponse, &ResponseMeta, ReceiptResourceDecoration) -> Measurement,
>(
    measure: S,
    view: ContextView,
    request: ContextRequest,
    policy: ContextPolicy,
    shaped: bool,
    max: usize,
    out: ContextView,
)
    requires
        context_fitted(measure, view, request, policy, shaped, max, out),
    ensures
        exists|lean: ContextView|
            #[trigger] fits_within(measure, lean, policy, shaped, max) && out == with_meta(
                lean,
                out.meta,
            ),
{
    let settled = choose|settled: ContextView|
        #[trigger] resettled(measure, view, settled) && fitted_from(
            measure,
            settled,
            request,
            policy,
            shaped,
            max,
            out,
        );
    let listed = without_omissions(settled);
    let plain = without_evidence(listed);
    let bare = without_routing(plain);
    if out == settled && fits_within(measure, settled, policy, shaped, max) {
    } else if fits_within(measure, listed, policy, shaped, max) && resettled(measure, listed, out) {
    } else if fits_within(measure, plain, policy, shaped, max) && resettled(measure, plain, out) {
    } else if fits_within(measure, bare, policy, shaped, max) && resettled(measure, bare, out) {
    } else {
        let silent = choose|silent: ContextView|
            #[trigger] without_reasons(bare, silent) && {
                ||| fits_within(measure, silent, policy, shaped, max) && resettled(
                    measure,
                    silent,
                    out,
                )
                ||| {
                    &&& exceeds(measure, silent, policy, shaped, max)
                    &&& can_reduce(request, policy, silent)
                    &&& fits_within(measure, out, policy, shaped, max)
                    &&& exists|keep: usize|
                        #[trigger] reduced(measure, silent, policy, shaped, max, keep, out)
                }
            };
        if fits_within(measure, silent, policy, shaped, max) && resettled(measure, silent, out) {
        } else {
            assert(fits_within(measure, out, policy, shaped, max));
        }
    }
}

struct ContextSizing<
    'a,
    S: Fn(&ContextResponse, &ResponseMeta, ReceiptResourceDecoration) -> Measurement,
> {
    original: &'a ContextResponse,
    policy: &'a ContextPolicy,
    shaped: bool,
    reserve: usize,
    measure: &'a S,
}

impl<
    'a,
    S: Fn(&ContextResponse, &ResponseMeta, ReceiptResourceDecoration) -> Measurement,
> PrefixSizing for ContextSizing<'a, S> {
    closed spec fn ready(&self) -> bool {
        settles(*self.measure)
    }

    closed spec fn says(&self, keep: usize, outcome: Result<usize, Error>) -> bool {
        takes(
            *self.measure,
            sized_selection(self.original@, keep, self.reserve),
            *self.policy,
            self.shaped,
            outcome,
        )
    }

    fn tokens(&self, keep: usize) -> (r: Result<usize, Error>) {
        let mut candidate = self.original.duplicate();
        Services::trim_context_selection(&mut candidate, keep);
        candidate.omission_summary.budget_or_result_limit = self.reserve;
        Services::refresh_context_omission_warning(&mut candidate);
        Services::context_response_tokens_with_receipt_reserve(
            &candidate,
            self.policy,
            self.shaped,
            self.measure,
        )
    }
}

fn reducible(request: &ContextRequest, policy: &ContextPolicy, response: &ContextResponse) -> (r:
    bool)
    ensures
        r == can_reduce(*request, *policy, response@),
{
    request.include_paths.len() == 0 && request.must_include_paths.len() == 0
        && request.must_include_symbols.len() == 0 && request.required_evidence.len() == 0
        && request.focus_paths.len() == 0 && request.focus_symbols.len() == 0
        && policy.focus.minimum.is_none() && request.base_revision.is_none()
        && request.changed_paths.len() == 0 && !request.strict_changed_paths
        && response.handoff_manifest.is_none()
}

fn drop_reasons(response: &mut ContextResponse)
    ensures
        without_reasons(old(response)@, final(response)@),
{
    let mut plan = None;
    std::mem::swap(&mut plan, &mut response.plan);
    if let Some(held) = plan {
        response.plan = Some(
            ContextPlan {
                candidates: clear_reasons(held.candidates),
                estimated_source_tokens: held.estimated_source_tokens,
                result_complete: held.result_complete,
            },
        );
    }
    let mut fragments: Vec<ContextFragment> = Vec::new();
    std::mem::swap(&mut fragments, &mut response.fragments);
    response.fragments = clear_fragment_reasons(fragments);
}

fn drop_omissions(response: &mut ContextResponse)
    ensures
        final(response)@ == without_omissions(old(response)@),
{
    response.omitted = Vec::new();
    response.omission_summary.by_path = Vec::new();
    response.omission_summary.by_language_or_file_type = Vec::new();
    response.omission_summary.by_reason = Vec::new();
    response.omission_summary.by_score_band = Vec::new();
    proof {
        let expected = without_omissions(old(response)@);
        assert(response@.omitted =~= expected.omitted);
        assert(response@.omission_summary.by_path =~= expected.omission_summary.by_path);
        assert(response@.omission_summary.by_language_or_file_type
            =~= expected.omission_summary.by_language_or_file_type);
        assert(response@.omission_summary.by_reason =~= expected.omission_summary.by_reason);
        assert(response@.omission_summary.by_score_band
            =~= expected.omission_summary.by_score_band);
    }
}

fn drop_evidence(response: &mut ContextResponse)
    ensures
        final(response)@ == without_evidence(old(response)@),
{
    let mut scope = None;
    std::mem::swap(&mut scope, &mut response.diff_scope);
    if let Some(mut held) = scope {
        held.evidence = None;
        response.diff_scope = Some(held);
    }
}

/// Reduces the selection of a response, or tells what it would have needed.
#[verifier::rlimit(50)]
fn reduce_selection<
    S: Fn(&ContextResponse, &ResponseMeta, ReceiptResourceDecoration) -> Measurement,
>(
    response: &mut ContextResponse,
    request: &ContextRequest,
    policy: &ContextPolicy,
    max_response_tokens: usize,
    shaped: bool,
    measure: &S,
) -> (r: Result<(), Error>)
    requires
        settles(*measure),
        exceeds(*measure, old(response)@, *policy, shaped, max_response_tokens),
    ensures
        match r {
            Ok(_) => {
                &&& can_reduce(*request, *policy, old(response)@)
                &&& fits_within(*measure, final(response)@, *policy, shaped, max_response_tokens)
                &&& exists|keep: usize|
                    #[trigger] reduced(
                        *measure,
                        old(response)@,
                        *policy,
                        shaped,
                        max_response_tokens,
                        keep,
                        final(response)@,
                    )
            },
            Err(e) => unfitted_bare(
                *measure,
                old(response)@,
                *request,
                *policy,
                shaped,
                max_response_tokens,
                e,
            ),
        },
{
    let ghost silent = response@;
    if reducible(request, policy, response) {
        let selected: usize = match &response.plan {
            Some(plan) => {
                assert(views(plan.candidates@).len() == plan.candidates@.len());
                plan.candidates.len()
            },
            None => response.fragments.len(),
        };
        let reserve: usize = response.omission_summary.budget_or_result_limit.saturating_add(
            selected,
        );
        assert(reserve == omission_reserve(silent));
        let original = response.duplicate();
        let sizing = ContextSizing { original: &original, policy, shaped, reserve, measure };
        let budget = ResponseBudget::new(max_response_tokens);
        match budget.largest_fitting_prefix(selected, &sizing) {
            Ok(Some(keep)) => {
                proof {
                    let tokens = choose|tokens: usize|
                        tokens <= max_response_tokens && #[trigger] sizing.says(keep, Ok(tokens));
                    assert(takes(
                        *measure,
                        sized_selection(silent, keep, reserve),
                        *policy,
                        shaped,
                        Ok(tokens),
                    ));
                    if keep < selected {
                        let more = (keep + 1) as usize;
                        let over = choose|tokens: usize|
                            tokens > max_response_tokens && #[trigger] sizing.says(
                                more,
                                Ok(tokens),
                            );
                        assert(takes(
                            *measure,
                            sized_selection(silent, more, reserve),
                            *policy,
                            shaped,
                            Ok(over),
                        ));
                    }
                }
                assert(prefix_kept(*measure, silent, *policy, shaped, max_response_tokens, keep));
                Services::trim_context_selection(response, keep);
                let ghost trimmed = response@;
                match Services::finalize_context_response_accounting(response, measure) {
                    Ok(_) => {},
                    Err(e) => {
                        return Err(e);
                    },
                }
                assert(resettled(*measure, trimmed, response@));
                let ghost out = response@;
                assert(reduced(
                    *measure,
                    silent,
                    *policy,
                    shaped,
                    max_response_tokens,
                    keep,
                    response@,
                ));
                return match Services::context_response_fits(
                    response,
                    policy,
                    max_response_tokens,
                    shaped,
                    measure,
                ) {
                    Ok(true) => Ok(()),
                    Ok(false) => Err(
                        Error::ResponseAccountingInvariant(
                            copy_text(
                                "context prefix fitting violated its monotonic sizing reserve",
                            ),
                        ),
                    ),
                    Err(e) => {
                        assert(takes(*measure, out, *policy, shaped, Err(e)));
                        Err(e)
                    },
                };
            },
            Ok(None) => {
                proof {
                    let over = choose|tokens: usize|
                        tokens > max_response_tokens && #[trigger] sizing.says(0, Ok(tokens));
                    assert(takes(
                        *measure,
                        sized_selection(silent, 0, reserve),
                        *policy,
                        shaped,
                        Ok(over),
                    ));
                }
                Services::trim_context_selection(response, 0);
            },
            Err(e) => {
                proof {
                    let keep = choose|keep: usize|
                        keep <= selected && #[trigger] sizing.says(keep, Err::<usize, Error>(e));
                    assert(takes(
                        *measure,
                        sized_selection(silent, keep, reserve),
                        *policy,
                        shaped,
                        Err(e),
                    ));
                }
                return Err(e);
            },
        }
    }
    let ghost last = response@;
    match Services::context_response_budget_error(
        response,
        policy,
        max_response_tokens,
        shaped,
        measure,
    ) {
        Ok(e) => {
            assert(budget_told(*measure, last, *policy, shaped, max_response_tokens, e));
            Err(e)
        },
        Err(e) => {
            assert(budget_untold(*measure, last, *policy, shaped, e));
            Err(e)
        },
    }
}

/// Whether a response fits, and its counts settled where it does.
fn settle_if_fitting<
    S: Fn(&ContextResponse, &ResponseMeta, ReceiptResourceDecoration) -> Measurement,
>(
    response: &mut ContextResponse,
    policy: &ContextPolicy,
    max_response_tokens: usize,
    shaped: bool,
    measure: &S,
) -> (r: Result<bool, Error>)
    requires
        settles(*measure),
    ensures
        match r {
            Ok(true) => fits_within(
                *measure,
                old(response)@,
                *policy,
                shaped,
                max_response_tokens,
            ) && resettled(*measure, old(response)@, final(response)@),
            Ok(false) => *final(response) == *old(response) && exceeds(
                *measure,
                old(response)@,
                *policy,
                shaped,
                max_response_tokens,
            ),
            Err(e) => form_failed(
                *measure,
                old(response)@,
                *policy,
                shaped,
                max_response_tokens,
                e,
            ),
        },
{
    match Services::context_response_fits(
        response,
        policy,
        max_response_tokens,
        shaped,
        measure,
    ) {
        Ok(true) => match Services::finalize_context_response_accounting(response, measure) {
            Ok(_) => Ok(true),
            Err(e) => Err(e),
        },
        Ok(false) => Ok(false),
        Err(e) => Err(e),
    }
}

impl Services {
    /// Settles the counts of a response.
    pub fn finalize_context_response_accounting<
        S: Fn(&ContextResponse, &ResponseMeta, ReceiptResourceDecoration) -> Measurement,
    >(response: &mut ContextResponse, measure: &S) -> (r: Result<(), Error>)
        requires
            settles(*measure),
        ensures
            match r {
                Ok(_) => exists|meta: ResponseMeta|
                    #[trigger] measures(
                        *measure,
                        old(response)@,
                        ReceiptResourceDecoration::Omit,
                        Ok(meta),
                    ) && final(response)@ == with_meta(old(response)@, meta),
                Err(e) => *final(response) == *old(response) && measures(
                    *measure,
                    old(response)@,
                    ReceiptResourceDecoration::Omit,
                    Err(e),
                ),
            },
    {
        match settle_meta(&*response, measure) {
            Ok(meta) => {
                assert(measures(*measure, response@, ReceiptResourceDecoration::Omit, Ok(meta)));
                response.meta = meta;
                Ok(())
            },
            Err(e) => {
                assert(measures(*measure, response@, ReceiptResourceDecoration::Omit, Err(e)));
                Err(e)
            },
        }
    }

    /// A copy of a response with all that a receipt may add to it, its counts
    /// settled.
    pub fn context_response_with_receipt_reserve<
        S: Fn(&ContextResponse, &ResponseMeta, ReceiptResourceDecoration) -> Measurement,
    >(response: &ContextResponse, policy: &ContextPolicy, shaped: bool, measure: &S) -> (r: Result<
        ContextResponse,
        Error,
    >)
        requires
            settles(*measure),
        ensures
            match r {
                Ok(out) => exists|sized: ContextView|
                    {
                        &&& #[trigger] reserves_for(response@, *policy, sized)
                        &&& measures(
                            *measure,
                            sized,
                            decoration_of(shaped, sized.meta),
                            Ok(out.meta),
                        )
                        &&& out@ == with_meta(sized, out.meta)
                    },
                Err(e) => reserve_measures(*measure, response@, *policy, shaped, Err(e)),
            },
    {
        let mut sized = response.duplicate();
        let ghost start = response@;
        set_routing_consistency(&mut sized, IndexConsistency::ReconcileWorkingTree);
        if !policy.is_plan() {
            let receipt_id = match policy.receipt_id() {
                Some(id) => id,
                None => copy_text(RECEIPT_ID_RESPONSE_RESERVE),
            };
            let selected: usize = sized.fragments.len();
            let mut manifest = None;
            std::mem::swap(&mut manifest, &mut sized.handoff_manifest);
            if let Some(mut value) = manifest {
                value.receipt_id = Some(receipt_id.clone());
                sized.handoff_manifest = Some(value);
            }
            sized.meta.receipt_id = Some(receipt_id);
            sized.meta.receipt_suppressed_exact = selected;
            sized.meta.receipt_suppressed_overlap = selected;
            sized.meta.receipt_near_duplicates = selected;
            let ghost held = sized@.warnings;
            let near = appended(
                decimal(selected as u64),
                " returned fragments are semantic near-duplicates of prior receipt evidence",
            );
            let ghost near_view = near@;
            sized.warnings.push(near);
            assert(texts(sized.warnings@) =~= held.push(near_view));
            let covered = copy_text("all selected evidence was already covered by the receipt");
            let ghost covered_view = covered@;
            sized.warnings.push(covered);
            assert(texts(sized.warnings@) =~= held.push(near_view).push(covered_view));
        }
        assert(reserves_for(start, *policy, sized@));
        let decoration = if shaped && sized.meta.receipt_id.is_some() {
            ReceiptResourceDecoration::Include
        } else {
            ReceiptResourceDecoration::Omit
        };
        match settle_meta_for(&sized, decoration, measure) {
            Ok(meta) => {
                let ghost before = sized@;
                assert(measures(*measure, before, decoration, Ok(meta)));
                sized.meta = meta;
                assert(sized@ == with_meta(before, meta));
                Ok(sized)
            },
            Err(e) => {
                assert(measures(*measure, sized@, decoration, Err(e)));
                Err(e)
            },
        }
    }

    /// The tokens of a response with room for a receipt.
    pub fn context_response_tokens_with_receipt_reserve<
        S: Fn(&ContextResponse, &ResponseMeta, ReceiptResourceDecoration) -> Measurement,
    >(response: &ContextResponse, policy: &ContextPolicy, shaped: bool, measure: &S) -> (r: Result<
        usize,
        Error,
    >)
        requires
            settles(*measure),
        ensures
            takes(*measure, response@, *policy, shaped, r),
    {
        match Self::context_response_with_receipt_reserve(response, policy, shaped, measure) {
            Ok(sized) => {
                assert(reserve_measures(*measure, response@, *policy, shaped, Ok(sized.meta)));
                Ok(sized.meta.total_response_tokens)
            },
            Err(e) => Err(e),
        }
    }

    /// The error that tells what a response would have needed.
    pub fn context_response_budget_error<
        S: Fn(&ContextResponse, &ResponseMeta, ReceiptResourceDecoration) -> Measurement,
    >(
        response: &ContextResponse,
        policy: &ContextPolicy,
        provided_max_response_tokens: usize,
        shaped: bool,
        measure: &S,
    ) -> (r: Result<Error, Error>)
        requires
            settles(*measure),
        ensures
            match r {
                Ok(error) => exists|minimum: usize, meta: ResponseMeta|
                    {
                        &&& #[trigger] takes(*measure, response@, *policy, shaped, Ok(minimum))
                        &&& #[trigger] measures(
                            *measure,
                            with_consistency(response@, IndexConsistency::ReconcileWorkingTree),
                            ReceiptResourceDecoration::Omit,
                            Ok(meta),
                        )
                        &&& error@ == budget_fault(meta, provided_max_response_tokens, minimum)
                    },
                Err(e) => takes(*measure, response@, *policy, shaped, Err(e)) || measures(
                    *measure,
                    with_consistency(response@, IndexConsistency::ReconcileWorkingTree),
                    ReceiptResourceDecoration::Omit,
                    Err(e),
                ),
            },
    {
        let minimum: usize = match Self::context_response_tokens_with_receipt_reserve(
            response,
            policy,
            shaped,
            measure,
        ) {
            Ok(tokens) => tokens,
            Err(e) => {
                return Err(e);
            },
        };
        let mut mandatory = response.duplicate();
        set_routing_consistency(&mut mandatory, IndexConsistency::ReconcileWorkingTree);
        match Self::finalize_context_response_accounting(&mut mandatory, measure) {
            Ok(_) => Ok(exceeded_error(&mandatory.meta, provided_max_response_tokens, minimum)),
            Err(e) => Err(e),
        }
    }

    /// Whether a response fits with room for a receipt.
    pub fn context_response_fits<
        S: Fn(&ContextResponse, &ResponseMeta, ReceiptResourceDecoration) -> Measurement,
    >(
        response: &ContextResponse,
        policy: &ContextPolicy,
        max_response_tokens: usize,
        shaped: bool,
        measure: &S,
    ) -> (r: Result<bool, Error>)
        requires
            settles(*measure),
        ensures
            match r {
                Ok(true) => fits_within(*measure, response@, *policy, shaped, max_response_tokens),
                Ok(false) => exceeds(*measure, response@, *policy, shaped, max_response_tokens),
                Err(e) => takes(*measure, response@, *policy, shaped, Err(e)),
            },
    {
        match Self::context_response_tokens_with_receipt_reserve(
            response,
            policy,
            shaped,
            measure,
        ) {
            Ok(tokens) => Ok(tokens <= max_response_tokens),
            Err(e) => Err(e),
        }
    }

    /// Lets a response say first how much was left out.
    pub fn refresh_context_omission_warning(response: &mut ContextResponse)
        ensures
            final(response)@ == refreshed(old(response)@),
    {
        let ghost start = response@;
        let ghost all = start.warnings;
        let mut kept: Vec<String> = Vec::new();
        let mut i: usize = 0;
        assert(texts(kept@) =~= filter_map(all.take(0), other_warning()));
        while i < response.warnings.len()
            invariant
                i <= response.warnings.len(),
                response@ == start,
                all == texts(response.warnings@),
                all == start.warnings,
                texts(kept@) == filter_map(all.take(i as int), other_warning()),
            decreases response.warnings.len() - i,
        {
            let ghost before = texts(kept@);
            proof {
                filter_map_push(all, other_warning(), i as int);
                assert(all[i as int] == response.warnings@[i as int]@);
            }
            if !is_omission_warning(response.warnings[i].as_str()) {
                kept.push(response.warnings[i].clone());
                assert(texts(kept@) =~= before.push(response.warnings@[i as int]@));
            }
            i += 1;
        }
        assert(all.take(all.len() as int) =~= all);
        let ghost others = texts(kept@);
        let omitted: usize = response.omission_summary.path_excluded.saturating_add(
            response.omission_summary.known_hash,
        ).saturating_add(response.omission_summary.budget_or_result_limit);
        if omitted > 0 {
            let text = appended(decimal(omitted as u64), " omitted");
            let ghost said = text@;
            kept.insert(0, text);
            assert(texts(kept@) =~= seq![said] + others);
        } else {
            assert(texts(kept@) =~= Seq::<Seq<char>>::empty() + others);
        }
        response.warnings = kept;
    }

    /// Leaves only the first `keep` of a response's selection.
    #[verifier::rlimit(40)]
    pub fn trim_context_selection(response: &mut ContextResponse, keep: usize)
        ensures
            final(response)@ == trimmed_selection(old(response)@, keep),
    {
        let ghost start = response@;
        let mut plan = None;
        std::mem::swap(&mut plan, &mut response.plan);
        let tokens = match plan {
            Some(mut held) => {
                let ghost given = held@;
                let tokens = tokens_beyond_candidates(&held.candidates, keep);
                held.candidates.truncate(keep);
                assert(views(held.candidates@) =~= first_of(given.candidates, keep as int));
                held.estimated_source_tokens = subtract_all(
                    held.estimated_source_tokens,
                    &tokens,
                );
                held.result_complete = held.result_complete && tokens.len() == 0;
                response.plan = Some(held);
                tokens
            },
            None => {
                let tokens = tokens_beyond_fragments(&response.fragments, keep);
                response.fragments.truncate(keep);
                response.receipt.fragment_hashes.truncate(keep);
                proof {
                    assert(response.fragments@ =~= first_of(start.fragments, keep as int));
                    assert(texts(response.receipt.fragment_hashes@) =~= first_of(
                        start.receipt.fragment_hashes,
                        keep as int,
                    ));
                }
                tokens
            },
        };
        assert(tokens@ == removed_tokens(start, keep));
        response.meta.source_tokens = subtract_all(response.meta.source_tokens, &tokens);
        response.omission_summary.budget_or_result_limit =
        response.omission_summary.budget_or_result_limit.saturating_add(tokens.len());
        Self::refresh_context_omission_warning(response);
    }

    /// Fits a response to a ceiling: gives up first the lists of what was left
    /// out, then the evidence of the changed scope, the routing and the reasons,
    /// and last, where nothing holds it in place, the end of the selection.
    pub fn fit_context_response<
        S: Fn(&ContextResponse, &ResponseMeta, ReceiptResourceDecoration) -> Measurement,
    >(
        response: &mut ContextResponse,
        request: &ContextRequest,
        policy: &ContextPolicy,
        max_response_tokens: usize,
        shaped: bool,
        measure: &S,
    ) -> (r: Result<(), Error>)
        requires
            settles(*measure),
        ensures
            match r {
                Ok(_) => context_fitted(
                    *measure,
                    old(response)@,
                    *request,
                    *policy,
                    shaped,
                    max_response_tokens,
                    final(response)@,
                ),
                Err(e) => context_unfitted(
                    *measure,
                    old(response)@,
                    *request,
                    *policy,
                    shaped,
                    max_response_tokens,
                    e,
                ),
            },
    {
        let ghost start = response@;
        match Self::finalize_context_response_accounting(response, measure) {
            Ok(_) => {},
            Err(e) => {
                return Err(e);
            },
        }
        let ghost settled = response@;
        assert(resettled(*measure, start, settled));
        match Self::context_response_fits(response, policy, max_response_tokens, shaped, measure) {
            Ok(true) => {
                return Ok(());
            },
            Ok(false) => {},
            Err(e) => {
                return Err(e);
            },
        }
        drop_omissions(response);
        match settle_if_fitting(response, policy, max_response_tokens, shaped, measure) {
            Ok(true) => {
                return Ok(());
            },
            Ok(false) => {},
            Err(e) => {
                return Err(e);
            },
        }
        drop_evidence(response);
        match settle_if_fitting(response, policy, max_response_tokens, shaped, measure) {
            Ok(true) => {
                return Ok(());
            },
            Ok(false) => {},
            Err(e) => {
                return Err(e);
            },
        }
        response.routing = None;
        let ghost bare = response@;
        assert(bare == without_routing(without_evidence(without_omissions(settled))));
        match settle_if_fitting(response, policy, max_response_tokens, shaped, measure) {
            Ok(true) => {
                return Ok(());
            },
            Ok(false) => {},
            Err(e) => {
                return Err(e);
            },
        }
        drop_reasons(response);
        let ghost silent = response@;
        assert(without_reasons(bare, silent));
        match settle_if_fitting(response, policy, max_response_tokens, shaped, measure) {
            Ok(true) => {
                return Ok(());
            },
            Ok(false) => {},
            Err(e) => {
                return Err(e);
            },
        }
        reduce_selection(response, request, policy, max_response_tokens, shaped, measure)
    }
}

} // verus!
