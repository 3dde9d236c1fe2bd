//! Handing a context response over: what a receipt holds back, and the last
//! settling of its counts.

use crate::accounting::{budget_fault, Measurement, ReceiptResourceDecoration, ServiceCallOptions};
use crate::context::finalize::{
    context_fitted, context_unfitted, exceeded_error, measures, near_duplicate_warning, settles,
    with_meta, with_receipt,
};
use crate::context::policy::ContextPolicy;
use crate::context::validation::MAX_CONTEXT_FOCUS_FILES_PER_PATTERN;
use crate::error::{Error, Fault};
use crate::handoff::note;
use crate::lists::{tally, tally_push};
use crate::model::{ContextRequest, ResponseMeta};
use crate::ordered::{sort_unique_texts, sorted_unique};
use crate::response::{
    ContextChangedPathCoverage, ContextCoverageReceipt, ContextFocusCapacityBlocker,
    ContextFocusPathCoverage, ContextFocusPathDiagnostics, ContextFragment, ContextResponse,
    ContextView, CoverageView, ReceiptView,
};
use crate::services::Services;
use crate::text::{
    appended, copy_text, decimal, distinct, distinct_texts, list_has, optional_text, texts,
};
use vstd::prelude::*;

verus! {

/// What a receipt decides about a fragment.
#[derive(Debug, Clone, Copy, PartialEq, Eq, Structural)]
pub enum ReceiptDecision {
    Return,
    ReturnNearDuplicate,
    SuppressExact,
    SuppressOverlap,
}

/// A fragment as a receipt is asked about it.
#[derive(Debug)]
pub struct ReceiptEvidence {
    pub path: String,
    pub start_line: usize,
    pub end_line: usize,
    pub content_hash: String,
    pub content: String,
}

/// What a receipt answered: a decision and a size for each fragment, and what
/// the response tells of the receipt.
#[derive(Debug)]
pub struct ReceiptEvaluation {
    pub decisions: Vec<ReceiptDecision>,
    pub source_tokens: Vec<usize>,
    pub receipt_id: Option<String>,
    pub suppressed_exact: usize,
    pub suppressed_overlap: usize,
    pub near_duplicates: usize,
}

/// A fragment as a receipt is asked about it.
pub open spec fn asked(fragment: ContextFragment, evidence: ReceiptEvidence) -> bool {
    &&& evidence.path == fragment.path
    &&& evidence.start_line == fragment.start_line
    &&& evidence.end_line == fragment.end_line
    &&& evidence.content_hash == fragment.content_hash
    &&& evidence.content == fragment.content
}

/// Whether a receipt is asked about fragments in their order.
pub open spec fn all_asked(fragments: Seq<ContextFragment>, list: Seq<ReceiptEvidence>) -> bool {
    &&& list.len() == fragments.len()
    &&& forall|i: int| 0 <= i < list.len() ==> asked(fragments[i], #[trigger] list[i])
}

/// What a receipt is asked about a response.
pub fn receipt_candidates(fragments: &Vec<ContextFragment>) -> (r: Vec<ReceiptEvidence>)
    ensures
        all_asked(fragments@, r@),
{
    let mut out: Vec<ReceiptEvidence> = Vec::new();
    let mut i: usize = 0;
    while i < fragments.len()
        invariant
            i <= fragments.len(),
            out@.len() == i,
            forall|k: int| 0 <= k < i ==> asked(fragments@[k], #[trigger] out@[k]),
        decreases fragments.len() - i,
    {
        let fragment = &fragments[i];
        out.push(
            ReceiptEvidence {
                path: fragment.path.clone(),
                start_line: fragment.start_line,
                end_line: fragment.end_line,
                content_hash: fragment.content_hash.clone(),
                content: fragment.content.clone(),
            },
        );
        i += 1;
    }
    out
}

/// Whether a fragment is returned.
pub open spec fn returned(decision: ReceiptDecision) -> bool {
    decision is Return || decision is ReturnNearDuplicate
}

/// The fragments among the first `upto` that are returned.
pub open spec fn kept_fragments(
    fragments: Seq<ContextFragment>,
    decisions: Seq<ReceiptDecision>,
    upto: int,
) -> Seq<ContextFragment>
    decreases upto,
{
    if upto <= 0 || upto > fragments.len() || upto > decisions.len() {
        Seq::empty()
    } else {
        let before = kept_fragments(fragments, decisions, upto - 1);
        if returned(decisions[upto - 1]) {
            before.push(fragments[upto - 1])
        } else {
            before
        }
    }
}

/// A size, or none where it is missing.
pub open spec fn size_at(sizes: Seq<usize>, i: int) -> usize {
    if 0 <= i < sizes.len() {
        sizes[i]
    } else {
        0
    }
}

/// The size of the first `upto` fragments that are returned, at most the largest
/// number.
pub open spec fn kept_tokens(
    decisions: Seq<ReceiptDecision>,
    sizes: Seq<usize>,
    upto: int,
) -> usize
    decreases upto,
{
    if upto <= 0 || upto > decisions.len() {
        0
    } else {
        let before = kept_tokens(decisions, sizes, upto - 1);
        if returned(decisions[upto - 1]) {
            crate::context::finalize::capped(before, size_at(sizes, upto - 1))
        } else {
            before
        }
    }
}

/// How many fragments have a decision.
pub open spec fn decided(fragments: nat, decisions: nat) -> nat {
    if fragments < decisions {
        fragments
    } else {
        decisions
    }
}

/// The hashes of fragments.
pub open spec fn hashes(fragments: Seq<ContextFragment>) -> Seq<Seq<char>> {
    Seq::new(fragments.len(), |i: int| fragments[i].content_hash@)
}

/// The paths of fragments.
pub open spec fn fragment_paths(fragments: Seq<ContextFragment>) -> Seq<Seq<char>> {
    Seq::new(fragments.len(), |i: int| fragments[i].path@)
}

/// Whether `out` is a response with only what a receipt returns of it.
pub open spec fn receipt_applied(
    view: ContextView,
    evaluation: ReceiptEvaluation,
    out: ContextView,
) -> bool {
    let upto = decided(view.fragments.len(), evaluation.decisions@.len()) as int;
    let kept = kept_fragments(view.fragments, evaluation.decisions@, upto);
    let held_back = evaluation.suppressed_exact > 0 || evaluation.suppressed_overlap > 0;
    &&& out == (ContextView {
        meta: out.meta,
        fragments: kept,
        receipt: ReceiptView { fragment_hashes: hashes(kept), ..view.receipt },
        warnings: view.warnings + note(
            evaluation.near_duplicates > 0,
            near_duplicate_warning(evaluation.near_duplicates as nat),
        ) + note(
            kept.len() == 0 && held_back,
            "all selected evidence was already covered by the receipt"@,
        ) + note(
            kept.len() == 0 && !held_back && view.omission_summary.budget_or_result_limit == 0,
            "no relevant indexed evidence found"@,
        ),
        ..view
    })
    &&& out.meta == (ResponseMeta {
        source_tokens: kept_tokens(evaluation.decisions@, evaluation.source_tokens@, upto),
        receipt_id: out.meta.receipt_id,
        receipt_suppressed_exact: evaluation.suppressed_exact,
        receipt_suppressed_overlap: evaluation.suppressed_overlap,
        receipt_near_duplicates: evaluation.near_duplicates,
        ..view.meta
    })
    &&& optional_text(out.meta.receipt_id) == optional_text(evaluation.receipt_id)
}

pub(crate) fn push_made(warnings: &mut Vec<String>, made: bool, text: String)
    ensures
        texts(final(warnings)@) == texts(old(warnings)@) + note(made, text@),
{
    let ghost start = texts(warnings@);
    let ghost said = text@;
    if made {
        warnings.push(text);
    }
    assert(texts(warnings@) =~= start + note(made, said));
}

fn keep_returned(fragments: &Vec<ContextFragment>, evaluation: &ReceiptEvaluation) -> (r: (
    Vec<ContextFragment>,
    Vec<String>,
    usize,
))
    ensures
        ({
            let upto = decided(fragments@.len(), evaluation.decisions@.len()) as int;
            let kept = kept_fragments(fragments@, evaluation.decisions@, upto);
            &&& r.0@ == kept
            &&& texts(r.1@) == hashes(kept)
            &&& r.2 == kept_tokens(evaluation.decisions@, evaluation.source_tokens@, upto)
        }),
{
    let mut kept: Vec<ContextFragment> = Vec::new();
    let mut marks: Vec<String> = Vec::new();
    let mut tokens: usize = 0;
    let mut i: usize = 0;
    assert(texts(marks@) =~= hashes(kept@));
    while i < fragments.len() && i < evaluation.decisions.len()
        invariant
            i <= fragments.len(),
            i <= evaluation.decisions.len(),
            kept@ == kept_fragments(fragments@, evaluation.decisions@, i as int),
            texts(marks@) == hashes(kept@),
            tokens == kept_tokens(evaluation.decisions@, evaluation.source_tokens@, i as int),
        decreases fragments.len() - i,
    {
        let keep = match evaluation.decisions[i] {
            ReceiptDecision::Return => true,
            ReceiptDecision::ReturnNearDuplicate => true,
            _ => false,
        };
        if keep {
            let ghost before = texts(marks@);
            kept.push(fragments[i].duplicate());
            marks.push(fragments[i].content_hash.clone());
            assert(texts(marks@) =~= before.push(fragments@[i as int].content_hash@));
            assert(texts(marks@) =~= hashes(kept@));
            let size: usize = if i < evaluation.source_tokens.len() {
                evaluation.source_tokens[i]
            } else {
                0
            };
            tokens = tokens.saturating_add(size);
        }
        i += 1;
    }
    (kept, marks, tokens)
}

/// Leaves in a response only what a receipt returns of it.
#[verifier::rlimit(30)]
pub fn apply_receipt(response: &mut ContextResponse, evaluation: &ReceiptEvaluation)
    ensures
        receipt_applied(old(response)@, *evaluation, final(response)@),
{
    let ghost start = response@;
    let (kept, marks, tokens) = keep_returned(&response.fragments, evaluation);
    let empty = kept.len() == 0;
    response.fragments = kept;
    response.receipt.fragment_hashes = marks;
    response.meta.source_tokens = tokens;
    response.meta.receipt_id = evaluation.receipt_id.clone();
    response.meta.receipt_suppressed_exact = evaluation.suppressed_exact;
    response.meta.receipt_suppressed_overlap = evaluation.suppressed_overlap;
    response.meta.receipt_near_duplicates = evaluation.near_duplicates;
    let held_back = evaluation.suppressed_exact > 0 || evaluation.suppressed_overlap > 0;
    let near = appended(
        decimal(evaluation.near_duplicates as u64),
        " returned fragments are semantic near-duplicates of prior receipt evidence",
    );
    push_made(&mut response.warnings, evaluation.near_duplicates > 0, near);
    push_made(
        &mut response.warnings,
        empty && held_back,
        copy_text("all selected evidence was already covered by the receipt"),
    );
    push_made(
        &mut response.warnings,
        empty && !held_back && response.omission_summary.budget_or_result_limit == 0,
        copy_text("no relevant indexed evidence found"),
    );
}

/// A response whose handoff names its receipt.
pub open spec fn receipt_named(view: ContextView) -> ContextView {
    ContextView {
        handoff_manifest: with_receipt(
            view.handoff_manifest,
            optional_text(view.meta.receipt_id),
        ),
        ..view
    }
}

/// Whether a response was fitted to a ceiling, where there is one.
pub open spec fn fitted_where_bound<
    S: Fn(&ContextResponse, &ResponseMeta, ReceiptResourceDecoration) -> Measurement,
>(
    measure: S,
    view: ContextView,
    request: ContextRequest,
    policy: ContextPolicy,
    options: ServiceCallOptions,
    out: ContextView,
) -> bool {
    match options.max_response_tokens {
        Some(max) => context_fitted(
            measure,
            view,
            request,
            policy,
            options.mcp_response_shape,
            max,
            out,
        ),
        None => out == view,
    }
}

/// Whether `out` is what is handed over of a fitted response, before its counts
/// are settled.
pub open spec fn received<
    E: Fn(&Vec<ReceiptEvidence>) -> Result<ReceiptEvaluation, Error>,
>(evaluate: E, fitted: ContextView, policy: ContextPolicy, out: ContextView) -> bool {
    if policy.delivery is Plan {
        out == receipt_named(fitted)
    } else {
        exists|asked: Vec<ReceiptEvidence>, evaluation: ReceiptEvaluation, kept: ContextView|
            {
                &&& all_asked(fitted.fragments, asked@)
                &&& #[trigger] call_ensures(evaluate, (&asked,), Ok(evaluation))
                &&& #[trigger] receipt_applied(fitted, evaluation, kept)
                &&& out == receipt_named(kept)
            }
    }
}

/// Why a response whose counts are settled is above its ceiling.
pub open spec fn over_fault(options: ServiceCallOptions, meta: ResponseMeta) -> Option<Fault> {
    match options.max_response_tokens {
        Some(max) => if meta.total_response_tokens <= max {
            None
        } else if options.mcp_response_shape {
            Some(budget_fault(meta, max, meta.total_response_tokens))
        } else {
            Some(
                Fault::ResponseAccountingInvariant(
                    "context response exceeded its fitted serialized-response budget"@,
                ),
            )
        },
        None => None,
    }
}

/// Whether `out` is a response as it is handed over.
pub open spec fn delivered<
    S: Fn(&ContextResponse, &ResponseMeta, ReceiptResourceDecoration) -> Measurement,
    E: Fn(&Vec<ReceiptEvidence>) -> Result<ReceiptEvaluation, Error>,
>(
    measure: S,
    evaluate: E,
    view: ContextView,
    request: ContextRequest,
    policy: ContextPolicy,
    options: ServiceCallOptions,
    out: ContextView,
) -> bool {
    exists|fitted: ContextView, kept: ContextView|
        {
            &&& #[trigger] fitted_where_bound(measure, view, request, policy, options, fitted)
            &&& #[trigger] received(evaluate, fitted, policy, kept)
            &&& measures(measure, kept, ReceiptResourceDecoration::Omit, Ok(out.meta))
            &&& out == with_meta(kept, out.meta)
            &&& over_fault(options, out.meta) is None
        }
}

/// Whether `error` is why a response was not handed over.
pub open spec fn undelivered<
    S: Fn(&ContextResponse, &ResponseMeta, ReceiptResourceDecoration) -> Measurement,
    E: Fn(&Vec<ReceiptEvidence>) -> Result<ReceiptEvaluation, Error>,
>(
    measure: S,
    evaluate: E,
    view: ContextView,
    request: ContextRequest,
    policy: ContextPolicy,
    options: ServiceCallOptions,
    error: Error,
) -> bool {
    ||| options.max_response_tokens is Some && context_unfitted(
        measure,
        view,
        request,
        policy,
        options.mcp_response_shape,
        options.max_response_tokens->0,
        error,
    )
    ||| exists|fitted: ContextView, asked: Vec<ReceiptEvidence>|
        {
            &&& #[trigger] fitted_where_bound(measure, view, request, policy, options, fitted)
            &&& !(policy.delivery is Plan)
            &&& all_asked(fitted.fragments, asked@)
            &&& #[trigger] call_ensures(
                evaluate,
                (&asked,),
                Err::<ReceiptEvaluation, Error>(error),
            )
        }
    ||| exists|fitted: ContextView, kept: ContextView, outcome: Result<ResponseMeta, Error>|
        {
            &&& #[trigger] fitted_where_bound(measure, view, request, policy, options, fitted)
            &&& #[trigger] received(evaluate, fitted, policy, kept)
            &&& #[trigger] measures(measure, kept, ReceiptResourceDecoration::Omit, outcome)
            &&& match outcome {
                Ok(meta) => over_fault(options, meta) == Some(error@),
                Err(e) => error == e,
            }
        }
}

fn name_receipt(response: &mut ContextResponse)
    ensures
        final(response)@ == receipt_named(old(response)@),
{
    let mut manifest = None;
    std::mem::swap(&mut manifest, &mut response.handoff_manifest);
    if let Some(mut held) = manifest {
        held.receipt_id = response.meta.receipt_id.clone();
        response.handoff_manifest = Some(held);
    }
}

/// The paths of fragments, each once and in order.
fn distinct_paths(fragments: &Vec<ContextFragment>) -> (r: Vec<String>)
    ensures
        texts(r@) == sorted_unique(fragment_paths(fragments@)),
{
    let ghost all = fragment_paths(fragments@);
    let mut paths: Vec<String> = Vec::new();
    let mut i: usize = 0;
    assert(texts(paths@) =~= all.take(0));
    while i < fragments.len()
        invariant
            i <= fragments.len(),
            all == fragment_paths(fragments@),
            texts(paths@) == all.take(i as int),
        decreases fragments.len() - i,
    {
        let ghost before = texts(paths@);
        paths.push(fragments[i].path.clone());
        assert(texts(paths@) =~= before.push(fragments@[i as int].path@));
        assert(texts(paths@) =~= all.take(i + 1));
        i += 1;
    }
    assert(all.take(all.len() as int) =~= all);
    sort_unique_texts(paths)
}

/// Settles the counts of what is handed over, and holds them to the ceiling.
fn settle_last<
    S: Fn(&ContextResponse, &ResponseMeta, ReceiptResourceDecoration) -> Measurement,
>(response: &mut ContextResponse, options: ServiceCallOptions, measure: &S) -> (r: Result<(), Error>)
    requires
        settles(*measure),
    ensures
        match r {
            Ok(_) => {
                &&& measures(
                    *measure,
                    old(response)@,
                    ReceiptResourceDecoration::Omit,
                    Ok(final(response).meta),
                )
                &&& final(response)@ == with_meta(old(response)@, final(response).meta)
                &&& over_fault(options, final(response).meta) is None
            },
            Err(e) => exists|outcome: Result<ResponseMeta, Error>|
                {
                    &&& #[trigger] measures(
                        *measure,
                        old(response)@,
                        ReceiptResourceDecoration::Omit,
                        outcome,
                    )
                    &&& match outcome {
                        Ok(meta) => over_fault(options, meta) == Some(e@),
                        Err(inner) => e == inner,
                    }
                },
        },
{
    match Services::finalize_context_response_accounting(response, measure) {
        Ok(_) => {},
        Err(e) => {
            return Err(e);
        },
    }
    if let Some(max) = options.max_response_tokens {
        if response.meta.total_response_tokens > max {
            if options.mcp_response_shape {
                return Err(
                    exceeded_error(&response.meta, max, response.meta.total_response_tokens),
                );
            }
            return Err(
                Error::ResponseAccountingInvariant(
                    copy_text("context response exceeded its fitted serialized-response budget"),
                ),
            );
        }
    }
    Ok(())
}

impl Services {
    /// Fits a response to its ceiling, leaves out what a receipt holds back and
    /// settles its counts. Tells the paths of what is handed over, or nothing for
    /// a plan.
    pub fn finalize_context_delivery<
        S: Fn(&ContextResponse, &ResponseMeta, ReceiptResourceDecoration) -> Measurement,
        E: Fn(&Vec<ReceiptEvidence>) -> Result<ReceiptEvaluation, Error>,
    >(
        response: &mut ContextResponse,
        request: &ContextRequest,
        policy: &ContextPolicy,
        options: ServiceCallOptions,
        evaluate: &E,
        measure: &S,
    ) -> (r: Result<Option<Vec<String>>, Error>)
        requires
            settles(*measure),
            forall|asked: &Vec<ReceiptEvidence>| call_requires(*evaluate, (asked,)),
        ensures
            match r {
                Ok(paths) => {
                    &&& delivered(
                        *measure,
                        *evaluate,
                        old(response)@,
                        *request,
                        *policy,
                        options,
                        final(response)@,
                    )
                    &&& match paths {
                        Some(list) => !(policy.delivery is Plan) && texts(list@) == sorted_unique(
                            fragment_paths(final(response).fragments@),
                        ),
                        None => policy.delivery is Plan,
                    }
                },
                Err(e) => undelivered(
                    *measure,
                    *evaluate,
                    old(response)@,
                    *request,
                    *policy,
                    options,
                    e,
                ),
            },
    {
        let ghost start = response@;
        if let Some(max) = options.max_response_tokens {
            match Self::fit_context_response(
                response,
                request,
                policy,
                max,
                options.mcp_response_shape,
                measure,
            ) {
                Ok(_) => {},
                Err(e) => {
                    return Err(e);
                },
            }
        }
        let ghost fitted = response@;
        assert(fitted_where_bound(*measure, start, *request, *policy, options, fitted));
        if !policy.is_plan() {
            let asked = receipt_candidates(&response.fragments);
            match evaluate(&asked) {
                Ok(evaluation) => {
                    apply_receipt(response, &evaluation);
                    assert(receipt_applied(fitted, evaluation, response@));
                },
                Err(e) => {
                    assert(call_ensures(*evaluate, (&asked,), Err::<ReceiptEvaluation, Error>(e)));
                    return Err(e);
                },
            }
        }
        name_receipt(response);
        let ghost kept = response@;
        assert(received(*evaluate, fitted, *policy, kept));
        match settle_last(response, options, measure) {
            Ok(_) => {},
            Err(e) => {
                return Err(e);
            },
        }
        if policy.is_plan() {
            return Ok(None);
        }
        Ok(Some(distinct_paths(&response.fragments)))
    }
}

/// A flag, or no where it is missing.
pub open spec fn flag_at(flags: Seq<bool>, i: int) -> bool {
    0 <= i < flags.len() && flags[i]
}

/// How many of the first `upto` flags are set.
pub open spec fn flags_set(flags: Seq<bool>, upto: int) -> nat
    decreases upto,
{
    if upto <= 0 {
        0
    } else {
        flags_set(flags, upto - 1) + if flag_at(flags, upto - 1) {
            1nat
        } else {
            0
        }
    }
}

proof fn flags_bound(flags: Seq<bool>, upto: int)
    requires
        0 <= upto,
    ensures
        flags_set(flags, upto) <= upto,
    decreases upto,
{
    if upto > 0 {
        flags_bound(flags, upto - 1);
    }
}

pub(crate) fn count_flags(flags: &Vec<bool>, upto: usize) -> (r: usize)
    ensures
        r == flags_set(flags@, upto as int),
{
    let mut count: usize = 0;
    let mut i: usize = 0;
    while i < upto
        invariant
            i <= upto,
            count == flags_set(flags@, i as int),
            count <= i,
        decreases upto - i,
    {
        if i < flags.len() && flags[i] {
            count += 1;
        }
        i += 1;
    }
    count
}

/// What kept the focus on a pattern from being met.
pub open spec fn focus_blocker(
    diagnostics: ContextFocusPathDiagnostics,
    satisfied: bool,
    indexed_paths: usize,
    minimum_fragments: usize,
) -> Option<ContextFocusCapacityBlocker> {
    if satisfied {
        None
    } else if indexed_paths == 0 {
        Some(ContextFocusCapacityBlocker::NoIndexedPaths)
    } else if diagnostics.eligible_paths == 0 {
        Some(ContextFocusCapacityBlocker::PathPolicy)
    } else if diagnostics.eligible_paths > MAX_CONTEXT_FOCUS_FILES_PER_PATTERN
        && diagnostics.generated_fragments < minimum_fragments {
        Some(ContextFocusCapacityBlocker::CandidateFanoutLimit)
    } else if diagnostics.capacity_blocker is Some {
        diagnostics.capacity_blocker
    } else {
        Some(ContextFocusCapacityBlocker::CandidateGeneration)
    }
}

/// The coverage of a focus pattern that selects a number of fragments.
pub open spec fn focus_counted(focus: ContextFocusPathCoverage, selected: usize) ->
    ContextFocusPathCoverage {
    let satisfied = focus.indexed_paths > 0 && selected >= focus.minimum_fragments;
    ContextFocusPathCoverage {
        selected_fragments: selected,
        satisfied,
        diagnostics: match focus.diagnostics {
            Some(diagnostics) => Some(
                ContextFocusPathDiagnostics {
                    capacity_blocker: focus_blocker(
                        diagnostics,
                        satisfied,
                        focus.indexed_paths,
                        focus.minimum_fragments,
                    ),
                    ..diagnostics
                },
            ),
            None => None,
        },
        ..focus
    }
}

/// The flags of a pattern, or none where they are missing.
pub open spec fn row_at(rows: Seq<Vec<bool>>, i: int) -> Seq<bool> {
    if 0 <= i < rows.len() {
        rows[i]@
    } else {
        Seq::empty()
    }
}

/// The coverage of focus patterns by the selected paths.
pub open spec fn focus_covered(
    list: Seq<ContextFocusPathCoverage>,
    matched: Seq<Vec<bool>>,
    selected: nat,
) -> Seq<ContextFocusPathCoverage> {
    Seq::new(
        list.len(),
        |i: int|
            focus_counted(list[i], flags_set(row_at(matched, i), selected as int) as usize),
    )
}

/// Whether a path is one of some texts.
pub open spec fn among(list: Seq<Seq<char>>) -> spec_fn(Seq<char>) -> bool {
    |path: Seq<char>| list.contains(path)
}

/// The coverage of changed paths by the selected ones.
pub open spec fn changed_covered(
    request: ContextRequest,
    selected: Seq<Seq<char>>,
    indexed: Seq<bool>,
) -> ContextChangedPathCoverage {
    let changed = texts(request.changed_paths@);
    let indexed_paths = flags_set(indexed, changed.len() as int) as usize;
    let selected_fragments = tally(selected, among(changed)) as usize;
    ContextChangedPathCoverage {
        resolved_paths: distinct(changed).len() as usize,
        indexed_paths,
        selected_fragments,
        satisfied: changed.len() > 0 && indexed_paths > 0 && selected_fragments > 0,
    }
}

/// Whether a request asks for coverage of its focus paths.
pub open spec fn focus_asked(request: ContextRequest) -> bool {
    request.strict_focus_paths || request.minimum_fragments_per_focus_path is Some
}

/// Whether every focus pattern is met.
pub open spec fn focus_met(list: Seq<ContextFocusPathCoverage>) -> bool {
    forall|i: int| 0 <= i < list.len() ==> (#[trigger] list[i]).satisfied
}

/// A coverage receipt that counts the selected paths. `matched` tells for each
/// focus pattern which selected paths it matches, `indexed` which changed paths
/// the index knows.
pub open spec fn scope_covered(
    coverage: CoverageView,
    request: ContextRequest,
    selected: Seq<Seq<char>>,
    matched: Seq<Vec<bool>>,
    indexed: Seq<bool>,
) -> CoverageView {
    let focus = focus_covered(coverage.focus_path_coverage, matched, selected.len());
    let changed = if request.strict_changed_paths {
        Some(changed_covered(request, selected, indexed))
    } else {
        coverage.changed_path_coverage
    };
    CoverageView {
        focus_path_coverage: focus,
        changed_path_coverage: changed,
        path_scope_satisfied: if focus_asked(request) || request.strict_changed_paths {
            Some(
                (!focus_asked(request) || focus_met(focus)) && (changed is None
                    || changed->0.satisfied),
            )
        } else {
            coverage.path_scope_satisfied
        },
        ..coverage
    }
}

fn blocker(
    diagnostics: &ContextFocusPathDiagnostics,
    satisfied: bool,
    indexed_paths: usize,
    minimum_fragments: usize,
) -> (r: Option<ContextFocusCapacityBlocker>)
    ensures
        r == focus_blocker(*diagnostics, satisfied, indexed_paths, minimum_fragments),
{
    if satisfied {
        return None;
    }
    if indexed_paths == 0 {
        return Some(ContextFocusCapacityBlocker::NoIndexedPaths);
    }
    if diagnostics.eligible_paths == 0 {
        return Some(ContextFocusCapacityBlocker::PathPolicy);
    }
    if diagnostics.eligible_paths > MAX_CONTEXT_FOCUS_FILES_PER_PATTERN
        && diagnostics.generated_fragments < minimum_fragments {
        return Some(ContextFocusCapacityBlocker::CandidateFanoutLimit);
    }
    match diagnostics.capacity_blocker {
        Some(found) => Some(found),
        None => Some(ContextFocusCapacityBlocker::CandidateGeneration),
    }
}

fn count_focus(focus: &ContextFocusPathCoverage, selected: usize) -> (r: ContextFocusPathCoverage)
    ensures
        r == focus_counted(*focus, selected),
{
    let satisfied = focus.indexed_paths > 0 && selected >= focus.minimum_fragments;
    let diagnostics = match &focus.diagnostics {
        Some(held) => Some(
            ContextFocusPathDiagnostics {
                eligible_paths: held.eligible_paths,
                generated_fragments: held.generated_fragments,
                capacity_blocker: blocker(
                    held,
                    satisfied,
                    focus.indexed_paths,
                    focus.minimum_fragments,
                ),
            },
        ),
        None => None,
    };
    ContextFocusPathCoverage {
        pattern: focus.pattern.clone(),
        indexed_paths: focus.indexed_paths,
        minimum_fragments: focus.minimum_fragments,
        selected_fragments: selected,
        satisfied,
        diagnostics,
    }
}

fn cover_focus(list: &Vec<ContextFocusPathCoverage>, matched: &Vec<Vec<bool>>, selected: usize) -> (r:
    (Vec<ContextFocusPathCoverage>, bool))
    ensures
        r.0@ == focus_covered(list@, matched@, selected as nat),
        r.1 == focus_met(r.0@),
{
    let ghost all = focus_covered(list@, matched@, selected as nat);
    let none: Vec<bool> = Vec::new();
    let mut out: Vec<ContextFocusPathCoverage> = Vec::new();
    let mut met = true;
    let mut i: usize = 0;
    assert(out@ =~= all.take(0));
    while i < list.len()
        invariant
            i <= list.len(),
            none@ == Seq::<bool>::empty(),
            all == focus_covered(list@, matched@, selected as nat),
            out@ == all.take(i as int),
            met == focus_met(all.take(i as int)),
        decreases list.len() - i,
    {
        let row = if i < matched.len() {
            &matched[i]
        } else {
            &none
        };
        let count: usize = count_flags(row, selected);
        let item = count_focus(&list[i], count);
        assert(row@ == row_at(matched@, i as int));
        assert(item == all[i as int]);
        proof {
            let more = all.take(i + 1);
            if met && item.satisfied {
                assert forall|k: int| 0 <= k < more.len() implies (#[trigger] more[k]).satisfied by {
                    if k < i {
                        assert(all.take(i as int)[k].satisfied);
                    }
                }
            } else if !met {
                let k = choose|k: int|
                    0 <= k < all.take(i as int).len() && !(#[trigger] all.take(
                        i as int,
                    )[k]).satisfied;
                assert(!more[k].satisfied);
            } else {
                assert(!more[i as int].satisfied);
            }
        }
        met = met && item.satisfied;
        out.push(item);
        assert(out@ =~= all.take(i + 1));
        i += 1;
    }
    assert(all.take(all.len() as int) =~= all);
    (out, met)
}

fn count_among(selected: &Vec<String>, changed: &Vec<String>) -> (r: usize)
    ensures
        r == tally(texts(selected@), among(texts(changed@))),
{
    let ghost all = texts(selected@);
    let p = Ghost(among(texts(changed@)));
    let mut count: usize = 0;
    let mut i: usize = 0;
    while i < selected.len()
        invariant
            i <= selected.len(),
            all == texts(selected@),
            p@ == among(texts(changed@)),
            count == tally(all.take(i as int), p@),
            count <= i,
        decreases selected.len() - i,
    {
        proof {
            tally_push(all, p@, i as int);
            assert(all[i as int] == selected@[i as int]@);
        }
        if list_has(changed, selected[i].as_str()) {
            count += 1;
        }
        i += 1;
    }
    assert(all.take(all.len() as int) =~= all);
    count
}

impl Services {
    /// Counts in a coverage receipt what the selected paths cover of the focus
    /// paths and the changed paths of a request.
    pub fn finalize_strict_scope_coverage(
        request: &ContextRequest,
        selected_paths: &Vec<String>,
        matched: &Vec<Vec<bool>>,
        indexed: &Vec<bool>,
        coverage: &mut ContextCoverageReceipt,
    )
        ensures
            final(coverage)@ == scope_covered(
                old(coverage)@,
                *request,
                texts(selected_paths@),
                matched@,
                indexed@,
            ),
    {
        let ghost selected = texts(selected_paths@);
        let (focus, met) = cover_focus(
            &coverage.focus_path_coverage,
            matched,
            selected_paths.len(),
        );
        coverage.focus_path_coverage = focus;
        if request.strict_changed_paths {
            let resolved = distinct_texts(&request.changed_paths);
            let indexed_paths: usize = count_flags(indexed, request.changed_paths.len());
            let selected_fragments: usize = count_among(selected_paths, &request.changed_paths);
            assert(texts(resolved@).len() == resolved@.len());
            coverage.changed_path_coverage = Some(
                ContextChangedPathCoverage {
                    resolved_paths: resolved.len(),
                    indexed_paths,
                    selected_fragments,
                    satisfied: request.changed_paths.len() > 0 && indexed_paths > 0
                        && selected_fragments > 0,
                },
            );
        }
        let focus_required = request.strict_focus_paths
            || request.minimum_fragments_per_focus_path.is_some();
        if focus_required || request.strict_changed_paths {
            let changed_met = match &coverage.changed_path_coverage {
                Some(changed) => changed.satisfied,
                None => true,
            };
            coverage.path_scope_satisfied = Some((!focus_required || met) && changed_met);
        }
    }
}

} // verus!
