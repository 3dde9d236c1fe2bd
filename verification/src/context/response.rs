//! What a context response says of its own coverage.

use crate::accounting::ServiceCallOptions;
use crate::error::{reports, Error, Fault};
use crate::handoff::note;
use crate::lists::{filter_map, filter_map_push, tally, tally_push};
use crate::model::{ContextRequest, ContextResponseProfile};
use crate::ordered::views;
use crate::response::{
    ContextCoverageReceipt, ContextFocusPathCoverage, ContextFocusPathDiagnostics,
    ContextRequiredEvidenceCoverage, ContextResponse, ContextView, CoverageView, RequiredView,
};
use crate::text::{appended, copy_text, decimal, decimal_text, list_has, texts};
use vstd::prelude::*;

verus! {

/// The fault of a profile that explains nothing where explanations are asked
/// for.
pub open spec fn profile_fault(request: ContextRequest, options: ServiceCallOptions) -> Option<
    Fault,
> {
    if request.explain_diagnostics && (options.context_response_profile
        == Some(ContextResponseProfile::Compact) || options.context_response_profile
        == Some(ContextResponseProfile::Balanced)) {
        Some(
            Fault::InvalidInput {
                field: "response_profile"@,
                reason: "explain_diagnostics=true requires response_profile=explain"@,
            },
        )
    } else {
        None
    }
}

/// How much a response explains: what is asked for, else all or an ordinary
/// measure.
pub fn effective_context_response_profile(
    request: &ContextRequest,
    options: ServiceCallOptions,
) -> (r: Result<ContextResponseProfile, Error>)
    ensures
        reports(r, profile_fault(*request, options)),
        r matches Ok(profile) ==> profile == match options.context_response_profile {
            Some(asked) => asked,
            None => if request.explain_diagnostics {
                ContextResponseProfile::Explain
            } else {
                ContextResponseProfile::Balanced
            },
        },
{
    match options.context_response_profile {
        Some(profile) => {
            if request.explain_diagnostics && profile != ContextResponseProfile::Explain {
                return Err(
                    Error::InvalidInput {
                        field: "response_profile",
                        reason: "explain_diagnostics=true requires response_profile=explain",
                    },
                );
            }
            Ok(profile)
        },
        None => if request.explain_diagnostics {
            Ok(ContextResponseProfile::Explain)
        } else {
            Ok(ContextResponseProfile::Balanced)
        },
    }
}

/// A text, where a list does not hold it.
pub open spec fn not_in(list: Seq<Seq<char>>) -> spec_fn(Seq<char>) -> Option<Seq<char>> {
    |text: Seq<char>|
        if list.contains(text) {
            None
        } else {
            Some(text)
        }
}

/// A requirement with what was selected for it.
pub open spec fn with_selected(target: RequiredView, selected: RequiredView) -> RequiredView {
    RequiredView {
        matched_queries: selected.matched_queries,
        unmatched_queries: selected.unmatched_queries,
        selected_fragments: selected.selected_fragments,
        satisfied: target.indexed_paths > 0 && selected.satisfied,
        ..target
    }
}

/// Requirements with what was selected for them, one by one.
pub open spec fn merged_required(
    targets: Seq<RequiredView>,
    selected: Seq<RequiredView>,
) -> Seq<RequiredView> {
    Seq::new(
        targets.len(),
        |i: int|
            if i < selected.len() {
                with_selected(targets[i], selected[i])
            } else {
                targets[i]
            },
    )
}

/// A focus path with the diagnostics of the selection, but its own count of
/// eligible paths.
pub open spec fn with_diagnostics(
    target: ContextFocusPathCoverage,
    selected: ContextFocusPathCoverage,
) -> ContextFocusPathCoverage {
    match selected.diagnostics {
        Some(diagnostics) => ContextFocusPathCoverage {
            diagnostics: Some(
                ContextFocusPathDiagnostics {
                    eligible_paths: match target.diagnostics {
                        Some(own) => own.eligible_paths,
                        None => 0,
                    },
                    ..diagnostics
                },
            ),
            ..target
        },
        None => target,
    }
}

/// Focus paths with the diagnostics of the selection, one by one.
pub open spec fn merged_focus(
    targets: Seq<ContextFocusPathCoverage>,
    selected: Seq<ContextFocusPathCoverage>,
) -> Seq<ContextFocusPathCoverage> {
    Seq::new(
        targets.len(),
        |i: int|
            if i < selected.len() {
                with_diagnostics(targets[i], selected[i])
            } else {
                targets[i]
            },
    )
}

/// Whether all requirements are met.
pub open spec fn all_satisfied(list: Seq<RequiredView>) -> bool {
    forall|i: int| 0 <= i < list.len() ==> (#[trigger] list[i]).satisfied
}

/// What was found in the index together with what was selected of it.
pub open spec fn merged_coverage(found: CoverageView, selected: CoverageView) -> CoverageView {
    let required = merged_required(found.required_evidence, selected.required_evidence);
    CoverageView {
        covered_must_include_paths: selected.covered_must_include_paths,
        covered_must_include_symbols: selected.covered_must_include_symbols,
        partial_must_include_symbols: selected.partial_must_include_symbols,
        uncovered_must_include_paths: filter_map(
            selected.uncovered_must_include_paths,
            not_in(found.unmatched_must_include_paths),
        ),
        uncovered_must_include_symbols: filter_map(
            selected.uncovered_must_include_symbols,
            not_in(found.unmatched_must_include_symbols),
        ),
        required_evidence: required,
        focus_path_coverage: merged_focus(found.focus_path_coverage, selected.focus_path_coverage),
        evidence_scope_satisfied: if required.len() == 0 {
            found.evidence_scope_satisfied
        } else {
            Some(all_satisfied(required))
        },
        ..found
    }
}

/// What is left of a coverage once its lists were taken.
pub open spec fn emptied_coverage(coverage: CoverageView) -> CoverageView {
    CoverageView {
        covered_must_include_paths: Seq::empty(),
        covered_must_include_symbols: Seq::empty(),
        partial_must_include_symbols: Seq::empty(),
        uncovered_must_include_paths: Seq::empty(),
        uncovered_must_include_symbols: Seq::empty(),
        required_evidence: Seq::empty(),
        focus_path_coverage: Seq::empty(),
        ..coverage
    }
}

fn keep_unlisted(list: Vec<String>, without: &Vec<String>) -> (r: Vec<String>)
    ensures
        texts(r@) == filter_map(texts(list@), not_in(texts(without@))),
{
    let ghost all = texts(list@);
    let ghost f = not_in(texts(without@));
    let mut out: Vec<String> = Vec::new();
    let mut i: usize = 0;
    assert(texts(out@) =~= filter_map(all.take(0), f));
    while i < list.len()
        invariant
            i <= list.len(),
            all == texts(list@),
            f == not_in(texts(without@)),
            texts(out@) == filter_map(all.take(i as int), f),
        decreases list.len() - i,
    {
        let ghost before = texts(out@);
        proof {
            filter_map_push(all, f, i as int);
        }
        if !list_has(without, list[i].as_str()) {
            out.push(list[i].clone());
            assert(texts(out@) =~= before.push(list@[i as int]@));
        }
        i += 1;
    }
    assert(all.take(all.len() as int) =~= all);
    out
}

fn merge_required(
    targets: Vec<ContextRequiredEvidenceCoverage>,
    selected: Vec<ContextRequiredEvidenceCoverage>,
) -> (r: Vec<ContextRequiredEvidenceCoverage>)
    ensures
        views(r@) == merged_required(views(targets@), views(selected@)),
{
    let ghost all = merged_required(views(targets@), views(selected@));
    let mut out: Vec<ContextRequiredEvidenceCoverage> = Vec::new();
    let mut i: usize = 0;
    while i < targets.len()
        invariant
            i <= targets.len(),
            all == merged_required(views(targets@), views(selected@)),
            views(out@) == all.take(i as int),
        decreases targets.len() - i,
    {
        let ghost before = views(out@);
        let target = targets[i].duplicate();
        let merged = if i < selected.len() {
            let chosen = selected[i].duplicate();
            ContextRequiredEvidenceCoverage {
                path: target.path,
                indexed_paths: target.indexed_paths,
                inspected_paths: target.inspected_paths,
                minimum_query_matches: target.minimum_query_matches,
                matched_queries: chosen.matched_queries,
                unmatched_queries: chosen.unmatched_queries,
                selected_fragments: chosen.selected_fragments,
                satisfied: target.indexed_paths > 0 && chosen.satisfied,
            }
        } else {
            target
        };
        let ghost added = merged@;
        out.push(merged);
        assert(views(out@) =~= before.push(added));
        assert(views(out@) =~= all.take(i + 1));
        i += 1;
    }
    assert(views(out@) =~= all);
    out
}

fn merge_focus(
    targets: Vec<ContextFocusPathCoverage>,
    selected: Vec<ContextFocusPathCoverage>,
) -> (r: Vec<ContextFocusPathCoverage>)
    ensures
        r@ == merged_focus(targets@, selected@),
{
    let ghost all = merged_focus(targets@, selected@);
    let mut out: Vec<ContextFocusPathCoverage> = Vec::new();
    let mut i: usize = 0;
    while i < targets.len()
        invariant
            i <= targets.len(),
            all == merged_focus(targets@, selected@),
            out@ == all.take(i as int),
        decreases targets.len() - i,
    {
        let mut target = targets[i].duplicate();
        if i < selected.len() {
            if let Some(diagnostics) = selected[i].diagnostics {
                let eligible: usize = match target.diagnostics {
                    Some(own) => own.eligible_paths,
                    None => 0,
                };
                target.diagnostics = Some(
                    ContextFocusPathDiagnostics {
                        eligible_paths: eligible,
                        generated_fragments: diagnostics.generated_fragments,
                        capacity_blocker: diagnostics.capacity_blocker,
                    },
                );
            }
        }
        assert(target == all[i as int]);
        out.push(target);
        assert(out@ =~= all.take(i + 1));
        i += 1;
    }
    assert(out@ =~= all);
    out
}

fn every_satisfied(list: &Vec<ContextRequiredEvidenceCoverage>) -> (r: bool)
    ensures
        r == all_satisfied(views(list@)),
{
    let ghost all = views(list@);
    let mut i: usize = 0;
    while i < list.len()
        invariant
            i <= list.len(),
            all == views(list@),
            forall|k: int| 0 <= k < i ==> (#[trigger] all[k]).satisfied,
        decreases list.len() - i,
    {
        assert(all[i as int] == list@[i as int]@);
        if !list[i].satisfied {
            assert(!all[i as int].satisfied);
            return false;
        }
        i += 1;
    }
    true
}

/// Joins what was found in the index with what was selected of it. The lists of
/// the selection are taken out of the response.
#[verifier::rlimit(60)]
pub fn merge_selected_coverage(
    coverage: ContextCoverageReceipt,
    response: &mut ContextResponse,
) -> (r: ContextCoverageReceipt)
    ensures
        r@ == merged_coverage(coverage@, old(response)@.coverage),
        final(response)@ == (ContextView {
            coverage: emptied_coverage(old(response)@.coverage),
            ..old(response)@
        }),
{
    let ghost found = coverage@;
    let ghost start = response@;
    let mut covered_paths: Vec<String> = Vec::new();
    std::mem::swap(&mut covered_paths, &mut response.coverage.covered_must_include_paths);
    let mut covered_symbols: Vec<String> = Vec::new();
    std::mem::swap(&mut covered_symbols, &mut response.coverage.covered_must_include_symbols);
    let mut partial_symbols: Vec<String> = Vec::new();
    std::mem::swap(&mut partial_symbols, &mut response.coverage.partial_must_include_symbols);
    let mut uncovered_paths: Vec<String> = Vec::new();
    std::mem::swap(&mut uncovered_paths, &mut response.coverage.uncovered_must_include_paths);
    let mut uncovered_symbols: Vec<String> = Vec::new();
    std::mem::swap(&mut uncovered_symbols, &mut response.coverage.uncovered_must_include_symbols);
    let mut required: Vec<ContextRequiredEvidenceCoverage> = Vec::new();
    std::mem::swap(&mut required, &mut response.coverage.required_evidence);
    let mut focus: Vec<ContextFocusPathCoverage> = Vec::new();
    std::mem::swap(&mut focus, &mut response.coverage.focus_path_coverage);
    proof {
        assert(response@.coverage.covered_must_include_paths =~= Seq::<Seq<char>>::empty());
        assert(response@.coverage.covered_must_include_symbols =~= Seq::<Seq<char>>::empty());
        assert(response@.coverage.partial_must_include_symbols =~= Seq::<Seq<char>>::empty());
        assert(response@.coverage.uncovered_must_include_paths =~= Seq::<Seq<char>>::empty());
        assert(response@.coverage.uncovered_must_include_symbols =~= Seq::<Seq<char>>::empty());
        assert(response@.coverage.required_evidence =~= Seq::<RequiredView>::empty());
    }
    let required_evidence = merge_required(coverage.required_evidence, required);
    let focus_path_coverage = merge_focus(coverage.focus_path_coverage, focus);
    assert(views(required_evidence@).len() == required_evidence@.len());
    let evidence_scope_satisfied = if required_evidence.len() == 0 {
        coverage.evidence_scope_satisfied
    } else {
        Some(every_satisfied(&required_evidence))
    };
    let uncovered_must_include_paths = keep_unlisted(
        uncovered_paths,
        &coverage.unmatched_must_include_paths,
    );
    let uncovered_must_include_symbols = keep_unlisted(
        uncovered_symbols,
        &coverage.unmatched_must_include_symbols,
    );
    ContextCoverageReceipt {
        covered_must_include_paths: covered_paths,
        covered_must_include_symbols: covered_symbols,
        partial_must_include_symbols: partial_symbols,
        uncovered_must_include_paths,
        uncovered_must_include_symbols,
        unmatched_must_include_paths: coverage.unmatched_must_include_paths,
        unmatched_must_include_symbols: coverage.unmatched_must_include_symbols,
        unmatched_focus_paths: coverage.unmatched_focus_paths,
        unmatched_focus_symbols: coverage.unmatched_focus_symbols,
        unmatched_include_paths: coverage.unmatched_include_paths,
        required_evidence,
        evidence_scope_satisfied,
        focus_path_coverage,
        changed_path_coverage: coverage.changed_path_coverage,
        path_scope_satisfied: coverage.path_scope_satisfied,
    }
}

/// The paths of what was selected: the plan's where there is one.
pub open spec fn paths_selected(response: ContextView) -> Seq<Seq<char>> {
    match response.plan {
        Some(plan) => Seq::new(plan.candidates.len(), |i: int| plan.candidates[i].path),
        None => Seq::new(response.fragments.len(), |i: int| response.fragments[i].path@),
    }
}

/// The paths of what was selected: the plan's where there is one.
pub fn selected_paths(response: &ContextResponse) -> (r: Vec<String>)
    ensures
        texts(r@) == paths_selected(response@),
{
    let ghost all = paths_selected(response@);
    let mut out: Vec<String> = Vec::new();
    match &response.plan {
        Some(plan) => {
            let mut i: usize = 0;
            while i < plan.candidates.len()
                invariant
                    i <= plan.candidates.len(),
                    response.plan == Some(*plan),
                    all == paths_selected(response@),
                    texts(out@) == all.take(i as int),
                decreases plan.candidates.len() - i,
            {
                let ghost before = texts(out@);
                out.push(plan.candidates[i].path.clone());
                assert(texts(out@) =~= before.push(plan.candidates@[i as int].path@));
                assert(texts(out@) =~= all.take(i + 1));
                i += 1;
            }
            assert(texts(out@) =~= all);
        },
        None => {
            let mut i: usize = 0;
            while i < response.fragments.len()
                invariant
                    i <= response.fragments.len(),
                    response.plan is None,
                    all == paths_selected(response@),
                    texts(out@) == all.take(i as int),
                decreases response.fragments.len() - i,
            {
                let ghost before = texts(out@);
                out.push(response.fragments[i].path.clone());
                assert(texts(out@) =~= before.push(response.fragments@[i as int].path@));
                assert(texts(out@) =~= all.take(i + 1));
                i += 1;
            }
            assert(texts(out@) =~= all);
        },
    }
    out
}

/// A warning that begins with a number, where there is anything to count.
pub open spec fn counted_warning(count: nat, text: Seq<char>) -> Seq<Seq<char>> {
    note(count > 0, decimal_text(count) + text)
}

/// A sum of lengths that stops at the largest number.
pub open spec fn sum_len(a: nat, b: nat) -> nat {
    if a + b > usize::MAX {
        usize::MAX as nat
    } else {
        a + b
    }
}

/// Whether a requirement is not met.
pub open spec fn unmet() -> spec_fn(RequiredView) -> bool {
    |item: RequiredView| !item.satisfied
}

/// Whether only some of a requirement's paths were looked through.
pub open spec fn cut_short() -> spec_fn(RequiredView) -> bool {
    |item: RequiredView| item.indexed_paths > item.inspected_paths
}

/// Whether a focus path got too few fragments.
pub open spec fn underfilled() -> spec_fn(ContextFocusPathCoverage) -> bool {
    |focus: ContextFocusPathCoverage| !focus.satisfied
}

/// Who is spoken of where symbols came back partially.
pub open spec fn partial_subject(count: nat) -> Seq<char> {
    if count == 1 {
        "1 required symbol was"@
    } else {
        decimal_text(count) + " required symbols were"@
    }
}

/// What a coverage warns of.
pub open spec fn coverage_warnings(coverage: CoverageView) -> Seq<Seq<char>> {
    counted_warning(
        sum_len(
            coverage.uncovered_must_include_paths.len(),
            coverage.uncovered_must_include_symbols.len(),
        ),
        " indexed must-cover requirements were not selected"@,
    ) + note(
        coverage.partial_must_include_symbols.len() > 0,
        partial_subject(coverage.partial_must_include_symbols.len())
            + " returned only partially; inspect target ranges and truncated fragments"@,
    ) + counted_warning(
        sum_len(
            coverage.unmatched_must_include_paths.len(),
            coverage.unmatched_must_include_symbols.len(),
        ),
        " must-cover requirements matched no indexed evidence"@,
    ) + counted_warning(
        tally(coverage.required_evidence, unmet()),
        " required evidence contracts lacked matching selected evidence"@,
    ) + counted_warning(
        tally(coverage.required_evidence, cut_short()),
        " required evidence contracts matched more indexed paths than the bounded local inspection covered"@,
    ) + counted_warning(
        sum_len(
            sum_len(
                coverage.unmatched_focus_paths.len(),
                coverage.unmatched_focus_symbols.len(),
            ),
            coverage.unmatched_include_paths.len(),
        ),
        " focus or include constraints matched no indexed evidence"@,
    ) + counted_warning(
        tally(coverage.focus_path_coverage, underfilled()),
        " focus path constraints did not meet minimum fragment coverage"@,
    ) + note(
        coverage.changed_path_coverage is Some && !coverage.changed_path_coverage->0.satisfied,
        "strict changed-path scope produced no indexed selected evidence"@,
    )
}

pub(crate) fn push_counted(warnings: &mut Vec<String>, count: usize, text: &str)
    ensures
        texts(final(warnings)@) == texts(old(warnings)@) + counted_warning(count as nat, text@),
{
    let ghost start = texts(warnings@);
    if count > 0 {
        warnings.push(appended(decimal(count as u64), text));
    }
    assert(texts(warnings@) =~= start + counted_warning(count as nat, text@));
}

fn count_required(list: &Vec<ContextRequiredEvidenceCoverage>) -> (r: (usize, usize))
    ensures
        r.0 == tally(views(list@), unmet()),
        r.1 == tally(views(list@), cut_short()),
{
    let ghost all = views(list@);
    let mut open: usize = 0;
    let mut bounded: usize = 0;
    let mut i: usize = 0;
    while i < list.len()
        invariant
            i <= list.len(),
            open <= i,
            bounded <= i,
            all == views(list@),
            open == tally(all.take(i as int), unmet()),
            bounded == tally(all.take(i as int), cut_short()),
        decreases list.len() - i,
    {
        proof {
            assert(all[i as int] == list@[i as int]@);
            tally_push(all, unmet(), i as int);
            tally_push(all, cut_short(), i as int);
        }
        if !list[i].satisfied {
            open += 1;
        }
        if list[i].indexed_paths > list[i].inspected_paths {
            bounded += 1;
        }
        i += 1;
    }
    assert(all.take(all.len() as int) =~= all);
    (open, bounded)
}

fn count_underfilled(list: &Vec<ContextFocusPathCoverage>) -> (r: usize)
    ensures
        r == tally(list@, underfilled()),
{
    let mut count: usize = 0;
    let mut i: usize = 0;
    while i < list.len()
        invariant
            i <= list.len(),
            count <= i,
            count == tally(list@.take(i as int), underfilled()),
        decreases list.len() - i,
    {
        proof {
            tally_push(list@, underfilled(), i as int);
        }
        if !list[i].satisfied {
            count += 1;
        }
        i += 1;
    }
    assert(list@.take(list@.len() as int) =~= list@);
    count
}

fn push_made(warnings: &mut Vec<String>, made: bool, text: String)
    ensures
        texts(final(warnings)@) == texts(old(warnings)@) + note(made, text@),
{
    let ghost start = texts(warnings@);
    let ghost said = text@;
    if made {
        warnings.push(text);
    }
    assert(texts(warnings@) =~= start + note(made, said));
}

fn partial_text(count: usize) -> (r: String)
    ensures
        r@ == partial_subject(count as nat)
            + " returned only partially; inspect target ranges and truncated fragments"@,
{
    let subject = if count == 1 {
        copy_text("1 required symbol was")
    } else {
        appended(decimal(count as u64), " required symbols were")
    };
    appended(subject, " returned only partially; inspect target ranges and truncated fragments")
}

fn collect_warnings(coverage: &ContextCoverageReceipt) -> (r: Vec<String>)
    ensures
        texts(r@) == coverage_warnings(coverage@),
{
    let ghost view = coverage@;
    let mut warnings: Vec<String> = Vec::new();
    let uncovered: usize = coverage.uncovered_must_include_paths.len().saturating_add(
        coverage.uncovered_must_include_symbols.len(),
    );
    push_counted(
        &mut warnings,
        uncovered,
        " indexed must-cover requirements were not selected",
    );
    assert(texts(warnings@) =~= counted_warning(
        uncovered as nat,
        " indexed must-cover requirements were not selected"@,
    ));
    let partial: usize = coverage.partial_must_include_symbols.len();
    push_made(&mut warnings, partial > 0, partial_text(partial));
    let unmatched: usize = coverage.unmatched_must_include_paths.len().saturating_add(
        coverage.unmatched_must_include_symbols.len(),
    );
    push_counted(
        &mut warnings,
        unmatched,
        " must-cover requirements matched no indexed evidence",
    );
    let (open, bounded) = count_required(&coverage.required_evidence);
    push_counted(
        &mut warnings,
        open,
        " required evidence contracts lacked matching selected evidence",
    );
    push_counted(
        &mut warnings,
        bounded,
        " required evidence contracts matched more indexed paths than the bounded local inspection covered",
    );
    let hints: usize = coverage.unmatched_focus_paths.len().saturating_add(
        coverage.unmatched_focus_symbols.len(),
    ).saturating_add(coverage.unmatched_include_paths.len());
    push_counted(
        &mut warnings,
        hints,
        " focus or include constraints matched no indexed evidence",
    );
    let thin: usize = count_underfilled(&coverage.focus_path_coverage);
    push_counted(
        &mut warnings,
        thin,
        " focus path constraints did not meet minimum fragment coverage",
    );
    let changed_unmet = match coverage.changed_path_coverage {
        Some(changed) => !changed.satisfied,
        None => false,
    };
    push_made(
        &mut warnings,
        changed_unmet,
        copy_text("strict changed-path scope produced no indexed selected evidence"),
    );
    warnings
}

/// Warns of constraints that the selection does not meet.
pub fn append_coverage_warnings(response: &mut ContextResponse)
    ensures
        final(response)@ == (ContextView {
            warnings: old(response)@.warnings + coverage_warnings(old(response)@.coverage),
            ..old(response)@
        }),
{
    let ghost start = response@;
    let mut more = collect_warnings(&response.coverage);
    let ghost added = texts(more@);
    response.warnings.append(&mut more);
    assert(response@.warnings =~= start.warnings + added);
}

} // verus!
