//! Putting a context response together from what was selected.

use crate::accounting::{Measurement, ReceiptResourceDecoration, ServiceCallOptions};
use crate::context::candidates::draft::{Candidate, CandidateView};
use crate::context::delivery::{
    count_flags, delivered, flags_set, fragment_paths, push_made, scope_covered, undelivered,
    ReceiptEvaluation, ReceiptEvidence,
};
use crate::context::diagnostics::{
    no_counters, no_timings, span, CandidateDiagnostics, ContextPhaseCounters, ContextPhaseTimings,
    ContextPhaseTracker, PrimitiveKey,
};
use crate::context::diff_evidence::{draws, evidence_fault, DiffEvidenceMode, DiffFacts};
use crate::context::finalize::settles;
use crate::context::gathering::ContextGathering;
use crate::context::policy::{ContextPolicy, WorkingTreeObservation};
use crate::context::response::{
    append_coverage_warnings, coverage_warnings, merge_selected_coverage, merged_coverage,
    paths_selected, selected_paths,
};
use crate::context::scope_helpers::{build_context_routing, oversized, routes};
use crate::error::Error;
use crate::handoff::{build, hands_over, note, HandoffProvenance, HandoffSource};
use crate::model::{
    ContextRequest, ContextResponseProfile, ContextRoutingReceipt, ContextWorkflow,
    DiffEvidenceReceipt, DiffScopeReceipt, Freshness, HandoffEvidence, HandoffManifest,
    HandoffWorkingTreeState, PlaceView, RepositoryProvenance, RepositoryProvenanceStatus,
    RepositoryWorkingTreeState, ResponseMeta,
};
use crate::ordered::{sort_unique_texts, sorted_unique, views};
use crate::response::{optional_view, ContextFragment, ContextResponse, ContextView};
use crate::services::Services;
use crate::text::{
    appended, copy_optional_text, copy_text, copy_texts, decimal, decimal_text, optional_text,
    texts,
};
use vstd::prelude::*;

verus! {

/// What the repository looked like when a request was answered.
#[derive(Debug)]
pub struct RepositorySnapshot {
    pub repository_id: String,
    pub generation: u64,
    pub freshness: Freshness,
    pub working_tree: WorkingTreeObservation,
    pub working_tree_paths: Vec<String>,
    pub working_tree_paths_complete: bool,
    pub working_tree_paths_limit: Option<usize>,
    pub commit_revision: Option<String>,
    pub branch: Option<String>,
}

/// A candidate as it was generated, with the tokens that it takes, at least one. Its
/// score is a floating-point number and is told elsewhere.
#[derive(Debug)]
pub struct ContextCandidateEvaluation {
    pub path: String,
    pub start_line: usize,
    pub end_line: usize,
    pub representation: Option<String>,
    pub match_kinds: Vec<String>,
    pub concepts: Vec<String>,
    pub concept_weight: u32,
    pub token_count: usize,
}

/// What a [`ContextCandidateEvaluation`] says.
pub struct EvaluatedView {
    pub path: Seq<char>,
    pub start_line: usize,
    pub end_line: usize,
    pub representation: Option<Seq<char>>,
    pub match_kinds: Seq<Seq<char>>,
    pub concepts: Seq<Seq<char>>,
    pub concept_weight: u32,
    pub token_count: usize,
}

impl View for ContextCandidateEvaluation {
    type V = EvaluatedView;

    open spec fn view(&self) -> EvaluatedView {
        EvaluatedView {
            path: self.path@,
            start_line: self.start_line,
            end_line: self.end_line,
            representation: optional_text(self.representation),
            match_kinds: texts(self.match_kinds@),
            concepts: texts(self.concepts@),
            concept_weight: self.concept_weight,
            token_count: self.token_count,
        }
    }
}

/// A response, with what was generated for it and how it was worked out.
#[derive(Debug)]
pub struct ContextEvaluation {
    pub response: ContextResponse,
    pub generated_candidate_paths: Vec<String>,
    pub generated_candidates: Vec<ContextCandidateEvaluation>,
    pub phases: ContextPhaseCounters,
    pub timings: ContextPhaseTimings,
    pub primitive_keys: Vec<PrimitiveKey>,
}

/// The paths of candidates.
pub open spec fn candidate_paths(candidates: Seq<CandidateView>) -> Seq<Seq<char>> {
    Seq::new(candidates.len(), |i: int| candidates[i].path)
}

/// A candidate that takes these tokens, as it is told.
pub open spec fn evaluated(candidate: CandidateView, tokens: usize) -> EvaluatedView {
    EvaluatedView {
        path: candidate.path,
        start_line: candidate.start_line,
        end_line: candidate.end_line,
        representation: candidate.representation,
        match_kinds: candidate.match_kinds,
        concepts: candidate.concepts,
        concept_weight: candidate.concept_weight,
        token_count: if tokens == 0 {
            1
        } else {
            tokens
        },
    }
}

/// Whether a candidate may be told so, by a count of its tokens.
pub open spec fn evaluates<C: Fn(&Candidate) -> usize>(
    count: C,
    candidate: CandidateView,
    out: EvaluatedView,
) -> bool {
    exists|given: &Candidate, tokens: usize|
        (#[trigger] call_ensures(count, (given,), tokens)) && given@ == candidate && out
            == evaluated(candidate, tokens)
}

/// Whether candidates may be told so. Nothing is told where no work is counted.
pub open spec fn evaluates_all<C: Fn(&Candidate) -> usize>(
    count: C,
    diagnostics: CandidateDiagnostics,
    candidates: Seq<CandidateView>,
    paths: Seq<Seq<char>>,
    out: Seq<EvaluatedView>,
) -> bool {
    if diagnostics is Collect {
        &&& paths == sorted_unique(candidate_paths(candidates))
        &&& out.len() == candidates.len()
        &&& forall|i: int|
            0 <= i < candidates.len() ==> #[trigger] evaluates(count, candidates[i], out[i])
    } else {
        paths.len() == 0 && out.len() == 0
    }
}

/// Whether work that was counted ends so, the last of it being timed by a clock.
pub open spec fn work_ends<K: Fn() -> u64>(
    clock: K,
    tracker: ContextPhaseTracker,
    generated: usize,
    out: ContextEvaluation,
) -> bool {
    if tracker.enabled {
        exists|started: u64, ended: u64, now: u64|
            {
                &&& #[trigger] call_ensures(clock, (), started)
                &&& #[trigger] call_ensures(clock, (), ended)
                &&& #[trigger] call_ensures(clock, (), now)
                &&& out.phases == (ContextPhaseCounters {
                    unique_enclosing_locations: tracker.enclosing_locations@.len() as usize,
                    unique_adaptive_excerpt_requests: tracker.adaptive_excerpts@.len() as usize,
                    unique_stored_excerpt_requests: tracker.stored_excerpts@.len() as usize,
                    generated_candidates: generated,
                    ..tracker.counters
                })
                &&& out.timings == (ContextPhaseTimings {
                    ranking_finalize: span(started, ended),
                    total: match tracker.started {
                        Some(begun) => span(begun, now),
                        None => 0,
                    },
                    ..tracker.timings
                })
                &&& views(out.primitive_keys@) == tracker@.primitive_keys
            }
    } else {
        out.phases == no_counters() && out.timings == no_timings() && out.primitive_keys@.len() == 0
    }
}

/// What the index tells of selected and changed paths: for each focus pattern
/// which selected paths it matches, and which changed paths are indexed.
#[derive(Debug)]
pub struct ScopeFacts {
    pub focus_matches: Vec<Vec<bool>>,
    pub changed_indexed: Vec<bool>,
    pub scope_indexed: Vec<bool>,
}

/// What decides how a response is put together.
pub struct ContextFinalization<'a> {
    pub request: &'a ContextRequest,
    pub scoped_request: &'a ContextRequest,
    pub policy: &'a ContextPolicy,
    pub options: ServiceCallOptions,
    pub response_profile: ContextResponseProfile,
    pub diagnostics: CandidateDiagnostics,
    pub diff_evidence_mode: DiffEvidenceMode,
    pub resolved_workflow: ContextWorkflow,
    pub snapshot: &'a RepositorySnapshot,
    pub facts: &'a ScopeFacts,
    pub diff_facts: &'a DiffFacts,
}

/// Where the evidence of a response comes from.
pub open spec fn provenance_of(snapshot: RepositorySnapshot) -> RepositoryProvenance {
    RepositoryProvenance {
        commit_revision: snapshot.commit_revision,
        branch: snapshot.branch,
        working_tree_state: snapshot.working_tree.proven(),
        working_tree_paths_complete: snapshot.working_tree_paths_complete,
        working_tree_paths_limit: snapshot.working_tree_paths_limit,
        repository_generation: snapshot.generation,
        freshness: snapshot.freshness,
        status: if snapshot.commit_revision is Some && snapshot.branch is Some && !(
        snapshot.working_tree is Unknown) {
            RepositoryProvenanceStatus::Available
        } else {
            RepositoryProvenanceStatus::Unavailable
        },
    }
}

/// Where the evidence of a handoff comes from that a revision heads.
pub open spec fn head_provenance(head: Option<String>) -> RepositoryProvenance {
    RepositoryProvenance {
        commit_revision: head,
        branch: None,
        working_tree_state: RepositoryWorkingTreeState::Unknown,
        working_tree_paths_complete: false,
        working_tree_paths_limit: None,
        repository_generation: 0,
        freshness: Freshness::Current,
        status: RepositoryProvenanceStatus::Unavailable,
    }
}

/// A response that says what it covers, under which workflow and of which
/// repository.
pub open spec fn covered_view(
    view: ContextView,
    finalization: ContextFinalization<'_>,
    batch: ContextGathering,
) -> ContextView {
    let found = scope_covered(
        merged_coverage(batch.coverage@, view.coverage),
        *finalization.scoped_request,
        paths_selected(view),
        finalization.facts.focus_matches@,
        finalization.facts.changed_indexed@,
    );
    ContextView {
        effective_response_profile: finalization.response_profile,
        coverage: found,
        warnings: view.warnings + texts(batch.warnings@) + coverage_warnings(found),
        workflow: finalization.resolved_workflow,
        workflow_receipt: optional_view(batch.workflow_receipt),
        meta: ResponseMeta {
            repository_id: finalization.snapshot.repository_id,
            freshness: finalization.snapshot.freshness,
            ..view.meta
        },
        provenance: Some(provenance_of(*finalization.snapshot)),
        ..view
    }
}

/// Whether a response shows the evidence of its changed scope.
pub open spec fn evidence_wanted(finalization: ContextFinalization<'_>) -> bool {
    &&& !(finalization.response_profile is Compact)
    &&& !(finalization.policy.delivery is Plan) || finalization.request.explain_diagnostics
}

/// A scope that tells how many of its paths are indexed.
pub open spec fn scope_counted(scope: DiffScopeReceipt, indexed: Seq<bool>) -> DiffScopeReceipt {
    DiffScopeReceipt {
        indexed_changed_paths: flags_set(indexed, scope.changed_paths@.len() as int) as usize,
        ..scope
    }
}

/// The warning of a wide change.
pub open spec fn routing_warnings(routing: Option<ContextRoutingReceipt>) -> Seq<Seq<char>> {
    match routing {
        Some(value) => seq![
            "context spans "@ + decimal_text(value.changed_paths as nat)
                + " changed paths across "@ + decimal_text(value.path_groups_total as nat)
                + " path groups"@ + (if value.weakly_concentrated {
                "; selected evidence is weakly concentrated"@
            } else {
                ""@
            }),
        ],
        None => Seq::empty(),
    }
}

/// The bound up to which changed paths were looked for.
pub open spec fn bound_text(limit: Option<usize>) -> Seq<char> {
    match limit {
        Some(value) => decimal_text(value as nat),
        None => "the configured bound"@,
    }
}

/// The warning of a scope that may lack changed paths.
pub open spec fn incomplete_warning(scope: DiffScopeReceipt) -> Seq<Seq<char>> {
    note(
        !scope.changed_paths_complete,
        "changed-path discovery is incomplete at "@ + bound_text(scope.changed_paths_limit)
            + " paths; advisory results may omit changed files"@,
    )
}

/// Whether `routing` is how a wide change of a scope can be split.
pub open spec fn routing_of(
    request: ContextRequest,
    scope: DiffScopeReceipt,
    candidate_paths: usize,
    selected: Seq<Seq<char>>,
    routing: Option<ContextRoutingReceipt>,
) -> bool {
    match routing {
        Some(value) => oversized(texts(scope.changed_paths@)) && routes(
            request,
            scope,
            candidate_paths,
            selected,
            value,
        ),
        None => !oversized(texts(scope.changed_paths@)),
    }
}

/// Whether `evidence` is what a response shows of its changed scope.
pub open spec fn shows(
    finalization: ContextFinalization<'_>,
    scope: DiffScopeReceipt,
    evidence: Option<DiffEvidenceReceipt>,
) -> bool {
    match evidence {
        Some(value) => evidence_wanted(finalization) && draws(
            *finalization.scoped_request,
            scope,
            finalization.resolved_workflow,
            finalization.policy.delivery is Plan,
            finalization.diff_evidence_mode,
            *finalization.diff_facts,
            value,
        ),
        None => !evidence_wanted(finalization),
    }
}

/// Whether `out` is a response that tells of its changed scope.
pub open spec fn scoped_from(
    view: ContextView,
    finalization: ContextFinalization<'_>,
    scope: Option<DiffScopeReceipt>,
    candidate_paths: Seq<Seq<char>>,
    out: ContextView,
) -> bool {
    match scope {
        None => out == view,
        Some(given) => exists|
            evidence: Option<DiffEvidenceReceipt>,
            routing: Option<ContextRoutingReceipt>,
        |
            {
                &&& #[trigger] shows(
                    finalization,
                    scope_counted(given, finalization.facts.scope_indexed@),
                    evidence,
                )
                &&& #[trigger] routing_of(
                    *finalization.request,
                    scope_counted(given, finalization.facts.scope_indexed@),
                    sorted_unique(candidate_paths).len() as usize,
                    paths_selected(view),
                    routing,
                )
                &&& out == (ContextView {
                    diff_scope: Some(
                        (DiffScopeReceipt {
                            evidence,
                            ..scope_counted(given, finalization.facts.scope_indexed@)
                        })@,
                    ),
                    routing: optional_view(routing),
                    warnings: view.warnings + routing_warnings(routing) + incomplete_warning(given),
                    ..view
                })
            },
    }
}

/// A fragment as a handoff names it.
pub open spec fn place_of(fragment: ContextFragment) -> PlaceView {
    PlaceView {
        path: fragment.path@,
        start_line: fragment.start_line,
        end_line: fragment.end_line,
        content_hash: fragment.content_hash@,
    }
}

/// Fragments as a handoff names them.
pub open spec fn places(fragments: Seq<ContextFragment>) -> Seq<PlaceView> {
    Seq::new(fragments.len(), |i: int| place_of(fragments[i]))
}

/// The revision that heads the scope of a response.
pub open spec fn head_of(scope: Option<DiffScopeReceipt>) -> Option<String> {
    match scope {
        Some(value) => value.head_revision,
        None => None,
    }
}

/// Whether `handed` is where the evidence of a handoff comes from. A scope with a
/// head revision is a snapshot of its own.
pub open spec fn handoff_provenance(
    scope: Option<DiffScopeReceipt>,
    snapshot: RepositorySnapshot,
    handed: HandoffProvenance,
) -> bool {
    let head = head_of(scope);
    &&& handed.commit_revision == if head is Some {
        head
    } else {
        snapshot.commit_revision
    }
    &&& handed.commit_revision_available == (handed.commit_revision is Some)
    &&& handed.working_tree_state == if handed.commit_revision is Some {
        snapshot.working_tree.handed()
    } else {
        HandoffWorkingTreeState::Unknown
    }
    &&& handed.working_tree_paths@ == snapshot.working_tree_paths@
    &&& handed.provenance == Some(
        if head is Some {
            head_provenance(head)
        } else {
            provenance_of(snapshot)
        },
    )
}

/// The part of a response that a manifest reads.
pub open spec fn source_of(response: ContextResponse) -> HandoffSource<'static> {
    HandoffSource {
        task_fingerprint: &response.receipt.task_fingerprint,
        meta: &response.meta,
        diff_scope: match response.diff_scope {
            Some(scope) => Some(&scope),
            None => None,
        },
    }
}

/// Whether `out` is a response with the handoff that its policy asks for.
pub open spec fn handed_from(
    view: ContextView,
    finalization: ContextFinalization<'_>,
    out: ContextView,
) -> bool {
    match finalization.policy.handed() {
        None => out == view,
        Some(handoff) => exists|
            response: ContextResponse,
            handed: HandoffProvenance,
            manifest: HandoffManifest,
        |
            {
                &&& response@ == view
                &&& #[trigger] handoff_provenance(
                    response.diff_scope,
                    *finalization.snapshot,
                    handed,
                )
                &&& #[trigger] hands_over(
                    *finalization.request,
                    handoff,
                    source_of(response),
                    places(view.fragments),
                    handed,
                    manifest,
                )
                &&& out == (ContextView { handoff_manifest: Some(manifest@), ..view })
            },
    }
}

/// Whether `out` is a response put together from a selection.
pub open spec fn assembled(
    view: ContextView,
    finalization: ContextFinalization<'_>,
    batch: ContextGathering,
    scope: Option<DiffScopeReceipt>,
    out: ContextView,
) -> bool {
    exists|scoped: ContextView|
        #[trigger] scoped_from(
            covered_view(view, finalization, batch),
            finalization,
            scope,
            candidate_paths(views(batch.candidates@)),
            scoped,
        ) && handed_from(scoped, finalization, out)
}

fn make_provenance(snapshot: &RepositorySnapshot) -> (r: RepositoryProvenance)
    ensures
        r == provenance_of(*snapshot),
{
    RepositoryProvenance {
        commit_revision: copy_optional_text(&snapshot.commit_revision),
        branch: copy_optional_text(&snapshot.branch),
        working_tree_state: snapshot.working_tree.provenance_state(),
        working_tree_paths_complete: snapshot.working_tree_paths_complete,
        working_tree_paths_limit: snapshot.working_tree_paths_limit,
        repository_generation: snapshot.generation,
        freshness: snapshot.freshness,
        status: if snapshot.commit_revision.is_some() && snapshot.branch.is_some()
            && snapshot.working_tree.is_available() {
            RepositoryProvenanceStatus::Available
        } else {
            RepositoryProvenanceStatus::Unavailable
        },
    }
}

/// Lets a response say what it covers, under which workflow and of which
/// repository. Tells the selected paths.
#[verifier::rlimit(40)]
fn cover(
    response: &mut ContextResponse,
    finalization: &ContextFinalization<'_>,
    batch: ContextGathering,
) -> (r: Vec<String>)
    ensures
        final(response)@ == covered_view(old(response)@, *finalization, batch),
        texts(r@) == paths_selected(old(response)@),
        paths_selected(final(response)@) == paths_selected(old(response)@),
{
    let ghost start = response@;
    response.effective_response_profile = finalization.response_profile;
    let mut merged = merge_selected_coverage(batch.coverage, response);
    let selected = selected_paths(response);
    Services::finalize_strict_scope_coverage(
        finalization.scoped_request,
        &selected,
        &finalization.facts.focus_matches,
        &finalization.facts.changed_indexed,
        &mut merged,
    );
    response.coverage = merged;
    let mut more = batch.warnings;
    let ghost added = texts(more@);
    response.warnings.append(&mut more);
    assert(texts(response.warnings@) =~= start.warnings + added);
    append_coverage_warnings(response);
    response.workflow = finalization.resolved_workflow;
    response.workflow_receipt = batch.workflow_receipt;
    response.meta.freshness = finalization.snapshot.freshness;
    response.meta.repository_id = finalization.snapshot.repository_id.clone();
    response.provenance = Some(make_provenance(finalization.snapshot));
    selected
}

fn routing_text(routing: &ContextRoutingReceipt) -> (r: String)
    ensures
        seq![r@] == routing_warnings(Some(*routing)),
{
    let spans = appended(
        appended(copy_text("context spans "), decimal(routing.changed_paths as u64).as_str()),
        " changed paths across ",
    );
    let groups = appended(
        appended(spans, decimal(routing.path_groups_total as u64).as_str()),
        " path groups",
    );
    if routing.weakly_concentrated {
        appended(groups, "; selected evidence is weakly concentrated")
    } else {
        appended(groups, "")
    }
}

fn incomplete_text(limit: Option<usize>) -> (r: String)
    ensures
        r@ == "changed-path discovery is incomplete at "@ + bound_text(limit)
            + " paths; advisory results may omit changed files"@,
{
    let bound = match limit {
        Some(value) => decimal(value as u64),
        None => copy_text("the configured bound"),
    };
    appended(
        appended(copy_text("changed-path discovery is incomplete at "), bound.as_str()),
        " paths; advisory results may omit changed files",
    )
}

/// Lets a response tell of its changed scope.
#[verifier::rlimit(40)]
fn tell_scope(
    response: &mut ContextResponse,
    finalization: &ContextFinalization<'_>,
    scope: Option<DiffScopeReceipt>,
    candidate_paths: &Vec<String>,
    selected: &Vec<String>,
) -> (r: Result<(), Error>)
    requires
        texts(selected@) == paths_selected(old(response)@),
    ensures
        match r {
            Ok(_) => scoped_from(
                old(response)@,
                *finalization,
                scope,
                texts(candidate_paths@),
                final(response)@,
            ),
            Err(e) => scope is Some && evidence_wanted(*finalization) && evidence_fault(
                scope_counted(scope->0, finalization.facts.scope_indexed@),
                finalization.resolved_workflow,
                finalization.policy.delivery is Plan,
                finalization.diff_evidence_mode,
            ) == Some(e@),
        },
{
    let ghost start = response@;
    let mut scope = match scope {
        Some(scope) => scope,
        None => {
            return Ok(());
        },
    };
    let ghost given = scope;
    scope.indexed_changed_paths =
    count_flags(&finalization.facts.scope_indexed, scope.changed_paths.len());
    let ghost counted = scope_counted(given, finalization.facts.scope_indexed@);
    assert(scope == counted);
    let compact = match finalization.response_profile {
        ContextResponseProfile::Compact => true,
        _ => false,
    };
    let evidence = if !compact && (!finalization.policy.is_plan()
        || finalization.request.explain_diagnostics) {
        match Services::build_diff_evidence(
            finalization.scoped_request,
            &scope,
            finalization.resolved_workflow,
            finalization.policy,
            finalization.diff_evidence_mode,
            finalization.diff_facts,
        ) {
            Ok(found) => Some(found),
            Err(e) => {
                return Err(e);
            },
        }
    } else {
        None
    };
    let candidates = sort_unique_texts(copy_texts(candidate_paths));
    assert(texts(candidates@).len() == candidates@.len());
    let routing = build_context_routing(
        finalization.request,
        &scope,
        candidates.len(),
        selected,
    );
    assert(shows(*finalization, counted, evidence));
    assert(routing_of(
        *finalization.request,
        counted,
        sorted_unique(texts(candidate_paths@)).len() as usize,
        paths_selected(start),
        routing,
    ));
    scope.evidence = evidence;
    let ghost shown = scope;
    match &routing {
        Some(value) => {
            let text = routing_text(value);
            let ghost said = text@;
            response.warnings.push(text);
            assert(texts(response.warnings@) =~= start.warnings + seq![said]);
        },
        None => {
            assert(texts(response.warnings@) =~= start.warnings + Seq::<Seq<char>>::empty());
        },
    }
    assert(texts(response.warnings@) == start.warnings + routing_warnings(routing));
    push_made(
        &mut response.warnings,
        !scope.changed_paths_complete,
        incomplete_text(scope.changed_paths_limit),
    );
    response.diff_scope = Some(scope);
    response.routing = routing;
    Ok(())
}

fn name_places(fragments: &Vec<ContextFragment>) -> (r: Vec<HandoffEvidence>)
    ensures
        views(r@) == places(fragments@),
{
    let ghost all = places(fragments@);
    let mut out: Vec<HandoffEvidence> = Vec::new();
    let mut i: usize = 0;
    assert(views(out@) =~= all.take(0));
    while i < fragments.len()
        invariant
            i <= fragments.len(),
            all == places(fragments@),
            views(out@) == all.take(i as int),
        decreases fragments.len() - i,
    {
        let ghost before = views(out@);
        let item = HandoffEvidence {
            path: fragments[i].path.clone(),
            start_line: fragments[i].start_line,
            end_line: fragments[i].end_line,
            content_hash: fragments[i].content_hash.clone(),
        };
        let ghost added = item@;
        out.push(item);
        assert(views(out@) =~= before.push(added));
        assert(views(out@) =~= all.take(i + 1));
        i += 1;
    }
    assert(all.take(all.len() as int) =~= all);
    out
}

fn make_handoff_provenance(scope: &Option<DiffScopeReceipt>, snapshot: &RepositorySnapshot) -> (r:
    HandoffProvenance)
    ensures
        handoff_provenance(*scope, *snapshot, r),
{
    let head = match scope {
        Some(scope) => copy_optional_text(&scope.head_revision),
        None => None,
    };
    let provenance = if head.is_some() {
        RepositoryProvenance {
            commit_revision: copy_optional_text(&head),
            branch: None,
            working_tree_state: RepositoryWorkingTreeState::Unknown,
            working_tree_paths_complete: false,
            working_tree_paths_limit: None,
            repository_generation: 0,
            freshness: Freshness::Current,
            status: RepositoryProvenanceStatus::Unavailable,
        }
    } else {
        make_provenance(snapshot)
    };
    let commit_revision = if head.is_some() {
        head
    } else {
        copy_optional_text(&snapshot.commit_revision)
    };
    let available = commit_revision.is_some();
    HandoffProvenance {
        commit_revision,
        commit_revision_available: available,
        working_tree_state: if available {
            snapshot.working_tree.handoff_state()
        } else {
            HandoffWorkingTreeState::Unknown
        },
        working_tree_paths: copy_texts(&snapshot.working_tree_paths),
        provenance: Some(provenance),
    }
}

/// Adds the handoff that a policy asks for.
fn add_handoff(response: &mut ContextResponse, finalization: &ContextFinalization<'_>)
    ensures
        handed_from(old(response)@, *finalization, final(response)@),
{
    if let Some(handoff) = finalization.policy.handoff() {
        let ghost whole = *response;
        let evidence = name_places(&response.fragments);
        let handed = make_handoff_provenance(&response.diff_scope, finalization.snapshot);
        let ghost from = handed;
        let source = HandoffSource {
            task_fingerprint: &response.receipt.task_fingerprint,
            meta: &response.meta,
            diff_scope: match &response.diff_scope {
                Some(scope) => Some(scope),
                None => None,
            },
        };
        assert(source == source_of(whole));
        let manifest = build(finalization.request, handoff, source, evidence, handed);
        assert(handoff_provenance(whole.diff_scope, *finalization.snapshot, from));
        assert(hands_over(
            *finalization.request,
            *handoff,
            source_of(whole),
            places(whole@.fragments),
            from,
            manifest,
        ));
        response.handoff_manifest = Some(manifest);
    }
}

fn list_candidate_paths(candidates: &Vec<Candidate>) -> (r: Vec<String>)
    ensures
        texts(r@) == candidate_paths(views(candidates@)),
{
    let ghost all = candidate_paths(views(candidates@));
    let mut out: Vec<String> = Vec::new();
    let mut i: usize = 0;
    assert(texts(out@) =~= all.take(0));
    while i < candidates.len()
        invariant
            i <= candidates.len(),
            all == candidate_paths(views(candidates@)),
            texts(out@) == all.take(i as int),
        decreases candidates.len() - i,
    {
        let ghost before = texts(out@);
        out.push(candidates[i].path.clone());
        assert(views(candidates@)[i as int] == candidates@[i as int]@);
        assert(texts(out@) =~= before.push(candidates@[i as int].path@));
        assert(texts(out@) =~= all.take(i + 1));
        i += 1;
    }
    assert(all.take(all.len() as int) =~= all);
    out
}

fn evaluate_candidates<C: Fn(&Candidate) -> usize>(candidates: &Vec<Candidate>, count: &C) -> (r:
    Vec<ContextCandidateEvaluation>)
    requires
        forall|candidate: &Candidate| call_requires(*count, (candidate,)),
    ensures
        r@.len() == candidates@.len(),
        forall|i: int|
            0 <= i < candidates@.len() ==> #[trigger] evaluates(
                *count,
                views(candidates@)[i],
                views(r@)[i],
            ),
{
    let mut out: Vec<ContextCandidateEvaluation> = Vec::new();
    let mut i: usize = 0;
    while i < candidates.len()
        invariant
            i <= candidates.len(),
            forall|candidate: &Candidate| call_requires(*count, (candidate,)),
            out@.len() == i,
            forall|k: int|
                0 <= k < i ==> #[trigger] evaluates(
                    *count,
                    views(candidates@)[k],
                    views(out@)[k],
                ),
        decreases candidates.len() - i,
    {
        let candidate = &candidates[i];
        let tokens: usize = count(candidate);
        let item = ContextCandidateEvaluation {
            path: candidate.path.clone(),
            start_line: candidate.start_line,
            end_line: candidate.end_line,
            representation: copy_optional_text(&candidate.representation),
            match_kinds: copy_texts(&candidate.match_kinds),
            concepts: copy_texts(&candidate.concepts),
            concept_weight: candidate.concept_weight,
            token_count: if tokens == 0 {
                1
            } else {
                tokens
            },
        };
        let ghost before = views(out@);
        let ghost added = item@;
        out.push(item);
        proof {
            assert(views(out@) =~= before.push(added));
            assert(added == evaluated(candidate@, tokens));
            assert(evaluates(*count, views(candidates@)[i as int], added));
            assert forall|k: int| 0 <= k < i + 1 implies #[trigger] evaluates(
                *count,
                views(candidates@)[k],
                views(out@)[k],
            ) by {
                if k < i {
                    assert(views(out@)[k] == before[k]);
                    assert(evaluates(*count, views(candidates@)[k], before[k]));
                }
            }
        }
        i += 1;
    }
    out
}

impl Services {
    /// Puts a response together from a selection: coverage, provenance, changed
    /// scope and handoff.
    pub fn assemble_context_response(
        response: &mut ContextResponse,
        finalization: &ContextFinalization<'_>,
        batch: ContextGathering,
        scope: Option<DiffScopeReceipt>,
    ) -> (r: Result<(), Error>)
        ensures
            match r {
                Ok(_) => assembled(
                    old(response)@,
                    *finalization,
                    batch,
                    scope,
                    final(response)@,
                ),
                Err(e) => scope is Some && evidence_wanted(*finalization) && evidence_fault(
                    scope_counted(scope->0, finalization.facts.scope_indexed@),
                    finalization.resolved_workflow,
                    finalization.policy.delivery is Plan,
                    finalization.diff_evidence_mode,
                ) == Some(e@),
            },
    {
        let paths = list_candidate_paths(&batch.candidates);
        let selected = cover(response, finalization, batch);
        match tell_scope(response, finalization, scope, &paths, &selected) {
            Ok(_) => {},
            Err(e) => {
                return Err(e);
            },
        }
        add_handoff(response, finalization);
        Ok(())
    }

    /// Puts a response together from a selection and hands it over, with what was
    /// generated for it and the work that was counted. Tells the paths of what is
    /// handed over, or nothing for a plan. `count` counts the tokens of a candidate.
    pub fn finalize_context_pipeline<
        S: Fn(&ContextResponse, &ResponseMeta, ReceiptResourceDecoration) -> Measurement,
        E: Fn(&Vec<ReceiptEvidence>) -> Result<ReceiptEvaluation, Error>,
        C: Fn(&Candidate) -> usize,
        K: Fn() -> u64,
    >(
        response: ContextResponse,
        finalization: &ContextFinalization<'_>,
        batch: ContextGathering,
        scope: Option<DiffScopeReceipt>,
        phases: ContextPhaseTracker,
        evaluate: &E,
        count: &C,
        clock: &K,
        measure: &S,
    ) -> (r: Result<(ContextEvaluation, Option<Vec<String>>), Error>)
        requires
            settles(*measure),
            forall|asked: &Vec<ReceiptEvidence>| call_requires(*evaluate, (asked,)),
            forall|candidate: &Candidate| call_requires(*count, (candidate,)),
            call_requires(*clock, ()),
        ensures
            match r {
                Ok((out, paths)) => {
                    &&& exists|whole: ContextView|
                        #[trigger] assembled(response@, *finalization, batch, scope, whole)
                            && delivered(
                            *measure,
                            *evaluate,
                            whole,
                            *finalization.request,
                            *finalization.policy,
                            finalization.options,
                            out.response@,
                        )
                    &&& evaluates_all(
                        *count,
                        finalization.diagnostics,
                        views(batch.candidates@),
                        texts(out.generated_candidate_paths@),
                        views(out.generated_candidates@),
                    )
                    &&& work_ends(*clock, phases, out.generated_candidates@.len() as usize, out)
                    &&& match paths {
                        Some(list) => !(finalization.policy.delivery is Plan) && texts(list@)
                            == sorted_unique(fragment_paths(out.response.fragments@)),
                        None => finalization.policy.delivery is Plan,
                    }
                },
                Err(e) => {
                    ||| scope is Some && evidence_wanted(*finalization) && evidence_fault(
                        scope_counted(scope->0, finalization.facts.scope_indexed@),
                        finalization.resolved_workflow,
                        finalization.policy.delivery is Plan,
                        finalization.diff_evidence_mode,
                    ) == Some(e@)
                    ||| exists|whole: ContextView|
                        #[trigger] assembled(response@, *finalization, batch, scope, whole)
                            && undelivered(
                            *measure,
                            *evaluate,
                            whole,
                            *finalization.request,
                            *finalization.policy,
                            finalization.options,
                            e,
                        )
                },
            },
    {
        let now: u64 = clock();
        let ranking_started = phases.timer(now);
        let ghost started = now;
        let mut generated_candidate_paths: Vec<String> = Vec::new();
        let mut generated_candidates: Vec<ContextCandidateEvaluation> = Vec::new();
        if finalization.diagnostics == CandidateDiagnostics::Collect {
            generated_candidate_paths = sort_unique_texts(list_candidate_paths(&batch.candidates));
            generated_candidates = evaluate_candidates(&batch.candidates, count);
        }
        let ghost given = views(batch.candidates@);
        let mut response = response;
        match Self::assemble_context_response(&mut response, finalization, batch, scope) {
            Ok(_) => {},
            Err(e) => {
                return Err(e);
            },
        }
        let paths = match Self::finalize_context_delivery(
            &mut response,
            finalization.request,
            finalization.policy,
            finalization.options,
            evaluate,
            measure,
        ) {
            Ok(paths) => paths,
            Err(e) => {
                return Err(e);
            },
        };
        let ghost tracker = phases;
        let mut phases = phases;
        let ended: u64 = clock();
        if let Some(started) = ranking_started {
            phases.timings.ranking_finalize = ended.saturating_sub(started);
        }
        let generated: usize = generated_candidates.len();
        let now: u64 = clock();
        let (counters, timings, primitive_keys) = phases.finish(generated, now);
        let out = ContextEvaluation {
            response,
            generated_candidate_paths,
            generated_candidates,
            phases: counters,
            timings,
            primitive_keys,
        };
        proof {
            assert(call_ensures(*clock, (), started) && call_ensures(*clock, (), ended)
                && call_ensures(*clock, (), now));
            assert(work_ends(*clock, tracker, generated, out));
            assert(views(out.generated_candidates@).len() == out.generated_candidates@.len());
            assert(given.len() == batch.candidates@.len());
            assert(evaluates_all(
                *count,
                finalization.diagnostics,
                given,
                texts(out.generated_candidate_paths@),
                views(out.generated_candidates@),
            ));
        }
        Ok((out, paths))
    }
}

} // verus!
