//! What a response is put together from.

use crate::context::pipeline::{
    evaluated, evidence_wanted, handoff_provenance, head_provenance, provenance_of, scoped_from,
    ContextFinalization, RepositorySnapshot,
};
use crate::context::candidates::draft::CandidateView;
use crate::handoff::HandoffProvenance;
use crate::model::DiffScopeReceipt;
use crate::response::ContextView;
use vstd::prelude::*;

verus! {

/// Provenance tells a snapshot as it is, and is available exactly where commit, branch
/// and working tree are known. That of a revision names the revision and nothing else.
pub proof fn provenance_tells_its_snapshot(snapshot: RepositorySnapshot, head: Option<String>)
    ensures
        ({
            let told = provenance_of(snapshot);
            &&& told.commit_revision == snapshot.commit_revision
            &&& told.branch == snapshot.branch
            &&& told.repository_generation == snapshot.generation
            &&& told.freshness == snapshot.freshness
            &&& told.working_tree_paths_complete == snapshot.working_tree_paths_complete
            &&& told.working_tree_paths_limit == snapshot.working_tree_paths_limit
            &&& told.status is Available <==> snapshot.commit_revision is Some
                && snapshot.branch is Some && !(snapshot.working_tree is Unknown)
            &&& told.working_tree_state is Unknown <==> snapshot.working_tree is Unknown
        }),
        head_provenance(head).commit_revision == head,
        head_provenance(head).branch is None,
        head_provenance(head).status is Unavailable,
        head_provenance(head).working_tree_state is Unknown,
        !head_provenance(head).working_tree_paths_complete,
        head_provenance(head).repository_generation == 0,
{
}

/// A handoff names the head of its scope where it has one, else the commit of the
/// snapshot; without either it knows nothing of the working tree.
pub proof fn a_handoff_names_its_commit(
    scope: Option<DiffScopeReceipt>,
    snapshot: RepositorySnapshot,
    handed: HandoffProvenance,
)
    requires
        handoff_provenance(scope, snapshot, handed),
    ensures
        scope is Some && (scope->0).head_revision is Some ==> handed.commit_revision == (
        scope->0).head_revision && handed.commit_revision_available,
        (scope is None || (scope->0).head_revision is None) ==> handed.commit_revision
            == snapshot.commit_revision,
        handed.commit_revision_available <==> handed.commit_revision is Some,
        !handed.commit_revision_available ==> handed.working_tree_state is Unknown,
        handed.commit_revision_available && snapshot.working_tree is Clean
            ==> handed.working_tree_state is Clean,
        handed.commit_revision_available && snapshot.working_tree is Modified
            ==> handed.working_tree_state is Dirty,
        handed.commit_revision_available && snapshot.working_tree is Untracked
            ==> handed.working_tree_state is Dirty,
        handed.working_tree_paths@ == snapshot.working_tree_paths@,
        handed.provenance is Some,
{
}

/// Evidence of a change is shown neither by a compact response nor, unless it explains
/// itself, by a plan; it is shown by every other.
pub proof fn evidence_is_shown_where_it_is_wanted(finalization: ContextFinalization<'_>)
    ensures
        finalization.response_profile is Compact ==> !evidence_wanted(finalization),
        finalization.policy.delivery is Plan && !finalization.request.explain_diagnostics
            ==> !evidence_wanted(finalization),
        !(finalization.response_profile is Compact) && !(finalization.policy.delivery is Plan)
            ==> evidence_wanted(finalization),
        !(finalization.response_profile is Compact) && finalization.request.explain_diagnostics
            ==> evidence_wanted(finalization),
{
}

/// A response without a scope stays as it is. With one it tells the scope, and warns
/// once for a routing and once for changed paths that were not all found.
pub proof fn a_scope_is_told_with_its_warnings(
    view: ContextView,
    finalization: ContextFinalization<'_>,
    scope: Option<DiffScopeReceipt>,
    candidate_paths: Seq<Seq<char>>,
    out: ContextView,
)
    requires
        scoped_from(view, finalization, scope, candidate_paths, out),
    ensures
        scope is None ==> out == view,
        scope is Some ==> {
            &&& out.diff_scope is Some
            &&& view.warnings.is_prefix_of(out.warnings)
            &&& out.warnings.len() == view.warnings.len() + (if out.routing is Some {
                1int
            } else {
                0
            }) + (if (scope->0).changed_paths_complete {
                0int
            } else {
                1
            })
            &&& out.fragments == view.fragments
            &&& out.coverage == view.coverage
        },
{
}

/// A candidate takes at least one token, and as many as are counted where any are; all
/// else is told as it is.
pub proof fn a_candidate_takes_a_token(candidate: CandidateView, tokens: usize)
    ensures
        evaluated(candidate, tokens).token_count >= 1,
        tokens > 0 ==> evaluated(candidate, tokens).token_count == tokens,
        evaluated(candidate, tokens).path == candidate.path,
        evaluated(candidate, tokens).start_line == candidate.start_line,
        evaluated(candidate, tokens).end_line == candidate.end_line,
        evaluated(candidate, tokens).concept_weight == candidate.concept_weight,
{
}

} // verus!
