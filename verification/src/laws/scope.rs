//! The changed paths that a request is about, and what a policy makes of a request.

use crate::context::policy::{observed, option_violations, options_fault, policy_of, ContextPolicy};
use crate::context::scope::{
    found_paths, joined_paths, scope_fault, scope_paths, scoped, ContextRevision,
};
use crate::error::{Error, Fault};
use crate::model::{
    ContextRequest, DiffScopeReceipt, GitDiffResult, GitWorkingTreeStatus, HandoffManifestRequest,
};
use crate::ordered::sorted_unique_is_a_set;
use crate::text::{text_le, texts};
use vstd::prelude::*;

verus! {

/// Joining paths keeps all that there were and adds only from the new ones, each once,
/// up to 512; where it did not stop there, none is missing.
pub proof fn paths_are_joined(start: Seq<Seq<char>>, more: Seq<Seq<char>>, upto: int)
    requires
        0 <= upto <= more.len(),
    ensures
        forall|t: Seq<char>| #[trigger]
            start.contains(t) ==> joined_paths(start, more, upto).paths.contains(t),
        forall|t: Seq<char>| #[trigger]
            joined_paths(start, more, upto).paths.contains(t) ==> start.contains(t)
                || more.contains(t),
        !joined_paths(start, more, upto).full ==> forall|k: int|
            0 <= k < upto ==> joined_paths(start, more, upto).paths.contains(#[trigger] more[k]),
        joined_paths(start, more, upto).paths.len() >= start.len(),
        start.len() <= 512 ==> joined_paths(start, more, upto).paths.len() <= 512,
        joined_paths(start, more, upto).full ==> joined_paths(start, more, upto).paths.len() == 512
            && exists|k: int|
            0 <= k < upto && !joined_paths(start, more, upto).paths.contains(#[trigger] more[k]),
    decreases upto,
{
    if upto > 0 {
        paths_are_joined(start, more, upto - 1);
        let before = joined_paths(start, more, upto - 1);
        let after = joined_paths(start, more, upto);
        let x = more[upto - 1];
        assert forall|t: Seq<char>| #[trigger] before.paths.contains(t) implies after.paths.contains(
            t,
        ) by {
            let i = choose|i: int| 0 <= i < before.paths.len() && before.paths[i] == t;
            assert(after.paths[i] == t);
        }
        assert forall|t: Seq<char>| #[trigger] after.paths.contains(t) implies start.contains(t)
            || more.contains(t) by {
            let i = choose|i: int| 0 <= i < after.paths.len() && after.paths[i] == t;
            if i < before.paths.len() {
                assert(before.paths[i] == t);
                assert(before.paths.contains(t));
            } else {
                assert(t == x);
            }
        }
        if !after.full {
            assert(!before.full);
            assert forall|k: int| 0 <= k < upto implies after.paths.contains(#[trigger] more[k]) by {
                if k < upto - 1 {
                    assert(before.paths.contains(more[k]));
                } else if !before.paths.contains(x) {
                    assert(after.paths[before.paths.len() as int] == x);
                }
            }
        } else if before.full {
            assert(after == before);
        } else {
            assert(!after.paths.contains(more[upto - 1]));
        }
    }
}

/// The changed paths of a scope stand once each and in ascending order.
pub proof fn the_paths_of_a_scope_stand_in_order(
    request: ContextRequest,
    revision: Option<ContextRevision>,
    git: Option<GitDiffResult>,
    tree: GitWorkingTreeStatus,
    scope: DiffScopeReceipt,
)
    requires
        scoped(request, revision, git, tree, scope),
    ensures
        forall|i: int, j: int|
            0 <= i < j < scope.changed_paths@.len() ==> text_le(
                (#[trigger] scope.changed_paths@[i])@,
                (#[trigger] scope.changed_paths@[j])@,
            ) && scope.changed_paths@[i]@ != scope.changed_paths@[j]@,
        scope.changed_paths_complete && git is Some ==> scope.changed_paths_limit is None,
        scope.base_revision is Some <==> git is Some,
        scope.head_revision is Some <==> git is Some,
        git is Some ==> scope.base_revision == Some((git->0).base_revision) && scope.head_revision
            == Some((git->0).head_revision),
        scope.indexed_changed_paths == 0,
        scope.evidence is None,
{
    let list = texts(scope.changed_paths@);
    sorted_unique_is_a_set(texts(request.changed_paths@));
    sorted_unique_is_a_set(texts(tree.changed_paths@));
    if git is Some {
        sorted_unique_is_a_set(scope_paths(request, revision, git->0, tree).paths);
    }
    assert forall|i: int, j: int| 0 <= i < j < scope.changed_paths@.len() implies text_le(
        (#[trigger] scope.changed_paths@[i])@,
        (#[trigger] scope.changed_paths@[j])@,
    ) && scope.changed_paths@[i]@ != scope.changed_paths@[j]@ by {
        assert(list[i] == scope.changed_paths@[i]@ && list[j] == scope.changed_paths@[j]@);
        assert(text_le(list[i], list[j]));
    }
}

/// Whether a list of strings holds a text.
pub open spec fn lists(list: Seq<String>, t: Seq<char>) -> bool {
    texts(list).contains(t)
}

/// A scope without a revision is what the request names, and complete; or, where the
/// request names nothing, what the working tree says, as complete as it says.
pub proof fn a_scope_without_a_revision_is_named_or_found(
    request: ContextRequest,
    tree: GitWorkingTreeStatus,
    scope: DiffScopeReceipt,
)
    requires
        scoped(request, None, None, tree, scope),
    ensures
        request.changed_paths@.len() > 0 ==> scope.changed_paths_complete
            && scope.changed_paths_limit is None && forall|t: Seq<char>| #[trigger]
            lists(scope.changed_paths@, t) <==> lists(request.changed_paths@, t),
        request.changed_paths@.len() == 0 ==> scope.changed_paths_complete
            == tree.changed_paths_complete && forall|t: Seq<char>| #[trigger]
            lists(scope.changed_paths@, t) <==> lists(tree.changed_paths@, t),
{
    sorted_unique_is_a_set(texts(request.changed_paths@));
    sorted_unique_is_a_set(texts(tree.changed_paths@));
}

/// A scope with a revision holds the paths that the request names. Where the request
/// keeps strictly to them it holds no others. Otherwise it holds also what git tells of
/// the revision and, unless two revisions are given, of the working tree, and nothing
/// from elsewhere; where it says that it is complete, none of these is missing.
pub proof fn a_scope_with_a_revision_joins_what_changed(
    request: ContextRequest,
    revision: Option<ContextRevision>,
    git: GitDiffResult,
    tree: GitWorkingTreeStatus,
    scope: DiffScopeReceipt,
    t: Seq<char>,
)
    requires
        scoped(request, revision, Some(git), tree, scope),
    ensures
        lists(request.changed_paths@, t) ==> lists(scope.changed_paths@, t),
        ({
            let strict = request.changed_paths@.len() > 0 && request.strict_changed_paths;
            let range = revision is Some && revision->0 is Range;
            &&& strict ==> (lists(scope.changed_paths@, t) <==> lists(request.changed_paths@, t))
            &&& lists(scope.changed_paths@, t) ==> {
                ||| lists(request.changed_paths@, t)
                ||| lists(git.changed_paths@, t)
                ||| !range && lists(tree.changed_paths@, t)
            }
            &&& scope.changed_paths_complete && !strict ==> {
                &&& lists(git.changed_paths@, t) ==> lists(scope.changed_paths@, t)
                &&& !range && lists(tree.changed_paths@, t) ==> lists(scope.changed_paths@, t)
                &&& !range ==> tree.changed_paths_complete
            }
            &&& scope.changed_paths_complete ==> git.changed_paths_complete
            &&& git.changed_paths_complete && (strict || range || tree.changed_paths_complete)
                && request.changed_paths@.len() + git.changed_paths@.len()
                + tree.changed_paths@.len() <= 512 ==> scope.changed_paths_complete
        }),
{
    let range = revision is Some && revision->0 is Range;
    let strict = request.changed_paths@.len() > 0 && request.strict_changed_paths;
    let named = texts(request.changed_paths@);
    let more = found_paths(revision, git, tree);
    let raw = texts(git.changed_paths@) + if range {
        Seq::empty()
    } else {
        texts(tree.changed_paths@)
    };
    sorted_unique_is_a_set(raw);
    assert(more == crate::ordered::sorted_unique(raw));
    assert(named.len() == request.changed_paths@.len());
    assert(raw.len() <= git.changed_paths@.len() + tree.changed_paths@.len());
    sorted_unique_is_a_set(scope_paths(request, revision, git, tree).paths);
    paths_are_joined(named, more, more.len() as int);
    let joined = joined_paths(named, more, more.len() as int);
    assert(raw.contains(t) <==> texts(git.changed_paths@).contains(t) || (!range && texts(
        tree.changed_paths@,
    ).contains(t))) by {
        if texts(git.changed_paths@).contains(t) {
            let i = choose|i: int|
                0 <= i < git.changed_paths@.len() && texts(git.changed_paths@)[i] == t;
            assert(raw[i] == t);
        }
        if !range && texts(tree.changed_paths@).contains(t) {
            let i = choose|i: int|
                0 <= i < tree.changed_paths@.len() && texts(tree.changed_paths@)[i] == t;
            assert(raw[git.changed_paths@.len() + i] == t);
        }
        if raw.contains(t) {
            let i = choose|i: int| 0 <= i < raw.len() && raw[i] == t;
            if i < git.changed_paths@.len() {
                assert(texts(git.changed_paths@)[i] == t);
            } else {
                assert(texts(tree.changed_paths@)[i - git.changed_paths@.len()] == t);
            }
        }
    }
    assert(more.contains(t) <==> raw.contains(t));
    if !strict {
        assert(lists(scope.changed_paths@, t) <==> joined.paths.contains(t));
        assert(joined.paths.contains(t) ==> named.contains(t) || more.contains(t));
    }
    if !joined.full && more.contains(t) {
        let k = choose|k: int| 0 <= k < more.len() && more[k] == t;
        assert(joined.paths.contains(more[k]));
    }
    if request.changed_paths@.len() + git.changed_paths@.len() + tree.changed_paths@.len() <= 512 {
        joining_few_is_never_full(named, more, more.len() as int);
    }
}

proof fn joining_few_is_never_full(start: Seq<Seq<char>>, more: Seq<Seq<char>>, upto: int)
    requires
        0 <= upto <= more.len(),
        start.len() + more.len() <= 512,
    ensures
        !joined_paths(start, more, upto).full,
        joined_paths(start, more, upto).paths.len() <= start.len() + upto,
    decreases upto,
{
    if upto > 0 {
        joining_few_is_never_full(start, more, upto - 1);
    }
}

/// A request that keeps strictly to changed paths and names none is refused where git
/// did not tell all of them, so that its scope is complete.
pub proof fn a_scope_that_was_looked_up_is_complete(
    request: ContextRequest,
    revision: Option<ContextRevision>,
    git: GitDiffResult,
    tree: GitWorkingTreeStatus,
    tree_complete: Result<(), Error>,
    scope: DiffScopeReceipt,
)
    requires
        request.changed_paths@.len() == 0,
        request.strict_changed_paths,
        scope_fault(request, revision, Some(git), tree, tree_complete) is None,
        scoped(request, revision, Some(git), tree, scope),
    ensures
        scope.changed_paths_complete,
        git.changed_paths_complete,
        revision is None || revision->0 is Single ==> tree_complete is Ok,
{
}

/// What is told of a working tree: nothing where git cannot be asked, clean exactly
/// where no path changed, and modified, or only untracked, as git says.
pub proof fn a_working_tree_is_told_as_it_is(status: GitWorkingTreeStatus)
    ensures
        observed(status).handed() is Unknown <==> !status.available,
        observed(status).handed() is Clean <==> status.available && status.changed_paths@.len()
            == 0,
        observed(status).handed() is Dirty <==> status.available && status.changed_paths@.len() > 0,
        observed(status).proven() is Unknown <==> !status.available,
        observed(status).proven() is Modified <==> status.available && status.changed_paths@.len()
            > 0 && status.modified,
        observed(status).proven() is Untracked <==> status.available && status.changed_paths@.len()
            > 0 && status.untracked && !status.modified,
        observed(status).proven() is Clean <==> status.available && (status.changed_paths@.len()
            == 0 || !status.modified && !status.untracked),
{
}

/// The options of a request contradict each other where focus constraints lack a focus
/// path, where a plan names a receipt, or where a plan is handed over; then, and only
/// then, are they refused. One contradiction is named by its field, several are listed.
pub proof fn contradictory_options_are_refused(request: ContextRequest, handoff: bool)
    ensures
        ({
            let focus = (request.strict_focus_paths || request.minimum_fragments_per_focus_path
                is Some) && request.focus_paths@.len() == 0;
            let receipt = request.plan_only && request.receipt_id is Some;
            let handed = request.plan_only && handoff;
            let found = option_violations(request, handoff);
            &&& options_fault(request, handoff) is None <==> !focus && !receipt && !handed
            &&& found.len() == (if focus { 1int } else { 0 }) + (if receipt { 1int } else { 0 }) + (
            if handed { 1int } else { 0 })
            &&& focus && !receipt && !handed ==> (options_fault(request, handoff) matches Some(
                Fault::InvalidInput { field, .. },
            ) && field == "focus paths"@)
            &&& !focus && receipt && !handed ==> (options_fault(request, handoff) matches Some(
                Fault::InvalidInput { field, .. },
            ) && field == "receipt_id"@)
            &&& !focus && !receipt && handed ==> (options_fault(request, handoff) matches Some(
                Fault::InvalidInput { field, .. },
            ) && field == "plan_only"@)
            &&& focus && receipt && handed ==> (options_fault(request, handoff) matches Some(
                Fault::InvalidInputConstraints { violations },
            ) && violations.len() == 3 && violations[0].field == "focus paths"@
                && violations[1].field == "receipt_id"@ && violations[2].field == "plan_only"@)
        }),
{
}

/// A request for a plan delivers a plan; any other delivers fragments, with the receipt
/// that it names and a handoff exactly where one is asked for. The focus constraints
/// are those of the request.
pub proof fn a_policy_delivers_what_is_asked(
    request: ContextRequest,
    handoff: Option<HandoffManifestRequest>,
    policy: ContextPolicy,
)
    requires
        policy_of(request, handoff, policy),
    ensures
        policy.delivery is Plan <==> request.plan_only,
        policy.focus.strict == request.strict_focus_paths,
        policy.focus.minimum == request.minimum_fragments_per_focus_path,
        request.plan_only ==> policy.receipt() is None && policy.handed() is None,
        !request.plan_only ==> (policy.receipt() is Some <==> request.receipt_id is Some) && (
        policy.handed() is Some <==> handoff is Some),
        !request.plan_only && request.receipt_id is Some ==> policy.receipt() == Some(
            (request.receipt_id->0)@,
        ),
{
}

} // verus!
