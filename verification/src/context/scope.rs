//! The changed paths that a request is about.

use crate::context::scope_helpers::{parse_revision_range, range_fault};
use crate::error::{first_fault, reports, Error, Fault};
use crate::model::{ContextRequest, DiffScopeReceipt, GitDiffResult, GitWorkingTreeStatus};
use crate::ordered::{sort_unique_texts, sorted_unique};
use crate::services::Services;
use crate::text::{copy_texts, list_has, optional_text, split_first, texts};
use crate::validation::{blank, is_blank, verdict_fault};
use vstd::prelude::*;

verus! {

/// The most changed paths of a scope.
pub const MAX_DIFF_CHANGED_PATHS: usize = 512;

/// The revisions that a request names.
#[derive(Debug)]
pub enum ContextRevision {
    Single(String),
    Range { base: String, head: String },
}

/// Whether a request names two revisions.
pub open spec fn is_range(revision: Option<ContextRevision>) -> bool {
    revision is Some && revision->0 is Range
}

impl ContextRevision {
    /// Whether two revisions are named.
    pub fn is_range(&self) -> (r: bool)
        ensures
            r == (self is Range),
    {
        match self {
            ContextRevision::Single(_) => false,
            ContextRevision::Range { .. } => true,
        }
    }
}

/// The fault of a revision text, where there is one.
pub open spec fn revision_fault(revision: Option<Seq<char>>) -> Option<Fault> {
    match revision {
        Some(text) => if is_blank(text) {
            None
        } else {
            range_fault(text)
        },
        None => None,
    }
}

/// Whether `out` is what a revision text names.
pub open spec fn names_revision(revision: Option<Seq<char>>, out: Option<ContextRevision>) -> bool {
    match revision {
        Some(text) => if is_blank(text) {
            out is None
        } else {
            match split_first(text, ".."@) {
                Some(ends) => out matches Some(ContextRevision::Range { base, head }) && base@
                    == ends.0 && head@ == ends.1,
                None => out matches Some(ContextRevision::Single(single)) && single@ == text,
            }
        },
        None => out is None,
    }
}

/// The revisions that a request names: none where the text is blank.
pub fn parse_context_revision(revision: &Option<String>) -> (r: Result<
    Option<ContextRevision>,
    Error,
>)
    ensures
        reports(r, revision_fault(optional_text(*revision))),
        r matches Ok(out) ==> names_revision(optional_text(*revision), out),
{
    match revision {
        None => Ok(None),
        Some(text) => {
            if blank(text.as_str()) {
                return Ok(None);
            }
            match parse_revision_range(text.as_str()) {
                Ok(Some((base, head))) => Ok(Some(ContextRevision::Range { base, head })),
                Ok(None) => Ok(Some(ContextRevision::Single(text.clone()))),
                Err(e) => Err(e),
            }
        },
    }
}

/// What the version control is asked for.
#[derive(Debug)]
pub enum DiffQuery {
    Nothing,
    Identity { base: String, head: Option<String> },
    PathsBetween { base: String, head: String, limit: usize },
    PathsSince { base: String, limit: usize },
}

/// Whether the paths that a request names are all that it is about.
pub open spec fn hard_scope(request: ContextRequest) -> bool {
    request.changed_paths@.len() > 0 && request.strict_changed_paths
}

/// Whether a request is only about changed paths, and names none.
pub open spec fn automatic_scope(request: ContextRequest) -> bool {
    request.changed_paths@.len() == 0 && request.strict_changed_paths
}

/// Whether `query` is what a request needs to know of its revisions: the paths
/// between them, or only their identity where the request names its paths.
pub open spec fn asks_for(
    request: ContextRequest,
    revision: Option<ContextRevision>,
    query: DiffQuery,
) -> bool {
    match revision {
        None => query is Nothing,
        Some(ContextRevision::Range { base, head }) => if hard_scope(request) {
            query matches DiffQuery::Identity { base: b, head: h } && b == base && h == Some(head)
        } else {
            query == (DiffQuery::PathsBetween { base, head, limit: MAX_DIFF_CHANGED_PATHS })
        },
        Some(ContextRevision::Single(single)) => if hard_scope(request) {
            query matches DiffQuery::Identity { base: b, head: h } && b == single && h is None
        } else {
            query == (DiffQuery::PathsSince { base: single, limit: MAX_DIFF_CHANGED_PATHS })
        },
    }
}

/// The fault of paths that were not all found.
pub open spec fn path_limit_fault(limit: Option<usize>) -> Fault {
    let bound = match limit {
        Some(limit) => limit,
        None => MAX_DIFF_CHANGED_PATHS,
    };
    Fault::RequestLimitExceeded {
        field: "git changed paths"@,
        requested: if bound == usize::MAX {
            bound
        } else {
            (bound + 1) as usize
        },
        limit: bound,
    }
}

/// The error of paths that were not all found.
pub fn changed_path_limit_error(limit: Option<usize>) -> (r: Error)
    ensures
        r@ == path_limit_fault(limit),
{
    let limit: usize = match limit {
        Some(limit) => limit,
        None => MAX_DIFF_CHANGED_PATHS,
    };
    Error::RequestLimitExceeded {
        field: "git changed paths",
        requested: limit.saturating_add(1),
        limit,
    }
}

/// Paths that are being joined, and whether one found no room.
pub struct JoinedPaths {
    pub paths: Seq<Seq<char>>,
    pub full: bool,
}

/// Paths with the first `upto` of some more, until one finds no room.
pub open spec fn joined_paths(start: Seq<Seq<char>>, more: Seq<Seq<char>>, upto: int) -> JoinedPaths
    decreases upto,
{
    if upto <= 0 || upto > more.len() {
        JoinedPaths { paths: start, full: false }
    } else {
        let before = joined_paths(start, more, upto - 1);
        if before.full || before.paths.contains(more[upto - 1]) {
            before
        } else if before.paths.len() == MAX_DIFF_CHANGED_PATHS {
            JoinedPaths { paths: before.paths, full: true }
        } else {
            JoinedPaths { paths: before.paths.push(more[upto - 1]), full: false }
        }
    }
}

/// The changed paths that are found beside those that a request names.
pub open spec fn found_paths(
    revision: Option<ContextRevision>,
    git: GitDiffResult,
    tree: GitWorkingTreeStatus,
) -> Seq<Seq<char>> {
    sorted_unique(
        texts(git.changed_paths@) + if is_range(revision) {
            Seq::empty()
        } else {
            texts(tree.changed_paths@)
        },
    )
}

/// Whether the working tree counts and was not all seen.
pub open spec fn tree_cut(
    request: ContextRequest,
    revision: Option<ContextRevision>,
    tree: GitWorkingTreeStatus,
) -> bool {
    !hard_scope(request) && !is_range(revision) && !tree.changed_paths_complete
}

/// The paths of a scope, and whether one found no room.
pub open spec fn scope_paths(
    request: ContextRequest,
    revision: Option<ContextRevision>,
    git: GitDiffResult,
    tree: GitWorkingTreeStatus,
) -> JoinedPaths {
    let named = texts(request.changed_paths@);
    if hard_scope(request) {
        JoinedPaths { paths: named, full: false }
    } else {
        let more = found_paths(revision, git, tree);
        joined_paths(named, more, more.len() as int)
    }
}

/// Whether all paths of a scope were found.
pub open spec fn scope_complete(
    request: ContextRequest,
    revision: Option<ContextRevision>,
    git: GitDiffResult,
    tree: GitWorkingTreeStatus,
) -> bool {
    git.changed_paths_complete && !tree_cut(request, revision, tree) && !scope_paths(
        request,
        revision,
        git,
        tree,
    ).full
}

/// The bound that cut a scope off.
pub open spec fn scope_limit(
    request: ContextRequest,
    revision: Option<ContextRevision>,
    git: GitDiffResult,
    tree: GitWorkingTreeStatus,
) -> Option<usize> {
    if scope_paths(request, revision, git, tree).full {
        Some(MAX_DIFF_CHANGED_PATHS)
    } else if tree_cut(request, revision, tree) && git.changed_paths_limit is None {
        tree.changed_paths_limit
    } else {
        git.changed_paths_limit
    }
}

/// The fault of a scope.
pub open spec fn scope_fault(
    request: ContextRequest,
    revision: Option<ContextRevision>,
    git: Option<GitDiffResult>,
    tree: GitWorkingTreeStatus,
    tree_complete: Result<(), Error>,
) -> Option<Fault> {
    first_fault(
        if automatic_scope(request) && !is_range(revision) {
            verdict_fault(tree_complete)
        } else {
            None
        },
        match git {
            Some(result) => if !automatic_scope(request) {
                None
            } else if !result.changed_paths_complete {
                Some(path_limit_fault(result.changed_paths_limit))
            } else if !scope_complete(request, revision, result, tree) {
                Some(path_limit_fault(scope_limit(request, revision, result, tree)))
            } else {
                None
            },
            None => None,
        },
    )
}

/// Whether `scope` is what a request is about.
pub open spec fn scoped(
    request: ContextRequest,
    revision: Option<ContextRevision>,
    git: Option<GitDiffResult>,
    tree: GitWorkingTreeStatus,
    scope: DiffScopeReceipt,
) -> bool {
    &&& scope.indexed_changed_paths == 0
    &&& scope.evidence is None
    &&& match git {
        Some(result) => {
            let complete = scope_complete(request, revision, result, tree);
            &&& scope.base_revision == Some(result.base_revision)
            &&& scope.head_revision == Some(result.head_revision)
            &&& texts(scope.changed_paths@) == sorted_unique(
                scope_paths(request, revision, result, tree).paths,
            )
            &&& scope.changed_paths_complete == complete
            &&& scope.changed_paths_limit == if complete {
                None
            } else {
                scope_limit(request, revision, result, tree)
            }
        },
        None => {
            &&& scope.base_revision is None
            &&& scope.head_revision is None
            &&& if request.changed_paths@.len() > 0 {
                &&& texts(scope.changed_paths@) == sorted_unique(texts(request.changed_paths@))
                &&& scope.changed_paths_complete
                &&& scope.changed_paths_limit is None
            } else {
                &&& texts(scope.changed_paths@) == sorted_unique(texts(tree.changed_paths@))
                &&& scope.changed_paths_complete == tree.changed_paths_complete
                &&& scope.changed_paths_limit == tree.changed_paths_limit
            }
        },
    }
}

/// Whether a request has a scope of changed paths at all.
pub open spec fn has_scope(request: ContextRequest, revision: Option<ContextRevision>) -> bool {
    revision is Some || request.changed_paths@.len() > 0 || request.strict_changed_paths
}

fn join_paths(start: &Vec<String>, more: &Vec<String>) -> (r: (Vec<String>, bool))
    ensures
        (JoinedPaths { paths: texts(r.0@), full: r.1 }) == joined_paths(
            texts(start@),
            texts(more@),
            more@.len() as int,
        ),
{
    let ghost named = texts(start@);
    let ghost all = texts(more@);
    let mut out = copy_texts(start);
    let mut full = false;
    let mut i: usize = 0;
    while i < more.len()
        invariant
            i <= more.len(),
            named == texts(start@),
            all == texts(more@),
            (JoinedPaths { paths: texts(out@), full }) == joined_paths(named, all, i as int),
        decreases more.len() - i,
    {
        let ghost before = texts(out@);
        assert(before.len() == out@.len());
        assert(all[i as int] == more@[i as int]@);
        if !full && !list_has(&out, more[i].as_str()) {
            if out.len() == MAX_DIFF_CHANGED_PATHS {
                full = true;
            } else {
                out.push(more[i].clone());
                assert(texts(out@) =~= before.push(more@[i as int]@));
            }
        }
        i += 1;
    }
    (out, full)
}

impl Services {
    /// What a request needs to know of its revisions.
    pub fn diff_query(request: &ContextRequest, revision: &Option<ContextRevision>) -> (r:
        DiffQuery)
        ensures
            asks_for(*request, *revision, r),
    {
        let hard = request.changed_paths.len() > 0 && request.strict_changed_paths;
        match revision {
            None => DiffQuery::Nothing,
            Some(ContextRevision::Range { base, head }) => if hard {
                DiffQuery::Identity { base: base.clone(), head: Some(head.clone()) }
            } else {
                DiffQuery::PathsBetween {
                    base: base.clone(),
                    head: head.clone(),
                    limit: MAX_DIFF_CHANGED_PATHS,
                }
            },
            Some(ContextRevision::Single(single)) => if hard {
                DiffQuery::Identity { base: single.clone(), head: None }
            } else {
                DiffQuery::PathsSince { base: single.clone(), limit: MAX_DIFF_CHANGED_PATHS }
            },
        }
    }

    /// The changed paths that a request is about. `git` is what the version
    /// control says of the request's revisions, and `tree_complete` whether the
    /// working tree was seen completely.
    #[verifier::rlimit(40)]
    pub fn resolve_diff_scope(
        request: &ContextRequest,
        revision: &Option<ContextRevision>,
        git: Option<GitDiffResult>,
        tree: &GitWorkingTreeStatus,
        tree_complete: Result<(), Error>,
    ) -> (r: Result<Option<DiffScopeReceipt>, Error>)
        requires
            git is Some <==> *revision is Some,
        ensures
            reports(r, scope_fault(*request, *revision, git, *tree, tree_complete)),
            r matches Ok(out) ==> (out is Some <==> has_scope(*request, *revision)),
            r matches Ok(Some(scope)) ==> scoped(*request, *revision, git, *tree, scope),
    {
        let has_paths = request.changed_paths.len() > 0;
        let hard = has_paths && request.strict_changed_paths;
        let automatic = request.strict_changed_paths && !has_paths;
        let range = match revision {
            Some(named) => named.is_range(),
            None => false,
        };
        if automatic && !range {
            match tree_complete {
                Ok(_) => {},
                Err(e) => {
                    return Err(e);
                },
            }
        }
        if revision.is_none() && !has_paths && !request.strict_changed_paths {
            return Ok(None);
        }
        if let Some(result) = git {
            if automatic && !result.changed_paths_complete {
                return Err(changed_path_limit_error(result.changed_paths_limit));
            }
            let mut complete = result.changed_paths_complete;
            let mut limit = result.changed_paths_limit;
            let changed_paths = if hard {
                copy_texts(&request.changed_paths)
            } else {
                let mut found = copy_texts(&result.changed_paths);
                let ghost first = texts(found@);
                if !range {
                    let mut more = copy_texts(&tree.changed_paths);
                    let ghost second = texts(more@);
                    found.append(&mut more);
                    assert(texts(found@) =~= first + second);
                    if !tree.changed_paths_complete {
                        complete = false;
                        if limit.is_none() {
                            limit = tree.changed_paths_limit;
                        }
                    }
                } else {
                    assert(texts(found@) =~= first + Seq::<Seq<char>>::empty());
                }
                let found = sort_unique_texts(found);
                assert(texts(found@) == found_paths(*revision, result, *tree));
                assert(texts(found@).len() == found@.len());
                let (joined, full) = join_paths(&request.changed_paths, &found);
                if full {
                    complete = false;
                    limit = Some(MAX_DIFF_CHANGED_PATHS);
                }
                joined
            };
            let changed_paths = sort_unique_texts(changed_paths);
            if automatic && !complete {
                return Err(changed_path_limit_error(limit));
            }
            return Ok(
                Some(
                    DiffScopeReceipt {
                        base_revision: Some(result.base_revision),
                        head_revision: Some(result.head_revision),
                        changed_paths,
                        changed_paths_complete: complete,
                        changed_paths_limit: if complete {
                            None
                        } else {
                            limit
                        },
                        indexed_changed_paths: 0,
                        evidence: None,
                    },
                ),
            );
        }
        let (paths, complete, limit) = if has_paths {
            (copy_texts(&request.changed_paths), true, None)
        } else {
            (
                copy_texts(&tree.changed_paths),
                tree.changed_paths_complete,
                tree.changed_paths_limit,
            )
        };
        Ok(
            Some(
                DiffScopeReceipt {
                    base_revision: None,
                    head_revision: None,
                    changed_paths: sort_unique_texts(paths),
                    changed_paths_complete: complete,
                    changed_paths_limit: limit,
                    indexed_changed_paths: 0,
                    evidence: None,
                },
            ),
        )
    }
}

} // verus!
