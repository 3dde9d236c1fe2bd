//! How a request is understood.

use crate::context::candidates::ranked::{lexical_route, searched_text, FoldedTerm};
use crate::context::execution::{prepares, ParsedContextRequest, PreparedContext};
use crate::context::facets::QueryView;
use crate::context::scope::{
    asks_for, has_scope, names_revision, path_limit_fault, scope_fault, ContextRevision, DiffQuery,
};
use crate::context::scope_helpers::range_fault;
use crate::context::validation::{
    base_revision_fault, fields_fault, patterns_fault, searched_values, symbols_fault,
    ContextVerdicts,
};
use crate::error::{Error, Fault};
use crate::files::FilesInput;
use crate::files_page::{live_cursor, rows_read, tree_depth};
use crate::laws::requests::the_first_bad_item_is_told;
use crate::model::{ContextRequest, GitDiffResult, GitWorkingTreeStatus};
use crate::text::{byte_len, first_at_bounds, occurs, split_first, stands_at};
use crate::validation::{is_blank, InputLimits};
use vstd::prelude::*;

verus! {

/// A text that is split is its two parts with the separator between them, and the part
/// before does not hold the separator at any place.
pub proof fn a_split_text_is_its_parts(s: Seq<char>, sep: Seq<char>)
    ensures
        split_first(s, sep) matches Some(parts) ==> s == parts.0 + sep + parts.1,
        split_first(s, sep) is None ==> !occurs(s, sep),
{
    first_at_bounds(s, sep, 0);
    if let Some(parts) = split_first(s, sep) {
        let at = crate::text::first_at(s, sep, 0)->0;
        assert(s.subrange(at, at + sep.len()) == sep);
        assert(s =~= s.take(at) + s.subrange(at, at + sep.len()) + s.subrange(
            at + sep.len(),
            s.len() as int,
        ));
    } else if occurs(s, sep) {
        let at = choose|at: int| stands_at(s, sep, at);
        what_stands_is_found(s, sep, 0, at);
    }
}

proof fn what_stands_is_found(s: Seq<char>, sep: Seq<char>, from: int, at: int)
    requires
        0 <= from <= at,
        stands_at(s, sep, at),
    ensures
        crate::text::first_at(s, sep, from) is Some,
    decreases at - from,
{
    if from < at && !stands_at(s, sep, from) {
        what_stands_is_found(s, sep, from + 1, at);
    }
}

/// A revision with two dots names both of its ends, and one without names itself; a blank
/// one names nothing.
pub proof fn a_revision_names_its_ends(revision: Seq<char>, out: Option<ContextRevision>)
    requires
        names_revision(Some(revision), out),
    ensures
        is_blank(revision) <==> out is None,
        out matches Some(ContextRevision::Range { base, head }) ==> revision == base@ + ".."@
            + head@,
        out matches Some(ContextRevision::Single(single)) ==> single@ == revision && !occurs(
            revision,
            ".."@,
        ),
{
    a_split_text_is_its_parts(revision, ".."@);
}

/// A range is refused where an end of it is blank, and accepted only where it has two
/// ends; a revision that is no range is never refused for its form.
pub proof fn a_range_has_two_ends(revision: Seq<char>)
    ensures
        !occurs(revision, ".."@) ==> range_fault(revision) is None,
        range_fault(revision) is None && occurs(revision, ".."@) ==> (split_first(
            revision,
            ".."@,
        ) matches Some(parts) && !is_blank(parts.0) && !is_blank(parts.1) && revision == parts.0
            + ".."@ + parts.1 && !occurs(parts.1, ".."@)),
        base_revision_fault(None) is None,
        base_revision_fault(Some(revision)) is None && !is_blank(revision) ==> byte_len(revision)
            <= 256 && range_fault(revision) is None,
        is_blank(revision) ==> base_revision_fault(Some(revision)) is None,
{
    a_split_text_is_its_parts(revision, ".."@);
    first_at_bounds(revision, ".."@, 0);
    if let Some(parts) = split_first(revision, ".."@) {
        let at = crate::text::first_at(revision, ".."@, 0)->0;
        assert(stands_at(revision, ".."@, at));
        assert(occurs(revision, ".."@));
    }
}

/// What git is asked follows from the revision: nothing without one; for a range what
/// changed between its ends, else what changed since; and only the identities of the
/// ends where the request is about the paths that it names.
pub proof fn git_is_asked_what_the_revision_says(
    request: ContextRequest,
    revision: Option<ContextRevision>,
    query: DiffQuery,
)
    requires
        asks_for(request, revision, query),
    ensures
        query is Nothing <==> revision is None,
        query is Identity <==> revision is Some && request.changed_paths@.len() > 0
            && request.strict_changed_paths,
        query is PathsBetween ==> (revision matches Some(r) && r is Range),
        query is PathsSince ==> (revision matches Some(r) && r is Single),
        query matches DiffQuery::PathsBetween { limit, .. } ==> limit == 512,
        query matches DiffQuery::PathsSince { limit, .. } ==> limit == 512,
        revision matches Some(ContextRevision::Range { base, head }) ==> match query {
            DiffQuery::Identity { base: b, head: h } => b == base && h == Some(head),
            DiffQuery::PathsBetween { base: b, head: h, .. } => b == base && h == head,
            _ => false,
        },
        revision matches Some(ContextRevision::Single(single)) ==> match query {
            DiffQuery::Identity { base: b, head: h } => b == single && h is None,
            DiffQuery::PathsSince { base: b, .. } => b == single,
            _ => false,
        },
{
}

/// A request has a scope exactly where it names a revision or changed paths, or is about
/// changed paths only.
pub proof fn a_scope_is_asked_for(request: ContextRequest, revision: Option<ContextRevision>)
    ensures
        !has_scope(request, revision) <==> revision is None && request.changed_paths@.len() == 0
            && !request.strict_changed_paths,
{
}

/// Only a request that keeps to changed paths and names none is refused where not all of
/// them were found, and it is refused then.
pub proof fn only_a_scope_that_has_to_be_found_is_refused(
    request: ContextRequest,
    revision: Option<ContextRevision>,
    git: Option<GitDiffResult>,
    tree: GitWorkingTreeStatus,
    tree_complete: Result<(), Error>,
)
    ensures
        request.changed_paths@.len() > 0 || !request.strict_changed_paths ==> scope_fault(
            request,
            revision,
            git,
            tree,
            tree_complete,
        ) is None,
        request.changed_paths@.len() == 0 && request.strict_changed_paths && revision is None
            && tree_complete is Err ==> scope_fault(request, revision, git, tree, tree_complete)
            == Some((tree_complete->Err_0)@),
        request.changed_paths@.len() == 0 && request.strict_changed_paths && tree_complete is Ok
            && git is Some && !(git->0).changed_paths_complete ==> scope_fault(
            request,
            revision,
            git,
            tree,
            tree_complete,
        ) is Some,
        git is None && tree_complete is Ok ==> scope_fault(
            request,
            revision,
            git,
            tree,
            tree_complete,
        ) is None,
{
}

/// Changed paths that were not all found are refused with the bound that was met and one
/// more than it; without a bound it is five hundred and twelve.
pub proof fn a_refused_scope_names_its_bound(limit: usize)
    requires
        limit < usize::MAX,
    ensures
        path_limit_fault(Some(limit)) matches Fault::RequestLimitExceeded {
            requested,
            limit: bound,
            ..
        } && bound == limit && requested == limit + 1,
        path_limit_fault(None) matches Fault::RequestLimitExceeded { requested, limit: bound, .. }
            && bound == 512 && requested == 513,
{
}

/// A prepared request keeps what was asked; evidence is taken from a fixed range exactly
/// where one is named; and what is searched changed in the working tree or in the scope.
pub proof fn a_prepared_request_keeps_what_was_asked(
    parsed: ParsedContextRequest,
    git: Option<GitDiffResult>,
    tree: GitWorkingTreeStatus,
    prepared: PreparedContext,
)
    requires
        prepares(parsed, git, tree, prepared),
    ensures
        prepared.request == parsed.request,
        prepared.policy == parsed.policy,
        prepared.response_profile == parsed.response_profile,
        prepared.scoped_request.task == parsed.request.task,
        prepared.scoped_request.token_budget == parsed.request.token_budget,
        prepared.scoped_request.focus_paths@ == parsed.request.focus_paths@,
        prepared.scoped_request.exclude_paths@ == parsed.request.exclude_paths@,
        prepared.scoped_request.include_paths@ == parsed.request.include_paths@,
        prepared.scoped_request.must_include_paths@ == parsed.request.must_include_paths@,
        prepared.scoped_request.must_include_symbols@ == parsed.request.must_include_symbols@,
        prepared.scoped_request.focus_symbols@ == parsed.request.focus_symbols@,
        prepared.scoped_request.known_hashes@ == parsed.request.known_hashes@,
        prepared.scoped_request.receipt_id == parsed.request.receipt_id,
        prepared.scoped_request.max_fragments == parsed.request.max_fragments,
        prepared.scoped_request.minimum_fragments_per_focus_path
            == parsed.request.minimum_fragments_per_focus_path,
        prepared.scoped_request.strict_focus_paths == parsed.request.strict_focus_paths,
        prepared.scoped_request.strict_changed_paths == parsed.request.strict_changed_paths,
        prepared.scoped_request.plan_only == parsed.request.plan_only,
        prepared.scoped_request.explain_diagnostics == parsed.request.explain_diagnostics,
        prepared.scoped_request.base_revision == parsed.request.base_revision,
        prepared.scoped_request.prior_repository_generation
            == parsed.request.prior_repository_generation,
        prepared.scoped_request.required_evidence@.len()
            == parsed.request.required_evidence@.len(),
        forall|i: int|
            0 <= i < parsed.request.required_evidence@.len() ==> {
                let asked = parsed.request.required_evidence@[i];
                let kept = #[trigger] prepared.scoped_request.required_evidence@[i];
                &&& kept.path == asked.path
                &&& kept.queries@ == asked.queries@
                &&& kept.minimum_query_matches == asked.minimum_query_matches
            },
        prepared.diff_evidence_mode is ImmutableRange <==> (parsed.revision matches Some(r)
            && r is Range),
        prepared.diff_scope is None <==> parsed.revision is None
            && parsed.request.changed_paths@.len() == 0 && !parsed.request.strict_changed_paths,
        prepared.diff_scope is None ==> prepared.scoped_request.changed_paths@
            == parsed.request.changed_paths@ && prepared.changed_paths@ == tree.changed_paths@,
        prepared.diff_scope matches Some(scope) ==> prepared.scoped_request.changed_paths@
            == scope.changed_paths@ && prepared.changed_paths@.len() == tree.changed_paths@.len()
            + scope.changed_paths@.len(),
        tree.changed_paths@.is_prefix_of(prepared.changed_paths@),
        prepared.working_tree_paths@ == tree.changed_paths@,
{
}

/// What is looked for is every query that is not about tests, in order.
pub proof fn tests_are_not_looked_for(queries: Seq<QueryView>, upto: int, i: int)
    requires
        0 <= i < upto <= queries.len(),
    ensures
        !queries[i].facets.test_intent ==> searched_values(queries, upto).contains(
            queries[i].value,
        ),
        searched_values(queries, upto).len() <= upto,
        upto == 1 && queries[i].facets.test_intent ==> searched_values(queries, upto).len() == 0,
    decreases upto,
{
    let out = searched_values(queries, upto);
    let before = searched_values(queries, upto - 1);
    if i < upto - 1 {
        tests_are_not_looked_for(queries, upto - 1, i);
        if !queries[i].facets.test_intent {
            let k = choose|k: int| 0 <= k < before.len() && before[k] == queries[i].value;
            assert(out[k] == queries[i].value);
        }
    } else {
        if upto > 1 {
            tests_are_not_looked_for(queries, upto - 1, 0);
        }
        if !queries[i].facets.test_intent {
            assert(out[before.len() as int] == queries[i].value);
        }
    }
}

/// Patterns are refused where one of them is blank or where they do not compile, and
/// symbols where they are too many or one is blank or too long.
pub proof fn patterns_and_symbols_say_something(
    list: Seq<Seq<char>>,
    item: Seq<char>,
    field: Seq<char>,
    verdict: Result<(), Error>,
    limits: InputLimits,
    i: int,
)
    requires
        0 <= i < list.len(),
    ensures
        patterns_fault(list, field, verdict) is None ==> !is_blank(list[i]) && verdict is Ok,
        symbols_fault(list, item, field, limits) is None ==> !is_blank(list[i]) && byte_len(
            list[i],
        ) <= limits.max_pattern_bytes && list.len() <= limits.max_input_items,
{
    if symbols_fault(list, item, field, limits) is None {
        let check = crate::context::validation::symbol_check(
            item,
            field,
            limits.max_pattern_bytes,
        );
        the_first_bad_item_is_told(list, check, 0);
        assert(check(list[i]) is None);
    }
}

/// A request whose fields are accepted says what it is about, within its bytes.
pub proof fn an_accepted_request_has_a_task(
    request: ContextRequest,
    with_handoff: bool,
    verdicts: ContextVerdicts,
    limits: InputLimits,
)
    requires
        fields_fault(request, with_handoff, verdicts, limits) is None,
    ensures
        !is_blank(request.task@),
        byte_len(request.task@) <= limits.max_query_bytes,
        request.focus_paths@.len() <= 32,
        request.changed_paths@.len() <= 512,
        request.known_hashes@.len() <= limits.max_input_items,
        request.required_evidence@.len() <= 32,
        verdicts.token_budget is Ok,
{
    assert(crate::text::texts(request.changed_paths@).len() == request.changed_paths@.len());
    assert(crate::text::texts(request.known_hashes@).len() == request.known_hashes@.len());
}

/// Short terms are searched as words and longer ones by their trigrams; both are folded
/// exactly where folding adds something, and a term that cannot be folded is scanned for.
pub proof fn terms_are_searched_by_their_length(
    term: Seq<char>,
    quoted: Seq<char>,
    folded: FoldedTerm,
)
    ensures
        lexical_route(term, None) is FullScan,
        lexical_route(term, Some(false)) is Word <==> term.len() < 3,
        lexical_route(term, Some(false)) is Trigram <==> term.len() >= 3,
        lexical_route(term, Some(true)) is FoldedWord <==> term.len() < 3,
        lexical_route(term, Some(true)) is FoldedTrigram <==> term.len() >= 3,
        searched_text(term, quoted, None) == term,
        folded.expanded ==> searched_text(term, quoted, Some(folded)) == folded.expression@,
        !folded.expanded && term.len() >= 3 ==> searched_text(term, quoted, Some(folded)) == term,
        !folded.expanded && term.len() < 3 ==> searched_text(term, quoted, Some(folded))
            == quoted,
{
}

/// A tree is listed to the depth that is asked for, else to any; one row more is read
/// than is shown; and a cursor of another generation does not go on.
pub proof fn files_are_read_as_asked(
    depth: Option<usize>,
    limit: usize,
    input: FilesInput,
    generation: u64,
)
    ensures
        depth matches Some(d) ==> tree_depth(depth) == d,
        depth is None ==> tree_depth(depth) == usize::MAX,
        limit < usize::MAX ==> rows_read(limit) == limit + 1,
        live_cursor(input, generation) is Some <==> input.cursor is Some && (
        input.cursor->0).0 == generation,
        live_cursor(input, generation) is Some ==> live_cursor(input, generation)->0 == (
        input.cursor->0).1@,
{
}

} // verus!
