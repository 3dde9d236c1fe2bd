//! How a large change is split into groups of paths, and what a task asks for.

use crate::context::scope_helpers::{
    by_group_size, excerpt_tokens, groups_of, in_group, largest_group, oversized, path_group,
    path_parts, ranked_groups, resolved_workflow, routes, sized_groups, weakly_concentrated,
    ContextExcerptKind,
};
use crate::lists::{tally, tally_bounds};
use crate::model::{
    ContextRequest, ContextRoutingReceipt, ContextWorkflow, DiffScopeReceipt, GroupView,
};
use crate::ordered::{
    first_of, sorted_by, sorted_unique, sorted_unique_is_a_set, text_lt, texts_are_in_line,
    the_first_of_a_sorted_list, views, weak_order,
};
use crate::text::{occurs, lowered, texts};
use vstd::prelude::*;

verus! {

proof fn group_sizes_order()
    ensures
        weak_order(by_group_size()),
{
    let before = by_group_size();
    assert forall|a: GroupView, b: GroupView| #[trigger] before(a, b) implies !before(b, a) by {
        texts_are_in_line(a.prefix, b.prefix, a.prefix);
    }
    assert forall|a: GroupView, b: GroupView, c: GroupView|
        !(#[trigger] before(a, b)) && !(#[trigger] before(b, c)) implies !before(a, c) by {
        texts_are_in_line(a.prefix, b.prefix, c.prefix);
        texts_are_in_line(b.prefix, c.prefix, a.prefix);
    }
}

spec fn by_size(groups: Seq<GroupView>, out: Seq<GroupView>, limit: int) -> bool {
    let before = by_group_size();
    &&& out.len() == if groups.len() > limit {
        limit
    } else {
        groups.len() as int
    }
    &&& forall|i: int, j: int|
        0 <= i < j < out.len() ==> !before(#[trigger] out[j], #[trigger] out[i])
    &&& forall|i: int| 0 <= i < out.len() ==> groups.contains(#[trigger] out[i])
    &&& forall|k: int, i: int|
        0 <= k < groups.len() && 0 <= i < out.len() && !out.contains(#[trigger] groups[k])
            ==> !before(groups[k], #[trigger] out[i])
}

proof fn groups_by_size(groups: Seq<GroupView>, limit: int)
    requires
        limit >= 0,
    ensures
        by_size(groups, first_of(sorted_by(groups, by_group_size()), limit), limit),
{
    let before = by_group_size();
    let out = first_of(sorted_by(groups, before), limit);
    group_sizes_order();
    the_first_of_a_sorted_list(groups, before, limit);
    assert forall|i: int| 0 <= i < out.len() implies groups.contains(#[trigger] out[i]) by {
        assert(out.contains(out[i]));
    }
    assert forall|k: int, i: int|
        0 <= k < groups.len() && 0 <= i < out.len() && !out.contains(
            #[trigger] groups[k],
        ) implies !before(groups[k], #[trigger] out[i]) by {
        assert(groups.contains(groups[k]));
    }
}

/// A receipt on routing names the largest groups of changed paths, at most five, the
/// largest first and equal ones by name. Each counts the changed paths whose group it
/// is. A group that it does not name is no larger than one that it names. For each of
/// the first three it suggests a search in that group alone.
pub proof fn routing_names_the_largest_groups(
    request: ContextRequest,
    scope: DiffScopeReceipt,
    candidate_paths: usize,
    selected_paths: Seq<Seq<char>>,
    routing: ContextRoutingReceipt,
)
    requires
        routes(request, scope, candidate_paths, selected_paths, routing),
    ensures
        routing.path_groups@.len() <= 5,
        routing.path_groups@.len() <= routing.path_groups_total,
        routing.path_groups_total <= 5 ==> routing.path_groups@.len() == routing.path_groups_total,
        routing.changed_paths == scope.changed_paths@.len(),
        routing.candidate_paths == candidate_paths,
        routing.selected_paths <= selected_paths.len(),
        forall|i: int, j: int|
            0 <= i < j < routing.path_groups@.len() ==> {
                let a = #[trigger] routing.path_groups@[i];
                let b = #[trigger] routing.path_groups@[j];
                &&& a.changed_paths >= b.changed_paths
                &&& a.changed_paths == b.changed_paths ==> !text_lt(b.prefix@, a.prefix@)
            },
        forall|i: int|
            0 <= i < routing.path_groups@.len() ==> (#[trigger] routing.path_groups@[i]).changed_paths
                == tally(
                texts(scope.changed_paths@),
                |path: Seq<char>| path_group(path) == routing.path_groups@[i].prefix@,
            ) as usize,
        forall|k: int, i: int|
            0 <= k < scope.changed_paths@.len() && 0 <= i < routing.path_groups@.len() ==> {
                let group = path_group((#[trigger] scope.changed_paths@[k])@);
                ||| exists|m: int|
                    0 <= m < routing.path_groups@.len() && (
                    #[trigger] routing.path_groups@[m]).prefix@ == group
                ||| tally(
                    texts(scope.changed_paths@),
                    |path: Seq<char>| path_group(path) == group,
                ) as usize <= (#[trigger] routing.path_groups@[i]).changed_paths
            },
        routing.suggestions@.len() <= 3,
        routing.suggestions@.len() <= routing.path_groups@.len(),
        routing.path_groups@.len() <= 3 ==> routing.suggestions@.len()
            == routing.path_groups@.len(),
        forall|i: int|
            0 <= i < routing.suggestions@.len() ==> (#[trigger] routing.suggestions@[i])@ == seq![
                if routing.path_groups@[i].prefix@ == "<root>"@ {
                    "*"@
                } else {
                    routing.path_groups@[i].prefix@ + "/**"@
                },
            ],
{
    let paths = texts(scope.changed_paths@);
    let sized = sized_groups(paths);
    let prefixes = sorted_unique(groups_of(paths));
    let all = ranked_groups(paths);
    let shown = views(routing.path_groups@);
    groups_by_size(sized, 5);
    sorted_unique_is_a_set(selected_paths);
    sorted_unique_is_a_set(groups_of(paths));
    crate::ordered::sorting_keeps_elements(sized, by_group_size());
    assert(shown.len() == routing.path_groups@.len());
    assert forall|i: int| 0 <= i < shown.len() implies shown[i] == (
    #[trigger] routing.path_groups@[i])@ && shown[i] == all[i] by {}
    assert forall|i: int, j: int| 0 <= i < j < routing.path_groups@.len() implies {
        let a = #[trigger] routing.path_groups@[i];
        let b = #[trigger] routing.path_groups@[j];
        &&& a.changed_paths >= b.changed_paths
        &&& a.changed_paths == b.changed_paths ==> !text_lt(b.prefix@, a.prefix@)
    } by {
        assert(!by_group_size()(shown[j], shown[i]));
    }
    assert forall|i: int| 0 <= i < routing.path_groups@.len() implies (
    #[trigger] routing.path_groups@[i]).changed_paths == tally(
        paths,
        |path: Seq<char>| path_group(path) == routing.path_groups@[i].prefix@,
    ) as usize by {
        assert(sized.contains(shown[i]));
        let m = choose|m: int| 0 <= m < sized.len() && sized[m] == shown[i];
        let p = |path: Seq<char>| path_group(path) == routing.path_groups@[i].prefix@;
        assert(p =~= in_group(prefixes[m]));
    }
    assert forall|k: int, i: int|
        0 <= k < scope.changed_paths@.len() && 0 <= i < routing.path_groups@.len() implies {
        let group = path_group((#[trigger] scope.changed_paths@[k])@);
        ||| exists|m: int|
            0 <= m < routing.path_groups@.len() && (#[trigger] routing.path_groups@[m]).prefix@
                == group
        ||| tally(paths, |path: Seq<char>| path_group(path) == group) as usize <= (
        #[trigger] routing.path_groups@[i]).changed_paths
    } by {
        let group = path_group(scope.changed_paths@[k]@);
        assert(groups_of(paths)[k] == group);
        assert(groups_of(paths).contains(group));
        assert(prefixes.contains(group));
        let m = choose|m: int| 0 <= m < prefixes.len() && prefixes[m] == group;
        let p = |path: Seq<char>| path_group(path) == group;
        assert(p =~= in_group(group));
        if shown.contains(sized[m]) {
            let n = choose|n: int| 0 <= n < shown.len() && shown[n] == sized[m];
            assert(routing.path_groups@[n].prefix@ == group);
        } else {
            assert(!by_group_size()(sized[m], shown[i]));
        }
    }
    let hints = views(routing.suggestions@);
    assert(hints.len() == routing.suggestions@.len());
    assert forall|i: int| 0 <= i < routing.suggestions@.len() implies (
    #[trigger] routing.suggestions@[i])@ == seq![
        if routing.path_groups@[i].prefix@ == "<root>"@ {
            "*"@
        } else {
            routing.path_groups@[i].prefix@ + "/**"@
        },
    ] by {
        assert(hints[i] == routing.suggestions@[i]@);
        assert(all[i].prefix == routing.path_groups@[i].prefix@) by {
            assert(shown[i] == all[i]);
        }
    }
}

/// The largest group is as large as the group of every path, and as large as one.
pub proof fn the_largest_group_bounds_all(paths: Seq<Seq<char>>, upto: int)
    requires
        0 <= upto <= paths.len(),
    ensures
        forall|k: int|
            0 <= k < upto ==> tally(paths, in_group(path_group(#[trigger] paths[k])))
                <= largest_group(paths, upto),
        upto > 0 ==> exists|k: int|
            0 <= k < upto && tally(paths, in_group(path_group(#[trigger] paths[k])))
                == largest_group(paths, upto),
        largest_group(paths, upto) <= paths.len(),
    decreases upto,
{
    if upto > 0 {
        the_largest_group_bounds_all(paths, upto - 1);
        tally_bounds(paths, in_group(path_group(paths[upto - 1])));
        let here = tally(paths, in_group(path_group(paths[upto - 1])));
        if here <= largest_group(paths, upto - 1) && upto > 1 {
            let k = choose|k: int|
                0 <= k < upto - 1 && tally(paths, in_group(path_group(#[trigger] paths[k])))
                    == largest_group(paths, upto - 1);
            assert(tally(paths, in_group(path_group(paths[k]))) == largest_group(paths, upto));
        } else if upto == 1 {
            assert(tally(paths, in_group(path_group(paths[0]))) == largest_group(paths, upto)) by {
                assert(largest_group(paths, 0) == 0);
            }
        } else {
            assert(tally(paths, in_group(path_group(paths[upto - 1]))) == largest_group(
                paths,
                upto,
            ));
        }
    }
}

/// A selection is weakly concentrated exactly where it holds more than one path and no
/// group holds more than half of its paths.
pub proof fn a_weak_concentration_has_no_majority(selected: Seq<Seq<char>>)
    ensures
        ({
            let paths = sorted_unique(selected);
            weakly_concentrated(selected) <==> paths.len() > 1 && forall|k: int|
                0 <= k < paths.len() ==> 2 * tally(
                    paths,
                    in_group(path_group(#[trigger] paths[k])),
                ) <= paths.len()
        }),
{
    let paths = sorted_unique(selected);
    the_largest_group_bounds_all(paths, paths.len() as int);
    if paths.len() > 1 {
        let k = choose|k: int|
            0 <= k < paths.len() && tally(paths, in_group(path_group(#[trigger] paths[k])))
                == largest_group(paths, paths.len() as int);
        assert(2 * tally(paths, in_group(path_group(paths[k]))) <= paths.len()
            <==> weakly_concentrated(selected));
    }
}

/// A change is oversized from thirty-two paths in three groups on, and not before.
pub proof fn a_change_is_oversized_by_paths_and_groups(paths: Seq<Seq<char>>)
    ensures
        oversized(paths) <==> paths.len() >= 32 && sorted_unique(groups_of(paths)).len() >= 3,
{
    crate::ordered::sorting_keeps_elements(sized_groups(paths), by_group_size());
}

/// A path without a directory belongs to the root; one in a directory belongs to it,
/// or, where that only holds packages, to the directory below.
pub proof fn a_path_belongs_to_its_directory(path: Seq<char>)
    ensures
        path_parts(path).len() >= 2 ==> {
            let top = path_parts(path)[0];
            let packages = top == "src"@ || top == "lib"@ || top == "app"@ || top == "apps"@ || top
                == "crates"@ || top == "packages"@;
            &&& !packages ==> path_group(path) == top
            &&& packages ==> path_group(path) == top + "/"@ + path_parts(path)[1]
        },
        path_parts(path).len() < 2 ==> path_group(path) == "<root>"@,
{
}

/// What a request names is what it gets: only a request for any workflow is resolved
/// by its task, and then never to that. A contribution is asked for before a review,
/// and a review before an investigation; a task that asks for none is implemented.
pub proof fn a_workflow_is_resolved_by_its_task(requested: ContextWorkflow, task: Seq<char>)
    ensures
        !(requested is Auto) ==> resolved_workflow(requested, task) == requested,
        !(resolved_workflow(requested, task) is Auto),
        requested is Auto && occurs(lowered(task), "pull request"@) ==> resolved_workflow(
            requested,
            task,
        ) is Contribution,
        requested is Auto && resolved_workflow(requested, task) is Contribution ==> occurs(
            lowered(task),
            "pull request"@,
        ) || occurs(lowered(task), "contribution"@) || occurs(lowered(task), "contributing"@),
        requested is Auto && resolved_workflow(requested, task) is Review ==> occurs(
            lowered(task),
            "code review"@,
        ) || occurs(lowered(task), "review this"@) || occurs(
            lowered(task),
            "review the changes"@,
        ),
        requested is Auto && resolved_workflow(requested, task) is Investigation ==> occurs(
            lowered(task),
            "investigate"@,
        ) || occurs(lowered(task), "root cause"@) || occurs(lowered(task), "diagnose"@),
        requested is Auto && resolved_workflow(requested, task) is Implementation ==> !occurs(
            lowered(task),
            "contribution"@,
        ) && !occurs(lowered(task), "code review"@) && !occurs(lowered(task), "root cause"@)
            && !occurs(lowered(task), "investigate"@) && !occurs(lowered(task), "diagnose"@)
            && !occurs(lowered(task), "review this"@),
{
}

/// An excerpt never takes more tokens than the request has, nor more than its kind may
/// take: a symbol 768, a reference or a text 256, the symbols of an import 384; and it
/// may take all that both allow.
pub proof fn an_excerpt_stays_within_its_budget(budget: usize, kind: ContextExcerptKind)
    ensures
        excerpt_tokens(budget, kind) <= budget,
        kind is Symbol ==> excerpt_tokens(budget, kind) <= 768,
        kind is Reference || kind is Text ==> excerpt_tokens(budget, kind) <= 256,
        kind is ImportSymbol ==> excerpt_tokens(budget, kind) <= 384,
        budget <= 256 ==> excerpt_tokens(budget, kind) == budget,
        kind is Symbol && budget <= 768 ==> excerpt_tokens(budget, kind) == budget,
        kind is ImportSymbol && budget <= 384 ==> excerpt_tokens(budget, kind) == budget,
        budget >= 768 && kind is Symbol ==> excerpt_tokens(budget, kind) == 768,
        budget >= 384 && kind is ImportSymbol ==> excerpt_tokens(budget, kind) == 384,
        budget >= 256 && (kind is Reference || kind is Text) ==> excerpt_tokens(budget, kind) == 256,
{
}

} // verus!
