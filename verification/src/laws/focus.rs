//! What is kept of what is found for a path pattern.

use crate::context::candidates::retain::{
    at_or_behind, joined, more_relevant, plan_held, plan_not_before, query_positions, ranked,
    relevance, shows, with_file, with_match, with_matched_file, with_plan, EvidencePlanView,
    FocusView,
};
use crate::context::candidates::workflow::FileView;
use crate::context::facets::{FacetKind, QueryView};
use crate::context::validation::MAX_CONTEXT_FOCUS_CANDIDATES_PER_PATTERN;
use crate::lists::{first_where, tally_bounds};
use crate::ordered::{
    first_of, sorted_by, text_lt, texts_are_in_line, the_first_of_a_sorted_list, weak_order,
};
use crate::text::{occurs, unicode_lowercase};
use vstd::prelude::*;

verus! {

proof fn relevance_orders()
    ensures
        weak_order(more_relevant()),
{
    let before = more_relevant();
    assert forall|a: FocusView, b: FocusView| #[trigger] before(a, b) implies !before(b, a) by {
        texts_are_in_line(a.candidate.path, b.candidate.path, a.candidate.path);
    }
    assert forall|a: FocusView, b: FocusView, c: FocusView|
        !(#[trigger] before(a, b)) && !(#[trigger] before(b, c)) implies !before(a, c) by {
        texts_are_in_line(a.candidate.path, b.candidate.path, c.candidate.path);
        texts_are_in_line(b.candidate.path, c.candidate.path, a.candidate.path);
        texts_are_in_line(a.candidate.path, c.candidate.path, b.candidate.path);
    }
}

/// Of the candidates for a pattern the most relevant are retained, at most eight, the
/// most relevant first and equally relevant ones by path and then by first and last
/// line. One that is left out is no more relevant than any that is retained, unless a
/// retained one shows the same lines and is at least as relevant.
pub proof fn the_most_relevant_candidates_are_retained(list: Seq<FocusView>, candidate: FocusView)
    ensures
        ranked(list, candidate).len() <= 8,
        forall|i: int, j: int|
            0 <= i < j < ranked(list, candidate).len() ==> {
                let a = #[trigger] ranked(list, candidate)[i];
                let b = #[trigger] ranked(list, candidate)[j];
                &&& a.relevance >= b.relevance
                &&& a.relevance == b.relevance ==> !text_lt(b.candidate.path, a.candidate.path)
                &&& a.relevance == b.relevance && a.candidate.path == b.candidate.path ==> {
                    ||| a.candidate.start_line < b.candidate.start_line
                    ||| a.candidate.start_line == b.candidate.start_line && a.candidate.end_line
                        <= b.candidate.end_line
                }
            },
        forall|x: FocusView| #[trigger]
            ranked(list, candidate).contains(x) ==> list.contains(x) || x == candidate,
        forall|x: FocusView, i: int|
            #![trigger list.contains(x), ranked(list, candidate)[i]]
            (list.contains(x) || x == candidate) && !ranked(list, candidate).contains(x) && 0 <= i
                < ranked(list, candidate).len() ==> {
                ||| ranked(list, candidate).len() == 8 && x.relevance <= ranked(
                    list,
                    candidate,
                )[i].relevance
                ||| exists|y: FocusView|
                    {
                        &&& #[trigger] joined(list, candidate).contains(y)
                        &&& y.candidate.path == x.candidate.path
                        &&& y.candidate.start_line == x.candidate.start_line
                        &&& y.candidate.end_line == x.candidate.end_line
                        &&& y.relevance >= x.relevance
                        &&& ranked(list, candidate).contains(y) || y.relevance <= ranked(
                            list,
                            candidate,
                        )[i].relevance
                    }
            },
{
    relevance_orders();
    let all = joined(list, candidate);
    let out = ranked(list, candidate);
    let limit = MAX_CONTEXT_FOCUS_CANDIDATES_PER_PATTERN as int;
    the_first_of_a_sorted_list(all, more_relevant(), limit);
    assert(out == first_of(sorted_by(all, more_relevant()), limit));
    assert forall|i: int, j: int| 0 <= i < j < out.len() implies {
        let a = #[trigger] out[i];
        let b = #[trigger] out[j];
        &&& a.relevance >= b.relevance
        &&& a.relevance == b.relevance ==> !text_lt(b.candidate.path, a.candidate.path)
        &&& a.relevance == b.relevance && a.candidate.path == b.candidate.path ==> {
            ||| a.candidate.start_line < b.candidate.start_line
            ||| a.candidate.start_line == b.candidate.start_line && a.candidate.end_line
                <= b.candidate.end_line
        }
    } by {
        assert(!more_relevant()(out[j], out[i]));
    }
    let p = shows(candidate.candidate);
    let at = first_where(list, p);
    tally_bounds(list, p);
    assert forall|x: FocusView| #[trigger] all.contains(x) implies list.contains(x) || x
        == candidate by {
        let k = choose|k: int| 0 <= k < all.len() && all[k] == x;
        if k < list.len() && x != candidate {
            assert(list[k] == x);
        }
    }
    assert forall|x: FocusView, i: int|
        #![trigger list.contains(x), out[i]]
        (list.contains(x) || x == candidate) && !out.contains(x) && 0 <= i < out.len() implies {
        ||| out.len() == 8 && x.relevance <= out[i].relevance
        ||| exists|y: FocusView|
            {
                &&& #[trigger] all.contains(y)
                &&& y.candidate.path == x.candidate.path
                &&& y.candidate.start_line == x.candidate.start_line
                &&& y.candidate.end_line == x.candidate.end_line
                &&& y.relevance >= x.relevance
                &&& out.contains(y) || y.relevance <= out[i].relevance
            }
    } by {
        if all.contains(x) {
            assert(!more_relevant()(x, out[i]));
        } else {
            assert(at < list.len()) by {
                if at == list.len() {
                    if x == candidate {
                        assert(all[list.len() as int] == x);
                    } else {
                        let k = choose|k: int| 0 <= k < list.len() && list[k] == x;
                        assert(all[k] == x);
                    }
                }
            }
            let y = if x == candidate {
                list[at]
            } else {
                candidate
            };
            if x == candidate {
                assert(all[at] == list[at]);
            } else {
                let k = choose|k: int| 0 <= k < list.len() && list[k] == x;
                if k != at {
                    assert(all[k] == x);
                }
                assert(all[at] == candidate);
            }
            assert(all.contains(y));
            if !out.contains(y) {
                assert(!more_relevant()(y, out[i]));
            }
        }
    }
}

/// Where as many as eight candidates show different lines, one more that is more
/// relevant than all of them comes first, and one that is less relevant than all of
/// eight is left out.
pub proof fn a_better_candidate_displaces_a_worse_one(list: Seq<FocusView>, candidate: FocusView)
    requires
        forall|i: int|
            0 <= i < list.len() ==> (#[trigger] list[i]).candidate.path
                != candidate.candidate.path,
    ensures
        (forall|i: int|
            0 <= i < list.len() ==> (#[trigger] list[i]).relevance < candidate.relevance) ==> ranked(
            list,
            candidate,
        ).len() > 0 && ranked(list, candidate)[0] == candidate,
        list.len() == 8 && (forall|i: int|
            0 <= i < list.len() ==> (#[trigger] list[i]).relevance > candidate.relevance)
            ==> !ranked(list, candidate).contains(candidate),
{
    relevance_orders();
    let p = shows(candidate.candidate);
    tally_bounds(list, p);
    let all = joined(list, candidate);
    let out = ranked(list, candidate);
    let before = more_relevant();
    let sorted = sorted_by(all, before);
    let limit = MAX_CONTEXT_FOCUS_CANDIDATES_PER_PATTERN as int;
    the_first_of_a_sorted_list(all, before, limit);
    assert(all == list.push(candidate));
    assert(all[list.len() as int] == candidate);
    assert(all.contains(candidate));
    if forall|i: int| 0 <= i < list.len() ==> (#[trigger] list[i]).relevance
        < candidate.relevance {
        if !out.contains(candidate) {
            assert(out.len() == 8);
            assert(out.contains(out[0]));
            assert(all.contains(out[0]));
            let k = choose|k: int| 0 <= k < all.len() && all[k] == out[0];
            assert(k < list.len());
            assert(list[k] == out[0]);
            assert(!before(candidate, out[0]));
        } else {
            let at = choose|k: int| 0 <= k < out.len() && out[k] == candidate;
            if at != 0 {
                assert(out.contains(out[0]));
                let k = choose|k: int| 0 <= k < all.len() && all[k] == out[0];
                if k < list.len() {
                    assert(list[k] == out[0]);
                    assert(!before(out[at], out[0]));
                }
            }
        }
    }
    if list.len() == 8 && (forall|i: int|
        0 <= i < list.len() ==> (#[trigger] list[i]).relevance > candidate.relevance) {
        if out.contains(candidate) {
            crate::ordered::sorting_keeps_elements(all, before);
            crate::ordered::sorting_orders(all, before);
            let at = choose|k: int| 0 <= k < out.len() && out[k] == candidate;
            assert(sorted[at] == candidate);
            let last = sorted[8];
            assert(!before(last, sorted[at]));
            broadcast use vstd::seq_lib::group_to_multiset_ensures;

            assert(sorted.contains(last));
            assert(all.to_multiset().count(last) > 0);
            assert(all.contains(last));
            let k = choose|k: int| 0 <= k < all.len() && all[k] == last;
            if k < list.len() {
                assert(list[k] == last);
            } else {
                assert(last == candidate);
                the_candidate_stands_once(list, candidate, sorted, at);
            }
        }
    }
}

proof fn the_candidate_stands_once(
    list: Seq<FocusView>,
    candidate: FocusView,
    sorted: Seq<FocusView>,
    at: int,
)
    requires
        forall|i: int|
            0 <= i < list.len() ==> (#[trigger] list[i]).candidate.path
                != candidate.candidate.path,
        sorted.to_multiset() == list.push(candidate).to_multiset(),
        0 <= at < sorted.len() - 1,
        sorted[at] == candidate,
    ensures
        sorted.last() != candidate,
{
    broadcast use vstd::seq_lib::group_to_multiset_ensures;

    let front = sorted.drop_last();
    assert(front[at] == candidate);
    assert(front.contains(candidate));
    assert(front.to_multiset().count(candidate) > 0);
    assert(!list.contains(candidate));
    assert(list.to_multiset().count(candidate) == 0);
    assert(list.push(candidate).to_multiset().count(candidate) == 1);
    if sorted.last() == candidate {
        assert(sorted =~= front.push(candidate));
        assert(sorted.to_multiset().count(candidate) == front.to_multiset().count(candidate) + 1);
    }
}

/// The files that are retained for a pattern are the first by path, at most four, in
/// ascending order; a file that is left out comes behind none of them.
pub proof fn the_first_files_by_path_are_retained(files: Seq<FileView>, file: FileView)
    requires
        files.len() <= 4,
        forall|i: int, j: int|
            0 <= i < j < files.len() ==> !text_lt(
                (#[trigger] files[j]).path,
                (#[trigger] files[i]).path,
            ),
    ensures
        with_file(files, file).len() == if files.len() < 4 {
            files.len() + 1
        } else {
            4
        },
        forall|i: int, j: int|
            0 <= i < j < with_file(files, file).len() ==> !text_lt(
                (#[trigger] with_file(files, file)[j]).path,
                (#[trigger] with_file(files, file)[i]).path,
            ),
        forall|i: int|
            0 <= i < with_file(files, file).len() ==> files.contains(
                #[trigger] with_file(files, file)[i],
            ) || with_file(files, file)[i] == file,
        forall|k: int, i: int|
            0 <= k < files.len() && 0 <= i < with_file(files, file).len() && !with_file(
                files,
                file,
            ).contains(#[trigger] files[k]) ==> !text_lt(
                files[k].path,
                (#[trigger] with_file(files, file)[i]).path,
            ),
        !with_file(files, file).contains(file) ==> forall|i: int|
            0 <= i < with_file(files, file).len() ==> !text_lt(
                file.path,
                (#[trigger] with_file(files, file)[i]).path,
            ),
{
    let p = at_or_behind(file.path);
    tally_bounds(files, p);
    let at = first_where(files, p);
    let out = with_file(files, file);
    let grown = files.insert(at, file);
    assert(grown.len() == files.len() + 1);
    assert forall|i: int| 0 <= i < grown.len() implies #[trigger] grown[i] == (if i < at {
        files[i]
    } else if i == at {
        file
    } else {
        files[i - 1]
    }) by {}
    assert forall|i: int| 0 <= i < at implies text_lt((#[trigger] files[i]).path, file.path) by {
        assert(!p(files[i]));
    }
    assert forall|i: int| at <= i < files.len() implies !text_lt(
        (#[trigger] files[i]).path,
        file.path,
    ) by {
        assert(p(files[at]));
        texts_are_in_line(files[i].path, files[at].path, file.path);
    }
    assert forall|i: int, j: int| 0 <= i < j < grown.len() implies !text_lt(
        (#[trigger] grown[j]).path,
        (#[trigger] grown[i]).path,
    ) by {
        texts_are_in_line(grown[i].path, grown[j].path, grown[i].path);
        if i < at && j > at {
            texts_are_in_line(files[i].path, file.path, files[j - 1].path);
        }
    }
    assert forall|i: int| 0 <= i < out.len() implies #[trigger] out[i] == grown[i] by {
        if at >= 4 {
            assert(at == files.len());
        }
    }
    assert forall|i: int| 0 <= i < out.len() implies files.contains(#[trigger] out[i]) || out[i]
        == file by {
        if i < at {
            assert(out[i] == files[i]);
        } else if i > at {
            assert(out[i] == files[i - 1]);
        }
    }
    assert forall|k: int, i: int|
        0 <= k < files.len() && 0 <= i < out.len() && !out.contains(#[trigger] files[k]) implies
        !text_lt(files[k].path, (#[trigger] out[i]).path) by {
        let at_grown = if k < at {
            k
        } else {
            k + 1
        };
        assert(grown[at_grown] == files[k]);
        if at_grown < out.len() {
            assert(out[at_grown] == files[k]);
        }
        assert(!text_lt(grown[at_grown].path, grown[i].path));
    }
    if !out.contains(file) {
        assert forall|i: int| 0 <= i < out.len() implies !text_lt(
            file.path,
            (#[trigger] out[i]).path,
        ) by {
            if at < out.len() {
                assert(out[at] == file);
            }
            assert(!text_lt(grown[at].path, grown[i].path));
        }
    }
}

/// The lines of required evidence that are retained are the most relevant, at most
/// eight, the most relevant first; no line of a file stands twice.
pub proof fn the_most_relevant_lines_are_retained(
    plans: Seq<EvidencePlanView>,
    plan: EvidencePlanView,
)
    requires
        plans.len() <= 8,
        forall|i: int, j: int|
            0 <= i < j < plans.len() ==> (#[trigger] plans[i]).relevance >= (
            #[trigger] plans[j]).relevance,
        forall|i: int, j: int|
            0 <= i < j < plans.len() ==> (#[trigger] plans[i]).path != (#[trigger] plans[j]).path
                || plans[i].matched_line != plans[j].matched_line,
    ensures
        with_plan(plans, plan).len() <= 8,
        forall|i: int, j: int|
            0 <= i < j < with_plan(plans, plan).len() ==> (#[trigger] with_plan(
                plans,
                plan,
            )[i]).relevance >= (#[trigger] with_plan(plans, plan)[j]).relevance,
        forall|i: int, j: int|
            0 <= i < j < with_plan(plans, plan).len() ==> (#[trigger] with_plan(plans, plan)[i]).path
                != (#[trigger] with_plan(plans, plan)[j]).path || with_plan(
                plans,
                plan,
            )[i].matched_line != with_plan(plans, plan)[j].matched_line,
        forall|x: EvidencePlanView, i: int|
            #![trigger plans.contains(x), with_plan(plans, plan)[i]]
            plans.contains(x) && !with_plan(plans, plan).contains(x) && 0 <= i < with_plan(
                plans,
                plan,
            ).len() ==> x.relevance <= with_plan(plans, plan)[i].relevance,
        with_plan(plans, plan).contains(plan) || plan_held(plans, plan) || (with_plan(
            plans,
            plan,
        ).len() == 8 && forall|i: int|
            0 <= i < 8 ==> plan.relevance <= (#[trigger] with_plan(plans, plan)[i]).relevance),
{
    let p = plan_not_before(plan);
    tally_bounds(plans, p);
    let at = first_where(plans, p);
    let out = with_plan(plans, plan);
    if !plan_held(plans, plan) {
        let grown = plans.insert(at, plan);
        assert forall|i: int| 0 <= i < grown.len() implies #[trigger] grown[i] == (if i < at {
            plans[i]
        } else if i == at {
            plan
        } else {
            plans[i - 1]
        }) by {}
        assert forall|i: int| 0 <= i < at implies (#[trigger] plans[i]).relevance
            >= plan.relevance by {
            assert(!p(plans[i]));
        }
        if at < plans.len() {
            assert(p(plans[at]));
        }
        assert forall|i: int| at <= i < plans.len() implies (#[trigger] plans[i]).relevance
            <= plan.relevance by {
            assert(plans[at].relevance >= plans[i].relevance);
        }
        if at < 8 {
            assert forall|i: int| 0 <= i < out.len() implies #[trigger] out[i] == grown[i] by {}
            assert(out[at] == plan);
            assert forall|x: EvidencePlanView, i: int|
                #![trigger plans.contains(x), out[i]]
                plans.contains(x) && !out.contains(x) && 0 <= i < out.len() implies x.relevance
                <= out[i].relevance by {
                let k = choose|k: int| 0 <= k < plans.len() && plans[k] == x;
                if k < at {
                    assert(out[k] == x);
                } else {
                    if k + 1 < out.len() {
                        assert(out[k + 1] == x);
                    }
                    assert(out[i] == grown[i]);
                }
            }
        } else {
            assert(out == plans);
        }
    }
}

/// A text is the more relevant the more queries occur in it, letter case aside: a
/// query that occurs adds its weight, up to the largest number, and a query that does
/// not occur, or that speaks of tests, adds nothing.
pub proof fn relevance_is_the_weight_of_what_occurs(
    text: Seq<char>,
    queries: Seq<QueryView>,
    i: int,
)
    requires
        0 <= i < queries.len(),
    ensures
        relevance(text, queries, 0) == 0,
        relevance(text, queries, i + 1) >= relevance(text, queries, i),
        queries[i].facets.holds(FacetKind::TestIntent) || !occurs(
            unicode_lowercase(text),
            unicode_lowercase(queries[i].value),
        ) ==> relevance(text, queries, i + 1) == relevance(text, queries, i),
        !queries[i].facets.holds(FacetKind::TestIntent) && occurs(
            unicode_lowercase(text),
            unicode_lowercase(queries[i].value),
        ) && relevance(text, queries, i + 1) < usize::MAX ==> relevance(text, queries, i + 1)
            - relevance(text, queries, i) == queries[i].weight,
{
}

/// The positions of the queries that occur in a text are ascending; a position is
/// among them exactly where its query occurs, letter case aside.
pub proof fn positions_are_of_queries_that_occur(
    text: Seq<char>,
    queries: Seq<Seq<char>>,
    upto: int,
)
    requires
        0 <= upto <= queries.len() <= usize::MAX,
    ensures
        forall|k: usize|
            #[trigger] query_positions(text, queries, upto).contains(k) <==> k < upto && occurs(
                unicode_lowercase(text),
                unicode_lowercase(queries[k as int]),
            ),
        forall|i: int, j: int|
            0 <= i < j < query_positions(text, queries, upto).len() ==> (
            #[trigger] query_positions(text, queries, upto)[i]) < (#[trigger] query_positions(
                text,
                queries,
                upto,
            )[j]),
        forall|i: int|
            0 <= i < query_positions(text, queries, upto).len() ==> (#[trigger] query_positions(
                text,
                queries,
                upto,
            )[i]) < upto,
    decreases upto,
{
    if upto > 0 {
        positions_are_of_queries_that_occur(text, queries, upto - 1);
        let before = query_positions(text, queries, upto - 1);
        let out = query_positions(text, queries, upto);
        let last = (upto - 1) as usize;
        assert forall|k: usize| #[trigger] out.contains(k) <==> k < upto && occurs(
            unicode_lowercase(text),
            unicode_lowercase(queries[k as int]),
        ) by {
            if out.contains(k) {
                let i = choose|i: int| 0 <= i < out.len() && out[i] == k;
                if i < before.len() {
                    assert(before[i] == k);
                    assert(before.contains(k));
                }
            }
            if k < upto && occurs(unicode_lowercase(text), unicode_lowercase(queries[k as int])) {
                if k < upto - 1 {
                    assert(before.contains(k));
                    let i = choose|i: int| 0 <= i < before.len() && before[i] == k;
                    assert(out[i] == k);
                } else {
                    assert(out[before.len() as int] == k);
                }
            }
        }
    }
}

/// A file counts for every pattern that it matches, allowed or not, and for no other;
/// it is kept for a pattern only where it matches and is allowed.
pub proof fn a_matched_file_counts(
    counts: Seq<usize>,
    lists: Seq<Seq<FileView>>,
    matched: Seq<bool>,
    allowed: bool,
    file: FileView,
    i: int,
)
    requires
        counts.len() == matched.len(),
        lists.len() == matched.len(),
        0 <= i < matched.len(),
        counts[i] < usize::MAX,
    ensures
        with_match(counts, matched).len() == counts.len(),
        with_matched_file(lists, matched, allowed, file).len() == lists.len(),
        with_match(counts, matched)[i] > counts[i] <==> matched[i],
        with_match(counts, matched)[i] - counts[i] <= 1,
        with_match(counts, matched)[i] >= counts[i],
        !matched[i] || !allowed ==> with_matched_file(lists, matched, allowed, file)[i] == lists[i],
        matched[i] && allowed && lists[i].len() < 4 ==> with_matched_file(
            lists,
            matched,
            allowed,
            file,
        )[i].contains(file),
{
    let p = at_or_behind(file.path);
    tally_bounds(lists[i], p);
    let at = first_where(lists[i], p);
    if matched[i] && allowed && lists[i].len() < 4 {
        let out = with_matched_file(lists, matched, allowed, file)[i];
        assert(out == lists[i].insert(at, file));
        assert(out[at] == file);
    }
}

} // verus!
