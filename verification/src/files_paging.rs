//! Pages of paths follow one another.

use crate::files::{
    behind, by_path, by_rank, found_entry, judged, matched_entries, matched_entry, path_order,
    rank_before, rank_order, ranked_entries, EntryView, Judged, RecordView,
};
use crate::lists::filter_map;
use crate::ordered::{
    place_bounds, place_is, place_of, put, put_all, put_members, put_stays_ordered,
    strictly_ordered, weak_order,
};
use crate::text::text_order;
use vstd::prelude::*;

verus! {

/// The elements that a mark precedes.
pub open spec fn after_mark<A>(items: Seq<A>, mark: A, before: spec_fn(A, A) -> bool) -> Seq<A>
    decreases items.len(),
{
    if items.len() == 0 {
        Seq::empty()
    } else if before(mark, items.last()) {
        after_mark(items.drop_last(), mark, before).push(items.last())
    } else {
        after_mark(items.drop_last(), mark, before)
    }
}

/// Whether a list in order has the elements that a mark precedes from a place on.
spec fn cut_at<A>(list: Seq<A>, mark: A, before: spec_fn(A, A) -> bool, cut: int) -> bool {
    &&& 0 <= cut <= list.len()
    &&& forall|k: int| 0 <= k < cut ==> !before(mark, #[trigger] list[k])
    &&& forall|k: int| cut <= k < list.len() ==> before(mark, #[trigger] list[k])
}

proof fn putting_keeps_the_tail<A>(
    list: Seq<A>,
    x: A,
    mark: A,
    before: spec_fn(A, A) -> bool,
    replace: bool,
    cut: int,
) -> (next: int)
    requires
        weak_order(before),
        strictly_ordered(list, before),
        cut_at(list, mark, before, cut),
    ensures
        cut_at(put(list, x, before, replace), mark, before, next),
        put(list, x, before, replace).skip(next) == if before(mark, x) {
            put(list.skip(cut), x, before, replace)
        } else {
            list.skip(cut)
        },
{
    place_bounds(list, x, before);
    let at = place_of(list, x, before);
    let out = put(list, x, before, replace);
    let tail = list.skip(cut);
    let known = at < list.len() && !before(x, list[at]);
    if before(mark, x) {
        assert(at >= cut) by {
            if at < cut {
                assert(!before(mark, list[at]));
                assert(!before(list[at], x));
                assert(!before(mark, x));
            }
        }
        assert forall|k: int| 0 <= k < at - cut implies before(#[trigger] tail[k], x) by {
            assert(tail[k] == list[cut + k]);
        }
        if at < list.len() {
            assert(tail[at - cut] == list[at]);
        }
        place_is(tail, x, before, at - cut);
        assert(out.skip(cut) =~= put(tail, x, before, replace));
        assert(cut_at(out, mark, before, cut)) by {
            assert forall|k: int| 0 <= k < cut implies !before(mark, #[trigger] out[k]) by {
                assert(out[k] == list[k]);
            }
            assert forall|k: int| cut <= k < out.len() implies before(mark, #[trigger] out[k]) by {
                if out[k] != x {
                    if k < at || out.len() == list.len() {
                        assert(out[k] == list[k]);
                    } else {
                        assert(out[k] == list[k - 1]);
                    }
                }
            }
        }
        cut
    } else {
        assert(at <= cut) by {
            if at > cut {
                assert(before(mark, list[cut]));
                assert(before(list[cut], x));
                assert(!before(x, list[cut]));
                assert(!before(mark, x));
                assert(!before(mark, list[cut]));
            }
        }
        if known {
            assert(at < cut) by {
                if at == cut {
                    assert(before(mark, list[at]));
                    assert(!before(mark, x));
                    assert(!before(x, list[at]));
                    assert(!before(mark, list[at]));
                }
            }
            assert(out.skip(cut) =~= tail);
            assert(cut_at(out, mark, before, cut)) by {
                assert forall|k: int| 0 <= k < cut implies !before(mark, #[trigger] out[k]) by {
                    if k != at {
                        assert(out[k] == list[k]);
                    } else {
                        assert(out[k] == x || out[k] == list[k]);
                    }
                }
                assert forall|k: int| cut <= k < out.len() implies before(
                    mark,
                    #[trigger] out[k],
                ) by {
                    assert(out[k] == list[k]);
                }
            }
            cut
        } else {
            assert(out.skip(cut + 1) =~= tail);
            assert(cut_at(out, mark, before, cut + 1)) by {
                assert forall|k: int| 0 <= k < cut + 1 implies !before(mark, #[trigger] out[k]) by {
                    if k < at {
                        assert(out[k] == list[k]);
                    } else if k > at {
                        assert(out[k] == list[k - 1]);
                    }
                }
                assert forall|k: int| cut + 1 <= k < out.len() implies before(
                    mark,
                    #[trigger] out[k],
                ) by {
                    assert(out[k] == list[k - 1]);
                }
            }
            cut + 1
        }
    }
}

proof fn the_tail_comes_of_itself<A>(
    items: Seq<A>,
    mark: A,
    before: spec_fn(A, A) -> bool,
    replace: bool,
) -> (cut: int)
    requires
        weak_order(before),
    ensures
        strictly_ordered(put_all(items, before, replace), before),
        cut_at(put_all(items, before, replace), mark, before, cut),
        put_all(after_mark(items, mark, before), before, replace) == put_all(
            items,
            before,
            replace,
        ).skip(cut),
    decreases items.len(),
{
    if items.len() == 0 {
        assert(put_all(items, before, replace).skip(0) =~= Seq::<A>::empty());
        0
    } else {
        let front = items.drop_last();
        let x = items.last();
        let cut = the_tail_comes_of_itself(front, mark, before, replace);
        let list = put_all(front, before, replace);
        put_stays_ordered(list, x, before, replace);
        let next = putting_keeps_the_tail(list, x, mark, before, replace, cut);
        if before(mark, x) {
            let grown = after_mark(items, mark, before);
            assert(grown.drop_last() =~= after_mark(front, mark, before));
            assert(grown.last() == x);
        }
        next
    }
}

proof fn the_rest_comes_of_the_mark<A>(
    items: Seq<A>,
    before: spec_fn(A, A) -> bool,
    replace: bool,
    limit: int,
)
    requires
        weak_order(before),
        0 < limit <= put_all(items, before, replace).len(),
    ensures
        put_all(
            after_mark(items, put_all(items, before, replace)[limit - 1], before),
            before,
            replace,
        ) == put_all(items, before, replace).skip(limit),
{
    let all = put_all(items, before, replace);
    let mark = all[limit - 1];
    let cut = the_tail_comes_of_itself(items, mark, before, replace);
    assert(cut == limit) by {
        if cut < limit {
            if cut < limit - 1 {
                assert(before(all[cut], all[limit - 1]));
                assert(before(mark, all[cut]));
            } else {
                assert(before(mark, all[limit - 1]));
            }
        }
        if cut > limit {
            assert(before(all[limit - 1], all[limit]));
            assert(!before(mark, all[limit]));
        }
    }
}

proof fn matches_behind(files: Seq<Judged>, after: Option<Seq<char>>, mark: EntryView)
    requires
        behind(mark.path, after),
    ensures
        filter_map(files, matched_entry(Some(mark.path))) == after_mark(
            filter_map(files, matched_entry(after)),
            mark,
            by_path(),
        ),
    decreases files.len(),
{
    if files.len() > 0 {
        let front = files.drop_last();
        matches_behind(front, after, mark);
        let file = files.last();
        let path = file.record.path;
        text_order(path, mark.path, path);
        text_order(mark.path, path, mark.path);
        if after is Some {
            text_order(path, after->0, mark.path);
            text_order(mark.path, path, after->0);
        }
        let before = filter_map(front, matched_entry(after));
        match matched_entry(after)(file) {
            Some(entry) => {
                assert(filter_map(files, matched_entry(after)) == before.push(entry));
                assert(before.push(entry).drop_last() =~= before);
            },
            None => {},
        }
    }
}

/// The page behind the last path of a page of matches goes on with exactly what
/// that page did not hold: nothing is passed over and nothing comes twice.
pub proof fn pages_of_matches_follow_one_another(
    files: Seq<RecordView>,
    matched: Seq<Option<u32>>,
    after: Option<Seq<char>>,
    limit: int,
)
    requires
        0 < limit <= matched_entries(files, matched, after).len(),
    ensures
        matched_entries(
            files,
            matched,
            Some(matched_entries(files, matched, after)[limit - 1].path),
        ) == matched_entries(files, matched, after).skip(limit),
{
    path_order();
    let items = filter_map(judged(files, matched), matched_entry(after));
    let all = matched_entries(files, matched, after);
    let mark = all[limit - 1];
    the_rest_comes_of_the_mark(items, by_path(), false, limit);
    every_match_is_behind(judged(files, matched), after);
    put_all_holds(items, by_path(), false);
    assert(items.contains(mark));
    matches_behind(judged(files, matched), after, mark);
}

proof fn every_match_is_behind(files: Seq<Judged>, after: Option<Seq<char>>)
    ensures
        forall|i: int|
            0 <= i < filter_map(files, matched_entry(after)).len() ==> behind(
                (#[trigger] filter_map(files, matched_entry(after))[i]).path,
                after,
            ),
    decreases files.len(),
{
    if files.len() > 0 {
        every_match_is_behind(files.drop_last(), after);
    }
}

proof fn put_all_holds<A>(items: Seq<A>, before: spec_fn(A, A) -> bool, replace: bool)
    ensures
        forall|i: int|
            0 <= i < put_all(items, before, replace).len() ==> items.contains(
                #[trigger] put_all(items, before, replace)[i],
            ),
    decreases items.len(),
{
    if items.len() > 0 {
        let front = items.drop_last();
        put_all_holds(front, before, replace);
        let list = put_all(front, before, replace);
        let x = items.last();
        put_members(list, x, before, replace);
        let out = put(list, x, before, replace);
        assert forall|i: int| 0 <= i < out.len() implies items.contains(#[trigger] out[i]) by {
            if out[i] == x {
                assert(items[items.len() - 1] == x);
            } else {
                assert(list.contains(out[i]));
                let k = list.index_of(out[i]);
                assert(list[k] == out[i]);
                assert(front.contains(list[k]));
                let j = front.index_of(list[k]);
                assert(items[j] == front[j]);
            }
        }
    }
}

/// What a page goes on from.
pub open spec fn rank_mark(entry: EntryView) -> Option<(u32, Seq<char>)> {
    Some((entry.score->0, entry.path))
}

proof fn findings_behind(files: Seq<Judged>, after: Option<(u32, Seq<char>)>, mark: EntryView)
    requires
        mark.score is Some,
        after is Some ==> rank_before(
            Some((after->0).0),
            (after->0).1,
            mark.score,
            mark.path,
        ),
    ensures
        filter_map(files, found_entry(rank_mark(mark))) == after_mark(
            filter_map(files, found_entry(after)),
            mark,
            by_rank(),
        ),
    decreases files.len(),
{
    if files.len() > 0 {
        let front = files.drop_last();
        findings_behind(front, after, mark);
        let file = files.last();
        let path = file.record.path;
        if after is Some {
            text_order((after->0).1, mark.path, path);
            text_order(mark.path, path, (after->0).1);
            text_order(path, (after->0).1, mark.path);
        }
        text_order(path, mark.path, path);
        text_order(mark.path, path, mark.path);
        let before = filter_map(front, found_entry(after));
        match found_entry(after)(file) {
            Some(entry) => {
                assert(filter_map(files, found_entry(after)) == before.push(entry));
                assert(before.push(entry).drop_last() =~= before);
            },
            None => {},
        }
    }
}

proof fn every_finding_is_behind(files: Seq<Judged>, after: Option<(u32, Seq<char>)>)
    ensures
        forall|i: int|
            0 <= i < filter_map(files, found_entry(after)).len() ==> {
                let entry = #[trigger] filter_map(files, found_entry(after))[i];
                &&& entry.score is Some
                &&& after is Some ==> rank_before(
                    Some((after->0).0),
                    (after->0).1,
                    entry.score,
                    entry.path,
                )
            },
    decreases files.len(),
{
    if files.len() > 0 {
        every_finding_is_behind(files.drop_last(), after);
    }
}

/// The page behind the last entry of a page of findings goes on with exactly what
/// that page did not hold: nothing is passed over and nothing comes twice.
pub proof fn pages_of_findings_follow_one_another(
    files: Seq<RecordView>,
    scores: Seq<Option<u32>>,
    after: Option<(u32, Seq<char>)>,
    limit: int,
)
    requires
        0 < limit <= ranked_entries(files, scores, after).len(),
    ensures
        ranked_entries(
            files,
            scores,
            rank_mark(ranked_entries(files, scores, after)[limit - 1]),
        ) == ranked_entries(files, scores, after).skip(limit),
{
    rank_order();
    let items = filter_map(judged(files, scores), found_entry(after));
    let all = ranked_entries(files, scores, after);
    let mark = all[limit - 1];
    the_rest_comes_of_the_mark(items, by_rank(), true, limit);
    every_finding_is_behind(judged(files, scores), after);
    put_all_holds(items, by_rank(), true);
    assert(items.contains(mark));
    findings_behind(judged(files, scores), after, mark);
}

} // verus!
