//! Searches for files by a name or a glob.

use crate::files::{
    by_path, by_rank, found_entry, fuzzy_after, fuzzy_paged, glob_scanned, glob_verdict,
    has_backslash, judged, match_score, matched_entries, matched_entry, nucleo_score,
    optional_cursor, path_order, rank_order, ranked_entries, FileCursorView, FilePage,
    FilePathRecord, PathOperation, RecordView,
};
use crate::lists::{filter_map, filter_map_members};
use crate::ordered::{
    bounded_selection_is_the_first, first_of, putting_adds_nothing, putting_leaves_nothing_out,
    text_lt, texts_are_in_line, views,
};
use crate::text::{optional_text, text_order};
use vstd::prelude::*;

verus! {

/// Whether a score and a path come behind a cursor of a fuzzy search: the score is
/// lower, or the same and the path comes later.
pub open spec fn comes_behind(score: u32, path: Seq<char>, cursor: Option<FileCursorView>) -> bool {
    match cursor {
        Some(FileCursorView::Fuzzy { score: last_score, path: last_path }) => score < last_score
            || score == last_score && text_lt(last_path, path),
        _ => true,
    }
}

proof fn a_finding_is_of_a_file(
    files: Seq<RecordView>,
    scores: Seq<Option<u32>>,
    after: Option<(u32, Seq<char>)>,
    i: int,
) -> (k: int)
    requires
        scores.len() == files.len(),
        0 <= i < ranked_entries(files, scores, after).len(),
    ensures
        0 <= k < files.len(),
        scores[k] is Some,
        ({
            let entry = ranked_entries(files, scores, after)[i];
            &&& entry.path == files[k].path
            &&& entry.kind is File
            &&& entry.language == files[k].language
            &&& entry.size_bytes == Some(files[k].size_bytes)
            &&& entry.score == scores[k]
            &&& after is Some ==> {
                ||| entry.score->0 < (after->0).0
                ||| entry.score->0 == (after->0).0 && text_lt((after->0).1, entry.path)
            }
        }),
{
    let f = found_entry(after);
    let cases = judged(files, scores);
    let items = filter_map(cases, f);
    putting_adds_nothing(items, by_rank(), true);
    filter_map_members(cases, f);
    let entry = ranked_entries(files, scores, after)[i];
    assert(items.contains(entry));
    let m = choose|m: int| 0 <= m < items.len() && items[m] == entry;
    let k = choose|k: int| 0 <= k < cases.len() && f(#[trigger] cases[k]) == Some(items[m]);
    k
}

proof fn findings_are_in_order(
    files: Seq<RecordView>,
    scores: Seq<Option<u32>>,
    after: Option<(u32, Seq<char>)>,
    i: int,
    j: int,
)
    requires
        scores.len() == files.len(),
        0 <= i < j < ranked_entries(files, scores, after).len(),
    ensures
        ({
            let all = ranked_entries(files, scores, after);
            ||| all[i].score->0 > all[j].score->0
            ||| all[i].score == all[j].score && text_lt(all[i].path, all[j].path)
        }),
{
    let items = filter_map(judged(files, scores), found_entry(after));
    let all = ranked_entries(files, scores, after);
    let a = a_finding_is_of_a_file(files, scores, after, i);
    let b = a_finding_is_of_a_file(files, scores, after, j);
    assert(by_rank()(all[i], all[j])) by {
        rank_order();
        bounded_selection_is_the_first(items, by_rank(), true, 0);
    }
}

proof fn a_scored_file_is_found(
    files: Seq<RecordView>,
    scores: Seq<Option<u32>>,
    after: Option<(u32, Seq<char>)>,
    k: int,
) -> (i: int)
    requires
        scores.len() == files.len(),
        0 <= k < files.len(),
        scores[k] is Some,
        after is Some ==> scores[k]->0 < (after->0).0 || scores[k]->0 == (after->0).0 && text_lt(
            (after->0).1,
            files[k].path,
        ),
    ensures
        0 <= i < ranked_entries(files, scores, after).len(),
        ranked_entries(files, scores, after)[i].path == files[k].path,
        ranked_entries(files, scores, after)[i].score == scores[k],
{
    let f = found_entry(after);
    let cases = judged(files, scores);
    let items = filter_map(cases, f);
    let all = ranked_entries(files, scores, after);
    filter_map_members(cases, f);
    assert(f(cases[k]) is Some);
    let entry = f(cases[k])->0;
    assert(items.contains(entry));
    let m = choose|m: int| 0 <= m < items.len() && items[m] == entry;
    rank_order();
    let i = putting_leaves_nothing_out(items, by_rank(), true, m);
    let source = a_finding_is_of_a_file(files, scores, after, i);
    texts_are_in_line(all[i].path, entry.path, entry.path);
    i
}

proof fn a_match_is_of_a_file(
    files: Seq<RecordView>,
    matched: Seq<Option<u32>>,
    after: Option<Seq<char>>,
    i: int,
) -> (k: int)
    requires
        matched.len() == files.len(),
        0 <= i < matched_entries(files, matched, after).len(),
    ensures
        0 <= k < files.len(),
        matched[k] is Some,
        ({
            let entry = matched_entries(files, matched, after)[i];
            &&& entry.path == files[k].path
            &&& entry.kind is File
            &&& entry.language == files[k].language
            &&& entry.size_bytes == Some(files[k].size_bytes)
            &&& entry.score is None
            &&& after is Some ==> text_lt(after->0, entry.path)
        }),
{
    let f = matched_entry(after);
    let cases = judged(files, matched);
    let items = filter_map(cases, f);
    putting_adds_nothing(items, by_path(), false);
    filter_map_members(cases, f);
    let entry = matched_entries(files, matched, after)[i];
    assert(items.contains(entry));
    let m = choose|m: int| 0 <= m < items.len() && items[m] == entry;
    let k = choose|k: int| 0 <= k < cases.len() && f(#[trigger] cases[k]) == Some(items[m]);
    if after is Some {
        text_order(after->0, files[k].path, after->0);
    }
    k
}

proof fn matches_are_in_order(
    files: Seq<RecordView>,
    matched: Seq<Option<u32>>,
    after: Option<Seq<char>>,
    i: int,
    j: int,
)
    requires
        matched.len() == files.len(),
        0 <= i < j < matched_entries(files, matched, after).len(),
    ensures
        text_lt(
            matched_entries(files, matched, after)[i].path,
            matched_entries(files, matched, after)[j].path,
        ),
{
    let items = filter_map(judged(files, matched), matched_entry(after));
    let all = matched_entries(files, matched, after);
    assert(by_path()(all[i], all[j])) by {
        path_order();
        bounded_selection_is_the_first(items, by_path(), false, 0);
    }
}

proof fn a_matched_file_is_found(
    files: Seq<RecordView>,
    matched: Seq<Option<u32>>,
    after: Option<Seq<char>>,
    k: int,
) -> (i: int)
    requires
        matched.len() == files.len(),
        0 <= k < files.len(),
        matched[k] is Some,
        after is Some ==> text_lt(after->0, files[k].path),
    ensures
        0 <= i < matched_entries(files, matched, after).len(),
        matched_entries(files, matched, after)[i].path == files[k].path,
{
    let f = matched_entry(after);
    let cases = judged(files, matched);
    let items = filter_map(cases, f);
    let all = matched_entries(files, matched, after);
    filter_map_members(cases, f);
    if after is Some {
        text_order(after->0, files[k].path, after->0);
    }
    assert(f(cases[k]) is Some);
    let entry = f(cases[k])->0;
    assert(items.contains(entry));
    let m = choose|m: int| 0 <= m < items.len() && items[m] == entry;
    path_order();
    let i = putting_leaves_nothing_out(items, by_path(), false, m);
    texts_are_in_line(all[i].path, entry.path, entry.path);
    i
}

/// A page of a fuzzy search holds files of the index, each with its own path,
/// language, size and score, that come behind its cursor. The best score comes first,
/// and equal scores come in the order of their paths. No page holds more than its
/// limit; one that holds less is the last, and one that goes on does so behind its
/// last entry.
pub proof fn a_page_of_findings_is_ranked(
    query: Seq<char>,
    files: Seq<FilePathRecord>,
    cursor: Option<FileCursorView>,
    limit: usize,
    page: FilePage,
)
    requires
        limit > 0,
        fuzzy_paged(query, files, cursor, limit, page),
    ensures
        page.entries@.len() <= limit,
        page.next is Some ==> page.entries@.len() == limit && optional_cursor(page.next) == Some(
            FileCursorView::Fuzzy {
                score: page.entries@.last().score->0,
                path: page.entries@.last().path@,
            },
        ),
        forall|i: int|
            0 <= i < page.entries@.len() ==> {
                &&& (#[trigger] page.entries@[i]).kind is File
                &&& page.entries@[i].score is Some
                &&& comes_behind(page.entries@[i].score->0, page.entries@[i].path@, cursor)
            },
        forall|i: int|
            0 <= i < page.entries@.len() ==> exists|k: int|
                {
                    &&& 0 <= k < files.len()
                    &&& (#[trigger] page.entries@[i]).path@ == (#[trigger] files[k]).path@
                    &&& optional_text(page.entries@[i].language) == optional_text(files[k].language)
                    &&& page.entries@[i].size_bytes == Some(files[k].size_bytes)
                    &&& !has_backslash(files[k].path@) ==> page.entries@[i].score == nucleo_score(
                        query,
                        files[k].path@,
                    )
                },
        forall|i: int, j: int|
            0 <= i < j < page.entries@.len() ==> {
                ||| (#[trigger] page.entries@[i]).score->0 > (#[trigger] page.entries@[j]).score->0
                ||| page.entries@[i].score == page.entries@[j].score && text_lt(
                    page.entries@[i].path@,
                    page.entries@[j].path@,
                )
            },
{
    let scores = choose|scores: Seq<Option<u32>>|
        {
            let all = #[trigger] ranked_entries(views(files), scores, fuzzy_after(cursor));
            &&& scores.len() == files.len()
            &&& forall|i: int|
                0 <= i < files.len() && !has_backslash(files[i].path@) ==> #[trigger] scores[i]
                    == nucleo_score(query, files[i].path@)
            &&& cursor is None || cursor->0 is Fuzzy
            &&& views(page.entries@) == first_of(all, limit as int)
            &&& optional_cursor(page.next) == crate::files::next_rank(
                views(page.entries@),
                all.len() > limit,
            )
        };
    let all = ranked_entries(views(files), scores, fuzzy_after(cursor));
    let shown = views(page.entries@);
    assert(shown.len() == page.entries@.len());
    assert forall|i: int| 0 <= i < page.entries@.len() implies shown[i] == (
    #[trigger] page.entries@[i])@ && shown[i] == all[i] by {}
    if shown.len() > 0 {
        assert(shown.last() == page.entries@.last()@);
    }
    assert forall|i: int| 0 <= i < page.entries@.len() implies {
        &&& (#[trigger] page.entries@[i]).kind is File
        &&& page.entries@[i].score is Some
        &&& comes_behind(page.entries@[i].score->0, page.entries@[i].path@, cursor)
        &&& exists|k: int|
            {
                &&& 0 <= k < files.len()
                &&& page.entries@[i].path@ == (#[trigger] files[k]).path@
                &&& optional_text(page.entries@[i].language) == optional_text(files[k].language)
                &&& page.entries@[i].size_bytes == Some(files[k].size_bytes)
                &&& !has_backslash(files[k].path@) ==> page.entries@[i].score == nucleo_score(
                    query,
                    files[k].path@,
                )
            }
    } by {
        let k = a_finding_is_of_a_file(views(files), scores, fuzzy_after(cursor), i);
        assert(views(files)[k] == files[k]@);
        assert(page.entries@[i]@ == all[i]);
        assert(page.entries@[i].path@ == files[k].path@);
    }
    assert forall|i: int, j: int| 0 <= i < j < page.entries@.len() implies {
        ||| (#[trigger] page.entries@[i]).score->0 > (#[trigger] page.entries@[j]).score->0
        ||| page.entries@[i].score == page.entries@[j].score && text_lt(
            page.entries@[i].path@,
            page.entries@[j].path@,
        )
    } by {
        findings_are_in_order(views(files), scores, fuzzy_after(cursor), i, j);
        assert(page.entries@[i]@ == all[i] && page.entries@[j]@ == all[j]);
    }
}

/// No finding is passed over: a file that the query scores and that comes behind the
/// cursor is on the page, unless the page is full and all it holds has a higher score,
/// or the same score and no later path.
pub proof fn the_best_findings_are_on_the_page(
    query: Seq<char>,
    files: Seq<FilePathRecord>,
    cursor: Option<FileCursorView>,
    limit: usize,
    page: FilePage,
    k: int,
)
    requires
        limit > 0,
        fuzzy_paged(query, files, cursor, limit, page),
        0 <= k < files.len(),
        !has_backslash(files[k].path@),
        nucleo_score(query, files[k].path@) is Some,
        comes_behind(nucleo_score(query, files[k].path@)->0, files[k].path@, cursor),
    ensures
        ({
            let score = nucleo_score(query, files[k].path@)->0;
            ||| exists|i: int|
                0 <= i < page.entries@.len() && (#[trigger] page.entries@[i]).path@
                    == files[k].path@ && page.entries@[i].score == Some(score)
            ||| page.next is Some && forall|i: int|
                0 <= i < page.entries@.len() ==> {
                    ||| (#[trigger] page.entries@[i]).score->0 > score
                    ||| page.entries@[i].score->0 == score && text_lt(
                        page.entries@[i].path@,
                        files[k].path@,
                    )
                }
        }),
{
    a_page_of_findings_is_ranked(query, files, cursor, limit, page);
    let scores = choose|scores: Seq<Option<u32>>|
        {
            let all = #[trigger] ranked_entries(views(files), scores, fuzzy_after(cursor));
            &&& scores.len() == files.len()
            &&& forall|i: int|
                0 <= i < files.len() && !has_backslash(files[i].path@) ==> #[trigger] scores[i]
                    == nucleo_score(query, files[i].path@)
            &&& cursor is None || cursor->0 is Fuzzy
            &&& views(page.entries@) == first_of(all, limit as int)
            &&& optional_cursor(page.next) == crate::files::next_rank(
                views(page.entries@),
                all.len() > limit,
            )
        };
    let all = ranked_entries(views(files), scores, fuzzy_after(cursor));
    let shown = views(page.entries@);
    assert(scores[k] == nucleo_score(query, files[k].path@));
    assert(views(files)[k] == files[k]@);
    let at = a_scored_file_is_found(views(files), scores, fuzzy_after(cursor), k);
    assert(shown.len() == page.entries@.len());
    if at < page.entries@.len() {
        assert(shown[at] == page.entries@[at]@);
        assert(shown[at] == all[at]);
        assert(page.entries@[at].path@ == files[k].path@);
    } else {
        assert forall|i: int| 0 <= i < page.entries@.len() implies {
            ||| (#[trigger] page.entries@[i]).score->0 > scores[k]->0
            ||| page.entries@[i].score->0 == scores[k]->0 && text_lt(
                page.entries@[i].path@,
                files[k].path@,
            )
        } by {
            assert(shown[i] == page.entries@[i]@);
            assert(shown[i] == all[i]);
            findings_are_in_order(views(files), scores, fuzzy_after(cursor), i, at);
        }
    }
}

/// A page of a scan for a glob holds files of the index that the glob matches and
/// whose paths come behind the given one, in strictly ascending order and without
/// scores; one that goes on is full and does so behind its last path. A match that is
/// passed over comes behind every path of a full page.
pub proof fn a_scan_shows_what_matches(
    pattern: Seq<char>,
    files: Seq<FilePathRecord>,
    after: Option<Seq<char>>,
    limit: usize,
    page: FilePage,
)
    requires
        limit > 0,
        glob_scanned(pattern, files, after, limit, page),
    ensures
        page.entries@.len() <= limit,
        page.next is Some ==> page.entries@.len() == limit && optional_cursor(page.next) == Some(
            FileCursorView::Path {
                operation: PathOperation::Glob,
                path: page.entries@.last().path@,
            },
        ),
        forall|i: int|
            0 <= i < page.entries@.len() ==> {
                &&& (#[trigger] page.entries@[i]).kind is File
                &&& page.entries@[i].score is None
                &&& after is Some ==> text_lt(after->0, page.entries@[i].path@)
            },
        forall|i: int|
            0 <= i < page.entries@.len() ==> exists|k: int|
                {
                    &&& 0 <= k < files.len()
                    &&& (#[trigger] page.entries@[i]).path@ == (#[trigger] files[k]).path@
                    &&& optional_text(page.entries@[i].language) == optional_text(files[k].language)
                    &&& page.entries@[i].size_bytes == Some(files[k].size_bytes)
                    &&& !has_backslash(pattern) && !has_backslash(files[k].path@) ==> glob_verdict(
                        pattern,
                        files[k].path@,
                    )
                },
        forall|i: int, j: int|
            0 <= i < j < page.entries@.len() ==> text_lt(
                (#[trigger] page.entries@[i]).path@,
                (#[trigger] page.entries@[j]).path@,
            ),
        forall|k: int|
            0 <= k < files.len() && !has_backslash(pattern) && !has_backslash(
                (#[trigger] files[k]).path@,
            ) && glob_verdict(pattern, files[k].path@) && (after is Some ==> text_lt(
                after->0,
                files[k].path@,
            )) ==> {
                ||| exists|i: int|
                    0 <= i < page.entries@.len() && (#[trigger] page.entries@[i]).path@
                        == files[k].path@
                ||| page.next is Some && forall|i: int|
                    0 <= i < page.entries@.len() ==> text_lt(
                        (#[trigger] page.entries@[i]).path@,
                        files[k].path@,
                    )
            },
{
    let matched = choose|matched: Seq<Option<u32>>|
        {
            let all = #[trigger] matched_entries(views(files), matched, after);
            &&& matched.len() == files.len()
            &&& forall|i: int|
                0 <= i < files.len() && !has_backslash(pattern) && !has_backslash(files[i].path@)
                    ==> #[trigger] matched[i] == match_score(glob_verdict(pattern, files[i].path@))
            &&& views(page.entries@) == first_of(all, limit as int)
            &&& optional_cursor(page.next) == crate::files::next_path(
                views(page.entries@),
                all.len() > limit,
                PathOperation::Glob,
            )
        };
    let all = matched_entries(views(files), matched, after);
    let shown = views(page.entries@);
    assert(shown.len() == page.entries@.len());
    assert forall|i: int| 0 <= i < page.entries@.len() implies shown[i] == (
    #[trigger] page.entries@[i])@ && shown[i] == all[i] by {}
    if shown.len() > 0 {
        assert(shown.last() == page.entries@.last()@);
    }
    assert forall|i: int| 0 <= i < page.entries@.len() implies {
        &&& (#[trigger] page.entries@[i]).kind is File
        &&& page.entries@[i].score is None
        &&& after is Some ==> text_lt(after->0, page.entries@[i].path@)
        &&& exists|k: int|
            {
                &&& 0 <= k < files.len()
                &&& page.entries@[i].path@ == (#[trigger] files[k]).path@
                &&& optional_text(page.entries@[i].language) == optional_text(files[k].language)
                &&& page.entries@[i].size_bytes == Some(files[k].size_bytes)
                &&& !has_backslash(pattern) && !has_backslash(files[k].path@) ==> glob_verdict(
                    pattern,
                    files[k].path@,
                )
            }
    } by {
        let k = a_match_is_of_a_file(views(files), matched, after, i);
        assert(views(files)[k] == files[k]@);
        assert(page.entries@[i]@ == all[i]);
        assert(page.entries@[i].path@ == files[k].path@);
    }
    assert forall|i: int, j: int| 0 <= i < j < page.entries@.len() implies text_lt(
        (#[trigger] page.entries@[i]).path@,
        (#[trigger] page.entries@[j]).path@,
    ) by {
        matches_are_in_order(views(files), matched, after, i, j);
        assert(page.entries@[i]@ == all[i] && page.entries@[j]@ == all[j]);
    }
    assert forall|k: int|
        0 <= k < files.len() && !has_backslash(pattern) && !has_backslash(
            (#[trigger] files[k]).path@,
        ) && glob_verdict(pattern, files[k].path@) && (after is Some ==> text_lt(
            after->0,
            files[k].path@,
        )) implies {
        ||| exists|i: int|
            0 <= i < page.entries@.len() && (#[trigger] page.entries@[i]).path@ == files[k].path@
        ||| page.next is Some && forall|i: int|
            0 <= i < page.entries@.len() ==> text_lt(
                (#[trigger] page.entries@[i]).path@,
                files[k].path@,
            )
    } by {
        assert(matched[k] == match_score(glob_verdict(pattern, files[k].path@)));
        assert(views(files)[k] == files[k]@);
        let at = a_matched_file_is_found(views(files), matched, after, k);
        if at < page.entries@.len() {
            assert(page.entries@[at]@ == all[at]);
            assert(page.entries@[at].path@ == files[k].path@);
        } else {
            assert forall|i: int| 0 <= i < page.entries@.len() implies text_lt(
                (#[trigger] page.entries@[i]).path@,
                files[k].path@,
            ) by {
                matches_are_in_order(views(files), matched, after, i, at);
                assert(page.entries@[i]@ == all[i]);
            }
        }
    }
}

} // verus!
