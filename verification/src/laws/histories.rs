//! How histories are asked for and shortened.

use crate::accounting::{Measurement, ReceiptResourceDecoration};
use crate::error::Fault;
use crate::history::batch::{
    ends_told, page_diagnostics, page_end, page_size, CommitPair, PageView,
};
use crate::history::compare::DiffBudget;
use crate::history::execution::{log_revision, one_more, ResolvedRevisions};
use crate::history::fit::{
    commits_cut, cut_text, history_fitted, text_chosen, text_kept,
};
use crate::history::fit_diff::{
    bare_result, page_cut, restored, restored_result, skeleton, with_completeness,
};
use crate::history::request::{
    target_reads, targets_read, text_reads, PairView, PathReads,
};
use crate::history::types::{
    DiffSymbolsView, HistoryResponse, HistoryView, ResultView, TargetView,
};
use crate::history::revision::{BatchView, HistoricalBlobs};
use crate::model::ResponseMeta;
use crate::text::{byte_len, trimmed};
use crate::validation::is_blank;
use vstd::prelude::*;

verus! {

/// A history that is shortened is told as incomplete: it has the beginning of its text,
/// or the first of its commits, and at least one of them. One that is not is as it was.
pub proof fn a_shortened_history_is_told_as_incomplete<
    C: Fn(&str) -> usize,
    S: Fn(&HistoryResponse, &ResponseMeta, ReceiptResourceDecoration) -> Measurement,
>(count: C, measure: S, view: HistoryView, max: Option<usize>, out: HistoryView)
    requires
        history_fitted(count, measure, view, max, out),
    ensures
        max is None ==> out == view,
        out != view ==> !out.result_complete,
        out != view && view.symbol is None && view.diff is None ==> {
            &&& 0 < out.commits.len() <= view.commits.len()
            &&& out.commits == view.commits.take(out.commits.len() as int)
        },
        out != view && view.symbol is None && view.diff is Some ==> {
            &&& out.diff_truncated
            &&& out.diff is Some
            &&& (out.diff->0).is_prefix_of(view.diff->0)
            &&& (out.diff->0).len() > 0
            &&& out.commits == view.commits
        },
        out != view && view.symbol is Some && (view.symbol->0).content is Some ==> {
            &&& out.symbol is Some
            &&& (out.symbol->0).truncated
            &&& (out.symbol->0).content is Some
            &&& ((out.symbol->0).content->0).is_prefix_of((view.symbol->0).content->0)
            &&& ((out.symbol->0).content->0).len() > 0
            &&& (out.symbol->0).target_start_line == (view.symbol->0).target_start_line
        },
{
    if out != view {
        match cut_text(view) {
            Some((symbolic, text)) => {
                let keep = choose|keep: int|
                    {
                        &&& keep > 0
                        &&& text_chosen(count, measure, view, symbolic, text, keep, max->0)
                        &&& #[trigger] text_kept(count, view, symbolic, text, keep, out)
                    };
                assert(0 < keep <= text.len());
                assert(text.take(keep).is_prefix_of(text));
            },
            None => {
                let keep = choose|keep: int|
                    0 < keep <= view.commits.len() && out == #[trigger] commits_cut(view, keep);
                assert(out.commits =~= view.commits.take(keep));
            },
        }
    }
}

/// A result without its difference is told as cut off for want of tokens; one that never
/// had a difference stays as it is, and so does the symbol that either is about.
pub proof fn a_bare_result_tells_that_it_was_cut(result: ResultView)
    ensures
        bare_result(result).diff is None,
        result.diff is None ==> bare_result(result) == result,
        result.diff is Some ==> bare_result(result).diff_truncated && bare_result(result).reason
            == Some("diff_truncated"@) && bare_result(result).incomplete_reason is Some,
        bare_result(result).target == result.target,
        bare_result(result).status == result.status,
        bare_result(result).request_index == result.request_index,
{
}

/// A difference that is given back in full is told as it was at first; one that is given
/// back in part stays told as cut off, and is a beginning of it.
pub proof fn what_is_given_back_in_full_is_no_longer_cut(original: ResultView, keep: int)
    requires
        original.diff is Some,
        0 <= keep <= (original.diff->0).len(),
    ensures
        ({
            let out = restored_result(bare_result(original), original, keep);
            &&& keep == (original.diff->0).len() && keep > 0 ==> out == original
            &&& keep < (original.diff->0).len() ==> out.diff_truncated && out.reason == Some(
                "diff_truncated"@,
            )
            &&& keep > 0 ==> out.diff == Some((original.diff->0).take(keep))
            &&& keep == 0 ==> out.diff is None
            &&& out.target == original.target
            &&& out.status == original.status
        }),
{
    if keep == (original.diff->0).len() {
        assert((original.diff->0).take(keep) =~= original.diff->0);
    }
}

/// Giving a difference back changes no other result.
pub proof fn giving_back_changes_one_result(
    view: DiffSymbolsView,
    at: int,
    original: ResultView,
    keep: int,
    i: int,
)
    requires
        0 <= at < view.results.len(),
        0 <= i < view.results.len(),
        i != at,
    ensures
        restored(view, at, original, keep).results[i] == view.results[i],
        restored(view, at, original, keep).results.len() == view.results.len(),
        restored(view, at, original, keep).meta == view.meta,
{
}

/// A comparison is complete exactly where it does not go on and each of its results is
/// available and whole.
pub proof fn a_comparison_is_complete_where_all_is_whole(view: DiffSymbolsView)
    ensures
        with_completeness(view).result_complete <==> view.meta.next_cursor is None && forall|
            i: int,
        |
            0 <= i < view.results.len() ==> !(#[trigger] view.results[i]).diff_truncated && !(
            view.results[i].status is Unavailable),
        with_completeness(view).results == view.results,
{
}

/// A page that is cut keeps the first of its results, is told as incomplete and goes on
/// where it is told to.
pub proof fn a_cut_page_keeps_its_first_results(
    view: DiffSymbolsView,
    keep: usize,
    cursor: Option<String>,
)
    requires
        keep <= view.results.len(),
    ensures
        page_cut(view, keep, cursor).results == view.results.take(keep as int),
        !page_cut(view, keep, cursor).result_complete,
        page_cut(view, keep, cursor).meta.next_cursor == cursor,
        skeleton(view).results.len() == view.results.len(),
{
    assert(page_cut(view, keep, cursor).results =~= view.results.take(keep as int));
}

/// A commit that is not known is a failure, but for the head of a comparison of a
/// revision with itself, which is its base.
pub proof fn both_ends_are_told(pair: CommitPair, revisions: ResolvedRevisions)
    ensures
        pair.base is None ==> ends_told(pair, revisions) is Err,
        pair.base is Some && pair.head is Some ==> (ends_told(pair, revisions) matches Ok(ends)
            && ends.0.revision == (pair.base->0).revision@ && ends.1.revision == (
        pair.head->0).revision@ && ends.0.subject == (pair.base->0).subject@ && ends.1.authored_at
            == (pair.head->0).authored_at@),
        pair.base is Some && pair.head is None && revisions.base_revision@
            != revisions.head_revision@ ==> ends_told(pair, revisions) is Err,
        pair.base is Some && pair.head is None && revisions.base_revision@
            == revisions.head_revision@ ==> (ends_told(pair, revisions) matches Ok(ends) && ends.0
            == ends.1),
{
}

/// The diagnostics of a page count, beside five commands, one for each end that has files
/// to read; they count bytes for each end and symbols for both together.
pub proof fn a_page_counts_what_it_asks_for(
    page: PageView,
    first: HistoricalBlobs,
    second: HistoricalBlobs,
    base: BatchView,
    head: BatchView,
    spent: DiffBudget,
)
    ensures
        ({
            let told = page_diagnostics(page, first, second, base, head, spent);
            &&& told.git_subprocesses == 5 + (if first.blobs@.len() > 0 {
                1int
            } else {
                0
            }) + (if second.blobs@.len() > 0 {
                1int
            } else {
                0
            })
            &&& told.base_blob_bytes == base.blob_bytes
            &&& told.head_blob_bytes == head.blob_bytes
            &&& told.retained_diff_bytes == spent.retained_bytes
            &&& base.parsed_symbols + head.parsed_symbols <= usize::MAX ==> told.parsed_symbols
                == base.parsed_symbols + head.parsed_symbols
        }),
{
}

/// A page has as many targets as are asked for, at most thirty-two, and ends with the
/// last target where fewer are left.
pub proof fn a_page_ends_in_time(from: usize, size: usize, targets: nat)
    requires
        from <= targets <= usize::MAX,
    ensures
        page_end(from, size, targets) <= targets,
        page_end(from, size, targets) - from <= size,
        page_end(from, size, targets) == targets || page_end(from, size, targets) == from + size,
        from <= page_end(from, size, targets),
        page_size(Some(size), size) <= 32,
        size <= 32 ==> page_size(Some(size), from) == size && page_size(None, size) == size,
{
}

/// A log asks for one commit more than it shows, and starts at the head where no revision
/// is named.
pub proof fn a_log_asks_for_one_more(max_results: usize, revision: Seq<char>)
    ensures
        max_results < usize::MAX ==> one_more(max_results) == max_results + 1,
        log_revision(Some(revision)) == revision,
        log_revision(None) == "HEAD"@,
{
}

/// A text of a request is read exactly where it is short enough and says something, and
/// then without the white space around it.
pub proof fn a_text_is_read_where_it_says_something(
    value: Seq<char>,
    field: Seq<char>,
    max_bytes: usize,
)
    ensures
        text_reads(value, field, max_bytes) is Ok <==> byte_len(value) <= max_bytes && !is_blank(
            value,
        ),
        text_reads(value, field, max_bytes) matches Ok(text) ==> text == trimmed(value),
{
}

/// A target names both a path and a symbol at its head or neither; without them its head
/// is its base, and it is no rename.
pub proof fn a_target_names_both_parts_of_its_head(
    target: TargetView,
    paths: PathReads,
    max_bytes: usize,
)
    requires
        target_reads(target, paths, max_bytes) is Ok,
    ensures
        ({
            let pair = target_reads(target, paths, max_bytes)->Ok_0;
            &&& target.head_path is Some <==> target.head_symbol is Some
            &&& paths.base == Ok::<Seq<char>, Fault>(pair.base.path)
            &&& pair.base.symbol == trimmed(target.symbol)
            &&& target.head_path is None ==> pair.head() == pair.base && !pair.renamed()
            &&& target.head_path is Some ==> paths.head == Ok::<Seq<char>, Fault>(
                pair.head().path,
            ) && pair.head().symbol == trimmed(target.head_symbol->0)
            &&& pair.renamed() <==> pair.base.path != pair.head().path || pair.base.symbol
                != pair.head().symbol
            &&& pair.response_target().path == pair.base.path
            &&& pair.response_target().symbol == pair.base.symbol
        }),
{
}

/// Targets are read each in its place.
pub proof fn targets_are_read_in_their_places(
    targets: Seq<TargetView>,
    paths: Seq<PathReads>,
    max_bytes: usize,
    upto: int,
    i: int,
)
    requires
        0 <= i < upto <= targets.len(),
        targets_read(targets, paths, max_bytes, upto) is Ok,
    ensures
        ({
            let list = targets_read(targets, paths, max_bytes, upto)->Ok_0;
            &&& list.len() == upto
            &&& target_reads(targets[i], paths[i], max_bytes) == Ok::<PairView, Fault>(list[i])
        }),
    decreases upto,
{
    if i < upto - 1 {
        targets_are_read_in_their_places(targets, paths, max_bytes, upto - 1, i);
    } else if upto > 1 {
        targets_are_read_in_their_places(targets, paths, max_bytes, upto - 1, 0);
    } else {
        assert(targets_read(targets, paths, max_bytes, 0) == Ok::<Seq<PairView>, Fault>(
            Seq::empty(),
        ));
    }
}

} // verus!
