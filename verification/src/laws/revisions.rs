//! Symbols of earlier revisions.

use crate::change_receipt::GitBlobBatch;
use crate::history::batch::{ends_told, page_end, page_size, CommitPair};
use crate::history::compare::{
    drawn, drawn_with, spent_with, DiffBudget, DrawnView,
};
use crate::history::diff::{end_line, ended_line, longest_within, the_longest_prefix_is_cut_once};
use crate::history::execution::{cut_said, diff_view, log_view, read_view, ResolvedRevisions};
use crate::history::revision::{
    named_at, scan_blob, skipped_reasons, symbol_outcome, with_reason, FileView, HistoricalBlob,
    ResolvedView, ScanView,
};
use crate::history::types::{CommitView, DiffSymbolsIncompleteReason};
use crate::model::{ChangeView, ResponseMeta};
use crate::text::{byte_len, byte_slice, texts};
use vstd::prelude::*;

verus! {

/// What is taken of a difference is its beginning, and no more bytes of it than are
/// left. It is cut exactly where less than all of it is taken, and then says why: the
/// bytes, where not all of it fits those that are left, and else the tokens. What is
/// left of the budgets never grows.
pub proof fn a_difference_is_taken_from_its_beginning<T: Fn(&str, usize) -> (usize, usize)>(
    truncate: T,
    full: Seq<char>,
    budget: DiffBudget,
    out: DrawnView,
    left: DiffBudget,
)
    requires
        drawn(truncate, full, budget, out, left),
        full.len() > 0,
    ensures
        out.diff is Some ==> (out.diff->0).is_prefix_of(full) && (out.diff->0).len() > 0 && byte_len(
            out.diff->0,
        ) <= budget.remaining_bytes,
        out.truncated <==> !(out.diff is Some && (out.diff->0).len() == full.len()),
        out.truncated <==> out.incomplete is Some,
        out.truncated && (budget.remaining_bytes == 0 || byte_len(full) > budget.remaining_bytes)
            && budget.remaining_tokens > 0 ==> out.incomplete == Some(
            DiffSymbolsIncompleteReason::MaxDiffBytes,
        ),
        out.truncated && byte_len(full) <= budget.remaining_bytes && budget.remaining_bytes > 0
            ==> out.incomplete == Some(DiffSymbolsIncompleteReason::MaxTokens),
        budget.remaining_bytes > 0 && byte_len(full) > budget.remaining_bytes
            && budget.remaining_tokens > 0 ==> out.truncated,
        left.remaining_bytes <= budget.remaining_bytes,
        left.remaining_tokens <= budget.remaining_tokens,
        left.retained_bytes >= budget.retained_bytes,
        left.emitted_tokens >= budget.emitted_tokens,
        out.diff is Some && budget.retained_bytes + byte_len(out.diff->0) <= usize::MAX
            ==> left.retained_bytes == budget.retained_bytes + byte_len(out.diff->0),
        out.diff is None && budget.retained_bytes + byte_len(Seq::<char>::empty()) <= usize::MAX
            ==> left.retained_bytes == budget.retained_bytes + byte_len(Seq::<char>::empty())
            || left.retained_bytes == budget.retained_bytes,
{
    if budget.remaining_bytes > 0 && budget.remaining_tokens > 0 {
        let cut = choose|cut: (usize, usize)|
            #[trigger] cut_said(
                truncate,
                longest_within(full, budget.remaining_bytes as nat),
                budget.remaining_tokens,
                cut,
            ) && out == drawn_with(full, budget, cut) && left == spent_with(full, budget, cut);
        let admitted = longest_within(full, budget.remaining_bytes as nat);
        let emitted = longest_within(admitted, cut.0 as nat);
        the_longest_prefix_is_cut_once(full, budget.remaining_bytes as nat);
        the_longest_prefix_is_cut_once(admitted, cut.0 as nat);
        assert(emitted =~= full.take(emitted.len() as int));
        assert(emitted.is_prefix_of(full));
        assert(full.take(full.len() as int) =~= full);
        if admitted.len() == full.len() {
            assert(admitted =~= full);
        }
        if emitted.len() < admitted.len() {
            crate::text::byte_len_grows(admitted, emitted.len() as int, admitted.len() as int);
            assert(admitted.take(emitted.len() as int) =~= emitted);
            assert(admitted.take(admitted.len() as int) =~= admitted);
        } else {
            assert(emitted =~= admitted);
        }
        if emitted.len() == 0 {
            assert(emitted =~= Seq::<char>::empty());
        }
    }
}

/// The text of a symbol that is read is a beginning of it. It is cut, and the answer
/// incomplete, exactly where less than all of it is returned; its last line is counted
/// from its first.
pub proof fn a_read_symbol_is_complete_where_all_is_returned(
    resolved: ResolvedView,
    max_bytes: usize,
    tokens: usize,
    meta: ResponseMeta,
)
    ensures
        ({
            let kept = longest_within(resolved.content, max_bytes as nat);
            let out = read_view(resolved, kept, tokens, meta);
            &&& out.kind == "read_symbol"@
            &&& out.symbol is Some
            &&& (out.symbol->0).content == Some(kept)
            &&& kept.is_prefix_of(resolved.content)
            &&& out.result_complete <==> kept == resolved.content
            &&& (out.symbol->0).truncated <==> !out.result_complete
            &&& (out.symbol->0).target_start_line == resolved.symbol.target_start_line
            &&& (out.symbol->0).target_end_line == resolved.symbol.target_end_line
            &&& (out.symbol->0).returned_end_line >= resolved.symbol.target_start_line
            &&& byte_len(resolved.content) <= max_bytes ==> out.result_complete
            &&& out.meta.source_tokens == tokens
            &&& out.diff is None
            &&& out.before is None
            &&& out.after is None
            &&& out.commits.len() == 0
        }),
{
    let kept = longest_within(resolved.content, max_bytes as nat);
    the_longest_prefix_is_cut_once(resolved.content, max_bytes as nat);
    if kept.len() == resolved.content.len() {
        assert(kept =~= resolved.content);
    }
}

/// The difference of a symbol is cut, and the answer incomplete, exactly where it
/// returns fewer tokens than there are. It tells of an end exactly where the symbol has
/// it at that revision, without its text.
pub proof fn a_difference_is_complete_where_all_tokens_are_returned(
    before: Option<ResolvedView>,
    after: Option<ResolvedView>,
    diff: Seq<char>,
    total_tokens: usize,
    tokens: usize,
    change: Option<ChangeView>,
    meta: ResponseMeta,
)
    ensures
        ({
            let out = diff_view(before, after, diff, total_tokens, tokens, change, meta);
            &&& out.kind == "diff_symbol"@
            &&& out.result_complete <==> tokens >= total_tokens
            &&& out.diff_truncated <==> tokens < total_tokens
            &&& out.diff == Some(diff)
            &&& out.before is Some <==> before is Some
            &&& out.after is Some <==> after is Some
            &&& before is Some ==> (out.before->0).name == (before->0).symbol.name && (
            out.before->0).revision == (before->0).symbol.revision && (out.before->0).content is None
            &&& after is Some ==> (out.after->0).name == (after->0).symbol.name && (
            out.after->0).revision == (after->0).symbol.revision && (out.after->0).content is None
            &&& out.semantic_change == change
            &&& out.symbol is None
            &&& out.meta.source_tokens == tokens
        }),
{
}

/// A log holds the first commits, no more than asked for, and is complete exactly where
/// there are no others.
pub proof fn a_log_is_complete_where_no_commit_is_left(
    resolved: ResolvedView,
    commits: Seq<CommitView>,
    max_results: usize,
    meta: ResponseMeta,
)
    ensures
        ({
            let out = log_view(resolved, commits, max_results, meta);
            &&& out.kind == "symbol_log"@
            &&& out.commits.len() <= max_results
            &&& out.commits.is_prefix_of(commits)
            &&& out.result_complete <==> out.commits.len() == commits.len()
            &&& out.symbol is Some
            &&& (out.symbol->0).name == resolved.symbol.name
            &&& (out.symbol->0).content is None
        }),
{
    let out = log_view(resolved, commits, max_results, meta);
    assert(out.commits =~= commits.take(out.commits.len() as int));
}

/// A text that is compared ends in a line break, unless it is empty, and is otherwise
/// what it was.
pub proof fn a_compared_text_ends_its_last_line(content: Seq<char>)
    ensures
        content.is_prefix_of(ended_line(content)),
        content.len() == 0 <==> ended_line(content).len() == 0,
        content.len() > 0 ==> ended_line(content).last() == '\n',
        ended_line(content).len() <= content.len() + 1,
        content.len() > 0 && content.last() == '\n' ==> ended_line(content) == content,
{
    reveal_strlit("\n");
    assert(ended_line(content).take(content.len() as int) =~= content);
    if content.len() > 0 {
        assert(content.subrange(content.len() - 1, content.len() as int) =~= seq![content.last()]);
        assert("\n"@ =~= seq!['\n']);
        assert(seq!['\n'][0] == '\n');
        if content.last() == '\n' {
            assert(content.subrange(content.len() - 1, content.len() as int) =~= "\n"@);
        } else {
            assert(content.subrange(content.len() - 1, content.len() as int)[0] != "\n"@[0]);
        }
    }
}

proof fn named_places(flags: Seq<bool>, upto: int)
    requires
        0 <= upto <= flags.len(),
    ensures
        forall|k: int| #[trigger] named_at(flags, upto).contains(k) <==> 0 <= k < upto && flags[k],
        forall|i: int, j: int|
            0 <= i < j < named_at(flags, upto).len() ==> (#[trigger] named_at(flags, upto)[i]) < (
            #[trigger] named_at(flags, upto)[j]),
        forall|i: int|
            0 <= i < named_at(flags, upto).len() ==> 0 <= #[trigger] named_at(flags, upto)[i]
                < upto,
    decreases upto,
{
    if upto > 0 {
        named_places(flags, upto - 1);
        let before = named_at(flags, upto - 1);
        let out = named_at(flags, upto);
        assert forall|k: int| #[trigger] out.contains(k) <==> 0 <= k < upto && flags[k] by {
            if out.contains(k) {
                let i = choose|i: int| 0 <= i < out.len() && out[i] == k;
                if i < before.len() {
                    assert(before[i] == k);
                    assert(before.contains(k));
                }
            }
            if 0 <= k < upto && flags[k] {
                if k < upto - 1 {
                    assert(before.contains(k));
                    let i = choose|i: int| 0 <= i < before.len() && before[i] == k;
                    assert(out[i] == k);
                } else {
                    assert(out[before.len() as int] == k);
                }
            }
        }
    }
}

/// A symbol of a file is found where exactly one is so named, with the text of its own
/// bytes; none is found where none is, and a name of several is ambiguous.
pub proof fn a_symbol_is_found_by_its_only_name(
    revision: Seq<char>,
    path: Seq<char>,
    name: Seq<char>,
    file: FileView,
    flags: Seq<bool>,
    at: int,
)
    requires
        flags.len() == file.symbols.len(),
    ensures
        ({
            let out = symbol_outcome(revision, path, name, file, flags);
            &&& (forall|k: int| 0 <= k < flags.len() ==> !#[trigger] flags[k]) ==> out == Ok::<
                Option<ResolvedView>,
                crate::error::Fault,
            >(None)
            &&& 0 <= at < flags.len() && flags[at] && (forall|k: int|
                0 <= k < flags.len() && #[trigger] flags[k] ==> k == at) ==> {
                let part = byte_slice(
                    file.content,
                    file.symbols[at].start_byte as nat,
                    file.symbols[at].end_byte as nat,
                );
                &&& part is Some <==> out is Ok
                &&& part is Some ==> out->Ok_0 is Some && {
                    let found = (out->Ok_0)->0;
                    &&& found.content == part->0
                    &&& found.symbol.name == file.symbols[at].name@
                    &&& found.symbol.kind == file.symbols[at].kind@
                    &&& found.symbol.target_start_line == file.symbols[at].start_line
                    &&& found.symbol.target_end_line == file.symbols[at].end_line
                    &&& found.symbol.path == path
                    &&& found.symbol.revision == revision
                }
            }
            &&& (exists|i: int, j: int|
                0 <= i < j < flags.len() && #[trigger] flags[i] && #[trigger] flags[j]) ==> out is Err
                && out->Err_0 is AmbiguousSymbol
        }),
{
    let upto = flags.len() as int;
    named_places(flags, upto);
    let named = named_at(flags, upto);
    if forall|k: int| 0 <= k < flags.len() ==> !#[trigger] flags[k] {
        if named.len() > 0 {
            assert(named.contains(named[0]));
        }
    }
    if 0 <= at < flags.len() && flags[at] && (forall|k: int|
        0 <= k < flags.len() && #[trigger] flags[k] ==> k == at) {
        assert(named.contains(at));
        assert(named.contains(named[0]));
        assert(named[0] == at);
        if named.len() > 1 {
            assert(named.contains(named[1]));
            assert(named[1] == at);
            assert(named[0] < named[1]);
        }
    }
    if exists|i: int, j: int|
        0 <= i < j < flags.len() && #[trigger] flags[i] && #[trigger] flags[j] {
        let (i, j) = choose|i: int, j: int|
            0 <= i < j < flags.len() && #[trigger] flags[i] && #[trigger] flags[j];
        assert(named.contains(i) && named.contains(j));
        let a = choose|a: int| 0 <= a < named.len() && named[a] == i;
        let b = choose|b: int| 0 <= b < named.len() && named[b] == j;
        assert(a != b);
        assert(named.len() > 1);
    }
}

proof fn reasons_are_given_once(
    known: Map<Seq<char>, Seq<char>>,
    paths: Seq<Seq<char>>,
    reason: Seq<char>,
    upto: int,
    path: Seq<char>,
)
    requires
        0 <= upto <= paths.len(),
    ensures
        known.contains_key(path) ==> with_reason(known, paths, reason, upto).contains_key(path)
            && with_reason(known, paths, reason, upto)[path] == known[path],
        !known.contains_key(path) ==> (with_reason(known, paths, reason, upto).contains_key(path)
            <==> exists|k: int| 0 <= k < upto && #[trigger] paths[k] == path),
        !known.contains_key(path) && with_reason(known, paths, reason, upto).contains_key(path)
            ==> with_reason(known, paths, reason, upto)[path] == reason,
    decreases upto,
{
    if upto > 0 {
        reasons_are_given_once(known, paths, reason, upto - 1, path);
        if paths[upto - 1] == path {
            assert(exists|k: int| 0 <= k < upto && #[trigger] paths[k] == path);
        }
    }
}

/// A path that was skipped is told why, and no other is: that its file is too large,
/// then that all files together are, then that it is no text, then that git's entry is
/// of no known kind.
pub proof fn a_skipped_path_is_told_why(
    side: Seq<char>,
    skipped: GitBlobBatch,
    path: Seq<char>,
)
    ensures
        ({
            let told = skipped_reasons(side, skipped);
            let large = texts(skipped.oversized_paths@).contains(path);
            let many = texts(skipped.total_limit_paths@).contains(path);
            let foreign = texts(skipped.invalid_utf8_paths@).contains(path);
            let unknown = texts(skipped.unsupported_paths@).contains(path);
            &&& told.contains_key(path) <==> large || many || foreign || unknown
            &&& large ==> told[path] == side + "_file_exceeds_byte_limit"@
            &&& !large && many ==> told[path] == side + "_total_blob_bytes_limit"@
            &&& !large && !many && foreign ==> told[path] == side + "_file_not_utf8"@
            &&& !large && !many && !foreign && unknown ==> told[path] == side
                + "_git_entry_unsupported"@
        }),
{
    let empty = Map::<Seq<char>, Seq<char>>::empty();
    let a = texts(skipped.oversized_paths@);
    let b = texts(skipped.total_limit_paths@);
    let c = texts(skipped.invalid_utf8_paths@);
    let d = texts(skipped.unsupported_paths@);
    let ra = side + "_file_exceeds_byte_limit"@;
    let rb = side + "_total_blob_bytes_limit"@;
    let rc = side + "_file_not_utf8"@;
    let rd = side + "_git_entry_unsupported"@;
    let large = with_reason(empty, a, ra, a.len() as int);
    let many = with_reason(large, b, rb, b.len() as int);
    let foreign = with_reason(many, c, rc, c.len() as int);
    reasons_are_given_once(empty, a, ra, a.len() as int, path);
    reasons_are_given_once(large, b, rb, b.len() as int, path);
    reasons_are_given_once(many, c, rc, c.len() as int, path);
    reasons_are_given_once(foreign, d, rd, d.len() as int, path);
    assert(a.len() == skipped.oversized_paths@.len());
    assert(b.len() == skipped.total_limit_paths@.len());
    assert(c.len() == skipped.invalid_utf8_paths@.len());
    assert(d.len() == skipped.unsupported_paths@.len());
}

/// A file of a revision is read, or told to be unavailable, never both: read where it
/// was parsed and its symbols keep within 1024, and told that parsing failed, or that
/// there are too many symbols, where not. Being stopped is no reason to go on.
pub proof fn a_file_is_read_or_unavailable(
    state: ScanView,
    blob: HistoricalBlob,
    side: Seq<char>,
)
    requires
        state.parsed_symbols <= 1024,
    ensures
        ({
            let out = scan_blob(state, blob, side);
            &&& out is Err <==> blob.parsed is Err && blob.parsed->Err_0 is Cancelled
            &&& out is Ok ==> {
                let next = out->Ok_0;
                let fits = blob.parsed is Ok && state.parsed_symbols + (
                blob.parsed->Ok_0)@.len() <= 1024;
                &&& next.parsed_symbols <= 1024
                &&& fits ==> next.files.contains_key(blob.path@)
                    && next.files[blob.path@].content == blob.content@
                    && next.files[blob.path@].symbols == (blob.parsed->Ok_0)@ && next.unavailable
                    == state.unavailable && next.parsed_symbols == state.parsed_symbols + (
                blob.parsed->Ok_0)@.len()
                &&& !fits ==> next.unavailable.contains_key(blob.path@) && next.files == state.files
                    && next.parsed_symbols == state.parsed_symbols
                &&& !fits && blob.parsed is Ok ==> next.unavailable[blob.path@] == side
                    + "_parsed_symbol_limit"@
                &&& !fits && blob.parsed is Err ==> next.unavailable[blob.path@] == side
                    + "_parse_failed"@
            }
        }),
{
}

/// A comparison names the earlier commit first and the later one second; where both
/// revisions are one commit it names that twice.
pub proof fn a_comparison_names_its_commits(pair: CommitPair, revisions: ResolvedRevisions)
    ensures
        pair.base is Some && pair.head is Some ==> ends_told(pair, revisions) is Ok && (ends_told(
            pair,
            revisions,
        )->Ok_0).0.revision == (pair.base->0).revision@ && (ends_told(pair, revisions)->Ok_0).1.revision
            == (pair.head->0).revision@ && (ends_told(pair, revisions)->Ok_0).0.subject == (
        pair.base->0).subject@ && (ends_told(pair, revisions)->Ok_0).1.subject == (
        pair.head->0).subject@ && (ends_told(pair, revisions)->Ok_0).0.authored_at == (
        pair.base->0).authored_at@ && (ends_told(pair, revisions)->Ok_0).1.authored_at == (
        pair.head->0).authored_at@,
        pair.base is None ==> ends_told(pair, revisions) is Err,
        pair.base is Some && pair.head is None ==> (ends_told(pair, revisions) is Ok
            <==> revisions.base_revision@ == revisions.head_revision@),
        pair.base is Some && pair.head is None && ends_told(pair, revisions) is Ok ==> (ends_told(
            pair,
            revisions,
        )->Ok_0).0 == (ends_told(pair, revisions)->Ok_0).1,
{
}

/// A page of a comparison holds what is asked for, or the default, but no more than
/// thirty-two results, and ends there or with the last target.
pub proof fn a_page_of_a_comparison_is_bounded(
    asked: Option<usize>,
    default_results: usize,
    from: usize,
    targets: nat,
)
    requires
        from <= targets <= usize::MAX,
    ensures
        ({
            let size = page_size(asked, default_results);
            let end = page_end(from, size, targets);
            &&& size <= 32
            &&& asked is Some && asked->0 <= 32 ==> size == asked->0
            &&& asked is None && default_results <= 32 ==> size == default_results
            &&& from <= end <= targets
            &&& end - from <= size
            &&& end == targets || end - from == size
        }),
{
}

} // verus!
