//! Comparing one symbol after another within shared budgets.

use crate::cancellation::{answered, check_cancelled, stopped};
use crate::change_receipt::ParserSymbol;
use crate::error::{Error, Fault};
use crate::history::diff::{longest_within, utf8_prefix};
use crate::history::execution::{
    change_said, classifies_all, cut_said, cuts_all, difference, difference_text, end_metadata,
    metadata_of_end,
};
use crate::history::request::{PairView, ParsedDiffSymbolsTarget};
use crate::history::revision::{
    batch_outcome, file_for, looked_up, reason_for, resolve_parsed_historical_symbol,
    a_symbol_is_small, resolved_result, small_end, small_files, BatchView, ParsedHistoricalBatch,
    ResolvedHistoricalSymbol, ResolvedView,
};
use crate::history::types::{
    DiffSymbolsIncompleteReason, DiffSymbolsResult, DiffSymbolsStatus, ResultView,
};
use crate::model::{ChangeView, DiffSymbolChange};
use crate::ordered::views;
use crate::response::optional_view;
use crate::text::{byte_len, char_count, copy_text};
use crate::validation::byte_size;
use tokio_util::sync::CancellationToken;
use vstd::prelude::*;

verus! {

/// The most bytes of differences of one page.
pub const MAX_DIFF_SYMBOL_BYTES: usize = 1048576;

/// What is left of the budgets of a page, and what was used.
#[derive(Debug, Clone, Copy, PartialEq, Eq, Structural)]
pub struct DiffBudget {
    pub remaining_tokens: usize,
    pub remaining_bytes: usize,
    pub retained_bytes: usize,
    pub emitted_tokens: usize,
}

/// The difference that a result holds.
pub struct DrawnView {
    pub diff: Option<Seq<char>>,
    pub truncated: bool,
    pub incomplete: Option<DiffSymbolsIncompleteReason>,
}

/// A difference of which nothing is left to take.
pub open spec fn nothing_drawn(reason: DiffSymbolsIncompleteReason) -> DrawnView {
    DrawnView { diff: None, truncated: true, incomplete: Some(reason) }
}

/// A sum that stops at the largest number.
pub open spec fn plus(a: usize, b: nat) -> usize {
    if a + b > usize::MAX {
        usize::MAX
    } else {
        (a + b) as usize
    }
}

/// A difference of numbers that stops at zero.
pub open spec fn minus(a: usize, b: nat) -> usize {
    if b > a {
        0
    } else {
        (a - b) as usize
    }
}

/// What of a full difference is taken, by where it is cut.
pub open spec fn drawn_with(full: Seq<char>, budget: DiffBudget, cut: (usize, usize)) -> DrawnView {
    let admitted = longest_within(full, budget.remaining_bytes as nat);
    let emitted = longest_within(admitted, cut.0 as nat);
    let byte_truncated = admitted.len() < full.len();
    let token_truncated = emitted.len() < admitted.len();
    DrawnView {
        diff: if emitted.len() == 0 {
            None
        } else {
            Some(emitted)
        },
        truncated: byte_truncated || token_truncated,
        incomplete: if byte_truncated {
            Some(DiffSymbolsIncompleteReason::MaxDiffBytes)
        } else if token_truncated {
            Some(DiffSymbolsIncompleteReason::MaxTokens)
        } else {
            None
        },
    }
}

/// The budgets after a difference was taken.
pub open spec fn spent_with(full: Seq<char>, budget: DiffBudget, cut: (usize, usize)) -> DiffBudget {
    let admitted = longest_within(full, budget.remaining_bytes as nat);
    let emitted = longest_within(admitted, cut.0 as nat);
    DiffBudget {
        remaining_tokens: minus(budget.remaining_tokens, cut.1 as nat),
        remaining_bytes: minus(budget.remaining_bytes, byte_len(admitted)),
        retained_bytes: plus(budget.retained_bytes, byte_len(emitted)),
        emitted_tokens: plus(budget.emitted_tokens, cut.1 as nat),
    }
}

/// Whether a difference may be drawn so from the budgets.
pub open spec fn drawn<T: Fn(&str, usize) -> (usize, usize)>(
    truncate: T,
    full: Seq<char>,
    budget: DiffBudget,
    out: DrawnView,
    left: DiffBudget,
) -> bool {
    if budget.remaining_bytes == 0 {
        out == nothing_drawn(DiffSymbolsIncompleteReason::MaxDiffBytes) && left == budget
    } else if budget.remaining_tokens == 0 {
        out == nothing_drawn(DiffSymbolsIncompleteReason::MaxTokens) && left == budget
    } else {
        exists|cut: (usize, usize)|
            #[trigger] cut_said(
                truncate,
                longest_within(full, budget.remaining_bytes as nat),
                budget.remaining_tokens,
                cut,
            ) && out == drawn_with(full, budget, cut) && left == spent_with(full, budget, cut)
    }
}

/// A result of a target whose symbols cannot be told.
pub open spec fn unavailable_result(index: usize, pair: PairView, reason: Seq<char>) -> ResultView {
    ResultView {
        request_index: index,
        target: pair.response_target(),
        status: DiffSymbolsStatus::Unavailable,
        before: None,
        after: None,
        diff: None,
        diff_truncated: false,
        semantic_change: None,
        reason: Some(reason),
        incomplete_reason: None,
    }
}

/// The reason why the symbols of a target cannot be told.
pub open spec fn target_reason(base: BatchView, head: BatchView, pair: PairView) -> Option<
    Seq<char>,
> {
    match looked_up(base.unavailable, pair.base.path) {
        Some(reason) => Some(reason),
        None => looked_up(head.unavailable, pair.head().path),
    }
}

/// How a symbol fared, by its two ends and what changed.
pub open spec fn status_of(
    before: Option<ResolvedView>,
    after: Option<ResolvedView>,
    renamed: bool,
    change: Option<ChangeView>,
) -> DiffSymbolsStatus {
    match (before, after) {
        (Some(_), Some(_)) => if renamed {
            DiffSymbolsStatus::Renamed
        } else if change is Some {
            DiffSymbolsStatus::Modified
        } else {
            DiffSymbolsStatus::Unchanged
        },
        (None, Some(_)) => DiffSymbolsStatus::Added,
        (Some(_), None) => DiffSymbolsStatus::Removed,
        (None, None) => DiffSymbolsStatus::NotFound,
    }
}

/// The remark on a result.
pub open spec fn result_reason(status: DiffSymbolsStatus, truncated: bool) -> Option<Seq<char>> {
    if status is NotFound {
        Some("symbol_not_found_at_both_revisions"@)
    } else if truncated {
        Some("diff_truncated"@)
    } else {
        None
    }
}

/// A result of a target whose two ends were looked up.
pub open spec fn compared_result(
    index: usize,
    pair: PairView,
    before: Option<ResolvedView>,
    after: Option<ResolvedView>,
    status: DiffSymbolsStatus,
    change: Option<ChangeView>,
    draw: DrawnView,
) -> ResultView {
    ResultView {
        request_index: index,
        target: pair.response_target(),
        status,
        before: end_metadata(before),
        after: end_metadata(after),
        diff: draw.diff,
        diff_truncated: draw.truncated,
        semantic_change: change,
        reason: result_reason(status, draw.truncated),
        incomplete_reason: draw.incomplete,
    }
}

/// Whether a symbol with two known ends may come out so.
pub open spec fn ends_compared<
    K: Fn(
        &str,
        &str,
        &Option<ResolvedHistoricalSymbol>,
        &Option<ResolvedHistoricalSymbol>,
        bool,
    ) -> Option<DiffSymbolChange>,
    T: Fn(&str, usize) -> (usize, usize),
>(
    classify: K,
    truncate: T,
    base: BatchView,
    head: BatchView,
    pair: PairView,
    index: usize,
    before: Option<ResolvedView>,
    after: Option<ResolvedView>,
    budget: DiffBudget,
    out: ResultView,
    left: DiffBudget,
) -> bool {
    let none = DrawnView { diff: None, truncated: false, incomplete: None };
    if before is None && after is None {
        out == compared_result(
            index,
            pair,
            before,
            after,
            DiffSymbolsStatus::NotFound,
            None,
            none,
        ) && left == budget
    } else {
        exists|change: Option<ChangeView>|
            {
                &&& #[trigger] change_said(
                    classify,
                    pair.base.path,
                    pair.head().path,
                    before,
                    after,
                    pair.renamed(),
                    change,
                )
                &&& change_drawn(
                    truncate,
                    base,
                    head,
                    pair,
                    index,
                    before,
                    after,
                    change,
                    budget,
                    out,
                    left,
                )
            }
    }
}

/// Whether a symbol of which a change is known may come out so.
pub open spec fn change_drawn<T: Fn(&str, usize) -> (usize, usize)>(
    truncate: T,
    base: BatchView,
    head: BatchView,
    pair: PairView,
    index: usize,
    before: Option<ResolvedView>,
    after: Option<ResolvedView>,
    change: Option<ChangeView>,
    budget: DiffBudget,
    out: ResultView,
    left: DiffBudget,
) -> bool {
    let status = status_of(before, after, pair.renamed(), change);
    let none = DrawnView { diff: None, truncated: false, incomplete: None };
    if status is Unchanged {
        out == compared_result(index, pair, before, after, status, change, none) && left == budget
    } else {
        exists|draw: DrawnView|
            #[trigger] drawn(
                truncate,
                difference(
                    before,
                    after,
                    base.revision,
                    pair.base.path,
                    head.revision,
                    pair.head().path,
                ),
                budget,
                draw,
                left,
            ) && out == compared_result(index, pair, before, after, status, change, draw)
    }
}

/// Whether the symbols of a file that a name stands for may be said to be these.
pub open spec fn matches_said<M: Fn(&str, &Vec<ParserSymbol>) -> Vec<bool>>(
    matches: M,
    name: Seq<char>,
    symbols: Seq<ParserSymbol>,
    flags: Seq<bool>,
) -> bool {
    exists|text: &str, list: &Vec<ParserSymbol>, said: Vec<bool>|
        {
            &&& #[trigger] call_ensures(matches, (text, list), said)
            &&& text@ == name
            &&& list@ == symbols
            &&& said@ == flags
        }
}

/// Whether a symbol of a revision may be said to be this.
pub open spec fn end_said<M: Fn(&str, &Vec<ParserSymbol>) -> Vec<bool>>(
    matches: M,
    batch: BatchView,
    path: Seq<char>,
    name: Seq<char>,
    outcome: Result<Option<ResolvedView>, Fault>,
) -> bool {
    match looked_up(batch.files, path) {
        None => outcome == Ok::<Option<ResolvedView>, Fault>(None),
        Some(file) => exists|flags: Seq<bool>|
            #[trigger] matches_said(matches, name, file.symbols, flags) && outcome == batch_outcome(
                batch,
                path,
                name,
                flags,
            ),
    }
}

/// What a result and the budgets after it come to, or why there is none.
pub type Compared = Result<(ResultView, DiffBudget), Fault>;

/// Whether `outcome` may come of comparing a target.
pub open spec fn target_compared<
    M: Fn(&str, &Vec<ParserSymbol>) -> Vec<bool>,
    K: Fn(
        &str,
        &str,
        &Option<ResolvedHistoricalSymbol>,
        &Option<ResolvedHistoricalSymbol>,
        bool,
    ) -> Option<DiffSymbolChange>,
    T: Fn(&str, usize) -> (usize, usize),
>(
    matches: M,
    classify: K,
    truncate: T,
    base: BatchView,
    head: BatchView,
    pair: PairView,
    index: usize,
    budget: DiffBudget,
    outcome: Compared,
) -> bool {
    match target_reason(base, head, pair) {
        Some(reason) => outcome == Ok::<(ResultView, DiffBudget), Fault>(
            (unavailable_result(index, pair, reason), budget),
        ),
        None => exists|before: Result<Option<ResolvedView>, Fault>|
            #[trigger] end_said(matches, base, pair.base.path, pair.base.symbol, before)
                && match before {
                Err(fault) => if fault is AmbiguousSymbol {
                    outcome == Ok::<(ResultView, DiffBudget), Fault>(
                        (unavailable_result(index, pair, "ambiguous_base_symbol"@), budget),
                    )
                } else {
                    outcome == Err::<(ResultView, DiffBudget), Fault>(fault)
                },
                Ok(before) => head_compared(
                    matches,
                    classify,
                    truncate,
                    base,
                    head,
                    pair,
                    index,
                    before,
                    budget,
                    outcome,
                ),
            },
    }
}

/// Whether `outcome` may come of comparing a target whose earlier end is known.
pub open spec fn head_compared<
    M: Fn(&str, &Vec<ParserSymbol>) -> Vec<bool>,
    K: Fn(
        &str,
        &str,
        &Option<ResolvedHistoricalSymbol>,
        &Option<ResolvedHistoricalSymbol>,
        bool,
    ) -> Option<DiffSymbolChange>,
    T: Fn(&str, usize) -> (usize, usize),
>(
    matches: M,
    classify: K,
    truncate: T,
    base: BatchView,
    head: BatchView,
    pair: PairView,
    index: usize,
    before: Option<ResolvedView>,
    budget: DiffBudget,
    outcome: Compared,
) -> bool {
    exists|after: Result<Option<ResolvedView>, Fault>|
        #[trigger] end_said(matches, head, pair.head().path, pair.head().symbol, after)
            && match after {
            Err(fault) => if fault is AmbiguousSymbol {
                outcome == Ok::<(ResultView, DiffBudget), Fault>(
                    (unavailable_result(index, pair, "ambiguous_head_symbol"@), budget),
                )
            } else {
                outcome == Err::<(ResultView, DiffBudget), Fault>(fault)
            },
            Ok(after) => outcome is Ok && ends_compared(
                classify,
                truncate,
                base,
                head,
                pair,
                index,
                before,
                after,
                budget,
                (outcome->Ok_0).0,
                (outcome->Ok_0).1,
            ),
        }
}

proof fn shorter_cut(text: Seq<char>, max_bytes: nat)
    ensures
        byte_len(longest_within(text, max_bytes)) <= max_bytes,
        (byte_len(longest_within(text, max_bytes)) < byte_len(text)) == (longest_within(
            text,
            max_bytes,
        ).len() < text.len()),
{
    crate::history::diff::the_longest_prefix_is_cut_once(text, max_bytes);
    let kept = longest_within(text, max_bytes);
    assert(kept =~= text.take(kept.len() as int));
    assert(text.take(text.len() as int) =~= text);
    if kept.len() < text.len() {
        crate::text::byte_len_grows(text, kept.len() as int, text.len() as int);
    }
}

struct Drawn {
    diff: Option<String>,
    truncated: bool,
    incomplete: Option<DiffSymbolsIncompleteReason>,
}

impl View for Drawn {
    type V = DrawnView;

    closed spec fn view(&self) -> DrawnView {
        DrawnView {
            diff: crate::text::optional_text(self.diff),
            truncated: self.truncated,
            incomplete: self.incomplete,
        }
    }
}

fn draw_diff<T: Fn(&str, usize) -> (usize, usize)>(
    truncate: &T,
    full: &str,
    budget: DiffBudget,
) -> (r: (Drawn, DiffBudget))
    requires
        cuts_all(*truncate),
    ensures
        drawn(*truncate, full@, budget, r.0@, r.1),
{
    if budget.remaining_bytes == 0 {
        return (
            Drawn {
                diff: None,
                truncated: true,
                incomplete: Some(DiffSymbolsIncompleteReason::MaxDiffBytes),
            },
            budget,
        );
    }
    if budget.remaining_tokens == 0 {
        return (
            Drawn {
                diff: None,
                truncated: true,
                incomplete: Some(DiffSymbolsIncompleteReason::MaxTokens),
            },
            budget,
        );
    }
    let admitted = utf8_prefix(full, budget.remaining_bytes);
    let cut = truncate(admitted.as_str(), budget.remaining_tokens);
    assert(cut_said(*truncate, admitted@, budget.remaining_tokens, cut));
    let emitted = utf8_prefix(admitted.as_str(), cut.0);
    proof {
        shorter_cut(full@, budget.remaining_bytes as nat);
        shorter_cut(admitted@, cut.0 as nat);
    }
    let byte_truncated = byte_size(admitted.as_str()) < byte_size(full);
    let token_truncated = byte_size(emitted.as_str()) < byte_size(admitted.as_str());
    let left = DiffBudget {
        remaining_tokens: budget.remaining_tokens.saturating_sub(cut.1),
        remaining_bytes: budget.remaining_bytes.saturating_sub(byte_size(admitted.as_str())),
        retained_bytes: budget.retained_bytes.saturating_add(byte_size(emitted.as_str())),
        emitted_tokens: budget.emitted_tokens.saturating_add(cut.1),
    };
    let incomplete = if byte_truncated {
        Some(DiffSymbolsIncompleteReason::MaxDiffBytes)
    } else if token_truncated {
        Some(DiffSymbolsIncompleteReason::MaxTokens)
    } else {
        None
    };
    let diff = if char_count(emitted.as_str()) == 0 {
        None
    } else {
        Some(emitted)
    };
    let out = Drawn { diff, truncated: byte_truncated || token_truncated, incomplete };
    assert(out@ == drawn_with(full@, budget, cut));
    assert(left == spent_with(full@, budget, cut));
    (out, left)
}

fn make_unavailable(index: usize, target: &ParsedDiffSymbolsTarget, reason: String) -> (r:
    DiffSymbolsResult)
    ensures
        r@ == unavailable_result(index, target@, reason@),
{
    DiffSymbolsResult {
        request_index: index,
        target: target.response_target(),
        status: DiffSymbolsStatus::Unavailable,
        before: None,
        after: None,
        diff: None,
        diff_truncated: false,
        semantic_change: None,
        reason: Some(reason),
        incomplete_reason: None,
    }
}

fn make_compared(
    index: usize,
    target: &ParsedDiffSymbolsTarget,
    before: Option<ResolvedHistoricalSymbol>,
    after: Option<ResolvedHistoricalSymbol>,
    status: DiffSymbolsStatus,
    change: Option<DiffSymbolChange>,
    draw: Drawn,
) -> (r: DiffSymbolsResult)
    ensures
        r@ == compared_result(
            index,
            target@,
            optional_view(before),
            optional_view(after),
            status,
            optional_view(change),
            draw@,
        ),
{
    let reason = if status == DiffSymbolsStatus::NotFound {
        Some(copy_text("symbol_not_found_at_both_revisions"))
    } else if draw.truncated {
        Some(copy_text("diff_truncated"))
    } else {
        None
    };
    DiffSymbolsResult {
        request_index: index,
        target: target.response_target(),
        status,
        before: metadata_of_end(before),
        after: metadata_of_end(after),
        diff: draw.diff,
        diff_truncated: draw.truncated,
        semantic_change: change,
        reason,
        incomplete_reason: draw.incomplete,
    }
}

fn compare_ends<
    K: Fn(
        &str,
        &str,
        &Option<ResolvedHistoricalSymbol>,
        &Option<ResolvedHistoricalSymbol>,
        bool,
    ) -> Option<DiffSymbolChange>,
    T: Fn(&str, usize) -> (usize, usize),
>(
    classify: &K,
    truncate: &T,
    base: &ParsedHistoricalBatch,
    head: &ParsedHistoricalBatch,
    target: &ParsedDiffSymbolsTarget,
    index: usize,
    before: Option<ResolvedHistoricalSymbol>,
    after: Option<ResolvedHistoricalSymbol>,
    budget: DiffBudget,
) -> (r: (DiffSymbolsResult, DiffBudget))
    requires
        classifies_all(*classify),
        cuts_all(*truncate),
        small_end(optional_view(before)),
        small_end(optional_view(after)),
    ensures
        ends_compared(
            *classify,
            *truncate,
            base@,
            head@,
            target@,
            index,
            optional_view(before),
            optional_view(after),
            budget,
            r.0@,
            r.1,
        ),
{
    let none = Drawn { diff: None, truncated: false, incomplete: None };
    if before.is_none() && after.is_none() {
        let result = make_compared(
            index,
            target,
            before,
            after,
            DiffSymbolsStatus::NotFound,
            None,
            none,
        );
        return (result, budget);
    }
    let renamed = target.identity_changed();
    let base_path = target.base.path.as_str();
    let head_path = target.head().path.as_str();
    let change = classify(base_path, head_path, &before, &after, renamed);
    let ghost said = optional_view(change);
    let ghost old_end = optional_view(before);
    let ghost new_end = optional_view(after);
    assert(change_said(
        *classify,
        target@.base.path,
        target@.head().path,
        old_end,
        new_end,
        renamed,
        said,
    ));
    let status = match (&before, &after) {
        (Some(_), Some(_)) => if renamed {
            DiffSymbolsStatus::Renamed
        } else if change.is_some() {
            DiffSymbolsStatus::Modified
        } else {
            DiffSymbolsStatus::Unchanged
        },
        (None, Some(_)) => DiffSymbolsStatus::Added,
        (Some(_), None) => DiffSymbolsStatus::Removed,
        (None, None) => DiffSymbolsStatus::NotFound,
    };
    assert(status == status_of(old_end, new_end, renamed, said));
    if status == DiffSymbolsStatus::Unchanged {
        let result = make_compared(index, target, before, after, status, change, none);
        assert(change_drawn(
            *truncate,
            base@,
            head@,
            target@,
            index,
            old_end,
            new_end,
            said,
            budget,
            result@,
            budget,
        ));
        return (result, budget);
    }
    let full = difference_text(
        &before,
        &after,
        base.revision.as_str(),
        base_path,
        head.revision.as_str(),
        head_path,
    );
    let (draw, left) = draw_diff(truncate, full.as_str(), budget);
    let ghost taken = draw@;
    let result = make_compared(index, target, before, after, status, change, draw);
    assert(drawn(
        *truncate,
        difference(
            old_end,
            new_end,
            base@.revision,
            target@.base.path,
            head@.revision,
            target@.head().path,
        ),
        budget,
        taken,
        left,
    ));
    assert(change_drawn(
        *truncate,
        base@,
        head@,
        target@,
        index,
        old_end,
        new_end,
        said,
        budget,
        result@,
        left,
    ));
    (result, left)
}

fn find_end<M: Fn(&str, &Vec<ParserSymbol>) -> Vec<bool>>(
    matches: &M,
    batch: &ParsedHistoricalBatch,
    path: &str,
    name: &str,
) -> (r: Result<Option<ResolvedHistoricalSymbol>, Error>)
    requires
        forall|text: &str, list: &Vec<ParserSymbol>| call_requires(*matches, (text, list)),
        small_files(batch@.files),
    ensures
        end_said(*matches, batch@, path@, name@, resolved_result(r)),
        resolved_result(r) matches Ok(end) ==> small_end(end),
{
    match file_for(&batch.files, path) {
        None => Ok(None),
        Some(file) => {
            let flags = matches(name, &file.symbols);
            assert(matches_said(*matches, name@, file.symbols@, flags@));
            proof {
                a_symbol_is_small(
                    batch@.revision,
                    path@,
                    name@,
                    batch@.files[path@],
                    flags@,
                );
            }
            resolve_parsed_historical_symbol(batch, path, name, &flags)
        },
    }
}

/// A result, as what it says.
pub open spec fn compared_as(r: Result<(DiffSymbolsResult, DiffBudget), Error>) -> Compared {
    match r {
        Ok(pair) => Ok((pair.0@, pair.1)),
        Err(e) => Err(e@),
    }
}

/// Compares one target of a page. `matches` tells which symbols of a file a name
/// stands for.
pub fn compare_target<
    M: Fn(&str, &Vec<ParserSymbol>) -> Vec<bool>,
    K: Fn(
        &str,
        &str,
        &Option<ResolvedHistoricalSymbol>,
        &Option<ResolvedHistoricalSymbol>,
        bool,
    ) -> Option<DiffSymbolChange>,
    T: Fn(&str, usize) -> (usize, usize),
>(
    matches: &M,
    classify: &K,
    truncate: &T,
    base: &ParsedHistoricalBatch,
    head: &ParsedHistoricalBatch,
    target: &ParsedDiffSymbolsTarget,
    index: usize,
    budget: DiffBudget,
) -> (r: Result<(DiffSymbolsResult, DiffBudget), Error>)
    requires
        forall|text: &str, list: &Vec<ParserSymbol>| call_requires(*matches, (text, list)),
        classifies_all(*classify),
        cuts_all(*truncate),
        small_files(base@.files),
        small_files(head@.files),
    ensures
        target_compared(
            *matches,
            *classify,
            *truncate,
            base@,
            head@,
            target@,
            index,
            budget,
            compared_as(r),
        ),
{
    let end = target.head();
    let reason = match reason_for(&base.unavailable, target.base.path.as_str()) {
        Some(reason) => Some(reason),
        None => reason_for(&head.unavailable, end.path.as_str()),
    };
    if let Some(reason) = reason {
        return Ok((make_unavailable(index, target, reason), budget));
    }
    let found = find_end(
        matches,
        base,
        target.base.path.as_str(),
        target.base.symbol.as_str(),
    );
    let ghost first = resolved_result(found);
    assert(end_said(*matches, base@, target@.base.path, target@.base.symbol, first));
    let before = match found {
        Ok(before) => before,
        Err(Error::AmbiguousSymbol { path, symbol }) => {
            return Ok(
                (make_unavailable(index, target, copy_text("ambiguous_base_symbol")), budget),
            );
        },
        Err(e) => {
            return Err(e);
        },
    };
    let found = find_end(matches, head, end.path.as_str(), end.symbol.as_str());
    let ghost second = resolved_result(found);
    assert(end_said(*matches, head@, target@.head().path, target@.head().symbol, second));
    let after = match found {
        Ok(after) => after,
        Err(Error::AmbiguousSymbol { path, symbol }) => {
            return Ok(
                (make_unavailable(index, target, copy_text("ambiguous_head_symbol")), budget),
            );
        },
        Err(e) => {
            return Err(e);
        },
    };
    Ok(compare_ends(classify, truncate, base, head, target, index, before, after, budget))
}

/// Whether results and budgets may come of comparing targets one after another.
pub open spec fn page_compared<
    M: Fn(&str, &Vec<ParserSymbol>) -> Vec<bool>,
    K: Fn(
        &str,
        &str,
        &Option<ResolvedHistoricalSymbol>,
        &Option<ResolvedHistoricalSymbol>,
        bool,
    ) -> Option<DiffSymbolChange>,
    T: Fn(&str, usize) -> (usize, usize),
>(
    matches: M,
    classify: K,
    truncate: T,
    base: BatchView,
    head: BatchView,
    targets: Seq<PairView>,
    from: usize,
    start: DiffBudget,
    results: Seq<ResultView>,
    budgets: Seq<DiffBudget>,
) -> bool {
    &&& budgets.len() == results.len() + 1
    &&& budgets[0] == start
    &&& from + results.len() <= targets.len()
    &&& forall|i: int|
        0 <= i < results.len() ==> #[trigger] target_compared(
            matches,
            classify,
            truncate,
            base,
            head,
            targets[from + i],
            (from + i) as usize,
            budgets[i],
            Ok((results[i], budgets[i + 1])),
        )
}

/// Whether results, and what is left of a budget, may come of comparing targets one
/// after another.
pub open spec fn page_finished<
    M: Fn(&str, &Vec<ParserSymbol>) -> Vec<bool>,
    K: Fn(
        &str,
        &str,
        &Option<ResolvedHistoricalSymbol>,
        &Option<ResolvedHistoricalSymbol>,
        bool,
    ) -> Option<DiffSymbolChange>,
    T: Fn(&str, usize) -> (usize, usize),
>(
    matches: M,
    classify: K,
    truncate: T,
    base: BatchView,
    head: BatchView,
    targets: Seq<PairView>,
    from: usize,
    start: DiffBudget,
    results: Seq<ResultView>,
    left: DiffBudget,
) -> bool {
    exists|budgets: Seq<DiffBudget>| #[trigger]
        page_compared(
            matches,
            classify,
            truncate,
            base,
            head,
            targets,
            from,
            start,
            results,
            budgets,
        ) && left == budgets.last()
}

proof fn a_draw_stays_within_its_bytes<T: Fn(&str, usize) -> (usize, usize)>(
    truncate: T,
    full: Seq<char>,
    budget: DiffBudget,
    out: DrawnView,
    left: DiffBudget,
)
    requires
        drawn(truncate, full, budget, out, left),
    ensures
        left.retained_bytes + left.remaining_bytes <= budget.retained_bytes
            + budget.remaining_bytes,
{
    if budget.remaining_bytes != 0 && budget.remaining_tokens != 0 {
        let admitted = longest_within(full, budget.remaining_bytes as nat);
        let cut = choose|cut: (usize, usize)|
            #[trigger] cut_said(truncate, admitted, budget.remaining_tokens, cut) && out
                == drawn_with(full, budget, cut) && left == spent_with(full, budget, cut);
        shorter_cut(full, budget.remaining_bytes as nat);
        shorter_cut(admitted, cut.0 as nat);
        crate::history::diff::the_longest_prefix_is_cut_once(admitted, cut.0 as nat);
        let emitted = longest_within(admitted, cut.0 as nat);
        assert(emitted =~= admitted.take(emitted.len() as int));
        assert(admitted.take(admitted.len() as int) =~= admitted);
        if emitted.len() < admitted.len() {
            crate::text::byte_len_grows(admitted, emitted.len() as int, admitted.len() as int);
        }
    }
}

proof fn a_target_stays_within_its_bytes<
    M: Fn(&str, &Vec<ParserSymbol>) -> Vec<bool>,
    K: Fn(
        &str,
        &str,
        &Option<ResolvedHistoricalSymbol>,
        &Option<ResolvedHistoricalSymbol>,
        bool,
    ) -> Option<DiffSymbolChange>,
    T: Fn(&str, usize) -> (usize, usize),
>(
    matches: M,
    classify: K,
    truncate: T,
    base: BatchView,
    head: BatchView,
    pair: PairView,
    index: usize,
    budget: DiffBudget,
    result: ResultView,
    left: DiffBudget,
)
    requires
        target_compared(
            matches,
            classify,
            truncate,
            base,
            head,
            pair,
            index,
            budget,
            Ok((result, left)),
        ),
    ensures
        left.retained_bytes + left.remaining_bytes <= budget.retained_bytes
            + budget.remaining_bytes,
{
    if left != budget {
        let outcome: Compared = Ok((result, left));
        let before = choose|before: Result<Option<ResolvedView>, Fault>|
            #[trigger] end_said(matches, base, pair.base.path, pair.base.symbol, before)
                && before is Ok && head_compared(
                matches,
                classify,
                truncate,
                base,
                head,
                pair,
                index,
                before->Ok_0,
                budget,
                outcome,
            );
        let old_end = before->Ok_0;
        let after = choose|after: Result<Option<ResolvedView>, Fault>|
            #[trigger] end_said(matches, head, pair.head().path, pair.head().symbol, after)
                && after is Ok && ends_compared(
                classify,
                truncate,
                base,
                head,
                pair,
                index,
                old_end,
                after->Ok_0,
                budget,
                result,
                left,
            );
        let new_end = after->Ok_0;
        let change = choose|change: Option<ChangeView>|
            #[trigger] change_said(
                classify,
                pair.base.path,
                pair.head().path,
                old_end,
                new_end,
                pair.renamed(),
                change,
            ) && change_drawn(
                truncate,
                base,
                head,
                pair,
                index,
                old_end,
                new_end,
                change,
                budget,
                result,
                left,
            );
        let full = difference(
            old_end,
            new_end,
            base.revision,
            pair.base.path,
            head.revision,
            pair.head().path,
        );
        let draw = choose|draw: DrawnView| #[trigger] drawn(truncate, full, budget, draw, left);
        a_draw_stays_within_its_bytes(truncate, full, budget, draw, left);
    }
}

/// However many targets are compared, the differences that a page keeps take no
/// more bytes than it had to give.
pub proof fn a_page_stays_within_its_bytes<
    M: Fn(&str, &Vec<ParserSymbol>) -> Vec<bool>,
    K: Fn(
        &str,
        &str,
        &Option<ResolvedHistoricalSymbol>,
        &Option<ResolvedHistoricalSymbol>,
        bool,
    ) -> Option<DiffSymbolChange>,
    T: Fn(&str, usize) -> (usize, usize),
>(
    matches: M,
    classify: K,
    truncate: T,
    base: BatchView,
    head: BatchView,
    targets: Seq<PairView>,
    from: usize,
    start: DiffBudget,
    results: Seq<ResultView>,
    budgets: Seq<DiffBudget>,
    upto: int,
)
    requires
        page_compared(
            matches,
            classify,
            truncate,
            base,
            head,
            targets,
            from,
            start,
            results,
            budgets,
        ),
        0 <= upto < budgets.len(),
    ensures
        budgets[upto].retained_bytes + budgets[upto].remaining_bytes <= start.retained_bytes
            + start.remaining_bytes,
    decreases upto,
{
    if upto > 0 {
        a_page_stays_within_its_bytes(
            matches,
            classify,
            truncate,
            base,
            head,
            targets,
            from,
            start,
            results,
            budgets,
            upto - 1,
        );
        let i = upto - 1;
        assert(target_compared(
            matches,
            classify,
            truncate,
            base,
            head,
            targets[from + i],
            (from + i) as usize,
            budgets[i],
            Ok((results[i], budgets[i + 1])),
        ));
        a_target_stays_within_its_bytes(
            matches,
            classify,
            truncate,
            base,
            head,
            targets[from + i],
            (from + i) as usize,
            budgets[i],
            results[i],
            budgets[i + 1],
        );
    }
}

/// Whether comparing a target after some others failed.
pub open spec fn page_failed<
    M: Fn(&str, &Vec<ParserSymbol>) -> Vec<bool>,
    K: Fn(
        &str,
        &str,
        &Option<ResolvedHistoricalSymbol>,
        &Option<ResolvedHistoricalSymbol>,
        bool,
    ) -> Option<DiffSymbolChange>,
    T: Fn(&str, usize) -> (usize, usize),
>(
    matches: M,
    classify: K,
    truncate: T,
    base: BatchView,
    head: BatchView,
    targets: Seq<PairView>,
    from: usize,
    to: usize,
    start: DiffBudget,
    fault: Fault,
) -> bool {
    exists|results: Seq<ResultView>, budgets: Seq<DiffBudget>|
        {
            &&& #[trigger] page_compared(
                matches,
                classify,
                truncate,
                base,
                head,
                targets,
                from,
                start,
                results,
                budgets,
            )
            &&& from + results.len() < to
            &&& target_compared(
                matches,
                classify,
                truncate,
                base,
                head,
                targets[from + results.len()],
                (from + results.len()) as usize,
                budgets.last(),
                Err(fault),
            )
        }
}

/// Compares the targets of a page.
pub(crate) fn compare_page<
    M: Fn(&str, &Vec<ParserSymbol>) -> Vec<bool>,
    K: Fn(
        &str,
        &str,
        &Option<ResolvedHistoricalSymbol>,
        &Option<ResolvedHistoricalSymbol>,
        bool,
    ) -> Option<DiffSymbolChange>,
    T: Fn(&str, usize) -> (usize, usize),
>(
    matches: &M,
    classify: &K,
    truncate: &T,
    base: &ParsedHistoricalBatch,
    head: &ParsedHistoricalBatch,
    targets: &Vec<ParsedDiffSymbolsTarget>,
    from: usize,
    to: usize,
    start: DiffBudget,
    cancellation: &CancellationToken,
) -> (r: Result<(Vec<DiffSymbolsResult>, DiffBudget), Error>)
    requires
        forall|text: &str, list: &Vec<ParserSymbol>| call_requires(*matches, (text, list)),
        classifies_all(*classify),
        cuts_all(*truncate),
        small_files(base@.files),
        small_files(head@.files),
        from <= to <= targets.len(),
    ensures
        r is Ok && from < to ==> answered(*cancellation, false),
        match r {
            Ok(done) => {
                &&& done.0@.len() == to - from
                &&& page_finished(
                    *matches,
                    *classify,
                    *truncate,
                    base@,
                    head@,
                    views(targets@),
                    from,
                    start,
                    views(done.0@),
                    done.1,
                )
            },
            Err(e) => stopped(e, *cancellation) || page_failed(
                *matches,
                *classify,
                *truncate,
                base@,
                head@,
                views(targets@),
                from,
                to,
                start,
                e@,
            ),
        },
{
    let ghost all = views(targets@);
    let ghost mut budgets: Seq<DiffBudget> = seq![start];
    let mut out: Vec<DiffSymbolsResult> = Vec::new();
    let mut left = start;
    let mut i: usize = from;
    while i < to
        invariant
            from <= i <= to <= targets.len(),
            all == views(targets@),
            forall|text: &str, list: &Vec<ParserSymbol>| call_requires(*matches, (text, list)),
            classifies_all(*classify),
            cuts_all(*truncate),
            small_files(base@.files),
            small_files(head@.files),
            out@.len() == i - from,
            views(out@).len() == i - from,
            page_compared(
                *matches,
                *classify,
                *truncate,
                base@,
                head@,
                all,
                from,
                start,
                views(out@),
                budgets,
            ),
            left == budgets.last(),
            i > from ==> answered(*cancellation, false),
        decreases to - i,
    {
        match check_cancelled(cancellation) {
            Ok(_) => {},
            Err(e) => {
                return Err(e);
            },
        }
        let compared = compare_target(
            matches,
            classify,
            truncate,
            base,
            head,
            &targets[i],
            i,
            left,
        );
        assert(all[from + views(out@).len()] == targets@[i as int]@);
        match compared {
            Ok((result, next)) => {
                let ghost earlier = budgets;
                let ghost before = views(out@);
                let ghost added = result@;
                out.push(result);
                left = next;
                proof {
                    budgets = budgets.push(next);
                    assert(views(out@) =~= before.push(added));
                    let results = views(out@);
                    assert forall|k: int| 0 <= k < results.len() implies #[trigger] target_compared(
                        *matches,
                        *classify,
                        *truncate,
                        base@,
                        head@,
                        all[from + k],
                        (from + k) as usize,
                        budgets[k],
                        Ok((results[k], budgets[k + 1])),
                    ) by {
                        if k < before.len() {
                            assert(target_compared(
                                *matches,
                                *classify,
                                *truncate,
                                base@,
                                head@,
                                all[from + k],
                                (from + k) as usize,
                                earlier[k],
                                Ok((before[k], earlier[k + 1])),
                            ));
                        }
                    }
                }
            },
            Err(e) => {
                return Err(e);
            },
        }
        i += 1;
    }
    assert(page_finished(
        *matches,
        *classify,
        *truncate,
        base@,
        head@,
        views(targets@),
        from,
        start,
        views(out@),
        left,
    ));
    Ok((out, left))
}

} // verus!
