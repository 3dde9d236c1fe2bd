//! How symbols compare between two revisions.

use crate::change_receipt::ParserSymbol;
use crate::history::compare::{target_compared, target_reason, Compared, DiffBudget};
use crate::history::request::PairView;
use crate::history::revision::{BatchView, ResolvedHistoricalSymbol};
use crate::history::types::ResultView;
use crate::model::DiffSymbolChange;
use vstd::prelude::*;

verus! {

/// Whether the status of a result says how the two ends that it tells of relate: an
/// end that only the later revision has was added, one that only the earlier has was
/// removed, and one that neither has was not found.
pub open spec fn status_tells_ends(out: ResultView) -> bool {
    &&& out.status is Added <==> out.before is None && out.after is Some
    &&& out.status is Removed <==> out.before is Some && out.after is None
    &&& out.status is NotFound || out.status is Unavailable <==> out.before is None
        && out.after is None
    &&& out.status is Unchanged || out.status is Modified || out.status is Renamed
        <==> out.before is Some && out.after is Some
}

/// The status of every compared symbol tells its two ends: it is added exactly where
/// it has no earlier end and a later one, removed exactly where it has an earlier end
/// and no later one. Of a symbol with two ends it is renamed exactly where the target
/// names another path or symbol at the later revision, unchanged exactly where it is
/// not renamed and nothing changed in it, and modified otherwise.
pub proof fn the_status_tells_the_ends<
    M: Fn(&str, &Vec<ParserSymbol>) -> Vec<bool>,
    K: Fn(
        &str,
        &str,
        &Option<ResolvedHistoricalSymbol>,
        &Option<ResolvedHistoricalSymbol>,
        bool,
    ) -> Option<DiffSymbolChange>,
    T: Fn(&str, usize) -> (usize, usize),
>(
    matches: M,
    classify: K,
    truncate: T,
    base: BatchView,
    head: BatchView,
    pair: PairView,
    index: usize,
    budget: DiffBudget,
    outcome: Compared,
)
    requires
        target_compared(matches, classify, truncate, base, head, pair, index, budget, outcome),
        outcome is Ok,
    ensures
        ({
            let out = (outcome->Ok_0).0;
            let renamed = pair.given is Some && pair.given->0 != pair.base;
            &&& out.request_index == index
            &&& out.target.path == pair.base.path
            &&& out.target.symbol == pair.base.symbol
            &&& out.target.head_path is Some <==> pair.given is Some
            &&& pair.given is Some ==> out.target.head_path == Some((pair.given->0).path)
                && out.target.head_symbol == Some((pair.given->0).symbol)
            &&& status_tells_ends(out)
            &&& out.before is Some && out.after is Some ==> {
                &&& out.status is Renamed <==> renamed
                &&& out.status is Modified <==> !renamed && out.semantic_change is Some
                &&& out.status is Unchanged <==> !renamed && out.semantic_change is None
            }
            &&& out.status is Unchanged || out.status is NotFound || out.status is Unavailable ==> {
                &&& out.diff is None
                &&& !out.diff_truncated
                &&& out.incomplete_reason is None
                &&& (outcome->Ok_0).1 == budget
            }
            &&& out.diff_truncated <==> out.incomplete_reason is Some
            &&& out.diff_truncated ==> out.reason == Some("diff_truncated"@)
            &&& out.status is NotFound <==> out.reason == Some(
                "symbol_not_found_at_both_revisions"@,
            ) && !(out.status is Unavailable)
            &&& out.reason is None <==> !out.diff_truncated && !(out.status is NotFound) && !(
            out.status is Unavailable)
        }),
{
    reveal_strlit("diff_truncated");
    reveal_strlit("symbol_not_found_at_both_revisions");
    let out = (outcome->Ok_0).0;
    assert("diff_truncated"@.len() != "symbol_not_found_at_both_revisions"@.len());
    if target_reason(base, head, pair) is None {
        if !(out.status is Unavailable) {
        }
    }
}

} // verus!
