//! What responses cost.

use crate::accounting::{
    budget_fault, counts, finalized, largest, reached, reserves, ReceiptResourceDecoration,
    ResponseTokenAccounting, Sizing,
};
use crate::context::diagnostics::{
    after_adaptive, after_locations, after_stored, counted, span, with_time, AdaptiveExcerptRequest,
    ContextPhaseTimings, ContextTimedPhase, FileLine, StoredExcerptRequest, TrackerView,
};
use crate::context::path_score::{language_points, registration_points};
use crate::context::response::coverage_warnings;
use crate::error::Fault;
use crate::model::ResponseMeta;
use crate::response::CoverageView;
use vstd::prelude::*;

verus! {

/// A response that is too large is refused with the ceiling that was given and the one
/// that is needed. Where what is needed is more than the response itself, the rest is
/// told as the reserve for a receipt.
pub proof fn a_refusal_names_what_is_needed(meta: ResponseMeta, provided: usize, minimum: usize)
    ensures
        budget_fault(meta, provided, minimum) matches Fault::ResponseBudgetExceeded {
            provided_max_response_tokens,
            minimum_required_response_tokens,
            retry_with_at_least,
            breakdown,
        } && {
            &&& provided_max_response_tokens == provided
            &&& minimum_required_response_tokens == minimum
            &&& retry_with_at_least == minimum
            &&& breakdown.mandatory_response_tokens == meta.total_response_tokens
            &&& breakdown.source_tokens == meta.source_tokens
            &&& breakdown.protocol_tokens == meta.protocol_tokens
            &&& breakdown.path_and_metadata_tokens == meta.path_and_metadata_tokens
            &&& minimum >= meta.total_response_tokens ==> breakdown.mandatory_response_tokens
                + breakdown.receipt_reserve_tokens == minimum
            &&& minimum < meta.total_response_tokens ==> breakdown.receipt_reserve_tokens == 0
        },
{
}

/// A response is sized with room for a receipt: with an identifier, the one that it has
/// or one as long as any, and with every fragment counted as held back and as near to
/// another.
pub proof fn room_is_kept_for_a_receipt(
    meta: ResponseMeta,
    returned_items: usize,
    sized: ResponseMeta,
)
    requires
        reserves(meta, returned_items, sized),
    ensures
        sized.receipt_id is Some,
        meta.receipt_id is Some ==> (sized.receipt_id->0)@ == (meta.receipt_id->0)@,
        meta.receipt_id is None ==> (sized.receipt_id->0)@
            == "rcpt_00000000000000000000000000000000"@,
        sized.receipt_suppressed_exact == returned_items,
        sized.receipt_suppressed_overlap == returned_items,
        sized.receipt_near_duplicates == returned_items,
        sized.source_tokens == meta.source_tokens,
        sized.repository_id == meta.repository_id,
{
}

/// A settled response changes nothing but its three counts, and counts no fewer tokens
/// than it was measured at with the counts before: either measuring gave those counts
/// back, or none of the measurements in turn was larger.
pub proof fn a_settled_response_counts_enough(
    said: Sizing,
    meta: ResponseMeta,
    decoration: ReceiptResourceDecoration,
    done: ResponseMeta,
)
    requires
        finalized(said, meta, decoration, done),
    ensures
        done.source_tokens == meta.source_tokens,
        done.receipt_id == meta.receipt_id,
        done.next_cursor == meta.next_cursor,
        done.repository_generation == meta.repository_generation,
        exists|observed: Seq<ResponseTokenAccounting>|
            {
                &&& #[trigger] reached(said, meta, decoration, observed, counts(done))
                &&& 1 <= observed.len() <= 64
                &&& observed.contains(counts(done))
                &&& observed.last() == counts(done) || forall|j: int|
                    0 <= j < observed.len() ==> (#[trigger] observed[j]).total_response_tokens
                        <= done.total_response_tokens
            },
{
    let observed = choose|observed: Seq<ResponseTokenAccounting>|
        #[trigger] reached(said, meta, decoration, observed, counts(done));
    if largest(observed, counts(done)) {
        let i = choose|i: int|
            {
                &&& 0 <= i < observed.len()
                &&& #[trigger] observed[i] == counts(done)
                &&& forall|j: int|
                    0 <= j < observed.len() ==> (#[trigger] observed[j]).total_response_tokens
                        <= counts(done).total_response_tokens && (j > i
                        ==> observed[j].total_response_tokens < counts(done).total_response_tokens)
            };
        assert(observed[i] == counts(done));
    } else {
        assert(observed[observed.len() - 1] == counts(done));
    }
}

/// The time of a phase is added to that phase and to no other, and the time from a
/// later instant to an earlier one is none.
pub proof fn time_is_added_to_its_phase(
    timings: ContextPhaseTimings,
    phase: ContextTimedPhase,
    more: u64,
    started: u64,
    ended: u64,
)
    ensures
        ({
            let out = with_time(timings, phase, more);
            &&& out.exact_symbol_lookup != timings.exact_symbol_lookup ==> phase is ExactSymbolLookup
            &&& out.symbol_search != timings.symbol_search ==> phase is SymbolSearch
            &&& out.reference_search != timings.reference_search ==> phase is ReferenceSearch
            &&& out.lexical_search != timings.lexical_search ==> phase is LexicalSearch
            &&& out.lexical_verify != timings.lexical_verify ==> phase is LexicalVerify
            &&& out.enclosing_lookup != timings.enclosing_lookup ==> phase is EnclosingLookup
            &&& out.adaptive_excerpt != timings.adaptive_excerpt ==> phase is AdaptiveExcerpt
            &&& out.stored_excerpt != timings.stored_excerpt ==> phase is StoredExcerpt
            &&& out.total == timings.total
            &&& phase is SymbolSearch && timings.symbol_search + more <= u64::MAX
                ==> out.symbol_search == timings.symbol_search + more
            &&& phase is ExactSymbolLookup && timings.exact_symbol_lookup + more <= u64::MAX
                ==> out.exact_symbol_lookup == timings.exact_symbol_lookup + more
            &&& phase is ReferenceSearch && timings.reference_search + more <= u64::MAX
                ==> out.reference_search == timings.reference_search + more
            &&& phase is LexicalSearch && timings.lexical_search + more <= u64::MAX
                ==> out.lexical_search == timings.lexical_search + more
            &&& phase is LexicalVerify && timings.lexical_verify + more <= u64::MAX
                ==> out.lexical_verify == timings.lexical_verify + more
            &&& phase is EnclosingLookup && timings.enclosing_lookup + more <= u64::MAX
                ==> out.enclosing_lookup == timings.enclosing_lookup + more
            &&& phase is AdaptiveExcerpt && timings.adaptive_excerpt + more <= u64::MAX
                ==> out.adaptive_excerpt == timings.adaptive_excerpt + more
            &&& phase is StoredExcerpt && timings.stored_excerpt + more <= u64::MAX
                ==> out.stored_excerpt == timings.stored_excerpt + more
        }),
        started <= ended ==> span(started, ended) == ended - started,
        started > ended ==> span(started, ended) == 0,
{
}

/// A tracker that is on counts every lookup and remembers each once; a batch counts
/// only where something is asked. One that is off stays as it is.
pub proof fn lookups_are_counted_where_tracked(
    tracker: TrackerView,
    places: Seq<FileLine>,
    adaptive: Seq<AdaptiveExcerptRequest>,
    stored: Seq<StoredExcerptRequest>,
)
    requires
        tracker.counters.enclosing_location_requests + places.len() <= usize::MAX,
        tracker.counters.adaptive_excerpt_requests + adaptive.len() <= usize::MAX,
        tracker.counters.stored_excerpt_requests + stored.len() <= usize::MAX,
        tracker.counters.enclosing_location_batches < usize::MAX,
        tracker.counters.adaptive_excerpt_batches < usize::MAX,
        tracker.counters.stored_excerpt_batches < usize::MAX,
    ensures
        !tracker.enabled ==> after_locations(tracker, places) == tracker && after_adaptive(
            tracker,
            adaptive,
        ) == tracker && after_stored(tracker, stored) == tracker,
        tracker.enabled ==> {
            let a = after_locations(tracker, places);
            let b = after_adaptive(tracker, adaptive);
            let c = after_stored(tracker, stored);
            &&& a.counters.enclosing_location_requests
                == tracker.counters.enclosing_location_requests + places.len()
            &&& a.counters.enclosing_location_batches - tracker.counters.enclosing_location_batches
                == if places.len() > 0 {
                1int
            } else {
                0
            }
            &&& a.primitive_keys.len() == tracker.primitive_keys.len() + places.len()
            &&& b.counters.adaptive_excerpt_requests == tracker.counters.adaptive_excerpt_requests
                + adaptive.len()
            &&& b.counters.adaptive_excerpt_batches - tracker.counters.adaptive_excerpt_batches
                == if adaptive.len() > 0 {
                1int
            } else {
                0
            }
            &&& b.primitive_keys.len() == tracker.primitive_keys.len() + adaptive.len()
            &&& c.counters.stored_excerpt_requests == tracker.counters.stored_excerpt_requests
                + stored.len()
            &&& c.counters.stored_excerpt_batches - tracker.counters.stored_excerpt_batches
                == if stored.len() > 0 {
                1int
            } else {
                0
            }
            &&& c.primitive_keys.len() == tracker.primitive_keys.len() + stored.len()
            &&& a.counters.stored_excerpt_requests == tracker.counters.stored_excerpt_requests
            &&& b.counters.stored_excerpt_requests == tracker.counters.stored_excerpt_requests
            &&& c.counters.adaptive_excerpt_requests == tracker.counters.adaptive_excerpt_requests
        },
{
}

/// A path counts twelve for a language that the task mentions and that it is written
/// in, and nothing for one of the two alone. Where registration is asked for, its code
/// counts fourteen and its tests eight.
pub proof fn languages_and_registration_count(mentioned: bool, written: bool, asked: bool, path: Seq<char>)
    ensures
        language_points(mentioned, written) == 12 <==> mentioned && written,
        language_points(mentioned, written) == 0 <==> !(mentioned && written),
        !asked ==> registration_points(asked, path) == 0,
        asked && path == "src/mcp.rs"@ ==> registration_points(asked, path) == 14,
        registration_points(asked, path) == 0 || registration_points(asked, path) == 8
            || registration_points(asked, path) == 14,
{
}

/// A response that covers everything that was asked for has no warning about coverage,
/// and one that does not has at least one.
pub proof fn coverage_warns_where_something_is_missing(coverage: CoverageView)
    ensures
        coverage_warnings(coverage).len() == 0 <==> {
            &&& coverage.uncovered_must_include_paths.len() == 0
            &&& coverage.uncovered_must_include_symbols.len() == 0
            &&& coverage.partial_must_include_symbols.len() == 0
            &&& coverage.unmatched_must_include_paths.len() == 0
            &&& coverage.unmatched_must_include_symbols.len() == 0
            &&& forall|i: int|
                0 <= i < coverage.required_evidence.len() ==> (
                #[trigger] coverage.required_evidence[i]).satisfied
                    && coverage.required_evidence[i].indexed_paths
                    <= coverage.required_evidence[i].inspected_paths
            &&& coverage.unmatched_focus_paths.len() == 0
            &&& coverage.unmatched_focus_symbols.len() == 0
            &&& coverage.unmatched_include_paths.len() == 0
            &&& forall|i: int|
                0 <= i < coverage.focus_path_coverage.len() ==> (
                #[trigger] coverage.focus_path_coverage[i]).satisfied
            &&& coverage.changed_path_coverage is Some ==> (
            coverage.changed_path_coverage->0).satisfied
        },
{
    let unmet = crate::context::response::unmet();
    let cut = crate::context::response::cut_short();
    let few = crate::context::response::underfilled();
    crate::lists::tally_bounds(coverage.required_evidence, unmet);
    crate::lists::tally_bounds(coverage.required_evidence, cut);
    crate::lists::tally_bounds(coverage.focus_path_coverage, few);
    assert forall|i: int| 0 <= i < coverage.required_evidence.len() implies (unmet(
        #[trigger] coverage.required_evidence[i],
    ) <==> !coverage.required_evidence[i].satisfied) && (cut(coverage.required_evidence[i])
        <==> coverage.required_evidence[i].indexed_paths
        > coverage.required_evidence[i].inspected_paths) by {}
    assert forall|i: int| 0 <= i < coverage.focus_path_coverage.len() implies (few(
        #[trigger] coverage.focus_path_coverage[i],
    ) <==> !coverage.focus_path_coverage[i].satisfied) by {}
}

} // verus!
