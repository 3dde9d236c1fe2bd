//! What a profile tells.

use crate::error::Error;
use crate::json::value::JsonValue;
use crate::json::view::JsonView;
use crate::ordered::{sorted_by, sorting_keeps_elements, sorting_orders, weak_order};
use crate::profile::{
    by_number, items_without_key, members_without_key, percentile_place, percentiles_of, recorded,
    resident_bytes, ticks_time, without_key, workload_in_turn, ScenarioTally, Workload,
};
use vstd::prelude::*;

verus! {

/// Six kinds of work come in turn: after six places the same one comes again, and not
/// before.
pub proof fn six_kinds_of_work_come_in_turn(a: usize, b: usize)
    ensures
        workload_in_turn(a) == workload_in_turn(b) <==> a % 6 == b % 6,
        a % 6 == 0 ==> workload_in_turn(a) is Files,
        a % 6 == 3 ==> workload_in_turn(a) is Context,
{
}

/// Percentiles are samples. The largest is no smaller than any sample; no more than half
/// of the samples are larger than the middle one, and no more than a twentieth larger
/// than the ninety-fifth.
pub proof fn percentiles_are_samples(samples: Seq<u64>, i: int)
    requires
        0 <= i < samples.len(),
        samples.len() * 100 <= usize::MAX,
    ensures
        percentiles_of(samples).samples == samples.len(),
        percentiles_of(samples).max matches Some(most) && samples.contains(most) && samples[i]
            <= most,
        percentiles_of(samples).p50 matches Some(middle) && samples.contains(middle),
        percentiles_of(samples).p95 matches Some(high) && samples.contains(high),
        percentiles_of(samples).p50->0 <= percentiles_of(samples).p95->0,
        percentiles_of(samples).p95->0 <= percentiles_of(samples).max->0,
        2 * (samples.len() - 1 - percentile_place(samples.len(), 50)) <= samples.len() - 1,
        20 * (samples.len() - 1 - percentile_place(samples.len(), 95)) <= samples.len() - 1,
        2 * percentile_place(samples.len(), 50) <= samples.len(),
        samples.len() == 1 ==> percentiles_of(samples).p50 == Some(samples[0]),
{
    let before = by_number();
    let sorted = sorted_by(samples, before);
    assert(weak_order(before));
    sorting_orders(samples, before);
    sorting_keeps_elements(samples, before);
    broadcast use vstd::seq_lib::group_to_multiset_ensures;

    let n = samples.len() as int;
    let p = percentile_place(samples.len(), 50);
    let q = percentile_place(samples.len(), 95);
    assert((n - 1) * 50 <= usize::MAX);
    assert((n - 1) * 95 <= usize::MAX);
    assert(0 <= p <= q <= n - 1);
    assert forall|k: int| 0 <= k < n implies samples.contains(#[trigger] sorted[k]) by {
        assert(sorted.contains(sorted[k]));
        assert(sorted.to_multiset().count(sorted[k]) > 0);
        assert(samples.to_multiset().count(sorted[k]) > 0);
    }
    assert(samples.contains(samples[i]));
    assert(samples.to_multiset().count(samples[i]) > 0);
    assert(sorted.to_multiset().count(samples[i]) > 0);
    assert(sorted.contains(samples[i]));
    let k = choose|k: int| 0 <= k < sorted.len() && sorted[k] == samples[i];
    if k < n - 1 {
        assert(!before(sorted[n - 1], sorted[k]));
    }
    if p < q {
        assert(!before(sorted[q], sorted[p]));
    }
    if q < n - 1 {
        assert(!before(sorted[n - 1], sorted[q]));
    }
    if n == 1 {
        assert(sorted[0] == samples[0] || samples.contains(sorted[0]));
    }
}

/// A time in ticks is told in thousandths of the rate, rounded down; a clock that goes
/// back tells none, and without both readings and a rate nothing is told.
pub proof fn ticks_tell_a_time(before: u64, after: u64, rate: nat)
    requires
        rate > 0,
    ensures
        before >= after ==> ticks_time(Some(before), Some(after), Some(rate)) == Some(0nat),
        before <= after && (after - before) * 1000 <= u64::MAX ==> (ticks_time(
            Some(before),
            Some(after),
            Some(rate),
        ) matches Some(time) && time * rate <= (after - before) * 1000 < (time + 1) * rate),
        ticks_time(None, Some(after), Some(rate)) is None,
        ticks_time(Some(before), None, Some(rate)) is None,
        ticks_time(Some(before), Some(after), None) is None,
        ticks_time(Some(before), Some(after), Some(0nat)) is None,
{
    let ticks: int = if after > before {
        (after - before) * 1000
    } else {
        0
    };
    let time = ticks / rate as int;
    assert(time >= 0 && rate * time <= ticks < rate * time + rate) by (nonlinear_arith)
        requires
            rate > 0,
            ticks >= 0,
            time == ticks / rate as int,
    ;
    assert(rate * time == time * rate) by (nonlinear_arith);
    assert((time + 1) * rate == time * rate + rate) by (nonlinear_arith);
    if ticks == 0 {
        assert(time == 0) by (nonlinear_arith)
            requires
                rate * time <= 0,
                rate > 0,
                time >= 0,
        ;
    }
    assert((time as nat) * rate == time * rate);
    assert((time as nat + 1) * rate == (time + 1) * rate);
}

/// Resident memory is told in bytes, by whole kibibytes.
pub proof fn memory_is_told_by_kibibytes(status: Seq<char>)
    ensures
        resident_bytes(status) matches Some(bytes) ==> bytes % 1024 == 0 && bytes <= u64::MAX,
{
    if let Some(bytes) = resident_bytes(status) {
        let kibibytes = bytes / 1024;
        assert((kibibytes * 1024) % 1024 == 0) by (nonlinear_arith);
    }
}

/// Every outcome of a request counts once: as a success, a cancellation, a refusal, a
/// timeout or an error. Only a success is held against the baseline, and that of a status
/// or of savings is not.
pub proof fn an_outcome_counts_once(
    tally: ScenarioTally,
    workload: Workload,
    result: Result<JsonValue, Error>,
    baseline: JsonView,
)
    requires
        tally.succeeded < u64::MAX,
        tally.cancelled < u64::MAX,
        tally.rejected < u64::MAX,
        tally.timed_out < u64::MAX,
        tally.errors < u64::MAX,
        tally.parity_checked < u64::MAX,
        tally.parity_mismatches < u64::MAX,
    ensures
        ({
            let out = recorded(tally, workload, result, baseline);
            &&& out.succeeded + out.cancelled + out.rejected + out.timed_out + out.errors
                == tally.succeeded + tally.cancelled + tally.rejected + tally.timed_out
                + tally.errors + 1
            &&& out.succeeded > tally.succeeded <==> result is Ok
            &&& out.cancelled > tally.cancelled <==> (result matches Err(e) && e is Cancelled)
            &&& out.rejected > tally.rejected <==> (result matches Err(
                e,
            ) && e is RetrievalOverloaded)
            &&& out.timed_out > tally.timed_out <==> (result matches Err(
                e,
            ) && e is RetrievalQueueTimeout)
            &&& out.parity_checked > tally.parity_checked <==> result is Ok && !(
            workload is Status) && !(workload is Savings)
            &&& out.parity_mismatches > tally.parity_mismatches ==> out.parity_checked
                > tally.parity_checked
            &&& out.parity_mismatches == tally.parity_mismatches && out.parity_checked
                > tally.parity_checked ==> without_key((result->Ok_0)@, "receipt_id"@) == baseline
        }),
{
}

/// Leaving a key out leaves no member of that name at the top of an object, keeps every
/// other name, and keeps the number of items of an array.
pub proof fn a_key_that_is_left_out_is_gone(
    members: Seq<(Seq<char>, JsonView)>,
    key: Seq<char>,
    upto: int,
)
    requires
        0 <= upto <= members.len(),
    ensures
        forall|i: int|
            0 <= i < members_without_key(members, key, upto).len() ==> (
            #[trigger] members_without_key(members, key, upto)[i]).0 != key,
        forall|k: int|
            0 <= k < upto && (#[trigger] members[k]).0 != key ==> members_without_key(
                members,
                key,
                upto,
            ).contains((members[k].0, without_key(members[k].1, key))),
    decreases upto,
{
    if upto > 0 {
        a_key_that_is_left_out_is_gone(members, key, upto - 1);
        let before = members_without_key(members, key, upto - 1);
        let out = members_without_key(members, key, upto);
        assert forall|k: int| 0 <= k < upto && (#[trigger] members[k]).0 != key implies
            out.contains((members[k].0, without_key(members[k].1, key))) by {
            let kept = (members[k].0, without_key(members[k].1, key));
            if k < upto - 1 {
                assert(before.contains(kept));
                let n = choose|n: int| 0 <= n < before.len() && before[n] == kept;
                assert(out[n] == kept);
            } else {
                assert(out[out.len() - 1] == kept);
            }
        }
    }
}

/// Leaving a key out keeps the number of items of an array, each without that key.
pub proof fn items_keep_their_places(items: Seq<JsonView>, key: Seq<char>, upto: int, i: int)
    requires
        0 <= i < upto <= items.len(),
    ensures
        items_without_key(items, key, upto).len() == upto,
        items_without_key(items, key, upto)[i] == without_key(items[i], key),
    decreases upto,
{
    if i < upto - 1 {
        items_keep_their_places(items, key, upto - 1, i);
    } else if upto > 1 {
        items_keep_their_places(items, key, upto - 1, 0);
    } else {
        assert(items_without_key(items, key, 0).len() == 0);
    }
}

} // verus!
