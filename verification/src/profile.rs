//! What a concurrency profile measures: which work runs when, what came of it,
//! and how long it took.

use crate::error::Error;
use crate::json::pointer::{find_pointer, pointed};
use crate::json::value::JsonValue;
use crate::json::view::{
    item_views, item_views_are, item_views_push, json_view, member_views, member_views_are,
    member_views_push, JsonView,
};
use crate::model::ContextRequest;
use crate::ordered::{sort_by, sorted_by, sorting_keeps_elements, sorting_orders, views};
use crate::text::{
    appended, chars_at, chars_of, copy_text, decimal, decimal_text, lines_of, number_of,
    parse_number, same_text, stands_at, strip_text, stripped, text_lines, text_of, texts, words,
    words_of,
};
use vstd::prelude::*;

verus! {

/// A kind of work.
#[derive(Debug, Clone, Copy, PartialEq, Eq, Structural)]
pub enum Workload {
    Files,
    Search,
    Read,
    Context,
    Status,
    Savings,
}

/// What happens while work runs.
#[derive(Debug, Clone, Copy, PartialEq, Eq, Structural)]
pub enum Scenario {
    Mixed,
    CancellationStorm,
    ConcurrentIndexing,
}

/// The kind of work at a place. The kinds take turns.
pub open spec fn workload_in_turn(place: usize) -> Workload {
    match place % 6usize {
        0 => Workload::Files,
        1 => Workload::Search,
        2 => Workload::Read,
        3 => Workload::Context,
        4 => Workload::Status,
        _ => Workload::Savings,
    }
}

/// The kind of work at a place.
pub fn workload_at(place: usize) -> (r: Workload)
    ensures
        r == workload_in_turn(place),
{
    match place % 6 {
        0 => Workload::Files,
        1 => Workload::Search,
        2 => Workload::Read,
        3 => Workload::Context,
        4 => Workload::Status,
        _ => Workload::Savings,
    }
}

/// Whether answers to a kind of work are compared.
pub fn parity_workload(workload: Workload) -> (r: bool)
    ensures
        r == (workload != Workload::Status && workload != Workload::Savings),
{
    match workload {
        Workload::Files => true,
        Workload::Search => true,
        Workload::Read => true,
        Workload::Context => true,
        _ => false,
    }
}

/// How many requests a scenario makes.
pub fn request_count(concurrency: usize) -> (r: usize)
    ensures
        r == if 2 * concurrency < 8 {
            8
        } else if 2 * concurrency > usize::MAX {
            usize::MAX as int
        } else {
            2 * concurrency
        },
{
    let twice: usize = concurrency.saturating_add(concurrency);
    if twice < 8 {
        8
    } else {
        twice
    }
}

/// How many requests start together, and how many wait for the start: they, who
/// starts them, and the indexing that runs beside the first of them.
pub fn wave_size(concurrency: usize, requests: usize, next_request: usize, scenario: Scenario) -> (r: (
    usize,
    usize,
))
    requires
        next_request <= requests,
        requests <= usize::MAX - 2,
    ensures
        r.0 == if concurrency < requests - next_request {
            concurrency as int
        } else {
            requests - next_request
        },
        r.1 == r.0 + if scenario == Scenario::ConcurrentIndexing && next_request == 0 {
            2int
        } else {
            1
        },
{
    let left: usize = requests - next_request;
    let size: usize = if concurrency < left {
        concurrency
    } else {
        left
    };
    if scenario == Scenario::ConcurrentIndexing && next_request == 0 {
        (size, size + 2)
    } else {
        (size, size + 1)
    }
}

/// Whether a request is cancelled: every third in a storm.
pub fn request_cancelled(scenario: Scenario, place: usize) -> (r: bool)
    ensures
        r == (scenario == Scenario::CancellationStorm && place % 3 == 0),
{
    scenario == Scenario::CancellationStorm && place % 3 == 0
}

/// How long things took.
#[derive(Debug, Clone, Copy, PartialEq, Eq, Structural)]
pub struct Percentiles {
    pub samples: usize,
    pub p50: Option<u64>,
    pub p95: Option<u64>,
    pub max: Option<u64>,
}

/// The smaller number first.
pub open spec fn by_number() -> spec_fn(u64, u64) -> bool {
    |a: u64, b: u64| a < b
}

/// Where the sample stands that a percentage of the others are not above.
pub open spec fn percentile_place(samples: nat, percentile: int) -> int {
    let product = (samples - 1) * percentile;
    ((if product > usize::MAX {
        usize::MAX as int
    } else {
        product
    }) + 99) / 100
}

fn number_precedes(a: &u64, b: &u64) -> (r: bool)
    ensures
        r == by_number()(a@, b@),
{
    *a < *b
}

/// The sample that a percentage of the others are not above.
pub fn percentile(samples: &Vec<u64>, share: usize) -> (r: u64)
    requires
        samples.len() > 0,
        share <= 100,
    ensures
        r == samples@[percentile_place(samples@.len(), share as int)],
        0 <= percentile_place(samples@.len(), share as int) < samples@.len(),
{
    let last: usize = samples.len() - 1;
    assert(0 <= last * share <= last * 100) by (nonlinear_arith)
        requires
            0 <= share <= 100,
            0 <= last,
    ;
    let product: usize = match last.checked_mul(share) {
        Some(product) => product,
        None => usize::MAX,
    };
    let mut index: usize = product / 100;
    if product % 100 > 0 {
        index = index + 1;
    }
    assert(index == percentile_place(samples@.len(), share as int));
    samples[index]
}

/// How long things took, by samples in their order.
pub open spec fn percentiles_of(samples: Seq<u64>) -> Percentiles {
    let sorted = sorted_by(samples, by_number());
    if samples.len() == 0 {
        Percentiles { samples: 0, p50: None, p95: None, max: None }
    } else {
        Percentiles {
            samples: samples.len() as usize,
            p50: Some(sorted[percentile_place(samples.len(), 50)]),
            p95: Some(sorted[percentile_place(samples.len(), 95)]),
            max: Some(sorted[samples.len() - 1]),
        }
    }
}

/// How long things took.
pub fn percentiles(samples: Vec<u64>) -> (r: Percentiles)
    ensures
        r == percentiles_of(samples@),
{
    let count: usize = samples.len();
    if count == 0 {
        return Percentiles { samples: 0, p50: None, p95: None, max: None };
    }
    let ghost given = samples@;
    assert(views(samples@) =~= given);
    let sorted = sort_by(samples, number_precedes, Ghost(by_number()));
    proof {
        sorting_keeps_elements(given, by_number());
        assert(views(sorted@) =~= sorted@);
        assert(sorted@.len() == given.len());
    }
    Percentiles {
        samples: count,
        p50: Some(percentile(&sorted, 50)),
        p95: Some(percentile(&sorted, 95)),
        max: Some(sorted[count - 1]),
    }
}

/// The figures of samples are in order, and no sample is above the largest.
pub proof fn percentiles_are_in_order(samples: Seq<u64>)
    requires
        samples.len() > 0,
    ensures
        percentiles_of(samples).p50->0 <= percentiles_of(samples).p95->0
            <= percentiles_of(samples).max->0,
        forall|i: int|
            0 <= i < samples.len() ==> #[trigger] samples[i] <= percentiles_of(samples).max->0,
{
    let sorted = sorted_by(samples, by_number());
    sorting_orders(samples, by_number());
    sorting_keeps_elements(samples, by_number());
    let a = percentile_place(samples.len(), 50);
    let b = percentile_place(samples.len(), 95);
    let c = samples.len() - 1;
    assert(0 <= a <= b <= c);
    assert(!by_number()(sorted[b], sorted[a]));
    assert(!by_number()(sorted[c], sorted[b]));
    assert forall|i: int| 0 <= i < samples.len() implies #[trigger] samples[i] <= sorted[c] by {
        assert(samples.contains(samples[i]));
        assert(samples.to_multiset().count(samples[i]) > 0) by {
            samples.to_multiset_ensures();
        }
        assert(sorted.contains(samples[i])) by {
            sorted.to_multiset_ensures();
        }
        let k = sorted.index_of(samples[i]);
        assert(!by_number()(sorted[c], sorted[k]));
    }
}

/// The larger of two numbers, where there are any.
pub fn max_option(left: Option<u64>, right: Option<u64>) -> (r: Option<u64>)
    ensures
        r == match (left, right) {
            (Some(a), Some(b)) => Some(
                if a < b {
                    b
                } else {
                    a
                },
            ),
            (Some(a), None) => Some(a),
            (None, b) => b,
        },
{
    match (left, right) {
        (Some(a), Some(b)) => if a < b {
            Some(b)
        } else {
            Some(a)
        },
        (Some(a), None) => Some(a),
        (None, b) => b,
    }
}

/// Microseconds, as far as the number goes.
pub fn duration_micros(micros: u128) -> (r: u64)
    ensures
        r == if micros > u64::MAX {
            u64::MAX as u128
        } else {
            micros
        },
{
    if micros > u64::MAX as u128 {
        u64::MAX
    } else {
        micros as u64
    }
}

/// The milliseconds between two numbers of ticks.
pub open spec fn ticks_time(before: Option<u64>, after: Option<u64>, rate: Option<nat>) -> Option<
    nat,
> {
    match (before, after, rate) {
        (Some(before), Some(after), Some(rate)) => {
            let ticks = if after > before {
                after - before
            } else {
                0
            };
            if ticks * 1000 > u64::MAX || rate == 0 {
                None
            } else {
                Some(((ticks * 1000) / rate as int) as nat)
            }
        },
        _ => None,
    }
}

/// The milliseconds between two numbers of ticks, by the text of how many ticks a
/// second has.
pub fn cpu_milliseconds(before: Option<u64>, after: Option<u64>, ticks_per_second: &str) -> (r: Option<
    u64,
>)
    ensures
        ticks_time(before, after, number_of(ticks_per_second@, u64::MAX as nat)) == match r {
            Some(time) => Some(time as nat),
            None => None,
        },
{
    let rate: u64 = match parse_number(ticks_per_second, u64::MAX) {
        Some(rate) => rate,
        None => {
            return None;
        },
    };
    match (before, after) {
        (Some(before), Some(after)) => {
            let ticks: u64 = after.saturating_sub(before);
            match ticks.checked_mul(1000) {
                Some(scaled) => if rate == 0 {
                    None
                } else {
                    Some(scaled / rate)
                },
                None => None,
            }
        },
        _ => None,
    }
}

/// What stands behind a prefix in the first line that has it, from a place on.
pub open spec fn first_behind(lines: Seq<Seq<char>>, prefix: Seq<char>, from: int) -> Option<
    Seq<char>,
>
    decreases lines.len() - from,
{
    if from < 0 || from >= lines.len() {
        None
    } else {
        match stripped(lines[from], prefix) {
            Some(rest) => Some(rest),
            None => first_behind(lines, prefix, from + 1),
        }
    }
}

/// The bytes of memory that a process status tells of, in kibibytes.
pub open spec fn resident_bytes(status: Seq<char>) -> Option<nat> {
    match first_behind(text_lines(status), "VmRSS:"@, 0) {
        Some(rest) => if words(rest).len() == 0 {
            None
        } else {
            match number_of(words(rest)[0], u64::MAX as nat) {
                Some(kibibytes) => if kibibytes * 1024 > u64::MAX {
                    None
                } else {
                    Some(kibibytes * 1024)
                },
                None => None,
            }
        },
        None => None,
    }
}

fn line_behind(lines: &Vec<String>, prefix: &str) -> (r: Option<String>)
    ensures
        first_behind(texts(lines@), prefix@, 0) == match r {
            Some(rest) => Some(rest@),
            None => None,
        },
{
    let ghost all = texts(lines@);
    let mut i: usize = 0;
    while i < lines.len()
        invariant
            i <= lines.len(),
            all == texts(lines@),
            first_behind(all, prefix@, 0) == first_behind(all, prefix@, i as int),
        decreases lines.len() - i,
    {
        assert(all[i as int] == lines@[i as int]@);
        if let Some(rest) = strip_text(lines[i].as_str(), prefix) {
            return Some(rest);
        }
        i += 1;
    }
    None
}

/// The bytes of memory that a process status tells of.
pub fn process_rss_bytes(status: &str) -> (r: Option<u64>)
    ensures
        resident_bytes(status@) == match r {
            Some(bytes) => Some(bytes as nat),
            None => None,
        },
{
    let lines = lines_of(status);
    let rest = match line_behind(&lines, "VmRSS:") {
        Some(rest) => rest,
        None => {
            return None;
        },
    };
    let list = words_of(rest.as_str());
    assert(texts(list@).len() == list@.len());
    if list.len() == 0 {
        return None;
    }
    assert(texts(list@)[0] == list@[0]@);
    match parse_number(list[0].as_str(), u64::MAX) {
        Some(kibibytes) => kibibytes.checked_mul(1024),
        None => None,
    }
}

/// Where a text occurs last, from a place backwards.
pub open spec fn last_at(hay: Seq<char>, needle: Seq<char>, from: int) -> Option<int>
    decreases from + 1,
{
    if from < 0 {
        None
    } else if stands_at(hay, needle, from) {
        Some(from)
    } else {
        last_at(hay, needle, from - 1)
    }
}

/// The ticks that a process statistic tells of: user and system time, behind the
/// name in brackets.
pub open spec fn ticks_told(stat: Seq<char>) -> Option<nat> {
    match last_at(stat, ") "@, stat.len() as int) {
        Some(at) => {
            let fields = words(stat.subrange(at + ") "@.len(), stat.len() as int));
            if fields.len() < 13 {
                None
            } else {
                match (
                    number_of(fields[11], u64::MAX as nat),
                    number_of(fields[12], u64::MAX as nat),
                ) {
                    (Some(user), Some(system)) => if user + system > u64::MAX {
                        None
                    } else {
                        Some(user + system)
                    },
                    _ => None,
                }
            }
        },
        None => None,
    }
}

fn behind_last(s: &str, needle: &str) -> (r: Option<String>)
    ensures
        match (r, last_at(s@, needle@, s@.len() as int)) {
            (Some(rest), Some(at)) => 0 <= at && at + needle@.len() <= s@.len() && rest@
                == s@.subrange(at + needle@.len(), s@.len() as int),
            (None, None) => true,
            _ => false,
        },
{
    let chars = chars_of(s);
    let find = chars_of(needle);
    let mut i: usize = chars.len();
    loop
        invariant
            i <= chars.len(),
            chars@ == s@,
            find@ == needle@,
            last_at(s@, needle@, s@.len() as int) == last_at(s@, needle@, i as int),
        decreases i,
    {
        if chars_at(&chars, &find, i) {
            assert(last_at(s@, needle@, i as int) == Some(i as int));
            let end: usize = i + find.len();
            return Some(text_of(chars.as_slice(), end, chars.len()));
        }
        if i == 0 {
            assert(last_at(s@, needle@, -1) is None);
            return None;
        }
        i = i - 1;
    }
}

/// The ticks that a process statistic tells of.
pub fn process_cpu_ticks(stat: &str) -> (r: Option<u64>)
    ensures
        ticks_told(stat@) == match r {
            Some(ticks) => Some(ticks as nat),
            None => None,
        },
{
    let rest = match behind_last(stat, ") ") {
        Some(rest) => rest,
        None => {
            return None;
        },
    };
    let fields = words_of(rest.as_str());
    assert(texts(fields@).len() == fields@.len());
    if fields.len() < 13 {
        return None;
    }
    assert(texts(fields@)[11] == fields@[11]@);
    assert(texts(fields@)[12] == fields@[12]@);
    let user = parse_number(fields[11].as_str(), u64::MAX);
    let system = parse_number(fields[12].as_str(), u64::MAX);
    match (user, system) {
        (Some(user), Some(system)) => user.checked_add(system),
        _ => None,
    }
}

/// A value without the members that have a key, at every depth.
pub open spec fn without_key(value: JsonView, key: Seq<char>) -> JsonView
    decreases value, 1int,
{
    match value {
        JsonView::Array(items) => JsonView::Array(
            items_without_key(items, key, items.len() as int),
        ),
        JsonView::Object(members) => JsonView::Object(
            members_without_key(members, key, members.len() as int),
        ),
        _ => value,
    }
}

/// The first `upto` items without the members that have a key.
pub open spec fn items_without_key(items: Seq<JsonView>, key: Seq<char>, upto: int) -> Seq<JsonView>
    decreases items, upto,
{
    if upto <= 0 || upto > items.len() {
        Seq::empty()
    } else {
        items_without_key(items, key, upto - 1).push(without_key(items[upto - 1], key))
    }
}

/// The first `upto` members without those that have a key.
pub open spec fn members_without_key(
    members: Seq<(Seq<char>, JsonView)>,
    key: Seq<char>,
    upto: int,
) -> Seq<(Seq<char>, JsonView)>
    decreases members, upto,
{
    if upto <= 0 || upto > members.len() {
        Seq::empty()
    } else {
        let before = members_without_key(members, key, upto - 1);
        if members[upto - 1].0 == key {
            before
        } else {
            before.push((members[upto - 1].0, without_key(members[upto - 1].1, key)))
        }
    }
}

/// A value without the members that have a key, at every depth.
pub fn remove_key_recursively(value: &JsonValue, key: &str) -> (r: JsonValue)
    ensures
        r@ == without_key(value@, key@),
    decreases value, 1int,
{
    match value {
        JsonValue::Array(items) => JsonValue::Array(remove_from_items(items, key)),
        JsonValue::Object(members) => JsonValue::Object(remove_from_members(members, key)),
        _ => value.duplicate(),
    }
}

fn remove_from_items(items: &Vec<JsonValue>, key: &str) -> (r: Vec<JsonValue>)
    ensures
        item_views(r@) == items_without_key(
            item_views(items@),
            key@,
            item_views(items@).len() as int,
        ),
    decreases items, 0int,
{
    let ghost all = item_views(items@);
    proof {
        item_views_are(items@);
    }
    let mut out: Vec<JsonValue> = Vec::new();
    let mut i: usize = 0;
    assert(item_views(out@) =~= items_without_key(all, key@, 0));
    while i < items.len()
        invariant
            i <= items.len(),
            all.len() == items@.len(),
            forall|k: int| 0 <= k < all.len() ==> #[trigger] all[k] == json_view(items@[k]),
            item_views(out@) == items_without_key(all, key@, i as int),
        decreases items.len() - i,
    {
        assert(all[i as int] == json_view(items@[i as int]));
        let ghost before = out@;
        let kept = remove_key_recursively(&items[i], key);
        let ghost added = kept;
        out.push(kept);
        proof {
            item_views_push(before, added);
        }
        i += 1;
    }
    out
}

fn remove_from_members(members: &Vec<(String, JsonValue)>, key: &str) -> (r: Vec<
    (String, JsonValue),
>)
    ensures
        member_views(r@) == members_without_key(
            member_views(members@),
            key@,
            member_views(members@).len() as int,
        ),
    decreases members, 0int,
{
    let ghost all = member_views(members@);
    proof {
        member_views_are(members@);
    }
    let mut out: Vec<(String, JsonValue)> = Vec::new();
    let mut i: usize = 0;
    assert(member_views(out@) =~= members_without_key(all, key@, 0));
    while i < members.len()
        invariant
            i <= members.len(),
            all.len() == members@.len(),
            forall|k: int|
                0 <= k < all.len() ==> #[trigger] all[k] == (
                    members@[k].0@,
                    json_view(members@[k].1),
                ),
            member_views(out@) == members_without_key(all, key@, i as int),
        decreases members.len() - i,
    {
        let member = &members[i];
        assert(all[i as int] == (member.0@, json_view(member.1)));
        if !same_text(member.0.as_str(), key) {
            let ghost before = out@;
            let kept = (member.0.clone(), remove_key_recursively(&member.1, key));
            let ghost added = kept;
            out.push(kept);
            proof {
                member_views_push(before, added);
            }
        }
        i += 1;
    }
    out
}

/// An answer without what differs from one request to the next.
pub fn normalize_response(value: &JsonValue) -> (r: JsonValue)
    ensures
        r@ == without_key(value@, "receipt_id"@),
{
    remove_key_recursively(value, "receipt_id")
}

/// Arrays with those of a value, the outer ones first.
pub open spec fn arrays_of(value: JsonView, before: Seq<JsonView>) -> Seq<JsonView>
    decreases value, 1int,
{
    match value {
        JsonView::Array(items) => arrays_of_items(items, before.push(value), items.len() as int),
        JsonView::Object(members) => arrays_of_members(members, before, members.len() as int),
        _ => before,
    }
}

/// Arrays with those of the first `upto` items.
pub open spec fn arrays_of_items(items: Seq<JsonView>, before: Seq<JsonView>, upto: int) -> Seq<
    JsonView,
>
    decreases items, upto,
{
    if upto <= 0 || upto > items.len() {
        before
    } else {
        arrays_of(items[upto - 1], arrays_of_items(items, before, upto - 1))
    }
}

/// Arrays with those of the first `upto` members.
pub open spec fn arrays_of_members(
    members: Seq<(Seq<char>, JsonView)>,
    before: Seq<JsonView>,
    upto: int,
) -> Seq<JsonView>
    decreases members, upto,
{
    if upto <= 0 || upto > members.len() {
        before
    } else {
        arrays_of(members[upto - 1].1, arrays_of_members(members, before, upto - 1))
    }
}

/// Adds the arrays of a value, the outer ones first.
pub fn collect_arrays(value: &JsonValue, arrays: &mut Vec<JsonValue>)
    ensures
        item_views(final(arrays)@) == arrays_of(value@, item_views(old(arrays)@)),
    decreases value, 1int,
{
    match value {
        JsonValue::Array(items) => {
            let copy = value.duplicate();
            let ghost before = arrays@;
            let ghost added = copy;
            arrays.push(copy);
            proof {
                item_views_push(before, added);
            }
            collect_item_arrays(items, arrays);
        },
        JsonValue::Object(members) => {
            collect_member_arrays(members, arrays);
        },
        _ => {},
    }
}

fn collect_item_arrays(items: &Vec<JsonValue>, arrays: &mut Vec<JsonValue>)
    ensures
        item_views(final(arrays)@) == arrays_of_items(
            item_views(items@),
            item_views(old(arrays)@),
            item_views(items@).len() as int,
        ),
    decreases items, 0int,
{
    let ghost start = item_views(arrays@);
    let ghost all = item_views(items@);
    proof {
        item_views_are(items@);
    }
    let mut i: usize = 0;
    while i < items.len()
        invariant
            i <= items.len(),
            all.len() == items@.len(),
            forall|k: int| 0 <= k < all.len() ==> #[trigger] all[k] == json_view(items@[k]),
            item_views(arrays@) == arrays_of_items(all, start, i as int),
        decreases items.len() - i,
    {
        assert(all[i as int] == json_view(items@[i as int]));
        collect_arrays(&items[i], arrays);
        i += 1;
    }
}

fn collect_member_arrays(members: &Vec<(String, JsonValue)>, arrays: &mut Vec<JsonValue>)
    ensures
        item_views(final(arrays)@) == arrays_of_members(
            member_views(members@),
            item_views(old(arrays)@),
            member_views(members@).len() as int,
        ),
    decreases members, 0int,
{
    let ghost start = item_views(arrays@);
    let ghost all = member_views(members@);
    proof {
        member_views_are(members@);
    }
    let mut i: usize = 0;
    while i < members.len()
        invariant
            i <= members.len(),
            all.len() == members@.len(),
            forall|k: int|
                0 <= k < all.len() ==> #[trigger] all[k] == (
                    members@[k].0@,
                    json_view(members@[k].1),
                ),
            item_views(arrays@) == arrays_of_members(all, start, i as int),
        decreases members.len() - i,
    {
        let member = &members[i];
        assert(all[i as int] == (member.0@, json_view(member.1)));
        collect_arrays(&member.1, arrays);
        i += 1;
    }
}

/// The arrays of a value, the outer ones first.
pub fn ordered_arrays(value: &JsonValue) -> (r: JsonValue)
    ensures
        r@ == JsonView::Array(arrays_of(value@, Seq::empty())),
{
    let mut arrays: Vec<JsonValue> = Vec::new();
    assert(item_views(arrays@) =~= Seq::<JsonView>::empty());
    collect_arrays(value, &mut arrays);
    JsonValue::Array(arrays)
}

/// Whether two values differ at a pointer.
pub fn differ_at(left: &JsonValue, right: &JsonValue, pointer: &str) -> (r: bool)
    ensures
        r == (pointed(left@, pointer@) != pointed(right@, pointer@)),
{
    match (find_pointer(left, pointer), find_pointer(right, pointer)) {
        (Some(a), Some(b)) => !a.same(b),
        (None, None) => false,
        _ => true,
    }
}

/// What an answer tells of its tokens.
pub open spec fn accounting_told(value: JsonView) -> Seq<Option<JsonView>> {
    seq![
        pointed(value, "/meta/source_tokens"@),
        pointed(value, "/meta/total_response_tokens"@),
        pointed(value, "/meta/token_count_exact"@),
        pointed(value, "/meta/tokenizer"@),
    ]
}

/// Whether two answers tell different things of their tokens.
pub fn token_accounting_differs(left: &JsonValue, right: &JsonValue) -> (r: bool)
    ensures
        r == (accounting_told(left@) != accounting_told(right@)),
{
    let one = differ_at(left, right, "/meta/source_tokens");
    let two = differ_at(left, right, "/meta/total_response_tokens");
    let three = differ_at(left, right, "/meta/token_count_exact");
    let four = differ_at(left, right, "/meta/tokenizer");
    proof {
        let a = accounting_told(left@);
        let b = accounting_told(right@);
        assert(a[0] == pointed(left@, "/meta/source_tokens"@));
        assert(b[0] == pointed(right@, "/meta/source_tokens"@));
        assert(a[1] == pointed(left@, "/meta/total_response_tokens"@));
        assert(b[1] == pointed(right@, "/meta/total_response_tokens"@));
        assert(a[2] == pointed(left@, "/meta/token_count_exact"@));
        assert(b[2] == pointed(right@, "/meta/token_count_exact"@));
        assert(a[3] == pointed(left@, "/meta/tokenizer"@));
        assert(b[3] == pointed(right@, "/meta/tokenizer"@));
        if !one && !two && !three && !four {
            assert(a =~= b);
        }
    }
    one || two || three || four
}

/// What came of the requests of a scenario.
#[derive(Debug, Clone, Copy, PartialEq, Eq, Structural)]
pub struct ScenarioTally {
    pub succeeded: u64,
    pub cancelled: u64,
    pub rejected: u64,
    pub timed_out: u64,
    pub errors: u64,
    pub parity_checked: u64,
    pub parity_mismatches: u64,
    pub order_mismatches: u64,
    pub generation_mismatches: u64,
    pub token_accounting_mismatches: u64,
}

/// One more where it is so, and where there is a larger number.
pub open spec fn more_if(count: u64, so: bool) -> u64 {
    if so && count < u64::MAX {
        (count + 1) as u64
    } else {
        count
    }
}

fn raise(count: u64, so: bool) -> (r: u64)
    ensures
        r == more_if(count, so),
{
    if so {
        count.saturating_add(1)
    } else {
        count
    }
}

/// A tally with what came of one more request. An answer that can be compared is
/// compared with the one that the same work had before.
pub open spec fn recorded(
    tally: ScenarioTally,
    workload: Workload,
    result: Result<JsonValue, Error>,
    baseline: JsonView,
) -> ScenarioTally {
    match result {
        Ok(response) => {
            let compared = workload != Workload::Status && workload != Workload::Savings;
            let normalized = without_key(response@, "receipt_id"@);
            ScenarioTally {
                succeeded: more_if(tally.succeeded, true),
                parity_checked: more_if(tally.parity_checked, compared),
                parity_mismatches: more_if(
                    tally.parity_mismatches,
                    compared && normalized != baseline,
                ),
                order_mismatches: more_if(
                    tally.order_mismatches,
                    compared && arrays_of(normalized, Seq::empty()) != arrays_of(
                        baseline,
                        Seq::empty(),
                    ),
                ),
                generation_mismatches: more_if(
                    tally.generation_mismatches,
                    compared && pointed(normalized, "/meta/repository_generation"@) != pointed(
                        baseline,
                        "/meta/repository_generation"@,
                    ),
                ),
                token_accounting_mismatches: more_if(
                    tally.token_accounting_mismatches,
                    compared && accounting_told(normalized) != accounting_told(baseline),
                ),
                ..tally
            }
        },
        Err(Error::Cancelled) => ScenarioTally {
            cancelled: more_if(tally.cancelled, true),
            ..tally
        },
        Err(Error::RetrievalOverloaded) => ScenarioTally {
            rejected: more_if(tally.rejected, true),
            ..tally
        },
        Err(Error::RetrievalQueueTimeout) => ScenarioTally {
            timed_out: more_if(tally.timed_out, true),
            ..tally
        },
        Err(_) => ScenarioTally { errors: more_if(tally.errors, true), ..tally },
    }
}

impl ScenarioTally {
    /// Nothing came yet.
    pub fn new() -> (r: ScenarioTally)
        ensures
            r == (ScenarioTally {
                succeeded: 0,
                cancelled: 0,
                rejected: 0,
                timed_out: 0,
                errors: 0,
                parity_checked: 0,
                parity_mismatches: 0,
                order_mismatches: 0,
                generation_mismatches: 0,
                token_accounting_mismatches: 0,
            }),
    {
        ScenarioTally {
            succeeded: 0,
            cancelled: 0,
            rejected: 0,
            timed_out: 0,
            errors: 0,
            parity_checked: 0,
            parity_mismatches: 0,
            order_mismatches: 0,
            generation_mismatches: 0,
            token_accounting_mismatches: 0,
        }
    }

    /// Takes what came of one more request.
    pub fn record(
        &mut self,
        workload: Workload,
        result: &Result<JsonValue, Error>,
        baseline: &JsonValue,
    )
        ensures
            *final(self) == recorded(*old(self), workload, *result, baseline@),
    {
        match result {
            Ok(response) => {
                self.succeeded = raise(self.succeeded, true);
                if parity_workload(workload) {
                    self.parity_checked = raise(self.parity_checked, true);
                    let normalized = normalize_response(response);
                    let differs = !normalized.same(baseline);
                    self.parity_mismatches = raise(self.parity_mismatches, differs);
                    let arrays = ordered_arrays(&normalized);
                    let expected = ordered_arrays(baseline);
                    let reordered = !arrays.same(&expected);
                    self.order_mismatches = raise(self.order_mismatches, reordered);
                    let moved = differ_at(&normalized, baseline, "/meta/repository_generation");
                    self.generation_mismatches = raise(self.generation_mismatches, moved);
                    let recounted = token_accounting_differs(&normalized, baseline);
                    self.token_accounting_mismatches = raise(
                        self.token_accounting_mismatches,
                        recounted,
                    );
                }
            },
            Err(Error::Cancelled) => {
                self.cancelled = raise(self.cancelled, true);
            },
            Err(Error::RetrievalOverloaded) => {
                self.rejected = raise(self.rejected, true);
            },
            Err(Error::RetrievalQueueTimeout) => {
                self.timed_out = raise(self.timed_out, true);
            },
            Err(_) => {
                self.errors = raise(self.errors, true);
            },
        }
    }
}

/// A request for context on how something is handled.
pub fn context_request(query: &str) -> (r: ContextRequest)
    ensures
        r.task@ == "Investigate "@ + query@ + " handling, cancellation, and tests"@,
        r.token_budget == 1000,
        r.max_fragments == Some(8usize),
        r.minimum_fragments_per_focus_path is None,
        !r.strict_focus_paths && !r.strict_changed_paths && !r.plan_only && !r.explain_diagnostics,
        r.receipt_id is None && r.base_revision is None && r.prior_repository_generation is None,
        r.include_paths@.len() == 0 && r.must_include_paths@.len() == 0 && r.focus_paths@.len() == 0,
        r.exclude_paths@.len() == 0 && r.focus_symbols@.len() == 0,
        r.must_include_symbols@.len() == 0 && r.required_evidence@.len() == 0,
        r.known_hashes@.len() == 0 && r.changed_paths@.len() == 0,
{
    ContextRequest {
        task: appended(
            appended(copy_text("Investigate "), query),
            " handling, cancellation, and tests",
        ),
        token_budget: 1000,
        max_fragments: Some(8),
        minimum_fragments_per_focus_path: None,
        strict_focus_paths: false,
        strict_changed_paths: false,
        plan_only: false,
        explain_diagnostics: false,
        receipt_id: None,
        include_paths: Vec::new(),
        must_include_paths: Vec::new(),
        focus_paths: Vec::new(),
        exclude_paths: Vec::new(),
        focus_symbols: Vec::new(),
        must_include_symbols: Vec::new(),
        required_evidence: Vec::new(),
        known_hashes: Vec::new(),
        changed_paths: Vec::new(),
        base_revision: None,
        prior_repository_generation: None,
    }
}

/// How many modules the generated repository has.
pub const SMALL_REPOSITORY_MODULES: u64 = 64;

/// How many lines the function of a generated module computes.
pub const SMALL_MODULE_LINES: u64 = 80;

/// One line of a generated module.
pub open spec fn small_line(module: nat, line: nat) -> Seq<char> {
    "    let value_"@ + decimal_text(line) + " = "@ + decimal_text(line) + " + "@ + decimal_text(
        module,
    ) + "; // needle cancellation request\n"@
}

/// The first lines of a generated module.
pub open spec fn small_lines(module: nat, lines: nat) -> Seq<char>
    decreases lines,
{
    if lines == 0 {
        "pub fn needle_"@ + decimal_text(module) + "() -> usize {\n"@
    } else {
        small_lines(module, (lines - 1) as nat) + small_line(module, (lines - 1) as nat)
    }
}

/// The source of a module of the generated repository.
pub fn small_module_source(module: u64) -> (r: String)
    ensures
        r@ == small_lines(module as nat, SMALL_MODULE_LINES as nat) + "    value_79\n}\n"@,
{
    let number = decimal(module);
    let mut source = appended(
        appended(copy_text("pub fn needle_"), number.as_str()),
        "() -> usize {\n",
    );
    let mut line: u64 = 0;
    while line < SMALL_MODULE_LINES
        invariant
            line <= SMALL_MODULE_LINES,
            number@ == decimal_text(module as nat),
            source@ == small_lines(module as nat, line as nat),
        decreases SMALL_MODULE_LINES - line,
    {
        let place = decimal(line);
        let mut text = appended(copy_text("    let value_"), place.as_str());
        text.push_str(" = ");
        text.push_str(place.as_str());
        text.push_str(" + ");
        text.push_str(number.as_str());
        text.push_str("; // needle cancellation request\n");
        assert(text@ == small_line(module as nat, line as nat));
        source.push_str(text.as_str());
        line += 1;
    }
    appended(source, "    value_79\n}\n")
}

/// Whether files with an extension are read as source.
pub open spec fn source_extension(extension: Seq<char>) -> bool {
    ||| extension == "rs"@
    ||| extension == "ts"@
    ||| extension == "tsx"@
    ||| extension == "js"@
    ||| extension == "jsx"@
    ||| extension == "py"@
    ||| extension == "go"@
    ||| extension == "java"@
}

/// Tells whether files with an extension are read as source.
pub fn is_source_extension(extension: &str) -> (r: bool)
    ensures
        r == source_extension(extension@),
{
    same_text(extension, "rs") || same_text(extension, "ts") || same_text(extension, "tsx")
        || same_text(extension, "js") || same_text(extension, "jsx") || same_text(extension, "py")
        || same_text(extension, "go") || same_text(extension, "java")
}

} // verus!
