//! Values with only the first items of their arrays.

use crate::json::projection::{
    left_out, one_taken, take_item, total, ProjectionState,
};
use crate::json::value::JsonValue;
use crate::json::view::{
    item_views, item_views_are, item_views_push, json_view, member_views, member_views_are,
    member_views_push, object_of_one, object_of_three, JsonView,
};
use crate::text::{decimal, decimal_text};
use vstd::prelude::*;

verus! {

/// The smaller of two numbers.
pub open spec fn least(a: nat, b: usize) -> int {
    if a < b {
        a as int
    } else {
        b as int
    }
}

/// How many items a collapsed value would take.
pub open spec fn collapsed_count(value: JsonView, sample: usize) -> usize
    decreases value, 1int,
{
    match value {
        JsonView::Array(items) => total(
            1,
            collapsed_items(items, sample, least(items.len(), sample)),
        ),
        JsonView::Object(members) => total(
            1,
            collapsed_members(members, sample, members.len() as int),
        ),
        _ => 1,
    }
}

/// How many items the first `upto` collapsed items would take.
pub open spec fn collapsed_items(items: Seq<JsonView>, sample: usize, upto: int) -> usize
    decreases items, upto,
{
    if upto <= 0 || upto > items.len() {
        0
    } else {
        total(
            collapsed_items(items, sample, upto - 1),
            collapsed_count(items[upto - 1], sample),
        )
    }
}

/// How many items the first `upto` collapsed members would take.
pub open spec fn collapsed_members(
    members: Seq<(Seq<char>, JsonView)>,
    sample: usize,
    upto: int,
) -> usize
    decreases members, upto,
{
    if upto <= 0 || upto > members.len() {
        0
    } else {
        total(
            collapsed_members(members, sample, upto - 1),
            collapsed_count(members[upto - 1].1, sample),
        )
    }
}

/// How many items a collapsed value would take.
pub fn collapsed_item_count(value: &JsonValue, array_sample_size: usize) -> (r: usize)
    ensures
        r == collapsed_count(value@, array_sample_size),
    decreases value, 1int,
{
    match value {
        JsonValue::Array(items) => {
            let inner: usize = count_collapsed_items(items, array_sample_size);
            let one: usize = 1;
            one.saturating_add(inner)
        },
        JsonValue::Object(members) => {
            let inner: usize = count_collapsed_members(members, array_sample_size);
            let one: usize = 1;
            one.saturating_add(inner)
        },
        _ => 1,
    }
}

fn count_collapsed_items(items: &Vec<JsonValue>, sample: usize) -> (r: usize)
    ensures
        r == collapsed_items(
            item_views(items@),
            sample,
            least(item_views(items@).len(), sample),
        ),
    decreases items, 0int,
{
    let ghost all = item_views(items@);
    proof {
        item_views_are(items@);
    }
    let mut count: usize = 0;
    let mut i: usize = 0;
    while i < items.len() && i < sample
        invariant
            i <= items.len(),
            i <= sample,
            all.len() == items@.len(),
            forall|k: int| 0 <= k < all.len() ==> #[trigger] all[k] == json_view(items@[k]),
            count == collapsed_items(all, sample, i as int),
        decreases items.len() - i,
    {
        assert(all[i as int] == json_view(items@[i as int]));
        count = count.saturating_add(collapsed_item_count(&items[i], sample));
        i += 1;
    }
    count
}

fn count_collapsed_members(members: &Vec<(String, JsonValue)>, sample: usize) -> (r: usize)
    ensures
        r == collapsed_members(
            member_views(members@),
            sample,
            member_views(members@).len() as int,
        ),
    decreases members, 0int,
{
    let ghost all = member_views(members@);
    proof {
        member_views_are(members@);
    }
    let mut count: usize = 0;
    let mut i: usize = 0;
    while i < members.len()
        invariant
            i <= members.len(),
            all.len() == members@.len(),
            forall|k: int|
                0 <= k < all.len() ==> #[trigger] all[k] == (
                    members@[k].0@,
                    json_view(members@[k].1),
                ),
            count == collapsed_members(all, sample, i as int),
        decreases members.len() - i,
    {
        let member = &members[i];
        assert(all[i as int] == (member.0@, json_view(member.1)));
        count = count.saturating_add(collapsed_item_count(&member.1, sample));
        i += 1;
    }
    count
}

/// What stands for an array: how many items it has, the first of them, and how
/// many were left out.
pub open spec fn sampled_array(count: nat, sample: Seq<JsonView>) -> JsonView {
    JsonView::Object(
        seq![
            (
                "$array"@,
                JsonView::Object(
                    seq![
                        ("count"@, JsonView::Number(decimal_text(count))),
                        (
                            "omitted"@,
                            JsonView::Number(decimal_text((count - sample.len()) as nat)),
                        ),
                        ("sample"@, JsonView::Array(sample)),
                    ],
                ),
            ),
        ],
    )
}

/// A collapsed value, and what is left to take after it.
pub open spec fn collapsed(value: JsonView, state: ProjectionState) -> (JsonView, ProjectionState)
    decreases value, 1int,
{
    if state.remaining == 0 {
        (JsonView::Null, left_out(state))
    } else {
        let taken = one_taken(state);
        match value {
            JsonView::Array(items) => {
                let inner = collapsed_sample(
                    items,
                    taken,
                    least(items.len(), taken.array_sample_size),
                );
                (sampled_array(items.len(), inner.0), inner.1)
            },
            JsonView::Object(members) => {
                let inner = collapsed_fields(members, taken, members.len() as int);
                (JsonView::Object(inner.0), inner.1)
            },
            _ => (value, taken),
        }
    }
}

/// The first `upto` items of an array, collapsed as far as there is anything
/// left to take.
pub open spec fn collapsed_sample(items: Seq<JsonView>, state: ProjectionState, upto: int) -> (
    Seq<JsonView>,
    ProjectionState,
)
    decreases items, upto,
{
    if upto <= 0 || upto > items.len() {
        (Seq::empty(), state)
    } else {
        let before = collapsed_sample(items, state, upto - 1);
        if before.1.remaining == 0 {
            (before.0, left_out(before.1))
        } else {
            let next = collapsed(items[upto - 1], before.1);
            (before.0.push(next.0), next.1)
        }
    }
}

/// The first `upto` members of an object, collapsed as far as there is anything
/// left to take.
pub open spec fn collapsed_fields(
    members: Seq<(Seq<char>, JsonView)>,
    state: ProjectionState,
    upto: int,
) -> (Seq<(Seq<char>, JsonView)>, ProjectionState)
    decreases members, upto,
{
    if upto <= 0 || upto > members.len() {
        (Seq::empty(), state)
    } else {
        let before = collapsed_fields(members, state, upto - 1);
        if before.1.remaining == 0 {
            (before.0, left_out(before.1))
        } else {
            let next = collapsed(members[upto - 1].1, before.1);
            (before.0.push((members[upto - 1].0, next.0)), next.1)
        }
    }
}

/// Once nothing is left, the rest of an array is left out.
proof fn a_stopped_sample_stays(items: Seq<JsonView>, state: ProjectionState, from: int, upto: int)
    requires
        0 <= from < upto <= items.len(),
        collapsed_sample(items, state, from).1.remaining == 0,
    ensures
        collapsed_sample(items, state, upto).0 == collapsed_sample(items, state, from).0,
        collapsed_sample(items, state, upto).1 == left_out(
            collapsed_sample(items, state, from).1,
        ),
    decreases upto,
{
    if upto > from + 1 {
        a_stopped_sample_stays(items, state, from, upto - 1);
    }
}

/// Once nothing is left, the rest of an object is left out.
proof fn a_stopped_object_stays(
    members: Seq<(Seq<char>, JsonView)>,
    state: ProjectionState,
    from: int,
    upto: int,
)
    requires
        0 <= from < upto <= members.len(),
        collapsed_fields(members, state, from).1.remaining == 0,
    ensures
        collapsed_fields(members, state, upto).0 == collapsed_fields(members, state, from).0,
        collapsed_fields(members, state, upto).1 == left_out(
            collapsed_fields(members, state, from).1,
        ),
    decreases upto,
{
    if upto > from + 1 {
        a_stopped_object_stays(members, state, from, upto - 1);
    }
}

fn number_value(n: usize) -> (r: JsonValue)
    ensures
        r@ == JsonView::Number(decimal_text(n as nat)),
{
    JsonValue::Number(decimal(n as u64))
}

proof fn a_sample_is_short(items: Seq<JsonView>, state: ProjectionState, upto: int)
    requires
        0 <= upto <= items.len(),
    ensures
        collapsed_sample(items, state, upto).0.len() <= upto,
        collapsed_sample(items, state, upto).1.array_sample_size == state.array_sample_size,
    decreases items, upto,
{
    if upto > 0 {
        a_sample_is_short(items, state, upto - 1);
        let before = collapsed_sample(items, state, upto - 1);
        if before.1.remaining > 0 {
            collapsing_keeps_the_sample_size(items[upto - 1], before.1);
        }
    }
}

proof fn fields_keep_the_sample_size(
    members: Seq<(Seq<char>, JsonView)>,
    state: ProjectionState,
    upto: int,
)
    requires
        0 <= upto <= members.len(),
    ensures
        collapsed_fields(members, state, upto).1.array_sample_size == state.array_sample_size,
    decreases members, upto,
{
    if upto > 0 {
        fields_keep_the_sample_size(members, state, upto - 1);
        let before = collapsed_fields(members, state, upto - 1);
        if before.1.remaining > 0 {
            collapsing_keeps_the_sample_size(members[upto - 1].1, before.1);
        }
    }
}

proof fn collapsing_keeps_the_sample_size(value: JsonView, state: ProjectionState)
    ensures
        collapsed(value, state).1.array_sample_size == state.array_sample_size,
    decreases value, 1int,
{
    if state.remaining > 0 {
        match value {
            JsonView::Array(items) => {
                a_sample_is_short(
                    items,
                    one_taken(state),
                    least(items.len(), state.array_sample_size),
                );
            },
            JsonView::Object(members) => {
                fields_keep_the_sample_size(members, one_taken(state), members.len() as int);
            },
            _ => {},
        }
    }
}

/// Collapses a value: of every array only the first items are shown, and
/// nothing beyond the items that are left to take.
pub fn collapse_json(value: &JsonValue, state: &mut ProjectionState) -> (r: JsonValue)
    ensures
        (r@, *final(state)) == collapsed(value@, *old(state)),
    decreases value, 1int,
{
    if !take_item(state) {
        return JsonValue::Null;
    }
    match value {
        JsonValue::Array(items) => {
            let ghost taken = *state;
            let ghost all = item_views(items@);
            let sample = sample_items(items, state);
            proof {
                item_views_are(items@);
                item_views_are(sample@);
                a_sample_is_short(all, taken, least(all.len(), taken.array_sample_size));
            }
            let omitted: usize = items.len() - sample.len();
            let inner = object_of_three(
                "count",
                number_value(items.len()),
                "omitted",
                number_value(omitted),
                "sample",
                JsonValue::Array(sample),
            );
            object_of_one("$array", inner)
        },
        JsonValue::Object(members) => JsonValue::Object(collapse_members(members, state)),
        _ => value.duplicate(),
    }
}

fn sample_items(items: &Vec<JsonValue>, state: &mut ProjectionState) -> (r: Vec<JsonValue>)
    ensures
        (item_views(r@), *final(state)) == collapsed_sample(
            item_views(items@),
            *old(state),
            least(item_views(items@).len(), old(state).array_sample_size),
        ),
    decreases items, 0int,
{
    let ghost start = *state;
    let ghost all = item_views(items@);
    proof {
        item_views_are(items@);
    }
    let limit: usize = state.array_sample_size();
    let count: usize = if items.len() < limit {
        items.len()
    } else {
        limit
    };
    let mut out: Vec<JsonValue> = Vec::new();
    let mut i: usize = 0;
    assert(item_views(out@) =~= Seq::<JsonView>::empty());
    while i < count
        invariant
            i <= count <= items.len(),
            count == least(all.len(), start.array_sample_size),
            start == *old(state),
            all == item_views(items@),
            all.len() == items@.len(),
            forall|k: int| 0 <= k < all.len() ==> #[trigger] all[k] == json_view(items@[k]),
            (item_views(out@), *state) == collapsed_sample(all, start, i as int),
        decreases count - i,
    {
        if state.remaining() == 0 {
            state.mark_incomplete();
            proof {
                a_stopped_sample_stays(all, start, i as int, count as int);
            }
            return out;
        }
        assert(all[i as int] == json_view(items@[i as int]));
        let ghost before = out@;
        let next = collapse_json(&items[i], state);
        let ghost added = next;
        out.push(next);
        proof {
            item_views_push(before, added);
        }
        i += 1;
    }
    out
}

fn collapse_members(members: &Vec<(String, JsonValue)>, state: &mut ProjectionState) -> (r: Vec<
    (String, JsonValue),
>)
    ensures
        (member_views(r@), *final(state)) == collapsed_fields(
            member_views(members@),
            *old(state),
            member_views(members@).len() as int,
        ),
    decreases members, 0int,
{
    let ghost start = *state;
    let ghost all = member_views(members@);
    proof {
        member_views_are(members@);
    }
    let mut out: Vec<(String, JsonValue)> = Vec::new();
    let mut i: usize = 0;
    assert(member_views(out@) =~= Seq::<(Seq<char>, JsonView)>::empty());
    while i < members.len()
        invariant
            i <= members.len(),
            start == *old(state),
            all == member_views(members@),
            all.len() == members@.len(),
            forall|k: int|
                0 <= k < all.len() ==> #[trigger] all[k] == (
                    members@[k].0@,
                    json_view(members@[k].1),
                ),
            (member_views(out@), *state) == collapsed_fields(all, start, i as int),
        decreases members.len() - i,
    {
        if state.remaining() == 0 {
            state.mark_incomplete();
            proof {
                a_stopped_object_stays(all, start, i as int, members@.len() as int);
            }
            return out;
        }
        let member = &members[i];
        assert(all[i as int] == (member.0@, json_view(member.1)));
        let ghost before = out@;
        let next = collapse_json(&member.1, state);
        let entry = (member.0.clone(), next);
        let ghost added = entry;
        out.push(entry);
        proof {
            member_views_push(before, added);
        }
        i += 1;
    }
    out
}

/// How many items a value takes as it was collapsed.
pub proof fn collapsing_takes_no_more_than_is_left(value: JsonView, state: ProjectionState)
    ensures
        collapsed(value, state).1.remaining <= state.remaining,
        !state.complete ==> !collapsed(value, state).1.complete,
    decreases value, 1int,
{
    if state.remaining > 0 {
        match value {
            JsonView::Array(items) => {
                a_sample_takes_no_more_than_is_left(
                    items,
                    one_taken(state),
                    least(items.len(), state.array_sample_size),
                );
            },
            JsonView::Object(members) => {
                fields_take_no_more_than_is_left(members, one_taken(state), members.len() as int);
            },
            _ => {},
        }
    }
}

proof fn a_sample_takes_no_more_than_is_left(
    items: Seq<JsonView>,
    state: ProjectionState,
    upto: int,
)
    requires
        0 <= upto <= items.len(),
    ensures
        collapsed_sample(items, state, upto).1.remaining <= state.remaining,
        !state.complete ==> !collapsed_sample(items, state, upto).1.complete,
    decreases items, upto,
{
    if upto > 0 {
        a_sample_takes_no_more_than_is_left(items, state, upto - 1);
        let before = collapsed_sample(items, state, upto - 1);
        if before.1.remaining > 0 {
            collapsing_takes_no_more_than_is_left(items[upto - 1], before.1);
        }
    }
}

proof fn fields_take_no_more_than_is_left(
    members: Seq<(Seq<char>, JsonView)>,
    state: ProjectionState,
    upto: int,
)
    requires
        0 <= upto <= members.len(),
    ensures
        collapsed_fields(members, state, upto).1.remaining <= state.remaining,
        !state.complete ==> !collapsed_fields(members, state, upto).1.complete,
    decreases members, upto,
{
    if upto > 0 {
        fields_take_no_more_than_is_left(members, state, upto - 1);
        let before = collapsed_fields(members, state, upto - 1);
        if before.1.remaining > 0 {
            collapsing_takes_no_more_than_is_left(members[upto - 1].1, before.1);
        }
    }
}

} // verus!
