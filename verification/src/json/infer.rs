//! The shape of a value, read depth first.

use crate::json::projection::{
    json_type, kind_name, left_out, one_taken, take_item, ProjectionState,
};
use crate::json::schema::{items_shape, shape_items};
use crate::json::value::JsonValue;
use crate::json::view::{
    item_views, item_views_are, item_views_push, json_view, member_views, member_views_are,
    member_views_push, object_of_one, object_of_three, object_of_two, two_members, JsonView,
};
use crate::text::{copy_text, decimal, decimal_text};
use vstd::prelude::*;

verus! {

/// A shape that says no more than a kind.
pub open spec fn bare_shape(kind: Seq<char>) -> JsonView {
    JsonView::Object(seq![("type"@, JsonView::Text(kind))])
}

/// The shape of an array, by how many items it has and the shapes of those read.
pub open spec fn array_shape(count: nat, variants: Seq<JsonView>) -> JsonView {
    JsonView::Object(
        seq![
            ("count"@, JsonView::Number(decimal_text(count))),
            ("items"@, items_shape(variants)),
            ("type"@, JsonView::Text("array"@)),
        ],
    )
}

/// The shape of a value, and what is left to take after it. What is not read is
/// unknown.
pub open spec fn inferred(value: JsonView, state: ProjectionState) -> (JsonView, ProjectionState)
    decreases value, 1int,
{
    if state.remaining == 0 {
        (bare_shape("unknown"@), left_out(state))
    } else {
        let taken = one_taken(state);
        match value {
            JsonView::Object(members) => {
                let inner = inferred_fields(members, taken, members.len() as int);
                (
                    two_members(
                        "properties"@,
                        JsonView::Object(inner.0),
                        "type"@,
                        JsonView::Text("object"@),
                    ),
                    inner.1,
                )
            },
            JsonView::Array(items) => {
                let inner = inferred_items(items, taken, items.len() as int);
                (array_shape(items.len(), inner.0), inner.1)
            },
            _ => (bare_shape(kind_name(value)), taken),
        }
    }
}

/// The shapes of the first `upto` items, as far as there is anything left to take.
pub open spec fn inferred_items(items: Seq<JsonView>, state: ProjectionState, upto: int) -> (
    Seq<JsonView>,
    ProjectionState,
)
    decreases items, upto,
{
    if upto <= 0 || upto > items.len() {
        (Seq::empty(), state)
    } else {
        let before = inferred_items(items, state, upto - 1);
        if before.1.remaining == 0 {
            (before.0, left_out(before.1))
        } else {
            let next = inferred(items[upto - 1], before.1);
            (before.0.push(next.0), next.1)
        }
    }
}

/// The shapes of the first `upto` members, as far as there is anything left to take.
pub open spec fn inferred_fields(
    members: Seq<(Seq<char>, JsonView)>,
    state: ProjectionState,
    upto: int,
) -> (Seq<(Seq<char>, JsonView)>, ProjectionState)
    decreases members, upto,
{
    if upto <= 0 || upto > members.len() {
        (Seq::empty(), state)
    } else {
        let before = inferred_fields(members, state, upto - 1);
        if before.1.remaining == 0 {
            (before.0, left_out(before.1))
        } else {
            let next = inferred(members[upto - 1].1, before.1);
            (before.0.push((members[upto - 1].0, next.0)), next.1)
        }
    }
}

proof fn stopped_items_stay(items: Seq<JsonView>, state: ProjectionState, from: int, upto: int)
    requires
        0 <= from < upto <= items.len(),
        inferred_items(items, state, from).1.remaining == 0,
    ensures
        inferred_items(items, state, upto).0 == inferred_items(items, state, from).0,
        inferred_items(items, state, upto).1 == left_out(inferred_items(items, state, from).1),
    decreases upto,
{
    if upto > from + 1 {
        stopped_items_stay(items, state, from, upto - 1);
    }
}

proof fn stopped_fields_stay(
    members: Seq<(Seq<char>, JsonView)>,
    state: ProjectionState,
    from: int,
    upto: int,
)
    requires
        0 <= from < upto <= members.len(),
        inferred_fields(members, state, from).1.remaining == 0,
    ensures
        inferred_fields(members, state, upto).0 == inferred_fields(members, state, from).0,
        inferred_fields(members, state, upto).1 == left_out(
            inferred_fields(members, state, from).1,
        ),
    decreases upto,
{
    if upto > from + 1 {
        stopped_fields_stay(members, state, from, upto - 1);
    }
}

/// Tells the shape of a value, as far as there is anything left to take.
pub fn infer_schema(value: &JsonValue, state: &mut ProjectionState) -> (r: JsonValue)
    ensures
        (r@, *final(state)) == inferred(value@, *old(state)),
    decreases value, 1int,
{
    if !take_item(state) {
        return object_of_one("type", JsonValue::Text(copy_text("unknown")));
    }
    match value {
        JsonValue::Object(members) => {
            let properties = infer_members(members, state);
            object_of_two(
                "properties",
                JsonValue::Object(properties),
                "type",
                JsonValue::Text(copy_text("object")),
            )
        },
        JsonValue::Array(items) => {
            let variants = infer_items(items, state);
            let shape = shape_items(variants);
            let count = JsonValue::Number(decimal(items.len() as u64));
            proof {
                item_views_are(items@);
                assert(count@ == JsonView::Number(decimal_text(items@.len())));
            }
            let kind = JsonValue::Text(copy_text("array"));
            assert(kind@ == JsonView::Text("array"@));
            object_of_three("count", count, "items", shape, "type", kind)
        },
        _ => object_of_one("type", JsonValue::Text(copy_text(json_type(value)))),
    }
}

fn infer_items(items: &Vec<JsonValue>, state: &mut ProjectionState) -> (r: Vec<JsonValue>)
    ensures
        (item_views(r@), *final(state)) == inferred_items(
            item_views(items@),
            *old(state),
            item_views(items@).len() as int,
        ),
    decreases items, 0int,
{
    let ghost start = *state;
    let ghost all = item_views(items@);
    proof {
        item_views_are(items@);
    }
    let mut out: Vec<JsonValue> = Vec::new();
    let mut i: usize = 0;
    assert(item_views(out@) =~= Seq::<JsonView>::empty());
    while i < items.len()
        invariant
            i <= items.len(),
            start == *old(state),
            all == item_views(items@),
            all.len() == items@.len(),
            forall|k: int| 0 <= k < all.len() ==> #[trigger] all[k] == json_view(items@[k]),
            (item_views(out@), *state) == inferred_items(all, start, i as int),
        decreases items.len() - i,
    {
        if state.remaining() == 0 {
            state.mark_incomplete();
            proof {
                stopped_items_stay(all, start, i as int, items@.len() as int);
            }
            return out;
        }
        assert(all[i as int] == json_view(items@[i as int]));
        let ghost before = out@;
        let next = infer_schema(&items[i], state);
        let ghost added = next;
        out.push(next);
        proof {
            item_views_push(before, added);
        }
        i += 1;
    }
    out
}

fn infer_members(members: &Vec<(String, JsonValue)>, state: &mut ProjectionState) -> (r: Vec<
    (String, JsonValue),
>)
    ensures
        (member_views(r@), *final(state)) == inferred_fields(
            member_views(members@),
            *old(state),
            member_views(members@).len() as int,
        ),
    decreases members, 0int,
{
    let ghost start = *state;
    let ghost all = member_views(members@);
    proof {
        member_views_are(members@);
    }
    let mut out: Vec<(String, JsonValue)> = Vec::new();
    let mut i: usize = 0;
    assert(member_views(out@) =~= Seq::<(Seq<char>, JsonView)>::empty());
    while i < members.len()
        invariant
            i <= members.len(),
            start == *old(state),
            all == member_views(members@),
            all.len() == members@.len(),
            forall|k: int|
                0 <= k < all.len() ==> #[trigger] all[k] == (
                    members@[k].0@,
                    json_view(members@[k].1),
                ),
            (member_views(out@), *state) == inferred_fields(all, start, i as int),
        decreases members.len() - i,
    {
        if state.remaining() == 0 {
            state.mark_incomplete();
            proof {
                stopped_fields_stay(all, start, i as int, members@.len() as int);
            }
            return out;
        }
        let member = &members[i];
        assert(all[i as int] == (member.0@, json_view(member.1)));
        let ghost before = out@;
        let next = infer_schema(&member.1, state);
        let entry = (member.0.clone(), next);
        let ghost added = entry;
        out.push(entry);
        proof {
            member_views_push(before, added);
        }
        i += 1;
    }
    out
}

} // verus!
