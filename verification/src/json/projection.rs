//! What a projection takes of a value, within a number of items.

use crate::json::value::JsonValue;
use crate::json::view::{
    item_views, item_views_are, json_view, member_views, member_views_are, JsonView,
};
use vstd::prelude::*;

verus! {

/// What is returned of a selected value.
#[derive(Debug, Clone, Copy, PartialEq, Eq, Structural)]
pub enum JsonProjection {
    Value,
    Collapsed,
    Keys,
    Schema,
}

/// What is left to take, and whether everything was taken so far.
#[derive(Debug, Clone, Copy, PartialEq, Eq, Structural)]
pub struct ProjectionState {
    pub remaining: usize,
    pub array_sample_size: usize,
    pub complete: bool,
}

/// A state in which something was left out.
pub open spec fn left_out(state: ProjectionState) -> ProjectionState {
    ProjectionState { complete: false, ..state }
}

/// A state after one item was taken.
pub open spec fn one_taken(state: ProjectionState) -> ProjectionState {
    ProjectionState { remaining: (state.remaining - 1) as usize, ..state }
}

impl ProjectionState {
    /// A state from which `max_items` can be taken.
    pub fn new(max_items: usize, array_sample_size: usize) -> (r: ProjectionState)
        ensures
            r == (ProjectionState { remaining: max_items, array_sample_size, complete: true }),
    {
        ProjectionState { remaining: max_items, array_sample_size, complete: true }
    }

    /// What is left to take.
    pub fn remaining(&self) -> (r: usize)
        ensures
            r == self.remaining,
    {
        self.remaining
    }

    /// How many items of an array are shown.
    pub fn array_sample_size(&self) -> (r: usize)
        ensures
            r == self.array_sample_size,
    {
        self.array_sample_size
    }

    /// Whether everything was taken so far.
    pub fn is_complete(&self) -> (r: bool)
        ensures
            r == self.complete,
    {
        self.complete
    }

    /// Notes that something was left out.
    pub fn mark_incomplete(&mut self)
        ensures
            *final(self) == left_out(*old(self)),
    {
        self.complete = false;
    }
}

/// Takes an item, where one is left. Otherwise something is left out.
pub fn take_item(state: &mut ProjectionState) -> (r: bool)
    ensures
        r == (old(state).remaining > 0),
        *final(state) == if r {
            one_taken(*old(state))
        } else {
            left_out(*old(state))
        },
{
    if state.remaining == 0 {
        state.complete = false;
        return false;
    }
    state.remaining = state.remaining - 1;
    true
}

/// The name of the type of a value.
pub open spec fn kind_name(value: JsonView) -> Seq<char> {
    match value {
        JsonView::Null => "null"@,
        JsonView::Bool(_) => "boolean"@,
        JsonView::Number(_) => "number"@,
        JsonView::Text(_) => "string"@,
        JsonView::Array(_) => "array"@,
        JsonView::Object(_) => "object"@,
    }
}

/// The name of the type of a value.
pub fn json_type(value: &JsonValue) -> (r: &'static str)
    ensures
        r@ == kind_name(value@),
{
    match value {
        JsonValue::Null => "null",
        JsonValue::Bool(_) => "boolean",
        JsonValue::Number(_) => "number",
        JsonValue::Text(_) => "string",
        JsonValue::Array(_) => "array",
        JsonValue::Object(_) => "object",
    }
}

/// A sum that stops at the largest number.
pub open spec fn total(a: usize, b: usize) -> usize {
    if a + b > usize::MAX {
        usize::MAX
    } else {
        (a + b) as usize
    }
}

/// How many values a value holds, itself among them.
pub open spec fn node_count(value: JsonView) -> usize
    decreases value, 1int,
{
    match value {
        JsonView::Array(items) => total(1, item_nodes(items, items.len() as int)),
        JsonView::Object(members) => total(1, member_nodes(members, members.len() as int)),
        _ => 1,
    }
}

/// How many values the first `upto` items hold.
pub open spec fn item_nodes(items: Seq<JsonView>, upto: int) -> usize
    decreases items, upto,
{
    if upto <= 0 || upto > items.len() {
        0
    } else {
        total(item_nodes(items, upto - 1), node_count(items[upto - 1]))
    }
}

/// How many values the first `upto` members hold.
pub open spec fn member_nodes(members: Seq<(Seq<char>, JsonView)>, upto: int) -> usize
    decreases members, upto,
{
    if upto <= 0 || upto > members.len() {
        0
    } else {
        total(member_nodes(members, upto - 1), node_count(members[upto - 1].1))
    }
}

/// How many values a value holds, itself among them.
pub fn count_nodes(value: &JsonValue) -> (r: usize)
    ensures
        r == node_count(value@),
    decreases value, 1int,
{
    match value {
        JsonValue::Array(items) => {
            let inner: usize = count_item_nodes(items);
            let one: usize = 1;
            one.saturating_add(inner)
        },
        JsonValue::Object(members) => {
            let inner: usize = count_member_nodes(members);
            let one: usize = 1;
            one.saturating_add(inner)
        },
        _ => 1,
    }
}

fn count_item_nodes(items: &Vec<JsonValue>) -> (r: usize)
    ensures
        r == item_nodes(item_views(items@), item_views(items@).len() as int),
    decreases items, 0int,
{
    let ghost all = item_views(items@);
    proof {
        item_views_are(items@);
    }
    let mut count: usize = 0;
    let mut i: usize = 0;
    while i < items.len()
        invariant
            i <= items.len(),
            all.len() == items@.len(),
            forall|k: int| 0 <= k < all.len() ==> #[trigger] all[k] == json_view(items@[k]),
            count == item_nodes(all, i as int),
        decreases items.len() - i,
    {
        assert(all[i as int] == json_view(items@[i as int]));
        count = count.saturating_add(count_nodes(&items[i]));
        i += 1;
    }
    count
}

fn count_member_nodes(members: &Vec<(String, JsonValue)>) -> (r: usize)
    ensures
        r == member_nodes(member_views(members@), member_views(members@).len() as int),
    decreases members, 0int,
{
    let ghost all = member_views(members@);
    proof {
        member_views_are(members@);
    }
    let mut count: usize = 0;
    let mut i: usize = 0;
    while i < members.len()
        invariant
            i <= members.len(),
            all.len() == members@.len(),
            forall|k: int|
                0 <= k < all.len() ==> #[trigger] all[k] == (
                    members@[k].0@,
                    json_view(members@[k].1),
                ),
            count == member_nodes(all, i as int),
        decreases members.len() - i,
    {
        let member = &members[i];
        assert(all[i as int] == (member.0@, json_view(member.1)));
        count = count.saturating_add(count_nodes(&member.1));
        i += 1;
    }
    count
}

} // verus!
