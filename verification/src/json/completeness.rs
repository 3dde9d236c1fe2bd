//! When projections show everything.

use crate::json::collapsed::{
    collapsed, collapsed_count, collapsed_fields, collapsed_items, collapsed_members,
    collapsed_sample, least,
};
use crate::json::keys::{
    by_pointer, deeper, entries_of, has_key, item_keys_taken, items_pointer, keys_of,
    keys_of_items, keys_of_members, keys_projected, keys_taken, listed_keys, member_keys_taken,
    member_pointer, with_key, KeyView, TakenKeys,
};
use crate::json::options::JsonKeyOrder;
use crate::json::projection::{
    item_nodes, member_nodes, node_count, one_taken, total, ProjectionState,
};
use crate::json::schema::{
    bare_node, nodes_in, opened, overflows, room_for, shape_of, shown_from, ShapeNode,
};
use crate::json::view::JsonView;
use crate::ordered::{insert_by, sorted_by, sorting_keeps_elements};
use vstd::prelude::*;

verus! {

/// A state after a number of items was taken, with nothing left out.
pub open spec fn taken_of(state: ProjectionState, items: usize) -> ProjectionState {
    ProjectionState { remaining: (state.remaining - items) as usize, ..state }
}

/// A value whose collapsed items can all be taken is collapsed with nothing left
/// out, and takes exactly as many items as are counted beforehand.
pub proof fn collapsing_with_room_leaves_nothing_out(value: JsonView, state: ProjectionState)
    requires
        collapsed_count(value, state.array_sample_size) <= state.remaining,
        collapsed_count(value, state.array_sample_size) < usize::MAX,
    ensures
        collapsed(value, state).1 == taken_of(
            state,
            collapsed_count(value, state.array_sample_size),
        ),
        collapsed_count(value, state.array_sample_size) >= 1,
    decreases value, 1int,
{
    let sample = state.array_sample_size;
    match value {
        JsonView::Array(items) => {
            let upto = least(items.len(), sample);
            let inner = collapsed_items(items, sample, upto);
            assert(collapsed_count(value, sample) == total(1, inner));
            sampling_with_room_leaves_nothing_out(items, one_taken(state), upto);
        },
        JsonView::Object(members) => {
            let inner = collapsed_members(members, sample, members.len() as int);
            assert(collapsed_count(value, sample) == total(1, inner));
            fields_with_room_leave_nothing_out(
                members,
                one_taken(state),
                members.len() as int,
            );
        },
        _ => {},
    }
}

proof fn sampling_with_room_leaves_nothing_out(
    items: Seq<JsonView>,
    state: ProjectionState,
    upto: int,
)
    requires
        0 <= upto <= items.len(),
        collapsed_items(items, state.array_sample_size, upto) <= state.remaining,
        collapsed_items(items, state.array_sample_size, upto) < usize::MAX,
    ensures
        collapsed_sample(items, state, upto).1 == taken_of(
            state,
            collapsed_items(items, state.array_sample_size, upto),
        ),
    decreases items, upto,
{
    if upto > 0 {
        let sample = state.array_sample_size;
        let item = items[upto - 1];
        assert(collapsed_items(items, sample, upto) == total(
            collapsed_items(items, sample, upto - 1),
            collapsed_count(item, sample),
        ));
        a_value_collapses_to_something(item, sample);
        sampling_with_room_leaves_nothing_out(items, state, upto - 1);
        let before = collapsed_sample(items, state, upto - 1);
        collapsing_with_room_leaves_nothing_out(item, before.1);
    }
}

proof fn fields_with_room_leave_nothing_out(
    members: Seq<(Seq<char>, JsonView)>,
    state: ProjectionState,
    upto: int,
)
    requires
        0 <= upto <= members.len(),
        collapsed_members(members, state.array_sample_size, upto) <= state.remaining,
        collapsed_members(members, state.array_sample_size, upto) < usize::MAX,
    ensures
        collapsed_fields(members, state, upto).1 == taken_of(
            state,
            collapsed_members(members, state.array_sample_size, upto),
        ),
    decreases members, upto,
{
    if upto > 0 {
        let sample = state.array_sample_size;
        let item = members[upto - 1].1;
        assert(collapsed_members(members, sample, upto) == total(
            collapsed_members(members, sample, upto - 1),
            collapsed_count(item, sample),
        ));
        a_value_collapses_to_something(item, sample);
        fields_with_room_leave_nothing_out(members, state, upto - 1);
        let before = collapsed_fields(members, state, upto - 1);
        collapsing_with_room_leaves_nothing_out(members[upto - 1].1, before.1);
    }
}

proof fn a_value_collapses_to_something(value: JsonView, sample: usize)
    ensures
        collapsed_count(value, sample) >= 1,
{
}

/// How many values stand in a value, at every depth.
pub open spec fn held(value: JsonView) -> nat
    decreases value, 1int,
{
    match value {
        JsonView::Array(items) => held_items(items, items.len() as int),
        JsonView::Object(members) => held_members(members, members.len() as int),
        _ => 0,
    }
}

/// How many values the first `upto` items are and hold.
pub open spec fn held_items(items: Seq<JsonView>, upto: int) -> nat
    decreases items, upto,
{
    if upto <= 0 || upto > items.len() {
        0
    } else {
        held_items(items, upto - 1) + 1 + held(items[upto - 1])
    }
}

/// How many values the first `upto` members have and hold.
pub open spec fn held_members(members: Seq<(Seq<char>, JsonView)>, upto: int) -> nat
    decreases members, upto,
{
    if upto <= 0 || upto > members.len() {
        0
    } else {
        held_members(members, upto - 1) + 1 + held(members[upto - 1].1)
    }
}

/// Counting the values of a value counts it and what stands in it, as far as the
/// number goes.
pub proof fn a_value_counts_itself_and_what_it_holds(value: JsonView)
    ensures
        node_count(value) == if 1 + held(value) > usize::MAX {
            usize::MAX as int
        } else {
            (1 + held(value)) as int
        },
    decreases value, 1int,
{
    match value {
        JsonView::Array(items) => {
            items_count_themselves(items, items.len() as int);
        },
        JsonView::Object(members) => {
            members_count_themselves(members, members.len() as int);
        },
        _ => {},
    }
}

proof fn items_count_themselves(items: Seq<JsonView>, upto: int)
    requires
        0 <= upto <= items.len(),
    ensures
        item_nodes(items, upto) == if held_items(items, upto) > usize::MAX {
            usize::MAX as int
        } else {
            held_items(items, upto) as int
        },
    decreases items, upto,
{
    if upto > 0 {
        items_count_themselves(items, upto - 1);
        a_value_counts_itself_and_what_it_holds(items[upto - 1]);
    }
}

proof fn members_count_themselves(members: Seq<(Seq<char>, JsonView)>, upto: int)
    requires
        0 <= upto <= members.len(),
    ensures
        member_nodes(members, upto) == if held_members(members, upto) > usize::MAX {
            usize::MAX as int
        } else {
            held_members(members, upto) as int
        },
    decreases members, upto,
{
    if upto > 0 {
        members_count_themselves(members, upto - 1);
        a_value_counts_itself_and_what_it_holds(members[upto - 1].1);
    }
}

/// How many values stand in shown values.
spec fn held_in(nodes: Seq<ShapeNode>) -> nat
    decreases nodes.len(),
{
    if nodes.len() == 0 {
        0
    } else {
        held_in(nodes.drop_last()) + held(nodes.last().value)
    }
}

proof fn held_in_both(a: Seq<ShapeNode>, b: Seq<ShapeNode>)
    ensures
        held_in(a + b) == held_in(a) + held_in(b),
    decreases b.len(),
{
    if b.len() == 0 {
        assert(a + b =~= a);
    } else {
        held_in_both(a, b.drop_last());
        assert((a + b).drop_last() =~= a + b.drop_last());
        assert((a + b).last() == b.last());
    }
}

proof fn held_in_first(nodes: Seq<ShapeNode>)
    requires
        nodes.len() > 0,
    ensures
        held_in(nodes) == held(nodes[0].value) + held_in(nodes.subrange(1, nodes.len() as int)),
{
    let first = nodes.take(1);
    let rest = nodes.subrange(1, nodes.len() as int);
    assert(nodes =~= first + rest);
    held_in_both(first, rest);
    assert(first.drop_last() =~= Seq::<ShapeNode>::empty());
    assert(held_in(first.drop_last()) == 0);
    assert(first.last() == nodes[0]);
}

proof fn held_by_inner(node: ShapeNode, whole: bool, upto: int)
    requires
        0 <= upto <= nodes_in(node, whole).len(),
    ensures
        held_in(nodes_in(node, whole).take(upto)) + upto == match node.value {
            JsonView::Array(items) => held_items(items, upto),
            JsonView::Object(members) => held_members(members, upto),
            _ => 0,
        },
    decreases upto,
{
    let inner = nodes_in(node, whole);
    if upto > 0 {
        held_by_inner(node, whole, upto - 1);
        assert(inner.take(upto).drop_last() =~= inner.take(upto - 1));
        assert(inner.take(upto).last() == inner[upto - 1]);
    } else {
        assert(inner.take(0) =~= Seq::<ShapeNode>::empty());
    }
}

proof fn nothing_overflows(nodes: Seq<ShapeNode>, id: int, max_items: nat, whole: nat)
    requires
        0 <= id <= nodes.len(),
        nodes.len() + held_in(nodes.subrange(id, nodes.len() as int)) == whole,
        whole <= max_items,
        nodes.len() > 0,
    ensures
        ({
            let (shown, at) = shown_from(nodes, id, max_items);
            &&& shown.len() == whole
            &&& at >= shown.len()
        }),
    decreases max_items - id,
{
    if id < nodes.len() {
        let rest = nodes.subrange(id, nodes.len() as int);
        held_in_first(rest);
        assert(rest[0] == nodes[id]);
        let inner = nodes_in(nodes[id], id == 0);
        held_by_inner(nodes[id], id == 0, inner.len() as int);
        assert(inner.take(inner.len() as int) =~= inner);
        assert(held_in(inner) + inner.len() == held(nodes[id].value));
        let keep = room_for(nodes.len(), inner.len(), max_items);
        assert(keep == inner.len());
        let next = opened(nodes, id, max_items);
        let behind = rest.subrange(1, rest.len() as int);
        assert(next.subrange(id + 1, next.len() as int) =~= behind + inner);
        held_in_both(behind, inner);
        nothing_overflows(next, id + 1, max_items, whole);
    } else {
        assert(nodes.subrange(id, nodes.len() as int) =~= Seq::<ShapeNode>::empty());
    }
}

/// The shape of a value with room for all of its values shows all of them, and
/// tells of nothing left out.
pub proof fn a_shape_with_room_is_complete(value: JsonView, max_items: nat)
    requires
        node_count(value) <= max_items,
        node_count(value) < usize::MAX,
    ensures
        shape_of(value, max_items).0.len() == node_count(value),
        shape_of(value, max_items).1 == Seq::<Seq<char>>::empty(),
{
    a_value_counts_itself_and_what_it_holds(value);
    let start = seq![bare_node(value, Seq::empty(), Seq::empty())];
    assert(start.subrange(0, 1) =~= start);
    assert(start.drop_last() =~= Seq::<ShapeNode>::empty());
    assert(held_in(start.drop_last()) == 0);
    assert(held_in(start) == held(value));
    nothing_overflows(start, 0, max_items, (1 + held(value)) as nat);
}

proof fn shown_stays_within(nodes: Seq<ShapeNode>, id: int, max_items: nat)
    requires
        nodes.len() <= max_items,
    ensures
        shown_from(nodes, id, max_items).0.len() <= max_items,
    decreases max_items - id,
{
    if !(id < 0 || id >= nodes.len() || id >= max_items || overflows(nodes, id, max_items)) {
        shown_stays_within(opened(nodes, id, max_items), id + 1, max_items);
    }
}

/// A shape never shows more values than it may.
pub proof fn a_shape_stays_within_its_items(value: JsonView, max_items: nat)
    requires
        max_items >= 1,
    ensures
        1 <= shape_of(value, max_items).0.len() <= max_items,
{
    let start = seq![bare_node(value, Seq::empty(), Seq::empty())];
    shown_stays_within(start, 0, max_items);
    shown_grows(start, 0, max_items);
    let (nodes, at) = shown_from(start, 0, max_items);
    if at < nodes.len() && overflows(nodes, at, max_items) {
        let inner = nodes_in(nodes[at], at == 0);
        let keep = room_for(nodes.len(), inner.len(), max_items);
        assert(opened(nodes, at, max_items).len() == nodes.len() + keep);
    }
}

proof fn shown_grows(nodes: Seq<ShapeNode>, id: int, max_items: nat)
    ensures
        shown_from(nodes, id, max_items).0.len() >= nodes.len(),
        shown_from(nodes, id, max_items).1 >= id,
    decreases max_items - id,
{
    if !(id < 0 || id >= nodes.len() || id >= max_items || overflows(nodes, id, max_items)) {
        shown_grows(opened(nodes, id, max_items), id + 1, max_items);
    }
}

/// Whether two lists name the same pointers with the same kinds, in one order.
pub open spec fn same_keys(a: Seq<KeyView>, b: Seq<KeyView>) -> bool {
    &&& a.len() == b.len()
    &&& forall|i: int|
        0 <= i < a.len() ==> (#[trigger] a[i]).pointer == (#[trigger] b[i]).pointer && a[i].kind
            == b[i].kind
}

proof fn same_keys_have_the_same(a: Seq<KeyView>, b: Seq<KeyView>, pointer: Seq<char>)
    requires
        same_keys(a, b),
    ensures
        has_key(a, pointer) == has_key(b, pointer),
{
    if has_key(a, pointer) {
        let i = choose|i: int| 0 <= i < a.len() && (#[trigger] a[i]).pointer == pointer;
        assert(b[i].pointer == pointer);
    }
    if has_key(b, pointer) {
        let i = choose|i: int| 0 <= i < b.len() && (#[trigger] b[i]).pointer == pointer;
        assert(a[i].pointer == pointer);
    }
}

proof fn keys_grow(
    value: JsonView,
    pointer: Seq<char>,
    depth: usize,
    keys: Seq<KeyView>,
)
    ensures
        keys_of(value, pointer, depth, None, keys).len() >= with_key(
            keys,
            value,
            pointer,
            depth,
        ).len() >= keys.len(),
    decreases value, 1int,
{
    let own = with_key(keys, value, pointer, depth);
    match value {
        JsonView::Object(members) => {
            member_keys_grow(members, pointer, deeper(depth), own, members.len() as int, 0);
        },
        JsonView::Array(items) => {
            item_keys_grow(
                items,
                items_pointer(pointer),
                deeper(depth),
                own,
                items.len() as int,
                0,
            );
        },
        _ => {},
    }
}

proof fn member_keys_grow(
    members: Seq<(Seq<char>, JsonView)>,
    pointer: Seq<char>,
    depth: usize,
    keys: Seq<KeyView>,
    upto: int,
    from: int,
)
    requires
        0 <= from <= upto <= members.len(),
    ensures
        keys_of_members(members, pointer, depth, None, keys, upto).len() >= keys_of_members(
            members,
            pointer,
            depth,
            None,
            keys,
            from,
        ).len(),
    decreases members, upto,
{
    if from < upto {
        member_keys_grow(members, pointer, depth, keys, upto - 1, from);
        keys_grow(
            members[upto - 1].1,
            member_pointer(pointer, members[upto - 1].0),
            depth,
            keys_of_members(members, pointer, depth, None, keys, upto - 1),
        );
    }
}

proof fn item_keys_grow(
    items: Seq<JsonView>,
    pointer: Seq<char>,
    depth: usize,
    keys: Seq<KeyView>,
    upto: int,
    from: int,
)
    requires
        0 <= from <= upto <= items.len(),
    ensures
        keys_of_items(items, pointer, depth, None, keys, upto).len() >= keys_of_items(
            items,
            pointer,
            depth,
            None,
            keys,
            from,
        ).len(),
    decreases items, upto,
{
    if from < upto {
        item_keys_grow(items, pointer, depth, keys, upto - 1, from);
        keys_grow(
            items[upto - 1],
            pointer,
            depth,
            keys_of_items(items, pointer, depth, None, keys, upto - 1),
        );
    }
}

proof fn taking_with_room_takes_all(
    value: JsonView,
    pointer: Seq<char>,
    depth: usize,
    keys: Seq<KeyView>,
    taken: TakenKeys,
)
    requires
        same_keys(taken.keys, keys),
        keys_of(value, pointer, depth, None, keys).len() - keys.len() <= taken.state.remaining,
    ensures
        same_keys(
            keys_taken(value, pointer, taken).keys,
            keys_of(value, pointer, depth, None, keys),
        ),
        keys_taken(value, pointer, taken).state == taken_of(
            taken.state,
            (keys_of(value, pointer, depth, None, keys).len() - keys.len()) as usize,
        ),
    decreases value, 1int,
{
    same_keys_have_the_same(taken.keys, keys, pointer);
    keys_grow(value, pointer, depth, keys);
    let own = with_key(keys, value, pointer, depth);
    let mine = if has_key(taken.keys, pointer) {
        taken
    } else {
        TakenKeys {
            keys: taken.keys.push(
                KeyView {
                    pointer,
                    depth: 0,
                    kind: crate::json::projection::kind_name(value),
                },
            ),
            state: one_taken(taken.state),
        }
    };
    assert(same_keys(mine.keys, own));
    match value {
        JsonView::Object(members) => {
            taking_members_with_room(
                members,
                pointer,
                deeper(depth),
                own,
                mine,
                members.len() as int,
            );
        },
        JsonView::Array(items) => {
            taking_items_with_room(
                items,
                items_pointer(pointer),
                deeper(depth),
                own,
                mine,
                items.len() as int,
            );
        },
        _ => {},
    }
}

proof fn taking_members_with_room(
    members: Seq<(Seq<char>, JsonView)>,
    pointer: Seq<char>,
    depth: usize,
    keys: Seq<KeyView>,
    taken: TakenKeys,
    upto: int,
)
    requires
        0 <= upto <= members.len(),
        same_keys(taken.keys, keys),
        keys_of_members(members, pointer, depth, None, keys, upto).len() - keys.len()
            <= taken.state.remaining,
    ensures
        same_keys(
            member_keys_taken(members, pointer, taken, upto).keys,
            keys_of_members(members, pointer, depth, None, keys, upto),
        ),
        member_keys_taken(members, pointer, taken, upto).state == taken_of(
            taken.state,
            (keys_of_members(members, pointer, depth, None, keys, upto).len()
                - keys.len()) as usize,
        ),
    decreases members, upto,
{
    if upto > 0 {
        member_keys_grow(members, pointer, depth, keys, upto, upto - 1);
        member_keys_grow(members, pointer, depth, keys, upto - 1, 0);
        taking_members_with_room(members, pointer, depth, keys, taken, upto - 1);
        taking_with_room_takes_all(
            members[upto - 1].1,
            member_pointer(pointer, members[upto - 1].0),
            depth,
            keys_of_members(members, pointer, depth, None, keys, upto - 1),
            member_keys_taken(members, pointer, taken, upto - 1),
        );
    }
}

proof fn taking_items_with_room(
    items: Seq<JsonView>,
    pointer: Seq<char>,
    depth: usize,
    keys: Seq<KeyView>,
    taken: TakenKeys,
    upto: int,
)
    requires
        0 <= upto <= items.len(),
        same_keys(taken.keys, keys),
        keys_of_items(items, pointer, depth, None, keys, upto).len() - keys.len()
            <= taken.state.remaining,
    ensures
        same_keys(
            item_keys_taken(items, pointer, taken, upto).keys,
            keys_of_items(items, pointer, depth, None, keys, upto),
        ),
        item_keys_taken(items, pointer, taken, upto).state == taken_of(
            taken.state,
            (keys_of_items(items, pointer, depth, None, keys, upto).len() - keys.len()) as usize,
        ),
    decreases items, upto,
{
    if upto > 0 {
        item_keys_grow(items, pointer, depth, keys, upto, upto - 1);
        item_keys_grow(items, pointer, depth, keys, upto - 1, 0);
        taking_items_with_room(items, pointer, depth, keys, taken, upto - 1);
        taking_with_room_takes_all(
            items[upto - 1],
            pointer,
            depth,
            keys_of_items(items, pointer, depth, None, keys, upto - 1),
            item_keys_taken(items, pointer, taken, upto - 1),
        );
    }
}

proof fn inserting_alike(a: Seq<KeyView>, x: KeyView, b: Seq<KeyView>, y: KeyView)
    requires
        same_keys(a, b),
        x.pointer == y.pointer,
        x.kind == y.kind,
    ensures
        same_keys(insert_by(a, x, by_pointer()), insert_by(b, y, by_pointer())),
    decreases a.len(),
{
    if a.len() > 0 {
        assert(a[0].pointer == b[0].pointer);
        if !by_pointer()(x, a[0]) {
            let rest = a.subrange(1, a.len() as int);
            let other = b.subrange(1, b.len() as int);
            assert forall|i: int| 0 <= i < rest.len() implies (#[trigger] rest[i]).pointer == (
            #[trigger] other[i]).pointer && rest[i].kind == other[i].kind by {
                assert(a[i + 1].pointer == b[i + 1].pointer);
            }
            inserting_alike(rest, x, other, y);
        }
    }
}

proof fn sorting_alike(a: Seq<KeyView>, b: Seq<KeyView>)
    requires
        same_keys(a, b),
    ensures
        same_keys(sorted_by(a, by_pointer()), sorted_by(b, by_pointer())),
    decreases a.len(),
{
    if a.len() > 0 {
        sorting_alike(a.drop_last(), b.drop_last());
        assert(a.last().pointer == b.last().pointer);
        inserting_alike(
            sorted_by(a.drop_last(), by_pointer()),
            a.last(),
            sorted_by(b.drop_last(), by_pointer()),
            b.last(),
        );
    }
}

/// Keys that can all be taken are all listed, exactly as the whole list has them,
/// with nothing left out; and each takes one item.
pub proof fn keys_with_room_are_all_listed(value: JsonView, state: ProjectionState)
    requires
        listed_keys(value, None, JsonKeyOrder::Pointer).len() <= state.remaining,
    ensures
        keys_projected(value, state).0 == JsonView::Array(
            listed_keys(value, None, JsonKeyOrder::Pointer),
        ),
        keys_projected(value, state).1 == taken_of(
            state,
            listed_keys(value, None, JsonKeyOrder::Pointer).len() as usize,
        ),
{
    let none = Seq::<KeyView>::empty();
    let all = keys_of(value, Seq::empty(), 0, None, none);
    sorting_keeps_elements(all, by_pointer());
    let start = TakenKeys { keys: none, state };
    taking_with_room_takes_all(value, Seq::empty(), 0, none, start);
    let taken = keys_taken(value, Seq::empty(), start);
    sorting_alike(taken.keys, all);
    let a = entries_of(sorted_by(taken.keys, by_pointer()));
    let b = entries_of(sorted_by(all, by_pointer()));
    sorting_keeps_elements(taken.keys, by_pointer());
    assert forall|i: int| 0 <= i < a.len() implies a[i] == b[i] by {
        let x = sorted_by(taken.keys, by_pointer())[i];
        let y = sorted_by(all, by_pointer())[i];
        assert(x.pointer == y.pointer && x.kind == y.kind);
    }
    assert(a =~= b);
}

} // verus!
