//! The shape of a value, as far as a number of items shows it.

use crate::json::keys::{items_pointer, member_pointer};
use crate::json::pointer::escape_pointer;
use crate::json::projection::{json_type, kind_name};
use crate::json::value::JsonValue;
use crate::json::view::{
    item_views, item_views_are, item_views_push, json_text, json_view, member_views,
    member_views_are, member_views_push, object_of_one, object_of_three, object_of_two,
    two_members, write_json, JsonView,
};
use crate::ordered::{
    first_of, insert_within, put_all, put_all_len, sort_unique_texts, sorted_unique, text_lt,
    text_precedes, views,
};
use crate::text::{appended, copy_text, decimal, decimal_text, texts};
use vstd::prelude::*;

verus! {

/// The most pointers of left-out parts that are told.
pub const MAX_SCHEMA_OMITTED_POINTERS: usize = 32;

/// A value that is shown: where it stands, the part at the top that it belongs
/// to, and which of the following values stand in it.
pub struct ShapeNode {
    pub value: JsonView,
    pub pointer: Seq<char>,
    pub root: Seq<char>,
    pub first: nat,
    pub count: nat,
}

/// Whether other values stand in a value.
pub open spec fn holds_values(value: JsonView) -> bool {
    match value {
        JsonView::Object(members) => members.len() > 0,
        JsonView::Array(items) => items.len() > 0,
        _ => false,
    }
}

/// A value that is shown, before anything in it is.
pub open spec fn bare_node(value: JsonView, pointer: Seq<char>, root: Seq<char>) -> ShapeNode {
    ShapeNode { value, pointer, root, first: 0, count: 0 }
}

/// The part at the top that something in a value belongs to: itself where the
/// value is the whole.
pub open spec fn root_in(node: ShapeNode, whole: bool, pointer: Seq<char>) -> Seq<char> {
    if whole {
        pointer
    } else {
        node.root
    }
}

/// The values that stand in a value.
pub open spec fn nodes_in(node: ShapeNode, whole: bool) -> Seq<ShapeNode> {
    match node.value {
        JsonView::Object(members) => Seq::new(
            members.len(),
            |i: int|
                {
                    let pointer = member_pointer(node.pointer, members[i].0);
                    bare_node(members[i].1, pointer, root_in(node, whole, pointer))
                },
        ),
        JsonView::Array(items) => Seq::new(
            items.len(),
            |i: int|
                {
                    let pointer = items_pointer(node.pointer);
                    bare_node(items[i], pointer, root_in(node, whole, pointer))
                },
        ),
        _ => Seq::empty(),
    }
}

/// How many of some values can be shown next to those that are.
pub open spec fn room_for(shown: nat, wanted: nat, max_items: nat) -> nat {
    if shown >= max_items {
        0
    } else if wanted < max_items - shown {
        wanted
    } else {
        (max_items - shown) as nat
    }
}

/// The shown values with those that stand in one of them, as many as can be
/// shown.
pub open spec fn opened(nodes: Seq<ShapeNode>, id: int, max_items: nat) -> Seq<ShapeNode> {
    let inner = nodes_in(nodes[id], id == 0);
    let keep = room_for(nodes.len(), inner.len(), max_items);
    nodes.update(id, ShapeNode { first: nodes.len(), count: keep, ..nodes[id] }) + inner.take(
        keep as int,
    )
}

/// Whether something that stands in a shown value cannot be shown.
pub open spec fn overflows(nodes: Seq<ShapeNode>, id: int, max_items: nat) -> bool {
    let inner = nodes_in(nodes[id], id == 0);
    room_for(nodes.len(), inner.len(), max_items) < inner.len()
}

/// The values that are shown, level by level, and the one at which there was no
/// more room.
pub open spec fn shown_from(nodes: Seq<ShapeNode>, id: int, max_items: nat) -> (
    Seq<ShapeNode>,
    int,
)
    decreases max_items - id,
{
    if id < 0 || id >= nodes.len() || id >= max_items || overflows(nodes, id, max_items) {
        (nodes, id)
    } else {
        shown_from(opened(nodes, id, max_items), id + 1, max_items)
    }
}

/// The roots of the values in a value that cannot be shown.
pub open spec fn roots_cut(nodes: Seq<ShapeNode>, id: int, max_items: nat) -> Seq<Seq<char>> {
    let inner = nodes_in(nodes[id], id == 0);
    let keep = room_for(nodes.len(), inner.len(), max_items);
    Seq::new((inner.len() - keep) as nat, |i: int| inner[keep + i].root)
}

/// The root of a shown value in which other values stand.
pub open spec fn root_left() -> spec_fn(ShapeNode) -> Option<Seq<char>> {
    |node: ShapeNode|
        if holds_values(node.value) {
            Some(node.root)
        } else {
            None
        }
}

/// The roots of shown values from one on in which other values stand.
pub open spec fn roots_left(nodes: Seq<ShapeNode>, from: int) -> Seq<Seq<char>> {
    crate::lists::filter_map(nodes.subrange(from, nodes.len() as int), root_left())
}

/// The values that are shown of a whole, and the roots of what is not.
pub open spec fn shape_of(value: JsonView, max_items: nat) -> (Seq<ShapeNode>, Seq<Seq<char>>) {
    let start = seq![bare_node(value, Seq::empty(), Seq::empty())];
    let (nodes, at) = shown_from(start, 0, max_items);
    if at < nodes.len() && overflows(nodes, at, max_items) {
        let last = opened(nodes, at, max_items);
        (last, roots_cut(nodes, at, max_items) + roots_left(last, at + 1))
    } else {
        (nodes, Seq::empty())
    }
}

/// Values in the order of their texts.
pub open spec fn by_json_text() -> spec_fn(JsonView, JsonView) -> bool {
    |a: JsonView, b: JsonView| text_lt(json_text(a), json_text(b))
}

/// What stands for the items of an array: their one shape, or any of them.
pub open spec fn items_shape(variants: Seq<JsonView>) -> JsonView {
    let unique = put_all(variants, by_json_text(), false);
    if unique.len() == 0 {
        JsonView::Object(Seq::empty())
    } else if unique.len() == 1 {
        unique[0]
    } else {
        JsonView::Object(seq![("anyOf"@, JsonView::Array(unique))])
    }
}

/// The members of an object with the shapes of their values.
pub open spec fn shaped_members(
    members: Seq<(Seq<char>, JsonView)>,
    shapes: Seq<JsonView>,
) -> Seq<(Seq<char>, JsonView)> {
    Seq::new(shapes.len(), |i: int| (members[i].0, shapes[i]))
}

/// The shape of a shown value with the shapes of what is shown in it.
pub open spec fn shape_with(value: JsonView, shapes: Seq<JsonView>) -> JsonView {
    match value {
        JsonView::Object(members) => two_members(
            "properties"@,
            JsonView::Object(shaped_members(members, shapes)),
            "type"@,
            JsonView::Text("object"@),
        ),
        JsonView::Array(items) => JsonView::Object(
            seq![
                ("count"@, JsonView::Number(decimal_text(items.len()))),
                ("items"@, items_shape(shapes)),
                ("type"@, JsonView::Text("array"@)),
            ],
        ),
        _ => JsonView::Object(seq![("type"@, JsonView::Text(kind_name(value)))]),
    }
}

/// The shape of a shown value.
pub open spec fn shape(nodes: Seq<ShapeNode>, id: int) -> JsonView
    decreases nodes.len() - id, nodes[id].count + 1,
{
    if id < 0 || id >= nodes.len() {
        JsonView::Null
    } else {
        shape_with(nodes[id].value, inner_shapes(nodes, id, nodes[id].count))
    }
}

/// The shapes of the first `upto` values that are shown in a value.
pub open spec fn inner_shapes(nodes: Seq<ShapeNode>, id: int, upto: nat) -> Seq<JsonView>
    decreases nodes.len() - id, upto,
{
    if upto == 0 || id < 0 || id >= nodes.len() {
        Seq::empty()
    } else {
        let child = nodes[id].first + upto - 1;
        let before = inner_shapes(nodes, id, (upto - 1) as nat);
        if child <= id || child >= nodes.len() {
            before.push(JsonView::Null)
        } else {
            before.push(shape(nodes, child))
        }
    }
}

/// What tells of the parts that are not shown.
pub open spec fn omission_note(omitted: Seq<Seq<char>>) -> JsonView {
    let told = first_of(omitted, MAX_SCHEMA_OMITTED_POINTERS as int);
    two_members(
        "omitted_subtree_count"@,
        JsonView::Number(decimal_text(omitted.len())),
        "omitted_subtree_pointers"@,
        JsonView::Array(Seq::new(told.len(), |i: int| JsonView::Text(told[i]))),
    )
}

/// A shape with a note of what it does not show.
pub open spec fn noted_shape(schema: JsonView, omitted: Seq<Seq<char>>) -> JsonView {
    match schema {
        JsonView::Object(members) => if omitted.len() > 0 {
            JsonView::Object(members.push(("x-leantoken-incomplete"@, omission_note(omitted))))
        } else {
            schema
        },
        _ => schema,
    }
}

/// The shape of a value, with no more than `max_items` values shown.
pub open spec fn schema_of(value: JsonView, max_items: nat) -> JsonView {
    let (nodes, roots) = shape_of(value, max_items);
    noted_shape(shape(nodes, 0), sorted_unique(roots))
}

struct SchemaNode<'a> {
    value: &'a JsonValue,
    pointer: String,
    root: String,
    first: usize,
    count: usize,
}

impl<'a> View for SchemaNode<'a> {
    type V = ShapeNode;

    closed spec fn view(&self) -> ShapeNode {
        ShapeNode {
            value: self.value@,
            pointer: self.pointer@,
            root: self.root@,
            first: self.first as nat,
            count: self.count as nat,
        }
    }
}

fn schema_node<'a>(value: &'a JsonValue, pointer: String, root: String) -> (r: SchemaNode<'a>)
    ensures
        r@ == bare_node(value@, pointer@, root@),
{
    SchemaNode { value, pointer, root, first: 0, count: 0 }
}

fn schema_node_has_children(value: &JsonValue) -> (r: bool)
    ensures
        r == holds_values(value@),
{
    match value {
        JsonValue::Object(members) => {
            proof {
                member_views_are(members@);
            }
            members.len() > 0
        },
        JsonValue::Array(items) => {
            proof {
                item_views_are(items@);
            }
            items.len() > 0
        },
        _ => false,
    }
}

fn inner_count(value: &JsonValue) -> (r: usize)
    ensures
        forall|node: ShapeNode, whole: bool|
            node.value == value@ ==> r == #[trigger] nodes_in(node, whole).len(),
{
    match value {
        JsonValue::Object(members) => {
            proof {
                member_views_are(members@);
            }
            members.len()
        },
        JsonValue::Array(items) => {
            proof {
                item_views_are(items@);
            }
            items.len()
        },
        _ => 0,
    }
}

fn inner_node<'a>(value: &'a JsonValue, pointer: &str, root: &str, whole: bool, i: usize) -> (r:
    SchemaNode<'a>)
    requires
        i < nodes_in(bare_node(value@, pointer@, root@), whole).len(),
    ensures
        r@ == nodes_in(bare_node(value@, pointer@, root@), whole)[i as int],
{
    match value {
        JsonValue::Object(members) => {
            proof {
                member_views_are(members@);
            }
            let member = &members[i];
            let part = escape_pointer(member.0.as_str());
            let own = appended(appended(copy_text(pointer), "/"), part.as_str());
            let top = if whole {
                own.clone()
            } else {
                copy_text(root)
            };
            assert(member_views(members@)[i as int] == (member.0@, json_view(member.1)));
            schema_node(&member.1, own, top)
        },
        JsonValue::Array(items) => {
            proof {
                item_views_are(items@);
            }
            let own = appended(copy_text(pointer), "/*");
            let top = if whole {
                own.clone()
            } else {
                copy_text(root)
            };
            assert(item_views(items@)[i as int] == json_view(items@[i as int]));
            schema_node(&items[i], own, top)
        },
        _ => schema_node(value, copy_text(pointer), copy_text(root)),
    }
}

proof fn inner_of_bare(node: ShapeNode, whole: bool)
    ensures
        nodes_in(node, whole) == nodes_in(bare_node(node.value, node.pointer, node.root), whole),
{
    assert(nodes_in(node, whole) =~= nodes_in(
        bare_node(node.value, node.pointer, node.root),
        whole,
    ));
}

fn open_node<'a>(nodes: Vec<SchemaNode<'a>>, id: usize, keep: usize, max_items: usize) -> (r: Vec<
    SchemaNode<'a>,
>)
    requires
        id < nodes.len(),
        keep == room_for(
            nodes@.len(),
            nodes_in(views(nodes@)[id as int], id == 0).len(),
            max_items as nat,
        ),
    ensures
        views(r@) == opened(views(nodes@), id as int, max_items as nat),
{
    let ghost start = views(nodes@);
    let ghost inner = nodes_in(start[id as int], id == 0);
    let total: usize = nodes.len();
    let mut nodes = nodes;
    assert(start[id as int] == nodes@[id as int]@);
    let value: &'a JsonValue = nodes[id].value;
    let pointer = nodes[id].pointer.clone();
    let root = nodes[id].root.clone();
    let node = SchemaNode {
        value,
        pointer: pointer.clone(),
        root: root.clone(),
        first: total,
        count: keep,
    };
    let ghost filled = node@;
    nodes.set(id, node);
    let ghost base = start.update(id as int, filled);
    assert(views(nodes@) =~= base);
    proof {
        inner_of_bare(start[id as int], id == 0);
    }
    let mut i: usize = 0;
    assert(views(nodes@) =~= base + inner.take(0));
    while i < keep
        invariant
            i <= keep <= inner.len(),
            inner == nodes_in(bare_node(value@, pointer@, root@), id == 0),
            views(nodes@) == base + inner.take(i as int),
        decreases keep - i,
    {
        let ghost before = views(nodes@);
        let next = inner_node(value, pointer.as_str(), root.as_str(), id == 0, i);
        let ghost added = next@;
        nodes.push(next);
        assert(views(nodes@) =~= before.push(added));
        assert(views(nodes@) =~= base + inner.take(i + 1));
        i += 1;
    }
    nodes
}

fn cut_roots<'a>(nodes: &Vec<SchemaNode<'a>>, id: usize, keep: usize, inner: usize) -> (r: Vec<
    String,
>)
    requires
        id < nodes.len(),
        keep <= inner,
        inner == nodes_in(views(nodes@)[id as int], id == 0).len(),
    ensures
        texts(r@) == Seq::new(
            (inner - keep) as nat,
            |i: int| nodes_in(views(nodes@)[id as int], id == 0)[keep + i].root,
        ),
{
    let ghost list = nodes_in(views(nodes@)[id as int], id == 0);
    let ghost all = Seq::new((inner - keep) as nat, |i: int| list[keep + i].root);
    let mut out: Vec<String> = Vec::new();
    let mut i: usize = keep;
    assert(views(nodes@)[id as int] == nodes@[id as int]@);
    let value = nodes[id].value;
    let pointer = nodes[id].pointer.as_str();
    let root = nodes[id].root.as_str();
    proof {
        inner_of_bare(views(nodes@)[id as int], id == 0);
    }
    assert(texts(out@) =~= all.take(0));
    while i < inner
        invariant
            keep <= i <= inner,
            inner == list.len(),
            list == nodes_in(bare_node(value@, pointer@, root@), id == 0),
            all == Seq::new((inner - keep) as nat, |i: int| list[keep + i].root),
            texts(out@) == all.take(i - keep),
        decreases inner - i,
    {
        let ghost before = texts(out@);
        let node = inner_node(value, pointer, root, id == 0, i);
        let ghost added = node@.root;
        out.push(node.root);
        assert(texts(out@) =~= before.push(added));
        assert(texts(out@) =~= all.take(i - keep + 1));
        i += 1;
    }
    assert(all.take(inner - keep) =~= all);
    out
}

fn push_left_roots<'a>(nodes: &Vec<SchemaNode<'a>>, from: usize, out: &mut Vec<String>)
    requires
        from <= nodes.len(),
    ensures
        texts(final(out)@) == texts(old(out)@) + roots_left(views(nodes@), from as int),
{
    let ghost start = texts(out@);
    let ghost rest = views(nodes@).subrange(from as int, nodes@.len() as int);
    let mut i: usize = from;
    assert(rest.take(0) =~= Seq::<ShapeNode>::empty());
    assert(texts(out@) =~= start + crate::lists::filter_map(rest.take(0), root_left()));
    while i < nodes.len()
        invariant
            from <= i <= nodes.len(),
            rest == views(nodes@).subrange(from as int, nodes@.len() as int),
            texts(out@) == start + crate::lists::filter_map(rest.take(i - from), root_left()),
        decreases nodes.len() - i,
    {
        let ghost before = texts(out@);
        proof {
            crate::lists::filter_map_push(rest, root_left(), i - from);
            assert(rest[i - from] == nodes@[i as int]@);
        }
        if schema_node_has_children(nodes[i].value) {
            let root = nodes[i].root.clone();
            let ghost added = root@;
            out.push(root);
            assert(texts(out@) =~= before.push(added));
            assert(texts(out@) =~= start + crate::lists::filter_map(
                rest.take(i - from + 1),
                root_left(),
            ));
        }
        i += 1;
    }
    assert(rest.take(rest.len() as int) =~= rest);
}

fn text_values(list: &Vec<String>, limit: usize) -> (r: Vec<JsonValue>)
    ensures
        item_views(r@) == Seq::new(
            first_of(texts(list@), limit as int).len(),
            |i: int| JsonView::Text(first_of(texts(list@), limit as int)[i]),
        ),
{
    let ghost told = first_of(texts(list@), limit as int);
    let ghost all = Seq::new(told.len(), |i: int| JsonView::Text(told[i]));
    assert(texts(list@).len() == list@.len());
    let count: usize = if list.len() < limit {
        list.len()
    } else {
        limit
    };
    assert(told.len() == count);
    let mut out: Vec<JsonValue> = Vec::new();
    let mut i: usize = 0;
    assert(item_views(out@) =~= all.take(0));
    while i < count
        invariant
            i <= count <= list.len(),
            told == first_of(texts(list@), limit as int),
            told.len() == count,
            all == Seq::new(told.len(), |i: int| JsonView::Text(told[i])),
            item_views(out@) == all.take(i as int),
        decreases count - i,
    {
        let ghost before = out@;
        let next = JsonValue::Text(list[i].clone());
        let ghost added = next;
        out.push(next);
        proof {
            item_views_push(before, added);
            assert(told[i as int] == list@[i as int]@);
            assert(all.take(i + 1) =~= all.take(i as int).push(all[i as int]));
        }
        i += 1;
    }
    assert(all.take(all.len() as int) =~= all);
    out
}

fn json_precedes(a: &JsonValue, b: &JsonValue) -> (r: bool)
    ensures
        r == by_json_text()(a@, b@),
{
    let first = write_json(a);
    let second = write_json(b);
    text_precedes(&first, &second)
}

/// The views of values are what they say.
pub proof fn views_are_items(items: Seq<JsonValue>)
    ensures
        views(items) == item_views(items),
{
    item_views_are(items);
    assert(views(items) =~= item_views(items));
}

pub(crate) fn shape_items(variants: Vec<JsonValue>) -> (r: JsonValue)
    ensures
        r@ == items_shape(item_views(variants@)),
{
    let ghost all = item_views(variants@);
    proof {
        item_views_are(variants@);
    }
    let mut unique: Vec<JsonValue> = Vec::new();
    let total: usize = variants.len();
    let mut i: usize = 0;
    assert(views(unique@) =~= put_all(all.take(0), by_json_text(), false));
    while i < total
        invariant
            i <= total,
            total == variants.len(),
            all == item_views(variants@),
            all.len() == variants@.len(),
            forall|k: int| 0 <= k < all.len() ==> #[trigger] all[k] == json_view(variants@[k]),
            views(unique@) == put_all(all.take(i as int), by_json_text(), false),
        decreases total - i,
    {
        proof {
            assert(all.take(i + 1).drop_last() =~= all.take(i as int));
            assert(all.take(i + 1).last() == all[i as int]);
            put_all_len(all.take(i as int), by_json_text(), false);
            put_all_len(all.take(i + 1), by_json_text(), false);
        }
        let next = variants[i].duplicate();
        insert_within(
            &mut unique,
            next,
            json_precedes,
            false,
            usize::MAX,
            Ghost(by_json_text()),
        );
        i += 1;
    }
    assert(all.take(all.len() as int) =~= all);
    proof {
        views_are_items(unique@);
        item_views_are(unique@);
    }
    if unique.len() == 0 {
        let none: Vec<(String, JsonValue)> = Vec::new();
        assert(member_views(none@) =~= Seq::<(Seq<char>, JsonView)>::empty());
        JsonValue::Object(none)
    } else if unique.len() == 1 {
        unique.remove(0)
    } else {
        object_of_one("anyOf", JsonValue::Array(unique))
    }
}

fn name_shapes(members: &Vec<(String, JsonValue)>, shapes: Vec<JsonValue>) -> (r: Vec<
    (String, JsonValue),
>)
    requires
        shapes@.len() <= members@.len(),
    ensures
        member_views(r@) == shaped_members(member_views(members@), item_views(shapes@)),
{
    let ghost named = member_views(members@);
    let ghost given = item_views(shapes@);
    let ghost all = shaped_members(named, given);
    proof {
        member_views_are(members@);
        item_views_are(shapes@);
    }
    let mut out: Vec<(String, JsonValue)> = Vec::new();
    let mut i: usize = 0;
    assert(member_views(out@) =~= all.take(0));
    while i < shapes.len()
        invariant
            i <= shapes.len(),
            shapes@.len() <= members@.len(),
            given == item_views(shapes@),
            given.len() == shapes@.len(),
            named == member_views(members@),
            named.len() == members@.len(),
            all == shaped_members(named, given),
            forall|k: int| 0 <= k < given.len() ==> #[trigger] given[k] == json_view(shapes@[k]),
            forall|k: int|
                0 <= k < named.len() ==> #[trigger] named[k] == (
                    members@[k].0@,
                    json_view(members@[k].1),
                ),
            member_views(out@) == all.take(i as int),
        decreases shapes.len() - i,
    {
        let member = &members[i];
        assert(named[i as int] == (member.0@, json_view(member.1)));
        assert(given[i as int] == json_view(shapes@[i as int]));
        let ghost before = out@;
        let entry = (member.0.clone(), shapes[i].duplicate());
        let ghost added = entry;
        out.push(entry);
        proof {
            member_views_push(before, added);
            assert(all.take(i + 1) =~= all.take(i as int).push(all[i as int]));
        }
        i += 1;
    }
    assert(all.take(all.len() as int) =~= all);
    out
}

/// Whether the shown values stand as they were opened: what stands in each comes
/// behind it, and is no more than it holds.
spec fn well_linked(nodes: Seq<ShapeNode>) -> bool {
    forall|id: int|
        0 <= id < nodes.len() ==> {
            let node = #[trigger] nodes[id];
            &&& node.count > 0 ==> node.first > id && node.first + node.count <= nodes.len()
            &&& node.count <= nodes_in(node, id == 0).len()
        }
}

proof fn opening_keeps_links(nodes: Seq<ShapeNode>, id: int, max_items: nat)
    requires
        0 <= id < nodes.len(),
        well_linked(nodes),
    ensures
        well_linked(opened(nodes, id, max_items)),
        opened(nodes, id, max_items).len() <= nodes.len() || opened(
            nodes,
            id,
            max_items,
        ).len() <= max_items,
        opened(nodes, id, max_items).len() >= nodes.len(),
{
    let inner = nodes_in(nodes[id], id == 0);
    let keep = room_for(nodes.len(), inner.len(), max_items);
    let next = opened(nodes, id, max_items);
    assert forall|k: int| 0 <= k < next.len() implies {
        let node = #[trigger] next[k];
        &&& node.count > 0 ==> node.first > k && node.first + node.count <= next.len()
        &&& node.count <= nodes_in(node, k == 0).len()
    } by {
        if k == id {
            assert(nodes_in(next[k], k == 0) =~= nodes_in(nodes[id], id == 0));
        } else if k < nodes.len() {
            assert(next[k] == nodes[k]);
        } else {
            assert(next[k] == inner[k - nodes.len()]);
        }
    }
}

fn render_schema_node<'a>(nodes: &Vec<SchemaNode<'a>>, node_id: usize) -> (r: JsonValue)
    requires
        node_id < nodes.len(),
        well_linked(views(nodes@)),
    ensures
        r@ == shape(views(nodes@), node_id as int),
    decreases nodes.len() - node_id, 1int,
{
    let ghost all = views(nodes@);
    assert(all[node_id as int] == nodes@[node_id as int]@);
    let shapes = render_inner(nodes, node_id);
    let value = nodes[node_id].value;
    proof {
        item_views_are(shapes@);
        inner_shapes_len(all, node_id as int, all[node_id as int].count);
    }
    match value {
        JsonValue::Object(members) => {
            proof {
                member_views_are(members@);
            }
            let properties = name_shapes(members, shapes);
            object_of_two(
                "properties",
                JsonValue::Object(properties),
                "type",
                JsonValue::Text(copy_text("object")),
            )
        },
        JsonValue::Array(items) => {
            proof {
                item_views_are(items@);
            }
            let inner = shape_items(shapes);
            object_of_three(
                "count",
                JsonValue::Number(decimal(items.len() as u64)),
                "items",
                inner,
                "type",
                JsonValue::Text(copy_text("array")),
            )
        },
        _ => object_of_one("type", JsonValue::Text(copy_text(json_type(value)))),
    }
}

proof fn inner_shapes_len(nodes: Seq<ShapeNode>, id: int, upto: nat)
    requires
        0 <= id < nodes.len(),
    ensures
        inner_shapes(nodes, id, upto).len() == upto,
    decreases upto,
{
    if upto > 0 {
        inner_shapes_len(nodes, id, (upto - 1) as nat);
    }
}

fn render_inner<'a>(nodes: &Vec<SchemaNode<'a>>, node_id: usize) -> (r: Vec<JsonValue>)
    requires
        node_id < nodes.len(),
        well_linked(views(nodes@)),
    ensures
        item_views(r@) == inner_shapes(
            views(nodes@),
            node_id as int,
            views(nodes@)[node_id as int].count,
        ),
    decreases nodes.len() - node_id, 0int,
{
    let ghost all = views(nodes@);
    assert(all[node_id as int] == nodes@[node_id as int]@);
    let first: usize = nodes[node_id].first;
    let count: usize = nodes[node_id].count;
    let mut out: Vec<JsonValue> = Vec::new();
    let mut i: usize = 0;
    assert(item_views(out@) =~= Seq::<JsonView>::empty());
    while i < count
        invariant
            i <= count,
            node_id < nodes.len(),
            all == views(nodes@),
            all.len() == nodes@.len(),
            well_linked(all),
            all[node_id as int].first == first,
            all[node_id as int].count == count,
            count > 0 ==> first > node_id && first + count <= nodes.len(),
            item_views(out@) == inner_shapes(all, node_id as int, i as nat),
        decreases count - i,
    {
        let ghost before = out@;
        let next = render_schema_node(nodes, first + i);
        let ghost added = next;
        out.push(next);
        proof {
            item_views_push(before, added);
            assert(((i + 1) as nat - 1) as nat == i as nat);
        }
        i += 1;
    }
    out
}

fn make_note(omitted: &Vec<String>) -> (r: JsonValue)
    ensures
        r@ == omission_note(texts(omitted@)),
{
    assert(texts(omitted@).len() == omitted@.len());
    let pointers = text_values(omitted, MAX_SCHEMA_OMITTED_POINTERS);
    object_of_two(
        "omitted_subtree_count",
        JsonValue::Number(decimal(omitted.len() as u64)),
        "omitted_subtree_pointers",
        JsonValue::Array(pointers),
    )
}

fn note_omissions(schema: JsonValue, omitted: &Vec<String>) -> (r: JsonValue)
    ensures
        r@ == noted_shape(schema@, texts(omitted@)),
{
    assert(texts(omitted@).len() == omitted@.len());
    match schema {
        JsonValue::Object(members) => {
            if omitted.len() > 0 {
                let mut members = members;
                let ghost before = members@;
                let entry = (copy_text("x-leantoken-incomplete"), make_note(omitted));
                let ghost added = entry;
                members.push(entry);
                proof {
                    member_views_push(before, added);
                }
                JsonValue::Object(members)
            } else {
                JsonValue::Object(members)
            }
        },
        other => other,
    }
}

proof fn showing_ends(nodes: Seq<ShapeNode>, id: int, max_items: nat)
    requires
        0 <= id <= nodes.len(),
        nodes.len() <= max_items,
        id == nodes.len() || overflows(nodes, id, max_items),
    ensures
        shown_from(nodes, id, max_items) == (nodes, id),
{
}

/// Builds the shape of a value level by level, so that what is near the top is
/// shown first, and tells what could not be shown.
pub fn build_schema_breadth_first(value: &JsonValue, max_items: usize) -> (r: JsonValue)
    requires
        max_items > 0,
    ensures
        r@ == schema_of(value@, max_items as nat),
{
    let mut nodes: Vec<SchemaNode<'_>> = Vec::new();
    let empty = String::new();
    let top = String::new();
    proof {
        assert(empty@ =~= Seq::<char>::empty());
        assert(top@ =~= Seq::<char>::empty());
    }
    nodes.push(schema_node(value, empty, top));
    let ghost max = max_items as nat;
    let ghost start = seq![bare_node(value@, Seq::empty(), Seq::empty())];
    assert(views(nodes@) =~= start);
    let mut omitted: Vec<String> = Vec::new();
    let mut id: usize = 0;
    assert(texts(omitted@) =~= Seq::<Seq<char>>::empty());
    while id < nodes.len()
        invariant_except_break
            texts(omitted@) == Seq::<Seq<char>>::empty(),
            id <= nodes.len(),
            shown_from(start, 0, max) == shown_from(views(nodes@), id as int, max),
        invariant
            max == max_items,
            max_items > 0,
            start == seq![bare_node(value@, Seq::empty(), Seq::empty())],
            nodes.len() <= max_items,
            nodes.len() > 0,
            well_linked(views(nodes@)),
            views(nodes@).len() == nodes@.len(),
        ensures
            shape_of(value@, max) == (views(nodes@), texts(omitted@)),
        decreases max_items - id,
    {
        let ghost all = views(nodes@);
        assert(all[id as int] == nodes@[id as int]@);
        let inner: usize = inner_count(nodes[id].value);
        let room: usize = max_items - nodes.len();
        let keep: usize = if inner < room {
            inner
        } else {
            room
        };
        assert(inner == nodes_in(all[id as int], id == 0).len());
        assert(keep == room_for(all.len(), inner as nat, max));
        proof {
            opening_keeps_links(all, id as int, max);
        }
        if keep < inner {
            omitted = cut_roots(&nodes, id, keep, inner);
            assert(texts(omitted@) =~= roots_cut(all, id as int, max));
            proof {
                showing_ends(all, id as int, max);
            }
            nodes = open_node(nodes, id, keep, max_items);
            assert(views(nodes@).len() == nodes@.len());
            push_left_roots(&nodes, id + 1, &mut omitted);
            break;
        }
        nodes = open_node(nodes, id, keep, max_items);
        assert(views(nodes@).len() == nodes@.len());
        id += 1;
    }
    let schema = render_schema_node(&nodes, 0);
    let omitted = sort_unique_texts(omitted);
    note_omissions(schema, &omitted)
}

} // verus!
