//! The keys of a value, by pointer.

use crate::json::options::JsonKeyOrder;
use crate::json::pointer::{escape_pointer, escaped};
use crate::json::projection::{
    json_type, kind_name, left_out, one_taken, take_item, ProjectionState,
};
use crate::json::value::JsonValue;
use crate::json::view::{
    item_views, item_views_are, item_views_push, json_view, member_views, member_views_are,
    object_of_two, two_members, JsonView,
};
use crate::ordered::{sort_by, sorted_by, text_lt, text_precedes, views};
use crate::text::{appended, copy_text, same_text};
use vstd::prelude::*;

verus! {

/// A key of a value: where it stands, how deep, and what kind of value it has.
#[derive(Debug)]
pub struct JsonKey {
    pub pointer: String,
    pub depth: usize,
    pub kind: &'static str,
}

/// What a [`JsonKey`] says.
pub struct KeyView {
    pub pointer: Seq<char>,
    pub depth: usize,
    pub kind: Seq<char>,
}

impl View for JsonKey {
    type V = KeyView;

    open spec fn view(&self) -> KeyView {
        KeyView { pointer: self.pointer@, depth: self.depth, kind: self.kind@ }
    }
}

/// Whether a pointer is among keys.
pub open spec fn has_key(keys: Seq<KeyView>, pointer: Seq<char>) -> bool {
    exists|i: int| 0 <= i < keys.len() && (#[trigger] keys[i]).pointer == pointer
}

/// The pointer of a member.
pub open spec fn member_pointer(pointer: Seq<char>, key: Seq<char>) -> Seq<char> {
    pointer + "/"@ + escaped(key)
}

/// The pointer that stands for every item of an array.
pub open spec fn items_pointer(pointer: Seq<char>) -> Seq<char> {
    pointer + "/*"@
}

/// One more, where there is a larger number.
pub open spec fn deeper(depth: usize) -> usize {
    if depth == usize::MAX {
        usize::MAX
    } else {
        (depth + 1) as usize
    }
}

/// Keys with one for a value, where its pointer is not among them yet.
pub open spec fn with_key(
    keys: Seq<KeyView>,
    value: JsonView,
    pointer: Seq<char>,
    depth: usize,
) -> Seq<KeyView> {
    if has_key(keys, pointer) {
        keys
    } else {
        keys.push(KeyView { pointer, depth, kind: kind_name(value) })
    }
}

/// Whether a depth is as deep as keys are read.
pub open spec fn deep_enough(depth: usize, max_depth: Option<usize>) -> bool {
    match max_depth {
        Some(maximum) => depth >= maximum,
        None => false,
    }
}

/// Keys with those of a value, in the order in which they are met.
pub open spec fn keys_of(
    value: JsonView,
    pointer: Seq<char>,
    depth: usize,
    max_depth: Option<usize>,
    keys: Seq<KeyView>,
) -> Seq<KeyView>
    decreases value, 1int,
{
    let own = with_key(keys, value, pointer, depth);
    if deep_enough(depth, max_depth) {
        own
    } else {
        match value {
            JsonView::Object(members) => keys_of_members(
                members,
                pointer,
                deeper(depth),
                max_depth,
                own,
                members.len() as int,
            ),
            JsonView::Array(items) => keys_of_items(
                items,
                items_pointer(pointer),
                deeper(depth),
                max_depth,
                own,
                items.len() as int,
            ),
            _ => own,
        }
    }
}

/// Keys with those of the first `upto` members.
pub open spec fn keys_of_members(
    members: Seq<(Seq<char>, JsonView)>,
    pointer: Seq<char>,
    depth: usize,
    max_depth: Option<usize>,
    keys: Seq<KeyView>,
    upto: int,
) -> Seq<KeyView>
    decreases members, upto,
{
    if upto <= 0 || upto > members.len() {
        keys
    } else {
        keys_of(
            members[upto - 1].1,
            member_pointer(pointer, members[upto - 1].0),
            depth,
            max_depth,
            keys_of_members(members, pointer, depth, max_depth, keys, upto - 1),
        )
    }
}

/// Keys with those of the first `upto` items.
pub open spec fn keys_of_items(
    items: Seq<JsonView>,
    pointer: Seq<char>,
    depth: usize,
    max_depth: Option<usize>,
    keys: Seq<KeyView>,
    upto: int,
) -> Seq<KeyView>
    decreases items, upto,
{
    if upto <= 0 || upto > items.len() {
        keys
    } else {
        keys_of(
            items[upto - 1],
            pointer,
            depth,
            max_depth,
            keys_of_items(items, pointer, depth, max_depth, keys, upto - 1),
        )
    }
}

fn knows_key(keys: &Vec<JsonKey>, pointer: &str) -> (r: bool)
    ensures
        r == has_key(views(keys@), pointer@),
{
    let mut i: usize = 0;
    while i < keys.len()
        invariant
            i <= keys.len(),
            forall|k: int| 0 <= k < i ==> (#[trigger] views(keys@)[k]).pointer != pointer@,
        decreases keys.len() - i,
    {
        if same_text(keys[i].pointer.as_str(), pointer) {
            assert(views(keys@)[i as int].pointer == pointer@);
            return true;
        }
        i += 1;
    }
    false
}

fn push_key(keys: &mut Vec<JsonKey>, pointer: &str, depth: usize, kind: &'static str)
    ensures
        views(final(keys)@) == views(old(keys)@).push(
            KeyView { pointer: pointer@, depth, kind: kind@ },
        ),
{
    let ghost before = views(keys@);
    let key = JsonKey { pointer: copy_text(pointer), depth, kind };
    let ghost added = key@;
    keys.push(key);
    assert(views(keys@) =~= before.push(added));
}

fn point_to_member(pointer: &str, key: &str) -> (r: String)
    ensures
        r@ == member_pointer(pointer@, key@),
{
    let part = escape_pointer(key);
    appended(appended(copy_text(pointer), "/"), part.as_str())
}

/// Adds the keys of a value, down to a depth.
pub fn collect_all_keys(
    value: &JsonValue,
    pointer: &str,
    depth: usize,
    max_depth: Option<usize>,
    keys: &mut Vec<JsonKey>,
)
    ensures
        views(final(keys)@) == keys_of(value@, pointer@, depth, max_depth, views(old(keys)@)),
    decreases value, 1int,
{
    if !knows_key(&*keys, pointer) {
        push_key(keys, pointer, depth, json_type(value));
    }
    if let Some(maximum) = max_depth {
        if depth >= maximum {
            return;
        }
    }
    match value {
        JsonValue::Object(members) => {
            collect_member_keys(members, pointer, depth.saturating_add(1), max_depth, keys);
        },
        JsonValue::Array(items) => {
            let pointer = appended(copy_text(pointer), "/*");
            collect_item_keys(items, pointer.as_str(), depth.saturating_add(1), max_depth, keys);
        },
        _ => {},
    }
}

fn collect_member_keys(
    members: &Vec<(String, JsonValue)>,
    pointer: &str,
    depth: usize,
    max_depth: Option<usize>,
    keys: &mut Vec<JsonKey>,
)
    ensures
        views(final(keys)@) == keys_of_members(
            member_views(members@),
            pointer@,
            depth,
            max_depth,
            views(old(keys)@),
            member_views(members@).len() as int,
        ),
    decreases members, 0int,
{
    let ghost start = views(keys@);
    let ghost all = member_views(members@);
    proof {
        member_views_are(members@);
    }
    let mut i: usize = 0;
    while i < members.len()
        invariant
            i <= members.len(),
            all.len() == members@.len(),
            forall|k: int|
                0 <= k < all.len() ==> #[trigger] all[k] == (
                    members@[k].0@,
                    json_view(members@[k].1),
                ),
            views(keys@) == keys_of_members(all, pointer@, depth, max_depth, start, i as int),
        decreases members.len() - i,
    {
        let member = &members[i];
        assert(all[i as int] == (member.0@, json_view(member.1)));
        let pointer = point_to_member(pointer, member.0.as_str());
        collect_all_keys(&member.1, pointer.as_str(), depth, max_depth, keys);
        i += 1;
    }
}

fn collect_item_keys(
    items: &Vec<JsonValue>,
    pointer: &str,
    depth: usize,
    max_depth: Option<usize>,
    keys: &mut Vec<JsonKey>,
)
    ensures
        views(final(keys)@) == keys_of_items(
            item_views(items@),
            pointer@,
            depth,
            max_depth,
            views(old(keys)@),
            item_views(items@).len() as int,
        ),
    decreases items, 0int,
{
    let ghost start = views(keys@);
    let ghost all = item_views(items@);
    proof {
        item_views_are(items@);
    }
    let mut i: usize = 0;
    while i < items.len()
        invariant
            i <= items.len(),
            all.len() == items@.len(),
            forall|k: int| 0 <= k < all.len() ==> #[trigger] all[k] == json_view(items@[k]),
            views(keys@) == keys_of_items(all, pointer@, depth, max_depth, start, i as int),
        decreases items.len() - i,
    {
        assert(all[i as int] == json_view(items@[i as int]));
        collect_all_keys(&items[i], pointer, depth, max_depth, keys);
        i += 1;
    }
}

/// Keys in the order of their pointers.
pub open spec fn by_pointer() -> spec_fn(KeyView, KeyView) -> bool {
    |a: KeyView, b: KeyView| text_lt(a.pointer, b.pointer)
}

/// Keys in the order of their depth, and of their pointers at one depth.
pub open spec fn by_depth() -> spec_fn(KeyView, KeyView) -> bool {
    |a: KeyView, b: KeyView|
        a.depth < b.depth || (a.depth == b.depth && text_lt(a.pointer, b.pointer))
}

/// Keys in an order.
pub open spec fn ordered_keys(keys: Seq<KeyView>, order: JsonKeyOrder) -> Seq<KeyView> {
    match order {
        JsonKeyOrder::Pointer => sorted_by(keys, by_pointer()),
        JsonKeyOrder::DepthThenPointer => sorted_by(
            sorted_by(keys, by_pointer()),
            by_depth(),
        ),
    }
}

/// What is listed of a key.
pub open spec fn key_entry(key: KeyView) -> JsonView {
    two_members("pointer"@, JsonView::Text(key.pointer), "type"@, JsonView::Text(key.kind))
}

/// What is listed of keys.
pub open spec fn entries_of(keys: Seq<KeyView>) -> Seq<JsonView> {
    Seq::new(keys.len(), |i: int| key_entry(keys[i]))
}

/// The listed keys of a value.
pub open spec fn listed_keys(value: JsonView, max_depth: Option<usize>, order: JsonKeyOrder) -> Seq<
    JsonView,
> {
    entries_of(ordered_keys(keys_of(value, Seq::empty(), 0, max_depth, Seq::empty()), order))
}

fn pointer_precedes(a: &JsonKey, b: &JsonKey) -> (r: bool)
    ensures
        r == by_pointer()(a@, b@),
{
    text_precedes(&a.pointer, &b.pointer)
}

fn depth_precedes(a: &JsonKey, b: &JsonKey) -> (r: bool)
    ensures
        r == by_depth()(a@, b@),
{
    a.depth < b.depth || (a.depth == b.depth && text_precedes(&a.pointer, &b.pointer))
}

fn list_entries(keys: &Vec<JsonKey>) -> (r: Vec<JsonValue>)
    ensures
        item_views(r@) == entries_of(views(keys@)),
        r@.len() == keys@.len(),
{
    let ghost all = entries_of(views(keys@));
    let mut out: Vec<JsonValue> = Vec::new();
    let mut i: usize = 0;
    assert(item_views(out@) =~= all.take(0));
    while i < keys.len()
        invariant
            i <= keys.len(),
            all == entries_of(views(keys@)),
            out@.len() == i,
            item_views(out@) == all.take(i as int),
        decreases keys.len() - i,
    {
        let key = &keys[i];
        let entry = object_of_two(
            "pointer",
            JsonValue::Text(key.pointer.clone()),
            "type",
            JsonValue::Text(copy_text(key.kind)),
        );
        let ghost before = out@;
        let ghost added = entry;
        out.push(entry);
        proof {
            item_views_push(before, added);
            assert(added@ == all[i as int]);
            assert(all.take(i + 1) =~= all.take(i as int).push(all[i as int]));
        }
        i += 1;
    }
    assert(all.take(all.len() as int) =~= all);
    out
}

/// The keys of a value with the kinds of their values, each pointer once.
pub fn key_entries(value: &JsonValue, max_depth: Option<usize>, order: JsonKeyOrder) -> (r: Vec<
    JsonValue,
>)
    ensures
        item_views(r@) == listed_keys(value@, max_depth, order),
{
    let mut keys: Vec<JsonKey> = Vec::new();
    assert(views(keys@) =~= Seq::<KeyView>::empty());
    proof {
        reveal_strlit("");
        assert(""@ =~= Seq::<char>::empty());
    }
    collect_all_keys(value, "", 0, max_depth, &mut keys);
    let keys = sort_by(keys, pointer_precedes, Ghost(by_pointer()));
    let keys = match order {
        JsonKeyOrder::Pointer => keys,
        JsonKeyOrder::DepthThenPointer => sort_by(keys, depth_precedes, Ghost(by_depth())),
    };
    list_entries(&keys)
}

/// Keys, and what is left to take after them.
pub struct TakenKeys {
    pub keys: Seq<KeyView>,
    pub state: ProjectionState,
}

/// Keys with those of a value, as far as there is anything left to take. Below
/// a key that was left out nothing is read.
pub open spec fn keys_taken(value: JsonView, pointer: Seq<char>, taken: TakenKeys) -> TakenKeys
    decreases value, 1int,
{
    if !has_key(taken.keys, pointer) && taken.state.remaining == 0 {
        TakenKeys { keys: taken.keys, state: left_out(taken.state) }
    } else {
        let own = if has_key(taken.keys, pointer) {
            taken
        } else {
            TakenKeys {
                keys: taken.keys.push(KeyView { pointer, depth: 0, kind: kind_name(value) }),
                state: one_taken(taken.state),
            }
        };
        match value {
            JsonView::Object(members) => member_keys_taken(
                members,
                pointer,
                own,
                members.len() as int,
            ),
            JsonView::Array(items) => item_keys_taken(
                items,
                items_pointer(pointer),
                own,
                items.len() as int,
            ),
            _ => own,
        }
    }
}

/// Keys with those of the first `upto` members.
pub open spec fn member_keys_taken(
    members: Seq<(Seq<char>, JsonView)>,
    pointer: Seq<char>,
    taken: TakenKeys,
    upto: int,
) -> TakenKeys
    decreases members, upto,
{
    if upto <= 0 || upto > members.len() {
        taken
    } else {
        keys_taken(
            members[upto - 1].1,
            member_pointer(pointer, members[upto - 1].0),
            member_keys_taken(members, pointer, taken, upto - 1),
        )
    }
}

/// Keys with those of the first `upto` items.
pub open spec fn item_keys_taken(
    items: Seq<JsonView>,
    pointer: Seq<char>,
    taken: TakenKeys,
    upto: int,
) -> TakenKeys
    decreases items, upto,
{
    if upto <= 0 || upto > items.len() {
        taken
    } else {
        keys_taken(
            items[upto - 1],
            pointer,
            item_keys_taken(items, pointer, taken, upto - 1),
        )
    }
}

/// Adds the keys of a value, as far as there is anything left to take.
pub fn collect_keys(
    value: &JsonValue,
    pointer: &str,
    keys: &mut Vec<JsonKey>,
    state: &mut ProjectionState,
)
    ensures
        (TakenKeys { keys: views(final(keys)@), state: *final(state) }) == keys_taken(
            value@,
            pointer@,
            TakenKeys { keys: views(old(keys)@), state: *old(state) },
        ),
    decreases value, 1int,
{
    if !knows_key(&*keys, pointer) {
        if !take_item(state) {
            return;
        }
        push_key(keys, pointer, 0, json_type(value));
    }
    match value {
        JsonValue::Object(members) => {
            take_member_keys(members, pointer, keys, state);
        },
        JsonValue::Array(items) => {
            let pointer = appended(copy_text(pointer), "/*");
            take_item_keys(items, pointer.as_str(), keys, state);
        },
        _ => {},
    }
}

fn take_member_keys(
    members: &Vec<(String, JsonValue)>,
    pointer: &str,
    keys: &mut Vec<JsonKey>,
    state: &mut ProjectionState,
)
    ensures
        (TakenKeys { keys: views(final(keys)@), state: *final(state) }) == member_keys_taken(
            member_views(members@),
            pointer@,
            TakenKeys { keys: views(old(keys)@), state: *old(state) },
            member_views(members@).len() as int,
        ),
    decreases members, 0int,
{
    let ghost start = TakenKeys { keys: views(keys@), state: *state };
    let ghost all = member_views(members@);
    proof {
        member_views_are(members@);
    }
    let mut i: usize = 0;
    while i < members.len()
        invariant
            i <= members.len(),
            all.len() == members@.len(),
            forall|k: int|
                0 <= k < all.len() ==> #[trigger] all[k] == (
                    members@[k].0@,
                    json_view(members@[k].1),
                ),
            (TakenKeys { keys: views(keys@), state: *state }) == member_keys_taken(
                all,
                pointer@,
                start,
                i as int,
            ),
        decreases members.len() - i,
    {
        let member = &members[i];
        assert(all[i as int] == (member.0@, json_view(member.1)));
        let pointer = point_to_member(pointer, member.0.as_str());
        collect_keys(&member.1, pointer.as_str(), keys, state);
        i += 1;
    }
}

fn take_item_keys(
    items: &Vec<JsonValue>,
    pointer: &str,
    keys: &mut Vec<JsonKey>,
    state: &mut ProjectionState,
)
    ensures
        (TakenKeys { keys: views(final(keys)@), state: *final(state) }) == item_keys_taken(
            item_views(items@),
            pointer@,
            TakenKeys { keys: views(old(keys)@), state: *old(state) },
            item_views(items@).len() as int,
        ),
    decreases items, 0int,
{
    let ghost start = TakenKeys { keys: views(keys@), state: *state };
    let ghost all = item_views(items@);
    proof {
        item_views_are(items@);
    }
    let mut i: usize = 0;
    while i < items.len()
        invariant
            i <= items.len(),
            all.len() == items@.len(),
            forall|k: int| 0 <= k < all.len() ==> #[trigger] all[k] == json_view(items@[k]),
            (TakenKeys { keys: views(keys@), state: *state }) == item_keys_taken(
                all,
                pointer@,
                start,
                i as int,
            ),
        decreases items.len() - i,
    {
        assert(all[i as int] == json_view(items@[i as int]));
        collect_keys(&items[i], pointer, keys, state);
        i += 1;
    }
}

/// The listed keys of a value, as far as there is anything left to take, and
/// what is left then.
pub open spec fn keys_projected(value: JsonView, state: ProjectionState) -> (
    JsonView,
    ProjectionState,
) {
    let taken = keys_taken(value, Seq::empty(), TakenKeys { keys: Seq::empty(), state });
    (JsonView::Array(entries_of(sorted_by(taken.keys, by_pointer()))), taken.state)
}

/// Lists the keys of a value, as far as there is anything left to take.
pub fn project_keys(value: &JsonValue, state: &mut ProjectionState) -> (r: JsonValue)
    ensures
        (r@, *final(state)) == keys_projected(value@, *old(state)),
{
    let mut keys: Vec<JsonKey> = Vec::new();
    assert(views(keys@) =~= Seq::<KeyView>::empty());
    proof {
        reveal_strlit("");
        assert(""@ =~= Seq::<char>::empty());
    }
    collect_keys(value, "", &mut keys, state);
    let keys = sort_by(keys, pointer_precedes, Ghost(by_pointer()));
    JsonValue::Array(list_entries(&keys))
}

/// Whether no pointer is among keys twice.
pub open spec fn pointers_once(keys: Seq<KeyView>) -> bool {
    forall|i: int, j: int|
        0 <= i < j < keys.len() ==> (#[trigger] keys[i]).pointer != (#[trigger] keys[j]).pointer
}

/// Whatever keys are met, no pointer is listed twice.
pub proof fn keys_are_listed_once(
    value: JsonView,
    pointer: Seq<char>,
    depth: usize,
    max_depth: Option<usize>,
    keys: Seq<KeyView>,
)
    requires
        pointers_once(keys),
    ensures
        pointers_once(keys_of(value, pointer, depth, max_depth, keys)),
    decreases value, 1int,
{
    let own = with_key(keys, value, pointer, depth);
    assert(pointers_once(own));
    if !deep_enough(depth, max_depth) {
        match value {
            JsonView::Object(members) => {
                member_keys_are_listed_once(
                    members,
                    pointer,
                    deeper(depth),
                    max_depth,
                    own,
                    members.len() as int,
                );
            },
            JsonView::Array(items) => {
                item_keys_are_listed_once(
                    items,
                    items_pointer(pointer),
                    deeper(depth),
                    max_depth,
                    own,
                    items.len() as int,
                );
            },
            _ => {},
        }
    }
}

proof fn member_keys_are_listed_once(
    members: Seq<(Seq<char>, JsonView)>,
    pointer: Seq<char>,
    depth: usize,
    max_depth: Option<usize>,
    keys: Seq<KeyView>,
    upto: int,
)
    requires
        0 <= upto <= members.len(),
        pointers_once(keys),
    ensures
        pointers_once(keys_of_members(members, pointer, depth, max_depth, keys, upto)),
    decreases members, upto,
{
    if upto > 0 {
        member_keys_are_listed_once(members, pointer, depth, max_depth, keys, upto - 1);
        keys_are_listed_once(
            members[upto - 1].1,
            member_pointer(pointer, members[upto - 1].0),
            depth,
            max_depth,
            keys_of_members(members, pointer, depth, max_depth, keys, upto - 1),
        );
    }
}

proof fn item_keys_are_listed_once(
    items: Seq<JsonView>,
    pointer: Seq<char>,
    depth: usize,
    max_depth: Option<usize>,
    keys: Seq<KeyView>,
    upto: int,
)
    requires
        0 <= upto <= items.len(),
        pointers_once(keys),
    ensures
        pointers_once(keys_of_items(items, pointer, depth, max_depth, keys, upto)),
    decreases items, upto,
{
    if upto > 0 {
        item_keys_are_listed_once(items, pointer, depth, max_depth, keys, upto - 1);
        keys_are_listed_once(
            items[upto - 1],
            pointer,
            depth,
            max_depth,
            keys_of_items(items, pointer, depth, max_depth, keys, upto - 1),
        );
    }
}

/// A projection of keys never lists more of them than could be taken.
pub proof fn taken_keys_are_bounded(value: JsonView, pointer: Seq<char>, taken: TakenKeys)
    ensures
        keys_taken(value, pointer, taken).keys.len() + keys_taken(
            value,
            pointer,
            taken,
        ).state.remaining == taken.keys.len() + taken.state.remaining,
    decreases value, 1int,
{
    if has_key(taken.keys, pointer) || taken.state.remaining > 0 {
        let own = if has_key(taken.keys, pointer) {
            taken
        } else {
            TakenKeys {
                keys: taken.keys.push(KeyView { pointer, depth: 0, kind: kind_name(value) }),
                state: one_taken(taken.state),
            }
        };
        match value {
            JsonView::Object(members) => {
                taken_member_keys_are_bounded(members, pointer, own, members.len() as int);
            },
            JsonView::Array(items) => {
                taken_item_keys_are_bounded(
                    items,
                    items_pointer(pointer),
                    own,
                    items.len() as int,
                );
            },
            _ => {},
        }
    }
}

proof fn taken_member_keys_are_bounded(
    members: Seq<(Seq<char>, JsonView)>,
    pointer: Seq<char>,
    taken: TakenKeys,
    upto: int,
)
    requires
        0 <= upto <= members.len(),
    ensures
        member_keys_taken(members, pointer, taken, upto).keys.len() + member_keys_taken(
            members,
            pointer,
            taken,
            upto,
        ).state.remaining == taken.keys.len() + taken.state.remaining,
    decreases members, upto,
{
    if upto > 0 {
        taken_member_keys_are_bounded(members, pointer, taken, upto - 1);
        taken_keys_are_bounded(
            members[upto - 1].1,
            member_pointer(pointer, members[upto - 1].0),
            member_keys_taken(members, pointer, taken, upto - 1),
        );
    }
}

proof fn taken_item_keys_are_bounded(
    items: Seq<JsonView>,
    pointer: Seq<char>,
    taken: TakenKeys,
    upto: int,
)
    requires
        0 <= upto <= items.len(),
    ensures
        item_keys_taken(items, pointer, taken, upto).keys.len() + item_keys_taken(
            items,
            pointer,
            taken,
            upto,
        ).state.remaining == taken.keys.len() + taken.state.remaining,
    decreases items, upto,
{
    if upto > 0 {
        taken_item_keys_are_bounded(items, pointer, taken, upto - 1);
        taken_keys_are_bounded(
            items[upto - 1],
            pointer,
            item_keys_taken(items, pointer, taken, upto - 1),
        );
    }
}

} // verus!
