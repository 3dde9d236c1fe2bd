//! What is said of JSON documents.

use crate::json::collapsed::{collapsed, collapsed_sample, least};
use crate::json::compare::{comparison_view, sides_compared, tally_finished, DiffTally};
use crate::json::execution::JsonLimits;
use crate::json::fit::shorter_page;
use crate::json::infer::inferred;
use crate::json::key_page::JsonIncompleteReason;
use crate::json::keys::{
    by_depth, by_pointer, deep_enough, deeper, keys_of, keys_of_items, keys_of_members,
    member_pointer, items_pointer, ordered_keys, with_key, KeyView,
};
use crate::json::numeric::{numbers_of, NumbersView};
use crate::json::options::JsonKeyOrder;
use crate::json::pointer::{child, place_named};
use crate::json::project::projected;
use crate::json::projection::{JsonProjection, ProjectionState};
use crate::json::request::{depth_fault, numbers_fault, query_cursor_fault};
use crate::json::response::{Completeness, FieldDiffView, JsonResponseView, query_view};
use crate::json::schema_page::{schema_chosen, SchemaProjection};
use crate::json::selection::SelectorView;
use crate::json::source::SourceView;
use crate::json::view::JsonView;
use crate::model::ResponseMeta;
use crate::ordered::{
    in_order, sorted_by, sorting_keeps_elements, sorting_orders, text_lt, texts_are_in_line,
    weak_order,
};
use crate::text::{decimal_round_trip, decimal_text};
use vstd::prelude::*;

verus! {

/// A difference of a field says of each document whether it has the field, and that
/// the field changed exactly where the two do not agree: where only one has it, or both
/// have it with other values.
pub proof fn a_difference_tells_its_sides<C: Fn(&str) -> usize>(
    count: C,
    old_side: Option<JsonView>,
    new_side: Option<JsonView>,
    selector: SelectorView,
    projection: JsonProjection,
    limits: JsonLimits,
    before: DiffTally,
    diff: FieldDiffView,
    after: DiffTally,
)
    requires
        sides_compared(
            count,
            old_side,
            new_side,
            selector,
            projection,
            limits,
            before,
            diff,
            after,
        ),
    ensures
        diff.selector == selector,
        diff.before_present <==> old_side is Some,
        diff.after_present <==> new_side is Some,
        diff.before_present != diff.after_present ==> diff.changed,
        !diff.before_present && !diff.after_present ==> !diff.changed,
        diff.before_present && diff.after_present ==> (diff.changed <==> old_side->0
            != new_side->0),
        !diff.before_present ==> diff.before is None,
        !diff.after_present ==> diff.after is None,
        projection is Value && diff.before_present ==> diff.before == old_side,
        projection is Value && diff.after_present ==> diff.after == new_side,
{
}

/// A comparison returns and leaves what there is: what it returns is no more than it
/// may, and with what it leaves makes up the whole. It is complete exactly where its
/// tally is, and tells counts and a reason only where it is not.
pub proof fn a_comparison_accounts_for_its_items(
    tally: DiffTally,
    projection: JsonProjection,
    max_items: usize,
    old_source: SourceView,
    new_source: SourceView,
    diffs: Seq<FieldDiffView>,
    meta: ResponseMeta,
)
    requires
        !(projection is Schema),
    ensures
        ({
            let done = tally_finished(tally, projection, max_items);
            let out = comparison_view(old_source, new_source, diffs, done, meta);
            &&& done.returned_items <= max_items
            &&& done.returned_items + done.remaining_items == done.total_items
            &&& done.total_items == tally.total_items
            &&& tally.total_items <= max_items ==> done.remaining_items == 0
            &&& done.incomplete <==> !tally.state.complete
            &&& out.result_complete <==> tally.state.complete
            &&& out.total_items is Some <==> !out.result_complete
            &&& out.returned_items is Some <==> !out.result_complete
            &&& out.remaining_items is Some <==> !out.result_complete
            &&& out.incomplete_reason is Some <==> !out.result_complete
            &&& !out.result_complete ==> out.total_items == Some(tally.total_items)
                && out.incomplete_reason == Some(JsonIncompleteReason::MaxItems)
            &&& out.differences == diffs
            &&& out.sources.len() == 2
            &&& out.sources[0] == old_source
            &&& out.sources[1] == new_source
            &&& out.value is None
        }),
{
}

/// A number is counted among the numbers as it is written; a truth value, a text or a
/// null is counted among the others; an empty array or object counts for nothing.
pub proof fn only_numbers_count_as_numbers(value: JsonView, before: NumbersView)
    requires
        before.others < usize::MAX,
    ensures
        value is Number ==> numbers_of(value, before).numbers == before.numbers.push(value->Number_0)
            && numbers_of(value, before).others == before.others,
        value is Null || value is Bool || value is Text ==> numbers_of(value, before).numbers
            == before.numbers && numbers_of(value, before).others == before.others + 1,
        value is Array && (value->Array_0).len() == 0 ==> numbers_of(value, before) == before,
        value is Object && (value->Object_0).len() == 0 ==> numbers_of(value, before) == before,
{
}

/// Every key is listed no deeper than asked, the value itself at depth zero.
pub proof fn keys_are_no_deeper_than_asked(
    value: JsonView,
    pointer: Seq<char>,
    depth: usize,
    most: usize,
    keys: Seq<KeyView>,
)
    requires
        depth <= most,
        forall|i: int| 0 <= i < keys.len() ==> (#[trigger] keys[i]).depth <= most,
    ensures
        forall|i: int|
            0 <= i < keys_of(value, pointer, depth, Some(most), keys).len() ==> (
            #[trigger] keys_of(value, pointer, depth, Some(most), keys)[i]).depth <= most,
        keys.len() == 0 ==> keys_of(value, pointer, depth, Some(most), keys).len() > 0,
        depth == most && keys.len() == 0 ==> keys_of(value, pointer, depth, Some(most), keys).len()
            == 1,
    decreases value, 1int,
{
    let own = with_key(keys, value, pointer, depth);
    if depth < most {
        match value {
            JsonView::Object(members) => {
                member_keys_are_no_deeper(
                    members,
                    pointer,
                    deeper(depth),
                    most,
                    own,
                    members.len() as int,
                );
            },
            JsonView::Array(items) => {
                item_keys_are_no_deeper(
                    items,
                    items_pointer(pointer),
                    deeper(depth),
                    most,
                    own,
                    items.len() as int,
                );
            },
            _ => {},
        }
    }
}

proof fn member_keys_are_no_deeper(
    members: Seq<(Seq<char>, JsonView)>,
    pointer: Seq<char>,
    depth: usize,
    most: usize,
    keys: Seq<KeyView>,
    upto: int,
)
    requires
        depth <= most,
        keys.len() > 0,
        forall|i: int| 0 <= i < keys.len() ==> (#[trigger] keys[i]).depth <= most,
    ensures
        forall|i: int|
            0 <= i < keys_of_members(members, pointer, depth, Some(most), keys, upto).len() ==> (
            #[trigger] keys_of_members(members, pointer, depth, Some(most), keys, upto)[i]).depth
                <= most,
        keys_of_members(members, pointer, depth, Some(most), keys, upto).len() > 0,
    decreases members, upto,
{
    if 0 < upto <= members.len() {
        member_keys_are_no_deeper(members, pointer, depth, most, keys, upto - 1);
        let before = keys_of_members(members, pointer, depth, Some(most), keys, upto - 1);
        keys_are_no_deeper_than_asked(
            members[upto - 1].1,
            member_pointer(pointer, members[upto - 1].0),
            depth,
            most,
            before,
        );
        keys_are_kept(
            members[upto - 1].1,
            member_pointer(pointer, members[upto - 1].0),
            depth,
            Some(most),
            before,
        );
    }
}

proof fn item_keys_are_no_deeper(
    items: Seq<JsonView>,
    pointer: Seq<char>,
    depth: usize,
    most: usize,
    keys: Seq<KeyView>,
    upto: int,
)
    requires
        depth <= most,
        keys.len() > 0,
        forall|i: int| 0 <= i < keys.len() ==> (#[trigger] keys[i]).depth <= most,
    ensures
        forall|i: int|
            0 <= i < keys_of_items(items, pointer, depth, Some(most), keys, upto).len() ==> (
            #[trigger] keys_of_items(items, pointer, depth, Some(most), keys, upto)[i]).depth
                <= most,
        keys_of_items(items, pointer, depth, Some(most), keys, upto).len() > 0,
    decreases items, upto,
{
    if 0 < upto <= items.len() {
        item_keys_are_no_deeper(items, pointer, depth, most, keys, upto - 1);
        let before = keys_of_items(items, pointer, depth, Some(most), keys, upto - 1);
        keys_are_no_deeper_than_asked(items[upto - 1], pointer, depth, most, before);
        keys_are_kept(items[upto - 1], pointer, depth, Some(most), before);
    }
}

/// Keys that are listed already stay where they are, and a value that is met adds
/// itself where its pointer is new, with its depth.
pub proof fn keys_are_kept(
    value: JsonView,
    pointer: Seq<char>,
    depth: usize,
    max_depth: Option<usize>,
    keys: Seq<KeyView>,
)
    ensures
        keys_of(value, pointer, depth, max_depth, keys).len() >= keys.len(),
        forall|i: int|
            0 <= i < keys.len() ==> #[trigger] keys_of(value, pointer, depth, max_depth, keys)[i]
                == keys[i],
        (forall|i: int| 0 <= i < keys.len() ==> (#[trigger] keys[i]).pointer != pointer)
            ==> keys_of(value, pointer, depth, max_depth, keys).len() > keys.len() && {
            let own = keys_of(value, pointer, depth, max_depth, keys)[keys.len() as int];
            own.pointer == pointer && own.depth == depth
        },
    decreases value, 1int,
{
    let own = with_key(keys, value, pointer, depth);
    let out = keys_of(value, pointer, depth, max_depth, keys);
    if !deep_enough(depth, max_depth) {
        match value {
            JsonView::Object(members) => {
                member_keys_are_kept(
                    members,
                    pointer,
                    deeper(depth),
                    max_depth,
                    own,
                    members.len() as int,
                );
            },
            JsonView::Array(items) => {
                item_keys_are_kept(
                    items,
                    items_pointer(pointer),
                    deeper(depth),
                    max_depth,
                    own,
                    items.len() as int,
                );
            },
            _ => {},
        }
    }
    assert(out.len() >= own.len());
    assert forall|i: int| 0 <= i < own.len() implies #[trigger] out[i] == own[i] by {}
    assert forall|i: int| 0 <= i < keys.len() implies #[trigger] out[i] == keys[i] by {
        assert(own[i] == keys[i]);
    }
    if forall|i: int| 0 <= i < keys.len() ==> (#[trigger] keys[i]).pointer != pointer {
        assert(out[keys.len() as int] == own[keys.len() as int]);
    }
}

proof fn member_keys_are_kept(
    members: Seq<(Seq<char>, JsonView)>,
    pointer: Seq<char>,
    depth: usize,
    max_depth: Option<usize>,
    keys: Seq<KeyView>,
    upto: int,
)
    ensures
        keys_of_members(members, pointer, depth, max_depth, keys, upto).len() >= keys.len(),
        forall|i: int|
            0 <= i < keys.len() ==> #[trigger] keys_of_members(
                members,
                pointer,
                depth,
                max_depth,
                keys,
                upto,
            )[i] == keys[i],
    decreases members, upto,
{
    if 0 < upto <= members.len() {
        member_keys_are_kept(members, pointer, depth, max_depth, keys, upto - 1);
        let before = keys_of_members(members, pointer, depth, max_depth, keys, upto - 1);
        keys_are_kept(
            members[upto - 1].1,
            member_pointer(pointer, members[upto - 1].0),
            depth,
            max_depth,
            before,
        );
        assert forall|i: int| 0 <= i < keys.len() implies #[trigger] keys_of_members(
            members,
            pointer,
            depth,
            max_depth,
            keys,
            upto,
        )[i] == keys[i] by {
            assert(before[i] == keys[i]);
        }
    }
}

proof fn item_keys_are_kept(
    items: Seq<JsonView>,
    pointer: Seq<char>,
    depth: usize,
    max_depth: Option<usize>,
    keys: Seq<KeyView>,
    upto: int,
)
    ensures
        keys_of_items(items, pointer, depth, max_depth, keys, upto).len() >= keys.len(),
        forall|i: int|
            0 <= i < keys.len() ==> #[trigger] keys_of_items(
                items,
                pointer,
                depth,
                max_depth,
                keys,
                upto,
            )[i] == keys[i],
    decreases items, upto,
{
    if 0 < upto <= items.len() {
        item_keys_are_kept(items, pointer, depth, max_depth, keys, upto - 1);
        let before = keys_of_items(items, pointer, depth, max_depth, keys, upto - 1);
        keys_are_kept(items[upto - 1], pointer, depth, max_depth, before);
        assert forall|i: int| 0 <= i < keys.len() implies #[trigger] keys_of_items(
            items,
            pointer,
            depth,
            max_depth,
            keys,
            upto,
        )[i] == keys[i] by {
            assert(before[i] == keys[i]);
        }
    }
}

proof fn pointers_order()
    ensures
        weak_order(by_pointer()),
{
    let before = by_pointer();
    assert forall|a: KeyView, b: KeyView| #[trigger] before(a, b) implies !before(b, a) by {
        texts_are_in_line(a.pointer, b.pointer, a.pointer);
    }
    assert forall|a: KeyView, b: KeyView, c: KeyView|
        !(#[trigger] before(a, b)) && !(#[trigger] before(b, c)) implies !before(a, c) by {
        texts_are_in_line(a.pointer, b.pointer, c.pointer);
    }
}

proof fn depths_order()
    ensures
        weak_order(by_depth()),
{
    let before = by_depth();
    assert forall|a: KeyView, b: KeyView| #[trigger] before(a, b) implies !before(b, a) by {
        texts_are_in_line(a.pointer, b.pointer, a.pointer);
    }
    assert forall|a: KeyView, b: KeyView, c: KeyView|
        !(#[trigger] before(a, b)) && !(#[trigger] before(b, c)) implies !before(a, c) by {
        texts_are_in_line(a.pointer, b.pointer, c.pointer);
    }
}

/// Keys come in the order that is asked for: by pointer, or the shallow ones first and
/// those of one depth by pointer. None is lost.
pub proof fn keys_come_in_the_order_asked_for(keys: Seq<KeyView>, order: JsonKeyOrder)
    ensures
        ordered_keys(keys, order).len() == keys.len(),
        ordered_keys(keys, order).to_multiset() == keys.to_multiset(),
        order is Pointer ==> forall|i: int, j: int|
            0 <= i < j < keys.len() ==> !text_lt(
                (#[trigger] ordered_keys(keys, order)[j]).pointer,
                (#[trigger] ordered_keys(keys, order)[i]).pointer,
            ),
        order is DepthThenPointer ==> forall|i: int, j: int|
            0 <= i < j < keys.len() ==> {
                let a = #[trigger] ordered_keys(keys, order)[i];
                let b = #[trigger] ordered_keys(keys, order)[j];
                &&& a.depth <= b.depth
                &&& a.depth == b.depth ==> !text_lt(b.pointer, a.pointer)
            },
{
    sorting_keeps_elements(keys, by_pointer());
    let first = sorted_by(keys, by_pointer());
    sorting_keeps_elements(first, by_depth());
    let out = ordered_keys(keys, order);
    if order is Pointer {
        assert(in_order(out, by_pointer())) by {
            pointers_order();
            sorting_orders(keys, by_pointer());
        }
        assert forall|i: int, j: int| 0 <= i < j < keys.len() implies !text_lt(
            (#[trigger] out[j]).pointer,
            (#[trigger] out[i]).pointer,
        ) by {
            assert(!by_pointer()(out[j], out[i]));
        }
    } else {
        assert(in_order(out, by_depth())) by {
            depths_order();
            sorting_orders(first, by_depth());
        }
        assert forall|i: int, j: int| 0 <= i < j < keys.len() implies {
            let a = #[trigger] out[i];
            let b = #[trigger] out[j];
            &&& a.depth <= b.depth
            &&& a.depth == b.depth ==> !text_lt(b.pointer, a.pointer)
        } by {
            assert(!by_depth()(out[j], out[i]));
        }
    }
}

/// Whether an array is collapsed to its number of items, how many are left out, and a
/// sample of the first.
pub open spec fn tells_array(out: JsonView, items: nat, sample_size: usize) -> bool {
    exists|sample: Seq<JsonView>|
        {
            &&& sample.len() <= items
            &&& sample.len() <= sample_size
            &&& out == JsonView::Object(
                seq![
                    (
                        "$array"@,
                        #[trigger] collapsed_array(items, (items - sample.len()) as nat, sample),
                    ),
                ],
            )
        }
}

/// An object that tells a count, what is left out of it, and a sample.
pub open spec fn collapsed_array(count: nat, omitted: nat, sample: Seq<JsonView>) -> JsonView {
    JsonView::Object(
        seq![
            ("count"@, JsonView::Number(decimal_text(count))),
            ("omitted"@, JsonView::Number(decimal_text(omitted))),
            ("sample"@, JsonView::Array(sample)),
        ],
    )
}

/// Collapsing keeps what is no array or object as it is, tells of an array how many
/// items it has and how many are left out of its sample, and takes one item for the
/// value itself. Where no item is left it says that something is left out.
pub proof fn collapsing_tells_what_it_leaves_out(value: JsonView, state: ProjectionState)
    ensures
        state.remaining == 0 ==> collapsed(value, state).0 is Null && !collapsed(
            value,
            state,
        ).1.complete,
        state.remaining > 0 && !(value is Array) && !(value is Object) ==> collapsed(value, state).0
            == value && collapsed(value, state).1.remaining == state.remaining - 1 && collapsed(
            value,
            state,
        ).1.complete == state.complete,
        state.remaining > 0 && value is Array ==> tells_array(
            collapsed(value, state).0,
            (value->Array_0).len(),
            state.array_sample_size,
        ),
        state.remaining > 0 && value is Object ==> collapsed(value, state).0 is Object,
{
    if state.remaining > 0 && value is Array {
        let items = value->Array_0;
        let taken = crate::json::projection::one_taken(state);
        let upto = least(items.len(), taken.array_sample_size);
        a_sample_is_short(items, taken, upto);
        let sample = collapsed_sample(items, taken, upto).0;
        assert(collapsed(value, state).0 == JsonView::Object(
            seq![
                (
                    "$array"@,
                    collapsed_array(items.len(), (items.len() - sample.len()) as nat, sample),
                ),
            ],
        ));
    }
}

proof fn a_sample_is_short(items: Seq<JsonView>, state: ProjectionState, upto: int)
    requires
        0 <= upto <= items.len(),
    ensures
        collapsed_sample(items, state, upto).0.len() <= upto,
    decreases upto,
{
    if upto > 0 {
        a_sample_is_short(items, state, upto - 1);
    }
}

/// The shape of a value that is no array or object is its type alone; where no item is
/// left it is unknown, and something is left out.
pub proof fn shapes_name_types(value: JsonView, state: ProjectionState)
    ensures
        state.remaining == 0 ==> inferred(value, state).0 == JsonView::Object(
            seq![("type"@, JsonView::Text("unknown"@))],
        ) && !inferred(value, state).1.complete,
        state.remaining > 0 && value is Bool ==> inferred(value, state).0 == JsonView::Object(
            seq![("type"@, JsonView::Text("boolean"@))],
        ),
        state.remaining > 0 && value is Number ==> inferred(value, state).0 == JsonView::Object(
            seq![("type"@, JsonView::Text("number"@))],
        ),
        state.remaining > 0 && value is Text ==> inferred(value, state).0 == JsonView::Object(
            seq![("type"@, JsonView::Text("string"@))],
        ),
        state.remaining > 0 && value is Null ==> inferred(value, state).0 == JsonView::Object(
            seq![("type"@, JsonView::Text("null"@))],
        ),
        state.remaining > 0 && value is Array ==> {
            &&& inferred(value, state).0 is Object
            &&& (inferred(value, state).0->Object_0).len() == 3
            &&& (inferred(value, state).0->Object_0)[0] == (
                "count"@,
                JsonView::Number(decimal_text((value->Array_0).len())),
            )
            &&& (inferred(value, state).0->Object_0)[2] == ("type"@, JsonView::Text("array"@))
        },
        state.remaining > 0 && value is Object ==> {
            &&& inferred(value, state).0 is Object
            &&& (inferred(value, state).0->Object_0).len() == 2
            &&& (inferred(value, state).0->Object_0)[0].0 == "properties"@
            &&& (inferred(value, state).0->Object_0)[1] == ("type"@, JsonView::Text("object"@))
        },
{
}

/// A whole value is returned as it is where its parts fit the items that are left, and
/// refused with their number where they do not.
pub proof fn a_whole_value_is_returned_or_refused(value: JsonView, state: ProjectionState)
    ensures
        projected(value, JsonProjection::Value, state).0 is Ok ==> projected(
            value,
            JsonProjection::Value,
            state,
        ).0->Ok_0 == value,
        projected(value, JsonProjection::Value, state).0 is Ok
            <==> crate::json::projection::node_count(value) <= state.remaining,
        projected(value, JsonProjection::Value, state).0 is Ok ==> projected(
            value,
            JsonProjection::Value,
            state,
        ).1.remaining + crate::json::projection::node_count(value) == state.remaining,
        projected(value, JsonProjection::Schema, state).0 is Err,
        projected(value, JsonProjection::Keys, state).0 is Ok,
        projected(value, JsonProjection::Collapsed, state).0 is Ok,
{
}

proof fn digits_begin_plainly(n: nat)
    ensures
        decimal_text(n).len() > 0,
        n > 0 ==> decimal_text(n)[0] != '0',
        n < 10 ==> decimal_text(n).len() == 1,
    decreases n,
{
    if n >= 10 {
        digits_begin_plainly(n / 10);
        assert(decimal_text(n)[0] == decimal_text(n / 10)[0]);
    }
}

/// An item of an array is named by its place, counted from zero and written without
/// leading zeros; a place behind the last names nothing.
pub proof fn an_item_is_named_by_its_place(items: Seq<JsonView>, place: usize)
    ensures
        place < items.len() ==> child(JsonView::Array(items), decimal_text(place as nat)) == Some(
            items[place as int],
        ),
        place >= items.len() ==> child(JsonView::Array(items), decimal_text(place as nat)) is None,
{
    decimal_round_trip(place as nat, usize::MAX as nat);
    digits_begin_plainly(place as nat);
    let text = decimal_text(place as nat);
    assert(crate::text::is_digit(text[0]));
    assert(place_named(text) == Some(place as nat));
}

/// A member of an object is named by its key; a key that no member has names nothing,
/// and nothing is named in what is no array or object.
pub proof fn a_member_is_named_by_its_key(
    members: Seq<(Seq<char>, JsonView)>,
    key: Seq<char>,
    at: int,
)
    requires
        forall|i: int, j: int|
            0 <= i < j < members.len() ==> (#[trigger] members[i]).0 != (#[trigger] members[j]).0,
    ensures
        0 <= at < members.len() && members[at].0 == key ==> child(JsonView::Object(members), key)
            == Some(members[at].1),
        (forall|i: int| 0 <= i < members.len() ==> (#[trigger] members[i]).0 != key) ==> child(
            JsonView::Object(members),
            key,
        ) is None,
        child(JsonView::Null, key) is None,
        child(JsonView::Text(key), key) is None,
{
    let p = crate::json::pointer::keyed(key);
    crate::lists::tally_bounds(members, p);
    let first = crate::lists::first_where(members, p);
    if 0 <= at < members.len() && members[at].0 == key {
        assert(p(members[at]));
        assert(first <= at) by {
            if first > at {
                assert(!p(members[at]));
            }
        }
        assert(p(members[first]));
        if first < at {
            assert(members[first].0 != members[at].0);
        }
    }
    if forall|i: int| 0 <= i < members.len() ==> (#[trigger] members[i]).0 != key {
        if first < members.len() {
            assert(p(members[first]));
        }
    }
}

/// A page of a shape returns at least one item and no more than it may, and what it
/// returns and what remains make up the whole. It says why it is incomplete exactly
/// where something remains: its items ran out, or its tokens did before.
pub proof fn a_page_of_a_shape_accounts_for_its_items<C: Fn(&str) -> usize>(
    count: C,
    value: JsonView,
    max_items: usize,
    max_tokens: usize,
    out: SchemaProjection,
)
    requires
        max_items > 0,
        crate::json::projection::node_count(value) > 0,
        schema_chosen(count, value, max_items, max_tokens, out),
    ensures
        1 <= out.returned_items <= max_items,
        out.projected_tokens <= max_tokens,
        out.returned_items + out.remaining_items == out.total_items,
        out.incomplete_reason is None <==> out.remaining_items == 0,
        out.incomplete_reason == Some(JsonIncompleteReason::MaxItems) ==> out.returned_items
            == max_items,
        out.incomplete_reason == Some(JsonIncompleteReason::MaxTokens) ==> out.returned_items
            < max_items,
{
}

/// A page of keys that is cut shorter holds its first entries, says how many there are
/// and how many remain, and is complete exactly where none does.
pub proof fn a_shorter_page_tells_what_remains(
    view: JsonResponseView,
    entries: Seq<JsonView>,
    keep: usize,
    offset: usize,
    meta: ResponseMeta,
)
    requires
        keep <= entries.len(),
        offset + keep <= usize::MAX,
        view.total_items is Some,
    ensures
        ({
            let out = shorter_page(view, entries, keep, offset, meta);
            &&& out.returned_items == Some(keep)
            &&& out.remaining_items is Some
            &&& offset + keep <= view.total_items->0 ==> offset + keep + out.remaining_items->0
                == view.total_items->0
            &&& out.result_complete <==> out.remaining_items->0 == 0
            &&& out.incomplete_reason is Some <==> !out.result_complete
            &&& out.value == Some(JsonView::Array(entries.take(keep as int)))
            &&& out.total_items == view.total_items
        }),
{
}

/// The answer to a query is complete exactly where nothing remains, and repeats the
/// counts and the reason of its page.
pub proof fn an_answer_is_complete_where_nothing_remains(
    source: SourceView,
    value: JsonView,
    completeness: Option<Completeness>,
    meta: ResponseMeta,
)
    ensures
        ({
            let out = query_view(source, value, completeness, meta);
            &&& out.value == Some(value)
            &&& out.sources == seq![source]
            &&& completeness is None ==> out.result_complete && out.total_items is None
            &&& completeness is Some ==> {
                &&& out.result_complete <==> (completeness->0).remaining == 0
                &&& out.total_items == Some((completeness->0).total)
                &&& out.returned_items == Some((completeness->0).returned)
                &&& out.remaining_items == Some((completeness->0).remaining)
                &&& out.incomplete_reason == (completeness->0).reason
            }
        }),
{
}

/// A request may ask for one to ten thousand items, for samples of up to twenty, and
/// for keys down to a depth of sixty-four; anything else is refused. Only a query for
/// keys goes on by a cursor.
pub proof fn requests_stay_within_their_limits(
    items: Option<usize>,
    sample: Option<usize>,
    depth: Option<usize>,
    cursor: Option<Seq<char>>,
    projection: JsonProjection,
)
    ensures
        numbers_fault(items, sample) is None <==> (items is Some ==> 1 <= items->0 <= 10000) && (
        sample is Some ==> sample->0 <= 20),
        depth_fault(depth) is None <==> (depth is Some ==> depth->0 <= 64),
        cursor is None ==> query_cursor_fault(cursor, projection) is None,
        cursor is Some && !(projection is Keys) ==> query_cursor_fault(cursor, projection) is Some,
{
}

} // verus!
