//! How shapes and streams are written.

use crate::cursor::{
    bytes_field, flag_field, number_field, service_start, stream_fields_are_delimited, CursorKind,
    ServiceIdentity,
};
use crate::history::paging::{all_pair_fields, comparison_fields, pair_fields};
use crate::history::request::PairView;
use crate::json::compare::{fresh_tally, rest_of};
use crate::json::keys::{key_entry, KeyView};
use crate::json::execution::JsonLimits;
use crate::json::schema::{
    by_json_text, items_shape, noted_shape, omission_note, room_for, shape_with, shaped_members,
};
use crate::json::view::{json_text, JsonView};
use crate::ordered::{
    put_all, put_all_len, put_stays_ordered, putting_adds_nothing, putting_leaves_nothing_out,
    strictly_ordered, text_lt, texts_are_in_line, weak_order,
};
use crate::text::decimal_text;
use vstd::prelude::*;
use vstd::utf8::{encode_utf8, encode_utf8_decode_utf8};

verus! {

proof fn texts_of_shapes_are_in_line()
    ensures
        weak_order(by_json_text()),
{
    let before = by_json_text();
    assert forall|a: JsonView, b: JsonView| #[trigger] before(a, b) implies !before(b, a) by {
        texts_are_in_line(json_text(a), json_text(b), json_text(a));
    }
    assert forall|a: JsonView, b: JsonView, c: JsonView|
        !(#[trigger] before(a, b)) && !(#[trigger] before(b, c)) implies !before(a, c) by {
        texts_are_in_line(json_text(a), json_text(b), json_text(c));
        texts_are_in_line(json_text(c), json_text(b), json_text(a));
    }
}

proof fn putting_all_stays_ordered(items: Seq<JsonView>)
    ensures
        strictly_ordered(put_all(items, by_json_text(), false), by_json_text()),
    decreases items.len(),
{
    if items.len() > 0 {
        putting_all_stays_ordered(items.drop_last());
        texts_of_shapes_are_in_line();
        put_stays_ordered(
            put_all(items.drop_last(), by_json_text(), false),
            items.last(),
            by_json_text(),
            false,
        );
    }
}

/// The items of an array without items have no shape. Where all items have one shape it is
/// theirs; where they have several, each of them is listed once, in the order of their
/// texts.
pub proof fn items_have_the_shapes_of_all(variants: Seq<JsonView>, k: int)
    ensures
        variants.len() == 0 ==> items_shape(variants) == JsonView::Object(Seq::empty()),
        variants.len() == 1 ==> items_shape(variants) == variants[0],
        variants.len() > 0 && !variants.contains(items_shape(variants)) ==> (items_shape(
            variants,
        ) matches JsonView::Object(parts) && parts.len() == 1 && parts[0].0 == "anyOf"@ && (
        parts[0].1 matches JsonView::Array(all) && {
            &&& 2 <= all.len() <= variants.len()
            &&& forall|i: int| 0 <= i < all.len() ==> variants.contains(#[trigger] all[i])
            &&& forall|i: int, j: int|
                0 <= i < j < all.len() ==> text_lt(
                    json_text(#[trigger] all[i]),
                    json_text(#[trigger] all[j]),
                )
        })),
{
    let before = by_json_text();
    let unique = put_all(variants, before, false);
    put_all_len(variants, before, false);
    putting_adds_nothing(variants, before, false);
    putting_all_stays_ordered(variants);
    if variants.len() > 0 {
        texts_of_shapes_are_in_line();
        let at = putting_leaves_nothing_out(variants, before, false, 0);
        assert(unique.len() > 0);
        assert(variants.contains(unique[0]));
        if variants.len() == 1 {
            let n = choose|n: int| 0 <= n < variants.len() && variants[n] == unique[0];
            assert(n == 0);
        }
        assert forall|i: int, j: int| 0 <= i < j < unique.len() implies text_lt(
            json_text(#[trigger] unique[i]),
            json_text(#[trigger] unique[j]),
        ) by {
            assert(before(unique[i], unique[j]));
        }
    }
}

/// The shape of an array tells how many items it has, and that of an object lists the
/// shapes of its members under their names.
pub proof fn shapes_tell_their_parts(
    items: Seq<JsonView>,
    members: Seq<(Seq<char>, JsonView)>,
    shapes: Seq<JsonView>,
    i: int,
)
    requires
        0 <= i < shapes.len(),
    ensures
        shape_with(JsonView::Array(items), shapes) matches JsonView::Object(parts)
            && parts.contains(("count"@, JsonView::Number(decimal_text(items.len()))))
            && parts.contains(("type"@, JsonView::Text("array"@))),
        shape_with(JsonView::Object(members), shapes) matches JsonView::Object(parts)
            && parts.contains(("type"@, JsonView::Text("object"@))) && parts.contains(
            ("properties"@, JsonView::Object(shaped_members(members, shapes))),
        ),
        shaped_members(members, shapes).len() == shapes.len(),
        shaped_members(members, shapes)[i] == (members[i].0, shapes[i]),
{
    if let JsonView::Object(parts) = shape_with(JsonView::Array(items), shapes) {
        assert(parts[0] == ("count"@, JsonView::Number(decimal_text(items.len()))));
        assert(parts[2] == ("type"@, JsonView::Text("array"@)));
    }
    if let JsonView::Object(parts) = shape_with(JsonView::Object(members), shapes) {
        assert(parts[0] == ("properties"@, JsonView::Object(shaped_members(members, shapes))));
        assert(parts[1] == ("type"@, JsonView::Text("object"@)));
    }
}

/// A shape that leaves nothing out stays as it is; one that does says how much, and names
/// no more than thirty-two of what it leaves out.
pub proof fn a_shape_tells_what_it_leaves_out(
    members: Seq<(Seq<char>, JsonView)>,
    omitted: Seq<Seq<char>>,
    shown: nat,
    wanted: nat,
    max_items: nat,
)
    ensures
        omitted.len() == 0 ==> noted_shape(JsonView::Object(members), omitted)
            == JsonView::Object(members),
        omitted.len() > 0 ==> noted_shape(JsonView::Object(members), omitted)
            == JsonView::Object(
            members.push(("x-leantoken-incomplete"@, omission_note(omitted))),
        ),
        omission_note(omitted) matches JsonView::Object(parts) && parts.len() == 2 && parts[0]
            == ("omitted_subtree_count"@, JsonView::Number(decimal_text(omitted.len())))
            && parts[1].0 == "omitted_subtree_pointers"@ && (parts[1].1 matches JsonView::Array(
            told,
        ) && told.len() <= 32 && told.len() <= omitted.len() && forall|i: int|
            0 <= i < told.len() ==> #[trigger] told[i] == JsonView::Text(omitted[i])),
        room_for(shown, wanted, max_items) <= wanted,
        shown <= max_items ==> shown + room_for(shown, wanted, max_items) <= max_items,
        shown + wanted <= max_items ==> room_for(shown, wanted, max_items) == wanted,
        shown <= max_items < shown + wanted ==> shown + room_for(shown, wanted, max_items)
            == max_items,
{
}

/// A key is listed with its pointer and its type.
pub proof fn a_key_is_listed_with_its_type(key: KeyView)
    ensures
        key_entry(key) == JsonView::Object(
            seq![("pointer"@, JsonView::Text(key.pointer)), ("type"@, JsonView::Text(key.kind))],
        ),
{
}

/// A comparison begins with all of its items left and nothing counted, and what is left of
/// a whole is what is not used.
pub proof fn a_comparison_begins_with_all_items_left(limits: JsonLimits, whole: usize, used: usize)
    ensures
        fresh_tally(limits).state.remaining == limits.max_items,
        fresh_tally(limits).state.array_sample_size == limits.array_sample_size,
        fresh_tally(limits).state.complete,
        fresh_tally(limits).total_items == 0,
        fresh_tally(limits).returned_items == 0,
        fresh_tally(limits).remaining_items == 0,
        fresh_tally(limits).projected_tokens == 0,
        !fresh_tally(limits).incomplete,
        used <= whole ==> rest_of(whole, used) + used == whole,
        used >= whole ==> rest_of(whole, used) == 0,
{
}

/// Each kind of cursor has a number of its own.
pub proof fn kinds_of_cursors_have_numbers_of_their_own(a: CursorKind, b: CursorKind)
    ensures
        a.number() == b.number() <==> a == b,
        1 <= a.number() <= 7,
{
}

proof fn regrouped(a: Seq<u8>, b: Seq<u8>, c: Seq<u8>, d: Seq<u8>, e: Seq<u8>)
    ensures
        a + b + c + d + e == a + (b + (c + (d + e))),
{
    assert(a + b + c + d + e =~= a + (b + (c + (d + e))));
}

proof fn same_beginnings_have_same_ends(start: Seq<u8>, a: Seq<u8>, b: Seq<u8>)
    requires
        start + a == start + b,
    ensures
        a == b,
{
    let n = start.len() as int;
    assert(a =~= (start + a).subrange(n, (start + a).len() as int));
    assert(b =~= (start + b).subrange(n, (start + b).len() as int));
}

/// Comparisons of other revisions are other streams: the same bytes are written only for
/// the same base and the same head.
pub proof fn other_revisions_are_other_streams(
    service: ServiceIdentity,
    targets: Seq<PairView>,
    base: Seq<char>,
    head: Seq<char>,
    other_targets: Seq<PairView>,
    other_base: Seq<char>,
    other_head: Seq<char>,
)
    requires
        encode_utf8("base_revision"@).len() <= u64::MAX,
        encode_utf8("head_revision"@).len() <= u64::MAX,
        encode_utf8(base).len() <= u64::MAX,
        encode_utf8(head).len() <= u64::MAX,
        encode_utf8(other_base).len() <= u64::MAX,
        encode_utf8(other_head).len() <= u64::MAX,
        comparison_fields(service, targets, base, head) == comparison_fields(
            service,
            other_targets,
            other_base,
            other_head,
        ),
    ensures
        base == other_base,
        head == other_head,
{
    let start = service_start(service, CursorKind::HistoryDiffSymbols);
    let b = bytes_field("base_revision"@, encode_utf8(base));
    let h = bytes_field("head_revision"@, encode_utf8(head));
    let n = number_field("target_count"@, targets.len() as usize);
    let p = all_pair_fields(targets, targets.len() as int);
    let other_b = bytes_field("base_revision"@, encode_utf8(other_base));
    let other_h = bytes_field("head_revision"@, encode_utf8(other_head));
    let other_n = number_field("target_count"@, other_targets.len() as usize);
    let other_p = all_pair_fields(other_targets, other_targets.len() as int);
    regrouped(start, b, h, n, p);
    regrouped(start, other_b, other_h, other_n, other_p);
    same_beginnings_have_same_ends(
        start,
        b + (h + (n + p)),
        other_b + (other_h + (other_n + other_p)),
    );
    stream_fields_are_delimited(
        "base_revision"@,
        encode_utf8(base),
        h + (n + p),
        "base_revision"@,
        encode_utf8(other_base),
        other_h + (other_n + other_p),
    );
    stream_fields_are_delimited(
        "head_revision"@,
        encode_utf8(head),
        n + p,
        "head_revision"@,
        encode_utf8(other_head),
        other_n + other_p,
    );
    encode_utf8_decode_utf8(base);
    encode_utf8_decode_utf8(other_base);
    encode_utf8_decode_utf8(head);
    encode_utf8_decode_utf8(other_head);
}

proof fn a_target_begins_with_its_base(pair: PairView, rest: Seq<u8>) -> (tail: Seq<u8>)
    ensures
        pair_fields(pair) + rest == bytes_field("base_path"@, encode_utf8(pair.base.path)) + (
        bytes_field("base_symbol"@, encode_utf8(pair.base.symbol)) + tail),
{
    let path = bytes_field("base_path"@, encode_utf8(pair.base.path));
    let symbol = bytes_field("base_symbol"@, encode_utf8(pair.base.symbol));
    match pair.given {
        None => {
            let flag = flag_field("head_override"@, false);
            regrouped(path, symbol, flag, rest, Seq::empty());
            assert(path + symbol + flag + rest + Seq::<u8>::empty() =~= path + symbol + flag
                + rest);
            flag + (rest + Seq::empty())
        },
        Some(head) => {
            let flag = flag_field("head_override"@, true);
            let a = bytes_field("head_path"@, encode_utf8(head.path));
            let b = bytes_field("head_symbol"@, encode_utf8(head.symbol));
            regrouped(path, symbol, flag, a, b + rest);
            assert(path + symbol + flag + a + b + rest =~= path + symbol + flag + a + (b + rest));
            flag + (a + (b + rest))
        },
    }
}

/// Other symbols are other streams: the same bytes are written for a target only where it
/// has the same path and the same symbol at its base.
pub proof fn other_symbols_are_other_streams(
    pair: PairView,
    rest: Seq<u8>,
    other: PairView,
    other_rest: Seq<u8>,
)
    requires
        encode_utf8("base_path"@).len() <= u64::MAX,
        encode_utf8("base_symbol"@).len() <= u64::MAX,
        encode_utf8(pair.base.path).len() <= u64::MAX,
        encode_utf8(pair.base.symbol).len() <= u64::MAX,
        encode_utf8(other.base.path).len() <= u64::MAX,
        encode_utf8(other.base.symbol).len() <= u64::MAX,
        pair_fields(pair) + rest == pair_fields(other) + other_rest,
    ensures
        pair.base.path == other.base.path,
        pair.base.symbol == other.base.symbol,
{
    let tail = a_target_begins_with_its_base(pair, rest);
    let other_tail = a_target_begins_with_its_base(other, other_rest);
    stream_fields_are_delimited(
        "base_path"@,
        encode_utf8(pair.base.path),
        bytes_field("base_symbol"@, encode_utf8(pair.base.symbol)) + tail,
        "base_path"@,
        encode_utf8(other.base.path),
        bytes_field("base_symbol"@, encode_utf8(other.base.symbol)) + other_tail,
    );
    stream_fields_are_delimited(
        "base_symbol"@,
        encode_utf8(pair.base.symbol),
        tail,
        "base_symbol"@,
        encode_utf8(other.base.symbol),
        other_tail,
    );
    encode_utf8_decode_utf8(pair.base.path);
    encode_utf8_decode_utf8(other.base.path);
    encode_utf8_decode_utf8(pair.base.symbol);
    encode_utf8_decode_utf8(other.base.symbol);
}

} // verus!
