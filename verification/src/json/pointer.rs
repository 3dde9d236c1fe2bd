//! JSON pointers.

use crate::json::value::JsonValue;
use crate::json::view::{
    item_views, item_views_are, json_view, member_views, member_views_are, JsonView,
};
use crate::lists::{first_where, tally, tally_bounds};
use crate::text::{
    chars_of, number_of, only, parse_number, pieces, pieces_exist, same_text, split_on, text_of_all,
    texts,
};
use vstd::prelude::*;

verus! {

/// What stands for a character in a pointer.
pub open spec fn escaped_char(c: char) -> Seq<char> {
    if c == '~' {
        seq!['~', '0']
    } else if c == '/' {
        seq!['~', '1']
    } else {
        seq![c]
    }
}

/// What stands for a key in a pointer.
pub open spec fn escaped(key: Seq<char>) -> Seq<char>
    decreases key.len(),
{
    if key.len() == 0 {
        Seq::empty()
    } else {
        escaped(key.drop_last()) + escaped_char(key.last())
    }
}

/// The key that a part of a pointer stands for.
pub open spec fn unescaped(part: Seq<char>) -> Seq<char>
    decreases part.len(),
{
    if part.len() == 0 {
        Seq::empty()
    } else if part.len() >= 2 && part[part.len() - 2] == '~' && part.last() == '0' {
        unescaped(part.take(part.len() - 2)).push('~')
    } else if part.len() >= 2 && part[part.len() - 2] == '~' && part.last() == '1' {
        unescaped(part.take(part.len() - 2)).push('/')
    } else {
        unescaped(part.drop_last()).push(part.last())
    }
}

/// What stands for a key in a pointer.
pub fn escape_pointer(key: &str) -> (r: String)
    ensures
        r@ == escaped(key@),
{
    let chars = chars_of(key);
    let mut out = String::new();
    let mut i: usize = 0;
    assert(out@ =~= escaped(key@.take(0)));
    while i < chars.len()
        invariant
            i <= chars.len(),
            chars@ == key@,
            out@ == escaped(key@.take(i as int)),
        decreases chars.len() - i,
    {
        let c = chars[i];
        let ghost before = out@;
        if c == '~' {
            out.push('~');
            out.push('0');
        } else if c == '/' {
            out.push('~');
            out.push('1');
        } else {
            out.push(c);
        }
        assert(out@ =~= before + escaped_char(c));
        assert(key@.take(i + 1).drop_last() =~= key@.take(i as int));
        i += 1;
    }
    assert(key@.take(key@.len() as int) =~= key@);
    out
}

/// The key that a part of a pointer stands for.
pub fn unescape_pointer(part: &str) -> (r: String)
    ensures
        r@ == unescaped(part@),
{
    let chars = chars_of(part);
    let mut out: Vec<char> = Vec::new();
    let mut i: usize = 0;
    assert(out@ =~= unescaped(part@.take(0)));
    while i < chars.len()
        invariant
            i <= chars.len(),
            chars@ == part@,
            out@ == unescaped(part@.take(i as int)),
        decreases chars.len() - i,
    {
        let c = chars[i];
        let ghost seen = part@.take(i + 1);
        assert(seen.drop_last() =~= part@.take(i as int));
        if i > 0 && chars[i - 1] == '~' && (c == '0' || c == '1') {
            proof {
                let before = part@.take(i as int);
                assert(before.last() == '~');
                assert(before.drop_last() =~= seen.take(seen.len() - 2));
                assert(unescaped(before) == unescaped(before.drop_last()).push('~'));
                assert(out@.drop_last() =~= unescaped(before.drop_last()));
            }
            if c == '1' {
                let _ = out.pop();
                out.push('/');
            }
            assert(out@ =~= unescaped(seen));
        } else {
            out.push(c);
            assert(out@ =~= unescaped(seen));
        }
        i += 1;
    }
    assert(part@.take(part@.len() as int) =~= part@);
    text_of_all(&out)
}

/// The place in an array that a part of a pointer names.
pub open spec fn place_named(part: Seq<char>) -> Option<nat> {
    if part.len() > 0 && (part[0] == '+' || (part[0] == '0' && part.len() != 1)) {
        None
    } else {
        number_of(part, usize::MAX as nat)
    }
}

/// Members with a key.
pub open spec fn keyed(key: Seq<char>) -> spec_fn((Seq<char>, JsonView)) -> bool {
    |member: (Seq<char>, JsonView)| member.0 == key
}

/// What a value holds under a key or at a place.
pub open spec fn child(value: JsonView, key: Seq<char>) -> Option<JsonView> {
    match value {
        JsonView::Object(members) => {
            let at = first_where(members, keyed(key));
            if at < members.len() {
                Some(members[at].1)
            } else {
                None
            }
        },
        JsonView::Array(items) => match place_named(key) {
            Some(at) => if at < items.len() {
                Some(items[at as int])
            } else {
                None
            },
            None => None,
        },
        _ => None,
    }
}

/// What the first `upto` parts lead to.
pub open spec fn led_to(value: JsonView, parts: Seq<Seq<char>>, upto: int) -> Option<JsonView>
    decreases upto,
{
    if upto <= 0 || upto > parts.len() {
        Some(value)
    } else {
        match led_to(value, parts, upto - 1) {
            Some(inner) => child(inner, unescaped(parts[upto - 1])),
            None => None,
        }
    }
}

/// What a pointer leads to. An empty pointer leads to the whole value; another
/// starts with a slash, and each slash is followed by a key or a place.
pub open spec fn pointed(value: JsonView, pointer: Seq<char>) -> Option<JsonView> {
    if pointer.len() == 0 {
        Some(value)
    } else if pointer[0] != '/' {
        None
    } else {
        let parts = pieces(pointer, only('/')).skip(1);
        led_to(value, parts, parts.len() as int)
    }
}

fn place_of(part: &str) -> (r: Option<usize>)
    ensures
        place_named(part@) == match r {
            Some(at) => Some(at as nat),
            None => None,
        },
{
    let chars = chars_of(part);
    if chars.len() > 0 && (chars[0] == '+' || (chars[0] == '0' && chars.len() != 1)) {
        return None;
    }
    match parse_number(part, usize::MAX as u64) {
        Some(at) => Some(at as usize),
        None => None,
    }
}

fn child_of<'a>(value: &'a JsonValue, key: &str) -> (r: Option<&'a JsonValue>)
    ensures
        child(value@, key@) == match r {
            Some(inner) => Some(inner@),
            None => None,
        },
{
    match value {
        JsonValue::Object(members) => {
            let ghost all = member_views(members@);
            proof {
                member_views_are(members@);
                tally_bounds(all, keyed(key@));
            }
            let mut i: usize = 0;
            while i < members.len()
                invariant
                    i <= members.len(),
                    all == member_views(members@),
                    all.len() == members@.len(),
                    value@ == JsonView::Object(all),
                    forall|k: int|
                        0 <= k < all.len() ==> #[trigger] all[k] == (
                            members@[k].0@,
                            json_view(members@[k].1),
                        ),
                    forall|k: int| 0 <= k < i ==> !keyed(key@)(#[trigger] all[k]),
                    0 <= first_where(all, keyed(key@)) <= all.len(),
                    tally(all, keyed(key@)) > 0 <==> first_where(all, keyed(key@)) < all.len(),
                    tally(all, keyed(key@)) > 0 ==> keyed(key@)(
                        all[first_where(all, keyed(key@))],
                    ),
                    forall|k: int|
                        0 <= k < first_where(all, keyed(key@)) ==> !keyed(key@)(
                            #[trigger] all[k],
                        ),
                decreases members.len() - i,
            {
                let member = &members[i];
                assert(all[i as int] == (member.0@, json_view(member.1)));
                if same_text(member.0.as_str(), key) {
                    assert(keyed(key@)(all[i as int]));
                    assert(first_where(all, keyed(key@)) == i);
                    return Some(&member.1);
                }
                i += 1;
            }
            None
        },
        JsonValue::Array(items) => {
            proof {
                item_views_are(items@);
            }
            match place_of(key) {
                Some(at) => if at < items.len() {
                    assert(item_views(items@)[at as int] == json_view(items@[at as int]));
                    Some(&items[at])
                } else {
                    None
                },
                None => None,
            }
        },
        _ => None,
    }
}

/// What a pointer leads to.
pub fn find_pointer<'a>(value: &'a JsonValue, pointer: &str) -> (r: Option<&'a JsonValue>)
    ensures
        pointed(value@, pointer@) == match r {
            Some(inner) => Some(inner@),
            None => None,
        },
{
    let chars = chars_of(pointer);
    if chars.len() == 0 {
        return Some(value);
    }
    if chars[0] != '/' {
        return None;
    }
    let list = split_on(pointer, '/');
    let ghost parts = pieces(pointer@, only('/')).skip(1);
    let mut current: &JsonValue = value;
    let mut i: usize = 1;
    while i < list.len()
        invariant
            1 <= i <= list.len(),
            texts(list@) == pieces(pointer@, only('/')),
            parts == pieces(pointer@, only('/')).skip(1),
            parts.len() == list.len() - 1,
            pointer@.len() > 0,
            pointer@[0] == '/',
            led_to(value@, parts, i - 1) == Some(current@),
        decreases list.len() - i,
    {
        assert(parts[i - 1] == texts(list@)[i as int]);
        let key = unescape_pointer(list[i].as_str());
        match child_of(current, key.as_str()) {
            Some(inner) => {
                current = inner;
            },
            None => {
                proof {
                    lost_stays_lost(value@, parts, i as int, parts.len() as int);
                }
                return None;
            },
        }
        i += 1;
    }
    Some(current)
}

proof fn lost_stays_lost(value: JsonView, parts: Seq<Seq<char>>, from: int, upto: int)
    requires
        0 <= from <= upto <= parts.len(),
        led_to(value, parts, from) is None,
    ensures
        led_to(value, parts, upto) is None,
    decreases upto - from,
{
    if from < upto {
        lost_stays_lost(value, parts, from, upto - 1);
    }
}

proof fn lemma_escaped_end(key: Seq<char>)
    requires
        key.len() > 0,
    ensures
        escaped(key).len() > 0,
        escaped(key).last() != '~',
{
    let tail = escaped_char(key.last());
    assert(escaped(key).last() == tail.last());
}

/// A key comes back from what stands for it in a pointer.
pub proof fn escape_round_trip(key: Seq<char>)
    ensures
        unescaped(escaped(key)) == key,
    decreases key.len(),
{
    if key.len() > 0 {
        let front = key.drop_last();
        escape_round_trip(front);
        if front.len() > 0 {
            lemma_escaped_end(front);
        }
        let part = escaped(key);
        let c = key.last();
        if c == '~' || c == '/' {
            assert(part.take(part.len() - 2) =~= escaped(front));
        } else {
            assert(part.drop_last() =~= escaped(front));
            if part.len() >= 2 {
                assert(part[part.len() - 2] == escaped(front).last());
            }
        }
        assert(unescaped(part) =~= front.push(c));
        assert(key =~= front.push(c));
    }
}

proof fn escaped_has_no_slash(key: Seq<char>)
    ensures
        forall|i: int| 0 <= i < escaped(key).len() ==> #[trigger] escaped(key)[i] != '/',
    decreases key.len(),
{
    if key.len() > 0 {
        escaped_has_no_slash(key.drop_last());
        let front = escaped(key.drop_last());
        assert forall|i: int| 0 <= i < escaped(key).len() implies #[trigger] escaped(key)[i]
            != '/' by {
            if i < front.len() {
                assert(escaped(key)[i] == front[i]);
            } else {
                assert(escaped(key)[i] == escaped_char(key.last())[i - front.len()]);
            }
        }
    }
}

proof fn one_piece_more(before: Seq<char>, part: Seq<char>)
    requires
        forall|i: int| 0 <= i < part.len() ==> #[trigger] part[i] != '/',
    ensures
        pieces(before.push('/') + part, only('/')) == pieces(before, only('/')).push(part),
    decreases part.len(),
{
    let sep = only('/');
    let whole = before.push('/') + part;
    if part.len() == 0 {
        assert(whole =~= before.push('/'));
        assert(before.push('/').drop_last() =~= before);
        assert(sep('/'));
        assert(part =~= Seq::<char>::empty());
    } else {
        let front = part.drop_last();
        one_piece_more(before, front);
        assert(whole.drop_last() =~= before.push('/') + front);
        assert(whole.last() == part.last());
        assert(!sep(whole.last()));
        assert(front.push(part.last()) =~= part);
        let list = pieces(before, sep).push(front);
        assert(list.update(list.len() - 1, list.last().push(part.last())) =~= pieces(
            before,
            sep,
        ).push(part));
    }
}

proof fn same_parts_lead_alike(
    value: JsonView,
    parts: Seq<Seq<char>>,
    more: Seq<Seq<char>>,
    upto: int,
)
    requires
        0 <= upto <= parts.len() <= more.len(),
        forall|i: int| 0 <= i < upto ==> #[trigger] more[i] == parts[i],
    ensures
        led_to(value, more, upto) == led_to(value, parts, upto),
    decreases upto,
{
    if upto > 0 {
        same_parts_lead_alike(value, parts, more, upto - 1);
        assert(more[upto - 1] == parts[upto - 1]);
    }
}

/// A pointer that goes on with a slash and what stands for a key leads to what
/// stands under that key where the pointer led.
pub proof fn a_pointer_goes_on_by_a_key(value: JsonView, pointer: Seq<char>, key: Seq<char>)
    requires
        pointer.len() == 0 || pointer[0] == '/',
    ensures
        pointed(value, pointer.push('/') + escaped(key)) == match pointed(value, pointer) {
            Some(inner) => child(inner, key),
            None => None,
        },
{
    let sep = only('/');
    let longer = pointer.push('/') + escaped(key);
    escaped_has_no_slash(key);
    one_piece_more(pointer, escaped(key));
    escape_round_trip(key);
    pieces_exist(pointer, sep);
    assert(longer[0] == '/');
    let parts = pieces(pointer, sep).skip(1);
    let more = pieces(longer, sep).skip(1);
    assert(more =~= parts.push(escaped(key)));
    if pointer.len() == 0 {
        assert(parts.len() == 0);
        assert(led_to(value, more, 0) == Some(value));
    } else {
        same_parts_lead_alike(value, parts, more, parts.len() as int);
    }
    assert(more[more.len() - 1] == escaped(key));
}

} // verus!
