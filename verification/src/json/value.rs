//! JSON values and their fingerprints.

use crate::cursor::{blake3_digest, blake3_hash, push_bytes};
use crate::ordered::{
    in_order, sort_by, sorted_by, sorting_keeps_elements, sorting_orders, text_lt, views,
    weak_order,
};
use crate::text::{hex_of, hex_text, same_text, text_before, text_order};
use vstd::bytes::{spec_u64_to_le_bytes, u64_to_le_bytes};
use vstd::prelude::*;
use vstd::utf8::encode_utf8;

verus! {

/// A JSON value. A number is kept as its text.
#[derive(Debug, PartialEq, Eq)]
pub enum JsonValue {
    Null,
    Bool(bool),
    Number(String),
    Text(String),
    Array(Vec<JsonValue>),
    Object(Vec<(String, JsonValue)>),
}

/// What one member adds to the fingerprint of its object.
#[verifier::ext_equal]
pub struct MemberView {
    pub key: Seq<char>,
    pub image: Seq<u8>,
}

struct Member {
    key: String,
    image: Vec<u8>,
}

impl View for Member {
    type V = MemberView;

    closed spec fn view(&self) -> MemberView {
        MemberView { key: self.key@, image: self.image@ }
    }
}

/// Members in the order of their keys.
pub open spec fn by_key() -> spec_fn(MemberView, MemberView) -> bool {
    |a: MemberView, b: MemberView| text_lt(a.key, b.key)
}

/// Keys and values one after another, each key behind its length.
pub open spec fn member_bytes(members: Seq<MemberView>) -> Seq<u8>
    decreases members.len(),
{
    if members.len() == 0 {
        Seq::empty()
    } else {
        let last = members.last();
        member_bytes(members.drop_last()) + spec_u64_to_le_bytes(
            encode_utf8(last.key).len() as u64,
        ) + encode_utf8(last.key) + last.image
    }
}

/// The bytes of an object with the given members.
pub open spec fn object_image(members: Seq<MemberView>) -> Seq<u8> {
    seq![111u8] + spec_u64_to_le_bytes(members.len() as u64) + member_bytes(
        sorted_by(members, by_key()),
    )
}

/// The bytes that stand for a value in its fingerprint.
pub open spec fn image(value: JsonValue) -> Seq<u8>
    decreases value,
{
    match value {
        JsonValue::Null => seq![110u8],
        JsonValue::Bool(b) => if b {
            seq![98u8, 49u8]
        } else {
            seq![98u8, 48u8]
        },
        JsonValue::Number(text) => seq![100u8] + encode_utf8(text@),
        JsonValue::Text(text) => seq![115u8] + spec_u64_to_le_bytes(
            encode_utf8(text@).len() as u64,
        ) + encode_utf8(text@),
        JsonValue::Array(items) => seq![97u8] + spec_u64_to_le_bytes(items@.len() as u64)
            + item_images(items@),
        JsonValue::Object(members) => object_image(member_images(members@)),
    }
}

/// The bytes of the items of an array.
pub open spec fn item_images(items: Seq<JsonValue>) -> Seq<u8>
    decreases items,
{
    if items.len() == 0 {
        Seq::empty()
    } else {
        item_images(items.drop_last()) + image(items[items.len() - 1])
    }
}

/// The members of an object with the bytes of their values.
pub open spec fn member_images(members: Seq<(String, JsonValue)>) -> Seq<MemberView>
    decreases members,
{
    if members.len() == 0 {
        Seq::empty()
    } else {
        member_images(members.drop_last()).push(
            MemberView {
                key: members[members.len() - 1].0@,
                image: image(members[members.len() - 1].1),
            },
        )
    }
}

fn member_precedes(a: &Member, b: &Member) -> (r: bool)
    ensures
        r == by_key()(a@, b@),
{
    text_before(a.key.as_str(), b.key.as_str()) && !same_text(a.key.as_str(), b.key.as_str())
}

/// The bytes that stand for a value in its fingerprint.
pub fn image_of(value: &JsonValue) -> (r: Vec<u8>)
    ensures
        r@ == image(*value),
    decreases value,
{
    let mut out: Vec<u8> = Vec::new();
    match value {
        JsonValue::Null => {
            out.push(110);
            assert(out@ =~= image(*value));
        },
        JsonValue::Bool(b) => {
            out.push(98);
            out.push(
                if *b {
                    49u8
                } else {
                    48u8
                },
            );
            assert(out@ =~= image(*value));
        },
        JsonValue::Number(text) => {
            out.push(100);
            push_bytes(&mut out, text.as_str().as_bytes());
            assert(out@ =~= image(*value));
        },
        JsonValue::Text(text) => {
            out.push(115);
            let length = u64_to_le_bytes(text.as_str().as_bytes().len() as u64);
            push_bytes(&mut out, length.as_slice());
            push_bytes(&mut out, text.as_str().as_bytes());
            assert(out@ =~= image(*value));
        },
        JsonValue::Array(items) => {
            out.push(97);
            let length = u64_to_le_bytes(items.len() as u64);
            push_bytes(&mut out, length.as_slice());
            push_item_images(items, &mut out);
            assert(out@ =~= image(*value));
        },
        JsonValue::Object(members) => {
            out.push(111);
            let length = u64_to_le_bytes(members.len() as u64);
            push_bytes(&mut out, length.as_slice());
            let ghost start = out@;
            let list = members_of(members);
            let ghost all = views(list@);
            proof {
                lemma_member_count(members@);
            }
            let sorted = sort_by(list, member_precedes, Ghost(by_key()));
            let ghost ordered = views(sorted@);
            let mut j: usize = 0;
            assert(out@ =~= start + member_bytes(ordered.take(0)));
            while j < sorted.len()
                invariant
                    j <= sorted.len(),
                    ordered == views(sorted@),
                    out@ == start + member_bytes(ordered.take(j as int)),
                decreases sorted.len() - j,
            {
                let member = &sorted[j];
                let size = u64_to_le_bytes(member.key.as_str().as_bytes().len() as u64);
                push_bytes(&mut out, size.as_slice());
                push_bytes(&mut out, member.key.as_str().as_bytes());
                push_bytes(&mut out, member.image.as_slice());
                proof {
                    let next = ordered.take(j + 1);
                    assert(next.drop_last() =~= ordered.take(j as int));
                    assert(next.last() == member@);
                    assert(out@ =~= start + member_bytes(next));
                }
                j += 1;
            }
            assert(ordered.take(ordered.len() as int) =~= ordered);
            assert(out@ =~= object_image(all));
        },
    }
    out
}

fn push_item_images(items: &Vec<JsonValue>, out: &mut Vec<u8>)
    ensures
        final(out)@ == old(out)@ + item_images(items@),
    decreases items@,
{
    let ghost start = out@;
    let mut i: usize = 0;
    assert(out@ =~= start + item_images(items@.take(0)));
    while i < items.len()
        invariant
            i <= items.len(),
            out@ == start + item_images(items@.take(i as int)),
        decreases items.len() - i,
    {
        let inner = image_of(&items[i]);
        push_bytes(out, inner.as_slice());
        proof {
            let next = items@.take(i + 1);
            assert(next.drop_last() =~= items@.take(i as int));
            assert(out@ =~= start + item_images(next));
        }
        i += 1;
    }
    assert(items@.take(items@.len() as int) =~= items@);
}

fn members_of(members: &Vec<(String, JsonValue)>) -> (r: Vec<Member>)
    ensures
        views(r@) == member_images(members@),
    decreases members@,
{
    let mut list: Vec<Member> = Vec::new();
    let mut i: usize = 0;
    assert(views(list@) =~= member_images(members@.take(0)));
    while i < members.len()
        invariant
            i <= members.len(),
            views(list@) == member_images(members@.take(i as int)),
        decreases members.len() - i,
    {
        let entry = &members[i];
        let inner = image_of(&entry.1);
        let ghost before = views(list@);
        let member = Member { key: entry.0.clone(), image: inner };
        let ghost added = member@;
        list.push(member);
        proof {
            let next = members@.take(i + 1);
            assert(next.drop_last() =~= members@.take(i as int));
            assert(views(list@) =~= before.push(added));
            assert(views(list@) =~= member_images(next));
        }
        i += 1;
    }
    assert(members@.take(members@.len() as int) =~= members@);
    list
}

proof fn lemma_member_count(members: Seq<(String, JsonValue)>)
    ensures
        member_images(members).len() == members.len(),
    decreases members.len(),
{
    if members.len() > 0 {
        lemma_member_count(members.drop_last());
    }
}

/// The fingerprint of a value: the hexadecimal BLAKE3 digest of its bytes.
pub open spec fn fingerprint(value: JsonValue) -> Seq<char> {
    hex_text(blake3_digest(image(value)))
}

/// The fingerprint of a value.
pub fn json_fingerprint(value: &JsonValue) -> (r: String)
    ensures
        r@ == fingerprint(*value),
{
    let bytes = image_of(value);
    let digest = blake3_hash(bytes.as_slice());
    hex_of(digest.as_slice())
}

/// Whether no two members have the same key.
pub open spec fn distinct_keys(members: Seq<MemberView>) -> bool {
    forall|i: int, j: int|
        0 <= i < j < members.len() ==> (#[trigger] members[i]).key != (#[trigger] members[j]).key
}

proof fn lemma_key_order()
    ensures
        weak_order(by_key()),
{
    assert forall|a: MemberView, b: MemberView| #[trigger] by_key()(a, b) implies !by_key()(
        b,
        a,
    ) by {
        text_order(a.key, b.key, a.key);
    }
    assert forall|a: MemberView, b: MemberView, c: MemberView|
        !(#[trigger] by_key()(a, b)) && !(#[trigger] by_key()(b, c)) implies !by_key()(a, c) by {
        text_order(a.key, b.key, c.key);
        text_order(b.key, a.key, c.key);
        text_order(c.key, b.key, a.key);
        text_order(a.key, c.key, b.key);
    }
}

proof fn lemma_same_order(x: Seq<MemberView>, y: Seq<MemberView>)
    requires
        in_order(x, by_key()),
        in_order(y, by_key()),
        x.to_multiset() == y.to_multiset(),
        distinct_keys(x),
        distinct_keys(y),
        x.len() == y.len(),
    ensures
        x == y,
    decreases x.len(),
{
    broadcast use vstd::seq_lib::group_to_multiset_ensures;

    if x.len() == 0 {
        assert(x =~= y);
    } else {
        let n = x.len() - 1;
        let a = x.last();
        let b = y.last();
        assert(x.to_multiset().count(a) > 0) by {
            assert(x.contains(a));
        }
        assert(y.contains(a));
        assert(y.to_multiset().count(b) > 0) by {
            assert(y.contains(b));
        }
        assert(x.contains(b));
        let j = choose|j: int| 0 <= j < y.len() && y[j] == a;
        let i = choose|i: int| 0 <= i < x.len() && x[i] == b;
        if j != n {
            assert(!by_key()(y[n], y[j]));
            assert(y[j].key != y[n].key);
            if i != n {
                assert(!by_key()(x[n], x[i]));
                text_order(a.key, b.key, a.key);
            }
        }
        assert(a == b);
        let short_x = x.drop_last();
        let short_y = y.drop_last();
        assert(x =~= short_x.push(a));
        assert(y =~= short_y.push(b));
        assert(x.to_multiset() =~= short_x.to_multiset().insert(a));
        assert(y.to_multiset() =~= short_y.to_multiset().insert(a));
        assert(short_x.to_multiset() =~= x.to_multiset().remove(a));
        assert(short_y.to_multiset() =~= y.to_multiset().remove(a));
        assert forall|p: int, q: int| 0 <= p < q < short_x.len() implies !by_key()(
            #[trigger] short_x[q],
            #[trigger] short_x[p],
        ) by {
            assert(!by_key()(x[q], x[p]));
        }
        assert forall|p: int, q: int| 0 <= p < q < short_y.len() implies !by_key()(
            #[trigger] short_y[q],
            #[trigger] short_y[p],
        ) by {
            assert(!by_key()(y[q], y[p]));
        }
        assert forall|p: int, q: int| 0 <= p < q < short_x.len() implies (
        #[trigger] short_x[p]).key != (#[trigger] short_x[q]).key by {
            assert(x[p].key != x[q].key);
        }
        assert forall|p: int, q: int| 0 <= p < q < short_y.len() implies (
        #[trigger] short_y[p]).key != (#[trigger] short_y[q]).key by {
            assert(y[p].key != y[q].key);
        }
        lemma_same_order(short_x, short_y);
    }
}

proof fn lemma_sorted_distinct(list: Seq<MemberView>)
    requires
        distinct_keys(list),
    ensures
        distinct_keys(sorted_by(list, by_key())),
{
    broadcast use vstd::seq_lib::group_to_multiset_ensures;

    let sorted = sorted_by(list, by_key());
    sorting_keeps_elements(list, by_key());
    assert forall|i: int, j: int| 0 <= i < j < sorted.len() implies (#[trigger] sorted[i]).key
        != (#[trigger] sorted[j]).key by {
        if sorted[i].key == sorted[j].key {
            let a = sorted[i];
            let b = sorted[j];
            assert(sorted.contains(a) && sorted.contains(b));
            assert(list.to_multiset().count(a) > 0 && list.to_multiset().count(b) > 0);
            assert(list.contains(a) && list.contains(b));
            let p = choose|p: int| 0 <= p < list.len() && list[p] == a;
            let q = choose|q: int| 0 <= q < list.len() && list[q] == b;
            if p != q {
                if p < q {
                    assert(list[p].key != list[q].key);
                } else {
                    assert(list[q].key != list[p].key);
                }
            } else {
                assert(a == b);
                lemma_twice(sorted, i, j);
                lemma_once(list, p);
            }
        }
    }
}

proof fn lemma_twice(list: Seq<MemberView>, i: int, j: int)
    requires
        0 <= i < j < list.len(),
        list[i] == list[j],
    ensures
        list.to_multiset().count(list[i]) >= 2,
    decreases list.len(),
{
    broadcast use vstd::seq_lib::group_to_multiset_ensures;

    let front = list.drop_last();
    assert(list =~= front.push(list.last()));
    if j == list.len() - 1 {
        assert(front.contains(list[i])) by {
            assert(front[i] == list[i]);
        }
        assert(front.to_multiset().count(list[i]) >= 1);
    } else {
        lemma_twice(front, i, j);
    }
}

proof fn lemma_once(list: Seq<MemberView>, p: int)
    requires
        distinct_keys(list),
        0 <= p < list.len(),
    ensures
        list.to_multiset().count(list[p]) == 1,
    decreases list.len(),
{
    broadcast use vstd::seq_lib::group_to_multiset_ensures;

    let front = list.drop_last();
    assert(list =~= front.push(list.last()));
    assert(distinct_keys(front)) by {
        assert forall|i: int, j: int| 0 <= i < j < front.len() implies (#[trigger] front[i]).key
            != (#[trigger] front[j]).key by {
            assert(list[i].key != list[j].key);
        }
    }
    if p == list.len() - 1 {
        assert(!front.contains(list[p])) by {
            if front.contains(list[p]) {
                let k = choose|k: int| 0 <= k < front.len() && front[k] == list[p];
                assert(list[k].key != list[p].key);
            }
        }
        assert(front.to_multiset().count(list[p]) == 0);
    } else {
        lemma_once(front, p);
        assert(list[p].key != list[list.len() - 1].key);
    }
}

/// The fingerprint of an object does not depend on the order of its members:
/// two objects with the same members, no key twice, have the same bytes.
pub proof fn fingerprint_ignores_key_order(
    left: Vec<(String, JsonValue)>,
    right: Vec<(String, JsonValue)>,
)
    requires
        distinct_keys(member_images(left@)),
        distinct_keys(member_images(right@)),
        member_images(left@).to_multiset() == member_images(right@).to_multiset(),
    ensures
        fingerprint(JsonValue::Object(left)) == fingerprint(JsonValue::Object(right)),
{
    let x = member_images(left@);
    let y = member_images(right@);
    lemma_key_order();
    sorting_keeps_elements(x, by_key());
    sorting_keeps_elements(y, by_key());
    sorting_orders(x, by_key());
    sorting_orders(y, by_key());
    lemma_sorted_distinct(x);
    lemma_sorted_distinct(y);
    broadcast use vstd::seq_lib::group_to_multiset_ensures;

    assert(x.len() == x.to_multiset().len());
    assert(y.len() == y.to_multiset().len());
    lemma_same_order(sorted_by(x, by_key()), sorted_by(y, by_key()));
}

} // verus!
