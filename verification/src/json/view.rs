//! What JSON values say, and their compact text.

use crate::json::value::JsonValue;
use crate::text::{appended, copy_text, same_text};
use vstd::prelude::*;

verus! {

/// What a [`JsonValue`] says.
pub enum JsonView {
    Null,
    Bool(bool),
    Number(Seq<char>),
    Text(Seq<char>),
    Array(Seq<JsonView>),
    Object(Seq<(Seq<char>, JsonView)>),
}

/// What a value says.
pub open spec fn json_view(value: JsonValue) -> JsonView
    decreases value,
{
    match value {
        JsonValue::Null => JsonView::Null,
        JsonValue::Bool(b) => JsonView::Bool(b),
        JsonValue::Number(text) => JsonView::Number(text@),
        JsonValue::Text(text) => JsonView::Text(text@),
        JsonValue::Array(items) => JsonView::Array(item_views(items@)),
        JsonValue::Object(members) => JsonView::Object(member_views(members@)),
    }
}

/// What the items of an array say.
pub open spec fn item_views(items: Seq<JsonValue>) -> Seq<JsonView>
    decreases items,
{
    if items.len() == 0 {
        Seq::empty()
    } else {
        item_views(items.drop_last()).push(json_view(items[items.len() - 1]))
    }
}

/// What the members of an object say.
pub open spec fn member_views(members: Seq<(String, JsonValue)>) -> Seq<(Seq<char>, JsonView)>
    decreases members,
{
    if members.len() == 0 {
        Seq::empty()
    } else {
        member_views(members.drop_last()).push(
            (members[members.len() - 1].0@, json_view(members[members.len() - 1].1)),
        )
    }
}

impl View for JsonValue {
    type V = JsonView;

    open spec fn view(&self) -> JsonView {
        json_view(*self)
    }
}

/// The items of an array say what each of them says.
pub proof fn item_views_are(items: Seq<JsonValue>)
    ensures
        item_views(items).len() == items.len(),
        forall|i: int| 0 <= i < items.len() ==> #[trigger] item_views(items)[i] == json_view(items[i]),
    decreases items.len(),
{
    if items.len() > 0 {
        let front = items.drop_last();
        item_views_are(front);
        assert forall|i: int| 0 <= i < items.len() implies #[trigger] item_views(items)[i]
            == json_view(items[i]) by {
            if i < front.len() {
                assert(item_views(items)[i] == item_views(front)[i]);
                assert(front[i] == items[i]);
            }
        }
    }
}

/// The members of an object say what each of them says.
pub proof fn member_views_are(members: Seq<(String, JsonValue)>)
    ensures
        member_views(members).len() == members.len(),
        forall|i: int|
            0 <= i < members.len() ==> #[trigger] member_views(members)[i] == (
                members[i].0@,
                json_view(members[i].1),
            ),
    decreases members.len(),
{
    if members.len() > 0 {
        let front = members.drop_last();
        member_views_are(front);
        assert forall|i: int| 0 <= i < members.len() implies #[trigger] member_views(members)[i]
            == (members[i].0@, json_view(members[i].1)) by {
            if i < front.len() {
                assert(member_views(members)[i] == member_views(front)[i]);
                assert(front[i] == members[i]);
            }
        }
    }
}

/// Adding an item adds what it says.
pub proof fn item_views_push(items: Seq<JsonValue>, item: JsonValue)
    ensures
        item_views(items.push(item)) == item_views(items).push(json_view(item)),
{
    assert(items.push(item).drop_last() =~= items);
}

/// Adding a member adds what it says.
pub proof fn member_views_push(members: Seq<(String, JsonValue)>, member: (String, JsonValue))
    ensures
        member_views(members.push(member)) == member_views(members).push(
            (member.0@, json_view(member.1)),
        ),
{
    assert(members.push(member).drop_last() =~= members);
}

impl JsonValue {
    /// A copy that says the same.
    pub fn duplicate(&self) -> (r: JsonValue)
        ensures
            r@ == self@,
        decreases self, 1int,
    {
        match self {
            JsonValue::Null => JsonValue::Null,
            JsonValue::Bool(b) => JsonValue::Bool(*b),
            JsonValue::Number(text) => JsonValue::Number(text.clone()),
            JsonValue::Text(text) => JsonValue::Text(text.clone()),
            JsonValue::Array(items) => JsonValue::Array(copy_items(items)),
            JsonValue::Object(members) => JsonValue::Object(copy_members(members)),
        }
    }

    /// Whether two values say the same.
    pub fn same(&self, other: &JsonValue) -> (r: bool)
        ensures
            r == (self@ == other@),
        decreases self, 1int,
    {
        match (self, other) {
            (JsonValue::Null, JsonValue::Null) => true,
            (JsonValue::Bool(a), JsonValue::Bool(b)) => *a == *b,
            (JsonValue::Number(a), JsonValue::Number(b)) => same_text(a.as_str(), b.as_str()),
            (JsonValue::Text(a), JsonValue::Text(b)) => same_text(a.as_str(), b.as_str()),
            (JsonValue::Array(a), JsonValue::Array(b)) => same_items(a, b),
            (JsonValue::Object(a), JsonValue::Object(b)) => same_members(a, b),
            _ => false,
        }
    }
}

/// A copy of items.
pub fn copy_items(items: &Vec<JsonValue>) -> (r: Vec<JsonValue>)
    ensures
        item_views(r@) == item_views(items@),
        r@.len() == items@.len(),
    decreases items, 0int,
{
    let mut out: Vec<JsonValue> = Vec::new();
    let mut i: usize = 0;
    while i < items.len()
        invariant
            i <= items.len(),
            out@.len() == i,
            item_views(out@) == item_views(items@.take(i as int)),
        decreases items.len() - i,
    {
        let ghost before = out@;
        let copy = items[i].duplicate();
        let ghost added = copy;
        out.push(copy);
        proof {
            item_views_push(before, added);
            item_views_push(items@.take(i as int), items@[i as int]);
            assert(items@.take(i + 1) =~= items@.take(i as int).push(items@[i as int]));
        }
        i += 1;
    }
    assert(items@.take(items@.len() as int) =~= items@);
    out
}

fn copy_members(members: &Vec<(String, JsonValue)>) -> (r: Vec<(String, JsonValue)>)
    ensures
        member_views(r@) == member_views(members@),
    decreases members, 0int,
{
    let mut out: Vec<(String, JsonValue)> = Vec::new();
    let mut i: usize = 0;
    while i < members.len()
        invariant
            i <= members.len(),
            member_views(out@) == member_views(members@.take(i as int)),
        decreases members.len() - i,
    {
        let ghost before = out@;
        let member = &members[i];
        let copy = (member.0.clone(), member.1.duplicate());
        let ghost added = copy;
        out.push(copy);
        proof {
            member_views_push(before, added);
            member_views_push(members@.take(i as int), members@[i as int]);
            assert(members@.take(i + 1) =~= members@.take(i as int).push(members@[i as int]));
        }
        i += 1;
    }
    assert(members@.take(members@.len() as int) =~= members@);
    out
}

fn same_items(a: &Vec<JsonValue>, b: &Vec<JsonValue>) -> (r: bool)
    ensures
        r == (item_views(a@) == item_views(b@)),
    decreases a, 0int,
{
    proof {
        item_views_are(a@);
        item_views_are(b@);
    }
    if a.len() != b.len() {
        return false;
    }
    let mut i: usize = 0;
    while i < a.len()
        invariant
            i <= a.len(),
            a.len() == b.len(),
            item_views(a@).len() == a@.len(),
            item_views(b@).len() == b@.len(),
            forall|k: int| 0 <= k < a@.len() ==> #[trigger] item_views(a@)[k] == json_view(a@[k]),
            forall|k: int| 0 <= k < b@.len() ==> #[trigger] item_views(b@)[k] == json_view(b@[k]),
            forall|k: int| 0 <= k < i ==> #[trigger] item_views(a@)[k] == item_views(b@)[k],
        decreases a.len() - i,
    {
        if !a[i].same(&b[i]) {
            assert(item_views(a@)[i as int] != item_views(b@)[i as int]);
            return false;
        }
        i += 1;
    }
    assert(item_views(a@) =~= item_views(b@));
    true
}

fn same_members(a: &Vec<(String, JsonValue)>, b: &Vec<(String, JsonValue)>) -> (r: bool)
    ensures
        r == (member_views(a@) == member_views(b@)),
    decreases a, 0int,
{
    proof {
        member_views_are(a@);
        member_views_are(b@);
    }
    if a.len() != b.len() {
        return false;
    }
    let mut i: usize = 0;
    while i < a.len()
        invariant
            i <= a.len(),
            a.len() == b.len(),
            member_views(a@).len() == a@.len(),
            member_views(b@).len() == b@.len(),
            forall|k: int|
                0 <= k < a@.len() ==> #[trigger] member_views(a@)[k] == (
                    a@[k].0@,
                    json_view(a@[k].1),
                ),
            forall|k: int|
                0 <= k < b@.len() ==> #[trigger] member_views(b@)[k] == (
                    b@[k].0@,
                    json_view(b@[k].1),
                ),
            forall|k: int| 0 <= k < i ==> #[trigger] member_views(a@)[k] == member_views(b@)[k],
        decreases a.len() - i,
    {
        let one = &a[i];
        let two = &b[i];
        if !same_text(one.0.as_str(), two.0.as_str()) || !one.1.same(&two.1) {
            assert(member_views(a@)[i as int] != member_views(b@)[i as int]);
            return false;
        }
        i += 1;
    }
    assert(member_views(a@) =~= member_views(b@));
    true
}

/// A text in quotes, with what JSON does not allow in it escaped.
pub uninterp spec fn json_quoted(text: Seq<char>) -> Seq<char>;

/// `serde_json::to_string` writes a text as a JSON string: in quotes, with what
/// JSON does not allow in it escaped. Writing a text into memory does not fail.
#[verifier::external_body]
fn quote_text(text: &str) -> (r: String)
    ensures
        r@ == json_quoted(text@),
{
    serde_json::to_string(text).unwrap_or_default()
}

/// The compact text of a value.
pub open spec fn json_text(value: JsonView) -> Seq<char>
    decreases value, 1int,
{
    match value {
        JsonView::Null => "null"@,
        JsonView::Bool(b) => if b {
            "true"@
        } else {
            "false"@
        },
        JsonView::Number(text) => text,
        JsonView::Text(text) => json_quoted(text),
        JsonView::Array(items) => "["@ + items_text(items, items.len() as int) + "]"@,
        JsonView::Object(members) => "{"@ + members_text(members, members.len() as int) + "}"@,
    }
}

/// The compact text of the first `upto` items, with commas between them.
pub open spec fn items_text(items: Seq<JsonView>, upto: int) -> Seq<char>
    decreases items, upto,
{
    if upto <= 0 || upto > items.len() {
        Seq::empty()
    } else if upto == 1 {
        json_text(items[0])
    } else {
        items_text(items, upto - 1) + ","@ + json_text(items[upto - 1])
    }
}

/// The compact text of the first `upto` members, with commas between them.
pub open spec fn members_text(members: Seq<(Seq<char>, JsonView)>, upto: int) -> Seq<char>
    decreases members, upto,
{
    if upto <= 0 || upto > members.len() {
        Seq::empty()
    } else {
        let member = members[upto - 1];
        let own = json_quoted(member.0) + ":"@ + json_text(members[upto - 1].1);
        if upto == 1 {
            own
        } else {
            members_text(members, upto - 1) + ","@ + own
        }
    }
}

/// The compact text of a value.
pub fn write_json(value: &JsonValue) -> (r: String)
    ensures
        r@ == json_text(value@),
    decreases value, 1int,
{
    match value {
        JsonValue::Null => copy_text("null"),
        JsonValue::Bool(b) => if *b {
            copy_text("true")
        } else {
            copy_text("false")
        },
        JsonValue::Number(text) => text.clone(),
        JsonValue::Text(text) => quote_text(text.as_str()),
        JsonValue::Array(items) => {
            let inner = write_items(items);
            appended(appended(copy_text("["), inner.as_str()), "]")
        },
        JsonValue::Object(members) => {
            let inner = write_members(members);
            appended(appended(copy_text("{"), inner.as_str()), "}")
        },
    }
}

fn write_items(items: &Vec<JsonValue>) -> (r: String)
    ensures
        r@ == items_text(item_views(items@), items@.len() as int),
        item_views(items@).len() == items@.len(),
    decreases items, 0int,
{
    let ghost all = item_views(items@);
    proof {
        item_views_are(items@);
    }
    let mut out = String::new();
    let mut i: usize = 0;
    assert(out@ =~= items_text(all, 0));
    while i < items.len()
        invariant
            i <= items.len(),
            all == item_views(items@),
            all.len() == items@.len(),
            forall|k: int| 0 <= k < all.len() ==> #[trigger] all[k] == json_view(items@[k]),
            out@ == items_text(all, i as int),
        decreases items.len() - i,
    {
        assert(all[i as int] == json_view(items@[i as int]));
        let own = write_json(&items[i]);
        if i == 0 {
            out = own;
        } else {
            out = appended(appended(out, ","), own.as_str());
        }
        i += 1;
    }
    out
}

fn write_members(members: &Vec<(String, JsonValue)>) -> (r: String)
    ensures
        r@ == members_text(member_views(members@), members@.len() as int),
        member_views(members@).len() == members@.len(),
    decreases members, 0int,
{
    let ghost all = member_views(members@);
    proof {
        member_views_are(members@);
    }
    let mut out = String::new();
    let mut i: usize = 0;
    assert(out@ =~= members_text(all, 0));
    while i < members.len()
        invariant
            i <= members.len(),
            all == member_views(members@),
            all.len() == members@.len(),
            forall|k: int|
                0 <= k < all.len() ==> #[trigger] all[k] == (
                    members@[k].0@,
                    json_view(members@[k].1),
                ),
            out@ == members_text(all, i as int),
        decreases members.len() - i,
    {
        let member = &members[i];
        assert(all[i as int] == (member.0@, json_view(member.1)));
        let value = write_json(&member.1);
        let own = appended(appended(quote_text(member.0.as_str()), ":"), value.as_str());
        if i == 0 {
            out = own;
        } else {
            out = appended(appended(out, ","), own.as_str());
        }
        i += 1;
    }
    out
}

/// An object with two members.
pub open spec fn two_members(a: Seq<char>, x: JsonView, b: Seq<char>, y: JsonView) -> JsonView {
    JsonView::Object(seq![(a, x), (b, y)])
}

/// Makes an object of one member.
pub(crate) fn object_of_one(a: &str, x: JsonValue) -> (r: JsonValue)
    ensures
        r@ == JsonView::Object(seq![(a@, x@)]),
{
    let mut members: Vec<(String, JsonValue)> = Vec::new();
    let first = (copy_text(a), x);
    let ghost one = first;
    members.push(first);
    proof {
        member_views_push(Seq::empty(), one);
        assert(members@ =~= Seq::<(String, JsonValue)>::empty().push(one));
        assert(member_views(members@) =~= seq![(a@, x@)]);
    }
    JsonValue::Object(members)
}

/// Makes an object of two members.
pub(crate) fn object_of_two(a: &str, x: JsonValue, b: &str, y: JsonValue) -> (r: JsonValue)
    ensures
        r@ == two_members(a@, x@, b@, y@),
{
    let mut members: Vec<(String, JsonValue)> = Vec::new();
    let first = (copy_text(a), x);
    let second = (copy_text(b), y);
    let ghost one = first;
    let ghost two = second;
    members.push(first);
    members.push(second);
    proof {
        let none = Seq::<(String, JsonValue)>::empty();
        member_views_push(none, one);
        member_views_push(none.push(one), two);
        assert(members@ =~= none.push(one).push(two));
        assert(member_views(members@) =~= seq![(a@, x@), (b@, y@)]);
    }
    JsonValue::Object(members)
}

/// Makes an object of three members.
pub(crate) fn object_of_three(
    a: &str,
    x: JsonValue,
    b: &str,
    y: JsonValue,
    c: &str,
    z: JsonValue,
) -> (r: JsonValue)
    ensures
        r@ == JsonView::Object(seq![(a@, x@), (b@, y@), (c@, z@)]),
{
    let mut members: Vec<(String, JsonValue)> = Vec::new();
    let first = (copy_text(a), x);
    let second = (copy_text(b), y);
    let third = (copy_text(c), z);
    let ghost one = first;
    let ghost two = second;
    let ghost three = third;
    members.push(first);
    members.push(second);
    members.push(third);
    proof {
        let none = Seq::<(String, JsonValue)>::empty();
        member_views_push(none, one);
        member_views_push(none.push(one), two);
        member_views_push(none.push(one).push(two), three);
        assert(members@ =~= none.push(one).push(two).push(three));
        assert(member_views(members@) =~= seq![(a@, x@), (b@, y@), (c@, z@)]);
    }
    JsonValue::Object(members)
}

} // verus!
