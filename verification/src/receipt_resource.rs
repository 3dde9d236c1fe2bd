//! Naming the receipt of an answer as a resource.

use crate::json::pointer::{find_pointer, pointed};
use crate::json::value::JsonValue;
use crate::json::view::{
    json_view, member_views, member_views_are, member_views_push, object_of_three, JsonView,
};
use crate::ordered::text_lt;
use crate::text::{appended, copy_text, same_text, text_before, text_order};
use vstd::prelude::*;

verus! {

/// Where the identity of a receipt stands in an answer.
pub const RECEIPT_POINTER: &'static str = "/meta/receipt_id";

/// The members whose keys come before a key.
pub open spec fn before_key(key: Seq<char>) -> spec_fn((Seq<char>, JsonView)) -> bool {
    |member: (Seq<char>, JsonView)| text_lt(member.0, key)
}

/// The members whose keys come behind a key.
pub open spec fn behind_key(key: Seq<char>) -> spec_fn((Seq<char>, JsonView)) -> bool {
    |member: (Seq<char>, JsonView)| text_lt(key, member.0)
}

/// Members with one more, in its place by its key, instead of any with that key.
pub open spec fn with_member(
    members: Seq<(Seq<char>, JsonView)>,
    key: Seq<char>,
    value: JsonView,
) -> Seq<(Seq<char>, JsonView)> {
    members.filter(before_key(key)).push((key, value)) + members.filter(behind_key(key))
}

/// A receipt, as a resource.
pub open spec fn receipt_resource(id: Seq<char>) -> JsonView {
    JsonView::Object(
        seq![
            ("id"@, JsonView::Text(id)),
            ("kind"@, JsonView::Text("retrieval_receipt"@)),
            ("uri"@, JsonView::Text("leantoken://receipt/v1/"@ + id)),
        ],
    )
}

/// An answer that names its receipt, where it has one, as a resource.
pub open spec fn decorated(answer: JsonView) -> JsonView {
    match (answer, pointed(answer, RECEIPT_POINTER@)) {
        (JsonView::Object(members), Some(JsonView::Text(id))) => JsonView::Object(
            with_member(members, "receipt_resource"@, receipt_resource(id)),
        ),
        _ => answer,
    }
}

fn copy_members(members: &Vec<(String, JsonValue)>, key: &str, behind: bool) -> (r: Vec<
    (String, JsonValue),
>)
    ensures
        member_views(r@) == member_views(members@).filter(
            if behind {
                behind_key(key@)
            } else {
                before_key(key@)
            },
        ),
{
    let ghost all = member_views(members@);
    let ghost wanted = if behind {
        behind_key(key@)
    } else {
        before_key(key@)
    };
    let mut out: Vec<(String, JsonValue)> = Vec::new();
    let mut i: usize = 0;
    proof {
        member_views_are(members@);
        member_views_are(out@);
        assert(all.take(0).filter(wanted) =~= Seq::empty());
        assert(member_views(out@) =~= Seq::empty());
    }
    while i < members.len()
        invariant
            i <= members.len(),
            all == member_views(members@),
            all.len() == members@.len(),
            forall|k: int|
                0 <= k < members@.len() ==> #[trigger] all[k] == (
                    members@[k].0@,
                    json_view(members@[k].1),
                ),
            wanted == if behind {
                behind_key(key@)
            } else {
                before_key(key@)
            },
            member_views(out@) == all.take(i as int).filter(wanted),
        decreases members.len() - i,
    {
        let member = &members[i];
        proof {
            text_order(member.0@, key@, member.0@);
            text_order(key@, member.0@, key@);
            assert(all.take(i + 1) =~= all.take(i as int).push(all[i as int]));
            all.take(i as int).lemma_filter_push(all[i as int], wanted);
        }
        let apart = !same_text(member.0.as_str(), key);
        let chosen = apart && if behind {
            text_before(key, member.0.as_str())
        } else {
            text_before(member.0.as_str(), key)
        };
        if chosen {
            let ghost before = out@;
            let copy = (copy_text(member.0.as_str()), member.1.duplicate());
            let ghost added = copy;
            out.push(copy);
            proof {
                member_views_push(before, added);
                assert(out@ =~= before.push(added));
            }
        }
        i += 1;
    }
    assert(all.take(all.len() as int) =~= all);
    out
}

/// Names the receipt of an answer, where it has one, as a resource.
pub fn decorate_receipt(answer: &JsonValue) -> (r: JsonValue)
    ensures
        r@ == decorated(answer@),
{
    let id = match find_pointer(answer, RECEIPT_POINTER) {
        Some(JsonValue::Text(id)) => id,
        _ => {
            return answer.duplicate();
        },
    };
    match answer {
        JsonValue::Object(members) => {
            let uri = appended(copy_text("leantoken://receipt/v1/"), id.as_str());
            let resource = object_of_three(
                "id",
                JsonValue::Text(copy_text(id.as_str())),
                "kind",
                JsonValue::Text(copy_text("retrieval_receipt")),
                "uri",
                JsonValue::Text(uri),
            );
            assert(resource@ == receipt_resource(id@));
            let mut out = copy_members(members, "receipt_resource", false);
            let behind = copy_members(members, "receipt_resource", true);
            let ghost before = out@;
            let added = (copy_text("receipt_resource"), resource);
            let ghost told = added;
            out.push(added);
            proof {
                member_views_push(before, told);
                assert(out@ =~= before.push(told));
            }
            let r = join_members(out, behind);
            JsonValue::Object(r)
        },
        _ => answer.duplicate(),
    }
}

fn join_members(front: Vec<(String, JsonValue)>, back: Vec<(String, JsonValue)>) -> (r: Vec<
    (String, JsonValue),
>)
    ensures
        member_views(r@) == member_views(front@) + member_views(back@),
{
    let mut out = front;
    let mut rest = back;
    out.append(&mut rest);
    proof {
        member_views_are(front@);
        member_views_are(back@);
        member_views_are(out@);
        assert(member_views(out@) =~= member_views(front@) + member_views(back@));
    }
    out
}

} // verus!
