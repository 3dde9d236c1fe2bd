//! The numbers of a value, and which of them a summary names.

use crate::json::projection::total;
use crate::json::value::JsonValue;
use crate::json::view::{
    item_views, item_views_are, json_view, member_views, member_views_are, JsonView,
};
use crate::text::texts;
use vstd::prelude::*;

verus! {

/// Numbers as they are written, and how many other values stand beside them.
pub struct NumbersView {
    pub numbers: Seq<Seq<char>>,
    pub others: usize,
}

/// Numbers with those of a value. Arrays and objects count for what they hold.
pub open spec fn numbers_of(value: JsonView, before: NumbersView) -> NumbersView
    decreases value, 1int,
{
    match value {
        JsonView::Number(text) => NumbersView { numbers: before.numbers.push(text), ..before },
        JsonView::Array(items) => item_numbers(items, before, items.len() as int),
        JsonView::Object(members) => member_numbers(members, before, members.len() as int),
        _ => NumbersView { others: total(before.others, 1), ..before },
    }
}

/// Numbers with those of the first `upto` items.
pub open spec fn item_numbers(items: Seq<JsonView>, before: NumbersView, upto: int) -> NumbersView
    decreases items, upto,
{
    if upto <= 0 || upto > items.len() {
        before
    } else {
        numbers_of(items[upto - 1], item_numbers(items, before, upto - 1))
    }
}

/// Numbers with those of the first `upto` members.
pub open spec fn member_numbers(
    members: Seq<(Seq<char>, JsonView)>,
    before: NumbersView,
    upto: int,
) -> NumbersView
    decreases members, upto,
{
    if upto <= 0 || upto > members.len() {
        before
    } else {
        numbers_of(members[upto - 1].1, member_numbers(members, before, upto - 1))
    }
}

/// Adds the numbers of a value, and counts what is not a number.
pub fn collect_numbers(value: &JsonValue, values: &mut Vec<String>, non_numeric_count: &mut usize)
    ensures
        (NumbersView { numbers: texts(final(values)@), others: *final(non_numeric_count) })
            == numbers_of(
            value@,
            NumbersView { numbers: texts(old(values)@), others: *old(non_numeric_count) },
        ),
    decreases value, 1int,
{
    match value {
        JsonValue::Number(text) => {
            let ghost before = texts(values@);
            values.push(text.clone());
            assert(texts(values@) =~= before.push(text@));
        },
        JsonValue::Array(items) => {
            collect_item_numbers(items, values, non_numeric_count);
        },
        JsonValue::Object(members) => {
            collect_member_numbers(members, values, non_numeric_count);
        },
        _ => {
            *non_numeric_count = (*non_numeric_count).saturating_add(1);
        },
    }
}

fn collect_item_numbers(
    items: &Vec<JsonValue>,
    values: &mut Vec<String>,
    non_numeric_count: &mut usize,
)
    ensures
        (NumbersView { numbers: texts(final(values)@), others: *final(non_numeric_count) })
            == item_numbers(
            item_views(items@),
            NumbersView { numbers: texts(old(values)@), others: *old(non_numeric_count) },
            item_views(items@).len() as int,
        ),
    decreases items, 0int,
{
    let ghost start = NumbersView { numbers: texts(values@), others: *non_numeric_count };
    let ghost all = item_views(items@);
    proof {
        item_views_are(items@);
    }
    let mut i: usize = 0;
    while i < items.len()
        invariant
            i <= items.len(),
            all.len() == items@.len(),
            forall|k: int| 0 <= k < all.len() ==> #[trigger] all[k] == json_view(items@[k]),
            (NumbersView { numbers: texts(values@), others: *non_numeric_count }) == item_numbers(
                all,
                start,
                i as int,
            ),
        decreases items.len() - i,
    {
        assert(all[i as int] == json_view(items@[i as int]));
        collect_numbers(&items[i], values, non_numeric_count);
        i += 1;
    }
}

fn collect_member_numbers(
    members: &Vec<(String, JsonValue)>,
    values: &mut Vec<String>,
    non_numeric_count: &mut usize,
)
    ensures
        (NumbersView { numbers: texts(final(values)@), others: *final(non_numeric_count) })
            == member_numbers(
            member_views(members@),
            NumbersView { numbers: texts(old(values)@), others: *old(non_numeric_count) },
            member_views(members@).len() as int,
        ),
    decreases members, 0int,
{
    let ghost start = NumbersView { numbers: texts(values@), others: *non_numeric_count };
    let ghost all = member_views(members@);
    proof {
        member_views_are(members@);
    }
    let mut i: usize = 0;
    while i < members.len()
        invariant
            i <= members.len(),
            all.len() == members@.len(),
            forall|k: int|
                0 <= k < all.len() ==> #[trigger] all[k] == (
                    members@[k].0@,
                    json_view(members@[k].1),
                ),
            (NumbersView { numbers: texts(values@), others: *non_numeric_count })
                == member_numbers(all, start, i as int),
        decreases members.len() - i,
    {
        let member = &members[i];
        assert(all[i as int] == (member.0@, json_view(member.1)));
        collect_numbers(&member.1, values, non_numeric_count);
        i += 1;
    }
}

/// Where the numbers that a summary names stand, in their order.
#[derive(Debug, Clone, Copy, PartialEq, Eq, Structural)]
pub struct SummaryRanks {
    pub lower_median: usize,
    pub upper_median: usize,
    pub p95: usize,
}

/// Which of `count` numbers has 95 of a hundred at or below it, counted from one.
pub open spec fn p95_rank(count: usize) -> int {
    let product = if 95 * count > usize::MAX {
        usize::MAX as int
    } else {
        95 * count
    };
    let sum = if product + 99 > usize::MAX {
        usize::MAX as int
    } else {
        product + 99
    };
    sum / 100
}

/// Where the numbers stand that a summary of `count` numbers names: the one in
/// the middle, or the two around the middle, and the one that 95 of a hundred
/// are not above.
pub open spec fn ranks_of(count: usize) -> Option<SummaryRanks> {
    if count == 0 {
        None
    } else {
        let rank = p95_rank(count);
        let p95 = if rank < 1 {
            0
        } else if rank - 1 < count - 1 {
            rank - 1
        } else {
            count - 1
        };
        Some(
            SummaryRanks {
                lower_median: ((count - 1) / 2) as usize,
                upper_median: (count / 2) as usize,
                p95: p95 as usize,
            },
        )
    }
}

/// Where the numbers stand that a summary names.
pub fn summary_ranks(count: usize) -> (r: Option<SummaryRanks>)
    ensures
        r == ranks_of(count),
{
    if count == 0 {
        return None;
    }
    let product: usize = match count.checked_mul(95) {
        Some(product) => product,
        None => usize::MAX,
    };
    let rank: usize = product.saturating_add(99) / 100;
    let before: usize = rank.saturating_sub(1);
    let p95: usize = if before < count - 1 {
        before
    } else {
        count - 1
    };
    Some(SummaryRanks { lower_median: (count - 1) / 2, upper_median: count / 2, p95 })
}

/// What a summary names are among its numbers; as many stand before the lower
/// median as behind the upper one; and of up to a hundredth of the largest
/// number of numbers, 95 of a hundred stand at or before the one named so, and
/// one place earlier that would not hold.
pub proof fn summaries_name_their_numbers(count: usize)
    requires
        count > 0,
    ensures
        ranks_of(count) is Some,
        ranks_of(count)->0.lower_median <= ranks_of(count)->0.upper_median < count,
        ranks_of(count)->0.upper_median - ranks_of(count)->0.lower_median == (count + 1) % 2,
        ranks_of(count)->0.lower_median == count - 1 - ranks_of(count)->0.upper_median,
        ranks_of(count)->0.p95 < count,
        count <= usize::MAX / 100 ==> {
            &&& 100 * (ranks_of(count)->0.p95 + 1) >= 95 * count
            &&& 100 * ranks_of(count)->0.p95 < 95 * count
        },
{
}

} // verus!
