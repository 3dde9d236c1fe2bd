//! Sorting, and removal of repetitions, as stable insertion sorts.

use crate::text::{text_le, text_order, texts};
use vstd::prelude::*;

verus! {

/// The views of a list of values.
pub open spec fn views<T: View>(items: Seq<T>) -> Seq<T::V> {
    Seq::new(items.len(), |i: int| items[i]@)
}

/// `list` with `x` put before the first element that it must precede.
pub open spec fn insert_by<A>(list: Seq<A>, x: A, before: spec_fn(A, A) -> bool) -> Seq<A>
    decreases list.len(),
{
    if list.len() == 0 {
        seq![x]
    } else if before(x, list[0]) {
        seq![x] + list
    } else {
        seq![list[0]] + insert_by(list.subrange(1, list.len() as int), x, before)
    }
}

/// `list` in order, elements that may stand either way in their old order.
pub open spec fn sorted_by<A>(list: Seq<A>, before: spec_fn(A, A) -> bool) -> Seq<A>
    decreases list.len(),
{
    if list.len() == 0 {
        Seq::empty()
    } else {
        insert_by(sorted_by(list.drop_last(), before), list.last(), before)
    }
}

/// `list` without the elements that repeat the one before them.
pub open spec fn without_repeats<A>(list: Seq<A>) -> Seq<A>
    decreases list.len(),
{
    if list.len() == 0 {
        Seq::empty()
    } else {
        let front = without_repeats(list.drop_last());
        if front.len() > 0 && front.last() == list.last() {
            front
        } else {
            front.push(list.last())
        }
    }
}

/// Whether one text comes strictly before another.
pub open spec fn text_lt(a: Seq<char>, b: Seq<char>) -> bool {
    text_le(a, b) && a != b
}

/// The order of texts as a function.
pub open spec fn by_text() -> spec_fn(Seq<char>, Seq<char>) -> bool {
    |a: Seq<char>, b: Seq<char>| text_lt(a, b)
}

/// The distinct texts of a list, in ascending order.
pub open spec fn sorted_unique(list: Seq<Seq<char>>) -> Seq<Seq<char>> {
    without_repeats(sorted_by(list, by_text()))
}

/// Whether no element must precede one that stands before it.
pub open spec fn in_order<A>(list: Seq<A>, before: spec_fn(A, A) -> bool) -> bool {
    forall|i: int, j: int|
        0 <= i < j < list.len() ==> !before(#[trigger] list[j], #[trigger] list[i])
}

/// Whether `before` never holds both ways round and what is not before chains.
pub open spec fn weak_order<A>(before: spec_fn(A, A) -> bool) -> bool {
    &&& forall|a: A, b: A| #[trigger] before(a, b) ==> !before(b, a)
    &&& forall|a: A, b: A, c: A|
        !(#[trigger] before(a, b)) && !(#[trigger] before(b, c)) ==> !before(a, c)
}

/// Where `x` goes, `insert_by` puts it.
proof fn lemma_insert_position<A>(list: Seq<A>, x: A, before: spec_fn(A, A) -> bool, at: int)
    requires
        0 <= at <= list.len(),
        forall|k: int| 0 <= k < at ==> !before(x, #[trigger] list[k]),
        at < list.len() ==> before(x, list[at]),
    ensures
        insert_by(list, x, before) == list.insert(at, x),
    decreases list.len(),
{
    if list.len() == 0 {
        assert(list.insert(at, x) =~= seq![x]);
    } else if at == 0 {
        assert(list.insert(at, x) =~= seq![x] + list);
    } else {
        assert(!before(x, list[0]));
        let rest = list.subrange(1, list.len() as int);
        assert forall|k: int| 0 <= k < at - 1 implies !before(x, #[trigger] rest[k]) by {
            assert(rest[k] == list[k + 1]);
        }
        lemma_insert_position(rest, x, before, at - 1);
        assert(list.insert(at, x) =~= seq![list[0]] + rest.insert(at - 1, x));
    }
}

/// Sorting keeps every element, and as often as it occurred.
pub proof fn sorting_keeps_elements<A>(list: Seq<A>, before: spec_fn(A, A) -> bool)
    ensures
        sorted_by(list, before).to_multiset() == list.to_multiset(),
        sorted_by(list, before).len() == list.len(),
    decreases list.len(),
{
    broadcast use vstd::seq_lib::group_to_multiset_ensures;

    if list.len() == 0 {
        assert(sorted_by(list, before) =~= list);
    } else {
        let front = list.drop_last();
        sorting_keeps_elements(front, before);
        lemma_insert_keeps(sorted_by(front, before), list.last(), before);
        assert(list =~= front.push(list.last()));
    }
}

proof fn lemma_insert_keeps<A>(list: Seq<A>, x: A, before: spec_fn(A, A) -> bool)
    ensures
        insert_by(list, x, before).to_multiset() == list.to_multiset().insert(x),
        insert_by(list, x, before).len() == list.len() + 1,
    decreases list.len(),
{
    broadcast use vstd::seq_lib::group_to_multiset_ensures;

    if list.len() == 0 {
        assert(list.push(x) =~= seq![x]);
        assert(seq![x].to_multiset() == list.to_multiset().insert(x));
    } else if before(x, list[0]) {
        assert(seq![x] + list =~= list.insert(0, x));
        lemma_multiset_insert_front(list, x);
    } else {
        let rest = list.subrange(1, list.len() as int);
        lemma_insert_keeps(rest, x, before);
        lemma_multiset_insert_front(rest, list[0]);
        lemma_multiset_insert_front(insert_by(rest, x, before), list[0]);
        assert(list =~= seq![list[0]] + rest);
        assert(insert_by(list, x, before).to_multiset() =~= list.to_multiset().insert(x));
    }
}

proof fn lemma_multiset_insert_front<A>(list: Seq<A>, x: A)
    ensures
        (seq![x] + list).to_multiset() == list.to_multiset().insert(x),
    decreases list.len(),
{
    broadcast use vstd::seq_lib::group_to_multiset_ensures;

    if list.len() == 0 {
        assert(seq![x] + list =~= list.push(x));
    } else {
        let front = list.drop_last();
        lemma_multiset_insert_front(front, x);
        assert(seq![x] + list =~= (seq![x] + front).push(list.last()));
        assert(list =~= front.push(list.last()));
        assert((seq![x] + list).to_multiset() =~= list.to_multiset().insert(x));
    }
}

/// Sorting by a weak order leaves the elements in order.
pub proof fn sorting_orders<A>(list: Seq<A>, before: spec_fn(A, A) -> bool)
    requires
        weak_order(before),
    ensures
        in_order(sorted_by(list, before), before),
    decreases list.len(),
{
    if list.len() > 0 {
        sorting_orders(list.drop_last(), before);
        lemma_insert_orders(sorted_by(list.drop_last(), before), list.last(), before);
    }
}

spec fn first_after<A>(list: Seq<A>, x: A, before: spec_fn(A, A) -> bool) -> int
    decreases list.len(),
{
    if list.len() == 0 || before(x, list[0]) {
        0
    } else {
        1 + first_after(list.subrange(1, list.len() as int), x, before)
    }
}

proof fn lemma_first_after<A>(list: Seq<A>, x: A, before: spec_fn(A, A) -> bool)
    ensures
        0 <= first_after(list, x, before) <= list.len(),
        forall|k: int| 0 <= k < first_after(list, x, before) ==> !before(x, #[trigger] list[k]),
        first_after(list, x, before) < list.len() ==> before(
            x,
            list[first_after(list, x, before)],
        ),
    decreases list.len(),
{
    if list.len() > 0 && !before(x, list[0]) {
        let rest = list.subrange(1, list.len() as int);
        lemma_first_after(rest, x, before);
        let at = first_after(list, x, before);
        assert forall|k: int| 0 <= k < at implies !before(x, #[trigger] list[k]) by {
            if k > 0 {
                assert(rest[k - 1] == list[k]);
            }
        }
        if at < list.len() {
            assert(rest[at - 1] == list[at]);
        }
    }
}

proof fn lemma_insert_orders<A>(list: Seq<A>, x: A, before: spec_fn(A, A) -> bool)
    requires
        weak_order(before),
        in_order(list, before),
    ensures
        in_order(insert_by(list, x, before), before),
{
    lemma_first_after(list, x, before);
    let at = first_after(list, x, before);
    lemma_insert_position(list, x, before, at);
    let out = list.insert(at, x);
    assert forall|i: int, j: int| 0 <= i < j < out.len() implies !before(
        #[trigger] out[j],
        #[trigger] out[i],
    ) by {
        if i == at && j > at {
            assert(out[j] == list[j - 1]);
            assert(before(x, list[at]));
            if before(list[j - 1], x) {
                assert(!before(x, list[j - 1]));
                assert(!before(list[j - 1], list[at]) || j - 1 == at);
                if j - 1 != at {
                    assert(!before(x, list[at]));
                }
            }
        } else if j == at && i < at {
            assert(out[i] == list[i]);
        } else {
            let p = if i < at {
                i
            } else {
                i - 1
            };
            let q = if j < at {
                j
            } else {
                j - 1
            };
            assert(out[i] == list[p]);
            assert(out[j] == list[q]);
        }
    }
}

proof fn lemma_text_weak_order()
    ensures
        weak_order(by_text()),
        tells_apart(by_text()),
{
    assert forall|a: Seq<char>, b: Seq<char>| !(#[trigger] by_text()(a, b)) && !by_text()(
        b,
        a,
    ) implies a == b by {
        text_order(a, b, a);
    }
    assert forall|a: Seq<char>, b: Seq<char>| #[trigger] by_text()(a, b) implies !by_text()(
        b,
        a,
    ) by {
        text_order(a, b, a);
    }
    assert forall|a: Seq<char>, b: Seq<char>, c: Seq<char>|
        !(#[trigger] by_text()(a, b)) && !(#[trigger] by_text()(b, c)) implies !by_text()(a, c) by {
        text_order(a, b, c);
        text_order(b, a, c);
        text_order(c, b, a);
        text_order(a, c, b);
    }
}

/// The distinct texts of a list come out in strictly ascending order, each text
/// of the list and no other.
pub proof fn sorted_unique_is_a_set(list: Seq<Seq<char>>)
    ensures
        crate::text::ascending(sorted_unique(list)),
        forall|t: Seq<char>| sorted_unique(list).contains(t) <==> list.contains(t),
        sorted_unique(list).len() <= list.len(),
{
    let sorted = sorted_by(list, by_text());
    lemma_text_weak_order();
    sorting_orders(list, by_text());
    sorting_keeps_elements(list, by_text());
    lemma_distinct_in_order(sorted, by_text());
    assert forall|i: int, j: int| 0 <= i < j < sorted_unique(list).len() implies text_lt(
        #[trigger] sorted_unique(list)[i],
        #[trigger] sorted_unique(list)[j],
    ) by {
        assert(by_text()(sorted_unique(list)[i], sorted_unique(list)[j]));
    }
    lemma_repeats_len(sorted);
    broadcast use vstd::seq_lib::group_to_multiset_ensures;

    assert forall|t: Seq<char>| sorted_unique(list).contains(t) <==> list.contains(t) by {
        assert(sorted.to_multiset().count(t) == list.to_multiset().count(t));
        assert(sorted.contains(t) <==> sorted.to_multiset().count(t) > 0);
        assert(list.contains(t) <==> list.to_multiset().count(t) > 0);
    }
}

pub(crate) proof fn lemma_repeats_len<A>(list: Seq<A>)
    ensures
        without_repeats(list).len() <= list.len(),
    decreases list.len(),
{
    if list.len() > 0 {
        lemma_repeats_len(list.drop_last());
    }
}

/// Whether an order tells any two elements apart.
pub open spec fn tells_apart<A>(before: spec_fn(A, A) -> bool) -> bool {
    forall|a: A, b: A| !(#[trigger] before(a, b)) && !before(b, a) ==> a == b
}

pub(crate) proof fn lemma_distinct_in_order<A>(list: Seq<A>, before: spec_fn(A, A) -> bool)
    requires
        weak_order(before),
        tells_apart(before),
        in_order(list, before),
    ensures
        forall|i: int, j: int|
            0 <= i < j < without_repeats(list).len() ==> before(
                #[trigger] without_repeats(list)[i],
                #[trigger] without_repeats(list)[j],
            ),
        forall|t: A| without_repeats(list).contains(t) <==> list.contains(t),
        list.len() > 0 ==> without_repeats(list).len() > 0 && without_repeats(list).last()
            == list.last(),
    decreases list.len(),
{
    if list.len() > 0 {
        let short = list.drop_last();
        let front = without_repeats(short);
        assert(in_order(short, before)) by {
            assert forall|i: int, j: int| 0 <= i < j < short.len() implies !before(
                #[trigger] short[j],
                #[trigger] short[i],
            ) by {
                assert(!before(list[j], list[i]));
            }
        }
        lemma_distinct_in_order(short, before);
        let out = without_repeats(list);
        if short.len() > 0 {
            assert(!before(list[list.len() - 1], list[list.len() - 2]));
        }
        assert forall|i: int, j: int| 0 <= i < j < out.len() implies before(
            #[trigger] out[i],
            #[trigger] out[j],
        ) by {
            if j == front.len() {
                assert(out[i] == front[i]);
                assert(!before(list.last(), front.last()));
                assert(before(front.last(), list.last()));
                if i < front.len() - 1 {
                    assert(before(front[i], front[front.len() - 1]));
                    assert(!before(front.last(), front[i]));
                    if !before(front[i], list.last()) {
                        assert(!before(list.last(), front.last()));
                        assert(!before(front[i], front.last()));
                    }
                }
            } else {
                assert(out[i] == front[i] && out[j] == front[j]);
            }
        }
        assert forall|t: A| out.contains(t) <==> list.contains(t) by {
            assert(list =~= short.push(list.last()));
            if list.contains(t) {
                let k = choose|k: int| 0 <= k < list.len() && list[k] == t;
                if k < short.len() {
                    assert(short[k] == t);
                    assert(short.contains(t));
                    assert(front.contains(t));
                    let m = choose|m: int| 0 <= m < front.len() && front[m] == t;
                    assert(out[m] == t);
                } else {
                    assert(out[out.len() - 1] == t);
                }
            }
            if out.contains(t) {
                let k = choose|k: int| 0 <= k < out.len() && out[k] == t;
                if k < front.len() {
                    assert(front[k] == t);
                    assert(short.contains(t));
                    let m = choose|m: int| 0 <= m < short.len() && short[m] == t;
                    assert(list[m] == t);
                } else {
                    assert(list[list.len() - 1] == t);
                }
            }
        }
    }
}

/// Sorted by an order that tells its elements apart and freed of repeats, a list
/// holds each of its elements once.
pub proof fn sorting_out_repeats<A>(list: Seq<A>, before: spec_fn(A, A) -> bool)
    requires
        weak_order(before),
        tells_apart(before),
    ensures
        without_repeats(sorted_by(list, before)).no_duplicates(),
        forall|t: A| without_repeats(sorted_by(list, before)).contains(t) <==> list.contains(t),
{
    let sorted = sorted_by(list, before);
    sorting_orders(list, before);
    sorting_keeps_elements(list, before);
    lemma_distinct_in_order(sorted, before);
    let out = without_repeats(sorted);
    assert forall|i: int, j: int| 0 <= i < out.len() && 0 <= j < out.len() && i != j implies out[i]
        != out[j] by {
        if i < j {
            assert(before(out[i], out[j]));
            assert(!before(out[j], out[i]));
        } else {
            assert(before(out[j], out[i]));
            assert(!before(out[i], out[j]));
        }
    }
    broadcast use vstd::seq_lib::group_to_multiset_ensures;

    assert forall|t: A| out.contains(t) <==> list.contains(t) by {
        assert(sorted.to_multiset().count(t) == list.to_multiset().count(t));
        assert(sorted.contains(t) <==> sorted.to_multiset().count(t) > 0);
        assert(list.contains(t) <==> list.to_multiset().count(t) > 0);
    }
}

/// The position of the first element that does not precede `x`.
pub open spec fn place_of<A>(list: Seq<A>, x: A, before: spec_fn(A, A) -> bool) -> int
    decreases list.len(),
{
    if list.len() == 0 || !before(list[0], x) {
        0
    } else {
        1 + place_of(list.subrange(1, list.len() as int), x, before)
    }
}

/// A list in order with one more element. An element that neither precedes `x`
/// nor follows it gives way to it, or keeps it out.
pub open spec fn put<A>(list: Seq<A>, x: A, before: spec_fn(A, A) -> bool, replace: bool) -> Seq<A> {
    let at = place_of(list, x, before);
    if at < list.len() && !before(x, list[at]) {
        if replace {
            list.update(at, x)
        } else {
            list
        }
    } else {
        list.insert(at, x)
    }
}

/// A list in order with one more element, without its last where it grows
/// beyond a capacity.
pub open spec fn put_within<A>(
    list: Seq<A>,
    x: A,
    before: spec_fn(A, A) -> bool,
    replace: bool,
    capacity: int,
) -> Seq<A> {
    let grown = put(list, x, before, replace);
    if grown.len() > capacity {
        grown.drop_last()
    } else {
        grown
    }
}

/// All elements in order.
pub open spec fn put_all<A>(items: Seq<A>, before: spec_fn(A, A) -> bool, replace: bool) -> Seq<A>
    decreases items.len(),
{
    if items.len() == 0 {
        Seq::empty()
    } else {
        put(put_all(items.drop_last(), before, replace), items.last(), before, replace)
    }
}

/// All elements in order, never more than a capacity at a time.
pub open spec fn put_all_within<A>(
    items: Seq<A>,
    before: spec_fn(A, A) -> bool,
    replace: bool,
    capacity: int,
) -> Seq<A>
    decreases items.len(),
{
    if items.len() == 0 {
        Seq::empty()
    } else {
        put_within(
            put_all_within(items.drop_last(), before, replace, capacity),
            items.last(),
            before,
            replace,
            capacity,
        )
    }
}

/// The first elements of a list, at most `limit`.
pub open spec fn first_of<A>(list: Seq<A>, limit: int) -> Seq<A> {
    if list.len() > limit {
        list.take(limit)
    } else {
        list
    }
}

/// Whether each element precedes all behind it.
pub open spec fn strictly_ordered<A>(list: Seq<A>, before: spec_fn(A, A) -> bool) -> bool {
    forall|i: int, j: int|
        0 <= i < j < list.len() ==> before(#[trigger] list[i], #[trigger] list[j])
}

/// The place of an element is where all before it precede it and the one there
/// does not.
pub proof fn place_is<A>(list: Seq<A>, x: A, before: spec_fn(A, A) -> bool, at: int)
    requires
        0 <= at <= list.len(),
        forall|k: int| 0 <= k < at ==> before(#[trigger] list[k], x),
        at < list.len() ==> !before(list[at], x),
    ensures
        place_of(list, x, before) == at,
    decreases list.len(),
{
    if list.len() > 0 && at > 0 {
        assert(before(list[0], x));
        let rest = list.subrange(1, list.len() as int);
        assert forall|k: int| 0 <= k < at - 1 implies before(#[trigger] rest[k], x) by {
            assert(rest[k] == list[k + 1]);
        }
        if at < list.len() {
            assert(rest[at - 1] == list[at]);
        }
        place_is(rest, x, before, at - 1);
    }
}

/// What precedes an element stands before its place, and what stands there does
/// not precede it.
pub proof fn place_bounds<A>(list: Seq<A>, x: A, before: spec_fn(A, A) -> bool)
    ensures
        0 <= place_of(list, x, before) <= list.len(),
        forall|k: int| 0 <= k < place_of(list, x, before) ==> before(#[trigger] list[k], x),
        place_of(list, x, before) < list.len() ==> !before(list[place_of(list, x, before)], x),
    decreases list.len(),
{
    if list.len() > 0 && before(list[0], x) {
        let rest = list.subrange(1, list.len() as int);
        place_bounds(rest, x, before);
        let at = place_of(list, x, before);
        assert forall|k: int| 0 <= k < at implies before(#[trigger] list[k], x) by {
            if k > 0 {
                assert(rest[k - 1] == list[k]);
            }
        }
        if at < list.len() {
            assert(rest[at - 1] == list[at]);
        }
    }
}

/// A list with one more element holds its elements and the new one, no other.
pub proof fn put_members<A>(list: Seq<A>, x: A, before: spec_fn(A, A) -> bool, replace: bool)
    ensures
        forall|i: int|
            0 <= i < put(list, x, before, replace).len() ==> (#[trigger] put(
                list,
                x,
                before,
                replace,
            )[i] == x || list.contains(put(list, x, before, replace)[i])),
{
    place_bounds(list, x, before);
    let out = put(list, x, before, replace);
    let at = place_of(list, x, before);
    assert forall|i: int| 0 <= i < out.len() implies (#[trigger] out[i] == x || list.contains(
        out[i],
    )) by {
        if out.len() == list.len() {
            if out[i] != x {
                assert(out[i] == list[i]);
            }
        } else if i < at {
            assert(out[i] == list[i]);
        } else if i > at {
            assert(out[i] == list[i - 1]);
        }
    }
}

/// A list in order stays in order with one more element.
pub proof fn put_stays_ordered<A>(
    list: Seq<A>,
    x: A,
    before: spec_fn(A, A) -> bool,
    replace: bool,
)
    requires
        weak_order(before),
        strictly_ordered(list, before),
    ensures
        strictly_ordered(put(list, x, before, replace), before),
{
    place_bounds(list, x, before);
    let at = place_of(list, x, before);
    let out = put(list, x, before, replace);
    assert forall|i: int, j: int| 0 <= i < j < out.len() implies before(
        #[trigger] out[i],
        #[trigger] out[j],
    ) by {
        if at < list.len() && !before(x, list[at]) {
            if replace {
                if i == at {
                    assert(out[j] == list[j]);
                    assert(before(list[at], list[j]));
                    assert(!before(list[at], x));
                } else if j == at {
                    assert(out[i] == list[i]);
                } else {
                    assert(out[i] == list[i] && out[j] == list[j]);
                }
            }
        } else {
            if i == at {
                assert(out[j] == list[j - 1]);
                if j - 1 > at {
                    assert(before(list[at], list[j - 1]));
                    assert(!before(list[at], x));
                    assert(before(x, list[at]));
                    if !before(x, list[j - 1]) {
                        assert(!before(list[j - 1], list[at]));
                        assert(!before(x, list[at]));
                    }
                }
            } else if j == at {
                assert(out[i] == list[i]);
            } else {
                let p = if i < at {
                    i
                } else {
                    i - 1
                };
                let q = if j < at {
                    j
                } else {
                    j - 1
                };
                assert(out[i] == list[p] && out[j] == list[q]);
            }
        }
    }
}

proof fn lemma_put_within<A>(
    list: Seq<A>,
    x: A,
    before: spec_fn(A, A) -> bool,
    replace: bool,
    capacity: int,
)
    requires
        weak_order(before),
        strictly_ordered(list, before),
        capacity >= 0,
    ensures
        put_within(first_of(list, capacity), x, before, replace, capacity) == first_of(
            put(list, x, before, replace),
            capacity,
        ),
{
    place_bounds(list, x, before);
    let at = place_of(list, x, before);
    let short = first_of(list, capacity);
    let full = put(list, x, before, replace);
    if list.len() <= capacity {
        if full.len() > capacity {
            assert(full.drop_last() =~= full.take(capacity));
        }
    } else {
        assert(short =~= list.take(capacity));
        if at < capacity {
            assert forall|k: int| 0 <= k < at implies before(#[trigger] short[k], x) by {
                assert(short[k] == list[k]);
            }
            assert(short[at] == list[at]);
            place_is(short, x, before, at);
            assert(put_within(short, x, before, replace, capacity) =~= full.take(capacity));
        } else {
            assert forall|k: int| 0 <= k < capacity implies before(#[trigger] short[k], x) by {
                assert(short[k] == list[k]);
            }
            place_is(short, x, before, capacity);
            assert(put_within(short, x, before, replace, capacity) =~= full.take(capacity));
        }
    }
}

/// All elements in order are no more than were given.
pub proof fn put_all_len<A>(items: Seq<A>, before: spec_fn(A, A) -> bool, replace: bool)
    ensures
        put_all(items, before, replace).len() <= items.len(),
    decreases items.len(),
{
    if items.len() > 0 {
        put_all_len(items.drop_last(), before, replace);
        place_bounds(
            put_all(items.drop_last(), before, replace),
            items.last(),
            before,
        );
    }
}

/// Keeping never more than a capacity of elements gives the first elements of
/// all in order, whatever order they come in.
pub proof fn bounded_selection_is_the_first<A>(
    items: Seq<A>,
    before: spec_fn(A, A) -> bool,
    replace: bool,
    capacity: int,
)
    requires
        weak_order(before),
        capacity >= 0,
    ensures
        put_all_within(items, before, replace, capacity) == first_of(
            put_all(items, before, replace),
            capacity,
        ),
        strictly_ordered(put_all(items, before, replace), before),
    decreases items.len(),
{
    if items.len() > 0 {
        let front = items.drop_last();
        bounded_selection_is_the_first(front, before, replace, capacity);
        lemma_put_within(put_all(front, before, replace), items.last(), before, replace, capacity);
        put_stays_ordered(put_all(front, before, replace), items.last(), before, replace);
    }
}

/// Adds a value to a list in order, and drops the last where the list grows
/// beyond a capacity.
pub(crate) fn insert_within<T: View, F: Fn(&T, &T) -> bool>(
    list: &mut Vec<T>,
    item: T,
    precedes: F,
    replace: bool,
    capacity: usize,
    Ghost(before): Ghost<spec_fn(T::V, T::V) -> bool>,
)
    requires
        forall|a: &T, b: &T| call_requires(precedes, (a, b)),
        forall|a: &T, b: &T, answer: bool|
            call_ensures(precedes, (a, b), answer) ==> answer == before(a@, b@),
    ensures
        views(final(list)@) == put_within(
            views(old(list)@),
            item@,
            before,
            replace,
            capacity as int,
        ),
{
    let ghost start = views(list@);
    let mut at: usize = 0;
    while at < list.len() && precedes(&list[at], &item)
        invariant
            at <= list.len(),
            start == views(list@),
            forall|a: &T, b: &T| call_requires(precedes, (a, b)),
            forall|a: &T, b: &T, answer: bool|
                call_ensures(precedes, (a, b), answer) ==> answer == before(a@, b@),
            forall|k: int| 0 <= k < at ==> before(#[trigger] start[k], item@),
        decreases list.len() - at,
    {
        assert(start[at as int] == list@[at as int]@);
        at += 1;
    }
    proof {
        if at < list.len() {
            assert(start[at as int] == list@[at as int]@);
        }
        place_is(start, item@, before, at as int);
    }
    if at < list.len() && !precedes(&item, &list[at]) {
        if replace {
            let ghost x = item@;
            let old_item = list.remove(at);
            list.insert(at, item);
            assert(views(list@) =~= start.update(at as int, x));
        }
    } else {
        let ghost x = item@;
        list.insert(at, item);
        assert(views(list@) =~= start.insert(at as int, x));
    }
    let ghost grown = views(list@);
    if list.len() > capacity {
        let last = list.pop();
        assert(views(list@) =~= grown.drop_last());
    }
}

/// Sorts values by a strict order on their views.
pub(crate) fn sort_by<T: View, F: Fn(&T, &T) -> bool>(
    items: Vec<T>,
    precedes: F,
    Ghost(before): Ghost<spec_fn(T::V, T::V) -> bool>,
) -> (r: Vec<T>)
    requires
        forall|a: &T, b: &T| call_requires(precedes, (a, b)),
        forall|a: &T, b: &T, answer: bool|
            call_ensures(precedes, (a, b), answer) ==> answer == before(a@, b@),
    ensures
        views(r@) == sorted_by(views(items@), before),
{
    let mut out: Vec<T> = Vec::new();
    let ghost all = views(items@);
    for item in it: items
        invariant
            it.seq() == items@,
            all == views(items@),
            forall|a: &T, b: &T| call_requires(precedes, (a, b)),
            forall|a: &T, b: &T, answer: bool|
                call_ensures(precedes, (a, b), answer) ==> answer == before(a@, b@),
            views(out@) =~= sorted_by(all.take(it.index() as int), before),
    {
        let mut at: usize = 0;
        let mut found = false;
        while at < out.len() && !found
            invariant
                at <= out.len(),
                forall|a: &T, b: &T| call_requires(precedes, (a, b)),
                forall|a: &T, b: &T, answer: bool|
                    call_ensures(precedes, (a, b), answer) ==> answer == before(a@, b@),
                forall|k: int| 0 <= k < at ==> !before(item@, #[trigger] out@[k]@),
                found ==> at < out.len() && before(item@, out@[at as int]@),
            decreases out.len() - at + (if found { 0int } else { 1 }),
        {
            if precedes(&item, &out[at]) {
                found = true;
            } else {
                at += 1;
            }
        }
        proof {
            let list = views(out@);
            assert forall|k: int| 0 <= k < at implies !before(item@, #[trigger] list[k]) by {
                assert(!before(item@, out@[k]@));
            }
            lemma_insert_position(list, item@, before, at as int);
            let next = all.take(it.index() as int + 1);
            assert(next.drop_last() =~= all.take(it.index() as int));
            assert(next.last() == item@);
            assert(views(out@.insert(at as int, item)) =~= list.insert(at as int, item@));
        }
        out.insert(at, item);
    }
    assert(all.take(all.len() as int) =~= all);
    out
}

/// Removes values whose view repeats that of the one before.
pub(crate) fn remove_repeats<T: View, F: Fn(&T, &T) -> bool>(items: Vec<T>, same: F) -> (r: Vec<T>)
    requires
        forall|a: &T, b: &T| call_requires(same, (a, b)),
        forall|a: &T, b: &T, answer: bool|
            call_ensures(same, (a, b), answer) ==> answer == (a@ == b@),
    ensures
        views(r@) == without_repeats(views(items@)),
{
    let mut out: Vec<T> = Vec::new();
    let ghost all = views(items@);
    for item in it: items
        invariant
            it.seq() == items@,
            all == views(items@),
            forall|a: &T, b: &T| call_requires(same, (a, b)),
            forall|a: &T, b: &T, answer: bool|
                call_ensures(same, (a, b), answer) ==> answer == (a@ == b@),
            views(out@) =~= without_repeats(all.take(it.index() as int)),
    {
        proof {
            let next = all.take(it.index() as int + 1);
            assert(next.drop_last() =~= all.take(it.index() as int));
            assert(next.last() == item@);
            assert(views(out@.push(item)) =~= views(out@).push(item@));
        }
        let repeats = out.len() > 0 && same(&out[out.len() - 1], &item);
        if !repeats {
            out.push(item);
        }
    }
    assert(all.take(all.len() as int) =~= all);
    out
}

/// Whether one text comes strictly before another.
pub fn text_precedes(a: &String, b: &String) -> (r: bool)
    ensures
        r == by_text()(a@, b@),
{
    crate::text::text_before(a.as_str(), b.as_str()) && !crate::text::same_text(
        a.as_str(),
        b.as_str(),
    )
}

/// Whether two strings hold the same text.
fn text_equals(a: &String, b: &String) -> (r: bool)
    ensures
        r == (a@ == b@),
{
    crate::text::same_text(a.as_str(), b.as_str())
}

/// The distinct texts of a list, in ascending order.
pub fn sort_unique_texts(items: Vec<String>) -> (r: Vec<String>)
    ensures
        texts(r@) == sorted_unique(texts(items@)),
{
    proof {
        assert(views(items@) =~= texts(items@));
    }
    let sorted = sort_by(items, text_precedes, Ghost(by_text()));
    let r = remove_repeats(sorted, text_equals);
    proof {
        assert(views(r@) =~= texts(r@));
    }
    r
}

/// The first elements of a sorted list stand in order, and no element that is left
/// out must precede one of them.
pub proof fn the_first_of_a_sorted_list<A>(
    list: Seq<A>,
    before: spec_fn(A, A) -> bool,
    limit: int,
)
    requires
        weak_order(before),
        limit >= 0,
    ensures
        in_order(first_of(sorted_by(list, before), limit), before),
        first_of(sorted_by(list, before), limit).len() == if list.len() > limit {
            limit
        } else {
            list.len() as int
        },
        forall|x: A|
            #[trigger] first_of(sorted_by(list, before), limit).contains(x) ==> list.contains(x),
        forall|x: A, i: int|
            #![trigger list.contains(x), first_of(sorted_by(list, before), limit)[i]]
            list.contains(x) && !first_of(sorted_by(list, before), limit).contains(x) && 0 <= i
                < first_of(sorted_by(list, before), limit).len() ==> first_of(
                sorted_by(list, before),
                limit,
            ).len() == limit && !before(x, first_of(sorted_by(list, before), limit)[i]),
        forall|x: A|
            #[trigger] list.contains(x) && list.len() <= limit ==> first_of(
                sorted_by(list, before),
                limit,
            ).contains(x),
{
    let sorted = sorted_by(list, before);
    let out = first_of(sorted, limit);
    sorting_orders(list, before);
    sorting_keeps_elements(list, before);
    broadcast use vstd::seq_lib::group_to_multiset_ensures;

    assert forall|x: A| #[trigger] sorted.contains(x) <==> list.contains(x) by {
        assert(sorted.contains(x) <==> sorted.to_multiset().count(x) > 0);
        assert(list.contains(x) <==> list.to_multiset().count(x) > 0);
    }
    assert forall|i: int, j: int| 0 <= i < j < out.len() implies !before(
        #[trigger] out[j],
        #[trigger] out[i],
    ) by {
        assert(out[i] == sorted[i] && out[j] == sorted[j]);
    }
    assert forall|x: A| #[trigger] out.contains(x) implies list.contains(x) by {
        let k = choose|k: int| 0 <= k < out.len() && out[k] == x;
        assert(sorted[k] == x);
        assert(sorted.contains(x));
    }
    assert forall|x: A, i: int|
        #![trigger list.contains(x), out[i]]
        list.contains(x) && !out.contains(x) && 0 <= i < out.len() implies out.len() == limit
        && !before(x, out[i]) by {
        assert(sorted.contains(x));
        let k = choose|k: int| 0 <= k < sorted.len() && sorted[k] == x;
        if k < out.len() {
            assert(out[k] == x);
        }
        assert(out[i] == sorted[i]);
    }
    assert forall|x: A| #[trigger] list.contains(x) && list.len() <= limit implies out.contains(
        x,
    ) by {
        assert(sorted.contains(x));
    }
}

/// Of two different texts exactly one comes first, and the order of texts chains.
pub proof fn texts_are_in_line(a: Seq<char>, b: Seq<char>, c: Seq<char>)
    ensures
        !text_lt(a, a),
        text_lt(a, b) ==> !text_lt(b, a),
        a == b || text_lt(a, b) || text_lt(b, a),
        text_lt(a, b) && text_lt(b, c) ==> text_lt(a, c),
        !text_lt(a, b) && !text_lt(b, c) ==> !text_lt(a, c),
{
    text_order(a, b, c);
    text_order(b, a, c);
    text_order(c, b, a);
    text_order(a, c, b);
}

/// All elements in order hold only elements that were given.
pub proof fn putting_adds_nothing<A>(items: Seq<A>, before: spec_fn(A, A) -> bool, replace: bool)
    ensures
        forall|i: int|
            0 <= i < put_all(items, before, replace).len() ==> items.contains(
                #[trigger] put_all(items, before, replace)[i],
            ),
    decreases items.len(),
{
    if items.len() > 0 {
        let front = items.drop_last();
        let held = put_all(front, before, replace);
        let x = items.last();
        let out = put_all(items, before, replace);
        putting_adds_nothing(front, before, replace);
        put_members(held, x, before, replace);
        assert forall|i: int| 0 <= i < out.len() implies items.contains(#[trigger] out[i]) by {
            assert(put(held, x, before, replace)[i] == x || held.contains(
                put(held, x, before, replace)[i],
            ));
            if out[i] != x {
                let j = choose|j: int| 0 <= j < held.len() && held[j] == out[i];
                assert(front.contains(held[j]));
                let k = choose|k: int| 0 <= k < front.len() && front[k] == held[j];
                assert(items[k] == out[i]);
            } else {
                assert(items[items.len() - 1] == x);
            }
        }
    }
}

proof fn ties_chain<A>(before: spec_fn(A, A) -> bool, a: A, b: A, c: A)
    requires
        weak_order(before),
        !before(a, b) && !before(b, a),
        !before(b, c) && !before(c, b),
    ensures
        !before(a, c) && !before(c, a),
{
}

proof fn no_element_precedes_itself<A>(before: spec_fn(A, A) -> bool, a: A)
    requires
        weak_order(before),
    ensures
        !before(a, a),
{
}

/// Where an element stands in a list that was given one more, or what took its place.
proof fn place_after_put<A>(
    held: Seq<A>,
    x: A,
    before: spec_fn(A, A) -> bool,
    replace: bool,
    j: int,
) -> (i: int)
    requires
        weak_order(before),
        0 <= j < held.len(),
    ensures
        0 <= i < put(held, x, before, replace).len(),
        !before(held[j], put(held, x, before, replace)[i]),
        !before(put(held, x, before, replace)[i], held[j]),
{
    place_bounds(held, x, before);
    let at = place_of(held, x, before);
    let out = put(held, x, before, replace);
    no_element_precedes_itself(before, held[j]);
    if out.len() == held.len() {
        if j == at {
            j
        } else {
            assert(out[j] == held[j]);
            j
        }
    } else if j < at {
        assert(out[j] == held[j]);
        j
    } else {
        assert(out[j + 1] == held[j]);
        j + 1
    }
}

/// All elements in order hold, for every element that was given, one that need not
/// stand before or behind it.
pub proof fn putting_leaves_nothing_out<A>(
    items: Seq<A>,
    before: spec_fn(A, A) -> bool,
    replace: bool,
    k: int,
) -> (i: int)
    requires
        weak_order(before),
        0 <= k < items.len(),
    ensures
        0 <= i < put_all(items, before, replace).len(),
        !before(items[k], put_all(items, before, replace)[i]),
        !before(put_all(items, before, replace)[i], items[k]),
    decreases items.len(),
{
    let front = items.drop_last();
    let held = put_all(front, before, replace);
    let x = items.last();
    let out = put_all(items, before, replace);
    place_bounds(held, x, before);
    let at = place_of(held, x, before);
    if k == items.len() - 1 {
        no_element_precedes_itself(before, x);
        at
    } else {
        assert(items[k] == front[k]);
        let j = putting_leaves_nothing_out(front, before, replace, k);
        let i = place_after_put(held, x, before, replace, j);
        ties_chain(before, items[k], held[j], out[i]);
        i
    }
}

} // verus!
