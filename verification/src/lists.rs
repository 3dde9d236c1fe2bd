//! Operations on sequences that several modules state their results with.

use vstd::prelude::*;

verus! {

/// What `f` gives of the elements for which it gives something.
pub open spec fn filter_map<A, B>(list: Seq<A>, f: spec_fn(A) -> Option<B>) -> Seq<B>
    decreases list.len(),
{
    if list.len() == 0 {
        Seq::empty()
    } else {
        match f(list.last()) {
            Some(b) => filter_map(list.drop_last(), f).push(b),
            None => filter_map(list.drop_last(), f),
        }
    }
}

/// How many elements `p` holds of.
pub open spec fn tally<A>(list: Seq<A>, p: spec_fn(A) -> bool) -> nat
    decreases list.len(),
{
    if list.len() == 0 {
        0
    } else {
        tally(list.drop_last(), p) + if p(list.last()) {
            1nat
        } else {
            0
        }
    }
}

/// The position of the first element that `p` holds of, or the length.
pub open spec fn first_where<A>(list: Seq<A>, p: spec_fn(A) -> bool) -> int
    decreases list.len(),
{
    if list.len() == 0 {
        0
    } else {
        let before = first_where(list.drop_last(), p);
        if before < list.len() - 1 {
            before
        } else if p(list.last()) {
            list.len() - 1
        } else {
            list.len() as int
        }
    }
}

/// Whether `p` holds of no element, and of one where it is counted.
pub proof fn tally_bounds<A>(list: Seq<A>, p: spec_fn(A) -> bool)
    ensures
        tally(list, p) <= list.len(),
        tally(list, p) == 0 <==> forall|i: int| 0 <= i < list.len() ==> !p(#[trigger] list[i]),
        0 <= first_where(list, p) <= list.len(),
        tally(list, p) > 0 <==> first_where(list, p) < list.len(),
        tally(list, p) > 0 ==> p(list[first_where(list, p)]),
        forall|i: int| 0 <= i < first_where(list, p) ==> !p(#[trigger] list[i]),
    decreases list.len(),
{
    if list.len() > 0 {
        let front = list.drop_last();
        tally_bounds(front, p);
        if tally(front, p) == 0 {
            assert forall|i: int| 0 <= i < list.len() - 1 implies !p(#[trigger] list[i]) by {
                assert(front[i] == list[i]);
            }
        } else {
            let k = first_where(front, p);
            assert(front[k] == list[k]);
        }
        assert forall|i: int| 0 <= i < first_where(list, p) implies !p(#[trigger] list[i]) by {
            if i < front.len() {
                assert(front[i] == list[i]);
            }
        }
        if tally(list, p) == 0 {
            assert(!p(list.last()));
            assert forall|i: int| 0 <= i < list.len() implies !p(#[trigger] list[i]) by {
                if i < front.len() {
                    assert(front[i] == list[i]);
                }
            }
        } else {
            let k = first_where(list, p);
            assert(p(list[k]));
        }
    }
}

/// Counting one element more.
pub proof fn tally_push<A>(list: Seq<A>, p: spec_fn(A) -> bool, i: int)
    requires
        0 <= i < list.len(),
    ensures
        tally(list.take(i + 1), p) == tally(list.take(i), p) + if p(list[i]) {
            1nat
        } else {
            0
        },
{
    assert(list.take(i + 1).drop_last() =~= list.take(i));
}

/// A filtered list is no longer than the list.
pub proof fn filter_map_len<A, B>(list: Seq<A>, f: spec_fn(A) -> Option<B>)
    ensures
        filter_map(list, f).len() <= list.len(),
    decreases list.len(),
{
    if list.len() > 0 {
        filter_map_len(list.drop_last(), f);
    }
}

/// One element more in a filtered list.
pub proof fn filter_map_push<A, B>(list: Seq<A>, f: spec_fn(A) -> Option<B>, i: int)
    requires
        0 <= i < list.len(),
    ensures
        filter_map(list.take(i + 1), f) == match f(list[i]) {
            Some(b) => filter_map(list.take(i), f).push(b),
            None => filter_map(list.take(i), f),
        },
{
    assert(list.take(i + 1).drop_last() =~= list.take(i));
}

/// The first element that `p` holds of is where none before it is one.
pub proof fn first_where_is<A>(list: Seq<A>, p: spec_fn(A) -> bool, at: int)
    requires
        0 <= at <= list.len(),
        forall|k: int| 0 <= k < at ==> !p(#[trigger] list[k]),
        at < list.len() ==> p(list[at]),
    ensures
        first_where(list, p) == at,
{
    tally_bounds(list, p);
    let first = first_where(list, p);
    if first < at {
        assert(p(list[first]));
    } else if first > at {
        assert(!p(list[at]));
    }
}

/// Whether an element of a list has a key.
pub open spec fn holds_key<A, K>(list: Seq<A>, key: spec_fn(A) -> K, wanted: K) -> bool {
    exists|i: int| 0 <= i < list.len() && key(#[trigger] list[i]) == wanted
}

/// The elements of a list with distinct keys, each where its key first stands.
pub open spec fn distinct_by<A, K>(list: Seq<A>, key: spec_fn(A) -> K) -> Seq<A>
    decreases list.len(),
{
    if list.len() == 0 {
        Seq::empty()
    } else {
        let front = distinct_by(list.drop_last(), key);
        if holds_key(front, key, key(list.last())) {
            front
        } else {
            front.push(list.last())
        }
    }
}

/// One element more in a list with distinct keys.
pub proof fn distinct_by_push<A, K>(list: Seq<A>, key: spec_fn(A) -> K, i: int)
    requires
        0 <= i < list.len(),
    ensures
        distinct_by(list.take(i + 1), key) == if holds_key(
            distinct_by(list.take(i), key),
            key,
            key(list[i]),
        ) {
            distinct_by(list.take(i), key)
        } else {
            distinct_by(list.take(i), key).push(list[i])
        },
{
    assert(list.take(i + 1).drop_last() =~= list.take(i));
}

/// A list with distinct keys is no longer than the list, and no key of it
/// stands twice.
pub proof fn distinct_by_keys<A, K>(list: Seq<A>, key: spec_fn(A) -> K)
    ensures
        distinct_by(list, key).len() <= list.len(),
        forall|i: int, j: int|
            0 <= i < j < distinct_by(list, key).len() ==> key(
                #[trigger] distinct_by(list, key)[i],
            ) != key(#[trigger] distinct_by(list, key)[j]),
    decreases list.len(),
{
    if list.len() > 0 {
        distinct_by_keys(list.drop_last(), key);
    }
}

/// What `f` gives of all elements, one list after another.
pub open spec fn flat_map<A, B>(list: Seq<A>, f: spec_fn(A) -> Seq<B>) -> Seq<B>
    decreases list.len(),
{
    if list.len() == 0 {
        Seq::empty()
    } else {
        flat_map(list.drop_last(), f) + f(list.last())
    }
}

/// One element more in a flattened list.
pub proof fn flat_map_push<A, B>(list: Seq<A>, f: spec_fn(A) -> Seq<B>, i: int)
    requires
        0 <= i < list.len(),
    ensures
        flat_map(list.take(i + 1), f) == flat_map(list.take(i), f) + f(list[i]),
{
    assert(list.take(i + 1).drop_last() =~= list.take(i));
}

/// A filtered list holds what `f` gives of the elements, and nothing else.
pub proof fn filter_map_members<A, B>(list: Seq<A>, f: spec_fn(A) -> Option<B>)
    ensures
        forall|i: int|
            0 <= i < filter_map(list, f).len() ==> exists|k: int|
                0 <= k < list.len() && f(#[trigger] list[k]) == Some(
                    #[trigger] filter_map(list, f)[i],
                ),
        forall|k: int|
            0 <= k < list.len() && f(#[trigger] list[k]) is Some ==> filter_map(list, f).contains(
                f(list[k])->0,
            ),
    decreases list.len(),
{
    if list.len() > 0 {
        let front = list.drop_last();
        let before = filter_map(front, f);
        let out = filter_map(list, f);
        filter_map_members(front, f);
        assert forall|i: int| 0 <= i < out.len() implies exists|k: int|
            0 <= k < list.len() && f(#[trigger] list[k]) == Some(#[trigger] out[i]) by {
            if i < before.len() {
                assert(out[i] == before[i]);
                let k = choose|k: int| 0 <= k < front.len() && f(#[trigger] front[k]) == Some(
                    before[i],
                );
                assert(list[k] == front[k]);
            } else {
                assert(list[list.len() - 1] == list.last());
            }
        }
        assert forall|k: int| 0 <= k < list.len() && f(#[trigger] list[k]) is Some implies
            out.contains(f(list[k])->0) by {
            if k < front.len() {
                assert(front[k] == list[k]);
                let j = choose|j: int| 0 <= j < before.len() && before[j] == f(front[k])->0;
                assert(out[j] == before[j]);
            } else {
                assert(out[out.len() - 1] == f(list[k])->0);
            }
        }
    }
}

} // verus!
