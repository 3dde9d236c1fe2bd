//! Which words of a task are searched together.

use crate::context::facets::{
    behavior_terms, by_position, by_weight, folded, folded_place, idle, leading, pair_positions,
    phrase_at, phrases_in, placed, stop_word, terms_in, test_term, PlacedView,
};
use crate::lists::{distinct_by, distinct_by_keys, filter_map, filter_map_members};
use crate::ordered::{
    first_of, sorted_by, sorting_keeps_elements, texts_are_in_line, the_first_of_a_sorted_list,
    weak_order,
};
use crate::laws::queries::picked_from;
use crate::text::lowered;
use vstd::prelude::*;

verus! {

proof fn heavier_places_come_first()
    ensures
        weak_order(by_weight()),
{
    let before = by_weight();
    assert forall|a: PlacedView, b: PlacedView| #[trigger] before(a, b) implies !before(b, a) by {
        texts_are_in_line(a.term, b.term, a.term);
    }
    assert forall|a: PlacedView, b: PlacedView, c: PlacedView|
        !(#[trigger] before(a, b)) && !(#[trigger] before(b, c)) implies !before(a, c) by {
        texts_are_in_line(a.term, b.term, c.term);
        texts_are_in_line(b.term, c.term, a.term);
    }
}

proof fn sorting_adds_nothing<A>(list: Seq<A>, before: spec_fn(A, A) -> bool, x: A)
    ensures
        sorted_by(list, before).contains(x) <==> list.contains(x),
        sorted_by(list, before).len() == list.len(),
{
    broadcast use vstd::seq_lib::group_to_multiset_ensures;

    sorting_keeps_elements(list, before);
    assert(sorted_by(list, before).to_multiset().count(x) == list.to_multiset().count(x));
}

spec fn heaviest_are_kept(all: Seq<PlacedView>, kept: Seq<PlacedView>, limit: int) -> bool {
    &&& kept.len() == if all.len() > limit {
        limit
    } else {
        all.len() as int
    }
    &&& forall|x: PlacedView| #[trigger] kept.contains(x) ==> all.contains(x)
    &&& forall|k: int, i: int|
        0 <= k < all.len() && 0 <= i < kept.len() && !kept.contains(#[trigger] all[k])
            ==> all[k].weight <= (#[trigger] kept[i]).weight
}

proof fn the_heaviest_are_kept(all: Seq<PlacedView>, limit: int)
    requires
        limit >= 0,
    ensures
        heaviest_are_kept(all, first_of(sorted_by(all, by_weight()), limit), limit),
{
    let before = by_weight();
    let kept = first_of(sorted_by(all, before), limit);
    heavier_places_come_first();
    the_first_of_a_sorted_list(all, before, limit);
    assert forall|k: int, i: int|
        0 <= k < all.len() && 0 <= i < kept.len() && !kept.contains(
            #[trigger] all[k],
        ) implies all[k].weight <= (#[trigger] kept[i]).weight by {
        assert(all.contains(all[k]));
        assert(!before(all[k], kept[i]));
    }
}

/// Whether a phrase is two terms of a list that stand side by side, neither of them idle.
pub open spec fn pairs_terms(
    terms: Seq<Seq<char>>,
    excluded: Seq<Seq<char>>,
    phrase: Seq<char>,
) -> bool {
    exists|i: int|
        0 <= i < terms.len() - 1 && phrase == (#[trigger] terms[i]) + " "@ + terms[i + 1]
            && !stop_word(terms[i]) && !stop_word(terms[i + 1]) && !test_term(terms[i])
            && !test_term(terms[i + 1]) && !excluded.contains(lowered(terms[i]))
            && !excluded.contains(lowered(terms[i + 1]))
}

/// A phrase of a task is two of its terms that stand side by side, neither of them a stop
/// word, on tests or left out; there are no more phrases than asked for.
pub proof fn a_phrase_is_two_neighbouring_terms(
    task: Seq<char>,
    excluded: Seq<Seq<char>>,
    limit: int,
    n: int,
)
    requires
        limit >= 0,
        0 <= n < phrases_in(task, excluded, limit).len(),
    ensures
        phrases_in(task, excluded, limit).len() <= limit,
        pairs_terms(terms_in(task), excluded, phrases_in(task, excluded, limit)[n]),
{
    let terms = terms_in(task);
    let f = phrase_at(terms, excluded);
    let found = filter_map(pair_positions(terms.len()), f);
    let all = distinct_by(found, folded_place());
    let kept = first_of(sorted_by(all, by_weight()), limit);
    let shown = sorted_by(kept, by_position());
    the_heaviest_are_kept(all, limit);
    sorting_adds_nothing(kept, by_position(), shown[n]);
    assert(shown.contains(shown[n]));
    assert(all.contains(shown[n]));
    let a = choose|a: int| 0 <= a < all.len() && all[a] == shown[n];
    picked_from(found, folded_place(), a);
    let b = choose|b: int| 0 <= b < found.len() && #[trigger] found[b] == all[a];
    filter_map_members(pair_positions(terms.len()), f);
    let positions = pair_positions(terms.len());
    let c = choose|c: int|
        0 <= c < positions.len() && f(#[trigger] positions[c]) == Some(found[b]);
    let i = positions[c];
    assert(i == c);
    assert(terms[i] + " "@ + terms[i + 1] == shown[n].term);
    assert(!idle(terms[i], excluded) && !idle(terms[i + 1], excluded));
    assert(pairs_terms(terms, excluded, shown[n].term));
}

/// The terms of a behavior are terms of the task, no more than asked for, and none of
/// them twice in any case.
pub proof fn behavior_is_told_by_terms_of_the_task(
    terms: Seq<Seq<char>>,
    limit: usize,
    n: int,
)
    requires
        0 <= n < behavior_terms(terms, limit).len(),
        terms.len() <= usize::MAX,
    ensures
        behavior_terms(terms, limit).len() <= limit,
        terms.contains(behavior_terms(terms, limit)[n]),
{
    let unlike = distinct_by(terms, folded());
    distinct_by_keys(terms, folded());
    let all = placed(unlike);
    let first = leading(all.len(), limit);
    let rest = all.subrange(first, all.len() as int);
    let ranked = sorted_by(rest, by_weight());
    let chosen = all.take(first) + first_of(ranked, limit - first);
    let shown = sorted_by(chosen, by_position());
    the_heaviest_are_kept(rest, limit - first);
    sorting_adds_nothing(chosen, by_position(), shown[n]);
    assert(shown.contains(shown[n]));
    let c = choose|c: int| 0 <= c < chosen.len() && chosen[c] == shown[n];
    let a: int = if c < first {
        c
    } else {
        let kept = first_of(ranked, limit - first);
        assert(kept[c - first] == shown[n]);
        assert(kept.contains(shown[n]));
        assert(rest.contains(shown[n]));
        let r = choose|r: int| 0 <= r < rest.len() && rest[r] == shown[n];
        first + r
    };
    assert(all[a] == shown[n]);
    assert(unlike[a] == shown[n].term);
    picked_from(terms, folded(), a);
    let k = choose|k: int| 0 <= k < terms.len() && #[trigger] terms[k] == unlike[a];
    assert(terms.contains(terms[k]));
}

} // verus!
