//! What changed between two revisions, symbol by symbol and key by key.

use crate::change_receipt::{
    added_change, all_changes, body_list, by_change, change_key, configuration_changes,
    identity_list, identity_of, json_configuration, key_change, left_key, left_over,
    modified_change, owner_match, owner_tests, pointers, print_of, removed_change, renamed_change,
    scan_step, side_keys, test_like, with_body, with_identity, RevisionFile, ScanView, SymbolView,
};
use crate::json::value::JsonValue;
use crate::lists::{filter_map, filter_map_members, tally, tally_bounds, first_where};
use crate::model::{ChangeView, RelatedView};
use crate::ordered::{
    in_order, sorted_by, sorted_unique, sorted_unique_is_a_set, sorting_keeps_elements,
    sorting_orders, text_lt, texts_are_in_line, weak_order,
};
use vstd::prelude::*;

verus! {

/// Whether two symbols have the same path, name, kind and parent.
pub open spec fn same_identity(a: SymbolView, b: SymbolView) -> bool {
    &&& a.evidence.path == b.evidence.path
    &&& a.evidence.name == b.evidence.name
    &&& a.evidence.kind == b.evidence.kind
    &&& a.parent == b.parent
}

/// Whether a change tells of a symbol that only the later revision has.
pub open spec fn tells_of_added(
    change: ChangeView,
    before: Seq<SymbolView>,
    after: Seq<SymbolView>,
) -> bool {
    &&& change.before is None
    &&& exists|j: int|
        {
            &&& 0 <= j < after.len()
            &&& change.after == Some((#[trigger] after[j]).evidence)
            &&& change.public_contract_changed == after[j].explicitly_public
            &&& forall|i: int|
                0 <= i < before.len() ==> !same_identity(#[trigger] before[i], after[j])
        }
}

/// Whether a change tells of a symbol that only the earlier revision has.
pub open spec fn tells_of_removed(
    change: ChangeView,
    before: Seq<SymbolView>,
    after: Seq<SymbolView>,
) -> bool {
    &&& change.after is None
    &&& exists|i: int|
        {
            &&& 0 <= i < before.len()
            &&& change.before == Some((#[trigger] before[i]).evidence)
            &&& change.public_contract_changed == before[i].explicitly_public
            &&& forall|j: int|
                0 <= j < after.len() ==> !same_identity(#[trigger] after[j], before[i])
        }
}

/// Whether a change tells of a symbol of both revisions whose content differs.
pub open spec fn tells_of_modified(
    change: ChangeView,
    before: Seq<SymbolView>,
    after: Seq<SymbolView>,
) -> bool {
    exists|i: int, j: int|
        {
            &&& 0 <= i < before.len()
            &&& 0 <= j < after.len()
            &&& change.before == Some((#[trigger] before[i]).evidence)
            &&& change.after == Some((#[trigger] after[j]).evidence)
            &&& same_identity(before[i], after[j])
            &&& before[i].content != after[j].content
            &&& change.modification is Some
            &&& before[i].signature == after[j].signature ==> change.modification->0 is BodyOnly
                && !change.public_contract_changed
            &&& change.public_contract_changed ==> before[i].explicitly_public
                || after[j].explicitly_public
            &&& change.public_contract_changed ==> change.modification->0 is SignatureChanged
        }
}

/// Whether a change tells of a symbol that kept its kind and body and has another name.
pub open spec fn tells_of_renamed(
    change: ChangeView,
    before: Seq<SymbolView>,
    after: Seq<SymbolView>,
) -> bool {
    exists|i: int, j: int|
        {
            &&& 0 <= i < before.len()
            &&& 0 <= j < after.len()
            &&& change.before == Some((#[trigger] before[i]).evidence)
            &&& change.after == Some((#[trigger] after[j]).evidence)
            &&& before[i].evidence.name != after[j].evidence.name
            &&& before[i].evidence.kind == after[j].evidence.kind
            &&& before[i].body_fingerprint is Some
            &&& before[i].body_fingerprint == after[j].body_fingerprint
            &&& change.public_contract_changed == (before[i].explicitly_public
                || after[j].explicitly_public)
        }
}

proof fn left_over_means_alone(own: Seq<SymbolView>, other: Seq<SymbolView>, symbol: SymbolView)
    requires
        left_over(own, other)(symbol),
    ensures
        forall|i: int| 0 <= i < other.len() ==> !same_identity(#[trigger] other[i], symbol),
{
    let p = with_identity(identity_of(symbol));
    tally_bounds(other, p);
    assert forall|i: int| 0 <= i < other.len() implies !same_identity(
        #[trigger] other[i],
        symbol,
    ) by {
        assert(!p(other[i]));
    }
}

proof fn a_listed_change_is_made(
    before: Seq<SymbolView>,
    after: Seq<SymbolView>,
    change: ChangeView,
)
    requires
        all_changes(before, after).contains(change),
    ensures
        ({
            ||| exists|k: int|
                0 <= k < identity_list(before, after).len() && modified_change(before, after)(
                    #[trigger] identity_list(before, after)[k],
                ) == Some(change)
            ||| exists|k: int|
                0 <= k < body_list(before, after).len() && renamed_change(before, after)(
                    #[trigger] body_list(before, after)[k],
                ) == Some(change)
            ||| exists|k: int|
                0 <= k < before.len() && removed_change(before, after)(#[trigger] before[k])
                    == Some(change)
            ||| exists|k: int|
                0 <= k < after.len() && added_change(before, after)(#[trigger] after[k]) == Some(
                    change,
                )
        }),
{
    let a = filter_map(identity_list(before, after), modified_change(before, after));
    let b = filter_map(body_list(before, after), renamed_change(before, after));
    let c = filter_map(before, removed_change(before, after));
    let d = filter_map(after, added_change(before, after));
    let all = a + b + c + d;
    sorting_keeps_elements(all, by_change());
    filter_map_members(identity_list(before, after), modified_change(before, after));
    filter_map_members(body_list(before, after), renamed_change(before, after));
    filter_map_members(before, removed_change(before, after));
    filter_map_members(after, added_change(before, after));
    assert(all.contains(change)) by {
        broadcast use vstd::seq_lib::group_to_multiset_ensures;

        assert(sorted_by(all, by_change()).to_multiset().count(change) > 0);
    }
    let i = choose|i: int| 0 <= i < all.len() && all[i] == change;
    if i < a.len() {
        assert(a[i] == change);
    } else if i < a.len() + b.len() {
        assert(b[i - a.len()] == change);
    } else if i < a.len() + b.len() + c.len() {
        assert(c[i - a.len() - b.len()] == change);
    } else {
        assert(d[i - a.len() - b.len() - c.len()] == change);
    }
}

/// The kind of a change tells which revisions have the symbol: one that only the later
/// has was added, one that only the earlier has was removed. A modified symbol has its
/// identity in both and other content; a renamed one has its kind and its body in both
/// and another name.
pub proof fn the_kind_of_a_change_tells_its_symbols(
    before: Seq<SymbolView>,
    after: Seq<SymbolView>,
    change: ChangeView,
)
    requires
        all_changes(before, after).contains(change),
    ensures
        change.kind is Added <==> change.before is None && change.after is Some,
        change.kind is Removed <==> change.before is Some && change.after is None,
        change.kind is Modified || change.kind is Renamed <==> change.before is Some
            && change.after is Some,
        change.modification is Some <==> change.kind is Modified,
        change.kind is Added ==> tells_of_added(change, before, after),
        change.kind is Removed ==> tells_of_removed(change, before, after),
        change.kind is Modified ==> tells_of_modified(change, before, after),
        change.kind is Renamed ==> tells_of_renamed(change, before, after),
{
    a_listed_change_is_made(before, after, change);
    if exists|k: int|
        0 <= k < identity_list(before, after).len() && modified_change(before, after)(
            #[trigger] identity_list(before, after)[k],
        ) == Some(change) {
        let k = choose|k: int|
            0 <= k < identity_list(before, after).len() && modified_change(before, after)(
                #[trigger] identity_list(before, after)[k],
            ) == Some(change);
        let p = with_identity(identity_list(before, after)[k]);
        tally_bounds(before, p);
        tally_bounds(after, p);
        let i = first_where(before, p);
        let j = first_where(after, p);
        assert(p(before[i]) && p(after[j]));
        assert(same_identity(before[i], after[j]));
        assert(change.before == Some(before[i].evidence));
        assert(change.after == Some(after[j].evidence));
    } else if exists|k: int|
        0 <= k < body_list(before, after).len() && renamed_change(before, after)(
            #[trigger] body_list(before, after)[k],
        ) == Some(change) {
        let k = choose|k: int|
            0 <= k < body_list(before, after).len() && renamed_change(before, after)(
                #[trigger] body_list(before, after)[k],
            ) == Some(change);
        let key = body_list(before, after)[k];
        let gone = with_body(before, after, key);
        let new = with_body(after, before, key);
        tally_bounds(before, gone);
        tally_bounds(after, new);
        let i = first_where(before, gone);
        let j = first_where(after, new);
        assert(gone(before[i]) && new(after[j]));
        assert(left_key(before, after)(before[i]) == Some(key));
        assert(left_key(after, before)(after[j]) == Some(key));
        assert(change.before == Some(before[i].evidence));
        assert(change.after == Some(after[j].evidence));
    } else if exists|k: int|
        0 <= k < before.len() && removed_change(before, after)(#[trigger] before[k]) == Some(
            change,
        ) {
        let k = choose|k: int|
            0 <= k < before.len() && removed_change(before, after)(#[trigger] before[k]) == Some(
                change,
            );
        left_over_means_alone(before, after, before[k]);
        assert(change.before == Some(before[k].evidence));
    } else {
        let k = choose|k: int|
            0 <= k < after.len() && added_change(before, after)(#[trigger] after[k]) == Some(change);
        left_over_means_alone(after, before, after[k]);
        assert(change.after == Some(after[k].evidence));
    }
}

/// No change is passed over: a symbol without a body that only the later revision has,
/// once, is told as added, and one that only the earlier has as removed.
pub proof fn lone_symbols_are_told(before: Seq<SymbolView>, after: Seq<SymbolView>, k: int)
    ensures
        0 <= k < after.len() && after[k].body_fingerprint is None && (forall|i: int|
            0 <= i < before.len() ==> !same_identity(#[trigger] before[i], after[k])) && tally(
            after,
            with_identity(identity_of(after[k])),
        ) == 1 ==> exists|c: ChangeView|
            #[trigger] all_changes(before, after).contains(c) && c.kind is Added && c.after == Some(
                after[k].evidence,
            ),
        0 <= k < before.len() && before[k].body_fingerprint is None && (forall|j: int|
            0 <= j < after.len() ==> !same_identity(#[trigger] after[j], before[k])) && tally(
            before,
            with_identity(identity_of(before[k])),
        ) == 1 ==> exists|c: ChangeView|
            #[trigger] all_changes(before, after).contains(c) && c.kind is Removed && c.before
                == Some(before[k].evidence),
{
    if 0 <= k < after.len() && after[k].body_fingerprint is None && (forall|i: int|
        0 <= i < before.len() ==> !same_identity(#[trigger] before[i], after[k])) && tally(
        after,
        with_identity(identity_of(after[k])),
    ) == 1 {
        let p = with_identity(identity_of(after[k]));
        tally_bounds(before, p);
        assert(tally(before, p) == 0) by {
            assert forall|i: int| 0 <= i < before.len() implies !p(#[trigger] before[i]) by {
                assert(!same_identity(before[i], after[k]));
            }
        }
        let f = added_change(before, after);
        filter_map_members(after, f);
        assert(f(after[k]) is Some);
        let c = f(after[k])->0;
        a_made_change_is_listed(before, after, c, k);
    }
    if 0 <= k < before.len() && before[k].body_fingerprint is None && (forall|j: int|
        0 <= j < after.len() ==> !same_identity(#[trigger] after[j], before[k])) && tally(
        before,
        with_identity(identity_of(before[k])),
    ) == 1 {
        let p = with_identity(identity_of(before[k]));
        tally_bounds(after, p);
        assert(tally(after, p) == 0) by {
            assert forall|i: int| 0 <= i < after.len() implies !p(#[trigger] after[i]) by {
                assert(!same_identity(after[i], before[k]));
            }
        }
        let f = removed_change(before, after);
        filter_map_members(before, f);
        assert(f(before[k]) is Some);
        let c = f(before[k])->0;
        a_made_change_is_listed(before, after, c, k);
    }
}

proof fn a_made_change_is_listed(
    before: Seq<SymbolView>,
    after: Seq<SymbolView>,
    change: ChangeView,
    k: int,
)
    requires
        (0 <= k < after.len() && added_change(before, after)(after[k]) == Some(change)) || (0 <= k
            < before.len() && removed_change(before, after)(before[k]) == Some(change)),
    ensures
        all_changes(before, after).contains(change),
{
    let a = filter_map(identity_list(before, after), modified_change(before, after));
    let b = filter_map(body_list(before, after), renamed_change(before, after));
    let c = filter_map(before, removed_change(before, after));
    let d = filter_map(after, added_change(before, after));
    let all = a + b + c + d;
    filter_map_members(before, removed_change(before, after));
    filter_map_members(after, added_change(before, after));
    if 0 <= k < after.len() && added_change(before, after)(after[k]) == Some(change) {
        assert(d.contains(change));
        let i = choose|i: int| 0 <= i < d.len() && d[i] == change;
        assert(all[a.len() + b.len() + c.len() + i] == change);
    } else {
        assert(c.contains(change));
        let i = choose|i: int| 0 <= i < c.len() && c[i] == change;
        assert(all[a.len() + b.len() + i] == change);
    }
    sorting_keeps_elements(all, by_change());
    broadcast use vstd::seq_lib::group_to_multiset_ensures;

    assert(all.contains(change));
    assert(all.to_multiset().count(change) > 0);
}

proof fn changes_order()
    ensures
        weak_order(by_change()),
{
    let before = by_change();
    assert forall|a: ChangeView, b: ChangeView| #[trigger] before(a, b) implies !before(b, a) by {
        texts_are_in_line(change_key(a).path, change_key(b).path, change_key(a).path);
        texts_are_in_line(change_key(a).name, change_key(b).name, change_key(a).name);
    }
    assert forall|a: ChangeView, b: ChangeView, c: ChangeView|
        !(#[trigger] before(a, b)) && !(#[trigger] before(b, c)) implies !before(a, c) by {
        texts_are_in_line(change_key(a).path, change_key(b).path, change_key(c).path);
        texts_are_in_line(change_key(b).path, change_key(c).path, change_key(a).path);
        texts_are_in_line(change_key(a).name, change_key(b).name, change_key(c).name);
        texts_are_in_line(change_key(b).name, change_key(c).name, change_key(a).name);
    }
}

/// Changes come in the order of the paths, and then of the first lines, of the symbols
/// that they tell of, the later revision's where it has one.
pub proof fn changes_come_in_the_order_of_their_places(
    before: Seq<SymbolView>,
    after: Seq<SymbolView>,
)
    ensures
        forall|i: int, j: int|
            0 <= i < j < all_changes(before, after).len() ==> {
                let a = #[trigger] all_changes(before, after)[i];
                let b = #[trigger] all_changes(before, after)[j];
                let x = if a.after is Some {
                    a.after->0
                } else {
                    a.before->0
                };
                let y = if b.after is Some {
                    b.after->0
                } else {
                    b.before->0
                };
                &&& !text_lt(y.path, x.path)
                &&& x.path == y.path ==> x.start_line <= y.start_line
                &&& x.path == y.path && x.start_line == y.start_line ==> !text_lt(y.name, x.name)
            },
{
    let all = all_changes(before, after);
    assert(in_order(all, by_change())) by {
        changes_order();
        sorting_orders(
            filter_map(identity_list(before, after), modified_change(before, after)) + filter_map(
                body_list(before, after),
                renamed_change(before, after),
            ) + filter_map(before, removed_change(before, after)) + filter_map(
                after,
                added_change(before, after),
            ),
            by_change(),
        );
    }
    assert forall|i: int, j: int| 0 <= i < j < all.len() implies {
        let a = #[trigger] all[i];
        let b = #[trigger] all[j];
        let x = if a.after is Some {
            a.after->0
        } else {
            a.before->0
        };
        let y = if b.after is Some {
            b.after->0
        } else {
            b.before->0
        };
        &&& !text_lt(y.path, x.path)
        &&& x.path == y.path ==> x.start_line <= y.start_line
        &&& x.path == y.path && x.start_line == y.start_line ==> !text_lt(y.name, x.name)
    } by {
        assert(!by_change()(all[j], all[i]));
        assert(all.contains(all[i]) && all.contains(all[j]));
        the_kind_of_a_change_tells_its_symbols(before, after, all[i]);
        the_kind_of_a_change_tells_its_symbols(before, after, all[j]);
    }
}

/// A key of a configuration was added exactly where only the later document has it,
/// removed exactly where only the earlier has it, and modified exactly where both have
/// it with other values. Each changed key stands once, in ascending order.
pub proof fn configuration_changes_tell_their_keys(
    path: Seq<char>,
    before: Option<JsonValue>,
    after: Option<JsonValue>,
    i: int,
)
    requires
        0 <= i < configuration_changes(path, before, after).len(),
    ensures
        ({
            let change = configuration_changes(path, before, after)[i];
            let old = print_of(side_keys(before), change.key_path);
            let new = print_of(side_keys(after), change.key_path);
            &&& change.path == path
            &&& change.kind is Added <==> old is None && new is Some
            &&& change.kind is Removed <==> old is Some && new is None
            &&& change.kind is Modified <==> old is Some && new is Some
            &&& change.kind is Modified ==> old != new
            &&& old is Some || new is Some
        }),
{
    let old = side_keys(before);
    let new = side_keys(after);
    let list = sorted_unique(pointers(old) + pointers(new));
    filter_map_members(list, key_change(path, old, new));
    let k = choose|k: int|
        0 <= k < list.len() && key_change(path, old, new)(#[trigger] list[k]) == Some(
            configuration_changes(path, before, after)[i],
        );
}

/// A key that both documents have with the same value is no change, and one that
/// differs is.
pub proof fn keys_that_differ_are_changes(
    path: Seq<char>,
    before: Option<JsonValue>,
    after: Option<JsonValue>,
    pointer: Seq<char>,
)
    requires
        pointers(side_keys(before)).contains(pointer) || pointers(side_keys(after)).contains(
            pointer,
        ),
    ensures
        (exists|i: int|
            0 <= i < configuration_changes(path, before, after).len() && (
            #[trigger] configuration_changes(path, before, after)[i]).key_path == pointer)
            <==> print_of(side_keys(before), pointer) != print_of(side_keys(after), pointer),
{
    let old = side_keys(before);
    let new = side_keys(after);
    let both = pointers(old) + pointers(new);
    let list = sorted_unique(both);
    let f = key_change(path, old, new);
    let out = configuration_changes(path, before, after);
    sorted_unique_is_a_set(both);
    filter_map_members(list, f);
    assert(both.contains(pointer)) by {
        if pointers(old).contains(pointer) {
            let i = choose|i: int| 0 <= i < pointers(old).len() && pointers(old)[i] == pointer;
            assert(both[i] == pointer);
        } else {
            let i = choose|i: int| 0 <= i < pointers(new).len() && pointers(new)[i] == pointer;
            assert(both[pointers(old).len() + i] == pointer);
        }
    }
    assert(list.contains(pointer));
    let k = choose|k: int| 0 <= k < list.len() && list[k] == pointer;
    if print_of(old, pointer) != print_of(new, pointer) {
        assert(f(list[k]) is Some);
        let change = f(list[k])->0;
        assert(out.contains(change));
        let i = choose|i: int| 0 <= i < out.len() && out[i] == change;
        assert(out[i].key_path == pointer);
    }
    if exists|i: int| 0 <= i < out.len() && (#[trigger] out[i]).key_path == pointer {
        let i = choose|i: int| 0 <= i < out.len() && (#[trigger] out[i]).key_path == pointer;
        let m = choose|m: int| 0 <= m < list.len() && f(#[trigger] list[m]) == Some(out[i]);
    }
}

/// A changed path that is a test is its own owner test. Of any other, owner tests are
/// found exactly where a related path tests it by name; where none is, that is known
/// only if every path was looked at. No more than eight are named.
pub proof fn owner_tests_are_found_or_known_missing(
    changed: Seq<char>,
    relationships: Seq<RelatedView>,
    scan_truncated: bool,
)
    ensures
        ({
            let out = owner_tests(changed, relationships, scan_truncated);
            let tested = exists|i: int|
                0 <= i < relationships.len() && (#[trigger] relationships[i]).changed_path
                    == changed && relationships[i].signal == "test_name_match"@;
            &&& out.changed_path == changed
            &&& test_like(changed) ==> out.status is Found && out.paths == seq![changed]
            &&& !test_like(changed) ==> {
                &&& out.status is Found <==> tested
                &&& out.status is Missing <==> !tested && !scan_truncated
                &&& out.status is Unknown <==> !tested && scan_truncated
                &&& out.paths.len() <= 8
                &&& out.paths.len() > 0 <==> tested
                &&& forall|k: int|
                    0 <= k < out.paths.len() ==> exists|i: int|
                        0 <= i < relationships.len() && (#[trigger] relationships[i]).related_path
                            == #[trigger] out.paths[k] && relationships[i].changed_path == changed
                            && relationships[i].signal == "test_name_match"@
            }
        }),
{
    let f = owner_match(changed);
    let found = filter_map(relationships, f);
    let out = owner_tests(changed, relationships, scan_truncated);
    filter_map_members(relationships, f);
    if exists|i: int|
        0 <= i < relationships.len() && (#[trigger] relationships[i]).changed_path == changed
            && relationships[i].signal == "test_name_match"@ {
        let i = choose|i: int|
            0 <= i < relationships.len() && (#[trigger] relationships[i]).changed_path == changed
                && relationships[i].signal == "test_name_match"@;
        assert(f(relationships[i]) is Some);
        assert(found.contains(relationships[i].related_path));
    }
    if found.len() > 0 {
        let i = choose|i: int|
            0 <= i < relationships.len() && f(#[trigger] relationships[i]) == Some(found[0]);
        assert(relationships[i].changed_path == changed);
    }
    if !test_like(changed) {
        assert forall|k: int| 0 <= k < out.paths.len() implies exists|i: int|
            0 <= i < relationships.len() && (#[trigger] relationships[i]).related_path
                == #[trigger] out.paths[k] && relationships[i].changed_path == changed
                && relationships[i].signal == "test_name_match"@ by {
            assert(out.paths[k] == found[k]);
            let i = choose|i: int|
                0 <= i < relationships.len() && f(#[trigger] relationships[i]) == Some(found[k]);
            assert(relationships[i].related_path == out.paths[k]);
        }
    }
}

/// One more changed file adds to what is known or leaves exactly one more gap, never
/// both of symbols and of configuration; a file that neither revision has adds nothing.
pub proof fn a_file_is_scanned_or_leaves_a_gap(state: ScanView, file: RevisionFile)
    ensures
        ({
            let out = scan_step(state, file);
            let absent = file.base.content is None && file.head.content is None;
            &&& absent && file.base.missing && file.head.missing ==> out == state
            &&& absent && !(file.base.missing && file.head.missing) ==> out.gaps == state.gaps + seq![
                file.path@ + ":semantic_content_unavailable"@,
            ]
            &&& absent ==> out.before == state.before && out.after == state.after
                && out.configuration == state.configuration
            &&& json_configuration(file.path@) ==> out.before == state.before && out.after
                == state.after
            &&& !json_configuration(file.path@) ==> out.configuration == state.configuration
            &&& out.gaps.len() <= state.gaps.len() + 1
            &&& out.gaps.len() > state.gaps.len() ==> out.before == state.before && out.after
                == state.after
            &&& state.before.len() + state.after.len() <= 1024 ==> out.before.len()
                + out.after.len() <= 1024
        }),
{
}

} // verus!
