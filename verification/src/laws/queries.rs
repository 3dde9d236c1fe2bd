//! What a task is searched by.

use crate::context::facets::{
    all_atoms, atom_kind, atoms_in, clauses_in, folded, is_primary, kind_names, merged_query,
    name_if, roles_of, room, stop_word, technical, technical_atom, text_weight, trimmed_clause,
    with_facet, with_query, word_weight, FacetKind, FacetSet, FacetView, QueryView, SpecView,
    TaskRole, Vocabulary,
};
use crate::context::plan::{kinds_after, path_query, raised, symbol_query, with_roles};
use crate::lists::{distinct_by, distinct_by_keys, filter_map, filter_map_members, first_where};
use crate::text::{lowered, trimmed};
use vstd::prelude::*;

verus! {

/// A longer word never weighs less than a shorter one, and no word weighs more than
/// eighty; a text of code weighs more than any word, and most where it is joined.
pub proof fn longer_words_weigh_more(shorter: Seq<char>, longer: Seq<char>)
    requires
        shorter.len() <= longer.len(),
    ensures
        25 <= word_weight(shorter) <= word_weight(longer) <= 80,
        word_weight(longer) == 80 <==> longer.len() >= 10,
        word_weight(longer) >= 65 <==> longer.len() >= 7,
        word_weight(longer) >= 45 <==> longer.len() >= 4,
        word_weight(longer) < text_weight(shorter, true),
        text_weight(shorter, false) < text_weight(shorter, true) <= 100,
        shorter.contains('_') || shorter.contains(':') || shorter.contains('.')
            || shorter.contains('-') ==> text_weight(shorter, true) == 100 && text_weight(
            shorter,
            false,
        ) == 90,
        text_weight(shorter, true) == 100 ==> shorter.contains('_') || shorter.contains(':')
            || shorter.contains('.') || shorter.contains('-'),
{
}

/// Adding a kind to a set adds that kind and no other.
pub proof fn a_set_of_kinds_grows_by_one(facets: FacetSet, kind: FacetKind, other: FacetKind)
    ensures
        facets.plus(kind).holds(other) <==> facets.holds(other) || other == kind,
{
}

/// The kinds of a set are told by their names, each exactly where the set holds it.
pub proof fn kinds_are_told_by_name(facets: FacetSet)
    ensures
        facets.exact_atom ==> kind_names(facets).contains("exact_atom"@),
        facets.primary_change ==> kind_names(facets).contains("primary_change"@),
        facets.failure_trace ==> kind_names(facets).contains("failure_trace"@),
        facets.preserve_constraint ==> kind_names(facets).contains("preserve_constraint"@),
        facets.symbol ==> kind_names(facets).contains("symbol"@),
        facets.path ==> kind_names(facets).contains("path"@),
        facets.behavior ==> kind_names(facets).contains("behavior"@),
        facets.test_intent ==> kind_names(facets).contains("test_intent"@),
        facets.configuration ==> kind_names(facets).contains("configuration"@),
        kind_names(facets).len() == one(facets.exact_atom) + one(facets.primary_change) + one(
            facets.failure_trace,
        ) + one(facets.preserve_constraint) + one(facets.symbol) + one(facets.path) + one(
            facets.behavior,
        ) + one(facets.test_intent) + one(facets.configuration),
{
    let none: Seq<Seq<char>> = Seq::empty();
    let s1 = none + name_if(facets.exact_atom, FacetKind::ExactAtom);
    let s2 = s1 + name_if(facets.primary_change, FacetKind::PrimaryChange);
    let s3 = s2 + name_if(facets.failure_trace, FacetKind::FailureTrace);
    let s4 = s3 + name_if(facets.preserve_constraint, FacetKind::PreserveConstraint);
    let s5 = s4 + name_if(facets.symbol, FacetKind::Symbol);
    let s6 = s5 + name_if(facets.path, FacetKind::Path);
    let s7 = s6 + name_if(facets.behavior, FacetKind::Behavior);
    let s8 = s7 + name_if(facets.test_intent, FacetKind::TestIntent);
    let s9 = s8 + name_if(facets.configuration, FacetKind::Configuration);
    a_name_joins_the_others(none, facets.exact_atom, FacetKind::ExactAtom);
    a_name_joins_the_others(s1, facets.primary_change, FacetKind::PrimaryChange);
    a_name_joins_the_others(s2, facets.failure_trace, FacetKind::FailureTrace);
    a_name_joins_the_others(s3, facets.preserve_constraint, FacetKind::PreserveConstraint);
    a_name_joins_the_others(s4, facets.symbol, FacetKind::Symbol);
    a_name_joins_the_others(s5, facets.path, FacetKind::Path);
    a_name_joins_the_others(s6, facets.behavior, FacetKind::Behavior);
    a_name_joins_the_others(s7, facets.test_intent, FacetKind::TestIntent);
    a_name_joins_the_others(s8, facets.configuration, FacetKind::Configuration);
    assert(s1 =~= name_if(facets.exact_atom, FacetKind::ExactAtom));
    assert(s9 == kind_names(facets));
}

proof fn a_name_joins_the_others(front: Seq<Seq<char>>, held: bool, kind: FacetKind)
    ensures
        (front + name_if(held, kind)).len() == front.len() + one(held),
        held ==> (front + name_if(held, kind)).contains(kind.name()),
        forall|name: Seq<char>| #[trigger]
            front.contains(name) ==> (front + name_if(held, kind)).contains(name),
{
    let out = front + name_if(held, kind);
    if held {
        assert(out[front.len() as int] == kind.name());
    }
    assert forall|name: Seq<char>| #[trigger] front.contains(name) implies out.contains(name) by {
        let k = choose|k: int| 0 <= k < front.len() && front[k] == name;
        assert(out[k] == name);
    }
}

/// One where something holds, else none.
pub open spec fn one(held: bool) -> int {
    if held {
        1
    } else {
        0
    }
}

/// An atom with a slash is a path; one without that is an attribute is about
/// configuration; every other that does not speak of configuration is a symbol.
pub proof fn atoms_are_of_their_kinds(atom: Seq<char>)
    ensures
        atom_kind(atom) is Path <==> atom.contains('/'),
        atom_kind(atom) is Path || atom_kind(atom) is Configuration || atom_kind(atom) is Symbol,
        !atom.contains('/') && atom.len() > 0 && atom[0] == '@' ==> atom_kind(
            atom,
        ) is Configuration,
{
    if atom.len() > 0 && atom[0] == '@' {
        reveal_strlit("@");
        assert(atom.subrange(0, 1) =~= "@"@);
    }
}

/// The atoms of a task are at most sixteen, all technical, and no two differ only in
/// their case.
pub proof fn atoms_are_technical_and_distinct(task: Seq<char>, i: int, j: int)
    requires
        0 <= i < atoms_in(task).len(),
        0 <= j < atoms_in(task).len(),
    ensures
        atoms_in(task).len() <= 16,
        technical(atoms_in(task)[i]),
        i != j ==> lowered(atoms_in(task)[i]) != lowered(atoms_in(task)[j]),
{
    let all = all_atoms(task);
    let unlike = distinct_by(all, folded());
    distinct_by_keys(all, folded());
    picked_from(all, folded(), i);
    let k = choose|k: int| 0 <= k < all.len() && all[k] == unlike[i];
    let parts = crate::context::facets::atom_pieces(
        crate::text::words(task),
        crate::text::words(task).len() as int,
    );
    filter_map_members(parts, technical_atom());
    assert(all[k] == filter_map(parts, technical_atom())[k]);
    assert(technical(all[k]));
    let key = folded();
    if i < j {
        assert(key(unlike[i]) != key(unlike[j]));
    } else if j < i {
        assert(key(unlike[j]) != key(unlike[i]));
    }
}

pub(crate) proof fn picked_from<A, K>(list: Seq<A>, key: spec_fn(A) -> K, i: int)
    requires
        0 <= i < distinct_by(list, key).len(),
    ensures
        exists|k: int| 0 <= k < list.len() && #[trigger] list[k] == distinct_by(list, key)[i],
    decreases list.len(),
{
    let front = distinct_by(list.drop_last(), key);
    if i < front.len() {
        picked_from(list.drop_last(), key, i);
        let k = choose|k: int|
            0 <= k < list.drop_last().len() && #[trigger] list.drop_last()[k] == front[i];
        assert(list[k] == front[i]);
    } else {
        assert(list[list.len() - 1] == distinct_by(list, key)[i]);
    }
}

/// Every clause of a task says something and is trimmed.
pub proof fn clauses_say_something(task: Seq<char>, i: int)
    requires
        0 <= i < clauses_in(task).len(),
    ensures
        clauses_in(task)[i].len() > 0,
        exists|part: Seq<char>| clauses_in(task)[i] == #[trigger] trimmed(part),
{
    let parts = crate::lists::flat_map(
        crate::lists::flat_map(
            crate::text::pieces(task, crate::context::facets::clause_break()),
            crate::context::facets::sentences(),
        ),
        crate::context::facets::transitions(),
    );
    let f = trimmed_clause();
    filter_map_members(parts, f);
    let k = choose|k: int|
        0 <= k < parts.len() && f(#[trigger] parts[k]) == Some(clauses_in(task)[i]);
    assert(clauses_in(task)[i] == trimmed(parts[k]));
}

/// A clause is a primary change, among others, only where it neither keeps something nor
/// asks for tests; the first clause is one exactly then.
pub proof fn a_primary_clause_neither_keeps_nor_tests(clause: Seq<char>, first: bool)
    ensures
        roles_of(clause, first).contains(TaskRole::PrimaryChange) ==> !roles_of(
            clause,
            first,
        ).contains(TaskRole::PreserveConstraint) && !roles_of(clause, first).contains(
            TaskRole::TestIntent,
        ),
        roles_of(clause, true).contains(TaskRole::PrimaryChange) || roles_of(
            clause,
            true,
        ).contains(TaskRole::PreserveConstraint) || roles_of(clause, true).contains(
            TaskRole::TestIntent,
        ),
        roles_of(clause, false).contains(TaskRole::PrimaryChange) ==> roles_of(
            clause,
            true,
        ).contains(TaskRole::PrimaryChange),
        roles_of(clause, first).contains(TaskRole::TestIntent)
            <==> crate::context::facets::asks_tests(lowered(clause)),
        roles_of(clause, first).contains(TaskRole::FailureTrace)
            <==> crate::context::facets::tells_failure(lowered(clause)),
{
    roles_are_those_held(clause, first);
    roles_are_those_held(clause, true);
    roles_are_those_held(clause, false);
}

proof fn roles_are_those_held(clause: Seq<char>, first: bool)
    ensures
        roles_of(clause, first).contains(TaskRole::PrimaryChange) <==> is_primary(clause, first),
        roles_of(clause, first).contains(TaskRole::FailureTrace)
            <==> crate::context::facets::tells_failure(lowered(clause)),
        roles_of(clause, first).contains(TaskRole::PreserveConstraint)
            <==> crate::context::facets::preserves(lowered(clause)),
        roles_of(clause, first).contains(TaskRole::TestIntent)
            <==> crate::context::facets::asks_tests(lowered(clause)),
{
    let low = lowered(clause);
    let roles = roles_of(clause, first);
    let a = one(is_primary(clause, first));
    let b = a + one(crate::context::facets::tells_failure(low));
    let c = b + one(crate::context::facets::preserves(low));
    if is_primary(clause, first) {
        assert(roles[0] is PrimaryChange);
    }
    if crate::context::facets::tells_failure(low) {
        assert(roles[a] is FailureTrace);
    }
    if crate::context::facets::preserves(low) {
        assert(roles[b] is PreserveConstraint);
    }
    if crate::context::facets::asks_tests(low) {
        assert(roles[c] is TestIntent);
    }
}

/// Asking again for what is looked for already keeps the heavier weights and adds the
/// new kind; what is looked for stays.
pub proof fn asking_again_keeps_the_heavier_weight(
    query: QueryView,
    kind: FacetKind,
    spec: SpecView,
)
    ensures
        ({
            let out = merged_query(query, kind, spec);
            &&& out.value == query.value
            &&& out.fusion_key == query.fusion_key
            &&& out.weight >= query.weight && out.weight >= spec.weight
            &&& out.weight == query.weight || out.weight == spec.weight
            &&& out.concept_weight >= query.concept_weight && out.concept_weight
                >= spec.concept_weight
            &&& out.concept_weight == query.concept_weight || out.concept_weight
                == spec.concept_weight
            &&& out.exact_variant <==> query.exact_variant || spec.exact_variant
            &&& out.fuse <==> query.fuse || spec.fuse
            &&& out.facets.holds(kind)
            &&& forall|other: FacetKind|
                #[trigger] query.facets.holds(other) ==> out.facets.holds(other)
        }),
{
}

/// Asking keeps every query and adds at most one, within the limit and only for a text of
/// two characters or more; a text that is not code is not asked for where it is a stop
/// word, and one that is asked for is among the queries, whatever its case.
pub proof fn asking_adds_what_is_not_asked_yet(
    queries: Seq<QueryView>,
    facet: FacetView,
    spec: SpecView,
    limit: usize,
    i: int,
)
    requires
        0 <= i < queries.len(),
    ensures
        ({
            let out = with_query(queries, facet, spec, limit);
            &&& queries.len() <= out.len() <= queries.len() + 1
            &&& out.len() > queries.len() ==> out.len() <= limit
            &&& out[i].value == queries[i].value
            &&& out[i].weight >= queries[i].weight
            &&& out.len() > queries.len() ==> out.last().value == spec.value
                && out.last().weight == spec.weight && out.last().facets.holds(facet.kind)
                && spec.value.len() >= 2 && (spec.exact_variant || !stop_word(spec.value))
            &&& queries.len() < limit && spec.value.len() >= 2 && (spec.exact_variant
                || !stop_word(spec.value)) ==> exists|k: int|
                0 <= k < out.len() && lowered((#[trigger] out[k]).value) == lowered(spec.value)
        }),
{
    let p = crate::context::facets::looks_for(spec.value);
    let at = first_where(queries, p);
    crate::lists::tally_bounds(queries, p);
    let out = with_query(queries, facet, spec, limit);
    if queries.len() < limit && spec.value.len() >= 2 && (spec.exact_variant || !stop_word(
        spec.value,
    )) {
        if at < queries.len() {
            assert(p(queries[at]));
            assert(lowered(out[at].value) == lowered(spec.value));
        } else {
            assert(lowered(out[queries.len() as int].value) == lowered(spec.value));
        }
    }
}

/// A facet is added once for its kind, whatever its case, with at most four forms, and
/// all facets before it stay.
pub proof fn a_facet_is_added_once(
    facets: Seq<FacetView>,
    kind: FacetKind,
    original: Seq<char>,
    variants: Seq<Seq<char>>,
    weight: u32,
    i: int,
)
    requires
        0 <= i < facets.len(),
    ensures
        ({
            let out = with_facet(facets, kind, original, variants, weight);
            &&& out[i] == facets[i]
            &&& facets[i].kind == kind && lowered(facets[i].original) == lowered(original)
                ==> out == facets
            &&& out != facets ==> {
                &&& out.len() == facets.len() + 1
                &&& out.last().kind == kind
                &&& out.last().original == original
                &&& out.last().weight == weight
                &&& out.last().fusion_key == lowered(original)
                &&& out.last().variants.len() <= 4
            }
        }),
{
    let p = crate::context::facets::same_facet(kind, original);
    crate::lists::tally_bounds(facets, p);
    if facets[i].kind == kind && lowered(facets[i].original) == lowered(original) {
        assert(p(facets[i]));
    }
}

/// A clause only adds kinds to the queries that it speaks of; it never takes one away.
pub proof fn clauses_only_add_kinds(
    query: QueryView,
    clauses: Seq<Seq<char>>,
    vocabulary: Vocabulary,
    upto: int,
    kind: FacetKind,
)
    requires
        query.facets.holds(kind),
    ensures
        kinds_after(query, clauses, vocabulary, upto).holds(kind),
    decreases upto,
{
    if 0 < upto <= clauses.len() {
        clauses_only_add_kinds(query, clauses, vocabulary, upto - 1, kind);
        let before = kinds_after(query, clauses, vocabulary, upto - 1);
        let roles = roles_of(clauses[upto - 1], upto == 1);
        roles_only_add_kinds(before, roles, before.test_intent, roles.len() as int, kind);
    }
}

/// The roles of a clause add their kinds and nothing else; that of a test only where the
/// query is on tests already.
pub proof fn roles_only_add_kinds(
    facets: FacetSet,
    roles: Seq<TaskRole>,
    on_tests: bool,
    upto: int,
    kind: FacetKind,
)
    requires
        0 <= upto <= roles.len(),
    ensures
        facets.holds(kind) ==> with_roles(facets, roles, on_tests, upto).holds(kind),
        with_roles(facets, roles, on_tests, upto).holds(kind) && !facets.holds(kind) ==> exists|
            k: int,
        | 0 <= k < upto && (#[trigger] roles[k]).kind() == kind,
        !on_tests && !facets.test_intent ==> !with_roles(
            facets,
            roles,
            on_tests,
            upto,
        ).test_intent,
    decreases upto,
{
    if upto > 0 {
        roles_only_add_kinds(facets, roles, on_tests, upto - 1, kind);
        if !with_roles(facets, roles, on_tests, upto - 1).holds(kind) && with_roles(
            facets,
            roles,
            on_tests,
            upto,
        ).holds(kind) {
            assert(roles[upto - 1].kind() == kind);
        }
    }
}

/// A symbol that was observed outweighs a path that was, and both outweigh every text of
/// a task; both are looked for as they are, as part of the primary change.
pub proof fn observed_evidence_outweighs_the_task(
    symbol: Seq<char>,
    path: Seq<char>,
    text: Seq<char>,
    code: bool,
)
    ensures
        symbol_query()(symbol) matches Some(query) ==> {
            &&& query.weight > path_query(path).weight
            &&& query.exact_variant
            &&& query.facets.primary_change
            &&& query.facets.symbol
            &&& query.facets.exact_atom
            &&& !query.facets.path
            &&& !query.facets.test_intent
        },
        path_query(path).value == path,
        path_query(path).weight > text_weight(text, code),
        path_query(path).exact_variant,
        path_query(path).facets.primary_change,
        path_query(path).facets.path,
        !path_query(path).facets.symbol,
        !path_query(path).facets.test_intent,
{
}

/// A query that is raised looks for the same text, weighs more by what it is raised by,
/// and its concept no less than is owed.
pub proof fn a_raised_query_weighs_more(
    query: QueryView,
    kind: FacetKind,
    more: u32,
    least: u32,
    prefix: Seq<char>,
)
    requires
        query.weight + more <= u32::MAX,
    ensures
        ({
            let out = raised(query, kind, more, least, prefix);
            &&& out.value == query.value
            &&& out.weight == query.weight + more
            &&& out.concept_weight >= least && out.concept_weight >= query.concept_weight
            &&& out.concept_weight == least || out.concept_weight == query.concept_weight
            &&& out.facets.holds(kind)
            &&& out.fusion_key == prefix + query.fusion_key
            &&& out.exact_variant == query.exact_variant
        }),
{
}

/// Where tests are wanted one place is kept for them; else all places are for the rest.
pub proof fn a_place_is_kept_for_tests(limit: usize)
    requires
        limit > 0,
    ensures
        room(limit, true) + 1 == limit,
        room(limit, false) == limit,
        room(0, true) == 0,
{
}

} // verus!
