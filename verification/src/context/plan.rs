//! The plan of queries that a task and its evidence give.

use crate::context::facets::{
    atom_kind, atom_of, atoms_in, behavior_terms, build_queries, classify_atom, clause_roles,
    clauses_in, component, configuration_term, exact_specs, exact_text, folded,
    is_configuration_term, is_stop_word, is_test_term, list_has_folded, looks_for, natural_phrases,
    no_facets, normalize_atom, part_of_round, phrase_parts, phrase_room, phrase_variants,
    phrases_in, primary_task_text, primary_text, prose_specs, prose_weight, push_facet,
    queries_are_bounded, queries_of, queries_stay_within_their_room, quoted_in, quoted_phrases,
    roles_of, room, rounds_stay_within_their_room, same_facet, select_behavior_terms, smaller_of,
    stop_word, task_clauses, task_terms, technical_atoms, technical_variants, terms_in, test_spec,
    test_term, token_list, variants_of, wants_test, with_concept, with_facet, with_query,
    with_rounds, with_specs, word_weight, ContextQuery, FacetKind, FacetPlan, FacetSet, FacetView,
    QueryView, SpecView, TaskFacet, TaskRole, Vocabulary, MAX_BEHAVIOR_TERMS, MAX_NATURAL_PHRASES,
    MAX_QUOTED_PHRASES,
};
use crate::lists::{
    filter_map, filter_map_push, first_where, flat_map, flat_map_push, holds_key, tally_bounds,
};
use crate::model::WorkflowEvidence;
use crate::ordered::{first_of, views};
use crate::text::{
    appended, contains_text, copy_text, copy_texts, list_has, lower_all, lower_text, lowered,
    lowered_all, occurs, same_folded, same_text, texts,
};
use vstd::prelude::*;

verus! {

/// A term and what it expands to, in small letters.
pub open spec fn term_family(vocabulary: Vocabulary) -> spec_fn(Seq<char>) -> Seq<Seq<char>> {
    |term: Seq<char>| seq![lowered(term)] + lowered_all(vocabulary.terms_of(term))
}

/// The terms that a clause speaks of, in small letters.
pub open spec fn clause_terms(clause: Seq<char>, vocabulary: Vocabulary) -> Seq<Seq<char>> {
    flat_map(terms_in(clause) + atoms_in(clause), term_family(vocabulary))
}

/// Whether a clause speaks of what a query looks for.
pub open spec fn speaks_of(
    clause: Seq<char>,
    terms: Seq<Seq<char>>,
    value: Seq<char>,
    concept: Seq<char>,
) -> bool {
    ||| occurs(lowered(clause), lowered(value))
    ||| terms.contains(lowered(value))
    ||| terms.contains(lowered(concept))
}

/// A set of kinds with those of the first `upto` roles. Only a query on tests
/// takes the role of a test.
pub open spec fn with_roles(
    facets: FacetSet,
    roles: Seq<TaskRole>,
    on_tests: bool,
    upto: int,
) -> FacetSet
    decreases upto,
{
    if upto <= 0 || upto > roles.len() {
        facets
    } else {
        let before = with_roles(facets, roles, on_tests, upto - 1);
        if roles[upto - 1] is TestIntent && !on_tests {
            before
        } else {
            before.plus(roles[upto - 1].kind())
        }
    }
}

/// The kinds of a query after the first `upto` clauses.
pub open spec fn kinds_after(
    query: QueryView,
    clauses: Seq<Seq<char>>,
    vocabulary: Vocabulary,
    upto: int,
) -> FacetSet
    decreases upto,
{
    if upto <= 0 || upto > clauses.len() {
        query.facets
    } else {
        let before = kinds_after(query, clauses, vocabulary, upto - 1);
        let clause = clauses[upto - 1];
        let roles = roles_of(clause, upto == 1);
        if speaks_of(clause, clause_terms(clause, vocabulary), query.value, query.fusion_key) {
            with_roles(before, roles, before.test_intent, roles.len() as int)
        } else {
            before
        }
    }
}

/// Queries with the kinds that the first `upto` clauses give them.
pub open spec fn after_clauses(
    queries: Seq<QueryView>,
    clauses: Seq<Seq<char>>,
    vocabulary: Vocabulary,
    upto: int,
) -> Seq<QueryView> {
    Seq::new(
        queries.len(),
        |i: int|
            QueryView {
                facets: kinds_after(queries[i], clauses, vocabulary, upto),
                ..queries[i]
            },
    )
}

/// Whether a query stands for what is to be done.
pub open spec fn has_primary(queries: Seq<QueryView>) -> bool {
    exists|i: int| 0 <= i < queries.len() && (#[trigger] queries[i]).facets.primary_change
}

/// Queries, the first of which stands for what is to be done where none does.
pub open spec fn with_primary(queries: Seq<QueryView>) -> Seq<QueryView> {
    if queries.len() == 0 || has_primary(queries) {
        queries
    } else {
        queries.update(
            0,
            QueryView {
                facets: queries[0].facets.plus(FacetKind::PrimaryChange),
                ..queries[0]
            },
        )
    }
}

/// Queries with the roles that the clauses of a task give them.
pub open spec fn annotated(
    task: Seq<char>,
    queries: Seq<QueryView>,
    vocabulary: Vocabulary,
) -> Seq<QueryView> {
    let clauses = clauses_in(task);
    with_primary(after_clauses(queries, clauses, vocabulary, clauses.len() as int))
}

fn family_of(terms: &Vec<String>, vocabulary: &Vocabulary) -> (r: Vec<String>)
    ensures
        texts(r@) == flat_map(texts(terms@), term_family(*vocabulary)),
{
    let ghost all = texts(terms@);
    let mut out: Vec<String> = Vec::new();
    let mut i: usize = 0;
    assert(texts(out@) =~= flat_map(all.take(0), term_family(*vocabulary)));
    while i < terms.len()
        invariant
            i <= terms.len(),
            all == texts(terms@),
            texts(out@) == flat_map(all.take(i as int), term_family(*vocabulary)),
        decreases terms.len() - i,
    {
        let ghost before = texts(out@);
        proof {
            flat_map_push(all, term_family(*vocabulary), i as int);
        }
        out.push(lower_text(terms[i].as_str()));
        let mut more = lower_all(&vocabulary.expand_terms(terms[i].as_str()));
        let ghost added = texts(more@);
        assert(texts(out@) =~= before.push(lowered(terms@[i as int]@)));
        out.append(&mut more);
        assert(texts(out@) =~= before + (seq![lowered(terms@[i as int]@)] + added));
        i += 1;
    }
    assert(all.take(all.len() as int) =~= all);
    out
}

fn clause_terms_of(clause: &str, vocabulary: &Vocabulary) -> (r: Vec<String>)
    ensures
        texts(r@) == clause_terms(clause@, *vocabulary),
{
    let mut terms = task_terms(clause);
    let ghost first = texts(terms@);
    let mut atoms = technical_atoms(clause);
    let ghost second = texts(atoms@);
    terms.append(&mut atoms);
    assert(texts(terms@) =~= first + second);
    family_of(&terms, vocabulary)
}

fn add_roles(facets: FacetSet, roles: &Vec<TaskRole>) -> (r: FacetSet)
    ensures
        r == with_roles(facets, roles@, facets.test_intent, roles@.len() as int),
{
    let on_tests = facets.has(FacetKind::TestIntent);
    let mut out = facets;
    let mut i: usize = 0;
    while i < roles.len()
        invariant
            i <= roles.len(),
            on_tests == facets.test_intent,
            out == with_roles(facets, roles@, on_tests, i as int),
        decreases roles.len() - i,
    {
        if roles[i] != TaskRole::TestIntent || on_tests {
            out = out.with(roles[i].facet());
        }
        i += 1;
    }
    out
}

fn set_facets(queries: &mut Vec<ContextQuery>, at: usize, facets: FacetSet)
    requires
        at < old(queries)@.len(),
    ensures
        views(final(queries)@) == views(old(queries)@).update(
            at as int,
            QueryView { facets, ..views(old(queries)@)[at as int] },
        ),
{
    let ghost start = views(queries@);
    assert(start[at as int] == queries@[at as int]@);
    let mut query = queries.remove(at);
    query.facets = facets;
    let ghost changed = query@;
    queries.insert(at, query);
    assert(views(queries@) =~= start.update(at as int, changed));
}

fn annotate_clause(
    queries: &mut Vec<ContextQuery>,
    clauses: &Vec<String>,
    at: usize,
    vocabulary: &Vocabulary,
    Ghost(given): Ghost<Seq<QueryView>>,
)
    requires
        at < clauses@.len(),
        views(old(queries)@) == after_clauses(given, texts(clauses@), *vocabulary, at as int),
    ensures
        views(final(queries)@) == after_clauses(given, texts(clauses@), *vocabulary, at + 1),
{
    let ghost all = texts(clauses@);
    let ghost before = after_clauses(given, all, *vocabulary, at as int);
    let ghost behind = after_clauses(given, all, *vocabulary, at + 1);
    assert(all[at as int] == clauses@[at as int]@);
    let clause = clauses[at].as_str();
    let roles = clause_roles(clause, at == 0);
    let low = lower_text(clause);
    let terms = clause_terms_of(clause, vocabulary);
    let mut i: usize = 0;
    assert(views(queries@) =~= behind.take(0) + before.subrange(0, before.len() as int));
    while i < queries.len()
        invariant
            i <= queries.len(),
            queries@.len() == given.len(),
            at < clauses@.len(),
            all == texts(clauses@),
            before == after_clauses(given, all, *vocabulary, at as int),
            behind == after_clauses(given, all, *vocabulary, at + 1),
            clause@ == all[at as int],
            roles@ == roles_of(clause@, at == 0),
            low@ == lowered(clause@),
            texts(terms@) == clause_terms(clause@, *vocabulary),
            views(queries@) == behind.take(i as int) + before.subrange(
                i as int,
                before.len() as int,
            ),
        decreases queries.len() - i,
    {
        let ghost held = views(queries@);
        assert(held[i as int] == queries@[i as int]@);
        assert(held[i as int] == before[i as int]);
        let value = lower_text(queries[i].value.as_str());
        let concept = lower_text(queries[i].fusion_key.as_str());
        let spoken = contains_text(low.as_str(), value.as_str()) || list_has(
            &terms,
            value.as_str(),
        ) || list_has(&terms, concept.as_str());
        if spoken {
            let facets = add_roles(queries[i].facets, &roles);
            set_facets(queries, i, facets);
        }
        proof {
            assert(views(queries@).len() == queries@.len());
            assert(views(queries@)[i as int] == behind[i as int]);
            assert(views(queries@) =~= behind.take(i + 1) + before.subrange(
                i + 1,
                before.len() as int,
            ));
        }
        i += 1;
    }
    assert(views(queries@) =~= behind);
}

/// Gives queries the roles of the clauses that speak of them.
pub fn annotate_task_roles(task: &str, queries: &mut Vec<ContextQuery>, vocabulary: &Vocabulary)
    ensures
        views(final(queries)@) == annotated(task@, views(old(queries)@), *vocabulary),
{
    let ghost given = views(queries@);
    let clauses = task_clauses(task);
    let ghost all = texts(clauses@);
    let mut i: usize = 0;
    assert(views(queries@) =~= after_clauses(given, all, *vocabulary, 0));
    while i < clauses.len()
        invariant
            i <= clauses.len(),
            all == texts(clauses@),
            views(queries@) == after_clauses(given, all, *vocabulary, i as int),
        decreases clauses.len() - i,
    {
        annotate_clause(queries, &clauses, i, vocabulary, Ghost(given));
        i += 1;
    }
    let ghost marked = views(queries@);
    let mut found = false;
    let mut k: usize = 0;
    while k < queries.len()
        invariant
            k <= queries.len(),
            marked == views(queries@),
            found == exists|j: int| 0 <= j < k && (#[trigger] marked[j]).facets.primary_change,
        decreases queries.len() - k,
    {
        assert(marked[k as int] == queries@[k as int]@);
        if queries[k].has_facet(FacetKind::PrimaryChange) {
            assert(marked[k as int].facets.primary_change);
            found = true;
        }
        k += 1;
    }
    if !found && queries.len() > 0 {
        assert(marked[0] == queries@[0]@);
        let facets = queries[0].facets.with(FacetKind::PrimaryChange);
        set_facets(queries, 0, facets);
    }
}

/// Facets with those of the first `upto` atoms: each as it stands, and by its
/// kind with its variants.
pub open spec fn atom_facets(
    facets: Seq<FacetView>,
    atoms: Seq<Seq<char>>,
    vocabulary: Vocabulary,
    upto: int,
) -> Seq<FacetView>
    decreases upto,
{
    if upto <= 0 || upto > atoms.len() {
        facets
    } else {
        let before = atom_facets(facets, atoms, vocabulary, upto - 1);
        let atom = atoms[upto - 1];
        let exact = with_facet(before, FacetKind::ExactAtom, atom, seq![atom], 100);
        with_facet(
            exact,
            atom_kind(atom),
            atom,
            variants_of(atom, vocabulary),
            if atom_kind(atom) is Configuration {
                90
            } else {
                95
            },
        )
    }
}

/// Facets with those of the first `upto` phrases.
pub open spec fn phrase_facets(
    facets: Seq<FacetView>,
    phrases: Seq<Seq<char>>,
    upto: int,
) -> Seq<FacetView>
    decreases upto,
{
    if upto <= 0 || upto > phrases.len() {
        facets
    } else {
        let before = phrase_facets(facets, phrases, upto - 1);
        let phrase = phrases[upto - 1];
        with_facet(before, FacetKind::Behavior, phrase, phrase_parts(phrase), 85)
    }
}

/// The kind of a single term.
pub open spec fn term_kind(term: Seq<char>) -> FacetKind {
    if configuration_term(term) {
        FacetKind::Configuration
    } else {
        FacetKind::Behavior
    }
}

/// Facets with those of the first `upto` terms.
pub open spec fn term_facets(
    facets: Seq<FacetView>,
    terms: Seq<Seq<char>>,
    upto: int,
) -> Seq<FacetView>
    decreases upto,
{
    if upto <= 0 || upto > terms.len() {
        facets
    } else {
        let before = term_facets(facets, terms, upto - 1);
        let term = terms[upto - 1];
        with_facet(before, term_kind(term), term, seq![term], word_weight(term))
    }
}

/// The forms in which tests are found.
pub open spec fn test_forms() -> Seq<Seq<char>> {
    seq!["test"@, "spec"@, "fixture"@, "regression"@]
}

/// Whether terms ask for tests.
pub open spec fn tests_wanted(terms: Seq<Seq<char>>) -> bool {
    exists|i: int| 0 <= i < terms.len() && test_term(#[trigger] terms[i])
}

/// A term, where it may be looked for by itself.
pub open spec fn plain_term(parts: Seq<Seq<char>>) -> spec_fn(Seq<char>) -> Option<Seq<char>> {
    |term: Seq<char>|
        if test_term(term) || stop_word(term) || parts.contains(lowered(term)) {
            None
        } else {
            Some(term)
        }
}

/// Phrases with the first `upto` of some more, while there is room for them.
pub open spec fn topped(
    phrases: Seq<Seq<char>>,
    more: Seq<Seq<char>>,
    limit: int,
    upto: int,
) -> Seq<Seq<char>>
    decreases upto,
{
    if upto <= 0 || upto > more.len() {
        phrases
    } else {
        let before = topped(phrases, more, limit, upto - 1);
        if before.len() >= limit || holds_key(before, folded(), lowered(more[upto - 1])) {
            before
        } else {
            before.push(more[upto - 1])
        }
    }
}

/// The phrases of a task that are looked for: those of what is to be done, and
/// where they are too few those of the rest.
pub open spec fn task_phrases(task: Seq<char>, parts: Seq<Seq<char>>, limit: int) -> Seq<
    Seq<char>,
> {
    let first = phrases_in(primary_text(task), parts, limit);
    if first.len() < limit && primary_text(task) != task {
        let more = phrases_in(task, parts, limit);
        topped(first, more, limit, more.len() as int)
    } else {
        first
    }
}

/// The terms that are looked for by themselves.
pub open spec fn task_behavior(task: Seq<char>, vocabulary: Vocabulary) -> Seq<Seq<char>> {
    let parts = flat_map(atoms_in(task), term_family(vocabulary));
    behavior_terms(filter_map(terms_in(task), plain_term(parts)), MAX_BEHAVIOR_TERMS)
}

/// The phrases that are looked for.
pub open spec fn planned_phrases(task: Seq<char>, vocabulary: Vocabulary) -> Seq<Seq<char>> {
    let atoms = atoms_in(task);
    task_phrases(
        task,
        flat_map(atoms, term_family(vocabulary)),
        if atoms.len() == 0 {
            MAX_NATURAL_PHRASES as int
        } else {
            1
        },
    )
}

/// The facets of a task.
pub open spec fn task_facets(task: Seq<char>, vocabulary: Vocabulary) -> Seq<FacetView> {
    let atoms = atoms_in(task);
    let phrases = first_of(quoted_in(task), MAX_QUOTED_PHRASES as int) + planned_phrases(
        task,
        vocabulary,
    );
    let terms = task_behavior(task, vocabulary);
    let f1 = atom_facets(Seq::empty(), atoms, vocabulary, atoms.len() as int);
    let f2 = phrase_facets(f1, phrases, phrases.len() as int);
    let f3 = term_facets(f2, terms, terms.len() as int);
    if tests_wanted(terms_in(task)) {
        with_facet(f3, FacetKind::TestIntent, "test"@, test_forms(), 65)
    } else {
        f3
    }
}

/// The queries that a task asks for, at most `limit`.
pub open spec fn planned(task: Seq<char>, limit: usize, vocabulary: Vocabulary) -> Seq<QueryView> {
    if limit == 0 {
        Seq::empty()
    } else {
        annotated(
            task,
            queries_of(
                task,
                task_facets(task, vocabulary),
                task_behavior(task, vocabulary),
                planned_phrases(task, vocabulary),
                limit,
                tests_wanted(terms_in(task)),
                vocabulary,
            ),
            vocabulary,
        )
    }
}

fn any_test_term(terms: &Vec<String>) -> (r: bool)
    ensures
        r == tests_wanted(texts(terms@)),
{
    let ghost all = texts(terms@);
    let mut i: usize = 0;
    while i < terms.len()
        invariant
            i <= terms.len(),
            all == texts(terms@),
            forall|k: int| 0 <= k < i ==> !test_term(#[trigger] all[k]),
        decreases terms.len() - i,
    {
        assert(all[i as int] == terms@[i as int]@);
        if is_test_term(terms[i].as_str()) {
            assert(test_term(all[i as int]));
            return true;
        }
        i += 1;
    }
    false
}

fn push_atom_facets(facets: &mut Vec<TaskFacet>, atoms: &Vec<String>, vocabulary: &Vocabulary)
    ensures
        views(final(facets)@) == atom_facets(
            views(old(facets)@),
            texts(atoms@),
            *vocabulary,
            atoms@.len() as int,
        ),
{
    let ghost start = views(facets@);
    let ghost all = texts(atoms@);
    let mut i: usize = 0;
    while i < atoms.len()
        invariant
            i <= atoms.len(),
            all == texts(atoms@),
            views(facets@) == atom_facets(start, all, *vocabulary, i as int),
        decreases atoms.len() - i,
    {
        assert(all[i as int] == atoms@[i as int]@);
        let atom = atoms[i].as_str();
        let mut itself: Vec<String> = Vec::new();
        itself.push(copy_text(atom));
        assert(texts(itself@) =~= seq![atom@]);
        push_facet(facets, FacetKind::ExactAtom, atom, itself, 100);
        let kind = classify_atom(atom);
        let weight: u32 = if kind == FacetKind::Configuration {
            90
        } else {
            95
        };
        push_facet(facets, kind, atom, technical_variants(atom, vocabulary), weight);
        i += 1;
    }
}

fn push_phrase_facets(facets: &mut Vec<TaskFacet>, phrases: &Vec<String>)
    ensures
        views(final(facets)@) == phrase_facets(
            views(old(facets)@),
            texts(phrases@),
            phrases@.len() as int,
        ),
{
    let ghost start = views(facets@);
    let ghost all = texts(phrases@);
    let mut i: usize = 0;
    while i < phrases.len()
        invariant
            i <= phrases.len(),
            all == texts(phrases@),
            views(facets@) == phrase_facets(start, all, i as int),
        decreases phrases.len() - i,
    {
        assert(all[i as int] == phrases@[i as int]@);
        let phrase = phrases[i].as_str();
        push_facet(facets, FacetKind::Behavior, phrase, phrase_variants(phrase), 85);
        i += 1;
    }
}

fn push_term_facets(facets: &mut Vec<TaskFacet>, terms: &Vec<String>)
    ensures
        views(final(facets)@) == term_facets(
            views(old(facets)@),
            texts(terms@),
            terms@.len() as int,
        ),
{
    let ghost start = views(facets@);
    let ghost all = texts(terms@);
    let mut i: usize = 0;
    while i < terms.len()
        invariant
            i <= terms.len(),
            all == texts(terms@),
            views(facets@) == term_facets(start, all, i as int),
        decreases terms.len() - i,
    {
        assert(all[i as int] == terms@[i as int]@);
        let term = terms[i].as_str();
        let kind = if is_configuration_term(term) {
            FacetKind::Configuration
        } else {
            FacetKind::Behavior
        };
        let mut itself: Vec<String> = Vec::new();
        itself.push(copy_text(term));
        assert(texts(itself@) =~= seq![term@]);
        push_facet(facets, kind, term, itself, prose_weight(term));
        i += 1;
    }
}

fn plain_terms(terms: &Vec<String>, parts: &Vec<String>) -> (r: Vec<String>)
    ensures
        texts(r@) == filter_map(texts(terms@), plain_term(texts(parts@))),
{
    let ghost all = texts(terms@);
    let ghost f = plain_term(texts(parts@));
    let mut out: Vec<String> = Vec::new();
    let mut i: usize = 0;
    assert(texts(out@) =~= filter_map(all.take(0), f));
    while i < terms.len()
        invariant
            i <= terms.len(),
            all == texts(terms@),
            f == plain_term(texts(parts@)),
            texts(out@) == filter_map(all.take(i as int), f),
        decreases terms.len() - i,
    {
        let ghost before = texts(out@);
        proof {
            filter_map_push(all, f, i as int);
        }
        let term = terms[i].as_str();
        if !is_test_term(term) && !is_stop_word(term) && !list_has(
            parts,
            lower_text(term).as_str(),
        ) {
            out.push(terms[i].clone());
            assert(texts(out@) =~= before.push(terms@[i as int]@));
        }
        i += 1;
    }
    assert(all.take(all.len() as int) =~= all);
    out
}

fn select_phrases(task: &str, parts: &Vec<String>, limit: usize) -> (r: Vec<String>)
    ensures
        texts(r@) == task_phrases(task@, texts(parts@), limit as int),
{
    let primary = primary_task_text(task);
    let mut selected = natural_phrases(primary.as_str(), parts, limit);
    let ghost first = texts(selected@);
    assert(first.len() == selected@.len());
    if selected.len() < limit && !same_text(primary.as_str(), task) {
        let more = natural_phrases(task, parts, limit);
        let ghost all = texts(more@);
        let mut i: usize = 0;
        while i < more.len()
            invariant
                i <= more.len(),
                all == texts(more@),
                texts(selected@) == topped(first, all, limit as int, i as int),
            decreases more.len() - i,
        {
            let ghost before = texts(selected@);
            assert(before.len() == selected@.len());
            assert(all[i as int] == more@[i as int]@);
            if selected.len() < limit && !list_has_folded(&selected, more[i].as_str()) {
                selected.push(more[i].clone());
                assert(texts(selected@) =~= before.push(more@[i as int]@));
            }
            i += 1;
        }
    }
    selected
}

/// The queries that a task asks for, at most `limit`.
#[verifier::rlimit(40)]
pub fn plan(task: &str, limit: usize, vocabulary: &Vocabulary) -> (r: FacetPlan)
    ensures
        views(r.queries@) == planned(task@, limit, *vocabulary),
{
    if limit == 0 {
        let queries: Vec<ContextQuery> = Vec::new();
        assert(views(queries@) =~= Seq::<QueryView>::empty());
        return FacetPlan { queries };
    }
    let terms = task_terms(task);
    let wants_tests = any_test_term(&terms);
    let atoms = technical_atoms(task);
    assert(texts(atoms@).len() == atoms@.len());
    let parts = family_of(&atoms, vocabulary);
    let behavior = select_behavior_terms(plain_terms(&terms, &parts), MAX_BEHAVIOR_TERMS);
    let phrase_limit: usize = if atoms.len() == 0 {
        MAX_NATURAL_PHRASES
    } else {
        1
    };
    let natural = select_phrases(task, &parts, phrase_limit);
    let mut phrases = quoted_phrases(task);
    let ghost quoted = texts(phrases@);
    phrases.truncate(MAX_QUOTED_PHRASES);
    assert(texts(phrases@) =~= first_of(quoted, MAX_QUOTED_PHRASES as int));
    let ghost kept = texts(phrases@);
    let mut more = copy_texts(&natural);
    phrases.append(&mut more);
    assert(texts(phrases@) =~= kept + texts(natural@));

    let mut facets: Vec<TaskFacet> = Vec::new();
    assert(views(facets@) =~= Seq::<FacetView>::empty());
    push_atom_facets(&mut facets, &atoms, vocabulary);
    push_phrase_facets(&mut facets, &phrases);
    assert(texts(phrases@).len() == phrases@.len());
    push_term_facets(&mut facets, &behavior);
    assert(texts(behavior@).len() == behavior@.len());
    if wants_tests {
        let forms: Vec<String> = vec![
            copy_text("test"),
            copy_text("spec"),
            copy_text("fixture"),
            copy_text("regression"),
        ];
        assert(texts(forms@) =~= test_forms());
        push_facet(&mut facets, FacetKind::TestIntent, "test", forms, 65);
    }
    assert(views(facets@) == task_facets(task@, *vocabulary));
    let mut queries = build_queries(
        task,
        &facets,
        &behavior,
        &natural,
        limit,
        wants_tests,
        vocabulary,
    );
    annotate_task_roles(task, &mut queries, vocabulary);
    FacetPlan { queries }
}

/// What a query looks for, without regard to the case of ASCII letters.
pub open spec fn folded_value() -> spec_fn(QueryView) -> Seq<char> {
    |query: QueryView| lowered(query.value)
}

/// Queries with the first `upto` of some more, each new one while there is
/// room.
pub open spec fn with_more(
    queries: Seq<QueryView>,
    more: Seq<QueryView>,
    limit: usize,
    upto: int,
) -> Seq<QueryView>
    decreases upto,
{
    if upto <= 0 || upto > more.len() {
        queries
    } else {
        let before = with_more(queries, more, limit, upto - 1);
        if before.len() >= limit || holds_key(before, folded_value(), lowered(
            more[upto - 1].value,
        )) {
            before
        } else {
            before.push(more[upto - 1])
        }
    }
}

/// The query on a symbol that the evidence names.
pub open spec fn symbol_query() -> spec_fn(Seq<char>) -> Option<QueryView> {
    |symbol: Seq<char>|
        match atom_of(symbol) {
            Some(value) => Some(
                QueryView {
                    value,
                    weight: 125,
                    concept_weight: 100,
                    fusion_key: "workflow:symbol:"@ + lowered(value),
                    fuse: false,
                    facets: no_facets().plus(FacetKind::ExactAtom).plus(
                        FacetKind::PrimaryChange,
                    ).plus(FacetKind::Symbol),
                    exact_variant: true,
                },
            ),
            None => None,
        }
}

/// The query on a path that the evidence names.
pub open spec fn path_query(path: Seq<char>) -> QueryView {
    QueryView {
        value: path,
        weight: 110,
        concept_weight: 95,
        fusion_key: "workflow:path:"@ + lowered(path),
        fuse: false,
        facets: no_facets().plus(FacetKind::ExactAtom).plus(FacetKind::PrimaryChange).plus(
            FacetKind::Path,
        ),
        exact_variant: true,
    }
}

/// The queries on paths that the evidence names.
pub open spec fn path_queries(paths: Seq<Seq<char>>) -> Seq<QueryView> {
    Seq::new(paths.len(), |i: int| path_query(paths[i]))
}

/// A sum that stops at the largest number.
pub open spec fn capped(a: u32, b: u32) -> u32 {
    if a + b > u32::MAX {
        u32::MAX
    } else {
        (a + b) as u32
    }
}

/// A planned query that the evidence stands behind.
pub open spec fn raised(
    query: QueryView,
    kind: FacetKind,
    more: u32,
    least: u32,
    prefix: Seq<char>,
) -> QueryView {
    QueryView {
        facets: query.facets.plus(kind),
        weight: capped(query.weight, more),
        concept_weight: if query.concept_weight > least {
            query.concept_weight
        } else {
            least
        },
        fusion_key: prefix + query.fusion_key,
        ..query
    }
}

/// Planned queries that the evidence stands behind.
pub open spec fn raised_all(
    queries: Seq<QueryView>,
    kind: FacetKind,
    more: u32,
    least: u32,
    prefix: Seq<char>,
) -> Seq<QueryView> {
    Seq::new(queries.len(), |i: int| raised(queries[i], kind, more, least, prefix))
}

/// Whether a caller observed nothing.
pub open spec fn no_evidence(evidence: WorkflowEvidence) -> bool {
    evidence.failure_traces@.len() == 0 && evidence.symbols@.len() == 0 && evidence.paths@.len()
        == 0 && evidence.test_intents@.len() == 0
}

/// The queries on a failure that a caller observed.
pub open spec fn trace_queries(evidence: WorkflowEvidence, vocabulary: Vocabulary) -> Seq<QueryView> {
    if evidence.failure_traces@.len() == 0 {
        Seq::empty()
    } else {
        raised_all(
            planned(evidence.failure_traces@[0]@, 2, vocabulary),
            FacetKind::FailureTrace,
            20,
            90,
            "workflow:failure_trace:"@,
        )
    }
}

/// The queries on a test that a caller means to run.
pub open spec fn intent_queries(evidence: WorkflowEvidence, vocabulary: Vocabulary) -> Seq<
    QueryView,
> {
    if evidence.test_intents@.len() == 0 {
        Seq::empty()
    } else {
        raised_all(
            planned(evidence.test_intents@[0]@, 2, vocabulary),
            FacetKind::TestIntent,
            10,
            75,
            "workflow:test_intent:"@,
        )
    }
}

/// Everything that a task and its evidence ask for, in order.
pub open spec fn evidence_queries(
    task: Seq<char>,
    evidence: WorkflowEvidence,
    limit: usize,
    vocabulary: Vocabulary,
) -> Seq<QueryView> {
    filter_map(first_of(texts(evidence.symbols@), 4), symbol_query()) + path_queries(
        first_of(texts(evidence.paths@), 2),
    ) + trace_queries(evidence, vocabulary) + intent_queries(evidence, vocabulary) + planned(
        task,
        limit,
        vocabulary,
    )
}

/// The queries that a task and its evidence ask for, at most `limit`.
pub open spec fn planned_with_evidence(
    task: Seq<char>,
    evidence: WorkflowEvidence,
    limit: usize,
    vocabulary: Vocabulary,
) -> Seq<QueryView> {
    if no_evidence(evidence) {
        planned(task, limit, vocabulary)
    } else {
        let all = evidence_queries(task, evidence, limit, vocabulary);
        with_more(Seq::empty(), all, limit, all.len() as int)
    }
}

fn value_known(queries: &Vec<ContextQuery>, value: &str) -> (r: bool)
    ensures
        r == holds_key(views(queries@), folded_value(), lowered(value@)),
{
    let ghost all = views(queries@);
    let mut i: usize = 0;
    while i < queries.len()
        invariant
            i <= queries.len(),
            all == views(queries@),
            forall|k: int| 0 <= k < i ==> folded_value()(#[trigger] all[k]) != lowered(value@),
        decreases queries.len() - i,
    {
        assert(all[i as int] == queries@[i as int]@);
        if same_folded(queries[i].value.as_str(), value) {
            assert(folded_value()(all[i as int]) == lowered(value@));
            return true;
        }
        i += 1;
    }
    false
}

/// Adds a query, where it is new and there is room.
pub fn push_workflow_query(queries: &mut Vec<ContextQuery>, query: ContextQuery, limit: usize)
    ensures
        views(final(queries)@) == with_more(views(old(queries)@), seq![query@], limit, 1),
{
    reveal_with_fuel(with_more, 2);
    let ghost start = views(queries@);
    assert(start.len() == queries@.len());
    if queries.len() >= limit {
        return ;
    }
    if !value_known(queries, query.value.as_str()) {
        let ghost added = query@;
        queries.push(query);
        assert(views(queries@) =~= start.push(added));
    }
}

proof fn lemma_more_push(
    queries: Seq<QueryView>,
    more: Seq<QueryView>,
    x: QueryView,
    limit: usize,
)
    ensures
        with_more(queries, more.push(x), limit, (more.len() + 1) as int) == with_more(
            with_more(queries, more, limit, more.len() as int),
            seq![x],
            limit,
            1,
        ),
{
    reveal_with_fuel(with_more, 2);
    lemma_more_prefix(queries, more, more.push(x), limit, more.len() as int);
}

proof fn lemma_more_prefix(
    queries: Seq<QueryView>,
    a: Seq<QueryView>,
    b: Seq<QueryView>,
    limit: usize,
    upto: int,
)
    requires
        0 <= upto <= a.len(),
        upto <= b.len(),
        forall|i: int| 0 <= i < upto ==> a[i] == b[i],
    ensures
        with_more(queries, a, limit, upto) == with_more(queries, b, limit, upto),
    decreases upto,
{
    if upto > 0 {
        lemma_more_prefix(queries, a, b, limit, upto - 1);
    }
}

fn raise(
    query: ContextQuery,
    kind: FacetKind,
    more: u32,
    least: u32,
    prefix: &str,
) -> (r: ContextQuery)
    ensures
        r@ == raised(query@, kind, more, least, prefix@),
{
    ContextQuery {
        facets: query.facets.with(kind),
        weight: query.weight.saturating_add(more),
        concept_weight: if query.concept_weight > least {
            query.concept_weight
        } else {
            least
        },
        fusion_key: appended(copy_text(prefix), query.fusion_key.as_str()),
        value: query.value,
        fuse: query.fuse,
        exact_variant: query.exact_variant,
    }
}

fn push_all(
    queries: &mut Vec<ContextQuery>,
    more: Vec<ContextQuery>,
    limit: usize,
    Ghost(done): Ghost<Seq<QueryView>>,
)
    requires
        views(old(queries)@) == with_more(Seq::empty(), done, limit, done.len() as int),
    ensures
        views(final(queries)@) == with_more(
            Seq::empty(),
            done + views(more@),
            limit,
            (done.len() + more@.len()) as int,
        ),
{
    let ghost all = views(more@);
    let mut i: usize = 0;
    assert(done + all.take(0) =~= done);
    while i < more.len()
        invariant
            i <= more.len(),
            all == views(more@),
            views(queries@) == with_more(
                Seq::empty(),
                done + all.take(i as int),
                limit,
                done.len() + i,
            ),
        decreases more.len() - i,
    {
        assert(all[i as int] == more@[i as int]@);
        proof {
            lemma_more_push(Seq::empty(), done + all.take(i as int), all[i as int], limit);
            assert((done + all.take(i as int)).push(all[i as int]) =~= done + all.take(i + 1));
        }
        push_workflow_query(queries, more[i].duplicate(), limit);
        i += 1;
    }
    assert(all.take(all.len() as int) =~= all);
}

fn symbol_queries(symbols: &Vec<String>) -> (r: Vec<ContextQuery>)
    ensures
        views(r@) == filter_map(first_of(texts(symbols@), 4), symbol_query()),
{
    let ghost all = first_of(texts(symbols@), 4);
    let mut out: Vec<ContextQuery> = Vec::new();
    let mut i: usize = 0;
    assert(views(out@) =~= filter_map(all.take(0), symbol_query()));
    while i < symbols.len() && i < 4
        invariant
            i <= symbols.len(),
            i <= 4,
            all == first_of(texts(symbols@), 4),
            views(out@) == filter_map(all.take(i as int), symbol_query()),
        decreases symbols.len() - i,
    {
        let ghost before = views(out@);
        proof {
            assert(all[i as int] == symbols@[i as int]@);
            filter_map_push(all, symbol_query(), i as int);
        }
        if let Some(value) = normalize_atom(symbols[i].as_str()) {
            let key = lower_text(value.as_str());
            let query = ContextQuery {
                fusion_key: appended(copy_text("workflow:symbol:"), key.as_str()),
                value,
                weight: 125,
                concept_weight: 100,
                fuse: false,
                facets: FacetSet::of(FacetKind::ExactAtom).with(FacetKind::PrimaryChange).with(
                    FacetKind::Symbol,
                ),
                exact_variant: true,
            };
            let ghost added = query@;
            out.push(query);
            assert(views(out@) =~= before.push(added));
        }
        i += 1;
    }
    assert(all.take(all.len() as int) =~= all);
    out
}

fn queries_on_paths(paths: &Vec<String>) -> (r: Vec<ContextQuery>)
    ensures
        views(r@) == path_queries(first_of(texts(paths@), 2)),
{
    let ghost all = path_queries(first_of(texts(paths@), 2));
    let mut out: Vec<ContextQuery> = Vec::new();
    let mut i: usize = 0;
    while i < paths.len() && i < 2
        invariant
            i <= paths.len(),
            i <= 2,
            all == path_queries(first_of(texts(paths@), 2)),
            views(out@) == all.take(i as int),
        decreases paths.len() - i,
    {
        let ghost before = views(out@);
        let key = lower_text(paths[i].as_str());
        let query = ContextQuery {
            fusion_key: appended(copy_text("workflow:path:"), key.as_str()),
            value: paths[i].clone(),
            weight: 110,
            concept_weight: 95,
            fuse: false,
            facets: FacetSet::of(FacetKind::ExactAtom).with(FacetKind::PrimaryChange).with(
                FacetKind::Path,
            ),
            exact_variant: true,
        };
        let ghost added = query@;
        out.push(query);
        assert(views(out@) =~= before.push(added));
        assert(views(out@) =~= all.take(i + 1));
        i += 1;
    }
    assert(views(out@) =~= all);
    out
}

fn raise_all(
    queries: Vec<ContextQuery>,
    kind: FacetKind,
    more: u32,
    least: u32,
    prefix: &str,
) -> (r: Vec<ContextQuery>)
    ensures
        views(r@) == raised_all(views(queries@), kind, more, least, prefix@),
{
    let ghost all = raised_all(views(queries@), kind, more, least, prefix@);
    let mut out: Vec<ContextQuery> = Vec::new();
    let mut i: usize = 0;
    while i < queries.len()
        invariant
            i <= queries.len(),
            all == raised_all(views(queries@), kind, more, least, prefix@),
            views(out@) == all.take(i as int),
        decreases queries.len() - i,
    {
        let ghost before = views(out@);
        let query = raise(queries[i].duplicate(), kind, more, least, prefix);
        let ghost added = query@;
        out.push(query);
        assert(views(out@) =~= before.push(added));
        assert(views(out@) =~= all.take(i + 1));
        i += 1;
    }
    assert(views(out@) =~= all);
    out
}

/// The queries that a task and what a caller observed ask for, at most `limit`:
/// those of the evidence first.
#[verifier::rlimit(40)]
pub fn plan_with_workflow_evidence(
    task: &str,
    evidence: &WorkflowEvidence,
    limit: usize,
    vocabulary: &Vocabulary,
) -> (r: FacetPlan)
    ensures
        views(r.queries@) == planned_with_evidence(task@, *evidence, limit, *vocabulary),
{
    if evidence.failure_traces.len() == 0 && evidence.symbols.len() == 0 && evidence.paths.len()
        == 0 && evidence.test_intents.len() == 0 {
        return plan(task, limit, vocabulary);
    }
    let mut queries: Vec<ContextQuery> = Vec::new();
    let ghost none: Seq<QueryView> = Seq::empty();
    assert(views(queries@) =~= none);
    let symbols = symbol_queries(&evidence.symbols);
    let ghost d1 = none + views(symbols@);
    push_all(&mut queries, symbols, limit, Ghost(none));
    let paths = queries_on_paths(&evidence.paths);
    let ghost d2 = d1 + views(paths@);
    push_all(&mut queries, paths, limit, Ghost(d1));
    let traces = if evidence.failure_traces.len() == 0 {
        let empty: Vec<ContextQuery> = Vec::new();
        assert(views(empty@) =~= none);
        empty
    } else {
        raise_all(
            plan(evidence.failure_traces[0].as_str(), 2, vocabulary).queries,
            FacetKind::FailureTrace,
            20,
            90,
            "workflow:failure_trace:",
        )
    };
    let ghost d3 = d2 + views(traces@);
    push_all(&mut queries, traces, limit, Ghost(d2));
    let intents = if evidence.test_intents.len() == 0 {
        let empty: Vec<ContextQuery> = Vec::new();
        assert(views(empty@) =~= none);
        empty
    } else {
        raise_all(
            plan(evidence.test_intents[0].as_str(), 2, vocabulary).queries,
            FacetKind::TestIntent,
            10,
            75,
            "workflow:test_intent:",
        )
    };
    let ghost d4 = d3 + views(intents@);
    push_all(&mut queries, intents, limit, Ghost(d3));
    let own = plan(task, limit, vocabulary).queries;
    let ghost d5 = d4 + views(own@);
    push_all(&mut queries, own, limit, Ghost(d4));
    assert(d5 =~= evidence_queries(task@, *evidence, limit, *vocabulary));
    FacetPlan { queries }
}

/// A plan holds no more queries than were asked for.
pub proof fn plan_is_bounded(task: Seq<char>, limit: usize, vocabulary: Vocabulary)
    ensures
        planned(task, limit, vocabulary).len() <= limit,
{
    if limit > 0 {
        queries_are_bounded(
            task,
            task_facets(task, vocabulary),
            task_behavior(task, vocabulary),
            planned_phrases(task, vocabulary),
            limit,
            tests_wanted(terms_in(task)),
            vocabulary,
        );
    }
}

/// Where a plan asks for anything, a query stands for what is to be done.
pub proof fn a_plan_has_a_primary_query(task: Seq<char>, limit: usize, vocabulary: Vocabulary)
    requires
        planned(task, limit, vocabulary).len() > 0,
    ensures
        has_primary(planned(task, limit, vocabulary)),
{
    let queries = planned(task, limit, vocabulary);
    let clauses = clauses_in(task);
    let marked = after_clauses(
        queries_of(
            task,
            task_facets(task, vocabulary),
            task_behavior(task, vocabulary),
            planned_phrases(task, vocabulary),
            limit,
            tests_wanted(terms_in(task)),
            vocabulary,
        ),
        clauses,
        vocabulary,
        clauses.len() as int,
    );
    assert(queries == with_primary(marked));
    if !has_primary(marked) {
        assert(queries[0].facets.primary_change);
    }
}

proof fn lemma_more(queries: Seq<QueryView>, more: Seq<QueryView>, limit: usize, upto: int)
    requires
        queries.len() <= limit,
        distinct_values(queries),
    ensures
        with_more(queries, more, limit, upto).len() <= limit,
        distinct_values(with_more(queries, more, limit, upto)),
    decreases upto,
{
    if 0 < upto <= more.len() {
        lemma_more(queries, more, limit, upto - 1);
        let before = with_more(queries, more, limit, upto - 1);
        let after = with_more(queries, more, limit, upto);
        if after != before {
            assert forall|i: int, j: int| 0 <= i < j < after.len() implies lowered(
                (#[trigger] after[i]).value,
            ) != lowered((#[trigger] after[j]).value) by {
                if j == before.len() {
                    assert(folded_value()(before[i]) != lowered(more[upto - 1].value));
                }
            }
        }
    }
}

/// Whether no two queries look for the same text, whatever its case.
pub open spec fn distinct_values(queries: Seq<QueryView>) -> bool {
    forall|i: int, j: int|
        0 <= i < j < queries.len() ==> lowered((#[trigger] queries[i]).value) != lowered(
            (#[trigger] queries[j]).value,
        )
}

/// A plan with evidence holds no more queries than were asked for, and looks
/// for no text twice.
pub proof fn evidence_plan_is_bounded(
    task: Seq<char>,
    evidence: WorkflowEvidence,
    limit: usize,
    vocabulary: Vocabulary,
)
    ensures
        planned_with_evidence(task, evidence, limit, vocabulary).len() <= limit,
        !no_evidence(evidence) ==> distinct_values(
            planned_with_evidence(task, evidence, limit, vocabulary),
        ),
{
    if no_evidence(evidence) {
        plan_is_bounded(task, limit, vocabulary);
    } else {
        let all = evidence_queries(task, evidence, limit, vocabulary);
        lemma_more(Seq::empty(), all, limit, all.len() as int);
    }
}

/// Where a caller observed nothing, the plan is that of the task alone.
pub proof fn no_evidence_keeps_the_plan(
    task: Seq<char>,
    evidence: WorkflowEvidence,
    limit: usize,
    vocabulary: Vocabulary,
)
    requires
        no_evidence(evidence),
    ensures
        planned_with_evidence(task, evidence, limit, vocabulary) == planned(
            task,
            limit,
            vocabulary,
        ),
{
}

/// A symbol that a caller observed is the first that a plan looks for.
pub proof fn observed_symbols_come_first(
    task: Seq<char>,
    evidence: WorkflowEvidence,
    limit: usize,
    vocabulary: Vocabulary,
)
    requires
        limit > 0,
        evidence.symbols@.len() > 0,
        atom_of(evidence.symbols@[0]@) is Some,
    ensures
        planned_with_evidence(task, evidence, limit, vocabulary).len() > 0,
        planned_with_evidence(task, evidence, limit, vocabulary)[0].value == atom_of(
            evidence.symbols@[0]@,
        )->0,
{
    let symbols = first_of(texts(evidence.symbols@), 4);
    let all = evidence_queries(task, evidence, limit, vocabulary);
    assert(symbols[0] == evidence.symbols@[0]@);
    lemma_first_kept(symbols, symbols.len() as int);
    assert(symbols.take(symbols.len() as int) =~= symbols);
    assert(all[0].value == atom_of(symbols[0])->0);
    lemma_first_more(all, limit, all.len() as int);
}

proof fn lemma_first_kept(symbols: Seq<Seq<char>>, upto: int)
    requires
        1 <= upto <= symbols.len(),
        atom_of(symbols[0]) is Some,
    ensures
        filter_map(symbols.take(upto), symbol_query()).len() >= 1,
        filter_map(symbols.take(upto), symbol_query())[0] == symbol_query()(symbols[0])->0,
    decreases upto,
{
    filter_map_push(symbols, symbol_query(), upto - 1);
    if upto > 1 {
        lemma_first_kept(symbols, upto - 1);
    } else {
        assert(symbols.take(0) =~= Seq::<Seq<char>>::empty());
    }
}

proof fn lemma_first_more(more: Seq<QueryView>, limit: usize, upto: int)
    requires
        limit > 0,
        1 <= upto <= more.len(),
    ensures
        with_more(Seq::empty(), more, limit, upto).len() >= 1,
        with_more(Seq::empty(), more, limit, upto)[0] == more[0],
    decreases upto,
{
    reveal_with_fuel(with_more, 2);
    if upto > 1 {
        lemma_first_more(more, limit, upto - 1);
    } else {
        assert(!holds_key(
            Seq::<QueryView>::empty(),
            folded_value(),
            lowered(more[0].value),
        ));
    }
}

proof fn lemma_query_distinct(
    queries: Seq<QueryView>,
    facet: FacetView,
    spec: SpecView,
    limit: usize,
)
    requires
        distinct_values(queries),
    ensures
        distinct_values(with_query(queries, facet, spec, limit)),
{
    tally_bounds(queries, looks_for(spec.value));
    let at = first_where(queries, looks_for(spec.value));
    let out = with_query(queries, facet, spec, limit);
    assert forall|i: int, j: int| 0 <= i < j < out.len() implies lowered(
        (#[trigger] out[i]).value,
    ) != lowered((#[trigger] out[j]).value) by {
        if j < queries.len() {
            assert(out[i].value == queries[i].value);
            assert(out[j].value == queries[j].value);
        } else {
            assert(out[i] == queries[i]);
            assert(!looks_for(spec.value)(queries[i]));
        }
    }
}

proof fn lemma_concept_distinct(
    facets: Seq<FacetView>,
    queries: Seq<QueryView>,
    spec: SpecView,
    limit: usize,
    upto: int,
)
    requires
        distinct_values(queries),
    ensures
        distinct_values(with_concept(facets, queries, spec, limit, upto)),
    decreases upto,
{
    if 0 < upto <= facets.len() {
        lemma_concept_distinct(facets, queries, spec, limit, upto - 1);
        lemma_query_distinct(
            with_concept(facets, queries, spec, limit, upto - 1),
            facets[upto - 1],
            spec,
            limit,
        );
    }
}

proof fn lemma_specs_distinct(
    facets: Seq<FacetView>,
    queries: Seq<QueryView>,
    specs: Seq<SpecView>,
    limit: usize,
)
    requires
        distinct_values(queries),
    ensures
        distinct_values(with_specs(facets, queries, specs, limit)),
    decreases specs.len(),
{
    if specs.len() > 0 {
        lemma_specs_distinct(facets, queries, specs.drop_last(), limit);
        lemma_concept_distinct(
            facets,
            with_specs(facets, queries, specs.drop_last(), limit),
            specs.last(),
            limit,
            facets.len() as int,
        );
    }
}

proof fn lemma_rounds_distinct(
    facets: Seq<FacetView>,
    queries: Seq<QueryView>,
    tokens: Seq<Seq<char>>,
    vocabulary: Vocabulary,
    round: nat,
    available: usize,
)
    requires
        distinct_values(queries),
    ensures
        distinct_values(with_rounds(facets, queries, tokens, vocabulary, round, available)),
    decreases available - queries.len(),
{
    if queries.len() < available {
        let specs = filter_map(tokens, part_of_round(vocabulary, round));
        let next = with_specs(facets, queries, specs, available);
        lemma_specs_distinct(facets, queries, specs, available);
        if queries.len() < next.len() <= available {
            lemma_rounds_distinct(facets, next, tokens, vocabulary, round + 1, available);
        }
    }
}

proof fn lemma_test_is_asked()
    ensures
        lowered("test"@) == "test"@,
        "test"@.len() == 4,
        !stop_word("test"@),
{
    reveal_strlit("test");
    assert(lowered("test"@) =~= "test"@);
    reveal(stop_word);
    reveal_strlit("a");
    reveal_strlit("an");
    reveal_strlit("and");
    reveal_strlit("add");
    reveal_strlit("adding");
    reveal_strlit("are");
    reveal_strlit("as");
    reveal_strlit("be");
    reveal_strlit("before");
    reveal_strlit("both");
    reveal_strlit("but");
    reveal_strlit("by");
    reveal_strlit("calling");
    reveal_strlit("can");
    reveal_strlit("callback");
    reveal_strlit("change");
    reveal_strlit("does");
    reveal_strlit("each");
    reveal_strlit("ensure");
    reveal_strlit("every");
    reveal_strlit("fail");
    reveal_strlit("find");
    reveal_strlit("fix");
    reveal_strlit("for");
    reveal_strlit("from");
    reveal_strlit("how");
    reveal_strlit("if");
    reveal_strlit("in");
    reveal_strlit("into");
    reveal_strlit("is");
    reveal_strlit("it");
    reveal_strlit("its");
    reveal_strlit("keep");
    reveal_strlit("locate");
    reveal_strlit("loudly");
    reveal_strlit("make");
    reveal_strlit("must");
    reveal_strlit("not");
    reveal_strlit("of");
    reveal_strlit("on");
    reveal_strlit("one");
    reveal_strlit("only");
    reveal_strlit("or");
    reveal_strlit("preserve");
    reveal_strlit("same");
    reveal_strlit("so");
    reveal_strlit("than");
    reveal_strlit("then");
    reveal_strlit("the");
    reveal_strlit("this");
    reveal_strlit("to");
    reveal_strlit("trace");
    reveal_strlit("update");
    reveal_strlit("when");
    reveal_strlit("while");
    reveal_strlit("within");
    reveal_strlit("without");
    reveal_strlit("with");
    assert("both"@[0] != "test"@[0]);
    assert("does"@[0] != "test"@[0]);
    assert("each"@[0] != "test"@[0]);
    assert("fail"@[0] != "test"@[0]);
    assert("find"@[0] != "test"@[0]);
    assert("from"@[0] != "test"@[0]);
    assert("into"@[0] != "test"@[0]);
    assert("keep"@[0] != "test"@[0]);
    assert("make"@[0] != "test"@[0]);
    assert("must"@[0] != "test"@[0]);
    assert("only"@[0] != "test"@[0]);
    assert("same"@[0] != "test"@[0]);
    assert("than"@[1] != "test"@[1]);
    assert("then"@[1] != "test"@[1]);
    assert("this"@[1] != "test"@[1]);
    assert("when"@[0] != "test"@[0]);
    assert("with"@[0] != "test"@[0]);
}

/// Whether a query looks for tests, as one that says that tests are wanted.
pub open spec fn asks_for_tests(query: QueryView) -> bool {
    lowered(query.value) == "test"@ && query.facets.test_intent
}

proof fn lemma_queries_of(
    task: Seq<char>,
    facets: Seq<FacetView>,
    behavior: Seq<Seq<char>>,
    phrases: Seq<Seq<char>>,
    limit: usize,
    wants_tests: bool,
    vocabulary: Vocabulary,
) -> (at: int)
    ensures
        distinct_values(
            queries_of(task, facets, behavior, phrases, limit, wants_tests, vocabulary),
        ),
        wants_tests && limit > 0 && first_where(facets, wants_test()) < facets.len() ==> {
            let queries = queries_of(
                task,
                facets,
                behavior,
                phrases,
                limit,
                wants_tests,
                vocabulary,
            );
            0 <= at < queries.len() && asks_for_tests(queries[at])
        },
{
    let available = room(limit, wants_tests);
    let tokens = token_list(task);
    let exact = filter_map(facets, exact_text());
    let exact_limit = smaller_of(exact.len() as int, smaller_of(available as int, 4));
    let phrase_count = phrase_room(phrases.len(), tokens.len(), available - exact_limit);
    let left = available - (exact_limit + 2 * phrase_count);
    let prose = smaller_of(
        behavior.len() as int,
        if left > 0 {
            left
        } else {
            0
        },
    );
    let none = Seq::<QueryView>::empty();
    let s1 = exact_specs(exact.take(exact_limit));
    let q1 = with_specs(facets, none, s1, exact_limit as usize);
    lemma_specs_distinct(facets, none, s1, exact_limit as usize);
    queries_stay_within_their_room(facets, none, s1, exact_limit as usize);
    let s2 = prose_specs(behavior.take(prose), false);
    let q2 = with_specs(facets, q1, s2, available);
    lemma_specs_distinct(facets, q1, s2, available);
    queries_stay_within_their_room(facets, q1, s2, available);
    let s3 = prose_specs(phrases.take(phrase_count), true);
    let q3 = with_specs(facets, q2, s3, available);
    lemma_specs_distinct(facets, q2, s3, available);
    queries_stay_within_their_room(facets, q2, s3, available);
    let s4 = filter_map(phrases.take(phrase_count), component());
    let q4 = with_specs(facets, q3, s4, available);
    lemma_specs_distinct(facets, q3, s4, available);
    queries_stay_within_their_room(facets, q3, s4, available);
    lemma_rounds_distinct(facets, q4, tokens, vocabulary, 0, available);
    rounds_stay_within_their_room(facets, q4, tokens, vocabulary, 0, available);
    let q5 = with_rounds(facets, q4, tokens, vocabulary, 0, available);
    let test = first_where(facets, wants_test());
    lemma_test_is_asked();
    if wants_tests && test < facets.len() {
        lemma_query_distinct(q5, facets[test], test_spec(), limit);
        tally_bounds(facets, wants_test());
        tally_bounds(q5, looks_for("test"@));
        assert(wants_test()(facets[test]));
        let at = first_where(q5, looks_for("test"@));
        if limit > 0 {
            assert(q5.len() < limit);
            let out = with_query(q5, facets[test], test_spec(), limit);
            assert(asks_for_tests(out[at]));
        }
        at
    } else {
        0
    }
}

proof fn lemma_roles_keep_tests(
    facets: FacetSet,
    roles: Seq<TaskRole>,
    on_tests: bool,
    upto: int,
)
    requires
        facets.test_intent,
    ensures
        with_roles(facets, roles, on_tests, upto).test_intent,
    decreases upto,
{
    if 0 < upto <= roles.len() {
        lemma_roles_keep_tests(facets, roles, on_tests, upto - 1);
    }
}

proof fn lemma_clauses_keep_tests(
    query: QueryView,
    clauses: Seq<Seq<char>>,
    vocabulary: Vocabulary,
    upto: int,
)
    requires
        query.facets.test_intent,
    ensures
        kinds_after(query, clauses, vocabulary, upto).test_intent,
    decreases upto,
{
    if 0 < upto <= clauses.len() {
        lemma_clauses_keep_tests(query, clauses, vocabulary, upto - 1);
        let before = kinds_after(query, clauses, vocabulary, upto - 1);
        let roles = roles_of(clauses[upto - 1], upto == 1);
        lemma_roles_keep_tests(before, roles, before.test_intent, roles.len() as int);
    }
}

/// A plan looks for no text twice, whatever its case.
pub proof fn a_plan_looks_for_each_text_once(
    task: Seq<char>,
    limit: usize,
    vocabulary: Vocabulary,
)
    ensures
        distinct_values(planned(task, limit, vocabulary)),
{
    if limit > 0 {
        let queries = queries_of(
            task,
            task_facets(task, vocabulary),
            task_behavior(task, vocabulary),
            planned_phrases(task, vocabulary),
            limit,
            tests_wanted(terms_in(task)),
            vocabulary,
        );
        lemma_queries_of(
            task,
            task_facets(task, vocabulary),
            task_behavior(task, vocabulary),
            planned_phrases(task, vocabulary),
            limit,
            tests_wanted(terms_in(task)),
            vocabulary,
        );
        let out = planned(task, limit, vocabulary);
        assert forall|i: int, j: int| 0 <= i < j < out.len() implies lowered(
            (#[trigger] out[i]).value,
        ) != lowered((#[trigger] out[j]).value) by {
            assert(out[i].value == queries[i].value);
            assert(out[j].value == queries[j].value);
        }
    }
}

/// A task that speaks of tests has a query for them, wherever there is room for a
/// query at all.
pub proof fn a_task_on_tests_asks_for_them(
    task: Seq<char>,
    limit: usize,
    vocabulary: Vocabulary,
)
    requires
        limit > 0,
        tests_wanted(terms_in(task)),
    ensures
        exists|i: int|
            0 <= i < planned(task, limit, vocabulary).len() && asks_for_tests(
                #[trigger] planned(task, limit, vocabulary)[i],
            ),
{
    let facets = task_facets(task, vocabulary);
    lemma_test_is_asked();
    tally_bounds(facets, wants_test());
    let kind = FacetKind::TestIntent;
    assert(exists|i: int| 0 <= i < facets.len() && wants_test()(#[trigger] facets[i])) by {
        let atoms = atoms_in(task);
        let phrases = first_of(quoted_in(task), MAX_QUOTED_PHRASES as int) + planned_phrases(
            task,
            vocabulary,
        );
        let terms = task_behavior(task, vocabulary);
        let f1 = atom_facets(Seq::empty(), atoms, vocabulary, atoms.len() as int);
        let f2 = phrase_facets(f1, phrases, phrases.len() as int);
        let f3 = term_facets(f2, terms, terms.len() as int);
        tally_bounds(f3, same_facet(kind, "test"@));
        let at = first_where(f3, same_facet(kind, "test"@));
        if at < f3.len() {
            assert(same_facet(kind, "test"@)(f3[at]));
            assert(wants_test()(facets[at]));
        } else {
            assert(facets[facets.len() - 1].kind == kind);
            assert(wants_test()(facets[facets.len() - 1]));
        }
    }
    let queries = queries_of(
        task,
        facets,
        task_behavior(task, vocabulary),
        planned_phrases(task, vocabulary),
        limit,
        true,
        vocabulary,
    );
    let at = lemma_queries_of(
        task,
        facets,
        task_behavior(task, vocabulary),
        planned_phrases(task, vocabulary),
        limit,
        true,
        vocabulary,
    );
    let clauses = clauses_in(task);
    lemma_clauses_keep_tests(queries[at], clauses, vocabulary, clauses.len() as int);
    let out = planned(task, limit, vocabulary);
    assert(out[at].value == queries[at].value);
    assert(asks_for_tests(out[at]));
}

} // verus!
