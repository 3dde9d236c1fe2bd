//! How the words of a request are read.

use crate::context::candidates::draft::CandidateView;
use crate::context::candidates::lexical::ExcerptView;
use crate::context::candidates::required::{with_evidence_lines, ConstraintExpansion};
use crate::context::candidates::retain::{query_positions, EvidencePlanView};
use crate::context::facets::{
    at_least, closes_atom, component, cut_pieces, folded, opens_atom, phrase_room, quotations,
    quote_end, quote_mark, quote_opens, quoted_in, terms_in, Vocabulary,
};
use crate::context::plan::{
    evidence_queries, intent_queries, path_queries, path_query, plan_is_bounded, planned,
    symbol_query, trace_queries,
};
use crate::json::keys::{listed_keys, ordered_keys};
use crate::json::options::JsonKeyOrder;
use crate::json::request::{operation_fault, OperationView, PathVerdicts};
use crate::json::view::JsonView;
use crate::laws::documents::keys_are_kept;
use crate::lists::{distinct_by, filter_map, filter_map_len, filter_map_members, holds_key};
use crate::model::WorkflowEvidence;
use crate::ordered::first_of;
use crate::text::{byte_len, byte_len_take, lowered, pieces, texts, trimmed, unicode_alphanumeric, word_break};
use vstd::prelude::*;

verus! {

/// A term of a task has at least two characters, and every word of two characters or more
/// is a term.
pub proof fn terms_have_two_characters(task: Seq<char>, i: int)
    ensures
        0 <= i < terms_in(task).len() ==> terms_in(task)[i].len() >= 2 && pieces(
            task,
            word_break(),
        ).contains(terms_in(task)[i]),
        0 <= i < pieces(task, word_break()).len() && pieces(task, word_break())[i].len() >= 2
            ==> terms_in(task).contains(pieces(task, word_break())[i]),
{
    let parts = pieces(task, word_break());
    let f = at_least(2);
    filter_map_members(parts, f);
    if 0 <= i < terms_in(task).len() {
        let k = choose|k: int|
            0 <= k < parts.len() && f(#[trigger] parts[k]) == Some(terms_in(task)[i]);
        assert(parts[k] == terms_in(task)[i]);
    }
    if 0 <= i < parts.len() && parts[i].len() >= 2 {
        assert(f(parts[i]) == Some(parts[i]));
    }
}

/// A phrase is also looked for by its first term, exactly where it has one.
pub proof fn a_phrase_is_looked_for_by_its_first_term(phrase: Seq<char>)
    ensures
        component()(phrase) is Some <==> terms_in(phrase).len() >= 1,
        component()(phrase) matches Some(spec) ==> spec.value == terms_in(phrase)[0]
            && spec.fusion_key == lowered(phrase) && !spec.exact_variant && spec.fuse,
{
}

proof fn a_quotation_ends_with_its_mark(task: Seq<char>, at: int)
    requires
        1 <= at < task.len(),
        task.last() == task[0],
        forall|k: int| 1 <= k < task.len() - 1 ==> #[trigger] task[k] != task[0],
        byte_len(task) <= 160,
    ensures
        quote_end(task, 0, at) == task.len() - 1,
    decreases task.len() - at,
{
    if at < task.len() - 1 {
        assert(task.subrange(0, at) =~= task.take(at));
        byte_len_take(task, at, task.len() as int);
        assert(task.take(task.len() as int) =~= task);
        a_quotation_ends_with_its_mark(task, at + 1);
    }
}

/// A short text between two equal marks is found as a quotation, without the white space
/// around it.
pub proof fn a_quoted_text_is_found(mark: char, inner: Seq<char>)
    requires
        quote_mark(mark),
        forall|k: int| 0 <= k < inner.len() ==> #[trigger] inner[k] != mark,
        byte_len(seq![mark] + inner + seq![mark]) <= 160,
        trimmed(inner).len() >= 2,
    ensures
        quoted_in(seq![mark] + inner + seq![mark]).contains(trimmed(inner)),
        quote_mark('"'),
        quote_mark('`'),
        quote_mark('\''),
{
    let task = seq![mark] + inner + seq![mark];
    assert forall|k: int| 1 <= k < task.len() - 1 implies #[trigger] task[k] != task[0] by {
        assert(task[k] == inner[k - 1]);
    }
    a_quotation_ends_with_its_mark(task, 1);
    let end = task.len() - 1;
    assert(task.subrange(1, end) =~= inner);
    assert(quote_opens(task, 0));
    let found = quotations(task, 0);
    assert(found[0] == trimmed(inner));
    let f = at_least(2);
    filter_map_members(found, f);
    assert(f(found[0]) == Some(trimmed(inner)));
    let long = filter_map(found, f);
    assert(long.contains(trimmed(inner)));
    assert(quotations(task, end + 1) =~= Seq::empty());
    assert(found =~= seq![trimmed(inner)]);
    filter_map_len(found, f);
    assert(long.len() == 1);
    assert(long[0] == trimmed(inner));
    assert(long.drop_last() =~= Seq::empty());
    let none = distinct_by(long.drop_last(), folded());
    assert(none =~= Seq::empty());
    assert(!holds_key(none, folded(), folded()(long.last())));
    assert(distinct_by(long, folded()) == none.push(long.last()));
    assert(distinct_by(long, folded())[0] == trimmed(inner));
}

/// What was observed is looked for before what the task says: the first two paths, and up
/// to four symbols; failures and wanted tests add two queries each.
pub proof fn little_is_taken_from_observed_evidence(
    task: Seq<char>,
    evidence: WorkflowEvidence,
    limit: usize,
    vocabulary: Vocabulary,
    k: int,
)
    ensures
        evidence_queries(task, evidence, limit, vocabulary).len() <= planned(
            task,
            limit,
            vocabulary,
        ).len() + 10,
        0 <= k < 2 && k < evidence.paths@.len() ==> evidence_queries(
            task,
            evidence,
            limit,
            vocabulary,
        ).contains(path_query(evidence.paths@[k]@)),
        0 <= k < 4 && k < evidence.symbols@.len() && symbol_query()(evidence.symbols@[k]@) is Some
            ==> evidence_queries(task, evidence, limit, vocabulary).contains(
            symbol_query()(evidence.symbols@[k]@)->0,
        ),
{
    let all = evidence_queries(task, evidence, limit, vocabulary);
    let first = first_of(texts(evidence.symbols@), 4);
    let symbols = filter_map(first, symbol_query());
    let paths = path_queries(first_of(texts(evidence.paths@), 2));
    filter_map_len(first, symbol_query());
    filter_map_members(first, symbol_query());
    if evidence.failure_traces@.len() > 0 {
        plan_is_bounded(evidence.failure_traces@[0]@, 2, vocabulary);
    }
    if evidence.test_intents@.len() > 0 {
        plan_is_bounded(evidence.test_intents@[0]@, 2, vocabulary);
    }
    if 0 <= k < 2 && k < evidence.paths@.len() {
        assert(paths[k] == path_query(evidence.paths@[k]@));
        assert(all[symbols.len() + k] == paths[k]);
    }
    if 0 <= k < 4 && k < evidence.symbols@.len() && symbol_query()(
        evidence.symbols@[k]@,
    ) is Some {
        assert(first[k] == evidence.symbols@[k]@);
        let query = symbol_query()(first[k])->0;
        assert(symbols.contains(query));
        let n = choose|n: int| 0 <= n < symbols.len() && symbols[n] == query;
        assert(all[n] == query);
    }
}

/// A path or a symbol that was observed is looked for by itself and fused with nothing.
pub proof fn observed_evidence_is_not_fused(path: Seq<char>, symbol: Seq<char>)
    ensures
        !path_query(path).fuse,
        path_query(path).concept_weight == 95,
        symbol_query()(symbol) matches Some(query) ==> !query.fuse && query.concept_weight == 100,
{
}

/// Observed failures and wanted tests are looked for by what they say, the failures
/// twenty heavier and the tests ten, and each for what it is.
pub proof fn observed_failures_and_tests_weigh_more(
    evidence: WorkflowEvidence,
    vocabulary: Vocabulary,
    i: int,
)
    ensures
        evidence.failure_traces@.len() == 0 ==> trace_queries(evidence, vocabulary).len() == 0,
        evidence.test_intents@.len() == 0 ==> intent_queries(evidence, vocabulary).len() == 0,
        0 <= i < trace_queries(evidence, vocabulary).len() ==> {
            let plain = planned(evidence.failure_traces@[0]@, 2, vocabulary)[i];
            let out = trace_queries(evidence, vocabulary)[i];
            &&& out.value == plain.value
            &&& plain.weight + 20 <= u32::MAX ==> out.weight == plain.weight + 20
            &&& out.concept_weight >= 90
            &&& out.facets.failure_trace
        },
        0 <= i < intent_queries(evidence, vocabulary).len() ==> {
            let plain = planned(evidence.test_intents@[0]@, 2, vocabulary)[i];
            let out = intent_queries(evidence, vocabulary)[i];
            &&& out.value == plain.value
            &&& plain.weight + 10 <= u32::MAX ==> out.weight == plain.weight + 10
            &&& out.concept_weight >= 75
            &&& out.concept_weight > 75 ==> out.concept_weight == plain.concept_weight
            &&& out.facets.test_intent
        },
{
}

/// A task that names code is searched by one phrase at most, any other by two, and
/// phrases take no more than half of the places that are left.
pub proof fn phrases_take_half_of_the_places(phrases: nat, code_tokens: nat, remaining: int)
    requires
        remaining >= 0,
    ensures
        phrase_room(phrases, code_tokens, remaining) <= phrases,
        2 * phrase_room(phrases, code_tokens, remaining) <= remaining,
        code_tokens > 0 ==> phrase_room(phrases, code_tokens, remaining) <= 1,
        code_tokens == 0 ==> phrase_room(phrases, code_tokens, remaining) <= 2,
        phrases >= 2 && code_tokens == 0 && remaining >= 4 ==> phrase_room(
            phrases,
            code_tokens,
            remaining,
        ) == 2,
        phrases >= 1 && remaining >= 2 ==> phrase_room(phrases, code_tokens, remaining) >= 1,
{
}

/// A text that is cut is cut into one piece more than there are cuts: the first up to the
/// first cut, the last from the last one on, and each other between two.
pub proof fn a_cut_text_loses_nothing(s: Seq<char>, cuts: Seq<usize>, i: int)
    requires
        0 <= i < cuts.len(),
        cuts[i] <= s.len(),
    ensures
        cut_pieces(s, cuts).len() == cuts.len() + 1,
        cut_pieces(s, cuts)[0] == s.subrange(0, cuts[0] as int),
        cut_pieces(s, cuts).last() == s.subrange(cuts.last() as int, s.len() as int),
        i > 0 ==> cut_pieces(s, cuts)[i] == s.subrange(cuts[i - 1] as int, cuts[i] as int),
{
}

/// An atom begins with a letter, a figure, an underscore or the mark of an attribute, and
/// ends with a letter, a figure, an underscore or a closing bracket.
pub proof fn atoms_begin_and_end_with_their_own_marks(c: char)
    ensures
        unicode_alphanumeric(c) ==> opens_atom(c) && closes_atom(c),
        opens_atom('_') && opens_atom('#') && opens_atom('@'),
        closes_atom('_') && closes_atom(']') && closes_atom('>'),
        opens_atom(c) && !unicode_alphanumeric(c) ==> c == '_' || c == '#' || c == '@',
        closes_atom(c) && !unicode_alphanumeric(c) ==> c == '_' || c == ']' || c == '>',
{
}

/// Evidence is shown where a query occurs in it and nowhere else.
pub proof fn evidence_is_shown_where_a_query_occurs(
    candidates: Seq<CandidateView>,
    expansion: ConstraintExpansion<'_>,
    requirement: usize,
    queries: Seq<Seq<char>>,
    plans: Seq<EvidencePlanView>,
    shown: Seq<Option<ExcerptView>>,
    upto: int,
)
    requires
        0 < upto <= plans.len(),
        upto <= shown.len(),
    ensures
        ({
            let before = with_evidence_lines(
                candidates,
                expansion,
                requirement,
                queries,
                plans,
                shown,
                upto - 1,
            );
            let after = with_evidence_lines(
                candidates,
                expansion,
                requirement,
                queries,
                plans,
                shown,
                upto,
            );
            let found = query_positions(
                (shown[upto - 1]->0).content,
                queries,
                queries.len() as int,
            );
            &&& shown[upto - 1] is None ==> after == before
            &&& shown[upto - 1] is Some && found.len() == 0 ==> after == before
            &&& shown[upto - 1] is Some && found.len() >= 1 ==> after.len() == before.len() + 1
                && before.is_prefix_of(after)
        }),
{
}

/// Keys are listed from the value itself on: even at no depth it is listed.
pub proof fn the_value_itself_is_listed(
    value: JsonView,
    max_depth: Option<usize>,
    order: JsonKeyOrder,
)
    ensures
        listed_keys(value, max_depth, order).len() >= 1,
{
    let keys = crate::json::keys::keys_of(value, Seq::empty(), 0, max_depth, Seq::empty());
    keys_are_kept(value, Seq::empty(), 0, max_depth, Seq::empty());
    crate::laws::documents::keys_come_in_the_order_asked_for(keys, order);
    assert(ordered_keys(keys, order).len() == keys.len());
}

/// Only a query for keys goes on by a cursor or has a depth: a summary or a comparison
/// with either is refused.
pub proof fn only_keys_go_on_or_have_a_depth(
    operation: OperationView,
    cursor: Option<Seq<char>>,
    depth: Option<usize>,
    max_path_bytes: usize,
    verdicts: PathVerdicts,
)
    requires
        operation_fault(operation, cursor, depth, max_path_bytes, verdicts) is None,
    ensures
        !(operation is Query) ==> cursor is None && depth is None,
        operation matches OperationView::Query { projection, .. } ==> (!(projection is Keys)
            ==> cursor is None && depth is None),
        operation matches OperationView::DiffFields { selectors, base_path, head_path, .. } ==> 1
            <= selectors.len() as usize && byte_len(base_path) <= max_path_bytes && byte_len(
            head_path,
        ) <= max_path_bytes,
        operation matches OperationView::Query { path, .. } ==> byte_len(path) <= max_path_bytes,
        operation matches OperationView::NumericSummary { path, .. } ==> byte_len(path)
            <= max_path_bytes,
{
}

} // verus!
