//! What a path is worth.

use crate::context::candidates::draft::{answers_better, can_corroborate, counts_more, FusionView};
use crate::context::candidates::focus::portion;
use crate::context::facets::QueryView;
use crate::context::path_score::{
    go_path, has_component, javascript_path, last_extension, part_points, path_points,
    python_path, registration_points, rust_path, token_points, typescript_path, ScorerView,
};
use crate::context::scope_helpers::{
    names_language, owner_path, registration_intent, tested_by, tests_something,
};
use crate::lists::{first_where, tally, tally_bounds};
use crate::text::{lowered, only, pieces, pieces_exist};
use vstd::prelude::*;

verus! {

proof fn an_end_without_dots_is_the_last_piece(head: Seq<char>, end: Seq<char>)
    requires
        forall|i: int| 0 <= i < end.len() ==> #[trigger] end[i] != '.',
    ensures
        pieces(head + seq!['.'] + end, only('.')).len() >= 2,
        pieces(head + seq!['.'] + end, only('.')).last() == end,
    decreases end.len(),
{
    let sep = only('.');
    let all = head + seq!['.'] + end;
    if end.len() == 0 {
        assert(all =~= head.push('.'));
        assert(all.drop_last() =~= head);
        pieces_exist(head, sep);
        assert(pieces(all, sep).last() =~= end);
    } else {
        let short = end.drop_last();
        assert forall|i: int| 0 <= i < short.len() implies #[trigger] short[i] != '.' by {
            assert(short[i] == end[i]);
        }
        an_end_without_dots_is_the_last_piece(head, short);
        assert(all.drop_last() =~= head + seq!['.'] + short);
        assert(all.last() == end.last());
        assert(end[end.len() - 1] != '.');
        assert(short.push(end.last()) =~= end);
    }
}

/// The extension of a path is what stands behind its last dot; a path is written in the
/// language of its extension.
pub proof fn a_path_is_written_in_the_language_of_its_extension(
    head: Seq<char>,
    extension: Seq<char>,
)
    requires
        forall|i: int| 0 <= i < extension.len() ==> #[trigger] extension[i] != '.',
    ensures
        last_extension(head + seq!['.'] + extension) == Some(extension),
        extension == "rs"@ ==> rust_path(head + seq!['.'] + extension),
        extension == "go"@ ==> go_path(head + seq!['.'] + extension),
        extension == "py"@ || extension == "pyw"@ ==> python_path(head + seq!['.'] + extension),
        extension == "ts"@ || extension == "tsx"@ ==> typescript_path(
            head + seq!['.'] + extension,
        ),
        extension == "js"@ || extension == "jsx"@ || extension == "mjs"@ || extension == "cjs"@
            ==> javascript_path(head + seq!['.'] + extension),
{
    an_end_without_dots_is_the_last_piece(head, extension);
}

/// A path in no directory that is named after a language is written in one only by its
/// extension.
pub proof fn a_path_without_an_extension_has_no_language(path: Seq<char>)
    requires
        last_extension(path) is None,
    ensures
        rust_path(path) <==> has_component(path, "rust"@),
        go_path(path) <==> has_component(path, "go"@),
        python_path(path) <==> has_component(path, "python"@),
        typescript_path(path) <==> has_component(path, "ts"@),
        javascript_path(path) <==> has_component(path, "js"@),
{
}

/// Parts of a name count only where two or more of them occur in a path, and then the
/// square of their number.
pub proof fn parts_count_by_the_square_of_their_number(
    parts: Seq<Seq<char>>,
    path: Seq<char>,
)
    requires
        parts.len() <= 65535,
    ensures
        ({
            let found = tally(parts, |text: Seq<char>| crate::text::occurs(path, text));
            &&& found < 2 ==> part_points(parts, path) == 0
            &&& found >= 2 ==> part_points(parts, path) == found * found
        }),
{
    let held = crate::context::path_score::held_by(path);
    let same = |text: Seq<char>| crate::text::occurs(path, text);
    assert(held =~= same);
    tally_bounds(parts, held);
    let found = tally(parts, held);
    assert(found * found <= 65535 * 65535) by (nonlinear_arith)
        requires
            0 <= found <= 65535,
    ;
}

/// Parts of a further name never take points away.
pub proof fn more_names_never_take_points_away(
    score: u64,
    parts: Seq<Seq<Seq<char>>>,
    path: Seq<char>,
    upto: int,
)
    requires
        0 <= upto <= parts.len(),
    ensures
        token_points(score, parts, path, upto) >= score,
        upto > 0 ==> token_points(score, parts, path, upto) >= token_points(
            score,
            parts,
            path,
            upto - 1,
        ),
    decreases upto,
{
    if upto > 0 {
        more_names_never_take_points_away(score, parts, path, upto - 1);
    }
}

/// A language that is mentioned adds twelve points to the paths that are written in it and
/// to no other, and nothing else changes; registration adds its own points alone.
pub proof fn a_mentioned_language_adds_twelve_points(scorer: ScorerView, path: Seq<char>)
    requires
        path_points(scorer, path) + 64 <= u64::MAX,
    ensures
        ({
            let low = crate::text::unicode_lowercase(path);
            let without = path_points(scorer, path) as int;
            &&& !scorer.rust ==> path_points(ScorerView { rust: true, ..scorer }, path) - without
                == if rust_path(low) {
                12int
            } else {
                0
            }
            &&& !scorer.go ==> path_points(ScorerView { go: true, ..scorer }, path) - without
                == if go_path(low) {
                12int
            } else {
                0
            }
            &&& !scorer.python ==> path_points(ScorerView { python: true, ..scorer }, path)
                - without == if python_path(low) {
                12int
            } else {
                0
            }
            &&& !scorer.typescript ==> path_points(
                ScorerView { typescript: true, ..scorer },
                path,
            ) - without == if typescript_path(low) {
                12int
            } else {
                0
            }
            &&& !scorer.javascript ==> path_points(
                ScorerView { javascript: true, ..scorer },
                path,
            ) - without == if javascript_path(low) {
                12int
            } else {
                0
            }
            &&& !scorer.registration ==> path_points(
                ScorerView { registration: true, ..scorer },
                path,
            ) - without == registration_points(true, low)
        }),
{
}

/// Of two answers the one of the better class comes first; of one class that to the
/// earlier query; and to one query that on the earlier line. No answer comes before
/// itself, and of two that differ in any of these one does.
pub proof fn better_answers_come_first(
    class: nat,
    query: int,
    line: usize,
    other_class: nat,
    other_query: int,
    other_line: usize,
)
    ensures
        class > other_class ==> answers_better(
            class,
            query,
            line,
            other_class,
            other_query,
            other_line,
        ),
        class == other_class && query < other_query ==> answers_better(
            class,
            query,
            line,
            other_class,
            other_query,
            other_line,
        ),
        class == other_class && query == other_query && line < other_line ==> answers_better(
            class,
            query,
            line,
            other_class,
            other_query,
            other_line,
        ),
        answers_better(class, query, line, other_class, other_query, other_line)
            ==> !answers_better(other_class, other_query, other_line, class, query, line),
{
}

/// A query can be borne out where it weighs at least sixty-five, is about what a seed is
/// about, and looks for an atom, a symbol or configuration.
pub proof fn light_queries_bear_nothing_out(query: QueryView, seeds: Seq<Seq<char>>)
    ensures
        can_corroborate(query, seeds) ==> query.concept_weight >= 65 && seeds.contains(
            query.fusion_key,
        ),
        query.concept_weight >= 65 && seeds.contains(query.fusion_key) && (query.facets.exact_atom
            || query.facets.symbol || query.facets.configuration) ==> can_corroborate(
            query,
            seeds,
        ),
        !query.facets.exact_atom && !query.facets.symbol && !query.facets.configuration
            ==> !can_corroborate(query, seeds),
{
}

/// Of two hits of one weight the one of the better rank counts more, and of one rank the
/// heavier.
pub proof fn better_ranks_count_more(weight: u32, rank: u32, held: FusionView)
    ensures
        held.weight == weight && weight > 0 && rank < held.rank ==> counts_more(
            weight,
            rank,
            held,
        ),
        held.rank == rank && weight > held.weight ==> counts_more(weight, rank, held),
        held.rank == rank && weight <= held.weight ==> !counts_more(weight, rank, held),
        held.weight == weight && rank >= held.rank ==> !counts_more(weight, rank, held),
{
    let a = 61 + held.rank;
    let b = 61 + rank;
    assert(weight > 0 && b < a ==> weight * a > weight * b) by (nonlinear_arith);
    assert(b >= a && weight >= 0 ==> weight * a <= weight * b) by (nonlinear_arith);
    assert(weight > held.weight && b > 0 ==> weight * b > held.weight * b) by (nonlinear_arith);
    assert(weight <= held.weight && b > 0 ==> weight * b <= held.weight * b) by (nonlinear_arith);
}

/// A portion of a list begins where it is told to and has as many items as are asked for
/// or left.
pub proof fn a_portion_begins_where_it_is_told<A>(list: Seq<A>, from: usize, count: usize, i: int)
    requires
        0 <= i < portion(list, from, count).len(),
    ensures
        portion(list, from, count)[i] == list[from + i],
        portion(list, from, count).len() <= count,
        portion(list, from, count).len() == count || from + portion(list, from, count).len()
            == list.len(),
{
}

/// The first changed path whose stem stands in the name of a test owns it, and only a
/// test is owned.
pub proof fn a_test_is_owned_by_the_first_path_in_its_name(
    path: Seq<char>,
    owners: Seq<Seq<char>>,
)
    ensures
        owner_path(path, owners) matches Some(owner) ==> owners.contains(owner) && tests_something(
            lowered(crate::text::slashed(path)),
        ) && tested_by(crate::context::scope_helpers::test_stem(path))(owner),
        owners.len() == 0 ==> owner_path(path, owners) is None,
        !tests_something(lowered(crate::text::slashed(path))) ==> owner_path(path, owners) is None,
{
    let p = tested_by(crate::context::scope_helpers::test_stem(path));
    tally_bounds(owners, p);
    let first = first_where(owners, p);
    if first < owners.len() {
        assert(owners.contains(owners[first]));
    }
}

/// A language is named by its name in any case; the short name of one is taken as it is
/// written.
pub proof fn languages_are_named_in_any_case(word: Seq<char>, language: Seq<char>)
    ensures
        language != "go"@ && lowered(word) == lowered(language) ==> names_language(word, language),
        language != "go"@ && names_language(word, language) ==> lowered(word) == lowered(language),
        names_language("Go"@, "go"@),
        names_language("golang"@, "go"@),
{
}

/// Registration is meant where a server protocol is named, or where something that can be
/// registered and the registering are.
pub proof fn registration_is_meant_by_its_words(words: Seq<Seq<char>>)
    ensures
        words.contains("mcp"@) ==> registration_intent(words),
        words.contains("tool"@) && words.contains("register"@) ==> registration_intent(words),
        words.contains("schema"@) && words.contains("server"@) ==> registration_intent(words),
        registration_intent(words) && !words.contains("mcp"@) ==> (words.contains("tool"@)
            || words.contains("tools"@) || words.contains("catalog"@) || words.contains("schema"@)
            || words.contains("schemas"@)),
{
}

} // verus!
