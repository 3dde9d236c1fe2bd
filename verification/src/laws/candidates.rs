//! Where candidates come from and how much they count.

use crate::context::candidates::draft::{
    answer_class, answer_evidence, best_score, hit_on, names_exactly, names_qualified, same_hit,
    exact_key, seed_first, seed_list, seed_of, seed_path, with_fusion, with_hit, CandidateView,
    FusionView, ImportSymbolView, SeedView,
};
use crate::context::candidates::graph::{
    change_points, import_candidate, pending_imports, requested_paths, with_importer,
    ImportExpansion, ImportTargetView,
};
use crate::context::candidates::lexical::ExcerptView;
use crate::context::candidates::workflow::{
    asks_for_files, barred, heavier, of_family, playing, workflow_candidate, workflow_lines,
    workflow_shown, workflow_tally, FileView, WorkflowFileView,
};
use crate::context::facets::{QueryView, Vocabulary};
use crate::context::scope_helpers::{owned_paths, path_role};
use crate::lists::{filter_map, filter_map_members, first_where, tally, tally_bounds};
use crate::model::{ContextRequest, ContextWorkflow};
use crate::ordered::{
    first_of, in_order, sorted_by, sorted_unique, sorting_keeps_elements, sorting_orders, text_lt, texts_are_in_line, the_first_of_a_sorted_list, weak_order,
};
use vstd::prelude::*;

verus! {

/// A query that counts for less than sixty-five leaves no hit. Any other leaves one for
/// its path and key that counts for no less than it, by weight over rank; hits on other
/// paths, or of other keys, stay as they are, and none is lost.
pub proof fn the_best_hit_is_kept(
    fusion: Seq<FusionView>,
    path: Seq<char>,
    key: Seq<char>,
    weight: u32,
    rank: u32,
)
    ensures
        ({
            let out = with_hit(fusion, path, key, weight, rank as usize);
            &&& weight < 65 ==> out == fusion
            &&& weight >= 65 ==> exists|i: int|
                {
                    &&& 0 <= i < out.len()
                    &&& (#[trigger] out[i]).path == path
                    &&& out[i].key == key
                    &&& out[i].weight * (61 + rank) >= weight * (61 + out[i].rank)
                }
            &&& out.len() >= fusion.len()
            &&& out.len() <= fusion.len() + 1
            &&& forall|i: int|
                0 <= i < fusion.len() ==> {
                    &&& (#[trigger] out[i]).path == fusion[i].path
                    &&& out[i].key == fusion[i].key
                    &&& fusion[i].path != path || fusion[i].key != key ==> out[i] == fusion[i]
                }
        }),
{
    let p = same_hit(path, key);
    tally_bounds(fusion, p);
    let at = first_where(fusion, p);
    let out = with_hit(fusion, path, key, weight, rank as usize);
    if weight >= 65 {
        if at < fusion.len() {
            assert(p(fusion[at]));
            assert(out[at].path == path && out[at].key == key);
        } else {
            assert(out[at].path == path && out[at].key == key);
        }
    }
}

/// A candidate is fused only where more than one query hit its path, and then with all
/// hits on its path and no others.
pub proof fn a_candidate_is_fused_by_several_queries(
    candidate: CandidateView,
    fusion: Seq<FusionView>,
)
    requires
        candidate.fused.len() == 0,
    ensures
        ({
            let out = with_fusion(candidate, fusion);
            let hits = tally(fusion, |hit: FusionView| hit.path == candidate.path);
            &&& out.fused.len() > 0 ==> out.fused.len() > 1 && out.match_kinds.contains(
                "multi-query"@,
            )
            &&& forall|i: int|
                0 <= i < out.fused.len() ==> (#[trigger] out.fused[i]).path == candidate.path
                    && fusion.contains(out.fused[i])
            &&& out.fused.len() > 0 ==> forall|k: int|
                0 <= k < fusion.len() && (#[trigger] fusion[k]).path == candidate.path
                    ==> out.fused.contains(fusion[k])
            &&& out.fused.len() == 0 ==> out == candidate
            &&& out.path == candidate.path
            &&& out.content == candidate.content
        }),
{
    let f = hit_on(candidate.path);
    filter_map_members(fusion, f);
    let out = with_fusion(candidate, fusion);
    let hits = filter_map(fusion, f);
    if hits.len() > 1 {
        if !candidate.match_kinds.contains("multi-query"@) {
            assert(out.match_kinds[candidate.match_kinds.len() as int] == "multi-query"@);
        }
        assert forall|i: int| 0 <= i < out.fused.len() implies (#[trigger] out.fused[i]).path
            == candidate.path && fusion.contains(out.fused[i]) by {
            let k = choose|k: int| 0 <= k < fusion.len() && f(#[trigger] fusion[k]) == Some(hits[i]);
            assert(fusion[k] == out.fused[i]);
        }
        assert forall|k: int|
            0 <= k < fusion.len() && (#[trigger] fusion[k]).path
                == candidate.path implies out.fused.contains(fusion[k]) by {
            assert(f(fusion[k]) is Some);
        }
    }
}

/// A symbol that answers a query counts a hundred for its exact name and a hundred and
/// fifty for its qualified one, and a qualified name answers better than an exact one.
pub proof fn answers_count_by_how_they_name(
    symbol: ImportSymbolView,
    query: QueryView,
    vocabulary: Vocabulary,
)
    ensures
        names_exactly(symbol, query) && names_qualified(symbol, query, vocabulary)
            ==> answer_evidence(symbol, query, vocabulary) == 250 && answer_class(
            symbol,
            query,
            vocabulary,
        ) == 3,
        !names_exactly(symbol, query) && names_qualified(symbol, query, vocabulary)
            ==> answer_evidence(symbol, query, vocabulary) == 150 && answer_class(
            symbol,
            query,
            vocabulary,
        ) == 2,
        names_exactly(symbol, query) && !names_qualified(symbol, query, vocabulary)
            ==> answer_evidence(symbol, query, vocabulary) == 100 && answer_class(
            symbol,
            query,
            vocabulary,
        ) == 1,
        !names_exactly(symbol, query) && !names_qualified(symbol, query, vocabulary)
            ==> answer_evidence(symbol, query, vocabulary) == 0 && answer_class(
            symbol,
            query,
            vocabulary,
        ) == 0,
{
}

/// The score of a path is the highest of its seeds, and no lower than any.
pub proof fn a_path_has_its_best_score(
    candidates: Seq<CandidateView>,
    scores: Seq<u64>,
    path: Seq<char>,
    upto: int,
)
    requires
        0 <= upto <= candidates.len(),
        scores.len() == candidates.len(),
    ensures
        forall|i: int|
            0 <= i < upto && (#[trigger] candidates[i]).path == path
                && candidates[i].concept_weight >= 65 && candidates[i].concepts.len() > 0
                ==> best_score(candidates, scores, path, upto) >= scores[i],
        best_score(candidates, scores, path, upto) > 0 ==> exists|i: int|
            0 <= i < upto && (#[trigger] candidates[i]).path == path && candidates[i].concept_weight
                >= 65 && scores[i] == best_score(candidates, scores, path, upto),
    decreases upto,
{
    if upto > 0 {
        a_path_has_its_best_score(candidates, scores, path, upto - 1);
        let before = best_score(candidates, scores, path, upto - 1);
        let after = best_score(candidates, scores, path, upto);
        if after > 0 {
            if after == before {
                let i = choose|i: int|
                    0 <= i < upto - 1 && (#[trigger] candidates[i]).path == path
                        && candidates[i].concept_weight >= 65 && scores[i] == before;
                assert(candidates[i].path == path);
            } else {
                assert(candidates[upto - 1].path == path);
            }
        }
    }
}

proof fn seeds_order()
    ensures
        weak_order(seed_first()),
{
    let before = seed_first();
    assert forall|a: SeedView, b: SeedView| #[trigger] before(a, b) implies !before(b, a) by {
        texts_are_in_line(a.path, b.path, a.path);
    }
    assert forall|a: SeedView, b: SeedView, c: SeedView|
        !(#[trigger] before(a, b)) && !(#[trigger] before(b, c)) implies !before(a, c) by {
        texts_are_in_line(a.path, b.path, c.path);
    }
}

/// Imports are looked for from the best path on, equal ones by name; where the task
/// names exactly one thing, from none.
pub proof fn seeds_come_best_first(
    candidates: Seq<CandidateView>,
    queries: Seq<QueryView>,
    scores: Seq<u64>,
)
    ensures
        sorted_unique(filter_map(queries, exact_key())).len() == 1 ==> seed_list(
            candidates,
            queries,
            scores,
        ).len() == 0,
        sorted_unique(filter_map(queries, exact_key())).len() != 1 ==> seed_list(
            candidates,
            queries,
            scores,
        ).len() == sorted_unique(filter_map(candidates, seed_path())).len(),
        forall|i: int, j: int|
            0 <= i < j < seed_list(candidates, queries, scores).len() ==> {
                let a = #[trigger] seed_list(candidates, queries, scores)[i];
                let b = #[trigger] seed_list(candidates, queries, scores)[j];
                &&& a.score >= b.score
                &&& a.score == b.score ==> !text_lt(b.path, a.path)
            },
        requested_paths(seed_list(candidates, queries, scores)).len() <= 24,
        forall|i: int|
            0 <= i < requested_paths(seed_list(candidates, queries, scores)).len()
                ==> #[trigger] requested_paths(seed_list(candidates, queries, scores))[i]
                == seed_list(candidates, queries, scores)[i].path,
{
    let paths = sorted_unique(filter_map(candidates, seed_path()));
    let all = Seq::new(paths.len(), |i: int| seed_of(candidates, scores, paths[i]));
    let out = seed_list(candidates, queries, scores);
    sorting_keeps_elements(all, seed_first());
    assert(in_order(sorted_by(all, seed_first()), seed_first())) by {
        seeds_order();
        sorting_orders(all, seed_first());
    }
    assert forall|i: int, j: int| 0 <= i < j < out.len() implies {
        let a = #[trigger] out[i];
        let b = #[trigger] out[j];
        &&& a.score >= b.score
        &&& a.score == b.score ==> !text_lt(b.path, a.path)
    } by {
        assert(!seed_first()(out[j], out[i]));
    }
}

/// A file counts a hundred for having changed since the generation that the caller
/// knows, and a hundred for being among the changed paths; neither where it is unknown.
pub proof fn a_changed_file_counts(
    file_generation: Option<u64>,
    path: Seq<char>,
    changed_paths: Seq<Seq<char>>,
    prior_generation: Option<u64>,
)
    ensures
        ({
            let newer = prior_generation is Some && file_generation is Some && file_generation->0
                > prior_generation->0;
            let points = change_points(file_generation, path, changed_paths, prior_generation);
            &&& points == 200 <==> newer && changed_paths.contains(path)
            &&& points == 0 <==> !newer && !changed_paths.contains(path)
            &&& points == 100 <==> newer != changed_paths.contains(path)
        }),
{
}

/// Only allowed targets of known seeds are followed, each at most once and in order.
pub proof fn imports_are_followed_where_allowed(
    expansion: ImportExpansion<'_>,
    seeds: Seq<SeedView>,
    targets: Seq<ImportTargetView>,
    upto: int,
)
    requires
        0 <= upto <= targets.len() <= usize::MAX,
    ensures
        forall|i: int|
            0 <= i < pending_imports(expansion, seeds, targets, upto).len() ==> {
                let item = #[trigger] pending_imports(expansion, seeds, targets, upto)[i];
                &&& item.target < upto
                &&& targets[item.target as int].allowed
                &&& targets[item.target as int].seed_index < seeds.len()
            },
        forall|i: int, j: int|
            0 <= i < j < pending_imports(expansion, seeds, targets, upto).len() ==> (
            #[trigger] pending_imports(expansion, seeds, targets, upto)[i]).target < (
            #[trigger] pending_imports(expansion, seeds, targets, upto)[j]).target,
    decreases upto,
{
    if upto > 0 {
        imports_are_followed_where_allowed(expansion, seeds, targets, upto - 1);
        let before = pending_imports(expansion, seeds, targets, upto - 1);
        let out = pending_imports(expansion, seeds, targets, upto);
        assert forall|i: int| 0 <= i < out.len() implies {
            let item = #[trigger] out[i];
            &&& item.target < upto
            &&& targets[item.target as int].allowed
            &&& targets[item.target as int].seed_index < seeds.len()
        } by {
            if i < before.len() {
                assert(out[i] == before[i]);
            }
        }
        assert forall|i: int, j: int| 0 <= i < j < out.len() implies (#[trigger] out[i]).target < (
        #[trigger] out[j]).target by {
            assert(out[i] == before[i]);
            if j < before.len() {
                assert(out[j] == before[j]);
            }
        }
    }
}

/// A candidate that imports a changed file is told so once and counts at least a
/// hundred for it; any other stays as it is.
pub proof fn importers_are_told(candidate: CandidateView, importers: Seq<Seq<char>>)
    ensures
        ({
            let out = with_importer(candidate, importers);
            &&& !importers.contains(candidate.path) ==> out == candidate
            &&& importers.contains(candidate.path) ==> {
                &&& out.import_boost >= 100
                &&& out.import_boost >= candidate.import_boost
                &&& out.match_kinds.contains("reverse-import"@)
                &&& candidate.match_kinds.contains("reverse-import"@) ==> out.match_kinds
                    == candidate.match_kinds
                &&& !candidate.match_kinds.contains("reverse-import"@) ==> out.match_kinds
                    == candidate.match_kinds.push("reverse-import"@)
                &&& out.content == candidate.content
                &&& out.path == candidate.path
            }
        }),
{
    let out = with_importer(candidate, importers);
    if importers.contains(candidate.path) && !candidate.match_kinds.contains("reverse-import"@) {
        assert(out.match_kinds[candidate.match_kinds.len() as int] == "reverse-import"@);
    }
}

/// A symbol of an imported file is a candidate with the lines and the text of its
/// excerpt, found as an import and as a symbol.
pub proof fn an_imported_symbol_is_a_candidate(
    expansion: ImportExpansion<'_>,
    target: ImportTargetView,
    symbol: ImportSymbolView,
    query: QueryView,
    evidence: u32,
    excerpt: ExcerptView,
)
    ensures
        ({
            let out = import_candidate(expansion, target, symbol, query, evidence, excerpt);
            &&& out.path == target.path
            &&& out.start_line == excerpt.start_line
            &&& out.end_line == excerpt.end_line
            &&& out.content == excerpt.content
            &&& out.match_kinds == seq!["import"@, "symbol"@]
            &&& out.concepts == seq![query.fusion_key]
            &&& out.concept_weight == query.concept_weight
            &&& out.symbol_name == Some(symbol.name)
            &&& out.exact == evidence
            &&& out.symbol == 100
            &&& out.import_boost == 100
            &&& out.reference == 0
        }),
{
    let out = import_candidate(expansion, target, symbol, query, evidence, excerpt);
    assert(out.match_kinds =~= seq!["import"@, "symbol"@]);
    assert(out.concepts =~= seq![query.fusion_key]);
}

/// A file plays a part in a workflow exactly where its path has a role and is allowed;
/// one whose path has a role and is not allowed is barred.
pub proof fn files_with_roles_play_or_are_barred(
    request: ContextRequest,
    files: Seq<FileView>,
    allowed: Seq<bool>,
    upto: int,
)
    requires
        0 <= upto <= files.len(),
        allowed.len() == files.len(),
    ensures
        forall|i: int|
            0 <= i < upto && allowed[i] && path_role(
                (#[trigger] files[i]).path,
                owned_paths(request),
            ) is Some ==> playing(request, files, allowed, upto).contains(
                WorkflowFileView {
                    id: files[i].id,
                    path: files[i].path,
                    score: (path_role(files[i].path, owned_paths(request))->0).0,
                    family: (path_role(files[i].path, owned_paths(request))->0).1,
                },
            ),
        forall|i: int|
            0 <= i < upto && !allowed[i] && path_role(
                (#[trigger] files[i]).path,
                owned_paths(request),
            ) is Some ==> barred(request, files, allowed, upto).contains(files[i].path),
        playing(request, files, allowed, upto).len() + barred(request, files, allowed, upto).len()
            <= upto,
        forall|j: int|
            0 <= j < playing(request, files, allowed, upto).len() ==> plays_allowed(
                request,
                files,
                allowed,
                #[trigger] playing(request, files, allowed, upto)[j],
            ),
    decreases upto,
{
    if upto > 0 {
        files_with_roles_play_or_are_barred(request, files, allowed, upto - 1);
        let before = playing(request, files, allowed, upto - 1);
        let out = playing(request, files, allowed, upto);
        let kept = barred(request, files, allowed, upto - 1);
        let away = barred(request, files, allowed, upto);
        assert forall|x: WorkflowFileView| #[trigger] before.contains(x) implies out.contains(x) by {
            let k = choose|k: int| 0 <= k < before.len() && before[k] == x;
            assert(out[k] == x);
        }
        assert forall|x: Seq<char>| #[trigger] kept.contains(x) implies away.contains(x) by {
            let k = choose|k: int| 0 <= k < kept.len() && kept[k] == x;
            assert(away[k] == x);
        }
        if path_role(files[upto - 1].path, owned_paths(request)) is Some {
            if allowed[upto - 1] {
                assert(out[before.len() as int] == out.last());
                assert(plays_allowed(request, files, allowed, out.last())) by {
                    assert(files[upto - 1].path == out.last().path);
                }
            } else {
                assert(away[kept.len() as int] == files[upto - 1].path);
            }
        }
        assert forall|j: int| 0 <= j < out.len() implies plays_allowed(
            request,
            files,
            allowed,
            #[trigger] out[j],
        ) by {
            if j < before.len() {
                assert(out[j] == before[j]);
            }
        }
    }
}

/// Whether a file that plays a part is allowed and has its own role.
pub open spec fn plays_allowed(
    request: ContextRequest,
    files: Seq<FileView>,
    allowed: Seq<bool>,
    file: WorkflowFileView,
) -> bool {
    exists|i: int|
        {
            &&& 0 <= i < files.len()
            &&& allowed[i]
            &&& (#[trigger] files[i]).path == file.path
            &&& files[i].id == file.id
            &&& path_role(files[i].path, owned_paths(request)) == Some((file.score, file.family))
        }
}

/// A workflow counts its files by family, and misses exactly the families of which it
/// has none.
pub proof fn a_workflow_misses_what_it_has_none_of(files: Seq<WorkflowFileView>, scan_cut: bool)
    requires
        files.len() <= usize::MAX,
    ensures
        ({
            let out = workflow_tally(files, scan_cut);
            &&& out.guidance_candidates == tally(files, of_family("guidance"@))
            &&& out.template_candidates == tally(files, of_family("template"@))
            &&& out.validation_candidates == tally(files, of_family("validation"@))
            &&& out.owner_test_candidates == tally(files, of_family("owner_test"@))
            &&& out.missing_families.len() == (if out.guidance_candidates == 0 { 1int } else { 0 })
                + (if out.template_candidates == 0 { 1int } else { 0 }) + (
            if out.validation_candidates == 0 { 1int } else { 0 }) + (if out.owner_test_candidates
                == 0 { 1int } else { 0 }) + (if scan_cut { 1int } else { 0 })
            &&& out.guidance_candidates == 0 ==> out.missing_families[0] == "guidance"@
            &&& scan_cut ==> out.missing_families.last() == "repository_scan_truncated"@
            &&& !scan_cut && out.owner_test_candidates == 0 ==> out.missing_families.last()
                == "owner_test"@
            &&& out.guidance_candidates > 0 && out.template_candidates == 0
                ==> out.missing_families[0] == "template"@
            &&& out.guidance_candidates > 0 && out.template_candidates > 0
                && out.validation_candidates == 0 ==> out.missing_families[0] == "validation"@
        }),
{
    tally_bounds(files, of_family("guidance"@));
    tally_bounds(files, of_family("template"@));
    tally_bounds(files, of_family("validation"@));
    tally_bounds(files, of_family("owner_test"@));
}

proof fn workflow_files_order()
    ensures
        weak_order(heavier()),
{
    let before = heavier();
    assert forall|a: WorkflowFileView, b: WorkflowFileView| #[trigger] before(a, b) implies !before(
        b,
        a,
    ) by {
        texts_are_in_line(a.path, b.path, a.path);
    }
    assert forall|a: WorkflowFileView, b: WorkflowFileView, c: WorkflowFileView|
        !(#[trigger] before(a, b)) && !(#[trigger] before(b, c)) implies !before(a, c) by {
        texts_are_in_line(a.path, b.path, c.path);
    }
}

spec fn heaviest_first(files: Seq<WorkflowFileView>, out: Seq<WorkflowFileView>) -> bool {
    let before = heavier();
    &&& out.len() <= 24
    &&& files.len() <= 24 ==> out.len() == files.len()
    &&& forall|i: int, j: int|
        0 <= i < j < out.len() ==> !before(#[trigger] out[j], #[trigger] out[i])
    &&& forall|k: int, i: int|
        0 <= k < files.len() && 0 <= i < out.len() && !out.contains(#[trigger] files[k])
            ==> !before(files[k], #[trigger] out[i])
}

/// A workflow shows its heaviest files, at most twenty-four, the heaviest first and
/// equal ones by path; one that is not shown weighs no more than any that is.
pub proof fn the_heaviest_files_are_shown(files: Seq<WorkflowFileView>)
    ensures
        workflow_shown(files).len() <= 24,
        files.len() <= 24 ==> workflow_shown(files).len() == files.len(),
        forall|i: int, j: int|
            0 <= i < j < workflow_shown(files).len() ==> {
                let a = #[trigger] workflow_shown(files)[i];
                let b = #[trigger] workflow_shown(files)[j];
                &&& a.score >= b.score
                &&& a.score == b.score ==> !text_lt(b.path, a.path)
            },
        forall|k: int, i: int|
            0 <= k < files.len() && 0 <= i < workflow_shown(files).len() && !workflow_shown(
                files,
            ).contains(#[trigger] files[k]) ==> files[k].score <= (#[trigger] workflow_shown(
                files,
            )[i]).score,
{
    let out = workflow_shown(files);
    let before = heavier();
    assert(heaviest_first(files, out)) by {
        workflow_files_order();
        the_first_of_a_sorted_list(files, before, 24);
        assert(out == first_of(sorted_by(files, before), 24));
        assert forall|k: int, i: int|
            0 <= k < files.len() && 0 <= i < out.len() && !out.contains(
                #[trigger] files[k],
            ) implies !before(files[k], #[trigger] out[i]) by {
            assert(files.contains(files[k]));
        }
    }
    assert forall|i: int, j: int| 0 <= i < j < out.len() implies {
        let a = #[trigger] out[i];
        let b = #[trigger] out[j];
        &&& a.score >= b.score
        &&& a.score == b.score ==> !text_lt(b.path, a.path)
    } by {
        assert(!before(out[j], out[i]));
    }
}

/// Only contributions and reviews ask for the files of a workflow. A file of a workflow
/// is shown from its first line on, eighty lines at most, and counts by its score.
pub proof fn workflow_files_are_shown_from_their_beginning(
    workflow: ContextWorkflow,
    files: Seq<WorkflowFileView>,
    excerpt: ExcerptView,
    i: int,
)
    requires
        0 <= i < files.len(),
    ensures
        asks_for_files(workflow) <==> workflow is Contribution || workflow is Review,
        workflow_lines(files).len() == files.len(),
        workflow_lines(files)[i].file_id == files[i].id,
        workflow_lines(files)[i].desired_start_line == 1,
        workflow_lines(files)[i].desired_end_line == 80,
        workflow_lines(files)[i].max_lines == 80,
        workflow_lines(files)[i].required_start_line == 1,
        workflow_lines(files)[i].required_end_line == 1,
        workflow_candidate(files[i], excerpt).path == files[i].path,
        workflow_candidate(files[i], excerpt).content == excerpt.content,
        workflow_candidate(files[i], excerpt).start_line == excerpt.start_line,
        workflow_candidate(files[i], excerpt).end_line == excerpt.end_line,
        workflow_candidate(files[i], excerpt).focus_boost == files[i].score,
        workflow_candidate(files[i], excerpt).path_score == files[i].score,
        workflow_candidate(files[i], excerpt).match_kinds == seq!["workflow_"@ + files[i].family],
{
    assert(workflow_candidate(files[i], excerpt).match_kinds =~= seq![
        "workflow_"@ + files[i].family,
    ]);
}

} // verus!
