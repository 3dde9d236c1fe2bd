//! What is handed over.

use crate::context::diff_evidence::{
    all_related, draws, evidence_fault, found_in, found_step, found_upto, if_touched, owning,
    related_lt, relates, ChangedFileView, DiffEvidenceMode, DiffFacts,
};
use crate::handoff::{
    by_place, cut, cut_note, found_gaps, hands_over, note, omission, ordered_places, test_path,
    trims, HandoffProvenance, HandoffSource,
};
use crate::lists::{filter_map, filter_map_members};
use crate::model::{
    ContextRequest, ContextWorkflow, DiffEvidenceReceipt, DiffHunkEvidence, DiffScopeReceipt, HandoffManifest,
    HandoffManifestRequest, PlaceView, RelatedView,
};
use crate::ordered::{
    first_of, lemma_distinct_in_order, lemma_repeats_len, sorted_by, sorted_unique,
    sorting_keeps_elements, sorting_orders, sorting_out_repeats, tells_apart, text_lt, texts_are_in_line, views, weak_order,
};
use crate::text::{byte_len, byte_len_take, lowered, occurs, stands_at, texts, trimmed};
use vstd::prelude::*;

verus! {

proof fn places_are_in_line()
    ensures
        weak_order(by_place()),
        tells_apart(by_place()),
{
    let before = by_place();
    assert forall|a: PlaceView, b: PlaceView| #[trigger] before(a, b) implies !before(b, a) by {
        texts_are_in_line(a.path, b.path, a.path);
        texts_are_in_line(a.content_hash, b.content_hash, a.content_hash);
    }
    assert forall|a: PlaceView, b: PlaceView, c: PlaceView|
        !(#[trigger] before(a, b)) && !(#[trigger] before(b, c)) implies !before(a, c) by {
        texts_are_in_line(a.path, b.path, c.path);
        texts_are_in_line(a.content_hash, b.content_hash, c.content_hash);
        texts_are_in_line(b.path, a.path, c.path);
        texts_are_in_line(c.path, b.path, a.path);
    }
    assert forall|a: PlaceView, b: PlaceView|
        !(#[trigger] before(a, b)) && !before(b, a) implies a == b by {
        texts_are_in_line(a.path, b.path, a.path);
        texts_are_in_line(a.content_hash, b.content_hash, a.content_hash);
    }
}

/// A manifest lists every place of its evidence once; of more than a hundred places it
/// lists the first hundred in its order.
pub proof fn a_manifest_lists_its_evidence_once(
    request: ContextRequest,
    handoff: HandoffManifestRequest,
    source: HandoffSource<'_>,
    evidence: Seq<PlaceView>,
    provenance: HandoffProvenance,
    manifest: HandoffManifest,
    place: PlaceView,
)
    requires
        hands_over(request, handoff, source, evidence, provenance, manifest),
    ensures
        manifest.evidence@.len() <= 100,
        views(manifest.evidence@).no_duplicates(),
        views(manifest.evidence@).contains(place) ==> evidence.contains(place),
        evidence.contains(place) && evidence.len() <= 100 ==> views(manifest.evidence@).contains(
            place,
        ),
{
    places_are_in_line();
    sorting_out_repeats(evidence, by_place());
    sorting_keeps_elements(evidence, by_place());
    let all = ordered_places(evidence);
    let shown = views(manifest.evidence@);
    lemma_repeats_len(sorted_by(evidence, by_place()));
    assert(shown == cut(all, 100));
    if shown.contains(place) {
        let i = choose|i: int| 0 <= i < shown.len() && shown[i] == place;
        assert(all[i] == place);
        assert(all.contains(place));
    }
    assert forall|i: int, j: int| 0 <= i < shown.len() && 0 <= j < shown.len() && i != j implies
        shown[i] != shown[j] by {
        assert(all[i] != all[j]);
    }
}

/// A manifest lists its evidence in the order of the paths, then of the first lines, then
/// of the last.
pub proof fn a_manifest_lists_its_evidence_in_order(
    request: ContextRequest,
    handoff: HandoffManifestRequest,
    source: HandoffSource<'_>,
    evidence: Seq<PlaceView>,
    provenance: HandoffProvenance,
    manifest: HandoffManifest,
    i: int,
    j: int,
)
    requires
        hands_over(request, handoff, source, evidence, provenance, manifest),
        0 <= i < j < manifest.evidence@.len(),
    ensures
        ({
            let a = manifest.evidence@[i]@;
            let b = manifest.evidence@[j]@;
            &&& text_lt(a.path, b.path) || a.path == b.path && a.start_line <= b.start_line
            &&& a.path == b.path && a.start_line == b.start_line ==> a.end_line <= b.end_line
            &&& a.path == b.path && a.start_line == b.start_line && a.end_line == b.end_line
                ==> text_lt(a.content_hash, b.content_hash)
        }),
{
    let before = by_place();
    let all = ordered_places(evidence);
    let shown = views(manifest.evidence@);
    assert(shown.len() == manifest.evidence@.len());
    assert(shown == cut(all, 100));
    assert(shown[i] == all[i] && shown[j] == all[j]);
    assert(before(all[i], all[j])) by {
        places_are_in_line();
        sorting_orders(evidence, before);
        lemma_distinct_in_order(sorted_by(evidence, before), before);
    }
}

proof fn relationships_are_in_line()
    ensures
        weak_order(related_lt()),
        tells_apart(related_lt()),
{
    let before = related_lt();
    assert forall|a: RelatedView, b: RelatedView| #[trigger] before(a, b) implies !before(
        b,
        a,
    ) by {
        texts_are_in_line(a.changed_path, b.changed_path, a.changed_path);
        texts_are_in_line(a.related_path, b.related_path, a.related_path);
        texts_are_in_line(a.signal, b.signal, a.signal);
    }
    assert forall|a: RelatedView, b: RelatedView, c: RelatedView|
        !(#[trigger] before(a, b)) && !(#[trigger] before(b, c)) implies !before(a, c) by {
        texts_are_in_line(a.changed_path, b.changed_path, c.changed_path);
        texts_are_in_line(c.changed_path, b.changed_path, a.changed_path);
        texts_are_in_line(a.related_path, b.related_path, c.related_path);
        texts_are_in_line(c.related_path, b.related_path, a.related_path);
        texts_are_in_line(a.signal, b.signal, c.signal);
        texts_are_in_line(c.signal, b.signal, a.signal);
    }
    assert forall|a: RelatedView, b: RelatedView|
        !(#[trigger] before(a, b)) && !before(b, a) implies a == b by {
        texts_are_in_line(a.changed_path, b.changed_path, a.changed_path);
        texts_are_in_line(a.related_path, b.related_path, a.related_path);
        texts_are_in_line(a.signal, b.signal, a.signal);
    }
}

/// Related paths are told in the order of the changed paths, then of the related ones,
/// then of what relates them; none is told twice, and no more than sixty-four are told.
pub proof fn related_paths_are_told_in_order(
    request: ContextRequest,
    scope: DiffScopeReceipt,
    workflow: ContextWorkflow,
    plan: bool,
    mode: DiffEvidenceMode,
    facts: DiffFacts,
    evidence: DiffEvidenceReceipt,
    i: int,
    j: int,
)
    requires
        draws(request, scope, workflow, plan, mode, facts, evidence),
        0 <= i < j < evidence.related_paths@.len(),
    ensures
        evidence.related_paths@.len() <= 64,
        ({
            let a = evidence.related_paths@[i]@;
            let b = evidence.related_paths@[j]@;
            ||| text_lt(a.changed_path, b.changed_path)
            ||| a.changed_path == b.changed_path && text_lt(a.related_path, b.related_path)
            ||| a.changed_path == b.changed_path && a.related_path == b.related_path && text_lt(
                a.signal,
                b.signal,
            )
        }),
{
    let before = related_lt();
    let all = all_related(request, scope, facts);
    let told = views(evidence.related_paths@);
    assert(told.len() == evidence.related_paths@.len());
    assert(before(all[i], all[j])) by {
        relationships_are_in_line();
        let list = found_in(scope, facts).related + filter_map(
            first_of(texts(facts.indexed_paths@), 4096),
            owning(request),
        );
        sorting_orders(list, before);
        lemma_distinct_in_order(sorted_by(list, before), before);
    }
    assert(told[i] == all[i]);
    assert(told[j] == all[j]);
}

/// A manifest tells its gaps in ascending order while they are few; of more than
/// sixty-four it tells the first sixty-three and, as its last, how many it leaves out.
pub proof fn a_manifest_tells_its_gaps(
    request: ContextRequest,
    handoff: HandoffManifestRequest,
    source: HandoffSource<'_>,
    evidence: Seq<PlaceView>,
    provenance: HandoffProvenance,
    manifest: HandoffManifest,
)
    requires
        hands_over(request, handoff, source, evidence, provenance, manifest),
    ensures
        manifest.gaps@.len() <= 64,
        ({
            let found = sorted_unique(
                found_gaps(request, handoff, source, evidence, provenance),
            );
            let told = texts(manifest.gaps@);
            &&& found.len() <= 64 ==> told == found
            &&& found.len() > 64 ==> {
                &&& told.len() == 64
                &&& forall|i: int| 0 <= i < 63 ==> #[trigger] told[i] == found[i]
                &&& told[63] == omission("manifest gaps"@, (found.len() - 63) as nat)
            }
        }),
{
    let told = texts(manifest.gaps@);
    assert(told.len() == manifest.gaps@.len());
}

/// A gap that was found and is not cut off is told: an unknown commit, an unknown
/// working tree, and changed paths that were not all found.
pub proof fn what_is_unknown_is_a_gap(
    request: ContextRequest,
    handoff: HandoffManifestRequest,
    source: HandoffSource<'_>,
    evidence: Seq<PlaceView>,
    provenance: HandoffProvenance,
)
    ensures
        ({
            let gaps = found_gaps(request, handoff, source, evidence, provenance);
            &&& !provenance.commit_revision_available ==> gaps.contains(
                "Git commit identity was unavailable"@,
            )
            &&& provenance.working_tree_state is Unknown ==> gaps.contains(
                "Git working-tree state was unavailable"@,
            )
            &&& handoff.summary is None && byte_len(request.task@) > 512 ==> gaps.contains(
                "task summary truncated to 512 UTF-8 bytes"@,
            )
        }),
{
    let gaps = found_gaps(request, handoff, source, evidence, provenance);
    let a = cut_note(
        ordered_places(evidence).len(),
        100,
        "selected evidence"@,
    );
    let cut_task = handoff.summary is None && byte_len(request.task@) > 512;
    let b = note(cut_task, "task summary truncated to 512 UTF-8 bytes"@);
    let c = note(
        !provenance.commit_revision_available,
        "Git commit identity was unavailable"@,
    );
    if cut_task {
        assert(gaps[a.len() as int] == "task summary truncated to 512 UTF-8 bytes"@);
    }
    if !provenance.commit_revision_available {
        assert(gaps[(a.len() + b.len()) as int] == "Git commit identity was unavailable"@);
    }
    if provenance.working_tree_state is Unknown {
        assert(gaps[(a.len() + b.len() + c.len()) as int]
            == "Git working-tree state was unavailable"@);
    }
}

/// A manifest says what its caller said and what its source is: a summary as it was
/// given, else the beginning of the task; the revisions of the scope; and its changed
/// paths as complete only where all were found and none is cut off.
pub proof fn a_manifest_says_where_it_comes_from(
    request: ContextRequest,
    handoff: HandoffManifestRequest,
    source: HandoffSource<'_>,
    evidence: Seq<PlaceView>,
    provenance: HandoffProvenance,
    manifest: HandoffManifest,
)
    requires
        hands_over(request, handoff, source, evidence, provenance, manifest),
    ensures
        manifest.schema_version == 1,
        handoff.summary is Some ==> manifest.summary@ == (handoff.summary->0)@,
        handoff.summary is None ==> manifest.summary@.is_prefix_of(request.task@) && byte_len(
            manifest.summary@,
        ) <= 512,
        handoff.summary is None && byte_len(request.task@) <= 512 ==> manifest.summary@
            == request.task@,
        source.diff_scope is None ==> manifest.base_revision is None && manifest.head_revision
            is None,
        manifest.changed_paths@.len() <= 64,
        manifest.related_paths@.len() <= 64,
        manifest.test_paths@.len() <= 32,
        manifest.focus_paths@.len() <= 32,
        manifest.focus_symbols@.len() <= 32,
        manifest.held_fragment_hashes@.len() <= 64,
        source.diff_scope is None && provenance.provenance is None
            ==> !manifest.changed_paths_complete,
        source.diff_scope is Some && !(source.diff_scope->0).changed_paths_complete
            ==> !manifest.changed_paths_complete,
        source.diff_scope is Some && (source.diff_scope->0).changed_paths@.len() > 64
            ==> !manifest.changed_paths_complete && manifest.changed_paths_limit is Some,
        source.diff_scope is Some && (source.diff_scope->0).changed_paths_complete && (
        source.diff_scope->0).changed_paths@.len() <= 64 ==> manifest.changed_paths_complete,
{
    let summary = manifest.summary@;
    if handoff.summary is None && byte_len(request.task@) <= 512 && summary.len()
        < request.task@.len() {
        let n = (summary.len() + 1) as int;
        byte_len_take(request.task@, n, request.task@.len() as int);
        assert(request.task@.take(request.task@.len() as int) =~= request.task@);
    }
    assert(texts(manifest.changed_paths@).len() == manifest.changed_paths@.len());
    assert(texts(manifest.related_paths@).len() == manifest.related_paths@.len());
    assert(texts(manifest.test_paths@).len() == manifest.test_paths@.len());
    assert(texts(manifest.focus_paths@).len() == manifest.focus_paths@.len());
    assert(texts(manifest.focus_symbols@).len() == manifest.focus_symbols@.len());
    assert(texts(manifest.held_fragment_hashes@).len() == manifest.held_fragment_hashes@.len());
}

/// What a request hands over is trimmed: each note in its place.
pub proof fn notes_are_trimmed_in_their_places(
    request: HandoffManifestRequest,
    out: HandoffManifestRequest,
    i: int,
)
    requires
        trims(request, out),
    ensures
        out.assumptions@.len() == request.assumptions@.len(),
        out.validations@.len() == request.validations@.len(),
        0 <= i < request.assumptions@.len() ==> out.assumptions@[i]@ == trimmed(
            request.assumptions@[i]@,
        ),
        0 <= i < request.avoid_rules@.len() ==> out.avoid_rules@[i]@ == trimmed(
            request.avoid_rules@[i]@,
        ),
        0 <= i < request.open_questions@.len() ==> out.open_questions@[i]@ == trimmed(
            request.open_questions@[i]@,
        ),
        0 <= i < request.negative_evidence@.len() ==> out.negative_evidence@[i]@ == trimmed(
            request.negative_evidence@[i]@,
        ),
        0 <= i < request.validations@.len() ==> out.validations@[i].command@ == trimmed(
            request.validations@[i].command@,
        ),
{
    assert(texts(out.assumptions@).len() == request.assumptions@.len());
    assert(views(out.validations@).len() == request.validations@.len());
    assert(texts(out.avoid_rules@).len() == request.avoid_rules@.len());
    assert(texts(out.open_questions@).len() == request.open_questions@.len());
    assert(texts(out.negative_evidence@).len() == request.negative_evidence@.len());
    if 0 <= i < request.assumptions@.len() {
        assert(texts(out.assumptions@)[i] == trimmed(texts(request.assumptions@)[i]));
    }
    if 0 <= i < request.avoid_rules@.len() {
        assert(texts(out.avoid_rules@)[i] == trimmed(texts(request.avoid_rules@)[i]));
    }
    if 0 <= i < request.open_questions@.len() {
        assert(texts(out.open_questions@)[i] == trimmed(texts(request.open_questions@)[i]));
    }
    if 0 <= i < request.negative_evidence@.len() {
        assert(texts(out.negative_evidence@)[i] == trimmed(texts(request.negative_evidence@)[i]));
    }
    if 0 <= i < request.validations@.len() {
        assert(views(out.validations@)[i].command == trimmed(
            views(request.validations@)[i].command,
        ));
    }
}

/// A path in small letters is one of a test where it lies in a directory of tests or its
/// name is marked as one of a test.
pub proof fn test_paths_are_marked(path: Seq<char>, before: Seq<char>, after: Seq<char>)
    requires
        lowered(path) == path,
    ensures
        path == "tests/"@ + after ==> test_path(path),
        path == before + "/tests/"@ + after ==> test_path(path),
        path == before + "/test/"@ + after ==> test_path(path),
        path == before + "__tests__"@ + after ==> test_path(path),
        path == before + ".test."@ + after ==> test_path(path),
        path == before + ".spec."@ + after ==> test_path(path),
{
    stands_between(path, before, "/tests/"@, after);
    stands_between(path, before, "/test/"@, after);
    stands_between(path, before, "__tests__"@, after);
    stands_between(path, before, ".test."@, after);
    stands_between(path, before, ".spec."@, after);
    if path == "tests/"@ + after {
        assert(path.subrange(0, "tests/"@.len() as int) =~= "tests/"@);
    }
}

proof fn stands_between(path: Seq<char>, before: Seq<char>, mark: Seq<char>, after: Seq<char>)
    ensures
        path == before + mark + after ==> occurs(path, mark),
{
    if path == before + mark + after {
        assert(path.subrange(before.len() as int, (before.len() + mark.len()) as int) =~= mark);
        assert(stands_at(path, mark, before.len() as int));
    }
}

/// A changed path that is not indexed, or whose structure is not known in full, leaves a
/// gap that names it; what was found before stays found.
pub proof fn unknown_files_leave_gaps(
    hunks: Seq<DiffHunkEvidence>,
    paths: Seq<Seq<char>>,
    files: Seq<ChangedFileView>,
    upto: int,
    i: int,
)
    requires
        0 <= i < upto <= paths.len(),
        paths.len() <= files.len(),
    ensures
        !files[i].indexed ==> found_upto(hunks, paths, files, upto).gaps.contains(
            paths[i] + ":not_indexed_or_deleted"@,
        ),
        files[i].indexed && !files[i].structurally_complete ==> found_upto(
            hunks,
            paths,
            files,
            upto,
        ).gaps.contains(paths[i] + ":structural_coverage_incomplete"@),
        files[i].indexed && files[i].structurally_complete && files[i].symbols.len() == 0
            ==> found_upto(hunks, paths, files, upto).gaps.contains(
            paths[i] + ":no_indexed_definitions"@,
        ),
    decreases upto,
{
    let before = found_upto(hunks, paths, files, upto - 1);
    let now = found_upto(hunks, paths, files, upto);
    assert(now == found_step(before, hunks, paths[upto - 1], files[upto - 1]));
    if i < upto - 1 {
        unknown_files_leave_gaps(hunks, paths, files, upto - 1, i);
        assert forall|text: Seq<char>| before.gaps.contains(text) implies now.gaps.contains(
            text,
        ) by {
            let k = choose|k: int| 0 <= k < before.gaps.len() && before.gaps[k] == text;
            assert(now.gaps[k] == text);
        }
    } else {
        let file = files[i];
        let at = before.gaps.len() as int;
        if !file.indexed {
            assert(now.gaps[at] == paths[i] + ":not_indexed_or_deleted"@);
        } else if !file.structurally_complete {
            assert(now.gaps[at] == paths[i] + ":structural_coverage_incomplete"@);
        } else if file.symbols.len() == 0 {
            assert(filter_map(
                file.symbols,
                if_touched(hunks, paths[i]),
            ).len() == 0);
            assert(now.gaps[at] == paths[i] + ":no_indexed_definitions"@);
        }
    }
}

/// An importer of an indexed changed file other than the file itself is related to it,
/// and what is found before stays found.
pub proof fn importers_are_related(
    hunks: Seq<DiffHunkEvidence>,
    paths: Seq<Seq<char>>,
    files: Seq<ChangedFileView>,
    upto: int,
    i: int,
    k: int,
)
    requires
        0 <= i < upto <= paths.len(),
        paths.len() <= files.len(),
        files[i].indexed,
        0 <= k < files[i].importers.len(),
        files[i].importers[k] != paths[i],
    ensures
        found_upto(hunks, paths, files, upto).related.contains(
            (RelatedView {
                changed_path: paths[i],
                related_path: files[i].importers[k],
                signal: "importer"@,
            }),
        ),
    decreases upto,
{
    let told = RelatedView {
        changed_path: paths[i],
        related_path: files[i].importers[k],
        signal: "importer"@,
    };
    let before = found_upto(hunks, paths, files, upto - 1);
    let now = found_upto(hunks, paths, files, upto);
    assert(now == found_step(before, hunks, paths[upto - 1], files[upto - 1]));
    if i < upto - 1 {
        importers_are_related(hunks, paths, files, upto - 1, i, k);
        let n = choose|n: int| 0 <= n < before.related.len() && before.related[n] == told;
        assert(now.related[n] == told);
    } else {
        let f = relates(paths[i], "importer"@);
        filter_map_members(files[i].importers, f);
        let some = filter_map(files[i].importers, f);
        assert(f(files[i].importers[k]) == Some(told));
        assert(some.contains(told));
        let n = choose|n: int| 0 <= n < some.len() && some[n] == told;
        let at = now.related.len() - some.len() + n;
        assert(now.related[at] == told);
    }
}

/// Evidence of a change in a fixed range needs both of its revisions: with a base it needs
/// a head, and a review that is more than a plan needs a base.
pub proof fn a_fixed_range_needs_its_revisions(
    scope: DiffScopeReceipt,
    workflow: ContextWorkflow,
    plan: bool,
    mode: DiffEvidenceMode,
)
    ensures
        evidence_fault(scope, workflow, plan, mode) is Some <==> !(mode is WorkingTree) && (
        scope.base_revision is Some && scope.head_revision is None || scope.base_revision is None
            && workflow is Review && !plan),
{
}

} // verus!
