//! The evidence that a changed scope gives: symbols, related paths and gaps.

use crate::change_receipt::{
    all_owner_tests, classifies, classify_revision_changes, owner_gap, owner_test_coverage,
    push_fixed, push_remark, GitBlobBatch, RevisionFile,
};
use crate::context::policy::ContextPolicy;
use crate::context::scope_helpers::{owned_paths, owner_path, owner_test_changed_path};
use crate::error::{Error, Fault};
use crate::handoff::note;
use crate::lists::{filter_map, filter_map_push, flat_map, flat_map_push};
use crate::model::{
    ContextRequest, ContextWorkflow, DiffEvidenceReceipt, DiffHunkEvidence, DiffRelatedPath,
    DiffScopeReceipt, DiffSemanticChangeReceipt, DiffSymbolEvidence, EvidenceView, RelatedView,
};
use crate::ordered::{
    first_of, remove_repeats, sort_by, sort_unique_texts, sorted_by, sorted_unique, text_lt,
    text_precedes, views, without_repeats,
};
use crate::response::SemanticView;
use crate::services::Services;
use crate::text::{appended, copy_text, same_text, texts};
use vstd::prelude::*;

verus! {

/// The most changed hunks, and changed symbols, that are listed.
pub const MAX_DIFF_EVIDENCE_SYMBOLS: usize = 64;

/// The most related paths that are listed.
pub const MAX_DIFF_EVIDENCE_RELATIONSHIPS: usize = 64;

/// The most changed paths that are looked at.
pub const MAX_DIFF_EVIDENCE_PATHS: usize = 64;

/// The most indexed files that are looked at for owner tests.
pub const MAX_OWNER_TEST_SCAN_FILES: usize = 4096;

/// The most references of one changed symbol that are followed.
pub const MAX_REFERENCES_PER_CHANGED_SYMBOL: usize = 8;

/// What a changed scope is taken against.
#[derive(Debug, Clone, Copy, PartialEq, Eq, Structural)]
pub enum DiffEvidenceMode {
    WorkingTree,
    ImmutableRange,
}

/// A symbol of a changed file, with the paths that refer to it.
#[derive(Debug)]
pub struct ChangedSymbol {
    pub name: String,
    pub kind: String,
    pub start_line: usize,
    pub end_line: usize,
    pub references: Vec<String>,
}

/// What a [`ChangedSymbol`] says.
pub struct ChangedSymbolView {
    pub name: Seq<char>,
    pub kind: Seq<char>,
    pub start_line: usize,
    pub end_line: usize,
    pub references: Seq<Seq<char>>,
}

impl View for ChangedSymbol {
    type V = ChangedSymbolView;

    open spec fn view(&self) -> ChangedSymbolView {
        ChangedSymbolView {
            name: self.name@,
            kind: self.kind@,
            start_line: self.start_line,
            end_line: self.end_line,
            references: texts(self.references@),
        }
    }
}

/// What the index knows of a changed path.
#[derive(Debug)]
pub struct ChangedFile {
    pub indexed: bool,
    pub structurally_complete: bool,
    pub symbols: Vec<ChangedSymbol>,
    pub importers: Vec<String>,
}

/// What a [`ChangedFile`] says.
pub struct ChangedFileView {
    pub indexed: bool,
    pub structurally_complete: bool,
    pub symbols: Seq<ChangedSymbolView>,
    pub importers: Seq<Seq<char>>,
}

impl View for ChangedFile {
    type V = ChangedFileView;

    open spec fn view(&self) -> ChangedFileView {
        ChangedFileView {
            indexed: self.indexed,
            structurally_complete: self.structurally_complete,
            symbols: views(self.symbols@),
            importers: texts(self.importers@),
        }
    }
}

/// What evidence is drawn from: the hunks and revisions that git tells, the
/// changed files in the order of the scope's paths, and every indexed path.
#[derive(Debug)]
pub struct DiffFacts {
    pub hunks: Vec<DiffHunkEvidence>,
    pub files: Vec<ChangedFile>,
    pub indexed_paths: Vec<String>,
    pub base_blobs: Option<GitBlobBatch>,
    pub head_blobs: Option<GitBlobBatch>,
    pub revisions: Vec<RevisionFile>,
}

/// Whether a hunk reaches into a symbol.
pub open spec fn overlaps(hunk: DiffHunkEvidence, symbol: ChangedSymbolView) -> bool {
    &&& hunk.start_line <= hunk.end_line
    &&& symbol.start_line <= hunk.end_line
    &&& symbol.end_line >= hunk.start_line
}

/// Whether a symbol of a path counts as changed: a hunk of the path reaches into
/// it, or the path has no hunk.
pub open spec fn touched(
    hunks: Seq<DiffHunkEvidence>,
    path: Seq<char>,
    symbol: ChangedSymbolView,
) -> bool {
    ||| forall|i: int| 0 <= i < hunks.len() ==> (#[trigger] hunks[i]).path@ != path
    ||| exists|i: int|
        0 <= i < hunks.len() && (#[trigger] hunks[i]).path@ == path && overlaps(hunks[i], symbol)
}

/// A symbol of a path, where it counts as changed.
pub open spec fn if_touched(hunks: Seq<DiffHunkEvidence>, path: Seq<char>) -> spec_fn(
    ChangedSymbolView,
) -> Option<ChangedSymbolView> {
    |symbol: ChangedSymbolView|
        if touched(hunks, path, symbol) {
            Some(symbol)
        } else {
            None
        }
}

/// A path that relates to a changed path, where it is another one.
pub open spec fn relates(path: Seq<char>, signal: Seq<char>) -> spec_fn(Seq<char>) -> Option<
    RelatedView,
> {
    |other: Seq<char>|
        if other != path {
            Some(RelatedView { changed_path: path, related_path: other, signal })
        } else {
            None
        }
}

/// The paths that refer to a changed symbol.
pub open spec fn referring(path: Seq<char>) -> spec_fn(ChangedSymbolView) -> Seq<RelatedView> {
    |symbol: ChangedSymbolView|
        filter_map(
            first_of(symbol.references, MAX_REFERENCES_PER_CHANGED_SYMBOL as int),
            relates(path, "reference"@),
        )
}

/// The gap of a symbol with more references than are followed.
pub open spec fn reference_gap(path: Seq<char>) -> spec_fn(ChangedSymbolView) -> Option<Seq<char>> {
    |symbol: ChangedSymbolView|
        if symbol.references.len() > MAX_REFERENCES_PER_CHANGED_SYMBOL {
            Some(path + ":"@ + symbol.name + ":reference_evidence_truncated"@)
        } else {
            None
        }
}

/// A changed symbol as evidence.
pub open spec fn as_evidence(path: Seq<char>, symbol: ChangedSymbolView) -> EvidenceView {
    EvidenceView {
        path,
        name: symbol.name,
        kind: symbol.kind,
        start_line: symbol.start_line,
        end_line: symbol.end_line,
    }
}

/// What was found on the first changed paths.
pub struct FoundView {
    pub symbols: Seq<EvidenceView>,
    pub related: Seq<RelatedView>,
    pub gaps: Seq<Seq<char>>,
}

/// The symbols of a changed file that are listed, where `listed` already are.
pub open spec fn listed_symbols(
    hunks: Seq<DiffHunkEvidence>,
    path: Seq<char>,
    file: ChangedFileView,
    listed: nat,
) -> Seq<ChangedSymbolView> {
    first_of(
        filter_map(file.symbols, if_touched(hunks, path)),
        MAX_DIFF_EVIDENCE_SYMBOLS - listed,
    )
}

/// What one more changed path adds.
pub open spec fn found_step(
    found: FoundView,
    hunks: Seq<DiffHunkEvidence>,
    path: Seq<char>,
    file: ChangedFileView,
) -> FoundView {
    let changed = filter_map(file.symbols, if_touched(hunks, path));
    let listed = listed_symbols(hunks, path, file, found.symbols.len());
    if !file.indexed {
        FoundView { gaps: found.gaps + seq![path + ":not_indexed_or_deleted"@], ..found }
    } else {
        FoundView {
            symbols: found.symbols + Seq::new(
                listed.len(),
                |i: int| as_evidence(path, listed[i]),
            ),
            related: found.related + flat_map(listed, referring(path)) + filter_map(
                file.importers,
                relates(path, "importer"@),
            ),
            gaps: found.gaps + note(
                !file.structurally_complete,
                path + ":structural_coverage_incomplete"@,
            ) + note(
                changed.len() == 0 && file.structurally_complete,
                path + ":no_indexed_definitions"@,
            ) + filter_map(listed, reference_gap(path)) + note(
                changed.len() > listed.len(),
                "changed_symbol_evidence_truncated"@,
            ),
        }
    }
}

/// What was found on the first `upto` changed paths. A path with no file is not
/// indexed.
pub open spec fn found_upto(
    hunks: Seq<DiffHunkEvidence>,
    paths: Seq<Seq<char>>,
    files: Seq<ChangedFileView>,
    upto: int,
) -> FoundView
    decreases upto,
{
    if upto <= 0 || upto > paths.len() {
        FoundView { symbols: Seq::empty(), related: Seq::empty(), gaps: Seq::empty() }
    } else {
        found_step(
            found_upto(hunks, paths, files, upto - 1),
            hunks,
            paths[upto - 1],
            if upto <= files.len() {
                files[upto - 1]
            } else {
                no_file()
            },
        )
    }
}

/// A path that is not indexed.
pub open spec fn no_file() -> ChangedFileView {
    ChangedFileView {
        indexed: false,
        structurally_complete: false,
        symbols: Seq::empty(),
        importers: Seq::empty(),
    }
}

/// The changed path that an indexed path tests.
pub open spec fn owning(request: ContextRequest) -> spec_fn(Seq<char>) -> Option<RelatedView> {
    |path: Seq<char>|
        match owner_path(path, owned_paths(request)) {
            Some(changed_path) => Some(
                RelatedView { changed_path, related_path: path, signal: "test_name_match"@ },
            ),
            None => None,
        }
}

/// Whether one related path comes strictly before another.
pub open spec fn related_lt() -> spec_fn(RelatedView, RelatedView) -> bool {
    |a: RelatedView, b: RelatedView|
        {
            ||| text_lt(a.changed_path, b.changed_path)
            ||| a.changed_path == b.changed_path && text_lt(a.related_path, b.related_path)
            ||| a.changed_path == b.changed_path && a.related_path == b.related_path && text_lt(
                a.signal,
                b.signal,
            )
        }
}

/// The hunks that are listed.
pub open spec fn listed_hunks(scope: DiffScopeReceipt, facts: DiffFacts) -> Seq<DiffHunkEvidence> {
    if scope.base_revision is Some {
        first_of(facts.hunks@, MAX_DIFF_EVIDENCE_SYMBOLS as int)
    } else {
        Seq::empty()
    }
}

/// The changed paths that are looked at.
pub open spec fn scoped_paths(scope: DiffScopeReceipt) -> Seq<Seq<char>> {
    first_of(texts(scope.changed_paths@), MAX_DIFF_EVIDENCE_PATHS as int)
}

/// What is found on the changed paths of a scope.
pub open spec fn found_in(scope: DiffScopeReceipt, facts: DiffFacts) -> FoundView {
    found_upto(
        listed_hunks(scope, facts),
        scoped_paths(scope),
        views(facts.files@),
        scoped_paths(scope).len() as int,
    )
}

/// The paths that relate to a scope, each once and in order.
pub open spec fn all_related(
    request: ContextRequest,
    scope: DiffScopeReceipt,
    facts: DiffFacts,
) -> Seq<RelatedView> {
    without_repeats(
        sorted_by(
            found_in(scope, facts).related + filter_map(
                first_of(texts(facts.indexed_paths@), MAX_OWNER_TEST_SCAN_FILES as int),
                owning(request),
            ),
            related_lt(),
        ),
    )
}

/// Whether not every indexed path was looked at for owner tests.
pub open spec fn scan_cut(facts: DiffFacts) -> bool {
    facts.indexed_paths@.len() > MAX_OWNER_TEST_SCAN_FILES
}

/// The gaps of the evidence of a scope, each once and in order.
pub open spec fn evidence_gaps(
    request: ContextRequest,
    scope: DiffScopeReceipt,
    facts: DiffFacts,
) -> Seq<Seq<char>> {
    sorted_unique(
        note(
            scope.base_revision is Some && facts.hunks@.len() > MAX_DIFF_EVIDENCE_SYMBOLS,
            "changed_hunk_evidence_truncated"@,
        ) + note(
            scope.base_revision is None,
            "hunk_ranges_unavailable_for_explicit_paths"@,
        ) + note(
            scope.changed_paths@.len() > MAX_DIFF_EVIDENCE_PATHS,
            "changed_path_evidence_truncated"@,
        ) + found_in(scope, facts).gaps + note(scan_cut(facts), "owner_test_scan_truncated"@)
            + note(
            all_related(request, scope, facts).len() > MAX_DIFF_EVIDENCE_RELATIONSHIPS,
            "related_path_evidence_truncated"@,
        ),
    )
}

/// A classification with its owner tests and further gaps.
pub open spec fn completed(
    classified: SemanticView,
    request: ContextRequest,
    scope: DiffScopeReceipt,
    facts: DiffFacts,
) -> SemanticView {
    SemanticView {
        owner_tests: all_owner_tests(
            scoped_paths(scope),
            all_related(request, scope, facts),
            scan_cut(facts),
        ),
        gaps: sorted_unique(
            classified.gaps + note(
                scope.changed_paths@.len() > MAX_DIFF_EVIDENCE_PATHS,
                "semantic_changed_paths_truncated"@,
            ) + note(scan_cut(facts), "owner_test_scan_truncated"@) + filter_map(
                scoped_paths(scope),
                owner_gap(all_related(request, scope, facts)),
            ),
        ),
        ..classified
    }
}

/// Whether `semantic` says what a change means, which is asked of reviews alone.
pub open spec fn semantic_of(
    request: ContextRequest,
    scope: DiffScopeReceipt,
    workflow: ContextWorkflow,
    plan: bool,
    mode: DiffEvidenceMode,
    facts: DiffFacts,
    semantic: Option<DiffSemanticChangeReceipt>,
) -> bool {
    match semantic {
        None => plan || !(workflow is Review),
        Some(found) => {
            &&& !plan && workflow is Review
            &&& if mode is ImmutableRange {
                exists|classified: DiffSemanticChangeReceipt|
                    #[trigger] classifies(
                        facts.base_blobs,
                        facts.head_blobs,
                        facts.revisions@,
                        MAX_DIFF_EVIDENCE_SYMBOLS,
                        classified,
                    ) && found@ == completed(classified@, request, scope, facts)
            } else {
                found@ == completed(
                    SemanticView {
                        symbol_changes: Seq::empty(),
                        configuration_changes: Seq::empty(),
                        owner_tests: Seq::empty(),
                        gaps: seq!["semantic_change_requires_immutable_range"@],
                    },
                    request,
                    scope,
                    facts,
                )
            }
        },
    }
}

/// Whether `evidence` is drawn from a changed scope.
pub open spec fn draws(
    request: ContextRequest,
    scope: DiffScopeReceipt,
    workflow: ContextWorkflow,
    plan: bool,
    mode: DiffEvidenceMode,
    facts: DiffFacts,
    evidence: DiffEvidenceReceipt,
) -> bool {
    &&& evidence.changed_hunks@ == listed_hunks(scope, facts)
    &&& views(evidence.changed_symbols@) == found_in(scope, facts).symbols
    &&& views(evidence.related_paths@) == first_of(
        all_related(request, scope, facts),
        MAX_DIFF_EVIDENCE_RELATIONSHIPS as int,
    )
    &&& semantic_of(request, scope, workflow, plan, mode, facts, evidence.semantic_change)
    &&& texts(evidence.gaps@) == evidence_gaps(request, scope, facts)
}

/// Why no evidence can be drawn: an immutable range lacks a revision.
pub open spec fn evidence_fault(
    scope: DiffScopeReceipt,
    workflow: ContextWorkflow,
    plan: bool,
    mode: DiffEvidenceMode,
) -> Option<Fault> {
    if mode is WorkingTree {
        None
    } else if scope.base_revision is Some {
        if scope.head_revision is None {
            Some(Fault::OperationFailure("immutable diff scope has no head revision"@))
        } else {
            None
        }
    } else if workflow is Review && !plan {
        Some(Fault::OperationFailure("immutable diff scope has no base revision"@))
    } else {
        None
    }
}

proof fn found_is_bounded(
    hunks: Seq<DiffHunkEvidence>,
    paths: Seq<Seq<char>>,
    files: Seq<ChangedFileView>,
    upto: int,
)
    ensures
        found_upto(hunks, paths, files, upto).symbols.len() <= MAX_DIFF_EVIDENCE_SYMBOLS,
    decreases upto,
{
    if 0 < upto <= paths.len() {
        found_is_bounded(hunks, paths, files, upto - 1);
    }
}

/// The evidence of a changed scope lists no more hunks, and no more symbols, than
/// its bound allows.
pub proof fn evidence_is_bounded(scope: DiffScopeReceipt, facts: DiffFacts)
    ensures
        listed_hunks(scope, facts).len() <= MAX_DIFF_EVIDENCE_SYMBOLS,
        found_in(scope, facts).symbols.len() <= MAX_DIFF_EVIDENCE_SYMBOLS,
{
    found_is_bounded(
        listed_hunks(scope, facts),
        scoped_paths(scope),
        views(facts.files@),
        scoped_paths(scope).len() as int,
    );
}

fn relation(changed: &str, related: &str, signal: &str) -> (r: DiffRelatedPath)
    ensures
        r@ == (RelatedView { changed_path: changed@, related_path: related@, signal: signal@ }),
{
    DiffRelatedPath {
        changed_path: copy_text(changed),
        related_path: copy_text(related),
        signal: copy_text(signal),
    }
}

fn push_relations(
    out: &mut Vec<DiffRelatedPath>,
    path: &str,
    others: &Vec<String>,
    limit: usize,
    signal: &str,
)
    ensures
        views(final(out)@) == views(old(out)@) + filter_map(
            first_of(texts(others@), limit as int),
            relates(path@, signal@),
        ),
{
    let ghost start = views(out@);
    let ghost all = first_of(texts(others@), limit as int);
    let f = Ghost(relates(path@, signal@));
    let total: usize = if others.len() > limit {
        limit
    } else {
        others.len()
    };
    let mut i: usize = 0;
    assert(views(out@) =~= start + filter_map(all.take(0), f@));
    while i < total
        invariant
            i <= total,
            total <= others.len(),
            all == first_of(texts(others@), limit as int),
            total == all.len(),
            f@ == relates(path@, signal@),
            views(out@) == start + filter_map(all.take(i as int), f@),
        decreases total - i,
    {
        let ghost before = views(out@);
        proof {
            filter_map_push(all, f@, i as int);
            assert(all[i as int] == others@[i as int]@);
        }
        if !same_text(others[i].as_str(), path) {
            let item = relation(path, others[i].as_str(), signal);
            let ghost added = item@;
            out.push(item);
            assert(views(out@) =~= before.push(added));
            assert(before.push(added) =~= start + filter_map(all.take(i as int), f@).push(added));
        }
        i += 1;
    }
    assert(all.take(all.len() as int) =~= all);
}

fn is_touched(hunks: &Vec<DiffHunkEvidence>, path: &str, symbol: &ChangedSymbol) -> (r: bool)
    ensures
        r == touched(hunks@, path@, symbol@),
{
    let mut found = false;
    let mut i: usize = 0;
    while i < hunks.len()
        invariant
            i <= hunks.len(),
            found == exists|k: int| 0 <= k < i && (#[trigger] hunks@[k]).path@ == path@,
            forall|k: int|
                0 <= k < i && (#[trigger] hunks@[k]).path@ == path@ ==> !overlaps(
                    hunks@[k],
                    symbol@,
                ),
        decreases hunks.len() - i,
    {
        let hunk = &hunks[i];
        if same_text(hunk.path.as_str(), path) {
            found = true;
            if hunk.start_line <= hunk.end_line && symbol.start_line <= hunk.end_line
                && symbol.end_line >= hunk.start_line {
                assert(overlaps(hunks@[i as int], symbol@));
                return true;
            }
        }
        i += 1;
    }
    !found
}

fn touched_positions(hunks: &Vec<DiffHunkEvidence>, path: &str, symbols: &Vec<ChangedSymbol>) -> (r:
    Vec<usize>)
    ensures
        forall|k: int| 0 <= k < r@.len() ==> (#[trigger] r@[k]) < symbols@.len(),
        Seq::new(r@.len(), |k: int| symbols@[r@[k] as int]@) == filter_map(
            views(symbols@),
            if_touched(hunks@, path@),
        ),
{
    let ghost all = views(symbols@);
    let f = Ghost(if_touched(hunks@, path@));
    let mut out: Vec<usize> = Vec::new();
    let mut i: usize = 0;
    assert(Seq::new(out@.len(), |k: int| symbols@[out@[k] as int]@) =~= filter_map(
        all.take(0),
        f@,
    ));
    while i < symbols.len()
        invariant
            i <= symbols.len(),
            all == views(symbols@),
            f@ == if_touched(hunks@, path@),
            forall|k: int| 0 <= k < out@.len() ==> (#[trigger] out@[k]) < symbols@.len(),
            Seq::new(out@.len(), |k: int| symbols@[out@[k] as int]@) == filter_map(
                all.take(i as int),
                f@,
            ),
        decreases symbols.len() - i,
    {
        let ghost before = Seq::new(out@.len(), |k: int| symbols@[out@[k] as int]@);
        proof {
            filter_map_push(all, f@, i as int);
            assert(all[i as int] == symbols@[i as int]@);
        }
        if is_touched(hunks, path, &symbols[i]) {
            out.push(i);
            assert(Seq::new(out@.len(), |k: int| symbols@[out@[k] as int]@) =~= before.push(
                symbols@[i as int]@,
            ));
        }
        i += 1;
    }
    assert(all.take(all.len() as int) =~= all);
    out
}

/// The findings on changed paths while they are gathered.
struct Found {
    symbols: Vec<DiffSymbolEvidence>,
    related: Vec<DiffRelatedPath>,
    gaps: Vec<String>,
}

impl View for Found {
    type V = FoundView;

    closed spec fn view(&self) -> FoundView {
        FoundView {
            symbols: views(self.symbols@),
            related: views(self.related@),
            gaps: texts(self.gaps@),
        }
    }
}

fn list_symbol(found: &mut Found, path: &str, symbol: &ChangedSymbol)
    ensures
        final(found)@.symbols == old(found)@.symbols.push(as_evidence(path@, symbol@)),
        final(found)@.related == old(found)@.related + referring(path@)(symbol@),
        final(found)@.gaps == match reference_gap(path@)(symbol@) {
            Some(gap) => old(found)@.gaps.push(gap),
            None => old(found)@.gaps,
        },
{
    let ghost start = found@;
    if symbol.references.len() > MAX_REFERENCES_PER_CHANGED_SYMBOL {
        let gap = appended(
            appended(appended(copy_text(path), ":"), symbol.name.as_str()),
            ":reference_evidence_truncated",
        );
        let ghost added = gap@;
        found.gaps.push(gap);
        assert(texts(found.gaps@) =~= start.gaps.push(added));
    }
    push_relations(
        &mut found.related,
        path,
        &symbol.references,
        MAX_REFERENCES_PER_CHANGED_SYMBOL,
        "reference",
    );
    let item = DiffSymbolEvidence {
        path: copy_text(path),
        name: symbol.name.clone(),
        kind: symbol.kind.clone(),
        start_line: symbol.start_line,
        end_line: symbol.end_line,
    };
    let ghost added = item@;
    found.symbols.push(item);
    assert(views(found.symbols@) =~= start.symbols.push(added));
}

fn list_symbols(
    found: &mut Found,
    path: &str,
    symbols: &Vec<ChangedSymbol>,
    positions: &Vec<usize>,
    count: usize,
)
    requires
        count <= positions@.len(),
        forall|k: int| 0 <= k < positions@.len() ==> (#[trigger] positions@[k]) < symbols@.len(),
    ensures
        ({
            let listed = Seq::new(count as nat, |k: int| symbols@[positions@[k] as int]@);
            final(found)@ == (FoundView {
                symbols: old(found)@.symbols + Seq::new(
                    listed.len(),
                    |i: int| as_evidence(path@, listed[i]),
                ),
                related: old(found)@.related + flat_map(listed, referring(path@)),
                gaps: old(found)@.gaps + filter_map(listed, reference_gap(path@)),
            })
        }),
{
    let ghost start = found@;
    let ghost listed = Seq::new(count as nat, |k: int| symbols@[positions@[k] as int]@);
    let ghost evidence = Seq::new(listed.len(), |i: int| as_evidence(path@, listed[i]));
    let mut i: usize = 0;
    proof {
        assert(found@.symbols =~= start.symbols + evidence.take(0));
        assert(found@.related =~= start.related + flat_map(listed.take(0), referring(path@)));
        assert(found@.gaps =~= start.gaps + filter_map(listed.take(0), reference_gap(path@)));
    }
    while i < count
        invariant
            i <= count,
            count <= positions@.len(),
            forall|k: int|
                0 <= k < positions@.len() ==> (#[trigger] positions@[k]) < symbols@.len(),
            listed == Seq::new(count as nat, |k: int| symbols@[positions@[k] as int]@),
            evidence == Seq::new(listed.len(), |i: int| as_evidence(path@, listed[i])),
            found@.symbols == start.symbols + evidence.take(i as int),
            found@.related == start.related + flat_map(listed.take(i as int), referring(path@)),
            found@.gaps == start.gaps + filter_map(listed.take(i as int), reference_gap(path@)),
        decreases count - i,
    {
        let ghost before = found@;
        proof {
            flat_map_push(listed, referring(path@), i as int);
            filter_map_push(listed, reference_gap(path@), i as int);
        }
        list_symbol(found, path, &symbols[positions[i]]);
        proof {
            assert(listed[i as int] == symbols@[positions@[i as int] as int]@);
            assert(found@.symbols =~= start.symbols + evidence.take(i + 1));
            assert(found@.related =~= start.related + flat_map(
                listed.take(i + 1),
                referring(path@),
            ));
            assert(found@.gaps =~= start.gaps + filter_map(
                listed.take(i + 1),
                reference_gap(path@),
            ));
        }
        i += 1;
    }
    proof {
        assert(evidence.take(evidence.len() as int) =~= evidence);
        assert(listed.take(listed.len() as int) =~= listed);
    }
}

fn inspect_file(found: &mut Found, hunks: &Vec<DiffHunkEvidence>, path: &str, file: &ChangedFile)
    requires
        old(found)@.symbols.len() <= MAX_DIFF_EVIDENCE_SYMBOLS,
    ensures
        final(found)@ == found_step(old(found)@, hunks@, path@, file@),
        final(found)@.symbols.len() <= MAX_DIFF_EVIDENCE_SYMBOLS,
{
    let ghost start = found@;
    if !file.indexed {
        push_remark(&mut found.gaps, path, ":not_indexed_or_deleted");
        return;
    }
    let positions = touched_positions(hunks, path, &file.symbols);
    let ghost changed = filter_map(file@.symbols, if_touched(hunks@, path@));
    let ghost listed = listed_symbols(hunks@, path@, file@, start.symbols.len());
    assert(positions@.len() == changed.len());
    if !file.structurally_complete {
        push_remark(&mut found.gaps, path, ":structural_coverage_incomplete");
    } else {
        assert(texts(found.gaps@) =~= start.gaps + Seq::<Seq<char>>::empty());
    }
    let ghost first = found@.gaps;
    if positions.len() == 0 && file.structurally_complete {
        push_remark(&mut found.gaps, path, ":no_indexed_definitions");
    } else {
        assert(texts(found.gaps@) =~= first + Seq::<Seq<char>>::empty());
    }
    assert(views(found.symbols@).len() == found.symbols@.len());
    let room: usize = MAX_DIFF_EVIDENCE_SYMBOLS - found.symbols.len();
    let count: usize = if positions.len() > room {
        room
    } else {
        positions.len()
    };
    assert(Seq::new(count as nat, |k: int| file.symbols@[positions@[k] as int]@) =~= listed) by {
        let all = Seq::new(positions@.len(), |k: int| file.symbols@[positions@[k] as int]@);
        assert(all == changed);
        assert forall|k: int| 0 <= k < count implies (#[trigger] listed[k])
            == file.symbols@[positions@[k] as int]@ by {
            assert(all[k] == changed[k]);
        }
    }
    list_symbols(found, path, &file.symbols, &positions, count);
    push_fixed(
        &mut found.gaps,
        positions.len() > count,
        "changed_symbol_evidence_truncated",
    );
    assert(texts(file.importers@).len() == file.importers@.len());
    push_relations(&mut found.related, path, &file.importers, file.importers.len(), "importer");
    assert(first_of(texts(file.importers@), file.importers@.len() as int) =~= texts(
        file.importers@,
    ));
}

fn inspect_files(hunks: &Vec<DiffHunkEvidence>, paths: &Vec<String>, files: &Vec<ChangedFile>) -> (r:
    Found)
    ensures
        r@ == found_upto(hunks@, texts(paths@), views(files@), paths@.len() as int),
{
    let ghost all = texts(paths@);
    let ghost known = views(files@);
    let mut found = Found { symbols: Vec::new(), related: Vec::new(), gaps: Vec::new() };
    proof {
        assert(found@.symbols =~= Seq::<EvidenceView>::empty());
        assert(found@.related =~= Seq::<RelatedView>::empty());
        assert(found@.gaps =~= Seq::<Seq<char>>::empty());
        assert(all.len() == paths@.len());
        assert(known.len() == files@.len());
    }
    let mut i: usize = 0;
    while i < paths.len()
        invariant
            i <= paths.len(),
            all == texts(paths@),
            all.len() == paths@.len(),
            known == views(files@),
            known.len() == files@.len(),
            found@ == found_upto(hunks@, all, known, i as int),
            found@.symbols.len() <= MAX_DIFF_EVIDENCE_SYMBOLS,
        decreases paths.len() - i,
    {
        assert(all[i as int] == paths@[i as int]@);
        if i < files.len() {
            assert(known[i as int] == files@[i as int]@);
            inspect_file(&mut found, hunks, paths[i].as_str(), &files[i]);
        } else {
            push_remark(&mut found.gaps, paths[i].as_str(), ":not_indexed_or_deleted");
        }
        i += 1;
    }
    found
}

fn push_owner_tests(out: &mut Vec<DiffRelatedPath>, request: &ContextRequest, paths: &Vec<String>)
    ensures
        views(final(out)@) == views(old(out)@) + filter_map(
            first_of(texts(paths@), MAX_OWNER_TEST_SCAN_FILES as int),
            owning(*request),
        ),
{
    let ghost start = views(out@);
    let ghost all = first_of(texts(paths@), MAX_OWNER_TEST_SCAN_FILES as int);
    let total: usize = if paths.len() > MAX_OWNER_TEST_SCAN_FILES {
        MAX_OWNER_TEST_SCAN_FILES
    } else {
        paths.len()
    };
    let mut i: usize = 0;
    assert(views(out@) =~= start + filter_map(all.take(0), owning(*request)));
    while i < total
        invariant
            i <= total,
            total <= paths.len(),
            all == first_of(texts(paths@), MAX_OWNER_TEST_SCAN_FILES as int),
            total == all.len(),
            views(out@) == start + filter_map(all.take(i as int), owning(*request)),
        decreases total - i,
    {
        let ghost before = views(out@);
        proof {
            filter_map_push(all, owning(*request), i as int);
            assert(all[i as int] == paths@[i as int]@);
        }
        if let Some(changed) = owner_test_changed_path(paths[i].as_str(), request) {
            let item = relation(changed.as_str(), paths[i].as_str(), "test_name_match");
            let ghost added = item@;
            out.push(item);
            assert(views(out@) =~= before.push(added));
            assert(before.push(added) =~= start + filter_map(
                all.take(i as int),
                owning(*request),
            ).push(added));
        }
        i += 1;
    }
    assert(all.take(all.len() as int) =~= all);
}

fn related_precedes(a: &DiffRelatedPath, b: &DiffRelatedPath) -> (r: bool)
    ensures
        r == related_lt()(a@, b@),
{
    let same_changed = same_text(a.changed_path.as_str(), b.changed_path.as_str());
    let same_related = same_text(a.related_path.as_str(), b.related_path.as_str());
    text_precedes(&a.changed_path, &b.changed_path) || same_changed && text_precedes(
        &a.related_path,
        &b.related_path,
    ) || same_changed && same_related && text_precedes(&a.signal, &b.signal)
}

fn related_equals(a: &DiffRelatedPath, b: &DiffRelatedPath) -> (r: bool)
    ensures
        r == (a@ == b@),
{
    same_text(a.changed_path.as_str(), b.changed_path.as_str()) && same_text(
        a.related_path.as_str(),
        b.related_path.as_str(),
    ) && same_text(a.signal.as_str(), b.signal.as_str())
}

fn first_texts(list: &Vec<String>, limit: usize) -> (r: Vec<String>)
    ensures
        texts(r@) == first_of(texts(list@), limit as int),
{
    let ghost all = first_of(texts(list@), limit as int);
    let mut out: Vec<String> = Vec::new();
    let mut i: usize = 0;
    assert(texts(out@) =~= all.take(0));
    while i < list.len() && i < limit
        invariant
            i <= list.len(),
            i <= limit,
            all == first_of(texts(list@), limit as int),
            texts(out@) == all.take(i as int),
        decreases list.len() - i,
    {
        let ghost before = texts(out@);
        out.push(list[i].clone());
        assert(texts(out@) =~= before.push(list@[i as int]@));
        assert(texts(out@) =~= all.take(i + 1));
        i += 1;
    }
    assert(all.take(all.len() as int) =~= all);
    out
}

fn first_hunks(scope: &DiffScopeReceipt, facts: &DiffFacts) -> (r: Vec<DiffHunkEvidence>)
    ensures
        r@ == listed_hunks(*scope, *facts),
{
    let mut out: Vec<DiffHunkEvidence> = Vec::new();
    if scope.base_revision.is_some() {
        let ghost all = listed_hunks(*scope, *facts);
        let mut i: usize = 0;
        assert(out@ =~= all.take(0));
        while i < facts.hunks.len() && i < MAX_DIFF_EVIDENCE_SYMBOLS
            invariant
                i <= facts.hunks.len(),
                i <= MAX_DIFF_EVIDENCE_SYMBOLS,
                all == first_of(facts.hunks@, MAX_DIFF_EVIDENCE_SYMBOLS as int),
                out@ == all.take(i as int),
            decreases facts.hunks.len() - i,
        {
            out.push(facts.hunks[i].duplicate());
            assert(out@ =~= all.take(i + 1));
            i += 1;
        }
        assert(all.take(all.len() as int) =~= all);
    }
    out
}

fn complete_semantic(
    classified: DiffSemanticChangeReceipt,
    request: &ContextRequest,
    scope: &DiffScopeReceipt,
    facts: &DiffFacts,
    paths: &Vec<String>,
    related: &Vec<DiffRelatedPath>,
) -> (r: DiffSemanticChangeReceipt)
    requires
        texts(paths@) == scoped_paths(*scope),
        views(related@) == all_related(*request, *scope, *facts),
    ensures
        r@ == completed(classified@, *request, *scope, *facts),
{
    let mut gaps = classified.gaps;
    push_fixed(
        &mut gaps,
        scope.changed_paths.len() > MAX_DIFF_EVIDENCE_PATHS,
        "semantic_changed_paths_truncated",
    );
    let cut = facts.indexed_paths.len() > MAX_OWNER_TEST_SCAN_FILES;
    push_fixed(&mut gaps, cut, "owner_test_scan_truncated");
    let owner_tests = owner_test_coverage(paths, related, cut, &mut gaps);
    DiffSemanticChangeReceipt {
        symbol_changes: classified.symbol_changes,
        configuration_changes: classified.configuration_changes,
        owner_tests,
        gaps: sort_unique_texts(gaps),
    }
}

/// What a change means, which is asked of reviews alone.
fn semantic_change(
    request: &ContextRequest,
    scope: &DiffScopeReceipt,
    workflow: ContextWorkflow,
    plan: bool,
    mode: DiffEvidenceMode,
    facts: &DiffFacts,
    paths: &Vec<String>,
    related: &Vec<DiffRelatedPath>,
) -> (r: Option<DiffSemanticChangeReceipt>)
    requires
        texts(paths@) == scoped_paths(*scope),
        views(related@) == all_related(*request, *scope, *facts),
    ensures
        semantic_of(*request, *scope, workflow, plan, mode, *facts, r),
{
    let review = match workflow {
        ContextWorkflow::Review => true,
        _ => false,
    };
    if plan || !review {
        return None;
    }
    let classified = match mode {
        DiffEvidenceMode::ImmutableRange => {
            let found = classify_revision_changes(
                &facts.base_blobs,
                &facts.head_blobs,
                &facts.revisions,
                MAX_DIFF_EVIDENCE_SYMBOLS,
            );
            assert(classifies(
                facts.base_blobs,
                facts.head_blobs,
                facts.revisions@,
                MAX_DIFF_EVIDENCE_SYMBOLS,
                found,
            ));
            found
        },
        DiffEvidenceMode::WorkingTree => {
            let mut gaps: Vec<String> = Vec::new();
            gaps.push(copy_text("semantic_change_requires_immutable_range"));
            let found = DiffSemanticChangeReceipt {
                symbol_changes: Vec::new(),
                configuration_changes: Vec::new(),
                owner_tests: Vec::new(),
                gaps,
            };
            proof {
                assert(found@.gaps =~= seq!["semantic_change_requires_immutable_range"@]);
                assert(found@.owner_tests =~= Seq::empty());
            }
            found
        },
    };
    Some(complete_semantic(classified, request, scope, facts, paths, related))
}

impl Services {
    /// Draws the evidence of a changed scope.
    #[verifier::rlimit(40)]
    pub fn build_diff_evidence(
        request: &ContextRequest,
        scope: &DiffScopeReceipt,
        workflow: ContextWorkflow,
        policy: &ContextPolicy,
        mode: DiffEvidenceMode,
        facts: &DiffFacts,
    ) -> (r: Result<DiffEvidenceReceipt, Error>)
        ensures
            match r {
                Ok(evidence) => evidence_fault(
                    *scope,
                    workflow,
                    policy.delivery is Plan,
                    mode,
                ) is None && draws(
                    *request,
                    *scope,
                    workflow,
                    policy.delivery is Plan,
                    mode,
                    *facts,
                    evidence,
                ),
                Err(e) => evidence_fault(*scope, workflow, policy.delivery is Plan, mode) == Some(
                    e@,
                ),
            },
    {
        let plan = policy.is_plan();
        if let DiffEvidenceMode::ImmutableRange = mode {
            if scope.base_revision.is_some() {
                if scope.head_revision.is_none() {
                    return Err(
                        Error::OperationFailure(
                            copy_text("immutable diff scope has no head revision"),
                        ),
                    );
                }
            } else if let ContextWorkflow::Review = workflow {
                if !plan {
                    return Err(
                        Error::OperationFailure(
                            copy_text("immutable diff scope has no base revision"),
                        ),
                    );
                }
            }
        }
        let mut gaps: Vec<String> = Vec::new();
        assert(texts(gaps@) =~= Seq::<Seq<char>>::empty());
        let ranged = scope.base_revision.is_some();
        push_fixed(
            &mut gaps,
            ranged && facts.hunks.len() > MAX_DIFF_EVIDENCE_SYMBOLS,
            "changed_hunk_evidence_truncated",
        );
        let ghost one = note(
            ranged && facts.hunks@.len() > MAX_DIFF_EVIDENCE_SYMBOLS,
            "changed_hunk_evidence_truncated"@,
        );
        assert(texts(gaps@) =~= one);
        push_fixed(&mut gaps, !ranged, "hunk_ranges_unavailable_for_explicit_paths");
        push_fixed(
            &mut gaps,
            scope.changed_paths.len() > MAX_DIFF_EVIDENCE_PATHS,
            "changed_path_evidence_truncated",
        );
        let changed_hunks = first_hunks(scope, facts);
        let paths = first_texts(&scope.changed_paths, MAX_DIFF_EVIDENCE_PATHS);
        assert(texts(paths@).len() == paths@.len());
        let found = inspect_files(&changed_hunks, &paths, &facts.files);
        assert(found@ == found_in(*scope, *facts));
        let mut noted = found.gaps;
        let ghost head = texts(gaps@);
        let ghost tail = texts(noted@);
        gaps.append(&mut noted);
        assert(texts(gaps@) =~= head + tail);
        let mut related = found.related;
        push_owner_tests(&mut related, request, &facts.indexed_paths);
        push_fixed(
            &mut gaps,
            facts.indexed_paths.len() > MAX_OWNER_TEST_SCAN_FILES,
            "owner_test_scan_truncated",
        );
        let sorted = sort_by(related, related_precedes, Ghost(related_lt()));
        let mut relationships = remove_repeats(sorted, related_equals);
        let ghost all = views(relationships@);
        assert(all == all_related(*request, *scope, *facts));
        let semantic = semantic_change(
            request,
            scope,
            workflow,
            plan,
            mode,
            facts,
            &paths,
            &relationships,
        );
        assert(all.len() == relationships@.len());
        push_fixed(
            &mut gaps,
            relationships.len() > MAX_DIFF_EVIDENCE_RELATIONSHIPS,
            "related_path_evidence_truncated",
        );
        relationships.truncate(MAX_DIFF_EVIDENCE_RELATIONSHIPS);
        assert(views(relationships@) =~= first_of(all, MAX_DIFF_EVIDENCE_RELATIONSHIPS as int));
        Ok(
            DiffEvidenceReceipt {
                changed_hunks,
                changed_symbols: found.symbols,
                related_paths: relationships,
                semantic_change: semantic,
                gaps: sort_unique_texts(gaps),
            },
        )
    }
}

} // verus!
