//! The constraints of a request: what the index holds of them, and the candidates
//! that they ask for.

use crate::context::candidates::draft::{plain, Candidate, CandidateView, LineRange};
use crate::context::candidates::focus::{ChunkView, FileChunk};
use crate::context::candidates::lexical::{answer_at, excerpts, ExcerptView, StoredExcerpt};
use crate::context::candidates::required::{
    after_required, beginning_requests, evidence_outcome, path_fallbacks, with_beginnings,
    with_paths, ConstraintExpansion, EvidenceFacts, EvidenceFactsView, EvidenceFile,
    EvidenceFileView, EvidenceOutcome, RequiredFile, RequiredFileView,
};
use crate::context::candidates::retain::{
    file_lists, retain_focus_file, retain_required_evidence_files, with_file, with_match,
    with_matched_file,
};
use crate::context::candidates::workflow::{FileView, IndexedFile};
use crate::context::delivery::{count_flags, decided, flag_at, flags_set};
use crate::context::diagnostics::{
    after_adaptive, after_stored, counted, noted, AdaptiveExcerptRequest, ContextPhaseCounters,
    ContextPhaseTracker, TrackerView,
};
use crate::lists::{first_where, first_where_is};
use crate::model::ContextRequest;
use crate::ordered::views;
use crate::response::{
    optional_view, ContextCoverageReceipt, ContextFocusPathCoverage, ContextFocusPathDiagnostics,
    ContextRequiredEvidenceCoverage, CoverageView, RequiredView,
};
use crate::services::Services;
use crate::text::{
    appended, copy_text, copy_texts, decimal, decimal_text, distinct, distinct_texts, list_has,
    same_text, texts,
};
use vstd::prelude::*;

verus! {

/// The most names that are looked up together.
pub const MAX_EXACT_SYMBOL_BATCH_NAMES: usize = 32;

/// The most symbols of one name that are looked up.
pub const MAX_IMPORT_SYMBOLS: usize = 128;

/// What the path rules of a request say of an indexed file: which patterns match
/// it, whether it is allowed, and whether the configuration sets it aside.
#[derive(Debug)]
pub struct FileVerdicts {
    pub focus: Vec<bool>,
    pub included: Vec<bool>,
    pub required: Vec<bool>,
    pub evidence: Vec<bool>,
    pub allowed: bool,
    pub set_aside: bool,
}

/// What a [`FileVerdicts`] says.
pub struct VerdictsView {
    pub focus: Seq<bool>,
    pub included: Seq<bool>,
    pub required: Seq<bool>,
    pub evidence: Seq<bool>,
    pub allowed: bool,
    pub set_aside: bool,
}

impl View for FileVerdicts {
    type V = VerdictsView;

    open spec fn view(&self) -> VerdictsView {
        VerdictsView {
            focus: self.focus@,
            included: self.included@,
            required: self.required@,
            evidence: self.evidence@,
            allowed: self.allowed,
            set_aside: self.set_aside,
        }
    }
}

/// An indexed file with what the path rules say of it.
#[derive(Debug)]
pub struct JudgedFile {
    pub file: IndexedFile,
    pub verdicts: FileVerdicts,
}

/// What a [`JudgedFile`] says.
pub struct JudgedView {
    pub file: FileView,
    pub verdicts: VerdictsView,
}

impl View for JudgedFile {
    type V = JudgedView;

    open spec fn view(&self) -> JudgedView {
        JudgedView { file: self.file@, verdicts: self.verdicts@ }
    }
}

/// Whether a path is within the scope of a request.
pub open spec fn in_scope(request: ContextRequest, path: Seq<char>) -> bool {
    !request.strict_changed_paths || texts(request.changed_paths@).contains(path)
}

/// Whether a file may be looked into for a focus pattern.
pub open spec fn eligible(request: ContextRequest, file: JudgedView) -> bool {
    &&& file.verdicts.allowed
    &&& in_scope(request, file.file.path)
    &&& !file.verdicts.set_aside || flags_set(
        file.verdicts.included,
        request.include_paths@.len() as int,
    ) > 0
}

/// The number of the first `upto` files that a focus pattern matches.
pub open spec fn focus_count(files: Seq<JudgedView>, pattern: int, upto: int) -> nat
    decreases upto,
{
    if upto <= 0 || upto > files.len() {
        0
    } else {
        focus_count(files, pattern, upto - 1) + if flag_at(
            files[upto - 1].verdicts.focus,
            pattern,
        ) {
            1nat
        } else {
            0
        }
    }
}

/// The number of the first `upto` files that may be looked into for a focus
/// pattern.
pub open spec fn eligible_count(
    request: ContextRequest,
    files: Seq<JudgedView>,
    pattern: int,
    upto: int,
) -> nat
    decreases upto,
{
    if upto <= 0 || upto > files.len() {
        0
    } else {
        eligible_count(request, files, pattern, upto - 1) + if flag_at(
            files[upto - 1].verdicts.focus,
            pattern,
        ) && eligible(request, files[upto - 1]) {
            1nat
        } else {
            0
        }
    }
}

/// The files among the first `upto` that are looked into for a focus pattern.
pub open spec fn focus_files(
    request: ContextRequest,
    files: Seq<JudgedView>,
    pattern: int,
    upto: int,
) -> Seq<FileView>
    decreases upto,
{
    if upto <= 0 || upto > files.len() {
        Seq::empty()
    } else {
        let before = focus_files(request, files, pattern, upto - 1);
        if flag_at(files[upto - 1].verdicts.focus, pattern) && eligible(request, files[upto - 1]) {
            with_file(before, files[upto - 1].file)
        } else {
            before
        }
    }
}

/// What a scan of the index finds of a focus pattern.
#[derive(Debug)]
pub struct FocusScan {
    pub files: Vec<IndexedFile>,
    pub indexed_paths: usize,
    pub eligible_paths: usize,
}

/// What a [`FocusScan`] says.
pub struct FocusScanView {
    pub files: Seq<FileView>,
    pub indexed_paths: usize,
    pub eligible_paths: usize,
}

impl View for FocusScan {
    type V = FocusScanView;

    open spec fn view(&self) -> FocusScanView {
        FocusScanView {
            files: views(self.files@),
            indexed_paths: self.indexed_paths,
            eligible_paths: self.eligible_paths,
        }
    }
}

/// What a scan of the index finds of a focus pattern.
pub open spec fn focus_scan(
    request: ContextRequest,
    files: Seq<JudgedView>,
    pattern: int,
) -> FocusScanView {
    FocusScanView {
        files: focus_files(request, files, pattern, files.len() as int),
        indexed_paths: focus_count(files, pattern, files.len() as int) as usize,
        eligible_paths: eligible_count(request, files, pattern, files.len() as int) as usize,
    }
}

/// What a scan of the index finds of the focus patterns.
pub open spec fn focus_scans(request: ContextRequest, files: Seq<JudgedView>) -> Seq<
    FocusScanView,
> {
    Seq::new(request.focus_paths@.len(), |i: int| focus_scan(request, files, i))
}

/// Whether an included pattern matches a file.
pub open spec fn included_by(pattern: int) -> spec_fn(JudgedView) -> bool {
    |file: JudgedView| flag_at(file.verdicts.included, pattern)
}

/// Whether a required pattern matches a file.
pub open spec fn required_by(pattern: int) -> spec_fn(JudgedView) -> bool {
    |file: JudgedView| flag_at(file.verdicts.required, pattern)
}

/// Whether a required pattern matches a file that is allowed.
pub open spec fn required_allowed(pattern: int) -> spec_fn(JudgedView) -> bool {
    |file: JudgedView| flag_at(file.verdicts.required, pattern) && file.verdicts.allowed
}

/// Whether some file is one that `p` holds of.
pub open spec fn some_file(files: Seq<JudgedView>, p: spec_fn(JudgedView) -> bool) -> bool {
    first_where(files, p) < files.len()
}

/// How many of the first `upto` files match each piece of required evidence.
pub open spec fn evidence_counts(patterns: nat, files: Seq<JudgedView>, upto: int) -> Seq<usize>
    decreases upto,
{
    if upto <= 0 || upto > files.len() {
        Seq::new(patterns, |i: int| 0usize)
    } else {
        with_match(
            evidence_counts(patterns, files, upto - 1),
            files[upto - 1].verdicts.evidence,
        )
    }
}

/// Which of the first `upto` files are looked into for each piece of required
/// evidence.
pub open spec fn evidence_files(
    request: ContextRequest,
    files: Seq<JudgedView>,
    upto: int,
) -> Seq<Seq<FileView>>
    decreases upto,
{
    if upto <= 0 || upto > files.len() {
        Seq::new(request.required_evidence@.len(), |i: int| Seq::<FileView>::empty())
    } else {
        let file = files[upto - 1];
        with_matched_file(
            evidence_files(request, files, upto - 1),
            file.verdicts.evidence,
            file.verdicts.allowed && in_scope(request, file.file.path),
            file.file,
        )
    }
}

/// The first file that is allowed and that a required pattern matches.
pub open spec fn required_file(files: Seq<JudgedView>, pattern: int) -> Option<FileView> {
    let at = first_where(files, required_allowed(pattern));
    if at < files.len() {
        Some(files[at].file)
    } else {
        None
    }
}

/// What a scan of the index finds of the constraints of a request.
#[derive(Debug)]
pub struct ConstraintScan {
    pub focus: Vec<FocusScan>,
    pub included: Vec<bool>,
    pub required: Vec<bool>,
    pub required_files: Vec<Option<IndexedFile>>,
    pub evidence_counts: Vec<usize>,
    pub evidence_files: Vec<Vec<IndexedFile>>,
}

/// What files that may be missing say.
pub open spec fn optional_files(list: Seq<Option<IndexedFile>>) -> Seq<Option<FileView>> {
    Seq::new(list.len(), |i: int| optional_view(list[i]))
}

/// Whether `scan` is what a scan of the index finds.
pub open spec fn scans(
    request: ContextRequest,
    files: Seq<JudgedView>,
    scan: ConstraintScan,
) -> bool {
    &&& views(scan.focus@) == focus_scans(request, files)
    &&& scan.included@ == Seq::new(
        request.include_paths@.len(),
        |i: int| some_file(files, included_by(i)),
    )
    &&& scan.required@ == Seq::new(
        request.must_include_paths@.len(),
        |i: int| some_file(files, required_by(i)),
    )
    &&& optional_files(scan.required_files@) == Seq::new(
        request.must_include_paths@.len(),
        |i: int| required_file(files, i),
    )
    &&& scan.evidence_counts@ == evidence_counts(
        request.required_evidence@.len(),
        files,
        files.len() as int,
    )
    &&& file_lists(scan.evidence_files@) == evidence_files(request, files, files.len() as int)
}

fn is_in_scope(request: &ContextRequest, path: &str) -> (r: bool)
    ensures
        r == in_scope(*request, path@),
{
    !request.strict_changed_paths || list_has(&request.changed_paths, path)
}

fn is_eligible(request: &ContextRequest, file: &JudgedFile) -> (r: bool)
    ensures
        r == eligible(*request, file@),
{
    file.verdicts.allowed && is_in_scope(request, file.file.path.as_str()) && (
    !file.verdicts.set_aside || count_flags(
        &file.verdicts.included,
        request.include_paths.len(),
    ) > 0)
}

fn scan_focus(request: &ContextRequest, files: &Vec<JudgedFile>, pattern: usize) -> (r: FocusScan)
    ensures
        r@ == focus_scan(*request, views(files@), pattern as int),
{
    let ghost all = views(files@);
    let mut kept: Vec<IndexedFile> = Vec::new();
    let mut indexed: usize = 0;
    let mut open: usize = 0;
    let mut i: usize = 0;
    assert(views(kept@) =~= Seq::<FileView>::empty());
    while i < files.len()
        invariant
            i <= files.len(),
            all == views(files@),
            all.len() == files@.len(),
            indexed <= i,
            open <= i,
            indexed == focus_count(all, pattern as int, i as int),
            open == eligible_count(*request, all, pattern as int, i as int),
            views(kept@) == focus_files(*request, all, pattern as int, i as int),
        decreases files.len() - i,
    {
        let file = &files[i];
        assert(all[i as int] == file@);
        if pattern < file.verdicts.focus.len() && file.verdicts.focus[pattern] {
            indexed += 1;
            if is_eligible(request, file) {
                open += 1;
                retain_focus_file(&mut kept, &file.file);
            }
        }
        i += 1;
    }
    FocusScan { files: kept, indexed_paths: indexed, eligible_paths: open }
}

fn scan_focus_patterns(request: &ContextRequest, files: &Vec<JudgedFile>) -> (r: Vec<FocusScan>)
    ensures
        views(r@) == focus_scans(*request, views(files@)),
{
    let ghost all = focus_scans(*request, views(files@));
    let mut out: Vec<FocusScan> = Vec::new();
    let mut i: usize = 0;
    assert(views(out@) =~= all.take(0));
    while i < request.focus_paths.len()
        invariant
            i <= request.focus_paths.len(),
            all == focus_scans(*request, views(files@)),
            views(out@) == all.take(i as int),
        decreases request.focus_paths.len() - i,
    {
        let ghost before = views(out@);
        let item = scan_focus(request, files, i);
        let ghost added = item@;
        out.push(item);
        assert(views(out@) =~= before.push(added));
        assert(views(out@) =~= all.take(i + 1));
        i += 1;
    }
    assert(all.take(all.len() as int) =~= all);
    out
}

fn find_included(files: &Vec<JudgedFile>, pattern: usize) -> (r: bool)
    ensures
        r == some_file(views(files@), included_by(pattern as int)),
{
    let ghost all = views(files@);
    let p = Ghost(included_by(pattern as int));
    let mut at: usize = 0;
    while at < files.len() && !(pattern < files[at].verdicts.included.len()
        && files[at].verdicts.included[pattern])
        invariant
            at <= files.len(),
            all == views(files@),
            p@ == included_by(pattern as int),
            forall|k: int| 0 <= k < at ==> !p@(#[trigger] all[k]),
        decreases files.len() - at,
    {
        assert(all[at as int] == files@[at as int]@);
        at += 1;
    }
    proof {
        if at < files.len() {
            assert(all[at as int] == files@[at as int]@);
        }
        first_where_is(all, p@, at as int);
        assert(all.len() == files@.len());
    }
    at < files.len()
}

fn find_required(files: &Vec<JudgedFile>, pattern: usize) -> (r: bool)
    ensures
        r == some_file(views(files@), required_by(pattern as int)),
{
    let ghost all = views(files@);
    let p = Ghost(required_by(pattern as int));
    let mut at: usize = 0;
    while at < files.len() && !(pattern < files[at].verdicts.required.len()
        && files[at].verdicts.required[pattern])
        invariant
            at <= files.len(),
            all == views(files@),
            p@ == required_by(pattern as int),
            forall|k: int| 0 <= k < at ==> !p@(#[trigger] all[k]),
        decreases files.len() - at,
    {
        assert(all[at as int] == files@[at as int]@);
        at += 1;
    }
    proof {
        if at < files.len() {
            assert(all[at as int] == files@[at as int]@);
        }
        first_where_is(all, p@, at as int);
        assert(all.len() == files@.len());
    }
    at < files.len()
}

fn find_required_file(files: &Vec<JudgedFile>, pattern: usize) -> (r: Option<IndexedFile>)
    ensures
        optional_view(r) == required_file(views(files@), pattern as int),
{
    let ghost all = views(files@);
    let p = Ghost(required_allowed(pattern as int));
    let mut at: usize = 0;
    while at < files.len() && !(pattern < files[at].verdicts.required.len()
        && files[at].verdicts.required[pattern] && files[at].verdicts.allowed)
        invariant
            at <= files.len(),
            all == views(files@),
            p@ == required_allowed(pattern as int),
            forall|k: int| 0 <= k < at ==> !p@(#[trigger] all[k]),
        decreases files.len() - at,
    {
        assert(all[at as int] == files@[at as int]@);
        at += 1;
    }
    proof {
        if at < files.len() {
            assert(all[at as int] == files@[at as int]@);
        }
        first_where_is(all, p@, at as int);
        assert(all.len() == files@.len());
    }
    if at < files.len() {
        Some(files[at].file.duplicate())
    } else {
        None
    }
}

fn scan_included(request: &ContextRequest, files: &Vec<JudgedFile>) -> (r: Vec<bool>)
    ensures
        r@ == Seq::new(
            request.include_paths@.len(),
            |i: int| some_file(views(files@), included_by(i)),
        ),
{
    let ghost all = Seq::new(
        request.include_paths@.len(),
        |i: int| some_file(views(files@), included_by(i)),
    );
    let mut out: Vec<bool> = Vec::new();
    let mut i: usize = 0;
    assert(out@ =~= all.take(0));
    while i < request.include_paths.len()
        invariant
            i <= request.include_paths.len(),
            all == Seq::new(
                request.include_paths@.len(),
                |i: int| some_file(views(files@), included_by(i)),
            ),
            out@ == all.take(i as int),
        decreases request.include_paths.len() - i,
    {
        out.push(find_included(files, i));
        assert(out@ =~= all.take(i + 1));
        i += 1;
    }
    assert(all.take(all.len() as int) =~= all);
    out
}

fn scan_required(request: &ContextRequest, files: &Vec<JudgedFile>) -> (r: (
    Vec<bool>,
    Vec<Option<IndexedFile>>,
))
    ensures
        r.0@ == Seq::new(
            request.must_include_paths@.len(),
            |i: int| some_file(views(files@), required_by(i)),
        ),
        optional_files(r.1@) == Seq::new(
            request.must_include_paths@.len(),
            |i: int| required_file(views(files@), i),
        ),
{
    let ghost hit = Seq::new(
        request.must_include_paths@.len(),
        |i: int| some_file(views(files@), required_by(i)),
    );
    let ghost all = Seq::new(
        request.must_include_paths@.len(),
        |i: int| required_file(views(files@), i),
    );
    let mut matched: Vec<bool> = Vec::new();
    let mut found: Vec<Option<IndexedFile>> = Vec::new();
    let mut i: usize = 0;
    proof {
        assert(matched@ =~= hit.take(0));
        assert(optional_files(found@) =~= all.take(0));
    }
    while i < request.must_include_paths.len()
        invariant
            i <= request.must_include_paths.len(),
            hit == Seq::new(
                request.must_include_paths@.len(),
                |i: int| some_file(views(files@), required_by(i)),
            ),
            all == Seq::new(
                request.must_include_paths@.len(),
                |i: int| required_file(views(files@), i),
            ),
            matched@ == hit.take(i as int),
            optional_files(found@) == all.take(i as int),
        decreases request.must_include_paths.len() - i,
    {
        matched.push(find_required(files, i));
        assert(matched@ =~= hit.take(i + 1));
        let ghost before = optional_files(found@);
        let item = find_required_file(files, i);
        let ghost added = optional_view(item);
        found.push(item);
        assert(optional_files(found@) =~= before.push(added));
        assert(optional_files(found@) =~= all.take(i + 1));
        i += 1;
    }
    proof {
        assert(hit.take(hit.len() as int) =~= hit);
        assert(all.take(all.len() as int) =~= all);
    }
    (matched, found)
}

fn scan_evidence(request: &ContextRequest, files: &Vec<JudgedFile>) -> (r: (
    Vec<usize>,
    Vec<Vec<IndexedFile>>,
))
    ensures
        r.0@ == evidence_counts(
            request.required_evidence@.len(),
            views(files@),
            files@.len() as int,
        ),
        file_lists(r.1@) == evidence_files(*request, views(files@), files@.len() as int),
{
    let ghost all = views(files@);
    let ghost patterns = request.required_evidence@.len();
    let mut counts: Vec<usize> = Vec::new();
    let mut lists: Vec<Vec<IndexedFile>> = Vec::new();
    let mut k: usize = 0;
    while k < request.required_evidence.len()
        invariant
            k <= request.required_evidence.len(),
            counts@ == Seq::new(k as nat, |i: int| 0usize),
            lists@.len() == k,
            file_lists(lists@) == Seq::new(k as nat, |i: int| Seq::<FileView>::empty()),
        decreases request.required_evidence.len() - k,
    {
        counts.push(0);
        assert(counts@ =~= Seq::new((k + 1) as nat, |i: int| 0usize));
        let none: Vec<IndexedFile> = Vec::new();
        assert(views(none@) =~= Seq::<FileView>::empty());
        let ghost before = file_lists(lists@);
        let ghost held = lists@;
        lists.push(none);
        proof {
            let more = Seq::new((k + 1) as nat, |i: int| Seq::<FileView>::empty());
            assert forall|i: int| 0 <= i <= k implies (#[trigger] file_lists(lists@)[i])
                == more[i] by {
                if i < k {
                    assert(before[i] == views(held[i]@));
                }
            }
            assert(file_lists(lists@) =~= more);
        }
        k += 1;
    }
    let mut i: usize = 0;
    while i < files.len()
        invariant
            i <= files.len(),
            all == views(files@),
            all.len() == files@.len(),
            patterns == request.required_evidence@.len(),
            counts@ == evidence_counts(patterns, all, i as int),
            file_lists(lists@) == evidence_files(*request, all, i as int),
        decreases files.len() - i,
    {
        let file = &files[i];
        assert(all[i as int] == file@);
        let open = file.verdicts.allowed && is_in_scope(request, file.file.path.as_str());
        retain_required_evidence_files(
            &file.file,
            &file.verdicts.evidence,
            open,
            &mut counts,
            &mut lists,
        );
        i += 1;
    }
    (counts, lists)
}

/// Scans the index for what the constraints of a request speak of.
pub fn scan_constraints(request: &ContextRequest, files: &Vec<JudgedFile>) -> (r: ConstraintScan)
    ensures
        scans(*request, views(files@), r),
{
    let focus = scan_focus_patterns(request, files);
    let included = scan_included(request, files);
    let (required, required_files) = scan_required(request, files);
    let (evidence_counts, evidence_files) = scan_evidence(request, files);
    ConstraintScan {
        focus,
        included,
        required,
        required_files,
        evidence_counts,
        evidence_files,
    }
}

/// The texts among the first `upto` whose flag is not set.
pub open spec fn unmarked(list: Seq<Seq<char>>, marks: Seq<bool>, upto: int) -> Seq<Seq<char>>
    decreases upto,
{
    if upto <= 0 || upto > list.len() {
        Seq::empty()
    } else {
        let before = unmarked(list, marks, upto - 1);
        if flag_at(marks, upto - 1) {
            before
        } else {
            before.push(list[upto - 1])
        }
    }
}

fn keep_unmarked(list: &Vec<String>, marks: &Vec<bool>) -> (r: Vec<String>)
    ensures
        texts(r@) == unmarked(texts(list@), marks@, list@.len() as int),
{
    let ghost all = texts(list@);
    let mut out: Vec<String> = Vec::new();
    assert(texts(out@) =~= Seq::<Seq<char>>::empty());
    let mut i: usize = 0;
    while i < list.len()
        invariant
            i <= list.len(),
            all == texts(list@),
            all.len() == list@.len(),
            texts(out@) == unmarked(all, marks@, i as int),
        decreases list.len() - i,
    {
        let ghost before = texts(out@);
        assert(all[i as int] == list@[i as int]@);
        if !(i < marks.len() && marks[i]) {
            out.push(list[i].clone());
            assert(texts(out@) =~= before.push(list@[i as int]@));
        }
        i += 1;
    }
    out
}

/// Which focus patterns match an indexed file.
pub open spec fn focus_marks(scans: Seq<FocusScanView>) -> Seq<bool> {
    Seq::new(scans.len(), |i: int| scans[i].indexed_paths > 0)
}

fn mark_focus(scans: &Vec<FocusScan>) -> (r: Vec<bool>)
    ensures
        r@ == focus_marks(views(scans@)),
{
    let ghost all = focus_marks(views(scans@));
    let mut out: Vec<bool> = Vec::new();
    let mut i: usize = 0;
    assert(out@ =~= all.take(0));
    while i < scans.len()
        invariant
            i <= scans.len(),
            all == focus_marks(views(scans@)),
            out@ == all.take(i as int),
        decreases scans.len() - i,
    {
        out.push(scans[i].indexed_paths > 0);
        assert(views(scans@)[i as int] == scans@[i as int]@);
        assert(out@ =~= all.take(i + 1));
        i += 1;
    }
    assert(all.take(all.len() as int) =~= all);
    out
}

/// How far a focus pattern is covered before anything is selected.
pub open spec fn focus_uncovered(request: ContextRequest, scan: FocusScanView, pattern: String) ->
    ContextFocusPathCoverage {
    ContextFocusPathCoverage {
        pattern,
        indexed_paths: scan.indexed_paths,
        minimum_fragments: match request.minimum_fragments_per_focus_path {
            Some(minimum) => minimum,
            None => 1,
        },
        selected_fragments: 0,
        satisfied: false,
        diagnostics: if request.explain_diagnostics {
            Some(
                ContextFocusPathDiagnostics {
                    eligible_paths: scan.eligible_paths,
                    generated_fragments: 0,
                    capacity_blocker: None,
                },
            )
        } else {
            None
        },
    }
}

/// How far the focus patterns are covered before anything is selected.
pub open spec fn all_focus_uncovered(request: ContextRequest, scans: Seq<FocusScanView>) -> Seq<
    ContextFocusPathCoverage,
> {
    Seq::new(scans.len(), |i: int| focus_uncovered(request, scans[i], request.focus_paths@[i]))
}

/// How far a piece of required evidence is covered before anything is selected.
pub open spec fn evidence_uncovered(
    request: ContextRequest,
    counts: Seq<usize>,
    files: Seq<Seq<FileView>>,
) -> Seq<RequiredView> {
    Seq::new(
        request.required_evidence@.len(),
        |i: int|
            RequiredView {
                path: request.required_evidence@[i].path@,
                indexed_paths: counts[i],
                inspected_paths: files[i].len() as usize,
                minimum_query_matches: request.required_evidence@[i].minimum_query_matches,
                matched_queries: Seq::empty(),
                unmatched_queries: texts(request.required_evidence@[i].queries@),
                selected_fragments: 0,
                satisfied: false,
            },
    )
}

fn cover_focus_patterns(request: &ContextRequest, scans: &Vec<FocusScan>) -> (r: Vec<
    ContextFocusPathCoverage,
>)
    requires
        scans@.len() == request.focus_paths@.len(),
    ensures
        r@ == all_focus_uncovered(*request, views(scans@)),
{
    let ghost all = all_focus_uncovered(*request, views(scans@));
    let minimum: usize = match request.minimum_fragments_per_focus_path {
        Some(minimum) => minimum,
        None => 1,
    };
    let mut out: Vec<ContextFocusPathCoverage> = Vec::new();
    let mut i: usize = 0;
    assert(out@ =~= all.take(0));
    while i < scans.len()
        invariant
            i <= scans.len(),
            scans@.len() == request.focus_paths@.len(),
            minimum == match request.minimum_fragments_per_focus_path {
                Some(minimum) => minimum,
                None => 1,
            },
            all == all_focus_uncovered(*request, views(scans@)),
            out@ == all.take(i as int),
        decreases scans.len() - i,
    {
        assert(views(scans@)[i as int] == scans@[i as int]@);
        out.push(
            ContextFocusPathCoverage {
                pattern: request.focus_paths[i].clone(),
                indexed_paths: scans[i].indexed_paths,
                minimum_fragments: minimum,
                selected_fragments: 0,
                satisfied: false,
                diagnostics: if request.explain_diagnostics {
                    Some(
                        ContextFocusPathDiagnostics {
                            eligible_paths: scans[i].eligible_paths,
                            generated_fragments: 0,
                            capacity_blocker: None,
                        },
                    )
                } else {
                    None
                },
            },
        );
        assert(out@ =~= all.take(i + 1));
        i += 1;
    }
    assert(all.take(all.len() as int) =~= all);
    out
}

fn cover_evidence(
    request: &ContextRequest,
    counts: &Vec<usize>,
    files: &Vec<Vec<IndexedFile>>,
) -> (r: Vec<ContextRequiredEvidenceCoverage>)
    requires
        counts@.len() == request.required_evidence@.len(),
        files@.len() == request.required_evidence@.len(),
    ensures
        views(r@) == evidence_uncovered(*request, counts@, file_lists(files@)),
{
    let ghost all = evidence_uncovered(*request, counts@, file_lists(files@));
    let mut out: Vec<ContextRequiredEvidenceCoverage> = Vec::new();
    let mut i: usize = 0;
    assert(views(out@) =~= all.take(0));
    while i < request.required_evidence.len()
        invariant
            i <= request.required_evidence.len(),
            counts@.len() == request.required_evidence@.len(),
            files@.len() == request.required_evidence@.len(),
            all == evidence_uncovered(*request, counts@, file_lists(files@)),
            views(out@) == all.take(i as int),
        decreases request.required_evidence.len() - i,
    {
        let ghost before = views(out@);
        let requirement = &request.required_evidence[i];
        let item = ContextRequiredEvidenceCoverage {
            path: requirement.path.clone(),
            indexed_paths: counts[i],
            inspected_paths: files[i].len(),
            minimum_query_matches: requirement.minimum_query_matches,
            matched_queries: Vec::new(),
            unmatched_queries: copy_texts(&requirement.queries),
            selected_fragments: 0,
            satisfied: false,
        };
        proof {
            assert(file_lists(files@)[i as int] == views(files@[i as int]@));
            assert(views(files@[i as int]@).len() == files@[i as int]@.len());
            assert(item@.matched_queries =~= Seq::<Seq<char>>::empty());
        }
        let ghost added = item@;
        out.push(item);
        assert(views(out@) =~= before.push(added));
        assert(views(out@) =~= all.take(i + 1));
        i += 1;
    }
    assert(all.take(all.len() as int) =~= all);
    out
}

/// A symbol of a looked-up name. `allowed` says that the path rules let its file
/// in.
#[derive(Debug)]
pub struct ExactHit {
    pub path: String,
    pub file_id: i64,
    pub name: String,
    pub start_line: usize,
    pub end_line: usize,
    pub allowed: bool,
}

/// What an [`ExactHit`] says.
pub struct ExactHitView {
    pub path: Seq<char>,
    pub file_id: i64,
    pub name: Seq<char>,
    pub start_line: usize,
    pub end_line: usize,
    pub allowed: bool,
}

impl View for ExactHit {
    type V = ExactHitView;

    open spec fn view(&self) -> ExactHitView {
        ExactHitView {
            path: self.path@,
            file_id: self.file_id,
            name: self.name@,
            start_line: self.start_line,
            end_line: self.end_line,
            allowed: self.allowed,
        }
    }
}

/// The names that are looked up: of the focus first, each once.
pub open spec fn exact_names(request: ContextRequest) -> Seq<Seq<char>> {
    distinct(texts(request.focus_symbols@) + texts(request.must_include_symbols@))
}

/// The names that are looked up: of the focus first, each once.
pub fn exact_symbol_names(request: &ContextRequest) -> (r: Vec<String>)
    ensures
        texts(r@) == exact_names(*request),
{
    let mut all = copy_texts(&request.focus_symbols);
    let mut more = copy_texts(&request.must_include_symbols);
    let ghost first = texts(all@);
    let ghost rest = texts(more@);
    all.append(&mut more);
    assert(texts(all@) =~= first + rest);
    distinct_texts(&all)
}

/// Whether a name is a given one.
pub open spec fn is_name(name: Seq<char>) -> spec_fn(Seq<char>) -> bool {
    |other: Seq<char>| other == name
}

/// The symbols that were found of a name.
pub open spec fn hits_of(
    names: Seq<Seq<char>>,
    hits: Seq<Vec<ExactHit>>,
    name: Seq<char>,
) -> Seq<ExactHitView> {
    let at = first_where(names, is_name(name));
    if at < names.len() && at < hits.len() {
        views(hits[at]@)
    } else {
        Seq::empty()
    }
}

/// Whether a symbol's file is let in.
pub open spec fn let_in() -> spec_fn(ExactHitView) -> bool {
    |hit: ExactHitView| hit.allowed
}

/// The symbols among the first `upto` that were not found.
pub open spec fn unfound(
    symbols: Seq<Seq<char>>,
    names: Seq<Seq<char>>,
    hits: Seq<Vec<ExactHit>>,
    upto: int,
) -> Seq<Seq<char>>
    decreases upto,
{
    if upto <= 0 || upto > symbols.len() {
        Seq::empty()
    } else {
        let before = unfound(symbols, names, hits, upto - 1);
        if hits_of(names, hits, symbols[upto - 1]).len() == 0 {
            before.push(symbols[upto - 1])
        } else {
            before
        }
    }
}

/// A required symbol with the first place of it that is let in.
pub struct RequiredSymbolView {
    pub symbol: Seq<char>,
    pub hit: ExactHitView,
}

/// The required symbols among the first `upto` that a file holds which is let in.
pub open spec fn required_symbols(
    symbols: Seq<Seq<char>>,
    names: Seq<Seq<char>>,
    hits: Seq<Vec<ExactHit>>,
    upto: int,
) -> Seq<RequiredSymbolView>
    decreases upto,
{
    if upto <= 0 || upto > symbols.len() {
        Seq::empty()
    } else {
        let before = required_symbols(symbols, names, hits, upto - 1);
        let found = hits_of(names, hits, symbols[upto - 1]);
        let at = first_where(found, let_in());
        if at < found.len() {
            before.push(RequiredSymbolView { symbol: symbols[upto - 1], hit: found[at] })
        } else {
            before
        }
    }
}

/// The tokens that each required symbol gets.
pub open spec fn symbol_share(token_budget: usize, count: nat) -> usize {
    let shares = if count == 0 {
        1
    } else {
        count
    };
    let share = token_budget as nat / shares;
    if share < 1 {
        1
    } else {
        share as usize
    }
}

/// The excerpts that are asked for of required symbols.
pub open spec fn required_symbol_requests(list: Seq<RequiredSymbolView>, token_budget: usize) ->
    Seq<AdaptiveExcerptRequest> {
    Seq::new(
        list.len(),
        |i: int|
            AdaptiveExcerptRequest {
                file_id: list[i].hit.file_id,
                declaration_start: list[i].hit.start_line,
                declaration_end: list[i].hit.end_line,
                matched_line: list[i].hit.start_line,
                token_budget: symbol_share(token_budget, list.len()),
                selection_budget: None,
            },
    )
}

/// A required symbol as a candidate.
pub open spec fn required_symbol_candidate(
    item: RequiredSymbolView,
    excerpt: ExcerptView,
    rank: usize,
) -> CandidateView {
    CandidateView {
        symbol_name: Some(item.hit.name),
        target: Some(LineRange { start: item.hit.start_line, end: item.hit.end_line }),
        exact: 200,
        symbol: 200,
        focus_boost: 200,
        ..plain(item.hit.path, excerpt.start_line, excerpt.end_line, excerpt.content).found_as(
            "must_symbol"@,
        ).about("must:symbol:"@ + item.symbol, 200).shown_as("required_symbol"@).through(
            "must_symbol"@,
            rank,
        )
    }
}

/// The candidates, with the first `upto` required symbols that have an excerpt.
pub open spec fn with_required_symbols(
    candidates: Seq<CandidateView>,
    list: Seq<RequiredSymbolView>,
    shown: Seq<Option<ExcerptView>>,
    upto: int,
) -> Seq<CandidateView>
    decreases upto,
{
    if upto <= 0 || upto > list.len() {
        candidates
    } else {
        let before = with_required_symbols(candidates, list, shown, upto - 1);
        match answer_at(shown, upto - 1) {
            Some(excerpt) => before.push(
                required_symbol_candidate(list[upto - 1], excerpt, (upto - 1) as usize),
            ),
            None => before,
        }
    }
}

/// A required symbol with its place.
struct RequiredSymbol {
    symbol: String,
    path: String,
    file_id: i64,
    name: String,
    start_line: usize,
    end_line: usize,
}

impl View for RequiredSymbol {
    type V = RequiredSymbolView;

    closed spec fn view(&self) -> RequiredSymbolView {
        RequiredSymbolView {
            symbol: self.symbol@,
            hit: ExactHitView {
                path: self.path@,
                file_id: self.file_id,
                name: self.name@,
                start_line: self.start_line,
                end_line: self.end_line,
                allowed: true,
            },
        }
    }
}

fn name_position(names: &Vec<String>, name: &str) -> (r: usize)
    ensures
        r == first_where(texts(names@), is_name(name@)),
        r <= names@.len(),
{
    let ghost all = texts(names@);
    let p = Ghost(is_name(name@));
    let mut at: usize = 0;
    while at < names.len() && !same_text(names[at].as_str(), name)
        invariant
            at <= names.len(),
            all == texts(names@),
            p@ == is_name(name@),
            forall|k: int| 0 <= k < at ==> !p@(#[trigger] all[k]),
        decreases names.len() - at,
    {
        assert(all[at as int] == names@[at as int]@);
        at += 1;
    }
    proof {
        if at < names.len() {
            assert(all[at as int] == names@[at as int]@);
        }
        first_where_is(all, p@, at as int);
    }
    at
}

fn first_let_in(hits: &Vec<ExactHit>) -> (r: usize)
    ensures
        r == first_where(views(hits@), let_in()),
        r <= hits@.len(),
{
    let ghost all = views(hits@);
    let p = Ghost(let_in());
    let mut at: usize = 0;
    while at < hits.len() && !hits[at].allowed
        invariant
            at <= hits.len(),
            all == views(hits@),
            p@ == let_in(),
            forall|k: int| 0 <= k < at ==> !p@(#[trigger] all[k]),
        decreases hits.len() - at,
    {
        assert(all[at as int] == hits@[at as int]@);
        at += 1;
    }
    proof {
        if at < hits.len() {
            assert(all[at as int] == hits@[at as int]@);
        }
        first_where_is(all, p@, at as int);
    }
    at
}

fn was_found(names: &Vec<String>, hits: &Vec<Vec<ExactHit>>, name: &str) -> (r: bool)
    ensures
        r == (hits_of(texts(names@), hits@, name@).len() > 0),
{
    let at: usize = name_position(names, name);
    assert(texts(names@).len() == names@.len());
    if at < names.len() && at < hits.len() {
        assert(views(hits@[at as int]@).len() == hits@[at as int]@.len());
        hits[at].len() > 0
    } else {
        false
    }
}

fn keep_unfound(symbols: &Vec<String>, names: &Vec<String>, hits: &Vec<Vec<ExactHit>>) -> (r: Vec<
    String,
>)
    ensures
        texts(r@) == unfound(texts(symbols@), texts(names@), hits@, symbols@.len() as int),
{
    let ghost all = texts(symbols@);
    let mut out: Vec<String> = Vec::new();
    assert(texts(out@) =~= Seq::<Seq<char>>::empty());
    let mut i: usize = 0;
    while i < symbols.len()
        invariant
            i <= symbols.len(),
            all == texts(symbols@),
            all.len() == symbols@.len(),
            texts(out@) == unfound(all, texts(names@), hits@, i as int),
        decreases symbols.len() - i,
    {
        let ghost before = texts(out@);
        assert(all[i as int] == symbols@[i as int]@);
        if !was_found(names, hits, symbols[i].as_str()) {
            out.push(symbols[i].clone());
            assert(texts(out@) =~= before.push(symbols@[i as int]@));
        }
        i += 1;
    }
    out
}

fn find_required_symbols(
    symbols: &Vec<String>,
    names: &Vec<String>,
    hits: &Vec<Vec<ExactHit>>,
) -> (r: Vec<RequiredSymbol>)
    ensures
        views(r@) == required_symbols(
            texts(symbols@),
            texts(names@),
            hits@,
            symbols@.len() as int,
        ),
{
    let ghost all = texts(symbols@);
    let mut out: Vec<RequiredSymbol> = Vec::new();
    assert(views(out@) =~= Seq::<RequiredSymbolView>::empty());
    let mut i: usize = 0;
    while i < symbols.len()
        invariant
            i <= symbols.len(),
            all == texts(symbols@),
            all.len() == symbols@.len(),
            views(out@) == required_symbols(all, texts(names@), hits@, i as int),
        decreases symbols.len() - i,
    {
        let ghost before = views(out@);
        assert(all[i as int] == symbols@[i as int]@);
        let at: usize = name_position(names, symbols[i].as_str());
        assert(texts(names@).len() == names@.len());
        if at < names.len() && at < hits.len() {
            let found = &hits[at];
            let place: usize = first_let_in(found);
            assert(views(found@).len() == found@.len());
            if place < found.len() {
                let hit = &found[place];
                proof {
                    crate::lists::tally_bounds(views(found@), let_in());
                    assert(views(found@)[place as int] == hit@);
                }
                let item = RequiredSymbol {
                    symbol: symbols[i].clone(),
                    path: hit.path.clone(),
                    file_id: hit.file_id,
                    name: hit.name.clone(),
                    start_line: hit.start_line,
                    end_line: hit.end_line,
                };
                let ghost added = item@;
                out.push(item);
                assert(views(out@) =~= before.push(added));
            }
        }
        i += 1;
    }
    out
}

fn share_of(token_budget: usize, count: usize) -> (r: usize)
    ensures
        r == symbol_share(token_budget, count as nat),
{
    let shares: usize = if count == 0 {
        1
    } else {
        count
    };
    let share: usize = token_budget / shares;
    if share < 1 {
        1
    } else {
        share
    }
}

fn symbol_requests_of(list: &Vec<RequiredSymbol>, token_budget: usize) -> (r: Vec<
    AdaptiveExcerptRequest,
>)
    ensures
        r@ == required_symbol_requests(views(list@), token_budget),
{
    let ghost all = required_symbol_requests(views(list@), token_budget);
    let share: usize = share_of(token_budget, list.len());
    let mut out: Vec<AdaptiveExcerptRequest> = Vec::new();
    let mut i: usize = 0;
    assert(out@ =~= all.take(0));
    while i < list.len()
        invariant
            i <= list.len(),
            share == symbol_share(token_budget, list@.len()),
            all == required_symbol_requests(views(list@), token_budget),
            out@ == all.take(i as int),
        decreases list.len() - i,
    {
        out.push(
            AdaptiveExcerptRequest {
                file_id: list[i].file_id,
                declaration_start: list[i].start_line,
                declaration_end: list[i].end_line,
                matched_line: list[i].start_line,
                token_budget: share,
                selection_budget: None,
            },
        );
        assert(views(list@)[i as int] == list@[i as int]@);
        assert(out@ =~= all.take(i + 1));
        i += 1;
    }
    assert(all.take(all.len() as int) =~= all);
    out
}

/// The excerpts that are asked for of the required symbols of a request, given
/// the symbols of each looked-up name.
pub fn required_symbol_excerpt_requests(request: &ContextRequest, hits: &Vec<Vec<ExactHit>>) -> (r:
    Vec<AdaptiveExcerptRequest>)
    ensures
        r@ == required_symbol_requests(
            required_symbols(
                texts(request.must_include_symbols@),
                exact_names(*request),
                hits@,
                request.must_include_symbols@.len() as int,
            ),
            request.token_budget,
        ),
{
    let names = exact_symbol_names(request);
    let list = find_required_symbols(&request.must_include_symbols, &names, hits);
    symbol_requests_of(&list, request.token_budget)
}

fn append_required_symbols(
    candidates: &mut Vec<Candidate>,
    list: &Vec<RequiredSymbol>,
    shown: &Vec<Option<StoredExcerpt>>,
)
    ensures
        views(final(candidates)@) == with_required_symbols(
            views(old(candidates)@),
            views(list@),
            excerpts(shown@),
            list@.len() as int,
        ),
{
    let ghost start = views(candidates@);
    let ghost all = views(list@);
    let mut i: usize = 0;
    while i < list.len()
        invariant
            i <= list.len(),
            all == views(list@),
            all.len() == list@.len(),
            views(candidates@) == with_required_symbols(start, all, excerpts(shown@), i as int),
        decreases list.len() - i,
    {
        assert(all[i as int] == list@[i as int]@);
        if i < shown.len() {
            assert(excerpts(shown@)[i as int] == optional_view(shown@[i as int]));
            if let Some(excerpt) = &shown[i] {
                let item = &list[i];
                let concept = appended(copy_text("must:symbol:"), item.symbol.as_str());
                let mut candidate = Candidate::new(
                    item.path.as_str(),
                    excerpt.start_line,
                    excerpt.end_line,
                    excerpt.content.as_str(),
                ).match_kind("must_symbol").concept(concept.as_str(), 200).representation(
                    "required_symbol",
                ).channel("must_symbol", i);
                candidate.symbol_name = Some(item.name.clone());
                candidate.target =
                Some(LineRange { start: item.start_line, end: item.end_line });
                candidate.exact = 200;
                candidate.symbol = 200;
                candidate.focus_boost = 200;
                let ghost before = views(candidates@);
                let ghost added = candidate@;
                candidates.push(candidate);
                assert(views(candidates@) =~= before.push(added));
            }
        }
        i += 1;
    }
}

/// The inputs of a lookup of a name.
pub open spec fn name_inputs(name: Seq<char>) -> Seq<char> {
    "case_sensitive:true:limit:"@ + decimal_text(MAX_IMPORT_SYMBOLS as nat) + ":name:"@ + name
}

/// The number of symbols of a name.
pub open spec fn hit_count(hits: Seq<Vec<ExactHit>>, i: int) -> nat {
    if 0 <= i < hits.len() {
        hits[i]@.len()
    } else {
        0
    }
}

/// What is counted of the lookup of the first `upto` names.
pub open spec fn after_names(
    tracker: TrackerView,
    names: Seq<Seq<char>>,
    hits: Seq<Vec<ExactHit>>,
    upto: int,
) -> TrackerView
    decreases upto,
{
    if upto <= 0 || upto > names.len() {
        tracker
    } else {
        let searched = noted(
            after_names(tracker, names, hits, upto - 1),
            "exact_symbol"@,
            name_inputs(names[upto - 1]),
        );
        TrackerView {
            counters: ContextPhaseCounters {
                exact_symbol_hits: counted(
                    searched.counters.exact_symbol_hits,
                    hit_count(hits, upto - 1),
                ),
                ..searched.counters
            },
            ..searched
        }
    }
}

/// The number of lookups of some names.
pub open spec fn batch_count(names: nat) -> nat {
    (names + MAX_EXACT_SYMBOL_BATCH_NAMES - 1) as nat / MAX_EXACT_SYMBOL_BATCH_NAMES as nat
}

/// What is counted of the lookup of names.
pub open spec fn after_lookup(
    tracker: TrackerView,
    names: Seq<Seq<char>>,
    hits: Seq<Vec<ExactHit>>,
) -> TrackerView {
    after_names(
        TrackerView {
            counters: ContextPhaseCounters {
                exact_symbol_names: names.len() as usize,
                exact_symbol_batches: counted(
                    tracker.counters.exact_symbol_batches,
                    batch_count(names.len()),
                ),
                ..tracker.counters
            },
            ..tracker
        },
        names,
        hits,
        names.len() as int,
    )
}

fn name_key(name: &str) -> (r: String)
    ensures
        r@ == name_inputs(name@),
{
    let limit = appended(
        copy_text("case_sensitive:true:limit:"),
        decimal(MAX_IMPORT_SYMBOLS as u64).as_str(),
    );
    appended(appended(limit, ":name:"), name)
}

fn count_batches(names: usize) -> (r: usize)
    ensures
        r == batch_count(names as nat),
{
    let whole: usize = names / MAX_EXACT_SYMBOL_BATCH_NAMES;
    if names % MAX_EXACT_SYMBOL_BATCH_NAMES == 0 {
        whole
    } else {
        whole + 1
    }
}

fn count_lookup(phases: &mut ContextPhaseTracker, names: &Vec<String>, hits: &Vec<Vec<ExactHit>>)
    ensures
        final(phases)@ == after_lookup(old(phases)@, texts(names@), hits@),
{
    let ghost all = texts(names@);
    assert(all.len() == names@.len());
    phases.counters.exact_symbol_names = names.len();
    phases.counters.exact_symbol_batches =
    phases.counters.exact_symbol_batches.saturating_add(count_batches(names.len()));
    let ghost start = phases@;
    let mut i: usize = 0;
    while i < names.len()
        invariant
            i <= names.len(),
            all == texts(names@),
            all.len() == names@.len(),
            phases@ == after_names(start, all, hits@, i as int),
        decreases names.len() - i,
    {
        assert(all[i as int] == names@[i as int]@);
        phases.record_primitive("exact_symbol", name_key(names[i].as_str()));
        let count: usize = if i < hits.len() {
            hits[i].len()
        } else {
            0
        };
        phases.counters.exact_symbol_hits =
        phases.counters.exact_symbol_hits.saturating_add(count);
        i += 1;
    }
}

/// What the constraints of a request are answered with: every indexed file, the
/// chunks of the files of required paths and of required evidence, the symbols of
/// each looked-up name, and the excerpts that were asked for.
#[derive(Debug)]
pub struct ConstraintFacts {
    pub files: Vec<JudgedFile>,
    pub required_chunks: Vec<Vec<FileChunk>>,
    pub beginnings: Vec<Option<StoredExcerpt>>,
    pub exact_hits: Vec<Vec<ExactHit>>,
    pub symbol_excerpts: Vec<Option<StoredExcerpt>>,
    pub evidence_chunks: Vec<Vec<Vec<FileChunk>>>,
    pub evidence_excerpts: Vec<Vec<Option<StoredExcerpt>>>,
}

/// The chunks of a file, or none where they are missing.
pub open spec fn chunks_at(lists: Seq<Vec<FileChunk>>, i: int) -> Seq<ChunkView> {
    if 0 <= i < lists.len() {
        views(lists[i]@)
    } else {
        Seq::empty()
    }
}

/// The files of the first `upto` required paths, with their chunks.
pub open spec fn required_entries(
    patterns: Seq<Seq<char>>,
    files: Seq<Option<FileView>>,
    chunks: Seq<Vec<FileChunk>>,
    upto: int,
) -> Seq<RequiredFileView>
    decreases upto,
{
    if upto <= 0 || upto > patterns.len() || upto > files.len() {
        Seq::empty()
    } else {
        let before = required_entries(patterns, files, chunks, upto - 1);
        match files[upto - 1] {
            Some(file) => before.push(
                RequiredFileView {
                    pattern: patterns[upto - 1],
                    file,
                    chunks: chunks_at(chunks, before.len() as int),
                },
            ),
            None => before,
        }
    }
}

/// The chunks of the files of a piece of required evidence, or none where they
/// are missing.
pub open spec fn chunk_lists_at(lists: Seq<Vec<Vec<FileChunk>>>, i: int) -> Seq<Vec<FileChunk>> {
    if 0 <= i < lists.len() {
        lists[i]@
    } else {
        Seq::empty()
    }
}

/// The excerpts of a piece of required evidence, or none where they are missing.
pub open spec fn excerpts_at(lists: Seq<Vec<Option<StoredExcerpt>>>, i: int) -> Seq<
    Option<ExcerptView>,
> {
    if 0 <= i < lists.len() {
        excerpts(lists[i]@)
    } else {
        Seq::empty()
    }
}

/// Files with their chunks.
pub open spec fn evidence_entry(files: Seq<FileView>, chunks: Seq<Vec<FileChunk>>) -> Seq<
    EvidenceFileView,
> {
    Seq::new(
        files.len(),
        |j: int| EvidenceFileView { file: files[j], chunks: chunks_at(chunks, j) },
    )
}

/// What each piece of required evidence is looked for in.
pub open spec fn evidence_entries(
    files: Seq<Seq<FileView>>,
    chunks: Seq<Vec<Vec<FileChunk>>>,
    shown: Seq<Vec<Option<StoredExcerpt>>>,
) -> Seq<EvidenceFactsView> {
    Seq::new(
        files.len(),
        |i: int|
            EvidenceFactsView {
                files: evidence_entry(files[i], chunk_lists_at(chunks, i)),
                excerpts: excerpts_at(shown, i),
            },
    )
}

fn take_chunks(lists: &mut Vec<Vec<FileChunk>>) -> (r: Vec<FileChunk>)
    ensures
        views(r@) == chunks_at(old(lists)@, 0),
        final(lists)@ == if old(lists)@.len() > 0 {
            old(lists)@.subrange(1, old(lists)@.len() as int)
        } else {
            old(lists)@
        },
{
    if lists.len() > 0 {
        let ghost all = lists@;
        let first = lists.remove(0);
        assert(lists@ =~= all.subrange(1, all.len() as int));
        first
    } else {
        let none: Vec<FileChunk> = Vec::new();
        assert(views(none@) =~= Seq::<ChunkView>::empty());
        none
    }
}

/// What is left of a list behind its first `i`.
pub open spec fn left_of<A>(list: Seq<A>, i: int) -> Seq<A> {
    if 0 <= i < list.len() {
        list.subrange(i, list.len() as int)
    } else {
        Seq::empty()
    }
}

fn build_required(
    patterns: &Vec<String>,
    files: &Vec<Option<IndexedFile>>,
    chunks: Vec<Vec<FileChunk>>,
) -> (r: Vec<RequiredFile>)
    ensures
        views(r@) == required_entries(
            texts(patterns@),
            optional_files(files@),
            chunks@,
            decided(patterns@.len(), files@.len()) as int,
        ),
{
    let ghost names = texts(patterns@);
    let ghost known = optional_files(files@);
    let ghost all = chunks@;
    let mut rest = chunks;
    let mut out: Vec<RequiredFile> = Vec::new();
    let mut i: usize = 0;
    proof {
        assert(views(out@) =~= Seq::<RequiredFileView>::empty());
        assert(rest@ =~= left_of(all, 0));
    }
    while i < patterns.len() && i < files.len()
        invariant
            i <= patterns.len(),
            i <= files.len(),
            names == texts(patterns@),
            names.len() == patterns@.len(),
            known == optional_files(files@),
            known.len() == files@.len(),
            rest@ == left_of(all, out@.len() as int),
            views(out@) == required_entries(names, known, all, i as int),
        decreases patterns.len() - i,
    {
        let ghost before = views(out@);
        let ghost count = out@.len();
        assert(names[i as int] == patterns@[i as int]@);
        assert(known[i as int] == optional_view(files@[i as int]));
        if let Some(file) = &files[i] {
            let ghost left = rest@;
            let mine = take_chunks(&mut rest);
            let item = RequiredFile {
                pattern: patterns[i].clone(),
                file: file.duplicate(),
                chunks: mine,
            };
            let ghost added = item@;
            out.push(item);
            proof {
                assert(views(out@) =~= before.push(added));
                if count < all.len() {
                    assert(left[0] == all[count as int]);
                }
                assert(rest@ =~= left_of(all, (count + 1) as int));
                assert(before.len() == count);
            }
        }
        i += 1;
    }
    out
}

fn build_files(files: &Vec<IndexedFile>, chunks: Vec<Vec<FileChunk>>) -> (r: Vec<EvidenceFile>)
    ensures
        views(r@) == evidence_entry(views(files@), chunks@),
{
    let ghost all = evidence_entry(views(files@), chunks@);
    let ghost given = chunks@;
    let mut rest = chunks;
    let mut out: Vec<EvidenceFile> = Vec::new();
    let mut i: usize = 0;
    proof {
        assert(views(out@) =~= all.take(0));
        assert(rest@ =~= left_of(given, 0));
    }
    while i < files.len()
        invariant
            i <= files.len(),
            all == evidence_entry(views(files@), given),
            rest@ == left_of(given, i as int),
            views(out@) == all.take(i as int),
        decreases files.len() - i,
    {
        let ghost before = views(out@);
        let ghost left = rest@;
        let mine = take_chunks(&mut rest);
        let item = EvidenceFile { file: files[i].duplicate(), chunks: mine };
        let ghost added = item@;
        out.push(item);
        proof {
            assert(views(files@)[i as int] == files@[i as int]@);
            if i < given.len() {
                assert(left[0] == given[i as int]);
            }
            assert(rest@ =~= left_of(given, i + 1));
            assert(added == all[i as int]);
            assert(views(out@) =~= before.push(added));
            assert(views(out@) =~= all.take(i + 1));
        }
        i += 1;
    }
    assert(all.take(all.len() as int) =~= all);
    out
}

fn build_evidence(
    files: &Vec<Vec<IndexedFile>>,
    chunks: Vec<Vec<Vec<FileChunk>>>,
    shown: Vec<Vec<Option<StoredExcerpt>>>,
) -> (r: Vec<EvidenceFacts>)
    ensures
        views(r@) == evidence_entries(file_lists(files@), chunks@, shown@),
{
    let ghost all = evidence_entries(file_lists(files@), chunks@, shown@);
    let ghost given = chunks@;
    let ghost answers = shown@;
    let mut rest = chunks;
    let mut left = shown;
    let mut out: Vec<EvidenceFacts> = Vec::new();
    let mut i: usize = 0;
    proof {
        assert(views(out@) =~= all.take(0));
        assert(rest@ =~= left_of(given, 0));
        assert(left@ =~= left_of(answers, 0));
    }
    while i < files.len()
        invariant
            i <= files.len(),
            all == evidence_entries(file_lists(files@), given, answers),
            rest@ == left_of(given, i as int),
            left@ == left_of(answers, i as int),
            views(out@) == all.take(i as int),
        decreases files.len() - i,
    {
        let ghost before = views(out@);
        let ghost rest_before = rest@;
        let ghost left_before = left@;
        let lists: Vec<Vec<FileChunk>> = if rest.len() > 0 {
            rest.remove(0)
        } else {
            Vec::new()
        };
        let mine: Vec<Option<StoredExcerpt>> = if left.len() > 0 {
            left.remove(0)
        } else {
            Vec::new()
        };
        proof {
            if i < given.len() {
                assert(rest_before[0] == given[i as int]);
            }
            if i < answers.len() {
                assert(left_before[0] == answers[i as int]);
            }
            assert(lists@ == chunk_lists_at(given, i as int));
            assert(excerpts(mine@) =~= excerpts_at(answers, i as int));
            assert(rest@ =~= left_of(given, i + 1));
            assert(left@ =~= left_of(answers, i + 1));
            assert(file_lists(files@)[i as int] == views(files@[i as int]@));
        }
        let item = EvidenceFacts { files: build_files(&files[i], lists), excerpts: mine };
        let ghost added = item@;
        out.push(item);
        proof {
            assert(added == all[i as int]);
            assert(views(out@) =~= before.push(added));
            assert(views(out@) =~= all.take(i + 1));
        }
        i += 1;
    }
    assert(all.take(all.len() as int) =~= all);
    out
}

/// What the index holds of the constraints of a request.
pub open spec fn constraint_coverage(request: ContextRequest, facts: ConstraintFacts) ->
    CoverageView {
    let files = views(facts.files@);
    let names = exact_names(request);
    let focus = texts(request.focus_paths@);
    let patterns = texts(request.include_paths@);
    let required = texts(request.must_include_paths@);
    CoverageView {
        covered_must_include_paths: Seq::empty(),
        covered_must_include_symbols: Seq::empty(),
        partial_must_include_symbols: Seq::empty(),
        uncovered_must_include_paths: Seq::empty(),
        uncovered_must_include_symbols: Seq::empty(),
        unmatched_must_include_paths: unmarked(
            required,
            Seq::new(required.len(), |i: int| some_file(files, required_by(i))),
            required.len() as int,
        ),
        unmatched_must_include_symbols: unfound(
            texts(request.must_include_symbols@),
            names,
            facts.exact_hits@,
            request.must_include_symbols@.len() as int,
        ),
        unmatched_focus_paths: unmarked(
            focus,
            focus_marks(focus_scans(request, files)),
            focus.len() as int,
        ),
        unmatched_focus_symbols: unfound(
            texts(request.focus_symbols@),
            names,
            facts.exact_hits@,
            request.focus_symbols@.len() as int,
        ),
        unmatched_include_paths: unmarked(
            patterns,
            Seq::new(patterns.len(), |i: int| some_file(files, included_by(i))),
            patterns.len() as int,
        ),
        required_evidence: evidence_uncovered(
            request,
            evidence_counts(request.required_evidence@.len(), files, files.len() as int),
            evidence_files(request, files, files.len() as int),
        ),
        evidence_scope_satisfied: None,
        focus_path_coverage: all_focus_uncovered(request, focus_scans(request, files)),
        changed_path_coverage: None,
        path_scope_satisfied: None,
    }
}

/// The required symbols of a request.
pub open spec fn required_symbols_of(request: ContextRequest, facts: ConstraintFacts) -> Seq<
    RequiredSymbolView,
> {
    required_symbols(
        texts(request.must_include_symbols@),
        exact_names(request),
        facts.exact_hits@,
        request.must_include_symbols@.len() as int,
    )
}

/// The files of the required paths of a request, with their chunks.
pub open spec fn required_files_of(request: ContextRequest, facts: ConstraintFacts) -> Seq<
    RequiredFileView,
> {
    let count = request.must_include_paths@.len();
    required_entries(
        texts(request.must_include_paths@),
        Seq::new(count, |i: int| required_file(views(facts.files@), i)),
        facts.required_chunks@,
        count as int,
    )
}

/// What each piece of required evidence of a request is looked for in.
pub open spec fn evidence_of(request: ContextRequest, facts: ConstraintFacts) -> Seq<
    EvidenceFactsView,
> {
    evidence_entries(
        evidence_files(request, views(facts.files@), facts.files@.len() as int),
        facts.evidence_chunks@,
        facts.evidence_excerpts@,
    )
}

/// The candidates, and what is counted, of required paths.
pub open spec fn after_paths(
    start: EvidenceOutcome,
    expansion: ConstraintExpansion<'_>,
    facts: ConstraintFacts,
) -> EvidenceOutcome {
    let entries = required_files_of(*expansion.request, facts);
    let count = entries.len() as int;
    let rest = path_fallbacks(expansion, entries, count);
    EvidenceOutcome {
        candidates: with_beginnings(
            with_paths(start.candidates, expansion, entries, count),
            rest,
            excerpts(facts.beginnings@),
            rest.len() as int,
        ),
        tracker: after_stored(
            after_required(start.tracker, entries, count),
            beginning_requests(rest),
        ),
    }
}

/// The candidates, and what is counted, of required symbols.
pub open spec fn after_symbols(
    start: EvidenceOutcome,
    request: ContextRequest,
    facts: ConstraintFacts,
) -> EvidenceOutcome {
    let list = required_symbols_of(request, facts);
    EvidenceOutcome {
        candidates: with_required_symbols(
            start.candidates,
            list,
            excerpts(facts.symbol_excerpts@),
            list.len() as int,
        ),
        tracker: after_adaptive(
            after_lookup(start.tracker, exact_names(request), facts.exact_hits@),
            required_symbol_requests(list, request.token_budget),
        ),
    }
}

/// The candidates, and what is counted, of all constraints of a request.
pub open spec fn after_constraints(
    start: EvidenceOutcome,
    expansion: ConstraintExpansion<'_>,
    facts: ConstraintFacts,
) -> EvidenceOutcome {
    evidence_outcome(
        after_symbols(after_paths(start, expansion, facts), *expansion.request, facts),
        expansion,
        evidence_of(*expansion.request, facts),
        expansion.request.required_evidence@.len() as int,
    )
}

proof fn evidence_widths(request: ContextRequest, files: Seq<JudgedView>, upto: int)
    ensures
        evidence_counts(request.required_evidence@.len(), files, upto).len()
            == request.required_evidence@.len(),
        evidence_files(request, files, upto).len() == request.required_evidence@.len(),
    decreases upto,
{
    if 0 < upto <= files.len() {
        evidence_widths(request, files, upto - 1);
    }
}

fn cover_constraints(
    request: &ContextRequest,
    facts: &ConstraintFacts,
    scan: &ConstraintScan,
    names: &Vec<String>,
) -> (r: ContextCoverageReceipt)
    requires
        scans(*request, views(facts.files@), *scan),
        texts(names@) == exact_names(*request),
    ensures
        r@ == constraint_coverage(*request, *facts),
{
    proof {
        evidence_widths(*request, views(facts.files@), views(facts.files@).len() as int);
        assert(views(scan.focus@).len() == scan.focus@.len());
        assert(file_lists(scan.evidence_files@).len() == scan.evidence_files@.len());
    }
    let marks = mark_focus(&scan.focus);
    let r = ContextCoverageReceipt {
        covered_must_include_paths: Vec::new(),
        covered_must_include_symbols: Vec::new(),
        partial_must_include_symbols: Vec::new(),
        uncovered_must_include_paths: Vec::new(),
        uncovered_must_include_symbols: Vec::new(),
        unmatched_must_include_paths: keep_unmarked(&request.must_include_paths, &scan.required),
        unmatched_must_include_symbols: keep_unfound(
            &request.must_include_symbols,
            names,
            &facts.exact_hits,
        ),
        unmatched_focus_paths: keep_unmarked(&request.focus_paths, &marks),
        unmatched_focus_symbols: keep_unfound(&request.focus_symbols, names, &facts.exact_hits),
        unmatched_include_paths: keep_unmarked(&request.include_paths, &scan.included),
        required_evidence: cover_evidence(request, &scan.evidence_counts, &scan.evidence_files),
        evidence_scope_satisfied: None,
        focus_path_coverage: cover_focus_patterns(request, &scan.focus),
        changed_path_coverage: None,
        path_scope_satisfied: None,
    };
    proof {
        let expected = constraint_coverage(*request, *facts);
        assert(texts(request.must_include_paths@).len() == request.must_include_paths@.len());
        assert(texts(request.include_paths@).len() == request.include_paths@.len());
        assert(texts(request.focus_paths@).len() == request.focus_paths@.len());
        assert(r@.covered_must_include_paths =~= Seq::<Seq<char>>::empty());
        assert(r@.covered_must_include_symbols =~= Seq::<Seq<char>>::empty());
        assert(r@.partial_must_include_symbols =~= Seq::<Seq<char>>::empty());
        assert(r@.uncovered_must_include_paths =~= Seq::<Seq<char>>::empty());
        assert(r@.uncovered_must_include_symbols =~= Seq::<Seq<char>>::empty());
        assert(r@.unmatched_must_include_paths =~= expected.unmatched_must_include_paths);
        assert(r@.unmatched_include_paths =~= expected.unmatched_include_paths);
    }
    r
}

impl Services {
    /// Adds the candidates that the constraints of a request ask for, and counts
    /// the work. Tells what the index holds of the constraints, and which files
    /// its focus patterns match.
    pub fn append_constraint_candidates(
        expansion: &ConstraintExpansion<'_>,
        facts: ConstraintFacts,
        candidates: &mut Vec<Candidate>,
        phases: &mut ContextPhaseTracker,
    ) -> (r: (ContextCoverageReceipt, Vec<FocusScan>))
        ensures
            r.0@ == constraint_coverage(*expansion.request, facts),
            views(r.1@) == focus_scans(*expansion.request, views(facts.files@)),
            (EvidenceOutcome {
                candidates: views(final(candidates)@),
                tracker: final(phases)@,
            }) == after_constraints(
                EvidenceOutcome { candidates: views(old(candidates)@), tracker: old(phases)@ },
                *expansion,
                facts,
            ),
    {
        let request = expansion.request;
        let scan = scan_constraints(request, &facts.files);
        let names = exact_symbol_names(request);
        let coverage = cover_constraints(request, &facts, &scan, &names);
        proof {
            evidence_widths(*request, views(facts.files@), facts.files@.len() as int);
            assert(views(facts.files@).len() == facts.files@.len());
            assert(optional_files(scan.required_files@).len() == scan.required_files@.len());
            assert(file_lists(scan.evidence_files@).len() == scan.evidence_files@.len());
        }
        let entries = build_required(
            &request.must_include_paths,
            &scan.required_files,
            facts.required_chunks,
        );
        let evidence = build_evidence(
            &scan.evidence_files,
            facts.evidence_chunks,
            facts.evidence_excerpts,
        );
        assert(views(entries@) == required_files_of(*request, facts));
        assert(views(evidence@) == evidence_of(*request, facts));
        assert(views(evidence@).len() == evidence@.len());
        Self::append_required_path_candidates(
            expansion,
            &entries,
            &facts.beginnings,
            candidates,
            phases,
        );
        count_lookup(phases, &names, &facts.exact_hits);
        let list = find_required_symbols(
            &request.must_include_symbols,
            &names,
            &facts.exact_hits,
        );
        assert(views(list@).len() == list@.len());
        phases.record_adaptive_excerpts(&symbol_requests_of(&list, request.token_budget));
        append_required_symbols(candidates, &list, &facts.symbol_excerpts);
        Self::append_required_evidence_candidates(expansion, &evidence, candidates, phases);
        (coverage, scan.focus)
    }
}

} // verus!
