//! The candidates that a workflow asks for: guidance, templates, validation and
//! owner tests.

use crate::context::candidates::draft::{plain, Candidate, CandidateView};
use crate::context::candidates::lexical::{answer_at, excerpts, ExcerptView, StoredExcerpt};
use crate::context::delivery::flag_at;
use crate::context::diagnostics::StoredExcerptRequest;
use crate::context::scope_helpers::{owned_paths, path_role, workflow_path_role};
use crate::handoff::note;
use crate::lists::{tally, tally_push};
use crate::model::{ContextRequest, ContextWorkflow};
use crate::ordered::{first_of, sort_by, sorted_by, text_lt, text_precedes, views};
use crate::response::{optional_view, WorkflowReceipt, WorkflowView};
use crate::services::Services;
use crate::text::{appended, copy_text, same_text, texts};
use vstd::prelude::*;

verus! {

/// The most indexed files that are looked at for a workflow.
pub const MAX_WORKFLOW_SCAN_FILES: usize = 8192;

/// The most candidates that a workflow brings.
pub const MAX_WORKFLOW_CANDIDATES: usize = 24;

/// An indexed file.
#[derive(Debug)]
pub struct IndexedFile {
    pub id: i64,
    pub path: String,
}

/// What an [`IndexedFile`] says.
pub struct FileView {
    pub id: i64,
    pub path: Seq<char>,
}

impl View for IndexedFile {
    type V = FileView;

    open spec fn view(&self) -> FileView {
        FileView { id: self.id, path: self.path@ }
    }
}

impl IndexedFile {
    /// A copy.
    pub fn duplicate(&self) -> (r: IndexedFile)
        ensures
            r@ == self@,
    {
        IndexedFile { id: self.id, path: self.path.clone() }
    }
}

/// A file that plays a part in a workflow, with its weight in hundredths.
#[derive(Debug)]
pub struct WorkflowFile {
    pub id: i64,
    pub path: String,
    pub score: u32,
    pub family: &'static str,
}

/// What a [`WorkflowFile`] says.
pub struct WorkflowFileView {
    pub id: i64,
    pub path: Seq<char>,
    pub score: u32,
    pub family: Seq<char>,
}

impl View for WorkflowFile {
    type V = WorkflowFileView;

    open spec fn view(&self) -> WorkflowFileView {
        WorkflowFileView {
            id: self.id,
            path: self.path@,
            score: self.score,
            family: self.family@,
        }
    }
}

/// The files among the first `upto` that play a part in a workflow and that the
/// path rules allow.
pub open spec fn playing(
    request: ContextRequest,
    files: Seq<FileView>,
    allowed: Seq<bool>,
    upto: int,
) -> Seq<WorkflowFileView>
    decreases upto,
{
    if upto <= 0 || upto > files.len() {
        Seq::empty()
    } else {
        let before = playing(request, files, allowed, upto - 1);
        let file = files[upto - 1];
        match path_role(file.path, owned_paths(request)) {
            Some((score, family)) => if flag_at(allowed, upto - 1) {
                before.push(WorkflowFileView { id: file.id, path: file.path, score, family })
            } else {
                before
            },
            None => before,
        }
    }
}

/// The paths among the first `upto` that play a part in a workflow and that the
/// path rules do not allow.
pub open spec fn barred(
    request: ContextRequest,
    files: Seq<FileView>,
    allowed: Seq<bool>,
    upto: int,
) -> Seq<Seq<char>>
    decreases upto,
{
    if upto <= 0 || upto > files.len() {
        Seq::empty()
    } else {
        let before = barred(request, files, allowed, upto - 1);
        if path_role(files[upto - 1].path, owned_paths(request)) is Some && !flag_at(
            allowed,
            upto - 1,
        ) {
            before.push(files[upto - 1].path)
        } else {
            before
        }
    }
}

/// Whether a file is of a family.
pub open spec fn of_family(family: Seq<char>) -> spec_fn(WorkflowFileView) -> bool {
    |file: WorkflowFileView| file.family == family
}

/// Whether one file comes before another: the heavier one, then by path.
pub open spec fn heavier() -> spec_fn(WorkflowFileView, WorkflowFileView) -> bool {
    |a: WorkflowFileView, b: WorkflowFileView|
        a.score > b.score || a.score == b.score && text_lt(a.path, b.path)
}

/// What a workflow finds in the indexed files.
pub open spec fn workflow_tally(files: Seq<WorkflowFileView>, scan_cut: bool) -> WorkflowView {
    let guidance = tally(files, of_family("guidance"@));
    let template = tally(files, of_family("template"@));
    let validation = tally(files, of_family("validation"@));
    let owner_test = tally(files, of_family("owner_test"@));
    WorkflowView {
        guidance_candidates: guidance as usize,
        template_candidates: template as usize,
        validation_candidates: validation as usize,
        owner_test_candidates: owner_test as usize,
        missing_families: note(guidance == 0, "guidance"@) + note(template == 0, "template"@)
            + note(validation == 0, "validation"@) + note(owner_test == 0, "owner_test"@) + note(
            scan_cut,
            "repository_scan_truncated"@,
        ),
    }
}

/// The files that a workflow shows, the heaviest first.
pub open spec fn workflow_shown(files: Seq<WorkflowFileView>) -> Seq<WorkflowFileView> {
    first_of(sorted_by(files, heavier()), MAX_WORKFLOW_CANDIDATES as int)
}

/// A file of a workflow as a candidate.
pub open spec fn workflow_candidate(file: WorkflowFileView, excerpt: ExcerptView) -> CandidateView {
    CandidateView {
        path_score: file.score as u64,
        focus_boost: file.score,
        ..plain(file.path, excerpt.start_line, excerpt.end_line, excerpt.content).found_as(
            "workflow_"@ + file.family,
        ).shown_as("workflow"@)
    }
}

/// The candidates, with the first `upto` files of a workflow that have an
/// excerpt.
pub open spec fn with_workflow(
    candidates: Seq<CandidateView>,
    files: Seq<WorkflowFileView>,
    shown: Seq<Option<ExcerptView>>,
    upto: int,
) -> Seq<CandidateView>
    decreases upto,
{
    if upto <= 0 || upto > files.len() {
        candidates
    } else {
        let before = with_workflow(candidates, files, shown, upto - 1);
        match answer_at(shown, upto - 1) {
            Some(excerpt) => before.push(workflow_candidate(files[upto - 1], excerpt)),
            None => before,
        }
    }
}

/// Whether a workflow asks for files of its own.
pub open spec fn asks_for_files(workflow: ContextWorkflow) -> bool {
    workflow is Contribution || workflow is Review
}

/// What a scan of the indexed files finds for a workflow.
pub open spec fn scanned(
    request: ContextRequest,
    files: Seq<FileView>,
    allowed: Seq<bool>,
) -> Seq<WorkflowFileView> {
    let first = first_of(files, MAX_WORKFLOW_SCAN_FILES as int);
    playing(request, first, allowed, first.len() as int)
}

fn scan_files(request: &ContextRequest, files: &Vec<IndexedFile>, allowed: &Vec<bool>) -> (r: (
    Vec<WorkflowFile>,
    Vec<String>,
))
    ensures
        views(r.0@) == scanned(*request, views(files@), allowed@),
        texts(r.1@) == barred(
            *request,
            first_of(views(files@), MAX_WORKFLOW_SCAN_FILES as int),
            allowed@,
            first_of(views(files@), MAX_WORKFLOW_SCAN_FILES as int).len() as int,
        ),
{
    let ghost all = first_of(views(files@), MAX_WORKFLOW_SCAN_FILES as int);
    let mut found: Vec<WorkflowFile> = Vec::new();
    let mut excluded: Vec<String> = Vec::new();
    let total: usize = if files.len() > MAX_WORKFLOW_SCAN_FILES {
        MAX_WORKFLOW_SCAN_FILES
    } else {
        files.len()
    };
    let mut i: usize = 0;
    proof {
        assert(views(found@) =~= Seq::<WorkflowFileView>::empty());
        assert(texts(excluded@) =~= Seq::<Seq<char>>::empty());
    }
    while i < total
        invariant
            i <= total,
            total <= files.len(),
            all == first_of(views(files@), MAX_WORKFLOW_SCAN_FILES as int),
            all.len() == total,
            views(found@) == playing(*request, all, allowed@, i as int),
            texts(excluded@) == barred(*request, all, allowed@, i as int),
        decreases total - i,
    {
        let ghost before = views(found@);
        let ghost noted = texts(excluded@);
        let file = &files[i];
        assert(all[i as int] == file@);
        if let Some((score, family)) = workflow_path_role(file.path.as_str(), request) {
            if i < allowed.len() && allowed[i] {
                let item = WorkflowFile { id: file.id, path: file.path.clone(), score, family };
                let ghost added = item@;
                found.push(item);
                assert(views(found@) =~= before.push(added));
            } else {
                excluded.push(file.path.clone());
                assert(texts(excluded@) =~= noted.push(file.path@));
            }
        }
        i += 1;
    }
    (found, excluded)
}

fn count_family(files: &Vec<WorkflowFile>, family: &str) -> (r: usize)
    ensures
        r == tally(views(files@), of_family(family@)),
{
    let ghost all = views(files@);
    let mut count: usize = 0;
    let mut i: usize = 0;
    while i < files.len()
        invariant
            i <= files.len(),
            all == views(files@),
            count <= i,
            count == tally(all.take(i as int), of_family(family@)),
        decreases files.len() - i,
    {
        proof {
            tally_push(all, of_family(family@), i as int);
            assert(all[i as int] == files@[i as int]@);
        }
        if same_text(files[i].family, family) {
            count += 1;
        }
        i += 1;
    }
    assert(all.take(all.len() as int) =~= all);
    count
}

fn push_missing(list: &mut Vec<String>, missing: bool, name: &str)
    ensures
        texts(final(list)@) == texts(old(list)@) + note(missing, name@),
{
    let ghost start = texts(list@);
    if missing {
        list.push(copy_text(name));
    }
    assert(texts(list@) =~= start + note(missing, name@));
}

fn tally_files(files: &Vec<WorkflowFile>, scan_cut: bool) -> (r: WorkflowReceipt)
    ensures
        r@ == workflow_tally(views(files@), scan_cut),
{
    let guidance: usize = count_family(files, "guidance");
    let template: usize = count_family(files, "template");
    let validation: usize = count_family(files, "validation");
    let owner_test: usize = count_family(files, "owner_test");
    let mut missing: Vec<String> = Vec::new();
    assert(texts(missing@) =~= Seq::<Seq<char>>::empty());
    push_missing(&mut missing, guidance == 0, "guidance");
    assert(texts(missing@) =~= note(guidance == 0, "guidance"@));
    push_missing(&mut missing, template == 0, "template");
    push_missing(&mut missing, validation == 0, "validation");
    push_missing(&mut missing, owner_test == 0, "owner_test");
    push_missing(&mut missing, scan_cut, "repository_scan_truncated");
    WorkflowReceipt {
        guidance_candidates: guidance,
        template_candidates: template,
        validation_candidates: validation,
        owner_test_candidates: owner_test,
        missing_families: missing,
    }
}

fn file_precedes(a: &WorkflowFile, b: &WorkflowFile) -> (r: bool)
    ensures
        r == heavier()(a@, b@),
{
    a.score > b.score || a.score == b.score && text_precedes(&a.path, &b.path)
}

/// The lines that are asked for of the files of a workflow.
pub open spec fn workflow_lines(files: Seq<WorkflowFileView>) -> Seq<StoredExcerptRequest> {
    Seq::new(
        files.len(),
        |i: int|
            StoredExcerptRequest {
                file_id: files[i].id,
                desired_start_line: 1,
                desired_end_line: 80,
                required_start_line: 1,
                required_end_line: 1,
                max_lines: 80,
            },
    )
}

/// The files that a workflow shows, and the lines that are asked for of them.
pub fn workflow_excerpt_requests(
    request: &ContextRequest,
    files: &Vec<IndexedFile>,
    allowed: &Vec<bool>,
) -> (r: Vec<StoredExcerptRequest>)
    ensures
        r@ == workflow_lines(workflow_shown(scanned(*request, views(files@), allowed@))),
{
    let (found, _) = scan_files(request, files, allowed);
    let shown = show_files(found);
    let ghost all = workflow_lines(views(shown@));
    let mut out: Vec<StoredExcerptRequest> = Vec::new();
    let mut i: usize = 0;
    assert(out@ =~= all.take(0));
    while i < shown.len()
        invariant
            i <= shown.len(),
            all == workflow_lines(views(shown@)),
            out@ == all.take(i as int),
        decreases shown.len() - i,
    {
        out.push(
            StoredExcerptRequest {
                file_id: shown[i].id,
                desired_start_line: 1,
                desired_end_line: 80,
                required_start_line: 1,
                required_end_line: 1,
                max_lines: 80,
            },
        );
        assert(views(shown@)[i as int] == shown@[i as int]@);
        assert(out@ =~= all.take(i + 1));
        i += 1;
    }
    assert(all.take(all.len() as int) =~= all);
    out
}

fn show_files(files: Vec<WorkflowFile>) -> (r: Vec<WorkflowFile>)
    ensures
        views(r@) == workflow_shown(views(files@)),
{
    let mut sorted = sort_by(files, file_precedes, Ghost(heavier()));
    let ghost all = views(sorted@);
    sorted.truncate(MAX_WORKFLOW_CANDIDATES);
    assert(views(sorted@) =~= first_of(all, MAX_WORKFLOW_CANDIDATES as int));
    sorted
}

impl Services {
    /// Adds the files that a workflow asks for. Tells what was found, and which
    /// paths the path rules keep out.
    pub fn append_workflow_candidates(
        request: &ContextRequest,
        workflow: ContextWorkflow,
        files: &Vec<IndexedFile>,
        allowed: &Vec<bool>,
        shown: &Vec<Option<StoredExcerpt>>,
        candidates: &mut Vec<Candidate>,
    ) -> (r: (Option<WorkflowReceipt>, Vec<String>))
        ensures
            !asks_for_files(workflow) ==> r.0 is None && r.1@.len() == 0 && *final(candidates)
                == *old(candidates),
            asks_for_files(workflow) ==> {
                let found = scanned(*request, views(files@), allowed@);
                let first = first_of(views(files@), MAX_WORKFLOW_SCAN_FILES as int);
                &&& optional_view(r.0) == Some(
                    workflow_tally(found, files@.len() > MAX_WORKFLOW_SCAN_FILES),
                )
                &&& texts(r.1@) == barred(*request, first, allowed@, first.len() as int)
                &&& views(final(candidates)@) == with_workflow(
                    views(old(candidates)@),
                    workflow_shown(found),
                    excerpts(shown@),
                    workflow_shown(found).len() as int,
                )
            },
    {
        match workflow {
            ContextWorkflow::Contribution => {},
            ContextWorkflow::Review => {},
            _ => {
                return (None, Vec::new());
            },
        }
        let (found, excluded) = scan_files(request, files, allowed);
        let receipt = tally_files(&found, files.len() > MAX_WORKFLOW_SCAN_FILES);
        let list = show_files(found);
        let ghost all = views(list@);
        let ghost start = views(candidates@);
        let mut i: usize = 0;
        while i < list.len()
            invariant
                i <= list.len(),
                all == views(list@),
                all.len() == list@.len(),
                views(candidates@) == with_workflow(start, all, excerpts(shown@), i as int),
            decreases list.len() - i,
        {
            assert(all[i as int] == list@[i as int]@);
            if i < shown.len() {
                assert(excerpts(shown@)[i as int] == optional_view(shown@[i as int]));
                if let Some(excerpt) = &shown[i] {
                    let ghost before = views(candidates@);
                    let kind = appended(copy_text("workflow_"), list[i].family);
                    let mut candidate = Candidate::new(
                        list[i].path.as_str(),
                        excerpt.start_line,
                        excerpt.end_line,
                        excerpt.content.as_str(),
                    ).match_kind(kind.as_str()).representation("workflow");
                    candidate.path_score = list[i].score as u64;
                    candidate.focus_boost = list[i].score;
                    let ghost added = candidate@;
                    candidates.push(candidate);
                    assert(views(candidates@) =~= before.push(added));
                }
            }
            i += 1;
        }
        (Some(receipt), excluded)
    }
}

} // verus!
