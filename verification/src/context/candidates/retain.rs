//! Keeping the best of what is found for a path pattern.

use crate::context::candidates::draft::{Candidate, CandidateView};
use crate::context::candidates::workflow::{FileView, IndexedFile};
use crate::context::delivery::flag_at;
use crate::context::facets::{ContextQuery, FacetKind, QueryView};
use crate::context::finalize::capped;
use crate::context::validation::{
    MAX_CONTEXT_FOCUS_CANDIDATES_PER_PATTERN, MAX_CONTEXT_FOCUS_FILES_PER_PATTERN,
};
use crate::lists::{first_where, first_where_is};
use crate::ordered::{first_of, sort_by, sorted_by, text_lt, text_precedes, views};
use crate::text::{contains_text, occurs, same_text, texts, unicode_lowercase};
use vstd::prelude::*;

verus! {

/// Whether a file stands at a path or behind it.
pub open spec fn at_or_behind(path: Seq<char>) -> spec_fn(FileView) -> bool {
    |file: FileView| !text_lt(file.path, path)
}

/// The first files by path, with one more.
pub open spec fn with_file(files: Seq<FileView>, file: FileView) -> Seq<FileView> {
    let at = first_where(files, at_or_behind(file.path));
    if at < MAX_CONTEXT_FOCUS_FILES_PER_PATTERN {
        first_of(files.insert(at, file), MAX_CONTEXT_FOCUS_FILES_PER_PATTERN as int)
    } else {
        files
    }
}

/// Adds a file to the first ones by path.
pub fn retain_focus_file(files: &mut Vec<IndexedFile>, file: &IndexedFile)
    ensures
        views(final(files)@) == with_file(views(old(files)@), file@),
{
    let ghost start = views(files@);
    let p = Ghost(at_or_behind(file.path@));
    let mut at: usize = 0;
    while at < files.len() && text_precedes(&files[at].path, &file.path)
        invariant
            at <= files.len(),
            start == views(files@),
            p@ == at_or_behind(file.path@),
            forall|k: int| 0 <= k < at ==> !p@(#[trigger] start[k]),
        decreases files.len() - at,
    {
        assert(start[at as int] == files@[at as int]@);
        at += 1;
    }
    proof {
        if at < files.len() {
            assert(start[at as int] == files@[at as int]@);
        }
        first_where_is(start, p@, at as int);
    }
    if at < MAX_CONTEXT_FOCUS_FILES_PER_PATTERN {
        let copy = file.duplicate();
        let ghost added = copy@;
        files.insert(at, copy);
        assert(views(files@) =~= start.insert(at as int, added));
        let ghost grown = views(files@);
        files.truncate(MAX_CONTEXT_FOCUS_FILES_PER_PATTERN);
        assert(views(files@) =~= first_of(grown, MAX_CONTEXT_FOCUS_FILES_PER_PATTERN as int));
    }
}

/// What lists of files say.
pub open spec fn file_lists(lists: Seq<Vec<IndexedFile>>) -> Seq<Seq<FileView>> {
    Seq::new(lists.len(), |i: int| views(lists[i]@))
}

/// Counts of matched files, with one more file.
pub open spec fn with_match(counts: Seq<usize>, matched: Seq<bool>) -> Seq<usize> {
    Seq::new(
        counts.len(),
        |i: int|
            if flag_at(matched, i) {
                capped(counts[i], 1)
            } else {
                counts[i]
            },
    )
}

/// Lists of files, with one more where it is matched and allowed.
pub open spec fn with_matched_file(
    lists: Seq<Seq<FileView>>,
    matched: Seq<bool>,
    allowed: bool,
    file: FileView,
) -> Seq<Seq<FileView>> {
    Seq::new(
        lists.len(),
        |i: int|
            if flag_at(matched, i) && allowed {
                with_file(lists[i], file)
            } else {
                lists[i]
            },
    )
}

/// Counts a file for each pattern of required evidence that it matches, and keeps
/// it where it is allowed.
pub fn retain_required_evidence_files(
    file: &IndexedFile,
    matched: &Vec<bool>,
    allowed: bool,
    path_matches: &mut Vec<usize>,
    path_files: &mut Vec<Vec<IndexedFile>>,
)
    ensures
        final(path_matches)@ == with_match(old(path_matches)@, matched@),
        file_lists(final(path_files)@) == with_matched_file(
            file_lists(old(path_files)@),
            matched@,
            allowed,
            file@,
        ),
{
    let ghost counts = path_matches@;
    let ghost lists = file_lists(path_files@);
    let ghost new_counts = with_match(counts, matched@);
    let ghost new_lists = with_matched_file(lists, matched@, allowed, file@);
    let mut i: usize = 0;
    while i < path_matches.len()
        invariant
            i <= path_matches.len(),
            path_matches@.len() == counts.len(),
            new_counts == with_match(counts, matched@),
            forall|k: int| 0 <= k < i ==> path_matches@[k] == #[trigger] new_counts[k],
            forall|k: int|
                i <= k < counts.len() ==> #[trigger] path_matches@[k] == counts[k],
        decreases path_matches.len() - i,
    {
        if i < matched.len() && matched[i] {
            let more: usize = path_matches[i].saturating_add(1);
            path_matches.set(i, more);
        }
        assert(path_matches@[i as int] == new_counts[i as int]);
        i += 1;
    }
    assert(path_matches@ =~= new_counts);
    let mut j: usize = 0;
    while j < path_files.len()
        invariant
            j <= path_files.len(),
            path_files@.len() == lists.len(),
            new_lists == with_matched_file(lists, matched@, allowed, file@),
            forall|k: int| 0 <= k < j ==> views(path_files@[k]@) == #[trigger] new_lists[k],
            forall|k: int|
                j <= k < lists.len() ==> views((#[trigger] path_files@[k])@) == lists[k],
        decreases path_files.len() - j,
    {
        if allowed && j < matched.len() && matched[j] {
            let ghost before = path_files@;
            let mut list = path_files.remove(j);
            retain_focus_file(&mut list, file);
            let ghost kept = list;
            path_files.insert(j, list);
            assert(path_files@ =~= before.update(j as int, kept));
        }
        assert(views(path_files@[j as int]@) == new_lists[j as int]);
        j += 1;
    }
    assert(file_lists(path_files@) =~= new_lists);
}

/// Whether a query counts for how relevant a text is, and occurs in it, letter
/// case aside.
pub open spec fn speaks_of(text: Seq<char>, query: QueryView) -> bool {
    &&& !query.facets.holds(FacetKind::TestIntent)
    &&& occurs(unicode_lowercase(text), unicode_lowercase(query.value))
}

/// How relevant a text is to the first `upto` queries, in hundredths.
pub open spec fn relevance(text: Seq<char>, queries: Seq<QueryView>, upto: int) -> usize
    decreases upto,
{
    if upto <= 0 || upto > queries.len() {
        0
    } else {
        let before = relevance(text, queries, upto - 1);
        if speaks_of(text, queries[upto - 1]) {
            capped(before, queries[upto - 1].weight as usize)
        } else {
            before
        }
    }
}

/// How relevant a text is to queries, in hundredths.
pub open spec fn text_relevance(text: Seq<char>, queries: Seq<QueryView>) -> usize {
    relevance(text, queries, queries.len() as int)
}

/// How relevant a text is to queries, in hundredths: the sum of the weights of
/// those that occur in it.
pub fn focus_text_relevance(text: &str, queries: &Vec<ContextQuery>) -> (r: usize)
    ensures
        r == text_relevance(text@, views(queries@)),
{
    let ghost all = views(queries@);
    let normalized = text.to_lowercase();
    let mut sum: usize = 0;
    let mut i: usize = 0;
    while i < queries.len()
        invariant
            i <= queries.len(),
            all == views(queries@),
            all.len() == queries@.len(),
            normalized@ == unicode_lowercase(text@),
            sum == relevance(text@, all, i as int),
        decreases queries.len() - i,
    {
        assert(all[i as int] == queries@[i as int]@);
        if !queries[i].has_facet(FacetKind::TestIntent) {
            let value = queries[i].value.as_str().to_lowercase();
            if contains_text(normalized.as_str(), value.as_str()) {
                sum = sum.saturating_add(queries[i].weight as usize);
            }
        }
        i += 1;
    }
    sum
}

/// The positions among the first `upto` queries that occur in a text, letter case
/// aside.
pub open spec fn query_positions(text: Seq<char>, queries: Seq<Seq<char>>, upto: int) -> Seq<usize>
    decreases upto,
{
    if upto <= 0 || upto > queries.len() {
        Seq::empty()
    } else {
        let before = query_positions(text, queries, upto - 1);
        if occurs(unicode_lowercase(text), unicode_lowercase(queries[upto - 1])) {
            before.push((upto - 1) as usize)
        } else {
            before
        }
    }
}

/// The positions of the queries that occur in a text, letter case aside.
pub fn required_evidence_query_matches(text: &str, queries: &Vec<String>) -> (r: Vec<usize>)
    ensures
        r@ == query_positions(text@, texts(queries@), queries@.len() as int),
{
    let ghost all = texts(queries@);
    let normalized = text.to_lowercase();
    let mut out: Vec<usize> = Vec::new();
    let mut i: usize = 0;
    while i < queries.len()
        invariant
            i <= queries.len(),
            all == texts(queries@),
            all.len() == queries@.len(),
            normalized@ == unicode_lowercase(text@),
            out@ == query_positions(text@, all, i as int),
        decreases queries.len() - i,
    {
        assert(all[i as int] == queries@[i as int]@);
        let query = queries[i].as_str().to_lowercase();
        if contains_text(normalized.as_str(), query.as_str()) {
            out.push(i);
        }
        i += 1;
    }
    out
}

/// A candidate for a focus pattern, with its relevance in hundredths.
#[derive(Debug)]
pub struct FocusCandidate {
    pub relevance: usize,
    pub candidate: Candidate,
}

/// What a [`FocusCandidate`] says.
pub struct FocusView {
    pub relevance: usize,
    pub candidate: CandidateView,
}

impl View for FocusCandidate {
    type V = FocusView;

    open spec fn view(&self) -> FocusView {
        FocusView { relevance: self.relevance, candidate: self.candidate@ }
    }
}

/// Whether two candidates show the same lines.
pub open spec fn same_lines(a: CandidateView, b: CandidateView) -> bool {
    a.path == b.path && a.start_line == b.start_line && a.end_line == b.end_line
}

/// Whether a candidate shows given lines.
pub open spec fn shows(candidate: CandidateView) -> spec_fn(FocusView) -> bool {
    |other: FocusView| same_lines(other.candidate, candidate)
}

/// Whether one candidate comes before another: the more relevant one, then by
/// path and lines.
pub open spec fn more_relevant() -> spec_fn(FocusView, FocusView) -> bool {
    |a: FocusView, b: FocusView|
        {
            ||| a.relevance > b.relevance
            ||| a.relevance == b.relevance && text_lt(a.candidate.path, b.candidate.path)
            ||| a.relevance == b.relevance && a.candidate.path == b.candidate.path
                && a.candidate.start_line < b.candidate.start_line
            ||| a.relevance == b.relevance && a.candidate.path == b.candidate.path
                && a.candidate.start_line == b.candidate.start_line && a.candidate.end_line
                < b.candidate.end_line
        }
}

/// Candidates with one more; of two that show the same lines the more relevant
/// one is kept.
pub open spec fn joined(list: Seq<FocusView>, candidate: FocusView) -> Seq<FocusView> {
    let at = first_where(list, shows(candidate.candidate));
    if at == list.len() {
        list.push(candidate)
    } else if candidate.relevance > list[at].relevance {
        list.update(at, candidate)
    } else {
        list
    }
}

/// The best candidates, with one more.
pub open spec fn ranked(list: Seq<FocusView>, candidate: FocusView) -> Seq<FocusView> {
    first_of(
        sorted_by(joined(list, candidate), more_relevant()),
        MAX_CONTEXT_FOCUS_CANDIDATES_PER_PATTERN as int,
    )
}

pub(crate) fn focus_precedes(a: &FocusCandidate, b: &FocusCandidate) -> (r: bool)
    ensures
        r == more_relevant()(a@, b@),
{
    if a.relevance != b.relevance {
        return a.relevance > b.relevance;
    }
    if !same_text(a.candidate.path.as_str(), b.candidate.path.as_str()) {
        return text_precedes(&a.candidate.path, &b.candidate.path);
    }
    if a.candidate.start_line != b.candidate.start_line {
        return a.candidate.start_line < b.candidate.start_line;
    }
    a.candidate.end_line < b.candidate.end_line
}

/// Adds a candidate to the best ones.
pub fn retain_ranked_focus_candidate(list: &mut Vec<FocusCandidate>, candidate: FocusCandidate)
    ensures
        views(final(list)@) == ranked(views(old(list)@), candidate@),
{
    let ghost start = views(list@);
    let ghost item = candidate@;
    let p = Ghost(shows(candidate@.candidate));
    let mut at: usize = 0;
    while at < list.len() && !(list[at].candidate.start_line == candidate.candidate.start_line
        && list[at].candidate.end_line == candidate.candidate.end_line && same_text(
        list[at].candidate.path.as_str(),
        candidate.candidate.path.as_str(),
    ))
        invariant
            at <= list.len(),
            start == views(list@),
            p@ == shows(candidate@.candidate),
            forall|k: int| 0 <= k < at ==> !p@(#[trigger] start[k]),
        decreases list.len() - at,
    {
        assert(start[at as int] == list@[at as int]@);
        at += 1;
    }
    proof {
        if at < list.len() {
            assert(start[at as int] == list@[at as int]@);
        }
        first_where_is(start, p@, at as int);
        assert(start.len() == list@.len());
    }
    if at == list.len() {
        list.push(candidate);
        assert(views(list@) =~= start.push(item));
    } else if candidate.relevance > list[at].relevance {
        let _ = list.remove(at);
        list.insert(at, candidate);
        assert(views(list@) =~= start.update(at as int, item));
    }
    let mut held: Vec<FocusCandidate> = Vec::new();
    std::mem::swap(&mut held, list);
    let mut sorted = sort_by(held, focus_precedes, Ghost(more_relevant()));
    let ghost all = views(sorted@);
    sorted.truncate(MAX_CONTEXT_FOCUS_CANDIDATES_PER_PATTERN);
    assert(views(sorted@) =~= first_of(all, MAX_CONTEXT_FOCUS_CANDIDATES_PER_PATTERN as int));
    std::mem::swap(&mut sorted, list);
}

/// A line that holds required evidence, with its relevance.
#[derive(Debug)]
pub struct RequiredEvidenceExcerptPlan {
    pub relevance: usize,
    pub path: String,
    pub file_id: i64,
    pub matched_line: usize,
}

/// What a [`RequiredEvidenceExcerptPlan`] says.
pub struct EvidencePlanView {
    pub relevance: usize,
    pub path: Seq<char>,
    pub file_id: i64,
    pub matched_line: usize,
}

impl View for RequiredEvidenceExcerptPlan {
    type V = EvidencePlanView;

    open spec fn view(&self) -> EvidencePlanView {
        EvidencePlanView {
            relevance: self.relevance,
            path: self.path@,
            file_id: self.file_id,
            matched_line: self.matched_line,
        }
    }
}

/// Whether one line comes before another: the more relevant one, then by path and
/// line.
pub open spec fn plan_first(a: EvidencePlanView, b: EvidencePlanView) -> bool {
    ||| a.relevance > b.relevance
    ||| a.relevance == b.relevance && text_lt(a.path, b.path)
    ||| a.relevance == b.relevance && a.path == b.path && a.matched_line < b.matched_line
}

/// Whether a line does not come before another.
pub open spec fn plan_not_before(plan: EvidencePlanView) -> spec_fn(EvidencePlanView) -> bool {
    |held: EvidencePlanView| !plan_first(held, plan)
}

/// Whether a line is already held.
pub open spec fn plan_held(plans: Seq<EvidencePlanView>, plan: EvidencePlanView) -> bool {
    exists|i: int|
        0 <= i < plans.len() && (#[trigger] plans[i]).path == plan.path && plans[i].matched_line
            == plan.matched_line
}

/// The best lines in order, with one more where it is not held yet.
pub open spec fn with_plan(plans: Seq<EvidencePlanView>, plan: EvidencePlanView) -> Seq<
    EvidencePlanView,
> {
    let at = first_where(plans, plan_not_before(plan));
    if plan_held(plans, plan) || at >= MAX_CONTEXT_FOCUS_CANDIDATES_PER_PATTERN {
        plans
    } else {
        first_of(plans.insert(at, plan), MAX_CONTEXT_FOCUS_CANDIDATES_PER_PATTERN as int)
    }
}

fn plan_precedes(a: &RequiredEvidenceExcerptPlan, b: &RequiredEvidenceExcerptPlan) -> (r: bool)
    ensures
        r == plan_first(a@, b@),
{
    if a.relevance != b.relevance {
        return a.relevance > b.relevance;
    }
    if !same_text(a.path.as_str(), b.path.as_str()) {
        return text_precedes(&a.path, &b.path);
    }
    a.matched_line < b.matched_line
}

fn holds_plan(plans: &Vec<RequiredEvidenceExcerptPlan>, plan: &RequiredEvidenceExcerptPlan) -> (r:
    bool)
    ensures
        r == plan_held(views(plans@), plan@),
{
    let ghost all = views(plans@);
    let mut i: usize = 0;
    while i < plans.len()
        invariant
            i <= plans.len(),
            all == views(plans@),
            forall|k: int|
                0 <= k < i ==> !((#[trigger] all[k]).path == plan.path@ && all[k].matched_line
                    == plan.matched_line),
        decreases plans.len() - i,
    {
        assert(all[i as int] == plans@[i as int]@);
        if plans[i].matched_line == plan.matched_line && same_text(
            plans[i].path.as_str(),
            plan.path.as_str(),
        ) {
            return true;
        }
        i += 1;
    }
    assert(all.len() == plans@.len());
    false
}

/// Adds a line to the best ones, where it is not held yet.
pub fn retain_required_evidence_plan(
    plans: &mut Vec<RequiredEvidenceExcerptPlan>,
    plan: RequiredEvidenceExcerptPlan,
)
    ensures
        views(final(plans)@) == with_plan(views(old(plans)@), plan@),
{
    if holds_plan(plans, &plan) {
        return;
    }
    let ghost start = views(plans@);
    let ghost item = plan@;
    let p = Ghost(plan_not_before(plan@));
    let mut at: usize = 0;
    while at < plans.len() && plan_precedes(&plans[at], &plan)
        invariant
            at <= plans.len(),
            start == views(plans@),
            p@ == plan_not_before(plan@),
            forall|k: int| 0 <= k < at ==> !p@(#[trigger] start[k]),
        decreases plans.len() - at,
    {
        assert(start[at as int] == plans@[at as int]@);
        at += 1;
    }
    proof {
        if at < plans.len() {
            assert(start[at as int] == plans@[at as int]@);
        }
        first_where_is(start, p@, at as int);
    }
    if at < MAX_CONTEXT_FOCUS_CANDIDATES_PER_PATTERN {
        plans.insert(at, plan);
        assert(views(plans@) =~= start.insert(at as int, item));
        let ghost grown = views(plans@);
        plans.truncate(MAX_CONTEXT_FOCUS_CANDIDATES_PER_PATTERN);
        assert(views(plans@) =~= first_of(grown, MAX_CONTEXT_FOCUS_CANDIDATES_PER_PATTERN as int));
    }
}

/// No more is kept for a pattern than its bounds allow.
pub proof fn retention_is_bounded(
    files: Seq<FileView>,
    file: FileView,
    list: Seq<FocusView>,
    candidate: FocusView,
    plans: Seq<EvidencePlanView>,
    plan: EvidencePlanView,
)
    requires
        files.len() <= MAX_CONTEXT_FOCUS_FILES_PER_PATTERN,
        plans.len() <= MAX_CONTEXT_FOCUS_CANDIDATES_PER_PATTERN,
    ensures
        with_file(files, file).len() <= MAX_CONTEXT_FOCUS_FILES_PER_PATTERN,
        ranked(list, candidate).len() <= MAX_CONTEXT_FOCUS_CANDIDATES_PER_PATTERN,
        with_plan(plans, plan).len() <= MAX_CONTEXT_FOCUS_CANDIDATES_PER_PATTERN,
{
}

} // verus!
