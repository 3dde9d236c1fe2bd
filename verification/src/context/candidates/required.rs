//! The candidates that a request insists on: by path, and by evidence in a path.

use crate::context::candidates::draft::{plain, Candidate, CandidateView, EvidenceMark};
use crate::context::candidates::focus::{
    file_inputs, file_key, points_of, to_points, ChunkView, FileChunk,
    MAX_CONTEXT_FOCUS_CHUNKS_PER_FILE,
};
use crate::context::candidates::lexical::{
    answer_at, excerpts, line_number, lines_above, ExcerptView, StoredExcerpt,
};
use crate::context::candidates::retain::{
    focus_text_relevance, query_positions, required_evidence_query_matches,
    retain_required_evidence_plan, text_relevance, with_plan, EvidencePlanView,
    RequiredEvidenceExcerptPlan,
};
use crate::context::candidates::workflow::{FileView, IndexedFile};
use crate::context::diagnostics::{
    after_stored, noted, ContextPhaseTracker, StoredExcerptRequest, TrackerView,
};
use crate::context::facets::{ContextQuery, QueryView};
use crate::context::path_score::{path_points, ContextPathScorer};
use crate::model::ContextRequest;
use crate::ordered::views;
use crate::response::optional_view;
use crate::services::Services;
use crate::text::{
    appended, contains_text, copy_text, decimal, decimal_text, lines_of, occurs, text_lines, texts,
    unicode_lowercase,
};
use vstd::prelude::*;

verus! {

/// What constraints are expanded with.
pub struct ConstraintExpansion<'a> {
    pub request: &'a ContextRequest,
    pub queries: &'a Vec<ContextQuery>,
    pub path_scorer: &'a ContextPathScorer,
}

/// A file that a required path pattern matches, with its chunks.
#[derive(Debug)]
pub struct RequiredFile {
    pub pattern: String,
    pub file: IndexedFile,
    pub chunks: Vec<FileChunk>,
}

/// What a [`RequiredFile`] says.
pub struct RequiredFileView {
    pub pattern: Seq<char>,
    pub file: FileView,
    pub chunks: Seq<ChunkView>,
}

impl View for RequiredFile {
    type V = RequiredFileView;

    open spec fn view(&self) -> RequiredFileView {
        RequiredFileView {
            pattern: self.pattern@,
            file: self.file@,
            chunks: views(self.chunks@),
        }
    }
}

/// The position among the first `upto` chunks of the most relevant one: of two
/// as relevant the one that begins earlier, and of two that begin together the
/// later one.
pub open spec fn best_chunk(
    chunks: Seq<ChunkView>,
    queries: Seq<QueryView>,
    upto: int,
) -> Option<int>
    decreases upto,
{
    if upto <= 0 || upto > chunks.len() {
        None
    } else {
        let before = best_chunk(chunks, queries, upto - 1);
        let found = text_relevance(chunks[upto - 1].content, queries);
        match before {
            _ if found == 0 => before,
            None => Some(upto - 1),
            Some(at) => {
                let held = text_relevance(chunks[at].content, queries);
                if found > held || found == held && chunks[upto - 1].start_line
                    <= chunks[at].start_line {
                    Some(upto - 1)
                } else {
                    before
                }
            },
        }
    }
}

/// The best chunk of a file as a candidate for a required path.
pub open spec fn path_candidate(
    expansion: ConstraintExpansion<'_>,
    entry: RequiredFileView,
    at: int,
) -> CandidateView {
    let chunk = entry.chunks[at];
    CandidateView {
        exact: points_of(text_relevance(chunk.content, views(expansion.queries@))),
        path_score: path_points(expansion.path_scorer@, entry.file.path),
        focus_boost: 200,
        ..plain(entry.file.path, chunk.start_line, chunk.end_line, chunk.content).found_as(
            "must_path"@,
        ).about("must:path:"@ + entry.pattern, 200).shown_as("required_path"@)
    }
}

/// The beginning of a file as a candidate for a required path.
pub open spec fn path_fallback_candidate(entry: RequiredFileView, excerpt: ExcerptView) ->
    CandidateView {
    CandidateView {
        exact: 200,
        focus_boost: 200,
        ..plain(entry.file.path, excerpt.start_line, excerpt.end_line, excerpt.content).found_as(
            "must_path_fallback"@,
        ).about("must:path:"@ + entry.pattern, 200).shown_as("required_path_fallback"@)
    }
}

/// The best chunk of a required file.
pub open spec fn best_of(expansion: ConstraintExpansion<'_>, entry: RequiredFileView) -> Option<
    int,
> {
    best_chunk(entry.chunks, views(expansion.queries@), entry.chunks.len() as int)
}

/// The candidates, with the first `upto` required files that hold something
/// relevant.
pub open spec fn with_paths(
    candidates: Seq<CandidateView>,
    expansion: ConstraintExpansion<'_>,
    entries: Seq<RequiredFileView>,
    upto: int,
) -> Seq<CandidateView>
    decreases upto,
{
    if upto <= 0 || upto > entries.len() {
        candidates
    } else {
        let before = with_paths(candidates, expansion, entries, upto - 1);
        match best_of(expansion, entries[upto - 1]) {
            Some(at) => before.push(path_candidate(expansion, entries[upto - 1], at)),
            None => before,
        }
    }
}

/// The required files among the first `upto` that hold nothing relevant.
pub open spec fn path_fallbacks(
    expansion: ConstraintExpansion<'_>,
    entries: Seq<RequiredFileView>,
    upto: int,
) -> Seq<RequiredFileView>
    decreases upto,
{
    if upto <= 0 || upto > entries.len() {
        Seq::empty()
    } else {
        let before = path_fallbacks(expansion, entries, upto - 1);
        if best_of(expansion, entries[upto - 1]) is None {
            before.push(entries[upto - 1])
        } else {
            before
        }
    }
}

/// The lines that are asked for of files that hold nothing relevant.
pub open spec fn beginning_requests(entries: Seq<RequiredFileView>) -> Seq<StoredExcerptRequest> {
    Seq::new(
        entries.len(),
        |i: int|
            StoredExcerptRequest {
                file_id: entries[i].file.id,
                desired_start_line: 1,
                desired_end_line: 40,
                required_start_line: 1,
                required_end_line: 1,
                max_lines: 40,
            },
    )
}

/// The candidates, with the beginnings of the first `upto` files that hold
/// nothing relevant.
pub open spec fn with_beginnings(
    candidates: Seq<CandidateView>,
    entries: Seq<RequiredFileView>,
    shown: Seq<Option<ExcerptView>>,
    upto: int,
) -> Seq<CandidateView>
    decreases upto,
{
    if upto <= 0 || upto > entries.len() {
        candidates
    } else {
        let before = with_beginnings(candidates, entries, shown, upto - 1);
        match answer_at(shown, upto - 1) {
            Some(excerpt) => before.push(path_fallback_candidate(entries[upto - 1], excerpt)),
            None => before,
        }
    }
}

/// What is noted of looking into the first `upto` required files.
pub open spec fn after_required(
    tracker: TrackerView,
    entries: Seq<RequiredFileView>,
    upto: int,
) -> TrackerView
    decreases upto,
{
    if upto <= 0 || upto > entries.len() {
        tracker
    } else {
        noted(
            after_required(tracker, entries, upto - 1),
            "required_path_chunks"@,
            file_inputs(entries[upto - 1].file.id, MAX_CONTEXT_FOCUS_CHUNKS_PER_FILE),
        )
    }
}

fn find_best(expansion: &ConstraintExpansion<'_>, entry: &RequiredFile) -> (r: Option<usize>)
    ensures
        match r {
            Some(at) => best_of(*expansion, entry@) == Some(at as int) && at < entry.chunks@.len(),
            None => best_of(*expansion, entry@) is None,
        },
{
    let ghost all = entry@.chunks;
    let ghost asked = views(expansion.queries@);
    assert(all.len() == entry.chunks@.len());
    let mut best: Option<usize> = None;
    let mut held: usize = 0;
    let mut i: usize = 0;
    while i < entry.chunks.len()
        invariant
            i <= entry.chunks.len(),
            all == entry@.chunks,
            all.len() == entry.chunks@.len(),
            asked == views(expansion.queries@),
            match best {
                Some(at) => best_chunk(all, asked, i as int) == Some(at as int) && at < i && held
                    == text_relevance(all[at as int].content, asked),
                None => best_chunk(all, asked, i as int) is None,
            },
        decreases entry.chunks.len() - i,
    {
        assert(all[i as int] == entry.chunks@[i as int]@);
        let found: usize = focus_text_relevance(
            entry.chunks[i].content.as_str(),
            expansion.queries,
        );
        if found > 0 {
            let better = match best {
                None => true,
                Some(at) => {
                    assert(all[at as int] == entry.chunks@[at as int]@);
                    found > held || found == held && entry.chunks[i].start_line
                        <= entry.chunks[at].start_line
                },
            };
            if better {
                best = Some(i);
                held = found;
            }
        }
        i += 1;
    }
    best
}

fn concept_of(start: &str, name: &str) -> (r: String)
    ensures
        r@ == start@ + name@,
{
    appended(copy_text(start), name)
}

impl Services {
    /// Adds the candidates of required paths: the most relevant chunk of each
    /// file, or its beginning.
    #[verifier::rlimit(40)]
    pub fn append_required_path_candidates(
        expansion: &ConstraintExpansion<'_>,
        entries: &Vec<RequiredFile>,
        beginnings: &Vec<Option<StoredExcerpt>>,
        candidates: &mut Vec<Candidate>,
        phases: &mut ContextPhaseTracker,
    )
        ensures
            ({
                let all = views(entries@);
                let count = all.len() as int;
                let rest = path_fallbacks(*expansion, all, count);
                &&& views(final(candidates)@) == with_beginnings(
                    with_paths(views(old(candidates)@), *expansion, all, count),
                    rest,
                    excerpts(beginnings@),
                    rest.len() as int,
                )
                &&& final(phases)@ == after_stored(
                    after_required(old(phases)@, all, count),
                    beginning_requests(rest),
                )
            }),
    {
        let ghost all = views(entries@);
        let ghost start = views(candidates@);
        let ghost counted_before = phases@;
        let mut rest: Vec<usize> = Vec::new();
        let mut requests: Vec<StoredExcerptRequest> = Vec::new();
        let mut i: usize = 0;
        proof {
            assert(Seq::new(rest@.len(), |k: int| all[rest@[k] as int])
                =~= Seq::<RequiredFileView>::empty());
            assert(requests@ =~= beginning_requests(Seq::empty()));
        }
        while i < entries.len()
            invariant
                i <= entries.len(),
                all == views(entries@),
                all.len() == entries@.len(),
                views(candidates@) == with_paths(start, *expansion, all, i as int),
                forall|k: int| 0 <= k < rest@.len() ==> (#[trigger] rest@[k]) < entries@.len(),
                Seq::new(rest@.len(), |k: int| all[rest@[k] as int]) == path_fallbacks(
                    *expansion,
                    all,
                    i as int,
                ),
                requests@ == beginning_requests(path_fallbacks(*expansion, all, i as int)),
                phases@ == after_required(counted_before, all, i as int),
            decreases entries.len() - i,
        {
            let entry = &entries[i];
            assert(all[i as int] == entry@);
            phases.record_primitive(
                "required_path_chunks",
                file_key(entry.file.id, MAX_CONTEXT_FOCUS_CHUNKS_PER_FILE),
            );
            match find_best(expansion, entry) {
                Some(at) => {
                    let chunk = &entry.chunks[at];
                    assert(entry@.chunks[at as int] == chunk@);
                    let found: usize = focus_text_relevance(
                        chunk.content.as_str(),
                        expansion.queries,
                    );
                    let concept = concept_of("must:path:", entry.pattern.as_str());
                    let mut candidate = Candidate::new(
                        entry.file.path.as_str(),
                        chunk.start_line,
                        chunk.end_line,
                        chunk.content.as_str(),
                    ).match_kind("must_path").concept(concept.as_str(), 200).representation(
                        "required_path",
                    );
                    candidate.exact = to_points(found);
                    candidate.path_score = expansion.path_scorer.score(entry.file.path.as_str());
                    candidate.focus_boost = 200;
                    let ghost before = views(candidates@);
                    let ghost added = candidate@;
                    candidates.push(candidate);
                    assert(views(candidates@) =~= before.push(added));
                },
                None => {
                    let ghost known = Seq::new(rest@.len(), |k: int| all[rest@[k] as int]);
                    let ghost asked = requests@;
                    rest.push(i);
                    assert(Seq::new(rest@.len(), |k: int| all[rest@[k] as int]) =~= known.push(
                        entry@,
                    ));
                    requests.push(
                        StoredExcerptRequest {
                            file_id: entry.file.id,
                            desired_start_line: 1,
                            desired_end_line: 40,
                            required_start_line: 1,
                            required_end_line: 1,
                            max_lines: 40,
                        },
                    );
                    assert(requests@ =~= beginning_requests(known.push(entry@)));
                },
            }
            i += 1;
        }
        phases.record_stored_excerpts(&requests);
        let ghost left = path_fallbacks(*expansion, all, all.len() as int);
        let ghost base = views(candidates@);
        let mut j: usize = 0;
        while j < rest.len()
            invariant
                j <= rest.len(),
                all == views(entries@),
                forall|k: int| 0 <= k < rest@.len() ==> (#[trigger] rest@[k]) < entries@.len(),
                left == Seq::new(rest@.len(), |k: int| all[rest@[k] as int]),
                views(candidates@) == with_beginnings(base, left, excerpts(beginnings@), j as int),
            decreases rest.len() - j,
        {
            let entry = &entries[rest[j]];
            assert(left[j as int] == entry@);
            if j < beginnings.len() {
                assert(excerpts(beginnings@)[j as int] == optional_view(beginnings@[j as int]));
                if let Some(excerpt) = &beginnings[j] {
                    let concept = concept_of("must:path:", entry.pattern.as_str());
                    let mut candidate = Candidate::new(
                        entry.file.path.as_str(),
                        excerpt.start_line,
                        excerpt.end_line,
                        excerpt.content.as_str(),
                    ).match_kind("must_path_fallback").concept(
                        concept.as_str(),
                        200,
                    ).representation("required_path_fallback");
                    candidate.exact = 200;
                    candidate.focus_boost = 200;
                    let ghost before = views(candidates@);
                    let ghost added = candidate@;
                    candidates.push(candidate);
                    assert(views(candidates@) =~= before.push(added));
                }
            }
            j += 1;
        }
    }
}

/// A file that is looked into for required evidence.
#[derive(Debug)]
pub struct EvidenceFile {
    pub file: IndexedFile,
    pub chunks: Vec<FileChunk>,
}

/// What a [`EvidenceFile`] says.
pub struct EvidenceFileView {
    pub file: FileView,
    pub chunks: Seq<ChunkView>,
}

impl View for EvidenceFile {
    type V = EvidenceFileView;

    open spec fn view(&self) -> EvidenceFileView {
        EvidenceFileView { file: self.file@, chunks: views(self.chunks@) }
    }
}

/// Whether a line holds one of some queries, letter case aside.
pub open spec fn line_holds(line: Seq<char>, queries: Seq<Seq<char>>) -> bool {
    exists|i: int|
        0 <= i < queries.len() && occurs(
            unicode_lowercase(line),
            unicode_lowercase(#[trigger] queries[i]),
        )
}

/// The best lines, with the first `upto` lines of a chunk that hold a query.
pub open spec fn with_lines(
    plans: Seq<EvidencePlanView>,
    queries: Seq<Seq<char>>,
    file: FileView,
    chunk: ChunkView,
    upto: int,
) -> Seq<EvidencePlanView>
    decreases upto,
{
    let lines = text_lines(chunk.content);
    if upto <= 0 || upto > lines.len() {
        plans
    } else {
        let before = with_lines(plans, queries, file, chunk, upto - 1);
        if line_holds(lines[upto - 1], queries) {
            with_plan(
                before,
                EvidencePlanView {
                    relevance: query_positions(
                        chunk.content,
                        queries,
                        queries.len() as int,
                    ).len() as usize,
                    path: file.path,
                    file_id: file.id,
                    matched_line: line_number(chunk.start_line, (upto - 1) as nat),
                },
            )
        } else {
            before
        }
    }
}

/// The best lines, with those of the first `upto` chunks of a file.
pub open spec fn with_chunk_lines(
    plans: Seq<EvidencePlanView>,
    queries: Seq<Seq<char>>,
    file: EvidenceFileView,
    upto: int,
) -> Seq<EvidencePlanView>
    decreases upto,
{
    if upto <= 0 || upto > file.chunks.len() {
        plans
    } else {
        let chunk = file.chunks[upto - 1];
        with_lines(
            with_chunk_lines(plans, queries, file, upto - 1),
            queries,
            file.file,
            chunk,
            text_lines(chunk.content).len() as int,
        )
    }
}

/// The best lines that the first `upto` files hold of a piece of required
/// evidence.
pub open spec fn evidence_plans(
    queries: Seq<Seq<char>>,
    files: Seq<EvidenceFileView>,
    upto: int,
) -> Seq<EvidencePlanView>
    decreases upto,
{
    if upto <= 0 || upto > files.len() {
        Seq::empty()
    } else {
        with_chunk_lines(
            evidence_plans(queries, files, upto - 1),
            queries,
            files[upto - 1],
            files[upto - 1].chunks.len() as int,
        )
    }
}

/// The lines that are asked for round lines that hold required evidence.
pub open spec fn evidence_requests(plans: Seq<EvidencePlanView>) -> Seq<StoredExcerptRequest> {
    Seq::new(
        plans.len(),
        |i: int|
            StoredExcerptRequest {
                file_id: plans[i].file_id,
                desired_start_line: lines_above(plans[i].matched_line, 19),
                desired_end_line: line_number(plans[i].matched_line, 20),
                required_start_line: plans[i].matched_line,
                required_end_line: plans[i].matched_line,
                max_lines: 40,
            },
    )
}

/// The marks of the queries that an excerpt holds.
pub open spec fn evidence_marks(requirement: usize, positions: Seq<usize>) -> Seq<EvidenceMark> {
    Seq::new(positions.len(), |i: int| EvidenceMark { requirement, query: positions[i] })
}

/// The lines round a line that holds required evidence as a candidate.
pub open spec fn evidence_candidate(
    expansion: ConstraintExpansion<'_>,
    requirement: usize,
    plan: EvidencePlanView,
    excerpt: ExcerptView,
    positions: Seq<usize>,
    rank: usize,
) -> CandidateView {
    CandidateView {
        evidence: evidence_marks(requirement, positions),
        exact: if positions.len() > 4 {
            400
        } else {
            (positions.len() * 100) as u32
        },
        path_score: path_points(expansion.path_scorer@, plan.path),
        focus_boost: 200,
        ..plain(plan.path, excerpt.start_line, excerpt.end_line, excerpt.content).found_as(
            "required_evidence"@,
        ).about("required:evidence:"@ + decimal_text(requirement as nat), 200).shown_as(
            "required_evidence"@,
        ).through("required_evidence"@, rank)
    }
}

/// The candidates, with the first `upto` lines of a piece of required evidence
/// whose excerpts hold a query.
pub open spec fn with_evidence_lines(
    candidates: Seq<CandidateView>,
    expansion: ConstraintExpansion<'_>,
    requirement: usize,
    queries: Seq<Seq<char>>,
    plans: Seq<EvidencePlanView>,
    shown: Seq<Option<ExcerptView>>,
    upto: int,
) -> Seq<CandidateView>
    decreases upto,
{
    if upto <= 0 || upto > plans.len() {
        candidates
    } else {
        let before = with_evidence_lines(
            candidates,
            expansion,
            requirement,
            queries,
            plans,
            shown,
            upto - 1,
        );
        match answer_at(shown, upto - 1) {
            Some(excerpt) => {
                let positions = query_positions(excerpt.content, queries, queries.len() as int);
                if positions.len() == 0 {
                    before
                } else {
                    before.push(
                        evidence_candidate(
                            expansion,
                            requirement,
                            plans[upto - 1],
                            excerpt,
                            positions,
                            (upto - 1) as usize,
                        ),
                    )
                }
            },
            None => before,
        }
    }
}

/// What is noted of looking into the first `upto` files for required evidence.
pub open spec fn after_evidence_files(
    tracker: TrackerView,
    files: Seq<EvidenceFileView>,
    upto: int,
) -> TrackerView
    decreases upto,
{
    if upto <= 0 || upto > files.len() {
        tracker
    } else {
        noted(
            after_evidence_files(tracker, files, upto - 1),
            "required_evidence_chunks"@,
            file_inputs(files[upto - 1].file.id, MAX_CONTEXT_FOCUS_CHUNKS_PER_FILE),
        )
    }
}

/// What a piece of required evidence is looked for in, and the excerpts that
/// were asked for.
#[derive(Debug)]
pub struct EvidenceFacts {
    pub files: Vec<EvidenceFile>,
    pub excerpts: Vec<Option<StoredExcerpt>>,
}

/// What a [`EvidenceFacts`] says.
pub struct EvidenceFactsView {
    pub files: Seq<EvidenceFileView>,
    pub excerpts: Seq<Option<ExcerptView>>,
}

impl View for EvidenceFacts {
    type V = EvidenceFactsView;

    open spec fn view(&self) -> EvidenceFactsView {
        EvidenceFactsView { files: views(self.files@), excerpts: excerpts(self.excerpts@) }
    }
}

/// What required evidence brings.
pub struct EvidenceOutcome {
    pub candidates: Seq<CandidateView>,
    pub tracker: TrackerView,
}

/// What the first `upto` pieces of required evidence bring.
pub open spec fn evidence_outcome(
    start: EvidenceOutcome,
    expansion: ConstraintExpansion<'_>,
    facts: Seq<EvidenceFactsView>,
    upto: int,
) -> EvidenceOutcome
    decreases upto,
{
    let required = expansion.request.required_evidence@;
    if upto <= 0 || upto > required.len() || upto > facts.len() {
        start
    } else {
        let before = evidence_outcome(start, expansion, facts, upto - 1);
        let queries = texts(required[upto - 1].queries@);
        let files = facts[upto - 1].files;
        let plans = evidence_plans(queries, files, files.len() as int);
        EvidenceOutcome {
            candidates: with_evidence_lines(
                before.candidates,
                expansion,
                (upto - 1) as usize,
                queries,
                plans,
                facts[upto - 1].excerpts,
                plans.len() as int,
            ),
            tracker: after_stored(
                after_evidence_files(before.tracker, files, files.len() as int),
                evidence_requests(plans),
            ),
        }
    }
}

fn holds_any(line: &str, queries: &Vec<String>) -> (r: bool)
    ensures
        r == line_holds(line@, texts(queries@)),
{
    let ghost all = texts(queries@);
    let normalized = line.to_lowercase();
    let mut i: usize = 0;
    while i < queries.len()
        invariant
            i <= queries.len(),
            all == texts(queries@),
            normalized@ == unicode_lowercase(line@),
            forall|k: int|
                0 <= k < i ==> !occurs(
                    unicode_lowercase(line@),
                    unicode_lowercase(#[trigger] all[k]),
                ),
        decreases queries.len() - i,
    {
        assert(all[i as int] == queries@[i as int]@);
        let query = queries[i].as_str().to_lowercase();
        if contains_text(normalized.as_str(), query.as_str()) {
            assert(occurs(unicode_lowercase(line@), unicode_lowercase(all[i as int])));
            return true;
        }
        i += 1;
    }
    assert(all.len() == queries@.len());
    false
}

fn add_lines(
    plans: &mut Vec<RequiredEvidenceExcerptPlan>,
    queries: &Vec<String>,
    file: &IndexedFile,
    chunk: &FileChunk,
)
    ensures
        views(final(plans)@) == with_lines(
            views(old(plans)@),
            texts(queries@),
            file@,
            chunk@,
            text_lines(chunk@.content).len() as int,
        ),
{
    let ghost start = views(plans@);
    let found: usize = required_evidence_query_matches(chunk.content.as_str(), queries).len();
    let lines = lines_of(chunk.content.as_str());
    let ghost all = text_lines(chunk@.content);
    assert(all.len() == lines@.len());
    assert(texts(queries@).len() == queries@.len());
    let mut i: usize = 0;
    while i < lines.len()
        invariant
            i <= lines.len(),
            all == texts(lines@),
            all == text_lines(chunk@.content),
            all.len() == lines@.len(),
            found == query_positions(
                chunk@.content,
                texts(queries@),
                texts(queries@).len() as int,
            ).len(),
            views(plans@) == with_lines(start, texts(queries@), file@, chunk@, i as int),
        decreases lines.len() - i,
    {
        assert(all[i as int] == lines@[i as int]@);
        if holds_any(lines[i].as_str(), queries) {
            retain_required_evidence_plan(
                plans,
                RequiredEvidenceExcerptPlan {
                    relevance: found,
                    path: file.path.clone(),
                    file_id: file.id,
                    matched_line: chunk.start_line.saturating_add(i),
                },
            );
        }
        i += 1;
    }
}

fn add_file_lines(
    plans: &mut Vec<RequiredEvidenceExcerptPlan>,
    queries: &Vec<String>,
    file: &EvidenceFile,
)
    ensures
        views(final(plans)@) == with_chunk_lines(
            views(old(plans)@),
            texts(queries@),
            file@,
            file@.chunks.len() as int,
        ),
{
    let ghost start = views(plans@);
    assert(file@.chunks.len() == file.chunks@.len());
    let mut i: usize = 0;
    while i < file.chunks.len()
        invariant
            i <= file.chunks.len(),
            file@.chunks.len() == file.chunks@.len(),
            views(plans@) == with_chunk_lines(start, texts(queries@), file@, i as int),
        decreases file.chunks.len() - i,
    {
        assert(file@.chunks[i as int] == file.chunks@[i as int]@);
        add_lines(plans, queries, &file.file, &file.chunks[i]);
        i += 1;
    }
}

/// The best lines that files hold of a piece of required evidence.
pub fn required_evidence_plans(queries: &Vec<String>, files: &Vec<EvidenceFile>) -> (r: Vec<
    RequiredEvidenceExcerptPlan,
>)
    ensures
        views(r@) == evidence_plans(texts(queries@), views(files@), files@.len() as int),
{
    let ghost all = views(files@);
    let mut plans: Vec<RequiredEvidenceExcerptPlan> = Vec::new();
    assert(views(plans@) =~= Seq::<EvidencePlanView>::empty());
    let mut i: usize = 0;
    while i < files.len()
        invariant
            i <= files.len(),
            all == views(files@),
            all.len() == files@.len(),
            views(plans@) == evidence_plans(texts(queries@), all, i as int),
        decreases files.len() - i,
    {
        assert(all[i as int] == files@[i as int]@);
        add_file_lines(&mut plans, queries, &files[i]);
        i += 1;
    }
    plans
}

/// The lines that are asked for round lines that hold required evidence.
pub fn evidence_excerpt_requests(plans: &Vec<RequiredEvidenceExcerptPlan>) -> (r: Vec<
    StoredExcerptRequest,
>)
    ensures
        r@ == evidence_requests(views(plans@)),
{
    let ghost all = evidence_requests(views(plans@));
    let mut out: Vec<StoredExcerptRequest> = Vec::new();
    let mut i: usize = 0;
    assert(out@ =~= all.take(0));
    while i < plans.len()
        invariant
            i <= plans.len(),
            all == evidence_requests(views(plans@)),
            out@ == all.take(i as int),
        decreases plans.len() - i,
    {
        let line: usize = plans[i].matched_line;
        let above: usize = line.saturating_sub(19);
        out.push(
            StoredExcerptRequest {
                file_id: plans[i].file_id,
                desired_start_line: if above < 1 {
                    1
                } else {
                    above
                },
                desired_end_line: line.saturating_add(20),
                required_start_line: line,
                required_end_line: line,
                max_lines: 40,
            },
        );
        assert(views(plans@)[i as int] == plans@[i as int]@);
        assert(out@ =~= all.take(i + 1));
        i += 1;
    }
    assert(all.take(all.len() as int) =~= all);
    out
}

fn make_marks(requirement: usize, positions: &Vec<usize>) -> (r: Vec<EvidenceMark>)
    ensures
        r@ == evidence_marks(requirement, positions@),
{
    let ghost all = evidence_marks(requirement, positions@);
    let mut out: Vec<EvidenceMark> = Vec::new();
    let mut i: usize = 0;
    assert(out@ =~= all.take(0));
    while i < positions.len()
        invariant
            i <= positions.len(),
            all == evidence_marks(requirement, positions@),
            out@ == all.take(i as int),
        decreases positions.len() - i,
    {
        out.push(EvidenceMark { requirement, query: positions[i] });
        assert(out@ =~= all.take(i + 1));
        i += 1;
    }
    assert(all.take(all.len() as int) =~= all);
    out
}

fn add_evidence_lines(
    candidates: &mut Vec<Candidate>,
    expansion: &ConstraintExpansion<'_>,
    requirement: usize,
    queries: &Vec<String>,
    plans: &Vec<RequiredEvidenceExcerptPlan>,
    shown: &Vec<Option<StoredExcerpt>>,
)
    ensures
        views(final(candidates)@) == with_evidence_lines(
            views(old(candidates)@),
            *expansion,
            requirement,
            texts(queries@),
            views(plans@),
            excerpts(shown@),
            plans@.len() as int,
        ),
{
    let ghost start = views(candidates@);
    let ghost all = views(plans@);
    assert(texts(queries@).len() == queries@.len());
    let mut i: usize = 0;
    while i < plans.len()
        invariant
            i <= plans.len(),
            all == views(plans@),
            all.len() == plans@.len(),
            texts(queries@).len() == queries@.len(),
            views(candidates@) == with_evidence_lines(
                start,
                *expansion,
                requirement,
                texts(queries@),
                all,
                excerpts(shown@),
                i as int,
            ),
        decreases plans.len() - i,
    {
        assert(all[i as int] == plans@[i as int]@);
        if i < shown.len() {
            assert(excerpts(shown@)[i as int] == optional_view(shown@[i as int]));
            if let Some(excerpt) = &shown[i] {
                let positions = required_evidence_query_matches(
                    excerpt.content.as_str(),
                    queries,
                );
                if positions.len() > 0 {
                    let concept = concept_of(
                        "required:evidence:",
                        decimal(requirement as u64).as_str(),
                    );
                    let mut candidate = Candidate::new(
                        plans[i].path.as_str(),
                        excerpt.start_line,
                        excerpt.end_line,
                        excerpt.content.as_str(),
                    ).match_kind("required_evidence").concept(
                        concept.as_str(),
                        200,
                    ).representation("required_evidence").channel("required_evidence", i);
                    candidate.evidence = make_marks(requirement, &positions);
                    candidate.exact = if positions.len() > 4 {
                        400
                    } else {
                        positions.len() as u32 * 100
                    };
                    candidate.path_score = expansion.path_scorer.score(plans[i].path.as_str());
                    candidate.focus_boost = 200;
                    let ghost before = views(candidates@);
                    let ghost added = candidate@;
                    candidates.push(candidate);
                    assert(views(candidates@) =~= before.push(added));
                }
            }
        }
        i += 1;
    }
}

fn note_files(phases: &mut ContextPhaseTracker, files: &Vec<EvidenceFile>)
    ensures
        final(phases)@ == after_evidence_files(
            old(phases)@,
            views(files@),
            files@.len() as int,
        ),
{
    let ghost start = phases@;
    let ghost all = views(files@);
    let mut i: usize = 0;
    while i < files.len()
        invariant
            i <= files.len(),
            all == views(files@),
            all.len() == files@.len(),
            phases@ == after_evidence_files(start, all, i as int),
        decreases files.len() - i,
    {
        assert(all[i as int] == files@[i as int]@);
        phases.record_primitive(
            "required_evidence_chunks",
            file_key(files[i].file.id, MAX_CONTEXT_FOCUS_CHUNKS_PER_FILE),
        );
        i += 1;
    }
}

impl Services {
    /// Adds the candidates of required evidence: the lines round the best lines
    /// that hold a query.
    pub fn append_required_evidence_candidates(
        expansion: &ConstraintExpansion<'_>,
        facts: &Vec<EvidenceFacts>,
        candidates: &mut Vec<Candidate>,
        phases: &mut ContextPhaseTracker,
    )
        ensures
            (EvidenceOutcome {
                candidates: views(final(candidates)@),
                tracker: final(phases)@,
            }) == evidence_outcome(
                EvidenceOutcome { candidates: views(old(candidates)@), tracker: old(phases)@ },
                *expansion,
                views(facts@),
                crate::context::delivery::decided(
                    expansion.request.required_evidence@.len(),
                    facts@.len(),
                ) as int,
            ),
    {
        let ghost start = EvidenceOutcome { candidates: views(candidates@), tracker: phases@ };
        let ghost given = views(facts@);
        let required = &expansion.request.required_evidence;
        let mut i: usize = 0;
        while i < required.len() && i < facts.len()
            invariant
                i <= required.len(),
                i <= facts.len(),
                required == expansion.request.required_evidence,
                given == views(facts@),
                given.len() == facts@.len(),
                evidence_outcome(start, *expansion, given, i as int) == (EvidenceOutcome {
                    candidates: views(candidates@),
                    tracker: phases@,
                }),
            decreases required.len() - i,
        {
            let item = &facts[i];
            assert(given[i as int] == item@);
            assert(views(item.files@).len() == item.files@.len());
            note_files(phases, &item.files);
            let plans = required_evidence_plans(&required[i].queries, &item.files);
            assert(views(plans@).len() == plans@.len());
            phases.record_stored_excerpts(&evidence_excerpt_requests(&plans));
            add_evidence_lines(
                candidates,
                expansion,
                i,
                &required[i].queries,
                &plans,
                &item.excerpts,
            );
            i += 1;
        }
    }
}

} // verus!
