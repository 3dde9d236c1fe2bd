//! What a request requires.

use crate::context::candidates::constraints::{
    eligible_count, evidence_uncovered, focus_count, focus_marks, required_entries, required_file,
    required_symbol_candidate, required_symbol_requests, FocusScanView, JudgedView,
    RequiredSymbolView,
};
use crate::context::candidates::focus::FileChunk;
use crate::context::candidates::graph::{import_requests, ImportTargetView, PendingImport};
use crate::context::candidates::lexical::ExcerptView;
use crate::context::candidates::required::{
    beginning_requests, path_candidate, path_fallback_candidate, ConstraintExpansion,
    RequiredFileView,
};
use crate::context::candidates::retain::{plan_first, EvidencePlanView};
use crate::context::candidates::workflow::FileView;
use crate::context::delivery::flag_at;
use crate::lists::{first_where, tally_bounds};
use crate::model::ContextRequest;
use crate::ordered::text_lt;
use vstd::prelude::*;

verus! {

/// A required path takes the first allowed file that its pattern matches, and is without
/// one exactly where no allowed file is matched.
pub proof fn a_required_path_takes_its_first_allowed_file(files: Seq<JudgedView>, pattern: int)
    ensures
        required_file(files, pattern) is None <==> forall|k: int|
            0 <= k < files.len() ==> !(flag_at((#[trigger] files[k]).verdicts.required, pattern)
                && files[k].verdicts.allowed),
        required_file(files, pattern) is Some ==> exists|k: int|
            {
                &&& 0 <= k < files.len()
                &&& (#[trigger] files[k]).file == required_file(files, pattern)->0
                &&& flag_at(files[k].verdicts.required, pattern)
                &&& files[k].verdicts.allowed
                &&& forall|j: int|
                    0 <= j < k ==> !(flag_at((#[trigger] files[j]).verdicts.required, pattern)
                        && files[j].verdicts.allowed)
            },
{
    let p = crate::context::candidates::constraints::required_allowed(pattern);
    tally_bounds(files, p);
    let at = first_where(files, p);
    if at < files.len() {
        assert(p(files[at]));
        assert(files[at].file == required_file(files, pattern)->0);
        assert forall|j: int| 0 <= j < at implies !(flag_at(
            (#[trigger] files[j]).verdicts.required,
            pattern,
        ) && files[j].verdicts.allowed) by {
            assert(!p(files[j]));
        }
    } else {
        assert forall|k: int| 0 <= k < files.len() implies !(flag_at(
            (#[trigger] files[k]).verdicts.required,
            pattern,
        ) && files[k].verdicts.allowed) by {
            assert(!p(files[k]));
        }
    }
}

/// A required symbol counts two hundred as what it is, as a symbol and as a focus, and is
/// told by its own lines, whatever lines are shown.
pub proof fn a_required_symbol_counts_in_full(
    item: RequiredSymbolView,
    excerpt: ExcerptView,
    rank: usize,
)
    ensures
        ({
            let out = required_symbol_candidate(item, excerpt, rank);
            &&& out.exact == 200 && out.symbol == 200 && out.focus_boost == 200
            &&& out.reference == 0
            &&& out.path == item.hit.path
            &&& out.symbol_name == Some(item.hit.name)
            &&& out.target matches Some(lines) && lines.start == item.hit.start_line && lines.end
                == item.hit.end_line
            &&& out.start_line == excerpt.start_line && out.end_line == excerpt.end_line
            &&& out.content == excerpt.content
            &&& out.concept_weight == 200
            &&& out.match_kinds == seq!["must_symbol"@]
        }),
{
}

/// A required symbol is asked for by its own lines, and a file that has nothing better to
/// show by its first forty.
pub proof fn required_excerpts_are_asked_for_by_their_lines(
    list: Seq<RequiredSymbolView>,
    entries: Seq<RequiredFileView>,
    token_budget: usize,
    i: int,
)
    ensures
        required_symbol_requests(list, token_budget).len() == list.len(),
        0 <= i < list.len() ==> {
            let asked = required_symbol_requests(list, token_budget)[i];
            &&& asked.file_id == list[i].hit.file_id
            &&& asked.declaration_start == list[i].hit.start_line
            &&& asked.declaration_end == list[i].hit.end_line
            &&& asked.matched_line == list[i].hit.start_line
        },
        beginning_requests(entries).len() == entries.len(),
        0 <= i < entries.len() ==> {
            let asked = beginning_requests(entries)[i];
            &&& asked.file_id == entries[i].file.id
            &&& asked.desired_start_line == 1 && asked.desired_end_line == 40
            &&& asked.required_start_line == 1 && asked.required_end_line == 1
            &&& asked.max_lines == 40
        },
{
}

/// A required path is shown by a chunk of its file where one is chosen, and by its
/// beginning where none is; it counts two hundred as a focus either way.
pub proof fn a_required_path_counts_as_a_focus(
    expansion: ConstraintExpansion<'_>,
    entry: RequiredFileView,
    at: int,
    excerpt: ExcerptView,
)
    requires
        0 <= at < entry.chunks.len(),
    ensures
        ({
            let out = path_candidate(expansion, entry, at);
            let fallback = path_fallback_candidate(entry, excerpt);
            &&& out.path == entry.file.path && fallback.path == entry.file.path
            &&& out.focus_boost == 200 && fallback.focus_boost == 200
            &&& out.start_line == entry.chunks[at].start_line
            &&& out.end_line == entry.chunks[at].end_line
            &&& out.content == entry.chunks[at].content
            &&& fallback.start_line == excerpt.start_line && fallback.end_line
                == excerpt.end_line && fallback.content == excerpt.content
            &&& fallback.exact == 200
            &&& out.concept_weight == 200 && fallback.concept_weight == 200
            &&& out.match_kinds == seq!["must_path"@]
            &&& fallback.match_kinds == seq!["must_path_fallback"@]
        }),
{
}

/// The files of required paths stand in the order of their patterns, and a pattern
/// without a file has no entry.
pub proof fn required_files_stand_in_the_order_of_their_patterns(
    patterns: Seq<Seq<char>>,
    files: Seq<Option<FileView>>,
    chunks: Seq<Vec<FileChunk>>,
    upto: int,
)
    requires
        0 <= upto <= patterns.len(),
        upto <= files.len(),
    ensures
        required_entries(patterns, files, chunks, upto).len() <= upto,
        upto > 0 && files[upto - 1] is Some ==> {
            let out = required_entries(patterns, files, chunks, upto);
            &&& out.len() == required_entries(patterns, files, chunks, upto - 1).len() + 1
            &&& out.last().pattern == patterns[upto - 1]
            &&& out.last().file == files[upto - 1]->0
        },
        upto > 0 && files[upto - 1] is None ==> required_entries(patterns, files, chunks, upto)
            == required_entries(patterns, files, chunks, upto - 1),
    decreases upto,
{
    if upto > 0 {
        required_files_stand_in_the_order_of_their_patterns(patterns, files, chunks, upto - 1);
    }
}

/// No more files are eligible than are matched, and no more are matched than there are.
pub proof fn eligible_files_are_matched_files(
    request: ContextRequest,
    files: Seq<JudgedView>,
    pattern: int,
    upto: int,
)
    requires
        0 <= upto <= files.len(),
    ensures
        eligible_count(request, files, pattern, upto) <= focus_count(files, pattern, upto) <= upto,
        upto > 0 && !flag_at(files[upto - 1].verdicts.focus, pattern) ==> focus_count(
            files,
            pattern,
            upto,
        ) == focus_count(files, pattern, upto - 1),
        upto > 0 && flag_at(files[upto - 1].verdicts.focus, pattern) ==> focus_count(
            files,
            pattern,
            upto,
        ) == focus_count(files, pattern, upto - 1) + 1,
    decreases upto,
{
    if upto > 0 {
        eligible_files_are_matched_files(request, files, pattern, upto - 1);
    }
}

/// Before anything is selected, required evidence has matched no query and is not
/// satisfied; it names all that it asks for.
pub proof fn evidence_is_uncovered_at_first(
    request: ContextRequest,
    counts: Seq<usize>,
    files: Seq<Seq<FileView>>,
    scans: Seq<FocusScanView>,
    i: int,
)
    requires
        0 <= i < request.required_evidence@.len(),
    ensures
        ({
            let told = evidence_uncovered(request, counts, files);
            &&& told.len() == request.required_evidence@.len()
            &&& told[i].path == request.required_evidence@[i].path@
            &&& told[i].indexed_paths == counts[i]
            &&& told[i].inspected_paths == files[i].len() as usize
            &&& told[i].matched_queries.len() == 0
            &&& told[i].unmatched_queries.len() == request.required_evidence@[i].queries@.len()
            &&& told[i].selected_fragments == 0
            &&& !told[i].satisfied
        }),
        forall|k: int|
            0 <= k < scans.len() ==> (#[trigger] focus_marks(scans)[k] <==> scans[k].indexed_paths
                > 0),
{
}

/// Of two lines of evidence the more relevant one comes first, of equally relevant ones
/// that of the first path, and in one path the earlier.
pub proof fn more_relevant_lines_come_first(a: EvidencePlanView, b: EvidencePlanView)
    ensures
        a.relevance > b.relevance ==> plan_first(a, b) && !plan_first(b, a),
        a.relevance == b.relevance && text_lt(a.path, b.path) ==> plan_first(a, b),
        a.relevance == b.relevance && a.path == b.path && a.matched_line < b.matched_line
            ==> plan_first(a, b) && !plan_first(b, a),
        a.relevance == b.relevance && a.path == b.path && a.matched_line == b.matched_line
            ==> !plan_first(a, b),
{
}

/// An imported symbol is asked for by its own lines in the file that declares it.
pub proof fn an_imported_symbol_is_asked_for_by_its_lines(
    targets: Seq<ImportTargetView>,
    pending: Seq<PendingImport>,
    token_budget: usize,
    i: int,
)
    requires
        0 <= i < pending.len(),
        pending[i].target < targets.len(),
        pending[i].symbol < targets[pending[i].target as int].symbols.len(),
    ensures
        ({
            let asked = import_requests(targets, pending, token_budget)[i];
            let target = targets[pending[i].target as int];
            let symbol = target.symbols[pending[i].symbol as int];
            &&& import_requests(targets, pending, token_budget).len() == pending.len()
            &&& asked.file_id == target.file_id
            &&& asked.declaration_start == symbol.start_line
            &&& asked.declaration_end == symbol.end_line
            &&& asked.matched_line == symbol.start_line
            &&& asked.token_budget <= 384
        }),
{
}

} // verus!
