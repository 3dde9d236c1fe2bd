//! Handoff manifests: what the next worker needs to continue a task.

use crate::error::{first_fault, reports, Error, Fault};
use crate::model::{
    ContextRequest, DiffScopeReceipt, HandoffEvidence, HandoffManifest, HandoffManifestRequest,
    HandoffValidation, HandoffWorkingTreeState, PlaceView, RelatedView, RepositoryProvenance,
    ResponseMeta, ValidationView,
};
use crate::ordered::{
    remove_repeats, sort_by, sort_unique_texts, sorted_by, sorted_unique, text_lt, views,
    without_repeats,
};
use crate::text::{
    begins, byte_len, byte_len_push, byte_len_take, char_bytes, chars_of, contains_text, copy_text,
    copy_texts, copy_optional_text, decimal, decimal_text, ends, ends_text, file_name, lower_text,
    lowered, name_of, occurs, optional_text, same_text, starts_text, text_of, texts, trim_text,
    trimmed,
};
use crate::validation::{
    blank, blank_fault, byte_size, first_in, too_long, too_many, validate_input,
    validate_optional_input,
};
use vstd::prelude::*;

verus! {

/// The version of the manifest's form.
pub const HANDOFF_SCHEMA_VERSION: u32 = 1;

/// The longest summary.
pub const MAX_SUMMARY_BYTES: usize = 512;

/// The longest host note.
pub const MAX_NOTE_BYTES: usize = 512;

/// The longest validation command.
pub const MAX_VALIDATION_COMMAND_BYTES: usize = 1024;

/// The most items of each host list.
pub const MAX_HOST_ITEMS: usize = 16;

/// The most places of evidence.
pub const MAX_EVIDENCE: usize = 100;

/// The most held fragment hashes.
pub const MAX_HELD_HASHES: usize = 64;

/// The most focus paths, and focus symbols.
pub const MAX_FOCUS_ITEMS: usize = 32;

/// The most changed paths.
pub const MAX_CHANGED_PATHS: usize = 64;

/// The most related paths.
pub const MAX_RELATED_PATHS: usize = 64;

/// The most test paths.
pub const MAX_TEST_PATHS: usize = 32;

/// The most gaps.
pub const MAX_GAPS: usize = 64;

/// Where the repository stood when the manifest was made.
pub struct HandoffProvenance {
    pub commit_revision: Option<String>,
    pub commit_revision_available: bool,
    pub working_tree_state: HandoffWorkingTreeState,
    pub working_tree_paths: Vec<String>,
    pub provenance: Option<RepositoryProvenance>,
}

/// The part of a context response that a manifest reads.
pub struct HandoffSource<'a> {
    pub task_fingerprint: &'a String,
    pub meta: &'a ResponseMeta,
    pub diff_scope: Option<&'a DiffScopeReceipt>,
}

/// What is checked of one host note.
pub open spec fn note_check(field: Seq<char>) -> spec_fn(Seq<char>) -> Option<Fault> {
    |note: Seq<char>|
        first_fault(
            too_long(note, field, MAX_NOTE_BYTES),
            blank_fault(note, field, "items must not be empty"@),
        )
}

/// The fault of a list of host notes.
pub open spec fn notes_fault(notes: Seq<Seq<char>>, field: Seq<char>) -> Option<Fault> {
    first_fault(
        too_many(notes.len(), field, MAX_HOST_ITEMS),
        first_in(notes, note_check(field), 0),
    )
}

/// The fault of a text that may be missing.
pub open spec fn optional_fault(
    value: Option<Seq<char>>,
    field: Seq<char>,
    max_bytes: usize,
) -> Option<Fault> {
    match value {
        Some(text) => first_fault(
            too_long(text, field, max_bytes),
            blank_fault(text, field, "must not be empty"@),
        ),
        None => None,
    }
}

/// What is checked of one validation.
pub open spec fn validation_check() -> spec_fn(ValidationView) -> Option<Fault> {
    |validation: ValidationView|
        first_fault(
            first_fault(
                too_long(
                    validation.command,
                    "handoff.validations.command"@,
                    MAX_VALIDATION_COMMAND_BYTES,
                ),
                blank_fault(
                    validation.command,
                    "handoff.validations.command"@,
                    "must not be empty"@,
                ),
            ),
            optional_fault(validation.summary, "handoff.validations.summary"@, MAX_NOTE_BYTES),
        )
}

/// The fault of a manifest request.
pub open spec fn request_fault(request: HandoffManifestRequest) -> Option<Fault> {
    first_fault(
        optional_fault(optional_text(request.summary), "handoff.summary"@, MAX_SUMMARY_BYTES),
        first_fault(
            notes_fault(texts(request.assumptions@), "handoff.assumptions"@),
            first_fault(
                notes_fault(texts(request.open_questions@), "handoff.open_questions"@),
                first_fault(
                    notes_fault(texts(request.negative_evidence@), "handoff.negative_evidence"@),
                    first_fault(
                        notes_fault(texts(request.avoid_rules@), "handoff.avoid_rules"@),
                        first_fault(
                            too_many(
                                request.validations@.len(),
                                "handoff.validations"@,
                                MAX_HOST_ITEMS,
                            ),
                            first_in(views(request.validations@), validation_check(), 0),
                        ),
                    ),
                ),
            ),
        ),
    )
}

/// Texts without white space at their ends.
pub open spec fn trimmed_all(list: Seq<Seq<char>>) -> Seq<Seq<char>> {
    Seq::new(list.len(), |i: int| trimmed(list[i]))
}

/// A text that may be missing, without white space at its ends.
pub open spec fn trimmed_optional(value: Option<Seq<char>>) -> Option<Seq<char>> {
    match value {
        Some(text) => Some(trimmed(text)),
        None => None,
    }
}

/// Validations without white space at the ends of their texts.
pub open spec fn trimmed_validations(list: Seq<ValidationView>) -> Seq<ValidationView> {
    Seq::new(
        list.len(),
        |i: int|
            ValidationView {
                command: trimmed(list[i].command),
                summary: trimmed_optional(list[i].summary),
            },
    )
}

/// Whether `out` is `request` without white space at the ends of its texts.
pub open spec fn trims(request: HandoffManifestRequest, out: HandoffManifestRequest) -> bool {
    &&& optional_text(out.summary) == trimmed_optional(optional_text(request.summary))
    &&& texts(out.assumptions@) == trimmed_all(texts(request.assumptions@))
    &&& texts(out.open_questions@) == trimmed_all(texts(request.open_questions@))
    &&& texts(out.negative_evidence@) == trimmed_all(texts(request.negative_evidence@))
    &&& texts(out.avoid_rules@) == trimmed_all(texts(request.avoid_rules@))
    &&& views(out.validations@) == trimmed_validations(views(request.validations@))
}

fn trim_list(list: &Vec<String>) -> (r: Vec<String>)
    ensures
        texts(r@) == trimmed_all(texts(list@)),
{
    let mut out: Vec<String> = Vec::new();
    let mut i: usize = 0;
    while i < list.len()
        invariant
            i <= list.len(),
            texts(out@) == trimmed_all(texts(list@)).take(i as int),
        decreases list.len() - i,
    {
        let ghost before = texts(out@);
        out.push(trim_text(list[i].as_str()));
        assert(texts(out@) =~= before.push(trimmed(list@[i as int]@)));
        assert(texts(out@) =~= trimmed_all(texts(list@)).take(i + 1));
        i += 1;
    }
    assert(texts(out@) =~= trimmed_all(texts(list@)));
    out
}

fn trim_optional(value: &Option<String>) -> (r: Option<String>)
    ensures
        optional_text(r) == trimmed_optional(optional_text(*value)),
{
    match value {
        Some(text) => Some(trim_text(text.as_str())),
        None => None,
    }
}

fn check_optional(value: &Option<String>, field: &'static str, max_bytes: usize) -> (r: Result<
    (),
    Error,
>)
    ensures
        reports(r, optional_fault(optional_text(*value), field@, max_bytes)),
{
    match validate_optional_input(value, field, max_bytes) {
        Ok(_) => {},
        Err(e) => {
            return Err(e);
        },
    }
    if let Some(text) = value {
        if blank(text.as_str()) {
            return Err(invalid_input(field, "must not be empty"));
        }
    }
    Ok(())
}

fn check_validation(validation: &HandoffValidation) -> (r: Result<(), Error>)
    ensures
        reports(r, validation_check()(validation@)),
{
    match validate_input(
        validation.command.as_str(),
        "handoff.validations.command",
        MAX_VALIDATION_COMMAND_BYTES,
    ) {
        Ok(_) => {},
        Err(e) => {
            return Err(e);
        },
    }
    if blank(validation.command.as_str()) {
        return Err(invalid_input("handoff.validations.command", "must not be empty"));
    }
    check_optional(&validation.summary, "handoff.validations.summary", MAX_NOTE_BYTES)
}

fn check_validations(validations: &Vec<HandoffValidation>) -> (r: Result<(), Error>)
    ensures
        reports(r, first_in(views(validations@), validation_check(), 0)),
{
    let ghost all = views(validations@);
    let mut i: usize = 0;
    while i < validations.len()
        invariant
            i <= validations.len(),
            all == views(validations@),
            first_in(all, validation_check(), 0) == first_in(all, validation_check(), i as int),
        decreases validations.len() - i,
    {
        assert(all[i as int] == validations@[i as int]@);
        match check_validation(&validations[i]) {
            Ok(_) => {},
            Err(e) => {
                return Err(e);
            },
        }
        i += 1;
    }
    Ok(())
}

/// Checks the host's part of a manifest and trims its texts.
pub fn parse_request(request: HandoffManifestRequest) -> (r: Result<HandoffManifestRequest, Error>)
    ensures
        reports(r, request_fault(request)),
        r matches Ok(out) ==> trims(request, out),
{
    match check_optional(&request.summary, "handoff.summary", MAX_SUMMARY_BYTES) {
        Ok(_) => {},
        Err(e) => {
            return Err(e);
        },
    }
    match validate_host_notes(&request.assumptions, "handoff.assumptions") {
        Ok(_) => {},
        Err(e) => {
            return Err(e);
        },
    }
    match validate_host_notes(&request.open_questions, "handoff.open_questions") {
        Ok(_) => {},
        Err(e) => {
            return Err(e);
        },
    }
    match validate_host_notes(&request.negative_evidence, "handoff.negative_evidence") {
        Ok(_) => {},
        Err(e) => {
            return Err(e);
        },
    }
    match validate_host_notes(&request.avoid_rules, "handoff.avoid_rules") {
        Ok(_) => {},
        Err(e) => {
            return Err(e);
        },
    }
    if request.validations.len() > MAX_HOST_ITEMS {
        return Err(request_limit("handoff.validations", request.validations.len(), MAX_HOST_ITEMS));
    }
    match check_validations(&request.validations) {
        Ok(_) => {},
        Err(e) => {
            return Err(e);
        },
    }
    let mut validations: Vec<HandoffValidation> = Vec::new();
    let mut i: usize = 0;
    while i < request.validations.len()
        invariant
            i <= request.validations.len(),
            views(validations@) == trimmed_validations(views(request.validations@)).take(i as int),
        decreases request.validations.len() - i,
    {
        let ghost before = views(validations@);
        let validation = HandoffValidation {
            command: trim_text(request.validations[i].command.as_str()),
            summary: trim_optional(&request.validations[i].summary),
        };
        let ghost added = validation@;
        validations.push(validation);
        assert(views(validations@) =~= before.push(added));
        assert(views(validations@) =~= trimmed_validations(views(request.validations@)).take(
            i + 1,
        ));
        i += 1;
    }
    assert(views(validations@) =~= trimmed_validations(views(request.validations@)));
    Ok(
        HandoffManifestRequest {
            summary: trim_optional(&request.summary),
            assumptions: trim_list(&request.assumptions),
            open_questions: trim_list(&request.open_questions),
            negative_evidence: trim_list(&request.negative_evidence),
            avoid_rules: trim_list(&request.avoid_rules),
            validations,
        },
    )
}

/// Checks a list of host notes.
pub fn validate_host_notes(values: &Vec<String>, field: &'static str) -> (r: Result<(), Error>)
    ensures
        reports(r, notes_fault(texts(values@), field@)),
{
    if values.len() > MAX_HOST_ITEMS {
        return Err(request_limit(field, values.len(), MAX_HOST_ITEMS));
    }
    let ghost all = texts(values@);
    let mut i: usize = 0;
    while i < values.len()
        invariant
            i <= values.len(),
            values.len() <= MAX_HOST_ITEMS,
            all == texts(values@),
            first_in(all, note_check(field@), 0) == first_in(all, note_check(field@), i as int),
        decreases values.len() - i,
    {
        assert(all[i as int] == values@[i as int]@);
        match validate_input(values[i].as_str(), field, MAX_NOTE_BYTES) {
            Ok(_) => {},
            Err(e) => {
                return Err(e);
            },
        }
        if blank(values[i].as_str()) {
            return Err(invalid_input(field, "items must not be empty"));
        }
        i += 1;
    }
    Ok(())
}

/// The error of a field with a bad value.
pub fn invalid_input(field: &'static str, reason: &'static str) -> (r: Error)
    ensures
        r@ == (Fault::InvalidInput { field: field@, reason: reason@ }),
{
    Error::InvalidInput { field, reason }
}

/// The error of a field with too many items.
pub fn request_limit(field: &'static str, requested: usize, limit: usize) -> (r: Error)
    ensures
        r@ == (Fault::RequestLimitExceeded { field: field@, requested, limit }),
{
    Error::RequestLimitExceeded { field, requested, limit }
}

/// Whether `part` is the longest beginning of `value` within `max_bytes`.
pub open spec fn longest_within(value: Seq<char>, max_bytes: nat, part: Seq<char>) -> bool {
    &&& part.len() <= value.len()
    &&& part == value.take(part.len() as int)
    &&& byte_len(part) <= max_bytes
    &&& part.len() < value.len() ==> byte_len(value.take((part.len() + 1) as int)) > max_bytes
}

/// The longest beginning of a text within a number of bytes, and whether
/// anything was cut off.
pub fn truncate_utf8(value: &str, max_bytes: usize) -> (r: (String, bool))
    ensures
        longest_within(value@, max_bytes as nat, r.0@),
        r.1 <==> byte_len(value@) > max_bytes,
        !r.1 ==> r.0@ == value@,
{
    if byte_size(value) <= max_bytes {
        assert(value@.take(value@.len() as int) =~= value@);
        return (copy_text(value), false);
    }
    let chars = chars_of(value);
    let mut end: usize = 0;
    let mut used: usize = 0;
    assert(value@.take(0) =~= Seq::<char>::empty());
    while end < chars.len() && char_bytes(chars[end]) <= max_bytes - used
        invariant
            end <= chars.len(),
            chars@ == value@,
            used == byte_len(value@.take(end as int)),
            used <= max_bytes,
        decreases chars.len() - end,
    {
        proof {
            byte_len_push(value@.take(end as int), value@[end as int]);
            assert(value@.take(end + 1) =~= value@.take(end as int).push(value@[end as int]));
        }
        used += char_bytes(chars[end]);
        end += 1;
    }
    proof {
        if end < chars.len() {
            byte_len_push(value@.take(end as int), value@[end as int]);
            assert(value@.take(end + 1) =~= value@.take(end as int).push(value@[end as int]));
        } else {
            assert(value@.take(end as int) =~= value@);
        }
    }
    let part = text_of(chars.as_slice(), 0, end);
    assert(part@ =~= value@.take(end as int));
    (part, true)
}

/// The longest beginning within a number of bytes is unique.
pub proof fn longest_within_is_unique(
    value: Seq<char>,
    max_bytes: nat,
    a: Seq<char>,
    b: Seq<char>,
)
    requires
        longest_within(value, max_bytes, a),
        longest_within(value, max_bytes, b),
    ensures
        a == b,
{
    if a.len() < b.len() {
        byte_len_take(value, (a.len() + 1) as int, b.len() as int);
    } else if b.len() < a.len() {
        byte_len_take(value, (b.len() + 1) as int, a.len() as int);
    }
}

/// What is said of items that were cut off.
pub open spec fn omission(label: Seq<char>, omitted: nat) -> Seq<char> {
    label + " truncated; "@ + decimal_text(omitted) + " additional items omitted"@
}

/// A note that is made where something holds.
pub open spec fn note(made: bool, text: Seq<char>) -> Seq<Seq<char>> {
    if made {
        seq![text]
    } else {
        Seq::empty()
    }
}

/// A list cut off at a limit.
pub open spec fn cut<A>(list: Seq<A>, limit: int) -> Seq<A> {
    if list.len() > limit {
        list.take(limit)
    } else {
        list
    }
}

/// The note on a list cut off at a limit.
pub open spec fn cut_note(len: nat, limit: int, label: Seq<char>) -> Seq<Seq<char>> {
    note(len > limit, omission(label, (len - limit) as nat))
}

fn omission_text(label: &str, omitted: usize) -> (r: String)
    ensures
        r@ == omission(label@, omitted as nat),
{
    let mut out = copy_text(label);
    out.push_str(" truncated; ");
    out.push_str(decimal(omitted as u64).as_str());
    out.push_str(" additional items omitted");
    out
}

/// The distinct texts in order, cut off at a limit with a note.
pub fn bounded_sorted(values: Vec<String>, limit: usize, label: &str, gaps: &mut Vec<String>) -> (r:
    Vec<String>)
    ensures
        texts(r@) == cut(sorted_unique(texts(values@)), limit as int),
        texts(final(gaps)@) == texts(old(gaps)@) + cut_note(
            sorted_unique(texts(values@)).len(),
            limit as int,
            label@,
        ),
{
    let mut sorted = sort_unique_texts(values);
    let ghost all = texts(sorted@);
    truncate_items(&mut sorted, limit, label, gaps);
    assert(texts(sorted@) =~= cut(all, limit as int));
    sorted
}

/// Cuts a list off at a limit, with a note.
pub fn truncate_items<T>(values: &mut Vec<T>, limit: usize, label: &str, gaps: &mut Vec<String>)
    ensures
        final(values)@ == cut(old(values)@, limit as int),
        texts(final(gaps)@) == texts(old(gaps)@) + cut_note(
            old(values)@.len(),
            limit as int,
            label@,
        ),
{
    let ghost start = texts(gaps@);
    if values.len() <= limit {
        assert(texts(gaps@) =~= start + cut_note(values@.len(), limit as int, label@));
        return ;
    }
    let omitted: usize = values.len() - limit;
    values.truncate(limit);
    gaps.push(omission_text(label, omitted));
    assert(texts(gaps@) =~= start + seq![omission(label@, omitted as nat)]);
}

/// A list of gaps cut off at its limit: the last place says how many are left
/// out.
pub open spec fn bounded_gaps(gaps: Seq<Seq<char>>) -> Seq<Seq<char>> {
    if gaps.len() <= MAX_GAPS {
        gaps
    } else {
        gaps.take(MAX_GAPS - 1).push(
            omission("manifest gaps"@, (gaps.len() - (MAX_GAPS - 1)) as nat),
        )
    }
}

/// Cuts the gaps off at their limit, and says so in the last place.
pub fn truncate_gaps(gaps: &mut Vec<String>)
    ensures
        texts(final(gaps)@) == bounded_gaps(texts(old(gaps)@)),
        final(gaps)@.len() <= MAX_GAPS,
{
    if gaps.len() <= MAX_GAPS {
        return ;
    }
    let ghost start = texts(gaps@);
    let retained: usize = MAX_GAPS - 1;
    let omitted: usize = gaps.len() - retained;
    gaps.truncate(retained);
    gaps.push(omission_text("manifest gaps", omitted));
    assert(texts(gaps@) =~= bounded_gaps(start));
}

/// Whether a path has the shape of a test's path.
pub open spec fn test_path(path: Seq<char>) -> bool {
    let low = lowered(path);
    ||| begins(low, "tests/"@)
    ||| occurs(low, "/tests/"@)
    ||| occurs(low, "/test/"@)
    ||| occurs(low, "__tests__"@)
    ||| occurs(low, ".test."@)
    ||| occurs(low, ".spec."@)
    ||| begins(file_name(low), "test_"@)
    ||| ends(file_name(low), "_test.rs"@)
}

/// Whether a path has the shape of a test's path.
pub fn is_likely_test_path(path: &str) -> (r: bool)
    ensures
        r == test_path(path@),
{
    let low = lower_text(path);
    let name = name_of(low.as_str());
    starts_text(low.as_str(), "tests/") || contains_text(low.as_str(), "/tests/") || contains_text(
        low.as_str(),
        "/test/",
    ) || contains_text(low.as_str(), "__tests__") || contains_text(low.as_str(), ".test.")
        || contains_text(low.as_str(), ".spec.") || starts_text(name.as_str(), "test_")
        || ends_text(name.as_str(), "_test.rs")
}

/// Places in order of path, lines and content.
pub open spec fn by_place() -> spec_fn(PlaceView, PlaceView) -> bool {
    |a: PlaceView, b: PlaceView|
        {
            ||| text_lt(a.path, b.path)
            ||| a.path == b.path && a.start_line < b.start_line
            ||| a.path == b.path && a.start_line == b.start_line && a.end_line < b.end_line
            ||| a.path == b.path && a.start_line == b.start_line && a.end_line == b.end_line
                && text_lt(a.content_hash, b.content_hash)
        }
}

fn place_precedes(a: &HandoffEvidence, b: &HandoffEvidence) -> (r: bool)
    ensures
        r == by_place()(a@, b@),
{
    let same_path = same_text(a.path.as_str(), b.path.as_str());
    if !same_path {
        return crate::text::text_before(a.path.as_str(), b.path.as_str());
    }
    if a.start_line != b.start_line {
        return a.start_line < b.start_line;
    }
    if a.end_line != b.end_line {
        return a.end_line < b.end_line;
    }
    crate::text::text_before(a.content_hash.as_str(), b.content_hash.as_str()) && !same_text(
        a.content_hash.as_str(),
        b.content_hash.as_str(),
    )
}

fn same_place(a: &HandoffEvidence, b: &HandoffEvidence) -> (r: bool)
    ensures
        r == (a@ == b@),
{
    same_text(a.path.as_str(), b.path.as_str()) && a.start_line == b.start_line && a.end_line
        == b.end_line && same_text(a.content_hash.as_str(), b.content_hash.as_str())
}

/// The distinct places in order.
pub open spec fn ordered_places(evidence: Seq<PlaceView>) -> Seq<PlaceView> {
    without_repeats(sorted_by(evidence, by_place()))
}

/// The changed paths that a manifest starts from.
pub open spec fn source_changed_paths(
    source: HandoffSource<'_>,
    provenance: HandoffProvenance,
) -> Seq<Seq<char>> {
    match source.diff_scope {
        Some(scope) => texts(scope.changed_paths@),
        None => texts(provenance.working_tree_paths@),
    }
}

/// Whether the changed paths that a manifest starts from are all of them.
pub open spec fn source_complete(
    source: HandoffSource<'_>,
    provenance: HandoffProvenance,
) -> bool {
    match source.diff_scope {
        Some(scope) => scope.changed_paths_complete,
        None => match provenance.provenance {
            Some(value) => value.working_tree_paths_complete,
            None => false,
        },
    }
}

/// The bound on the changed paths that a manifest starts from.
pub open spec fn source_limit(source: HandoffSource<'_>, provenance: HandoffProvenance) -> Option<
    usize,
> {
    match source.diff_scope {
        Some(scope) => scope.changed_paths_limit,
        None => match provenance.provenance {
            Some(value) => value.working_tree_paths_limit,
            None => None,
        },
    }
}

/// The paths related to the change.
pub open spec fn source_related(source: HandoffSource<'_>) -> Seq<RelatedView> {
    match source.diff_scope {
        Some(scope) => match scope.evidence {
            Some(evidence) => views(evidence.related_paths@),
            None => Seq::empty(),
        },
        None => Seq::empty(),
    }
}

/// The related paths, in the order of the evidence.
pub open spec fn related_of(list: Seq<RelatedView>) -> Seq<Seq<char>> {
    Seq::new(list.len(), |i: int| list[i].related_path)
}

/// The related path of a piece of evidence that names a test.
pub open spec fn named_test() -> spec_fn(RelatedView) -> Option<Seq<char>> {
    |related: RelatedView|
        if related.signal == "test_name_match"@ || test_path(related.related_path) {
            Some(related.related_path)
        } else {
            None
        }
}

/// All paths of a list of owner tests, one list after another.
pub open spec fn owner_paths(list: Seq<crate::model::OwnerTestView>) -> Seq<Seq<char>>
    decreases list.len(),
{
    if list.len() == 0 {
        Seq::empty()
    } else {
        owner_paths(list.drop_last()) + list.last().paths
    }
}

/// The tests that the evidence names.
pub open spec fn source_tests(source: HandoffSource<'_>) -> Seq<Seq<char>> {
    crate::lists::filter_map(source_related(source), named_test()) + match source.diff_scope {
        Some(scope) => match scope.evidence {
            Some(evidence) => match evidence.semantic_change {
                Some(semantic) => owner_paths(views(semantic.owner_tests@)),
                None => Seq::empty(),
            },
            None => Seq::empty(),
        },
        None => Seq::empty(),
    }
}

/// Texts behind a common beginning.
pub open spec fn prefixed(prefix: Seq<char>, list: Seq<Seq<char>>) -> Seq<Seq<char>> {
    Seq::new(list.len(), |i: int| prefix + list[i])
}

/// The gaps that the evidence reports.
pub open spec fn source_gaps(source: HandoffSource<'_>) -> Seq<Seq<char>> {
    match source.diff_scope {
        Some(scope) => match scope.evidence {
            Some(evidence) => (match evidence.semantic_change {
                Some(semantic) => prefixed("semantic diff: "@, texts(semantic.gaps@)),
                None => Seq::empty(),
            }) + prefixed("diff evidence: "@, texts(evidence.gaps@)),
            None => Seq::empty(),
        },
        None => Seq::empty(),
    }
}

/// What is said of changed paths that were not all found.
pub open spec fn incomplete_text(limit: Option<usize>) -> Seq<char> {
    "changed-path discovery was incomplete at "@ + (match limit {
        Some(limit) => decimal_text(limit as nat),
        None => "the configured bound"@,
    }) + " paths"@
}

/// The gaps of a manifest in the order in which they are found.
pub open spec fn found_gaps(
    request: ContextRequest,
    handoff: HandoffManifestRequest,
    source: HandoffSource<'_>,
    evidence: Seq<PlaceView>,
    provenance: HandoffProvenance,
) -> Seq<Seq<char>> {
    cut_note(ordered_places(evidence).len(), MAX_EVIDENCE as int, "selected evidence"@) + note(
        handoff.summary is None && byte_len(request.task@) > MAX_SUMMARY_BYTES,
        "task summary truncated to 512 UTF-8 bytes"@,
    ) + note(
        !provenance.commit_revision_available,
        "Git commit identity was unavailable"@,
    ) + note(
        provenance.working_tree_state is Unknown,
        "Git working-tree state was unavailable"@,
    ) + note(
        !source_complete(source, provenance),
        incomplete_text(source_limit(source, provenance)),
    ) + source_gaps(source) + cut_note(
        sorted_unique(texts(request.known_hashes@)).len(),
        MAX_HELD_HASHES as int,
        "held fragment hashes"@,
    ) + cut_note(
        sorted_unique(texts(request.focus_paths@)).len(),
        MAX_FOCUS_ITEMS as int,
        "focus paths"@,
    ) + cut_note(
        sorted_unique(texts(request.focus_symbols@)).len(),
        MAX_FOCUS_ITEMS as int,
        "focus symbols"@,
    ) + cut_note(
        sorted_unique(source_changed_paths(source, provenance)).len(),
        MAX_CHANGED_PATHS as int,
        "changed paths"@,
    ) + cut_note(
        sorted_unique(related_of(source_related(source))).len(),
        MAX_RELATED_PATHS as int,
        "related paths"@,
    ) + cut_note(
        sorted_unique(source_tests(source)).len(),
        MAX_TEST_PATHS as int,
        "test paths"@,
    )
}

/// Whether `manifest` is what a context response hands over.
pub open spec fn hands_over(
    request: ContextRequest,
    handoff: HandoffManifestRequest,
    source: HandoffSource<'_>,
    evidence: Seq<PlaceView>,
    provenance: HandoffProvenance,
    manifest: HandoffManifest,
) -> bool {
    let changed = source_changed_paths(source, provenance);
    &&& manifest.schema_version == HANDOFF_SCHEMA_VERSION
    &&& match handoff.summary {
        Some(summary) => manifest.summary@ == summary@,
        None => longest_within(request.task@, MAX_SUMMARY_BYTES as nat, manifest.summary@),
    }
    &&& manifest.task_fingerprint@ == source.task_fingerprint@
    &&& manifest.repository_id == source.meta.repository_id
    &&& manifest.repository_generation == source.meta.repository_generation
    &&& manifest.freshness == source.meta.freshness
    &&& manifest.provenance == provenance.provenance
    &&& manifest.commit_revision == provenance.commit_revision
    &&& manifest.working_tree_state == provenance.working_tree_state
    &&& manifest.base_revision == match source.diff_scope {
        Some(scope) => scope.base_revision,
        None => None,
    }
    &&& manifest.head_revision == match source.diff_scope {
        Some(scope) => scope.head_revision,
        None => None,
    }
    &&& manifest.receipt_id == source.meta.receipt_id
    &&& views(manifest.evidence@) == cut(ordered_places(evidence), MAX_EVIDENCE as int)
    &&& texts(manifest.held_fragment_hashes@) == cut(
        sorted_unique(texts(request.known_hashes@)),
        MAX_HELD_HASHES as int,
    )
    &&& texts(manifest.focus_paths@) == cut(
        sorted_unique(texts(request.focus_paths@)),
        MAX_FOCUS_ITEMS as int,
    )
    &&& texts(manifest.focus_symbols@) == cut(
        sorted_unique(texts(request.focus_symbols@)),
        MAX_FOCUS_ITEMS as int,
    )
    &&& texts(manifest.changed_paths@) == cut(sorted_unique(changed), MAX_CHANGED_PATHS as int)
    &&& manifest.changed_paths_complete <==> source_complete(source, provenance) && changed.len()
        <= MAX_CHANGED_PATHS
    &&& manifest.changed_paths_limit == if changed.len() > MAX_CHANGED_PATHS && source_limit(
        source,
        provenance,
    ) is None {
        Some(MAX_CHANGED_PATHS)
    } else {
        source_limit(source, provenance)
    }
    &&& texts(manifest.related_paths@) == cut(
        sorted_unique(related_of(source_related(source))),
        MAX_RELATED_PATHS as int,
    )
    &&& texts(manifest.test_paths@) == cut(
        sorted_unique(source_tests(source)),
        MAX_TEST_PATHS as int,
    )
    &&& views(manifest.validations@) == views(handoff.validations@)
    &&& manifest.assumptions@ == handoff.assumptions@
    &&& manifest.open_questions@ == handoff.open_questions@
    &&& manifest.negative_evidence@ == handoff.negative_evidence@
    &&& manifest.avoid_rules@ == handoff.avoid_rules@
    &&& texts(manifest.gaps@) == bounded_gaps(
        sorted_unique(found_gaps(request, handoff, source, evidence, provenance)),
    )
}

fn copy_validations(list: &Vec<HandoffValidation>) -> (r: Vec<HandoffValidation>)
    ensures
        views(r@) == views(list@),
{
    let mut out: Vec<HandoffValidation> = Vec::new();
    let mut i: usize = 0;
    while i < list.len()
        invariant
            i <= list.len(),
            views(out@) == views(list@).take(i as int),
        decreases list.len() - i,
    {
        let ghost before = views(out@);
        let copy = HandoffValidation {
            command: list[i].command.clone(),
            summary: copy_optional_text(&list[i].summary),
        };
        let ghost added = copy@;
        out.push(copy);
        assert(views(out@) =~= before.push(added));
        assert(views(out@) =~= views(list@).take(i + 1));
        i += 1;
    }
    assert(views(out@) =~= views(list@));
    out
}

fn push_prefixed(out: &mut Vec<String>, prefix: &str, list: &Vec<String>)
    ensures
        texts(final(out)@) == texts(old(out)@) + prefixed(prefix@, texts(list@)),
{
    let ghost start = texts(out@);
    let mut i: usize = 0;
    assert(texts(out@) =~= start + prefixed(prefix@, texts(list@)).take(0));
    while i < list.len()
        invariant
            i <= list.len(),
            texts(out@) == start + prefixed(prefix@, texts(list@)).take(i as int),
        decreases list.len() - i,
    {
        let mut text = copy_text(prefix);
        text.push_str(list[i].as_str());
        let ghost before = texts(out@);
        let ghost added = text@;
        out.push(text);
        assert(texts(out@) =~= before.push(added));
        assert(texts(out@) =~= start + prefixed(prefix@, texts(list@)).take(i + 1));
        i += 1;
    }
    assert(texts(out@) =~= start + prefixed(prefix@, texts(list@)));
}

/// The paths, tests and gaps that a changed scope names.
fn read_scope(source: &HandoffSource<'_>, gaps: &mut Vec<String>) -> (r: (Vec<String>, Vec<String>))
    ensures
        texts(r.0@) == related_of(source_related(*source)),
        texts(r.1@) == source_tests(*source),
        texts(final(gaps)@) == texts(old(gaps)@) + source_gaps(*source),
{
    let mut related_paths: Vec<String> = Vec::new();
    let mut test_paths: Vec<String> = Vec::new();
    let ghost start = texts(gaps@);
    if let Some(scope) = source.diff_scope {
        if let Some(evidence) = &scope.evidence {
            let ghost all = views(evidence.related_paths@);
            let mut i: usize = 0;
            assert(texts(test_paths@) =~= crate::lists::filter_map(all.take(0), named_test()));
            assert(texts(related_paths@) =~= related_of(all).take(0));
            while i < evidence.related_paths.len()
                invariant
                    i <= evidence.related_paths.len(),
                    all == views(evidence.related_paths@),
                    texts(related_paths@) == related_of(all).take(i as int),
                    texts(test_paths@) == crate::lists::filter_map(
                        all.take(i as int),
                        named_test(),
                    ),
                decreases evidence.related_paths.len() - i,
            {
                let related = &evidence.related_paths[i];
                let ghost known = texts(related_paths@);
                let ghost tests = texts(test_paths@);
                proof {
                    assert(all[i as int] == related@);
                    crate::lists::filter_map_push(all, named_test(), i as int);
                }
                related_paths.push(related.related_path.clone());
                assert(texts(related_paths@) =~= known.push(related.related_path@));
                assert(texts(related_paths@) =~= related_of(all).take(i + 1));
                if same_text(related.signal.as_str(), "test_name_match") || is_likely_test_path(
                    related.related_path.as_str(),
                ) {
                    test_paths.push(related.related_path.clone());
                    assert(texts(test_paths@) =~= tests.push(related.related_path@));
                }
                i += 1;
            }
            assert(all.take(all.len() as int) =~= all);
            assert(related_of(all).take(all.len() as int) =~= related_of(all));
            let ghost named = texts(test_paths@);
            if let Some(semantic) = &evidence.semantic_change {
                let ghost owners = views(semantic.owner_tests@);
                let mut j: usize = 0;
                assert(texts(test_paths@) =~= named + owner_paths(owners.take(0)));
                while j < semantic.owner_tests.len()
                    invariant
                        j <= semantic.owner_tests.len(),
                        owners == views(semantic.owner_tests@),
                        texts(test_paths@) == named + owner_paths(owners.take(j as int)),
                    decreases semantic.owner_tests.len() - j,
                {
                    let paths = &semantic.owner_tests[j].paths;
                    let ghost before = texts(test_paths@);
                    let mut copied = copy_texts(paths);
                    let ghost added = texts(copied@);
                    test_paths.append(&mut copied);
                    proof {
                        assert(texts(test_paths@) =~= before + added);
                        assert(owners.take(j + 1).drop_last() =~= owners.take(j as int));
                        assert(owners.take(j + 1).last().paths == added);
                        assert(texts(test_paths@) =~= named + owner_paths(owners.take(j + 1)));
                    }
                    j += 1;
                }
                assert(owners.take(owners.len() as int) =~= owners);
                push_prefixed(gaps, "semantic diff: ", &semantic.gaps);
            } else {
                assert(texts(test_paths@) =~= named + Seq::<Seq<char>>::empty());
                assert(texts(gaps@) =~= start + Seq::<Seq<char>>::empty());
            }
            push_prefixed(gaps, "diff evidence: ", &evidence.gaps);
            assert(texts(gaps@) =~= start + source_gaps(*source));
        }
    }
    proof {
        if source_related(*source).len() == 0 {
            assert(related_of(source_related(*source)) =~= Seq::<Seq<char>>::empty());
        }
        assert(texts(related_paths@) =~= related_of(source_related(*source)));
        assert(texts(test_paths@) =~= source_tests(*source));
        assert(texts(gaps@) =~= start + source_gaps(*source));
    }
    (related_paths, test_paths)
}

fn push_note(gaps: &mut Vec<String>, made: bool, text: &str)
    ensures
        texts(final(gaps)@) == texts(old(gaps)@) + note(made, text@),
{
    let ghost start = texts(gaps@);
    if made {
        gaps.push(copy_text(text));
    }
    assert(texts(gaps@) =~= start + note(made, text@));
}

fn incomplete_note(limit: Option<usize>) -> (r: String)
    ensures
        r@ == incomplete_text(limit),
{
    let mut out = copy_text("changed-path discovery was incomplete at ");
    match limit {
        Some(limit) => {
            out.push_str(decimal(limit as u64).as_str());
        },
        None => {
            out.push_str("the configured bound");
        },
    }
    out.push_str(" paths");
    out
}

/// Builds the manifest of a context response.
#[verifier::rlimit(60)]
pub fn build(
    request: &ContextRequest,
    handoff: &HandoffManifestRequest,
    source: HandoffSource<'_>,
    evidence: Vec<HandoffEvidence>,
    provenance: HandoffProvenance,
) -> (r: HandoffManifest)
    ensures
        hands_over(*request, *handoff, source, views(evidence@), provenance, r),
{
    let mut gaps: Vec<String> = Vec::new();
    let ghost g0 = texts(gaps@);
    let ghost given = views(evidence@);
    let sorted = sort_by(evidence, place_precedes, Ghost(by_place()));
    let mut evidence = remove_repeats(sorted, same_place);
    let ghost places = views(evidence@);
    truncate_items(&mut evidence, MAX_EVIDENCE, "selected evidence", &mut gaps);
    assert(views(evidence@) =~= cut(ordered_places(given), MAX_EVIDENCE as int));
    let ghost g1 = texts(gaps@);
    assert(g1 =~= cut_note(places.len(), MAX_EVIDENCE as int, "selected evidence"@));

    let summary = match &handoff.summary {
        Some(summary) => {
            let kept = summary.clone();
            assert(texts(gaps@) =~= g1 + note(false, "task summary truncated to 512 UTF-8 bytes"@));
            kept
        },
        None => {
            let (summary, truncated) = truncate_utf8(request.task.as_str(), MAX_SUMMARY_BYTES);
            push_note(&mut gaps, truncated, "task summary truncated to 512 UTF-8 bytes");
            summary
        },
    };
    push_note(
        &mut gaps,
        !provenance.commit_revision_available,
        "Git commit identity was unavailable",
    );
    push_note(
        &mut gaps,
        provenance.working_tree_state == HandoffWorkingTreeState::Unknown,
        "Git working-tree state was unavailable",
    );
    let (complete, limit) = match source.diff_scope {
        Some(scope) => (scope.changed_paths_complete, scope.changed_paths_limit),
        None => match &provenance.provenance {
            Some(value) => (value.working_tree_paths_complete, value.working_tree_paths_limit),
            None => (false, None),
        },
    };
    let mut changed_paths_complete = complete;
    let mut changed_paths_limit = limit;
    let bound = incomplete_note(limit);
    push_note(&mut gaps, !complete, bound.as_str());
    let changed_paths = match source.diff_scope {
        Some(scope) => copy_texts(&scope.changed_paths),
        None => copy_texts(&provenance.working_tree_paths),
    };
    let (related_paths, test_paths) = read_scope(&source, &mut gaps);
    let held_fragment_hashes = bounded_sorted(
        copy_texts(&request.known_hashes),
        MAX_HELD_HASHES,
        "held fragment hashes",
        &mut gaps,
    );
    let focus_paths = bounded_sorted(
        copy_texts(&request.focus_paths),
        MAX_FOCUS_ITEMS,
        "focus paths",
        &mut gaps,
    );
    let focus_symbols = bounded_sorted(
        copy_texts(&request.focus_symbols),
        MAX_FOCUS_ITEMS,
        "focus symbols",
        &mut gaps,
    );
    if changed_paths.len() > MAX_CHANGED_PATHS {
        changed_paths_complete = false;
        if changed_paths_limit.is_none() {
            changed_paths_limit = Some(MAX_CHANGED_PATHS);
        }
    }
    let changed_paths = bounded_sorted(
        changed_paths,
        MAX_CHANGED_PATHS,
        "changed paths",
        &mut gaps,
    );
    let related_paths = bounded_sorted(
        related_paths,
        MAX_RELATED_PATHS,
        "related paths",
        &mut gaps,
    );
    let test_paths = bounded_sorted(test_paths, MAX_TEST_PATHS, "test paths", &mut gaps);
    assert(texts(gaps@) =~= found_gaps(*request, *handoff, source, given, provenance));
    let mut gaps = sort_unique_texts(gaps);
    truncate_gaps(&mut gaps);

    HandoffManifest {
        schema_version: HANDOFF_SCHEMA_VERSION,
        summary,
        task_fingerprint: source.task_fingerprint.clone(),
        repository_id: source.meta.repository_id.clone(),
        repository_generation: source.meta.repository_generation,
        freshness: source.meta.freshness,
        provenance: provenance.provenance,
        commit_revision: provenance.commit_revision,
        working_tree_state: provenance.working_tree_state,
        base_revision: match source.diff_scope {
            Some(scope) => copy_optional_text(&scope.base_revision),
            None => None,
        },
        head_revision: match source.diff_scope {
            Some(scope) => copy_optional_text(&scope.head_revision),
            None => None,
        },
        receipt_id: copy_optional_text(&source.meta.receipt_id),
        evidence,
        held_fragment_hashes,
        focus_paths,
        focus_symbols,
        changed_paths,
        changed_paths_complete,
        changed_paths_limit,
        related_paths,
        test_paths,
        validations: copy_validations(&handoff.validations),
        assumptions: copy_texts(&handoff.assumptions),
        open_questions: copy_texts(&handoff.open_questions),
        negative_evidence: copy_texts(&handoff.negative_evidence),
        avoid_rules: copy_texts(&handoff.avoid_rules),
        gaps,
    }
}

} // verus!
