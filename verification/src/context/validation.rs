//! What a context request must be like.

use crate::context::candidates::query::term_said;
use crate::context::facets::{QueryView, Vocabulary};
use crate::context::plan::{plan, planned};
use crate::context::policy::{
    handoff_fault, options_fault, policy_of, validate_context_option_constraints, ContextPolicy,
};
use crate::context::scope::{parse_context_revision, MAX_DIFF_CHANGED_PATHS};
use crate::context::scope_helpers::range_fault;
use crate::error::{first_fault, reports, Error, Fault};
use crate::model::{
    ContextRequest, HandoffManifestRequest, RequiredEvidence, TokenAccountingOperation,
    WorkflowEvidence,
};
use crate::ordered::views;
use crate::services::Services;
use crate::text::{optional_text, texts};
use crate::validation::{
    blank, blank_fault, byte_size, first_in, is_bad, is_blank, item_fault, too_long, too_many,
    total_bytes, validate_input, verdict_fault, BadItem, InputLimits,
};
use vstd::prelude::*;

verus! {

/// The longest revision text.
pub const MAX_BASE_REVISION_BYTES: usize = 256;

/// The most values of each class of observed evidence.
pub const MAX_WORKFLOW_EVIDENCE_ITEMS_PER_CLASS: usize = 8;

/// The longest value of observed evidence.
pub const MAX_WORKFLOW_EVIDENCE_ITEM_BYTES: usize = 8192;

/// The most bytes of observed evidence.
pub const MAX_WORKFLOW_EVIDENCE_TOTAL_BYTES: usize = 32768;

/// The most focus patterns.
pub const MAX_CONTEXT_FOCUS_PATTERNS: usize = 32;

/// The most indexed files that are looked into for one focus pattern.
pub const MAX_CONTEXT_FOCUS_FILES_PER_PATTERN: usize = 4;

/// The most candidates of each focus pattern.
pub const MAX_CONTEXT_FOCUS_CANDIDATES_PER_PATTERN: usize = 8;

/// The most pieces of required evidence.
pub const MAX_CONTEXT_REQUIRED_EVIDENCE: usize = 32;

/// The most queries of one piece of required evidence.
pub const MAX_CONTEXT_EVIDENCE_QUERIES: usize = 16;

/// The most bytes of all queries of required evidence.
pub const MAX_CONTEXT_EVIDENCE_QUERY_BYTES: usize = 65536;

/// The longest known hash.
pub const MAX_KNOWN_HASH_BYTES: usize = 128;

/// What is checked of one value of observed evidence.
pub open spec fn evidence_check(field: Seq<char>) -> spec_fn(Seq<char>) -> Option<Fault> {
    |value: Seq<char>|
        first_fault(
            too_long(value, field, MAX_WORKFLOW_EVIDENCE_ITEM_BYTES),
            blank_fault(value, "workflow_evidence"@, "must not contain empty values"@),
        )
}

/// The fault of one class of observed evidence.
pub open spec fn class_fault(values: Seq<Seq<char>>, field: Seq<char>) -> Option<Fault> {
    first_fault(
        too_many(
            values.len(),
            "workflow_evidence items per class"@,
            MAX_WORKFLOW_EVIDENCE_ITEMS_PER_CLASS,
        ),
        first_in(values, evidence_check(field), 0),
    )
}

/// The bytes of all observed evidence.
pub open spec fn evidence_bytes(evidence: WorkflowEvidence) -> usize {
    let traces = total_bytes(
        0,
        texts(evidence.failure_traces@),
        evidence.failure_traces@.len() as int,
    );
    let symbols = total_bytes(traces, texts(evidence.symbols@), evidence.symbols@.len() as int);
    let paths = total_bytes(symbols, texts(evidence.paths@), evidence.paths@.len() as int);
    total_bytes(paths, texts(evidence.test_intents@), evidence.test_intents@.len() as int)
}

/// The fault of more bytes than a field takes.
pub open spec fn bytes_fault(total: usize, field: Seq<char>, limit: usize) -> Option<Fault> {
    if total > limit {
        Some(Fault::RequestLimitExceeded { field, requested: total, limit })
    } else {
        None
    }
}

/// The fault of observed evidence. `relative` is the verdict on its paths.
pub open spec fn workflow_evidence_fault(
    evidence: WorkflowEvidence,
    relative: Result<(), Error>,
) -> Option<Fault> {
    first_fault(
        class_fault(texts(evidence.failure_traces@), "failure_traces"@),
        first_fault(
            class_fault(texts(evidence.symbols@), "symbols"@),
            first_fault(
                class_fault(texts(evidence.paths@), "paths"@),
                first_fault(
                    class_fault(texts(evidence.test_intents@), "test_intents"@),
                    first_fault(
                        bytes_fault(
                            evidence_bytes(evidence),
                            "workflow_evidence total bytes"@,
                            MAX_WORKFLOW_EVIDENCE_TOTAL_BYTES,
                        ),
                        verdict_fault(relative),
                    ),
                ),
            ),
        ),
    )
}

fn check_class(values: &Vec<String>, field: &'static str) -> (r: Result<(), Error>)
    ensures
        reports(r, class_fault(texts(values@), field@)),
{
    if values.len() > MAX_WORKFLOW_EVIDENCE_ITEMS_PER_CLASS {
        return Err(
            Error::RequestLimitExceeded {
                field: "workflow_evidence items per class",
                requested: values.len(),
                limit: MAX_WORKFLOW_EVIDENCE_ITEMS_PER_CLASS,
            },
        );
    }
    let ghost all = texts(values@);
    let mut i: usize = 0;
    while i < values.len()
        invariant
            i <= values.len(),
            values.len() <= MAX_WORKFLOW_EVIDENCE_ITEMS_PER_CLASS,
            all == texts(values@),
            first_in(all, evidence_check(field@), 0) == first_in(
                all,
                evidence_check(field@),
                i as int,
            ),
        decreases values.len() - i,
    {
        assert(all[i as int] == values@[i as int]@);
        match validate_input(values[i].as_str(), field, MAX_WORKFLOW_EVIDENCE_ITEM_BYTES) {
            Ok(_) => {},
            Err(e) => {
                return Err(e);
            },
        }
        if blank(values[i].as_str()) {
            return Err(
                Error::InvalidInput {
                    field: "workflow_evidence",
                    reason: "must not contain empty values",
                },
            );
        }
        i += 1;
    }
    Ok(())
}

fn add_bytes(start: usize, values: &Vec<String>) -> (r: usize)
    ensures
        r == total_bytes(start, texts(values@), values@.len() as int),
{
    let ghost all = texts(values@);
    let mut total: usize = start;
    let mut i: usize = 0;
    while i < values.len()
        invariant
            i <= values.len(),
            all == texts(values@),
            total == total_bytes(start, all, i as int),
        decreases values.len() - i,
    {
        assert(all[i as int] == values@[i as int]@);
        total = total.saturating_add(byte_size(values[i].as_str()));
        i += 1;
    }
    total
}

/// The most queries of a request.
pub const MAX_CONTEXT_QUERIES: usize = 12;

/// What was found elsewhere of a request: whether its numbers keep to the
/// service's limits, and its patterns and paths are well formed.
#[derive(Debug)]
pub struct ContextVerdicts {
    pub token_budget: Result<(), Error>,
    pub max_fragments: Result<(), Error>,
    pub minimum_fragments: Result<(), Error>,
    pub include_patterns: Result<(), Error>,
    pub must_include_patterns: Result<(), Error>,
    pub focus_patterns: Result<(), Error>,
    pub exclude_patterns: Result<(), Error>,
    pub evidence_patterns: Option<BadItem>,
    pub changed_paths: Option<BadItem>,
}

/// The fault of a verdict that counts only where something holds.
pub open spec fn verdict_if(held: bool, verdict: Result<(), Error>) -> Option<Fault> {
    if held {
        verdict_fault(verdict)
    } else {
        None
    }
}

/// The fault of a request's numbers.
pub open spec fn numbers_fault(
    request: ContextRequest,
    token_budget: Result<(), Error>,
    max_fragments: Result<(), Error>,
    minimum_fragments: Result<(), Error>,
) -> Option<Fault> {
    first_fault(
        verdict_fault(token_budget),
        first_fault(
            verdict_if(request.max_fragments is Some, max_fragments),
            first_fault(
                verdict_if(
                    request.minimum_fragments_per_focus_path is Some,
                    minimum_fragments,
                ),
                first_fault(
                    match request.minimum_fragments_per_focus_path {
                        Some(minimum) => bytes_fault(
                            minimum,
                            "minimum_fragments_per_focus_path"@,
                            MAX_CONTEXT_FOCUS_CANDIDATES_PER_PATTERN,
                        ),
                        None => None,
                    },
                    too_many(
                        request.focus_paths@.len(),
                        "focus_paths"@,
                        MAX_CONTEXT_FOCUS_PATTERNS,
                    ),
                ),
            ),
        ),
    )
}

fn check_numbers(
    request: &ContextRequest,
    token_budget: Result<(), Error>,
    max_fragments: Result<(), Error>,
    minimum_fragments: Result<(), Error>,
) -> (r: Result<(), Error>)
    ensures
        reports(r, numbers_fault(*request, token_budget, max_fragments, minimum_fragments)),
{
    match token_budget {
        Ok(_) => {},
        Err(e) => {
            return Err(e);
        },
    }
    if request.max_fragments.is_some() {
        match max_fragments {
            Ok(_) => {},
            Err(e) => {
                return Err(e);
            },
        }
    }
    if let Some(minimum) = request.minimum_fragments_per_focus_path {
        match minimum_fragments {
            Ok(_) => {},
            Err(e) => {
                return Err(e);
            },
        }
        if minimum > MAX_CONTEXT_FOCUS_CANDIDATES_PER_PATTERN {
            return Err(
                Error::RequestLimitExceeded {
                    field: "minimum_fragments_per_focus_path",
                    requested: minimum,
                    limit: MAX_CONTEXT_FOCUS_CANDIDATES_PER_PATTERN,
                },
            );
        }
    }
    if request.focus_paths.len() > MAX_CONTEXT_FOCUS_PATTERNS {
        return Err(
            Error::RequestLimitExceeded {
                field: "focus_paths",
                requested: request.focus_paths.len(),
                limit: MAX_CONTEXT_FOCUS_PATTERNS,
            },
        );
    }
    Ok(())
}

/// Whether a pattern of a list is blank.
pub open spec fn any_blank(patterns: Seq<Seq<char>>) -> bool {
    exists|i: int| 0 <= i < patterns.len() && is_blank(#[trigger] patterns[i])
}

/// The fault of a list of patterns.
pub open spec fn patterns_fault(
    patterns: Seq<Seq<char>>,
    field: Seq<char>,
    verdict: Result<(), Error>,
) -> Option<Fault> {
    if any_blank(patterns) {
        Some(Fault::InvalidInput { field, reason: "must not contain empty patterns"@ })
    } else {
        verdict_fault(verdict)
    }
}

fn check_patterns(patterns: &Vec<String>, field: &'static str, verdict: Result<(), Error>) -> (r:
    Result<(), Error>)
    ensures
        reports(r, patterns_fault(texts(patterns@), field@, verdict)),
{
    let ghost all = texts(patterns@);
    let mut i: usize = 0;
    while i < patterns.len()
        invariant
            i <= patterns.len(),
            all == texts(patterns@),
            forall|k: int| 0 <= k < i ==> !is_blank(#[trigger] all[k]),
        decreases patterns.len() - i,
    {
        assert(all[i as int] == patterns@[i as int]@);
        if blank(patterns[i].as_str()) {
            assert(is_blank(all[i as int]));
            return Err(Error::InvalidInput { field, reason: "must not contain empty patterns" });
        }
        i += 1;
    }
    verdict
}

/// What is checked of one symbol.
pub open spec fn symbol_check(item: Seq<char>, field: Seq<char>, max_bytes: usize) -> spec_fn(
    Seq<char>,
) -> Option<Fault> {
    |symbol: Seq<char>|
        first_fault(
            too_long(symbol, item, max_bytes),
            blank_fault(symbol, field, "must not contain empty symbols"@),
        )
}

/// The fault of a list of symbols.
pub open spec fn symbols_fault(
    symbols: Seq<Seq<char>>,
    item: Seq<char>,
    field: Seq<char>,
    limits: InputLimits,
) -> Option<Fault> {
    if symbols.len() > limits.max_input_items {
        Some(Fault::LimitExceeded)
    } else {
        first_in(symbols, symbol_check(item, field, limits.max_pattern_bytes), 0)
    }
}

fn check_symbols(
    symbols: &Vec<String>,
    item: &'static str,
    field: &'static str,
    limits: InputLimits,
) -> (r: Result<(), Error>)
    ensures
        reports(r, symbols_fault(texts(symbols@), item@, field@, limits)),
{
    if symbols.len() > limits.max_input_items {
        return Err(Error::LimitExceeded);
    }
    let ghost all = texts(symbols@);
    let ghost check = symbol_check(item@, field@, limits.max_pattern_bytes);
    let mut i: usize = 0;
    while i < symbols.len()
        invariant
            i <= symbols.len(),
            symbols.len() <= limits.max_input_items,
            all == texts(symbols@),
            check == symbol_check(item@, field@, limits.max_pattern_bytes),
            first_in(all, check, 0) == first_in(all, check, i as int),
        decreases symbols.len() - i,
    {
        assert(all[i as int] == symbols@[i as int]@);
        match validate_input(symbols[i].as_str(), item, limits.max_pattern_bytes) {
            Ok(_) => {},
            Err(e) => {
                return Err(e);
            },
        }
        if blank(symbols[i].as_str()) {
            return Err(Error::InvalidInput { field, reason: "must not contain empty symbols" });
        }
        i += 1;
    }
    Ok(())
}

/// What is checked of one query of required evidence.
pub open spec fn query_check(max_bytes: usize) -> spec_fn(Seq<char>) -> Option<Fault> {
    |query: Seq<char>|
        first_fault(
            too_long(query, "required_evidence query"@, max_bytes),
            blank_fault(query, "required_evidence queries"@, "must not contain empty queries"@),
        )
}

/// The fault of one piece of required evidence, but for its pattern.
pub open spec fn requirement_fault(requirement: RequiredEvidence, max_bytes: usize) -> Option<
    Fault,
> {
    let count = requirement.queries@.len();
    first_fault(
        blank_fault(requirement.path@, "required_evidence path"@, "must not be empty"@),
        if count == 0 {
            Some(
                Fault::InvalidInput {
                    field: "required_evidence queries"@,
                    reason: "must not be empty"@,
                },
            )
        } else {
            first_fault(
                too_many(count, "required_evidence queries"@, MAX_CONTEXT_EVIDENCE_QUERIES),
                if requirement.minimum_query_matches == 0 || requirement.minimum_query_matches
                    > count {
                    Some(
                        Fault::InvalidInput {
                            field: "required_evidence minimum_query_matches"@,
                            reason: "must be between one and the number of queries"@,
                        },
                    )
                } else {
                    first_in(texts(requirement.queries@), query_check(max_bytes), 0)
                },
            )
        },
    )
}

fn check_queries(queries: &Vec<String>, max_bytes: usize) -> (r: Result<(), Error>)
    ensures
        reports(r, first_in(texts(queries@), query_check(max_bytes), 0)),
{
    let ghost all = texts(queries@);
    let mut i: usize = 0;
    while i < queries.len()
        invariant
            i <= queries.len(),
            all == texts(queries@),
            first_in(all, query_check(max_bytes), 0) == first_in(
                all,
                query_check(max_bytes),
                i as int,
            ),
        decreases queries.len() - i,
    {
        assert(all[i as int] == queries@[i as int]@);
        match validate_input(queries[i].as_str(), "required_evidence query", max_bytes) {
            Ok(_) => {},
            Err(e) => {
                return Err(e);
            },
        }
        if blank(queries[i].as_str()) {
            return Err(
                Error::InvalidInput {
                    field: "required_evidence queries",
                    reason: "must not contain empty queries",
                },
            );
        }
        i += 1;
    }
    Ok(())
}

fn check_requirement(requirement: &RequiredEvidence, max_bytes: usize) -> (r: Result<(), Error>)
    ensures
        reports(r, requirement_fault(*requirement, max_bytes)),
{
    if blank(requirement.path.as_str()) {
        return Err(
            Error::InvalidInput { field: "required_evidence path", reason: "must not be empty" },
        );
    }
    if requirement.queries.len() == 0 {
        return Err(
            Error::InvalidInput {
                field: "required_evidence queries",
                reason: "must not be empty",
            },
        );
    }
    if requirement.queries.len() > MAX_CONTEXT_EVIDENCE_QUERIES {
        return Err(
            Error::RequestLimitExceeded {
                field: "required_evidence queries",
                requested: requirement.queries.len(),
                limit: MAX_CONTEXT_EVIDENCE_QUERIES,
            },
        );
    }
    if requirement.minimum_query_matches == 0 || requirement.minimum_query_matches
        > requirement.queries.len() {
        return Err(
            Error::InvalidInput {
                field: "required_evidence minimum_query_matches",
                reason: "must be between one and the number of queries",
            },
        );
    }
    check_queries(&requirement.queries, max_bytes)
}

/// The fault of the pieces of required evidence from a position on.
pub open spec fn requirements_fault(
    requirements: Seq<RequiredEvidence>,
    patterns: Option<BadItem>,
    max_bytes: usize,
    from: int,
) -> Option<Fault>
    decreases requirements.len() - from,
{
    if from < 0 || from >= requirements.len() {
        None
    } else {
        first_fault(
            item_fault(patterns, from),
            first_fault(
                requirement_fault(requirements[from], max_bytes),
                requirements_fault(requirements, patterns, max_bytes, from + 1),
            ),
        )
    }
}

/// The bytes of the queries of the first `upto` pieces of required evidence.
pub open spec fn requirement_bytes(requirements: Seq<RequiredEvidence>, upto: int) -> usize
    decreases upto,
{
    if upto <= 0 || upto > requirements.len() {
        0
    } else {
        total_bytes(
            requirement_bytes(requirements, upto - 1),
            texts(requirements[upto - 1].queries@),
            requirements[upto - 1].queries@.len() as int,
        )
    }
}

/// The fault of required evidence.
pub open spec fn evidence_fault(
    requirements: Seq<RequiredEvidence>,
    patterns: Option<BadItem>,
    max_bytes: usize,
) -> Option<Fault> {
    first_fault(
        too_many(requirements.len(), "required_evidence"@, MAX_CONTEXT_REQUIRED_EVIDENCE),
        first_fault(
            requirements_fault(requirements, patterns, max_bytes, 0),
            bytes_fault(
                requirement_bytes(requirements, requirements.len() as int),
                "required_evidence query bytes"@,
                MAX_CONTEXT_EVIDENCE_QUERY_BYTES,
            ),
        ),
    )
}

fn take_error(bad: Option<BadItem>) -> (r: Error)
    requires
        bad is Some,
    ensures
        r == bad->0.error,
{
    match bad {
        Some(item) => item.error,
        None => Error::LimitExceeded,
    }
}

fn check_evidence(
    requirements: &Vec<RequiredEvidence>,
    patterns: Option<BadItem>,
    max_bytes: usize,
) -> (r: Result<(), Error>)
    ensures
        reports(r, evidence_fault(requirements@, patterns, max_bytes)),
{
    if requirements.len() > MAX_CONTEXT_REQUIRED_EVIDENCE {
        return Err(
            Error::RequestLimitExceeded {
                field: "required_evidence",
                requested: requirements.len(),
                limit: MAX_CONTEXT_REQUIRED_EVIDENCE,
            },
        );
    }
    let ghost all = requirements@;
    let ghost given = patterns;
    let mut total: usize = 0;
    let mut i: usize = 0;
    while i < requirements.len()
        invariant
            i <= requirements.len(),
            requirements.len() <= MAX_CONTEXT_REQUIRED_EVIDENCE,
            all == requirements@,
            given == patterns,
            total == requirement_bytes(all, i as int),
            requirements_fault(all, given, max_bytes, 0) == requirements_fault(
                all,
                given,
                max_bytes,
                i as int,
            ),
        decreases requirements.len() - i,
    {
        if is_bad(&patterns, i) {
            return Err(take_error(patterns));
        }
        match check_requirement(&requirements[i], max_bytes) {
            Ok(_) => {},
            Err(e) => {
                return Err(e);
            },
        }
        total = add_bytes(total, &requirements[i].queries);
        i += 1;
    }
    if total > MAX_CONTEXT_EVIDENCE_QUERY_BYTES {
        return Err(
            Error::RequestLimitExceeded {
                field: "required_evidence query bytes",
                requested: total,
                limit: MAX_CONTEXT_EVIDENCE_QUERY_BYTES,
            },
        );
    }
    Ok(())
}

/// What is checked of one known hash.
pub open spec fn hash_check() -> spec_fn(Seq<char>) -> Option<Fault> {
    |hash: Seq<char>| too_long(hash, "known hash"@, MAX_KNOWN_HASH_BYTES)
}

/// The fault of known hashes.
pub open spec fn hashes_fault(hashes: Seq<Seq<char>>, limits: InputLimits) -> Option<Fault> {
    if hashes.len() > limits.max_input_items {
        Some(Fault::LimitExceeded)
    } else {
        first_in(hashes, hash_check(), 0)
    }
}

fn check_hashes(hashes: &Vec<String>, limits: InputLimits) -> (r: Result<(), Error>)
    ensures
        reports(r, hashes_fault(texts(hashes@), limits)),
{
    if hashes.len() > limits.max_input_items {
        return Err(Error::LimitExceeded);
    }
    let ghost all = texts(hashes@);
    let mut i: usize = 0;
    while i < hashes.len()
        invariant
            i <= hashes.len(),
            hashes.len() <= limits.max_input_items,
            all == texts(hashes@),
            first_in(all, hash_check(), 0) == first_in(all, hash_check(), i as int),
        decreases hashes.len() - i,
    {
        assert(all[i as int] == hashes@[i as int]@);
        match validate_input(hashes[i].as_str(), "known hash", MAX_KNOWN_HASH_BYTES) {
            Ok(_) => {},
            Err(e) => {
                return Err(e);
            },
        }
        i += 1;
    }
    Ok(())
}

/// The fault of changed paths from a position on.
pub open spec fn paths_fault(
    paths: Seq<Seq<char>>,
    relative: Option<BadItem>,
    max_bytes: usize,
    from: int,
) -> Option<Fault>
    decreases paths.len() - from,
{
    if from < 0 || from >= paths.len() {
        None
    } else {
        first_fault(
            too_long(paths[from], "changed path"@, max_bytes),
            first_fault(
                item_fault(relative, from),
                paths_fault(paths, relative, max_bytes, from + 1),
            ),
        )
    }
}

/// The fault of the changed paths that a request names.
pub open spec fn changed_paths_fault(
    paths: Seq<Seq<char>>,
    relative: Option<BadItem>,
    max_bytes: usize,
) -> Option<Fault> {
    if paths.len() > MAX_DIFF_CHANGED_PATHS {
        Some(Fault::LimitExceeded)
    } else {
        paths_fault(paths, relative, max_bytes, 0)
    }
}

fn check_changed_paths(paths: &Vec<String>, relative: Option<BadItem>, max_bytes: usize) -> (r:
    Result<(), Error>)
    ensures
        reports(r, changed_paths_fault(texts(paths@), relative, max_bytes)),
{
    if paths.len() > MAX_DIFF_CHANGED_PATHS {
        return Err(Error::LimitExceeded);
    }
    let ghost all = texts(paths@);
    let ghost given = relative;
    let mut i: usize = 0;
    while i < paths.len()
        invariant
            i <= paths.len(),
            paths.len() <= MAX_DIFF_CHANGED_PATHS,
            all == texts(paths@),
            given == relative,
            paths_fault(all, given, max_bytes, 0) == paths_fault(all, given, max_bytes, i as int),
        decreases paths.len() - i,
    {
        assert(all[i as int] == paths@[i as int]@);
        match validate_input(paths[i].as_str(), "changed path", max_bytes) {
            Ok(_) => {},
            Err(e) => {
                return Err(e);
            },
        }
        if is_bad(&relative, i) {
            return Err(take_error(relative));
        }
        i += 1;
    }
    Ok(())
}

/// The fault of the revision text of a request.
pub open spec fn base_revision_fault(revision: Option<Seq<char>>) -> Option<Fault> {
    match revision {
        Some(text) => if is_blank(text) {
            None
        } else {
            first_fault(
                too_long(text, "base revision"@, MAX_BASE_REVISION_BYTES),
                range_fault(text),
            )
        },
        None => None,
    }
}

fn check_base_revision(revision: &Option<String>) -> (r: Result<(), Error>)
    ensures
        reports(r, base_revision_fault(optional_text(*revision))),
{
    if let Some(text) = revision {
        if !blank(text.as_str()) {
            match validate_input(text.as_str(), "base revision", MAX_BASE_REVISION_BYTES) {
                Ok(_) => {},
                Err(e) => {
                    return Err(e);
                },
            }
            match parse_context_revision(revision) {
                Ok(_) => {},
                Err(e) => {
                    return Err(e);
                },
            }
        }
    }
    Ok(())
}

/// The fault of the patterns of a request.
pub open spec fn all_patterns_fault(
    request: ContextRequest,
    verdicts: ContextVerdicts,
) -> Option<Fault> {
    first_fault(
        patterns_fault(
            texts(request.include_paths@),
            "include paths"@,
            verdicts.include_patterns,
        ),
        first_fault(
            patterns_fault(
                texts(request.must_include_paths@),
                "must include paths"@,
                verdicts.must_include_patterns,
            ),
            first_fault(
                patterns_fault(
                    texts(request.focus_paths@),
                    "focus paths"@,
                    verdicts.focus_patterns,
                ),
                patterns_fault(
                    texts(request.exclude_paths@),
                    "exclude paths"@,
                    verdicts.exclude_patterns,
                ),
            ),
        ),
    )
}

/// The fault of the symbols of a request.
pub open spec fn all_symbols_fault(request: ContextRequest, limits: InputLimits) -> Option<Fault> {
    first_fault(
        symbols_fault(
            texts(request.focus_symbols@),
            "focus symbol"@,
            "focus symbols"@,
            limits,
        ),
        symbols_fault(
            texts(request.must_include_symbols@),
            "must include symbol"@,
            "must include symbols"@,
            limits,
        ),
    )
}

/// The fault of the fields of a request, in the order in which they are looked
/// through.
pub open spec fn fields_fault(
    request: ContextRequest,
    with_handoff: bool,
    verdicts: ContextVerdicts,
    limits: InputLimits,
) -> Option<Fault> {
    first_fault(
        options_fault(request, with_handoff),
        first_fault(
            blank_fault(request.task@, "task"@, "must not be empty"@),
            first_fault(
                numbers_fault(
                    request,
                    verdicts.token_budget,
                    verdicts.max_fragments,
                    verdicts.minimum_fragments,
                ),
                first_fault(
                    too_long(request.task@, "task"@, limits.max_query_bytes),
                    first_fault(
                        all_patterns_fault(request, verdicts),
                        first_fault(
                            all_symbols_fault(request, limits),
                            first_fault(
                                evidence_fault(
                                    request.required_evidence@,
                                    verdicts.evidence_patterns,
                                    limits.max_pattern_bytes,
                                ),
                                first_fault(
                                    hashes_fault(texts(request.known_hashes@), limits),
                                    first_fault(
                                        changed_paths_fault(
                                            texts(request.changed_paths@),
                                            verdicts.changed_paths,
                                            limits.max_path_bytes,
                                        ),
                                        base_revision_fault(optional_text(request.base_revision)),
                                    ),
                                ),
                            ),
                        ),
                    ),
                ),
            ),
        ),
    )
}

/// The fault of a request, given what compiling its queries came to: that of its
/// fields, of its queries and of its handoff.
pub open spec fn context_fault(
    request: ContextRequest,
    handoff: Option<HandoffManifestRequest>,
    verdicts: ContextVerdicts,
    queries: Result<(), Error>,
    limits: InputLimits,
) -> Option<Fault> {
    first_fault(
        fields_fault(request, handoff is Some, verdicts, limits),
        first_fault(verdict_fault(queries), handoff_fault(handoff)),
    )
}

/// The texts of the first `upto` queries that are searched for: all but those that
/// only say that tests are wanted.
pub open spec fn searched_values(queries: Seq<QueryView>, upto: int) -> Seq<Seq<char>>
    decreases upto,
{
    if upto <= 0 || upto > queries.len() {
        Seq::empty()
    } else if queries[upto - 1].facets.test_intent {
        searched_values(queries, upto - 1)
    } else {
        searched_values(queries, upto - 1).push(queries[upto - 1].value)
    }
}

/// The texts of the queries that are planned for a task and searched for.
pub open spec fn planned_values(task: Seq<char>, vocabulary: Vocabulary) -> Seq<Seq<char>> {
    let queries = planned(task, MAX_CONTEXT_QUERIES, vocabulary);
    searched_values(queries, queries.len() as int)
}

/// Whether terms may be said to compile, each in its turn, or the first that does
/// not to be refused so.
pub open spec fn terms_compiled<V: Fn(&str) -> Result<(), Error>>(
    compile: V,
    terms: Seq<Seq<char>>,
    said: Result<(), Error>,
) -> bool {
    match said {
        Ok(_) => forall|i: int|
            0 <= i < terms.len() ==> term_said(compile, #[trigger] terms[i], Ok(())),
        Err(e) => exists|k: int|
            {
                &&& 0 <= k < terms.len()
                &&& term_said(compile, #[trigger] terms[k], Err(e))
                &&& forall|i: int| 0 <= i < k ==> term_said(compile, #[trigger] terms[i], Ok(()))
            },
    }
}

fn compile_planned<V: Fn(&str) -> Result<(), Error>>(
    task: &str,
    vocabulary: &Vocabulary,
    compile: &V,
) -> (r: Result<(), Error>)
    requires
        forall|term: &str| call_requires(*compile, (term,)),
    ensures
        terms_compiled(*compile, planned_values(task@, *vocabulary), r),
{
    let plan = plan(task, MAX_CONTEXT_QUERIES, vocabulary);
    let ghost all = views(plan.queries@);
    let ghost terms = searched_values(all, all.len() as int);
    let mut i: usize = 0;
    assert(all.len() == plan.queries@.len());
    while i < plan.queries.len()
        invariant
            i <= plan.queries.len(),
            all == views(plan.queries@),
            all.len() == plan.queries@.len(),
            terms == searched_values(all, all.len() as int),
            terms == planned_values(task@, *vocabulary),
            searched_values(all, i as int).is_prefix_of(terms),
            forall|term: &str| call_requires(*compile, (term,)),
            forall|k: int|
                0 <= k < searched_values(all, i as int).len() ==> term_said(
                    *compile,
                    #[trigger] terms[k],
                    Ok(()),
                ),
        decreases plan.queries.len() - i,
    {
        assert(all[i as int] == plan.queries@[i as int]@);
        proof {
            searched_values_prefix(all, i + 1);
        }
        if !plan.queries[i].is_generic_test_path_prior() {
            let ghost at = searched_values(all, i as int).len() as int;
            let term = plan.queries[i].value.as_str();
            let said = compile(term);
            assert(term_said(*compile, term@, said));
            assert(searched_values(all, i + 1)[at] == term@);
            assert(terms[at] == term@);
            match said {
                Ok(nothing) => {
                    assert(nothing == ());
                    assert(term_said(*compile, terms[at], Ok(())));
                },
                Err(e) => {
                    assert(term_said(*compile, terms[at], Err(e)));
                    return Err(e);
                },
            }
        }
        i += 1;
    }
    Ok(())
}

proof fn searched_values_prefix(queries: Seq<QueryView>, upto: int)
    requires
        0 <= upto <= queries.len(),
    ensures
        searched_values(queries, upto).is_prefix_of(
            searched_values(queries, queries.len() as int),
        ),
    decreases queries.len() - upto,
{
    if upto < queries.len() {
        searched_values_prefix(queries, upto + 1);
        let next = searched_values(queries, upto + 1);
        assert(searched_values(queries, upto).is_prefix_of(next));
        let all = searched_values(queries, queries.len() as int);
        assert(next =~= all.take(next.len() as int));
        let here = searched_values(queries, upto);
        assert(here =~= all.take(here.len() as int));
    }
}

/// Whether `said` is what compiling the queries of a request came to, where it came
/// to that: no fault was found before.
pub open spec fn queries_said<V: Fn(&str) -> Result<(), Error>>(
    compile: V,
    task: Seq<char>,
    vocabulary: Vocabulary,
    earlier: Option<Fault>,
    said: Result<(), Error>,
) -> bool {
    earlier is None ==> terms_compiled(compile, planned_values(task, vocabulary), said)
}

impl Services {
    /// Refuses observed evidence that is too much, or blank. `relative` is the
    /// verdict on its paths.
    pub fn validate_workflow_evidence(
        evidence: &WorkflowEvidence,
        relative: Result<(), Error>,
    ) -> (r: Result<(), Error>)
        ensures
            reports(r, workflow_evidence_fault(*evidence, relative)),
    {
        match check_class(&evidence.failure_traces, "failure_traces") {
            Ok(_) => {},
            Err(e) => {
                return Err(e);
            },
        }
        match check_class(&evidence.symbols, "symbols") {
            Ok(_) => {},
            Err(e) => {
                return Err(e);
            },
        }
        match check_class(&evidence.paths, "paths") {
            Ok(_) => {},
            Err(e) => {
                return Err(e);
            },
        }
        match check_class(&evidence.test_intents, "test_intents") {
            Ok(_) => {},
            Err(e) => {
                return Err(e);
            },
        }
        let traces: usize = add_bytes(0, &evidence.failure_traces);
        let symbols: usize = add_bytes(traces, &evidence.symbols);
        let paths: usize = add_bytes(symbols, &evidence.paths);
        let total: usize = add_bytes(paths, &evidence.test_intents);
        if total > MAX_WORKFLOW_EVIDENCE_TOTAL_BYTES {
            return Err(
                Error::RequestLimitExceeded {
                    field: "workflow_evidence total bytes",
                    requested: total,
                    limit: MAX_WORKFLOW_EVIDENCE_TOTAL_BYTES,
                },
            );
        }
        relative
    }

    /// Refuses a request that is not well formed, and reads its policy. Every query
    /// that is planned for its task and searched for has to compile.
    #[verifier::rlimit(40)]
    pub fn validate_context_request<V: Fn(&str) -> Result<(), Error>>(
        request: &ContextRequest,
        handoff: Option<HandoffManifestRequest>,
        verdicts: ContextVerdicts,
        limits: InputLimits,
        vocabulary: &Vocabulary,
        compile: &V,
    ) -> (r: Result<ContextPolicy, Error>)
        requires
            forall|term: &str| call_requires(*compile, (term,)),
        ensures
            exists|said: Result<(), Error>|
                {
                    &&& #[trigger] queries_said(
                        *compile,
                        request.task@,
                        *vocabulary,
                        fields_fault(*request, handoff is Some, verdicts, limits),
                        said,
                    )
                    &&& reports(r, context_fault(*request, handoff, verdicts, said, limits))
                },
            r matches Ok(policy) ==> policy_of(*request, handoff, policy),
    {
        let ghost fault = fields_fault(*request, handoff is Some, verdicts, limits);
        assert(fault is Some ==> queries_said(*compile, request.task@, *vocabulary, fault, Ok(())));
        match validate_context_option_constraints(request, handoff.is_some()) {
            Ok(_) => {},
            Err(e) => {
                return Err(e);
            },
        }
        if blank(request.task.as_str()) {
            return Err(Error::InvalidInput { field: "task", reason: "must not be empty" });
        }
        match check_numbers(
            request,
            verdicts.token_budget,
            verdicts.max_fragments,
            verdicts.minimum_fragments,
        ) {
            Ok(_) => {},
            Err(e) => {
                return Err(e);
            },
        }
        match validate_input(request.task.as_str(), "task", limits.max_query_bytes) {
            Ok(_) => {},
            Err(e) => {
                return Err(e);
            },
        }
        match check_patterns(&request.include_paths, "include paths", verdicts.include_patterns) {
            Ok(_) => {},
            Err(e) => {
                return Err(e);
            },
        }
        match check_patterns(
            &request.must_include_paths,
            "must include paths",
            verdicts.must_include_patterns,
        ) {
            Ok(_) => {},
            Err(e) => {
                return Err(e);
            },
        }
        match check_patterns(&request.focus_paths, "focus paths", verdicts.focus_patterns) {
            Ok(_) => {},
            Err(e) => {
                return Err(e);
            },
        }
        match check_patterns(&request.exclude_paths, "exclude paths", verdicts.exclude_patterns) {
            Ok(_) => {},
            Err(e) => {
                return Err(e);
            },
        }
        match check_symbols(&request.focus_symbols, "focus symbol", "focus symbols", limits) {
            Ok(_) => {},
            Err(e) => {
                return Err(e);
            },
        }
        match check_symbols(
            &request.must_include_symbols,
            "must include symbol",
            "must include symbols",
            limits,
        ) {
            Ok(_) => {},
            Err(e) => {
                return Err(e);
            },
        }
        match check_evidence(
            &request.required_evidence,
            verdicts.evidence_patterns,
            limits.max_pattern_bytes,
        ) {
            Ok(_) => {},
            Err(e) => {
                return Err(e);
            },
        }
        match check_hashes(&request.known_hashes, limits) {
            Ok(_) => {},
            Err(e) => {
                return Err(e);
            },
        }
        match check_changed_paths(
            &request.changed_paths,
            verdicts.changed_paths,
            limits.max_path_bytes,
        ) {
            Ok(_) => {},
            Err(e) => {
                return Err(e);
            },
        }
        match check_base_revision(&request.base_revision) {
            Ok(_) => {},
            Err(e) => {
                return Err(e);
            },
        }
        let said = compile_planned(request.task.as_str(), vocabulary, compile);
        assert(queries_said(*compile, request.task@, *vocabulary, fault, said));
        match said {
            Ok(_) => {},
            Err(e) => {
                return Err(e);
            },
        }
        ContextPolicy::parse(request, handoff)
    }
}

/// What a context call is accounted as.
pub fn context_accounting_operation(request: &ContextRequest) -> (r: TokenAccountingOperation)
    ensures
        r == if request.plan_only {
            TokenAccountingOperation::ContextPlan
        } else {
            TokenAccountingOperation::Context
        },
{
    if request.plan_only {
        TokenAccountingOperation::ContextPlan
    } else {
        TokenAccountingOperation::Context
    }
}

} // verus!
