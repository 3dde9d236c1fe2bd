//! Which requests are accepted.

use crate::accounting::ServiceCallOptions;
use crate::context::execution::{full_paths, parses, profile_of, ContextInput, ParsedContextRequest};
use crate::context::policy::ContextExecution;
use crate::context::response::profile_fault;
use crate::context::validation::{
    changed_paths_fault, class_fault, evidence_bytes, evidence_check, hash_check, hashes_fault,
    numbers_fault, requirement_fault, workflow_evidence_fault,
};
use crate::error::{Error, Fault};
use crate::files::{asked_query, files_fault, FilesRequest, QueryView};
use crate::handoff::{note_check, notes_fault, request_fault, validation_check};
use crate::model::{
    ContextRequest, HandoffManifestRequest, RequiredEvidence, WorkflowEvidence,
};
use crate::ordered::views;
use crate::text::{byte_len, texts};
use crate::validation::{first_in, is_blank, total_bytes, InputLimits};
use vstd::prelude::*;

verus! {

/// A list has a fault exactly where an item of it has, and then that of its first bad
/// item.
pub proof fn the_first_bad_item_is_told<A>(
    items: Seq<A>,
    check: spec_fn(A) -> Option<Fault>,
    from: int,
)
    requires
        0 <= from <= items.len(),
    ensures
        first_in(items, check, from) is None <==> forall|i: int|
            from <= i < items.len() ==> check(#[trigger] items[i]) is None,
        first_in(items, check, from) is Some ==> exists|k: int|
            {
                &&& from <= k < items.len()
                &&& check(#[trigger] items[k]) == first_in(items, check, from)
                &&& forall|i: int| from <= i < k ==> check(#[trigger] items[i]) is None
            },
    decreases items.len() - from,
{
    if from < items.len() {
        the_first_bad_item_is_told(items, check, from + 1);
        if check(items[from]) is Some {
            assert(check(items[from]) == first_in(items, check, from));
        } else if first_in(items, check, from) is Some {
            let k = choose|k: int|
                {
                    &&& from + 1 <= k < items.len()
                    &&& check(#[trigger] items[k]) == first_in(items, check, from + 1)
                    &&& forall|i: int| from + 1 <= i < k ==> check(#[trigger] items[i]) is None
                };
            assert(check(items[k]) == first_in(items, check, from));
        }
    }
}

/// Whether a text is short enough and says something.
pub open spec fn says_shortly(text: Seq<char>, max_bytes: int) -> bool {
    byte_len(text) <= max_bytes && !is_blank(text)
}

/// Whether all texts of a short list are short and say something.
pub open spec fn all_say_shortly(list: Seq<String>, most: int, max_bytes: int) -> bool {
    list.len() <= most && forall|i: int|
        0 <= i < list.len() ==> says_shortly((#[trigger] list[i])@, max_bytes)
}

proof fn notes_are_accepted_where_short(list: Seq<String>, field: Seq<char>)
    ensures
        notes_fault(texts(list), field) is None <==> all_say_shortly(list, 16, 512),
{
    let all = texts(list);
    the_first_bad_item_is_told(all, note_check(field), 0);
    if notes_fault(all, field) is None {
        assert forall|i: int| 0 <= i < list.len() implies says_shortly(
            (#[trigger] list[i])@,
            512,
        ) by {
            assert(note_check(field)(all[i]) is None);
        }
    }
    if all_say_shortly(list, 16, 512) {
        assert forall|i: int| 0 <= i < all.len() implies note_check(field)(
            #[trigger] all[i],
        ) is None by {
            assert(says_shortly(list[i]@, 512));
        }
    }
}

/// A handoff is accepted exactly where its summary, its notes and its validations say
/// something and are short: sixteen of each kind, notes and summaries of 512 bytes,
/// commands of 1024.
pub proof fn a_handoff_is_accepted_where_it_is_short(request: HandoffManifestRequest)
    ensures
        request_fault(request) is None <==> {
            &&& request.summary is Some ==> says_shortly((request.summary->0)@, 512)
            &&& all_say_shortly(request.assumptions@, 16, 512)
            &&& all_say_shortly(request.open_questions@, 16, 512)
            &&& all_say_shortly(request.negative_evidence@, 16, 512)
            &&& all_say_shortly(request.avoid_rules@, 16, 512)
            &&& request.validations@.len() <= 16
            &&& forall|i: int|
                0 <= i < request.validations@.len() ==> {
                    &&& says_shortly((#[trigger] request.validations@[i]).command@, 1024)
                    &&& request.validations@[i].summary is Some ==> says_shortly(
                        (request.validations@[i].summary->0)@,
                        512,
                    )
                }
        },
{
    notes_are_accepted_where_short(request.assumptions@, "handoff.assumptions"@);
    notes_are_accepted_where_short(request.open_questions@, "handoff.open_questions"@);
    notes_are_accepted_where_short(request.negative_evidence@, "handoff.negative_evidence"@);
    notes_are_accepted_where_short(request.avoid_rules@, "handoff.avoid_rules"@);
    let all = views(request.validations@);
    the_first_bad_item_is_told(all, validation_check(), 0);
    assert forall|i: int| 0 <= i < request.validations@.len() implies (validation_check()(
        all[i],
    ) is None <==> {
        &&& says_shortly((#[trigger] request.validations@[i]).command@, 1024)
        &&& request.validations@[i].summary is Some ==> says_shortly(
            (request.validations@[i].summary->0)@,
            512,
        )
    }) by {
        assert(all[i] == request.validations@[i]@);
    }
    if first_in(all, validation_check(), 0) is None {
        assert forall|i: int| 0 <= i < request.validations@.len() implies {
            &&& says_shortly((#[trigger] request.validations@[i]).command@, 1024)
            &&& request.validations@[i].summary is Some ==> says_shortly(
                (request.validations@[i].summary->0)@,
                512,
            )
        } by {
            assert(validation_check()(all[i]) is None);
        }
    }
    if forall|i: int|
        0 <= i < request.validations@.len() ==> {
            &&& says_shortly((#[trigger] request.validations@[i]).command@, 1024)
            &&& request.validations@[i].summary is Some ==> says_shortly(
                (request.validations@[i].summary->0)@,
                512,
            )
        } {
        assert forall|i: int| 0 <= i < all.len() implies validation_check()(
            #[trigger] all[i],
        ) is None by {
            assert(says_shortly(request.validations@[i].command@, 1024));
        }
    }
}

proof fn a_class_is_accepted_where_short(list: Seq<String>, field: Seq<char>)
    ensures
        class_fault(texts(list), field) is None <==> all_say_shortly(list, 8, 8192),
{
    let all = texts(list);
    the_first_bad_item_is_told(all, evidence_check(field), 0);
    if class_fault(all, field) is None {
        assert forall|i: int| 0 <= i < list.len() implies says_shortly(
            (#[trigger] list[i])@,
            8192,
        ) by {
            assert(evidence_check(field)(all[i]) is None);
        }
    }
    if all_say_shortly(list, 8, 8192) {
        assert forall|i: int| 0 <= i < all.len() implies evidence_check(field)(
            #[trigger] all[i],
        ) is None by {
            assert(says_shortly(list[i]@, 8192));
        }
    }
}

/// The evidence of a workflow is accepted exactly where each of its four classes holds
/// at most eight texts of up to 8192 bytes that say something, all of them together
/// take no more than 32768 bytes, and its paths are relative.
pub proof fn workflow_evidence_is_accepted_where_short(
    evidence: WorkflowEvidence,
    relative: Result<(), Error>,
)
    ensures
        workflow_evidence_fault(evidence, relative) is None <==> {
            &&& all_say_shortly(evidence.failure_traces@, 8, 8192)
            &&& all_say_shortly(evidence.symbols@, 8, 8192)
            &&& all_say_shortly(evidence.paths@, 8, 8192)
            &&& all_say_shortly(evidence.test_intents@, 8, 8192)
            &&& evidence_bytes(evidence) <= 32768
            &&& relative is Ok
        },
{
    a_class_is_accepted_where_short(evidence.failure_traces@, "failure_traces"@);
    a_class_is_accepted_where_short(evidence.symbols@, "symbols"@);
    a_class_is_accepted_where_short(evidence.paths@, "paths"@);
    a_class_is_accepted_where_short(evidence.test_intents@, "test_intents"@);
}

/// The bytes of a list are those that there were and those of each of its texts, up to
/// the largest number; a list never makes them fewer.
pub proof fn bytes_are_summed(start: usize, list: Seq<Seq<char>>, i: int)
    requires
        0 <= i < list.len(),
    ensures
        total_bytes(start, list, 0) == start,
        total_bytes(start, list, i + 1) >= total_bytes(start, list, i),
        total_bytes(start, list, i) + byte_len(list[i]) <= usize::MAX ==> total_bytes(
            start,
            list,
            i + 1,
        ) == total_bytes(start, list, i) + byte_len(list[i]),
{
}

/// A request for files is accepted only where its path, its query and its pattern keep
/// within their bytes, and where it names what its operation looks for: a search by
/// name a query, a search for a glob a pattern. What is looked for is what was named.
pub proof fn a_request_for_files_names_what_it_looks_for(
    request: FilesRequest,
    limits: InputLimits,
    relative: Result<String, Error>,
    pattern: Result<(), Error>,
)
    requires
        files_fault(request, limits, relative, pattern) is None,
    ensures
        request.path is Some ==> byte_len((request.path->0)@) <= limits.max_path_bytes,
        request.query is Some ==> byte_len((request.query->0)@) <= limits.max_query_bytes,
        request.pattern is Some ==> byte_len((request.pattern->0)@) <= limits.max_pattern_bytes,
        request.operation is Find ==> request.query is Some && !is_blank((request.query->0)@)
            && asked_query(request, relative) == (QueryView::Find { query: (request.query->0)@ }),
        request.operation is Glob ==> request.pattern is Some && !is_blank((request.pattern->0)@)
            && pattern is Ok && asked_query(request, relative) == (QueryView::Glob {
            pattern: (request.pattern->0)@,
        }),
        request.operation is Tree && (request.path is None || (request.path->0)@.len() == 0)
            ==> asked_query(request, relative) == (QueryView::Tree {
            root: Seq::empty(),
            depth: request.depth,
        }),
        request.operation is Tree && request.path is Some && (request.path->0)@.len() > 0
            ==> relative is Ok && asked_query(request, relative) == (QueryView::Tree {
            root: (relative->Ok_0)@,
            depth: request.depth,
        }),
{
}

/// A piece of required evidence is refused where it names no path or no query, where
/// it names more than sixteen queries, and where its minimum of matches is none or more
/// than its queries.
pub proof fn required_evidence_asks_for_what_it_can_find(
    requirement: RequiredEvidence,
    max_bytes: usize,
)
    requires
        requirement_fault(requirement, max_bytes) is None,
    ensures
        !is_blank(requirement.path@),
        1 <= requirement.queries@.len() <= 16,
        1 <= requirement.minimum_query_matches <= requirement.queries@.len(),
{
}

/// A request names at most eight fragments for a focus path and thirty-two focus paths.
pub proof fn focus_numbers_are_bounded(
    request: ContextRequest,
    token_budget: Result<(), Error>,
    max_fragments: Result<(), Error>,
    minimum_fragments: Result<(), Error>,
)
    ensures
        numbers_fault(request, token_budget, max_fragments, minimum_fragments) is None <==> {
            &&& token_budget is Ok
            &&& request.max_fragments is Some ==> max_fragments is Ok
            &&& request.minimum_fragments_per_focus_path is Some ==> minimum_fragments is Ok
                && request.minimum_fragments_per_focus_path->0 <= 8
            &&& request.focus_paths@.len() <= 32
        },
{
}

/// Hashes that a caller knows are refused where they are too many or longer than 128
/// bytes, and changed paths where they are more than 512.
pub proof fn hashes_and_paths_are_bounded(
    hashes: Seq<Seq<char>>,
    limits: InputLimits,
    paths: Seq<Seq<char>>,
)
    ensures
        hashes_fault(hashes, limits) is None <==> hashes.len() <= limits.max_input_items && forall|
            i: int,
        | 0 <= i < hashes.len() ==> byte_len(#[trigger] hashes[i]) <= 128,
        paths.len() > 512 ==> changed_paths_fault(paths, None, limits.max_path_bytes) is Some,
{
    the_first_bad_item_is_told(hashes, hash_check(), 0);
    if hashes_fault(hashes, limits) is None {
        assert forall|i: int| 0 <= i < hashes.len() implies byte_len(#[trigger] hashes[i])
            <= 128 by {
            assert(hash_check()(hashes[i]) is None);
        }
    }
    if hashes.len() <= limits.max_input_items && forall|i: int|
        0 <= i < hashes.len() ==> byte_len(#[trigger] hashes[i]) <= 128 {
        assert forall|i: int| 0 <= i < hashes.len() implies hash_check()(
            #[trigger] hashes[i],
        ) is None by {}
    }
}

/// The profile of a response is the one that is asked for; without one it explains
/// exactly where diagnostics are asked for, and is balanced otherwise. Diagnostics are
/// refused to a profile that does not explain.
pub proof fn a_profile_is_asked_for_or_follows(request: ContextRequest, options: ServiceCallOptions)
    ensures
        options.context_response_profile is Some ==> profile_of(request, options)
            == options.context_response_profile->0,
        options.context_response_profile is None && request.explain_diagnostics ==> profile_of(
            request,
            options,
        ) is Explain,
        options.context_response_profile is None && !request.explain_diagnostics ==> profile_of(
            request,
            options,
        ) is Balanced,
        profile_fault(request, options) is None && request.explain_diagnostics ==> profile_of(
            request,
            options,
        ) is Explain,
        profile_fault(request, options) is Some <==> request.explain_diagnostics
            && options.context_response_profile is Some && !(
        options.context_response_profile->0 is Explain),
{
}

/// A request that is read keeps what was asked: its task, its budget and its paths, each
/// changed path as it was written in full; it explains exactly where its profile does.
pub proof fn a_read_request_keeps_what_was_asked(
    request: ContextRequest,
    context: ContextExecution,
    options: ServiceCallOptions,
    input: ContextInput,
    parsed: ParsedContextRequest,
)
    requires
        parses(request, context, options, input, parsed),
    ensures
        parsed.request.task == request.task,
        parsed.request.token_budget == request.token_budget,
        parsed.request.focus_paths == request.focus_paths,
        parsed.request.plan_only == request.plan_only,
        parsed.request.strict_changed_paths == request.strict_changed_paths,
        parsed.request.changed_paths@.len() == request.changed_paths@.len(),
        parsed.request.explain_diagnostics <==> parsed.response_profile is Explain,
        parsed.workflow == context.workflow,
        parsed.policy.delivery is Plan <==> request.plan_only,
        parsed.revision is Some ==> request.base_revision is Some,
        forall|i: int|
            0 <= i < request.changed_paths@.len() && i < input.normalized@.len()
                && input.normalized@[i] is Ok ==> (#[trigger] parsed.request.changed_paths@[i])@ == (
            input.normalized@[i]->Ok_0)@,
{
    let all = full_paths(texts(request.changed_paths@), input.normalized@);
    let told = texts(parsed.request.changed_paths@);
    assert(told.len() == parsed.request.changed_paths@.len());
    assert(all.len() == request.changed_paths@.len());
    assert forall|i: int|
        0 <= i < request.changed_paths@.len() && i < input.normalized@.len()
            && input.normalized@[i] is Ok implies (#[trigger] parsed.request.changed_paths@[i])@ == (
    input.normalized@[i]->Ok_0)@ by {
        assert(told[i] == parsed.request.changed_paths@[i]@);
        assert(told[i] == all[i]);
    }
}

} // verus!
