//! Answering a context request: reading it, scoping it to what changed, and letting
//! its response answer for a state of the repository.

use crate::accounting::{budget_fault, Measurement, ReceiptResourceDecoration, ServiceCallOptions};
use crate::context::diff_evidence::DiffEvidenceMode;
use crate::context::facets::Vocabulary;
use crate::context::finalize::{
    exceeded_error, measures, resettled, set_routing_consistency, settles, with_consistency,
};
use crate::context::policy::{
    observed, policy_of, ContextExecution, ContextPolicy, WorkingTreeObservation,
};
use crate::context::response::{effective_context_response_profile, profile_fault};
use crate::context::scope::{
    has_scope, is_range, names_revision, parse_context_revision, revision_fault, scope_fault,
    scoped, ContextRevision,
};
use crate::context::validation::{
    context_fault, fields_fault, queries_said, workflow_evidence_fault, ContextVerdicts,
};
use crate::error::{first_fault, reports, Error, Fault};
use crate::model::{
    ContextRequest, ContextResponseProfile, ContextWorkflow, DiffScopeReceipt, GitDiffResult,
    GitWorkingTreeStatus, IndexConsistency, RequiredEvidence, ResponseMeta, WorkflowEvidence,
};
use crate::response::ContextResponse;
use crate::services::Services;
use crate::text::{copy_optional_text, copy_texts, optional_text, texts};
use crate::validation::{too_long, validate_input, verdict_fault, InputLimits};
use vstd::prelude::*;

verus! {

/// A request that was read, with its policy.
pub struct ParsedContextRequest {
    pub request: ContextRequest,
    pub policy: ContextPolicy,
    pub workflow: ContextWorkflow,
    pub workflow_evidence: WorkflowEvidence,
    pub response_profile: ContextResponseProfile,
    pub revision: Option<ContextRevision>,
}

/// What the caller finds of a request: whether the options of the call are in
/// order, what each field comes to, how each changed path is written in full, and
/// whether the paths of observed evidence are relative.
pub struct ContextInput {
    pub call_options: Result<(), Error>,
    pub verdicts: ContextVerdicts,
    pub normalized: Vec<Result<String, Error>>,
    pub evidence_paths: Result<(), Error>,
}

/// The profile of a response.
pub open spec fn profile_of(request: ContextRequest, options: ServiceCallOptions) ->
    ContextResponseProfile {
    match options.context_response_profile {
        Some(asked) => asked,
        None => if request.explain_diagnostics {
            ContextResponseProfile::Explain
        } else {
            ContextResponseProfile::Balanced
        },
    }
}

/// A request that asks for diagnostics as its profile does.
pub open spec fn with_profile(request: ContextRequest, options: ServiceCallOptions) ->
    ContextRequest {
    ContextRequest {
        explain_diagnostics: profile_of(request, options) is Explain,
        ..request
    }
}

/// The fault of the first `upto` changed paths of a request.
pub open spec fn paths_fault(
    paths: Seq<Seq<char>>,
    normalized: Seq<Result<String, Error>>,
    max_bytes: usize,
    upto: int,
) -> Option<Fault>
    decreases upto,
{
    if upto <= 0 || upto > paths.len() {
        None
    } else {
        first_fault(
            paths_fault(paths, normalized, max_bytes, upto - 1),
            first_fault(
                too_long(paths[upto - 1], "changed path"@, max_bytes),
                if upto <= normalized.len() && normalized[upto - 1] is Err {
                    Some((normalized[upto - 1]->Err_0)@)
                } else {
                    None
                },
            ),
        )
    }
}

/// A changed path as it is written in full.
pub open spec fn full_path(
    paths: Seq<Seq<char>>,
    normalized: Seq<Result<String, Error>>,
    i: int,
) -> Seq<char> {
    if 0 <= i < normalized.len() && normalized[i] is Ok {
        (normalized[i]->Ok_0)@
    } else {
        paths[i]
    }
}

/// The changed paths as they are written in full.
pub open spec fn full_paths(paths: Seq<Seq<char>>, normalized: Seq<Result<String, Error>>) -> Seq<
    Seq<char>,
> {
    Seq::new(paths.len(), |i: int| full_path(paths, normalized, i))
}

/// The fault of a request that is found before its queries are compiled.
pub open spec fn earlier_fault(
    request: ContextRequest,
    context: ContextExecution,
    options: ServiceCallOptions,
    input: ContextInput,
    limits: InputLimits,
) -> Option<Fault> {
    first_fault(
        first_fault(verdict_fault(input.call_options), profile_fault(request, options)),
        fields_fault(
            with_profile(request, options),
            context.handoff is Some,
            input.verdicts,
            limits,
        ),
    )
}

/// Why a request cannot be answered, given what compiling its queries came to.
pub open spec fn input_fault(
    request: ContextRequest,
    context: ContextExecution,
    options: ServiceCallOptions,
    input: ContextInput,
    queries: Result<(), Error>,
    limits: InputLimits,
) -> Option<Fault> {
    first_fault(
        first_fault(
            first_fault(
                first_fault(
                    first_fault(
                        verdict_fault(input.call_options),
                        profile_fault(request, options),
                    ),
                    context_fault(
                        with_profile(request, options),
                        context.handoff,
                        input.verdicts,
                        queries,
                        limits,
                    ),
                ),
                paths_fault(
                    texts(request.changed_paths@),
                    input.normalized@,
                    limits.max_path_bytes,
                    request.changed_paths@.len() as int,
                ),
            ),
            revision_fault(optional_text(request.base_revision)),
        ),
        workflow_evidence_fault(context.workflow_evidence, input.evidence_paths),
    )
}

/// Whether `parsed` is what a request says.
pub open spec fn parses(
    request: ContextRequest,
    context: ContextExecution,
    options: ServiceCallOptions,
    input: ContextInput,
    parsed: ParsedContextRequest,
) -> bool {
    &&& parsed.request == (ContextRequest {
        changed_paths: parsed.request.changed_paths,
        ..with_profile(request, options)
    })
    &&& texts(parsed.request.changed_paths@) == full_paths(
        texts(request.changed_paths@),
        input.normalized@,
    )
    &&& policy_of(with_profile(request, options), context.handoff, parsed.policy)
    &&& parsed.workflow == context.workflow
    &&& parsed.workflow_evidence == context.workflow_evidence
    &&& parsed.response_profile == profile_of(request, options)
    &&& names_revision(optional_text(request.base_revision), parsed.revision)
}

fn write_paths_in_full(
    paths: &Vec<String>,
    normalized: Vec<Result<String, Error>>,
    max_bytes: usize,
) -> (r: Result<Vec<String>, Error>)
    ensures
        reports(r, paths_fault(texts(paths@), normalized@, max_bytes, paths@.len() as int)),
        r matches Ok(out) ==> texts(out@) == full_paths(texts(paths@), normalized@),
{
    let ghost given = texts(paths@);
    let ghost answers = normalized@;
    let ghost all = full_paths(given, answers);
    let mut rest = normalized;
    let mut out: Vec<String> = Vec::new();
    let mut i: usize = 0;
    proof {
        assert(texts(out@) =~= all.take(0));
        assert(rest@ =~= crate::context::candidates::constraints::left_of(answers, 0));
    }
    while i < paths.len()
        invariant
            i <= paths.len(),
            given == texts(paths@),
            given.len() == paths@.len(),
            answers == normalized@,
            all == full_paths(given, answers),
            rest@ == crate::context::candidates::constraints::left_of(answers, i as int),
            paths_fault(given, answers, max_bytes, i as int) is None,
            texts(out@) == all.take(i as int),
        decreases paths.len() - i,
    {
        let ghost before = texts(out@);
        let ghost left = rest@;
        assert(given[i as int] == paths@[i as int]@);
        proof {
            fault_stays(given, answers, max_bytes, i + 1);
        }
        match validate_input(paths[i].as_str(), "changed path", max_bytes) {
            Ok(_) => {},
            Err(e) => {
                return Err(e);
            },
        }
        let path = if rest.len() > 0 {
            let answer = rest.remove(0);
            assert(answer == answers[i as int]);
            match answer {
                Ok(path) => path,
                Err(e) => {
                    return Err(e);
                },
            }
        } else {
            paths[i].clone()
        };
        let ghost added = path@;
        out.push(path);
        proof {
            assert(rest@ =~= crate::context::candidates::constraints::left_of(answers, i + 1));
            assert(added == all[i as int]);
            assert(texts(out@) =~= before.push(added));
            assert(texts(out@) =~= all.take(i + 1));
        }
        i += 1;
    }
    assert(all.take(all.len() as int) =~= all);
    Ok(out)
}

proof fn fault_stays(
    paths: Seq<Seq<char>>,
    normalized: Seq<Result<String, Error>>,
    max_bytes: usize,
    upto: int,
)
    requires
        0 <= upto <= paths.len(),
    ensures
        paths_fault(paths, normalized, max_bytes, upto) is Some ==> paths_fault(
            paths,
            normalized,
            max_bytes,
            paths.len() as int,
        ) == paths_fault(paths, normalized, max_bytes, upto),
    decreases paths.len() - upto,
{
    if upto < paths.len() {
        fault_stays(paths, normalized, max_bytes, upto + 1);
    }
}

impl Services {
    /// Reads a request: its profile, its policy, its changed paths and its
    /// revisions.
    #[verifier::rlimit(40)]
    pub fn parse_context_input<V: Fn(&str) -> Result<(), Error>>(
        request: ContextRequest,
        context: ContextExecution,
        options: ServiceCallOptions,
        input: ContextInput,
        limits: InputLimits,
        vocabulary: &Vocabulary,
        compile: &V,
    ) -> (r: Result<ParsedContextRequest, Error>)
        requires
            forall|term: &str| call_requires(*compile, (term,)),
        ensures
            exists|said: Result<(), Error>|
                {
                    &&& #[trigger] queries_said(
                        *compile,
                        request.task@,
                        *vocabulary,
                        earlier_fault(request, context, options, input, limits),
                        said,
                    )
                    &&& reports(r, input_fault(request, context, options, input, said, limits))
                },
            r matches Ok(parsed) ==> parses(request, context, options, input, parsed),
    {
        let ghost asked = request;
        let ghost fault = earlier_fault(request, context, options, input, limits);
        assert(fault is Some ==> queries_said(*compile, asked.task@, *vocabulary, fault, Ok(())));
        match input.call_options {
            Ok(_) => {},
            Err(e) => {
                return Err(e);
            },
        }
        let response_profile = match effective_context_response_profile(&request, options) {
            Ok(profile) => profile,
            Err(e) => {
                return Err(e);
            },
        };
        let mut request = request;
        request.explain_diagnostics =
        match response_profile {
            ContextResponseProfile::Explain => true,
            _ => false,
        };
        assert(request == with_profile(asked, options));
        let policy = match Self::validate_context_request(
            &request,
            context.handoff,
            input.verdicts,
            limits,
            vocabulary,
            compile,
        ) {
            Ok(policy) => policy,
            Err(e) => {
                return Err(e);
            },
        };
        let changed_paths = match write_paths_in_full(
            &request.changed_paths,
            input.normalized,
            limits.max_path_bytes,
        ) {
            Ok(paths) => paths,
            Err(e) => {
                return Err(e);
            },
        };
        request.changed_paths = changed_paths;
        let revision = match parse_context_revision(&request.base_revision) {
            Ok(revision) => revision,
            Err(e) => {
                return Err(e);
            },
        };
        match Self::validate_workflow_evidence(&context.workflow_evidence, input.evidence_paths) {
            Ok(_) => {},
            Err(e) => {
                return Err(e);
            },
        }
        Ok(
            ParsedContextRequest {
                request,
                policy,
                workflow: context.workflow,
                workflow_evidence: context.workflow_evidence,
                response_profile,
                revision,
            },
        )
    }
}

/// Whether two pieces of required evidence say the same.
pub open spec fn same_evidence(a: RequiredEvidence, b: RequiredEvidence) -> bool {
    &&& a.path == b.path
    &&& a.queries@ == b.queries@
    &&& a.minimum_query_matches == b.minimum_query_matches
}

/// Whether a request is another, but for its changed paths.
pub open spec fn rescoped(request: ContextRequest, out: ContextRequest) -> bool {
    &&& out.task == request.task
    &&& out.token_budget == request.token_budget
    &&& out.max_fragments == request.max_fragments
    &&& out.minimum_fragments_per_focus_path == request.minimum_fragments_per_focus_path
    &&& out.strict_focus_paths == request.strict_focus_paths
    &&& out.strict_changed_paths == request.strict_changed_paths
    &&& out.plan_only == request.plan_only
    &&& out.explain_diagnostics == request.explain_diagnostics
    &&& out.receipt_id == request.receipt_id
    &&& out.include_paths@ == request.include_paths@
    &&& out.must_include_paths@ == request.must_include_paths@
    &&& out.focus_paths@ == request.focus_paths@
    &&& out.exclude_paths@ == request.exclude_paths@
    &&& out.focus_symbols@ == request.focus_symbols@
    &&& out.must_include_symbols@ == request.must_include_symbols@
    &&& out.required_evidence@.len() == request.required_evidence@.len()
    &&& forall|i: int|
        0 <= i < out.required_evidence@.len() ==> same_evidence(
            request.required_evidence@[i],
            #[trigger] out.required_evidence@[i],
        )
    &&& out.known_hashes@ == request.known_hashes@
    &&& out.base_revision == request.base_revision
    &&& out.prior_repository_generation == request.prior_repository_generation
}

fn copy_evidence(list: &Vec<RequiredEvidence>) -> (r: Vec<RequiredEvidence>)
    ensures
        r@.len() == list@.len(),
        forall|i: int| 0 <= i < r@.len() ==> same_evidence(list@[i], #[trigger] r@[i]),
{
    let mut out: Vec<RequiredEvidence> = Vec::new();
    let mut i: usize = 0;
    while i < list.len()
        invariant
            i <= list.len(),
            out@.len() == i,
            forall|k: int| 0 <= k < i ==> same_evidence(list@[k], #[trigger] out@[k]),
        decreases list.len() - i,
    {
        out.push(
            RequiredEvidence {
                path: list[i].path.clone(),
                queries: copy_texts(&list[i].queries),
                minimum_query_matches: list[i].minimum_query_matches,
            },
        );
        i += 1;
    }
    out
}

/// A request for other changed paths.
fn rescope(request: &ContextRequest, changed_paths: Vec<String>) -> (r: ContextRequest)
    ensures
        rescoped(*request, r),
        r.changed_paths == changed_paths,
{
    ContextRequest {
        task: request.task.clone(),
        token_budget: request.token_budget,
        max_fragments: request.max_fragments,
        minimum_fragments_per_focus_path: request.minimum_fragments_per_focus_path,
        strict_focus_paths: request.strict_focus_paths,
        strict_changed_paths: request.strict_changed_paths,
        plan_only: request.plan_only,
        explain_diagnostics: request.explain_diagnostics,
        receipt_id: copy_optional_text(&request.receipt_id),
        include_paths: copy_texts(&request.include_paths),
        must_include_paths: copy_texts(&request.must_include_paths),
        focus_paths: copy_texts(&request.focus_paths),
        exclude_paths: copy_texts(&request.exclude_paths),
        focus_symbols: copy_texts(&request.focus_symbols),
        must_include_symbols: copy_texts(&request.must_include_symbols),
        required_evidence: copy_evidence(&request.required_evidence),
        known_hashes: copy_texts(&request.known_hashes),
        changed_paths,
        base_revision: copy_optional_text(&request.base_revision),
        prior_repository_generation: request.prior_repository_generation,
    }
}

/// A request with the scope that it is answered in.
pub struct PreparedContext {
    pub request: ContextRequest,
    pub scoped_request: ContextRequest,
    pub policy: ContextPolicy,
    pub workflow: ContextWorkflow,
    pub workflow_evidence: WorkflowEvidence,
    pub response_profile: ContextResponseProfile,
    pub diff_evidence_mode: DiffEvidenceMode,
    pub diff_scope: Option<DiffScopeReceipt>,
    pub changed_paths: Vec<String>,
    pub working_tree: WorkingTreeObservation,
    pub working_tree_paths: Vec<String>,
}

/// Whether `prepared` is a request with the scope that it is answered in.
pub open spec fn prepares(
    parsed: ParsedContextRequest,
    git: Option<GitDiffResult>,
    tree: GitWorkingTreeStatus,
    prepared: PreparedContext,
) -> bool {
    &&& prepared.request == parsed.request
    &&& prepared.policy == parsed.policy
    &&& prepared.workflow == parsed.workflow
    &&& prepared.workflow_evidence == parsed.workflow_evidence
    &&& prepared.response_profile == parsed.response_profile
    &&& prepared.diff_evidence_mode == if is_range(parsed.revision) {
        DiffEvidenceMode::ImmutableRange
    } else {
        DiffEvidenceMode::WorkingTree
    }
    &&& prepared.diff_scope is Some <==> has_scope(parsed.request, parsed.revision)
    &&& prepared.diff_scope matches Some(scope) ==> scoped(
        parsed.request,
        parsed.revision,
        git,
        tree,
        scope,
    )
    &&& rescoped(parsed.request, prepared.scoped_request)
    &&& prepared.scoped_request.changed_paths@ == match prepared.diff_scope {
        Some(scope) => scope.changed_paths@,
        None => parsed.request.changed_paths@,
    }
    &&& prepared.working_tree == observed(tree)
    &&& prepared.working_tree_paths@ == tree.changed_paths@
    &&& prepared.changed_paths@ == tree.changed_paths@ + match prepared.diff_scope {
        Some(scope) => scope.changed_paths@,
        None => Seq::empty(),
    }
}

impl Services {
    /// Scopes a request to what changed. `git` is what the version control says of
    /// the request's revisions, and `tree` what the working tree looks like.
    pub fn prepare_context(
        parsed: ParsedContextRequest,
        git: Option<GitDiffResult>,
        tree: &GitWorkingTreeStatus,
        tree_complete: Result<(), Error>,
    ) -> (r: Result<PreparedContext, Error>)
        requires
            git is Some <==> parsed.revision is Some,
        ensures
            reports(
                r,
                scope_fault(parsed.request, parsed.revision, git, *tree, tree_complete),
            ),
            r matches Ok(prepared) ==> prepares(parsed, git, *tree, prepared),
    {
        let diff_scope = match Self::resolve_diff_scope(
            &parsed.request,
            &parsed.revision,
            git,
            tree,
            tree_complete,
        ) {
            Ok(scope) => scope,
            Err(e) => {
                return Err(e);
            },
        };
        let range = match &parsed.revision {
            Some(revision) => revision.is_range(),
            None => false,
        };
        let mut changed_paths = copy_texts(&tree.changed_paths);
        let scope_paths = match &diff_scope {
            Some(scope) => {
                let mut more = copy_texts(&scope.changed_paths);
                changed_paths.append(&mut more);
                copy_texts(&scope.changed_paths)
            },
            None => {
                assert(tree.changed_paths@ =~= tree.changed_paths@ + Seq::<String>::empty());
                copy_texts(&parsed.request.changed_paths)
            },
        };
        let scoped_request = rescope(&parsed.request, scope_paths);
        Ok(
            PreparedContext {
                request: parsed.request,
                scoped_request,
                policy: parsed.policy,
                workflow: parsed.workflow,
                workflow_evidence: parsed.workflow_evidence,
                response_profile: parsed.response_profile,
                diff_evidence_mode: if range {
                    DiffEvidenceMode::ImmutableRange
                } else {
                    DiffEvidenceMode::WorkingTree
                },
                diff_scope,
                changed_paths,
                working_tree: WorkingTreeObservation::from_status(tree),
                working_tree_paths: copy_texts(&tree.changed_paths),
            },
        )
    }
}

impl Services {
    /// Lets a response answer for a state of the repository, settles its counts
    /// and holds it to its ceiling.
    pub fn answer_consistently<
        S: Fn(&ContextResponse, &ResponseMeta, ReceiptResourceDecoration) -> Measurement,
    >(
        response: &mut ContextResponse,
        consistency: IndexConsistency,
        options: ServiceCallOptions,
        measure: &S,
    ) -> (r: Result<(), Error>)
        requires
            settles(*measure),
        ensures
            match r {
                Ok(_) => {
                    &&& resettled(
                        *measure,
                        with_consistency(old(response)@, consistency),
                        final(response)@,
                    )
                    &&& options.max_response_tokens matches Some(max)
                        ==> final(response).meta.total_response_tokens <= max
                },
                Err(e) => {
                    ||| measures(
                        *measure,
                        with_consistency(old(response)@, consistency),
                        ReceiptResourceDecoration::Omit,
                        Err(e),
                    )
                    ||| {
                        &&& resettled(
                            *measure,
                            with_consistency(old(response)@, consistency),
                            final(response)@,
                        )
                        &&& options.max_response_tokens is Some
                        &&& final(response).meta.total_response_tokens
                            > options.max_response_tokens->0
                        &&& e@ == budget_fault(
                            final(response).meta,
                            options.max_response_tokens->0,
                            final(response).meta.total_response_tokens,
                        )
                    }
                },
            },
    {
        set_routing_consistency(response, consistency);
        match Self::finalize_context_response_accounting(response, measure) {
            Ok(_) => {},
            Err(e) => {
                return Err(e);
            },
        }
        if let Some(max) = options.max_response_tokens {
            if response.meta.total_response_tokens > max {
                return Err(
                    exceeded_error(&response.meta, max, response.meta.total_response_tokens),
                );
            }
        }
        Ok(())
    }
}

} // verus!
