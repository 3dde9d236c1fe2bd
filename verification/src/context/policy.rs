//! What a context request decides before anything is looked for.

use crate::accounting::ServiceCallOptions;
use crate::error::{
    first_fault, reports, violation_views, Error, Fault, InputViolation, ViolationView,
};
use crate::handoff::{parse_request, request_fault, trims};
use crate::model::{
    ContextRequest, ContextSignalPolicy, ContextWorkflow, GitWorkingTreeStatus,
    HandoffManifestRequest, HandoffWorkingTreeState, IndexConsistency, RepositoryWorkingTreeState,
    WorkflowEvidence,
};
use crate::context::plan::no_evidence;
use crate::text::{copy_optional_text, optional_text};
use tokio_util::sync::CancellationToken;
use vstd::prelude::*;

verus! {

/// The signals of a repository's structure that candidates come from.
#[derive(Debug, Clone, Copy, PartialEq, Eq, Structural)]
pub struct ContextSignals {
    pub import_neighbor: bool,
    pub reverse_dependency: bool,
    pub caller: bool,
}

impl ContextSignals {
    /// The signals of ordinary requests.
    pub fn production() -> (r: ContextSignals)
        ensures
            r == (ContextSignals {
                import_neighbor: true,
                reverse_dependency: false,
                caller: true,
            }),
    {
        ContextSignals { import_neighbor: true, reverse_dependency: false, caller: true }
    }

    /// The signals of an evaluation: the one that its policy is about, and no
    /// other.
    pub fn evaluation(policy: ContextSignalPolicy) -> (r: ContextSignals)
        ensures
            r.import_neighbor == (policy is ImportNeighbor),
            r.reverse_dependency == (policy is ReverseDependency),
            r.caller == (policy is HighConfidenceCaller),
    {
        match policy {
            ContextSignalPolicy::LexicalSyntax => ContextSignals {
                import_neighbor: false,
                reverse_dependency: false,
                caller: false,
            },
            ContextSignalPolicy::ImportNeighbor => ContextSignals {
                import_neighbor: true,
                reverse_dependency: false,
                caller: false,
            },
            ContextSignalPolicy::ReverseDependency => ContextSignals {
                import_neighbor: false,
                reverse_dependency: true,
                caller: false,
            },
            ContextSignalPolicy::HighConfidenceCaller => ContextSignals {
                import_neighbor: false,
                reverse_dependency: false,
                caller: true,
            },
        }
    }
}

/// What was seen of the working tree.
#[derive(Debug, Clone, Copy, PartialEq, Eq, Structural)]
pub enum WorkingTreeObservation {
    Unknown,
    Clean,
    Modified,
    Untracked,
    ModifiedAndUntracked,
    DirtyUnclassified,
}

/// What a status of the working tree shows.
pub open spec fn observed(status: GitWorkingTreeStatus) -> WorkingTreeObservation {
    if !status.available {
        WorkingTreeObservation::Unknown
    } else if status.changed_paths@.len() == 0 {
        WorkingTreeObservation::Clean
    } else if status.modified && status.untracked {
        WorkingTreeObservation::ModifiedAndUntracked
    } else if status.modified {
        WorkingTreeObservation::Modified
    } else if status.untracked {
        WorkingTreeObservation::Untracked
    } else {
        WorkingTreeObservation::DirtyUnclassified
    }
}

impl WorkingTreeObservation {
    /// What a status of the working tree shows.
    pub fn from_status(status: &GitWorkingTreeStatus) -> (r: WorkingTreeObservation)
        ensures
            r == observed(*status),
    {
        if !status.available {
            return WorkingTreeObservation::Unknown;
        }
        if status.changed_paths.len() == 0 {
            return WorkingTreeObservation::Clean;
        }
        match (status.modified, status.untracked) {
            (true, true) => WorkingTreeObservation::ModifiedAndUntracked,
            (true, false) => WorkingTreeObservation::Modified,
            (false, true) => WorkingTreeObservation::Untracked,
            (false, false) => WorkingTreeObservation::DirtyUnclassified,
        }
    }

    /// The state as a handoff names it.
    pub open spec fn handed(self) -> HandoffWorkingTreeState {
        match self {
            WorkingTreeObservation::Unknown => HandoffWorkingTreeState::Unknown,
            WorkingTreeObservation::Clean => HandoffWorkingTreeState::Clean,
            _ => HandoffWorkingTreeState::Dirty,
        }
    }

    /// The state as a handoff names it.
    pub fn handoff_state(self) -> (r: HandoffWorkingTreeState)
        ensures
            r == self.handed(),
    {
        match self {
            WorkingTreeObservation::Unknown => HandoffWorkingTreeState::Unknown,
            WorkingTreeObservation::Clean => HandoffWorkingTreeState::Clean,
            WorkingTreeObservation::Modified | WorkingTreeObservation::Untracked
            | WorkingTreeObservation::ModifiedAndUntracked
            | WorkingTreeObservation::DirtyUnclassified => HandoffWorkingTreeState::Dirty,
        }
    }

    /// The state as provenance names it.
    pub open spec fn proven(self) -> RepositoryWorkingTreeState {
        match self {
            WorkingTreeObservation::Unknown => RepositoryWorkingTreeState::Unknown,
            WorkingTreeObservation::Modified
            | WorkingTreeObservation::ModifiedAndUntracked => RepositoryWorkingTreeState::Modified,
            WorkingTreeObservation::Untracked => RepositoryWorkingTreeState::Untracked,
            WorkingTreeObservation::Clean
            | WorkingTreeObservation::DirtyUnclassified => RepositoryWorkingTreeState::Clean,
        }
    }

    /// The state as provenance names it.
    pub fn provenance_state(self) -> (r: RepositoryWorkingTreeState)
        ensures
            r == self.proven(),
    {
        match self {
            WorkingTreeObservation::Unknown => RepositoryWorkingTreeState::Unknown,
            WorkingTreeObservation::Modified
            | WorkingTreeObservation::ModifiedAndUntracked => RepositoryWorkingTreeState::Modified,
            WorkingTreeObservation::Untracked => RepositoryWorkingTreeState::Untracked,
            WorkingTreeObservation::Clean
            | WorkingTreeObservation::DirtyUnclassified => RepositoryWorkingTreeState::Clean,
        }
    }

    /// Whether the working tree could be seen.
    pub fn is_available(self) -> (r: bool)
        ensures
            r == !(self is Unknown),
    {
        match self {
            WorkingTreeObservation::Unknown => false,
            _ => true,
        }
    }
}

/// How far the focus paths bind the selection.
#[derive(Debug, Clone, Copy, PartialEq, Eq, Structural)]
pub struct ContextFocusPolicy {
    pub strict: bool,
    pub minimum: Option<usize>,
}

/// How far the focus paths of a request bind the selection.
pub open spec fn focus_policy(request: ContextRequest) -> ContextFocusPolicy {
    ContextFocusPolicy {
        strict: request.strict_focus_paths,
        minimum: request.minimum_fragments_per_focus_path,
    }
}

impl ContextFocusPolicy {
    /// How far the focus paths of a request bind the selection.
    pub fn parse(request: &ContextRequest) -> (r: ContextFocusPolicy)
        ensures
            r == focus_policy(*request),
    {
        ContextFocusPolicy {
            strict: request.strict_focus_paths,
            minimum: request.minimum_fragments_per_focus_path,
        }
    }
}

/// What a response delivers.
#[derive(Debug)]
pub enum ContextDelivery {
    Plan,
    Fragments { receipt_id: Option<String>, handoff: Option<HandoffManifestRequest> },
}

/// What a request decides before anything is looked for.
#[derive(Debug)]
pub struct ContextPolicy {
    pub delivery: ContextDelivery,
    pub focus: ContextFocusPolicy,
}

/// A violation, where something holds.
pub open spec fn violation_if(held: bool, field: Seq<char>, reason: Seq<char>) -> Seq<
    ViolationView,
> {
    if held {
        seq![ViolationView { field, reason }]
    } else {
        Seq::empty()
    }
}

/// The options of a request that do not go together.
pub open spec fn option_violations(request: ContextRequest, handoff: bool) -> Seq<ViolationView> {
    violation_if(
        (request.strict_focus_paths || request.minimum_fragments_per_focus_path is Some)
            && request.focus_paths@.len() == 0,
        "focus paths"@,
        "must not be empty when focus path constraints are enabled"@,
    ) + violation_if(
        request.plan_only && request.receipt_id is Some,
        "receipt_id"@,
        "must be omitted when plan_only is true"@,
    ) + violation_if(
        request.plan_only && handoff,
        "plan_only"@,
        "cannot be combined with a handoff manifest"@,
    )
}

/// The fault of options that do not go together: one as itself, several as a
/// list.
pub open spec fn options_fault(request: ContextRequest, handoff: bool) -> Option<Fault> {
    let violations = option_violations(request, handoff);
    if violations.len() == 0 {
        None
    } else if violations.len() == 1 {
        Some(Fault::InvalidInput { field: violations[0].field, reason: violations[0].reason })
    } else {
        Some(Fault::InvalidInputConstraints { violations })
    }
}

fn push_violation(
    violations: &mut Vec<InputViolation>,
    held: bool,
    field: &'static str,
    reason: &'static str,
)
    ensures
        violation_views(final(violations)@) == violation_views(old(violations)@) + violation_if(
            held,
            field@,
            reason@,
        ),
{
    let ghost start = violation_views(violations@);
    if held {
        violations.push(InputViolation { field, reason });
    }
    assert(violation_views(violations@) =~= start + violation_if(held, field@, reason@));
}

/// Refuses options that do not go together.
pub fn validate_context_option_constraints(request: &ContextRequest, handoff: bool) -> (r: Result<
    (),
    Error,
>)
    ensures
        reports(r, options_fault(*request, handoff)),
{
    let mut violations: Vec<InputViolation> = Vec::new();
    assert(violation_views(violations@) =~= Seq::<ViolationView>::empty());
    push_violation(
        &mut violations,
        (request.strict_focus_paths || request.minimum_fragments_per_focus_path.is_some())
            && request.focus_paths.len() == 0,
        "focus paths",
        "must not be empty when focus path constraints are enabled",
    );
    push_violation(
        &mut violations,
        request.plan_only && request.receipt_id.is_some(),
        "receipt_id",
        "must be omitted when plan_only is true",
    );
    push_violation(
        &mut violations,
        request.plan_only && handoff,
        "plan_only",
        "cannot be combined with a handoff manifest",
    );
    let ghost all = violation_views(violations@);
    assert(all =~= option_violations(*request, handoff));
    assert(all.len() == violations@.len());
    if violations.len() == 0 {
        return Ok(());
    }
    if violations.len() == 1 {
        assert(all[0] == violations@[0]@);
        return Err(
            Error::InvalidInput { field: violations[0].field, reason: violations[0].reason },
        );
    }
    Err(Error::InvalidInputConstraints { violations })
}

/// The fault of a handoff request, where there is one.
pub open spec fn handoff_fault(handoff: Option<HandoffManifestRequest>) -> Option<Fault> {
    match handoff {
        Some(request) => request_fault(request),
        None => None,
    }
}

/// Whether `out` is what a policy keeps of a handoff request.
pub open spec fn keeps_handoff(
    handoff: Option<HandoffManifestRequest>,
    out: Option<HandoffManifestRequest>,
) -> bool {
    match (handoff, out) {
        (Some(request), Some(kept)) => trims(request, kept),
        (None, None) => true,
        _ => false,
    }
}

/// Whether a policy is that of a request.
pub open spec fn policy_of(
    request: ContextRequest,
    handoff: Option<HandoffManifestRequest>,
    policy: ContextPolicy,
) -> bool {
    &&& policy.focus == focus_policy(request)
    &&& match policy.delivery {
        ContextDelivery::Plan => request.plan_only,
        ContextDelivery::Fragments {
            receipt_id,
            handoff: kept,
        } => !request.plan_only && receipt_id == request.receipt_id && keeps_handoff(
            handoff,
            kept,
        ),
    }
}

impl ContextPolicy {
    /// What a request decides, where its options go together.
    pub fn parse(request: &ContextRequest, handoff: Option<HandoffManifestRequest>) -> (r: Result<
        ContextPolicy,
        Error,
    >)
        ensures
            reports(
                r,
                first_fault(options_fault(*request, handoff is Some), handoff_fault(handoff)),
            ),
            r matches Ok(policy) ==> policy_of(*request, handoff, policy),
    {
        match validate_context_option_constraints(request, handoff.is_some()) {
            Ok(_) => {},
            Err(e) => {
                return Err(e);
            },
        }
        let handoff = match handoff {
            Some(given) => match parse_request(given) {
                Ok(parsed) => Some(parsed),
                Err(e) => {
                    return Err(e);
                },
            },
            None => None,
        };
        let delivery = if request.plan_only {
            ContextDelivery::Plan
        } else {
            ContextDelivery::Fragments {
                receipt_id: copy_optional_text(&request.receipt_id),
                handoff,
            }
        };
        Ok(ContextPolicy { delivery, focus: ContextFocusPolicy::parse(request) })
    }

    /// Whether only a plan is delivered.
    pub fn is_plan(&self) -> (r: bool)
        ensures
            r == (self.delivery is Plan),
    {
        match &self.delivery {
            ContextDelivery::Plan => true,
            _ => false,
        }
    }

    /// How far the focus paths bind the selection.
    pub fn focus(&self) -> (r: ContextFocusPolicy)
        ensures
            r == self.focus,
    {
        self.focus
    }

    /// The fewest fragments of each focus path.
    pub fn focus_minimum(&self) -> (r: Option<usize>)
        ensures
            r == self.focus.minimum,
    {
        self.focus.minimum
    }

    /// The receipt that a response goes on from.
    pub open spec fn receipt(self) -> Option<Seq<char>> {
        match self.delivery {
            ContextDelivery::Plan => None,
            ContextDelivery::Fragments { receipt_id, .. } => optional_text(receipt_id),
        }
    }

    /// The receipt that a response goes on from.
    pub fn receipt_id(&self) -> (r: Option<String>)
        ensures
            optional_text(r) == self.receipt(),
    {
        match &self.delivery {
            ContextDelivery::Plan => None,
            ContextDelivery::Fragments { receipt_id, .. } => copy_optional_text(receipt_id),
        }
    }

    /// The handoff that a response carries.
    pub open spec fn handed(self) -> Option<HandoffManifestRequest> {
        match self.delivery {
            ContextDelivery::Plan => None,
            ContextDelivery::Fragments { handoff, .. } => handoff,
        }
    }

    /// The handoff that a response carries.
    pub fn handoff(&self) -> (r: Option<&HandoffManifestRequest>)
        ensures
            match r {
                Some(handoff) => self.handed() == Some(*handoff),
                None => self.handed() is None,
            },
    {
        match &self.delivery {
            ContextDelivery::Plan => None,
            ContextDelivery::Fragments { handoff, .. } => match handoff {
                Some(request) => Some(request),
                None => None,
            },
        }
    }
}

/// What a context call adds to its request.
#[derive(Debug)]
pub struct ContextExecution {
    pub handoff: Option<HandoffManifestRequest>,
    pub workflow: ContextWorkflow,
    pub workflow_evidence: WorkflowEvidence,
}

impl ContextExecution {
    /// A call with a workflow and nothing else.
    pub fn new(workflow: ContextWorkflow) -> (r: ContextExecution)
        ensures
            r.handoff is None,
            r.workflow == workflow,
            no_evidence(r.workflow_evidence),
    {
        ContextExecution {
            handoff: None,
            workflow,
            workflow_evidence: WorkflowEvidence::default(),
        }
    }

    /// A call that asks for a handoff.
    pub fn with_handoff(self, handoff: HandoffManifestRequest) -> (r: ContextExecution)
        ensures
            r == (ContextExecution { handoff: Some(handoff), ..self }),
    {
        ContextExecution {
            handoff: Some(handoff),
            workflow: self.workflow,
            workflow_evidence: self.workflow_evidence,
        }
    }

    /// A call with what a caller observed.
    pub fn with_workflow_evidence(self, workflow_evidence: WorkflowEvidence) -> (r:
        ContextExecution)
        ensures
            r == (ContextExecution { workflow_evidence, ..self }),
    {
        ContextExecution { handoff: self.handoff, workflow: self.workflow, workflow_evidence }
    }
}

/// A workflow-aware context request and its retrieval boundary: the complete
/// command of adapters that give both observed evidence and an explicit policy
/// of index consistency.
pub struct ContextWorkflowOptions {
    /// The task that drives the search for candidates.
    pub request: ContextRequest,
    /// The handoff manifest that a host asks for.
    pub handoff: Option<HandoffManifestRequest>,
    /// The workflow that is asked for, or found by itself.
    pub workflow: ContextWorkflow,
    /// What a caller observed of compiler, test, runtime or log output.
    pub workflow_evidence: WorkflowEvidence,
    /// The state of the repository that the retrieval answers for.
    pub consistency: IndexConsistency,
    /// The controls of the serialized response.
    pub options: ServiceCallOptions,
    /// What the retrieval is stopped by.
    pub cancellation: CancellationToken,
}

} // verus!
