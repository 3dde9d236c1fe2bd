//! Requests, responses and receipts.

use crate::text::texts;
use vstd::prelude::*;

verus! {

/// One validation that a host ran.
#[derive(Debug)]
pub struct HandoffValidation {
    pub command: String,
    pub summary: Option<String>,
}

/// What a host adds to a handoff manifest.
#[derive(Debug)]
pub struct HandoffManifestRequest {
    pub summary: Option<String>,
    pub assumptions: Vec<String>,
    pub open_questions: Vec<String>,
    pub negative_evidence: Vec<String>,
    pub avoid_rules: Vec<String>,
    pub validations: Vec<HandoffValidation>,
}

/// A selected fragment, by place and content.
#[derive(Debug)]
pub struct HandoffEvidence {
    pub path: String,
    pub start_line: usize,
    pub end_line: usize,
    pub content_hash: String,
}

/// What a [`HandoffEvidence`] says.
pub struct PlaceView {
    pub path: Seq<char>,
    pub start_line: usize,
    pub end_line: usize,
    pub content_hash: Seq<char>,
}

impl View for HandoffEvidence {
    type V = PlaceView;

    open spec fn view(&self) -> PlaceView {
        PlaceView {
            path: self.path@,
            start_line: self.start_line,
            end_line: self.end_line,
            content_hash: self.content_hash@,
        }
    }
}

/// What a [`HandoffValidation`] says.
pub struct ValidationView {
    pub command: Seq<char>,
    pub summary: Option<Seq<char>>,
}

impl View for HandoffValidation {
    type V = ValidationView;

    open spec fn view(&self) -> ValidationView {
        ValidationView {
            command: self.command@,
            summary: crate::text::optional_text(self.summary),
        }
    }
}

/// What the next worker needs to continue a task.
#[derive(Debug)]
pub struct HandoffManifest {
    pub schema_version: u32,
    pub summary: String,
    pub task_fingerprint: String,
    pub repository_id: String,
    pub repository_generation: u64,
    pub freshness: Freshness,
    pub provenance: Option<RepositoryProvenance>,
    pub commit_revision: Option<String>,
    pub working_tree_state: HandoffWorkingTreeState,
    pub base_revision: Option<String>,
    pub head_revision: Option<String>,
    pub receipt_id: Option<String>,
    pub evidence: Vec<HandoffEvidence>,
    pub held_fragment_hashes: Vec<String>,
    pub focus_paths: Vec<String>,
    pub focus_symbols: Vec<String>,
    pub changed_paths: Vec<String>,
    pub changed_paths_complete: bool,
    pub changed_paths_limit: Option<usize>,
    pub related_paths: Vec<String>,
    pub test_paths: Vec<String>,
    pub validations: Vec<HandoffValidation>,
    pub assumptions: Vec<String>,
    pub open_questions: Vec<String>,
    pub negative_evidence: Vec<String>,
    pub avoid_rules: Vec<String>,
    pub gaps: Vec<String>,
}

/// The state of the working tree that a handoff was made in.
#[derive(Debug, Clone, Copy, PartialEq, Eq, Structural)]
pub enum HandoffWorkingTreeState {
    Unknown,
    Clean,
    Dirty,
}

/// The state of the working tree as provenance reports it.
#[derive(Debug, Clone, Copy, PartialEq, Eq, Structural)]
pub enum RepositoryWorkingTreeState {
    Unknown,
    Clean,
    Modified,
    Untracked,
}

/// Whether an index answers for the current repository.
#[derive(Debug, Clone, Copy, PartialEq, Eq, Structural)]
pub enum Freshness {
    Current,
    Stale,
}

/// Whether provenance is complete.
#[derive(Debug, Clone, Copy, PartialEq, Eq, Structural)]
pub enum RepositoryProvenanceStatus {
    Available,
    Unavailable,
}

/// Where the evidence of a response comes from.
#[derive(Debug)]
pub struct RepositoryProvenance {
    pub commit_revision: Option<String>,
    pub branch: Option<String>,
    pub working_tree_state: RepositoryWorkingTreeState,
    pub working_tree_paths_complete: bool,
    pub working_tree_paths_limit: Option<usize>,
    pub repository_generation: u64,
    pub freshness: Freshness,
    pub status: RepositoryProvenanceStatus,
}

/// A symbol by place and name.
#[derive(Debug)]
pub struct DiffSymbolEvidence {
    pub path: String,
    pub name: String,
    pub kind: String,
    pub start_line: usize,
    pub end_line: usize,
}

/// What a [`DiffSymbolEvidence`] says.
pub struct EvidenceView {
    pub path: Seq<char>,
    pub name: Seq<char>,
    pub kind: Seq<char>,
    pub start_line: usize,
    pub end_line: usize,
}

impl View for DiffSymbolEvidence {
    type V = EvidenceView;

    open spec fn view(&self) -> EvidenceView {
        EvidenceView {
            path: self.path@,
            name: self.name@,
            kind: self.kind@,
            start_line: self.start_line,
            end_line: self.end_line,
        }
    }
}

impl DiffSymbolEvidence {
    /// A copy.
    pub fn duplicate(&self) -> (r: DiffSymbolEvidence)
        ensures
            r == *self,
    {
        DiffSymbolEvidence {
            path: self.path.clone(),
            name: self.name.clone(),
            kind: self.kind.clone(),
            start_line: self.start_line,
            end_line: self.end_line,
        }
    }
}

/// A changed range of lines.
#[derive(Debug)]
pub struct DiffHunkEvidence {
    pub path: String,
    pub start_line: usize,
    pub end_line: usize,
}

/// A path found to be related to a change.
#[derive(Debug)]
pub struct DiffRelatedPath {
    pub changed_path: String,
    pub related_path: String,
    pub signal: String,
}

/// What a [`DiffRelatedPath`] says.
pub struct RelatedView {
    pub changed_path: Seq<char>,
    pub related_path: Seq<char>,
    pub signal: Seq<char>,
}

impl View for DiffRelatedPath {
    type V = RelatedView;

    open spec fn view(&self) -> RelatedView {
        RelatedView {
            changed_path: self.changed_path@,
            related_path: self.related_path@,
            signal: self.signal@,
        }
    }
}

/// Whether a changed path has tests of its own.
#[derive(Debug, Clone, Copy, PartialEq, Eq, Structural)]
pub enum DiffOwnerTestStatus {
    Found,
    Missing,
    Unknown,
}

/// The tests that own a changed path.
#[derive(Debug)]
pub struct DiffOwnerTestCoverage {
    pub changed_path: String,
    pub status: DiffOwnerTestStatus,
    pub paths: Vec<String>,
}

/// What a [`DiffOwnerTestCoverage`] says.
pub struct OwnerTestView {
    pub changed_path: Seq<char>,
    pub status: DiffOwnerTestStatus,
    pub paths: Seq<Seq<char>>,
}

impl View for DiffOwnerTestCoverage {
    type V = OwnerTestView;

    open spec fn view(&self) -> OwnerTestView {
        OwnerTestView {
            changed_path: self.changed_path@,
            status: self.status,
            paths: texts(self.paths@),
        }
    }
}

/// How a symbol changed.
#[derive(Debug, Clone, Copy, PartialEq, Eq, Structural)]
pub enum DiffSymbolChangeKind {
    Added,
    Removed,
    Renamed,
    Modified,
}

/// What of a symbol was modified.
#[derive(Debug, Clone, Copy, PartialEq, Eq, Structural)]
pub enum DiffSymbolModification {
    BodyOnly,
    SignatureChanged,
}

/// One changed symbol.
#[derive(Debug)]
pub struct DiffSymbolChange {
    pub kind: DiffSymbolChangeKind,
    pub before: Option<DiffSymbolEvidence>,
    pub after: Option<DiffSymbolEvidence>,
    pub modification: Option<DiffSymbolModification>,
    pub public_contract_changed: bool,
}

/// What a [`DiffSymbolChange`] says.
pub struct ChangeView {
    pub kind: DiffSymbolChangeKind,
    pub before: Option<EvidenceView>,
    pub after: Option<EvidenceView>,
    pub modification: Option<DiffSymbolModification>,
    pub public_contract_changed: bool,
}

/// What an optional piece of evidence says.
pub open spec fn optional_evidence(value: Option<DiffSymbolEvidence>) -> Option<EvidenceView> {
    match value {
        Some(evidence) => Some(evidence@),
        None => None,
    }
}

impl View for DiffSymbolChange {
    type V = ChangeView;

    open spec fn view(&self) -> ChangeView {
        ChangeView {
            kind: self.kind,
            before: optional_evidence(self.before),
            after: optional_evidence(self.after),
            modification: self.modification,
            public_contract_changed: self.public_contract_changed,
        }
    }
}

/// How a configuration key changed.
#[derive(Debug, Clone, Copy, PartialEq, Eq, Structural)]
pub enum DiffConfigurationChangeKind {
    Added,
    Removed,
    Modified,
}

/// One changed configuration key.
#[derive(Debug)]
pub struct DiffConfigurationChange {
    pub path: String,
    pub key_path: String,
    pub kind: DiffConfigurationChangeKind,
}

/// What a [`DiffConfigurationChange`] says.
pub struct ConfigurationView {
    pub path: Seq<char>,
    pub key_path: Seq<char>,
    pub kind: DiffConfigurationChangeKind,
}

impl View for DiffConfigurationChange {
    type V = ConfigurationView;

    open spec fn view(&self) -> ConfigurationView {
        ConfigurationView { path: self.path@, key_path: self.key_path@, kind: self.kind }
    }
}

/// What changed in meaning between two revisions.
#[derive(Debug)]
pub struct DiffSemanticChangeReceipt {
    pub symbol_changes: Vec<DiffSymbolChange>,
    pub configuration_changes: Vec<DiffConfigurationChange>,
    pub owner_tests: Vec<DiffOwnerTestCoverage>,
    pub gaps: Vec<String>,
}

/// The evidence that a changed scope gives.
#[derive(Debug)]
pub struct DiffEvidenceReceipt {
    pub changed_hunks: Vec<DiffHunkEvidence>,
    pub changed_symbols: Vec<DiffSymbolEvidence>,
    pub related_paths: Vec<DiffRelatedPath>,
    pub semantic_change: Option<DiffSemanticChangeReceipt>,
    pub gaps: Vec<String>,
}

/// The changed paths that a request is scoped to.
#[derive(Debug)]
pub struct DiffScopeReceipt {
    pub base_revision: Option<String>,
    pub head_revision: Option<String>,
    pub changed_paths: Vec<String>,
    pub changed_paths_complete: bool,
    pub changed_paths_limit: Option<usize>,
    pub indexed_changed_paths: usize,
    pub evidence: Option<DiffEvidenceReceipt>,
}

/// Evidence that a request insists on, by path.
#[derive(Debug)]
pub struct RequiredEvidence {
    pub path: String,
    pub queries: Vec<String>,
    pub minimum_query_matches: usize,
}

/// A request for task context.
#[derive(Debug)]
pub struct ContextRequest {
    pub task: String,
    pub token_budget: usize,
    pub max_fragments: Option<usize>,
    pub minimum_fragments_per_focus_path: Option<usize>,
    pub strict_focus_paths: bool,
    pub strict_changed_paths: bool,
    pub plan_only: bool,
    pub explain_diagnostics: bool,
    pub receipt_id: Option<String>,
    pub include_paths: Vec<String>,
    pub must_include_paths: Vec<String>,
    pub focus_paths: Vec<String>,
    pub exclude_paths: Vec<String>,
    pub focus_symbols: Vec<String>,
    pub must_include_symbols: Vec<String>,
    pub required_evidence: Vec<RequiredEvidence>,
    pub known_hashes: Vec<String>,
    pub changed_paths: Vec<String>,
    pub base_revision: Option<String>,
    pub prior_repository_generation: Option<u64>,
}

/// The kind of work that context is gathered for.
#[derive(Debug, Clone, Copy, PartialEq, Eq, Structural)]
pub enum ContextWorkflow {
    Auto,
    Implementation,
    Investigation,
    Review,
    Contribution,
}

/// What a caller observed of compiler, test, runtime or log output.
#[derive(Debug)]
pub struct WorkflowEvidence {
    pub failure_traces: Vec<String>,
    pub symbols: Vec<String>,
    pub paths: Vec<String>,
    pub test_intents: Vec<String>,
}

impl Default for WorkflowEvidence {
    /// Nothing observed.
    fn default() -> (r: WorkflowEvidence)
        ensures
            r.failure_traces@.len() == 0,
            r.symbols@.len() == 0,
            r.paths@.len() == 0,
            r.test_intents@.len() == 0,
    {
        WorkflowEvidence {
            failure_traces: Vec::new(),
            symbols: Vec::new(),
            paths: Vec::new(),
            test_intents: Vec::new(),
        }
    }
}

/// Which state of the repository a retrieval answers for.
#[derive(Debug, Clone, Copy, PartialEq, Eq, Structural)]
pub enum IndexConsistency {
    IndexedGeneration,
    ReconcileWorkingTree,
}

/// How much a context response explains.
#[derive(Debug, Clone, Copy, PartialEq, Eq, Structural)]
pub enum ContextResponseProfile {
    Compact,
    Balanced,
    Explain,
}

/// Metadata that every response carries.
#[derive(Debug)]
pub struct ResponseMeta {
    pub repository_id: String,
    pub repository_generation: u64,
    pub freshness: Freshness,
    pub source_tokens: usize,
    pub protocol_tokens: usize,
    pub path_and_metadata_tokens: usize,
    pub total_response_tokens: usize,
    pub next_cursor: Option<String>,
    pub receipt_id: Option<String>,
    pub receipt_suppressed_exact: usize,
    pub receipt_suppressed_overlap: usize,
    pub receipt_near_duplicates: usize,
}

impl ResponseMeta {
    /// A copy that equals the original in every field.
    pub fn duplicate(&self) -> (r: ResponseMeta)
        ensures
            r == *self,
    {
        ResponseMeta {
            repository_id: self.repository_id.clone(),
            repository_generation: self.repository_generation,
            freshness: self.freshness,
            source_tokens: self.source_tokens,
            protocol_tokens: self.protocol_tokens,
            path_and_metadata_tokens: self.path_and_metadata_tokens,
            total_response_tokens: self.total_response_tokens,
            next_cursor: crate::text::copy_optional_text(&self.next_cursor),
            receipt_id: crate::text::copy_optional_text(&self.receipt_id),
            receipt_suppressed_exact: self.receipt_suppressed_exact,
            receipt_suppressed_overlap: self.receipt_suppressed_overlap,
            receipt_near_duplicates: self.receipt_near_duplicates,
        }
    }
}

/// Changed paths under one directory.
#[derive(Debug)]
pub struct ContextPathGroup {
    pub prefix: String,
    pub changed_paths: usize,
}

/// What a [`ContextPathGroup`] says.
pub struct GroupView {
    pub prefix: Seq<char>,
    pub changed_paths: usize,
}

impl View for ContextPathGroup {
    type V = GroupView;

    open spec fn view(&self) -> GroupView {
        GroupView { prefix: self.prefix@, changed_paths: self.changed_paths }
    }
}

/// A narrower request that a caller may make.
#[derive(Debug)]
pub struct ContextRoutingSuggestion {
    pub include_paths: Vec<String>,
}

impl View for ContextRoutingSuggestion {
    type V = Seq<Seq<char>>;

    open spec fn view(&self) -> Seq<Seq<char>> {
        texts(self.include_paths@)
    }
}

/// How a change that is too wide for one response can be split.
#[derive(Debug)]
pub struct ContextRoutingReceipt {
    pub candidate_paths: usize,
    pub changed_paths: usize,
    pub selected_paths: usize,
    pub weakly_concentrated: bool,
    pub consistency: IndexConsistency,
    pub base_revision: Option<String>,
    pub known_hashes: Vec<String>,
    pub path_groups_total: usize,
    pub path_groups: Vec<ContextPathGroup>,
    pub suggestions: Vec<ContextRoutingSuggestion>,
}

/// What is known of the working tree.
#[derive(Debug)]
pub struct GitWorkingTreeStatus {
    pub available: bool,
    pub changed_paths: Vec<String>,
    pub modified: bool,
    pub untracked: bool,
    pub changed_paths_complete: bool,
    pub changed_paths_limit: Option<usize>,
}

/// The paths that differ between two revisions.
#[derive(Debug)]
pub struct GitDiffResult {
    pub base_revision: String,
    pub head_revision: String,
    pub changed_paths: Vec<String>,
    pub changed_paths_complete: bool,
    pub changed_paths_limit: Option<usize>,
}

/// Which signals of a repository's structure an evaluation uses.
#[derive(Debug, Clone, Copy, PartialEq, Eq, Structural)]
pub enum ContextSignalPolicy {
    LexicalSyntax,
    ImportNeighbor,
    ReverseDependency,
    HighConfidenceCaller,
}

/// What a call is accounted as.
#[derive(Debug, Clone, Copy, PartialEq, Eq, Structural)]
pub enum TokenAccountingOperation {
    Context,
    ContextPlan,
}

} // verus!
