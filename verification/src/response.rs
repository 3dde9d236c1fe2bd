//! The answer to a context request, and its parts.

use crate::fitting::Metered;
use crate::model::{
    ContextPathGroup, ContextResponseProfile, ContextRoutingReceipt, ContextRoutingSuggestion,
    ContextWorkflow, DiffConfigurationChange, DiffEvidenceReceipt, DiffHunkEvidence,
    DiffOwnerTestCoverage, DiffRelatedPath, DiffScopeReceipt, DiffSemanticChangeReceipt,
    DiffSymbolChange, DiffSymbolEvidence, Freshness, HandoffEvidence, HandoffManifest,
    HandoffValidation, HandoffWorkingTreeState, IndexConsistency, OwnerTestView,
    RepositoryProvenance, ResponseMeta,
};
use crate::ordered::views;
use crate::text::{copy_optional_text, copy_texts, optional_text, texts};
use vstd::prelude::*;

verus! {

/// What an optional value says.
pub open spec fn optional_view<T: View>(value: Option<T>) -> Option<T::V> {
    match value {
        Some(inner) => Some(inner@),
        None => None,
    }
}

impl RepositoryProvenance {
    /// A copy.
    pub fn duplicate(&self) -> (r: RepositoryProvenance)
        ensures
            r == *self,
    {
        RepositoryProvenance {
            commit_revision: copy_optional_text(&self.commit_revision),
            branch: copy_optional_text(&self.branch),
            working_tree_state: self.working_tree_state,
            working_tree_paths_complete: self.working_tree_paths_complete,
            working_tree_paths_limit: self.working_tree_paths_limit,
            repository_generation: self.repository_generation,
            freshness: self.freshness,
            status: self.status,
        }
    }
}

impl DiffHunkEvidence {
    /// A copy.
    pub fn duplicate(&self) -> (r: DiffHunkEvidence)
        ensures
            r == *self,
    {
        DiffHunkEvidence {
            path: self.path.clone(),
            start_line: self.start_line,
            end_line: self.end_line,
        }
    }
}

impl DiffRelatedPath {
    /// A copy.
    pub fn duplicate(&self) -> (r: DiffRelatedPath)
        ensures
            r == *self,
    {
        DiffRelatedPath {
            changed_path: self.changed_path.clone(),
            related_path: self.related_path.clone(),
            signal: self.signal.clone(),
        }
    }
}

impl DiffSymbolChange {
    /// A copy.
    pub fn duplicate(&self) -> (r: DiffSymbolChange)
        ensures
            r == *self,
    {
        DiffSymbolChange {
            kind: self.kind,
            before: match &self.before {
                Some(value) => Some(value.duplicate()),
                None => None,
            },
            after: match &self.after {
                Some(value) => Some(value.duplicate()),
                None => None,
            },
            modification: self.modification,
            public_contract_changed: self.public_contract_changed,
        }
    }
}

impl DiffConfigurationChange {
    /// A copy.
    pub fn duplicate(&self) -> (r: DiffConfigurationChange)
        ensures
            r == *self,
    {
        DiffConfigurationChange {
            path: self.path.clone(),
            key_path: self.key_path.clone(),
            kind: self.kind,
        }
    }
}

impl DiffOwnerTestCoverage {
    /// A copy.
    pub fn duplicate(&self) -> (r: DiffOwnerTestCoverage)
        ensures
            r@ == self@,
    {
        DiffOwnerTestCoverage {
            changed_path: self.changed_path.clone(),
            status: self.status,
            paths: copy_texts(&self.paths),
        }
    }
}

/// What a [`DiffSemanticChangeReceipt`] says.
pub struct SemanticView {
    pub symbol_changes: Seq<DiffSymbolChange>,
    pub configuration_changes: Seq<DiffConfigurationChange>,
    pub owner_tests: Seq<OwnerTestView>,
    pub gaps: Seq<Seq<char>>,
}

impl View for DiffSemanticChangeReceipt {
    type V = SemanticView;

    open spec fn view(&self) -> SemanticView {
        SemanticView {
            symbol_changes: self.symbol_changes@,
            configuration_changes: self.configuration_changes@,
            owner_tests: views(self.owner_tests@),
            gaps: texts(self.gaps@),
        }
    }
}

impl DiffSemanticChangeReceipt {
    /// A copy.
    pub fn duplicate(&self) -> (r: DiffSemanticChangeReceipt)
        ensures
            r@ == self@,
    {
        DiffSemanticChangeReceipt {
            symbol_changes: copy_diff_symbol_changes(&self.symbol_changes),
            configuration_changes: copy_diff_configuration_changes(&self.configuration_changes),
            owner_tests: copy_diff_owner_test_coverages(&self.owner_tests),
            gaps: copy_texts(&self.gaps),
        }
    }
}

/// What a [`DiffEvidenceReceipt`] says.
pub struct DiffEvidenceView {
    pub changed_hunks: Seq<DiffHunkEvidence>,
    pub changed_symbols: Seq<DiffSymbolEvidence>,
    pub related_paths: Seq<DiffRelatedPath>,
    pub semantic_change: Option<SemanticView>,
    pub gaps: Seq<Seq<char>>,
}

impl View for DiffEvidenceReceipt {
    type V = DiffEvidenceView;

    open spec fn view(&self) -> DiffEvidenceView {
        DiffEvidenceView {
            changed_hunks: self.changed_hunks@,
            changed_symbols: self.changed_symbols@,
            related_paths: self.related_paths@,
            semantic_change: optional_view(self.semantic_change),
            gaps: texts(self.gaps@),
        }
    }
}

impl DiffEvidenceReceipt {
    /// A copy.
    pub fn duplicate(&self) -> (r: DiffEvidenceReceipt)
        ensures
            r@ == self@,
    {
        DiffEvidenceReceipt {
            changed_hunks: copy_diff_hunk_evidences(&self.changed_hunks),
            changed_symbols: copy_diff_symbol_evidences(&self.changed_symbols),
            related_paths: copy_diff_related_paths(&self.related_paths),
            semantic_change: match &self.semantic_change {
                Some(value) => Some(value.duplicate()),
                None => None,
            },
            gaps: copy_texts(&self.gaps),
        }
    }
}

/// What a [`DiffScopeReceipt`] says.
pub struct ScopeView {
    pub base_revision: Option<Seq<char>>,
    pub head_revision: Option<Seq<char>>,
    pub changed_paths: Seq<Seq<char>>,
    pub changed_paths_complete: bool,
    pub changed_paths_limit: Option<usize>,
    pub indexed_changed_paths: usize,
    pub evidence: Option<DiffEvidenceView>,
}

impl View for DiffScopeReceipt {
    type V = ScopeView;

    open spec fn view(&self) -> ScopeView {
        ScopeView {
            base_revision: optional_text(self.base_revision),
            head_revision: optional_text(self.head_revision),
            changed_paths: texts(self.changed_paths@),
            changed_paths_complete: self.changed_paths_complete,
            changed_paths_limit: self.changed_paths_limit,
            indexed_changed_paths: self.indexed_changed_paths,
            evidence: optional_view(self.evidence),
        }
    }
}

impl DiffScopeReceipt {
    /// A copy.
    pub fn duplicate(&self) -> (r: DiffScopeReceipt)
        ensures
            r@ == self@,
    {
        DiffScopeReceipt {
            base_revision: copy_optional_text(&self.base_revision),
            head_revision: copy_optional_text(&self.head_revision),
            changed_paths: copy_texts(&self.changed_paths),
            changed_paths_complete: self.changed_paths_complete,
            changed_paths_limit: self.changed_paths_limit,
            indexed_changed_paths: self.indexed_changed_paths,
            evidence: match &self.evidence {
                Some(value) => Some(value.duplicate()),
                None => None,
            },
        }
    }
}

impl HandoffEvidence {
    /// A copy.
    pub fn duplicate(&self) -> (r: HandoffEvidence)
        ensures
            r == *self,
    {
        HandoffEvidence {
            path: self.path.clone(),
            start_line: self.start_line,
            end_line: self.end_line,
            content_hash: self.content_hash.clone(),
        }
    }
}

impl HandoffValidation {
    /// A copy.
    pub fn duplicate(&self) -> (r: HandoffValidation)
        ensures
            r == *self,
    {
        HandoffValidation {
            command: self.command.clone(),
            summary: copy_optional_text(&self.summary),
        }
    }
}

/// What a [`HandoffManifest`] says.
pub struct ManifestView {
    pub schema_version: u32,
    pub summary: Seq<char>,
    pub task_fingerprint: Seq<char>,
    pub repository_id: Seq<char>,
    pub repository_generation: u64,
    pub freshness: Freshness,
    pub provenance: Option<RepositoryProvenance>,
    pub commit_revision: Option<Seq<char>>,
    pub working_tree_state: HandoffWorkingTreeState,
    pub base_revision: Option<Seq<char>>,
    pub head_revision: Option<Seq<char>>,
    pub receipt_id: Option<Seq<char>>,
    pub evidence: Seq<HandoffEvidence>,
    pub held_fragment_hashes: Seq<Seq<char>>,
    pub focus_paths: Seq<Seq<char>>,
    pub focus_symbols: Seq<Seq<char>>,
    pub changed_paths: Seq<Seq<char>>,
    pub changed_paths_complete: bool,
    pub changed_paths_limit: Option<usize>,
    pub related_paths: Seq<Seq<char>>,
    pub test_paths: Seq<Seq<char>>,
    pub validations: Seq<HandoffValidation>,
    pub assumptions: Seq<Seq<char>>,
    pub open_questions: Seq<Seq<char>>,
    pub negative_evidence: Seq<Seq<char>>,
    pub avoid_rules: Seq<Seq<char>>,
    pub gaps: Seq<Seq<char>>,
}

impl View for HandoffManifest {
    type V = ManifestView;

    open spec fn view(&self) -> ManifestView {
        ManifestView {
            schema_version: self.schema_version,
            summary: self.summary@,
            task_fingerprint: self.task_fingerprint@,
            repository_id: self.repository_id@,
            repository_generation: self.repository_generation,
            freshness: self.freshness,
            provenance: self.provenance,
            commit_revision: optional_text(self.commit_revision),
            working_tree_state: self.working_tree_state,
            base_revision: optional_text(self.base_revision),
            head_revision: optional_text(self.head_revision),
            receipt_id: optional_text(self.receipt_id),
            evidence: self.evidence@,
            held_fragment_hashes: texts(self.held_fragment_hashes@),
            focus_paths: texts(self.focus_paths@),
            focus_symbols: texts(self.focus_symbols@),
            changed_paths: texts(self.changed_paths@),
            changed_paths_complete: self.changed_paths_complete,
            changed_paths_limit: self.changed_paths_limit,
            related_paths: texts(self.related_paths@),
            test_paths: texts(self.test_paths@),
            validations: self.validations@,
            assumptions: texts(self.assumptions@),
            open_questions: texts(self.open_questions@),
            negative_evidence: texts(self.negative_evidence@),
            avoid_rules: texts(self.avoid_rules@),
            gaps: texts(self.gaps@),
        }
    }
}

impl HandoffManifest {
    /// A copy.
    pub fn duplicate(&self) -> (r: HandoffManifest)
        ensures
            r@ == self@,
    {
        HandoffManifest {
            schema_version: self.schema_version,
            summary: self.summary.clone(),
            task_fingerprint: self.task_fingerprint.clone(),
            repository_id: self.repository_id.clone(),
            repository_generation: self.repository_generation,
            freshness: self.freshness,
            provenance: match &self.provenance {
                Some(value) => Some(value.duplicate()),
                None => None,
            },
            commit_revision: copy_optional_text(&self.commit_revision),
            working_tree_state: self.working_tree_state,
            base_revision: copy_optional_text(&self.base_revision),
            head_revision: copy_optional_text(&self.head_revision),
            receipt_id: copy_optional_text(&self.receipt_id),
            evidence: copy_handoff_evidences(&self.evidence),
            held_fragment_hashes: copy_texts(&self.held_fragment_hashes),
            focus_paths: copy_texts(&self.focus_paths),
            focus_symbols: copy_texts(&self.focus_symbols),
            changed_paths: copy_texts(&self.changed_paths),
            changed_paths_complete: self.changed_paths_complete,
            changed_paths_limit: self.changed_paths_limit,
            related_paths: copy_texts(&self.related_paths),
            test_paths: copy_texts(&self.test_paths),
            validations: copy_handoff_validations(&self.validations),
            assumptions: copy_texts(&self.assumptions),
            open_questions: copy_texts(&self.open_questions),
            negative_evidence: copy_texts(&self.negative_evidence),
            avoid_rules: copy_texts(&self.avoid_rules),
            gaps: copy_texts(&self.gaps),
        }
    }
}

impl ContextPathGroup {
    /// A copy.
    pub fn duplicate(&self) -> (r: ContextPathGroup)
        ensures
            r == *self,
    {
        ContextPathGroup {
            prefix: self.prefix.clone(),
            changed_paths: self.changed_paths,
        }
    }
}

impl ContextRoutingSuggestion {
    /// A copy.
    pub fn duplicate(&self) -> (r: ContextRoutingSuggestion)
        ensures
            r@ == self@,
    {
        ContextRoutingSuggestion {
            include_paths: copy_texts(&self.include_paths),
        }
    }
}

/// What a [`ContextRoutingReceipt`] says.
pub struct RoutingView {
    pub candidate_paths: usize,
    pub changed_paths: usize,
    pub selected_paths: usize,
    pub weakly_concentrated: bool,
    pub consistency: IndexConsistency,
    pub base_revision: Option<Seq<char>>,
    pub known_hashes: Seq<Seq<char>>,
    pub path_groups_total: usize,
    pub path_groups: Seq<ContextPathGroup>,
    pub suggestions: Seq<Seq<Seq<char>>>,
}

impl View for ContextRoutingReceipt {
    type V = RoutingView;

    open spec fn view(&self) -> RoutingView {
        RoutingView {
            candidate_paths: self.candidate_paths,
            changed_paths: self.changed_paths,
            selected_paths: self.selected_paths,
            weakly_concentrated: self.weakly_concentrated,
            consistency: self.consistency,
            base_revision: optional_text(self.base_revision),
            known_hashes: texts(self.known_hashes@),
            path_groups_total: self.path_groups_total,
            path_groups: self.path_groups@,
            suggestions: views(self.suggestions@),
        }
    }
}

impl ContextRoutingReceipt {
    /// A copy.
    pub fn duplicate(&self) -> (r: ContextRoutingReceipt)
        ensures
            r@ == self@,
    {
        ContextRoutingReceipt {
            candidate_paths: self.candidate_paths,
            changed_paths: self.changed_paths,
            selected_paths: self.selected_paths,
            weakly_concentrated: self.weakly_concentrated,
            consistency: self.consistency,
            base_revision: copy_optional_text(&self.base_revision),
            known_hashes: copy_texts(&self.known_hashes),
            path_groups_total: self.path_groups_total,
            path_groups: copy_context_path_groups(&self.path_groups),
            suggestions: copy_context_routing_suggestions(&self.suggestions),
        }
    }
}

// Fragments, plans and what was left out.

/// A selected piece of source. The score is in millionths.
#[derive(Debug)]
pub struct ContextFragment {
    pub path: String,
    pub start_line: usize,
    pub end_line: usize,
    pub target_start_line: Option<usize>,
    pub target_end_line: Option<usize>,
    pub truncated: bool,
    pub representation: String,
    pub content: String,
    pub content_hash: String,
    pub score: i64,
    pub reason: String,
    pub token_count: usize,
}

impl ContextFragment {
    /// A copy.
    pub fn duplicate(&self) -> (r: ContextFragment)
        ensures
            r == *self,
    {
        ContextFragment {
            path: self.path.clone(),
            start_line: self.start_line,
            end_line: self.end_line,
            target_start_line: self.target_start_line,
            target_end_line: self.target_end_line,
            truncated: self.truncated,
            representation: self.representation.clone(),
            content: self.content.clone(),
            content_hash: self.content_hash.clone(),
            score: self.score,
            reason: self.reason.clone(),
            token_count: self.token_count,
        }
    }
}

/// A candidate that a plan would select.
#[derive(Debug)]
pub struct ContextPlanCandidate {
    pub path: String,
    pub start_line: usize,
    pub end_line: usize,
    pub estimated_tokens: usize,
    pub reasons: Vec<String>,
}

/// What a [`ContextPlanCandidate`] says.
pub struct PlanCandidateView {
    pub path: Seq<char>,
    pub start_line: usize,
    pub end_line: usize,
    pub estimated_tokens: usize,
    pub reasons: Seq<Seq<char>>,
}

impl View for ContextPlanCandidate {
    type V = PlanCandidateView;

    open spec fn view(&self) -> PlanCandidateView {
        PlanCandidateView {
            path: self.path@,
            start_line: self.start_line,
            end_line: self.end_line,
            estimated_tokens: self.estimated_tokens,
            reasons: texts(self.reasons@),
        }
    }
}

impl ContextPlanCandidate {
    /// A copy.
    pub fn duplicate(&self) -> (r: ContextPlanCandidate)
        ensures
            r@ == self@,
    {
        ContextPlanCandidate {
            path: self.path.clone(),
            start_line: self.start_line,
            end_line: self.end_line,
            estimated_tokens: self.estimated_tokens,
            reasons: copy_texts(&self.reasons),
        }
    }
}

/// What a request would select.
#[derive(Debug)]
pub struct ContextPlan {
    pub candidates: Vec<ContextPlanCandidate>,
    pub estimated_source_tokens: usize,
    pub result_complete: bool,
}

/// What a [`ContextPlan`] says.
pub struct PlanView {
    pub candidates: Seq<PlanCandidateView>,
    pub estimated_source_tokens: usize,
    pub result_complete: bool,
}

impl View for ContextPlan {
    type V = PlanView;

    open spec fn view(&self) -> PlanView {
        PlanView {
            candidates: views(self.candidates@),
            estimated_source_tokens: self.estimated_source_tokens,
            result_complete: self.result_complete,
        }
    }
}

impl ContextPlan {
    /// A copy.
    pub fn duplicate(&self) -> (r: ContextPlan)
        ensures
            r@ == self@,
    {
        ContextPlan {
            candidates: copy_context_plan_candidates(&self.candidates),
            estimated_source_tokens: self.estimated_source_tokens,
            result_complete: self.result_complete,
        }
    }
}

/// A candidate that was left out.
#[derive(Debug)]
pub struct ContextOmission {
    pub path: String,
    pub reason: String,
}

impl ContextOmission {
    /// A copy.
    pub fn duplicate(&self) -> (r: ContextOmission)
        ensures
            r == *self,
    {
        ContextOmission {
            path: self.path.clone(),
            reason: self.reason.clone(),
        }
    }
}

/// Candidates that were left out alike.
#[derive(Debug)]
pub struct ContextOmissionGroup {
    pub key: String,
    pub count: usize,
}

impl ContextOmissionGroup {
    /// A copy.
    pub fn duplicate(&self) -> (r: ContextOmissionGroup)
        ensures
            r == *self,
    {
        ContextOmissionGroup {
            key: self.key.clone(),
            count: self.count,
        }
    }
}

/// How much was left out, and why.
#[derive(Debug)]
pub struct ContextOmissionSummary {
    pub path_excluded: usize,
    pub known_hash: usize,
    pub budget_or_result_limit: usize,
    pub by_path: Vec<ContextOmissionGroup>,
    pub by_language_or_file_type: Vec<ContextOmissionGroup>,
    pub by_reason: Vec<ContextOmissionGroup>,
    pub by_score_band: Vec<ContextOmissionGroup>,
}

/// What a [`ContextOmissionSummary`] says.
pub struct OmissionView {
    pub path_excluded: usize,
    pub known_hash: usize,
    pub budget_or_result_limit: usize,
    pub by_path: Seq<ContextOmissionGroup>,
    pub by_language_or_file_type: Seq<ContextOmissionGroup>,
    pub by_reason: Seq<ContextOmissionGroup>,
    pub by_score_band: Seq<ContextOmissionGroup>,
}

impl View for ContextOmissionSummary {
    type V = OmissionView;

    open spec fn view(&self) -> OmissionView {
        OmissionView {
            path_excluded: self.path_excluded,
            known_hash: self.known_hash,
            budget_or_result_limit: self.budget_or_result_limit,
            by_path: self.by_path@,
            by_language_or_file_type: self.by_language_or_file_type@,
            by_reason: self.by_reason@,
            by_score_band: self.by_score_band@,
        }
    }
}

impl ContextOmissionSummary {
    /// A copy.
    pub fn duplicate(&self) -> (r: ContextOmissionSummary)
        ensures
            r@ == self@,
    {
        ContextOmissionSummary {
            path_excluded: self.path_excluded,
            known_hash: self.known_hash,
            budget_or_result_limit: self.budget_or_result_limit,
            by_path: copy_context_omission_groups(&self.by_path),
            by_language_or_file_type: copy_context_omission_groups(&self.by_language_or_file_type),
            by_reason: copy_context_omission_groups(&self.by_reason),
            by_score_band: copy_context_omission_groups(&self.by_score_band),
        }
    }
}

/// Why a focus path got too few fragments.
#[derive(Debug, Clone, Copy, PartialEq, Eq, Structural)]
pub enum ContextFocusCapacityBlocker {
    NoIndexedPaths,
    PathPolicy,
    CandidateFanoutLimit,
    CandidateGeneration,
    SelectionBudget,
}

/// What became of a focus path.
#[derive(Debug, Clone, Copy, PartialEq, Eq, Structural)]
pub struct ContextFocusPathDiagnostics {
    pub eligible_paths: usize,
    pub generated_fragments: usize,
    pub capacity_blocker: Option<ContextFocusCapacityBlocker>,
}

/// How far a focus path is covered.
#[derive(Debug)]
pub struct ContextFocusPathCoverage {
    pub pattern: String,
    pub indexed_paths: usize,
    pub minimum_fragments: usize,
    pub selected_fragments: usize,
    pub satisfied: bool,
    pub diagnostics: Option<ContextFocusPathDiagnostics>,
}

impl ContextFocusPathCoverage {
    /// A copy.
    pub fn duplicate(&self) -> (r: ContextFocusPathCoverage)
        ensures
            r == *self,
    {
        ContextFocusPathCoverage {
            pattern: self.pattern.clone(),
            indexed_paths: self.indexed_paths,
            minimum_fragments: self.minimum_fragments,
            selected_fragments: self.selected_fragments,
            satisfied: self.satisfied,
            diagnostics: self.diagnostics,
        }
    }
}

/// How far the changed paths are covered.
#[derive(Debug, Clone, Copy, PartialEq, Eq, Structural)]
pub struct ContextChangedPathCoverage {
    pub resolved_paths: usize,
    pub indexed_paths: usize,
    pub selected_fragments: usize,
    pub satisfied: bool,
}

/// How far a piece of required evidence is covered.
#[derive(Debug)]
pub struct ContextRequiredEvidenceCoverage {
    pub path: String,
    pub indexed_paths: usize,
    pub inspected_paths: usize,
    pub minimum_query_matches: usize,
    pub matched_queries: Vec<String>,
    pub unmatched_queries: Vec<String>,
    pub selected_fragments: usize,
    pub satisfied: bool,
}

/// What a [`ContextRequiredEvidenceCoverage`] says.
pub struct RequiredView {
    pub path: Seq<char>,
    pub indexed_paths: usize,
    pub inspected_paths: usize,
    pub minimum_query_matches: usize,
    pub matched_queries: Seq<Seq<char>>,
    pub unmatched_queries: Seq<Seq<char>>,
    pub selected_fragments: usize,
    pub satisfied: bool,
}

impl View for ContextRequiredEvidenceCoverage {
    type V = RequiredView;

    open spec fn view(&self) -> RequiredView {
        RequiredView {
            path: self.path@,
            indexed_paths: self.indexed_paths,
            inspected_paths: self.inspected_paths,
            minimum_query_matches: self.minimum_query_matches,
            matched_queries: texts(self.matched_queries@),
            unmatched_queries: texts(self.unmatched_queries@),
            selected_fragments: self.selected_fragments,
            satisfied: self.satisfied,
        }
    }
}

impl ContextRequiredEvidenceCoverage {
    /// A copy.
    pub fn duplicate(&self) -> (r: ContextRequiredEvidenceCoverage)
        ensures
            r@ == self@,
    {
        ContextRequiredEvidenceCoverage {
            path: self.path.clone(),
            indexed_paths: self.indexed_paths,
            inspected_paths: self.inspected_paths,
            minimum_query_matches: self.minimum_query_matches,
            matched_queries: copy_texts(&self.matched_queries),
            unmatched_queries: copy_texts(&self.unmatched_queries),
            selected_fragments: self.selected_fragments,
            satisfied: self.satisfied,
        }
    }
}

/// How far the constraints of a request are covered.
#[derive(Debug)]
pub struct ContextCoverageReceipt {
    pub covered_must_include_paths: Vec<String>,
    pub covered_must_include_symbols: Vec<String>,
    pub partial_must_include_symbols: Vec<String>,
    pub uncovered_must_include_paths: Vec<String>,
    pub uncovered_must_include_symbols: Vec<String>,
    pub unmatched_must_include_paths: Vec<String>,
    pub unmatched_must_include_symbols: Vec<String>,
    pub unmatched_focus_paths: Vec<String>,
    pub unmatched_focus_symbols: Vec<String>,
    pub unmatched_include_paths: Vec<String>,
    pub required_evidence: Vec<ContextRequiredEvidenceCoverage>,
    pub evidence_scope_satisfied: Option<bool>,
    pub focus_path_coverage: Vec<ContextFocusPathCoverage>,
    pub changed_path_coverage: Option<ContextChangedPathCoverage>,
    pub path_scope_satisfied: Option<bool>,
}

/// What a [`ContextCoverageReceipt`] says.
pub struct CoverageView {
    pub covered_must_include_paths: Seq<Seq<char>>,
    pub covered_must_include_symbols: Seq<Seq<char>>,
    pub partial_must_include_symbols: Seq<Seq<char>>,
    pub uncovered_must_include_paths: Seq<Seq<char>>,
    pub uncovered_must_include_symbols: Seq<Seq<char>>,
    pub unmatched_must_include_paths: Seq<Seq<char>>,
    pub unmatched_must_include_symbols: Seq<Seq<char>>,
    pub unmatched_focus_paths: Seq<Seq<char>>,
    pub unmatched_focus_symbols: Seq<Seq<char>>,
    pub unmatched_include_paths: Seq<Seq<char>>,
    pub required_evidence: Seq<RequiredView>,
    pub evidence_scope_satisfied: Option<bool>,
    pub focus_path_coverage: Seq<ContextFocusPathCoverage>,
    pub changed_path_coverage: Option<ContextChangedPathCoverage>,
    pub path_scope_satisfied: Option<bool>,
}

impl View for ContextCoverageReceipt {
    type V = CoverageView;

    open spec fn view(&self) -> CoverageView {
        CoverageView {
            covered_must_include_paths: texts(self.covered_must_include_paths@),
            covered_must_include_symbols: texts(self.covered_must_include_symbols@),
            partial_must_include_symbols: texts(self.partial_must_include_symbols@),
            uncovered_must_include_paths: texts(self.uncovered_must_include_paths@),
            uncovered_must_include_symbols: texts(self.uncovered_must_include_symbols@),
            unmatched_must_include_paths: texts(self.unmatched_must_include_paths@),
            unmatched_must_include_symbols: texts(self.unmatched_must_include_symbols@),
            unmatched_focus_paths: texts(self.unmatched_focus_paths@),
            unmatched_focus_symbols: texts(self.unmatched_focus_symbols@),
            unmatched_include_paths: texts(self.unmatched_include_paths@),
            required_evidence: views(self.required_evidence@),
            evidence_scope_satisfied: self.evidence_scope_satisfied,
            focus_path_coverage: self.focus_path_coverage@,
            changed_path_coverage: self.changed_path_coverage,
            path_scope_satisfied: self.path_scope_satisfied,
        }
    }
}

impl ContextCoverageReceipt {
    /// A copy.
    pub fn duplicate(&self) -> (r: ContextCoverageReceipt)
        ensures
            r@ == self@,
    {
        ContextCoverageReceipt {
            covered_must_include_paths: copy_texts(&self.covered_must_include_paths),
            covered_must_include_symbols: copy_texts(&self.covered_must_include_symbols),
            partial_must_include_symbols: copy_texts(&self.partial_must_include_symbols),
            uncovered_must_include_paths: copy_texts(&self.uncovered_must_include_paths),
            uncovered_must_include_symbols: copy_texts(&self.uncovered_must_include_symbols),
            unmatched_must_include_paths: copy_texts(&self.unmatched_must_include_paths),
            unmatched_must_include_symbols: copy_texts(&self.unmatched_must_include_symbols),
            unmatched_focus_paths: copy_texts(&self.unmatched_focus_paths),
            unmatched_focus_symbols: copy_texts(&self.unmatched_focus_symbols),
            unmatched_include_paths: copy_texts(&self.unmatched_include_paths),
            required_evidence: copy_context_required_evidence_coverages(&self.required_evidence),
            evidence_scope_satisfied: self.evidence_scope_satisfied,
            focus_path_coverage: copy_context_focus_path_coverages(&self.focus_path_coverage),
            changed_path_coverage: self.changed_path_coverage,
            path_scope_satisfied: self.path_scope_satisfied,
        }
    }
}

/// What guides a workflow.
#[derive(Debug)]
pub struct WorkflowReceipt {
    pub guidance_candidates: usize,
    pub template_candidates: usize,
    pub validation_candidates: usize,
    pub owner_test_candidates: usize,
    pub missing_families: Vec<String>,
}

/// What a [`WorkflowReceipt`] says.
pub struct WorkflowView {
    pub guidance_candidates: usize,
    pub template_candidates: usize,
    pub validation_candidates: usize,
    pub owner_test_candidates: usize,
    pub missing_families: Seq<Seq<char>>,
}

impl View for WorkflowReceipt {
    type V = WorkflowView;

    open spec fn view(&self) -> WorkflowView {
        WorkflowView {
            guidance_candidates: self.guidance_candidates,
            template_candidates: self.template_candidates,
            validation_candidates: self.validation_candidates,
            owner_test_candidates: self.owner_test_candidates,
            missing_families: texts(self.missing_families@),
        }
    }
}

impl WorkflowReceipt {
    /// A copy.
    pub fn duplicate(&self) -> (r: WorkflowReceipt)
        ensures
            r@ == self@,
    {
        WorkflowReceipt {
            guidance_candidates: self.guidance_candidates,
            template_candidates: self.template_candidates,
            validation_candidates: self.validation_candidates,
            owner_test_candidates: self.owner_test_candidates,
            missing_families: copy_texts(&self.missing_families),
        }
    }
}

/// What a response holds, by content.
#[derive(Debug)]
pub struct ContextReceipt {
    pub task_fingerprint: String,
    pub fragment_hashes: Vec<String>,
}

/// What a [`ContextReceipt`] says.
pub struct ReceiptView {
    pub task_fingerprint: Seq<char>,
    pub fragment_hashes: Seq<Seq<char>>,
}

impl View for ContextReceipt {
    type V = ReceiptView;

    open spec fn view(&self) -> ReceiptView {
        ReceiptView {
            task_fingerprint: self.task_fingerprint@,
            fragment_hashes: texts(self.fragment_hashes@),
        }
    }
}

impl ContextReceipt {
    /// A copy.
    pub fn duplicate(&self) -> (r: ContextReceipt)
        ensures
            r@ == self@,
    {
        ContextReceipt {
            task_fingerprint: self.task_fingerprint.clone(),
            fragment_hashes: copy_texts(&self.fragment_hashes),
        }
    }
}

/// The answer to a context request.
#[derive(Debug)]
pub struct ContextResponse {
    pub meta: ResponseMeta,
    pub fragments: Vec<ContextFragment>,
    pub plan: Option<ContextPlan>,
    pub omitted: Vec<ContextOmission>,
    pub omission_summary: ContextOmissionSummary,
    pub receipt: ContextReceipt,
    pub coverage: ContextCoverageReceipt,
    pub warnings: Vec<String>,
    pub workflow: ContextWorkflow,
    pub workflow_receipt: Option<WorkflowReceipt>,
    pub provenance: Option<RepositoryProvenance>,
    pub diff_scope: Option<DiffScopeReceipt>,
    pub routing: Option<ContextRoutingReceipt>,
    pub handoff_manifest: Option<HandoffManifest>,
    pub effective_response_profile: ContextResponseProfile,
}

impl Metered for ContextResponse {
    open spec fn held_meta(&self) -> ResponseMeta {
        self.meta
    }

    fn meta_ref(&self) -> (r: &ResponseMeta) {
        &self.meta
    }
}

/// What a [`ContextResponse`] says.
pub struct ContextView {
    pub meta: ResponseMeta,
    pub fragments: Seq<ContextFragment>,
    pub plan: Option<PlanView>,
    pub omitted: Seq<ContextOmission>,
    pub omission_summary: OmissionView,
    pub receipt: ReceiptView,
    pub coverage: CoverageView,
    pub warnings: Seq<Seq<char>>,
    pub workflow: ContextWorkflow,
    pub workflow_receipt: Option<WorkflowView>,
    pub provenance: Option<RepositoryProvenance>,
    pub diff_scope: Option<ScopeView>,
    pub routing: Option<RoutingView>,
    pub handoff_manifest: Option<ManifestView>,
    pub effective_response_profile: ContextResponseProfile,
}

impl View for ContextResponse {
    type V = ContextView;

    open spec fn view(&self) -> ContextView {
        ContextView {
            meta: self.meta,
            fragments: self.fragments@,
            plan: optional_view(self.plan),
            omitted: self.omitted@,
            omission_summary: self.omission_summary@,
            receipt: self.receipt@,
            coverage: self.coverage@,
            warnings: texts(self.warnings@),
            workflow: self.workflow,
            workflow_receipt: optional_view(self.workflow_receipt),
            provenance: self.provenance,
            diff_scope: optional_view(self.diff_scope),
            routing: optional_view(self.routing),
            handoff_manifest: optional_view(self.handoff_manifest),
            effective_response_profile: self.effective_response_profile,
        }
    }
}

impl ContextResponse {
    /// A copy.
    pub fn duplicate(&self) -> (r: ContextResponse)
        ensures
            r@ == self@,
    {
        ContextResponse {
            meta: self.meta.duplicate(),
            fragments: copy_context_fragments(&self.fragments),
            plan: match &self.plan {
                Some(value) => Some(value.duplicate()),
                None => None,
            },
            omitted: copy_context_omissions(&self.omitted),
            omission_summary: self.omission_summary.duplicate(),
            receipt: self.receipt.duplicate(),
            coverage: self.coverage.duplicate(),
            warnings: copy_texts(&self.warnings),
            workflow: self.workflow,
            workflow_receipt: match &self.workflow_receipt {
                Some(value) => Some(value.duplicate()),
                None => None,
            },
            provenance: match &self.provenance {
                Some(value) => Some(value.duplicate()),
                None => None,
            },
            diff_scope: match &self.diff_scope {
                Some(value) => Some(value.duplicate()),
                None => None,
            },
            routing: match &self.routing {
                Some(value) => Some(value.duplicate()),
                None => None,
            },
            handoff_manifest: match &self.handoff_manifest {
                Some(value) => Some(value.duplicate()),
                None => None,
            },
            effective_response_profile: self.effective_response_profile,
        }
    }
}

// Copies of lists.

/// A copy of a list.
pub fn copy_diff_symbol_changes(list: &Vec<DiffSymbolChange>) -> (r: Vec<DiffSymbolChange>)
    ensures
        r@ == list@,
{
    let mut out: Vec<DiffSymbolChange> = Vec::new();
    let mut i: usize = 0;
    while i < list.len()
        invariant
            i <= list.len(),
            out@ == list@.take(i as int),
        decreases list.len() - i,
    {
        out.push(list[i].duplicate());
        assert(out@ =~= list@.take(i + 1));
        i += 1;
    }
    assert(out@ =~= list@);
    out
}

/// A copy of a list.
pub fn copy_diff_configuration_changes(list: &Vec<DiffConfigurationChange>) -> (r: Vec<DiffConfigurationChange>)
    ensures
        r@ == list@,
{
    let mut out: Vec<DiffConfigurationChange> = Vec::new();
    let mut i: usize = 0;
    while i < list.len()
        invariant
            i <= list.len(),
            out@ == list@.take(i as int),
        decreases list.len() - i,
    {
        out.push(list[i].duplicate());
        assert(out@ =~= list@.take(i + 1));
        i += 1;
    }
    assert(out@ =~= list@);
    out
}

/// A copy of a list.
pub fn copy_diff_owner_test_coverages(list: &Vec<DiffOwnerTestCoverage>) -> (r: Vec<DiffOwnerTestCoverage>)
    ensures
        views(r@) == views(list@),
{
    let mut out: Vec<DiffOwnerTestCoverage> = Vec::new();
    let mut i: usize = 0;
    while i < list.len()
        invariant
            i <= list.len(),
            views(out@) == views(list@).take(i as int),
        decreases list.len() - i,
    {
        let ghost before = views(out@);
        let copy = list[i].duplicate();
        let ghost added = copy@;
        out.push(copy);
        assert(views(out@) =~= before.push(added));
        assert(views(out@) =~= views(list@).take(i + 1));
        i += 1;
    }
    assert(views(out@) =~= views(list@));
    out
}

/// A copy of a list.
pub fn copy_diff_hunk_evidences(list: &Vec<DiffHunkEvidence>) -> (r: Vec<DiffHunkEvidence>)
    ensures
        r@ == list@,
{
    let mut out: Vec<DiffHunkEvidence> = Vec::new();
    let mut i: usize = 0;
    while i < list.len()
        invariant
            i <= list.len(),
            out@ == list@.take(i as int),
        decreases list.len() - i,
    {
        out.push(list[i].duplicate());
        assert(out@ =~= list@.take(i + 1));
        i += 1;
    }
    assert(out@ =~= list@);
    out
}

/// A copy of a list.
pub fn copy_diff_symbol_evidences(list: &Vec<DiffSymbolEvidence>) -> (r: Vec<DiffSymbolEvidence>)
    ensures
        r@ == list@,
{
    let mut out: Vec<DiffSymbolEvidence> = Vec::new();
    let mut i: usize = 0;
    while i < list.len()
        invariant
            i <= list.len(),
            out@ == list@.take(i as int),
        decreases list.len() - i,
    {
        out.push(list[i].duplicate());
        assert(out@ =~= list@.take(i + 1));
        i += 1;
    }
    assert(out@ =~= list@);
    out
}

/// A copy of a list.
pub fn copy_diff_related_paths(list: &Vec<DiffRelatedPath>) -> (r: Vec<DiffRelatedPath>)
    ensures
        r@ == list@,
{
    let mut out: Vec<DiffRelatedPath> = Vec::new();
    let mut i: usize = 0;
    while i < list.len()
        invariant
            i <= list.len(),
            out@ == list@.take(i as int),
        decreases list.len() - i,
    {
        out.push(list[i].duplicate());
        assert(out@ =~= list@.take(i + 1));
        i += 1;
    }
    assert(out@ =~= list@);
    out
}

/// A copy of a list.
pub fn copy_handoff_evidences(list: &Vec<HandoffEvidence>) -> (r: Vec<HandoffEvidence>)
    ensures
        r@ == list@,
{
    let mut out: Vec<HandoffEvidence> = Vec::new();
    let mut i: usize = 0;
    while i < list.len()
        invariant
            i <= list.len(),
            out@ == list@.take(i as int),
        decreases list.len() - i,
    {
        out.push(list[i].duplicate());
        assert(out@ =~= list@.take(i + 1));
        i += 1;
    }
    assert(out@ =~= list@);
    out
}

/// A copy of a list.
pub fn copy_handoff_validations(list: &Vec<HandoffValidation>) -> (r: Vec<HandoffValidation>)
    ensures
        r@ == list@,
{
    let mut out: Vec<HandoffValidation> = Vec::new();
    let mut i: usize = 0;
    while i < list.len()
        invariant
            i <= list.len(),
            out@ == list@.take(i as int),
        decreases list.len() - i,
    {
        out.push(list[i].duplicate());
        assert(out@ =~= list@.take(i + 1));
        i += 1;
    }
    assert(out@ =~= list@);
    out
}

/// A copy of a list.
pub fn copy_context_path_groups(list: &Vec<ContextPathGroup>) -> (r: Vec<ContextPathGroup>)
    ensures
        r@ == list@,
{
    let mut out: Vec<ContextPathGroup> = Vec::new();
    let mut i: usize = 0;
    while i < list.len()
        invariant
            i <= list.len(),
            out@ == list@.take(i as int),
        decreases list.len() - i,
    {
        out.push(list[i].duplicate());
        assert(out@ =~= list@.take(i + 1));
        i += 1;
    }
    assert(out@ =~= list@);
    out
}

/// A copy of a list.
pub fn copy_context_routing_suggestions(list: &Vec<ContextRoutingSuggestion>) -> (r: Vec<ContextRoutingSuggestion>)
    ensures
        views(r@) == views(list@),
{
    let mut out: Vec<ContextRoutingSuggestion> = Vec::new();
    let mut i: usize = 0;
    while i < list.len()
        invariant
            i <= list.len(),
            views(out@) == views(list@).take(i as int),
        decreases list.len() - i,
    {
        let ghost before = views(out@);
        let copy = list[i].duplicate();
        let ghost added = copy@;
        out.push(copy);
        assert(views(out@) =~= before.push(added));
        assert(views(out@) =~= views(list@).take(i + 1));
        i += 1;
    }
    assert(views(out@) =~= views(list@));
    out
}

/// A copy of a list.
pub fn copy_context_plan_candidates(list: &Vec<ContextPlanCandidate>) -> (r: Vec<ContextPlanCandidate>)
    ensures
        views(r@) == views(list@),
{
    let mut out: Vec<ContextPlanCandidate> = Vec::new();
    let mut i: usize = 0;
    while i < list.len()
        invariant
            i <= list.len(),
            views(out@) == views(list@).take(i as int),
        decreases list.len() - i,
    {
        let ghost before = views(out@);
        let copy = list[i].duplicate();
        let ghost added = copy@;
        out.push(copy);
        assert(views(out@) =~= before.push(added));
        assert(views(out@) =~= views(list@).take(i + 1));
        i += 1;
    }
    assert(views(out@) =~= views(list@));
    out
}

/// A copy of a list.
pub fn copy_context_omission_groups(list: &Vec<ContextOmissionGroup>) -> (r: Vec<ContextOmissionGroup>)
    ensures
        r@ == list@,
{
    let mut out: Vec<ContextOmissionGroup> = Vec::new();
    let mut i: usize = 0;
    while i < list.len()
        invariant
            i <= list.len(),
            out@ == list@.take(i as int),
        decreases list.len() - i,
    {
        out.push(list[i].duplicate());
        assert(out@ =~= list@.take(i + 1));
        i += 1;
    }
    assert(out@ =~= list@);
    out
}

/// A copy of a list.
pub fn copy_context_required_evidence_coverages(list: &Vec<ContextRequiredEvidenceCoverage>) -> (r: Vec<ContextRequiredEvidenceCoverage>)
    ensures
        views(r@) == views(list@),
{
    let mut out: Vec<ContextRequiredEvidenceCoverage> = Vec::new();
    let mut i: usize = 0;
    while i < list.len()
        invariant
            i <= list.len(),
            views(out@) == views(list@).take(i as int),
        decreases list.len() - i,
    {
        let ghost before = views(out@);
        let copy = list[i].duplicate();
        let ghost added = copy@;
        out.push(copy);
        assert(views(out@) =~= before.push(added));
        assert(views(out@) =~= views(list@).take(i + 1));
        i += 1;
    }
    assert(views(out@) =~= views(list@));
    out
}

/// A copy of a list.
pub fn copy_context_focus_path_coverages(list: &Vec<ContextFocusPathCoverage>) -> (r: Vec<ContextFocusPathCoverage>)
    ensures
        r@ == list@,
{
    let mut out: Vec<ContextFocusPathCoverage> = Vec::new();
    let mut i: usize = 0;
    while i < list.len()
        invariant
            i <= list.len(),
            out@ == list@.take(i as int),
        decreases list.len() - i,
    {
        out.push(list[i].duplicate());
        assert(out@ =~= list@.take(i + 1));
        i += 1;
    }
    assert(out@ =~= list@);
    out
}

/// A copy of a list.
pub fn copy_context_fragments(list: &Vec<ContextFragment>) -> (r: Vec<ContextFragment>)
    ensures
        r@ == list@,
{
    let mut out: Vec<ContextFragment> = Vec::new();
    let mut i: usize = 0;
    while i < list.len()
        invariant
            i <= list.len(),
            out@ == list@.take(i as int),
        decreases list.len() - i,
    {
        out.push(list[i].duplicate());
        assert(out@ =~= list@.take(i + 1));
        i += 1;
    }
    assert(out@ =~= list@);
    out
}

/// A copy of a list.
pub fn copy_context_omissions(list: &Vec<ContextOmission>) -> (r: Vec<ContextOmission>)
    ensures
        r@ == list@,
{
    let mut out: Vec<ContextOmission> = Vec::new();
    let mut i: usize = 0;
    while i < list.len()
        invariant
            i <= list.len(),
            out@ == list@.take(i as int),
        decreases list.len() - i,
    {
        out.push(list[i].duplicate());
        assert(out@ =~= list@.take(i + 1));
        i += 1;
    }
    assert(out@ =~= list@);
    out
}

} // verus!
