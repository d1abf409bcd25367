//! The records a caller sees of Decomposition Plans, their mappings and
//! shared bindings, and the requests and outcomes of the lifecycle operations.

use vstd::prelude::*;

verus! {

#[derive(Clone, Debug, PartialEq, Eq)]
pub struct DecompositionPlanQuery {
    pub design_version_id: i64,
    pub work_unit_id: i64,
}

#[derive(Clone, Debug, PartialEq, Eq)]
pub struct DecompositionPlanRecord {
    pub id: i64,
    pub design_version_id: i64,
    pub work_unit_id: i64,
    pub key: String,
    pub revision: i64,
    pub current_identity: String,
    pub status: String,
    pub predecessor_id: Option<i64>,
    pub source_path: Option<String>,
    pub content_identity: String,
    pub document_content: String,
    pub issue: Option<String>,
    pub items: Vec<DecompositionItemRecord>,
    pub slices: Vec<DecompositionSliceRecord>,
    pub gaps: Vec<DecompositionGapRecord>,
    pub mappings: Vec<DecompositionMappingRecord>,
    pub shared_bindings: Vec<DecompositionSharedBindingRecord>,
}

#[derive(Clone, Debug, PartialEq, Eq)]
pub struct DecompositionPlanCandidate {
    pub source_path: String,
    pub ingress_identity: String,
    pub content_identity: String,
    pub managed_content_identity: String,
    pub structurally_ready: bool,
    pub issue: Option<String>,
}

/// Whether the exact review of a ready or applied plan is accepted and clean.
#[derive(Clone, Copy, Debug, PartialEq, Eq)]
pub enum PlanReviewOwnerState {
    AcceptedClean,
    ReviewRequired,
}

/// The review owner of a ready or applied plan: its state, the actions it
/// requires, and the handle of what it observed.
#[derive(Clone, Debug, PartialEq, Eq)]
pub struct PlanReviewOwnerResolution {
    pub state: PlanReviewOwnerState,
    pub actions: Vec<String>,
    pub observed_handle: String,
}

#[derive(Clone, Debug, PartialEq, Eq)]
pub struct DecompositionPlanResolution {
    pub design_version_id: i64,
    pub work_unit_id: i64,
    pub current: Option<DecompositionPlanRecord>,
    pub successor: Option<DecompositionPlanRecord>,
    pub successor_projection: Option<DecompositionReconciliationProjection>,
    pub candidates: Vec<DecompositionPlanCandidate>,
    pub review_owner: Option<PlanReviewOwnerResolution>,
    pub actions: Vec<String>,
}

#[derive(Clone, Debug, PartialEq, Eq)]
pub struct DecompositionGapRecord {
    pub endpoint: String,
    pub issue: String,
}

#[derive(Clone, Debug, PartialEq, Eq)]
pub struct DecompositionItemRecord {
    pub key: String,
    pub title: String,
    pub outcome: String,
    pub observation: String,
    pub evidence_owner: String,
    pub evidence_kind: String,
    pub slice: Option<String>,
    pub requirements: Vec<String>,
    pub checklist_boundaries: Vec<String>,
    pub gates: Vec<String>,
}

#[derive(Clone, Debug, PartialEq, Eq)]
pub struct DecompositionSliceRecord {
    pub key: String,
    pub title: String,
    pub order: i64,
    pub depends_on: Vec<String>,
}

#[derive(Clone, Debug, PartialEq, Eq)]
pub struct DecompositionMappingRecord {
    pub category: String,
    pub source_id: i64,
    pub target: Option<String>,
    pub disposition: String,
    pub effect: Option<String>,
    pub qualification: String,
    pub observed_handle: String,
}

#[derive(Clone, Debug, PartialEq, Eq)]
pub struct DecompositionSharedBindingRecord {
    pub kind: String,
    pub id: i64,
    pub owner: String,
    pub disposition: String,
    pub qualification: String,
    pub observed_handle: String,
}

pub struct DecompositionApplication<'a> {
    pub design_version_id: i64,
    pub work_unit_id: i64,
    pub plan_path: Option<&'a str>,
}

pub struct DecompositionImport<'a> {
    pub design_version_id: i64,
    pub work_unit_id: i64,
    pub plan_path: Option<&'a str>,
    pub expected_content: Option<&'a str>,
    pub draft: bool,
    pub expected_current: &'a str,
    pub idempotency_key: &'a str,
}

pub struct DecompositionValidate<'a> {
    pub plan_id: i64,
    pub expected_current: &'a str,
    pub idempotency_key: &'a str,
}

pub struct DecompositionRevise<'a> {
    pub plan_id: i64,
    pub plan_path: &'a str,
    pub draft: bool,
    pub expected_current: &'a str,
    pub idempotency_key: &'a str,
}

#[derive(Clone, Debug, PartialEq, Eq)]
pub struct DecompositionPlanTransitionOutcome {
    pub plan: DecompositionPlanRecord,
    pub idempotent: bool,
}

pub struct DecompositionReconciliationApplication<'a> {
    pub design_version_id: i64,
    pub work_unit_id: i64,
    pub plan_path: &'a str,
    pub closure_id: i64,
    pub expected_current: &'a str,
}

#[derive(Clone, Debug, PartialEq, Eq)]
pub struct DecompositionReconciliationOutcome {
    pub plan: DecompositionApplicationOutcome,
    pub predecessor_plan_id: i64,
    pub closure_id: i64,
    pub token_ordinal: i64,
    pub correction_application_id: i64,
    pub idempotent: bool,
    pub projection: DecompositionReconciliationProjection,
}

#[derive(Clone, Debug, PartialEq, Eq)]
pub struct DecompositionReconciliationProjection {
    pub endpoint_effects: Vec<DecompositionMappingRecord>,
    pub shared_bindings: Vec<DecompositionSharedBindingRecord>,
    pub projection_identity: String,
    pub observed_predecessor: String,
    pub observed_document: String,
    pub observed_correction: String,
    pub observed_shared: String,
    pub commit_current: String,
    pub command: String,
}

#[derive(Clone, Copy, Debug, PartialEq, Eq)]
pub struct DecompositionApplicationOutcome {
    pub plan_id: i64,
    pub task_count: i64,
    pub checklist_item_count: i64,
    pub phase_count: i64,
    pub dependency_count: i64,
    pub already_applied: bool,
    pub applied: bool,
}

} // verus!
