//! The Decomposition Plan document: the metadata block of a plan file, as the
//! validators and the lifecycle see it.

use vstd::prelude::*;

verus! {

/// What a retained reconciliation mapping does with the predecessor's state.
#[derive(Clone, Copy, Debug, PartialEq, Eq)]
pub enum ReconciliationEffect {
    Preserve,
    Open,
}

#[derive(Clone, Debug, PartialEq, Eq)]
pub struct PlanDocument {
    pub record_type: String,
    pub format: i64,
    pub key: String,
    pub design_fingerprint: String,
    pub work: Option<i64>,
    pub items: Vec<PlanItem>,
    pub slices: Vec<PlanSlice>,
    pub reconciliation: Option<PlanReconciliation>,
}

#[derive(Clone, Debug, PartialEq, Eq)]
pub struct PlanReconciliation {
    pub predecessor: i64,
    pub expected_current: String,
    pub tasks: Vec<TaskReconciliation>,
    pub checklist: Vec<ChecklistReconciliation>,
    pub gates: Vec<GateReconciliation>,
    pub phases: Vec<PhaseReconciliation>,
    pub dependencies: Vec<DependencyReconciliation>,
}

#[derive(Clone, Debug, PartialEq, Eq)]
pub struct TaskReconciliation {
    pub source: i64,
    pub disposition: String,
    pub item: Option<String>,
    pub reason: Option<String>,
    pub effect: Option<ReconciliationEffect>,
}

#[derive(Clone, Debug, PartialEq, Eq)]
pub struct ChecklistReconciliation {
    pub source: i64,
    pub disposition: String,
    pub item: Option<String>,
    pub boundary: Option<String>,
    pub reason: Option<String>,
    pub effect: Option<ReconciliationEffect>,
}

#[derive(Clone, Debug, PartialEq, Eq)]
pub struct GateReconciliation {
    pub source: i64,
    pub disposition: String,
    pub item: Option<String>,
    pub gate: Option<String>,
    pub boundary: Option<String>,
    pub reason: Option<String>,
    pub effect: Option<ReconciliationEffect>,
}

#[derive(Clone, Debug, PartialEq, Eq)]
pub struct PhaseReconciliation {
    pub source: i64,
    pub disposition: String,
    pub slice: Option<String>,
    pub reason: Option<String>,
    pub effect: Option<ReconciliationEffect>,
}

#[derive(Clone, Debug, PartialEq, Eq)]
pub struct DependencyReconciliation {
    pub source: i64,
    pub disposition: String,
    pub from: Option<String>,
    pub to: Option<String>,
    pub reason: Option<String>,
    pub effect: Option<ReconciliationEffect>,
}

#[derive(Clone, Debug, PartialEq, Eq)]
pub struct PlanItem {
    pub key: String,
    pub requirements: Vec<String>,
    pub title: String,
    pub details: String,
    pub completion: PlanCompletion,
    pub checklist: Vec<PlanChecklistBoundary>,
    pub slice: String,
}

#[derive(Clone, Debug, PartialEq, Eq)]
pub struct PlanCompletion {
    pub outcome: String,
    pub observation: String,
    pub evidence_owner: String,
    pub evidence_kind: String,
    pub gates: Vec<String>,
}

#[derive(Clone, Debug, PartialEq, Eq)]
pub struct PlanChecklistBoundary {
    pub key: String,
    pub condition: String,
    pub evidence_kind: String,
    pub gates: Vec<String>,
}

#[derive(Clone, Debug, PartialEq, Eq)]
pub struct PlanSlice {
    pub key: String,
    pub title: String,
    pub order: i64,
    pub depends_on: Vec<String>,
}

/// The view of an optional string.
pub open spec fn opt_view(o: Option<String>) -> Option<Seq<char>> {
    match o {
        Some(s) => Some(s@),
        None => None,
    }
}

pub open spec fn effect_text(effect: ReconciliationEffect) -> Seq<char> {
    match effect {
        ReconciliationEffect::Preserve => "preserve"@,
        ReconciliationEffect::Open => "open"@,
    }
}

/// An absent effect means `preserve`.
pub open spec fn spec_normalized_effect(effect: Option<ReconciliationEffect>) -> ReconciliationEffect {
    match effect {
        Some(e) => e,
        None => ReconciliationEffect::Preserve,
    }
}

impl ReconciliationEffect {
    /// The stored name of the effect.
    pub fn as_str(self) -> (res: &'static str)
        ensures
            res@ == effect_text(self),
    {
        match self {
            ReconciliationEffect::Preserve => "preserve",
            ReconciliationEffect::Open => "open",
        }
    }
}

/// The effect a mapping has, with `preserve` standing for an absent one.
pub fn normalized_effect(effect: Option<ReconciliationEffect>) -> (res: ReconciliationEffect)
    ensures
        res == spec_normalized_effect(effect),
{
    match effect {
        Some(e) => e,
        None => ReconciliationEffect::Preserve,
    }
}

/// The effect stored for a mapping: only retained mappings carry one.
pub fn stored_effect(disposition: &str, effect: Option<ReconciliationEffect>) -> (res: Option<
    &'static str,
>)
    ensures
        disposition@ == "retained"@ ==> res.is_some() && res.unwrap()@ == effect_text(
            spec_normalized_effect(effect),
        ),
        disposition@ != "retained"@ ==> res.is_none(),
{
    if crate::text::str_eq(disposition, "retained") {
        Some(normalized_effect(effect).as_str())
    } else {
        None
    }
}

} // verus!
