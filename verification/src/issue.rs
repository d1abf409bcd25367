//! Why a Decomposition Plan document is refused, with the text shown to users.

use vstd::prelude::*;

verus! {

/// The value whose check failed, as named in the refusal.
#[derive(Clone, Copy, Debug, PartialEq, Eq)]
pub enum Field {
    SliceKey,
    SliceTitle,
    PlanKey,
    ItemKey,
    ItemTitle,
    ItemDetails,
    CompletionOutcome,
    CompletionObservation,
    EvidenceOwner,
    EvidenceKind,
    BoundaryKey,
    BoundaryCondition,
    BoundaryEvidenceKind,
    ItemRequirement,
    CompletionGate,
    ChecklistGate,
    ReconciliationTarget,
    ReconciliationReason,
    RetainedGateBoundary,
    DesignFingerprint,
    ReconciliationExpectedCurrent,
    ExpectedContent,
    ExpectedCurrent,
    IdempotencyKey,
    GateBoundary,
}

/// The kind of predecessor endpoint a reconciliation mapping covers.
#[derive(Clone, Copy, Debug, PartialEq, Eq)]
pub enum MappingKind {
    Task,
    Checklist,
    Gate,
    Phase,
    Dependency,
}

#[derive(Clone, Copy, Debug, PartialEq, Eq)]
pub enum PlanIssue {
    NotCanonical(Field),
    NotPortable(Field),
    NotDigest(Field),
    NotUnique(Field),
    UnsupportedFormat,
    MissingItemsOrSlices,
    SliceOrder,
    SliceKeyDuplicate,
    SliceDependencyInvalid,
    SliceDependencyDuplicate,
    SliceCycle,
    ItemKeyDuplicate,
    ItemUnknownSlice,
    ItemCoverage,
    BoundaryKeyDuplicate,
    BoundaryGateUncovered,
    EmptySlice,
    PredecessorNotPositive,
    MappingSources(MappingKind),
    RetainedRequiresTarget(MappingKind),
    RetainedForbidsReason(MappingKind),
    RetiredForbidsTarget(MappingKind),
    RetiredRequiresReason(MappingKind),
    RetiredForbidsEffect(MappingKind),
    UnknownDisposition,
    TaskUnknownItem,
    ChecklistRequiresBoundary,
    ChecklistUnknownBoundary,
    ChecklistRetiredBoundary,
    GateRequiresGate,
    GateRequiresBoundary,
    GateUnknown,
    GateRetiredTargets,
    PhaseUnknownSlice,
    DependencyUnknownEdge,
    DependencyRetiredEndpoints,
}

pub open spec fn field_text(f: Field) -> Seq<char> {
    match f {
        Field::SliceKey => "slice key"@,
        Field::SliceTitle => "slice title"@,
        Field::PlanKey => "plan key"@,
        Field::ItemKey => "item key"@,
        Field::ItemTitle => "item title"@,
        Field::ItemDetails => "item details"@,
        Field::CompletionOutcome => "completion outcome"@,
        Field::CompletionObservation => "completion observation"@,
        Field::EvidenceOwner => "evidence owner"@,
        Field::EvidenceKind => "evidence kind"@,
        Field::BoundaryKey => "checklist boundary key"@,
        Field::BoundaryCondition => "checklist boundary condition"@,
        Field::BoundaryEvidenceKind => "checklist evidence kind"@,
        Field::ItemRequirement => "item requirement"@,
        Field::CompletionGate => "completion gate"@,
        Field::ChecklistGate => "checklist gate"@,
        Field::ReconciliationTarget => "reconciliation target"@,
        Field::ReconciliationReason => "reconciliation reason"@,
        Field::RetainedGateBoundary => "retained gate boundary"@,
        Field::DesignFingerprint => "design fingerprint"@,
        Field::ReconciliationExpectedCurrent => "reconciliation expected current"@,
        Field::ExpectedContent => "decomposition expected content"@,
        Field::ExpectedCurrent => "decomposition expected current"@,
        Field::IdempotencyKey => "decomposition idempotency key"@,
        Field::GateBoundary => "successor validation-gate boundary"@,
    }
}

pub open spec fn kind_text(k: MappingKind) -> Seq<char> {
    match k {
        MappingKind::Task => "task"@,
        MappingKind::Checklist => "checklist"@,
        MappingKind::Gate => "gate"@,
        MappingKind::Phase => "phase"@,
        MappingKind::Dependency => "dependency"@,
    }
}

pub open spec fn issue_text(i: PlanIssue) -> Seq<char> {
    match i {
        PlanIssue::NotCanonical(f) => field_text(f) + " must be non-empty canonical text"@,
        PlanIssue::NotPortable(f) => field_text(f) + " must be a portable token"@,
        PlanIssue::NotDigest(f) => field_text(f) + " must be a SHA-256 identity"@,
        PlanIssue::NotUnique(f) => field_text(f) + " must be unique"@,
        PlanIssue::UnsupportedFormat => "decomposition plan type or format is unsupported"@,
        PlanIssue::MissingItemsOrSlices => "decomposition plan requires items and slices"@,
        PlanIssue::SliceOrder => "decomposition slice order must be unique and positive"@,
        PlanIssue::SliceKeyDuplicate => "decomposition slice key must be unique"@,
        PlanIssue::SliceDependencyInvalid => "decomposition slice dependency is invalid"@,
        PlanIssue::SliceDependencyDuplicate => "decomposition slice dependency must be unique"@,
        PlanIssue::SliceCycle => "decomposition slice dependencies contain a cycle"@,
        PlanIssue::ItemKeyDuplicate => "decomposition item key must be unique"@,
        PlanIssue::ItemUnknownSlice => "decomposition item references an unknown slice"@,
        PlanIssue::ItemCoverage => "decomposition item requires requirement and checklist coverage"@,
        PlanIssue::BoundaryKeyDuplicate => "checklist boundary key must be unique within an item"@,
        PlanIssue::BoundaryGateUncovered => "checklist gates must be contained by the item completion gates"@,
        PlanIssue::EmptySlice => "every decomposition slice must own at least one item"@,
        PlanIssue::PredecessorNotPositive => "reconciliation predecessor must be a positive reference"@,
        PlanIssue::MappingSources(k) => "reconciliation "@ + kind_text(k)
            + " sources must be unique positive references"@,
        PlanIssue::RetainedRequiresTarget(k) => "retained "@ + kind_text(k) + " mapping requires target"@,
        PlanIssue::RetainedForbidsReason(k) => "retained "@ + kind_text(k) + " mapping forbids reason"@,
        PlanIssue::RetiredForbidsTarget(k) => "retired "@ + kind_text(k) + " mapping forbids target"@,
        PlanIssue::RetiredRequiresReason(k) => "retired "@ + kind_text(k) + " mapping requires reason"@,
        PlanIssue::RetiredForbidsEffect(k) => "retired "@ + kind_text(k)
            + " mapping forbids lifecycle effect"@,
        PlanIssue::UnknownDisposition => "reconciliation disposition must be retained or retired"@,
        PlanIssue::TaskUnknownItem => "task reconciliation references an unknown item"@,
        PlanIssue::ChecklistRequiresBoundary => "retained checklist mapping requires boundary"@,
        PlanIssue::ChecklistUnknownBoundary => "checklist reconciliation references an unknown item boundary"@,
        PlanIssue::ChecklistRetiredBoundary => "retired checklist mapping forbids boundary"@,
        PlanIssue::GateRequiresGate => "retained gate mapping requires gate"@,
        PlanIssue::GateRequiresBoundary => "retained gate mapping requires boundary"@,
        PlanIssue::GateUnknown => "gate reconciliation references an unknown item gate"@,
        PlanIssue::GateRetiredTargets => "retired gate mapping forbids gate and boundary"@,
        PlanIssue::PhaseUnknownSlice => "phase reconciliation references an unknown slice"@,
        PlanIssue::DependencyUnknownEdge => "dependency reconciliation references an unknown slice edge"@,
        PlanIssue::DependencyRetiredEndpoints => "retired dependency mapping forbids endpoints"@,
    }
}

impl Field {
    pub fn name(self) -> (res: &'static str)
        ensures
            res@ == field_text(self),
    {
        match self {
            Field::SliceKey => "slice key",
            Field::SliceTitle => "slice title",
            Field::PlanKey => "plan key",
            Field::ItemKey => "item key",
            Field::ItemTitle => "item title",
            Field::ItemDetails => "item details",
            Field::CompletionOutcome => "completion outcome",
            Field::CompletionObservation => "completion observation",
            Field::EvidenceOwner => "evidence owner",
            Field::EvidenceKind => "evidence kind",
            Field::BoundaryKey => "checklist boundary key",
            Field::BoundaryCondition => "checklist boundary condition",
            Field::BoundaryEvidenceKind => "checklist evidence kind",
            Field::ItemRequirement => "item requirement",
            Field::CompletionGate => "completion gate",
            Field::ChecklistGate => "checklist gate",
            Field::ReconciliationTarget => "reconciliation target",
            Field::ReconciliationReason => "reconciliation reason",
            Field::RetainedGateBoundary => "retained gate boundary",
            Field::DesignFingerprint => "design fingerprint",
            Field::ReconciliationExpectedCurrent => "reconciliation expected current",
            Field::ExpectedContent => "decomposition expected content",
            Field::ExpectedCurrent => "decomposition expected current",
            Field::IdempotencyKey => "decomposition idempotency key",
            Field::GateBoundary => "successor validation-gate boundary",
        }
    }
}

impl MappingKind {
    pub fn name(self) -> (res: &'static str)
        ensures
            res@ == kind_text(self),
    {
        match self {
            MappingKind::Task => "task",
            MappingKind::Checklist => "checklist",
            MappingKind::Gate => "gate",
            MappingKind::Phase => "phase",
            MappingKind::Dependency => "dependency",
        }
    }
}

fn joined(a: &str, b: &str) -> (res: String)
    ensures
        res@ == a@ + b@,
{
    String::from_str(a).concat(b)
}

fn joined3(a: &str, b: &str, c: &str) -> (res: String)
    ensures
        res@ == a@ + b@ + c@,
{
    String::from_str(a).concat(b).concat(c)
}

impl PlanIssue {
    /// The text shown for the refusal.
    pub fn message(&self) -> (res: String)
        ensures
            res@ == issue_text(*self),
    {
        match *self {
            PlanIssue::NotCanonical(f) => joined(f.name(), " must be non-empty canonical text"),
            PlanIssue::NotPortable(f) => joined(f.name(), " must be a portable token"),
            PlanIssue::NotDigest(f) => joined(f.name(), " must be a SHA-256 identity"),
            PlanIssue::NotUnique(f) => joined(f.name(), " must be unique"),
            PlanIssue::UnsupportedFormat => String::from_str(
                "decomposition plan type or format is unsupported",
            ),
            PlanIssue::MissingItemsOrSlices => String::from_str(
                "decomposition plan requires items and slices",
            ),
            PlanIssue::SliceOrder => String::from_str(
                "decomposition slice order must be unique and positive",
            ),
            PlanIssue::SliceKeyDuplicate => String::from_str(
                "decomposition slice key must be unique",
            ),
            PlanIssue::SliceDependencyInvalid => String::from_str(
                "decomposition slice dependency is invalid",
            ),
            PlanIssue::SliceDependencyDuplicate => String::from_str(
                "decomposition slice dependency must be unique",
            ),
            PlanIssue::SliceCycle => String::from_str(
                "decomposition slice dependencies contain a cycle",
            ),
            PlanIssue::ItemKeyDuplicate => String::from_str(
                "decomposition item key must be unique",
            ),
            PlanIssue::ItemUnknownSlice => String::from_str(
                "decomposition item references an unknown slice",
            ),
            PlanIssue::ItemCoverage => String::from_str(
                "decomposition item requires requirement and checklist coverage",
            ),
            PlanIssue::BoundaryKeyDuplicate => String::from_str(
                "checklist boundary key must be unique within an item",
            ),
            PlanIssue::BoundaryGateUncovered => String::from_str(
                "checklist gates must be contained by the item completion gates",
            ),
            PlanIssue::EmptySlice => String::from_str(
                "every decomposition slice must own at least one item",
            ),
            PlanIssue::PredecessorNotPositive => String::from_str(
                "reconciliation predecessor must be a positive reference",
            ),
            PlanIssue::MappingSources(k) => joined3(
                "reconciliation ",
                k.name(),
                " sources must be unique positive references",
            ),
            PlanIssue::RetainedRequiresTarget(k) => joined3(
                "retained ",
                k.name(),
                " mapping requires target",
            ),
            PlanIssue::RetainedForbidsReason(k) => joined3(
                "retained ",
                k.name(),
                " mapping forbids reason",
            ),
            PlanIssue::RetiredForbidsTarget(k) => joined3(
                "retired ",
                k.name(),
                " mapping forbids target",
            ),
            PlanIssue::RetiredRequiresReason(k) => joined3(
                "retired ",
                k.name(),
                " mapping requires reason",
            ),
            PlanIssue::RetiredForbidsEffect(k) => joined3(
                "retired ",
                k.name(),
                " mapping forbids lifecycle effect",
            ),
            PlanIssue::UnknownDisposition => String::from_str(
                "reconciliation disposition must be retained or retired",
            ),
            PlanIssue::TaskUnknownItem => String::from_str(
                "task reconciliation references an unknown item",
            ),
            PlanIssue::ChecklistRequiresBoundary => String::from_str(
                "retained checklist mapping requires boundary",
            ),
            PlanIssue::ChecklistUnknownBoundary => String::from_str(
                "checklist reconciliation references an unknown item boundary",
            ),
            PlanIssue::ChecklistRetiredBoundary => String::from_str(
                "retired checklist mapping forbids boundary",
            ),
            PlanIssue::GateRequiresGate => String::from_str("retained gate mapping requires gate"),
            PlanIssue::GateRequiresBoundary => String::from_str(
                "retained gate mapping requires boundary",
            ),
            PlanIssue::GateUnknown => String::from_str(
                "gate reconciliation references an unknown item gate",
            ),
            PlanIssue::GateRetiredTargets => String::from_str(
                "retired gate mapping forbids gate and boundary",
            ),
            PlanIssue::PhaseUnknownSlice => String::from_str(
                "phase reconciliation references an unknown slice",
            ),
            PlanIssue::DependencyUnknownEdge => String::from_str(
                "dependency reconciliation references an unknown slice edge",
            ),
            PlanIssue::DependencyRetiredEndpoints => String::from_str(
                "retired dependency mapping forbids endpoints",
            ),
        }
    }
}

} // verus!
