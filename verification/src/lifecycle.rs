//! Lifecycle decisions of a Decomposition Plan slot: which plan is current,
//! the checks before import, validation and revision, which transition a
//! revision takes, and what applying a slot does next.

use vstd::prelude::*;

use crate::issue::{Field, PlanIssue};
use crate::records::{
    DecompositionApplication, DecompositionImport, DecompositionPlanRecord,
    DecompositionPlanResolution, DecompositionRevise, DecompositionValidate,
    PlanReviewOwnerResolution, PlanReviewOwnerState,
};
use crate::text::{decimal, digest_text, i64_decimal, portable_token, str_eq};
use crate::document::PlanDocument;
use crate::validation::{
    header_issue, plan_issue, require_digest, require_key, validate_plan,
    validate_plan_header,
};

verus! {

/// Why a lifecycle operation is refused.
#[derive(Clone, Debug, PartialEq, Eq)]
pub enum LifecycleIssue {
    Plan(PlanIssue),
    MultipleApplied,
    MultipleEditable,
    CurrentNotFound,
    DesignUnavailable,
    DesignAmbiguous,
    DesignVersionNotFound,
    DesignNotCurrentApproved,
    OpenWorkNotFound,
    ImportRequiresAbsent,
    IngressChangedBeforeImport,
    PathlessForbidsExpectedContent,
    MetadataRequiredForImport,
    CurrentPlanExists,
    ExpectedContentRequiresPlan,
    IngressChangedBeforeRevision,
    MetadataRequired,
    PlanChanged { current_identity: String },
    AppliedRequiresSuccessorDocument,
    ReadySuccessorRequiresReplacement,
    ReadySuccessorWrongPredecessor,
    ReadySuccessorPredecessorNotApplied,
    NotRevisable,
    OutsidePackageLineage,
    ChangedBeforePublication,
    NoReviewOwner,
    OwnerChangedBeforeApplication,
    NotStructurallyReady,
    SlotPlanMissing,
    SuccessorNeedsReconciliation,
    SuccessorWrongPredecessor,
    RevisionIdentityTaken,
    ReadyChangedBeforeRevision,
    NoLineageSuccessor,
    RetryDiffers { successor: i64, current: String, actions: Vec<String> },
    AlreadyRegistered,
    PredecessorChanged,
    OwnerMismatch,
    PackageMismatch,
    IngressIdentityDiffers,
    Publication(crate::publication::PublicationIssue),
}

pub open spec fn lifecycle_issue_text(i: LifecycleIssue) -> Seq<char> {
    match i {
        LifecycleIssue::Plan(p) => crate::issue::issue_text(p),
        LifecycleIssue::MultipleApplied => "the selected package and work have multiple applied Decomposition Plans"@,
        LifecycleIssue::MultipleEditable => "the selected package and work have multiple editable Decomposition Plans"@,
        LifecycleIssue::CurrentNotFound => "current decomposition plan not found"@,
        LifecycleIssue::DesignUnavailable => "decomposition plan design identity is unavailable"@,
        LifecycleIssue::DesignAmbiguous => "decomposition plan design identity is ambiguous"@,
        LifecycleIssue::DesignVersionNotFound => "selected design version not found"@,
        LifecycleIssue::DesignNotCurrentApproved => "only the exact current approved design version can be decomposed"@,
        LifecycleIssue::OpenWorkNotFound => "open work owner not found"@,
        LifecycleIssue::ImportRequiresAbsent => "decomposition import requires --expected-current absent"@,
        LifecycleIssue::IngressChangedBeforeImport => "Decomposition Plan ingress content changed before import"@,
        LifecycleIssue::PathlessForbidsExpectedContent => "pathless decomposition import forbids --expected-content"@,
        LifecycleIssue::MetadataRequiredForImport => "Decomposition Plan metadata is required for import"@,
        LifecycleIssue::CurrentPlanExists => "the selected package and work already have a current Decomposition Plan"@,
        LifecycleIssue::ExpectedContentRequiresPlan => "--expected-content requires --plan"@,
        LifecycleIssue::IngressChangedBeforeRevision => "Decomposition Plan ingress content changed before revision"@,
        LifecycleIssue::MetadataRequired => "Decomposition Plan metadata is required"@,
        LifecycleIssue::PlanChanged { current_identity } => "Decomposition Plan changed; current handle: "@
            + current_identity@,
        LifecycleIssue::AppliedRequiresSuccessorDocument => "an applied Decomposition Plan requires a non-draft successor document"@,
        LifecycleIssue::ReadySuccessorRequiresReplacement => "a ready reconciliation successor requires a non-draft replacement document"@,
        LifecycleIssue::ReadySuccessorWrongPredecessor => "ready reconciliation successor does not select its recorded predecessor"@,
        LifecycleIssue::ReadySuccessorPredecessorNotApplied => "ready reconciliation successor no longer has an applied predecessor"@,
        LifecycleIssue::NotRevisable => "only a draft or incomplete Decomposition Plan can be validated or revised; an ordinary ready Plan can only be revised"@,
        LifecycleIssue::OutsidePackageLineage => "a revised Decomposition Plan must remain in the predecessor package lineage"@,
        LifecycleIssue::ChangedBeforePublication => "Decomposition Plan changed before successor publication"@,
        LifecycleIssue::NoReviewOwner => "ready Decomposition Plan has no exact review-owner resolution"@,
        LifecycleIssue::OwnerChangedBeforeApplication => "Decomposition Plan current owner changed before application"@,
        LifecycleIssue::NotStructurallyReady => "current Decomposition Plan is not structurally ready"@,
        LifecycleIssue::SlotPlanMissing => "current Decomposition Plan not found"@,
        LifecycleIssue::SuccessorNeedsReconciliation => "an applied Plan successor requires reconciliation metadata"@,
        LifecycleIssue::SuccessorWrongPredecessor => "successor reconciliation does not select the applied predecessor"@,
        LifecycleIssue::RevisionIdentityTaken => "Decomposition Plan revision identity belongs to another lifecycle transition"@,
        LifecycleIssue::ReadyChangedBeforeRevision => "ready Decomposition Plan changed before successor revision"@,
        LifecycleIssue::NoLineageSuccessor => "superseded Decomposition Plan has no package-lineage successor"@,
        LifecycleIssue::RetryDiffers { successor, current, actions } =>
            "Decomposition Plan retry payload differs from the recorded successor; successor: "@
            + decimal(successor as int) + "; current: "@ + current@ + "; next: "@
            + crate::reconciliation::joined(crate::order::text_views(actions@), " | "@),
        LifecycleIssue::AlreadyRegistered => "the reconciliation Plan document was already registered without this application"@,
        LifecycleIssue::PredecessorChanged => "reconciliation predecessor changed before successor publication"@,
        LifecycleIssue::OwnerMismatch => "Decomposition Plan does not identify the selected design and work owner"@,
        LifecycleIssue::PackageMismatch => "Decomposition Plan must belong to the selected Design Package"@,
        LifecycleIssue::IngressIdentityDiffers => "Decomposition Plan ingress identity belongs to different staged bytes"@,
        LifecycleIssue::Publication(p) => crate::publication::publication_issue_text(p),
    }
}

impl LifecycleIssue {
    pub fn message(&self) -> (res: String)
        ensures
            res@ == lifecycle_issue_text(*self),
    {
        match self {
            LifecycleIssue::Plan(p) => p.message(),
            LifecycleIssue::MultipleApplied => String::from_str(
                "the selected package and work have multiple applied Decomposition Plans",
            ),
            LifecycleIssue::MultipleEditable => String::from_str(
                "the selected package and work have multiple editable Decomposition Plans",
            ),
            LifecycleIssue::CurrentNotFound => String::from_str(
                "current decomposition plan not found",
            ),
            LifecycleIssue::DesignUnavailable => String::from_str(
                "decomposition plan design identity is unavailable",
            ),
            LifecycleIssue::DesignAmbiguous => String::from_str(
                "decomposition plan design identity is ambiguous",
            ),
            LifecycleIssue::DesignVersionNotFound => String::from_str(
                "selected design version not found",
            ),
            LifecycleIssue::DesignNotCurrentApproved => String::from_str(
                "only the exact current approved design version can be decomposed",
            ),
            LifecycleIssue::OpenWorkNotFound => String::from_str("open work owner not found"),
            LifecycleIssue::ImportRequiresAbsent => String::from_str(
                "decomposition import requires --expected-current absent",
            ),
            LifecycleIssue::IngressChangedBeforeImport => String::from_str(
                "Decomposition Plan ingress content changed before import",
            ),
            LifecycleIssue::PathlessForbidsExpectedContent => String::from_str(
                "pathless decomposition import forbids --expected-content",
            ),
            LifecycleIssue::MetadataRequiredForImport => String::from_str(
                "Decomposition Plan metadata is required for import",
            ),
            LifecycleIssue::CurrentPlanExists => String::from_str(
                "the selected package and work already have a current Decomposition Plan",
            ),
            LifecycleIssue::ExpectedContentRequiresPlan => String::from_str(
                "--expected-content requires --plan",
            ),
            LifecycleIssue::IngressChangedBeforeRevision => String::from_str(
                "Decomposition Plan ingress content changed before revision",
            ),
            LifecycleIssue::MetadataRequired => String::from_str(
                "Decomposition Plan metadata is required",
            ),
            LifecycleIssue::PlanChanged { current_identity } => String::from_str(
                "Decomposition Plan changed; current handle: ",
            ).concat(current_identity.as_str()),
            LifecycleIssue::AppliedRequiresSuccessorDocument => String::from_str(
                "an applied Decomposition Plan requires a non-draft successor document",
            ),
            LifecycleIssue::ReadySuccessorRequiresReplacement => String::from_str(
                "a ready reconciliation successor requires a non-draft replacement document",
            ),
            LifecycleIssue::ReadySuccessorWrongPredecessor => String::from_str(
                "ready reconciliation successor does not select its recorded predecessor",
            ),
            LifecycleIssue::ReadySuccessorPredecessorNotApplied => String::from_str(
                "ready reconciliation successor no longer has an applied predecessor",
            ),
            LifecycleIssue::NotRevisable => String::from_str(
                "only a draft or incomplete Decomposition Plan can be validated or revised; an ordinary ready Plan can only be revised",
            ),
            LifecycleIssue::OutsidePackageLineage => String::from_str(
                "a revised Decomposition Plan must remain in the predecessor package lineage",
            ),
            LifecycleIssue::ChangedBeforePublication => String::from_str(
                "Decomposition Plan changed before successor publication",
            ),
            LifecycleIssue::NoReviewOwner => String::from_str(
                "ready Decomposition Plan has no exact review-owner resolution",
            ),
            LifecycleIssue::OwnerChangedBeforeApplication => String::from_str(
                "Decomposition Plan current owner changed before application",
            ),
            LifecycleIssue::NotStructurallyReady => String::from_str(
                "current Decomposition Plan is not structurally ready",
            ),
            LifecycleIssue::SlotPlanMissing => String::from_str(
                "current Decomposition Plan not found",
            ),
            LifecycleIssue::SuccessorNeedsReconciliation => String::from_str(
                "an applied Plan successor requires reconciliation metadata",
            ),
            LifecycleIssue::SuccessorWrongPredecessor => String::from_str(
                "successor reconciliation does not select the applied predecessor",
            ),
            LifecycleIssue::RevisionIdentityTaken => String::from_str(
                "Decomposition Plan revision identity belongs to another lifecycle transition",
            ),
            LifecycleIssue::ReadyChangedBeforeRevision => String::from_str(
                "ready Decomposition Plan changed before successor revision",
            ),
            LifecycleIssue::NoLineageSuccessor => String::from_str(
                "superseded Decomposition Plan has no package-lineage successor",
            ),
            LifecycleIssue::RetryDiffers { successor, current, actions } => String::from_str(
                "Decomposition Plan retry payload differs from the recorded successor; successor: ",
            ).concat(i64_decimal(*successor).as_str()).concat("; current: ").concat(
                current.as_str(),
            ).concat("; next: ").concat(
                crate::reconciliation::join_texts(actions, " | ").as_str(),
            ),
            LifecycleIssue::AlreadyRegistered => String::from_str(
                "the reconciliation Plan document was already registered without this application",
            ),
            LifecycleIssue::PredecessorChanged => String::from_str(
                "reconciliation predecessor changed before successor publication",
            ),
            LifecycleIssue::OwnerMismatch => String::from_str(
                "Decomposition Plan does not identify the selected design and work owner",
            ),
            LifecycleIssue::PackageMismatch => String::from_str(
                "Decomposition Plan must belong to the selected Design Package",
            ),
            LifecycleIssue::IngressIdentityDiffers => String::from_str(
                "Decomposition Plan ingress identity belongs to different staged bytes",
            ),
            LifecycleIssue::Publication(p) => String::from_str(p.message()),
        }
    }
}

/// A non-superseded plan of a slot, as stored: its id and status.
#[derive(Clone, Debug, PartialEq, Eq)]
pub struct PlanSlotRow {
    pub id: i64,
    pub status: String,
}

/// The ids of the applied plans among `rows`, in order.
pub open spec fn applied_ids(rows: Seq<PlanSlotRow>) -> Seq<i64>
    decreases rows.len(),
{
    if rows.len() == 0 {
        Seq::empty()
    } else if rows.last().status@ == "applied"@ {
        applied_ids(rows.drop_last()).push(rows.last().id)
    } else {
        applied_ids(rows.drop_last())
    }
}

/// The current plan of a slot: its only applied plan; without one, its only
/// editable plan; none when it has no plan; refused when it has several.
pub open spec fn spec_current_plan_id(rows: Seq<PlanSlotRow>) -> Result<Option<i64>, LifecycleIssue> {
    let applied = applied_ids(rows);
    if applied.len() == 1 {
        Ok(Some(applied[0]))
    } else if applied.len() > 1 {
        Err(LifecycleIssue::MultipleApplied)
    } else if rows.len() == 0 {
        Ok(None)
    } else if rows.len() == 1 {
        Ok(Some(rows[0].id))
    } else {
        Err(LifecycleIssue::MultipleEditable)
    }
}

/// Chooses the current plan among the non-superseded plans of a slot.
pub fn resolve_current_plan_id(rows: &Vec<PlanSlotRow>) -> (res: Result<Option<i64>, LifecycleIssue>)
    ensures
        res == spec_current_plan_id(rows@),
{
    let mut applied: Vec<i64> = Vec::new();
    let mut i: usize = 0;
    while i < rows.len()
        invariant
            i <= rows@.len(),
            applied@ == applied_ids(rows@.take(i as int)),
        decreases rows@.len() - i,
    {
        assert(rows@.take(i as int + 1).drop_last() =~= rows@.take(i as int));
        if str_eq(rows[i].status.as_str(), "applied") {
            applied.push(rows[i].id);
        }
        i += 1;
    }
    assert(rows@.take(rows@.len() as int) =~= rows@);
    if applied.len() == 1 {
        return Ok(Some(applied[0]));
    }
    if applied.len() > 1 {
        return Err(LifecycleIssue::MultipleApplied);
    }
    if rows.len() == 0 {
        Ok(None)
    } else if rows.len() == 1 {
        Ok(Some(rows[0].id))
    } else {
        Err(LifecycleIssue::MultipleEditable)
    }
}

/// The design version a fingerprint names: the only match, else refused.
pub open spec fn spec_design_version(matches: Seq<i64>) -> Result<i64, LifecycleIssue> {
    if matches.len() == 1 {
        Ok(matches[0])
    } else if matches.len() == 0 {
        Err(LifecycleIssue::DesignUnavailable)
    } else {
        Err(LifecycleIssue::DesignAmbiguous)
    }
}

/// Chooses the design version among the versions whose content or package
/// hash equals a plan's design fingerprint.
pub fn resolve_design_version(matches: &Vec<i64>) -> (res: Result<i64, LifecycleIssue>)
    ensures
        res == spec_design_version(matches@),
{
    if matches.len() == 1 {
        Ok(matches[0])
    } else if matches.len() == 0 {
        Err(LifecycleIssue::DesignUnavailable)
    } else {
        Err(LifecycleIssue::DesignAmbiguous)
    }
}

/// The current plan of a slot, which must exist.
pub fn show_decomposition_plan(rows: &Vec<PlanSlotRow>) -> (res: Result<i64, LifecycleIssue>)
    ensures
        match spec_current_plan_id(rows@) {
            Ok(Some(id)) => res == Ok::<i64, LifecycleIssue>(id),
            Ok(None) => res == Err::<i64, LifecycleIssue>(LifecycleIssue::CurrentNotFound),
            Err(e) => res == Err::<i64, LifecycleIssue>(e),
        },
{
    match resolve_current_plan_id(rows) {
        Ok(Some(id)) => Ok(id),
        Ok(None) => Err(LifecycleIssue::CurrentNotFound),
        Err(e) => Err(e),
    }
}

/// What the store says of a slot's owner: whether the design version exists
/// and is the exact current approved one, and whether the work is open.
pub open spec fn spec_application_owner(
    approved: Option<bool>,
    work_open: bool,
) -> Result<(), LifecycleIssue> {
    match approved {
        None => Err(LifecycleIssue::DesignVersionNotFound),
        Some(false) => Err(LifecycleIssue::DesignNotCurrentApproved),
        Some(true) => if work_open {
            Ok(())
        } else {
            Err(LifecycleIssue::OpenWorkNotFound)
        },
    }
}

/// Refuses a slot whose design version is missing or not the exact current
/// approved one, or whose work is not open.
pub fn validate_application_owner(approved: Option<bool>, work_open: bool) -> (res: Result<
    (),
    LifecycleIssue,
>)
    ensures
        res == spec_application_owner(approved, work_open),
{
    match approved {
        None => Err(LifecycleIssue::DesignVersionNotFound),
        Some(false) => Err(LifecycleIssue::DesignNotCurrentApproved),
        Some(true) => if work_open {
            Ok(())
        } else {
            Err(LifecycleIssue::OpenWorkNotFound)
        },
    }
}

/// The status a newly published plan takes.
pub open spec fn spec_successor_status(draft: bool, valid: bool) -> Seq<char> {
    if draft {
        "draft"@
    } else if !valid {
        "incomplete"@
    } else {
        "ready"@
    }
}

/// `draft` when asked for, `incomplete` when the document is not valid,
/// `ready` otherwise.
pub fn successor_status(draft: bool, valid: bool) -> (res: &'static str)
    ensures
        res@ == spec_successor_status(draft, valid),
{
    if draft {
        "draft"
    } else if !valid {
        "incomplete"
    } else {
        "ready"
    }
}

} // verus!

verus! {

pub open spec fn key_issue(field: Field, value: Seq<char>) -> PlanIssue {
    if !crate::text::canonical_text(value) {
        PlanIssue::NotCanonical(field)
    } else {
        PlanIssue::NotPortable(field)
    }
}

/// The checks every revision request makes first: a portable idempotency key,
/// then a SHA-256 expected current handle.
pub open spec fn spec_revision_request(idempotency_key: Seq<char>, expected_current: Seq<char>) -> Result<
    (),
    LifecycleIssue,
> {
    if !portable_token(idempotency_key) {
        Err(LifecycleIssue::Plan(key_issue(Field::IdempotencyKey, idempotency_key)))
    } else if !digest_text(expected_current) {
        Err(LifecycleIssue::Plan(PlanIssue::NotDigest(Field::ExpectedCurrent)))
    } else {
        Ok(())
    }
}

fn revision_request(idempotency_key: &str, expected_current: &str) -> (res: Result<
    (),
    LifecycleIssue,
>)
    ensures
        res == spec_revision_request(idempotency_key@, expected_current@),
{
    match require_key(idempotency_key, Field::IdempotencyKey) {
        Err(e) => return Err(LifecycleIssue::Plan(e)),
        Ok(()) => {},
    }
    match require_digest(expected_current, Field::ExpectedCurrent) {
        Err(e) => Err(LifecycleIssue::Plan(e)),
        Ok(()) => Ok(()),
    }
}

impl<'a> DecompositionRevise<'a> {
    /// The request checks of a revision whose plan file and expected content
    /// are both optional: the key and handle, then the expected content,
    /// which must be a digest, needs a plan file and must be that file's
    /// source identity. `ingress_identity` is the source identity of the
    /// file at `plan_path`, none when no plan file is named.
    pub fn execute_request(
        plan_id: i64,
        plan_path: Option<&str>,
        expected_content: Option<&str>,
        ingress_identity: Option<&str>,
        draft: bool,
        expected_current: &str,
        idempotency_key: &str,
    ) -> (res: Result<(), LifecycleIssue>)
        ensures
            res == match spec_revision_request(idempotency_key@, expected_current@) {
                Err(e) => Err(e),
                Ok(_) => spec_revision_ingress(
                    match expected_content {
                        Some(e) => Some(e@),
                        None => None,
                    },
                    match plan_path {
                        Some(_) => match ingress_identity {
                            Some(i) => Some(i@),
                            None => None,
                        },
                        None => None,
                    },
                ),
            },
    {
        match revision_request(idempotency_key, expected_current) {
            Err(e) => return Err(e),
            Ok(()) => {},
        }
        let ingress = match plan_path {
            Some(_) => ingress_identity,
            None => None,
        };
        check_revision_ingress(expected_content, ingress)
    }
}

/// The checks of an import request: a portable idempotency key, the expected
/// current handle `absent`, and the expected content matching the supplied
/// plan file, which a pathless import may not name.
pub open spec fn spec_import_request(
    idempotency_key: Seq<char>,
    expected_current: Seq<char>,
    expected_content: Option<Seq<char>>,
    ingress_identity: Option<Seq<char>>,
) -> Result<(), LifecycleIssue> {
    if !portable_token(idempotency_key) {
        Err(LifecycleIssue::Plan(key_issue(Field::IdempotencyKey, idempotency_key)))
    } else if expected_current != "absent"@ {
        Err(LifecycleIssue::ImportRequiresAbsent)
    } else {
        match (expected_content, ingress_identity) {
            (Some(expected), Some(ingress)) => if !digest_text(expected) {
                Err(LifecycleIssue::Plan(PlanIssue::NotDigest(Field::ExpectedContent)))
            } else if ingress != expected {
                Err(LifecycleIssue::IngressChangedBeforeImport)
            } else {
                Ok(())
            },
            (Some(_), None) => Err(LifecycleIssue::PathlessForbidsExpectedContent),
            _ => Ok(()),
        }
    }
}

/// The request checks of an import; `ingress_identity` is the source
/// identity of the supplied plan file, when the import names one.
fn import_request(input: &DecompositionImport, ingress_identity: Option<&str>) -> (res: Result<
    (),
    LifecycleIssue,
>)
    ensures
        res == spec_import_request(
            input.idempotency_key@,
            input.expected_current@,
            match input.expected_content {
                Some(e) => Some(e@),
                None => None,
            },
            match ingress_identity {
                Some(e) => Some(e@),
                None => None,
            },
        ),
{
    match require_key(input.idempotency_key, Field::IdempotencyKey) {
        Err(e) => return Err(LifecycleIssue::Plan(e)),
        Ok(()) => {},
    }
    if !str_eq(input.expected_current, "absent") {
        return Err(LifecycleIssue::ImportRequiresAbsent);
    }
    match (input.expected_content, ingress_identity) {
        (Some(expected), Some(ingress)) => {
            match require_digest(expected, Field::ExpectedContent) {
                Err(e) => return Err(LifecycleIssue::Plan(e)),
                Ok(()) => {},
            }
            if !str_eq(ingress, expected) {
                return Err(LifecycleIssue::IngressChangedBeforeImport);
            }
            Ok(())
        },
        (Some(_), None) => Err(LifecycleIssue::PathlessForbidsExpectedContent),
        _ => Ok(()),
    }
}

/// The check of a revision's expected content against its plan file.
pub open spec fn spec_revision_ingress(
    expected_content: Option<Seq<char>>,
    ingress_identity: Option<Seq<char>>,
) -> Result<(), LifecycleIssue> {
    match expected_content {
        None => Ok(()),
        Some(expected) => if !digest_text(expected) {
            Err(LifecycleIssue::Plan(PlanIssue::NotDigest(Field::ExpectedContent)))
        } else {
            match ingress_identity {
                None => Err(LifecycleIssue::ExpectedContentRequiresPlan),
                Some(ingress) => if ingress != expected {
                    Err(LifecycleIssue::IngressChangedBeforeRevision)
                } else {
                    Ok(())
                },
            }
        },
    }
}

/// Refuses an expected content that is not a digest, that names no plan
/// file, or that differs from the plan file's source identity.
pub fn check_revision_ingress(expected_content: Option<&str>, ingress_identity: Option<&str>) -> (res:
    Result<(), LifecycleIssue>)
    ensures
        res == spec_revision_ingress(
            match expected_content {
                Some(e) => Some(e@),
                None => None,
            },
            match ingress_identity {
                Some(e) => Some(e@),
                None => None,
            },
        ),
{
    match expected_content {
        None => Ok(()),
        Some(expected) => {
            match require_digest(expected, Field::ExpectedContent) {
                Err(e) => return Err(LifecycleIssue::Plan(e)),
                Ok(()) => {},
            }
            match ingress_identity {
                None => Err(LifecycleIssue::ExpectedContentRequiresPlan),
                Some(ingress) => if !str_eq(ingress, expected) {
                    Err(LifecycleIssue::IngressChangedBeforeRevision)
                } else {
                    Ok(())
                },
            }
        },
    }
}

/// The way a validation or revision of a stored plan proceeds.
#[derive(Clone, Copy, Debug, PartialEq, Eq)]
pub enum TransitionRoute {
    /// The plan was superseded: only a retry of a recorded transition succeeds.
    SupersededRetry,
    /// The plan is applied: stage a reviewed reconciliation successor.
    StageApplied,
    /// The plan is a ready reconciliation successor: restage it against its
    /// applied predecessor.
    RestageReconciliation { applied_predecessor_id: i64 },
    /// Publish an ordinary successor revision; `revises_ready` when the
    /// predecessor is an ordinary ready plan.
    Revise { revises_ready: bool },
}

/// Which transition a validation or revision of `predecessor` takes.
/// `ready_reconciliation_predecessor` is the predecessor named by the stored
/// metadata of a ready plan.
pub open spec fn spec_transition_route(
    predecessor: DecompositionPlanRecord,
    expected_current: Seq<char>,
    has_replacement: bool,
    draft: bool,
    ready_reconciliation_predecessor: Option<i64>,
) -> Result<TransitionRoute, LifecycleIssue> {
    let status = predecessor.status@;
    if status == "superseded"@ {
        Ok(TransitionRoute::SupersededRetry)
    } else if predecessor.current_identity@ != expected_current {
        Err(LifecycleIssue::PlanChanged { current_identity: predecessor.current_identity })
    } else if status == "applied"@ {
        if !has_replacement || draft {
            Err(LifecycleIssue::AppliedRequiresSuccessorDocument)
        } else {
            Ok(TransitionRoute::StageApplied)
        }
    } else {
        let reconciling = if status == "ready"@ {
            ready_reconciliation_predecessor
        } else {
            None
        };
        match reconciling {
            Some(applied) => if !has_replacement || draft {
                Err(LifecycleIssue::ReadySuccessorRequiresReplacement)
            } else if predecessor.predecessor_id != Some(applied) {
                Err(LifecycleIssue::ReadySuccessorWrongPredecessor)
            } else {
                Ok(TransitionRoute::RestageReconciliation { applied_predecessor_id: applied })
            },
            None => {
                let revises_ready = status == "ready"@ && has_replacement;
                if !(status == "draft"@ || status == "incomplete"@) && !revises_ready {
                    Err(LifecycleIssue::NotRevisable)
                } else {
                    Ok(TransitionRoute::Revise { revises_ready })
                }
            },
        }
    }
}

/// Decides the transition a validation or revision of a stored plan takes.
pub fn transition_route(
    predecessor: &DecompositionPlanRecord,
    expected_current: &str,
    has_replacement: bool,
    draft: bool,
    ready_reconciliation_predecessor: Option<i64>,
) -> (res: Result<TransitionRoute, LifecycleIssue>)
    ensures
        res == spec_transition_route(
            *predecessor,
            expected_current@,
            has_replacement,
            draft,
            ready_reconciliation_predecessor,
        ),
{
    let status = predecessor.status.as_str();
    if str_eq(status, "superseded") {
        return Ok(TransitionRoute::SupersededRetry);
    }
    if !str_eq(predecessor.current_identity.as_str(), expected_current) {
        return Err(
            LifecycleIssue::PlanChanged { current_identity: predecessor.current_identity.clone() },
        );
    }
    if str_eq(status, "applied") {
        if !has_replacement || draft {
            return Err(LifecycleIssue::AppliedRequiresSuccessorDocument);
        }
        return Ok(TransitionRoute::StageApplied);
    }
    let is_ready = str_eq(status, "ready");
    let reconciling = if is_ready {
        ready_reconciliation_predecessor
    } else {
        None
    };
    match reconciling {
        Some(applied) => {
            if !has_replacement || draft {
                return Err(LifecycleIssue::ReadySuccessorRequiresReplacement);
            }
            if predecessor.predecessor_id != Some(applied) {
                return Err(LifecycleIssue::ReadySuccessorWrongPredecessor);
            }
            Ok(TransitionRoute::RestageReconciliation { applied_predecessor_id: applied })
        },
        None => {
            let revises_ready = is_ready && has_replacement;
            if !(str_eq(status, "draft") || str_eq(status, "incomplete")) && !revises_ready {
                return Err(LifecycleIssue::NotRevisable);
            }
            Ok(TransitionRoute::Revise { revises_ready })
        },
    }
}

/// Refuses restaging a ready reconciliation successor whose predecessor is
/// no longer applied.
pub fn require_applied_predecessor(status: &str) -> (res: Result<(), LifecycleIssue>)
    ensures
        res is Ok <==> status@ == "applied"@,
        res is Err ==> res == Err::<(), LifecycleIssue>(
            LifecycleIssue::ReadySuccessorPredecessorNotApplied,
        ),
{
    if str_eq(status, "applied") {
        Ok(())
    } else {
        Err(LifecycleIssue::ReadySuccessorPredecessorNotApplied)
    }
}

/// What applying a slot does next, as its key texts.
pub enum ApplyStepView {
    Import { idempotency_key: Seq<char> },
    Revise { plan_id: i64, idempotency_key: Seq<char>, expected_current: Seq<char> },
    Report { plan_id: i64, already_applied: bool },
    Publish { plan_id: i64, observed_handle: Seq<char> },
}

/// What applying a slot does next.
#[derive(Clone, Debug, PartialEq, Eq)]
pub enum ApplyStep {
    /// The slot has no plan: import the plan file under this idempotency key.
    Import { idempotency_key: String },
    /// The current plan is editable: revise it from the plan file.
    Revise { plan_id: i64, idempotency_key: String, expected_current: String },
    /// Report the plan's application without changing anything.
    Report { plan_id: i64, already_applied: bool },
    /// Publish the application of the ready plan whose accepted review
    /// observed this handle.
    Publish { plan_id: i64, observed_handle: String },
}

impl View for ApplyStep {
    type V = ApplyStepView;

    open spec fn view(&self) -> ApplyStepView {
        match self {
            ApplyStep::Import { idempotency_key } => ApplyStepView::Import {
                idempotency_key: idempotency_key@,
            },
            ApplyStep::Revise { plan_id, idempotency_key, expected_current } => ApplyStepView::Revise {
                plan_id: *plan_id,
                idempotency_key: idempotency_key@,
                expected_current: expected_current@,
            },
            ApplyStep::Report { plan_id, already_applied } => ApplyStepView::Report {
                plan_id: *plan_id,
                already_applied: *already_applied,
            },
            ApplyStep::Publish { plan_id, observed_handle } => ApplyStepView::Publish {
                plan_id: *plan_id,
                observed_handle: observed_handle@,
            },
        }
    }
}

pub open spec fn apply_import_key(design_version_id: i64, work_unit_id: i64) -> Seq<char> {
    "apply-import-"@ + decimal(design_version_id as int) + "-"@ + decimal(work_unit_id as int)
}

pub open spec fn apply_revise_key(plan_id: i64, revision: i64) -> Seq<char> {
    "apply-revise-"@ + decimal(plan_id as int) + "-"@ + decimal(revision as int)
}

/// The next step of applying a slot, given its current plan, the review owner
/// of that plan, whether a plan file was named, and the content identity of
/// that file.
pub open spec fn spec_apply_step(
    design_version_id: i64,
    work_unit_id: i64,
    has_plan_path: bool,
    current: Option<DecompositionPlanRecord>,
    review_owner: Option<PlanReviewOwnerResolution>,
    supplied_content: Option<Seq<char>>,
) -> Result<ApplyStepView, LifecycleIssue> {
    match current {
        None => Ok(
            ApplyStepView::Import {
                idempotency_key: apply_import_key(design_version_id, work_unit_id),
            },
        ),
        Some(c) => {
            let status = c.status@;
            if status == "draft"@ || status == "incomplete"@ {
                if !has_plan_path {
                    Ok(ApplyStepView::Report { plan_id: c.id, already_applied: false })
                } else {
                    Ok(
                        ApplyStepView::Revise {
                            plan_id: c.id,
                            idempotency_key: apply_revise_key(c.id, c.revision),
                            expected_current: c.current_identity@,
                        },
                    )
                }
            } else if has_plan_path && supplied_content is Some && supplied_content->0
                != c.content_identity@ {
                Ok(ApplyStepView::Report { plan_id: c.id, already_applied: status == "applied"@ })
            } else if status == "applied"@ {
                Ok(ApplyStepView::Report { plan_id: c.id, already_applied: true })
            } else if status != "ready"@ {
                Ok(ApplyStepView::Report { plan_id: c.id, already_applied: false })
            } else {
                match review_owner {
                    None => Err(LifecycleIssue::NoReviewOwner),
                    Some(o) => if o.state != PlanReviewOwnerState::AcceptedClean {
                        Ok(ApplyStepView::Report { plan_id: c.id, already_applied: false })
                    } else {
                        Ok(
                            ApplyStepView::Publish {
                                plan_id: c.id,
                                observed_handle: o.observed_handle@,
                            },
                        )
                    },
                }
            }
        },
    }
}

pub open spec fn step_view(res: Result<ApplyStep, LifecycleIssue>) -> Result<ApplyStepView, LifecycleIssue> {
    match res {
        Ok(step) => Ok(step@),
        Err(e) => Err(e),
    }
}

/// Decides what applying a slot does next. `resolution` is the slot as
/// resolved now; `supplied_content_identity` is the content identity of the
/// named plan file, read when the current plan is no longer editable.
pub fn apply_step(
    input: &DecompositionApplication,
    resolution: &DecompositionPlanResolution,
    supplied_content_identity: Option<&str>,
) -> (res: Result<ApplyStep, LifecycleIssue>)
    ensures
        step_view(res) == spec_apply_step(
            input.design_version_id,
            input.work_unit_id,
            input.plan_path is Some,
            resolution.current,
            resolution.review_owner,
            match supplied_content_identity {
                Some(s) => Some(s@),
                None => None,
            },
        ),
{
    let current = match &resolution.current {
        None => {
            let key = String::from_str("apply-import-");
            let key = key.concat(i64_decimal(input.design_version_id).as_str());
            let key = key.concat("-");
            let key = key.concat(i64_decimal(input.work_unit_id).as_str());
            return Ok(ApplyStep::Import { idempotency_key: key });
        },
        Some(c) => c,
    };
    let status = current.status.as_str();
    if str_eq(status, "draft") || str_eq(status, "incomplete") {
        if input.plan_path.is_none() {
            return Ok(ApplyStep::Report { plan_id: current.id, already_applied: false });
        }
        let key = String::from_str("apply-revise-");
        let key = key.concat(i64_decimal(current.id).as_str());
        let key = key.concat("-");
        let key = key.concat(i64_decimal(current.revision).as_str());
        return Ok(
            ApplyStep::Revise {
                plan_id: current.id,
                idempotency_key: key,
                expected_current: current.current_identity.clone(),
            },
        );
    }
    let is_applied = str_eq(status, "applied");
    if input.plan_path.is_some() {
        if let Some(supplied) = supplied_content_identity {
            if !str_eq(supplied, current.content_identity.as_str()) {
                return Ok(ApplyStep::Report { plan_id: current.id, already_applied: is_applied });
            }
        }
    }
    if is_applied {
        return Ok(ApplyStep::Report { plan_id: current.id, already_applied: true });
    }
    if !str_eq(status, "ready") {
        return Ok(ApplyStep::Report { plan_id: current.id, already_applied: false });
    }
    match &resolution.review_owner {
        None => Err(LifecycleIssue::NoReviewOwner),
        Some(owner) => match owner.state {
            PlanReviewOwnerState::AcceptedClean => Ok(
                ApplyStep::Publish {
                    plan_id: current.id,
                    observed_handle: owner.observed_handle.clone(),
                },
            ),
            _ => Ok(ApplyStep::Report { plan_id: current.id, already_applied: false }),
        },
    }
}

/// What an application reads of the ledger inside its transaction: the
/// slot's current plan and that plan's status now, the active requirement
/// keys and those the plan covers (both in key order), the item gates
/// without a template and the template gates without an item gate, whether
/// the target already holds decomposition state, the plan's document, the
/// requirement priorities of each of its items, and the (slice, source
/// phase) pairs its reconciliation retains.
pub struct PublicationFacts {
    pub resolved_plan: Option<i64>,
    pub status: String,
    pub active: Vec<String>,
    pub covered: Vec<String>,
    pub invalid_gates: i64,
    pub missing_gates: i64,
    pub occupied: bool,
    pub document: PlanDocument,
    pub priorities: Vec<Vec<String>>,
    pub retained_phases: Vec<(i64, i64)>,
}

/// The facts of an application have one priority list per item, and the
/// plan's counts fit the outcome's integers.
pub open spec fn publishable_facts(f: PublicationFacts) -> bool {
    &&& f.priorities@.len() == f.document.items@.len()
    &&& crate::reconciliation::checklist_total(f.document.items@) < usize::MAX
    &&& crate::reconciliation::checklist_total(f.document.items@) <= i64::MAX
    &&& crate::reconciliation::dependency_total(f.document.slices@) <= usize::MAX
    &&& crate::reconciliation::dependency_total(f.document.slices@) <= i64::MAX
    &&& f.document.items@.len() <= i64::MAX
    &&& f.document.slices@.len() <= i64::MAX
}

/// What applying a slot comes to: a step that changes nothing here (an
/// import or revision to run, or a report), or a published application.
#[derive(Clone, Debug, PartialEq, Eq)]
pub enum ApplyOutcome {
    Step(ApplyStep),
    Published {
        plan_id: i64,
        observed_handle: String,
        rows: crate::publication::Publication,
        outcome: crate::records::DecompositionApplicationOutcome,
    },
}

/// The outcome of publishing plan `plan_id` with document `d`: applied,
/// one task per item, a phase for each slice some item belongs to, and the
/// plan's checklist item and dependency counts.
pub open spec fn applied_outcome(plan_id: i64, d: PlanDocument) -> crate::records::DecompositionApplicationOutcome {
    crate::records::DecompositionApplicationOutcome {
        plan_id,
        task_count: d.items@.len() as i64,
        checklist_item_count: crate::reconciliation::checklist_total(d.items@) as i64,
        phase_count: crate::publication::owned_slice_count(d.slices@, d.items@) as i64,
        dependency_count: crate::reconciliation::dependency_total(d.slices@) as i64,
        already_applied: false,
        applied: true,
    }
}

/// The rows a publication writes for the facts' plan: the plan's checklist,
/// one task per item as `publication_rows` makes it, and the retained
/// phases.
pub open spec fn rows_of(rows: crate::publication::Publication, f: PublicationFacts) -> bool {
    &&& rows.checklist_title@ == "Decomposition "@ + f.document.key@
    &&& rows.phase_predecessors@ == f.retained_phases@
    &&& rows.tasks@.len() == f.document.items@.len()
    &&& forall|k: int|
        0 <= k < f.document.items@.len() ==> crate::publication::published_task(
            #[trigger] rows.tasks@[k],
            f.document.items@[k],
            f.priorities@[k]@,
            crate::reconciliation::checklist_total(f.document.items@.take(k)) + 1,
        )
}

/// What a Publish step comes to once the slot is read again: refused when
/// the slot lost or changed its plan or the plan is not ready; reported as
/// already applied when it was applied meanwhile; refused when the ready
/// graph is not exact, the target is occupied, or the plan cannot be
/// published; otherwise published with its rows and outcome.
pub open spec fn publication_answer(
    plan_id: i64,
    handle: Seq<char>,
    f: PublicationFacts,
    res: Result<ApplyOutcome, LifecycleIssue>,
) -> bool {
    match spec_application_slot(plan_id, f.resolved_plan, f.status@) {
        Err(e) => res == Err::<ApplyOutcome, LifecycleIssue>(e),
        Ok(true) => res == Ok::<ApplyOutcome, LifecycleIssue>(
            ApplyOutcome::Step(ApplyStep::Report { plan_id, already_applied: true }),
        ),
        Ok(false) => match crate::publication::spec_ready_graph(
            crate::order::text_views(f.active@),
            crate::order::text_views(f.covered@),
            f.invalid_gates,
            f.missing_gates,
        ) {
            Err(e) => res == Err::<ApplyOutcome, LifecycleIssue>(LifecycleIssue::Publication(e)),
            Ok(_) => if f.occupied {
                res == Err::<ApplyOutcome, LifecycleIssue>(
                    LifecycleIssue::Publication(crate::publication::PublicationIssue::OwnerOccupied),
                )
            } else {
                match crate::publication::spec_publication(
                    f.document,
                    f.priorities@,
                    f.retained_phases@,
                ) {
                    Err(e) => res == Err::<ApplyOutcome, LifecycleIssue>(
                        LifecycleIssue::Publication(e),
                    ),
                    Ok(_) => res matches Ok(
                        ApplyOutcome::Published { plan_id: p, observed_handle: h, rows, outcome },
                    ) && p == plan_id && h@ == handle && outcome == applied_outcome(plan_id, f.document)
                        && rows_of(rows, f),
                }
            },
        },
    }
}

fn publish_step(plan_id: i64, observed_handle: String, facts: PublicationFacts) -> (res: Result<
    ApplyOutcome,
    LifecycleIssue,
>)
    requires
        publishable_facts(facts),
    ensures
        publication_answer(plan_id, observed_handle@, facts, res),
{
    match check_application_slot(plan_id, facts.resolved_plan, facts.status.as_str()) {
        Err(e) => return Err(e),
        Ok(true) => return Ok(
            ApplyOutcome::Step(ApplyStep::Report { plan_id, already_applied: true }),
        ),
        Ok(false) => {},
    }
    match crate::publication::validate_ready_graph(
        &facts.active,
        &facts.covered,
        facts.invalid_gates,
        facts.missing_gates,
    ) {
        Err(e) => return Err(LifecycleIssue::Publication(e)),
        Ok(()) => {},
    }
    match crate::publication::validate_empty_application_target(facts.occupied) {
        Err(e) => return Err(LifecycleIssue::Publication(e)),
        Ok(()) => {},
    }
    let rows = match crate::publication::publication_rows(
        &facts.document,
        &facts.priorities,
        &facts.retained_phases,
    ) {
        Ok(r) => r,
        Err(e) => return Err(LifecycleIssue::Publication(e)),
    };
    proof {
        crate::publication::lemma_owned_slice_count_bound(facts.document.slices@, facts.document.items@);
    }
    let outcome = crate::publication::published_outcome(plan_id, &rows);
    Ok(ApplyOutcome::Published { plan_id, observed_handle, rows, outcome })
}

/// Applies a slot: decides the step (see `apply_step`); a Publish step
/// publishes inside the transaction whose reads are `facts`, and comes to
/// the outcome of the published plan: applied, with one task per item and
/// the plan's counts. Every other step changes nothing here.
pub fn apply_decomposition_plan(
    input: &DecompositionApplication,
    resolution: &DecompositionPlanResolution,
    supplied_content_identity: Option<&str>,
    facts: PublicationFacts,
) -> (res: Result<ApplyOutcome, LifecycleIssue>)
    requires
        publishable_facts(facts),
    ensures
        match spec_apply_step(
            input.design_version_id,
            input.work_unit_id,
            input.plan_path is Some,
            resolution.current,
            resolution.review_owner,
            match supplied_content_identity {
                Some(s) => Some(s@),
                None => None,
            },
        ) {
            Err(e) => res == Err::<ApplyOutcome, LifecycleIssue>(e),
            Ok(ApplyStepView::Publish { plan_id, observed_handle }) => publication_answer(
                plan_id,
                observed_handle,
                facts,
                res,
            ),
            Ok(v) => res matches Ok(ApplyOutcome::Step(s)) && s@ == v,
        },
{
    match apply_step(input, resolution, supplied_content_identity) {
        Err(e) => Err(e),
        Ok(ApplyStep::Publish { plan_id, observed_handle }) => publish_step(
            plan_id,
            observed_handle,
            facts,
        ),
        Ok(step) => Ok(ApplyOutcome::Step(step)),
    }
}

/// The record of a plan once its application is published: the same plan,
/// now applied.
pub open spec fn applied_record(p: DecompositionPlanRecord, q: DecompositionPlanRecord) -> bool {
    q == (DecompositionPlanRecord { status: q.status, ..p }) && q.status@ == "applied"@
}

/// Marks a published plan's record applied.
pub fn mark_applied(p: DecompositionPlanRecord) -> (q: DecompositionPlanRecord)
    ensures
        applied_record(p, q),
{
    let mut q = p;
    q.status = String::from_str("applied");
    q
}

/// Whether a slot, read again inside the application transaction, still
/// publishes: refused when the slot lost its plan or its current plan changed
/// or is no longer ready; `true` when the plan was applied meanwhile.
pub open spec fn spec_application_slot(
    plan_id: i64,
    resolved: Option<i64>,
    status: Seq<char>,
) -> Result<bool, LifecycleIssue> {
    match resolved {
        None => Err(LifecycleIssue::SlotPlanMissing),
        Some(id) => if id != plan_id {
            Err(LifecycleIssue::OwnerChangedBeforeApplication)
        } else if status == "applied"@ {
            Ok(true)
        } else if status != "ready"@ {
            Err(LifecycleIssue::NotStructurallyReady)
        } else {
            Ok(false)
        },
    }
}

/// Checks the slot again before publishing; `Ok(true)` when the plan is
/// already applied and nothing is published.
pub fn check_application_slot(plan_id: i64, resolved: Option<i64>, status: &str) -> (res: Result<
    bool,
    LifecycleIssue,
>)
    ensures
        res == spec_application_slot(plan_id, resolved, status@),
{
    match resolved {
        None => Err(LifecycleIssue::SlotPlanMissing),
        Some(id) => if id != plan_id {
            Err(LifecycleIssue::OwnerChangedBeforeApplication)
        } else if str_eq(status, "applied") {
            Ok(true)
        } else if !str_eq(status, "ready") {
            Err(LifecycleIssue::NotStructurallyReady)
        } else {
            Ok(false)
        },
    }
}

/// What the ledger holds for a slot: its current plan, the ready successor
/// of an applied current plan and that successor's projection, the plan
/// files found for the slot, the review owner of the plan under review,
/// whether each file's content is that of a superseded plan of the slot, and
/// the pending reconciliation tokens.
pub struct SlotFacts {
    pub current: Option<DecompositionPlanRecord>,
    pub successor: Option<DecompositionPlanRecord>,
    pub successor_projection: Option<crate::records::DecompositionReconciliationProjection>,
    pub candidates: Vec<crate::records::DecompositionPlanCandidate>,
    pub review_owner: Option<PlanReviewOwnerResolution>,
    pub historical: Vec<bool>,
    pub tokens: Vec<crate::actions::ReconciliationToken>,
}

/// The plan whose review a slot reports: the successor when there is one,
/// else the current plan; only a ready or applied one.
pub open spec fn spec_review_plan(
    current: Option<DecompositionPlanRecord>,
    successor: Option<DecompositionPlanRecord>,
) -> Option<DecompositionPlanRecord> {
    let chosen = if successor is Some {
        successor
    } else {
        current
    };
    match chosen {
        Some(p) => if p.status@ == "ready"@ || p.status@ == "applied"@ {
            Some(p)
        } else {
            None
        },
        None => None,
    }
}

/// Whether a slot's review owner is resolved, and for which plan.
pub fn review_plan(current: &Option<DecompositionPlanRecord>, successor: &Option<DecompositionPlanRecord>) -> (r:
    Option<i64>)
    ensures
        match spec_review_plan(*current, *successor) {
            Some(p) => r == Some(p.id),
            None => r is None,
        },
{
    let chosen = match successor {
        Some(p) => Some(p),
        None => match current {
            Some(p) => Some(p),
            None => None,
        },
    };
    match chosen {
        Some(p) => if str_eq(p.status.as_str(), "ready") || str_eq(p.status.as_str(), "applied") {
            Some(p.id)
        } else {
            None
        },
        None => None,
    }
}

/// Whether a slot looks for a ready successor: only after its current plan
/// was applied.
pub fn seeks_successor(current: &Option<DecompositionPlanRecord>) -> (r: bool)
    ensures
        r == (current is Some && current->0.status@ == "applied"@),
{
    match current {
        Some(p) => str_eq(p.status.as_str(), "applied"),
        None => false,
    }
}

/// The plans a slot holds as the ledger keeps them: the current plan is not
/// superseded, and a successor is the ready successor of an applied current
/// plan.
pub open spec fn slot_lineage(
    current: Option<DecompositionPlanRecord>,
    successor: Option<DecompositionPlanRecord>,
) -> bool {
    &&& current matches Some(c) ==> c.status@ != "superseded"@
    &&& successor matches Some(n) ==> (current matches Some(c) && c.status@ == "applied"@
        && n.status@ == "ready"@ && n.predecessor_id == Some(c.id))
}

/// Resolves a slot: refused unless its design version is the exact current
/// approved one and its work is open; otherwise the slot with its next
/// actions.
pub fn resolve_decomposition_plan(
    query: &crate::records::DecompositionPlanQuery,
    approved: Option<bool>,
    work_open: bool,
    slot: SlotFacts,
) -> (res: Result<DecompositionPlanResolution, LifecycleIssue>)
    requires
        slot.historical@.len() == slot.candidates@.len(),
        crate::actions::candidates_ready(slot.candidates@),
        slot_lineage(slot.current, slot.successor),
    ensures
        res matches Ok(r) ==> slot_lineage(r.current, r.successor),
        spec_application_owner(approved, work_open) is Err ==> res == Err::<
            DecompositionPlanResolution,
            LifecycleIssue,
        >(spec_application_owner(approved, work_open)->Err_0),
        spec_application_owner(approved, work_open) is Ok ==> (res matches Ok(r) && r.design_version_id
            == query.design_version_id && r.work_unit_id == query.work_unit_id && r.current
            == slot.current && r.successor == slot.successor && r.successor_projection
            == slot.successor_projection && r.candidates == slot.candidates && r.review_owner == (
        if spec_review_plan(slot.current, slot.successor) is Some {
            slot.review_owner
        } else {
            None
        }) && crate::order::text_views(r.actions@) == crate::actions::spec_decomposition_actions(
            *query,
            slot.current,
            slot.successor,
            slot.candidates@,
            r.review_owner,
            slot.historical@,
            slot.tokens@,
        ).0),
{
    match validate_application_owner(approved, work_open) {
        Err(e) => return Err(e),
        Ok(()) => {},
    }
    let SlotFacts {
        current,
        successor,
        successor_projection,
        candidates,
        review_owner,
        historical,
        tokens,
    } = slot;
    let review_owner = match review_plan(&current, &successor) {
        Some(_) => review_owner,
        None => None,
    };
    let resolution = crate::actions::decomposition_actions(
        query,
        &current,
        &successor,
        &candidates,
        &review_owner,
        &historical,
        &tokens,
    );
    Ok(
        DecompositionPlanResolution {
            design_version_id: query.design_version_id,
            work_unit_id: query.work_unit_id,
            current,
            successor,
            successor_projection,
            candidates,
            review_owner,
            actions: resolution.actions,
        },
    )
}

/// The expected current handle a reconciliation successor staged against
/// an applied plan records: the applied plan's current handle. The
/// successor must carry reconciliation metadata that selects that plan.
pub fn staged_expected_current(
    reconciliation: Option<&crate::document::PlanReconciliation>,
    predecessor: &DecompositionPlanRecord,
) -> (res: Result<String, LifecycleIssue>)
    ensures
        match reconciliation {
            None => res == Err::<String, LifecycleIssue>(LifecycleIssue::SuccessorNeedsReconciliation),
            Some(r) => if r.predecessor != predecessor.id {
                res == Err::<String, LifecycleIssue>(LifecycleIssue::SuccessorWrongPredecessor)
            } else {
                res matches Ok(e) && e@ == predecessor.current_identity@
            },
        },
{
    match reconciliation {
        None => Err(LifecycleIssue::SuccessorNeedsReconciliation),
        Some(r) => if r.predecessor != predecessor.id {
            Err(LifecycleIssue::SuccessorWrongPredecessor)
        } else {
            Ok(predecessor.current_identity.clone())
        },
    }
}

/// A plan already recorded under the successor's revision identity is the
/// same staging only when it is ready and follows the same predecessor.
pub fn check_existing_stage(status: &str, predecessor_id: Option<i64>, predecessor: i64) -> (res:
    Result<(), LifecycleIssue>)
    ensures
        res is Ok <==> (status@ == "ready"@ && predecessor_id == Some(predecessor)),
        res is Err ==> res == Err::<(), LifecycleIssue>(LifecycleIssue::RevisionIdentityTaken),
{
    if !str_eq(status, "ready") || predecessor_id != Some(predecessor) {
        return Err(LifecycleIssue::RevisionIdentityTaken);
    }
    Ok(())
}

/// The revision a staged successor takes: one past the highest revision of
/// the slot's package lineage, or past the predecessor's when it has none.
pub fn next_lineage_revision(highest: Option<i64>, predecessor_revision: i64) -> (r: i64)
    requires
        match highest {
            Some(h) => h < i64::MAX,
            None => predecessor_revision < i64::MAX,
        },
    ensures
        r == match highest {
            Some(h) => h + 1,
            None => predecessor_revision + 1,
        },
{
    match highest {
        Some(h) => h + 1,
        None => predecessor_revision + 1,
    }
}

/// Superseding a plan must change exactly one row; `ready` tells whether the
/// superseded plan is a ready successor being replaced.
pub fn check_superseded(changed: usize, ready: bool) -> (res: Result<(), LifecycleIssue>)
    ensures
        res is Ok <==> changed == 1,
        res is Err && ready ==> res == Err::<(), LifecycleIssue>(
            LifecycleIssue::ReadyChangedBeforeRevision,
        ),
        res is Err && !ready ==> res == Err::<(), LifecycleIssue>(
            LifecycleIssue::ChangedBeforePublication,
        ),
{
    if changed != 1 {
        if ready {
            return Err(LifecycleIssue::ReadyChangedBeforeRevision);
        }
        return Err(LifecycleIssue::ChangedBeforePublication);
    }
    Ok(())
}

/// The refusal of a retried transition of a superseded plan whose payload
/// differs from the recorded successor: it names the plan that owns the
/// slot's actions now and those actions.
pub fn retry_differs(owner: &DecompositionPlanRecord, actions: Vec<String>) -> (r: LifecycleIssue)
    ensures
        r == (LifecycleIssue::RetryDiffers {
            successor: owner.id,
            current: owner.current_identity,
            actions,
        }),
{
    LifecycleIssue::RetryDiffers {
        successor: owner.id,
        current: owner.current_identity.clone(),
        actions,
    }
}

/// The current plan of a superseded plan's package lineage, which a retry
/// that differs from the recorded successor is reported against; it must
/// exist.
pub fn lineage_successor(current_id: Option<i64>) -> (res: Result<i64, LifecycleIssue>)
    ensures
        match current_id {
            Some(id) => res == Ok::<i64, LifecycleIssue>(id),
            None => res == Err::<i64, LifecycleIssue>(LifecycleIssue::NoLineageSuccessor),
        },
{
    match current_id {
        Some(id) => Ok(id),
        None => Err(LifecycleIssue::NoLineageSuccessor),
    }
}

/// A reconciliation successor already registered must be the staged one:
/// ready and following the reconciliation's predecessor.
pub fn check_registered_successor(staged: bool) -> (res: Result<(), LifecycleIssue>)
    ensures
        res is Ok <==> staged,
        res is Err ==> res == Err::<(), LifecycleIssue>(LifecycleIssue::AlreadyRegistered),
{
    if !staged {
        return Err(LifecycleIssue::AlreadyRegistered);
    }
    Ok(())
}

/// Superseding the reconciliation predecessor must change exactly one row.
pub fn check_predecessor_superseded(changed: usize) -> (res: Result<(), LifecycleIssue>)
    ensures
        res is Ok <==> changed == 1,
        res is Err ==> res == Err::<(), LifecycleIssue>(LifecycleIssue::PredecessorChanged),
{
    if changed != 1 {
        return Err(LifecycleIssue::PredecessorChanged);
    }
    Ok(())
}

/// The key a predecessor holds while its successor is installed under the
/// predecessor's own key.
pub fn superseded_plan_key(predecessor_id: i64) -> (r: String)
    ensures
        r@ == "__superseded__"@ + decimal(predecessor_id as int),
{
    String::from_str("__superseded__").concat(i64_decimal(predecessor_id).as_str())
}

/// The ingress identity recorded for a plan must be the one of the bytes
/// just staged: `exact` says whether the stored source and content
/// identities are those given.
pub fn check_ingress_identity(exact: bool) -> (res: Result<(), LifecycleIssue>)
    ensures
        res is Ok <==> exact,
        res is Err ==> res == Err::<(), LifecycleIssue>(LifecycleIssue::IngressIdentityDiffers),
{
    if !exact {
        return Err(LifecycleIssue::IngressIdentityDiffers);
    }
    Ok(())
}

/// What storing an imported or revised plan does: a file already stored
/// under the same source identity is answered as it stands; otherwise the
/// plan is stored for a work with a status, its first issue when it is not
/// valid, its revision, and the predecessor it supersedes (none for an
/// import).
#[derive(Clone, Debug, PartialEq, Eq)]
pub enum StoreStep {
    Existing(i64),
    Store {
        status: &'static str,
        issue: Option<PlanIssue>,
        revision: i64,
        predecessor: Option<i64>,
        work_unit_id: i64,
    },
}

pub open spec fn stored_as(
    step: StoreStep,
    draft: bool,
    document: PlanDocument,
    revision: i64,
    predecessor: Option<i64>,
    work_unit_id: i64,
) -> bool {
    step == StoreStep::Store {
        status: step->status,
        issue: plan_issue(document),
        revision,
        predecessor,
        work_unit_id,
    } && step->status@ == spec_successor_status(draft, plan_issue(document) is None)
}

fn store_step(
    document: &PlanDocument,
    draft: bool,
    revision: i64,
    predecessor: Option<i64>,
    work_unit_id: i64,
) -> (r: StoreStep)
    ensures
        stored_as(r, draft, *document, revision, predecessor, work_unit_id),
{
    let checked = validate_plan(document);
    let issue = match checked {
        Ok(()) => None,
        Err(e) => Some(e),
    };
    StoreStep::Store {
        status: successor_status(draft, issue.is_none()),
        issue,
        revision,
        predecessor,
        work_unit_id,
    }
}

/// What an import is answered once its request checks passed: the document
/// must be there with a valid header and bind to the selected slot
/// (`binding`); a plan already stored from the same source identity
/// (`existing`) is answered as it is; a slot that already has a current plan
/// refuses another; otherwise the plan is stored as revision 1 of the work,
/// without predecessor.
pub open spec fn import_step_answer(
    document: Option<PlanDocument>,
    draft: bool,
    binding: Result<(), LifecycleIssue>,
    existing: Option<i64>,
    current_exists: bool,
    work_unit_id: i64,
    res: Result<StoreStep, LifecycleIssue>,
) -> bool {
    match document {
        None => res == Err::<StoreStep, LifecycleIssue>(LifecycleIssue::MetadataRequiredForImport),
        Some(d) => match header_issue(d) {
            Some(e) => res == Err::<StoreStep, LifecycleIssue>(LifecycleIssue::Plan(e)),
            None => match binding {
                Err(e) => res == Err::<StoreStep, LifecycleIssue>(e),
                Ok(_) => match existing {
                    Some(id) => res == Ok::<StoreStep, LifecycleIssue>(StoreStep::Existing(id)),
                    None => if current_exists {
                        res == Err::<StoreStep, LifecycleIssue>(LifecycleIssue::CurrentPlanExists)
                    } else {
                        res matches Ok(step) && stored_as(step, draft, d, 1, None, work_unit_id)
                    },
                },
            },
        },
    }
}

/// The decision of an import once its request checks passed (see
/// `import_step_answer`).
pub fn import_step(
    document: Option<&PlanDocument>,
    draft: bool,
    binding: Result<(), LifecycleIssue>,
    existing: Option<i64>,
    current_exists: bool,
    work_unit_id: i64,
) -> (res: Result<StoreStep, LifecycleIssue>)
    ensures
        import_step_answer(
            match document {
                Some(d) => Some(*d),
                None => None,
            },
            draft,
            binding,
            existing,
            current_exists,
            work_unit_id,
            res,
        ),
{
    let d = match document {
        None => return Err(LifecycleIssue::MetadataRequiredForImport),
        Some(d) => d,
    };
    match validate_plan_header(d) {
        Err(e) => return Err(LifecycleIssue::Plan(e)),
        Ok(()) => {},
    }
    match binding {
        Err(e) => return Err(e),
        Ok(_) => {},
    }
    if let Some(id) = existing {
        return Ok(StoreStep::Existing(id));
    }
    if current_exists {
        return Err(LifecycleIssue::CurrentPlanExists);
    }
    Ok(store_step(d, draft, 1, None, work_unit_id))
}

/// What the ledger says of an import: the document of the named plan file
/// (none when it has no metadata, or the empty draft for a pathless
/// import), whether it binds to the selected slot, the plan already stored
/// from the same source identity, and whether the slot already has a current
/// plan.
pub struct ImportFacts {
    pub document: Option<PlanDocument>,
    pub binding: Result<(), LifecycleIssue>,
    pub existing: Option<i64>,
    pub current_exists: bool,
}

/// What an import request is answered: its request checks, then
/// `import_step_answer`, where an import without a plan file is a draft.
pub open spec fn import_answer(
    input: DecompositionImport,
    ingress_identity: Option<Seq<char>>,
    f: ImportFacts,
    res: Result<StoreStep, LifecycleIssue>,
) -> bool {
    match spec_import_request(
        input.idempotency_key@,
        input.expected_current@,
        match input.expected_content {
            Some(e) => Some(e@),
            None => None,
        },
        ingress_identity,
    ) {
        Err(e) => res == Err::<StoreStep, LifecycleIssue>(e),
        Ok(_) => import_step_answer(
            f.document,
            input.draft || input.plan_path is None,
            f.binding,
            f.existing,
            f.current_exists,
            input.work_unit_id,
            res,
        ),
    }
}

/// Imports a plan into a slot: checks the request, then stores the plan
/// (or answers the plan already stored from the same source identity, or
/// refuses a second current plan). A plan imported without a plan file is
/// stored as a draft. `ingress_identity` is the source identity of the
/// supplied plan file, when the import names one.
pub fn import_decomposition_plan(
    input: &DecompositionImport,
    ingress_identity: Option<&str>,
    facts: ImportFacts,
) -> (res: Result<StoreStep, LifecycleIssue>)
    ensures
        import_answer(
            *input,
            match ingress_identity {
                Some(e) => Some(e@),
                None => None,
            },
            facts,
            res,
        ),
{
    match import_request(input, ingress_identity) {
        Err(e) => return Err(e),
        Ok(()) => {},
    }
    let draft = input.draft || input.plan_path.is_none();
    match &facts.document {
        Some(d) => import_step(Some(d), draft, facts.binding, facts.existing, facts.current_exists, input.work_unit_id),
        None => import_step(None, draft, facts.binding, facts.existing, facts.current_exists, input.work_unit_id),
    }
}

/// The decision of an ordinary revision once its route is `Revise`: the
/// document must bind to the selected slot (`binding`) and stay in the
/// predecessor's package lineage (`same_package`); a plan already stored
/// from the same source identity is answered as it is; otherwise the
/// successor is stored at the next revision of the predecessor's work and
/// supersedes the predecessor (`predecessor_id` at `predecessor_revision`).
pub fn revision_step(
    document: &PlanDocument,
    draft: bool,
    binding: Result<(), LifecycleIssue>,
    same_package: bool,
    existing: Option<i64>,
    predecessor_id: i64,
    predecessor_revision: i64,
    work_unit_id: i64,
) -> (res: Result<StoreStep, LifecycleIssue>)
    requires
        predecessor_revision < i64::MAX,
    ensures
        match binding {
            Err(e) => res == Err::<StoreStep, LifecycleIssue>(e),
            Ok(_) => if !same_package {
                res == Err::<StoreStep, LifecycleIssue>(LifecycleIssue::OutsidePackageLineage)
            } else {
                match existing {
                    Some(id) => res == Ok::<StoreStep, LifecycleIssue>(StoreStep::Existing(id)),
                    None => res matches Ok(step) && stored_as(
                        step,
                        draft,
                        *document,
                        (predecessor_revision + 1) as i64,
                        Some(predecessor_id),
                        work_unit_id,
                    ),
                }
            },
        },
{
    match binding {
        Err(e) => return Err(e),
        Ok(_) => {},
    }
    if !same_package {
        return Err(LifecycleIssue::OutsidePackageLineage);
    }
    if let Some(id) = existing {
        return Ok(StoreStep::Existing(id));
    }
    Ok(store_step(document, draft, predecessor_revision + 1, Some(predecessor_id), work_unit_id))
}

/// What the ledger says of a validation or revision: the plan it names as
/// stored now, the document the successor would hold (the replacement file's
/// or, for a validation, the plan's own), whether that document binds to the
/// slot and stays in the predecessor's package lineage, the plan already
/// stored under the successor's lifecycle identity, and the applied plan a
/// ready reconciliation successor continues.
pub struct TransitionFacts {
    pub predecessor: DecompositionPlanRecord,
    pub document: PlanDocument,
    pub binding: Result<(), LifecycleIssue>,
    pub same_package: bool,
    pub existing: Option<i64>,
    pub ready_reconciliation_predecessor: Option<i64>,
}

/// Where a validation or revision leads: a route continued elsewhere (the
/// retry of a superseded plan, staging an applied plan's successor,
/// restaging a ready reconciliation successor), or a revision: the successor
/// to store (or the one already stored) and the predecessor's record once
/// superseded (none when the successor was already stored).
#[derive(Clone, Debug, PartialEq, Eq)]
pub enum TransitionStep {
    Route(TransitionRoute),
    Revision { successor: StoreStep, superseded: Option<DecompositionPlanRecord> },
}

/// The predecessor's record once superseded: the same record, with only its
/// status changed.
pub open spec fn superseded_record(p: DecompositionPlanRecord, q: DecompositionPlanRecord) -> bool {
    q == (DecompositionPlanRecord { status: q.status, ..p }) && q.status@ == "superseded"@
}

/// What a validation or revision request is answered: its key and handle
/// checks, the successor document's header, then its route; an ordinary revision stores the successor at the
/// next revision with the predecessor as its predecessor, and supersedes the
/// predecessor, changing nothing else of it.
pub open spec fn transition_answer(
    idempotency_key: Seq<char>,
    expected_current: Seq<char>,
    has_replacement: bool,
    draft: bool,
    f: TransitionFacts,
    res: Result<TransitionStep, LifecycleIssue>,
) -> bool {
    match spec_revision_request(idempotency_key, expected_current) {
        Err(e) => res == Err::<TransitionStep, LifecycleIssue>(e),
        Ok(_) => if header_issue(f.document) is Some {
            res == Err::<TransitionStep, LifecycleIssue>(
                LifecycleIssue::Plan(header_issue(f.document)->0),
            )
        } else { match spec_transition_route(
            f.predecessor,
            expected_current,
            has_replacement,
            draft,
            f.ready_reconciliation_predecessor,
        ) {
            Err(e) => res == Err::<TransitionStep, LifecycleIssue>(e),
            Ok(TransitionRoute::Revise { .. }) => match f.binding {
                Err(e) => res == Err::<TransitionStep, LifecycleIssue>(e),
                Ok(_) => if !f.same_package {
                    res == Err::<TransitionStep, LifecycleIssue>(
                        LifecycleIssue::OutsidePackageLineage,
                    )
                } else {
                    match f.existing {
                        Some(id) => res == Ok::<TransitionStep, LifecycleIssue>(
                            TransitionStep::Revision {
                                successor: StoreStep::Existing(id),
                                superseded: None,
                            },
                        ),
                        None => res matches Ok(
                            TransitionStep::Revision { successor, superseded: Some(q) },
                        ) && stored_as(
                            successor,
                            draft,
                            f.document,
                            (f.predecessor.revision + 1) as i64,
                            Some(f.predecessor.id),
                            f.predecessor.work_unit_id,
                        ) && superseded_record(f.predecessor, q),
                    }
                },
            },
            Ok(route) => res == Ok::<TransitionStep, LifecycleIssue>(TransitionStep::Route(route)),
        } },
    }
}

fn transition(
    idempotency_key: &str,
    expected_current: &str,
    has_replacement: bool,
    draft: bool,
    facts: TransitionFacts,
) -> (res: Result<TransitionStep, LifecycleIssue>)
    requires
        facts.predecessor.revision < i64::MAX,
    ensures
        transition_answer(
            idempotency_key@,
            expected_current@,
            has_replacement,
            draft,
            facts,
            res,
        ),
{
    match revision_request(idempotency_key, expected_current) {
        Err(e) => return Err(e),
        Ok(()) => {},
    }
    match validate_plan_header(&facts.document) {
        Err(e) => return Err(LifecycleIssue::Plan(e)),
        Ok(()) => {},
    }
    let route = match transition_route(
        &facts.predecessor,
        expected_current,
        has_replacement,
        draft,
        facts.ready_reconciliation_predecessor,
    ) {
        Err(e) => return Err(e),
        Ok(r) => r,
    };
    match route {
        TransitionRoute::Revise { .. } => {
            let step = match revision_step(
                &facts.document,
                draft,
                facts.binding,
                facts.same_package,
                facts.existing,
                facts.predecessor.id,
                facts.predecessor.revision,
                facts.predecessor.work_unit_id,
            ) {
                Err(e) => return Err(e),
                Ok(s) => s,
            };
            match step {
                StoreStep::Existing(id) => Ok(
                    TransitionStep::Revision { successor: StoreStep::Existing(id), superseded: None },
                ),
                StoreStep::Store { .. } => {
                    let mut q = facts.predecessor;
                    q.status = String::from_str("superseded");
                    Ok(TransitionStep::Revision { successor: step, superseded: Some(q) })
                },
            }
        },
        other => Ok(TransitionStep::Route(other)),
    }
}

/// Validates a stored plan: the key and handle checks, then its route. A
/// draft or incomplete plan gets a successor at the next revision, ready
/// when its document is valid and incomplete otherwise, and is superseded;
/// a ready or applied plan is refused (it needs a replacement document).
pub fn validate_decomposition_plan(input: &DecompositionValidate, facts: TransitionFacts) -> (res:
    Result<TransitionStep, LifecycleIssue>)
    requires
        facts.predecessor.revision < i64::MAX,
    ensures
        transition_answer(input.idempotency_key@, input.expected_current@, false, false, facts, res),
{
    transition(input.idempotency_key, input.expected_current, false, false, facts)
}

/// Revises a stored plan from a plan file: the key and handle checks, then
/// its route. An ordinary revision stores the successor at the next
/// revision, with the plan as its predecessor, and supersedes the plan,
/// whose record otherwise stays as it was.
pub fn revise_decomposition_plan(input: &DecompositionRevise, facts: TransitionFacts) -> (res: Result<
    TransitionStep,
    LifecycleIssue,
>)
    requires
        facts.predecessor.revision < i64::MAX,
    ensures
        transition_answer(
            input.idempotency_key@,
            input.expected_current@,
            true,
            input.draft,
            facts,
            res,
        ),
{
    transition(input.idempotency_key, input.expected_current, true, input.draft, facts)
}

} // verus!
