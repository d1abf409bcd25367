//! What enters the lifecycle from a plan file: whether its document names
//! the selected design and work, and the empty draft a pathless import
//! starts from.

use vstd::prelude::*;

use crate::document::PlanDocument;
use crate::lifecycle::LifecycleIssue;
use crate::text::{decimal, i64_decimal};

verus! {

/// A plan file's document must exist and name the selected design version
/// and work (a document with no items may name no work), and the file must
/// lie in the selected design's package.
pub open spec fn spec_document_binding(
    has_document: bool,
    resolved_design: i64,
    design_version_id: i64,
    resolved_work: Option<i64>,
    work_unit_id: i64,
    has_items: bool,
    in_package: bool,
) -> Result<(), LifecycleIssue> {
    if !has_document {
        Err(LifecycleIssue::MetadataRequired)
    } else if resolved_design != design_version_id || (resolved_work is Some && resolved_work->0
        != work_unit_id) || (resolved_work is None && has_items) {
        Err(LifecycleIssue::OwnerMismatch)
    } else if !in_package {
        Err(LifecycleIssue::PackageMismatch)
    } else {
        Ok(())
    }
}

/// Checks that a plan file belongs to the selected slot. `resolved_design`
/// is the design version its fingerprint names, `resolved_work` the open
/// work it binds, `has_items` whether its document has items, and
/// `in_package` whether the file lies in the selected design's package.
pub fn validate_document_binding(
    has_document: bool,
    resolved_design: i64,
    design_version_id: i64,
    resolved_work: Option<i64>,
    work_unit_id: i64,
    has_items: bool,
    in_package: bool,
) -> (res: Result<(), LifecycleIssue>)
    ensures
        res == spec_document_binding(
            has_document,
            resolved_design,
            design_version_id,
            resolved_work,
            work_unit_id,
            has_items,
            in_package,
        ),
{
    if !has_document {
        return Err(LifecycleIssue::MetadataRequired);
    }
    let work_differs = match resolved_work {
        Some(w) => w != work_unit_id,
        None => has_items,
    };
    if resolved_design != design_version_id || work_differs {
        return Err(LifecycleIssue::OwnerMismatch);
    }
    if !in_package {
        return Err(LifecycleIssue::PackageMismatch);
    }
    Ok(())
}

/// The document a pathless import starts from: an empty draft plan of the
/// work, for the design with this fingerprint.
pub fn empty_draft_document(work_unit_id: i64, design_fingerprint: String) -> (p: PlanDocument)
    ensures
        p.record_type@ == "decomposition_plan"@,
        p.format == 1,
        p.key@ == "work-"@ + decimal(work_unit_id as int) + "-plan"@,
        p.design_fingerprint@ == design_fingerprint@,
        p.work == Some(work_unit_id),
        p.items@.len() == 0,
        p.slices@.len() == 0,
        p.reconciliation is None,
{
    PlanDocument {
        record_type: String::from_str("decomposition_plan"),
        format: 1,
        key: String::from_str("work-").concat(i64_decimal(work_unit_id).as_str()).concat("-plan"),
        design_fingerprint,
        work: Some(work_unit_id),
        items: Vec::new(),
        slices: Vec::new(),
        reconciliation: None,
    }
}

} // verus!
