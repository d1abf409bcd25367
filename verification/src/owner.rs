//! The decomposition owner of a work: the one package lineage whose current
//! plan of the work decides the work's next actions.

use vstd::prelude::*;

use crate::actions::DecompositionActionResolution;
use crate::records::DecompositionPlanRecord;

verus! {

/// Why the decomposition owner of a work cannot be resolved.
#[derive(Clone, Copy, Debug, PartialEq, Eq)]
pub enum OwnerIssue {
    MultipleLineages,
    NoLegalAction,
}

pub open spec fn owner_issue_text(i: OwnerIssue) -> Seq<char> {
    match i {
        OwnerIssue::MultipleLineages => "work has current Decomposition Plans in multiple package lineages"@,
        OwnerIssue::NoLegalAction => "Decomposition Plan resolver returned no legal action"@,
    }
}

impl OwnerIssue {
    pub fn message(&self) -> (res: &'static str)
        ensures
            res@ == owner_issue_text(*self),
    {
        match self {
            OwnerIssue::MultipleLineages => "work has current Decomposition Plans in multiple package lineages",
            OwnerIssue::NoLegalAction => "Decomposition Plan resolver returned no legal action",
        }
    }
}

/// The decomposition owner of a work: its current plan, the plan's status
/// and binding issue, and the actions the plan's slot offers.
#[derive(Clone, Debug, PartialEq, Eq)]
pub struct DecompositionOwnerResolution {
    pub plan_id: i64,
    pub status: String,
    pub issue: Option<String>,
    pub actions: Vec<String>,
    pub blocks_work: bool,
}

/// The design version whose package lineage owns a work's decomposition,
/// from the current design versions of the packages that hold a
/// non-superseded plan of the work: none without such a package, refused
/// with several.
pub fn owner_design_version(designs: &Vec<i64>) -> (res: Result<Option<i64>, OwnerIssue>)
    ensures
        designs@.len() == 0 ==> res == Ok::<Option<i64>, OwnerIssue>(None),
        designs@.len() == 1 ==> res == Ok::<Option<i64>, OwnerIssue>(Some(designs@[0])),
        designs@.len() > 1 ==> res == Err::<Option<i64>, OwnerIssue>(OwnerIssue::MultipleLineages),
{
    if designs.len() == 0 {
        Ok(None)
    } else if designs.len() == 1 {
        Ok(Some(designs[0]))
    } else {
        Err(OwnerIssue::MultipleLineages)
    }
}

/// The owner a work's current plan makes, with the actions its slot
/// resolved to; refused when the slot offers no action.
pub fn owner_resolution(plan: DecompositionPlanRecord, resolution: DecompositionActionResolution) -> (res:
    Result<DecompositionOwnerResolution, OwnerIssue>)
    ensures
        res is Err <==> resolution.actions@.len() == 0,
        res is Err ==> res == Err::<DecompositionOwnerResolution, OwnerIssue>(OwnerIssue::NoLegalAction),
        res matches Ok(r) ==> {
            &&& r.plan_id == plan.id
            &&& r.status == plan.status
            &&& r.issue == plan.issue
            &&& r.actions == resolution.actions
            &&& r.blocks_work == resolution.blocks_work
        },
{
    if resolution.actions.len() == 0 {
        return Err(OwnerIssue::NoLegalAction);
    }
    Ok(
        DecompositionOwnerResolution {
            plan_id: plan.id,
            status: plan.status,
            issue: plan.issue,
            actions: resolution.actions,
            blocks_work: resolution.blocks_work,
        },
    )
}

} // verus!
