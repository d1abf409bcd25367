use agent_workbench::actions::DecompositionActionResolution;
use agent_workbench::document::ReconciliationEffect;
use agent_workbench::owner::{owner_design_version, owner_resolution, OwnerIssue};
use agent_workbench::publication::{retained_task_targets, PublicationIssue};
use agent_workbench::records::DecompositionPlanRecord;

fn s(v: &str) -> String {
    v.to_string()
}

fn plan(status: &str, issue: Option<&str>) -> DecompositionPlanRecord {
    DecompositionPlanRecord {
        id: 12,
        design_version_id: 4,
        work_unit_id: 9,
        key: s("plan-a"),
        revision: 1,
        current_identity: s("c"),
        status: s(status),
        predecessor_id: None,
        source_path: None,
        content_identity: s("d"),
        document_content: s("# Decomposition Plan\n"),
        issue: issue.map(s),
        items: Vec::new(),
        slices: Vec::new(),
        gaps: Vec::new(),
        mappings: Vec::new(),
        shared_bindings: Vec::new(),
    }
}

#[test]
fn owner_lineage_must_be_unique() {
    assert_eq!(owner_design_version(&Vec::new()), Ok(None));
    assert_eq!(owner_design_version(&vec![4]), Ok(Some(4)));
    assert_eq!(owner_design_version(&vec![4, 5]), Err(OwnerIssue::MultipleLineages));
    assert_eq!(
        OwnerIssue::MultipleLineages.message(),
        "work has current Decomposition Plans in multiple package lineages"
    );
}

#[test]
fn owner_needs_a_legal_action() {
    let actions = DecompositionActionResolution { actions: vec![s("agent-workbench decomposition apply")], blocks_work: true };
    let owner = owner_resolution(plan("ready", Some("needs review")), actions).unwrap();
    assert_eq!(owner.plan_id, 12);
    assert_eq!(owner.status, "ready");
    assert_eq!(owner.issue, Some(s("needs review")));
    assert_eq!(owner.actions, vec![s("agent-workbench decomposition apply")]);
    assert!(owner.blocks_work);
    let none = DecompositionActionResolution { actions: Vec::new(), blocks_work: false };
    assert_eq!(owner_resolution(plan("applied", None), none), Err(OwnerIssue::NoLegalAction));
    assert_eq!(OwnerIssue::NoLegalAction.message(), "Decomposition Plan resolver returned no legal action");
}

#[test]
fn retained_tasks_continue_into_distinct_items() {
    let rows = vec![(1, 10, ReconciliationEffect::Preserve), (2, 11, ReconciliationEffect::Open)];
    assert_eq!(retained_task_targets(&rows), Ok(rows.clone()));
    let collapsed = vec![(1, 10, ReconciliationEffect::Preserve), (1, 11, ReconciliationEffect::Open)];
    assert_eq!(retained_task_targets(&collapsed), Err(PublicationIssue::TasksCollapse));
    assert_eq!(
        PublicationIssue::TasksCollapse.message(),
        "multiple retained task identities require an explicit merge decision"
    );
}
