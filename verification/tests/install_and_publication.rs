use agent_workbench::document::{
    PlanChecklistBoundary, PlanCompletion, PlanDocument, PlanItem, PlanSlice,
};
use agent_workbench::install::{
    decomposition_gaps, install_status, installed_plan_key, item_gate_keys, work_candidate,
    WorkCandidate,
};
use agent_workbench::publication::{
    check_retired_aliases, check_retired_identity, check_retired_revision, checklist_title,
    first_checklist_item, item_priority, phase_predecessors, phase_storage_key, publication_rows, published_outcome,
    validate_empty_application_target, validate_preserve_effects, validate_ready_graph,
    PublicationIssue,
};

fn s(v: &str) -> String {
    v.to_string()
}

fn item(owner: &str, gates: &[&str], boundary_gates: &[&[&str]]) -> PlanItem {
    PlanItem {
        key: s("item"),
        requirements: vec![s("REQ-1")],
        title: s("t"),
        details: s("d"),
        completion: PlanCompletion {
            outcome: s("o"),
            observation: s("ob"),
            evidence_owner: s(owner),
            evidence_kind: s("test"),
            gates: gates.iter().map(|g| s(g)).collect(),
        },
        checklist: boundary_gates
            .iter()
            .enumerate()
            .map(|(i, gs)| PlanChecklistBoundary {
                key: format!("b{}", i),
                condition: s("c"),
                evidence_kind: s("test"),
                gates: gs.iter().map(|g| s(g)).collect(),
            })
            .collect(),
        slice: s("s1"),
    }
}

fn plan(work: Option<i64>, owners: &[&str]) -> PlanDocument {
    PlanDocument {
        record_type: s("decomposition_plan"),
        format: 1,
        key: s("plan-a"),
        design_fingerprint: std::iter::repeat('a').take(64).collect(),
        work,
        items: owners.iter().map(|o| item(o, &[], &[])).collect(),
        slices: vec![PlanSlice { key: s("s1"), title: s("one"), order: 1, depends_on: Vec::new() }],
        reconciliation: None,
    }
}

#[test]
fn install_status_names_what_is_missing() {
    assert_eq!(
        install_status(false, Some(1), false),
        ("incomplete", Some("formal decomposition plan metadata is required"))
    );
    assert_eq!(
        install_status(true, None, false),
        ("incomplete", Some("one exact work owner must be selected before application"))
    );
    assert_eq!(
        install_status(true, Some(1), true),
        ("incomplete", Some("existing decomposition requires an explicit total item mapping"))
    );
    assert_eq!(install_status(true, Some(1), false), ("ready", None));
}

#[test]
fn installed_key_falls_back_to_the_source_identity() {
    assert_eq!(installed_plan_key(Some("plan-a"), "0123456789abcdef"), "plan-a");
    assert_eq!(
        installed_plan_key(None, "0123456789abcdef0123"),
        "legacy-document-0123456789ab"
    );
}

#[test]
fn item_gates_are_sorted_and_unique() {
    let i = item("agent", &["unit", "lint"], &[&["unit"], &["e2e", "lint"]]);
    assert_eq!(item_gate_keys(&i), vec![s("e2e"), s("lint"), s("unit")]);
    assert_eq!(item_gate_keys(&item("agent", &[], &[])), Vec::<String>::new());
}

#[test]
fn work_candidate_comes_from_the_document_or_the_owners() {
    assert!(matches!(work_candidate(&plan(Some(7), &["agent"])), WorkCandidate::Check(7)));
    assert!(matches!(work_candidate(&plan(Some(0), &["work:3"])), WorkCandidate::Unbound));
    assert!(matches!(work_candidate(&plan(None, &["work:3", "work:3"])), WorkCandidate::Check(3)));
    assert!(matches!(work_candidate(&plan(None, &["work:3", "work:4"])), WorkCandidate::Unbound));
    assert!(matches!(work_candidate(&plan(None, &["agent"])), WorkCandidate::Unbound));
    assert!(matches!(work_candidate(&plan(None, &["work:x"])), WorkCandidate::Unbound));
    assert!(matches!(work_candidate(&plan(None, &[])), WorkCandidate::Unbound));
}

#[test]
fn incomplete_plans_report_gaps() {
    let gaps = decomposition_gaps(
        "incomplete",
        &vec![s("1")],
        &vec![s("2")],
        &vec![s("3")],
        &vec![s("4")],
        &vec![s("5")],
    );
    let seen: Vec<(String, String)> = gaps.into_iter().map(|g| (g.endpoint, g.issue)).collect();
    assert_eq!(
        seen,
        vec![
            (s("task:1"), s("explicit item mapping required")),
            (s("checklist-item:2"), s("explicit checklist-boundary mapping required")),
            (s("validation-gate:3"), s("explicit item-gate mapping required")),
            (s("phase:4"), s("explicit slice mapping required")),
            (s("phase-dependency:5"), s("explicit slice-dependency mapping required")),
        ]
    );
    assert!(decomposition_gaps("ready", &vec![s("1")], &Vec::new(), &Vec::new(), &Vec::new(), &Vec::new()).is_empty());
}

#[test]
fn application_target_must_be_empty() {
    assert_eq!(validate_empty_application_target(false), Ok(()));
    let err = validate_empty_application_target(true).unwrap_err();
    assert_eq!(err, PublicationIssue::OwnerOccupied);
    assert_eq!(
        err.message(),
        "the selected owner has existing decomposition state; reconcile it explicitly"
    );
}

#[test]
fn ready_graph_covers_exactly_the_requirements() {
    let active = vec![s("REQ-1"), s("REQ-2")];
    assert_eq!(validate_ready_graph(&active, &active.clone(), 0, 0), Ok(()));
    assert_eq!(
        validate_ready_graph(&active, &vec![s("REQ-1")], 0, 0),
        Err(PublicationIssue::RequirementsNotCovered)
    );
    assert_eq!(
        validate_ready_graph(&Vec::new(), &Vec::new(), 0, 0),
        Err(PublicationIssue::RequirementsNotCovered)
    );
    assert_eq!(
        validate_ready_graph(&active, &active.clone(), 1, 0),
        Err(PublicationIssue::GateCoverageNotExact)
    );
}

#[test]
fn phases_cannot_collapse() {
    assert_eq!(phase_predecessors(&vec![(1, 10), (2, 11)]), Ok(vec![(1, 10), (2, 11)]));
    assert_eq!(
        phase_predecessors(&vec![(1, 10), (1, 11)]),
        Err(PublicationIssue::PhasesCollapse)
    );
}

#[test]
fn phase_key_is_renamed_when_taken() {
    assert_eq!(phase_storage_key("s1", false, 4, 8), "s1");
    assert_eq!(phase_storage_key("s1", true, 4, 8), "successor-plan-4-slice-8");
}

#[test]
fn task_priority_is_the_highest_requirement_priority() {
    assert_eq!(item_priority(&vec![s("low"), s("high"), s("medium")]), Ok(s("high")));
    assert_eq!(item_priority(&vec![s("critical"), s("high")]), Ok(s("critical")));
    assert_eq!(item_priority(&vec![s("unknown"), s("low")]), Ok(s("low")));
    assert_eq!(item_priority(&vec![s("medium")]), Ok(s("medium")));
    assert_eq!(item_priority(&Vec::new()), Err(PublicationIssue::NoRequirement));
}

#[test]
fn checklist_title_and_first_item() {
    assert_eq!(checklist_title("plan-a"), "Decomposition plan-a");
    assert_eq!(first_checklist_item(Some(3)), Ok(3));
    assert_eq!(first_checklist_item(None), Err(PublicationIssue::NoChecklistBoundary));
}

#[test]
fn preserved_effects_must_be_unchanged() {
    assert_eq!(validate_preserve_effects(0, 0, 0, 0), Ok(()));
    assert_eq!(validate_preserve_effects(1, 1, 0, 0), Err(PublicationIssue::PreserveChecklistDiffers));
    assert_eq!(validate_preserve_effects(0, 2, 0, 0), Err(PublicationIssue::PreserveGateDiffers));
    assert_eq!(validate_preserve_effects(0, 0, 1, 1), Err(PublicationIssue::PreservePhaseDiffers));
    let err = validate_preserve_effects(0, 0, 0, 3).unwrap_err();
    assert_eq!(
        err.message(),
        "preserve dependency effect requires current successor endpoints and qualifying evidence"
    );
}

#[test]
fn retired_task_identities_are_checked() {
    assert_eq!(check_retired_aliases(2, 2), Ok(()));
    assert_eq!(check_retired_aliases(1, 2), Err(PublicationIssue::RetiredAliasMissing));
    assert_eq!(check_retired_identity(false), Ok(()));
    assert_eq!(check_retired_identity(true), Err(PublicationIssue::RetiredIdentityRetained));
    assert_eq!(check_retired_revision(1, 1), Ok(()));
    assert_eq!(check_retired_revision(1, 0), Err(PublicationIssue::RetiredRevisionMissing));
}

fn publishable_plan() -> PlanDocument {
    let mut p = plan(Some(7), &["task", "task"]);
    p.items[0].key = s("first");
    p.items[0].checklist = item("task", &[], &[&[], &[]]).checklist;
    p.items[1].key = s("second");
    p.items[1].checklist = item("task", &[], &[&[]]).checklist;
    p.slices.push(PlanSlice { key: s("s2"), title: s("two"), order: 2, depends_on: vec![s("s1")] });
    p
}

#[test]
fn publication_rows_give_one_task_per_item_and_the_counts() {
    let p = publishable_plan();
    let priorities = vec![vec![s("low"), s("critical"), s("high")], vec![s("medium")]];
    let rows = publication_rows(&p, &priorities, &vec![(3, 11)]).unwrap();
    assert_eq!(rows.checklist_title, "Decomposition plan-a");
    assert_eq!(rows.tasks.len(), 2);
    assert_eq!(rows.tasks[0].item, "first");
    assert_eq!(rows.tasks[0].priority, "critical");
    assert_eq!(rows.tasks[0].first_checklist_order, 1);
    assert_eq!(rows.tasks[0].checklist_items, 2);
    assert_eq!(rows.tasks[1].item, "second");
    assert_eq!(rows.tasks[1].priority, "medium");
    assert_eq!(rows.tasks[1].first_checklist_order, 3);
    assert_eq!(rows.tasks[1].outcome, "o");
    assert_eq!(rows.checklist_item_count, 3);
    assert_eq!(rows.phase_count, 1);
    assert_eq!(rows.dependency_count, 1);
    assert_eq!(rows.phase_predecessors, vec![(3, 11)]);
    let outcome = published_outcome(12, &rows);
    assert_eq!(outcome.plan_id, 12);
    assert_eq!(outcome.task_count, 2);
    assert_eq!(outcome.checklist_item_count, 3);
    assert_eq!(outcome.phase_count, 1);
    assert_eq!(outcome.dependency_count, 1);
    assert!(outcome.applied && !outcome.already_applied);
}

#[test]
fn publication_rows_refuse_collapsing_phases_before_items() {
    let mut p = publishable_plan();
    p.items[0].checklist.clear();
    let priorities = vec![vec![], vec![s("medium")]];
    assert_eq!(
        publication_rows(&p, &priorities, &vec![(3, 11), (3, 12)]),
        Err(PublicationIssue::PhasesCollapse)
    );
    assert_eq!(publication_rows(&p, &priorities, &vec![]), Err(PublicationIssue::NoRequirement));
    let priorities = vec![vec![s("low")], vec![s("medium")]];
    assert_eq!(
        publication_rows(&p, &priorities, &vec![]),
        Err(PublicationIssue::NoChecklistBoundary)
    );
}
