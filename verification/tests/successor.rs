use agent_workbench::document::{
    ChecklistReconciliation, DependencyReconciliation, GateReconciliation, PhaseReconciliation,
    PlanChecklistBoundary, PlanCompletion, PlanDocument, PlanItem, PlanReconciliation, PlanSlice,
    TaskReconciliation,
};
use agent_workbench::issue::{Field, PlanIssue};
use agent_workbench::reconciliation::ReconciliationIssue;
use agent_workbench::successor::{
    check_item_gate_coverage, check_requirement_coverage, resolve_gate_boundary_identity,
    validate_reconciliation_successor, DependencySourceFacts, GateMeaning, GateSourceFacts,
    PhaseSourceFacts, RequirementGates, RequirementRef, SuccessorFacts, TaskSourceFacts,
};

fn s(v: &str) -> String {
    v.to_string()
}

fn digest(c: char) -> String {
    std::iter::repeat(c).take(64).collect()
}

fn item(key: &str, requirements: &[&str], gates: &[&str]) -> PlanItem {
    PlanItem {
        key: s(key),
        requirements: requirements.iter().map(|r| s(r)).collect(),
        title: s("t"),
        details: s("d"),
        completion: PlanCompletion {
            outcome: s("o"),
            observation: s("ob"),
            evidence_owner: s("agent"),
            evidence_kind: s("test"),
            gates: gates.iter().map(|g| s(g)).collect(),
        },
        checklist: vec![PlanChecklistBoundary {
            key: s("b"),
            condition: s("c"),
            evidence_kind: s("test"),
            gates: Vec::new(),
        }],
        slice: s("s1"),
    }
}

fn successor(items: Vec<PlanItem>, tasks: Vec<TaskReconciliation>) -> PlanDocument {
    PlanDocument {
        record_type: s("decomposition_plan"),
        format: 1,
        key: s("plan-b"),
        design_fingerprint: digest('a'),
        work: Some(9),
        items,
        slices: vec![PlanSlice { key: s("s1"), title: s("one"), order: 1, depends_on: Vec::new() }],
        reconciliation: Some(PlanReconciliation {
            predecessor: 20,
            expected_current: digest('c'),
            tasks,
            checklist: Vec::new(),
            gates: Vec::new(),
            phases: Vec::new(),
            dependencies: Vec::new(),
        }),
    }
}

fn facts(active: &[&str], gates: &[(&str, &[&str])], tasks: usize) -> SuccessorFacts {
    SuccessorFacts {
        active_requirements: active
            .iter()
            .map(|k| RequirementRef { key: s(k), hash: digest('h') })
            .collect(),
        requirement_gates: gates
            .iter()
            .map(|(r, gs)| RequirementGates { requirement: s(r), gates: gs.iter().map(|g| s(g)).collect() })
            .collect(),
        tasks: vec![None; tasks],
        checklist: Vec::new(),
        gates: Vec::new(),
        phases: Vec::new(),
        dependencies: Vec::new(),
    }
}

fn retired_task(source: i64) -> TaskReconciliation {
    TaskReconciliation {
        source,
        disposition: s("retired"),
        item: None,
        reason: Some(s("gone")),
        effect: None,
    }
}

fn opened_task(source: i64, item: &str) -> TaskReconciliation {
    TaskReconciliation {
        source,
        disposition: s("retained"),
        item: Some(s(item)),
        reason: None,
        effect: Some(agent_workbench::document::ReconciliationEffect::Open),
    }
}

#[test]
fn requirement_coverage_must_be_exact() {
    let p = successor(vec![item("i1", &["REQ-1"], &[]), item("i2", &["REQ-2"], &[])], Vec::new());
    assert!(check_requirement_coverage(&p, &facts(&["REQ-1", "REQ-2"], &[], 0)));
    assert!(!check_requirement_coverage(&p, &facts(&["REQ-1"], &[], 0)));
    assert!(!check_requirement_coverage(&p, &facts(&["REQ-1", "REQ-2", "REQ-3"], &[], 0)));
    assert!(!check_requirement_coverage(&p, &facts(&[], &[], 0)));
}

#[test]
fn item_gates_must_match_their_requirements() {
    let f = facts(&["REQ-1"], &[("REQ-1", &["unit", "lint"])], 0);
    assert_eq!(check_item_gate_coverage(&f, &item("i1", &["REQ-1"], &["lint", "unit"])), Ok(()));
    let err = check_item_gate_coverage(&f, &item("i1", &["REQ-1"], &["unit", "e2e", "unit"])).unwrap_err();
    assert_eq!(
        err,
        ReconciliationIssue::GateCoverageDiffers {
            item: s("i1"),
            expected: vec![s("lint"), s("unit")],
            declared: vec![s("e2e"), s("unit")],
        }
    );
    assert_eq!(
        err.message(),
        "Decomposition Plan item 'i1' gate coverage differs: expected [lint,unit], declared [e2e,unit]"
    );
}

#[test]
fn valid_successor_is_accepted() {
    let p = successor(
        vec![item("i1", &["REQ-1"], &["unit"])],
        vec![retired_task(3), opened_task(4, "i1")],
    );
    let f = facts(&["REQ-1"], &[("REQ-1", &["unit"])], 2);
    assert_eq!(validate_reconciliation_successor(&p, &f), Ok(()));
}

#[test]
fn successor_without_reconciliation_is_refused() {
    let mut p = successor(vec![item("i1", &["REQ-1"], &[])], Vec::new());
    p.reconciliation = None;
    let err = validate_reconciliation_successor(&p, &facts(&["REQ-1"], &[], 0)).unwrap_err();
    assert_eq!(err, ReconciliationIssue::ReconciliationRequired);
    assert_eq!(err.message(), "Decomposition Plan reconciliation metadata is required");
}

#[test]
fn successor_must_cover_the_requirements() {
    let p = successor(vec![item("i1", &["REQ-1"], &[])], Vec::new());
    let err = validate_reconciliation_successor(&p, &facts(&["REQ-1", "REQ-2"], &[], 0)).unwrap_err();
    assert_eq!(err, ReconciliationIssue::RequirementsNotCovered);
    assert_eq!(err.message(), "Decomposition Plan must cover every current requirement");
}

#[test]
fn successor_gate_coverage_is_checked() {
    let p = successor(vec![item("i1", &["REQ-1"], &[])], Vec::new());
    let f = facts(&["REQ-1"], &[("REQ-1", &["unit"])], 0);
    assert_eq!(
        validate_reconciliation_successor(&p, &f),
        Err(ReconciliationIssue::GateCoverageDiffers {
            item: s("i1"),
            expected: vec![s("unit")],
            declared: Vec::new(),
        })
    );
}

#[test]
fn retained_task_targets_must_be_one_to_one() {
    let p = successor(
        vec![item("i1", &["REQ-1"], &[])],
        vec![opened_task(3, "i1"), opened_task(4, "i1")],
    );
    let f = facts(&["REQ-1"], &[], 2);
    let err = validate_reconciliation_successor(&p, &f).unwrap_err();
    assert_eq!(err, ReconciliationIssue::RetainedTargetsNotOneToOne { label: s("task") });
}

#[test]
fn gate_boundary_selector_resolves_once() {
    let a = digest('a');
    let b = digest('b');
    assert_eq!(
        resolve_gate_boundary_identity("retained-source", "source-id", &vec![a.clone()]),
        Ok(s("source-id"))
    );
    assert_eq!(resolve_gate_boundary_identity(&a, "x", &vec![a.clone(), b.clone()]), Ok(a.clone()));
    let err = resolve_gate_boundary_identity(&a, "x", &vec![a.clone(), a.clone()]).unwrap_err();
    assert_eq!(err, ReconciliationIssue::BoundaryNotUnique);
    assert_eq!(err.message(), "successor validation-gate boundary must resolve exactly once");
    assert_eq!(
        resolve_gate_boundary_identity(&a, "x", &Vec::new()),
        Err(ReconciliationIssue::BoundaryNotUnique)
    );
    assert_eq!(
        resolve_gate_boundary_identity("not-a-digest", "x", &Vec::new()),
        Err(ReconciliationIssue::Plan(PlanIssue::NotDigest(Field::GateBoundary)))
    );
}

fn meaning() -> GateMeaning {
    GateMeaning {
        key: s("unit"),
        command: Some(s("cargo test")),
        expected: s("pass"),
        environment: None,
        timeout: None,
        artifacts: None,
        requirement: s("REQ-1"),
    }
}

fn preserved_successor() -> (PlanDocument, SuccessorFacts) {
    let mut second = item("i2", &["REQ-1"], &["unit"]);
    second.slice = s("s2");
    let mut p = successor(vec![item("i1", &["REQ-1"], &["unit"]), second], Vec::new());
    p.slices.push(PlanSlice { key: s("s2"), title: s("two"), order: 2, depends_on: vec![s("s1")] });
    let r = p.reconciliation.as_mut().unwrap();
    r.tasks = vec![TaskReconciliation {
        source: 3,
        disposition: s("retained"),
        item: Some(s("i1")),
        reason: None,
        effect: None,
    }];
    r.checklist = vec![ChecklistReconciliation {
        source: 20,
        disposition: s("retained"),
        item: Some(s("i1")),
        boundary: Some(s("b")),
        reason: None,
        effect: None,
    }];
    r.gates = vec![GateReconciliation {
        source: 30,
        disposition: s("retained"),
        item: Some(s("i1")),
        gate: Some(s("unit")),
        boundary: Some(s("bnd")),
        reason: None,
        effect: None,
    }];
    r.phases = vec![
        PhaseReconciliation { source: 40, disposition: s("retained"), slice: Some(s("s1")), reason: None, effect: None },
        PhaseReconciliation { source: 41, disposition: s("retained"), slice: Some(s("s2")), reason: None, effect: None },
    ];
    r.dependencies = vec![DependencyReconciliation {
        source: 50,
        disposition: s("retained"),
        from: Some(s("s1")),
        to: Some(s("s2")),
        reason: None,
        effect: None,
    }];
    let mut f = facts(&["REQ-1"], &[("REQ-1", &["unit"])], 1);
    f.tasks = vec![Some(TaskSourceFacts {
        title: s("t"),
        details: s("d"),
        outcome: s("o"),
        requirements: vec![RequirementRef { key: s("REQ-1"), hash: digest('h') }],
    })];
    f.checklist = vec![Some(s("c"))];
    f.gates = vec![Some(GateSourceFacts { boundary: s("bnd"), source_meaning: Some(meaning()), target_meanings: vec![meaning()] })];
    f.phases = vec![
        Some(PhaseSourceFacts { title: s("one"), kind: s("implementation") }),
        Some(PhaseSourceFacts { title: s("two"), kind: s("implementation") }),
    ];
    f.dependencies = vec![Some(DependencySourceFacts {
        from: 40,
        to: 41,
        dependency_type: s("requires"),
        reason: s("declared by the current Decomposition Plan"),
        status: s("open"),
        evidence: None,
        authority: None,
    })];
    (p, f)
}

#[test]
fn preserved_successor_is_accepted() {
    let (p, f) = preserved_successor();
    assert_eq!(validate_reconciliation_successor(&p, &f), Ok(()));
}

#[test]
fn preserved_task_must_keep_its_meaning() {
    let (p, mut f) = preserved_successor();
    f.tasks[0].as_mut().unwrap().title = s("other");
    assert_eq!(
        validate_reconciliation_successor(&p, &f),
        Err(ReconciliationIssue::PreserveTaskDiffers { source: 3, item: s("i1") })
    );
}

#[test]
fn preserved_checklist_item_must_keep_its_condition() {
    let (p, mut f) = preserved_successor();
    f.checklist[0] = Some(s("another condition"));
    assert_eq!(validate_reconciliation_successor(&p, &f), Err(ReconciliationIssue::PreserveChecklistDiffers));
}

#[test]
fn preserved_gate_must_keep_its_meaning() {
    let (p, mut f) = preserved_successor();
    f.gates[0].as_mut().unwrap().target_meanings[0].expected = s("fail");
    assert_eq!(validate_reconciliation_successor(&p, &f), Err(ReconciliationIssue::PreserveGateDiffers));
}

#[test]
fn retained_gate_targets_must_be_one_to_one() {
    let (mut p, mut f) = preserved_successor();
    let r = p.reconciliation.as_mut().unwrap();
    let mut again = r.gates[0].clone();
    again.source = 31;
    r.gates.push(again);
    let copy = f.gates[0].clone();
    f.gates.push(copy);
    assert_eq!(
        validate_reconciliation_successor(&p, &f),
        Err(ReconciliationIssue::RetainedGateTargetsNotOneToOne)
    );
}

#[test]
fn preserved_phase_must_keep_its_title() {
    let (p, mut f) = preserved_successor();
    f.phases[1].as_mut().unwrap().title = s("renamed");
    assert_eq!(validate_reconciliation_successor(&p, &f), Err(ReconciliationIssue::PreservePhaseDiffers));
}

#[test]
fn preserved_dependency_must_connect_mapped_phases() {
    let (p, mut f) = preserved_successor();
    f.dependencies[0].as_mut().unwrap().from = 99;
    assert_eq!(validate_reconciliation_successor(&p, &f), Err(ReconciliationIssue::ForeignPredecessorPhase));
    let (p, mut f) = preserved_successor();
    f.dependencies[0].as_mut().unwrap().to = 98;
    assert_eq!(validate_reconciliation_successor(&p, &f), Err(ReconciliationIssue::ForeignSuccessorPhase));
    let (p, mut f) = preserved_successor();
    f.dependencies[0].as_mut().unwrap().status = s("satisfied");
    assert_eq!(
        validate_reconciliation_successor(&p, &f),
        Err(ReconciliationIssue::PreserveDependencyDiffers)
    );
}
