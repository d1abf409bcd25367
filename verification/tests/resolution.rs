use agent_workbench::actions::ReconciliationTarget;
use agent_workbench::document::{
    PlanChecklistBoundary, PlanCompletion, PlanDocument, PlanItem, PlanReconciliation, PlanSlice,
};
use agent_workbench::issue::{Field, PlanIssue};
use agent_workbench::reconciliation::{
    preview_decomposition_reconciliation, reconcile_decomposition_plan,
    reconciliation_correction_handle, DecompositionReconciliationResolution, ReconcileStep,
    ReconciliationIssue, RecordedReconciliation,
};
use agent_workbench::records::{
    DecompositionApplicationOutcome, DecompositionReconciliationApplication,
    DecompositionReconciliationOutcome, DecompositionReconciliationProjection,
    PlanReviewOwnerResolution, PlanReviewOwnerState,
};
use agent_workbench::resolution::{
    reconciliation_resolution, PendingToken, ReconciliationFacts, ResolutionIssue,
};
use agent_workbench::scope::{RelationFacts, ScopeDomains, ScopeIssue};
use agent_workbench::successor::{RequirementRef, SuccessorFacts};

fn s(v: &str) -> String {
    v.to_string()
}

fn digest(c: char) -> String {
    std::iter::repeat(c).take(64).collect()
}

fn document() -> PlanDocument {
    PlanDocument {
        record_type: s("decomposition_plan"),
        format: 1,
        key: s("plan-a"),
        design_fingerprint: digest('a'),
        work: Some(9),
        items: vec![PlanItem {
            key: s("i1"),
            requirements: vec![s("REQ-1")],
            title: s("t"),
            details: s("d"),
            completion: PlanCompletion {
                outcome: s("o"),
                observation: s("ob"),
                evidence_owner: s("agent"),
                evidence_kind: s("test"),
                gates: Vec::new(),
            },
            checklist: vec![PlanChecklistBoundary {
                key: s("b0"),
                condition: s("c"),
                evidence_kind: s("test"),
                gates: Vec::new(),
            }],
            slice: s("s1"),
        }],
        slices: vec![PlanSlice { key: s("s1"), title: s("one"), order: 1, depends_on: Vec::new() }],
        reconciliation: Some(PlanReconciliation {
            predecessor: 20,
            expected_current: digest('c'),
            tasks: Vec::new(),
            checklist: Vec::new(),
            gates: Vec::new(),
            phases: Vec::new(),
            dependencies: Vec::new(),
        }),
    }
}

fn token() -> PendingToken {
    PendingToken {
        session_id: 2,
        token_id: 3,
        token_ordinal: 1,
        operation: s("decomposition-plan-reconcile"),
        target: s("4/9/plans/p.md"),
        parsed_target: Some(ReconciliationTarget {
            design_version_id: 4,
            work_unit_id: 9,
            plan_path: s("plans/p.md"),
        }),
        review_work: 9,
        review_design: Some(4),
    }
}

fn facts() -> ReconciliationFacts {
    ReconciliationFacts {
        source_path: s("plans/p.md"),
        source_identity: digest('d'),
        payload_identity: digest('e'),
        recorded: None,
        resolved_design_version_id: 4,
        work_binding: Some(9),
        package_root: s("/work/design"),
        design_root: s("/work/design/"),
        token: Some(token()),
        surface: None,
        review_design_accepts: true,
        predecessor: Some((9, s("applied"))),
        current_identity: digest('c'),
        domains: ScopeDomains {
            tasks: Vec::new(),
            checklist: Vec::new(),
            gates: Vec::new(),
            phases: Vec::new(),
            dependencies: Vec::new(),
        },
        relations: RelationFacts {
            checklist: Vec::new(),
            gates: Vec::new(),
            memberships: Vec::new(),
            edges: Vec::new(),
        },
        successor: SuccessorFacts {
            active_requirements: vec![RequirementRef { key: s("REQ-1"), hash: digest('h') }],
            requirement_gates: Vec::new(),
            tasks: Vec::new(),
            checklist: Vec::new(),
            gates: Vec::new(),
            phases: Vec::new(),
            dependencies: Vec::new(),
        },
        staged_owner: None,
        gate_boundaries: Vec::new(),
        source_shared: Vec::new(),
        preserves: Vec::new(),
    }
}

fn refusal(expected: &str, f: ReconciliationFacts, preview: bool) -> ResolutionIssue {
    let input = DecompositionReconciliationApplication {
        design_version_id: 4,
        work_unit_id: 9,
        plan_path: "plans/p.md",
        closure_id: 5,
        expected_current: expected,
    };
    match reconciliation_resolution(&input, document(), f, preview) {
        Err(e) => e,
        Ok(_) => panic!("the request was expected to be refused"),
    }
}

#[test]
fn resolution_refuses_in_the_order_of_its_checks() {
    let c = digest('c');
    assert_eq!(
        refusal("nope", facts(), true),
        ResolutionIssue::Reconciliation(ReconciliationIssue::Plan(PlanIssue::NotDigest(
            Field::ReconciliationExpectedCurrent
        )))
    );
    let mut f = facts();
    f.work_binding = Some(8);
    f.token = None;
    assert_eq!(refusal(&c, f, true), ResolutionIssue::Reconciliation(ReconciliationIssue::OwnerMismatch));
    let mut f = facts();
    f.package_root = s("/work/other");
    f.token = None;
    assert_eq!(refusal(&c, f, true), ResolutionIssue::OutsidePackage);
    let mut f = facts();
    f.token = None;
    assert_eq!(refusal(&c, f, true), ResolutionIssue::NoPendingToken);
    let mut f = facts();
    f.token.as_mut().unwrap().operation = s("other");
    f.surface = Some(s("surface refused"));
    assert_eq!(
        refusal(&c, f, true),
        ResolutionIssue::Reconciliation(ReconciliationIssue::NotReconciliationTransition)
    );
    let mut f = facts();
    f.surface = Some(s("surface refused"));
    f.review_design_accepts = false;
    assert_eq!(refusal(&c, f, true), ResolutionIssue::FileSurface(s("surface refused")));
    let mut f = facts();
    f.review_design_accepts = false;
    f.predecessor = None;
    assert_eq!(
        refusal(&c, f, true),
        ResolutionIssue::Reconciliation(ReconciliationIssue::OutsideReviewOwner)
    );
    let mut f = facts();
    f.predecessor = None;
    assert_eq!(refusal(&c, f, true), ResolutionIssue::Scope(ScopeIssue::OutsidePackage));
    let mut f = facts();
    f.successor.active_requirements.push(RequirementRef { key: s("REQ-2"), hash: digest('h') });
    assert_eq!(
        refusal(&c, f, false),
        ResolutionIssue::Reconciliation(ReconciliationIssue::RequirementsNotCovered)
    );
    assert_eq!(
        refusal(&c, facts(), false),
        ResolutionIssue::Reconciliation(ReconciliationIssue::RequiresStagedSuccessor {
            design_version_id: 4,
            work_unit_id: 9
        })
    );
    let mut f = facts();
    f.staged_owner = Some(PlanReviewOwnerResolution {
        state: PlanReviewOwnerState::ReviewRequired,
        actions: vec![s("review it")],
        observed_handle: digest('f'),
    });
    assert_eq!(
        refusal(&c, f, false),
        ResolutionIssue::Reconciliation(ReconciliationIssue::SuccessorReviewRequired {
            actions: vec![s("review it")]
        })
    );
    assert_eq!(
        refusal(&digest('b'), facts(), true),
        ResolutionIssue::Reconciliation(ReconciliationIssue::PredecessorIdentitiesDisagree)
    );
}

#[test]
fn resolution_of_a_preview_is_pending_with_its_projection() {
    let c = digest('c');
    let input = DecompositionReconciliationApplication {
        design_version_id: 4,
        work_unit_id: 9,
        plan_path: "plans/p.md",
        closure_id: 5,
        expected_current: &c,
    };
    let resolution = reconciliation_resolution(&input, document(), facts(), true).unwrap();
    let pending = match resolution {
        DecompositionReconciliationResolution::Pending(p) => p,
        DecompositionReconciliationResolution::Retry(_) => panic!("no application was recorded"),
    };
    assert_eq!(pending.session_id, 2);
    assert_eq!(pending.token_id, 3);
    assert_eq!(pending.token_ordinal, 1);
    assert_eq!(pending.source_path, "plans/p.md");
    assert_eq!(pending.payload_identity, digest('e'));
    assert_eq!(pending.projection.observed_predecessor, c);
    assert_eq!(
        pending.projection.observed_correction,
        reconciliation_correction_handle(5, 2, 3, 1, "decomposition-plan-reconcile", "4/9/plans/p.md", 9, Some(4))
    );
    assert_eq!(pending.document, document());
}

fn recorded(expected: &str) -> (RecordedReconciliation, DecompositionReconciliationOutcome) {
    let t = token();
    let rec = RecordedReconciliation {
        successor_plan_id: 31,
        correction_application_id: 41,
        session_id: t.session_id,
        token_id: t.token_id,
        token_ordinal: t.token_ordinal,
        operation: t.operation.clone(),
        target: t.target.clone(),
        parsed_target: t.parsed_target.clone(),
        review_work: 9,
        review_design: Some(4),
        payload_identity: digest('e'),
    };
    let outcome = DecompositionReconciliationOutcome {
        plan: DecompositionApplicationOutcome {
            plan_id: 31,
            task_count: 1,
            checklist_item_count: 1,
            phase_count: 1,
            dependency_count: 0,
            already_applied: false,
            applied: true,
        },
        predecessor_plan_id: 20,
        closure_id: 5,
        token_ordinal: 1,
        correction_application_id: 41,
        idempotent: false,
        projection: DecompositionReconciliationProjection {
            endpoint_effects: Vec::new(),
            shared_bindings: Vec::new(),
            projection_identity: digest('p'),
            observed_predecessor: digest('c'),
            observed_document: digest('d'),
            observed_correction: reconciliation_correction_handle(
                5,
                2,
                3,
                1,
                "decomposition-plan-reconcile",
                "4/9/plans/p.md",
                9,
                Some(4),
            ),
            observed_shared: digest('s'),
            commit_current: s(expected),
            command: s("reconcile"),
        },
    };
    (rec, outcome)
}

#[test]
fn recorded_reconciliation_answers_retries_whatever_the_ledger_says_now() {
    let commit = digest('9');
    let input = DecompositionReconciliationApplication {
        design_version_id: 4,
        work_unit_id: 9,
        plan_path: "plans/p.md",
        closure_id: 5,
        expected_current: &commit,
    };
    let mut f = facts();
    f.recorded = Some(recorded(&commit));
    f.token = None;
    f.work_binding = Some(8);
    f.predecessor = None;
    match reconciliation_resolution(&input, document(), f, false) {
        Ok(DecompositionReconciliationResolution::Retry(o)) => {
            assert!(o.idempotent);
            assert!(o.plan.already_applied);
            assert_eq!(o.plan.plan_id, 31);
            assert_eq!(o.projection.commit_current, commit);
        }
        _ => panic!("a recorded reconciliation answers its retry"),
    }
    let mut f = facts();
    f.recorded = Some(recorded(&digest('8')));
    assert!(matches!(
        reconciliation_resolution(&input, document(), f, false),
        Err(ResolutionIssue::Reconciliation(ReconciliationIssue::RetryExpectedCurrentDiffers))
    ));
}

#[test]
fn preview_reports_the_pending_outcome_for_the_observed_handle() {
    let c = digest('c');
    let input = DecompositionReconciliationApplication {
        design_version_id: 4,
        work_unit_id: 9,
        plan_path: "plans/p.md",
        closure_id: 5,
        expected_current: &c,
    };
    let o = preview_decomposition_reconciliation(&input, document(), facts()).unwrap();
    assert_eq!(o.plan.plan_id, 0);
    assert_eq!(o.plan.task_count, 1);
    assert_eq!(o.plan.checklist_item_count, 1);
    assert_eq!(o.plan.phase_count, 1);
    assert!(!o.plan.applied && !o.idempotent);
    assert_eq!(o.closure_id, 5);
    assert_eq!(o.correction_application_id, 0);
    assert_eq!(o.predecessor_plan_id, 20);
    let other = digest('b');
    let stale = DecompositionReconciliationApplication { expected_current: &other, ..input };
    assert_eq!(
        preview_decomposition_reconciliation(&stale, document(), facts()).unwrap_err(),
        ResolutionIssue::Reconciliation(ReconciliationIssue::PredecessorIdentitiesDisagree)
    );
    let commit = digest('9');
    let retry = DecompositionReconciliationApplication { expected_current: &commit, ..input };
    let mut f = facts();
    f.recorded = Some(recorded(&commit));
    let o = preview_decomposition_reconciliation(&retry, document(), f).unwrap();
    assert!(o.idempotent && o.plan.already_applied);
}

#[test]
fn reconcile_refuses_stale_handles_and_answers_retries() {
    let c = digest('c');
    let input = DecompositionReconciliationApplication {
        design_version_id: 4,
        work_unit_id: 9,
        plan_path: "plans/p.md",
        closure_id: 5,
        expected_current: &c,
    };
    let mut f = facts();
    f.staged_owner = Some(PlanReviewOwnerResolution {
        state: PlanReviewOwnerState::AcceptedClean,
        actions: Vec::new(),
        observed_handle: digest('f'),
    });
    match reconcile_decomposition_plan(&input, document(), f) {
        Err(ResolutionIssue::Reconciliation(ReconciliationIssue::ObservationsChanged {
            design_version_id,
            work_unit_id,
            closure_id,
            expected_current,
            ..
        })) => {
            assert_eq!((design_version_id, work_unit_id, closure_id), (4, 9, 5));
            assert_eq!(expected_current, c);
        }
        _ => panic!("the plan's own handle is not the commit handle"),
    }
    assert!(matches!(
        reconcile_decomposition_plan(
            &DecompositionReconciliationApplication { expected_current: "short", ..input },
            document(),
            facts()
        ),
        Err(ResolutionIssue::Reconciliation(ReconciliationIssue::Plan(_)))
    ));
    let commit = digest('9');
    let retry = DecompositionReconciliationApplication { expected_current: &commit, ..input };
    let mut f = facts();
    f.recorded = Some(recorded(&commit));
    match reconcile_decomposition_plan(&retry, document(), f) {
        Ok(ReconcileStep::Recorded(o)) => assert_eq!(o.plan.plan_id, 31),
        _ => panic!("a recorded reconciliation answers its retry"),
    }
}

#[test]
fn reconcile_publishes_a_pending_reconciliation_for_its_commit_handle() {
    let c = digest('c');
    let input = DecompositionReconciliationApplication {
        design_version_id: 4,
        work_unit_id: 9,
        plan_path: "plans/p.md",
        closure_id: 5,
        expected_current: &c,
    };
    let pending = match reconciliation_resolution(&input, document(), facts(), true).unwrap() {
        DecompositionReconciliationResolution::Pending(p) => p,
        DecompositionReconciliationResolution::Retry(_) => panic!("nothing was recorded"),
    };
    let commit = pending.projection.commit_current.clone();
    let request = DecompositionReconciliationApplication { expected_current: &commit, ..input };
    let mut f = facts();
    f.staged_owner = Some(PlanReviewOwnerResolution {
        state: PlanReviewOwnerState::AcceptedClean,
        actions: Vec::new(),
        observed_handle: digest('f'),
    });
    match reconcile_decomposition_plan(&request, document(), f) {
        Ok(ReconcileStep::Publish(p)) => assert_eq!(p.projection.commit_current, commit),
        _ => panic!("the commit handle authorizes publication"),
    }
}

#[test]
fn a_committed_reconciliation_answers_its_retry_with_the_recorded_outcome() {
    let c = digest('c');
    let probe = DecompositionReconciliationApplication {
        design_version_id: 4,
        work_unit_id: 9,
        plan_path: "plans/p.md",
        closure_id: 5,
        expected_current: &c,
    };
    let preview = match reconciliation_resolution(&probe, document(), facts(), true).unwrap() {
        DecompositionReconciliationResolution::Pending(p) => p,
        DecompositionReconciliationResolution::Retry(_) => panic!("nothing was recorded"),
    };
    let commit = preview.projection.commit_current.clone();
    let input = DecompositionReconciliationApplication { expected_current: &commit, ..probe };
    let mut f = facts();
    f.staged_owner = Some(PlanReviewOwnerResolution {
        state: PlanReviewOwnerState::AcceptedClean,
        actions: Vec::new(),
        observed_handle: digest('f'),
    });
    let pending = match reconcile_decomposition_plan(&input, document(), f) {
        Ok(ReconcileStep::Publish(p)) => p,
        _ => panic!("the commit handle authorizes publication"),
    };
    let (mut rec, mut outcome) = recorded(&commit);
    rec.payload_identity = pending.payload_identity.clone();
    outcome.projection = pending.projection.clone();
    let mut g = facts();
    g.recorded = Some((rec, outcome.clone()));
    g.token = None;
    match reconcile_decomposition_plan(&input, document(), g) {
        Ok(ReconcileStep::Recorded(o)) => {
            assert!(o.idempotent && o.plan.already_applied);
            assert_eq!(o.projection, outcome.projection);
        }
        _ => panic!("a recorded reconciliation answers its retry"),
    }
}
