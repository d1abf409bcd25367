use agent_workbench::actions::ReconciliationTarget;
use agent_workbench::document::{
    PlanChecklistBoundary, PlanCompletion, PlanDocument, PlanItem, PlanReconciliation, PlanSlice,
};
use agent_workbench::identity::{projection_handle, reconciliation_result_identity};
use agent_workbench::issue::{Field, PlanIssue};
use agent_workbench::reconciliation::{
    check_correction_review_owner, check_reconciliation_owner, check_reconciliation_result,
    check_recorded_result, ImmutableReconciliationApplication,
    check_reconciliation_retry, check_staged_ingress, check_staged_successor, join_texts,
    preview_reconciliation_outcome,
    reconciliation_correction_handle, require_reconciliation_expected_current,
    require_reconciliation_observation, require_unique_retained_targets, shell_operand,
    staged_ingress_identity, validate_reconciliation_token_target,
    PendingDecompositionReconciliation,
    ReconciliationIssue, RecordedReconciliation,
};
use agent_workbench::records::{
    DecompositionApplicationOutcome, DecompositionReconciliationApplication,
    DecompositionReconciliationOutcome, DecompositionReconciliationProjection,
    PlanReviewOwnerResolution, PlanReviewOwnerState,
};

fn s(v: &str) -> String {
    v.to_string()
}

fn digest(c: char) -> String {
    std::iter::repeat(c).take(64).collect()
}

fn projection(commit: &str, correction: &str) -> DecompositionReconciliationProjection {
    DecompositionReconciliationProjection {
        endpoint_effects: Vec::new(),
        shared_bindings: Vec::new(),
        projection_identity: digest('1'),
        observed_predecessor: digest('2'),
        observed_document: digest('3'),
        observed_correction: s(correction),
        observed_shared: digest('4'),
        commit_current: s(commit),
        command: s("agent-workbench decomposition reconcile"),
    }
}

fn outcome(commit: &str, correction: &str) -> DecompositionReconciliationOutcome {
    DecompositionReconciliationOutcome {
        plan: DecompositionApplicationOutcome {
            plan_id: 21,
            task_count: 2,
            checklist_item_count: 2,
            phase_count: 2,
            dependency_count: 1,
            already_applied: false,
            applied: true,
        },
        predecessor_plan_id: 20,
        closure_id: 5,
        token_ordinal: 1,
        correction_application_id: 31,
        idempotent: false,
        projection: projection(commit, correction),
    }
}

fn recorded(target: Option<ReconciliationTarget>, target_text: &str) -> RecordedReconciliation {
    RecordedReconciliation {
        successor_plan_id: 21,
        correction_application_id: 31,
        session_id: 6,
        token_id: 7,
        token_ordinal: 1,
        operation: s("decomposition-plan-reconcile"),
        target: s(target_text),
        parsed_target: target,
        review_work: 9,
        review_design: Some(4),
        payload_identity: digest('p'),
    }
}

fn target() -> ReconciliationTarget {
    ReconciliationTarget { design_version_id: 4, work_unit_id: 9, plan_path: s("plans/p.md") }
}

fn document() -> PlanDocument {
    let item = |key: &str, slice: &str, boundaries: usize| PlanItem {
        key: s(key),
        requirements: vec![s("REQ-1")],
        title: s("t"),
        details: s("d"),
        completion: PlanCompletion {
            outcome: s("o"),
            observation: s("ob"),
            evidence_owner: s("agent"),
            evidence_kind: s("test"),
            gates: Vec::new(),
        },
        checklist: (0..boundaries)
            .map(|i| PlanChecklistBoundary {
                key: format!("b{}", i),
                condition: s("c"),
                evidence_kind: s("test"),
                gates: Vec::new(),
            })
            .collect(),
        slice: s(slice),
    };
    PlanDocument {
        record_type: s("decomposition_plan"),
        format: 1,
        key: s("plan-a"),
        design_fingerprint: digest('a'),
        work: Some(9),
        items: vec![item("i1", "s1", 2), item("i2", "s2", 3)],
        slices: vec![
            PlanSlice { key: s("s1"), title: s("one"), order: 1, depends_on: Vec::new() },
            PlanSlice { key: s("s2"), title: s("two"), order: 2, depends_on: vec![s("s1")] },
        ],
        reconciliation: Some(PlanReconciliation {
            predecessor: 20,
            expected_current: digest('c'),
            tasks: Vec::new(),
            checklist: Vec::new(),
            gates: Vec::new(),
            phases: Vec::new(),
            dependencies: Vec::new(),
        }),
    }
}

#[test]
fn shell_operand_quotes_only_when_needed() {
    assert_eq!(shell_operand("plans/p-1.md"), "plans/p-1.md");
    assert_eq!(shell_operand("a_b@c%d+e=f:g,h"), "a_b@c%d+e=f:g,h");
    assert_eq!(shell_operand(""), "''");
    assert_eq!(shell_operand("my plan.md"), "'my plan.md'");
    assert_eq!(shell_operand("it's"), "'it'\\''s'");
    assert_eq!(shell_operand("é"), "'é'");
}

#[test]
fn texts_are_joined_with_a_separator() {
    assert_eq!(join_texts(&vec![s("a"), s("b"), s("c")], " | "), "a | b | c");
    assert_eq!(join_texts(&vec![s("a")], ","), "a");
    assert_eq!(join_texts(&Vec::new(), ","), "");
}

#[test]
fn observation_must_match_the_expected_current() {
    let current = digest('c');
    let input = DecompositionReconciliationApplication {
        design_version_id: 4,
        work_unit_id: 9,
        plan_path: "my plans/p.md",
        closure_id: 5,
        expected_current: &current,
    };
    let p = projection(&digest('c'), &digest('0'));
    assert_eq!(require_reconciliation_observation(&input, &current, &p, true), Ok(()));
    assert_eq!(require_reconciliation_observation(&input, &current, &p, false), Ok(()));
    let other = digest('d');
    assert_eq!(
        require_reconciliation_observation(&input, &other, &p, true),
        Err(ReconciliationIssue::PredecessorIdentitiesDisagree)
    );
    let moved = projection(&digest('e'), &digest('0'));
    let err = require_reconciliation_observation(&input, &other, &moved, false).unwrap_err();
    assert_eq!(
        err,
        ReconciliationIssue::ObservationsChanged {
            design_version_id: 4,
            work_unit_id: 9,
            plan_operand: s("'my plans/p.md'"),
            closure_id: 5,
            expected_current: other.clone(),
        }
    );
    assert_eq!(
        err.message(),
        format!(
            "reconciliation observations changed; preview again before committing: agent-workbench decomposition reconcile 4 --work 9 --plan 'my plans/p.md' --closure 5 --expected-current {} --dry-run",
            other
        )
    );
}

#[test]
fn retained_targets_must_be_one_to_one() {
    assert_eq!(require_unique_retained_targets("task", &vec![s("a"), s("b")]), Ok(()));
    let err = require_unique_retained_targets("task", &vec![s("a"), s("b"), s("a")]).unwrap_err();
    assert_eq!(err, ReconciliationIssue::RetainedTargetsNotOneToOne { label: s("task") });
    assert_eq!(err.message(), "retained task targets must be one-to-one");
}

#[test]
fn correction_handle_is_a_projection_handle() {
    let handle = reconciliation_correction_handle(5, 6, 7, 1, "decomposition-plan-reconcile", "t", 9, None);
    let values = vec![s("5"), s("6"), s("7"), s("1"), s("decomposition-plan-reconcile"), s("t"), s("9"), s("-")];
    assert_eq!(handle, projection_handle("correction", &values));
    let with_design = reconciliation_correction_handle(5, 6, 7, 1, "op", "t", 9, Some(4));
    let values = vec![s("5"), s("6"), s("7"), s("1"), s("op"), s("t"), s("9"), s("4")];
    assert_eq!(with_design, projection_handle("correction", &values));
}

#[test]
fn token_target_must_authorize_the_plan() {
    let current = digest('c');
    let input = DecompositionReconciliationApplication {
        design_version_id: 4,
        work_unit_id: 9,
        plan_path: "plans/p.md",
        closure_id: 5,
        expected_current: &current,
    };
    let t = target();
    assert_eq!(
        validate_reconciliation_token_target("decomposition-plan-reconcile", Some(&t), &input, "plans/p.md"),
        Ok(s("plans/p.md"))
    );
    assert_eq!(
        validate_reconciliation_token_target("task-accept", Some(&t), &input, "plans/p.md"),
        Err(ReconciliationIssue::NotReconciliationTransition)
    );
    assert_eq!(
        validate_reconciliation_token_target("decomposition-plan-reconcile", None, &input, "plans/p.md"),
        Err(ReconciliationIssue::TargetUnreadable)
    );
    let err = validate_reconciliation_token_target("decomposition-plan-reconcile", Some(&t), &input, "plans/q.md")
        .unwrap_err();
    assert_eq!(err, ReconciliationIssue::TargetNotAuthorized);
    assert_eq!(
        err.message(),
        "the next correction transition does not authorize this Decomposition Plan path and owner"
    );
}

#[test]
fn retry_returns_the_recorded_outcome() {
    let commit = digest('c');
    let input = DecompositionReconciliationApplication {
        design_version_id: 4,
        work_unit_id: 9,
        plan_path: "plans/p.md",
        closure_id: 5,
        expected_current: &commit,
    };
    let rec = recorded(Some(target()), "ignored");
    let correction = reconciliation_correction_handle(5, 6, 7, 1, "decomposition-plan-reconcile", "ignored", 9, Some(4));
    let result = check_reconciliation_retry(&input, "plans/p.md", 20, &digest('p'), &rec, outcome(&commit, &correction))
        .unwrap();
    assert!(result.idempotent);
    assert!(result.plan.already_applied);
    assert_eq!(result.plan.plan_id, 21);
    assert_eq!(result.projection, projection(&commit, &correction));
}

#[test]
fn retry_accepts_the_older_target_form() {
    let commit = digest('c');
    let input = DecompositionReconciliationApplication {
        design_version_id: 4,
        work_unit_id: 9,
        plan_path: "plans/p.md",
        closure_id: 5,
        expected_current: &commit,
    };
    let rec = recorded(None, "4/9");
    let correction = reconciliation_correction_handle(5, 6, 7, 1, "decomposition-plan-reconcile", "4/9", 9, Some(4));
    assert!(check_reconciliation_retry(&input, "plans/p.md", 20, &digest('p'), &rec, outcome(&commit, &correction)).is_ok());
    let other = recorded(None, "4/8");
    assert_eq!(
        check_reconciliation_retry(&input, "plans/p.md", 20, &digest('p'), &other, outcome(&commit, &correction)),
        Err(ReconciliationIssue::TargetUnreadable)
    );
}

#[test]
fn retry_with_other_payload_or_result_is_refused() {
    let commit = digest('c');
    let input = DecompositionReconciliationApplication {
        design_version_id: 4,
        work_unit_id: 9,
        plan_path: "plans/p.md",
        closure_id: 5,
        expected_current: &commit,
    };
    let rec = recorded(Some(target()), "t");
    let correction = reconciliation_correction_handle(5, 6, 7, 1, "decomposition-plan-reconcile", "t", 9, Some(4));
    assert_eq!(
        check_reconciliation_retry(&input, "plans/p.md", 20, &digest('q'), &rec, outcome(&commit, &correction)),
        Err(ReconciliationIssue::RetryPayloadDiffers)
    );
    assert_eq!(
        check_reconciliation_retry(&input, "plans/p.md", 19, &digest('p'), &rec, outcome(&commit, &correction)),
        Err(ReconciliationIssue::RecordedResultMismatch)
    );
    assert_eq!(
        check_reconciliation_retry(&input, "plans/p.md", 20, &digest('p'), &rec, outcome(&commit, &digest('0'))),
        Err(ReconciliationIssue::CorrectionBoundaryMismatch)
    );
    assert_eq!(
        check_reconciliation_retry(&input, "plans/p.md", 20, &digest('p'), &rec, outcome(&digest('e'), &correction)),
        Err(ReconciliationIssue::RetryExpectedCurrentDiffers)
    );
}

#[test]
fn owner_and_review_checks() {
    let current = digest('c');
    let input = DecompositionReconciliationApplication {
        design_version_id: 4,
        work_unit_id: 9,
        plan_path: "plans/p.md",
        closure_id: 5,
        expected_current: &current,
    };
    assert_eq!(check_reconciliation_owner(&input, 4, Some(9)), Ok(()));
    assert_eq!(check_reconciliation_owner(&input, 4, None), Err(ReconciliationIssue::OwnerMismatch));
    assert_eq!(check_correction_review_owner(&input, 9, true), Ok(()));
    assert_eq!(
        check_correction_review_owner(&input, 8, true),
        Err(ReconciliationIssue::OutsideReviewOwner)
    );
    assert_eq!(require_reconciliation_expected_current(&current), Ok(()));
    assert_eq!(
        require_reconciliation_expected_current("absent"),
        Err(ReconciliationIssue::Plan(PlanIssue::NotDigest(Field::ReconciliationExpectedCurrent)))
    );
}

#[test]
fn commit_requires_a_reviewed_staged_successor() {
    let current = digest('c');
    let input = DecompositionReconciliationApplication {
        design_version_id: 4,
        work_unit_id: 9,
        plan_path: "plans/p.md",
        closure_id: 5,
        expected_current: &current,
    };
    assert_eq!(check_staged_successor(&input, true, None), Ok(()));
    let err = check_staged_successor(&input, false, None).unwrap_err();
    assert_eq!(err, ReconciliationIssue::RequiresStagedSuccessor { design_version_id: 4, work_unit_id: 9 });
    assert_eq!(
        err.message(),
        "an applied Decomposition Plan can only be reconciled from its reviewed ready successor; next: agent-workbench decomposition show --design-version 4 --work 9"
    );
    let pending = PlanReviewOwnerResolution {
        state: PlanReviewOwnerState::ReviewRequired,
        actions: vec![s("review a"), s("review b")],
        observed_handle: digest('o'),
    };
    let err = check_staged_successor(&input, true, Some(pending)).unwrap_err();
    assert_eq!(
        err.message(),
        "successor Decomposition Plan requires accepted clean review; next: review a | review b"
    );
    let accepted = PlanReviewOwnerResolution {
        state: PlanReviewOwnerState::AcceptedClean,
        actions: Vec::new(),
        observed_handle: digest('o'),
    };
    assert_eq!(check_staged_successor(&input, false, Some(accepted)), Ok(()));
}

#[test]
fn staged_ingress_must_bind_the_reviewed_content() {
    assert_eq!(staged_ingress_identity(Some(s("x"))), Ok(s("x")));
    assert_eq!(staged_ingress_identity(None), Err(ReconciliationIssue::NoIngressIdentity));
    assert_eq!(check_staged_ingress("a", "a", Some("c"), "c"), Ok(()));
    assert_eq!(
        check_staged_ingress("a", "b", Some("c"), "c"),
        Err(ReconciliationIssue::BytesChangedAfterStaging)
    );
    assert_eq!(
        check_staged_ingress("a", "a", None, "c"),
        Err(ReconciliationIssue::NoReviewedContentIdentity)
    );
    assert_eq!(
        check_staged_ingress("a", "a", Some("d"), "c"),
        Err(ReconciliationIssue::IngressNotBindingContent)
    );
}

#[test]
fn recorded_result_identity_is_checked() {
    let json = "{\"plan\":1}";
    let identity = reconciliation_result_identity(json);
    assert_eq!(check_reconciliation_result(json, &identity), Ok(()));
    assert_eq!(
        check_reconciliation_result("{\"plan\":2}", &identity),
        Err(ReconciliationIssue::ResultIdentityInvalid)
    );
}

#[test]
fn preview_counts_the_successor() {
    let pending = PendingDecompositionReconciliation {
        document: document(),
        source_path: s("plans/p.md"),
        source_identity: digest('s'),
        session_id: 6,
        token_id: 7,
        token_ordinal: 2,
        payload_identity: digest('p'),
        projection: projection(&digest('c'), &digest('0')),
    };
    let previewed = preview_reconciliation_outcome(pending, 5);
    assert_eq!(
        previewed.plan,
        DecompositionApplicationOutcome {
            plan_id: 0,
            task_count: 2,
            checklist_item_count: 5,
            phase_count: 2,
            dependency_count: 1,
            already_applied: false,
            applied: false,
        }
    );
    assert_eq!(previewed.predecessor_plan_id, 20);
    assert_eq!(previewed.closure_id, 5);
    assert_eq!(previewed.token_ordinal, 2);
    assert!(!previewed.idempotent);
}

#[test]
fn recorded_result_must_match_its_application() {
    let application = ImmutableReconciliationApplication {
        project: 1,
        successor: 21,
        predecessor: 20,
        correction_application: 31,
        closure: 5,
        token_ordinal: 1,
    };
    let good = outcome(&digest('e'), "h");
    assert_eq!(check_recorded_result(&application, 1, &good), Ok(()));
    assert_eq!(check_recorded_result(&application, 2, &good), Err(ReconciliationIssue::ResultMismatch));
    let mut retried = good.clone();
    retried.idempotent = true;
    assert_eq!(check_recorded_result(&application, 1, &retried), Err(ReconciliationIssue::ResultMismatch));
    let short = outcome("abc", "h");
    assert_eq!(check_recorded_result(&application, 1, &short), Err(ReconciliationIssue::ResultMismatch));
    let mut other_closure = good.clone();
    other_closure.closure_id = 6;
    assert_eq!(check_recorded_result(&application, 1, &other_closure), Err(ReconciliationIssue::ResultMismatch));
    assert_eq!(
        ReconciliationIssue::ResultMismatch.message(),
        "recorded reconciliation result does not match its immutable application"
    );
}
