use agent_workbench::status::{
    check_existing_ledger, check_project_name, check_project_rename, correction_next_action,
    current_phase_blocker, default_design_root, default_export_root, default_ledger_path,
    default_log_root, init_project, init_project_with_name, join_path, next_action,
    next_action_for, project_status, project_status_for, remediation_next_action,
    resolved_owner_actions, ActiveRemediation, ActiveWorkUnit, BlockerFacts, FindingRemediation,
    IntegrityOutcome, NextAction, NextActionFacts, OwnerAction, PhaseBlocker,
    ProjectIntegrityStatus, SourceCorrection, StaleSelection, StatusFacts, StatusIssue,
};

fn s(v: &str) -> String {
    v.to_string()
}

fn owner(kind: &str, id: i64, blocker: Option<&str>) -> OwnerAction {
    OwnerAction {
        owner_type: s(kind),
        owner_id: id,
        blocker_kind: blocker.map(s),
        actions: vec![format!("act {}", id)],
    }
}

fn work(id: i64) -> ActiveWorkUnit {
    ActiveWorkUnit {
        id,
        title: format!("work {}", id),
        design_version_id: Some(4),
        next_phase_id: None,
        next_phase_key: None,
        next_phase_title: None,
    }
}

fn sound() -> Option<IntegrityOutcome> {
    Some(IntegrityOutcome::Sound {
        status: ProjectIntegrityStatus { result: s("clean"), predicates: Vec::new() },
    })
}

fn facts(owners: Vec<OwnerAction>) -> NextActionFacts {
    NextActionFacts {
        owners,
        selected_status: None,
        active: None,
        suspended: None,
        inactive: None,
    }
}

fn remediation(work_unit_id: i64) -> FindingRemediation {
    FindingRemediation {
        review_plan_id: 1,
        work_unit_id,
        finding_id: 2,
        closure_id: 3,
        description: s("fix"),
        affected_surfaces: s("src"),
        fix_plan: s("plan"),
        design_invariant: None,
        tests_or_gates: None,
        verification_plan: None,
        next_action: remediation_next_action(3),
    }
}

fn correction(work_unit_id: i64) -> SourceCorrection {
    SourceCorrection {
        review_plan_id: 1,
        work_unit_id,
        finding_id: 2,
        closure_id: 3,
        correction_session_id: 4,
        description: s("correct"),
        affected_surfaces: None,
        fix_plan: None,
        design_invariant: None,
        tests_or_gates: None,
        verification_plan: None,
        next_action: correction_next_action(3, None, None),
    }
}

fn status_facts(owners: Vec<OwnerAction>) -> StatusFacts {
    StatusFacts {
        project_name: Some(s("demo")),
        selected_exists: true,
        open_work_units: 2,
        active_activations: 1,
        schema_version: Some(12),
        finding_remediations: vec![remediation(5), remediation(6)],
        source_corrections: vec![correction(6)],
        owners,
    }
}

fn no_blockers() -> BlockerFacts {
    BlockerFacts {
        stale: None,
        stale_transition: None,
        review_blocker: None,
        review_dependency_action: None,
        active_remediation: None,
        active_dependency_action: None,
        active_source_correction: false,
        blocked_work: None,
    }
}

#[test]
fn default_paths_live_under_the_workbench_directory() {
    assert_eq!(default_ledger_path("/repo"), "/repo/.agent-workbench/ledger.sqlite3");
    assert_eq!(default_design_root("/repo/"), "/repo/.agent-workbench/designs");
    assert_eq!(default_export_root(""), ".agent-workbench/exports");
    assert_eq!(default_log_root("repo"), "repo/.agent-workbench/logs");
    assert_eq!(join_path("a", "b"), "a/b");
    assert_eq!(join_path("a/", "b"), "a/b");
    assert_eq!(join_path("", "b"), "b");
}

#[test]
fn init_lays_out_the_ledger_and_directories() {
    let layout = init_project("/repo");
    assert_eq!(layout.ledger_path, "/repo/.agent-workbench/ledger.sqlite3");
    assert_eq!(
        layout.directories,
        vec![
            s("/repo/.agent-workbench/designs"),
            s("/repo/.agent-workbench/exports"),
            s("/repo/.agent-workbench/logs"),
        ]
    );
    assert_eq!(init_project_with_name("/repo", Some("demo")), Ok(layout.clone()));
    assert_eq!(init_project_with_name("/repo", None), Ok(layout));
    let err = init_project_with_name("/repo", Some(" \t")).unwrap_err();
    assert_eq!(err, StatusIssue::EmptyProjectName);
    assert_eq!(err.message(), "project name must not be empty");
}

#[test]
fn project_name_and_ledger_checks() {
    assert_eq!(check_project_name(Some("")), Err(StatusIssue::EmptyProjectName));
    assert_eq!(check_project_name(Some("x")), Ok(()));
    assert_eq!(check_existing_ledger(true, false), Ok(()));
    assert_eq!(check_existing_ledger(true, true), Err(StatusIssue::UpdateRequired));
    assert_eq!(check_existing_ledger(false, true), Ok(()));
    assert_eq!(check_project_rename(true, "a", "a"), Ok(()));
    assert_eq!(check_project_rename(false, "a", "b"), Ok(()));
    let err = check_project_rename(true, "a", "b").unwrap_err();
    assert_eq!(err, StatusIssue::DifferentProjectName);
    assert_eq!(err.message(), "project is already initialized with a different name");
}

#[test]
fn owners_may_not_repeat_a_work() {
    let owners = vec![owner("work_unit", 1, None), owner("review_plan", 1, None)];
    assert_eq!(resolved_owner_actions(owners.clone()), Ok(owners));
    let repeated = vec![owner("work_unit", 1, None), owner("work_unit", 1, None)];
    let err = resolved_owner_actions(repeated).unwrap_err();
    assert_eq!(err, StatusIssue::DuplicateWorkOwner);
    assert_eq!(err.message(), "owner resolution returned more than one result for the same work");
}

#[test]
fn next_action_without_a_ledger_is_initialization() {
    assert_eq!(
        next_action(s("/repo/l.sqlite3"), None, facts(Vec::new())),
        Ok(NextAction::NotInitialized { ledger_path: s("/repo/l.sqlite3") })
    );
}

#[test]
fn next_action_of_a_blocked_project_is_its_integrity() {
    let status = ProjectIntegrityStatus { result: s("blocked"), predicates: vec![s("p1")] };
    let ledger = Some(IntegrityOutcome::Blocked { status: status.clone(), schema_version: Some(3) });
    assert_eq!(
        next_action(s("l"), ledger, facts(Vec::new())),
        Ok(NextAction::ProjectIntegrityBlocked { integrity: status })
    );
    let failed = Some(IntegrityOutcome::Unclassified { error: s("boom") });
    let err = next_action(s("l"), failed, facts(Vec::new())).unwrap_err();
    assert_eq!(
        err.message(),
        "project integrity evaluation failed without a global classification: boom"
    );
}

#[test]
fn next_action_prefers_active_then_suspended_then_open_work() {
    let mut f = facts(vec![owner("work_unit", 1, None)]);
    f.active = Some(work(1));
    f.suspended = Some(work(2));
    assert_eq!(next_action(s("l"), sound(), f), Ok(NextAction::ContinueActive { work_unit: work(1) }));
    let mut f = facts(Vec::new());
    f.suspended = Some(work(2));
    f.inactive = Some(work(3));
    assert_eq!(next_action(s("l"), sound(), f), Ok(NextAction::ResumeSuspended { work_unit: work(2) }));
    let mut f = facts(Vec::new());
    f.inactive = Some(work(3));
    assert_eq!(next_action(s("l"), sound(), f), Ok(NextAction::ActivateOpen { work_unit: work(3) }));
    assert_eq!(next_action(s("l"), sound(), facts(Vec::new())), Ok(NextAction::NoOpenWorkUnit));
}

#[test]
fn next_action_reports_owners_when_several_or_blocked() {
    let owners = vec![owner("work_unit", 1, None), owner("work_unit", 2, None)];
    let mut f = facts(owners.clone());
    f.active = Some(work(1));
    assert_eq!(next_action(s("l"), sound(), f), Ok(NextAction::OwnerActions { owners }));
    let blocked = vec![owner("work_unit", 1, Some("review"))];
    assert_eq!(
        next_action(s("l"), sound(), facts(blocked.clone())),
        Ok(NextAction::OwnerActions { owners: blocked })
    );
}

#[test]
fn next_action_for_a_selected_work() {
    let owners = vec![owner("work_unit", 1, None), owner("work_unit", 2, None)];
    let mut f = facts(owners.clone());
    f.selected_status = Some(s("active"));
    assert_eq!(
        next_action_for(s("l"), sound(), f, Some(2)),
        Ok(NextAction::OwnerActions { owners: vec![owners[1].clone()] })
    );
    let mut closed = facts(owners.clone());
    closed.selected_status = Some(s("closed"));
    assert_eq!(
        next_action_for(s("l"), sound(), closed, Some(2)),
        Ok(NextAction::SelectedWorkTerminal { work_unit_id: 2, status: s("closed") })
    );
    let missing = facts(owners.clone());
    let err = next_action_for(s("l"), sound(), missing, Some(9)).unwrap_err();
    assert_eq!(err, StatusIssue::WorkNotFound { work_unit_id: 9 });
    assert_eq!(err.message(), "work unit 9 not found in this project");
    let mut unowned = facts(owners);
    unowned.selected_status = Some(s("active"));
    let err = next_action_for(s("l"), sound(), unowned, Some(3)).unwrap_err();
    assert_eq!(err, StatusIssue::SelectedOwnerMissing { work_unit_id: 3 });
    assert_eq!(err.message(), "resolver did not return the selected work owner 3");
}

#[test]
fn status_without_a_ledger_is_uninitialized() {
    let st = project_status(s("l"), None, status_facts(Vec::new())).unwrap();
    assert!(!st.initialized);
    assert_eq!(st.ledger_path, "l");
    assert_eq!(st.project_integrity.result, "not_initialized");
    assert!(st.owner_actions.is_empty());
    assert!(st.finding_remediations.is_empty());
}

#[test]
fn status_of_a_blocked_project_reports_only_integrity() {
    let status = ProjectIntegrityStatus { result: s("blocked"), predicates: vec![s("p")] };
    let st = project_status(
        s("l"),
        Some(IntegrityOutcome::Blocked { status: status.clone(), schema_version: Some(3) }),
        status_facts(vec![owner("work_unit", 5, None)]),
    )
    .unwrap();
    assert!(st.initialized);
    assert_eq!(st.schema_version, Some(3));
    assert_eq!(st.project_integrity, status);
    assert_eq!(st.project_name, None);
    assert!(st.owner_actions.is_empty());
}

#[test]
fn status_reports_the_whole_project() {
    let owners = vec![owner("work_unit", 5, None), owner("work_unit", 6, None)];
    let st = project_status(s("l"), sound(), status_facts(owners.clone())).unwrap();
    assert_eq!(st.project_name, Some(s("demo")));
    assert_eq!(st.open_work_units, 2);
    assert_eq!(st.active_activations, 1);
    assert_eq!(st.schema_version, Some(12));
    assert_eq!(st.owner_actions, owners);
    assert_eq!(st.finding_remediations.len(), 2);
    assert_eq!(st.source_corrections.len(), 1);
}

#[test]
fn status_narrows_to_the_selected_work() {
    let owners = vec![owner("work_unit", 5, None), owner("work_unit", 6, None), owner("review_plan", 6, None)];
    let st = project_status_for(s("l"), sound(), status_facts(owners.clone()), Some(6)).unwrap();
    assert_eq!(st.owner_actions, vec![owners[1].clone()]);
    assert_eq!(st.finding_remediations, vec![remediation(6)]);
    assert_eq!(st.source_corrections, vec![correction(6)]);
    let mut missing = status_facts(owners);
    missing.selected_exists = false;
    assert_eq!(
        project_status_for(s("l"), sound(), missing, Some(7)),
        Err(StatusIssue::WorkNotFound { work_unit_id: 7 })
    );
}

#[test]
fn remediation_and_correction_actions() {
    assert_eq!(
        remediation_next_action(3),
        "implement the scoped fix, then agent-workbench closure ready 3 --evidence \"<evidence>\" --tests \"<tests>\""
    );
    assert_eq!(
        correction_next_action(3, Some(8), Some("phase-dependency-satisfy")),
        "agent-workbench closure transition apply 3 --token 8 --evidence <evidence-ref>"
    );
    assert_eq!(
        correction_next_action(3, Some(8), Some("task-accept-out-of-scope")),
        "agent-workbench closure transition apply 3 --token 8 --authority <authority-event-id>"
    );
    assert_eq!(
        correction_next_action(3, Some(8), Some("decomposition-plan-reconcile")),
        "agent-workbench closure transition apply 3 --token 8"
    );
    assert_eq!(
        correction_next_action(3, None, None),
        "apply only the typed file correction contract, then agent-workbench closure ready 3 --evidence \"<evidence>\" --tests \"<tests>\""
    );
}

#[test]
fn stale_design_blocks_first() {
    let mut f = no_blockers();
    f.stale = Some(StaleSelection { kind: s("design_requirement"), record_id: 4, work_unit_id: 9 });
    f.blocked_work = Some((9, s("stuck")));
    let b = current_phase_blocker(f).unwrap();
    assert_eq!(b.kind, "stale_design");
    assert_eq!(b.work_unit_id, Some(9));
    assert_eq!(b.severity, Some(s("critical")));
    assert_eq!(b.next_action, "agent-workbench stale accept design_requirement 4 --reason \"<reason>\"");
    let mut g = no_blockers();
    g.stale = Some(StaleSelection { kind: s("design_requirement"), record_id: 4, work_unit_id: 9 });
    g.stale_transition = Some((11, 2));
    assert_eq!(
        current_phase_blocker(g).unwrap().next_action,
        "agent-workbench closure transition apply 11 --token 2"
    );
}

#[test]
fn review_finding_blocker_is_adjusted_for_dormant_remediation() {
    let finding = PhaseBlocker {
        kind: s("review_finding"),
        review_plan_id: Some(1),
        work_unit_id: Some(9),
        review_type: Some(s("implementation_review")),
        stage: Some(s("close-ready")),
        review_run_id: Some(2),
        finding_id: Some(3),
        severity: Some(s("high")),
        classification: Some(s("valid")),
        description: s("finding"),
        next_action: s("agent-workbench work remediate --finding 3"),
    };
    let mut f = no_blockers();
    f.review_blocker = Some(finding.clone());
    assert_eq!(current_phase_blocker(f), Some(finding.clone()));
    let mut g = no_blockers();
    g.review_blocker = Some(finding.clone());
    g.review_dependency_action = Some(s("agent-workbench work dependency satisfy 1"));
    let b = current_phase_blocker(g).unwrap();
    assert_eq!(b.kind, "finding_remediation_recovery");
    assert_eq!(b.description, "remediation owner is dormant behind an ordinary work dependency");
    assert_eq!(b.next_action, "agent-workbench work dependency satisfy 1");
    let mut h = no_blockers();
    h.review_blocker = Some(finding);
    h.active_remediation = Some(ActiveRemediation {
        finding_id: 3,
        closure_id: 12,
        work_unit_id: 9,
        work_status: s("blocked"),
        plan_status: s("active"),
        dependencies: 0,
    });
    let b = current_phase_blocker(h).unwrap();
    assert_eq!(b.description, "active remediation for closure 12 is dormant behind an owner guard");
    assert_eq!(b.next_action, "agent-workbench work unblock 9 --reason \"<reason>\"");
}

#[test]
fn active_remediation_that_cannot_proceed_blocks() {
    let mut f = no_blockers();
    f.active_remediation = Some(ActiveRemediation {
        finding_id: 3,
        closure_id: 12,
        work_unit_id: 9,
        work_status: s("open"),
        plan_status: s("exhausted"),
        dependencies: 0,
    });
    let b = current_phase_blocker(f).unwrap();
    assert_eq!(b.kind, "finding_remediation_recovery");
    assert_eq!(b.description, "active remediation for closure 12 requires lifecycle recovery");
    assert_eq!(
        b.next_action,
        "record authority and waive the exhausted review plan before continuing finding 3"
    );
    let mut g = no_blockers();
    g.active_remediation = Some(ActiveRemediation {
        finding_id: 3,
        closure_id: 12,
        work_unit_id: 9,
        work_status: s("closed"),
        plan_status: s("active"),
        dependencies: 0,
    });
    assert_eq!(
        current_phase_blocker(g).unwrap().next_action,
        "agent-workbench authority event add --type user_instruction --summary \"recover remediation owner 9\" --scope \"work-unit:9\"; then agent-workbench work reopen 9 --reason \"recover finding 3\" --reason-type closure_invalid --authority <authority-event-id>; then agent-workbench work remediate --finding 3"
    );
    let mut h = no_blockers();
    h.active_remediation = Some(ActiveRemediation {
        finding_id: 3,
        closure_id: 12,
        work_unit_id: 9,
        work_status: s("open"),
        plan_status: s("active"),
        dependencies: 0,
    });
    h.blocked_work = Some((9, s("stuck")));
    assert_eq!(current_phase_blocker(h), None);
}

#[test]
fn blocked_work_blocks_unless_a_correction_is_active() {
    let mut f = no_blockers();
    f.blocked_work = Some((9, s("waiting on vendor")));
    let b = current_phase_blocker(f).unwrap();
    assert_eq!(b.kind, "blocked_work_unit");
    assert_eq!(b.description, "work unit 9 is blocked: waiting on vendor");
    assert_eq!(
        b.next_action,
        "resolve the blocker, then run agent-workbench work unblock 9 --reason \"<reason>\""
    );
    let mut g = no_blockers();
    g.blocked_work = Some((9, s("waiting")));
    g.active_source_correction = true;
    assert_eq!(current_phase_blocker(g), None);
    assert_eq!(current_phase_blocker(no_blockers()), None);
}
