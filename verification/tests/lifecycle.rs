use agent_workbench::actions::{decomposition_actions, ReconciliationTarget, ReconciliationToken};
use agent_workbench::document::{
    PlanChecklistBoundary, PlanCompletion, PlanItem, PlanReconciliation, PlanSlice,
};
use agent_workbench::issue::{Field, PlanIssue};
use agent_workbench::lifecycle::{
    apply_decomposition_plan, apply_step, check_application_slot, check_existing_stage,
    check_predecessor_superseded, check_registered_successor, check_revision_ingress,
    check_ingress_identity, check_superseded, import_decomposition_plan, superseded_plan_key, lineage_successor, next_lineage_revision,
    require_applied_predecessor, resolve_current_plan_id, resolve_decomposition_plan,
    resolve_design_version, retry_differs, review_plan, revise_decomposition_plan,
    seeks_successor, show_decomposition_plan, staged_expected_current, successor_status,
    transition_route, validate_application_owner, validate_decomposition_plan, ApplyStep,
    ApplyOutcome, ImportFacts, PublicationFacts, TransitionFacts, TransitionStep,
    LifecycleIssue, PlanSlotRow, SlotFacts, TransitionRoute, import_step, revision_step, StoreStep,
};
use agent_workbench::ingress::empty_draft_document;
use agent_workbench::records::{
    DecompositionApplication, DecompositionImport, DecompositionPlanCandidate,
    DecompositionPlanQuery, DecompositionPlanRecord, DecompositionPlanResolution,
    DecompositionRevise, DecompositionValidate, PlanReviewOwnerResolution, PlanReviewOwnerState,
};

fn s(v: &str) -> String {
    v.to_string()
}

fn digest(c: char) -> String {
    std::iter::repeat(c).take(64).collect()
}

fn row(id: i64, status: &str) -> PlanSlotRow {
    PlanSlotRow { id, status: s(status) }
}

fn record(id: i64, status: &str) -> DecompositionPlanRecord {
    DecompositionPlanRecord {
        id,
        design_version_id: 4,
        work_unit_id: 9,
        key: s("plan-a"),
        revision: 2,
        current_identity: digest('c'),
        status: s(status),
        predecessor_id: None,
        source_path: Some(s("plans/p.md")),
        content_identity: digest('d'),
        document_content: s("# Decomposition Plan\n"),
        issue: None,
        items: Vec::new(),
        slices: Vec::new(),
        gaps: Vec::new(),
        mappings: Vec::new(),
        shared_bindings: Vec::new(),
    }
}

fn resolution(current: Option<DecompositionPlanRecord>, owner: Option<PlanReviewOwnerResolution>) -> DecompositionPlanResolution {
    DecompositionPlanResolution {
        design_version_id: 4,
        work_unit_id: 9,
        current,
        successor: None,
        successor_projection: None,
        candidates: Vec::new(),
        review_owner: owner,
        actions: Vec::new(),
    }
}

fn owner(state: PlanReviewOwnerState) -> PlanReviewOwnerResolution {
    PlanReviewOwnerResolution {
        state,
        actions: vec![s("agent-workbench review plan")],
        observed_handle: digest('e'),
    }
}

fn candidate(path: &str, c: char) -> DecompositionPlanCandidate {
    DecompositionPlanCandidate {
        source_path: s(path),
        ingress_identity: digest(c),
        content_identity: digest(c),
        managed_content_identity: digest(c),
        structurally_ready: true,
        issue: None,
    }
}

#[test]
fn current_plan_is_the_only_applied_one() {
    assert_eq!(
        resolve_current_plan_id(&vec![row(1, "ready"), row(2, "applied")]),
        Ok(Some(2))
    );
    assert_eq!(
        resolve_current_plan_id(&vec![row(1, "applied"), row(2, "applied")]),
        Err(LifecycleIssue::MultipleApplied)
    );
    assert_eq!(resolve_current_plan_id(&vec![row(5, "draft")]), Ok(Some(5)));
    assert_eq!(resolve_current_plan_id(&Vec::new()), Ok(None));
    assert_eq!(
        resolve_current_plan_id(&vec![row(1, "draft"), row(2, "ready")]),
        Err(LifecycleIssue::MultipleEditable)
    );
    assert_eq!(
        LifecycleIssue::MultipleEditable.message(),
        "the selected package and work have multiple editable Decomposition Plans"
    );
}

#[test]
fn show_requires_a_current_plan() {
    assert_eq!(show_decomposition_plan(&vec![row(3, "ready")]), Ok(3));
    let err = show_decomposition_plan(&Vec::new()).unwrap_err();
    assert_eq!(err, LifecycleIssue::CurrentNotFound);
    assert_eq!(err.message(), "current decomposition plan not found");
}

#[test]
fn design_version_must_be_unique() {
    assert_eq!(resolve_design_version(&vec![8]), Ok(8));
    assert_eq!(resolve_design_version(&Vec::new()), Err(LifecycleIssue::DesignUnavailable));
    assert_eq!(resolve_design_version(&vec![8, 9]), Err(LifecycleIssue::DesignAmbiguous));
}

#[test]
fn application_owner_must_be_current_and_open() {
    assert_eq!(validate_application_owner(Some(true), true), Ok(()));
    assert_eq!(
        validate_application_owner(None, true),
        Err(LifecycleIssue::DesignVersionNotFound)
    );
    assert_eq!(
        validate_application_owner(Some(false), true),
        Err(LifecycleIssue::DesignNotCurrentApproved)
    );
    assert_eq!(
        validate_application_owner(Some(true), false),
        Err(LifecycleIssue::OpenWorkNotFound)
    );
}

#[test]
fn successor_status_follows_draft_and_validity() {
    assert_eq!(successor_status(true, true), "draft");
    assert_eq!(successor_status(false, false), "incomplete");
    assert_eq!(successor_status(false, true), "ready");
}

fn transition_facts(status: &str) -> TransitionFacts {
    TransitionFacts {
        predecessor: record(12, status),
        document: empty_draft_document(9, digest('f')),
        binding: Ok(()),
        same_package: true,
        existing: None,
        ready_reconciliation_predecessor: None,
    }
}

#[test]
fn revision_requests_need_a_key_and_a_digest() {
    let current = digest('c');
    let bad_key = DecompositionValidate { plan_id: 12, expected_current: &current, idempotency_key: "v 1" };
    assert_eq!(
        validate_decomposition_plan(&bad_key, transition_facts("draft")),
        Err(LifecycleIssue::Plan(PlanIssue::NotPortable(Field::IdempotencyKey)))
    );
    let bad_current = DecompositionRevise {
        plan_id: 12,
        plan_path: "plans/p.md",
        draft: false,
        expected_current: "absent",
        idempotency_key: "r-1",
    };
    let err = revise_decomposition_plan(&bad_current, transition_facts("draft")).unwrap_err();
    assert_eq!(err, LifecycleIssue::Plan(PlanIssue::NotDigest(Field::ExpectedCurrent)));
    assert_eq!(
        err.message(),
        "decomposition expected current must be a SHA-256 identity"
    );
}

#[test]
fn validation_stores_the_next_revision_and_supersedes_the_plan() {
    let current = digest('c');
    let ok = DecompositionValidate { plan_id: 12, expected_current: &current, idempotency_key: "v-1" };
    match validate_decomposition_plan(&ok, transition_facts("draft")).unwrap() {
        TransitionStep::Revision { successor, superseded: Some(old) } => {
            assert_eq!(
                successor,
                StoreStep::Store {
                    status: "incomplete",
                    issue: Some(PlanIssue::MissingItemsOrSlices),
                    revision: 3,
                    predecessor: Some(12),
                    work_unit_id: 9
                }
            );
            let mut expected = record(12, "superseded");
            expected.status = s("superseded");
            assert_eq!(old, expected);
        }
        _ => panic!("a draft plan is validated into a successor"),
    }
    assert_eq!(
        validate_decomposition_plan(&ok, transition_facts("ready")),
        Err(LifecycleIssue::NotRevisable)
    );
    assert_eq!(
        validate_decomposition_plan(&ok, transition_facts("applied")),
        Err(LifecycleIssue::AppliedRequiresSuccessorDocument)
    );
    let mut replay = transition_facts("incomplete");
    replay.existing = Some(13);
    assert_eq!(
        validate_decomposition_plan(&ok, replay),
        Ok(TransitionStep::Revision { successor: StoreStep::Existing(13), superseded: None })
    );
    assert_eq!(
        validate_decomposition_plan(&ok, transition_facts("superseded")),
        Ok(TransitionStep::Route(TransitionRoute::SupersededRetry))
    );
}

#[test]
fn revision_of_a_draft_keeps_it_a_draft() {
    let current = digest('c');
    let input = DecompositionRevise {
        plan_id: 12,
        plan_path: "plans/p.md",
        draft: true,
        expected_current: &current,
        idempotency_key: "r-1",
    };
    match revise_decomposition_plan(&input, transition_facts("ready")).unwrap() {
        TransitionStep::Revision { successor: StoreStep::Store { status, revision, predecessor, .. }, superseded: Some(old) } => {
            assert_eq!((status, revision, predecessor), ("draft", 3, Some(12)));
            assert_eq!(old.status, "superseded");
            assert_eq!(old.document_content, record(12, "ready").document_content);
        }
        _ => panic!("a ready plan is revised from its file"),
    }
    let mut outside = transition_facts("draft");
    outside.same_package = false;
    assert_eq!(revise_decomposition_plan(&input, outside), Err(LifecycleIssue::OutsidePackageLineage));
}

fn import_facts(existing: Option<i64>, current_exists: bool) -> ImportFacts {
    ImportFacts {
        document: Some(empty_draft_document(9, digest('f'))),
        binding: Ok(()),
        existing,
        current_exists,
    }
}

#[test]
fn import_requests_are_checked() {
    let content = digest('a');
    let base = DecompositionImport {
        design_version_id: 4,
        work_unit_id: 9,
        plan_path: Some("plans/p.md"),
        expected_content: Some(&content),
        draft: false,
        expected_current: "absent",
        idempotency_key: "import-1",
    };
    assert_eq!(
        import_decomposition_plan(&base, Some(&content), import_facts(None, false)),
        Ok(StoreStep::Store {
            status: "incomplete",
            issue: Some(PlanIssue::MissingItemsOrSlices),
            revision: 1,
            predecessor: None,
            work_unit_id: 9
        })
    );
    let other = digest('b');
    assert_eq!(
        import_decomposition_plan(&base, Some(&other), import_facts(None, false)),
        Err(LifecycleIssue::IngressChangedBeforeImport)
    );
    assert_eq!(
        import_decomposition_plan(&base, None, import_facts(None, false)),
        Err(LifecycleIssue::PathlessForbidsExpectedContent)
    );
    let present = DecompositionImport { expected_current: "present", ..base };
    let err = import_decomposition_plan(&present, Some(&content), import_facts(None, false)).unwrap_err();
    assert_eq!(err, LifecycleIssue::ImportRequiresAbsent);
    assert_eq!(err.message(), "decomposition import requires --expected-current absent");
    let short = DecompositionImport { expected_content: Some("abc"), ..base };
    assert_eq!(
        import_decomposition_plan(&short, Some("abc"), import_facts(None, false)),
        Err(LifecycleIssue::Plan(PlanIssue::NotDigest(Field::ExpectedContent)))
    );
    assert_eq!(
        import_decomposition_plan(&base, Some(&content), import_facts(Some(7), true)),
        Ok(StoreStep::Existing(7))
    );
    assert_eq!(
        import_decomposition_plan(&base, Some(&content), import_facts(None, true)),
        Err(LifecycleIssue::CurrentPlanExists)
    );
    let pathless = DecompositionImport {
        design_version_id: 4,
        work_unit_id: 9,
        plan_path: None,
        expected_content: None,
        draft: false,
        expected_current: "absent",
        idempotency_key: "import-empty-4-9",
    };
    match import_decomposition_plan(&pathless, None, import_facts(None, false)) {
        Ok(StoreStep::Store { status, revision, predecessor, work_unit_id, .. }) => {
            assert_eq!((status, revision, predecessor, work_unit_id), ("draft", 1, None, 9));
        }
        _ => panic!("a pathless import is stored as a draft"),
    }
}

#[test]
fn revision_ingress_must_match_the_plan_file() {
    let a = digest('a');
    let b = digest('b');
    assert_eq!(check_revision_ingress(None, None), Ok(()));
    assert_eq!(check_revision_ingress(Some(&a), Some(&a)), Ok(()));
    assert_eq!(
        check_revision_ingress(Some(&a), Some(&b)),
        Err(LifecycleIssue::IngressChangedBeforeRevision)
    );
    assert_eq!(
        check_revision_ingress(Some(&a), None),
        Err(LifecycleIssue::ExpectedContentRequiresPlan)
    );
    assert_eq!(
        check_revision_ingress(Some("xyz"), Some("xyz")),
        Err(LifecycleIssue::Plan(PlanIssue::NotDigest(Field::ExpectedContent)))
    );
}

#[test]
fn transition_routes_follow_the_predecessor_status() {
    let current = digest('c');
    assert_eq!(
        transition_route(&record(1, "superseded"), "stale", false, false, None),
        Ok(TransitionRoute::SupersededRetry)
    );
    let changed = transition_route(&record(1, "draft"), &digest('0'), false, false, None);
    assert_eq!(changed, Err(LifecycleIssue::PlanChanged { current_identity: current.clone() }));
    assert_eq!(
        changed.unwrap_err().message(),
        format!("Decomposition Plan changed; current handle: {}", current)
    );
    assert_eq!(
        transition_route(&record(1, "applied"), &current, true, false, None),
        Ok(TransitionRoute::StageApplied)
    );
    assert_eq!(
        transition_route(&record(1, "applied"), &current, true, true, None),
        Err(LifecycleIssue::AppliedRequiresSuccessorDocument)
    );
    let mut successor = record(2, "ready");
    successor.predecessor_id = Some(1);
    assert_eq!(
        transition_route(&successor, &current, true, false, Some(1)),
        Ok(TransitionRoute::RestageReconciliation { applied_predecessor_id: 1 })
    );
    assert_eq!(
        transition_route(&successor, &current, true, false, Some(7)),
        Err(LifecycleIssue::ReadySuccessorWrongPredecessor)
    );
    assert_eq!(
        transition_route(&successor, &current, false, false, Some(1)),
        Err(LifecycleIssue::ReadySuccessorRequiresReplacement)
    );
    assert_eq!(
        transition_route(&record(3, "ready"), &current, true, false, None),
        Ok(TransitionRoute::Revise { revises_ready: true })
    );
    assert_eq!(
        transition_route(&record(3, "ready"), &current, false, false, None),
        Err(LifecycleIssue::NotRevisable)
    );
    assert_eq!(
        transition_route(&record(3, "incomplete"), &current, false, false, None),
        Ok(TransitionRoute::Revise { revises_ready: false })
    );
    assert_eq!(require_applied_predecessor("applied"), Ok(()));
    assert_eq!(
        require_applied_predecessor("superseded"),
        Err(LifecycleIssue::ReadySuccessorPredecessorNotApplied)
    );
}

#[test]
fn applying_an_empty_slot_imports() {
    let input = DecompositionApplication { design_version_id: 4, work_unit_id: 9, plan_path: Some("plans/p.md") };
    assert_eq!(
        apply_step(&input, &resolution(None, None), None),
        Ok(ApplyStep::Import { idempotency_key: s("apply-import-4-9") })
    );
}

#[test]
fn applying_an_editable_plan_revises_it() {
    let input = DecompositionApplication { design_version_id: 4, work_unit_id: 9, plan_path: Some("plans/p.md") };
    assert_eq!(
        apply_step(&input, &resolution(Some(record(12, "draft")), None), None),
        Ok(ApplyStep::Revise {
            plan_id: 12,
            idempotency_key: s("apply-revise-12-2"),
            expected_current: digest('c'),
        })
    );
    let pathless = DecompositionApplication { design_version_id: 4, work_unit_id: 9, plan_path: None };
    assert_eq!(
        apply_step(&pathless, &resolution(Some(record(12, "incomplete")), None), None),
        Ok(ApplyStep::Report { plan_id: 12, already_applied: false })
    );
}

#[test]
fn applying_a_reviewed_ready_plan_publishes() {
    let input = DecompositionApplication { design_version_id: 4, work_unit_id: 9, plan_path: None };
    let accepted = resolution(Some(record(12, "ready")), Some(owner(PlanReviewOwnerState::AcceptedClean)));
    assert_eq!(
        apply_step(&input, &accepted, None),
        Ok(ApplyStep::Publish { plan_id: 12, observed_handle: digest('e') })
    );
    let pending = resolution(Some(record(12, "ready")), Some(owner(PlanReviewOwnerState::ReviewRequired)));
    assert_eq!(
        apply_step(&input, &pending, None),
        Ok(ApplyStep::Report { plan_id: 12, already_applied: false })
    );
    let unresolved = resolution(Some(record(12, "ready")), None);
    let err = apply_step(&input, &unresolved, None).unwrap_err();
    assert_eq!(err, LifecycleIssue::NoReviewOwner);
    assert_eq!(
        err.message(),
        "ready Decomposition Plan has no exact review-owner resolution"
    );
}

#[test]
fn applying_an_applied_plan_reports_it() {
    let input = DecompositionApplication { design_version_id: 4, work_unit_id: 9, plan_path: None };
    assert_eq!(
        apply_step(&input, &resolution(Some(record(12, "applied")), None), None),
        Ok(ApplyStep::Report { plan_id: 12, already_applied: true })
    );
    let with_file = DecompositionApplication { design_version_id: 4, work_unit_id: 9, plan_path: Some("plans/q.md") };
    let other = digest('9');
    let accepted = resolution(Some(record(12, "ready")), Some(owner(PlanReviewOwnerState::AcceptedClean)));
    assert_eq!(
        apply_step(&with_file, &accepted, Some(&other)),
        Ok(ApplyStep::Report { plan_id: 12, already_applied: false })
    );
    let same = digest('d');
    assert_eq!(
        apply_step(&with_file, &accepted, Some(&same)),
        Ok(ApplyStep::Publish { plan_id: 12, observed_handle: digest('e') })
    );
}

#[test]
fn application_slot_is_checked_again() {
    assert_eq!(check_application_slot(5, Some(5), "ready"), Ok(false));
    assert_eq!(check_application_slot(5, Some(5), "applied"), Ok(true));
    assert_eq!(check_application_slot(5, None, "ready"), Err(LifecycleIssue::SlotPlanMissing));
    assert_eq!(
        check_application_slot(5, Some(6), "ready"),
        Err(LifecycleIssue::OwnerChangedBeforeApplication)
    );
    assert_eq!(
        check_application_slot(5, Some(5), "draft"),
        Err(LifecycleIssue::NotStructurallyReady)
    );
}

#[test]
fn review_is_reported_for_ready_or_applied_plans() {
    assert_eq!(review_plan(&Some(record(1, "ready")), &None), Some(1));
    assert_eq!(review_plan(&Some(record(1, "applied")), &Some(record(2, "ready"))), Some(2));
    assert_eq!(review_plan(&Some(record(1, "draft")), &None), None);
    assert_eq!(review_plan(&None, &None), None);
    assert!(seeks_successor(&Some(record(1, "applied"))));
    assert!(!seeks_successor(&Some(record(1, "ready"))));
}

#[test]
fn empty_slot_offers_import_actions() {
    let query = DecompositionPlanQuery { design_version_id: 4, work_unit_id: 9 };
    let slot = SlotFacts {
        current: None,
        successor: None,
        successor_projection: None,
        candidates: Vec::new(),
        review_owner: None,
        historical: Vec::new(),
        tokens: Vec::new(),
    };
    let resolved = resolve_decomposition_plan(&query, Some(true), true, slot).unwrap();
    assert_eq!(
        resolved.actions,
        vec![s("agent-workbench decomposition import --design-version 4 --work 9 --expected-current absent --idempotency-key import-empty-4-9")]
    );
    let refused = SlotFacts {
        current: None,
        successor: None,
        successor_projection: None,
        candidates: Vec::new(),
        review_owner: None,
        historical: Vec::new(),
        tokens: Vec::new(),
    };
    assert_eq!(
        resolve_decomposition_plan(&query, Some(false), true, refused),
        Err(LifecycleIssue::DesignNotCurrentApproved)
    );
}

#[test]
fn plan_files_offer_import_actions() {
    let query = DecompositionPlanQuery { design_version_id: 4, work_unit_id: 9 };
    let c = candidate("plans/p.md", 'a');
    let actions = decomposition_actions(&query, &None, &None, &vec![c], &None, &vec![false], &Vec::new());
    assert!(actions.blocks_work);
    assert_eq!(
        actions.actions,
        vec![format!(
            "agent-workbench decomposition import --design-version 4 --work 9 --plan plans/p.md --expected-content {} --expected-current absent --idempotency-key import-aaaaaaaaaaaa",
            digest('a')
        )]
    );
}

#[test]
fn editable_plan_offers_validate_and_revise() {
    let query = DecompositionPlanQuery { design_version_id: 4, work_unit_id: 9 };
    let current = Some(record(12, "draft"));
    let actions = decomposition_actions(&query, &current, &None, &Vec::new(), &None, &Vec::new(), &Vec::new());
    assert_eq!(
        actions.actions,
        vec![
            format!("agent-workbench decomposition validate 12 --expected-current {} --idempotency-key validate-12-2", digest('c')),
            format!("agent-workbench decomposition revise 12 --expected-current {} --idempotency-key revise-owned-12-2", digest('c')),
        ]
    );
}

#[test]
fn applied_plan_with_accepted_review_offers_the_gate() {
    let query = DecompositionPlanQuery { design_version_id: 4, work_unit_id: 9 };
    let current = Some(record(12, "applied"));
    let accepted = Some(owner(PlanReviewOwnerState::AcceptedClean));
    let actions = decomposition_actions(&query, &current, &None, &Vec::new(), &accepted, &Vec::new(), &Vec::new());
    assert!(!actions.blocks_work);
    assert_eq!(
        actions.actions,
        vec![
            s("agent-workbench decomposition show --design-version 4 --work 9"),
            s("agent-workbench gate implementation-ready --design-version 4"),
        ]
    );
}

#[test]
fn applied_plan_successor_file_offers_reconciliation() {
    let query = DecompositionPlanQuery { design_version_id: 4, work_unit_id: 9 };
    let current = Some(record(12, "applied"));
    let mut successor = record(13, "ready");
    successor.predecessor_id = Some(12);
    successor.content_identity = digest('a');
    let c = candidate("plans/p.md", 'a');
    let token = ReconciliationToken {
        closure_id: 77,
        target: Some(ReconciliationTarget { design_version_id: 4, work_unit_id: 9, plan_path: s("plans/p.md") }),
    };
    let accepted = Some(owner(PlanReviewOwnerState::AcceptedClean));
    let actions = decomposition_actions(
        &query,
        &current,
        &Some(successor),
        &vec![c],
        &accepted,
        &vec![false],
        &vec![token],
    );
    assert_eq!(
        actions.actions,
        vec![format!(
            "agent-workbench decomposition reconcile 4 --work 9 --plan plans/p.md --closure 77 --expected-current {} --dry-run",
            digest('c')
        )]
    );
}

#[test]
fn staged_successor_records_the_applied_handle() {
    let applied = record(12, "applied");
    let mut r = PlanReconciliation {
        predecessor: 12,
        expected_current: digest('c'),
        tasks: Vec::new(),
        checklist: Vec::new(),
        gates: Vec::new(),
        phases: Vec::new(),
        dependencies: Vec::new(),
    };
    assert_eq!(staged_expected_current(Some(&r), &applied), Ok(digest('c')));
    r.predecessor = 11;
    assert_eq!(
        staged_expected_current(Some(&r), &applied),
        Err(LifecycleIssue::SuccessorWrongPredecessor)
    );
    assert_eq!(
        staged_expected_current(None, &applied),
        Err(LifecycleIssue::SuccessorNeedsReconciliation)
    );
}

#[test]
fn staging_checks_hold_their_conditions() {
    assert_eq!(check_existing_stage("ready", Some(4), 4), Ok(()));
    assert_eq!(
        check_existing_stage("draft", Some(4), 4),
        Err(LifecycleIssue::RevisionIdentityTaken)
    );
    assert_eq!(next_lineage_revision(Some(5), 2), 6);
    assert_eq!(next_lineage_revision(None, 2), 3);
    assert_eq!(check_superseded(1, true), Ok(()));
    assert_eq!(check_superseded(0, true), Err(LifecycleIssue::ReadyChangedBeforeRevision));
    assert_eq!(check_superseded(2, false), Err(LifecycleIssue::ChangedBeforePublication));
    assert_eq!(lineage_successor(Some(8)), Ok(8));
    assert_eq!(lineage_successor(None), Err(LifecycleIssue::NoLineageSuccessor));
    assert_eq!(check_registered_successor(true), Ok(()));
    assert_eq!(check_registered_successor(false), Err(LifecycleIssue::AlreadyRegistered));
    assert_eq!(check_predecessor_superseded(1), Ok(()));
    assert_eq!(check_predecessor_superseded(0), Err(LifecycleIssue::PredecessorChanged));
}

#[test]
fn differing_retry_names_the_current_owner() {
    let owner = record(13, "ready");
    let err = retry_differs(&owner, vec![s("a"), s("b")]);
    assert_eq!(
        err.message(),
        format!(
            "Decomposition Plan retry payload differs from the recorded successor; successor: 13; current: {}; next: a | b",
            digest('c')
        )
    );
}

#[test]
fn predecessor_key_is_parked_while_successor_installs() {
    assert_eq!(superseded_plan_key(20), "__superseded__20");
    assert_eq!(superseded_plan_key(-1), "__superseded__-1");
}

#[test]
fn ingress_identity_must_match_staged_bytes() {
    assert_eq!(check_ingress_identity(true), Ok(()));
    assert_eq!(check_ingress_identity(false), Err(LifecycleIssue::IngressIdentityDiffers));
    assert_eq!(
        LifecycleIssue::IngressIdentityDiffers.message(),
        "Decomposition Plan ingress identity belongs to different staged bytes"
    );
}

#[test]
fn import_stores_a_new_plan_only_in_an_empty_slot() {
    let draft = empty_draft_document(9, digest('f'));
    assert_eq!(import_step(None, true, Ok(()), None, false, 9), Err(LifecycleIssue::MetadataRequiredForImport));
    let mut bad = draft.clone();
    bad.format = 2;
    assert_eq!(import_step(Some(&bad), true, Ok(()), None, false, 9), Err(LifecycleIssue::Plan(PlanIssue::UnsupportedFormat)));
    assert_eq!(
        import_step(Some(&draft), true, Err(LifecycleIssue::OwnerMismatch), None, false, 9),
        Err(LifecycleIssue::OwnerMismatch)
    );
    assert_eq!(import_step(Some(&draft), true, Ok(()), Some(12), true, 9), Ok(StoreStep::Existing(12)));
    assert_eq!(import_step(Some(&draft), true, Ok(()), None, true, 9), Err(LifecycleIssue::CurrentPlanExists));
    assert_eq!(
        import_step(Some(&draft), true, Ok(()), None, false, 9),
        Ok(StoreStep::Store {
            status: "draft",
            issue: Some(PlanIssue::MissingItemsOrSlices),
            revision: 1,
            predecessor: None,
            work_unit_id: 9
        })
    );
    assert_eq!(
        import_step(Some(&draft), false, Ok(()), None, false, 9),
        Ok(StoreStep::Store {
            status: "incomplete",
            issue: Some(PlanIssue::MissingItemsOrSlices),
            revision: 1,
            predecessor: None,
            work_unit_id: 9
        })
    );
    assert_eq!(
        LifecycleIssue::CurrentPlanExists.message(),
        "the selected package and work already have a current Decomposition Plan"
    );
}

#[test]
fn revision_stays_in_its_package_lineage() {
    let draft = empty_draft_document(9, digest('f'));
    assert_eq!(
        revision_step(&draft, false, Err(LifecycleIssue::PackageMismatch), false, None, 4, 2, 9),
        Err(LifecycleIssue::PackageMismatch)
    );
    assert_eq!(revision_step(&draft, false, Ok(()), false, None, 4, 2, 9), Err(LifecycleIssue::OutsidePackageLineage));
    assert_eq!(revision_step(&draft, false, Ok(()), true, Some(5), 4, 2, 9), Ok(StoreStep::Existing(5)));
    assert_eq!(
        revision_step(&draft, false, Ok(()), true, None, 4, 2, 9),
        Ok(StoreStep::Store {
            status: "incomplete",
            issue: Some(PlanIssue::MissingItemsOrSlices),
            revision: 3,
            predecessor: Some(4),
            work_unit_id: 9
        })
    );
    assert_eq!(
        LifecycleIssue::OutsidePackageLineage.message(),
        "a revised Decomposition Plan must remain in the predecessor package lineage"
    );
}

#[test]
fn revision_request_checks_expected_content_against_the_plan_file() {
    let key = "retry-1";
    let current = digest('c');
    let content = digest('e');
    assert_eq!(
        DecompositionRevise::execute_request(3, None, Some(&content), None, false, &current, key),
        Err(LifecycleIssue::ExpectedContentRequiresPlan)
    );
    assert_eq!(
        DecompositionRevise::execute_request(3, Some("plans/p.md"), Some("short"), Some(&content), false, &current, key),
        Err(LifecycleIssue::Plan(PlanIssue::NotDigest(Field::ExpectedContent)))
    );
    assert_eq!(
        DecompositionRevise::execute_request(3, Some("plans/p.md"), Some(&content), Some(&digest('f')), false, &current, key),
        Err(LifecycleIssue::IngressChangedBeforeRevision)
    );
    assert_eq!(
        DecompositionRevise::execute_request(3, Some("plans/p.md"), Some(&content), Some(&content), false, &current, key),
        Ok(())
    );
    assert_eq!(DecompositionRevise::execute_request(3, None, None, None, true, &current, key), Ok(()));
    assert_eq!(
        DecompositionRevise::execute_request(3, None, Some(&content), None, false, "stale", key),
        Err(LifecycleIssue::Plan(PlanIssue::NotDigest(Field::ExpectedCurrent)))
    );
}

fn publication_facts(status: &str) -> PublicationFacts {
    let mut document = empty_draft_document(9, digest('f'));
    document.items.push(PlanItem {
        key: s("i1"),
        requirements: vec![s("REQ-1"), s("REQ-2")],
        title: s("t"),
        details: s("d"),
        completion: PlanCompletion {
            outcome: s("o"),
            observation: s("ob"),
            evidence_owner: s("agent"),
            evidence_kind: s("test"),
            gates: Vec::new(),
        },
        checklist: vec![
            PlanChecklistBoundary { key: s("b0"), condition: s("c"), evidence_kind: s("test"), gates: Vec::new() },
            PlanChecklistBoundary { key: s("b1"), condition: s("c"), evidence_kind: s("test"), gates: Vec::new() },
        ],
        slice: s("s1"),
    });
    document.slices.push(PlanSlice { key: s("s1"), title: s("one"), order: 1, depends_on: Vec::new() });
    PublicationFacts {
        resolved_plan: Some(12),
        status: s(status),
        active: vec![s("REQ-1"), s("REQ-2")],
        covered: vec![s("REQ-1"), s("REQ-2")],
        invalid_gates: 0,
        missing_gates: 0,
        occupied: false,
        document,
        priorities: vec![vec![s("medium"), s("high")]],
        retained_phases: Vec::new(),
    }
}

#[test]
fn applying_a_reviewed_ready_plan_publishes_its_outcome() {
    let input = DecompositionApplication { design_version_id: 4, work_unit_id: 9, plan_path: None };
    let accepted = resolution(Some(record(12, "ready")), Some(owner(PlanReviewOwnerState::AcceptedClean)));
    match apply_decomposition_plan(&input, &accepted, None, publication_facts("ready")).unwrap() {
        ApplyOutcome::Published { plan_id, observed_handle, rows, outcome } => {
            assert_eq!(plan_id, 12);
            assert_eq!(observed_handle, digest('e'));
            assert_eq!(rows.tasks[0].priority, "high");
            assert_eq!(outcome.task_count, 1);
            assert_eq!(outcome.checklist_item_count, 2);
            assert_eq!(outcome.phase_count, 1);
            assert_eq!(outcome.dependency_count, 0);
            assert!(outcome.applied && !outcome.already_applied);
        }
        _ => panic!("a reviewed ready plan is published"),
    }
    assert_eq!(
        apply_decomposition_plan(&input, &accepted, None, publication_facts("applied")),
        Ok(ApplyOutcome::Step(ApplyStep::Report { plan_id: 12, already_applied: true }))
    );
    let mut occupied = publication_facts("ready");
    occupied.occupied = true;
    assert_eq!(
        apply_decomposition_plan(&input, &accepted, None, occupied),
        Err(LifecycleIssue::Publication(agent_workbench::publication::PublicationIssue::OwnerOccupied))
    );
    let mut uncovered = publication_facts("ready");
    uncovered.covered.pop();
    assert_eq!(
        apply_decomposition_plan(&input, &accepted, None, uncovered),
        Err(LifecycleIssue::Publication(agent_workbench::publication::PublicationIssue::RequirementsNotCovered))
    );
    let pending = resolution(Some(record(12, "ready")), Some(owner(PlanReviewOwnerState::ReviewRequired)));
    assert_eq!(
        apply_decomposition_plan(&input, &pending, None, publication_facts("ready")),
        Ok(ApplyOutcome::Step(ApplyStep::Report { plan_id: 12, already_applied: false }))
    );
}

#[test]
fn a_published_plan_marked_applied_is_only_reported() {
    let applied = agent_workbench::lifecycle::mark_applied(record(12, "ready"));
    assert_eq!(applied.status, "applied");
    assert_eq!(applied.document_content, record(12, "ready").document_content);
    let input = DecompositionApplication { design_version_id: 4, work_unit_id: 9, plan_path: Some("plans/p.md") };
    let again = resolution(Some(applied), Some(owner(PlanReviewOwnerState::AcceptedClean)));
    assert_eq!(
        apply_step(&input, &again, Some(&digest('d'))),
        Ok(ApplyStep::Report { plan_id: 12, already_applied: true })
    );
}
