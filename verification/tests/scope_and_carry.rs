use agent_workbench::carry::{
    carry_dependency_states, carry_phase_state, check_retained_gate_states, item_lineage,
    recompute_dependency_state, uniform_state_map, CarryIssue, DependencyCarry,
};
use agent_workbench::document::{
    ChecklistReconciliation, DependencyReconciliation, GateReconciliation, PhaseReconciliation,
    PlanChecklistBoundary, PlanCompletion, PlanDocument, PlanItem, PlanReconciliation, PlanSlice,
    TaskReconciliation,
};
use agent_workbench::scope::{
    check_predecessor_current, check_reconciliation_predecessor, require_exact_source_domain,
    validate_reconciliation_relationships, validate_reconciliation_scope, DomainKind,
    RelationFacts, ScopeDomains, ScopeIssue,
};

fn s(v: &str) -> String {
    v.to_string()
}

fn task(source: i64, item: Option<&str>) -> TaskReconciliation {
    TaskReconciliation {
        source,
        disposition: s(if item.is_some() { "retained" } else { "retired" }),
        item: item.map(s),
        reason: None,
        effect: None,
    }
}

fn check(source: i64, item: Option<&str>) -> ChecklistReconciliation {
    ChecklistReconciliation {
        source,
        disposition: s(if item.is_some() { "retained" } else { "retired" }),
        item: item.map(s),
        boundary: item.map(|_| s("boundary")),
        reason: None,
        effect: None,
    }
}

fn gate(source: i64, item: Option<&str>) -> GateReconciliation {
    GateReconciliation {
        source,
        disposition: s(if item.is_some() { "retained" } else { "retired" }),
        item: item.map(s),
        gate: item.map(|_| s("REQ-1")),
        boundary: None,
        reason: None,
        effect: None,
    }
}

fn phase(source: i64, slice: Option<&str>) -> PhaseReconciliation {
    PhaseReconciliation {
        source,
        disposition: s(if slice.is_some() { "retained" } else { "retired" }),
        slice: slice.map(s),
        reason: None,
        effect: None,
    }
}

fn dependency(source: i64, from: &str, to: &str) -> DependencyReconciliation {
    DependencyReconciliation {
        source,
        disposition: s("retained"),
        from: Some(s(from)),
        to: Some(s(to)),
        reason: None,
        effect: None,
    }
}

fn item(key: &str, slice: &str) -> PlanItem {
    PlanItem {
        key: s(key),
        requirements: vec![s("REQ-1")],
        title: s("Title"),
        details: s("Details"),
        completion: PlanCompletion {
            outcome: s("done"),
            observation: s("seen"),
            evidence_owner: s("work:9"),
            evidence_kind: s("test"),
            gates: Vec::new(),
        },
        checklist: vec![PlanChecklistBoundary {
            key: s("boundary"),
            condition: s("holds"),
            evidence_kind: s("test"),
            gates: Vec::new(),
        }],
        slice: s(slice),
    }
}

fn reconciliation() -> PlanReconciliation {
    PlanReconciliation {
        predecessor: 20,
        expected_current: s("current-1"),
        tasks: vec![task(1, Some("alpha")), task(2, Some("beta"))],
        checklist: vec![check(11, Some("alpha")), check(12, Some("beta"))],
        gates: vec![gate(21, Some("alpha"))],
        phases: vec![phase(31, Some("first")), phase(32, Some("second"))],
        dependencies: vec![dependency(41, "first", "second")],
    }
}

fn plan(r: PlanReconciliation) -> PlanDocument {
    PlanDocument {
        record_type: s("decomposition_plan"),
        format: 1,
        key: s("work-9-plan-2"),
        design_fingerprint: s("f"),
        work: Some(9),
        items: vec![item("alpha", "first"), item("beta", "second")],
        slices: vec![
            PlanSlice { key: s("first"), title: s("First"), order: 1, depends_on: Vec::new() },
            PlanSlice {
                key: s("second"),
                title: s("Second"),
                order: 2,
                depends_on: vec![s("first")],
            },
        ],
        reconciliation: Some(r),
    }
}

fn domains() -> ScopeDomains {
    ScopeDomains {
        tasks: vec![2, 1],
        checklist: vec![11, 12],
        gates: vec![21],
        phases: vec![31, 32],
        dependencies: vec![41],
    }
}

fn facts() -> RelationFacts {
    RelationFacts {
        checklist: vec![(1, s("open")), (2, s("open"))],
        gates: vec![(Some(1), s("active"))],
        memberships: vec![(1, 31), (2, 32)],
        edges: vec![Some((31, 32))],
    }
}

#[test]
fn predecessor_must_be_current_work_of_the_package() {
    assert_eq!(check_reconciliation_predecessor(None, 9), Err(ScopeIssue::OutsidePackage));
    assert_eq!(
        check_reconciliation_predecessor(Some((8, s("applied"))), 9),
        Err(ScopeIssue::OutsideWorkOwner)
    );
    assert_eq!(
        check_reconciliation_predecessor(Some((9, s("superseded"))), 9),
        Err(ScopeIssue::PredecessorNotCurrent)
    );
    assert_eq!(check_reconciliation_predecessor(Some((9, s("applied"))), 9), Ok(()));
    assert_eq!(check_reconciliation_predecessor(Some((9, s("incomplete"))), 9), Ok(()));
    assert_eq!(
        ScopeIssue::PredecessorNotCurrent.message(),
        "only the current applied or incomplete predecessor can be reconciled"
    );
}

#[test]
fn predecessor_identity_must_not_have_moved() {
    assert_eq!(check_predecessor_current("abc", "abc"), Ok(()));
    assert_eq!(check_predecessor_current("abc", "abd"), Err(ScopeIssue::PredecessorChanged));
}

#[test]
fn source_domain_is_compared_as_a_set() {
    assert_eq!(require_exact_source_domain(DomainKind::Task, &vec![1, 2], &vec![2, 1, 1]), Ok(()));
    assert_eq!(
        require_exact_source_domain(DomainKind::Phase, &vec![1, 2], &vec![1]),
        Err(ScopeIssue::SourceDomain(DomainKind::Phase))
    );
    assert_eq!(
        require_exact_source_domain(DomainKind::Phase, &vec![1], &vec![1, 3]),
        Err(ScopeIssue::SourceDomain(DomainKind::Phase))
    );
    assert_eq!(
        ScopeIssue::SourceDomain(DomainKind::ChecklistItem).message(),
        "reconciliation checklist item mappings must cover the exact predecessor domain"
    );
}

fn pred() -> Option<(i64, String)> {
    Some((9, "applied".to_string()))
}

#[test]
fn consistent_reconciliation_scope_is_accepted() {
    assert_eq!(validate_reconciliation_scope(&plan(reconciliation()), pred(), 9, "current-1", &domains(), &facts()), Ok(()));
}

#[test]
fn scope_errors_come_in_their_order() {
    let mut no_rec = plan(reconciliation());
    no_rec.reconciliation = None;
    assert_eq!(
        validate_reconciliation_scope(&no_rec, pred(), 9, "current-1", &domains(), &facts()),
        Err(ScopeIssue::ReconciliationRequired)
    );
    assert_eq!(
        validate_reconciliation_scope(&plan(reconciliation()), pred(), 9, "current-2", &domains(), &facts()),
        Err(ScopeIssue::PredecessorChanged)
    );
    assert_eq!(
        validate_reconciliation_scope(&plan(reconciliation()), None, 9, "current-2", &domains(), &facts()),
        Err(ScopeIssue::OutsidePackage)
    );
    assert_eq!(
        validate_reconciliation_scope(&plan(reconciliation()), pred(), 8, "current-1", &domains(), &facts()),
        Err(ScopeIssue::OutsideWorkOwner)
    );
    let ready = Some((9, "ready".to_string()));
    assert_eq!(
        validate_reconciliation_scope(&plan(reconciliation()), ready, 9, "current-1", &domains(), &facts()),
        Err(ScopeIssue::PredecessorNotCurrent)
    );
    let mut d = domains();
    d.gates = vec![21, 22];
    assert_eq!(
        validate_reconciliation_scope(&plan(reconciliation()), pred(), 9, "current-1", &d, &facts()),
        Err(ScopeIssue::SourceDomain(DomainKind::ValidationGate))
    );
    let mut d = domains();
    d.dependencies = Vec::new();
    assert_eq!(
        validate_reconciliation_scope(&plan(reconciliation()), pred(), 9, "current-1", &d, &facts()),
        Err(ScopeIssue::SourceDomain(DomainKind::PhaseDependency))
    );
}

fn relationships(r: &PlanReconciliation, f: &RelationFacts) -> Result<(), ScopeIssue> {
    validate_reconciliation_relationships(
        r,
        &plan(r.clone()),
        &vec![31, 32],
        &f.checklist,
        &f.gates,
        &f.memberships,
        &f.edges,
    )
}

#[test]
fn checklist_relations_are_kept() {
    let mut f = facts();
    f.checklist[0].0 = 7;
    assert_eq!(relationships(&reconciliation(), &f), Err(ScopeIssue::ChecklistForeignTask));
    let mut r = reconciliation();
    r.checklist[0] = check(11, Some("beta"));
    assert_eq!(relationships(&r, &facts()), Err(ScopeIssue::ChecklistItemDiffers));
    let mut r = reconciliation();
    r.checklist[0] = check(11, None);
    assert_eq!(relationships(&r, &facts()), Err(ScopeIssue::ChecklistRetiredOnOneEndpoint));
    let mut f = facts();
    f.checklist[0].1 = s("closed");
    assert_eq!(relationships(&r, &f), Ok(()));
}

#[test]
fn gate_relations_are_kept() {
    let mut f = facts();
    f.gates[0].0 = Some(7);
    assert_eq!(relationships(&reconciliation(), &f), Err(ScopeIssue::GateForeignTask));
    let mut r = reconciliation();
    r.gates[0] = gate(21, Some("beta"));
    assert_eq!(relationships(&r, &facts()), Err(ScopeIssue::GateItemDiffers));
    let mut r = reconciliation();
    r.gates[0] = gate(21, None);
    assert_eq!(relationships(&r, &facts()), Err(ScopeIssue::GateRetiredOnOneEndpoint));
    let mut f = facts();
    f.gates[0].1 = s("waived");
    assert_eq!(relationships(&r, &f), Ok(()));
    let mut f = facts();
    f.gates[0].0 = None;
    assert_eq!(relationships(&r, &f), Ok(()));
}

#[test]
fn membership_relations_are_kept() {
    let mut f = facts();
    f.memberships[0].1 = 99;
    assert_eq!(relationships(&reconciliation(), &f), Err(ScopeIssue::MembershipForeignPhase));
    let mut f = facts();
    f.memberships[0].0 = 7;
    assert_eq!(relationships(&reconciliation(), &f), Err(ScopeIssue::MembershipForeignTask));
    let mut r = reconciliation();
    r.phases = vec![phase(32, Some("second"))];
    assert_eq!(relationships(&r, &facts()), Err(ScopeIssue::MembershipUnmappedPhase));
    let mut r = reconciliation();
    r.tasks[0] = task(1, Some("gamma"));
    r.checklist[0] = check(11, Some("gamma"));
    r.gates[0] = gate(21, Some("gamma"));
    assert_eq!(relationships(&r, &facts()), Err(ScopeIssue::MembershipUnknownItem));
    let mut r = reconciliation();
    r.phases = vec![phase(31, Some("second")), phase(32, Some("second"))];
    assert_eq!(relationships(&r, &facts()), Err(ScopeIssue::MembershipSliceDiffers));
}

#[test]
fn dependency_relations_are_kept() {
    let mut f = facts();
    f.edges[0] = Some((30, 32));
    assert_eq!(relationships(&reconciliation(), &f), Err(ScopeIssue::DependencyForeignPredecessor));
    let mut f = facts();
    f.edges[0] = Some((31, 33));
    assert_eq!(relationships(&reconciliation(), &f), Err(ScopeIssue::DependencyForeignSuccessor));
    let mut r = reconciliation();
    r.dependencies[0] = dependency(41, "second", "first");
    assert_eq!(relationships(&r, &facts()), Err(ScopeIssue::DependencyEndpointsDiffer));
    let mut f = facts();
    f.edges[0] = None;
    assert_eq!(relationships(&r, &f), Ok(()));
}

#[test]
fn preserved_dependency_states_are_recomputed() {
    assert_eq!(
        recompute_dependency_state("open", Some(s("x")), Some(3), 31, 51, "open"),
        Ok(("open", None, None))
    );
    assert_eq!(
        recompute_dependency_state("satisfied", Some(s("phase:31:closed")), None, 31, 51, "closed"),
        Ok(("satisfied", Some(s("phase:51:closed")), None))
    );
    assert_eq!(
        recompute_dependency_state("satisfied", Some(s("phase:31:closed")), None, 31, 51, "open"),
        Err(CarryIssue::ObsoleteCloseEvidence)
    );
    assert_eq!(
        recompute_dependency_state("satisfied", Some(s("report.txt")), None, 31, 51, "open"),
        Ok(("satisfied", Some(s("report.txt")), None))
    );
    assert_eq!(
        recompute_dependency_state("satisfied", Some(s("  ")), None, 31, 51, "closed"),
        Err(CarryIssue::EvidenceRequired)
    );
    assert_eq!(
        recompute_dependency_state("satisfied", None, None, 31, 51, "closed"),
        Err(CarryIssue::EvidenceRequired)
    );
    assert_eq!(
        recompute_dependency_state("accepted", None, Some(4), 31, 51, "open"),
        Ok(("accepted", None, Some(4)))
    );
    assert_eq!(
        recompute_dependency_state("accepted", None, None, 31, 51, "open"),
        Err(CarryIssue::AuthorityRequired)
    );
    assert_eq!(
        recompute_dependency_state("blocked", None, None, 31, 51, "open"),
        Err(CarryIssue::UnsupportedDependencyState)
    );
}

fn carry(dependency: i64, state: &str) -> DependencyCarry {
    DependencyCarry {
        dependency,
        source_state: s(state),
        source_evidence: None,
        source_authority: Some(2),
        source_from: 31,
        successor_from: 51,
        successor_from_state: s("open"),
    }
}

#[test]
fn dependencies_are_carried_in_order_without_collapsing() {
    assert_eq!(
        carry_dependency_states(&vec![carry(61, "open"), carry(62, "accepted")]),
        Ok(vec![(61, "open", None, None), (62, "accepted", None, Some(2))])
    );
    assert_eq!(
        carry_dependency_states(&vec![carry(61, "open"), carry(61, "open")]),
        Err(CarryIssue::DependenciesCollapse)
    );
    assert_eq!(
        carry_dependency_states(&vec![carry(61, "open"), carry(62, "blocked")]),
        Err(CarryIssue::UnsupportedDependencyState)
    );
    assert_eq!(
        CarryIssue::DependenciesCollapse.message(),
        "multiple retained dependencies cannot collapse into one successor edge"
    );
}

#[test]
fn uniform_states_form_a_sorted_map() {
    let states = vec![(5, s("open")), (3, s("closed")), (5, s("open"))];
    assert_eq!(
        uniform_state_map(DomainKind::Task, &states),
        Ok(vec![(3, s("closed")), (5, s("open"))])
    );
    let states = vec![(5, s("open")), (5, s("closed"))];
    assert_eq!(
        uniform_state_map(DomainKind::Phase, &states),
        Err(CarryIssue::StatesDisagree(DomainKind::Phase))
    );
    assert_eq!(
        CarryIssue::StatesDisagree(DomainKind::Phase).message(),
        "retained phase sources disagree on successor state"
    );
}

#[test]
fn retained_gates_need_one_successor_each() {
    assert_eq!(check_retained_gate_states(2, 2), Ok(()));
    assert_eq!(check_retained_gate_states(1, 2), Err(CarryIssue::GateSuccessorNotExact));
}

#[test]
fn phase_states_carry_over_to_epochs() {
    assert_eq!(carry_phase_state("open"), Ok(("open", false)));
    assert_eq!(carry_phase_state("blocked"), Ok(("blocked", false)));
    assert_eq!(carry_phase_state("closed"), Ok(("closed", false)));
    assert_eq!(carry_phase_state("split"), Ok(("split", false)));
    assert_eq!(carry_phase_state("accepted_out_of_scope"), Ok(("superseded", true)));
    assert_eq!(carry_phase_state("merged"), Err(CarryIssue::UnsupportedPhaseState));
}

#[test]
fn item_lineage_follows_retained_tasks() {
    assert_eq!(
        item_lineage(&Vec::new()),
        Ok((None, "retired", Some("all predecessor task endpoints were explicitly retired")))
    );
    assert_eq!(item_lineage(&vec![71]), Ok((Some(71), "retained", None)));
    assert_eq!(item_lineage(&vec![71, 72]), Err(CarryIssue::ItemSplit));
}
