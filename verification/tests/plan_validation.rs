use agent_workbench::document::{
    ChecklistReconciliation, DependencyReconciliation, GateReconciliation, PhaseReconciliation,
    PlanChecklistBoundary, PlanCompletion, PlanDocument, PlanItem, PlanReconciliation, PlanSlice,
    ReconciliationEffect, TaskReconciliation,
};
use agent_workbench::issue::{Field, MappingKind, PlanIssue};
use agent_workbench::validation::{
    require_digest, require_key, require_text, unique_nonempty, validate_mapping_sources,
    validate_plan, validate_plan_header,
};

fn s(v: &str) -> String {
    v.to_string()
}

fn digest(c: char) -> String {
    std::iter::repeat(c).take(64).collect()
}

fn item(key: &str, slice: &str) -> PlanItem {
    PlanItem {
        key: s(key),
        requirements: vec![s("REQ-1")],
        title: s("Build the parser"),
        details: s("Parse the metadata block"),
        completion: PlanCompletion {
            outcome: s("parser works"),
            observation: s("tests pass"),
            evidence_owner: s("agent"),
            evidence_kind: s("test"),
            gates: vec![s("unit")],
        },
        checklist: vec![PlanChecklistBoundary {
            key: s("parse"),
            condition: s("parses a plan"),
            evidence_kind: s("test"),
            gates: vec![s("unit")],
        }],
        slice: s(slice),
    }
}

fn slice(key: &str, order: i64, depends_on: &[&str]) -> PlanSlice {
    PlanSlice {
        key: s(key),
        title: s("Slice"),
        order,
        depends_on: depends_on.iter().map(|d| s(d)).collect(),
    }
}

fn plan() -> PlanDocument {
    PlanDocument {
        record_type: s("decomposition_plan"),
        format: 1,
        key: s("plan-a"),
        design_fingerprint: digest('a'),
        work: Some(7),
        items: vec![item("item-1", "s1"), item("item-2", "s2")],
        slices: vec![slice("s1", 1, &[]), slice("s2", 2, &["s1"])],
        reconciliation: None,
    }
}

fn reconciliation() -> PlanReconciliation {
    PlanReconciliation {
        predecessor: 3,
        expected_current: digest('b'),
        tasks: vec![TaskReconciliation {
            source: 10,
            disposition: s("retained"),
            item: Some(s("item-1")),
            reason: None,
            effect: Some(ReconciliationEffect::Open),
        }],
        checklist: vec![ChecklistReconciliation {
            source: 20,
            disposition: s("retained"),
            item: Some(s("item-1")),
            boundary: Some(s("parse")),
            reason: None,
            effect: None,
        }],
        gates: vec![GateReconciliation {
            source: 30,
            disposition: s("retired"),
            item: None,
            gate: None,
            boundary: None,
            reason: Some(s("gate dropped")),
            effect: None,
        }],
        phases: vec![PhaseReconciliation {
            source: 40,
            disposition: s("retained"),
            slice: Some(s("s2")),
            reason: None,
            effect: None,
        }],
        dependencies: vec![DependencyReconciliation {
            source: 50,
            disposition: s("retained"),
            from: Some(s("s1")),
            to: Some(s("s2")),
            reason: None,
            effect: None,
        }],
    }
}

#[test]
fn valid_plan_is_accepted() {
    assert_eq!(validate_plan(&plan()), Ok(()));
}

#[test]
fn valid_successor_plan_is_accepted() {
    let mut p = plan();
    p.reconciliation = Some(reconciliation());
    assert_eq!(validate_plan(&p), Ok(()));
}

#[test]
fn unsupported_type_or_format_is_refused() {
    let mut p = plan();
    p.format = 2;
    assert_eq!(validate_plan(&p), Err(PlanIssue::UnsupportedFormat));
    let mut q = plan();
    q.record_type = s("plan");
    assert_eq!(validate_plan_header(&q), Err(PlanIssue::UnsupportedFormat));
    assert_eq!(
        PlanIssue::UnsupportedFormat.message(),
        "decomposition plan type or format is unsupported"
    );
}

#[test]
fn blank_plan_key_is_refused() {
    let mut p = plan();
    p.key = s(" plan-a");
    let err = validate_plan(&p).unwrap_err();
    assert_eq!(err, PlanIssue::NotCanonical(Field::PlanKey));
    assert_eq!(err.message(), "plan key must be non-empty canonical text");
}

#[test]
fn short_design_fingerprint_is_refused() {
    let mut p = plan();
    p.design_fingerprint = s("abc");
    let err = validate_plan(&p).unwrap_err();
    assert_eq!(err, PlanIssue::NotDigest(Field::DesignFingerprint));
    assert_eq!(err.message(), "design fingerprint must be a SHA-256 identity");
}

#[test]
fn plan_without_items_is_refused() {
    let mut p = plan();
    p.items.clear();
    assert_eq!(validate_plan(&p), Err(PlanIssue::MissingItemsOrSlices));
}

#[test]
fn repeated_slice_order_is_refused() {
    let mut p = plan();
    p.slices[1].order = 1;
    assert_eq!(validate_plan(&p), Err(PlanIssue::SliceOrder));
    let mut q = plan();
    q.slices[0].order = 0;
    assert_eq!(validate_plan(&q), Err(PlanIssue::SliceOrder));
}

#[test]
fn repeated_slice_key_is_refused() {
    let mut p = plan();
    p.slices[1].key = s("s1");
    p.slices[1].depends_on.clear();
    assert_eq!(validate_plan(&p), Err(PlanIssue::SliceKeyDuplicate));
}

#[test]
fn self_dependency_is_refused() {
    let mut p = plan();
    p.slices[0].depends_on = vec![s("s1")];
    assert_eq!(validate_plan(&p), Err(PlanIssue::SliceDependencyInvalid));
}

#[test]
fn repeated_dependency_is_refused() {
    let mut p = plan();
    p.slices[1].depends_on = vec![s("s1"), s("s1")];
    assert_eq!(validate_plan(&p), Err(PlanIssue::SliceDependencyDuplicate));
}

#[test]
fn dependency_cycle_is_refused() {
    let mut p = plan();
    p.slices[0].depends_on = vec![s("s2")];
    let err = validate_plan(&p).unwrap_err();
    assert_eq!(err, PlanIssue::SliceCycle);
    assert_eq!(err.message(), "decomposition slice dependencies contain a cycle");
}

#[test]
fn item_of_unknown_slice_is_refused() {
    let mut p = plan();
    p.items.push(item("item-3", "s9"));
    assert_eq!(validate_plan(&p), Err(PlanIssue::ItemUnknownSlice));
}

#[test]
fn repeated_item_key_is_refused() {
    let mut p = plan();
    p.items[1].key = s("item-1");
    assert_eq!(validate_plan(&p), Err(PlanIssue::ItemKeyDuplicate));
}

#[test]
fn item_without_checklist_is_refused() {
    let mut p = plan();
    p.items[0].checklist.clear();
    assert_eq!(validate_plan(&p), Err(PlanIssue::ItemCoverage));
}

#[test]
fn checklist_gate_outside_completion_gates_is_refused() {
    let mut p = plan();
    p.items[0].checklist[0].gates = vec![s("integration")];
    let err = validate_plan(&p).unwrap_err();
    assert_eq!(err, PlanIssue::BoundaryGateUncovered);
    assert_eq!(
        err.message(),
        "checklist gates must be contained by the item completion gates"
    );
}

#[test]
fn repeated_requirement_is_refused() {
    let mut p = plan();
    p.items[0].requirements = vec![s("REQ-1"), s("REQ-1")];
    let err = validate_plan(&p).unwrap_err();
    assert_eq!(err, PlanIssue::NotUnique(Field::ItemRequirement));
    assert_eq!(err.message(), "item requirement must be unique");
}

#[test]
fn slice_without_items_is_refused() {
    let mut p = plan();
    p.slices.push(slice("s3", 3, &[]));
    assert_eq!(validate_plan(&p), Err(PlanIssue::EmptySlice));
}

#[test]
fn reconciliation_predecessor_must_be_positive() {
    let mut p = plan();
    let mut r = reconciliation();
    r.predecessor = 0;
    p.reconciliation = Some(r);
    assert_eq!(validate_plan(&p), Err(PlanIssue::PredecessorNotPositive));
}

#[test]
fn reconciliation_expected_current_must_be_a_digest() {
    let mut p = plan();
    let mut r = reconciliation();
    r.expected_current = s("absent");
    p.reconciliation = Some(r);
    assert_eq!(
        validate_plan(&p),
        Err(PlanIssue::NotDigest(Field::ReconciliationExpectedCurrent))
    );
}

#[test]
fn repeated_mapping_source_is_refused() {
    let mut p = plan();
    let mut r = reconciliation();
    r.tasks.push(r.tasks[0].clone());
    p.reconciliation = Some(r);
    let err = validate_plan(&p).unwrap_err();
    assert_eq!(err, PlanIssue::MappingSources(MappingKind::Task));
    assert_eq!(
        err.message(),
        "reconciliation task sources must be unique positive references"
    );
    assert_eq!(
        validate_mapping_sources(&vec![1, -2], MappingKind::Gate),
        Err(PlanIssue::MappingSources(MappingKind::Gate))
    );
    assert_eq!(validate_mapping_sources(&vec![1, 2, 3], MappingKind::Phase), Ok(()));
}

#[test]
fn retained_mapping_requires_target() {
    let mut p = plan();
    let mut r = reconciliation();
    r.tasks[0].item = None;
    p.reconciliation = Some(r);
    let err = validate_plan(&p).unwrap_err();
    assert_eq!(err, PlanIssue::RetainedRequiresTarget(MappingKind::Task));
    assert_eq!(err.message(), "retained task mapping requires target");
}

#[test]
fn retired_mapping_requires_reason_and_no_effect() {
    let mut p = plan();
    let mut r = reconciliation();
    r.gates[0].reason = None;
    p.reconciliation = Some(r);
    assert_eq!(
        validate_plan(&p),
        Err(PlanIssue::RetiredRequiresReason(MappingKind::Gate))
    );
    let mut q = plan();
    let mut r = reconciliation();
    r.gates[0].effect = Some(ReconciliationEffect::Preserve);
    q.reconciliation = Some(r);
    let err = validate_plan(&q).unwrap_err();
    assert_eq!(err, PlanIssue::RetiredForbidsEffect(MappingKind::Gate));
    assert_eq!(err.message(), "retired gate mapping forbids lifecycle effect");
}

#[test]
fn unknown_disposition_is_refused() {
    let mut p = plan();
    let mut r = reconciliation();
    r.phases[0].disposition = s("kept");
    p.reconciliation = Some(r);
    assert_eq!(validate_plan(&p), Err(PlanIssue::UnknownDisposition));
}

#[test]
fn task_mapping_to_unknown_item_is_refused() {
    let mut p = plan();
    let mut r = reconciliation();
    r.tasks[0].item = Some(s("item-9"));
    p.reconciliation = Some(r);
    assert_eq!(validate_plan(&p), Err(PlanIssue::TaskUnknownItem));
}

#[test]
fn checklist_mapping_to_unknown_boundary_is_refused() {
    let mut p = plan();
    let mut r = reconciliation();
    r.checklist[0].boundary = Some(s("render"));
    p.reconciliation = Some(r);
    assert_eq!(validate_plan(&p), Err(PlanIssue::ChecklistUnknownBoundary));
    let mut q = plan();
    let mut r = reconciliation();
    r.checklist[0].boundary = None;
    q.reconciliation = Some(r);
    assert_eq!(validate_plan(&q), Err(PlanIssue::ChecklistRequiresBoundary));
}

#[test]
fn retired_gate_mapping_forbids_targets() {
    let mut p = plan();
    let mut r = reconciliation();
    r.gates[0].gate = Some(s("unit"));
    p.reconciliation = Some(r);
    assert_eq!(validate_plan(&p), Err(PlanIssue::GateRetiredTargets));
}

#[test]
fn retained_gate_mapping_needs_a_known_gate() {
    let mut p = plan();
    let mut r = reconciliation();
    r.gates[0] = GateReconciliation {
        source: 30,
        disposition: s("retained"),
        item: Some(s("item-1")),
        gate: Some(s("lint")),
        boundary: Some(s("parse")),
        reason: None,
        effect: None,
    };
    p.reconciliation = Some(r);
    assert_eq!(validate_plan(&p), Err(PlanIssue::GateUnknown));
}

#[test]
fn phase_mapping_to_unknown_slice_is_refused() {
    let mut p = plan();
    let mut r = reconciliation();
    r.phases[0].slice = Some(s("s7"));
    p.reconciliation = Some(r);
    assert_eq!(validate_plan(&p), Err(PlanIssue::PhaseUnknownSlice));
}

#[test]
fn dependency_mapping_needs_an_existing_edge() {
    let mut p = plan();
    let mut r = reconciliation();
    r.dependencies[0].from = Some(s("s2"));
    r.dependencies[0].to = Some(s("s1"));
    p.reconciliation = Some(r);
    assert_eq!(validate_plan(&p), Err(PlanIssue::DependencyUnknownEdge));
}

#[test]
fn text_checks_follow_canonical_rules() {
    assert_eq!(require_text("ok", Field::ItemTitle), Ok(()));
    assert_eq!(
        require_text("ok ", Field::ItemTitle),
        Err(PlanIssue::NotCanonical(Field::ItemTitle))
    );
    assert_eq!(
        require_text("", Field::ItemTitle),
        Err(PlanIssue::NotCanonical(Field::ItemTitle))
    );
    assert_eq!(require_key("key_1.a-b", Field::IdempotencyKey), Ok(()));
    assert_eq!(
        require_key("key 1", Field::IdempotencyKey),
        Err(PlanIssue::NotPortable(Field::IdempotencyKey))
    );
    assert_eq!(
        PlanIssue::NotPortable(Field::IdempotencyKey).message(),
        "decomposition idempotency key must be a portable token"
    );
    assert_eq!(require_digest(&digest('F'), Field::ExpectedContent), Ok(()));
    assert_eq!(
        require_digest(&digest('g'), Field::ExpectedContent),
        Err(PlanIssue::NotDigest(Field::ExpectedContent))
    );
}

#[test]
fn unique_values_are_checked_in_order() {
    assert_eq!(unique_nonempty(&vec![s("a"), s("b")], Field::CompletionGate), Ok(()));
    assert_eq!(
        unique_nonempty(&vec![s("a"), s(" "), s("a")], Field::CompletionGate),
        Err(PlanIssue::NotCanonical(Field::CompletionGate))
    );
    assert_eq!(
        unique_nonempty(&vec![s("a"), s("a"), s(" ")], Field::CompletionGate),
        Err(PlanIssue::NotUnique(Field::CompletionGate))
    );
}

#[test]
fn first_failing_check_decides_the_refusal() {
    let mut p = plan();
    p.slices[1].title = s(" padded ");
    p.slices[1].order = 1;
    assert_eq!(validate_plan(&p), Err(PlanIssue::NotCanonical(Field::SliceTitle)));

    let mut p = plan();
    p.slices[1].order = 1;
    p.slices[1].key = s("s1");
    assert_eq!(validate_plan(&p), Err(PlanIssue::SliceOrder));

    let mut p = plan();
    p.slices[1].depends_on = vec![s("s1"), s("s1"), s("missing")];
    assert_eq!(validate_plan(&p), Err(PlanIssue::SliceDependencyDuplicate));

    let mut p = plan();
    p.items[1].key = s("item-1");
    p.items[1].title = s("");
    assert_eq!(validate_plan(&p), Err(PlanIssue::ItemKeyDuplicate));

    let mut p = plan();
    p.items[0].requirements = vec![s("REQ-1"), s("REQ-1"), s(" ")];
    assert_eq!(validate_plan(&p), Err(PlanIssue::NotUnique(Field::ItemRequirement)));

    let mut p = plan();
    let copy = p.items[0].checklist[0].clone();
    p.items[0].checklist.push(copy);
    p.items[0].checklist[1].gates = vec![s("other")];
    assert_eq!(validate_plan(&p), Err(PlanIssue::BoundaryGateUncovered));
}

fn successor() -> PlanDocument {
    let mut p = plan();
    p.reconciliation = Some(reconciliation());
    p
}

#[test]
fn repeated_boundary_key_is_refused() {
    let mut p = plan();
    let copy = p.items[0].checklist[0].clone();
    p.items[0].checklist.push(copy);
    assert_eq!(validate_plan(&p), Err(PlanIssue::BoundaryKeyDuplicate));
}

#[test]
fn retained_mapping_with_reason_is_refused() {
    let mut p = successor();
    p.reconciliation.as_mut().unwrap().tasks[0].reason = Some(s("kept"));
    assert_eq!(validate_plan(&p), Err(PlanIssue::RetainedForbidsReason(MappingKind::Task)));
}

#[test]
fn retired_mapping_with_target_is_refused() {
    let mut p = successor();
    let phase = &mut p.reconciliation.as_mut().unwrap().phases[0];
    phase.disposition = s("retired");
    phase.reason = Some(s("merged"));
    assert_eq!(validate_plan(&p), Err(PlanIssue::RetiredForbidsTarget(MappingKind::Phase)));
}

#[test]
fn retired_checklist_mapping_with_boundary_is_refused() {
    let mut p = successor();
    let checklist = &mut p.reconciliation.as_mut().unwrap().checklist[0];
    checklist.disposition = s("retired");
    checklist.item = None;
    checklist.reason = Some(s("dropped"));
    assert_eq!(validate_plan(&p), Err(PlanIssue::ChecklistRetiredBoundary));
}

#[test]
fn retained_gate_mapping_needs_gate_and_boundary() {
    let mut p = successor();
    let gate = &mut p.reconciliation.as_mut().unwrap().gates[0];
    gate.disposition = s("retained");
    gate.item = Some(s("item-1"));
    gate.reason = None;
    assert_eq!(validate_plan(&p), Err(PlanIssue::GateRequiresGate));
    let gate = &mut p.reconciliation.as_mut().unwrap().gates[0];
    gate.gate = Some(s("unit"));
    assert_eq!(validate_plan(&p), Err(PlanIssue::GateRequiresBoundary));
    let gate = &mut p.reconciliation.as_mut().unwrap().gates[0];
    gate.boundary = Some(s("parse"));
    assert_eq!(validate_plan(&p), Ok(()));
}

#[test]
fn retired_dependency_mapping_with_endpoints_is_refused() {
    let mut p = successor();
    let dependency = &mut p.reconciliation.as_mut().unwrap().dependencies[0];
    dependency.disposition = s("retired");
    dependency.to = None;
    dependency.reason = Some(s("dropped"));
    assert_eq!(validate_plan(&p), Err(PlanIssue::DependencyRetiredEndpoints));
}
