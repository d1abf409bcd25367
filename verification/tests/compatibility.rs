use agent_workbench::compatibility::{
    check_migrated_source, migrated_boundary_key, migrated_item, migrated_plan_content,
    migrated_plan_document, migrated_plan_names, migrated_slices, migration_mapping_state,
    source_phase_ids, uncovered_derived_bundle_count, uncovered_derived_bundles,
    CompatibilityIssue,
};
use agent_workbench::ingress::{empty_draft_document, validate_document_binding};
use agent_workbench::lifecycle::LifecycleIssue;
use sha2::{Digest, Sha256};

fn s(v: &str) -> String {
    v.to_string()
}

#[test]
fn uncovered_bundles_keep_their_order() {
    let bundles = vec![(1, 10), (2, 20), (3, 30), (2, 21)];
    let covered = vec![(2, 20), (9, 90)];
    assert_eq!(uncovered_derived_bundles(&bundles, &covered), vec![(1, 10), (3, 30), (2, 21)]);
    assert_eq!(uncovered_derived_bundle_count(&bundles, &covered), 3);
    assert_eq!(uncovered_derived_bundle_count(&bundles, &bundles), 0);
}

#[test]
fn migrated_worksheet_plan_has_one_item_in_one_slice() {
    let p = migrated_plan_document(7, "fp", vec![s("REQ-1"), s("REQ-2")]);
    assert_eq!(p.record_type, "decomposition_plan");
    assert_eq!(p.format, 1);
    assert_eq!(p.key, "migrated-work-7");
    assert_eq!(p.design_fingerprint, "fp");
    assert_eq!(p.work, Some(7));
    assert!(p.reconciliation.is_none());
    assert_eq!(p.items.len(), 1);
    assert_eq!(p.items[0].key, "complete-migrated-mapping");
    assert_eq!(p.items[0].requirements, vec![s("REQ-1"), s("REQ-2")]);
    assert_eq!(p.items[0].completion.evidence_owner, "work:7");
    assert_eq!(p.items[0].slice, "migration");
    assert_eq!(p.slices.len(), 1);
    assert_eq!(p.slices[0].key, "migration");
    assert_eq!(p.slices[0].title, "Migration reconciliation");
    assert_eq!(p.slices[0].order, 1);
}

#[test]
fn worksheet_content_fences_the_plan() {
    let content = migrated_plan_content("key: x\n");
    assert!(content.starts_with("# Migrated Decomposition Plan\n\n"));
    assert!(content.ends_with("```yaml agent-workbench\nkey: x\n```\n"));
}

#[test]
fn worksheet_names_follow_the_content_identity() {
    let content = "# Migrated\n";
    let (id, file, temporary) = migrated_plan_names(7, content);
    let expected = format!("{:x}", Sha256::digest(content.as_bytes()));
    assert_eq!(id, expected);
    assert_eq!(file, format!("migrated-work-7-{}.md", &expected[..12]));
    assert_eq!(temporary, format!(".migrated-work-7-{}.tmp", &expected[..12]));
}

#[test]
fn existing_worksheet_must_hold_the_same_content() {
    assert_eq!(check_migrated_source(None, "a"), Ok(true));
    assert_eq!(check_migrated_source(Some("a"), "a"), Ok(false));
    assert_eq!(check_migrated_source(Some("b"), "a"), Err(CompatibilityIssue::DifferentContent));
    assert_eq!(
        CompatibilityIssue::DifferentContent.message(),
        "migrated Decomposition Plan path has different content"
    );
}

#[test]
fn migrated_slices_count_from_one() {
    let phases = vec![(40, s("Build")), (41, s("Ship"))];
    assert_eq!(
        migrated_slices(&phases),
        vec![(s("source-phase-40"), s("Build"), 1), (s("source-phase-41"), s("Ship"), 2)]
    );
}

#[test]
fn source_phases_keep_those_recorded() {
    assert_eq!(source_phase_ids(&vec![3, 1, 2], &vec![1, 3]), vec![3, 1]);
    assert_eq!(source_phase_ids(&vec![3], &Vec::new()), Vec::<i64>::new());
}

#[test]
fn mapping_state_is_exact_only_for_one_of_each() {
    assert_eq!(migration_mapping_state(1, 1), ("exact", None));
    assert_eq!(
        migration_mapping_state(2, 1),
        ("ambiguous", Some("multiple source endpoints require an explicit item mapping"))
    );
    assert_eq!(
        migration_mapping_state(1, 0),
        ("missing", Some("a required source endpoint has no exact mapping"))
    );
    assert_eq!(
        migration_mapping_state(0, 2),
        ("ambiguous", Some("multiple source endpoints require an explicit item mapping"))
    );
}

#[test]
fn migrated_items_and_boundaries_name_their_sources() {
    assert_eq!(migrated_item(7, 12, &vec![40]), (s("source-task-12"), s("work:7"), Some(40)));
    assert_eq!(migrated_item(7, 12, &vec![40, 41]), (s("source-task-12"), s("work:7"), None));
    assert_eq!(migrated_item(7, -3, &Vec::new()), (s("source-task--3"), s("work:7"), None));
    assert_eq!(migrated_boundary_key(55), "source-checklist-55");
}

#[test]
fn document_binding_errors_come_in_their_order() {
    assert_eq!(
        validate_document_binding(false, 1, 2, None, 9, true, false),
        Err(LifecycleIssue::MetadataRequired)
    );
    assert_eq!(
        validate_document_binding(true, 1, 2, Some(9), 9, true, true),
        Err(LifecycleIssue::OwnerMismatch)
    );
    assert_eq!(
        validate_document_binding(true, 2, 2, Some(8), 9, true, true),
        Err(LifecycleIssue::OwnerMismatch)
    );
    assert_eq!(
        validate_document_binding(true, 2, 2, None, 9, true, true),
        Err(LifecycleIssue::OwnerMismatch)
    );
    assert_eq!(
        validate_document_binding(true, 2, 2, Some(9), 9, true, false),
        Err(LifecycleIssue::PackageMismatch)
    );
    assert_eq!(validate_document_binding(true, 2, 2, None, 9, false, true), Ok(()));
    assert_eq!(validate_document_binding(true, 2, 2, Some(9), 9, true, true), Ok(()));
    assert_eq!(
        LifecycleIssue::OwnerMismatch.message(),
        "Decomposition Plan does not identify the selected design and work owner"
    );
}

#[test]
fn pathless_import_starts_from_an_empty_draft() {
    let p = empty_draft_document(9, s("fp"));
    assert_eq!(p.key, "work-9-plan");
    assert_eq!(p.record_type, "decomposition_plan");
    assert_eq!(p.format, 1);
    assert_eq!(p.design_fingerprint, "fp");
    assert_eq!(p.work, Some(9));
    assert!(p.items.is_empty() && p.slices.is_empty() && p.reconciliation.is_none());
}
