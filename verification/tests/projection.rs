use agent_workbench::document::{normalized_effect, stored_effect, ReconciliationEffect};
use agent_workbench::identity::projection_handle;
use agent_workbench::projection::{
    binding_subjects, decomposition_mappings, decomposition_shared_bindings, StoredEndpoints,
    StoredMappingRow, effect_qualification, projected_effect,
    review_binding, review_qualification, shared_owner, subject_binding, text_starts_with,
    ReviewRunRow, SharedBindingRows,
};

fn s(v: &str) -> String {
    v.to_string()
}

fn run(status: &str, clean: i64, findings: i64, provenance: &str, decision: &str) -> ReviewRunRow {
    ReviewRunRow {
        id: 17,
        review_plan_id: 3,
        status: s(status),
        clean,
        findings,
        summary: s("looks fine"),
        provenance: s(provenance),
        provenance_ref: s("ref-1"),
        decision: s(decision),
        target_ref: s("decomposition-plan:5"),
    }
}


#[test]
fn effects_are_normalized_and_stored_for_retained_mappings() {
    assert_eq!(normalized_effect(None), ReconciliationEffect::Preserve);
    assert_eq!(normalized_effect(Some(ReconciliationEffect::Open)), ReconciliationEffect::Open);
    assert_eq!(ReconciliationEffect::Open.as_str(), "open");
    assert_eq!(stored_effect("retained", None), Some("preserve"));
    assert_eq!(stored_effect("retained", Some(ReconciliationEffect::Open)), Some("open"));
    assert_eq!(stored_effect("retired", Some(ReconciliationEffect::Open)), None);
}

#[test]
fn effect_qualification_follows_disposition_and_effect() {
    assert_eq!(effect_qualification("retained", None), "preserved_qualified");
    assert_eq!(effect_qualification("retained", Some(ReconciliationEffect::Open)), "open");
    assert_eq!(effect_qualification("new", None), "open");
    assert_eq!(effect_qualification("retired", None), "historical_only");
    assert_eq!(effect_qualification("other", None), "unqualified");
}

#[test]
fn projected_effect_observes_its_mapping() {
    let r = projected_effect("task", 12, Some(s("item-1")), "retained", None, None);
    assert_eq!(r.category, "task");
    assert_eq!(r.source_id, 12);
    assert_eq!(r.target, Some(s("item-1")));
    assert_eq!(r.effect, Some(s("preserve")));
    assert_eq!(r.qualification, "preserved_qualified");
    let values = vec![s("task"), s("12"), s("item-1"), s("retained"), s("preserve"), s("-")];
    assert_eq!(r.observed_handle, projection_handle("projected-owned-effect", &values));
    let retired = projected_effect("gate", 4, None, "retired", None, Some("dropped"));
    assert_eq!(retired.effect, None);
    assert_eq!(retired.qualification, "historical_only");
    let values = vec![s("gate"), s("4"), s("-"), s("retired"), s("-"), s("dropped")];
    assert_eq!(retired.observed_handle, projection_handle("projected-owned-effect", &values));
}

#[test]
fn review_runs_qualify_by_outcome_and_provenance() {
    assert_eq!(review_qualification(&run("completed", 1, 0, "external_agent", "accepted")), "accepted_clean");
    assert_eq!(review_qualification(&run("completed", 1, 0, "self", "accepted")), "historical_only");
    assert_eq!(review_qualification(&run("completed", 0, 2, "human_review", "accepted")), "historical_only");
    assert_eq!(review_qualification(&run("running", 0, 0, "human_review", "none")), "pending");
    assert_eq!(review_qualification(&run("completed", 1, 0, "human_review", "pending")), "pending");
    let mut no_ref = run("completed", 1, 0, "human_review", "accepted");
    no_ref.provenance_ref = String::new();
    assert_eq!(review_qualification(&no_ref), "historical_only");
}

#[test]
fn review_binding_skips_runs_of_other_plans() {
    let row = run("completed", 1, 0, "external_agent", "accepted");
    let b = review_binding(&row, 5, "decomposition-plan:5", Some(9)).unwrap();
    assert_eq!(b.kind, "review");
    assert_eq!(b.id, 17);
    assert_eq!(b.owner, "review-plan:3");
    assert_eq!(b.qualification, "accepted_clean");
    let values = vec![
        s("17"), s("3"), s("completed"), s("1"), s("0"), s("looks fine"), s("external_agent"),
        s("ref-1"), s("accepted"), s("decomposition-plan:5"),
    ];
    assert_eq!(b.observed_handle, projection_handle("shared-review", &values));
    assert!(review_binding(&row, 5, "decomposition-plan:6", Some(9)).is_none());
    assert!(review_binding(&row, 5, "decomposition-plan:6", Some(5)).is_some());
    assert!(review_binding(&row, 5, "decomposition-plan:6", None).is_some());
}

#[test]
fn shared_owner_names_task_and_requirement() {
    assert_eq!(shared_owner(Some(1), Some(2)), "task:1/requirement:2");
    assert_eq!(shared_owner(Some(1), None), "task:1");
    assert_eq!(shared_owner(None, Some(2)), "requirement:2");
    assert_eq!(shared_owner(None, None), "unbound");
}

#[test]
fn subjects_ignore_absent_and_zero_ids() {
    assert_eq!(binding_subjects(&vec![s("1"), s("4"), s("")]), (Some(4), None));
    assert_eq!(binding_subjects(&vec![s("1"), s("0"), s("7")]), (None, Some(7)));
}

#[test]
fn coverage_and_evidence_bindings_qualify() {
    let values = vec![s("8"), s("4"), s("2"), s("covered")];
    let b = subject_binding(&values, true, true).unwrap();
    assert_eq!(b.kind, "coverage");
    assert_eq!(b.id, 8);
    assert_eq!(b.owner, "task:4/requirement:2");
    assert_eq!(b.qualification, "current");
    assert_eq!(b.observed_handle, projection_handle("shared-coverage", &values));
    assert_eq!(subject_binding(&values, true, false).unwrap().qualification, "recompute_required");
    let stale = vec![s("8"), s("4"), s("2"), s("stale")];
    assert_eq!(subject_binding(&stale, true, true).unwrap().qualification, "stale");
    let open = vec![s("8"), s("4"), s("2"), s("open")];
    assert_eq!(subject_binding(&open, true, true).unwrap().qualification, "needs_evidence");
    let evidence = subject_binding(&values, false, false).unwrap();
    assert_eq!(evidence.kind, "evidence");
    assert_eq!(evidence.qualification, "stale");
    assert_eq!(evidence.observed_handle, projection_handle("shared-evidence", &values));
    assert!(subject_binding(&vec![s("x"), s("4"), s("2"), s("covered")], true, true).is_none());
}

fn run_with_id(id: i64, target_ref: &str) -> ReviewRunRow {
    let mut r = run("completed", 1, 0, "human_review", "accepted");
    r.id = id;
    r.target_ref = s(target_ref);
    r
}

fn subject_row(id: &str, status: &str, current: bool) -> (Vec<String>, bool) {
    (vec![s(id), s("4"), s("2"), s(status)], current)
}

#[test]
fn shared_bindings_sort_by_kind_then_id() {
    let rows = SharedBindingRows {
        reviews: vec![
            (run_with_id(2, "decomposition-plan:5"), Some(5)),
            (run_with_id(1, "decomposition-plan:5"), Some(5)),
        ],
        evidence: vec![subject_row("3", "", true)],
        coverage: vec![subject_row("9", "covered", true), subject_row("4", "stale", false)],
    };
    let sorted = decomposition_shared_bindings(5, "decomposition-plan:5", &rows).unwrap();
    let keys: Vec<(String, i64)> = sorted.iter().map(|b| (b.kind.clone(), b.id)).collect();
    assert_eq!(
        keys,
        vec![
            (s("coverage"), 4),
            (s("coverage"), 9),
            (s("evidence"), 3),
            (s("review"), 1),
            (s("review"), 2),
        ]
    );
    let qualifications: Vec<String> = sorted.iter().map(|b| b.qualification.clone()).collect();
    assert_eq!(
        qualifications,
        vec![s("stale"), s("current"), s("current"), s("accepted_clean"), s("accepted_clean")]
    );
    assert!(sorted.iter().all(|b| b.disposition == "shared"));
}

#[test]
fn shared_bindings_skip_reviews_of_other_plans_and_refuse_bad_ids() {
    let rows = SharedBindingRows {
        reviews: vec![
            (run_with_id(1, "decomposition-plan:6"), Some(6)),
            (run_with_id(2, "decomposition-plan:6"), None),
        ],
        evidence: vec![],
        coverage: vec![],
    };
    let bindings = decomposition_shared_bindings(5, "decomposition-plan:5", &rows).unwrap();
    assert_eq!(bindings.len(), 1);
    assert_eq!(bindings[0].id, 2);
    let bad = SharedBindingRows {
        reviews: vec![],
        evidence: vec![subject_row("x", "", true)],
        coverage: vec![],
    };
    assert!(decomposition_shared_bindings(5, "decomposition-plan:5", &bad).is_none());
}

#[test]
fn prefixes_are_matched_by_characters() {
    assert!(text_starts_with("agent-workbench work remediate --finding 3", "agent-workbench work remediate"));
    assert!(text_starts_with("abc", ""));
    assert!(!text_starts_with("ab", "abc"));
    assert!(!text_starts_with("xbc", "a"));
}

fn stored(category: &str, source: i64, target: Option<&str>, disposition: &str, effect: Option<&str>, reason: Option<&str>) -> StoredMappingRow {
    StoredMappingRow {
        category: s(category),
        source_id: source,
        target: target.map(s),
        disposition: s(disposition),
        effect: effect.map(s),
        reason: reason.map(s),
    }
}

#[test]
fn stored_mappings_add_new_endpoints_and_sort() {
    let rows = vec![
        stored("task", 7, Some("item:i1"), "retained", Some("preserve"), None),
        stored("task", 3, None, "retired", None, Some("gone")),
        stored("gate", 5, Some("gate:i1/unit@abc"), "retained", Some("open"), None),
        stored("phase", 2, Some("slice:s1"), "retained", None, None),
    ];
    let endpoints = StoredEndpoints {
        items: vec![s("i1"), s("i2")],
        boundaries: vec![(s("i2"), s("b"))],
        gates: vec![(s("i1"), s("unit")), (s("i2"), s("lint"))],
        slices: vec![s("s1")],
        dependencies: Vec::new(),
    };
    let records = decomposition_mappings(&rows, &endpoints);
    let seen: Vec<(String, i64, Option<String>, String, Option<String>, String)> = records
        .iter()
        .map(|r| (r.category.clone(), r.source_id, r.target.clone(), r.disposition.clone(), r.effect.clone(), r.qualification.clone()))
        .collect();
    assert_eq!(
        seen,
        vec![
            (s("checklist"), 0, Some(s("boundary:i2/b")), s("new"), Some(s("open")), s("open")),
            (s("gate"), 0, Some(s("gate:i2/lint@new")), s("new"), Some(s("open")), s("open")),
            (s("gate"), 5, Some(s("gate:i1/unit@abc")), s("retained"), Some(s("open")), s("open")),
            (s("phase"), 2, Some(s("slice:s1")), s("retained"), None, s("unqualified")),
            (s("task"), 0, Some(s("item:i2")), s("new"), Some(s("open")), s("open")),
            (s("task"), 3, None, s("retired"), None, s("historical_only")),
            (s("task"), 7, Some(s("item:i1")), s("retained"), Some(s("preserve")), s("preserved_qualified")),
        ]
    );
    let retired = records.iter().find(|r| r.source_id == 3).unwrap();
    let values = vec![s("task"), s("3"), s("-"), s("retired"), s("-"), s("gone")];
    assert_eq!(retired.observed_handle, projection_handle("owned-mapping", &values));
    let added = records.iter().find(|r| r.target == Some(s("item:i2"))).unwrap();
    let values = vec![s("task"), s("0"), s("item:i2"), s("new"), s("open"), s("-")];
    assert_eq!(added.observed_handle, projection_handle("owned-mapping", &values));
}

#[test]
fn shared_bindings_with_equal_keys_keep_their_order() {
    let mut first = run_with_id(3, "decomposition-plan:5");
    first.review_plan_id = 1;
    let mut second = run_with_id(3, "decomposition-plan:5");
    second.review_plan_id = 2;
    let rows = SharedBindingRows {
        reviews: vec![(second, Some(5)), (first, Some(5))],
        evidence: vec![],
        coverage: vec![subject_row("1", "covered", true)],
    };
    let sorted = decomposition_shared_bindings(5, "decomposition-plan:5", &rows).unwrap();
    let owners: Vec<String> = sorted.iter().map(|b| b.owner.clone()).collect();
    assert_eq!(owners, vec![s("task:4/requirement:2"), s("review-plan:2"), s("review-plan:1")]);
}
