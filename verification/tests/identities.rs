use agent_workbench::identity::{
    decomposition_current_identity, identity, StoredValue, lifecycle_source_identity, plan_content_identity, plan_source_identity,
    projection_handle, reconciliation_payload_identity, reconciliation_result_identity,
    to_lower_hex, LifecycleSourceIdentity,
};
use agent_workbench::records::DecompositionSharedBindingRecord;
use sha2::{Digest, Sha256};

fn hex(parts: &[&[u8]]) -> String {
    let mut hasher = Sha256::new();
    for p in parts {
        hasher.update(p);
    }
    format!("{:x}", hasher.finalize())
}

#[test]
fn identity_of_abc_is_its_sha256() {
    assert_eq!(
        identity(&b"abc".to_vec()),
        "ba7816bf8f01cfea414140de5dae2223b00361a396177a9cb410ff61f20015ad"
    );
    assert_eq!(
        identity(&Vec::new()),
        "e3b0c44298fc1c149afbf4c8996fb92427ae41e4649b934ca495991b7852b855"
    );
}

#[test]
fn lower_hex_writes_two_digits_per_byte() {
    assert_eq!(to_lower_hex(&vec![0x00, 0x0f, 0xa0, 0xff]), "000fa0ff");
    assert_eq!(to_lower_hex(&Vec::new()), "");
}

#[test]
fn plan_content_identity_is_domain_separated() {
    let content = "# Decomposition Plan\n";
    let expected = hex(&[
        b"agent-workbench/decomposition-plan-content/v1\0",
        content.as_bytes(),
    ]);
    assert_eq!(plan_content_identity(content), expected);
    assert_ne!(plan_content_identity(content), plan_source_identity(content));
    assert_ne!(plan_content_identity(content), content);
    assert_eq!(plan_content_identity(content).len(), 64);
}

#[test]
fn plan_source_identity_hashes_the_exact_bytes() {
    let source = "plan é\n";
    let expected = hex(&[
        b"agent-workbench/decomposition-plan-source/v1\0",
        source.as_bytes(),
    ]);
    assert_eq!(plan_source_identity(source), expected);
}

#[test]
fn reconciliation_result_identity_is_domain_separated() {
    let json = "{\"applied\":true}";
    let expected = hex(&[
        b"agent-workbench/decomposition-reconciliation-result/v1\0",
        json.as_bytes(),
    ]);
    assert_eq!(reconciliation_result_identity(json), expected);
}

#[test]
fn lifecycle_source_identity_frames_every_field() {
    let input = LifecycleSourceIdentity {
        operation: "import",
        idempotency_key: "import-1",
        expected_current: "absent",
        predecessor_id: 0,
        revision: 1,
        draft: true,
        source_path: ".agent-workbench/designs/d/plans/p.md",
        source_identity: "abcd",
    };
    let expected = hex(&[
        b"agent-workbench/decomposition-lifecycle-source/v1\0",
        b"import",
        b"\0",
        b"import-1",
        b"\0",
        b"absent",
        b"\0",
        &[1u8],
        &0i64.to_be_bytes(),
        &1i64.to_be_bytes(),
        b".agent-workbench/designs/d/plans/p.md",
        b"\0",
        b"abcd",
    ]);
    assert_eq!(lifecycle_source_identity(input), expected);
    let negative = LifecycleSourceIdentity {
        operation: "revise",
        idempotency_key: "k",
        expected_current: "c",
        predecessor_id: -1,
        revision: 2,
        draft: false,
        source_path: "",
        source_identity: "",
    };
    let expected_negative = hex(&[
        b"agent-workbench/decomposition-lifecycle-source/v1\0",
        b"revise",
        b"\0",
        b"k",
        b"\0",
        b"c",
        b"\0",
        &[0u8],
        &(-1i64).to_be_bytes(),
        &2i64.to_be_bytes(),
        b"",
        b"\0",
        b"",
    ]);
    assert_eq!(lifecycle_source_identity(negative), expected_negative);
}

#[test]
fn reconciliation_payload_identity_appends_expected_current() {
    let expected_with = hex(&[
        b"agent-workbench/decomposition-reconciliation-payload/v1\0",
        &5i64.to_be_bytes(),
        &6i64.to_be_bytes(),
        &7i64.to_be_bytes(),
        b"plans/p.md",
        b"\0",
        b"src",
        b"\0",
        b"cur",
    ]);
    assert_eq!(
        reconciliation_payload_identity(5, 6, 7, "plans/p.md", "src", Some("cur")),
        expected_with
    );
    let expected_without = hex(&[
        b"agent-workbench/decomposition-reconciliation-payload/v1\0",
        &5i64.to_be_bytes(),
        &6i64.to_be_bytes(),
        &7i64.to_be_bytes(),
        b"plans/p.md",
        b"\0",
        b"src",
        b"\0",
    ]);
    assert_eq!(
        reconciliation_payload_identity(5, 6, 7, "plans/p.md", "src", None),
        expected_without
    );
}

#[test]
fn projection_handle_length_prefixes_values() {
    let values = vec!["task".to_string(), "12".to_string(), "é".to_string()];
    let expected = hex(&[
        b"agent-workbench/decomposition-projection/v1\0",
        b"endpoint",
        b"\0",
        &4u64.to_be_bytes(),
        b"task",
        &2u64.to_be_bytes(),
        b"12",
        &2u64.to_be_bytes(),
        "é".as_bytes(),
    ]);
    assert_eq!(projection_handle("endpoint", &values), expected);
    let empty = hex(&[b"agent-workbench/decomposition-projection/v1\0", b"d", b"\0"]);
    assert_eq!(projection_handle("d", &Vec::new()), empty);
}

#[test]
fn current_identity_frames_rows_and_bindings() {
    let rows = vec![
        vec![StoredValue::Integer(5), StoredValue::Null, StoredValue::Bytes(b"ready".to_vec())],
        vec![StoredValue::Real(1.5f64.to_bits())],
    ];
    let bindings = vec![DecompositionSharedBindingRecord {
        kind: "review".to_string(),
        id: 17,
        owner: "review-plan:3".to_string(),
        disposition: "shared".to_string(),
        qualification: "accepted_clean".to_string(),
        observed_handle: "h".to_string(),
    }];
    let expected = hex(&[
        b"agent-workbench/decomposition-current/v1\0",
        b"row\0",
        &5i64.to_be_bytes(),
        b"\0",
        b"null",
        b"\0",
        b"ready",
        b"\0",
        b"row\0",
        &1.5f64.to_bits().to_be_bytes(),
        b"\0",
        b"review",
        &17i64.to_be_bytes(),
        b"review-plan:3",
        b"shared",
        b"accepted_clean",
        b"h",
    ]);
    assert_eq!(decomposition_current_identity(&rows, &bindings), expected);
    let empty = hex(&[b"agent-workbench/decomposition-current/v1\0"]);
    assert_eq!(decomposition_current_identity(&Vec::new(), &Vec::new()), empty);
}
