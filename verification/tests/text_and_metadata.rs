use agent_workbench::metadata::{canonical_plan_content, fenced_metadata, MetadataIssue};
use agent_workbench::order::{sorted_text_set, text_less};
use agent_workbench::text::{
    chars_of, i64_decimal, is_canonical_text, parse_i64, str_eq, u64_decimal, white_space,
};

#[test]
fn metadata_block_is_found() {
    let content = "# Plan\n\n```yaml agent-workbench\ntype: decomposition_plan\nformat: 1\n```\ntrailer\n";
    assert_eq!(
        fenced_metadata(content),
        Ok(Some("type: decomposition_plan\nformat: 1".to_string()))
    );
}

#[test]
fn content_without_metadata_has_none() {
    assert_eq!(fenced_metadata("# Plan\n\nno block here\n"), Ok(None));
    assert_eq!(fenced_metadata(""), Ok(None));
}

#[test]
fn second_metadata_block_is_refused() {
    let content = "```yaml agent-workbench\na\n```\n```yaml agent-workbench\nb\n```\n";
    let err = fenced_metadata(content).unwrap_err();
    assert_eq!(err, MetadataIssue::MoreThanOneBlock);
    assert_eq!(
        err.message(),
        "decomposition plan must contain exactly one metadata block"
    );
}

#[test]
fn fence_must_end_its_line() {
    let err = fenced_metadata("```yaml agent-workbench extra\na\n```\n").unwrap_err();
    assert_eq!(err, MetadataIssue::FenceNotAtLineEnd);
    assert_eq!(
        err.message(),
        "decomposition plan metadata fence must end its line"
    );
    assert_eq!(
        fenced_metadata("text ```yaml agent-workbench"),
        Err(MetadataIssue::FenceNotAtLineEnd)
    );
}

#[test]
fn unterminated_fence_is_refused() {
    let err = fenced_metadata("```yaml agent-workbench\na: 1\n").unwrap_err();
    assert_eq!(err, MetadataIssue::Unterminated);
    assert_eq!(err.message(), "decomposition plan metadata fence is unterminated");
}

#[test]
fn empty_metadata_block_is_found() {
    assert_eq!(
        fenced_metadata("```yaml agent-workbench\n\n```"),
        Ok(Some(String::new()))
    );
}

#[test]
fn canonical_content_frames_metadata() {
    assert_eq!(
        canonical_plan_content("{\n  \"type\": \"decomposition_plan\"\n}"),
        "# Decomposition Plan\n\n```yaml agent-workbench\n{\n  \"type\": \"decomposition_plan\"\n}\n```\n"
    );
}

#[test]
fn canonical_content_round_trips_through_the_fence() {
    let metadata = "{\n  \"key\": \"plan-a\",\n  \"format\": 1\n}";
    let framed = canonical_plan_content(metadata);
    assert_eq!(fenced_metadata(&framed), Ok(Some(metadata.to_string())));
}

#[test]
fn decimal_text_is_written_and_parsed() {
    assert_eq!(u64_decimal(0), "0");
    assert_eq!(u64_decimal(18446744073709551615), "18446744073709551615");
    assert_eq!(i64_decimal(-42), "-42");
    assert_eq!(i64_decimal(i64::MIN), "-9223372036854775808");
    assert_eq!(parse_i64("42"), Some(42));
    assert_eq!(parse_i64("+7"), Some(7));
    assert_eq!(parse_i64("-9223372036854775808"), Some(i64::MIN));
    assert_eq!(parse_i64("9223372036854775808"), None);
    assert_eq!(parse_i64(""), None);
    assert_eq!(parse_i64("-"), None);
    assert_eq!(parse_i64("1a"), None);
    assert_eq!(parse_i64(" 1"), None);
    for x in [0i64, 1, -1, 1234567, i64::MAX, i64::MIN] {
        assert_eq!(parse_i64(&i64_decimal(x)), Some(x));
        assert_eq!(parse_i64(&x.to_string()), x.to_string().parse::<i64>().ok());
    }
}

#[test]
fn canonical_text_has_no_outer_whitespace() {
    assert!(is_canonical_text("plan"));
    assert!(is_canonical_text("two words"));
    assert!(!is_canonical_text(""));
    assert!(!is_canonical_text(" plan"));
    assert!(!is_canonical_text("plan\n"));
    assert!(!is_canonical_text("plan\u{3000}"));
    assert!(white_space('\u{85}'));
    assert!(!white_space('x'));
}

#[test]
fn text_helpers_compare_by_code_points() {
    assert!(str_eq("é", "é"));
    assert!(!str_eq("a", "ab"));
    assert_eq!(chars_of("aé"), vec!['a', 'é']);
    assert!(text_less("a", "b"));
    assert!(text_less("a", "ab"));
    assert!(!text_less("b", "ab"));
    assert!(!text_less("same", "same"));
    assert!(text_less("Z", "a"));
}

#[test]
fn sorted_text_set_orders_and_dedups() {
    let values = vec![
        "gate-b".to_string(),
        "gate-a".to_string(),
        "gate-b".to_string(),
        "Gate".to_string(),
    ];
    assert_eq!(
        sorted_text_set(&values),
        vec!["Gate".to_string(), "gate-a".to_string(), "gate-b".to_string()]
    );
    assert_eq!(sorted_text_set(&Vec::new()), Vec::<String>::new());
}
