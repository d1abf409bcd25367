use agent_workbench::path::same_path;

#[test]
fn paths_compare_by_components() {
    assert!(same_path("plans/a.md", "plans/a.md"));
    assert!(same_path("plans//a.md", "plans/a.md"));
    assert!(same_path("plans/./a.md", "plans/a.md"));
    assert!(same_path("plans/a.md/", "plans/a.md"));
    assert!(same_path("/root/plans/a.md", "/root//plans/a.md"));
    assert!(same_path("", ""));
    assert!(same_path("./a", ".//a"));
    assert!(!same_path("./plans/a.md", "plans/a.md"));
    assert!(!same_path("/plans/a.md", "plans/a.md"));
    assert!(!same_path("plans/../a.md", "a.md"));
    assert!(!same_path("plans/a.md", "plans/b.md"));
}

#[test]
fn path_components_agree_with_std() {
    let cases = [
        ("plans//a.md", "plans/a.md"),
        ("./a/b", "a/b"),
        ("a/./b/.", "a/b"),
        ("/", "//"),
        (".", "./"),
        ("a/..", "a"),
        ("./.", "."),
    ];
    for (a, b) in cases {
        assert_eq!(same_path(a, b), std::path::Path::new(a) == std::path::Path::new(b), "{a} vs {b}");
    }
}
