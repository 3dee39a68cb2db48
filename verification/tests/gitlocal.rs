use reposeiri::gitlocal::gowork::{go_work_members, split_lines};
use reposeiri::gitlocal::refs::{offset_minutes, reference_kind, GitReferenceKind};
use reposeiri::gitlocal::scope::{
    contains_path, final_component, join_relative, manifest_kind, member_matches,
    normalize_member, parent_path, WorkspaceManifestKind,
};

#[test]
fn manifest_kinds() {
    assert_eq!(manifest_kind("crates/a/Cargo.toml"), Some(WorkspaceManifestKind::Cargo));
    assert_eq!(manifest_kind("package.json"), Some(WorkspaceManifestKind::Npm));
    assert_eq!(manifest_kind("py/pyproject.toml"), Some(WorkspaceManifestKind::Pyproject));
    assert_eq!(manifest_kind("go.work"), Some(WorkspaceManifestKind::GoWork));
    assert_eq!(manifest_kind("cargo.toml"), None);
}

#[test]
fn member_patterns_and_paths() {
    assert!(member_matches("crates/*", "crates/core"));
    assert!(!member_matches("crates/*", "crates/core/sub"));
    assert!(member_matches("a/b", "a/b"));
    assert!(!member_matches("a/*", "b/c"));
    assert!(contains_path("", "anything"));
    assert!(contains_path("crates", "crates"));
    assert!(contains_path("crates", "crates/core"));
    assert!(!contains_path("crates", "crates-extra/core"));
    assert_eq!(parent_path("a/b/c"), "a/b");
    assert_eq!(parent_path("a"), "");
    assert_eq!(final_component("a/b/c"), "c");
    assert_eq!(final_component("c"), "c");
    assert_eq!(normalize_member(".\\././pkg\\sub//"), "pkg/sub");
    assert_eq!(join_relative("", "./x/"), "x");
    assert_eq!(join_relative("root", "./x/"), "root/x");
}

#[test]
fn lines_match_std() {
    for text in ["", "a", "a\n", "a\r\nb", "a\n\nb\n", "a\r", "\r\n", "x\ry\n"] {
        let chars: Vec<char> = text.chars().collect();
        let ours: Vec<String> = split_lines(&chars).into_iter().map(|l| l.into_iter().collect()).collect();
        let std_lines: Vec<String> = text.lines().map(str::to_string).collect();
        assert_eq!(ours, std_lines, "{text:?}");
    }
}

#[test]
fn go_work_use_directives() {
    let text = "go 1.22\n\nuse ./tools // tools\nuse (\n  \"./a\"\n  ./b // b\n\n)\n// use ./c\n";
    let parsed = go_work_members(text).expect("closed block");
    assert_eq!(parsed.members, vec!["./tools", "./a", "./b"]);
    assert!(parsed.declares_workspace);
    assert!(!parsed.declares_package);
    assert!(go_work_members("use (\n ./a\n").is_none());
    assert_eq!(go_work_members("").expect("empty").members, Vec::<String>::new());
}

#[test]
fn references_and_offsets() {
    assert_eq!(reference_kind("refs/heads/main"), GitReferenceKind::LocalBranch);
    assert_eq!(reference_kind("refs/remotes/origin/main"), GitReferenceKind::RemoteBranch);
    assert_eq!(reference_kind("refs/tags/v1"), GitReferenceKind::Tag);
    assert_eq!(reference_kind("HEAD"), GitReferenceKind::Other);
    assert_eq!(offset_minutes(5400), 90);
    assert_eq!(offset_minutes(-5430), -90);
    assert_eq!(offset_minutes(59), 0);
    assert_eq!(offset_minutes(-59), 0);
    assert_eq!(offset_minutes(i32::MAX), i16::MAX);
    assert_eq!(offset_minutes(i32::MIN), i16::MIN);
}
