use reposeiri::fs::path::{normalize_relative_path, PathComponent, RepoPathError, RepoRelativePath};

fn normal(text: &str) -> PathComponent {
    PathComponent::Normal {
        text: text.to_string(),
        utf8: true,
    }
}

#[test]
fn rooted_path_below_root_joins_with_slashes() {
    let root = vec![PathComponent::RootDir, normal("repo")];
    let path = vec![PathComponent::RootDir, normal("repo"), normal("docs"), normal("a.md")];
    let rel = RepoRelativePath::from_rooted(&root, &path).expect("relative");
    assert_eq!(rel.as_str(), "docs/a.md");
    assert_eq!(rel.into_string(), "docs/a.md".to_string());
}

#[test]
fn rooted_path_errors() {
    let root = vec![PathComponent::RootDir, normal("repo")];
    let outside = vec![PathComponent::RootDir, normal("other"), normal("a")];
    assert_eq!(
        RepoRelativePath::from_rooted(&root, &outside),
        Err(RepoPathError::OutsideRepository)
    );
    let parent = vec![PathComponent::RootDir, normal("repo"), PathComponent::ParentDir];
    assert_eq!(
        RepoRelativePath::from_rooted(&root, &parent),
        Err(RepoPathError::NonNormalComponent)
    );
    let bad = vec![
        PathComponent::RootDir,
        normal("repo"),
        PathComponent::Normal { text: "\u{fffd}".to_string(), utf8: false },
    ];
    assert_eq!(RepoRelativePath::from_rooted(&root, &bad), Err(RepoPathError::NonUtf8));
    assert_eq!(RepoRelativePath::from_rooted(&root, &root), Err(RepoPathError::Empty));
}

#[test]
fn display_path_falls_back_to_whole_path() {
    let root = vec![PathComponent::RootDir, normal("repo")];
    let inside = vec![PathComponent::RootDir, normal("repo"), normal("src"), normal("lib.rs")];
    assert_eq!(normalize_relative_path(&root, &inside), "src/lib.rs");
    let outside = vec![normal("x"), normal("y")];
    assert_eq!(normalize_relative_path(&root, &outside), "x/y");
}
