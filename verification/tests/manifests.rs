use reposeiri::github::renovate::JsonValue;
use reposeiri::gitlocal::manifests::{
    cargo_members, cargo_members_of, npm_members, npm_members_of, parse_manifest, pyproject_members, TomlValue,
};
use reposeiri::gitlocal::scope::WorkspaceManifestKind;

#[test]
fn cargo_workspace_members_and_package() {
    let text = "[workspace]\nmembers = [\"crates/a\", 3, \"crates/b\"]\n\n[package]\nname = \"x\"\n";
    let parsed = cargo_members(text).unwrap();
    assert_eq!(parsed.members, vec!["crates/a".to_string(), "crates/b".to_string()]);
    assert!(parsed.declares_workspace);
    assert!(parsed.declares_package);
    let plain = cargo_members("[package]\nname = \"x\"\n").unwrap();
    assert!(plain.members.is_empty());
    assert!(!plain.declares_workspace);
    assert!(cargo_members("[package\n").is_none());
}

#[test]
fn cargo_document_without_members_array() {
    let doc = TomlValue::Table(vec![(
        "workspace".to_string(),
        TomlValue::Table(vec![("members".to_string(), TomlValue::Text("crates/*".to_string()))]),
    )]);
    let parsed = cargo_members_of(Some(doc)).unwrap();
    assert!(parsed.members.is_empty());
    assert!(parsed.declares_workspace);
    assert!(!parsed.declares_package);
    assert!(cargo_members_of(None).is_none());
}

#[test]
fn pyproject_uv_workspace() {
    let text = "[project]\nname = \"x\"\n\n[tool.uv.workspace]\nmembers = [\"packages/*\"]\n";
    let parsed = pyproject_members(text).unwrap();
    assert_eq!(parsed.members, vec!["packages/*".to_string()]);
    assert!(parsed.declares_workspace);
    assert!(parsed.declares_package);
    let other = pyproject_members("[tool.poetry]\nname = \"x\"\n").unwrap();
    assert!(!other.declares_workspace);
    assert!(!other.declares_package);
}

#[test]
fn npm_workspaces_forms() {
    let parsed = npm_members("{\"name\":\"root\",\"workspaces\":[\"packages/*\",1]}").unwrap();
    assert_eq!(parsed.members, vec!["packages/*".to_string()]);
    assert!(parsed.declares_workspace && parsed.declares_package);
    let object = npm_members("{\"workspaces\":{\"packages\":[\"apps/*\"]}}").unwrap();
    assert_eq!(object.members, vec!["apps/*".to_string()]);
    assert!(object.declares_workspace && !object.declares_package);
    let none = npm_members("{\"name\":\"x\"}").unwrap();
    assert!(!none.declares_workspace && none.members.is_empty());
    assert!(npm_members("{\"workspaces\":\"packages/*\"}").is_none());
    assert!(npm_members("{").is_none());
    assert!(npm_members_of(Err((1, 1))).is_none());
    let doc = JsonValue::Object(vec![("workspaces".to_string(), JsonValue::Null)]);
    assert!(npm_members_of(Ok(doc)).is_none());
}

#[test]
fn manifests_are_read_by_kind() {
    let go = parse_manifest(WorkspaceManifestKind::GoWork, "go 1.22\n\nuse ./a\n").unwrap();
    assert_eq!(go.members, vec!["./a".to_string()]);
    assert!(go.declares_workspace && !go.declares_package);
    let cargo = parse_manifest(WorkspaceManifestKind::Cargo, "[workspace]\nmembers = [\"a\"]\n").unwrap();
    assert_eq!(cargo.members, vec!["a".to_string()]);
}
