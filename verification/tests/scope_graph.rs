use reposeiri::gitlocal::observe::{CoverageIncompleteReason, CoverageStatus};
use reposeiri::gitlocal::scope_graph::{build_scope_graph, ManifestDeclaration, ScopeEdge, ScopeEdgeKind, ScopeGraphBuilder, ScopeNodeKind};

#[test]
fn nodes_are_numbered_once_per_kind_and_path() {
    let mut graph = ScopeGraphBuilder::new(3);
    let repo = graph.add_node(ScopeNodeKind::Repository, String::new(), None);
    let crate_a = graph.add_node(ScopeNodeKind::Package, "crates/a".to_string(), Some("crates/a/Cargo.toml".to_string()));
    let again = graph.add_node(ScopeNodeKind::Package, "crates/a".to_string(), None);
    let docs = graph.add_node(ScopeNodeKind::Documentation, "crates/a".to_string(), None);
    assert_eq!((repo, crate_a, again, docs), (Some(1), Some(2), Some(2), Some(3)));
    assert_eq!(graph.node_id(ScopeNodeKind::Package, "crates/a"), Some(2));
    assert_eq!(graph.node_id(ScopeNodeKind::Workspace, "crates/a"), None);
    let (nodes, _, coverage) = graph.finish();
    assert_eq!(nodes.len(), 3);
    assert_eq!(nodes[1].manifest.as_deref(), Some("crates/a/Cargo.toml"));
    assert_eq!(coverage, CoverageStatus::Complete);
}

#[test]
fn node_budget_truncates_the_graph() {
    let mut graph = ScopeGraphBuilder::new(1);
    assert_eq!(graph.add_node(ScopeNodeKind::Repository, String::new(), None), Some(1));
    assert_eq!(graph.add_node(ScopeNodeKind::Package, "a".to_string(), None), None);
    assert_eq!(graph.add_node(ScopeNodeKind::Repository, String::new(), None), Some(1));
    let (nodes, _, coverage) = graph.finish();
    assert_eq!(nodes.len(), 1);
    assert_eq!(coverage, CoverageStatus::Partial(CoverageIncompleteReason::LimitExceeded));
}

#[test]
fn edges_are_kept_once_in_order_without_self_edges() {
    let mut graph = ScopeGraphBuilder::new(8);
    graph.add_edge(2, 3, ScopeEdgeKind::Documentation);
    graph.add_edge(1, 2, ScopeEdgeKind::PackageManifest);
    graph.add_edge(1, 2, ScopeEdgeKind::Contains);
    graph.add_edge(1, 2, ScopeEdgeKind::PackageManifest);
    graph.add_edge(4, 4, ScopeEdgeKind::Contains);
    let (_, edges, _) = graph.finish();
    assert_eq!(
        edges,
        vec![
            ScopeEdge { from: 1, to: 2, kind: ScopeEdgeKind::Contains },
            ScopeEdge { from: 1, to: 2, kind: ScopeEdgeKind::PackageManifest },
            ScopeEdge { from: 2, to: 3, kind: ScopeEdgeKind::Documentation },
        ]
    );
}

#[test]
fn closest_container_is_the_longest_holding_path() {
    let mut graph = ScopeGraphBuilder::new(8);
    graph.add_node(ScopeNodeKind::Repository, String::new(), None);
    graph.add_node(ScopeNodeKind::Workspace, "crates".to_string(), None);
    graph.add_node(ScopeNodeKind::Package, "crates/a".to_string(), None);
    graph.add_node(ScopeNodeKind::Documentation, "crates/a/docs".to_string(), None);
    assert_eq!(graph.closest_container("crates/a/docs"), Some(3));
    assert_eq!(graph.closest_container("crates/ab"), Some(2));
    assert_eq!(graph.closest_container("tools"), Some(1));
    let empty = ScopeGraphBuilder::new(2);
    assert_eq!(empty.closest_container("x"), None);
}

#[test]
fn files_add_packages_and_content_directories() {
    use_file_nodes();
}

fn use_file_nodes() {
    let file = |path: &str, kind| reposeiri::fs::records::FileRecord { path: path.to_string(), kind, size_bytes: 0 };
    let files = vec![
        file("tools/go.mod", reposeiri::fs::records::FileKind::File),
        file("tools/docs", reposeiri::fs::records::FileKind::Directory),
        file("examples", reposeiri::fs::records::FileKind::Directory),
        file("src", reposeiri::fs::records::FileKind::Directory),
    ];
    let mut graph = ScopeGraphBuilder::new(8);
    let repo = graph.add_node(ScopeNodeKind::Repository, String::new(), None).unwrap();
    graph.add_file_nodes(&files, repo);
    let (nodes, edges, _) = graph.finish();
    let kinds: Vec<(ScopeNodeKind, &str)> = nodes.iter().map(|n| (n.kind, n.path.as_str())).collect();
    assert_eq!(
        kinds,
        vec![
            (ScopeNodeKind::Repository, ""),
            (ScopeNodeKind::Package, "tools"),
            (ScopeNodeKind::Documentation, "tools/docs"),
            (ScopeNodeKind::Example, "examples"),
        ]
    );
    assert_eq!(nodes[1].manifest.as_deref(), Some("tools/go.mod"));
    assert_eq!(
        edges,
        vec![
            ScopeEdge { from: 1, to: 2, kind: ScopeEdgeKind::Contains },
            ScopeEdge { from: 1, to: 4, kind: ScopeEdgeKind::Example },
            ScopeEdge { from: 2, to: 3, kind: ScopeEdgeKind::Documentation },
        ]
    );
}

#[test]
fn scope_graph_from_manifests_files_and_submodules() {
    let file = |path: &str, kind| reposeiri::fs::records::FileRecord { path: path.to_string(), kind, size_bytes: 0 };
    let files = vec![file("Cargo.toml", reposeiri::fs::records::FileKind::File), file("docs", reposeiri::fs::records::FileKind::Directory)];
    let manifests = vec![
        ManifestDeclaration { path: "Cargo.toml".to_string(), declares_workspace: true, declares_package: false, members: vec!["crates/*".to_string()] },
        ManifestDeclaration { path: "crates/a/Cargo.toml".to_string(), declares_workspace: false, declares_package: true, members: vec![] },
    ];
    let gitmodules = "[submodule \"vendor/x\"]\n\tpath = vendor/x/\n";
    let (nodes, edges, coverage) = build_scope_graph(&files, &manifests, Some(gitmodules), 16);
    let kinds: Vec<(ScopeNodeKind, &str)> = nodes.iter().map(|n| (n.kind, n.path.as_str())).collect();
    assert_eq!(
        kinds,
        vec![
            (ScopeNodeKind::Repository, ""),
            (ScopeNodeKind::Workspace, ""),
            (ScopeNodeKind::Package, "crates/a"),
            (ScopeNodeKind::Documentation, "docs"),
            (ScopeNodeKind::Submodule, "vendor/x"),
        ]
    );
    assert!(edges.contains(&ScopeEdge { from: 2, to: 3, kind: ScopeEdgeKind::DeclaresMember }));
    assert!(edges.contains(&ScopeEdge { from: 1, to: 3, kind: ScopeEdgeKind::PackageManifest }));
    assert!(edges.contains(&ScopeEdge { from: 2, to: 4, kind: ScopeEdgeKind::Documentation }));
    assert!(edges.contains(&ScopeEdge { from: 1, to: 5, kind: ScopeEdgeKind::SubmoduleBoundary }));
    assert!(edges.contains(&ScopeEdge { from: 1, to: 2, kind: ScopeEdgeKind::Contains }));
    assert_eq!(coverage, CoverageStatus::Complete);
    let (none, _, cut) = build_scope_graph(&files, &manifests, None, 0);
    assert!(none.is_empty());
    assert_eq!(cut, CoverageStatus::Partial(CoverageIncompleteReason::LimitExceeded));
}
