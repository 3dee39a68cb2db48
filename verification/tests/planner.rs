use reposeiri::fs::records::{FileKind, FileRecord};
use reposeiri::markdown::routes::RouteKind;
use reposeiri::planner::{
    existing_target, hold_all, insertion_points, is_safe_relative, patch_edit_id, patch_link_text,
    patch_proposal_id, patch_route_list, plan_route, plan_routes, readme_gate, confirm_proposal, RouteInput,
    DocumentLanguage, InsertionPoint, LanguageTopology, PatchHoldReason, RouteStep,
};
use reposeiri::profiles::report::GateKind;

fn file(path: &str) -> FileRecord {
    FileRecord { path: path.to_string(), kind: FileKind::File, size_bytes: 1 }
}

#[test]
fn unusable_readme_holds_every_route_under_a_manual_gate() {
    assert_eq!(readme_gate(false, true, true, true, true), Some(PatchHoldReason::MissingReadme));
    assert_eq!(readme_gate(true, false, true, true, true), Some(PatchHoldReason::MissingReadme));
    assert_eq!(readme_gate(true, true, false, true, true), Some(PatchHoldReason::StaleBase));
    assert_eq!(readme_gate(true, true, true, false, false), Some(PatchHoldReason::UnsupportedEncoding));
    assert_eq!(readme_gate(true, true, true, false, true), Some(PatchHoldReason::StaleBase));
    assert_eq!(readme_gate(true, true, true, true, true), None);

    let held = hold_all(&[RouteKind::Security, RouteKind::Docs], PatchHoldReason::MissingReadme);
    assert_eq!(held.len(), patch_route_list().len());
    assert_eq!(held[0].route, RouteKind::Docs);
    assert_eq!(held[0].decision_basis.gate, GateKind::Manual);
    assert_eq!(held[0].decision_basis.priority_rank, Some(2));
    assert_eq!(held[5].route, RouteKind::Security);
    assert_eq!(held[5].decision_basis.priority_rank, Some(1));
    assert_eq!(held[1].decision_basis.priority_rank, None);
    assert!(held.iter().all(|hold| hold.target_path.is_none() && hold.reason == PatchHoldReason::MissingReadme));
}

#[test]
fn safe_relative_paths_have_no_root_or_parent() {
    assert!(is_safe_relative("docs/README.md"));
    assert!(is_safe_relative("./docs/"));
    assert!(!is_safe_relative("/etc/passwd"));
    assert!(!is_safe_relative("docs/../../x"));
}

#[test]
fn existing_target_takes_the_first_present_candidate() {
    let files = vec![file("docs/index.md"), file("SUPPORT.md")];
    assert_eq!(existing_target(&["../SUPPORT.md", "SUPPORT.md"], &files), Some(1));
    assert_eq!(existing_target(&["docs/"], &files), Some(0));
    assert_eq!(existing_target(&["CONTRIBUTING.md", "missing/"], &files), None);
}

#[test]
fn insertion_points_need_utf8_boundaries() {
    let source = "# Title\nこんにちは\n".as_bytes();
    let mono = insertion_points(Some(LanguageTopology::Monolingual(DocumentLanguage::English)), source).unwrap();
    assert_eq!(mono, vec![InsertionPoint { offset: source.len(), language: DocumentLanguage::English }]);
    assert!(insertion_points(None, source).is_none());
    assert!(insertion_points(Some(LanguageTopology::Ambiguous), source).is_none());
    let parallel = |ja, en| LanguageTopology::Parallel { japanese_insertion: ja, english_insertion: en };
    assert_eq!(insertion_points(Some(parallel(8, 8)), source), None);
    assert_eq!(insertion_points(Some(parallel(9, 8)), source), None);
    assert_eq!(insertion_points(Some(parallel(8, 100)), source), None);
    let points = insertion_points(Some(parallel(11, 8)), source).unwrap();
    assert_eq!(points[0].language, DocumentLanguage::Japanese);
    assert_eq!(points[1].offset, 8);
    assert!(insertion_points(Some(LanguageTopology::Monolingual(DocumentLanguage::Japanese)), &[0xff]).is_none());
}

#[test]
fn route_decisions_follow_the_hold_order() {
    let point = vec![InsertionPoint { offset: 0, language: DocumentLanguage::English }];
    assert_eq!(plan_route(RouteKind::Docs, true, None, true, true, None, &[]), RouteStep::AlreadyLinked);
    match plan_route(RouteKind::Docs, false, None, true, true, None, &[]) {
        RouteStep::Held(hold) => {
            assert_eq!(hold.reason, PatchHoldReason::NoExistingTarget);
            assert_eq!(hold.decision_basis.gate, GateKind::Guarded);
            assert!(hold.target_path.is_none());
        }
        other => panic!("unexpected {other:?}"),
    }
    match plan_route(RouteKind::Docs, false, Some("docs/"), false, true, Some(point.clone()), &[]) {
        RouteStep::Held(hold) => {
            assert_eq!(hold.reason, PatchHoldReason::UnknownTargetRelation);
            assert_eq!(hold.target_path.as_deref(), Some("docs/"));
            assert_eq!(hold.decision_basis.gate, GateKind::Manual);
        }
        other => panic!("unexpected {other:?}"),
    }
    match plan_route(RouteKind::Docs, false, Some("docs/"), false, false, None, &[]) {
        RouteStep::Held(hold) => assert_eq!(hold.reason, PatchHoldReason::PairedLanguageIncomplete),
        other => panic!("unexpected {other:?}"),
    }
    match plan_route(RouteKind::Docs, false, Some("docs/"), false, false, Some(point.clone()), &[]) {
        RouteStep::Ready { target_path, points, paired_language } => {
            assert_eq!(target_path, "docs/");
            assert_eq!(points, point);
            assert!(!paired_language);
        }
        other => panic!("unexpected {other:?}"),
    }
    assert!(confirm_proposal(RouteKind::Docs, "docs/", true, true, &[]).is_none());
    let stale = confirm_proposal(RouteKind::Docs, "docs/", true, false, &[RouteKind::Docs]).unwrap();
    assert_eq!(stale.reason, PatchHoldReason::StaleAnchor);
    assert_eq!(stale.decision_basis.priority_rank, Some(1));
}

#[test]
fn link_text_and_ids() {
    assert_eq!(patch_link_text("\n", "Docs", "docs/"), "\n- [Docs](docs/)\n");
    assert_eq!(patch_edit_id(3, 2), "patch-edit-3-2");
    assert_eq!(patch_proposal_id(13), "patch-proposal-13");
}

#[test]
fn plan_lists_each_patch_route_once_in_route_order() {
    let routes = patch_route_list();
    let point = InsertionPoint { offset: 7, language: DocumentLanguage::English };
    let inputs: Vec<RouteInput> = routes
        .iter()
        .map(|route| RouteInput {
            readme_has_route: *route == RouteKind::Support,
            target: if *route == RouteKind::Docs { Some("docs/".to_string()) } else { None },
            conflict: false,
            unknown_relation: false,
            points: Some(vec![point]),
        })
        .collect();
    let steps = plan_routes(&inputs, &[]);
    let order: Vec<RouteKind> = steps.iter().map(|(route, _, _)| *route).collect();
    assert_eq!(
        order,
        vec![
            RouteKind::Hygiene, RouteKind::Quickstart, RouteKind::Docs, RouteKind::Intake, RouteKind::Lifecycle,
            RouteKind::Support, RouteKind::Contributing, RouteKind::Security, RouteKind::Release,
            RouteKind::Governance, RouteKind::License, RouteKind::Ownership, RouteKind::Automation,
        ]
    );
    assert!(!order.contains(&RouteKind::Identity));
    let docs = &steps[2];
    assert_eq!(docs.1, 0);
    assert_eq!(docs.2, RouteStep::Ready { target_path: "docs/".to_string(), points: vec![point], paired_language: false });
    assert_eq!(steps[5].2, RouteStep::AlreadyLinked);
    match &steps[0].2 {
        RouteStep::Held(hold) => assert_eq!(hold.reason, PatchHoldReason::NoExistingTarget),
        other => panic!("unexpected {other:?}"),
    }
}
