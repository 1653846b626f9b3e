use libdr::matcher::MatchError;
use libdr::orchestrate::{member_manifest_paths, plan_file_action, FileAction};
use libdr::policy::{select_latest, Candidate, DepRefresh};
use libdr::registry::crate_versions_from_body;

fn candidates(list: &[(&str, bool)]) -> Vec<Candidate> {
    list.iter().map(|(num, yanked)| Candidate::new(num, *yanked)).collect()
}

#[test]
fn policy_filters_prereleases_and_yanked_candidates() {
    let cands = candidates(&[("2.0.0-beta", false), ("1.9.0", true), ("1.8.0", false)]);
    let selected = select_latest(&cands, false, false).unwrap();
    assert_eq!(selected, "1.8.0");
}

#[test]
fn policy_accepts_prerelease_when_allowed() {
    let cands = candidates(&[("2.0.0-beta", false), ("1.9.0", true), ("1.8.0", false)]);
    let selected = select_latest(&cands, false, true).unwrap();
    assert_eq!(selected, "2.0.0-beta");
}

#[test]
fn policy_accepts_yanked_when_allowed() {
    let cands = candidates(&[("1.9.0", true), ("1.8.0", false)]);
    let selected = select_latest(&cands, true, false).unwrap();
    assert_eq!(selected, "1.9.0");
}

#[test]
fn policy_takes_newest_first() {
    let cands = candidates(&[("3.1.4", false), ("3.1.3", false)]);
    let selected = select_latest(&cands, false, false).unwrap();
    assert_eq!(selected, "3.1.4");
}

#[test]
fn empty_candidate_list_gives_no_usable_version() {
    let r = select_latest(&Vec::new(), true, true);
    assert!(r.is_err());
}

#[test]
fn matcher_trims_declaration_before_exact_compare() {
    let dr = DepRefresh::new(false, false, false);
    assert!(dr.version_matches("  1.2.3\t", "1.2.3").unwrap());
    assert!(!dr.version_matches("1.2.3", "1.2.4").unwrap());
}

#[test]
fn matcher_semantic_mode_uses_range_containment() {
    let dr = DepRefresh::new(true, false, false);
    assert!(dr.version_matches("1.0", "1.5.2").unwrap());
    assert!(dr.version_matches("0.3", "0.3.21").unwrap());
    assert!(!dr.version_matches("0.10.3", "0.11.10").unwrap());
}

#[test]
fn matcher_reports_which_side_failed_to_parse() {
    let dr = DepRefresh::new(true, false, false);
    assert_eq!(
        dr.version_matches("not a !! range", "1.0.0").unwrap_err(),
        MatchError::Local
    );
    assert_eq!(
        dr.version_matches("1.0", "garbage").unwrap_err(),
        MatchError::Online
    );
}

#[test]
fn new_local_version_keeps_the_declared_segment_count() {
    let dr = DepRefresh::new(true, false, false);
    assert_eq!(dr.new_local_version("0.3", "0.3.21"), "0.3");
    assert_eq!(dr.new_local_version("1.2.3", "2.0.0"), "2.0.0");
    assert_eq!(dr.new_local_version("1", "2.3.4"), "2");
    assert_eq!(dr.new_local_version("0.2", "3"), "3");
}

#[test]
fn registry_body_is_mirrored_into_candidates() {
    let body = "{\"versions\": [ {\"num\": \"2.0.0\", \"yanked\": true}, {\"num\": \"1.0.0\", \"yanked\": false} ]}";
    let cv = crate_versions_from_body("demo", body).unwrap();
    assert_eq!(cv.name, "demo");
    assert_eq!(cv.candidates.len(), 2);
    assert_eq!(cv.candidates[0].num.as_deref(), Some("2.0.0"));
    assert!(cv.candidates[0].yanked);
    assert_eq!(cv.candidates[1].num.as_deref(), Some("1.0.0"));
    assert!(!cv.candidates[1].yanked);
}

#[test]
fn registry_body_without_versions_array_gives_no_candidates() {
    let cv = crate_versions_from_body("demo", "{\"errors\": []}").unwrap();
    assert!(cv.candidates.is_empty());
}

#[test]
fn invalid_registry_body_is_an_error() {
    assert!(crate_versions_from_body("demo", "not json at all").is_err());
}

#[test]
fn registry_entry_without_num_is_mirrored_as_absent() {
    let body = "{\"versions\": [ {\"yanked\": false} ]}";
    let cv = crate_versions_from_body("demo", body).unwrap();
    assert_eq!(cv.candidates.len(), 1);
    assert!(cv.candidates[0].num.is_none());
    let r = select_latest(&cv.candidates, false, false);
    assert!(r.is_err());
}

#[test]
fn file_action_backs_up_exactly_when_content_changed() {
    assert_eq!(plan_file_action("same", "same", false), FileAction::NoChange);
    assert_eq!(plan_file_action("same", "same", true), FileAction::NoChange);
    assert_eq!(plan_file_action("old", "new", false), FileAction::WriteWithBackup);
    assert_eq!(plan_file_action("old", "new", true), FileAction::WriteUnsafe);
}

#[test]
fn member_paths_are_siblings_of_the_manifest() {
    let members = vec!["a".to_string(), "b".to_string()];
    let paths = member_manifest_paths("some/dir/Cargo.toml", &members);
    assert_eq!(
        paths,
        vec![
            "some/dir/a/Cargo.toml".to_string(),
            "some/dir/b/Cargo.toml".to_string(),
        ]
    );
    let bare = member_manifest_paths("Cargo.toml", &members);
    assert_eq!(
        bare,
        vec!["a/Cargo.toml".to_string(), "b/Cargo.toml".to_string()]
    );
}

#[test]
fn backup_path_is_the_old_sibling() {
    assert_eq!(libdr::orchestrate::backup_path("proj/Cargo.toml"), "proj/Cargo.toml.old");
}
