use libdr::engine::UpdateOutcome;
use libdr::errors::Error;
use libdr::orchestrate::{plan_file_action, FileAction};
use libdr::policy::{Candidate, DepRefresh};
use libdr::registry::{CrateVersions, Registry};

fn registry_of(entries: &[(&str, &[(&str, bool)])]) -> Registry {
    let mut reg = Registry::new();
    for (name, cands) in entries {
        let mut v: Vec<Candidate> = Vec::new();
        for (num, yanked) in cands.iter() {
            v.push(Candidate::new(num, *yanked));
        }
        reg.add(CrateVersions::new(name, v));
    }
    reg
}

fn sample_registry() -> Registry {
    registry_of(&[
        ("reqwest", &[("0.11.10", false)]),
        ("structopt", &[("0.3.26", false)]),
        ("toml_edit", &[("0.14.4", false)]),
        ("autocfg", &[("1.1.0", false)]),
    ])
}

const SAMPLE_TOML: &str = r#"
[package]
version = "0.1.0"

[dependencies]
reqwest = { version = "0.10.3", features = ["blocking"] }
structopt = "0.3"

[dependencies.toml_edit]
version = "0.1.3"

[build-dependencies]
autocfg = "1.0.0"
    "#;

#[test]
fn test_update_toml_semver() {
    let expected = r#"
[package]
version = "0.1.0"

[dependencies]
reqwest = { version = "0.11.10", features = ["blocking"] }
structopt = "0.3"

[dependencies.toml_edit]
version = "0.14.4"

[build-dependencies]
autocfg = "1.0.0"
    "#;

    let dr = DepRefresh::new(true, false, false);
    let result: UpdateOutcome = dr.update_toml(SAMPLE_TOML, &sample_registry()).unwrap();
    assert_eq!(result.new_text, expected);
}

#[test]
fn test_update_toml_exact() {
    let expected = r#"
[package]
version = "0.1.0"

[dependencies]
reqwest = { version = "0.11.10", features = ["blocking"] }
structopt = "0.3.26"

[dependencies.toml_edit]
version = "0.14.4"

[build-dependencies]
autocfg = "1.1.0"
    "#;

    let dr = DepRefresh::new(false, false, false);
    let result = dr.update_toml(SAMPLE_TOML, &sample_registry()).unwrap();
    assert_eq!(result.new_text, expected);
}

#[test]
fn test_update_toml() {
    let toml = r#"
[package]
version = "0.1.0"

[dependencies]
structopt = "0.2"
toml_edit = "0.1.3"
    "#;

    let expected = r#"
[package]
version = "0.1.0"

[dependencies]
structopt = "0.2.15"
toml_edit = "0.1.3"
    "#;

    let reg = registry_of(&[("structopt", &[("0.2.15", false)]), ("toml_edit", &[("0.1.3", false)])]);
    let dr = DepRefresh::new(false, false, false);
    let result = dr.update_toml(toml, &reg).unwrap();
    assert_eq!(result.new_text, expected);
}

#[test]
fn engine_is_idempotent_after_changes() {
    let dr = DepRefresh::new(true, false, false);
    let reg = sample_registry();
    let first = dr.update_toml(SAMPLE_TOML, &reg).unwrap();
    assert_ne!(first.new_text, SAMPLE_TOML);
    let first_names: Vec<&str> = first.updates.iter().map(|u| u.name.as_str()).collect();
    assert_eq!(first_names, vec!["reqwest", "toml_edit"]);
    let second = dr.update_toml(&first.new_text, &reg).unwrap();
    assert_eq!(second.new_text, first.new_text);
    assert!(second.updates.is_empty());
    assert_eq!(
        plan_file_action(&first.new_text, &second.new_text, false),
        FileAction::NoChange
    );
}

#[test]
fn engine_is_idempotent_in_exact_mode() {
    let dr = DepRefresh::new(false, false, false);
    let reg = sample_registry();
    let first = dr.update_toml(SAMPLE_TOML, &reg).unwrap();
    let second = dr.update_toml(&first.new_text, &reg).unwrap();
    assert_eq!(second.new_text, first.new_text);
}

#[test]
fn engine_leaves_satisfied_manifest_untouched() {
    let toml = "[dependencies]\nserde   =    \"1.0.200\"   # pinned\n";
    let reg = registry_of(&[("serde", &[("1.0.200", false)])]);
    let dr = DepRefresh::new(false, false, false);
    let result = dr.update_toml(toml, &reg).unwrap();
    assert_eq!(result.new_text, toml);
    assert_eq!(plan_file_action(toml, &result.new_text, false), FileAction::NoChange);
}

#[test]
fn exact_and_semantic_modes_diverge_on_short_pin() {
    let toml = "[dependencies]\nfoo = \"0.3\"\n";
    let reg = registry_of(&[("foo", &[("0.3.21", false)])]);

    let exact = DepRefresh::new(false, false, false);
    let rewritten = exact.update_toml(toml, &reg).unwrap();
    assert_eq!(rewritten.new_text, "[dependencies]\nfoo = \"0.3.21\"\n");

    let semantic = DepRefresh::new(true, false, false);
    let kept = semantic.update_toml(toml, &reg).unwrap();
    assert_eq!(kept.new_text, toml);
}

#[test]
fn all_three_shapes_are_rewritten_only_at_their_version() {
    let toml = "[dependencies]\nplain = \"1.2.3\"\ninline = { version = \"1.2.3\", features = [\"extra\"] }\n\n[dependencies.subtable]\nversion = \"1.2.3\"\nfeatures = [\"extra\"]\n";
    let expected = "[dependencies]\nplain = \"2.0.0\"\ninline = { version = \"2.0.0\", features = [\"extra\"] }\n\n[dependencies.subtable]\nversion = \"2.0.0\"\nfeatures = [\"extra\"]\n";
    let reg = registry_of(&[
        ("plain", &[("2.0.0", false)]),
        ("inline", &[("2.0.0", false)]),
        ("subtable", &[("2.0.0", false)]),
    ]);
    let dr = DepRefresh::new(false, false, false);
    let result = dr.update_toml(toml, &reg).unwrap();
    assert_eq!(result.new_text, expected);
}

#[test]
fn workspace_members_are_reported_and_independent() {
    let toml = "[workspace]\nmembers = [\"a\", \"b\"]\n\n[dependencies]\nserde = \"1.0.0\"\n";
    let reg = registry_of(&[("serde", &[("1.0.0", false)])]);
    let dr = DepRefresh::new(false, false, false);
    let result = dr.update_toml(toml, &reg).unwrap();
    assert_eq!(result.workspace_members, vec!["a".to_string(), "b".to_string()]);

    let paths = libdr::orchestrate::member_manifest_paths(
        "proj/Cargo.toml",
        &result.workspace_members,
    );
    assert_eq!(
        paths,
        vec!["proj/a/Cargo.toml".to_string(), "proj/b/Cargo.toml".to_string()]
    );
}

#[test]
fn anomalous_entries_are_reported_not_fatal() {
    let toml = "[dependencies]\nweird = [1, 2]\nserde = \"1.0.0\"\n";
    let reg = registry_of(&[("serde", &[("1.0.0", false)])]);
    let dr = DepRefresh::new(false, false, false);
    let result = dr.update_toml(toml, &reg).unwrap();
    assert_eq!(result.new_text, toml);
    assert_eq!(result.anomalies, vec!["weird".to_string()]);
}

#[test]
fn table_without_version_key_is_skipped_silently() {
    let toml = "[dependencies]\nlocal_dep = { path = \"../local\" }\n";
    let reg = Registry::new();
    let dr = DepRefresh::new(false, false, false);
    let result = dr.update_toml(toml, &reg).unwrap();
    assert_eq!(result.new_text, toml);
    assert!(result.anomalies.is_empty());
}

#[test]
fn syntax_error_is_fatal_for_the_file() {
    let dr = DepRefresh::new(false, false, false);
    let err = dr.update_toml("[dependencies\nbroken", &Registry::new()).unwrap_err();
    assert!(matches!(err, Error::Syntax(_)));
}

#[test]
fn missing_registry_reply_is_a_registry_error() {
    let toml = "[dependencies]\nunknown_crate = \"1.0.0\"\n";
    let dr = DepRefresh::new(false, false, false);
    let err = dr.update_toml(toml, &Registry::new()).unwrap_err();
    match err {
        Error::Registry { crate_name, .. } => assert_eq!(crate_name, "unknown_crate"),
        other => panic!("unexpected error: {:?}", error_name(&other)),
    }
}

#[test]
fn malformed_online_version_is_a_version_parse_error() {
    let toml = "[dependencies]\nfoo = \"1.0.0\"\n";
    let reg = registry_of(&[("foo", &[("not-a-version", false)])]);
    let dr = DepRefresh::new(false, false, false);
    let err = dr.update_toml(toml, &reg).unwrap_err();
    match err {
        Error::VersionParse { crate_name, text, local } => {
            assert_eq!(crate_name, "foo");
            assert_eq!(text, "not-a-version");
            assert!(!local);
        },
        other => panic!("unexpected error: {:?}", error_name(&other)),
    }
}

#[test]
fn malformed_local_range_is_a_version_parse_error() {
    let toml = "[dependencies]\nfoo = \"definitely not a range!!\"\n";
    let reg = registry_of(&[("foo", &[("1.0.0", false)])]);
    let dr = DepRefresh::new(true, false, false);
    let err = dr.update_toml(toml, &reg).unwrap_err();
    match err {
        Error::VersionParse { crate_name, local, .. } => {
            assert_eq!(crate_name, "foo");
            assert!(local);
        },
        other => panic!("unexpected error: {:?}", error_name(&other)),
    }
}

#[test]
fn fully_filtered_candidates_give_no_usable_version() {
    let toml = "[dependencies]\nfoo = \"1.0.0\"\n";
    let reg = registry_of(&[("foo", &[("2.0.0", true), ("1.5.0-beta", false)])]);
    let dr = DepRefresh::new(false, false, false);
    let err = dr.update_toml(toml, &reg).unwrap_err();
    match err {
        Error::NoUsableVersion { crate_name } => assert_eq!(crate_name, "foo"),
        other => panic!("unexpected error: {:?}", error_name(&other)),
    }
}

#[test]
fn crates_to_resolve_lists_declarations_in_order() {
    let names = libdr::engine::crates_to_resolve(SAMPLE_TOML).unwrap();
    assert_eq!(
        names,
        vec![
            "reqwest".to_string(),
            "structopt".to_string(),
            "toml_edit".to_string(),
            "autocfg".to_string(),
        ]
    );
}

fn error_name(e: &Error) -> &'static str {
    match e {
        Error::Syntax(_) => "syntax",
        Error::Registry { .. } => "registry",
        Error::VersionParse { .. } => "version-parse",
        Error::NoUsableVersion { .. } => "no-usable-version",
        Error::Io(_) => "io",
    }
}
