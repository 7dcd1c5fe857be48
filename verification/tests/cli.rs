use ordo::cli::{
    diff_locks, git_repo_name, parse_spec, Change, ColorMode, Context, LockFile, LockedPackage, StyleMode,
};

#[test]
fn parse_spec_name_only() {
    let s = parse_spec("raylib");
    assert_eq!(s.name, "raylib");
    assert!(s.provider.is_none());
    assert!(s.version.is_none());
}

#[test]
fn parse_spec_name_at_version() {
    let s = parse_spec("raylib@6.0");
    assert_eq!(s.name, "raylib");
    assert_eq!(s.version.as_deref(), Some("6.0"));
    assert!(s.provider.is_none());
}

#[test]
fn parse_spec_provider_colon_name() {
    let s = parse_spec("vcpkg:raylib");
    assert_eq!(s.provider.as_deref(), Some("vcpkg"));
    assert_eq!(s.name, "raylib");
    assert!(s.version.is_none());
}

#[test]
fn parse_spec_provider_colon_name_at_version() {
    let s = parse_spec("vcpkg:raylib@6");
    assert_eq!(s.provider.as_deref(), Some("vcpkg"));
    assert_eq!(s.name, "raylib");
    assert_eq!(s.version.as_deref(), Some("6"));
}

#[test]
fn parse_spec_git_shorthand() {
    let s = parse_spec("git:fmtlib/fmt@11.1.0");
    assert_eq!(s.provider.as_deref(), Some("git"));
    assert_eq!(s.name, "fmtlib/fmt");
    assert_eq!(s.version.as_deref(), Some("11.1.0"));
}

#[test]
fn parse_spec_git_codeberg() {
    let s = parse_spec("git:codeberg.org/nxeu/ordo");
    assert_eq!(s.provider.as_deref(), Some("git"));
    assert_eq!(s.name, "codeberg.org/nxeu/ordo");
    assert!(s.version.is_none());
}

#[test]
fn parse_spec_splits_at_first_separators() {
    let s = parse_spec("a:b:c@1@2");
    assert_eq!(s.provider.as_deref(), Some("a"));
    assert_eq!(s.name, "b:c");
    assert_eq!(s.version.as_deref(), Some("1@2"));
}

#[test]
fn git_repo_name_from_path() {
    assert_eq!(git_repo_name("fmtlib/fmt"), "fmt");
    assert_eq!(git_repo_name("codeberg.org/nxeu/ordo"), "ordo");
    assert_eq!(git_repo_name("simple"), "simple");
}

#[test]
fn git_repo_name_strips_git_suffix() {
    assert_eq!(git_repo_name("https://github.com/fmtlib/fmt.git"), "fmt");
}

fn pkg(name: &str, version: &str) -> LockedPackage {
    LockedPackage { name: name.to_string(), version: version.to_string(), source: "vcpkg".to_string(), checksum: None }
}

#[test]
fn diff_locks_detects_added() {
    let new = LockFile { version: 1, packages: vec![pkg("fmt", "11.0.0")] };
    let changes = diff_locks(None, &new, None);
    assert_eq!(changes.len(), 1);
    assert!(matches!(&changes[0], Change::Added { name, .. } if name == "fmt"));
}

#[test]
fn diff_locks_reports_in_name_order() {
    let old = LockFile { version: 1, packages: vec![pkg("zlib", "1.3"), pkg("fmt", "10.0.0"), pkg("gone", "1")] };
    let new = LockFile { version: 1, packages: vec![pkg("zlib", "1.3"), pkg("spdlog", "1.14"), pkg("fmt", "11.0.0")] };
    let changes = diff_locks(Some(&old), &new, None);
    assert_eq!(changes.len(), 3);
    assert!(matches!(&changes[0], Change::Updated { name, old_version, new_version }
        if name == "fmt" && old_version == "10.0.0" && new_version == "11.0.0"));
    assert!(matches!(&changes[1], Change::Added { name, version } if name == "spdlog" && version == "1.14"));
    assert!(matches!(&changes[2], Change::Removed { name, version } if name == "gone" && version == "1"));
}

#[test]
fn diff_locks_with_filter_skips_removals() {
    let old = LockFile { version: 1, packages: vec![pkg("fmt", "10.0.0"), pkg("gone", "1")] };
    let new = LockFile { version: 1, packages: vec![pkg("fmt", "11.0.0"), pkg("new", "2")] };
    let changes = diff_locks(Some(&old), &new, Some("fmt"));
    assert_eq!(changes.len(), 1);
    assert!(matches!(&changes[0], Change::Updated { name, .. } if name == "fmt"));
}

#[test]
fn diff_of_identical_locks_is_empty() {
    let lock = LockFile { version: 1, packages: vec![pkg("fmt", "11.0.0"), pkg("zlib", "1.3")] };
    assert!(diff_locks(Some(&lock), &lock, None).is_empty());
}

#[test]
fn style_names() {
    assert_eq!(StyleMode::from_name("minimal"), Some(StyleMode::Minimal));
    assert_eq!(StyleMode::from_name("cargo-like"), Some(StyleMode::CargoLike));
    assert_eq!(StyleMode::from_name("fancy"), None);
    assert_eq!(StyleMode::default_mode(), StyleMode::Default);
}

#[test]
fn context_prefers_cli_style_then_manifest() {
    let c = Context::resolve(StyleMode::Minimal, 2, ColorMode::Never, Some(StyleMode::CargoLike));
    assert_eq!(c.style, StyleMode::Minimal);
    assert_eq!(c.verbose, 2);
    assert_eq!(c.color, ColorMode::Never);
    let c = Context::resolve(StyleMode::Default, 0, ColorMode::Auto, Some(StyleMode::CargoLike));
    assert_eq!(c.style, StyleMode::CargoLike);
    let c = Context::resolve(StyleMode::Default, 0, ColorMode::Auto, None);
    assert_eq!(c.style, StyleMode::Default);
    assert_eq!(Context::default_for_test().verbose, 0);
}
