use ordo::adding::{
    add_outcome, added_git_message, added_message, build_dep_value, check_single_spec_options, git_dep_value,
    kept_version, plan_add, AddStep, DepField, EntryValue,
};
use ordo::cli::parse_spec;

fn text(f: &DepField) -> (&str, &str) {
    match &f.value {
        EntryValue::Text(s) => (f.key.as_str(), s.as_str()),
        EntryValue::List(_) => panic!("expected text for {}", f.key),
    }
}

#[test]
fn add_pkg_config_dep() {
    let t = build_dep_value("pkg-config", None, None, None).unwrap();
    assert_eq!(t.len(), 1);
    assert_eq!(text(&t[0]), ("provider", "pkg-config"));
}

#[test]
fn add_vcpkg_dep_with_version() {
    let t = build_dep_value("vcpkg", Some("11"), None, None).unwrap();
    assert_eq!(text(&t[0]), ("version", "11"));
    assert_eq!(text(&t[1]), ("provider", "vcpkg"));
}

#[test]
fn add_path_dep_defaults_to_dot() {
    let t = build_dep_value("path", None, None, None).unwrap();
    assert_eq!(t.len(), 1);
    assert_eq!(text(&t[0]), ("path", "."));
    let t = build_dep_value("path", Some("../core"), None, None).unwrap();
    assert_eq!(text(&t[0]), ("path", "../core"));
}

#[test]
fn add_git_needs_url() {
    let e = build_dep_value("git", None, None, None).unwrap_err();
    assert_eq!(e, "git provider requires a URL as version (e.g. raylib@https://...)");
    let t = build_dep_value("git", Some("https://x/y"), None, None).unwrap();
    assert_eq!(text(&t[0]), ("git", "https://x/y"));
}

#[test]
fn add_unknown_provider_fails() {
    let e = build_dep_value("npm", None, None, None).unwrap_err();
    assert_eq!(e, "unknown provider 'npm'\n  valid providers: pkg-config, system, vcpkg, conan, path, git");
}

#[test]
fn alias_and_link_names_follow() {
    let one = vec!["z".to_string()];
    let t = build_dep_value("system", None, Some("zlib"), Some(&one)).unwrap();
    assert_eq!(t.len(), 3);
    assert_eq!(text(&t[1]), ("alias", "zlib"));
    assert_eq!(text(&t[2]), ("link-name", "z"));
    let two = vec!["a".to_string(), "b".to_string()];
    let t = build_dep_value("system", None, None, Some(&two)).unwrap();
    assert_eq!(t[1].key, "link-name");
    match &t[1].value {
        EntryValue::List(v) => assert_eq!(v, &two),
        EntryValue::Text(_) => panic!("expected a list"),
    }
}

#[test]
fn git_entry_fields() {
    let t = git_dep_value("https://github.com/fmtlib/fmt", Some("11.1.0"), Some("build.lua"));
    assert_eq!(text(&t[0]), ("git", "https://github.com/fmtlib/fmt"));
    assert_eq!(text(&t[1]), ("tag", "11.1.0"));
    assert_eq!(text(&t[2]), ("with", "build.lua"));
    assert_eq!(git_dep_value("u", None, None).len(), 1);
}

#[test]
fn single_spec_options() {
    assert!(check_single_spec_options(1, true, true, true).is_ok());
    assert!(check_single_spec_options(2, false, false, false).is_ok());
    assert_eq!(
        check_single_spec_options(2, true, true, false).unwrap_err(),
        "`--alias` can only be used with a single package spec"
    );
    assert_eq!(
        check_single_spec_options(3, false, true, true).unwrap_err(),
        "`--link-name` can only be used with a single package spec"
    );
    assert_eq!(
        check_single_spec_options(2, false, false, true).unwrap_err(),
        "`--with` can only be used with a single package spec"
    );
}

#[test]
fn plan_for_each_spec() {
    match plan_add(&parse_spec("git:fmtlib/fmt@11.1.0"), None, false, false) {
        AddStep::Git { name, url, tag } => {
            assert_eq!(name, "fmt");
            assert_eq!(url, "https://github.com/fmtlib/fmt");
            assert_eq!(tag.as_deref(), Some("11.1.0"));
        }
        other => panic!("unexpected {other:?}"),
    }
    match plan_add(&parse_spec("vcpkg:zlib"), Some("conan"), true, false) {
        AddStep::Provider { provider } => assert_eq!(provider, "conan"),
        other => panic!("unexpected {other:?}"),
    }
    assert!(matches!(plan_add(&parse_spec("zlib"), None, false, false), AddStep::AskProvider));
    match plan_add(&parse_spec("zlib"), None, true, false) {
        AddStep::Fail(e) => assert_eq!(e, "no provider specified (use -P or provider:name syntax)"),
        other => panic!("unexpected {other:?}"),
    }
    match plan_add(&parse_spec("system:m"), None, false, true) {
        AddStep::Fail(e) => assert_eq!(e, "`--with` is only valid for git dependencies"),
        other => panic!("unexpected {other:?}"),
    }
}

#[test]
fn reported_versions_kept() {
    assert_eq!(kept_version("1.3.1").as_deref(), Some("1.3.1"));
    assert_eq!(kept_version("system"), None);
    assert_eq!(kept_version("unknown"), None);
}

#[test]
fn added_messages() {
    assert_eq!(added_message("zlib", Some("1.3"), "vcpkg"), "zlib v1.3 (vcpkg)");
    assert_eq!(added_message("m", None, "system"), "m (system)");
    assert_eq!(added_git_message("fmt", Some("11.1.0"), None), "fmt @11.1.0 (git)");
    assert_eq!(added_git_message("fmt", None, Some("b.lua")), "fmt (git) with b.lua");
}

#[test]
fn add_outcomes() {
    let none: Vec<(String, String)> = Vec::new();
    let one = vec![("zlib".to_string(), "boom".to_string())];
    assert_eq!(add_outcome(3, 3, &none), Ok(Some("3/3 packages".to_string())));
    assert_eq!(add_outcome(3, 2, &one), Err("Added 2/3 packages".to_string()));
    assert_eq!(add_outcome(1, 0, &one), Err("boom".to_string()));
    assert_eq!(add_outcome(1, 1, &none), Ok(None));
}

#[test]
fn add_system_dep_with_version() {
    let t = build_dep_value("system", None, None, None).unwrap();
    assert_eq!(text(&t[0]), ("provider", "system"));
}

#[test]
fn add_git_dep_with_tag() {
    let t = git_dep_value("https://github.com/fmtlib/fmt", Some("11.1.0"), None);
    assert_eq!(text(&t[0]), ("git", "https://github.com/fmtlib/fmt"));
    assert_eq!(text(&t[1]), ("tag", "11.1.0"));
}

#[test]
fn add_git_dep_without_tag() {
    let t = git_dep_value("https://github.com/fmtlib/fmt", None, None);
    assert_eq!(t.len(), 1);
    assert!(t.iter().all(|f| f.key != "tag"));
}

#[test]
fn add_with_alias() {
    let t = build_dep_value("pkg-config", None, Some("openssl"), None).unwrap();
    assert_eq!(text(&t[1]), ("alias", "openssl"));
}

#[test]
fn add_with_link_name_single() {
    let names = vec!["ssl".to_string()];
    let t = build_dep_value("pkg-config", None, None, Some(&names)).unwrap();
    assert_eq!(text(&t[1]), ("link-name", "ssl"));
}

#[test]
fn add_with_link_name_multiple() {
    let names = vec!["ssl".to_string(), "crypto".to_string()];
    let t = build_dep_value("pkg-config", None, None, Some(&names)).unwrap();
    match &t[1].value {
        EntryValue::List(v) => assert_eq!(v, &names),
        EntryValue::Text(_) => panic!("expected a list"),
    }
}

#[test]
fn add_multiple_rejects_alias() {
    assert!(check_single_spec_options(2, true, false, false).is_err());
}

#[test]
fn add_multiple_rejects_link_name() {
    assert!(check_single_spec_options(2, false, true, false).is_err());
}

#[test]
fn add_multiple_with_inline_provider() {
    for spec in ["system:zlib", "system:m"] {
        match plan_add(&parse_spec(spec), None, true, false) {
            AddStep::Provider { provider } => assert_eq!(provider, "system"),
            other => panic!("unexpected {other:?}"),
        }
    }
}

#[test]
fn add_multiple_no_provider_fails_gracefully() {
    let mut failures = Vec::new();
    for spec in ["zlib", "m"] {
        let parsed = parse_spec(spec);
        if let AddStep::Fail(reason) = plan_add(&parsed, None, true, false) {
            failures.push((parsed.name.clone(), reason));
        }
    }
    assert_eq!(failures.len(), 2);
    assert_eq!(add_outcome(2, 0, &failures), Err("Added 0/2 packages".to_string()));
}

#[test]
fn add_multiple_partial_failure() {
    let failures = vec![("zlib".to_string(), "dependency 'zlib' already exists in [dependencies]".to_string())];
    assert_eq!(add_outcome(2, 1, &failures), Err("Added 1/2 packages".to_string()));
}

const PROJECT: &str = "[package]\nname = \"test\"\nversion = \"0.1.0\"\ntype = \"executable\"\n";

#[test]
fn add_creates_dependencies_section() {
    let fields = build_dep_value("system", None, None, None).unwrap();
    let text = ordo::adding::add_dependency_text(PROJECT, "pthread", &fields).unwrap();
    assert!(text.starts_with(PROJECT));
    assert!(text.contains("[dependencies]"));
    assert!(text.contains("pthread = { provider = \"system\" }"));
}

#[test]
fn add_duplicate_fails() {
    let fields = build_dep_value("pkg-config", None, None, None).unwrap();
    let once = ordo::adding::add_dependency_text(PROJECT, "zlib", &fields).unwrap();
    let err = ordo::adding::add_dependency_text(&once, "zlib", &fields).unwrap_err();
    assert_eq!(err, "dependency 'zlib' already exists in [dependencies]");
}

#[test]
fn add_keeps_existing_entries_and_comments() {
    let text = "[package]\nname = \"x\" # the name\n\n[dependencies]\nfmt = \"11\"\n";
    let names = vec!["ssl".to_string(), "crypto".to_string()];
    let fields = build_dep_value("pkg-config", Some("3"), None, Some(&names)).unwrap();
    let out = ordo::adding::add_dependency_text(text, "openssl", &fields).unwrap();
    assert!(out.contains("name = \"x\" # the name"));
    assert!(out.contains("fmt = \"11\"\nopenssl = { version = \"3\", provider = \"pkg-config\", link-name = [\"ssl\", \"crypto\"] }"));
}

#[test]
fn add_to_broken_manifest_fails_to_parse() {
    let fields = git_dep_value("https://x/y", None, None);
    assert!(ordo::adding::add_dependency_text("[package\n", "y", &fields).is_err());
}

#[test]
fn duplicate_is_refused_before_lookup() {
    let text = "[dependencies]\nzlib = \"1\"\n";
    assert_eq!(
        ordo::adding::check_not_added(text, "zlib").unwrap_err(),
        "dependency 'zlib' already exists in [dependencies]"
    );
    assert!(ordo::adding::check_not_added(text, "fmt").is_ok());
    assert!(ordo::adding::check_not_added(PROJECT, "fmt").is_ok());
}

#[test]
fn dependency_names_of_manifest() {
    let mut names = ordo::adding::dependency_names("[dependencies]\nfmt = \"11\"\nzlib = { provider = \"system\" }\n").unwrap();
    names.sort();
    assert_eq!(names, vec!["fmt".to_string(), "zlib".to_string()]);
    assert!(ordo::adding::dependency_names(PROJECT).unwrap().is_empty());
    assert!(ordo::adding::dependency_names("dependencies = 3\n").unwrap().is_empty());
    assert!(ordo::adding::dependency_names("[package\n").is_err());
}

#[test]
fn insert_dependency_makes_the_table_when_missing() {
    let fields = git_dep_value("https://github.com/fmtlib/fmt", Some("11.1.0"), None);
    let out = ordo::adding::insert_dependency(PROJECT, "fmt", &fields).unwrap();
    assert!(out.starts_with(PROJECT));
    assert!(out.contains("[dependencies]\nfmt = { git = \"https://github.com/fmtlib/fmt\", tag = \"11.1.0\" }"));
    let again = ordo::adding::insert_dependency(&out, "zlib", &build_dep_value("system", None, None, None).unwrap()).unwrap();
    assert_eq!(again.matches("[dependencies]").count(), 1);
    assert!(again.contains("zlib = { provider = \"system\" }"));
}
