use ordo::manifest::{DependencySource, DependencySpec, Manifest, Package, PackageType, ProviderKind};
use ordo::resolver::{
    normalize_version, parse_version, parse_version_req, resolve_dependencies, spec_to_range, stub_version,
    SemVer, VersionRange,
};

fn v(major: u64, minor: u64, patch: u64) -> SemVer {
    SemVer::new(major, minor, patch)
}

fn req(text: &str) -> VersionRange {
    parse_version_req(text).unwrap()
}

fn app() -> Manifest {
    let mut m = Manifest::empty();
    m.package = Some(Package {
        name: "myapp".to_string(),
        version: "0.1.0".to_string(),
        package_type: PackageType::Executable,
        license: None,
        description: None,
        authors: Vec::new(),
        repository: None,
    });
    m
}

fn path_dep(p: &str) -> DependencySpec {
    let mut d = DependencySpec::from_version(String::new());
    d.version = None;
    d.path = Some(p.to_string());
    d
}

#[test]
fn normalize_single_number() {
    assert_eq!(normalize_version("11"), "11.0.0");
}

#[test]
fn normalize_two_numbers() {
    assert_eq!(normalize_version("1.2"), "1.2.0");
}

#[test]
fn normalize_three_numbers() {
    assert_eq!(normalize_version("1.2.3"), "1.2.3");
}

#[test]
fn normalize_leaves_longer_forms() {
    assert_eq!(normalize_version("1.2.3.4"), "1.2.3.4");
    assert_eq!(normalize_version(""), ".0.0");
}

#[test]
fn parse_version_fills_and_reports() {
    let x = parse_version("11").unwrap();
    assert_eq!((x.major, x.minor, x.patch), (11, 0, 0));
    let y = parse_version("1.2.3-beta.1+build5").unwrap();
    assert_eq!(y.pre, "beta.1");
    assert_eq!(y.build, "build5");
    let err = parse_version("abc").unwrap_err();
    assert!(err.starts_with("invalid version 'abc': "), "{err}");
}

#[test]
fn parse_caret_default() {
    let range = req("1.2.3");
    assert!(range.contains(&v(1, 2, 3)));
    assert!(range.contains(&v(1, 9, 0)));
    assert!(!range.contains(&v(2, 0, 0)));
    assert!(!range.contains(&v(1, 2, 2)));
}

#[test]
fn parse_caret_explicit() {
    let range = req("^1.2");
    assert!(range.contains(&v(1, 2, 0)));
    assert!(range.contains(&v(1, 9, 9)));
    assert!(!range.contains(&v(2, 0, 0)));
}

#[test]
fn parse_tilde() {
    let range = req("~1.2.3");
    assert!(range.contains(&v(1, 2, 3)));
    assert!(range.contains(&v(1, 2, 9)));
    assert!(!range.contains(&v(1, 3, 0)));
}

#[test]
fn parse_exact() {
    let range = req("=1.2.3");
    assert!(range.contains(&v(1, 2, 3)));
    assert!(!range.contains(&v(1, 2, 4)));
}

#[test]
fn parse_gte() {
    let range = req(">=1.0.0");
    assert!(range.contains(&v(1, 0, 0)));
    assert!(range.contains(&v(99, 0, 0)));
    assert!(!range.contains(&v(0, 9, 9)));
}

#[test]
fn parse_gt() {
    let range = req(">1.0.0");
    assert!(!range.contains(&v(1, 0, 0)));
    assert!(range.contains(&v(1, 0, 1)));
}

#[test]
fn parse_lt() {
    let range = req("<2.0.0");
    assert!(range.contains(&v(1, 9, 9)));
    assert!(!range.contains(&v(2, 0, 0)));
}

#[test]
fn parse_lte() {
    let range = req("<=2.0.0");
    assert!(range.contains(&v(2, 0, 0)));
    assert!(!range.contains(&v(2, 0, 1)));
}

#[test]
fn parse_wildcard() {
    let range = req("*");
    assert!(range.contains(&v(0, 0, 0)));
    assert!(range.contains(&v(99, 99, 99)));
}

#[test]
fn caret_zero_major() {
    let range = req("^0.2.3");
    assert!(range.contains(&v(0, 2, 3)));
    assert!(range.contains(&v(0, 2, 9)));
    assert!(!range.contains(&v(0, 3, 0)));
}

#[test]
fn caret_zero_minor() {
    let range = req("^0.0.3");
    assert!(range.contains(&v(0, 0, 3)));
    assert!(!range.contains(&v(0, 0, 4)));
}

#[test]
fn requirement_spaces_and_errors() {
    let range = req("  >=  1.2 ");
    assert!(range.contains(&v(1, 2, 0)));
    assert!(!range.contains(&v(1, 1, 9)));
    let err = parse_version_req(">=x.y").unwrap_err();
    assert!(err.starts_with("invalid version 'x.y': "), "{err}");
}

#[test]
fn prerelease_sorts_before_release() {
    let range = req("<1.0.0");
    assert!(range.contains(&parse_version("1.0.0-rc.1").unwrap()));
    assert!(!req(">=1.0.0").contains(&parse_version("1.0.0-alpha").unwrap()));
}

#[test]
fn dependency_ranges_by_source() {
    assert!(spec_to_range("core", &path_dep("../core")).unwrap().contains(&v(42, 0, 0)));
    let mut git = DependencySpec::from_version("2".to_string());
    git.git = Some("https://example.invalid/x".to_string());
    let r = spec_to_range("x", &git).unwrap();
    assert!(r.contains(&v(2, 5, 0)));
    assert!(!r.contains(&v(3, 0, 0)));
    let mut none = DependencySpec::from_version(String::new());
    none.version = None;
    assert_eq!(
        spec_to_range("ghost", &none).unwrap_err(),
        "dependency 'ghost' has no source specified (add path, git, provider, or version)"
    );
}

#[test]
fn stub_versions() {
    let s = stub_version(&DependencySpec::from_version("^1.14".to_string()));
    assert_eq!((s.major, s.minor, s.patch), (1, 14, 0));
    let s = stub_version(&DependencySpec::from_version("*".to_string()));
    assert_eq!((s.major, s.minor, s.patch), (0, 0, 0));
    let s = stub_version(&path_dep("../x"));
    assert_eq!((s.major, s.minor, s.patch), (0, 0, 0));
}

#[test]
fn resolve_no_dependencies() {
    assert!(resolve_dependencies(&app()).unwrap().is_empty());
}

#[test]
fn resolve_single_path_dep() {
    let mut m = app();
    m.dependencies.insert("core".to_string(), path_dep("../core"));
    let resolved = resolve_dependencies(&m).unwrap();
    assert_eq!(resolved.len(), 1);
    assert_eq!(resolved[0].name, "core");
    assert_eq!(resolved[0].source, DependencySource::Path);
}

#[test]
fn resolve_version_dep() {
    let mut m = app();
    m.dependencies.insert("fmt".to_string(), DependencySpec::from_version("11".to_string()));
    let resolved = resolve_dependencies(&m).unwrap();
    assert_eq!(resolved.len(), 1);
    assert_eq!(resolved[0].name, "fmt");
    let x = &resolved[0].version;
    assert_eq!((x.major, x.minor, x.patch), (11, 0, 0));
}

#[test]
fn resolve_multiple_deps() {
    let mut m = app();
    m.dependencies.insert("fmt".to_string(), DependencySpec::from_version("11".to_string()));
    m.dependencies.insert("core".to_string(), path_dep("../core"));
    let mut spdlog = DependencySpec::from_version("1.14".to_string());
    spdlog.provider = Some(ProviderKind::Vcpkg);
    m.dependencies.insert("spdlog".to_string(), spdlog);
    let resolved = resolve_dependencies(&m).unwrap();
    assert_eq!(resolved.len(), 3);
    assert_eq!(resolved[0].name, "core");
    assert_eq!(resolved[1].name, "fmt");
    assert_eq!(resolved[2].name, "spdlog");
    assert_eq!(resolved[2].source, DependencySource::Provider(ProviderKind::Vcpkg));
}

#[test]
fn resolve_wildcard_dep() {
    let mut m = app();
    m.dependencies.insert("hoge".to_string(), DependencySpec::from_version("*".to_string()));
    let resolved = resolve_dependencies(&m).unwrap();
    assert_eq!(resolved.len(), 1);
    assert_eq!(resolved[0].name, "hoge");
}

#[test]
fn resolve_reports_first_bad_dependency() {
    let mut m = app();
    let mut none = DependencySpec::from_version(String::new());
    none.version = None;
    m.dependencies.insert("broken".to_string(), none);
    m.dependencies.insert("fmt".to_string(), DependencySpec::from_version("11".to_string()));
    let err = resolve_dependencies(&m).unwrap_err();
    assert!(err.contains("'broken' has no source"), "{err}");
}

#[test]
fn resolve_bad_root_version() {
    let mut m = app();
    m.package.as_mut().unwrap().version = "one".to_string();
    m.dependencies.insert("fmt".to_string(), DependencySpec::from_version("11".to_string()));
    assert!(resolve_dependencies(&m).unwrap_err().starts_with("invalid version 'one'"));
}
