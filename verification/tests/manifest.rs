use ordo::manifest::{
    version_is_semver, CStandard, CompilerKind, CppStandard, DependencySource, DependencySpec, LinkerKind,
    LtoMode, Manifest, OptLevel, Package, PackageType, ProfileConfig, ProviderKind, Sanitizer, WarningLevel,
    WorkspaceConfig,
};
use ordo::strmap::StrMap;

fn package(name: &str, version: &str) -> Package {
    Package {
        name: name.to_string(),
        version: version.to_string(),
        package_type: PackageType::Executable,
        license: None,
        description: None,
        authors: Vec::new(),
        repository: None,
    }
}

fn app() -> Manifest {
    let mut m = Manifest::empty();
    m.package = Some(package("myapp", "0.1.0"));
    m
}

fn with_profile(m: &mut Manifest, name: &str, f: impl FnOnce(&mut ProfileConfig)) {
    let mut c = ProfileConfig::empty();
    f(&mut c);
    m.profile.insert(name.to_string(), c);
}

fn dep() -> DependencySpec {
    DependencySpec {
        version: None,
        path: None,
        git: None,
        tag: None,
        branch: None,
        rev: None,
        provider: None,
        optional: false,
        workspace: false,
        features: Vec::new(),
        with: None,
    }
}

#[test]
fn as_flag_methods() {
    assert_eq!(CStandard::C11.as_flag(), "c11");
    assert_eq!(CStandard::C17.as_flag(), "c17");
    assert_eq!(CStandard::C23.as_flag(), "c23");
    assert_eq!(CppStandard::Cpp17.as_flag(), "c++17");
    assert_eq!(CppStandard::Cpp20.as_flag(), "c++20");
    assert_eq!(CppStandard::Cpp23.as_flag(), "c++23");
    assert_eq!(CppStandard::Cpp26.as_flag(), "c++26");
}

#[test]
fn all_compiler_kinds() {
    assert_eq!(CompilerKind::Clang.name(), "clang");
    assert_eq!(CompilerKind::Gcc.name(), "gcc");
    assert_eq!(CompilerKind::Msvc.name(), "msvc");
    assert_eq!(CompilerKind::ClangCl.name(), "clang-cl");
}

#[test]
fn all_linker_kinds() {
    assert_eq!(LinkerKind::Lld.name(), "lld");
    assert_eq!(LinkerKind::Mold.name(), "mold");
    assert_eq!(LinkerKind::Gold.name(), "gold");
    assert_eq!(LinkerKind::Default.name(), "default");
}

#[test]
fn enum_names_round_trip() {
    assert_eq!(PackageType::from_name("static-library"), Some(PackageType::StaticLibrary));
    assert_eq!(PackageType::from_name(PackageType::SharedLibrary.name()), Some(PackageType::SharedLibrary));
    assert_eq!(PackageType::from_name("plugin"), None);
    assert_eq!(CStandard::from_name("c17"), Some(CStandard::C17));
    assert_eq!(OptLevel::from_int(2), Some(OptLevel::O2));
    assert_eq!(OptLevel::from_int(4), None);
    assert_eq!(OptLevel::from_name("s"), Some(OptLevel::Os));
    assert_eq!(OptLevel::from_name("z"), Some(OptLevel::Oz));
    assert_eq!(OptLevel::Os.as_flag(), "s");
    assert_eq!(LtoMode::from_bool(true), LtoMode::Full);
    assert_eq!(LtoMode::from_bool(false), LtoMode::Off);
    assert_eq!(LtoMode::from_name("thin"), Some(LtoMode::Thin));
    assert_eq!(ProviderKind::Vcpkg.name(), "vcpkg");
}

#[test]
fn minimal_executable() {
    let m = app();
    assert!(m.validate().is_ok());
    assert!(!m.is_workspace());
    assert_eq!(m.package().name, "myapp");
}

#[test]
fn invalid_version() {
    let mut m = Manifest::empty();
    m.package = Some(package("myapp", "not-a-version"));
    let err = m.validate().unwrap_err();
    let msg = err.render();
    assert!(msg.contains("invalid version"), "got: {msg}");
    assert!(err.is_validation());
}

#[test]
fn empty_name() {
    let mut m = Manifest::empty();
    m.package = Some(package("", "0.1.0"));
    let msg = m.validate().unwrap_err().render();
    assert!(msg.contains("name"), "got: {msg}");
}

#[test]
fn missing_package_and_workspace() {
    let msg = Manifest::empty().validate().unwrap_err().render();
    assert!(msg.contains("[package]") && msg.contains("[workspace]"), "got: {msg}");
}

#[test]
fn workspace_empty_members_invalid() {
    let mut m = Manifest::empty();
    m.workspace = Some(WorkspaceConfig { members: Vec::new(), exclude: Vec::new(), dependencies: StrMap::new() });
    let msg = m.validate().unwrap_err().render();
    assert!(msg.contains("at least one member"), "got: {msg}");
}

#[test]
fn workspace_only() {
    let mut m = Manifest::empty();
    m.workspace =
        Some(WorkspaceConfig { members: vec!["libs/*".to_string()], exclude: Vec::new(), dependencies: StrMap::new() });
    assert!(m.validate().is_ok());
    assert!(m.is_workspace());
    assert!(m.is_virtual_workspace());
}

#[test]
fn with_requires_git() {
    let mut m = app();
    let mut d = dep();
    d.with = Some("cmake".to_string());
    m.dependencies.insert("fmt".to_string(), d);
    let msg = m.validate().unwrap_err().render();
    assert_eq!(msg, "dependency 'fmt': `with` is only valid on git dependencies");
    let mut m = app();
    let mut d = dep();
    d.with = Some("cmake".to_string());
    d.git = Some("https://github.com/fmtlib/fmt".to_string());
    m.dependencies.insert("fmt".to_string(), d);
    assert!(m.validate().is_ok());
}

#[test]
fn semver_forms() {
    assert!(version_is_semver("1"));
    assert!(version_is_semver("1.2"));
    assert!(version_is_semver("1.2.3"));
    assert!(!version_is_semver("1.2.3.4"));
    assert!(!version_is_semver("1.x"));
    assert!(!version_is_semver(""));
}

#[test]
fn dependency_sources() {
    let mut d = dep();
    d.path = Some("../lib".to_string());
    assert_eq!(d.source_kind(), DependencySource::Path);
    let mut d = dep();
    d.git = Some("u".to_string());
    assert_eq!(d.source_kind(), DependencySource::Git);
    let mut d = dep();
    d.provider = Some(ProviderKind::Vcpkg);
    d.version = Some("11".to_string());
    assert_eq!(d.source_kind(), DependencySource::Provider(ProviderKind::Vcpkg));
    let d = DependencySpec::from_version("11".to_string());
    assert_eq!(d.version.as_deref(), Some("11"));
    assert_eq!(d.source_kind(), DependencySource::Registry);
    let mut d = dep();
    d.workspace = true;
    assert_eq!(d.source_kind(), DependencySource::Workspace);
}

#[test]
fn profile_dev_defaults() {
    let p = app().resolve_profile("dev").unwrap();
    assert_eq!(p.opt_level, OptLevel::O0);
    assert!(p.debug);
    assert!(p.assertions);
    assert!(!p.strip);
    assert!(p.rtti);
    assert!(p.exceptions);
    assert_eq!(p.warnings, WarningLevel::All);
    assert_eq!(p.lto, LtoMode::Off);
}

#[test]
fn profile_debug_alias() {
    let m = app();
    assert_eq!(m.resolve_profile("debug").unwrap(), m.resolve_profile("dev").unwrap());
}

#[test]
fn profile_release_defaults() {
    let p = app().resolve_profile("release").unwrap();
    assert_eq!(p.opt_level, OptLevel::O3);
    assert!(!p.debug);
    assert!(!p.assertions);
    assert!(p.strip);
}

#[test]
fn profile_bench_defaults() {
    let p = app().resolve_profile("bench").unwrap();
    assert_eq!(p.opt_level, OptLevel::O3);
    assert!(p.debug);
    assert!(p.strip);
}

#[test]
fn profile_user_override() {
    let mut m = app();
    with_profile(&mut m, "dev", |c| {
        c.opt_level = Some(OptLevel::O2);
        c.sanitize = Some(vec![Sanitizer::Address, Sanitizer::Undefined]);
    });
    let p = m.resolve_profile("dev").unwrap();
    assert_eq!(p.opt_level, OptLevel::O2);
    assert_eq!(p.sanitize, vec![Sanitizer::Address, Sanitizer::Undefined]);
    assert!(p.debug);
}

#[test]
fn profile_release_override() {
    let mut m = app();
    with_profile(&mut m, "release", |c| {
        c.lto = Some(LtoMode::Thin);
        c.opt_level = Some(OptLevel::Os);
    });
    let p = m.resolve_profile("release").unwrap();
    assert_eq!(p.lto, LtoMode::Thin);
    assert_eq!(p.opt_level, OptLevel::Os);
    assert!(!p.debug);
}

#[test]
fn profile_custom_inherits() {
    let mut m = app();
    with_profile(&mut m, "profiling", |c| {
        c.inherits = Some("release".to_string());
        c.debug = Some(true);
        c.strip = Some(false);
    });
    let p = m.resolve_profile("profiling").unwrap();
    assert_eq!(p.opt_level, OptLevel::O3);
    assert!(p.debug);
    assert!(!p.strip);
}

#[test]
fn profile_inherits_chain() {
    let mut m = app();
    with_profile(&mut m, "release", |c| c.lto = Some(LtoMode::Thin));
    with_profile(&mut m, "dist", |c| {
        c.inherits = Some("release".to_string());
        c.lto = Some(LtoMode::Full);
        c.strip = Some(false);
    });
    let p = m.resolve_profile("dist").unwrap();
    assert_eq!(p.lto, LtoMode::Full);
    assert!(!p.strip);
    assert_eq!(p.opt_level, OptLevel::O3);
}

#[test]
fn profile_inherited_override_reaches_child() {
    let mut m = app();
    with_profile(&mut m, "release", |c| c.lto = Some(LtoMode::Thin));
    with_profile(&mut m, "dist", |c| c.inherits = Some("release".to_string()));
    assert_eq!(m.resolve_profile("dist").unwrap().lto, LtoMode::Thin);
}

#[test]
fn profile_circular_inherits() {
    let mut m = app();
    with_profile(&mut m, "a", |c| c.inherits = Some("b".to_string()));
    with_profile(&mut m, "b", |c| c.inherits = Some("a".to_string()));
    let err = m.resolve_profile("a").unwrap_err().render();
    assert!(err.contains("circular"), "got: {err}");
}

#[test]
fn profile_custom_no_inherits() {
    let mut m = app();
    with_profile(&mut m, "custom", |c| c.opt_level = Some(OptLevel::O1));
    let err = m.resolve_profile("custom").unwrap_err().render();
    assert!(err.contains("inherits"), "got: {err}");
}

#[test]
fn profile_unknown() {
    let err = app().resolve_profile("nonexistent").unwrap_err().render();
    assert!(err.contains("unknown"), "got: {err}");
}

#[test]
fn profile_lto_bool_false() {
    let mut m = app();
    with_profile(&mut m, "dev", |c| c.lto = Some(LtoMode::from_bool(false)));
    assert_eq!(m.resolve_profile("dev").unwrap().lto, LtoMode::Off);
}

#[test]
fn profile_lto_bool_true() {
    let mut m = app();
    with_profile(&mut m, "dev", |c| c.lto = Some(LtoMode::from_bool(true)));
    assert_eq!(m.resolve_profile("dev").unwrap().lto, LtoMode::Full);
}

#[test]
fn profile_all_fields() {
    let mut m = app();
    with_profile(&mut m, "dev", |c| {
        c.opt_level = Some(OptLevel::Oz);
        c.debug = Some(false);
        c.assertions = Some(false);
        c.sanitize = Some(vec![Sanitizer::Thread]);
        c.lto = Some(LtoMode::Thin);
        c.strip = Some(true);
        c.pic = Some(true);
        c.rtti = Some(false);
        c.exceptions = Some(false);
        c.warnings = Some(WarningLevel::Error);
        c.linker = Some("mold".to_string());
        c.static_runtime = Some(true);
        c.coverage = Some(true);
        c.split_debug = Some(true);
        c.pch = Some("pch/all.h".to_string());
        c.unity = Some(true);
        c.parallel = Some(8);
    });
    let p = m.resolve_profile("dev").unwrap();
    assert_eq!(p.opt_level, OptLevel::Oz);
    assert!(!p.debug);
    assert!(!p.assertions);
    assert_eq!(p.sanitize, vec![Sanitizer::Thread]);
    assert_eq!(p.lto, LtoMode::Thin);
    assert!(p.strip);
    assert!(p.pic);
    assert!(!p.rtti);
    assert!(!p.exceptions);
    assert_eq!(p.warnings, WarningLevel::Error);
    assert_eq!(p.linker.as_deref(), Some("mold"));
    assert!(p.static_runtime);
    assert!(p.coverage);
    assert!(p.split_debug);
    assert_eq!(p.pch.as_deref(), Some("pch/all.h"));
    assert_eq!(p.unity, Some(true));
    assert_eq!(p.parallel, Some(8));
}

#[test]
fn profile_display_desc() {
    let m = app();
    let dev = m.resolve_profile("dev").unwrap().display_desc();
    let release = m.resolve_profile("release").unwrap().display_desc();
    assert_eq!(dev, "unoptimized + debuginfo");
    assert_eq!(release, "max optimization");
}
