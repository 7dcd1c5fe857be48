use ordo::build_plan::{
    path_dep_include_dirs,
    build_dirs, check_runnable, dep_cache_dir, fetch_plan, library_artifacts, members_to_build,
    merge_path_dep, path_dep_own_includes, plan_path_dep, run_target, FetchPlan, PathDepPlan,
};
use ordo::strmap::{StrMap, StrSet};
use ordo::dag::MemberDag;
use ordo::manifest::{Manifest, Package, PackageType, WorkspaceConfig};
use ordo::providers::FetchedDep;
use ordo::workspace::{Workspace, WorkspaceMember};

fn strings(v: &[&str]) -> Vec<String> {
    v.iter().map(|s| s.to_string()).collect()
}

fn member(name: &str, t: PackageType) -> WorkspaceMember {
    let mut m = Manifest::empty();
    m.package = Some(Package {
        name: name.to_string(),
        version: "0.1.0".to_string(),
        package_type: t,
        license: None,
        description: None,
        authors: Vec::new(),
        repository: None,
    });
    WorkspaceMember { name: name.to_string(), dir: format!("/w/{name}"), manifest: m }
}

fn workspace(members: Vec<WorkspaceMember>, root_package: bool) -> Workspace {
    let mut root = Manifest::empty();
    root.workspace = Some(WorkspaceConfig { members: Vec::new(), exclude: Vec::new(), dependencies: StrMap::new() });
    if root_package {
        root.package = member("root", PackageType::Executable).manifest.package;
    }
    Workspace { root_dir: "/w".to_string(), root_manifest: root, members }
}

fn dag() -> MemberDag {
    MemberDag::build(&vec![
        ("app".to_string(), vec!["core".to_string()]),
        ("core".to_string(), Vec::new()),
        ("tool".to_string(), Vec::new()),
    ])
    .unwrap()
}

#[test]
fn workspace_build_members() {
    let ws = workspace(
        vec![member("app", PackageType::Executable), member("core", PackageType::StaticLibrary), member("tool", PackageType::Executable)],
        false,
    );
    let d = dag();
    let all = members_to_build(&ws, &d, None).unwrap();
    assert_eq!(all.len(), 3);
    assert!(!all.contains(&"__root__".to_string()));
    assert_eq!(members_to_build(&ws, &d, Some("app")).unwrap(), strings(&["core", "app"]));
    assert_eq!(
        members_to_build(&ws, &d, Some("nope")).unwrap_err(),
        "package 'nope' not found in workspace; available members: app, core, tool"
    );
    let with_root = workspace(vec![member("core", PackageType::StaticLibrary)], true);
    let order = members_to_build(&with_root, &d, None).unwrap();
    assert_eq!(order.last().map(|s| s.as_str()), Some("__root__"));
}

#[test]
fn output_directories() {
    let (build, out) = build_dirs("/p/target", "debug", "app", false);
    assert_eq!(out, "/p/target/debug");
    assert_eq!(build, "/p/target/debug/build");
    let (build, out) = build_dirs("/w/target", "release", "app", true);
    assert_eq!(out, "/w/target/release/app");
    assert_eq!(build, "/w/target/release/app/build");
    assert_eq!(dep_cache_dir("/p/target", "debug", "app", false), "/p/target");
    assert_eq!(dep_cache_dir("/w/target", "debug", "app", true), "/w/target/debug/app");
}

#[test]
fn fetch_plans() {
    assert_eq!(fetch_plan(true, false, false, false, true), Ok(FetchPlan::UseCache));
    assert_eq!(fetch_plan(true, false, false, false, false), Ok(FetchPlan::Fetch));
    assert_eq!(fetch_plan(true, false, true, false, true), Ok(FetchPlan::Fetch));
    assert_eq!(fetch_plan(false, false, false, false, true), Ok(FetchPlan::Fetch));
    assert!(fetch_plan(false, true, false, false, true).unwrap_err().starts_with("Ordo.lock is out of date; run"));
    assert!(fetch_plan(true, false, false, true, false).unwrap_err().starts_with("dependency cache missing"));
    assert!(fetch_plan(false, false, false, true, true).unwrap_err().contains("--frozen disallows network access"));
}

#[test]
fn library_artifacts_sorted_once() {
    let files = strings(&["/o/libz.a", "/o/libz.so", "/o/foo.lib", "/o/main.o", "/o/app", "/o/bar.dylib"]);
    let (dirs, libs) = library_artifacts(&files, "/o");
    assert_eq!(libs, strings(&["bar", "foo", "z"]));
    assert_eq!(dirs, strings(&["/o"]));
}

#[test]
fn scan_library_artifacts_empty_dir() {
    let (dirs, libs) = library_artifacts(&Vec::new(), "/o");
    assert!(dirs.is_empty());
    assert!(libs.is_empty());
}

#[test]
fn path_dependency_collects_transitive() {
    let t = FetchedDep {
        name: "t".to_string(),
        include_dirs: strings(&["/t/include"]),
        lib_dirs: strings(&["/t/lib"]),
        libs: strings(&["t"]),
        frameworks: strings(&["Cocoa"]),
        defines: Vec::new(),
    };
    let d = merge_path_dep("core", strings(&["/c/include"]), strings(&["/c/out"]), strings(&["core"]), vec![t]);
    assert_eq!(d.name, "core");
    assert_eq!(d.include_dirs, strings(&["/c/include", "/t/include"]));
    assert_eq!(d.lib_dirs, strings(&["/c/out", "/t/lib"]));
    assert_eq!(d.libs, strings(&["core", "t"]));
    assert_eq!(d.frameworks, strings(&["Cocoa"]));
}

#[test]
fn path_dependency_steps() {
    let mut built: StrMap<FetchedDep> = StrMap::new();
    let mut building = StrSet::new();
    assert_eq!(
        plan_path_dep("core", "../core", false, false, "/c", &built, &building, false, false).unwrap_err(),
        "path dependency 'core' points to '../core' which does not exist"
    );
    assert_eq!(
        plan_path_dep("core", "../core", true, false, "/c", &built, &building, false, false).unwrap_err(),
        "path dependency 'core' at '../core' has no Ordo.toml"
    );
    match plan_path_dep("core", "../core", true, true, "/c", &built, &building, true, false).unwrap() {
        PathDepPlan::HeaderOnly(d) => {
            assert_eq!(d.name, "core");
            assert_eq!(d.include_dirs, strings(&["/c/include"]));
            assert!(d.libs.is_empty());
        }
        other => panic!("unexpected {other:?}"),
    }
    assert!(matches!(
        plan_path_dep("core", "../core", true, true, "/c", &built, &building, false, true).unwrap(),
        PathDepPlan::Build
    ));
    building.insert("/c".to_string());
    assert_eq!(
        plan_path_dep("core", "../core", true, true, "/c", &built, &building, false, true).unwrap_err(),
        "circular path dependency detected: 'core' at '/c'"
    );
    let cached = FetchedDep {
        name: "core".to_string(),
        include_dirs: strings(&["/c/include"]),
        lib_dirs: strings(&["/c/target/debug"]),
        libs: strings(&["core"]),
        frameworks: Vec::new(),
        defines: Vec::new(),
    };
    built.insert("/c".to_string(), cached);
    match plan_path_dep("core", "../core", true, true, "/c", &built, &building, false, true).unwrap() {
        PathDepPlan::Cached(d) => assert_eq!(d.libs, strings(&["core"])),
        other => panic!("unexpected {other:?}"),
    }
    assert_eq!(path_dep_own_includes("/c", false), strings(&["/c"]));
}

#[test]
fn run_target_choice() {
    let one = workspace(vec![member("app", PackageType::Executable), member("core", PackageType::StaticLibrary)], false);
    assert_eq!(run_target(&one, None).unwrap(), "app");
    assert_eq!(
        run_target(&one, Some("core")).unwrap_err(),
        "cannot run 'core': it is a static-library, not an executable"
    );
    assert_eq!(run_target(&one, Some("app")).unwrap(), "app");
    let none = workspace(vec![member("core", PackageType::StaticLibrary)], false);
    assert_eq!(
        run_target(&none, None).unwrap_err(),
        "no executable members in workspace; use -p to specify a member"
    );
    let two = workspace(vec![member("a", PackageType::Executable), member("b", PackageType::Executable)], false);
    assert_eq!(
        run_target(&two, None).unwrap_err(),
        "multiple executable members in workspace: a, b; use -p to specify one"
    );
}

#[test]
fn only_executables_run() {
    assert!(check_runnable(PackageType::Executable).is_ok());
    assert_eq!(
        check_runnable(PackageType::SharedLibrary).unwrap_err(),
        "cannot run a shared-library project — only executables can be run"
    );
}

#[test]
fn scan_library_artifacts_finds_libs() {
    let files = strings(&["/o/libcore.a", "/o/libcore.so", "/o/core.o"]);
    let (dirs, libs) = library_artifacts(&files, "/o");
    assert_eq!(libs, strings(&["core"]));
    assert_eq!(dirs, strings(&["/o"]));
}

#[test]
fn path_dependency_include_dirs() {
    assert_eq!(path_dep_include_dirs("/p/core", true, true), strings(&["/p/core/include"]));
    assert_eq!(path_dep_include_dirs("/p/core", false, true), strings(&["/p/core"]));
    assert!(path_dep_include_dirs("/p/core", false, false).is_empty());
}
