use ordo::manifest::{
    CompilerKind, CppStandard, DependencySpec, LinkerKind, Manifest, Package, PackageType, WorkspaceConfig,
};
use ordo::strmap::StrMap;
use ordo::workspace::{copy_dep, resolve_workspace_deps, validate_unique_names, Workspace, WorkspaceMember};

fn package(name: &str) -> Manifest {
    let mut m = Manifest::empty();
    m.package = Some(Package {
        name: name.to_string(),
        version: "0.1.0".to_string(),
        package_type: PackageType::StaticLibrary,
        license: None,
        description: None,
        authors: Vec::new(),
        repository: None,
    });
    m
}

fn ws_dep() -> DependencySpec {
    let mut d = DependencySpec::from_version(String::new());
    d.version = None;
    d.workspace = true;
    d
}

fn member(name: &str, dir: &str, manifest: Manifest) -> WorkspaceMember {
    WorkspaceMember { name: name.to_string(), dir: dir.to_string(), manifest }
}

fn root_with(members: &[&str]) -> Manifest {
    let mut m = Manifest::empty();
    m.workspace = Some(WorkspaceConfig {
        members: members.iter().map(|s| s.to_string()).collect(),
        exclude: Vec::new(),
        dependencies: StrMap::new(),
    });
    m
}

#[test]
fn workspace_dep_inheritance() {
    let mut root = root_with(&["apps/*"]);
    root.workspace.as_mut().unwrap().dependencies.insert("fmt".to_string(), DependencySpec::from_version("11".to_string()));
    let mut app = package("myapp");
    app.dependencies.insert("fmt".to_string(), ws_dep());
    resolve_workspace_deps(&mut app, root.workspace.as_ref().unwrap()).unwrap();
    let fmt = app.dependencies.get("fmt").unwrap();
    assert_eq!(fmt.version.as_deref(), Some("11"));
    assert!(!fmt.workspace);
}

#[test]
fn workspace_dep_not_declared_errors() {
    let root = root_with(&["apps/*"]);
    let mut app = package("myapp");
    app.dependencies.insert("fmt".to_string(), ws_dep());
    let msg = resolve_workspace_deps(&mut app, root.workspace.as_ref().unwrap()).unwrap_err();
    assert!(msg.contains("not declared in [workspace.dependencies]"), "got: {msg}");
}

#[test]
fn workspace_dev_dep_inheritance() {
    let mut root = root_with(&["apps/*"]);
    root.workspace.as_mut().unwrap().dependencies.insert("gtest".to_string(), DependencySpec::from_version("1.14".to_string()));
    let mut app = package("myapp");
    app.dev_dependencies.insert("gtest".to_string(), ws_dep());
    app.dependencies.insert("zlib".to_string(), DependencySpec::from_version("1.3".to_string()));
    resolve_workspace_deps(&mut app, root.workspace.as_ref().unwrap()).unwrap();
    assert_eq!(app.dev_dependencies.get("gtest").unwrap().version.as_deref(), Some("1.14"));
    assert_eq!(app.dependencies.get("zlib").unwrap().version.as_deref(), Some("1.3"));
}

#[test]
fn toolchain_inheritance() {
    let mut root = root_with(&["libs/*"]);
    root.toolchain.compiler = Some(CompilerKind::Clang);
    root.toolchain.linker = Some(LinkerKind::Lld);
    root.language.cpp = Some(CppStandard::Cpp23);
    let mut special = package("special");
    special.toolchain.compiler = Some(CompilerKind::Gcc);
    let ws = Workspace {
        root_dir: "/ws".to_string(),
        root_manifest: root,
        members: vec![member("core", "/ws/libs/core", package("core")), member("special", "/ws/libs/special", special)],
    };
    let root_lang = ws.root_language();
    let root_tc = ws.root_toolchain();
    let core = ws.find_member("core").unwrap();
    let core_tc = core.effective_toolchain(root_tc);
    assert_eq!(core_tc.compiler, Some(CompilerKind::Clang));
    assert_eq!(core_tc.linker, Some(LinkerKind::Lld));
    let special = ws.find_member("special").unwrap();
    let special_tc = special.effective_toolchain(root_tc);
    assert_eq!(special_tc.compiler, Some(CompilerKind::Gcc));
    assert_eq!(special_tc.linker, Some(LinkerKind::Lld));
    assert_eq!(core.effective_language(root_lang).cpp, Some(CppStandard::Cpp23));
    assert!(ws.find_member("missing").is_none());
    assert_eq!(ws.member_names(), vec!["core", "special"]);
}

#[test]
fn duplicate_member_names_errors() {
    let members = vec![
        member("mylib", "/ws/libs/mylib", package("mylib")),
        member("other", "/ws/libs/other", package("other")),
        member("mylib", "/ws/extras/mylib", package("mylib")),
    ];
    let msg = validate_unique_names(&members).unwrap_err();
    assert!(msg.contains("duplicate workspace member"), "got: {msg}");
    assert_eq!(msg, "duplicate workspace member name 'mylib': found at '/ws/libs/mylib' and '/ws/extras/mylib'");
    assert!(validate_unique_names(&members[..2].iter().map(|m| member(&m.name, &m.dir, package(&m.name))).collect()).is_ok());
}

#[test]
fn copy_dep_keeps_every_field() {
    let mut d = DependencySpec::from_version("2".to_string());
    d.git = Some("u".to_string());
    d.features = vec!["x".to_string()];
    d.optional = true;
    let c = copy_dep(&d);
    assert_eq!(c.version, d.version);
    assert_eq!(c.git, d.git);
    assert_eq!(c.features, d.features);
    assert!(c.optional);
}

#[test]
fn select_members_by_name_or_all() {
    let ws = Workspace {
        root_dir: "/w".to_string(),
        root_manifest: root_with(&["*"]),
        members: vec![member("a", "/w/a", package("a")), member("b", "/w/b", package("b"))],
    };
    assert_eq!(ws.select_members(None).unwrap(), vec!["a".to_string(), "b".to_string()]);
    assert_eq!(ws.select_members(Some("b")).unwrap(), vec!["b".to_string()]);
    assert_eq!(
        ws.select_members(Some("c")).unwrap_err(),
        "package 'c' not found in workspace; available members: a, b"
    );
}
