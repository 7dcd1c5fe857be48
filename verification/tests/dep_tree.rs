use ordo::dag::MemberDag;
use ordo::dep_tree::{dependency_tree, root_line, workspace_tree, TreeLine};
use ordo::manifest::{DependencySpec, Manifest, Package, PackageType, ProviderKind, WorkspaceConfig};
use ordo::providers::FetchedDep;
use ordo::strmap::StrMap;
use ordo::workspace::{Workspace, WorkspaceMember};

fn line(l: &TreeLine) -> String {
    format!("{}{}", l.lead, l.text)
}

fn pkg(name: &str, version: &str, t: PackageType) -> Package {
    Package {
        name: name.to_string(),
        version: version.to_string(),
        package_type: t,
        license: None,
        description: None,
        authors: Vec::new(),
        repository: None,
    }
}

fn provider(kind: ProviderKind, version: Option<&str>) -> DependencySpec {
    let mut d = DependencySpec::from_version(String::new());
    d.version = version.map(|v| v.to_string());
    d.provider = Some(kind);
    d
}

#[test]
fn tree_with_deps() {
    let mut deps = StrMap::new();
    deps.insert("fmt".to_string(), provider(ProviderKind::Vcpkg, Some("11")));
    let mut z = provider(ProviderKind::System, None);
    z.optional = true;
    deps.insert("zlib".to_string(), z);
    let fetched = vec![
        None,
        Some(FetchedDep {
            name: "zlib".to_string(),
            include_dirs: vec!["/usr/include".to_string()],
            lib_dirs: Vec::new(),
            libs: vec!["z".to_string(), "m".to_string()],
            frameworks: Vec::new(),
            defines: Vec::new(),
        }),
    ];
    let lines: Vec<String> = dependency_tree(&deps, &fetched).iter().map(line).collect();
    assert_eq!(
        lines,
        vec![
            "├── fmt v11 (vcpkg)",
            "└── zlib v* (system) [optional]",
            "    libs: z, m",
            "    include: /usr/include",
        ]
    );
    let t = dependency_tree(&deps, &fetched);
    assert!(!t[0].detail && t[2].detail);
}

#[test]
fn tree_of_path_and_git() {
    let mut deps = StrMap::new();
    let mut p = DependencySpec::from_version(String::new());
    p.version = None;
    p.path = Some("../core".to_string());
    deps.insert("core".to_string(), p);
    let mut g = DependencySpec::from_version(String::new());
    g.version = None;
    g.git = Some("https://x/fmt".to_string());
    deps.insert("fmt".to_string(), g);
    deps.insert("plain".to_string(), DependencySpec::from_version("1.0".to_string()));
    let lines: Vec<String> = dependency_tree(&deps, &vec![None, None, None]).iter().map(line).collect();
    assert_eq!(lines, vec!["├── core v* (path)", "├── fmt v* (git)", "└── plain v1.0"]);
}

#[test]
fn root_lines() {
    let p = pkg("app", "0.2.0", PackageType::Executable);
    assert_eq!(root_line(Some(&p), false), "app v0.2.0");
    assert_eq!(root_line(Some(&p), true), "app v0.2.0 (workspace)");
    assert_eq!(root_line(None, true), "(workspace)");
}

#[test]
fn tree_of_workspace() {
    let mut core = Manifest::empty();
    core.package = Some(pkg("core", "0.1.0", PackageType::StaticLibrary));
    let mut app = Manifest::empty();
    app.package = Some(pkg("app", "1.0.0", PackageType::Executable));
    let mut path = DependencySpec::from_version(String::new());
    path.version = None;
    path.path = Some("../core".to_string());
    app.dependencies.insert("core".to_string(), path);
    app.dependencies.insert("fmt".to_string(), DependencySpec::from_version("11".to_string()));
    let mut root = Manifest::empty();
    root.workspace = Some(WorkspaceConfig { members: Vec::new(), exclude: Vec::new(), dependencies: StrMap::new() });
    let ws = Workspace {
        root_dir: "/w".to_string(),
        root_manifest: root,
        members: vec![
            WorkspaceMember { name: "app".to_string(), dir: "/w/app".to_string(), manifest: app },
            WorkspaceMember { name: "core".to_string(), dir: "/w/core".to_string(), manifest: core },
        ],
    };
    let dag = MemberDag::build(&vec![("app".to_string(), vec!["core".to_string()]), ("core".to_string(), Vec::new())])
        .unwrap();
    let lines: Vec<String> = workspace_tree(&ws, &dag).iter().map(line).collect();
    assert_eq!(lines, vec!["├── core v0.1.0", "└── app v1.0.0", "    deps: core", "    ext: fmt"]);
}
