use ordo::build_graph::{is_cpp_source, BuildGraphBuilder, LinkKind, TestBinarySpec, TestBuildGraphBuilder};
use ordo::compiler::{create_compiler, CompileFlags, LinkFlags, TargetOs};
use ordo::manifest::{CompilerKind, PackageType};

fn strings(v: &[&str]) -> Vec<String> {
    v.iter().map(|s| s.to_string()).collect()
}

fn builder(kind: PackageType, sources: &[&str], os: TargetOs) -> BuildGraphBuilder {
    BuildGraphBuilder::new(
        create_compiler(CompilerKind::Gcc),
        strings(sources),
        "/p/target/debug/obj".to_string(),
        "/p".to_string(),
        "app".to_string(),
        kind,
        CompileFlags::default(),
        LinkFlags::default(),
        strings(&["/usr/include/c++"]),
        os,
    )
}

#[test]
fn cpp_sources_by_extension() {
    assert!(is_cpp_source("a.cc"));
    assert!(is_cpp_source("dir.v2/a.cxx"));
    assert!(is_cpp_source("a.cpp"));
    assert!(!is_cpp_source("a.c"));
}

#[test]
fn executable_graph() {
    let g = builder(PackageType::Executable, &["src/main.cpp", "src/util.c"], TargetOs::Unix).build();
    assert_eq!(g.tasks.len(), 2);
    let t = &g.tasks[0];
    assert_eq!(t.source, "src/main.cpp");
    assert_eq!(t.object, "main.o");
    assert_eq!(t.depfile, "main.d");
    assert!(t.is_cpp);
    assert_eq!(t.command[0], "g++");
    assert!(t.command.contains(&"/p/src/main.cpp".to_string()));
    assert!(t.command.contains(&"-std=c++20".to_string()));
    let n = t.command.len();
    assert_eq!(&t.command[n - 2..], &["-isystem".to_string(), "/usr/include/c++".to_string()]);
    let c = &g.tasks[1];
    assert!(!c.is_cpp);
    assert_eq!(c.command[0], "gcc");
    assert!(!c.command.iter().any(|a| a.starts_with("-std=c++")));
    assert_eq!(g.links.len(), 1);
    let l = &g.links[0];
    assert_eq!(l.kind, LinkKind::Executable);
    assert_eq!(l.output, "/p/target/debug/app");
    assert_eq!(l.objects, vec!["main.o", "util.o"]);
    assert_eq!(l.command[0], "g++");
}

#[test]
fn static_library_is_archived() {
    let g = builder(PackageType::StaticLibrary, &["a.c"], TargetOs::Unix).build();
    let l = &g.links[0];
    assert_eq!(l.kind, LinkKind::StaticLibrary);
    assert_eq!(l.output, "/p/target/debug/libapp.a");
    assert_eq!(l.command, vec!["ar", "rcs", "/p/target/debug/libapp.a", "a.o"]);
}

#[test]
fn shared_library_links_with_shared_flag() {
    let b = builder(PackageType::SharedLibrary, &["a.c"], TargetOs::MacOs);
    assert_eq!(b.compute_output_path(), "/p/target/debug/libapp.dylib");
    let l = b.build_link_task(&strings(&["a.o"]));
    assert_eq!(l.kind, LinkKind::SharedLibrary);
    assert_eq!(&l.command[..2], &["gcc".to_string(), "-shared".to_string()]);
}

#[test]
fn windows_output_names() {
    assert_eq!(builder(PackageType::Executable, &["a.c"], TargetOs::Windows).compute_output_path(), "/p/target/debug/app.exe");
    assert_eq!(builder(PackageType::StaticLibrary, &["a.c"], TargetOs::Windows).compute_output_path(), "/p/target/debug/app.lib");
}

#[test]
fn test_graph_builds_library_and_binaries() {
    let spec = TestBinarySpec {
        name: "test_math".to_string(),
        test_source: "tests/test_math.cpp".to_string(),
        framework_libs: strings(&["gtest"]),
        framework_lib_dirs: Vec::new(),
        framework_include_dirs: Vec::new(),
    };
    let b = TestBuildGraphBuilder::new(
        create_compiler(CompilerKind::Clang),
        "/p/target/test/obj".to_string(),
        "/p".to_string(),
        CompileFlags::default(),
        LinkFlags::default(),
        strings(&["src/math.cpp"]),
        Some("mylib".to_string()),
        None,
        vec![spec],
        Vec::new(),
        TargetOs::Unix,
    );
    let out = b.build();
    assert_eq!(out.graph.tasks.len(), 2);
    assert_eq!(out.graph.tasks[0].object, "lib_math.o");
    assert_eq!(out.test_binaries.len(), 1);
    assert_eq!(out.test_binaries[0].0, "test_math");
    assert!(out.graph.links.len() >= 1);
    let test_link = out.graph.links.last().unwrap();
    assert_eq!(test_link.kind, LinkKind::Executable);
    assert!(test_link.command.contains(&"-lgtest".to_string()));
}

#[test]
fn compile_commands_follow_tasks() {
    let g = builder(PackageType::Executable, &["src/main.cpp", "src/util.c"], TargetOs::Unix).build();
    let entries = g.compile_command_entries();
    assert_eq!(entries.len(), 2);
    assert_eq!(entries[0].directory, "/p");
    assert_eq!(entries[0].file, "src/main.cpp");
    assert_eq!(entries[0].arguments, g.tasks[0].command);
    assert_eq!(entries[1].file, "src/util.c");
}
