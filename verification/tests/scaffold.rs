use ordo::cli::ProjectLang;
use ordo::manifest::PackageType;
use ordo::scaffold::{
    created_message, header_guard, init_manifest_text, init_package_type, manifest_text, project_files,
    project_tree, ProjectFile,
};

fn find<'a>(files: &'a [ProjectFile], path: &str) -> Option<&'a str> {
    files.iter().find(|f| f.path == path).map(|f| f.content.as_str())
}

#[test]
fn new_cpp_executable() {
    let files = project_files("myapp", false, ProjectLang::Cpp);
    let manifest = find(&files, "Ordo.toml").unwrap();
    assert!(find(&files, "src/main.cpp").is_some());
    assert!(find(&files, "tests/main_test.cpp").is_some());
    assert!(manifest.contains("type = \"executable\""));
    assert!(manifest.contains("cpp = \"c++20\""));
}

#[test]
fn new_c_executable() {
    let files = project_files("myapp", false, ProjectLang::C);
    assert!(find(&files, "src/main.c").is_some());
    assert!(find(&files, "tests/main_test.c").is_some());
    assert!(find(&files, "src/main.cpp").is_none());
    assert!(find(&files, "Ordo.toml").unwrap().contains("c = \"c23\""));
}

#[test]
fn new_cpp_library() {
    let files = project_files("mylib", true, ProjectLang::Cpp);
    assert!(find(&files, "include/mylib/mylib.hpp").is_some());
    assert!(find(&files, "src/mylib.cpp").is_some());
    assert!(find(&files, "tests/mylib_test.cpp").is_some());
    let manifest = find(&files, "Ordo.toml").unwrap();
    assert!(manifest.contains("type = \"static-library\""));
    assert!(manifest.contains("cpp = \"c++20\""));
}

#[test]
fn new_c_library() {
    let files = project_files("mylib", true, ProjectLang::C);
    assert!(find(&files, "src/mylib.c").is_some());
    assert!(find(&files, "tests/mylib_test.c").is_some());
    assert!(find(&files, "Ordo.toml").unwrap().contains("c = \"c23\""));
    let header = find(&files, "include/mylib/mylib.h").unwrap();
    assert!(header.contains("MYLIB_H"));
}

#[test]
fn new_project_file_order_and_gitignore() {
    let files = project_files("a", false, ProjectLang::Cpp);
    let paths: Vec<&str> = files.iter().map(|f| f.path.as_str()).collect();
    assert_eq!(paths, vec!["Ordo.toml", "src/main.cpp", "tests/main_test.cpp", ".gitignore"]);
    assert_eq!(find(&files, ".gitignore"), Some("target/\n"));
}

#[test]
fn exact_manifest_text() {
    assert_eq!(
        manifest_text("demo", "executable", ProjectLang::Cpp),
        "[package]\nname = \"demo\"\nversion = \"0.1.0\"\ntype = \"executable\"\n\n[language]\ncpp = \"c++20\"\n"
    );
}

#[test]
fn exact_sources() {
    let files = project_files("my-lib", true, ProjectLang::Cpp);
    assert_eq!(
        find(&files, "include/my-lib/my-lib.hpp").unwrap(),
        "#ifndef MY_LIB_HPP\n#define MY_LIB_HPP\n\nnamespace my-lib {\n\nint version();\n\n} // namespace my-lib\n\n#endif // MY_LIB_HPP\n"
    );
    let exe = project_files("app", false, ProjectLang::C);
    assert_eq!(
        find(&exe, "src/main.c").unwrap(),
        "#include <stdio.h>\n\nint main(void) {\n    printf(\"Hello, world!\\n\");\n    return 0;\n}\n"
    );
    assert_eq!(
        find(&exe, "tests/main_test.c").unwrap(),
        "#include <assert.h>\n\nint main(void) {\n    /* app tests */\n    assert(1 + 1 == 2);\n    return 0;\n}\n"
    );
}

#[test]
fn guard_upper_cases_and_replaces_dashes() {
    assert_eq!(header_guard("my-lib"), "MY_LIB");
    assert_eq!(header_guard("abc"), "ABC");
}

#[test]
fn tree_of_new_projects() {
    assert_eq!(
        project_tree("app", false, ProjectLang::Cpp),
        vec!["app/", "├── Ordo.toml", "├── src/", "│   └── main.cpp", "├── tests/", "│   └── main_test.cpp", "└── .gitignore"]
    );
    let lib = project_tree("lib", true, ProjectLang::C);
    assert_eq!(lib.len(), 10);
    assert_eq!(lib[4], "│       └── lib.h");
}

#[test]
fn created_messages() {
    assert_eq!(created_message("app", false, ProjectLang::Cpp), "C++ executable project `app`");
    assert_eq!(created_message("lib", true, ProjectLang::C), "C library project `lib`");
}

#[test]
fn init_detects_executable() {
    let files = vec!["main.cpp".to_string()];
    assert_eq!(init_package_type(&files), PackageType::Executable);
    assert_eq!(init_package_type(&vec!["main.cc".to_string()]), PackageType::Executable);
}

#[test]
fn init_detects_library() {
    assert_eq!(init_package_type(&vec!["lib.cpp".to_string()]), PackageType::StaticLibrary);
    assert_eq!(init_package_type(&Vec::new()), PackageType::StaticLibrary);
}

#[test]
fn init_creates_manifest() {
    let text = init_manifest_text("proj", PackageType::Executable);
    assert!(text.contains("version = \"0.1.0\""));
    assert_eq!(text, "[package]\nname = \"proj\"\nversion = \"0.1.0\"\ntype = \"executable\"\n");
}
