use ordo::manifest::{CStandard, Manifest, OptLevel, PackageType, TestFramework};
use ordo::providers::FetchedDep;
use ordo::testing::{
    build_test_compile_flags, build_test_link_flags, combine_output, detect_framework, filter_targets,
    framework_filter_args, framework_link_info, is_main_file, is_test_source, project_lib_candidate,
    resolve_profile_name, tally, test_library, test_dir_choice, discovered_target, test_profile_dir, test_spec_for, TestOptions, TestTarget,
};

fn opts() -> TestOptions {
    TestOptions {
        filter: None,
        jobs: None,
        release: false,
        profile: None,
        features: Vec::new(),
        no_default_features: false,
        all_features: false,
        package: None,
        verbose: 0,
    }
}

fn strings(v: &[&str]) -> Vec<String> {
    v.iter().map(|s| s.to_string()).collect()
}

fn target(name: &str) -> TestTarget {
    TestTarget { name: name.to_string(), source: format!("tests/{name}.cpp"), framework: TestFramework::Plain }
}

#[test]
fn profile_name_choice() {
    assert_eq!(resolve_profile_name(&opts()), "debug");
    assert_eq!(resolve_profile_name(&TestOptions { release: true, ..opts() }), "release");
    assert_eq!(
        resolve_profile_name(&TestOptions { release: true, profile: Some("bench".to_string()), ..opts() }),
        "bench"
    );
}

#[test]
fn framework_detection() {
    assert_eq!(detect_framework("#include <gtest/gtest.h>\nTEST(A, B) {}"), TestFramework::Gtest);
    assert_eq!(detect_framework("  #include <catch2/catch_test_macros.hpp>\n"), TestFramework::Catch2);
    assert_eq!(detect_framework("#include \"doctest.h\"\n"), TestFramework::Doctest);
    assert_eq!(detect_framework("// gtest/gtest.h\nint main() {}"), TestFramework::Plain);
    assert_eq!(detect_framework("#include <stdio.h>\n#include <gmock/gmock.h>\n"), TestFramework::Gtest);
}

#[test]
fn framework_libraries() {
    let (libs, dirs, incs) = framework_link_info(TestFramework::Gtest);
    assert_eq!(libs, vec!["gtest", "gtest_main", "pthread"]);
    assert!(dirs.is_empty() && incs.is_empty());
    assert_eq!(framework_link_info(TestFramework::Catch2).0, vec!["Catch2Main", "Catch2"]);
    assert!(framework_link_info(TestFramework::Plain).0.is_empty());
}

#[test]
fn source_kinds() {
    assert!(is_test_source("tests/a.cpp"));
    assert!(is_test_source("tests/a.c"));
    assert!(!is_test_source("tests/a.h"));
    assert!(is_main_file("src/Main.cpp"));
    assert!(!is_main_file("src/mainly.cpp"));
}

#[test]
fn test_library_only_for_executables() {
    let l = test_library("app", PackageType::Executable, strings(&["src/a.cpp"])).unwrap();
    assert_eq!(l.lib_name, "app_testlib");
    assert_eq!(l.sources, vec!["src/a.cpp"]);
    assert!(test_library("app", PackageType::Executable, Vec::new()).is_none());
    assert!(test_library("lib", PackageType::StaticLibrary, strings(&["src/a.cpp"])).is_none());
}

#[test]
fn filter_keeps_matching_names_in_order() {
    let ts = vec![target("test_math"), target("test_io"), target("bench_math")];
    let r = filter_targets(ts, Some("math"));
    let names: Vec<&str> = r.iter().map(|t| t.name.as_str()).collect();
    assert_eq!(names, vec!["test_math", "bench_math"]);
    assert_eq!(filter_targets(vec![target("a"), target("b")], None).len(), 2);
}

#[test]
fn spec_for_target() {
    let t = TestTarget { framework: TestFramework::Gtest, ..target("t1") };
    let s = test_spec_for(&t);
    assert_eq!(s.name, "t1");
    assert_eq!(s.test_source, "tests/t1.cpp");
    assert_eq!(s.framework_libs, vec!["gtest", "gtest_main", "pthread"]);
}

#[test]
fn directories_and_artifacts() {
    assert_eq!(test_profile_dir("/p/target", "debug", false, "app"), "/p/target/debug");
    assert_eq!(test_profile_dir("/p/target", "debug", true, "app"), "/p/target/debug/app");
    assert_eq!(project_lib_candidate(PackageType::StaticLibrary, "/d", "m"), Some("/d/libm.a".to_string()));
    assert_eq!(project_lib_candidate(PackageType::SharedLibrary, "/d", "m"), Some("/d/libm.so".to_string()));
    assert_eq!(project_lib_candidate(PackageType::Executable, "/d", "m"), None);
}

#[test]
fn filter_arguments_per_framework() {
    assert_eq!(framework_filter_args(TestFramework::Gtest, Some("Math")), vec!["--gtest_filter=*Math*"]);
    assert_eq!(framework_filter_args(TestFramework::Catch2, Some("Math")), vec!["Math"]);
    assert_eq!(framework_filter_args(TestFramework::Doctest, Some("Math")), vec!["--test-case=*Math*"]);
    assert!(framework_filter_args(TestFramework::Plain, Some("Math")).is_empty());
    assert!(framework_filter_args(TestFramework::Gtest, None).is_empty());
}

#[test]
fn output_combination() {
    assert_eq!(combine_output("out", "err"), "out\nerr");
    assert_eq!(combine_output("", "err"), "err");
    assert_eq!(combine_output("out", ""), "out");
    assert_eq!(combine_output("", ""), "");
}

#[test]
fn tally_counts() {
    assert_eq!(tally(&vec![true, false, true, true]), (3, 1));
    assert_eq!(tally(&Vec::new()), (0, 0));
}

fn fetched(incs: &[&str], libs: &[&str], fws: &[&str], defines: &[&str]) -> FetchedDep {
    FetchedDep {
        name: "d".to_string(),
        include_dirs: strings(incs),
        lib_dirs: Vec::new(),
        libs: strings(libs),
        frameworks: strings(fws),
        defines: strings(defines),
    }
}

#[test]
fn test_compile_flags_follow_profile_and_deps() {
    let m = Manifest::empty();
    let deps = vec![fetched(&["/dep/include"], &["z"], &[], &["USE_Z"])];
    let f = build_test_compile_flags(&m, Some("/p/include".to_string()), "release", &opts(), &deps);
    assert_eq!(f.opt_level, OptLevel::O3);
    assert!(f.include_dirs.contains(&"/p/include".to_string()));
    assert!(f.include_dirs.contains(&"/dep/include".to_string()));
    assert!(f.defines.contains(&"USE_Z".to_string()));
    assert_eq!(f.cpp_standard, Some(ordo::manifest::CppStandard::Cpp20));
    let mut c_only = Manifest::empty();
    c_only.language.c = Some(CStandard::C17);
    let f = build_test_compile_flags(&c_only, None, "debug", &opts(), &Vec::new());
    assert_eq!(f.cpp_standard, None);
    assert_eq!(f.c_standard, Some(CStandard::C17));
}

#[test]
fn test_link_flags_sort_frameworks() {
    let m = Manifest::empty();
    let deps = vec![fetched(&[], &["a"], &["IOKit", "Cocoa"], &[]), fetched(&[], &["b"], &["Cocoa"], &[])];
    let f = build_test_link_flags(&m, "debug", &deps);
    assert_eq!(f.libs, vec!["a", "b"]);
    assert_eq!(f.frameworks, vec!["Cocoa", "IOKit"]);
}

#[test]
fn test_dir_is_override_then_tests_then_test() {
    assert_eq!(test_dir_choice(Some("spec"), true, true).as_deref(), Some("spec"));
    assert_eq!(test_dir_choice(None, true, true).as_deref(), Some("tests"));
    assert_eq!(test_dir_choice(None, false, true).as_deref(), Some("test"));
    assert_eq!(test_dir_choice(None, false, false), None);
}

#[test]
fn discovered_targets_take_stem_and_framework() {
    let t = discovered_target("/p/tests/test_math.cpp", "#include <gtest/gtest.h>\n", None);
    assert_eq!(t.name, "test_math");
    assert_eq!(t.source, "/p/tests/test_math.cpp");
    assert_eq!(t.framework, TestFramework::Gtest);
    let t = discovered_target("/p/tests/a.c", "#include <gtest/gtest.h>\n", Some(TestFramework::Doctest));
    assert_eq!(t.framework, TestFramework::Doctest);
}
