use ordo::source_tools::{
    format_args, format_findings, is_formattable, is_lintable, lint_args, lint_config_content, lint_shown_lines,
    source_dirs, style_file_content,
};

fn strings(v: &[&str]) -> Vec<String> {
    v.iter().map(|s| s.to_string()).collect()
}

#[test]
fn formattable_extensions() {
    for p in ["a.cpp", "src/b.cc", "c.cxx", "d.c", "e.h", "f.hpp", "g.hxx"] {
        assert!(is_formattable(p), "{p}");
    }
    for p in ["a.txt", "Makefile", "b.C", "c.rs", "d.hh"] {
        assert!(!is_formattable(p), "{p}");
    }
}

#[test]
fn lintable_extensions_exclude_headers() {
    assert!(is_lintable("src/main.cpp"));
    assert!(is_lintable("x.c"));
    assert!(!is_lintable("include/x.hpp"));
    assert!(!is_lintable("x.h"));
}

#[test]
fn tool_source_dirs() {
    assert_eq!(source_dirs(false), strings(&["src", "include", "tests", "test"]));
    assert_eq!(source_dirs(true), strings(&["src", "include"]));
}

#[test]
fn default_style_file() {
    assert_eq!(style_file_content(None), "BasedOnStyle: LLVM\nIndentWidth: 4\nColumnLimit: 100\n");
    assert_eq!(style_file_content(Some("BasedOnStyle: Google\n")), "BasedOnStyle: Google\n");
}

#[test]
fn default_lint_config() {
    let c = lint_config_content(None);
    assert!(c.starts_with("Checks: >\n  -*,\n"));
    assert!(c.contains("  bugprone-*,\n"));
    assert!(c.ends_with("  readability-*\n"));
    assert_eq!(lint_config_content(Some("Checks: '*'")), "Checks: '*'");
}

#[test]
fn clang_format_arguments() {
    let srcs = strings(&["src/a.cpp", "src/b.h"]);
    assert_eq!(format_args(false, &srcs), strings(&["-i", "src/a.cpp", "src/b.h"]));
    assert_eq!(format_args(true, &srcs), strings(&["--dry-run", "--Werror", "src/a.cpp", "src/b.h"]));
}

#[test]
fn clang_tidy_arguments() {
    let srcs = strings(&["src/a.cpp"]);
    assert_eq!(lint_args("/p", false, &srcs), strings(&["-p", "/p", "src/a.cpp"]));
    assert_eq!(lint_args("/p", true, &srcs), strings(&["-p", "/p", "--fix", "src/a.cpp"]));
}

#[test]
fn format_check_findings_keep_warnings_and_errors() {
    let stderr = "src/a.cpp:1:2: warning: code should be clang-formatted\n  int x;\nsrc/b.cpp:3:1: error: bad\nnote\n";
    assert_eq!(
        format_findings(stderr),
        strings(&["src/a.cpp:1:2: warning: code should be clang-formatted", "src/b.cpp:3:1: error: bad"])
    );
    assert!(format_findings("").is_empty());
}

#[test]
fn lint_output_drops_noise() {
    let stderr = "12 warnings generated.\n\n   \nsrc/a.cpp:1: warning: x\r\n";
    assert_eq!(lint_shown_lines(stderr), strings(&["src/a.cpp:1: warning: x"]));
}
