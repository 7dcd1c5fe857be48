//! The source tools behind `fmt` and `lint` (clang-format and clang-tidy):
//! which files they take, what they are run with, the configuration written
//! for them, and which lines of their output are shown.
use vstd::prelude::*;
use crate::build_graph::{extension_of, path_extension};
use crate::text::{contains_sub, lines_std, std_lines, str_contains, str_eq, str_trim, strs, trim};

verus! {

/// A file `fmt` formats, by its extension.
pub open spec fn is_formattable_path(p: Seq<char>) -> bool {
    extension_of(p) matches Some(e) && (e == "cpp"@ || e == "cc"@ || e == "cxx"@ || e == "c"@ || e
        == "h"@ || e == "hpp"@ || e == "hxx"@)
}

/// A file `lint` checks, by its extension: a C or C++ source, no header.
pub open spec fn is_lintable_path(p: Seq<char>) -> bool {
    extension_of(p) matches Some(e) && (e == "cpp"@ || e == "cc"@ || e == "cxx"@ || e == "c"@)
}

pub fn is_formattable(path: &str) -> (b: bool)
    ensures
        b == is_formattable_path(path@),
{
    match path_extension(path) {
        Some(e) => {
            let e = e.as_str();
            str_eq(e, "cpp") || str_eq(e, "cc") || str_eq(e, "cxx") || str_eq(e, "c") || str_eq(e, "h")
                || str_eq(e, "hpp") || str_eq(e, "hxx")
        },
        None => false,
    }
}

pub fn is_lintable(path: &str) -> (b: bool)
    ensures
        b == is_lintable_path(path@),
{
    match path_extension(path) {
        Some(e) => {
            let e = e.as_str();
            str_eq(e, "cpp") || str_eq(e, "cc") || str_eq(e, "cxx") || str_eq(e, "c")
        },
        None => false,
    }
}

/// The directories (under a project root) searched for sources: for `fmt`
/// the sources, headers and tests; for `lint` the sources and headers.
pub open spec fn tool_dirs(for_lint: bool) -> Seq<Seq<char>> {
    if for_lint {
        seq!["src"@, "include"@]
    } else {
        seq!["src"@, "include"@, "tests"@, "test"@]
    }
}

pub fn source_dirs(for_lint: bool) -> (r: Vec<String>)
    ensures
        strs(r@) == tool_dirs(for_lint),
{
    let mut r: Vec<String> = Vec::new();
    r.push("src".to_string());
    r.push("include".to_string());
    if !for_lint {
        r.push("tests".to_string());
        r.push("test".to_string());
    }
    assert(strs(r@) =~= tool_dirs(for_lint));
    r
}

/// The `.clang-format` written where a project has none.
pub open spec fn default_style() -> Seq<char> {
    "BasedOnStyle: LLVM\nIndentWidth: 4\nColumnLimit: 100\n"@
}

/// The `.clang-tidy` written where a project has none.
pub open spec fn default_checks() -> Seq<char> {
    "Checks: >\n  -*,\n  bugprone-*,\n  clang-analyzer-*,\n  misc-*,\n  modernize-*,\n  performance-*,\n  readability-*\n"@
}

/// What `.clang-format` gets: the manifest's `[fmt] style`, else the default.
pub fn style_file_content(style_override: Option<&str>) -> (r: String)
    ensures
        r@ == (match style_override {
            Some(s) => s@,
            None => default_style(),
        }),
{
    match style_override {
        Some(s) => s.to_string(),
        None => "BasedOnStyle: LLVM\nIndentWidth: 4\nColumnLimit: 100\n".to_string(),
    }
}

/// What `.clang-tidy` gets: the manifest's `[lint] config`, else the default.
pub fn lint_config_content(config_override: Option<&str>) -> (r: String)
    ensures
        r@ == (match config_override {
            Some(s) => s@,
            None => default_checks(),
        }),
{
    match config_override {
        Some(s) => s.to_string(),
        None => "Checks: >\n  -*,\n  bugprone-*,\n  clang-analyzer-*,\n  misc-*,\n  modernize-*,\n  performance-*,\n  readability-*\n".to_string(),
    }
}

fn push_all(r: &mut Vec<String>, xs: &Vec<String>)
    ensures
        strs(final(r)@) == strs(old(r)@) + strs(xs@),
{
    let ghost start = strs(r@);
    let mut i: usize = 0;
    while i < xs.len()
        invariant
            i <= xs.len(),
            strs(r@) == start + strs(xs@).take(i as int),
        decreases xs.len() - i,
    {
        let ghost before = strs(r@);
        r.push(xs[i].clone());
        assert(strs(r@) =~= before.push(xs@[i as int]@));
        assert(strs(xs@).take(i + 1) =~= strs(xs@).take(i as int).push(xs@[i as int]@));
        i += 1;
    }
    assert(strs(xs@).take(xs.len() as int) =~= strs(xs@));
}

/// The arguments of clang-format: in place, or (to check) a dry run that
/// fails on any change; then the sources.
pub open spec fn format_arguments(check: bool, sources: Seq<Seq<char>>) -> Seq<Seq<char>> {
    if check {
        seq!["--dry-run"@, "--Werror"@] + sources
    } else {
        seq!["-i"@] + sources
    }
}

pub fn format_args(check: bool, sources: &Vec<String>) -> (r: Vec<String>)
    ensures
        strs(r@) == format_arguments(check, strs(sources@)),
{
    let mut r: Vec<String> = Vec::new();
    if check {
        r.push("--dry-run".to_string());
        r.push("--Werror".to_string());
    } else {
        r.push("-i".to_string());
    }
    let ghost head = strs(r@);
    assert(head =~= (if check {
        seq!["--dry-run"@, "--Werror"@]
    } else {
        seq!["-i"@]
    }));
    push_all(&mut r, sources);
    r
}

/// The arguments of clang-tidy: the project root (where the compilation
/// database is), `--fix` when asked, then the sources.
pub open spec fn lint_arguments(root: Seq<char>, fix: bool, sources: Seq<Seq<char>>) -> Seq<Seq<char>> {
    seq!["-p"@, root] + (if fix {
        seq!["--fix"@]
    } else {
        Seq::empty()
    }) + sources
}

pub fn lint_args(project_root: &str, fix: bool, sources: &Vec<String>) -> (r: Vec<String>)
    ensures
        strs(r@) == lint_arguments(project_root@, fix, strs(sources@)),
{
    let mut r: Vec<String> = Vec::new();
    r.push("-p".to_string());
    r.push(project_root.to_string());
    if fix {
        r.push("--fix".to_string());
    }
    let ghost head = strs(r@);
    assert(head =~= seq!["-p"@, project_root@] + (if fix {
        seq!["--fix"@]
    } else {
        Seq::<Seq<char>>::empty()
    }));
    push_all(&mut r, sources);
    r
}

/// A line of a failed format check that names a change.
pub open spec fn is_format_finding(l: Seq<char>) -> bool {
    contains_sub(l, "warning:"@) || contains_sub(l, "error:"@)
}

/// A line of clang-tidy's error stream that is not shown: the count of
/// warnings it generated, or a blank line.
pub open spec fn is_lint_noise(l: Seq<char>) -> bool {
    contains_sub(l, "warnings generated"@) || trim(l).len() == 0
}

/// The lines of a failed format check that name a change, in order; their
/// number is the number of files reported.
pub fn format_findings(stderr: &str) -> (r: Vec<String>)
    ensures
        strs(r@) == std_lines(stderr@).filter(|l: Seq<char>| is_format_finding(l)),
{
    let lines = lines_std(stderr);
    let mut r: Vec<String> = Vec::new();
    let mut i: usize = 0;
    while i < lines.len()
        invariant
            i <= lines.len(),
            strs(lines@) == std_lines(stderr@),
            strs(r@) == strs(lines@).take(i as int).filter(|l: Seq<char>| is_format_finding(l)),
        decreases lines.len() - i,
    {
        proof {
            let t0 = strs(lines@).take(i as int);
            assert(strs(lines@).take(i + 1) =~= t0.push(lines@[i as int]@));
            t0.lemma_filter_push(lines@[i as int]@, |l: Seq<char>| is_format_finding(l));
        }
        let l = lines[i].as_str();
        if str_contains(l, "warning:") || str_contains(l, "error:") {
            let ghost before = strs(r@);
            r.push(lines[i].clone());
            assert(strs(r@) =~= before.push(lines@[i as int]@));
        }
        i += 1;
    }
    assert(strs(lines@).take(lines.len() as int) =~= strs(lines@));
    r
}

/// The lines of clang-tidy's error stream that are shown, in order.
pub fn lint_shown_lines(stderr: &str) -> (r: Vec<String>)
    ensures
        strs(r@) == std_lines(stderr@).filter(|l: Seq<char>| !is_lint_noise(l)),
{
    let lines = lines_std(stderr);
    let mut r: Vec<String> = Vec::new();
    let mut i: usize = 0;
    while i < lines.len()
        invariant
            i <= lines.len(),
            strs(lines@) == std_lines(stderr@),
            strs(r@) == strs(lines@).take(i as int).filter(|l: Seq<char>| !is_lint_noise(l)),
        decreases lines.len() - i,
    {
        proof {
            let t0 = strs(lines@).take(i as int);
            assert(strs(lines@).take(i + 1) =~= t0.push(lines@[i as int]@));
            t0.lemma_filter_push(lines@[i as int]@, |l: Seq<char>| !is_lint_noise(l));
        }
        let l = lines[i].as_str();
        let t = str_trim(l);
        if !str_contains(l, "warnings generated") && !t.as_str().is_empty() {
            let ghost before = strs(r@);
            r.push(lines[i].clone());
            assert(strs(r@) =~= before.push(lines@[i as int]@));
        }
        i += 1;
    }
    assert(strs(lines@).take(lines.len() as int) =~= strs(lines@));
    r
}

} // verus!
