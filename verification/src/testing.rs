//! `ordo test`: which test sources there are and which framework they use,
//! the flags they are built with, how test binaries are run and how the
//! run is summed up.
use vstd::prelude::*;
use crate::arsenal::lowercase;
use crate::build_graph::{extension_of, file_stem_of, joined_path, path_extension, path_join, path_stem, TestBinarySpec};
use crate::compiler::{CompileFlags, FlagsView, LinkFlags};
use crate::features::{features_outcome, ResolvedFeatures};
use crate::manifest::{
    dev_profile, profile_outcome, release_profile, CppStandard, LinkerKind, Manifest, PackageType, Profile,
    ProfileOutcome, ProfileView, TestFramework,
};
use crate::providers::FetchedDep;
use crate::strmap::{sorted, StrSet};
use crate::text::{chars_of, concat, contains_sub, std_lines, starts_with, str_contains, str_eq, str_starts_with, str_trim, strs, trim};

verus! {

/// The options of `ordo test`.
#[derive(Debug, Clone)]
pub struct TestOptions {
    pub filter: Option<String>,
    pub jobs: Option<u32>,
    pub release: bool,
    pub profile: Option<String>,
    pub features: Vec<String>,
    pub no_default_features: bool,
    pub all_features: bool,
    pub package: Option<String>,
    pub verbose: u8,
}

/// A test source and its framework.
#[derive(Debug, Clone)]
pub struct TestTarget {
    pub name: String,
    pub source: String,
    pub framework: TestFramework,
}

/// The sources of an executable, but for its `main`, built into a library
/// the tests link.
#[derive(Debug, Clone)]
pub struct TestLibrary {
    pub sources: Vec<String>,
    pub lib_name: String,
}

/// The profile a test build uses: the named profile (`--profile`), else
/// `release` with `--release`, else `debug`.
pub fn resolve_profile_name(opts: &TestOptions) -> (r: String)
    ensures
        r@ == match opts.profile {
            Some(p) => p@,
            None => if opts.release {
                "release"@
            } else {
                "debug"@
            },
        },
{
    match &opts.profile {
        Some(p) => p.clone(),
        None => if opts.release {
            "release".to_string()
        } else {
            "debug".to_string()
        },
    }
}

/// What a test framework links: libraries, library directories, include
/// directories.
pub open spec fn framework_libs(f: TestFramework) -> Seq<Seq<char>> {
    match f {
        TestFramework::Gtest => seq!["gtest"@, "gtest_main"@, "pthread"@],
        TestFramework::Catch2 => seq!["Catch2Main"@, "Catch2"@],
        _ => Seq::empty(),
    }
}

pub fn framework_link_info(framework: TestFramework) -> (r: (Vec<String>, Vec<String>, Vec<String>))
    ensures
        strs(r.0@) == framework_libs(framework),
        r.1@.len() == 0,
        r.2@.len() == 0,
{
    let mut libs: Vec<String> = Vec::new();
    match framework {
        TestFramework::Gtest => {
            libs.push("gtest".to_string());
            libs.push("gtest_main".to_string());
            libs.push("pthread".to_string());
        },
        TestFramework::Catch2 => {
            libs.push("Catch2Main".to_string());
            libs.push("Catch2".to_string());
        },
        _ => {},
    }
    assert(strs(libs@) =~= framework_libs(framework));
    (libs, Vec::new(), Vec::new())
}

/// A C or C++ source a test can be: `cpp`, `cc`, `cxx` or `c`.
pub open spec fn is_test_path(p: Seq<char>) -> bool {
    extension_of(p) matches Some(e) && (e == "cpp"@ || e == "cc"@ || e == "cxx"@ || e == "c"@)
}

pub fn is_test_source(path: &str) -> (b: bool)
    ensures
        b == is_test_path(path@),
{
    match path_extension(path) {
        Some(e) => str_eq(e.as_str(), "cpp") || str_eq(e.as_str(), "cc") || str_eq(e.as_str(), "cxx")
            || str_eq(e.as_str(), "c"),
        None => false,
    }
}

/// A `main` source (by its stem, in any case).
pub fn is_main_file(path: &str) -> (b: bool)
    ensures
        b == (lowercase(file_stem_of(path@)) == "main"@),
{
    let stem = path_stem(path);
    let l = crate::arsenal::to_lowercase(stem.as_str());
    str_eq(l.as_str(), "main")
}

/// The framework a test source uses, by its first `#include` that names
/// one: gtest (or gmock), Catch2, doctest; plain when none does.
pub open spec fn framework_in(lines: Seq<Seq<char>>) -> TestFramework
    decreases lines.len(),
{
    if lines.len() == 0 {
        TestFramework::Plain
    } else {
        let t = trim(lines[0]);
        if !starts_with(t, "#include"@) {
            framework_in(lines.drop_first())
        } else if contains_sub(t, "gtest/gtest.h"@) || contains_sub(t, "gmock/gmock.h"@) {
            TestFramework::Gtest
        } else if contains_sub(t, "catch2/catch.hpp"@) || contains_sub(t, "catch2/catch_all.hpp"@)
            || contains_sub(t, "catch2/catch_test_macros.hpp"@) {
            TestFramework::Catch2
        } else if contains_sub(t, "doctest/doctest.h"@) || contains_sub(t, "doctest.h"@) {
            TestFramework::Doctest
        } else {
            framework_in(lines.drop_first())
        }
    }
}

pub fn detect_framework(content: &str) -> (r: TestFramework)
    ensures
        r == framework_in(std_lines(content@)),
{
    let lines = crate::text::lines_std(content);
    let ghost ls = strs(lines@);
    let mut i: usize = 0;
    assert(ls.skip(0) =~= ls);
    while i < lines.len()
        invariant
            i <= lines.len(),
            ls == strs(lines@),
            ls == std_lines(content@),
            framework_in(ls) == framework_in(ls.skip(i as int)),
        decreases lines.len() - i,
    {
        assert(ls.skip(i as int)[0] == lines@[i as int]@);
        assert(ls.skip(i as int).drop_first() =~= ls.skip(i + 1));
        let t = str_trim(lines[i].as_str());
        let s = t.as_str();
        if str_starts_with(s, "#include") {
            if str_contains(s, "gtest/gtest.h") || str_contains(s, "gmock/gmock.h") {
                return TestFramework::Gtest;
            }
            if str_contains(s, "catch2/catch.hpp") || str_contains(s, "catch2/catch_all.hpp") || str_contains(
                s,
                "catch2/catch_test_macros.hpp",
            ) {
                return TestFramework::Catch2;
            }
            if str_contains(s, "doctest/doctest.h") || str_contains(s, "doctest.h") {
                return TestFramework::Doctest;
            }
        }
        i += 1;
    }
    TestFramework::Plain
}

/// The library an executable's tests link: its non-`main` sources (in the
/// order given), named `<package>_testlib`; none for a library package or
/// when there are no such sources.
pub fn test_library(pkg_name: &str, package_type: PackageType, non_main_sources: Vec<String>) -> (r:
    Option<TestLibrary>)
    ensures
        match r {
            Some(l) => package_type == PackageType::Executable && non_main_sources@.len() > 0
                && l.sources == non_main_sources && l.lib_name@ == pkg_name@ + "_testlib"@,
            None => package_type != PackageType::Executable || non_main_sources@.len() == 0,
        },
{
    match package_type {
        PackageType::Executable => {
            if non_main_sources.len() == 0 {
                None
            } else {
                Some(TestLibrary { sources: non_main_sources, lib_name: concat(pkg_name, "_testlib") })
            }
        },
        _ => None,
    }
}

/// The targets whose name holds the filter (all of them without one).
pub fn filter_targets(targets: Vec<TestTarget>, filter: Option<&str>) -> (r: Vec<TestTarget>)
    ensures
        filter is None ==> r@ == targets@,
        filter matches Some(f) ==> target_views(r@) == target_views(targets@).filter(
            |t: TestTargetView| contains_sub(t.name, f@),
        ),
{
    match filter {
        None => targets,
        Some(f) => {
            let mut r: Vec<TestTarget> = Vec::new();
            let mut i: usize = 0;
            while i < targets.len()
                invariant
                    i <= targets.len(),
                    target_views(r@) == target_views(targets@.take(i as int)).filter(
                        |t: TestTargetView| contains_sub(t.name, f@),
                    ),
                decreases targets.len() - i,
            {
                let ghost before = r@;
                proof {
                    let t0 = target_views(targets@.take(i as int));
                    let t1 = target_views(targets@.take(i + 1));
                    assert(t1 =~= t0.push(targets@[i as int]@));
                    t0.lemma_filter_push(targets@[i as int]@, |t: TestTargetView| contains_sub(t.name, f@));
                }
                if str_contains(targets[i].name.as_str(), f) {
                    let c = targets[i].clone_target();
                    r.push(c);
                    assert(target_views(r@) =~= target_views(before).push(targets@[i as int]@));
                }
                i += 1;
            }
            assert(targets@.take(targets.len() as int) =~= targets@);
            r
        },
    }
}

/// The directory (under the project root) searched for tests: the one the
/// manifest names, else `tests`, else `test`; none when neither exists.
pub fn test_dir_choice(dir_override: Option<&str>, tests_exists: bool, test_exists: bool) -> (r: Option<String>)
    ensures
        match dir_override {
            Some(d) => r matches Some(x) && x@ == d@,
            None => if tests_exists {
                r matches Some(x) && x@ == "tests"@
            } else if test_exists {
                r matches Some(x) && x@ == "test"@
            } else {
                r is None
            },
        },
{
    match dir_override {
        Some(d) => Some(d.to_string()),
        None => if tests_exists {
            Some("tests".to_string())
        } else if test_exists {
            Some("test".to_string())
        } else {
            None
        },
    }
}

/// The target of a discovered test source: named by the file's stem, with
/// the framework the manifest names or else the one its includes show.
pub fn discovered_target(source: &str, content: &str, framework_override: Option<TestFramework>) -> (r: TestTarget)
    ensures
        r.name@ == file_stem_of(source@),
        r.source@ == source@,
        r.framework == (match framework_override {
            Some(f) => f,
            None => framework_in(std_lines(content@)),
        }),
{
    let framework = match framework_override {
        Some(f) => f,
        None => detect_framework(content),
    };
    TestTarget { name: path_stem(source), source: source.to_string(), framework }
}

impl TestTarget {
    /// A copy.
    pub fn clone_target(&self) -> (r: Self)
        ensures
            r@ == self@,
    {
        TestTarget { name: self.name.clone(), source: self.source.clone(), framework: self.framework }
    }
}

pub open spec fn target_views(ts: Seq<TestTarget>) -> Seq<TestTargetView> {
    ts.map_values(|t: TestTarget| t@)
}

/// A test target by the contents of its strings.
pub struct TestTargetView {
    pub name: Seq<char>,
    pub source: Seq<char>,
    pub framework: TestFramework,
}

impl View for TestTarget {
    type V = TestTargetView;

    open spec fn view(&self) -> TestTargetView {
        TestTargetView { name: self.name@, source: self.source@, framework: self.framework }
    }
}

/// The test binary to build for a target, with its framework's libraries.
pub fn test_spec_for(t: &TestTarget) -> (r: TestBinarySpec)
    ensures
        r.name@ == t.name@,
        r.test_source@ == t.source@,
        strs(r.framework_libs@) == framework_libs(t.framework),
        r.framework_lib_dirs@.len() == 0,
        r.framework_include_dirs@.len() == 0,
{
    let (libs, dirs, incs) = framework_link_info(t.framework);
    TestBinarySpec {
        name: t.name.clone(),
        test_source: t.source.clone(),
        framework_libs: libs,
        framework_lib_dirs: dirs,
        framework_include_dirs: incs,
    }
}

/// The directory a test build works in: `<target>/<profile>`, with the
/// package's name below it in a workspace.
pub fn test_profile_dir(target_dir: &str, profile: &str, in_workspace: bool, pkg_name: &str) -> (r: String)
    ensures
        r@ == (if in_workspace {
            joined_path(joined_path(target_dir@, profile@), pkg_name@)
        } else {
            joined_path(target_dir@, profile@)
        }),
{
    let d = path_join(target_dir, profile);
    if in_workspace {
        path_join(d.as_str(), pkg_name)
    } else {
        d
    }
}

/// Where a library package's own artifact would be for its tests to link
/// (`lib<name>.a` or `lib<name>.so` in the profile directory); none for
/// an executable.
pub fn project_lib_candidate(package_type: PackageType, profile_dir: &str, pkg_name: &str) -> (r: Option<
    String,
>)
    ensures
        match package_type {
            PackageType::StaticLibrary => r matches Some(p) && p@ == joined_path(
                profile_dir@,
                "lib"@ + pkg_name@ + ".a"@,
            ),
            PackageType::SharedLibrary => r matches Some(p) && p@ == joined_path(
                profile_dir@,
                "lib"@ + pkg_name@ + ".so"@,
            ),
            PackageType::Executable => r is None,
        },
{
    match package_type {
        PackageType::StaticLibrary => {
            let a = concat("lib", pkg_name);
            let f = concat(a.as_str(), ".a");
            Some(path_join(profile_dir, f.as_str()))
        },
        PackageType::SharedLibrary => {
            let a = concat("lib", pkg_name);
            let f = concat(a.as_str(), ".so");
            Some(path_join(profile_dir, f.as_str()))
        },
        PackageType::Executable => None,
    }
}

/// The arguments that pass a name filter to a test binary of a framework.
pub open spec fn filter_arguments(f: TestFramework, filter: Option<Seq<char>>) -> Seq<Seq<char>> {
    match filter {
        None => Seq::empty(),
        Some(x) => match f {
            TestFramework::Gtest => seq!["--gtest_filter=*"@ + x + "*"@],
            TestFramework::Catch2 => seq![x],
            TestFramework::Doctest => seq!["--test-case=*"@ + x + "*"@],
            TestFramework::Plain => Seq::empty(),
        },
    }
}

pub fn framework_filter_args(framework: TestFramework, filter: Option<&str>) -> (r: Vec<String>)
    ensures
        strs(r@) == filter_arguments(
            framework,
            match filter {
                Some(x) => Some(x@),
                None => None,
            },
        ),
{
    let mut r: Vec<String> = Vec::new();
    if let Some(x) = filter {
        match framework {
            TestFramework::Gtest => {
                let a = concat("--gtest_filter=*", x);
                r.push(concat(a.as_str(), "*"));
            },
            TestFramework::Catch2 => {
                r.push(x.to_string());
            },
            TestFramework::Doctest => {
                let a = concat("--test-case=*", x);
                r.push(concat(a.as_str(), "*"));
            },
            TestFramework::Plain => {},
        }
    }
    assert(strs(r@) =~= filter_arguments(
        framework,
        match filter {
            Some(x) => Some(x@),
            None => None,
        },
    ));
    r
}

/// What a test printed: its output, then its error output after a
/// newline when there was output before.
pub open spec fn combined_output(stdout: Seq<char>, stderr: Seq<char>) -> Seq<char> {
    if stderr.len() == 0 {
        stdout
    } else if stdout.len() == 0 {
        stderr
    } else {
        stdout + "\n"@ + stderr
    }
}

pub fn combine_output(stdout: &str, stderr: &str) -> (r: String)
    ensures
        r@ == combined_output(stdout@, stderr@),
{
    let mut combined = String::new();
    if !stdout.is_empty() {
        combined.append(stdout);
    }
    if !stderr.is_empty() {
        if !combined.as_str().is_empty() {
            crate::text::push_char(&mut combined, '\n');
        }
        combined.append(stderr);
    }
    proof {
        reveal_strlit("\n");
    }
    assert(combined@ =~= combined_output(stdout@, stderr@));
    combined
}

/// The number of passed and of failed tests.
pub open spec fn count_passed(results: Seq<bool>) -> nat
    decreases results.len(),
{
    if results.len() == 0 {
        0
    } else {
        count_passed(results.drop_last()) + if results.last() {
            1nat
        } else {
            0nat
        }
    }
}

pub fn tally(results: &Vec<bool>) -> (r: (usize, usize))
    ensures
        r.0 == count_passed(results@),
        r.0 + r.1 == results@.len(),
{
    let mut passed: usize = 0;
    let mut failed: usize = 0;
    let mut i: usize = 0;
    while i < results.len()
        invariant
            i <= results.len(),
            passed == count_passed(results@.take(i as int)),
            passed + failed == i,
        decreases results.len() - i,
    {
        assert(results@.take(i + 1).drop_last() =~= results@.take(i as int));
        if results[i] {
            passed += 1;
        } else {
            failed += 1;
        }
        i += 1;
    }
    assert(results@.take(results.len() as int) =~= results@);
    (passed, failed)
}

/// The profile a test build uses: the one the manifest resolves, or when
/// that fails the built-in `release` (with `--release`) or `dev`.
pub open spec fn used_profile(o: ProfileOutcome, release: bool) -> ProfileView {
    match o {
        ProfileOutcome::Resolved(v) => v,
        _ => if release {
            release_profile()
        } else {
            dev_profile()
        },
    }
}

/// The defines that resolving the features gives (none when it fails).
pub open spec fn defines_of(r: Result<ResolvedFeatures, crate::manifest::ManifestError>) -> Seq<Seq<char>> {
    match r {
        Ok(f) => strs(f.defines@),
        Err(_) => Seq::empty(),
    }
}

/// Every list `pick` gives of the dependencies, one after the other.
pub open spec fn dep_lists(deps: Seq<FetchedDep>, pick: spec_fn(FetchedDep) -> Seq<Seq<char>>) -> Seq<
    Seq<char>,
>
    decreases deps.len(),
{
    if deps.len() == 0 {
        Seq::empty()
    } else {
        dep_lists(deps.drop_last(), pick) + pick(deps.last())
    }
}

/// Appends copies of `xs` to `v`.
fn append_copies(v: &mut Vec<String>, xs: &Vec<String>)
    ensures
        strs(final(v)@) == strs(old(v)@) + strs(xs@),
{
    let ghost start = strs(v@);
    let mut i: usize = 0;
    while i < xs.len()
        invariant
            i <= xs.len(),
            strs(v@) == start + strs(xs@).take(i as int),
        decreases xs.len() - i,
    {
        let ghost before = strs(v@);
        v.push(xs[i].clone());
        assert(strs(v@) =~= before.push(xs@[i as int]@));
        assert(strs(xs@).take(i + 1) =~= strs(xs@).take(i as int).push(xs@[i as int]@));
        i += 1;
    }
    assert(strs(xs@).take(xs.len() as int) =~= strs(xs@));
}

/// The compile flags of a test build: the profile's settings (see
/// `used_profile`), the project's `include` directory (when it exists,
/// `include_dir`) and the dependencies' include directories, the features'
/// defines and the dependencies' defines, and the language standards (C++20
/// unless the manifest says otherwise; no C++ for a C-only project).
pub fn build_test_compile_flags(
    manifest: &Manifest,
    include_dir: Option<String>,
    profile_name: &str,
    opts: &TestOptions,
    deps: &Vec<FetchedDep>,
) -> (f: CompileFlags)
    requires
        manifest.wf(),
    ensures
        ({
            let p = used_profile(profile_outcome(*manifest, profile_name@), opts.release);
            let has_cpp = manifest.language.cpp is Some || manifest.language.c is None;
            &&& f.opt_level == p.opt_level && f.debug == p.debug && f.assertions == p.assertions
            &&& f.sanitize@ == p.sanitize && f.pic == p.pic && f.rtti == p.rtti
            &&& f.exceptions == p.exceptions && f.warnings == p.warnings
            &&& f.coverage == p.coverage && f.split_debug == p.split_debug
            &&& f.c_standard == manifest.language.c
            &&& f.cpp_standard == (if has_cpp {
                match manifest.language.cpp {
                    Some(s) => Some(s),
                    None => Some(CppStandard::Cpp20),
                }
            } else {
                None
            })
            &&& strs(f.include_dirs@) == (match include_dir {
                Some(d) => seq![d@],
                None => Seq::empty(),
            }) + dep_lists(deps@, |d: FetchedDep| strs(d.include_dirs@))
            &&& exists|fr: Result<ResolvedFeatures, crate::manifest::ManifestError>|
                features_outcome(
                    *manifest,
                    strs(opts.features@),
                    opts.no_default_features,
                    opts.all_features,
                    fr,
                ) && strs(f.defines@) == defines_of(fr) + dep_lists(deps@, |d: FetchedDep| strs(d.defines@))
        }),
{
    let profile = match manifest.resolve_profile(profile_name) {
        Ok(p) => p,
        Err(_) => if opts.release {
            Profile::release_defaults()
        } else {
            Profile::dev_defaults()
        },
    };
    let mut include_dirs: Vec<String> = Vec::new();
    match include_dir {
        Some(d) => {
            include_dirs.push(d);
        },
        None => {},
    }
    let ghost inc0 = strs(include_dirs@);
    let mut k: usize = 0;
    while k < deps.len()
        invariant
            k <= deps.len(),
            strs(include_dirs@) == inc0 + dep_lists(deps@.take(k as int), |d: FetchedDep| strs(d.include_dirs@)),
        decreases deps.len() - k,
    {
        append_copies(&mut include_dirs, &deps[k].include_dirs);
        assert(deps@.take(k + 1).drop_last() =~= deps@.take(k as int));
        proof {
            i_assoc(inc0, dep_lists(deps@.take(k as int), |d: FetchedDep| strs(d.include_dirs@)), strs(deps@[k as int].include_dirs@));
        }
        k += 1;
    }
    assert(deps@.take(deps.len() as int) =~= deps@);
    let has_cpp = manifest.language.cpp.is_some() || manifest.language.c.is_none();
    let fr = ResolvedFeatures::resolve(manifest, &opts.features, opts.no_default_features, opts.all_features);
    let mut defines: Vec<String> = match fr {
        Ok(r) => r.defines,
        Err(_) => Vec::new(),
    };
    let ghost d0 = strs(defines@);
    let mut k: usize = 0;
    while k < deps.len()
        invariant
            k <= deps.len(),
            strs(defines@) == d0 + dep_lists(deps@.take(k as int), |d: FetchedDep| strs(d.defines@)),
        decreases deps.len() - k,
    {
        append_copies(&mut defines, &deps[k].defines);
        assert(deps@.take(k + 1).drop_last() =~= deps@.take(k as int));
        proof {
            i_assoc(d0, dep_lists(deps@.take(k as int), |d: FetchedDep| strs(d.defines@)), strs(deps@[k as int].defines@));
        }
        k += 1;
    }
    CompileFlags {
        cpp_standard: if has_cpp {
            match manifest.language.cpp {
                Some(s) => Some(s),
                None => Some(CppStandard::Cpp20),
            }
        } else {
            None
        },
        c_standard: manifest.language.c,
        opt_level: profile.opt_level,
        debug: profile.debug,
        assertions: profile.assertions,
        sanitize: profile.sanitize,
        pic: profile.pic,
        rtti: profile.rtti,
        exceptions: profile.exceptions,
        warnings: profile.warnings,
        coverage: profile.coverage,
        split_debug: profile.split_debug,
        defines,
        include_dirs,
    }
}

proof fn i_assoc(a: Seq<Seq<char>>, b: Seq<Seq<char>>, c: Seq<Seq<char>>)
    ensures
        a + b + c == a + (b + c),
{
    assert(a + b + c =~= a + (b + c));
}

/// A linker named in a profile: `lld`, `mold`, `gold`; anything else
/// leaves the choice to the compiler.
pub open spec fn profile_linker(name: Option<Seq<char>>) -> Option<LinkerKind> {
    match name {
        Some(l) => if l == "lld"@ {
            Some(LinkerKind::Lld)
        } else if l == "mold"@ {
            Some(LinkerKind::Mold)
        } else if l == "gold"@ {
            Some(LinkerKind::Gold)
        } else {
            None
        },
        None => None,
    }
}

/// The link flags of a test build: the profile's settings (the resolved
/// profile, or `dev` when it does not resolve) and the dependencies'
/// directories and libraries, with their frameworks sorted and without
/// repetition.
pub fn build_test_link_flags(manifest: &Manifest, profile_name: &str, deps: &Vec<FetchedDep>) -> (f: LinkFlags)
    requires
        manifest.wf(),
    ensures
        ({
            let p = used_profile(profile_outcome(*manifest, profile_name@), false);
            &&& f.linker == profile_linker(p.linker)
            &&& f.lto == p.lto && f.strip == p.strip && f.static_runtime == p.static_runtime
            &&& f.sanitize@ == p.sanitize && f.coverage == p.coverage
            &&& strs(f.lib_dirs@) == dep_lists(deps@, |d: FetchedDep| strs(d.lib_dirs@))
            &&& strs(f.libs@) == dep_lists(deps@, |d: FetchedDep| strs(d.libs@))
            &&& sorted(strs(f.frameworks@))
            &&& strs(f.frameworks@).to_set() == dep_lists(deps@, |d: FetchedDep| strs(d.frameworks@)).to_set()
        }),
{
    let profile = match manifest.resolve_profile(profile_name) {
        Ok(p) => p,
        Err(_) => Profile::dev_defaults(),
    };
    let linker = match &profile.linker {
        Some(l) => if str_eq(l.as_str(), "lld") {
            Some(LinkerKind::Lld)
        } else if str_eq(l.as_str(), "mold") {
            Some(LinkerKind::Mold)
        } else if str_eq(l.as_str(), "gold") {
            Some(LinkerKind::Gold)
        } else {
            None
        },
        None => None,
    };
    let mut lib_dirs: Vec<String> = Vec::new();
    let mut libs: Vec<String> = Vec::new();
    let mut frameworks = StrSet::new();
    assert(strs(lib_dirs@) =~= Seq::<Seq<char>>::empty());
    assert(strs(libs@) =~= Seq::<Seq<char>>::empty());
    let mut k: usize = 0;
    while k < deps.len()
        invariant
            k <= deps.len(),
            frameworks.wf(),
            strs(lib_dirs@) == dep_lists(deps@.take(k as int), |d: FetchedDep| strs(d.lib_dirs@)),
            strs(libs@) == dep_lists(deps@.take(k as int), |d: FetchedDep| strs(d.libs@)),
            frameworks.to_set() == dep_lists(deps@.take(k as int), |d: FetchedDep| strs(d.frameworks@)).to_set(),
        decreases deps.len() - k,
    {
        let d = &deps[k];
        append_copies(&mut lib_dirs, &d.lib_dirs);
        append_copies(&mut libs, &d.libs);
        let ghost f0 = frameworks.to_set();
        let mut j: usize = 0;
        while j < d.frameworks.len()
            invariant
                j <= d.frameworks.len(),
                frameworks.wf(),
                frameworks.to_set() == f0.union(strs(d.frameworks@).take(j as int).to_set()),
            decreases d.frameworks.len() - j,
        {
            frameworks.insert(d.frameworks[j].clone());
            proof {
                strs(d.frameworks@).take(j as int).lemma_push_to_set_commute(d.frameworks@[j as int]@);
                assert(strs(d.frameworks@).take(j + 1) =~= strs(d.frameworks@).take(j as int).push(
                    d.frameworks@[j as int]@,
                ));
            }
            j += 1;
        }
        proof {
            assert(strs(d.frameworks@).take(d.frameworks@.len() as int) =~= strs(d.frameworks@));
            assert(deps@.take(k + 1).drop_last() =~= deps@.take(k as int));
            let prev = dep_lists(deps@.take(k as int), |d: FetchedDep| strs(d.frameworks@));
            vstd::seq_lib::seq_to_set_distributes_over_add(prev, strs(d.frameworks@));
        }
        k += 1;
    }
    assert(deps@.take(deps.len() as int) =~= deps@);
    let fws = frameworks.items().clone();
    proof {
        frameworks.lemma_wf();
        assert(strs(fws@) =~= frameworks.elems());
    }
    LinkFlags {
        lib_dirs,
        libs,
        frameworks: fws,
        linker,
        lto: profile.lto,
        strip: profile.strip,
        static_runtime: profile.static_runtime,
        sanitize: profile.sanitize,
        coverage: profile.coverage,
    }
}

} // verus!
