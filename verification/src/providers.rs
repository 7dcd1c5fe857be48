//! Where dependencies come from: what each provider reports of a package,
//! and the text formats they read and write (pkg-config flags and `.pc`
//! files, conanfiles, vcpkg manifests, git URLs, package-manager output).
use vstd::prelude::*;
use crate::build_graph::{extension_of, file_stem_of, joined_path, path_extension, path_join, path_stem};
use crate::text::{
    chars_of, concat, contains_sub, ends_with, lines_std, split_whitespace, starts_with, std_lines,
    str_contains, str_ends_with, str_eq, str_starts_with, str_strip_prefix, str_trim, str_trim_char, string_of,
    strip_prefix, strs, tokens, trim, trim_char, join, join_strings,
};

verus! {

/// A dependency once a provider has found it.
#[derive(Debug, Clone)]
pub struct ResolvedDep {
    pub name: String,
    pub version: String,
    pub source: String,
    pub checksum: Option<String>,
}

/// What a build needs of a dependency.
#[derive(Debug, Clone)]
pub struct FetchedDep {
    pub name: String,
    pub include_dirs: Vec<String>,
    pub lib_dirs: Vec<String>,
    pub libs: Vec<String>,
    pub frameworks: Vec<String>,
    pub defines: Vec<String>,
}

/// A source of dependencies.
pub trait Provider {
    fn name(&self) -> &str;
}

/// Libraries the system provides in its default search paths.
#[derive(Debug, Clone, Copy)]
pub struct SystemProvider;

/// Packages installed with pacman.
#[derive(Debug, Clone, Copy)]
pub struct PacmanProvider;

/// Packages pkg-config knows.
#[derive(Debug, Clone, Copy)]
pub struct PkgConfigProvider;

/// Packages installed with nix.
#[derive(Debug, Clone, Copy)]
pub struct NixProvider;

/// Packages installed with Homebrew.
#[derive(Debug, Clone, Copy)]
pub struct BrewProvider;

/// Packages installed with clib.
#[derive(Debug, Clone, Copy)]
pub struct ClibProvider;

/// Packages from NuGet.
#[derive(Debug, Clone, Copy)]
pub struct NugetProvider;

impl Provider for SystemProvider {
    fn name(&self) -> (r: &str)
        ensures
            r@ == "system"@,
    {
        "system"
    }
}

impl Provider for PacmanProvider {
    fn name(&self) -> (r: &str)
        ensures
            r@ == "pacman"@,
    {
        "pacman"
    }
}

impl Provider for PkgConfigProvider {
    fn name(&self) -> (r: &str)
        ensures
            r@ == "pkg-config"@,
    {
        "pkg-config"
    }
}

impl Provider for NixProvider {
    fn name(&self) -> (r: &str)
        ensures
            r@ == "nix"@,
    {
        "nix"
    }
}

impl Provider for BrewProvider {
    fn name(&self) -> (r: &str)
        ensures
            r@ == "brew"@,
    {
        "brew"
    }
}

impl Provider for ClibProvider {
    fn name(&self) -> (r: &str)
        ensures
            r@ == "clib"@,
    {
        "clib"
    }
}

impl Provider for NugetProvider {
    fn name(&self) -> (r: &str)
        ensures
            r@ == "nuget"@,
    {
        "nuget"
    }
}

/// A dependency that only links `-l<name>`, from the default paths.
pub open spec fn link_only(d: FetchedDep, name: Seq<char>) -> bool {
    &&& d.name@ == name
    &&& d.include_dirs@.len() == 0
    &&& d.lib_dirs@.len() == 0
    &&& strs(d.libs@) == seq![name]
    &&& d.frameworks@.len() == 0
    &&& d.defines@.len() == 0
}

fn link_only_dep(name: &String) -> (d: FetchedDep)
    ensures
        link_only(d, name@),
{
    let mut libs: Vec<String> = Vec::new();
    libs.push(name.clone());
    assert(strs(libs@) =~= seq![name@]);
    FetchedDep {
        name: name.clone(),
        include_dirs: Vec::new(),
        lib_dirs: Vec::new(),
        libs,
        frameworks: Vec::new(),
        defines: Vec::new(),
    }
}

impl SystemProvider {
    /// The system has every library: found as version `system`, from `system`.
    pub fn resolve(&self, name: &str, version: Option<&str>) -> (r: Result<ResolvedDep, String>)
        ensures
            r matches Ok(d) && d.name@ == name@ && d.version@ == "system"@ && d.source@ == "system"@
                && d.checksum is None,
    {
        Ok(
            ResolvedDep {
                name: name.to_string(),
                version: "system".to_string(),
                source: "system".to_string(),
                checksum: None,
            },
        )
    }

    /// Only `-l<name>`; the compiler's default paths do the rest.
    pub fn fetch(&self, dep: &ResolvedDep) -> (r: Result<FetchedDep, String>)
        ensures
            r matches Ok(d) && link_only(d, dep.name@),
    {
        Ok(link_only_dep(&dep.name))
    }
}

impl PacmanProvider {
    /// Installed packages use the standard paths: only `-l<name>`.
    pub fn fetch(&self, dep: &ResolvedDep) -> (r: Result<FetchedDep, String>)
        ensures
            r matches Ok(d) && link_only(d, dep.name@),
    {
        Ok(link_only_dep(&dep.name))
    }
}

/// `s` up to its first `c` (all of it without one), and what follows.
pub open spec fn split_once(s: Seq<char>, c: char) -> Option<(Seq<char>, Seq<char>)> {
    match crate::text::first_index(s, c) {
        Some(k) => Some((s.subrange(0, k), s.subrange(k + 1, s.len() as int))),
        None => None,
    }
}

/// The version `pacman -Qi` reports: the value of the first line that
/// starts with `Version` and has a colon, trimmed; `unknown` when there is
/// no such line.
pub open spec fn pacman_version_in(lines: Seq<Seq<char>>) -> Seq<char>
    decreases lines.len(),
{
    if lines.len() == 0 {
        "unknown"@
    } else if starts_with(lines[0], "Version"@) {
        match split_once(lines[0], ':') {
            Some(p) => trim(p.1),
            None => "unknown"@,
        }
    } else {
        pacman_version_in(lines.drop_first())
    }
}

/// The version in what `pacman -Qi` printed.
pub fn pacman_version(stdout: &str) -> (r: String)
    ensures
        r@ == pacman_version_in(std_lines(stdout@)),
{
    let lines = lines_std(stdout);
    let ghost ls = strs(lines@);
    let mut i: usize = 0;
    assert(ls.skip(0) =~= ls);
    while i < lines.len()
        invariant
            i <= lines.len(),
            ls == strs(lines@),
            ls == std_lines(stdout@),
            pacman_version_in(ls) == pacman_version_in(ls.skip(i as int)),
        decreases lines.len() - i,
    {
        let line = lines[i].as_str();
        assert(ls.skip(i as int)[0] == line@);
        assert(ls.skip(i as int).drop_first() =~= ls.skip(i + 1));
        if str_starts_with(line, "Version") {
            let v = chars_of(line);
            return match crate::text::find_char(&v, ':') {
                Some(k) => {
                    let rest = string_of(&v, k + 1, v.len());
                    str_trim(rest.as_str())
                },
                None => "unknown".to_string(),
            };
        }
        i += 1;
    }
    "unknown".to_string()
}

/// Whether an installed version satisfies a requested one: the version
/// without its package release (what follows the first `-`) starts with
/// the request.
pub open spec fn pacman_satisfies(installed: Seq<char>, req: Seq<char>) -> bool {
    let base = match crate::text::first_index(installed, '-') {
        Some(k) => installed.subrange(0, k),
        None => installed,
    };
    starts_with(base, req) || base == req
}

pub fn pacman_version_satisfies(installed: &str, req: &str) -> (b: bool)
    ensures
        b == pacman_satisfies(installed@, req@),
{
    let v = chars_of(installed);
    let base = match crate::text::find_char(&v, '-') {
        Some(k) => string_of(&v, 0, k),
        None => installed.to_string(),
    };
    str_starts_with(base.as_str(), req) || str_eq(base.as_str(), req)
}

/// What follows `p` in each item of `ts` that starts with it.
pub open spec fn stripped_all(ts: Seq<Seq<char>>, p: Seq<char>) -> Seq<Seq<char>>
    decreases ts.len(),
{
    if ts.len() == 0 {
        Seq::empty()
    } else {
        let r = stripped_all(ts.drop_last(), p);
        match strip_prefix(ts.last(), p) {
            Some(rest) => r.push(rest),
            None => r,
        }
    }
}

/// The `-I` directories of a pkg-config `--cflags` line.
pub fn parse_include_dirs(cflags: &str) -> (r: Vec<String>)
    ensures
        strs(r@) == stripped_all(tokens(cflags@), "-I"@),
{
    let ts = split_whitespace(cflags);
    let mut r: Vec<String> = Vec::new();
    let mut i: usize = 0;
    while i < ts.len()
        invariant
            i <= ts.len(),
            strs(r@) == stripped_all(strs(ts@).take(i as int), "-I"@),
        decreases ts.len() - i,
    {
        assert(strs(ts@).take(i + 1).drop_last() =~= strs(ts@).take(i as int));
        assert(strs(ts@)[i as int] == ts@[i as int]@);
        match str_strip_prefix(ts[i].as_str(), "-I") {
            Some(rest) => {
                let ghost before = strs(r@);
                r.push(rest);
                assert(strs(r@) =~= before.push(strip_prefix(ts@[i as int]@, "-I"@)->0));
            },
            None => {},
        }
        i += 1;
    }
    assert(strs(ts@).take(ts.len() as int) =~= strs(ts@));
    r
}

/// The `-L` directories and `-l` libraries of a pkg-config `--libs` line
/// (a token is read as `-L` before `-l`).
pub open spec fn libs_split(ts: Seq<Seq<char>>) -> (Seq<Seq<char>>, Seq<Seq<char>>)
    decreases ts.len(),
{
    if ts.len() == 0 {
        (Seq::empty(), Seq::empty())
    } else {
        let r = libs_split(ts.drop_last());
        match strip_prefix(ts.last(), "-L"@) {
            Some(d) => (r.0.push(d), r.1),
            None => match strip_prefix(ts.last(), "-l"@) {
                Some(l) => (r.0, r.1.push(l)),
                None => r,
            },
        }
    }
}

pub fn parse_libs(libs: &str) -> (r: (Vec<String>, Vec<String>))
    ensures
        strs(r.0@) == libs_split(tokens(libs@)).0,
        strs(r.1@) == libs_split(tokens(libs@)).1,
{
    let ts = split_whitespace(libs);
    let mut dirs: Vec<String> = Vec::new();
    let mut names: Vec<String> = Vec::new();
    let mut i: usize = 0;
    while i < ts.len()
        invariant
            i <= ts.len(),
            strs(dirs@) == libs_split(strs(ts@).take(i as int)).0,
            strs(names@) == libs_split(strs(ts@).take(i as int)).1,
        decreases ts.len() - i,
    {
        assert(strs(ts@).take(i + 1).drop_last() =~= strs(ts@).take(i as int));
        assert(strs(ts@)[i as int] == ts@[i as int]@);
        let ghost t = ts@[i as int]@;
        match str_strip_prefix(ts[i].as_str(), "-L") {
            Some(d) => {
                let ghost before = strs(dirs@);
                dirs.push(d);
                assert(strs(dirs@) =~= before.push(strip_prefix(t, "-L"@)->0));
            },
            None => match str_strip_prefix(ts[i].as_str(), "-l") {
                Some(l) => {
                    let ghost before = strs(names@);
                    names.push(l);
                    assert(strs(names@) =~= before.push(strip_prefix(t, "-l"@)->0));
                },
                None => {},
            },
        }
        i += 1;
    }
    assert(strs(ts@).take(ts.len() as int) =~= strs(ts@));
    (dirs, names)
}

/// The frameworks named by `-framework <name>` pairs, read left to right
/// (a `-framework` takes the next token, whatever it is).
pub open spec fn frameworks_in(ts: Seq<Seq<char>>) -> Seq<Seq<char>>
    decreases ts.len(),
{
    if ts.len() == 0 {
        Seq::empty()
    } else if ts[0] == "-framework"@ && ts.len() >= 2 {
        seq![ts[1]] + frameworks_in(ts.skip(2))
    } else {
        frameworks_in(ts.skip(1))
    }
}

pub fn parse_frameworks(libs: &str) -> (r: Vec<String>)
    ensures
        strs(r@) == frameworks_in(tokens(libs@)),
{
    let ts = split_whitespace(libs);
    let ghost all = strs(ts@);
    let mut r: Vec<String> = Vec::new();
    let mut i: usize = 0;
    assert(all.skip(0) =~= all);
    assert(strs(r@) =~= Seq::<Seq<char>>::empty());
    while i < ts.len()
        invariant
            i <= ts.len(),
            all == strs(ts@),
            frameworks_in(all) == strs(r@) + frameworks_in(all.skip(i as int)),
        decreases ts.len() - i,
    {
        let ghost rest = all.skip(i as int);
        assert(rest[0] == ts@[i as int]@);
        if str_eq(ts[i].as_str(), "-framework") && i + 1 < ts.len() {
            assert(rest[1] == ts@[i + 1]@);
            assert(rest.skip(2) =~= all.skip(i + 2));
            let ghost before = strs(r@);
            r.push(ts[i + 1].clone());
            assert(strs(r@) =~= before + seq![rest[1]]);
            assert(before + (seq![rest[1]] + frameworks_in(rest.skip(2))) =~= strs(r@) + frameworks_in(all.skip(i + 2)));
            i += 2;
        } else {
            assert(rest.skip(1) =~= all.skip(i + 1));
            i += 1;
        }
    }
    assert(all.skip(i as int) =~= Seq::<Seq<char>>::empty());
    assert(strs(r@) + Seq::<Seq<char>>::empty() =~= strs(r@));
    r
}

/// The conanfile that asks for one package (any version without one).
pub open spec fn conanfile_text(name: Seq<char>, version: Option<Seq<char>>) -> Seq<char> {
    let reference = match version {
        Some(v) => name + "/"@ + v,
        None => name + "/[*]"@,
    };
    "[requires]\n"@ + reference + "\n\n[generators]\nPkgConfigDeps\n"@
}

pub fn build_conanfile(name: &str, version: Option<&str>) -> (r: String)
    ensures
        r@ == conanfile_text(
            name@,
            match version {
                Some(v) => Some(v@),
                None => None,
            },
        ),
{
    let reference = match version {
        Some(v) => {
            let a = concat(name, "/");
            concat(a.as_str(), v)
        },
        None => concat(name, "/[*]"),
    };
    let head = concat("[requires]\n", reference.as_str());
    concat(head.as_str(), "\n\n[generators]\nPkgConfigDeps\n")
}

/// A `-I`/`-L` directory of a `.pc` file, quotes removed; `None` when it
/// refers to a variable (`${...}`).
pub open spec fn pc_dir(rest: Seq<char>) -> Option<Seq<char>> {
    let d = trim_char(rest, '"');
    if contains_sub(d, "${"@) {
        None
    } else {
        Some(d)
    }
}

/// The include directories of a `Cflags:` line's tokens.
pub open spec fn pc_cflags_dirs(ts: Seq<Seq<char>>) -> Seq<Seq<char>>
    decreases ts.len(),
{
    if ts.len() == 0 {
        Seq::empty()
    } else {
        let r = pc_cflags_dirs(ts.drop_last());
        match strip_prefix(ts.last(), "-I"@) {
            Some(rest) => match pc_dir(rest) {
                Some(d) => r.push(d),
                None => r,
            },
            None => r,
        }
    }
}

/// What a `Libs:` line's tokens give: library directories, libraries and
/// frameworks, read left to right.
pub struct PcLibs {
    pub lib_dirs: Seq<Seq<char>>,
    pub libs: Seq<Seq<char>>,
    pub frameworks: Seq<Seq<char>>,
}

pub open spec fn pc_libs_scan(ts: Seq<Seq<char>>) -> PcLibs
    decreases ts.len(),
{
    if ts.len() == 0 {
        PcLibs { lib_dirs: Seq::empty(), libs: Seq::empty(), frameworks: Seq::empty() }
    } else {
        match strip_prefix(ts[0], "-L"@) {
            Some(rest) => {
                let r = pc_libs_scan(ts.skip(1));
                match pc_dir(rest) {
                    Some(d) => PcLibs { lib_dirs: seq![d] + r.lib_dirs, ..r },
                    None => r,
                }
            },
            None => match strip_prefix(ts[0], "-l"@) {
                Some(l) => {
                    let r = pc_libs_scan(ts.skip(1));
                    PcLibs { libs: seq![l] + r.libs, ..r }
                },
                None => if ts[0] == "-framework"@ && ts.len() >= 2 {
                    let r = pc_libs_scan(ts.skip(2));
                    PcLibs { frameworks: seq![ts[1]] + r.frameworks, ..r }
                } else {
                    pc_libs_scan(ts.skip(1))
                },
            },
        }
    }
}

/// What one line of a `.pc` file adds, once trimmed.
pub open spec fn pc_line(line: Seq<char>) -> (Seq<Seq<char>>, PcLibs) {
    let t = trim(line);
    match strip_prefix(t, "Cflags:"@) {
        Some(c) => (
            pc_cflags_dirs(tokens(c)),
            PcLibs { lib_dirs: Seq::empty(), libs: Seq::empty(), frameworks: Seq::empty() },
        ),
        None => match strip_prefix(t, "Libs:"@) {
            Some(l) => (Seq::empty(), pc_libs_scan(tokens(l))),
            None => (
                Seq::empty(),
                PcLibs { lib_dirs: Seq::empty(), libs: Seq::empty(), frameworks: Seq::empty() },
            ),
        },
    }
}

/// What the lines of a `.pc` file give, in order.
pub open spec fn pc_lines(lines: Seq<Seq<char>>) -> (Seq<Seq<char>>, PcLibs)
    decreases lines.len(),
{
    if lines.len() == 0 {
        (Seq::empty(), PcLibs { lib_dirs: Seq::empty(), libs: Seq::empty(), frameworks: Seq::empty() })
    } else {
        let r = pc_lines(lines.drop_last());
        let l = pc_line(lines.last());
        (
            r.0 + l.0,
            PcLibs {
                lib_dirs: r.1.lib_dirs + l.1.lib_dirs,
                libs: r.1.libs + l.1.libs,
                frameworks: r.1.frameworks + l.1.frameworks,
            },
        )
    }
}

fn push_pc_dir(v: &mut Vec<String>, rest: &str)
    ensures
        strs(final(v)@) == strs(old(v)@) + match pc_dir(rest@) {
            Some(d) => seq![d],
            None => Seq::empty(),
        },
{
    let d = str_trim_char(rest, '"');
    if !str_contains(d.as_str(), "${") {
        let ghost before = strs(v@);
        v.push(d);
        assert(strs(v@) =~= before + seq![trim_char(rest@, '"')]);
    } else {
        assert(strs(v@) =~= strs(v@) + Seq::<Seq<char>>::empty());
    }
}

fn scan_cflags(v: &mut Vec<String>, cflags: &str)
    ensures
        strs(final(v)@) == strs(old(v)@) + pc_cflags_dirs(tokens(cflags@)),
{
    let ts = split_whitespace(cflags);
    let ghost start = strs(v@);
    let mut i: usize = 0;
    while i < ts.len()
        invariant
            i <= ts.len(),
            strs(v@) == start + pc_cflags_dirs(strs(ts@).take(i as int)),
        decreases ts.len() - i,
    {
        assert(strs(ts@).take(i + 1).drop_last() =~= strs(ts@).take(i as int));
        assert(strs(ts@)[i as int] == ts@[i as int]@);
        let ghost mid = strs(v@);
        match str_strip_prefix(ts[i].as_str(), "-I") {
            Some(rest) => {
                push_pc_dir(v, rest.as_str());
                proof {
                    match pc_dir(rest@) {
                        Some(d) => {
                            assert(strs(v@) =~= start + pc_cflags_dirs(strs(ts@).take(i as int)).push(d));
                        },
                        None => {
                            assert(strs(v@) =~= mid);
                        },
                    }
                }
            },
            None => {},
        }
        i += 1;
    }
    assert(strs(ts@).take(ts.len() as int) =~= strs(ts@));
}

fn scan_libs(
    lib_dirs: &mut Vec<String>,
    libs: &mut Vec<String>,
    frameworks: &mut Vec<String>,
    line: &str,
)
    ensures
        strs(final(lib_dirs)@) == strs(old(lib_dirs)@) + pc_libs_scan(tokens(line@)).lib_dirs,
        strs(final(libs)@) == strs(old(libs)@) + pc_libs_scan(tokens(line@)).libs,
        strs(final(frameworks)@) == strs(old(frameworks)@) + pc_libs_scan(tokens(line@)).frameworks,
{
    let ts = split_whitespace(line);
    let ghost all = strs(ts@);
    let ghost d0 = strs(lib_dirs@);
    let ghost l0 = strs(libs@);
    let ghost f0 = strs(frameworks@);
    let mut i: usize = 0;
    assert(all.skip(0) =~= all);
    assert(d0 + Seq::<Seq<char>>::empty() =~= d0);
    assert(l0 + Seq::<Seq<char>>::empty() =~= l0);
    assert(f0 + Seq::<Seq<char>>::empty() =~= f0);
    while i < ts.len()
        invariant
            i <= ts.len(),
            all == strs(ts@),
            d0 + pc_libs_scan(all).lib_dirs == strs(lib_dirs@) + pc_libs_scan(all.skip(i as int)).lib_dirs,
            l0 + pc_libs_scan(all).libs == strs(libs@) + pc_libs_scan(all.skip(i as int)).libs,
            f0 + pc_libs_scan(all).frameworks == strs(frameworks@) + pc_libs_scan(
                all.skip(i as int),
            ).frameworks,
        decreases ts.len() - i,
    {
        let ghost rest = all.skip(i as int);
        let ghost dv = strs(lib_dirs@);
        let ghost lv = strs(libs@);
        let ghost fv = strs(frameworks@);
        assert(rest[0] == ts@[i as int]@);
        assert(rest.skip(1) =~= all.skip(i + 1));
        let tok = ts[i].as_str();
        match str_strip_prefix(tok, "-L") {
            Some(r) => {
                push_pc_dir(lib_dirs, r.as_str());
                proof {
                    let s1 = pc_libs_scan(rest.skip(1));
                    match pc_dir(r@) {
                        Some(d) => {
                            assert(dv + (seq![d] + s1.lib_dirs) =~= strs(lib_dirs@) + s1.lib_dirs);
                        },
                        None => {},
                    }
                }
                i += 1;
            },
            None => match str_strip_prefix(tok, "-l") {
                Some(l) => {
                    let ghost lvv = l@;
                    libs.push(l);
                    proof {
                        let s1 = pc_libs_scan(rest.skip(1));
                        assert(strs(libs@) =~= lv + seq![lvv]);
                        assert(lv + (seq![lvv] + s1.libs) =~= strs(libs@) + s1.libs);
                    }
                    i += 1;
                },
                None => {
                    if str_eq(tok, "-framework") && i + 1 < ts.len() {
                        assert(rest[1] == ts@[i + 1]@);
                        assert(rest.skip(2) =~= all.skip(i + 2));
                        frameworks.push(ts[i + 1].clone());
                        proof {
                            let s2 = pc_libs_scan(rest.skip(2));
                            assert(strs(frameworks@) =~= fv + seq![rest[1]]);
                            assert(fv + (seq![rest[1]] + s2.frameworks) =~= strs(frameworks@) + s2.frameworks);
                        }
                        i += 2;
                    } else {
                        i += 1;
                    }
                },
            },
        }
    }
    assert(all.skip(i as int) =~= Seq::<Seq<char>>::empty());
    assert(strs(lib_dirs@) + Seq::<Seq<char>>::empty() =~= strs(lib_dirs@));
    assert(strs(libs@) + Seq::<Seq<char>>::empty() =~= strs(libs@));
    assert(strs(frameworks@) + Seq::<Seq<char>>::empty() =~= strs(frameworks@));
}

/// Reads the flags of a `.pc` file: `-I` directories from `Cflags:` lines;
/// `-L` directories, `-l` libraries and `-framework` names from `Libs:`
/// lines. Directories that refer to variables are left out.
pub fn parse_pc_content(
    content: &str,
    include_dirs: &mut Vec<String>,
    lib_dirs: &mut Vec<String>,
    libs: &mut Vec<String>,
    frameworks: &mut Vec<String>,
)
    ensures
        strs(final(include_dirs)@) == strs(old(include_dirs)@) + pc_lines(std_lines(content@)).0,
        strs(final(lib_dirs)@) == strs(old(lib_dirs)@) + pc_lines(std_lines(content@)).1.lib_dirs,
        strs(final(libs)@) == strs(old(libs)@) + pc_lines(std_lines(content@)).1.libs,
        strs(final(frameworks)@) == strs(old(frameworks)@) + pc_lines(std_lines(content@)).1.frameworks,
{
    let lines = lines_std(content);
    let ghost ls = strs(lines@);
    let ghost i0 = strs(include_dirs@);
    let ghost d0 = strs(lib_dirs@);
    let ghost l0 = strs(libs@);
    let ghost f0 = strs(frameworks@);
    let mut i: usize = 0;
    assert(i0 =~= i0 + pc_lines(ls.take(0)).0);
    assert(d0 =~= d0 + pc_lines(ls.take(0)).1.lib_dirs);
    assert(l0 =~= l0 + pc_lines(ls.take(0)).1.libs);
    assert(f0 =~= f0 + pc_lines(ls.take(0)).1.frameworks);
    while i < lines.len()
        invariant
            i <= lines.len(),
            ls == strs(lines@),
            strs(include_dirs@) == i0 + pc_lines(ls.take(i as int)).0,
            strs(lib_dirs@) == d0 + pc_lines(ls.take(i as int)).1.lib_dirs,
            strs(libs@) == l0 + pc_lines(ls.take(i as int)).1.libs,
            strs(frameworks@) == f0 + pc_lines(ls.take(i as int)).1.frameworks,
        decreases lines.len() - i,
    {
        let ghost prev = pc_lines(ls.take(i as int));
        assert(ls.take(i + 1).drop_last() =~= ls.take(i as int));
        assert(ls.take(i + 1).last() == lines@[i as int]@);
        let ghost cur = pc_line(lines@[i as int]@);
        let line = str_trim(lines[i].as_str());
        match str_strip_prefix(line.as_str(), "Cflags:") {
            Some(c) => {
                scan_cflags(include_dirs, c.as_str());
                assert(strs(include_dirs@) =~= i0 + (prev.0 + cur.0));
                assert(strs(lib_dirs@) =~= d0 + (prev.1.lib_dirs + cur.1.lib_dirs));
                assert(strs(libs@) =~= l0 + (prev.1.libs + cur.1.libs));
                assert(strs(frameworks@) =~= f0 + (prev.1.frameworks + cur.1.frameworks));
            },
            None => match str_strip_prefix(line.as_str(), "Libs:") {
                Some(l) => {
                    scan_libs(lib_dirs, libs, frameworks, l.as_str());
                    assert(strs(include_dirs@) =~= i0 + (prev.0 + cur.0));
                    assert(strs(lib_dirs@) =~= d0 + (prev.1.lib_dirs + cur.1.lib_dirs));
                    assert(strs(libs@) =~= l0 + (prev.1.libs + cur.1.libs));
                    assert(strs(frameworks@) =~= f0 + (prev.1.frameworks + cur.1.frameworks));
                },
                None => {
                    assert(strs(include_dirs@) =~= i0 + (prev.0 + cur.0));
                    assert(strs(lib_dirs@) =~= d0 + (prev.1.lib_dirs + cur.1.lib_dirs));
                    assert(strs(libs@) =~= l0 + (prev.1.libs + cur.1.libs));
                    assert(strs(frameworks@) =~= f0 + (prev.1.frameworks + cur.1.frameworks));
                },
            },
        }
        i += 1;
    }
    assert(ls.take(lines.len() as int) =~= ls);
}

/// The version a `.pc` file declares: the first `Version:` line with a
/// value, trimmed.
pub open spec fn pc_version_in(lines: Seq<Seq<char>>) -> Option<Seq<char>>
    decreases lines.len(),
{
    if lines.len() == 0 {
        None
    } else {
        match strip_prefix(lines[0], "Version:"@) {
            Some(v) => if trim(v).len() > 0 {
                Some(trim(v))
            } else {
                pc_version_in(lines.drop_first())
            },
            None => pc_version_in(lines.drop_first()),
        }
    }
}

pub fn pc_version(content: &str) -> (r: Option<String>)
    ensures
        match r {
            Some(v) => pc_version_in(std_lines(content@)) == Some(v@),
            None => pc_version_in(std_lines(content@)) is None,
        },
{
    let lines = lines_std(content);
    let ghost ls = strs(lines@);
    let mut i: usize = 0;
    assert(ls.skip(0) =~= ls);
    while i < lines.len()
        invariant
            i <= lines.len(),
            ls == strs(lines@),
            ls == std_lines(content@),
            pc_version_in(ls) == pc_version_in(ls.skip(i as int)),
        decreases lines.len() - i,
    {
        assert(ls.skip(i as int)[0] == lines@[i as int]@);
        assert(ls.skip(i as int).drop_first() =~= ls.skip(i + 1));
        match str_strip_prefix(lines[i].as_str(), "Version:") {
            Some(v) => {
                let t = str_trim(v.as_str());
                if !t.as_str().is_empty() {
                    return Some(t);
                }
            },
            None => {},
        }
        i += 1;
    }
    None
}

/// A `.pc` file that belongs to package `name`: `<name>.pc` or `<name>-*.pc`.
pub open spec fn pc_file_for(path: Seq<char>, name: Seq<char>) -> bool {
    &&& extension_of(path) == Some("pc"@)
    &&& (file_stem_of(path) == name || starts_with(file_stem_of(path), name + "-"@))
}

pub fn is_pc_file_for(path: &str, name: &str) -> (b: bool)
    ensures
        b == pc_file_for(path@, name@),
{
    let is_pc = match path_extension(path) {
        Some(e) => str_eq(e.as_str(), "pc"),
        None => false,
    };
    if !is_pc {
        return false;
    }
    let stem = path_stem(path);
    let dashed = concat(name, "-");
    str_eq(stem.as_str(), name) || str_starts_with(stem.as_str(), dashed.as_str())
}

/// `s` without trailing `c`s.
pub open spec fn trim_end_char(s: Seq<char>, c: char) -> Seq<char>
    decreases s.len(),
{
    if s.len() > 0 && s.last() == c {
        trim_end_char(s.drop_last(), c)
    } else {
        s
    }
}

/// Ends with `.git`.
pub open spec fn ends_with_git(s: Seq<char>) -> bool {
    s.len() >= 4 && s[s.len() - 4] == '.' && s[s.len() - 3] == 'g' && s[s.len() - 2] == 'i' && s[s.len() - 1] == 't'
}

/// `s` without trailing repetitions of `.git` (`trim_end_matches(".git")`).
pub open spec fn trim_git(s: Seq<char>) -> Seq<char>
    decreases s.len(),
{
    if ends_with_git(s) {
        trim_git(s.subrange(0, s.len() - 4))
    } else {
        s
    }
}

/// `://` replaced by `-`, left to right.
pub open spec fn replace_scheme_sep(s: Seq<char>) -> Seq<char>
    decreases s.len(),
{
    if s.len() == 0 {
        s
    } else if s.len() >= 3 && s[0] == ':' && s[1] == '/' && s[2] == '/' {
        seq!['-'] + replace_scheme_sep(s.skip(3))
    } else {
        seq![s[0]] + replace_scheme_sep(s.skip(1))
    }
}

/// `/`, `.` and `:` each replaced by `-`.
pub open spec fn dash_separators(s: Seq<char>) -> Seq<char> {
    s.map_values(|c: char| if c == '/' || c == '.' || c == ':' { '-' } else { c })
}

/// The directory name a repository is cached under.
pub open spec fn slug_of(url: Seq<char>) -> Seq<char> {
    dash_separators(replace_scheme_sep(trim_git(trim_end_char(url, '/'))))
}

fn trimmed_len(v: &Vec<char>) -> (n: usize)
    ensures
        n <= v@.len(),
        v@.subrange(0, n as int) == trim_git(trim_end_char(v@, '/')),
{
    let mut n = v.len();
    assert(v@.subrange(0, n as int) =~= v@);
    while n > 0 && v[n - 1] == '/'
        invariant
            n <= v.len(),
            trim_end_char(v@, '/') == trim_end_char(v@.subrange(0, n as int), '/'),
        decreases n,
    {
        assert(v@.subrange(0, n as int).drop_last() =~= v@.subrange(0, n - 1));
        n -= 1;
    }
    let ghost t1 = v@.subrange(0, n as int);
    while n >= 4 && v[n - 4] == '.' && v[n - 3] == 'g' && v[n - 2] == 'i' && v[n - 1] == 't'
        invariant
            n <= v.len(),
            trim_git(t1) == trim_git(v@.subrange(0, n as int)),
        decreases n,
    {
        assert(v@.subrange(0, n as int).subrange(0, n - 4) =~= v@.subrange(0, n - 4));
        n -= 4;
    }
    n
}

fn slugify(v: &Vec<char>, n: usize) -> (r: String)
    requires
        n <= v@.len(),
    ensures
        r@ == dash_separators(replace_scheme_sep(v@.subrange(0, n as int))),
{
    let ghost t2 = v@.subrange(0, n as int);
    let mut out = String::new();
    let mut i: usize = 0;
    assert(t2.skip(0) =~= t2);
    while i < n
        invariant
            i <= n <= v.len(),
            t2 == v@.subrange(0, n as int),
            dash_separators(replace_scheme_sep(t2)) == out@ + dash_separators(replace_scheme_sep(t2.skip(i as int))),
        decreases n - i,
    {
        let ghost rest = t2.skip(i as int);
        if n - i >= 3 && v[i] == ':' && v[i + 1] == '/' && v[i + 2] == '/' {
            assert(rest.skip(3) =~= t2.skip(i + 3));
            crate::text::push_char(&mut out, '-');
            assert(dash_separators(seq!['-'] + replace_scheme_sep(rest.skip(3))) =~= seq!['-']
                + dash_separators(replace_scheme_sep(rest.skip(3))));
            i += 3;
        } else {
            assert(rest.skip(1) =~= t2.skip(i + 1));
            let c = v[i];
            let d = if c == '/' || c == '.' || c == ':' {
                '-'
            } else {
                c
            };
            crate::text::push_char(&mut out, d);
            assert(dash_separators(seq![rest[0]] + replace_scheme_sep(rest.skip(1))) =~= seq![d]
                + dash_separators(replace_scheme_sep(rest.skip(1))));
            i += 1;
        }
    }
    assert(t2.skip(n as int) =~= Seq::<char>::empty());
    out
}

pub fn url_to_slug(url: &str) -> (r: String)
    ensures
        r@ == slug_of(url@),
{
    let v = chars_of(url);
    let n = trimmed_len(&v);
    slugify(&v, n)
}

/// A git dependency as written: a full URL or SSH address stays; a
/// `host.tld/owner/repo` gets `https://`; `owner/repo` means GitHub.
pub open spec fn expanded_git_url(spec: Seq<char>) -> Seq<char> {
    if contains_sub(spec, "://"@) || starts_with(spec, "git@"@) {
        spec
    } else if crate::text::first_index(spec, '.') is Some {
        "https://"@ + spec
    } else {
        "https://github.com/"@ + spec
    }
}

pub fn expand_git_shorthand(spec: &str) -> (r: String)
    ensures
        r@ == expanded_git_url(spec@),
{
    if str_contains(spec, "://") || str_starts_with(spec, "git@") {
        return spec.to_string();
    }
    let v = chars_of(spec);
    if crate::text::find_char(&v, '.').is_some() {
        return concat("https://", spec);
    }
    concat("https://github.com/", spec)
}

/// A git dependency: where it is and which reference to check out.
#[derive(Debug, Clone)]
pub struct GitDepSpec {
    pub url: String,
    pub git_ref: String,
}

impl GitDepSpec {
    /// The reference is the tag, else the branch, else the revision, else `HEAD`.
    pub fn from_dep(git_url: &str, tag: Option<&str>, branch: Option<&str>, rev: Option<&str>) -> (r: Self)
        ensures
            r.url@ == git_url@,
            r.git_ref@ == match tag {
                Some(t) => t@,
                None => match branch {
                    Some(b) => b@,
                    None => match rev {
                        Some(v) => v@,
                        None => "HEAD"@,
                    },
                },
            },
    {
        let git_ref = match tag {
            Some(t) => t,
            None => match branch {
                Some(b) => b,
                None => match rev {
                    Some(v) => v,
                    None => "HEAD",
                },
            },
        };
        GitDepSpec { url: git_url.to_string(), git_ref: git_ref.to_string() }
    }
}

/// What a resolved git dependency records: version `<ref>#<hash>` (the
/// hash cut to seven characters), source `git+<url>`.
pub fn git_resolved(name: &str, spec: &GitDepSpec, commit: &str) -> (r: ResolvedDep)
    ensures
        r.name@ == name@,
        r.version@ == spec.git_ref@ + "#"@ + (if commit@.len() >= 7 {
            commit@.subrange(0, 7)
        } else {
            commit@
        }),
        r.source@ == "git+"@ + spec.url@,
        r.checksum is None,
{
    let v = chars_of(commit);
    let short = if v.len() >= 7 {
        string_of(&v, 0, 7)
    } else {
        commit.to_string()
    };
    let head = concat(spec.git_ref.as_str(), "#");
    ResolvedDep {
        name: name.to_string(),
        version: concat(head.as_str(), short.as_str()),
        source: concat("git+", spec.url.as_str()),
        checksum: None,
    }
}

/// What follows the last `/` (all of `s` without one).
pub open spec fn last_segment(s: Seq<char>) -> Seq<char> {
    match crate::text::last_index(s, '/') {
        Some(k) => s.subrange(k + 1, s.len() as int),
        None => s,
    }
}

/// What follows the first `-` (all of `s` without one).
pub open spec fn after_first_dash(s: Seq<char>) -> Seq<char> {
    match crate::text::first_index(s, '-') {
        Some(k) => s.subrange(k + 1, s.len() as int),
        None => s,
    }
}

/// `s` without leading `c`s.
pub open spec fn trim_start_char(s: Seq<char>, c: char) -> Seq<char>
    decreases s.len(),
{
    if s.len() > 0 && s[0] == c {
        trim_start_char(s.drop_first(), c)
    } else {
        s
    }
}

/// The version a store path names for package `name`:
/// `/nix/store/<hash>-<name>-<version>`.
pub open spec fn nix_part_version(part: Seq<char>, name: Seq<char>) -> Option<Seq<char>> {
    if contains_sub(part, name) {
        match strip_prefix(after_first_dash(last_segment(part)), name) {
            Some(v) => if trim_start_char(v, '-').len() > 0 {
                Some(trim_start_char(v, '-'))
            } else {
                None
            },
            None => None,
        }
    } else {
        None
    }
}

pub open spec fn nix_in_parts(ps: Seq<Seq<char>>, name: Seq<char>) -> Option<Seq<char>>
    decreases ps.len(),
{
    if ps.len() == 0 {
        None
    } else {
        match nix_part_version(ps[0], name) {
            Some(v) => Some(v),
            None => nix_in_parts(ps.drop_first(), name),
        }
    }
}

pub open spec fn nix_in_lines(ls: Seq<Seq<char>>, name: Seq<char>) -> Option<Seq<char>>
    decreases ls.len(),
{
    if ls.len() == 0 {
        None
    } else if contains_sub(ls[0], name) {
        match nix_in_parts(tokens(ls[0]), name) {
            Some(v) => Some(v),
            None => nix_in_lines(ls.drop_first(), name),
        }
    } else {
        nix_in_lines(ls.drop_first(), name)
    }
}

/// The version of `name` in what `nix profile list` printed; `unknown`
/// when no line names it with a version.
pub open spec fn nix_version(out: Seq<char>, name: Seq<char>) -> Seq<char> {
    match nix_in_lines(std_lines(out), name) {
        Some(v) => v,
        None => "unknown"@,
    }
}

fn part_version(part: &str, name: &str) -> (r: Option<String>)
    ensures
        match r {
            Some(v) => nix_part_version(part@, name@) == Some(v@),
            None => nix_part_version(part@, name@) is None,
        },
{
    if !str_contains(part, name) {
        return None;
    }
    let v = chars_of(part);
    let rest = match crate::text::rfind_char(&v, '/') {
        Some(k) => string_of(&v, k + 1, v.len()),
        None => part.to_string(),
    };
    let w = chars_of(rest.as_str());
    let without_hash = match crate::text::find_char(&w, '-') {
        Some(k) => string_of(&w, k + 1, w.len()),
        None => rest.clone(),
    };
    match str_strip_prefix(without_hash.as_str(), name) {
        Some(ver) => {
            let x = chars_of(ver.as_str());
            let mut i: usize = 0;
            assert(x@.subrange(0, x@.len() as int) =~= x@);
            while i < x.len() && x[i] == '-'
                invariant
                    i <= x.len(),
                    trim_start_char(x@, '-') == trim_start_char(x@.subrange(i as int, x@.len() as int), '-'),
                decreases x.len() - i,
            {
                assert(x@.subrange(i as int, x@.len() as int).drop_first() =~= x@.subrange(i + 1, x@.len() as int));
                i += 1;
            }
            if i < x.len() {
                Some(string_of(&x, i, x.len()))
            } else {
                None
            }
        },
        None => None,
    }
}

pub fn extract_nix_version(profile_output: &str, name: &str) -> (r: String)
    ensures
        r@ == nix_version(profile_output@, name@),
{
    let lines = lines_std(profile_output);
    let ghost ls = strs(lines@);
    let mut i: usize = 0;
    assert(ls.skip(0) =~= ls);
    while i < lines.len()
        invariant
            i <= lines.len(),
            ls == strs(lines@),
            ls == std_lines(profile_output@),
            nix_in_lines(ls, name@) == nix_in_lines(ls.skip(i as int), name@),
        decreases lines.len() - i,
    {
        let line = lines[i].as_str();
        assert(ls.skip(i as int)[0] == line@);
        assert(ls.skip(i as int).drop_first() =~= ls.skip(i + 1));
        if str_contains(line, name) {
            let parts = split_whitespace(line);
            let ghost ps = strs(parts@);
            let mut j: usize = 0;
            assert(ps.skip(0) =~= ps);
            while j < parts.len()
                invariant
                    j <= parts.len(),
                    ps == strs(parts@),
                    ps == tokens(line@),
                    contains_sub(line@, name@),
                    i < ls.len(),
                    ls.skip(i as int)[0] == line@,
                    ls == std_lines(profile_output@),
                    nix_in_lines(ls, name@) == nix_in_lines(ls.skip(i as int), name@),
                    nix_in_parts(ps, name@) == nix_in_parts(ps.skip(j as int), name@),
                decreases parts.len() - j,
            {
                assert(ps.skip(j as int)[0] == parts@[j as int]@);
                assert(ps.skip(j as int).drop_first() =~= ps.skip(j + 1));
                match part_version(parts[j].as_str(), name) {
                    Some(v) => {
                        assert(nix_in_parts(ps.skip(j as int), name@) == Some(v@));
                        assert(nix_in_lines(ls.skip(i as int), name@) == Some(v@));
                        return v;
                    },
                    None => {},
                }
                j += 1;
            }
            assert(ps.skip(j as int) =~= Seq::<Seq<char>>::empty());
        }
        i += 1;
    }
    "unknown".to_string()
}

/// One dependency of a vcpkg manifest.
pub open spec fn vcpkg_entry(name: Seq<char>, version: Option<Seq<char>>) -> Seq<char> {
    "    {\n      \"name\": \""@ + name + "\""@ + match version {
        Some(v) => ",\n      \"version>=\": \""@ + v + "\""@,
        None => ""@,
    } + "\n    }"@
}

/// A vcpkg manifest that asks for the given packages (at least the given
/// versions).
pub open spec fn vcpkg_manifest(entries: Seq<Seq<char>>) -> Seq<char> {
    "{\n  \"name\": \"ordo-deps\",\n  \"version\": \"0.0.0\",\n  \"dependencies\": [\n"@ + join(
        entries,
        ",\n"@,
    ) + "\n  ]\n}"@
}

pub open spec fn vcpkg_entries(packages: Seq<(&str, Option<&str>)>) -> Seq<Seq<char>> {
    packages.map_values(
        |p: (&str, Option<&str>)|
            vcpkg_entry(
                p.0@,
                match p.1 {
                    Some(v) => Some(v@),
                    None => None,
                },
            ),
    )
}

pub fn build_vcpkg_manifest_multi(packages: &[(&str, Option<&str>)]) -> (r: String)
    ensures
        r@ == vcpkg_manifest(vcpkg_entries(packages@)),
{
    let mut entries: Vec<String> = Vec::new();
    let mut i: usize = 0;
    while i < packages.len()
        invariant
            i <= packages.len(),
            strs(entries@) == vcpkg_entries(packages@).take(i as int),
        decreases packages.len() - i,
    {
        let (name, version) = packages[i];
        let a = concat("    {\n      \"name\": \"", name);
        let b = concat(a.as_str(), "\"");
        let c = match version {
            Some(v) => {
                let x = concat(b.as_str(), ",\n      \"version>=\": \"");
                let y = concat(x.as_str(), v);
                concat(y.as_str(), "\"")
            },
            None => concat(b.as_str(), ""),
        };
        let e = concat(c.as_str(), "\n    }");
        assert(e@ =~= vcpkg_entry(
            name@,
            match version {
                Some(v) => Some(v@),
                None => None,
            },
        ));
        let ghost before = strs(entries@);
        entries.push(e);
        assert(strs(entries@) =~= before.push(e@));
        assert(vcpkg_entries(packages@).take(i + 1) =~= vcpkg_entries(packages@).take(i as int).push(e@));
        i += 1;
    }
    assert(vcpkg_entries(packages@).take(packages@.len() as int) =~= vcpkg_entries(packages@));
    let joined = join_strings(&entries, ",\n");
    let head = concat("{\n  \"name\": \"ordo-deps\",\n  \"version\": \"0.0.0\",\n  \"dependencies\": [\n", joined.as_str());
    concat(head.as_str(), "\n  ]\n}")
}


/// The vcpkg triplet of a host (`x64-linux` for one it does not know).
pub open spec fn triplet_of(os: Seq<char>, arch: Seq<char>) -> Seq<char> {
    if os == "linux"@ && arch == "aarch64"@ {
        "arm64-linux"@
    } else if os == "macos"@ && arch == "x86_64"@ {
        "x64-osx"@
    } else if os == "macos"@ && arch == "aarch64"@ {
        "arm64-osx"@
    } else if os == "windows"@ && arch == "x86_64"@ {
        "x64-windows"@
    } else if os == "windows"@ && arch == "aarch64"@ {
        "arm64-windows"@
    } else {
        "x64-linux"@
    }
}

/// The vcpkg triplet of the host with this operating system and
/// architecture (as `std::env::consts` names them).
pub fn host_triplet(os: &str, arch: &str) -> (r: &'static str)
    ensures
        r@ == triplet_of(os@, arch@),
{
    if str_eq(os, "linux") && str_eq(arch, "aarch64") {
        "arm64-linux"
    } else if str_eq(os, "macos") && str_eq(arch, "x86_64") {
        "x64-osx"
    } else if str_eq(os, "macos") && str_eq(arch, "aarch64") {
        "arm64-osx"
    } else if str_eq(os, "windows") && str_eq(arch, "x86_64") {
        "x64-windows"
    } else if str_eq(os, "windows") && str_eq(arch, "aarch64") {
        "arm64-windows"
    } else {
        "x64-linux"
    }
}

/// An optional text by its contents.
pub open spec fn opt_view(o: Option<&str>) -> Option<Seq<char>> {
    match o {
        Some(s) => Some(s@),
        None => None,
    }
}

fn strings2(a: &str, b: &str) -> (r: Vec<String>)
    ensures
        strs(r@) == seq![a@, b@],
{
    let mut r: Vec<String> = Vec::new();
    r.push(a.to_string());
    r.push(b.to_string());
    assert(strs(r@) =~= seq![a@, b@]);
    r
}

fn push_arg(v: &mut Vec<String>, s: &str)
    ensures
        strs(final(v)@) == strs(old(v)@).push(s@),
{
    let ghost before = strs(v@);
    v.push(s.to_string());
    assert(strs(v@) =~= before.push(s@));
}

/// The `pkg-config` arguments that check a package is installed (at
/// least at `version`, when one is asked for).
pub fn pkgconfig_probe_args(name: &str, version: Option<&str>) -> (r: Vec<String>)
    ensures
        strs(r@) == match version {
            Some(v) => seq!["--atleast-version"@, v@, name@],
            None => seq!["--exists"@, name@],
        },
{
    match version {
        Some(v) => {
            let mut r = strings2("--atleast-version", v);
            push_arg(&mut r, name);
            r
        },
        None => strings2("--exists", name),
    }
}

/// The message when `pkg-config` does not find a package.
pub open spec fn pkgconfig_missing(name: Seq<char>, version: Option<Seq<char>>) -> Seq<char> {
    match version {
        Some(v) => "pkg-config: package '"@ + name + "' version >= "@ + v
            + " not found\n  help: install it via your system package manager"@,
        None => "pkg-config: package '"@ + name + "' not found\n  help: install it via your system package manager"@,
    }
}

/// What `pkg-config` resolves a package to: an error when the probe
/// failed; otherwise the version that `--modversion` printed, trimmed.
pub fn pkgconfig_resolve(name: &str, version: Option<&str>, found: bool, modversion: &str) -> (r: Result<
    ResolvedDep,
    String,
>)
    ensures
        !found ==> (r matches Err(e) && e@ == pkgconfig_missing(name@, opt_view(version))),
        found ==> (r matches Ok(d) && d.name@ == name@ && d.version@ == trim(modversion@) && d.source@
            == "pkg-config"@ && d.checksum is None),
{
    if !found {
        let head = concat("pkg-config: package '", name);
        return Err(
            match version {
                Some(v) => {
                    let a = concat(head.as_str(), "' version >= ");
                    let b = concat(a.as_str(), v);
                    concat(b.as_str(), " not found\n  help: install it via your system package manager")
                },
                None => concat(head.as_str(), "' not found\n  help: install it via your system package manager"),
            },
        );
    }
    Ok(
        ResolvedDep {
            name: name.to_string(),
            version: str_trim(modversion),
            source: "pkg-config".to_string(),
            checksum: None,
        },
    )
}

/// What a package's `--cflags` and `--libs` output give: its include
/// directories, library directories, libraries and frameworks.
pub fn pkgconfig_fetch(name: &str, cflags: &str, libs: &str) -> (r: FetchedDep)
    ensures
        r.name@ == name@,
        strs(r.include_dirs@) == stripped_all(tokens(cflags@), "-I"@),
        strs(r.lib_dirs@) == libs_split(tokens(libs@)).0,
        strs(r.libs@) == libs_split(tokens(libs@)).1,
        strs(r.frameworks@) == frameworks_in(tokens(libs@)),
        r.defines@.len() == 0,
{
    let include_dirs = parse_include_dirs(cflags);
    let (lib_dirs, lib_names) = parse_libs(libs);
    let frameworks = parse_frameworks(libs);
    FetchedDep { name: name.to_string(), include_dirs, lib_dirs, libs: lib_names, frameworks, defines: Vec::new() }
}

/// The message when pacman does not have a package installed.
pub open spec fn pacman_missing(name: Seq<char>) -> Seq<char> {
    "pacman: package '"@ + name + "' is not installed\n  help: install with: sudo pacman -S "@ + name
}

/// The message when an installed pacman package is older than asked.
pub open spec fn pacman_too_old(name: Seq<char>, installed: Seq<char>, req: Seq<char>) -> Seq<char> {
    "pacman: package '"@ + name + "' version "@ + installed + " does not satisfy >= "@ + req
        + "\n  help: sudo pacman -Syu "@ + name
}

/// What `pacman -Qi` tells of a package: an error when it is not
/// installed or (when a version is asked for) its version does not
/// satisfy the request; otherwise its version.
pub fn pacman_resolve(name: &str, version: Option<&str>, installed: bool, query: &str) -> (r: Result<
    ResolvedDep,
    String,
>)
    ensures
        !installed ==> (r matches Err(e) && e@ == pacman_missing(name@)),
        installed ==> ({
            let v = pacman_version_in(std_lines(query@));
            match version {
                Some(req) if !pacman_satisfies(v, req@) => r matches Err(e) && e@ == pacman_too_old(name@, v, req@),
                _ => r matches Ok(d) && d.name@ == name@ && d.version@ == v && d.source@ == "pacman"@
                    && d.checksum is None,
            }
        }),
{
    if !installed {
        let a = concat("pacman: package '", name);
        let b = concat(a.as_str(), "' is not installed\n  help: install with: sudo pacman -S ");
        return Err(concat(b.as_str(), name));
    }
    let v = pacman_version(query);
    if let Some(req) = version {
        if !pacman_version_satisfies(v.as_str(), req) {
            let a = concat("pacman: package '", name);
            let b = concat(a.as_str(), "' version ");
            let c = concat(b.as_str(), v.as_str());
            let d = concat(c.as_str(), " does not satisfy >= ");
            let e = concat(d.as_str(), req);
            let f = concat(e.as_str(), "\n  help: sudo pacman -Syu ");
            return Err(concat(f.as_str(), name));
        }
    }
    Ok(ResolvedDep { name: name.to_string(), version: v, source: "pacman".to_string(), checksum: None })
}

/// The messages of Homebrew's answers.
pub open spec fn brew_missing(name: Seq<char>) -> Seq<char> {
    "brew: package '"@ + name + "' not found\n  help: install with: brew install "@ + name
}

pub open spec fn brew_too_old(name: Seq<char>, v: Seq<char>, req: Seq<char>) -> Seq<char> {
    "brew: package '"@ + name + "' version "@ + v + " does not satisfy >= "@ + req + "\n  help: brew upgrade "@
        + name
}

pub open spec fn brew_not_installed(name: Seq<char>) -> Seq<char> {
    "brew: package '"@ + name + "' is not installed\n  help: install with: brew install "@ + name
}

/// The version Homebrew reports: the formula's stable version, else `unknown`.
pub open spec fn brew_version(stable: Option<Seq<char>>) -> Seq<char> {
    match stable {
        Some(s) => s,
        None => "unknown"@,
    }
}

/// What `brew info` tells of a formula (`found`: the command succeeded;
/// `stable`: the first formula's stable version; `installed`: it has an
/// installed copy): the first failing check's error, otherwise the version.
pub fn brew_resolve(name: &str, version: Option<&str>, found: bool, stable: Option<&str>, installed: bool) -> (r:
    Result<ResolvedDep, String>)
    ensures
        !found ==> (r matches Err(e) && e@ == brew_missing(name@)),
        found ==> ({
            let v = brew_version(opt_view(stable));
            match version {
                Some(req) if !starts_with(v, req@) && v != req@ => r matches Err(e) && e@ == brew_too_old(
                    name@,
                    v,
                    req@,
                ),
                _ => if !installed {
                    r matches Err(e) && e@ == brew_not_installed(name@)
                } else {
                    r matches Ok(d) && d.name@ == name@ && d.version@ == v && d.source@ == "brew"@
                        && d.checksum is None
                },
            }
        }),
{
    if !found {
        let a = concat("brew: package '", name);
        let b = concat(a.as_str(), "' not found\n  help: install with: brew install ");
        return Err(concat(b.as_str(), name));
    }
    let v = match stable {
        Some(s) => s.to_string(),
        None => "unknown".to_string(),
    };
    if let Some(req) = version {
        if !str_starts_with(v.as_str(), req) && !str_eq(v.as_str(), req) {
            let a = concat("brew: package '", name);
            let b = concat(a.as_str(), "' version ");
            let c = concat(b.as_str(), v.as_str());
            let d = concat(c.as_str(), " does not satisfy >= ");
            let e = concat(d.as_str(), req);
            let f = concat(e.as_str(), "\n  help: brew upgrade ");
            return Err(concat(f.as_str(), name));
        }
    }
    if !installed {
        let a = concat("brew: package '", name);
        let b = concat(a.as_str(), "' is not installed\n  help: install with: brew install ");
        return Err(concat(b.as_str(), name));
    }
    Ok(ResolvedDep { name: name.to_string(), version: v, source: "brew".to_string(), checksum: None })
}

/// The library a file name stands for: `lib<name>.a`, `.dylib` or `.so`
/// with a non-empty name.
pub open spec fn lib_file_name(f: Seq<char>) -> Option<Seq<char>> {
    match strip_prefix(f, "lib"@) {
        None => None,
        Some(rest) => {
            let n = if ends_with(rest, ".a"@) {
                Some(rest.subrange(0, rest.len() - 2))
            } else if ends_with(rest, ".dylib"@) {
                Some(rest.subrange(0, rest.len() - 6))
            } else if ends_with(rest, ".so"@) {
                Some(rest.subrange(0, rest.len() - 3))
            } else {
                None
            };
            match n {
                Some(x) => if x.len() > 0 {
                    Some(x)
                } else {
                    None
                },
                None => None,
            }
        },
    }
}

fn lib_name_of(f: &str) -> (r: Option<String>)
    ensures
        match r {
            Some(n) => lib_file_name(f@) == Some(n@),
            None => lib_file_name(f@) is None,
        },
{
    let rest = str_strip_prefix(f, "lib")?;
    let v = chars_of(rest.as_str());
    proof {
        reveal_strlit(".a");
        reveal_strlit(".dylib");
        reveal_strlit(".so");
    }
    let cut: usize = if str_ends_with(rest.as_str(), ".a") {
        2
    } else if str_ends_with(rest.as_str(), ".dylib") {
        6
    } else if str_ends_with(rest.as_str(), ".so") {
        3
    } else {
        return None;
    };
    if v.len() - cut == 0 {
        return None;
    }
    Some(string_of(&v, 0, v.len() - cut))
}

/// The libraries named by a directory's files (in the order given, each
/// once), or the directory's own name when none is.
pub open spec fn lib_names_in(files: Seq<Seq<char>>, fallback: Seq<char>) -> Seq<Seq<char>> {
    let found = lib_names_seen(files);
    if found.len() == 0 {
        seq![fallback]
    } else {
        found
    }
}

pub open spec fn lib_names_seen(files: Seq<Seq<char>>) -> Seq<Seq<char>>
    decreases files.len(),
{
    if files.len() == 0 {
        Seq::empty()
    } else {
        let r = lib_names_seen(files.drop_last());
        match lib_file_name(files.last()) {
            Some(n) => if r.contains(n) {
                r
            } else {
                r.push(n)
            },
            None => r,
        }
    }
}

/// The libraries of a package's `lib` directory, from its file names (see
/// `lib_names_in`); `fallback` is the package directory's name.
pub fn find_lib_names(files: &Vec<String>, fallback: &str) -> (r: Vec<String>)
    ensures
        strs(r@) == lib_names_in(strs(files@), fallback@),
{
    let mut names: Vec<String> = Vec::new();
    let mut i: usize = 0;
    while i < files.len()
        invariant
            i <= files.len(),
            strs(names@) == lib_names_seen(strs(files@).take(i as int)),
        decreases files.len() - i,
    {
        assert(strs(files@).take(i + 1).drop_last() =~= strs(files@).take(i as int));
        assert(strs(files@).take(i + 1).last() == files@[i as int]@);
        if let Some(n) = lib_name_of(files[i].as_str()) {
            if !crate::text::contains_str(&names, n.as_str()) {
                let ghost before = strs(names@);
                let ghost nv = n@;
                names.push(n);
                assert(strs(names@) =~= before.push(nv));
            }
        }
        i += 1;
    }
    assert(strs(files@).take(files.len() as int) =~= strs(files@));
    if names.len() == 0 {
        let mut r: Vec<String> = Vec::new();
        r.push(fallback.to_string());
        assert(strs(r@) =~= seq![fallback@]);
        r
    } else {
        names
    }
}

/// Some line of `out` holds `name`.
pub open spec fn lists(out: Seq<char>, name: Seq<char>) -> bool {
    exists|i: int| 0 <= i < std_lines(out).len() && contains_sub(#[trigger] std_lines(out)[i], name)
}

/// The version `nix-env -q` prints for a package: on the first line that
/// holds its name, what follows the name (without leading `-`) when the
/// line starts with it; `unknown` otherwise.
pub open spec fn nix_env_version(out: Seq<char>, name: Seq<char>) -> Seq<char> {
    let ls = std_lines(out);
    if exists|i: int| 0 <= i < ls.len() && contains_sub(#[trigger] ls[i], name) {
        let i = choose|i: int|
            0 <= i < ls.len() && contains_sub(ls[i], name) && forall|j: int| 0 <= j < i ==> !contains_sub(#[trigger] ls[j], name);
        match strip_prefix(ls[i], name) {
            Some(rest) => trim_start_char(rest, '-'),
            None => "unknown"@,
        }
    } else {
        "unknown"@
    }
}

fn trim_start_dashes(s: &str) -> (r: String)
    ensures
        r@ == trim_start_char(s@, '-'),
{
    let v = chars_of(s);
    let mut i: usize = 0;
    assert(v@.subrange(0, v@.len() as int) =~= v@);
    while i < v.len() && v[i] == '-'
        invariant
            i <= v.len(),
            trim_start_char(v@, '-') == trim_start_char(v@.subrange(i as int, v@.len() as int), '-'),
        decreases v.len() - i,
    {
        assert(v@.subrange(i as int, v@.len() as int).drop_first() =~= v@.subrange(i + 1, v@.len() as int));
        i += 1;
    }
    string_of(&v, i, v.len())
}

fn nix_env_version_of(out: &str, name: &str) -> (r: String)
    ensures
        r@ == nix_env_version(out@, name@),
{
    let lines = lines_std(out);
    let ghost ls = strs(lines@);
    let mut i: usize = 0;
    while i < lines.len()
        invariant
            i <= lines.len(),
            ls == strs(lines@),
            ls == std_lines(out@),
            forall|j: int| 0 <= j < i ==> !contains_sub(#[trigger] ls[j], name@),
        decreases lines.len() - i,
    {
        assert(ls[i as int] == lines@[i as int]@);
        if str_contains(lines[i].as_str(), name) {
            proof {
                let k = choose|k: int|
                    0 <= k < ls.len() && contains_sub(ls[k], name@) && forall|j: int|
                        0 <= j < k ==> !contains_sub(#[trigger] ls[j], name@);
                if k < i {
                } else if k > i {
                    assert(!contains_sub(ls[i as int], name@));
                }
            }
            return match str_strip_prefix(lines[i].as_str(), name) {
                Some(rest) => trim_start_dashes(rest.as_str()),
                None => "unknown".to_string(),
            };
        }
        i += 1;
    }
    "unknown".to_string()
}

/// The message when nix has no such package.
pub open spec fn nix_missing(name: Seq<char>) -> Seq<char> {
    "nix: package '"@ + name + "' not found\n  help: install with: nix profile install nixpkgs#"@ + name
}

/// What nix tells of a package: `profile` is what `nix profile list`
/// printed (when it succeeded), `legacy` what `nix-env -q` printed (when
/// it succeeded; asked only when the profile does not list the package).
/// The profile's version when it lists the package, else the legacy
/// answer's, else an error.
pub fn nix_resolve(name: &str, profile: Option<&str>, legacy: Option<&str>) -> (r: Result<ResolvedDep, String>)
    ensures
        match profile {
            Some(p) if lists(p@, name@) => r matches Ok(d) && d.version@ == nix_version(p@, name@),
            _ => match legacy {
                Some(l) => r matches Ok(d) && d.version@ == nix_env_version(l@, name@),
                None => r matches Err(e) && e@ == nix_missing(name@),
            },
        },
        r matches Ok(d) ==> d.name@ == name@ && d.source@ == "nix"@ && d.checksum is None,
{
    if let Some(p) = profile {
        let lines = lines_std(p);
        let ghost ls = strs(lines@);
        let mut i: usize = 0;
        let mut listed = false;
        while i < lines.len()
            invariant
                i <= lines.len(),
                ls == strs(lines@),
                ls == std_lines(p@),
                listed ==> lists(p@, name@),
                !listed ==> forall|j: int| 0 <= j < i ==> !contains_sub(#[trigger] ls[j], name@),
            decreases lines.len() - i,
        {
            assert(ls[i as int] == lines@[i as int]@);
            if str_contains(lines[i].as_str(), name) {
                listed = true;
            }
            i += 1;
        }
        if listed {
            return Ok(
                ResolvedDep {
                    name: name.to_string(),
                    version: extract_nix_version(p, name),
                    source: "nix".to_string(),
                    checksum: None,
                },
            );
        }
    }
    match legacy {
        Some(l) => Ok(
            ResolvedDep {
                name: name.to_string(),
                version: nix_env_version_of(l, name),
                source: "nix".to_string(),
                checksum: None,
            },
        ),
        None => {
            let a = concat("nix: package '", name);
            let b = concat(a.as_str(), "' not found\n  help: install with: nix profile install nixpkgs#");
            Err(concat(b.as_str(), name))
        },
    }
}

/// The version `vcpkg list <name>:<triplet>` shows: the second word of
/// the first line that starts with the name and has two words; `unknown`
/// otherwise.
pub open spec fn vcpkg_listed_version(ls: Seq<Seq<char>>, name: Seq<char>) -> Seq<char>
    decreases ls.len(),
{
    if ls.len() == 0 {
        "unknown"@
    } else if starts_with(ls[0], name) && tokens(ls[0]).len() >= 2 {
        tokens(ls[0])[1]
    } else {
        vcpkg_listed_version(ls.drop_first(), name)
    }
}

pub fn vcpkg_version_from_list(out: &str, name: &str) -> (r: String)
    ensures
        r@ == vcpkg_listed_version(std_lines(out@), name@),
{
    let lines = lines_std(out);
    let ghost ls = strs(lines@);
    let mut i: usize = 0;
    assert(ls.skip(0) =~= ls);
    while i < lines.len()
        invariant
            i <= lines.len(),
            ls == strs(lines@),
            ls == std_lines(out@),
            vcpkg_listed_version(ls, name@) == vcpkg_listed_version(ls.skip(i as int), name@),
        decreases lines.len() - i,
    {
        assert(ls.skip(i as int)[0] == lines@[i as int]@);
        assert(ls.skip(i as int).drop_first() =~= ls.skip(i + 1));
        if str_starts_with(lines[i].as_str(), name) {
            let parts = split_whitespace(lines[i].as_str());
            if parts.len() >= 2 {
                assert(strs(parts@)[1] == parts@[1]@);
                return parts[1].clone();
            }
        }
        i += 1;
    }
    "unknown".to_string()
}

/// The `vcpkg install` arguments for a manifest directory, a triplet and a
/// vcpkg root.
pub fn vcpkg_install_args(manifest_dir: &str, triplet: &str, root: &str) -> (r: Vec<String>)
    ensures
        strs(r@) == seq![
            "install"@,
            "--x-manifest-root"@,
            manifest_dir@,
            "--triplet="@ + triplet@,
            "--x-install-root="@ + crate::build_graph::joined_path(root@, "installed"@),
        ],
{
    let mut r = strings2("install", "--x-manifest-root");
    push_arg(&mut r, manifest_dir);
    let t = concat("--triplet=", triplet);
    push_arg(&mut r, t.as_str());
    let installed = crate::build_graph::path_join(root, "installed");
    let i = concat("--x-install-root=", installed.as_str());
    push_arg(&mut r, i.as_str());
    r
}

/// The message of a failed `vcpkg install`: the packages, then its error
/// output, or its standard output when the error output is blank.
pub open spec fn vcpkg_failure(names: Seq<Seq<char>>, stdout: Seq<char>, stderr: Seq<char>) -> Seq<char> {
    let detail = if trim(stderr).len() == 0 {
        stdout
    } else {
        stderr
    };
    "vcpkg install failed for ["@ + join(names, ", "@) + "]:\n"@ + trim(detail) + "\n  help: check vcpkg logs for details"@
}

pub fn vcpkg_install_failure(names: &Vec<String>, stdout: &str, stderr: &str) -> (r: String)
    ensures
        r@ == vcpkg_failure(strs(names@), stdout@, stderr@),
{
    let e = str_trim(stderr);
    let detail = if e.as_str().unicode_len() == 0 {
        str_trim(stdout)
    } else {
        e
    };
    let a = concat("vcpkg install failed for [", join_strings(names, ", ").as_str());
    let b = concat(a.as_str(), "]:\n");
    let c = concat(b.as_str(), detail.as_str());
    concat(c.as_str(), "\n  help: check vcpkg logs for details")
}

/// The git arguments that update a cached bare repository.
pub fn git_fetch_args(cache_path: &str) -> (r: Vec<String>)
    ensures
        strs(r@) == seq!["-C"@, cache_path@, "fetch"@, "--all"@, "--prune"@, "--progress"@],
{
    let mut r = strings2("-C", cache_path);
    push_arg(&mut r, "fetch");
    push_arg(&mut r, "--all");
    push_arg(&mut r, "--prune");
    push_arg(&mut r, "--progress");
    r
}

/// The git arguments that clone a repository bare into the cache.
pub fn git_clone_bare_args(url: &str, cache_path: &str) -> (r: Vec<String>)
    ensures
        strs(r@) == seq!["clone"@, "--bare"@, "--progress"@, url@, cache_path@],
{
    let mut r = strings2("clone", "--bare");
    push_arg(&mut r, "--progress");
    push_arg(&mut r, url);
    push_arg(&mut r, cache_path);
    r
}

/// The message of a failed clone.
pub open spec fn git_clone_failure(url: Seq<char>, stderr: Seq<char>) -> Seq<char> {
    "git: failed to clone '"@ + url + "':\n"@ + stderr + "\n  help: check the URL and your network connection"@
}

pub fn git_clone_failure_message(url: &str, stderr: &str) -> (r: String)
    ensures
        r@ == git_clone_failure(url@, stderr@),
{
    let a = concat("git: failed to clone '", url);
    let b = concat(a.as_str(), "':\n");
    let c = concat(b.as_str(), stderr);
    concat(c.as_str(), "\n  help: check the URL and your network connection")
}

/// The git arguments that check a reference out shallowly from the cache.
pub fn git_shallow_checkout_args(git_ref: &str, bare: &str, dest: &str) -> (r: Vec<String>)
    ensures
        strs(r@) == seq!["clone"@, "--shared"@, "--branch"@, git_ref@, "--depth"@, "1"@, bare@, dest@],
{
    let mut r = strings2("clone", "--shared");
    push_arg(&mut r, "--branch");
    push_arg(&mut r, git_ref);
    push_arg(&mut r, "--depth");
    push_arg(&mut r, "1");
    push_arg(&mut r, bare);
    push_arg(&mut r, dest);
    r
}

/// The git arguments that tell whether a reference exists.
pub fn git_verify_ref_args(bare: &str, git_ref: &str) -> (r: Vec<String>)
    ensures
        strs(r@) == seq!["--git-dir"@, bare@, "rev-parse"@, "--verify"@, git_ref@],
{
    let mut r = strings2("--git-dir", bare);
    push_arg(&mut r, "rev-parse");
    push_arg(&mut r, "--verify");
    push_arg(&mut r, git_ref);
    r
}

/// The git arguments that clone the whole cache, then those that check a
/// reference out in the clone (used when the reference is no branch or tag).
pub fn git_full_checkout_args(bare: &str, dest: &str, git_ref: &str) -> (r: (Vec<String>, Vec<String>))
    ensures
        strs(r.0@) == seq!["clone"@, "--shared"@, bare@, dest@],
        strs(r.1@) == seq!["-C"@, dest@, "checkout"@, git_ref@],
{
    let mut a = strings2("clone", "--shared");
    push_arg(&mut a, bare);
    push_arg(&mut a, dest);
    let mut b = strings2("-C", dest);
    push_arg(&mut b, "checkout");
    push_arg(&mut b, git_ref);
    (a, b)
}

/// The message when a reference is not in the repository.
pub open spec fn git_ref_missing(git_ref: Seq<char>) -> Seq<char> {
    "git: ref '"@ + git_ref + "' not found in repository\n  help: check available tags/branches"@
}

pub fn git_ref_missing_message(git_ref: &str) -> (r: String)
    ensures
        r@ == git_ref_missing(git_ref@),
{
    let a = concat("git: ref '", git_ref);
    concat(a.as_str(), "' not found in repository\n  help: check available tags/branches")
}

/// The git arguments that resolve a reference to a commit.
pub fn git_rev_parse_args(bare: &str, git_ref: &str) -> (r: Vec<String>)
    ensures
        strs(r@) == seq!["--git-dir"@, bare@, "rev-parse"@, git_ref@],
{
    let mut r = strings2("--git-dir", bare);
    push_arg(&mut r, "rev-parse");
    push_arg(&mut r, git_ref);
    r
}

/// The commit `git rev-parse` printed (trimmed); an error when it printed
/// nothing.
pub fn commit_from_rev_parse(stdout: &str, git_ref: &str) -> (r: Result<String, String>)
    ensures
        trim(stdout@).len() > 0 ==> (r matches Ok(h) && h@ == trim(stdout@)),
        trim(stdout@).len() == 0 ==> (r matches Err(e) && e@ == "git: could not resolve ref '"@ + git_ref@ + "'"@),
{
    let h = str_trim(stdout);
    if h.as_str().unicode_len() == 0 {
        let a = concat("git: could not resolve ref '", git_ref);
        Err(concat(a.as_str(), "'"))
    } else {
        Ok(h)
    }
}

/// Where a repository is cached, and where a reference of it is checked out.
pub fn git_cache_paths(cache_dir: &str, url: &str, git_ref: &str) -> (r: (String, String))
    ensures
        r.0@ == crate::build_graph::joined_path(cache_dir@, slug_of(url@)),
        r.1@ == crate::build_graph::joined_path(
            crate::build_graph::joined_path(crate::build_graph::joined_path(cache_dir@, "checkouts"@), slug_of(url@)),
            git_ref@,
        ),
{
    let slug = url_to_slug(url);
    let repo = crate::build_graph::path_join(cache_dir, slug.as_str());
    let c = crate::build_graph::path_join(cache_dir, "checkouts");
    let d = crate::build_graph::path_join(c.as_str(), slug.as_str());
    (repo, crate::build_graph::path_join(d.as_str(), git_ref))
}

/// What a checkout provides: its `include` directory when it has one,
/// else the checkout itself.
pub fn scan_checkout(checkout_dir: &str, name: &str, has_include: bool) -> (r: FetchedDep)
    ensures
        r.name@ == name@,
        strs(r.include_dirs@) == seq![
            if has_include {
                crate::build_graph::joined_path(checkout_dir@, "include"@)
            } else {
                checkout_dir@
            },
        ],
        r.lib_dirs@.len() == 0 && r.libs@.len() == 0 && r.frameworks@.len() == 0 && r.defines@.len() == 0,
{
    let dir = if has_include {
        crate::build_graph::path_join(checkout_dir, "include")
    } else {
        checkout_dir.to_string()
    };
    let mut include_dirs: Vec<String> = Vec::new();
    include_dirs.push(dir);
    assert(strs(include_dirs@) =~= seq![include_dirs@[0]@]);
    FetchedDep {
        name: name.to_string(),
        include_dirs,
        lib_dirs: Vec::new(),
        libs: Vec::new(),
        frameworks: Vec::new(),
        defines: Vec::new(),
    }
}
/// The frameworks one line of a `.pc` file names: those of its `Libs:`
/// field.
pub open spec fn line_frameworks(l: Seq<char>) -> Seq<Seq<char>> {
    match strip_prefix(trim(l), "Libs:"@) {
        Some(rest) => frameworks_in(tokens(rest)),
        None => Seq::empty(),
    }
}

pub open spec fn lines_frameworks(ls: Seq<Seq<char>>) -> Seq<Seq<char>>
    decreases ls.len(),
{
    if ls.len() == 0 {
        Seq::empty()
    } else {
        lines_frameworks(ls.drop_last()) + line_frameworks(ls.last())
    }
}

/// The frameworks the `Libs:` lines of the given `.pc` files name, file by
/// file.
pub open spec fn files_frameworks(contents: Seq<Seq<char>>) -> Seq<Seq<char>>
    decreases contents.len(),
{
    if contents.len() == 0 {
        Seq::empty()
    } else {
        files_frameworks(contents.drop_last()) + lines_frameworks(std_lines(contents.last()))
    }
}

fn append_all(v: &mut Vec<String>, xs: Vec<String>)
    ensures
        strs(final(v)@) == strs(old(v)@) + strs(xs@),
{
    let ghost start = strs(v@);
    let mut i: usize = 0;
    while i < xs.len()
        invariant
            i <= xs@.len(),
            strs(v@) == start + strs(xs@).take(i as int),
        decreases xs.len() - i,
    {
        let ghost before = strs(v@);
        v.push(xs[i].clone());
        assert(strs(v@) =~= before.push(xs@[i as int]@));
        assert(strs(xs@).take(i + 1) =~= strs(xs@).take(i as int).push(xs@[i as int]@));
        i += 1;
    }
    assert(strs(xs@).take(xs@.len() as int) =~= strs(xs@));
}

fn content_frameworks(content: &str) -> (r: Vec<String>)
    ensures
        strs(r@) == lines_frameworks(std_lines(content@)),
{
    let lines = lines_std(content);
    let ghost ls = strs(lines@);
    let mut r: Vec<String> = Vec::new();
    let mut i: usize = 0;
    while i < lines.len()
        invariant
            i <= lines@.len(),
            ls == strs(lines@),
            strs(r@) == lines_frameworks(ls.take(i as int)),
        decreases lines.len() - i,
    {
        assert(ls.take(i + 1).drop_last() =~= ls.take(i as int));
        assert(ls.take(i + 1).last() == lines@[i as int]@);
        let t = str_trim(lines[i].as_str());
        match str_strip_prefix(t.as_str(), "Libs:") {
            Some(rest) => {
                let fws = parse_frameworks(rest.as_str());
                append_all(&mut r, fws);
            },
            None => {
                assert(strs(r@) =~= strs(r@) + Seq::<Seq<char>>::empty());
            },
        }
        i += 1;
    }
    assert(ls.take(lines@.len() as int) =~= ls);
    r
}

/// The frameworks that the `.pc` files of an installed package ask to
/// link, sorted and each once.
pub fn pc_frameworks(contents: &Vec<String>) -> (r: Vec<String>)
    ensures
        crate::strmap::sorted(strs(r@)),
        strs(r@).to_set() == files_frameworks(strs(contents@)).to_set(),
{
    let mut all: Vec<String> = Vec::new();
    let mut k: usize = 0;
    while k < contents.len()
        invariant
            k <= contents@.len(),
            strs(all@) == files_frameworks(strs(contents@).take(k as int)),
        decreases contents.len() - k,
    {
        assert(strs(contents@).take(k + 1).drop_last() =~= strs(contents@).take(k as int));
        assert(strs(contents@).take(k + 1).last() == contents@[k as int]@);
        let fws = content_frameworks(contents[k].as_str());
        append_all(&mut all, fws);
        k += 1;
    }
    assert(strs(contents@).take(contents@.len() as int) =~= strs(contents@));
    crate::strmap::sorted_unique(&all)
}

/// What a package installed by vcpkg provides: its `include` and `lib`
/// directories where they exist, the libraries in `lib` (as
/// `library_artifacts` names them) and the frameworks its `.pc` files ask
/// for. An installed package with neither headers nor libraries is an
/// error.
pub fn vcpkg_installed_dep(
    name: &str,
    installed: &str,
    include_exists: bool,
    lib_exists: bool,
    lib_files: &Vec<String>,
    pc_contents: &Vec<String>,
) -> (r: Result<FetchedDep, String>)
    ensures
        ({
            let libs_found = lib_exists && crate::build_plan::artifact_names(strs(lib_files@)).len() > 0;
            &&& (!include_exists && !libs_found) ==> (r is Err && r->Err_0@ == "vcpkg: package '"@ + name@
                + "' installed but no headers or libraries found at "@ + installed@
                + "\n  help: the package may use a different name — check `vcpkg list`"@)
            &&& (include_exists || libs_found) ==> (r matches Ok(d) && d.name@ == name@
                && strs(d.include_dirs@) == (if include_exists {
                    seq![joined_path(installed@, "include"@)]
                } else {
                    Seq::empty()
                }) && strs(d.lib_dirs@) == (if lib_exists {
                    seq![joined_path(installed@, "lib"@)]
                } else {
                    Seq::empty()
                }) && crate::strmap::sorted(strs(d.libs@)) && strs(d.libs@).to_set() == (if lib_exists {
                    crate::build_plan::artifact_names(strs(lib_files@))
                } else {
                    Set::empty()
                }) && crate::strmap::sorted(strs(d.frameworks@)) && strs(d.frameworks@).to_set()
                == files_frameworks(strs(pc_contents@)).to_set() && d.defines@.len() == 0)
        }),
{
    let include_dir = path_join(installed, "include");
    let lib_dir = path_join(installed, "lib");
    let mut include_dirs: Vec<String> = Vec::new();
    if include_exists {
        include_dirs.push(include_dir);
    }
    let mut lib_dirs: Vec<String> = Vec::new();
    let libs = if lib_exists {
        lib_dirs.push(lib_dir.clone());
        let (_, names) = crate::build_plan::library_artifacts(lib_files, lib_dir.as_str());
        names
    } else {
        Vec::new()
    };
    proof {
        if !lib_exists {
            assert(strs(libs@).to_set() =~= Set::<Seq<char>>::empty());
        }
        assert(strs(libs@).to_set().len() == 0 <==> strs(libs@).len() == 0) by {
            if strs(libs@).len() > 0 {
                assert(strs(libs@).to_set().contains(strs(libs@)[0]));
            }
            strs(libs@).lemma_cardinality_of_set();
        }
    }
    let frameworks = pc_frameworks(pc_contents);
    if include_dirs.len() == 0 && libs.len() == 0 {
        let mut e = "vcpkg: package '".to_string();
        e.append(name);
        e.append("' installed but no headers or libraries found at ");
        e.append(installed);
        e.append("\n  help: the package may use a different name — check `vcpkg list`");
        return Err(e);
    }
    assert(strs(include_dirs@) =~= (if include_exists {
        seq![joined_path(installed@, "include"@)]
    } else {
        Seq::<Seq<char>>::empty()
    }));
    assert(strs(lib_dirs@) =~= (if lib_exists {
        seq![joined_path(installed@, "lib"@)]
    } else {
        Seq::<Seq<char>>::empty()
    }));
    Ok(FetchedDep { name: name.to_string(), include_dirs, lib_dirs, libs, frameworks, defines: Vec::new() })
}

/// The include directories, library directories, libraries and
/// frameworks that the given `.pc` files name, file by file.
pub open spec fn pc_includes(cs: Seq<Seq<char>>) -> Seq<Seq<char>>
    decreases cs.len(),
{
    if cs.len() == 0 {
        Seq::empty()
    } else {
        pc_includes(cs.drop_last()) + pc_lines(std_lines(cs.last())).0
    }
}

pub open spec fn pc_lib_dirs(cs: Seq<Seq<char>>) -> Seq<Seq<char>>
    decreases cs.len(),
{
    if cs.len() == 0 {
        Seq::empty()
    } else {
        pc_lib_dirs(cs.drop_last()) + pc_lines(std_lines(cs.last())).1.lib_dirs
    }
}

pub open spec fn pc_libs(cs: Seq<Seq<char>>) -> Seq<Seq<char>>
    decreases cs.len(),
{
    if cs.len() == 0 {
        Seq::empty()
    } else {
        pc_libs(cs.drop_last()) + pc_lines(std_lines(cs.last())).1.libs
    }
}

pub open spec fn pc_fws(cs: Seq<Seq<char>>) -> Seq<Seq<char>>
    decreases cs.len(),
{
    if cs.len() == 0 {
        Seq::empty()
    } else {
        pc_fws(cs.drop_last()) + pc_lines(std_lines(cs.last())).1.frameworks
    }
}

/// What a package installed by conan provides, from the `.pc` files the
/// install generated for it (`pc_contents`, in the order found): every
/// include directory, library directory, library and framework they name,
/// each list sorted and each entry once. No `.pc` file is an error.
pub fn conan_pc_dep(name: &str, output_dir: &str, pc_contents: &Vec<String>) -> (r: Result<FetchedDep, String>)
    ensures
        pc_contents@.len() == 0 ==> (r is Err && r->Err_0@ == "conan: no .pc files found for '"@ + name@
            + "' in "@ + output_dir@ + "\n  help: the package may not support PkgConfigDeps generator"@),
        pc_contents@.len() > 0 ==> (r matches Ok(d) && d.name@ == name@
            && crate::strmap::sorted(strs(d.include_dirs@))
            && strs(d.include_dirs@).to_set() == pc_includes(strs(pc_contents@)).to_set()
            && crate::strmap::sorted(strs(d.lib_dirs@))
            && strs(d.lib_dirs@).to_set() == pc_lib_dirs(strs(pc_contents@)).to_set()
            && crate::strmap::sorted(strs(d.libs@)) && strs(d.libs@).to_set() == pc_libs(strs(pc_contents@)).to_set()
            && crate::strmap::sorted(strs(d.frameworks@))
            && strs(d.frameworks@).to_set() == pc_fws(strs(pc_contents@)).to_set() && d.defines@.len() == 0),
{
    if pc_contents.len() == 0 {
        let mut e = "conan: no .pc files found for '".to_string();
        e.append(name);
        e.append("' in ");
        e.append(output_dir);
        e.append("\n  help: the package may not support PkgConfigDeps generator");
        return Err(e);
    }
    let mut inc: Vec<String> = Vec::new();
    let mut ld: Vec<String> = Vec::new();
    let mut ls: Vec<String> = Vec::new();
    let mut fw: Vec<String> = Vec::new();
    let ghost cs = strs(pc_contents@);
    let mut k: usize = 0;
    assert(strs(inc@) =~= Seq::<Seq<char>>::empty());
    assert(strs(ld@) =~= Seq::<Seq<char>>::empty());
    assert(strs(ls@) =~= Seq::<Seq<char>>::empty());
    assert(strs(fw@) =~= Seq::<Seq<char>>::empty());
    while k < pc_contents.len()
        invariant
            k <= pc_contents@.len(),
            cs == strs(pc_contents@),
            strs(inc@) == pc_includes(cs.take(k as int)),
            strs(ld@) == pc_lib_dirs(cs.take(k as int)),
            strs(ls@) == pc_libs(cs.take(k as int)),
            strs(fw@) == pc_fws(cs.take(k as int)),
        decreases pc_contents.len() - k,
    {
        assert(cs.take(k + 1).drop_last() =~= cs.take(k as int));
        assert(cs.take(k + 1).last() == pc_contents@[k as int]@);
        parse_pc_content(pc_contents[k].as_str(), &mut inc, &mut ld, &mut ls, &mut fw);
        k += 1;
    }
    assert(cs.take(pc_contents@.len() as int) =~= cs);
    Ok(FetchedDep {
        name: name.to_string(),
        include_dirs: crate::strmap::sorted_unique(&inc),
        lib_dirs: crate::strmap::sorted_unique(&ld),
        libs: crate::strmap::sorted_unique(&ls),
        frameworks: crate::strmap::sorted_unique(&fw),
        defines: Vec::new(),
    })
}

/// A package of a tool that installs what is asked (clib, NuGet): found
/// when the tool runs, as the version asked or `latest`.
pub open spec fn cli_resolved(d: ResolvedDep, name: Seq<char>, version: Option<Seq<char>>, source: Seq<char>) -> bool {
    &&& d.name@ == name
    &&& d.version@ == (match version {
        Some(v) => v,
        None => "latest"@,
    })
    &&& d.source@ == source
    &&& d.checksum is None
}

fn cli_resolve(name: &str, version: Option<&str>, source: &str) -> (r: ResolvedDep)
    ensures
        cli_resolved(
            r,
            name@,
            match version {
                Some(v) => Some(v@),
                None => None,
            },
            source@,
        ),
{
    ResolvedDep {
        name: name.to_string(),
        version: match version {
            Some(v) => v.to_string(),
            None => "latest".to_string(),
        },
        source: source.to_string(),
        checksum: None,
    }
}

/// clib: `cli_ok` tells whether `clib --version` ran and succeeded.
pub fn clib_resolve(name: &str, version: Option<&str>, cli_ok: bool) -> (r: Result<ResolvedDep, String>)
    ensures
        !cli_ok ==> (r is Err && r->Err_0@
            == "clib: clib is not installed\n  help: install from https://github.com/clibs/clib"@),
        cli_ok ==> (r matches Ok(d) && cli_resolved(
            d,
            name@,
            match version {
                Some(v) => Some(v@),
                None => None,
            },
            "clib"@,
        )),
{
    if !cli_ok {
        return Err("clib: clib is not installed\n  help: install from https://github.com/clibs/clib".to_string());
    }
    Ok(cli_resolve(name, version, "clib"))
}

/// The arguments of `clib install`: the package (`name@version` unless the
/// version is `latest`), into `deps`.
pub fn clib_install_args(dep: &ResolvedDep) -> (r: Vec<String>)
    ensures
        strs(r@) == seq![
            "install"@,
            if dep.version@ == "latest"@ {
                dep.name@
            } else {
                dep.name@ + "@"@ + dep.version@
            },
            "-o"@,
            "deps"@,
        ],
{
    let spec = if str_eq(dep.version.as_str(), "latest") {
        dep.name.clone()
    } else {
        let mut s = dep.name.clone();
        s.append("@");
        s.append(dep.version.as_str());
        s
    };
    let r = vec!["install".to_string(), spec, "-o".to_string(), "deps".to_string()];
    assert(strs(r@) =~= seq![
        "install"@,
        if dep.version@ == "latest"@ {
            dep.name@
        } else {
            dep.name@ + "@"@ + dep.version@
        },
        "-o"@,
        "deps"@,
    ]);
    r
}

/// The error of a failed install by a package tool (`clib`, `nuget`).
pub fn install_failure(tool: &str, name: &str, stderr: &str) -> (r: String)
    ensures
        r@ == tool@ + ": failed to install '"@ + name@ + "'\n  "@ + stderr@,
{
    let mut r = tool.to_string();
    r.append(": failed to install '");
    r.append(name);
    r.append("'\n  ");
    r.append(stderr);
    r
}

/// The directory (under `deps`) clib installs a package into: the last
/// `/`-separated part of its name.
pub fn clib_package_dir(name: &str) -> (r: String)
    ensures
        r@ == last_segment(name@),
{
    let v = chars_of(name);
    match crate::text::rfind_char(&v, '/') {
        Some(k) => string_of(&v, k + 1, v.len()),
        None => {
            assert(v@.subrange(0, v@.len() as int) =~= v@);
            string_of(&v, 0, v.len())
        },
    }
}

/// What a clib package provides: its directory and its `include`
/// directory, each where it exists.
pub fn clib_fetched(name: &str, pkg_dir: &str, pkg_exists: bool, include_exists: bool) -> (r: FetchedDep)
    ensures
        r.name@ == name@,
        strs(r.include_dirs@) == (if pkg_exists {
            seq![pkg_dir@]
        } else {
            Seq::empty()
        }) + (if include_exists {
            seq![joined_path(pkg_dir@, "include"@)]
        } else {
            Seq::empty()
        }),
        r.lib_dirs@.len() == 0 && r.libs@.len() == 0 && r.frameworks@.len() == 0 && r.defines@.len() == 0,
{
    let mut include_dirs: Vec<String> = Vec::new();
    if pkg_exists {
        include_dirs.push(pkg_dir.to_string());
    }
    if include_exists {
        include_dirs.push(path_join(pkg_dir, "include"));
    }
    proof {
        let a: Seq<Seq<char>> = if pkg_exists {
            seq![pkg_dir@]
        } else {
            Seq::empty()
        };
        let b: Seq<Seq<char>> = if include_exists {
            seq![joined_path(pkg_dir@, "include"@)]
        } else {
            Seq::empty()
        };
        assert(strs(include_dirs@) =~= a + b);
    }
    FetchedDep {
        name: name.to_string(),
        include_dirs,
        lib_dirs: Vec::new(),
        libs: Vec::new(),
        frameworks: Vec::new(),
        defines: Vec::new(),
    }
}

/// NuGet: `cli_ok` tells whether `nuget help` ran and succeeded.
pub fn nuget_resolve(name: &str, version: Option<&str>, cli_ok: bool) -> (r: Result<ResolvedDep, String>)
    ensures
        !cli_ok ==> (r is Err && r->Err_0@
            == "nuget: nuget CLI is not installed\n  help: install from https://www.nuget.org/downloads"@),
        cli_ok ==> (r matches Ok(d) && cli_resolved(
            d,
            name@,
            match version {
                Some(v) => Some(v@),
                None => None,
            },
            "nuget"@,
        )),
{
    if !cli_ok {
        return Err("nuget: nuget CLI is not installed\n  help: install from https://www.nuget.org/downloads".to_string());
    }
    Ok(cli_resolve(name, version, "nuget"))
}

/// The arguments of `nuget install`: into `packages`, with the version
/// unless it is `latest`.
pub fn nuget_install_args(dep: &ResolvedDep) -> (r: Vec<String>)
    ensures
        strs(r@) == seq!["install"@, dep.name@, "-OutputDirectory"@, "packages"@] + (if dep.version@ == "latest"@ {
            Seq::empty()
        } else {
            seq!["-Version"@, dep.version@]
        }),
{
    let mut r = vec!["install".to_string(), dep.name.clone(), "-OutputDirectory".to_string(), "packages".to_string()];
    if !str_eq(dep.version.as_str(), "latest") {
        r.push("-Version".to_string());
        r.push(dep.version.clone());
    }
    assert(strs(r@) =~= seq!["install"@, dep.name@, "-OutputDirectory"@, "packages"@] + (if dep.version@
        == "latest"@ {
        Seq::<Seq<char>>::empty()
    } else {
        seq!["-Version"@, dep.version@]
    }));
    r
}

/// A directory of the NuGet `packages` directory that holds the package
/// (named `<name>.<version>`): it starts with the name, in any case.
pub open spec fn nuget_dir_for(dir_name: Seq<char>, name: Seq<char>) -> bool {
    starts_with(dir_name, name) || starts_with(crate::arsenal::lowercase(dir_name), crate::arsenal::lowercase(name))
}

pub fn nuget_dir_matches(dir_name: &str, name: &str) -> (b: bool)
    ensures
        b == nuget_dir_for(dir_name@, name@),
{
    if str_starts_with(dir_name, name) {
        return true;
    }
    let d = crate::arsenal::to_lowercase(dir_name);
    let n = crate::arsenal::to_lowercase(name);
    str_starts_with(d.as_str(), n.as_str())
}

/// Where a NuGet package keeps its native libraries (x64), under its
/// directory.
pub fn nuget_lib_subdirs() -> (r: Vec<String>)
    ensures
        strs(r@) == seq!["build/native/lib/x64"@, "lib/native/x64"@, "runtimes/win-x64/native"@],
{
    let r = vec!["build/native/lib/x64".to_string(), "lib/native/x64".to_string(), "runtimes/win-x64/native".to_string()];
    assert(strs(r@) =~= seq!["build/native/lib/x64"@, "lib/native/x64"@, "runtimes/win-x64/native"@]);
    r
}

/// The library a `.lib` file name stands for, when it is one.
pub open spec fn dot_lib_name(f: Seq<char>) -> Option<Seq<char>> {
    if ends_with(f, ".lib"@) && f.len() > 4 {
        Some(f.subrange(0, f.len() - 4))
    } else {
        None
    }
}

/// `libs`, then each library of the file names `files` (`x.lib`) that is
/// not yet listed.
pub open spec fn add_dot_libs(libs: Seq<Seq<char>>, files: Seq<Seq<char>>) -> Seq<Seq<char>>
    decreases files.len(),
{
    if files.len() == 0 {
        libs
    } else {
        let before = add_dot_libs(libs, files.drop_last());
        match dot_lib_name(files.last()) {
            Some(n) => if before.contains(n) {
                before
            } else {
                before.push(n)
            },
            None => before,
        }
    }
}

/// Adds the libraries of a NuGet library directory (its file names) that
/// are not yet in `libs`.
pub fn add_nuget_lib_names(libs: &mut Vec<String>, files: &Vec<String>)
    ensures
        strs(final(libs)@) == add_dot_libs(strs(old(libs)@), strs(files@)),
{
    let ghost start = strs(libs@);
    let mut i: usize = 0;
    while i < files.len()
        invariant
            i <= files@.len(),
            strs(libs@) == add_dot_libs(start, strs(files@).take(i as int)),
        decreases files.len() - i,
    {
        assert(strs(files@).take(i + 1).drop_last() =~= strs(files@).take(i as int));
        assert(strs(files@).take(i + 1).last() == files@[i as int]@);
        let f = files[i].as_str();
        if str_ends_with(f, ".lib") && f.unicode_len() > 4 {
            let v = chars_of(f);
            let n = string_of(&v, 0, v.len() - 4);
            if !crate::text::contains_str(libs, n.as_str()) {
                let ghost before = strs(libs@);
                libs.push(n);
                assert(strs(libs@) =~= before.push(n@));
            }
        }
        i += 1;
    }
    assert(strs(files@).take(files@.len() as int) =~= strs(files@));
}

/// The libraries of a NuGet package: those found, else the package's own
/// name.
pub fn libs_or_name(libs: Vec<String>, name: &str) -> (r: Vec<String>)
    ensures
        libs@.len() > 0 ==> strs(r@) == strs(libs@),
        libs@.len() == 0 ==> strs(r@) == seq![name@],
{
    if libs.len() > 0 {
        libs
    } else {
        let r = vec![name.to_string()];
        assert(strs(r@) =~= seq![name@]);
        r
    }
}

/// Whether conan can be used: `ran` tells whether `conan --version`
/// started, `ok` whether it succeeded.
pub fn conan_detect_failure(ran: bool, ok: bool) -> (r: Option<String>)
    ensures
        !ran ==> (r matches Some(e) && e@
            == "conan: command not found\n  help: install Conan 2.x — https://conan.io/downloads"@),
        ran && !ok ==> (r matches Some(e) && e@
            == "conan not found or not working\n  help: install Conan 2.x — https://conan.io/downloads"@),
        ran && ok ==> r is None,
{
    if !ran {
        Some("conan: command not found\n  help: install Conan 2.x — https://conan.io/downloads".to_string())
    } else if !ok {
        Some("conan not found or not working\n  help: install Conan 2.x — https://conan.io/downloads".to_string())
    } else {
        None
    }
}

/// A default profile exists (`conan profile path default` succeeded) or
/// was just detected (`conan profile detect`, run only when it did not).
pub fn conan_profile_outcome(path_ok: bool, detect_ok: bool) -> (r: Result<(), String>)
    ensures
        (path_ok || detect_ok) <==> r is Ok,
        r matches Err(e) ==> e@ == "conan: failed to create default profile\n  help: run `conan profile detect` manually"@,
{
    if path_ok || detect_ok {
        Ok(())
    } else {
        Err("conan: failed to create default profile\n  help: run `conan profile detect` manually".to_string())
    }
}

/// Where conan's generated files go, under the project.
pub fn conan_output_dir() -> (r: String)
    ensures
        r@ == joined_path("target"@, "conan"@),
{
    path_join("target", "conan")
}

/// The arguments of `conan install` for the conanfile in `conanfile_dir`.
pub fn conan_install_args(conanfile_dir: &str, output_dir: &str) -> (r: Vec<String>)
    ensures
        strs(r@) == seq![
            "install"@,
            conanfile_dir@,
            "--output-folder"@,
            output_dir@,
            "--generator"@,
            "PkgConfigDeps"@,
            "--build=missing"@,
        ],
{
    let r = vec![
        "install".to_string(),
        conanfile_dir.to_string(),
        "--output-folder".to_string(),
        output_dir.to_string(),
        "--generator".to_string(),
        "PkgConfigDeps".to_string(),
        "--build=missing".to_string(),
    ];
    assert(strs(r@) =~= seq![
        "install"@,
        conanfile_dir@,
        "--output-folder"@,
        output_dir@,
        "--generator"@,
        "PkgConfigDeps"@,
        "--build=missing"@,
    ]);
    r
}

/// The error of a failed `conan install`: an unknown package when conan
/// says so, else conan's own words.
pub fn conan_install_failure(name: &str, stderr: &str) -> (r: String)
    ensures
        (contains_sub(stderr@, "not found"@) || contains_sub(stderr@, "ERROR: Package"@)) ==> r@ == "conan: package '"@
            + name@ + "' not found\n  help: run `conan search '"@ + name@ + "'` to check available packages"@,
        !(contains_sub(stderr@, "not found"@) || contains_sub(stderr@, "ERROR: Package"@)) ==> r@
            == "conan install failed for '"@ + name@ + "':\n"@ + stderr@ + "\n  help: check conan output for details"@,
{
    let mut r = String::new();
    if str_contains(stderr, "not found") || str_contains(stderr, "ERROR: Package") {
        r.append("conan: package '");
        r.append(name);
        r.append("' not found\n  help: run `conan search '");
        r.append(name);
        r.append("'` to check available packages");
    } else {
        r.append("conan install failed for '");
        r.append(name);
        r.append("':\n");
        r.append(stderr);
        r.append("\n  help: check conan output for details");
    }
    r
}

/// The version conan installed: the first `Version:` any of the package's
/// `.pc` files declares, else `unknown`.
pub open spec fn conan_version_in(contents: Seq<Seq<char>>) -> Seq<char>
    decreases contents.len(),
{
    if contents.len() == 0 {
        "unknown"@
    } else {
        match pc_version_in(std_lines(contents[0])) {
            Some(v) => v,
            None => conan_version_in(contents.drop_first()),
        }
    }
}

pub fn conan_query_version(pc_contents: &Vec<String>) -> (r: String)
    ensures
        r@ == conan_version_in(strs(pc_contents@)),
{
    let ghost cs = strs(pc_contents@);
    let mut i: usize = 0;
    assert(cs.skip(0) =~= cs);
    while i < pc_contents.len()
        invariant
            i <= pc_contents@.len(),
            cs == strs(pc_contents@),
            conan_version_in(cs) == conan_version_in(cs.skip(i as int)),
        decreases pc_contents.len() - i,
    {
        assert(cs.skip(i as int)[0] == pc_contents@[i as int]@);
        assert(cs.skip(i as int).drop_first() =~= cs.skip(i + 1));
        match pc_version(pc_contents[i].as_str()) {
            Some(v) => {
                return v;
            },
            None => {},
        }
        i += 1;
    }
    "unknown".to_string()
}

/// Where vcpkg is taken from.
#[derive(Debug)]
pub enum VcpkgRoot {
    /// This root has the vcpkg binary.
    Use(String),
    /// Clone and bootstrap vcpkg into this (ordo-managed) root first.
    Bootstrap(String),
    /// `VCPKG_ROOT` names a directory without vcpkg.
    Fail(String),
}

/// The root chosen: one given to the provider; else `VCPKG_ROOT` (which
/// must hold the binary); else the managed root under ordo's cache, which
/// is bootstrapped when it has no binary yet.
pub fn vcpkg_root_choice(
    root_override: Option<&str>,
    env_root: Option<&str>,
    env_has_binary: bool,
    managed_root: &str,
    managed_has_binary: bool,
) -> (r: VcpkgRoot)
    ensures
        root_override matches Some(o) ==> (r matches VcpkgRoot::Use(x) && x@ == o@),
        root_override is None && env_root is Some && env_has_binary ==> (r matches VcpkgRoot::Use(x) && x@
            == env_root->Some_0@),
        root_override is None && env_root is Some && !env_has_binary ==> (r matches VcpkgRoot::Fail(e) && e@
            == "VCPKG_ROOT is set to '"@ + env_root->Some_0@
            + "' but vcpkg binary not found there\n  help: run the bootstrap script inside that directory, or unset VCPKG_ROOT to let Ordo manage vcpkg"@),
        root_override is None && env_root is None && managed_has_binary ==> (r matches VcpkgRoot::Use(x) && x@
            == managed_root@),
        root_override is None && env_root is None && !managed_has_binary ==> (r matches VcpkgRoot::Bootstrap(x)
            && x@ == managed_root@),
{
    if let Some(o) = root_override {
        return VcpkgRoot::Use(o.to_string());
    }
    if let Some(e) = env_root {
        if env_has_binary {
            return VcpkgRoot::Use(e.to_string());
        }
        let mut msg = "VCPKG_ROOT is set to '".to_string();
        msg.append(e);
        msg.append("' but vcpkg binary not found there\n  help: run the bootstrap script inside that directory, or unset VCPKG_ROOT to let Ordo manage vcpkg");
        return VcpkgRoot::Fail(msg);
    }
    if managed_has_binary {
        VcpkgRoot::Use(managed_root.to_string())
    } else {
        VcpkgRoot::Bootstrap(managed_root.to_string())
    }
}

/// The vcpkg binary under a root.
pub fn vcpkg_exe(root: &str, windows: bool) -> (r: String)
    ensures
        r@ == joined_path(root@, if windows { "vcpkg.exe"@ } else { "vcpkg"@ }),
{
    path_join(root, if windows { "vcpkg.exe" } else { "vcpkg" })
}

/// The commands that bootstrap vcpkg into `dest`: a shallow clone, then
/// the bootstrap script for the platform (run in `dest`).
pub fn vcpkg_bootstrap_plan(dest: &str, windows: bool) -> (r: (Vec<String>, String))
    ensures
        strs(r.0@) == seq!["clone"@, "--depth"@, "1"@, "https://github.com/microsoft/vcpkg.git"@, dest@],
        r.1@ == joined_path(dest@, if windows { "bootstrap-vcpkg.bat"@ } else { "bootstrap-vcpkg.sh"@ }),
{
    let clone = vec![
        "clone".to_string(),
        "--depth".to_string(),
        "1".to_string(),
        "https://github.com/microsoft/vcpkg.git".to_string(),
        dest.to_string(),
    ];
    assert(strs(clone@) =~= seq!["clone"@, "--depth"@, "1"@, "https://github.com/microsoft/vcpkg.git"@, dest@]);
    (clone, path_join(dest, if windows { "bootstrap-vcpkg.bat" } else { "bootstrap-vcpkg.sh" }))
}

} // verus!
