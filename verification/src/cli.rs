//! Command-line vocabulary: the options and subcommands that `ordo`
//! accepts, and the small decisions taken on them.
use vstd::prelude::*;
use crate::strmap::{sorted, StrMap};
use crate::text::{chars_of, find_char, first_index, last_index, rfind_char, str_eq, string_of, strs};

verus! {

/// When to color output.
#[derive(Debug, Clone, Copy, PartialEq, Eq, Structural)]
pub enum ColorMode {
    Auto,
    Always,
    Never,
}

/// CLI output style.
#[derive(Debug, Clone, Copy, PartialEq, Eq, Structural)]
pub enum StyleMode {
    Default,
    Minimal,
    CargoLike,
}

impl StyleMode {
    /// The style used when none is chosen.
    pub fn default_mode() -> (r: Self)
        ensures
            r == StyleMode::Default,
    {
        StyleMode::Default
    }

    /// The names a manifest or the command line gives the styles.
    pub fn from_name(s: &str) -> (r: Option<Self>)
        ensures
            r == style_from_name(s@),
    {
        if crate::text::str_eq(s, "default") {
            Some(StyleMode::Default)
        } else if crate::text::str_eq(s, "minimal") {
            Some(StyleMode::Minimal)
        } else if crate::text::str_eq(s, "cargo-like") {
            Some(StyleMode::CargoLike)
        } else {
            None
        }
    }
}

pub open spec fn style_from_name(s: Seq<char>) -> Option<StyleMode> {
    if s == "default"@ {
        Some(StyleMode::Default)
    } else if s == "minimal"@ {
        Some(StyleMode::Minimal)
    } else if s == "cargo-like"@ {
        Some(StyleMode::CargoLike)
    } else {
        None
    }
}

/// Language of a new project.
#[derive(Debug, Clone, Copy, PartialEq, Eq, Structural)]
pub enum ProjectLang {
    C,
    Cpp,
}

/// The command line: a subcommand and the options every subcommand takes.
#[derive(Debug, Clone)]
pub struct Cli {
    pub command: Command,
    pub color: ColorMode,
    pub verbose: u8,
    pub style: StyleMode,
}

/// The subcommands.
#[derive(Debug, Clone)]
pub enum Command {
    New { name: Option<String>, lib: bool, lang: Option<ProjectLang>, no_git: bool },
    Init,
    Build {
        release: bool,
        profile: Option<String>,
        jobs: Option<u32>,
        target: Option<String>,
        no_cache: bool,
        features: Vec<String>,
        no_default_features: bool,
        all_features: bool,
        locked: bool,
        frozen: bool,
        package: Option<String>,
    },
    Run {
        args: Vec<String>,
        release: bool,
        package: Option<String>,
        features: Vec<String>,
        no_default_features: bool,
        all_features: bool,
    },
    Test {
        filter: Option<String>,
        jobs: Option<u32>,
        release: bool,
        profile: Option<String>,
        features: Vec<String>,
        no_default_features: bool,
        all_features: bool,
        package: Option<String>,
    },
    Check,
    Clean { cache: bool, package: Option<String> },
    Fmt { check: bool },
    Lint { fix: bool },
    Watch { command: WatchCommand, notify: bool },
    Add {
        specs: Vec<String>,
        provider: Option<String>,
        skip_verification: bool,
        with: Option<String>,
        alias: Option<String>,
        link_name: Option<Vec<String>>,
    },
    Update { name: Option<String> },
    Tree { package: Option<String> },
    Install { prefix: Option<String> },
    Package,
    Publish,
    Import { source: ImportSource },
    Generate { target: GenerateTarget },
    Toolchain { command: ToolchainCommand },
    Ci { keep_going: bool },
    Doctor,
    Config { command: ConfigCommand },
    RunScript { name: String },
    SelfCmd { command: SelfCommand },
}

/// What `ordo watch` reruns.
#[derive(Debug, Clone, Copy, PartialEq, Eq, Structural)]
pub enum WatchCommand {
    Build,
    Test,
    Run,
}

/// What `ordo import` reads.
#[derive(Debug, Clone, Copy, PartialEq, Eq, Structural)]
pub enum ImportSource {
    Cmake,
}

/// What `ordo generate` writes.
#[derive(Debug, Clone, Copy, PartialEq, Eq, Structural)]
pub enum GenerateTarget {
    Cmake,
    Presets,
    Vscode,
    Clion,
    Clangd,
    GithubActions,
    GitlabCi,
}

/// `ordo toolchain` subcommands.
#[derive(Debug, Clone, Copy, PartialEq, Eq, Structural)]
pub enum ToolchainCommand {
    List,
    Install,
}

/// `ordo config` subcommands.
#[derive(Debug, Clone, Copy, PartialEq, Eq, Structural)]
pub enum ConfigCommand {
    Show { origin: bool },
}

/// `ordo self` subcommands.
#[derive(Debug, Clone)]
pub enum SelfCommand {
    Update { version: Option<String> },
}

/// How output is presented.
#[derive(Debug, Clone, Copy)]
pub struct Context {
    pub style: StyleMode,
    pub verbose: u8,
    pub color: ColorMode,
}

impl Context {
    /// A style chosen on the command line wins; otherwise the manifest's
    /// `[cli] style` (of the manifest in the current directory, if any);
    /// otherwise the default style.
    pub fn resolve(
        cli_style: StyleMode,
        cli_verbose: u8,
        cli_color: ColorMode,
        manifest_style: Option<StyleMode>,
    ) -> (r: Self)
        ensures
            r.style == (if cli_style != StyleMode::Default {
                cli_style
            } else {
                match manifest_style {
                    Some(s) => s,
                    None => StyleMode::Default,
                }
            }),
            r.verbose == cli_verbose,
            r.color == cli_color,
    {
        let style = if cli_style != StyleMode::Default {
            cli_style
        } else {
            match manifest_style {
                Some(s) => s,
                None => StyleMode::Default,
            }
        };
        Context { style, verbose: cli_verbose, color: cli_color }
    }

    /// The default style, quiet, automatic color.
    pub fn default_for_test() -> (r: Self)
        ensures
            r.style == StyleMode::Default && r.verbose == 0 && r.color == ColorMode::Auto,
    {
        Context { style: StyleMode::Default, verbose: 0, color: ColorMode::Auto }
    }
}

/// A dependency as `ordo add` takes it: `[provider:]name[@version]`.
#[derive(Debug, Clone)]
pub struct ParsedSpec {
    pub provider: Option<String>,
    pub name: String,
    pub version: Option<String>,
}

/// `s` split at its first `c`.
pub open spec fn split_first(s: Seq<char>, c: char) -> Option<(Seq<char>, Seq<char>)> {
    match first_index(s, c) {
        Some(k) => Some((s.subrange(0, k), s.subrange(k + 1, s.len() as int))),
        None => None,
    }
}

/// The parts of a dependency spec: the provider before the first `:`,
/// then the name and the version around the first `@` that follows.
pub open spec fn spec_parts(spec: Seq<char>) -> (Option<Seq<char>>, Seq<char>, Option<Seq<char>>) {
    let (provider, rest) = match split_first(spec, ':') {
        Some(p) => (Some(p.0), p.1),
        None => (None, spec),
    };
    match split_first(rest, '@') {
        Some(p) => (provider, p.0, Some(p.1)),
        None => (provider, rest, None),
    }
}

fn split_at_first(s: &str, c: char) -> (r: Option<(String, String)>)
    ensures
        match r {
            Some(p) => split_first(s@, c) == Some((p.0@, p.1@)),
            None => split_first(s@, c) is None,
        },
{
    let v = chars_of(s);
    match find_char(&v, c) {
        Some(k) => Some((string_of(&v, 0, k), string_of(&v, k + 1, v.len()))),
        None => None,
    }
}

pub fn parse_spec(spec: &str) -> (r: ParsedSpec)
    ensures
        ({
            let (p, n, v) = spec_parts(spec@);
            &&& match r.provider {
                Some(x) => p == Some(x@),
                None => p is None,
            }
            &&& r.name@ == n
            &&& match r.version {
                Some(x) => v == Some(x@),
                None => v is None,
            }
        }),
{
    let (provider, rest) = match split_at_first(spec, ':') {
        Some((p, r)) => (Some(p), r),
        None => (None, spec.to_string()),
    };
    let (name, version) = match split_at_first(rest.as_str(), '@') {
        Some((n, v)) => (n, Some(v)),
        None => (rest.clone(), None),
    };
    ParsedSpec { provider, name, version }
}

/// The repository name of a git dependency: the last path segment,
/// without trailing `.git`s.
pub open spec fn repo_name(spec: Seq<char>) -> Seq<char> {
    crate::providers::trim_git(crate::providers::last_segment(spec))
}

pub fn git_repo_name(spec: &str) -> (r: String)
    ensures
        r@ == repo_name(spec@),
{
    let v = chars_of(spec);
    let start = match rfind_char(&v, '/') {
        Some(k) => k + 1,
        None => 0,
    };
    let mut end = v.len();
    let ghost seg = crate::providers::last_segment(spec@);
    assert(seg =~= v@.subrange(start as int, v@.len() as int));
    while end - start >= 4 && v[end - 4] == '.' && v[end - 3] == 'g' && v[end - 2] == 'i' && v[end - 1] == 't'
        invariant
            start <= end <= v.len(),
            crate::providers::trim_git(seg) == crate::providers::trim_git(v@.subrange(start as int, end as int)),
        decreases end,
    {
        assert(v@.subrange(start as int, end as int).subrange(0, end - start - 4) =~= v@.subrange(
            start as int,
            end - 4,
        ));
        end -= 4;
    }
    string_of(&v, start, end)
}

/// One locked package.
#[derive(Debug, Clone)]
pub struct LockedPackage {
    pub name: String,
    pub version: String,
    pub source: String,
    pub checksum: Option<String>,
}

/// The lock file: the exact packages a build used.
#[derive(Debug, Clone)]
pub struct LockFile {
    pub version: u32,
    pub packages: Vec<LockedPackage>,
}

/// A difference between two lock files.
#[derive(Debug, Clone)]
pub enum Change {
    Added { name: String, version: String },
    Removed { name: String, version: String },
    Updated { name: String, old_version: String, new_version: String },
}

/// A change, by the contents of its strings.
pub enum ChangeView {
    Added(Seq<char>, Seq<char>),
    Removed(Seq<char>, Seq<char>),
    Updated(Seq<char>, Seq<char>, Seq<char>),
}

pub open spec fn change_view(c: Change) -> ChangeView {
    match c {
        Change::Added { name, version } => ChangeView::Added(name@, version@),
        Change::Removed { name, version } => ChangeView::Removed(name@, version@),
        Change::Updated { name, old_version, new_version } => ChangeView::Updated(
            name@,
            old_version@,
            new_version@,
        ),
    }
}

/// The version a lock file gives `name`: that of the last package so named.
pub open spec fn locked_version(pkgs: Seq<LockedPackage>, name: Seq<char>) -> Option<Seq<char>>
    decreases pkgs.len(),
{
    if pkgs.len() == 0 {
        None
    } else if pkgs.last().name@ == name {
        Some(pkgs.last().version@)
    } else {
        locked_version(pkgs.drop_last(), name)
    }
}

/// What the packages of the new lock file (in name order, kept to
/// `filter` when there is one) add or update.
pub open spec fn added_or_updated(
    names: Seq<Seq<char>>,
    new: Seq<LockedPackage>,
    old: Seq<LockedPackage>,
    filter: Option<Seq<char>>,
) -> Seq<ChangeView>
    decreases names.len(),
{
    if names.len() == 0 {
        Seq::empty()
    } else {
        let r = added_or_updated(names.drop_last(), new, old, filter);
        let n = names.last();
        if filter is Some && n != filter->0 {
            r
        } else {
            let nv = locked_version(new, n)->0;
            match locked_version(old, n) {
                Some(ov) => if ov != nv {
                    r.push(ChangeView::Updated(n, ov, nv))
                } else {
                    r
                },
                None => r.push(ChangeView::Added(n, nv)),
            }
        }
    }
}

/// What the packages of the old lock file (in name order) that the new one
/// lacks remove.
pub open spec fn removed(names: Seq<Seq<char>>, new: Seq<LockedPackage>, old: Seq<LockedPackage>) -> Seq<
    ChangeView,
>
    decreases names.len(),
{
    if names.len() == 0 {
        Seq::empty()
    } else {
        let r = removed(names.drop_last(), new, old);
        let n = names.last();
        if locked_version(new, n) is None {
            r.push(ChangeView::Removed(n, locked_version(old, n)->0))
        } else {
            r
        }
    }
}

/// The names of a lock file's packages.
pub open spec fn lock_names(pkgs: Seq<LockedPackage>) -> Set<Seq<char>> {
    Set::new(|n: Seq<char>| locked_version(pkgs, n) is Some)
}

/// A lock file's packages as a map from name to version.
fn version_map(pkgs: &Vec<LockedPackage>) -> (m: StrMap<String>)
    ensures
        m.wf(),
        forall|n: Seq<char>|
            #![trigger m.lookup(n)]
            match m.lookup(n) {
                Some(v) => locked_version(pkgs@, n) == Some(v@),
                None => locked_version(pkgs@, n) is None,
            },
{
    let mut m: StrMap<String> = StrMap::new();
    let mut i: usize = 0;
    while i < pkgs.len()
        invariant
            i <= pkgs.len(),
            m.wf(),
            forall|n: Seq<char>|
                #![trigger m.lookup(n)]
                match m.lookup(n) {
                    Some(v) => locked_version(pkgs@.take(i as int), n) == Some(v@),
                    None => locked_version(pkgs@.take(i as int), n) is None,
                },
        decreases pkgs.len() - i,
    {
        let ghost m0 = m;
        let p = &pkgs[i];
        m.insert(p.name.clone(), p.version.clone());
        proof {
            let t = pkgs@.take(i + 1);
            assert(t.drop_last() =~= pkgs@.take(i as int));
            assert(t.last() == *p);
            assert forall|n: Seq<char>| #[trigger] m.lookup(n) == m.lookup(n) implies match m.lookup(n) {
                Some(v) => locked_version(t, n) == Some(v@),
                None => locked_version(t, n) is None,
            } by {
                if n != p.name@ {
                    assert(m.lookup(n) == m0.lookup(n));
                }
            }
        }
        i += 1;
    }
    assert(pkgs@.take(pkgs.len() as int) =~= pkgs@);
    m
}

/// What changed from `old` (when there is one) to `new`: for each package
/// of `new`, in name order (only `filter`, when given), whether it was
/// added or its version changed; then, without a filter, each package of
/// `old` that `new` lacks, in name order.
pub fn diff_locks(old: Option<&LockFile>, new: &LockFile, filter: Option<&str>) -> (r: Vec<Change>)
    ensures
        exists|nk: Seq<Seq<char>>, ok: Seq<Seq<char>>|
            #![trigger sorted(nk), sorted(ok)]
            {
                let oldp = match old {
                    Some(l) => l.packages@,
                    None => Seq::<LockedPackage>::empty(),
                };
                &&& sorted(nk) && nk.to_set() == lock_names(new.packages@)
                &&& sorted(ok) && ok.to_set() == lock_names(oldp)
                &&& r@.map_values(|c: Change| change_view(c)) == added_or_updated(
                    nk,
                    new.packages@,
                    oldp,
                    match filter {
                        Some(f) => Some(f@),
                        None => None,
                    },
                ) + (if filter is None {
                    removed(ok, new.packages@, oldp)
                } else {
                    Seq::empty()
                })
            },
{
    let empty: Vec<LockedPackage> = Vec::new();
    let oldp: &Vec<LockedPackage> = match old {
        Some(l) => &l.packages,
        None => &empty,
    };
    let ghost ov = match old {
        Some(l) => l.packages@,
        None => Seq::<LockedPackage>::empty(),
    };
    assert(oldp@ == ov);
    let old_map = version_map(oldp);
    let new_map = version_map(&new.packages);
    let ghost fv = match filter {
        Some(f) => Some(f@),
        None => None,
    };
    let nkeys = new_map.keys();
    let nvals = new_map.values();
    let ghost nk = new_map.key_list();
    proof {
        new_map.lemma_wf();
        old_map.lemma_wf();
    }
    let mut changes: Vec<Change> = Vec::new();
    let mut i: usize = 0;
    while i < nkeys.len()
        invariant
            i <= nkeys.len(),
            new_map.wf(),
            old_map.wf(),
            strs(nkeys@) == nk,
            nk == new_map.key_list(),
            nvals@ == new_map.value_list(),
            nvals@.len() == nk.len(),
            oldp@ == ov,
            fv == match filter {
                Some(f) => Some(f@),
                None => None,
            },
            forall|n: Seq<char>|
                #![trigger new_map.lookup(n)]
                match new_map.lookup(n) {
                    Some(v) => locked_version(new.packages@, n) == Some(v@),
                    None => locked_version(new.packages@, n) is None,
                },
            forall|n: Seq<char>|
                #![trigger old_map.lookup(n)]
                match old_map.lookup(n) {
                    Some(v) => locked_version(ov, n) == Some(v@),
                    None => locked_version(ov, n) is None,
                },
            changes@.map_values(|c: Change| change_view(c)) == added_or_updated(nk.take(i as int), new.packages@, ov, fv),
        decreases nkeys.len() - i,
    {
        let name = nkeys[i].as_str();
        let ghost n = name@;
        proof {
            new_map.lemma_lookup_at(i as int);
            assert(nk.take(i + 1).drop_last() =~= nk.take(i as int));
            assert(nk.take(i + 1).last() == n);
            assert(nk[i as int] == n);
        }
        let new_ver = &nvals[i];
        assert(new_map.lookup(n) == Some(*new_ver));
        let ghost c0 = changes@;
        let skip = match filter {
            Some(f) => !str_eq(name, f),
            None => false,
        };
        if !skip {
            match old_map.get(name) {
                Some(old_ver) => {
                    if !str_eq(old_ver.as_str(), new_ver.as_str()) {
                        changes.push(
                            Change::Updated {
                                name: name.to_string(),
                                old_version: old_ver.clone(),
                                new_version: new_ver.clone(),
                            },
                        );
                        assert(changes@.map_values(|c: Change| change_view(c)) =~= c0.map_values(
                            |c: Change| change_view(c),
                        ).push(ChangeView::Updated(n, old_ver@, new_ver@)));
                    }
                },
                None => {
                    changes.push(Change::Added { name: name.to_string(), version: new_ver.clone() });
                    assert(changes@.map_values(|c: Change| change_view(c)) =~= c0.map_values(
                        |c: Change| change_view(c),
                    ).push(ChangeView::Added(n, new_ver@)));
                },
            }
        }
        i += 1;
    }
    assert(nk.take(nkeys.len() as int) =~= nk);
    let ghost part1 = changes@.map_values(|c: Change| change_view(c));
    let ghost ok = old_map.key_list();
    if filter.is_none() {
        let okeys = old_map.keys();
        let ovals = old_map.values();
        let mut j: usize = 0;
        while j < okeys.len()
            invariant
                j <= okeys.len(),
                new_map.wf(),
                old_map.wf(),
                strs(okeys@) == ok,
                ok == old_map.key_list(),
                ovals@ == old_map.value_list(),
                ovals@.len() == ok.len(),
                forall|n: Seq<char>|
                    #![trigger new_map.lookup(n)]
                    match new_map.lookup(n) {
                        Some(v) => locked_version(new.packages@, n) == Some(v@),
                        None => locked_version(new.packages@, n) is None,
                    },
                forall|n: Seq<char>|
                    #![trigger old_map.lookup(n)]
                    match old_map.lookup(n) {
                        Some(v) => locked_version(ov, n) == Some(v@),
                        None => locked_version(ov, n) is None,
                    },
                changes@.map_values(|c: Change| change_view(c)) == part1 + removed(ok.take(j as int), new.packages@, ov),
            decreases okeys.len() - j,
        {
            let name = okeys[j].as_str();
            let ghost n = name@;
            proof {
                old_map.lemma_lookup_at(j as int);
                assert(ok.take(j + 1).drop_last() =~= ok.take(j as int));
                assert(ok.take(j + 1).last() == n);
                assert(ok[j as int] == n);
            }
            let old_ver = &ovals[j];
            assert(old_map.lookup(n) == Some(*old_ver));
            let ghost c0 = changes@;
            if !new_map.contains_key(name) {
                changes.push(Change::Removed { name: name.to_string(), version: old_ver.clone() });
                assert(changes@.map_values(|c: Change| change_view(c)) =~= c0.map_values(
                    |c: Change| change_view(c),
                ).push(ChangeView::Removed(n, old_ver@)));
                assert(part1 + removed(ok.take(j + 1), new.packages@, ov) =~= (part1 + removed(
                    ok.take(j as int),
                    new.packages@,
                    ov,
                )).push(ChangeView::Removed(n, old_ver@)));
            }
            j += 1;
        }
        assert(ok.take(okeys.len() as int) =~= ok);
    } else {
        assert(part1 =~= part1 + Seq::<ChangeView>::empty());
    }
    proof {
        assert forall|x: Seq<char>| nk.to_set().contains(x) <==> lock_names(new.packages@).contains(x) by {
            assert(new_map.lookup(x) is Some <==> nk.contains(x));
        }
        assert forall|x: Seq<char>| ok.to_set().contains(x) <==> lock_names(ov).contains(x) by {
            assert(old_map.lookup(x) is Some <==> ok.contains(x));
        }
        assert(nk.to_set() =~= lock_names(new.packages@));
        assert(ok.to_set() =~= lock_names(ov));
        assert(sorted(nk) && sorted(ok));
    }
    changes
}

/// Two name lists in ascending order with the same names are the same:
/// the order `diff_locks` reports in is determined.
pub proof fn lemma_sorted_names_unique(a: Seq<Seq<char>>, b: Seq<Seq<char>>)
    requires
        sorted(a),
        sorted(b),
        a.to_set() == b.to_set(),
    ensures
        a == b,
    decreases a.len(),
{
    crate::strmap::lemma_sorted_no_dup(a);
    crate::strmap::lemma_sorted_no_dup(b);
    a.unique_seq_to_set();
    b.unique_seq_to_set();
    if a.len() > 0 {
        let x = a.last();
        let y = b.last();
        assert(a.to_set().contains(x));
        assert(b.to_set().contains(x));
        assert(a.to_set().contains(y));
        let i = choose|i: int| 0 <= i < b.len() && b[i] == x;
        let j = choose|j: int| 0 <= j < a.len() && a[j] == y;
        if i < b.len() - 1 {
            assert(crate::strmap::lex_lt(b[i], y));
            if j < a.len() - 1 {
                assert(crate::strmap::lex_lt(a[j], x));
                crate::strmap::lemma_lex_asym(x, y);
            } else {
                crate::strmap::lemma_lex_irrefl(x);
            }
        }
        assert(x == y);
        let a1 = a.drop_last();
        let b1 = b.drop_last();
        assert(a1.to_set() =~= a.to_set().remove(x)) by {
            assert forall|z: Seq<char>| a1.to_set().contains(z) <==> a.to_set().remove(x).contains(z) by {
                if a1.to_set().contains(z) {
                    let k = choose|k: int| 0 <= k < a1.len() && a1[k] == z;
                    assert(a[k] == z);
                    assert(crate::strmap::lex_lt(a[k], a[a.len() - 1]));
                    crate::strmap::lemma_lex_irrefl(z);
                }
                if a.to_set().remove(x).contains(z) {
                    let k = choose|k: int| 0 <= k < a.len() && a[k] == z;
                    assert(a1[k] == z);
                }
            }
        }
        assert(b1.to_set() =~= b.to_set().remove(x)) by {
            assert forall|z: Seq<char>| b1.to_set().contains(z) <==> b.to_set().remove(x).contains(z) by {
                if b1.to_set().contains(z) {
                    let k = choose|k: int| 0 <= k < b1.len() && b1[k] == z;
                    assert(b[k] == z);
                    assert(crate::strmap::lex_lt(b[k], b[b.len() - 1]));
                    crate::strmap::lemma_lex_irrefl(z);
                }
                if b.to_set().remove(x).contains(z) {
                    let k = choose|k: int| 0 <= k < b.len() && b[k] == z;
                    assert(b1[k] == z);
                }
            }
        }
        assert(sorted(a1));
        assert(sorted(b1));
        lemma_sorted_names_unique(a1, b1);
        assert(a =~= a1.push(x));
        assert(b =~= b1.push(y));
    } else {
        if b.len() > 0 {
            assert(b.to_set().contains(b[0]));
        }
        assert(a =~= b);
    }
}


/// A lock file compared with itself shows no change: no package is added,
/// updated or removed (for the names of its packages, in any order and
/// with any filter).
pub proof fn lemma_no_change_against_itself(pkgs: Seq<LockedPackage>, names: Seq<Seq<char>>, filter: Option<Seq<char>>)
    requires
        names.to_set() == lock_names(pkgs),
    ensures
        added_or_updated(names, pkgs, pkgs, filter) == Seq::<ChangeView>::empty(),
        removed(names, pkgs, pkgs) == Seq::<ChangeView>::empty(),
{
    assert forall|i: int| 0 <= i < names.len() implies #[trigger] locked_version(pkgs, names[i]) is Some by {
        assert(names.to_set().contains(names[i]));
    }
    lemma_no_change_prefix(pkgs, names, filter);
}

proof fn lemma_no_change_prefix(pkgs: Seq<LockedPackage>, names: Seq<Seq<char>>, filter: Option<Seq<char>>)
    requires
        forall|i: int| 0 <= i < names.len() ==> #[trigger] locked_version(pkgs, names[i]) is Some,
    ensures
        added_or_updated(names, pkgs, pkgs, filter) == Seq::<ChangeView>::empty(),
        removed(names, pkgs, pkgs) == Seq::<ChangeView>::empty(),
    decreases names.len(),
{
    if names.len() > 0 {
        let init = names.drop_last();
        assert forall|i: int| 0 <= i < init.len() implies #[trigger] locked_version(pkgs, init[i]) is Some by {
            assert(init[i] == names[i]);
        }
        lemma_no_change_prefix(pkgs, init, filter);
        assert(locked_version(pkgs, names[names.len() - 1]) is Some);
    }
}
} // verus!
