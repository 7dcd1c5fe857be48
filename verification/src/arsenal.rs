//! The external tools the build manages (ninja, clang-format): their
//! names, versions and release assets, and which installed copy to use.
use vstd::prelude::*;
use crate::build_graph::{joined_path, path_join};
use crate::compiler::TargetOs;
use crate::paths::OrdoPaths;
use vstd::seq_lib::{lemma_seq_union_to_multiset_commutative, to_multiset_build, to_multiset_insert};
use crate::text::{
    chars_of, concat, contains_sub, ends_with, parse_u64, parse_u64_spec, split_char, split_on,
    starts_with, str_contains, str_ends_with, str_eq, str_starts_with, string_of, strs,
};

verus! {

/// Unicode lower-casing of a string, as `str::to_lowercase` performs it.
pub uninterp spec fn lowercase(s: Seq<char>) -> Seq<char>;

/// `str::to_lowercase`. Its result is determined by its argument alone
/// (the Unicode case tables); the contract names it, and states it for
/// ASCII text, where Unicode lower-casing maps `A`..`Z` to `a`..`z` and
/// keeps every other character.
#[verifier::external_body]
pub(crate) fn to_lowercase(s: &str) -> (r: String)
    ensures
        r@ == lowercase(s@),
        crate::text::is_ascii(s@) ==> r@ == crate::text::ascii_lower(s@),
{
    s.to_lowercase()
}

/// A tool the build can install and run.
#[derive(Debug, Clone, Copy, PartialEq, Eq, Structural)]
pub enum Tool {
    Ninja,
    ClangFormat,
}

pub open spec fn tool_name(t: Tool) -> Seq<char> {
    match t {
        Tool::Ninja => "ninja"@,
        Tool::ClangFormat => "clang-format"@,
    }
}

impl Tool {
    /// The tool a name (in any case) stands for.
    pub open spec fn parse_result(name: Seq<char>) -> Option<Tool> {
        if lowercase(name) == "ninja"@ {
            Some(Tool::Ninja)
        } else if lowercase(name) == "clang-format"@ {
            Some(Tool::ClangFormat)
        } else {
            None
        }
    }

    /// A tool by its name, in any case.
    pub fn parse(name: &str) -> (r: Option<Tool>)
        ensures
            r == Tool::parse_result(name@),
            crate::text::is_ascii(name@) ==> lowercase(name@) == crate::text::ascii_lower(name@),
    {
        let lower = to_lowercase(name);
        if str_eq(lower.as_str(), "ninja") {
            Some(Tool::Ninja)
        } else if str_eq(lower.as_str(), "clang-format") {
            Some(Tool::ClangFormat)
        } else {
            None
        }
    }

    pub fn name(&self) -> (r: &'static str)
        ensures
            r@ == tool_name(*self),
    {
        match self {
            Tool::Ninja => "ninja",
            Tool::ClangFormat => "clang-format",
        }
    }
}

/// A tool named on the command line of `ordo toolchain`, or the error
/// that names it.
pub fn parse_tool(name: &str) -> (r: Result<Tool, String>)
    ensures
        match Tool::parse_result(name@) {
            Some(t) => r == Ok::<Tool, String>(t),
            None => r is Err && r->Err_0@ == "unknown tool '"@ + name@ + "'. Supported tools: ninja"@,
        },
{
    match Tool::parse(name) {
        Some(t) => Ok(t),
        None => {
            let mut e = "unknown tool '".to_string();
            e.append(name);
            e.append("'. Supported tools: ninja");
            Err(e)
        },
    }
}

/// An installed copy of a tool.
#[derive(Debug, Clone)]
pub struct InstalledTool {
    pub tool: Tool,
    pub version: String,
    pub path: String,
}

/// The tools installed under a toolchains directory.
#[derive(Debug, Clone)]
pub struct Arsenal {
    pub toolchains_dir: String,
}

/// An installed version answers a requested one when they are equal, or
/// the request is a prefix of it that ends at a `.` ("1.12" answers for
/// "1.12.1", "1.1" does not).
pub open spec fn version_answers(installed: Seq<char>, req: Seq<char>) -> bool {
    installed == req || (starts_with(installed, req) && (installed.len() == req.len()
        || installed[req.len() as int] == '.'))
}

pub fn version_matches(installed: &str, requirement: &str) -> (b: bool)
    ensures
        b == version_answers(installed@, requirement@),
{
    if str_eq(installed, requirement) {
        return true;
    }
    if !str_starts_with(installed, requirement) {
        return false;
    }
    let v = chars_of(installed);
    let w = chars_of(requirement);
    v.len() == w.len() || v[w.len()] == '.'
}

/// Where an installed copy is: the latest (last) installed copy of `tool`
/// that answers the request (any copy, without one).
pub open spec fn which_in(installed: Seq<InstalledTool>, tool: Tool, req: Option<Seq<char>>) -> Option<
    Seq<char>,
>
    decreases installed.len(),
{
    if installed.len() == 0 {
        None
    } else {
        let t = installed.last();
        if t.tool == tool && match req {
            Some(r) => version_answers(t.version@, r),
            None => true,
        } {
            Some(t.path@)
        } else {
            which_in(installed.drop_last(), tool, req)
        }
    }
}

impl Arsenal {
    /// The tools installed under the standard toolchains directory.
    pub fn new(paths: &OrdoPaths) -> (r: Self)
        ensures
            r.toolchains_dir@ == paths.toolchains_dir_view(),
    {
        Arsenal { toolchains_dir: paths.toolchains_dir() }
    }

    /// The tools installed under `toolchains_dir`.
    pub fn with_dir(toolchains_dir: String) -> (r: Self)
        ensures
            r.toolchains_dir == toolchains_dir,
    {
        Arsenal { toolchains_dir }
    }

    /// The directory of one installed version: `<dir>/<tool>/<version>`.
    pub fn tool_version_dir(&self, tool: Tool, version: &str) -> (r: String)
        ensures
            r@ == joined_path(joined_path(self.toolchains_dir@, tool_name(tool)), version@),
    {
        let d = path_join(self.toolchains_dir.as_str(), tool.name());
        path_join(d.as_str(), version)
    }

    /// The path of the copy to use, among the installed copies (as listed,
    /// oldest version first).
    pub fn which(&self, installed: &Vec<InstalledTool>, tool: Tool, version_req: Option<&str>) -> (r:
        Option<String>)
        ensures
            match r {
                Some(p) => which_in(
                    installed@,
                    tool,
                    match version_req {
                        Some(v) => Some(v@),
                        None => None,
                    },
                ) == Some(p@),
                None => which_in(
                    installed@,
                    tool,
                    match version_req {
                        Some(v) => Some(v@),
                        None => None,
                    },
                ) is None,
            },
    {
        let ghost req = match version_req {
            Some(v) => Some(v@),
            None => None,
        };
        let mut i: usize = installed.len();
        assert(installed@.take(i as int) =~= installed@);
        while i > 0
            invariant
                i <= installed@.len(),
                req == match version_req {
                    Some(v) => Some(v@),
                    None => None,
                },
                which_in(installed@, tool, req) == which_in(installed@.take(i as int), tool, req),
            decreases i,
        {
            let t = &installed[i - 1];
            assert(installed@.take(i as int).last() == *t);
            assert(installed@.take(i as int).drop_last() =~= installed@.take(i - 1));
            let ok = t.tool == tool && match version_req {
                Some(r) => version_matches(t.version.as_str(), r),
                None => true,
            };
            if ok {
                return Some(t.path.clone());
            }
            i -= 1;
        }
        None
    }
}

/// The order of versions: by their numeric parts, compared one by one
/// ("1.9.0" comes before "1.12.0").
pub open spec fn version_lt(a: Seq<char>, b: Seq<char>) -> bool {
    key_lt(version_numbers(a), version_numbers(b))
}

/// No installed copy has a version older than the one of an earlier copy.
pub open spec fn sorted_by_version(v: Seq<InstalledTool>) -> bool {
    forall|i: int, j: int| 0 <= i < j < v.len() ==> !version_lt(v[j].version@, v[i].version@)
}

fn version_before(a: &str, b: &str) -> (r: bool)
    ensures
        r == version_lt(a@, b@),
{
    let ka = version_key(a);
    let kb = version_key(b);
    key_less(&ka, &kb)
}

/// The installed copies in version order (the order `Arsenal::which`
/// expects, so that the last match is the newest), each kept: a stable
/// sort by the numeric parts of the version.
pub fn sort_by_version(v: Vec<InstalledTool>) -> (r: Vec<InstalledTool>)
    ensures
        sorted_by_version(r@),
        r@.to_multiset() == v@.to_multiset(),
        forall|i: int, j: int|
            0 <= i < j < r@.len() && version_numbers(r@[i].version@) == version_numbers(r@[j].version@) ==> exists|a: int, b: int|
                0 <= a < b < v@.len() && v@[a] == r@[i] && v@[b] == r@[j],
{
    let ghost orig = v@;
    let mut src = v;
    let mut r: Vec<InstalledTool> = Vec::new();
    assert(orig.skip(orig.len() as int) =~= Seq::<InstalledTool>::empty());
    while src.len() > 0
        invariant
            src@ == orig.take(src@.len() as int),
            src@.len() <= orig.len(),
            sorted_by_version(r@),
            r@.to_multiset() == orig.skip(src@.len() as int).to_multiset(),
            r@.len() == orig.len() - src@.len(),
            forall|i: int, j: int|
                0 <= i < j < r@.len() && version_numbers(r@[i].version@) == version_numbers(r@[j].version@) ==> exists|a: int, b: int|
                    src@.len() <= a < b < orig.len() && orig[a] == r@[i] && orig[b] == r@[j],
            forall|i: int| #![trigger r@[i]] 0 <= i < r@.len() ==> exists|a: int| src@.len() <= a < orig.len() && orig[a] == r@[i],
        decreases src.len(),
    {
        let ghost n = src@.len() as int;
        let x = match src.pop() {
            Some(x) => x,
            None => {
                return r;
            },
        };
        assert(x == orig[n - 1]);
        let mut p: usize = 0;
        while p < r.len() && version_before(r[p].version.as_str(), x.version.as_str())
            invariant
                p <= r@.len(),
                forall|i: int| 0 <= i < p ==> version_lt(r@[i].version@, x.version@),
            decreases r.len() - p,
        {
            p += 1;
        }
        let ghost before = r@;
        r.insert(p, x);
        proof {
            assert(r@ == before.insert(p as int, x));
            assert forall|i: int, j: int| 0 <= i < j < r@.len() implies !version_lt(r@[j].version@, r@[i].version@) by {
                let kx = version_numbers(x.version@);
                if j == p {
                    lemma_key_asym(version_numbers(before[i].version@), kx);
                } else if i == p {
                    let b = version_numbers(before[j - 1].version@);
                    let q = version_numbers(before[p as int].version@);
                    if key_lt(b, kx) {
                        lemma_key_total(q, kx);
                        if q != kx {
                            lemma_key_trans(b, kx, q);
                        }
                        if j - 1 > p {
                            assert(!version_lt(before[j - 1].version@, before[p as int].version@));
                        } else {
                            lemma_key_irrefl(b);
                        }
                    }
                } else if i < p && j > p {
                    assert(!version_lt(before[j - 1].version@, before[i].version@));
                } else if j < p {
                    assert(!version_lt(before[j].version@, before[i].version@));
                } else {
                    assert(!version_lt(before[j - 1].version@, before[i - 1].version@));
                }
            }
            let rest = orig.skip(n);
            assert(orig.skip(n - 1) =~= seq![x] + rest);
            to_multiset_insert(before, p as int, x);
            to_multiset_build(rest, x);
            lemma_seq_union_to_multiset_commutative(rest, seq![x]);
            assert(rest.push(x) =~= rest + seq![x]);
            assert(src@ =~= orig.take(n - 1));
            assert forall|i: int| #![trigger r@[i]] 0 <= i < r@.len() implies exists|a: int| n - 1 <= a < orig.len() && orig[a] == r@[i] by {
                if i == p {
                    assert(orig[n - 1] == r@[i]);
                } else if i < p {
                    assert(r@[i] == before[i]);
                } else {
                    assert(r@[i] == before[i - 1]);
                }
            }
            assert forall|i: int, j: int|
                0 <= i < j < r@.len() && version_numbers(r@[i].version@) == version_numbers(r@[j].version@) implies exists|a: int, b: int|
                    n - 1 <= a < b < orig.len() && orig[a] == r@[i] && orig[b] == r@[j] by {
                if i == p {
                    let bj = before[j - 1];
                    assert(r@[j] == bj);
                    let b = choose|b: int| n <= b < orig.len() && orig[b] == bj;
                    assert(orig[n - 1] == r@[i]);
                } else if j == p {
                    assert(version_lt(before[i].version@, x.version@));
                    lemma_key_irrefl(version_numbers(x.version@));
                } else {
                    let bi = if i < p { i } else { i - 1 };
                    let bj = if j < p { j } else { j - 1 };
                    assert(r@[i] == before[bi]);
                    assert(r@[j] == before[bj]);
                    let (a, b) = choose|a: int, b: int| n <= a < b < orig.len() && orig[a] == before[bi] && orig[b] == before[bj];
                }
            }
        }
    }
    assert(orig.skip(0) =~= orig);
    r
}

/// Where `PATH` may hold an executable: each of its directories (split at
/// `;` on Windows, `:` elsewhere) joined with the file name, in order.
pub open spec fn path_candidate_list(path_var: Seq<char>, name: Seq<char>, windows: bool) -> Seq<Seq<char>> {
    split_on(path_var, if windows { ';' } else { ':' }).map_values(|d: Seq<char>| joined_path(d, name))
}

pub fn path_candidates(path_var: &str, name: &str, windows: bool) -> (r: Vec<String>)
    ensures
        strs(r@) == path_candidate_list(path_var@, name@, windows),
{
    let dirs = split_char(path_var, if windows { ';' } else { ':' });
    let ghost ds = strs(dirs@);
    let mut r: Vec<String> = Vec::new();
    let mut i: usize = 0;
    while i < dirs.len()
        invariant
            i <= dirs@.len(),
            ds == strs(dirs@),
            ds == split_on(path_var@, if windows { ';' } else { ':' }),
            strs(r@) == ds.take(i as int).map_values(|d: Seq<char>| joined_path(d, name@)),
        decreases dirs.len() - i,
    {
        let ghost before = strs(r@);
        let j = path_join(dirs[i].as_str(), name);
        r.push(j);
        assert(strs(r@) =~= before.push(j@));
        assert(ds[i as int] == dirs@[i as int]@);
        assert(ds.take(i + 1) =~= ds.take(i as int).push(dirs@[i as int]@));
        assert(strs(r@) =~= ds.take(i + 1).map_values(|d: Seq<char>| joined_path(d, name@)));
        i += 1;
    }
    assert(ds.take(dirs@.len() as int) =~= ds);
    r
}

/// The copy of a tool to run: the installed copy that `Arsenal::which`
/// picks, else the one found on `PATH` (`path_hit`: the first of
/// `path_candidates` that exists).
pub fn resolve_tool_path(
    arsenal: &Arsenal,
    installed: &Vec<InstalledTool>,
    tool: Tool,
    version_req: Option<&str>,
    path_hit: Option<String>,
) -> (r: Option<String>)
    ensures
        ({
            let req = match version_req {
                Some(v) => Some(v@),
                None => None,
            };
            match which_in(installed@, tool, req) {
                Some(p) => r matches Some(x) && x@ == p,
                None => r == path_hit,
            }
        }),
{
    match arsenal.which(installed, tool, version_req) {
        Some(p) => Some(p),
        None => path_hit,
    }
}

/// The file name of a tool's binary.
pub open spec fn binary_file(tool: Tool, os: TargetOs) -> Seq<char> {
    tool_name(tool) + (if os == TargetOs::Windows {
        ".exe"@
    } else {
        ""@
    })
}

pub fn binary_name(tool: Tool, os: TargetOs) -> (r: &'static str)
    ensures
        r@ == binary_file(tool, os),
{
    proof {
        reveal_strlit("");
        reveal_strlit("ninja");
        reveal_strlit("ninja.exe");
        reveal_strlit(".exe");
        reveal_strlit("clang-format");
        reveal_strlit("clang-format.exe");
    }
    match tool {
        Tool::Ninja => if os == TargetOs::Windows {
            "ninja.exe"
        } else {
            "ninja"
        },
        Tool::ClangFormat => if os == TargetOs::Windows {
            "clang-format.exe"
        } else {
            "clang-format"
        },
    }
}

/// `s` without one leading `v`.
pub open spec fn without_v(s: Seq<char>) -> Seq<char> {
    if s.len() > 0 && s[0] == 'v' {
        s.drop_first()
    } else {
        s
    }
}

fn strip_v(s: &str) -> (r: String)
    ensures
        r@ == without_v(s@),
{
    let v = chars_of(s);
    if v.len() > 0 && v[0] == 'v' {
        string_of(&v, 1, v.len())
    } else {
        assert(v@.subrange(0, v@.len() as int) =~= v@);
        string_of(&v, 0, v.len())
    }
}

/// The release tag of a version: ninja's tags are `v<version>`; other
/// tools' are the version itself.
pub fn normalize_tag(tool: Tool, version: &str) -> (r: String)
    ensures
        r@ == match tool {
            Tool::Ninja => "v"@ + without_v(version@),
            Tool::ClangFormat => version@,
        },
{
    match tool {
        Tool::Ninja => {
            let v = strip_v(version);
            concat("v", v.as_str())
        },
        Tool::ClangFormat => version.to_string(),
    }
}

/// The version a release tag names: the tag without a leading `v`.
pub fn extract_version(tool: Tool, tag: &str) -> (r: String)
    ensures
        r@ == without_v(tag@),
{
    strip_v(tag)
}

/// The leading ASCII digits of `s`.
pub open spec fn leading_digits(s: Seq<char>) -> Seq<char>
    decreases s.len(),
{
    if s.len() > 0 && '0' <= s[0] && s[0] <= '9' {
        seq![s[0]] + leading_digits(s.drop_first())
    } else {
        Seq::empty()
    }
}

/// A version part's number: its leading digits, or 0 when there are none
/// or they do not fit in 64 bits.
pub open spec fn part_number(p: Seq<char>) -> u64 {
    match parse_u64_spec(leading_digits(p)) {
        Some(n) => n as u64,
        None => 0,
    }
}

/// The numbers of a version's dot-separated parts, by which versions are
/// ordered.
pub open spec fn version_numbers(v: Seq<char>) -> Seq<u64> {
    split_on(v, '.').map_values(|p: Seq<char>| part_number(p))
}

fn part_value(p: &str) -> (n: u64)
    ensures
        n == part_number(p@),
{
    let v = chars_of(p);
    let mut d: Vec<char> = Vec::new();
    let mut k: usize = 0;
    assert(v@.subrange(0, v@.len() as int) =~= v@);
    assert(v@.subrange(0, 0) + leading_digits(v@) =~= leading_digits(v@));
    assert(d@ =~= v@.subrange(0, 0));
    while k < v.len() && '0' <= v[k] && v[k] <= '9'
        invariant
            k <= v.len(),
            d@ == v@.subrange(0, k as int),
            leading_digits(v@) == v@.subrange(0, k as int) + leading_digits(v@.subrange(k as int, v@.len() as int)),
        decreases v.len() - k,
    {
        let ghost rest = v@.subrange(k as int, v@.len() as int);
        assert(rest.drop_first() =~= v@.subrange(k + 1, v@.len() as int));
        assert(v@.subrange(0, k + 1) =~= v@.subrange(0, k as int) + seq![v@[k as int]]);
        assert(v@.subrange(0, k as int) + (seq![rest[0]] + leading_digits(rest.drop_first())) =~= v@.subrange(0, k + 1)
            + leading_digits(v@.subrange(k + 1, v@.len() as int)));
        d.push(v[k]);
        k += 1;
    }
    proof {
        let rest = v@.subrange(k as int, v@.len() as int);
        assert(leading_digits(rest) =~= Seq::<char>::empty());
        assert(v@.subrange(0, k as int) + Seq::<char>::empty() =~= v@.subrange(0, k as int));
    }
    match parse_u64(&d) {
        Some(n) => n,
        None => 0,
    }
}

/// The numbers by which a version is ordered.
pub fn version_key(version: &str) -> (r: Vec<u64>)
    ensures
        r@ == version_numbers(version@),
{
    let parts = split_char(version, '.');
    let mut r: Vec<u64> = Vec::new();
    let mut i: usize = 0;
    while i < parts.len()
        invariant
            i <= parts.len(),
            r@ == strs(parts@).take(i as int).map_values(|p: Seq<char>| part_number(p)),
        decreases parts.len() - i,
    {
        let n = part_value(parts[i].as_str());
        r.push(n);
        assert(strs(parts@)[i as int] == parts@[i as int]@);
        assert(strs(parts@).take(i + 1).map_values(|p: Seq<char>| part_number(p)) =~= strs(parts@).take(
            i as int,
        ).map_values(|p: Seq<char>| part_number(p)).push(n));
        i += 1;
    }
    assert(strs(parts@).take(parts.len() as int) =~= strs(parts@));
    r
}

/// The order of version keys: lexicographic, a proper prefix first (as
/// `Vec<u64>` compares).
pub open spec fn key_lt(a: Seq<u64>, b: Seq<u64>) -> bool
    decreases a.len(),
{
    if a.len() == 0 {
        b.len() > 0
    } else if b.len() == 0 {
        false
    } else if a[0] != b[0] {
        a[0] < b[0]
    } else {
        key_lt(a.drop_first(), b.drop_first())
    }
}

pub fn key_less(a: &Vec<u64>, b: &Vec<u64>) -> (r: bool)
    ensures
        r == key_lt(a@, b@),
{
    let mut i: usize = 0;
    assert(a@.skip(0) =~= a@);
    assert(b@.skip(0) =~= b@);
    while i < a.len() && i < b.len() && a[i] == b[i]
        invariant
            i <= a.len(),
            i <= b.len(),
            key_lt(a@, b@) == key_lt(a@.skip(i as int), b@.skip(i as int)),
        decreases a.len() - i,
    {
        assert(a@.skip(i as int).drop_first() =~= a@.skip(i + 1));
        assert(b@.skip(i as int).drop_first() =~= b@.skip(i + 1));
        i += 1;
    }
    if i == a.len() {
        i < b.len()
    } else if i == b.len() {
        false
    } else {
        a[i] < b[i]
    }
}

/// Why a tool is needed, for the message that it is missing.
pub open spec fn tool_purpose(tool: Tool) -> Seq<char> {
    match tool {
        Tool::Ninja => "required for the Ninja build engine"@,
        Tool::ClangFormat => "required for ordo fmt"@,
    }
}

/// The message that a tool (or a version of it) is missing.
pub fn missing_reason(tool: Tool, version_req: Option<&str>) -> (r: String)
    ensures
        r@ == tool_name(tool) + match version_req {
            Some(req) => " v"@ + req@,
            None => ""@,
        } + " not found — "@ + tool_purpose(tool),
{
    let what = match tool {
        Tool::Ninja => "required for the Ninja build engine",
        Tool::ClangFormat => "required for ordo fmt",
    };
    let head = match version_req {
        Some(req) => {
            let a = concat(tool.name(), " v");
            concat(a.as_str(), req)
        },
        None => concat(tool.name(), ""),
    };
    let b = concat(head.as_str(), " not found — ");
    let r = concat(b.as_str(), what);
    assert(r@ =~= tool_name(tool) + match version_req {
        Some(req) => " v"@ + req@,
        None => ""@,
    } + " not found — "@ + tool_purpose(tool));
    r
}

/// What else to do about a missing tool.
pub open spec fn tool_alternative(tool: Tool) -> Seq<char> {
    match tool {
        Tool::Ninja => " or switch to `[build] engine = \"faber\"`"@,
        Tool::ClangFormat => " or point `[fmt] tool` at your own binary"@,
    }
}

/// How to install a missing tool.
pub fn install_hint(tool: Tool) -> (r: String)
    ensures
        r@ == tool_name(tool) + " not found — install it with `ordo toolchain install "@ + tool_name(tool)
            + "`"@ + tool_alternative(tool),
{
    let alternative = match tool {
        Tool::Ninja => " or switch to `[build] engine = \"faber\"`",
        Tool::ClangFormat => " or point `[fmt] tool` at your own binary",
    };
    let a = concat(tool.name(), " not found — install it with `ordo toolchain install ");
    let b = concat(a.as_str(), tool.name());
    let c = concat(b.as_str(), "`");
    concat(c.as_str(), alternative)
}

/// A pinned version is met by a tool's version when it equals the pin or
/// starts with the pin and a dot; without a pin anything does, and a tool
/// whose version is unknown meets no pin.
pub fn version_satisfies(version: Option<&str>, pin: Option<&str>) -> (b: bool)
    ensures
        b == match pin {
            None => true,
            Some(p) => match version {
                Some(v) => v@ == p@ || starts_with(v@, p@ + "."@),
                None => false,
            },
        },
{
    match pin {
        None => true,
        Some(p) => match version {
            Some(v) => {
                let dotted = concat(p, ".");
                str_eq(v, p) || str_starts_with(v, dotted.as_str())
            },
            None => false,
        },
    }
}

/// A release picked for installation.
#[derive(Debug, Clone)]
pub struct ResolvedRelease {
    pub version: String,
    pub url: String,
    pub sha256: Option<String>,
}

/// The ninja release asset for a platform (`std::env::consts` names).
pub open spec fn ninja_asset(os: Seq<char>, arch: Seq<char>) -> Option<Seq<char>> {
    if os == "macos"@ && (arch == "aarch64"@ || arch == "x86_64"@) {
        Some("ninja-mac.zip"@)
    } else if os == "linux"@ && arch == "x86_64"@ {
        Some("ninja-linux.zip"@)
    } else if os == "linux"@ && arch == "aarch64"@ {
        Some("ninja-linux-aarch64.zip"@)
    } else if os == "windows"@ {
        Some("ninja-win.zip"@)
    } else {
        None
    }
}

pub fn ninja_asset_name(os: &str, arch: &str) -> (r: Result<&'static str, String>)
    ensures
        match r {
            Ok(a) => ninja_asset(os@, arch@) == Some(a@),
            Err(msg) => ninja_asset(os@, arch@) is None && msg@ == "unsupported platform: os="@ + os@
                + ", arch="@ + arch@ + " — ninja has no prebuilt binary for this target"@,
        },
{
    if str_eq(os, "macos") && (str_eq(arch, "aarch64") || str_eq(arch, "x86_64")) {
        Ok("ninja-mac.zip")
    } else if str_eq(os, "linux") && str_eq(arch, "x86_64") {
        Ok("ninja-linux.zip")
    } else if str_eq(os, "linux") && str_eq(arch, "aarch64") {
        Ok("ninja-linux-aarch64.zip")
    } else if str_eq(os, "windows") {
        Ok("ninja-win.zip")
    } else {
        let a = concat("unsupported platform: os=", os);
        let b = concat(a.as_str(), ", arch=");
        let c = concat(b.as_str(), arch);
        Err(concat(c.as_str(), " — ninja has no prebuilt binary for this target"))
    }
}

/// The GitHub release asset of a tool; clang-format is not released there.
pub fn github_asset_name(tool: Tool, os: &str, arch: &str) -> (r: Result<&'static str, String>)
    ensures
        tool == Tool::Ninja ==> (r matches Ok(a) ==> ninja_asset(os@, arch@) == Some(a@)),
        tool == Tool::Ninja ==> (r is Err ==> ninja_asset(os@, arch@) is None),
        tool == Tool::ClangFormat ==> (r matches Err(msg) && msg@
            == "clang-format is not distributed via GitHub releases"@),
{
    match tool {
        Tool::Ninja => {
            let r = ninja_asset_name(os, arch);
            match r {
                Ok(a) => {
                    assert(ninja_asset(os@, arch@) == Some(a@));
                },
                Err(_) => {
                    assert(ninja_asset(os@, arch@) is None);
                },
            }
            r
        },
        Tool::ClangFormat => Err("clang-format is not distributed via GitHub releases".to_string()),
    }
}

/// The version to install from PyPI: the latest one without a request;
/// otherwise, among the versions (in index order) that answer the request
/// and have a file that is not yanked, one with the greatest key, the last
/// such.
pub open spec fn picked_version(releases: Seq<(String, bool)>, req: Seq<char>, i: int) -> bool {
    &&& 0 <= i < releases.len()
    &&& version_answers(releases[i].0@, req) && releases[i].1
    &&& forall|j: int|
        0 <= j < releases.len() && version_answers(releases[j].0@, req) && releases[j].1 ==> {
            &&& !key_lt(version_numbers(releases[i].0@), version_numbers(releases[j].0@))
            &&& j > i ==> key_lt(version_numbers(releases[j].0@), version_numbers(releases[i].0@))
        }
}

/// Picks the version to install: `latest` without a request; otherwise
/// see `picked_version` (`releases` holds each version and whether it has
/// a file that is not yanked).
pub fn select_version(latest: &str, releases: &Vec<(String, bool)>, version_req: Option<&str>) -> (r:
    Result<String, String>)
    ensures
        version_req is None ==> (r matches Ok(v) && v@ == latest@),
        version_req matches Some(req) ==> match r {
            Ok(v) => exists|i: int| picked_version(releases@, req@, i) && releases@[i].0@ == v@,
            Err(msg) => (forall|j: int|
                0 <= j < releases@.len() ==> !(version_answers(releases@[j].0@, req@) && releases@[j].1))
                && msg@ == "no release matching version '"@ + req@ + "' found on PyPI"@,
        },
{
    let req = match version_req {
        None => {
            return Ok(latest.to_string());
        },
        Some(r) => r,
    };
    let mut best: Option<usize> = None;
    let mut best_key: Vec<u64> = Vec::new();
    let mut i: usize = 0;
    while i < releases.len()
        invariant
            i <= releases.len(),
            match best {
                None => forall|j: int|
                    0 <= j < i ==> !(version_answers(releases@[j].0@, req@) && releases@[j].1),
                Some(b) => {
                    &&& b < i
                    &&& best_key@ == version_numbers(releases@[b as int].0@)
                    &&& version_answers(releases@[b as int].0@, req@) && releases@[b as int].1
                    &&& forall|j: int|
                        0 <= j < i && version_answers(releases@[j].0@, req@) && releases@[j].1 ==> {
                            &&& !key_lt(best_key@, version_numbers(releases@[j].0@))
                            &&& j > b ==> key_lt(version_numbers(releases@[j].0@), best_key@)
                        }
                },
            },
        decreases releases.len() - i,
    {
        let (v, ok) = (&releases[i].0, releases[i].1);
        if ok && version_matches(v.as_str(), req) {
            let k = version_key(v.as_str());
            let take = match best {
                None => true,
                Some(_) => !key_less(&k, &best_key),
            };
            if take {
                proof {
                    if best is Some {
                        lemma_key_total(k@, best_key@);
                        assert forall|j: int|
                            0 <= j < i + 1 && version_answers(releases@[j].0@, req@) && releases@[j].1 implies {
                                &&& !key_lt(k@, version_numbers(releases@[j].0@))
                                &&& j > i ==> key_lt(version_numbers(releases@[j].0@), k@)
                            } by {
                            if j < i {
                                let kj = version_numbers(releases@[j].0@);
                                if key_lt(k@, kj) {
                                    lemma_key_trans_le(best_key@, k@, kj);
                                }
                            } else {
                                lemma_key_irrefl(k@);
                            }
                        }
                    } else {
                        lemma_key_irrefl(k@);
                    }
                }
                best = Some(i);
                best_key = k;
            } else {
                proof {
                    let b = best->0;
                    assert forall|j: int|
                        0 <= j < i + 1 && version_answers(releases@[j].0@, req@) && releases@[j].1 implies {
                            &&& !key_lt(best_key@, version_numbers(releases@[j].0@))
                            &&& j > b ==> key_lt(version_numbers(releases@[j].0@), best_key@)
                        } by {
                        if j == i {
                            lemma_key_asym(k@, best_key@);
                        }
                    }
                }
            }
        }
        i += 1;
    }
    match best {
        Some(b) => {
            assert(picked_version(releases@, req@, b as int));
            Ok(releases[b].0.clone())
        },
        None => {
            let a = concat("no release matching version '", req);
            Err(concat(a.as_str(), "' found on PyPI"))
        },
    }
}

pub proof fn lemma_key_irrefl(a: Seq<u64>)
    ensures
        !key_lt(a, a),
    decreases a.len(),
{
    if a.len() > 0 {
        lemma_key_irrefl(a.drop_first());
    }
}

pub proof fn lemma_key_asym(a: Seq<u64>, b: Seq<u64>)
    ensures
        !(key_lt(a, b) && key_lt(b, a)),
    decreases a.len(),
{
    if a.len() > 0 && b.len() > 0 && a[0] == b[0] {
        lemma_key_asym(a.drop_first(), b.drop_first());
    }
}

pub proof fn lemma_key_total(a: Seq<u64>, b: Seq<u64>)
    ensures
        a != b ==> key_lt(a, b) || key_lt(b, a),
    decreases a.len(),
{
    if a.len() > 0 && b.len() > 0 && a[0] == b[0] {
        lemma_key_total(a.drop_first(), b.drop_first());
        if a.drop_first() == b.drop_first() {
            assert(a =~= seq![a[0]] + a.drop_first());
            assert(b =~= seq![b[0]] + b.drop_first());
        }
    } else if a.len() == 0 && b.len() == 0 {
        assert(a =~= b);
    }
}

pub proof fn lemma_key_trans(a: Seq<u64>, b: Seq<u64>, c: Seq<u64>)
    requires
        key_lt(a, b),
        key_lt(b, c),
    ensures
        key_lt(a, c),
    decreases a.len(),
{
    if a.len() > 0 && b.len() > 0 && c.len() > 0 && a[0] == b[0] && b[0] == c[0] {
        lemma_key_trans(a.drop_first(), b.drop_first(), c.drop_first());
    }
}

/// `a <= b` and `b < c` give `a < c`.
proof fn lemma_key_trans_le(a: Seq<u64>, b: Seq<u64>, c: Seq<u64>)
    requires
        !key_lt(b, a),
        key_lt(b, c),
    ensures
        key_lt(a, c),
{
    lemma_key_total(a, b);
    if a != b {
        lemma_key_trans(a, b, c);
    }
}

/// The wheels that run on a platform, as substring sets in preference
/// order (`musl` tells a musl-libc Linux).
pub fn wheel_tags(os: &str, arch: &str, musl: bool) -> (r: Result<Vec<Vec<&'static str>>, String>)
    ensures
        r matches Err(msg) ==> msg@ == "unsupported platform: os="@ + os@ + ", arch="@ + arch@
            + " — no prebuilt wheel for this target"@,
        r matches Ok(sets) ==> sets@.len() == 1 && sets@[0]@.len() >= 1,
        r is Ok <==> ((os@ == "macos"@ || os@ == "linux"@ || os@ == "windows"@) && (arch@ == "aarch64"@
            || arch@ == "x86_64"@)),
{
    let mut set: Vec<&'static str> = Vec::new();
    if str_eq(os, "macos") && str_eq(arch, "aarch64") {
        set.push("macosx");
        set.push("arm64");
    } else if str_eq(os, "macos") && str_eq(arch, "x86_64") {
        set.push("macosx");
        set.push("x86_64");
    } else if str_eq(os, "linux") && str_eq(arch, "x86_64") {
        set.push(if musl { "musllinux" } else { "manylinux" });
        set.push("x86_64");
    } else if str_eq(os, "linux") && str_eq(arch, "aarch64") {
        set.push(if musl { "musllinux" } else { "manylinux" });
        set.push("aarch64");
    } else if str_eq(os, "windows") && str_eq(arch, "x86_64") {
        set.push("win_amd64");
    } else if str_eq(os, "windows") && str_eq(arch, "aarch64") {
        set.push("win_arm64");
    } else {
        let a = concat("unsupported platform: os=", os);
        let b = concat(a.as_str(), ", arch=");
        let c = concat(b.as_str(), arch);
        return Err(concat(c.as_str(), " — no prebuilt wheel for this target"));
    }
    let mut sets: Vec<Vec<&'static str>> = Vec::new();
    sets.push(set);
    Ok(sets)
}

/// A wheel of a file list fits a tag set: not yanked, a `.whl`, holding
/// every tag.
pub open spec fn wheel_fits(name: Seq<char>, yanked: bool, tags: Seq<&str>) -> bool {
    !yanked && ends_with(name, ".whl"@) && forall|k: int| 0 <= k < tags.len() ==> contains_sub(name, #[trigger] tags[k]@)
}

fn fits(name: &str, yanked: bool, tags: &Vec<&'static str>) -> (b: bool)
    ensures
        b == wheel_fits(name@, yanked, tags@),
{
    if yanked || !str_ends_with(name, ".whl") {
        return false;
    }
    let mut k: usize = 0;
    while k < tags.len()
        invariant
            k <= tags.len(),
            forall|j: int| 0 <= j < k ==> contains_sub(name@, #[trigger] tags@[j]@),
        decreases tags.len() - k,
    {
        if !str_contains(name, tags[k]) {
            return false;
        }
        k += 1;
    }
    true
}

/// The wheel to install: for the first tag set that some file fits, the
/// first file that fits it.
pub fn select_wheel(files: &Vec<(String, bool)>, tag_sets: &Vec<Vec<&'static str>>) -> (r: Option<usize>)
    ensures
        match r {
            Some(f) => f < files@.len() && exists|s: int|
                0 <= s < tag_sets@.len() && wheel_fits(files@[f as int].0@, files@[f as int].1, tag_sets@[s]@)
                    && (forall|g: int| 0 <= g < f ==> !wheel_fits(files@[g].0@, files@[g].1, tag_sets@[s]@))
                    && (forall|t: int, g: int|
                    0 <= t < s && 0 <= g < files@.len() ==> !wheel_fits(files@[g].0@, files@[g].1, tag_sets@[t]@)),
            None => forall|t: int, g: int|
                0 <= t < tag_sets@.len() && 0 <= g < files@.len() ==> !wheel_fits(
                    files@[g].0@,
                    files@[g].1,
                    tag_sets@[t]@,
                ),
        },
{
    let mut s: usize = 0;
    while s < tag_sets.len()
        invariant
            s <= tag_sets.len(),
            forall|t: int, g: int|
                0 <= t < s && 0 <= g < files@.len() ==> !wheel_fits(files@[g].0@, files@[g].1, tag_sets@[t]@),
        decreases tag_sets.len() - s,
    {
        let mut f: usize = 0;
        while f < files.len()
            invariant
                s < tag_sets.len(),
                f <= files.len(),
                forall|t: int, g: int|
                    0 <= t < s && 0 <= g < files@.len() ==> !wheel_fits(files@[g].0@, files@[g].1, tag_sets@[t]@),
                forall|g: int| 0 <= g < f ==> !wheel_fits(files@[g].0@, files@[g].1, tag_sets@[s as int]@),
            decreases files.len() - f,
        {
            if fits(files[f].0.as_str(), files[f].1, &tag_sets[s]) {
                assert(0 <= s < tag_sets@.len() && wheel_fits(files@[f as int].0@, files@[f as int].1, tag_sets@[s as int]@));
                return Some(f);
            }
            f += 1;
        }
        s += 1;
    }
    None
}


/// A ninja version written as its release tag reads back as the version
/// without a leading `v`.
pub proof fn lemma_tag_round_trip(version: Seq<char>)
    ensures
        without_v("v"@ + without_v(version)) == without_v(version),
{
    reveal_strlit("v");
    let t = "v"@ + without_v(version);
    assert(t.len() > 0 && t[0] == 'v');
    assert(t.subrange(1, t.len() as int) =~= without_v(version));
}
} // verus!
