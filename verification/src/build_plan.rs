//! The decisions of `ordo build` around the compile itself: which members
//! a workspace build takes, where a package's outputs go, whether the
//! dependencies come from the cache, and what a path dependency provides.
use vstd::prelude::*;
use crate::build_graph::{extension_of, file_stem_of, joined_path, path_extension, path_join, path_stem};
use crate::dag::{deps_in, keep_needed, lemma_run_deps_first, lemma_sorted_order, reachable, MemberDag};
use crate::providers::FetchedDep;
use crate::strmap::{sorted, StrMap, StrSet};
use crate::dep_tree::member_index;
use crate::manifest::{package_type_name, PackageType};
use crate::text::{join, join_strings, str_eq, str_strip_prefix, strip_prefix, strs};
use crate::workspace::{member_names_of, unknown_member_message, Workspace, WorkspaceMember};

verus! {

/// The name that stands for the workspace's own package in a build order.
pub open spec fn root_marker() -> Seq<char> {
    "__root__"@
}

/// The members a workspace build takes, in order: the named one and what
/// it depends on, or every member (then the root package, unless the
/// workspace is virtual).
pub open spec fn build_members(ws: Workspace, dag: MemberDag, package: Option<Seq<char>>) -> Result<
    Seq<Seq<char>>,
    Seq<char>,
> {
    match package {
        Some(t) => if member_names_of(ws.members@).contains(t) {
            Ok(keep_needed(dag.order_list(), reachable(dag.graph(), t).remove(t), t))
        } else {
            Err(unknown_member_message(t, member_names_of(ws.members@)))
        },
        None => Ok(
            dag.order_list() + (if ws.root_manifest.workspace is Some && ws.root_manifest.package is None {
                Seq::empty()
            } else {
                seq![root_marker()]
            }),
        ),
    }
}

/// Without `--package`, a workspace build takes the members in the
/// dependency order of the workspace (each member after every member it
/// depends on), then the root package of a workspace that has one.
pub proof fn lemma_build_members_dependencies_first(ws: Workspace, dag: MemberDag)
    requires
        dag.wf(),
    ensures
        build_members(ws, dag, None) is Ok,
        ({
            let v = build_members(ws, dag, None)->Ok_0;
            &&& v.take(dag.order_list().len() as int) == dag.order_list()
            &&& v.len() == dag.order_list().len() + (if ws.root_manifest.workspace is Some
                && ws.root_manifest.package is None {
                0int
            } else {
                1int
            })
            &&& v.len() > dag.order_list().len() ==> v.last() == root_marker()
            &&& forall|i: int, d: Seq<char>|
                0 <= i < v.len() && dag.graph().has_key(v[i]) && #[trigger] deps_in(dag.graph(), v[i]).contains(d)
                    ==> exists|j: int| 0 <= j < i && v[j] == d
        }),
{
    let o = dag.order_list();
    let g = dag.graph();
    let v = build_members(ws, dag, None)->Ok_0;
    lemma_sorted_order(g, o);
    assert(v.take(o.len() as int) =~= o);
    assert forall|i: int, d: Seq<char>|
        0 <= i < v.len() && g.has_key(v[i]) && #[trigger] deps_in(g, v[i]).contains(d) implies exists|j: int|
        0 <= j < i && v[j] == d by {
        if i < o.len() {
            assert(v[i] == o[i]);
            lemma_run_deps_first(g, o, i, d);
            let j = choose|j: int| 0 <= j < i && o[j] == d;
            assert(v[j] == o[j]);
        } else {
            assert(o.contains(v[i]));
            let k = choose|k: int| 0 <= k < o.len() && o[k] == v[i];
            lemma_run_deps_first(g, o, k, d);
            let j = choose|j: int| 0 <= j < k && o[j] == d;
            assert(v[j] == o[j]);
        }
    }
}

pub fn members_to_build(ws: &Workspace, dag: &MemberDag, package: Option<&str>) -> (r: Result<
    Vec<String>,
    String,
>)
    requires
        dag.wf(),
    ensures
        ({
            let p = match package {
                Some(t) => Some(t@),
                None => None,
            };
            match build_members(*ws, *dag, p) {
                Ok(v) => r is Ok && strs(r->Ok_0@) == v,
                Err(e) => r is Err && r->Err_0@ == e,
            }
        }),
        package is None ==> r is Ok && strs(r->Ok_0@).take(dag.order_list().len() as int) == dag.order_list(),
        package is None ==> forall|i: int, d: Seq<char>|
            0 <= i < r->Ok_0@.len() && dag.graph().has_key(r->Ok_0@[i]@) && #[trigger] deps_in(
                dag.graph(),
                r->Ok_0@[i]@,
            ).contains(d) ==> exists|j: int| 0 <= j < i && r->Ok_0@[j]@ == d,
{
    proof {
        lemma_build_members_dependencies_first(*ws, *dag);
    }
    match package {
        Some(t) => {
            let sel = ws.select_members(Some(t));
            match sel {
                Ok(_) => Ok(dag.subset_order(t)),
                Err(e) => Err(e),
            }
        },
        None => {
            let mut order = dag.build_order().clone();
            assert(strs(order@) == dag.order_list());
            if !ws.root_manifest.is_virtual_workspace() {
                let ghost before = strs(order@);
                order.push("__root__".to_string());
                assert(strs(order@) =~= before.push(root_marker()));
            } else {
                assert(strs(order@) =~= dag.order_list() + Seq::empty());
            }
            proof {
                let v = strs(order@);
                assert(v == build_members(*ws, *dag, None)->Ok_0);
                assert forall|i: int, d: Seq<char>|
                    0 <= i < order@.len() && dag.graph().has_key(order@[i]@) && #[trigger] deps_in(
                        dag.graph(),
                        order@[i]@,
                    ).contains(d) implies exists|j: int| 0 <= j < i && order@[j]@ == d by {
                    assert(v[i] == order@[i]@);
                    assert(deps_in(dag.graph(), v[i]).contains(d));
                    let j = choose|j: int| 0 <= j < i && v[j] == d;
                    assert(order@[j]@ == v[j]);
                }
            }
            Ok(order)
        },
    }
}

/// Where a package is built (`build`) and where its outputs go: under the
/// profile's directory of the target directory, and there under the
/// package's name in a workspace.
pub open spec fn output_dir_of(target_dir: Seq<char>, profile: Seq<char>, pkg: Seq<char>, in_workspace: bool) -> Seq<
    char,
> {
    if in_workspace {
        joined_path(joined_path(target_dir, profile), pkg)
    } else {
        joined_path(target_dir, profile)
    }
}

pub fn build_dirs(target_dir: &str, profile: &str, pkg_name: &str, in_workspace: bool) -> (r: (String, String))
    ensures
        r.1@ == output_dir_of(target_dir@, profile@, pkg_name@, in_workspace),
        r.0@ == joined_path(r.1@, "build"@),
{
    let base = path_join(target_dir, profile);
    let out = if in_workspace {
        path_join(base.as_str(), pkg_name)
    } else {
        base
    };
    (path_join(out.as_str(), "build"), out)
}

/// Where the dependency cache of a package lies: its workspace output
/// directory, or the target directory itself outside a workspace.
pub open spec fn cache_dir_of(target_dir: Seq<char>, profile: Seq<char>, pkg: Seq<char>, in_workspace: bool) -> Seq<
    char,
> {
    if in_workspace {
        joined_path(joined_path(target_dir, profile), pkg)
    } else {
        target_dir
    }
}

pub fn dep_cache_dir(target_dir: &str, profile: &str, pkg_name: &str, in_workspace: bool) -> (r: String)
    ensures
        r@ == cache_dir_of(target_dir@, profile@, pkg_name@, in_workspace),
{
    if in_workspace {
        let base = path_join(target_dir, profile);
        path_join(base.as_str(), pkg_name)
    } else {
        target_dir.to_string()
    }
}

/// Where the dependencies of a build come from.
#[derive(Debug, PartialEq, Eq, Structural)]
pub enum FetchPlan {
    /// The cache written by the last fetch.
    UseCache,
    /// Resolve and fetch them again.
    Fetch,
}

pub open spec fn locked_stale_message() -> Seq<char> {
    "Ordo.lock is out of date; run `ordo update` to regenerate it, or remove --locked to allow automatic updates"@
}

pub open spec fn frozen_no_cache_message() -> Seq<char> {
    "dependency cache missing and --frozen disallows network access; run `ordo build` without --frozen first"@
}

pub open spec fn frozen_stale_message() -> Seq<char> {
    "Ordo.lock is out of date and --frozen disallows network access; run `ordo update` and `ordo build` without --frozen first"@
}

/// The cache serves a build whose lock file is up to date (unless caching
/// is off). `--locked` refuses a stale lock file; `--frozen` refuses any
/// fetch.
pub open spec fn plan_of(fresh: bool, locked: bool, no_cache: bool, frozen: bool, cache_loads: bool) -> Result<
    FetchPlan,
    Seq<char>,
> {
    if locked && !fresh {
        Err(locked_stale_message())
    } else if fresh && !no_cache {
        if cache_loads {
            Ok(FetchPlan::UseCache)
        } else if frozen {
            Err(frozen_no_cache_message())
        } else {
            Ok(FetchPlan::Fetch)
        }
    } else if frozen {
        Err(frozen_stale_message())
    } else {
        Ok(FetchPlan::Fetch)
    }
}

/// `fresh`: the lock file matches what was resolved; `cache_loads`: the
/// dependency cache can be read.
pub fn fetch_plan(fresh: bool, locked: bool, no_cache: bool, frozen: bool, cache_loads: bool) -> (r: Result<
    FetchPlan,
    String,
>)
    ensures
        match plan_of(fresh, locked, no_cache, frozen, cache_loads) {
            Ok(p) => r == Ok::<FetchPlan, String>(p),
            Err(e) => r is Err && r->Err_0@ == e,
        },
{
    if locked && !fresh {
        Err("Ordo.lock is out of date; run `ordo update` to regenerate it, or remove --locked to allow automatic updates".to_string())
    } else if fresh && !no_cache {
        if cache_loads {
            Ok(FetchPlan::UseCache)
        } else if frozen {
            Err("dependency cache missing and --frozen disallows network access; run `ordo build` without --frozen first".to_string())
        } else {
            Ok(FetchPlan::Fetch)
        }
    } else if frozen {
        Err("Ordo.lock is out of date and --frozen disallows network access; run `ordo update` and `ordo build` without --frozen first".to_string())
    } else {
        Ok(FetchPlan::Fetch)
    }
}

/// A library a build left in its output directory, by its extension.
pub open spec fn is_lib_artifact(p: Seq<char>) -> bool {
    extension_of(p) matches Some(e) && (e == "a"@ || e == "so"@ || e == "dylib"@ || e == "lib"@)
}

/// The name to link a library file by: its stem, without a `lib` prefix.
pub open spec fn artifact_name(p: Seq<char>) -> Seq<char> {
    match strip_prefix(file_stem_of(p), "lib"@) {
        Some(t) => t,
        None => file_stem_of(p),
    }
}

/// The names of the libraries among `files`.
pub open spec fn artifact_names(files: Seq<Seq<char>>) -> Set<Seq<char>> {
    Set::new(|n: Seq<char>| exists|i: int| 0 <= i < files.len() && is_lib_artifact(files[i]) && artifact_name(files[i]) == n)
}

/// The libraries among the files of an output directory: their names,
/// sorted and each once, and the directory to find them in (none when
/// there are none).
pub fn library_artifacts(files: &Vec<String>, output_dir: &str) -> (r: (Vec<String>, Vec<String>))
    ensures
        sorted(strs(r.1@)),
        strs(r.1@).to_set() == artifact_names(strs(files@)),
        strs(r.0@) == (if r.1@.len() == 0 {
            Seq::<Seq<char>>::empty()
        } else {
            seq![output_dir@]
        }),
{
    let mut set = StrSet::new();
    let mut i: usize = 0;
    while i < files.len()
        invariant
            i <= files@.len(),
            set.wf(),
            set.to_set() == artifact_names(strs(files@).take(i as int)),
        decreases files.len() - i,
    {
        let ghost prev = strs(files@).take(i as int);
        let ghost next = strs(files@).take(i + 1);
        assert(next =~= prev.push(files@[i as int]@));
        let f = files[i].as_str();
        let is_lib = match path_extension(f) {
            Some(e) => str_eq(e.as_str(), "a") || str_eq(e.as_str(), "so") || str_eq(e.as_str(), "dylib")
                || str_eq(e.as_str(), "lib"),
            None => false,
        };
        if is_lib {
            let stem = path_stem(f);
            let name = match str_strip_prefix(stem.as_str(), "lib") {
                Some(t) => t,
                None => stem,
            };
            assert(name@ == artifact_name(f@));
            let ghost before = set.to_set();
            set.insert(name);
            proof {
                assert(set.to_set() =~= artifact_names(next)) by {
                    assert forall|n: Seq<char>| set.to_set().contains(n) implies artifact_names(next).contains(n) by {
                        if n == artifact_name(f@) {
                            assert(next[i as int] == f@);
                        } else {
                            assert(before.contains(n));
                            let j = choose|j: int|
                                0 <= j < prev.len() && is_lib_artifact(prev[j]) && artifact_name(prev[j]) == n;
                            assert(next[j] == prev[j]);
                        }
                    }
                    assert forall|n: Seq<char>| artifact_names(next).contains(n) implies set.to_set().contains(n) by {
                        let j = choose|j: int|
                            0 <= j < next.len() && is_lib_artifact(next[j]) && artifact_name(next[j]) == n;
                        if j < i {
                            assert(prev[j] == next[j]);
                            assert(artifact_names(prev).contains(n));
                        }
                    }
                }
            }
        } else {
            proof {
                assert(set.to_set() =~= artifact_names(next)) by {
                    assert forall|n: Seq<char>| artifact_names(next).contains(n) implies set.to_set().contains(n) by {
                        let j = choose|j: int|
                            0 <= j < next.len() && is_lib_artifact(next[j]) && artifact_name(next[j]) == n;
                        assert(j != i);
                        assert(prev[j] == next[j]);
                        assert(artifact_names(prev).contains(n));
                    }
                    assert forall|n: Seq<char>| set.to_set().contains(n) implies artifact_names(next).contains(n) by {
                        let j = choose|j: int|
                            0 <= j < prev.len() && is_lib_artifact(prev[j]) && artifact_name(prev[j]) == n;
                        assert(next[j] == prev[j]);
                    }
                }
            }
        }
        i += 1;
    }
    assert(strs(files@).take(files@.len() as int) =~= strs(files@));
    proof {
        set.lemma_wf();
    }
    let libs = set.items().clone();
    assert(strs(libs@) == set.elems());
    let mut dirs: Vec<String> = Vec::new();
    if libs.len() > 0 {
        dirs.push(output_dir.to_string());
    }
    assert(strs(dirs@) =~= (if libs@.len() == 0 {
        Seq::<Seq<char>>::empty()
    } else {
        seq![output_dir@]
    }));
    (dirs, libs)
}

/// `a` followed by each list of `extra` in turn.
pub open spec fn flatten_after(a: Seq<Seq<char>>, extra: Seq<Seq<Seq<char>>>) -> Seq<Seq<char>>
    decreases extra.len(),
{
    if extra.len() == 0 {
        a
    } else {
        flatten_after(a, extra.drop_last()) + extra.last()
    }
}

fn append_strings(v: &mut Vec<String>, xs: &Vec<String>)
    ensures
        strs(final(v)@) == strs(old(v)@) + strs(xs@),
{
    let ghost start = strs(v@);
    let mut i: usize = 0;
    while i < xs.len()
        invariant
            i <= xs@.len(),
            strs(v@) == start + strs(xs@).take(i as int),
        decreases xs.len() - i,
    {
        let ghost before = strs(v@);
        v.push(xs[i].clone());
        assert(strs(v@) =~= before.push(xs@[i as int]@));
        assert(strs(xs@).take(i + 1) =~= strs(xs@).take(i as int).push(xs@[i as int]@));
        i += 1;
    }
    assert(strs(xs@).take(xs@.len() as int) =~= strs(xs@));
}

/// What a built path dependency (or workspace member) provides: its own
/// include directories and libraries, then, dependency by dependency,
/// what its own dependencies provided (from its dependency cache).
pub fn merge_path_dep(
    name: &str,
    include_dirs: Vec<String>,
    lib_dirs: Vec<String>,
    libs: Vec<String>,
    transitive: Vec<FetchedDep>,
) -> (r: FetchedDep)
    ensures
        r.name@ == name@,
        strs(r.include_dirs@) == flatten_after(
            strs(include_dirs@),
            transitive@.map_values(|t: FetchedDep| strs(t.include_dirs@)),
        ),
        strs(r.lib_dirs@) == flatten_after(strs(lib_dirs@), transitive@.map_values(|t: FetchedDep| strs(t.lib_dirs@))),
        strs(r.libs@) == flatten_after(strs(libs@), transitive@.map_values(|t: FetchedDep| strs(t.libs@))),
        strs(r.frameworks@) == flatten_after(
            Seq::empty(),
            transitive@.map_values(|t: FetchedDep| strs(t.frameworks@)),
        ),
        r.defines@.len() == 0,
{
    let mut inc = include_dirs;
    let mut ld = lib_dirs;
    let mut ls = libs;
    let mut fw: Vec<String> = Vec::new();
    let ghost inc0 = strs(inc@);
    let ghost ld0 = strs(ld@);
    let ghost ls0 = strs(ls@);
    assert(strs(fw@) =~= Seq::<Seq<char>>::empty());
    let mut i: usize = 0;
    while i < transitive.len()
        invariant
            i <= transitive@.len(),
            strs(inc@) == flatten_after(
                inc0,
                transitive@.take(i as int).map_values(|t: FetchedDep| strs(t.include_dirs@)),
            ),
            strs(ld@) == flatten_after(ld0, transitive@.take(i as int).map_values(|t: FetchedDep| strs(t.lib_dirs@))),
            strs(ls@) == flatten_after(ls0, transitive@.take(i as int).map_values(|t: FetchedDep| strs(t.libs@))),
            strs(fw@) == flatten_after(
                Seq::empty(),
                transitive@.take(i as int).map_values(|t: FetchedDep| strs(t.frameworks@)),
            ),
        decreases transitive.len() - i,
    {
        let t = &transitive[i];
        append_strings(&mut inc, &t.include_dirs);
        append_strings(&mut ld, &t.lib_dirs);
        append_strings(&mut ls, &t.libs);
        append_strings(&mut fw, &t.frameworks);
        proof {
            let p = transitive@.take(i as int);
            let q = transitive@.take(i + 1);
            assert(q.drop_last() =~= p);
            assert(q.map_values(|t: FetchedDep| strs(t.include_dirs@)).drop_last() =~= p.map_values(
                |t: FetchedDep| strs(t.include_dirs@),
            ));
            assert(q.map_values(|t: FetchedDep| strs(t.lib_dirs@)).drop_last() =~= p.map_values(
                |t: FetchedDep| strs(t.lib_dirs@),
            ));
            assert(q.map_values(|t: FetchedDep| strs(t.libs@)).drop_last() =~= p.map_values(
                |t: FetchedDep| strs(t.libs@),
            ));
            assert(q.map_values(|t: FetchedDep| strs(t.frameworks@)).drop_last() =~= p.map_values(
                |t: FetchedDep| strs(t.frameworks@),
            ));
        }
        i += 1;
    }
    assert(transitive@.take(transitive@.len() as int) =~= transitive@);
    FetchedDep {
        name: name.to_string(),
        include_dirs: inc,
        lib_dirs: ld,
        libs: ls,
        frameworks: fw,
        defines: Vec::new(),
    }
}

/// Two fetched dependencies with the same contents.
pub open spec fn same_fetched(a: FetchedDep, b: FetchedDep) -> bool {
    &&& a.name@ == b.name@
    &&& strs(a.include_dirs@) == strs(b.include_dirs@)
    &&& strs(a.lib_dirs@) == strs(b.lib_dirs@)
    &&& strs(a.libs@) == strs(b.libs@)
    &&& strs(a.frameworks@) == strs(b.frameworks@)
    &&& strs(a.defines@) == strs(b.defines@)
}

fn copy_strings(v: &Vec<String>) -> (r: Vec<String>)
    ensures
        strs(r@) == strs(v@),
{
    let mut r: Vec<String> = Vec::new();
    let mut i: usize = 0;
    while i < v.len()
        invariant
            i <= v@.len(),
            strs(r@) == strs(v@).take(i as int),
        decreases v.len() - i,
    {
        let ghost before = strs(r@);
        r.push(v[i].clone());
        assert(strs(r@) =~= before.push(v@[i as int]@));
        assert(strs(v@).take(i + 1) =~= strs(v@).take(i as int).push(v@[i as int]@));
        i += 1;
    }
    assert(strs(v@).take(v@.len() as int) =~= strs(v@));
    r
}

/// A copy of what a dependency provides.
pub fn copy_fetched(d: &FetchedDep) -> (r: FetchedDep)
    ensures
        same_fetched(r, *d),
{
    FetchedDep {
        name: d.name.clone(),
        include_dirs: copy_strings(&d.include_dirs),
        lib_dirs: copy_strings(&d.lib_dirs),
        libs: copy_strings(&d.libs),
        frameworks: copy_strings(&d.frameworks),
        defines: copy_strings(&d.defines),
    }
}

/// A path dependency's own include directory: its `include` directory
/// when it has one, else the dependency's directory (both canonical).
pub open spec fn own_includes(canonical: Seq<char>, include_exists: bool) -> Seq<Seq<char>> {
    if include_exists {
        seq![joined_path(canonical, "include"@)]
    } else {
        seq![canonical]
    }
}

pub fn path_dep_own_includes(canonical: &str, include_exists: bool) -> (r: Vec<String>)
    ensures
        strs(r@) == own_includes(canonical@, include_exists),
{
    let d = if include_exists {
        path_join(canonical, "include")
    } else {
        canonical.to_string()
    };
    let r = vec![d];
    assert(strs(r@) =~= own_includes(canonical@, include_exists));
    r
}

/// What `ordo build` does with a path dependency.
#[derive(Debug)]
pub enum PathDepPlan {
    /// What an earlier build of it in this run provided.
    Cached(FetchedDep),
    /// Its headers alone: it has no sources to build.
    HeaderOnly(FetchedDep),
    /// Build it first, then merge what it provides.
    Build,
}

pub open spec fn missing_dir_message(name: Seq<char>, dep_dir: Seq<char>) -> Seq<char> {
    "path dependency '"@ + name + "' points to '"@ + dep_dir + "' which does not exist"@
}

pub open spec fn missing_manifest_message(name: Seq<char>, dep_dir: Seq<char>) -> Seq<char> {
    "path dependency '"@ + name + "' at '"@ + dep_dir + "' has no Ordo.toml"@
}

pub open spec fn circular_message(name: Seq<char>, canonical: Seq<char>) -> Seq<char> {
    "circular path dependency detected: '"@ + name + "' at '"@ + canonical + "'"@
}

/// The checks in order: the directory exists and holds a manifest; a
/// dependency built earlier in this run (by its canonical directory) is
/// reused; one being built already is a cycle; one without sources gives
/// its headers alone; the rest is built.
pub fn plan_path_dep(
    name: &str,
    dep_dir: &str,
    dir_exists: bool,
    manifest_exists: bool,
    canonical: &str,
    built: &StrMap<FetchedDep>,
    building: &StrSet,
    include_exists: bool,
    has_sources: bool,
) -> (r: Result<PathDepPlan, String>)
    requires
        built.wf(),
        building.wf(),
    ensures
        !dir_exists ==> (r is Err && r->Err_0@ == missing_dir_message(name@, dep_dir@)),
        dir_exists && !manifest_exists ==> (r is Err && r->Err_0@ == missing_manifest_message(name@, dep_dir@)),
        dir_exists && manifest_exists && built.has_key(canonical@) ==> (r matches Ok(PathDepPlan::Cached(d))
            && same_fetched(d, built.lookup(canonical@)->0)),
        dir_exists && manifest_exists && !built.has_key(canonical@) && building.has(canonical@) ==> (r is Err
            && r->Err_0@ == circular_message(name@, canonical@)),
        dir_exists && manifest_exists && !built.has_key(canonical@) && !building.has(canonical@) && !has_sources
            ==> (r matches Ok(PathDepPlan::HeaderOnly(d)) && d.name@ == name@ && strs(d.include_dirs@)
            == own_includes(canonical@, include_exists) && d.lib_dirs@.len() == 0 && d.libs@.len() == 0
            && d.frameworks@.len() == 0 && d.defines@.len() == 0),
        dir_exists && manifest_exists && !built.has_key(canonical@) && !building.has(canonical@) && has_sources
            ==> (r matches Ok(PathDepPlan::Build)),
{
    if !dir_exists {
        let mut e = "path dependency '".to_string();
        e.append(name);
        e.append("' points to '");
        e.append(dep_dir);
        e.append("' which does not exist");
        return Err(e);
    }
    if !manifest_exists {
        let mut e = "path dependency '".to_string();
        e.append(name);
        e.append("' at '");
        e.append(dep_dir);
        e.append("' has no Ordo.toml");
        return Err(e);
    }
    match built.get(canonical) {
        Some(d) => {
            return Ok(PathDepPlan::Cached(copy_fetched(d)));
        },
        None => {},
    }
    if building.contains(canonical) {
        let mut e = "circular path dependency detected: '".to_string();
        e.append(name);
        e.append("' at '");
        e.append(canonical);
        e.append("'");
        return Err(e);
    }
    if !has_sources {
        return Ok(
            PathDepPlan::HeaderOnly(
                FetchedDep {
                    name: name.to_string(),
                    include_dirs: path_dep_own_includes(canonical, include_exists),
                    lib_dirs: Vec::new(),
                    libs: Vec::new(),
                    frameworks: Vec::new(),
                    defines: Vec::new(),
                },
            ),
        );
    }
    Ok(PathDepPlan::Build)
}

/// Every member of the workspace has a `[package]` (as loading ensures).
pub open spec fn members_packaged(ws: Workspace) -> bool {
    forall|i: int| 0 <= i < ws.members@.len() ==> (#[trigger] ws.members@[i]).manifest.package is Some
}

/// The member is an executable.
pub open spec fn is_exec_member(m: WorkspaceMember) -> bool {
    m.manifest.package matches Some(p) && p.package_type == PackageType::Executable
}

/// The names of the executable members, in member order.
pub open spec fn exec_members(ms: Seq<WorkspaceMember>) -> Seq<Seq<char>> {
    ms.filter(|m: WorkspaceMember| is_exec_member(m)).map_values(|m: WorkspaceMember| m.name@)
}

pub open spec fn not_executable_message(name: Seq<char>, t: PackageType) -> Seq<char> {
    "cannot run '"@ + name + "': it is a "@ + package_type_name(t) + ", not an executable"@
}

pub open spec fn no_executable_message() -> Seq<char> {
    "no executable members in workspace; use -p to specify a member"@
}

pub open spec fn many_executables_message(names: Seq<Seq<char>>) -> Seq<char> {
    "multiple executable members in workspace: "@ + join(names, ", "@) + "; use -p to specify one"@
}

/// The member `ordo run` runs in a workspace: the named one, which must be
/// an executable, or else the only executable member.
pub fn run_target(ws: &Workspace, package: Option<&str>) -> (r: Result<String, String>)
    requires
        members_packaged(*ws),
    ensures
        package is None ==> {
            let ex = exec_members(ws.members@);
            &&& ex.len() == 0 ==> r is Err && r->Err_0@ == no_executable_message()
            &&& ex.len() == 1 ==> r is Ok && r->Ok_0@ == ex[0]
            &&& ex.len() > 1 ==> r is Err && r->Err_0@ == many_executables_message(ex)
        },
        package is Some && !member_names_of(ws.members@).contains(package->Some_0@) ==> (r is Err
            && r->Err_0@ == unknown_member_message(package->Some_0@, member_names_of(ws.members@))),
        package is Some && member_names_of(ws.members@).contains(package->Some_0@) ==> ({
            let m = ws.members@[member_index(ws.members@, package->Some_0@)];
            if is_exec_member(m) {
                r is Ok && r->Ok_0@ == package->Some_0@
            } else {
                r is Err && r->Err_0@ == not_executable_message(package->Some_0@, m.manifest.package->0.package_type)
            }
        }),
{
    match package {
        Some(name) => {
            match ws.select_members(Some(name)) {
                Err(e) => {
                    return Err(e);
                },
                Ok(_) => {},
            }
            let m = match ws.find_member(name) {
                Some(m) => m,
                None => {
                    return Err(String::new());
                },
            };
            proof {
                let mi = choose|i: int|
                    0 <= i < ws.members@.len() && ws.members@[i] == *m && m.name@ == name@ && forall|j: int|
                        0 <= j < i ==> ws.members@[j].name@ != name@;
                let idx = member_index(ws.members@, name@);
                assert(member_names_of(ws.members@)[mi] == name@);
                assert(0 <= idx < ws.members@.len() && ws.members@[idx].name@ == name@ && forall|j: int|
                    0 <= j < idx ==> ws.members@[j].name@ != name@);
                if idx < mi {
                    assert(ws.members@[idx].name@ != name@);
                }
                if mi < idx {
                    assert(ws.members@[mi].name@ != name@);
                }
                assert(ws.members@[mi].manifest.package is Some);
            }
            match &m.manifest.package {
                Some(p) => {
                    if p.package_type == PackageType::Executable {
                        Ok(name.to_string())
                    } else {
                        let mut e = "cannot run '".to_string();
                        e.append(name);
                        e.append("': it is a ");
                        e.append(p.package_type.name());
                        e.append(", not an executable");
                        Err(e)
                    }
                },
                None => Err(String::new()),
            }
        },
        None => {
            let mut ex: Vec<String> = Vec::new();
            let mut i: usize = 0;
            while i < ws.members.len()
                invariant
                    i <= ws.members@.len(),
                    strs(ex@) == exec_members(ws.members@.take(i as int)),
                decreases ws.members.len() - i,
            {
                let m = &ws.members[i];
                proof {
                    let t = ws.members@.take(i as int);
                    assert(ws.members@.take(i + 1) =~= t.push(*m));
                    t.lemma_filter_push(*m, |m: WorkspaceMember| is_exec_member(m));
                }
                let ghost before = strs(ex@);
                let is_exec = match &m.manifest.package {
                    Some(p) => p.package_type == PackageType::Executable,
                    None => false,
                };
                if is_exec {
                    ex.push(m.name.clone());
                    proof {
                        let f = ws.members@.take(i as int).filter(|m: WorkspaceMember| is_exec_member(m));
                        assert(f.push(*m).map_values(|m: WorkspaceMember| m.name@) =~= f.map_values(
                            |m: WorkspaceMember| m.name@,
                        ).push(m.name@));
                    }
                    assert(strs(ex@) =~= before.push(m.name@));
                }
                i += 1;
            }
            assert(ws.members@.take(ws.members@.len() as int) =~= ws.members@);
            if ex.len() == 0 {
                Err("no executable members in workspace; use -p to specify a member".to_string())
            } else if ex.len() == 1 {
                Ok(ex[0].clone())
            } else {
                let mut e = "multiple executable members in workspace: ".to_string();
                e.append(join_strings(&ex, ", ").as_str());
                e.append("; use -p to specify one");
                Err(e)
            }
        },
    }
}

pub open spec fn not_runnable_message(t: PackageType) -> Seq<char> {
    "cannot run a "@ + package_type_name(t) + " project — only executables can be run"@
}

/// Only an executable can be run.
pub fn check_runnable(package_type: PackageType) -> (r: Result<(), String>)
    ensures
        package_type == PackageType::Executable <==> r is Ok,
        r matches Err(e) ==> e@ == not_runnable_message(package_type),
{
    if package_type == PackageType::Executable {
        Ok(())
    } else {
        let mut e = "cannot run a ".to_string();
        e.append(package_type.name());
        e.append(" project — only executables can be run");
        Err(e)
    }
}

/// Where a path dependency's headers are looked for when its manifest is
/// not built: its `include` directory when there is one, else the
/// dependency's directory itself when it exists, else nowhere.
pub fn path_dep_include_dirs(dep_dir: &str, include_exists: bool, dir_exists: bool) -> (r: Vec<String>)
    ensures
        strs(r@) == (if include_exists {
            seq![joined_path(dep_dir@, "include"@)]
        } else if dir_exists {
            seq![dep_dir@]
        } else {
            Seq::empty()
        }),
{
    let mut r: Vec<String> = Vec::new();
    if include_exists {
        r.push(path_join(dep_dir, "include"));
    } else if dir_exists {
        r.push(dep_dir.to_string());
    }
    proof {
        let e: Seq<Seq<char>> = if include_exists {
            seq![joined_path(dep_dir@, "include"@)]
        } else if dir_exists {
            seq![dep_dir@]
        } else {
            Seq::empty()
        };
        assert(strs(r@) =~= e);
    }
    r
}

} // verus!
