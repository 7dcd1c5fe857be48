//! What `ordo tree` shows: a package's dependencies, each with what was
//! fetched for it, or a workspace's members in build order with their
//! dependencies.
use vstd::prelude::*;
use crate::dag::MemberDag;
use crate::manifest::{opt_str, source_of, DependencySource, DependencySpec, Package, ProviderKind};
use crate::providers::FetchedDep;
use crate::strmap::StrMap;
use crate::text::{join, join_strings, strs};
use crate::workspace::{Workspace, WorkspaceMember};

verus! {

/// One line of a tree: what leads it (branch or continuation), its text,
/// and whether it is a detail (shown dimmed) rather than an entry.
#[derive(Debug)]
pub struct TreeLine {
    pub lead: String,
    pub text: String,
    pub detail: bool,
}

pub open spec fn lines_view(v: Seq<TreeLine>) -> Seq<(Seq<char>, Seq<char>, bool)> {
    v.map_values(|l: TreeLine| (l.lead@, l.text@, l.detail))
}

/// The branch before an entry: the last one closes the tree.
pub open spec fn branch(last: bool) -> Seq<char> {
    if last {
        "└── "@
    } else {
        "├── "@
    }
}

/// What leads an entry's details.
pub open spec fn continuation(last: bool) -> Seq<char> {
    if last {
        "    "@
    } else {
        "│   "@
    }
}

fn leads(last: bool) -> (r: (&'static str, &'static str))
    ensures
        r.0@ == branch(last),
        r.1@ == continuation(last),
{
    if last {
        ("└── ", "    ")
    } else {
        ("├── ", "│   ")
    }
}

/// How a dependency's source is shown after its version.
pub open spec fn source_label(s: DependencySource) -> Seq<char> {
    match s {
        DependencySource::Provider(ProviderKind::Vcpkg) => " (vcpkg)"@,
        DependencySource::Provider(ProviderKind::Conan) => " (conan)"@,
        DependencySource::Provider(ProviderKind::PkgConfig) => " (pkg-config)"@,
        DependencySource::Provider(ProviderKind::System) => " (system)"@,
        DependencySource::Git => " (git)"@,
        DependencySource::Path => " (path)"@,
        _ => Seq::empty(),
    }
}

/// A dependency's entry: `name v1.2 (vcpkg) [optional]`, with `*` for no
/// version.
pub open spec fn dep_text(name: Seq<char>, d: DependencySpec) -> Seq<char> {
    name + " v"@ + (match opt_str(d.version) {
        Some(v) => v,
        None => "*"@,
    }) + source_label(source_of(d)) + (if d.optional {
        " [optional]"@
    } else {
        Seq::empty()
    })
}

/// `label` and the items joined by `, `, when there are items.
pub open spec fn listed(label: Seq<char>, items: Seq<Seq<char>>) -> Seq<Seq<char>> {
    if items.len() == 0 {
        Seq::empty()
    } else {
        seq![label + join(items, ", "@)]
    }
}

/// The details of what was fetched for a dependency: its libraries,
/// frameworks and include directories, each where there are any.
pub open spec fn fetched_details(f: Option<FetchedDep>) -> Seq<Seq<char>> {
    match f {
        Some(d) => listed("libs: "@, strs(d.libs@)) + listed("frameworks: "@, strs(d.frameworks@)) + listed(
            "include: "@,
            strs(d.include_dirs@),
        ),
        None => Seq::empty(),
    }
}

pub open spec fn as_details(lead: Seq<char>, texts: Seq<Seq<char>>) -> Seq<(Seq<char>, Seq<char>, bool)> {
    texts.map_values(|t: Seq<char>| (lead, t, true))
}

/// The lines of the dependency at position `i` of `n`.
pub open spec fn dep_entry(name: Seq<char>, d: DependencySpec, f: Option<FetchedDep>, last: bool) -> Seq<
    (Seq<char>, Seq<char>, bool),
> {
    seq![(branch(last), dep_text(name, d), false)] + as_details(continuation(last), fetched_details(f))
}

/// The tree of the first `k` dependencies.
pub open spec fn dep_tree_upto(
    names: Seq<Seq<char>>,
    deps: Seq<DependencySpec>,
    fetched: Seq<Option<FetchedDep>>,
    k: int,
) -> Seq<(Seq<char>, Seq<char>, bool)>
    decreases k,
{
    if k <= 0 {
        Seq::empty()
    } else {
        dep_tree_upto(names, deps, fetched, k - 1) + dep_entry(
            names[k - 1],
            deps[k - 1],
            fetched[k - 1],
            k == names.len(),
        )
    }
}

/// The entries of a tree (its lines that are not details).
pub open spec fn entries(lines: Seq<(Seq<char>, Seq<char>, bool)>) -> Seq<(Seq<char>, Seq<char>, bool)> {
    lines.filter(|l: (Seq<char>, Seq<char>, bool)| !l.2)
}

/// Detail lines are no entries.
proof fn lemma_details_are_no_entries(lead: Seq<char>, texts: Seq<Seq<char>>)
    ensures
        entries(as_details(lead, texts)) == Seq::<(Seq<char>, Seq<char>, bool)>::empty(),
    decreases texts.len(),
{
    let pred = |l: (Seq<char>, Seq<char>, bool)| !l.2;
    if texts.len() == 0 {
        assert(as_details(lead, texts) =~= Seq::empty());
        assert(Seq::<(Seq<char>, Seq<char>, bool)>::empty().filter(pred) =~= Seq::empty());
    } else {
        lemma_details_are_no_entries(lead, texts.drop_last());
        let prev = as_details(lead, texts.drop_last());
        assert(as_details(lead, texts) =~= prev.push((lead, texts.last(), true)));
        prev.lemma_filter_push((lead, texts.last(), true), pred);
    }
}

/// A dependency tree has one entry per dependency, in order, each naming
/// its dependency; only the last one closes the tree.
pub proof fn lemma_one_entry_per_dependency(
    names: Seq<Seq<char>>,
    deps: Seq<DependencySpec>,
    fetched: Seq<Option<FetchedDep>>,
    k: int,
)
    requires
        0 <= k <= names.len(),
        deps.len() == names.len(),
        fetched.len() == names.len(),
    ensures
        entries(dep_tree_upto(names, deps, fetched, k)).len() == k,
        forall|i: int|
            0 <= i < k ==> entries(dep_tree_upto(names, deps, fetched, k))[i] == (
                branch(i == names.len() - 1),
                dep_text(names[i], deps[i]),
                false,
            ),
    decreases k,
{
    if k > 0 {
        lemma_one_entry_per_dependency(names, deps, fetched, k - 1);
        let prev = dep_tree_upto(names, deps, fetched, k - 1);
        let last = k == names.len();
        let head = seq![(branch(last), dep_text(names[k - 1], deps[k - 1]), false)];
        let det = as_details(continuation(last), fetched_details(fetched[k - 1]));
        let pred = |l: (Seq<char>, Seq<char>, bool)| !l.2;
        assert(dep_entry(names[k - 1], deps[k - 1], fetched[k - 1], last) == head + det);
        Seq::filter_distributes_over_add(prev, head + det, pred);
        Seq::filter_distributes_over_add(head, det, pred);
        lemma_details_are_no_entries(continuation(last), fetched_details(fetched[k - 1]));
        head.lemma_filter_push(head[0], pred);
        assert(head.filter(pred) =~= head) by {
            assert(head =~= Seq::<(Seq<char>, Seq<char>, bool)>::empty().push(head[0]));
            Seq::<(Seq<char>, Seq<char>, bool)>::empty().lemma_filter_push(head[0], pred);
            assert(Seq::<(Seq<char>, Seq<char>, bool)>::empty().filter(pred) =~= Seq::empty());
        }
        assert(entries(dep_tree_upto(names, deps, fetched, k)) =~= entries(prev) + head);
    }
}

fn push_line(r: &mut Vec<TreeLine>, lead: &str, text: String, detail: bool)
    ensures
        lines_view(final(r)@) == lines_view(old(r)@).push((lead@, text@, detail)),
{
    let ghost before = lines_view(r@);
    let l = TreeLine { lead: lead.to_string(), text, detail };
    r.push(l);
    assert(lines_view(r@) =~= before.push((lead@, text@, detail)));
}

fn push_listed(r: &mut Vec<TreeLine>, lead: &str, label: &str, items: &Vec<String>)
    ensures
        lines_view(final(r)@) == lines_view(old(r)@) + as_details(lead@, listed(label@, strs(items@))),
{
    if items.len() == 0 {
        assert(as_details(lead@, listed(label@, strs(items@))) =~= Seq::empty());
        assert(lines_view(r@) =~= lines_view(r@) + Seq::empty());
    } else {
        let mut t = label.to_string();
        t.append(join_strings(items, ", ").as_str());
        let ghost before = lines_view(r@);
        push_line(r, lead, t, true);
        assert(as_details(lead@, listed(label@, strs(items@))) =~= seq![(lead@, t@, true)]);
        assert(lines_view(r@) =~= before + seq![(lead@, t@, true)]);
    }
}

fn dependency_line(name: &str, d: &DependencySpec) -> (r: String)
    ensures
        r@ == dep_text(name@, *d),
{
    let mut r = name.to_string();
    r.append(" v");
    match &d.version {
        Some(v) => r.append(v.as_str()),
        None => r.append("*"),
    }
    let ghost head = r@;
    assert(head == name@ + " v"@ + (match opt_str(d.version) {
        Some(v) => v,
        None => "*"@,
    }));
    let label = match d.source_kind() {
        DependencySource::Provider(ProviderKind::Vcpkg) => " (vcpkg)",
        DependencySource::Provider(ProviderKind::Conan) => " (conan)",
        DependencySource::Provider(ProviderKind::PkgConfig) => " (pkg-config)",
        DependencySource::Provider(ProviderKind::System) => " (system)",
        DependencySource::Git => " (git)",
        DependencySource::Path => " (path)",
        _ => "",
    };
    proof {
        reveal_strlit("");
    }
    assert(label@ == source_label(source_of(*d)));
    r.append(label);
    let opt = if d.optional {
        " [optional]"
    } else {
        ""
    };
    assert(opt@ == (if d.optional {
        " [optional]"@
    } else {
        Seq::<char>::empty()
    }));
    r.append(opt);
    assert(r@ =~= dep_text(name@, *d));
    r
}

/// The tree of a package's dependencies, in the manifest's order, with
/// `fetched[i]` what was fetched for the `i`th (if anything).
pub fn dependency_tree(deps: &StrMap<DependencySpec>, fetched: &Vec<Option<FetchedDep>>) -> (r: Vec<TreeLine>)
    requires
        deps.wf(),
        fetched@.len() == deps.key_list().len(),
    ensures
        lines_view(r@) == dep_tree_upto(
            deps.key_list(),
            deps.value_list(),
            fetched@,
            deps.key_list().len() as int,
        ),
{
    let names = deps.keys();
    let specs = deps.values();
    proof {
        deps.lemma_wf();
    }
    let n = names.len();
    let mut r: Vec<TreeLine> = Vec::new();
    let mut i: usize = 0;
    while i < n
        invariant
            i <= n == names@.len() == specs@.len() == fetched@.len(),
            strs(names@) == deps.key_list(),
            specs@ == deps.value_list(),
            lines_view(r@) == dep_tree_upto(deps.key_list(), deps.value_list(), fetched@, i as int),
        decreases n - i,
    {
        let last = i + 1 == n;
        let (b, c) = leads(last);
        let ghost start = lines_view(r@);
        push_line(&mut r, b, dependency_line(names[i].as_str(), &specs[i]), false);
        match &fetched[i] {
            Some(f) => {
                push_listed(&mut r, c, "libs: ", &f.libs);
                push_listed(&mut r, c, "frameworks: ", &f.frameworks);
                push_listed(&mut r, c, "include: ", &f.include_dirs);
                proof {
                    let lb = listed("libs: "@, strs(f.libs@));
                    let fw = listed("frameworks: "@, strs(f.frameworks@));
                    let inc = listed("include: "@, strs(f.include_dirs@));
                    assert(as_details(c@, lb + fw + inc) =~= as_details(c@, lb) + as_details(c@, fw)
                        + as_details(c@, inc));
                }
            },
            None => {},
        }
        assert(strs(names@)[i as int] == names@[i as int]@);
        assert(lines_view(r@) =~= start + dep_entry(names@[i as int]@, specs@[i as int], fetched@[i as int], last));
        i += 1;
    }
    r
}

/// The first member named `name`.
pub open spec fn member_index(ms: Seq<WorkspaceMember>, name: Seq<char>) -> int {
    choose|i: int| 0 <= i < ms.len() && ms[i].name@ == name && forall|j: int| 0 <= j < i ==> ms[j].name@ != name
}

/// The names of the dependencies that do not come from a path.
pub open spec fn outside_deps(names: Seq<Seq<char>>, deps: Seq<DependencySpec>) -> Seq<Seq<char>>
    decreases names.len(),
{
    if names.len() == 0 || deps.len() < names.len() {
        Seq::empty()
    } else {
        let k = names.len() - 1;
        outside_deps(names.drop_last(), deps) + (if source_of(deps[k]) != DependencySource::Path {
            seq![names[k]]
        } else {
            Seq::empty()
        })
    }
}

/// A member's lines: `name v1.0`, then the members it depends on and the
/// dependencies it takes from elsewhere, each where there are any.
pub open spec fn member_entry(p: Package, member_deps: Seq<Seq<char>>, outside: Seq<Seq<char>>, last: bool) -> Seq<
    (Seq<char>, Seq<char>, bool),
> {
    seq![(branch(last), p.name@ + " v"@ + p.version@, false)] + as_details(
        continuation(last),
        listed("deps: "@, member_deps) + listed("ext: "@, outside),
    )
}

/// The lines of the member at position `k` of the build order.
pub open spec fn member_lines(ws: Workspace, dag: MemberDag, k: int) -> Seq<(Seq<char>, Seq<char>, bool)> {
    let name = dag.order_list()[k];
    let m = ws.members@[member_index(ws.members@, name)];
    member_entry(
        m.manifest.package->0,
        if dag.graph().has_key(name) {
            crate::dag::deps_in(dag.graph(), name)
        } else {
            Seq::empty()
        },
        outside_deps(m.manifest.dependencies.key_list(), m.manifest.dependencies.value_list()),
        k == dag.order_list().len() - 1,
    )
}

pub open spec fn workspace_tree_upto(ws: Workspace, dag: MemberDag, k: int) -> Seq<(Seq<char>, Seq<char>, bool)>
    decreases k,
{
    if k <= 0 {
        Seq::empty()
    } else {
        workspace_tree_upto(ws, dag, k - 1) + member_lines(ws, dag, k - 1)
    }
}

/// A member of that name is listed.
pub open spec fn names_member(ms: Seq<WorkspaceMember>, name: Seq<char>) -> bool {
    exists|i: int| 0 <= i < ms.len() && ms[i].name@ == name
}

/// Every member has a `[package]` and a well-formed dependency table, and
/// every name of the build order is a member.
pub open spec fn tree_ready(ws: Workspace, dag: MemberDag) -> bool {
    &&& dag.wf()
    &&& forall|i: int|
        0 <= i < ws.members@.len() ==> (#[trigger] ws.members@[i]).manifest.dependencies.wf()
            && ws.members@[i].manifest.package is Some
    &&& forall|k: int| 0 <= k < dag.order_list().len() ==> names_member(ws.members@, #[trigger] dag.order_list()[k])
}

fn outside_dep_names(deps: &StrMap<DependencySpec>) -> (r: Vec<String>)
    requires
        deps.wf(),
    ensures
        strs(r@) == outside_deps(deps.key_list(), deps.value_list()),
{
    let names = deps.keys();
    let specs = deps.values();
    proof {
        deps.lemma_wf();
    }
    let mut r: Vec<String> = Vec::new();
    let mut i: usize = 0;
    while i < names.len()
        invariant
            i <= names@.len() == specs@.len(),
            strs(names@) == deps.key_list(),
            specs@ == deps.value_list(),
            strs(r@) == outside_deps(strs(names@).take(i as int), specs@),
        decreases names.len() - i,
    {
        let ghost before = strs(r@);
        assert(strs(names@).take(i + 1).drop_last() =~= strs(names@).take(i as int));
        if specs[i].source_kind() != DependencySource::Path {
            r.push(names[i].clone());
            assert(strs(r@) =~= before.push(names@[i as int]@));
        }
        i += 1;
    }
    assert(strs(names@).take(names@.len() as int) =~= strs(names@));
    r
}

fn push_member(r: &mut Vec<TreeLine>, m: &WorkspaceMember, member_deps: &[String], last: bool)
    requires
        m.manifest.package is Some,
        m.manifest.dependencies.wf(),
    ensures
        lines_view(final(r)@) == lines_view(old(r)@) + member_entry(
            m.manifest.package->0,
            strs(member_deps@),
            outside_deps(m.manifest.dependencies.key_list(), m.manifest.dependencies.value_list()),
            last,
        ),
{
    let pkg = match &m.manifest.package {
        Some(p) => p,
        None => {
            return;
        },
    };
    let (b, c) = leads(last);
    let ghost start = lines_view(r@);
    let mut head = pkg.name.clone();
    head.append(" v");
    head.append(pkg.version.as_str());
    push_line(r, b, head, false);
    let mut dv: Vec<String> = Vec::new();
    let mut j: usize = 0;
    while j < member_deps.len()
        invariant
            j <= member_deps@.len(),
            strs(dv@) == strs(member_deps@).take(j as int),
        decreases member_deps.len() - j,
    {
        let ghost before = strs(dv@);
        dv.push(member_deps[j].clone());
        assert(strs(dv@) =~= before.push(member_deps@[j as int]@));
        assert(strs(member_deps@).take(j + 1) =~= strs(member_deps@).take(j as int).push(
            member_deps@[j as int]@,
        ));
        j += 1;
    }
    assert(strs(member_deps@).take(member_deps@.len() as int) =~= strs(member_deps@));
    push_listed(r, c, "deps: ", &dv);
    let ext = outside_dep_names(&m.manifest.dependencies);
    push_listed(r, c, "ext: ", &ext);
    proof {
        let d1 = listed("deps: "@, strs(dv@));
        let d2 = listed("ext: "@, strs(ext@));
        assert(as_details(c@, d1 + d2) =~= as_details(c@, d1) + as_details(c@, d2));
    }
}

/// The tree of a workspace: its members in build order.
pub fn workspace_tree(ws: &Workspace, dag: &MemberDag) -> (r: Vec<TreeLine>)
    requires
        tree_ready(*ws, *dag),
    ensures
        lines_view(r@) == workspace_tree_upto(*ws, *dag, dag.order_list().len() as int),
{
    let order = dag.build_order();
    let n = order.len();
    let mut r: Vec<TreeLine> = Vec::new();
    let mut k: usize = 0;
    while k < n
        invariant
            k <= n == dag.order_list().len(),
            strs(order@) == dag.order_list(),
            tree_ready(*ws, *dag),
            lines_view(r@) == workspace_tree_upto(*ws, *dag, k as int),
        decreases n - k,
    {
        let name = order[k].as_str();
        assert(strs(order@)[k as int] == name@);
        let m = match ws.find_member(name) {
            Some(m) => m,
            None => {
                proof {
                    assert(names_member(ws.members@, dag.order_list()[k as int]));
                }
                return r;
            },
        };
        let ghost mi = choose|i: int|
            0 <= i < ws.members@.len() && ws.members@[i] == *m && m.name@ == name@ && forall|j: int|
                0 <= j < i ==> ws.members@[j].name@ != name@;
        proof {
            let idx = member_index(ws.members@, name@);
            assert(0 <= idx < ws.members@.len() && ws.members@[idx].name@ == name@ && forall|j: int|
                0 <= j < idx ==> ws.members@[j].name@ != name@);
            if idx < mi {
                assert(ws.members@[idx].name@ != name@);
            }
            if mi < idx {
                assert(ws.members@[mi].name@ != name@);
            }
            assert(idx == mi);
            assert(ws.members@[mi].manifest.dependencies.wf());
        }
        let last = k + 1 == n;
        let member_deps = dag.deps_of(name);
        let ghost start = lines_view(r@);
        push_member(&mut r, m, member_deps, last);
        assert(lines_view(r@) =~= start + member_lines(*ws, *dag, k as int));
        k += 1;
    }
    r
}

/// The first line of a tree: the package and its version, marked as a
/// workspace where it is one (a workspace without a package shows only
/// that).
pub open spec fn root_text(pkg: Option<Package>, workspace: bool) -> Seq<char> {
    match pkg {
        Some(p) => p.name@ + " v"@ + p.version@ + (if workspace {
            " (workspace)"@
        } else {
            Seq::empty()
        }),
        None => "(workspace)"@,
    }
}

pub fn root_line(pkg: Option<&Package>, workspace: bool) -> (r: String)
    ensures
        r@ == root_text(
            match pkg {
                Some(p) => Some(*p),
                None => None,
            },
            workspace,
        ),
{
    match pkg {
        Some(p) => {
            let mut r = p.name.clone();
            r.append(" v");
            r.append(p.version.as_str());
            if workspace {
                r.append(" (workspace)");
            }
            assert(r@ =~= root_text(Some(*p), workspace));
            r
        },
        None => "(workspace)".to_string(),
    }
}

} // verus!
