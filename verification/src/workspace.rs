//! Workspaces: their members, the settings members inherit from the root,
//! and the order in which members are built (dependencies first).
use vstd::prelude::*;
use crate::manifest::{
    CStandard, CompilerKind, CppStandard, DependencySpec, Language, LinkerKind, Manifest,
    Toolchain, WorkspaceConfig,
};
use crate::strmap::{compare_str, lex_lt, Cmp, StrMap, StrSet, lemma_lex_asym, lemma_lex_irrefl, lemma_lex_total, lemma_lex_trans};
use crate::text::{join, join_strings, str_eq, strs};

verus! {

/// One member of a workspace.
#[derive(Debug)]
pub struct WorkspaceMember {
    pub name: String,
    pub dir: String,
    pub manifest: Manifest,
}

/// A loaded workspace: the root manifest and its members.
#[derive(Debug)]
pub struct Workspace {
    pub root_dir: String,
    pub root_manifest: Manifest,
    pub members: Vec<WorkspaceMember>,
}

/// The language standards a member builds with.
#[derive(Debug, Clone, Copy)]
pub struct EffectiveLanguage {
    pub c: Option<CStandard>,
    pub cpp: Option<CppStandard>,
}

/// The toolchain a member builds with.
#[derive(Debug, Clone, Copy)]
pub struct EffectiveToolchain {
    pub compiler: Option<CompilerKind>,
    pub linker: Option<LinkerKind>,
}

pub open spec fn or_else<T>(a: Option<T>, b: Option<T>) -> Option<T> {
    if a is Some {
        a
    } else {
        b
    }
}

impl WorkspaceMember {
    /// The member's own standards, falling back to the root's.
    pub fn effective_language(&self, root: &Language) -> (r: EffectiveLanguage)
        ensures
            r.c == or_else(self.manifest.language.c, root.c),
            r.cpp == or_else(self.manifest.language.cpp, root.cpp),
    {
        EffectiveLanguage {
            c: if self.manifest.language.c.is_some() {
                self.manifest.language.c
            } else {
                root.c
            },
            cpp: if self.manifest.language.cpp.is_some() {
                self.manifest.language.cpp
            } else {
                root.cpp
            },
        }
    }

    /// The member's own toolchain choices, falling back to the root's.
    pub fn effective_toolchain(&self, root: &Toolchain) -> (r: EffectiveToolchain)
        ensures
            r.compiler == or_else(self.manifest.toolchain.compiler, root.compiler),
            r.linker == or_else(self.manifest.toolchain.linker, root.linker),
    {
        EffectiveToolchain {
            compiler: if self.manifest.toolchain.compiler.is_some() {
                self.manifest.toolchain.compiler
            } else {
                root.compiler
            },
            linker: if self.manifest.toolchain.linker.is_some() {
                self.manifest.toolchain.linker
            } else {
                root.linker
            },
        }
    }
}

/// What a workspace command says of a member that is not there.
pub open spec fn unknown_member_message(t: Seq<char>, names: Seq<Seq<char>>) -> Seq<char> {
    "package '"@ + t + "' not found in workspace; available members: "@ + join(names, ", "@)
}

pub open spec fn member_names_of(members: Seq<WorkspaceMember>) -> Seq<Seq<char>> {
    members.map_values(|m: WorkspaceMember| m.name@)
}

/// The contents of a list of string slices.
pub open spec fn str_views(v: Seq<&str>) -> Seq<Seq<char>> {
    v.map_values(|s: &str| s@)
}

impl Workspace {
    pub fn ws_config(&self) -> (r: &WorkspaceConfig)
        requires
            self.root_manifest.workspace is Some,
        ensures
            *r == self.root_manifest.workspace->0,
    {
        self.root_manifest.workspace.as_ref().unwrap()
    }

    pub fn root_language(&self) -> (r: &Language)
        ensures
            *r == self.root_manifest.language,
    {
        &self.root_manifest.language
    }

    pub fn root_toolchain(&self) -> (r: &Toolchain)
        ensures
            *r == self.root_manifest.toolchain,
    {
        &self.root_manifest.toolchain
    }

    /// The first member with the given name.
    pub fn find_member(&self, name: &str) -> (r: Option<&WorkspaceMember>)
        ensures
            match r {
                Some(m) => exists|i: int|
                    0 <= i < self.members@.len() && self.members@[i] == *m && m.name@ == name@
                        && forall|j: int| 0 <= j < i ==> self.members@[j].name@ != name@,
                None => forall|j: int| 0 <= j < self.members@.len() ==> self.members@[j].name@ != name@,
            },
    {
        let mut i: usize = 0;
        while i < self.members.len()
            invariant
                i <= self.members.len(),
                forall|j: int| 0 <= j < i ==> self.members@[j].name@ != name@,
            decreases self.members.len() - i,
        {
            if str_eq(self.members[i].name.as_str(), name) {
                return Some(&self.members[i]);
            }
            i += 1;
        }
        None
    }

    /// The members' names, in member order.
    pub fn member_names(&self) -> (r: Vec<&str>)
        ensures
            str_views(r@) == member_names_of(self.members@),
    {
        let mut r: Vec<&str> = Vec::new();
        let mut i: usize = 0;
        while i < self.members.len()
            invariant
                i <= self.members.len(),
                str_views(r@) == member_names_of(self.members@).subrange(0, i as int),
            decreases self.members.len() - i,
        {
            let ghost prev = r@;
            let nm = self.members[i].name.as_str();
            r.push(nm);
            assert(str_views(r@) =~= str_views(prev).push(nm@));
            assert(member_names_of(self.members@).subrange(0, i + 1) =~= member_names_of(
                self.members@,
            ).subrange(0, i as int).push(nm@));
            i += 1;
        }
        assert(member_names_of(self.members@).subrange(0, self.members.len() as int)
            =~= member_names_of(self.members@));
        r
    }

    /// The members' names, as owned strings, in member order.
    pub fn member_name_strings(&self) -> (r: Vec<String>)
        ensures
            strs(r@) == member_names_of(self.members@),
    {
        let mut r: Vec<String> = Vec::new();
        let mut i: usize = 0;
        while i < self.members.len()
            invariant
                i <= self.members.len(),
                strs(r@) == member_names_of(self.members@).subrange(0, i as int),
            decreases self.members.len() - i,
        {
            let ghost prev = r@;
            r.push(self.members[i].name.clone());
            assert(strs(r@) =~= strs(prev).push(self.members@[i as int].name@));
            assert(member_names_of(self.members@).subrange(0, i + 1) =~= member_names_of(
                self.members@,
            ).subrange(0, i as int).push(self.members@[i as int].name@));
            i += 1;
        }
        assert(member_names_of(self.members@).subrange(0, self.members.len() as int)
            =~= member_names_of(self.members@));
        r
    }

    /// The members a workspace command runs on: the named one (which must
    /// exist), or all of them in member order.
    pub fn select_members(&self, package: Option<&str>) -> (r: Result<Vec<String>, String>)
        ensures
            package is None ==> r is Ok && strs(r->Ok_0@) == member_names_of(self.members@),
            (package is Some && member_names_of(self.members@).contains(package->Some_0@)) ==> (r is Ok
                && strs(r->Ok_0@) == seq![package->Some_0@]),
            (package is Some && !member_names_of(self.members@).contains(package->Some_0@)) ==> (r is Err
                && r->Err_0@ == unknown_member_message(package->Some_0@, member_names_of(self.members@))),
    {
        match package {
            None => {
                let v = self.member_name_strings();
                assert(strs(v@) == member_names_of(self.members@));
                Ok(v)
            },
            Some(t) => match self.find_member(t) {
                Some(m) => {
                    proof {
                        let i = choose|i: int|
                            0 <= i < self.members@.len() && self.members@[i] == *m && m.name@ == t@;
                        assert(member_names_of(self.members@)[i] == t@);
                    }
                    let v = vec![t.to_string()];
                    assert(strs(v@) =~= seq![t@]);
                    Ok(v)
                },
                None => {
                    let names = self.member_name_strings();
                    assert(!member_names_of(self.members@).contains(t@)) by {
                        if member_names_of(self.members@).contains(t@) {
                            let k = choose|k: int| 0 <= k < member_names_of(self.members@).len()
                                && member_names_of(self.members@)[k] == t@;
                            assert(self.members@[k].name@ == t@);
                        }
                    }
                    let mut e = "package '".to_string();
                    e.append(t);
                    e.append("' not found in workspace; available members: ");
                    let joined = join_strings(&names, ", ");
                    e.append(joined.as_str());
                    assert(e@ =~= unknown_member_message(t@, member_names_of(self.members@)));
                    Err(e)
                },
            },
        }
    }
}

/// Two dependency declarations with the same content.
pub open spec fn same_dep(a: DependencySpec, b: DependencySpec) -> bool {
    &&& crate::manifest::opt_str(a.version) == crate::manifest::opt_str(b.version)
    &&& crate::manifest::opt_str(a.path) == crate::manifest::opt_str(b.path)
    &&& crate::manifest::opt_str(a.git) == crate::manifest::opt_str(b.git)
    &&& crate::manifest::opt_str(a.tag) == crate::manifest::opt_str(b.tag)
    &&& crate::manifest::opt_str(a.branch) == crate::manifest::opt_str(b.branch)
    &&& crate::manifest::opt_str(a.rev) == crate::manifest::opt_str(b.rev)
    &&& a.provider == b.provider
    &&& a.optional == b.optional
    &&& a.workspace == b.workspace
    &&& strs(a.features@) == strs(b.features@)
    &&& crate::manifest::opt_str(a.with) == crate::manifest::opt_str(b.with)
}

fn clone_opt(o: &Option<String>) -> (r: Option<String>)
    ensures
        r == *o,
{
    match o {
        Some(s) => Some(s.clone()),
        None => None,
    }
}

fn clone_strings(v: &Vec<String>) -> (r: Vec<String>)
    ensures
        strs(r@) == strs(v@),
{
    let r = v.clone();
    assert(strs(r@) =~= strs(v@));
    r
}

/// A copy of a dependency declaration.
pub fn copy_dep(d: &DependencySpec) -> (r: DependencySpec)
    ensures
        same_dep(r, *d),
{
    DependencySpec {
        version: clone_opt(&d.version),
        path: clone_opt(&d.path),
        git: clone_opt(&d.git),
        tag: clone_opt(&d.tag),
        branch: clone_opt(&d.branch),
        rev: clone_opt(&d.rev),
        provider: d.provider,
        optional: d.optional,
        workspace: d.workspace,
        features: clone_strings(&d.features),
        with: clone_opt(&d.with),
    }
}

/// After replacing `workspace = true` entries of `before` by the root's
/// declarations in `ws`: every entry has the content it should have.
pub open spec fn inherits_from_workspace(
    before: StrMap<DependencySpec>,
    after: StrMap<DependencySpec>,
    ws: StrMap<DependencySpec>,
) -> bool {
    &&& after.key_list().to_set() == before.key_list().to_set()
    &&& forall|k: Seq<char>|
        #![trigger after.lookup(k)]
        before.lookup(k) is Some ==> after.lookup(k) is Some && if before.lookup(k)->0.workspace {
            same_dep(after.lookup(k)->0, ws.lookup(k)->0)
        } else {
            after.lookup(k) == before.lookup(k)
        }
}

/// The first key (in order) of `m` whose entry has `workspace = true` but
/// that `ws` does not declare.
pub open spec fn undeclared_workspace_dep(
    m: StrMap<DependencySpec>,
    ws: StrMap<DependencySpec>,
    k: Seq<char>,
) -> bool {
    m.lookup(k) is Some && m.lookup(k)->0.workspace && ws.lookup(k) is None
}

/// Replaces the `workspace = true` entries of one dependency table.
fn inherit_table(
    table: &mut StrMap<DependencySpec>,
    ws: &StrMap<DependencySpec>,
    what: &str,
) -> (r: Result<(), String>)
    requires
        old(table).wf(),
        ws.wf(),
    ensures
        final(table).wf(),
        r is Ok ==> inherits_from_workspace(*old(table), *final(table), *ws),
        r is Ok <==> !exists|k: Seq<char>| undeclared_workspace_dep(*old(table), *ws, k),
        r matches Err(msg) ==> exists|k: Seq<char>|
            undeclared_workspace_dep(*old(table), *ws, k) && msg@ == what@ + " '"@ + k
                + "' uses `workspace = true` but is not declared in [workspace.dependencies]"@,
{
    let ghost before = *table;
    let keys = table.keys().clone();
    proof {
        table.lemma_wf();
        assert(strs(keys@) == before.key_list());
    }
    let mut i: usize = 0;
    while i < keys.len()
        invariant
            table.wf(),
            before.wf(),
            before == *old(table),
            ws.wf(),
            strs(keys@) == before.key_list(),
            i <= keys.len(),
            table.key_list().to_set() == before.key_list().to_set(),
            forall|j: int| 0 <= j < i ==> !undeclared_workspace_dep(before, *ws, #[trigger] strs(keys@)[j]),
            forall|k: Seq<char>|
                #![trigger table.lookup(k)]
                before.lookup(k) is Some ==> table.lookup(k) is Some && if before.lookup(k)->0.workspace
                    && strs(keys@).subrange(0, i as int).contains(k) {
                    same_dep(table.lookup(k)->0, ws.lookup(k)->0)
                } else {
                    table.lookup(k) == before.lookup(k)
                },
        decreases keys.len() - i,
    {
        let key = &keys[i];
        let ghost kv = key@;
        proof {
            before.lemma_lookup_at(i as int);
            assert(strs(keys@)[i as int] == kv);
            assert(!strs(keys@).subrange(0, i as int).contains(kv)) by {
                before.lemma_wf();
                if strs(keys@).subrange(0, i as int).contains(kv) {
                    let j = choose|j: int| 0 <= j < i && strs(keys@).subrange(0, i as int)[j] == kv;
                    crate::strmap::lemma_sorted_distinct(strs(keys@), j, i as int);
                }
            }
        }
        let spec = table.get(key.as_str()).unwrap();
        if spec.workspace {
            match ws.get(key.as_str()) {
                None => {
                    proof {
                        assert(table.lookup(kv) == before.lookup(kv));
                        assert(before.lookup(kv)->0.workspace);
                        assert(undeclared_workspace_dep(before, *ws, kv));
                        assert(undeclared_workspace_dep(*old(table), *ws, kv));
                    }
                    let mut msg = what.to_string();
                    msg.append(" '");
                    msg.append(key.as_str());
                    msg.append("' uses `workspace = true` but is not declared in [workspace.dependencies]");
                    return Err(msg);
                },
                Some(w) => {
                    let copied = copy_dep(w);
                    table.insert(key.clone(), copied);
                },
            }
        }
        proof {
            let sub0 = strs(keys@).subrange(0, i as int);
            let sub1 = strs(keys@).subrange(0, i + 1);
            assert(sub1 =~= sub0.push(kv));
            assert forall|k: Seq<char>| sub1.contains(k) <==> (sub0.contains(k) || k == kv) by {
                if sub1.contains(k) && k != kv {
                    let j = choose|j: int| 0 <= j < sub1.len() && sub1[j] == k;
                    assert(sub0[j] == k);
                }
                if sub0.contains(k) {
                    let j = choose|j: int| 0 <= j < sub0.len() && sub0[j] == k;
                    assert(sub1[j] == k);
                }
                if k == kv {
                    assert(sub1[i as int] == k);
                }
            }
            assert(table.key_list().to_set() =~= before.key_list().to_set()) by {
                assert(before.key_list().to_set().contains(kv)) by {
                    assert(before.key_list()[i as int] == kv);
                }
            }
        }
        i += 1;
    }
    proof {
        assert(strs(keys@).subrange(0, keys.len() as int) =~= strs(keys@));
        assert forall|k: Seq<char>| !undeclared_workspace_dep(before, *ws, k) by {
            if before.lookup(k) is Some {
                assert(before.key_list().contains(k));
                let j = choose|j: int| 0 <= j < before.key_list().len() && before.key_list()[j] == k;
                assert(strs(keys@)[j] == k);
            }
        }
    }
    Ok(())
}

/// Gives a member the root's declaration for each dependency (and
/// dev-dependency) that says `workspace = true`.
pub fn resolve_workspace_deps(member: &mut Manifest, ws_config: &WorkspaceConfig) -> (r: Result<
    (),
    String,
>)
    requires
        old(member).wf(),
        ws_config.dependencies.wf(),
    ensures
        final(member).wf(),
        r is Ok <==> !exists|k: Seq<char>|
            undeclared_workspace_dep(old(member).dependencies, ws_config.dependencies, k)
                || undeclared_workspace_dep(
                old(member).dev_dependencies,
                ws_config.dependencies,
                k,
            ),
        r is Ok ==> inherits_from_workspace(
            old(member).dependencies,
            final(member).dependencies,
            ws_config.dependencies,
        ) && inherits_from_workspace(
            old(member).dev_dependencies,
            final(member).dev_dependencies,
            ws_config.dependencies,
        ),
{
    let r1 = inherit_table(&mut member.dependencies, &ws_config.dependencies, "dependency");
    if r1.is_err() {
        return r1;
    }
    inherit_table(&mut member.dev_dependencies, &ws_config.dependencies, "dev-dependency")
}

/// Members' names are pairwise distinct; otherwise names the first member
/// whose name an earlier member already has, and that earlier member.
pub fn validate_unique_names(members: &Vec<WorkspaceMember>) -> (r: Result<(), String>)
    ensures
        r is Ok <==> forall|i: int, j: int|
            0 <= i < j < members@.len() ==> members@[i].name@ != members@[j].name@,
        r matches Err(msg) ==> exists|i: int, j: int|
            0 <= i < j < members@.len() && members@[i].name@ == members@[j].name@ && (forall|
                a: int,
                b: int,
            | 0 <= a < b < j ==> members@[a].name@ != members@[b].name@) && msg@
                == "duplicate workspace member name '"@ + members@[j].name@ + "': found at '"@
                + members@[i].dir@ + "' and '"@ + members@[j].dir@ + "'"@,
{
    let mut j: usize = 0;
    while j < members.len()
        invariant
            j <= members.len(),
            forall|a: int, b: int| 0 <= a < b < j ==> members@[a].name@ != members@[b].name@,
        decreases members.len() - j,
    {
        let mut i: usize = 0;
        while i < j
            invariant
                i <= j < members.len(),
                forall|a: int, b: int| 0 <= a < b < j ==> members@[a].name@ != members@[b].name@,
                forall|a: int| 0 <= a < i ==> members@[a].name@ != members@[j as int].name@,
            decreases j - i,
        {
            if str_eq(members[i].name.as_str(), members[j].name.as_str()) {
                assert(0 <= i < j < members@.len() && members@[i as int].name@ == members@[j as int].name@);
                let mut msg = "duplicate workspace member name '".to_string();
                msg.append(members[j].name.as_str());
                msg.append("': found at '");
                msg.append(members[i].dir.as_str());
                msg.append("' and '");
                msg.append(members[j].dir.as_str());
                msg.append("'");
                proof {
                    let ii = i as int;
                    let jj = j as int;
                    assert(0 <= ii < jj < members@.len() && members@[ii].name@ == members@[jj].name@
                        && (forall|a: int, b: int| 0 <= a < b < jj ==> members@[a].name@ != members@[b].name@)
                        && msg@ == "duplicate workspace member name '"@ + members@[jj].name@ + "': found at '"@
                        + members@[ii].dir@ + "' and '"@ + members@[jj].dir@ + "'"@);
                }
                return Err(msg);
            }
            i += 1;
        }
        j += 1;
    }
    Ok(())
}

} // verus!
