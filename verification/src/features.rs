//! Feature resolution: which features a build enables, which optional
//! dependencies they switch on, and the preprocessor defines they yield.
use vstd::prelude::*;
use crate::manifest::{FeatureConfig, Manifest, ManifestError, validation_error_is, feature_prefix};
use crate::strmap::{StrMap, StrSet};
use crate::text::{chars_of, join, join_strings, starts_with, strs};

verus! {

/// Unicode upper-casing of a string, as `str::to_uppercase` performs it.
pub uninterp spec fn uppercase(s: Seq<char>) -> Seq<char>;

/// `str::to_uppercase`. Its result is determined by its argument alone
/// (the Unicode case tables); the contract names it, and states it for
/// ASCII text, where Unicode upper-casing maps `a`..`z` to `A`..`Z` and
/// keeps every other character.
#[verifier::external_body]
pub(crate) fn to_uppercase(s: &str) -> (r: String)
    ensures
        r@ == uppercase(s@),
        crate::text::is_ascii(s@) ==> r@ == crate::text::ascii_upper(s@),
{
    s.to_uppercase()
}

/// A feature's entry enables another feature (`"name"`, not `"dep:name"`).
pub open spec fn enables(fm: StrMap<Vec<String>>, f: Seq<char>, d: Seq<char>) -> bool {
    &&& fm.lookup(f) is Some
    &&& strs(fm.lookup(f)->0@).contains(d)
    &&& !starts_with(d, "dep:"@)
}

/// A feature's entry activates an optional dependency (`"dep:name"`).
pub open spec fn activates(fm: StrMap<Vec<String>>, f: Seq<char>, d: Seq<char>) -> bool {
    &&& fm.lookup(f) is Some
    &&& strs(fm.lookup(f)->0@).contains(d)
    &&& starts_with(d, "dep:"@)
}

/// Features reachable from `init` in at most `n` steps of `enables`.
pub open spec fn reach(fm: StrMap<Vec<String>>, init: Set<Seq<char>>, n: nat) -> Set<Seq<char>>
    decreases n,
{
    if n == 0 {
        init
    } else {
        let r = reach(fm, init, (n - 1) as nat);
        r.union(Set::new(|d: Seq<char>| exists|f: Seq<char>| r.contains(f) && enables(fm, f, d)))
    }
}

/// The features enabled, transitively, from `init`.
pub open spec fn closure(fm: StrMap<Vec<String>>, init: Set<Seq<char>>) -> Set<Seq<char>> {
    Set::new(|x: Seq<char>| exists|n: nat| reach(fm, init, n).contains(x))
}

/// The features a build asks for before following their entries: with
/// `all_features`, every declared feature and the defaults; otherwise the
/// defaults (unless `no_default_features`) and those named on the command line.
pub open spec fn requested(
    fc: FeatureConfig,
    cli: Seq<Seq<char>>,
    no_default_features: bool,
    all_features: bool,
) -> Set<Seq<char>> {
    if all_features {
        fc.features.key_list().to_set().union(strs(fc.default@).to_set())
    } else if no_default_features {
        cli.to_set()
    } else {
        strs(fc.default@).to_set().union(cli.to_set())
    }
}

/// The optional dependencies that the features of `en` activate, by name.
pub open spec fn activated_by(fm: StrMap<Vec<String>>, en: Set<Seq<char>>) -> Set<Seq<char>> {
    Set::new(
        |s: Seq<char>|
            exists|f: Seq<char>, d: Seq<char>|
                en.contains(f) && activates(fm, f, d) && s == d.subrange(4, d.len() as int),
    )
}

/// Whether the manifest declares any feature (or default): only then is
/// an undeclared feature an error.
pub open spec fn declares_features(fc: FeatureConfig) -> bool {
    fc.default@.len() != 0 || fc.features.key_list().len() != 0
}

/// `c` replaced by `by` everywhere in `s`.
pub open spec fn replace_char(s: Seq<char>, c: char, by: char) -> Seq<char> {
    s.map_values(|x: char| if x == c { by } else { x })
}

/// The define a feature yields: `<PREFIX><FEATURE>=1`, the name upper-cased
/// with `-` turned into `_`.
pub open spec fn feature_define(prefix: Seq<char>, f: Seq<char>) -> Seq<char> {
    prefix + replace_char(uppercase(f), '-', '_') + "=1"@
}

/// The optional dependencies named by `dep:` entries among `entries`.
pub open spec fn dep_names(entries: Seq<Seq<char>>) -> Set<Seq<char>> {
    Set::new(
        |s: Seq<char>|
            exists|d: Seq<char>|
                entries.contains(d) && starts_with(d, "dep:"@) && s == d.subrange(4, d.len() as int),
    )
}

proof fn lemma_dep_names_push(entries: Seq<Seq<char>>, x: Seq<char>)
    ensures
        dep_names(entries.push(x)) == (if starts_with(x, "dep:"@) {
            dep_names(entries).insert(x.subrange(4, x.len() as int))
        } else {
            dep_names(entries)
        }),
{
    let e1 = entries.push(x);
    let n1 = dep_names(e1);
    let n0 = dep_names(entries);
    let rhs = if starts_with(x, "dep:"@) {
        n0.insert(x.subrange(4, x.len() as int))
    } else {
        n0
    };
    assert forall|s: Seq<char>| n1.contains(s) implies rhs.contains(s) by {
        let d = choose|d: Seq<char>|
            e1.contains(d) && starts_with(d, "dep:"@) && s == d.subrange(4, d.len() as int);
        let j = choose|j: int| 0 <= j < e1.len() && e1[j] == d;
        if j < entries.len() {
            assert(entries[j] == d);
            assert(entries.contains(d));
            assert(n0.contains(s));
        } else {
            assert(d == x);
        }
    }
    assert forall|s: Seq<char>| rhs.contains(s) implies n1.contains(s) by {
        if n0.contains(s) {
            let d = choose|d: Seq<char>|
                entries.contains(d) && starts_with(d, "dep:"@) && s == d.subrange(4, d.len() as int);
            let j = choose|j: int| 0 <= j < entries.len() && entries[j] == d;
            assert(e1[j] == d);
            assert(e1.contains(d));
        } else {
            assert(e1[entries.len() as int] == x);
            assert(e1.contains(x));
        }
    }
    assert(n1 =~= rhs);
}

/// The result of resolving features.
#[derive(Debug)]
pub struct ResolvedFeatures {
    pub enabled: StrSet,
    pub activated_deps: StrSet,
    pub defines: Vec<String>,
}

fn replace_in(s: &str, c: char, by: char) -> (r: String)
    ensures
        r@ == replace_char(s@, c, by),
{
    let v = chars_of(s);
    let mut r = String::new();
    let mut i: usize = 0;
    while i < v.len()
        invariant
            v@ == s@,
            i <= v.len(),
            r@ == replace_char(v@.subrange(0, i as int), c, by),
        decreases v.len() - i,
    {
        let x = v[i];
        crate::text::push_char(&mut r, if x == c { by } else { x });
        assert(replace_char(v@.subrange(0, i + 1), c, by) =~= replace_char(
            v@.subrange(0, i as int),
            c,
            by,
        ).push(if x == c { by } else { x }));
        i += 1;
    }
    assert(v@.subrange(0, v.len() as int) =~= v@);
    r
}

proof fn lemma_reach_step(
    fm: StrMap<Vec<String>>,
    init: Set<Seq<char>>,
    f: Seq<char>,
    d: Seq<char>,
)
    requires
        closure(fm, init).contains(f),
        enables(fm, f, d),
    ensures
        closure(fm, init).contains(d),
{
    let n = choose|n: nat| reach(fm, init, n).contains(f);
    let r = reach(fm, init, n);
    assert(reach(fm, init, n + 1) == r.union(
        Set::new(|x: Seq<char>| exists|g: Seq<char>| r.contains(g) && enables(fm, g, x)),
    ));
    assert(reach(fm, init, n + 1).contains(d));
}

proof fn lemma_reach_within(
    fm: StrMap<Vec<String>>,
    init: Set<Seq<char>>,
    en: Set<Seq<char>>,
    n: nat,
)
    requires
        init.subset_of(en),
        forall|f: Seq<char>, d: Seq<char>| en.contains(f) && enables(fm, f, d) ==> en.contains(d),
    ensures
        reach(fm, init, n).subset_of(en),
    decreases n,
{
    if n > 0 {
        lemma_reach_within(fm, init, en, (n - 1) as nat);
    }
}

proof fn lemma_closure_within(fm: StrMap<Vec<String>>, init: Set<Seq<char>>, en: Set<Seq<char>>)
    requires
        init.subset_of(en),
        forall|f: Seq<char>, d: Seq<char>| en.contains(f) && enables(fm, f, d) ==> en.contains(d),
    ensures
        closure(fm, init).subset_of(en),
{
    assert forall|x: Seq<char>| closure(fm, init).contains(x) implies en.contains(x) by {
        let n = choose|n: nat| reach(fm, init, n).contains(x);
        lemma_reach_within(fm, init, en, n);
    }
}

proof fn lemma_init_in_closure(fm: StrMap<Vec<String>>, init: Set<Seq<char>>, x: Seq<char>)
    requires
        init.contains(x),
    ensures
        closure(fm, init).contains(x),
{
    assert(reach(fm, init, 0).contains(x));
}

/// Adds each of `items` to `set`.
fn insert_all(set: &mut StrSet, items: &Vec<String>)
    requires
        old(set).wf(),
    ensures
        final(set).wf(),
        final(set).to_set() == old(set).to_set().union(strs(items@).to_set()),
{
    let ghost start = set.to_set();
    let mut i: usize = 0;
    while i < items.len()
        invariant
            set.wf(),
            i <= items.len(),
            set.to_set() == start.union(strs(items@).subrange(0, i as int).to_set()),
        decreases items.len() - i,
    {
        set.insert(items[i].clone());
        assert(strs(items@).subrange(0, i + 1) =~= strs(items@).subrange(0, i as int).push(
            items@[i as int]@,
        ));
        proof { strs(items@).subrange(0, i as int).lemma_push_to_set_commute(items@[i as int]@); }
        i += 1;
    }
    assert(strs(items@).subrange(0, items.len() as int) =~= strs(items@));
}

/// What resolving the features of a build gives: see `ResolvedFeatures::resolve`.
pub open spec fn features_outcome(
    manifest: Manifest,
    cli: Seq<Seq<char>>,
    no_default_features: bool,
    all_features: bool,
    r: Result<ResolvedFeatures, ManifestError>,
) -> bool {
    let fc = manifest.features;
    let fm = fc.features;
    let cl = closure(
        fm,
        requested(fc, cli, no_default_features, all_features),
    );
    &&& r is Ok <==> !(declares_features(fc) && exists|f: Seq<char>|
        cl.contains(f) && fm.lookup(f) is None)
    &&& r matches Ok(res) ==> {
        &&& res.enabled.wf()
        &&& res.enabled.to_set() == cl
        &&& res.activated_deps.wf()
        &&& res.activated_deps.to_set() == activated_by(fm, cl)
        &&& strs(res.defines@) == res.enabled.elems().map_values(
            |f: Seq<char>| feature_define(feature_prefix(fc), f),
        )
    }
    &&& r matches Err(e) ==> exists|f: Seq<char>|
        cl.contains(f) && fm.lookup(f) is None && validation_error_is(
            e,
            "unknown feature '"@ + f + "'"@,
            "available features: "@ + join(fm.key_list(), ", "@),
        )
}

impl ResolvedFeatures {
    /// Resolves the features of a build: starts from the requested
    /// features and follows each feature's entries; `dep:<name>` entries
    /// activate optional dependencies. A feature the manifest does not
    /// declare is an error, unless the manifest declares none at all.
    pub fn resolve(
        manifest: &Manifest,
        cli_features: &Vec<String>,
        no_default_features: bool,
        all_features: bool,
    ) -> (r: Result<Self, ManifestError>)
        requires
            manifest.wf(),
        ensures
            features_outcome(*manifest, strs(cli_features@), no_default_features, all_features, r),
            (r is Ok && !all_features) ==> forall|i: int|
                0 <= i < cli_features@.len() ==> r->Ok_0.enabled.has(#[trigger] cli_features@[i]@),
            (r is Ok && !all_features && !no_default_features) ==> forall|i: int|
                0 <= i < manifest.features.default@.len() ==> r->Ok_0.enabled.has(
                    #[trigger] manifest.features.default@[i]@,
                ),
            (r is Ok && all_features) ==> forall|i: int|
                0 <= i < manifest.features.features.key_list().len() ==> r->Ok_0.enabled.has(
                    #[trigger] manifest.features.features.key_list()[i],
                ),
    {
        let feature_map = &manifest.features;
        let fm = &feature_map.features;
        let ghost init = requested(
            *feature_map,
            strs(cli_features@),
            no_default_features,
            all_features,
        );
        let mut enabled = StrSet::new();
        let mut activated_deps = StrSet::new();
        if all_features {
            insert_all(&mut enabled, fm.keys());
            insert_all(&mut enabled, &feature_map.default);
        } else {
            if !no_default_features {
                insert_all(&mut enabled, &feature_map.default);
            }
            insert_all(&mut enabled, cli_features);
        }
        proof {
            if all_features {
            } else if no_default_features {
                assert(enabled.to_set() =~= init);
            } else {
            }
            assert(enabled.to_set() =~= init);
        }
        let declared = feature_map.default.len() != 0 || !fm.is_empty();
        let mut queue: Vec<String> = enabled.items().clone();
        proof {
            assert(strs(queue@) =~= enabled.elems());
        }
        let mut visited = StrSet::new();
        let ghost universe = enabled.elems() + all_entries(fm.value_list());
        proof {
            assert forall|x: Seq<char>| enabled.to_set().contains(x) implies universe.to_set().contains(x) by {
                let k = choose|k: int| 0 <= k < enabled.elems().len() && enabled.elems()[k] == x;
                assert(universe[k] == x);
            }
            assert(visited.to_set() =~= Set::<Seq<char>>::empty());
            assert(activated_deps.to_set() =~= activated_by(*fm, Set::empty()));
            assert forall|x: Seq<char>| enabled.to_set().contains(x) implies closure(
                *fm,
                init,
            ).contains(x) by {
                lemma_init_in_closure(*fm, init, x);
            }
        }
        while queue.len() > 0
            invariant
                manifest.wf(),
                fm == &manifest.features.features,
                feature_map == &manifest.features,
                fm.wf(),
                enabled.wf(),
                visited.wf(),
                activated_deps.wf(),
                init == requested(
                    manifest.features,
                    strs(cli_features@),
                    no_default_features,
                    all_features,
                ),
                declared == declares_features(manifest.features),
                init.subset_of(enabled.to_set()),
                enabled.to_set().subset_of(closure(*fm, init)),
                visited.to_set().subset_of(enabled.to_set()),
                strs(queue@).to_set().subset_of(enabled.to_set()),
                enabled.to_set().subset_of(visited.to_set().union(strs(queue@).to_set())),
                forall|f: Seq<char>, d: Seq<char>|
                    visited.to_set().contains(f) && enables(*fm, f, d) ==> enabled.to_set().contains(d),
                declared ==> forall|f: Seq<char>| visited.to_set().contains(f) ==> fm.lookup(f) is Some,
                activated_deps.to_set() == activated_by(*fm, visited.to_set()),
                universe == universe.subrange(0, universe.len() - all_entries(fm.value_list()).len()) + all_entries(fm.value_list()),
                enabled.to_set().subset_of(universe.to_set()),
                visited.elems().len() <= universe.len(),
            decreases universe.len() - visited.elems().len(), queue.len(),
        {
            let ghost en0 = enabled.to_set();
            let ghost vis0 = visited.to_set();
            let ghost q0 = queue@;
            let feat = queue.pop().unwrap();
            let ghost q1 = strs(queue@);
            proof {
                assert(q0 == queue@.push(feat));
                assert(strs(q0) =~= q1.push(feat@));
                assert forall|x: Seq<char>| q1.to_set().contains(x) implies en0.contains(x) by {
                    let k = choose|k: int| 0 <= k < q1.len() && q1[k] == x;
                    assert(strs(q0)[k] == x);
                }
            }
            if visited.contains(feat.as_str()) {
                proof {
                    assert forall|x: Seq<char>| en0.contains(x) implies vis0.union(q1.to_set()).contains(x) by {
                        assert(vis0.union(q1.push(feat@).to_set()).contains(x));
                        if x != feat@ && !vis0.contains(x) {
                            assert(q1.push(feat@).contains(x));
                            let k = choose|k: int| 0 <= k < q1.push(feat@).len() && q1.push(feat@)[k] == x;
                            assert(q1[k] == x);
                        }
                    }
                    assert forall|x: Seq<char>| q1.to_set().contains(x) implies en0.contains(x) by {
                        let k = choose|k: int| 0 <= k < q1.len() && q1[k] == x;
                        assert(q1.push(feat@)[k] == x);
                    }
                }
                continue;
            }
            proof {
                assert(q1.push(feat@)[q1.len() as int] == feat@);
                assert(en0.contains(feat@));
                lemma_visit_bound(&visited, en0, universe, feat@);
            }
            visited.insert(feat.clone());
            let ghost vis1 = visited.to_set();
            match fm.get(feat.as_str()) {
                Some(deps) => {
                    let mut k: usize = 0;
                    while k < deps.len()
                        invariant
                            fm.wf(),
                            enabled.wf(),
                            activated_deps.wf(),
                            fm.lookup(feat@) == Some(*deps),
                            k <= deps.len(),
                            en0.subset_of(enabled.to_set()),
                            enabled.to_set().subset_of(closure(*fm, init)),
                            closure(*fm, init).contains(feat@),
                            enabled.to_set().subset_of(vis1.union(strs(queue@).to_set())),
                            strs(queue@).to_set().subset_of(enabled.to_set()),
                            universe == universe.subrange(0, universe.len() - all_entries(fm.value_list()).len()) + all_entries(fm.value_list()),
                            enabled.to_set().subset_of(universe.to_set()),
                            forall|d: Seq<char>| strs(deps@).subrange(0, k as int).contains(d) && !starts_with(d, "dep:"@)
                                ==> enabled.to_set().contains(d),
                            activated_deps.to_set() == activated_by(*fm, vis0).union(
                                dep_names(strs(deps@).subrange(0, k as int)),
                            ),
                        decreases deps.len() - k,
                    {
                        let dep = &deps[k];
                        let dv = chars_of(dep.as_str());
                        let prefix = chars_of("dep:");
                        proof {
                            reveal_strlit("dep:");
                        }
                        let ghost sub0 = strs(deps@).subrange(0, k as int);
                        let ghost sub1 = strs(deps@).subrange(0, k + 1);
                        assert(sub1 =~= sub0.push(dep@));
                        if crate::text::starts_with_at(&dv, 0, &prefix) {
                            assert(dv@.subrange(0, dv@.len() as int) =~= dv@);
                            let name = crate::text::string_of(&dv, 4, dv.len());
                            let ghost a0 = activated_deps.to_set();
                            activated_deps.insert(name);
                            proof {
                                lemma_dep_names_push(sub0, dep@);
                                assert(activated_deps.to_set() =~= activated_by(*fm, vis0).union(dep_names(sub1)));
                                assert forall|d: Seq<char>| sub1.contains(d) && !starts_with(d, "dep:"@)
                                    implies enabled.to_set().contains(d) by {
                                    let j = choose|j: int| 0 <= j < sub1.len() && sub1[j] == d;
                                    if j < k {
                                        assert(sub0[j] == d);
                                    }
                                }
                            }
                        } else {
                            assert(!starts_with(dep@, "dep:"@)) by {
                                assert(dv@.subrange(0, dv@.len() as int) =~= dv@);
                            }
                            proof {
                                assert(strs(deps@)[k as int] == dep@);
                                assert(enables(*fm, feat@, dep@));
                                lemma_reach_step(*fm, init, feat@, dep@);
                            }
                            proof {
                                let u0 = universe.subrange(0, universe.len() - all_entries(fm.value_list()).len());
                                lemma_entry_in_universe(*fm, feat@, dep@, u0);
                            }
                            if !enabled.contains(dep.as_str()) {
                                enabled.insert(dep.clone());
                                let ghost qb = strs(queue@);
                                queue.push(dep.clone());
                                proof {
                                    assert(strs(queue@) =~= qb.push(dep@));
                                    assert forall|x: Seq<char>| strs(queue@).to_set().contains(x) implies enabled.to_set().contains(x) by {
                                        let j = choose|j: int| 0 <= j < strs(queue@).len() && strs(queue@)[j] == x;
                                        if j < qb.len() {
                                            assert(qb[j] == x);
                                        }
                                    }
                                    assert forall|x: Seq<char>| enabled.to_set().contains(x) implies vis1.union(strs(queue@).to_set()).contains(x) by {
                                        if x == dep@ {
                                            assert(strs(queue@)[qb.len() as int] == x);
                                        } else if !vis1.contains(x) {
                                            assert(qb.contains(x));
                                            let j = choose|j: int| 0 <= j < qb.len() && qb[j] == x;
                                            assert(strs(queue@)[j] == x);
                                        }
                                    }
                                }
                            }
                            proof {
                                assert forall|d: Seq<char>| sub1.contains(d) && !starts_with(d, "dep:"@)
                                    implies enabled.to_set().contains(d) by {
                                    let j = choose|j: int| 0 <= j < sub1.len() && sub1[j] == d;
                                    if j < k {
                                        assert(sub0[j] == d);
                                    }
                                }
                                lemma_dep_names_push(sub0, dep@);
                            }
                        }
                        k += 1;
                    }
                    proof {
                        let all = strs(deps@);
                        assert(all.subrange(0, deps.len() as int) =~= all);
                        assert forall|f: Seq<char>, d: Seq<char>| vis1.contains(f) && enables(*fm, f, d)
                            implies enabled.to_set().contains(d) by {
                            if f != feat@ {
                                assert(vis0.contains(f));
                            }
                        }
                        let ext = dep_names(all);
                        assert forall|s: Seq<char>| activated_by(*fm, vis1).contains(s) <==>
                            activated_by(*fm, vis0).union(ext).contains(s) by {
                            if activated_by(*fm, vis1).contains(s) {
                                let (f, d) = choose|f: Seq<char>, d: Seq<char>|
                                    vis1.contains(f) && activates(*fm, f, d) && s == d.subrange(4, d.len() as int);
                                if f != feat@ {
                                    assert(vis0.contains(f));
                                    assert(activated_by(*fm, vis0).contains(s));
                                } else {
                                    assert(ext.contains(s));
                                }
                            }
                            if ext.contains(s) {
                                let d = choose|d: Seq<char>| all.contains(d) && starts_with(d, "dep:"@) && s == d.subrange(4, d.len() as int);
                                assert(activates(*fm, feat@, d));
                                assert(vis1.contains(feat@));
                            }
                            if activated_by(*fm, vis0).contains(s) {
                                let (f, d) = choose|f: Seq<char>, d: Seq<char>|
                                    vis0.contains(f) && activates(*fm, f, d) && s == d.subrange(4, d.len() as int);
                                assert(vis1.contains(f));
                            }
                        }
                        assert(activated_by(*fm, vis1) =~= activated_by(*fm, vis0).union(ext));
                    }
                },
                None => {
                    if declared {
                        let keys_joined = join_strings(fm.keys(), ", ");
                        let mut help = "available features: ".to_string();
                        help.append(keys_joined.as_str());
                        let mut msg = "unknown feature '".to_string();
                        msg.append(feat.as_str());
                        msg.append("'");
                        proof {
                            assert(closure(*fm, init).contains(feat@));
                        }
                        return Err(ManifestError::ValidationError { message: msg, help: Some(help) });
                    }
                    proof {
                        assert forall|f: Seq<char>, d: Seq<char>| vis1.contains(f) && enables(*fm, f, d)
                            implies enabled.to_set().contains(d) by {
                            if f != feat@ {
                                assert(vis0.contains(f));
                            }
                        }
                        assert forall|s: Seq<char>| activated_by(*fm, vis1).contains(s) <==>
                            activated_by(*fm, vis0).contains(s) by {
                            if activated_by(*fm, vis1).contains(s) {
                                let (f, d) = choose|f: Seq<char>, d: Seq<char>|
                                    vis1.contains(f) && activates(*fm, f, d) && s == d.subrange(4, d.len() as int);
                                if f != feat@ {
                                    assert(vis0.contains(f));
                                }
                            }
                            if activated_by(*fm, vis0).contains(s) {
                                let (f, d) = choose|f: Seq<char>, d: Seq<char>|
                                    vis0.contains(f) && activates(*fm, f, d) && s == d.subrange(4, d.len() as int);
                                assert(vis1.contains(f));
                            }
                        }
                        assert(activated_by(*fm, vis1) =~= activated_by(*fm, vis0));
                    }
                },
            }
            proof {
                lemma_visited_bound(&visited, enabled.to_set(), universe);
            }
        }
        proof {
            let en = enabled.to_set();
            assert(strs(queue@).to_set() =~= Set::<Seq<char>>::empty());
            assert(en =~= visited.to_set()) by {
                assert(en.subset_of(visited.to_set()));
            }
            lemma_closure_within(*fm, init, en);
            assert(en =~= closure(*fm, init));
        }
        let prefix = feature_map.prefix();
        let items = enabled.items();
        let mut defines: Vec<String> = Vec::new();
        let mut i: usize = 0;
        while i < items.len()
            invariant
                i <= items.len(),
                strs(items@) == enabled.elems(),
                prefix@ == feature_prefix(manifest.features),
                strs(defines@) == enabled.elems().subrange(0, i as int).map_values(
                    |f: Seq<char>| feature_define(prefix@, f),
                ),
            decreases items.len() - i,
        {
            let upper = to_uppercase(items[i].as_str());
            let replaced = replace_in(upper.as_str(), '-', '_');
            let mut d = prefix.to_string();
            d.append(replaced.as_str());
            d.append("=1");
            let ghost before = strs(defines@);
            defines.push(d);
            proof {
                assert(strs(items@)[i as int] == items@[i as int]@);
                assert(strs(defines@) =~= before.push(feature_define(prefix@, items@[i as int]@)));
                assert(enabled.elems().subrange(0, i + 1).map_values(
                    |f: Seq<char>| feature_define(prefix@, f),
                ) =~= enabled.elems().subrange(0, i as int).map_values(
                    |f: Seq<char>| feature_define(prefix@, f),
                ).push(feature_define(prefix@, items@[i as int]@)));
            }
            i += 1;
        }
        assert(enabled.elems().subrange(0, items.len() as int) =~= enabled.elems());
        proof {
            assert forall|i: int| 0 <= i < cli_features@.len() && !all_features implies enabled.has(
                #[trigger] cli_features@[i]@,
            ) by {
                assert(strs(cli_features@)[i] == cli_features@[i]@);
                lemma_requested_features_enabled(
                    manifest.features,
                    strs(cli_features@),
                    no_default_features,
                    all_features,
                    cli_features@[i]@,
                );
            }
            assert forall|i: int|
                0 <= i < manifest.features.default@.len() && !all_features && !no_default_features implies enabled.has(
                #[trigger] manifest.features.default@[i]@,
            ) by {
                assert(strs(manifest.features.default@)[i] == manifest.features.default@[i]@);
                lemma_requested_features_enabled(
                    manifest.features,
                    strs(cli_features@),
                    no_default_features,
                    all_features,
                    manifest.features.default@[i]@,
                );
            }
            assert forall|i: int|
                0 <= i < manifest.features.features.key_list().len() && all_features implies enabled.has(
                #[trigger] manifest.features.features.key_list()[i],
            ) by {
                lemma_requested_features_enabled(
                    manifest.features,
                    strs(cli_features@),
                    no_default_features,
                    all_features,
                    manifest.features.features.key_list()[i],
                );
            }
        }
        Ok(ResolvedFeatures { enabled, activated_deps, defines })
    }
}

/// Every entry of every feature's list.
pub open spec fn all_entries(vals: Seq<Vec<String>>) -> Seq<Seq<char>>
    decreases vals.len(),
{
    if vals.len() == 0 {
        Seq::empty()
    } else {
        strs(vals[0]@) + all_entries(vals.drop_first())
    }
}

proof fn lemma_all_entries(vals: Seq<Vec<String>>, i: int, d: Seq<char>)
    requires
        0 <= i < vals.len(),
        strs(vals[i]@).contains(d),
    ensures
        all_entries(vals).contains(d),
    decreases vals.len(),
{
    let e = all_entries(vals);
    if i == 0 {
        let k = choose|k: int| 0 <= k < strs(vals[0]@).len() && strs(vals[0]@)[k] == d;
        assert(e[k] == d);
    } else {
        lemma_all_entries(vals.drop_first(), i - 1, d);
        let rest = all_entries(vals.drop_first());
        let k = choose|k: int| 0 <= k < rest.len() && rest[k] == d;
        assert(e[strs(vals[0]@).len() + k] == d);
    }
}

/// A feature's entries are among all entries.
proof fn lemma_entry_in_universe(
    fm: StrMap<Vec<String>>,
    f: Seq<char>,
    d: Seq<char>,
    u0: Seq<Seq<char>>,
)
    requires
        fm.wf(),
        fm.lookup(f) is Some,
        strs(fm.lookup(f)->0@).contains(d),
    ensures
        (u0 + all_entries(fm.value_list())).contains(d),
{
    fm.lemma_wf();
    let i = fm.key_index(f);
    lemma_all_entries(fm.value_list(), i, d);
    let ae = all_entries(fm.value_list());
    let k = choose|k: int| 0 <= k < ae.len() && ae[k] == d;
    assert((u0 + ae)[u0.len() + k] == d);
}

/// While a feature of the enabled set is not yet visited, fewer features
/// are visited than there are candidate names.
proof fn lemma_visit_bound(visited: &StrSet, en: Set<Seq<char>>, u: Seq<Seq<char>>, f: Seq<char>)
    requires
        visited.wf(),
        visited.to_set().subset_of(en),
        en.subset_of(u.to_set()),
        en.contains(f),
        !visited.to_set().contains(f),
    ensures
        visited.elems().len() < u.len(),
{
    let v = visited.elems();
    visited.lemma_wf();
    crate::strmap::lemma_sorted_no_dup(v);
    v.unique_seq_to_set();
    u.lemma_cardinality_of_set();
    vstd::seq_lib::seq_to_set_is_finite(u);
    vstd::set_lib::lemma_len_subset(v.to_set().insert(f), u.to_set());
}

proof fn lemma_visited_bound(visited: &StrSet, en: Set<Seq<char>>, u: Seq<Seq<char>>)
    requires
        visited.wf(),
        visited.to_set().subset_of(en),
        en.subset_of(u.to_set()),
    ensures
        visited.elems().len() <= u.len(),
{
    let v = visited.elems();
    visited.lemma_wf();
    crate::strmap::lemma_sorted_no_dup(v);
    v.unique_seq_to_set();
    u.lemma_cardinality_of_set();
    vstd::seq_lib::seq_to_set_is_finite(u);
    vstd::set_lib::lemma_len_subset(v.to_set(), u.to_set());
}


/// Enabling is closed under the features' entries: a feature that an
/// enabled feature lists (other than a `dep:` entry) is enabled too.
pub proof fn lemma_closure_closed(fm: StrMap<Vec<String>>, init: Set<Seq<char>>, f: Seq<char>, d: Seq<char>)
    requires
        closure(fm, init).contains(f),
        enables(fm, f, d),
    ensures
        closure(fm, init).contains(d),
{
    let n = choose|n: nat| reach(fm, init, n).contains(f);
    assert(reach(fm, init, n + 1).contains(d));
}

/// The requested features are enabled.
pub proof fn lemma_requested_enabled(fm: StrMap<Vec<String>>, init: Set<Seq<char>>, f: Seq<char>)
    requires
        init.contains(f),
    ensures
        closure(fm, init).contains(f),
{
    assert(reach(fm, init, 0).contains(f));
}

/// A set of features that holds `init` and is closed under the features'
/// entries holds every enabled feature: the enabled features are the least
/// such set.
pub proof fn lemma_closure_least(fm: StrMap<Vec<String>>, init: Set<Seq<char>>, s: Set<Seq<char>>)
    requires
        init.subset_of(s),
        forall|f: Seq<char>, d: Seq<char>| s.contains(f) && enables(fm, f, d) ==> s.contains(d),
    ensures
        closure(fm, init).subset_of(s),
{
    lemma_closure_within(fm, init, s);
}


/// Every feature named on the command line is enabled, with or without
/// the defaults (unless every feature is asked for); the defaults are
/// enabled unless left out; with `all_features`, every declared feature.
pub proof fn lemma_requested_features_enabled(
    fc: FeatureConfig,
    cli: Seq<Seq<char>>,
    no_default_features: bool,
    all_features: bool,
    f: Seq<char>,
)
    ensures
        !all_features && cli.contains(f) ==> closure(
            fc.features,
            requested(fc, cli, no_default_features, all_features),
        ).contains(f),
        !all_features && !no_default_features && strs(fc.default@).contains(f) ==> closure(
            fc.features,
            requested(fc, cli, no_default_features, all_features),
        ).contains(f),
        all_features && fc.features.key_list().contains(f) ==> closure(
            fc.features,
            requested(fc, cli, no_default_features, all_features),
        ).contains(f),
{
    let init = requested(fc, cli, no_default_features, all_features);
    if (!all_features && cli.contains(f)) || (!all_features && !no_default_features && strs(fc.default@).contains(f))
        || (all_features && fc.features.key_list().contains(f)) {
        assert(init.contains(f));
        lemma_requested_enabled(fc.features, init, f);
    }
}
} // verus!
