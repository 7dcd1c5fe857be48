//! The dependency graph of a workspace's members and the order in which
//! they are built: each member after the members it depends on.
use vstd::prelude::*;
use crate::strmap::{lex_lt, lemma_lex_asym, lemma_sorted_distinct, sorted, StrMap, StrSet};
use crate::text::{contains_str, join, join_strings, strs};

verus! {

/// What node `n` depends on.
pub open spec fn deps_in(adj: StrMap<Vec<String>>, n: Seq<char>) -> Seq<Seq<char>> {
    strs(adj.lookup(n)->0@)
}

/// Node `n` can come next after `placed`: it is a node of the graph, it
/// has not been placed, and everything it depends on has.
pub open spec fn ready(adj: StrMap<Vec<String>>, placed: Seq<Seq<char>>, n: Seq<char>) -> bool {
    &&& adj.has_key(n)
    &&& !placed.contains(n)
    &&& forall|d: Seq<char>| deps_in(adj, n).contains(d) ==> placed.contains(d)
}

/// Step `i` of `s` places the greatest node that is ready at that point.
pub open spec fn greatest_ready_at(adj: StrMap<Vec<String>>, s: Seq<Seq<char>>, i: int) -> bool {
    &&& ready(adj, s.take(i), s[i])
    &&& forall|m: Seq<char>| ready(adj, s.take(i), m) ==> m == s[i] || lex_lt(m, s[i])
}

/// `s` is a run of the sort: each step places the greatest ready node.
pub open spec fn greedy_run(adj: StrMap<Vec<String>>, s: Seq<Seq<char>>) -> bool {
    forall|i: int| 0 <= i < s.len() ==> #[trigger] greatest_ready_at(adj, s, i)
}

/// No node is ready after `s`: the run cannot go on.
pub open spec fn stuck(adj: StrMap<Vec<String>>, s: Seq<Seq<char>>) -> bool {
    forall|m: Seq<char>| !ready(adj, s, m)
}

/// The items of `keys` that `s` does not hold, in the order of `keys`.
pub open spec fn without(keys: Seq<Seq<char>>, s: Seq<Seq<char>>) -> Seq<Seq<char>>
    decreases keys.len(),
{
    if keys.len() == 0 {
        Seq::empty()
    } else {
        let r = without(keys.drop_last(), s);
        if s.contains(keys.last()) {
            r
        } else {
            r.push(keys.last())
        }
    }
}

/// The message of a sort that leaves `rest` unplaced.
pub open spec fn cycle_message(rest: Seq<Seq<char>>) -> Seq<char> {
    "circular dependency detected among workspace members: "@ + join(rest, ", "@)
}

/// The outcome of sorting `adj`: `s` is the complete run of the sort; it
/// succeeds with `s` when every node is placed, and otherwise reports the
/// nodes left over.
pub open spec fn sort_outcome(
    adj: StrMap<Vec<String>>,
    s: Seq<Seq<char>>,
    r: Result<Seq<Seq<char>>, Seq<char>>,
) -> bool {
    &&& greedy_run(adj, s)
    &&& stuck(adj, s)
    &&& match r {
        Ok(order) => order == s && without(adj.key_list(), s).len() == 0,
        Err(msg) => without(adj.key_list(), s).len() > 0 && msg == cycle_message(
            without(adj.key_list(), s),
        ),
    }
}

/// A sort's result, by the contents of its strings.
pub open spec fn sort_view(r: Result<Vec<String>, String>) -> Result<Seq<Seq<char>>, Seq<char>> {
    match r {
        Ok(order) => Ok(strs(order@)),
        Err(msg) => Err(msg@),
    }
}

proof fn lemma_greedy_push(adj: StrMap<Vec<String>>, s: Seq<Seq<char>>, x: Seq<char>)
    requires
        greedy_run(adj, s),
        greatest_ready_at(adj, s.push(x), s.len() as int),
    ensures
        greedy_run(adj, s.push(x)),
{
    let t = s.push(x);
    assert forall|i: int| 0 <= i < t.len() implies #[trigger] greatest_ready_at(adj, t, i) by {
        if i < s.len() {
            assert(t.take(i) =~= s.take(i));
            assert(greatest_ready_at(adj, s, i));
        }
    }
}

/// Every node of a run was placed once, and is a node of the graph.
pub proof fn lemma_run_distinct(adj: StrMap<Vec<String>>, s: Seq<Seq<char>>)
    requires
        greedy_run(adj, s),
    ensures
        s.no_duplicates(),
        forall|i: int| 0 <= i < s.len() ==> adj.has_key(#[trigger] s[i]),
{
    assert forall|i: int, j: int| 0 <= i < s.len() && 0 <= j < s.len() && i != j implies s[i]
        != s[j] by {
        let (a, b) = if i < j {
            (i, j)
        } else {
            (j, i)
        };
        assert(greatest_ready_at(adj, s, b));
        assert(s.take(b)[a] == s[a]);
    }
    assert forall|i: int| 0 <= i < s.len() implies adj.has_key(#[trigger] s[i]) by {
        assert(greatest_ready_at(adj, s, i));
    }
}

proof fn lemma_distinct_subset_len(s: Seq<Seq<char>>, t: Seq<Seq<char>>)
    requires
        s.no_duplicates(),
        forall|x: Seq<char>| s.contains(x) ==> t.contains(x),
    ensures
        s.len() <= t.len(),
{
    s.unique_seq_to_set();
    t.lemma_cardinality_of_set();
    assert(s.to_set().subset_of(t.to_set()));
    vstd::set_lib::lemma_len_subset(s.to_set(), t.to_set());
}

/// In a run, everything a node depends on was placed before it.
pub proof fn lemma_run_deps_first(adj: StrMap<Vec<String>>, s: Seq<Seq<char>>, i: int, d: Seq<char>)
    requires
        greedy_run(adj, s),
        0 <= i < s.len(),
        deps_in(adj, s[i]).contains(d),
    ensures
        exists|j: int| 0 <= j < i && s[j] == d,
{
    assert(greatest_ready_at(adj, s, i));
    assert(s.take(i).contains(d));
    let j = choose|j: int| 0 <= j < s.take(i).len() && s.take(i)[j] == d;
    assert(s[j] == d);
}

/// A key of `keys` is either in `s` or among those `without` lists.
pub proof fn lemma_without(keys: Seq<Seq<char>>, s: Seq<Seq<char>>)
    ensures
        forall|k: Seq<char>| #[trigger] without(keys, s).contains(k) <==> keys.contains(k) && !s.contains(k),
    decreases keys.len(),
{
    if keys.len() > 0 {
        let r = without(keys.drop_last(), s);
        lemma_without(keys.drop_last(), s);
        assert forall|k: Seq<char>| #[trigger] without(keys, s).contains(k) <==> keys.contains(k)
            && !s.contains(k) by {
            if keys.contains(k) && k != keys.last() {
                let j = choose|j: int| 0 <= j < keys.len() && keys[j] == k;
                assert(keys.drop_last()[j] == k);
            }
            if keys.drop_last().contains(k) {
                let j = choose|j: int| 0 <= j < keys.drop_last().len() && keys.drop_last()[j] == k;
                assert(keys[j] == k);
            }
            if !s.contains(keys.last()) {
                if r.push(keys.last()).contains(k) && k != keys.last() {
                    let j = choose|j: int| 0 <= j < r.push(keys.last()).len() && r.push(keys.last())[j] == k;
                    assert(r[j] == k);
                }
                if r.contains(k) {
                    assert(r.push(keys.last()).contains(k)) by {
                        let j2 = choose|j2: int| 0 <= j2 < r.len() && r[j2] == k;
                        assert(r.push(keys.last())[j2] == k);
                    }
                }
                assert(r.push(keys.last())[r.len() as int] == keys.last());
            }
        }
    }
}

/// A successful sort places every node of the graph exactly once, and
/// each node after everything it depends on.
pub proof fn lemma_sorted_order(adj: StrMap<Vec<String>>, order: Seq<Seq<char>>)
    requires
        greedy_run(adj, order),
        without(adj.key_list(), order).len() == 0,
    ensures
        order.no_duplicates(),
        forall|k: Seq<char>| adj.has_key(k) <==> order.contains(k),
        forall|i: int, d: Seq<char>|
            0 <= i < order.len() && #[trigger] deps_in(adj, order[i]).contains(d) ==> exists|j: int|
                0 <= j < i && order[j] == d,
{
    lemma_run_distinct(adj, order);
    lemma_without(adj.key_list(), order);
    assert forall|k: Seq<char>| adj.has_key(k) <==> order.contains(k) by {
        if order.contains(k) {
            let i = choose|i: int| 0 <= i < order.len() && order[i] == k;
            assert(adj.has_key(order[i]));
        }
        if adj.has_key(k) && !order.contains(k) {
            assert(without(adj.key_list(), order).contains(k));
        }
    }
    assert forall|i: int, d: Seq<char>|
        0 <= i < order.len() && #[trigger] deps_in(adj, order[i]).contains(d) implies exists|j: int|
        0 <= j < i && order[j] == d by {
        lemma_run_deps_first(adj, order, i, d);
    }
}

/// A sort that fails leaves members each of which waits on something
/// that was never placed: the members left over depend on one another in
/// a cycle, or on something that is not a member.
pub proof fn lemma_failed_sort_waits(adj: StrMap<Vec<String>>, s: Seq<Seq<char>>, k: Seq<char>)
    requires
        stuck(adj, s),
        without(adj.key_list(), s).contains(k),
    ensures
        exists|d: Seq<char>| deps_in(adj, k).contains(d) && !s.contains(d),
{
    lemma_without(adj.key_list(), s);
    assert(!ready(adj, s, k));
}

proof fn lemma_runs_agree(adj: StrMap<Vec<String>>, s: Seq<Seq<char>>, t: Seq<Seq<char>>, i: int)
    requires
        greedy_run(adj, s),
        greedy_run(adj, t),
        0 <= i <= s.len(),
        i <= t.len(),
    ensures
        s.take(i) == t.take(i),
    decreases i,
{
    if i > 0 {
        let p = i - 1;
        lemma_runs_agree(adj, s, t, p);
        assert(greatest_ready_at(adj, s, p));
        assert(greatest_ready_at(adj, t, p));
        if s[p] != t[p] {
            assert(ready(adj, t.take(p), s[p]));
            assert(lex_lt(s[p], t[p]));
            assert(lex_lt(t[p], s[p]));
            lemma_lex_asym(s[p], t[p]);
        }
        assert(s.take(i) =~= s.take(p).push(s[p]));
        assert(t.take(i) =~= t.take(p).push(t[p]));
    }
}

/// The run of the sort is determined by the graph: two complete runs are
/// the same sequence.
pub proof fn lemma_run_unique(adj: StrMap<Vec<String>>, s: Seq<Seq<char>>, t: Seq<Seq<char>>)
    requires
        greedy_run(adj, s),
        stuck(adj, s),
        greedy_run(adj, t),
        stuck(adj, t),
    ensures
        s == t,
{
    let n = if s.len() < t.len() {
        s.len()
    } else {
        t.len()
    };
    lemma_runs_agree(adj, s, t, n as int);
    if s.len() < t.len() {
        assert(s.take(n as int) =~= s);
        assert(greatest_ready_at(adj, t, n as int));
        assert(ready(adj, s, t[n as int]));
    } else if t.len() < s.len() {
        assert(t.take(n as int) =~= t);
        assert(greatest_ready_at(adj, s, n as int));
        assert(ready(adj, t, s[n as int]));
    } else {
        assert(s =~= s.take(n as int));
        assert(t =~= t.take(n as int));
    }
}

/// Whether `key` can be placed after `placed`, given what it depends on.
fn node_ready(key: &str, deps: &Vec<String>, placed: &Vec<String>) -> (b: bool)
    ensures
        b == (!strs(placed@).contains(key@) && forall|d: Seq<char>|
            strs(deps@).contains(d) ==> strs(placed@).contains(d)),
{
    if contains_str(placed, key) {
        return false;
    }
    let mut i: usize = 0;
    while i < deps.len()
        invariant
            i <= deps.len(),
            forall|j: int| 0 <= j < i ==> strs(placed@).contains(#[trigger] strs(deps@)[j]),
        decreases deps.len() - i,
    {
        if !contains_str(placed, deps[i].as_str()) {
            assert(strs(deps@).contains(strs(deps@)[i as int]));
            return false;
        }
        i += 1;
    }
    assert forall|d: Seq<char>| strs(deps@).contains(d) implies strs(placed@).contains(d) by {
        let j = choose|j: int| 0 <= j < strs(deps@).len() && strs(deps@)[j] == d;
    }
    true
}

/// The position of the greatest node ready after `placed`, if any.
fn greatest_ready(adj: &StrMap<Vec<String>>, placed: &Vec<String>) -> (r: Option<usize>)
    requires
        adj.wf(),
    ensures
        r is None ==> stuck(*adj, strs(placed@)),
        r matches Some(b) ==> b < adj.key_list().len() && ready(*adj, strs(placed@), adj.key_list()[b as int])
            && forall|m: Seq<char>| ready(*adj, strs(placed@), m) ==> m == adj.key_list()[b as int]
                || lex_lt(m, adj.key_list()[b as int]),
{
    let keys = adj.keys();
    let vals = adj.values();
    let ghost ks = adj.key_list();
    let ghost s = strs(placed@);
    proof {
        adj.lemma_wf();
    }
    let mut i: usize = keys.len();
    while i > 0
        invariant
            adj.wf(),
            strs(keys@) == ks,
            ks == adj.key_list(),
            vals@ == adj.value_list(),
            ks.len() == vals@.len(),
            sorted(ks),
            s == strs(placed@),
            i <= keys.len(),
            forall|j: int| i <= j < ks.len() ==> !ready(*adj, s, #[trigger] ks[j]),
        decreases i,
    {
        i -= 1;
        let ok = node_ready(keys[i].as_str(), &vals[i], placed);
        proof {
            adj.lemma_lookup_at(i as int);
            assert(ks[i as int] == keys@[i as int]@);
            assert(deps_in(*adj, ks[i as int]) == strs(vals@[i as int]@));
            assert(adj.has_key(ks[i as int]));
        }
        if ok {
            proof {
                assert(ready(*adj, s, ks[i as int]));
                assert forall|m: Seq<char>| ready(*adj, s, m) implies m == ks[i as int] || lex_lt(
                    m,
                    ks[i as int],
                ) by {
                    let j = choose|j: int| 0 <= j < ks.len() && ks[j] == m;
                    if j > i {
                        assert(!ready(*adj, s, ks[j]));
                    }
                }
            }
            return Some(i);
        }
    }
    proof {
        assert forall|m: Seq<char>| !ready(*adj, s, m) by {
            if ready(*adj, s, m) {
                let j = choose|j: int| 0 <= j < ks.len() && ks[j] == m;
                assert(!ready(*adj, s, ks[j]));
            }
        }
    }
    None
}

/// The keys of `keys` that `placed` does not hold, in order.
fn unplaced(keys: &Vec<String>, placed: &Vec<String>) -> (r: Vec<String>)
    ensures
        strs(r@) == without(strs(keys@), strs(placed@)),
{
    let mut r: Vec<String> = Vec::new();
    let mut i: usize = 0;
    while i < keys.len()
        invariant
            i <= keys.len(),
            strs(r@) == without(strs(keys@).take(i as int), strs(placed@)),
        decreases keys.len() - i,
    {
        assert(strs(keys@).take(i + 1).drop_last() =~= strs(keys@).take(i as int));
        if !contains_str(placed, keys[i].as_str()) {
            let ghost before = strs(r@);
            r.push(keys[i].clone());
            assert(strs(r@) =~= before.push(keys@[i as int]@));
        }
        i += 1;
    }
    assert(strs(keys@).take(keys.len() as int) =~= strs(keys@));
    r
}

/// Orders the nodes of `adjacency` (each node mapped to the nodes it
/// depends on) so that every node comes after its dependencies. Among the
/// nodes that could come next, the greatest name goes first. When some
/// nodes can never be placed, the error lists them.
pub fn topological_sort(adjacency: &StrMap<Vec<String>>) -> (r: Result<Vec<String>, String>)
    requires
        adjacency.wf(),
    ensures
        exists|s: Seq<Seq<char>>| sort_outcome(*adjacency, s, sort_view(r)),
{
    let keys = adjacency.keys();
    let mut order: Vec<String> = Vec::new();
    proof {
        adjacency.lemma_wf();
        crate::strmap::lemma_sorted_no_dup(adjacency.key_list());
    }
    loop
        invariant
            adjacency.wf(),
            strs(keys@) == adjacency.key_list(),
            greedy_run(*adjacency, strs(order@)),
            order.len() <= keys.len(),
        ensures
            greedy_run(*adjacency, strs(order@)),
            stuck(*adjacency, strs(order@)),
        decreases keys.len() - order.len(),
    {
        match greatest_ready(adjacency, &order) {
            None => {
                break;
            },
            Some(b) => {
                let ghost s0 = strs(order@);
                order.push(keys[b].clone());
                proof {
                    let s1 = strs(order@);
                    assert(s1 =~= s0.push(keys@[b as int]@));
                    assert(s1.take(s0.len() as int) =~= s0);
                    lemma_greedy_push(*adjacency, s0, keys@[b as int]@);
                    lemma_run_distinct(*adjacency, s1);
                    assert forall|x: Seq<char>| s1.contains(x) implies adjacency.key_list().contains(x) by {
                        let j = choose|j: int| 0 <= j < s1.len() && s1[j] == x;
                        assert(adjacency.has_key(s1[j]));
                    }
                    lemma_distinct_subset_len(s1, adjacency.key_list());
                }
            },
        }
    }
    let rest = unplaced(keys, &order);
    let ghost s = strs(order@);
    if rest.len() == 0 {
        let r = Ok(order);
        assert(sort_outcome(*adjacency, s, sort_view(r)));
        r
    } else {
        let joined = join_strings(&rest, ", ");
        let mut msg = "circular dependency detected among workspace members: ".to_string();
        msg.append(joined.as_str());
        let r = Err(msg);
        assert(sort_outcome(*adjacency, s, sort_view(r)));
        r
    }
}

/// The nodes reachable from `start` in at most `n` steps of the graph.
pub open spec fn reach_n(adj: StrMap<Vec<String>>, start: Seq<char>, n: nat) -> Set<Seq<char>>
    decreases n,
{
    if n == 0 {
        set![start]
    } else {
        let r = reach_n(adj, start, (n - 1) as nat);
        r.union(
            Set::new(
                |d: Seq<char>|
                    exists|f: Seq<char>| r.contains(f) && adj.has_key(f) && deps_in(adj, f).contains(d),
            ),
        )
    }
}

/// The nodes reachable from `start` (`start` among them).
pub open spec fn reachable(adj: StrMap<Vec<String>>, start: Seq<char>) -> Set<Seq<char>> {
    Set::new(|x: Seq<char>| exists|n: nat| reach_n(adj, start, n).contains(x))
}

proof fn lemma_reach_step(adj: StrMap<Vec<String>>, start: Seq<char>, f: Seq<char>, d: Seq<char>)
    requires
        reachable(adj, start).contains(f),
        adj.has_key(f),
        deps_in(adj, f).contains(d),
    ensures
        reachable(adj, start).contains(d),
{
    let n = choose|n: nat| reach_n(adj, start, n).contains(f);
    let r = reach_n(adj, start, n);
    assert(reach_n(adj, start, n + 1) == r.union(
        Set::new(
            |x: Seq<char>|
                exists|g: Seq<char>| r.contains(g) && adj.has_key(g) && deps_in(adj, g).contains(x),
        ),
    ));
    assert(reach_n(adj, start, n + 1).contains(d));
}

proof fn lemma_reach_n_within(adj: StrMap<Vec<String>>, start: Seq<char>, c: Set<Seq<char>>, n: nat)
    requires
        c.contains(start),
        forall|f: Seq<char>, d: Seq<char>|
            c.contains(f) && adj.has_key(f) && deps_in(adj, f).contains(d) ==> c.contains(d),
    ensures
        reach_n(adj, start, n).subset_of(c),
    decreases n,
{
    if n > 0 {
        lemma_reach_n_within(adj, start, c, (n - 1) as nat);
    }
}

/// Keeps the items of `s` that are in `needed` or equal `target`.
pub open spec fn keep_needed(s: Seq<Seq<char>>, needed: Set<Seq<char>>, target: Seq<char>) -> Seq<
    Seq<char>,
>
    decreases s.len(),
{
    if s.len() == 0 {
        Seq::empty()
    } else {
        let r = keep_needed(s.drop_last(), needed, target);
        if needed.contains(s.last()) || s.last() == target {
            r.push(s.last())
        } else {
            r
        }
    }
}

/// The dependencies a member keeps: those that are members too.
pub open spec fn member_deps(deps: Seq<Seq<char>>, names: Set<Seq<char>>) -> Seq<Seq<char>>
    decreases deps.len(),
{
    if deps.len() == 0 {
        Seq::empty()
    } else {
        let r = member_deps(deps.drop_last(), names);
        if names.contains(deps.last()) {
            r.push(deps.last())
        } else {
            r
        }
    }
}

/// The names of members listed as (name, path dependencies).
pub open spec fn names_of(members: Seq<(String, Vec<String>)>) -> Set<Seq<char>> {
    Set::new(|n: Seq<char>| exists|i: int| 0 <= i < members.len() && members[i].0@ == n)
}

/// The graph of members: each name maps to the dependencies of the last
/// member listed under that name, kept to those that are members.
pub open spec fn member_graph(members: Seq<(String, Vec<String>)>, adj: StrMap<Vec<String>>) -> bool {
    &&& adj.key_list().to_set() == names_of(members)
    &&& forall|k: Seq<char>|
        #![trigger adj.lookup(k)]
        names_of(members).contains(k) ==> exists|i: int|
            0 <= i < members.len() && members[i].0@ == k && (forall|j: int|
                i < j < members.len() ==> members[j].0@ != k) && strs(adj.lookup(k)->0@)
                == member_deps(strs(members[i].1@), names_of(members))
}

/// A sort's result, with a graph in place of its order.
pub open spec fn dag_view(r: Result<MemberDag, String>) -> Result<Seq<Seq<char>>, Seq<char>> {
    match r {
        Ok(dag) => Ok(dag.order_list()),
        Err(msg) => Err(msg@),
    }
}

/// The build order of a workspace's members.
#[derive(Debug)]
pub struct MemberDag {
    pub order: Vec<String>,
    adjacency: StrMap<Vec<String>>,
}

impl MemberDag {
    /// The graph: each member's name to the members it depends on.
    pub closed spec fn graph(&self) -> StrMap<Vec<String>> {
        self.adjacency
    }

    /// The build order.
    pub closed spec fn order_list(&self) -> Seq<Seq<char>> {
        strs(self.order@)
    }

    /// The order is the complete, successful run of the sort on the graph.
    pub open spec fn wf(&self) -> bool {
        &&& self.graph().wf()
        &&& sort_outcome(self.graph(), self.order_list(), Ok(self.order_list()))
    }

    /// The members in build order.
    pub fn build_order(&self) -> (r: &Vec<String>)
        ensures
            strs(r@) == self.order_list(),
    {
        &self.order
    }

    /// What member `name` depends on (nothing, for a name that is not a member).
    pub fn deps_of(&self, name: &str) -> (r: &[String])
        requires
            self.wf(),
        ensures
            strs(r@) == (if self.graph().has_key(name@) {
                deps_in(self.graph(), name@)
            } else {
                Seq::empty()
            }),
    {
        match self.adjacency.get(name) {
            Some(v) => v.as_slice(),
            None => {
                let e: &[String] = &[];
                assert(strs(e@) =~= Seq::<Seq<char>>::empty());
                e
            },
        }
    }

    /// Everything `name` depends on, directly or not; `name` itself is left out.
    pub fn transitive_deps(&self, name: &str) -> (r: StrSet)
        requires
            self.wf(),
        ensures
            r.wf(),
            r.to_set() == reachable(self.graph(), name@).remove(name@),
    {
        let needed = self.needed_by(name);
        let items = needed.items();
        let mut r = StrSet::new();
        let mut i: usize = 0;
        while i < items.len()
            invariant
                r.wf(),
                i <= items.len(),
                strs(items@) == needed.elems(),
                r.to_set() == strs(items@).take(i as int).to_set().remove(name@),
            decreases items.len() - i,
        {
            let ghost before = strs(items@).take(i as int);
            assert(strs(items@).take(i + 1) =~= before.push(items@[i as int]@));
            proof {
                before.lemma_push_to_set_commute(items@[i as int]@);
            }
            if !crate::text::str_eq(items[i].as_str(), name) {
                r.insert(items[i].clone());
                assert(r.to_set() =~= strs(items@).take(i + 1).to_set().remove(name@));
            } else {
                assert(r.to_set() =~= strs(items@).take(i + 1).to_set().remove(name@));
            }
            i += 1;
        }
        assert(strs(items@).take(items.len() as int) =~= strs(items@));
        r
    }

    /// The nodes reachable from `name`, `name` included.
    fn needed_by(&self, name: &str) -> (r: StrSet)
        requires
            self.wf(),
        ensures
            r.wf(),
            r.to_set() == reachable(self.graph(), name@),
    {
        let ghost adj = self.adjacency;
        let ghost s = strs(self.order@);
        proof {
            lemma_sorted_order(adj, s);
            adj.lemma_wf();
        }
        let mut needed = StrSet::new();
        needed.insert(name.to_string());
        proof {
            assert(reach_n(adj, name@, 0).contains(name@));
        }
        let mut i: usize = self.order.len();
        while i > 0
            invariant
                self.wf(),
                adj == self.adjacency,
                s == strs(self.order@),
                s.no_duplicates(),
                forall|k: Seq<char>| adj.has_key(k) <==> s.contains(k),
                forall|j: int, d: Seq<char>|
                    0 <= j < s.len() && #[trigger] deps_in(adj, s[j]).contains(d) ==> exists|jj: int|
                        0 <= jj < j && s[jj] == d,
                i <= s.len(),
                needed.wf(),
                needed.to_set().contains(name@),
                needed.to_set().subset_of(reachable(adj, name@)),
                forall|k: int, d: Seq<char>|
                    i <= k < s.len() && needed.to_set().contains(s[k]) && #[trigger] deps_in(adj, s[k]).contains(d)
                        ==> needed.to_set().contains(d),
            decreases i,
        {
            i -= 1;
            let node = &self.order[i];
            assert(s[i as int] == node@);
            if needed.contains(node.as_str()) {
                assert(s.contains(s[i as int]));
                assert(adj.has_key(node@));
                let deps = self.adjacency.get(node.as_str()).unwrap();
                assert(adj.lookup(node@) == Some(*deps));
                let ghost n0 = needed.to_set();
                let mut d: usize = 0;
                while d < deps.len()
                    invariant
                        needed.wf(),
                        adj.has_key(node@),
                        deps_in(adj, node@) == strs(deps@),
                        n0.subset_of(needed.to_set()),
                        n0.contains(node@),
                        needed.to_set().subset_of(reachable(adj, name@)),
                        reachable(adj, name@).contains(node@),
                        d <= deps.len(),
                        needed.to_set() == n0.union(strs(deps@).take(d as int).to_set()),
                    decreases deps.len() - d,
                {
                    proof {
                        assert(strs(deps@)[d as int] == deps@[d as int]@);
                        lemma_reach_step(adj, name@, node@, deps@[d as int]@);
                        strs(deps@).take(d as int).lemma_push_to_set_commute(deps@[d as int]@);
                        assert(strs(deps@).take(d + 1) =~= strs(deps@).take(d as int).push(deps@[d as int]@));
                    }
                    needed.insert(deps[d].clone());
                    d += 1;
                }
                proof {
                    assert(strs(deps@).take(deps.len() as int) =~= strs(deps@));
                    assert forall|k: int, dd: Seq<char>|
                        i <= k < s.len() && needed.to_set().contains(s[k]) && #[trigger] deps_in(adj, s[k]).contains(dd)
                            implies needed.to_set().contains(dd) by {
                        if k > i && !n0.contains(s[k]) {
                            assert(strs(deps@).to_set().contains(s[k]));
                            assert(deps_in(adj, s[i as int]).contains(s[k]));
                            let jj = choose|jj: int| 0 <= jj < i && s[jj] == s[k];
                        }
                    }
                }
            }
        }
        proof {
            let c = needed.to_set();
            assert forall|f: Seq<char>, d: Seq<char>|
                c.contains(f) && adj.has_key(f) && deps_in(adj, f).contains(d) implies c.contains(d) by {
                let k = choose|k: int| 0 <= k < s.len() && s[k] == f;
                assert(deps_in(adj, s[k]).contains(d));
            }
            assert forall|x: Seq<char>| reachable(adj, name@).contains(x) implies c.contains(x) by {
                let n = choose|n: nat| reach_n(adj, name@, n).contains(x);
                lemma_reach_n_within(adj, name@, c, n);
            }
            assert(c =~= reachable(adj, name@));
        }
        needed
    }

    /// The build order of `target`: its members in build order, kept to
    /// `target` and what it depends on.
    pub fn subset_order(&self, target: &str) -> (r: Vec<String>)
        requires
            self.wf(),
        ensures
            strs(r@) == keep_needed(self.order_list(), reachable(self.graph(), target@).remove(target@), target@),
    {
        let needed = self.transitive_deps(target);
        let ghost nd = reachable(self.graph(), target@).remove(target@);
        let mut r: Vec<String> = Vec::new();
        let mut i: usize = 0;
        while i < self.order.len()
            invariant
                needed.wf(),
                needed.to_set() == nd,
                i <= self.order.len(),
                strs(r@) == keep_needed(strs(self.order@).take(i as int), nd, target@),
            decreases self.order.len() - i,
        {
            let n = &self.order[i];
            assert(strs(self.order@).take(i + 1).drop_last() =~= strs(self.order@).take(i as int));
            assert(strs(self.order@).take(i + 1).last() == n@);
            if needed.contains(n.as_str()) || crate::text::str_eq(n.as_str(), target) {
                let ghost before = strs(r@);
                r.push(n.clone());
                assert(strs(r@) =~= before.push(n@));
            }
            i += 1;
        }
        assert(strs(self.order@).take(self.order.len() as int) =~= strs(self.order@));
        r
    }

    /// Sorts a graph of members; fails as `topological_sort` does.
    pub fn from_adjacency(adjacency: StrMap<Vec<String>>) -> (r: Result<MemberDag, String>)
        requires
            adjacency.wf(),
        ensures
            r matches Ok(dag) ==> dag.wf() && dag.graph() == adjacency,
            exists|s: Seq<Seq<char>>| sort_outcome(adjacency, s, dag_view(r)),
    {
        let sorted = topological_sort(&adjacency);
        match sorted {
            Ok(order) => {
                proof {
                    let s = choose|s: Seq<Seq<char>>| sort_outcome(adjacency, s, sort_view(sorted));
                    assert(s == strs(order@));
                }
                Ok(MemberDag { order, adjacency })
            },
            Err(msg) => Err(msg),
        }
    }

    /// Builds the graph of the members, given for each member its name and
    /// the package names of its path dependencies (those that name a
    /// member are kept), and sorts it.
    pub fn build(members: &Vec<(String, Vec<String>)>) -> (r: Result<MemberDag, String>)
        ensures
            r matches Ok(dag) ==> dag.wf() && member_graph(members@, dag.graph()),
            exists|adj: StrMap<Vec<String>>, s: Seq<Seq<char>>|
                adj.wf() && member_graph(members@, adj) && sort_outcome(adj, s, dag_view(r)),
    {
        let mut names: Vec<String> = Vec::new();
        let mut i: usize = 0;
        while i < members.len()
            invariant
                i <= members.len(),
                names@.len() == i,
                forall|j: int| 0 <= j < i ==> #[trigger] names@[j]@ == members@[j].0@,
            decreases members.len() - i,
        {
            names.push(members[i].0.clone());
            i += 1;
        }
        proof {
            assert forall|n: Seq<char>| strs(names@).contains(n) <==> names_of(members@).contains(n) by {
                if strs(names@).contains(n) {
                    let j = choose|j: int| 0 <= j < strs(names@).len() && strs(names@)[j] == n;
                    assert(members@[j].0@ == n);
                }
                if names_of(members@).contains(n) {
                    let j = choose|j: int| 0 <= j < members@.len() && members@[j].0@ == n;
                    assert(strs(names@)[j] == n);
                }
            }
        }
        let mut adjacency: StrMap<Vec<String>> = StrMap::new();
        let mut m: usize = 0;
        while m < members.len()
            invariant
                m <= members.len(),
                adjacency.wf(),
                forall|n: Seq<char>| strs(names@).contains(n) <==> names_of(members@).contains(n),
                adjacency.key_list().to_set() == Set::new(
                    |n: Seq<char>| exists|i: int| 0 <= i < m && members@[i].0@ == n,
                ),
                forall|k: Seq<char>|
                    #![trigger adjacency.lookup(k)]
                    (exists|i: int| 0 <= i < m && members@[i].0@ == k) ==> exists|i: int|
                        0 <= i < m && members@[i].0@ == k && (forall|j: int|
                            i < j < m ==> members@[j].0@ != k) && strs(adjacency.lookup(k)->0@)
                            == member_deps(strs(members@[i].1@), names_of(members@)),
            decreases members.len() - m,
        {
            let deps = &members[m].1;
            let mut kept: Vec<String> = Vec::new();
            let mut d: usize = 0;
            while d < deps.len()
                invariant
                    d <= deps.len(),
                    forall|n: Seq<char>| strs(names@).contains(n) <==> names_of(members@).contains(n),
                    strs(kept@) == member_deps(strs(deps@).take(d as int), names_of(members@)),
                decreases deps.len() - d,
            {
                assert(strs(deps@).take(d + 1).drop_last() =~= strs(deps@).take(d as int));
                if contains_str(&names, deps[d].as_str()) {
                    let ghost before = strs(kept@);
                    kept.push(deps[d].clone());
                    assert(strs(kept@) =~= before.push(deps@[d as int]@));
                }
                d += 1;
            }
            assert(strs(deps@).take(deps.len() as int) =~= strs(deps@));
            let ghost a0 = adjacency;
            let ghost name = members@[m as int].0@;
            adjacency.insert(members[m].0.clone(), kept);
            proof {
                assert(adjacency.key_list().to_set() =~= Set::new(
                    |n: Seq<char>| exists|i: int| 0 <= i < m + 1 && members@[i].0@ == n,
                )) by {
                    assert forall|n: Seq<char>| (exists|i: int| 0 <= i < m + 1 && members@[i].0@ == n)
                        implies a0.key_list().to_set().insert(name).contains(n) by {
                        let i = choose|i: int| 0 <= i < m + 1 && members@[i].0@ == n;
                        if i < m {
                            assert(a0.key_list().to_set().contains(n));
                        }
                    }
                }
                assert forall|k: Seq<char>|
                    (exists|i: int| 0 <= i < m + 1 && members@[i].0@ == k) implies exists|i: int|
                        0 <= i < m + 1 && members@[i].0@ == k && (forall|j: int|
                            i < j < m + 1 ==> members@[j].0@ != k) && strs(#[trigger] adjacency.lookup(k)->0@)
                            == member_deps(strs(members@[i].1@), names_of(members@)) by {
                    if k == name {
                        assert(members@[m as int].0@ == k);
                    } else {
                        let i = choose|i: int| 0 <= i < m + 1 && members@[i].0@ == k;
                        assert(i < m);
                        assert(a0.lookup(k) == adjacency.lookup(k));
                        let i2 = choose|i2: int|
                            0 <= i2 < m && members@[i2].0@ == k && (forall|j: int|
                                i2 < j < m ==> members@[j].0@ != k) && strs(a0.lookup(k)->0@)
                                == member_deps(strs(members@[i2].1@), names_of(members@));
                        assert(forall|j: int| i2 < j < m + 1 ==> members@[j].0@ != k);
                    }
                }
            }
            m += 1;
        }
        proof {
            assert(adjacency.key_list().to_set() =~= names_of(members@));
            assert(member_graph(members@, adjacency));
        }
        let ghost adj = adjacency;
        let r = MemberDag::from_adjacency(adjacency);
        proof {
            let s = choose|s: Seq<Seq<char>>| sort_outcome(adj, s, dag_view(r));
            assert(adj.wf() && member_graph(members@, adj));
        }
        r
    }
}

/// `x` reaches `y` by `n` steps of "depends on", through nodes of the
/// graph.
pub open spec fn dep_path(adj: StrMap<Vec<String>>, x: Seq<char>, y: Seq<char>, n: nat) -> bool
    decreases n,
{
    if n == 0 {
        x == y
    } else {
        adj.has_key(x) && exists|z: Seq<char>| #[trigger] deps_in(adj, x).contains(z) && dep_path(adj, z, y, (n - 1) as nat)
    }
}

/// `x` depends on itself, through one or more steps.
pub open spec fn on_cycle(adj: StrMap<Vec<String>>, x: Seq<char>) -> bool {
    exists|n: nat| n > 0 && #[trigger] dep_path(adj, x, x, n)
}

/// Everything a node depends on is a node of the graph.
pub open spec fn deps_are_nodes(adj: StrMap<Vec<String>>) -> bool {
    forall|k: Seq<char>, d: Seq<char>| adj.has_key(k) && #[trigger] deps_in(adj, k).contains(d) ==> adj.has_key(d)
}

proof fn lemma_path_goes_back(adj: StrMap<Vec<String>>, order: Seq<Seq<char>>, i: int, y: Seq<char>, n: nat)
    requires
        greedy_run(adj, order),
        without(adj.key_list(), order).len() == 0,
        0 <= i < order.len(),
        n > 0,
        dep_path(adj, order[i], y, n),
    ensures
        exists|j: int| 0 <= j < i && order[j] == y,
    decreases n,
{
    lemma_sorted_order(adj, order);
    let z = choose|z: Seq<char>| #[trigger] deps_in(adj, order[i]).contains(z) && dep_path(adj, z, y, (n - 1) as nat);
    assert(deps_in(adj, order[i]).contains(z));
    let j1 = choose|j: int| 0 <= j < i && order[j] == z;
    if n > 1 {
        lemma_path_goes_back(adj, order, j1, y, (n - 1) as nat);
        let j = choose|j: int| 0 <= j < j1 && order[j] == y;
        assert(0 <= j < i && order[j] == y);
    }
}

/// A sort that succeeds shows the graph has no cycle: no node depends on
/// itself, directly or not.
pub proof fn lemma_sorted_acyclic(adj: StrMap<Vec<String>>, order: Seq<Seq<char>>, x: Seq<char>)
    requires
        greedy_run(adj, order),
        without(adj.key_list(), order).len() == 0,
    ensures
        !on_cycle(adj, x),
{
    if on_cycle(adj, x) {
        let n = choose|n: nat| n > 0 && #[trigger] dep_path(adj, x, x, n);
        lemma_sorted_order(adj, order);
        assert(adj.has_key(x));
        let i = choose|i: int| 0 <= i < order.len() && order[i] == x;
        lemma_path_goes_back(adj, order, i, x, n);
        let j = choose|j: int| 0 <= j < i && order[j] == x;
        assert(order.no_duplicates());
        assert(order[j] == order[i]);
    }
}

/// A step of a walk through unplaced nodes: something `k` depends on that
/// `s` has not placed.
pub open spec fn unplaced_dep(adj: StrMap<Vec<String>>, s: Seq<Seq<char>>, k: Seq<char>) -> Seq<char> {
    choose|d: Seq<char>| deps_in(adj, k).contains(d) && !s.contains(d)
}

pub open spec fn walk(adj: StrMap<Vec<String>>, s: Seq<Seq<char>>, k0: Seq<char>, i: nat) -> Seq<char>
    decreases i,
{
    if i == 0 {
        k0
    } else {
        unplaced_dep(adj, s, walk(adj, s, k0, (i - 1) as nat))
    }
}

proof fn lemma_walk_left_over(adj: StrMap<Vec<String>>, s: Seq<Seq<char>>, k0: Seq<char>, i: nat)
    requires
        stuck(adj, s),
        deps_are_nodes(adj),
        without(adj.key_list(), s).contains(k0),
    ensures
        without(adj.key_list(), s).contains(walk(adj, s, k0, i)),
        deps_in(adj, walk(adj, s, k0, i)).contains(walk(adj, s, k0, i + 1)),
    decreases i,
{
    lemma_without(adj.key_list(), s);
    if i > 0 {
        let p = walk(adj, s, k0, (i - 1) as nat);
        lemma_walk_left_over(adj, s, k0, (i - 1) as nat);
        lemma_failed_sort_waits(adj, s, p);
        let d = unplaced_dep(adj, s, p);
        assert(walk(adj, s, k0, i) == d);
        assert(deps_in(adj, p).contains(d) && !s.contains(d));
        assert(adj.has_key(p));
        assert(adj.has_key(d));
        assert(adj.key_list().contains(d));
    }
    let k = walk(adj, s, k0, i);
    lemma_failed_sort_waits(adj, s, k);
    let d = unplaced_dep(adj, s, k);
    assert(walk(adj, s, k0, i + 1) == d);
    assert(adj.has_key(k));
}

proof fn lemma_walk_path(adj: StrMap<Vec<String>>, s: Seq<Seq<char>>, k0: Seq<char>, a: nat, m: nat)
    requires
        stuck(adj, s),
        deps_are_nodes(adj),
        without(adj.key_list(), s).contains(k0),
    ensures
        dep_path(adj, walk(adj, s, k0, a), walk(adj, s, k0, a + m), m),
    decreases m,
{
    if m > 0 {
        lemma_walk_path(adj, s, k0, a + 1, (m - 1) as nat);
        lemma_walk_left_over(adj, s, k0, a);
        lemma_without(adj.key_list(), s);
        let x = walk(adj, s, k0, a);
        let z = walk(adj, s, k0, a + 1);
        assert(adj.has_key(x));
        assert(deps_in(adj, x).contains(z));
        assert(a + 1 + (m - 1) == a + m);
    }
}

/// A sort that fails, on a graph whose dependencies are all its nodes,
/// shows a cycle: some member left over depends on itself.
pub proof fn lemma_failed_sort_cycle(adj: StrMap<Vec<String>>, s: Seq<Seq<char>>)
    requires
        stuck(adj, s),
        deps_are_nodes(adj),
        without(adj.key_list(), s).len() > 0,
    ensures
        exists|x: Seq<char>| #[trigger] on_cycle(adj, x),
{
    let rem = without(adj.key_list(), s);
    let k0 = rem[0];
    let l = rem.len();
    let w = Seq::new((l + 1) as nat, |i: int| walk(adj, s, k0, i as nat));
    assert forall|i: int| 0 <= i < w.len() implies rem.contains(#[trigger] w[i]) by {
        lemma_walk_left_over(adj, s, k0, i as nat);
    }
    if w.no_duplicates() {
        w.unique_seq_to_set();
        rem.lemma_cardinality_of_set();
        assert(w.to_set().subset_of(rem.to_set()));
        vstd::seq_lib::seq_to_set_is_finite(rem);
        vstd::set_lib::lemma_len_subset(w.to_set(), rem.to_set());
        assert(false);
    }
    let (i, j) = choose|i: int, j: int| 0 <= i < w.len() && 0 <= j < w.len() && i != j && w[i] == w[j];
    let (a, b) = if i < j { (i, j) } else { (j, i) };
    lemma_walk_path(adj, s, k0, a as nat, (b - a) as nat);
    assert(walk(adj, s, k0, a as nat) == w[a]);
    assert(walk(adj, s, k0, (a + (b - a)) as nat) == w[b]);
    assert(on_cycle(adj, w[a]));
}

/// On a graph whose dependencies are all its nodes, the sort succeeds
/// exactly when no node depends on itself; then its order holds every node
/// once, each after everything it depends on.
pub proof fn lemma_sort_ok_iff_acyclic(
    adj: StrMap<Vec<String>>,
    s: Seq<Seq<char>>,
    r: Result<Seq<Seq<char>>, Seq<char>>,
)
    requires
        sort_outcome(adj, s, r),
        deps_are_nodes(adj),
    ensures
        r is Ok <==> forall|x: Seq<char>| !#[trigger] on_cycle(adj, x),
        r matches Ok(order) ==> {
            &&& order.no_duplicates()
            &&& forall|k: Seq<char>| adj.has_key(k) <==> order.contains(k)
            &&& forall|i: int, d: Seq<char>|
                0 <= i < order.len() && #[trigger] deps_in(adj, order[i]).contains(d) ==> exists|j: int|
                    0 <= j < i && order[j] == d
        },
{
    match r {
        Ok(order) => {
            lemma_sorted_order(adj, order);
            assert forall|x: Seq<char>| !#[trigger] on_cycle(adj, x) by {
                lemma_sorted_acyclic(adj, order, x);
            }
        },
        Err(_) => {
            lemma_failed_sort_cycle(adj, s);
        },
    }
}

} // verus!
