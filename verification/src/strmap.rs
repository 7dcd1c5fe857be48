//! Ordered string collections: a set and a map keyed by strings, both kept
//! in ascending order of their keys (the order in which `String` compares).
use vstd::prelude::*;
use crate::text::{chars_of, strs};

verus! {

/// `a < b` in the order of `String`: lexicographic over code points
/// (which is also the order of the UTF-8 bytes).
pub open spec fn lex_lt(a: Seq<char>, b: Seq<char>) -> bool
    decreases a.len(),
{
    if a.len() == 0 {
        b.len() > 0
    } else if b.len() == 0 {
        false
    } else if a[0] != b[0] {
        a[0] < b[0]
    } else {
        lex_lt(a.drop_first(), b.drop_first())
    }
}

pub proof fn lemma_lex_irrefl(a: Seq<char>)
    ensures
        !lex_lt(a, a),
    decreases a.len(),
{
    if a.len() > 0 {
        lemma_lex_irrefl(a.drop_first());
    }
}

pub proof fn lemma_lex_asym(a: Seq<char>, b: Seq<char>)
    ensures
        !(lex_lt(a, b) && lex_lt(b, a)),
    decreases a.len(),
{
    if a.len() > 0 && b.len() > 0 && a[0] == b[0] {
        lemma_lex_asym(a.drop_first(), b.drop_first());
    }
}

pub proof fn lemma_lex_total(a: Seq<char>, b: Seq<char>)
    ensures
        a != b ==> lex_lt(a, b) || lex_lt(b, a),
    decreases a.len(),
{
    if a.len() > 0 && b.len() > 0 && a[0] == b[0] {
        lemma_lex_total(a.drop_first(), b.drop_first());
        if a.drop_first() == b.drop_first() {
            assert(a =~= seq![a[0]] + a.drop_first());
            assert(b =~= seq![b[0]] + b.drop_first());
        }
    } else if a.len() == 0 && b.len() == 0 {
        assert(a =~= b);
    }
}

pub proof fn lemma_lex_trans(a: Seq<char>, b: Seq<char>, c: Seq<char>)
    requires
        lex_lt(a, b),
        lex_lt(b, c),
    ensures
        lex_lt(a, c),
    decreases a.len(),
{
    if a.len() > 0 && b.len() > 0 && c.len() > 0 && a[0] == b[0] && b[0] == c[0] {
        lemma_lex_trans(a.drop_first(), b.drop_first(), c.drop_first());
    }
}

/// Keys in strictly ascending order (so also without repetition).
pub open spec fn sorted(s: Seq<Seq<char>>) -> bool {
    forall|i: int, j: int| 0 <= i < j < s.len() ==> lex_lt(#[trigger] s[i], #[trigger] s[j])
}

pub proof fn lemma_sorted_distinct(s: Seq<Seq<char>>, i: int, j: int)
    requires
        sorted(s),
        0 <= i < s.len(),
        0 <= j < s.len(),
        i != j,
    ensures
        s[i] != s[j],
{
    if i < j {
        lemma_lex_irrefl(s[i]);
    } else {
        lemma_lex_irrefl(s[j]);
    }
}

pub proof fn lemma_sorted_no_dup(s: Seq<Seq<char>>)
    requires
        sorted(s),
    ensures
        s.no_duplicates(),
{
    assert forall|i: int, j: int| 0 <= i < s.len() && 0 <= j < s.len() && i != j implies s[i]
        != s[j] by {
        lemma_sorted_distinct(s, i, j);
    }
}

/// Three-way comparison of two strings in `String` order.
pub enum Cmp {
    Less,
    Equal,
    Greater,
}

pub fn compare_str(a: &str, b: &str) -> (r: Cmp)
    ensures
        r is Less <==> lex_lt(a@, b@),
        r is Equal <==> a@ == b@,
        r is Greater <==> lex_lt(b@, a@),
{
    let x = chars_of(a);
    let y = chars_of(b);
    let mut i: usize = 0;
    assert(x@.subrange(0, x.len() as int) =~= x@);
    assert(y@.subrange(0, y.len() as int) =~= y@);
    while i < x.len() && i < y.len()
        invariant
            x@ == a@,
            y@ == b@,
            i <= x.len(),
            i <= y.len(),
            x@.subrange(0, i as int) == y@.subrange(0, i as int),
            lex_lt(a@, b@) == lex_lt(x@.subrange(i as int, x.len() as int), y@.subrange(
                i as int,
                y.len() as int,
            )),
            lex_lt(b@, a@) == lex_lt(y@.subrange(i as int, y.len() as int), x@.subrange(
                i as int,
                x.len() as int,
            )),
        decreases x.len() - i,
    {
        let ghost xs = x@.subrange(i as int, x.len() as int);
        let ghost ys = y@.subrange(i as int, y.len() as int);
        if x[i] != y[i] {
            proof {
                lemma_lex_asym(a@, b@);
                assert(xs[0] == x@[i as int]);
                assert(ys[0] == y@[i as int]);
                assert(a@ != b@) by {
                    assert(a@[i as int] != b@[i as int]);
                }
            }
            if x[i] < y[i] {
                return Cmp::Less;
            } else {
                return Cmp::Greater;
            }
        }
        assert(xs.drop_first() =~= x@.subrange(i + 1, x.len() as int));
        assert(ys.drop_first() =~= y@.subrange(i + 1, y.len() as int));
        assert(x@.subrange(0, i + 1) =~= x@.subrange(0, i as int).push(x@[i as int]));
        assert(y@.subrange(0, i + 1) =~= y@.subrange(0, i as int).push(y@[i as int]));
        i += 1;
    }
    proof {
        lemma_lex_asym(a@, b@);
        lemma_lex_irrefl(a@);
    }
    if x.len() == y.len() {
        assert(x@ =~= x@.subrange(0, i as int));
        assert(y@ =~= y@.subrange(0, i as int));
        Cmp::Equal
    } else if x.len() < y.len() {
        assert(a@ != b@) by {
            assert(a@.len() != b@.len());
        }
        Cmp::Less
    } else {
        assert(a@ != b@) by {
            assert(a@.len() != b@.len());
        }
        Cmp::Greater
    }
}

/// Where `s` stands among sorted `keys`: the first position whose key is
/// not below `s`, and whether that key is `s` itself.
fn locate(keys: &Vec<String>, s: &str) -> (r: (usize, bool))
    requires
        sorted(strs(keys@)),
    ensures
        r.0 <= keys.len(),
        forall|j: int| 0 <= j < r.0 ==> lex_lt(#[trigger] strs(keys@)[j], s@),
        r.1 ==> r.0 < keys.len() && strs(keys@)[r.0 as int] == s@,
        !r.1 ==> forall|j: int| 0 <= j < keys.len() ==> strs(keys@)[j] != s@,
        !r.1 && r.0 < keys.len() ==> lex_lt(s@, strs(keys@)[r.0 as int]),
{
    let ghost ks = strs(keys@);
    let mut i: usize = 0;
    while i < keys.len()
        invariant
            ks == strs(keys@),
            sorted(ks),
            i <= keys.len(),
            forall|j: int| 0 <= j < i ==> lex_lt(#[trigger] ks[j], s@),
        decreases keys.len() - i,
    {
        match compare_str(keys[i].as_str(), s) {
            Cmp::Less => {},
            Cmp::Equal => {
                return (i, true);
            },
            Cmp::Greater => {
                proof {
                    assert forall|j: int| 0 <= j < keys.len() implies ks[j] != s@ by {
                        lemma_lex_irrefl(s@);
                        if j > i {
                            assert(lex_lt(ks[i as int], ks[j]));
                            if ks[j] == s@ {
                                lemma_lex_asym(ks[i as int], s@);
                            }
                        } else if j == i {
                            lemma_lex_asym(ks[i as int], s@);
                        }
                    }
                }
                return (i, false);
            },
        }
        i += 1;
    }
    proof {
        assert forall|j: int| 0 <= j < keys.len() implies ks[j] != s@ by {
            lemma_lex_irrefl(s@);
        }
    }
    (i, false)
}

/// Inserting `x` at position `i` of a sorted sequence keeps it sorted when
/// everything before `i` is below `x` and everything from `i` on is above it.
proof fn lemma_insert_sorted(ks: Seq<Seq<char>>, i: int, x: Seq<char>)
    requires
        sorted(ks),
        0 <= i <= ks.len(),
        forall|j: int| 0 <= j < i ==> lex_lt(#[trigger] ks[j], x),
        i < ks.len() ==> lex_lt(x, ks[i]),
    ensures
        sorted(ks.insert(i, x)),
        ks.insert(i, x).to_set() == ks.to_set().insert(x),
{
    let nk = ks.insert(i, x);
    assert forall|a: int, b: int| 0 <= a < b < nk.len() implies lex_lt(
        #[trigger] nk[a],
        #[trigger] nk[b],
    ) by {
        if b < i {
        } else if a < i && b == i {
        } else if a < i && b > i {
            lemma_lex_trans(ks[a], x, ks[i]);
            if b - 1 > i {
                lemma_lex_trans(ks[a], ks[i], ks[b - 1]);
            }
        } else if a == i {
            if b - 1 > i {
                lemma_lex_trans(x, ks[i], ks[b - 1]);
            }
        } else {
        }
    }
    assert forall|y: Seq<char>| nk.to_set().contains(y) <==> ks.to_set().insert(x).contains(y) by {
        if nk.contains(y) {
            let p = choose|p: int| 0 <= p < nk.len() && nk[p] == y;
            if p < i {
                assert(ks[p] == y);
            } else if p > i {
                assert(ks[p - 1] == y);
            }
        }
        if ks.contains(y) {
            let p = choose|p: int| 0 <= p < ks.len() && ks[p] == y;
            if p < i {
                assert(nk[p] == y);
            } else {
                assert(nk[p + 1] == y);
            }
        }
        if y == x {
            assert(nk[i] == y);
        }
    }
    assert(nk.to_set() =~= ks.to_set().insert(x));
}

/// A set of strings, kept in ascending order (what `BTreeSet<String>` holds).
#[derive(Debug, Clone)]
pub struct StrSet {
    items: Vec<String>,
}

impl StrSet {
    pub closed spec fn elems(&self) -> Seq<Seq<char>> {
        strs(self.items@)
    }

    pub closed spec fn wf(&self) -> bool {
        sorted(self.elems())
    }

    pub proof fn lemma_wf(&self)
        requires
            self.wf(),
        ensures
            sorted(self.elems()),
    {
    }

    pub open spec fn has(&self, s: Seq<char>) -> bool {
        self.elems().contains(s)
    }

    pub open spec fn to_set(&self) -> Set<Seq<char>> {
        self.elems().to_set()
    }

    pub fn new() -> (r: Self)
        ensures
            r.wf(),
            r.elems() == Seq::<Seq<char>>::empty(),
    {
        let r = StrSet { items: Vec::new() };
        assert(r.elems() =~= Seq::<Seq<char>>::empty());
        r
    }

    pub fn len(&self) -> (n: usize)
        ensures
            n == self.elems().len(),
    {
        self.items.len()
    }

    pub fn is_empty(&self) -> (b: bool)
        ensures
            b == (self.elems().len() == 0),
    {
        self.items.len() == 0
    }

    /// The elements, in ascending order.
    pub fn items(&self) -> (r: &Vec<String>)
        ensures
            strs(r@) == self.elems(),
    {
        &self.items
    }

    pub fn contains(&self, s: &str) -> (b: bool)
        requires
            self.wf(),
        ensures
            b == self.has(s@),
    {
        let (i, found) = locate(&self.items, s);
        found
    }

    /// Adds `s`; returns whether it was new (`BTreeSet::insert`).
    pub fn insert(&mut self, s: String) -> (added: bool)
        requires
            old(self).wf(),
        ensures
            final(self).wf(),
            final(self).to_set() == old(self).to_set().insert(s@),
            added == !old(self).has(s@),
            !added ==> final(self).elems() == old(self).elems(),
            added ==> final(self).elems().len() == old(self).elems().len() + 1,
    {
        let ghost old_elems = self.elems();
        let (i, found) = locate(&self.items, s.as_str());
        if found {
            assert(old_elems.to_set() =~= old_elems.to_set().insert(s@));
            return false;
        }
        let ghost sv = s@;
        self.items.insert(i, s);
        proof {
            assert(self.elems() =~= old_elems.insert(i as int, sv));
            lemma_insert_sorted(old_elems, i as int, sv);
        }
        true
    }
}

/// A map keyed by strings, kept in ascending order of the keys
/// (what `BTreeMap<String, V>` holds).
#[derive(Debug, Clone)]
pub struct StrMap<V> {
    keys: Vec<String>,
    vals: Vec<V>,
}

impl<V> StrMap<V> {
    pub closed spec fn key_list(&self) -> Seq<Seq<char>> {
        strs(self.keys@)
    }

    pub closed spec fn value_list(&self) -> Seq<V> {
        self.vals@
    }

    pub closed spec fn wf(&self) -> bool {
        &&& self.keys@.len() == self.vals@.len()
        &&& sorted(self.key_list())
    }

    /// A position at which key `k` is listed.
    pub open spec fn key_index(&self, k: Seq<char>) -> int {
        choose|i: int| 0 <= i < self.key_list().len() && self.key_list()[i] == k
    }

    /// Lookup by key, in terms of the two lists.
    pub open spec fn lookup(&self, k: Seq<char>) -> Option<V> {
        if self.key_list().contains(k) {
            Some(self.value_list()[self.key_index(k)])
        } else {
            None
        }
    }

    pub open spec fn has_key(&self, k: Seq<char>) -> bool {
        self.key_list().contains(k)
    }

    pub proof fn lemma_wf(&self)
        requires
            self.wf(),
        ensures
            self.key_list().len() == self.value_list().len(),
            sorted(self.key_list()),
    {
    }

    /// The value at position `i` is what a lookup of the key at `i` gives.
    pub proof fn lemma_lookup_at(&self, i: int)
        requires
            self.wf(),
            0 <= i < self.key_list().len(),
        ensures
            self.lookup(self.key_list()[i]) == Some(self.value_list()[i]),
    {
        let k = self.key_list()[i];
        assert(self.key_list().contains(k));
        let j = self.key_index(k);
        if j != i {
            lemma_sorted_distinct(self.key_list(), i, j);
        }
        assert(j == i);
    }

    /// A key that is not listed has no value.
    pub proof fn lemma_lookup_none(&self, k: Seq<char>)
        requires
            !self.key_list().contains(k),
        ensures
            self.lookup(k) is None,
    {
    }

    pub fn new() -> (r: Self)
        ensures
            r.wf(),
            r.key_list() == Seq::<Seq<char>>::empty(),
            r.value_list() == Seq::<V>::empty(),
    {
        let r = StrMap { keys: Vec::new(), vals: Vec::new() };
        assert(r.key_list() =~= Seq::<Seq<char>>::empty());
        r
    }

    pub fn len(&self) -> (n: usize)
        requires
            self.wf(),
        ensures
            n == self.key_list().len(),
    {
        self.keys.len()
    }

    pub fn is_empty(&self) -> (b: bool)
        requires
            self.wf(),
        ensures
            b == (self.key_list().len() == 0),
    {
        self.keys.len() == 0
    }

    /// The keys, in ascending order.
    pub fn keys(&self) -> (r: &Vec<String>)
        ensures
            strs(r@) == self.key_list(),
    {
        &self.keys
    }

    /// The values, in the order of their keys.
    pub fn values(&self) -> (r: &Vec<V>)
        ensures
            r@ == self.value_list(),
    {
        &self.vals
    }

    /// Position of key `k`, if present.
    pub fn position(&self, k: &str) -> (r: Option<usize>)
        requires
            self.wf(),
        ensures
            r matches Some(i) ==> i < self.key_list().len() && self.key_list()[i as int] == k@,
            r is None ==> !self.has_key(k@),
            r matches Some(i) ==> self.lookup(k@) == Some(self.value_list()[i as int]),
            r is None ==> self.lookup(k@) is None,
    {
        let (i, found) = locate(&self.keys, k);
        if found {
            proof {
                self.lemma_lookup_at(i as int);
            }
            Some(i)
        } else {
            proof {
                self.lemma_lookup_none(k@);
            }
            None
        }
    }

    pub fn contains_key(&self, k: &str) -> (b: bool)
        requires
            self.wf(),
        ensures
            b == self.has_key(k@),
            b == self.lookup(k@) is Some,
    {
        self.position(k).is_some()
    }

    pub fn get(&self, k: &str) -> (r: Option<&V>)
        requires
            self.wf(),
        ensures
            match r {
                Some(v) => self.lookup(k@) == Some(*v),
                None => self.lookup(k@) is None,
            },
    {
        match self.position(k) {
            Some(i) => Some(&self.vals[i]),
            None => None,
        }
    }

    /// Sets the value of `k` (`BTreeMap::insert`): replaces an existing value,
    /// or adds the key in its place in the order.
    pub fn insert(&mut self, k: String, v: V)
        requires
            old(self).wf(),
        ensures
            final(self).wf(),
            final(self).lookup(k@) == Some(v),
            forall|x: Seq<char>| x != k@ ==> #[trigger] final(self).lookup(x) == old(self).lookup(
                x,
            ),
            final(self).key_list().to_set() == old(self).key_list().to_set().insert(k@),
    {
        let ghost ok = self.key_list();
        let ghost ov = self.value_list();
        let ghost old_self = *self;
        let (i, found) = locate(&self.keys, k.as_str());
        let ghost kv = k@;
        if found {
            self.vals.set(i, v);
            proof {
                assert(self.key_list() == ok);
                assert(self.value_list() == ov.update(i as int, v));
                self.lemma_lookup_at(i as int);
                assert forall|x: Seq<char>| x != kv implies #[trigger] self.lookup(x)
                    == old_self.lookup(x) by {
                    if ok.contains(x) {
                        let p = choose|p: int| 0 <= p < ok.len() && ok[p] == x;
                        self.lemma_lookup_at(p);
                        old_self.lemma_lookup_at(p);
                    } else {
                        self.lemma_lookup_none(x);
                        old_self.lemma_lookup_none(x);
                    }
                }
                assert(ok.to_set() =~= ok.to_set().insert(kv));
            }
            return;
        }
        self.keys.insert(i, k);
        self.vals.insert(i, v);
        proof {
            let nk = self.key_list();
            assert(nk =~= ok.insert(i as int, kv));
            assert(self.value_list() =~= ov.insert(i as int, v));
            lemma_insert_sorted(ok, i as int, kv);
            assert(self.wf());
            self.lemma_lookup_at(i as int);
            assert forall|x: Seq<char>| x != kv implies #[trigger] self.lookup(x)
                == old_self.lookup(x) by {
                if ok.contains(x) {
                    let p = choose|p: int| 0 <= p < ok.len() && ok[p] == x;
                    old_self.lemma_lookup_at(p);
                    if p < i {
                        self.lemma_lookup_at(p);
                    } else {
                        self.lemma_lookup_at(p + 1);
                    }
                } else {
                    old_self.lemma_lookup_none(x);
                    assert(!nk.contains(x)) by {
                        if nk.contains(x) {
                            let p = choose|p: int| 0 <= p < nk.len() && nk[p] == x;
                            if p < i {
                                assert(ok[p] == x);
                            } else if p > i {
                                assert(ok[p - 1] == x);
                            }
                        }
                    }
                    self.lemma_lookup_none(x);
                }
            }
        }
    }
}

/// The strings of `v` in ascending order, each once (a sort and a dedup).
pub fn sorted_unique(v: &Vec<String>) -> (r: Vec<String>)
    ensures
        sorted(strs(r@)),
        strs(r@).to_set() == strs(v@).to_set(),
{
    let ghost a = strs(v@);
    let mut set = StrSet::new();
    let mut i: usize = 0;
    assert(a.take(0).to_set() =~= Set::<Seq<char>>::empty());
    while i < v.len()
        invariant
            i <= v@.len(),
            a == strs(v@),
            set.wf(),
            set.to_set() == a.take(i as int).to_set(),
        decreases v.len() - i,
    {
        set.insert(v[i].clone());
        proof {
            assert(a.take(i + 1) =~= a.take(i as int) + seq![a[i as int]]);
            Seq::lemma_to_set_insert_commutes(a.take(i as int), a[i as int]);
        }
        i += 1;
    }
    assert(a.take(v@.len() as int) =~= a);
    proof {
        set.lemma_wf();
    }
    set.items().clone()
}

} // verus!
