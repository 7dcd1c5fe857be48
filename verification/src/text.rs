//! Character-level string helpers shared by the parsers of this crate.
//!
//! Every function works on the `Seq<char>` view of `str`/`String`, so the
//! contracts of the callers can speak about text directly.
use vstd::prelude::*;

verus! {

/// The `Seq<char>` views of a vector of strings.
pub open spec fn strs(v: Seq<String>) -> Seq<Seq<char>> {
    v.map_values(|s: String| s@)
}

/// Unicode `White_Space`, as `char::is_whitespace` defines it.
pub open spec fn is_ws(c: char) -> bool {
    ||| c == ' '
    ||| ('\t' <= c && c <= '\r')
    ||| c == '\u{85}'
    ||| c == '\u{a0}'
    ||| c == '\u{1680}'
    ||| ('\u{2000}' <= c && c <= '\u{200a}')
    ||| c == '\u{2028}'
    ||| c == '\u{2029}'
    ||| c == '\u{202f}'
    ||| c == '\u{205f}'
    ||| c == '\u{3000}'
}

pub fn is_whitespace_char(c: char) -> (r: bool)
    ensures
        r == is_ws(c),
{
    c == ' ' || ('\t' <= c && c <= '\r') || c == '\u{85}' || c == '\u{a0}' || c == '\u{1680}'
        || ('\u{2000}' <= c && c <= '\u{200a}') || c == '\u{2028}' || c == '\u{2029}' || c
        == '\u{202f}' || c == '\u{205f}' || c == '\u{3000}'
}

/// The characters of `s`, in order.
pub fn chars_of(s: &str) -> (v: Vec<char>)
    ensures
        v@ == s@,
{
    let mut v: Vec<char> = Vec::new();
    for c in it: s.chars()
        invariant
            v@ == it.seq().take(it.index() as int),
    {
        v.push(c);
    }
    v
}

/// `String::push`: appends one character.
#[verifier::external_body]
pub(crate) fn push_char(s: &mut String, c: char)
    ensures
        final(s)@ == old(s)@.push(c),
{
    s.push(c);
}

/// The string made of `v[lo..hi]`.
pub fn string_of(v: &Vec<char>, lo: usize, hi: usize) -> (r: String)
    requires
        lo <= hi <= v.len(),
    ensures
        r@ == v@.subrange(lo as int, hi as int),
{
    let mut r = String::new();
    let mut i = lo;
    while i < hi
        invariant
            lo <= i <= hi <= v.len(),
            r@ == v@.subrange(lo as int, i as int),
        decreases hi - i,
    {
        push_char(&mut r, v[i]);
        assert(v@.subrange(lo as int, i + 1) == v@.subrange(lo as int, i as int).push(v@[i as int]));
        i += 1;
    }
    r
}

/// The string whose characters are `s`'s followed by `t`'s.
pub fn concat(s: &str, t: &str) -> (r: String)
    ensures
        r@ == s@ + t@,
{
    let mut r = s.to_string();
    r.append(t);
    r
}

/// `a == b` on the characters.
pub fn str_eq(a: &str, b: &str) -> (r: bool)
    ensures
        r == (a@ == b@),
{
    let x = chars_of(a);
    let y = chars_of(b);
    if x.len() != y.len() {
        return false;
    }
    let mut i: usize = 0;
    while i < x.len()
        invariant
            x@ == a@,
            y@ == b@,
            x.len() == y.len(),
            i <= x.len(),
            forall|j: int| 0 <= j < i ==> x@[j] == y@[j],
        decreases x.len() - i,
    {
        if x[i] != y[i] {
            return false;
        }
        i += 1;
    }
    assert(x@ =~= y@);
    true
}

pub open spec fn starts_with(s: Seq<char>, p: Seq<char>) -> bool {
    p.len() <= s.len() && s.subrange(0, p.len() as int) == p
}

pub open spec fn ends_with(s: Seq<char>, p: Seq<char>) -> bool {
    p.len() <= s.len() && s.subrange(s.len() - p.len(), s.len() as int) == p
}

/// `p` occurs in `s` at position `i`.
pub open spec fn occurs_at(s: Seq<char>, p: Seq<char>, i: int) -> bool {
    0 <= i && i + p.len() <= s.len() && s.subrange(i, i + p.len()) == p
}

/// `s.contains(p)`.
pub open spec fn contains_sub(s: Seq<char>, p: Seq<char>) -> bool {
    exists|i: int| occurs_at(s, p, i)
}

/// `s` with the prefix `p` removed, when `s` starts with it.
pub open spec fn strip_prefix(s: Seq<char>, p: Seq<char>) -> Option<Seq<char>> {
    if starts_with(s, p) {
        Some(s.subrange(p.len() as int, s.len() as int))
    } else {
        None
    }
}

/// `s` with the suffix `p` removed, when `s` ends with it.
pub open spec fn strip_suffix(s: Seq<char>, p: Seq<char>) -> Option<Seq<char>> {
    if ends_with(s, p) {
        Some(s.subrange(0, s.len() - p.len()))
    } else {
        None
    }
}

/// Does `v[i..]` start with `p`?
pub fn starts_with_at(v: &Vec<char>, i: usize, p: &Vec<char>) -> (r: bool)
    requires
        i <= v.len(),
    ensures
        r == starts_with(v@.subrange(i as int, v.len() as int), p@),
{
    if p.len() > v.len() - i {
        return false;
    }
    let mut k: usize = 0;
    while k < p.len()
        invariant
            i + p.len() <= v.len(),
            k <= p.len(),
            forall|j: int| 0 <= j < k ==> v@[i + j] == p@[j],
        decreases p.len() - k,
    {
        if v[i + k] != p[k] {
            assert(v@.subrange(i as int, v.len() as int).subrange(0, p.len() as int)[k as int]
                != p@[k as int]);
            return false;
        }
        k += 1;
    }
    assert(v@.subrange(i as int, v.len() as int).subrange(0, p.len() as int) =~= p@);
    true
}

/// `s.starts_with(p)`.
pub fn str_starts_with(s: &str, p: &str) -> (r: bool)
    ensures
        r == starts_with(s@, p@),
{
    let v = chars_of(s);
    let w = chars_of(p);
    let r = starts_with_at(&v, 0, &w);
    assert(v@.subrange(0, v.len() as int) =~= v@);
    r
}

/// `s.ends_with(p)`.
pub fn str_ends_with(s: &str, p: &str) -> (r: bool)
    ensures
        r == ends_with(s@, p@),
{
    let v = chars_of(s);
    let w = chars_of(p);
    if w.len() > v.len() {
        return false;
    }
    let r = starts_with_at(&v, v.len() - w.len(), &w);
    assert(v@.subrange((v.len() - w.len()) as int, v.len() as int).subrange(0, w.len() as int)
        =~= v@.subrange((v.len() - w.len()) as int, v.len() as int));
    r
}

/// Does `p` occur in `v` at some position `< bound`? (`None` when not.)
pub fn find_sub(v: &Vec<char>, p: &Vec<char>) -> (r: Option<usize>)
    ensures
        match r {
            Some(i) => occurs_at(v@, p@, i as int) && forall|j: int|
                0 <= j < i ==> !occurs_at(v@, p@, j),
            None => !contains_sub(v@, p@),
        },
{
    if p.len() > v.len() {
        assert forall|j: int| !occurs_at(v@, p@, j) by {}
        return None;
    }
    if p.len() == 0 {
        assert(v@.subrange(0, 0) =~= p@);
        return Some(0);
    }
    let mut i: usize = 0;
    while i <= v.len() - p.len()
        invariant
            0 < p.len() <= v.len(),
            i <= v.len() - p.len() + 1,
            forall|j: int| 0 <= j < i ==> !occurs_at(v@, p@, j),
        decreases v.len() - p.len() + 1 - i,
    {
        let b = starts_with_at(v, i, p);
        if b {
            assert(v@.subrange(i as int, v.len() as int).subrange(0, p.len() as int)
                =~= v@.subrange(i as int, i + p.len()));
            return Some(i);
        }
        assert(v@.subrange(i as int, v.len() as int).subrange(0, p.len() as int)
            =~= v@.subrange(i as int, i + p.len()));
        i += 1;
    }
    assert forall|j: int| !occurs_at(v@, p@, j) by {
        if 0 <= j && j + p.len() <= v.len() {
            assert(j < i);
        }
    }
    None
}

/// `s.contains(p)`.
pub fn str_contains(s: &str, p: &str) -> (r: bool)
    ensures
        r == contains_sub(s@, p@),
{
    let v = chars_of(s);
    let w = chars_of(p);
    find_sub(&v, &w).is_some()
}

/// Index of the first occurrence of `c` in `s`.
pub open spec fn first_index(s: Seq<char>, c: char) -> Option<int> {
    if exists|i: int| 0 <= i < s.len() && s[i] == c {
        Some(choose|i: int| 0 <= i < s.len() && s[i] == c && forall|j: int| 0 <= j < i ==> s[j] != c)
    } else {
        None
    }
}

pub fn find_char(v: &Vec<char>, c: char) -> (r: Option<usize>)
    ensures
        r matches Some(i) ==> (i < v.len() && v@[i as int] == c && forall|j: int|
            0 <= j < i ==> v@[j] != c),
        r is None ==> forall|j: int| 0 <= j < v.len() ==> v@[j] != c,
        r matches Some(i) ==> first_index(v@, c) == Some(i as int),
        r is None ==> first_index(v@, c) is None,
{
    let mut i: usize = 0;
    while i < v.len()
        invariant
            i <= v.len(),
            forall|j: int| 0 <= j < i ==> v@[j] != c,
        decreases v.len() - i,
    {
        if v[i] == c {
            proof {
                let k = choose|k: int|
                    0 <= k < v@.len() && v@[k] == c && forall|j: int| 0 <= j < k ==> v@[j] != c;
                assert(0 <= i < v@.len() && v@[i as int] == c && forall|j: int|
                    0 <= j < i ==> v@[j] != c);
                if k < i {
                } else if k > i {
                    assert(v@[i as int] != c);
                }
            }
            return Some(i);
        }
        i += 1;
    }
    None
}

/// Index of the last occurrence of `c` in `s`.
pub open spec fn last_index(s: Seq<char>, c: char) -> Option<int> {
    if exists|i: int| 0 <= i < s.len() && s[i] == c {
        Some(
            choose|i: int|
                0 <= i < s.len() && s[i] == c && forall|j: int| i < j < s.len() ==> s[j] != c,
        )
    } else {
        None
    }
}

pub fn rfind_char(v: &Vec<char>, c: char) -> (r: Option<usize>)
    ensures
        r matches Some(i) ==> last_index(v@, c) == Some(i as int) && i < v.len() && v@[i as int]
            == c,
        r is None ==> last_index(v@, c) is None,
{
    let mut i: usize = v.len();
    while i > 0
        invariant
            i <= v.len(),
            forall|j: int| i <= j < v.len() ==> v@[j] != c,
        decreases i,
    {
        if v[i - 1] == c {
            proof {
                let k = choose|k: int|
                    0 <= k < v@.len() && v@[k] == c && forall|j: int| k < j < v@.len() ==> v@[j]
                        != c;
                assert(0 <= i - 1 < v@.len() && v@[i - 1] == c);
                if k < i - 1 {
                    assert(v@[i - 1] != c);
                }
            }
            return Some(i - 1);
        }
        i -= 1;
    }
    None
}

/// The end of the run of non-whitespace characters of `s` starting at `i`.
pub open spec fn token_end(s: Seq<char>, i: int) -> int
    decreases s.len() - i,
{
    if i < 0 || i >= s.len() || is_ws(s[i]) {
        i
    } else {
        token_end(s, i + 1)
    }
}

/// The whitespace-separated tokens of `s` from position `i` on
/// (what `split_whitespace` yields).
pub open spec fn tokens_from(s: Seq<char>, i: int) -> Seq<Seq<char>>
    decreases s.len() - i, 1int,
{
    if i < 0 || i >= s.len() {
        seq![]
    } else if is_ws(s[i]) {
        tokens_from(s, i + 1)
    } else {
        let e = token_end(s, i);
        if e <= i || e > s.len() {
            seq![]
        } else {
            seq![s.subrange(i, e)] + tokens_from(s, e)
        }
    }
}

pub open spec fn tokens(s: Seq<char>) -> Seq<Seq<char>> {
    tokens_from(s, 0)
}

pub proof fn lemma_token_end_bounds(s: Seq<char>, i: int)
    requires
        0 <= i <= s.len(),
    ensures
        i <= token_end(s, i) <= s.len(),
        forall|j: int| i <= j < token_end(s, i) ==> !is_ws(#[trigger] s[j]),
        token_end(s, i) < s.len() ==> is_ws(s[token_end(s, i)]),
    decreases s.len() - i,
{
    if i < s.len() && !is_ws(s[i]) {
        lemma_token_end_bounds(s, i + 1);
    }
}

/// `s.split_whitespace()`, collected.
pub fn split_whitespace(s: &str) -> (r: Vec<String>)
    ensures
        strs(r@) == tokens(s@),
{
    let v = chars_of(s);
    let mut out: Vec<String> = Vec::new();
    let mut i: usize = 0;
    while i < v.len()
        invariant
            v@ == s@,
            i <= v.len(),
            strs(out@) + tokens_from(v@, i as int) == tokens(v@),
        decreases v.len() - i,
    {
        if is_whitespace_char(v[i]) {
            i += 1;
        } else {
            let mut j = i;
            while j < v.len() && !is_whitespace_char(v[j])
                invariant
                    i <= j <= v.len(),
                    token_end(v@, i as int) == token_end(v@, j as int),
                decreases v.len() - j,
            {
                j += 1;
            }
            proof {
                lemma_token_end_bounds(v@, i as int);
            }
            let t = string_of(&v, i, j);
            let ghost before = strs(out@);
            out.push(t);
            assert(strs(out@) =~= before.push(t@));
            assert(tokens_from(v@, i as int) == seq![v@.subrange(i as int, j as int)]
                + tokens_from(v@, j as int));
            assert(strs(out@) + tokens_from(v@, j as int) =~= before + tokens_from(
                v@,
                i as int,
            ));
            i = j;
        }
    }
    out
}


/// The pieces of `s` between the occurrences of `c` (what `s.split(c)`
/// yields): one more piece than there are occurrences.
#[verifier::opaque]
pub open spec fn split_on(s: Seq<char>, c: char) -> Seq<Seq<char>>
    decreases s.len(),
{
    match first_index(s, c) {
        Some(i) => if 0 <= i < s.len() {
            seq![s.subrange(0, i)] + split_on(s.subrange(i + 1, s.len() as int), c)
        } else {
            seq![s]
        },
        None => seq![s],
    }
}

pub proof fn lemma_first_index(s: Seq<char>, c: char, k: int)
    requires
        0 <= k < s.len(),
        s[k] == c,
        forall|j: int| 0 <= j < k ==> s[j] != c,
    ensures
        first_index(s, c) == Some(k),
{
    let f = choose|f: int|
        0 <= f < s.len() && s[f] == c && forall|j: int| 0 <= j < f ==> s[j] != c;
    if f < k {
    } else if f > k {
    }
}

pub proof fn lemma_split_step(s: Seq<char>, c: char, k: int)
    requires
        0 <= k < s.len(),
        s[k] == c,
        forall|j: int| 0 <= j < k ==> s[j] != c,
    ensures
        split_on(s, c) == seq![s.subrange(0, k)] + split_on(s.subrange(k + 1, s.len() as int), c),
{
    lemma_first_index(s, c, k);
    reveal(split_on);
}

pub proof fn lemma_split_none(s: Seq<char>, c: char)
    requires
        forall|j: int| 0 <= j < s.len() ==> s[j] != c,
    ensures
        split_on(s, c) == seq![s],
{
    reveal(split_on);
}

/// `s.split(c)`, collected.
pub fn split_char(s: &str, c: char) -> (r: Vec<String>)
    ensures
        strs(r@) == split_on(s@, c),
{
    let v = chars_of(s);
    let mut out: Vec<String> = Vec::new();
    let mut start: usize = 0;
    let mut i: usize = 0;
    assert(v@.subrange(0, v.len() as int) =~= v@);
    while i < v.len()
        invariant
            v@ == s@,
            start <= i <= v.len(),
            forall|j: int| start <= j < i ==> v@[j] != c,
            strs(out@) + split_on(v@.subrange(start as int, v.len() as int), c) == split_on(
                v@,
                c,
            ),
        decreases v.len() - i,
    {
        if v[i] == c {
            let ghost rest = v@.subrange(start as int, v.len() as int);
            proof {
                let k = (i - start) as int;
                assert forall|j: int| 0 <= j < k implies rest[j] != c by {
                    assert(rest[j] == v@[start + j]);
                }
                lemma_split_step(rest, c, k);
                assert(rest.subrange(0, k) =~= v@.subrange(start as int, i as int));
                assert(rest.subrange(k + 1, rest.len() as int) =~= v@.subrange(
                    i + 1,
                    v.len() as int,
                ));
            }
            let piece = string_of(&v, start, i);
            let ghost before = strs(out@);
            out.push(piece);
            assert(strs(out@) =~= before.push(v@.subrange(start as int, i as int)));
            assert(strs(out@) + split_on(v@.subrange(i + 1, v.len() as int), c) =~= before
                + split_on(rest, c));
            start = i + 1;
        }
        i += 1;
    }
    let ghost rest = v@.subrange(start as int, v.len() as int);
    proof {
        assert forall|j: int| 0 <= j < rest.len() implies rest[j] != c by {
            assert(rest[j] == v@[start + j]);
        }
        lemma_split_none(rest, c);
    }
    let piece = string_of(&v, start, v.len());
    let ghost before = strs(out@);
    out.push(piece);
    assert(strs(out@) =~= before + split_on(rest, c));
    out
}

/// Whitespace removed from both ends.
pub open spec fn trim_start(s: Seq<char>) -> Seq<char>
    decreases s.len(),
{
    if s.len() > 0 && is_ws(s[0]) {
        trim_start(s.subrange(1, s.len() as int))
    } else {
        s
    }
}

pub open spec fn trim_end(s: Seq<char>) -> Seq<char>
    decreases s.len(),
{
    if s.len() > 0 && is_ws(s.last()) {
        trim_end(s.subrange(0, s.len() - 1))
    } else {
        s
    }
}

pub open spec fn trim(s: Seq<char>) -> Seq<char> {
    trim_end(trim_start(s))
}

/// Bounds `[lo, hi)` of `trim(v[a..b])` within `v`.
pub fn trim_bounds(v: &Vec<char>, a: usize, b: usize) -> (r: (usize, usize))
    requires
        a <= b <= v.len(),
    ensures
        a <= r.0 <= r.1 <= b,
        v@.subrange(r.0 as int, r.1 as int) == trim(v@.subrange(a as int, b as int)),
        v@.subrange(r.0 as int, b as int) == trim_start(v@.subrange(a as int, b as int)),
{
    let mut lo = a;
    while lo < b && is_whitespace_char(v[lo])
        invariant
            a <= lo <= b <= v.len(),
            trim_start(v@.subrange(a as int, b as int)) == trim_start(
                v@.subrange(lo as int, b as int),
            ),
        decreases b - lo,
    {
        assert(v@.subrange(lo as int, b as int).subrange(1, b - lo) =~= v@.subrange(
            lo + 1,
            b as int,
        ));
        lo += 1;
    }
    assert(trim_start(v@.subrange(lo as int, b as int)) == v@.subrange(lo as int, b as int));
    let mut hi = b;
    while hi > lo && is_whitespace_char(v[hi - 1])
        invariant
            a <= lo <= hi <= b <= v.len(),
            trim_end(v@.subrange(lo as int, b as int)) == trim_end(
                v@.subrange(lo as int, hi as int),
            ),
        decreases hi - lo,
    {
        assert(v@.subrange(lo as int, hi as int).subrange(0, hi - lo - 1) =~= v@.subrange(
            lo as int,
            hi - 1,
        ));
        hi -= 1;
    }
    (lo, hi)
}

/// The length of `trim_end(v)`: `v` without its trailing whitespace.
pub fn trim_end_len(v: &Vec<char>) -> (n: usize)
    ensures
        n <= v@.len(),
        v@.subrange(0, n as int) == trim_end(v@),
{
    let mut hi = v.len();
    assert(v@.subrange(0, hi as int) =~= v@);
    while hi > 0 && is_whitespace_char(v[hi - 1])
        invariant
            hi <= v.len(),
            trim_end(v@) == trim_end(v@.subrange(0, hi as int)),
        decreases hi,
    {
        assert(v@.subrange(0, hi as int).subrange(0, hi - 1) =~= v@.subrange(0, hi - 1));
        hi -= 1;
    }
    hi
}

/// `s.strip_prefix(p)`.
pub fn str_strip_prefix(s: &str, p: &str) -> (r: Option<String>)
    ensures
        match r {
            Some(t) => strip_prefix(s@, p@) == Some(t@),
            None => strip_prefix(s@, p@) is None,
        },
{
    let v = chars_of(s);
    let w = chars_of(p);
    if starts_with_at(&v, 0, &w) {
        assert(v@.subrange(0, v@.len() as int) =~= v@);
        Some(string_of(&v, w.len(), v.len()))
    } else {
        assert(v@.subrange(0, v@.len() as int) =~= v@);
        None
    }
}

/// A line as `str::lines` gives it: without a trailing `\r`.
pub open spec fn without_cr(l: Seq<char>) -> Seq<char> {
    if l.len() > 0 && l.last() == '\r' {
        l.drop_last()
    } else {
        l
    }
}

/// The lines of `s`, as `str::lines` gives them: split at `\n`, each
/// without a trailing `\r`, and no last empty line.
pub open spec fn std_lines(s: Seq<char>) -> Seq<Seq<char>> {
    let parts = split_on(s, '\n');
    let ps = if parts.len() > 0 && parts.last().len() == 0 {
        parts.drop_last()
    } else {
        parts
    };
    ps.map_values(|l: Seq<char>| without_cr(l))
}

/// `s.lines()`.
pub fn lines_std(s: &str) -> (r: Vec<String>)
    ensures
        strs(r@) == std_lines(s@),
{
    let parts = split_char(s, '\n');
    let ghost ps0 = strs(parts@);
    let n = parts.len();
    let m = if n > 0 && parts[n - 1].as_str().is_empty() {
        n - 1
    } else {
        n
    };
    let ghost ps = ps0.subrange(0, m as int);
    assert(ps =~= (if ps0.len() > 0 && ps0.last().len() == 0 {
        ps0.drop_last()
    } else {
        ps0
    }));
    let mut r: Vec<String> = Vec::new();
    let mut i: usize = 0;
    while i < m
        invariant
            i <= m <= parts@.len(),
            ps0 == strs(parts@),
            ps == ps0.subrange(0, m as int),
            strs(r@) == ps.take(i as int).map_values(|l: Seq<char>| without_cr(l)),
        decreases m - i,
    {
        let v = chars_of(parts[i].as_str());
        let k = if v.len() > 0 && v[v.len() - 1] == '\r' {
            v.len() - 1
        } else {
            v.len()
        };
        let line = string_of(&v, 0, k);
        assert(line@ == without_cr(ps[i as int])) by {
            assert(ps[i as int] == v@);
            if v@.len() > 0 && v@.last() == '\r' {
                assert(v@.subrange(0, k as int) =~= v@.drop_last());
            } else {
                assert(v@.subrange(0, k as int) =~= v@);
            }
        }
        let ghost before = strs(r@);
        r.push(line);
        assert(strs(r@) =~= before.push(without_cr(ps[i as int])));
        assert(ps.take(i + 1).map_values(|l: Seq<char>| without_cr(l)) =~= ps.take(i as int).map_values(
            |l: Seq<char>| without_cr(l),
        ).push(without_cr(ps[i as int])));
        i += 1;
    }
    assert(ps.take(m as int) =~= ps);
    r
}

/// `s` without `c` at either end (`trim_matches(c)`).
pub open spec fn trim_char(s: Seq<char>, c: char) -> Seq<char>
    decreases s.len(),
{
    if s.len() > 0 && s[0] == c {
        trim_char(s.drop_first(), c)
    } else if s.len() > 0 && s.last() == c {
        trim_char(s.drop_last(), c)
    } else {
        s
    }
}

/// `s.trim_matches(c)`.
pub fn str_trim_char(s: &str, c: char) -> (r: String)
    ensures
        r@ == trim_char(s@, c),
{
    let v = chars_of(s);
    let mut lo: usize = 0;
    let mut hi: usize = v.len();
    assert(v@.subrange(0, v@.len() as int) =~= v@);
    while lo < hi && (v[lo] == c || v[hi - 1] == c)
        invariant
            lo <= hi <= v.len(),
            trim_char(v@, c) == trim_char(v@.subrange(lo as int, hi as int), c),
        decreases hi - lo,
    {
        let ghost w = v@.subrange(lo as int, hi as int);
        if v[lo] == c {
            assert(w.drop_first() =~= v@.subrange(lo + 1, hi as int));
            lo += 1;
        } else {
            assert(w.drop_last() =~= v@.subrange(lo as int, hi - 1));
            hi -= 1;
        }
    }
    string_of(&v, lo, hi)
}

/// `s.trim()`.
pub fn str_trim(s: &str) -> (r: String)
    ensures
        r@ == trim(s@),
{
    let v = chars_of(s);
    let (lo, hi) = trim_bounds(&v, 0, v.len());
    assert(v@.subrange(0, v.len() as int) =~= v@);
    string_of(&v, lo, hi)
}

/// Decimal digits of `n`, most significant first (`"0"` for zero).
pub open spec fn decimal(n: nat) -> Seq<char>
    decreases n,
{
    if n < 10 {
        seq![digit_char(n)]
    } else {
        decimal(n / 10).push(digit_char(n % 10))
    }
}

pub open spec fn digit_char(d: nat) -> char {
    if d == 0 {
        '0'
    } else if d == 1 {
        '1'
    } else if d == 2 {
        '2'
    } else if d == 3 {
        '3'
    } else if d == 4 {
        '4'
    } else if d == 5 {
        '5'
    } else if d == 6 {
        '6'
    } else if d == 7 {
        '7'
    } else if d == 8 {
        '8'
    } else {
        '9'
    }
}

fn digit_of(d: u64) -> (c: char)
    requires
        d < 10,
    ensures
        c == digit_char(d as nat),
{
    if d == 0 {
        '0'
    } else if d == 1 {
        '1'
    } else if d == 2 {
        '2'
    } else if d == 3 {
        '3'
    } else if d == 4 {
        '4'
    } else if d == 5 {
        '5'
    } else if d == 6 {
        '6'
    } else if d == 7 {
        '7'
    } else if d == 8 {
        '8'
    } else {
        '9'
    }
}

/// `n.to_string()`.
pub fn u64_to_string(n: u64) -> (r: String)
    ensures
        r@ == decimal(n as nat),
    decreases n,
{
    if n < 10 {
        let mut r = String::new();
        push_char(&mut r, digit_of(n));
        assert(r@ =~= seq![digit_char(n as nat)]);
        r
    } else {
        let mut r = u64_to_string(n / 10);
        push_char(&mut r, digit_of(n % 10));
        r
    }
}

/// Is `c` an ASCII digit, and which one.
pub open spec fn digit_value(c: char) -> int {
    c as int - '0' as int
}

pub open spec fn is_digit(c: char) -> bool {
    '0' <= c && c <= '9'
}

/// The value of a string of ASCII digits.
pub open spec fn digits_value(s: Seq<char>) -> nat
    decreases s.len(),
{
    if s.len() == 0 {
        0
    } else {
        (digits_value(s.drop_last()) * 10 + digit_value(s.last())) as nat
    }
}

/// What `s.parse::<u64>()` accepts: an optional `+`, then one or more
/// ASCII digits, with a value that fits in `u64`.
pub open spec fn unsigned_part(s: Seq<char>) -> Seq<char> {
    if s.len() > 0 && s[0] == '+' {
        s.drop_first()
    } else {
        s
    }
}

pub open spec fn all_digits(d: Seq<char>) -> bool {
    forall|i: int| 0 <= i < d.len() ==> is_digit(#[trigger] d[i])
}

pub open spec fn parse_u64_spec(s: Seq<char>) -> Option<nat> {
    let d = unsigned_part(s);
    if d.len() > 0 && all_digits(d) && digits_value(d) <= u64::MAX {
        Some(digits_value(d))
    } else {
        None
    }
}

proof fn lemma_digits_value_mono(s: Seq<char>, i: int)
    requires
        0 <= i <= s.len(),
        forall|k: int| 0 <= k < s.len() ==> is_digit(s[k]),
    ensures
        digits_value(s.subrange(0, i)) <= digits_value(s),
    decreases s.len() - i,
{
    if i < s.len() {
        lemma_digits_value_mono(s, i + 1);
        let t = s.subrange(0, i + 1);
        assert(t.drop_last() =~= s.subrange(0, i));
    } else {
        assert(s.subrange(0, i) =~= s);
    }
}

/// `s.parse::<u64>().ok()`.
pub fn parse_u64(s: &Vec<char>) -> (r: Option<u64>)
    ensures
        match parse_u64_spec(s@) {
            Some(n) => r == Some(n as u64),
            None => r is None,
        },
{
    let start: usize = if s.len() > 0 && s[0] == '+' {
        1
    } else {
        0
    };
    let ghost d = s@.subrange(start as int, s.len() as int);
    assert(d =~= unsigned_part(s@));
    if start >= s.len() {
        assert(d.len() == 0);
        return None;
    }
    let mut acc: u64 = 0;
    let mut i = start;
    let mut overflow = false;
    while i < s.len()
        invariant
            start <= i <= s.len(),
            d == s@.subrange(start as int, s.len() as int),
            d == unsigned_part(s@),
            forall|k: int| start <= k < i ==> is_digit(s@[k]),
            !overflow ==> acc as nat == digits_value(s@.subrange(start as int, i as int)),
            overflow ==> digits_value(s@.subrange(start as int, i as int)) > u64::MAX,
        decreases s.len() - i,
    {
        let c = s[i];
        if !('0' <= c && c <= '9') {
            assert(d[(i - start) as int] == s@[i as int]);
            assert(!is_digit(d[(i - start) as int]));
            assert(!all_digits(d));
            return None;
        }
        let dv = (c as u32 - '0' as u32) as u64;
        let ghost prev = s@.subrange(start as int, i as int);
        assert(s@.subrange(start as int, i + 1).drop_last() =~= prev);
        if !overflow {
            if acc > (u64::MAX - dv) / 10 {
                overflow = true;
                assert(acc * 10 + dv > u64::MAX) by (nonlinear_arith)
                    requires
                        acc > (u64::MAX - dv) / 10,
                        dv < 10,
                ;
            } else {
                assert(acc * 10 + dv <= u64::MAX) by (nonlinear_arith)
                    requires
                        acc <= (u64::MAX - dv) / 10,
                        dv < 10,
                ;
                acc = acc * 10 + dv;
            }
        } else {
            assert(digits_value(s@.subrange(start as int, i + 1)) >= digits_value(prev) * 10)
                by (nonlinear_arith)
                requires
                    digits_value(s@.subrange(start as int, i + 1)) == digits_value(prev) * 10
                        + digit_value(c),
                    digit_value(c) >= 0,
            ;
        }
        i += 1;
    }
    assert(s@.subrange(start as int, s.len() as int) == d);
    if overflow {
        None
    } else {
        Some(acc)
    }
}


/// `items` joined by `sep`.
pub open spec fn join(items: Seq<Seq<char>>, sep: Seq<char>) -> Seq<char>
    decreases items.len(),
{
    if items.len() == 0 {
        Seq::empty()
    } else if items.len() == 1 {
        items[0]
    } else {
        join(items.drop_last(), sep) + sep + items.last()
    }
}

/// The strings of `items` joined by `sep`.
pub fn join_strings(items: &Vec<String>, sep: &str) -> (r: String)
    ensures
        r@ == join(strs(items@), sep@),
{
    let mut r = String::new();
    let mut i: usize = 0;
    while i < items.len()
        invariant
            i <= items.len(),
            r@ == join(strs(items@).subrange(0, i as int), sep@),
        decreases items.len() - i,
    {
        let ghost before = strs(items@).subrange(0, i as int);
        if i > 0 {
            r.append(sep);
        }
        r.append(items[i].as_str());
        proof {
            let after = strs(items@).subrange(0, i + 1);
            assert(after.drop_last() =~= before);
            if i == 0 {
                assert(before.len() == 0);
                assert(r@ =~= after[0]);
            }
        }
        i += 1;
    }
    assert(strs(items@).subrange(0, items.len() as int) =~= strs(items@));
    r
}

/// Whether `v` holds the string `s`.
pub fn contains_str(v: &Vec<String>, s: &str) -> (b: bool)
    ensures
        b == strs(v@).contains(s@),
{
    let mut i: usize = 0;
    while i < v.len()
        invariant
            i <= v.len(),
            forall|j: int| 0 <= j < i ==> strs(v@)[j] != s@,
        decreases v.len() - i,
    {
        if str_eq(v[i].as_str(), s) {
            assert(strs(v@)[i as int] == s@);
            return true;
        }
        i += 1;
    }
    false
}

/// A string of ASCII characters only.
pub open spec fn is_ascii(s: Seq<char>) -> bool {
    forall|i: int| 0 <= i < s.len() ==> (s[i] as u32) < 128
}

/// ASCII lower-casing: `A`..`Z` become `a`..`z`, the rest stays.
pub open spec fn ascii_lower(s: Seq<char>) -> Seq<char> {
    s.map_values(|c: char| if 'A' <= c && c <= 'Z' { ((c as u32) + 32) as char } else { c })
}

/// ASCII upper-casing: `a`..`z` become `A`..`Z`, the rest stays.
pub open spec fn ascii_upper(s: Seq<char>) -> Seq<char> {
    s.map_values(|c: char| if 'a' <= c && c <= 'z' { ((c as u32) - 32) as char } else { c })
}

} // verus!
