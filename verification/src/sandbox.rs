//! The directories a build script may touch: a path is allowed when, once
//! `.` and `..` are resolved, it lies under the source or the output
//! directory. Paths are POSIX paths: components separated by `/`.
use vstd::prelude::*;
use crate::build_graph::{joined_path, path_join};
use crate::text::{concat, split_char, split_on, str_eq, strs};

verus! {

/// A path with a leading `/`.
pub open spec fn is_abs(s: Seq<char>) -> bool {
    s.len() > 0 && s[0] == '/'
}

/// The components that matter: empty ones (from repeated `/`) and `.`
/// are dropped.
pub open spec fn keep_parts(ps: Seq<Seq<char>>) -> Seq<Seq<char>>
    decreases ps.len(),
{
    if ps.len() == 0 {
        Seq::empty()
    } else {
        let r = keep_parts(ps.drop_last());
        if ps.last().len() == 0 || ps.last() == "."@ {
            r
        } else {
            r.push(ps.last())
        }
    }
}

/// The components of a path.
pub open spec fn parts_of(s: Seq<char>) -> Seq<Seq<char>> {
    keep_parts(split_on(s, '/'))
}

/// Resolves `..` against the components gathered so far (`acc`): each
/// `..` drops the last one, if any.
pub open spec fn resolve_parts(acc: Seq<Seq<char>>, ps: Seq<Seq<char>>) -> Seq<Seq<char>>
    decreases ps.len(),
{
    if ps.len() == 0 {
        acc
    } else {
        let next = if ps[0] == ".."@ {
            if acc.len() > 0 {
                acc.drop_last()
            } else {
                acc
            }
        } else {
            acc.push(ps[0])
        };
        resolve_parts(next, ps.drop_first())
    }
}

/// A path once normalized: whether it is absolute, and its components.
pub struct NormPath {
    pub absolute: bool,
    pub parts: Seq<Seq<char>>,
}

pub open spec fn normalized(s: Seq<char>) -> NormPath {
    NormPath { absolute: is_abs(s), parts: resolve_parts(Seq::empty(), parts_of(s)) }
}

/// The path a script names, normalized: a relative path is taken under
/// the source directory.
pub open spec fn target_of(src: Seq<char>, p: Seq<char>) -> NormPath {
    if is_abs(p) {
        normalized(p)
    } else {
        NormPath { absolute: is_abs(src), parts: resolve_parts(Seq::empty(), parts_of(src) + parts_of(p)) }
    }
}

/// `a` lies under `b` (or is `b`): component-wise, as `Path::starts_with`.
pub open spec fn lies_under(a: NormPath, b: NormPath) -> bool {
    &&& a.absolute == b.absolute
    &&& b.parts.len() <= a.parts.len()
    &&& a.parts.subrange(0, b.parts.len() as int) == b.parts
}

/// The directories a build script may use.
#[derive(Debug, Clone)]
pub struct SandboxScope {
    pub src_dir: String,
    pub out_dir: String,
}

fn kept_parts(s: &str) -> (r: Vec<String>)
    ensures
        strs(r@) == parts_of(s@),
{
    let pieces = split_char(s, '/');
    let mut r: Vec<String> = Vec::new();
    let mut i: usize = 0;
    while i < pieces.len()
        invariant
            i <= pieces.len(),
            strs(r@) == keep_parts(strs(pieces@).take(i as int)),
        decreases pieces.len() - i,
    {
        let p = pieces[i].as_str();
        assert(strs(pieces@).take(i + 1).drop_last() =~= strs(pieces@).take(i as int));
        assert(strs(pieces@)[i as int] == p@);
        if !(p.is_empty() || str_eq(p, ".")) {
            let ghost before = strs(r@);
            r.push(pieces[i].clone());
            assert(strs(r@) =~= before.push(p@));
        }
        i += 1;
    }
    assert(strs(pieces@).take(pieces.len() as int) =~= strs(pieces@));
    r
}

/// Resolves `..` in `ps`, on top of `acc`.
fn resolve(acc: Vec<String>, ps: &Vec<String>) -> (r: Vec<String>)
    ensures
        strs(r@) == resolve_parts(strs(acc@), strs(ps@)),
{
    let mut acc = acc;
    let ghost a0 = strs(acc@);
    let mut i: usize = 0;
    assert(strs(ps@).skip(0) =~= strs(ps@));
    while i < ps.len()
        invariant
            i <= ps.len(),
            resolve_parts(a0, strs(ps@)) == resolve_parts(strs(acc@), strs(ps@).skip(i as int)),
        decreases ps.len() - i,
    {
        let ghost before = strs(acc@);
        let ghost rest = strs(ps@).skip(i as int);
        assert(rest[0] == ps@[i as int]@);
        assert(rest.drop_first() =~= strs(ps@).skip(i + 1));
        if str_eq(ps[i].as_str(), "..") {
            if acc.len() > 0 {
                acc.pop();
                assert(strs(acc@) =~= before.drop_last());
            }
        } else {
            acc.push(ps[i].clone());
            assert(strs(acc@) =~= before.push(ps@[i as int]@));
        }
        i += 1;
    }
    acc
}

/// Resolves `..` in `ps`.
fn resolve_all(ps: &Vec<String>) -> (r: Vec<String>)
    ensures
        strs(r@) == resolve_parts(Seq::empty(), strs(ps@)),
{
    let e: Vec<String> = Vec::new();
    assert(strs(e@) =~= Seq::<Seq<char>>::empty());
    resolve(e, ps)
}

/// Whether `s` starts with `/`.
fn starts_with_slash(s: &str) -> (b: bool)
    ensures
        b == is_abs(s@),
{
    let v = crate::text::chars_of(s);
    v.len() > 0 && v[0] == '/'
}

/// Whether `a` (normalized) lies under `b` (normalized).
fn parts_under(a_abs: bool, a: &Vec<String>, b_abs: bool, b: &Vec<String>) -> (r: bool)
    ensures
        r == lies_under(
            NormPath { absolute: a_abs, parts: strs(a@) },
            NormPath { absolute: b_abs, parts: strs(b@) },
        ),
{
    if a_abs != b_abs || b.len() > a.len() {
        return false;
    }
    let mut i: usize = 0;
    while i < b.len()
        invariant
            i <= b.len() <= a.len(),
            forall|j: int| 0 <= j < i ==> strs(a@)[j] == strs(b@)[j],
        decreases b.len() - i,
    {
        if !str_eq(a[i].as_str(), b[i].as_str()) {
            assert(strs(a@).subrange(0, b@.len() as int)[i as int] != strs(b@)[i as int]);
            return false;
        }
        i += 1;
    }
    assert(strs(a@).subrange(0, b@.len() as int) =~= strs(b@));
    true
}

impl SandboxScope {
    pub fn new(src_dir: String, out_dir: String) -> (r: Self)
        ensures
            r.src_dir == src_dir,
            r.out_dir == out_dir,
    {
        SandboxScope { src_dir, out_dir }
    }

    /// Allows `path` (a relative one is taken under the source directory)
    /// when, normalized, it lies under the normalized source or output
    /// directory.
    pub fn validate_path(&self, path: &str) -> (r: Result<(), String>)
        ensures
            r is Ok <==> (lies_under(target_of(self.src_dir@, path@), normalized(self.src_dir@))
                || lies_under(target_of(self.src_dir@, path@), normalized(self.out_dir@))),
            r matches Err(msg) ==> msg@ == "path '"@ + path@ + "' is outside allowed directories (src: "@
                + self.src_dir@ + ", out: "@ + self.out_dir@ + ")"@,
    {
        let abs = starts_with_slash(path);
        let (t_abs, t_parts) = if abs {
            (true, resolve_all(&kept_parts(path)))
        } else {
            let mut all = kept_parts(self.src_dir.as_str());
            let more = kept_parts(path);
            let ghost a = strs(all@);
            let ghost m = strs(more@);
            let ghost av = all@;
            let ghost mv = more@;
            let mut more = more;
            all.append(&mut more);
            assert(all@ == av + mv);
            assert(strs(all@) =~= a + m);
            (starts_with_slash(self.src_dir.as_str()), resolve_all(&all))
        };
        let src_norm = resolve_all(&kept_parts(self.src_dir.as_str()));
        let out_norm = resolve_all(&kept_parts(self.out_dir.as_str()));
        let src_abs = starts_with_slash(self.src_dir.as_str());
        let out_abs = starts_with_slash(self.out_dir.as_str());
        if parts_under(t_abs, &t_parts, src_abs, &src_norm) || parts_under(t_abs, &t_parts, out_abs, &out_norm) {
            Ok(())
        } else {
            let mut msg = "path '".to_string();
            msg.append(path);
            msg.append("' is outside allowed directories (src: ");
            msg.append(self.src_dir.as_str());
            msg.append(", out: ");
            msg.append(self.out_dir.as_str());
            msg.append(")");
            Err(msg)
        }
    }

    /// A script's path: itself when absolute, else under the source directory.
    pub fn resolve_path(&self, path: &str) -> (r: String)
        ensures
            r@ == (if is_abs(path@) {
                path@
            } else {
                joined_path(self.src_dir@, path@)
            }),
    {
        if starts_with_slash(path) {
            path.to_string()
        } else {
            path_join(self.src_dir.as_str(), path)
        }
    }
}

/// A normalized path has no `.`, `..` or empty component left.
pub proof fn lemma_resolved_is_plain(acc: Seq<Seq<char>>, ps: Seq<Seq<char>>)
    requires
        forall|i: int| 0 <= i < acc.len() ==> acc[i] != ".."@ && acc[i] != "."@ && acc[i].len() > 0,
        forall|i: int| 0 <= i < ps.len() ==> ps[i] != "."@ && ps[i].len() > 0,
    ensures
        forall|i: int| 0 <= i < resolve_parts(acc, ps).len() ==> #[trigger] resolve_parts(acc, ps)[i] != ".."@
            && resolve_parts(acc, ps)[i] != "."@ && resolve_parts(acc, ps)[i].len() > 0,
    decreases ps.len(),
{
    if ps.len() > 0 {
        let next = if ps[0] == ".."@ {
            if acc.len() > 0 {
                acc.drop_last()
            } else {
                acc
            }
        } else {
            acc.push(ps[0])
        };
        assert forall|i: int| 0 <= i < next.len() implies next[i] != ".."@ && next[i] != "."@ && next[i].len() > 0 by {
            if ps[0] != ".."@ && i == acc.len() {
                assert(next[i] == ps[0]);
            } else {
                assert(next[i] == acc[i]);
            }
        }
        lemma_resolved_is_plain(next, ps.drop_first());
        assert(resolve_parts(acc, ps) == resolve_parts(next, ps.drop_first()));
    }
}

/// Normalizing a normalized path changes nothing.
pub proof fn lemma_resolve_plain_identity(acc: Seq<Seq<char>>, ps: Seq<Seq<char>>)
    requires
        forall|i: int| 0 <= i < ps.len() ==> ps[i] != ".."@,
    ensures
        resolve_parts(acc, ps) == acc + ps,
    decreases ps.len(),
{
    if ps.len() > 0 {
        lemma_resolve_plain_identity(acc.push(ps[0]), ps.drop_first());
        assert(acc.push(ps[0]) + ps.drop_first() =~= acc + ps);
    } else {
        assert(acc + ps =~= acc);
    }
}


/// What `sha2::Sha256::digest` gives for some bytes.
pub uninterp spec fn sha256_of(bytes: Seq<u8>) -> Seq<u8>;

/// `Sha256::digest`: the SHA-256 digest of `bytes`, 32 bytes long.
#[verifier::external_body]
fn sha256(bytes: &[u8]) -> (r: Vec<u8>)
    ensures
        r@ == sha256_of(bytes@),
        r@.len() == 32,
{
    <sha2::Sha256 as sha2::Digest>::digest(bytes).to_vec()
}

/// The lowercase hexadecimal digit of `d` (below 16).
pub open spec fn hex_digit(d: u8) -> char {
    if d < 10 {
        (48 + d) as char
    } else {
        (87 + d) as char
    }
}

/// Two lowercase hexadecimal digits for each byte (`{:02x}`).
pub open spec fn hex_of(bytes: Seq<u8>) -> Seq<char>
    decreases bytes.len(),
{
    if bytes.len() == 0 {
        Seq::empty()
    } else {
        hex_of(bytes.drop_last()) + seq![hex_digit(bytes.last() / 16), hex_digit(bytes.last() % 16)]
    }
}

fn hex_char(d: u8) -> (c: char)
    requires
        d < 16,
    ensures
        c == hex_digit(d),
{
    if d < 10 {
        (48u8 + d) as char
    } else {
        (87u8 + d) as char
    }
}

/// The hash recorded for a build script: `sha256:` and the hex digest of
/// its content.
pub fn compute_script_hash(content: &[u8]) -> (r: String)
    ensures
        r@ == "sha256:"@ + hex_of(sha256_of(content@)),
{
    let digest = sha256(content);
    let mut r = "sha256:".to_string();
    let ghost start = r@;
    let mut i: usize = 0;
    while i < digest.len()
        invariant
            i <= digest.len(),
            start == "sha256:"@,
            r@ == start + hex_of(digest@.take(i as int)),
        decreases digest.len() - i,
    {
        let b = digest[i];
        crate::text::push_char(&mut r, hex_char(b / 16));
        crate::text::push_char(&mut r, hex_char(b % 16));
        assert(digest@.take(i + 1).drop_last() =~= digest@.take(i as int));
        assert(r@ =~= start + hex_of(digest@.take(i + 1)));
        i += 1;
    }
    assert(digest@.take(digest.len() as int) =~= digest@);
    r
}
} // verus!
