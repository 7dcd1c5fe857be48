//! Dependency versions and version requirements as the manifest writes
//! them, and the resolution of a manifest's dependencies.
use vstd::prelude::*;
use crate::manifest::{source_of, DependencySource, DependencySpec, Manifest};
use crate::strmap::{sorted, StrMap};
use crate::text::{chars_of, concat, split_char, split_on, starts_with, str_eq, str_trim, string_of, strip_prefix, trim};

verus! {

/// A version as `semver` reads it: the three numbers, then the pre-release
/// and build-metadata texts (empty when absent).
#[derive(Debug, Clone)]
pub struct SemVer {
    pub major: u64,
    pub minor: u64,
    pub patch: u64,
    pub pre: String,
    pub build: String,
}

/// A version by the contents of its texts.
pub struct SemVerView {
    pub major: u64,
    pub minor: u64,
    pub patch: u64,
    pub pre: Seq<char>,
    pub build: Seq<char>,
}

/// `semver::Version`, carried through to `pubgrub`.
#[verifier::external_type_specification]
#[verifier::external_body]
pub struct ExVersion(semver::Version);

/// `pubgrub::Ranges`, carried through to `pubgrub`.
#[verifier::external_type_specification]
#[verifier::external_body]
#[verifier::reject_recursive_types(V)]
pub struct ExRanges<V>(pubgrub::Ranges<V>);

impl View for SemVer {
    type V = SemVerView;

    open spec fn view(&self) -> SemVerView {
        SemVerView { major: self.major, minor: self.minor, patch: self.patch, pre: self.pre@, build: self.build@ }
    }
}

/// What `semver::Version::parse` gives for a text: the parts of the
/// version, or the text of its error.
pub uninterp spec fn semver_parse_outcome(text: Seq<char>) -> Result<SemVerView, Seq<char>>;

/// The order `semver` gives two versions (`Ord for semver::Version`), as
/// -1, 0 or 1.
pub uninterp spec fn semver_order(a: SemVerView, b: SemVerView) -> i8;

/// A pre-release or build text that `semver` produced when it parsed
/// some version (or no text at all).
pub open spec fn parsed_pre(s: Seq<char>) -> bool {
    s.len() == 0 || exists|t: Seq<char>| #[trigger] semver_parse_outcome(t) matches Ok(w) && w.pre == s
}

pub open spec fn parsed_build(s: Seq<char>) -> bool {
    s.len() == 0 || exists|t: Seq<char>| #[trigger] semver_parse_outcome(t) matches Ok(w) && w.build == s
}

impl SemVer {
    /// The texts are ones `semver` accepts.
    pub open spec fn wf(&self) -> bool {
        parsed_pre(self.pre@) && parsed_build(self.build@)
    }

    /// A copy of the version.
    pub fn copy(&self) -> (r: Self)
        ensures
            r@ == self@,
    {
        SemVer {
            major: self.major,
            minor: self.minor,
            patch: self.patch,
            pre: self.pre.clone(),
            build: self.build.clone(),
        }
    }

    /// `major.minor.patch`, without pre-release or build metadata
    /// (`semver::Version::new`).
    pub fn new(major: u64, minor: u64, patch: u64) -> (r: Self)
        ensures
            r.wf(),
            r@ == plain_version(major, minor, patch),
    {
        SemVer { major, minor, patch, pre: String::new(), build: String::new() }
    }
}

pub open spec fn plain_version(major: u64, minor: u64, patch: u64) -> SemVerView {
    SemVerView { major, minor, patch, pre: Seq::empty(), build: Seq::empty() }
}

/// `a`'s numbers come before `b`'s.
pub open spec fn numbers_lt(a: SemVerView, b: SemVerView) -> bool {
    ||| a.major < b.major
    ||| a.major == b.major && a.minor < b.minor
    ||| a.major == b.major && a.minor == b.minor && a.patch < b.patch
}

/// `semver::Version::parse`: the parts of the version, or the parser's
/// error message. Claimed beyond the name: the texts of a parsed version
/// are its pre-release and build texts.
#[verifier::external_body]
fn semver_parse(text: &str) -> (r: Result<SemVer, String>)
    ensures
        match r {
            Ok(v) => semver_parse_outcome(text@) == Ok::<SemVerView, Seq<char>>(v@),
            Err(e) => semver_parse_outcome(text@) == Err::<SemVerView, Seq<char>>(e@),
        },
{
    match semver::Version::parse(text) {
        Ok(v) => Ok(
            SemVer {
                major: v.major,
                minor: v.minor,
                patch: v.patch,
                pre: v.pre.as_str().to_string(),
                build: v.build.as_str().to_string(),
            },
        ),
        Err(e) => Err(e.to_string()),
    }
}

/// `Ord::cmp` of two `semver::Version`s built from the parts, as -1, 0 or
/// 1. The texts it is given are ones the parser produced (or empty), which
/// `Prerelease::new` and `BuildMetadata::new` accept. Claimed beyond the
/// name, as the SemVer precedence rules that `semver` follows say: the
/// numbers decide when they differ, equal versions compare equal, and the
/// order is antisymmetric.
#[verifier::external_body]
fn semver_compare(a: &SemVer, b: &SemVer) -> (r: i8)
    requires
        a.wf(),
        b.wf(),
    ensures
        r == semver_order(a@, b@),
        -1 <= r <= 1,
        a@ == b@ ==> r == 0,
        numbers_lt(a@, b@) ==> r == -1,
        numbers_lt(b@, a@) ==> r == 1,
        r == -semver_order(b@, a@),
{
    let x = semver::Version { major: a.major, minor: a.minor, patch: a.patch, pre: semver::Prerelease::new(a.pre.as_str()).unwrap(), build: semver::BuildMetadata::new(a.build.as_str()).unwrap() };
    let y = semver::Version { major: b.major, minor: b.minor, patch: b.patch, pre: semver::Prerelease::new(b.pre.as_str()).unwrap(), build: semver::BuildMetadata::new(b.build.as_str()).unwrap() };
    match x.cmp(&y) {
        std::cmp::Ordering::Less => -1,
        std::cmp::Ordering::Equal => 0,
        std::cmp::Ordering::Greater => 1,
    }
}

/// A version with missing parts filled in with zeros: `11` is `11.0.0`,
/// `1.2` is `1.2.0`; a version with three or more parts stays.
pub open spec fn normalized_version(s: Seq<char>) -> Seq<char> {
    let parts = split_on(s, '.');
    if parts.len() == 1 {
        parts[0] + ".0.0"@
    } else if parts.len() == 2 {
        parts[0] + "."@ + parts[1] + ".0"@
    } else {
        s
    }
}

pub fn normalize_version(s: &str) -> (r: String)
    ensures
        r@ == normalized_version(s@),
{
    let parts = split_char(s, '.');
    if parts.len() == 1 {
        concat(parts[0].as_str(), ".0.0")
    } else if parts.len() == 2 {
        let a = concat(parts[0].as_str(), ".");
        let b = concat(a.as_str(), parts[1].as_str());
        concat(b.as_str(), ".0")
    } else {
        s.to_string()
    }
}

/// A manifest's version text read as a version: normalized, then parsed;
/// the error names the text.
pub open spec fn version_outcome(s: Seq<char>) -> Result<SemVerView, Seq<char>> {
    match semver_parse_outcome(normalized_version(s)) {
        Ok(v) => Ok(v),
        Err(e) => Err("invalid version '"@ + s + "': "@ + e),
    }
}

pub fn parse_version(s: &str) -> (r: Result<SemVer, String>)
    ensures
        match r {
            Ok(v) => version_outcome(s@) == Ok::<SemVerView, Seq<char>>(v@) && v.wf(),
            Err(e) => version_outcome(s@) == Err::<SemVerView, Seq<char>>(e@),
        },
{
    let normalized = normalize_version(s);
    match semver_parse(normalized.as_str()) {
        Ok(v) => {
            proof {
                let t = normalized@;
                assert(semver_parse_outcome(t) matches Ok(w) && w.pre == v.pre@);
                assert(semver_parse_outcome(t) matches Ok(w) && w.build == v.build@);
            }
            Ok(v)
        },
        Err(e) => {
            let a = concat("invalid version '", s);
            let b = concat(a.as_str(), "': ");
            Err(concat(b.as_str(), e.as_str()))
        },
    }
}

/// One end of a range of versions.
#[derive(Debug, Clone)]
pub enum Bound {
    Unbounded,
    Included(SemVer),
    Excluded(SemVer),
}

pub enum BoundView {
    Unbounded,
    Included(SemVerView),
    Excluded(SemVerView),
}

impl View for Bound {
    type V = BoundView;

    open spec fn view(&self) -> BoundView {
        match self {
            Bound::Unbounded => BoundView::Unbounded,
            Bound::Included(v) => BoundView::Included(v@),
            Bound::Excluded(v) => BoundView::Excluded(v@),
        }
    }
}

impl Bound {
    pub open spec fn wf(&self) -> bool {
        match self {
            Bound::Unbounded => true,
            Bound::Included(v) => v.wf(),
            Bound::Excluded(v) => v.wf(),
        }
    }
}

/// The versions between two bounds: what `pubgrub::Ranges` builds for a
/// requirement.
#[derive(Debug)]
pub struct VersionRange {
    lower: Bound,
    upper: Bound,
    raw: pubgrub::Ranges<semver::Version>,
}

pub struct RangeView {
    pub lower: BoundView,
    pub upper: BoundView,
}

impl View for VersionRange {
    type V = RangeView;

    closed spec fn view(&self) -> RangeView {
        RangeView { lower: self.lower@, upper: self.upper@ }
    }
}

/// `v` is at or above (above, when excluded) a lower bound.
pub open spec fn above(b: BoundView, v: SemVerView) -> bool {
    match b {
        BoundView::Unbounded => true,
        BoundView::Included(l) => semver_order(l, v) <= 0,
        BoundView::Excluded(l) => semver_order(l, v) < 0,
    }
}

/// `v` is at or below (below, when excluded) an upper bound.
pub open spec fn below(b: BoundView, v: SemVerView) -> bool {
    match b {
        BoundView::Unbounded => true,
        BoundView::Included(u) => semver_order(v, u) <= 0,
        BoundView::Excluded(u) => semver_order(v, u) < 0,
    }
}

/// A version without pre-release or build text.
pub open spec fn is_plain(v: SemVerView) -> bool {
    v.pre.len() == 0 && v.build.len() == 0
}

/// A bound at a version without pre-release or build text, or none.
pub open spec fn bound_plain(b: BoundView) -> bool {
    match b {
        BoundView::Unbounded => true,
        BoundView::Included(v) => is_plain(v),
        BoundView::Excluded(v) => is_plain(v),
    }
}

/// `v` lies between the bounds, comparing numbers only.
pub open spec fn in_numeric_range(r: RangeView, v: SemVerView) -> bool {
    &&& match r.lower {
        BoundView::Unbounded => true,
        BoundView::Included(l) => !numbers_lt(v, l),
        BoundView::Excluded(l) => numbers_lt(l, v),
    }
    &&& match r.upper {
        BoundView::Unbounded => true,
        BoundView::Included(u) => !numbers_lt(u, v),
        BoundView::Excluded(u) => numbers_lt(v, u),
    }
}

pub open spec fn in_range(r: RangeView, v: SemVerView) -> bool {
    above(r.lower, v) && below(r.upper, v)
}

/// The versions at the ends of a bound have texts `semver` accepts.
pub open spec fn bound_ok(b: BoundView) -> bool {
    match b {
        BoundView::Unbounded => true,
        BoundView::Included(v) => parsed_pre(v.pre) && parsed_build(v.build),
        BoundView::Excluded(v) => parsed_pre(v.pre) && parsed_build(v.build),
    }
}

impl VersionRange {
    pub open spec fn wf(&self) -> bool {
        bound_ok(self@.lower) && bound_ok(self@.upper)
    }

    /// `Ranges::full`: every version.
    #[verifier::external_body]
    pub(crate) fn full() -> (r: Self)
        ensures
            r.wf(),
            r@ == range_of(BoundView::Unbounded, BoundView::Unbounded),
    {
        VersionRange { lower: Bound::Unbounded, upper: Bound::Unbounded, raw: pubgrub::Ranges::full() }
    }

    /// `Ranges::higher_than`: the versions at or above `v`.
    #[verifier::external_body]
    fn higher_than(v: SemVer) -> (r: Self)
        requires
            v.wf(),
        ensures
            r.wf(),
            r@ == range_of(BoundView::Included(v@), BoundView::Unbounded),
    {
        let raw = pubgrub::Ranges::higher_than(semver::Version { major: v.major, minor: v.minor, patch: v.patch, pre: semver::Prerelease::new(v.pre.as_str()).unwrap(), build: semver::BuildMetadata::new(v.build.as_str()).unwrap() });
        VersionRange { lower: Bound::Included(v), upper: Bound::Unbounded, raw }
    }

    /// `Ranges::strictly_higher_than`: the versions above `v`.
    #[verifier::external_body]
    fn strictly_higher_than(v: SemVer) -> (r: Self)
        requires
            v.wf(),
        ensures
            r.wf(),
            r@ == range_of(BoundView::Excluded(v@), BoundView::Unbounded),
    {
        let raw = pubgrub::Ranges::strictly_higher_than(semver::Version { major: v.major, minor: v.minor, patch: v.patch, pre: semver::Prerelease::new(v.pre.as_str()).unwrap(), build: semver::BuildMetadata::new(v.build.as_str()).unwrap() });
        VersionRange { lower: Bound::Excluded(v), upper: Bound::Unbounded, raw }
    }

    /// `Ranges::lower_than`: the versions at or below `v` (what the union
    /// of `strictly_lower_than(v)` and `singleton(v)` holds).
    #[verifier::external_body]
    fn lower_than(v: SemVer) -> (r: Self)
        requires
            v.wf(),
        ensures
            r.wf(),
            r@ == range_of(BoundView::Unbounded, BoundView::Included(v@)),
    {
        let raw = pubgrub::Ranges::lower_than(semver::Version { major: v.major, minor: v.minor, patch: v.patch, pre: semver::Prerelease::new(v.pre.as_str()).unwrap(), build: semver::BuildMetadata::new(v.build.as_str()).unwrap() });
        VersionRange { lower: Bound::Unbounded, upper: Bound::Included(v), raw }
    }

    /// `Ranges::strictly_lower_than`: the versions below `v`.
    #[verifier::external_body]
    fn strictly_lower_than(v: SemVer) -> (r: Self)
        requires
            v.wf(),
        ensures
            r.wf(),
            r@ == range_of(BoundView::Unbounded, BoundView::Excluded(v@)),
    {
        let raw = pubgrub::Ranges::strictly_lower_than(semver::Version { major: v.major, minor: v.minor, patch: v.patch, pre: semver::Prerelease::new(v.pre.as_str()).unwrap(), build: semver::BuildMetadata::new(v.build.as_str()).unwrap() });
        VersionRange { lower: Bound::Unbounded, upper: Bound::Excluded(v), raw }
    }

    /// `Ranges::singleton`: `v` alone.
    #[verifier::external_body]
    fn singleton(v: SemVer) -> (r: Self)
        requires
            v.wf(),
        ensures
            r.wf(),
            r@ == range_of(BoundView::Included(v@), BoundView::Included(v@)),
    {
        let raw = pubgrub::Ranges::singleton(semver::Version { major: v.major, minor: v.minor, patch: v.patch, pre: semver::Prerelease::new(v.pre.as_str()).unwrap(), build: semver::BuildMetadata::new(v.build.as_str()).unwrap() });
        VersionRange { lower: Bound::Included(v.clone()), upper: Bound::Included(v), raw }
    }

    /// `Ranges::between`: the versions at or above `lo` and below `hi`.
    #[verifier::external_body]
    fn between(lo: SemVer, hi: SemVer) -> (r: Self)
        requires
            lo.wf(),
            hi.wf(),
        ensures
            r.wf(),
            r@ == range_of(BoundView::Included(lo@), BoundView::Excluded(hi@)),
    {
        let raw = pubgrub::Ranges::between(semver::Version { major: lo.major, minor: lo.minor, patch: lo.patch, pre: semver::Prerelease::new(lo.pre.as_str()).unwrap(), build: semver::BuildMetadata::new(lo.build.as_str()).unwrap() }, semver::Version { major: hi.major, minor: hi.minor, patch: hi.patch, pre: semver::Prerelease::new(hi.pre.as_str()).unwrap(), build: semver::BuildMetadata::new(hi.build.as_str()).unwrap() });
        VersionRange { lower: Bound::Included(lo), upper: Bound::Excluded(hi), raw }
    }

    /// Whether `v` lies in the range (`Ranges::contains`). For versions
    /// without pre-release or build text, this is the comparison of their
    /// numbers.
    pub fn contains(&self, v: &SemVer) -> (b: bool)
        requires
            self.wf(),
            v.wf(),
        ensures
            b == in_range(self@, v@),
            is_plain(v@) && bound_plain(self@.lower) && bound_plain(self@.upper) ==> b == in_numeric_range(
                self@,
                v@,
            ),
    {
        proof {
            if is_plain(v@) {
                match &self.lower {
                    Bound::Included(l) | Bound::Excluded(l) => {
                        if is_plain(l@) && !numbers_lt(l@, v@) && !numbers_lt(v@, l@) {
                            assert(l@.pre =~= v@.pre);
                            assert(l@.build =~= v@.build);
                            assert(l@ == v@);
                        }
                    },
                    _ => {},
                }
                match &self.upper {
                    Bound::Included(u) | Bound::Excluded(u) => {
                        if is_plain(u@) && !numbers_lt(u@, v@) && !numbers_lt(v@, u@) {
                            assert(u@.pre =~= v@.pre);
                            assert(u@.build =~= v@.build);
                            assert(u@ == v@);
                        }
                    },
                    _ => {},
                }
            }
        }
        let lo = match &self.lower {
            Bound::Unbounded => true,
            Bound::Included(l) => semver_compare(l, v) <= 0,
            Bound::Excluded(l) => semver_compare(l, v) < 0,
        };
        let hi = match &self.upper {
            Bound::Unbounded => true,
            Bound::Included(u) => semver_compare(v, u) <= 0,
            Bound::Excluded(u) => semver_compare(v, u) < 0,
        };
        lo && hi
    }
}

/// `x + 1`, wrapping to 0 past the largest `u64` (what the unchecked `+`
/// of a release build gives).
pub open spec fn next(x: u64) -> u64 {
    if x == u64::MAX {
        0
    } else {
        (x + 1) as u64
    }
}

fn next_of(x: u64) -> (r: u64)
    ensures
        r == next(x),
{
    if x == u64::MAX {
        0
    } else {
        x + 1
    }
}

/// The first version a tilde requirement leaves out: the next minor.
pub open spec fn tilde_upper(v: SemVerView) -> SemVerView {
    plain_version(v.major, next(v.minor), 0)
}

/// The first version a caret requirement leaves out: the next major, or
/// for `0.y` the next minor, or for `0.0.z` the next patch.
pub open spec fn caret_upper(v: SemVerView) -> SemVerView {
    if v.major > 0 {
        plain_version(next(v.major), 0, 0)
    } else if v.minor > 0 {
        plain_version(0, next(v.minor), 0)
    } else {
        plain_version(0, 0, next(v.patch))
    }
}

pub open spec fn range_of(lower: BoundView, upper: BoundView) -> RangeView {
    RangeView { lower, upper }
}

/// The range a version requirement stands for, read from a version with
/// `f`: `>=`, `<=`, `>`, `<`, `~`, `=`, `*`, or caret (`^` or nothing).
pub open spec fn req_outcome(req: Seq<char>) -> Result<RangeView, Seq<char>> {
    let r = trim(req);
    if starts_with(r, ">="@) {
        match version_outcome(trim(r.subrange(2, r.len() as int))) {
            Ok(v) => Ok(range_of(BoundView::Included(v), BoundView::Unbounded)),
            Err(e) => Err(e),
        }
    } else if starts_with(r, "<="@) {
        match version_outcome(trim(r.subrange(2, r.len() as int))) {
            Ok(v) => Ok(range_of(BoundView::Unbounded, BoundView::Included(v))),
            Err(e) => Err(e),
        }
    } else if starts_with(r, ">"@) {
        match version_outcome(trim(r.subrange(1, r.len() as int))) {
            Ok(v) => Ok(range_of(BoundView::Excluded(v), BoundView::Unbounded)),
            Err(e) => Err(e),
        }
    } else if starts_with(r, "<"@) {
        match version_outcome(trim(r.subrange(1, r.len() as int))) {
            Ok(v) => Ok(range_of(BoundView::Unbounded, BoundView::Excluded(v))),
            Err(e) => Err(e),
        }
    } else if starts_with(r, "~"@) {
        match version_outcome(trim(r.subrange(1, r.len() as int))) {
            Ok(v) => Ok(range_of(BoundView::Included(v), BoundView::Excluded(tilde_upper(v)))),
            Err(e) => Err(e),
        }
    } else if starts_with(r, "="@) {
        match version_outcome(trim(r.subrange(1, r.len() as int))) {
            Ok(v) => Ok(range_of(BoundView::Included(v), BoundView::Included(v))),
            Err(e) => Err(e),
        }
    } else if r == "*"@ {
        Ok(range_of(BoundView::Unbounded, BoundView::Unbounded))
    } else {
        let t = match strip_prefix(r, "^"@) {
            Some(rest) => rest,
            None => r,
        };
        match version_outcome(trim(t)) {
            Ok(v) => Ok(range_of(BoundView::Included(v), BoundView::Excluded(caret_upper(v)))),
            Err(e) => Err(e),
        }
    }
}

proof fn lemma_first_char(r: Seq<char>, first: char)
    requires
        r.len() >= 1 ==> first == r[0],
    ensures
        forall|c: char| #[trigger] starts_with(r, seq![c]) <==> (r.len() >= 1 && first == c),
{
    assert forall|c: char| #[trigger] starts_with(r, seq![c]) <==> (r.len() >= 1 && first == c) by {
        if r.len() >= 1 {
            assert(r.subrange(0, 1) =~= seq![r[0]]);
            if starts_with(r, seq![c]) {
                assert(r.subrange(0, 1)[0] == c);
            }
        }
    }
}

fn version_after(r: &Vec<char>, k: usize) -> (o: Result<SemVer, String>)
    requires
        k <= r.len(),
    ensures
        match o {
            Ok(v) => version_outcome(trim(r@.subrange(k as int, r@.len() as int))) == Ok::<
                SemVerView,
                Seq<char>,
            >(v@) && v.wf(),
            Err(e) => version_outcome(trim(r@.subrange(k as int, r@.len() as int))) == Err::<
                SemVerView,
                Seq<char>,
            >(e@),
        },
{
    let rest = string_of(r, k, r.len());
    let t = str_trim(rest.as_str());
    parse_version(t.as_str())
}

/// Reads a version requirement (see `req_outcome`).
pub fn parse_version_req(req: &str) -> (r: Result<VersionRange, String>)
    ensures
        match r {
            Ok(range) => req_outcome(req@) == Ok::<RangeView, Seq<char>>(range@) && range.wf(),
            Err(e) => req_outcome(req@) == Err::<RangeView, Seq<char>>(e@),
        },
{
    let t = str_trim(req);
    let r = chars_of(t.as_str());
    proof {
        reveal_strlit(">=");
        reveal_strlit("<=");
        reveal_strlit(">");
        reveal_strlit("<");
        reveal_strlit("~");
        reveal_strlit("=");
        reveal_strlit("*");
        reveal_strlit("^");
    }
    let two = r.len() >= 2;
    if two && r[0] == '>' && r[1] == '=' {
        assert(r@.subrange(0, 2) =~= ">="@);
        let v = version_after(&r, 2)?;
        return Ok(VersionRange::higher_than(v));
    }
    assert(!starts_with(r@, ">="@)) by {
        if starts_with(r@, ">="@) {
            assert(r@.subrange(0, 2)[0] == '>');
            assert(r@.subrange(0, 2)[1] == '=');
        }
    }
    if two && r[0] == '<' && r[1] == '=' {
        assert(r@.subrange(0, 2) =~= "<="@);
        let v = version_after(&r, 2)?;
        return Ok(VersionRange::lower_than(v));
    }
    assert(!starts_with(r@, "<="@)) by {
        if starts_with(r@, "<="@) {
            assert(r@.subrange(0, 2)[0] == '<');
            assert(r@.subrange(0, 2)[1] == '=');
        }
    }
    let one = r.len() >= 1;
    let first = if one {
        r[0]
    } else {
        ' '
    };
    proof {
        assert(">"@ =~= seq!['>']);
        assert("<"@ =~= seq!['<']);
        assert("~"@ =~= seq!['~']);
        assert("="@ =~= seq!['=']);
        assert("^"@ =~= seq!['^']);
        lemma_first_char(r@, first);
    }
    if one && first == '>' {
        let v = version_after(&r, 1)?;
        return Ok(VersionRange::strictly_higher_than(v));
    }
    if one && first == '<' {
        let v = version_after(&r, 1)?;
        return Ok(VersionRange::strictly_lower_than(v));
    }
    if one && first == '~' {
        let v = version_after(&r, 1)?;
        let upper = SemVer::new(v.major, next_of(v.minor), 0);
        return Ok(VersionRange::between(v, upper));
    }
    if one && first == '=' {
        let v = version_after(&r, 1)?;
        return Ok(VersionRange::singleton(v));
    }
    if r.len() == 1 && first == '*' {
        assert(r@ =~= "*"@);
        return Ok(VersionRange::full());
    }
    assert(r@ != "*"@) by {
        if r@ == "*"@ {
            assert(r@[0] == '*');
        }
    }
    let k: usize = if one && first == '^' {
        1
    } else {
        0
    };
    assert(r@.subrange(0, r@.len() as int) =~= r@);
    let v = version_after(&r, k)?;
    let upper = if v.major > 0 {
        SemVer::new(next_of(v.major), 0, 0)
    } else if v.minor > 0 {
        SemVer::new(0, next_of(v.minor), 0)
    } else {
        SemVer::new(0, 0, next_of(v.patch))
    };
    Ok(VersionRange::between(v, upper))
}


/// The message of a dependency that names no source.
pub open spec fn no_source_message(name: Seq<char>) -> Seq<char> {
    "dependency '"@ + name + "' has no source specified (add path, git, provider, or version)"@
}

/// The versions a dependency accepts: any for a path or workspace
/// dependency; its requirement (any without one) for a git, provider or
/// registry dependency; an error when it names no source.
pub open spec fn dep_range_outcome(name: Seq<char>, d: DependencySpec) -> Result<RangeView, Seq<char>> {
    match source_of(d) {
        DependencySource::Path | DependencySource::Workspace => Ok(
            range_of(BoundView::Unbounded, BoundView::Unbounded),
        ),
        DependencySource::Unknown => Err(no_source_message(name)),
        _ => match d.version {
            Some(v) => req_outcome(v@),
            None => Ok(range_of(BoundView::Unbounded, BoundView::Unbounded)),
        },
    }
}

pub fn spec_to_range(name: &str, spec: &DependencySpec) -> (r: Result<VersionRange, String>)
    ensures
        match r {
            Ok(range) => dep_range_outcome(name@, *spec) == Ok::<RangeView, Seq<char>>(range@) && range.wf(),
            Err(e) => dep_range_outcome(name@, *spec) == Err::<RangeView, Seq<char>>(e@),
        },
{
    match spec.source_kind() {
        DependencySource::Path | DependencySource::Workspace => Ok(VersionRange::full()),
        DependencySource::Unknown => {
            let a = concat("dependency '", name);
            Err(concat(a.as_str(), "' has no source specified (add path, git, provider, or version)"))
        },
        _ => match &spec.version {
            Some(v) => parse_version_req(v.as_str()),
            None => Ok(VersionRange::full()),
        },
    }
}

pub open spec fn is_ascii_digit(c: char) -> bool {
    '0' <= c && c <= '9'
}

/// `s` without its leading characters that are not ASCII digits.
pub open spec fn from_first_digit(s: Seq<char>) -> Seq<char>
    decreases s.len(),
{
    if s.len() > 0 && !is_ascii_digit(s[0]) {
        from_first_digit(s.drop_first())
    } else {
        s
    }
}

/// The version a dependency is registered at: its version text from the
/// first digit on, read as a version; `0.0.0` without a version or when
/// that text is not one.
pub open spec fn stub_outcome(d: DependencySpec) -> SemVerView {
    match d.version {
        Some(v) => match version_outcome(from_first_digit(v@)) {
            Ok(x) => x,
            Err(_) => plain_version(0, 0, 0),
        },
        None => plain_version(0, 0, 0),
    }
}

fn skip_non_digits(s: &str) -> (r: String)
    ensures
        r@ == from_first_digit(s@),
{
    let v = chars_of(s);
    let mut i: usize = 0;
    assert(v@.subrange(0, v@.len() as int) =~= v@);
    while i < v.len() && !('0' <= v[i] && v[i] <= '9')
        invariant
            i <= v.len(),
            from_first_digit(v@) == from_first_digit(v@.subrange(i as int, v@.len() as int)),
        decreases v.len() - i,
    {
        assert(v@.subrange(i as int, v@.len() as int).drop_first() =~= v@.subrange(i + 1, v@.len() as int));
        i += 1;
    }
    string_of(&v, i, v.len())
}

pub fn stub_version(spec: &DependencySpec) -> (r: SemVer)
    ensures
        r@ == stub_outcome(*spec),
        r.wf(),
{
    match &spec.version {
        Some(v) => {
            let t = skip_non_digits(v.as_str());
            match parse_version(t.as_str()) {
                Ok(x) => x,
                Err(_) => SemVer::new(0, 0, 0),
            }
        },
        None => SemVer::new(0, 0, 0),
    }
}

/// One registration: a package at a version, with its dependencies (in
/// the order given) and the versions each accepts.
pub type Registration = (Seq<char>, SemVerView, Seq<(Seq<char>, RangeView)>);

/// The packages registered for resolution, in a
/// `pubgrub::OfflineDependencyProvider`.
#[verifier::external_body]
pub struct Registry {
    provider: pubgrub::OfflineDependencyProvider<String, pubgrub::Ranges<semver::Version>>,
}

/// What a registry was given: its registrations, in the order they were
/// made. (The provider keeps them in hash maps whose layout, and so the
/// order in which the solver meets packages of equal priority, follows
/// from that sequence.)
pub uninterp spec fn registrations(r: Registry) -> Seq<Registration>;

/// What `pubgrub::resolve` selects, given the registrations made to a
/// provider in order, for a root package at a version: a version for each
/// package of the solution (the root among them), or the text of the
/// error.
pub uninterp spec fn pubgrub_selection(
    regs: Seq<Registration>,
    root: Seq<char>,
    version: SemVerView,
) -> Result<Map<Seq<char>, SemVerView>, Seq<char>>;

/// Dependencies as given, each name with the view of its range.
pub open spec fn dep_views(deps: Seq<(String, VersionRange)>) -> Seq<(Seq<char>, RangeView)> {
    deps.map_values(|d: (String, VersionRange)| (d.0@, d.1@))
}

/// `OfflineDependencyProvider::new`: nothing registered.
#[verifier::external_body]
fn registry_new() -> (reg: Registry)
    ensures
        registrations(reg) == Seq::<Registration>::empty(),
{
    Registry { provider: pubgrub::OfflineDependencyProvider::new() }
}

impl Registry {
    /// `pubgrub::resolve` for `root` at `version`: the selected packages
    /// with their versions (each name once, in no particular order), or the
    /// error's text.
    #[verifier::external_body]
    fn resolve(&self, root: String, version: &SemVer) -> (r: Result<Vec<(String, SemVer)>, String>)
        requires
            version.wf(),
        ensures
            match r {
                Ok(sel) => pubgrub_selection(registrations(*self), root@, version@) matches Ok(m) && m
                    == selection_map(sel@) && names_distinct(sel@),
                Err(e) => pubgrub_selection(registrations(*self), root@, version@) matches Err(x) && x == e@,
            },
    {
        match pubgrub::resolve(&self.provider, root, semver::Version { major: version.major, minor: version.minor, patch: version.patch, pre: semver::Prerelease::new(version.pre.as_str()).unwrap(), build: semver::BuildMetadata::new(version.build.as_str()).unwrap() }) {
            Ok(sel) => Ok(sel.into_iter().map(|(n, v)| (n, SemVer { major: v.major, minor: v.minor, patch: v.patch, pre: v.pre.as_str().to_string(), build: v.build.as_str().to_string() })).collect()),
            Err(e) => Err(e.to_string()),
        }
    }
}

/// `OfflineDependencyProvider::add_dependencies`: registers `package` at
/// `version` with `deps`; the registration is added to the log.
#[verifier::external_body]
fn registry_add(reg: &mut Registry, package: String, version: &SemVer, deps: Vec<(String, VersionRange)>)
    requires
        version.wf(),
    ensures
        registrations(*final(reg)) == registrations(*old(reg)).push((package@, version@, dep_views(deps@))),
{
    let v = semver::Version { major: version.major, minor: version.minor, patch: version.patch, pre: semver::Prerelease::new(version.pre.as_str()).unwrap(), build: semver::BuildMetadata::new(version.build.as_str()).unwrap() };
    reg.provider.add_dependencies(package, v, deps.into_iter().map(|(n, r)| (n, r.raw)));
}

/// The names of a selection appear once each.
pub open spec fn names_distinct(sel: Seq<(String, SemVer)>) -> bool {
    forall|i: int, j: int| 0 <= i < j < sel.len() ==> sel[i].0@ != sel[j].0@
}

/// A selection as a map from name to version.
pub open spec fn selection_map(sel: Seq<(String, SemVer)>) -> Map<Seq<char>, SemVerView>
    decreases sel.len(),
{
    if sel.len() == 0 {
        Map::empty()
    } else {
        selection_map(sel.drop_last()).insert(sel.last().0@, sel.last().1@)
    }
}

/// A dependency as resolution picked it.
#[derive(Debug, Clone)]
pub struct ResolvedPackage {
    pub name: String,
    pub version: SemVer,
    pub source: DependencySource,
}

/// The ranges of the first `n` dependencies, in order; the first error
/// when one of them has none.
pub open spec fn ranges_upto(keys: Seq<Seq<char>>, vals: Seq<DependencySpec>, n: int) -> Result<
    Seq<(Seq<char>, RangeView)>,
    Seq<char>,
>
    decreases n,
{
    if n <= 0 {
        Ok(Seq::empty())
    } else {
        match ranges_upto(keys, vals, n - 1) {
            Err(e) => Err(e),
            Ok(rs) => match dep_range_outcome(keys[n - 1], vals[n - 1]) {
                Err(e) => Err(e),
                Ok(r) => Ok(rs.push((keys[n - 1], r))),
            },
        }
    }
}

/// The first `n` dependencies registered, in order, each at its stub
/// version with no dependencies of its own.
pub open spec fn stubs_upto(keys: Seq<Seq<char>>, vals: Seq<DependencySpec>, n: int) -> Seq<Registration>
    decreases n,
{
    if n <= 0 {
        Seq::empty()
    } else {
        stubs_upto(keys, vals, n - 1).push((keys[n - 1], stub_outcome(vals[n - 1]), Seq::empty()))
    }
}

/// The name the manifest's own package is resolved under.
pub open spec fn root_name_of(m: Manifest) -> Seq<char> {
    m.package->0.name@ + "@root"@
}

/// What resolving a manifest's dependencies gives: the package's version,
/// then each dependency's range (the first failure stops), then what
/// `pubgrub` selects with every dependency registered at its stub version
/// and the package depending on all of them; the package itself is left out.
pub open spec fn resolution(m: Manifest) -> Result<Map<Seq<char>, SemVerView>, Seq<char>> {
    let keys = m.dependencies.key_list();
    let vals = m.dependencies.value_list();
    let root = root_name_of(m);
    match version_outcome(m.package->0.version@) {
        Err(e) => Err(e),
        Ok(rv) => match ranges_upto(keys, vals, keys.len() as int) {
            Err(e) => Err(e),
            Ok(rs) => match pubgrub_selection(
                stubs_upto(keys, vals, keys.len() as int).push((root, rv, rs)),
                root,
                rv,
            ) {
                Err(e) => Err("dependency resolution failed:\n"@ + e),
                Ok(sel) => Ok(sel.remove(root)),
            },
        },
    }
}

/// Where a dependency of the manifest comes from (`Unknown` for a name it
/// does not declare).
pub open spec fn source_in(m: Manifest, n: Seq<char>) -> DependencySource {
    match m.dependencies.lookup(n) {
        Some(d) => source_of(d),
        None => DependencySource::Unknown,
    }
}

/// The packages are the selection, in name order, each with its source.
pub open spec fn resolved_as(pkgs: Seq<ResolvedPackage>, sel: Map<Seq<char>, SemVerView>, m: Manifest) -> bool {
    let names = pkgs.map_values(|p: ResolvedPackage| p.name@);
    &&& sorted(names)
    &&& names.to_set() == sel.dom()
    &&& forall|i: int|
        0 <= i < pkgs.len() ==> sel[#[trigger] pkgs[i].name@] == pkgs[i].version@ && pkgs[i].source == source_in(
            m,
            pkgs[i].name@,
        )
}

proof fn lemma_dep_views(deps: Seq<(String, VersionRange)>, rs: Seq<(Seq<char>, RangeView)>)
    requires
        deps.len() == rs.len(),
        forall|i: int| 0 <= i < deps.len() ==> #[trigger] rs[i] == (deps[i].0@, deps[i].1@),
    ensures
        dep_views(deps) == rs,
{
    assert(dep_views(deps) =~= rs);
}

proof fn lemma_selection_step(sel: Seq<(String, SemVer)>, i: int)
    requires
        0 <= i < sel.len(),
    ensures
        selection_map(sel.take(i + 1)) == selection_map(sel.take(i)).insert(sel[i].0@, sel[i].1@),
{
    assert(sel.take(i + 1).drop_last() =~= sel.take(i));
}

/// Resolves the manifest's dependencies (see `resolution`); no
/// dependencies resolve to nothing.
pub fn resolve_dependencies(manifest: &Manifest) -> (r: Result<Vec<ResolvedPackage>, String>)
    requires
        manifest.wf(),
        manifest.package is Some,
    ensures
        manifest.dependencies.key_list().len() == 0 ==> (r matches Ok(p) && p@.len() == 0),
        manifest.dependencies.key_list().len() > 0 ==> match r {
            Ok(pkgs) => resolution(*manifest) matches Ok(sel) && resolved_as(pkgs@, sel, *manifest),
            Err(e) => resolution(*manifest) matches Err(x) && x == e@,
        },
{
    if manifest.dependencies.is_empty() {
        return Ok(Vec::new());
    }
    let ghost m = *manifest;
    let pkg = match &manifest.package {
        Some(p) => p,
        None => {
            return Ok(Vec::new());
        },
    };
    let root_name = concat(pkg.name.as_str(), "@root");
    let root_version = parse_version(pkg.version.as_str())?;
    let keys = manifest.dependencies.keys();
    let vals = manifest.dependencies.values();
    proof {
        manifest.dependencies.lemma_wf();
    }
    let ghost ks = manifest.dependencies.key_list();
    let ghost vs = manifest.dependencies.value_list();
    let mut reg = registry_new();
    let mut root_deps: Vec<(String, VersionRange)> = Vec::new();
    let mut i: usize = 0;
    while i < keys.len()
        invariant
            strs_eq(keys@, ks),
            vals@ == vs,
            ks == manifest.dependencies.key_list(),
            vs == manifest.dependencies.value_list(),
            ks.len() == vs.len(),
            ks.len() > 0,
            version_outcome(manifest.package->0.version@) == Ok::<SemVerView, Seq<char>>(root_version@),
            i <= keys.len(),
            ranges_upto(ks, vs, i as int) matches Ok(rs) && rs.len() == root_deps@.len() && (forall|j: int|
                0 <= j < rs.len() ==> #[trigger] rs[j] == (root_deps@[j].0@, root_deps@[j].1@)),
            forall|j: int| 0 <= j < root_deps@.len() ==> (#[trigger] root_deps@[j]).1.wf(),
            registrations(reg) == stubs_upto(ks, vs, i as int),
        decreases keys.len() - i,
    {
        let name = &keys[i];
        let spec = &vals[i];
        assert(ks[i as int] == name@);
        let range = match spec_to_range(name.as_str(), spec) {
            Ok(x) => x,
            Err(e) => {
                proof {
                    lemma_ranges_err_stays(ks, vs, i as int + 1, ks.len() as int);
                }
                return Err(e);
            },
        };
        let ghost before = root_deps@;
        root_deps.push((name.clone(), range));
        let stub = stub_version(spec);
        registry_add(&mut reg, name.clone(), &stub, Vec::new());
        proof {
            let e: Seq<(String, VersionRange)> = Seq::empty();
            assert(dep_views(e) =~= Seq::<(Seq<char>, RangeView)>::empty());
        }
        i += 1;
    }
    let ghost rs = ranges_upto(ks, vs, ks.len() as int)->Ok_0;
    proof {
        lemma_dep_views(root_deps@, rs);
    }
    registry_add(&mut reg, root_name.clone(), &root_version, root_deps);
    let sel = match reg.resolve(root_name.clone(), &root_version) {
        Ok(s) => s,
        Err(e) => {
            return Err(concat("dependency resolution failed:\n", e.as_str()));
        },
    };
    let ghost full = selection_map(sel@);
    let mut chosen: StrMap<SemVer> = StrMap::new();
    let mut k: usize = 0;
    while k < sel.len()
        invariant
            k <= sel.len(),
            names_distinct(sel@),
            chosen.wf(),
            chosen.key_list().to_set() == selection_map(sel@.take(k as int)).dom().remove(root_name@),
            forall|n: Seq<char>|
                #[trigger] chosen.key_list().contains(n) ==> chosen.lookup(n)->0@ == selection_map(
                    sel@.take(k as int),
                )[n],
        decreases sel.len() - k,
    {
        proof {
            lemma_selection_step(sel@, k as int);
        }
        let (n, v) = &sel[k];
        let ghost old_chosen = chosen;
        if !str_eq(n.as_str(), root_name.as_str()) {
            chosen.insert(n.clone(), v.copy());
        }
        proof {
            let s0 = selection_map(sel@.take(k as int));
            let s1 = selection_map(sel@.take(k + 1));
            assert(s1 == s0.insert(n@, v@));
            assert(chosen.key_list().to_set() =~= s1.dom().remove(root_name@));
            assert forall|x: Seq<char>| #[trigger] chosen.key_list().contains(x) implies chosen.lookup(x)->0@
                == s1[x] by {
                assert(chosen.key_list().to_set().contains(x));
                if x == n@ {
                } else {
                    assert(old_chosen.key_list().to_set().contains(x));
                    assert(old_chosen.key_list().contains(x));
                }
            }
        }
        k += 1;
    }
    assert(sel@.take(sel@.len() as int) =~= sel@);
    let ckeys = chosen.keys();
    let cvals = chosen.values();
    proof {
        chosen.lemma_wf();
    }
    let mut pkgs: Vec<ResolvedPackage> = Vec::new();
    let mut j: usize = 0;
    while j < ckeys.len()
        invariant
            strs_eq(ckeys@, chosen.key_list()),
            cvals@ == chosen.value_list(),
            chosen.key_list().len() == chosen.value_list().len(),
            manifest.wf(),
            j <= ckeys.len(),
            pkgs@.len() == j,
            forall|q: int|
                0 <= q < j ==> (#[trigger] pkgs@[q]).name@ == chosen.key_list()[q] && pkgs@[q].version@
                    == chosen.value_list()[q]@ && pkgs@[q].source == source_in(*manifest, chosen.key_list()[q]),
        decreases ckeys.len() - j,
    {
        let name = ckeys[j].clone();
        let source = match manifest.dependencies.get(name.as_str()) {
            Some(d) => d.source_kind(),
            None => DependencySource::Unknown,
        };
        pkgs.push(ResolvedPackage { name, version: cvals[j].copy(), source });
        j += 1;
    }
    proof {
        let names = pkgs@.map_values(|p: ResolvedPackage| p.name@);
        assert(names =~= chosen.key_list());
        assert forall|q: int| 0 <= q < pkgs@.len() implies full.remove(root_name@)[#[trigger] pkgs@[q].name@] == pkgs@[q].version@ by {
            chosen.lemma_lookup_at(q);
            assert(chosen.key_list().contains(chosen.key_list()[q]));
            assert(chosen.key_list().to_set().contains(chosen.key_list()[q]));
        }
        assert(names.to_set() =~= full.remove(root_name@).dom());
    }
    Ok(pkgs)
}

proof fn lemma_ranges_err_stays(keys: Seq<Seq<char>>, vals: Seq<DependencySpec>, i: int, n: int)
    requires
        0 < i <= n,
        ranges_upto(keys, vals, i) is Err,
    ensures
        ranges_upto(keys, vals, n) == ranges_upto(keys, vals, i),
    decreases n - i,
{
    if n > i {
        lemma_ranges_err_stays(keys, vals, i, n - 1);
    }
}

/// Two string lists hold the same texts.
pub open spec fn strs_eq(v: Seq<String>, s: Seq<Seq<char>>) -> bool {
    crate::text::strs(v) == s
}
} // verus!
