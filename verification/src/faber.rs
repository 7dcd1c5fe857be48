//! The incremental build engine: which compile tasks are out of date, what
//! a depfile lists, and how the outcome of a run is decided.
use vstd::prelude::*;
use vstd::string::StringSliceAdditionalSpecFns;
use crate::text::{chars_of, split_char, split_on, split_whitespace, string_of, strs, tokens, trim_end};

verus! {

/// Runs the tasks of a build graph: `jobs` at a time, stopping once
/// `max_errors` tasks have failed (0: never).
#[derive(Debug, Clone, Copy)]
pub struct FaberEngine {
    pub jobs: usize,
    pub max_errors: usize,
}

/// How a run went.
#[derive(Debug, Clone)]
pub struct FaberResult {
    pub success: bool,
    pub compiled: usize,
    pub skipped: usize,
    pub errors: Vec<FaberError>,
}

/// A task that failed.
#[derive(Debug, Clone)]
pub struct FaberError {
    pub source: String,
    pub stderr: String,
    pub exit_code: Option<i32>,
}

impl FaberEngine {
    /// An engine: `jobs` workers (by default the machine's parallelism,
    /// `available`), stopping after `max_errors` failures (by default 1).
    pub fn new(jobs: Option<u32>, max_errors: Option<usize>, available: usize) -> (r: Self)
        ensures
            r.jobs == (match jobs {
                Some(j) => j as usize,
                None => available,
            }),
            r.max_errors == (match max_errors {
                Some(m) => m,
                None => 1,
            }),
    {
        let jobs = match jobs {
            Some(j) => j as usize,
            None => available,
        };
        FaberEngine {
            jobs,
            max_errors: match max_errors {
                Some(m) => m,
                None => 1,
            },
        }
    }

    /// How many workers run `total` tasks.
    pub fn worker_count(&self, total: usize) -> (r: usize)
        ensures
            r == (if self.jobs < total {
                self.jobs
            } else {
                total
            }),
    {
        if self.jobs < total {
            self.jobs
        } else {
            total
        }
    }

    /// Whether a worker stops taking tasks, `failed` tasks having failed.
    pub fn should_stop(&self, failed: usize) -> (b: bool)
        ensures
            b == (failed >= self.max_errors && self.max_errors > 0),
    {
        failed >= self.max_errors && self.max_errors > 0
    }
}

/// A task is out of date when its object or its source is missing, the
/// source is newer than the object, or (when there is a depfile) one of
/// the files it lists is missing or newer than the object.
pub open spec fn out_of_date(obj: Option<u128>, src: Option<u128>, deps: Option<Seq<Option<u128>>>) -> bool {
    match (obj, src) {
        (Some(o), Some(s)) => s > o || match deps {
            Some(ds) => exists|i: int| 0 <= i < ds.len() && (ds[i] is None || ds[i]->0 > o),
            None => false,
        },
        _ => true,
    }
}

/// Whether a compile task must run, from the modification times (in
/// nanoseconds) of its object, its source and, when its depfile exists,
/// of each file the depfile lists (`None` for a file that is missing).
pub fn needs_rebuild(obj_mtime: Option<u128>, source_mtime: Option<u128>, dep_mtimes: Option<Vec<Option<u128>>>) -> (b: bool)
    ensures
        b == out_of_date(
            obj_mtime,
            source_mtime,
            match dep_mtimes {
                Some(v) => Some(v@),
                None => None,
            },
        ),
        obj_mtime is None || source_mtime is None ==> b,
        obj_mtime is Some && source_mtime is Some && source_mtime->0 > obj_mtime->0 ==> b,
        forall|i: int|
            obj_mtime is Some && source_mtime is Some && dep_mtimes is Some && 0 <= i < dep_mtimes->0@.len() && (
            dep_mtimes->0@[i] is None || dep_mtimes->0@[i]->0 > obj_mtime->0) ==> b,
        obj_mtime is Some && source_mtime is Some && source_mtime->0 <= obj_mtime->0 && (forall|i: int|
            dep_mtimes is Some && 0 <= i < dep_mtimes->0@.len() ==> dep_mtimes->0@[i] is Some
                && dep_mtimes->0@[i]->0 <= obj_mtime->0) ==> !b,
{
    let o = match obj_mtime {
        Some(t) => t,
        None => return true,
    };
    let s = match source_mtime {
        Some(t) => t,
        None => return true,
    };
    if s > o {
        return true;
    }
    match &dep_mtimes {
        Some(ds) => any_missing_or_newer(ds, o),
        None => false,
    }
}

/// A task whose object and source exist, the source no newer than the
/// object, is out of date exactly when some file its depfile lists, at
/// whatever position, is missing or newer than the object.
pub proof fn lemma_stale_dependency_rebuilds(o: u128, s: u128, ds: Seq<Option<u128>>)
    requires
        s <= o,
    ensures
        out_of_date(Some(o), Some(s), Some(ds)) <==> exists|i: int|
            0 <= i < ds.len() && (ds[i] is None || ds[i]->0 > o),
        forall|i: int| 0 <= i < ds.len() && (ds[i] is None || ds[i]->0 > o) ==> out_of_date(Some(o), Some(s), Some(ds)),
{
}

/// A missing object or source always means a rebuild, and so does a
/// source newer than its object, whatever the depfile lists.
pub proof fn lemma_missing_or_newer_source_rebuilds(obj: Option<u128>, src: Option<u128>, deps: Option<Seq<Option<u128>>>)
    requires
        obj is None || src is None || src->0 > obj->0,
    ensures
        out_of_date(obj, src, deps),
{
}

/// Whether one of `ds` is missing or newer than `o`.
fn any_missing_or_newer(ds: &Vec<Option<u128>>, o: u128) -> (b: bool)
    ensures
        b == exists|i: int| 0 <= i < ds@.len() && (ds@[i] is None || ds@[i]->0 > o),
{
    let mut i: usize = 0;
    while i < ds.len()
        invariant
            i <= ds.len(),
            forall|j: int| 0 <= j < i ==> (ds@[j] is Some && ds@[j]->0 <= o),
        decreases ds.len() - i,
    {
        match ds[i] {
            Some(t) => {
                if t > o {
                    assert(0 <= i < ds@.len() && (ds@[i as int] is None || ds@[i as int]->0 > o));
                    return true;
                }
            },
            None => {
                assert(0 <= i < ds@.len() && (ds@[i as int] is None || ds@[i as int]->0 > o));
                return true;
            },
        }
        i += 1;
    }
    false
}

/// The lines of `s`, as `str::lines` gives them before their ends are
/// trimmed: split at `\n`, without a last empty line.
pub open spec fn raw_lines(s: Seq<char>) -> Seq<Seq<char>> {
    let parts = split_on(s, '\n');
    if parts.len() > 0 && parts.last().len() == 0 {
        parts.drop_last()
    } else {
        parts
    }
}

/// A depfile line once its end is trimmed: a trailing `\` continues the
/// line (and becomes a space).
pub open spec fn depfile_piece(line: Seq<char>) -> Seq<char> {
    let t = trim_end(line);
    if t.len() > 0 && t.last() == '\\' {
        t.drop_last() + seq![' ']
    } else {
        t
    }
}

/// The lines of a depfile joined into one.
pub open spec fn joined_pieces(lines: Seq<Seq<char>>) -> Seq<char>
    decreases lines.len(),
{
    if lines.len() == 0 {
        Seq::empty()
    } else {
        joined_pieces(lines.drop_last()) + depfile_piece(lines.last())
    }
}

/// Is `c` an ASCII letter.
pub open spec fn is_ascii_alpha(c: char) -> bool {
    ('a' <= c && c <= 'z') || ('A' <= c && c <= 'Z')
}

/// The colon that ends a depfile's target, at position `i`: a colon that
/// is not a drive letter's (a letter, then the colon, at the start).
pub open spec fn is_target_colon(s: Seq<char>, i: int) -> bool {
    s[i] == ':' && !(i == 1 && is_ascii_alpha(s[0]))
}

/// The first colon that ends the target.
pub open spec fn target_colon(s: Seq<char>) -> Option<int> {
    if exists|i: int| 0 <= i < s.len() && is_target_colon(s, i) {
        Some(choose|i: int| 0 <= i < s.len() && is_target_colon(s, i) && forall|j: int| 0 <= j < i ==> !is_target_colon(s, j))
    } else {
        None
    }
}

/// The files a depfile lists: the words after the target's colon (all
/// words, when there is no colon).
pub open spec fn depfile_deps(content: Seq<char>) -> Seq<Seq<char>> {
    let joined = joined_pieces(raw_lines(content));
    match target_colon(joined) {
        Some(p) => tokens(joined.subrange(p + 1, joined.len() as int)),
        None => tokens(joined),
    }
}

proof fn lemma_target_colon_at(s: Seq<char>, k: int)
    requires
        0 <= k < s.len(),
        is_target_colon(s, k),
        forall|j: int| 0 <= j < k ==> !is_target_colon(s, j),
    ensures
        target_colon(s) == Some(k),
{
    let c = choose|i: int| 0 <= i < s.len() && is_target_colon(s, i) && forall|j: int| 0 <= j < i ==> !is_target_colon(s, j);
    if c < k {
        assert(!is_target_colon(s, c));
    } else if c > k {
        assert(!is_target_colon(s, k));
    }
}

fn target_colon_index(v: &Vec<char>) -> (r: Option<usize>)
    ensures
        match r {
            Some(i) => i < v@.len() && target_colon(v@) == Some(i as int),
            None => target_colon(v@) is None,
        },
{
    let mut i: usize = 0;
    while i < v.len()
        invariant
            i <= v.len(),
            forall|j: int| 0 <= j < i ==> !is_target_colon(v@, j),
        decreases v.len() - i,
    {
        if v[i] == ':' {
            let alpha = v[0] >= 'a' && v[0] <= 'z' || v[0] >= 'A' && v[0] <= 'Z';
            if !(i == 1 && alpha) {
                proof {
                    lemma_target_colon_at(v@, i as int);
                }
                return Some(i);
            }
        }
        i += 1;
    }
    None
}

/// The byte of a target's colon in UTF-8 text: a `:` that is not the
/// second byte after an ASCII letter.
pub open spec fn is_target_colon_byte(b: Seq<u8>, i: int) -> bool {
    b[i] == 58 && !(i == 1 && ((65 <= b[0] && b[0] <= 90) || (97 <= b[0] && b[0] <= 122)))
}

/// The byte position of the colon that separates a depfile's target from
/// its dependencies, skipping a drive letter's colon (`C:`).
pub fn find_dep_colon(s: &str) -> (r: Option<usize>)
    ensures
        match r {
            Some(i) => i < s.spec_bytes().len() && is_target_colon_byte(s.spec_bytes(), i as int)
                && forall|j: int| 0 <= j < i ==> !is_target_colon_byte(s.spec_bytes(), j),
            None => forall|j: int| 0 <= j < s.spec_bytes().len() ==> !is_target_colon_byte(s.spec_bytes(), j),
        },
{
    let bytes = s.as_bytes();
    let mut i: usize = 0;
    while i < bytes.len()
        invariant
            bytes@ == s.spec_bytes(),
            i <= bytes@.len(),
            forall|j: int| 0 <= j < i ==> !is_target_colon_byte(bytes@, j),
        decreases bytes@.len() - i,
    {
        if bytes[i] == 58u8 {
            let b0 = bytes[0];
            let alpha = (b0 >= 65u8 && b0 <= 90u8) || (b0 >= 97u8 && b0 <= 122u8);
            if !(i == 1 && alpha) {
                return Some(i);
            }
        }
        i += 1;
    }
    None
}

/// The lines of `content` before their ends are trimmed.
fn lines_of(content: &str) -> (r: Vec<String>)
    ensures
        strs(r@) == raw_lines(content@),
{
    let mut parts = split_char(content, '\n');
    let n = parts.len();
    if n > 0 && parts[n - 1].as_str().is_empty() {
        let ghost before = strs(parts@);
        parts.pop();
        assert(strs(parts@) =~= before.drop_last());
    }
    parts
}

/// Appends one depfile line, its end trimmed and a trailing `\\` made a space.
fn push_piece(joined: &mut Vec<char>, line: &str)
    ensures
        final(joined)@ == old(joined)@ + depfile_piece(line@),
{
    let v = chars_of(line);
    let e = crate::text::trim_end_len(&v);
    let ghost t = trim_end(v@);
    let continued = e > 0 && v[e - 1] == '\\';
    let ghost start = joined@;
    let mut k: usize = 0;
    let stop = if continued {
        e - 1
    } else {
        e
    };
    while k < stop
        invariant
            k <= stop,
            stop <= v@.len(),
            joined@ == start + v@.subrange(0, k as int),
        decreases stop - k,
    {
        joined.push(v[k]);
        assert(v@.subrange(0, k + 1) =~= v@.subrange(0, k as int).push(v@[k as int]));
        k += 1;
    }
    if continued {
        joined.push(' ');
        assert(t.drop_last() =~= v@.subrange(0, stop as int));
        assert(joined@ =~= start + (t.drop_last() + seq![' ']));
    } else {
        assert(t =~= v@.subrange(0, stop as int));
    }
}

/// The files a depfile's text lists, in order.
pub fn parse_depfile(content: &str) -> (r: Vec<String>)
    ensures
        strs(r@) == depfile_deps(content@),
{
    let lines = lines_of(content);
    let mut joined: Vec<char> = Vec::new();
    let mut i: usize = 0;
    while i < lines.len()
        invariant
            i <= lines.len(),
            joined@ == joined_pieces(strs(lines@).take(i as int)),
        decreases lines.len() - i,
    {
        push_piece(&mut joined, lines[i].as_str());
        assert(strs(lines@).take(i + 1).drop_last() =~= strs(lines@).take(i as int));
        assert(strs(lines@)[i as int] == lines@[i as int]@);
        i += 1;
    }
    assert(strs(lines@).take(lines.len() as int) =~= strs(lines@));
    words_after_target(&joined)
}

/// The words of `joined` after its target's colon (all of them without one).
fn words_after_target(joined: &Vec<char>) -> (r: Vec<String>)
    ensures
        strs(r@) == match target_colon(joined@) {
            Some(p) => tokens(joined@.subrange(p + 1, joined@.len() as int)),
            None => tokens(joined@),
        },
{
    let n = joined.len();
    let rest = match target_colon_index(joined) {
        Some(p) => {
            assert(p < n);
            string_of(joined, p + 1, n)
        },
        None => string_of(joined, 0, n),
    };
    assert(joined@.subrange(0, joined@.len() as int) =~= joined@);
    split_whitespace(rest.as_str())
}

/// A source path as it is shown: without leading `../` and then one `./`.
pub open spec fn shown_path(s: Seq<char>) -> Seq<char>
    decreases s.len(),
{
    if s.len() >= 3 && s.subrange(0, 3) == "../"@ {
        shown_path(s.subrange(3, s.len() as int))
    } else if s.len() >= 2 && s.subrange(0, 2) == "./"@ {
        s.subrange(2, s.len() as int)
    } else {
        s
    }
}

pub fn clean_source_path(path: &str) -> (r: String)
    ensures
        r@ == shown_path(path@),
{
    let v = chars_of(path);
    let mut i: usize = 0;
    proof {
        reveal_strlit("../");
        reveal_strlit("./");
        assert(v@.subrange(0, v@.len() as int) =~= v@);
    }
    while i < v.len() && v.len() - i >= 3 && v[i] == '.' && v[i + 1] == '.' && v[i + 2] == '/'
        invariant
            i <= v.len(),
            shown_path(v@) == shown_path(v@.subrange(i as int, v@.len() as int)),
        decreases v.len() - i,
    {
        let ghost w = v@.subrange(i as int, v@.len() as int);
        proof {
            reveal_strlit("../");
        }
        assert(w.subrange(0, 3) =~= "../"@);
        assert(w.subrange(3, w.len() as int) =~= v@.subrange(i + 3, v@.len() as int));
        i += 3;
    }
    let ghost w = v@.subrange(i as int, v@.len() as int);
    assert(!(w.len() >= 3 && w.subrange(0, 3) == "../"@)) by {
        if w.len() >= 3 && w.subrange(0, 3) == "../"@ {
            assert(w.subrange(0, 3)[0] == '.');
            assert(w.subrange(0, 3)[1] == '.');
            assert(w.subrange(0, 3)[2] == '/');
        }
    }
    if i < v.len() && v.len() - i >= 2 && v[i] == '.' && v[i + 1] == '/' {
        assert(w.subrange(0, 2) =~= "./"@);
        assert(w.subrange(2, w.len() as int) =~= v@.subrange(i + 2, v@.len() as int));
        string_of(&v, i + 2, v.len())
    } else {
        assert(!(w.len() >= 2 && w.subrange(0, 2) == "./"@)) by {
            if w.len() >= 2 && w.subrange(0, 2) == "./"@ {
                assert(w.subrange(0, 2)[0] == '.');
                assert(w.subrange(0, 2)[1] == '/');
            }
        }
        string_of(&v, i, v.len())
    }
}

/// The tasks to compile (by position) and how many are skipped, given
/// which tasks are out of date.
pub fn plan_builds(out_of_date: &Vec<bool>) -> (r: (Vec<usize>, usize))
    ensures
        r.1 + r.0@.len() == out_of_date@.len(),
        forall|k: int| 0 <= k < r.0@.len() ==> r.0@[k] < out_of_date@.len() && out_of_date@[r.0@[k] as int],
        forall|k: int, l: int| 0 <= k < l < r.0@.len() ==> r.0@[k] < r.0@[l],
        forall|i: int| 0 <= i < out_of_date@.len() && out_of_date@[i] ==> r.0@.contains(i as usize),
{
    let mut to_build: Vec<usize> = Vec::new();
    let mut skipped: usize = 0;
    let mut i: usize = 0;
    while i < out_of_date.len()
        invariant
            i <= out_of_date.len(),
            skipped + to_build@.len() == i,
            forall|k: int| 0 <= k < to_build@.len() ==> to_build@[k] < i && out_of_date@[to_build@[k] as int],
            forall|k: int, l: int| 0 <= k < l < to_build@.len() ==> to_build@[k] < to_build@[l],
            forall|j: int| 0 <= j < i && out_of_date@[j] ==> to_build@.contains(j as usize),
        decreases out_of_date.len() - i,
    {
        if out_of_date[i] {
            let ghost before = to_build@;
            to_build.push(i);
            assert forall|j: int| 0 <= j < i + 1 && out_of_date@[j] implies to_build@.contains(j as usize) by {
                if j < i {
                    let k = choose|k: int| 0 <= k < before.len() && before[k] == j as usize;
                    assert(to_build@[k] == j as usize);
                } else {
                    assert(to_build@[before.len() as int] == i);
                }
            }
        } else {
            skipped += 1;
        }
        i += 1;
    }
    (to_build, skipped)
}

/// Whether the run links: after any compile, or when the output is missing
/// (and there is a link command).
pub fn need_link(compiled: usize, total_compile: usize, output_exists: bool, command_empty: bool) -> (b: bool)
    ensures
        b == ((compiled > 0 || total_compile > 0 || !output_exists) && !command_empty),
{
    let any_compiled = compiled > 0 || total_compile > 0;
    (any_compiled || !output_exists) && !command_empty
}

/// The run ends before compiling anything: nothing is out of date and the
/// output exists.
pub fn up_to_date(to_build: usize, output_exists: bool) -> (b: bool)
    ensures
        b == (to_build == 0 && output_exists),
{
    to_build == 0 && output_exists
}

/// A run of the compile tasks in progress: how many tasks there are, how
/// many were handed to workers, and what came back. Workers take tasks in
/// order until all are taken or too many have failed.
#[derive(Debug)]
pub struct FaberRun {
    pub total: usize,
    pub skipped: usize,
    pub max_errors: usize,
    pub next: usize,
    pub compiled: usize,
    pub errors: Vec<FaberError>,
}

/// How the link step went.
#[derive(Debug)]
pub enum LinkOutcome {
    /// Nothing to link, or no need.
    Skipped,
    Linked,
    Failed { stderr: String, exit_code: Option<i32> },
}

impl FaberRun {
    /// Tasks taken are no more than there are, and results no more than
    /// tasks taken.
    pub open spec fn wf(&self) -> bool {
        &&& self.next <= self.total
        &&& self.compiled + self.errors@.len() <= self.next
    }

    /// Whether workers stop taking tasks.
    pub open spec fn stopped(&self) -> bool {
        self.errors@.len() >= self.max_errors && self.max_errors > 0
    }

    /// A run of `total` tasks (`skipped` being up to date) for `engine`.
    pub fn start(engine: &FaberEngine, total: usize, skipped: usize) -> (r: Self)
        ensures
            r.wf(),
            r.total == total && r.skipped == skipped && r.max_errors == engine.max_errors,
            r.next == 0 && r.compiled == 0 && r.errors@.len() == 0,
    {
        FaberRun { total, skipped, max_errors: engine.max_errors, next: 0, compiled: 0, errors: Vec::new() }
    }

    /// The next task for a worker (by its position among the tasks to
    /// compile), or none when all are taken or the run stopped on errors.
    pub fn take_task(&mut self) -> (r: Option<usize>)
        requires
            old(self).wf(),
        ensures
            final(self).wf(),
            final(self).total == old(self).total && final(self).skipped == old(self).skipped,
            final(self).max_errors == old(self).max_errors,
            final(self).compiled == old(self).compiled && final(self).errors@ == old(self).errors@,
            (old(self).stopped() || old(self).next >= old(self).total) ==> (r is None && final(self).next
                == old(self).next),
            (!old(self).stopped() && old(self).next < old(self).total) ==> (r == Some(old(self).next)
                && final(self).next == old(self).next + 1),
    {
        if self.errors.len() >= self.max_errors && self.max_errors > 0 {
            return None;
        }
        if self.next >= self.total {
            return None;
        }
        let k = self.next;
        self.next = k + 1;
        Some(k)
    }

    /// Records what a task that was taken gave back.
    pub fn record(&mut self, ok: bool, source: String, stderr: String, exit_code: Option<i32>)
        requires
            old(self).wf(),
            old(self).compiled + old(self).errors@.len() < old(self).next,
        ensures
            final(self).wf(),
            final(self).total == old(self).total && final(self).skipped == old(self).skipped,
            final(self).max_errors == old(self).max_errors && final(self).next == old(self).next,
            ok ==> final(self).compiled == old(self).compiled + 1 && final(self).errors@ == old(self).errors@,
            !ok ==> final(self).compiled == old(self).compiled && final(self).errors@ == old(self).errors@.push(
                FaberError { source, stderr, exit_code },
            ),
    {
        if ok {
            self.compiled = self.compiled + 1;
        } else {
            self.errors.push(FaberError { source, stderr, exit_code });
        }
    }

    /// After the compiles: the failed result when a task failed (nothing is
    /// linked then), else the run, to go on to the link step.
    pub fn after_compile(self) -> (r: Result<FaberRun, FaberResult>)
        ensures
            self.errors@.len() > 0 ==> (r matches Err(res) && !res.success && res.compiled == self.compiled
                && res.skipped == self.skipped && res.errors@ == self.errors@),
            self.wf() && self.errors@.len() > 0 ==> (r matches Err(res) && res.compiled + res.errors@.len()
                <= self.total),
            self.errors@.len() == 0 ==> r == Ok::<FaberRun, FaberResult>(self),
    {
        if self.errors.len() > 0 {
            Err(FaberResult { success: false, compiled: self.compiled, skipped: self.skipped, errors: self.errors })
        } else {
            Ok(self)
        }
    }

    /// The result of the run, given how the link step went: a failed link
    /// is the one error.
    pub fn finish(self, link: LinkOutcome) -> (r: FaberResult)
        ensures
            r.compiled == self.compiled && r.skipped == self.skipped,
            r.success <==> r.errors@.len() == 0,
            self.wf() ==> r.compiled <= self.total,
            match link {
                LinkOutcome::Failed { stderr, exit_code } => !r.success && r.errors@.len() == 1
                    && r.errors@[0].source@ == "<link>"@ && r.errors@[0].stderr == stderr
                    && r.errors@[0].exit_code == exit_code,
                _ => r.success && r.errors@.len() == 0,
            },
    {
        match link {
            LinkOutcome::Failed { stderr, exit_code } => FaberResult {
                success: false,
                compiled: self.compiled,
                skipped: self.skipped,
                errors: vec![FaberError { source: "<link>".to_string(), stderr, exit_code }],
            },
            _ => FaberResult { success: true, compiled: self.compiled, skipped: self.skipped, errors: Vec::new() },
        }
    }
}

} // verus!
