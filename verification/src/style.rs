//! What the output styles show of a build step.
use vstd::prelude::*;
use crate::cli::StyleMode;
use crate::text::{strs, chars_of, concat, decimal, find_char, first_index, parse_u64, parse_u64_spec, str_trim, string_of, trim, u64_to_string};

verus! {

/// One step of a build, as shown while it runs.
#[derive(Debug, Clone)]
pub struct BuildStep {
    pub action: String,
    pub file: String,
    pub current: u32,
    pub total: u32,
    pub done_verb: &'static str,
}

/// Icons and colors.
#[derive(Debug, Clone, Copy)]
pub struct DefaultStyle;

/// Plain lines.
#[derive(Debug, Clone, Copy)]
pub struct MinimalStyle;

/// Right-aligned verbs, as cargo prints them.
#[derive(Debug, Clone, Copy)]
pub struct CargoLikeStyle;

impl BuildStep {
    /// `[current/total]`.
    pub fn progress(&self) -> (r: String)
        ensures
            r@ == "["@ + decimal(self.current as nat) + "/"@ + decimal(self.total as nat) + "]"@,
    {
        let c = u64_to_string(self.current as u64);
        let t = u64_to_string(self.total as u64);
        let a = concat("[", c.as_str());
        let b = concat(a.as_str(), "/");
        let d = concat(b.as_str(), t.as_str());
        concat(d.as_str(), "]")
    }

    /// The line shown when the step is done or failed: the file and the progress.
    pub fn file_progress(&self) -> (r: String)
        ensures
            r@ == self.file@ + " "@ + "["@ + decimal(self.current as nat) + "/"@ + decimal(self.total as nat)
                + "]"@,
    {
        let p = self.progress();
        let a = concat(self.file.as_str(), " ");
        let r = concat(a.as_str(), p.as_str());
        r
    }

    /// The line shown while the step runs: action, file and progress.
    pub fn running_line(&self) -> (r: String)
        ensures
            r@ == self.action@ + " "@ + self.file@ + " "@ + "["@ + decimal(self.current as nat) + "/"@
                + decimal(self.total as nat) + "]"@,
    {
        let a = concat(self.action.as_str(), " ");
        let fp = self.file_progress();
        let r = concat(a.as_str(), fp.as_str());
        assert(r@ =~= self.action@ + " "@ + self.file@ + " "@ + "["@ + decimal(self.current as nat) + "/"@
            + decimal(self.total as nat) + "]"@);
        r
    }
}


/// A progress line of ninja: `[current/total] action description`.
#[derive(Debug, Clone)]
pub struct NinjaProgress {
    pub current: u32,
    pub total: u32,
    pub action: String,
    pub description: Option<String>,
    pub command: Option<String>,
}

/// A count of a progress line: a number that fits in a `u32`.
pub open spec fn count_of(s: Seq<char>) -> Option<u32> {
    match parse_u64_spec(trim(s)) {
        Some(n) => if n <= u32::MAX {
            Some(n as u32)
        } else {
            None
        },
        None => None,
    }
}

/// What a trimmed ninja line says: `[a/b] rest`, where `a` and `b` are
/// counts and `rest` (trimmed) is the action, then after its first space
/// the description (trimmed).
pub open spec fn progress_of(line: Seq<char>) -> Option<(u32, u32, Seq<char>, Option<Seq<char>>)> {
    let l = trim(line);
    if l.len() == 0 || l[0] != '[' {
        None
    } else {
        match first_index(l, ']') {
            None => None,
            Some(e) => {
                let counts = l.subrange(1, e);
                match first_index(counts, '/') {
                    None => None,
                    Some(k) => match (count_of(counts.subrange(0, k)), count_of(counts.subrange(k + 1, counts.len() as int))) {
                        (Some(c), Some(t)) => {
                            let rest = trim(l.subrange(e + 1, l.len() as int));
                            match first_index(rest, ' ') {
                                Some(i) => Some((c, t, rest.subrange(0, i), Some(trim(rest.subrange(i, rest.len() as int))))),
                                None => Some((c, t, rest, None)),
                            }
                        },
                        _ => None,
                    },
                }
            },
        }
    }
}

fn count(s: &str) -> (r: Option<u32>)
    ensures
        r == count_of(s@),
{
    let t = str_trim(s);
    let cs = chars_of(t.as_str());
    match parse_u64(&cs) {
        Some(n) => if n <= 0xffff_ffffu64 {
            Some(n as u32)
        } else {
            None
        },
        None => None,
    }
}

/// Reads a ninja progress line (see `progress_of`).
pub fn parse_ninja_progress(line: &str) -> (r: Option<NinjaProgress>)
    ensures
        match progress_of(line@) {
            Some((c, t, a, d)) => r matches Some(p) && p.current == c && p.total == t && p.action@ == a && match p.description {
                Some(x) => d == Some(x@),
                None => d is None,
            } && p.command is None,
            None => r is None,
        },
{
    let lt = str_trim(line);
    let l = chars_of(lt.as_str());
    if l.len() == 0 || l[0] != '[' {
        return None;
    }
    let e = find_char(&l, ']')?;
    let counts = string_of(&l, 1, e);
    let cv = chars_of(counts.as_str());
    let k = find_char(&cv, '/')?;
    let a = string_of(&cv, 0, k);
    let b = string_of(&cv, k + 1, cv.len());
    let current = count(a.as_str())?;
    let total = count(b.as_str())?;
    let restv = string_of(&l, e + 1, l.len());
    let rest = str_trim(restv.as_str());
    let rv = chars_of(rest.as_str());
    let (action, description) = match find_char(&rv, ' ') {
        Some(i) => {
            let d = string_of(&rv, i, rv.len());
            (string_of(&rv, 0, i), Some(str_trim(d.as_str())))
        },
        None => (rest.clone(), None),
    };
    Some(NinjaProgress { current, total, action, description, command: None })
}
/// The kinds of message the output styles show.
#[derive(Debug, Clone, Copy, PartialEq, Eq, Structural)]
pub enum LineKind {
    Success,
    Error,
    Warn,
    Skip,
    Run,
    Header,
    Meta,
    TreeLine,
    Verbose,
    SummaryBar,
}

/// `s` right-aligned in a field of 12 characters (`{:>12}`).
pub open spec fn right12(s: Seq<char>) -> Seq<char> {
    if s.len() < 12 {
        Seq::new((12 - s.len()) as nat, |i: int| ' ') + s
    } else {
        s
    }
}

/// `icon verb msg`, or `icon msg` without a verb.
pub open spec fn iconed(icon: Seq<char>, verb: Seq<char>, msg: Seq<char>) -> Seq<char> {
    if verb.len() == 0 {
        icon + " "@ + msg
    } else {
        icon + " "@ + verb + " "@ + msg
    }
}

/// The lines (without colors) a style prints for a message: the default
/// style leads with an icon, the minimal one prints the words alone, the
/// cargo-like one right-aligns the verb.
pub open spec fn style_lines(mode: StyleMode, kind: LineKind, verb: Seq<char>, msg: Seq<char>) -> Seq<Seq<char>> {
    match kind {
        LineKind::Meta => match mode {
            StyleMode::CargoLike => seq![right12(Seq::empty()), "             "@ + msg],
            _ => seq!["  "@ + msg],
        },
        LineKind::TreeLine => seq!["  "@ + msg],
        LineKind::Verbose => seq!["  $ "@ + msg],
        LineKind::Header => match mode {
            StyleMode::Default => seq![Seq::empty(), "▸ "@ + msg],
            StyleMode::Minimal => seq![msg],
            StyleMode::CargoLike => Seq::empty(),
        },
        LineKind::SummaryBar => match mode {
            StyleMode::Default => seq![Seq::new(40, |i: int| '━')],
            _ => Seq::empty(),
        },
        _ => match mode {
            StyleMode::Default => seq![
                match kind {
                    LineKind::Success => iconed("✔"@, verb, msg),
                    LineKind::Error => iconed("✖"@, verb, msg),
                    LineKind::Warn => "⚠"@ + " "@ + verb + " "@ + msg,
                    LineKind::Skip => "⊘"@ + " "@ + verb + " "@ + msg,
                    _ => "▶"@ + " "@ + verb + " "@ + msg,
                },
            ],
            StyleMode::Minimal => seq![
                if verb.len() == 0 && (kind == LineKind::Success || kind == LineKind::Error) {
                    msg
                } else {
                    verb + " "@ + msg
                },
            ],
            StyleMode::CargoLike => seq![
                if verb.len() == 0 && kind == LineKind::Error {
                    "error"@
                } else {
                    right12(verb) + " "@ + msg
                },
            ],
        },
    }
}

fn right_aligned(s: &str) -> (r: String)
    ensures
        r@ == right12(s@),
{
    let n = s.unicode_len();
    let mut r = String::new();
    if n < 12 {
        let mut i: usize = 0;
        while i < 12 - n
            invariant
                n < 12,
                i <= 12 - n,
                r@ == Seq::new(i as nat, |j: int| ' '),
            decreases 12 - n - i,
        {
            crate::text::push_char(&mut r, ' ');
            assert(r@ =~= Seq::new((i + 1) as nat, |j: int| ' '));
            i += 1;
        }
    }
    r.append(s);
    assert(r@ =~= right12(s@));
    r
}

fn icon_line(icon: &str, verb: &str, msg: &str, verb_optional: bool) -> (r: String)
    ensures
        verb_optional ==> r@ == iconed(icon@, verb@, msg@),
        !verb_optional ==> r@ == icon@ + " "@ + verb@ + " "@ + msg@,
{
    let mut r = icon.to_string();
    r.append(" ");
    if !(verb_optional && verb.unicode_len() == 0) {
        r.append(verb);
        r.append(" ");
    }
    r.append(msg);
    proof {
        if verb_optional && verb@.len() == 0 {
            assert(r@ =~= iconed(icon@, verb@, msg@));
        } else {
            assert(r@ =~= icon@ + " "@ + verb@ + " "@ + msg@);
        }
    }
    r
}

/// The lines a style prints for a message of a kind, in order.
pub fn styled_lines(mode: StyleMode, kind: LineKind, verb: &str, msg: &str) -> (r: Vec<String>)
    ensures
        strs(r@) == style_lines(mode, kind, verb@, msg@),
{
    let mut r: Vec<String> = Vec::new();
    match kind {
        LineKind::Meta => match mode {
            StyleMode::CargoLike => {
                r.push(right_aligned(""));
                r.push(concat("             ", msg));
            },
            _ => r.push(concat("  ", msg)),
        },
        LineKind::TreeLine => r.push(concat("  ", msg)),
        LineKind::Verbose => r.push(concat("  $ ", msg)),
        LineKind::Header => match mode {
            StyleMode::Default => {
                r.push(String::new());
                r.push(concat("▸ ", msg));
            },
            StyleMode::Minimal => r.push(msg.to_string()),
            StyleMode::CargoLike => {},
        },
        LineKind::SummaryBar => match mode {
            StyleMode::Default => {
                let mut bar = String::new();
                let mut i: usize = 0;
                while i < 40
                    invariant
                        i <= 40,
                        bar@ == Seq::new(i as nat, |j: int| '━'),
                    decreases 40 - i,
                {
                    crate::text::push_char(&mut bar, '━');
                    assert(bar@ =~= Seq::new((i + 1) as nat, |j: int| '━'));
                    i += 1;
                }
                r.push(bar);
            },
            _ => {},
        },
        _ => match mode {
            StyleMode::Default => {
                let line = match kind {
                    LineKind::Success => icon_line("✔", verb, msg, true),
                    LineKind::Error => icon_line("✖", verb, msg, true),
                    LineKind::Warn => icon_line("⚠", verb, msg, false),
                    LineKind::Skip => icon_line("⊘", verb, msg, false),
                    _ => icon_line("▶", verb, msg, false),
                };
                r.push(line);
            },
            StyleMode::Minimal => {
                if verb.unicode_len() == 0 && (kind == LineKind::Success || kind == LineKind::Error) {
                    r.push(msg.to_string());
                } else {
                    let a = concat(verb, " ");
                    r.push(concat(a.as_str(), msg));
                }
            },
            StyleMode::CargoLike => {
                if verb.unicode_len() == 0 && kind == LineKind::Error {
                    r.push("error".to_string());
                } else {
                    let a = right_aligned(verb);
                    let b = concat(a.as_str(), " ");
                    r.push(concat(b.as_str(), msg));
                }
            },
        },
    }
    proof {
        reveal_strlit("");
    }
    assert(strs(r@) =~= style_lines(mode, kind, verb@, msg@));
    r
}

/// Where a build step is.
#[derive(Debug, Clone, Copy, PartialEq, Eq, Structural)]
pub enum StepPhase {
    Running,
    Done,
    Failed,
}

/// `[current/total]`.
pub open spec fn progress_text(step: BuildStep) -> Seq<char> {
    "["@ + decimal(step.current as nat) + "/"@ + decimal(step.total as nat) + "]"@
}

/// What a style shows of a build step: the default style a running line
/// and then a done or failed line; the minimal style only `[c/t] action
/// file` while it runs; the cargo-like one only the action and file.
pub open spec fn step_text(mode: StyleMode, step: BuildStep, phase: StepPhase) -> Seq<Seq<char>> {
    match mode {
        StyleMode::Default => match phase {
            StepPhase::Running => seq![step.action@ + " "@ + step.file@ + " "@ + progress_text(step)],
            StepPhase::Done => style_lines(mode, LineKind::Success, step.done_verb@, step.file@ + " "@ + progress_text(step)),
            StepPhase::Failed => style_lines(mode, LineKind::Error, "Failed"@, step.file@ + " "@ + progress_text(step)),
        },
        StyleMode::Minimal => match phase {
            StepPhase::Running => seq![progress_text(step) + " "@ + step.action@ + " "@ + step.file@],
            _ => Seq::empty(),
        },
        StyleMode::CargoLike => match phase {
            StepPhase::Running => style_lines(mode, LineKind::Success, step.action@, step.file@),
            _ => Seq::empty(),
        },
    }
}

pub fn step_lines(mode: StyleMode, step: &BuildStep, phase: StepPhase) -> (r: Vec<String>)
    ensures
        strs(r@) == step_text(mode, *step, phase),
{
    match mode {
        StyleMode::Default => match phase {
            StepPhase::Running => {
                let l = step.running_line();
                assert(l@ =~= step.action@ + " "@ + step.file@ + " "@ + progress_text(*step));
                let v = vec![l];
                assert(strs(v@) =~= step_text(mode, *step, phase));
                v
            },
            StepPhase::Done => {
                let fp = step.file_progress();
                assert(fp@ =~= step.file@ + " "@ + progress_text(*step));
                styled_lines(mode, LineKind::Success, step.done_verb, fp.as_str())
            },
            StepPhase::Failed => {
                let fp = step.file_progress();
                assert(fp@ =~= step.file@ + " "@ + progress_text(*step));
                styled_lines(mode, LineKind::Error, "Failed", fp.as_str())
            },
        },
        StyleMode::Minimal => match phase {
            StepPhase::Running => {
                let p = step.progress();
                assert(p@ =~= progress_text(*step));
                let a = concat(p.as_str(), " ");
                let b = concat(a.as_str(), step.action.as_str());
                let c = concat(b.as_str(), " ");
                let v = vec![concat(c.as_str(), step.file.as_str())];
                assert(strs(v@) =~= step_text(mode, *step, phase));
                v
            },
            _ => {
                let v: Vec<String> = Vec::new();
                assert(strs(v@) =~= step_text(mode, *step, phase));
                v
            },
        },
        StyleMode::CargoLike => match phase {
            StepPhase::Running => styled_lines(mode, LineKind::Success, step.action.as_str(), step.file.as_str()),
            _ => {
                let v: Vec<String> = Vec::new();
                assert(strs(v@) =~= step_text(mode, *step, phase));
                v
            },
        },
    }
}

} // verus!
