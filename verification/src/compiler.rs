//! The compilers a build drives, and the command lines they are given.
use vstd::prelude::*;
use crate::manifest::{
    c_standard_flag, cpp_standard_flag, linker_name, opt_level_flag, CStandard, CompilerKind,
    CppStandard, LinkerKind, LtoMode, OptLevel, Sanitizer, WarningLevel,
};
use crate::text::{
    chars_of, concat, contains_sub, find_char, first_index, parse_u64, parse_u64_spec, split_char,
    split_on, split_whitespace, str_contains, str_trim, string_of, strs, tokens, trim,
};

verus! {

/// The name of a sanitizer in `-fsanitize=`.
pub open spec fn sanitizer_name(s: Sanitizer) -> Seq<char> {
    match s {
        Sanitizer::Address => "address"@,
        Sanitizer::Undefined => "undefined"@,
        Sanitizer::Thread => "thread"@,
        Sanitizer::Memory => "memory"@,
    }
}

pub fn san_flag(s: &Sanitizer) -> (r: &'static str)
    ensures
        r@ == sanitizer_name(*s),
{
    match s {
        Sanitizer::Address => "address",
        Sanitizer::Undefined => "undefined",
        Sanitizer::Thread => "thread",
        Sanitizer::Memory => "memory",
    }
}

/// What a source file is compiled with.
#[derive(Debug, Clone)]
pub struct CompileFlags {
    pub cpp_standard: Option<CppStandard>,
    pub c_standard: Option<CStandard>,
    pub opt_level: OptLevel,
    pub debug: bool,
    pub assertions: bool,
    pub sanitize: Vec<Sanitizer>,
    pub pic: bool,
    pub rtti: bool,
    pub exceptions: bool,
    pub warnings: WarningLevel,
    pub coverage: bool,
    pub split_debug: bool,
    pub defines: Vec<String>,
    pub include_dirs: Vec<String>,
}

impl Default for CompileFlags {
    /// C++20, no optimisation, debug info and assertions, RTTI and
    /// exceptions, all warnings; nothing else.
    fn default() -> (r: Self)
        ensures
            r.cpp_standard == Some(CppStandard::Cpp20),
            r.c_standard is None,
            r.opt_level == OptLevel::O0,
            r.debug && r.assertions && r.rtti && r.exceptions,
            !r.pic && !r.coverage && !r.split_debug,
            r.warnings == WarningLevel::All,
            r.sanitize@.len() == 0,
            r.defines@.len() == 0,
            r.include_dirs@.len() == 0,
    {
        CompileFlags {
            cpp_standard: Some(CppStandard::Cpp20),
            c_standard: None,
            opt_level: OptLevel::O0,
            debug: true,
            assertions: true,
            sanitize: Vec::new(),
            pic: false,
            rtti: true,
            exceptions: true,
            warnings: WarningLevel::All,
            coverage: false,
            split_debug: false,
            defines: Vec::new(),
            include_dirs: Vec::new(),
        }
    }
}

/// What objects are linked with.
#[derive(Debug, Clone)]
pub struct LinkFlags {
    pub lib_dirs: Vec<String>,
    pub libs: Vec<String>,
    pub frameworks: Vec<String>,
    pub linker: Option<LinkerKind>,
    pub lto: LtoMode,
    pub strip: bool,
    pub static_runtime: bool,
    pub sanitize: Vec<Sanitizer>,
    pub coverage: bool,
}

impl Default for LinkFlags {
    /// Nothing to add: no directories, libraries or frameworks, the
    /// default linker, no LTO.
    fn default() -> (r: Self)
        ensures
            r.lib_dirs@.len() == 0 && r.libs@.len() == 0 && r.frameworks@.len() == 0,
            r.linker is None,
            r.lto == LtoMode::Off,
            !r.strip && !r.static_runtime && !r.coverage,
            r.sanitize@.len() == 0,
    {
        LinkFlags {
            lib_dirs: Vec::new(),
            libs: Vec::new(),
            frameworks: Vec::new(),
            linker: None,
            lto: LtoMode::Off,
            strip: false,
            static_runtime: false,
            sanitize: Vec::new(),
            coverage: false,
        }
    }
}

/// The content of compile flags.
pub struct FlagsView {
    pub cpp_standard: Option<CppStandard>,
    pub c_standard: Option<CStandard>,
    pub opt_level: OptLevel,
    pub debug: bool,
    pub assertions: bool,
    pub sanitize: Seq<Sanitizer>,
    pub pic: bool,
    pub rtti: bool,
    pub exceptions: bool,
    pub warnings: WarningLevel,
    pub coverage: bool,
    pub split_debug: bool,
    pub defines: Seq<Seq<char>>,
    pub include_dirs: Seq<Seq<char>>,
}

impl View for CompileFlags {
    type V = FlagsView;

    open spec fn view(&self) -> FlagsView {
        FlagsView {
            cpp_standard: self.cpp_standard,
            c_standard: self.c_standard,
            opt_level: self.opt_level,
            debug: self.debug,
            assertions: self.assertions,
            sanitize: self.sanitize@,
            pic: self.pic,
            rtti: self.rtti,
            exceptions: self.exceptions,
            warnings: self.warnings,
            coverage: self.coverage,
            split_debug: self.split_debug,
            defines: strs(self.defines@),
            include_dirs: strs(self.include_dirs@),
        }
    }
}

/// The content of link flags.
pub struct LinkFlagsView {
    pub lib_dirs: Seq<Seq<char>>,
    pub libs: Seq<Seq<char>>,
    pub frameworks: Seq<Seq<char>>,
    pub linker: Option<LinkerKind>,
    pub lto: LtoMode,
    pub strip: bool,
    pub static_runtime: bool,
    pub sanitize: Seq<Sanitizer>,
    pub coverage: bool,
}

impl View for LinkFlags {
    type V = LinkFlagsView;

    open spec fn view(&self) -> LinkFlagsView {
        LinkFlagsView {
            lib_dirs: strs(self.lib_dirs@),
            libs: strs(self.libs@),
            frameworks: strs(self.frameworks@),
            linker: self.linker,
            lto: self.lto,
            strip: self.strip,
            static_runtime: self.static_runtime,
            sanitize: self.sanitize@,
            coverage: self.coverage,
        }
    }
}

/// `p` put before each of `xs`.
pub open spec fn prefix_all(p: Seq<char>, xs: Seq<Seq<char>>) -> Seq<Seq<char>> {
    xs.map_values(|x: Seq<char>| p + x)
}

/// `s` put after each of `xs`.
pub open spec fn suffix_all(xs: Seq<Seq<char>>, s: Seq<char>) -> Seq<Seq<char>> {
    xs.map_values(|x: Seq<char>| x + s)
}

/// `a` when `c` holds, else nothing.
pub open spec fn opt_arg(c: bool, a: Seq<char>) -> Seq<Seq<char>> {
    if c {
        seq![a]
    } else {
        Seq::empty()
    }
}

/// `-framework <name>` for each framework.
pub open spec fn framework_args(fws: Seq<Seq<char>>) -> Seq<Seq<char>>
    decreases fws.len(),
{
    if fws.len() == 0 {
        Seq::empty()
    } else {
        framework_args(fws.drop_last()) + seq!["-framework"@, fws.last()]
    }
}

/// The `-std=` argument of a GCC-style compiler: the C++ standard if set,
/// else the C standard if set.
pub open spec fn gnu_std_args(f: FlagsView) -> Seq<Seq<char>> {
    match f.cpp_standard {
        Some(s) => seq!["-std="@ + cpp_standard_flag(s)],
        None => match f.c_standard {
            Some(c) => seq!["-std="@ + c_standard_flag(c)],
            None => Seq::empty(),
        },
    }
}

/// The compile command line of clang and gcc.
pub open spec fn gnu_compile_args(src: Seq<char>, obj: Seq<char>, dep: Seq<char>, f: FlagsView) -> Seq<
    Seq<char>,
> {
    seq!["-c"@] + gnu_std_args(f) + seq!["-O"@ + opt_level_flag(f.opt_level)] + opt_arg(f.debug, "-g"@)
        + prefix_all("-D"@, f.defines) + prefix_all("-I"@, f.include_dirs) + seq![
        "-MD"@,
        "-MF"@,
        dep,
        "-o"@,
        obj,
        src,
    ]
}

/// The `-fuse-ld=` argument, when a linker is chosen.
pub open spec fn fuse_ld_args(l: Option<LinkerKind>) -> Seq<Seq<char>> {
    match l {
        Some(k) => seq!["-fuse-ld="@ + linker_name(k)],
        None => Seq::empty(),
    }
}

/// The link command line of clang.
pub open spec fn clang_link_args(objects: Seq<Seq<char>>, out: Seq<char>, f: LinkFlagsView) -> Seq<Seq<char>> {
    fuse_ld_args(f.linker) + prefix_all("-L"@, f.lib_dirs) + seq!["-o"@, out] + objects
        + prefix_all("-l"@, f.libs)
}

/// The link command line of gcc: clang's, then the frameworks.
pub open spec fn gcc_link_args(objects: Seq<Seq<char>>, out: Seq<char>, f: LinkFlagsView) -> Seq<Seq<char>> {
    clang_link_args(objects, out, f) + framework_args(f.frameworks)
}

pub open spec fn msvc_std_args(f: FlagsView) -> Seq<Seq<char>> {
    match f.cpp_standard {
        Some(CppStandard::Cpp17) => seq!["/std:c++17"@],
        Some(CppStandard::Cpp20) => seq!["/std:c++20"@],
        Some(_) => seq!["/std:c++latest"@],
        None => Seq::empty(),
    }
}

pub open spec fn msvc_opt_arg(o: OptLevel) -> Seq<char> {
    match o {
        OptLevel::O0 => "/Od"@,
        OptLevel::O1 | OptLevel::Os | OptLevel::Oz => "/O1"@,
        OptLevel::O2 | OptLevel::O3 => "/O2"@,
    }
}

/// RTTI and exception arguments, given only for C++.
pub open spec fn msvc_cpp_args(f: FlagsView) -> Seq<Seq<char>> {
    if f.cpp_standard is Some {
        opt_arg(!f.rtti, "/GR-"@) + opt_arg(f.exceptions, "/EHsc"@)
    } else {
        Seq::empty()
    }
}

pub open spec fn msvc_warning_args(w: WarningLevel) -> Seq<Seq<char>> {
    match w {
        WarningLevel::Default => seq!["/W3"@],
        WarningLevel::All => seq!["/W4"@],
        WarningLevel::Extra => seq!["/Wall"@],
        WarningLevel::Error => seq!["/W4"@, "/WX"@],
    }
}

/// The compile command line of MSVC (dependencies come from
/// `/showIncludes`, so no depfile is named).
pub open spec fn msvc_compile_args(src: Seq<char>, obj: Seq<char>, f: FlagsView) -> Seq<Seq<char>> {
    seq!["/c"@, "/nologo"@] + msvc_std_args(f) + seq![msvc_opt_arg(f.opt_level)] + opt_arg(f.debug, "/Zi"@)
        + opt_arg(!f.assertions, "/DNDEBUG"@) + msvc_cpp_args(f) + msvc_warning_args(f.warnings)
        + opt_arg(f.coverage, "/PROFILE"@) + prefix_all("/D"@, f.defines) + prefix_all(
        "/I"@,
        f.include_dirs,
    ) + seq!["/showIncludes"@, "/Fo"@ + obj, src]
}

proof fn lemma_no_ndebug_in_head(f: FlagsView)
    ensures
        !(seq!["/c"@, "/nologo"@] + msvc_std_args(f) + seq![msvc_opt_arg(f.opt_level)] + opt_arg(
            f.debug,
            "/Zi"@,
        )).contains("/DNDEBUG"@),
{
    broadcast use vstd::seq_lib::lemma_seq_concat_contains_all_elements;

    reveal_strlit("/DNDEBUG");
    reveal_strlit("/c");
    reveal_strlit("/nologo");
    reveal_strlit("/std:c++17");
    reveal_strlit("/std:c++20");
    reveal_strlit("/std:c++latest");
    reveal_strlit("/Od");
    reveal_strlit("/O1");
    reveal_strlit("/O2");
    reveal_strlit("/Zi");
    let nd = "/DNDEBUG"@;
    let a = seq!["/c"@, "/nologo"@] + msvc_std_args(f) + seq![msvc_opt_arg(f.opt_level)] + opt_arg(f.debug, "/Zi"@);
    assert forall|k: int| 0 <= k < a.len() implies a[k] != nd by {
        assert(a[k][1] != nd[1]);
    }
}

proof fn lemma_no_ndebug_in_middle(f: FlagsView)
    ensures
        !(msvc_cpp_args(f) + msvc_warning_args(f.warnings) + opt_arg(f.coverage, "/PROFILE"@)).contains(
            "/DNDEBUG"@,
        ),
{
    broadcast use vstd::seq_lib::lemma_seq_concat_contains_all_elements;

    reveal_strlit("/DNDEBUG");
    reveal_strlit("/GR-");
    reveal_strlit("/EHsc");
    reveal_strlit("/W3");
    reveal_strlit("/W4");
    reveal_strlit("/Wall");
    reveal_strlit("/WX");
    reveal_strlit("/PROFILE");
    let nd = "/DNDEBUG"@;
    let c = msvc_cpp_args(f) + msvc_warning_args(f.warnings) + opt_arg(f.coverage, "/PROFILE"@);
    assert forall|k: int| 0 <= k < c.len() implies c[k] != nd by {
        assert(c[k][1] != nd[1]);
    }
}

proof fn lemma_no_ndebug_in_defines(defines: Seq<Seq<char>>)
    requires
        !defines.contains("NDEBUG"@),
    ensures
        !prefix_all("/D"@, defines).contains("/DNDEBUG"@),
{
    reveal_strlit("/DNDEBUG");
    reveal_strlit("NDEBUG");
    reveal_strlit("/D");
    let nd = "/DNDEBUG"@;
    let d = prefix_all("/D"@, defines);
    assert forall|k: int| 0 <= k < d.len() implies d[k] != nd by {
        if d[k] == nd {
            let x = defines[k];
            assert(d[k] == "/D"@ + x);
            assert(("/D"@ + x).subrange(2, 2 + x.len() as int) =~= x);
            assert(nd.subrange(2, 8) =~= "NDEBUG"@);
            assert(defines[k] == "NDEBUG"@);
        }
    }
}

proof fn lemma_no_ndebug_in_tail(dirs: Seq<Seq<char>>, obj: Seq<char>, src: Seq<char>)
    requires
        src != "/DNDEBUG"@,
    ensures
        !(prefix_all("/I"@, dirs) + seq!["/showIncludes"@, "/Fo"@ + obj, src]).contains("/DNDEBUG"@),
{
    broadcast use vstd::seq_lib::lemma_seq_concat_contains_all_elements;

    reveal_strlit("/DNDEBUG");
    reveal_strlit("/I");
    reveal_strlit("/Fo");
    reveal_strlit("/showIncludes");
    let nd = "/DNDEBUG"@;
    let e = prefix_all("/I"@, dirs);
    assert forall|k: int| 0 <= k < e.len() implies e[k] != nd by {
        assert(e[k] == "/I"@ + dirs[k]);
        assert(e[k][1] == 'I');
    }
    let t = seq!["/showIncludes"@, "/Fo"@ + obj, src];
    assert(("/Fo"@ + obj)[1] == 'F');
    assert forall|k: int| 0 <= k < t.len() implies t[k] != nd by {
        if k == 0 {
            assert(t[k][1] != nd[1]);
        }
        if k == 1 {
            assert(t[k][1] != nd[1]);
        }
    }
}

/// `/DNDEBUG` in an MSVC compile: given exactly when assertions are off
/// (unless a define of the manifest or the source's own name spells it).
pub proof fn lemma_msvc_ndebug_iff_no_assertions(src: Seq<char>, obj: Seq<char>, f: FlagsView)
    ensures
        !f.assertions ==> msvc_compile_args(src, obj, f).contains("/DNDEBUG"@),
        f.assertions && !f.defines.contains("NDEBUG"@) && src != "/DNDEBUG"@ ==> !msvc_compile_args(
            src,
            obj,
            f,
        ).contains("/DNDEBUG"@),
{
    let nd = "/DNDEBUG"@;
    let a = seq!["/c"@, "/nologo"@] + msvc_std_args(f) + seq![msvc_opt_arg(f.opt_level)] + opt_arg(f.debug, "/Zi"@);
    let b = opt_arg(!f.assertions, nd);
    let ab = a + b;
    let c1 = ab + msvc_cpp_args(f);
    let c2 = c1 + msvc_warning_args(f.warnings);
    let c3 = c2 + opt_arg(f.coverage, "/PROFILE"@);
    let d = c3 + prefix_all("/D"@, f.defines);
    let e = d + prefix_all("/I"@, f.include_dirs);
    let all = e + seq!["/showIncludes"@, "/Fo"@ + obj, src];
    assert(msvc_compile_args(src, obj, f) == all);
    if !f.assertions {
        assert(ab[a.len() as int] == nd);
        assert(all[a.len() as int] == nd);
    } else if !f.defines.contains("NDEBUG"@) && src != nd {
        assert(b =~= Seq::<Seq<char>>::empty());
        assert(ab =~= a);
        lemma_no_ndebug_in_head(f);
        lemma_no_ndebug_in_middle(f);
        let m = msvc_cpp_args(f) + msvc_warning_args(f.warnings) + opt_arg(f.coverage, "/PROFILE"@);
        assert(c3 =~= a + m);
        vstd::seq_lib::lemma_seq_concat_contains_all_elements(a, m, nd);
        lemma_no_ndebug_in_defines(f.defines);
        vstd::seq_lib::lemma_seq_concat_contains_all_elements(c3, prefix_all("/D"@, f.defines), nd);
        lemma_no_ndebug_in_tail(f.include_dirs, obj, src);
        let t = prefix_all("/I"@, f.include_dirs) + seq!["/showIncludes"@, "/Fo"@ + obj, src];
        assert(all =~= d + t);
        vstd::seq_lib::lemma_seq_concat_contains_all_elements(d, t, nd);
    }
}

/// The link command line of MSVC.
pub open spec fn msvc_link_args(objects: Seq<Seq<char>>, out: Seq<char>, f: LinkFlagsView) -> Seq<Seq<char>> {
    seq!["/nologo"@] + opt_arg(f.lto != LtoMode::Off, "/LTCG"@) + opt_arg(f.strip, "/DEBUG:NONE"@)
        + opt_arg(f.static_runtime, "/MT"@) + seq!["/OUT:"@ + out] + prefix_all(
        "/LIBPATH:"@,
        f.lib_dirs,
    ) + objects + suffix_all(f.libs, ".lib"@)
}

fn push_lit(args: &mut Vec<String>, s: &str)
    ensures
        strs(final(args)@) == strs(old(args)@) + seq![s@],
{
    let ghost before = strs(args@);
    args.push(s.to_string());
    assert(strs(args@) =~= before + seq![s@]);
}

fn push_if(args: &mut Vec<String>, c: bool, s: &str)
    ensures
        strs(final(args)@) == strs(old(args)@) + opt_arg(c, s@),
{
    if c {
        push_lit(args, s);
    } else {
        assert(strs(args@) =~= strs(args@) + opt_arg(c, s@));
    }
}

fn push_joined(args: &mut Vec<String>, p: &str, x: &str)
    ensures
        strs(final(args)@) == strs(old(args)@) + seq![p@ + x@],
{
    let ghost before = strs(args@);
    args.push(concat(p, x));
    assert(strs(args@) =~= before + seq![p@ + x@]);
}

fn push_all_prefixed(args: &mut Vec<String>, p: &str, xs: &Vec<String>)
    ensures
        strs(final(args)@) == strs(old(args)@) + prefix_all(p@, strs(xs@)),
{
    let ghost start = strs(args@);
    let mut i: usize = 0;
    while i < xs.len()
        invariant
            i <= xs.len(),
            strs(args@) == start + prefix_all(p@, strs(xs@).take(i as int)),
        decreases xs.len() - i,
    {
        push_joined(args, p, xs[i].as_str());
        assert(prefix_all(p@, strs(xs@).take(i + 1)) =~= prefix_all(p@, strs(xs@).take(i as int))
            + seq![p@ + xs@[i as int]@]);
        i += 1;
    }
    assert(strs(xs@).take(xs.len() as int) =~= strs(xs@));
}

fn push_all_suffixed(args: &mut Vec<String>, xs: &Vec<String>, s: &str)
    ensures
        strs(final(args)@) == strs(old(args)@) + suffix_all(strs(xs@), s@),
{
    let ghost start = strs(args@);
    let mut i: usize = 0;
    while i < xs.len()
        invariant
            i <= xs.len(),
            strs(args@) == start + suffix_all(strs(xs@).take(i as int), s@),
        decreases xs.len() - i,
    {
        let ghost before = strs(args@);
        args.push(concat(xs[i].as_str(), s));
        assert(strs(args@) =~= before + seq![xs@[i as int]@ + s@]);
        assert(suffix_all(strs(xs@).take(i + 1), s@) =~= suffix_all(strs(xs@).take(i as int), s@)
            + seq![xs@[i as int]@ + s@]);
        i += 1;
    }
    assert(strs(xs@).take(xs.len() as int) =~= strs(xs@));
}

fn push_all(args: &mut Vec<String>, xs: &[String])
    ensures
        strs(final(args)@) == strs(old(args)@) + strs(xs@),
{
    let ghost start = strs(args@);
    let mut i: usize = 0;
    while i < xs.len()
        invariant
            i <= xs.len(),
            strs(args@) == start + strs(xs@).take(i as int),
        decreases xs.len() - i,
    {
        push_lit(args, xs[i].as_str());
        assert(strs(xs@).take(i + 1) =~= strs(xs@).take(i as int) + seq![xs@[i as int]@]);
        i += 1;
    }
    assert(strs(xs@).take(xs.len() as int) =~= strs(xs@));
}

fn push_frameworks(args: &mut Vec<String>, fws: &Vec<String>)
    ensures
        strs(final(args)@) == strs(old(args)@) + framework_args(strs(fws@)),
{
    let ghost start = strs(args@);
    let mut i: usize = 0;
    while i < fws.len()
        invariant
            i <= fws.len(),
            strs(args@) == start + framework_args(strs(fws@).take(i as int)),
        decreases fws.len() - i,
    {
        push_lit(args, "-framework");
        push_lit(args, fws[i].as_str());
        assert(strs(fws@).take(i + 1).drop_last() =~= strs(fws@).take(i as int));
        i += 1;
    }
    assert(strs(fws@).take(fws.len() as int) =~= strs(fws@));
}

fn push_gnu_std(args: &mut Vec<String>, f: &CompileFlags)
    ensures
        strs(final(args)@) == strs(old(args)@) + gnu_std_args(f@),
{
    if let Some(s) = f.cpp_standard {
        push_joined(args, "-std=", s.as_flag());
    } else if let Some(c) = f.c_standard {
        push_joined(args, "-std=", c.as_flag());
    } else {
        assert(strs(args@) =~= strs(args@) + gnu_std_args(f@));
    }
}

fn push_fuse_ld(args: &mut Vec<String>, l: Option<LinkerKind>)
    ensures
        strs(final(args)@) == strs(old(args)@) + fuse_ld_args(l),
{
    if let Some(k) = l {
        push_joined(args, "-fuse-ld=", k.name());
    } else {
        assert(strs(args@) =~= strs(args@) + fuse_ld_args(l));
    }
}

fn gnu_compile(src: &str, obj: &str, depfile: &str, flags: &CompileFlags) -> (r: Vec<String>)
    ensures
        strs(r@) == gnu_compile_args(src@, obj@, depfile@, flags@),
{
    let mut args: Vec<String> = Vec::new();
    assert(strs(args@) =~= Seq::<Seq<char>>::empty());
    push_lit(&mut args, "-c");
    assert(strs(args@) =~= seq!["-c"@]);
    push_gnu_std(&mut args, flags);
    push_joined(&mut args, "-O", flags.opt_level.as_flag());
    push_if(&mut args, flags.debug, "-g");
    push_all_prefixed(&mut args, "-D", &flags.defines);
    push_all_prefixed(&mut args, "-I", &flags.include_dirs);
    let ghost mid = strs(args@);
    push_lit(&mut args, "-MD");
    push_lit(&mut args, "-MF");
    push_lit(&mut args, depfile);
    push_lit(&mut args, "-o");
    push_lit(&mut args, obj);
    push_lit(&mut args, src);
    assert(strs(args@) =~= mid + seq!["-MD"@, "-MF"@, depfile@, "-o"@, obj@, src@]);
    args
}

fn clang_link(objects: &[String], output: &str, flags: &LinkFlags) -> (r: Vec<String>)
    ensures
        strs(r@) == clang_link_args(strs(objects@), output@, flags@),
{
    let mut args: Vec<String> = Vec::new();
    assert(strs(args@) =~= Seq::<Seq<char>>::empty());
    push_fuse_ld(&mut args, flags.linker);
    assert(strs(args@) =~= fuse_ld_args(flags.linker));
    push_all_prefixed(&mut args, "-L", &flags.lib_dirs);
    let ghost mid = strs(args@);
    push_lit(&mut args, "-o");
    push_lit(&mut args, output);
    assert(strs(args@) =~= mid + seq!["-o"@, output@]);
    push_all(&mut args, objects);
    push_all_prefixed(&mut args, "-l", &flags.libs);
    args
}

/// A compiler: its names and how it is invoked.
pub trait Compiler {
    fn name(&self) -> &str;

    fn c_executable(&self) -> &str;

    fn cpp_executable(&self) -> &str;

    fn compile_args(&self, src: &str, obj: &str, depfile: &str, flags: &CompileFlags) -> Vec<String>;

    fn link_args(&self, objects: &[String], output: &str, flags: &LinkFlags) -> Vec<String>;

    fn syntax_only_flag(&self) -> &str;

    fn is_msvc(&self) -> bool;
}

/// Clang.
#[derive(Debug, Clone, Copy)]
pub struct ClangCompiler;

/// GCC.
#[derive(Debug, Clone, Copy)]
pub struct GccCompiler;

/// Microsoft's `cl`.
#[derive(Debug, Clone, Copy)]
pub struct MsvcCompiler;

impl Compiler for ClangCompiler {
    fn name(&self) -> (r: &str)
        ensures
            r@ == "clang"@,
    {
        "clang"
    }

    fn c_executable(&self) -> (r: &str)
        ensures
            r@ == "clang"@,
    {
        "clang"
    }

    fn cpp_executable(&self) -> (r: &str)
        ensures
            r@ == "clang++"@,
    {
        "clang++"
    }

    fn compile_args(&self, src: &str, obj: &str, depfile: &str, flags: &CompileFlags) -> (r: Vec<
        String,
    >)
        ensures
            strs(r@) == gnu_compile_args(src@, obj@, depfile@, flags@),
    {
        gnu_compile(src, obj, depfile, flags)
    }

    fn link_args(&self, objects: &[String], output: &str, flags: &LinkFlags) -> (r: Vec<String>)
        ensures
            strs(r@) == clang_link_args(strs(objects@), output@, flags@),
    {
        clang_link(objects, output, flags)
    }

    fn syntax_only_flag(&self) -> (r: &str)
        ensures
            r@ == "-fsyntax-only"@,
    {
        "-fsyntax-only"
    }

    fn is_msvc(&self) -> (b: bool)
        ensures
            !b,
    {
        false
    }
}

impl Compiler for GccCompiler {
    fn name(&self) -> (r: &str)
        ensures
            r@ == "gcc"@,
    {
        "gcc"
    }

    fn c_executable(&self) -> (r: &str)
        ensures
            r@ == "gcc"@,
    {
        "gcc"
    }

    fn cpp_executable(&self) -> (r: &str)
        ensures
            r@ == "g++"@,
    {
        "g++"
    }

    fn compile_args(&self, src: &str, obj: &str, depfile: &str, flags: &CompileFlags) -> (r: Vec<
        String,
    >)
        ensures
            strs(r@) == gnu_compile_args(src@, obj@, depfile@, flags@),
    {
        gnu_compile(src, obj, depfile, flags)
    }

    fn link_args(&self, objects: &[String], output: &str, flags: &LinkFlags) -> (r: Vec<String>)
        ensures
            strs(r@) == gcc_link_args(strs(objects@), output@, flags@),
    {
        let mut args = clang_link(objects, output, flags);
        push_frameworks(&mut args, &flags.frameworks);
        args
    }

    fn syntax_only_flag(&self) -> (r: &str)
        ensures
            r@ == "-fsyntax-only"@,
    {
        "-fsyntax-only"
    }

    fn is_msvc(&self) -> (b: bool)
        ensures
            !b,
    {
        false
    }
}

fn push_msvc_std(args: &mut Vec<String>, f: &CompileFlags)
    ensures
        strs(final(args)@) == strs(old(args)@) + msvc_std_args(f@),
{
    match f.cpp_standard {
        Some(CppStandard::Cpp17) => push_lit(args, "/std:c++17"),
        Some(CppStandard::Cpp20) => push_lit(args, "/std:c++20"),
        Some(_) => push_lit(args, "/std:c++latest"),
        None => {
            assert(strs(args@) =~= strs(args@) + msvc_std_args(f@));
        },
    }
}

fn msvc_opt(o: OptLevel) -> (r: &'static str)
    ensures
        r@ == msvc_opt_arg(o),
{
    match o {
        OptLevel::O0 => "/Od",
        OptLevel::O1 | OptLevel::Os | OptLevel::Oz => "/O1",
        OptLevel::O2 | OptLevel::O3 => "/O2",
    }
}

fn push_msvc_cpp(args: &mut Vec<String>, f: &CompileFlags)
    ensures
        strs(final(args)@) == strs(old(args)@) + msvc_cpp_args(f@),
{
    if f.cpp_standard.is_some() {
        let ghost start = strs(args@);
        push_if(args, !f.rtti, "/GR-");
        push_if(args, f.exceptions, "/EHsc");
        assert(strs(args@) =~= start + (opt_arg(!f.rtti, "/GR-"@) + opt_arg(f.exceptions, "/EHsc"@)));
    } else {
        assert(strs(args@) =~= strs(args@) + msvc_cpp_args(f@));
    }
}

fn push_msvc_warnings(args: &mut Vec<String>, w: WarningLevel)
    ensures
        strs(final(args)@) == strs(old(args)@) + msvc_warning_args(w),
{
    match w {
        WarningLevel::Default => push_lit(args, "/W3"),
        WarningLevel::All => push_lit(args, "/W4"),
        WarningLevel::Extra => push_lit(args, "/Wall"),
        WarningLevel::Error => {
            let ghost start = strs(args@);
            push_lit(args, "/W4");
            push_lit(args, "/WX");
            assert(strs(args@) =~= start + seq!["/W4"@, "/WX"@]);
        },
    }
}

impl Compiler for MsvcCompiler {
    fn name(&self) -> (r: &str)
        ensures
            r@ == "msvc"@,
    {
        "msvc"
    }

    fn c_executable(&self) -> (r: &str)
        ensures
            r@ == "cl"@,
    {
        "cl"
    }

    fn cpp_executable(&self) -> (r: &str)
        ensures
            r@ == "cl"@,
    {
        "cl"
    }

    fn compile_args(&self, src: &str, obj: &str, depfile: &str, flags: &CompileFlags) -> (r: Vec<
        String,
    >)
        ensures
            strs(r@) == msvc_compile_args(src@, obj@, flags@),
            !flags.assertions ==> strs(r@).contains("/DNDEBUG"@),
            flags.assertions && !flags@.defines.contains("NDEBUG"@) && src@ != "/DNDEBUG"@ ==> !strs(r@).contains(
                "/DNDEBUG"@,
            ),
    {
        let mut args: Vec<String> = Vec::new();
        assert(strs(args@) =~= Seq::<Seq<char>>::empty());
        push_lit(&mut args, "/c");
        push_lit(&mut args, "/nologo");
        assert(strs(args@) =~= seq!["/c"@, "/nologo"@]);
        push_msvc_std(&mut args, flags);
        push_lit(&mut args, msvc_opt(flags.opt_level));
        push_if(&mut args, flags.debug, "/Zi");
        push_if(&mut args, !flags.assertions, "/DNDEBUG");
        push_msvc_cpp(&mut args, flags);
        push_msvc_warnings(&mut args, flags.warnings);
        push_if(&mut args, flags.coverage, "/PROFILE");
        push_all_prefixed(&mut args, "/D", &flags.defines);
        push_all_prefixed(&mut args, "/I", &flags.include_dirs);
        let ghost mid = strs(args@);
        push_lit(&mut args, "/showIncludes");
        push_joined(&mut args, "/Fo", obj);
        push_lit(&mut args, src);
        assert(strs(args@) =~= mid + seq!["/showIncludes"@, "/Fo"@ + obj@, src@]);
        proof {
            lemma_msvc_ndebug_iff_no_assertions(src@, obj@, flags@);
        }
        args
    }

    fn link_args(&self, objects: &[String], output: &str, flags: &LinkFlags) -> (r: Vec<String>)
        ensures
            strs(r@) == msvc_link_args(strs(objects@), output@, flags@),
    {
        let mut args: Vec<String> = Vec::new();
        assert(strs(args@) =~= Seq::<Seq<char>>::empty());
        push_lit(&mut args, "/nologo");
        assert(strs(args@) =~= seq!["/nologo"@]);
        let lto_on = match flags.lto {
            LtoMode::Off => false,
            _ => true,
        };
        push_if(&mut args, lto_on, "/LTCG");
        push_if(&mut args, flags.strip, "/DEBUG:NONE");
        push_if(&mut args, flags.static_runtime, "/MT");
        push_joined(&mut args, "/OUT:", output);
        push_all_prefixed(&mut args, "/LIBPATH:", &flags.lib_dirs);
        push_all(&mut args, objects);
        push_all_suffixed(&mut args, &flags.libs, ".lib");
        args
    }

    fn syntax_only_flag(&self) -> (r: &str)
        ensures
            r@ == "/Zs"@,
    {
        "/Zs"
    }

    fn is_msvc(&self) -> (b: bool)
        ensures
            !b,
    {
        false
    }
}

/// One of the compilers, chosen at run time.
#[derive(Debug, Clone, Copy)]
pub enum AnyCompiler {
    Clang(ClangCompiler),
    Gcc(GccCompiler),
    Msvc(MsvcCompiler),
}

/// The C compiler executable of a compiler.
pub open spec fn c_exe_of(c: AnyCompiler) -> Seq<char> {
    match c {
        AnyCompiler::Clang(_) => "clang"@,
        AnyCompiler::Gcc(_) => "gcc"@,
        AnyCompiler::Msvc(_) => "cl"@,
    }
}

/// The C++ compiler executable of a compiler.
pub open spec fn cpp_exe_of(c: AnyCompiler) -> Seq<char> {
    match c {
        AnyCompiler::Clang(_) => "clang++"@,
        AnyCompiler::Gcc(_) => "g++"@,
        AnyCompiler::Msvc(_) => "cl"@,
    }
}

/// The compile command line (without the executable) a compiler is given.
pub open spec fn compile_args_of(
    c: AnyCompiler,
    src: Seq<char>,
    obj: Seq<char>,
    dep: Seq<char>,
    f: FlagsView,
) -> Seq<Seq<char>> {
    match c {
        AnyCompiler::Msvc(_) => msvc_compile_args(src, obj, f),
        _ => gnu_compile_args(src, obj, dep, f),
    }
}

/// The link command line (without the executable) a compiler is given.
pub open spec fn link_args_of(c: AnyCompiler, objects: Seq<Seq<char>>, out: Seq<char>, f: LinkFlagsView) -> Seq<
    Seq<char>,
> {
    match c {
        AnyCompiler::Clang(_) => clang_link_args(objects, out, f),
        AnyCompiler::Gcc(_) => gcc_link_args(objects, out, f),
        AnyCompiler::Msvc(_) => msvc_link_args(objects, out, f),
    }
}

impl Compiler for AnyCompiler {
    fn name(&self) -> (r: &str)
        ensures
            r@ == match self {
                AnyCompiler::Clang(_) => "clang"@,
                AnyCompiler::Gcc(_) => "gcc"@,
                AnyCompiler::Msvc(_) => "msvc"@,
            },
    {
        match self {
            AnyCompiler::Clang(c) => c.name(),
            AnyCompiler::Gcc(c) => c.name(),
            AnyCompiler::Msvc(c) => c.name(),
        }
    }

    fn c_executable(&self) -> (r: &str)
        ensures
            r@ == c_exe_of(*self),
    {
        match self {
            AnyCompiler::Clang(c) => c.c_executable(),
            AnyCompiler::Gcc(c) => c.c_executable(),
            AnyCompiler::Msvc(c) => c.c_executable(),
        }
    }

    fn cpp_executable(&self) -> (r: &str)
        ensures
            r@ == cpp_exe_of(*self),
    {
        match self {
            AnyCompiler::Clang(c) => c.cpp_executable(),
            AnyCompiler::Gcc(c) => c.cpp_executable(),
            AnyCompiler::Msvc(c) => c.cpp_executable(),
        }
    }

    fn compile_args(&self, src: &str, obj: &str, depfile: &str, flags: &CompileFlags) -> (r: Vec<
        String,
    >)
        ensures
            strs(r@) == compile_args_of(*self, src@, obj@, depfile@, flags@),
    {
        match self {
            AnyCompiler::Clang(c) => c.compile_args(src, obj, depfile, flags),
            AnyCompiler::Gcc(c) => c.compile_args(src, obj, depfile, flags),
            AnyCompiler::Msvc(c) => c.compile_args(src, obj, depfile, flags),
        }
    }

    fn link_args(&self, objects: &[String], output: &str, flags: &LinkFlags) -> (r: Vec<String>)
        ensures
            strs(r@) == link_args_of(*self, strs(objects@), output@, flags@),
    {
        match self {
            AnyCompiler::Clang(c) => c.link_args(objects, output, flags),
            AnyCompiler::Gcc(c) => c.link_args(objects, output, flags),
            AnyCompiler::Msvc(c) => c.link_args(objects, output, flags),
        }
    }

    fn syntax_only_flag(&self) -> (r: &str)
        ensures
            r@ == match self {
                AnyCompiler::Msvc(_) => "/Zs"@,
                _ => "-fsyntax-only"@,
            },
    {
        match self {
            AnyCompiler::Clang(c) => c.syntax_only_flag(),
            AnyCompiler::Gcc(c) => c.syntax_only_flag(),
            AnyCompiler::Msvc(c) => c.syntax_only_flag(),
        }
    }

    fn is_msvc(&self) -> (b: bool)
        ensures
            !b,
    {
        match self {
            AnyCompiler::Clang(c) => c.is_msvc(),
            AnyCompiler::Gcc(c) => c.is_msvc(),
            AnyCompiler::Msvc(c) => c.is_msvc(),
        }
    }
}

/// The compiler that drives a compiler kind: clang also for `clang-cl`.
pub fn create_compiler(kind: CompilerKind) -> (r: AnyCompiler)
    ensures
        match kind {
            CompilerKind::Clang | CompilerKind::ClangCl => r is Clang,
            CompilerKind::Gcc => r is Gcc,
            CompilerKind::Msvc => r is Msvc,
        },
{
    match kind {
        CompilerKind::Clang | CompilerKind::ClangCl => AnyCompiler::Clang(ClangCompiler),
        CompilerKind::Gcc => AnyCompiler::Gcc(GccCompiler),
        CompilerKind::Msvc => AnyCompiler::Msvc(MsvcCompiler),
    }
}

/// The operating system a build targets, as far as file names depend on it.
#[derive(Debug, Clone, Copy, PartialEq, Eq, Structural)]
pub enum TargetOs {
    Windows,
    MacOs,
    Unix,
}

pub fn executable_extension(os: TargetOs) -> (r: &'static str)
    ensures
        r@ == (if os == TargetOs::Windows {
            ".exe"@
        } else {
            ""@
        }),
{
    match os {
        TargetOs::Windows => ".exe",
        _ => "",
    }
}

pub fn static_lib_extension(os: TargetOs) -> (r: &'static str)
    ensures
        r@ == (if os == TargetOs::Windows {
            ".lib"@
        } else {
            ".a"@
        }),
{
    match os {
        TargetOs::Windows => ".lib",
        _ => ".a",
    }
}

pub fn static_lib_prefix(os: TargetOs) -> (r: &'static str)
    ensures
        r@ == (if os == TargetOs::Windows {
            ""@
        } else {
            "lib"@
        }),
{
    match os {
        TargetOs::Windows => "",
        _ => "lib",
    }
}

pub fn shared_lib_extension(os: TargetOs) -> (r: &'static str)
    ensures
        r@ == match os {
            TargetOs::MacOs => ".dylib"@,
            TargetOs::Windows => ".dll"@,
            TargetOs::Unix => ".so"@,
        },
{
    match os {
        TargetOs::MacOs => ".dylib",
        TargetOs::Windows => ".dll",
        TargetOs::Unix => ".so",
    }
}

/// A compiler found on the machine.
#[derive(Debug, Clone)]
pub struct DetectedCompiler {
    pub kind: CompilerKind,
    pub path: String,
    pub version: String,
}

/// The executable probed for a compiler kind.
pub open spec fn probe_executable(kind: CompilerKind) -> Seq<char> {
    match kind {
        CompilerKind::Clang => "clang++"@,
        CompilerKind::Gcc => "g++"@,
        CompilerKind::Msvc => "cl"@,
        CompilerKind::ClangCl => "clang-cl"@,
    }
}

pub fn probe_executable_of(kind: CompilerKind) -> (r: &'static str)
    ensures
        r@ == probe_executable(kind),
{
    match kind {
        CompilerKind::Clang => "clang++",
        CompilerKind::Gcc => "g++",
        CompilerKind::Msvc => "cl",
        CompilerKind::ClangCl => "clang-cl",
    }
}

/// `w` up to its first `-` (all of it when it has none).
pub open spec fn before_dash(w: Seq<char>) -> Seq<char> {
    match first_index(w, '-') {
        Some(k) => w.subrange(0, k),
        None => w,
    }
}

/// What `parse::<u32>` accepts.
pub open spec fn is_u32_text(p: Seq<char>) -> bool {
    parse_u64_spec(p) matches Some(n) && n <= u32::MAX
}

/// Two or more dot-separated `u32` numbers.
pub open spec fn version_like(c: Seq<char>) -> bool {
    let parts = split_on(c, '.');
    parts.len() >= 2 && forall|i: int| 0 <= i < parts.len() ==> is_u32_text(#[trigger] parts[i])
}

/// The first word whose part before any `-` reads as a version.
pub open spec fn first_version(words: Seq<Seq<char>>) -> Option<Seq<char>>
    decreases words.len(),
{
    if words.len() == 0 {
        None
    } else if version_like(before_dash(words[0])) {
        Some(before_dash(words[0]))
    } else {
        first_version(words.drop_first())
    }
}

fn all_u32(parts: &Vec<String>) -> (b: bool)
    ensures
        b == forall|i: int| 0 <= i < strs(parts@).len() ==> is_u32_text(#[trigger] strs(parts@)[i]),
{
    let mut i: usize = 0;
    while i < parts.len()
        invariant
            i <= parts.len(),
            forall|j: int| 0 <= j < i ==> is_u32_text(#[trigger] strs(parts@)[j]),
        decreases parts.len() - i,
    {
        let v = chars_of(parts[i].as_str());
        assert(strs(parts@)[i as int] == v@);
        match parse_u64(&v) {
            Some(n) => {
                if n > 4294967295u64 {
                    return false;
                }
            },
            None => {
                return false;
            },
        }
        i += 1;
    }
    true
}

/// The version a compiler prints in its banner: the first word that,
/// cut at its first `-`, is two or more dot-separated numbers.
pub fn parse_version(output: &str) -> (r: Option<String>)
    ensures
        match r {
            Some(v) => first_version(tokens(output@)) == Some(v@),
            None => first_version(tokens(output@)) is None,
        },
{
    let words = split_whitespace(output);
    let ghost ws = strs(words@);
    let mut i: usize = 0;
    assert(ws.skip(0) =~= ws);
    while i < words.len()
        invariant
            i <= words.len(),
            ws == strs(words@),
            ws == tokens(output@),
            first_version(ws) == first_version(ws.skip(i as int)),
        decreases words.len() - i,
    {
        let w = chars_of(words[i].as_str());
        let cand = match find_char(&w, '-') {
            Some(k) => string_of(&w, 0, k),
            None => words[i].clone(),
        };
        assert(cand@ == before_dash(ws[i as int]));
        let parts = split_char(cand.as_str(), '.');
        let ok = parts.len() >= 2 && all_u32(&parts);
        assert(ws.skip(i as int)[0] == ws[i as int]);
        assert(ws.skip(i as int).drop_first() =~= ws.skip(i + 1));
        if ok {
            return Some(cand);
        }
        i += 1;
    }
    None
}

/// The path `which` prints: its first line, trimmed; `None` when empty.
pub fn first_output_line(stdout: &str) -> (r: Option<String>)
    ensures
        match r {
            Some(p) => p@ == trim(before_newline(stdout@)) && p@.len() > 0,
            None => trim(before_newline(stdout@)).len() == 0,
        },
{
    let v = chars_of(stdout);
    let line = match find_char(&v, '\n') {
        Some(k) => string_of(&v, 0, k),
        None => stdout.to_string(),
    };
    let t = str_trim(line.as_str());
    if t.as_str().is_empty() {
        None
    } else {
        Some(t)
    }
}

/// `s` up to its first newline.
pub open spec fn before_newline(s: Seq<char>) -> Seq<char> {
    match first_index(s, '\n') {
        Some(k) => s.subrange(0, k),
        None => s,
    }
}

/// Whether what `cl` printed is a Microsoft compiler's banner.
pub fn is_msvc_banner(stderr: &str) -> (b: bool)
    ensures
        b == (contains_sub(stderr@, "Microsoft"@) || contains_sub(stderr@, "cl"@)),
{
    str_contains(stderr, "Microsoft") || str_contains(stderr, "cl")
}

/// The first compiler found, in the order tried (clang, then gcc, then MSVC).
pub fn first_detected(tried: Vec<Option<DetectedCompiler>>) -> (r: Option<DetectedCompiler>)
    ensures
        match r {
            Some(c) => exists|i: int| 0 <= i < tried@.len() && tried@[i] == Some(c) && forall|j: int|
                0 <= j < i ==> tried@[j] is None,
            None => forall|j: int| 0 <= j < tried@.len() ==> tried@[j] is None,
        },
{
    let mut list = tried;
    let ghost t = list@;
    let mut i: usize = 0;
    while i < list.len()
        invariant
            list@ == t,
            t == tried@,
            i <= t.len(),
            forall|j: int| 0 <= j < i ==> t[j] is None,
        decreases t.len() - i,
    {
        if list[i].is_some() {
            let c = list.remove(i);
            assert(t[i as int] == c);
            assert(c matches Some(x) && t[i as int] == Some(x));
            return c;
        }
        i += 1;
    }
    None
}

} // verus!
