//! The build graph: one compile task per source and the link tasks that
//! combine the objects, with the exact command line of each.
use vstd::prelude::*;
use crate::compiler::{
    c_exe_of, compile_args_of, cpp_exe_of, executable_extension, link_args_of, shared_lib_extension,
    static_lib_extension, static_lib_prefix, AnyCompiler, CompileFlags, Compiler, FlagsView, LinkFlags,
    LinkFlagsView, TargetOs,
};
use crate::manifest::PackageType;
use crate::text::{concat, join, join_strings, str_eq, strs};

verus! {

/// `Path::join`: `p` under `base` (or `p` itself when it is absolute).
pub uninterp spec fn joined_path(base: Seq<char>, p: Seq<char>) -> Seq<char>;

/// `Path::file_stem`: the file name without its extension, when the path
/// has a file name.
pub uninterp spec fn file_stem_opt(p: Seq<char>) -> Option<Seq<char>>;

/// The file stem, empty when the path has none.
pub open spec fn file_stem_of(p: Seq<char>) -> Seq<char> {
    match file_stem_opt(p) {
        Some(s) => s,
        None => Seq::empty(),
    }
}

/// `Path::extension`: what follows the last dot of the file name, if any.
pub uninterp spec fn extension_of(p: Seq<char>) -> Option<Seq<char>>;

/// `Path::parent`, when the path has one.
pub uninterp spec fn parent_opt(p: Seq<char>) -> Option<Seq<char>>;

/// The parent of a path, or `.` for a path without one.
pub open spec fn parent_or_dot(p: Seq<char>) -> Seq<char> {
    match parent_opt(p) {
        Some(s) => s,
        None => "."@,
    }
}

/// `std::path::Path::join`. Its result depends on its two arguments alone;
/// the contract names it and says no more.
#[verifier::external_body]
pub(crate) fn path_join(base: &str, p: &str) -> (r: String)
    ensures
        r@ == joined_path(base@, p@),
{
    std::path::Path::new(base).join(p).to_string_lossy().into_owned()
}

/// `std::path::Path::file_stem`, as a string; named, not stated.
#[verifier::external_body]
fn path_file_stem(p: &str) -> (r: Option<String>)
    ensures
        match r {
            Some(s) => file_stem_opt(p@) == Some(s@),
            None => file_stem_opt(p@) is None,
        },
{
    std::path::Path::new(p).file_stem().map(|s| s.to_string_lossy().into_owned())
}

/// The file stem of a path, empty when it has none.
pub(crate) fn path_stem(p: &str) -> (r: String)
    ensures
        r@ == file_stem_of(p@),
{
    match path_file_stem(p) {
        Some(s) => s,
        None => String::new(),
    }
}

/// `std::path::Path::extension`, as a string; named, not stated.
#[verifier::external_body]
pub(crate) fn path_extension(p: &str) -> (r: Option<String>)
    ensures
        match r {
            Some(e) => extension_of(p@) == Some(e@),
            None => extension_of(p@) is None,
        },
{
    std::path::Path::new(p).extension().and_then(|e| e.to_str()).map(|e| e.to_string())
}

/// `std::path::Path::parent`, as a string; named, not stated.
#[verifier::external_body]
fn path_parent_of(p: &str) -> (r: Option<String>)
    ensures
        match r {
            Some(s) => parent_opt(p@) == Some(s@),
            None => parent_opt(p@) is None,
        },
{
    std::path::Path::new(p).parent().map(|s| s.to_string_lossy().into_owned())
}

/// The parent of a path, or `.` for a path without one.
pub(crate) fn path_parent(p: &str) -> (r: String)
    ensures
        r@ == parent_or_dot(p@),
{
    match path_parent_of(p) {
        Some(s) => s,
        None => ".".to_string(),
    }
}

/// A C++ source, by its extension: `cpp`, `cc`, `cxx` or `C`.
pub open spec fn is_cpp_path(p: Seq<char>) -> bool {
    extension_of(p) matches Some(e) && (e == "cpp"@ || e == "cc"@ || e == "cxx"@ || e == "C"@)
}

pub fn is_cpp_source(p: &str) -> (b: bool)
    ensures
        b == is_cpp_path(p@),
{
    match path_extension(p) {
        Some(e) => str_eq(e.as_str(), "cpp") || str_eq(e.as_str(), "cc") || str_eq(e.as_str(), "cxx")
            || str_eq(e.as_str(), "C"),
        None => false,
    }
}

/// One compile step.
#[derive(Debug, Clone)]
pub struct BuildTask {
    pub source: String,
    pub object: String,
    pub depfile: String,
    pub command: Vec<String>,
    pub is_cpp: bool,
}

/// What a link step makes.
#[derive(Debug, Clone, Copy, PartialEq, Eq, Structural)]
pub enum LinkKind {
    Executable,
    StaticLibrary,
    SharedLibrary,
}

/// One link (or archive) step.
#[derive(Debug, Clone)]
pub struct LinkTask {
    pub objects: Vec<String>,
    pub output: String,
    pub command: Vec<String>,
    pub kind: LinkKind,
}

/// Everything a build runs.
#[derive(Debug, Clone)]
pub struct BuildGraph {
    pub tasks: Vec<BuildTask>,
    pub links: Vec<LinkTask>,
    pub project_root: String,
    pub build_dir: String,
}

/// What `is_msvc` reports of a compiler: none of them reports it.
pub open spec fn msvc_style(c: AnyCompiler) -> bool {
    false
}

/// The object file extension.
pub open spec fn obj_ext(c: AnyCompiler) -> Seq<char> {
    if msvc_style(c) {
        "obj"@
    } else {
        "o"@
    }
}

/// The flags for one language: a C++ source drops the C standard, a C
/// source the C++ one.
pub open spec fn for_language(f: FlagsView, cpp: bool) -> FlagsView {
    if cpp {
        FlagsView { c_standard: None, ..f }
    } else {
        FlagsView { cpp_standard: None, ..f }
    }
}

/// `f` with the two standards replaced.
pub open spec fn with_standards(
    f: FlagsView,
    c: Option<crate::manifest::CStandard>,
    cpp: Option<crate::manifest::CppStandard>,
) -> FlagsView {
    FlagsView { c_standard: c, cpp_standard: cpp, ..f }
}

/// The compiler executable for a source.
pub open spec fn exe_for(c: AnyCompiler, cpp: bool) -> Seq<char> {
    if cpp {
        cpp_exe_of(c)
    } else {
        c_exe_of(c)
    }
}

/// `-isystem <dir>` for each directory.
pub open spec fn isystem_args(dirs: Seq<Seq<char>>) -> Seq<Seq<char>>
    decreases dirs.len(),
{
    if dirs.len() == 0 {
        Seq::empty()
    } else {
        isystem_args(dirs.drop_last()) + seq!["-isystem"@, dirs.last()]
    }
}

/// The whole command that compiles `src` (relative to `root`).
pub open spec fn compile_command(
    c: AnyCompiler,
    root: Seq<char>,
    src: Seq<char>,
    obj: Seq<char>,
    dep: Seq<char>,
    f: FlagsView,
    sys: Seq<Seq<char>>,
) -> Seq<Seq<char>> {
    seq![exe_for(c, is_cpp_path(src))] + compile_args_of(
        c,
        joined_path(root, src),
        obj,
        dep,
        for_language(f, is_cpp_path(src)),
    ) + isystem_args(sys)
}

/// `t` compiles `src` into `<prefix><stem>.<ext>`, with depfile `<prefix><stem>.d`.
pub open spec fn source_task(
    t: BuildTask,
    c: AnyCompiler,
    root: Seq<char>,
    src: Seq<char>,
    prefix: Seq<char>,
    f: FlagsView,
    sys: Seq<Seq<char>>,
) -> bool {
    let stem = file_stem_of(src);
    &&& t.source@ == src
    &&& t.object@ == prefix + stem + "."@ + obj_ext(c)
    &&& t.depfile@ == prefix + stem + ".d"@
    &&& t.is_cpp == is_cpp_path(src)
    &&& strs(t.command@) == compile_command(c, root, src, t.object@, t.depfile@, f, sys)
}

/// Some source is C++.
pub open spec fn has_cpp(sources: Seq<Seq<char>>) -> bool {
    exists|i: int| 0 <= i < sources.len() && is_cpp_path(#[trigger] sources[i])
}

/// A package counts as C++ exactly when one of its sources, at whatever
/// position, has a C++ extension.
pub proof fn lemma_cpp_source_anywhere(sources: Seq<Seq<char>>, i: int)
    ensures
        0 <= i < sources.len() && is_cpp_path(sources[i]) ==> has_cpp(sources),
        (forall|j: int| 0 <= j < sources.len() ==> !is_cpp_path(#[trigger] sources[j])) ==> !has_cpp(sources),
{
}

/// A package that is not archived, linked by a GCC-style compiler, is
/// linked by the C++ driver when any of its sources is C++, and by the C
/// driver when none is.
pub proof fn lemma_link_driver(
    c: AnyCompiler,
    t: PackageType,
    sources: Seq<Seq<char>>,
    objects: Seq<Seq<char>>,
    out: Seq<char>,
    lf: LinkFlagsView,
)
    requires
        t != PackageType::StaticLibrary,
        !msvc_style(c),
    ensures
        package_link_command(c, t, sources, objects, out, lf).len() > 0,
        (exists|i: int| 0 <= i < sources.len() && is_cpp_path(#[trigger] sources[i])) ==> package_link_command(
            c,
            t,
            sources,
            objects,
            out,
            lf,
        )[0] == cpp_exe_of(c),
        (forall|i: int| 0 <= i < sources.len() ==> !is_cpp_path(#[trigger] sources[i])) ==> package_link_command(
            c,
            t,
            sources,
            objects,
            out,
            lf,
        )[0] == c_exe_of(c),
{
    if exists|i: int| 0 <= i < sources.len() && is_cpp_path(#[trigger] sources[i]) {
        let i = choose|i: int| 0 <= i < sources.len() && is_cpp_path(#[trigger] sources[i]);
        lemma_cpp_source_anywhere(sources, i);
    } else {
        lemma_cpp_source_anywhere(sources, 0);
    }
}

/// Where a package's artifact goes: beside the build directory.
pub open spec fn output_path(
    t: PackageType,
    os: TargetOs,
    build_dir: Seq<char>,
    name: Seq<char>,
) -> Seq<char> {
    let file = match t {
        PackageType::Executable => name + (if os == TargetOs::Windows {
            ".exe"@
        } else {
            ""@
        }),
        PackageType::StaticLibrary => (if os == TargetOs::Windows {
            ""@
        } else {
            "lib"@
        }) + name + (if os == TargetOs::Windows {
            ".lib"@
        } else {
            ".a"@
        }),
        PackageType::SharedLibrary => (if os == TargetOs::Windows {
            ""@
        } else {
            "lib"@
        }) + name + match os {
            TargetOs::MacOs => ".dylib"@,
            TargetOs::Windows => ".dll"@,
            TargetOs::Unix => ".so"@,
        },
    };
    joined_path(parent_or_dot(build_dir), file)
}

pub open spec fn link_kind_of(t: PackageType) -> LinkKind {
    match t {
        PackageType::Executable => LinkKind::Executable,
        PackageType::StaticLibrary => LinkKind::StaticLibrary,
        PackageType::SharedLibrary => LinkKind::SharedLibrary,
    }
}

/// The archive command.
pub open spec fn archive_command(c: AnyCompiler, out: Seq<char>, objects: Seq<Seq<char>>) -> Seq<Seq<char>> {
    if msvc_style(c) {
        seq!["lib.exe"@, "/nologo"@, "/OUT:"@ + out, join(objects, " "@)]
    } else {
        seq!["ar"@, "rcs"@, out] + objects
    }
}

/// The link command of a package.
pub open spec fn package_link_command(
    c: AnyCompiler,
    t: PackageType,
    sources: Seq<Seq<char>>,
    objects: Seq<Seq<char>>,
    out: Seq<char>,
    lf: LinkFlagsView,
) -> Seq<Seq<char>> {
    match t {
        PackageType::StaticLibrary => archive_command(c, out, objects),
        _ => {
            let exe = if msvc_style(c) {
                "link.exe"@
            } else {
                exe_for(c, has_cpp(sources))
            };
            let args = link_args_of(c, objects, out, lf);
            if t == PackageType::SharedLibrary && msvc_style(c) {
                seq![exe, "/nologo"@, "/DLL"@] + args
            } else if msvc_style(c) {
                seq![exe, "/nologo"@] + args
            } else if t == PackageType::SharedLibrary {
                seq![exe, "-shared"@] + args
            } else {
                seq![exe] + args
            }
        },
    }
}

fn push_str(v: &mut Vec<String>, s: &str)
    ensures
        strs(final(v)@) == strs(old(v)@) + seq![s@],
{
    let ghost before = strs(v@);
    v.push(s.to_string());
    assert(strs(v@) =~= before + seq![s@]);
}

fn append_system_includes(command: &mut Vec<String>, sys: &Vec<String>)
    ensures
        strs(final(command)@) == strs(old(command)@) + isystem_args(strs(sys@)),
{
    let ghost start = strs(command@);
    let mut i: usize = 0;
    while i < sys.len()
        invariant
            i <= sys.len(),
            strs(command@) == start + isystem_args(strs(sys@).take(i as int)),
        decreases sys.len() - i,
    {
        push_str(command, "-isystem");
        push_str(command, sys[i].as_str());
        assert(strs(sys@).take(i + 1).drop_last() =~= strs(sys@).take(i as int));
        i += 1;
    }
    assert(strs(sys@).take(sys.len() as int) =~= strs(sys@));
}

/// `[exe] + rest`.
fn prepend(exe: &str, rest: Vec<String>) -> (r: Vec<String>)
    ensures
        strs(r@) == seq![exe@] + strs(rest@),
{
    let mut r: Vec<String> = Vec::new();
    r.push(exe.to_string());
    let mut rest = rest;
    let ghost tail = strs(rest@);
    r.append(&mut rest);
    assert(strs(r@) =~= seq![exe@] + tail);
    r
}

/// Copies `v`.
fn copy_strings(v: &Vec<String>) -> (r: Vec<String>)
    ensures
        strs(r@) == strs(v@),
{
    let r = v.clone();
    assert(strs(r@) =~= strs(v@));
    r
}

/// The flags of `f` for one language (`f` is the shared flags; only the
/// standards change).
fn set_language(f: &mut CompileFlags, cpp: bool, c_std: Option<crate::manifest::CStandard>, cpp_std: Option<crate::manifest::CppStandard>)
    requires
        old(f).c_standard == c_std || old(f).c_standard is None,
        old(f).cpp_standard == cpp_std || old(f).cpp_standard is None,
    ensures
        final(f)@ == for_language(with_standards(old(f)@, c_std, cpp_std), cpp),
{
    if cpp {
        f.c_standard = None;
        f.cpp_standard = cpp_std;
    } else {
        f.c_standard = c_std;
        f.cpp_standard = None;
    }
}

/// Compiles one source: its object and depfile are `<prefix><stem>.<ext>`
/// and `<prefix><stem>.d`.
fn source_compile_task(
    compiler: &AnyCompiler,
    root: &str,
    src: &str,
    prefix: &str,
    flags: &mut CompileFlags,
    c_std: Option<crate::manifest::CStandard>,
    cpp_std: Option<crate::manifest::CppStandard>,
    sys: &Vec<String>,
) -> (t: BuildTask)
    requires
        old(flags).c_standard == c_std || old(flags).c_standard is None,
        old(flags).cpp_standard == cpp_std || old(flags).cpp_standard is None,
    ensures
        source_task(
            t,
            *compiler,
            root@,
            src@,
            prefix@,
            with_standards(old(flags)@, c_std, cpp_std),
            strs(sys@),
        ),
        final(flags)@ == for_language(with_standards(old(flags)@, c_std, cpp_std), is_cpp_path(src@)),
{
    let abs_src = path_join(root, src);
    let stem = path_stem(src);
    let ext = if compiler.is_msvc() {
        "obj"
    } else {
        "o"
    };
    let pre_stem = concat(prefix, stem.as_str());
    let with_dot = concat(pre_stem.as_str(), ".");
    let obj = concat(with_dot.as_str(), ext);
    let depfile = concat(pre_stem.as_str(), ".d");
    let cpp = is_cpp_source(src);
    set_language(flags, cpp, c_std, cpp_std);
    let args = compiler.compile_args(abs_src.as_str(), obj.as_str(), depfile.as_str(), flags);
    let exe = if cpp {
        compiler.cpp_executable()
    } else {
        compiler.c_executable()
    };
    let mut command = prepend(exe, args);
    append_system_includes(&mut command, sys);
    BuildTask { source: src.to_string(), object: obj, depfile, command, is_cpp: cpp }
}

/// Builds the graph of a package: compiles each source, then links (or
/// archives) the objects into the package's artifact.
pub struct BuildGraphBuilder {
    pub compiler: AnyCompiler,
    pub sources: Vec<String>,
    pub build_dir: String,
    pub project_root: String,
    pub output_name: String,
    pub package_type: PackageType,
    pub compile_flags: CompileFlags,
    pub link_flags: LinkFlags,
    pub system_include_dirs: Vec<String>,
    pub target_os: TargetOs,
}

impl BuildGraphBuilder {
    /// A builder; `system_include_dirs` are the compiler's own include
    /// directories, as the compiler reports them.
    pub fn new(
        compiler: AnyCompiler,
        sources: Vec<String>,
        build_dir: String,
        project_root: String,
        output_name: String,
        package_type: PackageType,
        compile_flags: CompileFlags,
        link_flags: LinkFlags,
        system_include_dirs: Vec<String>,
        target_os: TargetOs,
    ) -> (r: Self)
        ensures
            r.compiler == compiler,
            r.sources == sources,
            r.build_dir == build_dir,
            r.project_root == project_root,
            r.output_name == output_name,
            r.package_type == package_type,
            r.compile_flags == compile_flags,
            r.link_flags == link_flags,
            r.system_include_dirs == system_include_dirs,
            r.target_os == target_os,
    {
        BuildGraphBuilder {
            compiler,
            sources,
            build_dir,
            project_root,
            output_name,
            package_type,
            compile_flags,
            link_flags,
            system_include_dirs,
            target_os,
        }
    }

    /// Where the package's artifact goes.
    pub fn compute_output_path(&self) -> (r: String)
        ensures
            r@ == output_path(self.package_type, self.target_os, self.build_dir@, self.output_name@),
    {
        let dir = path_parent(self.build_dir.as_str());
        let os = self.target_os;
        let file = match self.package_type {
            PackageType::Executable => concat(self.output_name.as_str(), executable_extension(os)),
            PackageType::StaticLibrary => {
                let p = concat(static_lib_prefix(os), self.output_name.as_str());
                concat(p.as_str(), static_lib_extension(os))
            },
            PackageType::SharedLibrary => {
                let p = concat(static_lib_prefix(os), self.output_name.as_str());
                concat(p.as_str(), shared_lib_extension(os))
            },
        };
        path_join(dir.as_str(), file.as_str())
    }

    /// The link (or archive) step of the package, over `objects`.
    pub fn build_link_task(&self, objects: &Vec<String>) -> (r: LinkTask)
        ensures
            r.output@ == output_path(self.package_type, self.target_os, self.build_dir@, self.output_name@),
            r.kind == link_kind_of(self.package_type),
            strs(r.objects@) == strs(objects@),
            strs(r.command@) == package_link_command(
                self.compiler,
                self.package_type,
                strs(self.sources@),
                strs(objects@),
                r.output@,
                self.link_flags@,
            ),
            self.package_type != PackageType::StaticLibrary && !msvc_style(self.compiler) ==> r.command@.len() > 0
                && ((exists|i: int| 0 <= i < self.sources@.len() && is_cpp_path(#[trigger] self.sources@[i]@))
                ==> r.command@[0]@ == cpp_exe_of(self.compiler)) && ((forall|i: int|
                0 <= i < self.sources@.len() ==> !is_cpp_path(#[trigger] self.sources@[i]@))
                ==> r.command@[0]@ == c_exe_of(self.compiler)),
    {
        proof {
            if self.package_type != PackageType::StaticLibrary && !msvc_style(self.compiler) {
                let ss = strs(self.sources@);
                if exists|i: int| 0 <= i < self.sources@.len() && is_cpp_path(#[trigger] self.sources@[i]@) {
                    let i = choose|i: int| 0 <= i < self.sources@.len() && is_cpp_path(#[trigger] self.sources@[i]@);
                    assert(ss[i] == self.sources@[i]@);
                    assert(is_cpp_path(ss[i]));
                }
                if forall|i: int| 0 <= i < self.sources@.len() ==> !is_cpp_path(#[trigger] self.sources@[i]@) {
                    assert forall|j: int| 0 <= j < ss.len() implies !is_cpp_path(#[trigger] ss[j]) by {
                        assert(ss[j] == self.sources@[j]@);
                    }
                }
                lemma_link_driver(
                    self.compiler,
                    self.package_type,
                    ss,
                    strs(objects@),
                    output_path(self.package_type, self.target_os, self.build_dir@, self.output_name@),
                    self.link_flags@,
                );
            }
        }
        let output = self.compute_output_path();
        let kind = match self.package_type {
            PackageType::Executable => LinkKind::Executable,
            PackageType::StaticLibrary => LinkKind::StaticLibrary,
            PackageType::SharedLibrary => LinkKind::SharedLibrary,
        };
        let command = match self.package_type {
            PackageType::StaticLibrary => archive(&self.compiler, output.as_str(), objects),
            _ => {
                let has = any_cpp(&self.sources);
                let exe = if self.compiler.is_msvc() {
                    "link.exe"
                } else if has {
                    self.compiler.cpp_executable()
                } else {
                    self.compiler.c_executable()
                };
                let args = self.compiler.link_args(objects.as_slice(), output.as_str(), &self.link_flags);
                let ghost a = strs(args@);
                let mut cmd = prepend(exe, args);
                if self.package_type == PackageType::SharedLibrary && self.compiler.is_msvc() {
                    cmd.insert(1, "/nologo".to_string());
                    cmd.insert(2, "/DLL".to_string());
                } else if self.compiler.is_msvc() {
                    cmd.insert(1, "/nologo".to_string());
                }
                if self.package_type == PackageType::SharedLibrary && !self.compiler.is_msvc() {
                    let ghost cv = cmd@;
                    assert(cv.len() == strs(cv).len());
                    let sh = "-shared".to_string();
                    let ghost shv = sh;
                    cmd.insert(1, sh);
                    assert(cmd@ == cv.insert(1, shv));
                    assert(strs(cv) == seq![exe@] + a);
                    assert(shv@ == "-shared"@);
                    assert(strs(cmd@) =~= strs(cv).insert(1, shv@));
                    assert(strs(cmd@) =~= seq![exe@, "-shared"@] + a);
                }
                cmd
            },
        };
        LinkTask { objects: copy_strings(objects), output, command, kind }
    }

    /// Compiles every source, in order, into `<stem>.<ext>`, then links.
    pub fn build(self) -> (g: BuildGraph)
        ensures
            g.tasks@.len() == self.sources@.len(),
            forall|i: int|
                0 <= i < self.sources@.len() ==> source_task(
                    #[trigger] g.tasks@[i],
                    self.compiler,
                    self.project_root@,
                    self.sources@[i]@,
                    ""@,
                    self.compile_flags@,
                    strs(self.system_include_dirs@),
                ),
            g.links@.len() == 1,
            g.links@[0].output@ == output_path(
                self.package_type,
                self.target_os,
                self.build_dir@,
                self.output_name@,
            ),
            g.links@[0].kind == link_kind_of(self.package_type),
            strs(g.links@[0].objects@) == g.tasks@.map_values(|t: BuildTask| t.object@),
            strs(g.links@[0].command@) == package_link_command(
                self.compiler,
                self.package_type,
                strs(self.sources@),
                g.tasks@.map_values(|t: BuildTask| t.object@),
                g.links@[0].output@,
                self.link_flags@,
            ),
            g.project_root == self.project_root,
            g.build_dir == self.build_dir,
    {
        let ghost f0 = self.compile_flags@;
        let c_std = self.compile_flags.c_standard;
        let cpp_std = self.compile_flags.cpp_standard;
        let mut flags = self.compile_flags;
        let mut tasks: Vec<BuildTask> = Vec::new();
        let mut objects: Vec<String> = Vec::new();
        let mut i: usize = 0;
        while i < self.sources.len()
            invariant
                i <= self.sources.len(),
                tasks@.len() == i,
                c_std == f0.c_standard,
                cpp_std == f0.cpp_standard,
                flags.c_standard == c_std || flags.c_standard is None,
                flags.cpp_standard == cpp_std || flags.cpp_standard is None,
                with_standards(flags@, c_std, cpp_std) == f0,
                strs(objects@) == tasks@.map_values(|t: BuildTask| t.object@),
                forall|j: int|
                    0 <= j < i ==> source_task(
                        #[trigger] tasks@[j],
                        self.compiler,
                        self.project_root@,
                        self.sources@[j]@,
                        ""@,
                        f0,
                        strs(self.system_include_dirs@),
                    ),
            decreases self.sources.len() - i,
        {
            let t = source_compile_task(
                &self.compiler,
                self.project_root.as_str(),
                self.sources[i].as_str(),
                "",
                &mut flags,
                c_std,
                cpp_std,
                &self.system_include_dirs,
            );
            let ghost ov = objects@;
            let ghost tv0 = tasks@;
            objects.push(t.object.clone());
            let ghost tv = t;
            tasks.push(t);
            assert(tasks@ == tv0.push(tv));
            assert(strs(objects@) =~= strs(ov).push(tv.object@));
            assert(tasks@.map_values(|t: BuildTask| t.object@) =~= tv0.map_values(|t: BuildTask| t.object@).push(tv.object@));
            i += 1;
        }
        flags.c_standard = c_std;
        flags.cpp_standard = cpp_std;
        let builder = BuildGraphBuilder { compile_flags: flags, ..self };
        let link = builder.build_link_task(&objects);
        let mut links: Vec<LinkTask> = Vec::new();
        links.push(link);
        BuildGraph {
            tasks,
            links,
            project_root: builder.project_root,
            build_dir: builder.build_dir,
        }
    }
}

/// Whether some source is C++.
fn any_cpp(sources: &Vec<String>) -> (b: bool)
    ensures
        b == has_cpp(strs(sources@)),
        b <==> exists|i: int| 0 <= i < sources@.len() && is_cpp_path(#[trigger] sources@[i]@),
{
    let mut i: usize = 0;
    while i < sources.len()
        invariant
            i <= sources.len(),
            forall|j: int| 0 <= j < i ==> !is_cpp_path(#[trigger] strs(sources@)[j]),
        decreases sources.len() - i,
    {
        if is_cpp_source(sources[i].as_str()) {
            assert(is_cpp_path(strs(sources@)[i as int]));
            assert(is_cpp_path(sources@[i as int]@));
            return true;
        }
        i += 1;
    }
    assert forall|k: int| 0 <= k < sources@.len() implies !is_cpp_path(#[trigger] sources@[k]@) by {
        assert(strs(sources@)[k] == sources@[k]@);
    }
    false
}

/// The archive command for `objects`.
fn archive(compiler: &AnyCompiler, out: &str, objects: &Vec<String>) -> (r: Vec<String>)
    ensures
        strs(r@) == archive_command(*compiler, out@, strs(objects@)),
{
    if compiler.is_msvc() {
        let mut cmd: Vec<String> = Vec::new();
        push_str(&mut cmd, "lib.exe");
        push_str(&mut cmd, "/nologo");
        let o = concat("/OUT:", out);
        let ghost before = strs(cmd@);
        cmd.push(o);
        let joined = join_strings(objects, " ");
        let ghost b2 = strs(cmd@);
        cmd.push(joined);
        assert(strs(cmd@) =~= seq!["lib.exe"@, "/nologo"@, "/OUT:"@ + out@, join(strs(objects@), " "@)]);
        cmd
    } else {
        let mut cmd: Vec<String> = Vec::new();
        push_str(&mut cmd, "ar");
        push_str(&mut cmd, "rcs");
        push_str(&mut cmd, out);
        let mut rest = copy_strings(objects);
        let ghost cv = cmd@;
        let ghost rv = rest@;
        cmd.append(&mut rest);
        assert(cmd@ == cv + rv);
        assert(strs(cmd@) =~= strs(cv) + strs(rv));
        assert(strs(cmd@) =~= seq!["ar"@, "rcs"@, out@] + strs(objects@));
        cmd
    }
}

/// One test binary to build: its source and what its test framework needs.
#[derive(Debug, Clone)]
pub struct TestBinarySpec {
    pub name: String,
    pub test_source: String,
    pub framework_libs: Vec<String>,
    pub framework_lib_dirs: Vec<String>,
    pub framework_include_dirs: Vec<String>,
}

/// The graph of a test build, and each test binary's name and path.
#[derive(Debug, Clone)]
pub struct TestBuildOutput {
    pub graph: BuildGraph,
    pub test_binaries: Vec<(String, String)>,
}

/// `f` with `extra` include directories after its own.
pub open spec fn with_includes(f: FlagsView, extra: Seq<Seq<char>>) -> FlagsView {
    FlagsView { include_dirs: f.include_dirs + extra, ..f }
}

/// `lf` with `dirs` and `libs` after its own.
pub open spec fn with_libs(lf: LinkFlagsView, dirs: Seq<Seq<char>>, libs: Seq<Seq<char>>) -> LinkFlagsView {
    LinkFlagsView { lib_dirs: lf.lib_dirs + dirs, libs: lf.libs + libs, ..lf }
}

/// `t` compiles the test's source into `test_<name>.<ext>`.
#[verifier::opaque]
pub open spec fn test_task(
    t: BuildTask,
    c: AnyCompiler,
    root: Seq<char>,
    spec: TestBinarySpec,
    f: FlagsView,
    sys: Seq<Seq<char>>,
) -> bool {
    let src = spec.test_source@;
    let cpp = is_cpp_path(src);
    &&& t.source@ == src
    &&& t.object@ == "test_"@ + spec.name@ + "."@ + obj_ext(c)
    &&& t.depfile@ == "test_"@ + spec.name@ + ".d"@
    &&& t.is_cpp == cpp
    &&& strs(t.command@) == seq![exe_for(c, cpp)] + compile_args_of(
        c,
        joined_path(root, src),
        t.object@,
        t.depfile@,
        for_language(with_includes(f, strs(spec.framework_include_dirs@)), cpp),
    ) + isystem_args(sys)
}

/// The file the library sources of a test build are archived into.
pub open spec fn test_lib_file(c: AnyCompiler, name: Seq<char>) -> Seq<char> {
    (if msvc_style(c) {
        ""@
    } else {
        "lib"@
    }) + name + "."@ + (if msvc_style(c) {
        "lib"@
    } else {
        "a"@
    })
}

/// The command that archives the library objects of a test build.
pub open spec fn test_archive_command(c: AnyCompiler, file: Seq<char>, objects: Seq<Seq<char>>) -> Seq<
    Seq<char>,
> {
    if msvc_style(c) {
        seq!["lib.exe"@, "/nologo"@, "/OUT:"@ + file] + objects
    } else {
        seq!["ar"@, "rcs"@, file] + objects
    }
}

/// Where a test binary goes: beside the build directory.
pub open spec fn test_binary_path(build_dir: Seq<char>, os: TargetOs, name: Seq<char>) -> Seq<char> {
    joined_path(
        parent_or_dot(build_dir),
        name + (if os == TargetOs::Windows {
            ".exe"@
        } else {
            ""@
        }),
    )
}

/// What a test binary is linked from: its object, then the archived
/// library, then the project's own library, as far as there are.
pub open spec fn test_link_objects(obj: Seq<char>, archive: Option<Seq<char>>, project_lib: Option<Seq<char>>) -> Seq<
    Seq<char>,
> {
    seq![obj] + (match archive {
        Some(a) => seq![a],
        None => Seq::empty(),
    }) + (match project_lib {
        Some(p) => seq![p],
        None => Seq::empty(),
    })
}

/// `l` links the test binary of `spec`.
#[verifier::opaque]
pub open spec fn test_link(
    l: LinkTask,
    c: AnyCompiler,
    build_dir: Seq<char>,
    os: TargetOs,
    spec: TestBinarySpec,
    archive: Option<Seq<char>>,
    project_lib: Option<Seq<char>>,
    lib_has_cpp: bool,
    lf: LinkFlagsView,
) -> bool {
    let cpp = is_cpp_path(spec.test_source@);
    let obj = "test_"@ + spec.name@ + "."@ + obj_ext(c);
    let objects = test_link_objects(obj, archive, project_lib);
    let out = test_binary_path(build_dir, os, spec.name@);
    let exe = if msvc_style(c) {
        "link.exe"@
    } else {
        exe_for(c, cpp || lib_has_cpp)
    };
    &&& l.output@ == out
    &&& l.kind == LinkKind::Executable
    &&& strs(l.objects@) == objects
    &&& strs(l.command@) == seq![exe] + opt_nologo(c) + link_args_of(
        c,
        objects,
        out,
        with_libs(lf, strs(spec.framework_lib_dirs@), strs(spec.framework_libs@)),
    )
}

pub open spec fn opt_nologo(c: AnyCompiler) -> Seq<Seq<char>> {
    if msvc_style(c) {
        seq!["/nologo"@]
    } else {
        Seq::empty()
    }
}

/// Appends copies of `xs` to `v`.
fn extend_strings(v: &mut Vec<String>, xs: &Vec<String>)
    ensures
        final(v)@.len() == old(v)@.len() + xs@.len(),
        final(v)@.subrange(0, old(v)@.len() as int) == old(v)@,
        strs(final(v)@) == strs(old(v)@) + strs(xs@),
{
    let ghost start = v@;
    let mut i: usize = 0;
    while i < xs.len()
        invariant
            i <= xs.len(),
            v@.len() == start.len() + i,
            v@.subrange(0, start.len() as int) == start,
            strs(v@) == strs(start) + strs(xs@).take(i as int),
        decreases xs.len() - i,
    {
        let ghost before = v@;
        v.push(xs[i].clone());
        assert(v@.subrange(0, start.len() as int) =~= before.subrange(0, start.len() as int));
        assert(strs(v@) =~= strs(before).push(xs@[i as int]@));
        assert(strs(xs@).take(i + 1) =~= strs(xs@).take(i as int).push(xs@[i as int]@));
        i += 1;
    }
    assert(strs(xs@).take(xs.len() as int) =~= strs(xs@));
}

/// Compiles a test's source, with the framework's include directories
/// after the shared ones.
fn test_compile_task(
    compiler: &AnyCompiler,
    root: &str,
    spec: &TestBinarySpec,
    flags: &mut CompileFlags,
    c_std: Option<crate::manifest::CStandard>,
    cpp_std: Option<crate::manifest::CppStandard>,
    sys: &Vec<String>,
) -> (t: BuildTask)
    requires
        old(flags).c_standard == c_std || old(flags).c_standard is None,
        old(flags).cpp_standard == cpp_std || old(flags).cpp_standard is None,
    ensures
        test_task(t, *compiler, root@, *spec, with_standards(old(flags)@, c_std, cpp_std), strs(sys@)),
        final(flags)@ == for_language(with_standards(old(flags)@, c_std, cpp_std), is_cpp_path(spec.test_source@)),
{
    reveal(test_task);
    let ghost f0 = with_standards(flags@, c_std, cpp_std);
    let abs_src = path_join(root, spec.test_source.as_str());
    let ext = if compiler.is_msvc() {
        "obj"
    } else {
        "o"
    };
    let base = concat("test_", spec.name.as_str());
    let with_dot = concat(base.as_str(), ".");
    let obj = concat(with_dot.as_str(), ext);
    let depfile = concat(base.as_str(), ".d");
    let cpp = is_cpp_source(spec.test_source.as_str());
    set_language(flags, cpp, c_std, cpp_std);
    let ghost fl = flags@;
    let n = flags.include_dirs.len();
    extend_strings(&mut flags.include_dirs, &spec.framework_include_dirs);
    assert(flags@ == for_language(with_includes(f0, strs(spec.framework_include_dirs@)), cpp));
    let args = compiler.compile_args(abs_src.as_str(), obj.as_str(), depfile.as_str(), flags);
    flags.include_dirs.truncate(n);
    assert(flags@ == fl);
    let exe = if cpp {
        compiler.cpp_executable()
    } else {
        compiler.c_executable()
    };
    let mut command = prepend(exe, args);
    append_system_includes(&mut command, sys);
    BuildTask { source: spec.test_source.clone(), object: obj, depfile, command, is_cpp: cpp }
}

/// Links a test binary, with the framework's directories and libraries
/// after the shared ones.
fn test_link_task(
    compiler: &AnyCompiler,
    build_dir: &str,
    os: TargetOs,
    spec: &TestBinarySpec,
    archive: &Option<String>,
    project_lib: &Option<String>,
    lib_has_cpp: bool,
    lf: &mut LinkFlags,
) -> (l: LinkTask)
    ensures
        test_link(
            l,
            *compiler,
            build_dir@,
            os,
            *spec,
            match archive {
                Some(a) => Some(a@),
                None => None,
            },
            match project_lib {
                Some(p) => Some(p@),
                None => None,
            },
            lib_has_cpp,
            old(lf)@,
        ),
        l.output@ == test_binary_path(build_dir@, os, spec.name@),
        final(lf)@ == old(lf)@,
{
    reveal(test_link);
    let ghost lf0 = lf@;
    let ext = if compiler.is_msvc() {
        "obj"
    } else {
        "o"
    };
    let base = concat("test_", spec.name.as_str());
    let with_dot = concat(base.as_str(), ".");
    let obj = concat(with_dot.as_str(), ext);
    let out_dir = path_parent(build_dir);
    let file = concat(spec.name.as_str(), executable_extension(os));
    let bin_path = path_join(out_dir.as_str(), file.as_str());
    let mut objects: Vec<String> = Vec::new();
    push_str(&mut objects, obj.as_str());
    assert(strs(objects@) =~= seq![obj@]);
    let ghost o1 = strs(objects@);
    match archive {
        Some(a) => push_str(&mut objects, a.as_str()),
        None => {
            assert(strs(objects@) =~= o1 + Seq::<Seq<char>>::empty());
        },
    }
    let ghost o2 = strs(objects@);
    match project_lib {
        Some(p) => push_str(&mut objects, p.as_str()),
        None => {
            assert(strs(objects@) =~= o2 + Seq::<Seq<char>>::empty());
        },
    }
    let cpp = is_cpp_source(spec.test_source.as_str());
    let exe = if compiler.is_msvc() {
        "link.exe"
    } else if cpp || lib_has_cpp {
        compiler.cpp_executable()
    } else {
        compiler.c_executable()
    };
    let nd = lf.lib_dirs.len();
    let nl = lf.libs.len();
    extend_strings(&mut lf.lib_dirs, &spec.framework_lib_dirs);
    extend_strings(&mut lf.libs, &spec.framework_libs);
    assert(lf@ == with_libs(lf0, strs(spec.framework_lib_dirs@), strs(spec.framework_libs@)));
    let args = compiler.link_args(objects.as_slice(), bin_path.as_str(), lf);
    lf.lib_dirs.truncate(nd);
    lf.libs.truncate(nl);
    assert(lf@ == lf0);
    let mut command: Vec<String> = Vec::new();
    push_str(&mut command, exe);
    assert(strs(command@) =~= seq![exe@]);
    if compiler.is_msvc() {
        push_str(&mut command, "/nologo");
    } else {
        assert(strs(command@) =~= seq![exe@] + opt_nologo(*compiler));
    }
    let ghost cv = command@;
    let ghost av = args@;
    let mut args = args;
    command.append(&mut args);
    assert(command@ == cv + av);
    assert(strs(command@) =~= strs(cv) + strs(av));
    LinkTask { objects, output: bin_path, command, kind: LinkKind::Executable }
}

/// Compiles each of `sources`, in order, with object and depfile names
/// that start with `prefix`.
fn compile_sources(
    compiler: &AnyCompiler,
    root: &str,
    sources: &Vec<String>,
    prefix: &str,
    flags: &mut CompileFlags,
    c_std: Option<crate::manifest::CStandard>,
    cpp_std: Option<crate::manifest::CppStandard>,
    sys: &Vec<String>,
) -> (tasks: Vec<BuildTask>)
    requires
        old(flags).c_standard == c_std || old(flags).c_standard is None,
        old(flags).cpp_standard == cpp_std || old(flags).cpp_standard is None,
    ensures
        tasks@.len() == sources@.len(),
        forall|j: int|
            0 <= j < sources@.len() ==> source_task(
                #[trigger] tasks@[j],
                *compiler,
                root@,
                sources@[j]@,
                prefix@,
                with_standards(old(flags)@, c_std, cpp_std),
                strs(sys@),
            ),
        final(flags).c_standard == c_std || final(flags).c_standard is None,
        final(flags).cpp_standard == cpp_std || final(flags).cpp_standard is None,
        with_standards(final(flags)@, c_std, cpp_std) == with_standards(old(flags)@, c_std, cpp_std),
{
    let ghost f0 = with_standards(flags@, c_std, cpp_std);
    let mut tasks: Vec<BuildTask> = Vec::new();
    let mut i: usize = 0;
    while i < sources.len()
        invariant
            i <= sources.len(),
            tasks@.len() == i,
            flags.c_standard == c_std || flags.c_standard is None,
            flags.cpp_standard == cpp_std || flags.cpp_standard is None,
            with_standards(flags@, c_std, cpp_std) == f0,
            forall|j: int|
                0 <= j < i ==> source_task(
                    #[trigger] tasks@[j],
                    *compiler,
                    root@,
                    sources@[j]@,
                    prefix@,
                    f0,
                    strs(sys@),
                ),
        decreases sources.len() - i,
    {
        let t = source_compile_task(compiler, root, sources[i].as_str(), prefix, flags, c_std, cpp_std, sys);
        tasks.push(t);
        i += 1;
    }
    tasks
}

/// The objects of `tasks`, in order.
fn objects_of(tasks: &Vec<BuildTask>) -> (r: Vec<String>)
    ensures
        strs(r@) == tasks@.map_values(|t: BuildTask| t.object@),
{
    let mut r: Vec<String> = Vec::new();
    let mut i: usize = 0;
    while i < tasks.len()
        invariant
            i <= tasks.len(),
            strs(r@) == tasks@.take(i as int).map_values(|t: BuildTask| t.object@),
        decreases tasks.len() - i,
    {
        let ghost before = r@;
        r.push(tasks[i].object.clone());
        assert(strs(r@) =~= strs(before).push(tasks@[i as int].object@));
        assert(tasks@.take(i + 1).map_values(|t: BuildTask| t.object@) =~= tasks@.take(i as int).map_values(
            |t: BuildTask| t.object@,
        ).push(tasks@[i as int].object@));
        i += 1;
    }
    assert(tasks@.take(tasks.len() as int) =~= tasks@);
    r
}

/// Archives the library objects of a test build, when there are some and
/// the library has a name.
fn archive_library(compiler: &AnyCompiler, lib_name: &Option<String>, lib_objects: Vec<String>) -> (r: (
    Option<String>,
    Option<LinkTask>,
))
    ensures
        (lib_objects@.len() > 0 && lib_name is Some) ==> {
            &&& r.0 matches Some(f) && f@ == test_lib_file(*compiler, lib_name->0@)
            &&& r.1 matches Some(l) && l.output@ == test_lib_file(*compiler, lib_name->0@)
                && l.kind == LinkKind::StaticLibrary && strs(l.objects@) == strs(lib_objects@)
                && strs(l.command@) == test_archive_command(
                *compiler,
                test_lib_file(*compiler, lib_name->0@),
                strs(lib_objects@),
            )
        },
        !(lib_objects@.len() > 0 && lib_name is Some) ==> r.0 is None && r.1 is None,
{
    if lib_objects.len() == 0 {
        return (None, None);
    }
    match lib_name {
        Some(name) => {
            let msvc = compiler.is_msvc();
            let pre = concat(
                if msvc {
                    ""
                } else {
                    "lib"
                },
                name.as_str(),
            );
            let dotted = concat(pre.as_str(), ".");
            let lib_file = concat(
                dotted.as_str(),
                if msvc {
                    "lib"
                } else {
                    "a"
                },
            );
            let mut command: Vec<String> = Vec::new();
            if msvc {
                push_str(&mut command, "lib.exe");
                push_str(&mut command, "/nologo");
                let o = concat("/OUT:", lib_file.as_str());
                push_str(&mut command, o.as_str());
            } else {
                push_str(&mut command, "ar");
                push_str(&mut command, "rcs");
                push_str(&mut command, lib_file.as_str());
            }
            extend_strings(&mut command, &lib_objects);
            assert(strs(command@) =~= test_archive_command(*compiler, lib_file@, strs(lib_objects@)));
            let out = lib_file.clone();
            (
                Some(lib_file),
                Some(
                    LinkTask {
                        objects: lib_objects,
                        output: out,
                        command,
                        kind: LinkKind::StaticLibrary,
                    },
                ),
            )
        },
        None => (None, None),
    }
}

/// Builds the graph of a test run: compiles the library sources (objects
/// `lib_<stem>.<ext>`), archives them when there are some and the library
/// has a name, then compiles and links each test binary.
pub struct TestBuildGraphBuilder {
    pub compiler: AnyCompiler,
    pub build_dir: String,
    pub project_root: String,
    pub compile_flags: CompileFlags,
    pub link_flags: LinkFlags,
    pub lib_sources: Vec<String>,
    pub lib_name: Option<String>,
    pub project_lib_path: Option<String>,
    pub tests: Vec<TestBinarySpec>,
    pub system_include_dirs: Vec<String>,
    pub target_os: TargetOs,
}

/// The archive of a test build, if it makes one.
pub open spec fn test_archive(b: TestBuildGraphBuilder) -> Option<Seq<char>> {
    if b.lib_sources@.len() > 0 && b.lib_name is Some {
        Some(test_lib_file(b.compiler, b.lib_name->0@))
    } else {
        None
    }
}

pub open spec fn opt_view(o: Option<String>) -> Option<Seq<char>> {
    match o {
        Some(s) => Some(s@),
        None => None,
    }
}

impl TestBuildGraphBuilder {
    /// A builder; `system_include_dirs` are the compiler's own include
    /// directories, as the compiler reports them.
    pub fn new(
        compiler: AnyCompiler,
        build_dir: String,
        project_root: String,
        compile_flags: CompileFlags,
        link_flags: LinkFlags,
        lib_sources: Vec<String>,
        lib_name: Option<String>,
        project_lib_path: Option<String>,
        tests: Vec<TestBinarySpec>,
        system_include_dirs: Vec<String>,
        target_os: TargetOs,
    ) -> (r: Self)
        ensures
            r.compiler == compiler,
            r.build_dir == build_dir,
            r.project_root == project_root,
            r.compile_flags == compile_flags,
            r.link_flags == link_flags,
            r.lib_sources == lib_sources,
            r.lib_name == lib_name,
            r.project_lib_path == project_lib_path,
            r.tests == tests,
            r.system_include_dirs == system_include_dirs,
            r.target_os == target_os,
    {
        TestBuildGraphBuilder {
            compiler,
            build_dir,
            project_root,
            compile_flags,
            link_flags,
            lib_sources,
            lib_name,
            project_lib_path,
            tests,
            system_include_dirs,
            target_os,
        }
    }

    pub fn build(self) -> (o: TestBuildOutput)
        ensures
            ({
                let c = self.compiler;
                let nl = self.lib_sources@.len();
                let nt = self.tests@.len();
                let arch = test_archive(self);
                let off: int = if arch is Some {
                    1
                } else {
                    0
                };
                let tasks = o.graph.tasks@;
                let links = o.graph.links@;
                &&& tasks.len() == nl + nt
                &&& forall|i: int|
                    0 <= i < nl ==> source_task(
                        #[trigger] tasks[i],
                        c,
                        self.project_root@,
                        self.lib_sources@[i]@,
                        "lib_"@,
                        self.compile_flags@,
                        strs(self.system_include_dirs@),
                    )
                &&& forall|j: int|
                    0 <= j < nt ==> test_task(
                        #[trigger] tasks[nl + j],
                        c,
                        self.project_root@,
                        self.tests@[j],
                        self.compile_flags@,
                        strs(self.system_include_dirs@),
                    )
                &&& links.len() == off + nt
                &&& arch matches Some(file) ==> {
                    &&& links[0].output@ == file
                    &&& links[0].kind == LinkKind::StaticLibrary
                    &&& strs(links[0].objects@) == tasks.subrange(0, nl as int).map_values(
                        |t: BuildTask| t.object@,
                    )
                    &&& strs(links[0].command@) == test_archive_command(
                        c,
                        file,
                        tasks.subrange(0, nl as int).map_values(|t: BuildTask| t.object@),
                    )
                }
                &&& forall|j: int|
                    0 <= j < nt ==> test_link(
                        #[trigger] links[off + j],
                        c,
                        self.build_dir@,
                        self.target_os,
                        self.tests@[j],
                        arch,
                        opt_view(self.project_lib_path),
                        has_cpp(strs(self.lib_sources@)),
                        self.link_flags@,
                    )
                &&& o.test_binaries@.len() == nt
                &&& forall|j: int|
                    0 <= j < nt ==> (#[trigger] o.test_binaries@[j]).0@ == self.tests@[j].name@
                        && o.test_binaries@[j].1@ == test_binary_path(
                        self.build_dir@,
                        self.target_os,
                        self.tests@[j].name@,
                    )
                &&& o.graph.project_root == self.project_root
                &&& o.graph.build_dir == self.build_dir
            }),
    {
        let ghost f0 = self.compile_flags@;
        let ghost lf0 = self.link_flags@;
        let ghost old_self = self;
        let c_std = self.compile_flags.c_standard;
        let cpp_std = self.compile_flags.cpp_standard;
        let mut flags = self.compile_flags;
        let mut tasks = compile_sources(
            &self.compiler,
            self.project_root.as_str(),
            &self.lib_sources,
            "lib_",
            &mut flags,
            c_std,
            cpp_std,
            &self.system_include_dirs,
        );
        let ghost nl = self.lib_sources@.len();
        assert(tasks@.subrange(0, nl as int) =~= tasks@);
        let lib_objects = objects_of(&tasks);
        assert(strs(lib_objects@).len() == lib_objects@.len());
        assert(lib_objects@.len() == nl);
        let (lib_archive, archive_link) = archive_library(&self.compiler, &self.lib_name, lib_objects);
        let mut links: Vec<LinkTask> = Vec::new();
        if let Some(l) = archive_link {
            links.push(l);
        }
        let ghost arch = test_archive(old_self);
        assert(opt_view(lib_archive) == arch);
        let ghost off: int = if arch is Some {
            1
        } else {
            0
        };
        let lib_has_cpp = any_cpp(&self.lib_sources);
        let mut lf = self.link_flags;
        let mut test_tasks: Vec<BuildTask> = Vec::new();
        let mut test_links: Vec<LinkTask> = Vec::new();
        let mut test_binaries: Vec<(String, String)> = Vec::new();
        let mut j: usize = 0;
        while j < self.tests.len()
            invariant
                j <= self.tests.len(),
                test_tasks@.len() == j,
                test_links@.len() == j,
                test_binaries@.len() == j,
                flags.c_standard == c_std || flags.c_standard is None,
                flags.cpp_standard == cpp_std || flags.cpp_standard is None,
                with_standards(flags@, c_std, cpp_std) == f0,
                lf@ == lf0,
                opt_view(lib_archive) == arch,
                forall|k: int|
                    0 <= k < j ==> test_task(
                        #[trigger] test_tasks@[k],
                        self.compiler,
                        self.project_root@,
                        self.tests@[k],
                        f0,
                        strs(self.system_include_dirs@),
                    ),
                forall|k: int|
                    0 <= k < j ==> test_link(
                        #[trigger] test_links@[k],
                        self.compiler,
                        self.build_dir@,
                        self.target_os,
                        self.tests@[k],
                        arch,
                        opt_view(self.project_lib_path),
                        lib_has_cpp,
                        lf0,
                    ),
                forall|k: int|
                    0 <= k < j ==> (#[trigger] test_binaries@[k]).0@ == self.tests@[k].name@
                        && test_binaries@[k].1@ == test_binary_path(
                        self.build_dir@,
                        self.target_os,
                        self.tests@[k].name@,
                    ),
            decreases self.tests.len() - j,
        {
            let spec = &self.tests[j];
            let t = test_compile_task(
                &self.compiler,
                self.project_root.as_str(),
                spec,
                &mut flags,
                c_std,
                cpp_std,
                &self.system_include_dirs,
            );
            let l = test_link_task(
                &self.compiler,
                self.build_dir.as_str(),
                self.target_os,
                spec,
                &lib_archive,
                &self.project_lib_path,
                lib_has_cpp,
                &mut lf,
            );
            let bin = l.output.clone();
            test_tasks.push(t);
            test_links.push(l);
            test_binaries.push((spec.name.clone(), bin));
            j += 1;
        }
        let ghost t0 = tasks@;
        let ghost l0 = links@;
        let ghost tt = test_tasks@;
        let ghost tl = test_links@;
        tasks.append(&mut test_tasks);
        links.append(&mut test_links);
        assert(tasks@ == t0 + tt);
        assert(links@ == l0 + tl);
        assert(tasks@.subrange(0, nl as int) =~= t0);
        assert(forall|k: int| 0 <= k < nl ==> tasks@[k] == t0[k]);
        assert(forall|k: int| 0 <= k < tt.len() ==> tasks@[nl + k] == tt[k]);
        assert(forall|k: int| 0 <= k < tl.len() ==> links@[off + k] == tl[k]);
        TestBuildOutput {
            graph: BuildGraph {
                tasks,
                links,
                project_root: self.project_root,
                build_dir: self.build_dir,
            },
            test_binaries,
        }
    }
}

/// One entry of `compile_commands.json`: the directory a compile runs in,
/// the source, and the compiler's command line.
#[derive(Debug)]
pub struct CompileCommandEntry {
    pub directory: String,
    pub file: String,
    pub arguments: Vec<String>,
}

impl BuildGraph {
    /// The compilation database of the graph: one entry per compile task,
    /// in task order, each run from the project root.
    pub fn compile_command_entries(&self) -> (r: Vec<CompileCommandEntry>)
        ensures
            r@.len() == self.tasks@.len(),
            forall|i: int|
                0 <= i < r@.len() ==> (#[trigger] r@[i]).directory@ == self.project_root@ && r@[i].file@
                    == self.tasks@[i].source@ && strs(r@[i].arguments@) == strs(self.tasks@[i].command@),
    {
        let mut r: Vec<CompileCommandEntry> = Vec::new();
        let mut i: usize = 0;
        while i < self.tasks.len()
            invariant
                i <= self.tasks@.len(),
                r@.len() == i,
                forall|j: int|
                    0 <= j < i ==> (#[trigger] r@[j]).directory@ == self.project_root@ && r@[j].file@
                        == self.tasks@[j].source@ && strs(r@[j].arguments@) == strs(self.tasks@[j].command@),
            decreases self.tasks.len() - i,
        {
            let t = &self.tasks[i];
            let args = t.command.clone();
            assert(strs(args@) =~= strs(t.command@));
            r.push(CompileCommandEntry { directory: self.project_root.clone(), file: t.source.clone(), arguments: args });
            i += 1;
        }
        r
    }
}

} // verus!
