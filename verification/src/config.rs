//! The toolchain settings of a build, resolved from layered sources, each
//! value together with the source it came from.
use vstd::prelude::*;
use crate::manifest::{CompilerKind, CppStandard, LinkerKind, Manifest};
use crate::text::str_eq;

verus! {

/// Where a resolved setting came from, from the weakest source to the strongest.
#[derive(Debug, Clone, Copy, PartialEq, Eq, Structural)]
pub enum Origin {
    Default,
    Global,
    Workspace,
    ProjectLocal,
    Project,
    Env,
    Cli,
}

pub open spec fn origin_label(o: Origin) -> Seq<char> {
    match o {
        Origin::Default => "default"@,
        Origin::Global => "global config"@,
        Origin::Workspace => "workspace"@,
        Origin::ProjectLocal => ".ordo/config.toml"@,
        Origin::Project => "Ordo.toml"@,
        Origin::Env => "environment variable"@,
        Origin::Cli => "CLI flag"@,
    }
}

impl Origin {
    /// How the source is shown to the user.
    pub fn to_string(&self) -> (r: String)
        ensures
            r@ == origin_label(*self),
    {
        let s = match self {
            Origin::Default => "default",
            Origin::Global => "global config",
            Origin::Workspace => "workspace",
            Origin::ProjectLocal => ".ordo/config.toml",
            Origin::Project => "Ordo.toml",
            Origin::Env => "environment variable",
            Origin::Cli => "CLI flag",
        };
        s.to_string()
    }
}

/// A setting's value and the source that set it.
#[derive(Debug, Clone, Copy)]
pub struct WithOrigin<T> {
    pub value: T,
    pub origin: Origin,
}

/// The resolved toolchain settings.
#[derive(Debug, Clone, Copy)]
pub struct ResolvedConfig {
    pub compiler: WithOrigin<Option<CompilerKind>>,
    pub linker: WithOrigin<Option<LinkerKind>>,
    pub cpp_standard: WithOrigin<CppStandard>,
}

/// Choices made on the command line.
#[derive(Debug, Clone, Copy)]
pub struct CliOverrides {
    pub compiler: Option<CompilerKind>,
    pub linker: Option<LinkerKind>,
}

impl CliOverrides {
    /// No choice made on the command line.
    pub fn none() -> (r: Self)
        ensures
            r.compiler is None && r.linker is None,
    {
        CliOverrides { compiler: None, linker: None }
    }
}

/// The values of the settings' environment variables, as read.
#[derive(Debug, Clone)]
pub struct EnvVars {
    pub compiler: Option<String>,
    pub linker: Option<String>,
    pub cpp: Option<String>,
}

impl EnvVars {
    /// No variable set.
    pub fn none() -> (r: Self)
        ensures
            r.compiler is None && r.linker is None && r.cpp is None,
    {
        EnvVars { compiler: None, linker: None, cpp: None }
    }
}

pub open spec fn compiler_named(s: Seq<char>) -> Option<CompilerKind> {
    if s == "clang"@ {
        Some(CompilerKind::Clang)
    } else if s == "gcc"@ {
        Some(CompilerKind::Gcc)
    } else if s == "msvc"@ {
        Some(CompilerKind::Msvc)
    } else if s == "clang-cl"@ {
        Some(CompilerKind::ClangCl)
    } else {
        None
    }
}

pub open spec fn linker_named(s: Seq<char>) -> Option<LinkerKind> {
    if s == "lld"@ {
        Some(LinkerKind::Lld)
    } else if s == "mold"@ {
        Some(LinkerKind::Mold)
    } else if s == "gold"@ {
        Some(LinkerKind::Gold)
    } else if s == "default"@ {
        Some(LinkerKind::Default)
    } else {
        None
    }
}

pub open spec fn cpp_standard_named(s: Seq<char>) -> Option<CppStandard> {
    if s == "c++17"@ {
        Some(CppStandard::Cpp17)
    } else if s == "c++20"@ {
        Some(CppStandard::Cpp20)
    } else if s == "c++23"@ {
        Some(CppStandard::Cpp23)
    } else if s == "c++26"@ {
        Some(CppStandard::Cpp26)
    } else {
        None
    }
}

/// A compiler by its name; `None` for an unknown name.
pub fn parse_compiler(s: &str) -> (r: Option<CompilerKind>)
    ensures
        r == compiler_named(s@),
{
    if str_eq(s, "clang") {
        Some(CompilerKind::Clang)
    } else if str_eq(s, "gcc") {
        Some(CompilerKind::Gcc)
    } else if str_eq(s, "msvc") {
        Some(CompilerKind::Msvc)
    } else if str_eq(s, "clang-cl") {
        Some(CompilerKind::ClangCl)
    } else {
        None
    }
}

/// A linker by its name; `None` for an unknown name.
pub fn parse_linker(s: &str) -> (r: Option<LinkerKind>)
    ensures
        r == linker_named(s@),
{
    if str_eq(s, "lld") {
        Some(LinkerKind::Lld)
    } else if str_eq(s, "mold") {
        Some(LinkerKind::Mold)
    } else if str_eq(s, "gold") {
        Some(LinkerKind::Gold)
    } else if str_eq(s, "default") {
        Some(LinkerKind::Default)
    } else {
        None
    }
}

/// A C++ standard by its name; `None` for an unknown name.
pub fn parse_cpp_standard(s: &str) -> (r: Option<CppStandard>)
    ensures
        r == cpp_standard_named(s@),
{
    if str_eq(s, "c++17") {
        Some(CppStandard::Cpp17)
    } else if str_eq(s, "c++20") {
        Some(CppStandard::Cpp20)
    } else if str_eq(s, "c++23") {
        Some(CppStandard::Cpp23)
    } else if str_eq(s, "c++26") {
        Some(CppStandard::Cpp26)
    } else {
        None
    }
}

/// What an environment variable says, once parsed by `parse`: `None` when
/// unset or not understood.
pub open spec fn env_value<T>(v: Option<String>, parse: spec_fn(Seq<char>) -> Option<T>) -> Option<T> {
    match v {
        Some(s) => parse(s@),
        None => None,
    }
}

/// A value from the strongest of the layers that sets it, weakest first:
/// the global config, the project manifest, the environment, the command
/// line; `(d, Default)` when none does.
pub open spec fn layered<T>(
    d: T,
    global: Option<T>,
    project: Option<T>,
    env: Option<T>,
    cli: Option<T>,
) -> (T, Origin) {
    if cli is Some {
        (cli->0, Origin::Cli)
    } else if env is Some {
        (env->0, Origin::Env)
    } else if project is Some {
        (project->0, Origin::Project)
    } else if global is Some {
        (global->0, Origin::Global)
    } else {
        (d, Origin::Default)
    }
}

pub open spec fn some_of<T>(o: Option<T>) -> Option<Option<T>> {
    match o {
        Some(v) => Some(Some(v)),
        None => None,
    }
}

pub open spec fn global_compiler(g: Option<&Manifest>) -> Option<CompilerKind> {
    match g {
        Some(m) => m.toolchain.compiler,
        None => None,
    }
}

pub open spec fn global_linker(g: Option<&Manifest>) -> Option<LinkerKind> {
    match g {
        Some(m) => m.toolchain.linker,
        None => None,
    }
}

pub open spec fn global_cpp(g: Option<&Manifest>) -> Option<CppStandard> {
    match g {
        Some(m) => m.language.cpp,
        None => None,
    }
}

/// The resolved setting is the pair `layered` gives.
pub open spec fn resolved_as<T>(w: WithOrigin<T>, p: (T, Origin)) -> bool {
    w.value == p.0 && w.origin == p.1
}

fn set_from<T: Copy>(w: &mut WithOrigin<T>, v: Option<T>, o: Origin)
    ensures
        v matches Some(x) ==> final(w).value == x && final(w).origin == o,
        v is None ==> *final(w) == *old(w),
{
    if let Some(x) = v {
        w.value = x;
        w.origin = o;
    }
}

fn some_copy<T: Copy>(o: Option<T>) -> (r: Option<Option<T>>)
    ensures
        r == some_of(o),
{
    match o {
        Some(v) => Some(Some(v)),
        None => None,
    }
}

fn env_compiler(v: &Option<String>) -> (r: Option<CompilerKind>)
    ensures
        r == env_value(*v, |s: Seq<char>| compiler_named(s)),
{
    match v {
        Some(s) => parse_compiler(s.as_str()),
        None => None,
    }
}

fn env_linker(v: &Option<String>) -> (r: Option<LinkerKind>)
    ensures
        r == env_value(*v, |s: Seq<char>| linker_named(s)),
{
    match v {
        Some(s) => parse_linker(s.as_str()),
        None => None,
    }
}

fn env_cpp(v: &Option<String>) -> (r: Option<CppStandard>)
    ensures
        r == env_value(*v, |s: Seq<char>| cpp_standard_named(s)),
{
    match v {
        Some(s) => parse_cpp_standard(s.as_str()),
        None => None,
    }
}

impl ResolvedConfig {
    /// Resolves the settings from the layers, the stronger over the weaker:
    /// defaults (no compiler or linker, C++20), the global config (when
    /// there is one), the project manifest, the environment variables (a
    /// value that names nothing known is ignored), the command line (which
    /// sets no C++ standard).
    pub fn resolve_with(
        manifest: &Manifest,
        global: Option<&Manifest>,
        env_vars: &EnvVars,
        cli: &CliOverrides,
    ) -> (r: Self)
        ensures
            resolved_as(
                r.compiler,
                layered(
                    None,
                    some_of(global_compiler(global)),
                    some_of(manifest.toolchain.compiler),
                    some_of(env_value(env_vars.compiler, |s: Seq<char>| compiler_named(s))),
                    some_of(cli.compiler),
                ),
            ),
            resolved_as(
                r.linker,
                layered(
                    None,
                    some_of(global_linker(global)),
                    some_of(manifest.toolchain.linker),
                    some_of(env_value(env_vars.linker, |s: Seq<char>| linker_named(s))),
                    some_of(cli.linker),
                ),
            ),
            resolved_as(
                r.cpp_standard,
                layered(
                    CppStandard::Cpp20,
                    global_cpp(global),
                    manifest.language.cpp,
                    env_value(env_vars.cpp, |s: Seq<char>| cpp_standard_named(s)),
                    None,
                ),
            ),
    {
        let mut config = ResolvedConfig {
            compiler: WithOrigin { value: None, origin: Origin::Default },
            linker: WithOrigin { value: None, origin: Origin::Default },
            cpp_standard: WithOrigin { value: CppStandard::Cpp20, origin: Origin::Default },
        };
        if let Some(g) = global {
            set_from(&mut config.compiler, some_copy(g.toolchain.compiler), Origin::Global);
            set_from(&mut config.linker, some_copy(g.toolchain.linker), Origin::Global);
            set_from(&mut config.cpp_standard, g.language.cpp, Origin::Global);
        }
        set_from(&mut config.compiler, some_copy(manifest.toolchain.compiler), Origin::Project);
        set_from(&mut config.linker, some_copy(manifest.toolchain.linker), Origin::Project);
        set_from(&mut config.cpp_standard, manifest.language.cpp, Origin::Project);
        set_from(&mut config.compiler, some_copy(env_compiler(&env_vars.compiler)), Origin::Env);
        set_from(&mut config.linker, some_copy(env_linker(&env_vars.linker)), Origin::Env);
        set_from(&mut config.cpp_standard, env_cpp(&env_vars.cpp), Origin::Env);
        set_from(&mut config.compiler, some_copy(cli.compiler), Origin::Cli);
        set_from(&mut config.linker, some_copy(cli.linker), Origin::Cli);
        config
    }
}

/// A layer overrides the weaker ones exactly where it sets a value: what
/// the command line sets wins, and where it sets nothing the result is the
/// one without it.
pub proof fn lemma_stronger_layer_wins<T>(
    d: T,
    global: Option<T>,
    project: Option<T>,
    env: Option<T>,
    cli: Option<T>,
)
    ensures
        cli matches Some(c) ==> layered(d, global, project, env, cli) == (c, Origin::Cli),
        cli is None ==> layered(d, global, project, env, cli) == layered(d, global, project, env, None),
        cli is None && env is Some ==> layered(d, global, project, env, cli) == (env->0, Origin::Env),
        cli is None && env is None && project is Some ==> layered(d, global, project, env, cli) == (
            project->0,
            Origin::Project,
        ),
        layered(d, global, project, env, cli).1 == Origin::Default ==> global is None && project is None
            && env is None && cli is None,
{
}

} // verus!
