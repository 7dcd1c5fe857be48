//! The project manifest (`Ordo.toml`): its data model, validation,
//! dependency classification and build-profile resolution.
use vstd::prelude::*;
use crate::cli::StyleMode;
use crate::strmap::{StrMap, StrSet};
use crate::text::{str_eq, strs};

verus! {

#[derive(Debug, Clone, Copy, PartialEq, Eq, Structural)]
pub enum PackageType {
    Executable,
    StaticLibrary,
    SharedLibrary,
}

impl PackageType {
    /// The name a manifest gives the type (`executable`, ...).
    pub fn name(&self) -> (r: &'static str)
        ensures
            r@ == package_type_name(*self),
    {
        match self {
            PackageType::Executable => "executable",
            PackageType::StaticLibrary => "static-library",
            PackageType::SharedLibrary => "shared-library",
        }
    }

    pub fn from_name(s: &str) -> (r: Option<Self>)
        ensures
            r matches Some(t) ==> package_type_name(t) == s@,
            r is None ==> forall|t: PackageType| package_type_name(t) != s@,
    {
        if str_eq(s, "executable") {
            Some(PackageType::Executable)
        } else if str_eq(s, "static-library") {
            Some(PackageType::StaticLibrary)
        } else if str_eq(s, "shared-library") {
            Some(PackageType::SharedLibrary)
        } else {
            None
        }
    }
}

pub open spec fn package_type_name(t: PackageType) -> Seq<char> {
    match t {
        PackageType::Executable => "executable"@,
        PackageType::StaticLibrary => "static-library"@,
        PackageType::SharedLibrary => "shared-library"@,
    }
}

#[derive(Debug, Clone, Copy, PartialEq, Eq, Structural)]
pub enum CStandard {
    C11,
    C17,
    C23,
}

impl CStandard {
    pub fn as_flag(&self) -> (r: &'static str)
        ensures
            r@ == c_standard_flag(*self),
    {
        match self {
            CStandard::C11 => "c11",
            CStandard::C17 => "c17",
            CStandard::C23 => "c23",
        }
    }

    pub fn from_name(s: &str) -> (r: Option<Self>)
        ensures
            r matches Some(t) ==> c_standard_flag(t) == s@,
            r is None ==> forall|t: CStandard| c_standard_flag(t) != s@,
    {
        if str_eq(s, "c11") {
            Some(CStandard::C11)
        } else if str_eq(s, "c17") {
            Some(CStandard::C17)
        } else if str_eq(s, "c23") {
            Some(CStandard::C23)
        } else {
            None
        }
    }
}

pub open spec fn c_standard_flag(s: CStandard) -> Seq<char> {
    match s {
        CStandard::C11 => "c11"@,
        CStandard::C17 => "c17"@,
        CStandard::C23 => "c23"@,
    }
}

#[derive(Debug, Clone, Copy, PartialEq, Eq, Structural)]
pub enum CppStandard {
    Cpp17,
    Cpp20,
    Cpp23,
    Cpp26,
}

impl CppStandard {
    pub fn as_flag(&self) -> (r: &'static str)
        ensures
            r@ == cpp_standard_flag(*self),
    {
        match self {
            CppStandard::Cpp17 => "c++17",
            CppStandard::Cpp20 => "c++20",
            CppStandard::Cpp23 => "c++23",
            CppStandard::Cpp26 => "c++26",
        }
    }
}

pub open spec fn cpp_standard_flag(s: CppStandard) -> Seq<char> {
    match s {
        CppStandard::Cpp17 => "c++17"@,
        CppStandard::Cpp20 => "c++20"@,
        CppStandard::Cpp23 => "c++23"@,
        CppStandard::Cpp26 => "c++26"@,
    }
}

#[derive(Debug, Clone, Copy, PartialEq, Eq, Structural)]
pub enum CompilerKind {
    Clang,
    Gcc,
    Msvc,
    ClangCl,
}

impl CompilerKind {
    /// The name the manifest and the command line give the compiler.
    pub fn name(&self) -> (r: &'static str)
        ensures
            r@ == compiler_name(*self),
    {
        match self {
            CompilerKind::Clang => "clang",
            CompilerKind::Gcc => "gcc",
            CompilerKind::Msvc => "msvc",
            CompilerKind::ClangCl => "clang-cl",
        }
    }
}

pub open spec fn compiler_name(k: CompilerKind) -> Seq<char> {
    match k {
        CompilerKind::Clang => "clang"@,
        CompilerKind::Gcc => "gcc"@,
        CompilerKind::Msvc => "msvc"@,
        CompilerKind::ClangCl => "clang-cl"@,
    }
}

#[derive(Debug, Clone, Copy, PartialEq, Eq, Structural)]
pub enum LinkerKind {
    Lld,
    Mold,
    Gold,
    Default,
}

impl LinkerKind {
    pub fn name(&self) -> (r: &'static str)
        ensures
            r@ == linker_name(*self),
    {
        match self {
            LinkerKind::Lld => "lld",
            LinkerKind::Mold => "mold",
            LinkerKind::Gold => "gold",
            LinkerKind::Default => "default",
        }
    }
}

pub open spec fn linker_name(k: LinkerKind) -> Seq<char> {
    match k {
        LinkerKind::Lld => "lld"@,
        LinkerKind::Mold => "mold"@,
        LinkerKind::Gold => "gold"@,
        LinkerKind::Default => "default"@,
    }
}

#[derive(Debug, Clone, Copy, PartialEq, Eq, Structural)]
pub enum OptLevel {
    O0,
    O1,
    O2,
    O3,
    Os,
    Oz,
}

impl OptLevel {
    pub fn as_flag(&self) -> (r: &'static str)
        ensures
            r@ == opt_level_flag(*self),
    {
        match self {
            OptLevel::O0 => "0",
            OptLevel::O1 => "1",
            OptLevel::O2 => "2",
            OptLevel::O3 => "3",
            OptLevel::Os => "s",
            OptLevel::Oz => "z",
        }
    }

    /// An integer `opt-level` of the manifest: 0 to 3.
    pub fn from_int(v: i64) -> (r: Option<Self>)
        ensures
            r == opt_level_from_int(v as int),
    {
        if v == 0 {
            Some(OptLevel::O0)
        } else if v == 1 {
            Some(OptLevel::O1)
        } else if v == 2 {
            Some(OptLevel::O2)
        } else if v == 3 {
            Some(OptLevel::O3)
        } else {
            None
        }
    }

    /// A string `opt-level` of the manifest: a flag letter or digit.
    pub fn from_name(s: &str) -> (r: Option<Self>)
        ensures
            r matches Some(o) ==> opt_level_flag(o) == s@,
            r is None ==> forall|o: OptLevel| opt_level_flag(o) != s@,
    {
        if str_eq(s, "0") {
            Some(OptLevel::O0)
        } else if str_eq(s, "1") {
            Some(OptLevel::O1)
        } else if str_eq(s, "2") {
            Some(OptLevel::O2)
        } else if str_eq(s, "3") {
            Some(OptLevel::O3)
        } else if str_eq(s, "s") {
            Some(OptLevel::Os)
        } else if str_eq(s, "z") {
            Some(OptLevel::Oz)
        } else {
            None
        }
    }
}

pub open spec fn opt_level_flag(o: OptLevel) -> Seq<char> {
    match o {
        OptLevel::O0 => "0"@,
        OptLevel::O1 => "1"@,
        OptLevel::O2 => "2"@,
        OptLevel::O3 => "3"@,
        OptLevel::Os => "s"@,
        OptLevel::Oz => "z"@,
    }
}

pub open spec fn opt_level_from_int(v: int) -> Option<OptLevel> {
    if v == 0 {
        Some(OptLevel::O0)
    } else if v == 1 {
        Some(OptLevel::O1)
    } else if v == 2 {
        Some(OptLevel::O2)
    } else if v == 3 {
        Some(OptLevel::O3)
    } else {
        None
    }
}

#[derive(Debug, Clone, Copy, PartialEq, Eq, Structural)]
pub enum LtoMode {
    Off,
    Thin,
    Full,
}

impl LtoMode {
    pub fn default_mode() -> (r: Self)
        ensures
            r == LtoMode::Off,
    {
        LtoMode::Off
    }

    /// `lto = true|false` in the manifest.
    pub fn from_bool(b: bool) -> (r: Self)
        ensures
            r == (if b {
                LtoMode::Full
            } else {
                LtoMode::Off
            }),
    {
        if b {
            LtoMode::Full
        } else {
            LtoMode::Off
        }
    }

    /// `lto = "..."` in the manifest.
    pub fn from_name(s: &str) -> (r: Option<Self>)
        ensures
            r == lto_from_name(s@),
    {
        if str_eq(s, "false") || str_eq(s, "off") {
            Some(LtoMode::Off)
        } else if str_eq(s, "thin") {
            Some(LtoMode::Thin)
        } else if str_eq(s, "full") || str_eq(s, "true") {
            Some(LtoMode::Full)
        } else {
            None
        }
    }
}

pub open spec fn lto_from_name(s: Seq<char>) -> Option<LtoMode> {
    if s == "false"@ || s == "off"@ {
        Some(LtoMode::Off)
    } else if s == "thin"@ {
        Some(LtoMode::Thin)
    } else if s == "full"@ || s == "true"@ {
        Some(LtoMode::Full)
    } else {
        None
    }
}

#[derive(Debug, Clone, Copy, PartialEq, Eq, Structural)]
pub enum WarningLevel {
    Default,
    All,
    Extra,
    Error,
}

#[derive(Debug, Clone, Copy, PartialEq, Eq, Structural)]
pub enum Sanitizer {
    Address,
    Undefined,
    Thread,
    Memory,
}

#[derive(Debug, Clone, Copy, PartialEq, Eq, Structural)]
pub enum ProviderKind {
    Vcpkg,
    Conan,
    PkgConfig,
    System,
}

impl ProviderKind {
    pub fn name(&self) -> (r: &'static str)
        ensures
            r@ == provider_name(*self),
    {
        match self {
            ProviderKind::Vcpkg => "vcpkg",
            ProviderKind::Conan => "conan",
            ProviderKind::PkgConfig => "pkg-config",
            ProviderKind::System => "system",
        }
    }
}

pub open spec fn provider_name(k: ProviderKind) -> Seq<char> {
    match k {
        ProviderKind::Vcpkg => "vcpkg"@,
        ProviderKind::Conan => "conan"@,
        ProviderKind::PkgConfig => "pkg-config"@,
        ProviderKind::System => "system"@,
    }
}

#[derive(Debug, Clone, Copy, PartialEq, Eq, Structural)]
pub enum TestFramework {
    Gtest,
    Catch2,
    Doctest,
    Plain,
}

#[derive(Debug, Clone)]
pub struct Package {
    pub name: String,
    pub version: String,
    pub package_type: PackageType,
    pub license: Option<String>,
    pub description: Option<String>,
    pub authors: Vec<String>,
    pub repository: Option<String>,
}

#[derive(Debug, Clone, Copy)]
pub struct Language {
    pub c: Option<CStandard>,
    pub cpp: Option<CppStandard>,
}

impl Language {
    pub fn unset() -> (r: Self)
        ensures
            r.c is None && r.cpp is None,
    {
        Language { c: None, cpp: None }
    }
}

#[derive(Debug, Clone, Copy)]
pub struct Toolchain {
    pub compiler: Option<CompilerKind>,
    pub linker: Option<LinkerKind>,
}

impl Toolchain {
    pub fn unset() -> (r: Self)
        ensures
            r.compiler is None && r.linker is None,
    {
        Toolchain { compiler: None, linker: None }
    }
}

#[derive(Debug, Clone, Copy)]
pub struct CliConfig {
    pub style: Option<StyleMode>,
}

/// A dependency as the manifest declares it.
#[derive(Debug, Clone)]
pub struct DependencySpec {
    pub version: Option<String>,
    pub path: Option<String>,
    pub git: Option<String>,
    pub tag: Option<String>,
    pub branch: Option<String>,
    pub rev: Option<String>,
    pub provider: Option<ProviderKind>,
    pub optional: bool,
    pub workspace: bool,
    pub features: Vec<String>,
    pub with: Option<String>,
}

/// Where a dependency comes from.
#[derive(Debug, Clone, Copy, PartialEq, Eq, Structural)]
pub enum DependencySource {
    Path,
    Git,
    Registry,
    Provider(ProviderKind),
    Workspace,
    Unknown,
}

/// The source a dependency's fields select, in order of precedence:
/// workspace, path, git, provider, version.
pub open spec fn source_of(d: DependencySpec) -> DependencySource {
    if d.workspace {
        DependencySource::Workspace
    } else if d.path is Some {
        DependencySource::Path
    } else if d.git is Some {
        DependencySource::Git
    } else if d.provider is Some {
        DependencySource::Provider(d.provider->0)
    } else if d.version is Some {
        DependencySource::Registry
    } else {
        DependencySource::Unknown
    }
}

impl DependencySpec {
    /// The short form `name = "<version>"`.
    pub fn from_version(v: String) -> (r: Self)
        ensures
            r.version == Some(v),
            r.path is None && r.git is None && r.tag is None && r.branch is None && r.rev is None,
            r.provider is None && !r.optional && !r.workspace && r.features@.len() == 0,
            r.with is None,
    {
        DependencySpec {
            version: Some(v),
            path: None,
            git: None,
            tag: None,
            branch: None,
            rev: None,
            provider: None,
            optional: false,
            workspace: false,
            features: Vec::new(),
            with: None,
        }
    }

    pub fn source_kind(&self) -> (r: DependencySource)
        ensures
            r == source_of(*self),
    {
        if self.workspace {
            DependencySource::Workspace
        } else if self.path.is_some() {
            DependencySource::Path
        } else if self.git.is_some() {
            DependencySource::Git
        } else if let Some(provider) = self.provider {
            DependencySource::Provider(provider)
        } else if self.version.is_some() {
            DependencySource::Registry
        } else {
            DependencySource::Unknown
        }
    }
}

#[derive(Debug, Clone)]
pub struct WorkspaceConfig {
    pub members: Vec<String>,
    pub exclude: Vec<String>,
    pub dependencies: StrMap<DependencySpec>,
}

#[derive(Debug, Clone)]
pub struct FeaturePrefixConfig {
    pub prefix: String,
}

impl FeaturePrefixConfig {
    /// The prefix of feature defines when the manifest names none.
    pub fn default_prefix() -> (r: String)
        ensures
            r@ == "ORDO_FEATURE_"@,
    {
        "ORDO_FEATURE_".to_string()
    }
}

/// The `[features]` table: the default features, each feature's list of
/// what it enables, and the define prefix.
#[derive(Debug, Clone)]
pub struct FeatureConfig {
    pub default: Vec<String>,
    pub features: StrMap<Vec<String>>,
    pub config: Option<FeaturePrefixConfig>,
}

pub open spec fn feature_prefix(f: FeatureConfig) -> Seq<char> {
    match f.config {
        Some(c) => c.prefix@,
        None => "ORDO_FEATURE_"@,
    }
}

impl FeatureConfig {
    pub fn empty() -> (r: Self)
        ensures
            r.default@.len() == 0,
            r.features.wf(),
            r.features.key_list().len() == 0,
            r.config is None,
    {
        FeatureConfig { default: Vec::new(), features: StrMap::new(), config: None }
    }

    pub fn prefix(&self) -> (r: &str)
        ensures
            r@ == feature_prefix(*self),
    {
        match &self.config {
            Some(c) => c.prefix.as_str(),
            None => "ORDO_FEATURE_",
        }
    }

    pub fn is_empty(&self) -> (b: bool)
        requires
            self.features.wf(),
        ensures
            b == (self.default@.len() == 0 && self.features.key_list().len() == 0),
    {
        self.default.len() == 0 && self.features.is_empty()
    }
}

/// A `[profile.<name>]` table: every field may be left unset.
#[derive(Debug, Clone)]
pub struct ProfileConfig {
    pub inherits: Option<String>,
    pub opt_level: Option<OptLevel>,
    pub debug: Option<bool>,
    pub assertions: Option<bool>,
    pub sanitize: Option<Vec<Sanitizer>>,
    pub lto: Option<LtoMode>,
    pub strip: Option<bool>,
    pub pic: Option<bool>,
    pub rtti: Option<bool>,
    pub exceptions: Option<bool>,
    pub warnings: Option<WarningLevel>,
    pub linker: Option<String>,
    pub static_runtime: Option<bool>,
    pub coverage: Option<bool>,
    pub split_debug: Option<bool>,
    pub pch: Option<String>,
    pub unity: Option<bool>,
    pub parallel: Option<u32>,
}

impl ProfileConfig {
    /// A profile table that sets nothing.
    pub fn empty() -> (r: Self)
        ensures
            profile_config_is_empty(r),
    {
        ProfileConfig {
            inherits: None,
            opt_level: None,
            debug: None,
            assertions: None,
            sanitize: None,
            lto: None,
            strip: None,
            pic: None,
            rtti: None,
            exceptions: None,
            warnings: None,
            linker: None,
            static_runtime: None,
            coverage: None,
            split_debug: None,
            pch: None,
            unity: None,
            parallel: None,
        }
    }
}

pub open spec fn profile_config_is_empty(c: ProfileConfig) -> bool {
    &&& c.inherits is None
    &&& c.opt_level is None
    &&& c.debug is None
    &&& c.assertions is None
    &&& c.sanitize is None
    &&& c.lto is None
    &&& c.strip is None
    &&& c.pic is None
    &&& c.rtti is None
    &&& c.exceptions is None
    &&& c.warnings is None
    &&& c.linker is None
    &&& c.static_runtime is None
    &&& c.coverage is None
    &&& c.split_debug is None
    &&& c.pch is None
    &&& c.unity is None
    &&& c.parallel is None
}

/// A resolved build profile.
#[derive(Debug, Clone, PartialEq)]
pub struct Profile {
    pub opt_level: OptLevel,
    pub debug: bool,
    pub assertions: bool,
    pub sanitize: Vec<Sanitizer>,
    pub lto: LtoMode,
    pub strip: bool,
    pub pic: bool,
    pub rtti: bool,
    pub exceptions: bool,
    pub warnings: WarningLevel,
    pub linker: Option<String>,
    pub static_runtime: bool,
    pub coverage: bool,
    pub split_debug: bool,
    pub pch: Option<String>,
    pub unity: Option<bool>,
    pub parallel: Option<u32>,
}

/// The mathematical value of a profile.
pub struct ProfileView {
    pub opt_level: OptLevel,
    pub debug: bool,
    pub assertions: bool,
    pub sanitize: Seq<Sanitizer>,
    pub lto: LtoMode,
    pub strip: bool,
    pub pic: bool,
    pub rtti: bool,
    pub exceptions: bool,
    pub warnings: WarningLevel,
    pub linker: Option<Seq<char>>,
    pub static_runtime: bool,
    pub coverage: bool,
    pub split_debug: bool,
    pub pch: Option<Seq<char>>,
    pub unity: Option<bool>,
    pub parallel: Option<u32>,
}

pub open spec fn opt_str(o: Option<String>) -> Option<Seq<char>> {
    match o {
        Some(s) => Some(s@),
        None => None,
    }
}

impl View for Profile {
    type V = ProfileView;

    open spec fn view(&self) -> ProfileView {
        ProfileView {
            opt_level: self.opt_level,
            debug: self.debug,
            assertions: self.assertions,
            sanitize: self.sanitize@,
            lto: self.lto,
            strip: self.strip,
            pic: self.pic,
            rtti: self.rtti,
            exceptions: self.exceptions,
            warnings: self.warnings,
            linker: opt_str(self.linker),
            static_runtime: self.static_runtime,
            coverage: self.coverage,
            split_debug: self.split_debug,
            pch: opt_str(self.pch),
            unity: self.unity,
            parallel: self.parallel,
        }
    }
}

/// The `dev` profile before user settings.
pub open spec fn dev_profile() -> ProfileView {
    ProfileView {
        opt_level: OptLevel::O0,
        debug: true,
        assertions: true,
        sanitize: Seq::empty(),
        lto: LtoMode::Off,
        strip: false,
        pic: false,
        rtti: true,
        exceptions: true,
        warnings: WarningLevel::All,
        linker: None,
        static_runtime: false,
        coverage: false,
        split_debug: false,
        pch: None,
        unity: None,
        parallel: None,
    }
}

/// The `release` profile before user settings.
pub open spec fn release_profile() -> ProfileView {
    ProfileView {
        opt_level: OptLevel::O3,
        debug: false,
        assertions: false,
        sanitize: Seq::empty(),
        lto: LtoMode::Off,
        strip: true,
        pic: false,
        rtti: true,
        exceptions: true,
        warnings: WarningLevel::All,
        linker: None,
        static_runtime: false,
        coverage: false,
        split_debug: false,
        pch: None,
        unity: None,
        parallel: None,
    }
}

/// The `bench` profile before user settings: release with debug info.
pub open spec fn bench_profile() -> ProfileView {
    ProfileView { debug: true, ..release_profile() }
}

pub open spec fn keep<T>(o: Option<T>, d: T) -> T {
    match o {
        Some(v) => v,
        None => d,
    }
}

/// A profile table laid over a profile: each field it sets replaces the
/// profile's.
pub open spec fn merged(p: ProfileView, c: ProfileConfig) -> ProfileView {
    ProfileView {
        opt_level: keep(c.opt_level, p.opt_level),
        debug: keep(c.debug, p.debug),
        assertions: keep(c.assertions, p.assertions),
        sanitize: match c.sanitize {
            Some(v) => v@,
            None => p.sanitize,
        },
        lto: keep(c.lto, p.lto),
        strip: keep(c.strip, p.strip),
        pic: keep(c.pic, p.pic),
        rtti: keep(c.rtti, p.rtti),
        exceptions: keep(c.exceptions, p.exceptions),
        warnings: keep(c.warnings, p.warnings),
        linker: if c.linker is Some {
            opt_str(c.linker)
        } else {
            p.linker
        },
        static_runtime: keep(c.static_runtime, p.static_runtime),
        coverage: keep(c.coverage, p.coverage),
        split_debug: keep(c.split_debug, p.split_debug),
        pch: if c.pch is Some {
            opt_str(c.pch)
        } else {
            p.pch
        },
        unity: if c.unity is Some {
            c.unity
        } else {
            p.unity
        },
        parallel: if c.parallel is Some {
            c.parallel
        } else {
            p.parallel
        },
    }
}

fn clone_opt_string(o: &Option<String>) -> (r: Option<String>)
    ensures
        r == *o,
{
    match o {
        Some(s) => Some(s.clone()),
        None => None,
    }
}

fn clone_sanitizers(v: &Vec<Sanitizer>) -> (r: Vec<Sanitizer>)
    ensures
        r@ == v@,
{
    let mut r: Vec<Sanitizer> = Vec::new();
    let mut i: usize = 0;
    while i < v.len()
        invariant
            i <= v.len(),
            r@ == v@.subrange(0, i as int),
        decreases v.len() - i,
    {
        r.push(v[i]);
        assert(v@.subrange(0, i + 1) == v@.subrange(0, i as int).push(v@[i as int]));
        i += 1;
    }
    assert(v@.subrange(0, v.len() as int) =~= v@);
    r
}

impl Profile {
    pub fn dev_defaults() -> (r: Self)
        ensures
            r@ == dev_profile(),
    {
        let r = Profile {
            opt_level: OptLevel::O0,
            debug: true,
            assertions: true,
            sanitize: Vec::new(),
            lto: LtoMode::Off,
            strip: false,
            pic: false,
            rtti: true,
            exceptions: true,
            warnings: WarningLevel::All,
            linker: None,
            static_runtime: false,
            coverage: false,
            split_debug: false,
            pch: None,
            unity: None,
            parallel: None,
        };
        assert(r@.sanitize =~= Seq::<Sanitizer>::empty());
        r
    }

    pub fn release_defaults() -> (r: Self)
        ensures
            r@ == release_profile(),
    {
        let r = Profile {
            opt_level: OptLevel::O3,
            debug: false,
            assertions: false,
            sanitize: Vec::new(),
            lto: LtoMode::Off,
            strip: true,
            pic: false,
            rtti: true,
            exceptions: true,
            warnings: WarningLevel::All,
            linker: None,
            static_runtime: false,
            coverage: false,
            split_debug: false,
            pch: None,
            unity: None,
            parallel: None,
        };
        assert(r@.sanitize =~= Seq::<Sanitizer>::empty());
        r
    }

    /// A one-line description, such as `unoptimized + debuginfo`.
    pub fn display_desc(&self) -> (r: String)
        ensures
            r@ == profile_desc(self@),
    {
        let first = match self.opt_level {
            OptLevel::O0 => "unoptimized",
            OptLevel::O1 => "basic optimization",
            OptLevel::O2 => "optimized",
            OptLevel::O3 => "max optimization",
            OptLevel::Os => "size-optimized",
            OptLevel::Oz => "min-size",
        };
        let mut r = first.to_string();
        if self.debug {
            r.append(" + debuginfo");
        }
        if self.lto != LtoMode::Off {
            r.append(" + lto");
        }
        r
    }

    /// Lays a profile table over this profile.
    pub fn merge_from(&mut self, config: &ProfileConfig)
        ensures
            final(self)@ == merged(old(self)@, *config),
    {
        self.opt_level = pick(config.opt_level, self.opt_level);
        self.debug = pick(config.debug, self.debug);
        self.assertions = pick(config.assertions, self.assertions);
        pick_sanitizers(&config.sanitize, &mut self.sanitize);
        self.lto = pick(config.lto, self.lto);
        self.strip = pick(config.strip, self.strip);
        self.pic = pick(config.pic, self.pic);
        self.rtti = pick(config.rtti, self.rtti);
        self.exceptions = pick(config.exceptions, self.exceptions);
        self.warnings = pick(config.warnings, self.warnings);
        pick_string(&config.linker, &mut self.linker);
        self.static_runtime = pick(config.static_runtime, self.static_runtime);
        self.coverage = pick(config.coverage, self.coverage);
        self.split_debug = pick(config.split_debug, self.split_debug);
        pick_string(&config.pch, &mut self.pch);
        self.unity = pick_opt(config.unity, self.unity);
        self.parallel = pick_opt(config.parallel, self.parallel);
    }
}

fn pick<T: Copy>(o: Option<T>, d: T) -> (r: T)
    ensures
        r == keep(o, d),
{
    match o {
        Some(v) => v,
        None => d,
    }
}

fn pick_opt<T: Copy>(o: Option<T>, d: Option<T>) -> (r: Option<T>)
    ensures
        r == (if o is Some {
            o
        } else {
            d
        }),
{
    if o.is_some() {
        o
    } else {
        d
    }
}

fn pick_string(o: &Option<String>, target: &mut Option<String>)
    ensures
        opt_str(*final(target)) == (if o is Some {
            opt_str(*o)
        } else {
            opt_str(*old(target))
        }),
{
    if o.is_some() {
        *target = clone_opt_string(o);
    }
}

fn pick_sanitizers(o: &Option<Vec<Sanitizer>>, target: &mut Vec<Sanitizer>)
    ensures
        final(target)@ == (match *o {
            Some(v) => v@,
            None => old(target)@,
        }),
{
    if let Some(v) = o {
        *target = clone_sanitizers(v);
    }
}

pub open spec fn opt_desc(o: OptLevel) -> Seq<char> {
    match o {
        OptLevel::O0 => "unoptimized"@,
        OptLevel::O1 => "basic optimization"@,
        OptLevel::O2 => "optimized"@,
        OptLevel::O3 => "max optimization"@,
        OptLevel::Os => "size-optimized"@,
        OptLevel::Oz => "min-size"@,
    }
}

/// The parts of a profile's description, joined by ` + `.
pub open spec fn profile_desc(p: ProfileView) -> Seq<char> {
    opt_desc(p.opt_level) + (if p.debug {
        " + debuginfo"@
    } else {
        Seq::empty()
    }) + (if p.lto != LtoMode::Off {
        " + lto"@
    } else {
        Seq::empty()
    })
}

} // verus!

verus! {

/// What can go wrong with a manifest.
#[derive(Debug)]
pub enum ManifestError {
    /// The file could not be read.
    ReadError { detail: String },
    /// The file is not a well-formed manifest (a TOML or shape error).
    ParseError { message: String, span: Option<(usize, usize)> },
    /// The manifest is well-formed but its content is not acceptable.
    ValidationError { message: String, help: Option<String> },
}

pub open spec fn validation_error_is(e: ManifestError, msg: Seq<char>, help: Seq<char>) -> bool {
    match e {
        ManifestError::ValidationError { message, help: h } => message@ == msg && h is Some
            && h->0@ == help,
        _ => false,
    }
}

impl ManifestError {
    /// The one-line description of the error.
    pub fn render(&self) -> (r: String)
        ensures
            r@ == (match *self {
                ManifestError::ReadError { .. } => "failed to read Ordo.toml"@,
                ManifestError::ParseError { message, .. } => message@,
                ManifestError::ValidationError { message, .. } => message@,
            }),
    {
        match self {
            ManifestError::ReadError { .. } => "failed to read Ordo.toml".to_string(),
            ManifestError::ParseError { message, .. } => message.clone(),
            ManifestError::ValidationError { message, .. } => message.clone(),
        }
    }

    pub fn is_validation(&self) -> (b: bool)
        ensures
            b == (*self is ValidationError),
    {
        match self {
            ManifestError::ValidationError { .. } => true,
            _ => false,
        }
    }

    pub fn is_parse(&self) -> (b: bool)
        ensures
            b == (*self is ParseError),
    {
        match self {
            ManifestError::ParseError { .. } => true,
            _ => false,
        }
    }
}

fn validation(message: String, help: String) -> (e: ManifestError)
    ensures
        validation_error_is(e, message@, help@),
{
    ManifestError::ValidationError { message, help: Some(help) }
}

/// The parsed content of an `Ordo.toml`.
#[derive(Debug)]
pub struct Manifest {
    pub package: Option<Package>,
    pub workspace: Option<WorkspaceConfig>,
    pub language: Language,
    pub toolchain: Toolchain,
    pub cli: Option<CliConfig>,
    pub features: FeatureConfig,
    pub profile: StrMap<ProfileConfig>,
    pub dependencies: StrMap<DependencySpec>,
    pub dev_dependencies: StrMap<DependencySpec>,
}

impl Manifest {
    /// The maps of the manifest are well-formed.
    pub open spec fn wf(&self) -> bool {
        &&& self.features.features.wf()
        &&& self.profile.wf()
        &&& self.dependencies.wf()
        &&& self.dev_dependencies.wf()
        &&& (self.workspace matches Some(ws) ==> ws.dependencies.wf())
    }

    /// A manifest with no section at all (what an empty file holds).
    pub fn empty() -> (r: Self)
        ensures
            r.wf(),
            r.package is None,
            r.workspace is None,
            r.language.c is None && r.language.cpp is None,
            r.toolchain.compiler is None && r.toolchain.linker is None,
            r.cli is None,
            r.features.default@.len() == 0,
            r.features.features.key_list().len() == 0,
            r.features.config is None,
            r.profile.key_list().len() == 0,
            r.dependencies.key_list().len() == 0,
            r.dev_dependencies.key_list().len() == 0,
    {
        Manifest {
            package: None,
            workspace: None,
            language: Language::unset(),
            toolchain: Toolchain::unset(),
            cli: None,
            features: FeatureConfig::empty(),
            profile: StrMap::new(),
            dependencies: StrMap::new(),
            dev_dependencies: StrMap::new(),
        }
    }

    pub fn package(&self) -> (r: &Package)
        requires
            self.package is Some,
        ensures
            *r == self.package->0,
    {
        self.package.as_ref().unwrap()
    }

    pub fn is_workspace(&self) -> (b: bool)
        ensures
            b == self.workspace is Some,
    {
        self.workspace.is_some()
    }

    pub fn is_virtual_workspace(&self) -> (b: bool)
        ensures
            b == (self.workspace is Some && self.package is None),
    {
        self.workspace.is_some() && self.package.is_none()
    }
}

/// How following `inherits` from a profile name ends: on a name seen
/// before, or on a name without table or without `inherits`, having
/// collected the tables met on the way (the named profile's first).
pub enum ChainEnd {
    Cycle(Seq<char>),
    Stop(Seq<ProfileConfig>, Seq<char>),
}

pub open spec fn prepend_chain(c: ProfileConfig, e: ChainEnd) -> ChainEnd {
    match e {
        ChainEnd::Cycle(x) => ChainEnd::Cycle(x),
        ChainEnd::Stop(ch, last) => ChainEnd::Stop(seq![c] + ch, last),
    }
}

/// Follows `inherits` from `cur`. `fuel` bounds the number of steps; it is
/// started at the number of profile tables, which each step consumes one
/// of, so it never runs out before a repetition is met.
pub open spec fn follow_inherits(
    m: StrMap<ProfileConfig>,
    cur: Seq<char>,
    visited: Set<Seq<char>>,
    fuel: nat,
) -> ChainEnd
    decreases fuel,
{
    if visited.contains(cur) {
        ChainEnd::Cycle(cur)
    } else {
        match m.lookup(cur) {
            None => ChainEnd::Stop(seq![], cur),
            Some(c) => match c.inherits {
                None => ChainEnd::Stop(seq![c], cur),
                Some(n) => if fuel == 0 {
                    ChainEnd::Cycle(cur)
                } else {
                    prepend_chain(c, follow_inherits(m, n@, visited.insert(cur), (fuel - 1) as nat))
                },
            },
        }
    }
}

/// The tables at positions `ch` of the profile map.
pub open spec fn chain_configs(m: StrMap<ProfileConfig>, ch: Seq<usize>) -> Seq<ProfileConfig> {
    ch.map_values(|i: usize| m.value_list()[i as int])
}

/// The tables of a chain laid over `base`, the last table first.
pub open spec fn apply_chain(base: ProfileView, chain: Seq<ProfileConfig>) -> ProfileView
    decreases chain.len(),
{
    if chain.len() == 0 {
        base
    } else {
        merged(apply_chain(base, chain.drop_first()), chain[0])
    }
}

pub open spec fn canonical_profile_name(name: Seq<char>) -> Seq<char> {
    if name == "debug"@ {
        "dev"@
    } else {
        name
    }
}

/// How resolving a profile name ends.
pub enum ProfileOutcome {
    Resolved(ProfileView),
    Circular(Seq<char>),
    Unknown,
    NoInherits(Seq<char>),
    Undefined(Seq<char>),
}

pub open spec fn profile_outcome(m: Manifest, name: Seq<char>) -> ProfileOutcome {
    match follow_inherits(
        m.profile,
        canonical_profile_name(name),
        Set::empty(),
        m.profile.key_list().len(),
    ) {
        ChainEnd::Cycle(c) => ProfileOutcome::Circular(c),
        ChainEnd::Stop(chain, last) => if last == "dev"@ {
            ProfileOutcome::Resolved(apply_chain(dev_profile(), chain))
        } else if last == "release"@ {
            ProfileOutcome::Resolved(apply_chain(release_profile(), chain))
        } else if last == "bench"@ {
            ProfileOutcome::Resolved(apply_chain(bench_profile(), chain))
        } else if chain.len() == 0 {
            ProfileOutcome::Unknown
        } else if m.profile.has_key(last) {
            ProfileOutcome::NoInherits(last)
        } else {
            ProfileOutcome::Undefined(last)
        },
    }
}

/// The result of `resolve_profile` against the outcome: the profile, or
/// the validation error that names what went wrong.
pub open spec fn profile_result_matches(
    r: Result<Profile, ManifestError>,
    o: ProfileOutcome,
    name: Seq<char>,
) -> bool {
    match o {
        ProfileOutcome::Resolved(v) => r is Ok && r->Ok_0@ == v,
        ProfileOutcome::Circular(c) => r is Err && validation_error_is(
            r->Err_0,
            "circular profile inheritance: '"@ + c + "'"@,
            "check 'inherits' fields for cycles"@,
        ),
        ProfileOutcome::Unknown => r is Err && validation_error_is(
            r->Err_0,
            "unknown profile '"@ + name + "'"@,
            "use 'dev', 'release', 'bench', or define [profile.<name>] with 'inherits'"@,
        ),
        ProfileOutcome::NoInherits(o) => r is Err && validation_error_is(
            r->Err_0,
            "profile '"@ + o + "' must specify 'inherits'"@,
            "add inherits = \"dev\" or inherits = \"release\""@,
        ),
        ProfileOutcome::Undefined(o) => r is Err && validation_error_is(
            r->Err_0,
            "profile '"@ + o + "' referenced by 'inherits' is not defined"@,
            "define [profile."@ + o + "] or use a built-in name (dev, release, bench)"@,
        ),
    }
}

fn quoted(before: &str, mid: &str, after: &str) -> (r: String)
    ensures
        r@ == before@ + mid@ + after@,
{
    let mut r = before.to_string();
    r.append(mid);
    r.append(after);
    r
}

impl Manifest {
    /// Resolves a build profile by name: `debug` stands for `dev`; a
    /// `[profile.<name>]` table is laid over the profile it `inherits`
    /// from, down to one of the built-in `dev`, `release`, `bench`.
    pub fn resolve_profile(&self, name: &str) -> (r: Result<Profile, ManifestError>)
        requires
            self.wf(),
        ensures
            profile_result_matches(r, profile_outcome(*self, name@), name@),
    {
        let canonical: String = if str_eq(name, "debug") {
            "dev".to_string()
        } else {
            name.to_string()
        };
        let ghost m = self.profile;
        let ghost start = follow_inherits(m, canonical@, Set::empty(), m.key_list().len());
        let mut chain: Vec<usize> = Vec::new();
        let mut visited = StrSet::new();
        let mut current = canonical;
        let mut fuel: usize = self.profile.len();
        proof {
            m.lemma_wf();
            assert(visited.to_set() =~= Set::<Seq<char>>::empty());
        }
        let last_is_key: bool;
        assert(canonical@ == canonical_profile_name(name@));
        loop
            invariant_except_break
                start == ({
                    let rest = follow_inherits(m, current@, visited.to_set(), fuel as nat);
                    match rest {
                        ChainEnd::Cycle(x) => ChainEnd::Cycle(x),
                        ChainEnd::Stop(ch, l) => ChainEnd::Stop(chain_configs(m, chain@) + ch, l),
                    }
                }),
            invariant
                m == self.profile,
                m.wf(),
                visited.wf(),
                forall|k: int| 0 <= k < chain@.len() ==> chain@[k] < m.value_list().len(),
                start == follow_inherits(m, canonical_profile_name(name@), Set::empty(), m.key_list().len()),
                canonical_profile_name(name@) == canonical@,
            ensures
                match start {
                    ChainEnd::Cycle(_) => false,
                    ChainEnd::Stop(ch, l) => ch == chain_configs(m, chain@) && l == current@,
                },
                forall|k: int| 0 <= k < chain@.len() ==> chain@[k] < m.value_list().len(),
                last_is_key == m.has_key(current@),
            decreases fuel,
        {
            let ghost vis = visited.to_set();
            let ghost cv = chain_configs(m, chain@);
            let ghost old_chain = chain@;
            proof {
                m.lemma_wf();
            }
            if visited.contains(current.as_str()) {
                assert(visited.to_set().contains(current@));
                assert(start == ChainEnd::Cycle(current@));
                assert(profile_outcome(*self, name@) == ProfileOutcome::Circular(current@));
                return Err(
                    validation(
                        quoted("circular profile inheritance: '", current.as_str(), "'"),
                        "check 'inherits' fields for cycles".to_string(),
                    ),
                );
            }
            match self.profile.position(current.as_str()) {
                None => {
                    assert(chain_configs(m, chain@) + seq![] =~= chain_configs(m, chain@));
                    last_is_key = false;
                    break;
                },
                Some(i) => {
                    let config = &self.profile.values()[i];
                    let ghost c = m.value_list()[i as int];
                    match &config.inherits {
                        None => {
                            chain.push(i);
                            assert(chain@ == old_chain.push(i));
                            assert(chain_configs(m, chain@) =~= cv + seq![c]);
                            last_is_key = true;
                            break;
                        },
                        Some(n) => {
                            if fuel == 0 {
                                return Err(
                                    validation(
                                        quoted(
                                            "circular profile inheritance: '",
                                            current.as_str(),
                                            "'",
                                        ),
                                        "check 'inherits' fields for cycles".to_string(),
                                    ),
                                );
                            }
                            let next = n.clone();
                            visited.insert(current);
                            chain.push(i);
                            proof {
                                assert(chain@ == old_chain.push(i));
                                assert(chain_configs(m, chain@) =~= cv + seq![c]);
                                let rest = follow_inherits(m, next@, vis.insert(current@), (fuel - 1) as nat);
                                match rest {
                                    ChainEnd::Cycle(x) => {},
                                    ChainEnd::Stop(ch, l) => {
                                        assert(cv + (seq![c] + ch) =~= (cv + seq![c]) + ch);
                                    },
                                }
                            }
                            current = next;
                            fuel = fuel - 1;
                        },
                    }
                },
            }
        }
        let ghost chain_seq = chain_configs(m, chain@);
        let mut base = if str_eq(current.as_str(), "dev") {
            Profile::dev_defaults()
        } else if str_eq(current.as_str(), "release") {
            Profile::release_defaults()
        } else if str_eq(current.as_str(), "bench") {
            let mut p = Profile::release_defaults();
            p.debug = true;
            p
        } else {
            if chain.len() == 0 {
                return Err(
                    validation(
                        quoted("unknown profile '", name, "'"),
                        "use 'dev', 'release', 'bench', or define [profile.<name>] with 'inherits'".to_string(),
                    ),
                );
            }
            if last_is_key {
                return Err(
                    validation(
                        quoted("profile '", current.as_str(), "' must specify 'inherits'"),
                        "add inherits = \"dev\" or inherits = \"release\"".to_string(),
                    ),
                );
            }
            return Err(
                validation(
                    quoted(
                        "profile '",
                        current.as_str(),
                        "' referenced by 'inherits' is not defined",
                    ),
                    quoted(
                        "define [profile.",
                        current.as_str(),
                        "] or use a built-in name (dev, release, bench)",
                    ),
                ),
            );
        };
        let ghost base_view = base@;
        let mut k = chain.len();
        assert(chain_seq.len() == chain@.len());
        assert(chain_seq.subrange(k as int, chain_seq.len() as int) =~= Seq::<ProfileConfig>::empty());
        while k > 0
            invariant
                k <= chain@.len(),
                chain_seq == chain_configs(m, chain@),
                chain_seq.len() == chain@.len(),
                m == self.profile,
                m.wf(),
                forall|j: int| 0 <= j < chain@.len() ==> chain@[j] < m.value_list().len(),
                base@ == apply_chain(base_view, chain_seq.subrange(k as int, chain_seq.len() as int)),
            decreases k,
        {
            let pos = chain[k - 1];
            proof {
                m.lemma_wf();
                assert(chain_seq[k - 1] == m.value_list()[pos as int]);
            }
            base.merge_from(&self.profile.values()[pos]);
            assert(chain_seq.subrange(k - 1, chain_seq.len() as int).drop_first() =~= chain_seq.subrange(
                k as int,
                chain_seq.len() as int,
            ));
            k -= 1;
        }
        assert(chain_seq.subrange(0, chain_seq.len() as int) =~= chain_seq);
        Ok(base)
    }
}

} // verus!

verus! {

/// `MAJOR[.MINOR[.PATCH]]`: one to three dot-separated unsigned integers.
pub open spec fn semver_ok(v: Seq<char>) -> bool {
    let parts = crate::text::split_on(v, '.');
    &&& 1 <= parts.len() <= 3
    &&& forall|i: int| 0 <= i < parts.len() ==> crate::text::parse_u64_spec(#[trigger] parts[i]) is Some
}

/// A dependency that has `with` but no `git`.
pub open spec fn misplaced_with(d: DependencySpec) -> bool {
    d.with is Some && d.git is None
}

/// Position of the first (in key order) dependency with a misplaced `with`.
pub open spec fn first_misplaced_with(m: Manifest) -> Option<int> {
    let vals = m.dependencies.value_list();
    if exists|i: int| 0 <= i < vals.len() && misplaced_with(vals[i]) {
        Some(
            choose|i: int|
                0 <= i < vals.len() && misplaced_with(vals[i]) && forall|j: int|
                    0 <= j < i ==> !misplaced_with(vals[j]),
        )
    } else {
        None
    }
}

/// The first check a manifest fails, as (message, help); `None` when it
/// passes them all. The checks, in order: a `[package]` or `[workspace]`
/// is present; the package name is not empty; the package version is
/// SemVer; the workspace has members; `with` only on git dependencies.
pub open spec fn validation_failure(m: Manifest) -> Option<(Seq<char>, Seq<char>)> {
    if m.package is None && m.workspace is None {
        Some(
            (
                "Ordo.toml must contain [package] or [workspace] (or both)"@,
                "add a [package] or [workspace] section"@,
            ),
        )
    } else if m.package is Some && m.package->0.name@.len() == 0 {
        Some(("package name must not be empty"@, "set [package] name to a valid identifier"@))
    } else if m.package is Some && !semver_ok(m.package->0.version@) {
        Some(
            (
                "invalid version '"@ + m.package->0.version@ + "': expected SemVer (e.g., 0.1.0)"@,
                "use MAJOR.MINOR.PATCH format"@,
            ),
        )
    } else if m.workspace is Some && m.workspace->0.members@.len() == 0 {
        Some(
            (
                "workspace must have at least one member"@,
                "add member paths to [workspace] members = [\"libs/*\", \"apps/*\"]"@,
            ),
        )
    } else if first_misplaced_with(m) is Some {
        Some(
            (
                "dependency '"@ + m.dependencies.key_list()[first_misplaced_with(m)->0]
                    + "': `with` is only valid on git dependencies"@,
                "add a `git = \"...\"` field or remove `with`"@,
            ),
        )
    } else {
        None
    }
}

/// Is `version` SemVer in the sense of `semver_ok`?
pub fn version_is_semver(version: &str) -> (b: bool)
    ensures
        b == semver_ok(version@),
{
    let parts = crate::text::split_char(version, '.');
    if parts.len() < 1 || parts.len() > 3 {
        return false;
    }
    let mut i: usize = 0;
    while i < parts.len()
        invariant
            strs(parts@) == crate::text::split_on(version@, '.'),
            i <= parts.len(),
            forall|j: int| 0 <= j < i ==> crate::text::parse_u64_spec(#[trigger] strs(parts@)[j]) is Some,
        decreases parts.len() - i,
    {
        let cs = crate::text::chars_of(parts[i].as_str());
        if crate::text::parse_u64(&cs).is_none() {
            assert(strs(parts@)[i as int] == parts@[i as int]@);
            return false;
        }
        i += 1;
    }
    true
}

impl Manifest {
    /// Checks what the manifest's shape alone cannot: see
    /// `validation_failure` for the checks and their order.
    pub fn validate(&self) -> (r: Result<(), ManifestError>)
        requires
            self.wf(),
        ensures
            match validation_failure(*self) {
                None => r is Ok,
                Some((msg, help)) => r is Err && validation_error_is(r->Err_0, msg, help),
            },
    {
        if self.package.is_none() && self.workspace.is_none() {
            return Err(
                validation(
                    "Ordo.toml must contain [package] or [workspace] (or both)".to_string(),
                    "add a [package] or [workspace] section".to_string(),
                ),
            );
        }
        if let Some(pkg) = &self.package {
            if pkg.name.as_str().unicode_len() == 0 {
                return Err(
                    validation(
                        "package name must not be empty".to_string(),
                        "set [package] name to a valid identifier".to_string(),
                    ),
                );
            }
            if !version_is_semver(pkg.version.as_str()) {
                return Err(
                    validation(
                        quoted(
                            "invalid version '",
                            pkg.version.as_str(),
                            "': expected SemVer (e.g., 0.1.0)",
                        ),
                        "use MAJOR.MINOR.PATCH format".to_string(),
                    ),
                );
            }
        }
        if let Some(ws) = &self.workspace {
            if ws.members.len() == 0 {
                return Err(
                    validation(
                        "workspace must have at least one member".to_string(),
                        "add member paths to [workspace] members = [\"libs/*\", \"apps/*\"]".to_string(),
                    ),
                );
            }
        }
        let keys = self.dependencies.keys();
        let vals = self.dependencies.values();
        proof {
            self.dependencies.lemma_wf();
        }
        let mut i: usize = 0;
        while i < vals.len()
            invariant
                strs(keys@) == self.dependencies.key_list(),
                vals@ == self.dependencies.value_list(),
                keys@.len() == vals@.len(),
                i <= vals.len(),
                forall|j: int| 0 <= j < i ==> !misplaced_with(#[trigger] vals@[j]),
                self.package is Some || self.workspace is Some,
                self.package is Some ==> self.package->0.name@.len() != 0 && semver_ok(
                    self.package->0.version@,
                ),
                self.workspace is Some ==> self.workspace->0.members@.len() != 0,
            decreases vals.len() - i,
        {
            if vals[i].with.is_some() && vals[i].git.is_none() {
                proof {
                    let vl = self.dependencies.value_list();
                    let c = choose|c: int|
                        0 <= c < vl.len() && misplaced_with(vl[c]) && forall|j: int|
                            0 <= j < c ==> !misplaced_with(vl[j]);
                    assert(0 <= i < vl.len() && misplaced_with(vl[i as int]));
                    if c < i {
                    } else if c > i {
                        assert(!misplaced_with(vl[i as int]));
                    }
                    assert(first_misplaced_with(*self) == Some(i as int));
                    assert(strs(keys@)[i as int] == keys@[i as int]@);
                }
                return Err(
                    validation(
                        quoted(
                            "dependency '",
                            keys[i].as_str(),
                            "': `with` is only valid on git dependencies",
                        ),
                        "add a `git = \"...\"` field or remove `with`".to_string(),
                    ),
                );
            }
            i += 1;
        }
        Ok(())
    }
}


/// `debug` names the `dev` profile: both resolve alike, in every manifest.
pub proof fn lemma_debug_is_dev(m: Manifest)
    ensures
        profile_outcome(m, "debug"@) == profile_outcome(m, "dev"@),
{
    assert(canonical_profile_name("debug"@) == "dev"@);
    assert(canonical_profile_name("dev"@) == "dev"@) by {
        reveal_strlit("debug");
        reveal_strlit("dev");
        assert("dev"@.len() != "debug"@.len());
    }
}
} // verus!
