use ordo::config::{parse_compiler, parse_cpp_standard, parse_linker, CliOverrides, EnvVars, Origin, ResolvedConfig};
use ordo::manifest::{CompilerKind, CppStandard, LinkerKind, Manifest, Package, PackageType};

fn minimal_manifest() -> Manifest {
    let mut m = Manifest::empty();
    m.package = Some(Package {
        name: "test".to_string(),
        version: "0.1.0".to_string(),
        package_type: PackageType::Executable,
        license: None,
        description: None,
        authors: Vec::new(),
        repository: None,
    });
    m
}

fn manifest_with_toolchain() -> Manifest {
    let mut m = minimal_manifest();
    m.toolchain.compiler = Some(CompilerKind::Gcc);
    m.toolchain.linker = Some(LinkerKind::Mold);
    m.language.cpp = Some(CppStandard::Cpp23);
    m
}

fn no_env() -> EnvVars {
    EnvVars::none()
}

fn no_cli() -> CliOverrides {
    CliOverrides::none()
}

#[test]
fn defaults_when_nothing_set() {
    let config = ResolvedConfig::resolve_with(&minimal_manifest(), None, &no_env(), &no_cli());
    assert_eq!(config.compiler.value, None);
    assert_eq!(config.compiler.origin, Origin::Default);
    assert_eq!(config.cpp_standard.value, CppStandard::Cpp20);
    assert_eq!(config.cpp_standard.origin, Origin::Default);
}

#[test]
fn project_overrides_default() {
    let config = ResolvedConfig::resolve_with(&manifest_with_toolchain(), None, &no_env(), &no_cli());
    assert_eq!(config.compiler.value, Some(CompilerKind::Gcc));
    assert_eq!(config.compiler.origin, Origin::Project);
    assert_eq!(config.linker.value, Some(LinkerKind::Mold));
    assert_eq!(config.linker.origin, Origin::Project);
    assert_eq!(config.cpp_standard.value, CppStandard::Cpp23);
    assert_eq!(config.cpp_standard.origin, Origin::Project);
}

#[test]
fn env_overrides_project() {
    let env = EnvVars { compiler: Some("clang".to_string()), ..EnvVars::none() };
    let config = ResolvedConfig::resolve_with(&manifest_with_toolchain(), None, &env, &no_cli());
    assert_eq!(config.compiler.value, Some(CompilerKind::Clang));
    assert_eq!(config.compiler.origin, Origin::Env);
    assert_eq!(config.linker.value, Some(LinkerKind::Mold));
    assert_eq!(config.linker.origin, Origin::Project);
}

#[test]
fn cli_overrides_env() {
    let env = EnvVars { compiler: Some("clang".to_string()), ..EnvVars::none() };
    let cli = CliOverrides { compiler: Some(CompilerKind::Msvc), linker: None };
    let config = ResolvedConfig::resolve_with(&manifest_with_toolchain(), None, &env, &cli);
    assert_eq!(config.compiler.value, Some(CompilerKind::Msvc));
    assert_eq!(config.compiler.origin, Origin::Cli);
}

#[test]
fn env_cpp_standard_override() {
    let env = EnvVars { cpp: Some("c++26".to_string()), ..EnvVars::none() };
    let config = ResolvedConfig::resolve_with(&minimal_manifest(), None, &env, &no_cli());
    assert_eq!(config.cpp_standard.value, CppStandard::Cpp26);
    assert_eq!(config.cpp_standard.origin, Origin::Env);
}

#[test]
fn invalid_env_values_ignored() {
    let env = EnvVars { compiler: Some("turbo-c".to_string()), ..EnvVars::none() };
    let config = ResolvedConfig::resolve_with(&minimal_manifest(), None, &env, &no_cli());
    assert_eq!(config.compiler.value, None);
    assert_eq!(config.compiler.origin, Origin::Default);
}

#[test]
fn global_config_sits_between_default_and_project() {
    let mut global = Manifest::empty();
    global.toolchain.compiler = Some(CompilerKind::Clang);
    global.language.cpp = Some(CppStandard::Cpp17);
    let config = ResolvedConfig::resolve_with(&minimal_manifest(), Some(&global), &no_env(), &no_cli());
    assert_eq!(config.compiler.value, Some(CompilerKind::Clang));
    assert_eq!(config.compiler.origin, Origin::Global);
    assert_eq!(config.cpp_standard.value, CppStandard::Cpp17);
    assert_eq!(config.cpp_standard.origin, Origin::Global);
    let config = ResolvedConfig::resolve_with(&manifest_with_toolchain(), Some(&global), &no_env(), &no_cli());
    assert_eq!(config.compiler.value, Some(CompilerKind::Gcc));
    assert_eq!(config.compiler.origin, Origin::Project);
}

#[test]
fn origin_display() {
    assert_eq!(Origin::Default.to_string(), "default");
    assert_eq!(Origin::Cli.to_string(), "CLI flag");
    assert_eq!(Origin::Env.to_string(), "environment variable");
    assert_eq!(Origin::Project.to_string(), "Ordo.toml");
}

#[test]
fn name_parsers() {
    assert_eq!(parse_compiler("clang-cl"), Some(CompilerKind::ClangCl));
    assert_eq!(parse_compiler("icc"), None);
    assert_eq!(parse_linker("gold"), Some(LinkerKind::Gold));
    assert_eq!(parse_linker("ld"), None);
    assert_eq!(parse_cpp_standard("c++17"), Some(CppStandard::Cpp17));
    assert_eq!(parse_cpp_standard("c++11"), None);
}
