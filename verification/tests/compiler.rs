use ordo::compiler::{
    create_compiler, executable_extension, first_detected, first_output_line, is_msvc_banner, parse_version,
    probe_executable_of, shared_lib_extension, static_lib_extension, static_lib_prefix, ClangCompiler,
    CompileFlags, Compiler, DetectedCompiler, GccCompiler, LinkFlags, MsvcCompiler, TargetOs,
};
use ordo::manifest::{CompilerKind, CppStandard, LinkerKind, LtoMode, OptLevel};

fn s(v: &str) -> String {
    v.to_string()
}

#[test]
fn clang_compile_args_basic() {
    let c = ClangCompiler;
    let flags = CompileFlags {
        cpp_standard: Some(CppStandard::Cpp20),
        opt_level: OptLevel::O0,
        debug: true,
        ..CompileFlags::default()
    };
    let args = c.compile_args("src/main.cpp", "build/main.o", "build/main.d", &flags);
    assert!(args.contains(&s("-c")));
    assert!(args.contains(&s("-std=c++20")));
    assert!(args.contains(&s("-O0")));
    assert!(args.contains(&s("-g")));
    assert!(args.contains(&s("-MD")));
    assert!(args.contains(&s("-MF")));
    assert!(args.contains(&s("build/main.d")));
    assert!(args.contains(&s("src/main.cpp")));
}

#[test]
fn compile_args_with_includes_and_defines() {
    let c = ClangCompiler;
    let flags = CompileFlags {
        defines: vec![s("FOO=1"), s("BAR")],
        include_dirs: vec![s("include"), s("vendor/fmt/include")],
        ..CompileFlags::default()
    };
    let args = c.compile_args("src/main.cpp", "build/main.o", "build/main.d", &flags);
    assert!(args.contains(&s("-DFOO=1")));
    assert!(args.contains(&s("-DBAR")));
    assert!(args.contains(&s("-Iinclude")));
    assert!(args.contains(&s("-Ivendor/fmt/include")));
}

#[test]
fn clang_link_args_basic() {
    let c = ClangCompiler;
    let objects = vec![s("build/main.o"), s("build/util.o")];
    let args = c.link_args(&objects, "myapp", &LinkFlags::default());
    assert!(args.contains(&s("-o")));
    assert!(args.contains(&s("myapp")));
    assert!(args.contains(&s("build/main.o")));
    assert!(args.contains(&s("build/util.o")));
}

#[test]
fn link_args_with_linker() {
    let c = ClangCompiler;
    let flags = LinkFlags {
        linker: Some(LinkerKind::Lld),
        libs: vec![s("fmt")],
        lib_dirs: vec![s("/usr/local/lib")],
        ..LinkFlags::default()
    };
    let args = c.link_args(&[s("build/main.o")], "myapp", &flags);
    assert!(args.contains(&s("-fuse-ld=lld")));
    assert!(args.contains(&s("-lfmt")));
    assert!(args.contains(&s("-L/usr/local/lib")));
}

#[test]
fn gcc_compile_args_basic() {
    let c = GccCompiler;
    let flags = CompileFlags {
        cpp_standard: Some(CppStandard::Cpp23),
        opt_level: OptLevel::O2,
        debug: false,
        ..CompileFlags::default()
    };
    let args = c.compile_args("src/main.cpp", "build/main.o", "build/main.d", &flags);
    assert!(args.contains(&s("-std=c++23")));
    assert!(args.contains(&s("-O2")));
    assert!(!args.contains(&s("-g")));
}

#[test]
fn gcc_link_args_basic() {
    let c = GccCompiler;
    let args = c.link_args(&[s("build/main.o")], "myapp", &LinkFlags::default());
    assert!(args.contains(&s("-o")));
    assert!(args.contains(&s("myapp")));
}

#[test]
fn msvc_compile_args_basic() {
    let c = MsvcCompiler;
    let flags = CompileFlags {
        cpp_standard: Some(CppStandard::Cpp20),
        opt_level: OptLevel::O0,
        debug: true,
        ..CompileFlags::default()
    };
    let args = c.compile_args("src\\main.cpp", "build\\main.obj", "build\\main.d", &flags);
    assert!(args.contains(&s("/c")));
    assert!(args.contains(&s("/std:c++20")));
    assert!(args.contains(&s("/Od")));
    assert!(args.contains(&s("/Zi")));
    assert!(args.contains(&s("/showIncludes")));
}

#[test]
fn compile_args_release() {
    let c = MsvcCompiler;
    let flags = CompileFlags {
        cpp_standard: Some(CppStandard::Cpp20),
        opt_level: OptLevel::O3,
        debug: false,
        ..CompileFlags::default()
    };
    let args = c.compile_args("src\\main.cpp", "build\\main.obj", "build\\main.d", &flags);
    assert!(args.contains(&s("/O2")));
    assert!(!args.contains(&s("/Zi")));
}

#[test]
fn msvc_link_args_basic() {
    let c = MsvcCompiler;
    let flags = LinkFlags { libs: vec![s("user32")], ..LinkFlags::default() };
    let args = c.link_args(&[s("build\\main.obj")], "myapp.exe", &flags);
    assert!(args.contains(&s("/nologo")));
    assert!(args.contains(&s("/OUT:myapp.exe")));
    assert!(args.contains(&s("user32.lib")));
}

#[test]
fn gnu_compile_args_exact_line() {
    let flags = CompileFlags {
        cpp_standard: None,
        defines: vec![s("X")],
        include_dirs: vec![s("inc")],
        ..CompileFlags::default()
    };
    let args = ClangCompiler.compile_args("a.c", "a.o", "a.d", &flags);
    let expected: Vec<String> =
        ["-c", "-O0", "-g", "-DX", "-Iinc", "-MD", "-MF", "a.d", "-o", "a.o", "a.c"].iter().map(|x| s(x)).collect();
    assert_eq!(args, expected);
}

#[test]
fn gcc_link_args_add_frameworks() {
    let flags = LinkFlags { frameworks: vec![s("Cocoa")], ..LinkFlags::default() };
    let args = GccCompiler.link_args(&[s("a.o")], "app", &flags);
    let expected: Vec<String> = ["-o", "app", "a.o", "-framework", "Cocoa"].iter().map(|x| s(x)).collect();
    assert_eq!(args, expected);
    let msvc = MsvcCompiler.link_args(
        &[s("a.obj")],
        "app.exe",
        &LinkFlags { lto: LtoMode::Full, strip: true, ..LinkFlags::default() },
    );
    assert!(msvc.contains(&s("/LTCG")));
    assert!(msvc.contains(&s("/DEBUG:NONE")));
}

#[test]
fn compile_args_end_with_the_source() {
    let flags = CompileFlags::default();
    let args = GccCompiler.compile_args("x.c", "x.o", "x.d", &flags);
    assert_eq!(args.last().map(|a| a.as_str()), Some("x.c"));
    let pos = args.iter().position(|a| a == "-o").unwrap();
    assert_eq!(args[pos + 1], "x.o");
}

#[test]
fn parse_version_clang() {
    let output = "Homebrew clang version 18.1.8\nTarget: arm64-apple-darwin24.0.0";
    assert_eq!(parse_version(output), Some(s("18.1.8")));
}

#[test]
fn parse_version_gcc() {
    let output = "g++ (Ubuntu 13.2.0-23ubuntu4) 13.2.0";
    assert_eq!(parse_version(output), Some(s("13.2.0")));
}

#[test]
fn parse_version_none() {
    assert_eq!(parse_version("no version here"), None);
}

#[test]
fn parse_version_msvc() {
    let output = "Microsoft (R) C/C++ Optimizing Compiler Version 19.38.33133 for x64";
    assert_eq!(parse_version(output), Some(s("19.38.33133")));
}

#[test]
fn create_compiler_returns_correct_type() {
    let c = create_compiler(CompilerKind::Clang);
    assert_eq!(c.name(), "clang");
    let c = create_compiler(CompilerKind::Gcc);
    assert_eq!(c.name(), "gcc");
    let c = create_compiler(CompilerKind::Msvc);
    assert_eq!(c.name(), "msvc");
    let c = create_compiler(CompilerKind::ClangCl);
    assert_eq!(c.name(), "clang");
}

#[test]
fn executables_and_syntax_flags() {
    assert_eq!(ClangCompiler.cpp_executable(), "clang++");
    assert_eq!(GccCompiler.c_executable(), "gcc");
    assert_eq!(MsvcCompiler.cpp_executable(), "cl");
    assert_eq!(MsvcCompiler.syntax_only_flag(), "/Zs");
    assert_eq!(GccCompiler.syntax_only_flag(), "-fsyntax-only");
    assert_eq!(probe_executable_of(CompilerKind::Gcc), "g++");
}

#[test]
fn file_extensions_per_os() {
    assert_eq!(executable_extension(TargetOs::Windows), ".exe");
    assert_eq!(executable_extension(TargetOs::Unix), "");
    assert_eq!(static_lib_extension(TargetOs::MacOs), ".a");
    assert_eq!(static_lib_prefix(TargetOs::Windows), "");
    assert_eq!(shared_lib_extension(TargetOs::MacOs), ".dylib");
    assert_eq!(shared_lib_extension(TargetOs::Unix), ".so");
}

#[test]
fn first_output_line_trims_and_rejects_empty() {
    assert_eq!(first_output_line("  /usr/bin/sh \n/bin/sh\n"), Some(s("/usr/bin/sh")));
    assert_eq!(first_output_line("   \nx"), None);
    assert_eq!(first_output_line(""), None);
}

#[test]
fn msvc_banner_detection() {
    assert!(is_msvc_banner("Microsoft (R) C/C++ Optimizing Compiler"));
    assert!(!is_msvc_banner("gcc (GCC) 13"));
}

#[test]
fn first_detected_keeps_order() {
    let gcc = DetectedCompiler { kind: CompilerKind::Gcc, path: s("/usr/bin/g++"), version: s("13.2.0") };
    let msvc = DetectedCompiler { kind: CompilerKind::Msvc, path: s("cl"), version: s("19") };
    let r = first_detected(vec![None, Some(gcc), Some(msvc)]).unwrap();
    assert_eq!(r.kind, CompilerKind::Gcc);
    assert!(first_detected(vec![None, None, None]).is_none());
}
