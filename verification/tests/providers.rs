use ordo::providers::{
    vcpkg_bootstrap_plan, vcpkg_exe, vcpkg_root_choice, VcpkgRoot,
    clib_fetched, clib_install_args, clib_package_dir, clib_resolve, install_failure, nuget_dir_matches, nuget_install_args, nuget_lib_subdirs, nuget_resolve,
    pkgconfig_fetch, pkgconfig_probe_args, pkgconfig_resolve, brew_resolve, pacman_resolve, nix_resolve, vcpkg_install_args, vcpkg_install_failure, vcpkg_version_from_list, commit_from_rev_parse, git_cache_paths, git_clone_bare_args, git_fetch_args, git_full_checkout_args, git_rev_parse_args, git_shallow_checkout_args, git_verify_ref_args, scan_checkout,
    build_conanfile, build_vcpkg_manifest_multi, expand_git_shorthand, extract_nix_version, git_resolved,
    is_pc_file_for, pacman_version, pacman_version_satisfies, parse_frameworks, parse_include_dirs, parse_libs,
    parse_pc_content, pc_version, url_to_slug, BrewProvider, ClibProvider, GitDepSpec, NixProvider,
    NugetProvider, PacmanProvider, PkgConfigProvider, Provider, ResolvedDep, SystemProvider,
};

fn strings(v: &[&str]) -> Vec<String> {
    v.iter().map(|s| s.to_string()).collect()
}

#[test]
fn clib_provider_name() {
    assert_eq!(ClibProvider.name(), "clib");
}

#[test]
fn nuget_provider_name() {
    assert_eq!(NugetProvider.name(), "nuget");
}

#[test]
fn pacman_provider_name() {
    assert_eq!(PacmanProvider.name(), "pacman");
}

#[test]
fn other_provider_names() {
    assert_eq!(SystemProvider.name(), "system");
    assert_eq!(PkgConfigProvider.name(), "pkg-config");
    assert_eq!(NixProvider.name(), "nix");
    assert_eq!(BrewProvider.name(), "brew");
}

#[test]
fn resolve_returns_system_source() {
    let provider = SystemProvider;
    let dep = provider.resolve("z", None).unwrap();
    assert_eq!(dep.name, "z");
    assert_eq!(dep.source, "system");
}

#[test]
fn fetch_produces_link_flag() {
    let provider = SystemProvider;
    let dep = provider.resolve("z", None).unwrap();
    let fetched = provider.fetch(&dep).unwrap();
    assert_eq!(fetched.libs, vec!["z"]);
    assert!(fetched.include_dirs.is_empty());
    assert!(fetched.lib_dirs.is_empty());
}

#[test]
fn fetch_returns_lib_name() {
    let dep = ResolvedDep {
        name: "zlib".to_string(),
        version: "1.3.1".to_string(),
        source: "pacman".to_string(),
        checksum: None,
    };
    let fetched = PacmanProvider.fetch(&dep).unwrap();
    assert_eq!(fetched.libs, vec!["zlib"]);
    assert!(fetched.include_dirs.is_empty());
}

#[test]
fn pacman_version_reads_version_line() {
    let out = "Name            : zlib\nVersion         : 1.3.1-2\nDescription     : x\n";
    assert_eq!(pacman_version(out), "1.3.1-2");
    assert_eq!(pacman_version("Name : zlib\n"), "unknown");
}

#[test]
fn pacman_version_satisfies_prefix() {
    assert!(pacman_version_satisfies("1.3.1-2", "1.3"));
    assert!(pacman_version_satisfies("1.3.1-2", "1.3.1"));
    assert!(!pacman_version_satisfies("1.3.1-2", "1.4"));
}

#[test]
fn build_conanfile_with_version() {
    let cf = build_conanfile("spdlog", Some("1.14.1"));
    assert!(cf.contains("spdlog/1.14.1"));
    assert!(cf.contains("[requires]"));
}

#[test]
fn build_conanfile_without_version() {
    let cf = build_conanfile("spdlog", None);
    assert!(cf.contains("spdlog/[*]"));
}

#[test]
fn build_conanfile_exact_text() {
    assert_eq!(build_conanfile("fmt", Some("11")), "[requires]\nfmt/11\n\n[generators]\nPkgConfigDeps\n");
}

#[test]
fn parse_pc_content_extracts_flags() {
    let content = "\nName: spdlog\nVersion: 1.14.1\nCflags: -I/opt/conan/include\nLibs: -L/opt/conan/lib -lspdlog\n";
    let mut inc = Vec::new();
    let mut lib_dirs = Vec::new();
    let mut libs = Vec::new();
    let mut fws = Vec::new();
    parse_pc_content(content, &mut inc, &mut lib_dirs, &mut libs, &mut fws);
    assert_eq!(inc, vec!["/opt/conan/include"]);
    assert_eq!(lib_dirs, vec!["/opt/conan/lib"]);
    assert_eq!(libs, vec!["spdlog"]);
    assert!(fws.is_empty());
}

#[test]
fn parse_pc_content_with_frameworks() {
    let content = "Libs: -lglfw3 -framework Cocoa -framework IOKit\n";
    let mut inc = Vec::new();
    let mut lib_dirs = Vec::new();
    let mut libs = Vec::new();
    let mut fws = Vec::new();
    parse_pc_content(content, &mut inc, &mut lib_dirs, &mut libs, &mut fws);
    assert_eq!(libs, vec!["glfw3"]);
    assert_eq!(fws, vec!["Cocoa", "IOKit"]);
}

#[test]
fn parse_pc_content_skips_variable_refs() {
    let content = "Cflags: -I${prefix}/include -I/real/path\nLibs: -L${libdir} -L/real/lib\n";
    let mut inc = Vec::new();
    let mut lib_dirs = Vec::new();
    let mut libs = Vec::new();
    let mut fws = Vec::new();
    parse_pc_content(content, &mut inc, &mut lib_dirs, &mut libs, &mut fws);
    assert_eq!(inc, vec!["/real/path"]);
    assert_eq!(lib_dirs, vec!["/real/lib"]);
}

#[test]
fn parse_pc_content_appends_to_what_was_there() {
    let mut inc = strings(&["/first"]);
    let mut lib_dirs = Vec::new();
    let mut libs = strings(&["m"]);
    let mut fws = Vec::new();
    parse_pc_content("Cflags: -I\"/quoted\"\nLibs: -lz\n", &mut inc, &mut lib_dirs, &mut libs, &mut fws);
    assert_eq!(inc, vec!["/first", "/quoted"]);
    assert_eq!(libs, vec!["m", "z"]);
}

#[test]
fn pc_version_and_file_match() {
    assert_eq!(pc_version("Name: spdlog\nVersion: 1.14.1\n"), Some("1.14.1".to_string()));
    assert_eq!(pc_version("Name: spdlog\n"), None);
    assert!(is_pc_file_for("spdlog.pc", "spdlog"));
    assert!(is_pc_file_for("spdlog-header.pc", "spdlog"));
    assert!(!is_pc_file_for("fmt.pc", "spdlog"));
}

#[test]
fn url_to_slug_github() {
    assert_eq!(url_to_slug("https://github.com/fmtlib/fmt"), "https-github-com-fmtlib-fmt");
}

#[test]
fn url_to_slug_strips_git_suffix() {
    assert_eq!(url_to_slug("https://github.com/fmtlib/fmt.git"), "https-github-com-fmtlib-fmt");
}

#[test]
fn expand_shorthand_github() {
    assert_eq!(expand_git_shorthand("fmtlib/fmt"), "https://github.com/fmtlib/fmt");
}

#[test]
fn expand_shorthand_custom_host() {
    assert_eq!(expand_git_shorthand("codeberg.org/nxeu/ordo"), "https://codeberg.org/nxeu/ordo");
}

#[test]
fn expand_shorthand_full_url() {
    let url = "https://github.com/fmtlib/fmt";
    assert_eq!(expand_git_shorthand(url), url);
}

#[test]
fn expand_shorthand_ssh() {
    let url = "git@github.com:fmtlib/fmt.git";
    assert_eq!(expand_git_shorthand(url), url);
}

#[test]
fn git_dep_spec_tag() {
    let spec = GitDepSpec::from_dep("https://github.com/fmtlib/fmt", Some("11.1.0"), None, None);
    assert_eq!(spec.git_ref, "11.1.0");
}

#[test]
fn git_dep_spec_branch() {
    let spec = GitDepSpec::from_dep("https://github.com/fmtlib/fmt", None, Some("main"), None);
    assert_eq!(spec.git_ref, "main");
}

#[test]
fn git_dep_spec_defaults_to_head() {
    let spec = GitDepSpec::from_dep("https://github.com/fmtlib/fmt", None, None, None);
    assert_eq!(spec.git_ref, "HEAD");
}

#[test]
fn git_dep_spec_rev_after_branch() {
    let spec = GitDepSpec::from_dep("u", None, None, Some("abc123"));
    assert_eq!(spec.git_ref, "abc123");
    let spec = GitDepSpec::from_dep("u", Some("v1"), Some("main"), Some("abc123"));
    assert_eq!(spec.git_ref, "v1");
}

#[test]
fn git_resolved_records_commit() {
    let spec = GitDepSpec::from_dep("https://github.com/fmtlib/fmt", Some("11.1.0"), None, None);
    let dep = git_resolved("fmt", &spec, "0123abcd");
    assert_eq!(dep.name, "fmt");
    assert_eq!(dep.version, "11.1.0#0123abc");
    assert_eq!(dep.source, "git+https://github.com/fmtlib/fmt");
    assert!(dep.checksum.is_none());
}

#[test]
fn extract_version_from_store_path() {
    let output = "0 - - /nix/store/abc123-openssl-3.1.4";
    assert_eq!(extract_nix_version(output, "openssl"), "3.1.4");
}

#[test]
fn extract_version_not_found() {
    let output = "0 - - /nix/store/abc123-zlib-1.3";
    assert_eq!(extract_nix_version(output, "openssl"), "unknown");
}

#[test]
fn parse_include_dirs_basic() {
    let dirs = parse_include_dirs("-I/usr/include/openssl -I/opt/local/include");
    assert_eq!(dirs, vec!["/usr/include/openssl", "/opt/local/include"]);
}

#[test]
fn parse_include_dirs_empty() {
    assert!(parse_include_dirs("").is_empty());
}

#[test]
fn parse_include_dirs_mixed_flags() {
    assert_eq!(parse_include_dirs("-I/usr/include -DFOO=1 -Wall"), vec!["/usr/include"]);
}

#[test]
fn parse_libs_basic() {
    let (dirs, names) = parse_libs("-L/usr/lib -lssl -lcrypto");
    assert_eq!(dirs, vec!["/usr/lib"]);
    assert_eq!(names, vec!["ssl", "crypto"]);
}

#[test]
fn parse_libs_no_dir() {
    let (dirs, names) = parse_libs("-lz");
    assert!(dirs.is_empty());
    assert_eq!(names, vec!["z"]);
}

#[test]
fn parse_libs_empty() {
    let (dirs, names) = parse_libs("");
    assert!(dirs.is_empty());
    assert!(names.is_empty());
}

#[test]
fn parse_frameworks_from_libs_line() {
    let fws = parse_frameworks("-L/usr/lib -lglfw3 -framework Cocoa -framework IOKit -framework CoreFoundation");
    assert_eq!(fws, vec!["Cocoa", "IOKit", "CoreFoundation"]);
}

#[test]
fn parse_frameworks_empty() {
    assert!(parse_frameworks("-L/usr/lib -lz").is_empty());
}

#[test]
fn parse_frameworks_no_input() {
    assert!(parse_frameworks("").is_empty());
}

#[test]
fn build_vcpkg_manifest_without_version() {
    let manifest = build_vcpkg_manifest_multi(&[("spdlog", None)]);
    assert!(manifest.contains("\"name\": \"spdlog\""));
    assert!(!manifest.contains("version>="));
}

#[test]
fn build_vcpkg_manifest_with_version() {
    let manifest = build_vcpkg_manifest_multi(&[("spdlog", Some("1.14"))]);
    assert!(manifest.contains("\"name\": \"spdlog\""));
    assert!(manifest.contains("\"version>=\": \"1.14\""));
}

#[test]
fn build_vcpkg_manifest_multi_packages() {
    let manifest = build_vcpkg_manifest_multi(&[("fmt", Some("11")), ("raylib", None)]);
    assert!(manifest.contains("\"name\": \"fmt\""));
    assert!(manifest.contains("\"name\": \"raylib\""));
    assert!(manifest.contains("\"version>=\": \"11\""));
}

#[test]
fn host_triplet_is_valid() {
    let triplet = ordo::providers::host_triplet("linux", "x86_64");
    assert!(["x64-linux", "arm64-linux", "x64-osx", "arm64-osx", "x64-windows", "arm64-windows"].contains(&triplet));
    assert_eq!(ordo::providers::host_triplet("macos", "aarch64"), "arm64-osx");
    assert_eq!(ordo::providers::host_triplet("windows", "x86_64"), "x64-windows");
    assert_eq!(ordo::providers::host_triplet("plan9", "mips"), "x64-linux");
}

#[test]
fn pkgconfig_decisions() {
    assert_eq!(pkgconfig_probe_args("zlib", Some("1.2")), vec!["--atleast-version", "1.2", "zlib"]);
    assert_eq!(pkgconfig_probe_args("zlib", None), vec!["--exists", "zlib"]);
    let d = pkgconfig_resolve("zlib", None, true, " 1.3.1\n").unwrap();
    assert_eq!(d.version, "1.3.1");
    assert_eq!(d.source, "pkg-config");
    let e = pkgconfig_resolve("zlib", Some("2"), false, "").unwrap_err();
    assert_eq!(e, "pkg-config: package 'zlib' version >= 2 not found\n  help: install it via your system package manager");
    let f = pkgconfig_fetch("gl", "-I/usr/include/GL -DX", "-L/usr/lib -lGL -framework OpenGL");
    assert_eq!(f.include_dirs, vec!["/usr/include/GL"]);
    assert_eq!(f.lib_dirs, vec!["/usr/lib"]);
    assert_eq!(f.libs, vec!["GL"]);
    assert_eq!(f.frameworks, vec!["OpenGL"]);
}

#[test]
fn pacman_and_brew_decisions() {
    let q = "Name : zlib\nVersion : 1.3.1-2\n";
    assert_eq!(pacman_resolve("zlib", Some("1.3"), true, q).unwrap().version, "1.3.1-2");
    assert!(pacman_resolve("zlib", Some("1.4"), true, q).unwrap_err().contains("does not satisfy >= 1.4"));
    assert!(pacman_resolve("zlib", None, false, "").unwrap_err().contains("sudo pacman -S zlib"));
    assert_eq!(brew_resolve("fmt", Some("11"), true, Some("11.1.4"), true).unwrap().version, "11.1.4");
    assert!(brew_resolve("fmt", None, true, Some("11.1.4"), false).unwrap_err().contains("is not installed"));
    assert!(brew_resolve("fmt", Some("12"), true, Some("11.1.4"), true).unwrap_err().contains("brew upgrade fmt"));
    assert_eq!(brew_resolve("fmt", None, true, None, true).unwrap().version, "unknown");
    assert!(brew_resolve("fmt", None, false, None, true).unwrap_err().contains("not found"));
}

#[test]
fn find_lib_names_from_dir() {
    let files: Vec<String> = ["libssl.a", "libcrypto.dylib", "libz.so", "libssl.so", "README", "lib.a"]
        .iter()
        .map(|s| s.to_string())
        .collect();
    assert_eq!(ordo::providers::find_lib_names(&files, "openssl"), vec!["ssl", "crypto", "z"]);
}

#[test]
fn find_lib_names_empty_dir() {
    assert_eq!(ordo::providers::find_lib_names(&Vec::new(), "openssl"), vec!["openssl"]);
}

#[test]
fn nix_decisions() {
    let profile = "0 flake:nixpkgs#openssl - /nix/store/abc123-openssl-3.1.4";
    assert_eq!(nix_resolve("openssl", Some(profile), None).unwrap().version, "3.1.4");
    assert_eq!(nix_resolve("zlib", Some(profile), Some("zlib-1.3\n")).unwrap().version, "1.3");
    assert_eq!(nix_resolve("zlib", None, Some("other\n")).unwrap().version, "unknown");
    assert!(nix_resolve("zlib", Some(profile), None).unwrap_err().contains("nixpkgs#zlib"));
}

#[test]
fn vcpkg_decisions() {
    assert_eq!(vcpkg_version_from_list("fmt:x64-linux  11.0.2  Formatting library\n", "fmt"), "11.0.2");
    assert_eq!(vcpkg_version_from_list("zlib:x64-linux 1.3\n", "fmt"), "unknown");
    assert_eq!(
        vcpkg_install_args("/tmp/m", "x64-linux", "/v"),
        vec!["install", "--x-manifest-root", "/tmp/m", "--triplet=x64-linux", "--x-install-root=/v/installed"]
    );
    let names = vec!["fmt".to_string(), "zlib".to_string()];
    assert_eq!(
        vcpkg_install_failure(&names, "out", "  \n"),
        "vcpkg install failed for [fmt, zlib]:\nout\n  help: check vcpkg logs for details"
    );
}

#[test]
fn git_plans() {
    assert_eq!(git_fetch_args("/c/x"), vec!["-C", "/c/x", "fetch", "--all", "--prune", "--progress"]);
    assert_eq!(git_clone_bare_args("u", "/c/x"), vec!["clone", "--bare", "--progress", "u", "/c/x"]);
    assert_eq!(
        git_shallow_checkout_args("v1", "/c/x", "/d"),
        vec!["clone", "--shared", "--branch", "v1", "--depth", "1", "/c/x", "/d"]
    );
    assert_eq!(git_verify_ref_args("/c/x", "v1"), vec!["--git-dir", "/c/x", "rev-parse", "--verify", "v1"]);
    let (a, b) = git_full_checkout_args("/c/x", "/d", "abc");
    assert_eq!(a, vec!["clone", "--shared", "/c/x", "/d"]);
    assert_eq!(b, vec!["-C", "/d", "checkout", "abc"]);
    assert_eq!(git_rev_parse_args("/c/x", "v1"), vec!["--git-dir", "/c/x", "rev-parse", "v1"]);
    assert_eq!(commit_from_rev_parse(" abc123\n", "v1"), Ok("abc123".to_string()));
    assert_eq!(commit_from_rev_parse("\n", "v1"), Err("git: could not resolve ref 'v1'".to_string()));
    let (repo, checkout) = git_cache_paths("/cache/git", "https://github.com/fmtlib/fmt.git", "11.1.0");
    assert_eq!(repo, "/cache/git/https-github-com-fmtlib-fmt");
    assert_eq!(checkout, "/cache/git/checkouts/https-github-com-fmtlib-fmt/11.1.0");
    let f = scan_checkout("/d", "fmt", true);
    assert_eq!(f.include_dirs, vec!["/d/include"]);
    assert_eq!(scan_checkout("/d", "fmt", false).include_dirs, vec!["/d"]);
}

#[test]
fn scan_checkout_fallback_to_root() {
    let f = ordo::providers::scan_checkout("/cache/checkouts/x/HEAD", "x", false);
    assert_eq!(f.include_dirs, vec!["/cache/checkouts/x/HEAD"]);
    assert!(f.libs.is_empty());
}

#[test]
fn parse_installed_finds_libs() {
    let files = vec!["/v/installed/x64-linux/lib/libfoo.a".to_string()];
    let d = ordo::providers::vcpkg_installed_dep("foo", "/v/installed/x64-linux", true, true, &files, &Vec::new())
        .unwrap();
    assert_eq!(d.name, "foo");
    assert!(d.libs.contains(&"foo".to_string()));
    assert!(d.include_dirs.contains(&"/v/installed/x64-linux/include".to_string()));
    assert_eq!(d.lib_dirs, vec!["/v/installed/x64-linux/lib".to_string()]);
}

#[test]
fn parse_installed_empty_errors() {
    let msg = ordo::providers::vcpkg_installed_dep("missing", "/v/i", false, false, &Vec::new(), &Vec::new())
        .unwrap_err();
    assert!(msg.contains("no headers or libraries found"), "got: {msg}");
    assert!(msg.ends_with("\n  help: the package may use a different name — check `vcpkg list`"));
}

#[test]
fn parse_installed_includes_frameworks() {
    let files = vec!["/i/lib/libglfw3.a".to_string()];
    let pcs = vec!["Name: GLFW\nLibs: -lglfw3 -framework Cocoa -framework CoreFoundation\n".to_string()];
    let d = ordo::providers::vcpkg_installed_dep("glfw3", "/i", true, true, &files, &pcs).unwrap();
    assert_eq!(d.frameworks, vec!["Cocoa", "CoreFoundation"]);
}

#[test]
fn scan_pc_frameworks_extracts_frameworks() {
    let pcs = vec![
        "Name: GLFW\nLibs: -L${libdir} -lglfw3 -framework Cocoa -framework IOKit\n".to_string(),
        "Libs: -framework Cocoa\n".to_string(),
    ];
    assert_eq!(ordo::providers::pc_frameworks(&pcs), vec!["Cocoa", "IOKit"]);
}

#[test]
fn scan_pc_frameworks_empty_without_pc_files() {
    assert!(ordo::providers::pc_frameworks(&Vec::new()).is_empty());
}

#[test]
fn parse_pc_files_error_when_empty() {
    let msg = ordo::providers::conan_pc_dep("missing", "/tmp/out", &Vec::new()).unwrap_err();
    assert!(msg.contains("no .pc files found"), "got: {msg}");
}

#[test]
fn conan_pc_files_sorted_and_deduplicated() {
    let pcs = vec![
        "Cflags: -I/opt/b/include -I/opt/a/include\nLibs: -L/opt/lib -lspdlog -lfmt\n".to_string(),
        "Cflags: -I/opt/a/include\nLibs: -L/opt/lib -lfmt\n".to_string(),
    ];
    let d = ordo::providers::conan_pc_dep("spdlog", "/o", &pcs).unwrap();
    assert_eq!(d.include_dirs, vec!["/opt/a/include", "/opt/b/include"]);
    assert_eq!(d.lib_dirs, vec!["/opt/lib"]);
    assert_eq!(d.libs, vec!["fmt", "spdlog"]);
}

#[test]
fn clib_decisions() {
    assert_eq!(
        clib_resolve("x", None, false).unwrap_err(),
        "clib: clib is not installed\n  help: install from https://github.com/clibs/clib"
    );
    let d = clib_resolve("clibs/buffer", Some("0.4.0"), true).unwrap();
    assert_eq!(d.version, "0.4.0");
    assert_eq!(d.source, "clib");
    assert_eq!(clib_install_args(&d), vec!["install", "clibs/buffer@0.4.0", "-o", "deps"]);
    let latest = clib_resolve("clibs/buffer", None, true).unwrap();
    assert_eq!(latest.version, "latest");
    assert_eq!(clib_install_args(&latest), vec!["install", "clibs/buffer", "-o", "deps"]);
    assert_eq!(clib_package_dir("clibs/buffer"), "buffer");
    assert_eq!(install_failure("clib", "x", "oops"), "clib: failed to install 'x'\n  oops");
    let f = clib_fetched("clibs/buffer", "/p/deps/buffer", true, true);
    assert_eq!(f.include_dirs, vec!["/p/deps/buffer", "/p/deps/buffer/include"]);
}

#[test]
fn nuget_decisions() {
    assert!(nuget_resolve("x", None, false).unwrap_err().starts_with("nuget: nuget CLI is not installed"));
    let d = nuget_resolve("zlib", Some("1.2.13"), true).unwrap();
    assert_eq!(
        nuget_install_args(&d),
        vec!["install", "zlib", "-OutputDirectory", "packages", "-Version", "1.2.13"]
    );
    let latest = nuget_resolve("zlib", None, true).unwrap();
    assert_eq!(nuget_install_args(&latest), vec!["install", "zlib", "-OutputDirectory", "packages"]);
    assert!(nuget_dir_matches("zlib.1.2.13", "zlib"));
    assert!(nuget_dir_matches("ZLib.1.2.13", "zlib"));
    assert!(!nuget_dir_matches("openssl.3.0", "zlib"));
    assert_eq!(nuget_lib_subdirs().len(), 3);
}

#[test]
fn scan_lib_names_finds_libs() {
    let mut libs = Vec::new();
    let files = vec!["ssl.lib".to_string(), "crypto.lib".to_string(), "readme.txt".to_string(), ".lib".to_string()];
    ordo::providers::add_nuget_lib_names(&mut libs, &files);
    assert!(libs.contains(&"ssl".to_string()));
    assert!(libs.contains(&"crypto".to_string()));
    assert_eq!(libs.len(), 2);
    ordo::providers::add_nuget_lib_names(&mut libs, &vec!["ssl.lib".to_string()]);
    assert_eq!(libs.len(), 2);
}

#[test]
fn find_native_paths_empty() {
    assert_eq!(ordo::providers::libs_or_name(Vec::new(), "openssl"), vec!["openssl"]);
    assert_eq!(ordo::providers::libs_or_name(vec!["ssl".to_string()], "openssl"), vec!["ssl"]);
}

#[test]
fn conan_steps() {
    assert_eq!(
        ordo::providers::conan_detect_failure(false, false).unwrap(),
        "conan: command not found\n  help: install Conan 2.x — https://conan.io/downloads"
    );
    assert!(ordo::providers::conan_detect_failure(true, false).unwrap().starts_with("conan not found or not working"));
    assert!(ordo::providers::conan_detect_failure(true, true).is_none());
    assert!(ordo::providers::conan_profile_outcome(false, true).is_ok());
    assert!(ordo::providers::conan_profile_outcome(false, false).unwrap_err().contains("conan profile detect"));
    assert_eq!(ordo::providers::conan_output_dir(), "target/conan");
    assert_eq!(
        ordo::providers::conan_install_args("/tmp/c", "target/conan"),
        vec!["install", "/tmp/c", "--output-folder", "target/conan", "--generator", "PkgConfigDeps", "--build=missing"]
    );
    assert_eq!(
        ordo::providers::conan_install_failure("zz", "ERROR: Package 'zz' not resolved"),
        "conan: package 'zz' not found\n  help: run `conan search 'zz'` to check available packages"
    );
    assert_eq!(
        ordo::providers::conan_install_failure("fmt", "boom"),
        "conan install failed for 'fmt':\nboom\n  help: check conan output for details"
    );
    let pcs = vec!["Name: a\n".to_string(), "Version: 1.14.1 \n".to_string()];
    assert_eq!(ordo::providers::conan_query_version(&pcs), "1.14.1");
    assert_eq!(ordo::providers::conan_query_version(&Vec::new()), "unknown");
}

#[test]
fn vcpkg_root_and_bootstrap() {
    assert!(matches!(vcpkg_root_choice(Some("/o"), Some("/e"), true, "/m", true), VcpkgRoot::Use(r) if r == "/o"));
    assert!(matches!(vcpkg_root_choice(None, Some("/e"), true, "/m", true), VcpkgRoot::Use(r) if r == "/e"));
    match vcpkg_root_choice(None, Some("/e"), false, "/m", true) {
        VcpkgRoot::Fail(e) => assert!(e.starts_with("VCPKG_ROOT is set to '/e' but vcpkg binary not found there")),
        other => panic!("unexpected {other:?}"),
    }
    assert!(matches!(vcpkg_root_choice(None, None, false, "/m", true), VcpkgRoot::Use(r) if r == "/m"));
    assert!(matches!(vcpkg_root_choice(None, None, false, "/m", false), VcpkgRoot::Bootstrap(r) if r == "/m"));
    assert_eq!(vcpkg_exe("/v", false), "/v/vcpkg");
    assert_eq!(vcpkg_exe("/v", true), "/v/vcpkg.exe");
    let (clone, script) = vcpkg_bootstrap_plan("/m", false);
    assert_eq!(clone, vec!["clone", "--depth", "1", "https://github.com/microsoft/vcpkg.git", "/m"]);
    assert_eq!(script, "/m/bootstrap-vcpkg.sh");
}
