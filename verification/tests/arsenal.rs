use ordo::arsenal::{
    binary_name, extract_version, github_asset_name, install_hint, key_less, missing_reason, ninja_asset_name,
    normalize_tag, parse_tool, path_candidates, resolve_tool_path, select_version, sort_by_version, select_wheel, version_key, version_matches, version_satisfies, wheel_tags,
    Arsenal, InstalledTool, Tool,
};
use ordo::compiler::TargetOs;
use ordo::paths::OrdoPaths;

const OS: &str = "linux";
const ARCH: &str = "x86_64";

#[test]
fn tool_parse_ninja() {
    assert_eq!(Tool::parse("ninja"), Some(Tool::Ninja));
    assert_eq!(Tool::parse("Ninja"), Some(Tool::Ninja));
    assert_eq!(Tool::parse("NINJA"), Some(Tool::Ninja));
}

#[test]
fn tool_parse_unknown() {
    assert_eq!(Tool::parse("cmake"), None);
    assert_eq!(Tool::parse(""), None);
    assert_eq!(Tool::parse("unknown"), None);
}

#[test]
fn tool_name() {
    assert_eq!(Tool::Ninja.name(), "ninja");
}

#[test]
fn tool_parse_clang_format_any_case() {
    assert_eq!(Tool::parse("clang-format"), Some(Tool::ClangFormat));
    assert_eq!(Tool::parse("Clang-Format"), Some(Tool::ClangFormat));
    assert_eq!(Tool::ClangFormat.name(), "clang-format");
}

#[test]
fn version_matches_exact() {
    assert!(version_matches("1.12.1", "1.12.1"));
    assert!(version_matches("1.12.0", "1.12.0"));
}

#[test]
fn version_matches_prefix() {
    assert!(version_matches("1.12.1", "1.12"));
    assert!(version_matches("1.12.0", "1.12"));
    assert!(version_matches("1.12.1", "1"));
}

#[test]
fn version_matches_no_false_positives() {
    assert!(!version_matches("1.12.1", "1.1"));
    assert!(!version_matches("2.0.0", "1"));
    assert!(!version_matches("1.12.1", "1.13"));
}

#[test]
fn version_matches_full_version_as_prefix() {
    assert!(version_matches("1.12", "1.12"));
}

#[test]
fn normalize_tag_ninja() {
    assert_eq!(normalize_tag(Tool::Ninja, "1.12.1"), "v1.12.1");
    assert_eq!(normalize_tag(Tool::Ninja, "v1.12.1"), "v1.12.1");
}

#[test]
fn normalize_tag_clang_format_unchanged() {
    assert_eq!(normalize_tag(Tool::ClangFormat, "23.1.1"), "23.1.1");
}

#[test]
fn extract_version_strips_v() {
    assert_eq!(extract_version(Tool::Ninja, "v1.12.1"), "1.12.1");
    assert_eq!(extract_version(Tool::Ninja, "1.12.1"), "1.12.1");
}

#[test]
fn normalize_then_extract_gives_version_back() {
    for v in ["1.12.1", "v1.11.0", "2"] {
        let tag = normalize_tag(Tool::Ninja, v);
        assert_eq!(extract_version(Tool::Ninja, &tag), v.trim_start_matches('v'));
    }
}

#[test]
fn binary_name_ninja() {
    assert_eq!(binary_name(Tool::Ninja, TargetOs::Unix), "ninja");
    assert_eq!(binary_name(Tool::Ninja, TargetOs::MacOs), "ninja");
}

#[test]
fn binary_name_per_platform() {
    assert_eq!(binary_name(Tool::Ninja, TargetOs::Windows), "ninja.exe");
    assert_eq!(binary_name(Tool::ClangFormat, TargetOs::Unix), "clang-format");
    assert_eq!(binary_name(Tool::ClangFormat, TargetOs::Windows), "clang-format.exe");
}

#[test]
fn platform_detection_returns_asset() {
    let result = github_asset_name(Tool::Ninja, OS, ARCH);
    assert!(result.is_ok(), "github_asset_name failed: {:?}", result.err());
}

#[test]
fn current_platform_has_ninja_asset() {
    let result = github_asset_name(Tool::Ninja, OS, ARCH);
    assert!(result.is_ok());
    let name = result.unwrap();
    assert!(name.ends_with(".zip"));
    assert!(name.starts_with("ninja-"));
}

#[test]
fn clang_format_has_no_github_asset() {
    assert!(github_asset_name(Tool::ClangFormat, OS, ARCH).is_err());
}

#[test]
fn ninja_asset_names_by_platform() {
    assert_eq!(ninja_asset_name("linux", "x86_64"), Ok("ninja-linux.zip"));
    assert_eq!(ninja_asset_name("linux", "aarch64"), Ok("ninja-linux-aarch64.zip"));
    assert_eq!(ninja_asset_name("macos", "aarch64"), Ok("ninja-mac.zip"));
    assert_eq!(ninja_asset_name("windows", "x86"), Ok("ninja-win.zip"));
    let err = ninja_asset_name("freebsd", "x86_64").unwrap_err();
    assert!(err.contains("os=freebsd"), "{err}");
    assert!(err.contains("arch=x86_64"), "{err}");
}

#[test]
fn current_platform_has_wheel_tags() {
    let tags = wheel_tags(OS, ARCH, false).expect("supported platform");
    assert!(!tags.is_empty());
    assert!(tags.iter().all(|set| !set.is_empty()));
}

#[test]
fn linux_wheel_tags_pick_one_libc() {
    for musl in [false, true] {
        let tags = wheel_tags("linux", "x86_64", musl).unwrap();
        let flat: Vec<&str> = tags.iter().flat_map(|s| s.iter().copied()).collect();
        assert!(!(flat.contains(&"manylinux") && flat.contains(&"musllinux")));
    }
    assert_eq!(wheel_tags("linux", "x86_64", true).unwrap(), vec![vec!["musllinux", "x86_64"]]);
    assert!(wheel_tags("plan9", "mips", false).is_err());
}

#[test]
fn version_key_orders_numerically() {
    assert!(version_key("23.1.1") > version_key("23.1.0"));
    assert!(version_key("23.1.1") > version_key("9.1.1"));
    assert!(version_key("20.1.0") < version_key("20.10.0"));
}

#[test]
fn key_less_matches_vector_order() {
    assert!(key_less(&version_key("20.1.0"), &version_key("20.10.0")));
    assert!(!key_less(&version_key("20.10.0"), &version_key("20.1.0")));
    assert!(!key_less(&version_key("1.2"), &version_key("1.2")));
    assert_eq!(version_key("1.x.3"), vec![1, 0, 3]);
}

fn wheel(name: &str) -> (String, bool) {
    (name.to_string(), false)
}

#[test]
fn select_wheel_picks_current_platform() {
    let files = vec![
        wheel("clang_format-23.1.1-py2.py3-none-macosx_11_0_arm64.whl"),
        wheel("clang_format-23.1.1-py2.py3-none-macosx_10_9_x86_64.whl"),
        wheel("clang_format-23.1.1-py2.py3-none-manylinux_2_28_aarch64.whl"),
        wheel("clang_format-23.1.1-py2.py3-none-manylinux_2_28_x86_64.whl"),
        wheel("clang_format-23.1.1-py2.py3-none-musllinux_1_2_x86_64.whl"),
        wheel("clang_format-23.1.1-py2.py3-none-win_amd64.whl"),
        wheel("clang_format-23.1.1-py2.py3-none-win_arm64.whl"),
    ];
    let tag_sets = wheel_tags(OS, ARCH, false).unwrap();
    let picked = select_wheel(&files, &tag_sets).expect("current platform should have a wheel");
    for tag in &tag_sets[0] {
        assert!(files[picked].0.contains(tag), "{} should contain {tag}", files[picked].0);
    }
}

#[test]
fn select_wheel_skips_yanked() {
    let tag_sets = wheel_tags(OS, ARCH, false).unwrap();
    let mut files = vec![wheel("clang_format-23.1.1-py2.py3-none-any.whl")];
    for tag_set in &tag_sets {
        let mut name = "clang_format-23.1.1-py2.py3-none".to_string();
        for tag in tag_set {
            name.push('-');
            name.push_str(tag);
        }
        name.push_str(".whl");
        files.push((name, true));
    }
    assert!(select_wheel(&files, &tag_sets).is_none());
}

#[test]
fn select_wheel_rejects_sdist_only() {
    let tag_sets = wheel_tags(OS, ARCH, false).unwrap();
    let files = vec![wheel("clang_format-23.1.1.tar.gz")];
    assert!(select_wheel(&files, &tag_sets).is_none());
}

#[test]
fn select_wheel_takes_first_fitting_file() {
    let tag_sets = vec![vec!["manylinux", "x86_64"]];
    let files = vec![
        wheel("a-manylinux_aarch64.whl"),
        ("b-manylinux_x86_64.whl".to_string(), true),
        wheel("c-manylinux_2_28_x86_64.whl"),
        wheel("d-manylinux_2_17_x86_64.whl"),
    ];
    assert_eq!(select_wheel(&files, &tag_sets), Some(2));
}

#[test]
fn select_version_without_request_takes_latest() {
    let releases = vec![("1.0.0".to_string(), true)];
    assert_eq!(select_version("23.1.1", &releases, None), Ok("23.1.1".to_string()));
}

#[test]
fn select_version_picks_highest_matching() {
    let releases = vec![
        ("20.1.0".to_string(), true),
        ("20.10.0".to_string(), true),
        ("20.9.0".to_string(), true),
        ("21.0.0".to_string(), true),
        ("20.11.0".to_string(), false),
    ];
    assert_eq!(select_version("21.0.0", &releases, Some("20")), Ok("20.10.0".to_string()));
}

#[test]
fn select_version_reports_missing() {
    let releases = vec![("21.0.0".to_string(), true)];
    assert_eq!(
        select_version("21.0.0", &releases, Some("19")),
        Err("no release matching version '19' found on PyPI".to_string())
    );
}

#[test]
fn version_satisfies_ignores_missing_pin() {
    assert!(version_satisfies(None, None));
    assert!(!version_satisfies(None, Some("23")));
}

#[test]
fn version_satisfies_checks_pin_boundary() {
    assert!(version_satisfies(Some("23.1.1"), Some("23")));
    assert!(version_satisfies(Some("23"), Some("23")));
    assert!(!version_satisfies(Some("231.0"), Some("23")));
    assert!(version_satisfies(Some("1.0"), None));
}

#[test]
fn missing_reason_mentions_the_pin() {
    let msg = missing_reason(Tool::ClangFormat, Some("23"));
    assert!(msg.contains("clang-format v23"), "{msg}");
}

#[test]
fn install_hint_names_the_tool_command() {
    assert!(install_hint(Tool::Ninja).contains("ordo toolchain install ninja"));
    assert!(install_hint(Tool::ClangFormat).contains("ordo toolchain install clang-format"));
}

fn installed(tool: Tool, version: &str, path: &str) -> InstalledTool {
    InstalledTool { tool, version: version.to_string(), path: path.to_string() }
}

#[test]
fn which_returns_none_when_empty() {
    let arsenal = Arsenal::with_dir("/tmp/none".to_string());
    assert_eq!(arsenal.which(&Vec::new(), Tool::Ninja, None), None);
}

#[test]
fn which_takes_newest_matching_copy() {
    let arsenal = Arsenal::with_dir("/t".to_string());
    let list = vec![
        installed(Tool::Ninja, "1.11.0", "/t/ninja/1.11.0/ninja"),
        installed(Tool::Ninja, "1.12.1", "/t/ninja/1.12.1/ninja"),
        installed(Tool::ClangFormat, "23.1.1", "/t/clang-format/23.1.1/clang-format"),
    ];
    assert_eq!(arsenal.which(&list, Tool::Ninja, None), Some("/t/ninja/1.12.1/ninja".to_string()));
    assert_eq!(arsenal.which(&list, Tool::Ninja, Some("1.11")), Some("/t/ninja/1.11.0/ninja".to_string()));
    assert_eq!(arsenal.which(&list, Tool::Ninja, Some("1.1")), None);
}

#[test]
fn tool_version_dir_joins_tool_and_version() {
    let paths = OrdoPaths::from_home("/home/u");
    let arsenal = Arsenal::new(&paths);
    let dir = arsenal.tool_version_dir(Tool::Ninja, "1.12.1");
    assert!(dir.starts_with(&arsenal.toolchains_dir));
    assert!(dir.ends_with("ninja/1.12.1"), "{dir}");
}

#[test]
fn parse_tool_names_unknown() {
    assert_eq!(parse_tool("Ninja").unwrap(), Tool::Ninja);
    assert_eq!(parse_tool("cmake").unwrap_err(), "unknown tool 'cmake'. Supported tools: ninja");
}

fn copy(tool: Tool, version: &str) -> InstalledTool {
    InstalledTool { tool, version: version.to_string(), path: format!("/t/{version}/ninja") }
}

#[test]
fn newest_copy_chosen_after_numeric_sort() {
    let arsenal = Arsenal::with_dir("/t".to_string());
    let installed = sort_by_version(vec![copy(Tool::Ninja, "1.12.0"), copy(Tool::Ninja, "1.9.0")]);
    assert_eq!(installed[0].version, "1.9.0");
    assert_eq!(arsenal.which(&installed, Tool::Ninja, None).as_deref(), Some("/t/1.12.0/ninja"));
    assert_eq!(arsenal.which(&installed, Tool::Ninja, Some("1")).as_deref(), Some("/t/1.12.0/ninja"));
    assert_eq!(arsenal.which(&installed, Tool::Ninja, Some("1.9")).as_deref(), Some("/t/1.9.0/ninja"));
    assert_eq!(arsenal.which(&installed, Tool::Ninja, Some("1.13")), None);
}

#[test]
fn installed_copies_sort_by_version_numbers() {
    let sorted = sort_by_version(vec![copy(Tool::Ninja, "1.12.1"), copy(Tool::Ninja, "1.10.0"), copy(Tool::Ninja, "1.11.1")]);
    let versions: Vec<&str> = sorted.iter().map(|t| t.version.as_str()).collect();
    assert_eq!(versions, vec!["1.10.0", "1.11.1", "1.12.1"]);
    let same = sort_by_version(vec![copy(Tool::ClangFormat, "1"), copy(Tool::Ninja, "1")]);
    assert_eq!(same[0].tool, Tool::ClangFormat);
    assert_eq!(same[1].tool, Tool::Ninja);
}

#[test]
fn path_candidates_split_path() {
    assert_eq!(path_candidates("/usr/bin:/bin", "ninja", false), vec!["/usr/bin/ninja", "/bin/ninja"]);
    assert_eq!(path_candidates("/usr/bin:/bin", "ninja", true), vec!["/usr/bin:/bin/ninja"]);
}

#[test]
fn resolve_tool_path_prefers_arsenal() {
    let arsenal = Arsenal::with_dir("/t".to_string());
    let installed = vec![copy(Tool::Ninja, "1.11.1"), copy(Tool::Ninja, "1.12.1")];
    assert_eq!(
        resolve_tool_path(&arsenal, &installed, Tool::Ninja, None, Some("/usr/bin/ninja".to_string())).as_deref(),
        Some("/t/1.12.1/ninja")
    );
    assert_eq!(
        resolve_tool_path(&arsenal, &installed, Tool::Ninja, Some("1.13"), Some("/usr/bin/ninja".to_string()))
            .as_deref(),
        Some("/usr/bin/ninja")
    );
    assert_eq!(resolve_tool_path(&arsenal, &Vec::new(), Tool::ClangFormat, None, None), None);
}
