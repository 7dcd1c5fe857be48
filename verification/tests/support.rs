use ordo::cli::StyleMode;
use ordo::style::{step_lines, styled_lines, LineKind, StepPhase};
use ordo::paths::OrdoPaths;
use ordo::strmap::{compare_str, Cmp, StrMap, StrSet};
use ordo::style::{parse_ninja_progress, BuildStep};
use ordo::text::{
    chars_of, join_strings, lines_std, parse_u64, split_char, split_whitespace, str_contains,
    str_ends_with, str_starts_with, str_strip_prefix, str_trim, str_trim_char, u64_to_string,
};

#[test]
fn text_basics() {
    assert_eq!(ordo::text::concat("ab", "cd"), "abcd");
    assert!(str_starts_with("hello", "he"));
    assert!(str_ends_with("hello", "lo"));
    assert!(str_contains("hello", "ell"));
    assert!(!str_contains("hello", "xyz"));
    assert_eq!(str_strip_prefix("-Ifoo", "-I"), Some("foo".to_string()));
    assert_eq!(str_strip_prefix("foo", "-I"), None);
    assert_eq!(str_trim("  a b \t"), "a b");
    assert_eq!(str_trim_char("\"q\"", '"'), "q");
}

#[test]
fn text_splitting() {
    assert_eq!(split_whitespace("  a  b\tc \n"), vec!["a", "b", "c"]);
    assert_eq!(split_char("1..2", '.'), vec!["1", "", "2"]);
    assert_eq!(split_char("", '.'), vec![""]);
    assert_eq!(lines_std("a\r\nb\n\nc"), vec!["a", "b", "", "c"]);
    assert_eq!(lines_std("a\n"), vec!["a"]);
    assert_eq!(join_strings(&vec!["a".to_string(), "b".to_string()], ", "), "a, b");
}

#[test]
fn numbers() {
    assert_eq!(u64_to_string(0), "0");
    assert_eq!(u64_to_string(18446744073709551615), "18446744073709551615");
    assert_eq!(parse_u64(&chars_of("42")), Some(42));
    assert_eq!(parse_u64(&chars_of("+7")), Some(7));
    assert_eq!(parse_u64(&chars_of("18446744073709551616")), None);
    assert_eq!(parse_u64(&chars_of("")), None);
    assert_eq!(parse_u64(&chars_of("4a")), None);
}

#[test]
fn string_order_and_sets() {
    assert!(matches!(compare_str("a", "b"), Cmp::Less));
    assert!(matches!(compare_str("ab", "a"), Cmp::Greater));
    assert!(matches!(compare_str("x", "x"), Cmp::Equal));
    let mut s = StrSet::new();
    assert!(s.insert("b".to_string()));
    assert!(s.insert("a".to_string()));
    assert!(!s.insert("b".to_string()));
    assert_eq!(s.len(), 2);
    assert_eq!(s.items(), &vec!["a".to_string(), "b".to_string()]);
    assert!(s.contains("a"));
}

#[test]
fn map_insert_replaces() {
    let mut m: StrMap<u32> = StrMap::new();
    m.insert("k".to_string(), 1);
    m.insert("j".to_string(), 2);
    m.insert("k".to_string(), 3);
    assert_eq!(m.len(), 2);
    assert_eq!(m.get("k"), Some(&3));
    assert_eq!(m.get("j"), Some(&2));
    assert_eq!(m.get("x"), None);
    assert!(m.contains_key("j"));
}

#[test]
fn ordo_paths_layout() {
    let p = OrdoPaths::from_home("/h");
    assert_eq!(p.config_dir, "/h");
    assert_eq!(p.credentials_file, "/h/credentials.toml");
    assert_eq!(p.global_config_file(), "/h/config.toml");
    assert_eq!(p.toolchains_dir(), "/h/toolchains");
    let p = OrdoPaths::from_base_dirs("/c", "/k");
    assert_eq!(p.config_dir, "/c/ordo");
    assert_eq!(p.cache_dir, "/k/ordo");
    assert_eq!(p.credentials_file, "/c/ordo/credentials.toml");
    assert_eq!(p.registry_cache(), "/k/ordo/registry");
    assert_eq!(p.git_cache(), "/k/ordo/git");
}

#[test]
fn build_step_lines() {
    let s = BuildStep {
        action: "Compiling".to_string(),
        file: "src/main.cpp".to_string(),
        current: 3,
        total: 12,
        done_verb: "Compiled",
    };
    assert_eq!(s.progress(), "[3/12]");
    assert_eq!(s.file_progress(), "src/main.cpp [3/12]");
    assert_eq!(s.running_line(), "Compiling src/main.cpp [3/12]");
}

#[test]
fn ninja_progress_lines() {
    let p = parse_ninja_progress("  [3/10] CXX obj/main.o  ").unwrap();
    assert_eq!((p.current, p.total), (3, 10));
    assert_eq!(p.action, "CXX");
    assert_eq!(p.description.as_deref(), Some("obj/main.o"));
    assert!(p.command.is_none());
    let p = parse_ninja_progress("[1/2]").unwrap();
    assert_eq!(p.action, "");
    assert!(p.description.is_none());
    assert!(parse_ninja_progress("ninja: no work to do.").is_none());
    assert!(parse_ninja_progress("[a/2] X").is_none());
    assert!(parse_ninja_progress("[1 2] X").is_none());
    assert!(parse_ninja_progress("[1/4294967296] X").is_none());
}

fn lines(mode: StyleMode, kind: LineKind, verb: &str, msg: &str) -> Vec<String> {
    styled_lines(mode, kind, verb, msg)
}

#[test]
fn default_style_lines() {
    assert_eq!(lines(StyleMode::Default, LineKind::Success, "Compiled", "a.cpp"), vec!["✔ Compiled a.cpp"]);
    assert_eq!(lines(StyleMode::Default, LineKind::Success, "", "done"), vec!["✔ done"]);
    assert_eq!(lines(StyleMode::Default, LineKind::Error, "Failed", "x"), vec!["✖ Failed x"]);
    assert_eq!(lines(StyleMode::Default, LineKind::Warn, "Warning", "w"), vec!["⚠ Warning w"]);
    assert_eq!(lines(StyleMode::Default, LineKind::Skip, "Nothing to clean", "target/"), vec!["⊘ Nothing to clean target/"]);
    assert_eq!(lines(StyleMode::Default, LineKind::Run, "Running", "app"), vec!["▶ Running app"]);
    assert_eq!(lines(StyleMode::Default, LineKind::Header, "", "Testing app"), vec!["", "▸ Testing app"]);
    assert_eq!(lines(StyleMode::Default, LineKind::Verbose, "", "cc -c a.c"), vec!["  $ cc -c a.c"]);
    let bar = lines(StyleMode::Default, LineKind::SummaryBar, "", "");
    assert_eq!(bar.len(), 1);
    assert_eq!(bar[0].chars().count(), 40);
}

#[test]
fn minimal_style_lines() {
    assert_eq!(lines(StyleMode::Minimal, LineKind::Success, "", "done"), vec!["done"]);
    assert_eq!(lines(StyleMode::Minimal, LineKind::Warn, "", "w"), vec![" w"]);
    assert_eq!(lines(StyleMode::Minimal, LineKind::Header, "", "Testing"), vec!["Testing"]);
    assert!(lines(StyleMode::Minimal, LineKind::SummaryBar, "", "").is_empty());
}

#[test]
fn cargo_like_style_lines() {
    assert_eq!(lines(StyleMode::CargoLike, LineKind::Success, "Compiling", "a"), vec!["   Compiling a"]);
    assert_eq!(lines(StyleMode::CargoLike, LineKind::Error, "", "x"), vec!["error"]);
    assert_eq!(lines(StyleMode::CargoLike, LineKind::Error, "Failed", "x"), vec!["      Failed x"]);
    assert_eq!(lines(StyleMode::CargoLike, LineKind::Run, "AVeryLongVerbHere", "x"), vec!["AVeryLongVerbHere x"]);
    assert_eq!(lines(StyleMode::CargoLike, LineKind::Meta, "", "m"), vec!["            ", "             m"]);
    assert!(lines(StyleMode::CargoLike, LineKind::Header, "", "h").is_empty());
}

#[test]
fn build_step_lines_per_style() {
    let step = BuildStep { action: "Compiling".to_string(), file: "a.cpp".to_string(), current: 2, total: 5, done_verb: "Compiled" };
    assert_eq!(step_lines(StyleMode::Default, &step, StepPhase::Running), vec!["Compiling a.cpp [2/5]"]);
    assert_eq!(step_lines(StyleMode::Default, &step, StepPhase::Done), vec!["✔ Compiled a.cpp [2/5]"]);
    assert_eq!(step_lines(StyleMode::Default, &step, StepPhase::Failed), vec!["✖ Failed a.cpp [2/5]"]);
    assert_eq!(step_lines(StyleMode::Minimal, &step, StepPhase::Running), vec!["[2/5] Compiling a.cpp"]);
    assert!(step_lines(StyleMode::Minimal, &step, StepPhase::Done).is_empty());
    assert_eq!(step_lines(StyleMode::CargoLike, &step, StepPhase::Running), vec!["   Compiling a.cpp"]);
    assert!(step_lines(StyleMode::CargoLike, &step, StepPhase::Failed).is_empty());
}
