use ordo::faber::{
    clean_source_path, find_dep_colon, need_link, needs_rebuild, parse_depfile, plan_builds, up_to_date,
    FaberEngine, FaberRun, LinkOutcome,
};

#[test]
fn find_dep_colon_normal() {
    assert_eq!(find_dep_colon("main.o: src/main.cpp"), Some(6));
}

#[test]
fn find_dep_colon_no_colon() {
    assert_eq!(find_dep_colon("no colon here"), None);
}

#[test]
fn find_dep_colon_skips_drive_letter() {
    assert_eq!(find_dep_colon("C:\\build\\main.o: C:\\src\\main.cpp"), Some(15));
    assert_eq!(find_dep_colon("1:x"), Some(1));
}

#[test]
fn parse_depfile_single_line() {
    let deps = parse_depfile("main.o: src/main.cpp include/foo.h");
    assert_eq!(deps, vec!["src/main.cpp", "include/foo.h"]);
}

#[test]
fn parse_depfile_multiline_continuation() {
    let deps = parse_depfile("main.o: src/main.cpp \\\n  include/foo.h \\\n  include/bar.h\n");
    assert_eq!(deps, vec!["src/main.cpp", "include/foo.h", "include/bar.h"]);
}

#[test]
fn parse_depfile_empty() {
    assert!(parse_depfile("").is_empty());
}

#[test]
fn parse_depfile_target_only() {
    assert!(parse_depfile("main.o:").is_empty());
}

#[test]
fn parse_depfile_many_deps() {
    let deps = parse_depfile("obj.o: a.cpp b.h c.h d.h e.h f.h g.h");
    assert_eq!(deps.len(), 7);
    assert_eq!(deps[0], "a.cpp");
    assert_eq!(deps[6], "g.h");
}

#[test]
fn parse_depfile_without_colon_takes_all_words() {
    assert_eq!(parse_depfile("just words"), vec!["just", "words"]);
}

#[test]
fn needs_rebuild_object_missing() {
    assert!(needs_rebuild(None, Some(10), None));
}

#[test]
fn needs_rebuild_source_newer() {
    assert!(needs_rebuild(Some(10), Some(20), None));
}

#[test]
fn needs_rebuild_dep_newer() {
    assert!(needs_rebuild(Some(20), Some(10), Some(vec![Some(5), Some(30)])));
}

#[test]
fn needs_rebuild_up_to_date() {
    assert!(!needs_rebuild(Some(20), Some(10), Some(vec![Some(5), Some(20)])));
}

#[test]
fn needs_rebuild_no_depfile() {
    assert!(!needs_rebuild(Some(20), Some(10), None));
}

#[test]
fn needs_rebuild_dep_file_deleted() {
    assert!(needs_rebuild(Some(20), Some(10), Some(vec![Some(5), None])));
}

#[test]
fn engine_defaults_and_limits() {
    let e = FaberEngine::new(None, None, 8);
    assert_eq!(e.jobs, 8);
    assert_eq!(e.max_errors, 1);
    assert_eq!(e.worker_count(3), 3);
    assert_eq!(e.worker_count(20), 8);
    assert!(e.should_stop(1));
    let e = FaberEngine::new(Some(2), Some(0), 8);
    assert_eq!(e.jobs, 2);
    assert!(!e.should_stop(100));
}

#[test]
fn plan_builds_counts_skipped() {
    let (to_build, skipped) = plan_builds(&vec![true, false, true, false, false]);
    assert_eq!(to_build, vec![0, 2]);
    assert_eq!(skipped, 3);
}

#[test]
fn link_decisions() {
    assert!(need_link(1, 3, true, false));
    assert!(need_link(0, 3, false, false));
    assert!(!need_link(0, 0, true, false));
    assert!(!need_link(1, 3, false, true));
    assert!(up_to_date(0, true));
    assert!(!up_to_date(1, true));
    assert!(!up_to_date(0, false));
}

#[test]
fn clean_source_path_keeps_plain_paths() {
    assert_eq!(clean_source_path("src/main.cpp"), "src/main.cpp");
    assert_eq!(clean_source_path("../../src/main.cpp"), "src/main.cpp");
    assert_eq!(clean_source_path("./src/main.cpp"), "src/main.cpp");
    assert_eq!(clean_source_path(".././src/a.c"), "src/a.c");
}

#[test]
fn run_hands_out_tasks_in_order_and_stops_on_errors() {
    let engine = FaberEngine::new(Some(2), Some(1), 8);
    let mut run = FaberRun::start(&engine, 3, 1);
    assert_eq!(run.take_task(), Some(0));
    assert_eq!(run.take_task(), Some(1));
    run.record(true, "a.cpp".to_string(), String::new(), Some(0));
    run.record(false, "b.cpp".to_string(), "boom".to_string(), Some(1));
    assert_eq!(run.take_task(), None);
    let res = run.after_compile().unwrap_err();
    assert!(!res.success);
    assert_eq!(res.compiled, 1);
    assert_eq!(res.skipped, 1);
    assert_eq!(res.errors.len(), 1);
    assert_eq!(res.errors[0].source, "b.cpp");
}

#[test]
fn run_without_error_limit_takes_every_task() {
    let engine = FaberEngine::new(Some(1), Some(0), 8);
    let mut run = FaberRun::start(&engine, 2, 0);
    assert_eq!(run.take_task(), Some(0));
    run.record(false, "a.c".to_string(), "e".to_string(), None);
    assert_eq!(run.take_task(), Some(1));
    run.record(true, "b.c".to_string(), String::new(), Some(0));
    assert_eq!(run.take_task(), None);
    assert!(run.after_compile().is_err());
}

#[test]
fn run_link_outcomes() {
    let engine = FaberEngine::new(None, None, 4);
    let mut run = FaberRun::start(&engine, 1, 0);
    assert_eq!(run.take_task(), Some(0));
    run.record(true, "a.c".to_string(), String::new(), Some(0));
    let run = run.after_compile().unwrap();
    let res = run.finish(LinkOutcome::Failed { stderr: "ld: error".to_string(), exit_code: Some(1) });
    assert!(!res.success);
    assert_eq!(res.errors[0].source, "<link>");
    assert_eq!(res.errors[0].stderr, "ld: error");
    assert_eq!(res.compiled, 1);
    let ok = FaberRun::start(&engine, 0, 2).finish(LinkOutcome::Linked);
    assert!(ok.success && ok.errors.is_empty() && ok.skipped == 2);
}
