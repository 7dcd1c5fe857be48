use ordo::sandbox::SandboxScope;

fn scope() -> SandboxScope {
    SandboxScope::new("/work/proj/src".to_string(), "/work/proj/out".to_string())
}

#[test]
fn valid_paths_within_src() {
    let s = scope();
    assert!(s.validate_path("/work/proj/src/file.txt").is_ok());
    assert!(s.validate_path("/work/proj/out/lib").is_ok());
}

#[test]
fn relative_path_resolved_to_src() {
    assert!(scope().validate_path("subdir/file.txt").is_ok());
}

#[test]
fn path_traversal_rejected() {
    assert!(scope().validate_path("../../../etc/passwd").is_err());
}

#[test]
fn outside_path_rejected() {
    let err = scope().validate_path("/tmp/evil").unwrap_err();
    assert_eq!(
        err,
        "path '/tmp/evil' is outside allowed directories (src: /work/proj/src, out: /work/proj/out)"
    );
}

#[test]
fn dots_inside_are_normalized() {
    let s = scope();
    assert!(s.validate_path("a/./b/../c.txt").is_ok());
    assert!(s.validate_path("../out/gen.h").is_ok());
    assert!(s.validate_path("/work/proj/src/../secret").is_err());
    assert!(s.validate_path("/work/proj/srcx/file").is_err());
}

#[test]
fn resolve_path_keeps_absolute() {
    let s = scope();
    assert_eq!(s.resolve_path("/abs/file"), "/abs/file");
    assert_eq!(s.resolve_path("rel/file"), "/work/proj/src/rel/file");
}

#[test]
fn script_hash_is_sha256_hex() {
    assert_eq!(
        ordo::sandbox::compute_script_hash(b""),
        "sha256:e3b0c44298fc1c149afbf4c8996fb92427ae41e4649b934ca495991b7852b855"
    );
    assert_eq!(
        ordo::sandbox::compute_script_hash(b"abc"),
        "sha256:ba7816bf8f01cfea414140de5dae2223b00361a396177a9cb410ff61f20015ad"
    );
}
