use ordo::features::ResolvedFeatures;
use ordo::manifest::{FeaturePrefixConfig, Manifest, Package, PackageType};

fn strings(v: &[&str]) -> Vec<String> {
    v.iter().map(|s| s.to_string()).collect()
}

fn with_features(default: &[&str], features: &[(&str, &[&str])]) -> Manifest {
    let mut m = Manifest::empty();
    m.package = Some(Package {
        name: "myapp".to_string(),
        version: "0.1.0".to_string(),
        package_type: PackageType::Executable,
        license: None,
        description: None,
        authors: Vec::new(),
        repository: None,
    });
    m.features.default = strings(default);
    for (name, entries) in features {
        m.features.features.insert(name.to_string(), strings(entries));
    }
    m
}

#[test]
fn feature_parsing_basic() {
    let m = with_features(&["logging"], &[("logging", &[]), ("gui", &["dep:qt", "logging"]), ("simd", &[])]);
    assert_eq!(m.features.default, vec!["logging"]);
    assert!(m.features.features.contains_key("logging"));
    assert!(m.features.features.contains_key("gui"));
    assert!(m.features.features.contains_key("simd"));
    assert_eq!(m.features.features.get("gui").unwrap(), &vec!["dep:qt", "logging"]);
}

#[test]
fn feature_resolve_defaults() {
    let m = with_features(&["logging"], &[("logging", &[]), ("gui", &[])]);
    let resolved = ResolvedFeatures::resolve(&m, &Vec::new(), false, false).unwrap();
    assert!(resolved.enabled.contains("logging"));
    assert!(!resolved.enabled.contains("gui"));
}

#[test]
fn feature_resolve_no_default() {
    let m = with_features(&["logging"], &[("logging", &[])]);
    let resolved = ResolvedFeatures::resolve(&m, &Vec::new(), true, false).unwrap();
    assert!(resolved.enabled.is_empty());
}

#[test]
fn feature_resolve_all() {
    let m = with_features(&["logging"], &[("logging", &[]), ("gui", &[]), ("simd", &[])]);
    let resolved = ResolvedFeatures::resolve(&m, &Vec::new(), false, true).unwrap();
    assert!(resolved.enabled.contains("logging"));
    assert!(resolved.enabled.contains("gui"));
    assert!(resolved.enabled.contains("simd"));
}

#[test]
fn feature_resolve_cli_features() {
    let m = with_features(&[], &[("logging", &[]), ("gui", &[])]);
    let resolved = ResolvedFeatures::resolve(&m, &strings(&["gui"]), false, false).unwrap();
    assert!(resolved.enabled.contains("gui"));
    assert!(!resolved.enabled.contains("logging"));
}

#[test]
fn feature_resolve_transitive() {
    let m = with_features(&[], &[("logging", &[]), ("gui", &["logging"])]);
    let resolved = ResolvedFeatures::resolve(&m, &strings(&["gui"]), false, false).unwrap();
    assert!(resolved.enabled.contains("gui"));
    assert!(resolved.enabled.contains("logging"));
}

#[test]
fn feature_resolve_dep_activation() {
    let m = with_features(&[], &[("gui", &["dep:qt", "logging"]), ("logging", &[])]);
    let resolved = ResolvedFeatures::resolve(&m, &strings(&["gui"]), false, false).unwrap();
    assert!(resolved.activated_deps.contains("qt"));
    assert!(resolved.enabled.contains("logging"));
    assert!(!resolved.enabled.contains("dep:qt"));
}

#[test]
fn feature_resolve_defines() {
    let m = with_features(&["logging"], &[("logging", &[])]);
    let resolved = ResolvedFeatures::resolve(&m, &Vec::new(), false, false).unwrap();
    assert!(resolved.defines.contains(&"ORDO_FEATURE_LOGGING=1".to_string()));
}

#[test]
fn feature_define_replaces_dashes() {
    let m = with_features(&["fast-math"], &[("fast-math", &[])]);
    let resolved = ResolvedFeatures::resolve(&m, &Vec::new(), false, false).unwrap();
    assert_eq!(resolved.defines, vec!["ORDO_FEATURE_FAST_MATH=1"]);
}

#[test]
fn feature_custom_prefix() {
    let mut m = with_features(&["logging"], &[("logging", &[])]);
    m.features.config = Some(FeaturePrefixConfig { prefix: "MYAPP_".to_string() });
    let resolved = ResolvedFeatures::resolve(&m, &Vec::new(), false, false).unwrap();
    assert!(resolved.defines.contains(&"MYAPP_LOGGING=1".to_string()));
}

#[test]
fn feature_unknown_errors() {
    let m = with_features(&[], &[("logging", &[])]);
    let err = ResolvedFeatures::resolve(&m, &strings(&["nonexistent"]), false, false).unwrap_err();
    let msg = err.render();
    assert!(msg.contains("unknown feature"), "got: {msg}");
}

#[test]
fn feature_no_features_section() {
    let m = with_features(&[], &[]);
    let resolved = ResolvedFeatures::resolve(&m, &Vec::new(), false, false).unwrap();
    assert!(resolved.enabled.is_empty());
    assert!(resolved.defines.is_empty());
}

#[test]
fn feature_cycle_terminates() {
    let m = with_features(&["a"], &[("a", &["b"]), ("b", &["a"])]);
    let resolved = ResolvedFeatures::resolve(&m, &Vec::new(), false, false).unwrap();
    assert!(resolved.enabled.contains("a"));
    assert!(resolved.enabled.contains("b"));
    assert_eq!(resolved.enabled.len(), 2);
}
