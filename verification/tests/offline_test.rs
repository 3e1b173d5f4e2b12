use war::error::WarError;
use war::offline::{
    generate_offline_exports, generate_online_exports, offline_env_vars, offline_var_names_exec,
    war_cache_root,
};

#[test]
fn test_generate_offline_exports_contains_goproxy() {
    let exports = generate_offline_exports(&Some("/home/u/.war/cache/go".to_string()), true);
    assert!(exports.contains("GOPROXY=file://"), "Expected GOPROXY export, got:\n{}", exports);
    assert!(exports.contains("GONOSUMDB=*"), "Expected GONOSUMDB export");
    assert!(exports.contains("GOSUMDB=off"), "Expected GOSUMDB export");
    assert!(exports.contains("GOFLAGS=-mod=readonly"), "Expected GOFLAGS export");
}

#[test]
fn test_generate_online_exports_unsets_vars() {
    let exports = generate_online_exports();
    assert!(exports.contains("unset GOPROXY"));
    assert!(exports.contains("unset GONOSUMDB"));
    assert!(exports.contains("unset GOSUMDB"));
    assert!(exports.contains("unset GOFLAGS"));
}

#[test]
fn offline_exports_exact_text() {
    let root = Some("/c".to_string());
    assert_eq!(
        generate_offline_exports(&root, true),
        "# war go offline — route Go to local cache\nexport GOPROXY=file:///c\nexport GONOSUMDB=*\nexport GOSUMDB=off\nexport GOFLAGS=-mod=readonly\n"
    );
    let missing = generate_offline_exports(&root, false);
    assert!(missing.ends_with("# ⚠  Cache dir /c does not exist yet. Run `war go unpack <archive>` first.\n"));
    let none = generate_offline_exports(&None, true);
    assert!(none.contains("Could not determine home directory"));
    assert!(!none.contains("GOPROXY"));
}

#[test]
fn test_default_cache_root_under_war_dir() {
    let root = war_cache_root(&Some("/home/u".to_string())).expect("should resolve");
    assert!(root.ends_with(".war/cache/go"), "Unexpected root: {}", root);
    assert_eq!(root, "/home/u/.war/cache/go");
    assert!(matches!(war_cache_root(&None), Err(WarError::ShellDetectionError)));
}

#[test]
fn offline_env_vars_point_goproxy_at_cache() {
    let vars = offline_env_vars("/c");
    assert_eq!(
        vars,
        vec![
            ("GOPROXY".to_string(), "file:///c".to_string()),
            ("GONOSUMDB".to_string(), "*".to_string()),
            ("GOSUMDB".to_string(), "off".to_string()),
            ("GOFLAGS".to_string(), "-mod=readonly".to_string()),
        ]
    );
    assert_eq!(offline_var_names_exec(), vec!["GOPROXY", "GONOSUMDB", "GOSUMDB", "GOFLAGS"]);
}
