use war::config::{
    ensure_go_config, stage_add, stage_clear, stage_list, stage_remove, staged_filter_pairs,
    WarConfig,
};
use war::order::{sort_staged, staged_less};
use war::types::{GoConfig, StagedModule};

fn sm(module: &str, version: &str) -> StagedModule {
    StagedModule { module: module.into(), version: version.into() }
}

#[test]
fn test_go_config_default_has_empty_staged_modules() {
    let go = GoConfig::default();
    assert!(go.staged_modules.is_empty());
}

#[test]
fn test_staged_module_ordering() {
    let a = sm("a.com/mod", "v1.0.0");
    let b = sm("b.com/mod", "v2.0.0");
    assert!(a < b);
}

#[test]
fn test_staged_module_equality_and_dedup() {
    let a = sm("github.com/gin-gonic/gin", "v1.9.1");
    let b = sm("github.com/gin-gonic/gin", "v1.9.1");
    assert_eq!(a, b);

    let mut set = std::collections::HashSet::new();
    assert!(set.insert(a.clone()));
    assert!(!set.insert(b));
}

#[test]
fn test_war_config_default_includes_go() {
    let config = WarConfig::default();
    assert!(config.go.is_some());
    assert!(config.go.unwrap().staged_modules.is_empty());
}

#[test]
fn test_ensure_go_config_creates_default() {
    let mut config = WarConfig { schema_version: 1, go: None, rust: None };
    let go = ensure_go_config(&mut config);
    assert!(go.staged_modules.is_empty());
    assert!(config.go.is_some());
}

#[test]
fn ensure_go_config_keeps_existing_section() {
    let mut config = WarConfig::default();
    stage_add(&mut config, "golang.org/x/text", "v0.3.7");
    let go = ensure_go_config(&mut config);
    assert_eq!(go.staged_modules.len(), 1);
    go.go_version = Some("1.22".to_string());
    assert_eq!(config.go.unwrap().go_version.as_deref(), Some("1.22"));
}

#[test]
fn staged_less_orders_by_module_then_version() {
    assert!(staged_less(&sm("a.com/mod", "v1.0.0"), &sm("b.com/mod", "v0.1.0")));
    assert!(staged_less(&sm("a.com/mod", "v1.0.0"), &sm("a.com/mod", "v1.0.1")));
    assert!(!staged_less(&sm("a.com/mod", "v1.0.0"), &sm("a.com/mod", "v1.0.0")));
    assert!(staged_less(&sm("a.com", "v9"), &sm("a.com/mod", "v1")));
}

#[test]
fn sort_staged_matches_derived_order() {
    let v = vec![
        sm("golang.org/x/text", "v0.3.7"),
        sm("github.com/gin-gonic/gin", "v1.9.1"),
        sm("github.com/gin-gonic/gin", "v1.8.0"),
    ];
    let mut expected = v.clone();
    expected.sort();
    assert_eq!(sort_staged(v), expected);
}

#[test]
fn stage_add_deduplicates_and_sorts() {
    let mut config = WarConfig::default();
    assert!(stage_add(&mut config, "golang.org/x/text", "v0.3.7"));
    assert!(stage_add(&mut config, "github.com/gin-gonic/gin", "v1.9.1"));
    assert!(!stage_add(&mut config, "golang.org/x/text", "v0.3.7"));
    let list = stage_list(&config);
    assert_eq!(
        list,
        vec![sm("github.com/gin-gonic/gin", "v1.9.1"), sm("golang.org/x/text", "v0.3.7")]
    );
}

#[test]
fn stage_add_creates_missing_go_section() {
    let mut config = WarConfig { schema_version: 1, go: None, rust: None };
    assert!(stage_add(&mut config, "github.com/a/b", "v1.0.0"));
    assert_eq!(config.schema_version, 1);
    assert_eq!(stage_list(&config), vec![sm("github.com/a/b", "v1.0.0")]);
}

#[test]
fn stage_remove_undoes_add() {
    let mut config = WarConfig::default();
    stage_add(&mut config, "github.com/gin-gonic/gin", "v1.9.1");
    let before = stage_list(&config);
    assert!(stage_add(&mut config, "golang.org/x/text", "v0.3.7"));
    assert!(stage_remove(&mut config, "golang.org/x/text", "v0.3.7"));
    assert_eq!(stage_list(&config), before);
    assert!(!stage_remove(&mut config, "golang.org/x/text", "v0.3.7"));
}

#[test]
fn stage_clear_empties_list() {
    let mut config = WarConfig::default();
    stage_add(&mut config, "github.com/a/b", "v1.0.0");
    stage_add(&mut config, "github.com/c/d", "v2.0.0");
    stage_clear(&mut config);
    assert!(stage_list(&config).is_empty());
    assert!(config.go.is_some());
}

#[test]
fn staged_filter_pairs_lists_pairs_in_order() {
    let mut config = WarConfig::default();
    stage_add(&mut config, "golang.org/x/text", "v0.3.7");
    stage_add(&mut config, "github.com/gin-gonic/gin", "v1.9.1");
    assert_eq!(
        staged_filter_pairs(&config),
        vec![
            ("github.com/gin-gonic/gin".to_string(), "v1.9.1".to_string()),
            ("golang.org/x/text".to_string(), "v0.3.7".to_string()),
        ]
    );
}

#[test]
fn stage_list_of_config_without_go_section_is_empty() {
    let config = WarConfig { schema_version: 1, go: None, rust: None };
    assert!(stage_list(&config).is_empty());
    assert!(staged_filter_pairs(&config).is_empty());
}
