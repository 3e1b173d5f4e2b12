use war::config::WarConfig;
use war::stage::{
    add_staged, clear_staged, get_staged_filter, get_staged_modules, list_staged, remove_staged,
};
use war::types::StagedModule;

#[test]
fn test_list_staged_format() {
    let mut config = WarConfig::default();
    add_staged(&mut config, "github.com/gin-gonic/gin", "v1.9.1");
    add_staged(&mut config, "golang.org/x/text", "v0.3.7");

    let lines: Vec<String> = list_staged(&config);

    assert_eq!(lines[0], "github.com/gin-gonic/gin@v1.9.1");
    assert_eq!(lines[1], "golang.org/x/text@v0.3.7");
}

#[test]
fn stage_wrappers_add_remove_clear() {
    let mut config = WarConfig::default();
    assert!(add_staged(&mut config, "golang.org/x/text", "v0.3.7"));
    assert!(!add_staged(&mut config, "golang.org/x/text", "v0.3.7"));
    assert_eq!(
        get_staged_modules(&config),
        vec![StagedModule { module: "golang.org/x/text".into(), version: "v0.3.7".into() }]
    );
    assert_eq!(
        get_staged_filter(&config),
        vec![("golang.org/x/text".to_string(), "v0.3.7".to_string())]
    );
    assert!(remove_staged(&mut config, "golang.org/x/text", "v0.3.7"));
    assert!(list_staged(&config).is_empty());
    add_staged(&mut config, "a.com/x", "v1");
    clear_staged(&mut config);
    assert!(get_staged_modules(&config).is_empty());
}
