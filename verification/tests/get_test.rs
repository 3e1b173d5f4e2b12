use war::error::WarError;
use war::get::{go_get_label, inject_import, native_download_dir, parse_module_version, plan_main_import};

#[test]
fn test_parse_module_version_with_at() {
    let (module, version) = parse_module_version("github.com/gin-gonic/gin@v1.9.1");
    assert_eq!(module, "github.com/gin-gonic/gin");
    assert_eq!(version, "v1.9.1");
}

#[test]
fn test_parse_module_version_with_subpath_and_at() {
    let (module, version) = parse_module_version("github.com/labstack/echo/v4@v4.11.1");
    assert_eq!(module, "github.com/labstack/echo/v4");
    assert_eq!(version, "v4.11.1");
}

#[test]
fn test_parse_module_version_without_at() {
    let (module, version) = parse_module_version("github.com/gin-gonic/gin");
    assert_eq!(module, "github.com/gin-gonic/gin");
    assert_eq!(version, "latest");
}

#[test]
fn test_parse_module_version_at_only_version() {
    let (module, version) = parse_module_version("@v1");
    assert_eq!(module, "");
    assert_eq!(version, "v1");
}

#[test]
fn parse_module_version_splits_at_last_at() {
    let (module, version) = parse_module_version("a@b@v2");
    assert_eq!(module, "a@b");
    assert_eq!(version, "v2");
}

const MAIN_GO: &str = "package main\n\nimport (\n\t\"fmt\"\n)\n\nfunc main() {}\n";

#[test]
fn inject_import_appends_before_closing_paren() {
    let out = inject_import(MAIN_GO, "github.com/gin-gonic/gin").unwrap();
    assert_eq!(
        out,
        "package main\n\nimport (\n\t\"fmt\"\n\t_ \"github.com/gin-gonic/gin\"\n)\n\nfunc main() {}\n"
    );
}

#[test]
fn inject_import_without_block_is_none() {
    assert!(inject_import("package main\n\nimport \"fmt\"\n", "x.com/y").is_none());
}

#[test]
fn plan_main_import_already_present_changes_nothing() {
    let src = "package main\n\nimport (\n\t_ \"x.com/y\"\n)\n";
    assert!(matches!(plan_main_import(src, "x.com/y", "/p/main.go"), Ok(None)));
}

#[test]
fn plan_main_import_injects() {
    let r = plan_main_import(MAIN_GO, "x.com/y", "/p/main.go").unwrap();
    assert_eq!(r.unwrap(), "package main\n\nimport (\n\t\"fmt\"\n\t_ \"x.com/y\"\n)\n\nfunc main() {}\n");
}

#[test]
fn plan_main_import_without_block_is_invalid_input() {
    match plan_main_import("package main\n", "x.com/y", "/p/main.go") {
        Err(WarError::InvalidInput(m)) => {
            assert!(m.starts_with("main.go at /p/main.go has no `import (...)` block"));
        }
        other => panic!("unexpected: {:?}", other),
    }
}

#[test]
fn native_download_dir_prefers_gomodcache() {
    let r = native_download_dir(&Some("/gm".to_string()), &Some("/home/u".to_string())).unwrap();
    assert_eq!(r, "/gm/cache/download");
    let r = native_download_dir(&None, &Some("/home/u".to_string())).unwrap();
    assert_eq!(r, "/home/u/go/pkg/mod/cache/download");
    match native_download_dir(&None, &None) {
        Err(WarError::InvalidInput(m)) => assert_eq!(m, "Could not determine home directory"),
        other => panic!("unexpected: {:?}", other),
    }
}

#[test]
fn go_get_label_names_module() {
    assert_eq!(go_get_label("github.com/a/b@v1"), "go get github.com/a/b@v1");
}

#[test]
fn go_command_outcome_reports_failures() {
    assert!(war::get::go_command_outcome("go get x", true, Some(0), "").is_ok());
    match war::get::go_command_outcome("go get x", false, Some(1), "no such module\n") {
        Err(WarError::GoCommandFailed { command, stderr, exit_code }) => {
            assert_eq!(command, "go get x");
            assert_eq!(stderr, "no such module\n");
            assert_eq!(exit_code, 1);
        }
        other => panic!("unexpected: {:?}", other),
    }
    match war::get::go_command_outcome("go mod download", false, None, "") {
        Err(WarError::GoCommandFailed { exit_code, .. }) => assert_eq!(exit_code, -1),
        other => panic!("unexpected: {:?}", other),
    }
}
