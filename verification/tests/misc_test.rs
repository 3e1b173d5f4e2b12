use war::cache::{
    encode_module_path, fallback_go_mod, first_sync_failure, info_record, module_cache_dir,
    version_file_name,
};
use war::error::WarError;
use war::init::{go_mod_content, main_go_content};
use war::shell::{detect_shell, get_shell_rc_path, ShellType};
use war::types::VendorModule;

fn module(explicit: bool) -> VendorModule {
    VendorModule {
        path: "github.com/gin-gonic/gin".into(),
        version: "v1.9.1".into(),
        explicit,
        go_version: None,
        packages: vec![],
        vendor_path: String::new(),
    }
}

#[test]
fn cache_paths_use_bang_encoding() {
    assert_eq!(encode_module_path("github.com/gin-gonic/gin"), "github.com!gin-gonic!gin");
    assert_eq!(
        module_cache_dir("/c", "golang.org/x/text"),
        "/c/golang.org!x!text/@v"
    );
    assert_eq!(version_file_name("v1.9.1", "info"), "v1.9.1.info");
    assert_eq!(fallback_go_mod("a.com/b"), "module a.com/b\n\ngo 1.20\n");
}

#[test]
fn info_record_origin_for_explicit_modules() {
    let r = info_record(&module(true));
    assert_eq!(r.version, "v1.9.1");
    let o = r.origin.unwrap();
    assert_eq!(o.vcs, "git");
    assert_eq!(o.url, "https://github.com/gin-gonic/gin");
    assert_eq!(o.hash, "v1.9.1");
    assert!(info_record(&module(false)).origin.is_none());
}

#[test]
fn first_sync_failure_reports_first_module() {
    assert!(first_sync_failure(&vec![]).is_ok());
    let failures = vec![
        ("a.com/x".to_string(), "disk full".to_string()),
        ("b.com/y".to_string(), "other".to_string()),
    ];
    match first_sync_failure(&failures) {
        Err(e @ WarError::ModuleSyncError { .. }) => {
            assert!(e.is_recoverable());
            if let WarError::ModuleSyncError { module, reason, partial_artifacts, .. } = e {
                assert_eq!(module, "a.com/x");
                assert_eq!(reason, "disk full");
                assert!(partial_artifacts.is_empty());
            }
        }
        other => panic!("unexpected: {:?}", other),
    }
}

#[test]
fn corrupted_archive_error_is_recoverable_with_hint() {
    let e = WarError::corrupted_archive("/a.zip".into(), "bad magic".into());
    assert!(e.is_recoverable());
    match e {
        WarError::CorruptedArchive { path, reason, hint } => {
            assert_eq!(path, "/a.zip");
            assert_eq!(reason, "bad magic");
            assert!(hint.contains("war go pack"));
        }
        other => panic!("unexpected: {:?}", other),
    }
    assert!(WarError::InvalidInput("x".into()).is_recoverable());
    assert!(!WarError::UserAborted.is_recoverable());
    assert!(!WarError::IOError("x".into()).is_recoverable());
}

#[test]
fn shell_detection_is_not_available() {
    assert_eq!(detect_shell().unwrap(), ShellType::Unknown);
    assert!(matches!(get_shell_rc_path(ShellType::Bash), Err(WarError::ShellDetectionError)));
}

#[test]
fn init_templates() {
    assert_eq!(go_mod_content("demo"), "module demo\n\ngo 1.22\n");
    let main = main_go_content();
    assert!(main.starts_with("package main\n"));
    assert!(main.contains("import (\n"));
    assert!(main.contains("// _ \"github.com/example/module\""));
    let go_mod = go_mod_content("test-project");
    assert!(go_mod.starts_with("module test-project"));
    assert!(go_mod.contains("go 1.22"));
}
