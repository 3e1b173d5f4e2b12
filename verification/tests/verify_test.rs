use war::verify::{
    verify_exit_code,
    check_cache_contents, check_goproxy, check_module_list, goproxy_cache_path, is_info_file,
    Finding, GoListOutcome, Severity, VerifyReport,
};

fn s(v: &str) -> Option<String> {
    Some(v.to_string())
}

#[test]
fn test_check_goproxy_not_set() {
    let f = check_goproxy(&None, false);
    assert_eq!(f.severity, Severity::Warning);
    assert!(f.message.contains("not set"));
    assert!(f.hint.is_some());
}

#[test]
fn test_check_goproxy_non_file_url() {
    let f = check_goproxy(&s("https://proxy.golang.org,direct"), false);
    assert_eq!(f.severity, Severity::Warning);
    assert!(f.message.contains("not a file://"));
}

#[test]
fn test_check_goproxy_file_url_nonexistent_path() {
    let value = s("file:///nonexistent/path/to/go/cache");
    assert_eq!(goproxy_cache_path(value.as_deref().unwrap()), "/nonexistent/path/to/go/cache");
    let f = check_goproxy(&value, false);
    assert_eq!(f.check, "GOPROXY");
    assert_eq!(f.severity, Severity::Error);
    assert!(f.message.contains("does not exist"));
    assert!(f.hint.is_some());
}

#[test]
fn test_check_goproxy_file_url_existing_path() {
    let f = check_goproxy(&s("file:///tmp/war-cache"), true);
    assert_eq!(f.severity, Severity::Okay, "existing path must be Ok: {:?}", f);
    assert!(f.hint.is_none());
}

#[test]
fn test_goproxy_ok_when_file_url_points_to_existing_dir() {
    let f = check_goproxy(&s("file:///tmp/war-cache"), true);
    assert_eq!(f.severity, Severity::Okay, "existing path must pass: {:?}", f);
    assert!(f.message.contains("✔"), "ok finding must contain ✔");
    assert!(f.hint.is_none());
    assert_eq!(f.message, "GOPROXY=file:///tmp/war-cache ✔  (path exists)");
}

#[test]
fn test_goproxy_error_when_path_missing() {
    let f = check_goproxy(&s("file:///definitely/does/not/exist/anywhere"), false);
    assert_eq!(f.severity, Severity::Error);
    assert!(f.message.contains("does not exist"));
    assert!(
        f.hint.as_deref().unwrap_or("").contains("war go unpack"),
        "hint must mention war go unpack"
    );
}

#[test]
fn test_goproxy_warning_when_not_set() {
    let f = check_goproxy(&None, false);
    assert_eq!(f.severity, Severity::Warning);
    assert!(f.message.contains("not set"));
}

#[test]
fn test_goproxy_warning_when_network_proxy() {
    let f = check_goproxy(&s("https://proxy.golang.org,direct"), false);
    assert_eq!(f.severity, Severity::Warning);
    assert!(f.message.contains("not a file://"));
}

#[test]
fn test_goproxy_warning_when_empty() {
    let f = check_goproxy(&s(""), false);
    assert_eq!(f.severity, Severity::Warning);
}

#[test]
fn goproxy_cache_path_strips_every_scheme_prefix() {
    assert_eq!(goproxy_cache_path("file://file:///x"), "/x");
    assert_eq!(goproxy_cache_path("/plain"), "/plain");
}

#[test]
fn cache_contents_findings() {
    let root: Result<String, String> = Ok("/h/.war/cache/go".to_string());
    let f = check_cache_contents(&root, false, 0);
    assert_eq!(f.check, "cache contents");
    assert_eq!(f.severity, Severity::Error);
    assert_eq!(f.message, "War cache directory does not exist: /h/.war/cache/go");

    let f = check_cache_contents(&root, true, 0);
    assert_eq!(f.severity, Severity::Error);
    assert!(f.message.contains("no .info files"));

    let f = check_cache_contents(&root, true, 12);
    assert_eq!(f.severity, Severity::Okay);
    assert_eq!(f.message, "War cache at /h/.war/cache/go ✔  (12 module version(s) present)");
    assert!(f.hint.is_none());

    let f = check_cache_contents(&Err("no home".to_string()), false, 0);
    assert_eq!(f.severity, Severity::Error);
    assert_eq!(f.message, "Cannot resolve war cache root: no home");
}

#[test]
fn info_file_names() {
    assert!(is_info_file("v1.9.1.info"));
    assert!(!is_info_file("v1.9.1.mod"));
    assert!(!is_info_file("v1.0.0.zip"));
    assert!(!is_info_file(".info"));
    assert!(!is_info_file("info"));
}

#[test]
fn module_list_findings() {
    let f = check_module_list(&GoListOutcome::NotFound);
    assert_eq!(f.check, "module list");
    assert_eq!(f.severity, Severity::Warning);

    let f = check_module_list(&GoListOutcome::SpawnFailed("denied".to_string()));
    assert_eq!(f.severity, Severity::Error);
    assert_eq!(f.message, "Failed to spawn `go list`: denied");

    let f = check_module_list(&GoListOutcome::Finished {
        success: true,
        stdout: "example.com/app\ngithub.com/a/b v1.0.0\n".to_string(),
        stderr: String::new(),
        exit_code: Some(0),
    });
    assert_eq!(f.severity, Severity::Okay);
    assert_eq!(f.message, "`go list -m all -mod=readonly` ✔  (2 module(s) resolved offline)");

    let f = check_module_list(&GoListOutcome::Finished {
        success: false,
        stdout: String::new(),
        stderr: "go: a: missing\n\ngo: b: missing\n".to_string(),
        exit_code: Some(1),
    });
    assert_eq!(f.severity, Severity::Error);
    assert!(f.message.starts_with("`go list -m all -mod=readonly` failed (exit 1): go: a: missing | go: b: missing"));

    let f = check_module_list(&GoListOutcome::Finished {
        success: false,
        stdout: String::new(),
        stderr: String::new(),
        exit_code: None,
    });
    assert!(f.message.contains("(exit code -1)"));
}

fn finding(check: &'static str, severity: Severity, message: &str, hint: Option<String>) -> Finding {
    Finding { check, severity, message: message.into(), hint }
}

#[test]
fn test_verify_report_is_ok_all_ok() {
    let mut r = VerifyReport::default();
    r.findings.push(finding("test", Severity::Okay, "all good", None));
    assert!(r.is_ok());
    assert_eq!(r.error_count(), 0);
    assert_eq!(r.warning_count(), 0);
}

#[test]
fn test_verify_report_is_not_ok_with_error() {
    let mut r = VerifyReport::default();
    r.findings.push(finding("test", Severity::Error, "broken", None));
    assert!(!r.is_ok());
    assert_eq!(r.error_count(), 1);
}

#[test]
fn test_verify_report_counts_warnings_separately() {
    let mut r = VerifyReport::default();
    r.findings.push(finding("a", Severity::Warning, "warn", None));
    r.findings.push(finding("b", Severity::Error, "err", None));
    assert!(!r.is_ok());
    assert_eq!(r.error_count(), 1);
    assert_eq!(r.warning_count(), 1);
}

#[test]
fn test_verify_report_all_ok() {
    let mut report = VerifyReport::default();
    for check in &["GOPROXY", "cache contents", "module list"] {
        report.findings.push(finding(check, Severity::Okay, "all good", None));
    }
    assert!(report.is_ok());
    assert_eq!(report.error_count(), 0);
    assert_eq!(report.warning_count(), 0);
}

#[test]
fn test_verify_report_error_breaks_ok() {
    let mut report = VerifyReport::default();
    report.findings.push(finding("GOPROXY", Severity::Error, "bad", Some("fix it".into())));
    report.findings.push(finding("cache contents", Severity::Okay, "fine", None));

    assert!(!report.is_ok());
    assert_eq!(report.error_count(), 1);
    assert_eq!(report.warning_count(), 0);
}

#[test]
fn test_verify_report_warnings_dont_count_as_errors() {
    let mut report = VerifyReport::default();
    report.findings.push(finding("GOPROXY", Severity::Warning, "maybe ok", None));
    assert!(!report.is_ok(), "warnings must not pass is_ok");
    assert_eq!(report.error_count(), 0);
    assert_eq!(report.warning_count(), 1);
}

#[test]
fn empty_report_is_ok() {
    let report = VerifyReport::default();
    assert!(report.is_ok());
    assert_eq!(report.error_count() + report.warning_count(), 0);
}

fn count_info(names: &[&str]) -> usize {
    names.iter().filter(|n| is_info_file(n)).count()
}

#[test]
fn test_count_info_files_empty_dir() {
    assert_eq!(count_info(&[]), 0);
}

#[test]
fn test_count_info_files_with_info_files() {
    assert_eq!(count_info(&["v1.9.1.info", "v1.9.1.mod", "v0.3.7.info"]), 2);
}

#[test]
fn test_count_info_files_ignores_non_info() {
    assert_eq!(count_info(&["v1.0.0.mod", "v1.0.0.zip"]), 0);
}

#[test]
fn verify_exit_code_follows_errors_only() {
    let mut report = VerifyReport::default();
    report.findings.push(finding("GOPROXY", Severity::Warning, "maybe ok", None));
    assert_eq!(verify_exit_code(&report), 0, "warnings do not raise the exit code");
    report.findings.push(finding("cache contents", Severity::Error, "bad", None));
    assert_eq!(verify_exit_code(&report), 1);
    assert_eq!(verify_exit_code(&VerifyReport::default()), 0);
}
