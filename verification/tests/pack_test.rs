use war::error::WarError;
use war::pack::{matches_filter, normalize_cache_path, plan_pack, relative_components};
use war::unpack::denormalize_cache_path;

#[test]
fn test_normalize_cache_path_basic() {
    assert_eq!(
        normalize_cache_path("github.com!gin-gonic!gin/@v/v1.9.1.info"),
        "github.com/gin-gonic/gin/@v/v1.9.1.info"
    );
}

#[test]
fn test_normalize_cache_path_single_component() {
    assert_eq!(normalize_cache_path("singlemod/@v/v1.0.0.mod"), "singlemod/@v/v1.0.0.mod");
}

#[test]
fn test_matches_filter_positive() {
    let cache = "/tmp/t/cache";
    let file_path = "/tmp/t/cache/github.com!gin-gonic!gin/@v/v1.9.1.info";
    let filter = vec![("github.com/gin-gonic/gin".to_string(), "v1.9.1".to_string())];
    assert!(matches_filter(cache, file_path, &filter).unwrap());
}

#[test]
fn test_matches_filter_negative() {
    let cache = "/tmp/t/cache";
    let file_path = "/tmp/t/cache/github.com!other!mod/@v/v2.0.0.info";
    let filter = vec![("github.com/gin-gonic/gin".to_string(), "v1.9.1".to_string())];
    assert!(!matches_filter(cache, file_path, &filter).unwrap());
}

#[test]
fn matches_filter_latest_admits_every_version() {
    let filter = vec![("github.com/gin-gonic/gin".to_string(), "latest".to_string())];
    assert!(matches_filter("/c", "/c/github.com!gin-gonic!gin/@v/v1.0.0.zip", &filter).unwrap());
}

#[test]
fn matches_filter_errors() {
    let filter = vec![("a".to_string(), "v1".to_string())];
    match matches_filter("/c", "/elsewhere/a/@v/v1.info", &filter) {
        Err(WarError::InvalidInput(m)) => {
            assert_eq!(m, "Path /elsewhere/a/@v/v1.info not under cache root /c: prefix not found")
        }
        other => panic!("unexpected: {:?}", other),
    }
    match matches_filter("/c", "/c/a/b/c.info", &filter) {
        Err(WarError::InvalidInput(m)) => assert_eq!(m, "Invalid cache path (missing @v)"),
        other => panic!("unexpected: {:?}", other),
    }
    assert!(!matches_filter("/c", "/c/a/v1.info", &filter).unwrap());
}

#[test]
fn relative_components_strips_root() {
    let parts = relative_components("/c", "/c/a/@v/v1.info").unwrap();
    let texts: Vec<String> = parts.iter().map(|p| p.iter().collect()).collect();
    assert_eq!(texts, vec!["a", "@v", "v1.info"]);
    assert!(relative_components("/c", "/d/a").is_none());
}

#[test]
fn plan_pack_with_and_without_filter() {
    let files = vec![
        "/c/github.com!gin-gonic!gin/@v/v1.9.1.info".to_string(),
        "/c/golang.org!x!text/@v/v0.3.7.mod".to_string(),
    ];
    let all = plan_pack("/c", &files, &None).unwrap();
    assert_eq!(all.skipped, 0);
    assert_eq!(all.entries.len(), 2);
    assert_eq!(all.entries[0].file, files[0]);
    assert_eq!(all.entries[0].archive_path, "github.com/gin-gonic/gin/@v/v1.9.1.info");
    assert_eq!(all.entries[1].archive_path, "golang.org/x/text/@v/v0.3.7.mod");

    let filter = Some(vec![("golang.org/x/text".to_string(), "v0.3.7".to_string())]);
    let some = plan_pack("/c", &files, &filter).unwrap();
    assert_eq!(some.skipped, 1);
    assert_eq!(some.entries.len(), 1);
    assert_eq!(some.entries[0].archive_path, "golang.org/x/text/@v/v0.3.7.mod");
}

#[test]
fn plan_pack_rejects_file_outside_root() {
    let files = vec!["/elsewhere/x".to_string()];
    assert!(matches!(plan_pack("/c", &files, &None), Err(WarError::InvalidInput(_))));
}

#[test]
fn pack_then_unpack_path_roundtrip() {
    let cache_rel = "github.com!gin-gonic!gin/@v/v1.9.1.zip";
    let archive = normalize_cache_path(cache_rel);
    assert_eq!(archive, "github.com/gin-gonic/gin/@v/v1.9.1.zip");
    assert_eq!(denormalize_cache_path(&archive), cache_rel);
}
