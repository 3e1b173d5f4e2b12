use war::error::WarError;
use war::sha256::Sha256;
use war::sync::{
    plan_sync_file, sync_exit_code, SyncStep,
    compare_existing, contains_traversal, gomodcache_download_dir, missing_source_error, FileOutcome,
    SyncResult, SyncStats,
};

fn digest(data: &[u8]) -> String {
    let mut h = Sha256::new();
    h.update(data);
    h.finalize_hex()
}

#[test]
fn test_contains_traversal_rejects_parent() {
    assert!(contains_traversal("../../etc/passwd"));
    assert!(contains_traversal("foo/../bar"));
    assert!(!contains_traversal("github.com!gin-gonic!gin/@v/v1.9.1.info"));
}

/// The sync decision for a destination that already exists, counted.
fn sync_existing(src_content: &[u8], dst_content: &[u8]) -> SyncResult {
    let o = compare_existing(
        "src/mod/@v/v1.0.0.info",
        "dst/mod/@v/v1.0.0.info",
        src_content.len() as u64,
        dst_content.len() as u64,
        digest(src_content),
        digest(dst_content),
    );
    let mut r = SyncResult::new();
    r.record(Some(o));
    r
}

#[test]
fn test_sync_skips_identical_files() {
    let content = b"module github.com/gin-gonic/gin\n";
    let result = sync_existing(content, content);
    assert_eq!(result.stats.copied, 0, "expected skip, not copy");
    assert_eq!(result.stats.skipped, 1);
    assert_eq!(result.stats.collisions, 0);
}

#[test]
fn test_sync_warns_on_hash_collision() {
    let src_content = b"version: war-synced-content!";
    let dst_content = b"version: user-modified-stuff";
    assert_eq!(src_content.len(), dst_content.len(), "test requires same-size different-content files");

    let result = sync_existing(src_content, dst_content);

    assert_eq!(result.stats.collisions, 1, "expected exactly one collision");
    assert_eq!(result.stats.copied, 0, "should NOT overwrite on collision");
    assert_eq!(result.warnings.len(), 1);
    let w = &result.warnings[0];
    assert_eq!(w.source, "src/mod/@v/v1.0.0.info");
    assert_eq!(w.destination, "dst/mod/@v/v1.0.0.info");
    assert_eq!(w.source_hash, digest(src_content));
    assert_eq!(w.destination_hash, digest(dst_content));
}

#[test]
fn test_sync_warns_on_size_mismatch_collision() {
    let result = sync_existing(b"module x\n\ngo 1.22\n", b"module x\n");
    assert_eq!(result.stats.collisions, 1);
    assert_eq!(result.stats.copied, 0);
}

#[test]
fn test_sync_error_on_missing_src() {
    match missing_source_error("/tmp/x/nonexistent") {
        WarError::InvalidInput(msg) => {
            assert!(msg.contains("War cache source does not exist"), "unexpected msg: {}", msg);
        }
        other => panic!("expected InvalidInput, got: {:?}", other),
    }
}

#[test]
fn compare_existing_reports_size_mismatch_even_with_equal_hash_text() {
    let h = digest(b"x");
    assert!(matches!(
        compare_existing("/s", "/d", 1, 2, h.clone(), h),
        FileOutcome::Collision(_)
    ));
}

#[test]
fn sync_result_record_counts_each_outcome() {
    let mut r = SyncResult::new();
    r.record(Some(FileOutcome::Copied));
    r.record(Some(FileOutcome::Skipped));
    r.record(None);
    let o = compare_existing("/s", "/d", 1, 1, "aa".to_string(), "bb".to_string());
    r.record(Some(o));
    assert_eq!(r.stats, SyncStats { copied: 1, skipped: 1, failed: 1, collisions: 1 });
    assert_eq!(r.warnings.len(), 1);
    assert_eq!(r.warnings[0].destination, "/d");
}

#[test]
fn sync_missing_source_is_invalid_input() {
    match missing_source_error("/home/u/.war/cache/go") {
        WarError::InvalidInput(m) => {
            assert!(m.starts_with("War cache source does not exist: /home/u/.war/cache/go\n"));
            assert!(m.contains("war go unpack"));
        }
        other => panic!("unexpected: {:?}", other),
    }
}

#[test]
fn gomodcache_resolution_order() {
    let s = |v: &str| Some(v.to_string());
    assert_eq!(
        gomodcache_download_dir(&s("/gmc"), &s("/gp"), &s("/h")).unwrap(),
        "/gmc/cache/download"
    );
    assert_eq!(
        gomodcache_download_dir(&s(""), &s("/gp"), &s("/h")).unwrap(),
        "/gp/pkg/mod/cache/download"
    );
    assert_eq!(
        gomodcache_download_dir(&None, &s(""), &s("/h")).unwrap(),
        "/h/go/pkg/mod/cache/download"
    );
    match gomodcache_download_dir(&None, &None, &None) {
        Err(WarError::InvalidInput(m)) => {
            assert_eq!(m, "Cannot determine home directory to resolve GOMODCACHE")
        }
        other => panic!("unexpected: {:?}", other),
    }
}

#[test]
fn sync_copies_only_where_destination_is_missing() {
    assert_eq!(plan_sync_file(false), SyncStep::Copy);
    assert_eq!(plan_sync_file(true), SyncStep::Compare);
}

#[test]
fn every_file_counted_once_and_collisions_equal_warnings() {
    let mut r = SyncResult::new();
    let outcomes = vec![
        Some(FileOutcome::Copied),
        Some(compare_existing("/s/a", "/d/a", 1, 1, digest(b"a"), digest(b"b"))),
        None,
        Some(compare_existing("/s/b", "/d/b", 1, 1, digest(b"a"), digest(b"a"))),
        Some(compare_existing("/s/c", "/d/c", 1, 2, digest(b"a"), digest(b"cc"))),
    ];
    let n = outcomes.len();
    for o in outcomes {
        r.record(o);
    }
    let s = &r.stats;
    assert_eq!(s.copied + s.skipped + s.failed + s.collisions, n);
    assert_eq!(s.collisions, r.warnings.len());
    assert_eq!(*s, SyncStats { copied: 1, skipped: 1, failed: 1, collisions: 2 });
}

#[test]
fn sync_exit_codes() {
    let mut ok = SyncResult::new();
    ok.record(Some(compare_existing("/s", "/d", 1, 1, "a".into(), "b".into())));
    assert_eq!(sync_exit_code(&Ok(ok)), 0, "collisions are not failures");
    let mut bad = SyncResult::new();
    bad.record(None);
    assert_eq!(sync_exit_code(&Ok(bad)), 1);
    assert_eq!(sync_exit_code(&Err(WarError::InvalidInput("x".into()))), 1);
}
