use war::error::WarError;
use war::unpack::{
    entry_outcome, unpack_exit_code,
    contains_traversal, denormalize_cache_path, entry_matches_staged_filter, is_idempotent_skip,
    plan_entry, should_remove_target, strip_leading_dot_slash, EntryAction, EntryOutcome,
    UnpackOpts, UnpackStats,
};

#[test]
fn test_strip_leading_dot_slash() {
    assert_eq!(strip_leading_dot_slash("./foo/bar"), "foo/bar");
    assert_eq!(strip_leading_dot_slash("foo/bar"), "foo/bar");
}

#[test]
fn test_contains_traversal() {
    assert!(contains_traversal("../../etc/passwd"));
    assert!(contains_traversal("foo/../bar"));
    assert!(!contains_traversal("github.com/gin/@v/v1.info"));
}

#[test]
fn test_denormalize_cache_path() {
    assert_eq!(
        denormalize_cache_path("github.com/gin-gonic/gin/@v/v1.9.1.info"),
        "github.com!gin-gonic!gin/@v/v1.9.1.info"
    );
    assert_eq!(
        denormalize_cache_path("golang.org/x/text/@v/v0.3.7.mod"),
        "golang.org!x!text/@v/v0.3.7.mod"
    );
}

#[test]
fn test_is_idempotent_skip() {
    // A file of five bytes ("hello") is at the destination.
    assert!(is_idempotent_skip(Some(5), 5));
    assert!(!is_idempotent_skip(Some(5), 10));
    assert!(!is_idempotent_skip(None, 5));
}

#[test]
fn denormalize_without_version_dir_replaces_slashes() {
    assert_eq!(denormalize_cache_path("a/b/c"), "a!b!c");
}

#[test]
fn entry_filter_matches_staged_pairs_only() {
    let filter = vec![("github.com/gin-gonic/gin".to_string(), "v1.9.1".to_string())];
    assert!(entry_matches_staged_filter("github.com/gin-gonic/gin/@v/v1.9.1.zip", &filter));
    assert!(!entry_matches_staged_filter("github.com/gin-gonic/gin/@v/v1.8.0.zip", &filter));
    assert!(!entry_matches_staged_filter("golang.org/x/text/@v/v0.3.7.mod", &filter));
    assert!(!entry_matches_staged_filter("short/path", &filter));
}

#[test]
fn plan_entry_rejects_traversal_and_unreadable_names() {
    let opts = UnpackOpts::default();
    assert_eq!(plan_entry(&Some("../../etc/passwd".to_string()), false, &opts), EntryAction::Failed);
    assert_eq!(plan_entry(&None, false, &opts), EntryAction::Failed);
}

#[test]
fn plan_entry_extracts_to_cache_layout() {
    let opts = UnpackOpts::default();
    assert_eq!(
        plan_entry(&Some("./golang.org/x/text/@v/v0.3.7.mod".to_string()), false, &opts),
        EntryAction::Extract("golang.org!x!text/@v/v0.3.7.mod".to_string())
    );
    assert_eq!(
        plan_entry(&Some("golang.org/x/text/@v/".to_string()), true, &opts),
        EntryAction::Directory
    );
}

#[test]
fn plan_entry_dry_run_and_filter() {
    let dry = UnpackOpts { dry_run: true, staged_filter: None };
    assert_eq!(
        plan_entry(&Some("a.com/m/@v/v1.info".to_string()), false, &dry),
        EntryAction::WouldExtract("a.com!m/@v/v1.info".to_string())
    );
    let filtered = UnpackOpts {
        dry_run: false,
        staged_filter: Some(vec![("a.com/m".to_string(), "v2".to_string())]),
    };
    assert_eq!(
        plan_entry(&Some("a.com/m/@v/v1.info".to_string()), false, &filtered),
        EntryAction::Filtered
    );
    assert_eq!(
        plan_entry(&Some("a.com/m/@v/v2.info".to_string()), false, &filtered),
        EntryAction::Extract("a.com!m/@v/v2.info".to_string())
    );
}

#[test]
fn unpack_stats_record_and_cleanup_decision() {
    let mut s = UnpackStats::new();
    s.record(EntryOutcome::Failed);
    s.record(EntryOutcome::NotCounted);
    assert_eq!(s, UnpackStats { extracted: 0, skipped: 0, failed: 1 });
    assert!(should_remove_target(&s, true));
    assert!(!should_remove_target(&s, false));
    s.record(EntryOutcome::Extracted);
    s.record(EntryOutcome::Skipped);
    assert_eq!(s, UnpackStats { extracted: 1, skipped: 1, failed: 1 });
    assert!(!should_remove_target(&s, true));
}

/// The unpack loop over entry names, as the library decides it: every
/// entry to extract is taken as written; returns the counts and the
/// destinations (relative to the target directory).
fn plan_archive(names: &[&str], opts: &UnpackOpts) -> (UnpackStats, Vec<String>) {
    let mut stats = UnpackStats::new();
    let mut written = Vec::new();
    for name in names {
        let action = plan_entry(&Some(name.to_string()), name.ends_with('/'), opts);
        if let EntryAction::Extract(dest) = &action {
            written.push(dest.clone());
        }
        let outcome = entry_outcome(&action, false, true);
        stats.record(outcome);
    }
    (stats, written)
}

#[test]
fn test_path_traversal_rejected() {
    let (stats, written) = plan_archive(
        &["../../etc/passwd", "github.com/safe/mod/@v/v1.0.0.info"],
        &UnpackOpts::default(),
    );
    assert_eq!(stats.extracted, 1, "safe entry must still be extracted");
    assert_eq!(stats.failed, 1, "traversal entry must be counted as failed");
    assert_eq!(written, vec!["github.com!safe!mod/@v/v1.0.0.info"]);
}

#[test]
fn test_dry_run_does_not_write_files() {
    let opts = UnpackOpts { dry_run: true, ..Default::default() };
    let (stats, written) = plan_archive(
        &["github.com/test/mod/@v/v1.0.0.info", "golang.org/x/text/@v/v0.3.7.info"],
        &opts,
    );
    assert_eq!(stats.extracted, 2);
    assert!(written.is_empty(), "dry-run must not write");
}

#[test]
fn test_staged_filter_extracts_only_matching() {
    let opts = UnpackOpts {
        staged_filter: Some(vec![("github.com/gin-gonic/gin".to_string(), "v1.9.1".to_string())]),
        ..Default::default()
    };
    let (stats, written) = plan_archive(
        &["github.com/gin-gonic/gin/@v/v1.9.1.mod", "golang.org/x/text/@v/v0.3.7.mod"],
        &opts,
    );
    assert_eq!(stats.extracted, 1, "only gin should be extracted");
    assert_eq!(stats.skipped, 1, "text should be skipped by filter");
    assert_eq!(written, vec!["github.com!gin-gonic!gin/@v/v1.9.1.mod"]);
}

#[test]
fn test_mixed_success_and_traversal() {
    let (stats, _) = plan_archive(
        &[
            "github.com/good/mod/@v/v1.0.0.info",
            "../escape/attempt",
            "github.com/also/good/@v/v2.0.0.info",
        ],
        &UnpackOpts::default(),
    );
    assert_eq!(stats.extracted, 2);
    assert_eq!(stats.failed, 1);
}

#[test]
fn entry_outcome_maps_each_action() {
    let ex = EntryAction::Extract("a!b/@v/v1.info".to_string());
    assert_eq!(entry_outcome(&ex, true, false), EntryOutcome::Skipped);
    assert_eq!(entry_outcome(&ex, false, true), EntryOutcome::Extracted);
    assert_eq!(entry_outcome(&ex, false, false), EntryOutcome::Failed);
    assert_eq!(entry_outcome(&EntryAction::Directory, false, true), EntryOutcome::NotCounted);
    assert_eq!(entry_outcome(&EntryAction::Filtered, false, true), EntryOutcome::Skipped);
    assert_eq!(entry_outcome(&EntryAction::Failed, false, true), EntryOutcome::Failed);
    assert_eq!(
        entry_outcome(&EntryAction::WouldExtract("x".to_string()), false, false),
        EntryOutcome::Extracted
    );
}

#[test]
fn every_entry_counted_once() {
    let outcomes = [
        EntryOutcome::Extracted,
        EntryOutcome::NotCounted,
        EntryOutcome::Failed,
        EntryOutcome::Skipped,
        EntryOutcome::Extracted,
    ];
    let mut s = UnpackStats::new();
    for o in outcomes {
        s.record(o);
    }
    assert_eq!(s, UnpackStats { extracted: 2, skipped: 1, failed: 1 });
    assert_eq!(s.extracted + s.skipped + s.failed, outcomes.len() - 1);
}

#[test]
fn unpack_exit_codes() {
    assert_eq!(unpack_exit_code(&Ok(UnpackStats { extracted: 3, skipped: 1, failed: 0 })), 0);
    assert_eq!(unpack_exit_code(&Ok(UnpackStats { extracted: 3, skipped: 1, failed: 1 })), 1);
    assert_eq!(unpack_exit_code(&Err(WarError::InvalidInput("x".into()))), 1);
}
