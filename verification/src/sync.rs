//! `war go sync`: copying the war cache into Go's native module cache
//! without ever overwriting a file that differs.
//!
//! A destination that does not exist is copied; one that exists with the
//! same size and SHA-256 digest is skipped; any other is a collision: it
//! is reported and left untouched.
use vstd::prelude::*;
use crate::error::WarError;
use crate::get::download_dir;
use crate::path::{path_join, path_join_exec};

pub use crate::unpack::contains_traversal;

verus! {

/// Aggregate statistics returned after a sync run.
#[derive(Debug, Clone, PartialEq, Eq, Default)]
pub struct SyncStats {
    /// Files successfully copied to the native Go module cache.
    pub copied: usize,
    /// Files skipped because the destination already matched (size + SHA-256).
    pub skipped: usize,
    /// Files that could not be copied.
    pub failed: usize,
    /// Files whose destination exists with different content.
    pub collisions: usize,
}

/// A destination file that differs from the source file.
#[derive(Debug, Clone)]
pub struct CollisionWarning {
    /// Path of the source file in the war cache.
    pub source: String,
    /// Path of the destination file in the native Go module cache.
    pub destination: String,
    /// SHA-256 hex digest of the source file.
    pub source_hash: String,
    /// SHA-256 hex digest of the destination file.
    pub destination_hash: String,
}

/// The full result of a sync operation: statistics plus collision warnings.
#[derive(Debug)]
pub struct SyncResult {
    /// Aggregate copy/skip/fail/collision counts.
    pub stats: SyncStats,
    /// Per-file collision details (empty when there are no conflicts).
    pub warnings: Vec<CollisionWarning>,
}

/// The outcome of syncing a single file.
#[derive(Debug)]
pub enum FileOutcome {
    /// The file was copied to the destination.
    Copied,
    /// The destination already held the same content.
    Skipped,
    /// The destination differs; it was not touched.
    Collision(CollisionWarning),
}

/// The outcome for a destination that already exists: skipped when it has
/// the source's size and digest, a collision (with both digests) otherwise.
pub fn compare_existing(
    src: &str,
    dst: &str,
    src_len: u64,
    dst_len: u64,
    src_hash: String,
    dst_hash: String,
) -> (o: FileOutcome)
    ensures
        !(o is Copied),
        (src_len == dst_len && src_hash@ == dst_hash@) ==> o is Skipped,
        !(src_len == dst_len && src_hash@ == dst_hash@) ==> (o matches FileOutcome::Collision(w)
            && w.source@ == src@ && w.destination@ == dst@ && w.source_hash@ == src_hash@
            && w.destination_hash@ == dst_hash@),
{
    if src_len == dst_len && src_hash == dst_hash {
        return FileOutcome::Skipped;
    }
    FileOutcome::Collision(
        CollisionWarning {
            source: String::from_str(src),
            destination: String::from_str(dst),
            source_hash: src_hash,
            destination_hash: dst_hash,
        },
    )
}

/// What to do with one file of the war cache.
#[derive(Debug, Clone, Copy, PartialEq, Eq)]
pub enum SyncStep {
    /// The destination does not exist: copy the file there.
    Copy,
    /// The destination exists: compare it with `compare_existing`, which
    /// never copies.
    Compare,
}

/// A file is copied only where the destination does not exist; an existing
/// destination is only ever compared, never overwritten.
pub fn plan_sync_file(dst_exists: bool) -> (step: SyncStep)
    ensures
        step == (if dst_exists {
            SyncStep::Compare
        } else {
            SyncStep::Copy
        }),
{
    if dst_exists {
        SyncStep::Compare
    } else {
        SyncStep::Copy
    }
}

/// The sum of a run's counters.
pub open spec fn stats_total(st: SyncStats) -> int {
    st.copied + st.skipped + st.failed + st.collisions
}

/// The counters and warnings after one file's outcome (`None` when the
/// file could not be synced).
pub open spec fn sync_step(st: SyncStats, ws: Seq<CollisionWarning>, o: Option<FileOutcome>) -> (
    SyncStats,
    Seq<CollisionWarning>,
) {
    match o {
        None => (SyncStats { failed: (st.failed + 1) as usize, ..st }, ws),
        Some(FileOutcome::Copied) => (SyncStats { copied: (st.copied + 1) as usize, ..st }, ws),
        Some(FileOutcome::Skipped) => (SyncStats { skipped: (st.skipped + 1) as usize, ..st }, ws),
        Some(FileOutcome::Collision(w)) => (
            SyncStats { collisions: (st.collisions + 1) as usize, ..st },
            ws.push(w),
        ),
    }
}

/// The counters and warnings after recording the outcomes `os` in order.
pub open spec fn sync_all(st: SyncStats, ws: Seq<CollisionWarning>, os: Seq<Option<FileOutcome>>) -> (
    SyncStats,
    Seq<CollisionWarning>,
)
    decreases os.len(),
{
    if os.len() == 0 {
        (st, ws)
    } else {
        let prev = sync_all(st, ws, os.drop_last());
        sync_step(prev.0, prev.1, os.last())
    }
}

/// Recording a run's outcomes counts every file exactly once, and there
/// is one collision warning per collision counted.
pub proof fn law_every_file_counted_once(
    st: SyncStats,
    ws: Seq<CollisionWarning>,
    os: Seq<Option<FileOutcome>>,
)
    requires
        stats_total(st) + os.len() < usize::MAX,
        st.collisions == ws.len(),
    ensures
        stats_total(sync_all(st, ws, os).0) == stats_total(st) + os.len(),
        sync_all(st, ws, os).0.collisions == sync_all(st, ws, os).1.len(),
    decreases os.len(),
{
    if os.len() > 0 {
        law_every_file_counted_once(st, ws, os.drop_last());
    }
}

/// The exit status of `war go sync`: 1 when it failed or some file could
/// not be synced; collisions and skips are not failures.
pub fn sync_exit_code(result: &Result<SyncResult, WarError>) -> (c: i32)
    ensures
        c == (match result {
            Ok(r) => if r.stats.failed > 0 {
                1i32
            } else {
                0i32
            },
            Err(_) => 1i32,
        }),
{
    match result {
        Ok(r) => if r.stats.failed > 0 {
            1
        } else {
            0
        },
        Err(_) => 1,
    }
}

impl SyncResult {
    /// No file processed yet.
    pub fn new() -> (r: Self)
        ensures
            r.stats == (SyncStats { copied: 0, skipped: 0, failed: 0, collisions: 0 }),
            r.warnings@.len() == 0,
    {
        SyncResult {
            stats: SyncStats { copied: 0, skipped: 0, failed: 0, collisions: 0 },
            warnings: Vec::new(),
        }
    }

    /// The number of files counted so far.
    pub open spec fn total(&self) -> int {
        self.stats.copied + self.stats.skipped + self.stats.failed + self.stats.collisions
    }

    /// Count one file: `None` when it could not be synced.
    pub fn record(&mut self, outcome: Option<FileOutcome>)
        requires
            old(self).total() < usize::MAX,
        ensures
            (final(self).stats, final(self).warnings@) == sync_step(
                old(self).stats,
                old(self).warnings@,
                outcome,
            ),
            final(self).total() == old(self).total() + 1,
            old(self).stats.collisions == old(self).warnings@.len() ==> final(self).stats.collisions
                == final(self).warnings@.len(),
            outcome is None ==> (final(self).stats == (SyncStats {
                failed: (old(self).stats.failed + 1) as usize,
                ..old(self).stats
            }) && final(self).warnings@ == old(self).warnings@),
            outcome matches Some(o) ==> (o is Copied ==> final(self).stats == (SyncStats {
                copied: (old(self).stats.copied + 1) as usize,
                ..old(self).stats
            }) && final(self).warnings@ == old(self).warnings@),
            outcome matches Some(o) ==> (o is Skipped ==> final(self).stats == (SyncStats {
                skipped: (old(self).stats.skipped + 1) as usize,
                ..old(self).stats
            }) && final(self).warnings@ == old(self).warnings@),
            outcome matches Some(o) ==> (o matches FileOutcome::Collision(w) ==> final(self).stats
                == (SyncStats {
                collisions: (old(self).stats.collisions + 1) as usize,
                ..old(self).stats
            }) && final(self).warnings@ == old(self).warnings@.push(w)),
    {
        match outcome {
            None => self.stats.failed = self.stats.failed + 1,
            Some(FileOutcome::Copied) => self.stats.copied = self.stats.copied + 1,
            Some(FileOutcome::Skipped) => self.stats.skipped = self.stats.skipped + 1,
            Some(FileOutcome::Collision(w)) => {
                self.stats.collisions = self.stats.collisions + 1;
                self.warnings.push(w);
            },
        }
    }
}

/// The error for a missing war cache.
pub open spec fn missing_source_msg(src: Seq<char>) -> Seq<char> {
    "War cache source does not exist: "@ + src + "\nRun `war go unpack <archive>` first (◕‿◕✿)"@
}

/// The error returned when the war cache to sync from does not exist.
pub fn missing_source_error(src: &str) -> (e: WarError)
    ensures
        e matches WarError::InvalidInput(m) && m@ == missing_source_msg(src@),
{
    let mut msg = String::from_str("War cache source does not exist: ");
    msg.append(src);
    msg.append("\nRun `war go unpack <archive>` first (◕‿◕✿)");
    WarError::InvalidInput(msg)
}

/// A set, non-empty environment value.
pub open spec fn set_value(v: Option<Seq<char>>) -> bool {
    v matches Some(s) && s.len() > 0
}

/// The native Go download cache: below `$GOMODCACHE` when set and not
/// empty, else below `$GOPATH/pkg/mod` when set and not empty, else below
/// `<home>/go/pkg/mod`.
pub open spec fn gomodcache_spec(
    gomodcache: Option<Seq<char>>,
    gopath: Option<Seq<char>>,
    home: Option<Seq<char>>,
) -> Option<Seq<char>> {
    if set_value(gomodcache) {
        Some(download_dir(gomodcache->0))
    } else if set_value(gopath) {
        Some(download_dir(path_join(path_join(gopath->0, "pkg"@), "mod"@)))
    } else {
        match home {
            Some(h) => Some(
                download_dir(path_join(path_join(path_join(h, "go"@), "pkg"@), "mod"@)),
            ),
            None => None,
        }
    }
}

/// The order in which the native cache is found: a non-empty `$GOMODCACHE`
/// `m` gives `m/cache/download`; otherwise a non-empty `$GOPATH` `g` gives
/// `g/pkg/mod/cache/download`; otherwise the home directory `h` gives
/// `h/go/pkg/mod/cache/download`.  A variable set to the empty string
/// counts as unset.
pub proof fn law_native_cache_resolution_order(
    gomodcache: Option<Seq<char>>,
    gopath: Option<Seq<char>>,
    home: Option<Seq<char>>,
)
    ensures
        (gomodcache is Some && gomodcache->0.len() > 0) ==> gomodcache_spec(gomodcache, gopath, home)
            == Some(path_join(path_join(gomodcache->0, "cache"@), "download"@)),
        !(gomodcache is Some && gomodcache->0.len() > 0) ==> ((gopath is Some && gopath->0.len() > 0)
            ==> gomodcache_spec(gomodcache, gopath, home) == Some(
            path_join(path_join(path_join(path_join(gopath->0, "pkg"@), "mod"@), "cache"@), "download"@),
        )),
        !(gomodcache is Some && gomodcache->0.len() > 0) && !(gopath is Some && gopath->0.len() > 0)
            ==> gomodcache_spec(gomodcache, gopath, home) == match home {
            Some(h) => Some(
                path_join(
                    path_join(path_join(path_join(path_join(h, "go"@), "pkg"@), "mod"@), "cache"@),
                    "download"@,
                ),
            ),
            None => None::<Seq<char>>,
        },
        gomodcache_spec(Some(Seq::empty()), gopath, home) == gomodcache_spec(None, gopath, home),
        gomodcache_spec(gomodcache, Some(Seq::empty()), home) == gomodcache_spec(
            gomodcache,
            None,
            home,
        ),
{
}

fn opt_view(o: &Option<String>) -> (r: Option<&str>)
    ensures
        match *o {
            Some(s) => r matches Some(t) && t@ == s@,
            None => r is None,
        },
{
    match o {
        Some(s) => Some(s.as_str()),
        None => None,
    }
}

/// Resolve the native Go module download cache from the values of
/// `$GOMODCACHE`, `$GOPATH` and the home directory.
pub fn gomodcache_download_dir(
    gomodcache: &Option<String>,
    gopath: &Option<String>,
    home: &Option<String>,
) -> (r: Result<String, WarError>)
    ensures
        match gomodcache_spec(
            crate::types::opt_string_view(*gomodcache),
            crate::types::opt_string_view(*gopath),
            crate::types::opt_string_view(*home),
        ) {
            Some(p) => r matches Ok(q) && q@ == p,
            None => r matches Err(WarError::InvalidInput(m)) && m@
                == "Cannot determine home directory to resolve GOMODCACHE"@,
        },
{
    if let Some(g) = opt_view(gomodcache) {
        if !g.is_empty() {
            let c = path_join_exec(g, "cache");
            return Ok(path_join_exec(c.as_str(), "download"));
        }
    }
    if let Some(p) = opt_view(gopath) {
        if !p.is_empty() {
            let a = path_join_exec(p, "pkg");
            let b = path_join_exec(a.as_str(), "mod");
            let c = path_join_exec(b.as_str(), "cache");
            return Ok(path_join_exec(c.as_str(), "download"));
        }
    }
    match opt_view(home) {
        Some(h) => {
            let a = path_join_exec(h, "go");
            let b = path_join_exec(a.as_str(), "pkg");
            let m = path_join_exec(b.as_str(), "mod");
            let c = path_join_exec(m.as_str(), "cache");
            Ok(path_join_exec(c.as_str(), "download"))
        },
        None => Err(
            WarError::InvalidInput(
                String::from_str("Cannot determine home directory to resolve GOMODCACHE"),
            ),
        ),
    }
}

} // verus!
