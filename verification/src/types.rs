//! Shared domain types: vendored modules, staged modules and the Go and
//! Rust sections of the configuration.
//!
//! File-system paths are held as `String`s and timestamps as RFC 3339
//! text, so that every type holds plain values.
use vstd::prelude::*;

verus! {

/// A vendored module as its contents: path, version, `## explicit` flag,
/// Go version, packages and vendor directory.
pub struct SpecVendorModule {
    pub path: Seq<char>,
    pub version: Seq<char>,
    pub explicit: bool,
    pub go_version: Option<Seq<char>>,
    pub packages: Seq<Seq<char>>,
    pub vendor_path: Seq<char>,
}

/// Represents a single vendored module parsed from vendor/modules.txt.
#[derive(Debug, Clone, PartialEq)]
pub struct VendorModule {
    /// Module import path (e.g. "github.com/gin-gonic/gin").
    pub path: String,
    /// Module version (e.g. "v1.9.1").
    pub version: String,
    /// Whether this module is marked `## explicit`.
    pub explicit: bool,
    /// Minimum Go version requirement (from `## explicit; go 1.20`).
    pub go_version: Option<String>,
    /// List of packages (subdirectories) used from this module.
    pub packages: Vec<String>,
    /// Filesystem path to the vendored source directory.
    pub vendor_path: String,
}

/// The contents of a list of strings.
pub open spec fn strings_view(v: Seq<String>) -> Seq<Seq<char>> {
    v.map_values(|s: String| s@)
}

/// The contents of an optional string.
pub open spec fn opt_string_view(o: Option<String>) -> Option<Seq<char>> {
    match o {
        Some(s) => Some(s@),
        None => None,
    }
}

impl View for VendorModule {
    type V = SpecVendorModule;

    open spec fn view(&self) -> SpecVendorModule {
        SpecVendorModule {
            path: self.path@,
            version: self.version@,
            explicit: self.explicit,
            go_version: opt_string_view(self.go_version),
            packages: strings_view(self.packages@),
            vendor_path: self.vendor_path@,
        }
    }
}

/// Represents a single Go module entry parsed from vendor/modules.txt.
#[derive(Debug, Clone)]
pub struct ModuleInfo {
    /// Module path (e.g., "github.com/gin-gonic/gin").
    pub path: String,
    /// Version string (e.g., "v1.9.1").
    pub version: String,
    /// Optional hash from modules.txt for integrity verification.
    pub hash: Option<String>,
    /// Path to the vendored source directory.
    pub vendor_path: String,
}

/// Result of a module sync operation during cache reconstruction.
#[derive(Debug, Clone)]
pub struct SyncResult {
    /// Module that was processed.
    pub module: ModuleInfo,
    /// Whether the sync succeeded.
    pub success: bool,
    /// Paths to artifacts created (for cleanup on revert).
    pub artifacts: Vec<String>,
    /// Optional error message if failed.
    pub error: Option<String>,
}

/// Represents the outcome of an offline/online toggle operation.
#[derive(Debug, Clone)]
pub struct ToggleResult {
    /// Whether the operation succeeded.
    pub success: bool,
    /// Modules that were successfully synced.
    pub synced: Vec<ModuleInfo>,
    /// Modules that failed (with reasons).
    pub failed: Vec<(ModuleInfo, String)>,
    /// Environment variables that were modified.
    pub env_changes: Vec<(String, Option<String>)>,
}

/// A single staged module entry — a `(module_path, version)` pair.
///
/// The module path uses `/` separators (e.g. `github.com/gin-gonic/gin`),
/// the format of archive paths.  Staged pairs are ordered by module path,
/// then by version, each compared character by character.
#[derive(Debug, Clone, PartialEq, Eq, Hash, PartialOrd, Ord)]
pub struct StagedModule {
    /// Go module path, e.g. `github.com/gin-gonic/gin`.
    pub module: String,
    /// Semantic version, e.g. `v1.9.1`.
    pub version: String,
}

impl View for StagedModule {
    type V = (Seq<char>, Seq<char>);

    open spec fn view(&self) -> (Seq<char>, Seq<char>) {
        (self.module@, self.version@)
    }
}

/// The `(module, version)` contents of a list of staged modules.
pub open spec fn staged_views(v: Seq<StagedModule>) -> Seq<(Seq<char>, Seq<char>)> {
    v.map_values(|m: StagedModule| m@)
}

impl StagedModule {
    /// A staged module with the given path and version.
    pub fn new(module: &str, version: &str) -> (m: StagedModule)
        ensures
            m@ == (module@, version@),
    {
        StagedModule { module: String::from_str(module), version: String::from_str(version) }
    }

    /// A copy of this entry.
    pub fn duplicate(&self) -> (m: StagedModule)
        ensures
            m@ == self@,
    {
        StagedModule { module: self.module.clone(), version: self.version.clone() }
    }
}

/// Go-specific configuration tracked in war.lock.
#[derive(Debug, Clone)]
pub struct GoConfig {
    /// Path to the last-used vendor directory.
    pub last_vendor_path: Option<String>,
    /// Time of the last successful sync operation, as RFC 3339 text.
    pub last_sync_timestamp: Option<String>,
    /// Go version used during last sync (for compatibility checks).
    pub go_version: Option<String>,
    /// Modules explicitly staged for `pack --staged` / `unpack --staged`.
    pub staged_modules: Vec<StagedModule>,
}

impl Default for GoConfig {
    fn default() -> (g: Self)
        ensures
            g.last_vendor_path is None,
            g.last_sync_timestamp is None,
            g.go_version is None,
            g.staged_modules@.len() == 0,
    {
        GoConfig {
            last_vendor_path: None,
            last_sync_timestamp: None,
            go_version: None,
            staged_modules: Vec::new(),
        }
    }
}

/// Rust-specific configuration (placeholder for a future Rust toolkit).
#[derive(Debug, Clone)]
pub struct RustConfig {
    /// Path to the last-used Cargo vendor directory.
    pub last_vendor_path: Option<String>,
    /// Time of the last sync, as RFC 3339 text.
    pub last_sync_timestamp: Option<String>,
}

} // verus!
