//! Reconstructing Go module cache entries from vendored modules: where
//! each module's files go, what its `.info` record says, and the `go.mod`
//! written when the vendored copy has none.
use vstd::prelude::*;
use crate::error::WarError;
use crate::path::{path_join, path_join_exec};
use crate::text::{chars_of, replace_char, replace_char_exec, string_of};
use crate::types::VendorModule;

verus! {

/// The cache directory name of a module path: `/` becomes `!`.
pub fn encode_module_path(path: &str) -> (r: String)
    ensures
        r@ == replace_char(path@, '/', '!'),
{
    string_of(&replace_char_exec(&chars_of(path), '/', '!'))
}

/// The `@v` directory of a module below the cache root.
pub open spec fn module_cache_dir_spec(cache_root: Seq<char>, path: Seq<char>) -> Seq<char> {
    path_join(path_join(cache_root, replace_char(path, '/', '!')), "@v"@)
}

/// Go cache layout: `<cache_root>/<module path with !>/@v`.
pub fn module_cache_dir(cache_root: &str, path: &str) -> (r: String)
    ensures
        r@ == module_cache_dir_spec(cache_root@, path@),
{
    let encoded = encode_module_path(path);
    let dir = path_join_exec(cache_root, encoded.as_str());
    path_join_exec(dir.as_str(), "@v")
}

/// The name of a version's file with extension `ext`: `<version>.<ext>`.
pub fn version_file_name(version: &str, ext: &str) -> (r: String)
    ensures
        r@ == version@ + seq!['.'] + ext@,
{
    let mut r = String::from_str(version);
    crate::text::push_char(&mut r, '.');
    r.append(ext);
    r
}

/// The `go.mod` written for a module whose vendored copy has none.
pub fn fallback_go_mod(path: &str) -> (r: String)
    ensures
        r@ == "module "@ + path@ + "\n\ngo 1.20\n"@,
{
    let mut r = String::from_str("module ");
    r.append(path);
    r.append("\n\ngo 1.20\n");
    r
}

/// Where an `.info` record says a module came from.
#[derive(Debug, Clone)]
pub struct InfoOrigin {
    /// Version control system.
    pub vcs: String,
    /// Repository URL.
    pub url: String,
    /// Revision (the version stands in for it offline).
    pub hash: String,
}

/// The fields of a module's `.info` file, all but the time, which is
/// taken when the file is written.
#[derive(Debug, Clone)]
pub struct InfoRecord {
    /// The module version.
    pub version: String,
    /// Origin data, for explicit modules only.
    pub origin: Option<InfoOrigin>,
}

/// The `.info` record of a vendored module: its version, and for a module
/// marked `## explicit` a git origin at `https://<path>` with the version
/// as its revision.
pub fn info_record(module: &VendorModule) -> (r: InfoRecord)
    ensures
        r.version@ == module.version@,
        module.explicit ==> (r.origin matches Some(o) && o.vcs@ == "git"@ && o.url@ == "https://"@
            + module.path@ && o.hash@ == module.version@),
        !module.explicit ==> r.origin is None,
{
    let origin = if module.explicit {
        let mut url = String::from_str("https://");
        url.append(module.path.as_str());
        Some(InfoOrigin { vcs: String::from_str("git"), url, hash: module.version.clone() })
    } else {
        None
    };
    InfoRecord { version: module.version.clone(), origin }
}

/// The result of reconstructing all modules from the per-module failures
/// `(module path, reason)`: success when there are none, else an error for
/// the first, marked recoverable.
pub fn first_sync_failure(failures: &Vec<(String, String)>) -> (r: Result<(), WarError>)
    ensures
        failures@.len() == 0 ==> r is Ok,
        failures@.len() > 0 ==> (r matches Err(WarError::ModuleSyncError {
            module,
            reason,
            partial_artifacts,
            recoverable,
        }) && module@ == failures@[0].0@ && reason@ == failures@[0].1@
            && partial_artifacts@.len() == 0 && recoverable),
{
    if failures.len() == 0 {
        return Ok(());
    }
    Err(
        WarError::ModuleSyncError {
            module: failures[0].0.clone(),
            reason: failures[0].1.clone(),
            partial_artifacts: Vec::new(),
            recoverable: true,
        },
    )
}

} // verus!
