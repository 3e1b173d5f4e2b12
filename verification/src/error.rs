//! The error type shared by every operation of the library.
//!
//! Errors that came from the file system, the archive format or the
//! configuration format carry their cause as a message, so that the type
//! holds plain values only.
use vstd::prelude::*;

verus! {

/// Unified error type for all war operations.
#[derive(Debug, Clone)]
pub enum WarError {
    /// A Go command failed with a non-zero exit code.
    GoCommandFailed {
        /// The command that was executed.
        command: String,
        /// Standard error output from the command.
        stderr: String,
        /// Exit code from the command.
        exit_code: i32,
    },
    /// Failed to parse vendor/modules.txt or similar metadata.
    VendorParseError {
        /// Path to the vendor file that couldn't be parsed.
        path: String,
        /// Reason for the parse failure.
        reason: String,
    },
    /// Error writing to the Go module cache during reconstruction.
    CacheWriteError {
        /// Module that failed to write.
        module: String,
        /// Description of the underlying I/O error.
        source: String,
    },
    /// Configuration file (war.lock) read/write/parsing error.
    ConfigError {
        /// Description of the error that caused the configuration failure.
        source: String,
    },
    /// Failed to detect or interact with the user's shell.
    ShellDetectionError,
    /// Error creating a .zip archive.
    ZipCreationError {
        /// Module (or archive entry) being archived.
        module: String,
        /// Description of the archive error.
        source: String,
    },
    /// A zip archive is corrupt, truncated, or otherwise unreadable.
    CorruptedArchive {
        /// Filesystem path to the corrupt archive.
        path: String,
        /// Human-readable description of what went wrong.
        reason: String,
        /// Actionable suggestion shown to the user.
        hint: String,
    },
    /// User explicitly aborted an interactive operation.
    UserAborted,
    /// Module sync failed with partial artifacts created.
    ModuleSyncError {
        /// Module that failed to sync.
        module: String,
        /// Reason for the sync failure.
        reason: String,
        /// Paths to artifacts created before the failure.
        partial_artifacts: Vec<String>,
        /// Whether the operation can be retried.
        recoverable: bool,
    },
    /// I/O operation failed during file or directory access.
    IOError(String),
    /// Failed to parse a file or data structure.
    ParseError(String),
    /// Invalid input provided by the caller or user.
    InvalidInput(String),
}

/// The retry hint that `WarError::corrupted_archive` attaches.
pub open spec fn corrupted_archive_hint() -> Seq<char> {
    "Re-create the archive with `war go pack` or re-download it from your source."@
}

impl WarError {
    /// Whether an error is safe to retry after user intervention.
    pub open spec fn spec_recoverable(&self) -> bool {
        match self {
            WarError::CorruptedArchive { .. } => true,
            WarError::ModuleSyncError { recoverable, .. } => *recoverable,
            WarError::InvalidInput(_) => true,
            _ => false,
        }
    }

    /// Construct a `CorruptedArchive` error with the standard retry hint.
    pub fn corrupted_archive(path: String, reason: String) -> (e: Self)
        ensures
            e matches WarError::CorruptedArchive { path: p, reason: r, hint: h } && p == path
                && r == reason && h@ == corrupted_archive_hint(),
    {
        let hint = String::from_str(
            "Re-create the archive with `war go pack` or re-download it from your source.",
        );
        WarError::CorruptedArchive { path, reason, hint }
    }

    /// Returns `true` if this error is safe to retry after user intervention:
    /// a corrupted archive, invalid input, or a module sync error marked
    /// recoverable.
    pub fn is_recoverable(&self) -> (r: bool)
        ensures
            r == self.spec_recoverable(),
    {
        match self {
            WarError::CorruptedArchive { .. } => true,
            WarError::ModuleSyncError { recoverable, .. } => *recoverable,
            WarError::InvalidInput(_) => true,
            _ => false,
        }
    }
}

} // verus!
