//! Shell detection (not yet implemented: every shell is reported as
//! unknown and has no rc file).
use vstd::prelude::*;
use crate::error::WarError;

verus! {

/// Detected shell type for environment management.
#[derive(Debug, Clone, Copy, PartialEq, Eq)]
pub enum ShellType {
    /// Bourne Again SHell (bash)
    Bash,
    /// Z Shell (zsh)
    Zsh,
    /// Friendly Interactive SHell (fish)
    Fish,
    /// Windows PowerShell
    PowerShell,
    /// Windows Command Prompt
    Cmd,
    /// Unknown or unsupported shell
    Unknown,
}

/// Detect the current user's shell: always `Unknown` for now.
pub fn detect_shell() -> (r: Result<ShellType, WarError>)
    ensures
        r matches Ok(ShellType::Unknown),
{
    Ok(ShellType::Unknown)
}

/// The path to the user's shell rc file: not determined yet, for any shell.
pub fn get_shell_rc_path(shell: ShellType) -> (r: Result<String, WarError>)
    ensures
        r matches Err(WarError::ShellDetectionError),
{
    Err(WarError::ShellDetectionError)
}

} // verus!
