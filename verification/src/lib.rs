//! Verified core of `war`, an offline-first dependency manager for Go:
//! the staged-module list, the vendor manifest parser, the archive and
//! cache path mapping, the SHA-256 digest used to compare cache files,
//! and the decisions of pack, unpack, sync and verify.
pub mod cache;
pub mod config;
pub mod error;
pub mod get;
pub mod init;
pub mod offline;
pub mod order;
pub mod pack;
pub mod path;
pub mod sha256;
pub mod shell;
pub mod stage;
pub mod text;
pub mod sync;
pub mod types;
pub mod unpack;
pub mod vendor;
pub mod verify;
