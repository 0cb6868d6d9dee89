//! Verified core of a conda-package mirroring tool.
//!
//! The library models conda package identities, resolves the platform a
//! package belongs to through a layered fallback chain, validates processed
//! packages against their checksums, and plans the writes a repository
//! backend must perform.  All I/O (HTTP, file system, object storage) is left
//! to the surrounding application; the library works on plain values.

pub mod archive;
pub mod azure;
pub mod conda_package;
pub mod config;
pub mod digest;
pub mod errors;
pub mod github;
pub mod json;
pub mod laws;
pub mod mirror;
pub mod pattern;
pub mod platform;
pub mod repository;
pub mod strutil;
pub mod urlpath;
