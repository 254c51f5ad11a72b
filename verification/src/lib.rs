//! Source-identity and update-detection engine for binaries installed by a
//! package manager.
//!
//! The crate models a package's origin (name, version, source URL), the
//! canonical form of that URL together with the hash that names on-disk
//! repository caches, and the per-source-kind update detection rules, and
//! proves the stated contracts of each.

pub mod cargo;
pub mod collect;
pub mod errors;
pub mod git;
pub mod models;
pub mod path;
pub mod registry;
pub mod strings;
pub mod table;
pub mod urls;
pub mod version;
