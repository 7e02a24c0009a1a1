//! Test-fixture scaffolding: typed locations inside a working directory,
//! and a pattern-filtered plan for mirroring a source tree under a
//! destination root.
//!
//! Locations are modelled lexically as sequences of path segments, so that
//! joining, prefix-stripping and glob matching are ordinary verified
//! functions; the filesystem calls that realise a plan live outside this
//! library.

pub mod error;
pub mod glob;
pub mod path;
pub mod plan;
