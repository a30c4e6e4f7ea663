//! Helpers for build scripts: validated path entities, freshness stamps and
//! conditional rebuilds, and glob-filtered directory content queries.
//!
//! The crate models paths as sequences of plain components, decides rebuilds
//! by comparing optional modification stamps, and keeps every decision rule
//! (path normalization, link overwrite policy, rewrite-on-change, glob
//! selection) as verified logic over plain values.

pub mod paths;
pub mod res;
pub mod fs;
pub mod content;

pub use content::{DirContent, EntryKind, WalkEntry};
pub use fs::{Dir, Error, File, FoundEntry, LinkAction, TouchAction, Unit, WriteAction};
pub use paths::{normalize, NormPath};
pub use res::{needs_rebuild, timestamp, AsResource, Freshness, Resource, ResourceSet};
