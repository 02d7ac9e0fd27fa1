//! Reports how the dependency requirements of a Cargo manifest changed
//! between two snapshots of it.
//!
//! A requirement such as `>=1.2, <1.5` is read into its comparators
//! ([`requirement`]). Each comparator allows a half-open interval of versions,
//! and a requirement allows the intersection of these ([`interval`]). Two
//! requirements are ordered as their intervals are, which is a partial order
//! ([`partial_order`]), and the change between them has a magnitude by the
//! rules of semantic versioning ([`change`]). The diff of two manifests
//! ([`diff`]) walks their dependency tables ([`manifest`]) in the order of the
//! keys and yields one record for each dependency that was added, removed or
//! whose requirement allows other versions than before.
//!
//! Texts are read by the `semver` crate ([`semver_bridge`]); everything that
//! follows is verified.

pub mod change;
pub mod diff;
pub mod interval;
pub mod manifest;
pub mod partial_order;
pub mod requirement;
pub mod semver_bridge;
pub mod text;

pub use crate::manifest::File as CargoTomlFile;
pub use crate::requirement::Version as SemverVersion;
