//! Which custom resource kinds of the platform's operators a cluster serves.
//!
//! The cluster is asked through `kube`'s discovery; this library fixes the API
//! groups that are in scope and turns what discovery found into a list of
//! group/version/kind identifiers.

pub mod cluster;
pub mod filter;
pub mod gvk;
pub mod model;
pub mod listing;
pub mod stackable;
pub mod laws;
