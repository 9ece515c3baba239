//! Incremental reconciliation of ordered snapshots: stable content
//! fingerprints, change detection between two versions of a list,
//! identity-preserving reordering, and a small error-recovery toolkit.
//! Around that core: a curl command-line reader, and the records and
//! lookups of the market data that the snapshots are made of.

pub mod base;
pub mod base64;
pub mod detector;
pub mod error;
pub mod favorite;
pub mod hash;
pub mod http;
pub mod image;
pub mod items;
pub mod lemmas;
pub mod model;
pub mod recovery;
pub mod reorder;
pub mod report;
pub mod summary;
pub mod text;
pub mod toast;
pub mod trade;
