//! Traversal engine of an embedded graph database.
//!
//! A [`store::Snapshot`] is what one read transaction sees of the store. The
//! single-hop scans of [`hop`] walk its adjacency indexes and tables, the
//! builder of [`builder`] chains them over a working set, and [`tools`] holds
//! the query session with its step dispatcher and filter operator.

pub mod label_hash;
pub mod key;
pub mod element;
pub mod store;
pub mod stream;
pub mod hop;
pub mod builder;
pub mod tools;
