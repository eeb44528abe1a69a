//! A change-detection registry for polled remote records.
//!
//! The library keeps the last observed content per record key, classifies
//! each incoming record as added, changed or unchanged, and prunes stale
//! entries on a periodic tick boundary. Decoding and row extraction for the
//! polled page are provided behind small trusted wrappers; the registry
//! logic itself is verified.

pub mod model;
pub mod registry;
pub mod laws;
pub mod ingest;
