//! A user-space view of a flat document store: sidecar records, the entry
//! model built from them, and the handle tables and decisions behind each
//! filesystem callback.

pub mod direntry;
pub mod errno;
pub mod jsonmetadata;
pub mod scanner;
pub mod rmxfs;
