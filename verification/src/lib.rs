//! Aggregation of MIME-type associations declared by desktop-application
//! metadata files, and the decision rules that bind each MIME type to one
//! handling application.
//!
//! The pipeline has three stages: locating candidate metadata files,
//! aggregating the MIME types they declare into an association map, and
//! resolving each map entry to a single dispatch decision.

pub mod aggregate;
pub mod assoc;
pub mod document;
pub mod locate;
pub mod resolve;
pub mod tokens;
