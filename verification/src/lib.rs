//! Translation between two content-addressed version-control object models:
//! a bidirectional hash index and a changeset reconstruction engine that
//! regenerates the exact target-format byte stream of a revision from the
//! source-format object plus a compact metadata side-record.

pub mod authorship;
pub mod bytes;
pub mod changeset;
pub mod commit;
pub mod digits;
pub mod errors;
pub mod hashes;
pub mod index;
pub mod metadata;
pub mod patch;
pub mod resolver;
pub mod store;
