//! The store's decisions and encodings, apart from the database calls:
//! what resolving a relationship candidate writes, how statuses, ids,
//! timestamps and id lists are stored, and how the graph snapshot is built.
pub mod codec;
pub mod relationship;
pub mod rows;
pub mod revisions;
pub mod schema;

pub use relationship::{CandidateResolution, RelationshipScores};
