//! Jaro-Winkler similarity, verified.
//!
//! The library computes the integer core of the Jaro-Winkler string
//! similarity: the greedy matching scan, the transposition count, and the
//! common-prefix length.  The final score is a fixed arithmetic formula over
//! these integers; a caller combines them into the floating-point value.

pub mod engine;
pub mod laws;
pub mod model;
pub mod tracker;

pub use engine::matching_distance;
pub use engine::similarity_parts;
pub use engine::Similarity;
pub use tracker::DataWrapper;
