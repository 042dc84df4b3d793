//! Quality-corrected pairwise genome similarity.
//!
//! Sketch-based Jaccard estimates between genome assemblies are corrected for
//! the completeness of each assembly, and the all-pairs evaluation enumerates
//! every unordered genome pair exactly once, row by row.
pub mod correction;
pub mod engine;
pub mod pairs;
pub mod quality;
