//! Livability scoring: classification of points of interest, distance-decayed
//! contributions, deduplication and weighted score aggregation.
//!
//! Numbers are fixed-point integers: coordinates in units of 1e-7 degree,
//! distances in millimetres, contributions and scores in millionths of a
//! point, and ratios or weights in parts per million.

pub mod category;
pub mod geo;
pub mod tags;
pub mod facility;
pub mod scoring;
pub mod text;
pub mod classify;
pub mod contribution;
pub mod dedup;
pub mod location;
pub mod fetch;
pub mod query;
