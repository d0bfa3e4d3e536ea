//! A small verified kernel for 2-dimensional computational geometry.
//!
//! The crate provides three primitives — infinite lines in implicit form,
//! rays, and bounded segments — together with the conversions between them,
//! point-distance queries, the closest-point projection onto a segment, and
//! a segment-segment intersection classification.
//!
//! Coordinates are exact rational scalars (see [`rational`]): every
//! operation in this crate is exact, and each contract states the returned
//! value as a rational-arithmetic formula over the inputs.  Operations that
//! inherently need a square root (unsigned distances, lengths, normalizing
//! a direction) are not part of the verified kernel; where a construction
//! needs a length, the caller supplies it and the contract demands that its
//! square is exact.

pub mod distance_to_point;
pub mod infinite;
pub mod intersection;
pub mod operations;
pub mod rational;
pub mod ray;
pub mod segment;
pub mod vector;
