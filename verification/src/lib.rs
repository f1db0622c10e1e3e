//! Slotting numerical values into buckets.
//!
//! A [`Bucketizer`] holds an ordered list of half-open ranges, each tied to an
//! output value. [`Bucketizer::bucketize`] returns the value of the first range
//! that contains its input, or `None` when no range does.
//!
//! The mathematical model of the list and of the matching rule lives in
//! [`bucket`] and [`bucketizer`]; [`laws`] states what follows from it.

pub mod bucket;
pub mod bucketizer;
pub mod laws;

pub use bucket::Bucket;
pub use bucketizer::Bucketizer;
