//! Tukey's range test for integer samples and for samples held as binary64
//! bit patterns.
//!
//! A sample is ordered, its two quartiles are read off the ordered copy as the
//! medians of its lower and upper halves, and every value of the sample that
//! lies within one and a half interquartile ranges of the quartiles is kept,
//! in the order in which the sample holds it.

pub mod binary64;
pub mod fence;
pub mod hinge;
pub mod laws;
pub mod median;
pub mod order;
pub mod subsequence;
pub mod tukey;

pub use tukey::{trim, Tukey};
