//! Binary search over a slice sorted in either direction.
//!
//! The slice may be sorted ascending or descending; the direction is read off
//! its first and last element. The search returns the index of an element
//! equal to the target, or `None` when there is none.

pub mod order;
pub mod model;
pub mod laws;
pub mod searching;

pub use searching::binary_search;
