//! A generic binary search over a slice sorted under a total order.
//!
//! [`search::binary_search`] returns the index of an element equal to the
//! target, or `None`; its contract pins the result down to the one that the
//! midpoint path of [`search::outcome`] reaches. [`order`] holds the
//! vocabulary of sortedness and occurrence that the contracts use.
pub mod order;
pub mod search;

pub use search::binary_search;
