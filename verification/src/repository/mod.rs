//! The contract of the store, and a store in memory that keeps it.
//!
//! The tables are sequences of rows. What each operation does to them is
//! a function on these sequences; the laws of the store are proved of
//! these functions, and the store in memory is proved to compute them.

pub mod images;
pub mod laws;
pub mod memory;
pub mod model;
