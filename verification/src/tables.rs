//! The two listings that the store keeps behind its locks.

pub mod answers;
pub mod questions;
