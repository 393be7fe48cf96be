//! Seed-deterministic, weighted selection of optional gameplay modifiers.
pub mod laws;
pub mod modifier;
pub mod seed;
pub mod stream;
pub mod touch;
