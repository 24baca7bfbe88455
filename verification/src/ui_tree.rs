//! The view tree and the composer that mutates it.
pub mod composer;
pub mod laws;
pub mod platform;
pub mod tree;
