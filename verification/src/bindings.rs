//! Bindings of the composer to platforms.
pub mod callback;
pub mod view_helpers;
