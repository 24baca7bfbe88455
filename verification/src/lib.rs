//! Declarative UI composition over an incrementally mutated view tree.
//!
//! Application code declares nested views; a [`ui_tree::composer::Composer`]
//! places each of them in its parent's child list and remembers what a
//! signal-driven region inserted, so that the region can be replaced in place
//! when its signal fires.
pub mod android_executor;
pub mod bindings;
pub mod helpers;
pub mod slides;
pub mod style;
pub mod ui_tree;
